//! Archive-manager core: format catalog and capabilities, path safety,
//! listing parsers, conflict resolution and the decisions behind the archive
//! engines.
use vstd::prelude::*;

pub mod associations;
pub mod consistency;
pub mod disk_image;
pub mod dispatch;
pub mod drag;
pub mod errors;
pub mod inputs;
pub mod listing;
pub mod models;
pub mod paths;
pub mod rar_engine;
pub mod raw_stream;
pub mod session;
pub mod sevenz_engine;
pub mod text;
pub mod zip_engine;

verus! {

} // verus!
