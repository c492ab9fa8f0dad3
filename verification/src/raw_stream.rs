//! Single-file compressed streams (`.gz`, `.bz2`): their listing, the name
//! of the file they hold, compression levels, and compressing and
//! decompressing through the `flate2` and `bzip2` crates.
use vstd::prelude::*;
use std::io::{Read, Write};
use crate::errors::{error_with, is_error, ArchiveError, ErrorKind};
use crate::models::{ArchiveEntry, EntryView};
use crate::paths::{file_stem, path_stem};
use crate::text::{chars_of, str_eq};

verus! {

broadcast use vstd::string::group_string_axioms;

// ---------------------------------------------------------------------------
// Compression levels
// ---------------------------------------------------------------------------

/// Calls `flate2::Compression::fast()` and reads its level; the crate
/// defines it as level 1.
#[verifier::external_body]
fn gz_fast_level() -> (r: u32)
    ensures
        r == 1,
{
    flate2::Compression::fast().level()
}

/// Calls `flate2::Compression::best()` and reads its level; the crate
/// defines it as level 9.
#[verifier::external_body]
fn gz_best_level() -> (r: u32)
    ensures
        r == 9,
{
    flate2::Compression::best().level()
}

/// Calls `flate2::Compression::default()` and reads its level; the crate
/// defines it as level 6.
#[verifier::external_body]
fn gz_default_level() -> (r: u32)
    ensures
        r == 6,
{
    <flate2::Compression as Default>::default().level()
}

/// Calls `bzip2::Compression::best()` and reads its level; the crate
/// defines it as level 9.
#[verifier::external_body]
fn bz2_best_level() -> (r: u32)
    ensures
        r == 9,
{
    bzip2::Compression::best().level()
}

/// The deflate level for a compression choice of the user interface:
/// `Fast` is 1, `Maximum` is 9, anything else is the default 6.
pub open spec fn deflate_level(level: Seq<char>) -> u32 {
    if level == "Fast"@ {
        1
    } else if level == "Maximum"@ {
        9
    } else {
        6
    }
}

/// The gzip level for a compression choice, as `flate2` names them.
pub fn gz_compression_level(level: &str) -> (r: u32)
    ensures
        r == deflate_level(level@),
{
    if str_eq(level, "Fast") {
        gz_fast_level()
    } else if str_eq(level, "Maximum") {
        gz_best_level()
    } else {
        gz_default_level()
    }
}

/// The bzip2 level used for every `.bz2` and `.tar.bz2` written: the best.
pub fn bz2_compression_level() -> (r: u32)
    ensures
        r == 9,
{
    bz2_best_level()
}

// ---------------------------------------------------------------------------
// What the compression crates compute
// ---------------------------------------------------------------------------

/// What `flate2`'s gzip decoder gives for a stream: the decompressed bytes
/// of its first member, or the message of the failure.
pub uninterp spec fn gz_decoded_of(data: Seq<u8>) -> Result<Seq<u8>, Seq<char>>;

/// What `bzip2`'s decoder gives for a stream: the decompressed bytes, or the
/// message of the failure.
pub uninterp spec fn bz2_decoded_of(data: Seq<u8>) -> Result<Seq<u8>, Seq<char>>;

/// What `flate2`'s gzip encoder writes for the bytes at a level.
pub uninterp spec fn gz_encoded_of(data: Seq<u8>, level: u32) -> Result<Seq<u8>, Seq<char>>;

/// What `bzip2`'s encoder writes for the bytes at the best level.
pub uninterp spec fn bz2_encoded_of(data: Seq<u8>) -> Result<Seq<u8>, Seq<char>>;

pub open spec fn bytes_result(r: Result<Vec<u8>, String>) -> Result<Seq<u8>, Seq<char>> {
    match r {
        Ok(v) => Ok(v@),
        Err(m) => Err(m@),
    }
}

/// Reads the bytes through `flate2::read::GzDecoder` to the end. Claimed:
/// the outcome depends on the bytes alone, named `gz_decoded_of`.
#[verifier::external_body]
fn gz_decode(data: &[u8]) -> (r: Result<Vec<u8>, String>)
    ensures
        bytes_result(r) == gz_decoded_of(data@),
{
    let mut out = Vec::new();
    flate2::read::GzDecoder::new(data).read_to_end(&mut out).map(|_| out).map_err(|e| e.to_string())
}

/// Reads the bytes through `bzip2::read::BzDecoder` to the end. Claimed:
/// the outcome depends on the bytes alone, named `bz2_decoded_of`.
#[verifier::external_body]
fn bz2_decode(data: &[u8]) -> (r: Result<Vec<u8>, String>)
    ensures
        bytes_result(r) == bz2_decoded_of(data@),
{
    let mut out = Vec::new();
    bzip2::read::BzDecoder::new(data).read_to_end(&mut out).map(|_| out).map_err(|e| e.to_string())
}

/// Writes the bytes through `flate2::write::GzEncoder` at `level` into
/// memory and finishes the stream. Claimed: the outcome depends on the
/// arguments alone, named `gz_encoded_of`, and a stream it writes decodes
/// back to the bytes (what a gzip encoder and decoder are for). Levels above
/// 9 are left out: the zlib backend asserts against them.
#[verifier::external_body]
fn gz_encode(data: &[u8], level: u32) -> (r: Result<Vec<u8>, String>)
    requires
        level <= 9,
    ensures
        bytes_result(r) == gz_encoded_of(data@, level),
        match r {
            Ok(z) => gz_decoded_of(z@) == Ok::<Seq<u8>, Seq<char>>(data@),
            Err(_) => true,
        },
{
    let mut e = flate2::write::GzEncoder::new(Vec::new(), flate2::Compression::new(level));
    e.write_all(data).map_err(|e| e.to_string())?;
    e.finish().map_err(|e| e.to_string())
}

/// Writes the bytes through `bzip2::write::BzEncoder` at the best level into
/// memory and finishes the stream. Claimed: the outcome depends on the bytes
/// alone, named `bz2_encoded_of`, and a stream it writes decodes back to the
/// bytes.
#[verifier::external_body]
fn bz2_encode(data: &[u8]) -> (r: Result<Vec<u8>, String>)
    ensures
        bytes_result(r) == bz2_encoded_of(data@),
        match r {
            Ok(z) => bz2_decoded_of(z@) == Ok::<Seq<u8>, Seq<char>>(data@),
            Err(_) => true,
        },
{
    let mut e = bzip2::write::BzEncoder::new(Vec::new(), bzip2::Compression::best());
    e.write_all(data).map_err(|e| e.to_string())?;
    e.finish().map_err(|e| e.to_string())
}

// ---------------------------------------------------------------------------
// Listing
// ---------------------------------------------------------------------------

/// The gzip trailer's ISIZE: the uncompressed size modulo 2^32, stored
/// little-endian in the last four bytes.
pub open spec fn gzip_isize(data: Seq<u8>) -> u64
    recommends
        data.len() >= 4,
{
    let n = data.len();
    (data[n - 4] + 256 * data[n - 3] + 65536 * data[n - 2] + 16777216 * data[n - 1]) as u64
}

/// The name of the file a stream holds: the archive's stem, or `fallback`
/// for a path without a file name.
pub open spec fn stream_name(path: Seq<char>, fallback: Seq<char>) -> Seq<char> {
    match path_stem(path) {
        Some(s) => s,
        None => fallback,
    }
}

/// The uncompressed size reported for a stream of a format, or the failure.
pub open spec fn raw_size(format: Seq<char>, data: Seq<u8>) -> Result<u64, Seq<char>> {
    if format == "gz"@ {
        Ok(if data.len() >= 4 { gzip_isize(data) } else { data.len() as u64 })
    } else {
        match bz2_decoded_of(data) {
            Ok(d) => Ok(d.len() as u64),
            Err(m) => Err(m),
        }
    }
}

/// The one entry listed for a stream.
pub open spec fn raw_entry_view(path: Seq<char>, size: u64, compressed: u64) -> EntryView {
    EntryView {
        name: stream_name(path, "compressed-file"@),
        kind: "File"@,
        size,
        compressed_size: compressed,
        modified: None,
        is_dir: false,
    }
}

fn stream_name_exec(path: &str, fallback: &str) -> (r: String)
    ensures
        r@ == stream_name(path@, fallback@),
{
    let p = chars_of(path);
    match file_stem(p.as_slice()) {
        Some(s) => s,
        None => String::from_str(fallback),
    }
}

/// The listing of a `.gz` or `.bz2` file from its bytes: one file named after
/// the archive's stem ("compressed-file" without one), whose size is the
/// gzip trailer's ISIZE (the byte count for a stream shorter than four
/// bytes), or for bzip2 the length of the decompressed data.
pub fn inspect_raw_compressed(path: &str, format: &str, data: &[u8]) -> (r: Result<
    Vec<ArchiveEntry>,
    ArchiveError,
>)
    ensures
        !(format@ == "gz"@ || format@ == "bz2"@) ==> (r matches Err(e) && is_error(
            e,
            ErrorKind::InvalidInput,
            "Unsupported format: "@ + format@,
        )),
        format@ == "gz"@ || format@ == "bz2"@ ==> match raw_size(format@, data@) {
            Ok(size) => r matches Ok(v) && v@.len() == 1 && v@[0]@ == raw_entry_view(
                path@,
                size,
                data@.len() as u64,
            ),
            Err(m) => r matches Err(e) && is_error(e, ErrorKind::InvalidData, m),
        },
{
    let compressed = data.len() as u64;
    let size: u64 = if str_eq(format, "gz") {
        let n = data.len();
        if n >= 4 {
            let b0 = data[n - 4] as u64;
            let b1 = data[n - 3] as u64;
            let b2 = data[n - 2] as u64;
            let b3 = data[n - 1] as u64;
            b0 + 256 * b1 + 65536 * b2 + 16777216 * b3
        } else {
            compressed
        }
    } else if str_eq(format, "bz2") {
        match bz2_decode(data) {
            Ok(d) => d.len() as u64,
            Err(m) => {
                return Err(ArchiveError { kind: ErrorKind::InvalidData, message: m });
            },
        }
    } else {
        return Err(error_with(ErrorKind::InvalidInput, "Unsupported format: ", format));
    };
    let entry = ArchiveEntry {
        name: stream_name_exec(path, "compressed-file"),
        kind: String::from_str("File"),
        size,
        compressed_size: compressed,
        modified: None,
        is_dir: false,
    };
    let mut v: Vec<ArchiveEntry> = Vec::new();
    v.push(entry);
    Ok(v)
}

// ---------------------------------------------------------------------------
// Extraction and creation
// ---------------------------------------------------------------------------

/// The name of the file extracted from a stream: the archive's stem, or
/// "output" for a path without a file name.
pub fn raw_output_name(path: &str) -> (r: String)
    ensures
        r@ == stream_name(path@, "output"@),
{
    stream_name_exec(path, "output")
}

/// Removing entries from a single-file stream: the one file it holds (listed
/// under the archive's stem, see `inspect_raw_compressed`) is kept unless its
/// name is among `names`; a stream whose file is removed is rewritten empty.
pub fn raw_keeps_file(path: &str, names: &Vec<String>) -> (r: bool)
    ensures
        r == !names.deep_view().contains(stream_name(path@, "compressed-file"@)),
{
    let listed = stream_name_exec(path, "compressed-file");
    let mut i: usize = 0;
    while i < names.len()
        invariant
            i <= names@.len(),
            listed@ == stream_name(path@, "compressed-file"@),
            forall|k: int| 0 <= k < i ==> names.deep_view()[k] != listed@,
        decreases names@.len() - i,
    {
        assert(names.deep_view()[i as int] == names@[i as int]@);
        if str_eq(names[i].as_str(), listed.as_str()) {
            assert(names.deep_view().contains(listed@));
            return false;
        }
        i = i + 1;
    }
    true
}

/// The decompressed content of a stream of a format.
pub open spec fn decompressed_of(format: Seq<char>, data: Seq<u8>) -> Result<Seq<u8>, Seq<char>> {
    if format == "gz"@ {
        gz_decoded_of(data)
    } else {
        bz2_decoded_of(data)
    }
}

/// The compressed stream of a format for the bytes, at a compression choice.
pub open spec fn compressed_of(format: Seq<char>, level: Seq<char>, data: Seq<u8>) -> Result<
    Seq<u8>,
    Seq<char>,
> {
    if format == "gz"@ {
        gz_encoded_of(data, deflate_level(level))
    } else {
        bz2_encoded_of(data)
    }
}

/// The content of the file held by a `.gz` or `.bz2` stream.
pub fn decompress_raw(format: &str, data: &[u8]) -> (r: Result<Vec<u8>, ArchiveError>)
    ensures
        !(format@ == "gz"@ || format@ == "bz2"@) ==> (r matches Err(e) && is_error(
            e,
            ErrorKind::InvalidInput,
            "Unsupported format: "@ + format@,
        )),
        format@ == "gz"@ || format@ == "bz2"@ ==> match decompressed_of(format@, data@) {
            Ok(d) => r matches Ok(v) && v@ == d,
            Err(m) => r matches Err(e) && is_error(e, ErrorKind::InvalidData, m),
        },
{
    let decoded = if str_eq(format, "gz") {
        gz_decode(data)
    } else if str_eq(format, "bz2") {
        bz2_decode(data)
    } else {
        return Err(error_with(ErrorKind::InvalidInput, "Unsupported format: ", format));
    };
    match decoded {
        Ok(v) => Ok(v),
        Err(m) => Err(ArchiveError { kind: ErrorKind::InvalidData, message: m }),
    }
}

/// The checks before a stream is written: exactly one input, and it must be
/// a file (`is_file` reports whether the first input is one). Gives the
/// input's path.
pub fn create_raw_compressed(inputs: &Vec<String>, format: &str, is_file: bool) -> (r: Result<
    String,
    ArchiveError,
>)
    ensures
        inputs@.len() != 1 ==> (r matches Err(e) && is_error(
            e,
            ErrorKind::InvalidInput,
            "."@ + format@ + " archives contain one compressed file; select exactly one input"@,
        )),
        inputs@.len() == 1 && !is_file ==> (r matches Err(e) && is_error(
            e,
            ErrorKind::InvalidInput,
            "GZ/BZ2 creation requires a file"@,
        )),
        inputs@.len() == 1 && is_file ==> (r matches Ok(p) && p@ == inputs@[0]@),
{
    if inputs.len() != 1 {
        let mut message = String::from_str(".");
        message.append(format);
        message.append(" archives contain one compressed file; select exactly one input");
        return Err(ArchiveError { kind: ErrorKind::InvalidInput, message });
    }
    if !is_file {
        return Err(
            ArchiveError {
                kind: ErrorKind::InvalidInput,
                message: String::from_str("GZ/BZ2 creation requires a file"),
            },
        );
    }
    Ok(inputs[0].clone())
}

/// The `.gz` or `.bz2` stream for the content of a file, gzip at the
/// compression choice `level`, bzip2 at its best level. A stream it returns
/// decompresses back to the content.
pub fn compress_raw(format: &str, level: &str, data: &[u8]) -> (r: Result<Vec<u8>, ArchiveError>)
    ensures
        !(format@ == "gz"@ || format@ == "bz2"@) ==> (r matches Err(e) && is_error(
            e,
            ErrorKind::InvalidInput,
            "Unsupported format: "@ + format@,
        )),
        format@ == "gz"@ || format@ == "bz2"@ ==> match compressed_of(format@, level@, data@) {
            Ok(z) => r matches Ok(v) && v@ == z,
            Err(m) => r matches Err(e) && is_error(e, ErrorKind::Other, m),
        },
        r matches Ok(v) ==> decompressed_of(format@, v@) == Ok::<Seq<u8>, Seq<char>>(data@),
{
    let encoded = if str_eq(format, "gz") {
        gz_encode(data, gz_compression_level(level))
    } else if str_eq(format, "bz2") {
        bz2_encode(data)
    } else {
        return Err(error_with(ErrorKind::InvalidInput, "Unsupported format: ", format));
    };
    match encoded {
        Ok(v) => Ok(v),
        Err(m) => Err(ArchiveError { kind: ErrorKind::Other, message: m }),
    }
}

} // verus!
