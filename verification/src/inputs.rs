//! The checks on the files and folders picked as inputs when an archive is
//! created or added to, and the names they are stored under.
use vstd::prelude::*;
use crate::errors::{error_of, error_with, is_error, ArchiveError, ErrorKind};
use crate::paths::{file_name, file_name_of};
use crate::text::chars_of;

verus! {

broadcast use vstd::string::group_string_axioms;

/// What the check on one input answers: a missing input is reported with
/// `missing`, an input without a file name with `invalid` (each followed by
/// the input), and otherwise the input's file name is what it is stored as.
pub open spec fn input_check(
    input: Seq<char>,
    exists: bool,
    missing: Seq<char>,
    invalid: Seq<char>,
    r: Result<String, ArchiveError>,
) -> bool {
    if !exists {
        r matches Err(e) && is_error(e, ErrorKind::NotFound, missing + input)
    } else {
        match file_name_of(input) {
            Some(n) => r matches Ok(s) && s@ == n,
            None => r matches Err(e) && is_error(e, ErrorKind::InvalidInput, invalid + input),
        }
    }
}

fn check_input(input: &str, exists: bool, missing: &str, invalid: &str) -> (r: Result<
    String,
    ArchiveError,
>)
    ensures
        input_check(input@, exists, missing@, invalid@, r),
{
    if !exists {
        return Err(error_with(ErrorKind::NotFound, missing, input));
    }
    let v = chars_of(input);
    match file_name(v.as_slice()) {
        Some(n) => Ok(n),
        None => Err(error_with(ErrorKind::InvalidInput, invalid, input)),
    }
}

/// The inputs of a new TAR archive are staged together: at least one must be
/// picked.
pub fn check_inputs_selected(count: usize) -> (r: Result<(), ArchiveError>)
    ensures
        count == 0 ==> (r matches Err(e) && is_error(
            e,
            ErrorKind::InvalidInput,
            "No input files selected"@,
        )),
        count > 0 ==> r is Ok,
{
    if count == 0 {
        Err(error_of(ErrorKind::InvalidInput, "No input files selected"))
    } else {
        Ok(())
    }
}

/// The name an input of a new TAR archive is staged under (`exists` reports
/// whether the input exists).
pub fn staged_input_name(input: &str, exists: bool) -> (r: Result<String, ArchiveError>)
    ensures
        input_check(input@, exists, "Input does not exist: "@, "Invalid input filename: "@, r),
{
    check_input(input, exists, "Input does not exist: ", "Invalid input filename: ")
}

/// The name an input added to a TAR archive is copied under.
pub fn tar_added_input_name(input: &str, exists: bool) -> (r: Result<String, ArchiveError>)
    ensures
        input_check(input@, exists, "Input does not exist: "@, "Invalid filename: "@, r),
{
    check_input(input, exists, "Input does not exist: ", "Invalid filename: ")
}

/// The name an input added to a 7Z archive is copied under.
pub fn sevenz_added_input_name(input: &str, exists: bool) -> (r: Result<String, ArchiveError>)
    ensures
        input_check(input@, exists, "File not found: "@, "Invalid input filename: "@, r),
{
    check_input(input, exists, "File not found: ", "Invalid input filename: ")
}

/// An input of a new or extended ZIP or 7Z archive must exist.
pub fn check_input_exists(input: &str, exists: bool) -> (r: Result<(), ArchiveError>)
    ensures
        exists ==> r is Ok,
        !exists ==> (r matches Err(e) && is_error(e, ErrorKind::NotFound, "File not found: "@ + input@)),
{
    if exists {
        Ok(())
    } else {
        Err(error_with(ErrorKind::NotFound, "File not found: ", input))
    }
}

} // verus!
