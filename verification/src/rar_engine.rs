//! The RAR engine's logic: turning the headers that the RARLabs library
//! reports into listing entries, its error messages, and the decisions of the
//! encryption check. Opening and reading RAR files is done by the caller.
use vstd::prelude::*;
use crate::errors::{error_with, is_error, ArchiveError, ErrorKind};
use crate::models::{
    entries_view, file_kind, kind_of_path, status_consistent, EncryptionStatus, EntryView, ArchiveEntry,
};
use crate::text::{chars_of, replace_char, replace_chars, string_of};

verus! {

broadcast use vstd::string::group_string_axioms;

/// The error for a failure of the RAR library, from its message.
pub fn rar_error(detail: &str) -> (e: ArchiveError)
    ensures
        is_error(e, ErrorKind::Other, "RAR error: "@ + detail@),
{
    error_with(ErrorKind::Other, "RAR error: ", detail)
}

/// A file header as reported by the RAR library.
pub struct RarHeader {
    /// The stored file name (decoded lossily).
    pub filename: String,
    pub is_directory: bool,
    pub unpacked_size: u64,
}

/// The listing entry for a RAR header: `\` separators become `/`.
pub open spec fn rar_entry_view(h: RarHeader) -> EntryView {
    let name = replace_char(h.filename@, '\\', '/');
    EntryView {
        name,
        kind: if h.is_directory {
            "Folder"@
        } else {
            kind_of_path(name)
        },
        size: h.unpacked_size,
        compressed_size: 0,
        modified: None,
        is_dir: h.is_directory,
    }
}

/// The listing read from a sequence of header results: the entries up to the
/// first failure, which turns the whole listing into an error.
pub open spec fn rar_listing(items: Seq<Result<RarHeader, String>>) -> Result<
    Seq<EntryView>,
    Seq<char>,
>
    decreases items.len(),
{
    if items.len() == 0 {
        Ok(seq![])
    } else {
        match rar_listing(items.drop_last()) {
            Err(m) => Err(m),
            Ok(before) => match items.last() {
                Ok(h) => Ok(before.push(rar_entry_view(h))),
                Err(m) => Err(m@),
            },
        }
    }
}

/// The listing of a RAR archive from the outcome of opening it for listing
/// and the headers read in order (ending at the first failure, if any).
pub fn inspect_rar(listing: &Result<Vec<Result<RarHeader, String>>, String>) -> (r: Result<
    Vec<ArchiveEntry>,
    ArchiveError,
>)
    ensures
        match *listing {
            Err(m) => r matches Err(e) && is_error(e, ErrorKind::Other, "RAR error: "@ + m@),
            Ok(items) => match rar_listing(items@) {
                Ok(v) => r matches Ok(out) && entries_view(out@) == v,
                Err(m) => r matches Err(e) && is_error(e, ErrorKind::Other, "RAR error: "@ + m),
            },
        },
{
    let items = match listing {
        Err(m) => {
            return Err(rar_error(m.as_str()));
        },
        Ok(items) => items,
    };
    let mut out: Vec<ArchiveEntry> = Vec::new();
    let mut i: usize = 0;
    assert(items@.take(0) =~= Seq::<Result<RarHeader, String>>::empty());
    assert(entries_view(out@) =~= Seq::<EntryView>::empty());
    while i < items.len()
        invariant
            i <= items@.len(),
            listing is Ok && listing->Ok_0 == *items,
            rar_listing(items@.take(i as int)) == Ok::<Seq<EntryView>, Seq<char>>(entries_view(out@)),
        decreases items@.len() - i,
    {
        assert(items@.take(i + 1).drop_last() =~= items@.take(i as int));
        assert(items@.take(i + 1).last() == items@[i as int]);
        match &items[i] {
            Err(m) => {
                proof {
                    lemma_rar_listing_stops(items@, i as int);
                    assert(items@[i as int]->Err_0 == *m);
                }
                return Err(rar_error(m.as_str()));
            },
            Ok(h) => {
                let v = chars_of(h.filename.as_str());
                let name_chars = replace_chars(v.as_slice(), '\\', '/');
                let name = string_of(name_chars.as_slice());
                let kind = if h.is_directory {
                    String::from_str("Folder")
                } else {
                    file_kind(name.as_str())
                };
                let ghost before = entries_view(out@);
                out.push(
                    ArchiveEntry {
                        name,
                        kind,
                        size: h.unpacked_size,
                        compressed_size: 0,
                        modified: None,
                        is_dir: h.is_directory,
                    },
                );
                assert(entries_view(out@) =~= before.push(rar_entry_view(*h)));
            },
        }
        i = i + 1;
    }
    assert(items@.take(items@.len() as int) =~= items@);
    Ok(out)
}

/// A failure at item `i` (after successes) makes the whole listing fail
/// with that item's message.
proof fn lemma_rar_listing_stops(items: Seq<Result<RarHeader, String>>, i: int)
    requires
        0 <= i < items.len(),
        rar_listing(items.take(i)) is Ok,
        items[i] is Err,
    ensures
        rar_listing(items) == Err::<Seq<EntryView>, Seq<char>>(items[i]->Err_0@),
    decreases items.len() - i,
{
    assert(items.take(i + 1).drop_last() =~= items.take(i));
    if i + 1 < items.len() {
        lemma_rar_listing_err_extends(items, i + 1);
    } else {
        assert(items.take(i + 1) =~= items);
    }
}

/// Once a prefix of the listing has failed, every longer prefix fails the
/// same way.
proof fn lemma_rar_listing_err_extends(items: Seq<Result<RarHeader, String>>, k: int)
    requires
        0 <= k <= items.len(),
        rar_listing(items.take(k)) is Err,
    ensures
        rar_listing(items) == rar_listing(items.take(k)),
    decreases items.len() - k,
{
    if k < items.len() {
        assert(items.take(k + 1).drop_last() =~= items.take(k));
        lemma_rar_listing_err_extends(items, k + 1);
    } else {
        assert(items.take(k) =~= items);
    }
}

/// The message of the first failed step, if any step failed.
pub open spec fn first_failure(steps: Seq<Result<(), String>>) -> Option<Seq<char>>
    decreases steps.len(),
{
    if steps.len() == 0 {
        None
    } else {
        match steps[0] {
            Err(m) => Some(m@),
            Ok(_) => first_failure(steps.drop_first()),
        }
    }
}

/// Testing a RAR archive from the outcome of opening it for processing and
/// the outcomes of reading and skipping each header in turn (the reading
/// stops at the first failure): it passes when every step succeeded, and
/// otherwise fails with the first failure.
pub fn test_rar(steps: &Result<Vec<Result<(), String>>, String>) -> (r: Result<(), ArchiveError>)
    ensures
        match *steps {
            Err(m) => r matches Err(e) && is_error(e, ErrorKind::Other, "RAR error: "@ + m@),
            Ok(items) => match first_failure(items@) {
                None => r is Ok,
                Some(m) => r matches Err(e) && is_error(e, ErrorKind::Other, "RAR error: "@ + m),
            },
        },
{
    let items = match steps {
        Err(m) => {
            return Err(rar_error(m.as_str()));
        },
        Ok(items) => items,
    };
    let mut i: usize = 0;
    assert(items@.skip(0) =~= items@);
    while i < items.len()
        invariant
            i <= items@.len(),
            steps is Ok && steps->Ok_0 == *items,
            first_failure(items@) == first_failure(items@.skip(i as int)),
        decreases items@.len() - i,
    {
        assert(items@.skip(i as int).drop_first() =~= items@.skip(i + 1));
        assert(items@.skip(i as int)[0] == items@[i as int]);
        match &items[i] {
            Err(m) => {
                return Err(rar_error(m.as_str()));
            },
            Ok(()) => {},
        }
        i = i + 1;
    }
    assert(items@.skip(i as int) =~= Seq::<Result<(), String>>::empty());
    Ok(())
}

// ---------------------------------------------------------------------------
// Encryption check
// ---------------------------------------------------------------------------

/// The next move of the RAR encryption check.
#[derive(Debug)]
pub enum RarCheck {
    /// The check is finished with this status.
    Done(EncryptionStatus),
    /// Test the archive again with this password, then call `rar_password_status`.
    TestWithPassword(String),
}

/// The RAR encryption check, from the outcome of testing the archive without
/// a password: an archive that tests fine is not encrypted; otherwise it is
/// encrypted, and a missing or empty password is reported as required;
/// otherwise the archive must be tested with the password.
pub fn check_rar_encryption(plain_test: &Result<(), String>, password: Option<&str>) -> (r: RarCheck)
    ensures
        plain_test is Ok ==> (r matches RarCheck::Done(s) && !s.is_encrypted && s.password_valid
            && s.error_message is None),
        plain_test is Err && (password is None || password->Some_0@.len() == 0) ==> (r matches RarCheck::Done(s)
            && s.is_encrypted && !s.password_valid && s@.error_message == Some("Password required"@)),
        plain_test is Err && password is Some && password->Some_0@.len() > 0 ==> (r matches RarCheck::TestWithPassword(p)
            && p@ == password->Some_0@),
        r matches RarCheck::Done(s) ==> status_consistent(s@),
{
    if plain_test.is_ok() {
        return RarCheck::Done(
            EncryptionStatus { is_encrypted: false, password_valid: true, error_message: None },
        );
    }
    match password {
        Some(p) => {
            if p.is_empty() {
                RarCheck::Done(
                    EncryptionStatus {
                        is_encrypted: true,
                        password_valid: false,
                        error_message: Some(String::from_str("Password required")),
                    },
                )
            } else {
                RarCheck::TestWithPassword(String::from_str(p))
            }
        },
        None => RarCheck::Done(
            EncryptionStatus {
                is_encrypted: true,
                password_valid: false,
                error_message: Some(String::from_str("Password required")),
            },
        ),
    }
}

/// The status of an encrypted archive from the outcome of testing it with
/// the password: valid, or invalid with the failure's message.
pub fn rar_password_status(password_test: &Result<(), String>) -> (s: EncryptionStatus)
    ensures
        s.is_encrypted,
        s.password_valid == password_test is Ok,
        password_test is Ok ==> s.error_message is None,
        password_test matches Err(m) ==> s@.error_message == Some("Invalid password: "@ + m@),
        status_consistent(s@),
{
    match password_test {
        Ok(()) => EncryptionStatus { is_encrypted: true, password_valid: true, error_message: None },
        Err(m) => {
            let mut msg = String::from_str("Invalid password: ");
            msg.append(m.as_str());
            EncryptionStatus { is_encrypted: true, password_valid: false, error_message: Some(msg) }
        },
    }
}

} // verus!
