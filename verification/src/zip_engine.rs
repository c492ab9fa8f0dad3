//! The ZIP engine: listing and encryption checks over the bytes of an
//! archive, read through the `zip` crate, and the naming rules used when
//! entries are written or removed.
use vstd::prelude::*;
use std::io::Cursor;
use crate::errors::{error_of, is_error, ArchiveError, ErrorKind};
use crate::models::{
    entries_view, file_kind, kind_of_path, status_consistent, ArchiveEntry, EncryptionStatus, EntryView,
};
use crate::models::{opt_view, PASSWORD_SAMPLE_LEN};
use crate::paths::{opt_str, path_strip_prefix_of, strip_path_prefix};
use crate::raw_stream::deflate_level;
use crate::text::{
    chars_eq, chars_of, copy_string, decimal, has_prefix, push_char, push_padded, replace_char,
    replace_chars, starts_with, str_eq, string_of, string_of_range, trim_char, trim_end_char,
    trim_end_char_at, trim_matches_char, zero_pad,
};

verus! {

broadcast use vstd::string::group_string_axioms;

// ---------------------------------------------------------------------------
// What the `zip` crate reports
// ---------------------------------------------------------------------------

/// The last-modified time stored for a ZIP entry.
#[derive(Clone, Copy, Debug, PartialEq, Eq, Structural)]
pub struct ZipTimestamp {
    pub year: u16,
    pub month: u8,
    pub day: u8,
    pub hour: u8,
    pub minute: u8,
}

/// One central-directory record of a ZIP archive.
#[derive(Debug)]
pub struct ZipRecord {
    pub name: String,
    pub is_dir: bool,
    pub size: u64,
    pub compressed_size: u64,
    pub modified: Option<ZipTimestamp>,
}

pub struct ZipRecordView {
    pub name: Seq<char>,
    pub is_dir: bool,
    pub size: u64,
    pub compressed_size: u64,
    pub modified: Option<ZipTimestamp>,
}

impl View for ZipRecord {
    type V = ZipRecordView;

    open spec fn view(&self) -> ZipRecordView {
        ZipRecordView {
            name: self.name@,
            is_dir: self.is_dir,
            size: self.size,
            compressed_size: self.compressed_size,
            modified: self.modified,
        }
    }
}

pub open spec fn record_results_view(v: Seq<Result<ZipRecord, String>>) -> Seq<
    Result<ZipRecordView, Seq<char>>,
> {
    v.map_values(
        |x: Result<ZipRecord, String>|
            match x {
                Ok(r) => Ok(r@),
                Err(m) => Err(m@),
            },
    )
}

/// What the `zip` crate reads from the bytes of an archive: one record per
/// entry (or the message of the failure to read that entry), or the message
/// of the failure to open the archive.
pub uninterp spec fn zip_records_of(data: Seq<u8>) -> Result<
    Seq<Result<ZipRecordView, Seq<char>>>,
    Seq<char>,
>;

/// What reading the first `sample_len` bytes of entry `index` with
/// `password` gives: success, or the message of the decryption or read
/// failure.
pub uninterp spec fn zip_decrypt_probe_of(
    data: Seq<u8>,
    index: usize,
    password: Seq<char>,
    sample_len: usize,
) -> Result<(), Seq<char>>;

/// What `by_index_raw` reports of each entry's encryption flag (or the
/// message of the failure to read that entry's record), or the message of
/// the failure to open the archive.
pub uninterp spec fn zip_encryption_flags_of(data: Seq<u8>) -> Result<
    Seq<Result<bool, Seq<char>>>,
    Seq<char>,
>;

/// How many entries `zip::ZipArchive::new` finds in the bytes, or the
/// message of the failure to open the archive.
pub uninterp spec fn zip_entry_count_of(data: Seq<u8>) -> Result<usize, Seq<char>>;

/// Whether entry `index` is a folder, as `by_index` opens it, or the message
/// of the failure to open it.
pub uninterp spec fn zip_open_entry_of(data: Seq<u8>, index: usize) -> Result<bool, Seq<char>>;

/// What reading all of entry `index`'s decompressed content gives: success,
/// or the message of the failure.
pub uninterp spec fn zip_decompress_entry_of(data: Seq<u8>, index: usize) -> Result<(), Seq<char>>;

pub open spec fn flag_results_view(v: Seq<Result<bool, String>>) -> Seq<Result<bool, Seq<char>>> {
    v.map_values(
        |x: Result<bool, String>|
            match x {
                Ok(b) => Ok(b),
                Err(m) => Err(m@),
            },
    )
}

/// Calls `zip::ZipArchive::new` on the bytes, then `by_index_raw` for every
/// entry, keeping its name, folder flag, sizes and modification time.
/// Claimed: the outcome depends on the bytes alone, named
/// `zip_records_of`.
#[verifier::external_body]
fn zip_records(data: &[u8]) -> (r: Result<Vec<Result<ZipRecord, String>>, String>)
    ensures
        match r {
            Ok(v) => zip_records_of(data@) == Ok::<_, Seq<char>>(record_results_view(v@)),
            Err(m) => zip_records_of(data@) == Err::<Seq<Result<ZipRecordView, Seq<char>>>, _>(m@),
        },
{
    let mut a = zip::ZipArchive::new(Cursor::new(data)).map_err(|e| e.to_string())?;
    Ok((0..a.len()).map(|i| {
        let f = a.by_index_raw(i).map_err(|e| e.to_string())?;
        Ok(ZipRecord { name: f.name().map_err(|e| e.to_string())?.into_owned(), is_dir: f.is_dir(), size: f.size(), compressed_size: f.compressed_size(),
            modified: f.last_modified().map(|d| ZipTimestamp { year: d.year(), month: d.month(), day: d.day(), hour: d.hour(), minute: d.minute() }) })
    }).collect())
}

/// Calls `zip::ZipArchive::new` on the bytes, `by_index_decrypt` on entry
/// `index` with the password's UTF-8 bytes, and reads up to `sample_len`
/// bytes of it. Claimed: the outcome depends on the arguments alone, named
/// `zip_decrypt_probe_of`.
#[verifier::external_body]
fn zip_decrypt_probe(data: &[u8], index: usize, password: &str, sample_len: usize) -> (r: Result<(), String>)
    ensures
        match r {
            Ok(()) => zip_decrypt_probe_of(data@, index, password@, sample_len) == Ok::<(), Seq<char>>(()),
            Err(m) => zip_decrypt_probe_of(data@, index, password@, sample_len) == Err::<(), Seq<char>>(m@),
        },
{
    let mut a = zip::ZipArchive::new(Cursor::new(data)).map_err(|e| e.to_string())?;
    let mut f = a.by_index_decrypt(index, password.as_bytes()).map_err(|e| e.to_string())?;
    std::io::Read::read(&mut f, &mut vec![0u8; sample_len]).map(|_| ()).map_err(|e| e.to_string())
}

/// Calls `zip::ZipArchive::new` on the bytes, then `by_index_raw` for every
/// entry and its `encrypted` flag. Claimed: the outcome depends on the bytes
/// alone, named `zip_encryption_flags_of`.
#[verifier::external_body]
fn zip_encryption_flags(data: &[u8]) -> (r: Result<Vec<Result<bool, String>>, String>)
    ensures
        match r {
            Ok(v) => zip_encryption_flags_of(data@) == Ok::<_, Seq<char>>(flag_results_view(v@)),
            Err(m) => zip_encryption_flags_of(data@) == Err::<Seq<Result<bool, Seq<char>>>, _>(m@),
        },
{
    let mut a = zip::ZipArchive::new(Cursor::new(data)).map_err(|e| e.to_string())?;
    Ok((0..a.len()).map(|i| a.by_index_raw(i).map(|f| f.encrypted()).map_err(|e| e.to_string())).collect())
}

/// Calls `zip::ZipArchive::new` on the bytes and `len`. Claimed: the
/// outcome depends on the bytes alone, named `zip_entry_count_of`.
#[verifier::external_body]
fn zip_entry_count(data: &[u8]) -> (r: Result<usize, String>)
    ensures
        match r {
            Ok(n) => zip_entry_count_of(data@) == Ok::<usize, Seq<char>>(n),
            Err(m) => zip_entry_count_of(data@) == Err::<usize, Seq<char>>(m@),
        },
{
    zip::ZipArchive::new(Cursor::new(data)).map(|a| a.len()).map_err(|e| e.to_string())
}

/// Calls `zip::ZipArchive::new` on the bytes and `by_index(index)`, and
/// reports `is_dir`. Claimed: the outcome depends on the arguments alone,
/// named `zip_open_entry_of`.
#[verifier::external_body]
fn zip_open_entry(data: &[u8], index: usize) -> (r: Result<bool, String>)
    ensures
        match r {
            Ok(d) => zip_open_entry_of(data@, index) == Ok::<bool, Seq<char>>(d),
            Err(m) => zip_open_entry_of(data@, index) == Err::<bool, Seq<char>>(m@),
        },
{
    let mut a = zip::ZipArchive::new(Cursor::new(data)).map_err(|e| e.to_string())?;
    a.by_index(index).map(|f| f.is_dir()).map_err(|e| e.to_string())
}

/// Calls `zip::ZipArchive::new` on the bytes and `by_index(index)`, and
/// copies the entry's content to `io::sink`. Claimed: the outcome depends on
/// the arguments alone, named `zip_decompress_entry_of`.
#[verifier::external_body]
fn zip_decompress_entry(data: &[u8], index: usize) -> (r: Result<(), String>)
    ensures
        match r {
            Ok(()) => zip_decompress_entry_of(data@, index) == Ok::<(), Seq<char>>(()),
            Err(m) => zip_decompress_entry_of(data@, index) == Err::<(), Seq<char>>(m@),
        },
{
    let mut a = zip::ZipArchive::new(Cursor::new(data)).map_err(|e| e.to_string())?;
    let mut f = a.by_index(index).map_err(|e| e.to_string())?;
    std::io::copy(&mut f, &mut std::io::sink()).map(|_| ()).map_err(|e| e.to_string())
}

/// Testing entries `i..n`: each is opened, and each file entry (not a
/// folder) is decompressed, in order, up to the first failure.
pub open spec fn zip_test_from(data: Seq<u8>, n: usize, i: usize) -> Result<(), Seq<char>>
    decreases n - i,
{
    if i >= n {
        Ok(())
    } else {
        match zip_open_entry_of(data, i) {
            Err(m) => Err(m),
            Ok(is_dir) => if is_dir {
                zip_test_from(data, n, (i + 1) as usize)
            } else {
                match zip_decompress_entry_of(data, i) {
                    Err(m) => Err(m),
                    Ok(()) => zip_test_from(data, n, (i + 1) as usize),
                }
            },
        }
    }
}

/// The outcome of testing a ZIP archive's bytes.
pub open spec fn zip_test_spec(data: Seq<u8>) -> Result<(), Seq<char>> {
    match zip_entry_count_of(data) {
        Err(m) => Err(m),
        Ok(n) => zip_test_from(data, n, 0),
    }
}

/// Entry `i` passes the test: it opens, and when it is a file (not a folder)
/// its whole content decompresses.
pub open spec fn zip_entry_passes(data: Seq<u8>, i: usize) -> bool {
    match zip_open_entry_of(data, i) {
        Ok(is_dir) => is_dir || zip_decompress_entry_of(data, i) is Ok,
        Err(_) => false,
    }
}

/// The message of the failure of an entry that does not pass.
pub open spec fn zip_entry_failure(data: Seq<u8>, i: usize) -> Seq<char> {
    match zip_open_entry_of(data, i) {
        Err(m) => m,
        Ok(_) => match zip_decompress_entry_of(data, i) {
            Err(m) => m,
            Ok(()) => seq![],
        },
    }
}

proof fn lemma_zip_test_from(data: Seq<u8>, n: usize, i: usize)
    requires
        i <= n,
    ensures
        zip_test_from(data, n, i) is Ok <==> forall|j: usize| i <= j < n ==> #[trigger] zip_entry_passes(data, j),
        forall|k: usize|
            i <= k < n && !#[trigger] zip_entry_passes(data, k) && (forall|j: usize| i <= j < k ==> zip_entry_passes(data, j))
                ==> zip_test_from(data, n, i) == Err::<(), Seq<char>>(zip_entry_failure(data, k)),
    decreases n - i,
{
    if i < n {
        lemma_zip_test_from(data, n, (i + 1) as usize);
        if !zip_entry_passes(data, i) {
            assert(!(forall|j: usize| i <= j < n ==> #[trigger] zip_entry_passes(data, j)));
            assert forall|k: usize|
                i <= k < n && !#[trigger] zip_entry_passes(data, k) && (forall|j: usize| i <= j < k ==> zip_entry_passes(data, j))
                    implies zip_test_from(data, n, i) == Err::<(), Seq<char>>(zip_entry_failure(data, k)) by {
                if k > i {
                    assert(zip_entry_passes(data, i));
                }
            }
        } else {
            assert((forall|j: usize| i <= j < n ==> #[trigger] zip_entry_passes(data, j)) <==> (forall|j: usize|
                (i + 1) as usize <= j < n ==> #[trigger] zip_entry_passes(data, j)));
            assert forall|k: usize|
                i <= k < n && !#[trigger] zip_entry_passes(data, k) && (forall|j: usize| i <= j < k ==> zip_entry_passes(data, j))
                    implies zip_test_from(data, n, i) == Err::<(), Seq<char>>(zip_entry_failure(data, k)) by {
                assert(k != i);
                assert(forall|j: usize| (i + 1) as usize <= j < k ==> zip_entry_passes(data, j));
            }
        }
    }
}

/// Testing a ZIP archive checks every entry: it passes exactly when the
/// archive opens and every entry passes (opens, and a file's content
/// decompresses), so one damaged file anywhere makes it fail; when it fails,
/// the failure is that of opening the archive or of the first entry that
/// does not pass.
pub proof fn lemma_zip_test_checks_every_entry(data: Seq<u8>)
    ensures
        zip_test_spec(data) is Ok <==> (zip_entry_count_of(data) is Ok && forall|i: usize|
            i < zip_entry_count_of(data)->Ok_0 ==> #[trigger] zip_entry_passes(data, i)),
        zip_entry_count_of(data) matches Err(m) ==> zip_test_spec(data) == Err::<(), Seq<char>>(m),
        forall|i: usize|
            zip_entry_count_of(data) is Ok && i < zip_entry_count_of(data)->Ok_0 && !#[trigger] zip_entry_passes(data, i)
                && (forall|j: usize| j < i ==> zip_entry_passes(data, j))
                ==> zip_test_spec(data) == Err::<(), Seq<char>>(zip_entry_failure(data, i)),
{
    if let Ok(n) = zip_entry_count_of(data) {
        lemma_zip_test_from(data, n, 0);
    }
}

/// Testing a ZIP archive from its bytes: every entry is opened and every
/// file entry decompressed, in order; it passes when all succeed, and
/// otherwise fails with the first failure.
pub fn test_zip(data: &[u8]) -> (r: Result<(), ArchiveError>)
    ensures
        match zip_test_spec(data@) {
            Ok(()) => r is Ok,
            Err(m) => r matches Err(e) && is_error(e, ErrorKind::Other, m),
        },
        r is Ok <==> (zip_entry_count_of(data@) is Ok && forall|i: usize|
            i < zip_entry_count_of(data@)->Ok_0 ==> #[trigger] zip_entry_passes(data@, i)),
{
    proof {
        lemma_zip_test_checks_every_entry(data@);
    }
    let n = match zip_entry_count(data) {
        Ok(n) => n,
        Err(m) => {
            return Err(ArchiveError { kind: ErrorKind::Other, message: m });
        },
    };
    let mut i: usize = 0;
    while i < n
        invariant
            i <= n,
            zip_entry_count_of(data@) == Ok::<usize, Seq<char>>(n),
            zip_test_spec(data@) == zip_test_from(data@, n, i),
            zip_test_spec(data@) is Ok <==> (zip_entry_count_of(data@) is Ok && forall|j: usize|
                j < zip_entry_count_of(data@)->Ok_0 ==> #[trigger] zip_entry_passes(data@, j)),
        decreases n - i,
    {
        let is_dir = match zip_open_entry(data, i) {
            Ok(d) => d,
            Err(m) => {
                return Err(ArchiveError { kind: ErrorKind::Other, message: m });
            },
        };
        if !is_dir {
            match zip_decompress_entry(data, i) {
                Ok(()) => {},
                Err(m) => {
                    return Err(ArchiveError { kind: ErrorKind::Other, message: m });
                },
            }
        }
        i = i + 1;
    }
    Ok(())
}

// ---------------------------------------------------------------------------
// Listing
// ---------------------------------------------------------------------------

/// `YYYY-MM-DD HH:MM`, zero-padded.
pub open spec fn timestamp_text(t: ZipTimestamp) -> Seq<char> {
    zero_pad(decimal(t.year as nat), 4) + seq!['-'] + zero_pad(decimal(t.month as nat), 2) + seq![
        '-',
    ] + zero_pad(decimal(t.day as nat), 2) + seq![' '] + zero_pad(decimal(t.hour as nat), 2)
        + seq![':'] + zero_pad(decimal(t.minute as nat), 2)
}

/// The listing entry for a ZIP record.
pub open spec fn zip_entry_view(r: ZipRecordView) -> EntryView {
    EntryView {
        name: r.name,
        kind: if r.is_dir {
            "Folder"@
        } else {
            kind_of_path(r.name)
        },
        size: r.size,
        compressed_size: r.compressed_size,
        modified: match r.modified {
            Some(t) => Some(timestamp_text(t)),
            None => None,
        },
        is_dir: r.is_dir,
    }
}

/// The listing read from the records: the entries up to the first
/// unreadable record, which turns the whole listing into an error.
pub open spec fn zip_listing(recs: Seq<Result<ZipRecordView, Seq<char>>>) -> Result<
    Seq<EntryView>,
    Seq<char>,
>
    decreases recs.len(),
{
    if recs.len() == 0 {
        Ok(seq![])
    } else {
        match zip_listing(recs.drop_last()) {
            Err(m) => Err(m),
            Ok(before) => match recs.last() {
                Ok(r) => Ok(before.push(zip_entry_view(r))),
                Err(m) => Err(m),
            },
        }
    }
}

proof fn lemma_zip_listing_err_extends(recs: Seq<Result<ZipRecordView, Seq<char>>>, k: int)
    requires
        0 <= k <= recs.len(),
        zip_listing(recs.take(k)) is Err,
    ensures
        zip_listing(recs) == zip_listing(recs.take(k)),
    decreases recs.len() - k,
{
    if k < recs.len() {
        assert(recs.take(k + 1).drop_last() =~= recs.take(k));
        lemma_zip_listing_err_extends(recs, k + 1);
    } else {
        assert(recs.take(k) =~= recs);
    }
}

/// The text of a ZIP timestamp.
pub fn timestamp_string(t: ZipTimestamp) -> (s: String)
    ensures
        s@ == timestamp_text(t),
{
    let mut v: Vec<char> = Vec::new();
    push_padded(&mut v, t.year as u64, 4);
    v.push('-');
    push_padded(&mut v, t.month as u64, 2);
    v.push('-');
    push_padded(&mut v, t.day as u64, 2);
    v.push(' ');
    push_padded(&mut v, t.hour as u64, 2);
    v.push(':');
    push_padded(&mut v, t.minute as u64, 2);
    assert(v@ =~= timestamp_text(t));
    string_of(v.as_slice())
}

fn zip_entry(r: &ZipRecord) -> (e: ArchiveEntry)
    ensures
        e@ == zip_entry_view(r@),
{
    let name = copy_string(&r.name);
    let kind = if r.is_dir {
        String::from_str("Folder")
    } else {
        file_kind(name.as_str())
    };
    let modified = match r.modified {
        Some(t) => Some(timestamp_string(t)),
        None => None,
    };
    ArchiveEntry {
        name,
        kind,
        size: r.size,
        compressed_size: r.compressed_size,
        modified,
        is_dir: r.is_dir,
    }
}

/// The listing of a ZIP archive from its bytes: one entry per record, with
/// its kind and `YYYY-MM-DD HH:MM` time; a failure to open the archive or to
/// read a record is an error with the crate's message.
pub fn inspect_zip(data: &[u8]) -> (r: Result<Vec<ArchiveEntry>, ArchiveError>)
    ensures
        match zip_records_of(data@) {
            Err(m) => r matches Err(e) && is_error(e, ErrorKind::Other, m),
            Ok(recs) => match zip_listing(recs) {
                Ok(v) => r matches Ok(out) && entries_view(out@) == v,
                Err(m) => r matches Err(e) && is_error(e, ErrorKind::Other, m),
            },
        },
{
    let recs = match zip_records(data) {
        Err(m) => {
            return Err(ArchiveError { kind: ErrorKind::Other, message: m });
        },
        Ok(v) => v,
    };
    let ghost rv = record_results_view(recs@);
    let mut out: Vec<ArchiveEntry> = Vec::new();
    let mut i: usize = 0;
    assert(rv.take(0) =~= Seq::<Result<ZipRecordView, Seq<char>>>::empty());
    assert(entries_view(out@) =~= Seq::<EntryView>::empty());
    while i < recs.len()
        invariant
            i <= recs@.len(),
            rv == record_results_view(recs@),
            zip_records_of(data@) == Ok::<_, Seq<char>>(rv),
            zip_listing(rv.take(i as int)) == Ok::<Seq<EntryView>, Seq<char>>(entries_view(out@)),
        decreases recs@.len() - i,
    {
        assert(rv.take(i + 1).drop_last() =~= rv.take(i as int));
        assert(rv.take(i + 1).last() == rv[i as int]);
        match &recs[i] {
            Err(m) => {
                proof {
                    assert(zip_listing(rv.take(i + 1)) == Err::<Seq<EntryView>, Seq<char>>(m@));
                    lemma_zip_listing_err_extends(rv, i + 1);
                }
                return Err(ArchiveError { kind: ErrorKind::Other, message: copy_string(m) });
            },
            Ok(rec) => {
                let ghost before = entries_view(out@);
                out.push(zip_entry(rec));
                assert(entries_view(out@) =~= before.push(zip_entry_view(rec@)));
            },
        }
        i = i + 1;
    }
    assert(rv.take(recs@.len() as int) =~= rv);
    Ok(out)
}

// ---------------------------------------------------------------------------
// Encryption check
// ---------------------------------------------------------------------------

/// Where a scan for encrypted entries stops.
pub enum ZipScan {
    /// No entry is encrypted.
    Clear,
    /// Entry `i` is the first encrypted one.
    Encrypted(int),
    /// An unreadable record was met first.
    Failed(Seq<char>),
}

/// Scans the encryption flags from `i` on for the first encrypted entry.
pub open spec fn zip_scan(recs: Seq<Result<bool, Seq<char>>>, i: int) -> ZipScan
    decreases recs.len() - i,
{
    if i < 0 || i >= recs.len() {
        ZipScan::Clear
    } else {
        match recs[i] {
            Err(m) => ZipScan::Failed(m),
            Ok(encrypted) => if encrypted {
                ZipScan::Encrypted(i)
            } else {
                zip_scan(recs, i + 1)
            },
        }
    }
}

/// The encryption status of a ZIP archive from its bytes: not encrypted when
/// no entry is; when one is, a missing or empty password is reported as
/// required, otherwise the password is tried on the first encrypted entry.
pub fn check_zip_encryption(data: &[u8], password: Option<&str>) -> (r: Result<
    EncryptionStatus,
    ArchiveError,
>)
    ensures
        match zip_encryption_flags_of(data@) {
            Err(m) => r matches Err(e) && is_error(e, ErrorKind::Other, m),
            Ok(recs) => match zip_scan(recs, 0) {
                ZipScan::Failed(m) => r matches Err(e) && is_error(e, ErrorKind::Other, m),
                ZipScan::Clear => r matches Ok(s) && !s.is_encrypted && s.password_valid
                    && s.error_message is None,
                ZipScan::Encrypted(i) => match password {
                    Some(p) if p@.len() > 0 => match zip_decrypt_probe_of(
                        data@,
                        i as usize,
                        p@,
                        PASSWORD_SAMPLE_LEN,
                    ) {
                        Ok(()) => r matches Ok(s) && s.is_encrypted && s.password_valid
                            && s.error_message is None,
                        Err(m) => r matches Ok(s) && s.is_encrypted && !s.password_valid
                            && s@.error_message == Some("Invalid password: "@ + m),
                    },
                    _ => r matches Ok(s) && s.is_encrypted && !s.password_valid && s@.error_message
                        == Some("Password required"@),
                },
            },
        },
        r matches Ok(s) ==> status_consistent(s@),
{
    let recs = match zip_encryption_flags(data) {
        Err(m) => {
            return Err(ArchiveError { kind: ErrorKind::Other, message: m });
        },
        Ok(v) => v,
    };
    let ghost rv = flag_results_view(recs@);
    let mut i: usize = 0;
    while i < recs.len()
        invariant
            i <= recs@.len(),
            rv == flag_results_view(recs@),
            zip_encryption_flags_of(data@) == Ok::<_, Seq<char>>(rv),
            zip_scan(rv, 0) == zip_scan(rv, i as int),
        decreases recs@.len() - i,
    {
        match &recs[i] {
            Err(m) => {
                assert(rv[i as int] == Err::<bool, Seq<char>>(m@));
                return Err(ArchiveError { kind: ErrorKind::Other, message: copy_string(m) });
            },
            Ok(encrypted) => {
                assert(rv[i as int] == Ok::<bool, Seq<char>>(*encrypted));
                if *encrypted {
                    return Ok(encrypted_zip_status(data, i, password));
                }
            },
        }
        i = i + 1;
    }
    Ok(EncryptionStatus { is_encrypted: false, password_valid: true, error_message: None })
}

/// The status of a ZIP archive whose entry `index` is encrypted.
fn encrypted_zip_status(data: &[u8], index: usize, password: Option<&str>) -> (s: EncryptionStatus)
    ensures
        match password {
            Some(p) if p@.len() > 0 => match zip_decrypt_probe_of(data@, index, p@, PASSWORD_SAMPLE_LEN) {
                Ok(()) => s.is_encrypted && s.password_valid && s.error_message is None,
                Err(m) => s.is_encrypted && !s.password_valid && s@.error_message == Some(
                    "Invalid password: "@ + m,
                ),
            },
            _ => s.is_encrypted && !s.password_valid && s@.error_message == Some(
                "Password required"@,
            ),
        },
{
    let pwd = match password {
        Some(p) => {
            if p.is_empty() {
                return EncryptionStatus {
                    is_encrypted: true,
                    password_valid: false,
                    error_message: Some(String::from_str("Password required")),
                };
            }
            p
        },
        None => {
            return EncryptionStatus {
                is_encrypted: true,
                password_valid: false,
                error_message: Some(String::from_str("Password required")),
            };
        },
    };
    match zip_decrypt_probe(data, index, pwd, PASSWORD_SAMPLE_LEN) {
        Ok(()) => EncryptionStatus { is_encrypted: true, password_valid: true, error_message: None },
        Err(m) => {
            let mut msg = String::from_str("Invalid password: ");
            msg.append(m.as_str());
            EncryptionStatus { is_encrypted: true, password_valid: false, error_message: Some(msg) }
        },
    }
}

// ---------------------------------------------------------------------------
// Writing and removing entries
// ---------------------------------------------------------------------------

/// The name of an item inside the archive, from its path and the folder it
/// was picked from: the path below that folder (the whole path when it is not
/// below it), with `\` turned into `/`.
pub open spec fn relative_name_spec(base: Seq<char>, path: Seq<char>) -> Seq<char> {
    let rel = match path_strip_prefix_of(path, base) {
        Some(r) => r,
        None => path,
    };
    replace_char(rel, '\\', '/')
}

/// The name of an item inside the archive.
pub fn relative_name(base: &str, path: &str) -> (r: String)
    ensures
        r@ == relative_name_spec(base@, path@),
{
    let rel = match strip_path_prefix(path, base) {
        Some(r) => r,
        None => String::from_str(path),
    };
    let v = chars_of(rel.as_str());
    let n = replace_chars(v.as_slice(), '\\', '/');
    string_of(n.as_slice())
}

/// The compression methods entries are written with.
#[derive(Clone, Copy, Debug, PartialEq, Eq, Structural)]
pub enum ZipMethod {
    Deflated,
}

/// How entries are compressed for a compression choice of the user
/// interface: always deflated, at the deflate level of the choice.
pub fn compression_method(level: &str) -> (r: (ZipMethod, Option<i64>))
    ensures
        r.0 == ZipMethod::Deflated,
        r.1 == Some(deflate_level(level@) as i64),
{
    if str_eq(level, "Fast") {
        (ZipMethod::Deflated, Some(1))
    } else if str_eq(level, "Maximum") {
        (ZipMethod::Deflated, Some(9))
    } else {
        (ZipMethod::Deflated, Some(6))
    }
}

/// The folder that added files go into: `\` turned into `/`, without
/// leading or trailing `/`; none when nothing is left.
pub open spec fn clean_target_spec(target: Option<Seq<char>>) -> Option<Seq<char>> {
    match target {
        None => None,
        Some(d) => {
            let c = trim_char(replace_char(d, '\\', '/'), '/');
            if c.len() == 0 {
                None
            } else {
                Some(c)
            }
        },
    }
}

/// The folder, inside the archive, that added files go into.
pub fn clean_target_dir(target: Option<&str>) -> (r: Option<String>)
    ensures
        opt_view(r) == clean_target_spec(opt_str(target)),
{
    match target {
        None => None,
        Some(d) => {
            let v = chars_of(d);
            let n = replace_chars(v.as_slice(), '\\', '/');
            let c = trim_matches_char(n.as_slice(), '/');
            if c.len() == 0 {
                None
            } else {
                Some(string_of(c.as_slice()))
            }
        },
    }
}

/// The name of an added item inside the archive: its path relative to the
/// folder it was picked from, under the target folder when there is one.
pub open spec fn entry_name_spec(target: Option<Seq<char>>, rel: Seq<char>) -> Seq<char> {
    match target {
        Some(d) => d + seq!['/'] + rel,
        None => rel,
    }
}

/// The name of an added item inside the archive.
pub fn entry_name_in(target: Option<&str>, rel: &str) -> (r: String)
    ensures
        r@ == entry_name_spec(opt_str(target), rel@),
{
    match target {
        Some(d) => {
            let mut r = String::from_str(d);
            push_char(&mut r, '/');
            r.append(rel);
            r
        },
        None => String::from_str(rel),
    }
}

/// The name of a folder entry: the name without trailing `/`, then one `/`.
pub open spec fn directory_entry_spec(name: Seq<char>) -> Seq<char> {
    trim_end_char(name, '/') + seq!['/']
}

/// The name under which a folder is stored.
pub fn directory_entry_name(name: &str) -> (r: String)
    ensures
        r@ == directory_entry_spec(name@),
{
    let v = chars_of(name);
    let end = trim_end_char_at(v.as_slice(), 0, v.len(), '/');
    assert(v@.subrange(0, v@.len() as int) =~= v@);
    let mut r = string_of_range(v.as_slice(), 0, end);
    push_char(&mut r, '/');
    r
}

/// An entry goes when it is one of the names to remove, or lies inside one
/// of them taken as a folder.
pub open spec fn removed_by(name: Seq<char>, n: Seq<char>) -> bool {
    name == n || has_prefix(name, directory_entry_spec(n))
}

pub open spec fn is_removed_spec(name: Seq<char>, names: Seq<Seq<char>>) -> bool {
    exists|i: int| 0 <= i < names.len() && removed_by(name, #[trigger] names[i])
}

fn removed_by_exec(name: &[char], n: &str) -> (r: bool)
    ensures
        r == removed_by(name@, n@),
{
    let nv = chars_of(n);
    if chars_eq(name, nv.as_slice()) {
        return true;
    }
    let dir = directory_entry_name(n);
    let dv = chars_of(dir.as_str());
    starts_with(name, dv.as_slice())
}

/// Whether the entry `name` is dropped when `names` are removed.
pub fn is_removed(name: &str, names: &Vec<String>) -> (r: bool)
    ensures
        r == is_removed_spec(name@, names.deep_view()),
{
    let v = chars_of(name);
    let mut i: usize = 0;
    while i < names.len()
        invariant
            i <= names@.len(),
            v@ == name@,
            forall|k: int| 0 <= k < i ==> !removed_by(name@, #[trigger] names.deep_view()[k]),
        decreases names@.len() - i,
    {
        assert(names.deep_view()[i as int] == names@[i as int]@);
        if removed_by_exec(v.as_slice(), names[i].as_str()) {
            return true;
        }
        i = i + 1;
    }
    false
}

/// Removing a name removes the entry itself and everything stored under it
/// as a folder, whether or not the name ends with `/`.
pub proof fn lemma_removal_covers_subtree(n: Seq<char>, rest: Seq<char>, names: Seq<Seq<char>>)
    requires
        names.contains(n),
    ensures
        is_removed_spec(n, names),
        is_removed_spec(trim_end_char(n, '/') + seq!['/'] + rest, names),
{
    let i = choose|i: int| 0 <= i < names.len() && names[i] == n;
    assert(removed_by(n, names[i]));
    let full = trim_end_char(n, '/') + seq!['/'] + rest;
    assert(full.subrange(0, directory_entry_spec(n).len() as int) =~= directory_entry_spec(n));
    assert(removed_by(full, names[i]));
}

} // verus!
