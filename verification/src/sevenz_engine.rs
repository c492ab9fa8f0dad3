//! The 7Z engine: listing and encryption checks over the bytes of an
//! archive, read through the `sevenz-rust2` crate.
use vstd::prelude::*;
use std::io::Cursor;
use crate::errors::{is_error, ArchiveError, ErrorKind};
use crate::models::{
    PASSWORD_SAMPLE_LEN, entries_view, file_kind, kind_of_path, status_consistent, ArchiveEntry,
    EncryptionStatus, EntryView,
};
use crate::paths::opt_str;
use crate::text::copy_string;

verus! {

broadcast use vstd::string::group_string_axioms;

/// One file record of a 7Z archive.
#[derive(Debug)]
pub struct SevenZRecord {
    pub name: String,
    pub is_dir: bool,
    pub size: u64,
    pub compressed_size: u64,
}

pub struct SevenZRecordView {
    pub name: Seq<char>,
    pub is_dir: bool,
    pub size: u64,
    pub compressed_size: u64,
}

impl View for SevenZRecord {
    type V = SevenZRecordView;

    open spec fn view(&self) -> SevenZRecordView {
        SevenZRecordView {
            name: self.name@,
            is_dir: self.is_dir,
            size: self.size,
            compressed_size: self.compressed_size,
        }
    }
}

pub open spec fn records_view(v: Seq<SevenZRecord>) -> Seq<SevenZRecordView> {
    v.map_values(|r: SevenZRecord| r@)
}

/// What `sevenz_rust2::Archive::read` reads from the bytes of an archive
/// without a password: its file records, or the failure's message.
pub uninterp spec fn sevenz_records_of(data: Seq<u8>) -> Result<Seq<SevenZRecordView>, Seq<char>>;

/// What `sevenz_rust2::ArchiveReader::new` reports for the bytes and
/// password: for every block, the method ids of its coders; or the failure's
/// message.
pub uninterp spec fn sevenz_coders_of(data: Seq<u8>, password: Option<Seq<char>>) -> Result<
    Seq<Seq<Seq<u8>>>,
    Seq<char>,
>;

pub open spec fn outcomes_view(v: Seq<Result<(), String>>) -> Seq<Result<(), Seq<char>>> {
    v.map_values(
        |x: Result<(), String>|
            match x {
                Ok(()) => Ok(()),
                Err(m) => Err(m@),
            },
    )
}

/// Whether the password check, having sampled an entry's data, asks for the
/// next entry: it does not.
pub fn sample_next_entry() -> (r: bool)
    ensures
        !r,
{
    false
}

/// Calls `sevenz_rust2::Archive::read` on the bytes with an empty password
/// and keeps each file's name, folder flag, size and compressed size.
/// Claimed: the outcome depends on the bytes alone, named `sevenz_records_of`.
#[verifier::external_body]
fn sevenz_records(data: &[u8]) -> (r: Result<Vec<SevenZRecord>, String>)
    ensures
        match r {
            Ok(v) => sevenz_records_of(data@) == Ok::<_, Seq<char>>(records_view(v@)),
            Err(m) => sevenz_records_of(data@) == Err::<Seq<SevenZRecordView>, _>(m@),
        },
{
    let a = sevenz_rust2::Archive::read(&mut Cursor::new(data), &sevenz_rust2::Password::empty()).map_err(|e| e.to_string())?;
    Ok(a.files.iter().map(|f| SevenZRecord { name: f.name().to_string(), is_dir: f.is_directory(), size: f.size(), compressed_size: f.compressed_size }).collect())
}

/// Calls `sevenz_rust2::ArchiveReader::new` on the bytes with the password
/// (an empty one when there is none) and reports each block's coder method
/// ids. Claimed: the outcome depends on the arguments alone, named
/// `sevenz_coders_of`.
#[verifier::external_body]
fn sevenz_coders(data: &[u8], password: Option<&str>) -> (r: Result<Vec<Vec<Vec<u8>>>, String>)
    ensures
        match r {
            Ok(v) => sevenz_coders_of(data@, opt_str(password)) == Ok::<_, Seq<char>>(v.deep_view()),
            Err(m) => sevenz_coders_of(data@, opt_str(password)) == Err::<Seq<Seq<Seq<u8>>>, _>(m@),
        },
{
    let pwd = password.map(sevenz_rust2::Password::from).unwrap_or_else(sevenz_rust2::Password::empty);
    let r = sevenz_rust2::ArchiveReader::new(Cursor::new(data), pwd).map_err(|e| e.to_string())?;
    Ok(r.archive().blocks.iter().map(|b| b.coders.iter().map(|c| c.encoder_method_id().to_vec()).collect()).collect())
}

/// Calls `sevenz_rust2::ArchiveReader::new` with the password, then
/// `for_each_entries` with a callback that reads up to `sample_len` bytes of
/// the entry and answers `sample_next_entry()`; records each read's outcome,
/// or gives the walk's failure. Nothing is claimed of the outcome: the crate
/// decodes with as many threads as the machine offers, and its readers fail
/// differently with one thread and with several.
#[verifier::external_body]
fn sevenz_first_reads(data: &[u8], password: &str, sample_len: usize) -> (r: Result<Vec<Result<(), String>>, String>)
{
    let mut r = sevenz_rust2::ArchiveReader::new(Cursor::new(data), sevenz_rust2::Password::from(password)).map_err(|e| e.to_string())?;
    let mut reads = Vec::new();
    r.for_each_entries(|_, s| { reads.push(s.read(&mut vec![0u8; sample_len]).map(|_| ()).map_err(|e| e.to_string())); Ok(sample_next_entry()) }).map_err(|e| e.to_string())?;
    Ok(reads)
}

// ---------------------------------------------------------------------------
// Listing
// ---------------------------------------------------------------------------

pub open spec fn sevenz_entry_view(r: SevenZRecordView) -> EntryView {
    EntryView {
        name: r.name,
        kind: if r.is_dir {
            "Folder"@
        } else {
            kind_of_path(r.name)
        },
        size: r.size,
        compressed_size: r.compressed_size,
        modified: None,
        is_dir: r.is_dir,
    }
}

/// The listing of a 7Z archive from its bytes: one entry per file record.
pub fn inspect_7z(data: &[u8]) -> (r: Result<Vec<ArchiveEntry>, ArchiveError>)
    ensures
        match sevenz_records_of(data@) {
            Err(m) => r matches Err(e) && is_error(e, ErrorKind::Other, m),
            Ok(recs) => r matches Ok(out) && entries_view(out@) == recs.map_values(
                |x: SevenZRecordView| sevenz_entry_view(x),
            ),
        },
{
    let recs = match sevenz_records(data) {
        Err(m) => {
            return Err(ArchiveError { kind: ErrorKind::Other, message: m });
        },
        Ok(v) => v,
    };
    let mut out: Vec<ArchiveEntry> = Vec::new();
    let mut i: usize = 0;
    while i < recs.len()
        invariant
            i <= recs@.len(),
            sevenz_records_of(data@) == Ok::<_, Seq<char>>(records_view(recs@)),
            entries_view(out@) == records_view(recs@).take(i as int).map_values(
                |x: SevenZRecordView| sevenz_entry_view(x),
            ),
        decreases recs@.len() - i,
    {
        let rec = &recs[i];
        let name = copy_string(&rec.name);
        let kind = if rec.is_dir {
            String::from_str("Folder")
        } else {
            file_kind(name.as_str())
        };
        let ghost before = entries_view(out@);
        out.push(
            ArchiveEntry {
                name,
                kind,
                size: rec.size,
                compressed_size: rec.compressed_size,
                modified: None,
                is_dir: rec.is_dir,
            },
        );
        assert(records_view(recs@)[i as int] == rec@);
        assert(entries_view(out@) =~= before.push(sevenz_entry_view(rec@)));
        assert(records_view(recs@).take(i + 1).map_values(|x: SevenZRecordView| sevenz_entry_view(x))
            =~= records_view(recs@).take(i as int).map_values(
            |x: SevenZRecordView| sevenz_entry_view(x),
        ).push(sevenz_entry_view(rec@)));
        i = i + 1;
    }
    assert(records_view(recs@).take(recs@.len() as int) =~= records_view(recs@));
    Ok(out)
}

// ---------------------------------------------------------------------------
// Encryption check
// ---------------------------------------------------------------------------

/// The method id of the 7Z AES-256 coder.
pub open spec fn aes_method_id() -> Seq<u8> {
    seq![0x06u8, 0xF1u8, 0x07u8, 0x01u8]
}

/// Whether some coder of some block is the AES coder.
pub open spec fn uses_aes(blocks: Seq<Seq<Seq<u8>>>) -> bool {
    exists|b: int, c: int|
        0 <= b < blocks.len() && 0 <= c < blocks[b].len() && #[trigger] blocks[b][c] == aes_method_id()
}

/// Whether some read succeeded.
pub open spec fn some_read_ok(reads: Seq<Result<(), Seq<char>>>) -> bool {
    exists|i: int| 0 <= i < reads.len() && #[trigger] reads[i] is Ok
}

/// The message of the last failed read, if any.
pub open spec fn last_read_error(reads: Seq<Result<(), Seq<char>>>) -> Option<Seq<char>>
    decreases reads.len(),
{
    if reads.len() == 0 {
        None
    } else {
        match reads.last() {
            Err(m) => Some(m),
            Ok(()) => last_read_error(reads.drop_last()),
        }
    }
}

fn is_aes(id: &Vec<u8>) -> (r: bool)
    ensures
        r == (id@ == aes_method_id()),
{
    let r = id.len() == 4 && id[0] == 0x06u8 && id[1] == 0xF1u8 && id[2] == 0x07u8 && id[3] == 0x01u8;
    if r {
        assert(id@ =~= aes_method_id());
    } else {
        assert(id@ != aes_method_id()) by {
            if id@ == aes_method_id() {
                assert(id@.len() == 4);
                assert(id@[0] == aes_method_id()[0]);
                assert(id@[1] == aes_method_id()[1]);
                assert(id@[2] == aes_method_id()[2]);
                assert(id@[3] == aes_method_id()[3]);
            }
        }
    }
    r
}

fn any_aes(blocks: &Vec<Vec<Vec<u8>>>) -> (r: bool)
    ensures
        r == uses_aes(blocks.deep_view()),
{
    let ghost bv = blocks.deep_view();
    let mut b: usize = 0;
    while b < blocks.len()
        invariant
            b <= blocks@.len(),
            bv == blocks.deep_view(),
            forall|x: int, c: int|
                0 <= x < b && 0 <= c < bv[x].len() ==> #[trigger] bv[x][c] != aes_method_id(),
        decreases blocks@.len() - b,
    {
        let coders = &blocks[b];
        assert(bv[b as int] == coders.deep_view());
        let mut c: usize = 0;
        while c < coders.len()
            invariant
                b < blocks@.len(),
                c <= coders@.len(),
                bv == blocks.deep_view(),
                bv[b as int] == coders.deep_view(),
                forall|x: int, k: int|
                    0 <= x < b && 0 <= k < bv[x].len() ==> #[trigger] bv[x][k] != aes_method_id(),
                forall|k: int| 0 <= k < c ==> #[trigger] bv[b as int][k] != aes_method_id(),
            decreases coders@.len() - c,
        {
            assert(bv[b as int][c as int] == coders[c as int]@);
            if is_aes(&coders[c]) {
                assert(bv[b as int][c as int] == aes_method_id());
                return true;
            }
            c = c + 1;
        }
        b = b + 1;
    }
    false
}

/// The status of an encrypted 7Z archive from the reads made with the
/// password: valid when some read succeeded and none failed; otherwise
/// invalid, with the last read failure or "Invalid password".
pub open spec fn password_reads_status(reads: Seq<Result<(), Seq<char>>>, s: EncryptionStatus) -> bool {
    s.is_encrypted && if some_read_ok(reads) && last_read_error(reads) is None {
        s.password_valid && s.error_message is None
    } else {
        !s.password_valid && s@.error_message == Some(
            match last_read_error(reads) {
                Some(m) => m,
                None => "Invalid password"@,
            },
        )
    }
}

/// The status of an encrypted 7Z archive from the outcomes of the sample
/// reads made with the password.
pub fn status_from_reads(reads: &Vec<Result<(), String>>) -> (s: EncryptionStatus)
    ensures
        password_reads_status(outcomes_view(reads@), s),
        status_consistent(s@),
{
    let ghost rv = outcomes_view(reads@);
    let mut verified = false;
    let mut err: Option<String> = None;
    let mut i: usize = 0;
    while i < reads.len()
        invariant
            i <= reads@.len(),
            rv == outcomes_view(reads@),
            verified == some_read_ok(rv.take(i as int)),
            match err {
                Some(m) => last_read_error(rv.take(i as int)) == Some(m@),
                None => last_read_error(rv.take(i as int)) is None,
            },
        decreases reads@.len() - i,
    {
        assert(rv.take(i + 1).drop_last() =~= rv.take(i as int));
        assert(rv.take(i + 1).last() == rv[i as int]);
        match &reads[i] {
            Ok(()) => {
                verified = true;
                assert(rv.take(i + 1)[i as int] is Ok);
            },
            Err(m) => {
                err = Some(copy_string(m));
                assert(some_read_ok(rv.take(i + 1)) == some_read_ok(rv.take(i as int))) by {
                    if some_read_ok(rv.take(i + 1)) {
                        let k = choose|k: int| 0 <= k < i + 1 && #[trigger] rv.take(i + 1)[k] is Ok;
                        assert(rv.take(i as int)[k] is Ok);
                    }
                }
            },
        }
        assert(verified == some_read_ok(rv.take(i + 1))) by {
            if some_read_ok(rv.take(i as int)) {
                let k = choose|k: int| 0 <= k < i && #[trigger] rv.take(i as int)[k] is Ok;
                assert(rv.take(i + 1)[k] is Ok);
            }
            if some_read_ok(rv.take(i + 1)) && !some_read_ok(rv.take(i as int)) {
                let k = choose|k: int| 0 <= k < i + 1 && #[trigger] rv.take(i + 1)[k] is Ok;
                if k < i {
                    assert(rv.take(i as int)[k] is Ok);
                }
            }
        }
        i = i + 1;
    }
    assert(rv.take(reads@.len() as int) =~= rv);
    if verified && err.is_none() {
        EncryptionStatus { is_encrypted: true, password_valid: true, error_message: None }
    } else {
        let message = match err {
            Some(m) => m,
            None => String::from_str("Invalid password"),
        };
        EncryptionStatus { is_encrypted: true, password_valid: false, error_message: Some(message) }
    }
}

/// The status of an encrypted 7Z archive from the outcome of sampling its
/// entries with the password: the walk's failure makes the password invalid
/// with "Invalid password: " and the failure's message; otherwise the reads
/// decide.
pub open spec fn walk_status(walk: Result<Seq<Result<(), Seq<char>>>, Seq<char>>, s: EncryptionStatus) -> bool {
    match walk {
        Err(m) => s.is_encrypted && !s.password_valid && s@.error_message == Some("Invalid password: "@ + m),
        Ok(reads) => password_reads_status(reads, s),
    }
}

pub open spec fn walk_view(w: Result<Vec<Result<(), String>>, String>) -> Result<Seq<Result<(), Seq<char>>>, Seq<char>> {
    match w {
        Ok(v) => Ok(outcomes_view(v@)),
        Err(m) => Err(m@),
    }
}

/// The status of an encrypted 7Z archive from the outcome of sampling its
/// entries with the password.
pub fn sevenz_walk_status(walk: &Result<Vec<Result<(), String>>, String>) -> (s: EncryptionStatus)
    ensures
        walk_status(walk_view(*walk), s),
        status_consistent(s@),
{
    match walk {
        Err(m) => {
            let mut msg = String::from_str("Invalid password: ");
            msg.append(m.as_str());
            EncryptionStatus { is_encrypted: true, password_valid: false, error_message: Some(msg) }
        },
        Ok(reads) => status_from_reads(reads),
    }
}

/// What `check_7z_encryption` answers.
pub open spec fn sevenz_encryption_spec(
    data: Seq<u8>,
    password: Option<Seq<char>>,
    r: Result<EncryptionStatus, ArchiveError>,
) -> bool {
    match sevenz_coders_of(data, password) {
        Err(m) => r matches Ok(s) && s.is_encrypted && !s.password_valid && s@.error_message == Some(m),
        Ok(blocks) => if !uses_aes(blocks) {
            r matches Ok(s) && !s.is_encrypted && s.password_valid && s.error_message is None
        } else {
            match password {
                Some(p) if p.len() > 0 => r matches Ok(s) && exists|
                    w: Result<Seq<Result<(), Seq<char>>>, Seq<char>>,
                | #[trigger] walk_status(w, s),
                _ => r matches Ok(s) && s.is_encrypted && !s.password_valid && s@.error_message
                    == Some("Password required"@),
            }
        },
    }
}

/// The encryption status of a 7Z archive from its bytes, reading its headers
/// only: an archive whose headers cannot be opened with the password is
/// reported encrypted with the failure; one whose blocks use no AES coder is
/// not encrypted; otherwise a missing or empty password is reported as
/// required, and a given one is checked by sampling the entries' data (see
/// `sevenz_walk_status`, which gives the status for each outcome).
pub fn check_7z_encryption(data: &[u8], password: Option<&str>) -> (r: Result<
    EncryptionStatus,
    ArchiveError,
>)
    ensures
        sevenz_encryption_spec(data@, opt_str(password), r),
        r matches Ok(s) ==> status_consistent(s@),
{
    let blocks = match sevenz_coders(data, password) {
        Err(m) => {
            return Ok(
                EncryptionStatus { is_encrypted: true, password_valid: false, error_message: Some(m) },
            );
        },
        Ok(b) => b,
    };
    if !any_aes(&blocks) {
        return Ok(EncryptionStatus { is_encrypted: false, password_valid: true, error_message: None });
    }
    let pwd = match password {
        Some(p) => {
            if p.is_empty() {
                return Ok(
                    EncryptionStatus {
                        is_encrypted: true,
                        password_valid: false,
                        error_message: Some(String::from_str("Password required")),
                    },
                );
            }
            p
        },
        None => {
            return Ok(
                EncryptionStatus {
                    is_encrypted: true,
                    password_valid: false,
                    error_message: Some(String::from_str("Password required")),
                },
            );
        },
    };
    let walk = sevenz_first_reads(data, pwd, PASSWORD_SAMPLE_LEN);
    let s = sevenz_walk_status(&walk);
    assert(walk_status(walk_view(walk), s));
    Ok(s)
}

} // verus!
