//! Which engine handles each operation on each format, and the errors for
//! formats and requests the backend refuses.
use vstd::prelude::*;
use crate::errors::{error_of, error_with, is_error, ArchiveError, ErrorKind};
use crate::models::{
    catalog_spec, entries_view, format_from_path, format_of_path, ArchiveEntry, ConflictMode,
    CreateArchiveRequest, EncryptionStatus, EntryView, status_consistent,
};
use crate::text::{chars_of, copy_string, is_str};

verus! {

broadcast use vstd::string::group_string_axioms;

/// The engines that read archives.
#[derive(Clone, Copy, Debug, PartialEq, Eq, Structural)]
pub enum ReadEngine {
    Zip,
    SevenZ,
    Rar,
    /// Single-file `gz` / `bz2` streams.
    RawCompressed,
    /// Optical disk images (`iso`, `img`).
    DiskImage,
    /// The `tar` tool (TAR family, CAB, CPIO, AR).
    Libarchive,
}

/// The engines that write archives.
#[derive(Clone, Copy, Debug, PartialEq, Eq, Structural)]
pub enum WriteEngine {
    Zip,
    SevenZ,
    /// `tar` and `tar.gz`.
    Tar,
    /// A single-file `gz` stream.
    RawGz,
}

pub open spec fn is_tar_family(f: Seq<char>) -> bool {
    f == "tar"@ || f == "tar.gz"@ || f == "tar.bz2"@ || f == "tar.xz"@ || f == "tar.zst"@ || f
        == "cab"@ || f == "cpio"@ || f == "ar"@
}

/// The engine that opens, extracts, tests and inspects a format.
pub open spec fn read_engine_of(f: Seq<char>) -> Option<ReadEngine> {
    if f == "zip"@ {
        Some(ReadEngine::Zip)
    } else if f == "7z"@ {
        Some(ReadEngine::SevenZ)
    } else if f == "rar"@ {
        Some(ReadEngine::Rar)
    } else if f == "gz"@ || f == "bz2"@ {
        Some(ReadEngine::RawCompressed)
    } else if f == "iso"@ || f == "img"@ {
        Some(ReadEngine::DiskImage)
    } else if is_tar_family(f) {
        Some(ReadEngine::Libarchive)
    } else {
        None
    }
}

/// The engine that creates archives of a format.
pub open spec fn create_engine_of(f: Seq<char>) -> Option<WriteEngine> {
    if f == "zip"@ {
        Some(WriteEngine::Zip)
    } else if f == "7z"@ {
        Some(WriteEngine::SevenZ)
    } else if f == "tar"@ || f == "tar.gz"@ {
        Some(WriteEngine::Tar)
    } else if f == "gz"@ {
        Some(WriteEngine::RawGz)
    } else {
        None
    }
}

/// The engine that removes entries from archives of a format: the writer of
/// the format (for a single-file `gz` stream, the stream writer, which drops
/// the one file it holds).
pub open spec fn remove_engine_of(f: Seq<char>) -> Option<WriteEngine> {
    create_engine_of(f)
}

/// The engine that checks encryption for a format (others are never encrypted).
pub open spec fn encryption_engine_of(f: Seq<char>) -> Option<ReadEngine> {
    if f == "zip"@ {
        Some(ReadEngine::Zip)
    } else if f == "7z"@ {
        Some(ReadEngine::SevenZ)
    } else if f == "rar"@ {
        Some(ReadEngine::Rar)
    } else {
        None
    }
}

/// `gz` is written by the raw stream engine only.
proof fn lemma_gz_engine(f: Seq<char>)
    ensures
        (create_engine_of(f) == Some(WriteEngine::RawGz)) <==> f == "gz"@,
{
    reveal_strlit("gz");
    reveal_strlit("zip");
    reveal_strlit("7z");
    reveal_strlit("tar");
    reveal_strlit("tar.gz");
    if f == "gz"@ {
        assert(f[0] == 'g');
        assert("7z"@[0] == '7');
    }
}

/// The first characters that tell the engine names apart.
proof fn lemma_format_names_differ()
    ensures
        "zip"@.len() == 3 && "zip"@[0] == 'z' && "zip"@[1] == 'i',
        "7z"@.len() == 2 && "7z"@[0] == '7',
        "rar"@.len() == 3 && "rar"@[0] == 'r',
        "gz"@.len() == 2 && "gz"@[0] == 'g',
        "bz2"@.len() == 3 && "bz2"@[0] == 'b',
        "iso"@.len() == 3 && "iso"@[0] == 'i',
        "img"@.len() == 3 && "img"@[0] == 'i' && "img"@[1] == 'm',
        "tar"@.len() == 3 && "tar"@[0] == 't',
        "tar.gz"@.len() == 6 && "tar.gz"@[0] == 't',
        "tar.bz2"@.len() == 7 && "tar.bz2"@[0] == 't' && "tar.bz2"@[4] == 'b',
        "tar.xz"@.len() == 6 && "tar.xz"@[0] == 't' && "tar.xz"@[4] == 'x',
        "tar.zst"@.len() == 7 && "tar.zst"@[0] == 't' && "tar.zst"@[4] == 'z',
        "cab"@.len() == 3 && "cab"@[0] == 'c',
        "cpio"@.len() == 4 && "cpio"@[0] == 'c',
        "ar"@.len() == 2 && "ar"@[0] == 'a',
{
    reveal_strlit("zip");
    reveal_strlit("7z");
    reveal_strlit("rar");
    reveal_strlit("gz");
    reveal_strlit("bz2");
    reveal_strlit("iso");
    reveal_strlit("img");
    reveal_strlit("tar");
    reveal_strlit("tar.gz");
    reveal_strlit("tar.bz2");
    reveal_strlit("tar.xz");
    reveal_strlit("tar.zst");
    reveal_strlit("cab");
    reveal_strlit("cpio");
    reveal_strlit("ar");
}

/// Every format is read by its own engine: ZIP, 7Z and RAR archives by their
/// engines; the single-file streams `gz` and `bz2`, and nothing else, as one
/// compressed stream; `iso` and `img` as disk images; and every TAR-family
/// format (`tar`, `tar.gz`, `tar.bz2`, `tar.xz`, `tar.zst`) with CAB, CPIO
/// and AR by the `tar` tool, so that a compressed TAR archive is listed entry
/// by entry.
pub proof fn lemma_read_engines(f: Seq<char>)
    ensures
        (read_engine_of(f) == Some(ReadEngine::Zip)) <==> f == "zip"@,
        (read_engine_of(f) == Some(ReadEngine::SevenZ)) <==> f == "7z"@,
        (read_engine_of(f) == Some(ReadEngine::Rar)) <==> f == "rar"@,
        (read_engine_of(f) == Some(ReadEngine::RawCompressed)) <==> (f == "gz"@ || f == "bz2"@),
        (read_engine_of(f) == Some(ReadEngine::DiskImage)) <==> (f == "iso"@ || f == "img"@),
        (read_engine_of(f) == Some(ReadEngine::Libarchive)) <==> (f == "tar"@ || f == "tar.gz"@
            || f == "tar.bz2"@ || f == "tar.xz"@ || f == "tar.zst"@ || f == "cab"@ || f == "cpio"@
            || f == "ar"@),
{
    lemma_format_names_differ();
}

/// Every format that can be created is written by its own writer: ZIP by the
/// ZIP writer and nothing else, 7Z by the 7Z writer and nothing else, `tar`
/// and `tar.gz` (and nothing else) by the TAR writer, and a `gz` stream by the
/// stream writer. Entries are removed with the same writer.
pub proof fn lemma_create_engines(f: Seq<char>)
    ensures
        (create_engine_of(f) == Some(WriteEngine::Zip)) <==> f == "zip"@,
        (create_engine_of(f) == Some(WriteEngine::SevenZ)) <==> f == "7z"@,
        (create_engine_of(f) == Some(WriteEngine::Tar)) <==> (f == "tar"@ || f == "tar.gz"@),
        (create_engine_of(f) == Some(WriteEngine::RawGz)) <==> f == "gz"@,
        (create_engine_of(f) is Some) <==> (f == "zip"@ || f == "7z"@ || f == "tar"@ || f
            == "tar.gz"@ || f == "gz"@),
        remove_engine_of(f) == create_engine_of(f),
{
    lemma_format_names_differ();
}

fn is_tar_family_exec(f: &[char]) -> (r: bool)
    ensures
        r == is_tar_family(f@),
{
    is_str(f, "tar") || is_str(f, "tar.gz") || is_str(f, "tar.bz2") || is_str(f, "tar.xz")
        || is_str(f, "tar.zst") || is_str(f, "cab") || is_str(f, "cpio") || is_str(f, "ar")
}

/// The engine that reads a format.
pub fn read_engine(format: &str) -> (r: Option<ReadEngine>)
    ensures
        r == read_engine_of(format@),
{
    let f = chars_of(format);
    let f = f.as_slice();
    if is_str(f, "zip") {
        Some(ReadEngine::Zip)
    } else if is_str(f, "7z") {
        Some(ReadEngine::SevenZ)
    } else if is_str(f, "rar") {
        Some(ReadEngine::Rar)
    } else if is_str(f, "gz") || is_str(f, "bz2") {
        Some(ReadEngine::RawCompressed)
    } else if is_str(f, "iso") || is_str(f, "img") {
        Some(ReadEngine::DiskImage)
    } else if is_tar_family_exec(f) {
        Some(ReadEngine::Libarchive)
    } else {
        None
    }
}

/// The engine that creates a format.
pub fn create_engine(format: &str) -> (r: Option<WriteEngine>)
    ensures
        r == create_engine_of(format@),
{
    let f = chars_of(format);
    let f = f.as_slice();
    if is_str(f, "zip") {
        Some(WriteEngine::Zip)
    } else if is_str(f, "7z") {
        Some(WriteEngine::SevenZ)
    } else if is_str(f, "tar") || is_str(f, "tar.gz") {
        Some(WriteEngine::Tar)
    } else if is_str(f, "gz") {
        Some(WriteEngine::RawGz)
    } else {
        None
    }
}

/// The engine that checks encryption of a format.
pub fn encryption_engine(format: &str) -> (r: Option<ReadEngine>)
    ensures
        r == encryption_engine_of(format@),
{
    let f = chars_of(format);
    let f = f.as_slice();
    if is_str(f, "zip") {
        Some(ReadEngine::Zip)
    } else if is_str(f, "7z") {
        Some(ReadEngine::SevenZ)
    } else if is_str(f, "rar") {
        Some(ReadEngine::Rar)
    } else {
        None
    }
}

fn error_around(kind: ErrorKind, prefix: &str, detail: &str, suffix: &str) -> (e: ArchiveError)
    ensures
        is_error(e, kind, prefix@ + detail@ + suffix@),
{
    let mut message = String::from_str(prefix);
    message.append(detail);
    message.append(suffix);
    ArchiveError { kind, message }
}

/// The format of an archive and the engine that reads it.
pub struct Route<E> {
    pub format: String,
    pub engine: E,
}

/// The route for a path: its format and reading engine, or the refusal
/// `prefix + format + suffix` for a format that no engine reads.
pub open spec fn read_route_spec(
    path: Seq<char>,
    r: Result<Route<ReadEngine>, ArchiveError>,
    prefix: Seq<char>,
    suffix: Seq<char>,
) -> bool {
    let f = format_of_path(path);
    match read_engine_of(f) {
        Some(e) => r matches Ok(route) && route.format@ == f && route.engine == e,
        None => r matches Err(err) && is_error(err, ErrorKind::Unsupported, prefix + f + suffix),
    }
}

fn read_route(path: &str, prefix: &str, suffix: &str) -> (r: Result<Route<ReadEngine>, ArchiveError>)
    ensures
        read_route_spec(path@, r, prefix@, suffix@),
{
    let format = format_from_path(path);
    match read_engine(format.as_str()) {
        Some(engine) => Ok(Route { format, engine }),
        None => Err(error_around(ErrorKind::Unsupported, prefix, format.as_str(), suffix)),
    }
}

/// Opening an archive: the engine that lists the archive at `path`, or the
/// error for a format that cannot be opened.
pub fn inspect_archive(path: &str) -> (r: Result<Route<ReadEngine>, ArchiveError>)
    ensures
        read_route_spec(path@, r, "Unsupported archive format: ."@, ""@),
{
    read_route(path, "Unsupported archive format: .", "")
}

/// The check on an extraction destination before it is created: an empty
/// destination is refused; any other is used as given (the same folder as
/// the archive's included).
pub fn prepare_extraction_destination(output_dir: &str) -> (r: Result<String, ArchiveError>)
    ensures
        output_dir@.len() == 0 <==> r is Err,
        r matches Ok(d) ==> d@ == output_dir@,
        r matches Err(e) ==> is_error(
            e,
            ErrorKind::InvalidInput,
            "Extraction destination cannot be empty"@,
        ),
{
    if output_dir.is_empty() {
        Err(error_of(ErrorKind::InvalidInput, "Extraction destination cannot be empty"))
    } else {
        Ok(String::from_str(output_dir))
    }
}

/// Extracting an archive into `output_dir`: the destination check first,
/// then the engine that extracts the archive at `archive_path`, or the error
/// for a format that cannot be extracted.
pub fn extract_archive(archive_path: &str, output_dir: &str) -> (r: Result<
    Route<ReadEngine>,
    ArchiveError,
>)
    ensures
        output_dir@.len() == 0 ==> (r matches Err(e) && is_error(
            e,
            ErrorKind::InvalidInput,
            "Extraction destination cannot be empty"@,
        )),
        output_dir@.len() > 0 ==> read_route_spec(
            archive_path@,
            r,
            "Extraction not supported for ."@,
            " archives"@,
        ),
{
    match prepare_extraction_destination(output_dir) {
        Err(e) => Err(e),
        Ok(_) => read_route(archive_path, "Extraction not supported for .", " archives"),
    }
}

/// Testing an archive: the engine that tests the archive at `path`, or the
/// error for a format that cannot be tested.
pub fn test_archive(path: &str) -> (r: Result<Route<ReadEngine>, ArchiveError>)
    ensures
        read_route_spec(path@, r, "Testing not supported for ."@, " archives"@),
{
    read_route(path, "Testing not supported for .", " archives")
}

/// Drag extraction of `selected` entries: the engine that extracts them, or
/// the error when nothing is selected or the format is not supported.
pub fn prepare_drag_extraction(path: &str, selected: usize) -> (r: Result<Route<ReadEngine>, ArchiveError>)
    ensures
        selected == 0 ==> (r matches Err(e) && is_error(
            e,
            ErrorKind::InvalidInput,
            "No items selected for extraction"@,
        )),
        selected > 0 ==> read_route_spec(
            path@,
            r,
            "Drag extraction is not supported for ."@,
            " archives"@,
        ),
{
    if selected == 0 {
        return Err(error_of(ErrorKind::InvalidInput, "No items selected for extraction"));
    }
    read_route(path, "Drag extraction is not supported for .", " archives")
}

/// The status reported for formats that are never encrypted.
pub open spec fn plain_status(s: EncryptionStatus) -> bool {
    !s.is_encrypted && s.password_valid && s.error_message is None
}

pub fn unencrypted_status() -> (s: EncryptionStatus)
    ensures
        plain_status(s),
        status_consistent(s@),
{
    EncryptionStatus { is_encrypted: false, password_valid: true, error_message: None }
}

/// Checking the encryption of the archive at `path`: the engine that checks
/// it (ZIP, 7Z, RAR), or, for a format that is never encrypted, the status
/// itself.
pub fn check_encryption(path: &str) -> (r: Result<Route<ReadEngine>, EncryptionStatus>)
    ensures
        match encryption_engine_of(format_of_path(path@)) {
            Some(e) => r matches Ok(route) && route.engine == e && route.format@ == format_of_path(path@),
            None => r matches Err(s) && plain_status(s),
        },
        r matches Err(s) ==> status_consistent(s@),
{
    let format = format_from_path(path);
    match encryption_engine(format.as_str()) {
        Some(engine) => Ok(Route { format, engine }),
        None => Err(unencrypted_status()),
    }
}

/// Creating an archive: the engine that writes the archive of a request,
/// after the checks on the password (an empty password is refused, and a
/// password is accepted for ZIP and 7Z only).
pub fn create_archive(request: &CreateArchiveRequest) -> (r: Result<Route<WriteEngine>, ArchiveError>)
    ensures
        ({
            let f = format_of_path(request.output_path@);
            if request.password matches Some(p) && p@.len() == 0 {
                r matches Err(e) && is_error(e, ErrorKind::InvalidInput, "Password cannot be empty"@)
            } else if request.password is Some && !(f == "zip"@ || f == "7z"@) {
                r matches Err(e) && is_error(
                    e,
                    ErrorKind::Unsupported,
                    "Password encryption is currently supported for ZIP and 7Z only"@,
                )
            } else {
                match create_engine_of(f) {
                    Some(w) => r matches Ok(route) && route.engine == w && route.format@ == f,
                    None => r matches Err(e) && is_error(
                        e,
                        ErrorKind::Unsupported,
                        "Creating ."@ + f + " archives is not supported (read/extract only)"@,
                    ),
                }
            }
        }),
{
    let format = format_from_path(request.output_path.as_str());
    let fc = chars_of(format.as_str());
    let is_zip_or_7z = is_str(fc.as_slice(), "zip") || is_str(fc.as_slice(), "7z");
    match &request.password {
        Some(p) => {
            if p.as_str().is_empty() {
                return Err(error_of(ErrorKind::InvalidInput, "Password cannot be empty"));
            }
            if !is_zip_or_7z {
                return Err(
                    error_of(
                        ErrorKind::Unsupported,
                        "Password encryption is currently supported for ZIP and 7Z only",
                    ),
                );
            }
        },
        None => {},
    }
    match create_engine(format.as_str()) {
        Some(engine) => Ok(Route { format, engine }),
        None => Err(
            error_around(
                ErrorKind::Unsupported,
                "Creating .",
                format.as_str(),
                " archives is not supported (read/extract only)",
            ),
        ),
    }
}

/// Adding `inputs` files to the archive at `path`: the engine that writes
/// them, or the refusal; a `gz` stream holds exactly one file.
pub fn add_files(path: &str, inputs: usize) -> (r: Result<Route<WriteEngine>, ArchiveError>)
    ensures
        ({
            let f = format_of_path(path@);
            match create_engine_of(f) {
                Some(w) => if f == "gz"@ && inputs != 1 {
                    r matches Err(e) && is_error(
                        e,
                        ErrorKind::InvalidInput,
                        ".gz archives contain one compressed file; select exactly one input file to update"@,
                    )
                } else {
                    r matches Ok(route) && route.engine == w && route.format@ == f
                },
                None => r matches Err(e) && is_error(
                    e,
                    ErrorKind::Unsupported,
                    "Adding files to ."@ + f + " is not supported (read/extract only)"@,
                ),
            }
        }),
{
    let format = format_from_path(path);
    proof {
        lemma_gz_engine(format@);
    }
    match create_engine(format.as_str()) {
        Some(engine) => {
            if engine == WriteEngine::RawGz && inputs != 1 {
                return Err(
                    error_of(
                        ErrorKind::InvalidInput,
                        ".gz archives contain one compressed file; select exactly one input file to update",
                    ),
                );
            }
            Ok(Route { format, engine })
        },
        None => Err(
            error_around(
                ErrorKind::Unsupported,
                "Adding files to .",
                format.as_str(),
                " is not supported (read/extract only)",
            ),
        ),
    }
}

/// Removing entries from the archive at `path`: the engine that rewrites
/// it, or the refusal for a read-only format. A single-file `gz` stream is
/// rewritten by the stream writer (see `raw_stream::raw_keeps_file`).
pub fn remove_entries(path: &str) -> (r: Result<Route<WriteEngine>, ArchiveError>)
    ensures
        ({
            let f = format_of_path(path@);
            match remove_engine_of(f) {
                Some(w) => r matches Ok(route) && route.engine == w && route.format@ == f,
                None => r matches Err(e) && is_error(
                    e,
                    ErrorKind::Unsupported,
                    "Removing entries from ."@ + f + " is not supported (read/extract only)"@,
                ),
            }
        }),
{
    let format = format_from_path(path);
    match create_engine(format.as_str()) {
        Some(engine) => Ok(Route { format, engine }),
        None => Err(
            error_around(
                ErrorKind::Unsupported,
                "Removing entries from .",
                format.as_str(),
                " is not supported (read/extract only)",
            ),
        ),
    }
}

/// Whether an extraction writes straight into the destination: only when
/// existing files are overwritten; otherwise it is staged first and copied
/// file by file, resolving each conflict.
pub fn extracts_in_place(mode: &ConflictMode) -> (r: bool)
    ensures
        r == (*mode == ConflictMode::Overwrite),
{
    match mode {
        ConflictMode::Overwrite => true,
        _ => false,
    }
}

/// How a TAR-family archive is written back from a folder.
#[derive(Clone, Copy, Debug, PartialEq, Eq, Structural)]
pub enum TarWriter {
    /// A plain TAR stream, written in-process.
    Plain,
    /// A TAR stream through the gzip encoder, at the chosen level.
    Gzip,
    /// A TAR stream through the bzip2 encoder, at its best level.
    Bzip2,
    /// The `tar` tool with `-J`.
    ToolXz,
    /// The `tar` tool with `--zstd`.
    ToolZstd,
}

pub open spec fn tar_writer_of(format: Seq<char>) -> Option<TarWriter> {
    if format == "tar"@ {
        Some(TarWriter::Plain)
    } else if format == "tar.gz"@ {
        Some(TarWriter::Gzip)
    } else if format == "tar.bz2"@ {
        Some(TarWriter::Bzip2)
    } else if format == "tar.xz"@ {
        Some(TarWriter::ToolXz)
    } else if format == "tar.zst"@ {
        Some(TarWriter::ToolZstd)
    } else {
        None
    }
}

/// The writer that rebuilds a TAR-family archive of a format, or the error
/// for another format.
pub fn tar_writer_for(format: &str) -> (r: Result<TarWriter, ArchiveError>)
    ensures
        match tar_writer_of(format@) {
            Some(w) => r == Ok::<TarWriter, ArchiveError>(w),
            None => r matches Err(e) && is_error(
                e,
                ErrorKind::InvalidInput,
                "Unsupported format: "@ + format@,
            ),
        },
{
    let f = chars_of(format);
    let f = f.as_slice();
    if is_str(f, "tar") {
        Ok(TarWriter::Plain)
    } else if is_str(f, "tar.gz") {
        Ok(TarWriter::Gzip)
    } else if is_str(f, "tar.bz2") {
        Ok(TarWriter::Bzip2)
    } else if is_str(f, "tar.xz") {
        Ok(TarWriter::ToolXz)
    } else if is_str(f, "tar.zst") {
        Ok(TarWriter::ToolZstd)
    } else {
        Err(error_with(ErrorKind::InvalidInput, "Unsupported format: ", format))
    }
}

/// The folder picker of the extraction dialog; on this platform there is no
/// native picker, and the answer is always that nothing was chosen.
pub fn pick_extraction_folder(title: Option<&str>, default_path: Option<&str>) -> (r: Option<
    String,
>)
    ensures
        r is None,
{
    None
}

// ---------------------------------------------------------------------------
// Conflicts before extraction
// ---------------------------------------------------------------------------

/// The names of the listed files (not folders) whose destination is already
/// a file.
pub open spec fn conflicts_spec(entries: Seq<EntryView>, taken: Seq<bool>) -> Seq<Seq<char>>
    decreases entries.len(),
{
    if entries.len() == 0 {
        seq![]
    } else {
        let before = conflicts_spec(entries.drop_last(), taken);
        let i = entries.len() - 1;
        if !entries[i].is_dir && taken[i] {
            before.push(entries[i].name)
        } else {
            before
        }
    }
}

/// The entries that would overwrite an existing file: the names of the
/// listed files, in listing order, for which `taken[i]` reports that the
/// destination of entry `i` already is a file.
pub fn check_conflicts(entries: &Vec<ArchiveEntry>, taken: &Vec<bool>) -> (r: Vec<String>)
    requires
        taken@.len() == entries@.len(),
    ensures
        r.deep_view() == conflicts_spec(entries_view(entries@), taken@),
{
    let mut r: Vec<String> = Vec::new();
    let mut i: usize = 0;
    while i < entries.len()
        invariant
            i <= entries@.len(),
            taken@.len() == entries@.len(),
            r.deep_view() == conflicts_spec(entries_view(entries@).take(i as int), taken@),
        decreases entries@.len() - i,
    {
        let ghost ev = entries_view(entries@);
        assert(ev.take(i + 1).drop_last() =~= ev.take(i as int));
        assert(ev.take(i + 1)[i as int] == entries[i as int]@);
        if !entries[i].is_dir && taken[i] {
            let ghost before = r.deep_view();
            r.push(copy_string(&entries[i].name));
            assert(r.deep_view() =~= before.push(entries[i as int].name@));
        }
        i = i + 1;
    }
    assert(entries_view(entries@).take(entries@.len() as int) =~= entries_view(entries@));
    r
}

/// In `Cancel` mode an extraction that would meet an existing file is
/// aborted before anything is written: the first listed file whose
/// destination already is a file (`taken[i]` for entry `i`), if any. In the
/// other modes nothing aborts the extraction up front.
pub fn cancel_conflict(mode: &ConflictMode, entries: &Vec<ArchiveEntry>, taken: &Vec<bool>) -> (r: Option<String>)
    requires
        taken@.len() == entries@.len(),
    ensures
        *mode != ConflictMode::Cancel ==> r is None,
        *mode == ConflictMode::Cancel ==> match r {
            None => conflicts_spec(entries_view(entries@), taken@).len() == 0,
            Some(n) => conflicts_spec(entries_view(entries@), taken@).len() > 0 && n@
                == conflicts_spec(entries_view(entries@), taken@)[0],
        },
{
    match mode {
        ConflictMode::Cancel => {
            let conflicts = check_conflicts(entries, taken);
            if conflicts.len() == 0 {
                None
            } else {
                assert(conflicts.deep_view()[0] == conflicts@[0]@);
                Some(copy_string(&conflicts[0]))
            }
        },
        _ => None,
    }
}

} // verus!
