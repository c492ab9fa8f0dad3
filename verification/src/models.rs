//! The archive model: conflict modes, listing entries, encryption status, the
//! catalog of archive formats with their capabilities, format detection from
//! a path, and the renaming of outputs that would overwrite a file.
use vstd::prelude::*;
use crate::paths::{
    extension, extension_bounds, extension_of, file_name, file_stem, join_path, parent_path, path_extension, path_join_of,
    path_parent_of, path_stem, file_name_of,
};
use crate::text::{
    lemma_decimal_injective, lemma_decimal_len,
    chars_of, copy_string, decimal, has_suffix, is_str, lower_text, lowercase, push_decimal,
    str_ends_with, str_eq, string_of, string_of_range, upper_text, uppercase,
};

verus! {

broadcast use vstd::string::group_string_axioms;

// ---------------------------------------------------------------------------
// Plain data types
// ---------------------------------------------------------------------------

/// How to handle a file that already exists at the extraction destination.
#[derive(Clone, Copy, Debug, PartialEq, Eq, Structural)]
pub enum ConflictMode {
    /// Replace the existing file (default).
    Overwrite,
    /// Append " (N)" before the extension until the name is unique.
    Rename,
    /// Abort the entire extraction: no files are written (see
    /// `dispatch::cancel_conflict`, checked before extraction starts).
    Cancel,
}

impl Default for ConflictMode {
    fn default() -> (r: Self)
        ensures
            r == ConflictMode::Overwrite,
    {
        ConflictMode::Overwrite
    }
}

pub open spec fn opt_view(o: Option<String>) -> Option<Seq<char>> {
    match o {
        Some(s) => Some(s@),
        None => None,
    }
}

/// Whether an archive is encrypted and whether the given password opens it.
#[derive(Debug)]
pub struct EncryptionStatus {
    pub is_encrypted: bool,
    pub password_valid: bool,
    pub error_message: Option<String>,
}

pub struct EncryptionView {
    pub is_encrypted: bool,
    pub password_valid: bool,
    pub error_message: Option<Seq<char>>,
}

impl View for EncryptionStatus {
    type V = EncryptionView;

    open spec fn view(&self) -> EncryptionView {
        EncryptionView {
            is_encrypted: self.is_encrypted,
            password_valid: self.password_valid,
            error_message: opt_view(self.error_message),
        }
    }
}

/// The rule every reported status keeps: the password counts as valid exactly
/// when no message comes with the status, and an archive that is not encrypted
/// always has a valid password.
pub open spec fn status_consistent(s: EncryptionView) -> bool {
    &&& s.password_valid == (s.error_message is None)
    &&& !s.is_encrypted ==> s.password_valid
}

/// One entry of an archive listing.
#[derive(Debug)]
pub struct ArchiveEntry {
    pub name: String,
    pub kind: String,
    pub size: u64,
    pub compressed_size: u64,
    pub modified: Option<String>,
    pub is_dir: bool,
}

pub struct EntryView {
    pub name: Seq<char>,
    pub kind: Seq<char>,
    pub size: u64,
    pub compressed_size: u64,
    pub modified: Option<Seq<char>>,
    pub is_dir: bool,
}

impl View for ArchiveEntry {
    type V = EntryView;

    open spec fn view(&self) -> EntryView {
        EntryView {
            name: self.name@,
            kind: self.kind@,
            size: self.size,
            compressed_size: self.compressed_size,
            modified: opt_view(self.modified),
            is_dir: self.is_dir,
        }
    }
}

/// The views of a listing, entry by entry.
pub open spec fn entries_view(v: Seq<ArchiveEntry>) -> Seq<EntryView> {
    v.map_values(|e: ArchiveEntry| e@)
}

/// What can be done with the archive at a given path.
#[derive(Debug)]
pub struct ArchiveCapabilities {
    pub format: String,
    pub can_create: bool,
    pub can_add: bool,
    pub can_remove: bool,
    pub can_extract: bool,
    pub can_test: bool,
    pub can_encrypt: bool,
    pub can_view: bool,
    pub password_support: bool,
}

pub struct CapabilitiesView {
    pub format: Seq<char>,
    pub can_create: bool,
    pub can_add: bool,
    pub can_remove: bool,
    pub can_extract: bool,
    pub can_test: bool,
    pub can_encrypt: bool,
    pub can_view: bool,
    pub password_support: bool,
}

impl View for ArchiveCapabilities {
    type V = CapabilitiesView;

    open spec fn view(&self) -> CapabilitiesView {
        CapabilitiesView {
            format: self.format@,
            can_create: self.can_create,
            can_add: self.can_add,
            can_remove: self.can_remove,
            can_extract: self.can_extract,
            can_test: self.can_test,
            can_encrypt: self.can_encrypt,
            can_view: self.can_view,
            password_support: self.password_support,
        }
    }
}

/// One archive format of the catalog.
#[derive(Debug)]
pub struct ArchiveFormatInfo {
    pub id: String,
    pub label: String,
    pub extensions: Vec<String>,
    pub can_create: bool,
    pub can_add: bool,
    pub can_remove: bool,
    pub can_extract: bool,
    pub can_test: bool,
    pub can_encrypt: bool,
    pub can_view: bool,
    pub password_support: bool,
    pub single_file_only: bool,
    pub implemented: bool,
}

pub struct FormatView {
    pub id: Seq<char>,
    pub label: Seq<char>,
    pub extensions: Seq<Seq<char>>,
    pub can_create: bool,
    pub can_add: bool,
    pub can_remove: bool,
    pub can_extract: bool,
    pub can_test: bool,
    pub can_encrypt: bool,
    pub can_view: bool,
    pub password_support: bool,
    pub single_file_only: bool,
    pub implemented: bool,
}

impl View for ArchiveFormatInfo {
    type V = FormatView;

    open spec fn view(&self) -> FormatView {
        FormatView {
            id: self.id@,
            label: self.label@,
            extensions: self.extensions.deep_view(),
            can_create: self.can_create,
            can_add: self.can_add,
            can_remove: self.can_remove,
            can_extract: self.can_extract,
            can_test: self.can_test,
            can_encrypt: self.can_encrypt,
            can_view: self.can_view,
            password_support: self.password_support,
            single_file_only: self.single_file_only,
            implemented: self.implemented,
        }
    }
}

/// A request to create an archive from files and folders.
#[derive(Debug)]
pub struct CreateArchiveRequest {
    pub output_path: String,
    pub input_paths: Vec<String>,
    pub compression: String,
    pub password: Option<String>,
}

// ---------------------------------------------------------------------------
// Format detection
// ---------------------------------------------------------------------------

/// The format of a file from its lowercased file name and lowercased
/// extension: compound TAR suffixes first, `.a` means `ar`, otherwise the
/// extension itself.
pub open spec fn format_of_names(lname: Seq<char>, lext: Seq<char>) -> Seq<char> {
    if has_suffix(lname, ".tar.gz"@) || has_suffix(lname, ".tgz"@) {
        "tar.gz"@
    } else if has_suffix(lname, ".tar.bz2"@) || has_suffix(lname, ".tbz2"@) {
        "tar.bz2"@
    } else if has_suffix(lname, ".tar.xz"@) || has_suffix(lname, ".txz"@) {
        "tar.xz"@
    } else if has_suffix(lname, ".tar.zst"@) {
        "tar.zst"@
    } else if lext == "a"@ {
        "ar"@
    } else {
        lext
    }
}

pub open spec fn or_empty(o: Option<Seq<char>>) -> Seq<char> {
    match o {
        Some(s) => s,
        None => seq![],
    }
}

/// The format of the file at path `p`, from its lowercased file name and
/// that name's extension.
pub open spec fn format_of_path(p: Seq<char>) -> Seq<char> {
    let l = lower_text(or_empty(file_name_of(p)));
    format_of_names(l, or_empty(extension_of(l)))
}

/// The format named by a lowercased file name and lowercased extension.
pub fn format_from_names(lower_name: &str, lower_ext: &str) -> (r: String)
    ensures
        r@ == format_of_names(lower_name@, lower_ext@),
{
    let n = chars_of(lower_name);
    let e = chars_of(lower_ext);
    if str_ends_with(n.as_slice(), ".tar.gz") || str_ends_with(n.as_slice(), ".tgz") {
        return String::from_str("tar.gz");
    }
    if str_ends_with(n.as_slice(), ".tar.bz2") || str_ends_with(n.as_slice(), ".tbz2") {
        return String::from_str("tar.bz2");
    }
    if str_ends_with(n.as_slice(), ".tar.xz") || str_ends_with(n.as_slice(), ".txz") {
        return String::from_str("tar.xz");
    }
    if str_ends_with(n.as_slice(), ".tar.zst") {
        return String::from_str("tar.zst");
    }
    if is_str(e.as_slice(), "a") {
        return String::from_str("ar");
    }
    String::from_str(lower_ext)
}

/// The archive format of the file at `path` (for example `zip`, `tar.gz`).
pub fn format_from_path(path: &str) -> (r: String)
    ensures
        r@ == format_of_path(path@),
{
    let v = chars_of(path);
    let name = match file_name(v.as_slice()) {
        Some(n) => n,
        None => String::new(),
    };
    let lname = lowercase(name.as_str());
    let l = chars_of(lname.as_str());
    assert(l@.subrange(0, l@.len() as int) =~= l@);
    let ext = match extension_bounds(l.as_slice(), 0, l.len()) {
        Some((x, y)) => string_of_range(l.as_slice(), x, y),
        None => String::new(),
    };
    format_from_names(lname.as_str(), ext.as_str())
}

// ---------------------------------------------------------------------------
// File kinds
// ---------------------------------------------------------------------------

pub open spec fn is_text_ext(e: Seq<char>) -> bool {
    e == "txt"@ || e == "md"@ || e == "rs"@ || e == "ts"@ || e == "tsx"@ || e == "js"@ || e
        == "jsx"@ || e == "json"@ || e == "csv"@ || e == "log"@ || e == "xml"@ || e == "yaml"@
        || e == "yml"@
}

pub open spec fn is_image_ext(e: Seq<char>) -> bool {
    e == "jpg"@ || e == "jpeg"@ || e == "png"@ || e == "gif"@ || e == "webp"@ || e == "bmp"@
        || e == "svg"@ || e == "ico"@
}

pub open spec fn is_archive_ext(e: Seq<char>) -> bool {
    e == "zip"@ || e == "7z"@ || e == "rar"@ || e == "tar"@ || e == "gz"@ || e == "bz2"@ || e
        == "xz"@ || e == "zst"@ || e == "tgz"@ || e == "tbz2"@ || e == "txz"@
}

/// The kind of file shown for a lowercased extension.
pub open spec fn kind_of_ext(e: Seq<char>) -> Seq<char> {
    if is_text_ext(e) {
        "Text Document"@
    } else if is_image_ext(e) {
        "Image"@
    } else if e == "pdf"@ {
        "PDF Document"@
    } else if e == "doc"@ || e == "docx"@ {
        "Word Document"@
    } else if e == "xls"@ || e == "xlsx"@ {
        "Spreadsheet"@
    } else if is_archive_ext(e) {
        "Archive"@
    } else if e == "iso"@ || e == "img"@ || e == "nrg"@ {
        "Disk Image"@
    } else {
        "File"@
    }
}

/// The kind of file shown for the file at path `p`.
pub open spec fn kind_of_path(p: Seq<char>) -> Seq<char> {
    kind_of_ext(lower_text(or_empty(path_extension(p))))
}

/// The kind of file shown for a lowercased extension.
pub fn file_kind_of_ext(lower_ext: &str) -> (r: String)
    ensures
        r@ == kind_of_ext(lower_ext@),
{
    let e = chars_of(lower_ext);
    let e = e.as_slice();
    if is_str(e, "txt") || is_str(e, "md") || is_str(e, "rs") || is_str(e, "ts") || is_str(e, "tsx")
        || is_str(e, "js") || is_str(e, "jsx") || is_str(e, "json") || is_str(e, "csv") || is_str(
        e,
        "log",
    ) || is_str(e, "xml") || is_str(e, "yaml") || is_str(e, "yml") {
        String::from_str("Text Document")
    } else if is_str(e, "jpg") || is_str(e, "jpeg") || is_str(e, "png") || is_str(e, "gif")
        || is_str(e, "webp") || is_str(e, "bmp") || is_str(e, "svg") || is_str(e, "ico") {
        String::from_str("Image")
    } else if is_str(e, "pdf") {
        String::from_str("PDF Document")
    } else if is_str(e, "doc") || is_str(e, "docx") {
        String::from_str("Word Document")
    } else if is_str(e, "xls") || is_str(e, "xlsx") {
        String::from_str("Spreadsheet")
    } else if is_str(e, "zip") || is_str(e, "7z") || is_str(e, "rar") || is_str(e, "tar") || is_str(
        e,
        "gz",
    ) || is_str(e, "bz2") || is_str(e, "xz") || is_str(e, "zst") || is_str(e, "tgz") || is_str(
        e,
        "tbz2",
    ) || is_str(e, "txz") {
        String::from_str("Archive")
    } else if is_str(e, "iso") || is_str(e, "img") || is_str(e, "nrg") {
        String::from_str("Disk Image")
    } else {
        String::from_str("File")
    }
}

/// The kind of file shown for the file at `path` ("Text Document", "Image",
/// "Archive", ... or "File").
pub fn file_kind(path: &str) -> (r: String)
    ensures
        r@ == kind_of_path(path@),
{
    let v = chars_of(path);
    let ext = match extension(v.as_slice()) {
        Some(x) => x,
        None => String::new(),
    };
    let lext = lowercase(ext.as_str());
    file_kind_of_ext(lext.as_str())
}

// ---------------------------------------------------------------------------
// The format catalog
// ---------------------------------------------------------------------------

/// A catalog entry: every entry is implemented and can be extracted, tested
/// and viewed; `full` formats can also be created, added to and removed from.
pub open spec fn format_view(
    id: Seq<char>,
    label: Seq<char>,
    extensions: Seq<Seq<char>>,
    full: bool,
    encrypt: bool,
    password: bool,
    single: bool,
) -> FormatView {
    FormatView {
        id,
        label,
        extensions,
        can_create: full,
        can_add: full,
        can_remove: full,
        can_extract: true,
        can_test: true,
        can_encrypt: encrypt,
        can_view: true,
        password_support: password,
        single_file_only: single,
        implemented: true,
    }
}

/// The catalog of supported archive formats, in display order.
pub open spec fn catalog_spec() -> Seq<FormatView> {
    seq![
        format_view("zip"@, "ZIP — standard archive"@, seq!["zip"@], true, true, true, false),
        format_view("7z"@, "7Z — high compression"@, seq!["7z"@], true, true, true, false),
        format_view("tar"@, "TAR — uncompressed archive"@, seq!["tar"@], true, false, false, false),
        format_view("tar.gz"@, "TAR.GZ — TAR + GZip"@, seq!["tar.gz"@, "tgz"@], true, false, false, false),
        format_view("gz"@, "GZ — compressed file"@, seq!["gz"@], true, false, false, true),
        format_view("rar"@, "RAR — extract & view only (RARLabs engine)"@, seq!["rar"@], false, false, true, false),
        format_view("tar.bz2"@, "TAR.BZ2 — TAR + BZip2 (read-only)"@, seq!["tar.bz2"@, "tbz2"@], false, false, false, false),
        format_view("tar.xz"@, "TAR.XZ — TAR + XZ (read-only)"@, seq!["tar.xz"@, "txz"@], false, false, false, false),
        format_view("tar.zst"@, "TAR.ZST — TAR + Zstandard (read-only)"@, seq!["tar.zst"@], false, false, false, false),
        format_view("bz2"@, "BZ2 — single compressed file (read-only)"@, seq!["bz2"@], false, false, false, true),
        format_view("cab"@, "CAB — extract & view only (libarchive)"@, seq!["cab"@], false, false, false, false),
        format_view("iso"@, "ISO — extract & view only (libarchive)"@, seq!["iso"@], false, false, false, false),
        format_view("img"@, "IMG — extract & view only (libarchive)"@, seq!["img"@], false, false, false, false),
        format_view("cpio"@, "CPIO — extract & view only (libarchive)"@, seq!["cpio"@], false, false, false, false),
        format_view("ar"@, "AR — extract & view only (libarchive)"@, seq!["ar"@, "a"@], false, false, false, false),
    ]
}

fn one_extension(a: &str) -> (r: Vec<String>)
    ensures
        r.deep_view() == seq![a@],
{
    let mut r: Vec<String> = Vec::new();
    r.push(String::from_str(a));
    assert(r.deep_view() =~= seq![a@]);
    r
}

fn two_extensions(a: &str, b: &str) -> (r: Vec<String>)
    ensures
        r.deep_view() == seq![a@, b@],
{
    let mut r: Vec<String> = Vec::new();
    r.push(String::from_str(a));
    r.push(String::from_str(b));
    assert(r.deep_view() =~= seq![a@, b@]);
    r
}

fn format_info(
    id: &str,
    label: &str,
    extensions: Vec<String>,
    full: bool,
    encrypt: bool,
    password: bool,
    single: bool,
) -> (r: ArchiveFormatInfo)
    ensures
        r@ == format_view(id@, label@, extensions.deep_view(), full, encrypt, password, single),
{
    ArchiveFormatInfo {
        id: String::from_str(id),
        label: String::from_str(label),
        extensions,
        can_create: full,
        can_add: full,
        can_remove: full,
        can_extract: true,
        can_test: true,
        can_encrypt: encrypt,
        can_view: true,
        password_support: password,
        single_file_only: single,
        implemented: true,
    }
}

/// The views of a list of catalog entries.
pub open spec fn formats_view(v: Seq<ArchiveFormatInfo>) -> Seq<FormatView> {
    v.map_values(|x: ArchiveFormatInfo| x@)
}

/// The catalog of archive formats with their capabilities.
pub fn format_catalog() -> (r: Vec<ArchiveFormatInfo>)
    ensures
        formats_view(r@) == catalog_spec(),
{
    let mut v: Vec<ArchiveFormatInfo> = Vec::new();
    v.push(format_info("zip", "ZIP — standard archive", one_extension("zip"), true, true, true, false));
    v.push(format_info("7z", "7Z — high compression", one_extension("7z"), true, true, true, false));
    v.push(format_info("tar", "TAR — uncompressed archive", one_extension("tar"), true, false, false, false));
    v.push(format_info("tar.gz", "TAR.GZ — TAR + GZip", two_extensions("tar.gz", "tgz"), true, false, false, false));
    v.push(format_info("gz", "GZ — compressed file", one_extension("gz"), true, false, false, true));
    v.push(format_info("rar", "RAR — extract & view only (RARLabs engine)", one_extension("rar"), false, false, true, false));
    v.push(format_info("tar.bz2", "TAR.BZ2 — TAR + BZip2 (read-only)", two_extensions("tar.bz2", "tbz2"), false, false, false, false));
    v.push(format_info("tar.xz", "TAR.XZ — TAR + XZ (read-only)", two_extensions("tar.xz", "txz"), false, false, false, false));
    v.push(format_info("tar.zst", "TAR.ZST — TAR + Zstandard (read-only)", one_extension("tar.zst"), false, false, false, false));
    v.push(format_info("bz2", "BZ2 — single compressed file (read-only)", one_extension("bz2"), false, false, false, true));
    v.push(format_info("cab", "CAB — extract & view only (libarchive)", one_extension("cab"), false, false, false, false));
    v.push(format_info("iso", "ISO — extract & view only (libarchive)", one_extension("iso"), false, false, false, false));
    v.push(format_info("img", "IMG — extract & view only (libarchive)", one_extension("img"), false, false, false, false));
    v.push(format_info("cpio", "CPIO — extract & view only (libarchive)", one_extension("cpio"), false, false, false, false));
    v.push(format_info("ar", "AR — extract & view only (libarchive)", two_extensions("ar", "a"), false, false, false, false));
    assert(formats_view(v@) =~= catalog_spec());
    v
}

// ---------------------------------------------------------------------------
// Capabilities of a path
// ---------------------------------------------------------------------------

/// The capabilities reported for a catalog format.
pub open spec fn caps_of(f: FormatView) -> CapabilitiesView {
    CapabilitiesView {
        format: upper_text(f.id),
        can_create: f.can_create,
        can_add: f.can_add,
        can_remove: f.can_remove,
        can_extract: f.can_extract,
        can_test: f.can_test,
        can_encrypt: f.can_encrypt,
        can_view: f.can_view,
        password_support: f.password_support,
    }
}

/// The capabilities reported for a format outside the catalog.
pub open spec fn unknown_caps() -> CapabilitiesView {
    CapabilitiesView {
        format: "Unknown"@,
        can_create: false,
        can_add: false,
        can_remove: false,
        can_extract: false,
        can_test: false,
        can_encrypt: false,
        can_view: false,
        password_support: false,
    }
}

/// Whether `format` is one of the catalog's extensions.
pub open spec fn in_catalog(format: Seq<char>) -> bool {
    exists|i: int| 0 <= i < catalog_spec().len() && #[trigger] catalog_spec()[i].extensions.contains(format)
}

fn contains_string(v: &Vec<String>, s: &String) -> (r: bool)
    ensures
        r == v.deep_view().contains(s@),
{
    let mut i: usize = 0;
    while i < v.len()
        invariant
            i <= v@.len(),
            forall|k: int| 0 <= k < i ==> v.deep_view()[k] != s@,
        decreases v@.len() - i,
    {
        if str_eq(v[i].as_str(), s.as_str()) {
            assert(v.deep_view()[i as int] == s@);
            return true;
        }
        i = i + 1;
    }
    false
}

/// What can be done with the archive at `path`: the capabilities of the
/// catalog format whose extensions include the path's format, or
/// "Unknown" with nothing allowed.
pub fn capabilities_for_path(path: &str) -> (r: ArchiveCapabilities)
    ensures
        forall|i: int|
            0 <= i < catalog_spec().len() && #[trigger] catalog_spec()[i].extensions.contains(
                format_of_path(path@),
            ) ==> r@ == caps_of(catalog_spec()[i]),
        !in_catalog(format_of_path(path@)) ==> r@ == unknown_caps(),
{
    let format = format_from_path(path);
    let catalog = format_catalog();
    let mut i: usize = 0;
    while i < catalog.len()
        invariant
            i <= catalog@.len(),
            formats_view(catalog@) == catalog_spec(),
            format@ == format_of_path(path@),
            forall|k: int| 0 <= k < i ==> !#[trigger] catalog_spec()[k].extensions.contains(format@),
        decreases catalog@.len() - i,
    {
        let item = &catalog[i];
        assert(catalog_spec()[i as int] == item@);
        if contains_string(&item.extensions, &format) {
            assert(catalog_spec()[i as int].extensions.contains(format@));
            proof {
                lemma_catalog_extensions_unique();
            }
            return ArchiveCapabilities {
                format: uppercase(item.id.as_str()),
                can_create: item.can_create,
                can_add: item.can_add,
                can_remove: item.can_remove,
                can_extract: item.can_extract,
                can_test: item.can_test,
                can_encrypt: item.can_encrypt,
                can_view: item.can_view,
                password_support: item.password_support,
            };
        }
        i = i + 1;
    }
    ArchiveCapabilities {
        format: String::from_str("Unknown"),
        can_create: false,
        can_add: false,
        can_remove: false,
        can_extract: false,
        can_test: false,
        can_encrypt: false,
        can_view: false,
        password_support: false,
    }
}


// ---------------------------------------------------------------------------
// Choosing where an extracted file is written
// ---------------------------------------------------------------------------

/// How many bytes of an encrypted entry are read to check a password.
pub const PASSWORD_SAMPLE_LEN: usize = 64;

/// How many renamed candidates are tried before falling back to overwriting.
pub const MAX_RENAME_ATTEMPTS: u32 = 9999;

/// The file name tried at rename attempt `n`: the stem (or `file`), then
/// ` (n)`, then the extension if there is one.
pub open spec fn rename_name(p: Seq<char>, n: nat) -> Seq<char> {
    let stem = match path_stem(p) {
        Some(s) => s,
        None => "file"@,
    };
    match path_extension(p) {
        Some(e) => stem + " ("@ + decimal(n) + ")."@ + e,
        None => stem + " ("@ + decimal(n) + ")"@,
    }
}

/// The path tried at rename attempt `n`: the renamed file name in the same
/// folder (or in `.` when the path has no parent).
pub open spec fn rename_candidate(p: Seq<char>, n: nat) -> Seq<char> {
    let parent = match path_parent_of(p) {
        Some(q) => q,
        None => "."@,
    };
    path_join_of(parent, rename_name(p, n))
}

/// The next move while choosing an output path.
#[derive(Debug)]
pub enum OutputStep {
    /// Write to this path.
    Use(String),
    /// The file exists and the mode is `Cancel`: abort the extraction.
    Abort,
    /// Find out whether `candidate` exists, then continue with `attempt`.
    Probe { attempt: u32, candidate: String },
}

/// The next move while choosing an output path, in terms of text.
pub enum StepView {
    Use(Seq<char>),
    Abort,
    Probe(nat, Seq<char>),
}

pub open spec fn step_view(s: OutputStep) -> StepView {
    match s {
        OutputStep::Use(p) => StepView::Use(p@),
        OutputStep::Abort => StepView::Abort,
        OutputStep::Probe { attempt, candidate } => StepView::Probe(attempt as nat, candidate@),
    }
}

/// One step of choosing an output path (see `resolve_output_path`).
pub open spec fn resolve_step(p: Seq<char>, mode: ConflictMode, attempt: nat, present: bool) -> StepView {
    if !present {
        if attempt == 0 {
            StepView::Use(p)
        } else {
            StepView::Use(rename_candidate(p, attempt))
        }
    } else {
        match mode {
            ConflictMode::Overwrite => StepView::Use(p),
            ConflictMode::Cancel => StepView::Abort,
            ConflictMode::Rename => if attempt < MAX_RENAME_ATTEMPTS {
                StepView::Probe(attempt + 1, rename_candidate(p, attempt + 1))
            } else {
                StepView::Use(p)
            },
        }
    }
}

/// The path asked about at attempt `n`: the path itself, then the renamed
/// candidates.
pub open spec fn asked_path(p: Seq<char>, n: nat) -> Seq<char> {
    if n == 0 {
        p
    } else {
        rename_candidate(p, n)
    }
}

/// Choosing an output path from attempt `attempt` on, answering each step
/// with `taken` of the path it asks about: the path written to, or `None`
/// when the extraction is aborted.
pub open spec fn resolve_search(
    p: Seq<char>,
    mode: ConflictMode,
    taken: spec_fn(Seq<char>) -> bool,
    attempt: nat,
) -> Option<Seq<char>>
    decreases MAX_RENAME_ATTEMPTS - attempt,
{
    match resolve_step(p, mode, attempt, taken(asked_path(p, attempt))) {
        StepView::Use(q) => Some(q),
        StepView::Abort => None,
        StepView::Probe(next, _) => if next > attempt && next <= MAX_RENAME_ATTEMPTS {
            resolve_search(p, mode, taken, next)
        } else {
            None
        },
    }
}

fn rename_candidate_exec(path: &str, n: u32) -> (r: String)
    ensures
        r@ == rename_candidate(path@, n as nat),
{
    let v = chars_of(path);
    let mut name = match file_stem(v.as_slice()) {
        Some(s) => s,
        None => String::from_str("file"),
    };
    name.append(" (");
    let mut digits: Vec<char> = Vec::new();
    push_decimal(&mut digits, n as u64);
    assert(digits@ =~= decimal(n as nat));
    name.append(string_of(digits.as_slice()).as_str());
    match extension(v.as_slice()) {
        Some(e) => {
            name.append(").");
            name.append(e.as_str());
        },
        None => {
            name.append(")");
        },
    }
    let parent = match parent_path(path) {
        Some(q) => q,
        None => String::from_str("."),
    };
    join_path(parent.as_str(), name.as_str())
}

/// One step of resolving the output path for a file according to `mode`.
/// Attempt 0 asks about `path` itself; with `Rename`, attempt `n > 0` asks
/// about the `n`-th renamed candidate. `exists` says whether the path asked
/// about exists. A missing path is used as is; an existing one is replaced
/// (`Overwrite`), aborts the extraction (`Cancel`), or leads to the next
/// candidate (`Rename`), falling back to `path` after the last attempt.
pub fn resolve_output_path(path: &str, mode: &ConflictMode, attempt: u32, exists: bool) -> (r: OutputStep)
    requires
        attempt <= MAX_RENAME_ATTEMPTS,
        attempt > 0 ==> *mode == ConflictMode::Rename,
    ensures
        !exists && attempt == 0 ==> (r matches OutputStep::Use(p) && p@ == path@),
        !exists && attempt > 0 ==> (r matches OutputStep::Use(p) && p@ == rename_candidate(
            path@,
            attempt as nat,
        )),
        exists && *mode == ConflictMode::Overwrite ==> (r matches OutputStep::Use(p) && p@ == path@),
        exists && *mode == ConflictMode::Cancel ==> r is Abort,
        exists && *mode == ConflictMode::Rename && attempt < MAX_RENAME_ATTEMPTS ==> (r matches OutputStep::Probe {
            attempt: next,
            candidate,
        } && next == attempt + 1 && candidate@ == rename_candidate(path@, next as nat)),
        exists && *mode == ConflictMode::Rename && attempt == MAX_RENAME_ATTEMPTS ==> (r matches OutputStep::Use(p)
            && p@ == path@),
        step_view(r) == resolve_step(path@, *mode, attempt as nat, exists),
{
    if !exists {
        if attempt == 0 {
            return OutputStep::Use(String::from_str(path));
        } else {
            return OutputStep::Use(rename_candidate_exec(path, attempt));
        }
    }
    match mode {
        ConflictMode::Overwrite => OutputStep::Use(String::from_str(path)),
        ConflictMode::Cancel => OutputStep::Abort,
        ConflictMode::Rename => {
            if attempt < MAX_RENAME_ATTEMPTS {
                OutputStep::Probe {
                    attempt: attempt + 1,
                    candidate: rename_candidate_exec(path, attempt + 1),
                }
            } else {
                OutputStep::Use(String::from_str(path))
            }
        },
    }
}

/// Driving the steps to the end: a missing path is used as is; an existing
/// one is replaced (`Overwrite`), aborts (`Cancel`), or (`Rename`) gives way
/// to the first renamed candidate that does not exist, every earlier one
/// existing, or to the path itself when all of them exist.
pub proof fn lemma_resolve_search(
    p: Seq<char>,
    mode: ConflictMode,
    taken: spec_fn(Seq<char>) -> bool,
    m: nat,
)
    ensures
        !taken(p) ==> resolve_search(p, mode, taken, 0) == Some(p),
        taken(p) && mode == ConflictMode::Overwrite ==> resolve_search(p, mode, taken, 0) == Some(p),
        taken(p) && mode == ConflictMode::Cancel ==> resolve_search(p, mode, taken, 0) is None,
        taken(p) && mode == ConflictMode::Rename && 1 <= m <= MAX_RENAME_ATTEMPTS && !taken(
            rename_candidate(p, m),
        ) && (forall|k: nat| 1 <= k < m ==> taken(#[trigger] rename_candidate(p, k)))
            ==> resolve_search(p, mode, taken, 0) == Some(rename_candidate(p, m)),
        taken(p) && mode == ConflictMode::Rename && (forall|k: nat|
            1 <= k <= MAX_RENAME_ATTEMPTS ==> taken(#[trigger] rename_candidate(p, k)))
            ==> resolve_search(p, mode, taken, 0) == Some(p),
{
    if taken(p) && mode == ConflictMode::Rename {
        if 1 <= m <= MAX_RENAME_ATTEMPTS && !taken(rename_candidate(p, m)) && (forall|k: nat|
            1 <= k < m ==> taken(#[trigger] rename_candidate(p, k))) {
            lemma_rename_walk(p, taken, 0, m);
        }
        if forall|k: nat| 1 <= k <= MAX_RENAME_ATTEMPTS ==> taken(#[trigger] rename_candidate(p, k)) {
            lemma_rename_walk_all(p, taken, 0);
        }
    }
}

proof fn lemma_rename_walk(p: Seq<char>, taken: spec_fn(Seq<char>) -> bool, a: nat, m: nat)
    requires
        a < m <= MAX_RENAME_ATTEMPTS,
        taken(asked_path(p, a)),
        !taken(rename_candidate(p, m)),
        forall|k: nat| 1 <= k < m ==> taken(#[trigger] rename_candidate(p, k)),
    ensures
        resolve_search(p, ConflictMode::Rename, taken, a) == Some(rename_candidate(p, m)),
    decreases m - a,
{
    let next = a + 1;
    if next < m {
        assert(taken(rename_candidate(p, next)));
        lemma_rename_walk(p, taken, next, m);
    } else {
        assert(asked_path(p, next) == rename_candidate(p, m));
        assert(resolve_search(p, ConflictMode::Rename, taken, next) == Some(rename_candidate(p, m)));
    }
}

proof fn lemma_rename_walk_all(p: Seq<char>, taken: spec_fn(Seq<char>) -> bool, a: nat)
    requires
        a <= MAX_RENAME_ATTEMPTS,
        taken(asked_path(p, a)),
        forall|k: nat| 1 <= k <= MAX_RENAME_ATTEMPTS ==> taken(#[trigger] rename_candidate(p, k)),
    ensures
        resolve_search(p, ConflictMode::Rename, taken, a) == Some(p),
    decreases MAX_RENAME_ATTEMPTS - a,
{
    if a < MAX_RENAME_ATTEMPTS {
        assert(taken(rename_candidate(p, a + 1)));
        lemma_rename_walk_all(p, taken, a + 1);
    }
}

/// Renaming never proposes the same file name twice: different attempts give
/// different names.
pub proof fn lemma_rename_names_distinct(p: Seq<char>, n: nat, m: nat)
    requires
        n != m,
    ensures
        rename_name(p, n) != rename_name(p, m),
{
    let stem = match path_stem(p) {
        Some(s) => s,
        None => "file"@,
    };
    let dn = decimal(n);
    let dm = decimal(m);
    let tail = match path_extension(p) {
        Some(e) => ")."@ + e,
        None => ")"@,
    };
    let open = " ("@;
    assert(rename_name(p, n) =~= stem + open + dn + tail);
    assert(rename_name(p, m) =~= stem + open + dm + tail);
    if rename_name(p, n) == rename_name(p, m) {
        let a: int = stem.len() as int + open.len() as int;
        assert(dn.len() == dm.len());
        assert((stem + open + dn + tail).subrange(a, a + dn.len() as int) =~= dn);
        assert((stem + open + dm + tail).subrange(a, a + dm.len() as int) =~= dm);
        lemma_decimal_injective(n, m);
    }
}

/// The catalog entry that lists extension `x`, or -1.
pub open spec fn extension_owner(x: Seq<char>) -> int {
    if x.len() == 3 && x[0] == 'z' && x[1] == 'i' && x[2] == 'p' {
        0
    } else if x.len() == 2 && x[0] == '7' && x[1] == 'z' {
        1
    } else if x.len() == 3 && x[0] == 't' && x[1] == 'a' && x[2] == 'r' {
        2
    } else if x.len() == 6 && x[0] == 't' && x[1] == 'a' && x[2] == 'r' && x[3] == '.' && x[4] == 'g' && x[5] == 'z' {
        3
    } else if x.len() == 3 && x[0] == 't' && x[1] == 'g' && x[2] == 'z' {
        3
    } else if x.len() == 2 && x[0] == 'g' && x[1] == 'z' {
        4
    } else if x.len() == 3 && x[0] == 'r' && x[1] == 'a' && x[2] == 'r' {
        5
    } else if x.len() == 7 && x[0] == 't' && x[1] == 'a' && x[2] == 'r' && x[3] == '.' && x[4] == 'b' && x[5] == 'z' && x[6] == '2' {
        6
    } else if x.len() == 4 && x[0] == 't' && x[1] == 'b' && x[2] == 'z' && x[3] == '2' {
        6
    } else if x.len() == 6 && x[0] == 't' && x[1] == 'a' && x[2] == 'r' && x[3] == '.' && x[4] == 'x' && x[5] == 'z' {
        7
    } else if x.len() == 3 && x[0] == 't' && x[1] == 'x' && x[2] == 'z' {
        7
    } else if x.len() == 7 && x[0] == 't' && x[1] == 'a' && x[2] == 'r' && x[3] == '.' && x[4] == 'z' && x[5] == 's' && x[6] == 't' {
        8
    } else if x.len() == 3 && x[0] == 'b' && x[1] == 'z' && x[2] == '2' {
        9
    } else if x.len() == 3 && x[0] == 'c' && x[1] == 'a' && x[2] == 'b' {
        10
    } else if x.len() == 3 && x[0] == 'i' && x[1] == 's' && x[2] == 'o' {
        11
    } else if x.len() == 3 && x[0] == 'i' && x[1] == 'm' && x[2] == 'g' {
        12
    } else if x.len() == 4 && x[0] == 'c' && x[1] == 'p' && x[2] == 'i' && x[3] == 'o' {
        13
    } else if x.len() == 2 && x[0] == 'a' && x[1] == 'r' {
        14
    } else if x.len() == 1 && x[0] == 'a' {
        14
    } else {
        -1
    }
}

/// Each extension listed by entry `i` of the catalog is owned by entry `i`.
proof fn lemma_extension_owner(i: int, x: Seq<char>)
    requires
        0 <= i < catalog_spec().len(),
        catalog_spec()[i].extensions.contains(x),
    ensures
        extension_owner(x) == i,
{
    reveal_strlit("zip");
    reveal_strlit("7z");
    reveal_strlit("tar");
    reveal_strlit("tar.gz");
    reveal_strlit("tgz");
    reveal_strlit("gz");
    reveal_strlit("rar");
    reveal_strlit("tar.bz2");
    reveal_strlit("tbz2");
    reveal_strlit("tar.xz");
    reveal_strlit("txz");
    reveal_strlit("tar.zst");
    reveal_strlit("bz2");
    reveal_strlit("cab");
    reveal_strlit("iso");
    reveal_strlit("img");
    reveal_strlit("cpio");
    reveal_strlit("ar");
    reveal_strlit("a");
    let exts = catalog_spec()[i].extensions;
    let k = choose|k: int| 0 <= k < exts.len() && exts[k] == x;
    assert(exts[k] == x);
}

/// No extension belongs to two catalog formats, so a path's format selects
/// at most one catalog entry.
pub proof fn lemma_catalog_extensions_unique()
    ensures
        forall|i: int, j: int, x: Seq<char>|
            0 <= i < catalog_spec().len() && 0 <= j < catalog_spec().len()
                && #[trigger] catalog_spec()[i].extensions.contains(x)
                && #[trigger] catalog_spec()[j].extensions.contains(x) ==> i == j,
{
    assert forall|i: int, j: int, x: Seq<char>|
        0 <= i < catalog_spec().len() && 0 <= j < catalog_spec().len()
            && #[trigger] catalog_spec()[i].extensions.contains(x)
            && #[trigger] catalog_spec()[j].extensions.contains(x) implies i == j by {
        lemma_extension_owner(i, x);
        lemma_extension_owner(j, x);
    }
}

} // verus!
