//! The application layer's own logic: its error type and messages, the state
//! it keeps between commands, the check on entry paths given to "View", and
//! the choice of the file to open from the command line.
use vstd::prelude::*;
use crate::errors::{error_with, is_error, ArchiveError, ErrorKind};
use crate::paths::{has_dotdot, is_absolute, range_is_dotdot};
use crate::text::{chars_of, copy_string, has_prefix, lemma_prefix_char, replace_char, replace_chars, split_char, split_on, string_of};

verus! {

broadcast use vstd::string::group_string_axioms;

/// A failed command, as reported to the user interface.
#[derive(Debug)]
pub enum AppError {
    /// An archive operation failed.
    Io(ArchiveError),
    UnsupportedFormat(String),
    InvalidPath(String),
    /// The system could not open a file with its default application.
    Opener(String),
}

/// The text shown for an error.
pub open spec fn app_error_message(e: AppError) -> Seq<char> {
    match e {
        AppError::Io(x) => "I/O error: "@ + x.message@,
        AppError::UnsupportedFormat(s) => "unsupported format: "@ + s@,
        AppError::InvalidPath(s) => "invalid path: "@ + s@,
        AppError::Opener(s) => "could not open file with the system default application: "@
            + s@,
    }
}

impl AppError {
    /// The text shown for this error.
    pub fn message(&self) -> (r: String)
        ensures
            r@ == app_error_message(*self),
    {
        let (prefix, detail) = match self {
            AppError::Io(x) => ("I/O error: ", x.message.as_str()),
            AppError::UnsupportedFormat(s) => ("unsupported format: ", s.as_str()),
            AppError::InvalidPath(s) => ("invalid path: ", s.as_str()),
            AppError::Opener(s) => (
                "could not open file with the system default application: ",
                s.as_str(),
            ),
        };
        let mut r = String::from_str(prefix);
        r.append(detail);
        r
    }
}

impl From<ArchiveError> for AppError {
    fn from(e: ArchiveError) -> (r: AppError) {
        AppError::Io(e)
    }
}

impl vstd::std_specs::convert::FromSpecImpl<ArchiveError> for AppError {
    open spec fn obeys_from_spec() -> bool {
        true
    }

    open spec fn from_spec(v: ArchiveError) -> AppError {
        AppError::Io(v)
    }
}

// ---------------------------------------------------------------------------
// State kept between commands
// ---------------------------------------------------------------------------

/// The archive currently open, and the temporary "View" workspaces kept until
/// the application exits.
pub struct AppState {
    current_archive: Option<String>,
    view_workspaces: Vec<String>,
}

impl AppState {
    /// The path of the archive currently open, if any.
    pub closed spec fn current(&self) -> Option<Seq<char>> {
        match self.current_archive {
            Some(p) => Some(p@),
            None => None,
        }
    }

    /// The workspaces kept so far, in the order they were created.
    pub closed spec fn workspaces(&self) -> Seq<Seq<char>> {
        self.view_workspaces.deep_view()
    }

    /// No archive open and no workspace kept.
    pub fn new() -> (s: AppState)
        ensures
            s.current() is None,
            s.workspaces() == Seq::<Seq<char>>::empty(),
    {
        let s = AppState { current_archive: None, view_workspaces: Vec::new() };
        assert(s.view_workspaces.deep_view() =~= Seq::<Seq<char>>::empty());
        s
    }

    /// Records the archive that a command opened, created or changed.
    pub fn set_current_archive(&mut self, path: String)
        ensures
            final(self).current() == Some(path@),
            final(self).workspaces() == old(self).workspaces(),
    {
        self.current_archive = Some(path);
    }

    /// The path of the archive currently open.
    pub fn current_archive(&self) -> (r: Option<String>)
        ensures
            r is None <==> self.current() is None,
            r matches Some(p) ==> self.current() == Some(p@),
    {
        match &self.current_archive {
            Some(p) => Some(copy_string(p)),
            None => None,
        }
    }

    /// Keeps a workspace until the application exits.
    pub fn retain_workspace(&mut self, workspace: String)
        ensures
            final(self).workspaces() == old(self).workspaces().push(workspace@),
            final(self).current() == old(self).current(),
    {
        let ghost before = self.view_workspaces.deep_view();
        self.view_workspaces.push(workspace);
        assert(self.view_workspaces.deep_view() =~= before.push(workspace@));
    }

    /// Hands over every kept workspace (to be removed at exit) and keeps
    /// none.
    pub fn take_workspaces(&mut self) -> (r: Vec<String>)
        ensures
            r.deep_view() == old(self).workspaces(),
            final(self).workspaces() == Seq::<Seq<char>>::empty(),
            final(self).current() == old(self).current(),
    {
        let mut taken: Vec<String> = Vec::new();
        std::mem::swap(&mut taken, &mut self.view_workspaces);
        assert(self.view_workspaces.deep_view() =~= Seq::<Seq<char>>::empty());
        taken
    }
}

impl Default for AppState {
    fn default() -> (s: AppState)
        ensures
            s.current() is None,
            s.workspaces() == Seq::<Seq<char>>::empty(),
    {
        AppState::new()
    }
}

// ---------------------------------------------------------------------------
// Entry paths requested for "View"
// ---------------------------------------------------------------------------

/// An entry path with `\` turned into `/`.
pub open spec fn normalized_entry(entry: Seq<char>) -> Seq<char> {
    replace_char(entry, '\\', '/')
}

/// An entry path may be viewed unless, once normalized, it is absolute or has
/// a `..` component.
pub open spec fn entry_path_allowed(entry: Seq<char>) -> bool {
    let n = normalized_entry(entry);
    !is_absolute(n) && !has_dotdot(split_char(n, '/'))
}

/// The relative path of an entry to view: the normalized path, or an
/// invalid-path error naming the entry as given.
pub fn safe_entry_path(entry: &str) -> (r: Result<String, AppError>)
    ensures
        entry_path_allowed(entry@) ==> (r matches Ok(p) && p@ == normalized_entry(entry@)),
        !entry_path_allowed(entry@) ==> (r matches Err(AppError::InvalidPath(s)) && s@ == entry@),
{
    let v = chars_of(entry);
    let n = replace_chars(v.as_slice(), '\\', '/');
    if n.len() > 0 && n[0] == '/' {
        return Err(AppError::InvalidPath(String::from_str(entry)));
    }
    let segs = split_on(n.as_slice(), '/');
    let mut i: usize = 0;
    while i < segs.len()
        invariant
            i <= segs@.len(),
            n@ == normalized_entry(entry@),
            segs.deep_view() == split_char(n@, '/'),
            forall|k: int| 0 <= k < i ==> !crate::paths::is_dotdot(#[trigger] segs.deep_view()[k]),
        decreases segs@.len() - i,
    {
        let seg = &segs[i];
        assert(segs.deep_view()[i as int] == seg@);
        let len = seg.len();
        assert(seg@.subrange(0, len as int) =~= seg@);
        if range_is_dotdot(seg.as_slice(), 0, len) {
            assert(crate::paths::is_dotdot(segs.deep_view()[i as int]));
            assert(has_dotdot(split_char(n@, '/')));
            return Err(AppError::InvalidPath(String::from_str(entry)));
        }
        i = i + 1;
    }
    Ok(string_of(n.as_slice()))
}

/// The file to show after extracting an entry for "View": the first file
/// extracted, or the error that none was found.
pub fn view_target(extracted: &Vec<String>, entry_path: &str) -> (r: Result<String, AppError>)
    ensures
        extracted@.len() > 0 ==> (r matches Ok(t) && t@ == extracted@[0]@),
        extracted@.len() == 0 ==> (r matches Err(AppError::Io(e)) && is_error(
            e,
            ErrorKind::NotFound,
            "The selected file was not found after extraction: "@ + entry_path@,
        )),
{
    if extracted.len() > 0 {
        Ok(copy_string(&extracted[0]))
    } else {
        Err(
            AppError::Io(
                error_with(
                    ErrorKind::NotFound,
                    "The selected file was not found after extraction: ",
                    entry_path,
                ),
            ),
        )
    }
}

/// The file extracted for "View" must be a regular file (`is_file`).
pub fn check_extracted_file(target: &str, is_file: bool) -> (r: Result<(), AppError>)
    ensures
        is_file ==> r is Ok,
        !is_file ==> (r matches Err(AppError::Io(e)) && is_error(
            e,
            ErrorKind::NotFound,
            "The selected file was not found after extraction: "@ + target@,
        )),
{
    if is_file {
        Ok(())
    } else {
        Err(
            AppError::Io(
                error_with(
                    ErrorKind::NotFound,
                    "The selected file was not found after extraction: ",
                    target,
                ),
            ),
        )
    }
}

/// The file handed to the default application must be a regular file
/// (`is_file`).
pub fn check_view_file(path: &str, is_file: bool) -> (r: Result<(), AppError>)
    ensures
        is_file ==> r is Ok,
        !is_file ==> (r matches Err(AppError::Io(e)) && is_error(
            e,
            ErrorKind::NotFound,
            "Temporary view file does not exist: "@ + path@,
        )),
{
    if is_file {
        Ok(())
    } else {
        Err(AppError::Io(error_with(ErrorKind::NotFound, "Temporary view file does not exist: ", path)))
    }
}

// ---------------------------------------------------------------------------
// The file named on the command line
// ---------------------------------------------------------------------------

/// Argument `i` (after the program name) names a file to open: it is not an
/// option and the file exists.
pub open spec fn opens(args: Seq<Seq<char>>, exists: Seq<bool>, i: int) -> bool {
    1 <= i < args.len() && !has_prefix(args[i], seq!['-']) && exists[i]
}

/// The path to open at start-up: the first argument after the program name
/// that is not an option (does not start with `-`) and names an existing
/// file (`exists[i]` for argument `i`).
pub fn get_cli_open_path(args: &Vec<String>, exists: &Vec<bool>) -> (r: Option<String>)
    requires
        exists@.len() == args@.len(),
    ensures
        r is None <==> !(exists|i: int| opens(args.deep_view(), exists@, i)),
        r matches Some(p) ==> exists|i: int|
            opens(args.deep_view(), exists@, i) && p@ == args.deep_view()[i] && forall|j: int|
                1 <= j < i ==> !opens(args.deep_view(), exists@, j),
{
    let mut i: usize = 1;
    while i < args.len()
        invariant
            1 <= i,
            i <= args@.len() || args@.len() == 0,
            exists@.len() == args@.len(),
            forall|j: int| 1 <= j < i && j < args@.len() ==> !opens(args.deep_view(), exists@, j),
        decreases args@.len() - i,
    {
        let a = chars_of(args[i].as_str());
        assert(args.deep_view()[i as int] == args@[i as int]@);
        let dash = a.len() > 0 && a[0] == '-';
        proof {
            lemma_prefix_char(a@, '-');
        }
        if !dash && exists[i] {
            assert(opens(args.deep_view(), exists@, i as int));
            return Some(copy_string(&args[i]));
        }
        i = i + 1;
    }
    None
}

} // verus!
