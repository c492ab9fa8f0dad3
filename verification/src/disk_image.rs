//! The optical-disk-image engine's logic: which directory records are real
//! entries, how their paths are built while walking the image, and which
//! records a selective extraction visits.
use vstd::prelude::*;
use crate::text::ascii_lower;
use crate::models::{file_kind, kind_of_path, ArchiveEntry, EntryView};
use crate::paths::{is_dot, is_dotdot};
use crate::text::{chars_of, copy_string, is_whitespace, is_ws, string_of_range, trim_ws};

verus! {

broadcast use vstd::string::group_string_axioms;

/// NUL and U+0001, which ISO 9660 uses for the `.` and `..` records.
pub open spec fn is_record_marker(c: char) -> bool {
    c == '\0' || c == '\u{1}'
}

pub open spec fn trim_start_markers(s: Seq<char>) -> Seq<char>
    decreases s.len(),
{
    if s.len() > 0 && is_record_marker(s[0]) {
        trim_start_markers(s.drop_first())
    } else {
        s
    }
}

pub open spec fn trim_end_markers(s: Seq<char>) -> Seq<char>
    decreases s.len(),
{
    if s.len() > 0 && is_record_marker(s.last()) {
        trim_end_markers(s.drop_last())
    } else {
        s
    }
}

/// A record's name without marker characters at either end, then without
/// white space at either end.
pub open spec fn clean_record_name(raw: Seq<char>) -> Seq<char> {
    trim_ws(trim_end_markers(trim_start_markers(raw)))
}

/// A record that is not a real entry: its cleaned name is empty, `.` or `..`.
pub open spec fn is_special_record(raw: Seq<char>) -> bool {
    let t = clean_record_name(raw);
    t.len() == 0 || is_dot(t) || is_dotdot(t)
}

fn clean_bounds(v: &[char]) -> (r: (usize, usize))
    ensures
        r.0 <= r.1 <= v@.len(),
        v@.subrange(r.0 as int, r.1 as int) == clean_record_name(v@),
{
    let mut i: usize = 0;
    assert(v@.subrange(0, v@.len() as int) =~= v@);
    while i < v.len() && (v[i] == '\0' || v[i] == '\u{1}')
        invariant
            i <= v@.len(),
            trim_start_markers(v@) == trim_start_markers(v@.subrange(i as int, v@.len() as int)),
        decreases v@.len() - i,
    {
        assert(v@.subrange(i as int, v@.len() as int).drop_first() =~= v@.subrange(
            i + 1,
            v@.len() as int,
        ));
        i = i + 1;
    }
    let mut j: usize = v.len();
    while j > i && (v[j - 1] == '\0' || v[j - 1] == '\u{1}')
        invariant
            i <= j <= v@.len(),
            trim_end_markers(v@.subrange(i as int, v@.len() as int)) == trim_end_markers(
                v@.subrange(i as int, j as int),
            ),
        decreases j,
    {
        assert(v@.subrange(i as int, j as int).drop_last() =~= v@.subrange(i as int, j - 1));
        j = j - 1;
    }
    let ghost m = v@.subrange(i as int, j as int);
    let mut a = i;
    assert(m =~= v@.subrange(a as int, j as int));
    while a < j && is_whitespace(v[a])
        invariant
            i <= a <= j <= v@.len(),
            m == v@.subrange(i as int, j as int),
            crate::text::trim_start_ws(m) == crate::text::trim_start_ws(v@.subrange(a as int, j as int)),
        decreases j - a,
    {
        assert(v@.subrange(a as int, j as int).drop_first() =~= v@.subrange(a + 1, j as int));
        a = a + 1;
    }
    let mut b = j;
    while b > a && is_whitespace(v[b - 1])
        invariant
            a <= b <= j <= v@.len(),
            crate::text::trim_end_ws(v@.subrange(a as int, j as int)) == crate::text::trim_end_ws(
                v@.subrange(a as int, b as int),
            ),
        decreases b,
    {
        assert(v@.subrange(a as int, b as int).drop_last() =~= v@.subrange(a as int, b - 1));
        b = b - 1;
    }
    (a, b)
}

/// The record's name with markers and surrounding white space removed.
pub fn clean_entry_name(raw_name: &str) -> (r: String)
    ensures
        r@ == clean_record_name(raw_name@),
{
    let v = chars_of(raw_name);
    let (a, b) = clean_bounds(v.as_slice());
    string_of_range(v.as_slice(), a, b)
}

/// Whether a directory record is the `.` / `..` pseudo-entry (or has no
/// name) and must be skipped.
pub fn is_reserved_or_special_entry(raw_name: &str) -> (r: bool)
    ensures
        r == is_special_record(raw_name@),
{
    let v = chars_of(raw_name);
    let (a, b) = clean_bounds(v.as_slice());
    let ghost t = v@.subrange(a as int, b as int);
    if a == b {
        return true;
    }
    if b - a == 1 && v[a] == '.' {
        assert(t =~= seq!['.']);
        return true;
    }
    if b - a == 2 && v[a] == '.' && v[a + 1] == '.' {
        assert(t =~= seq!['.', '.']);
        return true;
    }
    assert(!is_dot(t)) by {
        if is_dot(t) {
            assert(t.len() == 1 && t[0] == seq!['.'][0]);
        }
    }
    assert(!is_dotdot(t)) by {
        if is_dotdot(t) {
            assert(t.len() == 2 && t[0] == seq!['.', '.'][0] && t[1] == seq!['.', '.'][1]);
        }
    }
    false
}

// ---------------------------------------------------------------------------
// Paths inside the image
// ---------------------------------------------------------------------------

/// The path of a record named `name` inside the folder at `prefix`.
pub open spec fn child_path_spec(prefix: Seq<char>, name: Seq<char>) -> Seq<char> {
    if prefix.len() == 0 {
        name
    } else {
        prefix + seq!['/'] + name
    }
}

pub fn child_path(prefix: &str, name: &str) -> (r: String)
    ensures
        r@ == child_path_spec(prefix@, name@),
{
    if prefix.is_empty() {
        String::from_str(name)
    } else {
        let mut r = String::from_str(prefix);
        r.append("/");
        r.append(name);
        proof {
            reveal_strlit("/");
        }
        assert(r@ =~= prefix@ + seq!['/'] + name@);
        r
    }
}

/// The listing entry for a record of the image: folders have size 0; the
/// stored size doubles as the compressed size.
pub open spec fn disk_entry_view(path: Seq<char>, name: Seq<char>, is_dir: bool, size: u64) -> EntryView {
    let s: u64 = if is_dir {
        0
    } else {
        size
    };
    EntryView {
        name: path,
        kind: if is_dir {
            "Folder"@
        } else {
            kind_of_path(name)
        },
        size: s,
        compressed_size: s,
        modified: None,
        is_dir,
    }
}

pub fn disk_entry(path: String, name: &str, is_dir: bool, size: u64) -> (e: ArchiveEntry)
    ensures
        e@ == disk_entry_view(path@, name@, is_dir, size),
{
    let s = if is_dir {
        0
    } else {
        size
    };
    let kind = if is_dir {
        String::from_str("Folder")
    } else {
        file_kind(name)
    };
    ArchiveEntry { name: path, kind, size: s, compressed_size: s, modified: None, is_dir }
}

/// One step of listing an image: what the walk does with a directory
/// record found in the folder at `prefix`. Special records are skipped;
/// otherwise the record is listed under its path (built from its cleaned
/// name for ISO 9660, from its name as stored for UDF), and a folder is
/// walked into under that path.
pub open spec fn visit_spec(
    prefix: Seq<char>,
    raw_name: Seq<char>,
    is_dir: bool,
    size: u64,
    clean_names: bool,
) -> Option<(EntryView, Option<Seq<char>>)> {
    if is_special_record(raw_name) {
        None
    } else {
        let name = if clean_names {
            clean_record_name(raw_name)
        } else {
            raw_name
        };
        let path = child_path_spec(prefix, name);
        Some(
            (
                disk_entry_view(path, name, is_dir, size),
                if is_dir {
                    Some(path)
                } else {
                    None
                },
            ),
        )
    }
}

/// The listing entry for a record and, for a folder, the prefix to walk it
/// under; nothing for a special record.
pub fn visit_disk_record(prefix: &str, raw_name: &str, is_dir: bool, size: u64, clean_names: bool) -> (r: Option<
    (ArchiveEntry, Option<String>),
>)
    ensures
        match visit_spec(prefix@, raw_name@, is_dir, size, clean_names) {
            None => r is None,
            Some((e, d)) => r matches Some((entry, descend)) && entry@ == e && match descend {
                Some(p) => d == Some(p@),
                None => d is None,
            },
        },
{
    if is_reserved_or_special_entry(raw_name) {
        return None;
    }
    let name = if clean_names {
        clean_entry_name(raw_name)
    } else {
        String::from_str(raw_name)
    };
    let path = child_path(prefix, name.as_str());
    let descend = if is_dir {
        Some(copy_string(&path))
    } else {
        None
    };
    Some((disk_entry(path, name.as_str(), is_dir, size), descend))
}

// ---------------------------------------------------------------------------
// Selective extraction
// ---------------------------------------------------------------------------

/// What a selective extraction does with a record.
#[derive(Clone, Copy, Debug, PartialEq, Eq, Structural)]
pub enum SelectiveStep {
    /// The record is the target or lies beneath it: extract it.
    Extract,
    /// The record is a folder on the way to the target: walk into it.
    Descend,
    /// Neither.
    Skip,
}

pub open spec fn lower_ascii(s: Seq<char>) -> Seq<char> {
    s.map_values(|c: char| ascii_lower(c))
}

/// `str::eq_ignore_ascii_case`.
pub open spec fn eq_ignore_case(a: Seq<char>, b: Seq<char>) -> bool {
    lower_ascii(a) == lower_ascii(b)
}

/// The step for the record at `path` when extracting `target`, comparing
/// paths without regard to ASCII letter case.
pub open spec fn selective_step_spec(path: Seq<char>, target: Seq<char>, is_dir: bool) -> SelectiveStep {
    if eq_ignore_case(path, target) || crate::text::has_prefix(
        lower_ascii(path),
        lower_ascii(target).push('/'),
    ) {
        SelectiveStep::Extract
    } else if is_dir && crate::text::has_prefix(lower_ascii(target), lower_ascii(path).push('/')) {
        SelectiveStep::Descend
    } else {
        SelectiveStep::Skip
    }
}

fn lower_chars(v: &[char]) -> (r: Vec<char>)
    ensures
        r@ == lower_ascii(v@),
{
    let mut r: Vec<char> = Vec::new();
    let mut i: usize = 0;
    while i < v.len()
        invariant
            i <= v@.len(),
            r@ == lower_ascii(v@.take(i as int)),
        decreases v@.len() - i,
    {
        let c = v[i];
        let l = if 'A' <= c && c <= 'Z' {
            ((c as u8) + 32) as char
        } else {
            c
        };
        r.push(l);
        assert(lower_ascii(v@.take(i + 1)) =~= lower_ascii(v@.take(i as int)).push(ascii_lower(c)));
        i = i + 1;
    }
    assert(v@.take(v@.len() as int) =~= v@);
    r
}

/// Decides what a selective extraction does with the record at `path`.
pub fn selective_step(path: &str, target: &str, is_dir: bool) -> (r: SelectiveStep)
    ensures
        r == selective_step_spec(path@, target@, is_dir),
{
    let p = chars_of(path);
    let t = chars_of(target);
    let mut lp = lower_chars(p.as_slice());
    let mut lt = lower_chars(t.as_slice());
    if crate::text::chars_eq(lp.as_slice(), lt.as_slice()) {
        return SelectiveStep::Extract;
    }
    lt.push('/');
    if crate::text::starts_with(lp.as_slice(), lt.as_slice()) {
        return SelectiveStep::Extract;
    }
    lt.pop();
    assert(lt@ =~= lower_ascii(t@));
    lp.push('/');
    if is_dir && crate::text::starts_with(lt.as_slice(), lp.as_slice()) {
        return SelectiveStep::Descend;
    }
    SelectiveStep::Skip
}

/// A selective extraction always extracts its own target.
pub proof fn lemma_target_selected(target: Seq<char>, is_dir: bool)
    ensures
        selective_step_spec(target, target, is_dir) == SelectiveStep::Extract,
{
}

} // verus!
