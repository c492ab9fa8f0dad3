//! Selecting archive entries for drag-and-drop and single-entry viewing:
//! which entries belong to a selection, and which extracted items are handed
//! to the desktop.
use vstd::prelude::*;
use crate::errors::{error_of, is_error, ArchiveError, ErrorKind};
use crate::text::{ascii_lower, 
    chars_eq, chars_of, copy_string, has_prefix, has_suffix, replace_char, replace_chars,
    split_char, starts_with, string_of, string_of_range, trim_char, trim_matches_char,
    str_eq,
};

verus! {

broadcast use vstd::string::group_string_axioms;

/// An entry path with `\` turned into `/` and leading and trailing `/` removed.
pub open spec fn normalize(p: Seq<char>) -> Seq<char> {
    trim_char(replace_char(p, '\\', '/'), '/')
}

/// Entry `e` is the requested path `p` or lies beneath it.
pub open spec fn matches_one(e: Seq<char>, p: Seq<char>) -> bool {
    normalize(e) == normalize(p) || has_prefix(normalize(e), normalize(p).push('/'))
}

/// Entry `e` is one of the requested paths or lies beneath one of them.
pub open spec fn entry_matches_spec(e: Seq<char>, requested: Seq<Seq<char>>) -> bool {
    exists|i: int| 0 <= i < requested.len() && #[trigger] matches_one(e, requested[i])
}

/// The normalized form of an entry path.
pub fn normalize_path(path: &str) -> (r: String)
    ensures
        r@ == normalize(path@),
{
    let v = chars_of(path);
    let replaced = replace_chars(v.as_slice(), '\\', '/');
    let trimmed = trim_matches_char(replaced.as_slice(), '/');
    string_of(trimmed.as_slice())
}

fn matches_one_exec(e: &[char], p: &str) -> (r: bool)
    ensures
        r == (e@ == normalize(p@) || has_prefix(e@, normalize(p@).push('/'))),
{
    let np = normalize_path(p);
    let mut pv = chars_of(np.as_str());
    if chars_eq(e, pv.as_slice()) {
        return true;
    }
    pv.push('/');
    starts_with(e, pv.as_slice())
}

/// Whether an entry of the archive belongs to the selection: it is one of the
/// requested paths or lies beneath one of them (a requested folder brings
/// its whole subtree).
pub fn entry_matches(entry_name: &str, requested: &Vec<String>) -> (r: bool)
    ensures
        r == entry_matches_spec(entry_name@, requested.deep_view()),
{
    let ne = normalize_path(entry_name);
    let ev = chars_of(ne.as_str());
    let ghost rv = requested.deep_view();
    let mut i: usize = 0;
    while i < requested.len()
        invariant
            i <= requested@.len(),
            rv == requested.deep_view(),
            ev@ == normalize(entry_name@),
            forall|k: int| 0 <= k < i ==> !#[trigger] matches_one(entry_name@, rv[k]),
        decreases requested@.len() - i,
    {
        assert(rv[i as int] == requested[i as int]@);
        if matches_one_exec(ev.as_slice(), requested[i].as_str()) {
            assert(matches_one(entry_name@, rv[i as int]));
            return true;
        }
        i = i + 1;
    }
    false
}

/// A normalized path: no `\`, and no `/` at either end.
pub open spec fn is_normal_path(p: Seq<char>) -> bool {
    &&& p.len() > 0
    &&& forall|i: int| 0 <= i < p.len() ==> p[i] != '\\'
    &&& p[0] != '/'
    &&& p.last() != '/'
}

proof fn lemma_normal_path_fixed(p: Seq<char>)
    requires
        is_normal_path(p),
    ensures
        normalize(p) == p,
{
    assert(replace_char(p, '\\', '/') =~= p);
    assert(crate::text::trim_start_char(p, '/') == p);
    assert(crate::text::trim_end_char(p, '/') == p);
}

/// Selecting a folder selects everything beneath it: for normalized paths
/// `p` and `rest`, the entry `p/rest` belongs to the selection `[p]`, and so
/// does `p` itself.
pub proof fn lemma_subtree_selected(p: Seq<char>, rest: Seq<char>)
    requires
        is_normal_path(p),
        is_normal_path(rest),
    ensures
        entry_matches_spec(p + seq!['/'] + rest, seq![p]),
        entry_matches_spec(p, seq![p]),
{
    let child = p + seq!['/'] + rest;
    lemma_normal_path_fixed(p);
    assert(is_normal_path(child)) by {
        assert forall|i: int| 0 <= i < child.len() implies child[i] != '\\' by {
            if i < p.len() {
                assert(child[i] == p[i]);
            } else if i > p.len() {
                assert(child[i] == rest[i - p.len() - 1]);
            }
        }
        assert(child[0] == p[0]);
        assert(child.last() == rest.last());
    }
    lemma_normal_path_fixed(child);
    assert(child.subrange(0, p.len() as int + 1) =~= p.push('/'));
    assert(matches_one(child, seq![p][0]));
    assert(matches_one(p, seq![p][0]));
}

// ---------------------------------------------------------------------------
// What is handed to the desktop
// ---------------------------------------------------------------------------

/// The first component of a normalized entry path (`str::split('/')`'s first piece).
pub open spec fn first_component(p: Seq<char>) -> Seq<char> {
    split_char(p, '/')[0]
}

/// The first component of a requested path: what is handed over when the
/// requested path itself was not extracted but its top-level folder was.
pub fn first_component_of(target: &str) -> (r: String)
    ensures
        r@ == first_component(target@),
{
    let v = chars_of(target);
    let parts = crate::text::split_on(v.as_slice(), '/');
    proof {
        crate::text::lemma_split_char_nonempty(v@, '/');
    }
    assert(parts.deep_view()[0] == parts[0]@);
    string_of(parts[0].as_slice())
}

/// The found paths in order, each kept once (at its first occurrence).
pub open spec fn distinct_found(found: Seq<Option<Seq<char>>>) -> Seq<Seq<char>>
    decreases found.len(),
{
    if found.len() == 0 {
        seq![]
    } else {
        let before = distinct_found(found.drop_last());
        match found.last() {
            Some(p) => if before.contains(p) {
                before
            } else {
                before.push(p)
            },
            None => before,
        }
    }
}

proof fn lemma_distinct_found_no_duplicates(found: Seq<Option<Seq<char>>>)
    ensures
        distinct_found(found).no_duplicates(),
    decreases found.len(),
{
    if found.len() > 0 {
        lemma_distinct_found_no_duplicates(found.drop_last());
    }
}

fn contains_path(v: &Vec<String>, p: &String) -> (r: bool)
    ensures
        r == v.deep_view().contains(p@),
{
    let mut i: usize = 0;
    while i < v.len()
        invariant
            i <= v@.len(),
            forall|k: int| 0 <= k < i ==> v.deep_view()[k] != p@,
        decreases v@.len() - i,
    {
        if str_eq(v[i].as_str(), p.as_str()) {
            assert(v.deep_view()[i as int] == p@);
            return true;
        }
        i = i + 1;
    }
    false
}

/// The items to hand over, from what was found for each requested path (in
/// request order): every found path once, at its first occurrence.
pub fn exposed_paths(found: &Vec<Option<String>>) -> (r: Vec<String>)
    ensures
        r.deep_view() == distinct_found(found.deep_view()),
        r.deep_view().no_duplicates(),
{
    let ghost fv = found.deep_view();
    let mut out: Vec<String> = Vec::new();
    let mut i: usize = 0;
    while i < found.len()
        invariant
            i <= found@.len(),
            fv == found.deep_view(),
            out.deep_view() == distinct_found(fv.take(i as int)),
        decreases found@.len() - i,
    {
        assert(fv.take(i + 1).drop_last() =~= fv.take(i as int));
        assert(fv.take(i + 1).last() == fv[i as int]);
        match &found[i] {
            Some(p) => {
                assert(fv[i as int] == Some(p@));
                if !contains_path(&out, p) {
                    let ghost before = out.deep_view();
                    out.push(copy_string(p));
                    assert(out.deep_view() =~= before.push(p@));
                }
            },
            None => {
                assert(fv[i as int] is None);
            },
        }
        i = i + 1;
    }
    assert(fv.take(found@.len() as int) =~= fv);
    proof {
        lemma_distinct_found_no_duplicates(fv);
    }
    out
}

/// The final hand-over: the exposed paths; when none was found, whatever the
/// staging folder holds; when that is empty too, an error.
pub fn drag_outcome(exposed: Vec<String>, staged: Vec<String>) -> (r: Result<Vec<String>, ArchiveError>)
    ensures
        exposed@.len() > 0 ==> (r matches Ok(v) && v@ == exposed@),
        exposed@.len() == 0 && staged@.len() > 0 ==> (r matches Ok(v) && v@ == staged@),
        exposed@.len() == 0 && staged@.len() == 0 ==> (r matches Err(e) && is_error(
            e,
            ErrorKind::NotFound,
            "No files were extracted from the archive"@,
        )),
{
    if exposed.len() > 0 {
        Ok(exposed)
    } else if staged.len() > 0 {
        Ok(staged)
    } else {
        Err(error_of(ErrorKind::NotFound, "No files were extracted from the archive"))
    }
}

/// The hand-over of a drag extraction, from what was found for each requested
/// path and what the staging folder holds: the found paths, each once, when
/// any was found; otherwise what was staged; an error when both are empty. A
/// successful hand-over is never empty, and holds no path twice as long as
/// the staging folder lists none twice.
pub fn hand_over(found: &Vec<Option<String>>, staged: Vec<String>) -> (r: Result<Vec<String>, ArchiveError>)
    ensures
        distinct_found(found.deep_view()).len() > 0 ==> (r matches Ok(v) && v.deep_view()
            == distinct_found(found.deep_view())),
        distinct_found(found.deep_view()).len() == 0 && staged@.len() > 0 ==> (r matches Ok(v)
            && v@ == staged@),
        distinct_found(found.deep_view()).len() == 0 && staged@.len() == 0 ==> (r matches Err(e)
            && is_error(e, ErrorKind::NotFound, "No files were extracted from the archive"@)),
        r matches Ok(v) ==> v@.len() > 0,
        staged.deep_view().no_duplicates() ==> (r matches Ok(v) ==> v.deep_view().no_duplicates()),
{
    let exposed = exposed_paths(found);
    let ghost staged_view = staged.deep_view();
    let r = drag_outcome(exposed, staged);
    proof {
        if r is Ok && distinct_found(found.deep_view()).len() == 0 {
            let v = r->Ok_0;
            assert(v.deep_view() =~= staged_view);
        }
    }
    r
}

// ---------------------------------------------------------------------------
// Single-file streams
// ---------------------------------------------------------------------------

/// `n` ends with `suffix` (given in lowercase) up to ASCII case.
pub open spec fn ends_with_ignore_case(n: Seq<char>, suffix: Seq<char>) -> bool {
    suffix.len() <= n.len() && forall|k: int|
        0 <= k < suffix.len() ==> ascii_lower(#[trigger] n[n.len() - suffix.len() + k]) == suffix[k]
}

/// The name of the file a `gz` / `bz2` stream decompresses to: its file name
/// without a `.gz` or `.bz2` suffix (in any letter case), or `extracted_file`
/// when the path has no file name.
pub open spec fn raw_stream_name_spec(name: Option<Seq<char>>) -> Seq<char> {
    match name {
        None => "extracted_file"@,
        Some(n) => if ends_with_ignore_case(n, seq!['.', 'g', 'z']) {
            n.subrange(0, n.len() - 3)
        } else if ends_with_ignore_case(n, seq!['.', 'b', 'z', '2']) {
            n.subrange(0, n.len() - 4)
        } else {
            n
        },
    }
}

fn ascii_lower_exec(c: char) -> (r: char)
    ensures
        r == ascii_lower(c),
{
    if 'A' <= c && c <= 'Z' {
        ((c as u8) + 32) as char
    } else {
        c
    }
}

fn ends_with_ignore_case_exec(n: &[char], suffix: &[char]) -> (r: bool)
    ensures
        r == ends_with_ignore_case(n@, suffix@),
{
    if suffix.len() > n.len() {
        return false;
    }
    let off = n.len() - suffix.len();
    let mut k: usize = 0;
    while k < suffix.len()
        invariant
            off + suffix@.len() == n@.len(),
            k <= suffix@.len(),
            forall|j: int| 0 <= j < k ==> ascii_lower(#[trigger] n@[n@.len() - suffix@.len() + j]) == suffix@[j],
        decreases suffix@.len() - k,
    {
        let nl = n.len();
        assert(off + k < nl);
        let c = ascii_lower_exec(n[off + k]);
        if c != suffix[k] {
            assert(ascii_lower(n@[n@.len() - suffix@.len() + k]) != suffix@[k as int]);
            return false;
        }
        k = k + 1;
    }
    true
}

/// The output name of a single-file stream extracted for drag and drop.
pub fn raw_stream_name(file_name: Option<&str>) -> (r: String)
    ensures
        r@ == raw_stream_name_spec(match file_name {
            Some(n) => Some(n@),
            None => None,
        }),
{
    match file_name {
        None => String::from_str("extracted_file"),
        Some(n) => {
            let v = chars_of(n);
            let gz = vec!['.', 'g', 'z'];
            let bz2 = vec!['.', 'b', 'z', '2'];
            assert(gz@ =~= seq!['.', 'g', 'z']);
            assert(bz2@ =~= seq!['.', 'b', 'z', '2']);
            if ends_with_ignore_case_exec(v.as_slice(), gz.as_slice()) {
                string_of_range(v.as_slice(), 0, v.len() - 3)
            } else if ends_with_ignore_case_exec(v.as_slice(), bz2.as_slice()) {
                string_of_range(v.as_slice(), 0, v.len() - 4)
            } else {
                String::from_str(n)
            }
        },
    }
}

} // verus!
