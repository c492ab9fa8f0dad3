//! Path strings: the parts of a path the archive logic reads (final file
//! name, extension, stem), and the check that turns an entry name into a safe
//! relative path. Paths use `/` as the separator.
use vstd::prelude::*;
use crate::errors::{error_with, is_error, ArchiveError, ErrorKind};
use crate::text::{
    chars_of, copy_chars, find_last_in, join_with, join_words_from, last_index_of,
    lemma_last_index_of, lemma_split_char_nonempty, replace_char, replace_chars, split_char, split_on, string_of, string_of_range, trim_char,
    trim_matches_char,
};

verus! {

broadcast use vstd::string::group_string_axioms;

pub open spec fn is_dot(s: Seq<char>) -> bool {
    s == seq!['.']
}

pub open spec fn is_dotdot(s: Seq<char>) -> bool {
    s == seq!['.', '.']
}

/// The last component of a `/`-separated path when it is an ordinary name.
/// Empty and `.` segments are skipped; a final `..`, a root, or an empty
/// path has no file name.
pub open spec fn slash_file_name_of(p: Seq<char>) -> Option<Seq<char>>
    decreases p.len(),
{
    let k = last_index_of(p, '/');
    let seg = p.subrange(k + 1, p.len() as int);
    if is_dotdot(seg) {
        None
    } else if seg.len() > 0 && !is_dot(seg) {
        Some(seg)
    } else if k < 0 {
        None
    } else {
        proof {
            lemma_last_index_of(p, '/');
        }
        slash_file_name_of(p.subrange(0, k))
    }
}

/// `Path::file_name` as on Windows, the application's main platform: `\`
/// and `/` both separate components.
pub open spec fn file_name_of(p: Seq<char>) -> Option<Seq<char>> {
    slash_file_name_of(replace_char(p, '\\', '/'))
}

/// The extension of a file name: the text after its last `.`, unless the
/// only `.` starts the name.
pub open spec fn extension_of(name: Seq<char>) -> Option<Seq<char>> {
    let k = last_index_of(name, '.');
    if k <= 0 {
        None
    } else {
        Some(name.subrange(k + 1, name.len() as int))
    }
}

/// The stem of a file name: the text before its last `.`, or the whole name
/// when it has no extension.
pub open spec fn stem_of(name: Seq<char>) -> Seq<char> {
    let k = last_index_of(name, '.');
    if k <= 0 {
        name
    } else {
        name.subrange(0, k)
    }
}

/// `Path::extension`.
pub open spec fn path_extension(p: Seq<char>) -> Option<Seq<char>> {
    match file_name_of(p) {
        Some(n) => extension_of(n),
        None => None,
    }
}

/// `Path::file_stem`.
pub open spec fn path_stem(p: Seq<char>) -> Option<Seq<char>> {
    match file_name_of(p) {
        Some(n) => Some(stem_of(n)),
        None => None,
    }
}

/// Whether `p[a..b]` is `.`.
fn range_is_dot(p: &[char], a: usize, b: usize) -> (r: bool)
    requires
        a <= b <= p@.len(),
    ensures
        r == is_dot(p@.subrange(a as int, b as int)),
{
    let ghost sub = p@.subrange(a as int, b as int);
    if b - a == 1 && p[a] == '.' {
        assert(sub =~= seq!['.']);
        true
    } else {
        assert(!is_dot(sub)) by {
            if is_dot(sub) {
                assert(sub.len() == seq!['.'].len());
                assert(sub[0] == seq!['.'][0]);
            }
        }
        false
    }
}

/// Whether `p[a..b]` is `..`.
pub(crate) fn range_is_dotdot(p: &[char], a: usize, b: usize) -> (r: bool)
    requires
        a <= b <= p@.len(),
    ensures
        r == is_dotdot(p@.subrange(a as int, b as int)),
{
    let ghost sub = p@.subrange(a as int, b as int);
    if b - a == 2 && p[a] == '.' && p[a + 1] == '.' {
        assert(sub =~= seq!['.', '.']);
        true
    } else {
        assert(!is_dotdot(sub)) by {
            if is_dotdot(sub) {
                assert(sub.len() == seq!['.', '.'].len());
                assert(sub[0] == seq!['.', '.'][0]);
                assert(sub[1] == seq!['.', '.'][1]);
            }
        }
        false
    }
}

/// The position of the file name in the `/`-separated path `p`, if it has
/// one.
pub fn file_name_bounds(p: &[char]) -> (r: Option<(usize, usize)>)
    ensures
        match r {
            Some((a, b)) => a <= b <= p@.len() && slash_file_name_of(p@) == Some(p@.subrange(a as int, b as int)),
            None => slash_file_name_of(p@) is None,
        },
{
    let mut j: usize = p.len();
    assert(p@.subrange(0, p@.len() as int) =~= p@);
    loop
        invariant
            j <= p@.len(),
            slash_file_name_of(p@) == slash_file_name_of(p@.subrange(0, j as int)),
        decreases j,
    {
        let k = find_last_in(p, 0, j, '/');
        let ghost q = p@.subrange(0, j as int);
        let start = match k {
            Some(k) => k + 1,
            None => 0,
        };
        assert(q.subrange(last_index_of(q, '/') + 1, q.len() as int) =~= p@.subrange(start as int, j as int));
        if range_is_dotdot(p, start, j) {
            return None;
        }
        if start < j && !range_is_dot(p, start, j) {
            return Some((start, j));
        }
        match k {
            None => {
                return None;
            },
            Some(k) => {
                assert(q.subrange(0, k as int) =~= p@.subrange(0, k as int));
                j = k;
            },
        }
    }
}

/// The position of the extension inside the file name `p[a..b]`.
pub fn extension_bounds(p: &[char], a: usize, b: usize) -> (r: Option<(usize, usize)>)
    requires
        a <= b <= p@.len(),
    ensures
        match r {
            Some((x, y)) => a <= x <= y <= b && extension_of(p@.subrange(a as int, b as int))
                == Some(p@.subrange(x as int, y as int)),
            None => extension_of(p@.subrange(a as int, b as int)) is None,
        },
{
    match find_last_in(p, a, b, '.') {
        Some(k) => {
            if k == a {
                None
            } else {
                assert(p@.subrange(a as int, b as int).subrange(k - a + 1, b - a) =~= p@.subrange(
                    k + 1,
                    b as int,
                ));
                Some((k + 1, b))
            }
        },
        None => None,
    }
}

/// The end of the stem inside the file name `p[a..b]`.
pub fn stem_end(p: &[char], a: usize, b: usize) -> (r: usize)
    requires
        a <= b <= p@.len(),
    ensures
        a <= r <= b,
        stem_of(p@.subrange(a as int, b as int)) == p@.subrange(a as int, r as int),
{
    match find_last_in(p, a, b, '.') {
        Some(k) => {
            if k == a {
                b
            } else {
                assert(p@.subrange(a as int, b as int).subrange(0, k - a) =~= p@.subrange(
                    a as int,
                    k as int,
                ));
                k
            }
        },
        None => b,
    }
}

/// `Path::extension` of a path, as a string (`None` when it has none).
pub fn extension(p: &[char]) -> (r: Option<String>)
    ensures
        match r {
            Some(e) => path_extension(p@) == Some(e@),
            None => path_extension(p@) is None,
        },
{
    let q = replace_chars(p, '\\', '/');
    let p = q.as_slice();
    match file_name_bounds(p) {
        Some((a, b)) => match extension_bounds(p, a, b) {
            Some((x, y)) => Some(string_of_range(p, x, y)),
            None => None,
        },
        None => None,
    }
}

/// `Path::file_stem` of a path, as a string (`None` when it has no file name).
pub fn file_stem(p: &[char]) -> (r: Option<String>)
    ensures
        match r {
            Some(e) => path_stem(p@) == Some(e@),
            None => path_stem(p@) is None,
        },
{
    let q = replace_chars(p, '\\', '/');
    let p = q.as_slice();
    match file_name_bounds(p) {
        Some((a, b)) => {
            let e = stem_end(p, a, b);
            Some(string_of_range(p, a, e))
        },
        None => None,
    }
}

/// `Path::file_name` of a path, as a string.
pub fn file_name(p: &[char]) -> (r: Option<String>)
    ensures
        match r {
            Some(e) => file_name_of(p@) == Some(e@),
            None => file_name_of(p@) is None,
        },
{
    let q = replace_chars(p, '\\', '/');
    let p = q.as_slice();
    match file_name_bounds(p) {
        Some((a, b)) => Some(string_of_range(p, a, b)),
        None => None,
    }
}

// ---------------------------------------------------------------------------
// Names for `Path::parent` and `Path::join`
// ---------------------------------------------------------------------------

/// What `Path::parent` returns for a path.
pub uninterp spec fn path_parent_of(p: Seq<char>) -> Option<Seq<char>>;

/// What `Path::join` returns for a base path and a second path.
pub uninterp spec fn path_join_of(base: Seq<char>, rest: Seq<char>) -> Seq<char>;

/// Calls std `Path::parent` on a UTF-8 path. Claimed: the result is a
/// function of the path alone, named `path_parent_of`.
#[verifier::external_body]
pub(crate) fn parent_path(p: &str) -> (r: Option<String>)
    ensures
        match r {
            Some(x) => path_parent_of(p@) == Some(x@),
            None => path_parent_of(p@) is None,
        },
{
    std::path::Path::new(p).parent().map(|q| q.to_string_lossy().into_owned())
}

/// What `Path::strip_prefix` returns for a path and a base: the rest of the
/// path below the base, or none when the base is not a prefix of it.
pub uninterp spec fn path_strip_prefix_of(path: Seq<char>, base: Seq<char>) -> Option<Seq<char>>;

/// Calls std `Path::strip_prefix` on UTF-8 paths. Claimed: the result is a
/// function of the two paths alone, named `path_strip_prefix_of`.
#[verifier::external_body]
pub(crate) fn strip_path_prefix(path: &str, base: &str) -> (r: Option<String>)
    ensures
        match r {
            Some(x) => path_strip_prefix_of(path@, base@) == Some(x@),
            None => path_strip_prefix_of(path@, base@) is None,
        },
{
    std::path::Path::new(path).strip_prefix(base).ok().map(|q| q.to_string_lossy().into_owned())
}

/// Calls std `Path::join` on UTF-8 paths. Claimed: the result is a function
/// of the two paths alone, named `path_join_of`.
#[verifier::external_body]
pub(crate) fn join_path(base: &str, rest: &str) -> (r: String)
    ensures
        r@ == path_join_of(base@, rest@),
{
    std::path::Path::new(base).join(rest).to_string_lossy().into_owned()
}

// ---------------------------------------------------------------------------
// Safe relative paths
// ---------------------------------------------------------------------------

/// The segments that name something: not empty and not `.`.
pub open spec fn normal_segments(segs: Seq<Seq<char>>) -> Seq<Seq<char>>
    decreases segs.len(),
{
    if segs.len() == 0 {
        seq![]
    } else {
        let rest = normal_segments(segs.drop_last());
        if segs.last().len() > 0 && !is_dot(segs.last()) {
            rest.push(segs.last())
        } else {
            rest
        }
    }
}

pub open spec fn has_dotdot(segs: Seq<Seq<char>>) -> bool {
    exists|i: int| 0 <= i < segs.len() && is_dotdot(#[trigger] segs[i])
}

pub open spec fn is_absolute(p: Seq<char>) -> bool {
    p.len() > 0 && p[0] == '/'
}

/// What the safe-path check answers for an entry name, `component` being
/// the start of the message for a `..` component.
pub open spec fn safe_relative_with(
    name: Seq<char>,
    r: Result<String, ArchiveError>,
    component: Seq<char>,
) -> bool {
    let n = replace_char(name, '\\', '/');
    let segs = split_char(n, '/');
    let words = normal_segments(segs);
    if is_absolute(n) {
        r matches Err(e) && is_error(e, ErrorKind::InvalidInput, "Absolute path not allowed: "@ + name)
    } else if has_dotdot(segs) || (words.len() > 0 && is_drive_like(words[0])) {
        r matches Err(e) && is_error(e, ErrorKind::InvalidInput, component + name)
    } else if words.len() == 0 {
        r matches Err(e) && is_error(e, ErrorKind::InvalidInput, "Empty relative path: "@ + name)
    } else {
        r matches Ok(p) && p@ == join_with(words, '/')
    }
}

/// A component that starts with a Windows drive prefix (`C:`).
pub open spec fn is_drive_like(w: Seq<char>) -> bool {
    w.len() >= 2 && w[1] == ':' && (('a' <= w[0] && w[0] <= 'z') || ('A' <= w[0] && w[0] <= 'Z'))
}

/// What `safe_relative` answers for an entry name.
pub open spec fn safe_relative_spec(name: Seq<char>, r: Result<String, ArchiveError>) -> bool {
    safe_relative_with(name, r, "Invalid path component: "@)
}

/// Turns an archive entry name into a relative path that stays inside the
/// destination. `\` and `/` both separate components (as on Windows);
/// absolute names, names with a `..` component and names starting with a
/// drive prefix are refused, empty and `.` components are dropped, and a name
/// with no component left is refused.
pub fn safe_relative(name: &str) -> (r: Result<String, ArchiveError>)
    ensures
        safe_relative_spec(name@, r),
{
    safe_relative_checked(name, "Invalid path component: ")
}

/// The same check as `safe_relative`, with the wording of the 7Z engine for
/// a `..` component.
pub fn sevenz_safe_relative(name: &str) -> (r: Result<String, ArchiveError>)
    ensures
        safe_relative_with(name@, r, "Invalid path component in: "@),
{
    safe_relative_checked(name, "Invalid path component in: ")
}

fn safe_relative_checked(name: &str, component: &str) -> (r: Result<String, ArchiveError>)
    ensures
        safe_relative_with(name@, r, component@),
{
    let raw = chars_of(name);
    let v = replace_chars(raw.as_slice(), '\\', '/');
    if v.len() > 0 && v[0] == '/' {
        return Err(error_with(ErrorKind::InvalidInput, "Absolute path not allowed: ", name));
    }
    let segs = split_on(v.as_slice(), '/');
    let mut kept: Vec<Vec<char>> = Vec::new();
    let mut i: usize = 0;
    while i < segs.len()
        invariant
            i <= segs@.len(),
            v@ == replace_char(name@, '\\', '/'),
            segs.deep_view() == split_char(v@, '/'),
            !is_absolute(v@),
            kept.deep_view() == normal_segments(segs.deep_view().take(i as int)),
            forall|k: int| 0 <= k < i ==> !is_dotdot(#[trigger] segs.deep_view()[k]),
        decreases segs@.len() - i,
    {
        let seg = &segs[i];
        assert(segs.deep_view()[i as int] == seg@);
        assert(segs.deep_view().take(i + 1).drop_last() =~= segs.deep_view().take(i as int));
        let n = seg.len();
        assert(seg@.subrange(0, n as int) =~= seg@);
        if range_is_dotdot(seg.as_slice(), 0, n) {
            assert(is_dotdot(segs.deep_view()[i as int]));
            assert(has_dotdot(split_char(v@, '/')));
            return Err(error_with(ErrorKind::InvalidInput, component, name));
        }
        if n > 0 && !range_is_dot(seg.as_slice(), 0, n) {
            let ghost before = kept.deep_view();
            let c = copy_chars(seg.as_slice());
            assert(c.deep_view() =~= c@);
            kept.push(c);
            assert(kept.deep_view() =~= before.push(seg@));
        }
        i = i + 1;
    }
    assert(segs.deep_view().take(segs@.len() as int) =~= segs.deep_view());
    if kept.len() == 0 {
        return Err(error_with(ErrorKind::InvalidInput, "Empty relative path: ", name));
    }
    let first = &kept[0];
    assert(kept.deep_view()[0] == first@);
    if first.len() >= 2 && first[1] == ':' && (('a' <= first[0] && first[0] <= 'z') || ('A' <= first[0]
        && first[0] <= 'Z')) {
        return Err(error_with(ErrorKind::InvalidInput, component, name));
    }
    let joined = join_words_from(&kept, 0, '/');
    assert(kept.deep_view().subrange(0, kept@.len() as int) =~= kept.deep_view());
    Ok(string_of(joined.as_slice()))
}

/// The folder inside a TAR or 7Z archive that added files go into: none
/// when the target, without leading and trailing `/`, is empty; otherwise
/// that folder through the safe-path check (`component` is the wording for
/// a `..` component).
pub open spec fn add_target_spec(
    target: Option<Seq<char>>,
    r: Result<Option<String>, ArchiveError>,
    component: Seq<char>,
) -> bool {
    match target {
        Some(d) if trim_char(d, '/').len() > 0 => {
            let t = trim_char(d, '/');
            match r {
                Ok(Some(p)) => safe_relative_with(t, Ok(p), component),
                Ok(None) => false,
                Err(e) => safe_relative_with(t, Err(e), component),
            }
        },
        _ => r matches Ok(None),
    }
}

/// The folder that files added to a TAR archive go into.
pub fn tar_target_dir(target: Option<&str>) -> (r: Result<Option<String>, ArchiveError>)
    ensures
        add_target_spec(opt_str(target), r, "Invalid path component: "@),
{
    add_target_dir(target, "Invalid path component: ")
}

/// The folder that files added to a 7Z archive go into.
pub fn sevenz_target_dir(target: Option<&str>) -> (r: Result<Option<String>, ArchiveError>)
    ensures
        add_target_spec(opt_str(target), r, "Invalid path component in: "@),
{
    add_target_dir(target, "Invalid path component in: ")
}

/// The characters of an optional string slice.
pub open spec fn opt_str(o: Option<&str>) -> Option<Seq<char>> {
    match o {
        Some(s) => Some(s@),
        None => None,
    }
}

fn add_target_dir(target: Option<&str>, component: &str) -> (r: Result<Option<String>, ArchiveError>)
    ensures
        add_target_spec(opt_str(target), r, component@),
{
    match target {
        None => Ok(None),
        Some(d) => {
            let v = chars_of(d);
            let t = trim_matches_char(v.as_slice(), '/');
            if t.len() == 0 {
                return Ok(None);
            }
            let ts = string_of(t.as_slice());
            match safe_relative_checked(ts.as_str(), component) {
                Ok(p) => Ok(Some(p)),
                Err(e) => Err(e),
            }
        },
    }
}

// ---------------------------------------------------------------------------
// Safe paths stay inside the destination
// ---------------------------------------------------------------------------

proof fn lemma_split_after_sep(s: Seq<char>, w: Seq<char>, c: char)
    requires
        !w.contains(c),
    ensures
        split_char(s + seq![c] + w, c) == split_char(s, c).push(w),
    decreases w.len(),
{
    let x = s + seq![c] + w;
    if w.len() == 0 {
        assert(x.drop_last() =~= s);
        assert(x.last() == c);
        assert(w =~= Seq::<char>::empty());
        assert(split_char(x, c) == split_char(x.drop_last(), c).push(seq![]));
    } else {
        let w0 = w.drop_last();
        assert(!w0.contains(c)) by {
            if w0.contains(c) {
                let k = choose|k: int| 0 <= k < w0.len() && w0[k] == c;
                assert(w[k] == c);
            }
        }
        lemma_split_after_sep(s, w0, c);
        assert(x.drop_last() =~= s + seq![c] + w0);
        assert(x.last() == w.last());
        assert(w.last() != c) by {
            assert(w[w.len() - 1] == w.last());
        }
        let parts = split_char(x.drop_last(), c);
        assert(parts == split_char(s, c).push(w0));
        assert(split_char(x, c) == parts.update(parts.len() - 1, parts.last().push(x.last())));
        assert(w0.push(w.last()) =~= w);
        assert(parts.update(parts.len() - 1, parts.last().push(x.last())) =~= split_char(
            s,
            c,
        ).push(w));
    }
}

proof fn lemma_split_without_sep(w: Seq<char>, c: char)
    requires
        !w.contains(c),
    ensures
        split_char(w, c) == seq![w],
    decreases w.len(),
{
    if w.len() == 0 {
        assert(w =~= Seq::<char>::empty());
    } else {
        let w0 = w.drop_last();
        assert(!w0.contains(c)) by {
            if w0.contains(c) {
                let k = choose|k: int| 0 <= k < w0.len() && w0[k] == c;
                assert(w[k] == c);
            }
        }
        lemma_split_without_sep(w0, c);
        assert(w.last() != c) by {
            assert(w[w.len() - 1] == w.last());
        }
        let parts = split_char(w0, c);
        assert(split_char(w, c) == parts.update(parts.len() - 1, parts.last().push(w.last())));
        assert(w0.push(w.last()) =~= w);
        assert(seq![w0].update(0, w) =~= seq![w]);
    }
}

/// Splitting joined words at the separator gives the words back, when no
/// word holds the separator.
proof fn lemma_split_join(words: Seq<Seq<char>>, c: char)
    requires
        words.len() >= 1,
        forall|k: int| 0 <= k < words.len() ==> !(#[trigger] words[k]).contains(c),
    ensures
        split_char(join_with(words, c), c) == words,
    decreases words.len(),
{
    if words.len() == 1 {
        lemma_split_without_sep(words[0], c);
        assert(seq![words[0]] =~= words);
    } else {
        let front = words.drop_last();
        assert forall|k: int| 0 <= k < front.len() implies !(#[trigger] front[k]).contains(c) by {
            assert(front[k] == words[k]);
        }
        lemma_split_join(front, c);
        assert(!words.last().contains(c)) by {
            assert(words[words.len() - 1] == words.last());
        }
        lemma_split_after_sep(join_with(front, c), words.last(), c);
        assert(front.push(words.last()) =~= words);
    }
}

/// The pieces of a split never hold the separator, nor a character that the
/// text does not hold.
proof fn lemma_split_pieces(s: Seq<char>, c: char, d: char)
    requires
        d == c || !s.contains(d),
    ensures
        forall|k: int| 0 <= k < split_char(s, c).len() ==> !(#[trigger] split_char(s, c)[k]).contains(d),
    decreases s.len(),
{
    lemma_split_char_nonempty(s, c);
    if s.len() > 0 {
        let parts = split_char(s.drop_last(), c);
        assert(d == c || !s.drop_last().contains(d)) by {
            if d != c && s.drop_last().contains(d) {
                let k = choose|k: int| 0 <= k < s.drop_last().len() && s.drop_last()[k] == d;
                assert(s[k] == d);
            }
        }
        lemma_split_pieces(s.drop_last(), c, d);
        lemma_split_char_nonempty(s.drop_last(), c);
        if s.last() != c {
            assert(s.last() != d) by {
                if d != c {
                    assert(s[s.len() - 1] == s.last());
                }
            }
            let last = parts.last();
            assert(!last.contains(d)) by {
                assert(parts[parts.len() - 1] == last);
            }
            assert(!last.push(s.last()).contains(d)) by {
                if last.push(s.last()).contains(d) {
                    let k = choose|k: int| 0 <= k < last.push(s.last()).len() && last.push(s.last())[k] == d;
                    if k < last.len() {
                        assert(last[k] == d);
                    }
                }
            }
        } else {
            assert(!seq![].contains(d));
        }
        assert forall|k: int| 0 <= k < split_char(s, c).len() implies !(#[trigger] split_char(
            s,
            c,
        )[k]).contains(d) by {
            if k < parts.len() - 1 || (s.last() == c && k < parts.len()) {
                assert(split_char(s, c)[k] == parts[k]);
            }
        }
    }
}

/// The kept segments are segments of the input that are neither empty nor
/// `.`; and none is `..` when the input has none.
proof fn lemma_normal_segments(segs: Seq<Seq<char>>)
    ensures
        forall|j: int|
            0 <= j < normal_segments(segs).len() ==> exists|k: int|
                0 <= k < segs.len() && #[trigger] normal_segments(segs)[j] == segs[k],
        forall|j: int|
            0 <= j < normal_segments(segs).len() ==> (#[trigger] normal_segments(segs)[j]).len() > 0
                && !is_dot(normal_segments(segs)[j]),
    decreases segs.len(),
{
    if segs.len() > 0 {
        let front = segs.drop_last();
        lemma_normal_segments(front);
        let rest = normal_segments(front);
        assert forall|j: int|
            0 <= j < normal_segments(segs).len() implies exists|k: int|
                0 <= k < segs.len() && #[trigger] normal_segments(segs)[j] == segs[k] by {
            if j < rest.len() {
                let k = choose|k: int| 0 <= k < front.len() && rest[j] == front[k];
                assert(normal_segments(segs)[j] == segs[k]);
            } else {
                assert(normal_segments(segs)[j] == segs[segs.len() - 1]);
            }
        }
        assert forall|j: int| 0 <= j < normal_segments(segs).len() implies (
        #[trigger] normal_segments(segs)[j]).len() > 0 && !is_dot(normal_segments(segs)[j]) by {
            if j < rest.len() {
                assert(normal_segments(segs)[j] == rest[j]);
            }
        }
    }
}

/// An entry name that passes the safe-path check becomes a path that stays
/// inside the destination: it is not empty, not absolute, and each of its
/// components is an ordinary name (not empty, `.` or `..`).
pub proof fn lemma_safe_relative_stays_inside(name: Seq<char>, r: Result<String, ArchiveError>, component: Seq<char>)
    requires
        safe_relative_with(name, r, component),
        r is Ok,
    ensures
        ({
            let p = r->Ok_0@;
            &&& p.len() > 0
            &&& !is_absolute(p)
            &&& !p.contains('\\')
            &&& !is_drive_like(split_char(p, '/')[0])
            &&& forall|k: int|
                0 <= k < split_char(p, '/').len() ==> (#[trigger] split_char(p, '/')[k]).len() > 0
                    && !is_dot(split_char(p, '/')[k]) && !is_dotdot(split_char(p, '/')[k])
        }),
{
    let n = replace_char(name, '\\', '/');
    let segs = split_char(n, '/');
    let words = normal_segments(segs);
    let p = r->Ok_0@;
    assert(p == join_with(words, '/'));
    assert(!n.contains('\\')) by {
        if n.contains('\\') {
            let k = choose|k: int| 0 <= k < n.len() && n[k] == '\\';
            assert(n[k] == (if name[k] == '\\' { '/' } else { name[k] }));
        }
    }
    lemma_split_pieces(n, '/', '/');
    lemma_split_pieces(n, '/', '\\');
    lemma_normal_segments(segs);
    assert forall|k: int| 0 <= k < words.len() implies !(#[trigger] words[k]).contains('/') && !words[k].contains('\\') by {
        let i = choose|i: int| 0 <= i < segs.len() && words[k] == segs[i];
        assert(!segs[i].contains('/'));
        assert(!segs[i].contains('\\'));
    }
    lemma_split_join(words, '/');
    lemma_join_without(words, '/', '\\');
    assert forall|k: int| 0 <= k < words.len() implies !is_dotdot(#[trigger] words[k]) by {
        let i = choose|i: int| 0 <= i < segs.len() && words[k] == segs[i];
        assert(!is_dotdot(segs[i]));
    }
    lemma_join_starts_with_first(words, '/');
    assert(words[0].len() > 0);
    assert(!words[0].contains('/'));
    assert(p[0] == words[0][0]);
    assert(words[0][0] != '/') by {
        if words[0][0] == '/' {
            assert(words[0].contains('/'));
        }
    }
}

/// Words that do not hold a character, joined by a separator other than it,
/// do not hold it either.
proof fn lemma_join_without(words: Seq<Seq<char>>, sep: char, d: char)
    requires
        sep != d,
        forall|k: int| 0 <= k < words.len() ==> !(#[trigger] words[k]).contains(d),
    ensures
        !join_with(words, sep).contains(d),
    decreases words.len(),
{
    if words.len() == 1 {
        assert(!words[0].contains(d));
    } else if words.len() > 1 {
        let front = words.drop_last();
        assert forall|k: int| 0 <= k < front.len() implies !(#[trigger] front[k]).contains(d) by {
            assert(front[k] == words[k]);
        }
        lemma_join_without(front, sep, d);
        let j = join_with(front, sep);
        let last = words.last();
        assert(!last.contains(d)) by {
            assert(words[words.len() - 1] == last);
        }
        let all = j + seq![sep] + last;
        assert(join_with(words, sep) == all);
        if all.contains(d) {
            let k = choose|k: int| 0 <= k < all.len() && all[k] == d;
            if k < j.len() {
                assert(j[k] == d);
            } else if k > j.len() {
                assert(last[k - j.len() - 1] == d);
            }
        }
    }
}

/// A joined sequence of words starts with the first word.
proof fn lemma_join_starts_with_first(words: Seq<Seq<char>>, c: char)
    requires
        words.len() >= 1,
    ensures
        join_with(words, c).len() >= words[0].len(),
        forall|i: int| 0 <= i < words[0].len() ==> join_with(words, c)[i] == #[trigger] words[0][i],
    decreases words.len(),
{
    if words.len() > 1 {
        let front = words.drop_last();
        lemma_join_starts_with_first(front, c);
        assert(front[0] == words[0]);
    }
}

/// Segments that are all ordinary names are kept as they are.
proof fn lemma_normal_segments_identity(words: Seq<Seq<char>>)
    requires
        forall|k: int| 0 <= k < words.len() ==> (#[trigger] words[k]).len() > 0 && !is_dot(words[k]),
    ensures
        normal_segments(words) == words,
    decreases words.len(),
{
    if words.len() > 0 {
        let front = words.drop_last();
        assert forall|k: int| 0 <= k < front.len() implies (#[trigger] front[k]).len() > 0 && !is_dot(
            front[k],
        ) by {
            assert(front[k] == words[k]);
        }
        lemma_normal_segments_identity(front);
        assert(words.last() == words[words.len() - 1]);
        assert(front.push(words.last()) =~= words);
    }
}

/// Checking a path that the safe-path check returned gives the same path
/// back: the check is idempotent.
pub proof fn lemma_safe_relative_idempotent(
    name: Seq<char>,
    r: Result<String, ArchiveError>,
    component: Seq<char>,
)
    requires
        safe_relative_with(name, r, component),
        r is Ok,
    ensures
        safe_relative_with(r->Ok_0@, r, component),
{
    let n = replace_char(name, '\\', '/');
    let segs = split_char(n, '/');
    let words = normal_segments(segs);
    let p = r->Ok_0@;
    lemma_safe_relative_stays_inside(name, r, component);
    assert(replace_char(p, '\\', '/') =~= p) by {
        assert forall|k: int| 0 <= k < p.len() implies p[k] != '\\' by {
            if p[k] == '\\' {
                assert(p.contains('\\'));
            }
        }
    }
    assert(!n.contains('\\')) by {
        if n.contains('\\') {
            let k = choose|k: int| 0 <= k < n.len() && n[k] == '\\';
            assert(n[k] == (if name[k] == '\\' { '/' } else { name[k] }));
        }
    }
    lemma_split_pieces(n, '/', '/');
    lemma_normal_segments(segs);
    assert forall|k: int| 0 <= k < words.len() implies !(#[trigger] words[k]).contains('/') by {
        let i = choose|i: int| 0 <= i < segs.len() && words[k] == segs[i];
        assert(!segs[i].contains('/'));
    }
    lemma_split_join(words, '/');
    assert(split_char(p, '/') == words);
    lemma_normal_segments_identity(words);
    assert(!has_dotdot(split_char(p, '/'))) by {
        if has_dotdot(split_char(p, '/')) {
            let i = choose|i: int| 0 <= i < split_char(p, '/').len() && is_dotdot(#[trigger] split_char(p, '/')[i]);
            assert(!is_dotdot(split_char(p, '/')[i]));
        }
    }
}

} // verus!
