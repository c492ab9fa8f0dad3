//! Character-level text model shared by the rest of the library: strings are
//! viewed as `Seq<char>`, and the few std string operations the library needs
//! are either proved here against a short specification or wrapped.
use vstd::prelude::*;

verus! {

broadcast use vstd::string::group_string_axioms;

// ---------------------------------------------------------------------------
// Names for std results that take pages of Unicode tables to state
// ---------------------------------------------------------------------------

/// What `str::to_lowercase` returns for a string (Unicode lowercase mapping).
pub uninterp spec fn lowercase_of(s: Seq<char>) -> Seq<char>;

/// What `str::to_uppercase` returns for a string (Unicode uppercase mapping).
pub uninterp spec fn uppercase_of(s: Seq<char>) -> Seq<char>;

/// `c` lowercased if it is an ASCII capital letter.
pub open spec fn ascii_lower(c: char) -> char {
    if 'A' <= c && c <= 'Z' {
        ((c as u32) + 32) as char
    } else {
        c
    }
}

/// `c` uppercased if it is an ASCII small letter.
pub open spec fn ascii_upper(c: char) -> char {
    if 'a' <= c && c <= 'z' {
        ((c as u32) - 32) as char
    } else {
        c
    }
}

/// Every character of `s` is ASCII.
pub open spec fn is_ascii_text(s: Seq<char>) -> bool {
    forall|i: int| 0 <= i < s.len() ==> (#[trigger] s[i] as u32) < 128
}

/// The lowercase form of a text: ASCII text lowercased letter by letter,
/// other text by the Unicode mapping.
pub open spec fn lower_text(s: Seq<char>) -> Seq<char> {
    if is_ascii_text(s) {
        s.map_values(|c: char| ascii_lower(c))
    } else {
        lowercase_of(s)
    }
}

/// The uppercase form of a text: ASCII text uppercased letter by letter,
/// other text by the Unicode mapping.
pub open spec fn upper_text(s: Seq<char>) -> Seq<char> {
    if is_ascii_text(s) {
        s.map_values(|c: char| ascii_upper(c))
    } else {
        uppercase_of(s)
    }
}

/// Calls std `str::to_lowercase`. Claimed: the result is a function of the
/// characters of `s` alone, named `lowercase_of`; for ASCII text it is the
/// text with `A`-`Z` turned into `a`-`z` (Unicode's lowercase mapping of the
/// ASCII letters, each character one for one).
#[verifier::external_body]
pub(crate) fn lowercase(s: &str) -> (r: String)
    ensures
        r@ == lowercase_of(s@),
        is_ascii_text(s@) ==> r@ == s@.map_values(|c: char| ascii_lower(c)),
{
    s.to_lowercase()
}

/// Calls std `str::to_uppercase`. Claimed: the result is a function of the
/// characters of `s` alone, named `uppercase_of`; for ASCII text it is the
/// text with `a`-`z` turned into `A`-`Z`.
#[verifier::external_body]
pub(crate) fn uppercase(s: &str) -> (r: String)
    ensures
        r@ == uppercase_of(s@),
        is_ascii_text(s@) ==> r@ == s@.map_values(|c: char| ascii_upper(c)),
{
    s.to_uppercase()
}

/// Calls std `String::push`. Claimed: the character is appended at the end.
#[verifier::external_body]
pub(crate) fn push_char(s: &mut String, c: char)
    ensures
        final(s)@ == old(s)@.push(c),
{
    s.push(c)
}

// ---------------------------------------------------------------------------
// Conversions between `str`/`String` and character vectors
// ---------------------------------------------------------------------------

/// The characters of a string slice, in order.
pub fn chars_of(s: &str) -> (v: Vec<char>)
    ensures
        v@ == s@,
{
    let mut v: Vec<char> = Vec::new();
    for c in it: s.chars()
        invariant
            v@ == it.seq().take(it.index() as int),
            it.seq() == s@,
    {
        v.push(c);
    }
    v
}

/// A `String` holding exactly the given characters.
pub fn string_of(v: &[char]) -> (s: String)
    ensures
        s@ == v@,
{
    let mut s = String::new();
    let mut i: usize = 0;
    while i < v.len()
        invariant
            i <= v@.len(),
            s@ == v@.take(i as int),
        decreases v@.len() - i,
    {
        push_char(&mut s, v[i]);
        assert(v@.take(i as int).push(v@[i as int]) =~= v@.take(i + 1));
        i = i + 1;
    }
    assert(v@.take(v@.len() as int) =~= v@);
    s
}

/// A `String` holding the characters `v[from..to]`.
pub fn string_of_range(v: &[char], from: usize, to: usize) -> (s: String)
    requires
        from <= to <= v@.len(),
    ensures
        s@ == v@.subrange(from as int, to as int),
{
    let mut s = String::new();
    let mut i: usize = from;
    while i < to
        invariant
            from <= i <= to <= v@.len(),
            s@ == v@.subrange(from as int, i as int),
        decreases to - i,
    {
        push_char(&mut s, v[i]);
        assert(v@.subrange(from as int, i as int).push(v@[i as int]) =~= v@.subrange(
            from as int,
            i + 1,
        ));
        i = i + 1;
    }
    s
}

/// A copy of a `String`.
pub fn copy_string(s: &String) -> (r: String)
    ensures
        r@ == s@,
{
    String::from_str(s.as_str())
}

/// Whether two character sequences are equal.
pub fn chars_eq(a: &[char], b: &[char]) -> (r: bool)
    ensures
        r == (a@ == b@),
{
    if a.len() != b.len() {
        return false;
    }
    let mut i: usize = 0;
    while i < a.len()
        invariant
            a@.len() == b@.len(),
            i <= a@.len(),
            forall|k: int| 0 <= k < i ==> a@[k] == b@[k],
        decreases a@.len() - i,
    {
        if a[i] != b[i] {
            return false;
        }
        i = i + 1;
    }
    assert(a@ =~= b@);
    true
}

/// Whether two strings hold the same characters.
pub fn str_eq(a: &str, b: &str) -> (r: bool)
    ensures
        r == (a@ == b@),
{
    let x = chars_of(a);
    let y = chars_of(b);
    chars_eq(x.as_slice(), y.as_slice())
}

// ---------------------------------------------------------------------------
// Prefixes and suffixes
// ---------------------------------------------------------------------------

pub open spec fn has_prefix(s: Seq<char>, p: Seq<char>) -> bool {
    p.len() <= s.len() && s.subrange(0, p.len() as int) == p
}

pub open spec fn has_suffix(s: Seq<char>, p: Seq<char>) -> bool {
    p.len() <= s.len() && s.subrange(s.len() - p.len(), s.len() as int) == p
}

pub proof fn lemma_suffix_char(s: Seq<char>, c: char)
    ensures
        has_suffix(s, seq![c]) <==> (s.len() > 0 && s[s.len() - 1] == c),
{
    if s.len() > 0 {
        let sub = s.subrange(s.len() - 1, s.len() as int);
        assert(sub[0] == s[s.len() - 1]);
        if sub == seq![c] {
            assert(sub[0] == seq![c][0]);
        }
        if s[s.len() - 1] == c {
            assert(sub =~= seq![c]);
        }
    }
}

pub proof fn lemma_prefix_char(s: Seq<char>, c: char)
    ensures
        has_prefix(s, seq![c]) <==> (s.len() > 0 && s[0] == c),
{
    if s.len() > 0 {
        let sub = s.subrange(0, 1);
        assert(sub[0] == s[0]);
        if sub == seq![c] {
            assert(sub[0] == seq![c][0]);
        }
        if s[0] == c {
            assert(sub =~= seq![c]);
        }
    }
}

/// Whether `p` occurs in `s` starting at `at`.
pub fn matches_at(s: &[char], at: usize, p: &[char]) -> (r: bool)
    requires
        at <= s@.len(),
    ensures
        r == (p@.len() <= s@.len() - at && s@.subrange(at as int, at + p@.len()) == p@),
{
    if p.len() > s.len() - at {
        return false;
    }
    let mut i: usize = 0;
    while i < p.len()
        invariant
            at + p@.len() <= s@.len(),
            i <= p@.len(),
            forall|k: int| 0 <= k < i ==> s@[at + k] == p@[k],
        decreases p@.len() - i,
    {
        let n = s.len();
        assert(at + i < n);
        if s[at + i] != p[i] {
            assert(s@.subrange(at as int, at + p@.len())[i as int] != p@[i as int]);
            return false;
        }
        i = i + 1;
    }
    assert(s@.subrange(at as int, at + p@.len()) =~= p@);
    true
}

pub fn starts_with(s: &[char], p: &[char]) -> (r: bool)
    ensures
        r == has_prefix(s@, p@),
{
    matches_at(s, 0, p)
}

pub fn ends_with(s: &[char], p: &[char]) -> (r: bool)
    ensures
        r == has_suffix(s@, p@),
{
    if p.len() > s.len() {
        return false;
    }
    matches_at(s, s.len() - p.len(), p)
}

/// Whether the string `s` ends with the string `p`.
pub fn str_ends_with(s: &[char], p: &str) -> (r: bool)
    ensures
        r == has_suffix(s@, p@),
{
    let pv = chars_of(p);
    ends_with(s, pv.as_slice())
}

/// Whether the characters `s` spell the string `p`.
pub fn is_str(s: &[char], p: &str) -> (r: bool)
    ensures
        r == (s@ == p@),
{
    let pv = chars_of(p);
    chars_eq(s, pv.as_slice())
}

/// The index of the last occurrence of `c` in `s`, or -1.
pub open spec fn last_index_of(s: Seq<char>, c: char) -> int
    decreases s.len(),
{
    if s.len() == 0 {
        -1
    } else if s.last() == c {
        s.len() - 1
    } else {
        last_index_of(s.drop_last(), c)
    }
}

pub proof fn lemma_last_index_of(s: Seq<char>, c: char)
    ensures
        -1 <= last_index_of(s, c) < s.len(),
        last_index_of(s, c) >= 0 ==> s[last_index_of(s, c)] == c,
        forall|k: int| last_index_of(s, c) < k < s.len() ==> s[k] != c,
    decreases s.len(),
{
    if s.len() > 0 && s.last() != c {
        lemma_last_index_of(s.drop_last(), c);
        assert(forall|k: int| 0 <= k < s.len() - 1 ==> s.drop_last()[k] == s[k]);
    }
}

/// The index of the last occurrence of `c` in `s[from..to]`, if any.
pub fn find_last_in(s: &[char], from: usize, to: usize, c: char) -> (r: Option<usize>)
    requires
        from <= to <= s@.len(),
    ensures
        match r {
            Some(k) => from <= k < to && last_index_of(s@.subrange(from as int, to as int), c)
                == k - from,
            None => last_index_of(s@.subrange(from as int, to as int), c) == -1,
        },
{
    let mut j: usize = to;
    while j > from
        invariant
            from <= j <= to <= s@.len(),
            last_index_of(s@.subrange(from as int, to as int), c) == last_index_of(
                s@.subrange(from as int, j as int),
                c,
            ),
        decreases j,
    {
        assert(s@.subrange(from as int, j as int).drop_last() =~= s@.subrange(from as int, j - 1));
        if s[j - 1] == c {
            return Some(j - 1);
        }
        j = j - 1;
    }
    None
}

/// A copy of `v[from..to]`.
pub fn sub_chars(v: &[char], from: usize, to: usize) -> (r: Vec<char>)
    requires
        from <= to <= v@.len(),
    ensures
        r@ == v@.subrange(from as int, to as int),
{
    let mut r: Vec<char> = Vec::new();
    let mut i = from;
    while i < to
        invariant
            from <= i <= to <= v@.len(),
            r@ == v@.subrange(from as int, i as int),
        decreases to - i,
    {
        r.push(v[i]);
        assert(v@.subrange(from as int, i as int).push(v@[i as int]) =~= v@.subrange(
            from as int,
            i + 1,
        ));
        i = i + 1;
    }
    r
}

/// A copy of a character sequence.
pub fn copy_chars(v: &[char]) -> (r: Vec<char>)
    ensures
        r@ == v@,
{
    let mut r: Vec<char> = Vec::new();
    let mut i: usize = 0;
    while i < v.len()
        invariant
            i <= v@.len(),
            r@ == v@.take(i as int),
        decreases v@.len() - i,
    {
        r.push(v[i]);
        assert(v@.take(i + 1) =~= v@.take(i as int).push(v@[i as int]));
        i = i + 1;
    }
    assert(v@.take(v@.len() as int) =~= v@);
    r
}

// ---------------------------------------------------------------------------
// Character replacement and trimming of one character
// ---------------------------------------------------------------------------

/// Every occurrence of `from` replaced by `to`.
pub open spec fn replace_char(s: Seq<char>, from: char, to: char) -> Seq<char> {
    s.map_values(|c: char| if c == from { to } else { c })
}

pub fn replace_chars(s: &[char], from: char, to: char) -> (r: Vec<char>)
    ensures
        r@ == replace_char(s@, from, to),
{
    let mut r: Vec<char> = Vec::new();
    let mut i: usize = 0;
    while i < s.len()
        invariant
            i <= s@.len(),
            r@ == replace_char(s@.take(i as int), from, to),
        decreases s@.len() - i,
    {
        let c = s[i];
        if c == from {
            r.push(to);
        } else {
            r.push(c);
        }
        assert(replace_char(s@.take(i + 1), from, to) =~= replace_char(s@.take(i as int), from, to).push(
            if c == from { to } else { c },
        ));
        i = i + 1;
    }
    assert(s@.take(s@.len() as int) =~= s@);
    r
}

/// `s` without leading occurrences of `c`.
pub open spec fn trim_start_char(s: Seq<char>, c: char) -> Seq<char>
    decreases s.len(),
{
    if s.len() > 0 && s[0] == c {
        trim_start_char(s.drop_first(), c)
    } else {
        s
    }
}

/// `s` without trailing occurrences of `c`.
pub open spec fn trim_end_char(s: Seq<char>, c: char) -> Seq<char>
    decreases s.len(),
{
    if s.len() > 0 && s.last() == c {
        trim_end_char(s.drop_last(), c)
    } else {
        s
    }
}

/// `s` without leading and trailing occurrences of `c` (`str::trim_matches`).
pub open spec fn trim_char(s: Seq<char>, c: char) -> Seq<char> {
    trim_end_char(trim_start_char(s, c), c)
}

/// Bounds of `s[from..to]` after leading occurrences of `c` are removed.
pub fn trim_start_char_at(s: &[char], from: usize, to: usize, c: char) -> (r: usize)
    requires
        from <= to <= s@.len(),
    ensures
        from <= r <= to,
        trim_start_char(s@.subrange(from as int, to as int), c) == s@.subrange(r as int, to as int),
{
    let mut i = from;
    while i < to && s[i] == c
        invariant
            from <= i <= to <= s@.len(),
            trim_start_char(s@.subrange(from as int, to as int), c) == trim_start_char(
                s@.subrange(i as int, to as int),
                c,
            ),
        decreases to - i,
    {
        assert(s@.subrange(i as int, to as int).drop_first() =~= s@.subrange(i + 1, to as int));
        i = i + 1;
    }
    i
}

/// Bounds of `s[from..to]` after trailing occurrences of `c` are removed.
pub fn trim_end_char_at(s: &[char], from: usize, to: usize, c: char) -> (r: usize)
    requires
        from <= to <= s@.len(),
    ensures
        from <= r <= to,
        trim_end_char(s@.subrange(from as int, to as int), c) == s@.subrange(from as int, r as int),
{
    let mut j = to;
    while j > from && s[j - 1] == c
        invariant
            from <= j <= to <= s@.len(),
            trim_end_char(s@.subrange(from as int, to as int), c) == trim_end_char(
                s@.subrange(from as int, j as int),
                c,
            ),
        decreases j,
    {
        assert(s@.subrange(from as int, j as int).drop_last() =~= s@.subrange(from as int, j - 1));
        j = j - 1;
    }
    j
}

/// `s` with leading and trailing occurrences of `c` removed.
pub fn trim_matches_char(s: &[char], c: char) -> (r: Vec<char>)
    ensures
        r@ == trim_char(s@, c),
{
    let a = trim_start_char_at(s, 0, s.len(), c);
    assert(s@.subrange(0, s@.len() as int) =~= s@);
    let b = trim_end_char_at(s, a, s.len(), c);
    let mut r: Vec<char> = Vec::new();
    let mut i = a;
    while i < b
        invariant
            a <= i <= b <= s@.len(),
            r@ == s@.subrange(a as int, i as int),
        decreases b - i,
    {
        r.push(s[i]);
        assert(s@.subrange(a as int, i as int).push(s@[i as int]) =~= s@.subrange(a as int, i + 1));
        i = i + 1;
    }
    r
}

/// `s` with every leading copy of the (non-empty) pattern `p` removed
/// (`str::trim_start_matches` with a string pattern).
pub open spec fn trim_start_pattern(s: Seq<char>, p: Seq<char>) -> Seq<char>
    decreases s.len(),
{
    if p.len() > 0 && has_prefix(s, p) {
        trim_start_pattern(s.subrange(p.len() as int, s.len() as int), p)
    } else {
        s
    }
}

/// Start of `s[from..]` once every leading copy of `p` is removed.
pub fn trim_start_pattern_at(s: &[char], from: usize, p: &[char]) -> (r: usize)
    requires
        from <= s@.len(),
    ensures
        from <= r <= s@.len(),
        trim_start_pattern(s@.subrange(from as int, s@.len() as int), p@) == s@.subrange(
            r as int,
            s@.len() as int,
        ),
{
    let mut i = from;
    if p.len() == 0 {
        return i;
    }
    while matches_at(s, i, p)
        invariant
            from <= i <= s@.len(),
            p@.len() > 0,
            trim_start_pattern(s@.subrange(from as int, s@.len() as int), p@) == trim_start_pattern(
                s@.subrange(i as int, s@.len() as int),
                p@,
            ),
        decreases s@.len() - i,
    {
        let ghost t = s@.subrange(i as int, s@.len() as int);
        assert(t.subrange(0, p@.len() as int) =~= s@.subrange(i as int, i + p@.len()));
        assert(t.subrange(p@.len() as int, t.len() as int) =~= s@.subrange(
            i + p@.len(),
            s@.len() as int,
        ));
        let n = s.len();
        assert(i + p@.len() <= n);
        i = i + p.len();
    }
    let ghost t = s@.subrange(i as int, s@.len() as int);
    assert(p@.len() <= t.len() ==> t.subrange(0, p@.len() as int) =~= s@.subrange(
        i as int,
        i + p@.len(),
    ));
    i
}

// ---------------------------------------------------------------------------
// Unicode white space, `str::trim` and `str::split_whitespace`
// ---------------------------------------------------------------------------

/// The characters with the Unicode `White_Space` property (`char::is_whitespace`).
pub open spec fn is_ws(c: char) -> bool {
    ||| ('\u{9}' <= c && c <= '\u{d}')
    ||| c == ' '
    ||| c == '\u{85}'
    ||| c == '\u{a0}'
    ||| c == '\u{1680}'
    ||| ('\u{2000}' <= c && c <= '\u{200a}')
    ||| c == '\u{2028}'
    ||| c == '\u{2029}'
    ||| c == '\u{202f}'
    ||| c == '\u{205f}'
    ||| c == '\u{3000}'
}

pub fn is_whitespace(c: char) -> (r: bool)
    ensures
        r == is_ws(c),
{
    ('\u{9}' <= c && c <= '\u{d}') || c == ' ' || c == '\u{85}' || c == '\u{a0}' || c
        == '\u{1680}' || ('\u{2000}' <= c && c <= '\u{200a}') || c == '\u{2028}' || c
        == '\u{2029}' || c == '\u{202f}' || c == '\u{205f}' || c == '\u{3000}'
}

pub open spec fn trim_start_ws(s: Seq<char>) -> Seq<char>
    decreases s.len(),
{
    if s.len() > 0 && is_ws(s[0]) {
        trim_start_ws(s.drop_first())
    } else {
        s
    }
}

pub open spec fn trim_end_ws(s: Seq<char>) -> Seq<char>
    decreases s.len(),
{
    if s.len() > 0 && is_ws(s.last()) {
        trim_end_ws(s.drop_last())
    } else {
        s
    }
}

/// `str::trim`: white space removed from both ends.
pub open spec fn trim_ws(s: Seq<char>) -> Seq<char> {
    trim_end_ws(trim_start_ws(s))
}

/// Bounds `(a, b)` such that `s[a..b]` is `s` trimmed of white space.
pub fn trim_bounds(s: &[char]) -> (r: (usize, usize))
    ensures
        r.0 <= r.1 <= s@.len(),
        s@.subrange(r.0 as int, r.1 as int) == trim_ws(s@),
{
    let mut i: usize = 0;
    assert(s@.subrange(0, s@.len() as int) =~= s@);
    while i < s.len() && is_whitespace(s[i])
        invariant
            i <= s@.len(),
            trim_start_ws(s@) == trim_start_ws(s@.subrange(i as int, s@.len() as int)),
        decreases s@.len() - i,
    {
        assert(s@.subrange(i as int, s@.len() as int).drop_first() =~= s@.subrange(
            i + 1,
            s@.len() as int,
        ));
        i = i + 1;
    }
    assert(s@.subrange(0, s@.len() as int) =~= s@);
    let mut j: usize = s.len();
    while j > i && is_whitespace(s[j - 1])
        invariant
            i <= j <= s@.len(),
            trim_end_ws(s@.subrange(i as int, s@.len() as int)) == trim_end_ws(
                s@.subrange(i as int, j as int),
            ),
        decreases j,
    {
        assert(s@.subrange(i as int, j as int).drop_last() =~= s@.subrange(i as int, j - 1));
        j = j - 1;
    }
    (i, j)
}

/// State of a left-to-right scan that splits on white space: the words
/// already complete, and the word being read.
pub open spec fn ws_scan(s: Seq<char>) -> (Seq<Seq<char>>, Seq<char>)
    decreases s.len(),
{
    if s.len() == 0 {
        (seq![], seq![])
    } else {
        let (words, cur) = ws_scan(s.drop_last());
        if is_ws(s.last()) {
            if cur.len() > 0 {
                (words.push(cur), seq![])
            } else {
                (words, cur)
            }
        } else {
            (words, cur.push(s.last()))
        }
    }
}

/// `str::split_whitespace`: the maximal runs of non-white-space characters.
pub open spec fn split_ws(s: Seq<char>) -> Seq<Seq<char>> {
    let (words, cur) = ws_scan(s);
    if cur.len() > 0 {
        words.push(cur)
    } else {
        words
    }
}

pub fn split_whitespace(s: &[char]) -> (r: Vec<Vec<char>>)
    ensures
        r.deep_view() == split_ws(s@),
{
    let mut words: Vec<Vec<char>> = Vec::new();
    let mut cur: Vec<char> = Vec::new();
    let mut i: usize = 0;
    while i < s.len()
        invariant
            i <= s@.len(),
            (words.deep_view(), cur@) == ws_scan(s@.take(i as int)),
        decreases s@.len() - i,
    {
        assert(s@.take(i + 1).drop_last() =~= s@.take(i as int));
        let c = s[i];
        if is_whitespace(c) {
            if cur.len() > 0 {
                let ghost w = words.deep_view();
                let ghost cv = cur@;
                assert(cur.deep_view() =~= cv);
                let done = cur;
                cur = Vec::new();
                words.push(done);
                assert(words.deep_view() =~= w.push(cv));
            }
        } else {
            cur.push(c);
        }
        i = i + 1;
    }
    assert(s@.take(s@.len() as int) =~= s@);
    if cur.len() > 0 {
        let ghost w = words.deep_view();
        let ghost cv = cur@;
        assert(cur.deep_view() =~= cv);
        words.push(cur);
        assert(words.deep_view() =~= w.push(cv));
    }
    words
}

/// The words joined by the separator `sep` (`[&str]::join`).
pub open spec fn join_with(words: Seq<Seq<char>>, sep: char) -> Seq<char>
    decreases words.len(),
{
    if words.len() == 0 {
        seq![]
    } else if words.len() == 1 {
        words[0]
    } else {
        join_with(words.drop_last(), sep) + seq![sep] + words.last()
    }
}

/// The words `words[from..]` joined by the separator `sep`.
pub fn join_words_from(words: &Vec<Vec<char>>, from: usize, sep: char) -> (r: Vec<char>)
    requires
        from <= words@.len(),
    ensures
        r@ == join_with(words.deep_view().subrange(from as int, words@.len() as int), sep),
{
    let mut r: Vec<char> = Vec::new();
    let mut i = from;
    while i < words.len()
        invariant
            from <= i <= words@.len(),
            r@ == join_with(words.deep_view().subrange(from as int, i as int), sep),
        decreases words@.len() - i,
    {
        let ghost prev = words.deep_view().subrange(from as int, i as int);
        let ghost next = words.deep_view().subrange(from as int, i + 1);
        assert(next.drop_last() =~= prev);
        assert(next.last() == words[i as int]@);
        if i > from {
            r.push(sep);
        }
        let w = &words[i];
        let mut k: usize = 0;
        let ghost base = r@;
        while k < w.len()
            invariant
                k <= w@.len(),
                r@ == base + w@.take(k as int),
            decreases w@.len() - k,
        {
            r.push(w[k]);
            assert(w@.take(k + 1) =~= w@.take(k as int).push(w@[k as int]));
            k = k + 1;
        }
        assert(w@.take(w@.len() as int) =~= w@);
        if i == from {
            assert(r@ =~= join_with(next, sep));
        } else {
            assert(r@ =~= join_with(next, sep));
        }
        i = i + 1;
    }
    r
}

/// `str::split` on one character: the pieces between occurrences of `c`
/// (always at least one piece).
pub open spec fn split_char(s: Seq<char>, c: char) -> Seq<Seq<char>>
    decreases s.len(),
{
    if s.len() == 0 {
        seq![seq![]]
    } else {
        let parts = split_char(s.drop_last(), c);
        if s.last() == c {
            parts.push(seq![])
        } else {
            parts.update(parts.len() - 1, parts.last().push(s.last()))
        }
    }
}

pub proof fn lemma_split_char_nonempty(s: Seq<char>, c: char)
    ensures
        split_char(s, c).len() >= 1,
    decreases s.len(),
{
    if s.len() > 0 {
        lemma_split_char_nonempty(s.drop_last(), c);
    }
}

pub fn split_on(s: &[char], c: char) -> (r: Vec<Vec<char>>)
    ensures
        r.deep_view() == split_char(s@, c),
{
    let mut done: Vec<Vec<char>> = Vec::new();
    let mut cur: Vec<char> = Vec::new();
    let mut i: usize = 0;
    assert(done.deep_view().push(cur@) =~= split_char(s@.take(0), c));
    while i < s.len()
        invariant
            i <= s@.len(),
            done.deep_view().push(cur@) == split_char(s@.take(i as int), c),
        decreases s@.len() - i,
    {
        assert(s@.take(i + 1).drop_last() =~= s@.take(i as int));
        let ghost before = done.deep_view();
        let ghost cv = cur@;
        let x = s[i];
        if x == c {
            assert(cur.deep_view() =~= cv);
            let piece = cur;
            cur = Vec::new();
            done.push(piece);
            assert(done.deep_view() =~= before.push(cv));
            assert(done.deep_view().push(cur@) =~= before.push(cv).push(seq![]));
        } else {
            cur.push(x);
            assert(done.deep_view().push(cur@) =~= before.push(cv).update(
                before.len() as int,
                cv.push(x),
            ));
        }
        i = i + 1;
    }
    assert(s@.take(s@.len() as int) =~= s@);
    let ghost before = done.deep_view();
    let ghost cv = cur@;
    assert(cur.deep_view() =~= cv);
    done.push(cur);
    assert(done.deep_view() =~= before.push(cv));
    done
}

// ---------------------------------------------------------------------------
// Decimal numbers
// ---------------------------------------------------------------------------

pub open spec fn digit_char(d: nat) -> char {
    if d == 0 {
        '0'
    } else if d == 1 {
        '1'
    } else if d == 2 {
        '2'
    } else if d == 3 {
        '3'
    } else if d == 4 {
        '4'
    } else if d == 5 {
        '5'
    } else if d == 6 {
        '6'
    } else if d == 7 {
        '7'
    } else if d == 8 {
        '8'
    } else {
        '9'
    }
}

pub proof fn lemma_decimal_len(n: nat)
    ensures
        decimal(n).len() >= 1,
        n >= 10 ==> decimal(n).len() >= 2,
    decreases n,
{
    if n >= 10 {
        lemma_decimal_len(n / 10);
    }
}

/// Different numbers have different decimal representations.
pub proof fn lemma_decimal_injective(n: nat, m: nat)
    requires
        decimal(n) == decimal(m),
    ensures
        n == m,
    decreases n,
{
    lemma_decimal_len(n);
    lemma_decimal_len(m);
    if n >= 10 && m >= 10 {
        assert(decimal(n).drop_last() == decimal(n / 10));
        assert(decimal(m).drop_last() == decimal(m / 10));
        lemma_decimal_injective(n / 10, m / 10);
        assert(decimal(n).last() == digit_char(n % 10));
        assert(decimal(m).last() == digit_char(m % 10));
    } else if n < 10 && m < 10 {
        assert(decimal(n)[0] == digit_char(n));
        assert(decimal(m)[0] == digit_char(m));
    }
}

pub open spec fn is_digit(c: char) -> bool {
    '0' <= c && c <= '9'
}

pub open spec fn all_digits(s: Seq<char>) -> bool {
    forall|i: int| 0 <= i < s.len() ==> is_digit(#[trigger] s[i])
}

/// The decimal representation of `n` without leading zeros (`{}` formatting).
pub open spec fn decimal(n: nat) -> Seq<char>
    decreases n,
{
    if n < 10 {
        seq![digit_char(n)]
    } else {
        decimal(n / 10).push(digit_char(n % 10))
    }
}

/// `s` left-padded with zeros to at least `width` characters (`{:0width}`).
pub open spec fn zero_pad(s: Seq<char>, width: nat) -> Seq<char> {
    if s.len() < width {
        Seq::new((width - s.len()) as nat, |i: int| '0') + s
    } else {
        s
    }
}

/// The value of a string of decimal digits.
pub open spec fn digits_value(s: Seq<char>) -> nat
    decreases s.len(),
{
    if s.len() == 0 {
        0
    } else {
        digits_value(s.drop_last()) * 10 + ((s.last() as int - 48) as nat)
    }
}

pub fn digit(d: u64) -> (c: char)
    requires
        d < 10,
    ensures
        c == digit_char(d as nat),
{
    match d {
        0 => '0',
        1 => '1',
        2 => '2',
        3 => '3',
        4 => '4',
        5 => '5',
        6 => '6',
        7 => '7',
        8 => '8',
        _ => '9',
    }
}

/// Appends the decimal representation of `n` to `out`.
pub fn push_decimal(out: &mut Vec<char>, n: u64)
    ensures
        final(out)@ == old(out)@ + decimal(n as nat),
    decreases n,
{
    if n >= 10 {
        push_decimal(out, n / 10);
    }
    out.push(digit(n % 10));
    assert(out@ =~= old(out)@ + decimal(n as nat));
}

/// Appends `n` in decimal, zero-padded to `width` characters.
pub fn push_padded(out: &mut Vec<char>, n: u64, width: usize)
    ensures
        final(out)@ == old(out)@ + zero_pad(decimal(n as nat), width as nat),
{
    let mut digits: Vec<char> = Vec::new();
    push_decimal(&mut digits, n);
    assert(digits@ =~= decimal(n as nat));
    let mut k = digits.len();
    let ghost base = out@;
    while k < width
        invariant
            digits@.len() <= k <= width || (k == digits@.len() && k >= width),
            out@ == base + Seq::new((k - digits@.len()) as nat, |i: int| '0'),
        decreases width - k,
    {
        out.push('0');
        assert(out@ =~= base + Seq::new((k + 1 - digits@.len()) as nat, |i: int| '0'));
        k = k + 1;
    }
    let ghost zeros = out@;
    let mut i: usize = 0;
    while i < digits.len()
        invariant
            i <= digits@.len(),
            out@ == zeros + digits@.take(i as int),
        decreases digits@.len() - i,
    {
        out.push(digits[i]);
        assert(digits@.take(i + 1) =~= digits@.take(i as int).push(digits@[i as int]));
        i = i + 1;
    }
    assert(digits@.take(digits@.len() as int) =~= digits@);
    assert(out@ =~= base + zero_pad(decimal(n as nat), width as nat));
}

proof fn lemma_digits_value_grows(s: Seq<char>, c: char)
    requires
        is_digit(c),
    ensures
        digits_value(s.push(c)) >= digits_value(s),
        digits_value(s.push(c)) == digits_value(s) * 10 + (c as int - 48),
{
    assert(s.push(c).drop_last() =~= s);
}

/// Parses a string of decimal digits as a `u64` (`str::parse::<u64>` on
/// digit strings): `None` when the value does not fit.
pub fn parse_digits_u64(s: &[char]) -> (r: Option<u64>)
    requires
        all_digits(s@),
    ensures
        r == (if digits_value(s@) <= u64::MAX {
            Some(digits_value(s@) as u64)
        } else {
            None::<u64>
        }),
{
    let mut acc: Option<u64> = Some(0);
    let mut i: usize = 0;
    while i < s.len()
        invariant
            i <= s@.len(),
            all_digits(s@),
            acc == (if digits_value(s@.take(i as int)) <= u64::MAX {
                Some(digits_value(s@.take(i as int)) as u64)
            } else {
                None::<u64>
            }),
        decreases s@.len() - i,
    {
        let c = s[i];
        assert(is_digit(s@[i as int]));
        proof {
            assert(s@.take(i + 1) =~= s@.take(i as int).push(c));
            lemma_digits_value_grows(s@.take(i as int), c);
        }
        let d = (c as u32 - 48) as u64;
        acc = match acc {
            Some(v) => match v.checked_mul(10) {
                Some(m) => m.checked_add(d),
                None => None,
            },
            None => None,
        };
        i = i + 1;
    }
    assert(s@.take(s@.len() as int) =~= s@);
    acc
}

/// Whether every character is an ASCII digit.
pub fn check_all_digits(s: &[char]) -> (r: bool)
    ensures
        r == all_digits(s@),
{
    let mut i: usize = 0;
    while i < s.len()
        invariant
            i <= s@.len(),
            forall|k: int| 0 <= k < i ==> is_digit(#[trigger] s@[k]),
        decreases s@.len() - i,
    {
        if !('0' <= s[i] && s[i] <= '9') {
            return false;
        }
        i = i + 1;
    }
    true
}

} // verus!
