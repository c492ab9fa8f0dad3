//! The TAR-family engine's logic: reading the listing printed by `tar -tvf`
//! (bsdtar/libarchive format) and judging the tool's exit.
use vstd::prelude::*;
use crate::errors::{error_with, is_error, ArchiveError, ErrorKind};
use crate::models::{kind_of_path, file_kind, opt_view, ArchiveEntry, EntryView, entries_view};
use crate::paths::{file_stem, path_stem};
use crate::text::{
    all_digits, chars_of, check_all_digits, digits_value, has_prefix, has_suffix, join_with,
    join_words_from, parse_digits_u64, split_char, split_on, split_whitespace, split_ws,
    string_of, string_of_range, trim_bounds, trim_end_char, trim_end_char_at, trim_start_pattern,
    trim_start_pattern_at, trim_ws, copy_chars, lemma_prefix_char, lemma_suffix_char,
};

verus! {

broadcast use vstd::string::group_string_axioms;

// ---------------------------------------------------------------------------
// One line of `tar -tvf`
// ---------------------------------------------------------------------------

/// The first index `>= from` whose word is all ASCII digits, or `words.len()`.
pub open spec fn first_number_index(words: Seq<Seq<char>>, from: int) -> int
    decreases words.len() - from,
{
    if from >= words.len() {
        words.len() as int
    } else if all_digits(words[from]) {
        from
    } else {
        first_number_index(words, from + 1)
    }
}

/// `str::parse::<u64>` on a digit string, with 0 when it does not fit.
pub open spec fn number_or_zero(w: Seq<char>) -> u64 {
    if digits_value(w) <= u64::MAX {
        digits_value(w) as u64
    } else {
        0
    }
}

/// The entry for a line in the short form (fewer than six words): the whole
/// trimmed line is the name, and a trailing `/` or `\` marks a folder.
pub open spec fn short_line_entry(t: Seq<char>) -> EntryView {
    let is_dir = has_suffix(t, seq!['/']) || has_suffix(t, seq!['\\']);
    let name = trim_end_char(trim_end_char(t, '/'), '\\');
    EntryView {
        name,
        kind: if is_dir {
            "Folder"@
        } else {
            kind_of_path(name)
        },
        size: 0,
        compressed_size: 0,
        modified: None,
        is_dir,
    }
}

/// The entry for a line in the long form
/// (`drwxr-xr-x  0 user group  1234 Aug 20 18:27 path/name`): the size is the
/// first all-digit word from the fifth word on, the three words after it are
/// the date, and the rest is the name, without leading `./` or `.\`.
pub open spec fn long_line_entry(t: Seq<char>) -> Option<EntryView> {
    let words = split_ws(t);
    let is_dir = has_prefix(words[0], seq!['d']) || has_suffix(t, seq!['/']);
    let si = first_number_index(words, 4);
    let size: u64 = if si < words.len() {
        number_or_zero(words[si])
    } else {
        0
    };
    let has_date = si + 3 < words.len();
    let name_start = if has_date {
        si + 4
    } else {
        words.len() - 1
    };
    let modified = if has_date {
        Some(words[si + 1] + seq![' '] + words[si + 2] + seq![' '] + words[si + 3])
    } else {
        None
    };
    let name = join_with(words.subrange(name_start, words.len() as int), ' ');
    let clean = trim_start_pattern(trim_start_pattern(name, "./"@), ".\\"@);
    if clean.len() == 0 {
        None
    } else {
        Some(
            EntryView {
                name: clean,
                kind: if is_dir {
                    "Folder"@
                } else {
                    kind_of_path(clean)
                },
                size,
                compressed_size: 0,
                modified,
                is_dir,
            },
        )
    }
}

/// The entry described by one line of `tar -tvf` output, if any.
pub open spec fn tvf_line_entry(line: Seq<char>) -> Option<EntryView> {
    let t = trim_ws(line);
    if t.len() == 0 {
        None
    } else if split_ws(t).len() < 6 {
        Some(short_line_entry(t))
    } else {
        long_line_entry(t)
    }
}

fn entry_of(name: String, is_dir: bool, size: u64, modified: Option<String>) -> (e: ArchiveEntry)
    ensures
        e@.name == name@,
        e@.kind == (if is_dir {
            "Folder"@
        } else {
            kind_of_path(name@)
        }),
        e@.size == size,
        e@.compressed_size == 0,
        e@.modified == opt_view(modified),
        e@.is_dir == is_dir,
{
    let kind = if is_dir {
        String::from_str("Folder")
    } else {
        file_kind(name.as_str())
    };
    ArchiveEntry { name, kind, size, compressed_size: 0, modified, is_dir }
}

fn short_line(t: &[char]) -> (e: ArchiveEntry)
    ensures
        e@ == short_line_entry(t@),
{
    let n = t.len();
    let is_dir = n > 0 && (t[n - 1] == '/' || t[n - 1] == '\\');
    proof {
        lemma_suffix_char(t@, '/');
        lemma_suffix_char(t@, '\\');
    }
    assert(t@.subrange(0, n as int) =~= t@);
    let a = trim_end_char_at(t, 0, n, '/');
    let b = trim_end_char_at(t, 0, a, '\\');
    let name = string_of_range(t, 0, b);
    entry_of(name, is_dir, 0, None)
}

/// The word list from `from` on.
proof fn lemma_first_number_index_bounds(words: Seq<Seq<char>>, from: int)
    requires
        0 <= from,
    ensures
        from <= first_number_index(words, from) || first_number_index(words, from) == words.len(),
        first_number_index(words, from) <= words.len() || from > words.len(),
    decreases words.len() - from,
{
    if from < words.len() && !all_digits(words[from]) {
        lemma_first_number_index_bounds(words, from + 1);
    }
}

fn long_line(t: &[char]) -> (r: Option<ArchiveEntry>)
    requires
        split_ws(t@).len() >= 6,
    ensures
        match r {
            Some(e) => long_line_entry(t@) == Some(e@),
            None => long_line_entry(t@) is None,
        },
{
    let words = split_whitespace(t);
    let ghost ws = words.deep_view();
    let n = t.len();
    let w0 = &words[0];
    assert(ws[0] == w0@);
    let starts_d = w0.len() > 0 && w0[0] == 'd';
    proof {
        lemma_prefix_char(ws[0], 'd');
    }
    let ends_slash = n > 0 && t[n - 1] == '/';
    proof {
        lemma_suffix_char(t@, '/');
    }
    let is_dir = starts_d || ends_slash;
    let mut si: usize = 4;
    while si < words.len() && !check_all_digits(words[si].as_slice())
        invariant
            4 <= si <= words@.len(),
            ws == words.deep_view(),
            ws.len() >= 6,
            first_number_index(ws, 4) == first_number_index(ws, si as int),
        decreases words@.len() - si,
    {
        assert(ws[si as int] == words[si as int]@);
        si = si + 1;
    }
    assert(si < words@.len() ==> ws[si as int] == words[si as int]@);
    assert(first_number_index(ws, si as int) == si);
    let size: u64 = if si < words.len() {
        match parse_digits_u64(words[si].as_slice()) {
            Some(v) => v,
            None => 0,
        }
    } else {
        0
    };
    let has_date = words.len() >= 4 && si < words.len() - 3;
    let name_start = if has_date {
        si + 4
    } else {
        words.len() - 1
    };
    let modified = if has_date {
        let mut m = string_of(words[si + 1].as_slice());
        m.append(" ");
        m.append(string_of(words[si + 2].as_slice()).as_str());
        m.append(" ");
        m.append(string_of(words[si + 3].as_slice()).as_str());
        assert(ws[si + 1] == words[si + 1]@);
        assert(ws[si + 2] == words[si + 2]@);
        assert(ws[si + 3] == words[si + 3]@);
        proof {
            reveal_strlit(" ");
        }
        assert(m@ =~= ws[si + 1] + seq![' '] + ws[si + 2] + seq![' '] + ws[si + 3]);
        Some(m)
    } else {
        None
    };
    let name = join_words_from(&words, name_start, ' ');
    let dot_slash = chars_of("./");
    let dot_back = chars_of(".\\");
    let nl = name.len();
    let a = trim_start_pattern_at(name.as_slice(), 0, dot_slash.as_slice());
    assert(name@.subrange(0, nl as int) =~= name@);
    let b = trim_start_pattern_at(name.as_slice(), a, dot_back.as_slice());
    if b == nl {
        assert(name@.subrange(b as int, nl as int).len() == 0);
        return None;
    }
    let clean = string_of_range(name.as_slice(), b, nl);
    Some(entry_of(clean, is_dir, size, modified))
}

/// Reads one line of `tar -tvf` output (bsdtar format) into an entry; blank
/// lines and lines without a name give `None`.
pub fn parse_bsdtar_tvf_line(line: &str) -> (r: Option<ArchiveEntry>)
    ensures
        match r {
            Some(e) => tvf_line_entry(line@) == Some(e@),
            None => tvf_line_entry(line@) is None,
        },
{
    let v = chars_of(line);
    parse_tvf_chars(v.as_slice())
}

fn parse_tvf_chars(line: &[char]) -> (r: Option<ArchiveEntry>)
    ensures
        match r {
            Some(e) => tvf_line_entry(line@) == Some(e@),
            None => tvf_line_entry(line@) is None,
        },
{
    let (a, b) = trim_bounds(line);
    if a == b {
        return None;
    }
    let t = copy_range(line, a, b);
    let words = split_whitespace(t.as_slice());
    if words.len() < 6 {
        Some(short_line(t.as_slice()))
    } else {
        long_line(t.as_slice())
    }
}


// ---------------------------------------------------------------------------
// The whole `tar -tvf` output
// ---------------------------------------------------------------------------

/// A line without the carriage return that precedes its line feed.
pub open spec fn strip_cr(p: Seq<char>) -> Seq<char> {
    if p.len() > 0 && p.last() == '\r' {
        p.drop_last()
    } else {
        p
    }
}

/// `str::lines`: the text split at `\n` (and `\r\n`), without an empty piece
/// after a final line feed.
pub open spec fn lines_of(s: Seq<char>) -> Seq<Seq<char>> {
    let pieces = split_char(s, '\n');
    let body = pieces.drop_last().map_values(|p: Seq<char>| strip_cr(p));
    if pieces.last().len() > 0 {
        body.push(pieces.last())
    } else {
        body
    }
}

/// The entries read from a list of `tar -tvf` lines, in order.
pub open spec fn tvf_entries(lines: Seq<Seq<char>>) -> Seq<EntryView>
    decreases lines.len(),
{
    if lines.len() == 0 {
        seq![]
    } else {
        let before = tvf_entries(lines.drop_last());
        match tvf_line_entry(lines.last()) {
            Some(e) => before.push(e),
            None => before,
        }
    }
}

/// What an external tool reported: whether it exited successfully and what
/// it printed (decoded as UTF-8, invalid sequences replaced).
pub struct ToolOutput {
    pub success: bool,
    pub stdout: String,
    pub stderr: String,
}

fn strip_cr_chars(p: &[char]) -> (r: Vec<char>)
    ensures
        r@ == strip_cr(p@),
{
    let n = p.len();
    if n > 0 && p[n - 1] == '\r' {
        assert(p@.subrange(0, n - 1) =~= p@.drop_last());
        copy_range(p, 0, n - 1)
    } else {
        assert(p@.subrange(0, n as int) =~= p@);
        copy_range(p, 0, n)
    }
}

fn push_parsed(out: &mut Vec<ArchiveEntry>, line: &[char])
    ensures
        entries_view(final(out)@) == match tvf_line_entry(line@) {
            Some(e) => entries_view(old(out)@).push(e),
            None => entries_view(old(out)@),
        },
{
    match parse_tvf_chars(line) {
        Some(e) => {
            let ghost before = entries_view(out@);
            out.push(e);
            assert(entries_view(out@) =~= before.push(e@));
        },
        None => {},
    }
}

/// The entries listed in the standard output of `tar -tvf`.
pub fn parse_tvf_listing(stdout: &str) -> (r: Vec<ArchiveEntry>)
    ensures
        entries_view(r@) == tvf_entries(lines_of(stdout@)),
{
    let v = chars_of(stdout);
    let pieces = split_on(v.as_slice(), '\n');
    let ghost ps = pieces.deep_view();
    proof {
        crate::text::lemma_split_char_nonempty(v@, '\n');
    }
    let last = pieces.len() - 1;
    let mut out: Vec<ArchiveEntry> = Vec::new();
    let mut i: usize = 0;
    while i < last
        invariant
            i <= last,
            last + 1 == pieces@.len(),
            ps == pieces.deep_view(),
            ps == split_char(stdout@, '\n'),
            entries_view(out@) == tvf_entries(
                ps.take(i as int).map_values(|p: Seq<char>| strip_cr(p)),
            ),
        decreases last - i,
    {
        assert(ps[i as int] == pieces[i as int]@);
        let line = strip_cr_chars(pieces[i].as_slice());
        let ghost lines_next = ps.take(i + 1).map_values(|p: Seq<char>| strip_cr(p));
        assert(lines_next.drop_last() =~= ps.take(i as int).map_values(|p: Seq<char>| strip_cr(p)));
        assert(lines_next.last() == line@);
        push_parsed(&mut out, line.as_slice());
        i = i + 1;
    }
    assert(ps.take(last as int) =~= ps.drop_last());
    assert(ps[last as int] == pieces[last as int]@);
    if pieces[last].len() > 0 {
        let ghost body = ps.drop_last().map_values(|p: Seq<char>| strip_cr(p));
        assert(body.push(ps.last()).drop_last() =~= body);
        push_parsed(&mut out, pieces[last].as_slice());
    }
    out
}

/// The tool's failure as an error: `prefix` followed by its trimmed
/// standard error.
pub open spec fn tool_failure(output: ToolOutput, prefix: Seq<char>, e: ArchiveError) -> bool {
    is_error(e, ErrorKind::Other, prefix + trim_ws(output.stderr@))
}

/// `Ok` when the tool succeeded, otherwise an error made of `prefix` and the
/// trimmed standard error.
pub fn check_tool_output(output: &ToolOutput, prefix: &str) -> (r: Result<(), ArchiveError>)
    ensures
        output.success ==> r is Ok,
        !output.success ==> (r matches Err(e) && tool_failure(*output, prefix@, e)),
{
    if output.success {
        return Ok(());
    }
    let v = chars_of(output.stderr.as_str());
    let (a, b) = trim_bounds(v.as_slice());
    let detail = string_of_range(v.as_slice(), a, b);
    Err(error_with(ErrorKind::Other, prefix, detail.as_str()))
}

/// The listing of an archive read by `tar -tvf`: its entries when the tool
/// succeeded, otherwise the tool's error.
pub fn inspect_via_libarchive(output: &ToolOutput) -> (r: Result<Vec<ArchiveEntry>, ArchiveError>)
    ensures
        output.success ==> (r matches Ok(v) && entries_view(v@) == tvf_entries(
            lines_of(output.stdout@),
        )),
        !output.success ==> (r matches Err(e) && tool_failure(*output, "libarchive inspect error: "@, e)),
{
    match check_tool_output(output, "libarchive inspect error: ") {
        Ok(()) => Ok(parse_tvf_listing(output.stdout.as_str())),
        Err(e) => Err(e),
    }
}

/// The verdict of an integrity test run with `tar -tf`.
pub fn test_via_libarchive(output: &ToolOutput) -> (r: Result<(), ArchiveError>)
    ensures
        output.success ==> r is Ok,
        !output.success ==> (r matches Err(e) && tool_failure(*output, "libarchive test failed: "@, e)),
{
    check_tool_output(output, "libarchive test failed: ")
}

fn copy_range(v: &[char], from: usize, to: usize) -> (r: Vec<char>)
    requires
        from <= to <= v@.len(),
    ensures
        r@ == v@.subrange(from as int, to as int),
{
    let mut r: Vec<char> = Vec::new();
    let mut i = from;
    while i < to
        invariant
            from <= i <= to <= v@.len(),
            r@ == v@.subrange(from as int, i as int),
        decreases to - i,
    {
        r.push(v[i]);
        assert(v@.subrange(from as int, i as int).push(v@[i as int]) =~= v@.subrange(
            from as int,
            i + 1,
        ));
        i = i + 1;
    }
    r
}

} // verus!
