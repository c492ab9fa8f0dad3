//! Desktop file associations: the extensions the application registers, the
//! decisions made when associations are applied or read back, and the
//! commands that apply them.
use vstd::prelude::*;
use crate::disk_image::{eq_ignore_case, lower_ascii};
use crate::text::ascii_lower;
use crate::text::{
    chars_eq, chars_of, copy_string, matches_at, split_char, split_on, string_of,
    string_of_range, trim_bounds, trim_start_char, trim_start_char_at, trim_ws, join_with,
    join_words_from,
};

verus! {

broadcast use vstd::string::group_string_axioms;

/// An extension the application can be associated with, with the
/// registry program id, its description and the icon file.
#[derive(Debug, Clone, Copy)]
pub struct AssociationItem {
    pub ext: &'static str,
    pub prog_id: &'static str,
    pub description: &'static str,
    pub icon_name: &'static str,
}

pub struct AssociationView {
    pub ext: Seq<char>,
    pub prog_id: Seq<char>,
    pub description: Seq<char>,
    pub icon_name: Seq<char>,
}

impl View for AssociationItem {
    type V = AssociationView;

    open spec fn view(&self) -> AssociationView {
        AssociationView {
            ext: self.ext@,
            prog_id: self.prog_id@,
            description: self.description@,
            icon_name: self.icon_name@,
        }
    }
}

/// The supported associations, in registration order.
pub open spec fn association_table() -> Seq<AssociationView> {
    seq![
        AssociationView { ext: "zip"@, prog_id: "MatterPackr.zip"@, description: "ZIP Archive"@, icon_name: "archive.ico"@ },
        AssociationView { ext: "7z"@, prog_id: "MatterPackr.7z"@, description: "7-Zip Archive"@, icon_name: "archive.ico"@ },
        AssociationView { ext: "rar"@, prog_id: "MatterPackr.rar"@, description: "RAR Archive"@, icon_name: "archive.ico"@ },
        AssociationView { ext: "tar"@, prog_id: "MatterPackr.tar"@, description: "TAR Archive"@, icon_name: "archive.ico"@ },
        AssociationView { ext: "tgz"@, prog_id: "MatterPackr.tgz"@, description: "GZ Compressed TAR Archive"@, icon_name: "archive.ico"@ },
        AssociationView { ext: "tbz2"@, prog_id: "MatterPackr.tbz2"@, description: "BZip2 Compressed TAR Archive"@, icon_name: "archive.ico"@ },
        AssociationView { ext: "txz"@, prog_id: "MatterPackr.txz"@, description: "XZ Compressed TAR Archive"@, icon_name: "archive.ico"@ },
        AssociationView { ext: "gz"@, prog_id: "MatterPackr.gz"@, description: "GZip File"@, icon_name: "archive.ico"@ },
        AssociationView { ext: "bz2"@, prog_id: "MatterPackr.bz2"@, description: "BZip2 File"@, icon_name: "archive.ico"@ },
        AssociationView { ext: "iso"@, prog_id: "MatterPackr.iso"@, description: "ISO Disk Image"@, icon_name: "archive.ico"@ },
        AssociationView { ext: "img"@, prog_id: "MatterPackr.img"@, description: "Disk Image"@, icon_name: "archive.ico"@ },
        AssociationView { ext: "cab"@, prog_id: "MatterPackr.cab"@, description: "Cabinet Archive"@, icon_name: "archive.ico"@ },
        AssociationView { ext: "cpio"@, prog_id: "MatterPackr.cpio"@, description: "CPIO Archive"@, icon_name: "archive.ico"@ },
        AssociationView { ext: "ar"@, prog_id: "MatterPackr.ar"@, description: "UNIX Archive"@, icon_name: "archive.ico"@ },
        AssociationView { ext: "a"@, prog_id: "MatterPackr.a"@, description: "Static Library Archive"@, icon_name: "archive.ico"@ }
    ]
}

pub open spec fn associations_view(v: Seq<AssociationItem>) -> Seq<AssociationView> {
    v.map_values(|a: AssociationItem| a@)
}

/// The supported associations.
pub fn supported_associations() -> (v: Vec<AssociationItem>)
    ensures
        associations_view(v@) == association_table(),
{
    let mut v: Vec<AssociationItem> = Vec::new();
    v.push(AssociationItem { ext: "zip", prog_id: "MatterPackr.zip", description: "ZIP Archive", icon_name: "archive.ico" });
    v.push(AssociationItem { ext: "7z", prog_id: "MatterPackr.7z", description: "7-Zip Archive", icon_name: "archive.ico" });
    v.push(AssociationItem { ext: "rar", prog_id: "MatterPackr.rar", description: "RAR Archive", icon_name: "archive.ico" });
    v.push(AssociationItem { ext: "tar", prog_id: "MatterPackr.tar", description: "TAR Archive", icon_name: "archive.ico" });
    v.push(AssociationItem { ext: "tgz", prog_id: "MatterPackr.tgz", description: "GZ Compressed TAR Archive", icon_name: "archive.ico" });
    v.push(AssociationItem { ext: "tbz2", prog_id: "MatterPackr.tbz2", description: "BZip2 Compressed TAR Archive", icon_name: "archive.ico" });
    v.push(AssociationItem { ext: "txz", prog_id: "MatterPackr.txz", description: "XZ Compressed TAR Archive", icon_name: "archive.ico" });
    v.push(AssociationItem { ext: "gz", prog_id: "MatterPackr.gz", description: "GZip File", icon_name: "archive.ico" });
    v.push(AssociationItem { ext: "bz2", prog_id: "MatterPackr.bz2", description: "BZip2 File", icon_name: "archive.ico" });
    v.push(AssociationItem { ext: "iso", prog_id: "MatterPackr.iso", description: "ISO Disk Image", icon_name: "archive.ico" });
    v.push(AssociationItem { ext: "img", prog_id: "MatterPackr.img", description: "Disk Image", icon_name: "archive.ico" });
    v.push(AssociationItem { ext: "cab", prog_id: "MatterPackr.cab", description: "Cabinet Archive", icon_name: "archive.ico" });
    v.push(AssociationItem { ext: "cpio", prog_id: "MatterPackr.cpio", description: "CPIO Archive", icon_name: "archive.ico" });
    v.push(AssociationItem { ext: "ar", prog_id: "MatterPackr.ar", description: "UNIX Archive", icon_name: "archive.ico" });
    v.push(AssociationItem { ext: "a", prog_id: "MatterPackr.a", description: "Static Library Archive", icon_name: "archive.ico" });
    assert(associations_view(v@) =~= association_table());
    v
}

/// The extensions reported as associated where associations are not read
/// from a registry: all supported extensions.
pub fn get_registered_associations() -> (r: Vec<String>)
    ensures
        r.deep_view() == association_table().map_values(|a: AssociationView| a.ext),
{
    let items = supported_associations();
    let mut r: Vec<String> = Vec::new();
    let mut i: usize = 0;
    while i < items.len()
        invariant
            i <= items@.len(),
            associations_view(items@) == association_table(),
            r.deep_view() == association_table().take(i as int).map_values(
                |a: AssociationView| a.ext,
            ),
        decreases items@.len() - i,
    {
        let ghost before = r.deep_view();
        let ext = String::from_str(items[i].ext);
        assert(ext@ == items[i as int].ext@);
        r.push(ext);
        assert(associations_view(items@)[i as int] == items[i as int]@);
        assert(association_table()[i as int] == items[i as int]@);
        assert(r.deep_view() =~= before.push(items[i as int].ext@));
        assert(r.deep_view() =~= association_table().take(i + 1).map_values(
            |a: AssociationView| a.ext,
        ));
        i = i + 1;
    }
    assert(association_table().take(items@.len() as int) =~= association_table());
    r
}

// ---------------------------------------------------------------------------
// Reading associations back
// ---------------------------------------------------------------------------

/// `needle` occurs in `hay`.
pub open spec fn contains_text(hay: Seq<char>, needle: Seq<char>) -> bool {
    exists|k: int| 0 <= k <= hay.len() - needle.len() && #[trigger] hay.subrange(k, k + needle.len()) == needle
}

pub fn contains_str(hay: &[char], needle: &[char]) -> (r: bool)
    ensures
        r == contains_text(hay@, needle@),
{
    if needle.len() == 0 {
        assert(hay@.subrange(0int, 0int + needle@.len()) =~= needle@);
        return true;
    }
    if needle.len() > hay.len() {
        return false;
    }
    let hl = hay.len();
    let last = hay.len() - needle.len();
    let mut k: usize = 0;
    while k <= last
        invariant
            last + needle@.len() == hay@.len(),
            hl == hay@.len(),
            needle@.len() >= 1,
            k <= last + 1,
            forall|j: int| 0 <= j < k ==> #[trigger] hay@.subrange(j, j + needle@.len()) != needle@,
        decreases last + 1 - k,
    {
        if matches_at(hay, k, needle) {
            return true;
        }
        k = k + 1;
    }
    false
}

/// A registry default value points at our program id: it equals the id up to
/// ASCII case, or contains it.
pub open spec fn value_names_program(value: Seq<char>, prog_id: Seq<char>) -> bool {
    eq_ignore_case(value, prog_id) || contains_text(value, prog_id)
}

/// The extensions of the supported associations, in table order, whose
/// registry value names our program.
pub open spec fn registered_from(values: Seq<Option<Seq<char>>>, n: int) -> Seq<Seq<char>>
    decreases n,
{
    if n <= 0 {
        seq![]
    } else {
        let before = registered_from(values, n - 1);
        let a = association_table()[n - 1];
        match values[n - 1] {
            Some(v) => if value_names_program(v, a.prog_id) {
                before.push(a.ext)
            } else {
                before
            },
            None => before,
        }
    }
}

fn eq_ignore_case_exec(a: &[char], b: &[char]) -> (r: bool)
    ensures
        r == eq_ignore_case(a@, b@),
{
    if a.len() != b.len() {
        assert(lower_ascii(a@).len() != lower_ascii(b@).len());
        return false;
    }
    let mut i: usize = 0;
    while i < a.len()
        invariant
            a@.len() == b@.len(),
            i <= a@.len(),
            forall|k: int| 0 <= k < i ==> ascii_lower(#[trigger] a@[k]) == ascii_lower(b@[k]),
        decreases a@.len() - i,
    {
        let x = a[i];
        let y = b[i];
        let lx = if 'A' <= x && x <= 'Z' { ((x as u8) + 32) as char } else { x };
        let ly = if 'A' <= y && y <= 'Z' { ((y as u8) + 32) as char } else { y };
        if lx != ly {
            assert(lower_ascii(a@)[i as int] != lower_ascii(b@)[i as int]);
            return false;
        }
        i = i + 1;
    }
    assert(lower_ascii(a@) =~= lower_ascii(b@));
    true
}

/// Whether an association that is no longer selected may be removed: only when
/// the output of querying its extension key names our program id, so that an
/// association another program owns is left alone.
pub fn query_names_program(query_output: &str, prog_id: &str) -> (r: bool)
    ensures
        r == contains_text(query_output@, prog_id@),
{
    let hay = chars_of(query_output);
    let needle = chars_of(prog_id);
    contains_str(hay.as_slice(), needle.as_slice())
}

/// The associated extensions, from the registry default value read for each
/// supported association (in table order; `None` when the key is missing).
pub fn registered_associations_from(values: &Vec<Option<String>>) -> (r: Vec<String>)
    requires
        values@.len() == association_table().len(),
    ensures
        r.deep_view() == registered_from(values.deep_view(), association_table().len() as int),
{
    let items = supported_associations();
    let ghost vv = values.deep_view();
    let mut r: Vec<String> = Vec::new();
    let mut i: usize = 0;
    while i < items.len()
        invariant
            i <= items@.len(),
            items@.len() == values@.len(),
            vv == values.deep_view(),
            associations_view(items@) == association_table(),
            r.deep_view() == registered_from(vv, i as int),
        decreases items@.len() - i,
    {
        let item = items[i];
        assert(association_table()[i as int] == item@);
        assert(vv[i as int] == match values[i as int] { Some(s) => Some(s@), None => None::<Seq<char>> });
        match &values[i] {
            Some(v) => {
                let vc = chars_of(v.as_str());
                let pc = chars_of(item.prog_id);
                if eq_ignore_case_exec(vc.as_slice(), pc.as_slice()) || contains_str(vc.as_slice(), pc.as_slice()) {
                    let ghost before = r.deep_view();
                    r.push(String::from_str(item.ext));
                    assert(r.deep_view() =~= before.push(item.ext@));
                }
            },
            None => {},
        }
        i = i + 1;
    }
    r
}

// ---------------------------------------------------------------------------
// Applying associations
// ---------------------------------------------------------------------------

/// The user selected extension `ext`: some selected name, without leading
/// dots, equals it up to ASCII case.
pub open spec fn is_selected_spec(ext: Seq<char>, selected: Seq<Seq<char>>) -> bool {
    exists|i: int| 0 <= i < selected.len() && #[trigger] eq_ignore_case(trim_start_char(selected[i], '.'), ext)
}

pub fn is_selected(ext: &str, selected: &Vec<String>) -> (r: bool)
    ensures
        r == is_selected_spec(ext@, selected.deep_view()),
{
    let e = chars_of(ext);
    let ghost sv = selected.deep_view();
    let mut i: usize = 0;
    while i < selected.len()
        invariant
            i <= selected@.len(),
            sv == selected.deep_view(),
            e@ == ext@,
            forall|k: int| 0 <= k < i ==> !#[trigger] eq_ignore_case(trim_start_char(sv[k], '.'), ext@),
        decreases selected@.len() - i,
    {
        let s = chars_of(selected[i].as_str());
        assert(sv[i as int] == s@);
        let a = trim_start_char_at(s.as_slice(), 0, s.len(), '.');
        assert(s@.subrange(0, s@.len() as int) =~= s@);
        let t = crate::text::sub_chars(s.as_slice(), a, s.len());
        if eq_ignore_case_exec(t.as_slice(), e.as_slice()) {
            return true;
        }
        i = i + 1;
    }
    false
}

/// The registry keys written for one association.
#[derive(Debug)]
pub struct RegistryKeys {
    pub ext_key: String,
    pub prog_key: String,
    pub icon_key: String,
    pub command_key: String,
}

/// `HKCR\.ext`, `HKCR\prog`, `HKCR\prog\DefaultIcon` and
/// `HKCR\prog\shell\open\command`.
pub fn association_keys(item: &AssociationItem) -> (r: RegistryKeys)
    ensures
        r.ext_key@ == "HKCR\\."@ + item.ext@,
        r.prog_key@ == "HKCR\\"@ + item.prog_id@,
        r.icon_key@ == "HKCR\\"@ + item.prog_id@ + "\\DefaultIcon"@,
        r.command_key@ == "HKCR\\"@ + item.prog_id@ + "\\shell\\open\\command"@,
{
    let mut ext_key = String::from_str("HKCR\\.");
    ext_key.append(item.ext);
    let mut prog_key = String::from_str("HKCR\\");
    prog_key.append(item.prog_id);
    let mut icon_key = String::from_str("HKCR\\");
    icon_key.append(item.prog_id);
    icon_key.append("\\DefaultIcon");
    let mut command_key = String::from_str("HKCR\\");
    command_key.append(item.prog_id);
    command_key.append("\\shell\\open\\command");
    RegistryKeys { ext_key, prog_key, icon_key, command_key }
}

/// The icon registered for an association: the first icon file found,
/// quoted; otherwise the executable's first icon resource.
pub fn icon_value(found_icon: Option<&str>, exe: &str) -> (r: String)
    ensures
        match found_icon {
            Some(p) => r@ == "\""@ + p@ + "\""@,
            None => r@ == "\""@ + exe@ + "\",0"@,
        },
{
    match found_icon {
        Some(p) => {
            let mut r = String::from_str("\"");
            r.append(p);
            r.append("\"");
            r
        },
        None => {
            let mut r = String::from_str("\"");
            r.append(exe);
            r.append("\",0");
            r
        },
    }
}

/// The open command registered for an association: the quoted executable
/// and the quoted file argument.
pub fn open_command(exe: &str) -> (r: String)
    ensures
        r@ == "\""@ + exe@ + "\" \"%1\""@,
{
    let mut r = String::from_str("\"");
    r.append(exe);
    r.append("\" \"%1\"");
    r
}

// ---------------------------------------------------------------------------
// The elevated helper process
// ---------------------------------------------------------------------------

/// The extensions requested on the command line with
/// `--set-associations a,b,...`: the pieces of the argument after the flag
/// (empty when missing), trimmed, without leading dots, empty ones dropped.
pub open spec fn requested_exts(pieces: Seq<Seq<char>>) -> Seq<Seq<char>>
    decreases pieces.len(),
{
    if pieces.len() == 0 {
        seq![]
    } else {
        let before = requested_exts(pieces.drop_last());
        let e = trim_start_char(trim_ws(pieces.last()), '.');
        if e.len() > 0 {
            before.push(e)
        } else {
            before
        }
    }
}

/// The index of the first `--set-associations` flag, if any.
pub open spec fn flag_index(args: Seq<Seq<char>>) -> Option<int> {
    if exists|i: int| 0 <= i < args.len() && #[trigger] args[i] == "--set-associations"@ {
        Some(choose|i: int| 0 <= i < args.len() && #[trigger] args[i] == "--set-associations"@ && forall|k: int| 0 <= k < i ==> args[k] != "--set-associations"@)
    } else {
        None
    }
}

/// The extensions to associate when the program was started as the elevated
/// helper (`--set-associations`), or `None` for a normal start.
pub fn parse_association_args(args: &Vec<String>) -> (r: Option<Vec<String>>)
    ensures
        match flag_index(args.deep_view()) {
            None => r is None,
            Some(i) => r matches Some(v) && v.deep_view() == requested_exts(split_char(
                if i + 1 < args@.len() {
                    args.deep_view()[i + 1]
                } else {
                    seq![]
                },
                ',',
            )),
        },
{
    let ghost av = args.deep_view();
    let flag = chars_of("--set-associations");
    let mut i: usize = 0;
    while i < args.len()
        invariant
            i <= args@.len(),
            av == args.deep_view(),
            flag@ == "--set-associations"@,
            forall|k: int| 0 <= k < i ==> av[k] != "--set-associations"@,
        decreases args@.len() - i,
    {
        let a = chars_of(args[i].as_str());
        assert(av[i as int] == a@);
        if chars_eq(a.as_slice(), flag.as_slice()) {
            proof {
                assert(av[i as int] == "--set-associations"@);
                let j = choose|j: int| 0 <= j < av.len() && #[trigger] av[j] == "--set-associations"@ && forall|k: int| 0 <= k < j ==> av[k] != "--set-associations"@;
                if j < i {
                } else if j > i {
                    assert(av[i as int] != "--set-associations"@);
                }
            }
            let value = if i + 1 < args.len() {
                assert(av[i + 1] == args[i + 1 as int]@);
                chars_of(args[i + 1].as_str())
            } else {
                Vec::new()
            };
            let pieces = split_on(value.as_slice(), ',');
            let ghost pv = pieces.deep_view();
            let mut out: Vec<String> = Vec::new();
            let mut k: usize = 0;
            while k < pieces.len()
                invariant
                    k <= pieces@.len(),
                    pv == pieces.deep_view(),
                    out.deep_view() == requested_exts(pv.take(k as int)),
                decreases pieces@.len() - k,
            {
                assert(pv.take(k + 1).drop_last() =~= pv.take(k as int));
                assert(pv[k as int] == pieces[k as int]@);
                let p = &pieces[k];
                let (x, y) = trim_bounds(p.as_slice());
                let z = trim_start_char_at(p.as_slice(), x, y, '.');
                if z < y {
                    let ghost before = out.deep_view();
                    out.push(string_of_range(p.as_slice(), z, y));
                    assert(out.deep_view() =~= before.push(p@.subrange(z as int, y as int)));
                }
                k = k + 1;
            }
            assert(pv.take(pieces@.len() as int) =~= pv);
            return Some(out);
        }
        i = i + 1;
    }
    None
}

/// `s` with every `'` doubled (PowerShell single-quoted strings).
pub open spec fn double_quotes(s: Seq<char>) -> Seq<char>
    decreases s.len(),
{
    if s.len() == 0 {
        seq![]
    } else if s.last() == '\'' {
        double_quotes(s.drop_last()) + seq!['\'', '\'']
    } else {
        double_quotes(s.drop_last()).push(s.last())
    }
}

fn push_doubled(out: &mut Vec<char>, s: &[char])
    ensures
        final(out)@ == old(out)@ + double_quotes(s@),
{
    let ghost base = out@;
    let mut i: usize = 0;
    while i < s.len()
        invariant
            i <= s@.len(),
            out@ == base + double_quotes(s@.take(i as int)),
        decreases s@.len() - i,
    {
        assert(s@.take(i + 1).drop_last() =~= s@.take(i as int));
        let c = s[i];
        if c == '\'' {
            out.push('\'');
            out.push('\'');
        } else {
            out.push(c);
        }
        assert(out@ =~= base + double_quotes(s@.take(i + 1)));
        i = i + 1;
    }
    assert(s@.take(s@.len() as int) =~= s@);
}

/// The PowerShell command that restarts the program elevated with
/// `--set-associations` and the selected extensions joined by commas.
pub fn elevation_command(exe: &str, selected: &Vec<String>) -> (r: String)
    ensures
        r@ == "Start-Process -FilePath '"@ + double_quotes(exe@) + "' -ArgumentList '"@
            + double_quotes("--set-associations "@ + join_with(selected.deep_view(), ','))
            + "' -Verb RunAs -Wait -WindowStyle Hidden"@,
{
    let mut parts: Vec<Vec<char>> = Vec::new();
    let mut i: usize = 0;
    while i < selected.len()
        invariant
            i <= selected@.len(),
            parts.deep_view() == selected.deep_view().take(i as int),
        decreases selected@.len() - i,
    {
        let ghost before = parts.deep_view();
        let c = chars_of(selected[i].as_str());
        assert(c.deep_view() =~= c@);
        assert(selected.deep_view()[i as int] == c@);
        parts.push(c);
        assert(parts.deep_view() =~= before.push(selected.deep_view()[i as int]));
        assert(parts.deep_view() =~= selected.deep_view().take(i + 1));
        i = i + 1;
    }
    assert(selected.deep_view().take(selected@.len() as int) =~= selected.deep_view());
    let joined = join_words_from(&parts, 0, ',');
    assert(parts.deep_view().subrange(0, parts@.len() as int) =~= parts.deep_view());
    let mut arg = chars_of("--set-associations ");
    let mut k: usize = 0;
    let ghost prefix = arg@;
    while k < joined.len()
        invariant
            k <= joined@.len(),
            arg@ == prefix + joined@.take(k as int),
        decreases joined@.len() - k,
    {
        arg.push(joined[k]);
        assert(joined@.take(k + 1) =~= joined@.take(k as int).push(joined@[k as int]));
        k = k + 1;
    }
    assert(joined@.take(joined@.len() as int) =~= joined@);
    let exe_chars = chars_of(exe);
    let mut out = chars_of("Start-Process -FilePath '");
    push_doubled(&mut out, exe_chars.as_slice());
    let mid = chars_of("' -ArgumentList '");
    let mut j: usize = 0;
    let ghost base = out@;
    while j < mid.len()
        invariant
            j <= mid@.len(),
            out@ == base + mid@.take(j as int),
        decreases mid@.len() - j,
    {
        out.push(mid[j]);
        assert(mid@.take(j + 1) =~= mid@.take(j as int).push(mid@[j as int]));
        j = j + 1;
    }
    assert(mid@.take(mid@.len() as int) =~= mid@);
    push_doubled(&mut out, arg.as_slice());
    let mut r = string_of(out.as_slice());
    r.append("' -Verb RunAs -Wait -WindowStyle Hidden");
    r
}

/// The outcome of the elevated helper: success; a cancellation when its error
/// output mentions it or it exited with code 1; otherwise a failure with its
/// trimmed error output.
pub fn elevation_outcome(success: bool, code: Option<i32>, stderr: &str) -> (r: Result<(), String>)
    ensures
        success ==> r is Ok,
        !success && (contains_text(stderr@, "cancelled"@) || contains_text(stderr@, "canceled"@)
            || code == Some(1i32)) ==> (r matches Err(m) && m@
            == "Administrator elevation was cancelled by user."@),
        !success && !(contains_text(stderr@, "cancelled"@) || contains_text(stderr@, "canceled"@)
            || code == Some(1i32)) ==> (r matches Err(m) && m@ == "Elevation failed: "@ + trim_ws(
            stderr@,
        )),
{
    if success {
        return Ok(());
    }
    let e = chars_of(stderr);
    let c1 = chars_of("cancelled");
    let c2 = chars_of("canceled");
    let one = match code {
        Some(c) => c == 1,
        None => false,
    };
    if contains_str(e.as_slice(), c1.as_slice()) || contains_str(e.as_slice(), c2.as_slice()) || one {
        Err(String::from_str("Administrator elevation was cancelled by user."))
    } else {
        let (a, b) = trim_bounds(e.as_slice());
        let mut m = String::from_str("Elevation failed: ");
        m.append(string_of_range(e.as_slice(), a, b).as_str());
        Err(m)
    }
}

} // verus!
