//! Agreement between the format catalog shown to users and the engines that
//! the backend dispatches to: what the catalog advertises is what the
//! backend does.
use vstd::prelude::*;
use crate::dispatch::{create_engine_of, encryption_engine_of, read_engine_of, remove_engine_of};
use crate::associations::association_table;
use crate::models::{catalog_spec, format_of_names, format_of_path, in_catalog, or_empty, FormatView};
use crate::paths::{extension_of, file_name_of, is_dot, is_dotdot, slash_file_name_of};
use crate::text::{
    ascii_lower, has_suffix, is_ascii_text, last_index_of, lemma_last_index_of, lower_text, replace_char,
};

verus! {

/// `f` is the id of catalog entry `i`.
pub open spec fn catalog_id(f: Seq<char>, i: int) -> bool {
    0 <= i < catalog_spec().len() && catalog_spec()[i].id == f
}

/// Every catalog format can be opened, extracted, tested and viewed, and a
/// format has a reading engine exactly when it is in the catalog.
pub proof fn lemma_readable_formats_are_the_catalog(f: Seq<char>)
    ensures
        (read_engine_of(f) is Some) <==> (exists|i: int| #[trigger] catalog_id(f, i)),
        forall|i: int|
            #![trigger catalog_spec()[i]]
            0 <= i < catalog_spec().len() ==> catalog_spec()[i].implemented
                && catalog_spec()[i].can_extract && catalog_spec()[i].can_test
                && catalog_spec()[i].can_view,
{
    let c = catalog_spec();
    if read_engine_of(f) is Some {
        if f == "zip"@ {
            assert(catalog_id(f, 0));
        } else if f == "7z"@ {
            assert(catalog_id(f, 1));
        } else if f == "rar"@ {
            assert(catalog_id(f, 5));
        } else if f == "gz"@ {
            assert(catalog_id(f, 4));
        } else if f == "bz2"@ {
            assert(catalog_id(f, 9));
        } else if f == "iso"@ {
            assert(catalog_id(f, 11));
        } else if f == "img"@ {
            assert(catalog_id(f, 12));
        } else if f == "tar"@ {
            assert(catalog_id(f, 2));
        } else if f == "tar.gz"@ {
            assert(catalog_id(f, 3));
        } else if f == "tar.bz2"@ {
            assert(catalog_id(f, 6));
        } else if f == "tar.xz"@ {
            assert(catalog_id(f, 7));
        } else if f == "tar.zst"@ {
            assert(catalog_id(f, 8));
        } else if f == "cab"@ {
            assert(catalog_id(f, 10));
        } else if f == "cpio"@ {
            assert(catalog_id(f, 13));
        } else {
            assert(catalog_id(f, 14));
        }
    }
    assert forall|i: int| #[trigger] catalog_id(f, i) implies read_engine_of(f) is Some by {
        assert(0 <= i < 15);
    }
}

/// Exactly ZIP, 7Z, TAR, TAR.GZ and GZ are advertised as creatable,
/// extendable and shrinkable; every other catalog format is read-only.
pub proof fn lemma_full_formats()
    ensures
        forall|i: int|
            #![trigger catalog_spec()[i]]
            0 <= i < catalog_spec().len() ==> (catalog_spec()[i].can_create
                <==> (catalog_spec()[i].id == "zip"@ || catalog_spec()[i].id == "7z"@
                || catalog_spec()[i].id == "tar"@ || catalog_spec()[i].id == "tar.gz"@
                || catalog_spec()[i].id == "gz"@)),
        forall|i: int|
            #![trigger catalog_spec()[i]]
            0 <= i < catalog_spec().len() ==> catalog_spec()[i].can_add == catalog_spec()[i].can_create
                && catalog_spec()[i].can_remove == catalog_spec()[i].can_create,
{
    reveal_strlit("zip");
    reveal_strlit("7z");
    reveal_strlit("tar");
    reveal_strlit("tar.gz");
    reveal_strlit("gz");
    reveal_strlit("rar");
    reveal_strlit("tar.bz2");
    reveal_strlit("tar.xz");
    reveal_strlit("tar.zst");
    reveal_strlit("bz2");
    reveal_strlit("cab");
    reveal_strlit("iso");
    reveal_strlit("img");
    reveal_strlit("cpio");
    reveal_strlit("ar");
    assert forall|i: int|
        #![trigger catalog_spec()[i]]
        0 <= i < catalog_spec().len() implies (catalog_spec()[i].can_create <==> (
        catalog_spec()[i].id == "zip"@ || catalog_spec()[i].id == "7z"@ || catalog_spec()[i].id
            == "tar"@ || catalog_spec()[i].id == "tar.gz"@ || catalog_spec()[i].id == "gz"@)) by {
        let id = catalog_spec()[i].id;
        if i >= 5 {
            assert("zip"@[0] == 'z' && "zip"@.len() == 3);
            assert("7z"@[0] == '7' && "7z"@.len() == 2);
            assert("tar"@[0] == 't' && "tar"@.len() == 3);
            assert("gz"@[0] == 'g' && "gz"@.len() == 2);
            assert("tar.gz"@[4] == 'g' && "tar.gz"@.len() == 6);
            assert(id.len() != 3 || id[0] != 'z' && id[0] != 't');
            assert(id.len() != 2 || id[0] != '7' && id[0] != 'g');
            assert(id.len() != 6 || id[4] != 'g');
        }
    }
}

/// A format can be created exactly when the catalog says so.
pub proof fn lemma_create_matches_catalog(f: Seq<char>)
    ensures
        (create_engine_of(f) is Some) <==> (exists|i: int|
            #[trigger] catalog_id(f, i) && catalog_spec()[i].can_create),
{
    if create_engine_of(f) is Some {
        if f == "zip"@ {
            assert(catalog_id(f, 0));
        } else if f == "7z"@ {
            assert(catalog_id(f, 1));
        } else if f == "tar"@ {
            assert(catalog_id(f, 2));
        } else if f == "tar.gz"@ {
            assert(catalog_id(f, 3));
        } else {
            assert(catalog_id(f, 4));
        }
    }
    assert forall|i: int| #[trigger] catalog_id(f, i) && catalog_spec()[i].can_create implies create_engine_of(
        f,
    ) is Some by {
        assert(0 <= i < 5);
    }
}

/// Files can be added to a format exactly when the catalog says so.
pub proof fn lemma_add_matches_catalog(f: Seq<char>)
    ensures
        (create_engine_of(f) is Some) <==> (exists|i: int|
            #[trigger] catalog_id(f, i) && catalog_spec()[i].can_add),
{
    lemma_create_matches_catalog(f);
    lemma_full_formats();
    if create_engine_of(f) is Some {
        let i = choose|i: int| #[trigger] catalog_id(f, i) && catalog_spec()[i].can_create;
        assert(catalog_id(f, i) && catalog_spec()[i].can_add);
    }
    assert forall|i: int| #[trigger] catalog_id(f, i) && catalog_spec()[i].can_add implies create_engine_of(
        f,
    ) is Some by {
        assert(catalog_spec()[i].can_create);
    }
}

/// Entries can be removed from a format exactly when the catalog says so.
pub proof fn lemma_remove_matches_catalog(f: Seq<char>)
    ensures
        (remove_engine_of(f) is Some) <==> (exists|i: int|
            #[trigger] catalog_id(f, i) && catalog_spec()[i].can_remove),
{
    lemma_create_matches_catalog(f);
    lemma_full_formats();
    if remove_engine_of(f) is Some {
        let i = choose|i: int| #[trigger] catalog_id(f, i) && catalog_spec()[i].can_create;
        assert(catalog_id(f, i) && catalog_spec()[i].can_remove);
    }
    assert forall|i: int| #[trigger] catalog_id(f, i) && catalog_spec()[i].can_remove implies remove_engine_of(
        f,
    ) is Some by {
        assert(catalog_spec()[i].can_create);
    }
}

/// Encryption is checked exactly for the formats the catalog marks as
/// supporting passwords (ZIP, 7Z, RAR).
pub proof fn lemma_password_formats(f: Seq<char>)
    ensures
        (encryption_engine_of(f) is Some) <==> (exists|i: int|
            #[trigger] catalog_id(f, i) && catalog_spec()[i].password_support),
{
    if encryption_engine_of(f) is Some {
        if f == "zip"@ {
            assert(catalog_id(f, 0));
        } else if f == "7z"@ {
            assert(catalog_id(f, 1));
        } else {
            assert(catalog_id(f, 5));
        }
    }
    assert forall|i: int| #[trigger] catalog_id(f, i) && catalog_spec()[i].password_support implies encryption_engine_of(
        f,
    ) is Some by {
        assert(i == 0 || i == 1 || i == 5);
    }
}

/// Creating with a password is accepted exactly for the formats the catalog
/// marks as encryptable (ZIP and 7Z).
pub proof fn lemma_encrypt_formats(f: Seq<char>)
    ensures
        (f == "zip"@ || f == "7z"@) <==> (exists|i: int|
            #[trigger] catalog_id(f, i) && catalog_spec()[i].can_encrypt),
{
    if f == "zip"@ {
        assert(catalog_id(f, 0));
    } else if f == "7z"@ {
        assert(catalog_id(f, 1));
    }
    assert forall|i: int| #[trigger] catalog_id(f, i) && catalog_spec()[i].can_encrypt implies (f
        == "zip"@ || f == "7z"@) by {
        assert(i == 0 || i == 1);
    }
}

/// Every extension offered for association names a format that the backend
/// reads: a (lowercase) file name ending in `.ext` is detected as a format
/// with a reading engine.
pub proof fn lemma_associations_are_readable(i: int, stem: Seq<char>)
    requires
        0 <= i < association_table().len(),
    ensures
        ({
            let e = association_table()[i].ext;
            read_engine_of(format_of_names(stem + "."@ + e, e)) is Some
        }),
{
    reveal_strlit(".");
    reveal_strlit(".tgz");
    reveal_strlit(".tbz2");
    reveal_strlit(".txz");
    reveal_strlit("tgz");
    reveal_strlit("tbz2");
    reveal_strlit("txz");
    let e = association_table()[i].ext;
    let name = stem + "."@ + e;
    if i == 4 || i == 5 || i == 6 {
        assert(name.subrange(name.len() - (e.len() + 1), name.len() as int) =~= "."@ + e);
        if i == 4 {
            assert("."@ + e =~= ".tgz"@);
        } else if i == 5 {
            assert("."@ + e =~= ".tbz2"@);
        } else {
            assert("."@ + e =~= ".txz"@);
        }
    }
}

/// Every association registers the shared archive icon.
pub proof fn lemma_associations_use_archive_icon(i: int)
    requires
        0 <= i < association_table().len(),
    ensures
        association_table()[i].icon_name == "archive.ico"@,
{
}

/// A name whose extension is `e` ends with `.` followed by `e`.
proof fn lemma_extension_suffix(l: Seq<char>, e: Seq<char>)
    requires
        extension_of(l) == Some(e),
    ensures
        has_suffix(l, seq!['.'] + e),
{
    lemma_last_index_of(l, '.');
    let k = last_index_of(l, '.');
    assert(l.subrange(l.len() - (e.len() + 1), l.len() as int) =~= seq!['.'] + e);
}

/// The detected format of a path is never one of the alias extensions
/// (`tgz`, `tbz2`, `txz`, `a`): those names are detected as the format they
/// stand for.
pub proof fn lemma_detected_format_not_alias(p: Seq<char>)
    ensures
        format_of_path(p) != "tgz"@,
        format_of_path(p) != "tbz2"@,
        format_of_path(p) != "txz"@,
        format_of_path(p) != "a"@,
{
    reveal_strlit("tgz");
    reveal_strlit("tbz2");
    reveal_strlit("txz");
    reveal_strlit("a");
    reveal_strlit("ar");
    reveal_strlit(".tgz");
    reveal_strlit(".tbz2");
    reveal_strlit(".txz");
    reveal_strlit("tar.gz");
    reveal_strlit("tar.bz2");
    reveal_strlit("tar.xz");
    reveal_strlit("tar.zst");
    let l = lower_text(or_empty(file_name_of(p)));
    let e = or_empty(extension_of(l));
    assert(format_of_path(p) == format_of_names(l, e));
    assert("tar.gz"@.len() == 6 && "tar.bz2"@.len() == 7 && "tar.xz"@.len() == 6);
    assert("tar.zst"@.len() == 7 && "ar"@.len() == 2 && "a"@.len() == 1);
    assert("tgz"@.len() == 3 && "tbz2"@.len() == 4 && "txz"@.len() == 3);
    assert("tgz"@[1] == 'g' && "txz"@[1] == 'x' && "tbz2"@[3] == '2');
    if extension_of(l) is Some {
        lemma_extension_suffix(l, e);
        if e == "tgz"@ {
            assert(seq!['.'] + e =~= ".tgz"@);
        }
        if e == "tbz2"@ {
            assert(seq!['.'] + e =~= ".tbz2"@);
        }
        if e == "txz"@ {
            assert(seq!['.'] + e =~= ".txz"@);
        }
    } else {
        assert(e =~= Seq::<char>::empty());
    }
}

/// Every format detected from a path that the catalog lists (under any of
/// its extensions) is read by an engine, and no other is: opening refuses a
/// path exactly when its detected format is not in the catalog.
pub proof fn lemma_detected_format_readable(p: Seq<char>)
    ensures
        in_catalog(format_of_path(p)) <==> (read_engine_of(format_of_path(p)) is Some),
{
    let f = format_of_path(p);
    lemma_detected_format_not_alias(p);
    lemma_readable_formats_are_the_catalog(f);
    reveal_strlit("tgz");
    reveal_strlit("tbz2");
    reveal_strlit("txz");
    reveal_strlit("a");
    if in_catalog(f) {
        let i = choose|i: int| 0 <= i < catalog_spec().len() && #[trigger] catalog_spec()[i].extensions.contains(f);
        let x = catalog_spec()[i].extensions;
        let j = choose|j: int| 0 <= j < x.len() && x[j] == f;
        assert(catalog_id(f, i)) by {
            if j > 0 {
                assert(i == 3 || i == 6 || i == 7 || i == 14);
            }
        }
    }
    if read_engine_of(f) is Some {
        let i = choose|i: int| #[trigger] catalog_id(f, i);
        assert(catalog_spec()[i].extensions[0] == f);
        assert(catalog_spec()[i].extensions.contains(f));
    }
}


// ---------------------------------------------------------------------------
// Compound TAR suffixes
// ---------------------------------------------------------------------------

/// A path with its ASCII capital letters made small.
pub open spec fn ascii_lowered(p: Seq<char>) -> Seq<char> {
    p.map_values(|c: char| ascii_lower(c))
}

/// The last two characters of a text that ends with `s`.
proof fn lemma_suffix_ends(l: Seq<char>, s: Seq<char>)
    requires
        has_suffix(l, s),
        s.len() >= 2,
    ensures
        l[l.len() - 1] == s[s.len() - 1],
        l[l.len() - 2] == s[s.len() - 2],
{
    let t = l.subrange(l.len() - s.len(), l.len() as int);
    assert(t[s.len() - 1] == l[l.len() - 1]);
    assert(t[s.len() - 2] == l[l.len() - 2]);
}

/// When an ASCII path ends, up to letter case, with a suffix that holds no
/// separator and does not end with `.`, its lowercased file name ends with
/// that suffix; when the character before the suffix is no separator either,
/// the file name is longer than the suffix.
proof fn lemma_name_suffix(p: Seq<char>, suf: Seq<char>)
    requires
        is_ascii_text(p),
        has_suffix(ascii_lowered(p), suf),
        suf.len() >= 1,
        suf[suf.len() - 1] != '.',
        forall|j: int| 0 <= j < suf.len() ==> suf[j] != '/' && suf[j] != '\\',
    ensures
        has_suffix(lower_text(or_empty(file_name_of(p))), suf),
        p.len() > suf.len() && p[p.len() - suf.len() - 1] != '/' && p[p.len() - suf.len() - 1] != '\\'
            ==> lower_text(or_empty(file_name_of(p))).len() > suf.len(),
{
    let q = replace_char(p, '\\', '/');
    let n = p.len() as int;
    let m = suf.len() as int;
    let lp = ascii_lowered(p);
    assert forall|i: int| n - m <= i < n implies q[i] == p[i] && ascii_lower(p[i]) == suf[i - (n - m)]
        && q[i] != '/' by {
        assert(lp.subrange(n - m, n)[i - (n - m)] == lp[i]);
        assert(lp[i] == ascii_lower(p[i]));
    }
    lemma_last_index_of(q, '/');
    let k = last_index_of(q, '/');
    assert(k < n - m) by {
        if k >= n - m {
            assert(q[k] == '/');
        }
    }
    let seg = q.subrange(k + 1, n);
    assert(seg[seg.len() - 1] == q[n - 1]);
    assert(!is_dotdot(seg) && seg.len() > 0 && !is_dot(seg)) by {
        if is_dotdot(seg) {
            assert(seg.len() == seq!['.', '.'].len());
            assert(seg[1] == seq!['.', '.'][1]);
        }
        if is_dot(seg) {
            assert(seg.len() == seq!['.'].len());
            assert(seg[0] == seq!['.'][0]);
        }
    }
    assert(slash_file_name_of(q) == Some(seg));
    assert(file_name_of(p) == Some(seg));
    assert(is_ascii_text(seg)) by {
        assert forall|i: int| 0 <= i < seg.len() implies (#[trigger] seg[i] as u32) < 128 by {
            assert(seg[i] == q[k + 1 + i]);
            assert((p[k + 1 + i] as u32) < 128);
        }
    }
    let l = seg.map_values(|c: char| ascii_lower(c));
    assert(lower_text(seg) == l);
    assert(l.subrange(l.len() - m, l.len() as int) =~= suf) by {
        assert forall|j: int| 0 <= j < m implies #[trigger] l.subrange(l.len() - m, l.len() as int)[j]
            == suf[j] by {
            assert(l[l.len() - m + j] == ascii_lower(seg[l.len() - m + j]));
            assert(seg[l.len() - m + j] == q[n - m + j]);
        }
    }
    if n > m && p[n - m - 1] != '/' && p[n - m - 1] != '\\' {
        assert(q[n - m - 1] != '/');
        assert(k < n - m - 1) by {
            if k == n - m - 1 {
                assert(q[k] == '/');
            }
        }
    }
}

/// Compound TAR suffixes decide the format, whatever comes before them and in
/// any letter case: a file whose name ends with `.tar.gz` or `.tgz` is a
/// `tar.gz` archive, `.tar.bz2` or `.tbz2` a `tar.bz2` one, `.tar.xz` or
/// `.txz` a `tar.xz` one, and `.tar.zst` a `tar.zst` one. (Stated for ASCII
/// paths, which are lowercased letter by letter.)
pub proof fn lemma_compound_tar_suffixes(p: Seq<char>)
    requires
        is_ascii_text(p),
    ensures
        has_suffix(ascii_lowered(p), ".tar.gz"@) ==> format_of_path(p) == "tar.gz"@,
        has_suffix(ascii_lowered(p), ".tgz"@) ==> format_of_path(p) == "tar.gz"@,
        has_suffix(ascii_lowered(p), ".tar.bz2"@) ==> format_of_path(p) == "tar.bz2"@,
        has_suffix(ascii_lowered(p), ".tbz2"@) ==> format_of_path(p) == "tar.bz2"@,
        has_suffix(ascii_lowered(p), ".tar.xz"@) ==> format_of_path(p) == "tar.xz"@,
        has_suffix(ascii_lowered(p), ".txz"@) ==> format_of_path(p) == "tar.xz"@,
        has_suffix(ascii_lowered(p), ".tar.zst"@) ==> format_of_path(p) == "tar.zst"@,
{
    reveal_strlit(".tar.gz");
    reveal_strlit(".tgz");
    reveal_strlit(".tar.bz2");
    reveal_strlit(".tbz2");
    reveal_strlit(".tar.xz");
    reveal_strlit(".txz");
    reveal_strlit(".tar.zst");
    let l = lower_text(or_empty(file_name_of(p)));
    let e = or_empty(extension_of(l));
    assert(format_of_path(p) == format_of_names(l, e));
    let sufs = seq![".tar.gz"@, ".tgz"@, ".tar.bz2"@, ".tbz2"@, ".tar.xz"@, ".txz"@, ".tar.zst"@];
    assert forall|i: int| 0 <= i < 7 && #[trigger] has_suffix(ascii_lowered(p), sufs[i]) implies has_suffix(l, sufs[i]) by {
        let s = sufs[i];
        assert forall|j: int| 0 <= j < s.len() implies s[j] != '/' && s[j] != '\\' by {}
        lemma_name_suffix(p, s);
    }
    if has_suffix(l, ".tar.gz"@) { lemma_suffix_ends(l, ".tar.gz"@); }
    if has_suffix(l, ".tgz"@) { lemma_suffix_ends(l, ".tgz"@); }
    if has_suffix(l, ".tar.bz2"@) { lemma_suffix_ends(l, ".tar.bz2"@); }
    if has_suffix(l, ".tbz2"@) { lemma_suffix_ends(l, ".tbz2"@); }
    if has_suffix(l, ".tar.xz"@) { lemma_suffix_ends(l, ".tar.xz"@); }
    if has_suffix(l, ".txz"@) { lemma_suffix_ends(l, ".txz"@); }
    if has_suffix(l, ".tar.zst"@) { lemma_suffix_ends(l, ".tar.zst"@); }
    assert(sufs[0] == ".tar.gz"@ && sufs[1] == ".tgz"@ && sufs[2] == ".tar.bz2"@ && sufs[3] == ".tbz2"@);
    assert(sufs[4] == ".tar.xz"@ && sufs[5] == ".txz"@ && sufs[6] == ".tar.zst"@);
}

/// Whatever ASCII stem comes before a compound TAR suffix, the path is
/// detected as the TAR format that the suffix names: for example every
/// `….tar.xz` file is a `tar.xz` archive, never a bare `xz` stream.
pub proof fn lemma_tar_suffix_after_any_stem(stem: Seq<char>)
    requires
        is_ascii_text(stem),
    ensures
        format_of_path(stem + ".tar.gz"@) == "tar.gz"@,
        format_of_path(stem + ".tgz"@) == "tar.gz"@,
        format_of_path(stem + ".tar.bz2"@) == "tar.bz2"@,
        format_of_path(stem + ".tbz2"@) == "tar.bz2"@,
        format_of_path(stem + ".tar.xz"@) == "tar.xz"@,
        format_of_path(stem + ".txz"@) == "tar.xz"@,
        format_of_path(stem + ".tar.zst"@) == "tar.zst"@,
{
    reveal_strlit(".tar.gz");
    reveal_strlit(".tgz");
    reveal_strlit(".tar.bz2");
    reveal_strlit(".tbz2");
    reveal_strlit(".tar.xz");
    reveal_strlit(".txz");
    reveal_strlit(".tar.zst");
    let sufs = seq![".tar.gz"@, ".tgz"@, ".tar.bz2"@, ".tbz2"@, ".tar.xz"@, ".txz"@, ".tar.zst"@];
    assert forall|i: int| 0 <= i < 7 implies #[trigger] has_suffix(ascii_lowered(stem + sufs[i]), sufs[i])
        && is_ascii_text(stem + sufs[i]) by {
        let s = sufs[i];
        let p = stem + s;
        let lp = ascii_lowered(p);
        assert forall|j: int| 0 <= j < s.len() implies ascii_lower(s[j]) == s[j] && (s[j] as u32) < 128 by {}
        assert(lp.subrange(lp.len() - s.len(), lp.len() as int) =~= s) by {
            assert forall|j: int| 0 <= j < s.len() implies #[trigger] lp.subrange(lp.len() - s.len(), lp.len() as int)[j] == s[j] by {
                assert(p[stem.len() + j] == s[j]);
            }
        }
        assert forall|j: int| 0 <= j < p.len() implies (#[trigger] p[j] as u32) < 128 by {
            if j < stem.len() {
                assert(p[j] == stem[j]);
            } else {
                assert(p[j] == s[j - stem.len()]);
            }
        }
        lemma_compound_tar_suffixes(p);
    }
    assert(sufs[0] == ".tar.gz"@ && sufs[1] == ".tgz"@ && sufs[2] == ".tar.bz2"@ && sufs[3] == ".tbz2"@);
    assert(sufs[4] == ".tar.xz"@ && sufs[5] == ".txz"@ && sufs[6] == ".tar.zst"@);
    assert(has_suffix(ascii_lowered(stem + sufs[0]), sufs[0]));
    assert(has_suffix(ascii_lowered(stem + sufs[1]), sufs[1]));
    assert(has_suffix(ascii_lowered(stem + sufs[2]), sufs[2]));
    assert(has_suffix(ascii_lowered(stem + sufs[3]), sufs[3]));
    assert(has_suffix(ascii_lowered(stem + sufs[4]), sufs[4]));
    assert(has_suffix(ascii_lowered(stem + sufs[5]), sufs[5]));
    assert(has_suffix(ascii_lowered(stem + sufs[6]), sufs[6]));
    lemma_compound_tar_suffixes(stem + sufs[0]);
    lemma_compound_tar_suffixes(stem + sufs[1]);
    lemma_compound_tar_suffixes(stem + sufs[2]);
    lemma_compound_tar_suffixes(stem + sufs[3]);
    lemma_compound_tar_suffixes(stem + sufs[4]);
    lemma_compound_tar_suffixes(stem + sufs[5]);
    lemma_compound_tar_suffixes(stem + sufs[6]);
}


/// A name that ends with `.` and an extension holding no `.`, with something
/// before that `.`, has that extension.
proof fn lemma_extension_from_suffix(l: Seq<char>, ext: Seq<char>)
    requires
        has_suffix(l, seq!['.'] + ext),
        l.len() > ext.len() + 1,
        forall|j: int| 0 <= j < ext.len() ==> ext[j] != '.',
    ensures
        extension_of(l) == Some(ext),
{
    let d = seq!['.'] + ext;
    let at = l.len() - ext.len() - 1;
    assert(l.subrange(at, l.len() as int)[0] == l[at]);
    assert(l[at] == '.');
    assert forall|k: int| at < k < l.len() implies l[k] != '.' by {
        assert(l.subrange(at, l.len() as int)[k - at] == l[k]);
        assert(d[k - at] == ext[k - at - 1]);
    }
    lemma_last_index_of(l, '.');
    let li = last_index_of(l, '.');
    assert(li == at);
    assert(l.subrange(at + 1, l.len() as int) =~= ext) by {
        assert forall|j: int| 0 <= j < ext.len() implies #[trigger] l.subrange(at + 1, l.len() as int)[j] == ext[j] by {
            assert(l.subrange(at, l.len() as int)[j + 1] == l[at + 1 + j]);
            assert(d[j + 1] == ext[j]);
        }
    }
}

/// The detected format of `stem` + `.ext`, for a plain extension.
proof fn lemma_plain_extension(stem: Seq<char>, ext: Seq<char>)
    requires
        is_ascii_text(stem),
        stem.len() > 0,
        stem.last() != '/',
        stem.last() != '\\',
        ext.len() >= 1,
        forall|j: int| 0 <= j < ext.len() ==> ext[j] != '.' && ext[j] != '/' && ext[j] != '\\' && (ext[j] as u32)
            < 128 && ascii_lower(ext[j]) == ext[j],
    ensures
        ({
            let l = lower_text(or_empty(file_name_of(stem + seq!['.'] + ext)));
            has_suffix(l, seq!['.'] + ext) && format_of_path(stem + seq!['.'] + ext) == format_of_names(l, ext)
        }),
{
    let s = seq!['.'] + ext;
    let p = stem + s;
    assert(p =~= stem + seq!['.'] + ext);
    let lp = ascii_lowered(p);
    assert forall|j: int| 0 <= j < s.len() implies s[j] != '/' && s[j] != '\\' && (s[j] as u32) < 128
        && ascii_lower(s[j]) == s[j] by {
        if j > 0 {
            assert(s[j] == ext[j - 1]);
        }
    }
    assert(lp.subrange(lp.len() - s.len(), lp.len() as int) =~= s) by {
        assert forall|j: int| 0 <= j < s.len() implies #[trigger] lp.subrange(lp.len() - s.len(), lp.len() as int)[j] == s[j] by {
            assert(p[stem.len() + j] == s[j]);
        }
    }
    assert(is_ascii_text(p)) by {
        assert forall|j: int| 0 <= j < p.len() implies (#[trigger] p[j] as u32) < 128 by {
            if j < stem.len() {
                assert(p[j] == stem[j]);
            } else {
                assert(p[j] == s[j - stem.len()]);
            }
        }
    }
    assert(s[s.len() - 1] == ext[ext.len() - 1]);
    assert(p[p.len() - s.len() - 1] == stem.last());
    lemma_name_suffix(p, s);
    let l = lower_text(or_empty(file_name_of(p)));
    lemma_extension_from_suffix(l, ext);
}

/// Files named with a plain archive extension are detected by it, whatever
/// name comes before it: `….zip` is `zip`, `….7z` is `7z`, `….rar` is `rar`,
/// `….iso` is `iso`, `….img` is `img`, `….tar` is `tar`, `….cab` is `cab`,
/// `….cpio` is `cpio`, and a static library `….a` is an `ar` archive. (Stated
/// for ASCII names, with a name before the extension.)
pub proof fn lemma_plain_extensions(stem: Seq<char>)
    requires
        is_ascii_text(stem),
        stem.len() > 0,
        stem.last() != '/',
        stem.last() != '\\',
    ensures
        format_of_path(stem + ".zip"@) == "zip"@,
        format_of_path(stem + ".7z"@) == "7z"@,
        format_of_path(stem + ".rar"@) == "rar"@,
        format_of_path(stem + ".iso"@) == "iso"@,
        format_of_path(stem + ".img"@) == "img"@,
        format_of_path(stem + ".tar"@) == "tar"@,
        format_of_path(stem + ".cab"@) == "cab"@,
        format_of_path(stem + ".cpio"@) == "cpio"@,
        format_of_path(stem + ".a"@) == "ar"@,
{
    reveal_strlit(".zip");
    reveal_strlit(".7z");
    reveal_strlit(".rar");
    reveal_strlit(".iso");
    reveal_strlit(".img");
    reveal_strlit(".tar");
    reveal_strlit(".cab");
    reveal_strlit(".cpio");
    reveal_strlit(".a");
    reveal_strlit("zip");
    reveal_strlit("7z");
    reveal_strlit("rar");
    reveal_strlit("iso");
    reveal_strlit("img");
    reveal_strlit("tar");
    reveal_strlit("cab");
    reveal_strlit("cpio");
    reveal_strlit("a");
    reveal_strlit("ar");
    reveal_strlit(".tar.gz");
    reveal_strlit(".tgz");
    reveal_strlit(".tar.bz2");
    reveal_strlit(".tbz2");
    reveal_strlit(".tar.xz");
    reveal_strlit(".txz");
    reveal_strlit(".tar.zst");
    let exts = seq!["zip"@, "7z"@, "rar"@, "iso"@, "img"@, "tar"@, "cab"@, "cpio"@, "a"@];
    let dots = seq![".zip"@, ".7z"@, ".rar"@, ".iso"@, ".img"@, ".tar"@, ".cab"@, ".cpio"@, ".a"@];
    assert forall|i: int| 0 <= i < 9 implies #[trigger] format_of_path(stem + dots[i])
        == if i == 8 { "ar"@ } else { exts[i] } by {
        let ext = exts[i];
        assert(dots[i] =~= seq!['.'] + ext);
        assert(stem + dots[i] =~= stem + seq!['.'] + ext);
        lemma_plain_extension(stem, ext);
        let l = lower_text(or_empty(file_name_of(stem + seq!['.'] + ext)));
        lemma_suffix_ends(l, seq!['.'] + ext);
        if has_suffix(l, ".tar.gz"@) { lemma_suffix_ends(l, ".tar.gz"@); }
        if has_suffix(l, ".tgz"@) { lemma_suffix_ends(l, ".tgz"@); }
        if has_suffix(l, ".tar.bz2"@) { lemma_suffix_ends(l, ".tar.bz2"@); }
        if has_suffix(l, ".tbz2"@) { lemma_suffix_ends(l, ".tbz2"@); }
        if has_suffix(l, ".tar.xz"@) { lemma_suffix_ends(l, ".tar.xz"@); }
        if has_suffix(l, ".txz"@) { lemma_suffix_ends(l, ".txz"@); }
        if has_suffix(l, ".tar.zst"@) { lemma_suffix_ends(l, ".tar.zst"@); }
    }
    assert(format_of_path(stem + dots[0]) == "zip"@);
    assert(format_of_path(stem + dots[1]) == "7z"@);
    assert(format_of_path(stem + dots[2]) == "rar"@);
    assert(format_of_path(stem + dots[3]) == "iso"@);
    assert(format_of_path(stem + dots[4]) == "img"@);
    assert(format_of_path(stem + dots[5]) == "tar"@);
    assert(format_of_path(stem + dots[6]) == "cab"@);
    assert(format_of_path(stem + dots[7]) == "cpio"@);
    assert(format_of_path(stem + dots[8]) == "ar"@);
}

} // verus!
