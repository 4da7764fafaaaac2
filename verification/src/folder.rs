//! Folder enumeration support: deciding which file names count as images
//! and returning them sorted by filename.
//!
//! The host lists a directory and hands the raw entries over; everything
//! after that — extension matching against the fixed allow-list
//! (case-insensitive) and the lexicographic sort by filename — is verified
//! here.

use vstd::prelude::*;
use vstd::multiset::Multiset;
use vstd::seq_lib::lemma_multiset_commutative;
use vstd::string::StrSliceExecFns;
use vstd::string::StringExecFns;

verus! {

/// Why a folder listing request failed.
pub enum FolderError {
    /// The folder does not exist.
    NotFound { path: String },
    /// The path exists but is not a directory.
    NotADirectory { path: String },
}

impl FolderError {
    /// A human-readable description of the error.
    pub fn message(&self) -> (r: String)
        ensures
            match self {
                FolderError::NotFound { path } => r@ == "folder not found: "@ + path@,
                FolderError::NotADirectory { path } => r@ == "path is not a folder: "@ + path@,
            },
    {
        match self {
            FolderError::NotFound { path } => {
                let mut s = "folder not found: ".to_owned();
                s.append(path.as_str());
                s
            },
            FolderError::NotADirectory { path } => {
                let mut s = "path is not a folder: ".to_owned();
                s.append(path.as_str());
                s
            },
        }
    }
}

/// The decision at the head of a folder listing: a missing path or one
/// that is not a directory fails, terminally and with the offending path,
/// before any listing is attempted; otherwise the listing may proceed.
pub fn check_folder(folder_path: &String, exists: bool, is_dir: bool) -> (r: Option<FolderError>)
    ensures
        match r {
            None => exists && is_dir,
            Some(e) => match e {
                FolderError::NotFound { path } => !exists && path@ == folder_path@,
                FolderError::NotADirectory { path } => exists && !is_dir && path@
                    == folder_path@,
            },
        },
{
    if !exists {
        Some(FolderError::NotFound { path: folder_path.clone() })
    } else if !is_dir {
        Some(FolderError::NotADirectory { path: folder_path.clone() })
    } else {
        None
    }
}

/// A raw directory entry as the host read it: full path, bare filename,
/// and whether it is a regular file.
pub struct FolderEntry {
    pub path: String,
    pub filename: String,
    pub is_file: bool,
}

/// One image file found in a folder: its full path and bare filename.
pub struct ImageFile {
    pub path: String,
    pub filename: String,
}

/// The extension of a file name: what follows the last `.`, provided that
/// dot is not the leading character (so a bare dot-file has none).
pub open spec fn spec_ext(name: Seq<char>) -> Option<Seq<char>>
    decreases name.len(),
{
    if name.len() <= 1 {
        None
    } else if name.last() == '.' {
        Some(Seq::empty())
    } else {
        match spec_ext(name.drop_last()) {
            None => None,
            Some(e) => Some(e.push(name.last())),
        }
    }
}

/// Whether `c` is the character `l` itself or its ASCII upper-case
/// counterpart; meaningful when `l` is a lower-case ASCII letter.
pub open spec fn char_matches_lower(c: char, l: char) -> bool {
    c == l || (l as u32) >= 32 && (c as u32) == (l as u32) - 32
}

/// ASCII-case-insensitive match of `e` against an all-lower-case word.
pub open spec fn matches_ci_lower(e: Seq<char>, lit: Seq<char>) -> bool {
    e.len() == lit.len() && forall|i: int|
        0 <= i < e.len() ==> char_matches_lower(#[trigger] e[i], lit[i])
}

/// The fixed allow-list of raster image extensions, matched without regard
/// to ASCII case.
pub open spec fn is_allowed_ext(e: Seq<char>) -> bool {
    ||| matches_ci_lower(e, "jpg"@)
    ||| matches_ci_lower(e, "jpeg"@)
    ||| matches_ci_lower(e, "png"@)
    ||| matches_ci_lower(e, "gif"@)
    ||| matches_ci_lower(e, "webp"@)
    ||| matches_ci_lower(e, "bmp"@)
}

/// Whether a file name carries one of the accepted image extensions.
pub open spec fn is_image_name(name: Seq<char>) -> bool {
    match spec_ext(name) {
        Some(e) => is_allowed_ext(e),
        None => false,
    }
}

/// A directory entry that belongs in a folder listing: a regular file whose
/// name carries an accepted image extension.
pub open spec fn entry_keeps(e: FolderEntry) -> bool {
    e.is_file && is_image_name(e.filename@)
}

/// If position `i` holds the last dot of `name` and is not the leading
/// character, the extension is exactly what follows it.
proof fn lemma_ext_at(name: Seq<char>, i: int)
    requires
        0 < i < name.len(),
        name[i] == '.',
        forall|j: int| i < j < name.len() ==> name[j] != '.',
    ensures
        spec_ext(name) == Some(name.subrange(i + 1, name.len() as int)),
    decreases name.len(),
{
    if i == name.len() - 1 {
        assert(name.subrange(i + 1, name.len() as int) =~= Seq::empty());
    } else {
        let d = name.drop_last();
        assert(name.last() != '.');
        lemma_ext_at(d, i);
        assert(name.subrange(i + 1, name.len() as int) =~= d.subrange(
            i + 1,
            d.len() as int,
        ).push(name.last()));
    }
}

/// A name without a dot past its leading character has no extension.
proof fn lemma_ext_none(name: Seq<char>)
    requires
        forall|j: int| 0 < j < name.len() ==> name[j] != '.',
    ensures
        spec_ext(name) is None,
    decreases name.len(),
{
    if name.len() > 1 {
        assert(name.last() != '.');
        lemma_ext_none(name.drop_last());
    }
}

/// ASCII-case-insensitive comparison of `e` with an all-lower-case word.
fn matches_ci(e: &str, lit: &str) -> (r: bool)
    ensures
        r == matches_ci_lower(e@, lit@),
{
    let n = e.unicode_len();
    if n != lit.unicode_len() {
        return false;
    }
    let mut i: usize = 0;
    while i < n
        invariant
            n == e@.len(),
            n == lit@.len(),
            i <= n,
            forall|j: int| 0 <= j < i ==> char_matches_lower(#[trigger] e@[j], lit@[j]),
        decreases n - i,
    {
        let c = e.get_char(i);
        let l = lit.get_char(i);
        if !(c == l || (l as u32) >= 32 && (c as u32) == (l as u32) - 32) {
            return false;
        }
        i += 1;
    }
    true
}

/// Whether `name` carries one of the accepted image extensions,
/// disregarding ASCII case.
pub fn is_image_filename(name: &String) -> (r: bool)
    ensures
        r == is_image_name(name@),
{
    let s = name.as_str();
    let n = s.unicode_len();
    let mut i: usize = n;
    while i > 0
        invariant
            i <= n,
            n == s@.len(),
            s@ == name@,
            forall|j: int| i <= j < n ==> s@[j] != '.',
        decreases i,
    {
        i -= 1;
        if s.get_char(i) == '.' {
            if i == 0 {
                proof {
                    lemma_ext_none(s@);
                }
                return false;
            }
            let ext = s.substring_char(i + 1, n);
            proof {
                lemma_ext_at(s@, i as int);
            }
            return is_allowed_extension(ext);
        }
    }
    proof {
        lemma_ext_none(s@);
    }
    false
}

/// Matches an extension against the fixed allow-list.
fn is_allowed_extension(e: &str) -> (r: bool)
    ensures
        r == is_allowed_ext(e@),
{
    matches_ci(e, "jpg") || matches_ci(e, "jpeg") || matches_ci(e, "png") || matches_ci(e, "gif")
        || matches_ci(e, "webp") || matches_ci(e, "bmp")
}

/// Lexicographic order on character sequences by code point: the order in
/// which folder listings are returned.
pub open spec fn lex_leq(a: Seq<char>, b: Seq<char>) -> bool
    decreases a.len(),
{
    if a.len() == 0 {
        true
    } else if b.len() == 0 {
        false
    } else if (a[0] as u32) < (b[0] as u32) {
        true
    } else if (a[0] as u32) > (b[0] as u32) {
        false
    } else {
        lex_leq(a.subrange(1, a.len() as int), b.subrange(1, b.len() as int))
    }
}

/// The order is total: of any two sequences, one is less-or-equal the other.
pub proof fn lemma_lex_total(a: Seq<char>, b: Seq<char>)
    ensures
        lex_leq(a, b) || lex_leq(b, a),
    decreases a.len(),
{
    if a.len() != 0 && b.len() != 0 && (a[0] as u32) == (b[0] as u32) {
        lemma_lex_total(a.subrange(1, a.len() as int), b.subrange(1, b.len() as int));
    }
}

/// The order is reflexive.
pub proof fn lemma_lex_refl(a: Seq<char>)
    ensures
        lex_leq(a, a),
    decreases a.len(),
{
    if a.len() != 0 {
        lemma_lex_refl(a.subrange(1, a.len() as int));
    }
}

/// The order is transitive.
pub proof fn lemma_lex_trans(a: Seq<char>, b: Seq<char>, c: Seq<char>)
    requires
        lex_leq(a, b),
        lex_leq(b, c),
    ensures
        lex_leq(a, c),
    decreases a.len(),
{
    if a.len() != 0 {
        if (a[0] as u32) == (b[0] as u32) && (b[0] as u32) == (c[0] as u32) {
            lemma_lex_trans(
                a.subrange(1, a.len() as int),
                b.subrange(1, b.len() as int),
                c.subrange(1, c.len() as int),
            );
        }
    }
}

/// Comparing two sequences that agree (by code point) on their first `i`
/// characters comes down to comparing what follows.
proof fn lemma_lex_from_prefix(a: Seq<char>, b: Seq<char>, i: int)
    requires
        0 <= i <= a.len(),
        i <= b.len(),
        forall|j: int| 0 <= j < i ==> ((#[trigger] a[j]) as u32) == (b[j] as u32),
    ensures
        lex_leq(a, b) == lex_leq(a.subrange(i, a.len() as int), b.subrange(i, b.len() as int)),
    decreases i,
{
    if i == 0 {
        assert(a.subrange(0, a.len() as int) =~= a);
        assert(b.subrange(0, b.len() as int) =~= b);
    } else {
        let ta = a.subrange(1, a.len() as int);
        let tb = b.subrange(1, b.len() as int);
        lemma_lex_from_prefix(ta, tb, i - 1);
        assert(ta.subrange(i - 1, ta.len() as int) =~= a.subrange(i, a.len() as int));
        assert(tb.subrange(i - 1, tb.len() as int) =~= b.subrange(i, b.len() as int));
    }
}

/// Decides `lex_leq` on two strings.
pub fn lex_le(a: &str, b: &str) -> (r: bool)
    ensures
        r == lex_leq(a@, b@),
{
    let an = a.unicode_len();
    let bn = b.unicode_len();
    let mut i: usize = 0;
    while i < an && i < bn
        invariant
            an == a@.len(),
            bn == b@.len(),
            i <= an,
            i <= bn,
            forall|j: int| 0 <= j < i ==> ((#[trigger] a@[j]) as u32) == (b@[j] as u32),
        decreases an - i,
    {
        let ca = a.get_char(i);
        let cb = b.get_char(i);
        if (ca as u32) < (cb as u32) {
            proof {
                lemma_lex_from_prefix(a@, b@, i as int);
            }
            return true;
        }
        if (ca as u32) > (cb as u32) {
            proof {
                lemma_lex_from_prefix(a@, b@, i as int);
            }
            return false;
        }
        i += 1;
    }
    proof {
        lemma_lex_from_prefix(a@, b@, i as int);
    }
    an <= bn
}

/// The mathematical content of a listing: each file as a
/// `(path, filename)` pair of character sequences.
pub open spec fn file_views(s: Seq<ImageFile>) -> Seq<(Seq<char>, Seq<char>)> {
    s.map(|i: int, f: ImageFile| (f.path@, f.filename@))
}

/// The entries of a raw directory listing that belong in the result, as
/// `(path, filename)` pairs, in listing order.
pub open spec fn kept_views(s: Seq<FolderEntry>) -> Seq<(Seq<char>, Seq<char>)> {
    s.filter(|e: FolderEntry| entry_keeps(e)).map(
        |i: int, e: FolderEntry| (e.path@, e.filename@),
    )
}

/// A listing sorted by filename.
pub open spec fn sorted_files(s: Seq<ImageFile>) -> bool {
    forall|i: int, j: int|
        #![trigger s[i], s[j]]
        0 <= i < j < s.len() ==> lex_leq(s[i].filename@, s[j].filename@)
}

/// Inserting an element anywhere in a sequence adds exactly it to the
/// sequence's multiset.
proof fn lemma_insert_to_multiset<A>(s: Seq<A>, p: int, x: A)
    requires
        0 <= p <= s.len(),
    ensures
        s.insert(p, x).to_multiset() == s.to_multiset().insert(x),
{
    broadcast use vstd::seq_lib::group_to_multiset_ensures;

    let l = s.subrange(0, p);
    let r = s.subrange(p, s.len() as int);
    assert(s =~= l + r);
    assert(s.insert(p, x) =~= l.push(x) + r);
    lemma_multiset_commutative(l, r);
    lemma_multiset_commutative(l.push(x), r);
    assert(s.insert(p, x).to_multiset() =~= s.to_multiset().insert(x));
}

/// Inserts `f` before the first strictly greater filename, keeping the
/// listing sorted.
fn insert_sorted(out: &mut Vec<ImageFile>, f: ImageFile)
    requires
        sorted_files(old(out)@),
    ensures
        sorted_files(final(out)@),
        final(out)@.len() == old(out)@.len() + 1,
        file_views(final(out)@).to_multiset() == file_views(old(out)@).to_multiset().insert(
            (f.path@, f.filename@),
        ),
{
    let mut p: usize = 0;
    while p < out.len() && lex_le(out[p].filename.as_str(), f.filename.as_str())
        invariant
            p <= out@.len(),
            out@ == old(out)@,
            forall|j: int| 0 <= j < p ==> lex_leq((#[trigger] out@[j]).filename@, f.filename@),
        decreases out@.len() - p,
    {
        p += 1;
    }
    proof {
        if (p as int) < out@.len() {
            lemma_lex_total(out@[p as int].filename@, f.filename@);
        }
    }
    let ghost pre = out@;
    out.insert(p, f);
    proof {
        assert forall|i: int, j: int|
            #![trigger out@[i], out@[j]]
            0 <= i < j < out@.len() implies lex_leq(out@[i].filename@, out@[j].filename@) by {
            if j < p {
            } else if i < p && j == p {
            } else if i < p && j > p {
            } else if i == p && j > p {
                if (p as int) < pre.len() && j - 1 > p {
                    lemma_lex_trans(
                        f.filename@,
                        pre[p as int].filename@,
                        pre[j - 1].filename@,
                    );
                }
            } else {
            }
        }
        assert(file_views(out@) =~= file_views(pre).insert(p as int, (f.path@, f.filename@)));
        lemma_insert_to_multiset(file_views(pre), p as int, (f.path@, f.filename@));
    }
}

/// The image files of a raw directory listing — regular files whose
/// extension is on the allow-list, case-insensitively — sorted by
/// filename. Entries with equal filenames may appear in either order;
/// nothing else about the result is left open.
pub fn select_images(entries: Vec<FolderEntry>) -> (r: Vec<ImageFile>)
    ensures
        sorted_files(r@),
        file_views(r@).to_multiset() == kept_views(entries@).to_multiset(),
{
    broadcast use vstd::seq_lib::group_to_multiset_ensures;

    let mut kept: Vec<ImageFile> = Vec::new();
    let mut i: usize = 0;
    proof {
        reveal(Seq::filter);
        assert(entries@.subrange(0, 0) =~= Seq::<FolderEntry>::empty());
        assert(file_views(kept@) =~= kept_views(entries@.subrange(0, 0)));
    }
    while i < entries.len()
        invariant
            i <= entries@.len(),
            file_views(kept@) == kept_views(entries@.subrange(0, i as int)),
        decreases entries@.len() - i,
    {
        let e = &entries[i];
        let ghost kept_pre = kept@;
        if e.is_file && is_image_filename(&e.filename) {
            kept.push(ImageFile { path: e.path.clone(), filename: e.filename.clone() });
        }
        i += 1;
        proof {
            reveal(Seq::filter);
            let pre = entries@.subrange(0, i as int);
            assert(pre.drop_last() =~= entries@.subrange(0, i - 1));
            assert(pre.last() == entries@[i - 1]);
            if entry_keeps(entries@[i - 1]) {
                assert(file_views(kept@) =~= file_views(kept_pre).push(
                    (entries@[i - 1].path@, entries@[i - 1].filename@),
                ));
                assert(kept_views(pre) =~= kept_views(pre.drop_last()).push(
                    (entries@[i - 1].path@, entries@[i - 1].filename@),
                ));
            } else {
                assert(kept_views(pre) =~= kept_views(pre.drop_last()));
            }
        }
    }
    proof {
        assert(entries@.subrange(0, entries@.len() as int) =~= entries@);
    }
    let ghost total = file_views(kept@).to_multiset();
    let mut out: Vec<ImageFile> = Vec::new();
    proof {
        assert(file_views(out@) =~= Seq::<(Seq<char>, Seq<char>)>::empty());
        assert(file_views(out@).to_multiset().add(file_views(kept@).to_multiset())
            =~= total);
    }
    while kept.len() > 0
        invariant
            sorted_files(out@),
            file_views(out@).to_multiset().add(file_views(kept@).to_multiset()) == total,
        decreases kept@.len(),
    {
        let ghost kept_pre = kept@;
        let f = kept.pop().unwrap();
        let ghost fv = (f.path@, f.filename@);
        proof {
            assert(file_views(kept_pre) =~= file_views(kept@).push(fv));
            vstd::seq_lib::to_multiset_build(file_views(kept@), fv);
        }
        let ghost out_pre = out@;
        insert_sorted(&mut out, f);
        proof {
            assert(file_views(out@).to_multiset().add(file_views(kept@).to_multiset())
                =~= total);
        }
    }
    proof {
        assert(file_views(kept@).to_multiset() =~= Multiset::empty());
        assert(file_views(out@).to_multiset() =~= total);
    }
    out
}

/// Law: in a sorted listing the first entry's filename is a lower bound for
/// every entry, so serving the first element serves a minimal filename.
pub proof fn lemma_first_is_minimal(s: Seq<ImageFile>)
    requires
        sorted_files(s),
        s.len() > 0,
    ensures
        forall|j: int| 0 <= j < s.len() ==> lex_leq(s[0].filename@, (#[trigger] s[j]).filename@),
{
    assert forall|j: int| 0 <= j < s.len() implies lex_leq(
        s[0].filename@,
        (#[trigger] s[j]).filename@,
    ) by {
        if j == 0 {
            lemma_lex_refl(s[0].filename@);
        } else {
            assert(lex_leq(s[0].filename@, s[j].filename@));
        }
    }
}

/// The first entry of a listing, as the path to serve; `None` for an empty
/// listing.
pub fn first_image(images: &Vec<ImageFile>) -> (r: Option<String>)
    ensures
        match r {
            Some(p) => images@.len() > 0 && p@ == images@[0].path@,
            None => images@.len() == 0,
        },
{
    if images.len() > 0 {
        Some(images[0].path.clone())
    } else {
        None
    }
}

} // verus!
