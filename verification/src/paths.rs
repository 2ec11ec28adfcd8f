//! File paths as text. What a path means differs from platform to platform,
//! so the statements here say exactly what happens to the paths that every
//! platform reads alike and leave the others open.

use vstd::prelude::*;

use crate::text::{ascii_lower, cat3, matches_ignoring_case, opt_view};

verus! {

/// The index just after the last `/` of `p`, or zero.
pub open spec fn name_start(p: Seq<char>) -> int
    decreases p.len(),
{
    if p.len() == 0 || p.last() == '/' {
        p.len() as int
    } else {
        name_start(p.drop_last())
    }
}

/// The characters after the last `/`.
pub open spec fn last_segment(p: Seq<char>) -> Seq<char> {
    p.skip(name_start(p))
}

/// A name with no meaning to the path syntax of any platform: not empty, not
/// a dot name, and free of separators and drive marks.
pub open spec fn plain_name(s: Seq<char>) -> bool {
    &&& s.len() > 0
    &&& s != seq!['.']
    &&& s != seq!['.', '.']
    &&& forall|i: int| 0 <= i < s.len() ==> (#[trigger] s[i]) != '/' && s[i] != '\\' && s[i] != ':'
}

/// Whether every platform splits `p` at its `/` characters and nowhere else.
pub open spec fn slashed(p: Seq<char>) -> bool {
    &&& forall|i: int| 0 <= i < p.len() ==> (#[trigger] p[i]) != '\\' && p[i] != ':'
    &&& !(p.len() >= 2 && p[0] == '/' && p[1] == '/')
}

/// Whether every platform splits `p` at its `/` characters and nowhere else,
/// and `p` ends in a plain name.
pub open spec fn portable(p: Seq<char>) -> bool {
    slashed(p) && plain_name(last_segment(p))
}

/// Whether a path ends in a component that every platform reads alike: a plain
/// name, the mark of the folder above, or, alone, that of the folder itself.
pub open spec fn ends_in_component(p: Seq<char>) -> bool {
    plain_name(last_segment(p)) || last_segment(p) == seq!['.', '.'] || p == seq!['.']
}

/// A path without one slash at its end; the root keeps it.
pub open spec fn unslashed(p: Seq<char>) -> Seq<char> {
    if p.len() > 1 && p.last() == '/' {
        p.drop_last()
    } else {
        p
    }
}

/// The directory part of a path: what stands before the `/` in front of its
/// last segment, the root for a name right under the root, and the empty path
/// for a bare name.
pub open spec fn directory(p: Seq<char>) -> Seq<char> {
    let n = name_start(p);
    if n <= 1 {
        p.take(n)
    } else {
        p.take(n - 1)
    }
}

/// What holds of the parent of `p` on every platform: the empty path and the
/// root have none, and a path that ends in a component has its directory,
/// where that directory is itself empty, the root, or ends in a component. A
/// slash at the end makes no difference.
pub open spec fn is_parent(p: Seq<char>, parent: Option<Seq<char>>) -> bool {
    let q = unslashed(p);
    &&& p.len() == 0 || p == seq!['/'] ==> parent is None
    &&& slashed(p) && ends_in_component(q) && (name_start(q) <= 1 || ends_in_component(
        directory(q),
    )) ==> parent == Some(directory(q))
}

/// What holds of `base` joined with the name `leaf` on every platform: the
/// name follows the base, with one separator between them where the base does
/// not bring its own. A `leaf` that is no plain name, and a base that starts
/// with a backslash, are left open.
pub open spec fn is_join(base: Seq<char>, leaf: Seq<char>, out: Seq<char>) -> bool {
    plain_name(leaf) && !(base.len() > 0 && base[0] == '\\') ==> {
        if base.len() == 0 {
            out == leaf
        } else if base.last() == '/' {
            out == base + leaf
        } else if base.last() == '\\' || base.last() == ':' {
            out == base + leaf || out == base + seq!['/'] + leaf || out == base + seq!['\\'] + leaf
        } else {
            out == base + seq!['/'] + leaf || out == base + seq!['\\'] + leaf
        }
    }
}

/// The part of a file name after its last `.`, unless that dot is the first
/// character or there is none.
pub open spec fn suffix_of(name: Seq<char>) -> Option<Seq<char>> {
    suffix_from(name, name.len() as int)
}

/// As [`suffix_of`], looking only at the first `n` characters for the dot.
pub open spec fn suffix_from(name: Seq<char>, n: int) -> Option<Seq<char>>
    decreases n,
{
    if n <= 1 {
        None
    } else if name[n - 1] == '.' {
        Some(name.skip(n))
    } else {
        suffix_from(name, n - 1)
    }
}

/// What holds of the extension of `p` on every platform: a portable path has
/// the extension of its last segment.
pub open spec fn is_extension(p: Seq<char>, ext: Option<Seq<char>>) -> bool {
    portable(p) ==> ext == suffix_of(last_segment(p))
}

/// `std::path::Path::parent`, as text: the path without its final component.
/// The contract says what that is for the empty path, the root, and a path
/// whose last two components every platform reads alike; nothing is claimed of
/// the others.
#[verifier::external_body]
pub(crate) fn path_parent(p: &str) -> (r: Option<String>)
    ensures
        is_parent(p@, opt_view(r)),
{
    std::path::Path::new(p).parent().map(|d| d.to_string_lossy().into_owned())
}

/// `std::path::Path::join`, as text. The contract says where a plain name goes
/// below a base that does not start with a backslash; nothing is claimed of
/// other names and bases.
#[verifier::external_body]
pub(crate) fn path_join(base: &str, leaf: &str) -> (r: String)
    ensures
        is_join(base@, leaf@, r@),
{
    std::path::Path::new(base).join(leaf).to_string_lossy().into_owned()
}

/// `std::path::Path::extension`, as text. The contract gives the extension of
/// a portable path; nothing is claimed of the others.
#[verifier::external_body]
pub(crate) fn path_extension(p: &str) -> (r: Option<String>)
    ensures
        is_extension(p@, opt_view(r)),
{
    std::path::Path::new(p).extension().map(|e| e.to_string_lossy().into_owned())
}

/// A path that every platform splits at its `/` characters, in which no
/// segment is empty, and none but the first a single dot.
pub open spec fn clean(p: Seq<char>) -> bool {
    &&& slashed(p)
    &&& p.len() > 0
    &&& p.last() != '/'
    &&& forall|i: int| 0 <= i < p.len() - 1 && #[trigger] p[i] == '/' ==> p[i + 1] != '/'
    &&& forall|i: int|
        0 < i < p.len() && #[trigger] p[i] == '.' && p[i - 1] == '/' ==> i + 1 < p.len() && p[i + 1]
            != '/'
}

/// A folder that a clean path can lie below: the empty path, the root, or a
/// clean path.
pub open spec fn clean_base(base: Seq<char>) -> bool {
    base.len() == 0 || base == seq!['/'] || clean(base)
}

/// What is left of the clean path `p` below `base`: all of it below the empty
/// path, and all but the slash in front below the root.
pub open spec fn below(p: Seq<char>, base: Seq<char>) -> Option<Seq<char>> {
    if base.len() == 0 {
        Some(p)
    } else if base == seq!['/'] {
        if p[0] == '/' {
            Some(p.skip(1))
        } else {
            None
        }
    } else if p == base {
        Some(Seq::empty())
    } else if p.len() > base.len() && p.take(base.len() as int) == base && p[base.len() as int]
        == '/' {
        Some(p.skip(base.len() as int + 1))
    } else {
        None
    }
}

/// `std::path::Path::strip_prefix`, as text. The contract says what is left of
/// a clean path below the empty path, the root or another clean path; nothing
/// is claimed of other paths.
#[verifier::external_body]
pub(crate) fn path_strip_prefix(p: &str, base: &str) -> (r: Option<String>)
    ensures
        clean(p@) && clean_base(base@) ==> opt_view(r) == below(p@, base@),
{
    std::path::Path::new(p).strip_prefix(base).ok().map(|d| d.to_string_lossy().into_owned())
}

/// The folder that a file lies in, if it has a path.
pub fn folder_of(path: &Option<String>) -> (r: Option<String>)
    ensures
        match *path {
            Some(p) => is_parent(p@, opt_view(r)),
            None => r is None,
        },
{
    match path {
        Some(p) => path_parent(p.as_str()),
        None => None,
    }
}

/// A picked file as it is written into a source that is kept in `dir`: below
/// that folder where it lies there, else as it is. `left` is what is left of it
/// below the folder.
pub open spec fn written_path(picked: Seq<char>, left: Option<Seq<char>>) -> Seq<char> {
    "\""@ + match left {
        Some(rel) => rel,
        None => picked,
    } + "\""@
}

/// A picked file as a string literal for a source that is kept in `dir`.
pub fn relative_literal(picked: &str, dir: &Option<String>) -> (r: String)
    ensures
        match *dir {
            None => r@ == written_path(picked@, None),
            Some(d) => {
                &&& exists|left: Option<Seq<char>>| r@ == #[trigger] written_path(picked@, left)
                &&& clean(picked@) && clean_base(d@) ==> r@ == written_path(
                    picked@,
                    below(picked@, d@),
                )
            },
        },
{
    let left = match dir {
        Some(d) => path_strip_prefix(picked, d.as_str()),
        None => None,
    };
    let ghost seen = opt_view(left);
    let r = match left {
        Some(rel) => cat3("\"", rel.as_str(), "\""),
        None => cat3("\"", picked, "\""),
    };
    assert(r@ == written_path(picked@, seen));
    r
}

/// A file name without its extension and the dot before it.
pub open spec fn stem_of(name: Seq<char>) -> Seq<char> {
    match suffix_of(name) {
        Some(ext) => name.take(name.len() - ext.len() - 1),
        None => name,
    }
}

/// What holds of the file stem of `p` on every platform: a portable path has
/// the stem of its last segment.
pub open spec fn is_stem(p: Seq<char>, stem: Option<Seq<char>>) -> bool {
    portable(p) ==> stem == Some(stem_of(last_segment(p)))
}

/// `std::path::Path::file_stem`, as text. The contract gives the stem of a
/// portable path; nothing is claimed of the others.
#[verifier::external_body]
pub(crate) fn path_stem(p: &str) -> (r: Option<String>)
    ensures
        is_stem(p@, opt_view(r)),
{
    std::path::Path::new(p).file_stem().map(|n| n.to_string_lossy().into_owned())
}

/// A portable path with its extension, if any, replaced by `ext`.
pub open spec fn re_extended(p: Seq<char>, ext: Seq<char>) -> Seq<char> {
    let base = match suffix_of(last_segment(p)) {
        Some(old) => p.take(p.len() - old.len() - 1),
        None => p,
    };
    base + seq!['.'] + ext
}

/// Whether the name of a portable path, once its extension is off, is still a
/// name and not the mark of a folder.
pub open spec fn re_extendable(p: Seq<char>) -> bool {
    portable(p) && stem_of(last_segment(p)) != seq!['.']
}

/// `std::path::Path::with_extension`, as text. An extension with a separator
/// in it panics. The contract says what becomes of a portable path whose file
/// stem is more than a dot; nothing is claimed of the others.
#[verifier::external_body]
pub(crate) fn path_with_extension(p: &str, ext: &str) -> (r: String)
    requires
        plain_name(ext@),
    ensures
        re_extendable(p@) ==> r@ == re_extended(p@, ext@),
{
    std::path::Path::new(p).with_extension(ext).to_string_lossy().into_owned()
}

// ---- image kinds -----------------------------------------------------------

/// Whether an extension is `lit`, in any mix of cases.
pub open spec fn extension_is(ext: Option<Seq<char>>, lit: Seq<char>) -> bool {
    match ext {
        Some(e) => ascii_lower(e) == lit,
        None => false,
    }
}

/// The media type that goes with an extension. Everything that is not known
/// to be another kind of picture counts as PNG.
pub open spec fn mime_of(ext: Option<Seq<char>>) -> Seq<char> {
    if extension_is(ext, "jpg"@) || extension_is(ext, "jpeg"@) {
        "image/jpeg"@
    } else if extension_is(ext, "webp"@) {
        "image/webp"@
    } else {
        "image/png"@
    }
}

/// The extension under which a picture is kept: its own when it is one of the
/// known kinds, else `png`.
pub open spec fn kept_extension(ext: Option<Seq<char>>) -> Seq<char> {
    if extension_is(ext, "jpg"@) {
        "jpg"@
    } else if extension_is(ext, "jpeg"@) {
        "jpeg"@
    } else if extension_is(ext, "webp"@) {
        "webp"@
    } else {
        "png"@
    }
}

fn ext_matches(ext: &Option<String>, lit: &str) -> (r: bool)
    ensures
        r == extension_is(opt_view(*ext), lit@),
{
    match ext {
        Some(e) => matches_ignoring_case(e.as_str(), lit),
        None => false,
    }
}

/// The media type of a picture with the given extension.
pub fn mime_for_extension(ext: &Option<String>) -> (r: &'static str)
    ensures
        r@ == mime_of(opt_view(*ext)),
{
    if ext_matches(ext, "jpg") || ext_matches(ext, "jpeg") {
        "image/jpeg"
    } else if ext_matches(ext, "webp") {
        "image/webp"
    } else {
        "image/png"
    }
}

/// The extension under which a picture with the given extension is kept.
pub fn picture_extension(ext: &Option<String>) -> (r: &'static str)
    ensures
        r@ == kept_extension(opt_view(*ext)),
{
    if ext_matches(ext, "jpg") {
        "jpg"
    } else if ext_matches(ext, "jpeg") {
        "jpeg"
    } else if ext_matches(ext, "webp") {
        "webp"
    } else {
        "png"
    }
}

/// The media type of the picture at `path`, by its extension.
pub fn guess_image_mime(path: &str) -> (r: String)
    ensures
        portable(path@) ==> r@ == mime_of(suffix_of(last_segment(path@))),
        exists|ext: Option<Seq<char>>| #[trigger]
            is_extension(path@, ext) && r@ == mime_of(ext),
{
    let ext = path_extension(path);
    let r = mime_for_extension(&ext).to_owned();
    assert(is_extension(path@, opt_view(ext)) && r@ == mime_of(opt_view(ext)));
    r
}

// ---- what the kinds and the literals guarantee -----------------------------

/// Pictures are told apart by their extension, whatever its case: JPEG by two
/// of them, WebP by one, and everything else counts as PNG.
pub proof fn law_media_type_goes_by_the_extension(ext: &Option<String>, r: &'static str)
    requires
        call_ensures(mime_for_extension, (ext,), r),
    ensures
        *ext is None ==> r@ == "image/png"@,
        *ext matches Some(e) ==> {
            &&& ascii_lower(e@) == "jpg"@ ==> r@ == "image/jpeg"@
            &&& ascii_lower(e@) == "jpeg"@ ==> r@ == "image/jpeg"@
            &&& ascii_lower(e@) == "webp"@ ==> r@ == "image/webp"@
            &&& ascii_lower(e@) != "jpg"@ && ascii_lower(e@) != "jpeg"@ && ascii_lower(e@)
                != "webp"@ ==> r@ == "image/png"@
        },
{
    lemma_kinds_apart();
}

/// A picture is kept under its own kind, in lower case, and as PNG where the
/// kind is not known.
pub proof fn law_pictures_keep_their_kind(ext: &Option<String>, r: &'static str)
    requires
        call_ensures(picture_extension, (ext,), r),
    ensures
        *ext is None ==> r@ == "png"@,
        *ext matches Some(e) ==> {
            &&& ascii_lower(e@) == "jpg"@ || ascii_lower(e@) == "jpeg"@ || ascii_lower(e@)
                == "webp"@ ==> r@ == ascii_lower(e@)
            &&& ascii_lower(e@) != "jpg"@ && ascii_lower(e@) != "jpeg"@ && ascii_lower(e@)
                != "webp"@ ==> r@ == "png"@
        },
{
    lemma_kinds_apart();
}

/// The kind that a picture is kept under has the media type of the picture.
pub proof fn law_kept_kind_has_the_same_media_type(
    ext: &Option<String>,
    kept: &'static str,
    again: &Option<String>,
    first: &'static str,
    second: &'static str,
)
    requires
        call_ensures(picture_extension, (ext,), kept),
        *again matches Some(a) && a@ == kept@,
        call_ensures(mime_for_extension, (ext,), first),
        call_ensures(mime_for_extension, (again,), second),
    ensures
        first@ == second@,
{
    lemma_kinds_apart();
    assert(ascii_lower("jpg"@) =~= "jpg"@);
    assert(ascii_lower("jpeg"@) =~= "jpeg"@);
    assert(ascii_lower("webp"@) =~= "webp"@);
    assert(ascii_lower("png"@) =~= "png"@);
}

proof fn lemma_kinds_apart()
    ensures
        "jpg"@ == seq!['j', 'p', 'g'],
        "jpeg"@ == seq!['j', 'p', 'e', 'g'],
        "webp"@ == seq!['w', 'e', 'b', 'p'],
        "png"@ == seq!['p', 'n', 'g'],
        "jpg"@ != "jpeg"@ && "jpg"@ != "webp"@ && "jpg"@ != "png"@,
        "jpeg"@ != "webp"@ && "jpeg"@ != "png"@ && "webp"@ != "png"@,
{
    reveal_strlit("jpg");
    reveal_strlit("jpeg");
    reveal_strlit("webp");
    reveal_strlit("png");
    assert("jpg"@ =~= seq!['j', 'p', 'g']);
    assert("jpeg"@ =~= seq!['j', 'p', 'e', 'g']);
    assert("webp"@ =~= seq!['w', 'e', 'b', 'p']);
    assert("png"@ =~= seq!['p', 'n', 'g']);
    assert("jpg"@[0] != "png"@[0]);
    assert("jpeg"@[0] != "webp"@[0]);
}

/// A file below the folder of the source is written relative to it, in quotes.
pub proof fn law_files_below_are_written_relative(
    picked: &str,
    dir: &Option<String>,
    rel: Seq<char>,
    r: String,
)
    requires
        call_ensures(relative_literal, (picked, dir), r),
        *dir is Some,
        clean((dir->0)@),
        clean(picked@),
        rel.len() > 0,
        picked@ == (dir->0)@ + seq!['/'] + rel,
    ensures
        r@ == seq!['"'] + rel + seq!['"'],
{
    reveal_strlit("\"");
    let d = (dir->0)@;
    assert("\""@ =~= seq!['"']);
    assert(d != seq!['/']) by {
        assert(d.last() != '/');
    }
    assert(picked@.take(d.len() as int) =~= d);
    assert(picked@.skip(d.len() as int + 1) =~= rel);
}

/// A file that lies elsewhere, or a source that was never saved, leaves the
/// path as it was picked, in quotes.
pub proof fn law_files_elsewhere_are_written_whole(picked: &str, dir: &Option<String>, r: String)
    requires
        call_ensures(relative_literal, (picked, dir), r),
        *dir is None || clean(picked@) && clean((dir->0)@) && !(dir->0)@.is_prefix_of(picked@),
    ensures
        r@ == seq!['"'] + picked@ + seq!['"'],
{
    reveal_strlit("\"");
    assert("\""@ =~= seq!['"']);
    if *dir is Some {
        let d = (dir->0)@;
        assert(d != seq!['/']) by {
            assert(d.last() != '/');
        }
        if picked@ == d {
            assert(d.is_prefix_of(picked@));
        }
        if picked@.len() > d.len() && picked@.take(d.len() as int) == d {
            assert(picked@.subrange(0, d.len() as int) =~= picked@.take(d.len() as int));
            assert(d.is_prefix_of(picked@));
        }
    }
}

} // verus!
