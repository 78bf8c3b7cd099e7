//! Image, sound and font references inside presets: embedded-asset references, data URLs,
//! remote URLs, local paths and file extensions.
use crate::asset_key::{find_char, find_char_in};
use crate::codec::{base64_decoded, decode_base64};
use crate::text::{
    ascii_alpha, chars_of, concat, has_prefix, is_ascii_alpha, lower_seq, seq_eq, slice_chars,
    starts_with, string_of, to_lower, trim, trim_chars,
};
use crate::web_assets::is_plain_extension;
use crate::file_url::{file_url_to_path, spec_file_url_to_path, FileUrlPath, FileUrlPathV};
use vstd::prelude::*;

verus! {

/// Reference text of an image embedded in a preset: this prefix, then the image id.
pub const PRESET_LOCAL_IMAGE_PREFIX: &'static str = "dmnote-preset-image:";

/// Reference text of a sound embedded in a preset: this prefix, then the sound id.
pub const PRESET_LOCAL_SOUND_PREFIX: &'static str = "dmnote-preset-sound:";

/// Whether an optional text holds something other than white space.
pub open spec fn spec_has_text(o: Option<Seq<char>>) -> bool {
    o matches Some(s) && trim(s).len() > 0
}

pub fn has_text(o: &Option<String>) -> (r: bool)
    ensures
        r == spec_has_text(o.deep_view()),
{
    match o {
        Some(s) => {
            let v = chars_of(s.as_str());
            trim_chars(&v).len() > 0
        },
        None => false,
    }
}

/// References that point outside the local asset store and stay as they are.
pub open spec fn spec_is_remote_ref(t: Seq<char>) -> bool {
    let l = lower_seq(t);
    starts_with(l, "http://"@) || starts_with(l, "https://"@) || starts_with(l, "blob:"@)
        || starts_with(l, "asset:"@) || starts_with(l, "tauri:"@)
}

pub fn is_remote_ref(t: &[char]) -> (r: bool)
    ensures
        r == spec_is_remote_ref(t@),
{
    let l = to_lower(t);
    has_prefix(&l, &chars_of("http://")) || has_prefix(&l, &chars_of("https://")) || has_prefix(
        &l,
        &chars_of("blob:"),
    ) || has_prefix(&l, &chars_of("asset:")) || has_prefix(&l, &chars_of("tauri:"))
}

/// The local path that a reference names: for a file URL the path that it names (see
/// [`spec_file_url_to_path`]), otherwise the trimmed reference where it is an absolute
/// path (`/…`, `\\…` or a drive letter path). Relative texts name no local path.
pub open spec fn spec_image_source(reference: Seq<char>) -> Option<Seq<char>> {
    let r = trim(reference);
    match spec_file_url_to_path(r) {
        FileUrlPathV::Path(p) => Some(p),
        FileUrlPathV::Invalid => None,
        FileUrlPathV::NotFileUrl => if starts_with(r, "/"@) || starts_with(r, "\\\\"@) || (r.len() >= 3
            && is_ascii_alpha(r[0]) && r[1] == ':' && (r[2] == '/' || r[2] == '\\')) {
            Some(r)
        } else {
            None
        },
    }
}

pub fn image_source(reference: &str) -> (r: Option<String>)
    ensures
        r.deep_view() == spec_image_source(reference@),
{
    let v = chars_of(reference);
    let r = trim_chars(&v);
    match file_url_to_path(string_of(&r).as_str()) {
        FileUrlPath::Path(p) => {
            return Some(p);
        },
        FileUrlPath::Invalid => {
            return None;
        },
        FileUrlPath::NotFileUrl => {},
    }
    let windows = r.len() >= 3 && ascii_alpha(r[0]) && r[1] == ':' && (r[2] == '/' || r[2]
        == '\\');
    if has_prefix(&r, &chars_of("/")) || has_prefix(&r, &chars_of("\\\\")) || windows {
        Some(string_of(&r))
    } else {
        None
    }
}

/// The text after the last `/` of a path.
pub open spec fn last_segment(p: Seq<char>) -> Seq<char>
    decreases p.len(),
{
    if p.len() == 0 {
        p
    } else if p.last() == '/' {
        Seq::empty()
    } else {
        last_segment(p.drop_last()).push(p.last())
    }
}

/// The part of a file name after its last `.`, where that dot is not the name's first
/// character.
pub open spec fn dot_extension(n: Seq<char>) -> Option<Seq<char>>
    decreases n.len(),
{
    if n.len() <= 1 {
        None
    } else if n.last() == '.' {
        Some(Seq::empty())
    } else {
        match dot_extension(n.drop_last()) {
            Some(e) => Some(e.push(n.last())),
            None => None,
        }
    }
}

/// A path that `std::path` splits alike on every platform: no `\` and no `:` (which only
/// Windows reads as separators or prefixes), not starting with `//`, and ending in a file
/// name that is neither `.` nor `..`.
pub open spec fn is_portable_file_path(p: Seq<char>) -> bool {
    &&& !p.contains('\\')
    &&& !p.contains(':')
    &&& !starts_with(p, "//"@)
    &&& last_segment(p).len() > 0
    &&& last_segment(p) != "."@
    &&& last_segment(p) != ".."@
}

/// The extension of a portable path, as `std::path::Path::extension` documents it: the
/// part of the file name after its last dot, unless the name has no dot or only a
/// leading one.
pub open spec fn path_extension(p: Seq<char>) -> Option<Seq<char>> {
    dot_extension(last_segment(p))
}

/// The last segment of `a/f` is `f` when `f` holds no `/`.
pub proof fn lemma_last_segment_after_slash(a: Seq<char>, f: Seq<char>)
    requires
        !f.contains('/'),
    ensures
        last_segment(a + "/"@ + f) == f,
    decreases f.len(),
{
    reveal_strlit("/");
    if f.len() == 0 {
        assert(a + "/"@ + f =~= a.push('/'));
    } else {
        let g = f.drop_last();
        assert(!g.contains('/')) by {
            if g.contains('/') {
                let j = choose|j: int| 0 <= j < g.len() && g[j] == '/';
                assert(f[j] == '/');
            }
        }
        lemma_last_segment_after_slash(a, g);
        assert((a + "/"@ + f).drop_last() =~= a + "/"@ + g);
        assert(f.last() != '/');
        assert(g.push(f.last()) =~= f);
    }
}

/// Every logical asset path is portable: its characters are letters, digits, `-`, `_`,
/// `.` and `/`, it starts with `/assets/`, and it ends in a file name that is neither `.`
/// nor `..`.
pub proof fn lemma_web_key_portable(k: Seq<char>)
    requires
        crate::asset_key::spec_is_web_asset_key(k),
    ensures
        is_portable_file_path(k),
{
    reveal_strlit("/assets/");
    reveal_strlit("/");
    reveal_strlit("//");
    reveal_strlit("images");
    reveal_strlit("fonts");
    reveal_strlit("sounds");
    reveal_strlit("css");
    reveal_strlit("scripts");
    reveal_strlit("originals/");
    reveal_strlit(".");
    reveal_strlit("..");
    let rest = k.skip(8);
    crate::asset_key::lemma_find_char(rest, '/');
    let p = crate::asset_key::find_char(rest, '/');
    let category = rest.take(p);
    let tail = rest.skip(p + 1);
    let file = crate::asset_key::asset_file_part(category, tail);
    let head = if category == "sounds"@ && starts_with(tail, "originals/"@) {
        "/assets/"@ + category + "/"@ + "originals"@
    } else {
        "/assets/"@ + category
    };
    assert(k =~= head + "/"@ + file) by {
        assert(k =~= "/assets/"@ + rest);
        assert(rest =~= category + "/"@ + tail);
        if category == "sounds"@ && starts_with(tail, "originals/"@) {
            reveal_strlit("originals");
            assert(file =~= tail.skip(10));
            assert(tail.take(10) =~= "originals/"@);
            assert(tail =~= tail.take(10) + tail.skip(10));
            assert("originals/"@ =~= "originals"@ + "/"@);
            assert(tail =~= "originals"@ + "/"@ + file);
        }
    }
    assert(!file.contains('/')) by {
        if file.contains('/') {
            let j = choose|j: int| 0 <= j < file.len() && file[j] == '/';
            assert(crate::asset_key::is_asset_name_char(file[j]));
        }
    }
    lemma_last_segment_after_slash(head, file);
    assert forall|i: int| 0 <= i < k.len() implies k[i] != '\\' && k[i] != ':' by {
        if i < 8 {
            assert(k[i] == "/assets/"@[i]);
        } else if i - 8 < p {
            assert(k[i] == category[i - 8]);
        } else if i - 8 == p {
            assert(k[i] == '/');
        } else {
            assert(k[i] == tail[i - 9 - p]);
            if category == "sounds"@ && starts_with(tail, "originals/"@) && i - 9 - p < 10 {
                assert(tail[i - 9 - p] == "originals/"@[i - 9 - p]);
            } else if category == "sounds"@ && starts_with(tail, "originals/"@) {
                assert(tail[i - 9 - p] == file[i - 19 - p]);
                assert(crate::asset_key::is_asset_name_char(file[i - 19 - p]));
            } else {
                assert(crate::asset_key::is_asset_name_char(file[i - 9 - p]));
            }
        }
    }
    assert(!starts_with(k, "//"@)) by {
        assert(k[1] == 'a');
    }
}

/// `e` is what `Path::extension` may report for `p`: the portable reading for a portable
/// path, and on other paths whatever the platform reads.
pub open spec fn extension_read(p: Seq<char>, e: Option<Seq<char>>) -> bool {
    is_portable_file_path(p) ==> e == path_extension(p)
}

/// Calls `Path::extension` and converts the result with `to_str`. How a path splits
/// depends on the platform (on Windows `\` is a separator and `C:` a prefix), so the
/// result is stated for portable paths only.
#[verifier::external_body]
pub(crate) fn extension_of(p: &str) -> (r: Option<String>)
    ensures
        extension_read(p@, r.deep_view()),
{
    std::path::Path::new(p).extension().and_then(|e| e.to_str()).map(|e| e.to_string())
}

/// A path that `std::path` reads as the same components on every platform: not empty, no
/// `\`, no `:`, no empty or `.` segment, and no trailing `/`.
pub open spec fn is_plain_path(p: Seq<char>) -> bool {
    &&& p.len() > 0
    &&& !p.contains('\\')
    &&& !p.contains(':')
    &&& p.last() != '/'
    &&& forall|i: int| 0 <= i < p.len() - 1 ==> !(p[i] == '/' && #[trigger] p[i + 1] == '/')
    &&& forall|i: int|
        0 <= i < p.len() && #[trigger] p[i] == '.' ==> !((i == 0 || p[i - 1] == '/') && (i + 1 == p.len()
            || p[i + 1] == '/'))
}

/// Whole components of `base` begin `p`: `p` is `base` or lies below it.
pub open spec fn path_under(p: Seq<char>, base: Seq<char>) -> bool {
    p == base || starts_with(p, base + "/"@)
}

/// Calls `Path::starts_with`, which compares whole components; stated for plain paths,
/// which every platform splits alike.
#[verifier::external_body]
pub(crate) fn path_has_base(p: &str, base: &str) -> (r: bool)
    ensures
        is_plain_path(p@) && is_plain_path(base@) ==> r == path_under(p@, base@),
{
    std::path::Path::new(p).starts_with(base)
}

/// The characters of an optional text.
pub open spec fn opt_text(e: Option<&str>) -> Option<Seq<char>> {
    match e {
        Some(x) => Some(x@),
        None => None,
    }
}

/// Image extensions kept as they are; every other one becomes `png`.
pub open spec fn spec_normalize_image_extension(e: Option<Seq<char>>) -> Seq<char> {
    let l = lower_seq(trim(
        match e {
            Some(x) => x,
            None => Seq::empty(),
        },
    ));
    if l == "jpg"@ || l == "jpeg"@ || l == "webp"@ || l == "gif"@ || l == "bmp"@ || l == "svg"@
        || l == "ico"@ || l == "avif"@ || l == "png"@ {
        l
    } else {
        "png"@
    }
}

fn one_of(l: &Vec<char>, names: &[&str]) -> (r: bool)
    ensures
        r == exists|i: int| 0 <= i < names@.len() && l@ == names@[i]@,
{
    let mut i: usize = 0;
    while i < names.len()
        invariant
            i <= names.len(),
            forall|j: int| 0 <= j < i ==> l@ != names@[j]@,
        decreases names.len() - i,
    {
        if seq_eq(l, &chars_of(names[i])) {
            return true;
        }
        i += 1;
    }
    false
}

fn lowered_trimmed(e: Option<&str>) -> (r: Vec<char>)
    ensures
        r@ == lower_seq(
            trim(
                match e {
                    Some(x) => x@,
                    None => Seq::<char>::empty(),
                },
            ),
        ),
{
    let v = match e {
        Some(x) => chars_of(x),
        None => Vec::new(),
    };
    proof {
        if e is None {
            assert(v@ =~= Seq::<char>::empty());
        }
    }
    let t = trim_chars(&v);
    to_lower(&t)
}

/// Normalizes an image extension to one that the asset store keeps.
pub fn normalize_image_extension(e: Option<&str>) -> (r: String)
    ensures
        r@ == spec_normalize_image_extension(opt_text(e)),
{
    let l = lowered_trimmed(e);
    let names: [&str; 9] = ["jpg", "jpeg", "webp", "gif", "bmp", "svg", "ico", "avif", "png"];
    if one_of(&l, &names) {
        proof {
            let i = choose|i: int| 0 <= i < names@.len() && l@ == names@[i]@;
            assert(i == 0 || i == 1 || i == 2 || i == 3 || i == 4 || i == 5 || i == 6 || i == 7
                || i == 8);
        }
        string_of(&l)
    } else {
        proof {
            assert(l@ != names@[0]@ && l@ != names@[1]@ && l@ != names@[2]@ && l@ != names@[3]@
                && l@ != names@[4]@ && l@ != names@[5]@ && l@ != names@[6]@ && l@ != names@[7]@
                && l@ != names@[8]@);
        }
        string_of(&chars_of("png"))
    }
}

/// Font extensions kept as they are; every other one becomes `ttf`.
pub open spec fn spec_normalize_font_extension(e: Option<Seq<char>>) -> Seq<char> {
    let l = lower_seq(trim(
        match e {
            Some(x) => x,
            None => Seq::empty(),
        },
    ));
    if l == "ttf"@ || l == "otf"@ || l == "woff"@ || l == "woff2"@ {
        l
    } else {
        "ttf"@
    }
}

pub fn normalize_font_extension(e: Option<&str>) -> (r: String)
    ensures
        r@ == spec_normalize_font_extension(opt_text(e)),
{
    let l = lowered_trimmed(e);
    let names: [&str; 4] = ["ttf", "otf", "woff", "woff2"];
    if one_of(&l, &names) {
        proof {
            let i = choose|i: int| 0 <= i < names@.len() && l@ == names@[i]@;
            assert(i == 0 || i == 1 || i == 2 || i == 3);
        }
        string_of(&l)
    } else {
        proof {
            assert(l@ != names@[0]@ && l@ != names@[1]@ && l@ != names@[2]@ && l@ != names@[3]@);
        }
        string_of(&chars_of("ttf"))
    }
}

/// Sound extensions kept as they are; every other one becomes `wav`.
pub open spec fn spec_normalize_sound_extension(e: Option<Seq<char>>) -> Seq<char> {
    let l = lower_seq(trim(
        match e {
            Some(x) => x,
            None => Seq::empty(),
        },
    ));
    if l == "wav"@ || l == "mp3"@ || l == "ogg"@ || l == "flac"@ || l == "m4a"@ || l == "aac"@
        || l == "aif"@ || l == "aiff"@ {
        l
    } else {
        "wav"@
    }
}

pub fn normalize_sound_extension(e: Option<&str>) -> (r: String)
    ensures
        r@ == spec_normalize_sound_extension(opt_text(e)),
{
    let l = lowered_trimmed(e);
    let names: [&str; 8] = ["wav", "mp3", "ogg", "flac", "m4a", "aac", "aif", "aiff"];
    if one_of(&l, &names) {
        proof {
            let i = choose|i: int| 0 <= i < names@.len() && l@ == names@[i]@;
            assert(i == 0 || i == 1 || i == 2 || i == 3 || i == 4 || i == 5 || i == 6 || i == 7);
        }
        string_of(&l)
    } else {
        proof {
            assert(l@ != names@[0]@ && l@ != names@[1]@ && l@ != names@[2]@ && l@ != names@[3]@
                && l@ != names@[4]@ && l@ != names@[5]@ && l@ != names@[6]@ && l@ != names@[7]@);
        }
        string_of(&chars_of("wav"))
    }
}

/// The bytes and extension of a base64 image data URL
/// (`data:image/<type>;base64,<payload>`, scheme and marker in any case).
pub open spec fn spec_decode_image_data_url(t: Seq<char>) -> Option<(Seq<u8>, Seq<char>)> {
    if !starts_with(lower_seq(t), "data:image/"@) {
        None
    } else {
        let rest = t.skip("data:image/"@.len() as int);
        let semi = find_char(rest, ';');
        if semi < 0 {
            None
        } else {
            let subtype = rest.take(semi);
            let after = rest.skip(semi);
            if !starts_with(lower_seq(after), ";base64,"@) {
                None
            } else {
                match base64_decoded(after.skip(";base64,"@.len() as int)) {
                    None => None,
                    Some(bytes) => Some(
                        (
                            bytes,
                            if lower_seq(subtype) == "svg+xml"@ {
                                "svg"@
                            } else {
                                spec_normalize_image_extension(Some(subtype))
                            },
                        ),
                    ),
                }
            }
        }
    }
}

pub fn decode_image_data_url(t: &[char]) -> (r: Option<(Vec<u8>, String)>)
    ensures
        r matches Some((b, e)) ==> spec_decode_image_data_url(t@) == Some((b@, e@)),
        r is None ==> spec_decode_image_data_url(t@) is None,
{
    let head = chars_of("data:image/");
    let l = to_lower(t);
    if !has_prefix(&l, &head) {
        return None;
    }
    let rest = slice_chars(t, head.len(), t.len());
    let semi = match find_char_in(&rest, ';') {
        Some(s) => s,
        None => {
            return None;
        },
    };
    let subtype = slice_chars(&rest, 0, semi);
    let after = slice_chars(&rest, semi, rest.len());
    let marker = chars_of(";base64,");
    if !has_prefix(&to_lower(&after), &marker) {
        return None;
    }
    let payload = slice_chars(&after, marker.len(), after.len());
    let text = string_of(&payload);
    match decode_base64(text.as_str()) {
        Err(_) => None,
        Ok(bytes) => {
            let lower_sub = to_lower(&subtype);
            let ext = if seq_eq(&lower_sub, &chars_of("svg+xml")) {
                string_of(&chars_of("svg"))
            } else {
                let s = string_of(&subtype);
                normalize_image_extension(Some(s.as_str()))
            };
            proof {
                assert(rest@ =~= t@.skip("data:image/"@.len() as int));
                assert(subtype@ =~= rest@.take(semi as int));
                assert(after@ =~= rest@.skip(semi as int));
                assert(payload@ =~= after@.skip(";base64,"@.len() as int));
            }
            Some((bytes, ext))
        },
    }
}

/// Reference text `<prefix><id>` of an embedded asset.
pub fn prefixed(prefix: &str, id: &str) -> (r: String)
    ensures
        r@ == prefix@ + id@,
{
    concat(prefix, id)
}

/// The id that follows a prefix, if the text starts with it.
pub fn strip_prefix(t: &[char], prefix: &str) -> (r: Option<String>)
    ensures
        r is Some <==> starts_with(t@, prefix@),
        r matches Some(id) ==> id@ == t@.skip(prefix@.len() as int),
{
    let p = chars_of(prefix);
    if has_prefix(t, &p) {
        Some(string_of(&slice_chars(t, p.len(), t.len())))
    } else {
        None
    }
}

/// Every normalized image extension is made of letters and digits.
pub proof fn lemma_image_extension_plain(e: Option<Seq<char>>)
    ensures
        is_plain_extension(spec_normalize_image_extension(e)),
{
    reveal_strlit("jpg");
    reveal_strlit("jpeg");
    reveal_strlit("webp");
    reveal_strlit("gif");
    reveal_strlit("bmp");
    reveal_strlit("svg");
    reveal_strlit("ico");
    reveal_strlit("avif");
    reveal_strlit("png");
}

/// Every image extension that a data URL yields is made of letters and digits.
pub proof fn lemma_data_url_extension_plain(t: Seq<char>)
    requires
        spec_decode_image_data_url(t) is Some,
    ensures
        match spec_decode_image_data_url(t) {
            Some(decoded) => is_plain_extension(decoded.1),
            None => true,
        },
{
    reveal_strlit("svg");
    let rest = t.skip("data:image/"@.len() as int);
    let semi = find_char(rest, ';');
    lemma_image_extension_plain(Some(rest.take(semi)));
}

/// Every normalized font extension is made of letters and digits.
pub proof fn lemma_font_extension_plain(e: Option<Seq<char>>)
    ensures
        is_plain_extension(spec_normalize_font_extension(e)),
{
    reveal_strlit("ttf");
    reveal_strlit("otf");
    reveal_strlit("woff");
    reveal_strlit("woff2");
}

/// Every normalized sound extension is made of letters and digits.
pub proof fn lemma_sound_extension_plain(e: Option<Seq<char>>)
    ensures
        is_plain_extension(spec_normalize_sound_extension(e)),
{
    reveal_strlit("wav");
    reveal_strlit("mp3");
    reveal_strlit("ogg");
    reveal_strlit("flac");
    reveal_strlit("m4a");
    reveal_strlit("aac");
    reveal_strlit("aif");
    reveal_strlit("aiff");
}

} // verus!
