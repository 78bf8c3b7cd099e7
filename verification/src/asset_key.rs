//! Logical asset paths of the web host: `/assets/<category>/<file>`.
use crate::text::{
    ascii_alnum, chars_of, has_prefix, is_ascii_alnum, seq_eq, slice_chars, starts_with,
};
use vstd::prelude::*;

verus! {

/// Position of the first `c` in `s`, or -1.
pub open spec fn find_char(s: Seq<char>, c: char) -> int
    decreases s.len(),
{
    if s.len() == 0 {
        -1
    } else if s[0] == c {
        0
    } else {
        let r = find_char(s.drop_first(), c);
        if r < 0 {
            -1
        } else {
            r + 1
        }
    }
}

pub proof fn lemma_find_char(s: Seq<char>, c: char)
    ensures
        -1 <= find_char(s, c) < s.len(),
        find_char(s, c) >= 0 ==> s[find_char(s, c)] == c,
        forall|j: int| 0 <= j < find_char(s, c) ==> s[j] != c,
        find_char(s, c) < 0 ==> forall|j: int| 0 <= j < s.len() ==> s[j] != c,
    decreases s.len(),
{
    if s.len() > 0 && s[0] != c {
        lemma_find_char(s.drop_first(), c);
        assert forall|j: int| 0 < j < s.len() implies s[j] == s.drop_first()[j - 1] by {}
    }
}

/// Position of the first `c` in `s`.
pub fn find_char_in(s: &[char], c: char) -> (r: Option<usize>)
    ensures
        r is None <==> find_char(s@, c) < 0,
        r matches Some(i) ==> i == find_char(s@, c) && i < s@.len(),
{
    proof {
        lemma_find_char(s@, c);
    }
    let mut i: usize = 0;
    while i < s.len()
        invariant
            i <= s.len(),
            forall|j: int| 0 <= j < i ==> s@[j] != c,
            -1 <= find_char(s@, c) < s@.len(),
            find_char(s@, c) >= 0 ==> s@[find_char(s@, c)] == c,
            forall|j: int| 0 <= j < find_char(s@, c) ==> s@[j] != c,
            find_char(s@, c) < 0 ==> forall|j: int| 0 <= j < s@.len() ==> s@[j] != c,
        decreases s.len() - i,
    {
        if s[i] == c {
            proof {
                let f = find_char(s@, c);
                if f < 0 {
                    assert(s@[i as int] != c);
                } else if f < i {
                    assert(s@[f] != c);
                } else if f > i {
                    assert(s@[i as int] != c);
                }
            }
            return Some(i);
        }
        i += 1;
    }
    None
}

/// Categories of logical asset paths.
pub open spec fn is_asset_category(c: Seq<char>) -> bool {
    c == "images"@ || c == "fonts"@ || c == "sounds"@ || c == "css"@ || c == "scripts"@
}

/// Characters allowed in an asset file name.
pub open spec fn is_asset_name_char(c: char) -> bool {
    is_ascii_alnum(c) || c == '-' || c == '_' || c == '.'
}

/// The file part of an asset path after its category, without the `originals/` folder
/// that sound originals live in.
pub open spec fn asset_file_part(category: Seq<char>, file: Seq<char>) -> Seq<char> {
    if category == "sounds"@ && starts_with(file, "originals/"@) {
        file.skip("originals/"@.len() as int)
    } else {
        file
    }
}

/// A logical asset path: `/assets/`, a category, `/`, and a non-empty file name made of
/// ASCII letters, digits, `-`, `_` and `.` that is neither `.` nor `..`. Sounds may sit one
/// level down, under `originals/`.
pub open spec fn spec_is_web_asset_key(k: Seq<char>) -> bool {
    starts_with(k, "/assets/"@) && {
        let rest = k.skip("/assets/"@.len() as int);
        let p = find_char(rest, '/');
        p >= 0 && {
            let category = rest.take(p);
            let file = asset_file_part(category, rest.skip(p + 1));
            &&& is_asset_category(category)
            &&& file.len() > 0
            &&& file != "."@
            &&& file != ".."@
            &&& forall|i: int| 0 <= i < file.len() ==> is_asset_name_char(#[trigger] file[i])
        }
    }
}

fn all_name_chars(s: &[char]) -> (r: bool)
    ensures
        r == forall|i: int| 0 <= i < s@.len() ==> is_asset_name_char(#[trigger] s@[i]),
{
    let mut i: usize = 0;
    while i < s.len()
        invariant
            i <= s.len(),
            forall|j: int| 0 <= j < i ==> is_asset_name_char(#[trigger] s@[j]),
        decreases s.len() - i,
    {
        let c = s[i];
        if !(ascii_alnum(c) || c == '-' || c == '_' || c == '.') {
            return false;
        }
        i += 1;
    }
    true
}

/// Whether a text is a logical asset path of the web host.
pub fn is_web_asset_key(key: &str) -> (r: bool)
    ensures
        r == spec_is_web_asset_key(key@),
{
    let k = chars_of(key);
    let prefix = chars_of("/assets/");
    if !has_prefix(&k, &prefix) {
        return false;
    }
    let rest = slice_chars(&k, prefix.len(), k.len());
    assert(rest@ == key@.skip("/assets/"@.len() as int));
    let p = match find_char_in(&rest, '/') {
        Some(p) => p,
        None => {
            return false;
        },
    };
    let category = slice_chars(&rest, 0, p);
    assert(category@ == rest@.take(p as int));
    let file0 = slice_chars(&rest, p + 1, rest.len());
    assert(file0@ == rest@.skip(p + 1));
    let sounds = chars_of("sounds");
    let originals = chars_of("originals/");
    let file = if seq_eq(&category, &sounds) && has_prefix(&file0, &originals) {
        slice_chars(&file0, originals.len(), file0.len())
    } else {
        file0
    };
    let is_category = seq_eq(&category, &chars_of("images")) || seq_eq(&category, &chars_of("fonts"))
        || seq_eq(&category, &sounds) || seq_eq(&category, &chars_of("css")) || seq_eq(
        &category,
        &chars_of("scripts"),
    );
    is_category && file.len() > 0 && !seq_eq(&file, &chars_of(".")) && !seq_eq(
        &file,
        &chars_of(".."),
    ) && all_name_chars(&file)
}

} // verus!
