//! Asset references that survive a move of the application's data folder: absolute paths
//! that end in `<data folder>/<category>/<file>`.
use crate::text::{
    ascii_alpha, char_is_whitespace, chars_of, has_prefix, is_ascii_alpha, lower_seq, seq_eq,
    starts_with, string_of, to_lower, trim, trim_chars, trim_start,
};
use crate::file_url::{file_url_to_path, spec_file_url_to_path, FileUrlPath, FileUrlPathV};
use vstd::prelude::*;

verus! {

/// Name of the application's data folder.
pub const APP_DATA_MARKER: &'static str = "com.dmnote.desktop";

/// The asset folders of the data folder.
#[derive(Clone, Copy, Debug, PartialEq, Eq, Structural)]
pub enum AssetCategory {
    Sounds,
    Fonts,
    Images,
}

/// The folder name of a category.
pub open spec fn category_folder(c: AssetCategory) -> Seq<char> {
    match c {
        AssetCategory::Sounds => "sounds"@,
        AssetCategory::Fonts => "fonts"@,
        AssetCategory::Images => "images"@,
    }
}

/// The category whose folder has this name.
pub open spec fn category_of(name: Seq<char>) -> Option<AssetCategory> {
    if name == "sounds"@ {
        Some(AssetCategory::Sounds)
    } else if name == "fonts"@ {
        Some(AssetCategory::Fonts)
    } else if name == "images"@ {
        Some(AssetCategory::Images)
    } else {
        None
    }
}

impl AssetCategory {
    /// The folder name of the category.
    pub fn directory_name(self) -> (r: &'static str)
        ensures
            r@ == category_folder(self),
    {
        match self {
            AssetCategory::Sounds => "sounds",
            AssetCategory::Fonts => "fonts",
            AssetCategory::Images => "images",
        }
    }

    fn from_directory_name(value: &[char]) -> (r: Option<Self>)
        ensures
            r == category_of(value@),
    {
        if seq_eq(value, &chars_of("sounds")) {
            Some(AssetCategory::Sounds)
        } else if seq_eq(value, &chars_of("fonts")) {
            Some(AssetCategory::Fonts)
        } else if seq_eq(value, &chars_of("images")) {
            Some(AssetCategory::Images)
        } else {
            None
        }
    }
}

/// The finished components of a path and the one in progress, separators being `/` and `\`.
pub open spec fn split_parts(s: Seq<char>) -> (Seq<Seq<char>>, Seq<char>)
    decreases s.len(),
{
    if s.len() == 0 {
        (Seq::empty(), Seq::empty())
    } else {
        let (done, cur) = split_parts(s.drop_last());
        let c = s.last();
        if c == '/' || c == '\\' {
            if cur.len() > 0 {
                (done.push(cur), Seq::empty())
            } else {
                (done, Seq::empty())
            }
        } else {
            (done, cur.push(c))
        }
    }
}

/// The non-empty components of a path, separators being `/` and `\`.
pub open spec fn path_components(s: Seq<char>) -> Seq<Seq<char>> {
    let (done, cur) = split_parts(s);
    if cur.len() > 0 {
        done.push(cur)
    } else {
        done
    }
}

fn components(s: &[char]) -> (r: Vec<Vec<char>>)
    ensures
        r.deep_view() == path_components(s@),
{
    let mut done: Vec<Vec<char>> = Vec::new();
    let mut cur: Vec<char> = Vec::new();
    let mut i: usize = 0;
    while i < s.len()
        invariant
            i <= s.len(),
            (done.deep_view(), cur@) == split_parts(s@.take(i as int)),
        decreases s.len() - i,
    {
        let ghost pre = s@.take(i + 1);
        assert(pre.drop_last() =~= s@.take(i as int));
        assert(pre.last() == s@[i as int]);
        let c = s[i];
        if c == '/' || c == '\\' {
            if cur.len() > 0 {
                let ghost before = done.deep_view();
                let ghost cv = cur@;
                assert(cur.deep_view() =~= cv);
                let finished = cur;
                done.push(finished);
                cur = Vec::new();
                proof {
                    assert(done.deep_view() =~= before.push(cv));
                    assert(cur@ =~= Seq::<char>::empty());
                }
            } else {
                assert(cur@ =~= Seq::<char>::empty());
            }
        } else {
            cur.push(c);
        }
        i += 1;
    }
    assert(s@.take(s.len() as int) =~= s@);
    if cur.len() > 0 {
        let ghost before = done.deep_view();
        let ghost cv = cur@;
        assert(cur.deep_view() =~= cv);
        done.push(cur);
        assert(done.deep_view() =~= before.push(cv));
    }
    done
}

/// A component that names the data folder, letter case aside.
pub open spec fn is_marker(c: Seq<char>) -> bool {
    lower_seq(c) == APP_DATA_MARKER@
}

/// `m` is the last component that names the data folder.
pub open spec fn is_last_marker(c: Seq<Seq<char>>, m: int) -> bool {
    &&& 0 <= m < c.len()
    &&& is_marker(c[m])
    &&& forall|j: int| m < j < c.len() ==> !is_marker(#[trigger] c[j])
}

/// The drive-letter form `C:\` or `C:/`.
pub open spec fn is_windows_drive(t: Seq<char>) -> bool {
    t.len() >= 3 && is_ascii_alpha(t[0]) && t[1] == ':' && (t[2] == '\\' || t[2] == '/')
}

/// The verbatim drive form `\\?\C:\`.
pub open spec fn is_verbatim_drive(t: Seq<char>) -> bool {
    starts_with(lower_seq(t), "\\\\?\\"@) && t.len() >= 7 && is_ascii_alpha(t[4]) && t[5] == ':' && (t[6]
        == '\\' || t[6] == '/')
}

/// A network path, `\\server` or `//server`.
pub open spec fn is_network_path(t: Seq<char>) -> bool {
    starts_with(t, "\\\\"@) || starts_with(t, "//"@)
}

/// References that are URLs of other kinds, which no move of the data folder affects.
pub open spec fn is_url_reference(l: Seq<char>) -> bool {
    starts_with(l, "http://"@) || starts_with(l, "https://"@) || starts_with(l, "data:"@)
        || starts_with(l, "blob:"@) || starts_with(l, "asset:"@) || starts_with(l, "tauri:"@)
}

/// The path that a trimmed reference names for the portable check: the local path of a
/// file URL (one that names no path gives none), or the reference itself where it is an
/// absolute path (`/…`, a drive path, a verbatim drive path or a network path).
pub open spec fn portable_text(t: Seq<char>) -> Option<Seq<char>> {
    if starts_with(lower_seq(t), "file:"@) {
        match spec_file_url_to_path(t) {
            FileUrlPathV::Path(p) => Some(p),
            _ => None,
        }
    } else if starts_with(t, "/"@) || is_windows_drive(t) || is_verbatim_drive(t) || is_network_path(t) {
        Some(t)
    } else {
        None
    }
}

/// The category and file name that a path names inside the data folder: it has no `.` or
/// `..` components, and its last data-folder component is followed by exactly a category
/// folder and a file name.
pub open spec fn components_named(p: Seq<char>) -> Option<(AssetCategory, Seq<char>)> {
    let c = path_components(p);
    let m = choose|m: int| is_last_marker(c, m);
    if exists|i: int| 0 <= i < c.len() && (#[trigger] c[i] == "."@ || c[i] == ".."@) {
        None
    } else if !(exists|m: int| is_last_marker(c, m)) || c.len() != m + 3 {
        None
    } else {
        match category_of(c[m + 1]) {
            None => None,
            Some(cat) => Some((cat, c[m + 2])),
        }
    }
}

/// The category and file name that a reference names inside the data folder: the trimmed
/// reference, unless it is empty or a URL of another kind, names a path (see
/// [`portable_text`]) that names them (see [`components_named`]).
pub open spec fn spec_parse_portable_reference(raw: Seq<char>) -> Option<(AssetCategory, Seq<char>)> {
    let t = trim(raw);
    if t.len() == 0 || is_url_reference(lower_seq(t)) {
        None
    } else {
        match portable_text(t) {
            None => None,
            Some(p) => components_named(p),
        }
    }
}

/// Finds the category and file name that a reference names inside the data folder.
pub fn parse_portable_asset_reference(raw: &str) -> (r: Option<(AssetCategory, String)>)
    ensures
        match r {
            None => spec_parse_portable_reference(raw@) is None,
            Some((cat, name)) => spec_parse_portable_reference(raw@) == Some((cat, name@)),
        },
{
    let trimmed = trim_chars(&chars_of(raw));
    if trimmed.len() == 0 {
        return None;
    }
    let lower = to_lower(&trimmed);
    if has_prefix(&lower, &chars_of("http://")) || has_prefix(&lower, &chars_of("https://"))
        || has_prefix(&lower, &chars_of("data:")) || has_prefix(&lower, &chars_of("blob:"))
        || has_prefix(&lower, &chars_of("asset:")) || has_prefix(&lower, &chars_of("tauri:")) {
        return None;
    }
    let portable = if has_prefix(&lower, &chars_of("file:")) {
        match file_url_to_path(string_of(&trimmed).as_str()) {
            FileUrlPath::Path(p) => chars_of(p.as_str()),
            _ => {
                return None;
            },
        }
    } else {
        let windows_drive = trimmed.len() >= 3 && ascii_alpha(trimmed[0]) && trimmed[1] == ':' && (
        trimmed[2] == '\\' || trimmed[2] == '/');
        let verbatim_drive = has_prefix(&lower, &chars_of("\\\\?\\")) && trimmed.len() >= 7 && ascii_alpha(
            trimmed[4],
        ) && trimmed[5] == ':' && (trimmed[6] == '\\' || trimmed[6] == '/');
        let network = has_prefix(&trimmed, &chars_of("\\\\")) || has_prefix(&trimmed, &chars_of("//"));
        if !has_prefix(&trimmed, &chars_of("/")) && !windows_drive && !verbatim_drive && !network {
            return None;
        }
        trimmed
    };
    named_components(&portable)
}

/// Finds the category and file name that a path names inside the data folder.
fn named_components(trimmed: &Vec<char>) -> (r: Option<(AssetCategory, String)>)
    ensures
        match r {
            None => components_named(trimmed@) is None,
            Some((cat, name)) => components_named(trimmed@) == Some((cat, name@)),
        },
{
    let parts = components(&trimmed);
    let mut i: usize = 0;
    while i < parts.len()
        invariant
            i <= parts.len(),
            parts.deep_view() == path_components(trimmed@),
            forall|j: int| 0 <= j < i ==> !(#[trigger] parts.deep_view()[j] == "."@ || parts.deep_view()[j] == ".."@),
        decreases parts.len() - i,
    {
        assert(parts.deep_view()[i as int] =~= parts[i as int]@);
        if seq_eq(&parts[i], &chars_of(".")) || seq_eq(&parts[i], &chars_of("..")) {
            proof {
                assert(parts.deep_view()[i as int] == "."@ || parts.deep_view()[i as int] == ".."@);
            }
            return None;
        }
        i += 1;
    }
    let ghost c = parts.deep_view();
    let mut k: usize = parts.len();
    let marker = chars_of(APP_DATA_MARKER);
    loop
        invariant_except_break
            forall|j: int| k <= j < c.len() ==> !is_marker(#[trigger] c[j]),
        invariant
            k <= parts.len(),
            c == parts.deep_view(),
            forall|j: int| 0 <= j < c.len() ==> !(#[trigger] c[j] == "."@ || c[j] == ".."@),
            parts.deep_view() == path_components(trimmed@),
            marker@ == APP_DATA_MARKER@,
        ensures
            k < parts.len(),
            is_marker(c[k as int]),
            forall|j: int| k < j < c.len() ==> !is_marker(#[trigger] c[j]),
        decreases k,
    {
        if k == 0 {
            proof {
                assert forall|m: int| !is_last_marker(c, m) by {
                    if is_last_marker(c, m) {
                        assert(!is_marker(c[m]));
                    }
                }
            }
            return None;
        }
        assert(c[k - 1] =~= parts[k - 1]@);
        if seq_eq(&to_lower(&parts[k - 1]), &marker) {
            k = k - 1;
            break;
        }
        k -= 1;
    }
    let m = k;
    proof {
        assert(is_last_marker(c, m as int));
        let w = choose|w: int| is_last_marker(c, w);
        if w < m {
            assert(!is_marker(c[m as int]));
        }
        if m < w {
            assert(!is_marker(c[w]));
        }
    }
    if parts.len() - m != 3 {
        return None;
    }
    assert(c[m + 1] =~= parts[m + 1]@);
    assert(c[m + 2] =~= parts[m + 2]@);
    let category = match AssetCategory::from_directory_name(&parts[m + 1]) {
        Some(cat) => cat,
        None => {
            return None;
        },
    };
    Some((category, string_of(&parts[m + 2])))
}

/// A plain file name: not empty, without separators, not `.` or `..`, without white space
/// at its end, and not the data folder's name.
pub open spec fn is_plain_file_name(f: Seq<char>) -> bool {
    &&& f.len() > 0
    &&& forall|i: int| 0 <= i < f.len() ==> f[i] != '/' && f[i] != '\\'
    &&& f != "."@
    &&& f != ".."@
    &&& !char_is_whitespace(f.last())
    &&& !is_marker(f)
}

/// A plain folder name: not empty, without separators, and not `.` or `..`.
pub open spec fn is_plain_folder_name(d: Seq<char>) -> bool {
    &&& d.len() > 0
    &&& forall|i: int| 0 <= i < d.len() ==> d[i] != '/' && d[i] != '\\'
    &&& d != "."@
    &&& d != ".."@
}

/// The reference to file `f` of category `c` in the data folder inside folder `d` at the
/// root.
pub open spec fn portable_path(d: Seq<char>, c: AssetCategory, f: Seq<char>) -> Seq<char> {
    "/"@ + d + "/"@ + APP_DATA_MARKER@ + "/"@ + category_folder(c) + "/"@ + f
}

/// Appending characters that are not separators extends the component in progress.
proof fn lemma_split_no_separator(a: Seq<char>, b: Seq<char>)
    requires
        forall|i: int| 0 <= i < b.len() ==> b[i] != '/' && b[i] != '\\',
    ensures
        split_parts(a + b) == (split_parts(a).0, split_parts(a).1 + b),
    decreases b.len(),
{
    if b.len() == 0 {
        assert(a + b =~= a);
        assert(split_parts(a).1 + b =~= split_parts(a).1);
    } else {
        let b0 = b.drop_last();
        lemma_split_no_separator(a, b0);
        assert((a + b).drop_last() =~= a + b0);
        assert((a + b).last() == b.last());
        assert(split_parts(a).1 + b0 + seq![b.last()] =~= split_parts(a).1 + b);
        assert((split_parts(a).1 + b0).push(b.last()) =~= split_parts(a).1 + b);
    }
}

/// A separator after a component in progress finishes it.
proof fn lemma_split_separator(a: Seq<char>)
    requires
        split_parts(a).1.len() > 0,
    ensures
        split_parts(a.push('/')) == (split_parts(a).0.push(split_parts(a).1), Seq::<char>::empty()),
{
    assert(a.push('/').drop_last() =~= a);
}

/// Lower-casing keeps a text whose letters are all lower case.
proof fn lemma_lower_same(s: Seq<char>)
    requires
        forall|i: int| 0 <= i < s.len() ==> !('A' <= #[trigger] s[i] && s[i] <= 'Z'),
    ensures
        lower_seq(s) == s,
{
    assert(lower_seq(s) =~= s);
}

/// A reference built from a category and a plain file name in the data folder names that
/// category and file again: reading back a portable reference gives what it was made of.
pub proof fn lemma_portable_reference_round_trip(d: Seq<char>, c: AssetCategory, f: Seq<char>)
    requires
        is_plain_folder_name(d),
        is_plain_file_name(f),
    ensures
        spec_parse_portable_reference(portable_path(d, c, f)) == Some((c, f)),
{
    reveal_strlit("/");
    reveal_strlit("com.dmnote.desktop");
    reveal_strlit("sounds");
    reveal_strlit("fonts");
    reveal_strlit("images");
    reveal_strlit(".");
    reveal_strlit("..");
    reveal_strlit("http://");
    reveal_strlit("https://");
    reveal_strlit("data:");
    reveal_strlit("blob:");
    reveal_strlit("asset:");
    reveal_strlit("tauri:");
    reveal_strlit("file:");
    let mk = APP_DATA_MARKER@;
    let folder = category_folder(c);
    let p = portable_path(d, c, f);
    let s0 = seq!['/'];
    let s1 = (s0 + d).push('/');
    let s2 = (s1 + mk).push('/');
    let s3 = (s2 + folder).push('/');
    assert(p =~= s3 + f);
    // the reference is its own trimmed form
    assert(p[0] == '/');
    assert(!char_is_whitespace(p[0]));
    assert(trim_start(p) == p);
    assert(p.last() == f.last());
    assert(trim(p) == p);
    // it is an absolute path and no URL
    let l = lower_seq(p);
    assert(l[0] == '/');
    assert(!is_url_reference(l)) by {
        assert(!starts_with(l, "http://"@)) by { assert(l.take(7)[0] != "http://"@[0]); }
        assert(!starts_with(l, "https://"@)) by { assert(l.take(8)[0] != "https://"@[0]); }
        assert(!starts_with(l, "data:"@)) by { assert(l.take(5)[0] != "data:"@[0]); }
        assert(!starts_with(l, "blob:"@)) by { assert(l.take(5)[0] != "blob:"@[0]); }
        assert(!starts_with(l, "asset:"@)) by { assert(l.take(6)[0] != "asset:"@[0]); }
        assert(!starts_with(l, "tauri:"@)) by { assert(l.take(6)[0] != "tauri:"@[0]); }
    }
    assert(!starts_with(l, "file:"@)) by { assert(l.take(5)[0] != "file:"@[0]); }
    assert(starts_with(p, "/"@)) by { assert(p.take(1) =~= "/"@); }
    // its components
    assert(split_parts(seq!['/']) == (Seq::<Seq<char>>::empty(), Seq::<char>::empty())) by {
        assert(seq!['/'].drop_last() =~= Seq::<char>::empty());
        assert(split_parts(Seq::<char>::empty()) == (Seq::<Seq<char>>::empty(), Seq::<char>::empty()));
    }
    assert forall|i: int| 0 <= i < mk.len() implies mk[i] != '/' && mk[i] != '\\' && !('A' <= #[trigger] mk[i] && mk[i] <= 'Z') by {}
    assert forall|i: int| 0 <= i < folder.len() implies folder[i] != '/' && folder[i] != '\\' && !('A' <= #[trigger] folder[i] && folder[i] <= 'Z') by {}
    lemma_split_no_separator(s0, d);
    assert(Seq::<char>::empty() + d =~= d);
    lemma_split_separator(s0 + d);
    lemma_split_no_separator(s1, mk);
    assert(Seq::<char>::empty() + mk =~= mk);
    lemma_split_separator(s1 + mk);
    lemma_split_no_separator(s2, folder);
    assert(Seq::<char>::empty() + folder =~= folder);
    lemma_split_separator(s2 + folder);
    lemma_split_no_separator(s3, f);
    assert(Seq::<char>::empty() + f =~= f);
    let comps = path_components(p);
    assert(comps =~= seq![d, mk, folder, f]);
    // no dot components
    assert(!(exists|i: int| 0 <= i < comps.len() && (#[trigger] comps[i] == "."@ || comps[i] == ".."@))) by {
        assert forall|i: int| 0 <= i < comps.len() implies !(#[trigger] comps[i] == "."@ || comps[i] == ".."@) by {
            if i == 1 {
                assert(mk.len() != "."@.len() && mk.len() != ".."@.len());
            } else if i == 2 {
                assert(folder.len() != "."@.len() && folder.len() != ".."@.len());
            }
        }
    }
    // the data folder is the second component, and the last one
    lemma_lower_same(mk);
    assert(is_marker(comps[1]));
    assert(!is_marker(comps[2])) by {
        assert(lower_seq(folder).len() == folder.len());
    }
    assert(is_last_marker(comps, 1));
    let m = choose|m: int| is_last_marker(comps, m);
    assert(m == 1) by {
        if m == 0 {
            assert(!is_marker(comps[2]) && !is_marker(comps[3]));
            assert(is_marker(comps[1]));
        } else if m == 2 {
            assert(!is_marker(comps[2]));
        } else if m == 3 {
            assert(!is_marker(comps[3]));
        }
    }
    assert(category_of(folder) == Some(c)) by {
        match c {
            AssetCategory::Sounds => {},
            AssetCategory::Fonts => {
                assert("fonts"@.len() != "sounds"@.len());
            },
            AssetCategory::Images => {
                assert("images"@[0] != "sounds"@[0]);
                assert("images"@.len() != "fonts"@.len());
            },
        }
    }
}

} // verus!
