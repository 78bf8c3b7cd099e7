//! File URLs as local paths: `file:` (letter case aside), then either `//` and a host (none
//! or `localhost` for this machine, another host for a network path) or directly the path.
//! The path is percent-decoded and must be UTF-8; a drive-letter path loses the slash in
//! front of its drive.
use crate::web_css::{is_utf8, text_from_utf8};
use vstd::prelude::*;

verus! {

/// What a reference is as a file URL.
pub enum FileUrlPath {
    /// A file URL and the local path that it names.
    Path(String),
    /// A file URL that names no path.
    Invalid,
    /// No file URL.
    NotFileUrl,
}

/// Value of [`FileUrlPath`] in specifications.
pub enum FileUrlPathV {
    Path(Seq<char>),
    Invalid,
    NotFileUrl,
}

impl View for FileUrlPath {
    type V = FileUrlPathV;

    open spec fn view(&self) -> FileUrlPathV {
        match self {
            FileUrlPath::Path(p) => FileUrlPathV::Path(p@),
            FileUrlPath::Invalid => FileUrlPathV::Invalid,
            FileUrlPath::NotFileUrl => FileUrlPathV::NotFileUrl,
        }
    }
}

/// ASCII lower-casing of one byte.
pub open spec fn lower_byte(b: u8) -> u8 {
    if 0x41 <= b && b <= 0x5A {
        (b + 32) as u8
    } else {
        b
    }
}

/// `b` starts with the lower-case ASCII bytes `p`, letter case aside.
pub open spec fn starts_ci(b: Seq<u8>, p: Seq<u8>) -> bool {
    b.len() >= p.len() && forall|i: int| 0 <= i < p.len() ==> lower_byte(#[trigger] b[i]) == p[i]
}

/// The value of a hexadecimal digit.
pub open spec fn hex_value(b: u8) -> Option<u8> {
    if 0x30 <= b && b <= 0x39 {
        Some((b - 0x30) as u8)
    } else if 0x61 <= b && b <= 0x66 {
        Some((b - 0x61 + 10) as u8)
    } else if 0x41 <= b && b <= 0x46 {
        Some((b - 0x41 + 10) as u8)
    } else {
        None
    }
}

/// Bytes with every `%` and two hexadecimal digits replaced by the byte they give; nothing
/// where a `%` is not followed by two hexadecimal digits.
pub open spec fn percent_decoded(b: Seq<u8>) -> Option<Seq<u8>>
    decreases b.len(),
{
    if b.len() == 0 {
        Some(Seq::empty())
    } else if b[0] == 0x25 {
        if b.len() >= 3 && hex_value(b[1]) is Some && hex_value(b[2]) is Some {
            match percent_decoded(b.skip(3)) {
                Some(r) => Some(seq![(hex_value(b[1])->0 * 16 + hex_value(b[2])->0) as u8] + r),
                None => None,
            }
        } else {
            None
        }
    } else {
        match percent_decoded(b.skip(1)) {
            Some(r) => Some(seq![b[0]] + r),
            None => None,
        }
    }
}

/// Where the first `/` of `b` is; its length when there is none.
pub open spec fn first_slash(b: Seq<u8>) -> nat
    decreases b.len(),
{
    if b.len() == 0 {
        0
    } else if b[0] == 0x2F {
        0
    } else {
        1 + first_slash(b.skip(1))
    }
}

/// The bytes of an ASCII text.
pub open spec fn ascii(t: Seq<char>) -> Seq<u8> {
    t.map_values(|c: char| c as u8)
}

/// The path part of what follows `file:`: after `//` a host ends at the next `/`; no host
/// or `localhost` names this machine, another host gives a network path `//host/…`.
/// Without `//` the rest must be an absolute path.
pub open spec fn url_path_part(rest: Seq<u8>) -> Option<Seq<u8>> {
    if rest.len() >= 2 && rest[0] == 0x2F && rest[1] == 0x2F {
        let after = rest.skip(2);
        let k = first_slash(after) as int;
        let host = after.take(k);
        let path = after.skip(k);
        if host.len() == 0 || (host.len() == 9 && starts_ci(host, ascii("localhost"@))) {
            Some(path)
        } else {
            Some(ascii("//"@) + host + path)
        }
    } else if rest.len() >= 1 && rest[0] == 0x2F {
        Some(rest)
    } else {
        None
    }
}

/// A drive-letter path (`/C:` or `/C:/…`) without the slash in front of its drive.
pub open spec fn drive_fixed(t: Seq<char>) -> Seq<char> {
    if t.len() >= 3 && t[0] == '/' && crate::text::is_ascii_alpha(t[1]) && t[2] == ':' && (t.len() == 3
        || t[3] == '/') {
        t.skip(1)
    } else {
        t
    }
}

/// What the text `s` is as a file URL (see the module's description). A query or a
/// fragment (`?`, `#`), a bad percent escape, a path that is not UTF-8 and an empty path
/// make it name no path.
pub open spec fn spec_file_url_to_path(s: Seq<char>) -> FileUrlPathV {
    let b = vstd::utf8::encode_utf8(s);
    if !starts_ci(b, ascii("file:"@)) {
        FileUrlPathV::NotFileUrl
    } else {
        match url_path_part(b.skip(5)) {
            None => FileUrlPathV::Invalid,
            Some(p) => if p.contains(0x3Fu8) || p.contains(0x23u8) {
                FileUrlPathV::Invalid
            } else {
                match percent_decoded(p) {
                    None => FileUrlPathV::Invalid,
                    Some(d) => if d.len() == 0 || !vstd::utf8::valid_utf8(d) {
                        FileUrlPathV::Invalid
                    } else {
                        FileUrlPathV::Path(drive_fixed(vstd::utf8::decode_utf8(d)))
                    },
                }
            },
        }
    }
}

fn hex_digit(b: u8) -> (r: Option<u8>)
    ensures
        r == hex_value(b),
{
    if 0x30 <= b && b <= 0x39 {
        Some(b - 0x30)
    } else if 0x61 <= b && b <= 0x66 {
        Some(b - 0x61 + 10)
    } else if 0x41 <= b && b <= 0x46 {
        Some(b - 0x41 + 10)
    } else {
        None
    }
}

/// Percent-decodes bytes, as [`percent_decoded`] states.
fn percent_decode(b: &[u8]) -> (r: Option<Vec<u8>>)
    ensures
        match r {
            Some(v) => percent_decoded(b@) == Some(v@),
            None => percent_decoded(b@) is None,
        },
{
    let mut out: Vec<u8> = Vec::new();
    let mut i: usize = 0;
    proof {
        assert(b@.skip(0) =~= b@);
        match percent_decoded(b@) {
            Some(r) => {
                assert(out@ + r =~= r);
            },
            None => {},
        }
    }
    while i < b.len()
        invariant
            i <= b.len(),
            percent_decoded(b@) == match percent_decoded(b@.skip(i as int)) {
                Some(r) => Some(out@ + r),
                None => None::<Seq<u8>>,
            },
        decreases b.len() - i,
    {
        let ghost rest = b@.skip(i as int);
        if b[i] == 0x25 {
            if b.len() - i > 2 {
                match (hex_digit(b[i + 1]), hex_digit(b[i + 2])) {
                    (Some(h), Some(l)) => {
                        proof {
                            assert(rest[1] == b@[i + 1] && rest[2] == b@[i + 2]);
                            assert(rest.skip(3) =~= b@.skip(i + 3));
                        }
                        let v: u8 = h * 16 + l;
                        let ghost before = out@;
                        out.push(v);
                        proof {
                            match percent_decoded(b@.skip(i + 3)) {
                                Some(r) => {
                                    assert(before + (seq![v] + r) =~= out@ + r);
                                },
                                None => {},
                            }
                        }
                        i += 3;
                    },
                    _ => {
                        proof {
                            assert(rest[1] == b@[i + 1] && rest[2] == b@[i + 2]);
                        }
                        return None;
                    },
                }
            } else {
                return None;
            }
        } else {
            proof {
                assert(rest[0] == b@[i as int]);
                assert(rest.skip(1) =~= b@.skip(i + 1));
            }
            let ghost before = out@;
            out.push(b[i]);
            proof {
                match percent_decoded(b@.skip(i + 1)) {
                    Some(r) => {
                        assert(before + (seq![b@[i as int]] + r) =~= out@ + r);
                    },
                    None => {},
                }
            }
            i += 1;
        }
    }
    proof {
        assert(b@.skip(i as int) =~= Seq::<u8>::empty());
        assert(out@ + Seq::<u8>::empty() =~= out@);
    }
    Some(out)
}

fn lower_byte_of(b: u8) -> (r: u8)
    ensures
        r == lower_byte(b),
{
    if 0x41 <= b && b <= 0x5A {
        b + 32
    } else {
        b
    }
}

/// Whether `b` starts with the lower-case ASCII text `p`, letter case aside.
fn starts_with_ci(b: &[u8], p: &str) -> (r: bool)
    requires
        forall|i: int| 0 <= i < p@.len() ==> (p@[i] as u32) < 128,
    ensures
        r == starts_ci(b@, ascii(p@)),
{
    let pc = crate::text::chars_of(p);
    if b.len() < pc.len() {
        return false;
    }
    let mut i: usize = 0;
    while i < pc.len()
        invariant
            i <= pc.len(),
            pc@ == p@,
            b.len() >= pc.len(),
            forall|i: int| 0 <= i < p@.len() ==> (p@[i] as u32) < 128,
            forall|j: int| 0 <= j < i ==> lower_byte(#[trigger] b@[j]) == ascii(p@)[j],
        decreases pc.len() - i,
    {
        if lower_byte_of(b[i]) != (pc[i] as u8) {
            return false;
        }
        i += 1;
    }
    true
}

/// Where the first `/` of `b` is, from `from` on.
fn find_slash(b: &[u8], from: usize) -> (r: usize)
    requires
        from <= b.len(),
    ensures
        r == from + first_slash(b@.skip(from as int)),
        r <= b.len(),
{
    let mut i = from;
    while i < b.len() && b[i] != 0x2F
        invariant
            from <= i <= b.len(),
            first_slash(b@.skip(from as int)) == (i - from) + first_slash(b@.skip(i as int)),
        decreases b.len() - i,
    {
        proof {
            assert(b@.skip(i as int)[0] == b@[i as int]);
            assert(b@.skip(i as int).skip(1) =~= b@.skip(i + 1));
        }
        i += 1;
    }
    proof {
        if i < b.len() {
            assert(b@.skip(i as int)[0] == b@[i as int]);
        }
    }
    i
}

fn has_byte(b: &[u8], x: u8) -> (r: bool)
    ensures
        r == b@.contains(x),
{
    let mut i: usize = 0;
    while i < b.len()
        invariant
            i <= b.len(),
            forall|j: int| 0 <= j < i ==> b@[j] != x,
        decreases b.len() - i,
    {
        if b[i] == x {
            assert(b@[i as int] == x);
            return true;
        }
        i += 1;
    }
    false
}

/// Converts a text to the local path that it names as a file URL, as
/// [`spec_file_url_to_path`] states.
pub fn file_url_to_path(s: &str) -> (r: FileUrlPath)
    ensures
        r@ == spec_file_url_to_path(s@),
{
    let b = s.as_bytes();
    proof {
        reveal_strlit("file:");
        reveal_strlit("localhost");
        reveal_strlit("//");
    }
    if !starts_with_ci(b, "file:") {
        return FileUrlPath::NotFileUrl;
    }
    let rest = &b[5..b.len()];
    assert(rest@ =~= b@.skip(5));
    let mut path: Vec<u8> = Vec::new();
    if rest.len() >= 2 && rest[0] == 0x2F && rest[1] == 0x2F {
        let k = find_slash(rest, 2);
        let host = &rest[2..k];
        proof {
            let after = rest@.skip(2);
            assert(host@ =~= after.take(first_slash(after) as int));
            assert(rest@.skip(k as int) =~= after.skip(first_slash(after) as int));
        }
        let local = host.len() == 0 || (host.len() == 9 && starts_with_ci(host, "localhost"));
        if !local {
            path.push(0x2F);
            path.push(0x2F);
            let mut j: usize = 2;
            while j < k
                invariant
                    2 <= j <= k,
                    k <= rest.len(),
                    path@ =~= ascii("//"@) + rest@.subrange(2, j as int),
                decreases k - j,
            {
                path.push(rest[j]);
                j += 1;
            }
        }
        let mut j: usize = k;
        let ghost start = path@;
        while j < rest.len()
            invariant
                k <= j <= rest.len(),
                path@ =~= start + rest@.subrange(k as int, j as int),
            decreases rest.len() - j,
        {
            path.push(rest[j]);
            j += 1;
        }
        proof {
            assert(rest@.subrange(k as int, rest.len() as int) =~= rest@.skip(k as int));
            assert(rest@.subrange(2, k as int) =~= host@);
        }
    } else if rest.len() >= 1 && rest[0] == 0x2F {
        let mut j: usize = 0;
        while j < rest.len()
            invariant
                j <= rest.len(),
                path@ =~= rest@.take(j as int),
            decreases rest.len() - j,
        {
            path.push(rest[j]);
            j += 1;
        }
        assert(rest@.take(rest.len() as int) =~= rest@);
    } else {
        return FileUrlPath::Invalid;
    }
    if has_byte(path.as_slice(), 0x3F) || has_byte(path.as_slice(), 0x23) {
        return FileUrlPath::Invalid;
    }
    let decoded = match percent_decode(path.as_slice()) {
        None => {
            return FileUrlPath::Invalid;
        },
        Some(d) => d,
    };
    if decoded.len() == 0 || !is_utf8(decoded.as_slice()) {
        return FileUrlPath::Invalid;
    }
    let text = crate::text::chars_of(text_from_utf8(decoded).as_str());
    if text.len() >= 3 && text[0] == '/' && crate::text::ascii_alpha(text[1]) && text[2] == ':' && (text.len()
        == 3 || text[3] == '/') {
        let t = crate::text::slice_chars(&text, 1, text.len());
        assert(t@ =~= text@.skip(1));
        return FileUrlPath::Path(crate::text::string_of(&t));
    }
    FileUrlPath::Path(crate::text::string_of(&text))
}

} // verus!
