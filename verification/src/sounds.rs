//! The web host's sound library: reading a sound's original and removing a sound together
//! with every element's reference to it.
use crate::asset_key::{is_web_asset_key, spec_is_web_asset_key};
use crate::asset_refs::{extension_of, is_portable_file_path, lemma_web_key_portable, path_extension};
use crate::codec::{base64_decoded, base64_encoded, decode_base64, encode_base64};
use crate::looks::HasLook;
use crate::model::{
    AppStoreData, AppStoreDataV, GraphPosition, KeyPosition, KeyPositionV, KnobPosition,
    SoundLibraryEntry, SoundLibraryEntryV, SoundSource, StatPosition,
};
use crate::strmap::{Dup, StrMap};
use crate::text::{
    chars_of, concat, has_prefix, lemma_text_lt, lower_seq, starts_with, string_of, text_less,
    text_lt, to_lower,
};
use crate::web_assets::WebAssetMap;
use vstd::prelude::*;

verus! {

/// Where the web host keeps sounds.
pub const SOUNDS_DIRECTORY: &'static str = "/assets/sounds/";

/// A logical asset path under the sounds directory.
pub open spec fn is_sound_key(p: Seq<char>) -> bool {
    spec_is_web_asset_key(p) && starts_with(p, "/assets/sounds/"@)
}

/// Refuses paths that are not sound asset paths.
pub(crate) fn sound_key(path: &str) -> (r: Result<(), String>)
    ensures
        r is Ok <==> is_sound_key(path@),
        r matches Err(e) ==> e@ == "invalid-web-sound-path"@,
{
    if !is_web_asset_key(path) || !has_prefix(&chars_of(path), &chars_of(SOUNDS_DIRECTORY)) {
        return Err(string_of(&chars_of("invalid-web-sound-path")));
    }
    Ok(())
}

/// The lower-cased extension of a path, or the fallback where it has none.
pub open spec fn spec_extension(name: Seq<char>, fallback: Seq<char>) -> Seq<char> {
    lower_seq(
        match path_extension(name) {
            Some(e) => e,
            None => fallback,
        },
    )
}

pub(crate) fn extension(name: &str, fallback: &str) -> (r: String)
    ensures
        is_portable_file_path(name@) ==> r@ == spec_extension(name@, fallback@),
{
    let e = match extension_of(name) {
        Some(e) => e,
        None => string_of(&chars_of(fallback)),
    };
    string_of(&to_lower(&chars_of(e.as_str())))
}

/// Message when a sound has no original on record.
pub const NO_ORIGINAL_INFO: &'static str = "원본 파일 정보가 없습니다.";

/// Message when a sound's original is not stored.
pub const ORIGINAL_MISSING: &'static str = "원본 파일이 존재하지 않습니다.";

/// Start of the message when a sound's original cannot be decoded.
pub const ORIGINAL_UNREADABLE: &'static str = "원본 사운드 파일 읽기 실패: ";

/// What reading a sound's original gives: its path, or why there is none.
pub open spec fn original_path_of(store: AppStoreDataV, sound_path: Seq<char>) -> Option<Seq<char>> {
    if store.sound_library.contains_key(sound_path) {
        match store.sound_library[sound_path].original_path {
            Some(o) => Some("/assets/sounds/"@ + o),
            None => None,
        }
    } else {
        None
    }
}

/// What reading a sound's original gives: its base64 text and lower-cased extension
/// (`wav` where it has none); refused when either path is not a sound path, when the
/// library records no original, when the original is not stored, or when its text does
/// not decode.
pub open spec fn original_loaded(
    store: AppStoreDataV,
    sound_path: Seq<char>,
    assets: Map<Seq<char>, Seq<char>>,
    r: Result<(String, String), String>,
) -> bool {
    if !is_sound_key(sound_path) {
        r matches Err(e) && e@ == "invalid-web-sound-path"@
    } else {
        match original_path_of(store, sound_path) {
            None => r matches Err(e) && e@ == NO_ORIGINAL_INFO@,
            Some(path) => if !is_sound_key(path) {
                r matches Err(e) && e@ == "invalid-web-sound-path"@
            } else if !assets.contains_key(path) {
                r matches Err(e) && e@ == ORIGINAL_MISSING@
            } else {
                match base64_decoded(assets[path]) {
                    None => r matches Err(e) && starts_with(e@, ORIGINAL_UNREADABLE@),
                    Some(bytes) => r matches Ok(v) && v.0@ == base64_encoded(bytes) && v.1@ == spec_extension(
                        path,
                        "wav"@,
                    ),
                }
            }
        }
    }
}

/// Reads the original of an edited sound, as [`original_loaded`] states.
pub fn load_original(store: &AppStoreData, sound_path: &str, assets: &WebAssetMap) -> (r: Result<
    (String, String),
    String,
>)
    ensures
        original_loaded(store.deep_view(), sound_path@, assets@, r),
{
    sound_key(sound_path)?;
    let original = match store.sound_library.get(sound_path) {
        Some(entry) => match &entry.original_path {
            Some(o) => o.clone(),
            None => {
                return Err(string_of(&chars_of(NO_ORIGINAL_INFO)));
            },
        },
        None => {
            return Err(string_of(&chars_of(NO_ORIGINAL_INFO)));
        },
    };
    let path = concat(SOUNDS_DIRECTORY, original.as_str());
    sound_key(path.as_str())?;
    proof {
        lemma_web_key_portable(path@);
    }
    let data = match assets.get(path.as_str()) {
        Some(d) => d,
        None => {
            return Err(string_of(&chars_of(ORIGINAL_MISSING)));
        },
    };
    let bytes = match decode_base64(data.as_str()) {
        Ok(b) => b,
        Err(e) => {
            let msg = concat(ORIGINAL_UNREADABLE, e.as_str());
            proof {
                assert(msg@.take(ORIGINAL_UNREADABLE@.len() as int) =~= ORIGINAL_UNREADABLE@);
            }
            return Err(msg);
        },
    };
    Ok((encode_base64(bytes.as_slice()), extension(path.as_str(), "wav")))
}

/// An element whose look had a sound at `path`: the sound is gone and turned off.
pub open spec fn look_unsounded(l: KeyPositionV, path: Seq<char>) -> KeyPositionV {
    if l.sound_path == Some(path) {
        KeyPositionV { sound_path: None, sound_enabled: Some(false), ..l }
    } else {
        l
    }
}

/// An element without its reference to the sound at `path`.
pub open spec fn element_unsounded<E: HasLook>(v: E::V, path: Seq<char>) -> E::V {
    E::with_look(v, look_unsounded(E::look_of(v), path))
}

/// Every element of every tab without its reference to the sound at `path`.
pub open spec fn collection_unsounded<E: HasLook>(m: Map<Seq<char>, Seq<E::V>>, path: Seq<char>) -> Map<
    Seq<char>,
    Seq<E::V>,
> {
    Map::new(
        |k: Seq<char>| m.contains_key(k),
        |k: Seq<char>| m[k].map_values(|v: E::V| element_unsounded::<E>(v, path)),
    )
}

/// Some element of some tab refers to the sound at `path`.
pub open spec fn refers_to<E: HasLook>(m: Map<Seq<char>, Seq<E::V>>, path: Seq<char>) -> bool {
    exists|k: Seq<char>, i: int|
        m.contains_key(k) && 0 <= i < m[k].len() && #[trigger] E::look_of(m[k][i]).sound_path == Some(
            path,
        )
}

fn unsound_list<E: HasLook>(v: &mut Vec<E>, path: &str) -> (changed: bool)
    ensures
        changed == exists|i: int|
            0 <= i < old(v).deep_view().len() && #[trigger] E::look_of(old(v).deep_view()[i]).sound_path
                == Some(path@),
        final(v).deep_view() == old(v).deep_view().map_values(|e: E::V| element_unsounded::<E>(e, path@)),
{
    let ghost v0 = v.deep_view();
    let mut changed = false;
    let mut i: usize = 0;
    while i < v.len()
        invariant
            i <= v.len(),
            v0.len() == v.len(),
            changed == exists|j: int| 0 <= j < i && #[trigger] E::look_of(v0[j]).sound_path == Some(path@),
            forall|j: int| i <= j < v.len() ==> v.deep_view()[j] == v0[j],
            forall|j: int| 0 <= j < i ==> #[trigger] v.deep_view()[j] == element_unsounded::<E>(v0[j], path@),
        decreases v.len() - i,
    {
        let mut e = v[i].dup();
        let mut l = e.look().dup();
        let refers = match &l.sound_path {
            Some(s) => crate::text::str_eq(s.as_str(), path),
            None => false,
        };
        if refers {
            l.sound_path = None;
            l.sound_enabled = Some(false);
            changed = true;
        }
        proof {
            assert(refers == (E::look_of(v0[i as int]).sound_path == Some(path@)));
        }
        e.set_look(l);
        let ghost before = v.deep_view();
        v.set(i, e);
        proof {
            assert(v.deep_view() =~= before.update(i as int, e.deep_view()));
        }
        i += 1;
    }
    proof {
        assert(v.deep_view() =~= v0.map_values(|e: E::V| element_unsounded::<E>(e, path@)));
    }
    changed
}

fn unsound_collection<E: HasLook>(m: &mut StrMap<Vec<E>>, path: &str) -> (changed: bool)
    ensures
        changed == refers_to::<E>(old(m)@, path@),
        final(m)@ == collection_unsounded::<E>(old(m)@, path@),
{
    m.check_wf();
    let ghost m0 = *m;
    let n = m.len();
    let mut changed = false;
    let mut i: usize = 0;
    while i < n
        invariant
            n == m.spec_len(),
            n == m0.spec_len(),
            i <= n,
            m.wf(),
            m0.wf(),
            changed == exists|j: int, t: int|
                0 <= j < i && 0 <= t < m0.spec_value(j).len() && #[trigger] E::look_of(
                    m0.spec_value(j)[t],
                ).sound_path == Some(path@),
            forall|j: int| 0 <= j < n ==> m.spec_key(j) == m0.spec_key(j),
            forall|j: int| i <= j < n ==> m.spec_value(j) == m0.spec_value(j),
            forall|j: int|
                0 <= j < i ==> #[trigger] m.spec_value(j) == m0.spec_value(j).map_values(
                    |e: E::V| element_unsounded::<E>(e, path@),
                ),
        decreases n - i,
    {
        let mut v = m.replace_at(i, Vec::new());
        let ghost vi = v.deep_view();
        let c = unsound_list(&mut v, path);
        proof {
            let before = changed;
            assert(vi == m0.spec_value(i as int));
            if c {
                let t = choose|t: int| 0 <= t < vi.len() && #[trigger] E::look_of(vi[t]).sound_path == Some(path@);
                assert(0 <= i < i + 1 && 0 <= t < m0.spec_value(i as int).len() && E::look_of(m0.spec_value(i as int)[t]).sound_path == Some(path@));
            }
            if exists|j: int, t: int|
                0 <= j < i + 1 && 0 <= t < m0.spec_value(j).len() && #[trigger] E::look_of(
                    m0.spec_value(j)[t],
                ).sound_path == Some(path@) {
                let (j, t) = choose|j: int, t: int|
                    0 <= j < i + 1 && 0 <= t < m0.spec_value(j).len() && #[trigger] E::look_of(
                        m0.spec_value(j)[t],
                    ).sound_path == Some(path@);
                if j == i {
                    assert(E::look_of(vi[t]).sound_path == Some(path@));
                }
            }
        }
        changed = changed || c;
        let _ = m.replace_at(i, v);
        i += 1;
    }
    proof {
        let target = collection_unsounded::<E>(m0@, path@);
        assert forall|k: Seq<char>| #[trigger] m@.contains_key(k) <==> m0@.contains_key(k) by {
            if m0@.contains_key(k) {
                let j = m0.lemma_key(k);
                m.lemma_index(j);
            }
            if m@.contains_key(k) {
                let j = m.lemma_key(k);
                m0.lemma_index(j);
            }
        }
        assert forall|k: Seq<char>| #[trigger] m0@.contains_key(k) implies m@[k] == target[k] by {
            let j = m0.lemma_key(k);
            m.lemma_index(j);
        }
        assert(m@ =~= target);
        if changed {
            let (j, t) = choose|j: int, t: int|
                0 <= j < n && 0 <= t < m0.spec_value(j).len() && #[trigger] E::look_of(
                    m0.spec_value(j)[t],
                ).sound_path == Some(path@);
            m0.lemma_index(j);
            assert(m0@.contains_key(m0.spec_key(j)) && 0 <= t < m0@[m0.spec_key(j)].len() && E::look_of(
                m0@[m0.spec_key(j)][t],
            ).sound_path == Some(path@));
        }
        if refers_to::<E>(m0@, path@) {
            let (k, t) = choose|k: Seq<char>, t: int|
                m0@.contains_key(k) && 0 <= t < m0@[k].len() && #[trigger] E::look_of(m0@[k][t]).sound_path
                    == Some(path@);
            let j = m0.lemma_key(k);
            assert(E::look_of(m0.spec_value(j)[t]).sound_path == Some(path@));
        }
    }
    changed
}

/// The document after a sound's removal: no library entry, and no element that plays it.
pub open spec fn sound_removed(s: AppStoreDataV, path: Seq<char>) -> AppStoreDataV {
    AppStoreDataV {
        sound_library: s.sound_library.remove(path),
        key_positions: collection_unsounded::<KeyPosition>(s.key_positions, path),
        stat_positions: collection_unsounded::<StatPosition>(s.stat_positions, path),
        graph_positions: collection_unsounded::<GraphPosition>(s.graph_positions, path),
        knob_positions: collection_unsounded::<KnobPosition>(s.knob_positions, path),
        ..s
    }
}

/// Removes a sound from the library and from every key, statistic, graph and knob element
/// that plays it (their sound is also turned off). Returns whether any element referred to it.
pub fn remove_sound_entry_and_references(store: &mut AppStoreData, path_key: &str) -> (r: bool)
    ensures
        final(store).deep_view() == sound_removed(old(store).deep_view(), path_key@),
        r == (refers_to::<KeyPosition>(old(store).deep_view().key_positions, path_key@)
            || refers_to::<StatPosition>(old(store).deep_view().stat_positions, path_key@)
            || refers_to::<GraphPosition>(old(store).deep_view().graph_positions, path_key@)
            || refers_to::<KnobPosition>(old(store).deep_view().knob_positions, path_key@)),
{
    store.sound_library.remove(path_key);
    let a = unsound_collection(&mut store.key_positions, path_key);
    let b = unsound_collection(&mut store.stat_positions, path_key);
    let c = unsound_collection(&mut store.graph_positions, path_key);
    let d = unsound_collection(&mut store.knob_positions, path_key);
    a || b || c || d
}

/// Extensions of the sounds that the library lists.
pub open spec fn is_sound_extension(e: Seq<char>) -> bool {
    e == "wav"@ || e == "mp3"@ || e == "ogg"@ || e == "flac"@ || e == "m4a"@ || e == "aac"@ || e
        == "aif"@ || e == "aiff"@
}

/// `t` occurs somewhere in `s`.
pub open spec fn has_infix(s: Seq<char>, t: Seq<char>) -> bool {
    exists|i: int| 0 <= i && i + t.len() <= s.len() && #[trigger] s.subrange(i, i + t.len()) == t
}

fn contains_infix(s: &[char], t: &[char]) -> (r: bool)
    ensures
        r == has_infix(s@, t@),
{
    if t.len() > s.len() {
        return false;
    }
    let last = s.len() - t.len();
    let mut i: usize = 0;
    loop
        invariant
            last == s.len() - t.len(),
            i <= last,
            forall|j: int| 0 <= j < i ==> #[trigger] s@.subrange(j, j + t@.len()) != t@,
        decreases last - i,
    {
        let part = crate::text::slice_chars(s, i, i + t.len());
        if crate::text::seq_eq(&part, t) {
            assert(s@.subrange(i as int, i + t@.len()) == t@);
            return true;
        }
        if i == last {
            return false;
        }
        i += 1;
    }
}

/// A stored sound that the library lists: a sound path outside the originals folder with
/// a sound extension.
pub open spec fn spec_listed_key(p: Seq<char>) -> bool {
    &&& is_sound_key(p)
    &&& !has_infix(p, "/originals/"@)
    &&& is_sound_extension(spec_extension(p, Seq::empty()))
}

pub(crate) fn listed_key(path: &str) -> (r: bool)
    ensures
        r == spec_listed_key(path@),
{
    if !is_web_asset_key(path) || !has_prefix(&chars_of(path), &chars_of(SOUNDS_DIRECTORY)) {
        return false;
    }
    proof {
        lemma_web_key_portable(path@);
    }
    if contains_infix(&chars_of(path), &chars_of("/originals/")) {
        return false;
    }
    let e = extension(path, "");
    proof {
        reveal_strlit("");
        assert(""@ =~= Seq::<char>::empty());
    }
    let e = e.as_str();
    crate::text::str_eq(e, "wav") || crate::text::str_eq(e, "mp3") || crate::text::str_eq(e, "ogg")
        || crate::text::str_eq(e, "flac") || crate::text::str_eq(e, "m4a") || crate::text::str_eq(
        e,
        "aac",
    ) || crate::text::str_eq(e, "aif") || crate::text::str_eq(e, "aiff")
}

/// One row of the sound list.
pub struct SoundListItem {
    pub sound_path: String,
    pub file_name: String,
    pub size_bytes: usize,
    pub hidden: bool,
    pub enabled: bool,
    pub source: SoundSource,
    pub modified_at_ms: Option<u64>,
    pub original_path: Option<String>,
    pub trim_start_bits: Option<u64>,
    pub trim_end_bits: Option<u64>,
    pub display_name: Option<String>,
}

/// Value of [`SoundListItem`] in specifications.
pub struct SoundListItemV {
    pub sound_path: Seq<char>,
    pub file_name: Seq<char>,
    pub size_bytes: usize,
    pub hidden: bool,
    pub enabled: bool,
    pub source: SoundSource,
    pub modified_at_ms: Option<u64>,
    pub original_path: Option<Seq<char>>,
    pub trim_start_bits: Option<u64>,
    pub trim_end_bits: Option<u64>,
    pub display_name: Option<Seq<char>>,
}

impl DeepView for SoundListItem {
    type V = SoundListItemV;

    open spec fn deep_view(&self) -> SoundListItemV {
        SoundListItemV {
            sound_path: self.sound_path@,
            file_name: self.file_name@,
            size_bytes: self.size_bytes,
            hidden: self.hidden,
            enabled: self.enabled,
            source: self.source,
            modified_at_ms: self.modified_at_ms,
            original_path: self.original_path.deep_view(),
            trim_start_bits: self.trim_start_bits,
            trim_end_bits: self.trim_end_bits,
            display_name: self.display_name.deep_view(),
        }
    }
}

/// The library data of a sound, or that of a local, shown sound where it has none.
pub open spec fn library_entry(s: AppStoreDataV, k: Seq<char>) -> SoundLibraryEntryV {
    if s.sound_library.contains_key(k) {
        s.sound_library[k]
    } else {
        SoundLibraryEntryV {
            hidden: false,
            source: SoundSource::Local,
            original_path: None,
            trim_start_bits: None,
            trim_end_bits: None,
            display_name: None,
        }
    }
}

/// The row of a listed sound whose stored bytes number `size`.
pub open spec fn sound_item(
    s: AppStoreDataV,
    k: Seq<char>,
    size: usize,
    modified: Map<Seq<char>, u64>,
) -> SoundListItemV {
    let meta = library_entry(s, k);
    SoundListItemV {
        sound_path: k,
        file_name: k.skip("/assets/sounds/"@.len() as int),
        size_bytes: size,
        hidden: meta.hidden,
        enabled: !meta.hidden,
        source: meta.source,
        modified_at_ms: if modified.contains_key(k) {
            Some(modified[k])
        } else {
            None
        },
        original_path: meta.original_path,
        trim_start_bits: meta.trim_start_bits,
        trim_end_bits: meta.trim_end_bits,
        display_name: meta.display_name,
    }
}

/// The rows of the listed sounds among the first `n` stored assets, in their order.
pub open spec fn listed_upto(
    s: AppStoreDataV,
    assets: WebAssetMap,
    modified: Map<Seq<char>, u64>,
    n: int,
) -> Seq<SoundListItemV>
    decreases n,
{
    if n <= 0 {
        Seq::empty()
    } else {
        let prev = listed_upto(s, assets, modified, n - 1);
        let k = assets.spec_key(n - 1);
        if spec_listed_key(k) {
            prev.push(
                sound_item(s, k, base64_decoded(assets.spec_value(n - 1))->0.len() as usize, modified),
            )
        } else {
            prev
        }
    }
}

/// Some listed sound among the first `n` stored assets has text that does not decode.
pub open spec fn undecodable_upto(assets: WebAssetMap, n: int) -> bool {
    exists|j: int|
        0 <= j < n && spec_listed_key(#[trigger] assets.spec_key(j)) && base64_decoded(assets.spec_value(j)) is None
}

/// The modification time of a row, zero where it has none.
pub open spec fn modified_or_zero(a: SoundListItemV) -> u64 {
    match a.modified_at_ms {
        Some(m) => m,
        None => 0,
    }
}

/// The list order: built-in sounds first, then the most recently modified, then by file name.
pub open spec fn sound_before(a: SoundListItemV, b: SoundListItemV) -> bool {
    let ab = a.source == SoundSource::Builtin;
    let bb = b.source == SoundSource::Builtin;
    ||| (ab && !bb)
    ||| (ab == bb && modified_or_zero(a) > modified_or_zero(b))
    ||| (ab == bb && modified_or_zero(a) == modified_or_zero(b) && text_lt(a.file_name, b.file_name))
}

/// Rows in list order.
pub open spec fn sounds_sorted(s: Seq<SoundListItemV>) -> bool {
    forall|i: int, j: int| 0 <= i < j < s.len() ==> !sound_before(#[trigger] s[j], #[trigger] s[i])
}

/// The list order is a strict order.
pub proof fn lemma_sound_order(a: SoundListItemV, b: SoundListItemV, c: SoundListItemV)
    ensures
        !sound_before(a, a),
        sound_before(a, b) ==> !sound_before(b, a),
        sound_before(a, b) && sound_before(b, c) ==> sound_before(a, c),
{
    lemma_text_lt(a.file_name, b.file_name, c.file_name);
    lemma_text_lt(b.file_name, a.file_name, a.file_name);
}

fn before(a: &SoundListItem, b: &SoundListItem) -> (r: bool)
    ensures
        r == sound_before(a.deep_view(), b.deep_view()),
{
    let ab = a.source == SoundSource::Builtin;
    let bb = b.source == SoundSource::Builtin;
    let am = match a.modified_at_ms {
        Some(m) => m,
        None => 0,
    };
    let bm = match b.modified_at_ms {
        Some(m) => m,
        None => 0,
    };
    (ab && !bb) || (ab == bb && am > bm) || (ab == bb && am == bm && text_less(
        a.file_name.as_str(),
        b.file_name.as_str(),
    ))
}

fn insert_sorted_item(out: &mut Vec<SoundListItem>, x: SoundListItem)
    requires
        sounds_sorted(old(out).deep_view()),
    ensures
        sounds_sorted(final(out).deep_view()),
        final(out).deep_view().to_multiset() == old(out).deep_view().to_multiset().insert(x.deep_view()),
{
    let ghost o = out.deep_view();
    let ghost xv = x.deep_view();
    let mut p: usize = 0;
    while p < out.len()
        invariant
            p <= out.len(),
            out.deep_view() == o,
            xv == x.deep_view(),
            forall|k: int| 0 <= k < p ==> !sound_before(xv, #[trigger] o[k]),
        ensures
            p <= out.len(),
            forall|k: int| 0 <= k < p ==> !sound_before(xv, #[trigger] o[k]),
            p < out.len() ==> sound_before(xv, o[p as int]),
        decreases out.len() - p,
    {
        assert(o[p as int] == out[p as int].deep_view());
        if before(&x, &out[p]) {
            break;
        }
        p += 1;
    }
    out.insert(p, x);
    proof {
        let n = out.deep_view();
        assert(n =~= o.insert(p as int, xv));
        vstd::seq_lib::to_multiset_insert(o, p as int, xv);
        assert forall|i: int, j: int| 0 <= i < j < n.len() implies !sound_before(#[trigger] n[j], #[trigger] n[i]) by {
            if j < p {
                assert(n[i] == o[i] && n[j] == o[j]);
            } else if j == p {
                assert(n[i] == o[i]);
            } else if i == p {
                assert(n[j] == o[j - 1]);
                assert(sound_before(xv, o[p as int]));
                lemma_sound_order(o[j - 1], xv, o[p as int]);
                if j - 1 > p {
                    assert(!sound_before(o[j - 1], o[p as int]));
                } else {
                    lemma_sound_order(xv, o[p as int], xv);
                }
            } else if i < p {
                assert(n[i] == o[i] && n[j] == o[j - 1]);
            } else {
                assert(n[i] == o[i - 1] && n[j] == o[j - 1]);
            }
        }
    }
}

/// Start of the message when a listed sound's stored text does not decode.
pub const INVALID_ASSET_DATA: &'static str = "invalid-web-asset-data: ";

/// What listing the stored sounds gives: refused when a listed sound's stored text does
/// not decode; otherwise the rows of the listed sounds (those under the sounds directory,
/// outside its originals folder, with a sound extension), with their size, library data
/// and modification time, in list order.
pub open spec fn sounds_listed(
    store: AppStoreDataV,
    assets: WebAssetMap,
    modified_at: Map<Seq<char>, u64>,
    r: Result<Vec<SoundListItem>, String>,
) -> bool {
    &&& r is Err <==> undecodable_upto(assets, assets.spec_len() as int)
    &&& r matches Err(e) ==> starts_with(e@, INVALID_ASSET_DATA@)
    &&& r matches Ok(items) ==> sounds_sorted(items.deep_view()) && items.deep_view().to_multiset()
        == listed_upto(store, assets, modified_at, assets.spec_len() as int).to_multiset()
}

/// Lists the stored sounds, as [`sounds_listed`] states.
pub fn list_sounds(store: &AppStoreData, assets: &WebAssetMap, modified_at: &StrMap<u64>) -> (r: Result<
    Vec<SoundListItem>,
    String,
>)
    ensures
        sounds_listed(store.deep_view(), *assets, modified_at@, r),
{
    assets.check_wf();
    let n = assets.len();
    let mut out: Vec<SoundListItem> = Vec::new();
    proof {
        assert(out.deep_view() =~= listed_upto(store.deep_view(), *assets, modified_at@, 0));
    }
    let mut j: usize = 0;
    while j < n
        invariant
            n == assets.spec_len(),
            j <= n,
            assets.wf(),
            !undecodable_upto(*assets, j as int),
            sounds_sorted(out.deep_view()),
            out.deep_view().to_multiset() == listed_upto(store.deep_view(), *assets, modified_at@, j as int).to_multiset(),
        decreases n - j,
    {
        let path = assets.key_at(j);
        if listed_key(path.as_str()) {
            let data = assets.value_at(j);
            let bytes = match decode_base64(data.as_str()) {
                Ok(b) => b,
                Err(e) => {
                    let msg = concat(INVALID_ASSET_DATA, e.as_str());
                    proof {
                        assert(msg@.take(INVALID_ASSET_DATA@.len() as int) =~= INVALID_ASSET_DATA@);
                        assert(spec_listed_key(assets.spec_key(j as int)));
                    }
                    return Err(msg);
                },
            };
            let meta = match store.sound_library.get(path.as_str()) {
                Some(m) => m.dup(),
                None => SoundLibraryEntry {
                    hidden: false,
                    source: SoundSource::Local,
                    original_path: None,
                    trim_start_bits: None,
                    trim_end_bits: None,
                    display_name: None,
                },
            };
            let pc = chars_of(path.as_str());
            let dir = chars_of(SOUNDS_DIRECTORY);
            let file_name = string_of(&crate::text::slice_chars(&pc, dir.len(), pc.len()));
            let item = SoundListItem {
                sound_path: path.clone(),
                file_name,
                size_bytes: bytes.len(),
                hidden: meta.hidden,
                enabled: !meta.hidden,
                source: meta.source,
                modified_at_ms: match modified_at.get(path.as_str()) {
                    Some(m) => Some(*m),
                    None => None,
                },
                original_path: meta.original_path,
                trim_start_bits: meta.trim_start_bits,
                trim_end_bits: meta.trim_end_bits,
                display_name: meta.display_name,
            };
            proof {
                assert(item.deep_view() == sound_item(
                    store.deep_view(),
                    assets.spec_key(j as int),
                    base64_decoded(assets.spec_value(j as int))->0.len() as usize,
                    modified_at@,
                ));
            }
            insert_sorted_item(&mut out, item);
            proof {
                vstd::seq_lib::to_multiset_build(
                    listed_upto(store.deep_view(), *assets, modified_at@, j as int),
                    item.deep_view(),
                );
            }
        }
        proof {
            if undecodable_upto(*assets, j + 1) {
                let w = choose|w: int|
                    0 <= w < j + 1 && spec_listed_key(#[trigger] assets.spec_key(w)) && base64_decoded(assets.spec_value(w)) is None;
                assert(w == j);
            }
        }
        j += 1;
    }
    Ok(out)
}

proof fn lemma_collection_unsounded<E: HasLook>(m: Map<Seq<char>, Seq<E::V>>, path: Seq<char>)
    ensures
        !refers_to::<E>(collection_unsounded::<E>(m, path), path),
{
    let n = collection_unsounded::<E>(m, path);
    assert forall|k: Seq<char>, i: int|
        n.contains_key(k) && 0 <= i < n[k].len() implies #[trigger] E::look_of(n[k][i]).sound_path != Some(path) by {
        let v = m[k][i];
        E::lemma_with_look(v, look_unsounded(E::look_of(v), path));
        assert(n[k][i] == element_unsounded::<E>(v, path));
    }
}

/// After a sound's removal the library has no entry for it and no key, statistic, graph
/// or knob element plays it.
pub proof fn lemma_removed_sound_unreferenced(s: AppStoreDataV, path: Seq<char>)
    ensures
        !sound_removed(s, path).sound_library.contains_key(path),
        !refers_to::<KeyPosition>(sound_removed(s, path).key_positions, path),
        !refers_to::<StatPosition>(sound_removed(s, path).stat_positions, path),
        !refers_to::<GraphPosition>(sound_removed(s, path).graph_positions, path),
        !refers_to::<KnobPosition>(sound_removed(s, path).knob_positions, path),
{
    lemma_collection_unsounded::<KeyPosition>(s.key_positions, path);
    lemma_collection_unsounded::<StatPosition>(s.stat_positions, path);
    lemma_collection_unsounded::<GraphPosition>(s.graph_positions, path);
    lemma_collection_unsounded::<KnobPosition>(s.knob_positions, path);
}

} // verus!
