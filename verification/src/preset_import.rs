//! Reading a preset into a document: which values a preset replaces, which tab a one-tab
//! preset comes from, and how key bindings and key elements are paired.
use crate::codec::{is_uuid_text, new_uuid_text};
use crate::looks::HasLook;
use crate::model::{
    AppStoreData, AppStoreDataV, CustomCss, CustomJs, CustomTab, KeyPosition, KeyPositionV, KeySlot,
    KeySlotV, LayerGroupDef, LayerGroupDefV, NoteSettings, PresetFile, PresetFileV, TabNoteSettings,
};
use crate::preset_export::{builtin_tab, is_builtin_tab};
use crate::strmap::{Dup, StrMap};
use crate::tab_meta::{blank_key_position, custom_ids};
use crate::text::{
    chars_of, concat, decimal, decimal_text, insert_text, lemma_text_lt, string_of, text_less,
    text_lt,
};
use vstd::prelude::*;

verus! {

/// Global settings of a full preset, with the current values where the preset has none.
pub struct ResolvedFullPresetSettings {
    pub background_color: String,
    pub note_settings: NoteSettings,
    pub note_effect: bool,
    pub laboratory_enabled: bool,
    pub use_custom_css: bool,
    pub custom_css: CustomCss,
    pub use_custom_js: bool,
    pub custom_js: CustomJs,
}

/// The value of an optional field, or the current value.
pub open spec fn or_current<T>(o: Option<T>, current: T) -> T {
    match o {
        Some(v) => v,
        None => current,
    }
}

/// Takes the global settings of a full preset. A field that older presets lack keeps the
/// current value, so that importing an old preset does not clear newer settings. The
/// preset's background, note settings, style sheet and script are taken out of it.
pub fn resolve_full_preset_settings(preset: &mut PresetFile, current: &AppStoreData) -> (r:
    ResolvedFullPresetSettings)
    ensures
        ({
            let p = old(preset).deep_view();
            let c = current.deep_view();
            &&& r.background_color@ == or_current(p.background_color, c.background_color)
            &&& r.note_settings.deep_view() == or_current(p.note_settings, c.note_settings)
            &&& r.note_effect == or_current(p.note_effect, c.note_effect)
            &&& r.laboratory_enabled == or_current(p.laboratory_enabled, c.laboratory_enabled)
            &&& r.use_custom_css == or_current(p.use_custom_css, c.use_custom_css)
            &&& r.custom_css.deep_view() == or_current(p.custom_css, c.custom_css)
            &&& r.use_custom_js == or_current(p.use_custom_js, c.use_custom_js)
            &&& r.custom_js.deep_view() == or_current(p.custom_js, c.custom_js)
        }),
        final(preset).deep_view() == (PresetFileV {
            background_color: None,
            note_settings: None,
            custom_css: None,
            custom_js: None,
            ..old(preset).deep_view()
        }),
{
    let background_color = match preset.background_color.take() {
        Some(v) => v,
        None => current.background_color.dup(),
    };
    let note_settings = match preset.note_settings.take() {
        Some(v) => v,
        None => current.note_settings.dup(),
    };
    let note_effect = match preset.note_effect {
        Some(v) => v,
        None => current.note_effect,
    };
    let laboratory_enabled = match preset.laboratory_enabled {
        Some(v) => v,
        None => current.laboratory_enabled,
    };
    let use_custom_css = match preset.use_custom_css {
        Some(v) => v,
        None => current.use_custom_css,
    };
    let custom_css = match preset.custom_css.take() {
        Some(v) => v,
        None => current.custom_css.dup(),
    };
    let use_custom_js = match preset.use_custom_js {
        Some(v) => v,
        None => current.use_custom_js,
    };
    let custom_js = match preset.custom_js.take() {
        Some(v) => v,
        None => current.custom_js.dup(),
    };
    ResolvedFullPresetSettings {
        background_color,
        note_settings,
        note_effect,
        laboratory_enabled,
        use_custom_css,
        custom_css,
        use_custom_js,
        custom_js,
    }
}

/// The elements of the source tab, under the current tab's id; nothing when the preset
/// has no such collection.
pub open spec fn spec_select_tab_elements<T>(
    collection: Option<Map<Seq<char>, Seq<T>>>,
    source_tab_id: Seq<char>,
    current_tab_id: Seq<char>,
) -> Map<Seq<char>, Seq<T>> {
    match collection {
        Some(c) => Map::empty().insert(
            current_tab_id,
            if c.contains_key(source_tab_id) {
                c[source_tab_id]
            } else {
                Seq::empty()
            },
        ),
        None => Map::empty(),
    }
}

/// Moves the elements of a one-tab preset's source tab to the current tab.
pub fn select_tab_preset_elements<T: Dup>(
    collection: Option<&StrMap<Vec<T>>>,
    source_tab_id: &str,
    current_tab_id: &str,
) -> (r: StrMap<Vec<T>>)
    ensures
        r@ == spec_select_tab_elements(
            match collection {
                Some(c) => Some(c@),
                None => None,
            },
            source_tab_id@,
            current_tab_id@,
        ),
        r.wf(),
{
    let mut selected: StrMap<Vec<T>> = StrMap::new();
    match collection {
        Some(c) => {
            let v = match c.get(source_tab_id) {
                Some(v) => v.dup(),
                None => {
                    let e: Vec<T> = Vec::new();
                    assert(e.deep_view() =~= Seq::<T::V>::empty());
                    e
                },
            };
            selected.insert(string_of(&chars_of(current_tab_id)), v);
        },
        None => {},
    }
    selected
}

/// The tab that a one-tab preset is read from: the current tab if the preset has it, else
/// the preset's selected tab if it has that, else its only tab.
pub open spec fn spec_choose_source_tab(
    keys: Map<Seq<char>, Seq<KeySlotV>>,
    selected: Option<Seq<char>>,
    current: Seq<char>,
) -> Result<Seq<char>, Seq<char>> {
    if keys.dom() == Set::<Seq<char>>::empty() {
        Err("invalid-tab-preset"@)
    } else if keys.contains_key(current) {
        Ok(current)
    } else if selected matches Some(s) && keys.contains_key(s) {
        Ok(selected->0)
    } else if exists|k: Seq<char>| keys.dom() == Set::<Seq<char>>::empty().insert(k) {
        Ok(choose|k: Seq<char>| keys.dom() == Set::<Seq<char>>::empty().insert(k))
    } else {
        Err("tab-preset-ambiguous-source"@)
    }
}

/// Chooses the tab that a one-tab preset is read from.
pub fn choose_tab_preset_source_tab(
    keys: &StrMap<Vec<KeySlot>>,
    selected_key_type: Option<&str>,
    current_tab_id: &str,
) -> (r: Result<String, String>)
    ensures
        match (r, spec_choose_source_tab(
            keys@,
            match selected_key_type {
                Some(s) => Some(s@),
                None => None,
            },
            current_tab_id@,
        )) {
            (Ok(a), Ok(b)) => a@ == b,
            (Err(a), Err(b)) => a@ == b,
            _ => false,
        },
{
    keys.check_wf();
    if keys.len() == 0 {
        proof {
            assert(keys@.dom() =~= Set::<Seq<char>>::empty()) by {
                assert forall|k: Seq<char>| !keys@.dom().contains(k) by {
                    if keys@.dom().contains(k) {
                        let j = keys.lemma_key(k);
                    }
                }
            }
        }
        return Err(string_of(&chars_of("invalid-tab-preset")));
    }
    proof {
        keys.lemma_index(0);
        assert(keys@.dom().contains(keys.spec_key(0)));
    }
    if keys.contains_key(current_tab_id) {
        return Ok(string_of(&chars_of(current_tab_id)));
    }
    match selected_key_type {
        Some(s) => {
            if keys.contains_key(s) {
                return Ok(string_of(&chars_of(s)));
            }
        },
        None => {},
    }
    if keys.len() == 1 {
        let only = keys.key_at(0).clone();
        proof {
            assert(keys@.dom() =~= Set::<Seq<char>>::empty().insert(only@)) by {
                assert forall|k: Seq<char>| #[trigger] keys@.dom().contains(k) implies k == only@ by {
                    let j = keys.lemma_key(k);
                }
            }
            let c = choose|k: Seq<char>| keys@.dom() == Set::<Seq<char>>::empty().insert(k);
            assert(Set::<Seq<char>>::empty().insert(c).contains(only@));
        }
        return Ok(only);
    }
    proof {
        keys.lemma_index(1);
        keys.lemma_distinct();
        if exists|k: Seq<char>| keys@.dom() == Set::<Seq<char>>::empty().insert(k) {
            let c = choose|k: Seq<char>| keys@.dom() == Set::<Seq<char>>::empty().insert(k);
            assert(keys@.dom().contains(keys.spec_key(0)));
            assert(keys@.dom().contains(keys.spec_key(1)));
            assert(keys.spec_key(0) != keys.spec_key(1));
        }
    }
    Err(string_of(&chars_of("tab-preset-ambiguous-source")))
}

/// `v` padded with `filler` up to length `n`.
pub open spec fn padded<T>(v: Seq<T>, n: int, filler: T) -> Seq<T> {
    if v.len() >= n {
        v
    } else {
        v + Seq::new((n - v.len()) as nat, |i: int| filler)
    }
}

/// Pairs key bindings and key elements: the shorter list is padded with blank entries.
pub fn align_imported_key_pair(keys: &mut Vec<KeySlot>, positions: &mut Vec<KeyPosition>)
    ensures
        ({
            let n = if old(keys).len() >= old(positions).len() {
                old(keys).len() as int
            } else {
                old(positions).len() as int
            };
            &&& final(keys).deep_view() == padded(
                old(keys).deep_view(),
                n,
                KeySlotV { label: Seq::empty() },
            )
            &&& final(positions).deep_view() == padded(
                old(positions).deep_view(),
                n,
                blank_key_position(),
            )
        }),
{
    let ghost k0 = keys.deep_view();
    let ghost p0 = positions.deep_view();
    let n: usize = if keys.len() >= positions.len() {
        keys.len()
    } else {
        positions.len()
    };
    assert(keys.deep_view() =~= padded(k0, keys.len() as int, KeySlotV { label: Seq::empty() }));
    while keys.len() < n
        invariant
            keys.len() <= n,
            keys.len() >= k0.len(),
            positions.deep_view() == p0,
            n == (if k0.len() >= p0.len() { k0.len() } else { p0.len() }),
            keys.deep_view() == padded(k0, keys.len() as int, KeySlotV { label: Seq::empty() }),
        decreases n - keys.len(),
    {
        let slot = KeySlot::default();
        let ghost before = keys.deep_view();
        keys.push(slot);
        assert(keys.deep_view() =~= before.push(slot.deep_view()));
        assert(keys.deep_view() =~= padded(k0, keys.len() as int, KeySlotV { label: Seq::empty() }));
    }
    assert(positions.deep_view() =~= padded(p0, positions.len() as int, blank_key_position()));
    while positions.len() < n
        invariant
            positions.len() <= n,
            positions.len() >= p0.len(),
            keys.len() == n,
            keys.deep_view() == padded(k0, n as int, KeySlotV { label: Seq::empty() }),
            n == (if k0.len() >= p0.len() { k0.len() } else { p0.len() }),
            positions.deep_view() == padded(p0, positions.len() as int, blank_key_position()),
        decreases n - positions.len(),
    {
        let p = KeyPosition::default();
        let ghost before = positions.deep_view();
        positions.push(p);
        assert(positions.deep_view() =~= before.push(p.deep_view()));
        assert(positions.deep_view() =~= padded(p0, positions.len() as int, blank_key_position()));
    }
}

/// The larger of two lengths.
pub open spec fn max_len(a: nat, b: nat) -> int {
    if a >= b {
        a as int
    } else {
        b as int
    }
}

/// The key bindings of a tab, or none.
pub open spec fn keys_of(m: Map<Seq<char>, Seq<KeySlotV>>, k: Seq<char>) -> Seq<KeySlotV> {
    if m.contains_key(k) {
        m[k]
    } else {
        Seq::empty()
    }
}

/// The key elements of a tab, or none.
pub open spec fn positions_of(m: Map<Seq<char>, Seq<KeyPositionV>>, k: Seq<char>) -> Seq<KeyPositionV> {
    if m.contains_key(k) {
        m[k]
    } else {
        Seq::empty()
    }
}

/// Key bindings and key elements of every tab of either map, paired by padding.
pub open spec fn keys_aligned(
    k0: Map<Seq<char>, Seq<KeySlotV>>,
    p0: Map<Seq<char>, Seq<KeyPositionV>>,
    k1: Map<Seq<char>, Seq<KeySlotV>>,
    p1: Map<Seq<char>, Seq<KeyPositionV>>,
) -> bool {
    &&& k1.dom() == k0.dom().union(p0.dom())
    &&& p1.dom() == k0.dom().union(p0.dom())
    &&& forall|m: Seq<char>|
        #[trigger] k1.contains_key(m) ==> {
            let n = max_len(keys_of(k0, m).len(), positions_of(p0, m).len());
            &&& k1[m] == padded(keys_of(k0, m), n, KeySlotV { label: Seq::empty() })
            &&& p1[m] == padded(positions_of(p0, m), n, blank_key_position())
        }
}

/// Pairs the key bindings and key elements of every tab that has either.
pub fn align_imported_key_collections(
    keys: &mut StrMap<Vec<KeySlot>>,
    positions: &mut StrMap<Vec<KeyPosition>>,
)
    ensures
        keys_aligned(old(keys)@, old(positions)@, final(keys)@, final(positions)@),
{
    keys.check_wf();
    positions.check_wf();
    let ghost k0 = keys@;
    let ghost p0 = positions@;
    let mut modes = keys.keys();
    let more = positions.keys();
    let mut q: usize = 0;
    let ghost m0 = modes.deep_view();
    proof {
        keys.lemma_distinct();
        assert forall|i: int, j: int| 0 <= i < m0.len() && 0 <= j < m0.len() && i != j implies m0[i] != m0[j] by {
            assert(m0[i] == keys.spec_key(i));
            assert(m0[j] == keys.spec_key(j));
        }
        assert forall|x: Seq<char>| #[trigger] m0.contains(x) <==> k0.contains_key(x) by {
            if k0.contains_key(x) {
                let j = keys.lemma_key(x);
                assert(m0[j] == x);
            }
            if m0.contains(x) {
                let j = choose|j: int| 0 <= j < m0.len() && m0[j] == x;
                keys.lemma_index(j);
            }
        }
    }
    while q < more.len()
        invariant
            q <= more.len(),
            modes.deep_view().no_duplicates(),
            forall|x: Seq<char>|
                #[trigger] modes.deep_view().contains(x) <==> (k0.contains_key(x) || exists|j: int|
                    0 <= j < q && more.deep_view()[j] == x),
        decreases more.len() - q,
    {
        let ghost before = modes.deep_view();
        insert_text(&mut modes, more[q].clone());
        proof {
            assert forall|x: Seq<char>|
                #[trigger] modes.deep_view().contains(x) <==> (k0.contains_key(x) || exists|j: int|
                    0 <= j < q + 1 && more.deep_view()[j] == x) by {
                if x == more.deep_view()[q as int] {
                    assert(modes.deep_view().contains(x));
                }
                if exists|j: int| 0 <= j < q + 1 && more.deep_view()[j] == x {
                    let j = choose|j: int| 0 <= j < q + 1 && more.deep_view()[j] == x;
                    if j < q {
                        assert(before.contains(x));
                    }
                }
            }
        }
        q += 1;
    }
    proof {
        assert forall|x: Seq<char>| #[trigger] modes.deep_view().contains(x) <==> (k0.contains_key(x) || p0.contains_key(x)) by {
            if p0.contains_key(x) {
                let j = positions.lemma_key(x);
                assert(more.deep_view()[j] == x);
            }
            if exists|j: int| 0 <= j < more.len() && more.deep_view()[j] == x {
                let j = choose|j: int| 0 <= j < more.len() && more.deep_view()[j] == x;
                positions.lemma_index(j);
            }
        }
    }
    let mut i: usize = 0;
    while i < modes.len()
        invariant
            i <= modes.len(),
            keys.wf(),
            positions.wf(),
            modes.deep_view().no_duplicates(),
            forall|x: Seq<char>| #[trigger] modes.deep_view().contains(x) <==> (k0.contains_key(x) || p0.contains_key(x)),
            forall|x: Seq<char>|
                #[trigger] keys@.contains_key(x) <==> (k0.contains_key(x) || exists|j: int|
                    0 <= j < i && modes.deep_view()[j] == x),
            forall|x: Seq<char>|
                #[trigger] positions@.contains_key(x) <==> (p0.contains_key(x) || exists|j: int|
                    0 <= j < i && modes.deep_view()[j] == x),
            forall|j: int|
                0 <= j < i ==> {
                    let m = #[trigger] modes.deep_view()[j];
                    let n = max_len(keys_of(k0, m).len(), positions_of(p0, m).len());
                    &&& keys@[m] == padded(keys_of(k0, m), n, KeySlotV { label: Seq::empty() })
                    &&& positions@[m] == padded(positions_of(p0, m), n, blank_key_position())
                },
            forall|x: Seq<char>|
                #[trigger] keys@.contains_key(x) && !(exists|j: int| 0 <= j < i && modes.deep_view()[j] == x)
                    ==> keys@[x] == k0[x],
            forall|x: Seq<char>|
                #[trigger] positions@.contains_key(x) && !(exists|j: int| 0 <= j < i && modes.deep_view()[j] == x)
                    ==> positions@[x] == p0[x],
        decreases modes.len() - i,
    {
        let mode = modes[i].as_str();
        proof {
            assert(modes.deep_view()[i as int] == mode@);
            assert forall|j: int| 0 <= j < i implies modes.deep_view()[j] != mode@ by {
                assert(modes.deep_view()[j] != modes.deep_view()[i as int]);
            }
        }
        let mut mk = match keys.remove(mode) {
            Some(v) => v,
            None => {
                let e: Vec<KeySlot> = Vec::new();
                assert(e.deep_view() =~= Seq::<KeySlotV>::empty());
                e
            },
        };
        let mut mp = match positions.remove(mode) {
            Some(v) => v,
            None => {
                let e: Vec<KeyPosition> = Vec::new();
                assert(e.deep_view() =~= Seq::<KeyPositionV>::empty());
                e
            },
        };
        proof {
            assert(mk.deep_view() == keys_of(k0, mode@));
            assert(mp.deep_view() == positions_of(p0, mode@));
        }
        align_imported_key_pair(&mut mk, &mut mp);
        keys.insert(modes[i].clone(), mk);
        positions.insert(modes[i].clone(), mp);
        proof {
            assert forall|j: int| 0 <= j < i + 1 implies {
                let m = #[trigger] modes.deep_view()[j];
                let n = max_len(keys_of(k0, m).len(), positions_of(p0, m).len());
                &&& keys@[m] == padded(keys_of(k0, m), n, KeySlotV { label: Seq::empty() })
                &&& positions@[m] == padded(positions_of(p0, m), n, blank_key_position())
            } by {
                if j < i {
                    assert(modes.deep_view()[j] != modes.deep_view()[i as int]);
                }
            }
            assert forall|x: Seq<char>| #[trigger] keys@.contains_key(x) <==> (k0.contains_key(x) || exists|j: int|
                0 <= j < i + 1 && modes.deep_view()[j] == x) by {
                if x == mode@ {
                    assert(modes.deep_view()[i as int] == x);
                }
            }
            assert forall|x: Seq<char>|
                #[trigger] keys@.contains_key(x) && !(exists|j: int| 0 <= j < i + 1 && modes.deep_view()[j] == x)
                    implies keys@[x] == k0[x] by {
                assert(modes.deep_view()[i as int] == mode@);
            }
            assert forall|x: Seq<char>|
                #[trigger] positions@.contains_key(x) && !(exists|j: int| 0 <= j < i + 1 && modes.deep_view()[j] == x)
                    implies positions@[x] == p0[x] by {
                assert(modes.deep_view()[i as int] == mode@);
            }
            assert forall|x: Seq<char>| #[trigger] positions@.contains_key(x) <==> (p0.contains_key(x) || exists|j: int|
                0 <= j < i + 1 && modes.deep_view()[j] == x) by {
                if x == mode@ {
                    assert(modes.deep_view()[i as int] == x);
                }
            }
        }
        i += 1;
    }
    proof {
        assert forall|x: Seq<char>| #[trigger] keys@.contains_key(x) <==> (k0.contains_key(x) || p0.contains_key(x)) by {
            if k0.contains_key(x) || p0.contains_key(x) {
                assert(modes.deep_view().contains(x));
                let j = choose|j: int| 0 <= j < modes.deep_view().len() && modes.deep_view()[j] == x;
                assert(0 <= j < i && modes.deep_view()[j] == x);
            }
            if exists|j: int| 0 <= j < i && modes.deep_view()[j] == x {
                let j = choose|j: int| 0 <= j < i && modes.deep_view()[j] == x;
                assert(modes.deep_view().contains(x));
            }
        }
        assert forall|x: Seq<char>| #[trigger] positions@.contains_key(x) <==> (k0.contains_key(x) || p0.contains_key(x)) by {
            if k0.contains_key(x) || p0.contains_key(x) {
                assert(modes.deep_view().contains(x));
                let j = choose|j: int| 0 <= j < modes.deep_view().len() && modes.deep_view()[j] == x;
                assert(0 <= j < i && modes.deep_view()[j] == x);
            }
            if exists|j: int| 0 <= j < i && modes.deep_view()[j] == x {
                let j = choose|j: int| 0 <= j < i && modes.deep_view()[j] == x;
                assert(modes.deep_view().contains(x));
            }
        }
        assert(keys@.dom() =~= k0.dom().union(p0.dom()));
        assert(positions@.dom() =~= k0.dom().union(p0.dom()));
        assert forall|m: Seq<char>| #[trigger] keys@.contains_key(m) implies ({
            let n = max_len(keys_of(k0, m).len(), positions_of(p0, m).len());
            &&& keys@[m] == padded(keys_of(k0, m), n, KeySlotV { label: Seq::empty() })
            &&& positions@[m] == padded(positions_of(p0, m), n, blank_key_position())
        }) by {
            assert(modes.deep_view().contains(m));
            let j = choose|j: int| 0 <= j < modes.deep_view().len() && modes.deep_view()[j] == m;
        }
    }
}

/// A list of texts in strictly increasing text order.
pub open spec fn strictly_sorted(v: Seq<Seq<char>>) -> bool {
    forall|i: int, j: int| 0 <= i < j < v.len() ==> text_lt(#[trigger] v[i], #[trigger] v[j])
}

/// Inserts a text into a strictly sorted list that lacks it, keeping the order.
fn insert_sorted(v: &mut Vec<String>, t: String)
    requires
        strictly_sorted(old(v).deep_view()),
        !old(v).deep_view().contains(t@),
    ensures
        strictly_sorted(final(v).deep_view()),
        forall|x: Seq<char>| #[trigger] final(v).deep_view().contains(x) <==> (old(v).deep_view().contains(x) || x == t@),
{
    let ghost v0 = v.deep_view();
    let mut p: usize = 0;
    while p < v.len() && !text_less(t.as_str(), v[p].as_str())
        invariant
            p <= v.len(),
            v.deep_view() == v0,
            !v0.contains(t@),
            strictly_sorted(v0),
            forall|j: int| 0 <= j < p ==> text_lt(v0[j], t@),
        decreases v.len() - p,
    {
        proof {
            lemma_text_lt(t@, v0[p as int], t@);
            assert(v0[p as int] != t@) by {
                if v0[p as int] == t@ {
                    assert(v0.contains(t@));
                }
            }
        }
        p += 1;
    }
    let ghost tv = t@;
    v.insert(p, t);
    proof {
        let v1 = v.deep_view();
        assert(v1 =~= v0.insert(p as int, tv));
        assert forall|i: int, j: int| 0 <= i < j < v1.len() implies text_lt(#[trigger] v1[i], #[trigger] v1[j]) by {
            if j < p {
                assert(v1[i] == v0[i] && v1[j] == v0[j]);
            } else if j == p {
                assert(v1[i] == v0[i]);
            } else if i == p {
                assert(v1[j] == v0[j - 1]);
                if j - 1 > p {
                    assert(text_lt(v0[p as int], v0[j - 1]));
                    lemma_text_lt(tv, v0[p as int], v0[j - 1]);
                }
            } else if i < p {
                assert(v1[i] == v0[i] && v1[j] == v0[j - 1]);
            } else {
                assert(v1[i] == v0[i - 1] && v1[j] == v0[j - 1]);
            }
        }
        assert forall|x: Seq<char>| #[trigger] v1.contains(x) <==> (v0.contains(x) || x == tv) by {
            if v1.contains(x) {
                let k = choose|k: int| 0 <= k < v1.len() && v1[k] == x;
                if k < p {
                    assert(v0[k] == x);
                } else if k > p {
                    assert(v0[k - 1] == x);
                }
            }
            if v0.contains(x) {
                let k = choose|k: int| 0 <= k < v0.len() && v0[k] == x;
                if k < p {
                    assert(v1[k] == x);
                } else {
                    assert(v1[k + 1] == x);
                }
            }
            if x == tv {
                assert(v1[p as int] == x);
            }
        }
    }
}

/// Name of the `n`-th synthesized custom tab.
pub open spec fn custom_tab_name(n: nat) -> Seq<char> {
    "Custom "@ + decimal(n)
}

/// Custom tabs for a preset that lists none: one per tab that is not built in, in text
/// order of their ids, named `Custom 1`, `Custom 2`, and so on.
pub fn synthesize_custom_tabs(keys: &StrMap<Vec<KeySlot>>) -> (r: Vec<CustomTab>)
    ensures
        strictly_sorted(custom_ids(r.deep_view())),
        forall|x: Seq<char>|
            #[trigger] custom_ids(r.deep_view()).contains(x) <==> (keys@.contains_key(x)
                && !is_builtin_tab(x)),
        forall|i: int| 0 <= i < r.len() ==> (#[trigger] r.deep_view()[i]).name == custom_tab_name(
            (i + 1) as nat,
        ),
{
    keys.check_wf();
    let mut ids: Vec<String> = Vec::new();
    let mut i: usize = 0;
    let n = keys.len();
    while i < n
        invariant
            n == keys.spec_len(),
            i <= n,
            keys.wf(),
            strictly_sorted(ids.deep_view()),
            forall|x: Seq<char>|
                #[trigger] ids.deep_view().contains(x) <==> (exists|j: int|
                    0 <= j < i && keys.spec_key(j) == x) && !is_builtin_tab(x),
        decreases n - i,
    {
        let k = keys.key_at(i);
        proof {
            keys.lemma_distinct();
        }
        if !builtin_tab(k.as_str()) {
            proof {
                if ids.deep_view().contains(k@) {
                    let j = choose|j: int| 0 <= j < i && keys.spec_key(j) == k@;
                    assert(keys.spec_key(j) != keys.spec_key(i as int));
                }
            }
            insert_sorted(&mut ids, k.clone());
        }
        proof {
            assert forall|x: Seq<char>|
                #[trigger] ids.deep_view().contains(x) <==> (exists|j: int|
                    0 <= j < i + 1 && keys.spec_key(j) == x) && !is_builtin_tab(x) by {
                if x == k@ && !is_builtin_tab(x) {
                    assert(keys.spec_key(i as int) == x);
                }
            }
        }
        i += 1;
    }
    let mut out: Vec<CustomTab> = Vec::new();
    let mut q: usize = 0;
    while q < ids.len()
        invariant
            q <= ids.len(),
            out.deep_view().len() == q,
            forall|u: int| 0 <= u < q ==> (#[trigger] out.deep_view()[u]).id == ids.deep_view()[u],
            forall|u: int| 0 <= u < q ==> (#[trigger] out.deep_view()[u]).name == custom_tab_name((u + 1) as nat),
        decreases ids.len() - q,
    {
        let number = decimal_text((q + 1) as u64);
        let name = concat("Custom ", number.as_str());
        let tab = CustomTab { id: ids[q].clone(), name };
        let ghost before = out.deep_view();
        out.push(tab);
        proof {
            assert(out.deep_view() =~= before.push(tab.deep_view()));
        }
        q += 1;
    }
    proof {
        let got = custom_ids(out.deep_view());
        assert(got =~= ids.deep_view());
        assert forall|x: Seq<char>| #[trigger] got.contains(x) <==> (keys@.contains_key(x) && !is_builtin_tab(x)) by {
            if keys@.contains_key(x) {
                let j = keys.lemma_key(x);
            }
            if exists|j: int| 0 <= j < n && keys.spec_key(j) == x {
                let j = choose|j: int| 0 <= j < n && keys.spec_key(j) == x;
                keys.lemma_index(j);
            }
        }
    }
    out
}


/// The element with a new UUID as its id, nothing else changed.
pub open spec fn rekeyed<E: HasLook>(old: E::V, new: E::V) -> bool {
    let lo = E::look_of(old);
    let id = E::look_of(new).id;
    &&& new == E::with_look(old, KeyPositionV { id, ..lo })
    &&& is_uuid_text(id)
}

/// The element rekeyed if `all` or its id is empty, else unchanged.
pub open spec fn rekeyed_if<E: HasLook>(all: bool, old: E::V, new: E::V) -> bool {
    if all || E::look_of(old).id.len() == 0 {
        rekeyed::<E>(old, new)
    } else {
        new == old
    }
}

/// Every element of a list rekeyed (or only those without id).
pub open spec fn list_rekeyed<E: HasLook>(all: bool, old: Seq<E::V>, new: Seq<E::V>) -> bool {
    new.len() == old.len() && forall|i: int| 0 <= i < old.len() ==> rekeyed_if::<E>(all, old[i], #[trigger] new[i])
}

/// Gives every element of a list a new id, or only the elements without one.
fn rekey_list<E: HasLook>(v: &mut Vec<E>, all: bool)
    ensures
        list_rekeyed::<E>(all, old(v).deep_view(), final(v).deep_view()),
{
    let ghost v0 = v.deep_view();
    let mut i: usize = 0;
    while i < v.len()
        invariant
            i <= v.len(),
            v0.len() == v.len(),
            forall|j: int| i <= j < v.len() ==> v.deep_view()[j] == v0[j],
            forall|j: int| 0 <= j < i ==> rekeyed_if::<E>(all, v0[j], #[trigger] v.deep_view()[j]),
        decreases v.len() - i,
    {
        let mut e = v[i].dup();
        let blank = chars_of(e.look().id.as_str()).len() == 0;
        if all || blank {
            let mut l = e.look().dup();
            proof {
                assert(l.id@.len() == 0 <==> E::look_of(v0[i as int]).id.len() == 0);
            }
            l.id = new_uuid_text();
            let ghost e0 = e.deep_view();
            e.set_look(l);
            proof {
                E::lemma_with_look(e0, l.deep_view());
            }
        }
        let ghost before = v.deep_view();
        v.set(i, e);
        proof {
            assert(v.deep_view() =~= before.update(i as int, e.deep_view()));
            assert(v.deep_view()[i as int] == e.deep_view());
        }
        i += 1;
    }
    assert(v.deep_view().len() == v0.len());
}

/// Every tab's list rekeyed.
pub open spec fn collection_rekeyed<E: HasLook>(
    all: bool,
    old: Map<Seq<char>, Seq<E::V>>,
    new: Map<Seq<char>, Seq<E::V>>,
) -> bool {
    &&& new.dom() == old.dom()
    &&& forall|k: Seq<char>| #[trigger] old.contains_key(k) ==> list_rekeyed::<E>(all, old[k], new[k])
}

/// Gives every element of every tab a new id, or only the elements without one.
fn rekey_collection<E: HasLook>(m: &mut StrMap<Vec<E>>, all: bool)
    ensures
        collection_rekeyed::<E>(all, old(m)@, final(m)@),
{
    m.check_wf();
    let ghost m0 = *m;
    let n = m.len();
    let mut i: usize = 0;
    while i < n
        invariant
            n == m.spec_len(),
            n == m0.spec_len(),
            i <= n,
            m.wf(),
            m0.wf(),
            forall|j: int| 0 <= j < n ==> m.spec_key(j) == m0.spec_key(j),
            forall|j: int| i <= j < n ==> m.spec_value(j) == m0.spec_value(j),
            forall|j: int| 0 <= j < i ==> list_rekeyed::<E>(all, m0.spec_value(j), #[trigger] m.spec_value(j)),
        decreases n - i,
    {
        let mut v = m.replace_at(i, Vec::new());
        rekey_list(&mut v, all);
        let _ = m.replace_at(i, v);
        i += 1;
    }
    proof {
        assert forall|k: Seq<char>| #[trigger] m.view_map().contains_key(k) <==> m0.view_map().contains_key(k) by {
            if m0@.contains_key(k) {
                let j = m0.lemma_key(k);
                m.lemma_index(j);
            }
            if m@.contains_key(k) {
                let j = m.lemma_key(k);
                m0.lemma_index(j);
            }
        }
        assert(m@.dom() =~= m0@.dom());
        assert forall|k: Seq<char>| #[trigger] m0@.contains_key(k) implies list_rekeyed::<E>(all, m0@[k], m@[k]) by {
            let j = m0.lemma_key(k);
            m.lemma_index(j);
        }
    }
}

/// Rekeys the list of one tab, if the tab has one.
fn rekey_tab<E: HasLook>(m: &mut StrMap<Vec<E>>, tab: &str, all: bool)
    ensures
        final(m)@.dom() == old(m)@.dom(),
        forall|k: Seq<char>| #[trigger] old(m)@.contains_key(k) && k != tab@ ==> final(m)@[k] == old(m)@[k],
        old(m)@.contains_key(tab@) ==> list_rekeyed::<E>(all, old(m)@[tab@], final(m)@[tab@]),
{
    match m.remove(tab) {
        Some(mut v) => {
            rekey_list(&mut v, all);
            m.insert(string_of(&chars_of(tab)), v);
            proof {
                assert(m@.dom() =~= old(m)@.dom());
            }
        },
        None => {},
    }
}

/// A sprite with a new UUID as its id, nothing else changed.
pub open spec fn sprite_rekeyed_if(all: bool, old: crate::model::ReactiveSpritePositionV, new: crate::model::ReactiveSpritePositionV) -> bool {
    if all || old.id.len() == 0 {
        new == (crate::model::ReactiveSpritePositionV { id: new.id, ..old }) && is_uuid_text(new.id)
    } else {
        new == old
    }
}

/// Every sprite of a list rekeyed (or only those without id).
pub open spec fn sprites_rekeyed(
    all: bool,
    old: Seq<crate::model::ReactiveSpritePositionV>,
    new: Seq<crate::model::ReactiveSpritePositionV>,
) -> bool {
    new.len() == old.len() && forall|i: int| 0 <= i < old.len() ==> sprite_rekeyed_if(all, old[i], #[trigger] new[i])
}

fn rekey_sprite_list(v: &mut Vec<crate::model::ReactiveSpritePosition>, all: bool)
    ensures
        sprites_rekeyed(all, old(v).deep_view(), final(v).deep_view()),
{
    let ghost v0 = v.deep_view();
    let mut i: usize = 0;
    while i < v.len()
        invariant
            i <= v.len(),
            v0.len() == v.len(),
            forall|j: int| i <= j < v.len() ==> v.deep_view()[j] == v0[j],
            forall|j: int| 0 <= j < i ==> sprite_rekeyed_if(all, v0[j], #[trigger] v.deep_view()[j]),
        decreases v.len() - i,
    {
        let mut e = v[i].dup();
        if all || chars_of(e.id.as_str()).len() == 0 {
            e.id = new_uuid_text();
        }
        let ghost before = v.deep_view();
        v.set(i, e);
        proof {
            assert(v.deep_view() =~= before.update(i as int, e.deep_view()));
        }
        i += 1;
    }
}

/// Rekeys the sprites of one tab, if the tab has any.
fn rekey_tab_sprites(m: &mut StrMap<Vec<crate::model::ReactiveSpritePosition>>, tab: &str, all: bool)
    ensures
        final(m)@.dom() == old(m)@.dom(),
        forall|k: Seq<char>| #[trigger] old(m)@.contains_key(k) && k != tab@ ==> final(m)@[k] == old(m)@[k],
        old(m)@.contains_key(tab@) ==> sprites_rekeyed(all, old(m)@[tab@], final(m)@[tab@]),
{
    match m.remove(tab) {
        Some(mut v) => {
            rekey_sprite_list(&mut v, all);
            m.insert(string_of(&chars_of(tab)), v);
            proof {
                assert(m@.dom() =~= old(m)@.dom());
            }
        },
        None => {},
    }
}

/// Gives every sprite of every tab a new id.
fn rekey_all_sprites(m: &mut StrMap<Vec<crate::model::ReactiveSpritePosition>>)
    ensures
        final(m)@.dom() == old(m)@.dom(),
        forall|k: Seq<char>| #[trigger] old(m)@.contains_key(k) ==> sprites_rekeyed(true, old(m)@[k], final(m)@[k]),
{
    m.check_wf();
    let ghost m0 = *m;
    let n = m.len();
    let mut i: usize = 0;
    while i < n
        invariant
            n == m.spec_len(),
            n == m0.spec_len(),
            i <= n,
            m.wf(),
            m0.wf(),
            forall|j: int| 0 <= j < n ==> m.spec_key(j) == m0.spec_key(j),
            forall|j: int| i <= j < n ==> m.spec_value(j) == m0.spec_value(j),
            forall|j: int| 0 <= j < i ==> sprites_rekeyed(true, m0.spec_value(j), #[trigger] m.spec_value(j)),
        decreases n - i,
    {
        let mut v = m.replace_at(i, Vec::new());
        rekey_sprite_list(&mut v, true);
        let _ = m.replace_at(i, v);
        i += 1;
    }
    proof {
        assert forall|k: Seq<char>| #[trigger] m.view_map().contains_key(k) <==> m0.view_map().contains_key(k) by {
            if m0@.contains_key(k) {
                let j = m0.lemma_key(k);
                m.lemma_index(j);
            }
            if m@.contains_key(k) {
                let j = m.lemma_key(k);
                m0.lemma_index(j);
            }
        }
        assert(m@.dom() =~= m0@.dom());
        assert forall|k: Seq<char>| #[trigger] m0@.contains_key(k) implies sprites_rekeyed(true, m0@[k], m@[k]) by {
            let j = m0.lemma_key(k);
            m.lemma_index(j);
        }
    }
}

/// Every element and sprite of the document got a new id; nothing else changed.
pub open spec fn store_rekeyed(old: AppStoreDataV, new: AppStoreDataV) -> bool {
    &&& new == (AppStoreDataV {
        key_positions: new.key_positions,
        stat_positions: new.stat_positions,
        graph_positions: new.graph_positions,
        knob_positions: new.knob_positions,
        sprite_positions: new.sprite_positions,
        ..old
    })
    &&& collection_rekeyed::<KeyPosition>(true, old.key_positions, new.key_positions)
    &&& collection_rekeyed::<crate::model::StatPosition>(true, old.stat_positions, new.stat_positions)
    &&& collection_rekeyed::<crate::model::GraphPosition>(true, old.graph_positions, new.graph_positions)
    &&& collection_rekeyed::<crate::model::KnobPosition>(true, old.knob_positions, new.knob_positions)
    &&& new.sprite_positions.dom() == old.sprite_positions.dom()
    &&& forall|k: Seq<char>|
        #[trigger] old.sprite_positions.contains_key(k) ==> sprites_rekeyed(
            true,
            old.sprite_positions[k],
            new.sprite_positions[k],
        )
}

/// Gives every element and sprite of an imported document a new identity.
pub fn rekey_full_preset_elements(store: &mut AppStoreData)
    ensures
        store_rekeyed(old(store).deep_view(), final(store).deep_view()),
{
    rekey_collection(&mut store.key_positions, true);
    rekey_collection(&mut store.stat_positions, true);
    rekey_collection(&mut store.graph_positions, true);
    rekey_collection(&mut store.knob_positions, true);
    rekey_all_sprites(&mut store.sprite_positions);
}

/// A collection whose tab `tab` was rekeyed (all elements, or only those without id)
/// and whose other tabs are unchanged.
pub open spec fn tab_rekeyed<E: HasLook>(
    tab: Seq<char>,
    all: bool,
    old: Map<Seq<char>, Seq<E::V>>,
    new: Map<Seq<char>, Seq<E::V>>,
) -> bool {
    &&& new.dom() == old.dom()
    &&& forall|k: Seq<char>| #[trigger] old.contains_key(k) && k != tab ==> new[k] == old[k]
    &&& old.contains_key(tab) ==> list_rekeyed::<E>(all, old[tab], new[tab])
}

/// The document after a one-tab import's rekeying: only the tab's elements changed ids.
pub open spec fn tab_store_rekeyed(
    o: AppStoreDataV,
    n: AppStoreDataV,
    tab: Seq<char>,
    key_positions_written: bool,
    stat_positions_written: bool,
    graph_positions_written: bool,
    knob_positions_written: bool,
    sprite_positions_written: bool,
) -> bool {
    &&& n == (AppStoreDataV {
        key_positions: n.key_positions,
        stat_positions: n.stat_positions,
        graph_positions: n.graph_positions,
        knob_positions: n.knob_positions,
        sprite_positions: n.sprite_positions,
        ..o
    })
    &&& tab_rekeyed::<KeyPosition>(tab, key_positions_written, o.key_positions, n.key_positions)
    &&& tab_rekeyed::<crate::model::StatPosition>(tab, stat_positions_written, o.stat_positions, n.stat_positions)
    &&& tab_rekeyed::<crate::model::GraphPosition>(tab, graph_positions_written, o.graph_positions, n.graph_positions)
    &&& tab_rekeyed::<crate::model::KnobPosition>(tab, knob_positions_written, o.knob_positions, n.knob_positions)
    &&& n.sprite_positions.dom() == o.sprite_positions.dom()
    &&& (forall|k: Seq<char>| #[trigger] o.sprite_positions.contains_key(k) && k != tab
        ==> n.sprite_positions[k] == o.sprite_positions[k])
    &&& (o.sprite_positions.contains_key(tab) ==> sprites_rekeyed(
        sprite_positions_written,
        o.sprite_positions[tab],
        n.sprite_positions[tab],
    ))
}

/// After a one-tab import: the collections that the preset wrote get new ids for all of the
/// tab's elements; the others only fill in missing ids of the tab's elements.
pub fn rekey_tab_preset_elements(
    store: &mut AppStoreData,
    tab_id: &str,
    key_positions_written: bool,
    stat_positions_written: bool,
    graph_positions_written: bool,
    knob_positions_written: bool,
    sprite_positions_written: bool,
)
    ensures
        tab_store_rekeyed(
            old(store).deep_view(),
            final(store).deep_view(),
            tab_id@,
            key_positions_written,
            stat_positions_written,
            graph_positions_written,
            knob_positions_written,
            sprite_positions_written,
        ),
{
    rekey_tab(&mut store.key_positions, tab_id, key_positions_written);
    rekey_tab(&mut store.stat_positions, tab_id, stat_positions_written);
    rekey_tab(&mut store.graph_positions, tab_id, graph_positions_written);
    rekey_tab(&mut store.knob_positions, tab_id, knob_positions_written);
    rekey_tab_sprites(&mut store.sprite_positions, tab_id, sprite_positions_written);
}

/// Writes a one-tab preset's key bindings to the current tab, paired with its key elements
/// (the imported ones, or the tab's own when the preset has none).
pub fn merge_tab_preset_key_pair(
    store: &mut AppStoreData,
    current_tab_id: &str,
    keys: Vec<KeySlot>,
    imported_positions: Option<Vec<KeyPosition>>,
)
    ensures
        ({
            let o = old(store).deep_view();
            let tab = current_tab_id@;
            let pos = match imported_positions.deep_view() {
                Some(p) => p,
                None => positions_of(o.key_positions, tab),
            };
            let n = max_len(keys.deep_view().len(), pos.len());
            final(store).deep_view() == (AppStoreDataV {
                keys: o.keys.insert(tab, padded(keys.deep_view(), n, KeySlotV { label: Seq::empty() })),
                key_positions: o.key_positions.insert(tab, padded(pos, n, blank_key_position())),
                ..o
            })
        }),
{
    let mut positions = match imported_positions {
        Some(p) => p,
        None => match store.key_positions.get(current_tab_id) {
            Some(p) => p.dup(),
            None => {
                let e: Vec<KeyPosition> = Vec::new();
                assert(e.deep_view() =~= Seq::<KeyPositionV>::empty());
                e
            },
        },
    };
    let mut keys = keys;
    align_imported_key_pair(&mut keys, &mut positions);
    store.keys.insert(string_of(&chars_of(current_tab_id)), keys);
    store.key_positions.insert(string_of(&chars_of(current_tab_id)), positions);
}

/// The selected tab after a full import: the preset's choice if it has that tab, else the
/// current one if it exists, else `4key`.
pub open spec fn spec_choose_selected(
    requested: Option<Seq<char>>,
    keys: Map<Seq<char>, Seq<KeySlotV>>,
    fallback: Seq<char>,
) -> Seq<char> {
    if requested matches Some(r) && keys.contains_key(r) {
        requested->0
    } else if keys.contains_key(fallback) {
        fallback
    } else {
        "4key"@
    }
}

pub fn choose_selected_key_type(
    requested: Option<String>,
    keys: &StrMap<Vec<KeySlot>>,
    fallback: String,
) -> (r: String)
    ensures
        r@ == spec_choose_selected(requested.deep_view(), keys@, fallback@),
{
    match requested {
        Some(req) => {
            if keys.contains_key(req.as_str()) {
                return req;
            }
        },
        None => {},
    }
    if keys.contains_key(fallback.as_str()) {
        return fallback;
    }
    string_of(&chars_of("4key"))
}

/// Applies a one-tab preset's note override: only when the preset has the field; an
/// absent entry for the tab removes the tab's override.
pub fn apply_tab_note_override(
    store: &mut AppStoreData,
    tab_id: &str,
    field_present: bool,
    imported: Option<TabNoteSettings>,
)
    ensures
        ({
            let o = old(store).deep_view();
            final(store).deep_view() == if !field_present {
                o
            } else {
                AppStoreDataV {
                    tab_note_overrides: match imported.deep_view() {
                        Some(t) => o.tab_note_overrides.insert(tab_id@, t),
                        None => o.tab_note_overrides.remove(tab_id@),
                    },
                    ..o
                }
            }
        }),
{
    if !field_present {
        return;
    }
    match imported {
        Some(settings) => {
            store.tab_note_overrides.insert(string_of(&chars_of(tab_id)), settings);
        },
        None => {
            let _ = store.tab_note_overrides.remove(tab_id);
        },
    }
}

/// The layer groups of a full import: the preset's, or an empty list for every tab.
pub fn resolve_full_preset_layer_groups(
    imported: Option<StrMap<Vec<LayerGroupDef>>>,
    keys: &StrMap<Vec<KeySlot>>,
) -> (r: StrMap<Vec<LayerGroupDef>>)
    ensures
        r@ == match imported {
            Some(m) => m@,
            None => Map::new(|k: Seq<char>| keys@.contains_key(k), |k: Seq<char>| Seq::<LayerGroupDefV>::empty()),
        },
{
    match imported {
        Some(m) => m,
        None => {
            keys.check_wf();
            let mut out: StrMap<Vec<LayerGroupDef>> = StrMap::new();
            let n = keys.len();
            let mut i: usize = 0;
            while i < n
                invariant
                    n == keys.spec_len(),
                    i <= n,
                    keys.wf(),
                    out@ == Map::new(
                        |k: Seq<char>| exists|j: int| 0 <= j < i && keys.spec_key(j) == k,
                        |k: Seq<char>| Seq::<LayerGroupDefV>::empty(),
                    ),
                decreases n - i,
            {
                let e: Vec<LayerGroupDef> = Vec::new();
                assert(e.deep_view() =~= Seq::<LayerGroupDefV>::empty());
                let k = keys.key_at(i).clone();
                out.insert(k, e);
                proof {
                    assert(out@ =~= Map::new(
                        |k: Seq<char>| exists|j: int| 0 <= j < i + 1 && keys.spec_key(j) == k,
                        |k: Seq<char>| Seq::<LayerGroupDefV>::empty(),
                    )) by {
                        assert(keys.spec_key(i as int) == k@);
                    }
                }
                i += 1;
            }
            proof {
                assert forall|k: Seq<char>| (exists|j: int| 0 <= j < n && keys.spec_key(j) == k) <==> keys@.contains_key(k) by {
                    if keys@.contains_key(k) {
                        let j = keys.lemma_key(k);
                    }
                    if exists|j: int| 0 <= j < n && keys.spec_key(j) == k {
                        let j = choose|j: int| 0 <= j < n && keys.spec_key(j) == k;
                        keys.lemma_index(j);
                    }
                }
                assert(out@ =~= Map::new(|k: Seq<char>| keys@.contains_key(k), |k: Seq<char>| Seq::<LayerGroupDefV>::empty()));
            }
            out
        },
    }
}

/// Style sheet paths that an import brings in, for the host to authorize.
pub struct ImportedCssPaths {
    pub global: Option<String>,
    pub tabs: Vec<String>,
}

/// The style sheet and script settings that a full import publishes.
pub struct FullPresetPublication {
    pub use_custom_css: bool,
    pub custom_css: CustomCss,
    pub use_custom_js: bool,
    pub custom_js: CustomJs,
}


/// The tab selected after a full import: the preset's selected tab whenever its key
/// bindings have it, whatever the current selection; otherwise the current tab if the
/// bindings have it; otherwise `4key`.
pub proof fn lemma_import_selection(
    requested: Option<Seq<char>>,
    keys: Map<Seq<char>, Seq<KeySlotV>>,
    current: Seq<char>,
)
    ensures
        requested is Some && keys.contains_key(requested->0) ==> spec_choose_selected(requested, keys, current)
            == requested->0,
        !(requested is Some && keys.contains_key(requested->0)) && keys.contains_key(current) ==> spec_choose_selected(
            requested,
            keys,
            current,
        ) == current,
        !(requested is Some && keys.contains_key(requested->0)) && !keys.contains_key(current) ==> spec_choose_selected(
            requested,
            keys,
            current,
        ) == "4key"@,
        keys.contains_key(spec_choose_selected(requested, keys, current)) || spec_choose_selected(
            requested,
            keys,
            current,
        ) == "4key"@,
{
}

} // verus!
