//! Resetting and deleting tabs: what a reset writes, when it changes nothing, and what a
//! custom tab's deletion leaves behind.
use crate::deep_eq::{slices_equal, DeepEq};
use crate::looks::HasLook;
use crate::model::{
    AppStoreData, AppStoreDataV, CustomTab, CustomTabV, GraphPosition, KeyPosition, KeyPositionV,
    KeySlot, KeySlotV, KnobPosition, ReactiveSpritePosition, ReactiveSpritePositionV, SpritePose,
    SpritePoseV, StatPosition, StatPositionV,
};
use crate::preset_export::{builtin_tab, is_builtin_tab};
use crate::preset_import::{
    list_rekeyed, rekey_full_preset_elements, rekey_tab_preset_elements, rekeyed_if,
    sprite_rekeyed_if, sprites_rekeyed, store_rekeyed, tab_rekeyed, tab_store_rekeyed,
};
use crate::strmap::{Dup, StrMap};
use crate::tab_meta::{
    custom_ids, default_mode_keys, default_mode_positions, is_custom_tab, known_tab,
    lemma_normalized_tab_order, normalize_bar_count, normalize_tab_order, spec_default_keys,
    spec_default_positions, spec_normalize_bar_count, spec_normalize_tab_order, DEFAULT_BAR_COUNT,
};
use crate::text::{chars_of, contains_text, str_eq, string_of};
use vstd::prelude::*;

verus! {

/// How a tab is reset: a built-in tab gets its default layout, a custom tab an empty one.
#[derive(Clone, Copy, Debug, PartialEq, Eq, Structural)]
pub enum ModeResetKind {
    Default,
    Custom,
}

/// What deleting a custom tab writes: the remaining custom tabs, the tab order without it,
/// and the tab selected afterwards.
pub struct CustomTabDeletePlan {
    pub custom_tabs: Vec<CustomTab>,
    pub tab_order: Vec<String>,
    pub next_selected: String,
}

/// The counters of a tab's keys, all at zero: one per distinct key label.
pub open spec fn zero_counts(keys: Seq<KeySlotV>) -> Map<Seq<char>, u32> {
    Map::new(
        |l: Seq<char>| exists|i: int| 0 <= i < keys.len() && keys[i].label == l,
        |l: Seq<char>| 0u32,
    )
}

/// Zeroed counters for every tab of the key bindings.
pub open spec fn spec_zeroed_counters(keys: Map<Seq<char>, Seq<KeySlotV>>) -> Map<
    Seq<char>,
    Map<Seq<char>, u32>,
> {
    Map::new(|m: Seq<char>| keys.contains_key(m), |m: Seq<char>| zero_counts(keys[m]))
}

fn zero_counts_of(keys: &Vec<KeySlot>) -> (r: StrMap<u32>)
    ensures
        r@ == zero_counts(keys.deep_view()),
{
    let mut m: StrMap<u32> = StrMap::new();
    let mut i: usize = 0;
    while i < keys.len()
        invariant
            i <= keys.len(),
            m@ == Map::new(
                |l: Seq<char>| exists|j: int| 0 <= j < i && keys.deep_view()[j].label == l,
                |l: Seq<char>| 0u32,
            ),
        decreases keys.len() - i,
    {
        m.insert(keys[i].label.clone(), 0);
        proof {
            assert(m@ =~= Map::new(
                |l: Seq<char>| exists|j: int| 0 <= j < i + 1 && keys.deep_view()[j].label == l,
                |l: Seq<char>| 0u32,
            )) by {
                assert(keys.deep_view()[i as int].label == keys[i as int].label@);
            }
        }
        i += 1;
    }
    proof {
        assert(m@ =~= zero_counts(keys.deep_view()));
    }
    m
}

/// Counters at zero for every key of every tab.
pub fn zeroed_counters(keys: &StrMap<Vec<KeySlot>>) -> (r: StrMap<StrMap<u32>>)
    ensures
        r@ == spec_zeroed_counters(keys@),
{
    keys.check_wf();
    let n = keys.len();
    let mut out: StrMap<StrMap<u32>> = StrMap::new();
    let mut i: usize = 0;
    while i < n
        invariant
            n == keys.spec_len(),
            i <= n,
            keys.wf(),
            out@ == Map::new(
                |m: Seq<char>| exists|j: int| 0 <= j < i && keys.spec_key(j) == m,
                |m: Seq<char>| zero_counts(keys@[m]),
            ),
        decreases n - i,
    {
        let counts = zero_counts_of(keys.value_at(i));
        out.insert(keys.key_at(i).clone(), counts);
        proof {
            keys.lemma_index(i as int);
            assert(out@ =~= Map::new(
                |m: Seq<char>| exists|j: int| 0 <= j < i + 1 && keys.spec_key(j) == m,
                |m: Seq<char>| zero_counts(keys@[m]),
            ));
        }
        i += 1;
    }
    proof {
        assert forall|m: Seq<char>| (exists|j: int| 0 <= j < n && keys.spec_key(j) == m) <==> keys@.contains_key(m) by {
            if keys@.contains_key(m) {
                let j = keys.lemma_key(m);
            }
            if exists|j: int| 0 <= j < n && keys.spec_key(j) == m {
                let j = choose|j: int| 0 <= j < n && keys.spec_key(j) == m;
                keys.lemma_index(j);
            }
        }
        assert(out@ =~= spec_zeroed_counters(keys@));
    }
    out
}

/// The document after a full reset, before its elements get new ids: the given layouts,
/// no other elements, groups, counters, custom tabs or per-tab overrides, the built-in
/// tab order, and the first built-in tab selected.
pub open spec fn reset_all_view(
    s: AppStoreDataV,
    keys: Map<Seq<char>, Seq<KeySlotV>>,
    positions: Map<Seq<char>, Seq<crate::model::KeyPositionV>>,
    stats: Map<Seq<char>, Seq<StatPositionV>>,
) -> AppStoreDataV {
    let order = spec_normalize_tab_order(Seq::empty(), Seq::empty());
    AppStoreDataV {
        keys: keys,
        key_positions: positions,
        stat_positions: stats,
        graph_positions: Map::empty(),
        knob_positions: Map::empty(),
        sprite_positions: Map::empty(),
        layer_groups: Map::empty(),
        key_counters: spec_zeroed_counters(keys),
        custom_tabs: Seq::empty(),
        tab_order: order,
        bar_count: spec_normalize_bar_count(DEFAULT_BAR_COUNT, order.len()),
        selected_key_type: "4key"@,
        tab_note_overrides: Map::empty(),
        tab_css_overrides: Map::empty(),
        ..s
    }
}

/// Resets the whole editing document to the given layouts; every element gets a new id.
pub fn reset_all_editor_data(
    store: &mut AppStoreData,
    keys: &StrMap<Vec<KeySlot>>,
    positions: &StrMap<Vec<KeyPosition>>,
    stat_positions: &StrMap<Vec<StatPosition>>,
)
    ensures
        store_rekeyed(
            reset_all_view(old(store).deep_view(), keys@, positions@, stat_positions@),
            final(store).deep_view(),
        ),
{
    store.keys = keys.copy();
    store.key_positions = positions.copy();
    store.stat_positions = stat_positions.copy();
    store.graph_positions = StrMap::new();
    store.knob_positions = StrMap::new();
    store.sprite_positions = StrMap::new();
    store.layer_groups = StrMap::new();
    store.key_counters = zeroed_counters(keys);
    store.custom_tabs = Vec::new();
    let no_order: Vec<String> = Vec::new();
    store.tab_order = normalize_tab_order(&no_order, &store.custom_tabs);
    store.bar_count = normalize_bar_count(DEFAULT_BAR_COUNT, &store.tab_order);
    store.selected_key_type = string_of(&chars_of("4key"));
    store.tab_note_overrides = StrMap::new();
    store.tab_css_overrides = StrMap::new();
    proof {
        assert(no_order.deep_view() =~= Seq::<Seq<char>>::empty());
        assert(store.custom_tabs.deep_view() =~= Seq::<CustomTabV>::empty());
    }
    rekey_full_preset_elements(store);
}

/// The custom tabs' ids hold this one.
pub open spec fn has_custom_tab(s: AppStoreDataV, mode: Seq<char>) -> bool {
    custom_ids(s.custom_tabs).contains(mode)
}

/// How a tab would be reset: by default for a built-in tab, emptied for a custom tab;
/// nothing for an unknown tab.
pub open spec fn spec_reset_mode_kind(s: AppStoreDataV, mode: Seq<char>) -> Option<ModeResetKind> {
    if is_builtin_tab(mode) {
        Some(ModeResetKind::Default)
    } else if has_custom_tab(s, mode) {
        Some(ModeResetKind::Custom)
    } else {
        None
    }
}

pub fn reset_mode_kind(store: &AppStoreData, mode: &str) -> (r: Option<ModeResetKind>)
    ensures
        r == spec_reset_mode_kind(store.deep_view(), mode@),
{
    if builtin_tab(mode) {
        Some(ModeResetKind::Default)
    } else if is_custom_tab(&store.custom_tabs, mode) {
        Some(ModeResetKind::Custom)
    } else {
        None
    }
}

/// A tab that can be selected: a built-in tab, or a custom tab that has key bindings.
pub open spec fn spec_is_selectable_mode(s: AppStoreDataV, mode: Seq<char>) -> bool {
    is_builtin_tab(mode) || (s.keys.contains_key(mode) && has_custom_tab(s, mode))
}

pub fn is_selectable_mode(store: &AppStoreData, mode: &str) -> (r: bool)
    ensures
        r == spec_is_selectable_mode(store.deep_view(), mode@),
{
    builtin_tab(mode) || (store.keys.contains_key(mode) && is_custom_tab(&store.custom_tabs, mode))
}

/// Selects the tab if it can be selected. Returns whether it did, and the selected tab.
pub fn select_mode_if_available(store: &mut AppStoreData, requested: &str) -> (r: (bool, String))
    ensures
        r.0 == spec_is_selectable_mode(old(store).deep_view(), requested@),
        r.0 ==> final(store).deep_view() == (AppStoreDataV {
            selected_key_type: requested@,
            ..old(store).deep_view()
        }),
        !r.0 ==> final(store).deep_view() == old(store).deep_view(),
        r.1@ == final(store).deep_view().selected_key_type,
{
    if !is_selectable_mode(store, requested) {
        return (false, store.selected_key_type.clone());
    }
    store.selected_key_type = string_of(&chars_of(requested));
    (true, store.selected_key_type.clone())
}

/// The default statistic elements of the built-in tabs: none.
pub open spec fn spec_default_stat_positions() -> Map<Seq<char>, Seq<StatPositionV>> {
    Map::new(|m: Seq<char>| is_builtin_tab(m), |m: Seq<char>| Seq::empty())
}

/// The default statistic elements of a built-in tab (none); nothing for other tabs.
fn default_mode_stat_positions(mode: &str) -> (r: Option<Vec<StatPosition>>)
    ensures
        r.deep_view() == (if is_builtin_tab(mode@) {
            Some(Seq::<StatPositionV>::empty())
        } else {
            None
        }),
{
    if builtin_tab(mode) {
        let v: Vec<StatPosition> = Vec::new();
        assert(v.deep_view() =~= Seq::<StatPositionV>::empty());
        Some(v)
    } else {
        None
    }
}

/// A map with `k` set to `v` where `d` gives a value, unchanged elsewhere.
pub open spec fn set_from<V>(m: Map<Seq<char>, V>, k: Seq<char>, d: Map<Seq<char>, V>) -> Map<Seq<char>, V> {
    if d.contains_key(k) {
        m.insert(k, d[k])
    } else {
        m
    }
}

/// The value for a key, if there is one.
pub open spec fn entry<V>(m: Map<Seq<char>, V>, k: Seq<char>) -> Option<V> {
    if m.contains_key(k) {
        Some(m[k])
    } else {
        None
    }
}

/// A list, or the empty list for nothing.
pub open spec fn or_empty<T>(o: Option<Seq<T>>) -> Seq<T> {
    match o {
        Some(s) => s,
        None => Seq::empty(),
    }
}

/// The document after a tab's reset, before its elements get new ids: default layouts
/// (built-in tab) or empty ones (custom tab), no graphs, knobs, sprites, groups or
/// overrides, and zeroed counters for the tab's keys.
pub open spec fn reset_mode_view(s: AppStoreDataV, mode: Seq<char>, kind: ModeResetKind) -> AppStoreDataV {
    let keys = match kind {
        ModeResetKind::Default => set_from(s.keys, mode, spec_default_keys()),
        ModeResetKind::Custom => s.keys.insert(mode, Seq::empty()),
    };
    let key_positions = match kind {
        ModeResetKind::Default => set_from(s.key_positions, mode, spec_default_positions()),
        ModeResetKind::Custom => s.key_positions.insert(mode, Seq::empty()),
    };
    let stat_positions = match kind {
        ModeResetKind::Default => set_from(s.stat_positions, mode, spec_default_stat_positions()),
        ModeResetKind::Custom => s.stat_positions.insert(mode, Seq::empty()),
    };
    AppStoreDataV {
        keys: keys,
        key_positions: key_positions,
        stat_positions: stat_positions,
        graph_positions: s.graph_positions.insert(mode, Seq::empty()),
        knob_positions: s.knob_positions.insert(mode, Seq::empty()),
        sprite_positions: s.sprite_positions.insert(mode, Seq::empty()),
        layer_groups: s.layer_groups.remove(mode),
        tab_css_overrides: s.tab_css_overrides.remove(mode),
        tab_note_overrides: s.tab_note_overrides.remove(mode),
        key_counters: s.key_counters.insert(mode, zero_counts(or_empty(entry(keys, mode)))),
        ..s
    }
}

/// An empty list.
fn empty_list<T: DeepView>() -> (r: Vec<T>)
    ensures
        r.deep_view() == Seq::<T::V>::empty(),
{
    let r: Vec<T> = Vec::new();
    assert(r.deep_view() =~= Seq::<T::V>::empty());
    r
}

/// Writes a tab's reset layouts into the document.
pub fn apply_reset_mode_data(store: &mut AppStoreData, mode: &str, kind: ModeResetKind)
    ensures
        final(store).deep_view() == reset_mode_view(old(store).deep_view(), mode@, kind),
{
    match kind {
        ModeResetKind::Default => {
            match default_mode_keys(mode) {
                Some(keys) => {
                    store.keys.insert(string_of(&chars_of(mode)), keys);
                },
                None => {},
            }
            match default_mode_positions(mode) {
                Some(positions) => {
                    store.key_positions.insert(string_of(&chars_of(mode)), positions);
                },
                None => {},
            }
            match default_mode_stat_positions(mode) {
                Some(positions) => {
                    store.stat_positions.insert(string_of(&chars_of(mode)), positions);
                },
                None => {},
            }
        },
        ModeResetKind::Custom => {
            store.keys.insert(string_of(&chars_of(mode)), empty_list());
            store.key_positions.insert(string_of(&chars_of(mode)), empty_list());
            store.stat_positions.insert(string_of(&chars_of(mode)), empty_list());
        },
    }
    store.graph_positions.insert(string_of(&chars_of(mode)), empty_list());
    store.knob_positions.insert(string_of(&chars_of(mode)), empty_list());
    store.sprite_positions.insert(string_of(&chars_of(mode)), empty_list());
    store.layer_groups.remove(mode);
    store.tab_css_overrides.remove(mode);
    store.tab_note_overrides.remove(mode);
    let mode_keys: Vec<KeySlot> = match store.keys.get(mode) {
        Some(k) => k.dup(),
        None => Vec::new(),
    };
    let counts = zero_counts_of(&mode_keys);
    store.key_counters.insert(string_of(&chars_of(mode)), counts);
    proof {
        let s = old(store).deep_view();
        assert(store.deep_view().graph_positions =~= s.graph_positions.insert(mode@, Seq::empty()));
        assert(store.deep_view().knob_positions =~= s.knob_positions.insert(mode@, Seq::empty()));
        assert(store.deep_view().sprite_positions =~= s.sprite_positions.insert(mode@, Seq::empty()));
        if !store.keys@.contains_key(mode@) {
            assert(mode_keys.deep_view() =~= Seq::<KeySlotV>::empty());
        }
        assert(store.deep_view().keys =~= reset_mode_view(s, mode@, kind).keys);
        assert(store.deep_view().key_positions =~= reset_mode_view(s, mode@, kind).key_positions);
        assert(store.deep_view().stat_positions =~= reset_mode_view(s, mode@, kind).stat_positions);
    }
}

/// An element whose look has an empty id.
pub open spec fn sans_id<E: HasLook>(v: E::V) -> E::V {
    E::with_look(v, KeyPositionV { id: Seq::empty(), ..E::look_of(v) })
}

/// Elements with empty ids.
pub open spec fn sans_ids<E: HasLook>(s: Seq<E::V>) -> Seq<E::V> {
    s.map_values(|v: E::V| sans_id::<E>(v))
}

/// Elements with empty ids, where there is a list.
pub open spec fn opt_sans_ids<E: HasLook>(o: Option<Seq<E::V>>) -> Option<Seq<E::V>> {
    match o {
        Some(s) => Some(sans_ids::<E>(s)),
        None => None,
    }
}

/// A sprite whose id and pose ids are empty.
pub open spec fn sprite_sans_ids(v: ReactiveSpritePositionV) -> ReactiveSpritePositionV {
    ReactiveSpritePositionV {
        id: Seq::empty(),
        poses: v.poses.map_values(|p: SpritePoseV| SpritePoseV { pose_id: Seq::empty(), ..p }),
        ..v
    }
}

/// Sprites with empty ids.
pub open spec fn sprites_sans_ids(s: Seq<ReactiveSpritePositionV>) -> Seq<ReactiveSpritePositionV> {
    s.map_values(|v: ReactiveSpritePositionV| sprite_sans_ids(v))
}

/// Two documents place the same elements on a tab, ids aside. A tab without key elements
/// differs from one with an empty list of them; for the other kinds both are empty.
pub open spec fn spec_positions_equal_without_ids(c: AppStoreDataV, d: AppStoreDataV, mode: Seq<char>) -> bool {
    &&& opt_sans_ids::<KeyPosition>(entry(c.key_positions, mode)) == opt_sans_ids::<KeyPosition>(
        entry(d.key_positions, mode),
    )
    &&& sans_ids::<StatPosition>(or_empty(entry(c.stat_positions, mode))) == sans_ids::<StatPosition>(
        or_empty(entry(d.stat_positions, mode)),
    )
    &&& sans_ids::<GraphPosition>(or_empty(entry(c.graph_positions, mode))) == sans_ids::<GraphPosition>(
        or_empty(entry(d.graph_positions, mode)),
    )
    &&& sans_ids::<KnobPosition>(or_empty(entry(c.knob_positions, mode))) == sans_ids::<KnobPosition>(
        or_empty(entry(d.knob_positions, mode)),
    )
    &&& sprites_sans_ids(or_empty(entry(c.sprite_positions, mode))) == sprites_sans_ids(
        or_empty(entry(d.sprite_positions, mode)),
    )
}

fn without_ids<E: HasLook>(v: &Vec<E>) -> (r: Vec<E>)
    ensures
        r.deep_view() == sans_ids::<E>(v.deep_view()),
{
    let mut out: Vec<E> = Vec::new();
    let mut i: usize = 0;
    while i < v.len()
        invariant
            i <= v.len(),
            out.deep_view() =~= sans_ids::<E>(v.deep_view()).take(i as int),
        decreases v.len() - i,
    {
        let mut e = v[i].dup();
        let mut l = e.look().dup();
        l.id = String::new();
        proof {
            assert(l.id@ =~= Seq::<char>::empty());
            assert(l.deep_view() == KeyPositionV { id: Seq::empty(), ..E::look_of(v.deep_view()[i as int]) });
        }
        e.set_look(l);
        let ghost before = out.deep_view();
        out.push(e);
        proof {
            assert(out.deep_view() =~= before.push(sans_id::<E>(v.deep_view()[i as int])));
        }
        i += 1;
    }
    out
}

fn tab_without_ids<E: HasLook>(m: &StrMap<Vec<E>>, mode: &str) -> (r: Option<Vec<E>>)
    ensures
        r.deep_view() == opt_sans_ids::<E>(entry(m@, mode@)),
{
    match m.get(mode) {
        Some(v) => Some(without_ids(v)),
        None => None,
    }
}

fn sprite_without_ids(s: &ReactiveSpritePosition) -> (r: ReactiveSpritePosition)
    ensures
        r.deep_view() == sprite_sans_ids(s.deep_view()),
{
    let mut poses: Vec<SpritePose> = Vec::new();
    let mut j: usize = 0;
    while j < s.poses.len()
        invariant
            j <= s.poses.len(),
            poses.deep_view() =~= sprite_sans_ids(s.deep_view()).poses.take(j as int),
        decreases s.poses.len() - j,
    {
        let mut p = s.poses[j].dup();
        p.pose_id = String::new();
        proof {
            assert(p.pose_id@ =~= Seq::<char>::empty());
        }
        let ghost before = poses.deep_view();
        poses.push(p);
        proof {
            assert(poses.deep_view() =~= before.push(p.deep_view()));
        }
        j += 1;
    }
    let id = String::new();
    proof {
        assert(id@ =~= Seq::<char>::empty());
        assert(s.deep_view().poses.len() == s.poses.len());
        assert(poses.deep_view() =~= sprite_sans_ids(s.deep_view()).poses);
    }
    ReactiveSpritePosition {
        id,
        base_image: s.base_image.dup(),
        reference_natural_size: s.reference_natural_size.dup(),
        poses,
    }
}

fn sprites_without_ids(v: &Vec<ReactiveSpritePosition>) -> (r: Vec<ReactiveSpritePosition>)
    ensures
        r.deep_view() == sprites_sans_ids(v.deep_view()),
{
    let mut out: Vec<ReactiveSpritePosition> = Vec::new();
    let mut i: usize = 0;
    while i < v.len()
        invariant
            i <= v.len(),
            out.deep_view() =~= sprites_sans_ids(v.deep_view()).take(i as int),
        decreases v.len() - i,
    {
        let e = sprite_without_ids(&v[i]);
        let ghost before = out.deep_view();
        out.push(e);
        proof {
            assert(out.deep_view() =~= before.push(e.deep_view()));
        }
        i += 1;
    }
    out
}

fn as_opt_slice<T: DeepView>(o: &Option<Vec<T>>) -> (r: Option<&[T]>)
    ensures
        r.deep_view() == o.deep_view(),
{
    match o {
        Some(v) => {
            let s = v.as_slice();
            assert(s.deep_view() =~= v.deep_view());
            Some(s)
        },
        None => None,
    }
}

fn ref_opt_slice<T: DeepView>(o: Option<&Vec<T>>) -> (r: Option<&[T]>)
    ensures
        r.deep_view() == o.deep_view(),
{
    match o {
        Some(v) => {
            let s = v.as_slice();
            assert(s.deep_view() =~= v.deep_view());
            Some(s)
        },
        None => None,
    }
}

/// Whether two optional lists hold the same elements, a missing list counting as empty.
pub fn optional_collections_equal<T: DeepEq>(current: Option<&[T]>, candidate: Option<&[T]>) -> (r: bool)
    ensures
        r == (or_empty(current.deep_view()) == or_empty(candidate.deep_view())),
{
    match (current, candidate) {
        (Some(a), Some(b)) => slices_equal(a, b),
        (Some(a), None) => {
            assert(b_empty_len(a.deep_view()));
            a.len() == 0
        },
        (None, Some(b)) => {
            assert(b_empty_len(b.deep_view()));
            b.len() == 0
        },
        (None, None) => true,
    }
}

spec fn b_empty_len<T>(s: Seq<T>) -> bool {
    s.len() == 0 <==> s =~= Seq::<T>::empty()
}

/// Comparing two documents' elements on a tab, ids aside, does not depend on which comes
/// first.
pub proof fn lemma_positions_equal_symmetric(c: AppStoreDataV, d: AppStoreDataV, mode: Seq<char>)
    ensures
        spec_positions_equal_without_ids(c, d, mode) == spec_positions_equal_without_ids(d, c, mode),
{
}

/// An element that got a new id is the same element, ids aside.
proof fn lemma_rekeyed_sans_id<E: HasLook>(all: bool, old: E::V, new: E::V)
    requires
        rekeyed_if::<E>(all, old, new),
    ensures
        sans_id::<E>(new) == sans_id::<E>(old),
{
    if all || E::look_of(old).id.len() == 0 {
        let lo = E::look_of(old);
        let l1 = KeyPositionV { id: E::look_of(new).id, ..lo };
        E::lemma_with_look(old, l1);
        E::lemma_with_look(old, lo);
        assert(E::look_of(new) == l1);
        assert(KeyPositionV { id: Seq::empty(), ..E::look_of(new) } == KeyPositionV { id: Seq::empty(), ..lo });
    }
}

/// A list whose elements got new ids holds the same elements, ids aside.
proof fn lemma_list_rekeyed_sans_ids<E: HasLook>(all: bool, old: Seq<E::V>, new: Seq<E::V>)
    requires
        list_rekeyed::<E>(all, old, new),
    ensures
        sans_ids::<E>(new) == sans_ids::<E>(old),
{
    assert forall|i: int| 0 <= i < old.len() implies sans_ids::<E>(new)[i] == sans_ids::<E>(old)[i] by {
        lemma_rekeyed_sans_id::<E>(all, old[i], new[i]);
    }
    assert(sans_ids::<E>(new) =~= sans_ids::<E>(old));
}

/// Sprites that got new ids are the same sprites, ids aside.
proof fn lemma_sprites_rekeyed_sans_ids(
    all: bool,
    old: Seq<ReactiveSpritePositionV>,
    new: Seq<ReactiveSpritePositionV>,
)
    requires
        sprites_rekeyed(all, old, new),
    ensures
        sprites_sans_ids(new) == sprites_sans_ids(old),
{
    assert forall|i: int| 0 <= i < old.len() implies sprites_sans_ids(new)[i] == sprites_sans_ids(old)[i] by {
        assert(sprite_rekeyed_if(all, old[i], new[i]));
        assert(new[i].poses == old[i].poses);
    }
    assert(sprites_sans_ids(new) =~= sprites_sans_ids(old));
}

/// Giving a tab's elements new ids leaves every tab with the same elements, ids aside:
/// what a reset or an import rekeys is never counted as a change of the layout.
pub proof fn lemma_rekeyed_tab_equal_without_ids(
    o: AppStoreDataV,
    n: AppStoreDataV,
    tab: Seq<char>,
    mode: Seq<char>,
    keys: bool,
    stats: bool,
    graphs: bool,
    knobs: bool,
    sprites: bool,
)
    requires
        tab_store_rekeyed(o, n, tab, keys, stats, graphs, knobs, sprites),
    ensures
        spec_positions_equal_without_ids(o, n, mode),
{
    if o.key_positions.contains_key(mode) && mode == tab {
        lemma_list_rekeyed_sans_ids::<KeyPosition>(keys, o.key_positions[mode], n.key_positions[mode]);
    }
    if o.stat_positions.contains_key(mode) && mode == tab {
        lemma_list_rekeyed_sans_ids::<StatPosition>(stats, o.stat_positions[mode], n.stat_positions[mode]);
    }
    if o.graph_positions.contains_key(mode) && mode == tab {
        lemma_list_rekeyed_sans_ids::<GraphPosition>(graphs, o.graph_positions[mode], n.graph_positions[mode]);
    }
    if o.knob_positions.contains_key(mode) && mode == tab {
        lemma_list_rekeyed_sans_ids::<KnobPosition>(knobs, o.knob_positions[mode], n.knob_positions[mode]);
    }
    if o.sprite_positions.contains_key(mode) && mode == tab {
        lemma_sprites_rekeyed_sans_ids(sprites, o.sprite_positions[mode], n.sprite_positions[mode]);
    }
    assert(entry(n.key_positions, mode) is Some <==> entry(o.key_positions, mode) is Some);
}

/// Whether two documents place the same elements on a tab, ids aside.
pub fn mode_positions_equal_without_ids(current: &AppStoreData, candidate: &AppStoreData, mode: &str) -> (r: bool)
    ensures
        r == spec_positions_equal_without_ids(current.deep_view(), candidate.deep_view(), mode@),
{
    let current_keys = tab_without_ids(&current.key_positions, mode);
    let candidate_keys = tab_without_ids(&candidate.key_positions, mode);
    let current_stats = tab_without_ids(&current.stat_positions, mode);
    let candidate_stats = tab_without_ids(&candidate.stat_positions, mode);
    let current_graphs = tab_without_ids(&current.graph_positions, mode);
    let candidate_graphs = tab_without_ids(&candidate.graph_positions, mode);
    let current_knobs = tab_without_ids(&current.knob_positions, mode);
    let candidate_knobs = tab_without_ids(&candidate.knob_positions, mode);
    let current_sprites = match current.sprite_positions.get(mode) {
        Some(v) => Some(sprites_without_ids(v)),
        None => None,
    };
    let candidate_sprites = match candidate.sprite_positions.get(mode) {
        Some(v) => Some(sprites_without_ids(v)),
        None => None,
    };
    proof {
        assert(sans_ids::<StatPosition>(Seq::empty()) =~= Seq::empty());
        assert(sans_ids::<GraphPosition>(Seq::empty()) =~= Seq::empty());
        assert(sans_ids::<KnobPosition>(Seq::empty()) =~= Seq::empty());
        assert(sprites_sans_ids(Seq::empty()) =~= Seq::empty());
    }
    current_keys.deep_eq(&candidate_keys) && optional_collections_equal(
        as_opt_slice(&current_stats),
        as_opt_slice(&candidate_stats),
    ) && optional_collections_equal(as_opt_slice(&current_graphs), as_opt_slice(&candidate_graphs))
        && optional_collections_equal(as_opt_slice(&current_knobs), as_opt_slice(&candidate_knobs))
        && optional_collections_equal(as_opt_slice(&current_sprites), as_opt_slice(&candidate_sprites))
}

/// A tab reset changes nothing that matters: same key bindings, elements (ids aside),
/// groups, overrides and counters.
pub open spec fn spec_reset_semantics_equal(c: AppStoreDataV, d: AppStoreDataV, mode: Seq<char>) -> bool {
    &&& entry(c.keys, mode) == entry(d.keys, mode)
    &&& spec_positions_equal_without_ids(c, d, mode)
    &&& or_empty(entry(c.layer_groups, mode)) == or_empty(entry(d.layer_groups, mode))
    &&& entry(c.tab_css_overrides, mode) == entry(d.tab_css_overrides, mode)
    &&& entry(c.tab_note_overrides, mode) == entry(d.tab_note_overrides, mode)
    &&& entry(c.key_counters, mode) == entry(d.key_counters, mode)
}

fn entries_equal<V: DeepEq>(a: &StrMap<V>, b: &StrMap<V>, k: &str) -> (r: bool)
    ensures
        r == (entry(a@, k@) == entry(b@, k@)),
{
    match (a.get(k), b.get(k)) {
        (Some(x), Some(y)) => x.deep_eq(y),
        (None, None) => true,
        _ => false,
    }
}

/// Whether a reset would leave the tab as it is, ids aside.
pub fn mode_reset_semantics_equal(current: &AppStoreData, candidate: &AppStoreData, mode: &str) -> (r: bool)
    ensures
        r == spec_reset_semantics_equal(current.deep_view(), candidate.deep_view(), mode@),
{
    entries_equal(&current.keys, &candidate.keys, mode) && mode_positions_equal_without_ids(
        current,
        candidate,
        mode,
    ) && optional_collections_equal(
        ref_opt_slice(current.layer_groups.get(mode)),
        ref_opt_slice(candidate.layer_groups.get(mode)),
    ) && entries_equal(&current.tab_css_overrides, &candidate.tab_css_overrides, mode)
        && entries_equal(&current.tab_note_overrides, &candidate.tab_note_overrides, mode)
        && entries_equal(&current.key_counters, &candidate.key_counters, mode)
}

/// Whether a plugin element stands on the tab. `instance_tabs` holds the tab of each
/// stored plugin element.
pub fn has_plugin_instances_in_mode(instance_tabs: &Vec<String>, mode: &str) -> (r: bool)
    ensures
        r == instance_tabs.deep_view().contains(mode@),
{
    contains_text(instance_tabs, mode)
}

/// Resets a tab. Returns whether anything changed: when the reset would leave the tab as
/// it is (ids aside) and no plugin element stands on it, the document stays as it was;
/// otherwise it takes the reset layouts, and the tab's elements get new ids.
pub fn reset_mode_data(
    store: &mut AppStoreData,
    mode: &str,
    kind: ModeResetKind,
    instance_tabs: &Vec<String>,
) -> (r: bool)
    ensures
        r == !(spec_reset_semantics_equal(
            old(store).deep_view(),
            reset_mode_view(old(store).deep_view(), mode@, kind),
            mode@,
        ) && !instance_tabs.deep_view().contains(mode@)),
        !r ==> final(store).deep_view() == old(store).deep_view(),
        r ==> tab_store_rekeyed(
            reset_mode_view(old(store).deep_view(), mode@, kind),
            final(store).deep_view(),
            mode@,
            true,
            true,
            true,
            true,
            true,
        ),
{
    let plugin_instances_changed = has_plugin_instances_in_mode(instance_tabs, mode);
    let mut candidate = store.dup();
    apply_reset_mode_data(&mut candidate, mode, kind);
    if mode_reset_semantics_equal(store, &candidate, mode) && !plugin_instances_changed {
        return false;
    }
    *store = candidate;
    rekey_tab_preset_elements(store, mode, true, true, true, true, true);
    true
}

/// `i` is where `x` first occurs in `s`.
pub open spec fn is_first_index(s: Seq<Seq<char>>, x: Seq<char>, i: int) -> bool {
    &&& 0 <= i < s.len()
    &&& s[i] == x
    &&& forall|j: int| 0 <= j < i ==> s[j] != x
}

/// Where `x` first occurs in `s`.
pub open spec fn first_index(s: Seq<Seq<char>>, x: Seq<char>) -> int {
    choose|i: int| is_first_index(s, x, i)
}

pub(crate) proof fn lemma_first_index_unique(s: Seq<Seq<char>>, x: Seq<char>, i: int)
    requires
        is_first_index(s, x, i),
    ensures
        first_index(s, x) == i,
{
    let k = first_index(s, x);
    assert(is_first_index(s, x, k));
    if k < i {
        assert(s[k] != x);
    }
    if i < k {
        assert(s[i] != x);
    }
}

/// The custom tabs without those with this id.
pub open spec fn without_tab(tabs: Seq<CustomTabV>, id: Seq<char>) -> Seq<CustomTabV>
    decreases tabs.len(),
{
    if tabs.len() == 0 {
        tabs
    } else {
        let a = without_tab(tabs.drop_last(), id);
        if tabs.last().id == id {
            a
        } else {
            a.push(tabs.last())
        }
    }
}

/// What deleting custom tab `id` writes: the other custom tabs; the cleaned-up tab order
/// without the tab; and the tab selected afterwards: the one before it in that order (the
/// one after it when it came first) if it was selected, else the selected tab. Nothing when
/// the tab is not a custom tab, or it is selected and there is no other tab.
pub open spec fn spec_delete_plan(s: AppStoreDataV, id: Seq<char>) -> Option<
    (Seq<CustomTabV>, Seq<Seq<char>>, Seq<char>),
> {
    let order = spec_normalize_tab_order(s.tab_order, s.custom_tabs);
    let i = first_index(order, id);
    if !has_custom_tab(s, id) || !order.contains(id) {
        None
    } else if s.selected_key_type == id && i == 0 && order.len() < 2 {
        None
    } else {
        let next = if s.selected_key_type == id {
            if i > 0 {
                order[i - 1]
            } else {
                order[1]
            }
        } else {
            s.selected_key_type
        };
        Some((without_tab(s.custom_tabs, id), order.remove(i), next))
    }
}

pub(crate) fn position_of(v: &Vec<String>, x: &str) -> (r: Option<usize>)
    ensures
        r is None <==> !v.deep_view().contains(x@),
        r matches Some(i) ==> is_first_index(v.deep_view(), x@, i as int),
{
    let mut i: usize = 0;
    while i < v.len()
        invariant
            i <= v.len(),
            forall|j: int| 0 <= j < i ==> v.deep_view()[j] != x@,
        decreases v.len() - i,
    {
        if str_eq(v[i].as_str(), x) {
            assert(v.deep_view()[i as int] == x@);
            return Some(i);
        }
        i += 1;
    }
    None
}

fn tabs_without(tabs: &Vec<CustomTab>, id: &str) -> (r: Vec<CustomTab>)
    ensures
        r.deep_view() == without_tab(tabs.deep_view(), id@),
{
    let mut out: Vec<CustomTab> = Vec::new();
    let mut i: usize = 0;
    while i < tabs.len()
        invariant
            i <= tabs.len(),
            out.deep_view() == without_tab(tabs.deep_view().take(i as int), id@),
        decreases tabs.len() - i,
    {
        let ghost pre = tabs.deep_view().take(i + 1);
        assert(pre.drop_last() =~= tabs.deep_view().take(i as int));
        assert(pre.last() == tabs.deep_view()[i as int]);
        if !str_eq(tabs[i].id.as_str(), id) {
            let ghost before = out.deep_view();
            let t = tabs[i].dup();
            out.push(t);
            assert(out.deep_view() =~= before.push(tabs.deep_view()[i as int]));
        }
        i += 1;
    }
    assert(tabs.deep_view().take(tabs.len() as int) =~= tabs.deep_view());
    out
}

/// Plans the deletion of a custom tab; nothing when it cannot be deleted.
pub fn plan_custom_tab_delete(store: &AppStoreData, id: &str) -> (r: Option<CustomTabDeletePlan>)
    ensures
        match r {
            Some(p) => spec_delete_plan(store.deep_view(), id@) == Some(
                (p.custom_tabs.deep_view(), p.tab_order.deep_view(), p.next_selected@),
            ),
            None => spec_delete_plan(store.deep_view(), id@) is None,
        },
{
    if !is_custom_tab(&store.custom_tabs, id) {
        return None;
    }
    let mut tab_order = normalize_tab_order(&store.tab_order, &store.custom_tabs);
    let ghost order = tab_order.deep_view();
    let index = match position_of(&tab_order, id) {
        Some(i) => i,
        None => {
            return None;
        },
    };
    proof {
        lemma_first_index_unique(order, id@, index as int);
    }
    let next_selected = if str_eq(store.selected_key_type.as_str(), id) {
        if index > 0 {
            tab_order[index - 1].clone()
        } else if tab_order.len() > 1 {
            tab_order[1].clone()
        } else {
            return None;
        }
    } else {
        store.selected_key_type.clone()
    };
    tab_order.remove(index);
    proof {
        assert(tab_order.deep_view() =~= order.remove(index as int));
    }
    let custom_tabs = tabs_without(&store.custom_tabs, id);
    Some(CustomTabDeletePlan { custom_tabs, tab_order, next_selected })
}

/// The document after deleting custom tab `id` with the given plan: the plan's custom
/// tabs, tab order and selection, a tab-bar size that fits the new order, and no layout,
/// group, override or counter of the tab.
pub open spec fn delete_view(
    s: AppStoreDataV,
    id: Seq<char>,
    tabs: Seq<CustomTabV>,
    order: Seq<Seq<char>>,
    next: Seq<char>,
) -> AppStoreDataV {
    AppStoreDataV {
        custom_tabs: tabs,
        tab_order: order,
        bar_count: spec_normalize_bar_count(s.bar_count, order.len()),
        keys: s.keys.remove(id),
        key_positions: s.key_positions.remove(id),
        stat_positions: s.stat_positions.remove(id),
        graph_positions: s.graph_positions.remove(id),
        knob_positions: s.knob_positions.remove(id),
        sprite_positions: s.sprite_positions.remove(id),
        layer_groups: s.layer_groups.remove(id),
        tab_css_overrides: s.tab_css_overrides.remove(id),
        tab_note_overrides: s.tab_note_overrides.remove(id),
        key_counters: s.key_counters.remove(id),
        selected_key_type: next,
        ..s
    }
}

/// Deletes custom tab `id` from the document as planned.
pub fn delete_custom_tab_data(store: &mut AppStoreData, id: &str, plan: &CustomTabDeletePlan)
    ensures
        final(store).deep_view() == delete_view(
            old(store).deep_view(),
            id@,
            plan.custom_tabs.deep_view(),
            plan.tab_order.deep_view(),
            plan.next_selected@,
        ),
{
    store.custom_tabs = plan.custom_tabs.dup();
    store.tab_order = plan.tab_order.dup();
    store.bar_count = normalize_bar_count(store.bar_count, &store.tab_order);
    store.keys.remove(id);
    store.key_positions.remove(id);
    store.stat_positions.remove(id);
    store.graph_positions.remove(id);
    store.knob_positions.remove(id);
    store.sprite_positions.remove(id);
    store.layer_groups.remove(id);
    store.tab_css_overrides.remove(id);
    store.tab_note_overrides.remove(id);
    store.key_counters.remove(id);
    store.selected_key_type = plan.next_selected.clone();
}

proof fn lemma_without_tab_ids(tabs: Seq<CustomTabV>, id: Seq<char>)
    ensures
        forall|x: Seq<char>| #[trigger] custom_ids(without_tab(tabs, id)).contains(x) <==> (custom_ids(tabs).contains(x)
            && x != id),
    decreases tabs.len(),
{
    if tabs.len() > 0 {
        let rest = tabs.drop_last();
        lemma_without_tab_ids(rest, id);
        let a = without_tab(rest, id);
        let l = tabs.last();
        assert forall|x: Seq<char>| custom_ids(tabs).contains(x) <==> (custom_ids(rest).contains(x) || x == l.id) by {
            if custom_ids(tabs).contains(x) {
                let i = choose|i: int| 0 <= i < custom_ids(tabs).len() && custom_ids(tabs)[i] == x;
                if i < tabs.len() - 1 {
                    assert(custom_ids(rest)[i] == x);
                }
            }
            if custom_ids(rest).contains(x) {
                let i = choose|i: int| 0 <= i < custom_ids(rest).len() && custom_ids(rest)[i] == x;
                assert(custom_ids(tabs)[i] == x);
            }
            if x == l.id {
                assert(custom_ids(tabs)[tabs.len() - 1] == x);
            }
        }
        assert(without_tab(tabs, id) == (if l.id == id { a } else { a.push(l) }));
        if l.id != id {
            assert(custom_ids(a.push(l)) =~= custom_ids(a).push(l.id));
            assert forall|x: Seq<char>| custom_ids(a).push(l.id).contains(x) <==> (custom_ids(a).contains(x) || x == l.id) by {
                let c = custom_ids(a);
                if c.push(l.id).contains(x) {
                    let i = choose|i: int| 0 <= i < c.push(l.id).len() && c.push(l.id)[i] == x;
                    if i < c.len() {
                        assert(c[i] == x);
                    }
                }
                if c.contains(x) {
                    let i = choose|i: int| 0 <= i < c.len() && c[i] == x;
                    assert(c.push(l.id)[i] == x);
                }
                if x == l.id {
                    assert(c.push(l.id)[c.len() as int] == x);
                }
            }
        }
        assert forall|x: Seq<char>| #[trigger] custom_ids(without_tab(tabs, id)).contains(x) <==> (
            custom_ids(tabs).contains(x) && x != id) by {
            assert(custom_ids(a).contains(x) <==> (custom_ids(rest).contains(x) && x != id));
            if l.id != id {
                assert(custom_ids(a.push(l)).contains(x) <==> (custom_ids(a).contains(x) || x == l.id));
            }
        }
    }
}


proof fn lemma_first_exists(s: Seq<Seq<char>>, x: Seq<char>, w: int)
    requires
        0 <= w < s.len(),
        s[w] == x,
    ensures
        exists|k: int| is_first_index(s, x, k),
    decreases w,
{
    if exists|j: int| 0 <= j < w && s[j] == x {
        let j = choose|j: int| 0 <= j < w && s[j] == x;
        lemma_first_exists(s, x, j);
    } else {
        assert(is_first_index(s, x, w));
    }
}

/// Deleting a custom tab as planned leaves no trace of it: it is no custom tab, no entry
/// of the tab order and not selected, and no layout, group, override or counter remains
/// for it. The tab order still names every other existing tab exactly once.
pub proof fn lemma_deleted_custom_tab_leaves_no_trace(s: AppStoreDataV, id: Seq<char>)
    requires
        spec_delete_plan(s, id) is Some,
    ensures
        ({
            let p = spec_delete_plan(s, id)->0;
            let d = delete_view(s, id, p.0, p.1, p.2);
            &&& !has_custom_tab(d, id)
            &&& !d.tab_order.contains(id)
            &&& d.selected_key_type != id
            &&& d.tab_order.no_duplicates()
            &&& forall|x: Seq<char>| x != id ==> (#[trigger] d.tab_order.contains(x) <==> known_tab(x, d.custom_tabs))
            &&& !d.keys.contains_key(id) && !d.key_positions.contains_key(id)
            &&& !d.stat_positions.contains_key(id) && !d.graph_positions.contains_key(id)
            &&& !d.knob_positions.contains_key(id) && !d.sprite_positions.contains_key(id)
            &&& !d.layer_groups.contains_key(id) && !d.tab_css_overrides.contains_key(id)
            &&& !d.tab_note_overrides.contains_key(id) && !d.key_counters.contains_key(id)
        }),
{
    let order = spec_normalize_tab_order(s.tab_order, s.custom_tabs);
    lemma_normalized_tab_order(s.tab_order, s.custom_tabs);
    let i = first_index(order, id);
    assert(order.contains(id));
    let w = choose|w: int| 0 <= w < order.len() && order[w] == id;
    lemma_first_exists(order, id, w);
    assert(is_first_index(order, id, i));
    let p = spec_delete_plan(s, id)->0;
    let rest = order.remove(i);
    assert(p.1 == rest);
    assert forall|a: int| 0 <= a < rest.len() implies rest[a] != id by {
        if a < i {
            assert(rest[a] == order[a]);
        } else {
            assert(rest[a] == order[a + 1]);
        }
    }
    assert forall|a: int, b: int| 0 <= a < rest.len() && 0 <= b < rest.len() && a != b implies rest[a] != rest[b] by {
        let a2 = if a < i { a } else { a + 1 };
        let b2 = if b < i { b } else { b + 1 };
        assert(rest[a] == order[a2]);
        assert(rest[b] == order[b2]);
    }
    assert forall|x: Seq<char>| x != id implies (#[trigger] rest.contains(x) <==> order.contains(x)) by {
        if rest.contains(x) {
            let a = choose|a: int| 0 <= a < rest.len() && rest[a] == x;
            if a < i {
                assert(order[a] == x);
            } else {
                assert(order[a + 1] == x);
            }
        }
        if order.contains(x) {
            let a = choose|a: int| 0 <= a < order.len() && order[a] == x;
            assert(a != i);
            if a < i {
                assert(rest[a] == x);
            } else {
                assert(rest[a - 1] == x);
            }
        }
    }
    lemma_without_tab_ids(s.custom_tabs, id);
    if s.selected_key_type == id {
        if i > 0 {
            assert(order[i - 1] != id);
        } else {
            assert(order[1] != order[0]);
        }
    }
}

proof fn lemma_sans_ids_rekeyed<E: HasLook>(old: Seq<E::V>, new: Seq<E::V>)
    requires
        list_rekeyed::<E>(true, old, new),
    ensures
        sans_ids::<E>(new) == sans_ids::<E>(old),
{
    assert forall|i: int| 0 <= i < old.len() implies #[trigger] sans_ids::<E>(new)[i] == sans_ids::<E>(old)[i] by {
        let o = old[i];
        let lo = E::look_of(o);
        let id = E::look_of(new[i]).id;
        let mid = KeyPositionV { id, ..lo };
        E::lemma_with_look(o, mid);
        let blank = KeyPositionV { id: Seq::empty(), ..lo };
        E::lemma_with_look(o, blank);
        assert(KeyPositionV { id: Seq::empty(), ..mid } == blank);
    }
    assert(sans_ids::<E>(new) =~= sans_ids::<E>(old));
}

proof fn lemma_tab_rekeyed_same<E: HasLook>(
    mode: Seq<char>,
    old: Map<Seq<char>, Seq<E::V>>,
    new: Map<Seq<char>, Seq<E::V>>,
)
    requires
        tab_rekeyed::<E>(mode, true, old, new),
    ensures
        opt_sans_ids::<E>(entry(new, mode)) == opt_sans_ids::<E>(entry(old, mode)),
        sans_ids::<E>(or_empty(entry(new, mode))) == sans_ids::<E>(or_empty(entry(old, mode))),
{
    if old.contains_key(mode) {
        lemma_sans_ids_rekeyed::<E>(old[mode], new[mode]);
    }
}

/// Resetting a tab a second time finds nothing to change: the tab after one reset (its
/// elements with new ids) and its reset again agree in everything a reset compares. With
/// no plugin element on the tab, the second reset therefore reports no change.
pub proof fn lemma_reset_twice_changes_nothing(s0: AppStoreDataV, s1: AppStoreDataV, mode: Seq<char>, kind: ModeResetKind)
    requires
        tab_store_rekeyed(reset_mode_view(s0, mode, kind), s1, mode, true, true, true, true, true),
    ensures
        spec_reset_semantics_equal(s1, reset_mode_view(s1, mode, kind), mode),
{
    let v = reset_mode_view(s0, mode, kind);
    let c = reset_mode_view(s1, mode, kind);
    lemma_tab_rekeyed_same::<KeyPosition>(mode, v.key_positions, s1.key_positions);
    lemma_tab_rekeyed_same::<StatPosition>(mode, v.stat_positions, s1.stat_positions);
    lemma_tab_rekeyed_same::<GraphPosition>(mode, v.graph_positions, s1.graph_positions);
    lemma_tab_rekeyed_same::<KnobPosition>(mode, v.knob_positions, s1.knob_positions);
    assert(s1.keys == v.keys);
    assert(entry(c.keys, mode) == entry(s1.keys, mode));
    if kind == ModeResetKind::Default && !spec_default_keys().contains_key(mode) {
        assert(c.key_positions == s1.key_positions);
        assert(c.stat_positions == s1.stat_positions);
    } else {
        assert(entry(c.key_positions, mode) == entry(v.key_positions, mode));
        assert(entry(c.stat_positions, mode) == entry(v.stat_positions, mode));
    }
    assert(c.graph_positions[mode] == Seq::<crate::model::GraphPositionV>::empty());
    assert(v.graph_positions[mode] == Seq::<crate::model::GraphPositionV>::empty());
    assert(c.knob_positions[mode] == Seq::<crate::model::KnobPositionV>::empty());
    assert(v.knob_positions[mode] == Seq::<crate::model::KnobPositionV>::empty());
    assert(s1.sprite_positions[mode].len() == 0);
    assert(s1.sprite_positions[mode] =~= Seq::<ReactiveSpritePositionV>::empty());
    assert(c.sprite_positions[mode] =~= Seq::<ReactiveSpritePositionV>::empty());
    assert(entry(c.key_counters, mode) == entry(s1.key_counters, mode));
}


/// Resetting a tab zeroes its counters: when some counter of the tab is not 0 the reset
/// reports a change, and whenever a reset reports a change every counter of the tab is 0.
pub proof fn lemma_reset_zeroes_counters(
    old: AppStoreDataV,
    new: AppStoreDataV,
    mode: Seq<char>,
    kind: ModeResetKind,
    instance_tabs: Seq<Seq<char>>,
    r: bool,
)
    requires
        r == !(spec_reset_semantics_equal(old, reset_mode_view(old, mode, kind), mode)
            && !instance_tabs.contains(mode)),
        !r ==> new == old,
        r ==> tab_store_rekeyed(reset_mode_view(old, mode, kind), new, mode, true, true, true, true, true),
    ensures
        (old.key_counters.contains_key(mode) && exists|l: Seq<char>|
            #[trigger] old.key_counters[mode].contains_key(l) && old.key_counters[mode][l] != 0) ==> r,
        r ==> new.key_counters.contains_key(mode) && forall|l: Seq<char>|
            #[trigger] new.key_counters[mode].contains_key(l) ==> new.key_counters[mode][l] == 0,
{
    let d = reset_mode_view(old, mode, kind);
    if old.key_counters.contains_key(mode) && exists|l: Seq<char>|
        #[trigger] old.key_counters[mode].contains_key(l) && old.key_counters[mode][l] != 0 {
        let l = choose|l: Seq<char>|
            #[trigger] old.key_counters[mode].contains_key(l) && old.key_counters[mode][l] != 0;
        if entry(old.key_counters, mode) == entry(d.key_counters, mode) {
            assert(old.key_counters[mode] == d.key_counters[mode]);
            assert(d.key_counters[mode][l] == 0);
        }
    }
}

/// Deleting the selected custom tab selects the tab just before it in the cleaned-up tab
/// order (the one after it when it comes first), and the tab selected afterwards is always
/// in the new order.
pub proof fn lemma_delete_selects_neighbour(s: AppStoreDataV, id: Seq<char>, j: int)
    requires
        spec_delete_plan(s, id) is Some,
        0 <= j < spec_normalize_tab_order(s.tab_order, s.custom_tabs).len(),
        spec_normalize_tab_order(s.tab_order, s.custom_tabs)[j] == id,
        forall|k: int| 0 <= k < j ==> spec_normalize_tab_order(s.tab_order, s.custom_tabs)[k] != id,
    ensures
        ({
            let order = spec_normalize_tab_order(s.tab_order, s.custom_tabs);
            let (tabs, new_order, next) = spec_delete_plan(s, id)->0;
            &&& new_order == order.remove(j)
            &&& s.selected_key_type == id && j > 0 ==> next == order[j - 1]
            &&& s.selected_key_type == id && j == 0 ==> next == order[1]
            &&& s.selected_key_type != id ==> next == s.selected_key_type
            &&& s.selected_key_type == id ==> new_order.contains(next)
            &&& forall|i: int| 0 <= i < tabs.len() ==> #[trigger] tabs[i].id != id
            &&& forall|i: int| 0 <= i < s.custom_tabs.len() && #[trigger] s.custom_tabs[i].id != id ==> tabs.contains(
                s.custom_tabs[i],
            )
        }),
{
    lemma_without_tab(s.custom_tabs, id);
    let order = spec_normalize_tab_order(s.tab_order, s.custom_tabs);
    lemma_first_index_unique(order, id, j);
    if s.selected_key_type == id {
        if j > 0 {
            assert(order.remove(j)[j - 1] == order[j - 1]);
        } else {
            assert(order.remove(j)[0] == order[1]);
        }
    }
}

/// What a tab reset that reports a change leaves: the tab's key bindings are the built-in
/// ones (a built-in tab reset to its defaults) or none (a custom tab); its counters are
/// exactly one 0 per label of those bindings; its groups, note settings and style sheet are
/// gone; and every other tab's bindings and counters are as they were.
pub proof fn lemma_reset_writes_tab(
    old: AppStoreDataV,
    new: AppStoreDataV,
    mode: Seq<char>,
    kind: ModeResetKind,
)
    requires
        tab_store_rekeyed(reset_mode_view(old, mode, kind), new, mode, true, true, true, true, true),
    ensures
        kind == ModeResetKind::Custom ==> new.keys.contains_key(mode) && new.keys[mode].len() == 0,
        kind == ModeResetKind::Default && spec_default_keys().contains_key(mode) ==> new.keys.contains_key(mode)
            && new.keys[mode] == spec_default_keys()[mode],
        new.key_counters.contains_key(mode),
        forall|l: Seq<char>| #[trigger] new.key_counters[mode].contains_key(l) <==> (new.keys.contains_key(mode)
            && exists|i: int| 0 <= i < new.keys[mode].len() && new.keys[mode][i].label == l),
        forall|l: Seq<char>| #[trigger] new.key_counters[mode].contains_key(l) ==> new.key_counters[mode][l] == 0,
        !new.layer_groups.contains_key(mode),
        !new.tab_note_overrides.contains_key(mode),
        !new.tab_css_overrides.contains_key(mode),
        forall|k: Seq<char>| k != mode ==> #[trigger] new.keys.contains_key(k) == old.keys.contains_key(k),
        forall|k: Seq<char>| k != mode && old.keys.contains_key(k) ==> #[trigger] new.keys[k] == old.keys[k],
        forall|k: Seq<char>| k != mode ==> #[trigger] new.key_counters.contains_key(k) == old.key_counters.contains_key(k),
        forall|k: Seq<char>| k != mode && old.key_counters.contains_key(k) ==> #[trigger] new.key_counters[k]
            == old.key_counters[k],
{
    let v = reset_mode_view(old, mode, kind);
    assert(new.keys == v.keys);
    assert(new.key_counters == v.key_counters);
    let ks = or_empty(entry(v.keys, mode));
    assert forall|l: Seq<char>| #[trigger] new.key_counters[mode].contains_key(l) <==> (new.keys.contains_key(mode)
        && exists|i: int| 0 <= i < new.keys[mode].len() && new.keys[mode][i].label == l) by {
        assert(new.key_counters[mode] == zero_counts(ks));
        if new.keys.contains_key(mode) {
            assert(ks == new.keys[mode]);
        } else {
            assert(ks == Seq::<KeySlotV>::empty());
        }
    }
}

/// Deleting a custom tab keeps every other custom tab and drops every tab with its id.
pub proof fn lemma_without_tab(tabs: Seq<CustomTabV>, id: Seq<char>)
    ensures
        forall|i: int| 0 <= i < without_tab(tabs, id).len() ==> #[trigger] without_tab(tabs, id)[i].id != id,
        forall|i: int| 0 <= i < tabs.len() && #[trigger] tabs[i].id != id ==> without_tab(tabs, id).contains(tabs[i]),
        without_tab(tabs, id).len() <= tabs.len(),
    decreases tabs.len(),
{
    if tabs.len() > 0 {
        let rest = tabs.drop_last();
        lemma_without_tab(rest, id);
        let a = without_tab(rest, id);
        assert forall|i: int| 0 <= i < tabs.len() && #[trigger] tabs[i].id != id implies without_tab(
            tabs,
            id,
        ).contains(tabs[i]) by {
            if i < tabs.len() - 1 {
                assert(rest[i] == tabs[i]);
                let k = choose|k: int| 0 <= k < a.len() && a[k] == rest[i];
                if tabs.last().id != id {
                    assert(a.push(tabs.last())[k] == tabs[i]);
                }
            } else {
                assert(a.push(tabs.last())[a.len() as int] == tabs[i]);
            }
        }
    }
}

} // verus!
