//! The web session's tab commands, their arguments read: selecting, reordering, deleting
//! and resetting tabs, and resetting key counters. Each command changes the document as
//! [`tab_command_done`] states and answers with a [`TabOutcome`]. After a reset, the host
//! turns the document's inline images into assets with
//! [`crate::web_preset::restore_inline_store_images`].
use crate::model::{AppStoreData, AppStoreDataV, StatPosition, StatPositionV};
use crate::preset_export::{is_builtin_tab, BUILTIN_TAB_IDS};
use crate::plugin_storage::{clear_storage, cleared_keys, instance_plugins_of, instances_removed, PluginOutcome};
use crate::preset_import::{store_rekeyed, tab_store_rekeyed};
use crate::strmap::{Dup, StrMap};
use crate::tab_data::{
    delete_custom_tab_data, delete_view, first_index, is_first_index, lemma_first_index_unique,
    plan_custom_tab_delete, position_of, reset_all_editor_data, reset_all_view, reset_mode_data,
    reset_mode_kind, reset_mode_view, spec_default_stat_positions,
    select_mode_if_available, spec_delete_plan, spec_is_selectable_mode, spec_reset_mode_kind,
    spec_reset_semantics_equal,
};
use crate::tab_meta::{
    builtin_ids, default_keys, default_positions, known_tab, lemma_bar_count_in_range,
    lemma_clean_order_fixed, lemma_normalized_tab_order, normalize_bar_count, normalize_tab_order,
    spec_default_keys, spec_default_positions, spec_normalize_bar_count, spec_normalize_tab_order,
};
use crate::text::{chars_of, string_of};
use vstd::prelude::*;

verus! {

/// A tab command of the web session.
pub enum TabCommand {
    /// Select a tab by its mode name.
    SetMode { mode: String },
    /// Select a tab by its id.
    SelectTab { id: String },
    /// Swap two tabs in the tab order.
    SwapTabs { a: String, b: String },
    /// Delete a custom tab and everything on it.
    DeleteTab { id: String },
    /// Reset a tab to its default (built-in) or empty (custom) layout.
    ResetMode { mode: String },
    /// Reset every tab to the default layouts; the global settings are the host's to reset.
    ResetAll,
    /// Set every key counter to zero.
    ResetCounters,
    /// Set the key counters of one tab to zero.
    ResetModeCounters { mode: String },
    /// Set one key counter of one tab to zero.
    ResetSingleCounter { mode: String, key: String },
}

/// What a tab command answers.
pub enum TabOutcome {
    /// Whether the tab could be selected, and the tab selected afterwards.
    Selected { success: bool, selected: String },
    /// Whether both tabs were in the tab order.
    Swapped { found: bool },
    /// Whether the tab was deleted, and the tab selected afterwards.
    Deleted { success: bool, selected: String },
    /// Whether the tab is known, and whether the reset changed the document.
    ModeReset { success: bool, changed: bool },
    /// The counters were reset.
    CountersReset,
    /// Every tab was reset, the global sheet switched off and emptied, and every plugin's
    /// placed instances removed; the plugins whose instances went are named.
    AllReset { instance_plugins: Vec<String> },
}

/// Every count of a tab at zero, the keys kept.
pub open spec fn all_zero(m: Map<Seq<char>, u32>) -> Map<Seq<char>, u32> {
    Map::new(|k: Seq<char>| m.contains_key(k), |k: Seq<char>| 0u32)
}

/// Every count of every tab at zero.
pub open spec fn counters_zeroed(c: Map<Seq<char>, Map<Seq<char>, u32>>) -> Map<
    Seq<char>,
    Map<Seq<char>, u32>,
> {
    Map::new(|k: Seq<char>| c.contains_key(k), |k: Seq<char>| all_zero(c[k]))
}

/// The counts of one tab at zero, where the tab has counters.
pub open spec fn mode_counters_zeroed(c: Map<Seq<char>, Map<Seq<char>, u32>>, mode: Seq<char>) -> Map<
    Seq<char>,
    Map<Seq<char>, u32>,
> {
    if c.contains_key(mode) {
        c.insert(mode, all_zero(c[mode]))
    } else {
        c
    }
}

/// One count of one tab at zero, where it exists.
pub open spec fn single_counter_zeroed(
    c: Map<Seq<char>, Map<Seq<char>, u32>>,
    mode: Seq<char>,
    key: Seq<char>,
) -> Map<Seq<char>, Map<Seq<char>, u32>> {
    if c.contains_key(mode) && c[mode].contains_key(key) {
        c.insert(mode, c[mode].insert(key, 0u32))
    } else {
        c
    }
}

/// A tab order with the first places of `a` and `b` swapped, when both are in it.
pub open spec fn swapped_order(order: Seq<Seq<char>>, a: Seq<char>, b: Seq<char>) -> Seq<Seq<char>> {
    if order.contains(a) && order.contains(b) {
        order.update(first_index(order, a), b).update(first_index(order, b), a)
    } else {
        order
    }
}

/// The document after a swap of two tabs: the cleaned-up tab order with the two swapped
/// (unchanged when one is missing), and a tab-bar size that fits it.
pub open spec fn swap_view(s: AppStoreDataV, a: Seq<char>, b: Seq<char>) -> AppStoreDataV {
    let order = swapped_order(spec_normalize_tab_order(s.tab_order, s.custom_tabs), a, b);
    AppStoreDataV { tab_order: order, bar_count: spec_normalize_bar_count(s.bar_count, order.len()), ..s }
}

/// Swapping two places of an order without repeated entries keeps it free of repeats and
/// keeps what it contains.
proof fn lemma_swapped_order(o: Seq<Seq<char>>, a: Seq<char>, b: Seq<char>)
    requires
        o.no_duplicates(),
    ensures
        swapped_order(o, a, b).no_duplicates(),
        swapped_order(o, a, b).len() == o.len(),
        forall|x: Seq<char>| #[trigger] swapped_order(o, a, b).contains(x) <==> o.contains(x),
        o.contains(a) && o.contains(b) ==> swapped_order(o, a, b)[first_index(o, a)] == b
            && swapped_order(o, a, b)[first_index(o, b)] == a,
{
    if o.contains(a) && o.contains(b) {
        let ia = choose|i: int| 0 <= i < o.len() && o[i] == a;
        let ib = choose|i: int| 0 <= i < o.len() && o[i] == b;
        assert(is_first_index(o, a, ia));
        assert(is_first_index(o, b, ib));
        lemma_first_index_unique(o, a, ia);
        lemma_first_index_unique(o, b, ib);
        let w = swapped_order(o, a, b);
        assert(w == o.update(ia, b).update(ib, a));
        assert forall|i: int, j: int| 0 <= i < w.len() && 0 <= j < w.len() && i != j implies w[i] != w[j] by {
            if i == ia || i == ib || j == ia || j == ib {
                if i != ia && i != ib {
                    assert(o[i] != a && o[i] != b);
                }
                if j != ia && j != ib {
                    assert(o[j] != a && o[j] != b);
                }
            } else {
                assert(w[i] == o[i] && w[j] == o[j]);
            }
        }
        assert forall|x: Seq<char>| #[trigger] w.contains(x) <==> o.contains(x) by {
            if w.contains(x) {
                let i = choose|i: int| 0 <= i < w.len() && w[i] == x;
                if i == ib {
                    assert(o[ia] == x);
                } else if i == ia {
                    assert(o[ib] == x);
                } else {
                    assert(o[i] == x);
                }
            }
            if o.contains(x) {
                let i = choose|i: int| 0 <= i < o.len() && o[i] == x;
                if i == ia {
                    assert(w[ib] == x);
                } else if i == ib {
                    assert(w[ia] == x);
                } else {
                    assert(w[i] == x);
                }
            }
        }
    }
}

/// Swapping the same two tabs twice leaves the cleaned-up tab order and a tab-bar size
/// that fits it, whatever the two tabs are.
pub proof fn lemma_swap_twice(s: AppStoreDataV, a: Seq<char>, b: Seq<char>)
    ensures
        swap_view(swap_view(s, a, b), a, b) == ({
            let o = spec_normalize_tab_order(s.tab_order, s.custom_tabs);
            AppStoreDataV { tab_order: o, bar_count: spec_normalize_bar_count(s.bar_count, o.len()), ..s }
        }),
{
    let o = spec_normalize_tab_order(s.tab_order, s.custom_tabs);
    lemma_normalized_tab_order(s.tab_order, s.custom_tabs);
    lemma_swapped_order(o, a, b);
    let o1 = swapped_order(o, a, b);
    assert forall|x: Seq<char>| #[trigger] o1.contains(x) <==> known_tab(x, s.custom_tabs) by {
        assert(o1.contains(x) <==> o.contains(x));
    }
    lemma_clean_order_fixed(o1, s.custom_tabs);
    let s1 = swap_view(s, a, b);
    assert(s1.tab_order == o1);
    lemma_swapped_order(o1, a, b);
    let o2 = swapped_order(o1, a, b);
    if o.contains(a) && o.contains(b) {
        let ia = choose|i: int| 0 <= i < o.len() && o[i] == a;
        let ib = choose|i: int| 0 <= i < o.len() && o[i] == b;
        assert(is_first_index(o, a, ia));
        assert(is_first_index(o, b, ib));
        lemma_first_index_unique(o, a, ia);
        lemma_first_index_unique(o, b, ib);
        assert(o1.contains(a) && o1.contains(b)) by {
            assert(o1.contains(a) <==> o.contains(a));
            assert(o1.contains(b) <==> o.contains(b));
        }
        assert(o1[ib] == a && o1[ia] == b);
        assert(is_first_index(o1, a, ib)) by {
            assert forall|j: int| 0 <= j < ib implies o1[j] != a by {
                if o1[j] == a {
                    assert(o1[ib] == a);
                }
            }
        }
        assert(is_first_index(o1, b, ia)) by {
            assert forall|j: int| 0 <= j < ia implies o1[j] != b by {
                if o1[j] == b {
                    assert(o1[ia] == b);
                }
            }
        }
        lemma_first_index_unique(o1, a, ib);
        lemma_first_index_unique(o1, b, ia);
        assert(o2 =~= o);
    } else {
        assert(o1 == o);
        assert(o2 == o);
    }
    lemma_bar_count_in_range(s.bar_count, o.len());
}

/// The document with a tab selected when it can be.
pub open spec fn selected_view(s: AppStoreDataV, mode: Seq<char>) -> AppStoreDataV {
    if spec_is_selectable_mode(s, mode) {
        AppStoreDataV { selected_key_type: mode, ..s }
    } else {
        s
    }
}

/// What a tab command does to the document `old`, giving `new` and answering `out`.
/// `instance_tabs` are the tabs that plugin elements stand on.
pub open spec fn tab_command_done(
    old: AppStoreDataV,
    c: TabCommand,
    instance_tabs: Seq<Seq<char>>,
    new: AppStoreDataV,
    out: TabOutcome,
) -> bool {
    match c {
        TabCommand::SetMode { mode } => {
            &&& new == selected_view(old, mode@)
            &&& out matches TabOutcome::Selected { success, selected } && success
                == spec_is_selectable_mode(old, mode@) && selected@ == new.selected_key_type
        },
        TabCommand::SelectTab { id } => {
            &&& new == selected_view(old, id@)
            &&& out matches TabOutcome::Selected { success, selected } && success
                == spec_is_selectable_mode(old, id@) && selected@ == new.selected_key_type
        },
        TabCommand::SwapTabs { a, b } => {
            let order = spec_normalize_tab_order(old.tab_order, old.custom_tabs);
            &&& new == swap_view(old, a@, b@)
            &&& out matches TabOutcome::Swapped { found } && found == (order.contains(a@)
                && order.contains(b@))
        },
        TabCommand::DeleteTab { id } => match spec_delete_plan(old, id@) {
            None => {
                &&& new == old
                &&& out matches TabOutcome::Deleted { success, selected } && !success && selected@
                    == old.selected_key_type
            },
            Some(plan) => {
                &&& new == delete_view(old, id@, plan.0, plan.1, plan.2)
                &&& out matches TabOutcome::Deleted { success, selected } && success && selected@
                    == plan.2
            },
        },
        TabCommand::ResetMode { mode } => match spec_reset_mode_kind(old, mode@) {
            None => {
                &&& new == old
                &&& out matches TabOutcome::ModeReset { success, changed } && !success && !changed
            },
            Some(kind) => {
                let reset = reset_mode_view(old, mode@, kind);
                &&& out matches TabOutcome::ModeReset { success, changed } && success && changed
                    == !(spec_reset_semantics_equal(old, reset, mode@) && !instance_tabs.contains(
                    mode@,
                ))
                &&& !tab_outcome_changed(out) ==> new == old
                &&& tab_outcome_changed(out) ==> tab_store_rekeyed(
                    reset,
                    new,
                    mode@,
                    true,
                    true,
                    true,
                    true,
                    true,
                )
            },
        },
        TabCommand::ResetAll => {
            &&& store_rekeyed(
                AppStoreDataV {
                    plugin_data: instances_removed(old.plugin_data),
                    use_custom_css: false,
                    custom_css: crate::css_commands::empty_custom_css(),
                    ..reset_all_view(old, spec_default_keys(), spec_default_positions(), spec_default_stat_positions())
                },
                new,
            )
            &&& out is AllReset
        },
        TabCommand::ResetCounters => {
            &&& new == (AppStoreDataV { key_counters: counters_zeroed(old.key_counters), ..old })
            &&& out is CountersReset
        },
        TabCommand::ResetModeCounters { mode } => {
            &&& new == (AppStoreDataV {
                key_counters: mode_counters_zeroed(old.key_counters, mode@),
                ..old
            })
            &&& out is CountersReset
        },
        TabCommand::ResetSingleCounter { mode, key } => {
            &&& new == (AppStoreDataV {
                key_counters: single_counter_zeroed(old.key_counters, mode@, key@),
                ..old
            })
            &&& out is CountersReset
        },
    }
}

/// Whether an answer says that a reset changed the document.
pub open spec fn tab_outcome_changed(out: TabOutcome) -> bool {
    out matches TabOutcome::ModeReset { changed, .. } && changed
}

/// The default statistic elements of the built-in tabs: none.
fn default_stat_positions() -> (r: StrMap<Vec<StatPosition>>)
    ensures
        r@ == spec_default_stat_positions(),
{
    let mut m: StrMap<Vec<StatPosition>> = StrMap::new();
    let mut i: usize = 0;
    while i < 4
        invariant
            i <= 4,
            m@ == Map::new(
                |k: Seq<char>| exists|j: int| 0 <= j < i && builtin_ids()[j] == k,
                |k: Seq<char>| Seq::<StatPositionV>::empty(),
            ),
        decreases 4 - i,
    {
        let id = string_of(&chars_of(BUILTIN_TAB_IDS[i]));
        let v: Vec<StatPosition> = Vec::new();
        proof {
            assert(v.deep_view() =~= Seq::<StatPositionV>::empty());
            assert(BUILTIN_TAB_IDS@[i as int]@ == builtin_ids()[i as int]);
        }
        m.insert(id, v);
        proof {
            assert(m@ =~= Map::new(
                |k: Seq<char>| exists|j: int| 0 <= j < i + 1 && builtin_ids()[j] == k,
                |k: Seq<char>| Seq::<StatPositionV>::empty(),
            ));
        }
        i += 1;
    }
    proof {
        assert forall|k: Seq<char>| (exists|j: int| 0 <= j < 4 && builtin_ids()[j] == k) <==> is_builtin_tab(k) by {
            if k == "4key"@ {
                assert(builtin_ids()[0] == k);
            }
            if k == "5key"@ {
                assert(builtin_ids()[1] == k);
            }
            if k == "6key"@ {
                assert(builtin_ids()[2] == k);
            }
            if k == "8key"@ {
                assert(builtin_ids()[3] == k);
            }
        }
        assert(m@ =~= spec_default_stat_positions());
    }
    m
}

/// Sets every count of a tab to zero.
fn zero_counts(m: &mut StrMap<u32>)
    ensures
        final(m)@ == all_zero(old(m)@),
{
    m.check_wf();
    let ghost m0 = *m;
    let n = m.len();
    let mut i: usize = 0;
    while i < n
        invariant
            n == m.spec_len(),
            n == m0.spec_len(),
            i <= n,
            m.wf(),
            m0.wf(),
            forall|j: int| 0 <= j < n ==> m.spec_key(j) == m0.spec_key(j),
            forall|j: int| 0 <= j < i ==> m.spec_value(j) == 0u32,
            forall|j: int| i <= j < n ==> m.spec_value(j) == m0.spec_value(j),
        decreases n - i,
    {
        let ghost before = *m;
        m.replace_at(i, 0u32);
        proof {
            assert forall|j: int| 0 <= j < i + 1 implies m.spec_value(j) == 0u32 by {
                if j < i {
                    assert(m.spec_value(j) == before.spec_value(j));
                }
            }
        }
        i += 1;
    }
    proof {
        assert forall|k: Seq<char>| #[trigger] m@.contains_key(k) <==> m0@.contains_key(k) by {
            if m@.contains_key(k) {
                let j = m.lemma_key(k);
                m0.lemma_index(j);
            }
            if m0@.contains_key(k) {
                let j = m0.lemma_key(k);
                m.lemma_index(j);
            }
        }
        assert forall|k: Seq<char>| #[trigger] m@.contains_key(k) implies m@[k] == 0u32 by {
            let j = m.lemma_key(k);
        }
        assert(m@ =~= all_zero(m0@));
    }
}

/// Sets every count of every tab to zero.
fn zero_all_counters(c: &mut StrMap<StrMap<u32>>)
    ensures
        final(c)@ == counters_zeroed(old(c)@),
{
    c.check_wf();
    let ghost c0 = *c;
    let n = c.len();
    let mut i: usize = 0;
    while i < n
        invariant
            n == c.spec_len(),
            n == c0.spec_len(),
            i <= n,
            c.wf(),
            c0.wf(),
            forall|j: int| 0 <= j < n ==> c.spec_key(j) == c0.spec_key(j),
            forall|j: int| 0 <= j < i ==> c.spec_value(j) == all_zero(c0.spec_value(j)),
            forall|j: int| i <= j < n ==> c.spec_value(j) == c0.spec_value(j),
        decreases n - i,
    {
        let ghost before = *c;
        let mut inner = c.value_at(i).copy();
        zero_counts(&mut inner);
        c.replace_at(i, inner);
        proof {
            assert forall|j: int| 0 <= j < i + 1 implies c.spec_value(j) == all_zero(c0.spec_value(j)) by {
                if j < i {
                    assert(c.spec_value(j) == before.spec_value(j));
                }
            }
        }
        i += 1;
    }
    proof {
        assert forall|k: Seq<char>| #[trigger] c@.contains_key(k) <==> c0@.contains_key(k) by {
            if c@.contains_key(k) {
                let j = c.lemma_key(k);
                c0.lemma_index(j);
            }
            if c0@.contains_key(k) {
                let j = c0.lemma_key(k);
                c.lemma_index(j);
            }
        }
        assert forall|k: Seq<char>| #[trigger] c@.contains_key(k) implies c@[k] == all_zero(c0@[k]) by {
            let j = c.lemma_key(k);
            c0.lemma_index(j);
        }
        assert(c@ =~= counters_zeroed(c0@));
    }
}

/// Sets the counts of one tab to zero, where the tab has counters.
fn zero_mode_counters(c: &mut StrMap<StrMap<u32>>, mode: &str)
    ensures
        final(c)@ == mode_counters_zeroed(old(c)@, mode@),
{
    c.check_wf();
    match c.find(mode) {
        None => {},
        Some(i) => {
            let mut inner = c.value_at(i).copy();
            zero_counts(&mut inner);
            proof {
                c.lemma_index(i as int);
            }
            c.replace_at(i, inner);
        },
    }
}

/// Sets one count of one tab to zero, where it exists.
fn zero_single_counter(c: &mut StrMap<StrMap<u32>>, mode: &str, key: &str)
    ensures
        final(c)@ == single_counter_zeroed(old(c)@, mode@, key@),
{
    c.check_wf();
    match c.find(mode) {
        None => {},
        Some(i) => {
            let mut inner = c.value_at(i).copy();
            inner.check_wf();
            proof {
                c.lemma_index(i as int);
            }
            match inner.find(key) {
                None => {},
                Some(j) => {
                    proof {
                        inner.lemma_index(j as int);
                    }
                    inner.replace_at(j, 0u32);
                    c.replace_at(i, inner);
                },
            }
        },
    }
}

/// Swaps two tabs in the cleaned-up tab order and fits the tab-bar size to it. Returns
/// whether both tabs were in the order.
fn swap_tabs(store: &mut AppStoreData, a: &str, b: &str) -> (found: bool)
    ensures
        final(store).deep_view() == swap_view(old(store).deep_view(), a@, b@),
        found == (spec_normalize_tab_order(old(store).deep_view().tab_order, old(store).deep_view().custom_tabs).contains(a@)
            && spec_normalize_tab_order(old(store).deep_view().tab_order, old(store).deep_view().custom_tabs).contains(b@)),
{
    let mut order = normalize_tab_order(&store.tab_order, &store.custom_tabs);
    let ghost o = order.deep_view();
    let found = match (position_of(&order, a), position_of(&order, b)) {
        (Some(ia), Some(ib)) => {
            proof {
                lemma_first_index_unique(o, a@, ia as int);
                lemma_first_index_unique(o, b@, ib as int);
            }
            let x = order[ia].dup();
            let y = order[ib].dup();
            order.set(ia, y);
            order.set(ib, x);
            proof {
                assert(order.deep_view() =~= o.update(ia as int, b@).update(ib as int, a@));
            }
            true
        },
        _ => false,
    };
    store.bar_count = normalize_bar_count(store.bar_count, &order);
    store.tab_order = order;
    found
}

/// Runs a tab command on the document and answers it, as [`tab_command_done`] states.
/// `instance_tabs` are the tabs that plugin elements stand on: resetting one of them always
/// counts as a change.
pub fn apply_tab_command(store: &mut AppStoreData, command: &TabCommand, instance_tabs: &Vec<String>) -> (r:
    TabOutcome)
    ensures
        tab_command_done(old(store).deep_view(), *command, instance_tabs.deep_view(), final(store).deep_view(), r),
        command is ResetAll ==> (r matches TabOutcome::AllReset { instance_plugins }
            && instance_plugins.deep_view() == instance_plugins_of(cleared_keys(*old(store), None, true))),
{
    match command {
        TabCommand::SetMode { mode } => {
            let (success, selected) = select_mode_if_available(store, mode.as_str());
            TabOutcome::Selected { success, selected }
        },
        TabCommand::SelectTab { id } => {
            let (success, selected) = select_mode_if_available(store, id.as_str());
            TabOutcome::Selected { success, selected }
        },
        TabCommand::SwapTabs { a, b } => {
            let found = swap_tabs(store, a.as_str(), b.as_str());
            TabOutcome::Swapped { found }
        },
        TabCommand::DeleteTab { id } => match plan_custom_tab_delete(store, id.as_str()) {
            None => TabOutcome::Deleted { success: false, selected: store.selected_key_type.clone() },
            Some(plan) => {
                delete_custom_tab_data(store, id.as_str(), &plan);
                TabOutcome::Deleted { success: true, selected: store.selected_key_type.clone() }
            },
        },
        TabCommand::ResetMode { mode } => match reset_mode_kind(store, mode.as_str()) {
            None => TabOutcome::ModeReset { success: false, changed: false },
            Some(kind) => {
                let changed = reset_mode_data(store, mode.as_str(), kind, instance_tabs);
                TabOutcome::ModeReset { success: true, changed }
            },
        },
        TabCommand::ResetAll => {
            store.plugin_data.check_wf();
            let ghost before = store.deep_view();
            proof {
                crate::plugin_storage::lemma_cleared_set(*store, None, true);
            }
            let cleared = clear_storage(store, None, true);
            assert(store.deep_view() == (AppStoreDataV {
                plugin_data: instances_removed(before.plugin_data),
                ..before
            })) by {
                assert(store.plugin_data@ =~= instances_removed(before.plugin_data));
            }
            let keys = default_keys();
            let positions = default_positions();
            let stats = default_stat_positions();
            reset_all_editor_data(store, &keys, &positions, &stats);
            store.use_custom_css = false;
            store.custom_css = crate::model::CustomCss { path: None, content: String::new() };
            match cleared {
                Ok(PluginOutcome::Cleared { instance_plugins, .. }) => TabOutcome::AllReset { instance_plugins },
                _ => TabOutcome::AllReset { instance_plugins: Vec::new() },
            }
        },
        TabCommand::ResetCounters => {
            zero_all_counters(&mut store.key_counters);
            TabOutcome::CountersReset
        },
        TabCommand::ResetModeCounters { mode } => {
            zero_mode_counters(&mut store.key_counters, mode.as_str());
            TabOutcome::CountersReset
        },
        TabCommand::ResetSingleCounter { mode, key } => {
            zero_single_counter(&mut store.key_counters, mode.as_str(), key.as_str());
            TabOutcome::CountersReset
        },
    }
}

} // verus!
