//! Counter animation presets and the element counters that follow them.
use crate::looks::HasLook;
use crate::model::{
    AppStoreData, AppStoreDataV, CounterAnimationPreset, CounterAnimationPresetV, CounterAnimationV,
    CounterStyle, CounterStyleV, GraphPosition, KeyPosition, KeyPositionV, StatPosition,
};
use crate::preset_plan::EditorCommitError;
use crate::strmap::{Dup, StrMap};
use crate::text::{chars_of, str_eq, trim, trim_chars};
use vstd::prelude::*;

verus! {

/// The preset an animation follows, as written (trimmed), or empty.
pub open spec fn bound_preset(a: CounterAnimationV) -> Seq<char> {
    match a.preset_id {
        Some(p) => trim(p),
        None => Seq::empty(),
    }
}

/// The animation of a counter bound to `preset_id`, after it takes the preset's values.
pub open spec fn counter_applied(c: CounterStyleV, preset_id: Seq<char>, p: CounterAnimationPresetV) -> CounterStyleV {
    if bound_preset(c.animation) == preset_id {
        CounterStyleV {
            animation: CounterAnimationV {
                preset_id: Some(p.id),
                duration_ms: p.duration_ms,
                scale_bits: p.scale_bits,
                bezier_bits: p.bezier_bits,
            },
            ..c
        }
    } else {
        c
    }
}

/// An element whose counter took the preset's values where it is bound to `preset_id`.
pub open spec fn element_applied<E: HasLook>(v: E::V, preset_id: Seq<char>, p: CounterAnimationPresetV) -> E::V {
    let l = E::look_of(v);
    E::with_look(v, KeyPositionV { counter: counter_applied(l.counter, preset_id, p), ..l })
}

/// Every element of every tab with its counter applied.
pub open spec fn collection_applied<E: HasLook>(
    m: Map<Seq<char>, Seq<E::V>>,
    preset_id: Seq<char>,
    p: CounterAnimationPresetV,
) -> Map<Seq<char>, Seq<E::V>> {
    Map::new(
        |k: Seq<char>| m.contains_key(k),
        |k: Seq<char>| m[k].map_values(|v: E::V| element_applied::<E>(v, preset_id, p)),
    )
}

/// How many elements of a list have a counter bound to `preset_id`.
pub open spec fn bound_in_list<E: HasLook>(s: Seq<E::V>, preset_id: Seq<char>) -> nat
    decreases s.len(),
{
    if s.len() == 0 {
        0
    } else {
        bound_in_list::<E>(s.drop_last(), preset_id) + if bound_preset(
            E::look_of(s.last()).counter.animation,
        ) == preset_id {
            1nat
        } else {
            0nat
        }
    }
}

/// How many elements of the first `n` tabs of a collection have a counter bound to
/// `preset_id`.
pub open spec fn bound_in_entries<E: HasLook>(m: StrMap<Vec<E>>, preset_id: Seq<char>, n: int) -> nat
    decreases n,
{
    if n <= 0 {
        0
    } else {
        bound_in_entries::<E>(m, preset_id, n - 1) + bound_in_list::<E>(m.spec_value(n - 1), preset_id)
    }
}

/// How many elements of a collection have a counter bound to `preset_id`.
pub open spec fn bound_total<E: HasLook>(m: StrMap<Vec<E>>, preset_id: Seq<char>) -> nat {
    bound_in_entries::<E>(m, preset_id, m.spec_len() as int)
}

proof fn lemma_list_prefix<E: HasLook>(s: Seq<E::V>, preset_id: Seq<char>, i: int)
    requires
        0 <= i <= s.len(),
    ensures
        bound_in_list::<E>(s.take(i), preset_id) <= bound_in_list::<E>(s, preset_id),
    decreases s.len(),
{
    if i < s.len() {
        lemma_list_prefix::<E>(s.drop_last(), preset_id, i);
        assert(s.drop_last().take(i) =~= s.take(i));
    } else {
        assert(s.take(i) =~= s);
    }
}

proof fn lemma_entries_prefix<E: HasLook>(m: StrMap<Vec<E>>, preset_id: Seq<char>, i: int, n: int)
    requires
        0 <= i <= n,
    ensures
        bound_in_entries::<E>(m, preset_id, i) <= bound_in_entries::<E>(m, preset_id, n),
    decreases n,
{
    if i < n {
        lemma_entries_prefix::<E>(m, preset_id, i, n - 1);
    }
}

/// Gives a counter the preset's values if it follows `preset_id`; returns whether it did.
fn update_counter_animation_if_bound(
    counter: &mut CounterStyle,
    preset_id: &str,
    preset: &CounterAnimationPreset,
) -> (r: bool)
    ensures
        r == (bound_preset(old(counter).deep_view().animation) == preset_id@),
        final(counter).deep_view() == counter_applied(old(counter).deep_view(), preset_id@, preset.deep_view()),
{
    let bound: Vec<char> = match &counter.animation.preset_id {
        Some(value) => trim_chars(&chars_of(value.as_str())),
        None => Vec::new(),
    };
    let pid = chars_of(preset_id);
    if !crate::text::seq_eq(&bound, &pid) {
        return false;
    }
    counter.animation.preset_id = Some(preset.id.clone());
    counter.animation.bezier_bits = preset.bezier_bits;
    counter.animation.scale_bits = preset.scale_bits;
    counter.animation.duration_ms = preset.duration_ms;
    true
}

fn apply_to_list<E: HasLook>(
    v: &mut Vec<E>,
    preset_id: &str,
    preset: &CounterAnimationPreset,
    base: u32,
) -> (n: u32)
    requires
        base + bound_in_list::<E>(old(v).deep_view(), preset_id@) <= u32::MAX,
    ensures
        n == base + bound_in_list::<E>(old(v).deep_view(), preset_id@),
        final(v).deep_view() == old(v).deep_view().map_values(
            |e: E::V| element_applied::<E>(e, preset_id@, preset.deep_view()),
        ),
{
    let ghost v0 = v.deep_view();
    let mut count = base;
    let mut i: usize = 0;
    while i < v.len()
        invariant
            i <= v.len(),
            v0.len() == v.len(),
            base + bound_in_list::<E>(v0, preset_id@) <= u32::MAX,
            count == base + bound_in_list::<E>(v0.take(i as int), preset_id@),
            forall|j: int| i <= j < v.len() ==> v.deep_view()[j] == v0[j],
            forall|j: int|
                0 <= j < i ==> #[trigger] v.deep_view()[j] == element_applied::<E>(
                    v0[j],
                    preset_id@,
                    preset.deep_view(),
                ),
        decreases v.len() - i,
    {
        proof {
            assert(v0.take(i + 1).drop_last() =~= v0.take(i as int));
            lemma_list_prefix::<E>(v0, preset_id@, i + 1);
        }
        let mut e = v[i].dup();
        let mut l = e.look().dup();
        if update_counter_animation_if_bound(&mut l.counter, preset_id, preset) {
            count = count + 1;
        }
        e.set_look(l);
        let ghost before = v.deep_view();
        v.set(i, e);
        proof {
            assert(v.deep_view() =~= before.update(i as int, e.deep_view()));
        }
        i += 1;
    }
    proof {
        assert(v0.take(v0.len() as int) =~= v0);
        assert(v.deep_view() =~= v0.map_values(
            |e: E::V| element_applied::<E>(e, preset_id@, preset.deep_view()),
        ));
    }
    count
}

fn apply_to_collection<E: HasLook>(
    m: &mut StrMap<Vec<E>>,
    preset_id: &str,
    preset: &CounterAnimationPreset,
    base: u32,
) -> (n: u32)
    requires
        base + bound_total::<E>(*old(m), preset_id@) <= u32::MAX,
    ensures
        n == base + bound_total::<E>(*old(m), preset_id@),
        final(m)@ == collection_applied::<E>(old(m)@, preset_id@, preset.deep_view()),
{
    m.check_wf();
    let ghost m0 = *m;
    let n = m.len();
    let mut count = base;
    let mut i: usize = 0;
    while i < n
        invariant
            n == m.spec_len(),
            n == m0.spec_len(),
            i <= n,
            m.wf(),
            m0.wf(),
            base + bound_total::<E>(m0, preset_id@) <= u32::MAX,
            count == base + bound_in_entries::<E>(m0, preset_id@, i as int),
            forall|j: int| 0 <= j < n ==> m.spec_key(j) == m0.spec_key(j),
            forall|j: int| i <= j < n ==> m.spec_value(j) == m0.spec_value(j),
            forall|j: int|
                0 <= j < i ==> #[trigger] m.spec_value(j) == m0.spec_value(j).map_values(
                    |e: E::V| element_applied::<E>(e, preset_id@, preset.deep_view()),
                ),
        decreases n - i,
    {
        proof {
            lemma_entries_prefix::<E>(m0, preset_id@, i + 1, n as int);
        }
        let mut v = m.replace_at(i, Vec::new());
        count = apply_to_list(&mut v, preset_id, preset, count);
        let _ = m.replace_at(i, v);
        i += 1;
    }
    proof {
        let target = collection_applied::<E>(m0@, preset_id@, preset.deep_view());
        assert forall|k: Seq<char>| #[trigger] m@.contains_key(k) <==> m0@.contains_key(k) by {
            if m0@.contains_key(k) {
                let j = m0.lemma_key(k);
                m.lemma_index(j);
            }
            if m@.contains_key(k) {
                let j = m.lemma_key(k);
                m0.lemma_index(j);
            }
        }
        assert forall|k: Seq<char>| #[trigger] m0@.contains_key(k) implies m@[k] == target[k] by {
            let j = m0.lemma_key(k);
            m.lemma_index(j);
        }
        assert(m@ =~= target);
    }
    count
}

/// The document after the counters bound to `preset_id` take the preset's values.
pub open spec fn presets_applied(s: AppStoreDataV, preset_id: Seq<char>, p: CounterAnimationPresetV) -> AppStoreDataV {
    AppStoreDataV {
        key_positions: collection_applied::<KeyPosition>(s.key_positions, preset_id, p),
        stat_positions: collection_applied::<StatPosition>(s.stat_positions, preset_id, p),
        graph_positions: collection_applied::<GraphPosition>(s.graph_positions, preset_id, p),
        ..s
    }
}

/// How many key, statistic and graph counters are bound to `preset_id`.
pub open spec fn bound_counters(store: AppStoreData, preset_id: Seq<char>) -> nat {
    bound_total::<KeyPosition>(store.key_positions, preset_id) + bound_total::<StatPosition>(
        store.stat_positions,
        preset_id,
    ) + bound_total::<GraphPosition>(store.graph_positions, preset_id)
}

/// Gives every key, statistic and graph counter that follows `preset_id` (after trimming)
/// the preset's id and values. Returns how many counters it changed.
pub fn apply_preset_to_bound_counters(
    store: &mut AppStoreData,
    preset_id: &str,
    preset: &CounterAnimationPreset,
) -> (r: u32)
    requires
        bound_counters(*old(store), preset_id@) <= u32::MAX,
    ensures
        r == bound_counters(*old(store), preset_id@),
        final(store).deep_view() == presets_applied(old(store).deep_view(), preset_id@, preset.deep_view()),
{
    let affected = apply_to_collection(&mut store.key_positions, preset_id, preset, 0);
    let affected = apply_to_collection(&mut store.stat_positions, preset_id, preset, affected);
    apply_to_collection(&mut store.graph_positions, preset_id, preset, affected)
}

/// Gives the counters that follow `preset_id` the fallback preset's id and values.
pub fn apply_fallback_to_bound_counters(
    store: &mut AppStoreData,
    preset_id: &str,
    fallback: &CounterAnimationPreset,
) -> (r: u32)
    requires
        bound_counters(*old(store), preset_id@) <= u32::MAX,
    ensures
        r == bound_counters(*old(store), preset_id@),
        final(store).deep_view() == presets_applied(old(store).deep_view(), preset_id@, fallback.deep_view()),
{
    apply_preset_to_bound_counters(store, preset_id, fallback)
}

/// Whether some preset of the list has this id.
pub open spec fn has_preset(presets: Seq<CounterAnimationPresetV>, id: Seq<char>) -> bool {
    exists|i: int| 0 <= i < presets.len() && presets[i].id == id
}

/// Where the first preset with this id is.
pub open spec fn first_preset(presets: Seq<CounterAnimationPresetV>, id: Seq<char>) -> int {
    choose|i: int| 0 <= i < presets.len() && presets[i].id == id && forall|j: int| 0 <= j < i ==> presets[j].id != id
}

/// Replaces the first preset with this id; refused when there is none.
pub fn replace_counter_animation_preset(
    store: &mut AppStoreData,
    preset_id: &str,
    replacement: &CounterAnimationPreset,
) -> (r: Result<(), EditorCommitError>)
    ensures
        r is Ok <==> has_preset(old(store).deep_view().counter_animation_presets, preset_id@),
        r is Err ==> r == Err::<(), EditorCommitError>(EditorCommitError::CounterAnimationPresetNotFound)
            && final(store).deep_view() == old(store).deep_view(),
        r is Ok ==> final(store).deep_view() == (AppStoreDataV {
            counter_animation_presets: old(store).deep_view().counter_animation_presets.update(
                first_preset(old(store).deep_view().counter_animation_presets, preset_id@),
                replacement.deep_view(),
            ),
            ..old(store).deep_view()
        }),
{
    let ghost s0 = store.deep_view().counter_animation_presets;
    let mut i: usize = 0;
    while i < store.counter_animation_presets.len()
        invariant
            i <= store.counter_animation_presets.len(),
            s0 == store.counter_animation_presets.deep_view(),
            store.deep_view() == old(store).deep_view(),
            s0 == old(store).deep_view().counter_animation_presets,
            forall|j: int| 0 <= j < i ==> s0[j].id != preset_id@,
        decreases store.counter_animation_presets.len() - i,
    {
        if str_eq(store.counter_animation_presets[i].id.as_str(), preset_id) {
            proof {
                let f = first_preset(s0, preset_id@);
                assert(0 <= i < s0.len() && s0[i as int].id == preset_id@ && forall|j: int| 0 <= j < i ==> s0[j].id != preset_id@);
                if f < i {
                    assert(s0[f].id != preset_id@);
                }
                if i < f {
                    assert(s0[i as int].id != preset_id@);
                }
            }
            assert(s0[i as int].id == preset_id@);
            let ghost before = store.counter_animation_presets.deep_view();
            store.counter_animation_presets.set(i, replacement.dup());
            proof {
                assert(store.counter_animation_presets.deep_view() =~= before.update(i as int, replacement.deep_view()));
            }
            return Ok(());
        }
        i += 1;
    }
    proof {
        assert(!has_preset(s0, preset_id@));
    }
    Err(EditorCommitError::CounterAnimationPresetNotFound)
}

/// The presets without those with this id.
pub open spec fn presets_without(presets: Seq<CounterAnimationPresetV>, id: Seq<char>) -> Seq<CounterAnimationPresetV>
    decreases presets.len(),
{
    if presets.len() == 0 {
        presets
    } else {
        let rest = presets_without(presets.drop_last(), id);
        if presets.last().id == id {
            rest
        } else {
            rest.push(presets.last())
        }
    }
}

/// Removes every preset with this id; refused (nothing removed) when there is none.
pub fn remove_counter_animation_preset(store: &mut AppStoreData, preset_id: &str) -> (r: Result<(), EditorCommitError>)
    ensures
        r is Ok <==> has_preset(old(store).deep_view().counter_animation_presets, preset_id@),
        r is Err ==> r == Err::<(), EditorCommitError>(EditorCommitError::CounterAnimationPresetNotFound)
            && final(store).deep_view() == old(store).deep_view(),
        r is Ok ==> final(store).deep_view() == (AppStoreDataV {
            counter_animation_presets: presets_without(old(store).deep_view().counter_animation_presets, preset_id@),
            ..old(store).deep_view()
        }),
{
    let ghost s0 = store.deep_view().counter_animation_presets;
    let mut kept: Vec<CounterAnimationPreset> = Vec::new();
    let mut removed = false;
    let mut i: usize = 0;
    while i < store.counter_animation_presets.len()
        invariant
            i <= store.counter_animation_presets.len(),
            s0 == store.counter_animation_presets.deep_view(),
            kept.deep_view() == presets_without(s0.take(i as int), preset_id@),
            removed == has_preset(s0.take(i as int), preset_id@),
            !removed ==> kept.deep_view() == s0.take(i as int),
        decreases store.counter_animation_presets.len() - i,
    {
        proof {
            let pre = s0.take(i + 1);
            assert(pre.drop_last() =~= s0.take(i as int));
            assert(pre.last() == s0[i as int]);
            assert(presets_without(pre, preset_id@) == (if s0[i as int].id != preset_id@ {
                presets_without(s0.take(i as int), preset_id@).push(s0[i as int])
            } else {
                presets_without(s0.take(i as int), preset_id@)
            }));
        }
        if str_eq(store.counter_animation_presets[i].id.as_str(), preset_id) {
            removed = true;
            proof {
                assert(s0.take(i + 1)[i as int].id == preset_id@);
            }
        } else {
            let ghost before = kept.deep_view();
            kept.push(store.counter_animation_presets[i].dup());
            proof {
                assert(kept.deep_view() =~= before.push(s0[i as int]));
                assert(s0.take(i + 1) =~= s0.take(i as int).push(s0[i as int]));
            }
        }
        proof {
            let t1 = s0.take(i as int);
            let t2 = s0.take(i + 1);
            if has_preset(t1, preset_id@) {
                let j = choose|j: int| 0 <= j < t1.len() && #[trigger] t1[j].id == preset_id@;
                assert(t2[j].id == preset_id@);
            }
            if has_preset(t2, preset_id@) {
                let j = choose|j: int| 0 <= j < t2.len() && #[trigger] t2[j].id == preset_id@;
                if j < i {
                    assert(t1[j].id == preset_id@);
                }
            }
        }
        i += 1;
    }
    proof {
        assert(s0.take(s0.len() as int) =~= s0);
    }
    if !removed {
        return Err(EditorCommitError::CounterAnimationPresetNotFound);
    }
    store.counter_animation_presets = kept;
    Ok(())
}


/// The animation values that a preset gives a counter: its id, duration, scale and curve.
pub open spec fn preset_values(p: CounterAnimationPresetV) -> CounterAnimationV {
    CounterAnimationV { preset_id: Some(p.id), duration_ms: p.duration_ms, scale_bits: p.scale_bits, bezier_bits: p.bezier_bits }
}

/// After a preset is applied, every key, statistic and graph counter that followed it has
/// exactly the preset's id, duration, scale and curve, whatever it had before; every other
/// counter and element is as it was, and no tab or element is added or dropped.
pub proof fn lemma_bound_counters_take_preset(
    old: AppStoreDataV,
    new: AppStoreDataV,
    preset_id: Seq<char>,
    p: CounterAnimationPresetV,
)
    requires
        new == presets_applied(old, preset_id, p),
    ensures
        new.key_positions.dom() == old.key_positions.dom(),
        forall|k: Seq<char>, i: int|
            old.key_positions.contains_key(k) && 0 <= i < old.key_positions[k].len() ==> {
                let o = #[trigger] old.key_positions[k][i];
                let n = new.key_positions[k][i];
                &&& new.key_positions[k].len() == old.key_positions[k].len()
                &&& bound_preset(o.counter.animation) == preset_id ==> n.counter.animation == preset_values(p)
                &&& bound_preset(o.counter.animation) == preset_id ==> n == (KeyPositionV {
                    counter: CounterStyleV { animation: n.counter.animation, ..o.counter },
                    ..o
                })
                &&& bound_preset(o.counter.animation) != preset_id ==> n == o
            },
        forall|k: Seq<char>, i: int|
            old.stat_positions.contains_key(k) && 0 <= i < old.stat_positions[k].len() ==> {
                let o = StatPosition::look_of(#[trigger] old.stat_positions[k][i]);
                let n = StatPosition::look_of(new.stat_positions[k][i]);
                &&& new.stat_positions[k].len() == old.stat_positions[k].len()
                &&& bound_preset(o.counter.animation) == preset_id ==> n.counter.animation == preset_values(p)
                &&& bound_preset(o.counter.animation) != preset_id ==> new.stat_positions[k][i]
                    == old.stat_positions[k][i]
            },
        forall|k: Seq<char>, i: int|
            old.graph_positions.contains_key(k) && 0 <= i < old.graph_positions[k].len() ==> {
                let o = GraphPosition::look_of(#[trigger] old.graph_positions[k][i]);
                let n = GraphPosition::look_of(new.graph_positions[k][i]);
                &&& new.graph_positions[k].len() == old.graph_positions[k].len()
                &&& bound_preset(o.counter.animation) == preset_id ==> n.counter.animation == preset_values(p)
                &&& bound_preset(o.counter.animation) != preset_id ==> new.graph_positions[k][i]
                    == old.graph_positions[k][i]
            },
{
    assert forall|k: Seq<char>, i: int|
        old.key_positions.contains_key(k) && 0 <= i < old.key_positions[k].len() implies {
            let o = #[trigger] old.key_positions[k][i];
            let n = new.key_positions[k][i];
            &&& new.key_positions[k].len() == old.key_positions[k].len()
            &&& bound_preset(o.counter.animation) == preset_id ==> n.counter.animation == preset_values(p)
            &&& bound_preset(o.counter.animation) == preset_id ==> n == (KeyPositionV {
                counter: CounterStyleV { animation: n.counter.animation, ..o.counter },
                ..o
            })
            &&& bound_preset(o.counter.animation) != preset_id ==> n == o
        } by {
        let o = old.key_positions[k][i];
        KeyPosition::lemma_with_look(o, KeyPositionV { counter: counter_applied(o.counter, preset_id, p), ..o });
        KeyPosition::lemma_with_look(o, o);
    }
    assert forall|k: Seq<char>, i: int|
        old.stat_positions.contains_key(k) && 0 <= i < old.stat_positions[k].len() implies {
            let o = StatPosition::look_of(#[trigger] old.stat_positions[k][i]);
            let n = StatPosition::look_of(new.stat_positions[k][i]);
            &&& new.stat_positions[k].len() == old.stat_positions[k].len()
            &&& bound_preset(o.counter.animation) == preset_id ==> n.counter.animation == preset_values(p)
            &&& bound_preset(o.counter.animation) != preset_id ==> new.stat_positions[k][i]
                == old.stat_positions[k][i]
        } by {
        let v = old.stat_positions[k][i];
        let o = StatPosition::look_of(v);
        StatPosition::lemma_with_look(v, KeyPositionV { counter: counter_applied(o.counter, preset_id, p), ..o });
    }
    assert forall|k: Seq<char>, i: int|
        old.graph_positions.contains_key(k) && 0 <= i < old.graph_positions[k].len() implies {
            let o = GraphPosition::look_of(#[trigger] old.graph_positions[k][i]);
            let n = GraphPosition::look_of(new.graph_positions[k][i]);
            &&& new.graph_positions[k].len() == old.graph_positions[k].len()
            &&& bound_preset(o.counter.animation) == preset_id ==> n.counter.animation == preset_values(p)
            &&& bound_preset(o.counter.animation) != preset_id ==> new.graph_positions[k][i]
                == old.graph_positions[k][i]
        } by {
        let v = old.graph_positions[k][i];
        let o = GraphPosition::look_of(v);
        GraphPosition::lemma_with_look(v, KeyPositionV { counter: counter_applied(o.counter, preset_id, p), ..o });
    }
    assert(new.key_positions.dom() =~= old.key_positions.dom());
}

} // verus!
