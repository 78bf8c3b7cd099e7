//! The built-in tabs, their default layouts, and the rules for tab order and tab-bar size.
use crate::model::{
    CounterAnimation, CounterAnimationV, CounterStyle, CounterStyleV, CustomTab, CustomTabV,
    KeyPosition, KeyPositionV, KeySlot, KeySlotV,
};
use crate::preset_export::{builtin_tab, is_builtin_tab, BUILTIN_TAB_IDS};
use crate::strmap::{Dup, StrMap};
use crate::text::{chars_of, contains_text, str_eq, string_of};
use vstd::prelude::*;

verus! {

/// An animation that follows no preset, with zero values.
pub open spec fn still_animation() -> CounterAnimationV {
    CounterAnimationV { preset_id: None, duration_ms: 0, scale_bits: 0, bezier_bits: (0, 0, 0, 0) }
}

impl Default for CounterAnimation {
    fn default() -> (r: Self)
        ensures
            r.deep_view() == still_animation(),
    {
        CounterAnimation { preset_id: None, duration_ms: 0, scale_bits: 0, bezier_bits: (0, 0, 0, 0) }
    }
}

impl Default for CounterStyle {
    fn default() -> (r: Self)
        ensures
            r.deep_view() == (CounterStyleV { font_family: None, animation: still_animation() }),
    {
        CounterStyle { font_family: None, animation: CounterAnimation::default() }
    }
}

impl Default for KeySlot {
    fn default() -> (r: Self)
        ensures
            r.deep_view() == (KeySlotV { label: Seq::empty() }),
    {
        let label = String::new();
        assert(label@ =~= Seq::<char>::empty());
        KeySlot { label }
    }
}

/// A key element with no id, images, sound or fonts.
pub open spec fn blank_key_position() -> KeyPositionV {
    KeyPositionV {
        id: Seq::empty(),
        active_image: None,
        inactive_image: None,
        sound_path: None,
        sound_enabled: None,
        font_family: None,
        counter: CounterStyleV { font_family: None, animation: still_animation() },
    }
}

impl Default for KeyPosition {
    fn default() -> (r: Self)
        ensures
            r.deep_view() == blank_key_position(),
    {
        let id = String::new();
        assert(id@ =~= Seq::<char>::empty());
        KeyPosition {
            id,
            active_image: None,
            inactive_image: None,
            sound_path: None,
            sound_enabled: None,
            font_family: None,
            counter: CounterStyle::default(),
        }
    }
}

/// Key labels of a built-in tab's default layout.
pub open spec fn default_labels(mode: Seq<char>) -> Seq<Seq<char>> {
    if mode == "4key"@ {
        seq!["D"@, "F"@, "J"@, "K"@]
    } else if mode == "5key"@ {
        seq!["D"@, "F"@, "Space"@, "J"@, "K"@]
    } else if mode == "6key"@ {
        seq!["S"@, "D"@, "F"@, "J"@, "K"@, "L"@]
    } else {
        seq!["A"@, "S"@, "D"@, "F"@, "J"@, "K"@, "L"@, "Semicolon"@]
    }
}

/// Key bindings with these labels.
pub open spec fn slots_of(labels: Seq<Seq<char>>) -> Seq<KeySlotV> {
    labels.map_values(|l: Seq<char>| KeySlotV { label: l })
}

/// The default key bindings of a built-in tab.
pub open spec fn default_slots(mode: Seq<char>) -> Seq<KeySlotV> {
    slots_of(default_labels(mode))
}

/// The default key elements of a built-in tab: one blank element per key.
pub open spec fn default_key_positions(mode: Seq<char>) -> Seq<KeyPositionV> {
    Seq::new(default_labels(mode).len(), |i: int| blank_key_position())
}

/// The default key bindings of every built-in tab.
pub open spec fn spec_default_keys() -> Map<Seq<char>, Seq<KeySlotV>> {
    Map::new(|m: Seq<char>| is_builtin_tab(m), |m: Seq<char>| default_slots(m))
}

fn slots(labels: &[&str]) -> (r: Vec<KeySlot>)
    ensures
        r.deep_view() == slots_of(labels@.map_values(|l: &str| l@)),
{
    let mut out: Vec<KeySlot> = Vec::new();
    let mut i: usize = 0;
    while i < labels.len()
        invariant
            i <= labels.len(),
            out.deep_view() =~= slots_of(labels@.map_values(|l: &str| l@)).take(i as int),
        decreases labels.len() - i,
    {
        let slot = KeySlot { label: string_of(&chars_of(labels[i])) };
        let ghost before = out.deep_view();
        out.push(slot);
        proof {
            assert(out.deep_view() =~= before.push(slot.deep_view()));
        }
        i += 1;
    }
    out
}

/// The default key bindings of a built-in tab; none for other tabs.
pub fn default_mode_keys(mode: &str) -> (r: Option<Vec<KeySlot>>)
    ensures
        r.deep_view() == (if is_builtin_tab(mode@) {
            Some(default_slots(mode@))
        } else {
            None
        }),
{
    let labels: [&str; 4] = ["D", "F", "J", "K"];
    if str_eq(mode, BUILTIN_TAB_IDS[0]) {
        let ls = ["D", "F", "J", "K"];
        let r = slots(&ls);
        proof {
            assert(ls@.map_values(|l: &str| l@) =~= default_labels(mode@));
        }
        return Some(r);
    }
    if str_eq(mode, BUILTIN_TAB_IDS[1]) {
        let ls = ["D", "F", "Space", "J", "K"];
        let r = slots(&ls);
        proof {
            reveal_strlit("4key");
            reveal_strlit("5key");
            assert(mode@ != "4key"@);
            assert(ls@.map_values(|l: &str| l@) =~= default_labels(mode@));
        }
        return Some(r);
    }
    if str_eq(mode, BUILTIN_TAB_IDS[2]) {
        let ls = ["S", "D", "F", "J", "K", "L"];
        let r = slots(&ls);
        proof {
            reveal_strlit("4key");
            reveal_strlit("5key");
            reveal_strlit("6key");
            assert(mode@ != "4key"@ && mode@ != "5key"@);
            assert(ls@.map_values(|l: &str| l@) =~= default_labels(mode@));
        }
        return Some(r);
    }
    if str_eq(mode, BUILTIN_TAB_IDS[3]) {
        let ls = ["A", "S", "D", "F", "J", "K", "L", "Semicolon"];
        let r = slots(&ls);
        proof {
            reveal_strlit("4key");
            reveal_strlit("5key");
            reveal_strlit("6key");
            reveal_strlit("8key");
            assert(mode@ != "4key"@ && mode@ != "5key"@ && mode@ != "6key"@);
            assert(ls@.map_values(|l: &str| l@) =~= default_labels(mode@));
        }
        return Some(r);
    }
    None
}

/// `n` blank key elements.
fn blank_positions(n: usize) -> (r: Vec<KeyPosition>)
    ensures
        r.deep_view() == Seq::new(n as nat, |i: int| blank_key_position()),
{
    let mut out: Vec<KeyPosition> = Vec::new();
    let mut i: usize = 0;
    while i < n
        invariant
            i <= n,
            out.deep_view() =~= Seq::new(i as nat, |j: int| blank_key_position()),
        decreases n - i,
    {
        let p = KeyPosition::default();
        let ghost before = out.deep_view();
        out.push(p);
        proof {
            assert(out.deep_view() =~= before.push(p.deep_view()));
        }
        i += 1;
    }
    out
}

/// The default key elements of a built-in tab; none for other tabs.
pub fn default_mode_positions(mode: &str) -> (r: Option<Vec<KeyPosition>>)
    ensures
        r.deep_view() == (if is_builtin_tab(mode@) {
            Some(default_key_positions(mode@))
        } else {
            None
        }),
{
    match default_mode_keys(mode) {
        Some(k) => {
            let r = blank_positions(k.len());
            proof {
                assert(k.deep_view().len() == default_labels(mode@).len());
                assert(r.deep_view() =~= default_key_positions(mode@));
            }
            Some(r)
        },
        None => None,
    }
}

/// The default key bindings of every built-in tab.
pub fn default_keys() -> (r: StrMap<Vec<KeySlot>>)
    ensures
        r@ == spec_default_keys(),
{
    let mut m: StrMap<Vec<KeySlot>> = StrMap::new();
    let mut i: usize = 0;
    while i < 4
        invariant
            i <= 4,
            m@ == Map::new(
                |k: Seq<char>| exists|j: int| 0 <= j < i && k == BUILTIN_TAB_IDS@[j]@,
                |k: Seq<char>| default_slots(k),
            ),
        decreases 4 - i,
    {
        let id = BUILTIN_TAB_IDS[i];
        proof {
            reveal_strlit("4key");
            reveal_strlit("5key");
            reveal_strlit("6key");
            reveal_strlit("8key");
        }
        match default_mode_keys(id) {
            Some(k) => {
                m.insert(string_of(&chars_of(id)), k);
            },
            None => {},
        }
        proof {
            assert(is_builtin_tab(id@));
            assert(m@ =~= Map::new(
                |k: Seq<char>| exists|j: int| 0 <= j < i + 1 && k == BUILTIN_TAB_IDS@[j]@,
                |k: Seq<char>| default_slots(k),
            ));
        }
        i += 1;
    }
    proof {
        reveal_strlit("4key");
        reveal_strlit("5key");
        reveal_strlit("6key");
        reveal_strlit("8key");
        assert forall|k: Seq<char>| is_builtin_tab(k) implies exists|j: int|
            0 <= j < 4 && k == BUILTIN_TAB_IDS@[j]@ by {
            if k == "4key"@ {
                assert(k == BUILTIN_TAB_IDS@[0]@);
            } else if k == "5key"@ {
                assert(k == BUILTIN_TAB_IDS@[1]@);
            } else if k == "6key"@ {
                assert(k == BUILTIN_TAB_IDS@[2]@);
            } else {
                assert(k == BUILTIN_TAB_IDS@[3]@);
            }
        }
        assert(m@ =~= spec_default_keys());
    }
    m
}

/// `xs` appended to `acc`, each only if not there yet.
pub open spec fn add_missing(acc: Seq<Seq<char>>, xs: Seq<Seq<char>>) -> Seq<Seq<char>>
    decreases xs.len(),
{
    if xs.len() == 0 {
        acc
    } else {
        let a = add_missing(acc, xs.drop_last());
        if a.contains(xs.last()) {
            a
        } else {
            a.push(xs.last())
        }
    }
}

/// The ids of the custom tabs, in order.
pub open spec fn custom_ids(customs: Seq<CustomTabV>) -> Seq<Seq<char>> {
    customs.map_values(|t: CustomTabV| t.id)
}

/// A tab that exists: a built-in one or a custom one.
pub open spec fn known_tab(id: Seq<char>, customs: Seq<CustomTabV>) -> bool {
    is_builtin_tab(id) || custom_ids(customs).contains(id)
}

/// The entries of `xs` that name existing tabs, appended to `acc` unless already there.
pub open spec fn add_known(acc: Seq<Seq<char>>, xs: Seq<Seq<char>>, customs: Seq<CustomTabV>) -> Seq<
    Seq<char>,
>
    decreases xs.len(),
{
    if xs.len() == 0 {
        acc
    } else {
        let a = add_known(acc, xs.drop_last(), customs);
        if a.contains(xs.last()) || !known_tab(xs.last(), customs) {
            a
        } else {
            a.push(xs.last())
        }
    }
}

/// The built-in tab ids, in order.
pub open spec fn builtin_ids() -> Seq<Seq<char>> {
    seq!["4key"@, "5key"@, "6key"@, "8key"@]
}

/// The tab order of documents that had none: built-in tabs, then custom tabs.
pub open spec fn spec_legacy_tab_order(customs: Seq<CustomTabV>) -> Seq<Seq<char>> {
    add_missing(add_missing(Seq::empty(), builtin_ids()), custom_ids(customs))
}

/// A tab order cleaned up: entries that name existing tabs, each once, then the existing
/// tabs that it missed, in the order of [`spec_legacy_tab_order`].
pub open spec fn spec_normalize_tab_order(order: Seq<Seq<char>>, customs: Seq<CustomTabV>) -> Seq<
    Seq<char>,
> {
    add_missing(add_known(Seq::empty(), order, customs), spec_legacy_tab_order(customs))
}

fn append_missing(acc: &mut Vec<String>, xs: &Vec<String>)
    ensures
        final(acc).deep_view() == add_missing(old(acc).deep_view(), xs.deep_view()),
{
    let ghost a0 = acc.deep_view();
    let mut i: usize = 0;
    while i < xs.len()
        invariant
            i <= xs.len(),
            acc.deep_view() == add_missing(a0, xs.deep_view().take(i as int)),
        decreases xs.len() - i,
    {
        let ghost pre = xs.deep_view().take(i + 1);
        assert(pre.drop_last() =~= xs.deep_view().take(i as int));
        assert(pre.last() == xs[i as int]@);
        if !contains_text(acc, xs[i].as_str()) {
            let ghost before = acc.deep_view();
            acc.push(xs[i].clone());
            assert(acc.deep_view() =~= before.push(xs[i as int]@));
        }
        i += 1;
    }
    assert(xs.deep_view().take(xs.len() as int) =~= xs.deep_view());
}

pub(crate) fn is_custom_tab(customs: &Vec<CustomTab>, id: &str) -> (r: bool)
    ensures
        r == custom_ids(customs.deep_view()).contains(id@),
{
    let mut i: usize = 0;
    while i < customs.len()
        invariant
            i <= customs.len(),
            forall|j: int| 0 <= j < i ==> customs.deep_view()[j].id != id@,
        decreases customs.len() - i,
    {
        if str_eq(customs[i].id.as_str(), id) {
            assert(custom_ids(customs.deep_view())[i as int] == id@);
            return true;
        }
        i += 1;
    }
    false
}

/// The ids of the custom tabs, in order.
fn custom_tab_ids(customs: &Vec<CustomTab>) -> (r: Vec<String>)
    ensures
        r.deep_view() == custom_ids(customs.deep_view()),
{
    let mut out: Vec<String> = Vec::new();
    let mut i: usize = 0;
    while i < customs.len()
        invariant
            i <= customs.len(),
            out.deep_view() =~= custom_ids(customs.deep_view()).take(i as int),
        decreases customs.len() - i,
    {
        let ghost before = out.deep_view();
        out.push(customs[i].id.clone());
        assert(out.deep_view() =~= before.push(customs[i as int].id@));
        i += 1;
    }
    out
}

fn builtin_tab_ids() -> (r: Vec<String>)
    ensures
        r.deep_view() == builtin_ids(),
{
    let mut out: Vec<String> = Vec::new();
    let mut i: usize = 0;
    while i < 4
        invariant
            i <= 4,
            out.deep_view() =~= builtin_ids().take(i as int),
        decreases 4 - i,
    {
        let id = string_of(&chars_of(BUILTIN_TAB_IDS[i]));
        proof {
            assert(BUILTIN_TAB_IDS@[i as int]@ == builtin_ids()[i as int]);
        }
        let ghost before = out.deep_view();
        out.push(id);
        assert(out.deep_view() =~= before.push(id@));
        i += 1;
    }
    out
}

/// The tab order of documents that had none: built-in tabs, then custom tabs.
pub fn legacy_tab_order(custom_tabs: &Vec<CustomTab>) -> (r: Vec<String>)
    ensures
        r.deep_view() == spec_legacy_tab_order(custom_tabs.deep_view()),
{
    let mut out: Vec<String> = Vec::new();
    proof {
        assert(out.deep_view() =~= Seq::<Seq<char>>::empty());
    }
    append_missing(&mut out, &builtin_tab_ids());
    append_missing(&mut out, &custom_tab_ids(custom_tabs));
    out
}

/// Cleans up a tab order: keeps the entries that name existing tabs, each once, and adds
/// the existing tabs that it missed.
pub fn normalize_tab_order(order: &Vec<String>, custom_tabs: &Vec<CustomTab>) -> (r: Vec<String>)
    ensures
        r.deep_view() == spec_normalize_tab_order(order.deep_view(), custom_tabs.deep_view()),
{
    let mut out: Vec<String> = Vec::new();
    let mut i: usize = 0;
    while i < order.len()
        invariant
            i <= order.len(),
            out.deep_view() == add_known(Seq::empty(), order.deep_view().take(i as int), custom_tabs.deep_view()),
        decreases order.len() - i,
    {
        let ghost pre = order.deep_view().take(i + 1);
        assert(pre.drop_last() =~= order.deep_view().take(i as int));
        assert(pre.last() == order[i as int]@);
        let id = order[i].as_str();
        if !contains_text(&out, id) && (builtin_tab(id) || is_custom_tab(custom_tabs, id)) {
            let ghost before = out.deep_view();
            out.push(order[i].clone());
            assert(out.deep_view() =~= before.push(order[i as int]@));
        }
        i += 1;
    }
    assert(order.deep_view().take(order.len() as int) =~= order.deep_view());
    let legacy = legacy_tab_order(custom_tabs);
    append_missing(&mut out, &legacy);
    out
}

/// How many tabs the tab bar shows when nothing else is known.
pub const DEFAULT_BAR_COUNT: u8 = 4;

/// A tab-bar size kept between one and the number of tabs (when there are tabs).
pub open spec fn spec_normalize_bar_count(count: u8, tabs: nat) -> u8 {
    if count < 1 {
        1
    } else if tabs > 0 && count > tabs {
        tabs as u8
    } else {
        count
    }
}

/// Keeps a tab-bar size between one and the number of tabs.
pub fn normalize_bar_count(count: u8, order: &Vec<String>) -> (r: u8)
    ensures
        r == spec_normalize_bar_count(count, order.deep_view().len()),
{
    if count < 1 {
        1
    } else if order.len() > 0 && (count as usize) > order.len() {
        order.len() as u8
    } else {
        count
    }
}

/// The default key elements of every built-in tab.
pub open spec fn spec_default_positions() -> Map<Seq<char>, Seq<KeyPositionV>> {
    Map::new(|m: Seq<char>| is_builtin_tab(m), |m: Seq<char>| default_key_positions(m))
}

/// The default key elements of every built-in tab.
pub fn default_positions() -> (r: StrMap<Vec<KeyPosition>>)
    ensures
        r@ == spec_default_positions(),
{
    let keys = default_keys();
    keys.check_wf();
    let mut m: StrMap<Vec<KeyPosition>> = StrMap::new();
    let n = keys.len();
    let mut i: usize = 0;
    while i < n
        invariant
            n == keys.spec_len(),
            i <= n,
            keys.wf(),
            keys@ == spec_default_keys(),
            m@ == Map::new(
                |k: Seq<char>| exists|j: int| 0 <= j < i && keys.spec_key(j) == k,
                |k: Seq<char>| default_key_positions(k),
            ),
        decreases n - i,
    {
        let id = keys.key_at(i);
        proof {
            keys.lemma_index(i as int);
        }
        match default_mode_positions(id.as_str()) {
            Some(p) => {
                m.insert(id.clone(), p);
            },
            None => {},
        }
        proof {
            assert(m@ =~= Map::new(
                |k: Seq<char>| exists|j: int| 0 <= j < i + 1 && keys.spec_key(j) == k,
                |k: Seq<char>| default_key_positions(k),
            )) by {
                assert(keys.spec_key(i as int) == id@);
            }
        }
        i += 1;
    }
    proof {
        assert forall|k: Seq<char>| (exists|j: int| 0 <= j < n && keys.spec_key(j) == k) <==> is_builtin_tab(k) by {
            if is_builtin_tab(k) {
                assert(keys@.contains_key(k));
                let j = keys.lemma_key(k);
            }
            if exists|j: int| 0 <= j < n && keys.spec_key(j) == k {
                let j = choose|j: int| 0 <= j < n && keys.spec_key(j) == k;
                keys.lemma_index(j);
            }
        }
        assert(m@ =~= spec_default_positions());
    }
    m
}

proof fn lemma_add_missing(acc: Seq<Seq<char>>, xs: Seq<Seq<char>>)
    ensures
        acc.no_duplicates() ==> add_missing(acc, xs).no_duplicates(),
        forall|x: Seq<char>| #[trigger] add_missing(acc, xs).contains(x) <==> (acc.contains(x) || xs.contains(x)),
    decreases xs.len(),
{
    if xs.len() > 0 {
        let ys = xs.drop_last();
        lemma_add_missing(acc, ys);
        let a = add_missing(acc, ys);
        let l = xs.last();
        assert forall|x: Seq<char>| xs.contains(x) <==> (ys.contains(x) || x == l) by {
            if xs.contains(x) {
                let i = choose|i: int| 0 <= i < xs.len() && xs[i] == x;
                if i < xs.len() - 1 {
                    assert(ys[i] == x);
                }
            }
            if ys.contains(x) {
                let i = choose|i: int| 0 <= i < ys.len() && ys[i] == x;
                assert(xs[i] == x);
            }
            if x == l {
                assert(xs[xs.len() - 1] == x);
            }
        }
        if !a.contains(l) {
            let b = a.push(l);
            assert forall|x: Seq<char>| b.contains(x) <==> (a.contains(x) || x == l) by {
                if b.contains(x) {
                    let i = choose|i: int| 0 <= i < b.len() && b[i] == x;
                    if i < a.len() {
                        assert(a[i] == x);
                    }
                }
                if a.contains(x) {
                    let i = choose|i: int| 0 <= i < a.len() && a[i] == x;
                    assert(b[i] == x);
                }
                if x == l {
                    assert(b[a.len() as int] == x);
                }
            }
            if acc.no_duplicates() {
                assert forall|i: int, j: int| 0 <= i < b.len() && 0 <= j < b.len() && i != j implies b[i] != b[j] by {
                    if i == a.len() {
                        assert(a[j] != l);
                    } else if j == a.len() {
                        assert(a[i] != l);
                    }
                }
            }
        }
    }
}

proof fn lemma_add_known(acc: Seq<Seq<char>>, xs: Seq<Seq<char>>, customs: Seq<CustomTabV>)
    ensures
        acc.no_duplicates() ==> add_known(acc, xs, customs).no_duplicates(),
        forall|x: Seq<char>| #[trigger] add_known(acc, xs, customs).contains(x) <==> (acc.contains(x) || (
            xs.contains(x) && known_tab(x, customs))),
    decreases xs.len(),
{
    if xs.len() > 0 {
        let ys = xs.drop_last();
        lemma_add_known(acc, ys, customs);
        let a = add_known(acc, ys, customs);
        let l = xs.last();
        assert forall|x: Seq<char>| xs.contains(x) <==> (ys.contains(x) || x == l) by {
            if xs.contains(x) {
                let i = choose|i: int| 0 <= i < xs.len() && xs[i] == x;
                if i < xs.len() - 1 {
                    assert(ys[i] == x);
                }
            }
            if ys.contains(x) {
                let i = choose|i: int| 0 <= i < ys.len() && ys[i] == x;
                assert(xs[i] == x);
            }
            if x == l {
                assert(xs[xs.len() - 1] == x);
            }
        }
        if !a.contains(l) && known_tab(l, customs) {
            let b = a.push(l);
            assert forall|x: Seq<char>| b.contains(x) <==> (a.contains(x) || x == l) by {
                if b.contains(x) {
                    let i = choose|i: int| 0 <= i < b.len() && b[i] == x;
                    if i < a.len() {
                        assert(a[i] == x);
                    }
                }
                if a.contains(x) {
                    let i = choose|i: int| 0 <= i < a.len() && a[i] == x;
                    assert(b[i] == x);
                }
                if x == l {
                    assert(b[a.len() as int] == x);
                }
            }
            if acc.no_duplicates() {
                assert forall|i: int, j: int| 0 <= i < b.len() && 0 <= j < b.len() && i != j implies b[i] != b[j] by {
                    if i == a.len() {
                        assert(a[j] != l);
                    } else if j == a.len() {
                        assert(a[i] != l);
                    }
                }
            }
        }
    }
}

/// A cleaned-up tab order names every existing tab (built-in or custom) exactly once,
/// and no other tab.
pub proof fn lemma_normalized_tab_order(order: Seq<Seq<char>>, customs: Seq<CustomTabV>)
    ensures
        spec_normalize_tab_order(order, customs).no_duplicates(),
        forall|x: Seq<char>| #[trigger] spec_normalize_tab_order(order, customs).contains(x) <==> known_tab(x, customs),
{
    let e = Seq::<Seq<char>>::empty();
    lemma_add_known(e, order, customs);
    let k = add_known(e, order, customs);
    lemma_add_missing(e, builtin_ids());
    let b = add_missing(e, builtin_ids());
    lemma_add_missing(b, custom_ids(customs));
    let legacy = spec_legacy_tab_order(customs);
    lemma_add_missing(k, legacy);
    assert forall|x: Seq<char>| builtin_ids().contains(x) <==> is_builtin_tab(x) by {
        if x == "4key"@ {
            assert(builtin_ids()[0] == x);
        }
        if x == "5key"@ {
            assert(builtin_ids()[1] == x);
        }
        if x == "6key"@ {
            assert(builtin_ids()[2] == x);
        }
        if x == "8key"@ {
            assert(builtin_ids()[3] == x);
        }
    }
}

proof fn lemma_add_known_keeps(xs: Seq<Seq<char>>, customs: Seq<CustomTabV>)
    requires
        xs.no_duplicates(),
        forall|i: int| 0 <= i < xs.len() ==> known_tab(#[trigger] xs[i], customs),
    ensures
        add_known(Seq::empty(), xs, customs) == xs,
    decreases xs.len(),
{
    if xs.len() > 0 {
        let ys = xs.drop_last();
        assert forall|a: int, b: int| 0 <= a < ys.len() && 0 <= b < ys.len() && a != b implies ys[a] != ys[b] by {
            assert(xs[a] != xs[b]);
        }
        assert forall|i: int| 0 <= i < ys.len() implies known_tab(#[trigger] ys[i], customs) by {
            assert(known_tab(xs[i], customs));
        }
        lemma_add_known_keeps(ys, customs);
        assert(!ys.contains(xs.last())) by {
            if ys.contains(xs.last()) {
                let k = choose|k: int| 0 <= k < ys.len() && ys[k] == xs.last();
                assert(xs[k] == xs[xs.len() - 1]);
            }
        }
        assert(known_tab(xs[xs.len() - 1], customs));
        assert(ys.push(xs.last()) =~= xs);
    }
}

proof fn lemma_add_missing_present(acc: Seq<Seq<char>>, xs: Seq<Seq<char>>)
    requires
        forall|i: int| 0 <= i < xs.len() ==> acc.contains(#[trigger] xs[i]),
    ensures
        add_missing(acc, xs) == acc,
    decreases xs.len(),
{
    if xs.len() > 0 {
        let ys = xs.drop_last();
        assert forall|i: int| 0 <= i < ys.len() implies acc.contains(#[trigger] ys[i]) by {
            assert(acc.contains(xs[i]));
        }
        lemma_add_missing_present(acc, ys);
        assert(acc.contains(xs[xs.len() - 1]));
    }
}

/// Cleaning up a tab order a second time changes nothing.
pub proof fn lemma_normalize_tab_order_idempotent(order: Seq<Seq<char>>, customs: Seq<CustomTabV>)
    ensures
        spec_normalize_tab_order(spec_normalize_tab_order(order, customs), customs) == spec_normalize_tab_order(
            order,
            customs,
        ),
{
    let o = spec_normalize_tab_order(order, customs);
    lemma_normalized_tab_order(order, customs);
    assert forall|i: int| 0 <= i < o.len() implies known_tab(#[trigger] o[i], customs) by {
        assert(o.contains(o[i]));
    }
    lemma_add_known_keeps(o, customs);
    let legacy = spec_legacy_tab_order(customs);
    lemma_normalized_tab_order(Seq::empty(), customs);
    let e = Seq::<Seq<char>>::empty();
    assert(add_known(e, e, customs) == e);
    assert forall|i: int| 0 <= i < legacy.len() implies o.contains(#[trigger] legacy[i]) by {
        lemma_add_missing(e, legacy);
        assert(add_missing(e, legacy).contains(legacy[i]) <==> (e.contains(legacy[i]) || legacy.contains(legacy[i])));
        assert(legacy.contains(legacy[i]));
        assert(spec_normalize_tab_order(e, customs) == add_missing(e, legacy));
        assert(known_tab(legacy[i], customs));
    }
    lemma_add_missing_present(o, legacy);
}

/// A tab order that names every existing tab once and nothing else is already clean.
pub(crate) proof fn lemma_clean_order_fixed(o: Seq<Seq<char>>, customs: Seq<CustomTabV>)
    requires
        o.no_duplicates(),
        forall|x: Seq<char>| #[trigger] o.contains(x) <==> known_tab(x, customs),
    ensures
        spec_normalize_tab_order(o, customs) == o,
{
    assert forall|i: int| 0 <= i < o.len() implies known_tab(#[trigger] o[i], customs) by {
        assert(o.contains(o[i]));
    }
    lemma_add_known_keeps(o, customs);
    let legacy = spec_legacy_tab_order(customs);
    lemma_normalized_tab_order(Seq::empty(), customs);
    let e = Seq::<Seq<char>>::empty();
    assert(add_known(e, e, customs) == e);
    assert forall|i: int| 0 <= i < legacy.len() implies o.contains(#[trigger] legacy[i]) by {
        lemma_add_missing(e, legacy);
        assert(add_missing(e, legacy).contains(legacy[i]) <==> (e.contains(legacy[i]) || legacy.contains(legacy[i])));
        assert(legacy.contains(legacy[i]));
        assert(spec_normalize_tab_order(e, customs) == add_missing(e, legacy));
        assert(known_tab(legacy[i], customs));
    }
    lemma_add_missing_present(o, legacy);
}

/// A tab-bar size is at least one and, when there are tabs, at most their number; keeping
/// it in range a second time changes nothing.
pub proof fn lemma_bar_count_in_range(count: u8, tabs: nat)
    ensures
        spec_normalize_bar_count(count, tabs) >= 1,
        tabs > 0 && tabs <= 255 ==> spec_normalize_bar_count(count, tabs) <= tabs,
        tabs <= 255 ==> spec_normalize_bar_count(spec_normalize_bar_count(count, tabs), tabs) == spec_normalize_bar_count(count, tabs),
{
}

} // verus!
