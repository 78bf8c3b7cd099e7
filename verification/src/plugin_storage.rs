//! The storage that plugins keep in the store: every key a plugin names is stored behind
//! the `plugin_data_` prefix, and the key `plugin_data_<plugin id>/instances` is reserved
//! for the plugin's placed instances, which only the instance commands write.
use crate::model::{AppStoreData, AppStoreDataV};
use crate::strmap::Dup;
use crate::text::{chars_of, concat, contains_char, ends_with, has_prefix, has_suffix, slice_chars, starts_with, string_of};
use vstd::prelude::*;

verus! {

/// The prefix of every plugin storage key in the store.
pub open spec fn storage_prefix() -> Seq<char> {
    "plugin_data_"@
}

/// The ending of the key that holds a plugin's placed instances.
pub open spec fn instances_suffix() -> Seq<char> {
    "/instances"@
}

/// The store key for the key that a plugin names.
pub open spec fn storage_key(key: Seq<char>) -> Seq<char> {
    storage_prefix() + key
}

/// The part of an instances key between the prefix and the ending.
pub open spec fn instances_plugin_id(k: Seq<char>) -> Seq<char> {
    k.subrange(storage_prefix().len() as int, k.len() - instances_suffix().len())
}

/// Whether a store key is the one that holds a plugin's placed instances: the prefix, a
/// plugin id that is not empty and holds no `/`, then `/instances`.
pub open spec fn is_instances_key(k: Seq<char>) -> bool {
    &&& starts_with(k, storage_prefix())
    &&& ends_with(k, instances_suffix())
    &&& k.len() > storage_prefix().len() + instances_suffix().len()
    &&& !instances_plugin_id(k).contains('/')
}

/// Whether a clear with this prefix (none: everything) reaches a store key; with
/// `instances_only`, only instances keys are reached.
pub open spec fn in_scope(k: Seq<char>, prefix: Option<Seq<char>>, instances_only: bool) -> bool {
    &&& instances_only ==> is_instances_key(k)
    &&& match prefix {
        None => true,
        Some(p) => starts_with(k, p),
    }
}

/// A command on plugin storage. Values are JSON texts.
#[derive(Debug)]
pub enum PluginCommand {
    Put { key: String, value: String },
    Remove { key: String },
    /// Removes every plugin storage entry.
    Clear,
    /// Removes the entries whose plugin key starts with `prefix`.
    ClearByPrefix { prefix: String },
}

/// What a plugin storage command did.
#[derive(Debug)]
pub enum PluginOutcome {
    Stored,
    Removed,
    /// The store keys removed, in entry order, and the plugins whose placed instances went
    /// with them.
    Cleared { keys: Vec<String>, instance_plugins: Vec<String> },
}

/// [`in_scope`] as a predicate on keys.
pub open spec fn scope_pred(prefix: Option<Seq<char>>, instances_only: bool) -> spec_fn(Seq<char>) -> bool {
    |k: Seq<char>| in_scope(k, prefix, instances_only)
}

/// [`is_instances_key`] as a predicate on keys.
pub open spec fn instances_pred() -> spec_fn(Seq<char>) -> bool {
    |k: Seq<char>| is_instances_key(k)
}

/// [`instances_plugin_id`] as a function on keys.
pub open spec fn plugin_id_fn() -> spec_fn(Seq<char>) -> Seq<char> {
    |k: Seq<char>| instances_plugin_id(k)
}

/// The store keys that a clear removes, in entry order.
pub open spec fn cleared_keys(store: AppStoreData, prefix: Option<Seq<char>>, instances_only: bool) -> Seq<
    Seq<char>,
> {
    store.plugin_data.spec_keys().filter(scope_pred(prefix, instances_only))
}

/// The stored plugin data without any plugin's placed instances.
pub open spec fn instances_removed(m: Map<Seq<char>, Seq<char>>) -> Map<Seq<char>, Seq<char>> {
    m.remove_keys(Set::new(|k: Seq<char>| is_instances_key(k)))
}

/// The plugins whose instances key is among `keys`.
pub open spec fn instance_plugins_of(keys: Seq<Seq<char>>) -> Seq<Seq<char>> {
    keys.filter(instances_pred()).map_values(plugin_id_fn())
}

/// The store prefix of a clear command.
pub open spec fn clear_scope(command: PluginCommand) -> Option<Seq<char>> {
    match command {
        PluginCommand::ClearByPrefix { prefix } => Some(storage_key(prefix@)),
        _ => None,
    }
}

/// What a plugin storage command does to the store and answers. Setting or removing the
/// reserved instances key is refused and changes nothing.
pub open spec fn plugin_command_done(
    old: AppStoreData,
    command: PluginCommand,
    new: AppStoreDataV,
    r: Result<PluginOutcome, String>,
) -> bool {
    let o = old.deep_view();
    match command {
        PluginCommand::Put { key, value } => if is_instances_key(storage_key(key@)) {
            r is Err && new == o
        } else {
            &&& r matches Ok(PluginOutcome::Stored)
            &&& new == (AppStoreDataV {
                plugin_data: o.plugin_data.insert(storage_key(key@), value@),
                ..o
            })
        },
        PluginCommand::Remove { key } => if is_instances_key(storage_key(key@)) {
            r is Err && new == o
        } else {
            &&& r matches Ok(PluginOutcome::Removed)
            &&& new == (AppStoreDataV { plugin_data: o.plugin_data.remove(storage_key(key@)), ..o })
        },
        _ => {
            let gone = cleared_keys(old, clear_scope(command), false);
            &&& new == (AppStoreDataV { plugin_data: o.plugin_data.remove_keys(gone.to_set()), ..o })
            &&& r matches Ok(PluginOutcome::Cleared { keys, instance_plugins })
                && keys.deep_view() == gone && instance_plugins.deep_view() == instance_plugins_of(gone)
        },
    }
}

/// The characters of an optional text.
pub open spec fn opt_view(o: Option<String>) -> Option<Seq<char>> {
    match o {
        Some(p) => Some(p@),
        None => None,
    }
}

/// The store key for a key that a plugin names.
fn storage_key_of(key: &str) -> (r: String)
    ensures
        r@ == storage_key(key@),
{
    concat("plugin_data_", key)
}

/// The plugin whose instances a store key holds, if it is an instances key.
pub fn instances_key_plugin(k: &str) -> (r: Option<String>)
    ensures
        r is Some <==> is_instances_key(k@),
        r matches Some(id) ==> id@ == instances_plugin_id(k@),
{
    let c = chars_of(k);
    let pre = chars_of("plugin_data_");
    let suf = chars_of("/instances");
    if !has_prefix(&c, &pre) || !has_suffix(&c, &suf) {
        return None;
    }
    if c.len() - pre.len() <= suf.len() {
        return None;
    }
    let id = slice_chars(&c, pre.len(), c.len() - suf.len());
    if contains_char(&id, '/') {
        return None;
    }
    Some(string_of(&id))
}

/// Runs a plugin storage command on the store (see [`plugin_command_done`]).
pub fn apply_plugin_command(store: &mut AppStoreData, command: &PluginCommand) -> (r: Result<PluginOutcome, String>)
    ensures
        plugin_command_done(*old(store), *command, final(store).deep_view(), r),
{
    match command {
        PluginCommand::Put { key, value } => {
            let k = storage_key_of(key.as_str());
            if instances_key_plugin(k.as_str()).is_some() {
                return Err("PLUGIN_INSTANCES_KEY_RESERVED".to_string());
            }
            store.plugin_data.insert(k, value.dup());
            Ok(PluginOutcome::Stored)
        },
        PluginCommand::Remove { key } => {
            let k = storage_key_of(key.as_str());
            if instances_key_plugin(k.as_str()).is_some() {
                return Err("PLUGIN_INSTANCES_KEY_RESERVED".to_string());
            }
            store.plugin_data.remove(k.as_str());
            Ok(PluginOutcome::Removed)
        },
        PluginCommand::Clear => clear_storage(store, None, false),
        PluginCommand::ClearByPrefix { prefix } => {
            let p = storage_key_of(prefix.as_str());
            clear_storage(store, Some(p), false)
        },
    }
}

/// Whether a store key is reached by a clear with this prefix.
fn key_in_scope(k: &str, prefix: &Option<String>, instances_only: bool) -> (r: bool)
    ensures
        r == in_scope(k@, opt_view(*prefix), instances_only),
{
    if instances_only && instances_key_plugin(k).is_none() {
        return false;
    }
    match prefix {
        None => true,
        Some(p) => {
            let c = chars_of(k);
            let pc = chars_of(p.as_str());
            has_prefix(&c, &pc)
        },
    }
}

/// Removes the plugin storage entries in scope and reports them.
pub(crate) fn clear_storage(store: &mut AppStoreData, prefix: Option<String>, instances_only: bool) -> (r: Result<
    PluginOutcome,
    String,
>)
    ensures
        ({
            let gone = cleared_keys(*old(store), opt_view(prefix), instances_only);
            &&& final(store).deep_view() == (AppStoreDataV {
                plugin_data: old(store).deep_view().plugin_data.remove_keys(gone.to_set()),
                ..old(store).deep_view()
            })
            &&& r matches Ok(PluginOutcome::Cleared { keys, instance_plugins })
                && keys.deep_view() == gone && instance_plugins.deep_view() == instance_plugins_of(gone)
        }),
{
    let ghost scope: Option<Seq<char>> = opt_view(prefix);
    let ghost orig = store.plugin_data;
    let ghost keys_v = store.plugin_data.spec_keys();
    let all = store.plugin_data.keys();
    let mut gone: Vec<String> = Vec::new();
    let mut i: usize = 0;
    while i < all.len()
        invariant
            i <= all.len(),
            all@.len() == keys_v.len(),
            forall|j: int| 0 <= j < all@.len() ==> #[trigger] all@[j]@ == keys_v[j],
            gone.deep_view() == keys_v.take(i as int).filter(scope_pred(scope, instances_only)),
            scope == opt_view(prefix),
        decreases all.len() - i,
    {
        assert(keys_v.take(i + 1).drop_last() =~= keys_v.take(i as int));
        assert(keys_v.take(i + 1).last() == all@[i as int]@);
        let ghost f = keys_v.take(i as int).filter(scope_pred(scope, instances_only));
        assert(keys_v.take(i + 1).filter(scope_pred(scope, instances_only)) == if in_scope(
            all@[i as int]@,
            scope,
            instances_only,
        ) {
            f.push(all@[i as int]@)
        } else {
            f
        }) by {
            reveal(Seq::filter);
        }
        if key_in_scope(all[i].as_str(), &prefix, instances_only) {
            let ghost before = gone.deep_view();
            gone.push(all[i].clone());
            assert(gone.deep_view() =~= before.push(all@[i as int]@));
        }
        i += 1;
    }
    assert(keys_v.take(all.len() as int) =~= keys_v);
    let ghost gone_v = gone.deep_view();
    let mut plugins: Vec<String> = Vec::new();
    let mut a: usize = 0;
    while a < gone.len()
        invariant
            a <= gone.len(),
            gone.deep_view() == gone_v,
            store.plugin_data@ == orig@.remove_keys(gone_v.take(a as int).to_set()),
            store.deep_view() == (AppStoreDataV {
                plugin_data: store.plugin_data.deep_view(),
                ..old(store).deep_view()
            }),
            plugins.deep_view() == instance_plugins_of(gone_v.take(a as int)),
        decreases gone.len() - a,
    {
        let ghost k = gone_v[a as int];
        assert(gone_v.take(a + 1).drop_last() =~= gone_v.take(a as int));
        assert(gone_v.take(a + 1).last() == k);
        assert(gone_v.take(a + 1).to_set() =~= gone_v.take(a as int).to_set().insert(k)) by {
            assert forall|x: Seq<char>| gone_v.take(a + 1).contains(x) implies x == k
                || gone_v.take(a as int).contains(x) by {
                let j = choose|j: int| 0 <= j < a + 1 && #[trigger] gone_v.take(a + 1)[j] == x;
                if j < a {
                    assert(gone_v.take(a as int)[j] == x);
                }
            }
            assert(gone_v.take(a + 1)[a as int] == k);
            assert forall|x: Seq<char>| gone_v.take(a as int).contains(x) implies gone_v.take(a + 1).contains(x) by {
                let j = choose|j: int| 0 <= j < a && #[trigger] gone_v.take(a as int)[j] == x;
                assert(gone_v.take(a + 1)[j] == x);
            }
        }
        let ghost before = store.plugin_data@;
        store.plugin_data.remove(gone[a].as_str());
        assert(store.plugin_data@ =~= orig@.remove_keys(gone_v.take(a + 1).to_set()));
        let ghost pv = plugins.deep_view();
        match instances_key_plugin(gone[a].as_str()) {
            Some(id) => {
                plugins.push(id);
                assert(plugins.deep_view() =~= pv.push(instances_plugin_id(k)));
            },
            None => {},
        }
        let ghost f = gone_v.take(a as int).filter(instances_pred());
        assert(gone_v.take(a + 1).filter(instances_pred()) == if is_instances_key(k) {
            f.push(k)
        } else {
            f
        }) by {
            reveal(Seq::filter);
        }
        assert(f.push(k).map_values(plugin_id_fn()) =~= f.map_values(plugin_id_fn()).push(
            instances_plugin_id(k),
        ));
        a += 1;
    }
    assert(gone_v.take(gone_v.len() as int) =~= gone_v);
    assert(gone_v == cleared_keys(*old(store), opt_view(prefix), instances_only));
    Ok(PluginOutcome::Cleared { keys: gone, instance_plugins: plugins })
}

/// What a plugin reads at one of its keys: the stored JSON text, if any.
pub fn plugin_storage_get(store: &AppStoreData, key: &str) -> (r: Option<String>)
    ensures
        r matches Some(v) ==> store.plugin_data@.contains_key(storage_key(key@)) && v@
            == store.plugin_data@[storage_key(key@)],
        r is None ==> !store.plugin_data@.contains_key(storage_key(key@)),
{
    let k = storage_key_of(key);
    match store.plugin_data.get(k.as_str()) {
        Some(v) => Some(v.dup()),
        None => None,
    }
}

/// Whether a store key is a plugin storage key.
pub open spec fn prefixed_pred() -> spec_fn(Seq<char>) -> bool {
    |k: Seq<char>| starts_with(k, storage_prefix())
}

/// A plugin storage key without its prefix.
pub open spec fn strip_fn() -> spec_fn(Seq<char>) -> Seq<char> {
    |k: Seq<char>| k.skip(storage_prefix().len() as int)
}

/// The keys that plugins stored, without the prefix, in entry order.
pub fn plugin_storage_keys(store: &AppStoreData) -> (r: Vec<String>)
    ensures
        r.deep_view() == store.plugin_data.spec_keys().filter(prefixed_pred()).map_values(strip_fn()),
{
    let ghost keys_v = store.plugin_data.spec_keys();
    let ghost sel = prefixed_pred();
    let ghost strip = strip_fn();
    let all = store.plugin_data.keys();
    let pre = chars_of("plugin_data_");
    let mut out: Vec<String> = Vec::new();
    let mut i: usize = 0;
    while i < all.len()
        invariant
            i <= all.len(),
            pre@ == storage_prefix(),
            all@.len() == keys_v.len(),
            forall|j: int| 0 <= j < all@.len() ==> #[trigger] all@[j]@ == keys_v[j],
            out.deep_view() == keys_v.take(i as int).filter(sel).map_values(strip),
            sel == prefixed_pred(),
            strip == strip_fn(),
        decreases all.len() - i,
    {
        let ghost f = keys_v.take(i as int).filter(sel);
        assert(keys_v.take(i + 1).drop_last() =~= keys_v.take(i as int));
        assert(keys_v.take(i + 1).last() == all@[i as int]@);
        assert(keys_v.take(i + 1).filter(sel) == if sel(all@[i as int]@) {
            f.push(all@[i as int]@)
        } else {
            f
        }) by {
            reveal(Seq::filter);
        }
        let c = chars_of(all[i].as_str());
        if has_prefix(&c, &pre) {
            let ghost before = out.deep_view();
            let rest = slice_chars(&c, pre.len(), c.len());
            out.push(string_of(&rest));
            assert(rest@ =~= all@[i as int]@.skip(storage_prefix().len() as int));
            assert(f.push(all@[i as int]@).map_values(strip) =~= f.map_values(strip).push(
                strip(all@[i as int]@),
            ));
            assert(out.deep_view() =~= before.push(strip(all@[i as int]@)));
        }
        i += 1;
    }
    assert(keys_v.take(all.len() as int) =~= keys_v);
    out
}

/// Whether any plugin storage entry is reached by a clear with this plugin prefix.
pub fn plugin_storage_has_data(store: &AppStoreData, prefix: &str) -> (r: bool)
    ensures
        r == exists|k: Seq<char>| #[trigger] store.plugin_data@.contains_key(k) && starts_with(
            k,
            storage_key(prefix@),
        ),
{
    let p = chars_of(storage_key_of(prefix).as_str());
    let n = store.plugin_data.len();
    let mut i: usize = 0;
    store.plugin_data.check_wf();
    while i < n
        invariant
            i <= n,
            n == store.plugin_data.spec_len(),
            p@ == storage_key(prefix@),
            store.plugin_data.wf(),
            forall|j: int| 0 <= j < i ==> !starts_with(#[trigger] store.plugin_data.spec_key(j), p@),
        decreases n - i,
    {
        let c = chars_of(store.plugin_data.key_at(i).as_str());
        if has_prefix(&c, &p) {
            proof {
                store.plugin_data.lemma_index(i as int);
            }
            return true;
        }
        i += 1;
    }
    proof {
        assert forall|k: Seq<char>| #[trigger] store.plugin_data@.contains_key(k) implies !starts_with(
            k,
            storage_key(prefix@),
        ) by {
            let j = store.plugin_data.lemma_key(k);
        }
    }
    false
}

/// The keys that a clear removes are the stored keys in its scope.
pub proof fn lemma_cleared_set(store: AppStoreData, prefix: Option<Seq<char>>, instances_only: bool)
    requires
        store.plugin_data.wf(),
    ensures
        forall|k: Seq<char>|
            #[trigger] cleared_keys(store, prefix, instances_only).to_set().contains(k) <==> (
            store.plugin_data@.contains_key(k) && in_scope(k, prefix, instances_only)),
{
    let keys_v = store.plugin_data.spec_keys();
    let pred = scope_pred(prefix, instances_only);
    assert forall|k: Seq<char>|
        #[trigger] cleared_keys(store, prefix, instances_only).to_set().contains(k) <==> (
        store.plugin_data@.contains_key(k) && in_scope(k, prefix, instances_only)) by {
        let c = keys_v.filter(pred);
        if c.to_set().contains(k) {
            let i = choose|i: int| 0 <= i < c.len() && #[trigger] c[i] == k;
            keys_v.lemma_filter_pred(pred, i);
            assert(c.contains(k));
            keys_v.lemma_filter_contains_rev(pred, k);
            let j = choose|j: int| 0 <= j < keys_v.len() && #[trigger] keys_v[j] == k;
            store.plugin_data.lemma_index(j);
        }
        if store.plugin_data@.contains_key(k) && in_scope(k, prefix, instances_only) {
            let j = store.plugin_data.lemma_key(k);
            assert(keys_v[j] == k);
            keys_v.lemma_filter_contains(pred, j);
        }
    }
}

/// A plugin reads back what it stored at a key that is not reserved.
pub proof fn lemma_get_after_put(
    before: AppStoreData,
    after: AppStoreData,
    key: String,
    value: String,
    r: Result<PluginOutcome, String>,
)
    requires
        plugin_command_done(before, PluginCommand::Put { key, value }, after.deep_view(), r),
        !is_instances_key(storage_key(key@)),
    ensures
        after.plugin_data@.contains_key(storage_key(key@)),
        after.plugin_data@[storage_key(key@)] == value@,
{
}

/// After a plugin removes a key that is not reserved, nothing is stored at it.
pub proof fn lemma_get_after_remove(
    before: AppStoreData,
    after: AppStoreData,
    key: String,
    r: Result<PluginOutcome, String>,
)
    requires
        plugin_command_done(before, PluginCommand::Remove { key }, after.deep_view(), r),
        !is_instances_key(storage_key(key@)),
    ensures
        !after.plugin_data@.contains_key(storage_key(key@)),
{
}

/// After a clear by a prefix, no stored key starts with that prefix any more, and the keys
/// outside it keep their values.
pub proof fn lemma_no_data_after_clear(
    before: AppStoreData,
    after: AppStoreData,
    prefix: String,
    r: Result<PluginOutcome, String>,
)
    requires
        before.plugin_data.wf(),
        plugin_command_done(before, PluginCommand::ClearByPrefix { prefix }, after.deep_view(), r),
    ensures
        forall|k: Seq<char>| #[trigger] after.plugin_data@.contains_key(k) ==> !starts_with(
            k,
            storage_key(prefix@),
        ),
        forall|k: Seq<char>|
            #[trigger] before.plugin_data@.contains_key(k) && !starts_with(k, storage_key(prefix@))
                ==> after.plugin_data@.contains_key(k) && after.plugin_data@[k] == before.plugin_data@[k],
{
    let p = Some(storage_key(prefix@));
    lemma_cleared_set(before, p, false);
    assert forall|k: Seq<char>| #[trigger] after.plugin_data@.contains_key(k) implies !starts_with(
        k,
        storage_key(prefix@),
    ) by {
        if starts_with(k, storage_key(prefix@)) {
            assert(cleared_keys(before, p, false).to_set().contains(k));
        }
    }
    assert forall|k: Seq<char>|
        #[trigger] before.plugin_data@.contains_key(k) && !starts_with(k, storage_key(prefix@))
            implies after.plugin_data@.contains_key(k) && after.plugin_data@[k] == before.plugin_data@[k] by {
        assert(!cleared_keys(before, p, false).to_set().contains(k));
    }
}

} // verus!
