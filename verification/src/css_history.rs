//! The list of recently loaded custom style sheets: newest first, one entry per file, at
//! most ten entries.
use crate::text::str_eq;
use vstd::prelude::*;

verus! {

/// How many style sheets the list keeps.
pub const MAX_CUSTOM_CSS_HISTORY_ENTRIES: usize = 10;

/// A style sheet that was loaded, with when it was loaded and last used.
pub struct CustomCssHistoryEntry {
    pub path: String,
    pub loaded_at: i64,
    pub last_used_at: i64,
}

/// Value of [`CustomCssHistoryEntry`] in specifications.
pub struct CustomCssHistoryEntryV {
    pub path: Seq<char>,
    pub loaded_at: i64,
    pub last_used_at: i64,
}

impl DeepView for CustomCssHistoryEntry {
    type V = CustomCssHistoryEntryV;

    open spec fn deep_view(&self) -> CustomCssHistoryEntryV {
        CustomCssHistoryEntryV { path: self.path@, loaded_at: self.loaded_at, last_used_at: self.last_used_at }
    }
}

impl crate::strmap::Dup for CustomCssHistoryEntry {
    fn dup(&self) -> (r: Self) {
        CustomCssHistoryEntry { path: self.path.clone(), loaded_at: self.loaded_at, last_used_at: self.last_used_at }
    }
}

impl CustomCssHistoryEntry {
    fn copy(&self) -> (r: Self)
        ensures
            r.deep_view() == self.deep_view(),
    {
        CustomCssHistoryEntry { path: self.path.clone(), loaded_at: self.loaded_at, last_used_at: self.last_used_at }
    }
}

type Entries = Seq<CustomCssHistoryEntryV>;

/// The entries whose flag is set.
pub open spec fn keep_flagged(s: Entries, flags: Seq<bool>) -> Entries
    decreases s.len(),
{
    if s.len() == 0 {
        s
    } else {
        let r = keep_flagged(s.drop_last(), flags);
        if flags[s.len() - 1] {
            r.push(s.last())
        } else {
            r
        }
    }
}

/// Where an entry loaded at `k` goes in a newest-first list: after every entry loaded at
/// the same time or later.
pub open spec fn first_older(s: Entries, k: i64) -> nat
    decreases s.len(),
{
    if s.len() == 0 {
        0
    } else if s[0].loaded_at < k {
        0
    } else {
        1 + first_older(s.drop_first(), k)
    }
}

/// A newest-first list with one more entry, placed after those loaded at the same time.
pub open spec fn insert_newest_first(s: Entries, x: CustomCssHistoryEntryV) -> Entries {
    s.insert(first_older(s, x.loaded_at) as int, x)
}

/// The entries newest first; entries loaded at the same time keep their order.
pub open spec fn sort_newest_first(s: Entries) -> Entries
    decreases s.len(),
{
    if s.len() == 0 {
        s
    } else {
        insert_newest_first(sort_newest_first(s.drop_last()), s.last())
    }
}

/// An entry for the same file comes earlier.
pub open spec fn has_path(s: Entries, p: Seq<char>) -> bool {
    exists|i: int| 0 <= i < s.len() && #[trigger] s[i].path == p
}

/// The first entry of each file.
pub open spec fn first_per_path(s: Entries) -> Entries
    decreases s.len(),
{
    if s.len() == 0 {
        s
    } else {
        let r = first_per_path(s.drop_last());
        if has_path(s.drop_last(), s.last().path) {
            r
        } else {
            r.push(s.last())
        }
    }
}

/// `a` was used (then loaded) before `b`.
pub open spec fn used_before(a: CustomCssHistoryEntryV, b: CustomCssHistoryEntryV) -> bool {
    a.last_used_at < b.last_used_at || (a.last_used_at == b.last_used_at && a.loaded_at < b.loaded_at)
}

/// `i` is the first of the least recently used entries.
pub open spec fn is_eviction_index(s: Entries, i: int) -> bool {
    &&& 0 <= i < s.len()
    &&& forall|j: int| 0 <= j < i ==> used_before(s[i], #[trigger] s[j])
    &&& forall|j: int| i < j < s.len() ==> !used_before(#[trigger] s[j], s[i])
}

/// The entry that leaves a full list first.
pub open spec fn eviction_index(s: Entries) -> int {
    choose|i: int| is_eviction_index(s, i)
}

/// The list after the least recently used entries leave, until at most ten remain.
pub open spec fn evict(s: Entries) -> Entries
    decreases s.len(),
{
    if s.len() <= MAX_CUSTOM_CSS_HISTORY_ENTRIES {
        s
    } else {
        let i = eviction_index(s);
        if 0 <= i < s.len() {
            evict(s.remove(i))
        } else {
            s
        }
    }
}

/// The cleaned-up list: entries whose flag says their path is absolute, newest first, one
/// per file (the newest), at most ten (the least recently used leave), newest first.
pub open spec fn normalized_history(s: Entries, absolute: Seq<bool>) -> Entries {
    sort_newest_first(evict(first_per_path(sort_newest_first(keep_flagged(s, absolute)))))
}

proof fn lemma_first_older(s: Entries, k: i64, p: int)
    requires
        0 <= p <= s.len(),
        forall|j: int| 0 <= j < p ==> s[j].loaded_at >= k,
        p < s.len() ==> s[p].loaded_at < k,
    ensures
        first_older(s, k) == p,
    decreases s.len(),
{
    if s.len() > 0 && p > 0 {
        lemma_first_older(s.drop_first(), k, p - 1);
    }
}

fn insert_by_load(out: &mut Vec<CustomCssHistoryEntry>, x: CustomCssHistoryEntry)
    ensures
        final(out).deep_view() == insert_newest_first(old(out).deep_view(), x.deep_view()),
{
    let ghost o = out.deep_view();
    let mut p: usize = 0;
    while p < out.len() && out[p].loaded_at >= x.loaded_at
        invariant
            p <= out.len(),
            out.deep_view() == o,
            forall|j: int| 0 <= j < p ==> o[j].loaded_at >= x.loaded_at,
        decreases out.len() - p,
    {
        p += 1;
    }
    proof {
        lemma_first_older(o, x.loaded_at, p as int);
    }
    let ghost xv = x.deep_view();
    out.insert(p, x);
    assert(out.deep_view() =~= o.insert(p as int, xv));
}

fn sort_by_load(s: Vec<CustomCssHistoryEntry>) -> (r: Vec<CustomCssHistoryEntry>)
    ensures
        r.deep_view() == sort_newest_first(s.deep_view()),
{
    let mut out: Vec<CustomCssHistoryEntry> = Vec::new();
    let mut i: usize = 0;
    while i < s.len()
        invariant
            i <= s.len(),
            out.deep_view() == sort_newest_first(s.deep_view().take(i as int)),
        decreases s.len() - i,
    {
        let ghost pre = s.deep_view().take(i + 1);
        assert(pre.drop_last() =~= s.deep_view().take(i as int));
        insert_by_load(&mut out, s[i].copy());
        i += 1;
    }
    assert(s.deep_view().take(s.len() as int) =~= s.deep_view());
    out
}

fn keep_absolute(s: &Vec<CustomCssHistoryEntry>, absolute: &Vec<bool>) -> (r: Vec<CustomCssHistoryEntry>)
    requires
        absolute@.len() == s.len(),
    ensures
        r.deep_view() == keep_flagged(s.deep_view(), absolute@),
{
    let mut out: Vec<CustomCssHistoryEntry> = Vec::new();
    let mut i: usize = 0;
    while i < s.len()
        invariant
            i <= s.len(),
            absolute@.len() == s.len(),
            out.deep_view() == keep_flagged(s.deep_view().take(i as int), absolute@),
        decreases s.len() - i,
    {
        let ghost pre = s.deep_view().take(i + 1);
        assert(pre.drop_last() =~= s.deep_view().take(i as int));
        if absolute[i] {
            let ghost before = out.deep_view();
            out.push(s[i].copy());
            assert(out.deep_view() =~= before.push(s.deep_view()[i as int]));
        }
        i += 1;
    }
    assert(s.deep_view().take(s.len() as int) =~= s.deep_view());
    out
}

fn dedupe_paths(s: &Vec<CustomCssHistoryEntry>) -> (r: Vec<CustomCssHistoryEntry>)
    ensures
        r.deep_view() == first_per_path(s.deep_view()),
{
    let mut out: Vec<CustomCssHistoryEntry> = Vec::new();
    let mut i: usize = 0;
    while i < s.len()
        invariant
            i <= s.len(),
            out.deep_view() == first_per_path(s.deep_view().take(i as int)),
        decreases s.len() - i,
    {
        let ghost pre = s.deep_view().take(i + 1);
        assert(pre.drop_last() =~= s.deep_view().take(i as int));
        let mut seen = false;
        let mut j: usize = 0;
        while j < i
            invariant
                j <= i < s.len(),
                seen == has_path(s.deep_view().take(j as int), s.deep_view()[i as int].path),
            decreases i - j,
        {
            if str_eq(s[j].path.as_str(), s[i].path.as_str()) {
                seen = true;
            }
            proof {
                let t = s.deep_view().take(j + 1);
                let p = s.deep_view()[i as int].path;
                if has_path(t, p) {
                    let w = choose|w: int| 0 <= w < t.len() && #[trigger] t[w].path == p;
                    if w < j {
                        assert(s.deep_view().take(j as int)[w].path == p);
                    }
                }
                if has_path(s.deep_view().take(j as int), p) {
                    let w = choose|w: int| 0 <= w < j && #[trigger] s.deep_view().take(j as int)[w].path == p;
                    assert(t[w].path == p);
                }
                if s.deep_view()[j as int].path == p {
                    assert(t[j as int].path == p);
                }
            }
            j += 1;
        }
        proof {
            assert(s.deep_view().take(i as int) == pre.drop_last());
        }
        if !seen {
            let ghost before = out.deep_view();
            out.push(s[i].copy());
            assert(out.deep_view() =~= before.push(s.deep_view()[i as int]));
        }
        i += 1;
    }
    assert(s.deep_view().take(s.len() as int) =~= s.deep_view());
    out
}

fn eviction_position(s: &Vec<CustomCssHistoryEntry>) -> (i: usize)
    requires
        s.len() > 0,
    ensures
        is_eviction_index(s.deep_view(), i as int),
{
    let mut best: usize = 0;
    let mut k: usize = 1;
    while k < s.len()
        invariant
            1 <= k <= s.len(),
            best < k,
            forall|j: int| 0 <= j < best ==> used_before(s.deep_view()[best as int], #[trigger] s.deep_view()[j]),
            forall|j: int| best < j < k ==> !used_before(#[trigger] s.deep_view()[j], s.deep_view()[best as int]),
        decreases s.len() - k,
    {
        let a = &s[k];
        let b = &s[best];
        if a.last_used_at < b.last_used_at || (a.last_used_at == b.last_used_at && a.loaded_at < b.loaded_at) {
            proof {
                assert forall|j: int| 0 <= j < k implies used_before(s.deep_view()[k as int], #[trigger] s.deep_view()[j]) by {
                    if j < best {
                        assert(used_before(s.deep_view()[best as int], s.deep_view()[j]));
                    } else if j > best {
                        assert(!used_before(s.deep_view()[j], s.deep_view()[best as int]));
                    }
                }
            }
            best = k;
        }
        k += 1;
    }
    best
}

proof fn lemma_eviction_unique(s: Entries, i: int)
    requires
        is_eviction_index(s, i),
    ensures
        eviction_index(s) == i,
{
    let w = eviction_index(s);
    assert(is_eviction_index(s, w));
    if w < i {
        assert(used_before(s[i], s[w]));
        assert(!used_before(s[i], s[w]));
    }
    if i < w {
        assert(used_before(s[w], s[i]));
        assert(!used_before(s[w], s[i]));
    }
}

fn evict_least_used(s: Vec<CustomCssHistoryEntry>) -> (r: Vec<CustomCssHistoryEntry>)
    ensures
        r.deep_view() == evict(s.deep_view()),
{
    let mut cur = s;
    while cur.len() > MAX_CUSTOM_CSS_HISTORY_ENTRIES
        invariant
            evict(cur.deep_view()) == evict(s.deep_view()),
        decreases cur.len(),
    {
        let i = eviction_position(&cur);
        proof {
            lemma_eviction_unique(cur.deep_view(), i as int);
        }
        let ghost before = cur.deep_view();
        cur.remove(i);
        assert(cur.deep_view() =~= before.remove(i as int));
    }
    cur
}

fn same_entries(a: &Vec<CustomCssHistoryEntry>, b: &Vec<CustomCssHistoryEntry>) -> (r: bool)
    ensures
        r == (a.deep_view() == b.deep_view()),
{
    if a.len() != b.len() {
        assert(a.deep_view().len() != b.deep_view().len());
        return false;
    }
    let mut i: usize = 0;
    while i < a.len()
        invariant
            i <= a.len(),
            a.len() == b.len(),
            forall|j: int| 0 <= j < i ==> a.deep_view()[j] == b.deep_view()[j],
        decreases a.len() - i,
    {
        if !str_eq(a[i].path.as_str(), b[i].path.as_str()) || a[i].loaded_at != b[i].loaded_at
            || a[i].last_used_at != b[i].last_used_at {
            assert(a.deep_view()[i as int] != b.deep_view()[i as int]);
            return false;
        }
        i += 1;
    }
    assert(a.deep_view() =~= b.deep_view());
    true
}

/// Cleans up the list, `absolute` telling for each entry whether its path is absolute:
/// keeps the absolute ones, the newest per file, at most ten (the least recently used
/// leave), newest first. Returns whether the list changed.
pub fn normalize_custom_css_history_with(history: &mut Vec<CustomCssHistoryEntry>, absolute: &Vec<bool>) -> (r: bool)
    requires
        absolute@.len() == old(history).len(),
    ensures
        final(history).deep_view() == normalized_history(old(history).deep_view(), absolute@),
        r == (final(history).deep_view() != old(history).deep_view()),
{
    let kept = keep_absolute(history, absolute);
    let sorted = sort_by_load(kept);
    let unique = dedupe_paths(&sorted);
    let bounded = evict_least_used(unique);
    let result = sort_by_load(bounded);
    let changed = !same_entries(&result, history);
    *history = result;
    changed
}

/// Calls `std::path::Path::is_absolute`. What counts as absolute depends on the platform
/// (a leading `/` on Unix; a prefix and a root on Windows), so nothing is stated of it.
#[verifier::external_body]
fn path_is_absolute(path: &str) -> (r: bool) {
    std::path::Path::new(path).is_absolute()
}

fn absolute_flags(history: &Vec<CustomCssHistoryEntry>) -> (r: Vec<bool>)
    ensures
        r@.len() == history.len(),
{
    let mut flags: Vec<bool> = Vec::new();
    let mut i: usize = 0;
    while i < history.len()
        invariant
            i <= history.len(),
            flags@.len() == i,
        decreases history.len() - i,
    {
        flags.push(path_is_absolute(history[i].path.as_str()));
        i += 1;
    }
    flags
}

/// Cleans up the list as [`normalize_custom_css_history_with`] does, asking the platform
/// which paths are absolute. Returns whether the list changed.
pub fn normalize_custom_css_history(history: &mut Vec<CustomCssHistoryEntry>) -> (r: bool)
    ensures
        exists|absolute: Seq<bool>|
            absolute.len() == old(history).len() && #[trigger] normalized_history(old(history).deep_view(), absolute)
                == final(history).deep_view(),
        r == (final(history).deep_view() != old(history).deep_view()),
{
    let flags = absolute_flags(history);
    normalize_custom_css_history_with(history, &flags)
}

/// Entries loaded at time zero take their last-use time as load time.
pub open spec fn migrated_timestamps(s: Entries) -> Entries {
    s.map_values(
        |e: CustomCssHistoryEntryV|
            if e.loaded_at == 0 {
                CustomCssHistoryEntryV { loaded_at: e.last_used_at, ..e }
            } else {
                e
            },
    )
}

/// Gives entries loaded at time zero their last-use time as load time. Returns whether
/// any entry had load time zero.
pub fn migrate_custom_css_history_timestamps(history: &mut Vec<CustomCssHistoryEntry>) -> (r: bool)
    ensures
        final(history).deep_view() == migrated_timestamps(old(history).deep_view()),
        r == exists|i: int| 0 <= i < old(history).len() && #[trigger] old(history).deep_view()[i].loaded_at == 0,
{
    let ghost h0 = history.deep_view();
    let mut changed = false;
    let mut i: usize = 0;
    while i < history.len()
        invariant
            i <= history.len(),
            h0.len() == history.len(),
            changed == exists|j: int| 0 <= j < i && #[trigger] h0[j].loaded_at == 0,
            forall|j: int| i <= j < history.len() ==> history.deep_view()[j] == h0[j],
            forall|j: int| 0 <= j < i ==> #[trigger] history.deep_view()[j] == migrated_timestamps(h0)[j],
        decreases history.len() - i,
    {
        assert(history.deep_view()[i as int] == h0[i as int]);
        proof {
            if exists|j: int| 0 <= j < i + 1 && #[trigger] h0[j].loaded_at == 0 {
                let w = choose|w: int| 0 <= w < i + 1 && #[trigger] h0[w].loaded_at == 0;
                if w < i {
                    assert(0 <= w < i && h0[w].loaded_at == 0);
                }
            }
            if h0[i as int].loaded_at == 0 {
                assert(0 <= i < i + 1 && h0[i as int].loaded_at == 0);
            }
        }
        if history[i].loaded_at == 0 {
            let mut e = history[i].copy();
            e.loaded_at = e.last_used_at;
            let ghost before = history.deep_view();
            history.set(i, e);
            assert(history.deep_view() =~= before.update(i as int, e.deep_view()));
            changed = true;
        }
        i += 1;
    }
    assert(history.deep_view() =~= migrated_timestamps(h0));
    changed
}

/// The list with the active style sheet added (loaded and used at `timestamp`) when its
/// path is absolute and no entry has it.
pub open spec fn with_active(s: Entries, active: Option<Seq<char>>, active_absolute: bool, timestamp: i64) -> Entries {
    match active {
        Some(p) => if active_absolute && !has_path(s, p) {
            s.push(CustomCssHistoryEntryV { path: p, loaded_at: timestamp, last_used_at: timestamp })
        } else {
            s
        },
        None => s,
    }
}

/// Brings a stored list up to date when the application loads: migrates load times, adds
/// the active style sheet when its path is absolute and the list lacks it, and cleans the
/// list up. Returns whether the list changed.
pub fn migrate_custom_css_history_at_load(
    history: &mut Vec<CustomCssHistoryEntry>,
    active_path: Option<&str>,
    timestamp: i64,
) -> (r: bool)
    ensures
        exists|active_absolute: bool, absolute: Seq<bool>|
            #[trigger] normalized_history(
                with_active(migrated_timestamps(old(history).deep_view()), active_path.deep_view(), active_absolute, timestamp),
                absolute,
            ) == final(history).deep_view() && absolute.len() == with_active(
                migrated_timestamps(old(history).deep_view()),
                active_path.deep_view(),
                active_absolute,
                timestamp,
            ).len(),
        r == (final(history).deep_view() != old(history).deep_view()),
{
    let mut original: Vec<CustomCssHistoryEntry> = Vec::new();
    let mut i: usize = 0;
    while i < history.len()
        invariant
            i <= history.len(),
            original.deep_view() =~= history.deep_view().take(i as int),
        decreases history.len() - i,
    {
        let ghost before = original.deep_view();
        original.push(history[i].copy());
        assert(original.deep_view() =~= before.push(history.deep_view()[i as int]));
        i += 1;
    }
    assert(history.deep_view().take(history.len() as int) =~= history.deep_view());
    migrate_custom_css_history_timestamps(history);
    let ghost migrated = history.deep_view();
    let mut active_absolute = false;
    match active_path {
        Some(path) => {
            active_absolute = path_is_absolute(path);
            if active_absolute {
                let mut found = false;
                let mut j: usize = 0;
                while j < history.len()
                    invariant
                        j <= history.len(),
                        found == has_path(history.deep_view().take(j as int), path@),
                    decreases history.len() - j,
                {
                    let same = str_eq(history[j].path.as_str(), path);
                    proof {
                        let t = history.deep_view().take(j + 1);
                        let u = history.deep_view().take(j as int);
                        assert(t[j as int] == history.deep_view()[j as int]);
                        assert(history.deep_view()[j as int].path == history[j as int].path@);
                        if same {
                            assert(t[j as int].path == path@);
                        }
                        if has_path(t, path@) {
                            let w = choose|w: int| 0 <= w < t.len() && #[trigger] t[w].path == path@;
                            if w < j {
                                assert(u[w].path == path@);
                            }
                        }
                        if has_path(u, path@) {
                            let w = choose|w: int| 0 <= w < u.len() && #[trigger] u[w].path == path@;
                            assert(t[w].path == path@);
                        }
                    }
                    if same {
                        found = true;
                    }
                    j += 1;
                }
                assert(history.deep_view().take(history.len() as int) =~= history.deep_view());
                if !found {
                    let ghost before = history.deep_view();
                    let entry = CustomCssHistoryEntry {
                        path: crate::text::string_of(&crate::text::chars_of(path)),
                        loaded_at: timestamp,
                        last_used_at: timestamp,
                    };
                    history.push(entry);
                    assert(history.deep_view() =~= before.push(entry.deep_view()));
                }
            }
        },
        None => {},
    }
    let ghost added = history.deep_view();
    assert(added == with_active(migrated, active_path.deep_view(), active_absolute, timestamp));
    let flags = absolute_flags(history);
    normalize_custom_css_history_with(history, &flags);
    !same_entries(history, &original)
}

/// No two entries are for the same file.
pub open spec fn paths_distinct(s: Entries) -> bool {
    forall|i: int, j: int| 0 <= i < s.len() && 0 <= j < s.len() && i != j ==> #[trigger] s[i].path != #[trigger] s[j].path
}

/// Newest first.
pub open spec fn newest_first(s: Entries) -> bool {
    forall|i: int, j: int| 0 <= i < j < s.len() ==> #[trigger] s[i].loaded_at >= #[trigger] s[j].loaded_at
}

proof fn lemma_first_older_bounds(s: Entries, k: i64)
    ensures
        first_older(s, k) <= s.len(),
        forall|j: int| 0 <= j < first_older(s, k) ==> #[trigger] s[j].loaded_at >= k,
        newest_first(s) && first_older(s, k) < s.len() ==> forall|j: int|
            first_older(s, k) <= j < s.len() ==> #[trigger] s[j].loaded_at < k,
    decreases s.len(),
{
    if s.len() > 0 && s[0].loaded_at >= k {
        let t = s.drop_first();
        lemma_first_older_bounds(t, k);
        assert forall|j: int| 0 <= j < first_older(s, k) implies #[trigger] s[j].loaded_at >= k by {
            if j > 0 {
                assert(s[j] == t[j - 1]);
            }
        }
        if newest_first(s) {
            assert forall|a: int, b: int| 0 <= a < b < t.len() implies #[trigger] t[a].loaded_at >= #[trigger] t[b].loaded_at by {
                assert(t[a] == s[a + 1] && t[b] == s[b + 1]);
            }
            assert forall|j: int| first_older(s, k) <= j < s.len() implies #[trigger] s[j].loaded_at < k by {
                assert(s[j] == t[j - 1]);
            }
        }
    } else if s.len() > 0 && newest_first(s) {
        assert forall|j: int| 0 <= j < s.len() implies #[trigger] s[j].loaded_at < k by {
            if j > 0 {
                assert(s[0].loaded_at >= s[j].loaded_at);
            }
        }
    }
}

proof fn lemma_insert_keeps(s: Entries, x: CustomCssHistoryEntryV)
    requires
        newest_first(s),
    ensures
        newest_first(insert_newest_first(s, x)),
        insert_newest_first(s, x).len() == s.len() + 1,
        forall|e: CustomCssHistoryEntryV| #[trigger] insert_newest_first(s, x).contains(e) <==> (s.contains(e) || e == x),
        paths_distinct(s) && !(exists|i: int| 0 <= i < s.len() && #[trigger] s[i].path == x.path) ==> paths_distinct(
            insert_newest_first(s, x),
        ),
{
    let p = first_older(s, x.loaded_at) as int;
    lemma_first_older_bounds(s, x.loaded_at);
    let n = insert_newest_first(s, x);
    assert(n == s.insert(p, x));
    assert forall|i: int| 0 <= i < n.len() implies #[trigger] n[i] == (if i < p { s[i] } else if i == p { x } else { s[i - 1] }) by {}
    assert forall|i: int, j: int| 0 <= i < j < n.len() implies #[trigger] n[i].loaded_at >= #[trigger] n[j].loaded_at by {
        if j < p {
        } else if j == p {
        } else if i < p {
            assert(s[i].loaded_at >= s[j - 1].loaded_at);
        } else if i == p {
            assert(s[j - 1].loaded_at < x.loaded_at);
        } else {
            assert(s[i - 1].loaded_at >= s[j - 1].loaded_at);
        }
    }
    assert forall|e: CustomCssHistoryEntryV| #[trigger] n.contains(e) <==> (s.contains(e) || e == x) by {
        if n.contains(e) {
            let i = choose|i: int| 0 <= i < n.len() && n[i] == e;
            if i < p {
                assert(s[i] == e);
            } else if i > p {
                assert(s[i - 1] == e);
            }
        }
        if s.contains(e) {
            let i = choose|i: int| 0 <= i < s.len() && s[i] == e;
            if i < p {
                assert(n[i] == e);
            } else {
                assert(n[i + 1] == e);
            }
        }
        if e == x {
            assert(n[p] == e);
        }
    }
    if paths_distinct(s) && !(exists|i: int| 0 <= i < s.len() && #[trigger] s[i].path == x.path) {
        assert forall|i: int, j: int| 0 <= i < n.len() && 0 <= j < n.len() && i != j implies #[trigger] n[i].path
            != #[trigger] n[j].path by {
            let a = if i < p { i } else { i - 1 };
            let b = if j < p { j } else { j - 1 };
            if i == p {
                assert(s[b].path != x.path);
            } else if j == p {
                assert(s[a].path != x.path);
            } else {
                assert(s[a].path != s[b].path);
            }
        }
    }
}

proof fn lemma_sort_keeps(s: Entries)
    ensures
        newest_first(sort_newest_first(s)),
        sort_newest_first(s).len() == s.len(),
        forall|e: CustomCssHistoryEntryV| #[trigger] sort_newest_first(s).contains(e) <==> s.contains(e),
        paths_distinct(s) ==> paths_distinct(sort_newest_first(s)),
    decreases s.len(),
{
    if s.len() > 0 {
        let t = s.drop_last();
        lemma_sort_keeps(t);
        let st = sort_newest_first(t);
        lemma_insert_keeps(st, s.last());
        assert forall|e: CustomCssHistoryEntryV| s.contains(e) <==> (t.contains(e) || e == s.last()) by {
            if s.contains(e) {
                let i = choose|i: int| 0 <= i < s.len() && s[i] == e;
                if i < s.len() - 1 {
                    assert(t[i] == e);
                }
            }
            if t.contains(e) {
                let i = choose|i: int| 0 <= i < t.len() && t[i] == e;
                assert(s[i] == e);
            }
            if e == s.last() {
                assert(s[s.len() - 1] == e);
            }
        }
        if paths_distinct(s) {
            assert forall|a: int, b: int| 0 <= a < t.len() && 0 <= b < t.len() && a != b implies #[trigger] t[a].path
                != #[trigger] t[b].path by {
                assert(s[a].path != s[b].path);
            }
            if exists|i: int| 0 <= i < st.len() && #[trigger] st[i].path == s.last().path {
                let i = choose|i: int| 0 <= i < st.len() && #[trigger] st[i].path == s.last().path;
                assert(st.contains(st[i]));
                let k = choose|k: int| 0 <= k < t.len() && t[k] == st[i];
                assert(s[k].path == s[s.len() - 1].path);
            }
        }
    } else {
        assert(sort_newest_first(s) == s);
    }
}

proof fn lemma_first_per_path_distinct(s: Entries)
    ensures
        paths_distinct(first_per_path(s)),
        forall|e: CustomCssHistoryEntryV| #[trigger] first_per_path(s).contains(e) ==> s.contains(e),
        forall|p: Seq<char>| has_path(first_per_path(s), p) <==> has_path(s, p),
    decreases s.len(),
{
    if s.len() > 0 {
        let t = s.drop_last();
        lemma_first_per_path_distinct(t);
        let r = first_per_path(t);
        let l = s.last();
        assert forall|p: Seq<char>| has_path(s, p) <==> (has_path(t, p) || l.path == p) by {
            if has_path(s, p) {
                let i = choose|i: int| 0 <= i < s.len() && #[trigger] s[i].path == p;
                if i < s.len() - 1 {
                    assert(t[i].path == p);
                }
            }
            if has_path(t, p) {
                let i = choose|i: int| 0 <= i < t.len() && #[trigger] t[i].path == p;
                assert(s[i].path == p);
            }
            if l.path == p {
                assert(s[s.len() - 1].path == p);
            }
        }
        assert forall|e: CustomCssHistoryEntryV| #[trigger] r.contains(e) implies s.contains(e) by {
            if r.contains(e) {
                assert(t.contains(e));
                let i = choose|i: int| 0 <= i < t.len() && t[i] == e;
                assert(s[i] == e);
            }
        }
        if !has_path(t, l.path) {
            let n = r.push(l);
            assert forall|a: int, b: int| 0 <= a < n.len() && 0 <= b < n.len() && a != b implies #[trigger] n[a].path
                != #[trigger] n[b].path by {
                if a == r.len() {
                    assert(!has_path(r, l.path));
                    assert(r[b].path != l.path);
                } else if b == r.len() {
                    assert(r[a].path != l.path);
                }
            }
            assert forall|p: Seq<char>| has_path(n, p) <==> (has_path(r, p) || l.path == p) by {
                if has_path(n, p) {
                    let i = choose|i: int| 0 <= i < n.len() && #[trigger] n[i].path == p;
                    if i < r.len() {
                        assert(r[i].path == p);
                    }
                }
                if has_path(r, p) {
                    let i = choose|i: int| 0 <= i < r.len() && #[trigger] r[i].path == p;
                    assert(n[i].path == p);
                }
                if l.path == p {
                    assert(n[r.len() as int].path == p);
                }
            }
            assert forall|e: CustomCssHistoryEntryV| #[trigger] n.contains(e) implies s.contains(e) by {
                if n.contains(e) {
                    let i = choose|i: int| 0 <= i < n.len() && n[i] == e;
                    if i < r.len() {
                        assert(r.contains(e));
                    } else {
                        assert(s[s.len() - 1] == e);
                    }
                }
            }
        }
    }
}

proof fn lemma_eviction_exists(s: Entries)
    requires
        s.len() > 0,
    ensures
        is_eviction_index(s, eviction_index(s)),
    decreases s.len(),
{
    if s.len() == 1 {
        assert(is_eviction_index(s, 0));
    } else {
        let t = s.drop_last();
        lemma_eviction_exists(t);
        let i = eviction_index(t);
        let l = s.len() - 1;
        if used_before(s[l], s[i]) {
            assert forall|j: int| 0 <= j < l implies used_before(s[l], #[trigger] s[j]) by {
                assert(t[j] == s[j]);
                if j < i {
                    assert(used_before(t[i], t[j]));
                } else if j > i {
                    assert(!used_before(t[j], t[i]));
                }
            }
            assert(is_eviction_index(s, l));
        } else {
            assert forall|j: int| 0 <= j < i implies used_before(s[i], #[trigger] s[j]) by {
                assert(t[j] == s[j]);
            }
            assert forall|j: int| i < j < s.len() implies !used_before(#[trigger] s[j], s[i]) by {
                if j < l {
                    assert(t[j] == s[j]);
                }
            }
            assert(is_eviction_index(s, i));
        }
    }
}

proof fn lemma_evict_keeps(s: Entries)
    ensures
        evict(s).len() <= MAX_CUSTOM_CSS_HISTORY_ENTRIES,
        paths_distinct(s) ==> paths_distinct(evict(s)),
    decreases s.len(),
{
    if s.len() > MAX_CUSTOM_CSS_HISTORY_ENTRIES {
        lemma_eviction_exists(s);
        let i = eviction_index(s);
        let t = s.remove(i);
        if paths_distinct(s) {
            assert forall|a: int, b: int| 0 <= a < t.len() && 0 <= b < t.len() && a != b implies #[trigger] t[a].path
                != #[trigger] t[b].path by {
                let a2 = if a < i { a } else { a + 1 };
                let b2 = if b < i { b } else { b + 1 };
                assert(t[a] == s[a2] && t[b] == s[b2]);
            }
        }
        lemma_evict_keeps(t);
    }
}

/// A cleaned-up list holds at most ten entries, one per file, newest first.
pub proof fn lemma_normalized_history(s: Entries, absolute: Seq<bool>)
    ensures
        normalized_history(s, absolute).len() <= MAX_CUSTOM_CSS_HISTORY_ENTRIES,
        paths_distinct(normalized_history(s, absolute)),
        newest_first(normalized_history(s, absolute)),
{
    let sorted = sort_newest_first(keep_flagged(s, absolute));
    let unique = first_per_path(sorted);
    lemma_first_per_path_distinct(sorted);
    lemma_evict_keeps(unique);
    lemma_sort_keeps(evict(unique));
}

} // verus!
