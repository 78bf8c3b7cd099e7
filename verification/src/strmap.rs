//! A map keyed by strings, kept as a list of entries with distinct keys.
use crate::text::{chars_of, str_eq};
use vstd::prelude::*;

verus! {

/// Values that can be copied with a proof that the copy has the same deep view.
pub trait Dup: Sized + DeepView {
    fn dup(&self) -> (r: Self)
        ensures
            r.deep_view() == self.deep_view(),
    ;
}

impl Dup for String {
    fn dup(&self) -> (r: Self) {
        self.clone()
    }
}

impl Dup for bool {
    fn dup(&self) -> (r: Self) {
        *self
    }
}

impl Dup for u8 {
    fn dup(&self) -> (r: Self) {
        *self
    }
}

impl Dup for u32 {
    fn dup(&self) -> (r: Self) {
        *self
    }
}

impl Dup for u64 {
    fn dup(&self) -> (r: Self) {
        *self
    }
}

impl<T: Dup> Dup for Option<T> {
    fn dup(&self) -> (r: Self) {
        match self {
            Some(v) => Some(v.dup()),
            None => None,
        }
    }
}

impl<T: Dup> Dup for Vec<T> {
    fn dup(&self) -> (r: Self) {
        let mut out: Vec<T> = Vec::new();
        let mut i: usize = 0;
        while i < self.len()
            invariant
                i <= self.len(),
                out.deep_view() =~= self.deep_view().take(i as int),
            decreases self.len() - i,
        {
            let ghost before = out.deep_view();
            let d = self[i].dup();
            out.push(d);
            assert(out.deep_view() =~= before.push(self@[i as int].deep_view()));
            assert(self.deep_view().take(i + 1) =~= self.deep_view().take(i as int).push(
                self@[i as int].deep_view(),
            ));
            i += 1;
        }
        assert(self.deep_view().take(self.len() as int) =~= self.deep_view());
        out
    }
}

/// The deep view of a byte vector is its view.
pub broadcast proof fn lemma_bytes_deep_view(v: Vec<u8>)
    ensures
        #[trigger] v.deep_view() == v@,
{
    assert(v.deep_view() =~= v@);
}

/// A map from strings to values. Keys are distinct; entries keep their insertion order.
pub struct StrMap<V: DeepView> {
    entries: Vec<(String, V)>,
}

impl<V: DeepView> StrMap<V> {
    /// Keys of the entries are distinct.
    #[verifier::type_invariant]
    pub closed spec fn wf(self) -> bool {
        forall|i: int, j: int|
            0 <= i < j < self.entries@.len() ==> #[trigger] self.entries@[i].0@
                != #[trigger] self.entries@[j].0@
    }

    /// Number of entries.
    pub closed spec fn spec_len(&self) -> nat {
        self.entries@.len()
    }

    /// Key of entry `i`.
    pub closed spec fn spec_key(&self, i: int) -> Seq<char> {
        self.entries@[i].0@
    }

    /// Value of entry `i`, by its deep view.
    pub closed spec fn spec_value(&self, i: int) -> V::V {
        self.entries@[i].1.deep_view()
    }

    /// The keys in entry order.
    pub open spec fn spec_keys(&self) -> Seq<Seq<char>> {
        Seq::new(self.spec_len(), |i: int| self.spec_key(i))
    }

    /// The map that the entries describe.
    pub open spec fn view_map(&self) -> Map<Seq<char>, V::V> {
        Map::new(
            |k: Seq<char>| exists|i: int| 0 <= i < self.spec_len() && self.spec_key(i) == k,
            |k: Seq<char>|
                self.spec_value(
                    choose|i: int| 0 <= i < self.spec_len() && self.spec_key(i) == k,
                ),
        )
    }

    /// Keys of distinct entries differ.
    pub proof fn lemma_distinct(&self)
        requires
            self.wf(),
        ensures
            forall|i: int, j: int|
                0 <= i < self.spec_len() && 0 <= j < self.spec_len() && i != j ==> self.spec_key(i)
                    != self.spec_key(j),
    {
        assert forall|i: int, j: int|
            0 <= i < self.spec_len() && 0 <= j < self.spec_len() && i != j implies self.spec_key(
            i,
        ) != self.spec_key(j) by {
            if i < j {
                assert(self.entries@[i].0@ != self.entries@[j].0@);
            } else {
                assert(self.entries@[j].0@ != self.entries@[i].0@);
            }
        }
    }

    /// Entry `i` is what the map gives for its key.
    pub proof fn lemma_index(&self, i: int)
        requires
            self.wf(),
            0 <= i < self.spec_len(),
        ensures
            self@.contains_key(self.spec_key(i)),
            self@[self.spec_key(i)] == self.spec_value(i),
    {
        self.lemma_distinct();
        let k = self.spec_key(i);
        assert(self.view_map().dom().contains(k));
        let c = choose|j: int| 0 <= j < self.spec_len() && self.spec_key(j) == k;
        assert(c == i);
    }

    /// Every key of the map is the key of some entry.
    pub proof fn lemma_key(&self, k: Seq<char>) -> (i: int)
        requires
            self.wf(),
            self@.contains_key(k),
        ensures
            0 <= i < self.spec_len(),
            self.spec_key(i) == k,
            self@[k] == self.spec_value(i),
    {
        let i = choose|j: int| 0 <= j < self.spec_len() && self.spec_key(j) == k;
        self.lemma_index(i);
        i
    }

    /// Two maps whose entries carry the same keys and values, in the same order, are equal.
    pub proof fn lemma_same_entries(&self, other: &Self)
        requires
            self.wf(),
            other.wf(),
            self.spec_len() == other.spec_len(),
            forall|i: int| 0 <= i < self.spec_len() ==> self.spec_key(i) == other.spec_key(i),
            forall|i: int| 0 <= i < self.spec_len() ==> self.spec_value(i) == other.spec_value(i),
        ensures
            self@ == other@,
    {
        assert forall|k: Seq<char>| #[trigger] self@.contains_key(k) implies other@.contains_key(
            k,
        ) && other@[k] == self@[k] by {
            let i = self.lemma_key(k);
            other.lemma_index(i);
        }
        assert forall|k: Seq<char>| #[trigger] other@.contains_key(k) implies self@.contains_key(
            k,
        ) by {
            let i = other.lemma_key(k);
            self.lemma_index(i);
        }
        assert(self@ =~= other@);
    }

    /// Brings the distinctness of keys into the proof context.
    pub fn check_wf(&self)
        ensures
            self.wf(),
    {
        proof {
            use_type_invariant(self);
        }
    }

    /// An empty map.
    pub fn new() -> (r: Self)
        ensures
            r@ == Map::<Seq<char>, V::V>::empty(),
            r.spec_len() == 0,
            r.wf(),
    {
        let r = StrMap { entries: Vec::new() };
        assert(r@ =~= Map::<Seq<char>, V::V>::empty());
        r
    }

    /// Number of entries.
    pub fn len(&self) -> (n: usize)
        ensures
            n == self.spec_len(),
    {
        self.entries.len()
    }

    /// Key of entry `i`.
    pub fn key_at(&self, i: usize) -> (k: &String)
        requires
            i < self.spec_len(),
        ensures
            k@ == self.spec_key(i as int),
    {
        &self.entries[i].0
    }

    /// Value of entry `i`.
    pub fn value_at(&self, i: usize) -> (v: &V)
        requires
            i < self.spec_len(),
        ensures
            v.deep_view() == self.spec_value(i as int),
    {
        &self.entries[i].1
    }

    /// Position of the entry with key `k`, if there is one.
    pub fn find(&self, k: &str) -> (r: Option<usize>)
        ensures
            r is None <==> !self@.contains_key(k@),
            r matches Some(i) ==> i < self.spec_len() && self.spec_key(i as int) == k@,
    {
        proof {
            use_type_invariant(self);
        }
        let key = chars_of(k);
        let mut i: usize = 0;
        while i < self.entries.len()
            invariant
                i <= self.entries.len(),
                self.wf(),
                key@ == k@,
                forall|j: int| 0 <= j < i ==> self.spec_key(j) != k@,
            decreases self.entries.len() - i,
        {
            if str_eq(self.entries[i].0.as_str(), k) {
                proof {
                    self.lemma_index(i as int);
                }
                return Some(i);
            }
            i += 1;
        }
        proof {
            if self@.contains_key(k@) {
                let j = self.lemma_key(k@);
            }
        }
        None
    }

    /// Whether the map has the key.
    pub fn contains_key(&self, k: &str) -> (r: bool)
        ensures
            r == self@.contains_key(k@),
    {
        self.find(k).is_some()
    }

    /// The value for a key.
    pub fn get(&self, k: &str) -> (r: Option<&V>)
        ensures
            r is Some <==> self@.contains_key(k@),
            r matches Some(v) ==> v.deep_view() == self@[k@],
    {
        proof {
            use_type_invariant(self);
        }
        match self.find(k) {
            Some(i) => {
                proof {
                    self.lemma_index(i as int);
                }
                Some(&self.entries[i].1)
            },
            None => None,
        }
    }

    /// Replaces the value of entry `i`, returning the value it held. Keys and order stay.
    pub fn replace_at(&mut self, i: usize, v: V) -> (old_v: V)
        requires
            i < old(self).spec_len(),
        ensures
            old_v.deep_view() == old(self).spec_value(i as int),
            final(self).spec_len() == old(self).spec_len(),
            forall|j: int|
                0 <= j < final(self).spec_len() ==> final(self).spec_key(j) == old(self).spec_key(
                    j,
                ),
            forall|j: int|
                0 <= j < final(self).spec_len() && j != i ==> final(self).spec_value(j) == old(
                    self,
                ).spec_value(j),
            final(self).spec_value(i as int) == v.deep_view(),
            final(self)@ == old(self)@.insert(old(self).spec_key(i as int), v.deep_view()),
            final(self).wf(),
    {
        proof {
            use_type_invariant(&*self);
        }
        let ghost before = *self;
        let ghost vd = v.deep_view();
        let mut tmp: Vec<(String, V)> = Vec::new();
        std::mem::swap(&mut tmp, &mut self.entries);
        let (k, old_v) = tmp.remove(i);
        tmp.insert(i, (k, v));
        assert forall|a: int, b: int| 0 <= a < b < tmp@.len() implies #[trigger] tmp@[a].0@
            != #[trigger] tmp@[b].0@ by {
            assert(tmp@[a].0@ == before.entries@[a].0@);
            assert(tmp@[b].0@ == before.entries@[b].0@);
        }
        self.entries = tmp;
        proof {
            let target = before@.insert(before.spec_key(i as int), vd);
            assert forall|k2: Seq<char>| #[trigger] self@.contains_key(k2) implies target.contains_key(
                k2,
            ) && target[k2] == self@[k2] by {
                let j = self.lemma_key(k2);
                before.lemma_index(j);
                if j == i {
                } else {
                    before.lemma_distinct();
                }
            }
            assert forall|k2: Seq<char>| #[trigger] target.contains_key(k2) implies self@.contains_key(
                k2,
            ) by {
                if k2 == before.spec_key(i as int) {
                    self.lemma_index(i as int);
                } else {
                    let j = before.lemma_key(k2);
                    self.lemma_index(j);
                }
            }
            assert(self@ =~= target);
        }
        old_v
    }

    /// Sets the value for a key: the entry with that key changes in place, or a new entry
    /// is added at the end.
    pub fn insert(&mut self, k: String, v: V)
        ensures
            final(self)@ == old(self)@.insert(k@, v.deep_view()),
            old(self)@.contains_key(k@) ==> final(self).spec_len() == old(self).spec_len(),
            !old(self)@.contains_key(k@) ==> final(self).spec_len() == old(self).spec_len() + 1,
            forall|j: int|
                0 <= j < old(self).spec_len() ==> final(self).spec_key(j) == old(self).spec_key(j),
            !old(self)@.contains_key(k@) ==> final(self).spec_key(old(self).spec_len() as int)
                == k@,
            final(self).wf(),
    {
        proof {
            use_type_invariant(&*self);
        }
        match self.find(k.as_str()) {
            Some(i) => {
                let _ = self.replace_at(i, v);
            },
            None => {
                let ghost before = *self;
                let ghost vd = v.deep_view();
                let ghost kv = k@;
                let mut tmp: Vec<(String, V)> = Vec::new();
                std::mem::swap(&mut tmp, &mut self.entries);
                tmp.push((k, v));
                assert forall|a: int, b: int| 0 <= a < b < tmp@.len() implies #[trigger] tmp@[a].0@
                    != #[trigger] tmp@[b].0@ by {
                    if b == tmp@.len() - 1 {
                        assert(before.spec_key(a) != kv);
                    }
                }
                self.entries = tmp;
                proof {
                    let target = before@.insert(kv, vd);
                    let n = before.spec_len() as int;
                    assert forall|k2: Seq<char>| #[trigger] self@.contains_key(k2) implies target.contains_key(
                        k2,
                    ) && target[k2] == self@[k2] by {
                        let j = self.lemma_key(k2);
                        if j < n {
                            before.lemma_index(j);
                        }
                    }
                    assert forall|k2: Seq<char>| #[trigger] target.contains_key(k2) implies self@.contains_key(
                        k2,
                    ) by {
                        if k2 == kv {
                            self.lemma_index(n);
                        } else {
                            let j = before.lemma_key(k2);
                            self.lemma_index(j);
                        }
                    }
                    assert(self@ =~= target);
                }
            },
        }
    }

    /// Removes the entry with the key, returning its value. The other entries keep their order.
    pub fn remove(&mut self, k: &str) -> (r: Option<V>)
        ensures
            final(self)@ == old(self)@.remove(k@),
            r is Some <==> old(self)@.contains_key(k@),
            r matches Some(v) ==> v.deep_view() == old(self)@[k@],
            final(self).wf(),
            final(self).spec_len() <= old(self).spec_len(),
    {
        proof {
            use_type_invariant(&*self);
        }
        match self.find(k) {
            None => {
                assert(self@ =~= self@.remove(k@));
                None
            },
            Some(i) => {
                let ghost before = *self;
                proof {
                    before.lemma_index(i as int);
                }
                let mut tmp: Vec<(String, V)> = Vec::new();
                std::mem::swap(&mut tmp, &mut self.entries);
                let (_, v) = tmp.remove(i);
                assert forall|a: int, b: int| 0 <= a < b < tmp@.len() implies #[trigger] tmp@[a].0@
                    != #[trigger] tmp@[b].0@ by {
                    let a2 = if a < i { a } else { a + 1 };
                    let b2 = if b < i { b } else { b + 1 };
                    assert(tmp@[a] == before.entries@[a2]);
                    assert(tmp@[b] == before.entries@[b2]);
                    before.lemma_distinct();
                }
                self.entries = tmp;
                proof {
                    let target = before@.remove(k@);
                    before.lemma_distinct();
                    assert forall|k2: Seq<char>| #[trigger] self@.contains_key(k2) implies target.contains_key(
                        k2,
                    ) && target[k2] == self@[k2] by {
                        let j = self.lemma_key(k2);
                        let j2 = if j < i { j } else { j + 1 };
                        assert(self.entries@[j] == before.entries@[j2]);
                        before.lemma_index(j2);
                    }
                    assert forall|k2: Seq<char>| #[trigger] target.contains_key(k2) implies self@.contains_key(
                        k2,
                    ) by {
                        let j = before.lemma_key(k2);
                        assert(j != i);
                        let j2 = if j < i { j } else { j - 1 };
                        assert(self.entries@[j2] == before.entries@[j]);
                        self.lemma_index(j2);
                    }
                    assert(self@ =~= target);
                }
                Some(v)
            },
        }
    }

    /// The keys, in entry order.
    pub fn keys(&self) -> (r: Vec<String>)
        ensures
            r@.len() == self.spec_len(),
            forall|i: int| 0 <= i < r@.len() ==> r@[i]@ == self.spec_key(i),
    {
        let mut out: Vec<String> = Vec::new();
        let mut i: usize = 0;
        while i < self.entries.len()
            invariant
                i <= self.entries.len(),
                out@.len() == i,
                forall|j: int| 0 <= j < i ==> out@[j]@ == self.spec_key(j),
            decreases self.entries.len() - i,
        {
            out.push(self.entries[i].0.clone());
            i += 1;
        }
        out
    }
}

impl<V: DeepView> View for StrMap<V> {
    type V = Map<Seq<char>, V::V>;

    open spec fn view(&self) -> Map<Seq<char>, V::V> {
        self.view_map()
    }
}

impl<V: DeepView> DeepView for StrMap<V> {
    type V = Map<Seq<char>, V::V>;

    open spec fn deep_view(&self) -> Map<Seq<char>, V::V> {
        self.view_map()
    }
}

impl<V: Dup> StrMap<V> {
    /// A copy of the map with the same entries.
    pub fn copy(&self) -> (r: Self)
        ensures
            r@ == self@,
            r.wf(),
            r.spec_len() == self.spec_len(),
            forall|i: int| 0 <= i < r.spec_len() ==> r.spec_key(i) == self.spec_key(i),
    {
        self.dup_entries()
    }
}

impl<V: Dup> Dup for StrMap<V> {
    fn dup(&self) -> (r: Self) {
        self.dup_entries()
    }
}

impl<V: Dup> StrMap<V> {
    fn dup_entries(&self) -> (r: Self)
        ensures
            r@ == self@,
            r.wf(),
            r.spec_len() == self.spec_len(),
            forall|i: int| 0 <= i < r.spec_len() ==> r.spec_key(i) == self.spec_key(i),
            forall|i: int| 0 <= i < r.spec_len() ==> r.spec_value(i) == self.spec_value(i),
    {
        proof {
            use_type_invariant(self);
        }
        let mut out: Vec<(String, V)> = Vec::new();
        let mut i: usize = 0;
        while i < self.entries.len()
            invariant
                i <= self.entries.len(),
                out@.len() == i,
                forall|j: int|
                    0 <= j < i ==> out@[j].0@ == self.spec_key(j) && out@[j].1.deep_view()
                        == self.spec_value(j),
            decreases self.entries.len() - i,
        {
            out.push((self.entries[i].0.clone(), self.entries[i].1.dup()));
            i += 1;
        }
        proof {
            self.lemma_distinct();
            assert forall|a: int, b: int| 0 <= a < b < out@.len() implies #[trigger] out@[a].0@
                != #[trigger] out@[b].0@ by {
                assert(out@[a].0@ == self.spec_key(a));
                assert(out@[b].0@ == self.spec_key(b));
            }
        }
        let r = StrMap { entries: out };
        proof {
            r.lemma_same_entries(self);
        }
        r
    }
}

} // verus!
