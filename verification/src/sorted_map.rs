//! A map from strings to values that keeps its keys in ascending order.

use vstd::prelude::*;
use crate::errors::InterpolationError;
use crate::interpolate_all::{failure_of, InterpolateAll, Resolution};
use crate::interpolation::Environment;
use crate::merge_override::{Duplicate, MergeOverride};
use crate::text::{
    lemma_text_less_irreflexive,
    lemma_text_less_total,
    lemma_text_less_transitive,
    same_text,
    text_less,
    text_precedes,
};

verus! {

/// Do the keys of `entries` strictly ascend?  Then no key occurs twice.
pub open spec fn keys_ascend<V>(entries: Seq<(Seq<char>, V)>) -> bool {
    forall|i: int, j: int|
        0 <= i < j < entries.len() ==> text_less(#[trigger] entries[i].0, #[trigger] entries[j].0)
}

/// The map that a list of entries stands for.
pub open spec fn entries_map<V>(entries: Seq<(Seq<char>, V)>) -> Map<Seq<char>, V>
    decreases entries.len(),
{
    if entries.len() == 0 {
        Map::empty()
    } else {
        entries_map(entries.drop_last()).insert(entries.last().0, entries.last().1)
    }
}

/// The keys of the map are the keys of the entries.
pub proof fn lemma_entries_map_keys<V>(entries: Seq<(Seq<char>, V)>, key: Seq<char>)
    ensures
        entries_map(entries).contains_key(key) <==> exists|i: int|
            0 <= i < entries.len() && #[trigger] entries[i].0 == key,
    decreases entries.len(),
{
    if entries.len() > 0 {
        let front = entries.drop_last();
        lemma_entries_map_keys(front, key);
        if entries_map(entries).contains_key(key) {
            if entries.last().0 == key {
                assert(entries[entries.len() - 1].0 == key);
            } else {
                let i = choose|i: int| 0 <= i < front.len() && #[trigger] front[i].0 == key;
                assert(entries[i].0 == key);
            }
        }
        if exists|i: int| 0 <= i < entries.len() && #[trigger] entries[i].0 == key {
            let i = choose|i: int| 0 <= i < entries.len() && #[trigger] entries[i].0 == key;
            if i < entries.len() - 1 {
                assert(front[i].0 == key);
            }
        }
    }
}

/// Where keys ascend, the map gives for each key the value that stands
/// beside it.
pub proof fn lemma_entries_map_values<V>(entries: Seq<(Seq<char>, V)>, i: int)
    requires
        keys_ascend(entries),
        0 <= i < entries.len(),
    ensures
        entries_map(entries).contains_key(entries[i].0),
        entries_map(entries)[entries[i].0] == entries[i].1,
    decreases entries.len(),
{
    let front = entries.drop_last();
    if i < entries.len() - 1 {
        assert(keys_ascend(front)) by {
            assert forall|a: int, b: int| 0 <= a < b < front.len() implies text_less(
                #[trigger] front[a].0,
                #[trigger] front[b].0,
            ) by {
                assert(front[a] == entries[a]);
                assert(front[b] == entries[b]);
            }
        }
        lemma_entries_map_values(front, i);
        assert(front[i] == entries[i]);
        assert(text_less(entries[i].0, entries[entries.len() - 1].0));
        lemma_text_less_irreflexive(entries[i].0);
    }
}

/// The front of ascending entries ascends too, and stands for the map
/// without the last key.
proof fn lemma_front_of_ascending<V>(entries: Seq<(Seq<char>, V)>)
    requires
        keys_ascend(entries),
        entries.len() > 0,
    ensures
        keys_ascend(entries.drop_last()),
        entries_map(entries.drop_last()) == entries_map(entries).remove(entries.last().0),
{
    let front = entries.drop_last();
    let key = entries.last().0;
    assert forall|a: int, b: int| 0 <= a < b < front.len() implies text_less(
        #[trigger] front[a].0,
        #[trigger] front[b].0,
    ) by {
        assert(front[a] == entries[a]);
        assert(front[b] == entries[b]);
    }
    lemma_entries_map_keys(front, key);
    if entries_map(front).contains_key(key) {
        let i = choose|i: int| 0 <= i < front.len() && #[trigger] front[i].0 == key;
        assert(text_less(entries[i].0, entries[entries.len() - 1].0));
        lemma_text_less_irreflexive(key);
    }
    assert(entries_map(front) =~= entries_map(entries).remove(key));
}

/// There is one way only to write a map as ascending entries.
pub proof fn lemma_ascending_entries_unique<V>(a: Seq<(Seq<char>, V)>, b: Seq<(Seq<char>, V)>)
    requires
        keys_ascend(a),
        keys_ascend(b),
        entries_map(a) == entries_map(b),
    ensures
        a == b,
    decreases a.len(),
{
    if a.len() == 0 {
        if b.len() > 0 {
            lemma_entries_map_keys(b, b[0].0);
        }
        assert(a =~= b);
    } else if b.len() == 0 {
        lemma_entries_map_keys(a, a[0].0);
    } else {
        let la = a.last();
        let lb = b.last();
        lemma_entries_map_values(a, a.len() - 1);
        lemma_entries_map_values(b, b.len() - 1);
        lemma_entries_map_keys(b, la.0);
        lemma_entries_map_keys(a, lb.0);
        if la.0 != lb.0 {
            let j = choose|j: int| 0 <= j < b.len() && #[trigger] b[j].0 == la.0;
            let i = choose|i: int| 0 <= i < a.len() && #[trigger] a[i].0 == lb.0;
            assert(text_less(b[j].0, b[b.len() - 1].0));
            assert(text_less(a[i].0, a[a.len() - 1].0));
            lemma_text_less_transitive(la.0, lb.0, la.0);
            lemma_text_less_irreflexive(la.0);
        }
        lemma_front_of_ascending(a);
        lemma_front_of_ascending(b);
        lemma_ascending_entries_unique(a.drop_last(), b.drop_last());
        assert(a =~= a.drop_last().push(la));
        assert(b =~= b.drop_last().push(lb));
    }
}

/// The entries of a map in the ascending order of their keys.
pub open spec fn sorted_entries<V>(m: Map<Seq<char>, V>) -> Seq<(Seq<char>, V)> {
    choose|entries: Seq<(Seq<char>, V)>| keys_ascend(entries) && entries_map(entries) == m
}

/// A map from strings to values, kept in the ascending order of its keys.
#[derive(Debug, PartialEq, Eq)]
pub struct SortedMap<T> {
    entries: Vec<(String, T)>,
}

/// Do the keys of a vector of entries strictly ascend?
spec fn ascending<T>(entries: Seq<(String, T)>) -> bool {
    forall|i: int, j: int|
        0 <= i < j < entries.len() ==> text_less(#[trigger] entries[i].0@, #[trigger] entries[j].0@)
}

/// The entries of a vector, as plain values.
spec fn modeled<T: DeepView>(entries: Seq<(String, T)>) -> Seq<(Seq<char>, T::V)> {
    Seq::new(entries.len(), |i: int| (entries[i].0@, entries[i].1.deep_view()))
}

/// Find `key`: the index at which it stands or would have to be put, and
/// whether it stands there.
fn locate<T>(entries: &Vec<(String, T)>, key: &str) -> (r: (usize, bool))
    requires
        ascending(entries@),
    ensures
        r.0 <= entries.len(),
        forall|j: int| 0 <= j < r.0 ==> text_less(#[trigger] entries[j].0@, key@),
        r.1 ==> r.0 < entries.len() && entries[r.0 as int].0@ == key@,
        !r.1 ==> (r.0 == entries.len() || text_less(key@, entries[r.0 as int].0@)),
        !r.1 ==> forall|j: int| 0 <= j < entries.len() ==> #[trigger] entries[j].0@ != key@,
{
    let mut i: usize = 0;
    while i < entries.len() && text_precedes(entries[i].0.as_str(), key)
        invariant
            0 <= i <= entries.len(),
            forall|j: int| 0 <= j < i ==> text_less(#[trigger] entries[j].0@, key@),
        decreases entries.len() - i,
    {
        i += 1;
    }
    let found = i < entries.len() && same_text(entries[i].0.as_str(), key);
    proof {
        if !found {
            if i < entries.len() {
                lemma_text_less_total(entries[i as int].0@, key@);
            }
            assert forall|j: int| 0 <= j < entries.len() implies #[trigger] entries[j].0@
                != key@ by {
                if j < i {
                    lemma_text_less_irreflexive(key@);
                } else if j > i {
                    lemma_text_less_transitive(key@, entries[i as int].0@, entries[j].0@);
                    lemma_text_less_irreflexive(key@);
                }
            }
        }
    }
    (i, found)
}

impl<T> SortedMap<T> {
    #[verifier::type_invariant]
    spec fn sorted(&self) -> bool {
        ascending(self.entries@)
    }

    /// A map without entries.
    pub fn new() -> (m: SortedMap<T>)
        ensures
            m.count() == 0,
    {
        SortedMap { entries: Vec::new() }
    }

    /// A map without entries.
    pub fn empty() -> (m: SortedMap<T>)
        ensures
            m.count() == 0,
    {
        SortedMap { entries: Vec::new() }
    }

    /// The number of entries, as a plain value.
    pub closed spec fn count(&self) -> nat {
        self.entries@.len()
    }

    /// The number of entries.
    pub fn len(&self) -> (n: usize)
        ensures
            n == self.count(),
    {
        self.entries.len()
    }

    /// Is this map without entries?
    pub fn is_empty(&self) -> (r: bool)
        ensures
            r == (self.count() == 0),
    {
        self.entries.len() == 0
    }
}

impl<T: DeepView> SortedMap<T> {
    /// The entries in the order of their keys, as plain values.
    pub closed spec fn entries(&self) -> Seq<(Seq<char>, T::V)> {
        modeled(self.entries@)
    }

    /// There are as many entries as [`SortedMap::count`] says, and their
    /// keys ascend.
    pub fn check_order(&self)
        ensures
            self.entries().len() == self.count(),
            keys_ascend(self.entries()),
            self.entries() == sorted_entries(self.deep_view()),
    {
        proof {
            use_type_invariant(self);
            let found = sorted_entries(self.deep_view());
            assert(keys_ascend(self.entries()) && entries_map(self.entries()) == self.deep_view());
            lemma_ascending_entries_unique(self.entries(), found);
        }
    }

    /// Does this map have no entries?  Then it is the empty map.
    pub fn has_no_entries(&self) -> (r: bool)
        ensures
            r == (self.count() == 0),
            r == (self.deep_view() == Map::<Seq<char>, T::V>::empty()),
            r == (self.entries().len() == 0),
    {
        proof {
            if self.entries().len() > 0 {
                lemma_entries_map_keys(self.entries(), self.entries()[0].0);
            } else {
                assert(self.deep_view() =~= Map::<Seq<char>, T::V>::empty());
            }
        }
        self.entries.len() == 0
    }

    /// Is there an entry for `key`?
    pub fn contains_key(&self, key: &str) -> (r: bool)
        ensures
            r == self.deep_view().contains_key(key@),
    {
        proof {
            use_type_invariant(self);
        }
        let (i, found) = locate(&self.entries, key);
        proof {
            lemma_entries_map_keys(self.entries(), key@);
            if found {
                assert(self.entries()[i as int].0 == key@);
            }
        }
        found
    }

    /// The value that stands for `key`, if there is one.
    pub fn get(&self, key: &str) -> (r: Option<&T>)
        ensures
            r is Some <==> self.deep_view().contains_key(key@),
            r is Some ==> r->0.deep_view() == self.deep_view()[key@],
    {
        proof {
            use_type_invariant(self);
        }
        let (i, found) = locate(&self.entries, key);
        proof {
            lemma_entries_map_keys(self.entries(), key@);
            if found {
                assert(self.entries()[i as int].0 == key@);
                lemma_entries_map_values(self.entries(), i as int);
            }
        }
        if found {
            Some(&self.entries[i].1)
        } else {
            None
        }
    }

    /// The key of the entry at `index`, counting in the order of the keys.
    pub fn key_at(&self, index: usize) -> (key: &String)
        requires
            index < self.count(),
        ensures
            key@ == self.entries()[index as int].0,
    {
        &self.entries[index].0
    }

    /// The value of the entry at `index`, counting in the order of the keys.
    pub fn value_at(&self, index: usize) -> (value: &T)
        requires
            index < self.count(),
        ensures
            value.deep_view() == self.entries()[index as int].1,
    {
        &self.entries[index].1
    }

    /// Let `value` stand for `key`, in place of what stood for it before,
    /// which is returned.
    pub fn insert(&mut self, key: String, value: T) -> (r: Option<T>)
        ensures
            final(self).deep_view() == old(self).deep_view().insert(key@, value.deep_view()),
            r is Some <==> old(self).deep_view().contains_key(key@),
            r is Some ==> r->0.deep_view() == old(self).deep_view()[key@],
            final(self).count() == old(self).count() + if r is Some {
                0int
            } else {
                1int
            },
    {
        proof {
            use_type_invariant(&*self);
        }
        let ghost before = self.entries();
        let mut entries: Vec<(String, T)> = Vec::new();
        core::mem::swap(&mut self.entries, &mut entries);
        let (i, found) = locate(&entries, key.as_str());
        proof {
            lemma_entries_map_keys(before, key@);
            if found {
                assert(before[i as int].0 == key@);
                lemma_entries_map_values(before, i as int);
            }
        }
        let r = if found {
            let mut value = value;
            core::mem::swap(&mut entries[i].1, &mut value);
            Some(value)
        } else {
            entries.insert(i, (key, value));
            None
        };
        proof {
            assert(ascending(entries@)) by {
                assert forall|a: int, b: int| 0 <= a < b < entries.len() implies text_less(
                    #[trigger] entries[a].0@,
                    #[trigger] entries[b].0@,
                ) by {
                    lemma_ascending_after_insert(before, modeled(entries@), i as int, found, a, b);
                }
            }
            lemma_map_after_insert(before, modeled(entries@), i as int, found);
        }
        self.entries = entries;
        r
    }
}

/// `after` is `before` with the entry at `at` replaced (`found`) or put in.
spec fn put_at<V>(
    before: Seq<(Seq<char>, V)>,
    after: Seq<(Seq<char>, V)>,
    at: int,
    found: bool,
) -> bool {
    &&& 0 <= at <= before.len()
    &&& forall|j: int| 0 <= j < at ==> text_less(#[trigger] before[j].0, after[at].0)
    &&& if found {
        &&& at < before.len()
        &&& after.len() == before.len()
        &&& after[at].0 == before[at].0
        &&& forall|j: int| 0 <= j < before.len() && j != at ==> after[j] == before[j]
    } else {
        &&& after.len() == before.len() + 1
        &&& at < before.len() ==> text_less(after[at].0, before[at].0)
        &&& forall|j: int| 0 <= j < at ==> after[j] == before[j]
        &&& forall|j: int| at <= j < before.len() ==> after[j + 1] == before[j]
    }
}

proof fn lemma_ascending_after_insert<V>(
    before: Seq<(Seq<char>, V)>,
    after: Seq<(Seq<char>, V)>,
    at: int,
    found: bool,
    a: int,
    b: int,
)
    requires
        keys_ascend(before),
        put_at(before, after, at, found),
        0 <= a < b < after.len(),
    ensures
        text_less(after[a].0, after[b].0),
{
    if found {
        assert(after[a].0 == before[a].0);
        assert(after[b].0 == before[b].0);
    } else {
        if b < at {
        } else if b == at {
            assert(after[a] == before[a]);
        } else if a < at {
            assert(after[a] == before[a]);
            assert(after[b] == before[b - 1]);
            if a < b - 1 {
            } else {
                lemma_text_less_transitive(before[a].0, after[at].0, before[at].0);
            }
        } else if a == at {
            assert(after[b] == before[b - 1]);
            if at < b - 1 {
                lemma_text_less_transitive(after[at].0, before[at].0, before[b - 1].0);
            }
        } else {
            assert(after[a] == before[a - 1]);
            assert(after[b] == before[b - 1]);
        }
    }
}

proof fn lemma_map_after_insert<V>(
    before: Seq<(Seq<char>, V)>,
    after: Seq<(Seq<char>, V)>,
    at: int,
    found: bool,
)
    requires
        keys_ascend(before),
        keys_ascend(after),
        put_at(before, after, at, found),
    ensures
        entries_map(after) == entries_map(before).insert(after[at].0, after[at].1),
{
    let key = after[at].0;
    let want = entries_map(before).insert(key, after[at].1);
    let got = entries_map(after);
    assert forall|k: Seq<char>| got.contains_key(k) <==> want.contains_key(k) by {
        lemma_entries_map_keys(before, k);
        lemma_entries_map_keys(after, k);
        if got.contains_key(k) {
            let j = choose|j: int| 0 <= j < after.len() && #[trigger] after[j].0 == k;
            if j != at {
                if found {
                    assert(before[j].0 == k);
                } else if j < at {
                    assert(before[j].0 == k);
                } else {
                    assert(before[j - 1].0 == k);
                }
            }
        }
        if want.contains_key(k) {
            if k == key {
                assert(after[at].0 == k);
            } else {
                let j = choose|j: int| 0 <= j < before.len() && #[trigger] before[j].0 == k;
                if found {
                    assert(after[j].0 == k);
                } else if j < at {
                    assert(after[j].0 == k);
                } else {
                    assert(after[j + 1].0 == k);
                }
            }
        }
    }
    assert forall|k: Seq<char>| got.contains_key(k) implies got[k] == want[k] by {
        lemma_entries_map_keys(after, k);
        let j = choose|j: int| 0 <= j < after.len() && #[trigger] after[j].0 == k;
        lemma_entries_map_values(after, j);
        if j != at {
            lemma_entries_map_values(after, at);
            assert(k != key) by {
                if j < at {
                    assert(text_less(after[j].0, after[at].0));
                } else {
                    assert(text_less(after[at].0, after[j].0));
                }
                lemma_text_less_irreflexive(key);
            }
            if found {
                assert(before[j] == after[j]);
                lemma_entries_map_values(before, j);
            } else if j < at {
                assert(before[j] == after[j]);
                lemma_entries_map_values(before, j);
            } else {
                assert(before[j - 1] == after[j]);
                lemma_entries_map_values(before, j - 1);
            }
        }
    }
    assert(got =~= want);
}

impl<T: DeepView> DeepView for SortedMap<T> {
    type V = Map<Seq<char>, T::V>;

    open spec fn deep_view(&self) -> Map<Seq<char>, T::V> {
        entries_map(self.entries())
    }
}

impl<T> Default for SortedMap<T> {
    fn default() -> (m: SortedMap<T>)
        ensures
            m.count() == 0,
    {
        SortedMap::new()
    }
}

impl<T: Duplicate> Duplicate for SortedMap<T> {
    fn duplicate(&self) -> (r: SortedMap<T>)
        ensures
            r.entries() == self.entries(),
    {
        proof {
            use_type_invariant(self);
        }
        let mut entries: Vec<(String, T)> = Vec::new();
        let mut i: usize = 0;
        while i < self.entries.len()
            invariant
                0 <= i <= self.entries.len(),
                entries.len() == i,
                forall|j: int|
                    0 <= j < i ==> (#[trigger] entries[j]).0@ == self.entries[j].0@
                        && entries[j].1.deep_view() == self.entries[j].1.deep_view(),
            decreases self.entries.len() - i,
        {
            entries.push((self.entries[i].0.clone(), self.entries[i].1.duplicate()));
            i += 1;
        }
        proof {
            assert(modeled(entries@) == modeled(self.entries@));
            assert forall|a: int, b: int| 0 <= a < b < entries.len() implies text_less(
                #[trigger] entries[a].0@,
                #[trigger] entries[b].0@,
            ) by {
                assert(text_less(self.entries[a].0@, self.entries[b].0@));
            }
        }
        SortedMap { entries }
    }
}

impl<T: Duplicate> SortedMap<T> {
    /// Put a copy of every entry of `other` into this map, in place of what
    /// stood for its key before.
    pub fn absorb(&mut self, other: &SortedMap<T>)
        ensures
            final(self).deep_view() == old(self).deep_view().union_prefer_right(other.deep_view()),
    {
        let n = other.len();
        other.check_order();
        let ghost start = self.deep_view();
        let mut i: usize = 0;
        proof {
            assert(other.entries().take(0) == Seq::<(Seq<char>, T::V)>::empty());
            assert(self.deep_view() =~= start.union_prefer_right(
                entries_map(other.entries().take(0)),
            ));
        }
        while i < n
            invariant
                0 <= i <= n,
                n == other.count(),
                n == other.entries().len(),
                self.deep_view() == start.union_prefer_right(
                    entries_map(other.entries().take(i as int)),
                ),
            decreases n - i,
        {
            proof {
                assert(other.entries().take(i + 1).drop_last() == other.entries().take(i as int));
                assert(other.entries().take(i + 1).last() == other.entries()[i as int]);
            }
            self.insert(other.key_at(i).clone(), other.value_at(i).duplicate());
            proof {
                assert(self.deep_view() =~= start.union_prefer_right(
                    entries_map(other.entries().take(i + 1)),
                ));
            }
            i += 1;
        }
        proof {
            assert(other.entries().take(n as int) == other.entries());
        }
    }
}

impl<T: Duplicate> Clone for SortedMap<T> {
    fn clone(&self) -> (r: Self)
        ensures
            r.deep_view() == self.deep_view(),
    {
        self.duplicate()
    }
}

/// The union of two maps: a key of one map keeps its value, and a key of
/// both gets the two values merged.
pub open spec fn merged_maps<V>(
    base: Map<Seq<char>, V>,
    ovr: Map<Seq<char>, V>,
    merge: spec_fn(V, V) -> V,
) -> Map<Seq<char>, V> {
    Map::new(
        |k: Seq<char>| base.contains_key(k) || ovr.contains_key(k),
        |k: Seq<char>|
            if base.contains_key(k) && ovr.contains_key(k) {
                merge(base[k], ovr[k])
            } else if ovr.contains_key(k) {
                ovr[k]
            } else {
                base[k]
            },
    )
}

/// Maps are merged key by key.
impl<T: MergeOverride> MergeOverride for SortedMap<T> {
    open spec fn merged(base: Map<Seq<char>, T::V>, ovr: Map<Seq<char>, T::V>) -> Map<
        Seq<char>,
        T::V,
    > {
        merged_maps(base, ovr, |x: T::V, y: T::V| T::merged(x, y))
    }

    open spec fn sequence_free(v: Map<Seq<char>, T::V>) -> bool {
        forall|k: Seq<char>| v.contains_key(k) ==> T::sequence_free(#[trigger] v[k])
    }

    proof fn lemma_merge_with_itself(v: Map<Seq<char>, T::V>) {
        assert forall|k: Seq<char>| v.contains_key(k) implies #[trigger] Self::merged(v, v)[k]
            == v[k] by {
            T::lemma_merge_with_itself(v[k]);
        }
        assert(Self::merged(v, v) =~= v);
    }

    fn merge_override(&self, ovr: &SortedMap<T>) -> (r: SortedMap<T>) {
        let mut r = self.duplicate();
        let n = ovr.len();
        let ghost base = self.deep_view();
        let ghost merge = |x: T::V, y: T::V| T::merged(x, y);
        let mut i: usize = 0;
        ovr.check_order();
        proof {
            assert(ovr.entries().take(0) == Seq::<(Seq<char>, T::V)>::empty());
            assert(r.deep_view() =~= merged_maps(base, Map::empty(), merge));
        }
        while i < n
            invariant
                0 <= i <= n,
                n == ovr.count(),
                n == ovr.entries().len(),
                keys_ascend(ovr.entries()),
                base == self.deep_view(),
                merge == (|x: T::V, y: T::V| T::merged(x, y)),
                r.deep_view() == merged_maps(
                    base,
                    entries_map(ovr.entries().take(i as int)),
                    merge,
                ),
            decreases n - i,
        {
            let key = ovr.key_at(i);
            let value = ovr.value_at(i);
            let ghost done = ovr.entries().take(i as int);
            let ghost next = ovr.entries().take(i + 1);
            proof {
                assert(next.drop_last() == done);
                assert(next.last() == ovr.entries()[i as int]);
                lemma_entries_map_keys(done, key@);
                if entries_map(done).contains_key(key@) {
                    let j = choose|j: int| 0 <= j < done.len() && #[trigger] done[j].0 == key@;
                    assert(text_less(ovr.entries()[j].0, ovr.entries()[i as int].0));
                    lemma_text_less_irreflexive(key@);
                }
            }
            let merged = match r.get(key.as_str()) {
                Some(x) => x.merge_override(value),
                None => value.duplicate(),
            };
            r.insert(key.clone(), merged);
            proof {
                assert(r.deep_view() =~= merged_maps(base, entries_map(next), merge));
            }
            i += 1;
        }
        proof {
            assert(ovr.entries().take(n as int) == ovr.entries());
        }
        r
    }
}

/// Is `key` the least key of `m` whose value fails to resolve?
pub open spec fn is_first_failure<V>(
    m: Map<Seq<char>, V>,
    key: Seq<char>,
    resolve: spec_fn(V) -> Resolution<V>,
) -> bool {
    &&& m.contains_key(key)
    &&& resolve(m[key]).failure is Some
    &&& forall|k: Seq<char>|
        m.contains_key(k) && (#[trigger] resolve(m[k])).failure is Some ==> k == key || text_less(
            key,
            k,
        )
}

/// The key at which resolving the values of `m` stops: the least key whose
/// value fails.  (A map with a failing value has such a key if it is
/// finite; for any other map this is some key whose value fails.)
pub open spec fn stopping_key<V>(
    m: Map<Seq<char>, V>,
    resolve: spec_fn(V) -> Resolution<V>,
) -> Seq<char> {
    if exists|k: Seq<char>| is_first_failure(m, k, resolve) {
        choose|k: Seq<char>| is_first_failure(m, k, resolve)
    } else {
        choose|k: Seq<char>| m.contains_key(k) && (#[trigger] resolve(m[k])).failure is Some
    }
}

/// What resolving the values of a map leaves, taken in the ascending order
/// of the keys: the values up to the first failure are resolved, the
/// others are untouched.
pub open spec fn resolved_map<V>(
    m: Map<Seq<char>, V>,
    resolve: spec_fn(V) -> Resolution<V>,
) -> Resolution<Map<Seq<char>, V>> {
    if exists|k: Seq<char>| m.contains_key(k) && (#[trigger] resolve(m[k])).failure is Some {
        let stop = stopping_key(m, resolve);
        Resolution {
            value: Map::new(
                |k: Seq<char>| m.contains_key(k),
                |k: Seq<char>|
                    if text_less(stop, k) {
                        m[k]
                    } else {
                        resolve(m[k]).value
                    },
            ),
            failure: resolve(m[stop]).failure,
        }
    } else {
        Resolution {
            value: Map::new(|k: Seq<char>| m.contains_key(k), |k: Seq<char>| resolve(m[k]).value),
            failure: None,
        }
    }
}

/// There is at most one first failure.
proof fn lemma_first_failure_is_unique<V>(
    m: Map<Seq<char>, V>,
    key: Seq<char>,
    resolve: spec_fn(V) -> Resolution<V>,
)
    requires
        is_first_failure(m, key, resolve),
    ensures
        stopping_key(m, resolve) == key,
{
    let other = stopping_key(m, resolve);
    assert(is_first_failure(m, other, resolve));
    if other != key {
        assert(resolve(m[key]).failure is Some);
        assert(resolve(m[other]).failure is Some);
        assert(text_less(other, key));
        assert(text_less(key, other));
        lemma_text_less_transitive(key, other, key);
        lemma_text_less_irreflexive(key);
    }
}

/// The values are resolved in the ascending order of their keys.
impl<T: InterpolateAll> InterpolateAll for SortedMap<T> {
    open spec fn resolved(v: Map<Seq<char>, T::V>, vars: Map<Seq<char>, Seq<char>>) -> Resolution<
        Map<Seq<char>, T::V>,
    > {
        resolved_map(v, |x: T::V| T::resolved(x, vars))
    }

    proof fn lemma_resolved_stays(
        v: Map<Seq<char>, T::V>,
        vars: Map<Seq<char>, Seq<char>>,
        again: Map<Seq<char>, Seq<char>>,
    ) {
        let first = |x: T::V| T::resolved(x, vars);
        let second = |x: T::V| T::resolved(x, again);
        let now = resolved_map(v, first).value;
        if exists|k: Seq<char>| v.contains_key(k) && (#[trigger] first(v[k])).failure is Some {
            let stop = stopping_key(v, first);
            if exists|k: Seq<char>| is_first_failure(v, k, first) {
            } else {
            }
            assert(first(v[stop]).failure is Some);
        }
        assert forall|k: Seq<char>| now.contains_key(k) implies second(#[trigger] now[k]).failure
            is None && second(now[k]).value == now[k] by {
            assert(first(v[k]).failure is None);
            T::lemma_resolved_stays(v[k], vars, again);
        }
        assert(resolved_map(now, second).value =~= now);
    }

    fn interpolate_all<E: Environment>(&mut self, env: &E) -> (r: Result<(), InterpolationError>) {
        proof {
            use_type_invariant(&*self);
        }
        let ghost resolve = |x: T::V| T::resolved(x, env.vars());
        let ghost before = self.entries();
        let ghost m = self.deep_view();
        let mut entries: Vec<(String, T)> = Vec::new();
        core::mem::swap(&mut self.entries, &mut entries);
        let n = entries.len();
        let mut i: usize = 0;
        proof {
            assert forall|j: int| 0 <= j < n implies #[trigger] kept(
                before,
                modeled(entries@),
                j,
            ) by {}
        }
        while i < n
            invariant
                0 <= i <= n,
                n == entries.len(),
                n == before.len(),
                keys_ascend(before),
                m == entries_map(before),
                m == old(self).deep_view(),
                self.entries@.len() == 0,
                resolve == (|x: T::V| T::resolved(x, env.vars())),
                forall|j: int| 0 <= j < i ==> #[trigger] done(before, modeled(entries@), j, resolve),
                forall|j: int| i <= j < n ==> #[trigger] kept(before, modeled(entries@), j),
            decreases n - i,
        {
            let ghost prev = modeled(entries@);
            proof {
                assert(kept(before, prev, i as int));
            }
            let outcome = entries[i].1.interpolate_all(env);
            proof {
                let after = modeled(entries@);
                assert(after.len() == prev.len());
                assert(after[i as int].0 == before[i as int].0);
                assert(after[i as int].1 == resolve(before[i as int].1).value);
                assert(failure_of(outcome) == resolve(before[i as int].1).failure);
                assert forall|j: int| 0 <= j < n && j != i implies #[trigger] after[j]
                    == prev[j] by {}
                assert forall|j: int| 0 <= j < i implies #[trigger] done(
                    before,
                    after,
                    j,
                    resolve,
                ) by {
                    assert(done(before, prev, j, resolve));
                    assert(after[j] == prev[j]);
                }
                assert forall|j: int| i < j < n implies #[trigger] kept(before, after, j) by {
                    assert(kept(before, prev, j));
                    assert(after[j] == prev[j]);
                }
                assert(ascending(entries@)) by {
                    assert forall|a: int, b: int| 0 <= a < b < entries.len() implies text_less(
                        #[trigger] entries[a].0@,
                        #[trigger] entries[b].0@,
                    ) by {
                        assert(text_less(before[a].0, before[b].0));
                        assert(after[a].0 == before[a].0) by {
                            if a < i {
                                assert(done(before, after, a, resolve));
                            } else if a > i {
                                assert(kept(before, after, a));
                            }
                        }
                        assert(after[b].0 == before[b].0) by {
                            if b < i {
                                assert(done(before, after, b, resolve));
                            } else if b > i {
                                assert(kept(before, after, b));
                            }
                        }
                    }
                }
            }
            match outcome {
                Err(e) => {
                    proof {
                        lemma_stops_at(before, modeled(entries@), i as int, resolve);
                    }
                    self.entries = entries;
                    return Err(e);
                },
                Ok(_) => {},
            }
            proof {
                assert(done(before, modeled(entries@), i as int, resolve));
            }
            i += 1;
        }
        proof {
            let after = modeled(entries@);
            lemma_all_resolved(before, after, resolve);
            assert(ascending(entries@)) by {
                assert forall|a: int, b: int| 0 <= a < b < entries.len() implies text_less(
                    #[trigger] entries[a].0@,
                    #[trigger] entries[b].0@,
                ) by {
                    assert(text_less(before[a].0, before[b].0));
                    assert(done(before, after, a, resolve));
                    assert(done(before, after, b, resolve));
                }
            }
        }
        self.entries = entries;
        Ok(())
    }
}

/// Is the entry at `j` as it was?
spec fn kept<V>(before: Seq<(Seq<char>, V)>, after: Seq<(Seq<char>, V)>, j: int) -> bool {
    after[j] == before[j]
}

/// Is the entry at `j` resolved, without failure?
spec fn done<V>(
    before: Seq<(Seq<char>, V)>,
    after: Seq<(Seq<char>, V)>,
    j: int,
    resolve: spec_fn(V) -> Resolution<V>,
) -> bool {
    &&& after[j].0 == before[j].0
    &&& resolve(before[j].1).failure is None
    &&& after[j].1 == resolve(before[j].1).value
}

/// Where every value resolved, the map of the resolved entries is the map
/// that [`resolved_map`] describes.
proof fn lemma_all_resolved<V>(
    before: Seq<(Seq<char>, V)>,
    after: Seq<(Seq<char>, V)>,
    resolve: spec_fn(V) -> Resolution<V>,
)
    requires
        keys_ascend(before),
        after.len() == before.len(),
        forall|j: int| 0 <= j < before.len() ==> #[trigger] done(before, after, j, resolve),
    ensures
        resolved_map(entries_map(before), resolve) == (Resolution {
            value: entries_map(after),
            failure: None,
        }),
{
    let m = entries_map(before);
    assert forall|j: int| 0 <= j < before.len() implies (#[trigger] after[j]).0 == before[j].0
        && resolve(before[j].1).failure is None && after[j].1 == resolve(before[j].1).value by {
        assert(done(before, after, j, resolve));
    }
    assert(keys_ascend(after)) by {
        assert forall|a: int, b: int| 0 <= a < b < after.len() implies text_less(
            #[trigger] after[a].0,
            #[trigger] after[b].0,
        ) by {
            assert(text_less(before[a].0, before[b].0));
        }
    }
    let got = entries_map(after);
    assert forall|k: Seq<char>| #[trigger] m.contains_key(k) implies resolve(m[k]).failure
        is None && got.contains_key(k) && got[k] == resolve(m[k]).value by {
        lemma_entries_map_keys(before, k);
        let j = choose|j: int| 0 <= j < before.len() && #[trigger] before[j].0 == k;
        lemma_entries_map_values(before, j);
        assert(after[j].0 == k);
        lemma_entries_map_values(after, j);
    }
    assert forall|k: Seq<char>| #[trigger] got.contains_key(k) implies m.contains_key(k) by {
        lemma_entries_map_keys(after, k);
        let j = choose|j: int| 0 <= j < after.len() && #[trigger] after[j].0 == k;
        assert(before[j].0 == k);
        lemma_entries_map_values(before, j);
    }
    assert(!(exists|k: Seq<char>| m.contains_key(k) && (#[trigger] resolve(m[k])).failure is Some));
    let want = resolved_map(m, resolve).value;
    assert(want.dom() =~= got.dom());
    assert(want =~= got);
}

/// Where the value at `at` was the first to fail, the map of the entries
/// as they then stand is the map that [`resolved_map`] describes.
proof fn lemma_stops_at<V>(
    before: Seq<(Seq<char>, V)>,
    after: Seq<(Seq<char>, V)>,
    at: int,
    resolve: spec_fn(V) -> Resolution<V>,
)
    requires
        keys_ascend(before),
        after.len() == before.len(),
        0 <= at < before.len(),
        forall|j: int| 0 <= j < at ==> #[trigger] done(before, after, j, resolve),
        resolve(before[at].1).failure is Some,
        after[at].0 == before[at].0,
        after[at].1 == resolve(before[at].1).value,
        forall|j: int| at < j < before.len() ==> #[trigger] kept(before, after, j),
    ensures
        resolved_map(entries_map(before), resolve) == (Resolution {
            value: entries_map(after),
            failure: resolve(before[at].1).failure,
        }),
{
    let m = entries_map(before);
    let stop = before[at].0;
    assert forall|j: int| 0 <= j < before.len() implies (#[trigger] after[j]).0
        == before[j].0 by {
        if j < at {
            assert(done(before, after, j, resolve));
        } else if j > at {
            assert(kept(before, after, j));
        }
    }
    assert forall|j: int| 0 <= j < at implies resolve(before[j].1).failure is None && (
    #[trigger] after[j]).1 == resolve(before[j].1).value by {
        assert(done(before, after, j, resolve));
    }
    assert forall|j: int| at < j < before.len() implies (#[trigger] after[j]).1
        == before[j].1 by {
        assert(kept(before, after, j));
    }
    assert(keys_ascend(after)) by {
        assert forall|a: int, b: int| 0 <= a < b < after.len() implies text_less(
            #[trigger] after[a].0,
            #[trigger] after[b].0,
        ) by {
            assert(text_less(before[a].0, before[b].0));
        }
    }
    lemma_entries_map_values(before, at);
    assert(is_first_failure(m, stop, resolve)) by {
        assert forall|k: Seq<char>|
            m.contains_key(k) && (#[trigger] resolve(m[k])).failure is Some implies k == stop
            || text_less(stop, k) by {
            lemma_entries_map_keys(before, k);
            let j = choose|j: int| 0 <= j < before.len() && #[trigger] before[j].0 == k;
            lemma_entries_map_values(before, j);
            assert(after[j].0 == k);
            if j > at {
                assert(text_less(before[at].0, before[j].0));
            }
        }
    }
    assert(m.contains_key(stop) && resolve(m[stop]).failure is Some);
    lemma_first_failure_is_unique(m, stop, resolve);
    let want = resolved_map(m, resolve).value;
    let got = entries_map(after);
    assert(stopping_key(m, resolve) == stop);
    assert forall|k: Seq<char>| #[trigger] m.contains_key(k) implies got.contains_key(k) && got[k]
        == want[k] by {
        lemma_entries_map_keys(before, k);
        let j = choose|j: int| 0 <= j < before.len() && #[trigger] before[j].0 == k;
        lemma_entries_map_values(before, j);
        assert(after[j].0 == k);
        lemma_entries_map_values(after, j);
        if j < at {
            assert(text_less(before[j].0, before[at].0));
            if text_less(stop, k) {
                lemma_text_less_transitive(k, stop, k);
                lemma_text_less_irreflexive(k);
            }
        } else if j == at {
            lemma_text_less_irreflexive(k);
        } else {
            assert(text_less(before[at].0, before[j].0));
        }
    }
    assert forall|k: Seq<char>| #[trigger] got.contains_key(k) implies m.contains_key(k) by {
        lemma_entries_map_keys(after, k);
        let j = choose|j: int| 0 <= j < after.len() && #[trigger] after[j].0 == k;
        assert(before[j].0 == k);
        lemma_entries_map_values(before, j);
    }
    assert(want.dom() =~= got.dom());
    assert(want =~= got);
}

} // verus!
