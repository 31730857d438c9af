//! Merging two configurations: a base, and one that overrides it.

use vstd::prelude::*;
use crate::raw_or::{InterpolatableValue, RawOr};

verus! {

/// Values that can be copied, with a copy that has the same model.
pub trait Duplicate: Sized + DeepView {
    /// A copy of this value.
    fn duplicate(&self) -> (r: Self)
        ensures
            r.deep_view() == self.deep_view(),
    ;
}

/// Values of which two can be merged: a base value, and one that overrides
/// it.
///
/// Scalars are replaced by the overriding value, options are merged where
/// both are present, sequences are appended, and maps are merged key by
/// key.
pub trait MergeOverride: Duplicate {
    /// What merging `ovr` into `base` gives.
    spec fn merged(base: Self::V, ovr: Self::V) -> Self::V;

    /// Does `v` hold no item of a sequence, at any depth?  Merging appends
    /// sequences, so only such a value can be merged into itself unchanged.
    spec fn sequence_free(v: Self::V) -> bool;

    /// A value without sequences, merged with itself, is itself.
    proof fn lemma_merge_with_itself(v: Self::V)
        requires
            Self::sequence_free(v),
        ensures
            Self::merged(v, v) == v,
    ;

    /// Merge `ovr` into this value, giving a new value.
    fn merge_override(&self, ovr: &Self) -> (r: Self)
        ensures
            r.deep_view() == Self::merged(self.deep_view(), ovr.deep_view()),
    ;
}

impl Duplicate for u16 {
    fn duplicate(&self) -> (r: u16) {
        *self
    }
}

impl MergeOverride for u16 {
    open spec fn merged(base: u16, ovr: u16) -> u16 {
        ovr
    }

    open spec fn sequence_free(v: u16) -> bool {
        true
    }

    proof fn lemma_merge_with_itself(v: u16) {
    }

    fn merge_override(&self, ovr: &u16) -> (r: u16) {
        *ovr
    }
}

impl Duplicate for u32 {
    fn duplicate(&self) -> (r: u32) {
        *self
    }
}

impl MergeOverride for u32 {
    open spec fn merged(base: u32, ovr: u32) -> u32 {
        ovr
    }

    open spec fn sequence_free(v: u32) -> bool {
        true
    }

    proof fn lemma_merge_with_itself(v: u32) {
    }

    fn merge_override(&self, ovr: &u32) -> (r: u32) {
        *ovr
    }
}

impl Duplicate for i16 {
    fn duplicate(&self) -> (r: i16) {
        *self
    }
}

impl MergeOverride for i16 {
    open spec fn merged(base: i16, ovr: i16) -> i16 {
        ovr
    }

    open spec fn sequence_free(v: i16) -> bool {
        true
    }

    proof fn lemma_merge_with_itself(v: i16) {
    }

    fn merge_override(&self, ovr: &i16) -> (r: i16) {
        *ovr
    }
}

impl Duplicate for i64 {
    fn duplicate(&self) -> (r: i64) {
        *self
    }
}

impl MergeOverride for i64 {
    open spec fn merged(base: i64, ovr: i64) -> i64 {
        ovr
    }

    open spec fn sequence_free(v: i64) -> bool {
        true
    }

    proof fn lemma_merge_with_itself(v: i64) {
    }

    fn merge_override(&self, ovr: &i64) -> (r: i64) {
        *ovr
    }
}

impl Duplicate for bool {
    fn duplicate(&self) -> (r: bool) {
        *self
    }
}

impl MergeOverride for bool {
    open spec fn merged(base: bool, ovr: bool) -> bool {
        ovr
    }

    open spec fn sequence_free(v: bool) -> bool {
        true
    }

    proof fn lemma_merge_with_itself(v: bool) {
    }

    fn merge_override(&self, ovr: &bool) -> (r: bool) {
        *ovr
    }
}

impl Duplicate for String {
    fn duplicate(&self) -> (r: String) {
        self.clone()
    }
}

impl MergeOverride for String {
    open spec fn merged(base: Seq<char>, ovr: Seq<char>) -> Seq<char> {
        ovr
    }

    open spec fn sequence_free(v: Seq<char>) -> bool {
        true
    }

    proof fn lemma_merge_with_itself(v: Seq<char>) {
    }

    fn merge_override(&self, ovr: &String) -> (r: String) {
        ovr.clone()
    }
}

impl<T: InterpolatableValue> Duplicate for RawOr<T> {
    fn duplicate(&self) -> (r: RawOr<T>) {
        self.clone()
    }
}

/// A value with a textual form is merged as the string it is written as:
/// the overriding value replaces the base, whatever the two hold.
impl<T: InterpolatableValue> MergeOverride for RawOr<T> {
    open spec fn merged(base: Self::V, ovr: Self::V) -> Self::V {
        ovr
    }

    open spec fn sequence_free(v: Self::V) -> bool {
        true
    }

    proof fn lemma_merge_with_itself(v: Self::V) {
    }

    fn merge_override(&self, ovr: &RawOr<T>) -> (r: RawOr<T>) {
        ovr.clone()
    }
}

impl<T: Duplicate> Duplicate for Option<T> {
    fn duplicate(&self) -> (r: Option<T>) {
        match self {
            Some(x) => Some(x.duplicate()),
            None => None,
        }
    }
}

/// Where both values are present they are merged; where one is, it is the
/// result; where none is, there is none.
impl<T: MergeOverride> MergeOverride for Option<T> {
    open spec fn merged(base: Option<T::V>, ovr: Option<T::V>) -> Option<T::V> {
        match (base, ovr) {
            (Some(x), Some(y)) => Some(T::merged(x, y)),
            (Some(x), None) => Some(x),
            (None, Some(y)) => Some(y),
            (None, None) => None,
        }
    }

    open spec fn sequence_free(v: Option<T::V>) -> bool {
        match v {
            Some(x) => T::sequence_free(x),
            None => true,
        }
    }

    proof fn lemma_merge_with_itself(v: Option<T::V>) {
        match v {
            Some(x) => T::lemma_merge_with_itself(x),
            None => {},
        }
    }

    fn merge_override(&self, ovr: &Option<T>) -> (r: Option<T>) {
        match (self, ovr) {
            (Some(x), Some(y)) => Some(x.merge_override(y)),
            (Some(x), None) => Some(x.duplicate()),
            (None, Some(y)) => Some(y.duplicate()),
            (None, None) => None,
        }
    }
}

impl<T: Duplicate> Duplicate for Vec<T> {
    fn duplicate(&self) -> (r: Vec<T>) {
        let mut r: Vec<T> = Vec::new();
        let mut i: usize = 0;
        while i < self.len()
            invariant
                0 <= i <= self.len(),
                r.len() == i,
                forall|j: int| 0 <= j < i ==> r[j].deep_view() == self[j].deep_view(),
            decreases self.len() - i,
        {
            r.push(self[i].duplicate());
            i += 1;
        }
        assert(r.deep_view() == self.deep_view());
        r
    }
}

/// The overriding items follow the base items: a list grows under
/// override, and is never replaced.
impl<T: Duplicate> MergeOverride for Vec<T> {
    open spec fn merged(base: Seq<T::V>, ovr: Seq<T::V>) -> Seq<T::V> {
        base + ovr
    }

    open spec fn sequence_free(v: Seq<T::V>) -> bool {
        v.len() == 0
    }

    proof fn lemma_merge_with_itself(v: Seq<T::V>) {
        assert(v + v == v);
    }

    fn merge_override(&self, ovr: &Vec<T>) -> (r: Vec<T>) {
        let mut r = self.duplicate();
        proof {
            assert(r.deep_view().len() == r.len());
            assert(self.deep_view().len() == self.len());
            assert forall|j: int| 0 <= j < self.len() implies r[j].deep_view()
                == self[j].deep_view() by {
                assert(r.deep_view()[j] == r[j].deep_view());
                assert(self.deep_view()[j] == self[j].deep_view());
            }
        }
        let mut i: usize = 0;
        while i < ovr.len()
            invariant
                0 <= i <= ovr.len(),
                r.len() == self.len() + i,
                forall|j: int| 0 <= j < self.len() ==> r[j].deep_view() == self[j].deep_view(),
                forall|j: int| 0 <= j < i ==> r[self.len() + j].deep_view() == ovr[j].deep_view(),
            decreases ovr.len() - i,
        {
            r.push(ovr[i].duplicate());
            i += 1;
        }
        assert(r.deep_view() == self.deep_view() + ovr.deep_view());
        r
    }
}

/// Merging is directional: where a leaf of the one configuration meets a
/// leaf of the other, the overriding one is the result, whatever the two
/// hold.
pub proof fn lemma_override_wins<T: InterpolatableValue>(
    base: <RawOr<T> as DeepView>::V,
    ovr: <RawOr<T> as DeepView>::V,
)
    ensures
        RawOr::<T>::merged(base, ovr) == ovr,
        Option::<RawOr<T>>::merged(Some(base), Some(ovr)) == Some(ovr),
        Option::<RawOr<T>>::merged(Some(base), None) == Some(base),
        Option::<RawOr<T>>::merged(None, Some(ovr)) == Some(ovr),
{
}

/// A list that is merged with itself is not itself, unless it is empty:
/// it is itself twice over.
pub proof fn lemma_list_merged_with_itself<T: Duplicate>(v: Seq<T::V>)
    ensures
        Vec::<T>::merged(v, v) == v + v,
        v.len() > 0 ==> Vec::<T>::merged(v, v) != v,
{
    if v.len() > 0 {
        assert((v + v).len() == v.len() + v.len());
    }
}

} // verus!
