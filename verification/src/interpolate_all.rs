//! Resolving every reference to a variable in a whole configuration.

use vstd::prelude::*;
use crate::errors::{InterpolationError, InterpolationErrorView};
use crate::interpolation::Environment;
use crate::raw_or::{interpolated, InterpolatableValue, RawOr, RawOrView};

verus! {

/// What interpolating a whole value leaves: the value as it then stands,
/// and the first failure, if there was one.  After a failure the leaves
/// that were already resolved stay resolved, and the others are untouched.
pub struct Resolution<V> {
    pub value: V,
    pub failure: Option<InterpolationErrorView>,
}

/// The failure that a result reports, as plain values.
pub open spec fn failure_of(r: Result<(), InterpolationError>) -> Option<InterpolationErrorView> {
    match r {
        Ok(_) => None,
        Err(e) => Some(e.deep_view()),
    }
}

/// Values in which every [`RawOr`] leaf can be resolved against an
/// environment, in place.
pub trait InterpolateAll: Sized + DeepView {
    /// What interpolating the variables `vars` into `v` leaves.
    spec fn resolved(v: Self::V, vars: Map<Seq<char>, Seq<char>>) -> Resolution<Self::V>;

    /// A value that was resolved without failure has no reference left:
    /// resolving it again, in any environment, changes nothing and cannot
    /// fail.
    proof fn lemma_resolved_stays(
        v: Self::V,
        vars: Map<Seq<char>, Seq<char>>,
        again: Map<Seq<char>, Seq<char>>,
    )
        requires
            Self::resolved(v, vars).failure is None,
        ensures
            Self::resolved(Self::resolved(v, vars).value, again) == (Resolution {
                value: Self::resolved(v, vars).value,
                failure: None,
            }),
    ;

    /// Resolve every leaf of this value, in order, and stop at the first
    /// that fails.
    fn interpolate_all<E: Environment>(&mut self, env: &E) -> (r: Result<(), InterpolationError>)
        ensures
            final(self).deep_view() == Self::resolved(old(self).deep_view(), env.vars()).value,
            failure_of(r) == Self::resolved(old(self).deep_view(), env.vars()).failure,
    ;
}

/// A value without leaves is left as it is.
pub open spec fn untouched<V>(v: V) -> Resolution<V> {
    Resolution { value: v, failure: None }
}

impl InterpolateAll for u16 {
    open spec fn resolved(v: u16, vars: Map<Seq<char>, Seq<char>>) -> Resolution<u16> {
        untouched(v)
    }

    proof fn lemma_resolved_stays(
        v: u16,
        vars: Map<Seq<char>, Seq<char>>,
        again: Map<Seq<char>, Seq<char>>,
    ) {
    }

    fn interpolate_all<E: Environment>(&mut self, env: &E) -> (r: Result<(), InterpolationError>) {
        Ok(())
    }
}

impl InterpolateAll for u32 {
    open spec fn resolved(v: u32, vars: Map<Seq<char>, Seq<char>>) -> Resolution<u32> {
        untouched(v)
    }

    proof fn lemma_resolved_stays(
        v: u32,
        vars: Map<Seq<char>, Seq<char>>,
        again: Map<Seq<char>, Seq<char>>,
    ) {
    }

    fn interpolate_all<E: Environment>(&mut self, env: &E) -> (r: Result<(), InterpolationError>) {
        Ok(())
    }
}

impl InterpolateAll for i16 {
    open spec fn resolved(v: i16, vars: Map<Seq<char>, Seq<char>>) -> Resolution<i16> {
        untouched(v)
    }

    proof fn lemma_resolved_stays(
        v: i16,
        vars: Map<Seq<char>, Seq<char>>,
        again: Map<Seq<char>, Seq<char>>,
    ) {
    }

    fn interpolate_all<E: Environment>(&mut self, env: &E) -> (r: Result<(), InterpolationError>) {
        Ok(())
    }
}

impl InterpolateAll for i64 {
    open spec fn resolved(v: i64, vars: Map<Seq<char>, Seq<char>>) -> Resolution<i64> {
        untouched(v)
    }

    proof fn lemma_resolved_stays(
        v: i64,
        vars: Map<Seq<char>, Seq<char>>,
        again: Map<Seq<char>, Seq<char>>,
    ) {
    }

    fn interpolate_all<E: Environment>(&mut self, env: &E) -> (r: Result<(), InterpolationError>) {
        Ok(())
    }
}

impl InterpolateAll for bool {
    open spec fn resolved(v: bool, vars: Map<Seq<char>, Seq<char>>) -> Resolution<bool> {
        untouched(v)
    }

    proof fn lemma_resolved_stays(
        v: bool,
        vars: Map<Seq<char>, Seq<char>>,
        again: Map<Seq<char>, Seq<char>>,
    ) {
    }

    fn interpolate_all<E: Environment>(&mut self, env: &E) -> (r: Result<(), InterpolationError>) {
        Ok(())
    }
}

impl InterpolateAll for String {
    open spec fn resolved(v: Seq<char>, vars: Map<Seq<char>, Seq<char>>) -> Resolution<Seq<char>> {
        untouched(v)
    }

    proof fn lemma_resolved_stays(
        v: Seq<char>,
        vars: Map<Seq<char>, Seq<char>>,
        again: Map<Seq<char>, Seq<char>>,
    ) {
    }

    fn interpolate_all<E: Environment>(&mut self, env: &E) -> (r: Result<(), InterpolationError>) {
        Ok(())
    }
}

/// A leaf: it is resolved as [`RawOr::interpolate_env`] does it.
impl<T: InterpolatableValue> InterpolateAll for RawOr<T> {
    open spec fn resolved(v: RawOrView<T::V>, vars: Map<Seq<char>, Seq<char>>) -> Resolution<
        RawOrView<T::V>,
    > {
        match interpolated::<T::V, T>(v, vars) {
            Ok(value) => Resolution { value, failure: None },
            Err(e) => Resolution { value: v, failure: Some(e) },
        }
    }

    proof fn lemma_resolved_stays(
        v: RawOrView<T::V>,
        vars: Map<Seq<char>, Seq<char>>,
        again: Map<Seq<char>, Seq<char>>,
    ) {
    }

    fn interpolate_all<E: Environment>(&mut self, env: &E) -> (r: Result<(), InterpolationError>) {
        match self.interpolate_env(env) {
            Ok(_) => Ok(()),
            Err(e) => Err(e),
        }
    }
}

impl<T: InterpolateAll> InterpolateAll for Option<T> {
    open spec fn resolved(v: Option<T::V>, vars: Map<Seq<char>, Seq<char>>) -> Resolution<
        Option<T::V>,
    > {
        match v {
            Some(x) => Resolution {
                value: Some(T::resolved(x, vars).value),
                failure: T::resolved(x, vars).failure,
            },
            None => untouched(v),
        }
    }

    proof fn lemma_resolved_stays(
        v: Option<T::V>,
        vars: Map<Seq<char>, Seq<char>>,
        again: Map<Seq<char>, Seq<char>>,
    ) {
        match v {
            Some(x) => T::lemma_resolved_stays(x, vars, again),
            None => {},
        }
    }

    fn interpolate_all<E: Environment>(&mut self, env: &E) -> (r: Result<(), InterpolationError>) {
        match self {
            Some(x) => x.interpolate_all(env),
            None => Ok(()),
        }
    }
}

/// What resolving the items of a sequence from left to right leaves.
pub open spec fn resolved_items<V>(
    items: Seq<V>,
    resolve: spec_fn(V) -> Resolution<V>,
) -> Resolution<Seq<V>>
    decreases items.len(),
{
    if items.len() == 0 {
        untouched(items)
    } else {
        let first = resolve(items[0]);
        if first.failure is Some {
            Resolution { value: seq![first.value] + items.drop_first(), failure: first.failure }
        } else {
            let rest = resolved_items(items.drop_first(), resolve);
            Resolution { value: seq![first.value] + rest.value, failure: rest.failure }
        }
    }
}

/// The inductive form of the law for sequences.
proof fn lemma_resolved_items_stay<V>(
    items: Seq<V>,
    resolve: spec_fn(V) -> Resolution<V>,
    again: spec_fn(V) -> Resolution<V>,
)
    requires
        resolved_items(items, resolve).failure is None,
        forall|x: V|
            (#[trigger] resolve(x)).failure is None ==> again(resolve(x).value) == untouched(
                resolve(x).value,
            ),
    ensures
        resolved_items(resolved_items(items, resolve).value, again) == untouched(
            resolved_items(items, resolve).value,
        ),
    decreases items.len(),
{
    if items.len() > 0 {
        let first = resolve(items[0]);
        let rest = resolved_items(items.drop_first(), resolve);
        lemma_resolved_items_stay(items.drop_first(), resolve, again);
        let now = seq![first.value] + rest.value;
        assert(now[0] == first.value);
        assert(now.drop_first() == rest.value);
        assert(seq![first.value] + rest.value == now);
    } else {
        assert(resolved_items(items, resolve).value == items);
    }
}

/// The items are resolved from first to last.
impl<T: InterpolateAll> InterpolateAll for Vec<T> {
    open spec fn resolved(v: Seq<T::V>, vars: Map<Seq<char>, Seq<char>>) -> Resolution<Seq<T::V>> {
        resolved_items(v, |x: T::V| T::resolved(x, vars))
    }

    proof fn lemma_resolved_stays(
        v: Seq<T::V>,
        vars: Map<Seq<char>, Seq<char>>,
        again: Map<Seq<char>, Seq<char>>,
    ) {
        let first = |x: T::V| T::resolved(x, vars);
        let second = |x: T::V| T::resolved(x, again);
        assert forall|x: T::V| (#[trigger] first(x)).failure is None implies second(first(x).value)
            == untouched(first(x).value) by {
            T::lemma_resolved_stays(x, vars, again);
        }
        lemma_resolved_items_stay(v, first, second);
    }

    fn interpolate_all<E: Environment>(&mut self, env: &E) -> (r: Result<(), InterpolationError>) {
        let ghost resolve = |x: T::V| T::resolved(x, env.vars());
        let ghost before = self.deep_view();
        let ghost whole = resolved_items(before, resolve);
        let n = self.len();
        let mut i: usize = 0;
        proof {
            assert(before.skip(0) == before);
            assert(self.deep_view().take(0) + resolved_items(before.skip(0), resolve).value
                == whole.value);
        }
        while i < n
            invariant
                0 <= i <= n,
                n == self.len(),
                before.len() == n,
                before == old(self).deep_view(),
                resolve == (|x: T::V| T::resolved(x, env.vars())),
                whole == resolved_items(before, resolve),
                whole.value == self.deep_view().take(i as int) + resolved_items(
                    before.skip(i as int),
                    resolve,
                ).value,
                whole.failure == resolved_items(before.skip(i as int), resolve).failure,
                self.deep_view().skip(i as int) == before.skip(i as int),
            decreases n - i,
        {
            let ghost now = self.deep_view();
            let ghost rest = before.skip(i as int);
            proof {
                assert(rest[0] == before[i as int]);
                assert(now.skip(i as int)[0] == now[i as int]);
                assert(rest.drop_first() == before.skip(i + 1));
            }
            let outcome = self[i].interpolate_all(env);
            proof {
                let after = self.deep_view();
                let first = resolve(rest[0]);
                assert(after[i as int] == first.value);
                assert(after.take(i as int) == now.take(i as int));
                assert(after.skip(i + 1) == now.skip(i + 1));
                assert(now.skip(i + 1) == now.skip(i as int).drop_first());
                assert(after.take(i + 1) == after.take(i as int) + seq![first.value]);
                assert((after.take(i as int) + seq![first.value]) + before.skip(i + 1) == after);
                assert(after.take(i as int) + (seq![first.value] + before.skip(i + 1)) == after);
                let tail = resolved_items(before.skip(i + 1), resolve);
                assert(after.take(i as int) + (seq![first.value] + tail.value) == after.take(
                    i + 1,
                ) + tail.value);
            }
            match outcome {
                Err(e) => {
                    proof {
                        assert(resolve(rest[0]).failure == Some(e.deep_view()));
                        assert(whole.value == self.deep_view());
                    }
                    return Err(e);
                },
                Ok(_) => {},
            }
            i += 1;
        }
        proof {
            assert(before.skip(n as int).len() == 0);
            assert(self.deep_view().take(n as int) == self.deep_view());
            assert(self.deep_view() + Seq::<T::V>::empty() == self.deep_view());
        }
        Ok(())
    }
}

} // verus!
