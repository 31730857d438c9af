//! Values that are either parsed, or still hold references to variables.

use vstd::prelude::*;
use crate::errors::{
    InterpolationError,
    InterpolationErrorView,
    InvalidValueError,
    InvalidValueErrorView,
};
use crate::merge_override::Duplicate;
use crate::interpolation::{
    escape_str,
    escaped,
    interpolate_env,
    lemma_escape_unescaped,
    lemma_unescape_escaped,
    lemma_unescaped_needs_no_environment,
    lemma_well_formed_unescape_failure,
    outcome,
    unescape_str,
    unescaped,
    validate,
    well_formed,
    Environment,
    Mode,
};

verus! {

/// A value that has a textual form: it can be parsed from a string and
/// formatted back into one.
///
/// `formatted` gives the bare text of a value.  A `$` in it is not escaped:
/// [`RawOr::to_display_string`] does that once, for every type.
pub trait InterpolatableValue: Duplicate {
    /// The values that have a textual form.
    spec fn valid(v: Self::V) -> bool;

    /// What parsing `s` yields.
    spec fn parse_model(s: Seq<char>) -> Result<Self::V, InvalidValueErrorView>;

    /// The text of the value `v`.
    spec fn formatted(v: Self::V) -> Seq<char>;

    /// Parsing the text of a valid value gives that value back.
    proof fn lemma_parse_formatted(v: Self::V)
        requires
            Self::valid(v),
        ensures
            Self::parse_model(Self::formatted(v)) == Ok::<_, InvalidValueErrorView>(v),
    ;

    /// Parse `s`.
    fn iv_from_str(s: &str) -> (r: Result<Self, InvalidValueError>)
        ensures
            parse_result(r) == Self::parse_model(s@),
    ;

    /// The text of this value.
    fn fmt_iv(&self) -> (r: String)
        requires
            Self::valid(self.deep_view()),
        ensures
            r@ == Self::formatted(self.deep_view()),
    ;

    /// Is this a valid value: one that has a text, which reads back as the
    /// value?
    fn is_valid(&self) -> (r: bool)
        ensures
            r == Self::valid(self.deep_view()),
    ;
}

/// The result of a parse, as plain values.
pub open spec fn parse_result<T: DeepView>(r: Result<T, InvalidValueError>) -> Result<
    T::V,
    InvalidValueErrorView,
> {
    match r {
        Ok(v) => Ok(v.deep_view()),
        Err(e) => Err(e.deep_view()),
    }
}

impl InterpolatableValue for String {
    open spec fn valid(v: Seq<char>) -> bool {
        true
    }

    open spec fn parse_model(s: Seq<char>) -> Result<Seq<char>, InvalidValueErrorView> {
        Ok(s)
    }

    open spec fn formatted(v: Seq<char>) -> Seq<char> {
        v
    }

    proof fn lemma_parse_formatted(v: Seq<char>) {
    }

    fn iv_from_str(s: &str) -> (r: Result<String, InvalidValueError>) {
        Ok(s.to_owned())
    }

    fn fmt_iv(&self) -> (r: String) {
        self.clone()
    }

    fn is_valid(&self) -> (r: bool) {
        true
    }
}

/// The two states of a [`RawOr`].
#[derive(Debug, PartialEq, Eq)]
enum RawOrValue<T> {
    /// A string that is well formed and refers to at least one variable, so
    /// that no value can be had from it without an environment.
    Raw(String),
    /// A parsed value.
    Value(T),
}

impl<T: InterpolatableValue> RawOrValue<T> {
    spec fn model(&self) -> RawOrView<T::V> {
        match self {
            RawOrValue::Raw(s) => RawOrView::Raw(s@),
            RawOrValue::Value(v) => RawOrView::Value(v.deep_view()),
        }
    }

    spec fn well_kept(&self) -> bool {
        match self {
            RawOrValue::Raw(s) => must_stay_raw(s@),
            RawOrValue::Value(_) => true,
        }
    }

    fn parsed_mut(&mut self) -> (r: &mut T)
        requires
            *old(self) is Value,
        ensures
            *r == old(self)->Value_0,
            *final(self) == RawOrValue::Value(*final(r)),
        no_unwind
    {
        match self {
            RawOrValue::Value(val) => val,
            RawOrValue::Raw(_) => vstd::pervasive::unreached(),
        }
    }
}

/// What a [`RawOr`] holds, as plain values.
pub enum RawOrView<V> {
    /// Text that still refers to variables.
    Raw(Seq<char>),
    /// A parsed value.
    Value(V),
}

/// Either a string that still refers to variables, or a parsed value.
///
/// Almost any string of a `docker-compose.yml` file may refer to a variable
/// as `$NAME` or `${NAME}`.  Such a string is kept as it is until
/// [`RawOr::interpolate_env`] resolves it.  A string that refers to no
/// variable is parsed at once, and never kept raw.
#[derive(Debug, PartialEq, Eq)]
pub struct RawOr<T: InterpolatableValue> {
    inner: RawOrValue<T>,
}

impl<T: InterpolatableValue> Clone for RawOr<T> {
    fn clone(&self) -> (r: Self)
        ensures
            r.deep_view() == self.deep_view(),
    {
        self.duplicate()
    }
}

/// May `s` be kept raw?  It is well formed, and cannot be unescaped.
pub open spec fn must_stay_raw(s: Seq<char>) -> bool {
    well_formed(s) && unescaped(s) is Err
}

impl<T: InterpolatableValue> DeepView for RawOr<T> {
    type V = RawOrView<T::V>;

    closed spec fn deep_view(&self) -> RawOrView<T::V> {
        self.inner.model()
    }
}

/// What [`raw`] makes of the string `s`.
pub open spec fn raw_model<T: InterpolatableValue>(s: Seq<char>) -> Result<
    RawOrView<T::V>,
    InterpolationErrorView,
> {
    if !well_formed(s) {
        Err(InterpolationErrorView::InvalidSyntax(s))
    } else {
        match unescaped(s) {
            Ok(literal) => match T::parse_model(literal) {
                Ok(v) => Ok(RawOrView::Value(v)),
                Err(e) => Err(InterpolationErrorView::UnparsableValue(e)),
            },
            Err(_) => Ok(RawOrView::Raw(s)),
        }
    }
}

/// What [`escape`] makes of the string `s`.
pub open spec fn escape_model<T: InterpolatableValue>(s: Seq<char>) -> Result<
    RawOrView<T::V>,
    InterpolationErrorView,
> {
    match T::parse_model(s) {
        Ok(v) => Ok(RawOrView::Value(v)),
        Err(e) => Err(InterpolationErrorView::UnparsableValue(e)),
    }
}

/// What interpolating the variables `vars` into `v` leaves: the new state,
/// or the error, in which case the state stays as it was.
pub open spec fn interpolated<V, T: InterpolatableValue<V = V>>(
    v: RawOrView<V>,
    vars: Map<Seq<char>, Seq<char>>,
) -> Result<RawOrView<V>, InterpolationErrorView> {
    match v {
        RawOrView::Value(_) => Ok(v),
        RawOrView::Raw(s) => match outcome(s, Mode::Interpolate, vars) {
            Err(e) => Err(e),
            Ok(text) => match T::parse_model(text) {
                Ok(parsed) => Ok(RawOrView::Value(parsed)),
                Err(e) => Err(InterpolationErrorView::UnparsableValue(e)),
            },
        },
    }
}

/// The text that [`RawOr::to_display_string`] gives for `v`.
pub open spec fn displayed<V, T: InterpolatableValue<V = V>>(v: RawOrView<V>) -> Seq<char> {
    match v {
        RawOrView::Raw(s) => s,
        RawOrView::Value(value) => escaped(T::formatted(value)),
    }
}

/// The result of making a [`RawOr`], as plain values.
pub open spec fn raw_or_result<T: InterpolatableValue>(
    r: Result<RawOr<T>, InterpolationError>,
) -> Result<RawOrView<T::V>, InterpolationErrorView> {
    match r {
        Ok(v) => Ok(v.deep_view()),
        Err(e) => Err(e.deep_view()),
    }
}

/// Make a [`RawOr`] from a string that may refer to variables.
///
/// Malformed syntax is an error.  A string that refers to no variable is
/// unescaped and parsed at once, and a failure to parse it is an error.  A
/// string that refers to a variable is kept as it is.
pub fn raw<T: InterpolatableValue>(s: &str) -> (r: Result<RawOr<T>, InterpolationError>)
    ensures
        raw_or_result(r) == raw_model::<T>(s@),
{
    match validate(s) {
        Err(e) => {
            return Err(e);
        },
        Ok(_) => {},
    }
    match unescape_str(s) {
        Ok(literal) => match T::iv_from_str(literal.as_str()) {
            Ok(parsed) => Ok(RawOr { inner: RawOrValue::Value(parsed) }),
            Err(e) => Err(InterpolationError::UnparsableValue(e)),
        },
        Err(_) => Ok(RawOr { inner: RawOrValue::Raw(s.to_owned()) }),
    }
}

/// Make a [`RawOr`] from a literal string: `s` is parsed as it stands, and a
/// `$` in it is a dollar sign.
pub fn escape<T: InterpolatableValue>(s: &str) -> (r: Result<RawOr<T>, InterpolationError>)
    ensures
        raw_or_result(r) == escape_model::<T>(s@),
{
    match T::iv_from_str(s) {
        Ok(parsed) => Ok(RawOr { inner: RawOrValue::Value(parsed) }),
        Err(e) => Err(InterpolationError::UnparsableValue(e)),
    }
}

/// Make a [`RawOr`] from a value.
pub fn value<T: InterpolatableValue>(v: T) -> (r: RawOr<T>)
    ensures
        r.deep_view() == RawOrView::Value(v.deep_view()),
{
    RawOr { inner: RawOrValue::Value(v) }
}

impl<T: InterpolatableValue> RawOr<T> {
    /// What holds of every `RawOr`: a string is kept raw only if no value
    /// can be had from it without an environment.
    #[verifier::type_invariant]
    spec fn well_kept(&self) -> bool {
        self.inner.well_kept()
    }

    /// The parsed value, or an error if this still refers to variables.
    pub fn value(&self) -> (r: Result<&T, InterpolationError>)
        ensures
            match self.deep_view() {
                RawOrView::Value(v) => r is Ok && r->Ok_0.deep_view() == v,
                RawOrView::Raw(s) => r is Err && r->Err_0.deep_view()
                    == InterpolationErrorView::InterpolationDisabled(s),
            },
    {
        proof {
            use_type_invariant(self);
        }
        match &self.inner {
            RawOrValue::Value(val) => Ok(val),
            RawOrValue::Raw(raw) => {
                proof {
                    lemma_well_formed_unescape_failure(raw@);
                }
                Err(InterpolationError::InterpolationDisabled(raw.clone()))
            },
        }
    }

    /// The parsed value, to be changed in place, or an error if this still
    /// refers to variables.
    pub fn value_mut(&mut self) -> (r: Result<&mut T, InterpolationError>)
        ensures
            match old(self).deep_view() {
                RawOrView::Value(v) => r is Ok && r->Ok_0.deep_view() == v
                    && final(self).deep_view() == RawOrView::Value(final(r->Ok_0).deep_view()),
                RawOrView::Raw(s) => r is Err && r->Err_0.deep_view()
                    == InterpolationErrorView::InterpolationDisabled(s) && final(self).deep_view()
                    == old(self).deep_view(),
            },
    {
        proof {
            use_type_invariant(&*self);
        }
        if let RawOrValue::Raw(raw) = &self.inner {
            proof {
                lemma_well_formed_unescape_failure(raw@);
            }
            return Err(InterpolationError::InterpolationDisabled(raw.clone()));
        }
        Ok(self.inner.parsed_mut())
    }

    /// Resolve the references to variables, if there are any left, with the
    /// variables of `env`, and hand out the parsed value.
    ///
    /// A parsed value is handed out as it is.  A raw string is interpolated
    /// and the result parsed; from then on this holds the parsed value.  On
    /// an error nothing changes.
    pub fn interpolate_env<E: Environment>(&mut self, env: &E) -> (r: Result<
        &mut T,
        InterpolationError,
    >)
        ensures
            match interpolated::<T::V, T>(old(self).deep_view(), env.vars()) {
                Ok(v) => r is Ok && v == RawOrView::Value(r->Ok_0.deep_view())
                    && final(self).deep_view() == RawOrView::Value(final(r->Ok_0).deep_view()),
                Err(e) => r is Err && r->Err_0.deep_view() == e
                    && final(self).deep_view() == old(self).deep_view(),
            },
    {
        if let RawOrValue::Raw(raw) = &self.inner {
            let text = match interpolate_env(raw.as_str(), env) {
                Ok(text) => text,
                Err(e) => {
                    return Err(e);
                },
            };
            let parsed = match T::iv_from_str(text.as_str()) {
                Ok(parsed) => parsed,
                Err(e) => {
                    return Err(InterpolationError::UnparsableValue(e));
                },
            };
            self.inner = RawOrValue::Value(parsed);
        }
        Ok(self.inner.parsed_mut())
    }

    /// Can this be shown?  A raw string can, and a parsed value can if it is
    /// valid.
    pub fn is_writable(&self) -> (r: bool)
        ensures
            r == (self.deep_view() matches RawOrView::Value(v) ==> T::valid(v)),
    {
        match &self.inner {
            RawOrValue::Raw(_) => true,
            RawOrValue::Value(val) => val.is_valid(),
        }
    }

    /// The text of this value: a raw string as it stands, a parsed value
    /// formatted and then escaped.
    pub fn to_display_string(&self) -> (r: String)
        requires
            self.deep_view() matches RawOrView::Value(v) ==> T::valid(v),
        ensures
            r@ == displayed::<T::V, T>(self.deep_view()),
    {
        match &self.inner {
            RawOrValue::Raw(raw) => raw.clone(),
            RawOrValue::Value(val) => {
                let text = val.fmt_iv();
                escape_str(text.as_str())
            },
        }
    }

    /// A copy of this value.
    pub fn duplicate(&self) -> (r: RawOr<T>)
        ensures
            r.deep_view() == self.deep_view(),
    {
        proof {
            use_type_invariant(self);
        }
        match &self.inner {
            RawOrValue::Raw(raw) => RawOr { inner: RawOrValue::Raw(raw.clone()) },
            RawOrValue::Value(val) => RawOr { inner: RawOrValue::Value(val.duplicate()) },
        }
    }
}

/// Interpolating twice is interpolating once: after a success the value is
/// parsed, and interpolating it again, in any environment, changes nothing.
pub proof fn lemma_interpolation_is_idempotent<V, T: InterpolatableValue<V = V>>(
    v: RawOrView<V>,
    vars: Map<Seq<char>, Seq<char>>,
    again: Map<Seq<char>, Seq<char>>,
)
    requires
        interpolated::<V, T>(v, vars) is Ok,
    ensures
        interpolated::<V, T>(v, vars)->Ok_0 is Value,
        interpolated::<V, T>(interpolated::<V, T>(v, vars)->Ok_0, again) == interpolated::<V, T>(
            v,
            vars,
        ),
{
}

/// A string that refers to variables is kept and shown as it is.
pub proof fn lemma_raw_string_is_shown_verbatim<V, T: InterpolatableValue<V = V>>(s: Seq<char>)
    requires
        well_formed(s),
        unescaped(s) is Err,
    ensures
        raw_model::<T>(s) == Ok::<_, InterpolationErrorView>(RawOrView::<V>::Raw(s)),
        displayed::<V, T>(raw_model::<T>(s)->Ok_0) == s,
{
}

/// A string that refers to no variable is shown as it was written, if the
/// text of the value it parses to is the literal that was parsed.
pub proof fn lemma_escaped_string_is_shown_verbatim<V, T: InterpolatableValue<V = V>>(
    s: Seq<char>,
)
    requires
        raw_model::<T>(s) is Ok,
        unescaped(s) is Ok,
        T::formatted(T::parse_model(unescaped(s)->Ok_0)->Ok_0) == unescaped(s)->Ok_0,
    ensures
        displayed::<V, T>(raw_model::<T>(s)->Ok_0) == s,
{
    lemma_escape_unescaped(s);
}

/// Every well-formed string survives `raw` and `to_display_string` as a
/// plain string value: what is shown is what was written.
pub proof fn lemma_raw_then_display_of_string(s: Seq<char>)
    requires
        well_formed(s),
    ensures
        raw_model::<String>(s) is Ok,
        displayed::<Seq<char>, String>(raw_model::<String>(s)->Ok_0) == s,
{
    if unescaped(s) is Ok {
        lemma_escape_unescaped(s);
    }
}

/// What is shown for a valid value reads back as that value: the text is
/// well formed, refers to no variable, and parses to the value.
pub proof fn lemma_display_then_raw<V, T: InterpolatableValue<V = V>>(v: V)
    requires
        T::valid(v),
    ensures
        raw_model::<T>(displayed::<V, T>(RawOrView::Value(v))) == Ok::<_, InterpolationErrorView>(
            RawOrView::Value(v),
        ),
{
    let text = T::formatted(v);
    lemma_unescape_escaped(text);
    lemma_unescaped_needs_no_environment(escaped(text), Map::empty());
    T::lemma_parse_formatted(v);
}

impl RawOr<String> {
    /// Do this and `other` hold the same: both the same raw string, or both
    /// the same value?
    pub fn same_as(&self, other: &RawOr<String>) -> (r: bool)
        ensures
            r == (self.deep_view() == other.deep_view()),
    {
        match &self.inner {
            RawOrValue::Raw(a) => match &other.inner {
                RawOrValue::Raw(b) => {
                    assert(self.deep_view() == RawOrView::<Seq<char>>::Raw(a@));
                    assert(other.deep_view() == RawOrView::<Seq<char>>::Raw(b@));
                    *a == *b
                },
                RawOrValue::Value(b) => {
                    assert(self.deep_view() is Raw);
                    assert(other.deep_view() is Value);
                    false
                },
            },
            RawOrValue::Value(a) => match &other.inner {
                RawOrValue::Raw(_) => {
                    assert(self.deep_view() is Value);
                    assert(other.deep_view() is Raw);
                    false
                },
                RawOrValue::Value(b) => {
                    assert(self.deep_view() == RawOrView::<Seq<char>>::Value(a@));
                    assert(other.deep_view() == RawOrView::<Seq<char>>::Value(b@));
                    *a == *b
                },
            },
        }
    }
}

} // verus!
