//! Health checks.

use vstd::prelude::*;
use crate::errors::{Error, ErrorView, InterpolationError};
use crate::helpers::{
    decode_optional,
    decode_result,
    encode_optional,
    fields_view,
    mapping_of,
    names_view,
    optional_node,
    optional_of,
    present,
    slots_of,
    struct_slots,
    DefaultValue,
    FromNode,
    ToNode,
};
use crate::interpolate_all::{InterpolateAll, Resolution};
use crate::interpolation::Environment;
use crate::merge_override::{Duplicate, MergeOverride};
use crate::node::{Node, NodeView};
use crate::raw_or::{RawOr, RawOrView};
use crate::command_line::{CommandLine, CommandLineView};

verus! {

/// A check that is run to determine whether the containers of a service are
/// healthy.
#[derive(Debug, PartialEq, Eq)]
pub struct Healthcheck {
    /// The command that is run to perform the check.
    pub test: Option<CommandLine>,
    /// The time between two runs of the check.
    pub interval: Option<RawOr<String>>,
    /// How long a run of the check may take before it counts as failed.
    pub timeout: Option<RawOr<String>>,
    /// How many runs in a row must fail for the container to count as
    /// unhealthy.
    pub retries: Option<u32>,
    /// How long a container is given to start up, during which a failed run
    /// does not count.
    pub start_period: Option<RawOr<String>>,
    /// Set to switch off a check that the image defines.
    pub disable: Option<bool>,
}

/// A [`Healthcheck`], as plain values.
pub struct HealthcheckView {
    pub test: Option<CommandLineView>,
    pub interval: Option<RawOrView<Seq<char>>>,
    pub timeout: Option<RawOrView<Seq<char>>>,
    pub retries: Option<u32>,
    pub start_period: Option<RawOrView<Seq<char>>>,
    pub disable: Option<bool>,
}

impl DeepView for Healthcheck {
    type V = HealthcheckView;

    open spec fn deep_view(&self) -> HealthcheckView {
        HealthcheckView {
            test: self.test.deep_view(),
            interval: self.interval.deep_view(),
            timeout: self.timeout.deep_view(),
            retries: self.retries.deep_view(),
            start_period: self.start_period.deep_view(),
            disable: self.disable.deep_view(),
        }
    }
}

impl Healthcheck {
    /// The keys under which the fields are written, in the order in which
    /// they are written.
    pub open spec fn field_names() -> Seq<Seq<char>> {
        seq![
            "test"@,
            "interval"@,
            "timeout"@,
            "retries"@,
            "start_period"@,
            "disable"@,
        ]
    }

    /// The value that is read from the nodes of the fields: each field is
    /// read in its turn, and the first failure is the failure of the whole.
    pub open spec fn from_slots(slots: Seq<Option<NodeView>>) -> Result<HealthcheckView, ErrorView> {
        let test = optional_of::<CommandLine>(slots[0]);
        let interval = optional_of::<RawOr<String>>(slots[1]);
        let timeout = optional_of::<RawOr<String>>(slots[2]);
        let retries = optional_of::<u32>(slots[3]);
        let start_period = optional_of::<RawOr<String>>(slots[4]);
        let disable = optional_of::<bool>(slots[5]);
        if test is Err {
            Err(test->Err_0)
        } else if interval is Err {
            Err(interval->Err_0)
        } else if timeout is Err {
            Err(timeout->Err_0)
        } else if retries is Err {
            Err(retries->Err_0)
        } else if start_period is Err {
            Err(start_period->Err_0)
        } else if disable is Err {
            Err(disable->Err_0)
        } else {
            Ok(
                HealthcheckView {
                    test: test->Ok_0,
                    interval: interval->Ok_0,
                    timeout: timeout->Ok_0,
                    retries: retries->Ok_0,
                    start_period: start_period->Ok_0,
                    disable: disable->Ok_0,
                },
            )
        }
    }

    /// The fields with the nodes that write them.  A field that is left out
    /// has no node.
    pub open spec fn field_nodes(v: HealthcheckView) -> Seq<(Seq<char>, Option<NodeView>)> {
        seq![
            ("test"@, optional_node::<CommandLine>(v.test)),
            ("interval"@, optional_node::<RawOr<String>>(v.interval)),
            ("timeout"@, optional_node::<RawOr<String>>(v.timeout)),
            ("retries"@, optional_node::<u32>(v.retries)),
            ("start_period"@, optional_node::<RawOr<String>>(v.start_period)),
            ("disable"@, optional_node::<bool>(v.disable)),
        ]
    }

    /// Read the fields from the mapping `node`.
    fn from_mapping(node: &Node) -> (r: Result<Healthcheck, Error>)
        ensures
            decode_result(r) == match slots_of(node.deep_view(), Self::field_names(), "a health check"@) {
                Err(e) => Err(e),
                Ok(slots) => Self::from_slots(slots),
            },
    {
        let names: Vec<&str> = vec!["test", "interval", "timeout", "retries", "start_period", "disable"];
        proof {
            assert(names_view(names@) =~= Self::field_names());
        }
        let slots = match struct_slots(node, &names, "a health check") {
            Ok(slots) => slots,
            Err(e) => {
                return Err(e);
            },
        };
        let test = match decode_optional::<CommandLine>(slots[0]) {
            Ok(v) => v,
            Err(e) => {
                return Err(e);
            },
        };
        let interval = match decode_optional::<RawOr<String>>(slots[1]) {
            Ok(v) => v,
            Err(e) => {
                return Err(e);
            },
        };
        let timeout = match decode_optional::<RawOr<String>>(slots[2]) {
            Ok(v) => v,
            Err(e) => {
                return Err(e);
            },
        };
        let retries = match decode_optional::<u32>(slots[3]) {
            Ok(v) => v,
            Err(e) => {
                return Err(e);
            },
        };
        let start_period = match decode_optional::<RawOr<String>>(slots[4]) {
            Ok(v) => v,
            Err(e) => {
                return Err(e);
            },
        };
        let disable = match decode_optional::<bool>(slots[5]) {
            Ok(v) => v,
            Err(e) => {
                return Err(e);
            },
        };
        Ok(Healthcheck { test, interval, timeout, retries, start_period, disable })
    }

    /// Write the fields as a mapping.
    fn to_mapping(&self) -> (r: Node)
        requires
            Self::fields_writable(self.deep_view()),
        ensures
            r.deep_view() == NodeView::Mapping(present(Self::field_nodes(self.deep_view()))),
    {
        let mut fields: Vec<(&str, Option<Node>)> = Vec::new();
        fields.push(("test", encode_optional::<CommandLine>(&self.test)));
        fields.push(("interval", encode_optional::<RawOr<String>>(&self.interval)));
        fields.push(("timeout", encode_optional::<RawOr<String>>(&self.timeout)));
        fields.push(("retries", encode_optional::<u32>(&self.retries)));
        fields.push(("start_period", encode_optional::<RawOr<String>>(&self.start_period)));
        fields.push(("disable", encode_optional::<bool>(&self.disable)));
        proof {
            assert(fields_view(fields@) =~= Self::field_nodes(self.deep_view()));
        }
        mapping_of(fields)
    }

    /// Can every field be written?
    pub open spec fn fields_writable(v: HealthcheckView) -> bool {
        &&& Option::<CommandLine>::writable(v.test)
        &&& Option::<RawOr<String>>::writable(v.interval)
        &&& Option::<RawOr<String>>::writable(v.timeout)
        &&& Option::<u32>::writable(v.retries)
        &&& Option::<RawOr<String>>::writable(v.start_period)
        &&& Option::<bool>::writable(v.disable)
    }

    /// Can every field be written?
    fn all_writable(&self) -> (r: bool)
        ensures
            r == Self::fields_writable(self.deep_view()),
    {
        if !self.test.is_writable() {
            return false;
        }
        if !self.interval.is_writable() {
            return false;
        }
        if !self.timeout.is_writable() {
            return false;
        }
        if !self.retries.is_writable() {
            return false;
        }
        if !self.start_period.is_writable() {
            return false;
        }
        if !self.disable.is_writable() {
            return false;
        }
        true
    }
}

impl FromNode for Healthcheck {
    open spec fn decoded(node: NodeView) -> Result<HealthcheckView, ErrorView> {
        match slots_of(node, Self::field_names(), "a health check"@) {
            Err(e) => Err(e),
            Ok(slots) => Self::from_slots(slots),
        }
    }

    fn from_node(node: &Node) -> (r: Result<Healthcheck, Error>) {
        Self::from_mapping(node)
    }
}

impl ToNode for Healthcheck {
    open spec fn writable(v: HealthcheckView) -> bool {
        Self::fields_writable(v)
    }

    open spec fn encoded(v: HealthcheckView) -> NodeView {
        NodeView::Mapping(present(Self::field_nodes(v)))
    }

    fn to_node(&self) -> (r: Node) {
        self.to_mapping()
    }

    fn is_writable(&self) -> (r: bool) {
        self.all_writable()
    }
}

impl Duplicate for Healthcheck {
    fn duplicate(&self) -> (r: Healthcheck) {
        Healthcheck {
            test: self.test.duplicate(),
            interval: self.interval.duplicate(),
            timeout: self.timeout.duplicate(),
            retries: self.retries.duplicate(),
            start_period: self.start_period.duplicate(),
            disable: self.disable.duplicate(),
        }
    }
}

impl Clone for Healthcheck {
    fn clone(&self) -> (r: Self)
        ensures
            r.deep_view() == self.deep_view(),
    {
        self.duplicate()
    }
}

/// The fields are merged one by one.
impl MergeOverride for Healthcheck {
    open spec fn merged(base: HealthcheckView, ovr: HealthcheckView) -> HealthcheckView {
        HealthcheckView {
            test: Option::<CommandLine>::merged(base.test, ovr.test),
            interval: Option::<RawOr<String>>::merged(base.interval, ovr.interval),
            timeout: Option::<RawOr<String>>::merged(base.timeout, ovr.timeout),
            retries: Option::<u32>::merged(base.retries, ovr.retries),
            start_period: Option::<RawOr<String>>::merged(base.start_period, ovr.start_period),
            disable: Option::<bool>::merged(base.disable, ovr.disable),
        }
    }

    open spec fn sequence_free(v: HealthcheckView) -> bool {
        &&& Option::<CommandLine>::sequence_free(v.test)
        &&& Option::<RawOr<String>>::sequence_free(v.interval)
        &&& Option::<RawOr<String>>::sequence_free(v.timeout)
        &&& Option::<u32>::sequence_free(v.retries)
        &&& Option::<RawOr<String>>::sequence_free(v.start_period)
        &&& Option::<bool>::sequence_free(v.disable)
    }

    proof fn lemma_merge_with_itself(v: HealthcheckView) {
        Option::<CommandLine>::lemma_merge_with_itself(v.test);
        Option::<RawOr<String>>::lemma_merge_with_itself(v.interval);
        Option::<RawOr<String>>::lemma_merge_with_itself(v.timeout);
        Option::<u32>::lemma_merge_with_itself(v.retries);
        Option::<RawOr<String>>::lemma_merge_with_itself(v.start_period);
        Option::<bool>::lemma_merge_with_itself(v.disable);
    }

    fn merge_override(&self, ovr: &Healthcheck) -> (r: Healthcheck) {
        Healthcheck {
            test: self.test.merge_override(&ovr.test),
            interval: self.interval.merge_override(&ovr.interval),
            timeout: self.timeout.merge_override(&ovr.timeout),
            retries: self.retries.merge_override(&ovr.retries),
            start_period: self.start_period.merge_override(&ovr.start_period),
            disable: self.disable.merge_override(&ovr.disable),
        }
    }
}

/// The fields are resolved one by one, in the order in which they are
/// declared.
impl InterpolateAll for Healthcheck {
    open spec fn resolved(v: HealthcheckView, vars: Map<Seq<char>, Seq<char>>) -> Resolution<HealthcheckView> {
        let r0 = Option::<CommandLine>::resolved(v.test, vars);
        let r1 = Option::<RawOr<String>>::resolved(v.interval, vars);
        let r2 = Option::<RawOr<String>>::resolved(v.timeout, vars);
        let r3 = Option::<u32>::resolved(v.retries, vars);
        let r4 = Option::<RawOr<String>>::resolved(v.start_period, vars);
        let r5 = Option::<bool>::resolved(v.disable, vars);
        let ok0 = r0.failure is None;
        let ok1 = ok0 && r1.failure is None;
        let ok2 = ok1 && r2.failure is None;
        let ok3 = ok2 && r3.failure is None;
        let ok4 = ok3 && r4.failure is None;
        let ok5 = ok4 && r5.failure is None;
        Resolution {
            value: HealthcheckView {
                test: r0.value,
                interval: if ok0 {
                    r1.value
                } else {
                    v.interval
                },
                timeout: if ok1 {
                    r2.value
                } else {
                    v.timeout
                },
                retries: if ok2 {
                    r3.value
                } else {
                    v.retries
                },
                start_period: if ok3 {
                    r4.value
                } else {
                    v.start_period
                },
                disable: if ok4 {
                    r5.value
                } else {
                    v.disable
                },
            },
            failure: if !ok0 {
                r0.failure
            } else if !ok1 {
                r1.failure
            } else if !ok2 {
                r2.failure
            } else if !ok3 {
                r3.failure
            } else if !ok4 {
                r4.failure
            } else if !ok5 {
                r5.failure
            } else {
                None
            },
        }
    }

    proof fn lemma_resolved_stays(
        v: HealthcheckView,
        vars: Map<Seq<char>, Seq<char>>,
        again: Map<Seq<char>, Seq<char>>,
    ) {
        Option::<CommandLine>::lemma_resolved_stays(v.test, vars, again);
        Option::<RawOr<String>>::lemma_resolved_stays(v.interval, vars, again);
        Option::<RawOr<String>>::lemma_resolved_stays(v.timeout, vars, again);
        Option::<u32>::lemma_resolved_stays(v.retries, vars, again);
        Option::<RawOr<String>>::lemma_resolved_stays(v.start_period, vars, again);
        Option::<bool>::lemma_resolved_stays(v.disable, vars, again);
    }

    fn interpolate_all<E: Environment>(&mut self, env: &E) -> (r: Result<(), InterpolationError>) {
        match self.test.interpolate_all(env) {
            Err(e) => {
                return Err(e);
            },
            Ok(_) => {},
        }
        match self.interval.interpolate_all(env) {
            Err(e) => {
                return Err(e);
            },
            Ok(_) => {},
        }
        match self.timeout.interpolate_all(env) {
            Err(e) => {
                return Err(e);
            },
            Ok(_) => {},
        }
        match self.retries.interpolate_all(env) {
            Err(e) => {
                return Err(e);
            },
            Ok(_) => {},
        }
        match self.start_period.interpolate_all(env) {
            Err(e) => {
                return Err(e);
            },
            Ok(_) => {},
        }
        match self.disable.interpolate_all(env) {
            Err(e) => {
                return Err(e);
            },
            Ok(_) => {},
        }
        Ok(())
    }
}

impl DefaultValue for Healthcheck {
    open spec fn default_model() -> HealthcheckView {
        HealthcheckView {
            test: None,
            interval: None,
            timeout: None,
            retries: None,
            start_period: None,
            disable: None,
        }
    }

    fn default_value() -> (r: Healthcheck) {
        let r = Healthcheck {
            test: None,
            interval: None,
            timeout: None,
            retries: None,
            start_period: None,
            disable: None,
        };
        proof {
        }
        r
    }

    fn is_default(&self) -> (r: bool) {
        proof {
        }
        self.test.is_none()
            && self.interval.is_none()
            && self.timeout.is_none()
            && self.retries.is_none()
            && self.start_period.is_none()
            && self.disable.is_none()
    }
}

impl Default for Healthcheck {
    fn default() -> (r: Self)
        ensures
            r.deep_view() == Self::default_model(),
    {
        Self::default_value()
    }
}

} // verus!
