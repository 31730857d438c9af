//! Conditions under which a service that another depends on counts as up.

use vstd::prelude::*;
use vstd::string::StringExecFns;
use crate::errors::{InvalidValueError, InvalidValueErrorView};
use crate::errors::{Error, ErrorView, InterpolationError};
use crate::interpolate_all::{InterpolateAll, Resolution};
use crate::interpolation::Environment;
use crate::merge_override::{Duplicate, MergeOverride};
use crate::node::{Node, NodeView};
use crate::raw_or::{RawOr, RawOrView};
use crate::helpers::{
    decode_optional,
    decode_result,
    encode_optional,
    fields_view,
    mapping_of,
    names_view,
    optional_node,
    optional_of,
    present,
    slots_of,
    struct_slots,
    DefaultValue,
    FromNode,
    ToNode,
};
use crate::raw_or::{parse_result, InterpolatableValue};
use crate::text::same_text;

verus! {

/// What a service waits for in a service it depends on.
#[derive(Debug, Eq, PartialEq, Clone, Copy)]
pub enum ServiceCondition {
    /// The other service must be healthy, as its health check reports.
    ServiceHealthy,
    /// The other service must be started.
    ServiceStarted,
}

impl DeepView for ServiceCondition {
    type V = ServiceCondition;

    open spec fn deep_view(&self) -> ServiceCondition {
        *self
    }
}

impl ServiceCondition {
    /// Parse a condition from the word that names it.
    pub fn from_str(s: &str) -> (r: Result<ServiceCondition, InvalidValueError>)
        ensures
            parse_result(r) == Self::parse_model(s@),
    {
        if same_text(s, "service_healthy") {
            Ok(ServiceCondition::ServiceHealthy)
        } else if same_text(s, "service_started") {
            Ok(ServiceCondition::ServiceStarted)
        } else {
            Err(InvalidValueError::new("depends_on service condition", s))
        }
    }

    /// The word that names this condition.
    pub fn to_string(&self) -> (r: String)
        ensures
            r@ == Self::formatted(*self),
    {
        match self {
            ServiceCondition::ServiceHealthy => String::from_str("service_healthy"),
            ServiceCondition::ServiceStarted => String::from_str("service_started"),
        }
    }
}

impl Duplicate for ServiceCondition {
    fn duplicate(&self) -> (r: ServiceCondition) {
        *self
    }
}

impl InterpolatableValue for ServiceCondition {
    open spec fn valid(v: ServiceCondition) -> bool {
        true
    }

    open spec fn parse_model(s: Seq<char>) -> Result<ServiceCondition, InvalidValueErrorView> {
        if s == "service_healthy"@ {
            Ok(ServiceCondition::ServiceHealthy)
        } else if s == "service_started"@ {
            Ok(ServiceCondition::ServiceStarted)
        } else {
            Err(InvalidValueErrorView { wanted: "depends_on service condition"@, input: s })
        }
    }

    open spec fn formatted(v: ServiceCondition) -> Seq<char> {
        match v {
            ServiceCondition::ServiceHealthy => "service_healthy"@,
            ServiceCondition::ServiceStarted => "service_started"@,
        }
    }

    proof fn lemma_parse_formatted(v: ServiceCondition) {
        reveal_strlit("service_healthy");
        reveal_strlit("service_started");
        assert("service_healthy"@.len() == 15);
        assert("service_started"@.len() == 15);
        assert("service_healthy"@[8] != "service_started"@[8]);
    }

    fn iv_from_str(s: &str) -> (r: Result<ServiceCondition, InvalidValueError>) {
        ServiceCondition::from_str(s)
    }

    fn fmt_iv(&self) -> (r: String) {
        self.to_string()
    }

    fn is_valid(&self) -> (r: bool) {
        true
    }
}

/// The condition on a service that another service waits for.
#[derive(Debug, PartialEq, Eq)]
pub struct DependsOnService {
    /// What the other service must have reached before this one is started.
    pub condition: Option<RawOr<ServiceCondition>>,
}

/// A [`DependsOnService`], as plain values.
pub struct DependsOnServiceView {
    pub condition: Option<RawOrView<ServiceCondition>>,
}

impl DeepView for DependsOnService {
    type V = DependsOnServiceView;

    open spec fn deep_view(&self) -> DependsOnServiceView {
        DependsOnServiceView {
            condition: self.condition.deep_view(),
        }
    }
}

impl DependsOnService {
    /// The keys under which the fields are written, in the order in which
    /// they are written.
    pub open spec fn field_names() -> Seq<Seq<char>> {
        seq![
            "condition"@,
        ]
    }

    /// The value that is read from the nodes of the fields: each field is
    /// read in its turn, and the first failure is the failure of the whole.
    pub open spec fn from_slots(slots: Seq<Option<NodeView>>) -> Result<DependsOnServiceView, ErrorView> {
        let condition = optional_of::<RawOr<ServiceCondition>>(slots[0]);
        if condition is Err {
            Err(condition->Err_0)
        } else {
            Ok(
                DependsOnServiceView {
                    condition: condition->Ok_0,
                },
            )
        }
    }

    /// The fields with the nodes that write them.  A field that is left out
    /// has no node.
    pub open spec fn field_nodes(v: DependsOnServiceView) -> Seq<(Seq<char>, Option<NodeView>)> {
        seq![
            ("condition"@, optional_node::<RawOr<ServiceCondition>>(v.condition)),
        ]
    }

    /// Read the fields from the mapping `node`.
    fn from_mapping(node: &Node) -> (r: Result<DependsOnService, Error>)
        ensures
            decode_result(r) == match slots_of(node.deep_view(), Self::field_names(), "a dependency on a service"@) {
                Err(e) => Err(e),
                Ok(slots) => Self::from_slots(slots),
            },
    {
        let names: Vec<&str> = vec!["condition"];
        proof {
            assert(names_view(names@) =~= Self::field_names());
        }
        let slots = match struct_slots(node, &names, "a dependency on a service") {
            Ok(slots) => slots,
            Err(e) => {
                return Err(e);
            },
        };
        let condition = match decode_optional::<RawOr<ServiceCondition>>(slots[0]) {
            Ok(v) => v,
            Err(e) => {
                return Err(e);
            },
        };
        Ok(DependsOnService { condition })
    }

    /// Write the fields as a mapping.
    fn to_mapping(&self) -> (r: Node)
        requires
            Self::fields_writable(self.deep_view()),
        ensures
            r.deep_view() == NodeView::Mapping(present(Self::field_nodes(self.deep_view()))),
    {
        let mut fields: Vec<(&str, Option<Node>)> = Vec::new();
        fields.push(("condition", encode_optional::<RawOr<ServiceCondition>>(&self.condition)));
        proof {
            assert(fields_view(fields@) =~= Self::field_nodes(self.deep_view()));
        }
        mapping_of(fields)
    }

    /// Can every field be written?
    pub open spec fn fields_writable(v: DependsOnServiceView) -> bool {
        &&& Option::<RawOr<ServiceCondition>>::writable(v.condition)
    }

    /// Can every field be written?
    fn all_writable(&self) -> (r: bool)
        ensures
            r == Self::fields_writable(self.deep_view()),
    {
        if !self.condition.is_writable() {
            return false;
        }
        true
    }
}

impl FromNode for DependsOnService {
    open spec fn decoded(node: NodeView) -> Result<DependsOnServiceView, ErrorView> {
        match slots_of(node, Self::field_names(), "a dependency on a service"@) {
            Err(e) => Err(e),
            Ok(slots) => Self::from_slots(slots),
        }
    }

    fn from_node(node: &Node) -> (r: Result<DependsOnService, Error>) {
        Self::from_mapping(node)
    }
}

impl ToNode for DependsOnService {
    open spec fn writable(v: DependsOnServiceView) -> bool {
        Self::fields_writable(v)
    }

    open spec fn encoded(v: DependsOnServiceView) -> NodeView {
        NodeView::Mapping(present(Self::field_nodes(v)))
    }

    fn to_node(&self) -> (r: Node) {
        self.to_mapping()
    }

    fn is_writable(&self) -> (r: bool) {
        self.all_writable()
    }
}

impl Duplicate for DependsOnService {
    fn duplicate(&self) -> (r: DependsOnService) {
        DependsOnService {
            condition: self.condition.duplicate(),
        }
    }
}

impl Clone for DependsOnService {
    fn clone(&self) -> (r: Self)
        ensures
            r.deep_view() == self.deep_view(),
    {
        self.duplicate()
    }
}

/// The fields are merged one by one.
impl MergeOverride for DependsOnService {
    open spec fn merged(base: DependsOnServiceView, ovr: DependsOnServiceView) -> DependsOnServiceView {
        DependsOnServiceView {
            condition: Option::<RawOr<ServiceCondition>>::merged(base.condition, ovr.condition),
        }
    }

    open spec fn sequence_free(v: DependsOnServiceView) -> bool {
        &&& Option::<RawOr<ServiceCondition>>::sequence_free(v.condition)
    }

    proof fn lemma_merge_with_itself(v: DependsOnServiceView) {
        Option::<RawOr<ServiceCondition>>::lemma_merge_with_itself(v.condition);
    }

    fn merge_override(&self, ovr: &DependsOnService) -> (r: DependsOnService) {
        DependsOnService {
            condition: self.condition.merge_override(&ovr.condition),
        }
    }
}

/// The fields are resolved one by one, in the order in which they are
/// declared.
impl InterpolateAll for DependsOnService {
    open spec fn resolved(v: DependsOnServiceView, vars: Map<Seq<char>, Seq<char>>) -> Resolution<DependsOnServiceView> {
        let r0 = Option::<RawOr<ServiceCondition>>::resolved(v.condition, vars);
        let ok0 = r0.failure is None;
        Resolution {
            value: DependsOnServiceView {
                condition: r0.value,
            },
            failure: if !ok0 {
                r0.failure
            } else {
                None
            },
        }
    }

    proof fn lemma_resolved_stays(
        v: DependsOnServiceView,
        vars: Map<Seq<char>, Seq<char>>,
        again: Map<Seq<char>, Seq<char>>,
    ) {
        Option::<RawOr<ServiceCondition>>::lemma_resolved_stays(v.condition, vars, again);
    }

    fn interpolate_all<E: Environment>(&mut self, env: &E) -> (r: Result<(), InterpolationError>) {
        match self.condition.interpolate_all(env) {
            Err(e) => {
                return Err(e);
            },
            Ok(_) => {},
        }
        Ok(())
    }
}

impl DefaultValue for DependsOnService {
    open spec fn default_model() -> DependsOnServiceView {
        DependsOnServiceView {
            condition: None,
        }
    }

    fn default_value() -> (r: DependsOnService) {
        let r = DependsOnService {
            condition: None,
        };
        proof {
        }
        r
    }

    fn is_default(&self) -> (r: bool) {
        proof {
        }
        self.condition.is_none()
    }
}

impl Default for DependsOnService {
    fn default() -> (r: Self)
        ensures
            r.deep_view() == Self::default_model(),
    {
        Self::default_value()
    }
}

} // verus!
