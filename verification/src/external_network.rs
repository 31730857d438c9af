//! Networks that are made outside of the file.

use vstd::prelude::*;
use crate::errors::{Error, ErrorView, InterpolationError};
use crate::helpers::{
    decode_optional,
    decode_result,
    encode_optional,
    fields_view,
    mapping_of,
    names_view,
    optional_node,
    optional_of,
    present,
    slots_of,
    struct_slots,
    DefaultValue,
    FromNode,
    ToNode,
};
use crate::interpolate_all::{InterpolateAll, Resolution};
use crate::interpolation::Environment;
use crate::merge_override::{Duplicate, MergeOverride};
use crate::node::{Node, NodeView};
use crate::raw_or::{RawOr, RawOrView};

verus! {

/// Information about an external network.
#[derive(Debug, PartialEq, Eq)]
pub struct ExternalNetwork {
    /// The external name of this network, if it differs from the name by which
    /// the file refers to it.
    pub name: Option<RawOr<String>>,
}

/// A [`ExternalNetwork`], as plain values.
pub struct ExternalNetworkView {
    pub name: Option<RawOrView<Seq<char>>>,
}

impl DeepView for ExternalNetwork {
    type V = ExternalNetworkView;

    open spec fn deep_view(&self) -> ExternalNetworkView {
        ExternalNetworkView {
            name: self.name.deep_view(),
        }
    }
}

impl ExternalNetwork {
    /// The keys under which the fields are written, in the order in which
    /// they are written.
    pub open spec fn field_names() -> Seq<Seq<char>> {
        seq![
            "name"@,
        ]
    }

    /// The value that is read from the nodes of the fields: each field is
    /// read in its turn, and the first failure is the failure of the whole.
    pub open spec fn from_slots(slots: Seq<Option<NodeView>>) -> Result<ExternalNetworkView, ErrorView> {
        let name = optional_of::<RawOr<String>>(slots[0]);
        if name is Err {
            Err(name->Err_0)
        } else {
            Ok(
                ExternalNetworkView {
                    name: name->Ok_0,
                },
            )
        }
    }

    /// The fields with the nodes that write them.  A field that is left out
    /// has no node.
    pub open spec fn field_nodes(v: ExternalNetworkView) -> Seq<(Seq<char>, Option<NodeView>)> {
        seq![
            ("name"@, optional_node::<RawOr<String>>(v.name)),
        ]
    }

    /// Read the fields from the mapping `node`.
    fn from_mapping(node: &Node) -> (r: Result<ExternalNetwork, Error>)
        ensures
            decode_result(r) == match slots_of(node.deep_view(), Self::field_names(), "an external network"@) {
                Err(e) => Err(e),
                Ok(slots) => Self::from_slots(slots),
            },
    {
        let names: Vec<&str> = vec!["name"];
        proof {
            assert(names_view(names@) =~= Self::field_names());
        }
        let slots = match struct_slots(node, &names, "an external network") {
            Ok(slots) => slots,
            Err(e) => {
                return Err(e);
            },
        };
        let name = match decode_optional::<RawOr<String>>(slots[0]) {
            Ok(v) => v,
            Err(e) => {
                return Err(e);
            },
        };
        Ok(ExternalNetwork { name })
    }

    /// Write the fields as a mapping.
    fn to_mapping(&self) -> (r: Node)
        requires
            Self::fields_writable(self.deep_view()),
        ensures
            r.deep_view() == NodeView::Mapping(present(Self::field_nodes(self.deep_view()))),
    {
        let mut fields: Vec<(&str, Option<Node>)> = Vec::new();
        fields.push(("name", encode_optional::<RawOr<String>>(&self.name)));
        proof {
            assert(fields_view(fields@) =~= Self::field_nodes(self.deep_view()));
        }
        mapping_of(fields)
    }

    /// Can every field be written?
    pub open spec fn fields_writable(v: ExternalNetworkView) -> bool {
        &&& Option::<RawOr<String>>::writable(v.name)
    }

    /// Can every field be written?
    fn all_writable(&self) -> (r: bool)
        ensures
            r == Self::fields_writable(self.deep_view()),
    {
        if !self.name.is_writable() {
            return false;
        }
        true
    }
}

impl FromNode for ExternalNetwork {
    open spec fn decoded(node: NodeView) -> Result<ExternalNetworkView, ErrorView> {
        match slots_of(node, Self::field_names(), "an external network"@) {
            Err(e) => Err(e),
            Ok(slots) => Self::from_slots(slots),
        }
    }

    fn from_node(node: &Node) -> (r: Result<ExternalNetwork, Error>) {
        Self::from_mapping(node)
    }
}

impl ToNode for ExternalNetwork {
    open spec fn writable(v: ExternalNetworkView) -> bool {
        Self::fields_writable(v)
    }

    open spec fn encoded(v: ExternalNetworkView) -> NodeView {
        NodeView::Mapping(present(Self::field_nodes(v)))
    }

    fn to_node(&self) -> (r: Node) {
        self.to_mapping()
    }

    fn is_writable(&self) -> (r: bool) {
        self.all_writable()
    }
}

impl Duplicate for ExternalNetwork {
    fn duplicate(&self) -> (r: ExternalNetwork) {
        ExternalNetwork {
            name: self.name.duplicate(),
        }
    }
}

impl Clone for ExternalNetwork {
    fn clone(&self) -> (r: Self)
        ensures
            r.deep_view() == self.deep_view(),
    {
        self.duplicate()
    }
}

/// The fields are merged one by one.
impl MergeOverride for ExternalNetwork {
    open spec fn merged(base: ExternalNetworkView, ovr: ExternalNetworkView) -> ExternalNetworkView {
        ExternalNetworkView {
            name: Option::<RawOr<String>>::merged(base.name, ovr.name),
        }
    }

    open spec fn sequence_free(v: ExternalNetworkView) -> bool {
        &&& Option::<RawOr<String>>::sequence_free(v.name)
    }

    proof fn lemma_merge_with_itself(v: ExternalNetworkView) {
        Option::<RawOr<String>>::lemma_merge_with_itself(v.name);
    }

    fn merge_override(&self, ovr: &ExternalNetwork) -> (r: ExternalNetwork) {
        ExternalNetwork {
            name: self.name.merge_override(&ovr.name),
        }
    }
}

/// The fields are resolved one by one, in the order in which they are
/// declared.
impl InterpolateAll for ExternalNetwork {
    open spec fn resolved(v: ExternalNetworkView, vars: Map<Seq<char>, Seq<char>>) -> Resolution<ExternalNetworkView> {
        let r0 = Option::<RawOr<String>>::resolved(v.name, vars);
        let ok0 = r0.failure is None;
        Resolution {
            value: ExternalNetworkView {
                name: r0.value,
            },
            failure: if !ok0 {
                r0.failure
            } else {
                None
            },
        }
    }

    proof fn lemma_resolved_stays(
        v: ExternalNetworkView,
        vars: Map<Seq<char>, Seq<char>>,
        again: Map<Seq<char>, Seq<char>>,
    ) {
        Option::<RawOr<String>>::lemma_resolved_stays(v.name, vars, again);
    }

    fn interpolate_all<E: Environment>(&mut self, env: &E) -> (r: Result<(), InterpolationError>) {
        match self.name.interpolate_all(env) {
            Err(e) => {
                return Err(e);
            },
            Ok(_) => {},
        }
        Ok(())
    }
}

impl DefaultValue for ExternalNetwork {
    open spec fn default_model() -> ExternalNetworkView {
        ExternalNetworkView {
            name: None,
        }
    }

    fn default_value() -> (r: ExternalNetwork) {
        let r = ExternalNetwork {
            name: None,
        };
        proof {
        }
        r
    }

    fn is_default(&self) -> (r: bool) {
        proof {
        }
        self.name.is_none()
    }
}

impl Default for ExternalNetwork {
    fn default() -> (r: Self)
        ensures
            r.deep_view() == Self::default_model(),
    {
        Self::default_value()
    }
}

} // verus!
