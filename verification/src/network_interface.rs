//! Connections of services to networks.

use vstd::prelude::*;
use crate::errors::{Error, ErrorView, InterpolationError};
use crate::helpers::{
    decode_list,
    decode_result,
    encode_list,
    fields_view,
    list_node,
    list_of,
    mapping_of,
    names_view,
    present,
    slots_of,
    struct_slots,
    DefaultValue,
    FromNode,
    ToNode,
};
use crate::interpolate_all::{InterpolateAll, Resolution};
use crate::interpolation::Environment;
use crate::merge_override::{Duplicate, MergeOverride};
use crate::node::{Node, NodeView};
use crate::raw_or::{RawOr, RawOrView};

verus! {

/// A connection from a service to a network.
#[derive(Debug, PartialEq, Eq)]
pub struct NetworkInterface {
    /// Additional hostnames by which this service is known on this network.
    pub aliases: Vec<RawOr<String>>,
}

/// A [`NetworkInterface`], as plain values.
pub struct NetworkInterfaceView {
    pub aliases: Seq<RawOrView<Seq<char>>>,
}

impl DeepView for NetworkInterface {
    type V = NetworkInterfaceView;

    open spec fn deep_view(&self) -> NetworkInterfaceView {
        NetworkInterfaceView {
            aliases: self.aliases.deep_view(),
        }
    }
}

impl NetworkInterface {
    /// The keys under which the fields are written, in the order in which
    /// they are written.
    pub open spec fn field_names() -> Seq<Seq<char>> {
        seq![
            "aliases"@,
        ]
    }

    /// The value that is read from the nodes of the fields: each field is
    /// read in its turn, and the first failure is the failure of the whole.
    pub open spec fn from_slots(slots: Seq<Option<NodeView>>) -> Result<NetworkInterfaceView, ErrorView> {
        let aliases = list_of::<RawOr<String>>(slots[0]);
        if aliases is Err {
            Err(aliases->Err_0)
        } else {
            Ok(
                NetworkInterfaceView {
                    aliases: aliases->Ok_0,
                },
            )
        }
    }

    /// The fields with the nodes that write them.  A field that is left out
    /// has no node.
    pub open spec fn field_nodes(v: NetworkInterfaceView) -> Seq<(Seq<char>, Option<NodeView>)> {
        seq![
            ("aliases"@, list_node::<RawOr<String>>(v.aliases)),
        ]
    }

    /// Read the fields from the mapping `node`.
    fn from_mapping(node: &Node) -> (r: Result<NetworkInterface, Error>)
        ensures
            decode_result(r) == match slots_of(node.deep_view(), Self::field_names(), "a network interface"@) {
                Err(e) => Err(e),
                Ok(slots) => Self::from_slots(slots),
            },
    {
        let names: Vec<&str> = vec!["aliases"];
        proof {
            assert(names_view(names@) =~= Self::field_names());
        }
        let slots = match struct_slots(node, &names, "a network interface") {
            Ok(slots) => slots,
            Err(e) => {
                return Err(e);
            },
        };
        let aliases = match decode_list::<RawOr<String>>(slots[0]) {
            Ok(v) => v,
            Err(e) => {
                return Err(e);
            },
        };
        Ok(NetworkInterface { aliases })
    }

    /// Write the fields as a mapping.
    fn to_mapping(&self) -> (r: Node)
        requires
            Self::fields_writable(self.deep_view()),
        ensures
            r.deep_view() == NodeView::Mapping(present(Self::field_nodes(self.deep_view()))),
    {
        let mut fields: Vec<(&str, Option<Node>)> = Vec::new();
        fields.push(("aliases", encode_list::<RawOr<String>>(&self.aliases)));
        proof {
            assert(fields_view(fields@) =~= Self::field_nodes(self.deep_view()));
        }
        mapping_of(fields)
    }

    /// Can every field be written?
    pub open spec fn fields_writable(v: NetworkInterfaceView) -> bool {
        &&& Vec::<RawOr<String>>::writable(v.aliases)
    }

    /// Can every field be written?
    fn all_writable(&self) -> (r: bool)
        ensures
            r == Self::fields_writable(self.deep_view()),
    {
        if !self.aliases.is_writable() {
            return false;
        }
        true
    }
}

impl FromNode for NetworkInterface {
    open spec fn decoded(node: NodeView) -> Result<NetworkInterfaceView, ErrorView> {
        match slots_of(node, Self::field_names(), "a network interface"@) {
            Err(e) => Err(e),
            Ok(slots) => Self::from_slots(slots),
        }
    }

    fn from_node(node: &Node) -> (r: Result<NetworkInterface, Error>) {
        Self::from_mapping(node)
    }
}

impl ToNode for NetworkInterface {
    open spec fn writable(v: NetworkInterfaceView) -> bool {
        Self::fields_writable(v)
    }

    open spec fn encoded(v: NetworkInterfaceView) -> NodeView {
        NodeView::Mapping(present(Self::field_nodes(v)))
    }

    fn to_node(&self) -> (r: Node) {
        self.to_mapping()
    }

    fn is_writable(&self) -> (r: bool) {
        self.all_writable()
    }
}

impl Duplicate for NetworkInterface {
    fn duplicate(&self) -> (r: NetworkInterface) {
        NetworkInterface {
            aliases: self.aliases.duplicate(),
        }
    }
}

impl Clone for NetworkInterface {
    fn clone(&self) -> (r: Self)
        ensures
            r.deep_view() == self.deep_view(),
    {
        self.duplicate()
    }
}

/// The fields are merged one by one.
impl MergeOverride for NetworkInterface {
    open spec fn merged(base: NetworkInterfaceView, ovr: NetworkInterfaceView) -> NetworkInterfaceView {
        NetworkInterfaceView {
            aliases: Vec::<RawOr<String>>::merged(base.aliases, ovr.aliases),
        }
    }

    open spec fn sequence_free(v: NetworkInterfaceView) -> bool {
        &&& Vec::<RawOr<String>>::sequence_free(v.aliases)
    }

    proof fn lemma_merge_with_itself(v: NetworkInterfaceView) {
        Vec::<RawOr<String>>::lemma_merge_with_itself(v.aliases);
    }

    fn merge_override(&self, ovr: &NetworkInterface) -> (r: NetworkInterface) {
        NetworkInterface {
            aliases: self.aliases.merge_override(&ovr.aliases),
        }
    }
}

/// The fields are resolved one by one, in the order in which they are
/// declared.
impl InterpolateAll for NetworkInterface {
    open spec fn resolved(v: NetworkInterfaceView, vars: Map<Seq<char>, Seq<char>>) -> Resolution<NetworkInterfaceView> {
        let r0 = Vec::<RawOr<String>>::resolved(v.aliases, vars);
        let ok0 = r0.failure is None;
        Resolution {
            value: NetworkInterfaceView {
                aliases: r0.value,
            },
            failure: if !ok0 {
                r0.failure
            } else {
                None
            },
        }
    }

    proof fn lemma_resolved_stays(
        v: NetworkInterfaceView,
        vars: Map<Seq<char>, Seq<char>>,
        again: Map<Seq<char>, Seq<char>>,
    ) {
        Vec::<RawOr<String>>::lemma_resolved_stays(v.aliases, vars, again);
    }

    fn interpolate_all<E: Environment>(&mut self, env: &E) -> (r: Result<(), InterpolationError>) {
        match self.aliases.interpolate_all(env) {
            Err(e) => {
                return Err(e);
            },
            Ok(_) => {},
        }
        Ok(())
    }
}

impl DefaultValue for NetworkInterface {
    open spec fn default_model() -> NetworkInterfaceView {
        NetworkInterfaceView {
            aliases: Seq::empty(),
        }
    }

    fn default_value() -> (r: NetworkInterface) {
        let r = NetworkInterface {
            aliases: Vec::new(),
        };
        proof {
            assert(r.aliases.deep_view() =~= Seq::empty());
        }
        r
    }

    fn is_default(&self) -> (r: bool) {
        proof {
            assert(self.aliases.len() == 0 <==> self.aliases.deep_view() =~= Seq::empty());
        }
        self.aliases.len() == 0
    }
}

impl Default for NetworkInterface {
    fn default() -> (r: Self)
        ensures
            r.deep_view() == Self::default_model(),
    {
        Self::default_value()
    }
}

} // verus!
