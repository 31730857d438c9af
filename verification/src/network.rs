//! Networks.

use vstd::prelude::*;
use crate::errors::{Error, ErrorView, InterpolationError};
use crate::helpers::{
    decode_flag,
    decode_map,
    decode_map_or_key_value_list,
    decode_optional,
    decode_result,
    decode_true_or_struct,
    empty_map,
    encode_flag,
    encode_map,
    encode_optional,
    encode_true_or_struct,
    fields_view,
    flag_node,
    flag_of,
    map_node,
    map_of,
    map_or_key_value_list,
    mapping_of,
    names_view,
    optional_node,
    optional_of,
    present,
    slots_of,
    struct_slots,
    true_or_struct_node,
    true_or_struct_of,
    DefaultValue,
    FromNode,
    ToNode,
};
use crate::interpolate_all::{InterpolateAll, Resolution};
use crate::interpolation::Environment;
use crate::merge_override::{Duplicate, MergeOverride};
use crate::node::{Node, NodeView};
use crate::raw_or::{RawOr, RawOrView};
use crate::sorted_map::SortedMap;
use crate::external_network::{ExternalNetwork, ExternalNetworkView};

verus! {

/// A network that the services of a file are attached to.
#[derive(Debug, PartialEq, Eq)]
pub struct Network {
    /// The name of the network driver to use.
    pub driver: Option<RawOr<String>>,
    /// Options to pass to the network driver.
    pub driver_opts: SortedMap<RawOr<String>>,
    /// Set if the network is made outside of the file. It excludes all other
    /// options.
    pub external: Option<ExternalNetwork>,
    /// Create a network which has no access to the outside world.
    pub internal: bool,
    /// Enable IPv6 for this network.
    pub enable_ipv6: bool,
    /// Docker labels for this network, specifying various sorts of custom
    /// metadata.
    pub labels: SortedMap<RawOr<String>>,
}

/// A [`Network`], as plain values.
pub struct NetworkView {
    pub driver: Option<RawOrView<Seq<char>>>,
    pub driver_opts: Map<Seq<char>, RawOrView<Seq<char>>>,
    pub external: Option<ExternalNetworkView>,
    pub internal: bool,
    pub enable_ipv6: bool,
    pub labels: Map<Seq<char>, RawOrView<Seq<char>>>,
}

impl DeepView for Network {
    type V = NetworkView;

    open spec fn deep_view(&self) -> NetworkView {
        NetworkView {
            driver: self.driver.deep_view(),
            driver_opts: self.driver_opts.deep_view(),
            external: self.external.deep_view(),
            internal: self.internal.deep_view(),
            enable_ipv6: self.enable_ipv6.deep_view(),
            labels: self.labels.deep_view(),
        }
    }
}

impl Network {
    /// The keys under which the fields are written, in the order in which
    /// they are written.
    pub open spec fn field_names() -> Seq<Seq<char>> {
        seq![
            "driver"@,
            "driver_opts"@,
            "external"@,
            "internal"@,
            "enable_ipv6"@,
            "labels"@,
        ]
    }

    /// The value that is read from the nodes of the fields: each field is
    /// read in its turn, and the first failure is the failure of the whole.
    pub open spec fn from_slots(slots: Seq<Option<NodeView>>) -> Result<NetworkView, ErrorView> {
        let driver = optional_of::<RawOr<String>>(slots[0]);
        let driver_opts = map_of(slots[1], |n: NodeView| SortedMap::<RawOr<String>>::decoded(n));
        let external = true_or_struct_of::<ExternalNetwork>(slots[2]);
        let internal = flag_of(slots[3]);
        let enable_ipv6 = flag_of(slots[4]);
        let labels = map_of(slots[5], |n: NodeView| map_or_key_value_list(n));
        if driver is Err {
            Err(driver->Err_0)
        } else if driver_opts is Err {
            Err(driver_opts->Err_0)
        } else if external is Err {
            Err(external->Err_0)
        } else if internal is Err {
            Err(internal->Err_0)
        } else if enable_ipv6 is Err {
            Err(enable_ipv6->Err_0)
        } else if labels is Err {
            Err(labels->Err_0)
        } else {
            Ok(
                NetworkView {
                    driver: driver->Ok_0,
                    driver_opts: driver_opts->Ok_0,
                    external: external->Ok_0,
                    internal: internal->Ok_0,
                    enable_ipv6: enable_ipv6->Ok_0,
                    labels: labels->Ok_0,
                },
            )
        }
    }

    /// The fields with the nodes that write them.  A field that is left out
    /// has no node.
    pub open spec fn field_nodes(v: NetworkView) -> Seq<(Seq<char>, Option<NodeView>)> {
        seq![
            ("driver"@, optional_node::<RawOr<String>>(v.driver)),
            ("driver_opts"@, map_node::<RawOr<String>>(v.driver_opts)),
            ("external"@, true_or_struct_node::<ExternalNetwork>(v.external)),
            ("internal"@, flag_node(v.internal)),
            ("enable_ipv6"@, flag_node(v.enable_ipv6)),
            ("labels"@, map_node::<RawOr<String>>(v.labels)),
        ]
    }

    /// Read the fields from the mapping `node`.
    fn from_mapping(node: &Node) -> (r: Result<Network, Error>)
        ensures
            decode_result(r) == match slots_of(node.deep_view(), Self::field_names(), "a network"@) {
                Err(e) => Err(e),
                Ok(slots) => Self::from_slots(slots),
            },
    {
        let names: Vec<&str> = vec!["driver", "driver_opts", "external", "internal", "enable_ipv6", "labels"];
        proof {
            assert(names_view(names@) =~= Self::field_names());
        }
        let slots = match struct_slots(node, &names, "a network") {
            Ok(slots) => slots,
            Err(e) => {
                return Err(e);
            },
        };
        let driver = match decode_optional::<RawOr<String>>(slots[0]) {
            Ok(v) => v,
            Err(e) => {
                return Err(e);
            },
        };
        let driver_opts = match decode_map::<RawOr<String>>(slots[1]) {
            Ok(v) => v,
            Err(e) => {
                return Err(e);
            },
        };
        let external = match decode_true_or_struct::<ExternalNetwork>(slots[2]) {
            Ok(v) => v,
            Err(e) => {
                return Err(e);
            },
        };
        let internal = match decode_flag(slots[3]) {
            Ok(v) => v,
            Err(e) => {
                return Err(e);
            },
        };
        let enable_ipv6 = match decode_flag(slots[4]) {
            Ok(v) => v,
            Err(e) => {
                return Err(e);
            },
        };
        let labels = match decode_map_or_key_value_list(slots[5]) {
            Ok(v) => v,
            Err(e) => {
                return Err(e);
            },
        };
        Ok(Network { driver, driver_opts, external, internal, enable_ipv6, labels })
    }

    /// Write the fields as a mapping.
    fn to_mapping(&self) -> (r: Node)
        requires
            Self::fields_writable(self.deep_view()),
        ensures
            r.deep_view() == NodeView::Mapping(present(Self::field_nodes(self.deep_view()))),
    {
        let mut fields: Vec<(&str, Option<Node>)> = Vec::new();
        fields.push(("driver", encode_optional::<RawOr<String>>(&self.driver)));
        fields.push(("driver_opts", encode_map::<RawOr<String>>(&self.driver_opts)));
        fields.push(("external", encode_true_or_struct::<ExternalNetwork>(&self.external)));
        fields.push(("internal", encode_flag(&self.internal)));
        fields.push(("enable_ipv6", encode_flag(&self.enable_ipv6)));
        fields.push(("labels", encode_map::<RawOr<String>>(&self.labels)));
        proof {
            assert(fields_view(fields@) =~= Self::field_nodes(self.deep_view()));
        }
        mapping_of(fields)
    }

    /// Can every field be written?
    pub open spec fn fields_writable(v: NetworkView) -> bool {
        &&& Option::<RawOr<String>>::writable(v.driver)
        &&& SortedMap::<RawOr<String>>::writable(v.driver_opts)
        &&& Option::<ExternalNetwork>::writable(v.external)
        &&& true
        &&& true
        &&& SortedMap::<RawOr<String>>::writable(v.labels)
    }

    /// Can every field be written?
    fn all_writable(&self) -> (r: bool)
        ensures
            r == Self::fields_writable(self.deep_view()),
    {
        if !self.driver.is_writable() {
            return false;
        }
        if !self.driver_opts.is_writable() {
            return false;
        }
        if !self.external.is_writable() {
            return false;
        }
        if !self.labels.is_writable() {
            return false;
        }
        true
    }
}

impl FromNode for Network {
    open spec fn decoded(node: NodeView) -> Result<NetworkView, ErrorView> {
        match slots_of(node, Self::field_names(), "a network"@) {
            Err(e) => Err(e),
            Ok(slots) => Self::from_slots(slots),
        }
    }

    fn from_node(node: &Node) -> (r: Result<Network, Error>) {
        Self::from_mapping(node)
    }
}

impl ToNode for Network {
    open spec fn writable(v: NetworkView) -> bool {
        Self::fields_writable(v)
    }

    open spec fn encoded(v: NetworkView) -> NodeView {
        NodeView::Mapping(present(Self::field_nodes(v)))
    }

    fn to_node(&self) -> (r: Node) {
        self.to_mapping()
    }

    fn is_writable(&self) -> (r: bool) {
        self.all_writable()
    }
}

impl Duplicate for Network {
    fn duplicate(&self) -> (r: Network) {
        Network {
            driver: self.driver.duplicate(),
            driver_opts: self.driver_opts.duplicate(),
            external: self.external.duplicate(),
            internal: self.internal.duplicate(),
            enable_ipv6: self.enable_ipv6.duplicate(),
            labels: self.labels.duplicate(),
        }
    }
}

impl Clone for Network {
    fn clone(&self) -> (r: Self)
        ensures
            r.deep_view() == self.deep_view(),
    {
        self.duplicate()
    }
}

/// The fields are merged one by one.
impl MergeOverride for Network {
    open spec fn merged(base: NetworkView, ovr: NetworkView) -> NetworkView {
        NetworkView {
            driver: Option::<RawOr<String>>::merged(base.driver, ovr.driver),
            driver_opts: SortedMap::<RawOr<String>>::merged(base.driver_opts, ovr.driver_opts),
            external: Option::<ExternalNetwork>::merged(base.external, ovr.external),
            internal: bool::merged(base.internal, ovr.internal),
            enable_ipv6: bool::merged(base.enable_ipv6, ovr.enable_ipv6),
            labels: SortedMap::<RawOr<String>>::merged(base.labels, ovr.labels),
        }
    }

    open spec fn sequence_free(v: NetworkView) -> bool {
        &&& Option::<RawOr<String>>::sequence_free(v.driver)
        &&& SortedMap::<RawOr<String>>::sequence_free(v.driver_opts)
        &&& Option::<ExternalNetwork>::sequence_free(v.external)
        &&& bool::sequence_free(v.internal)
        &&& bool::sequence_free(v.enable_ipv6)
        &&& SortedMap::<RawOr<String>>::sequence_free(v.labels)
    }

    proof fn lemma_merge_with_itself(v: NetworkView) {
        Option::<RawOr<String>>::lemma_merge_with_itself(v.driver);
        SortedMap::<RawOr<String>>::lemma_merge_with_itself(v.driver_opts);
        Option::<ExternalNetwork>::lemma_merge_with_itself(v.external);
        bool::lemma_merge_with_itself(v.internal);
        bool::lemma_merge_with_itself(v.enable_ipv6);
        SortedMap::<RawOr<String>>::lemma_merge_with_itself(v.labels);
    }

    fn merge_override(&self, ovr: &Network) -> (r: Network) {
        Network {
            driver: self.driver.merge_override(&ovr.driver),
            driver_opts: self.driver_opts.merge_override(&ovr.driver_opts),
            external: self.external.merge_override(&ovr.external),
            internal: self.internal.merge_override(&ovr.internal),
            enable_ipv6: self.enable_ipv6.merge_override(&ovr.enable_ipv6),
            labels: self.labels.merge_override(&ovr.labels),
        }
    }
}

/// The fields are resolved one by one, in the order in which they are
/// declared.
impl InterpolateAll for Network {
    open spec fn resolved(v: NetworkView, vars: Map<Seq<char>, Seq<char>>) -> Resolution<NetworkView> {
        let r0 = Option::<RawOr<String>>::resolved(v.driver, vars);
        let r1 = SortedMap::<RawOr<String>>::resolved(v.driver_opts, vars);
        let r2 = Option::<ExternalNetwork>::resolved(v.external, vars);
        let r3 = bool::resolved(v.internal, vars);
        let r4 = bool::resolved(v.enable_ipv6, vars);
        let r5 = SortedMap::<RawOr<String>>::resolved(v.labels, vars);
        let ok0 = r0.failure is None;
        let ok1 = ok0 && r1.failure is None;
        let ok2 = ok1 && r2.failure is None;
        let ok3 = ok2 && r3.failure is None;
        let ok4 = ok3 && r4.failure is None;
        let ok5 = ok4 && r5.failure is None;
        Resolution {
            value: NetworkView {
                driver: r0.value,
                driver_opts: if ok0 {
                    r1.value
                } else {
                    v.driver_opts
                },
                external: if ok1 {
                    r2.value
                } else {
                    v.external
                },
                internal: if ok2 {
                    r3.value
                } else {
                    v.internal
                },
                enable_ipv6: if ok3 {
                    r4.value
                } else {
                    v.enable_ipv6
                },
                labels: if ok4 {
                    r5.value
                } else {
                    v.labels
                },
            },
            failure: if !ok0 {
                r0.failure
            } else if !ok1 {
                r1.failure
            } else if !ok2 {
                r2.failure
            } else if !ok3 {
                r3.failure
            } else if !ok4 {
                r4.failure
            } else if !ok5 {
                r5.failure
            } else {
                None
            },
        }
    }

    proof fn lemma_resolved_stays(
        v: NetworkView,
        vars: Map<Seq<char>, Seq<char>>,
        again: Map<Seq<char>, Seq<char>>,
    ) {
        Option::<RawOr<String>>::lemma_resolved_stays(v.driver, vars, again);
        SortedMap::<RawOr<String>>::lemma_resolved_stays(v.driver_opts, vars, again);
        Option::<ExternalNetwork>::lemma_resolved_stays(v.external, vars, again);
        bool::lemma_resolved_stays(v.internal, vars, again);
        bool::lemma_resolved_stays(v.enable_ipv6, vars, again);
        SortedMap::<RawOr<String>>::lemma_resolved_stays(v.labels, vars, again);
    }

    fn interpolate_all<E: Environment>(&mut self, env: &E) -> (r: Result<(), InterpolationError>) {
        match self.driver.interpolate_all(env) {
            Err(e) => {
                return Err(e);
            },
            Ok(_) => {},
        }
        match self.driver_opts.interpolate_all(env) {
            Err(e) => {
                return Err(e);
            },
            Ok(_) => {},
        }
        match self.external.interpolate_all(env) {
            Err(e) => {
                return Err(e);
            },
            Ok(_) => {},
        }
        match self.internal.interpolate_all(env) {
            Err(e) => {
                return Err(e);
            },
            Ok(_) => {},
        }
        match self.enable_ipv6.interpolate_all(env) {
            Err(e) => {
                return Err(e);
            },
            Ok(_) => {},
        }
        match self.labels.interpolate_all(env) {
            Err(e) => {
                return Err(e);
            },
            Ok(_) => {},
        }
        Ok(())
    }
}

impl DefaultValue for Network {
    open spec fn default_model() -> NetworkView {
        NetworkView {
            driver: None,
            driver_opts: Map::empty(),
            external: None,
            internal: false,
            enable_ipv6: false,
            labels: Map::empty(),
        }
    }

    fn default_value() -> (r: Network) {
        let r = Network {
            driver: None,
            driver_opts: empty_map(),
            external: None,
            internal: false,
            enable_ipv6: false,
            labels: empty_map(),
        };
        proof {
        }
        r
    }

    fn is_default(&self) -> (r: bool) {
        proof {
        }
        self.driver.is_none()
            && self.driver_opts.has_no_entries()
            && self.external.is_none()
            && !self.internal
            && !self.enable_ipv6
            && self.labels.has_no_entries()
    }
}

impl Default for Network {
    fn default() -> (r: Self)
        ensures
            r.deep_view() == Self::default_model(),
    {
        Self::default_value()
    }
}

} // verus!
