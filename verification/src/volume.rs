//! Named volumes.

use vstd::prelude::*;
use crate::errors::{Error, ErrorView, InterpolationError};
use crate::helpers::{
    decode_map_or_key_optional_value_list,
    decode_map_or_key_value_list,
    decode_optional,
    decode_result,
    empty_map,
    encode_map,
    encode_optional,
    fields_view,
    map_node,
    map_of,
    map_or_key_optional_value_list,
    map_or_key_value_list,
    mapping_of,
    names_view,
    optional_node,
    optional_of,
    present,
    slots_of,
    struct_slots,
    DefaultValue,
    FromNode,
    ToNode,
};
use crate::interpolate_all::{InterpolateAll, Resolution};
use crate::interpolation::Environment;
use crate::merge_override::{Duplicate, MergeOverride};
use crate::node::{Node, NodeView};
use crate::raw_or::{RawOr, RawOrView};
use crate::sorted_map::SortedMap;

verus! {

/// A named volume.
#[derive(Debug, PartialEq, Eq)]
pub struct Volume {
    /// The name of the Docker volume driver to use. Defaults to `local`.
    pub driver: Option<RawOr<String>>,
    /// Key-value options to pass to the volume driver.
    pub driver_opts: SortedMap<RawOr<String>>,
    /// Set if the volume was made outside of the file. It excludes the options
    /// of the driver.
    pub external: Option<bool>,
    /// Docker labels for this volume, specifying various sorts of custom
    /// metadata.
    pub labels: SortedMap<Option<RawOr<String>>>,
}

/// A [`Volume`], as plain values.
pub struct VolumeView {
    pub driver: Option<RawOrView<Seq<char>>>,
    pub driver_opts: Map<Seq<char>, RawOrView<Seq<char>>>,
    pub external: Option<bool>,
    pub labels: Map<Seq<char>, Option<RawOrView<Seq<char>>>>,
}

impl DeepView for Volume {
    type V = VolumeView;

    open spec fn deep_view(&self) -> VolumeView {
        VolumeView {
            driver: self.driver.deep_view(),
            driver_opts: self.driver_opts.deep_view(),
            external: self.external.deep_view(),
            labels: self.labels.deep_view(),
        }
    }
}

impl Volume {
    /// The keys under which the fields are written, in the order in which
    /// they are written.
    pub open spec fn field_names() -> Seq<Seq<char>> {
        seq![
            "driver"@,
            "driver_opts"@,
            "external"@,
            "labels"@,
        ]
    }

    /// The value that is read from the nodes of the fields: each field is
    /// read in its turn, and the first failure is the failure of the whole.
    pub open spec fn from_slots(slots: Seq<Option<NodeView>>) -> Result<VolumeView, ErrorView> {
        let driver = optional_of::<RawOr<String>>(slots[0]);
        let driver_opts = map_of(slots[1], |n: NodeView| map_or_key_value_list(n));
        let external = optional_of::<bool>(slots[2]);
        let labels = map_of(slots[3], |n: NodeView| map_or_key_optional_value_list(n));
        if driver is Err {
            Err(driver->Err_0)
        } else if driver_opts is Err {
            Err(driver_opts->Err_0)
        } else if external is Err {
            Err(external->Err_0)
        } else if labels is Err {
            Err(labels->Err_0)
        } else {
            Ok(
                VolumeView {
                    driver: driver->Ok_0,
                    driver_opts: driver_opts->Ok_0,
                    external: external->Ok_0,
                    labels: labels->Ok_0,
                },
            )
        }
    }

    /// The fields with the nodes that write them.  A field that is left out
    /// has no node.
    pub open spec fn field_nodes(v: VolumeView) -> Seq<(Seq<char>, Option<NodeView>)> {
        seq![
            ("driver"@, optional_node::<RawOr<String>>(v.driver)),
            ("driver_opts"@, map_node::<RawOr<String>>(v.driver_opts)),
            ("external"@, optional_node::<bool>(v.external)),
            ("labels"@, map_node::<Option<RawOr<String>>>(v.labels)),
        ]
    }

    /// Read the fields from the mapping `node`.
    fn from_mapping(node: &Node) -> (r: Result<Volume, Error>)
        ensures
            decode_result(r) == match slots_of(node.deep_view(), Self::field_names(), "a volume"@) {
                Err(e) => Err(e),
                Ok(slots) => Self::from_slots(slots),
            },
    {
        let names: Vec<&str> = vec!["driver", "driver_opts", "external", "labels"];
        proof {
            assert(names_view(names@) =~= Self::field_names());
        }
        let slots = match struct_slots(node, &names, "a volume") {
            Ok(slots) => slots,
            Err(e) => {
                return Err(e);
            },
        };
        let driver = match decode_optional::<RawOr<String>>(slots[0]) {
            Ok(v) => v,
            Err(e) => {
                return Err(e);
            },
        };
        let driver_opts = match decode_map_or_key_value_list(slots[1]) {
            Ok(v) => v,
            Err(e) => {
                return Err(e);
            },
        };
        let external = match decode_optional::<bool>(slots[2]) {
            Ok(v) => v,
            Err(e) => {
                return Err(e);
            },
        };
        let labels = match decode_map_or_key_optional_value_list(slots[3]) {
            Ok(v) => v,
            Err(e) => {
                return Err(e);
            },
        };
        Ok(Volume { driver, driver_opts, external, labels })
    }

    /// Write the fields as a mapping.
    fn to_mapping(&self) -> (r: Node)
        requires
            Self::fields_writable(self.deep_view()),
        ensures
            r.deep_view() == NodeView::Mapping(present(Self::field_nodes(self.deep_view()))),
    {
        let mut fields: Vec<(&str, Option<Node>)> = Vec::new();
        fields.push(("driver", encode_optional::<RawOr<String>>(&self.driver)));
        fields.push(("driver_opts", encode_map::<RawOr<String>>(&self.driver_opts)));
        fields.push(("external", encode_optional::<bool>(&self.external)));
        fields.push(("labels", encode_map::<Option<RawOr<String>>>(&self.labels)));
        proof {
            assert(fields_view(fields@) =~= Self::field_nodes(self.deep_view()));
        }
        mapping_of(fields)
    }

    /// Can every field be written?
    pub open spec fn fields_writable(v: VolumeView) -> bool {
        &&& Option::<RawOr<String>>::writable(v.driver)
        &&& SortedMap::<RawOr<String>>::writable(v.driver_opts)
        &&& Option::<bool>::writable(v.external)
        &&& SortedMap::<Option<RawOr<String>>>::writable(v.labels)
    }

    /// Can every field be written?
    fn all_writable(&self) -> (r: bool)
        ensures
            r == Self::fields_writable(self.deep_view()),
    {
        if !self.driver.is_writable() {
            return false;
        }
        if !self.driver_opts.is_writable() {
            return false;
        }
        if !self.external.is_writable() {
            return false;
        }
        if !self.labels.is_writable() {
            return false;
        }
        true
    }
}

impl FromNode for Volume {
    open spec fn decoded(node: NodeView) -> Result<VolumeView, ErrorView> {
        match slots_of(node, Self::field_names(), "a volume"@) {
            Err(e) => Err(e),
            Ok(slots) => Self::from_slots(slots),
        }
    }

    fn from_node(node: &Node) -> (r: Result<Volume, Error>) {
        Self::from_mapping(node)
    }
}

impl ToNode for Volume {
    open spec fn writable(v: VolumeView) -> bool {
        Self::fields_writable(v)
    }

    open spec fn encoded(v: VolumeView) -> NodeView {
        NodeView::Mapping(present(Self::field_nodes(v)))
    }

    fn to_node(&self) -> (r: Node) {
        self.to_mapping()
    }

    fn is_writable(&self) -> (r: bool) {
        self.all_writable()
    }
}

impl Duplicate for Volume {
    fn duplicate(&self) -> (r: Volume) {
        Volume {
            driver: self.driver.duplicate(),
            driver_opts: self.driver_opts.duplicate(),
            external: self.external.duplicate(),
            labels: self.labels.duplicate(),
        }
    }
}

impl Clone for Volume {
    fn clone(&self) -> (r: Self)
        ensures
            r.deep_view() == self.deep_view(),
    {
        self.duplicate()
    }
}

/// The fields are merged one by one.
impl MergeOverride for Volume {
    open spec fn merged(base: VolumeView, ovr: VolumeView) -> VolumeView {
        VolumeView {
            driver: Option::<RawOr<String>>::merged(base.driver, ovr.driver),
            driver_opts: SortedMap::<RawOr<String>>::merged(base.driver_opts, ovr.driver_opts),
            external: Option::<bool>::merged(base.external, ovr.external),
            labels: SortedMap::<Option<RawOr<String>>>::merged(base.labels, ovr.labels),
        }
    }

    open spec fn sequence_free(v: VolumeView) -> bool {
        &&& Option::<RawOr<String>>::sequence_free(v.driver)
        &&& SortedMap::<RawOr<String>>::sequence_free(v.driver_opts)
        &&& Option::<bool>::sequence_free(v.external)
        &&& SortedMap::<Option<RawOr<String>>>::sequence_free(v.labels)
    }

    proof fn lemma_merge_with_itself(v: VolumeView) {
        Option::<RawOr<String>>::lemma_merge_with_itself(v.driver);
        SortedMap::<RawOr<String>>::lemma_merge_with_itself(v.driver_opts);
        Option::<bool>::lemma_merge_with_itself(v.external);
        SortedMap::<Option<RawOr<String>>>::lemma_merge_with_itself(v.labels);
    }

    fn merge_override(&self, ovr: &Volume) -> (r: Volume) {
        Volume {
            driver: self.driver.merge_override(&ovr.driver),
            driver_opts: self.driver_opts.merge_override(&ovr.driver_opts),
            external: self.external.merge_override(&ovr.external),
            labels: self.labels.merge_override(&ovr.labels),
        }
    }
}

/// The fields are resolved one by one, in the order in which they are
/// declared.
impl InterpolateAll for Volume {
    open spec fn resolved(v: VolumeView, vars: Map<Seq<char>, Seq<char>>) -> Resolution<VolumeView> {
        let r0 = Option::<RawOr<String>>::resolved(v.driver, vars);
        let r1 = SortedMap::<RawOr<String>>::resolved(v.driver_opts, vars);
        let r2 = Option::<bool>::resolved(v.external, vars);
        let r3 = SortedMap::<Option<RawOr<String>>>::resolved(v.labels, vars);
        let ok0 = r0.failure is None;
        let ok1 = ok0 && r1.failure is None;
        let ok2 = ok1 && r2.failure is None;
        let ok3 = ok2 && r3.failure is None;
        Resolution {
            value: VolumeView {
                driver: r0.value,
                driver_opts: if ok0 {
                    r1.value
                } else {
                    v.driver_opts
                },
                external: if ok1 {
                    r2.value
                } else {
                    v.external
                },
                labels: if ok2 {
                    r3.value
                } else {
                    v.labels
                },
            },
            failure: if !ok0 {
                r0.failure
            } else if !ok1 {
                r1.failure
            } else if !ok2 {
                r2.failure
            } else if !ok3 {
                r3.failure
            } else {
                None
            },
        }
    }

    proof fn lemma_resolved_stays(
        v: VolumeView,
        vars: Map<Seq<char>, Seq<char>>,
        again: Map<Seq<char>, Seq<char>>,
    ) {
        Option::<RawOr<String>>::lemma_resolved_stays(v.driver, vars, again);
        SortedMap::<RawOr<String>>::lemma_resolved_stays(v.driver_opts, vars, again);
        Option::<bool>::lemma_resolved_stays(v.external, vars, again);
        SortedMap::<Option<RawOr<String>>>::lemma_resolved_stays(v.labels, vars, again);
    }

    fn interpolate_all<E: Environment>(&mut self, env: &E) -> (r: Result<(), InterpolationError>) {
        match self.driver.interpolate_all(env) {
            Err(e) => {
                return Err(e);
            },
            Ok(_) => {},
        }
        match self.driver_opts.interpolate_all(env) {
            Err(e) => {
                return Err(e);
            },
            Ok(_) => {},
        }
        match self.external.interpolate_all(env) {
            Err(e) => {
                return Err(e);
            },
            Ok(_) => {},
        }
        match self.labels.interpolate_all(env) {
            Err(e) => {
                return Err(e);
            },
            Ok(_) => {},
        }
        Ok(())
    }
}

impl DefaultValue for Volume {
    open spec fn default_model() -> VolumeView {
        VolumeView {
            driver: None,
            driver_opts: Map::empty(),
            external: None,
            labels: Map::empty(),
        }
    }

    fn default_value() -> (r: Volume) {
        let r = Volume {
            driver: None,
            driver_opts: empty_map(),
            external: None,
            labels: empty_map(),
        };
        proof {
        }
        r
    }

    fn is_default(&self) -> (r: bool) {
        proof {
        }
        self.driver.is_none()
            && self.driver_opts.has_no_entries()
            && self.external.is_none()
            && self.labels.has_no_entries()
    }
}

impl Default for Volume {
    fn default() -> (r: Self)
        ensures
            r.deep_view() == Self::default_model(),
    {
        Self::default_value()
    }
}

} // verus!
