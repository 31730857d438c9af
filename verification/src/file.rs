//! Whole files.

use vstd::prelude::*;
use crate::errors::{Error, ErrorView, InterpolationError};
use crate::helpers::{
    decode_map_struct_or_null,
    decode_required,
    decode_result,
    empty_map,
    encode_map,
    encode_required,
    fields_view,
    map_node,
    map_of,
    map_struct_or_null,
    mapping_of,
    names_view,
    present,
    required_node,
    required_of,
    slots_of,
    struct_slots,
    DefaultValue,
    FromNode,
    ToNode,
};
use crate::interpolate_all::{InterpolateAll, Resolution};
use crate::interpolation::Environment;
use crate::merge_override::{Duplicate, MergeOverride};
use crate::node::{Node, NodeView};
use crate::sorted_map::SortedMap;
use vstd::string::StringExecFns;
use crate::env_file::EnvFile;
use crate::service::env_of_files;
use crate::sorted_map::entries_map;
use crate::validate::{schema_for, schema_version};
use crate::network::{Network, NetworkView};
use crate::service::{Service, ServiceView};
use crate::text::same_text;
use crate::volume::{Volume, VolumeView};

verus! {

/// A `docker-compose.yml` file.
#[derive(Debug, PartialEq, Eq)]
pub struct File {
    /// The version of the `docker-compose.yml` file format.
    pub version: String,
    /// The individual services which make up this app.
    pub services: SortedMap<Service>,
    /// Named volumes used by this app.
    pub volumes: SortedMap<Volume>,
    /// The networks used by this app.
    pub networks: SortedMap<Network>,
}

/// A [`File`], as plain values.
pub struct FileView {
    pub version: Seq<char>,
    pub services: Map<Seq<char>, ServiceView>,
    pub volumes: Map<Seq<char>, VolumeView>,
    pub networks: Map<Seq<char>, NetworkView>,
}

impl DeepView for File {
    type V = FileView;

    open spec fn deep_view(&self) -> FileView {
        FileView {
            version: self.version.deep_view(),
            services: self.services.deep_view(),
            volumes: self.volumes.deep_view(),
            networks: self.networks.deep_view(),
        }
    }
}

impl File {
    /// The keys under which the fields are written, in the order in which
    /// they are written.
    pub open spec fn field_names() -> Seq<Seq<char>> {
        seq![
            "version"@,
            "services"@,
            "volumes"@,
            "networks"@,
        ]
    }

    /// The value that is read from the nodes of the fields: each field is
    /// read in its turn, and the first failure is the failure of the whole.
    pub open spec fn from_slots(slots: Seq<Option<NodeView>>) -> Result<FileView, ErrorView> {
        let version = required_of::<String>(slots[0], "version"@);
        let services = required_of::<SortedMap<Service>>(slots[1], "services"@);
        let volumes = map_of(slots[2], |n: NodeView| map_struct_or_null::<Volume>(n));
        let networks = map_of(slots[3], |n: NodeView| map_struct_or_null::<Network>(n));
        if version is Err {
            Err(version->Err_0)
        } else if services is Err {
            Err(services->Err_0)
        } else if volumes is Err {
            Err(volumes->Err_0)
        } else if networks is Err {
            Err(networks->Err_0)
        } else {
            Ok(
                FileView {
                    version: version->Ok_0,
                    services: services->Ok_0,
                    volumes: volumes->Ok_0,
                    networks: networks->Ok_0,
                },
            )
        }
    }

    /// The fields with the nodes that write them.  A field that is left out
    /// has no node.
    pub open spec fn field_nodes(v: FileView) -> Seq<(Seq<char>, Option<NodeView>)> {
        seq![
            ("version"@, required_node::<String>(v.version)),
            ("services"@, required_node::<SortedMap<Service>>(v.services)),
            ("volumes"@, map_node::<Volume>(v.volumes)),
            ("networks"@, map_node::<Network>(v.networks)),
        ]
    }

    /// Read the fields from the mapping `node`.
    fn from_mapping(node: &Node) -> (r: Result<File, Error>)
        ensures
            decode_result(r) == match slots_of(node.deep_view(), Self::field_names(), "a file"@) {
                Err(e) => Err(e),
                Ok(slots) => Self::from_slots(slots),
            },
    {
        let names: Vec<&str> = vec!["version", "services", "volumes", "networks"];
        proof {
            assert(names_view(names@) =~= Self::field_names());
        }
        let slots = match struct_slots(node, &names, "a file") {
            Ok(slots) => slots,
            Err(e) => {
                return Err(e);
            },
        };
        let version = match decode_required::<String>(slots[0], "version") {
            Ok(v) => v,
            Err(e) => {
                return Err(e);
            },
        };
        let services = match decode_required::<SortedMap<Service>>(slots[1], "services") {
            Ok(v) => v,
            Err(e) => {
                return Err(e);
            },
        };
        let volumes = match decode_map_struct_or_null::<Volume>(slots[2]) {
            Ok(v) => v,
            Err(e) => {
                return Err(e);
            },
        };
        let networks = match decode_map_struct_or_null::<Network>(slots[3]) {
            Ok(v) => v,
            Err(e) => {
                return Err(e);
            },
        };
        Ok(File { version, services, volumes, networks })
    }

    /// Write the fields as a mapping.
    fn to_mapping(&self) -> (r: Node)
        requires
            Self::fields_writable(self.deep_view()),
        ensures
            r.deep_view() == NodeView::Mapping(present(Self::field_nodes(self.deep_view()))),
    {
        let mut fields: Vec<(&str, Option<Node>)> = Vec::new();
        fields.push(("version", encode_required::<String>(&self.version)));
        fields.push(("services", encode_required::<SortedMap<Service>>(&self.services)));
        fields.push(("volumes", encode_map::<Volume>(&self.volumes)));
        fields.push(("networks", encode_map::<Network>(&self.networks)));
        proof {
            assert(fields_view(fields@) =~= Self::field_nodes(self.deep_view()));
        }
        mapping_of(fields)
    }

    /// Can every field be written?
    pub open spec fn fields_writable(v: FileView) -> bool {
        &&& String::writable(v.version)
        &&& SortedMap::<Service>::writable(v.services)
        &&& SortedMap::<Volume>::writable(v.volumes)
        &&& SortedMap::<Network>::writable(v.networks)
    }

    /// Can every field be written?
    fn all_writable(&self) -> (r: bool)
        ensures
            r == Self::fields_writable(self.deep_view()),
    {
        if !self.version.is_writable() {
            return false;
        }
        if !self.services.is_writable() {
            return false;
        }
        if !self.volumes.is_writable() {
            return false;
        }
        if !self.networks.is_writable() {
            return false;
        }
        true
    }
}

impl FromNode for File {
    open spec fn decoded(node: NodeView) -> Result<FileView, ErrorView> {
        match slots_of(node, Self::field_names(), "a file"@) {
            Err(e) => Err(e),
            Ok(slots) => Self::from_slots(slots),
        }
    }

    fn from_node(node: &Node) -> (r: Result<File, Error>) {
        Self::from_mapping(node)
    }
}

impl ToNode for File {
    open spec fn writable(v: FileView) -> bool {
        Self::fields_writable(v)
    }

    open spec fn encoded(v: FileView) -> NodeView {
        NodeView::Mapping(present(Self::field_nodes(v)))
    }

    fn to_node(&self) -> (r: Node) {
        self.to_mapping()
    }

    fn is_writable(&self) -> (r: bool) {
        self.all_writable()
    }
}

impl Duplicate for File {
    fn duplicate(&self) -> (r: File) {
        File {
            version: self.version.duplicate(),
            services: self.services.duplicate(),
            volumes: self.volumes.duplicate(),
            networks: self.networks.duplicate(),
        }
    }
}

impl Clone for File {
    fn clone(&self) -> (r: Self)
        ensures
            r.deep_view() == self.deep_view(),
    {
        self.duplicate()
    }
}

/// The fields are merged one by one.
impl MergeOverride for File {
    open spec fn merged(base: FileView, ovr: FileView) -> FileView {
        FileView {
            version: String::merged(base.version, ovr.version),
            services: SortedMap::<Service>::merged(base.services, ovr.services),
            volumes: SortedMap::<Volume>::merged(base.volumes, ovr.volumes),
            networks: SortedMap::<Network>::merged(base.networks, ovr.networks),
        }
    }

    open spec fn sequence_free(v: FileView) -> bool {
        &&& String::sequence_free(v.version)
        &&& SortedMap::<Service>::sequence_free(v.services)
        &&& SortedMap::<Volume>::sequence_free(v.volumes)
        &&& SortedMap::<Network>::sequence_free(v.networks)
    }

    proof fn lemma_merge_with_itself(v: FileView) {
        String::lemma_merge_with_itself(v.version);
        SortedMap::<Service>::lemma_merge_with_itself(v.services);
        SortedMap::<Volume>::lemma_merge_with_itself(v.volumes);
        SortedMap::<Network>::lemma_merge_with_itself(v.networks);
    }

    fn merge_override(&self, ovr: &File) -> (r: File) {
        File {
            version: self.version.merge_override(&ovr.version),
            services: self.services.merge_override(&ovr.services),
            volumes: self.volumes.merge_override(&ovr.volumes),
            networks: self.networks.merge_override(&ovr.networks),
        }
    }
}

/// The fields are resolved one by one, in the order in which they are
/// declared.
impl InterpolateAll for File {
    open spec fn resolved(v: FileView, vars: Map<Seq<char>, Seq<char>>) -> Resolution<FileView> {
        let r0 = String::resolved(v.version, vars);
        let r1 = SortedMap::<Service>::resolved(v.services, vars);
        let r2 = SortedMap::<Volume>::resolved(v.volumes, vars);
        let r3 = SortedMap::<Network>::resolved(v.networks, vars);
        let ok0 = r0.failure is None;
        let ok1 = ok0 && r1.failure is None;
        let ok2 = ok1 && r2.failure is None;
        let ok3 = ok2 && r3.failure is None;
        Resolution {
            value: FileView {
                version: r0.value,
                services: if ok0 {
                    r1.value
                } else {
                    v.services
                },
                volumes: if ok1 {
                    r2.value
                } else {
                    v.volumes
                },
                networks: if ok2 {
                    r3.value
                } else {
                    v.networks
                },
            },
            failure: if !ok0 {
                r0.failure
            } else if !ok1 {
                r1.failure
            } else if !ok2 {
                r2.failure
            } else if !ok3 {
                r3.failure
            } else {
                None
            },
        }
    }

    proof fn lemma_resolved_stays(
        v: FileView,
        vars: Map<Seq<char>, Seq<char>>,
        again: Map<Seq<char>, Seq<char>>,
    ) {
        String::lemma_resolved_stays(v.version, vars, again);
        SortedMap::<Service>::lemma_resolved_stays(v.services, vars, again);
        SortedMap::<Volume>::lemma_resolved_stays(v.volumes, vars, again);
        SortedMap::<Network>::lemma_resolved_stays(v.networks, vars, again);
    }

    fn interpolate_all<E: Environment>(&mut self, env: &E) -> (r: Result<(), InterpolationError>) {
        match self.version.interpolate_all(env) {
            Err(e) => {
                return Err(e);
            },
            Ok(_) => {},
        }
        match self.services.interpolate_all(env) {
            Err(e) => {
                return Err(e);
            },
            Ok(_) => {},
        }
        match self.volumes.interpolate_all(env) {
            Err(e) => {
                return Err(e);
            },
            Ok(_) => {},
        }
        match self.networks.interpolate_all(env) {
            Err(e) => {
                return Err(e);
            },
            Ok(_) => {},
        }
        Ok(())
    }
}

impl DefaultValue for File {
    open spec fn default_model() -> FileView {
        FileView {
            version: "2.4"@,
            services: Map::empty(),
            volumes: Map::empty(),
            networks: Map::empty(),
        }
    }

    fn default_value() -> (r: File) {
        let r = File {
            version: String::from_str("2.4"),
            services: empty_map(),
            volumes: empty_map(),
            networks: empty_map(),
        };
        proof {
        }
        r
    }

    fn is_default(&self) -> (r: bool) {
        proof {
        }
        same_text(self.version.as_str(), "2.4")
            && self.services.has_no_entries()
            && self.volumes.has_no_entries()
            && self.networks.has_no_entries()
    }
}

impl Default for File {
    fn default() -> (r: Self)
        ensures
            r.deep_view() == Self::default_model(),
    {
        Self::default_value()
    }
}

/// The services of a file after each has taken the variables of its env
/// files into its environment: `files` holds, under the name of a service,
/// the env files of that service.
pub open spec fn inlined_services(
    services: Map<Seq<char>, ServiceView>,
    files: Map<Seq<char>, Seq<Map<Seq<char>, Option<Seq<char>>>>>,
) -> Map<Seq<char>, ServiceView> {
    Map::new(
        |name: Seq<char>| services.contains_key(name),
        |name: Seq<char>|
            ServiceView {
                environment: env_of_files(
                    if files.contains_key(name) {
                        files[name]
                    } else {
                        Seq::empty()
                    },
                ).union_prefer_right(services[name].environment),
                env_files: Seq::empty(),
                ..services[name]
            },
    )
}

impl File {
    /// Read a file from the node of a document, and check that its version
    /// of the format is supported.
    pub fn read(node: &Node) -> (r: Result<File, Error>)
        ensures
            decode_result(r) == match File::decoded(node.deep_view()) {
                Err(e) => Err(e),
                Ok(file) => if schema_for(file.version) is Some {
                    Ok(file)
                } else {
                    Err(ErrorView::UnsupportedVersion(file.version))
                },
            },
    {
        let file = match File::from_node(node) {
            Ok(file) => file,
            Err(e) => {
                return Err(e);
            },
        };
        match schema_version(file.version.as_str()) {
            Ok(_) => Ok(file),
            Err(e) => Err(e),
        }
    }

    /// Write this file as the node of a document, if its version of the
    /// format is supported.
    pub fn write(&self) -> (r: Result<Node, Error>)
        requires
            File::writable(self.deep_view()),
        ensures
            match r {
                Ok(node) => schema_for(self.version@) is Some && node.deep_view() == File::encoded(
                    self.deep_view(),
                ),
                Err(e) => schema_for(self.version@) is None && e.deep_view()
                    == ErrorView::UnsupportedVersion(self.version@),
            },
    {
        match schema_version(self.version.as_str()) {
            Ok(_) => Ok(self.to_node()),
            Err(e) => Err(e),
        }
    }

    /// Take the variables of the env files of every service into the
    /// environment of that service: see [`Service::inline_all`].  `files`
    /// holds, under the name of a service, the env files of that service.
    pub fn inline_all(&mut self, files: &SortedMap<Vec<EnvFile>>)
        ensures
            final(self).deep_view() == (FileView {
                services: inlined_services(old(self).deep_view().services, files.deep_view()),
                ..old(self).deep_view()
            }),
    {
        let n = self.services.len();
        self.services.check_order();
        let ghost services = self.services.entries();
        let ghost before = self.services.deep_view();
        let none: Vec<EnvFile> = Vec::new();
        proof {
            assert(none.deep_view() =~= Seq::<Map<Seq<char>, Option<Seq<char>>>>::empty());
        }
        let mut out: SortedMap<Service> = empty_map();
        let mut i: usize = 0;
        proof {
            assert(services.take(0) == Seq::<(Seq<char>, ServiceView)>::empty());
            assert(out.deep_view() =~= inlined_services(
                entries_map(services.take(0)),
                files.deep_view(),
            ));
        }
        while i < n
            invariant
                0 <= i <= n,
                n == self.services.count(),
                services == self.services.entries(),
                n == services.len(),
                none.deep_view() == Seq::<Map<Seq<char>, Option<Seq<char>>>>::empty(),
                out.deep_view() == inlined_services(
                    entries_map(services.take(i as int)),
                    files.deep_view(),
                ),
            decreases n - i,
        {
            proof {
                assert(services.take(i + 1).drop_last() == services.take(i as int));
                assert(services.take(i + 1).last() == services[i as int]);
            }
            let name = self.services.key_at(i);
            let mut service = self.services.value_at(i).duplicate();
            match files.get(name.as_str()) {
                Some(those) => service.inline_all(those),
                None => service.inline_all(&none),
            }
            out.insert(name.clone(), service);
            proof {
                assert(out.deep_view() =~= inlined_services(
                    entries_map(services.take(i + 1)),
                    files.deep_view(),
                ));
            }
            i += 1;
        }
        proof {
            assert(services.take(n as int) == services);
        }
        self.services = out;
    }
}

} // verus!
