//! Services that extend other services.

use vstd::prelude::*;
use crate::errors::{Error, ErrorView, InterpolationError};
use crate::helpers::{
    decode_optional,
    decode_required,
    decode_result,
    encode_optional,
    encode_required,
    fields_view,
    mapping_of,
    names_view,
    optional_node,
    optional_of,
    present,
    required_node,
    required_of,
    slots_of,
    struct_slots,
    FromNode,
    ToNode,
};
use crate::interpolate_all::{InterpolateAll, Resolution};
use crate::interpolation::Environment;
use crate::merge_override::{Duplicate, MergeOverride};
use crate::node::{Node, NodeView};
use crate::raw_or::{RawOr, RawOrView};
use crate::raw_or::value;

verus! {

/// Another service which is used as the base for a service.
#[derive(Debug, PartialEq, Eq)]
pub struct Extends {
    /// The name of the service to extend.
    pub service: RawOr<String>,
    /// The file in which the service to extend is defined. Defaults to the
    /// current file.
    pub file: Option<RawOr<String>>,
}

/// A [`Extends`], as plain values.
pub struct ExtendsView {
    pub service: RawOrView<Seq<char>>,
    pub file: Option<RawOrView<Seq<char>>>,
}

impl DeepView for Extends {
    type V = ExtendsView;

    open spec fn deep_view(&self) -> ExtendsView {
        ExtendsView {
            service: self.service.deep_view(),
            file: self.file.deep_view(),
        }
    }
}

impl Extends {
    /// The keys under which the fields are written, in the order in which
    /// they are written.
    pub open spec fn field_names() -> Seq<Seq<char>> {
        seq![
            "service"@,
            "file"@,
        ]
    }

    /// The value that is read from the nodes of the fields: each field is
    /// read in its turn, and the first failure is the failure of the whole.
    pub open spec fn from_slots(slots: Seq<Option<NodeView>>) -> Result<ExtendsView, ErrorView> {
        let service = required_of::<RawOr<String>>(slots[0], "service"@);
        let file = optional_of::<RawOr<String>>(slots[1]);
        if service is Err {
            Err(service->Err_0)
        } else if file is Err {
            Err(file->Err_0)
        } else {
            Ok(
                ExtendsView {
                    service: service->Ok_0,
                    file: file->Ok_0,
                },
            )
        }
    }

    /// The fields with the nodes that write them.  A field that is left out
    /// has no node.
    pub open spec fn field_nodes(v: ExtendsView) -> Seq<(Seq<char>, Option<NodeView>)> {
        seq![
            ("service"@, required_node::<RawOr<String>>(v.service)),
            ("file"@, optional_node::<RawOr<String>>(v.file)),
        ]
    }

    /// Read the fields from the mapping `node`.
    fn from_mapping(node: &Node) -> (r: Result<Extends, Error>)
        ensures
            decode_result(r) == match slots_of(node.deep_view(), Self::field_names(), "a reference to a service to extend"@) {
                Err(e) => Err(e),
                Ok(slots) => Self::from_slots(slots),
            },
    {
        let names: Vec<&str> = vec!["service", "file"];
        proof {
            assert(names_view(names@) =~= Self::field_names());
        }
        let slots = match struct_slots(node, &names, "a reference to a service to extend") {
            Ok(slots) => slots,
            Err(e) => {
                return Err(e);
            },
        };
        let service = match decode_required::<RawOr<String>>(slots[0], "service") {
            Ok(v) => v,
            Err(e) => {
                return Err(e);
            },
        };
        let file = match decode_optional::<RawOr<String>>(slots[1]) {
            Ok(v) => v,
            Err(e) => {
                return Err(e);
            },
        };
        Ok(Extends { service, file })
    }

    /// Write the fields as a mapping.
    fn to_mapping(&self) -> (r: Node)
        requires
            Self::fields_writable(self.deep_view()),
        ensures
            r.deep_view() == NodeView::Mapping(present(Self::field_nodes(self.deep_view()))),
    {
        let mut fields: Vec<(&str, Option<Node>)> = Vec::new();
        fields.push(("service", encode_required::<RawOr<String>>(&self.service)));
        fields.push(("file", encode_optional::<RawOr<String>>(&self.file)));
        proof {
            assert(fields_view(fields@) =~= Self::field_nodes(self.deep_view()));
        }
        mapping_of(fields)
    }

    /// Can every field be written?
    pub open spec fn fields_writable(v: ExtendsView) -> bool {
        &&& RawOr::<String>::writable(v.service)
        &&& Option::<RawOr<String>>::writable(v.file)
    }

    /// Can every field be written?
    fn all_writable(&self) -> (r: bool)
        ensures
            r == Self::fields_writable(self.deep_view()),
    {
        if !self.service.is_writable() {
            return false;
        }
        if !self.file.is_writable() {
            return false;
        }
        true
    }
}

impl FromNode for Extends {
    open spec fn decoded(node: NodeView) -> Result<ExtendsView, ErrorView> {
        match slots_of(node, Self::field_names(), "a reference to a service to extend"@) {
            Err(e) => Err(e),
            Ok(slots) => Self::from_slots(slots),
        }
    }

    fn from_node(node: &Node) -> (r: Result<Extends, Error>) {
        Self::from_mapping(node)
    }
}

impl ToNode for Extends {
    open spec fn writable(v: ExtendsView) -> bool {
        Self::fields_writable(v)
    }

    open spec fn encoded(v: ExtendsView) -> NodeView {
        NodeView::Mapping(present(Self::field_nodes(v)))
    }

    fn to_node(&self) -> (r: Node) {
        self.to_mapping()
    }

    fn is_writable(&self) -> (r: bool) {
        self.all_writable()
    }
}

impl Duplicate for Extends {
    fn duplicate(&self) -> (r: Extends) {
        Extends {
            service: self.service.duplicate(),
            file: self.file.duplicate(),
        }
    }
}

impl Clone for Extends {
    fn clone(&self) -> (r: Self)
        ensures
            r.deep_view() == self.deep_view(),
    {
        self.duplicate()
    }
}

/// The fields are merged one by one.
impl MergeOverride for Extends {
    open spec fn merged(base: ExtendsView, ovr: ExtendsView) -> ExtendsView {
        ExtendsView {
            service: RawOr::<String>::merged(base.service, ovr.service),
            file: Option::<RawOr<String>>::merged(base.file, ovr.file),
        }
    }

    open spec fn sequence_free(v: ExtendsView) -> bool {
        &&& RawOr::<String>::sequence_free(v.service)
        &&& Option::<RawOr<String>>::sequence_free(v.file)
    }

    proof fn lemma_merge_with_itself(v: ExtendsView) {
        RawOr::<String>::lemma_merge_with_itself(v.service);
        Option::<RawOr<String>>::lemma_merge_with_itself(v.file);
    }

    fn merge_override(&self, ovr: &Extends) -> (r: Extends) {
        Extends {
            service: self.service.merge_override(&ovr.service),
            file: self.file.merge_override(&ovr.file),
        }
    }
}

/// The fields are resolved one by one, in the order in which they are
/// declared.
impl InterpolateAll for Extends {
    open spec fn resolved(v: ExtendsView, vars: Map<Seq<char>, Seq<char>>) -> Resolution<ExtendsView> {
        let r0 = RawOr::<String>::resolved(v.service, vars);
        let r1 = Option::<RawOr<String>>::resolved(v.file, vars);
        let ok0 = r0.failure is None;
        let ok1 = ok0 && r1.failure is None;
        Resolution {
            value: ExtendsView {
                service: r0.value,
                file: if ok0 {
                    r1.value
                } else {
                    v.file
                },
            },
            failure: if !ok0 {
                r0.failure
            } else if !ok1 {
                r1.failure
            } else {
                None
            },
        }
    }

    proof fn lemma_resolved_stays(
        v: ExtendsView,
        vars: Map<Seq<char>, Seq<char>>,
        again: Map<Seq<char>, Seq<char>>,
    ) {
        RawOr::<String>::lemma_resolved_stays(v.service, vars, again);
        Option::<RawOr<String>>::lemma_resolved_stays(v.file, vars, again);
    }

    fn interpolate_all<E: Environment>(&mut self, env: &E) -> (r: Result<(), InterpolationError>) {
        match self.service.interpolate_all(env) {
            Err(e) => {
                return Err(e);
            },
            Ok(_) => {},
        }
        match self.file.interpolate_all(env) {
            Err(e) => {
                return Err(e);
            },
            Ok(_) => {},
        }
        Ok(())
    }
}

impl Extends {
    /// Extend the service `service` of the current file.
    pub fn new(service: &str) -> (r: Extends)
        ensures
            r.deep_view() == (ExtendsView {
                service: RawOrView::Value(service@),
                file: None,
            }),
    {
        Extends { service: value(service.to_owned()), file: None }
    }
}

} // verus!
