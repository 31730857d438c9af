//! How the image of a service is built.

use vstd::prelude::*;
use crate::errors::{Error, ErrorView, InterpolationError};
use crate::helpers::{
    decode_map_or_key_value_list,
    decode_optional,
    decode_required,
    decode_result,
    empty_map,
    encode_map,
    encode_optional,
    encode_required,
    fields_view,
    map_node,
    map_of,
    map_or_key_value_list,
    mapping_of,
    names_view,
    optional_node,
    optional_of,
    present,
    required_node,
    required_of,
    slots_of,
    struct_slots,
    FromNode,
    ToNode,
};
use crate::interpolate_all::{InterpolateAll, Resolution};
use crate::interpolation::Environment;
use crate::merge_override::{Duplicate, MergeOverride};
use crate::node::{Node, NodeView};
use crate::raw_or::{RawOr, RawOrView};
use crate::sorted_map::SortedMap;
use crate::context::{context_of, Context, ContextView};
use crate::errors::InvalidValueError;
use crate::raw_or::value;

verus! {

/// Information on how to build a Docker image.
#[derive(Debug, PartialEq, Eq)]
pub struct Build {
    /// The source directory to use for this build.
    pub context: RawOr<Context>,
    /// The name of an alternate `Dockerfile` to use.
    pub dockerfile: Option<RawOr<String>>,
    /// Build arguments.
    pub args: SortedMap<RawOr<String>>,
    /// The stage of the `Dockerfile` at which to stop building.
    pub target: Option<RawOr<String>>,
}

/// A [`Build`], as plain values.
pub struct BuildView {
    pub context: RawOrView<ContextView>,
    pub dockerfile: Option<RawOrView<Seq<char>>>,
    pub args: Map<Seq<char>, RawOrView<Seq<char>>>,
    pub target: Option<RawOrView<Seq<char>>>,
}

impl DeepView for Build {
    type V = BuildView;

    open spec fn deep_view(&self) -> BuildView {
        BuildView {
            context: self.context.deep_view(),
            dockerfile: self.dockerfile.deep_view(),
            args: self.args.deep_view(),
            target: self.target.deep_view(),
        }
    }
}

impl Build {
    /// The keys under which the fields are written, in the order in which
    /// they are written.
    pub open spec fn field_names() -> Seq<Seq<char>> {
        seq![
            "context"@,
            "dockerfile"@,
            "args"@,
            "target"@,
        ]
    }

    /// The value that is read from the nodes of the fields: each field is
    /// read in its turn, and the first failure is the failure of the whole.
    pub open spec fn from_slots(slots: Seq<Option<NodeView>>) -> Result<BuildView, ErrorView> {
        let context = required_of::<RawOr<Context>>(slots[0], "context"@);
        let dockerfile = optional_of::<RawOr<String>>(slots[1]);
        let args = map_of(slots[2], |n: NodeView| map_or_key_value_list(n));
        let target = optional_of::<RawOr<String>>(slots[3]);
        if context is Err {
            Err(context->Err_0)
        } else if dockerfile is Err {
            Err(dockerfile->Err_0)
        } else if args is Err {
            Err(args->Err_0)
        } else if target is Err {
            Err(target->Err_0)
        } else {
            Ok(
                BuildView {
                    context: context->Ok_0,
                    dockerfile: dockerfile->Ok_0,
                    args: args->Ok_0,
                    target: target->Ok_0,
                },
            )
        }
    }

    /// The fields with the nodes that write them.  A field that is left out
    /// has no node.
    pub open spec fn field_nodes(v: BuildView) -> Seq<(Seq<char>, Option<NodeView>)> {
        seq![
            ("context"@, required_node::<RawOr<Context>>(v.context)),
            ("dockerfile"@, optional_node::<RawOr<String>>(v.dockerfile)),
            ("args"@, map_node::<RawOr<String>>(v.args)),
            ("target"@, optional_node::<RawOr<String>>(v.target)),
        ]
    }

    /// Read the fields from the mapping `node`.
    fn from_mapping(node: &Node) -> (r: Result<Build, Error>)
        ensures
            decode_result(r) == match slots_of(node.deep_view(), Self::field_names(), "a string or a build"@) {
                Err(e) => Err(e),
                Ok(slots) => Self::from_slots(slots),
            },
    {
        let names: Vec<&str> = vec!["context", "dockerfile", "args", "target"];
        proof {
            assert(names_view(names@) =~= Self::field_names());
        }
        let slots = match struct_slots(node, &names, "a string or a build") {
            Ok(slots) => slots,
            Err(e) => {
                return Err(e);
            },
        };
        let context = match decode_required::<RawOr<Context>>(slots[0], "context") {
            Ok(v) => v,
            Err(e) => {
                return Err(e);
            },
        };
        let dockerfile = match decode_optional::<RawOr<String>>(slots[1]) {
            Ok(v) => v,
            Err(e) => {
                return Err(e);
            },
        };
        let args = match decode_map_or_key_value_list(slots[2]) {
            Ok(v) => v,
            Err(e) => {
                return Err(e);
            },
        };
        let target = match decode_optional::<RawOr<String>>(slots[3]) {
            Ok(v) => v,
            Err(e) => {
                return Err(e);
            },
        };
        Ok(Build { context, dockerfile, args, target })
    }

    /// Write the fields as a mapping.
    fn to_mapping(&self) -> (r: Node)
        requires
            Self::fields_writable(self.deep_view()),
        ensures
            r.deep_view() == NodeView::Mapping(present(Self::field_nodes(self.deep_view()))),
    {
        let mut fields: Vec<(&str, Option<Node>)> = Vec::new();
        fields.push(("context", encode_required::<RawOr<Context>>(&self.context)));
        fields.push(("dockerfile", encode_optional::<RawOr<String>>(&self.dockerfile)));
        fields.push(("args", encode_map::<RawOr<String>>(&self.args)));
        fields.push(("target", encode_optional::<RawOr<String>>(&self.target)));
        proof {
            assert(fields_view(fields@) =~= Self::field_nodes(self.deep_view()));
        }
        mapping_of(fields)
    }

    /// Can every field be written?
    pub open spec fn fields_writable(v: BuildView) -> bool {
        &&& RawOr::<Context>::writable(v.context)
        &&& Option::<RawOr<String>>::writable(v.dockerfile)
        &&& SortedMap::<RawOr<String>>::writable(v.args)
        &&& Option::<RawOr<String>>::writable(v.target)
    }

    /// Can every field be written?
    fn all_writable(&self) -> (r: bool)
        ensures
            r == Self::fields_writable(self.deep_view()),
    {
        if !self.context.is_writable() {
            return false;
        }
        if !self.dockerfile.is_writable() {
            return false;
        }
        if !self.args.is_writable() {
            return false;
        }
        if !self.target.is_writable() {
            return false;
        }
        true
    }
}

/// A build is written as a mapping, or as the string that names its
/// context if it has nothing else to say.
impl FromNode for Build {
    open spec fn decoded(node: NodeView) -> Result<BuildView, ErrorView> {
        match node {
            NodeView::Text(path) => Ok(Build::of_context(context_of(path))),
            _ => match slots_of(node, Self::field_names(), "a string or a build"@) {
                Err(e) => Err(e),
                Ok(slots) => Self::from_slots(slots),
            },
        }
    }

    fn from_node(node: &Node) -> (r: Result<Build, Error>) {
        match node {
            Node::Text(path) => Ok(Build::new(Context::new(path.as_str()))),
            _ => Self::from_mapping(node),
        }
    }
}

impl ToNode for Build {
    open spec fn writable(v: BuildView) -> bool {
        Self::fields_writable(v)
    }

    open spec fn encoded(v: BuildView) -> NodeView {
        if v.dockerfile is None && v.args == Map::<Seq<char>, RawOrView<Seq<char>>>::empty()
            && v.target is None {
            RawOr::<Context>::encoded(v.context)
        } else {
            NodeView::Mapping(present(Self::field_nodes(v)))
        }
    }

    fn to_node(&self) -> (r: Node) {
        if self.dockerfile.is_none() && self.args.has_no_entries() && self.target.is_none() {
            self.context.to_node()
        } else {
            self.to_mapping()
        }
    }

    fn is_writable(&self) -> (r: bool) {
        self.all_writable()
    }
}

impl Duplicate for Build {
    fn duplicate(&self) -> (r: Build) {
        Build {
            context: self.context.duplicate(),
            dockerfile: self.dockerfile.duplicate(),
            args: self.args.duplicate(),
            target: self.target.duplicate(),
        }
    }
}

impl Clone for Build {
    fn clone(&self) -> (r: Self)
        ensures
            r.deep_view() == self.deep_view(),
    {
        self.duplicate()
    }
}

/// The fields are merged one by one.
impl MergeOverride for Build {
    open spec fn merged(base: BuildView, ovr: BuildView) -> BuildView {
        BuildView {
            context: RawOr::<Context>::merged(base.context, ovr.context),
            dockerfile: Option::<RawOr<String>>::merged(base.dockerfile, ovr.dockerfile),
            args: SortedMap::<RawOr<String>>::merged(base.args, ovr.args),
            target: Option::<RawOr<String>>::merged(base.target, ovr.target),
        }
    }

    open spec fn sequence_free(v: BuildView) -> bool {
        &&& RawOr::<Context>::sequence_free(v.context)
        &&& Option::<RawOr<String>>::sequence_free(v.dockerfile)
        &&& SortedMap::<RawOr<String>>::sequence_free(v.args)
        &&& Option::<RawOr<String>>::sequence_free(v.target)
    }

    proof fn lemma_merge_with_itself(v: BuildView) {
        RawOr::<Context>::lemma_merge_with_itself(v.context);
        Option::<RawOr<String>>::lemma_merge_with_itself(v.dockerfile);
        SortedMap::<RawOr<String>>::lemma_merge_with_itself(v.args);
        Option::<RawOr<String>>::lemma_merge_with_itself(v.target);
    }

    fn merge_override(&self, ovr: &Build) -> (r: Build) {
        Build {
            context: self.context.merge_override(&ovr.context),
            dockerfile: self.dockerfile.merge_override(&ovr.dockerfile),
            args: self.args.merge_override(&ovr.args),
            target: self.target.merge_override(&ovr.target),
        }
    }
}

/// The fields are resolved one by one, in the order in which they are
/// declared.
impl InterpolateAll for Build {
    open spec fn resolved(v: BuildView, vars: Map<Seq<char>, Seq<char>>) -> Resolution<BuildView> {
        let r0 = RawOr::<Context>::resolved(v.context, vars);
        let r1 = Option::<RawOr<String>>::resolved(v.dockerfile, vars);
        let r2 = SortedMap::<RawOr<String>>::resolved(v.args, vars);
        let r3 = Option::<RawOr<String>>::resolved(v.target, vars);
        let ok0 = r0.failure is None;
        let ok1 = ok0 && r1.failure is None;
        let ok2 = ok1 && r2.failure is None;
        let ok3 = ok2 && r3.failure is None;
        Resolution {
            value: BuildView {
                context: r0.value,
                dockerfile: if ok0 {
                    r1.value
                } else {
                    v.dockerfile
                },
                args: if ok1 {
                    r2.value
                } else {
                    v.args
                },
                target: if ok2 {
                    r3.value
                } else {
                    v.target
                },
            },
            failure: if !ok0 {
                r0.failure
            } else if !ok1 {
                r1.failure
            } else if !ok2 {
                r2.failure
            } else if !ok3 {
                r3.failure
            } else {
                None
            },
        }
    }

    proof fn lemma_resolved_stays(
        v: BuildView,
        vars: Map<Seq<char>, Seq<char>>,
        again: Map<Seq<char>, Seq<char>>,
    ) {
        RawOr::<Context>::lemma_resolved_stays(v.context, vars, again);
        Option::<RawOr<String>>::lemma_resolved_stays(v.dockerfile, vars, again);
        SortedMap::<RawOr<String>>::lemma_resolved_stays(v.args, vars, again);
        Option::<RawOr<String>>::lemma_resolved_stays(v.target, vars, again);
    }

    fn interpolate_all<E: Environment>(&mut self, env: &E) -> (r: Result<(), InterpolationError>) {
        match self.context.interpolate_all(env) {
            Err(e) => {
                return Err(e);
            },
            Ok(_) => {},
        }
        match self.dockerfile.interpolate_all(env) {
            Err(e) => {
                return Err(e);
            },
            Ok(_) => {},
        }
        match self.args.interpolate_all(env) {
            Err(e) => {
                return Err(e);
            },
            Ok(_) => {},
        }
        match self.target.interpolate_all(env) {
            Err(e) => {
                return Err(e);
            },
            Ok(_) => {},
        }
        Ok(())
    }
}

impl Build {
    /// The build that has the context `context` and nothing else.
    pub open spec fn of_context(context: ContextView) -> BuildView {
        BuildView {
            context: RawOrView::Value(context),
            dockerfile: None,
            args: Map::empty(),
            target: None,
        }
    }

    /// A build from just a context.  The other fields can be set
    /// afterwards.
    pub fn new(ctx: Context) -> (r: Build)
        ensures
            r.deep_view() == Self::of_context(ctx.deep_view()),
    {
        Build { context: value(ctx), dockerfile: None, args: empty_map(), target: None }
    }

    /// The build whose context the string `s` names.  This never fails.
    pub fn from_str(s: &str) -> (r: Result<Build, InvalidValueError>)
        ensures
            r is Ok,
            r->Ok_0.deep_view() == Self::of_context(context_of(s@)),
    {
        Ok(Build::new(Context::new(s)))
    }
}

} // verus!
