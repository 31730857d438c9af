//! Limits on the resources that a process uses.

use vstd::prelude::*;
use crate::errors::{Error, ErrorView, InterpolationError};
use crate::helpers::{
    decode_required,
    decode_result,
    fields_view,
    mapping_of,
    names_view,
    present,
    required_node,
    required_of,
    slots_of,
    struct_slots,
    FromNode,
    ToNode,
};
use crate::interpolate_all::{untouched, InterpolateAll, Resolution};
use crate::interpolation::Environment;
use crate::merge_override::{Duplicate, MergeOverride};
use crate::node::{Node, NodeView};

verus! {

/// A limit imposed on the resources used by a process.
#[derive(Debug, Clone, Copy, PartialEq, Eq)]
pub enum Ulimit {
    /// A single limit.
    Single(i64),
    /// A pair of limits: a soft one, which the process may change itself,
    /// and a hard one, which only root may change.
    Pair { soft: i64, hard: i64 },
}

impl DeepView for Ulimit {
    type V = Ulimit;

    open spec fn deep_view(&self) -> Ulimit {
        *self
    }
}

impl Ulimit {
    /// The keys of a pair of limits.
    pub open spec fn field_names() -> Seq<Seq<char>> {
        seq!["soft"@, "hard"@]
    }

    /// The pair that is read from the nodes of its two limits.
    pub open spec fn from_slots(slots: Seq<Option<NodeView>>) -> Result<Ulimit, ErrorView> {
        let soft = required_of::<i64>(slots[0], "soft"@);
        let hard = required_of::<i64>(slots[1], "hard"@);
        if soft is Err {
            Err(soft->Err_0)
        } else if hard is Err {
            Err(hard->Err_0)
        } else {
            Ok(Ulimit::Pair { soft: soft->Ok_0, hard: hard->Ok_0 })
        }
    }
}

/// A whole number is a single limit, and a mapping is a pair of limits.
impl FromNode for Ulimit {
    open spec fn decoded(node: NodeView) -> Result<Ulimit, ErrorView> {
        match node {
            NodeView::Integer(limit) => Ok(Ulimit::Single(limit)),
            _ => match slots_of(node, Self::field_names(), "a limit or a pair of limits"@) {
                Err(e) => Err(e),
                Ok(slots) => Self::from_slots(slots),
            },
        }
    }

    fn from_node(node: &Node) -> (r: Result<Ulimit, Error>) {
        if let Node::Integer(limit) = node {
            return Ok(Ulimit::Single(*limit));
        }
        let names: Vec<&str> = vec!["soft", "hard"];
        proof {
            assert(names_view(names@) =~= Self::field_names());
        }
        let slots = match struct_slots(node, &names, "a limit or a pair of limits") {
            Ok(slots) => slots,
            Err(e) => {
                return Err(e);
            },
        };
        let soft = match decode_required::<i64>(slots[0], "soft") {
            Ok(v) => v,
            Err(e) => {
                return Err(e);
            },
        };
        let hard = match decode_required::<i64>(slots[1], "hard") {
            Ok(v) => v,
            Err(e) => {
                return Err(e);
            },
        };
        Ok(Ulimit::Pair { soft, hard })
    }
}

impl ToNode for Ulimit {
    open spec fn writable(v: Ulimit) -> bool {
        true
    }

    open spec fn encoded(v: Ulimit) -> NodeView {
        match v {
            Ulimit::Single(limit) => NodeView::Integer(limit),
            Ulimit::Pair { soft, hard } => NodeView::Mapping(
                present(
                    seq![
                        ("soft"@, required_node::<i64>(soft)),
                        ("hard"@, required_node::<i64>(hard)),
                    ],
                ),
            ),
        }
    }

    fn to_node(&self) -> (r: Node) {
        match self {
            Ulimit::Single(limit) => Node::Integer(*limit),
            Ulimit::Pair { soft, hard } => {
                let mut fields: Vec<(&str, Option<Node>)> = Vec::new();
                fields.push(("soft", Some(soft.to_node())));
                fields.push(("hard", Some(hard.to_node())));
                proof {
                    assert(fields_view(fields@) =~= seq![
                        ("soft"@, required_node::<i64>(*soft)),
                        ("hard"@, required_node::<i64>(*hard)),
                    ]);
                }
                mapping_of(fields)
            },
        }
    }

    fn is_writable(&self) -> (r: bool) {
        true
    }
}

impl Duplicate for Ulimit {
    fn duplicate(&self) -> (r: Ulimit) {
        *self
    }
}

/// The overriding limit replaces the base.
impl MergeOverride for Ulimit {
    open spec fn merged(base: Ulimit, ovr: Ulimit) -> Ulimit {
        ovr
    }

    open spec fn sequence_free(v: Ulimit) -> bool {
        true
    }

    proof fn lemma_merge_with_itself(v: Ulimit) {
    }

    fn merge_override(&self, ovr: &Ulimit) -> (r: Ulimit) {
        *ovr
    }
}

/// A limit holds no reference to a variable.
impl InterpolateAll for Ulimit {
    open spec fn resolved(v: Ulimit, vars: Map<Seq<char>, Seq<char>>) -> Resolution<Ulimit> {
        untouched(v)
    }

    proof fn lemma_resolved_stays(
        v: Ulimit,
        vars: Map<Seq<char>, Seq<char>>,
        again: Map<Seq<char>, Seq<char>>,
    ) {
    }

    fn interpolate_all<E: Environment>(&mut self, env: &E) -> (r: Result<(), InterpolationError>) {
        Ok(())
    }
}

} // verus!
