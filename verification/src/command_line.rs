//! Command lines: shell code, or a list of arguments.

use vstd::prelude::*;
use crate::errors::{Error, ErrorView, InterpolationError};
use crate::helpers::{
    decode_result,
    decoded_items,
    raw_decoded,
    scalar_text,
    wrong_shape,
    FromNode,
    ToNode,
};
use crate::interpolate_all::{InterpolateAll, Resolution};
use crate::interpolation::Environment;
use crate::merge_override::{Duplicate, MergeOverride};
use crate::node::{Node, NodeView};
use crate::raw_or::{RawOr, RawOrView};

verus! {

/// A command line to be executed by Docker.
#[derive(Debug, PartialEq, Eq)]
pub enum CommandLine {
    /// A command line given as shell code that is not parsed.
    ShellCode(RawOr<String>),
    /// A command line given as its arguments.  The list may be empty.
    Parsed(Vec<RawOr<String>>),
}

/// A [`CommandLine`], as plain values.
pub enum CommandLineView {
    ShellCode(RawOrView<Seq<char>>),
    Parsed(Seq<RawOrView<Seq<char>>>),
}

impl DeepView for CommandLine {
    type V = CommandLineView;

    open spec fn deep_view(&self) -> CommandLineView {
        match self {
            CommandLine::ShellCode(code) => CommandLineView::ShellCode(code.deep_view()),
            CommandLine::Parsed(args) => CommandLineView::Parsed(args.deep_view()),
        }
    }
}

/// A list is a list of arguments, and a scalar is shell code.
impl FromNode for CommandLine {
    open spec fn decoded(node: NodeView) -> Result<CommandLineView, ErrorView> {
        match node {
            NodeView::List(_) => match Vec::<RawOr<String>>::decoded(node) {
                Ok(args) => Ok(CommandLineView::Parsed(args)),
                Err(e) => Err(e),
            },
            _ => match scalar_text(node) {
                Some(text) => match raw_decoded::<String>(text) {
                    Ok(code) => Ok(CommandLineView::ShellCode(code)),
                    Err(e) => Err(e),
                },
                None => wrong_shape("a string or a list of strings"@),
            },
        }
    }

    fn from_node(node: &Node) -> (r: Result<CommandLine, Error>) {
        match node {
            Node::List(_) => match Vec::<RawOr<String>>::from_node(node) {
                Ok(args) => Ok(CommandLine::Parsed(args)),
                Err(e) => Err(e),
            },
            Node::Null | Node::Mapping(_) => Err(
                Error::unexpected_shape("a string or a list of strings"),
            ),
            _ => match RawOr::<String>::from_node(node) {
                Ok(code) => Ok(CommandLine::ShellCode(code)),
                Err(e) => Err(e),
            },
        }
    }
}

impl ToNode for CommandLine {
    open spec fn writable(v: CommandLineView) -> bool {
        match v {
            CommandLineView::ShellCode(code) => RawOr::<String>::writable(code),
            CommandLineView::Parsed(args) => Vec::<RawOr<String>>::writable(args),
        }
    }

    open spec fn encoded(v: CommandLineView) -> NodeView {
        match v {
            CommandLineView::ShellCode(code) => RawOr::<String>::encoded(code),
            CommandLineView::Parsed(args) => Vec::<RawOr<String>>::encoded(args),
        }
    }

    fn to_node(&self) -> (r: Node) {
        match self {
            CommandLine::ShellCode(code) => code.to_node(),
            CommandLine::Parsed(args) => args.to_node(),
        }
    }

    fn is_writable(&self) -> (r: bool) {
        match self {
            CommandLine::ShellCode(code) => code.is_writable(),
            CommandLine::Parsed(args) => args.is_writable(),
        }
    }
}

impl Duplicate for CommandLine {
    fn duplicate(&self) -> (r: CommandLine) {
        match self {
            CommandLine::ShellCode(code) => CommandLine::ShellCode(code.duplicate()),
            CommandLine::Parsed(args) => CommandLine::Parsed(args.duplicate()),
        }
    }
}

impl Clone for CommandLine {
    fn clone(&self) -> (r: Self)
        ensures
            r.deep_view() == self.deep_view(),
    {
        self.duplicate()
    }
}

/// A command line is one value: the overriding command line replaces the
/// base, and its arguments are not appended.
impl MergeOverride for CommandLine {
    open spec fn merged(base: CommandLineView, ovr: CommandLineView) -> CommandLineView {
        ovr
    }

    open spec fn sequence_free(v: CommandLineView) -> bool {
        true
    }

    proof fn lemma_merge_with_itself(v: CommandLineView) {
    }

    fn merge_override(&self, ovr: &CommandLine) -> (r: CommandLine) {
        ovr.duplicate()
    }
}

/// The shell code is resolved, or the arguments from first to last.
impl InterpolateAll for CommandLine {
    open spec fn resolved(v: CommandLineView, vars: Map<Seq<char>, Seq<char>>) -> Resolution<
        CommandLineView,
    > {
        match v {
            CommandLineView::ShellCode(code) => Resolution {
                value: CommandLineView::ShellCode(RawOr::<String>::resolved(code, vars).value),
                failure: RawOr::<String>::resolved(code, vars).failure,
            },
            CommandLineView::Parsed(args) => Resolution {
                value: CommandLineView::Parsed(Vec::<RawOr<String>>::resolved(args, vars).value),
                failure: Vec::<RawOr<String>>::resolved(args, vars).failure,
            },
        }
    }

    proof fn lemma_resolved_stays(
        v: CommandLineView,
        vars: Map<Seq<char>, Seq<char>>,
        again: Map<Seq<char>, Seq<char>>,
    ) {
        match v {
            CommandLineView::ShellCode(code) => {
                RawOr::<String>::lemma_resolved_stays(code, vars, again);
            },
            CommandLineView::Parsed(args) => {
                Vec::<RawOr<String>>::lemma_resolved_stays(args, vars, again);
            },
        }
    }

    fn interpolate_all<E: Environment>(&mut self, env: &E) -> (r: Result<(), InterpolationError>) {
        match self {
            CommandLine::ShellCode(code) => code.interpolate_all(env),
            CommandLine::Parsed(args) => args.interpolate_all(env),
        }
    }
}

} // verus!
