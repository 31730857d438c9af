//! The generic nodes that a document is made of before it is given types:
//! scalars, lists and mappings.

use vstd::prelude::*;

verus! {

/// A node of a parsed document.
#[derive(Debug, PartialEq, Eq)]
pub enum Node {
    /// Nothing: a key without a value.
    Null,
    /// A truth value.
    Bool(bool),
    /// A whole number.
    Integer(i64),
    /// A number that is not whole, as the text that writes it.
    Real(String),
    /// A string.
    Text(String),
    /// A sequence of nodes.
    List(Vec<Node>),
    /// A mapping from keys to nodes, in the order of the document.  The
    /// same key may occur more than once.
    Mapping(Vec<(String, Node)>),
}

/// A [`Node`], as plain values.
pub enum NodeView {
    Null,
    Bool(bool),
    Integer(i64),
    Real(Seq<char>),
    Text(Seq<char>),
    List(Seq<NodeView>),
    Mapping(Seq<(Seq<char>, NodeView)>),
}

/// The plain value of a node.
pub open spec fn node_view(node: Node) -> NodeView
    decreases node,
{
    match node {
        Node::Null => NodeView::Null,
        Node::Bool(b) => NodeView::Bool(b),
        Node::Integer(i) => NodeView::Integer(i),
        Node::Real(s) => NodeView::Real(s@),
        Node::Text(s) => NodeView::Text(s@),
        Node::List(items) => NodeView::List(
            Seq::new(
                items@.len(),
                |i: int|
                    if 0 <= i < items@.len() {
                        node_view(items@[i])
                    } else {
                        NodeView::Null
                    },
            ),
        ),
        Node::Mapping(entries) => NodeView::Mapping(
            Seq::new(
                entries@.len(),
                |i: int|
                    if 0 <= i < entries@.len() {
                        (entries@[i].0@, node_view(entries@[i].1))
                    } else {
                        (Seq::empty(), NodeView::Null)
                    },
            ),
        ),
    }
}

impl DeepView for Node {
    type V = NodeView;

    open spec fn deep_view(&self) -> NodeView {
        node_view(*self)
    }
}

impl Node {
    /// A copy of this node.
    #[verifier::loop_isolation(false)]
    pub fn duplicate(&self) -> (r: Node)
        ensures
            r.deep_view() == self.deep_view(),
        decreases self,
    {
        match self {
            Node::Null => Node::Null,
            Node::Bool(b) => Node::Bool(*b),
            Node::Integer(i) => Node::Integer(*i),
            Node::Real(s) => Node::Real(s.clone()),
            Node::Text(s) => Node::Text(s.clone()),
            Node::List(items) => {
                let mut copy: Vec<Node> = Vec::new();
                let mut i: usize = 0;
                while i < items.len()
                    invariant
                        0 <= i <= items.len(),
                        copy.len() == i,
                        *self == Node::List(*items),
                        forall|j: int| 0 <= j < i ==> node_view(copy@[j]) == node_view(items@[j]),
                    decreases items.len() - i,
                {
                    proof {
                        assert(decreases_to!(*items => items[i as int]));
                    }
                    copy.push(items[i].duplicate());
                    i += 1;
                }
                let r = Node::List(copy);
                assert(r.deep_view() =~= self.deep_view()) by {
                    assert(r.deep_view()->List_0 =~= self.deep_view()->List_0);
                }
                r
            },
            Node::Mapping(entries) => {
                let mut copy: Vec<(String, Node)> = Vec::new();
                let mut i: usize = 0;
                while i < entries.len()
                    invariant
                        0 <= i <= entries.len(),
                        copy.len() == i,
                        *self == Node::Mapping(*entries),
                        forall|j: int|
                            0 <= j < i ==> copy@[j].0@ == entries@[j].0@ && node_view(copy@[j].1)
                                == node_view(entries@[j].1),
                    decreases entries.len() - i,
                {
                    proof {
                        assert(decreases_to!(*entries => entries[i as int]));
                        assert(decreases_to!(entries[i as int] => entries[i as int].1));
                    }
                    copy.push((entries[i].0.clone(), entries[i].1.duplicate()));
                    i += 1;
                }
                let r = Node::Mapping(copy);
                assert(r.deep_view() =~= self.deep_view()) by {
                    assert(r.deep_view()->Mapping_0 =~= self.deep_view()->Mapping_0);
                }
                r
            },
        }
    }
}

impl Clone for Node {
    fn clone(&self) -> (r: Self)
        ensures
            r.deep_view() == self.deep_view(),
    {
        self.duplicate()
    }
}

} // verus!
