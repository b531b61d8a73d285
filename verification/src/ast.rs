//! Abstract syntax tree: a closed set of tagged node variants, immutable once
//! constructed. Identifiers and string literals are carried as interned
//! handles (`Sym`); numeric literals as integers.

use vstd::prelude::*;

verus! {

/// Interned-handle type: an index into one interning table.
pub type Sym = usize;

/// A literal constant carried by a `Node::Const` node.
#[derive(Clone, Copy, PartialEq, Eq, Structural, Debug)]
pub enum Const {
    /// The undefined constant, also materialized for elided array slots.
    Undefined,
    /// A numeric literal.
    Num(i64),
    /// A string literal, as an interned handle.
    Str(Sym),
}

/// An AST node. The tree is built by the parser units and consumed by the
/// evaluator; nodes are never mutated after construction.
#[derive(PartialEq, Debug)]
pub enum Node {
    /// A constant literal.
    Const(Const),
    /// An identifier reference, as an interned handle.
    Local(Sym),
    /// An array literal: an ordered sequence of element nodes, with elided
    /// slots materialized as explicit undefined constants.
    ArrayDecl(Vec<Node>),
    /// A spread element wrapping one source expression.
    Spread(Box<Node>),
    /// Non-computed member access: object node plus interned field handle.
    GetConstField(Box<Node>, Sym),
    /// Computed member access: object node plus key expression node.
    GetField(Box<Node>, Box<Node>),
    /// A call: callee node plus ordered argument nodes.
    Call(Box<Node>, Vec<Node>),
    /// A construction (`new`): callee node plus ordered argument nodes.
    New(Box<Node>, Vec<Node>),
    /// A break statement, with an optional label handle.
    Break(Option<Sym>),
}

/// The mathematical shape of an AST node: the same variants as [`Node`],
/// over `Seq` instead of `Vec`. Contracts and the spec-level parser and
/// evaluator speak of this type.
pub enum NodeV {
    Const(Const),
    Local(Sym),
    ArrayDecl(Seq<NodeV>),
    Spread(Box<NodeV>),
    GetConstField(Box<NodeV>, Sym),
    GetField(Box<NodeV>, Box<NodeV>),
    Call(Box<NodeV>, Seq<NodeV>),
    New(Box<NodeV>, Seq<NodeV>),
    Break(Option<Sym>),
}

/// The shape of a node.
pub open spec fn node_view(n: Node) -> NodeV
    decreases n,
{
    match n {
        Node::Const(c) => NodeV::Const(c),
        Node::Local(s) => NodeV::Local(s),
        Node::ArrayDecl(elems) => NodeV::ArrayDecl(nodes_view(elems@)),
        Node::Spread(inner) => NodeV::Spread(Box::new(node_view(*inner))),
        Node::GetConstField(obj, f) => NodeV::GetConstField(Box::new(node_view(*obj)), f),
        Node::GetField(obj, key) => NodeV::GetField(
            Box::new(node_view(*obj)),
            Box::new(node_view(*key)),
        ),
        Node::Call(callee, args) => NodeV::Call(Box::new(node_view(*callee)), nodes_view(args@)),
        Node::New(callee, args) => NodeV::New(Box::new(node_view(*callee)), nodes_view(args@)),
        Node::Break(l) => NodeV::Break(l),
    }
}

/// The shapes of a sequence of nodes.
pub open spec fn nodes_view(s: Seq<Node>) -> Seq<NodeV>
    decreases s,
{
    if s.len() == 0 {
        Seq::empty()
    } else {
        seq![node_view(s[0])] + nodes_view(s.drop_first())
    }
}

impl View for Node {
    type V = NodeV;

    open spec fn view(&self) -> NodeV {
        node_view(*self)
    }
}

/// `nodes_view` is the elementwise image of `node_view`.
pub proof fn lemma_nodes_view(s: Seq<Node>)
    ensures
        nodes_view(s).len() == s.len(),
        forall|i: int| 0 <= i < s.len() ==> nodes_view(s)[i] == node_view(s[i]),
    decreases s,
{
    if s.len() > 0 {
        lemma_nodes_view(s.drop_first());
    }
}

/// Pushing a node onto a sequence pushes its shape onto the sequence's shapes.
pub proof fn lemma_nodes_view_push(s: Seq<Node>, x: Node)
    ensures
        nodes_view(s.push(x)) == nodes_view(s).push(node_view(x)),
{
    lemma_nodes_view(s.push(x));
    lemma_nodes_view(s);
    assert(nodes_view(s.push(x)) =~= nodes_view(s).push(node_view(x)));
}

} // verus!
