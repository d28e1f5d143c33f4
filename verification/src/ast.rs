//! The abstract syntax tree of a parsed expression.
//!
//! Each binary node owns its two operands, `NEGATIVE` owns one, and a leaf
//! holds the text of a numeral.  The tree is built bottom-up by the parser;
//! computing a number from it is the embedding program's concern.

use vstd::prelude::*;

verus! {

/// One node of the syntax tree: a binary operation, a unary negation, or a
/// numeral leaf carrying the scanned text of the number.
#[allow(non_camel_case_types)]
#[derive(Debug, PartialEq)]
pub enum Node {
    ADD(Box<Node>, Box<Node>),
    SUBTRACT(Box<Node>, Box<Node>),
    MULTIPLY(Box<Node>, Box<Node>),
    DIVIDE(Box<Node>, Box<Node>),
    CARRET(Box<Node>, Box<Node>),
    NEGATIVE(Box<Node>),
    NUMBER(String),
}

/// The mathematical value of a `Node`: the same tree with each numeral
/// abstracted to its character sequence.
pub enum NodeView {
    Add(Box<NodeView>, Box<NodeView>),
    Subtract(Box<NodeView>, Box<NodeView>),
    Multiply(Box<NodeView>, Box<NodeView>),
    Divide(Box<NodeView>, Box<NodeView>),
    Carret(Box<NodeView>, Box<NodeView>),
    Negative(Box<NodeView>),
    Number(Seq<char>),
}

/// The view of a syntax tree, node by node.
pub open spec fn node_view(n: Node) -> NodeView
    decreases n,
{
    match n {
        Node::ADD(l, r) => NodeView::Add(Box::new(node_view(*l)), Box::new(node_view(*r))),
        Node::SUBTRACT(l, r) => NodeView::Subtract(
            Box::new(node_view(*l)),
            Box::new(node_view(*r)),
        ),
        Node::MULTIPLY(l, r) => NodeView::Multiply(
            Box::new(node_view(*l)),
            Box::new(node_view(*r)),
        ),
        Node::DIVIDE(l, r) => NodeView::Divide(Box::new(node_view(*l)), Box::new(node_view(*r))),
        Node::CARRET(l, r) => NodeView::Carret(Box::new(node_view(*l)), Box::new(node_view(*r))),
        Node::NEGATIVE(e) => NodeView::Negative(Box::new(node_view(*e))),
        Node::NUMBER(s) => NodeView::Number(s@),
    }
}

impl View for Node {
    type V = NodeView;

    open spec fn view(&self) -> NodeView {
        node_view(*self)
    }
}

} // verus!
