//! Abstract syntax of the language, and its mathematical model.
use vstd::prelude::*;

verus! {

/// The binary operators of the language.
#[derive(Debug, Clone, Copy, PartialEq, Eq, Structural)]
pub enum BinaryOperator {
    Plus,
    Minus,
    Times,
    Divides,
    And,
    Or,
    More,
    MoreOrEqual,
    Less,
    LessOrEqual,
    Equal,
    Different,
}

/// A node of the syntax tree, as the parser builds it.
#[derive(Debug)]
pub enum Node {
    Int(i64),
    NodeSeq(Vec<Node>),
    Bool(bool),
    BinaryExpr { op: BinaryOperator, lterm: Box<Node>, rterm: Box<Node> },
    If { cond: Box<Node>, then_term: Box<Node>, else_term: Box<Node> },
    Let(String, Box<Node>),
    Var(String),
}

/// The mathematical value of a [`Node`]: names become character sequences and
/// lists become sequences.
pub ghost enum NodeModel {
    Int(i64),
    NodeSeq(Seq<NodeModel>),
    Bool(bool),
    BinaryExpr { op: BinaryOperator, lterm: Box<NodeModel>, rterm: Box<NodeModel> },
    If { cond: Box<NodeModel>, then_term: Box<NodeModel>, else_term: Box<NodeModel> },
    Let(Seq<char>, Box<NodeModel>),
    Var(Seq<char>),
}

impl Node {
    /// The model of this node.
    pub open spec fn model(&self) -> NodeModel
        decreases self,
    {
        match self {
            Node::Int(n) => NodeModel::Int(*n),
            Node::NodeSeq(list) => NodeModel::NodeSeq(
                Seq::new(list@.len(), |i: int| if 0 <= i < list@.len() {
                    list@[i].model()
                } else {
                    NodeModel::Bool(false)
                }),
            ),
            Node::Bool(b) => NodeModel::Bool(*b),
            Node::BinaryExpr { op, lterm, rterm } => NodeModel::BinaryExpr {
                op: *op,
                lterm: Box::new(lterm.model()),
                rterm: Box::new(rterm.model()),
            },
            Node::If { cond, then_term, else_term } => NodeModel::If {
                cond: Box::new(cond.model()),
                then_term: Box::new(then_term.model()),
                else_term: Box::new(else_term.model()),
            },
            Node::Let(name, value) => NodeModel::Let(name@, Box::new(value.model())),
            Node::Var(name) => NodeModel::Var(name@),
        }
    }
}

} // verus!
