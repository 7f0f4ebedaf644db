use vstd::prelude::*;

use crate::token::TokenKind;
use crate::utils::is_digit_char;

verus! {

/// One node of the abstract syntax tree: a closed set of variants, each
/// owning its children exclusively. The top level of a parse result is a
/// chain of Block/Content nodes linked through `next` in source order.
///
/// A NumberLiteral holds the signed numeral text exactly as it stood in the
/// tokens (an optional leading sign folded onto the digits); its mathematical
/// value is `numeral_value` of that text.
#[derive(Debug, PartialEq)]
#[allow(inconsistent_fields)]
pub enum Node {
    Block { content: Box<Node>, next: Option<Box<Node>> },
    Content { content: String, next: Option<Box<Node>> },
    Identifier { content: String },
    StringLiteral { content: String },
    NumberLiteral { content: String },
    BinaryOp { operator: TokenKind, left: Box<Node>, right: Box<Node> },
    Condition { operator: TokenKind, left: Box<Node>, right: Box<Node> },
    Ternary { condition: Box<Node>, left: Box<Node>, right: Box<Node> },
}

/// The mathematical model of an AST node, with every text field a sequence
/// of characters.
#[allow(inconsistent_fields)]
pub ghost enum NodeV {
    Block { content: Box<NodeV>, next: Option<Box<NodeV>> },
    Content { content: Seq<char>, next: Option<Box<NodeV>> },
    Identifier { content: Seq<char> },
    StringLiteral { content: Seq<char> },
    NumberLiteral { content: Seq<char> },
    BinaryOp { operator: TokenKind, left: Box<NodeV>, right: Box<NodeV> },
    Condition { operator: TokenKind, left: Box<NodeV>, right: Box<NodeV> },
    Ternary { condition: Box<NodeV>, left: Box<NodeV>, right: Box<NodeV> },
}

/// The model of a node: the same tree with every `String` replaced by its
/// character sequence.
pub open spec fn node_view(n: Node) -> NodeV
    decreases n,
{
    match n {
        Node::Block { content, next } => NodeV::Block {
            content: Box::new(node_view(*content)),
            next: match next {
                Some(b) => Some(Box::new(node_view(*b))),
                None => None,
            },
        },
        Node::Content { content, next } => NodeV::Content {
            content: content@,
            next: match next {
                Some(b) => Some(Box::new(node_view(*b))),
                None => None,
            },
        },
        Node::Identifier { content } => NodeV::Identifier { content: content@ },
        Node::StringLiteral { content } => NodeV::StringLiteral { content: content@ },
        Node::NumberLiteral { content } => NodeV::NumberLiteral { content: content@ },
        Node::BinaryOp { operator, left, right } => NodeV::BinaryOp {
            operator,
            left: Box::new(node_view(*left)),
            right: Box::new(node_view(*right)),
        },
        Node::Condition { operator, left, right } => NodeV::Condition {
            operator,
            left: Box::new(node_view(*left)),
            right: Box::new(node_view(*right)),
        },
        Node::Ternary { condition, left, right } => NodeV::Ternary {
            condition: Box::new(node_view(*condition)),
            left: Box::new(node_view(*left)),
            right: Box::new(node_view(*right)),
        },
    }
}

impl View for Node {
    type V = NodeV;

    open spec fn view(&self) -> NodeV {
        node_view(*self)
    }
}

/// The value of a digit sequence read in base 10.
pub open spec fn digits_value(s: Seq<char>) -> int
    decreases s.len(),
{
    if s.len() == 0 {
        0
    } else {
        digits_value(s.drop_last()) * 10 + (s.last() as u32 - 48)
    }
}

/// The digits of a signed numeral: everything after an optional leading `+`
/// or `-`.
pub open spec fn numeral_digits(s: Seq<char>) -> Seq<char> {
    if s.len() > 0 && (s[0] == '+' || s[0] == '-') {
        s.skip(1)
    } else {
        s
    }
}

/// Whether `s` is a well-shaped signed numeral: an optional leading `+` or
/// `-`, then at least one decimal digit and nothing else.
pub open spec fn numeral_shaped(s: Seq<char>) -> bool {
    numeral_digits(s).len() > 0 && (forall|i: int|
        0 <= i < numeral_digits(s).len() ==> is_digit_char(#[trigger] numeral_digits(s)[i]))
}

/// The signed integer value of a numeral: the digits read in base 10, negated
/// by a leading `-`.
pub open spec fn numeral_value(s: Seq<char>) -> int {
    if s.len() > 0 && s[0] == '-' {
        -digits_value(s.skip(1))
    } else if s.len() > 0 && s[0] == '+' {
        digits_value(s.skip(1))
    } else {
        digits_value(s)
    }
}

} // verus!
