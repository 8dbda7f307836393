use vstd::prelude::*;

use crate::intern::InternedStr;
use crate::lex::{AssignmentToken, ComparisonToken, Literal, Location};
use crate::types::Type;

verus! {

/// A typed expression node.
///
/// `constexpr` is written by the folder: after folding it is true exactly
/// when `expr` is a literal.
#[derive(Debug)]
pub struct Expr {
    pub expr: ExprType,
    pub ctype: Type,
    pub constexpr: bool,
    pub lval: bool,
    pub location: Location,
}

/// The shape of an expression node; children are owned by their parent.
#[derive(Debug)]
pub enum ExprType {
    Literal(Literal),
    Id(InternedStr),
    Sizeof(Type),
    Negate(Box<Expr>),
    LogicalNot(Box<Expr>),
    BitwiseNot(Box<Expr>),
    Comma(Box<Expr>, Box<Expr>),
    /// A conversion that does not change the representation.
    Noop(Box<Expr>),
    Deref(Box<Expr>),
    Add(Box<Expr>, Box<Expr>),
    Sub(Box<Expr>, Box<Expr>),
    Mul(Box<Expr>, Box<Expr>),
    Div(Box<Expr>, Box<Expr>),
    Mod(Box<Expr>, Box<Expr>),
    Xor(Box<Expr>, Box<Expr>),
    BitwiseAnd(Box<Expr>, Box<Expr>),
    BitwiseOr(Box<Expr>, Box<Expr>),
    /// `true` for a left shift, `false` for a right shift.
    Shift(Box<Expr>, Box<Expr>, bool),
    Compare(Box<Expr>, Box<Expr>, ComparisonToken),
    Ternary(Box<Expr>, Box<Expr>, Box<Expr>),
    FuncCall(Box<Expr>, Vec<Expr>),
    Member(Box<Expr>, InternedStr),
    Assign(Box<Expr>, Box<Expr>, AssignmentToken),
    /// `true` for `++`, `false` for `--`.
    PostIncrement(Box<Expr>, bool),
    Cast(Box<Expr>),
    LogicalAnd(Box<Expr>, Box<Expr>),
    LogicalOr(Box<Expr>, Box<Expr>),
    StaticRef(Box<Expr>),
}

/// The mathematical model of an expression: the same tree, with the
/// arguments of a call held as a sequence.
pub struct Node {
    pub kind: NodeKind,
    pub ctype: Type,
    pub constexpr: bool,
    pub lval: bool,
    pub location: Location,
}

pub enum NodeKind {
    Literal(Literal),
    Id(InternedStr),
    Sizeof(Type),
    Negate(Box<Node>),
    LogicalNot(Box<Node>),
    BitwiseNot(Box<Node>),
    Comma(Box<Node>, Box<Node>),
    Noop(Box<Node>),
    Deref(Box<Node>),
    Add(Box<Node>, Box<Node>),
    Sub(Box<Node>, Box<Node>),
    Mul(Box<Node>, Box<Node>),
    Div(Box<Node>, Box<Node>),
    Mod(Box<Node>, Box<Node>),
    Xor(Box<Node>, Box<Node>),
    BitwiseAnd(Box<Node>, Box<Node>),
    BitwiseOr(Box<Node>, Box<Node>),
    Shift(Box<Node>, Box<Node>, bool),
    Compare(Box<Node>, Box<Node>, ComparisonToken),
    Ternary(Box<Node>, Box<Node>, Box<Node>),
    FuncCall(Box<Node>, Seq<Node>),
    Member(Box<Node>, InternedStr),
    Assign(Box<Node>, Box<Node>, AssignmentToken),
    PostIncrement(Box<Node>, bool),
    Cast(Box<Node>),
    LogicalAnd(Box<Node>, Box<Node>),
    LogicalOr(Box<Node>, Box<Node>),
    StaticRef(Box<Node>),
}

/// The model of an expression.
pub open spec fn expr_view(e: Expr) -> Node
    decreases e,
{
    Node {
        kind: kind_view(e.expr),
        ctype: e.ctype,
        constexpr: e.constexpr,
        lval: e.lval,
        location: e.location,
    }
}

pub open spec fn kind_view(x: ExprType) -> NodeKind
    decreases x,
{
    match x {
        ExprType::Literal(l) => NodeKind::Literal(l),
        ExprType::Id(name) => NodeKind::Id(name),
        ExprType::Sizeof(t) => NodeKind::Sizeof(t),
        ExprType::Negate(a) => NodeKind::Negate(Box::new(expr_view(*a))),
        ExprType::LogicalNot(a) => NodeKind::LogicalNot(Box::new(expr_view(*a))),
        ExprType::BitwiseNot(a) => NodeKind::BitwiseNot(Box::new(expr_view(*a))),
        ExprType::Comma(a, b) => NodeKind::Comma(Box::new(expr_view(*a)), Box::new(expr_view(*b))),
        ExprType::Noop(a) => NodeKind::Noop(Box::new(expr_view(*a))),
        ExprType::Deref(a) => NodeKind::Deref(Box::new(expr_view(*a))),
        ExprType::Add(a, b) => NodeKind::Add(Box::new(expr_view(*a)), Box::new(expr_view(*b))),
        ExprType::Sub(a, b) => NodeKind::Sub(Box::new(expr_view(*a)), Box::new(expr_view(*b))),
        ExprType::Mul(a, b) => NodeKind::Mul(Box::new(expr_view(*a)), Box::new(expr_view(*b))),
        ExprType::Div(a, b) => NodeKind::Div(Box::new(expr_view(*a)), Box::new(expr_view(*b))),
        ExprType::Mod(a, b) => NodeKind::Mod(Box::new(expr_view(*a)), Box::new(expr_view(*b))),
        ExprType::Xor(a, b) => NodeKind::Xor(Box::new(expr_view(*a)), Box::new(expr_view(*b))),
        ExprType::BitwiseAnd(a, b) => NodeKind::BitwiseAnd(
            Box::new(expr_view(*a)),
            Box::new(expr_view(*b)),
        ),
        ExprType::BitwiseOr(a, b) => NodeKind::BitwiseOr(
            Box::new(expr_view(*a)),
            Box::new(expr_view(*b)),
        ),
        ExprType::Shift(a, b, left) => NodeKind::Shift(
            Box::new(expr_view(*a)),
            Box::new(expr_view(*b)),
            left,
        ),
        ExprType::Compare(a, b, op) => NodeKind::Compare(
            Box::new(expr_view(*a)),
            Box::new(expr_view(*b)),
            op,
        ),
        ExprType::Ternary(a, b, c) => NodeKind::Ternary(
            Box::new(expr_view(*a)),
            Box::new(expr_view(*b)),
            Box::new(expr_view(*c)),
        ),
        ExprType::FuncCall(f, args) => NodeKind::FuncCall(
            Box::new(expr_view(*f)),
            views(args@, args@.len()),
        ),
        ExprType::Member(a, name) => NodeKind::Member(Box::new(expr_view(*a)), name),
        ExprType::Assign(a, b, op) => NodeKind::Assign(
            Box::new(expr_view(*a)),
            Box::new(expr_view(*b)),
            op,
        ),
        ExprType::PostIncrement(a, up) => NodeKind::PostIncrement(Box::new(expr_view(*a)), up),
        ExprType::Cast(a) => NodeKind::Cast(Box::new(expr_view(*a))),
        ExprType::LogicalAnd(a, b) => NodeKind::LogicalAnd(
            Box::new(expr_view(*a)),
            Box::new(expr_view(*b)),
        ),
        ExprType::LogicalOr(a, b) => NodeKind::LogicalOr(
            Box::new(expr_view(*a)),
            Box::new(expr_view(*b)),
        ),
        ExprType::StaticRef(a) => NodeKind::StaticRef(Box::new(expr_view(*a))),
    }
}

/// The models of the first `n` expressions of `s`.
pub open spec fn views(s: Seq<Expr>, n: nat) -> Seq<Node>
    decreases s, n,
{
    if n == 0 || n > s.len() {
        Seq::empty()
    } else {
        views(s, (n - 1) as nat).push(expr_view(s[n - 1]))
    }
}

impl View for Expr {
    type V = Node;

    open spec fn view(&self) -> Node {
        expr_view(*self)
    }
}

} // verus!
