//! Constant folding of expression trees.
//!
//! [`folded`] states what folding a tree gives; [`Expr::const_fold`] computes
//! it. Literal arithmetic follows C: signed integers are checked for
//! overflow, unsigned integers and characters wrap.
use vstd::prelude::*;

use crate::error::{CompileError, CompileResult, SemanticError};
use crate::expr::{kind_view, Expr, ExprType, Node, NodeKind};
use crate::lex::{literal_is_zero, ComparisonToken, Literal, Locatable, Location};
use crate::intern::InternedStr;
use crate::types::{is_integral, is_pointer, is_signed, size_of, Type};

verus! {

/// The binary operators that fold through [`literal_bin_op`].
#[derive(Copy, Clone, Debug, PartialEq, Eq, Structural)]
pub enum BinOp {
    Add,
    Sub,
    Mul,
    Div,
    Mod,
    Xor,
    BitwiseAnd,
    BitwiseOr,
    LogicalAnd,
    LogicalOr,
}

pub open spec fn abs(a: int) -> int {
    if a < 0 {
        -a
    } else {
        a
    }
}

/// Division rounding toward zero, as C and Rust divide integers.
pub open spec fn trunc_div(a: int, b: int) -> int {
    let q = abs(a) / abs(b);
    if (a < 0) == (b < 0) {
        q
    } else {
        -q
    }
}

/// The remainder that goes with [`trunc_div`]: it takes the sign of `a`.
pub open spec fn trunc_rem(a: int, b: int) -> int {
    let r = abs(a) % abs(b);
    if a < 0 {
        -r
    } else {
        r
    }
}

pub open spec fn fits_i64(v: int) -> bool {
    i64::MIN <= v <= i64::MAX
}

/// The outcome of signed arithmetic whose exact result is `exact`.
pub open spec fn signed_result(exact: int) -> Result<Option<Literal>, SemanticError> {
    if fits_i64(exact) {
        Ok(Some(Literal::Int(exact as i64)))
    } else {
        Err(SemanticError::ConstOverflow { is_positive: exact > 0 })
    }
}

pub open spec fn wrap_u64(v: int) -> u64 {
    (v % 0x1_0000_0000_0000_0000) as u64
}

pub open spec fn wrap_u8(v: int) -> u8 {
    (v % 0x100) as u8
}

pub open spec fn truth(b: bool) -> Literal {
    Literal::Int(
        if b {
            1
        } else {
            0
        },
    )
}

/// Folds `a op b` for two literals: `Ok(Some(_))` is the folded value,
/// `Ok(None)` declines (the node is rebuilt), `Err(_)` is a fatal error.
///
/// Signed integers are checked for overflow; unsigned integers and
/// characters wrap. A zero divisor declines here: the folder reports it
/// before the operands are combined. Characters subtract with wrapping
/// whether the operand type is signed or not.
pub open spec fn arith(op: BinOp, a: Literal, b: Literal) -> Result<Option<Literal>, SemanticError> {
    match op {
        BinOp::LogicalAnd => Ok(
            if a == Literal::Int(1) && b == Literal::Int(1) {
                Some(Literal::Int(1))
            } else if a == Literal::Int(0) || b == Literal::Int(0) {
                Some(Literal::Int(0))
            } else {
                None
            },
        ),
        BinOp::LogicalOr => Ok(
            if a == Literal::Int(0) && b == Literal::Int(0) {
                Some(Literal::Int(0))
            } else if a == Literal::Int(1) || b == Literal::Int(1) {
                Some(Literal::Int(1))
            } else {
                None
            },
        ),
        _ => match (a, b) {
            (Literal::Int(x), Literal::Int(y)) => match op {
                BinOp::Add => signed_result(x + y),
                BinOp::Sub => signed_result(x - y),
                BinOp::Mul => signed_result(x * y),
                BinOp::Div => if y == 0 {
                    Ok(None)
                } else {
                    signed_result(trunc_div(x as int, y as int))
                },
                BinOp::Mod => if y == 0 {
                    Ok(None)
                } else if x == i64::MIN && y == -1 {
                    Err(SemanticError::ConstOverflow { is_positive: false })
                } else {
                    Ok(Some(Literal::Int(trunc_rem(x as int, y as int) as i64)))
                },
                BinOp::Xor => Ok(Some(Literal::Int(x ^ y))),
                BinOp::BitwiseAnd => Ok(Some(Literal::Int(x & y))),
                _ => Ok(Some(Literal::Int(x | y))),
            },
            (Literal::UnsignedInt(x), Literal::UnsignedInt(y)) => match op {
                BinOp::Add => Ok(Some(Literal::UnsignedInt(wrap_u64(x + y)))),
                BinOp::Sub => Ok(Some(Literal::UnsignedInt(wrap_u64(x - y)))),
                BinOp::Mul => Ok(Some(Literal::UnsignedInt(wrap_u64(x * y)))),
                BinOp::Div => if y == 0 {
                    Ok(None)
                } else {
                    Ok(Some(Literal::UnsignedInt(x / y)))
                },
                BinOp::Mod => if y == 0 {
                    Ok(None)
                } else {
                    Ok(Some(Literal::UnsignedInt(x % y)))
                },
                BinOp::Xor => Ok(Some(Literal::UnsignedInt(x ^ y))),
                BinOp::BitwiseAnd => Ok(Some(Literal::UnsignedInt(x & y))),
                _ => Ok(Some(Literal::UnsignedInt(x | y))),
            },
            (Literal::Char(x), Literal::Char(y)) => match op {
                BinOp::Add => Ok(Some(Literal::Char(wrap_u8(x + y)))),
                BinOp::Sub => Ok(Some(Literal::Char(wrap_u8(x - y)))),
                BinOp::Mul => Ok(Some(Literal::Char(wrap_u8(x * y)))),
                BinOp::Div => if y == 0 {
                    Ok(None)
                } else {
                    Ok(Some(Literal::Char(x / y)))
                },
                BinOp::Mod => if y == 0 {
                    Ok(None)
                } else {
                    Ok(Some(Literal::Char(x % y)))
                },
                BinOp::Xor => Ok(Some(Literal::Char(x ^ y))),
                BinOp::BitwiseAnd => Ok(Some(Literal::Char(x & y))),
                _ => Ok(Some(Literal::Char(x | y))),
            },
            _ => Ok(None),
        },
    }
}

proof fn lemma_mul_overflow_sign(x: int, y: int)
    requires
        !fits_i64(x * y),
    ensures
        (x * y > 0) == ((x > 0) == (y > 0)),
{
    assert(x != 0 && y != 0) by (nonlinear_arith)
        requires
            !fits_i64(x * y),
    ;
    assert((x * y > 0) == ((x > 0) == (y > 0))) by (nonlinear_arith)
        requires
            x != 0,
            y != 0,
    ;
}

proof fn lemma_div_nonneg(x: int, d: int)
    requires
        x >= 0,
        d > 0,
    ensures
        x / d >= 0,
        x % d >= 0,
        x % d < d,
        x / d <= x,
{
    assert(x / d >= 0 && x / d <= x) by (nonlinear_arith)
        requires
            x >= 0,
            d > 0,
    ;
}

fn signed_div(x: i64, y: i64) -> (r: Result<Option<Literal>, SemanticError>)
    requires
        y != 0,
    ensures
        r == signed_result(trunc_div(x as int, y as int)),
{
    proof {
        lemma_div_nonneg(abs(x as int), abs(y as int));
        assert(0int / abs(y as int) == 0) by (nonlinear_arith)
            requires
                abs(y as int) > 0,
        ;
    }
    match x.checked_div(y) {
        Some(q) => Ok(Some(Literal::Int(q))),
        None => Err(SemanticError::ConstOverflow { is_positive: (x < 0) == (y < 0) }),
    }
}

fn signed_rem(x: i64, y: i64) -> (r: Result<Option<Literal>, SemanticError>)
    requires
        y != 0,
    ensures
        r == (if x == i64::MIN && y == -1 {
            Err(SemanticError::ConstOverflow { is_positive: false })
        } else {
            Ok(Some(Literal::Int(trunc_rem(x as int, y as int) as i64)))
        }),
{
    proof {
        lemma_div_nonneg(abs(x as int), abs(y as int));
        assert(0int % abs(y as int) == 0) by (nonlinear_arith)
            requires
                abs(y as int) > 0,
        ;
    }
    match x.checked_rem(y) {
        Some(q) => Ok(Some(Literal::Int(q))),
        None => Err(SemanticError::ConstOverflow { is_positive: false }),
    }
}

/// Folds two literals under `op`; see [`arith`].
pub fn fold_literals(op: BinOp, a: &Literal, b: &Literal) -> (r: Result<Option<Literal>, SemanticError>)
    ensures
        r == arith(op, *a, *b),
{
    match op {
        BinOp::LogicalAnd => {
            return Ok(
                match (a, b) {
                    (Literal::Int(1), Literal::Int(1)) => Some(Literal::Int(1)),
                    (Literal::Int(0), _) | (_, Literal::Int(0)) => Some(Literal::Int(0)),
                    _ => None,
                },
            );
        },
        BinOp::LogicalOr => {
            return Ok(
                match (a, b) {
                    (Literal::Int(0), Literal::Int(0)) => Some(Literal::Int(0)),
                    (Literal::Int(1), _) | (_, Literal::Int(1)) => Some(Literal::Int(1)),
                    _ => None,
                },
            );
        },
        _ => {},
    }
    match (a, b) {
        (Literal::Int(x), Literal::Int(y)) => {
            let (x, y) = (*x, *y);
            match op {
                BinOp::Add => match x.checked_add(y) {
                    Some(v) => Ok(Some(Literal::Int(v))),
                    None => Err(SemanticError::ConstOverflow { is_positive: x > 0 }),
                },
                BinOp::Sub => match x.checked_sub(y) {
                    Some(v) => Ok(Some(Literal::Int(v))),
                    None => Err(SemanticError::ConstOverflow { is_positive: x >= 0 }),
                },
                BinOp::Mul => match x.checked_mul(y) {
                    Some(v) => Ok(Some(Literal::Int(v))),
                    None => {
                        proof {
                            lemma_mul_overflow_sign(x as int, y as int);
                        }
                        Err(SemanticError::ConstOverflow { is_positive: (x > 0) == (y > 0) })
                    },
                },
                BinOp::Div => if y == 0 {
                    Ok(None)
                } else {
                    signed_div(x, y)
                },
                BinOp::Mod => if y == 0 {
                    Ok(None)
                } else {
                    signed_rem(x, y)
                },
                BinOp::Xor => Ok(Some(Literal::Int(x ^ y))),
                BinOp::BitwiseAnd => Ok(Some(Literal::Int(x & y))),
                _ => Ok(Some(Literal::Int(x | y))),
            }
        },
        (Literal::UnsignedInt(x), Literal::UnsignedInt(y)) => {
            let (x, y) = (*x, *y);
            match op {
                BinOp::Add => Ok(Some(Literal::UnsignedInt(x.wrapping_add(y)))),
                BinOp::Sub => Ok(Some(Literal::UnsignedInt(x.wrapping_sub(y)))),
                BinOp::Mul => Ok(Some(Literal::UnsignedInt(x.wrapping_mul(y)))),
                BinOp::Div => if y == 0 {
                    Ok(None)
                } else {
                    Ok(Some(Literal::UnsignedInt(x / y)))
                },
                BinOp::Mod => if y == 0 {
                    Ok(None)
                } else {
                    Ok(Some(Literal::UnsignedInt(x % y)))
                },
                BinOp::Xor => Ok(Some(Literal::UnsignedInt(x ^ y))),
                BinOp::BitwiseAnd => Ok(Some(Literal::UnsignedInt(x & y))),
                _ => Ok(Some(Literal::UnsignedInt(x | y))),
            }
        },
        (Literal::Char(x), Literal::Char(y)) => {
            let (x, y) = (*x, *y);
            match op {
                BinOp::Add => Ok(Some(Literal::Char(x.wrapping_add(y)))),
                BinOp::Sub => Ok(Some(Literal::Char(x.wrapping_sub(y)))),
                BinOp::Mul => Ok(Some(Literal::Char(x.wrapping_mul(y)))),
                BinOp::Div => if y == 0 {
                    Ok(None)
                } else {
                    Ok(Some(Literal::Char(x / y)))
                },
                BinOp::Mod => if y == 0 {
                    Ok(None)
                } else {
                    Ok(Some(Literal::Char(x % y)))
                },
                BinOp::Xor => Ok(Some(Literal::Char(x ^ y))),
                BinOp::BitwiseAnd => Ok(Some(Literal::Char(x & y))),
                _ => Ok(Some(Literal::Char(x | y))),
            }
        },
        _ => Ok(None),
    }
}

pub open spec fn holds(op: ComparisonToken, x: int, y: int) -> bool {
    match op {
        ComparisonToken::Less => x < y,
        ComparisonToken::LessEqual => x <= y,
        ComparisonToken::Greater => x > y,
        ComparisonToken::GreaterEqual => x >= y,
        ComparisonToken::EqualEqual => x == y,
        ComparisonToken::NotEqual => x != y,
    }
}

/// `a op b` as `Int 0` or `Int 1` when both literals are of one numeric
/// variant; `None` otherwise.
pub open spec fn compare_literals(op: ComparisonToken, a: Literal, b: Literal) -> Option<Literal> {
    match (a, b) {
        (Literal::Int(x), Literal::Int(y)) => Some(truth(holds(op, x as int, y as int))),
        (Literal::UnsignedInt(x), Literal::UnsignedInt(y)) => Some(
            truth(holds(op, x as int, y as int)),
        ),
        (Literal::Char(x), Literal::Char(y)) => Some(truth(holds(op, x as int, y as int))),
        _ => None,
    }
}

fn holds_exec(op: ComparisonToken, x: u64, y: u64) -> (r: bool)
    ensures
        r == holds(op, x as int, y as int),
{
    match op {
        ComparisonToken::Less => x < y,
        ComparisonToken::LessEqual => x <= y,
        ComparisonToken::Greater => x > y,
        ComparisonToken::GreaterEqual => x >= y,
        ComparisonToken::EqualEqual => x == y,
        ComparisonToken::NotEqual => x != y,
    }
}

fn holds_signed(op: ComparisonToken, x: i64, y: i64) -> (r: bool)
    ensures
        r == holds(op, x as int, y as int),
{
    match op {
        ComparisonToken::Less => x < y,
        ComparisonToken::LessEqual => x <= y,
        ComparisonToken::Greater => x > y,
        ComparisonToken::GreaterEqual => x >= y,
        ComparisonToken::EqualEqual => x == y,
        ComparisonToken::NotEqual => x != y,
    }
}

fn truth_exec(b: bool) -> (r: Literal)
    ensures
        r == truth(b),
{
    Literal::Int(
        if b {
            1
        } else {
            0
        },
    )
}

pub fn compare_literal_pair(op: ComparisonToken, a: &Literal, b: &Literal) -> (r: Option<Literal>)
    ensures
        r == compare_literals(op, *a, *b),
{
    match (a, b) {
        (Literal::Int(x), Literal::Int(y)) => Some(truth_exec(holds_signed(op, *x, *y))),
        (Literal::UnsignedInt(x), Literal::UnsignedInt(y)) => Some(
            truth_exec(holds_exec(op, *x, *y)),
        ),
        (Literal::Char(x), Literal::Char(y)) => Some(
            truth_exec(holds_exec(op, *x as u64, *y as u64)),
        ),
        _ => None,
    }
}

/// Arithmetic negation; `Int` wraps at the minimum, a string is unchanged.
pub open spec fn negate_literal(l: Literal) -> Literal {
    match l {
        Literal::Int(i) => Literal::Int(
            if i == i64::MIN {
                i
            } else {
                (-i) as i64
            },
        ),
        Literal::UnsignedInt(u) => Literal::UnsignedInt(wrap_u64(-u)),
        Literal::Char(c) => Literal::Char(wrap_u8(-c)),
        Literal::Str(s) => Literal::Str(s),
    }
}

fn negate_literal_exec(l: Literal) -> (r: Literal)
    ensures
        r == negate_literal(l),
{
    match l {
        Literal::Int(i) => Literal::Int(0i64.wrapping_sub(i)),
        Literal::UnsignedInt(u) => Literal::UnsignedInt(0u64.wrapping_sub(u)),
        Literal::Char(c) => Literal::Char(0u8.wrapping_sub(c)),
        Literal::Str(s) => Literal::Str(s),
    }
}

/// The value of an integer literal reinterpreted as a signed 64-bit
/// integer (two's complement).
pub open spec fn as_signed(l: Literal) -> i64 {
    match l {
        Literal::Int(i) => i,
        Literal::UnsignedInt(u) => if u > i64::MAX {
            (u - 0x1_0000_0000_0000_0000) as i64
        } else {
            u as i64
        },
        Literal::Char(c) => c as i64,
        Literal::Str(_) => 0,
    }
}

/// The value of an integer literal reinterpreted as an unsigned 64-bit
/// integer (two's complement).
pub open spec fn as_unsigned(l: Literal) -> u64 {
    match l {
        Literal::Int(i) => wrap_u64(i as int),
        Literal::UnsignedInt(u) => u,
        Literal::Char(c) => c as u64,
        Literal::Str(_) => 0,
    }
}

/// The literal that a cast of `l` to `t` folds to, or `None` when the cast
/// is left for the code generator.
///
/// Casts to floating types are never folded: literals hold no floating
/// values.
pub open spec fn cast_literal(l: Literal, t: Type) -> Option<Literal> {
    if l is Str {
        None
    } else if t is Bool {
        Some(truth(!literal_is_zero(l)))
    } else if t is Float || t is Double {
        None
    } else if is_integral(t) && is_signed(t) {
        Some(Literal::Int(as_signed(l)))
    } else if is_integral(t) {
        Some(Literal::UnsignedInt(as_unsigned(l)))
    } else if is_pointer(t) {
        match l {
            Literal::Int(i) => if i >= 0 {
                Some(Literal::UnsignedInt(i as u64))
            } else {
                None
            },
            Literal::UnsignedInt(u) => Some(Literal::UnsignedInt(u)),
            Literal::Char(c) => Some(Literal::UnsignedInt(c as u64)),
            Literal::Str(_) => None,
        }
    } else {
        None
    }
}

/// Folds a cast of the literal `token` to `ctype`; see [`cast_literal`].
pub fn const_cast(token: &Literal, ctype: &Type) -> (r: Option<Literal>)
    ensures
        r == cast_literal(*token, *ctype),
{
    let l = *token;
    if let Literal::Str(_) = l {
        return None;
    }
    if let Type::Bool = ctype {
        return Some(truth_exec(!l.is_zero()));
    }
    match ctype {
        Type::Float | Type::Double => {
            return None;
        },
        _ => {},
    }
    if ctype.is_integral() && ctype.is_signed() {
        let v: i64 = match l {
            Literal::Int(i) => i,
            Literal::UnsignedInt(u) => if u > i64::MAX as u64 {
                (u - 0x8000_0000_0000_0000u64) as i64 + i64::MIN
            } else {
                u as i64
            },
            Literal::Char(c) => c as i64,
            Literal::Str(_) => 0,
        };
        Some(Literal::Int(v))
    } else if ctype.is_integral() {
        let v: u64 = match l {
            Literal::Int(i) => if i >= 0 {
                i as u64
            } else {
                (i - i64::MIN) as u64 + 0x8000_0000_0000_0000u64
            },
            Literal::UnsignedInt(u) => u,
            Literal::Char(c) => c as u64,
            Literal::Str(_) => 0,
        };
        Some(Literal::UnsignedInt(v))
    } else if ctype.is_pointer() {
        match l {
            Literal::Int(i) => if i >= 0 {
                Some(Literal::UnsignedInt(i as u64))
            } else {
                None
            },
            Literal::UnsignedInt(u) => Some(Literal::UnsignedInt(u)),
            Literal::Char(c) => Some(Literal::UnsignedInt(c as u64)),
            Literal::Str(_) => None,
        }
    } else {
        None
    }
}

/// A literal usable as a shift amount: a non-negative integer or a
/// character.
pub open spec fn shift_amount(l: Literal) -> Option<u64> {
    match l {
        Literal::Int(i) => if i >= 0 {
            Some(i as u64)
        } else {
            None
        },
        Literal::UnsignedInt(u) => Some(u),
        Literal::Char(c) => Some(c as u64),
        Literal::Str(_) => None,
    }
}

impl Literal {
    fn non_negative_int(&self) -> (r: Result<u64, ()>)
        ensures
            r matches Ok(v) ==> shift_amount(*self) == Some(v),
            r is Err ==> shift_amount(*self) is None,
    {
        match *self {
            Literal::Int(i) => if i >= 0 {
                Ok(i as u64)
            } else {
                Err(())
            },
            Literal::UnsignedInt(u) => Ok(u),
            Literal::Char(c) => Ok(c as u64),
            Literal::Str(_) => Err(()),
        }
    }
}

/// The literal an expression holds, if it is one.
pub open spec fn literal_of(n: Node) -> Option<Literal> {
    match n.kind {
        NodeKind::Literal(l) => Some(l),
        _ => None,
    }
}

pub open spec fn located(location: Location, data: SemanticError) -> CompileError {
    Locatable { data, location }
}

pub open spec fn rebuild_bin(op: BinOp, l: Node, r: Node) -> NodeKind {
    match op {
        BinOp::Add => NodeKind::Add(Box::new(l), Box::new(r)),
        BinOp::Sub => NodeKind::Sub(Box::new(l), Box::new(r)),
        BinOp::Mul => NodeKind::Mul(Box::new(l), Box::new(r)),
        BinOp::Div => NodeKind::Div(Box::new(l), Box::new(r)),
        BinOp::Mod => NodeKind::Mod(Box::new(l), Box::new(r)),
        BinOp::Xor => NodeKind::Xor(Box::new(l), Box::new(r)),
        BinOp::BitwiseAnd => NodeKind::BitwiseAnd(Box::new(l), Box::new(r)),
        BinOp::BitwiseOr => NodeKind::BitwiseOr(Box::new(l), Box::new(r)),
        BinOp::LogicalAnd => NodeKind::LogicalAnd(Box::new(l), Box::new(r)),
        BinOp::LogicalOr => NodeKind::LogicalOr(Box::new(l), Box::new(r)),
    }
}

/// A binary operator over folded operands: evaluated when both are literals
/// and [`arith`] folds them, rebuilt otherwise.
pub open spec fn bin_node(op: BinOp, l: Node, r: Node, location: Location) -> Result<
    NodeKind,
    CompileError,
> {
    match (literal_of(l), literal_of(r)) {
        (Some(a), Some(b)) => match arith(op, a, b) {
            Err(e) => Err(located(location, e)),
            Ok(Some(v)) => Ok(NodeKind::Literal(v)),
            Ok(None) => Ok(rebuild_bin(op, l, r)),
        },
        _ => Ok(rebuild_bin(op, l, r)),
    }
}

pub open spec fn compare_node(op: ComparisonToken, l: Node, r: Node) -> NodeKind {
    match (literal_of(l), literal_of(r)) {
        (Some(a), Some(b)) => match compare_literals(op, a, b) {
            Some(v) => NodeKind::Literal(v),
            None => NodeKind::Compare(Box::new(l), Box::new(r), op),
        },
        _ => NodeKind::Compare(Box::new(l), Box::new(r), op),
    }
}

pub open spec fn negate_node(a: Node) -> NodeKind {
    match a.kind {
        NodeKind::Literal(l) => NodeKind::Literal(negate_literal(l)),
        _ => NodeKind::Negate(Box::new(a)),
    }
}

pub open spec fn logical_not_node(a: Node) -> NodeKind {
    match a.kind {
        NodeKind::Literal(Literal::Str(_)) => NodeKind::Literal(Literal::Int(0)),
        NodeKind::Literal(l) => NodeKind::Literal(truth(literal_is_zero(l))),
        _ => NodeKind::LogicalNot(Box::new(a)),
    }
}

pub open spec fn bitwise_not_node(a: Node) -> NodeKind {
    match a.kind {
        // the bitwise complement of a two's complement `i` is `-1 - i`
        NodeKind::Literal(Literal::Int(i)) => NodeKind::Literal(Literal::Int((-1 - i) as i64)),
        NodeKind::Literal(Literal::UnsignedInt(u)) => NodeKind::Literal(Literal::UnsignedInt(!u)),
        NodeKind::Literal(Literal::Char(c)) => NodeKind::Literal(Literal::Char(!c)),
        _ => NodeKind::BitwiseNot(Box::new(a)),
    }
}

pub open spec fn cast_node(a: Node, t: Type) -> NodeKind {
    match literal_of(a) {
        Some(l) => match cast_literal(l, t) {
            Some(v) => NodeKind::Literal(v),
            None => NodeKind::Cast(Box::new(a)),
        },
        None => NodeKind::Cast(Box::new(a)),
    }
}

/// `l >> r` for folded operands under result type `t`. A shift by at least
/// the width of `t` in bits gives zero.
pub open spec fn shift_right_node(l: Node, r: Node, t: Type, location: Location) -> Result<
    NodeKind,
    CompileError,
> {
    match literal_of(r) {
        None => Ok(NodeKind::Shift(Box::new(l), Box::new(r), false)),
        Some(amount) => match shift_amount(amount) {
            None => Err(located(location, SemanticError::NegativeShift)),
            Some(shift) => match size_of(t) {
                Err(e) => Err(located(location, SemanticError::Sizeof(e))),
                Ok(size) => if shift >= 8 * size {
                    Ok(
                        NodeKind::Literal(
                            if is_signed(t) {
                                Literal::Int(0)
                            } else {
                                Literal::UnsignedInt(0)
                            },
                        ),
                    )
                } else {
                    match literal_of(l) {
                        Some(Literal::Int(i)) => Ok(NodeKind::Literal(Literal::Int(i >> (shift % 64)))),
                        Some(Literal::UnsignedInt(u)) => Ok(
                            NodeKind::Literal(Literal::UnsignedInt(u >> (shift % 64))),
                        ),
                        _ => Ok(NodeKind::Shift(Box::new(l), Box::new(r), false)),
                    }
                },
            },
        },
    }
}

/// `l << r` for folded operands. A signed left operand may not be shifted
/// by its width in bits or more; an unsigned one wraps.
pub open spec fn shift_left_node(l: Node, r: Node, location: Location) -> Result<
    NodeKind,
    CompileError,
> {
    match literal_of(r) {
        None => Ok(NodeKind::Shift(Box::new(l), Box::new(r), true)),
        Some(amount) => match shift_amount(amount) {
            None => Err(located(location, SemanticError::NegativeShift)),
            Some(shift) => {
                let width_error: Option<SemanticError> = if is_signed(l.ctype) {
                    match size_of(l.ctype) {
                        Err(e) => Some(SemanticError::Sizeof(e)),
                        Ok(size) => if shift >= 8 * size {
                            Some(
                                SemanticError::TooManyShiftBits {
                                    max_shift: (8 * size) as u64,
                                    shift,
                                },
                            )
                        } else {
                            None
                        },
                    }
                } else {
                    None
                };
                match width_error {
                    Some(e) => Err(located(location, e)),
                    None => match literal_of(l) {
                        Some(Literal::Int(i)) => if shift >= 64 {
                            Err(located(location, SemanticError::ShiftOverflow))
                        } else {
                            Ok(NodeKind::Literal(Literal::Int(i << shift)))
                        },
                        Some(Literal::UnsignedInt(u)) => Ok(
                            NodeKind::Literal(Literal::UnsignedInt(u << (shift % 64))),
                        ),
                        _ => Ok(NodeKind::Shift(Box::new(l), Box::new(r), true)),
                    },
                }
            },
        },
    }
}

/// The value of member `name` in an enumeration's member list: the first
/// entry with that name.
pub open spec fn enum_value(members: Seq<(InternedStr, i64)>, name: InternedStr) -> Option<i64>
    decreases members.len(),
{
    if members.len() == 0 {
        None
    } else if members[0].0 == name {
        Some(members[0].1)
    } else {
        enum_value(members.drop_first(), name)
    }
}

pub open spec fn id_node(t: Type, name: InternedStr) -> NodeKind {
    match t {
        Type::Enum(_, members) => match enum_value(members@, name) {
            Some(v) => NodeKind::Literal(Literal::Int(v)),
            None => NodeKind::Id(name),
        },
        _ => NodeKind::Id(name),
    }
}

/// The node that folding `n` produces when its shape folds to `k`: type,
/// location and lvalue-ness are kept, and `constexpr` records whether `k`
/// is a literal.
pub open spec fn finish(n: Node, k: NodeKind) -> Node {
    Node { kind: k, ctype: n.ctype, constexpr: k is Literal, lval: n.lval, location: n.location }
}

pub open spec fn finish_with(n: Node, k: Result<NodeKind, CompileError>) -> Result<Node, CompileError> {
    match k {
        Ok(k) => Ok(finish(n, k)),
        Err(e) => Err(e),
    }
}

/// True when an expression is an integer or character zero literal.
pub open spec fn node_is_zero(n: Node) -> bool {
    match literal_of(n) {
        Some(l) => literal_is_zero(l),
        None => false,
    }
}

/// The result of folding `n`: post-order, children first and left to right;
/// the first error found is returned.
pub open spec fn folded(n: Node) -> Result<Node, CompileError>
    decreases n, 1nat,
{
    finish_with(n, folded_kind(n.kind, n.ctype, n.location))
}

/// What a node of shape `k`, type `t` and location `loc` folds to.
pub open spec fn folded_kind(k: NodeKind, t: Type, loc: Location) -> Result<NodeKind, CompileError>
    decreases k, 0nat,
{
    match k {
        NodeKind::Literal(_) => Ok(k),
        NodeKind::Id(name) => Ok(id_node(t, name)),
        NodeKind::Sizeof(of) => match size_of(of) {
            Ok(s) => Ok(NodeKind::Literal(Literal::UnsignedInt(s))),
            Err(e) => Err(located(loc, SemanticError::Sizeof(e))),
        },
        NodeKind::Negate(a) => match folded(*a) {
            Err(e) => Err(e),
            Ok(a2) => Ok(negate_node(a2)),
        },
        NodeKind::LogicalNot(a) => match folded(*a) {
            Err(e) => Err(e),
            Ok(a2) => Ok(logical_not_node(a2)),
        },
        NodeKind::BitwiseNot(a) => match folded(*a) {
            Err(e) => Err(e),
            Ok(a2) => Ok(bitwise_not_node(a2)),
        },
        NodeKind::Noop(a) => match folded(*a) {
            Err(e) => Err(e),
            Ok(a2) => Ok(NodeKind::Noop(Box::new(a2))),
        },
        NodeKind::Cast(a) => match folded(*a) {
            Err(e) => Err(e),
            Ok(a2) => Ok(cast_node(a2, t)),
        },
        NodeKind::StaticRef(a) => match folded(*a) {
            Err(e) => Err(e),
            Ok(a2) => Ok(NodeKind::StaticRef(Box::new(a2))),
        },
        NodeKind::Member(a, name) => match folded(*a) {
            Err(e) => Err(e),
            Ok(a2) => Ok(NodeKind::Member(Box::new(a2), name)),
        },
        NodeKind::PostIncrement(a, up) => match folded(*a) {
            Err(e) => Err(e),
            Ok(a2) => Ok(NodeKind::PostIncrement(Box::new(a2), up)),
        },
        NodeKind::Comma(a, b) => match folded(*a) {
            Err(e) => Err(e),
            Ok(a2) => match folded(*b) {
                Err(e) => Err(e),
                Ok(b2) => Ok(
                    if a2.constexpr {
                        b2.kind
                    } else {
                        NodeKind::Comma(Box::new(a2), Box::new(b2))
                    },
                ),
            },
        },
        NodeKind::Deref(a) => match folded(*a) {
            Err(e) => Err(e),
            Ok(a2) => if a2.kind == NodeKind::Literal(Literal::Int(0)) {
                Err(located(a2.location, SemanticError::NullDereference))
            } else {
                Ok(NodeKind::Deref(Box::new(a2)))
            },
        },
        NodeKind::Add(a, b) => match folded(*a) {
            Err(e) => Err(e),
            Ok(a2) => match folded(*b) {
                Err(e) => Err(e),
                Ok(b2) => bin_node(BinOp::Add, a2, b2, loc),
            },
        },
        NodeKind::Sub(a, b) => match folded(*a) {
            Err(e) => Err(e),
            Ok(a2) => match folded(*b) {
                Err(e) => Err(e),
                Ok(b2) => bin_node(BinOp::Sub, a2, b2, loc),
            },
        },
        NodeKind::Mul(a, b) => match folded(*a) {
            Err(e) => Err(e),
            Ok(a2) => match folded(*b) {
                Err(e) => Err(e),
                Ok(b2) => bin_node(BinOp::Mul, a2, b2, loc),
            },
        },
        NodeKind::Xor(a, b) => match folded(*a) {
            Err(e) => Err(e),
            Ok(a2) => match folded(*b) {
                Err(e) => Err(e),
                Ok(b2) => bin_node(BinOp::Xor, a2, b2, loc),
            },
        },
        NodeKind::BitwiseAnd(a, b) => match folded(*a) {
            Err(e) => Err(e),
            Ok(a2) => match folded(*b) {
                Err(e) => Err(e),
                Ok(b2) => bin_node(BinOp::BitwiseAnd, a2, b2, loc),
            },
        },
        NodeKind::BitwiseOr(a, b) => match folded(*a) {
            Err(e) => Err(e),
            Ok(a2) => match folded(*b) {
                Err(e) => Err(e),
                Ok(b2) => bin_node(BinOp::BitwiseOr, a2, b2, loc),
            },
        },
        NodeKind::LogicalAnd(a, b) => match folded(*a) {
            Err(e) => Err(e),
            Ok(a2) => match folded(*b) {
                Err(e) => Err(e),
                Ok(b2) => bin_node(BinOp::LogicalAnd, a2, b2, loc),
            },
        },
        NodeKind::LogicalOr(a, b) => match folded(*a) {
            Err(e) => Err(e),
            Ok(a2) => match folded(*b) {
                Err(e) => Err(e),
                Ok(b2) => bin_node(BinOp::LogicalOr, a2, b2, loc),
            },
        },
        NodeKind::Div(a, b) => match folded(*b) {
            Err(e) => Err(e),
            Ok(b2) => if node_is_zero(b2) {
                Err(located(loc, SemanticError::DivideByZero))
            } else {
                match folded(*a) {
                    Err(e) => Err(e),
                    Ok(a2) => bin_node(BinOp::Div, a2, b2, loc),
                }
            },
        },
        NodeKind::Mod(a, b) => match folded(*b) {
            Err(e) => Err(e),
            Ok(b2) => if node_is_zero(b2) {
                Err(located(loc, SemanticError::DivideByZero))
            } else {
                match folded(*a) {
                    Err(e) => Err(e),
                    Ok(a2) => bin_node(BinOp::Mod, a2, b2, loc),
                }
            },
        },
        NodeKind::Shift(a, b, left) => match folded(*a) {
            Err(e) => Err(e),
            Ok(a2) => match folded(*b) {
                Err(e) => Err(e),
                Ok(b2) => if left {
                    shift_left_node(a2, b2, loc)
                } else {
                    shift_right_node(a2, b2, t, loc)
                },
            },
        },
        NodeKind::Compare(a, b, op) => match folded(*a) {
            Err(e) => Err(e),
            Ok(a2) => match folded(*b) {
                Err(e) => Err(e),
                Ok(b2) => Ok(compare_node(op, a2, b2)),
            },
        },
        NodeKind::Ternary(c, a, b) => match folded(*c) {
            Err(e) => Err(e),
            Ok(c2) => match folded(*a) {
                Err(e) => Err(e),
                Ok(a2) => match folded(*b) {
                    Err(e) => Err(e),
                    Ok(b2) => Ok(
                        match c2.kind {
                            NodeKind::Literal(Literal::Int(0)) => b2.kind,
                            NodeKind::Literal(Literal::Int(_)) => a2.kind,
                            _ => NodeKind::Ternary(Box::new(c2), Box::new(a2), Box::new(b2)),
                        },
                    ),
                },
            },
        },
        NodeKind::FuncCall(f, args) => match folded(*f) {
            Err(e) => Err(e),
            Ok(f2) => match folded_all(args, args.len()) {
                Err(e) => Err(e),
                Ok(args2) => Ok(NodeKind::FuncCall(Box::new(f2), args2)),
            },
        },
        NodeKind::Assign(a, b, op) => match folded(*a) {
            Err(e) => Err(e),
            Ok(a2) => match folded(*b) {
                Err(e) => Err(e),
                Ok(b2) => Ok(NodeKind::Assign(Box::new(a2), Box::new(b2), op)),
            },
        },
    }
}

/// Folds the first `k` expressions of `s`, left to right.
pub open spec fn folded_all(s: Seq<Node>, k: nat) -> Result<Seq<Node>, CompileError>
    decreases s, k,
{
    if k == 0 || k > s.len() {
        Ok(Seq::empty())
    } else {
        match folded_all(s, (k - 1) as nat) {
            Err(e) => Err(e),
            Ok(p) => match folded(s[k - 1]) {
                Err(e) => Err(e),
                Ok(x) => Ok(p.push(x)),
            },
        }
    }
}

pub open spec fn kind_result(r: Result<ExprType, CompileError>) -> Result<NodeKind, CompileError> {
    match r {
        Ok(k) => Ok(kind_view(k)),
        Err(e) => Err(e),
    }
}

pub open spec fn result_view(r: Result<Expr, CompileError>) -> Result<Node, CompileError> {
    match r {
        Ok(e) => Ok(e@),
        Err(e) => Err(e),
    }
}

fn rebuild(op: BinOp, l: Expr, r: Expr) -> (k: ExprType)
    ensures
        kind_view(k) == rebuild_bin(op, l@, r@),
{
    match op {
        BinOp::Add => ExprType::Add(Box::new(l), Box::new(r)),
        BinOp::Sub => ExprType::Sub(Box::new(l), Box::new(r)),
        BinOp::Mul => ExprType::Mul(Box::new(l), Box::new(r)),
        BinOp::Div => ExprType::Div(Box::new(l), Box::new(r)),
        BinOp::Mod => ExprType::Mod(Box::new(l), Box::new(r)),
        BinOp::Xor => ExprType::Xor(Box::new(l), Box::new(r)),
        BinOp::BitwiseAnd => ExprType::BitwiseAnd(Box::new(l), Box::new(r)),
        BinOp::BitwiseOr => ExprType::BitwiseOr(Box::new(l), Box::new(r)),
        BinOp::LogicalAnd => ExprType::LogicalAnd(Box::new(l), Box::new(r)),
        BinOp::LogicalOr => ExprType::LogicalOr(Box::new(l), Box::new(r)),
    }
}

/// Combines two folded operands under `op`; errors are reported at
/// `location`, the operator's.
fn literal_bin_op(op: BinOp, left: Expr, right: Expr, location: Location) -> (r: Result<
    ExprType,
    CompileError,
>)
    ensures
        kind_result(r) == bin_node(op, left@, right@, location),
{
    match (left.literal(), right.literal()) {
        (Some(a), Some(b)) => match fold_literals(op, &a, &b) {
            Err(e) => Err(location.error(e)),
            Ok(Some(v)) => Ok(ExprType::Literal(v)),
            Ok(None) => Ok(rebuild(op, left, right)),
        },
        _ => Ok(rebuild(op, left, right)),
    }
}

fn compare(op: ComparisonToken, left: Expr, right: Expr) -> (r: ExprType)
    ensures
        kind_view(r) == compare_node(op, left@, right@),
{
    match (left.literal(), right.literal()) {
        (Some(a), Some(b)) => match compare_literal_pair(op, &a, &b) {
            Some(v) => ExprType::Literal(v),
            None => ExprType::Compare(Box::new(left), Box::new(right), op),
        },
        _ => ExprType::Compare(Box::new(left), Box::new(right), op),
    }
}

fn negate(expr: Expr) -> (r: ExprType)
    ensures
        kind_view(r) == negate_node(expr@),
{
    match expr.literal() {
        Some(l) => ExprType::Literal(negate_literal_exec(l)),
        None => ExprType::Negate(Box::new(expr)),
    }
}

fn lnot_fold(expr: Expr) -> (r: ExprType)
    ensures
        kind_view(r) == logical_not_node(expr@),
{
    match expr.literal() {
        Some(Literal::Str(_)) => ExprType::Literal(Literal::Int(0)),
        Some(l) => ExprType::Literal(truth_exec(l.is_zero())),
        None => ExprType::LogicalNot(Box::new(expr)),
    }
}

fn bitwise_not(expr: Expr) -> (r: ExprType)
    ensures
        kind_view(r) == bitwise_not_node(expr@),
{
    let r = match expr.literal() {
        Some(Literal::Int(i)) => ExprType::Literal(Literal::Int(-1 - i)),
        Some(Literal::UnsignedInt(u)) => ExprType::Literal(Literal::UnsignedInt(!u)),
        Some(Literal::Char(c)) => ExprType::Literal(Literal::Char(!c)),
        _ => ExprType::BitwiseNot(Box::new(expr)),
    };
    r
}

fn cast(expr: Expr, ctype: &Type) -> (r: ExprType)
    ensures
        kind_view(r) == cast_node(expr@, *ctype),
{
    match expr.literal() {
        Some(l) => match const_cast(&l, ctype) {
            Some(v) => ExprType::Literal(v),
            None => ExprType::Cast(Box::new(expr)),
        },
        None => ExprType::Cast(Box::new(expr)),
    }
}

fn shift_right(left: Expr, right: Expr, ctype: &Type, location: Location) -> (r: Result<
    ExprType,
    CompileError,
>)
    ensures
        kind_result(r) == shift_right_node(left@, right@, *ctype, location),
{
    let amount = match right.literal() {
        Some(a) => a,
        None => {
            return Ok(ExprType::Shift(Box::new(left), Box::new(right), false));
        },
    };
    let shift = match amount.non_negative_int() {
        Ok(u) => u,
        Err(_) => {
            return Err(location.error(SemanticError::NegativeShift));
        },
    };
    let size = match ctype.sizeof() {
        Ok(s) => s,
        Err(e) => {
            return Err(location.error(SemanticError::Sizeof(e)));
        },
    };
    if size <= u64::MAX / 8 && shift >= size * 8 {
        return Ok(
            ExprType::Literal(
                if ctype.is_signed() {
                    Literal::Int(0)
                } else {
                    Literal::UnsignedInt(0)
                },
            ),
        );
    }
    match left.literal() {
        Some(Literal::Int(i)) => Ok(ExprType::Literal(Literal::Int(i.wrapping_shr((shift % 64) as u32)))),
        Some(Literal::UnsignedInt(u)) => Ok(
            ExprType::Literal(Literal::UnsignedInt(u.wrapping_shr((shift % 64) as u32))),
        ),
        _ => Ok(ExprType::Shift(Box::new(left), Box::new(right), false)),
    }
}

fn shift_left(left: Expr, right: Expr, location: Location) -> (r: Result<ExprType, CompileError>)
    ensures
        kind_result(r) == shift_left_node(left@, right@, location),
{
    let amount = match right.literal() {
        Some(a) => a,
        None => {
            return Ok(ExprType::Shift(Box::new(left), Box::new(right), true));
        },
    };
    let shift = match amount.non_negative_int() {
        Ok(u) => u,
        Err(_) => {
            return Err(location.error(SemanticError::NegativeShift));
        },
    };
    if left.ctype.is_signed() {
        let size = match left.ctype.sizeof() {
            Ok(s) => s,
            Err(e) => {
                return Err(location.error(SemanticError::Sizeof(e)));
            },
        };
        if size <= u64::MAX / 8 && shift >= size * 8 {
            return Err(
                location.error(SemanticError::TooManyShiftBits { max_shift: size * 8, shift }),
            );
        }
    }
    match left.literal() {
        Some(Literal::Int(i)) => if shift >= 64 {
            Err(location.error(SemanticError::ShiftOverflow))
        } else {
            Ok(ExprType::Literal(Literal::Int(i.wrapping_shl(shift as u32))))
        },
        Some(Literal::UnsignedInt(u)) => Ok(
            ExprType::Literal(Literal::UnsignedInt(u.wrapping_shl((shift % 64) as u32))),
        ),
        _ => Ok(ExprType::Shift(Box::new(left), Box::new(right), true)),
    }
}

fn enum_member(members: &Vec<(InternedStr, i64)>, name: InternedStr) -> (r: Option<i64>)
    ensures
        r == enum_value(members@, name),
{
    let mut i: usize = 0;
    assert(members@.subrange(0, members@.len() as int) =~= members@);
    while i < members.len()
        invariant
            i <= members@.len(),
            enum_value(members@, name) == enum_value(members@.subrange(i as int, members@.len() as int), name),
        decreases members.len() - i,
    {
        let ghost rest = members@.subrange(i as int, members@.len() as int);
        assert(rest.drop_first() =~= members@.subrange(i + 1, members@.len() as int));
        if members[i].0 == name {
            return Some(members[i].1);
        }
        i = i + 1;
    }
    None
}

impl Expr {
    /// The literal this expression holds, if it is one.
    fn literal(&self) -> (r: Option<Literal>)
        ensures
            r == literal_of(self@),
    {
        match &self.expr {
            ExprType::Literal(l) => Some(*l),
            _ => None,
        }
    }

    /// True when the expression is an integer or character zero literal.
    pub fn is_zero(&self) -> (r: bool)
        ensures
            r == node_is_zero(self@),
    {
        match &self.expr {
            ExprType::Literal(l) => l.is_zero(),
            _ => false,
        }
    }

    /// True when the expression is a negative signed integer literal.
    pub fn is_negative(&self) -> (r: bool)
        ensures
            r == (literal_of(self@) matches Some(Literal::Int(i)) && i < 0),
    {
        match &self.expr {
            ExprType::Literal(Literal::Int(i)) => *i < 0,
            _ => false,
        }
    }
}

proof fn lemma_views_len(s: Seq<Expr>, n: nat)
    requires
        n <= s.len(),
    ensures
        crate::expr::views(s, n).len() == n,
        forall|i: int| 0 <= i < n ==> #[trigger] crate::expr::views(s, n)[i] == s[i]@,
    decreases n,
{
    if n > 0 {
        lemma_views_len(s, (n - 1) as nat);
    }
}

proof fn lemma_views_push(s: Seq<Expr>, x: Expr, n: nat)
    requires
        n <= s.len(),
    ensures
        crate::expr::views(s.push(x), n) == crate::expr::views(s, n),
    decreases n,
{
    if n > 0 {
        lemma_views_push(s, x, (n - 1) as nat);
        assert(s.push(x)[n - 1] == s[n - 1]);
    }
}

proof fn lemma_folded_all_err(s: Seq<Node>, k: nat, m: nat)
    requires
        k <= m <= s.len(),
        folded_all(s, k) is Err,
    ensures
        folded_all(s, m) == folded_all(s, k),
    decreases m,
{
    if m > k {
        lemma_folded_all_err(s, k, (m - 1) as nat);
    }
}

pub open spec fn is_unary_shape(x: ExprType) -> bool {
    x is Negate || x is LogicalNot || x is BitwiseNot || x is Noop || x is Cast || x is StaticRef || x is Member || x is PostIncrement || x is Deref
}

pub open spec fn is_arith_shape(x: ExprType) -> bool {
    x is Add || x is Sub || x is Mul || x is Xor || x is BitwiseAnd || x is BitwiseOr || x is LogicalAnd || x is LogicalOr || x is Div || x is Mod
}

pub open spec fn is_leaf_shape(x: ExprType) -> bool {
    x is Literal || x is Id || x is Sizeof
}

fn unary_shape(x: &ExprType) -> (r: bool)
    ensures
        r == is_unary_shape(*x),
{
    match x {
        ExprType::Negate(..) | ExprType::LogicalNot(..) | ExprType::BitwiseNot(..) | ExprType::Noop(..) | ExprType::Cast(..) | ExprType::StaticRef(..) | ExprType::Member(..) | ExprType::PostIncrement(..) | ExprType::Deref(..) => true,
        _ => false,
    }
}

fn arith_shape(x: &ExprType) -> (r: bool)
    ensures
        r == is_arith_shape(*x),
{
    match x {
        ExprType::Add(..) | ExprType::Sub(..) | ExprType::Mul(..) | ExprType::Xor(..) | ExprType::BitwiseAnd(..) | ExprType::BitwiseOr(..) | ExprType::LogicalAnd(..) | ExprType::LogicalOr(..) | ExprType::Div(..) | ExprType::Mod(..) => true,
        _ => false,
    }
}

/// Folds a node with one operand.
fn fold_unary(x: ExprType, ctype: &Type, location: Location) -> (r: CompileResult<ExprType>)
    requires
        is_unary_shape(x),
    ensures
        kind_result(r) == folded_kind(kind_view(x), *ctype, location),
    decreases x,
{
    match x {
        ExprType::Negate(a) => {
            let a2 = a.const_fold()?;
            Ok(negate(a2))
        },
        ExprType::LogicalNot(a) => {
            let a2 = a.const_fold()?;
            Ok(lnot_fold(a2))
        },
        ExprType::BitwiseNot(a) => {
            let a2 = a.const_fold()?;
            Ok(bitwise_not(a2))
        },
        ExprType::Noop(a) => {
            let a2 = a.const_fold()?;
            Ok(ExprType::Noop(Box::new(a2)))
        },
        ExprType::Cast(a) => {
            let a2 = a.const_fold()?;
            Ok(cast(a2, ctype))
        },
        ExprType::StaticRef(a) => {
            let a2 = a.const_fold()?;
            Ok(ExprType::StaticRef(Box::new(a2)))
        },
        ExprType::Member(a, name) => {
            let a2 = a.const_fold()?;
            Ok(ExprType::Member(Box::new(a2), name))
        },
        ExprType::PostIncrement(a, up) => {
            let a2 = a.const_fold()?;
            Ok(ExprType::PostIncrement(Box::new(a2), up))
        },
        ExprType::Deref(a) => {
            let a2 = a.const_fold()?;
            if let Some(Literal::Int(0)) = a2.literal() {
                return Err(a2.location.error(SemanticError::NullDereference));
            }
            Ok(ExprType::Deref(Box::new(a2)))
        },
        _ => Ok(x),
    }
}

/// Folds an arithmetic, bitwise or logical operator; errors are reported at
/// the operator's `location`.
fn fold_arith(x: ExprType, ctype: &Type, location: Location) -> (r: CompileResult<ExprType>)
    requires
        is_arith_shape(x),
    ensures
        kind_result(r) == folded_kind(kind_view(x), *ctype, location),
    decreases x,
{
    match x {
        ExprType::Add(a, b) => {
            let a2 = a.const_fold()?;
            let b2 = b.const_fold()?;
            literal_bin_op(BinOp::Add, a2, b2, location)
        },
        ExprType::Sub(a, b) => {
            let a2 = a.const_fold()?;
            let b2 = b.const_fold()?;
            literal_bin_op(BinOp::Sub, a2, b2, location)
        },
        ExprType::Mul(a, b) => {
            let a2 = a.const_fold()?;
            let b2 = b.const_fold()?;
            literal_bin_op(BinOp::Mul, a2, b2, location)
        },
        ExprType::Xor(a, b) => {
            let a2 = a.const_fold()?;
            let b2 = b.const_fold()?;
            literal_bin_op(BinOp::Xor, a2, b2, location)
        },
        ExprType::BitwiseAnd(a, b) => {
            let a2 = a.const_fold()?;
            let b2 = b.const_fold()?;
            literal_bin_op(BinOp::BitwiseAnd, a2, b2, location)
        },
        ExprType::BitwiseOr(a, b) => {
            let a2 = a.const_fold()?;
            let b2 = b.const_fold()?;
            literal_bin_op(BinOp::BitwiseOr, a2, b2, location)
        },
        ExprType::LogicalAnd(a, b) => {
            let a2 = a.const_fold()?;
            let b2 = b.const_fold()?;
            literal_bin_op(BinOp::LogicalAnd, a2, b2, location)
        },
        ExprType::LogicalOr(a, b) => {
            let a2 = a.const_fold()?;
            let b2 = b.const_fold()?;
            literal_bin_op(BinOp::LogicalOr, a2, b2, location)
        },
        ExprType::Div(a, b) => {
            let b2 = b.const_fold()?;
            if b2.is_zero() {
                return Err(location.error(SemanticError::DivideByZero));
            }
            let a2 = a.const_fold()?;
            literal_bin_op(BinOp::Div, a2, b2, location)
        },
        ExprType::Mod(a, b) => {
            let b2 = b.const_fold()?;
            if b2.is_zero() {
                return Err(location.error(SemanticError::DivideByZero));
            }
            let a2 = a.const_fold()?;
            literal_bin_op(BinOp::Mod, a2, b2, location)
        },
        _ => Ok(x),
    }
}

/// Folds a shift; see [`shift_left_node`] and [`shift_right_node`].
fn fold_shift(x: ExprType, ctype: &Type, location: Location) -> (r: CompileResult<ExprType>)
    requires
        x is Shift,
    ensures
        kind_result(r) == folded_kind(kind_view(x), *ctype, location),
    decreases x,
{
    match x {
        ExprType::Shift(a, b, left) => {
            let a2 = a.const_fold()?;
            let b2 = b.const_fold()?;
            if left {
                shift_left(a2, b2, location)
            } else {
                shift_right(a2, b2, ctype, location)
            }
        },
        _ => Ok(x),
    }
}

/// Folds a conditional: a constant integer condition picks a branch.
fn fold_ternary(x: ExprType, ctype: &Type, location: Location) -> (r: CompileResult<ExprType>)
    requires
        x is Ternary,
    ensures
        kind_result(r) == folded_kind(kind_view(x), *ctype, location),
    decreases x,
{
    match x {
        ExprType::Ternary(c, a, b) => {
            let c2 = c.const_fold()?;
            let a2 = a.const_fold()?;
            let b2 = b.const_fold()?;
            match c2.literal() {
                Some(Literal::Int(0)) => Ok(b2.expr),
                Some(Literal::Int(_)) => Ok(a2.expr),
                _ => Ok(ExprType::Ternary(Box::new(c2), Box::new(a2), Box::new(b2))),
            }
        },
        _ => Ok(x),
    }
}

/// Folds the callee and the arguments of a call, which stays a call.
fn fold_call(x: ExprType, ctype: &Type, location: Location) -> (r: CompileResult<ExprType>)
    requires
        x is FuncCall,
    ensures
        kind_result(r) == folded_kind(kind_view(x), *ctype, location),
    decreases x,
{
    match x {
        ExprType::FuncCall(f, args) => {
            proof {
                lemma_views_len(args@, args@.len());
            }
            let f2 = f.const_fold()?;
            let args2 = fold_args(args)?;
            Ok(ExprType::FuncCall(Box::new(f2), args2))
        },
        _ => Ok(x),
    }
}

/// Folds the remaining shapes: comma, comparison and assignment.
fn fold_rest(x: ExprType, ctype: &Type, location: Location) -> (r: CompileResult<ExprType>)
    requires
        !is_unary_shape(x),
        !is_arith_shape(x),
        !is_leaf_shape(x),
        !(x is Shift || x is Ternary || x is FuncCall),
    ensures
        kind_result(r) == folded_kind(kind_view(x), *ctype, location),
    decreases x,
{
    match x {
        ExprType::Comma(a, b) => {
            let a2 = a.const_fold()?;
            let b2 = b.const_fold()?;
            // a constant left side has no effect and can be dropped
            if a2.constexpr {
                Ok(b2.expr)
            } else {
                Ok(ExprType::Comma(Box::new(a2), Box::new(b2)))
            }
        },
        ExprType::Compare(a, b, op) => {
            let a2 = a.const_fold()?;
            let b2 = b.const_fold()?;
            Ok(compare(op, a2, b2))
        },
        ExprType::Assign(a, b, op) => {
            let a2 = a.const_fold()?;
            let b2 = b.const_fold()?;
            Ok(ExprType::Assign(Box::new(a2), Box::new(b2), op))
        },
        _ => Ok(x),
    }
}

impl Expr {
    /// Folds the expression: every subexpression whose operands are known
    /// is evaluated, the rest is rebuilt from its folded children.
    ///
    /// Type, location and lvalue-ness are kept; `constexpr` of the result
    /// is true exactly when it is a literal.
    pub fn const_fold(self) -> (r: CompileResult<Expr>)
        ensures
            result_view(r) == folded(self@),
        decreases self,
    {
        let Expr { expr, ctype, constexpr: _, lval, location } = self;
        let kind: ExprType = match expr {
            ExprType::Literal(l) => ExprType::Literal(l),
            ExprType::Id(name) => match &ctype {
                Type::Enum(_, members) => match enum_member(members, name) {
                    Some(v) => ExprType::Literal(Literal::Int(v)),
                    None => ExprType::Id(name),
                },
                _ => ExprType::Id(name),
            },
            ExprType::Sizeof(t) => match t.sizeof() {
                Ok(s) => ExprType::Literal(Literal::UnsignedInt(s)),
                Err(e) => {
                    return Err(location.error(SemanticError::Sizeof(e)));
                },
            },
            x => if unary_shape(&x) {
                fold_unary(x, &ctype, location)?
            } else if arith_shape(&x) {
                fold_arith(x, &ctype, location)?
            } else if let ExprType::Shift(..) = x {
                fold_shift(x, &ctype, location)?
            } else if let ExprType::Ternary(..) = x {
                fold_ternary(x, &ctype, location)?
            } else if let ExprType::FuncCall(..) = x {
                fold_call(x, &ctype, location)?
            } else {
                fold_rest(x, &ctype, location)?
            },
        };
        let constexpr = match &kind {
            ExprType::Literal(_) => true,
            _ => false,
        };
        Ok(Expr { expr: kind, ctype, constexpr, lval, location })
    }
}

/// Folds the arguments of a call, left to right, stopping at the first error.
fn fold_args(args: Vec<Expr>) -> (r: CompileResult<Vec<Expr>>)
    ensures
        match r {
            Ok(v) => folded_all(crate::expr::views(args@, args@.len()), args@.len()) == Ok::<
                Seq<Node>,
                CompileError,
            >(crate::expr::views(v@, v@.len())),
            Err(e) => folded_all(crate::expr::views(args@, args@.len()), args@.len()) == Err::<
                Seq<Node>,
                CompileError,
            >(e),
        },
    decreases args,
{
    let ghost all = args;
    let ghost models = crate::expr::views(all@, all@.len());
    proof {
        lemma_views_len(all@, all@.len());
        assert(all@.subrange(0, all@.len() as int) =~= all@);
    }
    let mut rest = args;
    let mut done: Vec<Expr> = Vec::new();
    while rest.len() > 0
        invariant
            done@.len() + rest@.len() == all@.len(),
            rest@ == all@.subrange(done@.len() as int, all@.len() as int),
            models == crate::expr::views(all@, all@.len()),
            models.len() == all@.len(),
            forall|i: int| 0 <= i < all@.len() ==> #[trigger] models[i] == all@[i]@,
            folded_all(models, done@.len() as nat) == Ok::<Seq<Node>, CompileError>(
                crate::expr::views(done@, done@.len() as nat),
            ),
            all == args,
        decreases rest.len(),
    {
        let ghost k = done@.len();
        let a = rest.remove(0);
        assert(a == all@[k as int]);
        proof {
            assert(decreases_to!(all => all[k as int]));
        }
        let a2 = match a.const_fold() {
            Ok(x) => x,
            Err(e) => {
                proof {
                    lemma_folded_all_err(models, (k + 1) as nat, models.len());
                }
                return Err(e);
            },
        };
        proof {
            lemma_views_push(done@, a2, k as nat);
        }
        done.push(a2);
        proof {
            assert(rest@ =~= all@.subrange(done@.len() as int, all@.len() as int));
        }
    }
    Ok(done)
}

/// `r` reports, at the location of `n`, that `n` is not a constant.
pub open spec fn not_constant(r: CompileResult<Locatable<(Literal, Type)>>, n: Node) -> bool {
    match r {
        Err(e) => e.location == n.location && match e.data {
            SemanticError::NotConstant(x) => (*x)@ == n,
            _ => false,
        },
        Ok(_) => false,
    }
}

impl Expr {
    /// Folds the expression and demands a literal: the literal with the
    /// expression's type and location, or `NotConstant` with the folded
    /// expression. Errors of the fold are passed on.
    pub fn constexpr(self) -> (r: CompileResult<Locatable<(Literal, Type)>>)
        ensures
            match folded(self@) {
                Err(e) => r == Err::<Locatable<(Literal, Type)>, CompileError>(e),
                Ok(n) => match literal_of(n) {
                    Some(l) => r matches Ok(v) && v.data.0 == l && v.data.1 == n.ctype
                        && v.location == n.location,
                    None => not_constant(r, n),
                },
            },
    {
        let folded = self.const_fold()?;
        match folded.expr {
            ExprType::Literal(token) => Ok(
                Locatable { data: (token, folded.ctype), location: folded.location },
            ),
            _ => {
                let location = folded.location;
                Err(location.error(SemanticError::NotConstant(Box::new(folded))))
            },
        }
    }
}

} // verus!
