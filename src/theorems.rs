//! Facts about folding that hold for all inputs, proved from the
//! definitions in [`crate::fold`].
use vstd::prelude::*;

use crate::error::CompileError;
use crate::expr::{Node, NodeKind};
use crate::fold::{
    abs, cast_literal, fits_i64, folded, folded_all, folded_kind, holds, literal_of, rebuild_bin, trunc_div, trunc_rem,
    BinOp,
};
use crate::lex::{ComparisonToken, Literal, Location};
use crate::types::Type;

verus! {

/// A literal leaf with the given type and location.
pub open spec fn leaf(l: Literal, t: Type, location: Location) -> Node {
    Node { kind: NodeKind::Literal(l), ctype: t, constexpr: true, lval: false, location }
}

/// The node `a op b`.
pub open spec fn binary(op: BinOp, a: Node, b: Node, t: Type, location: Location) -> Node {
    Node { kind: rebuild_bin(op, a, b), ctype: t, constexpr: false, lval: false, location }
}

/// The node `a op b` for a comparison operator.
pub open spec fn comparison(op: ComparisonToken, a: Node, b: Node, t: Type, location: Location) -> Node {
    Node {
        kind: NodeKind::Compare(Box::new(a), Box::new(b), op),
        ctype: t,
        constexpr: false,
        lval: false,
        location,
    }
}

/// The result of Rust's checked signed operation for `op`.
pub open spec fn native_checked(op: BinOp, a: i64, b: i64) -> Option<i64> {
    match op {
        BinOp::Add => a.checked_add(b),
        BinOp::Sub => a.checked_sub(b),
        BinOp::Mul => a.checked_mul(b),
        BinOp::Div => a.checked_div(b),
        BinOp::Mod => a.checked_rem(b),
        _ => None,
    }
}

/// The result of Rust's wrapping unsigned operation for `op`; division and
/// remainder by a non-zero divisor never wrap.
pub open spec fn native_wrapping(op: BinOp, a: u64, b: u64) -> u64 {
    match op {
        BinOp::Add => a.wrapping_add(b),
        BinOp::Sub => a.wrapping_sub(b),
        BinOp::Mul => a.wrapping_mul(b),
        BinOp::Div => a / b,
        _ => a % b,
    }
}

/// The numeric value of an integer or character literal.
pub open spec fn value_of(l: Literal) -> int {
    match l {
        Literal::Int(i) => i as int,
        Literal::UnsignedInt(u) => u as int,
        Literal::Char(c) => c as int,
        Literal::Str(_) => 0,
    }
}

/// A literal leaf folds to itself.
pub proof fn leaf_is_folded(l: Literal, t: Type, location: Location)
    ensures
        folded(leaf(l, t, location)) == Ok::<Node, crate::error::CompileError>(leaf(l, t, location)),
{
    assert(crate::fold::folded_kind(NodeKind::Literal(l), t, location) == Ok::<
        NodeKind,
        crate::error::CompileError,
    >(NodeKind::Literal(l)));
}

/// Folding keeps the type, the location and the lvalue flag of the node.
pub proof fn fold_keeps_type_and_location(n: Node)
    ensures
        folded(n) matches Ok(f) ==> f.ctype == n.ctype && f.location == n.location && f.lval
            == n.lval,
{
}

/// After folding, `constexpr` is true exactly when the node is a literal.
pub proof fn fold_marks_literals(n: Node)
    ensures
        folded(n) matches Ok(f) ==> (f.constexpr <==> f.kind is Literal),
{
}

/// Folding a cast twice to the same type gives what folding it once gave.
pub proof fn cast_is_idempotent(l: Literal, t: Type)
    ensures
        cast_literal(l, t) matches Some(v) ==> cast_literal(v, t) == Some(v),
{
}

proof fn lemma_abs_div_mod(a: int, b: int)
    requires
        b != 0,
    ensures
        abs(a) / abs(b) * abs(b) + abs(a) % abs(b) == abs(a),
        0 <= abs(a) % abs(b) < abs(b),
        0 <= abs(a) / abs(b) <= abs(a),
        a == 0 ==> abs(a) / abs(b) == 0 && abs(a) % abs(b) == 0,
{
    let x = abs(a);
    let d = abs(b);
    assert(x / d * d + x % d == x && 0 <= x % d < d) by (nonlinear_arith)
        requires
            d > 0,
            x >= 0,
    ;
    assert(0 <= x / d <= x) by (nonlinear_arith)
        requires
            d > 0,
            x >= 0,
    ;
    assert(x == 0 ==> x / d == 0 && x % d == 0) by (nonlinear_arith)
        requires
            d > 0,
            x >= 0,
    ;
}

/// Signed arithmetic on two integer literals folds to the value of Rust's
/// checked operation, and to `ConstOverflow` at the operator's location
/// exactly when that operation overflows.
pub proof fn signed_arithmetic(
    op: BinOp,
    a: i64,
    b: i64,
    t: Type,
    ta: Type,
    tb: Type,
    location: Location,
    la: Location,
    lb: Location,
)
    requires
        op is Add || op is Sub || op is Mul || op is Div || op is Mod,
        op is Div || op is Mod ==> b != 0,
    ensures
        ({
            let r = folded(
                binary(op, leaf(Literal::Int(a), ta, la), leaf(Literal::Int(b), tb, lb), t, location),
            );
            match native_checked(op, a, b) {
                Some(v) => r matches Ok(f) && f.kind == NodeKind::Literal(Literal::Int(v)),
                None => r matches Err(e) && e.location == location
                    && e.data is ConstOverflow,
            }
        }),
{
    leaf_is_folded(Literal::Int(a), ta, la);
    leaf_is_folded(Literal::Int(b), tb, lb);
    if op is Div || op is Mod {
        lemma_abs_div_mod(a as int, b as int);
    }
}

/// Unsigned arithmetic on two unsigned literals folds to the value of
/// Rust's wrapping operation; division and remainder need a non-zero
/// divisor.
pub proof fn unsigned_arithmetic(
    op: BinOp,
    a: u64,
    b: u64,
    t: Type,
    ta: Type,
    tb: Type,
    location: Location,
    la: Location,
    lb: Location,
)
    requires
        op is Add || op is Sub || op is Mul || op is Div || op is Mod,
        op is Div || op is Mod ==> b != 0,
    ensures
        folded(
            binary(
                op,
                leaf(Literal::UnsignedInt(a), ta, la),
                leaf(Literal::UnsignedInt(b), tb, lb),
                t,
                location,
            ),
        ) matches Ok(f) && f.kind == NodeKind::Literal(Literal::UnsignedInt(native_wrapping(op, a, b))),
{
    leaf_is_folded(Literal::UnsignedInt(a), ta, la);
    leaf_is_folded(Literal::UnsignedInt(b), tb, lb);
    if op is Mul {
        assert(a.wrapping_mul(b) == ((a * b) % 0x1_0000_0000_0000_0000) as u64);
    }
}

/// A comparison of two literals of the same numeric variant folds to
/// `Int 1` when the comparison holds of their values and to `Int 0` when
/// it does not.
pub proof fn comparison_folds(
    op: ComparisonToken,
    a: Literal,
    b: Literal,
    t: Type,
    ta: Type,
    tb: Type,
    location: Location,
    la: Location,
    lb: Location,
)
    requires
        (a is Int && b is Int) || (a is UnsignedInt && b is UnsignedInt) || (a is Char && b is Char),
    ensures
        folded(comparison(op, leaf(a, ta, la), leaf(b, tb, lb), t, location)) matches Ok(f)
            && f.kind == NodeKind::Literal(
            Literal::Int(
                if holds(op, value_of(a), value_of(b)) {
                    1
                } else {
                    0
                },
            ),
        ),
{
    leaf_is_folded(a, ta, la);
    leaf_is_folded(b, tb, lb);
}

/// Quotient times divisor plus remainder gives back the dividend, for
/// signed integers, whenever neither operation overflows.
pub proof fn signed_division_identity(
    a: i64,
    b: i64,
    t: Type,
    ta: Type,
    tb: Type,
    location: Location,
    la: Location,
    lb: Location,
)
    requires
        b != 0,
    ensures
        ({
            let q = folded(
                binary(BinOp::Div, leaf(Literal::Int(a), ta, la), leaf(Literal::Int(b), tb, lb), t, location),
            );
            let r = folded(
                binary(BinOp::Mod, leaf(Literal::Int(a), ta, la), leaf(Literal::Int(b), tb, lb), t, location),
            );
            (q is Ok && r is Ok) ==> {
                &&& literal_of(q->Ok_0) matches Some(Literal::Int(_))
                &&& literal_of(r->Ok_0) matches Some(Literal::Int(_))
                &&& value_of(literal_of(q->Ok_0)->Some_0) * b + value_of(literal_of(r->Ok_0)->Some_0)
                    == a
            }
        }),
{
    leaf_is_folded(Literal::Int(a), ta, la);
    leaf_is_folded(Literal::Int(b), tb, lb);
    lemma_abs_div_mod(a as int, b as int);
    let (x, y) = (a as int, b as int);
    let q = trunc_div(x, y);
    let r = trunc_rem(x, y);
    assert(q * y + r == x) by (nonlinear_arith)
        requires
            abs(x) / abs(y) * abs(y) + abs(x) % abs(y) == abs(x),
            q == (if (x < 0) == (y < 0) { abs(x) / abs(y) } else { -(abs(x) / abs(y)) }),
            r == (if x < 0 { -(abs(x) % abs(y)) } else { abs(x) % abs(y) }),
            abs(x) == (if x < 0 { -x } else { x }),
            abs(y) == (if y < 0 { -y } else { y }),
    ;
    let nq = folded(
        binary(BinOp::Div, leaf(Literal::Int(a), ta, la), leaf(Literal::Int(b), tb, lb), t, location),
    );
    let nr = folded(
        binary(BinOp::Mod, leaf(Literal::Int(a), ta, la), leaf(Literal::Int(b), tb, lb), t, location),
    );
    if nq is Ok && nr is Ok {
        assert(nq->Ok_0.kind == NodeKind::Literal(Literal::Int(q as i64)));
        assert(nr->Ok_0.kind == NodeKind::Literal(Literal::Int(r as i64)));
    }
}

/// Quotient times divisor plus remainder gives back the dividend, for
/// unsigned integers with a non-zero divisor.
pub proof fn unsigned_division_identity(
    a: u64,
    b: u64,
    t: Type,
    ta: Type,
    tb: Type,
    location: Location,
    la: Location,
    lb: Location,
)
    requires
        b != 0,
    ensures
        ({
            let q = folded(
                binary(BinOp::Div, leaf(Literal::UnsignedInt(a), ta, la), leaf(Literal::UnsignedInt(b), tb, lb), t, location),
            );
            let r = folded(
                binary(BinOp::Mod, leaf(Literal::UnsignedInt(a), ta, la), leaf(Literal::UnsignedInt(b), tb, lb), t, location),
            );
            &&& q is Ok && r is Ok
            &&& literal_of(q->Ok_0) matches Some(Literal::UnsignedInt(_))
            &&& literal_of(r->Ok_0) matches Some(Literal::UnsignedInt(_))
            &&& value_of(literal_of(q->Ok_0)->Some_0) * b + value_of(literal_of(r->Ok_0)->Some_0) == a
        }),
{
    leaf_is_folded(Literal::UnsignedInt(a), ta, la);
    leaf_is_folded(Literal::UnsignedInt(b), tb, lb);
    assert((a / b) * b + a % b == a) by (nonlinear_arith)
        requires
            b != 0,
    ;
}

/// Every comma has the type of its right operand, and every conditional
/// the type of its two branches, as type checking assigns them. Folding
/// may put such an operand in the place of its parent.
pub open spec fn types_agree(n: Node) -> bool
    decreases n,
{
    match n.kind {
        NodeKind::Literal(_) | NodeKind::Id(_) | NodeKind::Sizeof(_) => true,
        NodeKind::Negate(a) => types_agree(*a),
        NodeKind::LogicalNot(a) => types_agree(*a),
        NodeKind::BitwiseNot(a) => types_agree(*a),
        NodeKind::Noop(a) => types_agree(*a),
        NodeKind::Deref(a) => types_agree(*a),
        NodeKind::Cast(a) => types_agree(*a),
        NodeKind::StaticRef(a) => types_agree(*a),
        NodeKind::Member(a, _) => types_agree(*a),
        NodeKind::PostIncrement(a, _) => types_agree(*a),
        NodeKind::Add(a, b) => types_agree(*a) && types_agree(*b),
        NodeKind::Sub(a, b) => types_agree(*a) && types_agree(*b),
        NodeKind::Mul(a, b) => types_agree(*a) && types_agree(*b),
        NodeKind::Div(a, b) => types_agree(*a) && types_agree(*b),
        NodeKind::Mod(a, b) => types_agree(*a) && types_agree(*b),
        NodeKind::Xor(a, b) => types_agree(*a) && types_agree(*b),
        NodeKind::BitwiseAnd(a, b) => types_agree(*a) && types_agree(*b),
        NodeKind::BitwiseOr(a, b) => types_agree(*a) && types_agree(*b),
        NodeKind::LogicalAnd(a, b) => types_agree(*a) && types_agree(*b),
        NodeKind::LogicalOr(a, b) => types_agree(*a) && types_agree(*b),
        NodeKind::Shift(a, b, _) => types_agree(*a) && types_agree(*b),
        NodeKind::Compare(a, b, _) => types_agree(*a) && types_agree(*b),
        NodeKind::Assign(a, b, _) => types_agree(*a) && types_agree(*b),
        NodeKind::Comma(a, b) => b.ctype == n.ctype && types_agree(*a) && types_agree(*b),
        NodeKind::Ternary(c, a, b) => a.ctype == n.ctype && b.ctype == n.ctype && types_agree(*c)
            && types_agree(*a) && types_agree(*b),
        NodeKind::FuncCall(f, args) => types_agree(*f) && forall|i: int|
            0 <= i < args.len() ==> types_agree(#[trigger] args[i]),
    }
}

/// A node of shape `k` folds the same way wherever it stands: the location
/// only marks the errors.
pub proof fn fold_ignores_location(k: NodeKind, t: Type, l1: Location, l2: Location)
    requires
        folded_kind(k, t, l1) is Ok,
    ensures
        folded_kind(k, t, l2) == folded_kind(k, t, l1),
{
}

proof fn lemma_folded_all_parts(s: Seq<Node>, k: nat)
    requires
        k <= s.len(),
        folded_all(s, k) is Ok,
    ensures
        folded_all(s, k)->Ok_0.len() == k,
        forall|i: int| 0 <= i < k ==> folded(#[trigger] s[i]) == Ok::<Node, CompileError>(folded_all(s, k)->Ok_0[i]),
    decreases k,
{
    if k > 0 {
        lemma_folded_all_parts(s, (k - 1) as nat);
    }
}

proof fn lemma_folded_all_fixed(s: Seq<Node>, k: nat)
    requires
        k <= s.len(),
        forall|i: int| 0 <= i < k ==> folded(#[trigger] s[i]) == Ok::<Node, CompileError>(s[i]),
    ensures
        folded_all(s, k) == Ok::<Seq<Node>, CompileError>(s.subrange(0, k as int)),
    decreases k,
{
    if k > 0 {
        lemma_folded_all_fixed(s, (k - 1) as nat);
        assert(folded(s[k - 1]) == Ok::<Node, CompileError>(s[k - 1]));
        assert(s.subrange(0, k - 1).push(s[k - 1]) =~= s.subrange(0, k as int));
    } else {
        assert(s.subrange(0, 0) =~= Seq::<Node>::empty());
    }
}

// `fold_is_idempotent`, one shape at a time.

proof fn idempotent_negate(n: Node)
    requires
        types_agree(n),
        n.kind is Negate,
    ensures
        folded(n) matches Ok(f) ==> folded(f) == Ok::<Node, CompileError>(f),
    decreases n, 0nat,
{
    if let NodeKind::Negate(a) = n.kind {
        fold_is_idempotent(*a);
    }
}

proof fn idempotent_logical_not(n: Node)
    requires
        types_agree(n),
        n.kind is LogicalNot,
    ensures
        folded(n) matches Ok(f) ==> folded(f) == Ok::<Node, CompileError>(f),
    decreases n, 0nat,
{
    if let NodeKind::LogicalNot(a) = n.kind {
        fold_is_idempotent(*a);
    }
}

proof fn idempotent_bitwise_not(n: Node)
    requires
        types_agree(n),
        n.kind is BitwiseNot,
    ensures
        folded(n) matches Ok(f) ==> folded(f) == Ok::<Node, CompileError>(f),
    decreases n, 0nat,
{
    if let NodeKind::BitwiseNot(a) = n.kind {
        fold_is_idempotent(*a);
    }
}

proof fn idempotent_noop(n: Node)
    requires
        types_agree(n),
        n.kind is Noop,
    ensures
        folded(n) matches Ok(f) ==> folded(f) == Ok::<Node, CompileError>(f),
    decreases n, 0nat,
{
    if let NodeKind::Noop(a) = n.kind {
        fold_is_idempotent(*a);
    }
}

proof fn idempotent_deref(n: Node)
    requires
        types_agree(n),
        n.kind is Deref,
    ensures
        folded(n) matches Ok(f) ==> folded(f) == Ok::<Node, CompileError>(f),
    decreases n, 0nat,
{
    if let NodeKind::Deref(a) = n.kind {
        fold_is_idempotent(*a);
    }
}

proof fn idempotent_cast(n: Node)
    requires
        types_agree(n),
        n.kind is Cast,
    ensures
        folded(n) matches Ok(f) ==> folded(f) == Ok::<Node, CompileError>(f),
    decreases n, 0nat,
{
    if let NodeKind::Cast(a) = n.kind {
        fold_is_idempotent(*a);
    }
}

proof fn idempotent_static_ref(n: Node)
    requires
        types_agree(n),
        n.kind is StaticRef,
    ensures
        folded(n) matches Ok(f) ==> folded(f) == Ok::<Node, CompileError>(f),
    decreases n, 0nat,
{
    if let NodeKind::StaticRef(a) = n.kind {
        fold_is_idempotent(*a);
    }
}

proof fn idempotent_member(n: Node)
    requires
        types_agree(n),
        n.kind is Member,
    ensures
        folded(n) matches Ok(f) ==> folded(f) == Ok::<Node, CompileError>(f),
    decreases n, 0nat,
{
    if let NodeKind::Member(a, _) = n.kind {
        fold_is_idempotent(*a);
    }
}

proof fn idempotent_post_increment(n: Node)
    requires
        types_agree(n),
        n.kind is PostIncrement,
    ensures
        folded(n) matches Ok(f) ==> folded(f) == Ok::<Node, CompileError>(f),
    decreases n, 0nat,
{
    if let NodeKind::PostIncrement(a, _) = n.kind {
        fold_is_idempotent(*a);
    }
}

proof fn idempotent_add(n: Node)
    requires
        types_agree(n),
        n.kind is Add,
    ensures
        folded(n) matches Ok(f) ==> folded(f) == Ok::<Node, CompileError>(f),
    decreases n, 0nat,
{
    if let NodeKind::Add(a, b) = n.kind {
        fold_is_idempotent(*a);
        fold_is_idempotent(*b);
    }
}

proof fn idempotent_sub(n: Node)
    requires
        types_agree(n),
        n.kind is Sub,
    ensures
        folded(n) matches Ok(f) ==> folded(f) == Ok::<Node, CompileError>(f),
    decreases n, 0nat,
{
    if let NodeKind::Sub(a, b) = n.kind {
        fold_is_idempotent(*a);
        fold_is_idempotent(*b);
    }
}

proof fn idempotent_mul(n: Node)
    requires
        types_agree(n),
        n.kind is Mul,
    ensures
        folded(n) matches Ok(f) ==> folded(f) == Ok::<Node, CompileError>(f),
    decreases n, 0nat,
{
    if let NodeKind::Mul(a, b) = n.kind {
        fold_is_idempotent(*a);
        fold_is_idempotent(*b);
    }
}

proof fn idempotent_div(n: Node)
    requires
        types_agree(n),
        n.kind is Div,
    ensures
        folded(n) matches Ok(f) ==> folded(f) == Ok::<Node, CompileError>(f),
    decreases n, 0nat,
{
    if let NodeKind::Div(a, b) = n.kind {
        fold_is_idempotent(*a);
        fold_is_idempotent(*b);
    }
}

proof fn idempotent_mod(n: Node)
    requires
        types_agree(n),
        n.kind is Mod,
    ensures
        folded(n) matches Ok(f) ==> folded(f) == Ok::<Node, CompileError>(f),
    decreases n, 0nat,
{
    if let NodeKind::Mod(a, b) = n.kind {
        fold_is_idempotent(*a);
        fold_is_idempotent(*b);
    }
}

proof fn idempotent_xor(n: Node)
    requires
        types_agree(n),
        n.kind is Xor,
    ensures
        folded(n) matches Ok(f) ==> folded(f) == Ok::<Node, CompileError>(f),
    decreases n, 0nat,
{
    if let NodeKind::Xor(a, b) = n.kind {
        fold_is_idempotent(*a);
        fold_is_idempotent(*b);
    }
}

proof fn idempotent_bitwise_and(n: Node)
    requires
        types_agree(n),
        n.kind is BitwiseAnd,
    ensures
        folded(n) matches Ok(f) ==> folded(f) == Ok::<Node, CompileError>(f),
    decreases n, 0nat,
{
    if let NodeKind::BitwiseAnd(a, b) = n.kind {
        fold_is_idempotent(*a);
        fold_is_idempotent(*b);
    }
}

proof fn idempotent_bitwise_or(n: Node)
    requires
        types_agree(n),
        n.kind is BitwiseOr,
    ensures
        folded(n) matches Ok(f) ==> folded(f) == Ok::<Node, CompileError>(f),
    decreases n, 0nat,
{
    if let NodeKind::BitwiseOr(a, b) = n.kind {
        fold_is_idempotent(*a);
        fold_is_idempotent(*b);
    }
}

proof fn idempotent_logical_and(n: Node)
    requires
        types_agree(n),
        n.kind is LogicalAnd,
    ensures
        folded(n) matches Ok(f) ==> folded(f) == Ok::<Node, CompileError>(f),
    decreases n, 0nat,
{
    if let NodeKind::LogicalAnd(a, b) = n.kind {
        fold_is_idempotent(*a);
        fold_is_idempotent(*b);
    }
}

proof fn idempotent_logical_or(n: Node)
    requires
        types_agree(n),
        n.kind is LogicalOr,
    ensures
        folded(n) matches Ok(f) ==> folded(f) == Ok::<Node, CompileError>(f),
    decreases n, 0nat,
{
    if let NodeKind::LogicalOr(a, b) = n.kind {
        fold_is_idempotent(*a);
        fold_is_idempotent(*b);
    }
}

/// `fold_is_idempotent` for shifts, comparisons and assignments.
proof fn idempotent_other(n: Node)
    requires
        types_agree(n),
        n.kind is Shift || n.kind is Compare || n.kind is Assign,
    ensures
        folded(n) matches Ok(f) ==> folded(f) == Ok::<Node, CompileError>(f),
    decreases n, 0nat,
{
    match n.kind {
        NodeKind::Shift(a, b, _) => {
            fold_is_idempotent(*a);
            fold_is_idempotent(*b);
        },
        NodeKind::Compare(a, b, _) => {
            fold_is_idempotent(*a);
            fold_is_idempotent(*b);
        },
        NodeKind::Assign(a, b, _) => {
            fold_is_idempotent(*a);
            fold_is_idempotent(*b);
        },
        _ => {},
    }
}

/// `fold_is_idempotent` for a comma, which may take the place of its right side.
proof fn idempotent_comma(n: Node)
    requires
        types_agree(n),
        n.kind is Comma,
    ensures
        folded(n) matches Ok(f) ==> folded(f) == Ok::<Node, CompileError>(f),
    decreases n, 0nat,
{
    match n.kind {
        NodeKind::Comma(a, b) => {
            fold_is_idempotent(*a);
            fold_is_idempotent(*b);
            if folded(n) is Ok {
                let b2 = folded(*b)->Ok_0;
                fold_ignores_location(b2.kind, b2.ctype, b2.location, n.location);
            }
        },
        _ => {},
    }
}

/// `fold_is_idempotent` for a conditional, which may take the place of a branch.
proof fn idempotent_ternary(n: Node)
    requires
        types_agree(n),
        n.kind is Ternary,
    ensures
        folded(n) matches Ok(f) ==> folded(f) == Ok::<Node, CompileError>(f),
    decreases n, 0nat,
{
    match n.kind {
        NodeKind::Ternary(c, a, b) => {
            fold_is_idempotent(*c);
            fold_is_idempotent(*a);
            fold_is_idempotent(*b);
            if folded(n) is Ok {
                let a2 = folded(*a)->Ok_0;
                let b2 = folded(*b)->Ok_0;
                fold_ignores_location(a2.kind, a2.ctype, a2.location, n.location);
                fold_ignores_location(b2.kind, b2.ctype, b2.location, n.location);
            }
        },
        _ => {},
    }
}

/// `fold_is_idempotent` for a call.
proof fn idempotent_call(n: Node)
    requires
        types_agree(n),
        n.kind is FuncCall,
    ensures
        folded(n) matches Ok(f) ==> folded(f) == Ok::<Node, CompileError>(f),
    decreases n, 0nat,
{
    match n.kind {
        NodeKind::FuncCall(f, args) => {
            fold_is_idempotent(*f);
            assert forall|i: int| 0 <= i < args.len() implies (folded(#[trigger] args[i]) matches Ok(x)
                ==> folded(x) == Ok::<Node, CompileError>(x)) by {
                fold_is_idempotent(args[i]);
            }
            if folded(n) is Ok {
                lemma_folded_all_parts(args, args.len());
                let args2 = folded_all(args, args.len())->Ok_0;
                assert forall|i: int| 0 <= i < args2.len() implies folded(#[trigger] args2[i]) == Ok::<
                    Node,
                    CompileError,
                >(args2[i]) by {
                    assert(folded(args[i]) == Ok::<Node, CompileError>(args2[i]));
                }
                lemma_folded_all_fixed(args2, args2.len());
                assert(args2.subrange(0, args2.len() as int) =~= args2);
            }
        },
        _ => {},
    }
}

/// Folding a folded tree changes nothing, for trees whose types agree.
pub proof fn fold_is_idempotent(n: Node)
    requires
        types_agree(n),
    ensures
        folded(n) matches Ok(f) ==> folded(f) == Ok::<Node, CompileError>(f),
    decreases n, 1nat,
{
    match n.kind {
        NodeKind::Literal(_) | NodeKind::Id(_) | NodeKind::Sizeof(_) => {},
        NodeKind::Comma(..) => idempotent_comma(n),
        NodeKind::Ternary(..) => idempotent_ternary(n),
        NodeKind::FuncCall(..) => idempotent_call(n),
        NodeKind::Shift(..) | NodeKind::Compare(..) | NodeKind::Assign(..) => idempotent_other(n),
        NodeKind::Negate(_) => idempotent_negate(n),
        NodeKind::LogicalNot(_) => idempotent_logical_not(n),
        NodeKind::BitwiseNot(_) => idempotent_bitwise_not(n),
        NodeKind::Noop(_) => idempotent_noop(n),
        NodeKind::Deref(_) => idempotent_deref(n),
        NodeKind::Cast(_) => idempotent_cast(n),
        NodeKind::StaticRef(_) => idempotent_static_ref(n),
        NodeKind::Member(..) => idempotent_member(n),
        NodeKind::PostIncrement(..) => idempotent_post_increment(n),
        NodeKind::Add(..) => idempotent_add(n),
        NodeKind::Sub(..) => idempotent_sub(n),
        NodeKind::Mul(..) => idempotent_mul(n),
        NodeKind::Div(..) => idempotent_div(n),
        NodeKind::Mod(..) => idempotent_mod(n),
        NodeKind::Xor(..) => idempotent_xor(n),
        NodeKind::BitwiseAnd(..) => idempotent_bitwise_and(n),
        NodeKind::BitwiseOr(..) => idempotent_bitwise_or(n),
        NodeKind::LogicalAnd(..) => idempotent_logical_and(n),
        NodeKind::LogicalOr(..) => idempotent_logical_or(n),
    }
}

} // verus!
