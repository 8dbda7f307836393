use rcc::{
    ArrayType, AssignmentToken, ComparisonToken, Expr, ExprType, InternedStr, Keyword, Literal, Location,
    SemanticError, SizeofError, Span, Token, Type,
};

fn here() -> Location {
    Location { span: Span { start: 0, end: 1 }, filename: InternedStr(0) }
}

fn at(start: u32) -> Location {
    Location { span: Span { start, end: start + 1 }, filename: InternedStr(0) }
}

fn node(expr: ExprType, ctype: Type) -> Expr {
    Expr { expr, ctype, constexpr: false, lval: false, location: here() }
}

fn long(i: i64) -> Expr {
    node(ExprType::Literal(Literal::Int(i)), Type::Long(true))
}

fn ulong(u: u64) -> Expr {
    node(ExprType::Literal(Literal::UnsignedInt(u)), Type::Long(false))
}

fn chr(c: u8) -> Expr {
    node(ExprType::Literal(Literal::Char(c)), Type::Char(false))
}

fn var(id: u32, ctype: Type) -> Expr {
    node(ExprType::Id(InternedStr(id)), ctype)
}

fn bin(f: fn(Box<Expr>, Box<Expr>) -> ExprType, a: Expr, b: Expr) -> Expr {
    node(f(Box::new(a), Box::new(b)), Type::Long(true))
}

fn ubin(f: fn(Box<Expr>, Box<Expr>) -> ExprType, a: Expr, b: Expr) -> Expr {
    node(f(Box::new(a), Box::new(b)), Type::Long(false))
}

fn fold_ok(e: Expr) -> Expr {
    match e.const_fold() {
        Ok(f) => f,
        Err(err) => panic!("unexpected error {:?}", err.data),
    }
}

fn fold_err(e: Expr) -> SemanticError {
    match e.const_fold() {
        Ok(f) => panic!("expected an error, got {:?}", f.expr),
        Err(err) => err.data,
    }
}

fn int_value(e: &Expr) -> i64 {
    match e.expr {
        ExprType::Literal(Literal::Int(i)) => i,
        _ => panic!("not an Int literal: {:?}", e.expr),
    }
}

fn uint_value(e: &Expr) -> u64 {
    match e.expr {
        ExprType::Literal(Literal::UnsignedInt(u)) => u,
        _ => panic!("not an UnsignedInt literal: {:?}", e.expr),
    }
}

#[test]
fn add_folds() {
    let f = fold_ok(bin(ExprType::Add, long(3), long(4)));
    assert_eq!(int_value(&f), 7);
    assert!(f.constexpr);
}

#[test]
fn sub_folds() {
    assert_eq!(int_value(&fold_ok(bin(ExprType::Sub, long(9), long(3)))), 6);
}

#[test]
fn mul_folds() {
    assert_eq!(int_value(&fold_ok(bin(ExprType::Mul, long(3), long(5)))), 15);
}

#[test]
fn div_folds_toward_zero() {
    assert_eq!(int_value(&fold_ok(bin(ExprType::Div, long(6), long(3)))), 2);
    assert_eq!(int_value(&fold_ok(bin(ExprType::Div, long(6), long(-3)))), -2);
    assert_eq!(int_value(&fold_ok(bin(ExprType::Div, long(-7), long(2)))), -3);
}

#[test]
fn mod_takes_sign_of_dividend() {
    assert_eq!(int_value(&fold_ok(bin(ExprType::Mod, long(5), long(3)))), 2);
    assert_eq!(int_value(&fold_ok(bin(ExprType::Mod, long(-7), long(2)))), -1);
    assert_eq!(int_value(&fold_ok(bin(ExprType::Mod, long(7), long(-2)))), 1);
}

#[test]
fn divide_by_zero() {
    assert!(matches!(fold_err(bin(ExprType::Div, long(1), long(0))), SemanticError::DivideByZero));
    let zero = bin(ExprType::Sub, long(2), long(2));
    assert!(matches!(fold_err(bin(ExprType::Div, long(1), zero)), SemanticError::DivideByZero));
    assert!(matches!(fold_err(bin(ExprType::Mod, long(1), long(0))), SemanticError::DivideByZero));
    assert!(matches!(fold_err(bin(ExprType::Mod, chr(1), chr(0))), SemanticError::DivideByZero));
    assert!(matches!(fold_err(ubin(ExprType::Div, ulong(1), ulong(0))), SemanticError::DivideByZero));
}

#[test]
fn divide_by_zero_is_reported_at_the_operator() {
    let mut e = bin(ExprType::Div, long(1), long(0));
    e.location = at(7);
    match e.const_fold() {
        Err(err) => assert_eq!(err.location, at(7)),
        Ok(_) => panic!("expected an error"),
    }
}

#[test]
fn add_overflow_is_positive() {
    let e = bin(ExprType::Add, long(0x7fffffffffffffff), long(1));
    assert!(matches!(fold_err(e), SemanticError::ConstOverflow { is_positive: true }));
}

#[test]
fn add_overflow_is_negative() {
    let e = bin(ExprType::Add, long(-0x7fffffffffffffff), long(-2));
    assert!(matches!(fold_err(e), SemanticError::ConstOverflow { is_positive: false }));
}

#[test]
fn min_div_minus_one_overflows() {
    let min = bin(ExprType::Sub, long(-0x7fffffffffffffff), long(1));
    let e = bin(ExprType::Div, min, long(-1));
    assert!(matches!(fold_err(e), SemanticError::ConstOverflow { is_positive: true }));
}

#[test]
fn min_mod_minus_one_overflows() {
    let min = bin(ExprType::Sub, long(-0x7fffffffffffffff), long(1));
    let e = bin(ExprType::Mod, min, long(-1));
    assert!(matches!(fold_err(e), SemanticError::ConstOverflow { is_positive: false }));
}

#[test]
fn mul_and_sub_overflow() {
    let e = bin(ExprType::Mul, long(0x4000000000000000), long(2));
    assert!(matches!(fold_err(e), SemanticError::ConstOverflow { is_positive: true }));
    let e = bin(ExprType::Mul, long(0x4000000000000000), long(-4));
    assert!(matches!(fold_err(e), SemanticError::ConstOverflow { is_positive: false }));
    let e = bin(ExprType::Sub, long(0), long(i64::MIN));
    assert!(matches!(fold_err(e), SemanticError::ConstOverflow { is_positive: true }));
}

#[test]
fn unsigned_arithmetic_wraps() {
    assert_eq!(uint_value(&fold_ok(ubin(ExprType::Add, ulong(u64::MAX), ulong(2)))), 1);
    assert_eq!(uint_value(&fold_ok(ubin(ExprType::Sub, ulong(1), ulong(2)))), u64::MAX);
    assert_eq!(uint_value(&fold_ok(ubin(ExprType::Mul, ulong(1 << 63), ulong(2)))), 0);
    assert_eq!(uint_value(&fold_ok(ubin(ExprType::Div, ulong(7), ulong(2)))), 3);
    assert_eq!(uint_value(&fold_ok(ubin(ExprType::Mod, ulong(7), ulong(2)))), 1);
}

#[test]
fn char_arithmetic_wraps() {
    let f = fold_ok(bin(ExprType::Add, chr(250), chr(10)));
    assert!(matches!(f.expr, ExprType::Literal(Literal::Char(4))));
    let f = fold_ok(bin(ExprType::Sub, chr(1), chr(2)));
    assert!(matches!(f.expr, ExprType::Literal(Literal::Char(255))));
}

#[test]
fn bitwise_operators() {
    assert_eq!(int_value(&fold_ok(bin(ExprType::Xor, long(6), long(3)))), 5);
    assert_eq!(int_value(&fold_ok(bin(ExprType::BitwiseAnd, long(6), long(3)))), 2);
    assert_eq!(int_value(&fold_ok(bin(ExprType::BitwiseOr, long(6), long(3)))), 7);
    let f = fold_ok(node(ExprType::BitwiseNot(Box::new(long(5))), Type::Long(true)));
    assert_eq!(int_value(&f), -6);
    let f = fold_ok(node(ExprType::BitwiseNot(Box::new(ulong(0))), Type::Long(false)));
    assert_eq!(uint_value(&f), u64::MAX);
}

#[test]
fn mixed_variants_are_rebuilt() {
    let f = fold_ok(bin(ExprType::Add, long(1), ulong(2)));
    assert!(matches!(f.expr, ExprType::Add(_, _)));
    assert!(!f.constexpr);
}

fn shift(left: bool, a: Expr, b: Expr, ctype: Type) -> Expr {
    node(ExprType::Shift(Box::new(a), Box::new(b), left), ctype)
}

#[test]
fn shift_left_too_far() {
    let e = shift(true, long(1), long(64), Type::Long(true));
    assert!(matches!(fold_err(e), SemanticError::TooManyShiftBits { max_shift: 64, shift: 64 }));
    let int1 = node(ExprType::Literal(Literal::Int(1)), Type::Int(true));
    let e = shift(true, int1, long(32), Type::Int(true));
    assert!(matches!(fold_err(e), SemanticError::TooManyShiftBits { max_shift: 32, shift: 32 }));
}

#[test]
fn shift_left_folds() {
    assert_eq!(int_value(&fold_ok(shift(true, long(1), long(4), Type::Long(true)))), 16);
    assert_eq!(uint_value(&fold_ok(shift(true, ulong(3), long(63), Type::Long(false)))), 1 << 63);
    // an unsigned left operand is not checked against its width
    assert_eq!(uint_value(&fold_ok(shift(true, ulong(3), long(65), Type::Long(false)))), 6);
}

#[test]
fn shift_left_overflow() {
    // a signed literal under an unsigned type escapes the width check
    let e = node(ExprType::Literal(Literal::Int(1)), Type::Long(false));
    let e = shift(true, e, long(64), Type::Long(false));
    assert!(matches!(fold_err(e), SemanticError::ShiftOverflow));
}

#[test]
fn negative_shift() {
    let e = shift(true, long(1), long(-1), Type::Long(true));
    assert!(matches!(fold_err(e), SemanticError::NegativeShift));
    let e = shift(false, long(1), long(-1), Type::Long(true));
    assert!(matches!(fold_err(e), SemanticError::NegativeShift));
}

#[test]
fn shift_right_folds() {
    assert_eq!(int_value(&fold_ok(shift(false, long(-16), long(2), Type::Long(true)))), -4);
    assert_eq!(uint_value(&fold_ok(shift(false, ulong(16), chr(2), Type::Long(false)))), 4);
    assert_eq!(int_value(&fold_ok(shift(false, long(-1), long(64), Type::Long(true)))), 0);
    assert_eq!(uint_value(&fold_ok(shift(false, ulong(5), long(100), Type::Long(false)))), 0);
}

#[test]
fn shift_of_unknown_is_rebuilt() {
    let x = var(1, Type::Long(true));
    let f = fold_ok(shift(true, x, bin(ExprType::Add, long(1), long(1)), Type::Long(true)));
    match f.expr {
        ExprType::Shift(_, r, left) => {
            assert!(left);
            assert_eq!(int_value(&r), 2);
        },
        other => panic!("expected a shift, got {:?}", other),
    }
    assert!(!f.constexpr);
}

#[test]
fn deref_of_null() {
    let e = node(ExprType::Deref(Box::new(long(0))), Type::Int(true));
    assert!(matches!(fold_err(e), SemanticError::NullDereference));
    let e = node(ExprType::Deref(Box::new(long(8))), Type::Int(true));
    assert!(matches!(fold_ok(e).expr, ExprType::Deref(_)));
}

fn enum_type() -> Type {
    Type::Enum(Some(InternedStr(9)), vec![(InternedStr(1), 5), (InternedStr(2), 7)])
}

#[test]
fn enum_member_folds() {
    assert_eq!(int_value(&fold_ok(var(1, enum_type()))), 5);
    assert_eq!(int_value(&fold_ok(var(2, enum_type()))), 7);
    assert!(matches!(fold_ok(var(3, enum_type())).expr, ExprType::Id(InternedStr(3))));
    assert!(matches!(fold_ok(var(1, Type::Int(true))).expr, ExprType::Id(_)));
}

#[test]
fn sizeof_folds() {
    let f = fold_ok(node(ExprType::Sizeof(Type::Int(true)), Type::Long(false)));
    assert_eq!(uint_value(&f), 4);
    let arr = Type::Array(Box::new(Type::Long(true)), ArrayType::Fixed(3));
    assert_eq!(uint_value(&fold_ok(node(ExprType::Sizeof(arr), Type::Long(false)))), 24);
}

#[test]
fn sizeof_errors() {
    let e = node(ExprType::Sizeof(Type::Void), Type::Long(false));
    assert!(matches!(fold_err(e), SemanticError::Sizeof(SizeofError::Void)));
    let arr = Type::Array(Box::new(Type::Int(true)), ArrayType::Unbounded);
    let e = node(ExprType::Sizeof(arr), Type::Long(false));
    assert!(matches!(fold_err(e), SemanticError::Sizeof(SizeofError::IncompleteArray)));
    let arr = Type::Array(Box::new(Type::Long(true)), ArrayType::Fixed(u64::MAX));
    let e = node(ExprType::Sizeof(arr), Type::Long(false));
    assert!(matches!(fold_err(e), SemanticError::Sizeof(SizeofError::TooLarge)));
}

fn compare(op: ComparisonToken, a: Expr, b: Expr) -> Expr {
    node(ExprType::Compare(Box::new(a), Box::new(b), op), Type::Int(true))
}

#[test]
fn comparisons_fold() {
    assert_eq!(int_value(&fold_ok(compare(ComparisonToken::Less, long(-1), long(2)))), 1);
    assert_eq!(int_value(&fold_ok(compare(ComparisonToken::Greater, long(-1), long(2)))), 0);
    assert_eq!(int_value(&fold_ok(compare(ComparisonToken::LessEqual, ulong(2), ulong(2)))), 1);
    assert_eq!(int_value(&fold_ok(compare(ComparisonToken::GreaterEqual, chr(1), chr(2)))), 0);
    assert_eq!(int_value(&fold_ok(compare(ComparisonToken::EqualEqual, long(3), long(3)))), 1);
    assert_eq!(int_value(&fold_ok(compare(ComparisonToken::NotEqual, long(3), long(3)))), 0);
    let mixed = fold_ok(compare(ComparisonToken::Less, long(1), ulong(2)));
    assert!(matches!(mixed.expr, ExprType::Compare(_, _, ComparisonToken::Less)));
}

#[test]
fn logical_operators() {
    let x = || var(1, Type::Int(true));
    assert_eq!(int_value(&fold_ok(bin(ExprType::LogicalAnd, long(1), long(1)))), 1);
    assert_eq!(int_value(&fold_ok(bin(ExprType::LogicalAnd, long(2), long(0)))), 0);
    // a known side does not decide while the other side is not a literal
    assert!(matches!(fold_ok(bin(ExprType::LogicalAnd, x(), long(0))).expr, ExprType::LogicalAnd(..)));
    assert!(matches!(fold_ok(bin(ExprType::LogicalAnd, x(), long(1))).expr, ExprType::LogicalAnd(..)));
    assert_eq!(int_value(&fold_ok(bin(ExprType::LogicalOr, long(0), long(0)))), 0);
    assert_eq!(int_value(&fold_ok(bin(ExprType::LogicalOr, long(1), long(5)))), 1);
    assert!(matches!(fold_ok(bin(ExprType::LogicalOr, long(1), x())).expr, ExprType::LogicalOr(..)));
    assert!(matches!(fold_ok(bin(ExprType::LogicalOr, long(2), long(3))).expr, ExprType::LogicalOr(..)));
    let f = fold_ok(node(ExprType::LogicalNot(Box::new(long(0))), Type::Int(true)));
    assert_eq!(int_value(&f), 1);
    let f = fold_ok(node(ExprType::LogicalNot(Box::new(ulong(3))), Type::Int(true)));
    assert_eq!(int_value(&f), 0);
    let s = node(ExprType::Literal(Literal::Str(InternedStr(4))), Type::Int(true));
    assert_eq!(int_value(&fold_ok(node(ExprType::LogicalNot(Box::new(s)), Type::Int(true)))), 0);
}

#[test]
fn negation() {
    assert_eq!(int_value(&fold_ok(node(ExprType::Negate(Box::new(long(5))), Type::Long(true)))), -5);
    let f = fold_ok(node(ExprType::Negate(Box::new(long(i64::MIN))), Type::Long(true)));
    assert_eq!(int_value(&f), i64::MIN);
    let f = fold_ok(node(ExprType::Negate(Box::new(ulong(1))), Type::Long(false)));
    assert_eq!(uint_value(&f), u64::MAX);
    let f = fold_ok(node(ExprType::Negate(Box::new(chr(1))), Type::Char(false)));
    assert!(matches!(f.expr, ExprType::Literal(Literal::Char(255))));
}

fn cast_to(e: Expr, ctype: Type) -> Expr {
    node(ExprType::Cast(Box::new(e)), ctype)
}

#[test]
fn casts_fold() {
    assert_eq!(int_value(&fold_ok(cast_to(long(7), Type::Bool))), 1);
    assert_eq!(int_value(&fold_ok(cast_to(ulong(0), Type::Bool))), 0);
    assert_eq!(uint_value(&fold_ok(cast_to(long(-1), Type::Long(false)))), u64::MAX);
    assert_eq!(int_value(&fold_ok(cast_to(ulong(u64::MAX), Type::Long(true)))), -1);
    assert_eq!(int_value(&fold_ok(cast_to(chr(200), Type::Int(true)))), 200);
    let ptr = || Type::Pointer(Box::new(Type::Int(true)));
    assert_eq!(uint_value(&fold_ok(cast_to(long(16), ptr()))), 16);
    assert!(matches!(fold_ok(cast_to(long(-16), ptr())).expr, ExprType::Cast(_)));
    assert!(matches!(fold_ok(cast_to(long(1), Type::Double)).expr, ExprType::Cast(_)));
}

#[test]
fn cast_twice_is_cast_once() {
    let once = fold_ok(cast_to(long(-3), Type::Long(false)));
    let twice = fold_ok(cast_to(cast_to(long(-3), Type::Long(false)), Type::Long(false)));
    assert_eq!(uint_value(&once), uint_value(&twice));
}

#[test]
fn comma_and_ternary() {
    let f = fold_ok(bin(ExprType::Comma, long(1), long(2)));
    assert_eq!(int_value(&f), 2);
    let f = fold_ok(bin(ExprType::Comma, var(1, Type::Int(true)), long(2)));
    assert!(matches!(f.expr, ExprType::Comma(..)));
    let t = |c: Expr| {
        node(ExprType::Ternary(Box::new(c), Box::new(long(10)), Box::new(long(20))), Type::Long(true))
    };
    assert_eq!(int_value(&fold_ok(t(long(0)))), 20);
    assert_eq!(int_value(&fold_ok(t(long(-3)))), 10);
    assert!(matches!(fold_ok(t(var(1, Type::Int(true)))).expr, ExprType::Ternary(..)));
}

#[test]
fn calls_fold_their_arguments() {
    let f = var(1, Type::Int(true));
    let args = vec![bin(ExprType::Add, long(1), long(2)), var(2, Type::Int(true)), long(5)];
    let folded = fold_ok(node(ExprType::FuncCall(Box::new(f), args), Type::Int(true)));
    assert!(!folded.constexpr);
    match folded.expr {
        ExprType::FuncCall(_, args) => {
            assert_eq!(args.len(), 3);
            assert_eq!(int_value(&args[0]), 3);
            assert!(matches!(args[1].expr, ExprType::Id(_)));
            assert!(args[0].constexpr);
        },
        other => panic!("expected a call, got {:?}", other),
    }
}

#[test]
fn calls_stop_at_the_first_error() {
    let f = var(1, Type::Int(true));
    let args = vec![long(1), bin(ExprType::Div, long(1), long(0)), bin(ExprType::Add, long(i64::MAX), long(1))];
    let e = node(ExprType::FuncCall(Box::new(f), args), Type::Int(true));
    assert!(matches!(fold_err(e), SemanticError::DivideByZero));
}

#[test]
fn passthrough_nodes_fold_children() {
    let sum = || bin(ExprType::Add, long(1), long(2));
    let f = fold_ok(node(ExprType::Noop(Box::new(sum())), Type::Long(true)));
    match f.expr {
        ExprType::Noop(inner) => assert_eq!(int_value(&inner), 3),
        other => panic!("expected a noop, got {:?}", other),
    }
    let f = fold_ok(node(ExprType::Assign(Box::new(var(1, Type::Long(true))), Box::new(sum()), AssignmentToken::Equal), Type::Long(true)));
    assert!(matches!(f.expr, ExprType::Assign(_, _, AssignmentToken::Equal)));
    let f = fold_ok(node(ExprType::PostIncrement(Box::new(var(1, Type::Long(true))), true), Type::Long(true)));
    assert!(matches!(f.expr, ExprType::PostIncrement(_, true)));
    let f = fold_ok(node(ExprType::Member(Box::new(var(1, Type::Long(true))), InternedStr(3)), Type::Long(true)));
    assert!(matches!(f.expr, ExprType::Member(..)));
    let f = fold_ok(node(ExprType::StaticRef(Box::new(sum())), Type::Long(true)));
    assert!(matches!(f.expr, ExprType::StaticRef(_)));
}

#[test]
fn fold_keeps_type_and_location() {
    let mut e = bin(ExprType::Add, long(3), long(4));
    e.location = at(12);
    e.ctype = Type::Int(false);
    e.lval = true;
    let f = fold_ok(e);
    assert_eq!(f.location, at(12));
    assert!(matches!(f.ctype, Type::Int(false)));
    assert!(f.lval);
}

#[test]
fn fold_twice_is_fold_once() {
    let e = || bin(ExprType::Add, var(1, Type::Long(true)), bin(ExprType::Mul, long(2), long(3)));
    let once = fold_ok(e());
    let twice = fold_ok(fold_ok(e()));
    match (once.expr, twice.expr) {
        (ExprType::Add(_, a), ExprType::Add(_, b)) => assert_eq!(int_value(&a), int_value(&b)),
        _ => panic!("expected sums"),
    }
    assert_eq!(once.constexpr, twice.constexpr);
}

#[test]
fn constexpr_demands_a_literal() {
    let r = bin(ExprType::Add, long(3), long(4)).constexpr();
    match r {
        Ok(l) => {
            assert_eq!(l.data.0, Literal::Int(7));
            assert!(matches!(l.data.1, Type::Long(true)));
        },
        Err(e) => panic!("unexpected error {:?}", e.data),
    }
    match var(1, Type::Int(true)).constexpr() {
        Err(e) => assert!(matches!(e.data, SemanticError::NotConstant(_))),
        Ok(_) => panic!("a variable is not constant"),
    }
}

#[test]
fn zero_and_negative_predicates() {
    assert!(long(0).is_zero());
    assert!(chr(0).is_zero());
    assert!(!long(1).is_zero());
    assert!(!var(1, Type::Int(true)).is_zero());
    assert!(long(-1).is_negative());
    assert!(!ulong(1).is_negative());
    assert!(Literal::UnsignedInt(0).is_zero());
    assert!(!Literal::Str(InternedStr(0)).is_zero());
}

#[test]
fn location_order() {
    let a = Location { span: Span { start: 1, end: 4 }, filename: InternedStr(0) };
    let b = Location { span: Span { start: 2, end: 3 }, filename: InternedStr(0) };
    let c = Location { span: Span { start: 2, end: 3 }, filename: InternedStr(1) };
    assert!(a < b);
    assert_eq!(a.partial_cmp(&a), Some(std::cmp::Ordering::Equal));
    assert_eq!(b.partial_cmp(&c), None);
}

#[test]
fn compound_assignment_operators() {
    assert_eq!(AssignmentToken::PlusEqual.without_assignment(), Token::Plus);
    assert_eq!(AssignmentToken::LeftEqual.without_assignment(), Token::ShiftLeft);
    assert_eq!(AssignmentToken::XorEqual.without_assignment(), Token::Xor);
    assert_eq!(
        AssignmentToken::Equal.without_assignment(),
        Token::Assignment(AssignmentToken::Equal)
    );
}

#[test]
fn errors_convert() {
    let err = here().error(SemanticError::DivideByZero);
    match rcc::Error::from(err) {
        rcc::Error::Source(errs) => {
            assert_eq!(errs.len(), 1);
            assert!(matches!(errs[0].data, SemanticError::DivideByZero));
        },
        _ => panic!("expected source errors"),
    }
}

#[test]
fn located_values_compare_by_data() {
    let a = at(1).with(Literal::Int(3));
    let b = at(9).with(Literal::Int(3));
    let c = at(1).with(Literal::Int(4));
    assert!(a == b);
    assert!(a != c);
    let mapped = a.map(|l| l.is_zero());
    assert!(!mapped.data);
    assert_eq!(mapped.location, at(1));
}

#[test]
fn stack_sizes() {
    assert_eq!(Type::Long(true).stack_size().ok(), Some(8));
    let big = Type::Array(Box::new(Type::Long(true)), ArrayType::Fixed(1 << 40));
    assert!(matches!(big.stack_size(), Err(SemanticError::StackTooLarge { size }) if size == 8 << 40));
    assert!(matches!(Type::Void.stack_size(), Err(SemanticError::Sizeof(SizeofError::Void))));
}

#[test]
fn assignment_spelling() {
    let tokens = [
        (AssignmentToken::Equal, "="),
        (AssignmentToken::PlusEqual, "+="),
        (AssignmentToken::MinusEqual, "-="),
        (AssignmentToken::StarEqual, "*="),
        (AssignmentToken::DivideEqual, "/="),
        (AssignmentToken::ModEqual, "%="),
        (AssignmentToken::AndEqual, "&="),
        (AssignmentToken::OrEqual, "|="),
        (AssignmentToken::RightEqual, ">>="),
        (AssignmentToken::LeftEqual, "<<="),
        (AssignmentToken::XorEqual, "^="),
    ];
    for (token, text) in tokens {
        assert_eq!(token.as_str(), text);
        assert_eq!(Token::Assignment(token).as_str(), Some(text));
    }
}

#[test]
fn token_spelling() {
    assert_eq!(Keyword::Sizeof.as_str(), "sizeof");
    assert_eq!(Keyword::Bool.as_str(), "_Bool");
    assert_eq!(Keyword::ThreadLocal.as_str(), "_Thread_local");
    assert_eq!(Keyword::VaList.as_str(), "va_list");
    assert_eq!(ComparisonToken::NotEqual.as_str(), "!=");
    assert_eq!(Token::LeftBrace.as_str(), Some("{"));
    assert_eq!(Token::StructDeref.as_str(), Some("->"));
    assert_eq!(Token::Keyword(Keyword::While).as_str(), Some("while"));
    assert_eq!(Token::Literal(Literal::Int(3)).as_str(), None);
    assert_eq!(Token::Id(InternedStr(0)).as_str(), None);
}
