use vstd::prelude::*;

use crate::expr::Expr;
use crate::lex::Locatable;
use crate::types::SizeofError;

verus! {

/// An error found while evaluating an expression at compile time.
#[derive(Debug)]
pub enum SemanticError {
    /// Signed arithmetic left the range of a 64-bit integer; `is_positive`
    /// tells on which side.
    ConstOverflow { is_positive: bool },
    /// Integer division or remainder by a constant zero.
    DivideByZero,
    /// A constant was demanded and the expression did not fold to one.
    NotConstant(Box<Expr>),
    /// Dereference of the constant `0`.
    NullDereference,
    /// A shift by a negative or non-integer amount.
    NegativeShift,
    /// A left shift of a signed value by at least its width in bits.
    TooManyShiftBits { max_shift: u64, shift: u64 },
    /// A left shift of a signed constant by 64 or more bits.
    ShiftOverflow,
    /// The size of a type was needed and it has none.
    Sizeof(SizeofError),
    /// An object too large for a stack slot.
    StackTooLarge { size: u64 },
}

pub type CompileError = Locatable<SemanticError>;

pub type CompileResult<T> = Result<T, CompileError>;

} // verus!
