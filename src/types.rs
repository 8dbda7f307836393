use vstd::prelude::*;

use crate::error::SemanticError;
use crate::intern::InternedStr;

verus! {

/// The length of an array type, if it is known.
#[derive(Copy, Clone, Debug, PartialEq, Eq, Structural)]
pub enum ArrayType {
    Fixed(u64),
    Unbounded,
}

/// The signature of a function.
#[derive(Debug)]
pub struct FunctionType {
    pub return_type: Box<Type>,
    pub params: Vec<Type>,
    pub varargs: bool,
}

/// A C type. The `bool` of an integer type is true when it is signed.
#[derive(Debug)]
pub enum Type {
    Void,
    Bool,
    Char(bool),
    Short(bool),
    Int(bool),
    Long(bool),
    Float,
    Double,
    Pointer(Box<Type>),
    Array(Box<Type>, ArrayType),
    Function(FunctionType),
    /// An enumeration: its tag, if any, and its members with their values.
    Enum(Option<InternedStr>, Vec<(InternedStr, i64)>),
}

/// Why a type has no size.
#[derive(Copy, Clone, Debug, PartialEq, Eq, Structural)]
pub enum SizeofError {
    Void,
    Function,
    IncompleteArray,
    TooLarge,
}

/// The number of bytes an object of type `t` occupies.
pub open spec fn size_of(t: Type) -> Result<u64, SizeofError>
    decreases t,
{
    match t {
        Type::Void => Err(SizeofError::Void),
        Type::Bool => Ok(1),
        Type::Char(_) => Ok(1),
        Type::Short(_) => Ok(2),
        Type::Int(_) => Ok(4),
        Type::Long(_) => Ok(8),
        Type::Float => Ok(4),
        Type::Double => Ok(8),
        Type::Pointer(_) => Ok(8),
        Type::Enum(_, _) => Ok(4),
        Type::Function(_) => Err(SizeofError::Function),
        Type::Array(_, ArrayType::Unbounded) => Err(SizeofError::IncompleteArray),
        Type::Array(of, ArrayType::Fixed(n)) => match size_of(*of) {
            Err(e) => Err(e),
            Ok(s) => if s * n <= u64::MAX {
                Ok((s * n) as u64)
            } else {
                Err(SizeofError::TooLarge)
            },
        },
    }
}

pub open spec fn is_integral(t: Type) -> bool {
    match t {
        Type::Bool | Type::Char(_) | Type::Short(_) | Type::Int(_) | Type::Long(_) | Type::Enum(
            _,
            _,
        ) => true,
        _ => false,
    }
}

pub open spec fn is_signed(t: Type) -> bool {
    match t {
        Type::Char(s) | Type::Short(s) | Type::Int(s) | Type::Long(s) => s,
        Type::Enum(_, _) | Type::Float | Type::Double => true,
        _ => false,
    }
}

pub open spec fn is_pointer(t: Type) -> bool {
    t is Pointer
}

impl Type {
    pub fn sizeof(&self) -> (r: Result<u64, SizeofError>)
        ensures
            r == size_of(*self),
        decreases self,
    {
        match self {
            Type::Void => Err(SizeofError::Void),
            Type::Bool => Ok(1),
            Type::Char(_) => Ok(1),
            Type::Short(_) => Ok(2),
            Type::Int(_) => Ok(4),
            Type::Long(_) => Ok(8),
            Type::Float => Ok(4),
            Type::Double => Ok(8),
            Type::Pointer(_) => Ok(8),
            Type::Enum(_, _) => Ok(4),
            Type::Function(_) => Err(SizeofError::Function),
            Type::Array(_, ArrayType::Unbounded) => Err(SizeofError::IncompleteArray),
            Type::Array(of, ArrayType::Fixed(n)) => match of.sizeof() {
                Err(e) => Err(e),
                Ok(s) => match s.checked_mul(*n) {
                    Some(total) => Ok(total),
                    None => Err(SizeofError::TooLarge),
                },
            },
        }
    }

    /// The size of a stack slot for an object of this type: stack slots
    /// hold at most `u32::MAX` bytes.
    pub fn stack_size(&self) -> (r: Result<u32, SemanticError>)
        ensures
            match size_of(*self) {
                Err(e) => r == Err::<u32, SemanticError>(SemanticError::Sizeof(e)),
                Ok(s) => if s <= u32::MAX {
                    r == Ok::<u32, SemanticError>(s as u32)
                } else {
                    r matches Err(SemanticError::StackTooLarge { size }) && size == s
                },
            },
    {
        let size = match self.sizeof() {
            Ok(s) => s,
            Err(e) => {
                return Err(SemanticError::Sizeof(e));
            },
        };
        if size <= u32::MAX as u64 {
            Ok(size as u32)
        } else {
            Err(SemanticError::StackTooLarge { size })
        }
    }

    pub fn is_integral(&self) -> (r: bool)
        ensures
            r == is_integral(*self),
    {
        match self {
            Type::Bool | Type::Char(_) | Type::Short(_) | Type::Int(_) | Type::Long(_)
            | Type::Enum(_, _) => true,
            _ => false,
        }
    }

    pub fn is_signed(&self) -> (r: bool)
        ensures
            r == is_signed(*self),
    {
        match self {
            Type::Char(s) | Type::Short(s) | Type::Int(s) | Type::Long(s) => *s,
            Type::Enum(_, _) | Type::Float | Type::Double => true,
            _ => false,
        }
    }

    pub fn is_pointer(&self) -> (r: bool)
        ensures
            r == is_pointer(*self),
    {
        match self {
            Type::Pointer(_) => true,
            _ => false,
        }
    }
}

} // verus!
