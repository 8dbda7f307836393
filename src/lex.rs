use vstd::prelude::*;

use crate::error::{CompileError, SemanticError};
use crate::intern::InternedStr;

verus! {

/// A half-open range `[start, end)` of byte offsets into a source file.
#[derive(Copy, Clone, Debug, PartialEq, Eq, Structural, Hash)]
pub struct Span {
    pub start: u32,
    pub end: u32,
}

/// Where a piece of code came from: a span inside a named file.
#[derive(Copy, Clone, Debug, PartialEq, Eq, Structural, Hash)]
pub struct Location {
    pub span: Span,
    pub filename: InternedStr,
}

/// A value together with the location it was read from.
#[derive(Copy, Clone, Debug)]
pub struct Locatable<T> {
    pub data: T,
    pub location: Location,
}

impl<T> Locatable<T> {
    pub fn new(data: T, location: Location) -> (r: Locatable<T>)
        ensures
            r.data == data,
            r.location == location,
    {
        location.with(data)
    }

    /// Transforms the data and keeps the location.
    pub fn map<S, F: FnOnce(T) -> S>(self, f: F) -> (r: Locatable<S>)
        requires
            f.requires((self.data,)),
        ensures
            f.ensures((self.data,), r.data),
            r.location == self.location,
    {
        Locatable { data: f(self.data), location: self.location }
    }
}

/// Two located values are equal when their data are: the location is
/// ignored.
impl<T: PartialEq> PartialEq for Locatable<T> {
    fn eq(&self, other: &Self) -> (r: bool) {
        self.data == other.data
    }
}

impl<T: PartialEq> vstd::std_specs::cmp::PartialEqSpecImpl for Locatable<T> {
    open spec fn obeys_eq_spec() -> bool {
        <T as vstd::std_specs::cmp::PartialEqSpec>::obeys_eq_spec()
    }

    open spec fn eq_spec(&self, other: &Locatable<T>) -> bool {
        <T as vstd::std_specs::cmp::PartialEqSpec>::eq_spec(&self.data, &other.data)
    }
}

impl<T: Eq> Eq for Locatable<T> {

}

impl Location {
    /// Attaches this location to `data`.
    pub fn with<T>(self, data: T) -> (r: Locatable<T>)
        ensures
            r.data == data,
            r.location == self,
    {
        Locatable { data, location: self }
    }

    /// A semantic error reported at this location.
    pub fn error(self, error: SemanticError) -> (r: CompileError)
        ensures
            r.data == error,
            r.location == self,
    {
        self.with(error)
    }
}

/// Orders two spans by their start offset, then by their end offset.
pub open spec fn span_order(a: Span, b: Span) -> core::cmp::Ordering {
    if a.start < b.start || (a.start == b.start && a.end < b.end) {
        core::cmp::Ordering::Less
    } else if a == b {
        core::cmp::Ordering::Equal
    } else {
        core::cmp::Ordering::Greater
    }
}

/// Locations are ordered only within one file; across files they are
/// incomparable.
pub open spec fn location_order(a: Location, b: Location) -> Option<core::cmp::Ordering> {
    if a.filename == b.filename {
        Some(span_order(a.span, b.span))
    } else {
        None
    }
}

impl PartialOrd for Location {
    fn partial_cmp(&self, other: &Location) -> (r: Option<core::cmp::Ordering>)
        ensures
            r == location_order(*self, *other),
    {
        if self.filename.0 == other.filename.0 {
            let s = self.span;
            let o = other.span;
            if s.start < o.start || (s.start == o.start && s.end < o.end) {
                Some(core::cmp::Ordering::Less)
            } else if s.start == o.start && s.end == o.end {
                Some(core::cmp::Ordering::Equal)
            } else {
                Some(core::cmp::Ordering::Greater)
            }
        } else {
            None
        }
    }
}

impl vstd::std_specs::cmp::PartialOrdSpecImpl for Location {
    open spec fn obeys_partial_cmp_spec() -> bool {
        true
    }

    open spec fn partial_cmp_spec(&self, other: &Location) -> Option<core::cmp::Ordering> {
        location_order(*self, *other)
    }
}

#[derive(Copy, Clone, Debug, PartialEq, Eq, Structural, Hash)]
pub enum Keyword {
    // statements
    If,
    Else,
    Do,
    While,
    For,
    Switch,
    Case,
    Default,
    Break,
    Continue,
    Return,
    Goto,
    // types
    Char,
    Short,
    Int,
    Long,
    Float,
    Double,
    Void,
    Signed,
    Unsigned,
    Typedef,
    Union,
    Struct,
    Enum,
    // less common types
    Bool,
    Complex,
    Imaginary,
    VaList,
    // qualifiers
    Const,
    Volatile,
    Restrict,
    Atomic,
    ThreadLocal,
    // function qualifiers
    Inline,
    NoReturn,
    // storage classes
    Auto,
    Register,
    Static,
    Extern,
    // intrinsics
    Sizeof,
    Generic,
    StaticAssert,
    Alignas,
    Alignof,
}

#[derive(Copy, Clone, Debug, PartialEq, Eq, Structural)]
pub enum AssignmentToken {
    Equal,
    PlusEqual,
    MinusEqual,
    StarEqual,
    DivideEqual,
    ModEqual,
    LeftEqual,  // <<=
    RightEqual,  // >>=
    AndEqual,
    OrEqual,
    XorEqual,  // ^=
}

#[derive(Copy, Clone, Debug, PartialEq, Eq, Structural)]
pub enum ComparisonToken {
    Less,
    Greater,
    EqualEqual,
    NotEqual,
    LessEqual,
    GreaterEqual,
}

/// A scalar constant: a signed or unsigned 64-bit integer, an interned
/// string, or a byte-sized character.
#[derive(Copy, Clone, Debug, PartialEq, Eq, Structural)]
pub enum Literal {
    Int(i64),
    UnsignedInt(u64),
    Str(InternedStr),
    Char(u8),
}

#[derive(Copy, Clone, Debug, PartialEq, Eq, Structural)]
pub enum Token {
    PlusPlus,
    MinusMinus,
    Assignment(AssignmentToken),
    Comparison(ComparisonToken),
    Plus,
    Minus,
    Star,
    Divide,
    Mod,
    Xor,
    Ampersand,
    LogicalAnd,
    BitwiseOr,
    LogicalOr,
    BinaryNot,  // ~
    LogicalNot,  // !
    ShiftRight,
    ShiftLeft,
    LeftBrace,
    RightBrace,
    LeftBracket,
    RightBracket,
    LeftParen,
    RightParen,
    Semicolon,
    Colon,
    Comma,
    Dot,
    Question,
    Keyword(Keyword),
    Literal(Literal),
    Id(InternedStr),
    Ellipsis,
    StructDeref,  // ->
    Hash,  // #, used for preprocessing
}

/// How a comparison operator is written in C.
pub open spec fn comparison_text(c: ComparisonToken) -> Seq<char> {
    match c {
        ComparisonToken::EqualEqual => "=="@,
        ComparisonToken::NotEqual => "!="@,
        ComparisonToken::Less => "<"@,
        ComparisonToken::LessEqual => "<="@,
        ComparisonToken::Greater => ">"@,
        ComparisonToken::GreaterEqual => ">="@,
    }
}

impl ComparisonToken {
    /// The operator as written in C.
    pub fn as_str(&self) -> (r: &'static str)
        ensures
            r@ == comparison_text(*self),
    {
        match self {
            ComparisonToken::EqualEqual => "==",
            ComparisonToken::NotEqual => "!=",
            ComparisonToken::Less => "<",
            ComparisonToken::LessEqual => "<=",
            ComparisonToken::Greater => ">",
            ComparisonToken::GreaterEqual => ">=",
        }
    }
}

/// How an assignment operator is written in C.
pub open spec fn assignment_text(x: AssignmentToken) -> Seq<char> {
    match x {
        AssignmentToken::Equal => "="@,
        AssignmentToken::PlusEqual => "+="@,
        AssignmentToken::MinusEqual => "-="@,
        AssignmentToken::StarEqual => "*="@,
        AssignmentToken::DivideEqual => "/="@,
        AssignmentToken::ModEqual => "%="@,
        AssignmentToken::LeftEqual => "<<="@,
        AssignmentToken::RightEqual => ">>="@,
        AssignmentToken::AndEqual => "&="@,
        AssignmentToken::OrEqual => "|="@,
        AssignmentToken::XorEqual => "^="@,
    }
}

impl AssignmentToken {
    /// The operator as written in C.
    pub fn as_str(&self) -> (r: &'static str)
        ensures
            r@ == assignment_text(*self),
    {
        match self {
            AssignmentToken::Equal => "=",
            AssignmentToken::PlusEqual => "+=",
            AssignmentToken::MinusEqual => "-=",
            AssignmentToken::StarEqual => "*=",
            AssignmentToken::DivideEqual => "/=",
            AssignmentToken::ModEqual => "%=",
            AssignmentToken::LeftEqual => "<<=",
            AssignmentToken::RightEqual => ">>=",
            AssignmentToken::AndEqual => "&=",
            AssignmentToken::OrEqual => "|=",
            AssignmentToken::XorEqual => "^=",
        }
    }
}

/// How a keyword is written in C.
pub open spec fn keyword_text(x: Keyword) -> Seq<char> {
    match x {
        Keyword::If => "if"@,
        Keyword::Else => "else"@,
        Keyword::Do => "do"@,
        Keyword::While => "while"@,
        Keyword::For => "for"@,
        Keyword::Switch => "switch"@,
        Keyword::Case => "case"@,
        Keyword::Default => "default"@,
        Keyword::Break => "break"@,
        Keyword::Continue => "continue"@,
        Keyword::Return => "return"@,
        Keyword::Goto => "goto"@,
        Keyword::Char => "char"@,
        Keyword::Short => "short"@,
        Keyword::Int => "int"@,
        Keyword::Long => "long"@,
        Keyword::Float => "float"@,
        Keyword::Double => "double"@,
        Keyword::Void => "void"@,
        Keyword::Signed => "signed"@,
        Keyword::Unsigned => "unsigned"@,
        Keyword::Typedef => "typedef"@,
        Keyword::Union => "union"@,
        Keyword::Struct => "struct"@,
        Keyword::Enum => "enum"@,
        Keyword::Bool => "_Bool"@,
        Keyword::Complex => "_Complex"@,
        Keyword::Imaginary => "_Imaginary"@,
        Keyword::VaList => "va_list"@,
        Keyword::Const => "const"@,
        Keyword::Volatile => "volatile"@,
        Keyword::Restrict => "restrict"@,
        Keyword::Atomic => "_Atomic"@,
        Keyword::ThreadLocal => "_Thread_local"@,
        Keyword::Inline => "inline"@,
        Keyword::NoReturn => "_Noreturn"@,
        Keyword::Auto => "auto"@,
        Keyword::Register => "register"@,
        Keyword::Static => "static"@,
        Keyword::Extern => "extern"@,
        Keyword::Sizeof => "sizeof"@,
        Keyword::Generic => "_Generic"@,
        Keyword::StaticAssert => "_Static_assert"@,
        Keyword::Alignas => "_Alignas"@,
        Keyword::Alignof => "_Alignof"@,
    }
}

impl Keyword {
    /// The keyword as written in C.
    pub fn as_str(&self) -> (r: &'static str)
        ensures
            r@ == keyword_text(*self),
    {
        match self {
            Keyword::If => "if",
            Keyword::Else => "else",
            Keyword::Do => "do",
            Keyword::While => "while",
            Keyword::For => "for",
            Keyword::Switch => "switch",
            Keyword::Case => "case",
            Keyword::Default => "default",
            Keyword::Break => "break",
            Keyword::Continue => "continue",
            Keyword::Return => "return",
            Keyword::Goto => "goto",
            Keyword::Char => "char",
            Keyword::Short => "short",
            Keyword::Int => "int",
            Keyword::Long => "long",
            Keyword::Float => "float",
            Keyword::Double => "double",
            Keyword::Void => "void",
            Keyword::Signed => "signed",
            Keyword::Unsigned => "unsigned",
            Keyword::Typedef => "typedef",
            Keyword::Union => "union",
            Keyword::Struct => "struct",
            Keyword::Enum => "enum",
            Keyword::Bool => "_Bool",
            Keyword::Complex => "_Complex",
            Keyword::Imaginary => "_Imaginary",
            Keyword::VaList => "va_list",
            Keyword::Const => "const",
            Keyword::Volatile => "volatile",
            Keyword::Restrict => "restrict",
            Keyword::Atomic => "_Atomic",
            Keyword::ThreadLocal => "_Thread_local",
            Keyword::Inline => "inline",
            Keyword::NoReturn => "_Noreturn",
            Keyword::Auto => "auto",
            Keyword::Register => "register",
            Keyword::Static => "static",
            Keyword::Extern => "extern",
            Keyword::Sizeof => "sizeof",
            Keyword::Generic => "_Generic",
            Keyword::StaticAssert => "_Static_assert",
            Keyword::Alignas => "_Alignas",
            Keyword::Alignof => "_Alignof",
        }
    }
}

/// How a token is written in C; literals and identifiers have no fixed
/// spelling.
pub open spec fn token_text(t: Token) -> Option<Seq<char>> {
    match t {
        Token::PlusPlus => Some("++"@),
        Token::MinusMinus => Some("--"@),
        Token::ShiftRight => Some(">>"@),
        Token::ShiftLeft => Some("<<"@),
        Token::Plus => Some("+"@),
        Token::Minus => Some("-"@),
        Token::Star => Some("*"@),
        Token::Divide => Some("/"@),
        Token::Xor => Some("^"@),
        Token::Ampersand => Some("&"@),
        Token::LogicalAnd => Some("&&"@),
        Token::BitwiseOr => Some("|"@),
        Token::LogicalOr => Some("||"@),
        Token::BinaryNot => Some("~"@),
        Token::LogicalNot => Some("!"@),
        Token::LeftBrace => Some("{"@),
        Token::RightBrace => Some("}"@),
        Token::LeftBracket => Some("["@),
        Token::RightBracket => Some("]"@),
        Token::LeftParen => Some("("@),
        Token::RightParen => Some(")"@),
        Token::Semicolon => Some(";"@),
        Token::Colon => Some(":"@),
        Token::Comma => Some(","@),
        Token::Dot => Some("."@),
        Token::Question => Some("?"@),
        Token::Mod => Some("%"@),
        Token::Ellipsis => Some("..."@),
        Token::StructDeref => Some("->"@),
        Token::Hash => Some("#"@),
        Token::Assignment(a) => Some(assignment_text(a)),
        Token::Comparison(c) => Some(comparison_text(c)),
        Token::Keyword(k) => Some(keyword_text(k)),
        Token::Literal(_) | Token::Id(_) => None,
    }
}

impl Token {
    /// The token as written in C, for tokens whose spelling is fixed.
    pub fn as_str(&self) -> (r: Option<&'static str>)
        ensures
            match token_text(*self) {
                Some(s) => r matches Some(x) && x@ == s,
                None => r is None,
            },
    {
        match self {
            Token::PlusPlus => Some("++"),
            Token::MinusMinus => Some("--"),
            Token::ShiftRight => Some(">>"),
            Token::ShiftLeft => Some("<<"),
            Token::Plus => Some("+"),
            Token::Minus => Some("-"),
            Token::Star => Some("*"),
            Token::Divide => Some("/"),
            Token::Xor => Some("^"),
            Token::Ampersand => Some("&"),
            Token::LogicalAnd => Some("&&"),
            Token::BitwiseOr => Some("|"),
            Token::LogicalOr => Some("||"),
            Token::BinaryNot => Some("~"),
            Token::LogicalNot => Some("!"),
            Token::LeftBrace => Some("{"),
            Token::RightBrace => Some("}"),
            Token::LeftBracket => Some("["),
            Token::RightBracket => Some("]"),
            Token::LeftParen => Some("("),
            Token::RightParen => Some(")"),
            Token::Semicolon => Some(";"),
            Token::Colon => Some(":"),
            Token::Comma => Some(","),
            Token::Dot => Some("."),
            Token::Question => Some("?"),
            Token::Mod => Some("%"),
            Token::Ellipsis => Some("..."),
            Token::StructDeref => Some("->"),
            Token::Hash => Some("#"),
            Token::Assignment(a) => Some(a.as_str()),
            Token::Comparison(c) => Some(c.as_str()),
            Token::Keyword(k) => Some(k.as_str()),
            Token::Literal(_) | Token::Id(_) => None,
        }
    }
}

/// True exactly for an integer or character zero.
pub open spec fn literal_is_zero(l: Literal) -> bool {
    match l {
        Literal::Int(i) => i == 0,
        Literal::UnsignedInt(u) => u == 0,
        Literal::Char(c) => c == 0,
        Literal::Str(_) => false,
    }
}

impl Literal {
    pub fn is_zero(&self) -> (r: bool)
        ensures
            r == literal_is_zero(*self),
    {
        match *self {
            Literal::Int(i) => i == 0,
            Literal::UnsignedInt(u) => u == 0,
            Literal::Char(c) => c == 0,
            Literal::Str(_) => false,
        }
    }
}

/// The operator that a compound assignment applies before storing.
pub open spec fn operator_of(a: AssignmentToken) -> Token {
    match a {
        AssignmentToken::Equal => Token::Assignment(AssignmentToken::Equal),
        AssignmentToken::PlusEqual => Token::Plus,
        AssignmentToken::MinusEqual => Token::Minus,
        AssignmentToken::StarEqual => Token::Star,
        AssignmentToken::DivideEqual => Token::Divide,
        AssignmentToken::ModEqual => Token::Mod,
        AssignmentToken::AndEqual => Token::Ampersand,
        AssignmentToken::OrEqual => Token::BitwiseOr,
        AssignmentToken::LeftEqual => Token::ShiftLeft,
        AssignmentToken::RightEqual => Token::ShiftRight,
        AssignmentToken::XorEqual => Token::Xor,
    }
}

impl AssignmentToken {
    /// The binary operator of a compound assignment (`+=` gives `+`).
    /// Plain `=` has no such operator and maps to itself.
    pub fn without_assignment(self) -> (r: Token)
        ensures
            r == operator_of(self),
    {
        match self {
            AssignmentToken::Equal => Token::Assignment(AssignmentToken::Equal),
            AssignmentToken::PlusEqual => Token::Plus,
            AssignmentToken::MinusEqual => Token::Minus,
            AssignmentToken::StarEqual => Token::Star,
            AssignmentToken::DivideEqual => Token::Divide,
            AssignmentToken::ModEqual => Token::Mod,
            AssignmentToken::AndEqual => Token::Ampersand,
            AssignmentToken::OrEqual => Token::BitwiseOr,
            AssignmentToken::LeftEqual => Token::ShiftLeft,
            AssignmentToken::RightEqual => Token::ShiftRight,
            AssignmentToken::XorEqual => Token::Xor,
        }
    }
}

} // verus!
