use vstd::prelude::*;

verus! {

/// A handle to a string held by the compiler's interner.
///
/// Two handles are equal exactly when they name the same string.
#[derive(Copy, Clone, Debug, PartialEq, Eq, Structural, Hash)]
pub struct InternedStr(pub u32);

} // verus!
