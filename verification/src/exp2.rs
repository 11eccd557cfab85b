use vstd::prelude::*;

verus! {

/// Raising two to the power of a number.
pub trait Exp2: Sized {
    fn exp2(self) -> Self;
}

} // verus!
