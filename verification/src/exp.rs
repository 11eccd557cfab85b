use vstd::prelude::*;

verus! {

/// The exponential function of a number.
pub trait Exp: Sized {
    fn exp(self) -> Self;
}

} // verus!
