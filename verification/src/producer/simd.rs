use std::marker::PhantomData;
use vstd::prelude::*;

verus! {

/// Produces values by iterating `LANES` points at once, with numbers of type
/// `T`.
pub struct SimdProducer<T, const LANES: usize> {
    max_iterations: u32,
    _number_type: PhantomData<T>,
}

impl<T, const LANES: usize> SimdProducer<T, LANES> {
    pub fn new(max_iterations: u32) -> (r: Self)
        ensures
            r.spec_max_iterations() == max_iterations,
    {
        Self { max_iterations, _number_type: PhantomData }
    }

    pub closed spec fn spec_max_iterations(&self) -> u32 {
        self.max_iterations
    }

    /// The amount of iterations after which a point counts as inside the set.
    pub fn max_iterations(&self) -> (r: u32)
        ensures
            r == self.spec_max_iterations(),
    {
        self.max_iterations
    }
}

impl<T, const LANES: usize> Clone for SimdProducer<T, LANES> {
    fn clone(&self) -> (r: Self)
        ensures
            r.spec_max_iterations() == self.spec_max_iterations(),
    {
        Self::new(self.max_iterations)
    }
}

} // verus!
