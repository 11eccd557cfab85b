use vstd::prelude::*;

verus! {

/// Renders a texture from the values of a producer, turning each value into a
/// color with a colorizer.
pub struct ProducerTextureRenderer<P, F> {
    producer: P,
    colorizer: F,
}

impl<P, F> ProducerTextureRenderer<P, F> {
    pub fn new(producer: P, colorizer: F) -> (r: Self)
        ensures
            r.spec_producer() == producer,
            r.spec_colorizer() == colorizer,
    {
        Self { producer, colorizer }
    }

    pub closed spec fn spec_producer(&self) -> P {
        self.producer
    }

    pub closed spec fn spec_colorizer(&self) -> F {
        self.colorizer
    }

    /// The producer of the values.
    pub fn producer_mut(&mut self) -> (r: &mut P)
        ensures
            *r == old(self).spec_producer(),
            final(self).spec_producer() == *final(r),
            final(self).spec_colorizer() == old(self).spec_colorizer(),
    {
        &mut self.producer
    }

    /// The function from a value to its color.
    pub fn colorizer_mut(&mut self) -> (r: &mut F)
        ensures
            *r == old(self).spec_colorizer(),
            final(self).spec_colorizer() == *final(r),
            final(self).spec_producer() == old(self).spec_producer(),
    {
        &mut self.colorizer
    }
}

} // verus!
