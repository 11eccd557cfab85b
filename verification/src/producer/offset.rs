use vstd::prelude::*;

use crate::high_precision::fits;
use crate::types::Pos;

verus! {

/// Moves the section that another producer renders by an offset.
pub struct Offset<P> {
    producer: P,
    offset: Pos,
}

impl<P> Offset<P> {
    pub fn new(producer: P, offset: Pos) -> (r: Self)
        ensures
            r.spec_producer() == producer,
            r.spec_offset() == offset,
    {
        Self { producer, offset }
    }

    pub closed spec fn spec_producer(&self) -> P {
        self.producer
    }

    pub closed spec fn spec_offset(&self) -> Pos {
        self.offset
    }

    pub fn offset(&self) -> (r: &Pos)
        ensures
            *r == self.spec_offset(),
    {
        &self.offset
    }

    pub fn offset_mut(&mut self) -> (r: &mut Pos)
        ensures
            *r == old(self).spec_offset(),
            final(self).spec_offset() == *final(r),
            final(self).spec_producer() == old(self).spec_producer(),
    {
        &mut self.offset
    }

    /// The producer that renders the moved section.
    pub fn producer_mut(&mut self) -> (r: &mut P)
        ensures
            *r == old(self).spec_producer(),
            final(self).spec_producer() == *final(r),
            final(self).spec_offset() == old(self).spec_offset(),
    {
        &mut self.producer
    }

    /// `shifted_start(start)` when it fits, `None` otherwise.
    pub fn checked_shifted_start(&self, start: Pos) -> (r: Option<Pos>)
        ensures
            r is Some <==> fits(start.x@ + self.spec_offset().x@) && fits(
                start.y@ + self.spec_offset().y@,
            ),
            r matches Some(p) ==> p.x@ == start.x@ + self.spec_offset().x@ && p.y@ == start.y@
                + self.spec_offset().y@,
    {
        match (start.x.checked_add(self.offset.x), start.y.checked_add(self.offset.y)) {
            (Some(x), Some(y)) => Some(Pos { x, y }),
            _ => None,
        }
    }

    /// Where the inner producer starts in place of `start`: moved by the
    /// offset.
    pub fn shifted_start(&self, start: Pos) -> (r: Pos)
        requires
            fits(start.x@ + self.spec_offset().x@),
            fits(start.y@ + self.spec_offset().y@),
        ensures
            r.x@ == start.x@ + self.spec_offset().x@,
            r.y@ == start.y@ + self.spec_offset().y@,
    {
        Pos { x: start.x + self.offset.x, y: start.y + self.offset.y }
    }
}

} // verus!
