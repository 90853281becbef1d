//! A slider: a level between two ends, set by a place on a bar.

use vstd::prelude::*;

verus! {

/// A slider of `width` places whose value runs from `min` at place 0 to
/// `max` at place `width`.
pub struct Slider {
    pub min: u32,
    pub max: u32,
    pub value: u32,
    pub width: usize,
}

impl Slider {
    /// The ends are in order, the value lies between them, and the bar has
    /// at least one place.
    pub open spec fn wf(&self) -> bool {
        &&& self.min <= self.value <= self.max
        &&& self.width > 0
    }

    /// The value at a place of the bar: as far from `min` to `max` as the
    /// place is along the bar, rounded down.
    pub open spec fn value_at(&self, position: int) -> int {
        self.min + (self.max - self.min) * position / (self.width as int)
    }

    /// The number of places that the bar shows as filled: as far along the
    /// bar as the value is from `min` to `max`, rounded down.
    pub open spec fn filled(&self) -> int {
        (self.value - self.min) * self.width / (self.max - self.min)
    }

    /// A slider that stands halfway between its ends.
    pub fn new(min: u32, max: u32, width: usize) -> (r: Slider)
        ensures
            r.min == min,
            r.max == max,
            r.width == width,
            r.value == (min + max) / 2,
            min <= max && width > 0 ==> r.wf(),
    {
        let middle: u64 = (min as u64 + max as u64) / 2;
        Slider { min, max, value: middle as u32, width }
    }

    /// Moves the slider to a place of the bar.
    pub fn update_value(&mut self, position: usize)
        requires
            old(self).wf(),
            position <= old(self).width,
        ensures
            final(self).value == old(self).value_at(position as int),
            final(self).min == old(self).min,
            final(self).max == old(self).max,
            final(self).width == old(self).width,
            final(self).wf(),
    {
        let span: u128 = (self.max - self.min) as u128;
        let width: u128 = self.width as u128;
        let place: u128 = position as u128;
        assert(0 <= span * place <= span * width && span * width <= 0xFFFF_FFFF
            * 0xFFFF_FFFF_FFFF_FFFF && span * place / (width as int) <= span) by (nonlinear_arith)
            requires
                0 <= span <= 0xFFFF_FFFF,
                0 <= place <= width,
                0 < width <= 0xFFFF_FFFF_FFFF_FFFF,
        ;
        let offset: u128 = span * place / width;
        self.value = self.min + offset as u32;
    }

    /// The value of the slider.
    pub fn get_value(&self) -> (r: u32)
        ensures
            r == self.value,
    {
        self.value
    }

    /// The number of places of the bar to draw as filled.
    pub fn filled_length(&self) -> (r: usize)
        requires
            self.wf(),
            self.min < self.max,
        ensures
            r == self.filled(),
            r <= self.width,
    {
        let span: u128 = (self.max - self.min) as u128;
        let reach: u128 = (self.value - self.min) as u128;
        let width: u128 = self.width as u128;
        assert(0 <= reach * width <= span * width && span * width <= 0xFFFF_FFFF
            * 0xFFFF_FFFF_FFFF_FFFF && reach * width / (span as int) <= width) by (nonlinear_arith)
            requires
                0 <= reach <= span,
                0 < span <= 0xFFFF_FFFF,
                0 < width <= 0xFFFF_FFFF_FFFF_FFFF,
        ;
        (reach * width / span) as usize
    }
}

} // verus!
