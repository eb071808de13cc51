use vstd::prelude::*;

use crate::fill::FillableVector;

verus! {

/// Number of pixel columns of the CHIP-8 display.
pub const DISPLAY_WIDTH: u32 = 64;

/// Number of pixel rows of the CHIP-8 display.
pub const DISPLAY_HEIGHT: u32 = 32;

/// For output, the machine uses a 64x32 monochrome display: a flat buffer of
/// pixels in row-major order, one byte per pixel, each either off (0) or
/// on (1). The CPU owns the display and is its only writer; the host reads
/// the buffer back to render a frame.
pub struct Display {
    pub width: u32,
    pub height: u32,
    pub buffer: Vec<u8>,
}

impl View for Display {
    type V = Seq<u8>;

    open spec fn view(&self) -> Seq<u8> {
        self.buffer@
    }
}

impl Display {
    /// A display is well formed when it has the fixed 64x32 geometry and
    /// every pixel holds 0 or 1.
    pub open spec fn wf(&self) -> bool {
        &&& self.width == DISPLAY_WIDTH
        &&& self.height == DISPLAY_HEIGHT
        &&& self@.len() == DISPLAY_WIDTH * DISPLAY_HEIGHT
        &&& forall|i: int| 0 <= i < self@.len() ==> self@[i] == 0 || self@[i] == 1
    }

    /// A fresh display: every pixel off.
    pub fn new() -> (d: Display)
        ensures
            d.wf(),
            d@ == Seq::new((DISPLAY_WIDTH * DISPLAY_HEIGHT) as nat, |i: int| 0u8),
    {
        Display {
            width: DISPLAY_WIDTH,
            height: DISPLAY_HEIGHT,
            buffer: Vec::with_filled_capacity((DISPLAY_WIDTH * DISPLAY_HEIGHT) as usize, 0),
        }
    }

    /// The stored value of the pixel at flat index `index`; the caller (the
    /// CPU) is responsible for staying within the buffer.
    pub fn get_buffer_item(&self, index: usize) -> (r: u8)
        requires
            index < self@.len(),
        ensures
            r == self@[index as int],
    {
        self.buffer[index]
    }

    /// Overwrite the pixel at flat index `index`; the caller computes the
    /// XOR itself and keeps values to 0 or 1.
    pub fn set_buffer_item(&mut self, index: usize, value: u8)
        requires
            index < old(self)@.len(),
        ensures
            final(self)@ == old(self)@.update(index as int, value),
            final(self).width == old(self).width,
            final(self).height == old(self).height,
    {
        self.buffer.set(index, value);
    }

    /// The whole pixel buffer, for the host renderer.
    pub fn get_buffer(&self) -> (r: &Vec<u8>)
        ensures
            r@ == self@,
    {
        &self.buffer
    }
}

} // verus!
