//! Pixels as the drawing operations take them, and pixel writes as the
//! display controller takes them.

use vstd::prelude::*;
use crate::color::Rgb565;
use crate::geometry::Point;

verus! {

/// A colour to be drawn at a coordinate.
#[derive(Clone, Copy, Debug, PartialEq, Eq, Structural)]
pub struct Pixel(pub Point, pub Rgb565);

/// One write to the controller: a packed colour for the pixel in column `x`
/// of row `y`.
#[derive(Clone, Copy, Debug, PartialEq, Eq, Structural)]
pub struct PixelWrite {
    pub x: usize,
    pub y: usize,
    pub value: u16,
}

impl Pixel {
    /// Neither coordinate is negative.
    pub open spec fn on_grid(self) -> bool {
        self.0.x >= 0 && self.0.y >= 0
    }

    /// The write that draws the pixel.
    pub open spec fn spec_write(self) -> PixelWrite {
        PixelWrite { x: self.0.x as usize, y: self.0.y as usize, value: self.1.packed() }
    }

    /// The write that draws the pixel: its coordinates, and its colour in
    /// packed form.
    pub fn write(&self) -> (w: PixelWrite)
        requires
            self.on_grid(),
        ensures
            w == self.spec_write(),
            w.x == self.0.x,
            w.y == self.0.y,
            w.value == self.1.packed(),
    {
        PixelWrite { x: self.0.x as usize, y: self.0.y as usize, value: self.1.pack() }
    }
}

impl PixelWrite {
    /// The write lands on a panel of the given width and height.
    pub open spec fn lands_on(self, width: int, height: int) -> bool {
        self.x < width && self.y < height
    }

    /// The place of the written pixel in a row-major frame buffer of the
    /// given width.
    pub open spec fn cell(self, width: int) -> int {
        self.x + width * self.y
    }
}

/// The writes that draw the given pixels, one for one and in their order.
pub open spec fn writes_of(pixels: Seq<Pixel>) -> Seq<PixelWrite> {
    pixels.map_values(|px: Pixel| px.spec_write())
}

/// A frame buffer after one write. A write whose cell the buffer does not
/// have changes nothing.
pub open spec fn apply_write(frame: Seq<u16>, width: int, w: PixelWrite) -> Seq<u16> {
    if 0 <= w.cell(width) < frame.len() {
        frame.update(w.cell(width), w.value)
    } else {
        frame
    }
}

/// A frame buffer after a sequence of writes, made in their order.
pub open spec fn apply_writes(frame: Seq<u16>, width: int, writes: Seq<PixelWrite>) -> Seq<u16>
    decreases writes.len(),
{
    if writes.len() == 0 {
        frame
    } else {
        apply_write(apply_writes(frame, width, writes.drop_last()), width, writes.last())
    }
}

/// Writing `writes` and then one write more.
pub proof fn lemma_apply_writes_push(
    frame: Seq<u16>,
    width: int,
    writes: Seq<PixelWrite>,
    w: PixelWrite,
)
    ensures
        apply_writes(frame, width, writes.push(w)) == apply_write(
            apply_writes(frame, width, writes),
            width,
            w,
        ),
{
    assert(writes.push(w).drop_last() =~= writes);
}

} // verus!
