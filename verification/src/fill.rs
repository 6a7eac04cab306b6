//! Fills clipped to the panel: which pixels a fill draws, and a cursor that
//! yields them one at a time without holding them all.

use vstd::prelude::*;
use crate::color::Rgb565;
use crate::geometry::{eg_next_point, eg_points, remaining_points, Point, Rectangle, Size};
use crate::pixel::{writes_of, Pixel, PixelWrite};

pub mod frame;
pub mod pixels;

verus! {

/// The rectangle that a panel of the given size covers: its top left corner
/// is the origin.
pub open spec fn panel(size: Size) -> Rectangle {
    Rectangle { top_left: Point::spec_zero(), size }
}

/// The `k`-th point with the `k`-th colour, as far as both sequences reach.
pub open spec fn paired(points: Seq<Point>, colors: Seq<Rgb565>) -> Seq<Pixel> {
    Seq::new(
        if points.len() <= colors.len() {
            points.len()
        } else {
            colors.len()
        },
        |k: int| Pixel(points[k], colors[k]),
    )
}

/// Whether a pixel lies inside `bounds`.
pub open spec fn inside(bounds: Rectangle) -> spec_fn(Pixel) -> bool {
    |px: Pixel| bounds.spec_contains(px.0)
}

/// The pixels that lie inside `bounds`, in their order.
pub open spec fn clipped(pixels: Seq<Pixel>, bounds: Rectangle) -> Seq<Pixel> {
    pixels.filter(inside(bounds))
}

/// The pixels that a fill of `area` with `colors` draws on a panel that
/// covers `bounds`: each point of the area, in row-major order, takes the
/// colour at its place in `colors`, and the pixels outside the panel are
/// left out.
pub open spec fn fill_pixels(area: Rectangle, colors: Seq<Rgb565>, bounds: Rectangle) -> Seq<
    Pixel,
> {
    clipped(paired(area.spec_points(), colors), bounds)
}

/// `n` times the same colour.
pub open spec fn repeated(color: Rgb565, n: nat) -> Seq<Rgb565> {
    Seq::new(n, |k: int| color)
}

/// The pixels that a fill of `area` with one colour draws on a panel that
/// covers `bounds`.
pub open spec fn solid_pixels(area: Rectangle, color: Rgb565, bounds: Rectangle) -> Seq<Pixel> {
    fill_pixels(area, repeated(color, area.area()), bounds)
}

/// The writes that a fill of `area` with `colors` makes on a panel that
/// covers `bounds`, in their order.
pub open spec fn fill_writes(area: Rectangle, colors: Seq<Rgb565>, bounds: Rectangle) -> Seq<
    PixelWrite,
> {
    writes_of(fill_pixels(area, colors, bounds))
}

/// The writes that a fill of `area` with one colour makes on a panel that
/// covers `bounds`, in their order.
pub open spec fn solid_writes(area: Rectangle, color: Rgb565, bounds: Rectangle) -> Seq<
    PixelWrite,
> {
    writes_of(solid_pixels(area, color, bounds))
}

/// The points that an iterator, if there is one, has yet to yield.
spec fn pending_of(
    points: Option<embedded_graphics::primitives::rectangle::Points>,
) -> Seq<Point> {
    match points {
        Some(it) => remaining_points(it),
        None => Seq::empty(),
    }
}

/// Takes the next point from the iterator, if there is one.
fn next_of(points: &mut Option<embedded_graphics::primitives::rectangle::Points>) -> (p: Option<
    Point,
>)
    ensures
        pending_of(*old(points)).len() == 0 ==> p is None,
        pending_of(*old(points)).len() == 0 ==> pending_of(*final(points)) == pending_of(
            *old(points),
        ),
        pending_of(*old(points)).len() > 0 ==> p == Some(pending_of(*old(points))[0]),
        pending_of(*old(points)).len() > 0 ==> pending_of(*final(points)) == pending_of(
            *old(points),
        ).drop_first(),
    no_unwind
{
    match points {
        Some(it) => eg_next_point(it),
        None => None,
    }
}

/// A cursor over the points of a fill area, with the part of the area that
/// the panel shows.
pub struct ClippedFill {
    points: Option<embedded_graphics::primitives::rectangle::Points>,
    drawable: Rectangle,
    area: Ghost<Rectangle>,
    bounds: Ghost<Rectangle>,
}

impl ClippedFill {
    #[verifier::type_invariant]
    spec fn inv(self) -> bool {
        &&& self.drawable.valid()
        &&& self.bounds@.top_left == Point::spec_zero()
        &&& forall|p: Point|
            self.drawable.spec_contains(p) == (self.area@.spec_contains(p)
                && self.bounds@.spec_contains(p))
    }

    /// The area that is filled.
    pub closed spec fn area(self) -> Rectangle {
        self.area@
    }

    /// The rectangle that the panel covers.
    pub closed spec fn bounds(self) -> Rectangle {
        self.bounds@
    }

    /// The part of the area that the panel shows.
    pub closed spec fn clip(self) -> Rectangle {
        self.drawable
    }

    /// The points that the cursor has yet to yield, in order.
    pub closed spec fn pending(self) -> Seq<Point> {
        pending_of(self.points)
    }

    /// Starts a fill of `area` on a panel of the given size. The cursor will
    /// yield the points of the area in row-major order, or none at all if
    /// the intersection of the area and the panel has no width and no height.
    pub fn new(area: &Rectangle, size: Size) -> (fill: ClippedFill)
        requires
            area.valid(),
            panel(size).valid(),
        ensures
            fill.area() == *area,
            fill.bounds() == panel(size),
            fill.clip().valid(),
            forall|p: Point|
                fill.clip().spec_contains(p) == (area.spec_contains(p) && panel(
                    size,
                ).spec_contains(p)),
            area.overlaps(panel(size)) ==> fill.clip() == area.common_part(panel(size)),
            !area.overlaps(panel(size)) ==> fill.clip().zero_sized(),
            fill.pending() == (if fill.clip().size == Size::spec_zero() {
                Seq::<Point>::empty()
            } else {
                area.spec_points()
            }),
    {
        let bounds = Rectangle::new(Point::zero(), size);
        let drawable = area.intersection(&bounds);
        let points = if drawable.size != Size::zero() {
            Some(eg_points(area))
        } else {
            None
        };
        ClippedFill { points, drawable, area: Ghost(*area), bounds: Ghost(bounds) }
    }

    /// The next point of the area, if one is left.
    pub fn next_point(&mut self) -> (p: Option<Point>)
        ensures
            final(self).area() == old(self).area(),
            final(self).bounds() == old(self).bounds(),
            final(self).clip() == old(self).clip(),
            old(self).pending().len() == 0 ==> p is None,
            old(self).pending().len() == 0 ==> final(self).pending() == old(self).pending(),
            old(self).pending().len() > 0 ==> p == Some(old(self).pending()[0]),
            old(self).pending().len() > 0 ==> final(self).pending() == old(
                self
            ).pending().drop_first(),
    {
        proof {
            use_type_invariant(&*self);
        }
        next_of(&mut self.points)
    }

    /// The write that draws `color` at `p`, if `p` lies in the area and on
    /// the panel.
    pub fn write_for(&self, p: Point, color: Rgb565) -> (w: Option<PixelWrite>)
        ensures
            w == (if self.area().spec_contains(p) && self.bounds().spec_contains(p) {
                Some(Pixel(p, color).spec_write())
            } else {
                None
            }),
    {
        proof {
            use_type_invariant(self);
        }
        if self.drawable.contains(p) {
            Some(Pixel(p, color).write())
        } else {
            None
        }
    }
}

} // verus!
