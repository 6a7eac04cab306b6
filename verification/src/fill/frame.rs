//! What a fill does to the frame buffer, pixel by pixel.

use vstd::prelude::*;
use crate::color::Rgb565;
use crate::fill::pixels::{
    lemma_clipped_none, lemma_clipped_push, lemma_paired_take_next, lemma_writes_of_push,
};
use crate::fill::{clipped, fill_writes, paired, panel, repeated, solid_writes};
use crate::geometry::{lemma_offset_of_inside, lemma_point_at_inside, Point, Rectangle, Size};
use crate::pixel::{apply_writes, lemma_apply_writes_push, writes_of, Pixel};

verus! {

/// The place of a point in a row-major frame buffer of the given width.
pub open spec fn cell_of(p: Point, width: int) -> int {
    p.x + width * p.y
}

/// The value at a point of the panel after a fill of `area` with `colors`:
/// the colour at the point's place in the area, if the point lies in the
/// area and the colours reach that far, and else what the frame buffer held.
pub open spec fn filled_value(
    frame: Seq<u16>,
    area: Rectangle,
    colors: Seq<Rgb565>,
    width: int,
    p: Point,
) -> u16 {
    if area.spec_contains(p) && area.offset_of(p) < colors.len() {
        colors[area.offset_of(p)].packed()
    } else {
        frame[cell_of(p, width)]
    }
}

/// Two points of a panel have the same cell only if they are the same.
proof fn lemma_cell_of_injective(size: Size, p: Point, q: Point)
    requires
        panel(size).spec_contains(p),
        panel(size).spec_contains(q),
        cell_of(p, size.width as int) == cell_of(q, size.width as int),
    ensures
        p == q,
        0 <= cell_of(p, size.width as int) < panel(size).area(),
{
    let w = size.width as int;
    let h = size.height as int;
    let (px, py, qx, qy) = (p.x as int, p.y as int, q.x as int, q.y as int);
    assert(px == qx && py == qy && 0 <= px + w * py < w * h) by (nonlinear_arith)
        requires
            0 <= px < w,
            0 <= qx < w,
            0 <= py < h,
            0 <= qy < h,
            px + w * py == qx + w * qy,
    ;
}

/// The frame buffer after the first `n` steps of a fill.
proof fn lemma_fill_prefix_frame(
    frame: Seq<u16>,
    area: Rectangle,
    colors: Seq<Rgb565>,
    size: Size,
    n: int,
)
    requires
        area.valid(),
        panel(size).valid(),
        frame.len() == panel(size).area(),
        0 <= n <= paired(area.spec_points(), colors).len(),
    ensures
        apply_writes(
            frame,
            size.width as int,
            writes_of(clipped(paired(area.spec_points(), colors).take(n), panel(size))),
        ).len() == frame.len(),
        forall|p: Point| #[trigger]
            panel(size).spec_contains(p) ==> apply_writes(
                frame,
                size.width as int,
                writes_of(clipped(paired(area.spec_points(), colors).take(n), panel(size))),
            )[cell_of(p, size.width as int)] == (if area.spec_contains(p) && area.offset_of(p)
                < n {
                colors[area.offset_of(p)].packed()
            } else {
                frame[cell_of(p, size.width as int)]
            }),
    decreases n,
{
    let w = size.width as int;
    let bounds = panel(size);
    let pairs = paired(area.spec_points(), colors);
    if n == 0 {
        assert(pairs.take(0) =~= Seq::<Pixel>::empty());
        lemma_clipped_none(pairs.take(0), bounds);
        assert forall|p: Point| #[trigger] bounds.spec_contains(p) implies !(area.spec_contains(p)
            && area.offset_of(p) < 0) by {
            if area.spec_contains(p) {
                lemma_offset_of_inside(area, p);
            }
        }
    } else {
        let done = pairs.take(n - 1);
        let q = area.point_at(n - 1);
        let px = Pixel(q, colors[n - 1]);
        let before = apply_writes(frame, w, writes_of(clipped(done, bounds)));
        let after = apply_writes(frame, w, writes_of(clipped(pairs.take(n), bounds)));
        lemma_fill_prefix_frame(frame, area, colors, size, n - 1);
        lemma_point_at_inside(area, n - 1);
        lemma_paired_take_next(area.spec_points(), colors, n - 1);
        lemma_clipped_push(done, px, bounds);
        if bounds.spec_contains(q) {
            lemma_writes_of_push(clipped(done, bounds), px);
            lemma_apply_writes_push(frame, w, writes_of(clipped(done, bounds)), px.spec_write());
            lemma_cell_of_injective(size, q, q);
            assert(px.spec_write().cell(w) == cell_of(q, w));
            assert(after == before.update(cell_of(q, w), colors[n - 1].packed()));
        } else {
            assert(after == before);
        }
        assert forall|p: Point| #[trigger] bounds.spec_contains(p) implies after[cell_of(p, w)]
            == (if area.spec_contains(p) && area.offset_of(p) < n {
            colors[area.offset_of(p)].packed()
        } else {
            frame[cell_of(p, w)]
        }) by {
            lemma_cell_of_injective(size, p, p);
            if area.spec_contains(p) {
                lemma_offset_of_inside(area, p);
            }
            if p == q {
            } else {
                if bounds.spec_contains(q) && cell_of(p, w) == cell_of(q, w) {
                    lemma_cell_of_injective(size, p, q);
                }
                assert(after[cell_of(p, w)] == before[cell_of(p, w)]);
            }
        }
    }
}

/// What a fill does to the frame buffer, pixel by pixel: a pixel in the
/// area gets the colour at its place in row-major order, if the colours
/// reach that far; every other pixel keeps its value.
pub proof fn lemma_fill_frame(frame: Seq<u16>, area: Rectangle, colors: Seq<Rgb565>, size: Size)
    requires
        area.valid(),
        panel(size).valid(),
        frame.len() == panel(size).area(),
    ensures
        apply_writes(frame, size.width as int, fill_writes(area, colors, panel(size))).len()
            == frame.len(),
        forall|p: Point| #[trigger]
            panel(size).spec_contains(p) ==> apply_writes(
                frame,
                size.width as int,
                fill_writes(area, colors, panel(size)),
            )[cell_of(p, size.width as int)] == filled_value(
                frame,
                area,
                colors,
                size.width as int,
                p,
            ),
{
    let pairs = paired(area.spec_points(), colors);
    lemma_fill_prefix_frame(frame, area, colors, size, pairs.len() as int);
    assert(pairs.take(pairs.len() as int) =~= pairs);
    assert forall|p: Point| #[trigger] panel(size).spec_contains(p) implies (area.spec_contains(p)
        && area.offset_of(p) < pairs.len()) == (area.spec_contains(p) && area.offset_of(p)
        < colors.len()) by {
        if area.spec_contains(p) {
            lemma_offset_of_inside(area, p);
        }
    }
}

/// What a fill with one colour does to the frame buffer, pixel by pixel: a
/// pixel in the area gets that colour; every other pixel keeps its value.
pub proof fn lemma_solid_frame(frame: Seq<u16>, area: Rectangle, color: Rgb565, size: Size)
    requires
        area.valid(),
        panel(size).valid(),
        frame.len() == panel(size).area(),
    ensures
        apply_writes(frame, size.width as int, solid_writes(area, color, panel(size))).len()
            == frame.len(),
        forall|p: Point| #[trigger]
            panel(size).spec_contains(p) ==> apply_writes(
                frame,
                size.width as int,
                solid_writes(area, color, panel(size)),
            )[cell_of(p, size.width as int)] == (if area.spec_contains(p) {
                color.packed()
            } else {
                frame[cell_of(p, size.width as int)]
            }),
{
    let colors = repeated(color, area.area());
    lemma_fill_frame(frame, area, colors, size);
    assert forall|p: Point| #[trigger] panel(size).spec_contains(p) implies filled_value(
        frame,
        area,
        colors,
        size.width as int,
        p,
    ) == (if area.spec_contains(p) {
        color.packed()
    } else {
        frame[cell_of(p, size.width as int)]
    }) by {
        if area.spec_contains(p) {
            lemma_offset_of_inside(area, p);
        }
    }
}

/// After a fill of the whole panel with one colour, every pixel of the
/// frame buffer has that colour, whatever it held before.
pub proof fn lemma_full_fill_frame(frame: Seq<u16>, size: Size, color: Rgb565)
    requires
        panel(size).valid(),
        frame.len() == panel(size).area(),
    ensures
        apply_writes(frame, size.width as int, solid_writes(panel(size), color, panel(size)))
            == Seq::new(frame.len(), |i: int| color.packed()),
{
    let whole = panel(size);
    let w = size.width as int;
    let after = apply_writes(frame, w, solid_writes(whole, color, whole));
    lemma_solid_frame(frame, whole, color, size);
    assert forall|i: int| 0 <= i < after.len() implies after[i] == color.packed() by {
        let p = whole.point_at(i);
        lemma_point_at_inside(whole, i);
        assert(whole.spec_contains(p));
        assert(cell_of(p, w) == i) by (nonlinear_arith)
            requires
                cell_of(p, w) == i % w + w * (i / w),
                w > 0,
        ;
    }
    assert(after =~= Seq::new(frame.len(), |i: int| color.packed()));
}

/// Filling the whole panel with one colour twice leaves the frame buffer
/// as filling it once does.
pub proof fn lemma_full_fill_idempotent(frame: Seq<u16>, size: Size, color: Rgb565)
    requires
        panel(size).valid(),
        frame.len() == panel(size).area(),
    ensures
        apply_writes(
            apply_writes(frame, size.width as int, solid_writes(panel(size), color, panel(size))),
            size.width as int,
            solid_writes(panel(size), color, panel(size)),
        ) == apply_writes(
            frame,
            size.width as int,
            solid_writes(panel(size), color, panel(size)),
        ),
{
    let once = apply_writes(
        frame,
        size.width as int,
        solid_writes(panel(size), color, panel(size)),
    );
    lemma_full_fill_frame(frame, size, color);
    lemma_full_fill_frame(once, size, color);
}

} // verus!
