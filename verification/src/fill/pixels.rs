//! What a fill draws: only inside the area and on the panel, everything of
//! an area that lies on the panel, and every pixel of the panel exactly once
//! when the whole panel is filled.

use vstd::prelude::*;
use crate::color::Rgb565;
use crate::fill::{
    clipped, fill_pixels, fill_writes, inside, paired, panel, repeated, solid_pixels,
    solid_writes,
};
use crate::geometry::{lemma_offset_of_inside, lemma_point_at_inside, Point, Rectangle, Size};
use crate::pixel::{writes_of, Pixel, PixelWrite};

verus! {

/// The first `i + 1` pairs are the first `i` pairs and the `i`-th one.
pub proof fn lemma_paired_take_next(points: Seq<Point>, colors: Seq<Rgb565>, i: int)
    requires
        0 <= i < points.len(),
        i < colors.len(),
    ensures
        paired(points, colors).take(i + 1) == paired(points, colors).take(i).push(
            Pixel(points[i], colors[i]),
        ),
{
    assert(paired(points, colors).take(i + 1) =~= paired(points, colors).take(i).push(
        Pixel(points[i], colors[i]),
    ));
}

/// Clipping one pixel more: it is kept if it lies inside the bounds.
pub proof fn lemma_clipped_push(pixels: Seq<Pixel>, px: Pixel, bounds: Rectangle)
    ensures
        clipped(pixels.push(px), bounds) == (if bounds.spec_contains(px.0) {
            clipped(pixels, bounds).push(px)
        } else {
            clipped(pixels, bounds)
        }),
{
    pixels.lemma_filter_push(px, inside(bounds));
}

/// The writes for one pixel more.
pub proof fn lemma_writes_of_push(pixels: Seq<Pixel>, px: Pixel)
    ensures
        writes_of(pixels.push(px)) == writes_of(pixels).push(px.spec_write()),
{
    assert(writes_of(pixels.push(px)) =~= writes_of(pixels).push(px.spec_write()));
}

/// Clipping keeps pixels that all lie inside the bounds as they are.
pub proof fn lemma_clipped_all(pixels: Seq<Pixel>, bounds: Rectangle)
    requires
        forall|i: int| 0 <= i < pixels.len() ==> bounds.spec_contains(#[trigger] pixels[i].0),
    ensures
        clipped(pixels, bounds) == pixels,
    decreases pixels.len(),
{
    if pixels.len() == 0 {
        assert(pixels.filter(inside(bounds)).len() <= pixels.len()) by {
            pixels.lemma_filter_len(inside(bounds));
        }
        assert(clipped(pixels, bounds) =~= pixels);
    } else {
        let rest = pixels.drop_last();
        assert forall|i: int| 0 <= i < rest.len() implies bounds.spec_contains(
            #[trigger] rest[i].0,
        ) by {
            assert(rest[i] == pixels[i]);
        }
        lemma_clipped_all(rest, bounds);
        lemma_clipped_push(rest, pixels.last(), bounds);
        assert(rest.push(pixels.last()) =~= pixels);
    }
}

/// Clipping keeps none of pixels that all lie outside the bounds.
pub proof fn lemma_clipped_none(pixels: Seq<Pixel>, bounds: Rectangle)
    requires
        forall|i: int| 0 <= i < pixels.len() ==> !bounds.spec_contains(#[trigger] pixels[i].0),
    ensures
        clipped(pixels, bounds) == Seq::<Pixel>::empty(),
    decreases pixels.len(),
{
    if pixels.len() == 0 {
        assert(pixels.filter(inside(bounds)).len() <= pixels.len()) by {
            pixels.lemma_filter_len(inside(bounds));
        }
        assert(clipped(pixels, bounds) =~= Seq::<Pixel>::empty());
    } else {
        let rest = pixels.drop_last();
        assert forall|i: int| 0 <= i < rest.len() implies !bounds.spec_contains(
            #[trigger] rest[i].0,
        ) by {
            assert(rest[i] == pixels[i]);
        }
        lemma_clipped_none(rest, bounds);
        lemma_clipped_push(rest, pixels.last(), bounds);
        assert(rest.push(pixels.last()) =~= pixels);
    }
}

/// Every pixel that clipping keeps lies inside the bounds and is one of
/// the pixels that were clipped.
pub proof fn lemma_clipped_member(pixels: Seq<Pixel>, bounds: Rectangle, i: int)
    requires
        0 <= i < clipped(pixels, bounds).len(),
    ensures
        bounds.spec_contains(clipped(pixels, bounds)[i].0),
        exists|j: int| 0 <= j < pixels.len() && pixels[j] == clipped(pixels, bounds)[i],
{
    let kept = pixels.filter(inside(bounds));
    pixels.lemma_filter_pred(inside(bounds), i);
    assert(kept.contains(kept[i]));
    pixels.lemma_filter_contains_rev(inside(bounds), kept[i]);
}

/// A fill draws only inside the area and inside the panel, and what it
/// draws at a point is the colour at the point's place in row-major order.
pub proof fn lemma_fill_draws_inside(
    area: Rectangle,
    colors: Seq<Rgb565>,
    bounds: Rectangle,
    i: int,
)
    requires
        area.valid(),
        0 <= i < fill_pixels(area, colors, bounds).len(),
    ensures
        area.spec_contains(fill_pixels(area, colors, bounds)[i].0),
        bounds.spec_contains(fill_pixels(area, colors, bounds)[i].0),
        0 <= area.offset_of(fill_pixels(area, colors, bounds)[i].0) < colors.len(),
        fill_pixels(area, colors, bounds)[i].1 == colors[area.offset_of(
            fill_pixels(area, colors, bounds)[i].0,
        )],
{
    let pairs = paired(area.spec_points(), colors);
    let px = fill_pixels(area, colors, bounds)[i];
    lemma_clipped_member(pairs, bounds, i);
    let j = choose|j: int| 0 <= j < pairs.len() && pairs[j] == px;
    lemma_point_at_inside(area, j);
}

/// Where the area and the panel share no point, a fill draws nothing.
pub proof fn lemma_fill_draws_nothing_outside(
    area: Rectangle,
    colors: Seq<Rgb565>,
    bounds: Rectangle,
)
    requires
        area.valid(),
        !area.overlaps(bounds),
    ensures
        fill_pixels(area, colors, bounds) == Seq::<Pixel>::empty(),
        fill_writes(area, colors, bounds) == Seq::<PixelWrite>::empty(),
{
    let pairs = paired(area.spec_points(), colors);
    assert forall|i: int| 0 <= i < pairs.len() implies !bounds.spec_contains(
        #[trigger] pairs[i].0,
    ) by {
        lemma_point_at_inside(area, i);
    }
    lemma_clipped_none(pairs, bounds);
    assert(fill_writes(area, colors, bounds) =~= Seq::<PixelWrite>::empty());
}

/// Where the area lies wholly on the panel, a fill draws the points of the
/// area in row-major order, the `k`-th of them in the `k`-th colour, as far
/// as the colours reach.
pub proof fn lemma_fill_draws_all_within(area: Rectangle, colors: Seq<Rgb565>, bounds: Rectangle)
    requires
        area.valid(),
        area.within(bounds),
    ensures
        fill_pixels(area, colors, bounds) == paired(area.spec_points(), colors),
        colors.len() >= area.area() ==> fill_pixels(area, colors, bounds).len() == area.area(),
        forall|k: int|
            0 <= k < area.area() && k < colors.len() ==> #[trigger] fill_pixels(
                area,
                colors,
                bounds,
            )[k] == Pixel(area.point_at(k), colors[k]),
{
    let pairs = paired(area.spec_points(), colors);
    assert forall|i: int| 0 <= i < pairs.len() implies bounds.spec_contains(
        #[trigger] pairs[i].0,
    ) by {
        lemma_point_at_inside(area, i);
    }
    lemma_clipped_all(pairs, bounds);
}

/// A fill with one colour is a fill with that colour repeated, however
/// often, as long as there is one for each point of the area.
pub proof fn lemma_solid_is_fill_with_repeated(
    area: Rectangle,
    color: Rgb565,
    bounds: Rectangle,
    n: nat,
)
    requires
        n >= area.area(),
    ensures
        fill_pixels(area, repeated(color, n), bounds) == solid_pixels(area, color, bounds),
        fill_writes(area, repeated(color, n), bounds) == solid_writes(area, color, bounds),
{
    assert(paired(area.spec_points(), repeated(color, n)) =~= paired(
        area.spec_points(),
        repeated(color, area.area()),
    ));
}

/// Every pixel that a fill with one colour draws has that colour, and its
/// write carries the packed form of it.
pub proof fn lemma_solid_draws_one_color(
    area: Rectangle,
    color: Rgb565,
    bounds: Rectangle,
    i: int,
)
    requires
        area.valid(),
        0 <= i < solid_pixels(area, color, bounds).len(),
    ensures
        solid_pixels(area, color, bounds)[i].1 == color,
        solid_writes(area, color, bounds)[i].value == color.packed(),
{
    lemma_fill_draws_inside(area, repeated(color, area.area()), bounds, i);
}

/// The write that a fill of the whole panel with one colour makes `k`-th.
pub open spec fn full_write(size: Size, color: Rgb565, k: int) -> PixelWrite {
    PixelWrite {
        x: (k % (size.width as int)) as usize,
        y: (k / (size.width as int)) as usize,
        value: color.packed(),
    }
}

/// A fill of the whole panel with one colour writes the pixels of the
/// panel in row-major order: the `k`-th write goes to column `k % width` of
/// row `k / width`.
pub proof fn lemma_full_fill_writes(size: Size, color: Rgb565)
    requires
        panel(size).valid(),
    ensures
        solid_writes(panel(size), color, panel(size)) == Seq::new(
            panel(size).area(),
            |k: int| full_write(size, color, k),
        ),
{
    let whole = panel(size);
    let colors = repeated(color, whole.area());
    lemma_fill_draws_all_within(whole, colors, whole);
    let writes = solid_writes(whole, color, whole);
    assert forall|k: int| 0 <= k < whole.area() implies #[trigger] writes[k] == full_write(
        size,
        color,
        k,
    ) by {
        lemma_point_at_inside(whole, k);
        assert(fill_pixels(whole, colors, whole)[k] == Pixel(whole.point_at(k), colors[k]));
    }
    assert(writes =~= Seq::new(whole.area(), |k: int| full_write(size, color, k)));
}

/// A fill of the whole panel with one colour writes every pixel of the
/// panel exactly once, and each with that colour: every write lands on the
/// panel, the pixel at a point is written by the write at the point's
/// offset, and no two writes go to the same pixel.
pub proof fn lemma_full_fill_writes_each_pixel_once(size: Size, color: Rgb565)
    requires
        panel(size).valid(),
    ensures
        solid_writes(panel(size), color, panel(size)).len() == panel(size).area(),
        forall|k: int|
            0 <= k < panel(size).area() ==> (#[trigger] solid_writes(
                panel(size),
                color,
                panel(size),
            )[k]).lands_on(size.width as int, size.height as int),
        forall|k: int|
            0 <= k < panel(size).area() ==> (#[trigger] solid_writes(
                panel(size),
                color,
                panel(size),
            )[k]).value == color.packed(),
        forall|p: Point| #[trigger]
            panel(size).spec_contains(p) ==> solid_writes(panel(size), color, panel(size))[panel(
                size,
            ).offset_of(p)] == Pixel(p, color).spec_write(),
        forall|i: int, j: int|
            0 <= i < j < panel(size).area() ==> !({
                &&& (#[trigger] solid_writes(panel(size), color, panel(size))[i]).x
                    == (#[trigger] solid_writes(panel(size), color, panel(size))[j]).x
                &&& solid_writes(panel(size), color, panel(size))[i].y == solid_writes(
                    panel(size),
                    color,
                    panel(size),
                )[j].y
            }),
{
    let whole = panel(size);
    let writes = solid_writes(whole, color, whole);
    let w = size.width as int;
    lemma_full_fill_writes(size, color);
    assert forall|k: int| 0 <= k < whole.area() implies (#[trigger] writes[k]).lands_on(
        w,
        size.height as int,
    ) by {
        lemma_point_at_inside(whole, k);
    }
    assert forall|p: Point| #[trigger] whole.spec_contains(p) implies writes[whole.offset_of(p)]
        == Pixel(p, color).spec_write() by {
        lemma_offset_of_inside(whole, p);
        lemma_point_at_inside(whole, whole.offset_of(p));
    }
    assert forall|i: int, j: int| 0 <= i < j < whole.area() implies !((#[trigger] writes[i]).x
        == (#[trigger] writes[j]).x && writes[i].y == writes[j].y) by {
        lemma_point_at_inside(whole, i);
        lemma_point_at_inside(whole, j);
    }
}

} // verus!
