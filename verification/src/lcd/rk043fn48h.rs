//! The Rocktech RK043FN48H panel: 480 by 272 pixels, RGB565, one layer.

use vstd::prelude::*;
use core::convert::Infallible;
use crate::color::Rgb565;
use crate::config::DisplayConfig;
use crate::controller::DisplayController;
use crate::fill::frame::{
    cell_of, filled_value, lemma_fill_frame, lemma_full_fill_frame, lemma_solid_frame,
};
use crate::fill::pixels::{
    full_write, lemma_clipped_none, lemma_clipped_push, lemma_fill_draws_nothing_outside,
    lemma_full_fill_writes, lemma_paired_take_next, lemma_writes_of_push,
};
use crate::fill::{clipped, fill_writes, paired, panel, repeated, solid_writes, ClippedFill};
use crate::geometry::{lemma_point_at_inside, Point, Rectangle, Size};
use crate::lcd::Lcd;
use crate::pixel::{apply_writes, lemma_apply_writes_push, writes_of, Pixel, PixelWrite};

verus! {

/// The width of the panel, in pixels.
pub const RK043FN48H_WIDTH: u16 = 480;

/// The height of the panel, in pixels.
pub const RK043FN48H_HEIGHT: u16 = 272;

/// The number of pixels of the panel, which is the length of its frame
/// buffer.
pub const FB_SIZE: usize = 130_560;

/// The frequency of the external clock that the controller derives the
/// pixel clock from, in hertz. The clock is fed in bypass mode.
pub const HSE_FREQUENCY_HZ: u32 = 25_000_000;

/// The configuration of the panel.
pub open spec fn panel_config() -> DisplayConfig {
    DisplayConfig {
        active_width: RK043FN48H_WIDTH,
        active_height: RK043FN48H_HEIGHT,
        h_back_porch: 13,
        h_front_porch: 30,
        h_sync: 41,
        v_back_porch: 2,
        v_front_porch: 2,
        v_sync: 10,
        frame_rate: 60,
        h_sync_pol: false,
        v_sync_pol: false,
        no_data_enable_pol: false,
        pixel_clock_pol: false,
    }
}

/// The size of the panel.
pub open spec fn panel_size() -> Size {
    panel_config().spec_size()
}

/// The rectangle that the panel covers.
pub open spec fn panel_bounds() -> Rectangle {
    panel(panel_size())
}

/// The place of a point of the panel in its frame buffer.
pub open spec fn panel_cell(p: Point) -> int {
    cell_of(p, RK043FN48H_WIDTH as int)
}

/// The frame buffer of the panel after the given writes, made in their
/// order.
pub open spec fn panel_after(frame: Seq<u16>, writes: Seq<PixelWrite>) -> Seq<u16> {
    apply_writes(frame, RK043FN48H_WIDTH as int, writes)
}

/// The panel has as many pixels as its frame buffer has values, and its
/// bounds are a valid rectangle.
pub proof fn lemma_panel_area()
    ensures
        panel_size() == (Size { width: 480, height: 272 }),
        panel_bounds().area() == FB_SIZE,
        panel_bounds().valid(),
        panel_config().frame_len() == FB_SIZE,
{
    let w = panel_size().width as int;
    let h = panel_size().height as int;
    assert(w * h == 130_560) by (nonlinear_arith)
        requires
            w == 480,
            h == 272,
    ;
}

/// The draw target for the panel: its configuration, and the controller
/// with the one layer that is drawn to.
pub struct Rk043fn48h {
    config: DisplayConfig,
    controller: DisplayController,
}

impl Rk043fn48h {
    #[verifier::type_invariant]
    spec fn inv(self) -> bool {
        &&& self.config == panel_config()
        &&& self.controller.config() == panel_config()
        &&& self.controller.layer_bound()
        &&& self.controller.layer_enabled()
        &&& self.controller.live()
        &&& self.controller.frame().len() == FB_SIZE
    }

    /// The contents of the frame buffer, row by row.
    pub closed spec fn frame(self) -> Seq<u16> {
        self.controller.frame()
    }

    /// The pixel writes made so far, in their order.
    pub closed spec fn written(self) -> Seq<PixelWrite> {
        self.controller.written()
    }

    /// Brings the display up: makes the controller with the configuration
    /// of the panel, binds a cleared frame buffer to its layer, enables the
    /// layer and commits it.
    pub fn new() -> (lcd: Rk043fn48h)
        ensures
            lcd.frame() == Seq::new(FB_SIZE as nat, |i: int| 0u16),
            lcd.frame().len() == FB_SIZE,
            lcd.written() == Seq::<PixelWrite>::empty(),
    {
        let config = Rk043fn48h::get_config();
        let mut controller = DisplayController::new(Rk043fn48h::get_config());
        let buffer: Vec<u16> = vec![0u16; FB_SIZE];
        assert(buffer@ =~= Seq::new(FB_SIZE as nat, |i: int| 0u16));
        controller.config_layer(buffer);
        controller.enable_layer();
        controller.reload();
        Rk043fn48h { config, controller }
    }

    /// The configuration that the display was brought up with.
    pub fn config(&self) -> (c: DisplayConfig)
        ensures
            c == panel_config(),
    {
        proof {
            use_type_invariant(self);
        }
        self.config
    }

    /// The controller of the display: its layer is bound, enabled and live.
    pub fn controller(&self) -> (c: &DisplayController)
        ensures
            c.config() == panel_config(),
            c.layer_bound(),
            c.layer_enabled(),
            c.live(),
            c.frame() == self.frame(),
            c.written() == self.written(),
    {
        proof {
            use_type_invariant(self);
        }
        &self.controller
    }

    /// The size of the panel.
    pub fn size(&self) -> (s: Size)
        ensures
            s == panel_size(),
    {
        proof {
            use_type_invariant(self);
        }
        self.config.size()
    }

    /// The rectangle that the panel covers.
    pub fn bounding_box(&self) -> (r: Rectangle)
        ensures
            r == panel_bounds(),
    {
        Rectangle::new(Point::zero(), self.size())
    }

    /// The value of the pixel in column `x` of row `y`, if there is such a
    /// pixel.
    pub fn pixel(&self, x: usize, y: usize) -> (value: Option<u16>)
        ensures
            self.frame().len() == FB_SIZE,
            value == (if x < RK043FN48H_WIDTH && y < RK043FN48H_HEIGHT {
                Some(self.frame()[x + RK043FN48H_WIDTH * y])
            } else {
                None
            }),
    {
        proof {
            use_type_invariant(self);
        }
        self.controller.pixel(x, y)
    }

    /// Makes the write that draws `pixel`, after `done` have been drawn.
    fn put(
        &mut self,
        w: PixelWrite,
        Ghost(pixel): Ghost<Pixel>,
        Ghost(frame0): Ghost<Seq<u16>>,
        Ghost(writes0): Ghost<Seq<PixelWrite>>,
        Ghost(done): Ghost<Seq<Pixel>>,
    )
        requires
            panel_bounds().spec_contains(pixel.0),
            w == pixel.spec_write(),
            old(self).written() == writes0 + writes_of(done),
            old(self).frame() == panel_after(frame0, writes_of(done)),
        ensures
            final(self).written() == writes0 + writes_of(done.push(pixel)),
            final(self).frame() == panel_after(frame0, writes_of(done.push(pixel))),
    {
        proof {
            use_type_invariant(&*self);
        }
        self.controller.draw_pixel(w.x, w.y, w.value);
        proof {
            lemma_writes_of_push(done, pixel);
            lemma_apply_writes_push(frame0, RK043FN48H_WIDTH as int, writes_of(done), w);
            assert((writes0 + writes_of(done)).push(w) =~= writes0 + writes_of(done).push(w));
        }
    }

    /// Takes one step of a fill: writes `color` at `p` if `p` lies on the
    /// panel, after the pairs `done` have been dealt with.
    fn plot(
        &mut self,
        fill: &ClippedFill,
        p: Point,
        color: Rgb565,
        Ghost(frame0): Ghost<Seq<u16>>,
        Ghost(writes0): Ghost<Seq<PixelWrite>>,
        Ghost(done): Ghost<Seq<Pixel>>,
    )
        requires
            fill.bounds() == panel_bounds(),
            fill.area().spec_contains(p),
            old(self).written() == writes0 + writes_of(clipped(done, panel_bounds())),
            old(self).frame() == panel_after(frame0, writes_of(clipped(done, panel_bounds()))),
        ensures
            final(self).written() == writes0 + writes_of(
                clipped(done.push(Pixel(p, color)), panel_bounds()),
            ),
            final(self).frame() == panel_after(
                frame0,
                writes_of(clipped(done.push(Pixel(p, color)), panel_bounds())),
            ),
    {
        proof {
            lemma_clipped_push(done, Pixel(p, color), panel_bounds());
        }
        match fill.write_for(p, color) {
            Some(w) => self.put(
                w,
                Ghost(Pixel(p, color)),
                Ghost(frame0),
                Ghost(writes0),
                Ghost(clipped(done, panel_bounds())),
            ),
            None => {},
        }
    }

    /// Draws the given pixels in their order, each at its own coordinate.
    /// Nothing is clipped: every pixel has to lie on the panel.
    pub fn draw_iter(&mut self, pixels: &[Pixel]) -> (r: Result<(), Infallible>)
        requires
            forall|i: int|
                0 <= i < pixels@.len() ==> panel_bounds().spec_contains(#[trigger] pixels@[i].0),
        ensures
            r is Ok,
            final(self).written() == old(self).written() + writes_of(pixels@),
            final(self).frame() == panel_after(old(self).frame(), writes_of(pixels@)),
            final(self).frame().len() == FB_SIZE,
    {
        let ghost writes0 = self.written();
        let ghost frame0 = self.frame();
        let mut i: usize = 0;
        proof {
            assert(pixels@.take(0) =~= Seq::<Pixel>::empty());
            assert(writes0 + writes_of(pixels@.take(0)) =~= writes0);
        }
        while i < pixels.len()
            invariant
                i <= pixels.len(),
                forall|k: int|
                    0 <= k < pixels@.len() ==> panel_bounds().spec_contains(
                        #[trigger] pixels@[k].0,
                    ),
                self.written() == writes0 + writes_of(pixels@.take(i as int)),
                self.frame() == panel_after(frame0, writes_of(pixels@.take(i as int))),
            decreases pixels.len() - i,
        {
            assert(pixels@.take(i + 1) =~= pixels@.take(i as int).push(pixels@[i as int]));
            self.put(
                pixels[i].write(),
                Ghost(pixels@[i as int]),
                Ghost(frame0),
                Ghost(writes0),
                Ghost(pixels@.take(i as int)),
            );
            i += 1;
        }
        proof {
            use_type_invariant(&*self);
            assert(pixels@.take(i as int) =~= pixels@);
        }
        Ok(())
    }

    /// Fills `area` with `colors`: the points of the area, in row-major
    /// order, take the colours in their order, one each, as far as the
    /// colours reach. Only the pixels on the panel are written: a pixel of
    /// the panel that lies in the area gets the colour at its place in the
    /// area, and every other pixel keeps its value.
    pub fn fill_contiguous(&mut self, area: &Rectangle, colors: &[Rgb565]) -> (r: Result<
        (),
        Infallible,
    >)
        requires
            area.valid(),
        ensures
            r is Ok,
            final(self).written() == old(self).written() + fill_writes(
                *area,
                colors@,
                panel_bounds(),
            ),
            final(self).frame() == panel_after(
                old(self).frame(),
                fill_writes(*area, colors@, panel_bounds()),
            ),
            final(self).frame().len() == FB_SIZE,
            forall|p: Point| #[trigger]
                panel_bounds().spec_contains(p) ==> final(self).frame()[panel_cell(p)]
                    == filled_value(old(self).frame(), *area, colors@, RK043FN48H_WIDTH as int, p),
    {
        proof {
            use_type_invariant(&*self);
        }
        let ghost writes0 = self.written();
        let ghost frame0 = self.frame();
        let ghost bounds = panel_bounds();
        let mut fill = ClippedFill::new(area, self.size());
        let ghost start = fill.pending();
        let ghost pairs = paired(start, colors@);
        let mut i: usize = 0;
        proof {
            assert(pairs.take(0) =~= Seq::<Pixel>::empty());
            lemma_clipped_none(pairs.take(0), bounds);
            assert(writes0 + writes_of(clipped(pairs.take(0), bounds)) =~= writes0);
        }
        loop
            invariant_except_break
                fill.pending() == start.skip(i as int),
            invariant
                i <= colors.len(),
                i <= start.len(),
                area.valid(),
                bounds == panel_bounds(),
                fill.area() == *area,
                fill.bounds() == bounds,
                pairs == paired(start, colors@),
                start == area.spec_points() || start.len() == 0,
                self.written() == writes0 + writes_of(clipped(pairs.take(i as int), bounds)),
                self.frame() == panel_after(
                    frame0,
                    writes_of(clipped(pairs.take(i as int), bounds)),
                ),
            ensures
                i == pairs.len(),
            decreases fill.pending().len(),
        {
            let p = match fill.next_point() {
                Some(p) => p,
                None => {
                    break ;
                },
            };
            if i >= colors.len() {
                break ;
            }
            let color = colors[i];
            proof {
                assert(p == start[i as int]);
                lemma_point_at_inside(*area, i as int);
                lemma_paired_take_next(start, colors@, i as int);
                assert(start.skip(i as int).drop_first() =~= start.skip(i + 1));
            }
            self.plot(&fill, p, color, Ghost(frame0), Ghost(writes0), Ghost(pairs.take(i as int)));
            i += 1;
        }
        proof {
            use_type_invariant(&*self);
            assert(pairs.take(i as int) =~= pairs);
            if start != area.spec_points() {
                lemma_fill_draws_nothing_outside(*area, colors@, bounds);
                lemma_clipped_none(pairs, bounds);
            }
            lemma_fill_frame(frame0, *area, colors@, panel_size());
        }
        Ok(())
    }

    /// Fills `area` with one colour, as `fill_contiguous` does with that
    /// colour repeated once for each point of the area. Only the pixels on
    /// the panel are written: a pixel of the panel that lies in the area
    /// gets the colour, and every other pixel keeps its value.
    pub fn fill_solid(&mut self, area: &Rectangle, color: Rgb565) -> (r: Result<(), Infallible>)
        requires
            area.valid(),
        ensures
            r is Ok,
            final(self).written() == old(self).written() + fill_writes(
                *area,
                repeated(color, area.area()),
                panel_bounds(),
            ),
            final(self).frame() == panel_after(
                old(self).frame(),
                fill_writes(*area, repeated(color, area.area()), panel_bounds()),
            ),
            final(self).frame().len() == FB_SIZE,
            forall|p: Point| #[trigger]
                panel_bounds().spec_contains(p) ==> final(self).frame()[panel_cell(p)] == (
                if area.spec_contains(p) {
                    color.packed()
                } else {
                    old(self).frame()[panel_cell(p)]
                }),
    {
        proof {
            use_type_invariant(&*self);
        }
        let ghost writes0 = self.written();
        let ghost frame0 = self.frame();
        let ghost bounds = panel_bounds();
        let ghost colors = repeated(color, area.area());
        let mut fill = ClippedFill::new(area, self.size());
        let ghost start = fill.pending();
        let ghost pairs = paired(start, colors);
        let ghost mut i: int = 0;
        proof {
            assert(pairs.take(0) =~= Seq::<Pixel>::empty());
            lemma_clipped_none(pairs.take(0), bounds);
            assert(writes0 + writes_of(clipped(pairs.take(0), bounds)) =~= writes0);
        }
        loop
            invariant_except_break
                fill.pending() == start.skip(i),
            invariant
                0 <= i <= start.len(),
                area.valid(),
                bounds == panel_bounds(),
                colors == repeated(color, area.area()),
                fill.area() == *area,
                fill.bounds() == bounds,
                pairs == paired(start, colors),
                start == area.spec_points() || start.len() == 0,
                self.written() == writes0 + writes_of(clipped(pairs.take(i), bounds)),
                self.frame() == panel_after(frame0, writes_of(clipped(pairs.take(i), bounds))),
            ensures
                i == pairs.len(),
            decreases fill.pending().len(),
        {
            let p = match fill.next_point() {
                Some(p) => p,
                None => {
                    break ;
                },
            };
            proof {
                assert(p == start[i]);
                lemma_point_at_inside(*area, i);
                lemma_paired_take_next(start, colors, i);
                assert(start.skip(i).drop_first() =~= start.skip(i + 1));
            }
            self.plot(&fill, p, color, Ghost(frame0), Ghost(writes0), Ghost(pairs.take(i)));
            proof {
                i = i + 1;
            }
        }
        proof {
            use_type_invariant(&*self);
            assert(pairs.take(i) =~= pairs);
            if start != area.spec_points() {
                lemma_fill_draws_nothing_outside(*area, colors, bounds);
                lemma_clipped_none(pairs, bounds);
            }
            lemma_solid_frame(frame0, *area, color, panel_size());
        }
        Ok(())
    }

    /// Fills the whole panel with one colour: every pixel of the panel is
    /// written once, in row-major order, and the frame buffer then holds
    /// that colour everywhere.
    pub fn clear(&mut self, color: Rgb565) -> (r: Result<(), Infallible>)
        ensures
            r is Ok,
            final(self).written() == old(self).written() + solid_writes(
                panel_bounds(),
                color,
                panel_bounds(),
            ),
            solid_writes(panel_bounds(), color, panel_bounds()) == Seq::new(
                FB_SIZE as nat,
                |k: int| full_write(panel_size(), color, k),
            ),
            final(self).frame() == Seq::new(FB_SIZE as nat, |i: int| color.packed()),
    {
        proof {
            use_type_invariant(&*self);
            lemma_panel_area();
            lemma_full_fill_writes(panel_size(), color);
            lemma_full_fill_frame(self.frame(), panel_size(), color);
        }
        let area = self.bounding_box();
        self.fill_solid(&area, color)
    }
}

impl Lcd for Rk043fn48h {
    type Config = DisplayConfig;

    fn get_config() -> (c: DisplayConfig)
        ensures
            c == panel_config(),
            c.valid(),
    {
        DisplayConfig {
            active_width: RK043FN48H_WIDTH,
            active_height: RK043FN48H_HEIGHT,
            h_back_porch: 13,
            h_front_porch: 30,
            h_sync: 41,
            v_back_porch: 2,
            v_front_porch: 2,
            v_sync: 10,
            frame_rate: 60,
            h_sync_pol: false,
            v_sync_pol: false,
            no_data_enable_pol: false,
            pixel_clock_pol: false,
        }
    }
}

} // verus!
