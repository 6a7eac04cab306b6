//! The display controller as the draw target sees it: one layer with its
//! frame buffer, and the steps that bring the layer to the screen.
//!
//! The layer is bound to a frame buffer, then enabled, then committed by a
//! reload. Pixels can be written once that is done. The frame buffer is
//! row-major: the pixel in column `x` of row `y` is at `x + width * y`.
//!
//! The controller here keeps the frame buffer in memory and drives no
//! hardware; it also keeps, for proofs, the writes that were made to it.

use vstd::prelude::*;
use crate::config::DisplayConfig;
use crate::pixel::{apply_write, PixelWrite};

verus! {

/// Stores one value in a frame buffer.
fn store(frame: &mut Vec<u16>, cell: usize, value: u16)
    requires
        cell < old(frame).len(),
    ensures
        final(frame)@ == old(frame)@.update(cell as int, value),
    no_unwind
{
    frame[cell] = value;
}

/// A display controller with one layer, and the frame buffer of that layer.
pub struct DisplayController {
    config: DisplayConfig,
    frame: Vec<u16>,
    bound: bool,
    enabled: bool,
    live: bool,
    issued: Ghost<Seq<PixelWrite>>,
}

impl DisplayController {
    #[verifier::type_invariant]
    spec fn inv(self) -> bool {
        &&& self.frame@.len() == (if self.bound {
            self.config.frame_len()
        } else {
            0
        })
        &&& self.enabled ==> self.bound
        &&& self.live ==> self.enabled
    }

    /// The configuration that the controller was made with.
    pub closed spec fn config(self) -> DisplayConfig {
        self.config
    }

    /// A frame buffer is bound to the layer.
    pub closed spec fn layer_bound(self) -> bool {
        self.bound
    }

    /// The layer is enabled.
    pub closed spec fn layer_enabled(self) -> bool {
        self.enabled
    }

    /// The enabled layer has been committed: it is on the screen, and pixels
    /// can be written.
    pub closed spec fn live(self) -> bool {
        self.live
    }

    /// The contents of the frame buffer; empty while none is bound.
    pub closed spec fn frame(self) -> Seq<u16> {
        self.frame@
    }

    /// The pixel writes made so far, in their order.
    pub closed spec fn written(self) -> Seq<PixelWrite> {
        self.issued@
    }

    /// A controller for a panel of the given configuration. Its layer has no
    /// frame buffer yet.
    pub fn new(config: DisplayConfig) -> (c: DisplayController)
        ensures
            c.config() == config,
            !c.layer_bound(),
            !c.layer_enabled(),
            !c.live(),
            c.frame() == Seq::<u16>::empty(),
            c.written() == Seq::<PixelWrite>::empty(),
    {
        DisplayController {
            config,
            frame: Vec::new(),
            bound: false,
            enabled: false,
            live: false,
            issued: Ghost(Seq::empty()),
        }
    }

    /// Binds a frame buffer to the layer. The buffer holds one value for
    /// each pixel of the active area.
    pub fn config_layer(&mut self, buffer: Vec<u16>)
        requires
            !old(self).layer_bound(),
            buffer@.len() == old(self).config().frame_len(),
        ensures
            final(self).config() == old(self).config(),
            final(self).layer_bound(),
            final(self).layer_enabled() == old(self).layer_enabled(),
            final(self).live() == old(self).live(),
            final(self).frame() == buffer@,
            final(self).written() == old(self).written(),
    {
        proof {
            use_type_invariant(&*self);
        }
        *self = DisplayController {
            config: self.config,
            frame: buffer,
            bound: true,
            enabled: self.enabled,
            live: self.live,
            issued: Ghost(self.issued@),
        };
    }

    /// Enables the layer. It needs its frame buffer first.
    pub fn enable_layer(&mut self)
        requires
            old(self).layer_bound(),
        ensures
            final(self).config() == old(self).config(),
            final(self).layer_bound(),
            final(self).layer_enabled(),
            final(self).live() == old(self).live(),
            final(self).frame() == old(self).frame(),
            final(self).written() == old(self).written(),
    {
        proof {
            use_type_invariant(&*self);
        }
        self.enabled = true;
    }

    /// Commits the configuration of the layer: an enabled layer is live from
    /// here on.
    pub fn reload(&mut self)
        ensures
            final(self).config() == old(self).config(),
            final(self).layer_bound() == old(self).layer_bound(),
            final(self).layer_enabled() == old(self).layer_enabled(),
            final(self).live() == old(self).layer_enabled(),
            final(self).frame() == old(self).frame(),
            final(self).written() == old(self).written(),
    {
        proof {
            use_type_invariant(&*self);
        }
        if self.enabled {
            self.live = true;
        }
    }

    /// Writes one pixel of the live layer.
    pub fn draw_pixel(&mut self, x: usize, y: usize, color: u16)
        requires
            old(self).live(),
            x < old(self).config().active_width,
            y < old(self).config().active_height,
        ensures
            final(self).config() == old(self).config(),
            final(self).layer_bound(),
            final(self).layer_enabled(),
            final(self).live(),
            final(self).frame() == apply_write(
                old(self).frame(),
                old(self).config().active_width as int,
                PixelWrite { x, y, value: color },
            ),
            final(self).frame().len() == old(self).frame().len(),
            final(self).written() == old(self).written().push(PixelWrite { x, y, value: color }),
        no_unwind
    {
        proof {
            use_type_invariant(&*self);
        }
        let width: usize = self.config.active_width as usize;
        assert(x + width * y < self.config.active_width * self.config.active_height
            && self.config.active_width * self.config.active_height <= 0xFFFF * 0xFFFF)
            by (nonlinear_arith)
            requires
                x < self.config.active_width,
                y < self.config.active_height,
                width == self.config.active_width,
                self.config.active_height <= 0xFFFF,
                self.config.active_width <= 0xFFFF,
        ;
        store(&mut self.frame, x + width * y, color);
        self.issued = Ghost(self.issued@.push(PixelWrite { x, y, value: color }));
    }

    /// The value of the pixel in column `x` of row `y`, if the layer has a
    /// frame buffer and the pixel lies on the panel.
    pub fn pixel(&self, x: usize, y: usize) -> (value: Option<u16>)
        ensures
            value == (if self.layer_bound() && x < self.config().active_width && y
                < self.config().active_height {
                Some(self.frame()[x + self.config().active_width * y])
            } else {
                None
            }),
    {
        proof {
            use_type_invariant(self);
        }
        if self.bound && x < self.config.active_width as usize && y
            < self.config.active_height as usize {
            let width: usize = self.config.active_width as usize;
            assert(x + width * y < self.config.active_width * self.config.active_height
                && self.config.active_width * self.config.active_height <= 0xFFFF * 0xFFFF)
                by (nonlinear_arith)
                requires
                    x < self.config.active_width,
                    y < self.config.active_height,
                    width == self.config.active_width,
                    self.config.active_height <= 0xFFFF,
                    self.config.active_width <= 0xFFFF,
            ;
            Some(self.frame[x + width * y])
        } else {
            None
        }
    }
}

} // verus!
