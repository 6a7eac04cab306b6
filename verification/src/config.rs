//! The timing and geometry of a panel, as the display controller takes them.

use vstd::prelude::*;
use crate::geometry::Size;

verus! {

/// Geometry, blanking intervals, refresh rate and signal polarities of a
/// panel. Lengths are in pixels horizontally and in lines vertically; a
/// polarity is `true` for active high.
#[derive(Clone, Copy, Debug, PartialEq, Eq, Structural)]
pub struct DisplayConfig {
    pub active_width: u16,
    pub active_height: u16,
    pub h_back_porch: u16,
    pub h_front_porch: u16,
    pub v_back_porch: u16,
    pub v_front_porch: u16,
    pub h_sync: u16,
    pub v_sync: u16,
    pub frame_rate: u16,
    pub h_sync_pol: bool,
    pub v_sync_pol: bool,
    pub no_data_enable_pol: bool,
    pub pixel_clock_pol: bool,
}

impl DisplayConfig {
    /// The dimensions, the porches, the sync widths and the refresh rate are
    /// all positive.
    pub open spec fn valid(self) -> bool {
        &&& self.active_width > 0
        &&& self.active_height > 0
        &&& self.h_back_porch > 0
        &&& self.h_front_porch > 0
        &&& self.v_back_porch > 0
        &&& self.v_front_porch > 0
        &&& self.h_sync > 0
        &&& self.v_sync > 0
        &&& self.frame_rate > 0
    }

    /// The number of pixels of the active area, which is the length of a
    /// frame buffer for it.
    pub open spec fn frame_len(self) -> nat {
        (self.active_width * self.active_height) as nat
    }

    /// The size of the active area.
    pub open spec fn spec_size(self) -> Size {
        Size { width: self.active_width as u32, height: self.active_height as u32 }
    }

    /// The size of the active area.
    pub fn size(&self) -> (s: Size)
        ensures
            s == self.spec_size(),
    {
        Size::new(self.active_width as u32, self.active_height as u32)
    }

    /// Whether the configuration is valid.
    pub fn is_valid(&self) -> (b: bool)
        ensures
            b == self.valid(),
    {
        self.active_width > 0 && self.active_height > 0 && self.h_back_porch > 0
            && self.h_front_porch > 0 && self.v_back_porch > 0 && self.v_front_porch > 0
            && self.h_sync > 0 && self.v_sync > 0 && self.frame_rate > 0
    }
}

} // verus!
