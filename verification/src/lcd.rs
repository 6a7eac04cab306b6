//! Displays with a fixed configuration.

use vstd::prelude::*;

pub mod rk043fn48h;

verus! {

/// The display of the STM32F746G Discovery board.
pub type Stm32F746DiscoLcd = rk043fn48h::Rk043fn48h;

/// A display whose configuration is fixed by the panel it drives.
pub trait Lcd {
    type Config;

    /// The configuration of the panel.
    fn get_config() -> Self::Config;
}

} // verus!
