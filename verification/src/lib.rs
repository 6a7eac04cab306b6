//! Draw-target logic for the RK043FN48H panel of the STM32F746G Discovery
//! board: RGB565 packing, clipping of fills to the panel, and the sequence
//! of pixel writes that each drawing operation issues to the display
//! controller.

pub mod color;
pub mod config;
pub mod controller;
pub mod fill;
pub mod geometry;
pub mod lcd;
pub mod pixel;
