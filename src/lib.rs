//! Animation engine for a panel of addressable RGB LEDs: wiring geometry,
//! colors and dimming, the painters that render one frame per tick, and the
//! per-tick decisions of the render loop.
pub mod color;
pub mod geometry;
pub mod params;
pub mod leds;
pub mod random;
pub mod sweep;
pub mod fade;
pub mod disco;
pub mod trail;
pub mod rain;
pub mod line;
pub mod hex;
pub mod painter;
pub mod show;
pub mod display;
pub mod control;

pub use color::Color;
pub use geometry::{physical_index, staggered_index, Bounds};
pub use params::PainterParams;
pub use painter::{make_painter, Painter};
