//! A concurrent software-rendering pipeline: a caller supplies a pure function
//! from a pixel coordinate (and optional shared read-only state) to a color;
//! workers evaluate it over the whole target, hand each finished pixel to a
//! paint channel, and a presentation loop drains the channel into a canvas
//! that a display backend shows progressively.

pub mod canvas;
pub mod channel;
pub mod dispatch;
pub mod laws;
pub mod pipeline;
pub mod pixel;
pub mod present;

pub use canvas::Canvas;
pub use present::LoopState;
pub use present::PollEvent;
pub use pixel::Color;
pub use pixel::Coord;
pub use pixel::Paint;
