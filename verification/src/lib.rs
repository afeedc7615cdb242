//! Drives an addressable 34x9 LED matrix module over a serial link: the pixel
//! codec, the wire protocol, the device model and the decisions of the render
//! loop. The library performs no I/O itself; it says which bytes are to be
//! written and what follows from each outcome.

pub mod ledmatrix;
pub mod matrix;
pub mod protocol;
pub mod render;
pub mod widget;
