//! LED matrix clock: colour model, frame buffer, wire encoding and the
//! display rotation, with machine-checked contracts.

pub mod clock;
pub mod color;
pub mod directive;
pub mod encoder;
pub mod frame;
pub mod mqtt;
pub mod reading;
pub mod render;
pub mod scan;
pub mod sensor;
pub mod state;
pub mod util;
