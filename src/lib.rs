//! Color temperature adjustment of displays through gamma ramps.
pub mod args;
pub mod colorramp;
pub mod crtc;
pub mod gamma;
