//! Crimson: the sample-accurate core of a stereo vocal chorus.
//!
//! The verified part holds what the plugin decides with integers and
//! indices: the circular delay line that every channel owns, how big that
//! line is made, how many voices a layout gets, and what the editor's
//! controls send to the host. The floating-point signal path (LFO shapes,
//! interpolation weights and filters) lives with the host glue.

pub mod controls;
pub mod delay_line;
pub mod layout;
