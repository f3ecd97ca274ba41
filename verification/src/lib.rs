//! A small GUI-element runtime: a data model for UI elements (panels,
//! buttons, labels, icons, text boxes), stable-identity assignment,
//! layered hit-testing, window-edge resize detection, and a two-state
//! interaction state machine for live drag-resizing.
//!
//! All geometry is carried in integers: relative positions and scales
//! are thousandths of the window dimensions ("milli" units), absolute
//! positions are pixels, and colors are 8-bit channels. The GPU and
//! windowing layers that consume this data live outside the library.

pub mod components;
pub mod definitions;
pub mod elements;
pub mod interface;
pub mod router;
pub mod user_interface;
