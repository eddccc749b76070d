//! Navigation logic for a slideshow carousel bound to elements of a web page.
//!
//! The library holds the decisions: the wrap-around index arithmetic of the
//! per-instance state machine, the setup plan built for each container (which
//! children are slides, which controls to create and how to label them), the
//! keyboard handler's choice of action, and the textual encoding of the index
//! attribute. The host page's document, the event loop and the random source
//! are outside collaborators; the thin layer that touches them lives beside
//! the library and hands it plain values.

pub mod keyboard;
pub mod numeral;
pub mod slideshow;
pub mod util;
