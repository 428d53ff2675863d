//! A verified matrix-keypad calculator core.
//!
//! Two layered components: a keypad scanner model that turns raw line
//! samples into debounced key events, and a four-function calculator
//! engine that consumes those events and renders its state as text.
//! The polling shell that drives the physical lines lives outside this
//! crate and hands both components plain values.

pub mod digits;
pub mod engine;
pub mod scanner;
