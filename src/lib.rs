//! Volume, mute and JACK transport status for a status-bar widget.
//!
//! The library turns what the outside world reports (the text of a mixer query,
//! the outcome of a JACK server probe, the arrival of change events) into a
//! device snapshot, a rendered view, and debounced refresh requests.
pub mod error;
pub mod mixer;
pub mod device;
pub mod display;
pub mod listener;
pub mod block;
