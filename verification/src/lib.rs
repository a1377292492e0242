//! Verified core of a multi-channel terminal viewer: streaming line
//! reassembly, per-channel view state, tab selection, and viewport
//! windowing.

pub mod app;
pub mod channel;
pub mod reassembly;
pub mod strings;
pub mod window;
