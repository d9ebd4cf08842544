//! Decision logic of the WFInfo reward-screen overlay.

pub mod text;
pub mod triggers;
pub mod detection;
pub mod overlay;
pub mod window;
