//! A counter-like host state shared with a script engine through a scoped,
//! revocable handle: the host value is lent to a validity window, every
//! re-entry takes an exclusive ticket, and a handle that outlives its window
//! reports itself expired.

pub mod freeze;
pub mod frozen;
pub mod laws;
pub mod world;
