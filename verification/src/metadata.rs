//! Per-entry metadata beyond the basic kind and size, and the identity of
//! ancestor directories used to detect symbolic-link loops. One submodule
//! per platform family.

pub mod unix;
pub mod windows;
