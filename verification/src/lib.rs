//! Service logic of the Xous operating system.

pub mod byte_order;
pub mod gfx;
pub mod net;
pub mod perf;
pub mod scalar;
pub mod soc;
