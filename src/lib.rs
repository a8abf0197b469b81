//! A counting semaphore whose `down` and `up` steps suit a futex-backed
//! atomic word, and a fixed-capacity FIFO buffer guarded by three of them.

pub mod sem;
pub mod buffer;
