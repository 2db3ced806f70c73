//! A minimal NTP client core: the 48-byte packet codec, the epoch
//! conversion from protocol timestamps to Unix-epoch time values, and
//! the sync-loop interval policy. Socket I/O and the platform clock
//! setter live outside this crate and call into it with plain values.

pub mod clock;
pub mod error;
pub mod ntp;
pub mod sync;
