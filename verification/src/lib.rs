//! Fixed-capacity circular byte buffer.
//!
//! [`BrBuffer`] owns a fixed-length byte storage and two cursors. A producer
//! copies byte runs in with `append`; a consumer takes them out in order with
//! `get`, or previews them with `peek`. When a write or a read would run past
//! the physical end of the storage it is split and continues from offset zero,
//! so the logical content may wrap around the allocation.

pub mod brb;

pub use self::brb::AppendError;
pub use self::brb::BrBuffer;
pub use self::brb::BufferFullReason;
pub use self::brb::ReadError;
pub use self::brb::ERR_STR_BUFFER_FULL;
pub use self::brb::ERR_STR_INVALID_LEN;
