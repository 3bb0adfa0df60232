//! A single-producer, single-consumer, bounded ring buffer of contiguous
//! elements, with lock-free batch operations for inter-thread communication.
//!
//! This crate holds the verified engine of the queue: how the capacity and the
//! doubly mapped memory region are sized, the shared control block with its two
//! counters, and the writer/reader handshake that hands out contiguous windows
//! of slots and publishes them with release/acquire atomics. The memory that
//! the windows index is supplied by the caller and carried through unchanged.

mod error;
pub mod handshake;
pub mod layout;
pub mod pow2;
pub mod protocol;
mod queue;

pub use error::{errno_with_hint, syscall_error, CueueError, SyscallOp};
pub use layout::{platform_flags, Layout};
pub use pow2::next_power_two;
pub use protocol::Chunk;
pub use queue::{abandoned_for, cueue, Reader, ReaderView, Writer, WriterView};
