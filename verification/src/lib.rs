//! A fixed-capacity byte queue for one producer and one consumer.
//!
//! [`RingBuf`] keeps its bytes in caller-supplied storage and never allocates.
//! A producer works through a [`RingWriter`], a consumer through a
//! [`RingReader`]; each handle borrows the buffer and offers only its side of
//! the queue.

pub mod fifo;
pub mod handle;
pub mod model;
pub mod ring;
pub mod storage;

pub use handle::{RingReader, RingWriter};
pub use model::RingModel;
pub use ring::RingBuf;
pub use storage::ByteArray;
