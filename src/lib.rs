//! A copy-on-write byte buffer: either a shared, reference-counted region or an
//! exclusively owned allocation, with explicit transitions between the two.

pub mod bits;
pub mod buffer;
pub mod combine;
pub mod debug;
pub mod foreign;
pub mod hexfmt;
pub mod typed;

pub use buffer::{BorrowedBufferIter, BufferError, LanceBuffer};
