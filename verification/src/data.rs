//! The reader and writer capabilities over which the packet and frame logic
//! is written: anything that can hand out exactly `n` bytes, and anything
//! that accepts a byte string, together with the primitive scalar encodings
//! built on them.

pub mod reader;
pub mod scalar;
pub mod writer;

pub use reader::DataReader;
pub use writer::DataWriter;
