//! A byte stream held in memory that can be written to and read from.
//!
//! Bytes written to a [`MemStream`] are appended to its buffer; bytes read
//! from it are taken off the front of the buffer, in the order in which they
//! were written. Every operation is specified over the sequence of bytes that
//! were written and not yet read, which is the stream's view.
//!
//! - [`model`] defines what a write and a read do to that sequence, and what
//!   a whole history of them does.
//! - [`stream`] holds the executable stream, a `std::io::Read` and
//!   `std::io::Write`.
//! - [`laws`] proves what holds of every history: that bytes come out as
//!   they went in, however the reads are cut, and that the end of the data is
//!   stable.
//! - [`order`] defines the lexicographic order by which streams are
//!   compared, with the proof that it is a total order.

pub mod laws;
pub mod model;
pub mod order;
pub mod stream;

pub use stream::MemStream;
