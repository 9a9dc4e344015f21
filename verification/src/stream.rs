//! The executable stream.
//!
//! A [`MemStream`] keeps the bytes that were written and not yet read in one
//! buffer. Reading takes bytes off the front of that buffer, so no position
//! is kept besides it, and the stream is at the end of its data exactly when
//! the buffer is empty. Reading at the end of the data is no error: it
//! returns `Ok(0)`, as often as it is asked, until more is written.

use crate::model::{delivered, filled, read_count, remaining};
use crate::order::{order, order_of, Order};
use std::cmp::Ordering;
use vstd::prelude::*;

verus! {

/// The error type of `std::io`, `std::io::Error`.
///
/// Nothing is claimed of it. It stands here because the results of
/// `std::io::Read` and `std::io::Write` are made with it; no operation of
/// [`MemStream`] ever returns one.
#[verifier::external_type_specification]
#[verifier::external_body]
pub struct ExIoError(std::io::Error);

/// A reader and writer backed by a buffer in memory.
///
/// Its view is the sequence of its unread bytes, oldest first.
pub struct MemStream {
    buf: Vec<u8>,
}

impl View for MemStream {
    type V = Seq<u8>;

    /// The bytes that were written and not yet read, in the order in which
    /// they were written.
    closed spec fn view(&self) -> Seq<u8> {
        self.buf@
    }
}

impl MemStream {
    /// Creates a stream that holds no bytes.
    pub fn new() -> (stream: MemStream)
        ensures
            stream@ == Seq::<u8>::empty(),
    {
        MemStream { buf: Vec::new() }
    }

    /// Unwraps the stream, returning its whole buffer: the unread bytes, in
    /// order.
    pub fn unwrap(self) -> (bytes: Vec<u8>)
        ensures
            bytes@ == self@,
    {
        self.buf
    }

    /// Tells whether the stream is at the end of its data, with no byte left
    /// to read.
    pub fn eof(&self) -> (at_end: bool)
        ensures
            at_end <==> self@.len() == 0,
    {
        self.buf.len() == 0
    }
}

impl std::io::Read for MemStream {
    /// Moves the oldest unread bytes to the front of `buf`, as many as fit,
    /// and returns their number.
    ///
    /// The bytes of `buf` behind them stay as they were. For an empty `buf`,
    /// and at the end of the data, nothing changes and the result is `Ok(0)`.
    /// No read fails.
    fn read(&mut self, buf: &mut [u8]) -> (result: Result<usize, std::io::Error>)
        ensures
            result matches Ok(count) && count == read_count(old(self)@, old(buf)@.len()),
            final(self)@ == remaining(old(self)@, old(buf)@.len()),
            final(buf)@ == filled(old(buf)@, old(self)@),
            result matches Ok(count) && {
                &&& count <= old(buf)@.len()
                &&& count <= old(self)@.len()
                &&& final(buf)@.len() == old(buf)@.len()
                &&& final(buf)@.take(count as int) == delivered(old(self)@, old(buf)@.len())
                &&& final(buf)@.skip(count as int) == old(buf)@.skip(count as int)
            },
            old(buf)@.len() == 0 ==> {
                &&& result matches Ok(count) && count == 0
                &&& final(self)@ == old(self)@
                &&& final(buf)@ == old(buf)@
            },
            old(self)@.len() == 0 ==> {
                &&& result matches Ok(count) && count == 0
                &&& final(self)@ == old(self)@
                &&& final(buf)@ == old(buf)@
            },
    {
        let count: usize = if buf.len() <= self.buf.len() {
            buf.len()
        } else {
            self.buf.len()
        };
        if count == 0 {
            return Ok(0);
        }
        let mut i: usize = 0;
        while i < count
            invariant
                i <= count,
                count <= buf@.len(),
                count <= self.buf@.len(),
                buf@.len() == old(buf)@.len(),
                buf@ == self.buf@.take(i as int) + old(buf)@.skip(i as int),
            decreases count - i,
        {
            buf[i] = self.buf[i];
            i += 1;
        }
        let rest = self.buf.split_off(count);
        self.buf = rest;
        Ok(count)
    }
}

impl std::io::Write for MemStream {
    /// Appends all of `buf` to the stream and returns its length.
    ///
    /// A write is never partial and never fails, and it leaves the bytes
    /// that were unread before it in their place.
    fn write(&mut self, buf: &[u8]) -> (result: Result<usize, std::io::Error>)
        ensures
            result matches Ok(count) && count == buf@.len(),
            final(self)@ == old(self)@ + buf@,
            final(self)@.len() == old(self)@.len() + buf@.len(),
    {
        self.buf.extend_from_slice(buf);
        Ok(buf.len())
    }

    /// Does nothing and succeeds: a write is complete when it returns.
    fn flush(&mut self) -> (result: Result<(), std::io::Error>)
        ensures
            result is Ok,
            final(self)@ == old(self)@,
    {
        Ok(())
    }
}

impl PartialEq for MemStream {
    /// Two streams are equal where their unread bytes are.
    fn eq(&self, other: &Self) -> (equal: bool) {
        let equal = self.buf == other.buf;
        assert(equal == (self.buf@ =~= other.buf@));
        equal
    }
}

impl vstd::std_specs::cmp::PartialEqSpecImpl for MemStream {
    open spec fn obeys_eq_spec() -> bool {
        true
    }

    open spec fn eq_spec(&self, other: &Self) -> bool {
        self@ == other@
    }
}

impl PartialOrd for MemStream {
    /// Streams are ordered as their unread bytes are, lexicographically.
    fn partial_cmp(&self, other: &Self) -> (result: Option<Ordering>) {
        match order_of(self.buf.as_slice(), other.buf.as_slice()) {
            Order::Less => Some(Ordering::Less),
            Order::Equal => Some(Ordering::Equal),
            Order::Greater => Some(Ordering::Greater),
        }
    }
}

impl vstd::std_specs::cmp::PartialOrdSpecImpl for MemStream {
    open spec fn obeys_partial_cmp_spec() -> bool {
        true
    }

    open spec fn partial_cmp_spec(&self, other: &Self) -> Option<Ordering> {
        match order(self@, other@) {
            Order::Less => Some(Ordering::Less),
            Order::Equal => Some(Ordering::Equal),
            Order::Greater => Some(Ordering::Greater),
        }
    }
}

} // verus!
