//! The mathematical model of the stream.
//!
//! The state of a stream is the sequence of its unread bytes, oldest first.
//! A write puts bytes behind them, a read takes bytes from their front.
//!
//! The first part says what one read does; the stream's `read` is specified
//! by it. The second part describes histories: sequences of writes and reads,
//! each of which does to the unread bytes what the stream's `write` and
//! `read` ensure.

use vstd::prelude::*;

verus! {

/// The number of bytes that a read into a destination of `capacity` bytes
/// takes from `unread`: all that fit, of those that are there.
pub open spec fn read_count(unread: Seq<u8>, capacity: nat) -> nat {
    if capacity <= unread.len() {
        capacity
    } else {
        unread.len()
    }
}

/// The bytes that a read into a destination of `capacity` bytes takes from
/// `unread`: its first `read_count(unread, capacity)` bytes, in order.
pub open spec fn delivered(unread: Seq<u8>, capacity: nat) -> Seq<u8> {
    unread.take(read_count(unread, capacity) as int)
}

/// The bytes that are still unread after such a read.
pub open spec fn remaining(unread: Seq<u8>, capacity: nat) -> Seq<u8> {
    unread.skip(read_count(unread, capacity) as int)
}

/// The destination `dest` after a read from `unread`: the delivered bytes at
/// its front, and behind them what it held before.
pub open spec fn filled(dest: Seq<u8>, unread: Seq<u8>) -> Seq<u8> {
    delivered(unread, dest.len()) + dest.skip(read_count(unread, dest.len()) as int)
}

/// One operation on a stream.
pub enum Step {
    /// A write of these bytes.
    Write(Seq<u8>),
    /// A read into a destination of this capacity.
    Read(nat),
}

impl Step {
    /// The unread bytes after this step, taken on a stream that holds
    /// `unread`: a write appends its bytes, a read leaves what it did not
    /// take.
    pub open spec fn apply(self, unread: Seq<u8>) -> Seq<u8> {
        match self {
            Step::Write(data) => unread + data,
            Step::Read(capacity) => remaining(unread, capacity),
        }
    }

    /// The bytes that this step, taken on a stream that holds `unread`,
    /// hands to the reader.
    pub open spec fn output(self, unread: Seq<u8>) -> Seq<u8> {
        match self {
            Step::Write(_) => Seq::empty(),
            Step::Read(capacity) => delivered(unread, capacity),
        }
    }

    /// The bytes that this step takes from the writer.
    pub open spec fn input(self) -> Seq<u8> {
        match self {
            Step::Write(data) => data,
            Step::Read(_) => Seq::empty(),
        }
    }
}

/// The unread bytes after `steps`, taken in order on a stream that holds
/// `unread`.
pub open spec fn run(unread: Seq<u8>, steps: Seq<Step>) -> Seq<u8>
    decreases steps.len(),
{
    if steps.len() == 0 {
        unread
    } else {
        steps.last().apply(run(unread, steps.drop_last()))
    }
}

/// All bytes that the reads among `steps` deliver, in the order of delivery.
pub open spec fn output(unread: Seq<u8>, steps: Seq<Step>) -> Seq<u8>
    decreases steps.len(),
{
    if steps.len() == 0 {
        Seq::empty()
    } else {
        output(unread, steps.drop_last()) + steps.last().output(run(unread, steps.drop_last()))
    }
}

/// All bytes that the writes among `steps` append, in the order of writing.
pub open spec fn input(steps: Seq<Step>) -> Seq<u8>
    decreases steps.len(),
{
    if steps.len() == 0 {
        Seq::empty()
    } else {
        input(steps.drop_last()) + steps.last().input()
    }
}

/// The steps that write each of `writes` in turn.
pub open spec fn writes_of(writes: Seq<Seq<u8>>) -> Seq<Step> {
    Seq::new(writes.len(), |i: int| Step::Write(writes[i]))
}

/// The steps that read into destinations of each of `capacities` in turn.
pub open spec fn reads_of(capacities: Seq<nat>) -> Seq<Step> {
    Seq::new(capacities.len(), |i: int| Step::Read(capacities[i]))
}

/// The sum of `capacities`.
pub open spec fn total(capacities: Seq<nat>) -> nat
    decreases capacities.len(),
{
    if capacities.len() == 0 {
        0
    } else {
        total(capacities.drop_last()) + capacities.last()
    }
}

} // verus!
