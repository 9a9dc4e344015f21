//! What holds over whole histories of writes and reads.

use crate::model::{
    delivered, input, output, read_count, reads_of, remaining, run, total, writes_of, Step,
};
use vstd::prelude::*;

verus! {

/// Nothing is lost, made up or reordered: after any steps, the bytes
/// delivered so far, followed by the bytes still unread, are the bytes the
/// stream held at first followed by all bytes written since.
pub proof fn lemma_first_in_first_out(unread: Seq<u8>, steps: Seq<Step>)
    ensures
        output(unread, steps) + run(unread, steps) == unread + input(steps),
    decreases steps.len(),
{
    if steps.len() > 0 {
        let before = steps.drop_last();
        lemma_first_in_first_out(unread, before);
        if let Step::Write(data) = steps.last() {
            assert((unread + input(before)) + data == unread + (input(before) + data));
        }
    }
}

/// Steps taken one after another compose: the second part starts from where
/// the first part ends, and outputs and inputs follow each other.
pub proof fn lemma_steps_compose(unread: Seq<u8>, first: Seq<Step>, second: Seq<Step>)
    ensures
        run(unread, first + second) == run(run(unread, first), second),
        output(unread, first + second) == output(unread, first) + output(
            run(unread, first),
            second,
        ),
        input(first + second) == input(first) + input(second),
    decreases second.len(),
{
    if second.len() > 0 {
        assert((first + second).drop_last() == first + second.drop_last());
        lemma_steps_compose(unread, first, second.drop_last());
    }
}

/// Writes accumulate: after a run of writes the stream holds what it held
/// before, followed by the written pieces joined in order, and nothing was
/// delivered.
pub proof fn lemma_writes_accumulate(unread: Seq<u8>, writes: Seq<Seq<u8>>)
    ensures
        run(unread, writes_of(writes)) == unread + writes.flatten(),
        output(unread, writes_of(writes)) == Seq::<u8>::empty(),
        input(writes_of(writes)) == writes.flatten(),
    decreases writes.len(),
{
    writes.lemma_flatten_and_flatten_alt_are_equivalent();
    if writes.len() > 0 {
        let before = writes.drop_last();
        before.lemma_flatten_and_flatten_alt_are_equivalent();
        lemma_writes_accumulate(unread, before);
        assert(writes_of(writes).drop_last() == writes_of(before));
    }
}

/// How reads are cut into pieces does not matter: a run of reads delivers,
/// and leaves unread, exactly what a single read with the sum of their
/// capacities would.
pub proof fn lemma_reads_join(unread: Seq<u8>, capacities: Seq<nat>)
    ensures
        output(unread, reads_of(capacities)) == delivered(unread, total(capacities)),
        run(unread, reads_of(capacities)) == remaining(unread, total(capacities)),
    decreases capacities.len(),
{
    if capacities.len() > 0 {
        let before = capacities.drop_last();
        lemma_reads_join(unread, before);
        assert(reads_of(capacities).drop_last() == reads_of(before));
    }
}

/// What is written is read back: after any writes, reads with any
/// capacities deliver the written pieces joined in order, byte for byte, up
/// to the sum of the capacities; where that sum covers all that was written,
/// they deliver all of it and leave the stream empty.
pub proof fn lemma_round_trip(writes: Seq<Seq<u8>>, capacities: Seq<nat>)
    ensures
        output(Seq::empty(), writes_of(writes) + reads_of(capacities)) == delivered(
            writes.flatten(),
            total(capacities),
        ),
        total(capacities) >= writes.flatten().len() ==> {
            &&& output(Seq::empty(), writes_of(writes) + reads_of(capacities))
                == writes.flatten()
            &&& run(Seq::empty(), writes_of(writes) + reads_of(capacities)) == Seq::<u8>::empty()
        },
{
    lemma_steps_compose(Seq::empty(), writes_of(writes), reads_of(capacities));
    lemma_writes_accumulate(Seq::empty(), writes);
    lemma_reads_join(writes.flatten(), capacities);
}

/// The end of the data is stable: on a stream with nothing left to read,
/// reads with any capacities, however many, deliver nothing and leave it as
/// it is, so each of them returns 0.
pub proof fn lemma_end_of_data_is_stable(capacities: Seq<nat>)
    ensures
        output(Seq::empty(), reads_of(capacities)) == Seq::<u8>::empty(),
        run(Seq::empty(), reads_of(capacities)) == Seq::<u8>::empty(),
        forall|capacity: nat|
            read_count(run(Seq::empty(), reads_of(capacities)), capacity) == 0,
{
    lemma_reads_join(Seq::empty(), capacities);
}

} // verus!
