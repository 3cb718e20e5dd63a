//! The guarantees of the protocol, stated over the ring's model.

use vstd::prelude::*;
use crate::ring::Ring;

verus! {

/// Exactly-once, in-order delivery: in every well-formed state, the elements
/// delivered so far, followed by the elements still pending, are exactly the
/// elements committed so far, in commit order. No committed element is lost
/// and none is delivered twice.
pub proof fn lemma_exactly_once_in_order(r: &Ring)
    requires
        r.wf(),
    ensures
        r.consumed@ + r.pending() == r.produced@,
        r.consumed@ == r.produced@.take(r.read_cursor() as int),
        r.pending() == r.produced@.skip(r.read_cursor() as int),
{
    assert(r.consumed@ =~= r.produced@.take(r.read_cursor() as int));
    assert(r.pending() =~= r.produced@.skip(r.read_cursor() as int));
}

/// The cursor invariants: the read cursor never passes the write cursor,
/// the ring never holds more than `cap()` in-flight elements, and each
/// physical position is its cursor reduced modulo the capacity.
pub proof fn lemma_cursor_bounds(r: &Ring)
    requires
        r.wf(),
    ensures
        r.read_cursor() <= r.write_cursor(),
        r.write_cursor() - r.read_cursor() <= r.cap(),
        r.pending().len() == r.write_cursor() - r.read_cursor(),
        r.read_pos == r.read_cursor() % r.cap(),
        r.write_pos == r.write_cursor() % r.cap(),
{
}

/// The consumer's exit condition is exact: a closed and empty ring has
/// delivered every element that was ever committed, and — the flag being
/// write-once and commits being ruled out after it — nothing more will ever
/// arrive.
pub proof fn lemma_terminal_state(r: &Ring)
    requires
        r.wf(),
        r.closed_flag,
        r.pending().len() == 0,
    ensures
        r.consumed@ == r.produced@,
{
    assert(r.consumed@ =~= r.consumed@ + r.pending());
}

} // verus!
