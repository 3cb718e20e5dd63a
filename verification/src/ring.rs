//! The ring engine: fixed storage, two cursors, a closed flag, and the
//! reserve/commit and batch-consume protocols.

use vstd::prelude::*;

verus! {

/// `n` is a positive power of two.
pub open spec fn is_pow2(n: nat) -> bool
    decreases n,
{
    if n == 0 {
        false
    } else if n == 1 {
        true
    } else {
        n % 2 == 0 && is_pow2(n / 2)
    }
}

/// Advancing a cursor by `b` slots, inside the contiguous segment that ends
/// at the physical end of the array, advances its physical position by `b`,
/// wrapping to 0 exactly when the boundary is reached.
proof fn lemma_mod_add_in_segment(a: nat, b: nat, m: nat)
    requires
        0 < m,
        a % m + b <= m,
    ensures
        (a + b) % m == if a % m + b == m {
            0nat
        } else {
            a % m + b
        },
{
    vstd::arithmetic::div_mod::lemma_add_mod_noop_right(b as int, a as int, m as int);
    assert((a + b) % m == ((a % m + b) as nat) % m);
    if a % m + b == m {
        vstd::arithmetic::div_mod::lemma_mod_self_0(m as int);
    } else {
        vstd::arithmetic::div_mod::lemma_small_mod((a % m + b) as nat, m);
    }
}

/// Two distinct logical positions less than one capacity apart occupy
/// distinct physical slots.
proof fn lemma_mod_window_distinct(x: nat, y: nat, m: nat)
    requires
        0 < m,
        x < y,
        y - x < m,
    ensures
        x % m != y % m,
{
    let d = (y - x) as nat;
    vstd::arithmetic::div_mod::lemma_add_mod_noop_right(d as int, x as int, m as int);
    assert(y % m == ((x % m + d) as nat) % m);
    vstd::arithmetic::div_mod::lemma_mod_division_less_than_divisor(x as int, m as int);
    if x % m + d < m {
        vstd::arithmetic::div_mod::lemma_small_mod((x % m + d) as nat, m);
    } else {
        vstd::arithmetic::div_mod::lemma_mod_add_multiples_vanish((x % m + d - m) as int, m as int);
        vstd::arithmetic::div_mod::lemma_small_mod((x % m + d - m) as nat, m);
    }
}

/// Fixed-capacity single-producer/single-consumer ring buffer.
///
/// Storage is a fixed array of `cap()` slots, `cap()` a power of two,
/// allocated once and never resized. The producer publishes elements with a
/// two-phase reserve/commit protocol and finally calls `close`; the consumer
/// drains committed elements in FIFO order with `consume_batch` until it
/// observes `is_closed() && is_empty()`.
///
/// The logical cursors of the protocol are the lengths of the two ghost
/// histories: `produced@.len()` is the write cursor (how many elements were
/// ever committed) and `consumed@.len()` is the read cursor (how many were
/// ever delivered). The physical positions `read_pos` and `write_pos` are
/// those cursors reduced modulo the capacity.
pub struct Ring {
    /// The `cap()` slots; written in place, never resized.
    pub buf: Vec<u64>,
    /// Physical position of the read cursor: `read_cursor() % cap()`.
    pub read_pos: usize,
    /// Physical position of the write cursor: `write_cursor() % cap()`.
    pub write_pos: usize,
    /// Number of committed-but-unconsumed elements.
    pub in_flight: usize,
    /// Terminal flag, set once by the producer after its final commit.
    pub closed_flag: bool,
    /// Length of the currently reserved span (0 when none is outstanding).
    pub grant: Ghost<nat>,
    /// Every element ever committed, in commit order.
    pub produced: Ghost<Seq<u64>>,
    /// Every element ever delivered to the consumer, in delivery order.
    pub consumed: Ghost<Seq<u64>>,
}

impl Ring {
    /// Capacity: the fixed number of slots.
    pub open spec fn cap(&self) -> nat {
        self.buf@.len()
    }

    /// Write cursor: how many elements have ever been committed.
    pub open spec fn write_cursor(&self) -> nat {
        self.produced@.len()
    }

    /// Read cursor: how many elements have ever been delivered.
    pub open spec fn read_cursor(&self) -> nat {
        self.consumed@.len()
    }

    /// The committed-but-unconsumed elements, oldest first.
    pub open spec fn pending(&self) -> Seq<u64> {
        Seq::new(
            self.in_flight as nat,
            |i: int| self.buf@[(self.read_pos as int + i) % (self.buf@.len() as int)],
        )
    }

    /// The first `k` slots of the currently reserved span. A span never
    /// straddles the physical end of the array, so slot `i` of the span is
    /// plain slot `write_pos + i`.
    pub open spec fn span(&self, k: int) -> Seq<u64> {
        Seq::new(k as nat, |i: int| self.buf@[self.write_pos as int + i])
    }

    /// How many more elements the ring can hold.
    pub open spec fn free_space(&self) -> nat {
        (self.cap() - self.pending().len()) as nat
    }

    /// Free slots up to the physical end of the array: the largest span a
    /// single reservation can be granted.
    pub open spec fn contiguous_free(&self) -> nat {
        (self.cap() - self.write_pos) as nat
    }

    /// Committed slots up to the physical end of the array: what one
    /// `consume_batch` call delivers.
    pub open spec fn contiguous_pending(&self) -> nat {
        vstd::math::min(self.pending().len() as int, self.cap() - self.read_pos) as nat
    }

    /// Well-formedness: the invariants every operation preserves.
    pub open spec fn wf(&self) -> bool {
        &&& 1 <= self.cap()
        &&& is_pow2(self.cap())
        &&& 2 * self.cap() <= usize::MAX as nat + 1
        &&& self.read_cursor() <= self.write_cursor()
        &&& self.in_flight == self.write_cursor() - self.read_cursor()
        &&& self.in_flight <= self.cap()
        &&& self.read_pos == self.read_cursor() % self.cap()
        &&& self.write_pos == self.write_cursor() % self.cap()
        &&& self.read_pos < self.cap()
        &&& self.write_pos < self.cap()
        &&& self.produced@ == self.consumed@ + self.pending()
        &&& self.grant@ + self.in_flight <= self.cap()
        &&& self.grant@ <= self.contiguous_free()
    }

    /// Builds an empty, open ring with `capacity` slots, all default-initialized.
    pub fn new(capacity: usize) -> (r: Ring)
        requires
            is_pow2(capacity as nat),
            2 * (capacity as nat) <= usize::MAX as nat + 1,
        ensures
            r.wf(),
            r.cap() == capacity,
            r.pending() == Seq::<u64>::empty(),
            r.produced@ == Seq::<u64>::empty(),
            r.consumed@ == Seq::<u64>::empty(),
            !r.closed_flag,
            r.grant@ == 0,
    {
        let buf = vec![0u64; capacity];
        let r = Ring {
            buf,
            read_pos: 0,
            write_pos: 0,
            in_flight: 0,
            closed_flag: false,
            grant: Ghost(0nat),
            produced: Ghost(Seq::empty()),
            consumed: Ghost(Seq::empty()),
        };
        proof {
            vstd::arithmetic::div_mod::lemma_small_mod(0, capacity as nat);
            assert(r.pending() =~= Seq::<u64>::empty());
            assert(r.produced@ =~= r.consumed@ + r.pending());
        }
        r
    }

    /// Reserves a contiguous writable span of at most `request_len` slots.
    ///
    /// Returns the physical start offset of the span and the granted length:
    /// the smallest of the request, the free space, and the contiguous room
    /// up to the physical end of the array — a reservation never straddles
    /// the wrap boundary, and a request that would cross it is silently
    /// truncated. Returns `None` exactly when the ring is full. No cursor
    /// moves either way; the span is published only by `commit`.
    pub fn reserve(&mut self, request_len: usize) -> (r: Option<(usize, usize)>)
        requires
            old(self).wf(),
            1 <= request_len,
            !old(self).closed_flag,
        ensures
            final(self).wf(),
            final(self).buf@ == old(self).buf@,
            final(self).pending() == old(self).pending(),
            final(self).produced@ == old(self).produced@,
            final(self).consumed@ == old(self).consumed@,
            final(self).closed_flag == old(self).closed_flag,
            final(self).read_pos == old(self).read_pos,
            final(self).write_pos == old(self).write_pos,
            (r is None) <==> old(self).free_space() == 0,
            r is None ==> final(self).grant@ == 0,
            r matches Some(span) ==> span.0 == old(self).write_pos,
            r matches Some(span) ==> span.1 == vstd::math::min(
                request_len as int,
                vstd::math::min(old(self).free_space() as int, old(self).contiguous_free() as int),
            ),
            r matches Some(span) ==> 1 <= span.1 <= request_len,
            r matches Some(span) ==> span.1 <= old(self).free_space(),
            r matches Some(span) ==> span.0 + span.1 <= old(self).cap(),
            r matches Some(span) ==> final(self).grant@ == span.1,
    {
        let cap = self.buf.len();
        let avail = cap - self.in_flight;
        if avail == 0 {
            self.grant = Ghost(0nat);
            proof {
                assert(self.pending() =~= old(self).pending());
            }
            None
        } else {
            let contig = cap - self.write_pos;
            let mut g = request_len;
            if g > avail {
                g = avail;
            }
            if g > contig {
                g = contig;
            }
            let off = self.write_pos;
            self.grant = Ghost(g as nat);
            proof {
                assert(self.pending() =~= old(self).pending());
            }
            Some((off, g))
        }
    }

    /// Writes `v` into slot `j` of the currently reserved span. Nothing is
    /// published: the pending elements are unchanged until `commit` advances
    /// the write cursor past the slot.
    pub fn write_slot(&mut self, j: usize, v: u64)
        requires
            old(self).wf(),
            j < old(self).grant@,
        ensures
            final(self).wf(),
            final(self).grant@ == old(self).grant@,
            final(self).pending() == old(self).pending(),
            final(self).produced@ == old(self).produced@,
            final(self).consumed@ == old(self).consumed@,
            final(self).closed_flag == old(self).closed_flag,
            final(self).cap() == old(self).cap(),
            final(self).read_pos == old(self).read_pos,
            final(self).write_pos == old(self).write_pos,
            final(self).span(old(self).grant@ as int) == old(self).span(old(self).grant@ as int)
                .update(j as int, v),
    {
        let idx = self.write_pos + j;
        self.buf[idx] = v;
        proof {
            let m = old(self).cap();
            let c = old(self).read_cursor();
            let p = old(self).write_cursor();
            assert forall|i: int| 0 <= i < old(self).in_flight implies #[trigger] ((old(
                self,
            ).read_pos as int + i) % (m as int)) != idx as int by {
                vstd::arithmetic::div_mod::lemma_add_mod_noop_right(i, c as int, m as int);
                lemma_mod_add_in_segment(p, j as nat, m);
                lemma_mod_window_distinct((c + i) as nat, p + j as nat, m);
            }
            assert(self.pending() =~= old(self).pending());
            assert(self.span(old(self).grant@ as int) =~= old(self).span(
                old(self).grant@ as int,
            ).update(j as int, v));
        }
    }

    /// Publishes the first `written_len` slots of the reserved span: the
    /// write cursor advances past them and they become visible to the
    /// consumer, in order, after everything committed before.
    pub fn commit(&mut self, written_len: usize)
        requires
            old(self).wf(),
            1 <= written_len,
            written_len <= old(self).grant@,
            !old(self).closed_flag,
        ensures
            final(self).wf(),
            final(self).produced@ == old(self).produced@ + old(self).span(written_len as int),
            final(self).pending() == old(self).pending() + old(self).span(written_len as int),
            final(self).consumed@ == old(self).consumed@,
            final(self).closed_flag == old(self).closed_flag,
            final(self).cap() == old(self).cap(),
            final(self).buf@ == old(self).buf@,
            final(self).grant@ == 0,
            final(self).write_cursor() == old(self).write_cursor() + written_len,
            final(self).read_cursor() == old(self).read_cursor(),
    {
        let ghost appended = self.span(written_len as int);
        let new_w = self.write_pos + written_len;
        self.write_pos = if new_w == self.buf.len() {
            0
        } else {
            new_w
        };
        self.in_flight = self.in_flight + written_len;
        self.produced = Ghost(self.produced@ + appended);
        self.grant = Ghost(0nat);
        proof {
            let m = old(self).cap();
            let c = old(self).read_cursor();
            let p = old(self).write_cursor();
            lemma_mod_add_in_segment(p, written_len as nat, m);
            assert forall|i: int| 0 <= i < self.in_flight implies self.pending()[i] == (old(
                self,
            ).pending() + appended)[i] by {
                vstd::arithmetic::div_mod::lemma_add_mod_noop_right(i, c as int, m as int);
                if i >= old(self).in_flight {
                    let j = (i - old(self).in_flight) as nat;
                    lemma_mod_add_in_segment(p, j, m);
                }
            }
            assert(self.pending() =~= old(self).pending() + appended);
            assert(self.produced@ =~= self.consumed@ + self.pending());
        }
    }

    /// Delivers the contiguous run of committed elements that starts at the
    /// read cursor, oldest first, and advances the read cursor past it.
    ///
    /// One call delivers `min(pending, room up to the physical wrap
    /// boundary)` elements, so a consumer that wants to fully drain a
    /// wrapped region calls again until a call returns an empty batch; what
    /// a call leaves behind starts at the physical start of the array, so a
    /// second call always finishes the job. The call never blocks: on an
    /// empty ring it returns an empty batch at once.
    pub fn consume_batch(&mut self) -> (batch: Vec<u64>)
        requires
            old(self).wf(),
        ensures
            final(self).wf(),
            batch@.len() == old(self).contiguous_pending(),
            batch@ == old(self).pending().take(batch@.len() as int),
            final(self).pending() == old(self).pending().skip(batch@.len() as int),
            final(self).consumed@ == old(self).consumed@ + batch@,
            final(self).produced@ == old(self).produced@,
            final(self).closed_flag == old(self).closed_flag,
            final(self).cap() == old(self).cap(),
            final(self).buf@ == old(self).buf@,
            final(self).grant@ == old(self).grant@,
            final(self).read_cursor() == old(self).read_cursor() + batch@.len(),
            old(self).pending().len() > 0 ==> batch@.len() > 0,
            (batch@.len() == 0) <==> old(self).pending().len() == 0,
            final(self).pending().len() > 0 ==> final(self).read_pos == 0,
            final(self).pending().len() > 0 ==> final(self).contiguous_pending() == final(self)
                .pending().len(),
    {
        let cap = self.buf.len();
        let contig = cap - self.read_pos;
        let n = if self.in_flight < contig {
            self.in_flight
        } else {
            contig
        };
        let mut batch: Vec<u64> = Vec::new();
        let mut i: usize = 0;
        while i < n
            invariant
                old(self).wf(),
                self == old(self),
                cap == self.cap(),
                n == self.contiguous_pending(),
                i <= n,
                batch@ == self.pending().take(i as int),
            decreases n - i,
        {
            proof {
                vstd::arithmetic::div_mod::lemma_small_mod(
                    (self.read_pos + i) as nat,
                    self.cap(),
                );
            }
            let v = self.buf[self.read_pos + i];
            batch.push(v);
            proof {
                assert(batch@ =~= self.pending().take(i + 1));
            }
            i = i + 1;
        }
        let new_r = self.read_pos + n;
        self.read_pos = if new_r == cap {
            0
        } else {
            new_r
        };
        self.in_flight = self.in_flight - n;
        self.consumed = Ghost(self.consumed@ + batch@);
        proof {
            let m = old(self).cap();
            let c = old(self).read_cursor();
            lemma_mod_add_in_segment(c, n as nat, m);
            assert forall|k: int| 0 <= k < self.in_flight implies #[trigger] self.pending()[k]
                == old(self).pending().skip(n as int)[k] by {
                vstd::arithmetic::div_mod::lemma_add_mod_noop_right(
                    k,
                    (c + n) as int,
                    m as int,
                );
                vstd::arithmetic::div_mod::lemma_add_mod_noop_right(
                    n as int + k,
                    c as int,
                    m as int,
                );
            }
            assert(self.pending() =~= old(self).pending().skip(n as int));
            assert(old(self).pending() =~= old(self).pending().take(n as int) + old(
                self,
            ).pending().skip(n as int));
            assert(self.produced@ =~= self.consumed@ + self.pending());
        }
        batch
    }

    /// Drains the ring completely: calls `consume_batch` until a call comes
    /// back empty, and returns everything delivered, oldest first. Together
    /// with `close`, this takes the consumer to its exit condition
    /// `is_closed() && is_empty()`.
    pub fn drain(&mut self) -> (all: Vec<u64>)
        requires
            old(self).wf(),
        ensures
            final(self).wf(),
            all@ == old(self).pending(),
            final(self).pending().len() == 0,
            final(self).consumed@ == old(self).consumed@ + all@,
            final(self).produced@ == old(self).produced@,
            final(self).closed_flag == old(self).closed_flag,
            final(self).cap() == old(self).cap(),
    {
        let mut all: Vec<u64> = Vec::new();
        loop
            invariant
                self.wf(),
                self.cap() == old(self).cap(),
                all@ + self.pending() == old(self).pending(),
                self.consumed@ == old(self).consumed@ + all@,
                self.produced@ == old(self).produced@,
                self.closed_flag == old(self).closed_flag,
            ensures
                self.pending().len() == 0,
                all@ + self.pending() == old(self).pending(),
                self.consumed@ == old(self).consumed@ + all@,
                self.produced@ == old(self).produced@,
                self.closed_flag == old(self).closed_flag,
                self.cap() == old(self).cap(),
                self.wf(),
            decreases self.pending().len(),
        {
            let mut batch = self.consume_batch();
            if batch.len() == 0 {
                break;
            }
            all.append(&mut batch);
            proof {
                assert(all@ + self.pending() =~= old(self).pending());
                assert(self.consumed@ =~= old(self).consumed@ + all@);
            }
        }
        proof {
            assert(all@ =~= old(self).pending());
        }
        all
    }

    /// Marks the ring closed. To be called by the producer once, after its
    /// final commit; the flag never reverts. A consumer that has seen
    /// `is_closed()` and then `is_empty()` — in that order — may exit: no
    /// further element will ever arrive.
    pub fn close(&mut self)
        requires
            old(self).wf(),
        ensures
            final(self).wf(),
            final(self).closed_flag,
            final(self).pending() == old(self).pending(),
            final(self).produced@ == old(self).produced@,
            final(self).consumed@ == old(self).consumed@,
            final(self).cap() == old(self).cap(),
            final(self).buf@ == old(self).buf@,
            final(self).grant@ == old(self).grant@,
            final(self).read_pos == old(self).read_pos,
            final(self).write_pos == old(self).write_pos,
    {
        self.closed_flag = true;
        proof {
            assert(self.pending() =~= old(self).pending());
        }
    }

    /// True iff `close` has been called.
    pub fn is_closed(&self) -> (r: bool)
        ensures
            r == self.closed_flag,
    {
        self.closed_flag
    }

    /// True iff zero committed-but-unconsumed elements exist.
    pub fn is_empty(&self) -> (r: bool)
        ensures
            r == (self.pending().len() == 0),
    {
        self.in_flight == 0
    }
}

} // verus!
