//! The adapter's cross-operation guarantees, stated over [`Model`]
//! transitions and proved once and for all.
//!
//! Each lemma's hypotheses are exactly the postconditions of the adapter
//! operations involved (their transition predicates), so every guarantee
//! below holds of any sequence of calls on a [`crate::adapter::SerialController`].
use vstd::prelude::*;

use crate::adapter::fill_step;
use crate::adapter::peek_transition;
use crate::adapter::read_ok_step;
use crate::adapter::read_transition;
use crate::adapter::write_transition;
use crate::adapter::Model;
use crate::adapter::BUFFER_SIZE;
use crate::transport::AdapterError;
use vstd::math::min;

verus! {

/// A successful `peek(n)` reports the `n`-th pending byte, leaves every
/// pending byte pending in its old order, leaves the write side alone, and
/// leaves the window covering offset `n`.
pub proof fn lemma_peek_ok_facts<E>(pre: Model, post: Model, n: usize, b: u8)
    requires
        peek_transition::<E>(pre, post, n, Ok(b)),
    ensures
        n < post.lookahead.len(),
        b == post.lookahead[n as int],
        post.pending() == pre.pending(),
        n < pre.pending().len(),
        b == pre.pending()[n as int],
        post.outgoing == pre.outgoing,
        post.flushed == pre.flushed,
{
    if n < pre.lookahead.len() {
        assert(post.pending() == pre.pending());
        assert(b == pre.pending()[n as int]);
    } else {
        let got = choose|got: int|
            #[trigger] fill_step(pre, post, got, n + 1 - pre.lookahead.len());
        assert(fill_step(pre, post, got, n + 1 - pre.lookahead.len()));
        assert(post.pending() =~= pre.pending());
        assert(post.lookahead[n as int] == pre.incoming.take(got)[n - pre.lookahead.len()]);
        assert(b == pre.pending()[n as int]);
    }
}

/// Peek idempotence: two `peek` calls at the same offset with nothing in
/// between return the same byte, and the second changes nothing at all
/// (in particular it takes nothing from the transport).
pub proof fn lemma_peek_idempotent<E>(
    pre: Model,
    mid: Model,
    post: Model,
    n: usize,
    b: u8,
    second: Result<u8, AdapterError<E>>,
)
    requires
        peek_transition::<E>(pre, mid, n, Ok(b)),
        peek_transition::<E>(mid, post, n, second),
    ensures
        second == Ok::<u8, AdapterError<E>>(b),
        post == mid,
{
    lemma_peek_ok_facts::<E>(pre, mid, n, b);
}

/// Peek-then-read consistency: after `peek(n)` returned `b`, a `read_into`
/// with a buffer longer than `n` delivers `b` at position `n`.
pub proof fn lemma_peek_then_read<E>(
    pre: Model,
    mid: Model,
    post: Model,
    n: usize,
    b: u8,
    oldb: Seq<u8>,
    newb: Seq<u8>,
)
    requires
        peek_transition::<E>(pre, mid, n, Ok(b)),
        read_transition::<E>(mid, post, oldb, newb, Ok(())),
        n < oldb.len(),
    ensures
        newb[n as int] == b,
{
    lemma_peek_ok_facts::<E>(pre, mid, n, b);
    let got = choose|got: int| read_ok_step(mid, post, oldb, newb, got);
    assert(read_ok_step(mid, post, oldb, newb, got));
    let from_window = min(oldb.len() as int, mid.lookahead.len() as int);
    assert(newb[n as int] == mid.lookahead.take(from_window)[n as int]);
}

/// A successful `read_into` delivers exactly the oldest `k` pending bytes
/// and consumes exactly those: afterwards the pending stream is the old one
/// with its first `k` bytes gone.
pub proof fn lemma_read_consumes_prefix(
    pre: Model,
    post: Model,
    oldb: Seq<u8>,
    newb: Seq<u8>,
    got: int,
)
    requires
        read_ok_step(pre, post, oldb, newb, got),
    ensures
        ({
            let k = min(oldb.len() as int, pre.lookahead.len() as int) + got;
            &&& 0 <= k <= oldb.len()
            &&& k <= pre.pending().len()
            &&& newb.take(k) == pre.pending().take(k)
            &&& post.pending() == pre.pending().skip(k)
        }),
{
    let from_window = min(oldb.len() as int, pre.lookahead.len() as int);
    let k = from_window + got;
    assert(newb.take(k) =~= pre.lookahead.take(from_window) + pre.incoming.take(got));
    assert(pre.pending().take(k) =~= pre.lookahead.take(from_window) + pre.incoming.take(got));
    assert(post.pending() =~= pre.pending().skip(k));
}

/// No re-delivery, read then peek: any byte a later `peek` reports lies
/// strictly beyond the bytes the earlier `read_into` consumed.
pub proof fn lemma_no_redelivery<E>(
    pre: Model,
    mid: Model,
    post: Model,
    oldb: Seq<u8>,
    newb: Seq<u8>,
    got: int,
    n: usize,
    b: u8,
)
    requires
        read_ok_step(pre, mid, oldb, newb, got),
        peek_transition::<E>(mid, post, n, Ok(b)),
    ensures
        ({
            let k = min(oldb.len() as int, pre.lookahead.len() as int) + got;
            &&& k + n < pre.pending().len()
            &&& b == pre.pending()[k + n]
        }),
{
    lemma_read_consumes_prefix(pre, mid, oldb, newb, got);
    lemma_peek_ok_facts::<E>(mid, post, n, b);
}

/// No re-delivery, read then read: the bytes a later `read_into` delivers
/// come from the pending stream strictly after the bytes the earlier one
/// consumed.
pub proof fn lemma_no_redelivery_read(
    pre: Model,
    mid: Model,
    post: Model,
    oldb1: Seq<u8>,
    newb1: Seq<u8>,
    got1: int,
    oldb2: Seq<u8>,
    newb2: Seq<u8>,
    got2: int,
)
    requires
        read_ok_step(pre, mid, oldb1, newb1, got1),
        read_ok_step(mid, post, oldb2, newb2, got2),
    ensures
        ({
            let k1 = min(oldb1.len() as int, pre.lookahead.len() as int) + got1;
            let k2 = min(oldb2.len() as int, mid.lookahead.len() as int) + got2;
            newb2.take(k2) == pre.pending().skip(k1).take(k2)
        }),
{
    lemma_read_consumes_prefix(pre, mid, oldb1, newb1, got1);
    lemma_read_consumes_prefix(mid, post, oldb2, newb2, got2);
}

/// Boundary rejection: `peek` at or beyond the window capacity always fails
/// with the input-error condition, whatever the buffer state, and changes
/// nothing (in particular it performs no transport access).
pub proof fn lemma_boundary_rejection<E>(
    pre: Model,
    post: Model,
    n: usize,
    r: Result<u8, AdapterError<E>>,
)
    requires
        peek_transition::<E>(pre, post, n, r),
        n >= BUFFER_SIZE,
    ensures
        r == Err::<u8, AdapterError<E>>(AdapterError::InvalidInput),
        post == pre,
{
}

/// Partial-drain shift correctness: a request the window alone can satisfy
/// delivers the window's oldest bytes, shifts the remainder down in order,
/// and performs no transport access.
pub proof fn lemma_partial_drain(pre: Model, post: Model, oldb: Seq<u8>, newb: Seq<u8>, got: int)
    requires
        read_ok_step(pre, post, oldb, newb, got),
        oldb.len() <= pre.lookahead.len(),
    ensures
        newb == pre.lookahead.take(oldb.len() as int),
        post.lookahead == pre.lookahead.skip(oldb.len() as int),
        post.incoming == pre.incoming,
        post.outgoing == pre.outgoing,
        post.flushed == pre.flushed,
{
    assert(newb =~= pre.lookahead.take(oldb.len() as int));
    assert(post.incoming =~= pre.incoming);
}

/// Full-then-overflow read: a request longer than the window delivers the
/// whole window first, then whatever a single transport read of exactly the
/// missing length returned, and leaves the rest of the buffer untouched.
pub proof fn lemma_overflow_read(pre: Model, post: Model, oldb: Seq<u8>, newb: Seq<u8>, got: int)
    requires
        read_ok_step(pre, post, oldb, newb, got),
        pre.lookahead.len() < oldb.len(),
    ensures
        got <= oldb.len() - pre.lookahead.len(),
        newb == pre.lookahead + pre.incoming.take(got) + oldb.skip(pre.lookahead.len() + got),
        newb.take(pre.lookahead.len() as int) == pre.lookahead,
        post.lookahead == Seq::<u8>::empty(),
        post.incoming == pre.incoming.skip(got),
{
    assert(newb =~= pre.lookahead + pre.incoming.take(got) + oldb.skip(
        pre.lookahead.len() + got,
    ));
    assert(newb.take(pre.lookahead.len() as int) =~= pre.lookahead);
    assert(post.lookahead =~= Seq::<u8>::empty());
}

/// Write ordering: a successful `write(header, payload)` appends exactly
/// `header ++ payload` to what the transport observed, all of it flushed
/// before the call returns, and the read side is untouched.
pub proof fn lemma_write_ordering<E>(pre: Model, post: Model, header: Seq<u8>, payload: Seq<u8>)
    requires
        write_transition::<E>(pre, post, header, payload, Ok(())),
    ensures
        post.outgoing == pre.outgoing + header + payload,
        post.flushed == post.outgoing,
        post.lookahead == pre.lookahead,
        post.incoming == pre.incoming,
{
}

} // verus!
