//! The framed controller adapter: a lookahead window over a byte transport.
//!
//! The adapter owns one transport and offers the three operations a
//! protocol-decoding layer needs: `write(header, payload)`,
//! `read_into(buffer)` and `peek(offset)`. The lookahead window holds bytes
//! that were pulled from the transport but not yet delivered, in arrival
//! order, so that the layer above can read a frame's declared length before
//! consuming the frame.
use vstd::prelude::*;

use crate::transport::AdapterError;
use crate::transport::Transport;

verus! {

/// Capacity of the lookahead window: the largest protocol header the layer
/// above may need to inspect before it knows a frame's full length.
pub const BUFFER_SIZE: usize = 6;

/// Everything the adapter's contracts speak about: the lookahead window and
/// the three views of the underlying transport.
#[verifier::ext_equal]
pub ghost struct Model {
    /// Bytes pulled from the transport but not yet delivered, oldest first.
    pub lookahead: Seq<u8>,
    /// Bytes still waiting in the transport, oldest first.
    pub incoming: Seq<u8>,
    /// Every byte handed to the transport for sending, oldest first.
    pub outgoing: Seq<u8>,
    /// The prefix of `outgoing` known to have left for the wire.
    pub flushed: Seq<u8>,
}

impl Model {
    /// All bytes not yet delivered to the caller, in the order a sequence of
    /// reads would deliver them: the lookahead window first, then whatever
    /// the transport still holds.
    pub open spec fn pending(self) -> Seq<u8> {
        self.lookahead + self.incoming
    }
}

/// One attempted transport read that pulled `got` of the `want` requested
/// bytes into the lookahead window. Nothing is delivered and nothing is
/// reordered: the window simply grows by a prefix of the incoming stream.
pub open spec fn fill_step(pre: Model, post: Model, got: int, want: int) -> bool {
    &&& 0 <= got <= want
    &&& got <= pre.incoming.len()
    &&& post.lookahead == pre.lookahead + pre.incoming.take(got)
    &&& post.incoming == pre.incoming.skip(got)
    &&& post.outgoing == pre.outgoing
    &&& post.flushed == pre.flushed
}

/// How one `peek(n)` call relates the state before (`pre`) to the state
/// after (`post`) and to its result `r`.
///
/// An offset at or beyond the window capacity is rejected outright, with no
/// transport access. An offset already inside the window is answered from it,
/// again with no transport access. Otherwise the adapter tries exactly one
/// transport read for the missing `n + 1 - |lookahead|` bytes; if the window
/// still does not reach the offset, the caller is told to retry later, and if
/// the transport fails, nothing changes and the failure is passed on.
pub open spec fn peek_transition<E>(
    pre: Model,
    post: Model,
    n: usize,
    r: Result<u8, AdapterError<E>>,
) -> bool {
    if n >= BUFFER_SIZE {
        &&& r == Err::<u8, AdapterError<E>>(AdapterError::InvalidInput)
        &&& post == pre
    } else if n < pre.lookahead.len() {
        &&& r == Ok::<u8, AdapterError<E>>(pre.lookahead[n as int])
        &&& post == pre
    } else {
        match r {
            Ok(b) => {
                &&& (exists|got: int|
                    #[trigger] fill_step(pre, post, got, n + 1 - pre.lookahead.len()))
                &&& n < post.lookahead.len()
                &&& b == post.lookahead[n as int]
            },
            Err(AdapterError::WouldBlock) => {
                &&& (exists|got: int|
                    #[trigger] fill_step(pre, post, got, n + 1 - pre.lookahead.len()))
                &&& post.lookahead.len() <= n
            },
            Err(AdapterError::InvalidInput) => false,
            Err(AdapterError::Transport(_)) => post == pre,
        }
    }
}

/// How one successful `read_into` call relates the states, the caller's
/// buffer before (`oldb`) and after (`newb`), and the `got` bytes a single
/// transport read contributed.
///
/// The window is drained first, oldest first; only if that does not satisfy
/// the request is the transport read once, for exactly the missing length.
/// When the window alone can satisfy the request, no transport access
/// happens at all. A short transport read leaves the tail of the caller's
/// buffer untouched.
pub open spec fn read_ok_step(
    pre: Model,
    post: Model,
    oldb: Seq<u8>,
    newb: Seq<u8>,
    got: int,
) -> bool {
    let want = oldb.len() as int;
    let from_window = vstd::math::min(want, pre.lookahead.len() as int);
    &&& 0 <= got
    &&& want <= pre.lookahead.len() ==> got == 0
    &&& got <= pre.incoming.len()
    &&& want > pre.lookahead.len() ==> got <= want - pre.lookahead.len()
    &&& newb == pre.lookahead.take(from_window) + pre.incoming.take(got) + oldb.skip(
        from_window + got,
    )
    &&& post.lookahead == pre.lookahead.skip(from_window)
    &&& post.incoming == pre.incoming.skip(got)
    &&& post.outgoing == pre.outgoing
    &&& post.flushed == pre.flushed
}

/// How one `read_into` call relates the states to its result.
///
/// On success some `got` completes a [`read_ok_step`]. A transport failure
/// can only arise after the window was fully drained into the caller's
/// buffer; the failed read itself consumes nothing, so exactly the former
/// window contents are lost to the caller who discards the buffer.
pub open spec fn read_transition<E>(
    pre: Model,
    post: Model,
    oldb: Seq<u8>,
    newb: Seq<u8>,
    r: Result<(), AdapterError<E>>,
) -> bool {
    match r {
        Ok(_) => exists|got: int| read_ok_step(pre, post, oldb, newb, got),
        Err(e) => {
            &&& e matches AdapterError::Transport(_)
            &&& oldb.len() > pre.lookahead.len()
            &&& newb == pre.lookahead + oldb.skip(pre.lookahead.len() as int)
            &&& post.lookahead == Seq::<u8>::empty()
            &&& post.incoming == pre.incoming
            &&& post.outgoing == pre.outgoing
            &&& post.flushed == pre.flushed
        },
    }
}

/// How one `write(header, payload)` call relates the states to its result:
/// on success the transport saw exactly `header ++ payload` appended, and
/// everything handed over is flushed; the read side is never touched.
pub open spec fn write_transition<E>(
    pre: Model,
    post: Model,
    header: Seq<u8>,
    payload: Seq<u8>,
    r: Result<(), AdapterError<E>>,
) -> bool {
    &&& post.lookahead == pre.lookahead
    &&& post.incoming == pre.incoming
    &&& (match r {
        Ok(_) => post.outgoing == pre.outgoing + header + payload && post.flushed
            == post.outgoing,
        Err(e) => e matches AdapterError::Transport(_),
    })
}

/// The framed controller adapter: one byte transport plus a small lookahead
/// window of bytes read from it but not yet delivered to the layer above.
/// The window is never exposed to callers directly; it is read and mutated
/// only through `write`, `read_into` and `peek`.
pub struct SerialController<T: Transport> {
    /// The underlying transport; the adapter is its sole reader and writer.
    port: T,
    /// Bytes read from the transport but not yet delivered, oldest first.
    /// Holds at most [`BUFFER_SIZE`] bytes.
    buffer: Vec<u8>,
}

impl<T: Transport> SerialController<T> {
    /// The lookahead window's contents, oldest first.
    pub closed spec fn lookahead(&self) -> Seq<u8> {
        self.buffer@
    }

    /// The underlying transport.
    pub closed spec fn port_view(&self) -> T {
        self.port
    }

    /// The adapter's whole observable state.
    pub open spec fn model(&self) -> Model {
        Model {
            lookahead: self.lookahead(),
            incoming: self.port_view().incoming(),
            outgoing: self.port_view().outgoing(),
            flushed: self.port_view().flushed(),
        }
    }

    /// The lookahead window never outgrows its fixed capacity.
    pub open spec fn wf(&self) -> bool {
        self.lookahead().len() <= BUFFER_SIZE
    }

    /// Attaches an adapter to a transport, taking ownership of it. The
    /// lookahead window starts out empty.
    pub fn new(port: T) -> (c: Self)
        ensures
            c.wf(),
            c.lookahead() == Seq::<u8>::empty(),
            c.port_view() == port,
    {
        SerialController { port, buffer: Vec::new() }
    }

    /// Borrows the underlying transport, for inspection by callers that own
    /// the adapter (for example to examine a test transport).
    pub fn port_ref(&self) -> (p: &T)
        ensures
            *p == self.port_view(),
    {
        &self.port
    }

    /// Borrows the underlying transport mutably, for callers that own the
    /// adapter and need to reconfigure or manipulate the transport between
    /// operations. The lookahead window is not affected.
    pub fn port_mut(&mut self) -> (p: &mut T)
        ensures
            *p == old(self).port_view(),
            final(self).port_view() == *final(p),
            final(self).lookahead() == old(self).lookahead(),
    {
        &mut self.port
    }

    /// Writes `header` immediately followed by `payload` to the transport,
    /// then flushes. Nothing is buffered on the write path; the first
    /// transport failure is passed on, and the caller must not assume that
    /// bytes were not partially transmitted before a reported failure.
    pub fn write(&mut self, header: &[u8], payload: &[u8]) -> (r: Result<
        (),
        AdapterError<T::Error>,
    >)
        requires
            old(self).wf(),
        ensures
            final(self).wf(),
            write_transition(old(self).model(), final(self).model(), header@, payload@, r),
    {
        match self.port.write_all(header) {
            Ok(_) => {},
            Err(e) => {
                return Err(AdapterError::Transport(e));
            },
        }
        match self.port.write_all(payload) {
            Ok(_) => {},
            Err(e) => {
                return Err(AdapterError::Transport(e));
            },
        }
        match self.port.flush() {
            Ok(_) => {},
            Err(e) => {
                return Err(AdapterError::Transport(e));
            },
        }
        proof {
            assert(self.model().outgoing =~= old(self).model().outgoing + header@ + payload@);
        }
        Ok(())
    }

    /// Returns the byte that the next `read_into` would deliver at position
    /// `n`, without consuming it.
    ///
    /// An offset at or beyond the window capacity is a caller programming
    /// error and is rejected without touching the transport. An offset
    /// already inside the window is answered without touching the transport
    /// either. Otherwise one transport read tries to extend the window
    /// through `n`; if too few bytes came, the caller is told to retry
    /// later. Whatever happens, no pending byte is consumed or reordered.
    pub fn peek(&mut self, n: usize) -> (r: Result<u8, AdapterError<T::Error>>)
        requires
            old(self).wf(),
        ensures
            final(self).wf(),
            peek_transition(old(self).model(), final(self).model(), n, r),
            final(self).model().pending() == old(self).model().pending(),
            r matches Ok(b) ==> n < final(self).lookahead().len() && n < old(
                self,
            ).model().pending().len() && b == old(self).model().pending()[n as int],
    {
        if n >= BUFFER_SIZE {
            return Err(AdapterError::InvalidInput);
        }
        if n >= self.buffer.len() {
            let want = n + 1 - self.buffer.len();
            match self.port.read_up_to(want) {
                Ok(extra) => {
                    let ghost la0 = old(self).lookahead();
                    let ghost inc0 = old(self).model().incoming;
                    let ghost port1 = self.port_view();
                    let mut k: usize = 0;
                    while k < extra.len()
                        invariant
                            k <= extra@.len(),
                            self.buffer@ == la0 + extra@.take(k as int),
                            self.port_view() == port1,
                        decreases extra@.len() - k,
                    {
                        self.buffer.push(extra[k]);
                        k = k + 1;
                        proof {
                            assert(self.buffer@ =~= la0 + extra@.take(k as int));
                        }
                    }
                    proof {
                        assert(extra@.take(extra@.len() as int) =~= extra@);
                        assert(self.buffer@ == la0 + inc0.take(extra@.len() as int));
                        assert(fill_step(
                            old(self).model(),
                            self.model(),
                            extra@.len() as int,
                            n + 1 - la0.len(),
                        ));
                        assert(self.model().pending() =~= old(self).model().pending());
                    }
                },
                Err(e) => {
                    proof {
                        assert(self.model() =~= old(self).model());
                    }
                    return Err(AdapterError::Transport(e));
                },
            }
        }
        if n < self.buffer.len() {
            proof {
                assert(old(self).model().pending()[n as int] == self.buffer@[n as int]);
            }
            Ok(self.buffer[n])
        } else {
            Err(AdapterError::WouldBlock)
        }
    }

    /// Fills the caller's whole buffer with the next pending bytes, oldest
    /// first: the lookahead window is drained before anything is read from
    /// the transport, and no transport read happens at all when the window
    /// alone satisfies the request. A short transport read silently leaves
    /// the tail of the buffer untouched; a failed one loses the drained
    /// window bytes with the buffer the caller will discard.
    pub fn read_into(&mut self, buffer: &mut Vec<u8>) -> (r: Result<(), AdapterError<T::Error>>)
        requires
            old(self).wf(),
        ensures
            final(self).wf(),
            final(buffer)@.len() == old(buffer)@.len(),
            read_transition(
                old(self).model(),
                final(self).model(),
                old(buffer)@,
                final(buffer)@,
                r,
            ),
    {
        let ghost la0 = old(self).lookahead();
        let ghost inc0 = old(self).model().incoming;
        let want = buffer.len();
        let from_window: usize = if self.buffer.len() < want {
            self.buffer.len()
        } else {
            want
        };

        // the delivered bytes, assembled oldest first
        let mut out: Vec<u8> = Vec::new();
        let mut i: usize = 0;
        while i < from_window
            invariant
                i <= from_window,
                from_window <= self.buffer@.len(),
                out@ == self.buffer@.take(i as int),
                self.buffer@ == la0,
                self.port_view() == old(self).port_view(),
            decreases from_window - i,
        {
            out.push(self.buffer[i]);
            i = i + 1;
            proof {
                assert(out@ =~= self.buffer@.take(i as int));
            }
        }

        // the window bytes not delivered stay, shifted to the front
        let rest = vstd::slice::slice_to_vec(
            vstd::slice::slice_subrange(self.buffer.as_slice(), from_window, self.buffer.len()),
        );
        self.buffer = rest;

        let mut failure: Option<T::Error> = None;
        let ghost mut got: int = 0;
        if from_window < want {
            match self.port.read_up_to(want - from_window) {
                Ok(extra) => {
                    proof {
                        got = extra@.len() as int;
                    }
                    let ghost out1 = out@;
                    let ghost la1 = self.buffer@;
                    let ghost port2 = self.port_view();
                    let mut k: usize = 0;
                    while k < extra.len()
                        invariant
                            k <= extra@.len(),
                            out@ == out1 + extra@.take(k as int),
                            self.buffer@ == la1,
                            self.port_view() == port2,
                        decreases extra@.len() - k,
                    {
                        out.push(extra[k]);
                        k = k + 1;
                        proof {
                            assert(out@ =~= out1 + extra@.take(k as int));
                        }
                    }
                    proof {
                        assert(extra@.take(extra@.len() as int) =~= extra@);
                        assert(out@ == la0.take(from_window as int) + inc0.take(got));
                    }
                },
                Err(e) => {
                    failure = Some(e);
                },
            }
        }

        // keep the caller's former bytes beyond what was delivered
        let ghost delivered = out@;
        let ghost la2 = self.buffer@;
        let ghost port3 = self.port_view();
        while out.len() < want
            invariant
                delivered.len() <= out@.len() <= want,
                buffer@.len() == want,
                buffer@ == old(buffer)@,
                out@ == delivered + buffer@.subrange(delivered.len() as int, out@.len() as int),
                self.buffer@ == la2,
                self.port_view() == port3,
            decreases want - out@.len(),
        {
            let pos = out.len();
            out.push(buffer[pos]);
            proof {
                assert(out@ =~= delivered + buffer@.subrange(
                    delivered.len() as int,
                    out@.len() as int,
                ));
            }
        }

        *buffer = out;
        match failure {
            None => {
                proof {
                    assert(buffer@ =~= la0.take(from_window as int) + inc0.take(got) + old(
                        buffer,
                    )@.skip(from_window + got));
                    assert(self.buffer@ =~= la0.skip(from_window as int));
                    assert(self.model().incoming =~= inc0.skip(got));
                    assert(read_ok_step(
                        old(self).model(),
                        self.model(),
                        old(buffer)@,
                        buffer@,
                        got,
                    ));
                }
                Ok(())
            },
            Some(e) => {
                proof {
                    assert(buffer@ =~= la0 + old(buffer)@.skip(la0.len() as int));
                    assert(self.buffer@ =~= Seq::<u8>::empty());
                }
                Err(AdapterError::Transport(e))
            },
        }
    }
}

} // verus!
