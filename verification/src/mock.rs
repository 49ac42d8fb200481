//! A verified in-memory transport, for exercising the adapter without a
//! serial device: reads are served from a prepared byte sequence, writes are
//! recorded, and a flush snapshots what has been written so far.
use vstd::prelude::*;

use crate::transport::Transport;

verus! {

/// The failure an in-memory transport reports when it is told to fail.
#[derive(Debug)]
pub struct MockFailure;

/// An in-memory transport. Its fields are public so that a test that owns
/// one can prepare the incoming bytes and inspect what was written.
pub struct MockTransport {
    /// Bytes the fake device will hand to the adapter, oldest first.
    pub input: Vec<u8>,
    /// Bytes the adapter has handed over for sending, oldest first.
    pub written: Vec<u8>,
    /// Snapshot of `written` taken at the most recent successful flush.
    pub synced: Vec<u8>,
    /// When set, every transport operation fails with [`MockFailure`].
    pub fail: bool,
}

impl MockTransport {
    /// A transport that will serve exactly `input` and never fail.
    pub fn new(input: Vec<u8>) -> (t: Self)
        ensures
            t.incoming() == input@,
            t.outgoing() == Seq::<u8>::empty(),
            t.flushed() == Seq::<u8>::empty(),
    {
        MockTransport { input, written: Vec::new(), synced: Vec::new(), fail: false }
    }

    /// A transport on which every operation fails.
    pub fn failing() -> (t: Self)
        ensures
            t.incoming() == Seq::<u8>::empty(),
            t.outgoing() == Seq::<u8>::empty(),
            t.flushed() == Seq::<u8>::empty(),
    {
        MockTransport { input: Vec::new(), written: Vec::new(), synced: Vec::new(), fail: true }
    }
}

impl Transport for MockTransport {
    type Error = MockFailure;

    open spec fn incoming(&self) -> Seq<u8> {
        self.input@
    }

    open spec fn outgoing(&self) -> Seq<u8> {
        self.written@
    }

    open spec fn flushed(&self) -> Seq<u8> {
        self.synced@
    }

    fn read_up_to(&mut self, want: usize) -> (r: Result<Vec<u8>, MockFailure>) {
        if self.fail {
            return Err(MockFailure);
        }
        let take: usize = if want < self.input.len() {
            want
        } else {
            self.input.len()
        };
        let out = vstd::slice::slice_to_vec(
            vstd::slice::slice_subrange(self.input.as_slice(), 0, take),
        );
        let rest = vstd::slice::slice_to_vec(
            vstd::slice::slice_subrange(self.input.as_slice(), take, self.input.len()),
        );
        self.input = rest;
        Ok(out)
    }

    fn write_all(&mut self, data: &[u8]) -> (r: Result<(), MockFailure>) {
        if self.fail {
            return Err(MockFailure);
        }
        let mut i: usize = 0;
        while i < data.len()
            invariant
                i <= data@.len(),
                self.written@ == old(self).written@ + data@.take(i as int),
                self.input == old(self).input,
                self.synced == old(self).synced,
            decreases data@.len() - i,
        {
            self.written.push(data[i]);
            i = i + 1;
            proof {
                assert(self.written@ =~= old(self).written@ + data@.take(i as int));
            }
        }
        proof {
            assert(self.written@ =~= old(self).written@ + data@);
        }
        Ok(())
    }

    fn flush(&mut self) -> (r: Result<(), MockFailure>) {
        if self.fail {
            return Err(MockFailure);
        }
        let snapshot = vstd::slice::slice_to_vec(self.written.as_slice());
        self.synced = snapshot;
        Ok(())
    }
}

} // verus!
