//! The byte-transport capability the adapter consumes, and the errors the
//! adapter surfaces to the protocol layer above it.
use vstd::prelude::*;

verus! {

/// The tri-state failure side of every adapter operation: a hard transport
/// failure, a retryable "not enough data yet", or a caller programming error.
#[derive(Debug)]
pub enum AdapterError<E> {
    /// Not enough bytes are available right now; retry after new data may
    /// have arrived. This is an expected condition, not a failure.
    WouldBlock,
    /// The caller asked to look further ahead than the lookahead window can
    /// hold. This signals a bug in the layer above, not a transport
    /// condition, and retrying cannot help.
    InvalidInput,
    /// The underlying transport failed; its error is passed on verbatim.
    Transport(E),
}

/// The narrow capability set the adapter needs from a serial link: read,
/// write and flush on raw bytes. Configuration of the link (baud rate, flow
/// control, timeout) happens before the adapter is constructed and is not
/// part of this interface.
///
/// The three spec views describe the link as the adapter may rely on it: a
/// stream of bytes waiting to be read, the bytes handed over for sending, and
/// the prefix of those known to have been flushed to the wire.
pub trait Transport {
    /// The transport's own error type, propagated verbatim through the
    /// adapter inside [`AdapterError::Transport`].
    type Error;

    /// The bytes available to be read from the link, oldest first. The
    /// default leaves the view unspecified, so that a transport written
    /// outside this crate need not give one; a transport whose callers rely
    /// on the contracts below overrides it.
    open spec fn incoming(&self) -> Seq<u8> {
        vstd::pervasive::arbitrary()
    }

    /// Every byte handed to the link for sending, oldest first.
    open spec fn outgoing(&self) -> Seq<u8> {
        vstd::pervasive::arbitrary()
    }

    /// The prefix of `outgoing` known to have left for the wire.
    open spec fn flushed(&self) -> Seq<u8> {
        vstd::pervasive::arbitrary()
    }

    /// Read at most `want` bytes, in arrival order, without reordering or
    /// dropping any. Fewer than `want` bytes may come back (for example when
    /// the link has nothing more to give right now); a failed read consumes
    /// nothing.
    fn read_up_to(&mut self, want: usize) -> (r: Result<Vec<u8>, Self::Error>)
        ensures
            final(self).outgoing() == old(self).outgoing(),
            final(self).flushed() == old(self).flushed(),
            (match r {
                Ok(bytes) => {
                    &&& bytes@.len() <= want
                    &&& bytes@.len() <= old(self).incoming().len()
                    &&& bytes@ == old(self).incoming().take(bytes@.len() as int)
                    &&& final(self).incoming() == old(self).incoming().skip(
                        bytes@.len() as int,
                    )
                },
                Err(_) => final(self).incoming() == old(self).incoming(),
            }),
    ;

    /// Hand all of `data` to the link, in order. A partial write is a
    /// failure, never reported as success.
    fn write_all(&mut self, data: &[u8]) -> (r: Result<(), Self::Error>)
        ensures
            final(self).incoming() == old(self).incoming(),
            r matches Ok(_) ==> final(self).outgoing() == old(self).outgoing() + data@
                && final(self).flushed() == old(self).flushed(),
    ;

    /// Push everything handed over so far out to the wire.
    fn flush(&mut self) -> (r: Result<(), Self::Error>)
        ensures
            final(self).incoming() == old(self).incoming(),
            r matches Ok(_) ==> final(self).outgoing() == old(self).outgoing()
                && final(self).flushed() == final(self).outgoing(),
    ;
}

} // verus!
