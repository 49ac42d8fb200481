//! Serial transport adapter for a Bluetooth Host-Controller Interface.
//!
//! The adapter bridges a raw byte transport to a frame-oriented protocol
//! layer: it forwards writes, and it maintains a small lookahead window over
//! the incoming byte stream so that the layer above can inspect the bytes
//! that encode a frame's declared length before consuming the frame.
//!
//! [`adapter::SerialController`] is the adapter itself, generic over any
//! [`transport::Transport`]; [`mock::MockTransport`] is a verified in-memory
//! transport for exercising the adapter without a device; [`laws`] states and
//! proves the adapter's cross-operation guarantees.
pub mod adapter;
pub mod laws;
pub mod mock;
pub mod transport;
