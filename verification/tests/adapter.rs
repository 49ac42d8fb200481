//! Exercises the adapter against the in-memory transport: the lookahead
//! window, the three-way error split, and the write path.
use serialport_hci::adapter::SerialController;
use serialport_hci::mock::MockTransport;
use serialport_hci::transport::AdapterError;

fn adapter_over(input: Vec<u8>) -> SerialController<MockTransport> {
    SerialController::new(MockTransport::new(input))
}

#[test]
fn peek_returns_first_pending_byte() {
    let mut c = adapter_over(vec![0x11, 0x22, 0x33]);
    assert_eq!(c.peek(0).unwrap(), 0x11);
    assert_eq!(c.peek(1).unwrap(), 0x22);
    assert_eq!(c.peek(2).unwrap(), 0x33);
}

#[test]
fn peek_idempotent_and_no_second_transport_access() {
    let mut c = adapter_over(vec![0xaa, 0xbb, 0xcc, 0xdd]);
    assert_eq!(c.peek(1).unwrap(), 0xbb);
    // the first peek pulled exactly two bytes out of the transport
    assert_eq!(c.port_ref().input, vec![0xcc, 0xdd]);
    // repeated peeks at the same offset return the same byte and take nothing
    assert_eq!(c.peek(1).unwrap(), 0xbb);
    assert_eq!(c.peek(1).unwrap(), 0xbb);
    assert_eq!(c.port_ref().input, vec![0xcc, 0xdd]);
}

#[test]
fn peek_then_read_sees_the_peeked_byte() {
    let mut c = adapter_over(vec![4, 5, 6, 7, 8]);
    let b = c.peek(2).unwrap();
    assert_eq!(b, 6);
    let mut buf = vec![0u8; 4];
    c.read_into(&mut buf).unwrap();
    assert_eq!(buf[2], b);
    assert_eq!(buf, vec![4, 5, 6, 7]);
}

#[test]
fn consumed_bytes_are_never_redelivered() {
    let mut c = adapter_over(vec![1, 2, 3, 4, 5]);
    assert_eq!(c.peek(3).unwrap(), 4);
    let mut buf = vec![0u8; 2];
    c.read_into(&mut buf).unwrap();
    assert_eq!(buf, vec![1, 2]);
    // everything later observed comes strictly after the consumed prefix
    assert_eq!(c.peek(0).unwrap(), 3);
    let mut rest = vec![0u8; 3];
    c.read_into(&mut rest).unwrap();
    assert_eq!(rest, vec![3, 4, 5]);
}

#[test]
fn peek_at_capacity_is_an_input_error() {
    let mut c = adapter_over(vec![9; 16]);
    assert!(matches!(c.peek(6), Err(AdapterError::InvalidInput)));
    assert!(matches!(c.peek(7), Err(AdapterError::InvalidInput)));
    assert!(matches!(c.peek(100), Err(AdapterError::InvalidInput)));
    // rejection happens before any transport access
    assert_eq!(c.port_ref().input.len(), 16);
    // the largest allowed offset still works
    assert_eq!(c.peek(5).unwrap(), 9);
}

#[test]
fn partial_drain_shifts_the_window() {
    let mut c = adapter_over(vec![0xa1, 0xb2, 0xc3]);
    // fill the window with [A, B, C]
    assert_eq!(c.peek(2).unwrap(), 0xc3);
    assert_eq!(c.port_ref().input, Vec::<u8>::new());
    // a one-byte read delivers A and performs no transport read
    let mut one = vec![0u8; 1];
    c.read_into(&mut one).unwrap();
    assert_eq!(one, vec![0xa1]);
    // the window now holds [B, C], still in order
    assert_eq!(c.peek(0).unwrap(), 0xb2);
    assert_eq!(c.peek(1).unwrap(), 0xc3);
    let mut two = vec![0u8; 2];
    c.read_into(&mut two).unwrap();
    assert_eq!(two, vec![0xb2, 0xc3]);
}

#[test]
fn overflow_read_drains_window_then_transport() {
    let mut c = adapter_over(vec![1, 2, 3, 4, 5]);
    // window holds [1, 2]
    assert_eq!(c.peek(1).unwrap(), 2);
    // a five-byte read takes the window first, then one transport read of 3
    let mut buf = vec![0u8; 5];
    c.read_into(&mut buf).unwrap();
    assert_eq!(buf, vec![1, 2, 3, 4, 5]);
    assert_eq!(c.port_ref().input, Vec::<u8>::new());
}

#[test]
fn short_transport_read_leaves_buffer_tail_untouched() {
    let mut c = adapter_over(vec![1, 2, 3]);
    // window holds [1, 2]; the transport has only one more byte to give
    assert_eq!(c.peek(1).unwrap(), 2);
    let mut buf = vec![0x77u8; 5];
    c.read_into(&mut buf).unwrap();
    // delivered: window, then the single available byte; the tail is stale
    assert_eq!(buf, vec![1, 2, 3, 0x77, 0x77]);
}

#[test]
fn zero_length_read_changes_nothing() {
    let mut c = adapter_over(vec![8, 9]);
    let mut empty: Vec<u8> = Vec::new();
    c.read_into(&mut empty).unwrap();
    assert_eq!(empty, Vec::<u8>::new());
    assert_eq!(c.port_ref().input, vec![8, 9]);
    assert_eq!(c.peek(0).unwrap(), 8);
}

#[test]
fn read_without_peek_goes_straight_to_transport() {
    let mut c = adapter_over(vec![10, 20, 30]);
    let mut buf = vec![0u8; 3];
    c.read_into(&mut buf).unwrap();
    assert_eq!(buf, vec![10, 20, 30]);
}

#[test]
fn peek_beyond_available_would_block_but_keeps_what_came() {
    let mut c = adapter_over(vec![0x5a]);
    // asking for offset 3 needs four bytes; only one is available
    assert!(matches!(c.peek(3), Err(AdapterError::WouldBlock)));
    // the byte that did arrive was kept and is served without a new read
    assert_eq!(c.port_ref().input, Vec::<u8>::new());
    assert_eq!(c.peek(0).unwrap(), 0x5a);
}

#[test]
fn peek_on_empty_transport_would_block() {
    let mut c = adapter_over(Vec::new());
    assert!(matches!(c.peek(0), Err(AdapterError::WouldBlock)));
}

#[test]
fn write_sends_header_then_payload_and_flushes() {
    let mut c = adapter_over(Vec::new());
    c.write(&[0x01, 0x02], &[0x03, 0x04, 0x05]).unwrap();
    assert_eq!(c.port_ref().written, vec![0x01, 0x02, 0x03, 0x04, 0x05]);
    assert_eq!(c.port_ref().synced, vec![0x01, 0x02, 0x03, 0x04, 0x05]);
}

#[test]
fn writes_accumulate_in_order() {
    let mut c = adapter_over(Vec::new());
    c.write(&[1], &[2]).unwrap();
    c.write(&[3], &[]).unwrap();
    c.write(&[], &[4, 5]).unwrap();
    assert_eq!(c.port_ref().written, vec![1, 2, 3, 4, 5]);
    assert_eq!(c.port_ref().synced, vec![1, 2, 3, 4, 5]);
}

#[test]
fn write_does_not_disturb_the_read_side() {
    let mut c = adapter_over(vec![0xee, 0xff]);
    assert_eq!(c.peek(0).unwrap(), 0xee);
    c.write(&[1], &[2]).unwrap();
    assert_eq!(c.peek(0).unwrap(), 0xee);
    assert_eq!(c.peek(1).unwrap(), 0xff);
}

#[test]
fn transport_failure_surfaces_from_peek() {
    let mut c = SerialController::new(MockTransport::failing());
    assert!(matches!(c.peek(0), Err(AdapterError::Transport(_))));
}

#[test]
fn transport_failure_surfaces_from_read_into() {
    let mut c = SerialController::new(MockTransport::failing());
    let mut buf = vec![0u8; 2];
    assert!(matches!(c.read_into(&mut buf), Err(AdapterError::Transport(_))));
}

#[test]
fn transport_failure_surfaces_from_write() {
    let mut c = SerialController::new(MockTransport::failing());
    assert!(matches!(c.write(&[1], &[2]), Err(AdapterError::Transport(_))));
}

#[test]
fn window_is_lost_when_transport_fails_mid_read() {
    let t = MockTransport { input: vec![7, 8], written: Vec::new(), synced: Vec::new(), fail: false };
    let mut c = SerialController::new(t);
    assert_eq!(c.peek(1).unwrap(), 8);
    // the device goes away after the window was filled
    c.port_mut().fail = true;
    let mut buf = vec![0u8; 3];
    assert!(matches!(c.read_into(&mut buf), Err(AdapterError::Transport(_))));
    // the window had already been drained into the discarded buffer
    assert_eq!(buf[0], 7);
    assert_eq!(buf[1], 8);
    c.port_mut().fail = false;
    assert!(matches!(c.peek(0), Err(AdapterError::WouldBlock)));
}

#[test]
fn window_alone_satisfies_read_when_transport_is_dry() {
    let t = MockTransport { input: vec![7, 8], written: Vec::new(), synced: Vec::new(), fail: false };
    let mut c = SerialController::new(t);
    assert_eq!(c.peek(1).unwrap(), 8);
    let mut buf = vec![0u8; 2];
    c.read_into(&mut buf).unwrap();
    assert_eq!(buf, vec![7, 8]);
}
