use ramloader::codec::{encode_frame, FrameCodec};
use ramloader::dispatcher::{Dispatcher, IndicatorState};
use ramloader::loader::Bootloader;
use ramloader::memory::Memory;
use ramloader::schema::{
    deserialize_response, serialize_request, ErrorKind, Host2TargetMessage, Target2HostMessage,
};
use ramloader::validator::{is_writable, MemoryRegion};

const WRITABLE_START: u32 = 0x2000_0000;
const WRITABLE_END: u32 = 0x2000_1000;
const RESERVED_START: u32 = 0x2000_0C00;
const RESERVED_END: u32 = 0x2000_1000;

fn test_region() -> MemoryRegion {
    MemoryRegion::new(WRITABLE_START, WRITABLE_END, RESERVED_START, RESERVED_END)
}

fn test_loader() -> Bootloader {
    let memory = Memory::new(WRITABLE_START, WRITABLE_END - WRITABLE_START);
    Bootloader::new(test_region(), memory)
}

fn test_dispatcher() -> Dispatcher {
    let memory = Memory::new(WRITABLE_START, WRITABLE_END - WRITABLE_START);
    Dispatcher::new(test_region(), memory)
}

/// Feed a whole command frame into the loader and collect the decoded
/// responses it emits.
fn send(loader: &mut Bootloader, request: &Host2TargetMessage) -> Vec<Target2HostMessage> {
    let frame = encode_frame(&serialize_request(request));
    let mut responses = Vec::new();
    for &b in &frame {
        if let Some(out) = loader.feed_byte(b) {
            let mut codec = FrameCodec::new();
            let mut payload = None;
            for &rb in &out {
                if let Ok(Some(p)) = codec.feed(rb) {
                    payload = Some(p);
                }
            }
            let payload = payload.expect("response is one complete frame");
            responses.push(deserialize_response(&payload).expect("response decodes"));
        }
    }
    responses
}

#[test]
fn overflowing_range_is_rejected() {
    let region = test_region();
    assert!(!is_writable(&region, 0xFFFF_FFFF, 2));
    assert!(!is_writable(&region, 0xFFFF_FFFE, 4));
}

#[test]
fn boundary_exactness_at_reserved_range() {
    let region = test_region();
    // A range that ends exactly where the reserved range begins is accepted;
    // shifted up one byte it overlaps the boundary and is rejected.
    let length = 16u32;
    let address = RESERVED_START - length;
    assert!(is_writable(&region, address, length));
    assert!(!is_writable(&region, address + 1, length));

    // Same exactness above a reserved range that sits in the middle.
    let region = MemoryRegion::new(100, 200, 150, 160);
    assert!(is_writable(&region, 160, 16));
    assert!(!is_writable(&region, 159, 16));
}

#[test]
fn range_outside_writable_is_rejected() {
    let region = test_region();
    assert!(!is_writable(&region, WRITABLE_START - 1, 2));
    assert!(!is_writable(&region, WRITABLE_END - 1, 2));
    assert!(!is_writable(&region, 0, 4));
}

#[test]
fn write_is_idempotent() {
    let mut dispatcher = test_dispatcher();
    let request = Host2TargetMessage::WriteChunk {
        address: WRITABLE_START + 8,
        data: vec![0xDE, 0xAD, 0xBE, 0xEF],
    };
    assert_eq!(dispatcher.handle_request(&request), Target2HostMessage::Ack);
    let after_once: Vec<u8> =
        (0..16).map(|i| dispatcher.read_byte(WRITABLE_START + i)).collect();
    assert_eq!(dispatcher.handle_request(&request), Target2HostMessage::Ack);
    let after_twice: Vec<u8> =
        (0..16).map(|i| dispatcher.read_byte(WRITABLE_START + i)).collect();
    assert_eq!(after_once, after_twice);
    assert_eq!(&after_once[8..12], &[0xDE, 0xAD, 0xBE, 0xEF]);
}

#[test]
fn ping_yields_exactly_one_pong() {
    let mut loader = test_loader();
    assert_eq!(loader.indicator(), IndicatorState::Idle);
    let responses = send(&mut loader, &Host2TargetMessage::Ping);
    assert_eq!(responses, vec![Target2HostMessage::Pong]);
    // No memory mutated, indicator back to idle, no handoff armed.
    for i in 0..(WRITABLE_END - WRITABLE_START) {
        assert_eq!(loader.read_byte(WRITABLE_START + i), 0);
    }
    assert_eq!(loader.indicator(), IndicatorState::Idle);
    assert_eq!(loader.pending_handoff(), None);
}

#[test]
fn write_into_reserved_range_is_nacked() {
    let mut loader = test_loader();
    let request = Host2TargetMessage::WriteChunk { address: RESERVED_START, data: vec![0x01] };
    let responses = send(&mut loader, &request);
    assert_eq!(
        responses,
        vec![Target2HostMessage::Nack { reason: ErrorKind::OverlapsReserved }]
    );
    assert_eq!(loader.read_byte(RESERVED_START), 0);
}

#[test]
fn write_outside_writable_range_is_nacked_out_of_bounds() {
    let mut loader = test_loader();
    let request = Host2TargetMessage::WriteChunk { address: WRITABLE_END, data: vec![0x01] };
    let responses = send(&mut loader, &request);
    assert_eq!(responses, vec![Target2HostMessage::Nack { reason: ErrorKind::OutOfBounds }]);
}

#[test]
fn write_then_execute_hands_off() {
    let mut loader = test_loader();
    let write = Host2TargetMessage::WriteChunk {
        address: WRITABLE_START,
        data: vec![0xAA, 0xBB],
    };
    assert_eq!(send(&mut loader, &write), vec![Target2HostMessage::Ack]);
    assert_eq!(loader.read_byte(WRITABLE_START), 0xAA);
    assert_eq!(loader.read_byte(WRITABLE_START + 1), 0xBB);

    let execute = Host2TargetMessage::Execute { entry_point: WRITABLE_START };
    assert_eq!(send(&mut loader, &execute), vec![Target2HostMessage::Ack]);
    // The handoff is armed for the harness to intercept, never jumped to.
    assert_eq!(loader.pending_handoff(), Some(WRITABLE_START));
}

#[test]
fn execute_at_invalid_entry_point_is_nacked() {
    let mut loader = test_loader();
    // Inside the reserved range: a single-address fetch there is invalid.
    let execute = Host2TargetMessage::Execute { entry_point: RESERVED_START };
    assert_eq!(
        send(&mut loader, &execute),
        vec![Target2HostMessage::Nack { reason: ErrorKind::OutOfBounds }]
    );
    assert_eq!(loader.pending_handoff(), None);

    let execute = Host2TargetMessage::Execute { entry_point: 0x1000_0000 };
    assert_eq!(
        send(&mut loader, &execute),
        vec![Target2HostMessage::Nack { reason: ErrorKind::OutOfBounds }]
    );
    assert_eq!(loader.pending_handoff(), None);
}

#[test]
fn oversized_frame_never_reaches_the_dispatcher() {
    let mut loader = test_loader();
    // The delimiter is never seen within the bound: one oversize report,
    // no response, memory untouched.
    for _ in 0..601 {
        assert_eq!(loader.feed_byte(0x41), None);
    }
    assert_eq!(loader.indicator(), IndicatorState::Error);
    assert_eq!(loader.feed_byte(0x00), None);
    // Resynchronized: the next well-formed frame is processed normally.
    let responses = send(&mut loader, &Host2TargetMessage::Ping);
    assert_eq!(responses, vec![Target2HostMessage::Pong]);
    for i in 0..(WRITABLE_END - WRITABLE_START) {
        assert_eq!(loader.read_byte(WRITABLE_START + i), 0);
    }
}

#[test]
fn malformed_message_gets_no_response() {
    let mut loader = test_loader();
    // A well-formed frame whose payload has an unknown tag.
    let frame = encode_frame(&[9, 9, 9]);
    for &b in &frame {
        assert_eq!(loader.feed_byte(b), None);
    }
    assert_eq!(loader.indicator(), IndicatorState::Error);
    // The loader recovers: the next command is answered.
    assert_eq!(send(&mut loader, &Host2TargetMessage::Ping), vec![Target2HostMessage::Pong]);
}
