use ramloader::codec::{encode_frame, FrameCodec, FrameError};
use ramloader::schema::{
    deserialize_request, deserialize_response, serialize_request, serialize_response, ErrorKind,
    Host2TargetMessage, SchemaError, Target2HostMessage,
};

/// Feed a byte slice into a codec and collect every decoded payload.
fn feed_all(codec: &mut FrameCodec, bytes: &[u8]) -> Vec<Vec<u8>> {
    let mut frames = Vec::new();
    for &b in bytes {
        if let Ok(Some(p)) = codec.feed(b) {
            frames.push(p);
        }
    }
    frames
}

#[test]
fn escaping_is_exact() {
    // Delimiter (0x00) and escape (0x01) bytes are escaped; others stand
    // for themselves; the delimiter terminates the frame.
    let encoded = encode_frame(&[0x00, 0x01, 0x41]);
    assert_eq!(encoded, vec![0x01, 0x02, 0x01, 0x03, 0x41, 0x00]);
}

#[test]
fn frame_round_trip_byte_at_a_time() {
    let payload = vec![0x00u8, 0x01, 0x02, 0xFF, 0x00, 0x7E];
    let encoded = encode_frame(&payload);
    let mut codec = FrameCodec::new();
    for (i, &b) in encoded.iter().enumerate() {
        let out = codec.feed(b).expect("no frame error");
        if i + 1 == encoded.len() {
            assert_eq!(out.expect("a frame at the delimiter"), payload);
        } else {
            assert!(out.is_none());
        }
    }
}

#[test]
fn corrupt_escape_pair_is_reported() {
    let mut codec = FrameCodec::new();
    assert_eq!(codec.feed(0x01), Ok(None));
    assert_eq!(codec.feed(0x09), Ok(None));
    assert_eq!(codec.feed(0x00), Err(FrameError::Corrupt));
}

#[test]
fn dangling_escape_is_reported() {
    let mut codec = FrameCodec::new();
    assert_eq!(codec.feed(0x01), Ok(None));
    assert_eq!(codec.feed(0x00), Err(FrameError::Corrupt));
}

#[test]
fn oversized_frame_then_resynchronization() {
    let mut codec = FrameCodec::new();
    // 600 body bytes fit; the 601st trips the bound exactly once.
    for _ in 0..600 {
        assert_eq!(codec.feed(0x41), Ok(None));
    }
    assert_eq!(codec.feed(0x41), Err(FrameError::Oversized));
    // Later garbage is discarded silently until the next delimiter.
    assert_eq!(codec.feed(0x42), Ok(None));
    assert_eq!(codec.feed(0x43), Ok(None));
    assert_eq!(codec.feed(0x00), Ok(None));
    // The next well-formed frame is processed normally.
    let payload = vec![0xAAu8, 0xBB];
    let frames = feed_all(&mut codec, &encode_frame(&payload));
    assert_eq!(frames, vec![payload]);
}

#[test]
fn request_round_trip() {
    let messages = vec![
        Host2TargetMessage::Ping,
        Host2TargetMessage::WriteChunk { address: 0x2000_0000, data: vec![1, 2, 3, 0, 255] },
        Host2TargetMessage::WriteChunk { address: 0, data: vec![] },
        Host2TargetMessage::Execute { entry_point: 0x2000_0004 },
    ];
    for m in messages {
        let bytes = serialize_request(&m);
        assert_eq!(deserialize_request(&bytes), Ok(m));
    }
}

#[test]
fn response_round_trip() {
    let messages = vec![
        Target2HostMessage::Ack,
        Target2HostMessage::Nack { reason: ErrorKind::OutOfBounds },
        Target2HostMessage::Nack { reason: ErrorKind::OverlapsReserved },
        Target2HostMessage::Pong,
    ];
    for m in messages {
        let bytes = serialize_response(&m);
        assert_eq!(deserialize_response(&bytes), Ok(m));
    }
}

#[test]
fn request_wire_bytes_are_exact() {
    let bytes = serialize_request(&Host2TargetMessage::Execute { entry_point: 0x1234_5678 });
    assert_eq!(bytes, vec![2, 0x78, 0x56, 0x34, 0x12]);

    let bytes = serialize_request(&Host2TargetMessage::WriteChunk {
        address: 0x2000_0001,
        data: vec![0xAB, 0xCD],
    });
    assert_eq!(bytes, vec![1, 0x01, 0x00, 0x00, 0x20, 0x02, 0x00, 0xAB, 0xCD]);

    assert_eq!(serialize_request(&Host2TargetMessage::Ping), vec![0]);
}

#[test]
fn response_wire_bytes_are_exact() {
    assert_eq!(serialize_response(&Target2HostMessage::Ack), vec![0]);
    assert_eq!(
        serialize_response(&Target2HostMessage::Nack { reason: ErrorKind::OutOfBounds }),
        vec![1, 0]
    );
    assert_eq!(
        serialize_response(&Target2HostMessage::Nack { reason: ErrorKind::OverlapsReserved }),
        vec![1, 1]
    );
    assert_eq!(serialize_response(&Target2HostMessage::Pong), vec![2]);
}

#[test]
fn unknown_tag_is_rejected() {
    assert_eq!(deserialize_request(&[9]), Err(SchemaError::UnknownTag));
    assert_eq!(deserialize_response(&[9]), Err(SchemaError::UnknownTag));
    // A Nack with an unknown reason code is no known message either.
    assert_eq!(deserialize_response(&[1, 7]), Err(SchemaError::UnknownTag));
}

#[test]
fn truncated_messages_are_rejected() {
    assert_eq!(deserialize_request(&[]), Err(SchemaError::Truncated));
    assert_eq!(deserialize_request(&[1, 0, 0]), Err(SchemaError::Truncated));
    assert_eq!(deserialize_request(&[2, 0, 0, 0]), Err(SchemaError::Truncated));
    assert_eq!(deserialize_response(&[]), Err(SchemaError::Truncated));
    assert_eq!(deserialize_response(&[1]), Err(SchemaError::Truncated));
}

#[test]
fn length_mismatch_is_rejected() {
    // Ping and Execute carry fixed fields: trailing bytes are inconsistent.
    assert_eq!(deserialize_request(&[0, 0]), Err(SchemaError::LengthMismatch));
    assert_eq!(deserialize_request(&[2, 0, 0, 0, 0, 0]), Err(SchemaError::LengthMismatch));
    // A WriteChunk whose length field disagrees with the remaining bytes.
    assert_eq!(
        deserialize_request(&[1, 0, 0, 0, 0x20, 3, 0, 0xAB]),
        Err(SchemaError::LengthMismatch)
    );
    assert_eq!(deserialize_response(&[0, 0]), Err(SchemaError::LengthMismatch));
}
