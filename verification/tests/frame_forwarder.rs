use scred_http::h2::frame_forwarder::{extract_stream_id, set_stream_id, validate_settings_frame, check_client_preface, connection_preface, settings_ack_frame, FrameForwarderConfig, ForwardingSession};
use scred_http::h2::header_redactor::HeaderRedactor;
use scred_http::h2::hpack_encoder::HpackEncoder;
use std::collections::HashMap;

#[test]
fn test_extract_stream_id() {
    // Stream ID 1 (odd = client-initiated)
    let mut header = vec![0, 0, 0, 0, 0, 0, 0, 0, 1];
    assert_eq!(extract_stream_id(&header), 1);

    // Stream ID 2 (even = server-initiated)
    header[8] = 2;
    assert_eq!(extract_stream_id(&header), 2);

    // Large stream ID
    header[5] = 0x7F;
    header[6] = 0xFF;
    header[7] = 0xFF;
    header[8] = 0xFF;
    assert_eq!(extract_stream_id(&header), 0x7FFF_FFFF);

    // Reserved bit should be masked
    header[5] = 0xFF;
    assert_eq!(extract_stream_id(&header), 0x7FFF_FFFF);
}

#[test]
fn test_set_stream_id() {
    let mut header = vec![0, 0, 0, 0, 0, 0, 0, 0, 0];
    set_stream_id(&mut header, 1);
    assert_eq!(extract_stream_id(&header), 1);

    set_stream_id(&mut header, 0x7FFF_FFFF);
    assert_eq!(extract_stream_id(&header), 0x7FFF_FFFF);
}

#[test]
fn test_validate_settings_frame() {
    // Valid empty SETTINGS
    assert!(validate_settings_frame(&[]).is_ok());

    // Valid SETTINGS_ENABLE_PUSH = 0
    let mut settings = vec![0, 2, 0, 0, 0, 0];
    assert!(validate_settings_frame(&settings).is_ok());

    // Invalid SETTINGS_ENABLE_PUSH = 2 (must be 0 or 1)
    settings[5] = 2;
    assert!(validate_settings_frame(&settings).is_err());

    // Invalid frame length (not multiple of 6)
    assert!(validate_settings_frame(&[0, 2, 0, 0, 0]).is_err());
}

#[test]
fn test_stream_id_mapping() {
    let mut stream_map = HashMap::new();
    let mut next_upstream_id = 1u32;

    // Map client stream 1 to upstream stream 1
    let upstream_1 = *stream_map.entry(1).or_insert_with(|| {
        let id = next_upstream_id;
        next_upstream_id += 2;
        id
    });
    assert_eq!(upstream_1, 1);
    assert_eq!(next_upstream_id, 3);

    // Map client stream 3 to upstream stream 3
    let upstream_3 = *stream_map.entry(3).or_insert_with(|| {
        let id = next_upstream_id;
        next_upstream_id += 2;
        id
    });
    assert_eq!(upstream_3, 3);
    assert_eq!(next_upstream_id, 5);
}

#[test]
fn settings_bounds_messages() {
    assert_eq!(validate_settings_frame(&[0, 2, 0, 0, 0]).unwrap_err(), "Invalid SETTINGS frame length");
    assert_eq!(validate_settings_frame(&[0, 4, 0x80, 0, 0, 0]).unwrap_err(), "SETTINGS_INITIAL_WINDOW_SIZE out of bounds");
    assert_eq!(validate_settings_frame(&[0, 5, 0, 0, 0x10, 0]).unwrap_err(), "SETTINGS_MAX_FRAME_SIZE must be 16384-16777215");
    assert!(validate_settings_frame(&[0, 5, 0, 0, 0x40, 0, 0, 9, 0xff, 0xff, 0xff, 0xff]).is_ok());
    assert_eq!(
        validate_settings_frame(&[0, 1, 0, 0, 0, 0, 0, 2, 0, 0, 0, 7]).unwrap_err(),
        "SETTINGS_ENABLE_PUSH must be 0 or 1"
    );
}

#[test]
fn preface_and_ack() {
    assert!(check_client_preface(b"PRI * HTTP/2.0\r\n\r\nSM\r\n\r\n").is_ok());
    assert_eq!(check_client_preface(b"GET / HTTP/1.1\r\n\r\n").unwrap_err(), "Invalid H2 client preface");
    assert_eq!(connection_preface(), b"PRI * HTTP/2.0\r\n\r\nSM\r\n\r\n".to_vec());
    assert_eq!(settings_ack_frame(), vec![0, 0, 0, 4, 1, 0, 0, 0, 0]);
}

#[test]
fn session_maps_client_streams_and_back() {
    let mut session = ForwardingSession::new(FrameForwarderConfig::default());
    let h3 = vec![0, 0, 2, 1, 4, 0, 0, 0, 3];
    let a = session.on_client_frame(&h3, &vec![1, 2]).unwrap();
    let (h, p) = a.forward.unwrap();
    assert_eq!(extract_stream_id(&h), 1);
    assert_eq!(p, vec![1, 2]);
    let h7 = vec![0, 0, 0, 1, 4, 0, 0, 0, 7];
    let (h, _) = session.on_client_frame(&h7, &vec![]).unwrap().forward.unwrap();
    assert_eq!(extract_stream_id(&h), 3);
    assert_eq!(session.mapped_stream(3), Some(1));
    assert_eq!(session.mapped_stream(7), Some(3));
    let up3 = vec![0, 0, 0, 0, 1, 0, 0, 0, 3];
    let (h, _) = session.on_upstream_frame(&up3, &vec![]).unwrap().forward.unwrap();
    assert_eq!(extract_stream_id(&h), 7);
    let up9 = vec![0, 0, 0, 0, 1, 0, 0, 0, 9];
    let (h, _) = session.on_upstream_frame(&up9, &vec![]).unwrap().forward.unwrap();
    assert_eq!(extract_stream_id(&h), 9);
    assert_eq!(session.stats.frames_forwarded, 4);
    assert_eq!(session.stats.bytes_forwarded, 9 * 4 + 2);
}

#[test]
fn session_settings_handling() {
    let mut session = ForwardingSession::new(FrameForwarderConfig::default());
    let settings = vec![0, 0, 6, 4, 0, 0, 0, 0, 0];
    let a = session.on_client_frame(&settings, &vec![0, 2, 0, 0, 0, 1]).unwrap();
    assert!(a.send_settings_ack);
    assert!(a.forward.is_some());
    let ack = vec![0, 0, 0, 4, 1, 0, 0, 0, 0];
    let a = session.on_upstream_frame(&ack, &vec![]).unwrap();
    assert!(!a.send_settings_ack && a.forward.is_none());
    let bad = session.on_upstream_frame(&settings, &vec![0, 2, 0, 0, 0, 5]).unwrap_err();
    assert_eq!(bad, "SETTINGS_ENABLE_PUSH must be 0 or 1");
    assert_eq!(session.stats.settings_acks_sent, 1);
    assert_eq!(session.stats.frames_forwarded, 2);
}

#[test]
fn test_set_stream_id_keeps_reserved_bit() {
    let mut header = vec![0u8, 0, 0, 1, 4, 0x80, 0, 0, 9];
    set_stream_id(&mut header, 0xFFFF_FFFF);
    assert_eq!(header, vec![0u8, 0, 0, 1, 4, 0xFF, 0xFF, 0xFF, 0xFF]);
    set_stream_id(&mut header, 3);
    assert_eq!(header, vec![0u8, 0, 0, 1, 4, 0x80, 0, 0, 3]);
    assert_eq!(extract_stream_id(&header), 3);
}

fn block_with_authorization() -> Vec<u8> {
    let mut block = HpackEncoder::encode_request_headers("GET", "/", "example.com").unwrap();
    block.push(0x00);
    block.push(13);
    block.extend_from_slice(b"authorization");
    block.push(13);
    block.extend_from_slice(b"Bearer abcdef");
    block
}

#[test]
fn session_redacts_client_header_blocks() {
    let mut session = ForwardingSession::new(FrameForwarderConfig::default());
    for round in 1..=2u64 {
        let block = block_with_authorization();
        let header = vec![0, 0, block.len() as u8, 1, 4, 0, 0, 0, 5];
        let mut action = session.on_client_frame(&header, &block).unwrap();
        assert_eq!(action.redact_stream, Some(5));
        let frame = action.forward.take().unwrap();
        let decoded = session.decode_for_redaction(true, 5, &frame.1);
        let fields = decoded.clone().unwrap();
        assert!(fields.contains(&("authorization".to_string(), "Bearer abcdef".to_string())));
        let redacted: Vec<Option<String>> = fields
            .iter()
            .map(|(n, _)| if n == "authorization" { Some("Bearer xx".to_string()) } else { None })
            .collect();
        assert!(session.redaction_has_room(true, 5, &fields, &redacted));
        let (h, p) = session.finish_redaction(true, 5, frame, decoded, redacted);
        assert_eq!(extract_stream_id(&h), 1);
        assert_eq!(h[3], 1);
        assert_eq!(((h[0] as usize) << 16) | ((h[1] as usize) << 8) | h[2] as usize, p.len());
        let mut check = HeaderRedactor::new(1);
        let back = check.decode_headers(&p).unwrap();
        assert!(back.contains(&("authorization".to_string(), "Bearer xx".to_string())));
        assert!(back.contains(&(":method".to_string(), "GET".to_string())));
        // the redactor counts each changed value twice; the session adds its running count
        let expected = if round == 1 { 2 } else { 2 + 4 };
        assert_eq!(session.stats.headers_redacted, expected);
    }
}

#[test]
fn session_forwards_original_when_block_does_not_decode() {
    let mut session = ForwardingSession::new(FrameForwarderConfig::default());
    let header = vec![0, 0, 2, 1, 4, 0, 0, 0, 3];
    let payload = vec![0x40, 0x85];
    let mut action = session.on_client_frame(&header, &payload).unwrap();
    let frame = action.forward.take().unwrap();
    let decoded = session.decode_for_redaction(true, 3, &frame.1);
    assert!(decoded.clone().unwrap_err().starts_with("HPACK decode failed: "));
    let out = session.finish_redaction(true, 3, frame.clone(), decoded, Vec::new());
    assert_eq!(out, frame);
    assert_eq!(session.stats.headers_redacted, 0);
}

#[test]
fn redaction_is_not_asked_when_disabled() {
    let config = FrameForwarderConfig { enable_header_redaction: false, ..FrameForwarderConfig::default() };
    let mut session = ForwardingSession::new(config);
    let block = block_with_authorization();
    let header = vec![0, 0, block.len() as u8, 1, 4, 0, 0, 0, 1];
    let action = session.on_client_frame(&header, &block).unwrap();
    assert_eq!(action.redact_stream, None);
    let up = vec![0, 0, 0, 1, 4, 0, 0, 0, 1];
    let mut session = ForwardingSession::new(FrameForwarderConfig::default());
    session.on_client_frame(&header, &block).unwrap();
    let action = session.on_upstream_frame(&up, &vec![]).unwrap();
    assert_eq!(action.redact_stream, Some(1));
}
