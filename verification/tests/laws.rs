use scred_http::h2::connection_error::{ConnectionError, ConnectionErrorCode, ConnectionErrorManager};
use scred_http::h2::frame::{Frame, FrameType};
use scred_http::h2::frame_encoder::{FrameEncoder, HpackEncoder};
use scred_http::h2::hpack::{HpackDecoder, HpackDynamicTable};
use scred_http::h2::upstream_pool::UpstreamH2Pool;
use scred_http::header_rewriter::{extract_header_value, inject_header_if_missing};
use scred_http::location_rewriter::should_rewrite_location;

#[test]
fn frame_header_reads_back() {
    let payload = vec![7u8; 300];
    let frame = FrameEncoder::encode_frame(0x1, 0x8000_0005, &payload, true).unwrap();
    let mut header = [0u8; 9];
    header.copy_from_slice(&frame[..9]);
    assert_eq!(FrameEncoder::parse_frame_header(&header), Ok((300, 0x1, 1, 5)));
    let frame = FrameEncoder::encode_frame(0x0, 3, &[], false).unwrap();
    header.copy_from_slice(&frame[..9]);
    assert_eq!(FrameEncoder::parse_frame_header(&header), Ok((0, 0x0, 0, 3)));
}

#[test]
fn hpack_integer_reads_back() {
    let enc = HpackEncoder::new();
    let dec = HpackDecoder::new();
    for (value, bits, pattern) in [(10u64, 5u8, 0x00u8), (1337, 5, 0x20), (31, 5, 0), (0, 8, 0), (u64::MAX, 7, 0x80), (127, 7, 0)] {
        let mut bytes = enc.encode_integer(value, bits, pattern).unwrap();
        let n = bytes.len();
        bytes.push(0xff);
        assert_eq!(dec.decode_integer(&bytes, 0, bits), Ok((value, n)));
    }
}

#[test]
fn summary_counts_add_up_to_error_count() {
    let mut m = ConnectionErrorManager::new();
    m.record_error(ConnectionError::new(ConnectionErrorCode::ProtocolError, "a".to_string()));
    m.record_error(ConnectionError::new(ConnectionErrorCode::ProtocolError, "b".to_string()));
    m.record_error(ConnectionError::new(ConnectionErrorCode::FlowControlError, "c".to_string()));
    m.record_error(ConnectionError::new(ConnectionErrorCode::NoError, "d".to_string()));
    let s = m.summary();
    let names = [
        "NO_ERROR", "PROTOCOL_ERROR", "INTERNAL_ERROR", "FLOW_CONTROL_ERROR", "SETTINGS_TIMEOUT",
        "STREAM_CLOSED_ERROR", "FRAME_SIZE_ERROR", "REFUSED_STREAM_ERROR", "CANCEL_ERROR",
        "COMPRESSION_ERROR", "CONNECTION_ERROR",
    ];
    let total: usize = names.iter().map(|n| s.get(n).copied().unwrap_or(0)).sum();
    assert_eq!(total, m.error_count());
    assert_eq!(s.get("PROTOCOL_ERROR"), Some(&2));
}

#[test]
fn pool_never_reuses_ids() {
    let mut pool = UpstreamH2Pool::new();
    let a = pool.get_or_create("a.example", 443).unwrap();
    let b = pool.get_or_create("b.example", 443).unwrap();
    let c = pool.get_or_create("a.example", 8443).unwrap();
    assert!(a.id != b.id && a.id != c.id && b.id != c.id);
    let again = pool.get_or_create("a.example", 443).unwrap();
    assert_eq!(again.id, a.id);
}

#[test]
fn table_keeps_longest_newest_run() {
    // each entry is 32 + 1 + 1 = 34 bytes; a 100-byte table holds two
    let mut t = HpackDynamicTable::new(100);
    t.insert("a".to_string(), "1".to_string());
    t.insert("b".to_string(), "2".to_string());
    t.insert("c".to_string(), "3".to_string());
    assert_eq!(t.get(1), Some(("c".to_string(), "3".to_string())));
    assert_eq!(t.get(2), Some(("b".to_string(), "2".to_string())));
    assert_eq!(t.get(3), None);
}

#[test]
fn literal_list_decodes_back() {
    let entries = vec![
        ("content-type".to_string(), "text/plain".to_string()),
        ("x-émoji".to_string(), "☃".to_string()),
        ("content-type".to_string(), "again".to_string()),
    ];
    let bytes = HpackEncoder::new().encode_list(&entries);
    let mut d = HpackDecoder::new();
    // one field per name: the value given last, where the name first appears
    assert_eq!(
        d.decode(&bytes),
        Ok(vec![
            ("content-type".to_string(), "again".to_string()),
            ("x-émoji".to_string(), "☃".to_string()),
        ])
    );
}

#[test]
fn encoded_map_decodes_to_the_map() {
    let mut h = std::collections::HashMap::new();
    h.insert("content-type".to_string(), "text/plain".to_string());
    h.insert("x-long".to_string(), "v".repeat(300));
    h.insert("authorization".to_string(), "Bearer t".to_string());
    let bytes = HpackEncoder::new().encode(&h).unwrap();
    let decoded = HpackDecoder::new().decode(&bytes).unwrap();
    assert_eq!(decoded.len(), h.len());
    let back: std::collections::HashMap<String, String> = decoded.into_iter().collect();
    assert_eq!(back, h);
}

#[test]
fn data_frame_reads_back_through_frame_parse() {
    let data = vec![1u8, 2, 3, 4, 5];
    for (sid, es) in [(1u32, true), (0x8000_0007, false)] {
        let f = FrameEncoder::encode_data_frame(sid, &data, es).unwrap();
        assert_eq!(f.len(), 9 + data.len());
        assert_eq!(&f[9..], &data[..]);
        let fr = Frame::parse(&f[..9]).unwrap();
        assert_eq!(fr.length as usize, data.len());
        assert_eq!(fr.frame_type, FrameType::Data);
        assert_eq!(fr.stream_id, sid & 0x7FFF_FFFF);
        assert_eq!(fr.is_end_stream(), es);
        assert_eq!(f[4], es as u8);
    }
}

#[test]
fn injecting_twice_is_injecting_once() {
    for start in ["GET / HTTP/1.1\r\nUser-Agent: curl\r\n\r\nbody", "User-Agent: curl", "", "A: b\r\n"] {
        let mut once = start.to_string();
        inject_header_if_missing(&mut once, "Host", "example.com");
        assert_eq!(extract_header_value(&once, "Host"), Some("example.com".to_string()));
        let mut twice = once.clone();
        inject_header_if_missing(&mut twice, "Host", "example.com");
        assert_eq!(twice, once);
    }
    let mut kept = "Host: already-present.com\r\nUser-Agent: curl\r\n".to_string();
    inject_header_if_missing(&mut kept, "Host", "other.com");
    assert_eq!(kept, "Host: already-present.com\r\nUser-Agent: curl\r\n");
}

#[test]
fn location_hosts_compare_without_case() {
    assert!(should_rewrite_location("https://HTTPBIN.org/path", "httpbin.org"));
    assert!(!should_rewrite_location("/path", "httpbin.org"));
    assert!(!should_rewrite_location("https://example.com/path", "httpbin.org"));
}
