use scred_http::h2::hpack::{HpackDecoder, HpackDynamicTable};

#[test]
fn test_hpack_decoder_creation() {
    let decoder = HpackDecoder::new();
    assert_eq!(decoder.dynamic_table.max_size, 4096);
    assert_eq!(decoder.dynamic_table.current_size, 0);
}

#[test]
fn test_static_table_lookup() {
    let decoder = HpackDecoder::new();
    
    // Index 1 should be :authority
    if let Some((name, _)) = decoder.lookup_header(1) {
        assert_eq!(name, ":authority");
    }

    // Index 2 should be :method GET
    if let Some((name, value)) = decoder.lookup_header(2) {
        assert_eq!(name, ":method");
        assert_eq!(value, "GET");
    }
}

#[test]
fn test_dynamic_table_insertion() {
    let mut table = HpackDynamicTable::new(4096);
    table.insert("custom-header".to_string(), "value".to_string());
    
    assert_eq!(table.entries.len(), 1);
    if let Some((name, value)) = table.get(1) {
        assert_eq!(name, "custom-header");
        assert_eq!(value, "value");
    }
}

#[test]
fn test_dynamic_table_eviction() {
    let mut table = HpackDynamicTable::new(100);
    
    // Add entries until eviction occurs
    table.insert("header1".to_string(), "value1".to_string());
    table.insert("header2".to_string(), "value2".to_string());
    table.insert("header3".to_string(), "value3".to_string());
    
    // Should have evicted some entries
    assert!(table.current_size <= table.max_size);
}

#[test]
fn test_integer_decode() {
    let decoder = HpackDecoder::new();
    
    // Simple case: single byte integer
    let data = vec![0x0A]; // Value 10 with 7-bit prefix
    let (value, pos) = decoder.decode_integer(&data, 0, 7).unwrap();
    assert_eq!(value, 10);
    assert_eq!(pos, 1);
}

#[test]
fn test_string_decode() {
    let decoder = HpackDecoder::new();
    
    // Simple ASCII string "hello" (length 5)
    let data = vec![0x05, b'h', b'e', b'l', b'l', b'o'];
    let (string, pos) = decoder.decode_string(&data, 0).unwrap();
    assert_eq!(string, "hello");
    assert_eq!(pos, 6);
}

#[test]
fn decode_indexed_static_field() {
    let mut decoder = HpackDecoder::new();
    let headers = decoder.decode(&[0x82, 0x84]).unwrap();
    assert_eq!(headers, vec![
        (":method".to_string(), "GET".to_string()),
        (":path".to_string(), "/".to_string()),
    ]);
}

#[test]
fn decode_literal_with_indexing_then_reference() {
    let mut decoder = HpackDecoder::new();
    let block = [0x40, 0x03, b'f', b'o', b'o', 0x03, b'b', b'a', b'r'];
    let headers = decoder.decode(&block).unwrap();
    assert_eq!(headers, vec![("foo".to_string(), "bar".to_string())]);
    assert_eq!(decoder.dynamic_table.entries.len(), 1);
    assert_eq!(decoder.dynamic_table.current_size, 3 + 3 + 32);
    // The dynamic entry is index 62, after the 61 static entries.
    let again = decoder.decode(&[0xbe, 0x82]).unwrap();
    assert_eq!(again, vec![
        ("foo".to_string(), "bar".to_string()),
        (":method".to_string(), "GET".to_string()),
    ]);
}

#[test]
fn decode_literal_with_indexed_name() {
    let mut decoder = HpackDecoder::new();
    // Without indexing, name from static index 4 (:path).
    let block = [0x04, 0x06, b'/', b'a', b'p', b'i', b'/', b'x'];
    let headers = decoder.decode(&block).unwrap();
    assert_eq!(headers, vec![(":path".to_string(), "/api/x".to_string())]);
    assert_eq!(decoder.dynamic_table.entries.len(), 0);
}

#[test]
fn decode_never_indexed_literal() {
    let mut decoder = HpackDecoder::new();
    let block = [0x10, 0x01, b'k', 0x01, b'v'];
    let headers = decoder.decode(&block).unwrap();
    assert_eq!(headers, vec![("k".to_string(), "v".to_string())]);
    assert_eq!(decoder.dynamic_table.entries.len(), 0);
}

#[test]
fn decode_size_update_evicts() {
    let mut decoder = HpackDecoder::new();
    decoder.decode(&[0x40, 0x01, b'a', 0x01, b'b']).unwrap();
    assert_eq!(decoder.dynamic_table.entries.len(), 1);
    let headers = decoder.decode(&[0x20]).unwrap();
    assert!(headers.is_empty());
    assert_eq!(decoder.dynamic_table.max_size, 0);
    assert_eq!(decoder.dynamic_table.entries.len(), 0);
    assert_eq!(decoder.dynamic_table.current_size, 0);
}

#[test]
fn decode_multibyte_size_update() {
    let mut decoder = HpackDecoder::new();
    decoder.decode(&[0x3f, 0xe1, 0x1f]).unwrap();
    assert_eq!(decoder.dynamic_table.max_size, 4096);
}

#[test]
fn decode_unknown_index_is_skipped_when_indexed() {
    let mut decoder = HpackDecoder::new();
    let headers = decoder.decode(&[0xff, 0x00]).unwrap();
    assert!(headers.is_empty());
}

#[test]
fn decode_unknown_literal_name_index_fails() {
    let mut decoder = HpackDecoder::new();
    let err = decoder.decode(&[0x0f, 0x70]).unwrap_err();
    assert_eq!(err, "Unknown header index: 127");
}

#[test]
fn decode_truncated_string_fails() {
    let mut decoder = HpackDecoder::new();
    assert_eq!(decoder.decode(&[0x00]).unwrap_err(), "Not enough data to decode string");
    assert_eq!(decoder.decode(&[0x00, 0x05, b'a']).unwrap_err(), "String extends past data boundary");
}

#[test]
fn decode_integer_errors() {
    let decoder = HpackDecoder::new();
    assert_eq!(decoder.decode_integer(&[], 0, 7).unwrap_err(), "Not enough data to decode integer");
    assert_eq!(decoder.decode_integer(&[0x7f, 0x80], 0, 7).unwrap_err(), "Incomplete integer encoding");
    let long = [0x7f, 0xff, 0xff, 0xff, 0xff, 0xff, 0xff, 0xff, 0xff, 0xff, 0xff, 0x01];
    assert_eq!(decoder.decode_integer(&long, 0, 7).unwrap_err(), "Integer overflow");
}

#[test]
fn decode_integer_multibyte_value() {
    let decoder = HpackDecoder::new();
    // RFC 7541 C.1.2: 1337 with a 5-bit prefix.
    assert_eq!(decoder.decode_integer(&[0x1f, 0x9a, 0x0a], 0, 5).unwrap(), (1337, 3));
}

#[test]
fn decode_invalid_utf8_string_fails_and_huffman_falls_back() {
    let decoder = HpackDecoder::new();
    assert!(decoder.decode_string(&[0x01, 0xff], 0).is_err());
    let (s, pos) = decoder.decode_string(&[0x81, 0xff], 0).unwrap();
    assert_eq!(s, "[huffman-encoded-data]");
    assert_eq!(pos, 2);
}

#[test]
fn table_insert_then_get_newest() {
    let mut table = HpackDynamicTable::new(100);
    table.insert("a".to_string(), "1".to_string());
    table.insert("b".to_string(), "2".to_string());
    assert_eq!(table.get(1), Some(("b".to_string(), "2".to_string())));
    assert_eq!(table.get(2), Some(("a".to_string(), "1".to_string())));
    assert_eq!(table.get(3), None);
    assert_eq!(table.get(0), None);
}

#[test]
fn table_oversize_entry_empties_table() {
    let mut table = HpackDynamicTable::new(40);
    table.insert("a".to_string(), "1".to_string());
    assert_eq!(table.entries.len(), 1);
    table.insert("long-name".to_string(), "long-value".to_string());
    assert_eq!(table.entries.len(), 0);
    assert_eq!(table.current_size, 0);
}

#[test]
fn decode_uses_rfc_index_space() {
    let mut decoder = HpackDecoder::new();
    let block = [0x82, 0x44, 0x02, b'/', b'x', 0x87, 0x41, 0x01, b'h'];
    let headers = decoder.decode(&block).unwrap();
    assert_eq!(headers, vec![
        (":method".to_string(), "GET".to_string()),
        (":path".to_string(), "/x".to_string()),
        (":scheme".to_string(), "https".to_string()),
        (":authority".to_string(), "h".to_string()),
    ]);
    assert_eq!(decoder.lookup_header(8), Some((":status".to_string(), "200".to_string())));
    assert_eq!(decoder.lookup_header(61), Some(("www-authenticate".to_string(), "".to_string())));
    assert_eq!(decoder.lookup_header(62), Some((":path".to_string(), "/x".to_string())));
    assert_eq!(decoder.lookup_header(0), None);
}

#[test]
fn decode_indexed_zero_fails() {
    let mut decoder = HpackDecoder::new();
    assert_eq!(decoder.decode(&[0x80]).unwrap_err(), "Unknown header index: 0");
}
