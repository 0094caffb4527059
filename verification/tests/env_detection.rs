use scred_http::env_detection::{classify_sample, contains_null_bytes, env_counts, has_high_non_printable_ratio, EnvCounts, SampleKind};

#[test]
fn binary_samples() {
    assert_eq!(classify_sample(b"abc\0def"), SampleKind::Binary("Binary content detected (null bytes)".to_string()));
    assert_eq!(classify_sample(&[1u8, 2, 3, b'a']), SampleKind::Binary("Binary content detected (non-printable chars)".to_string()));
    assert_eq!(classify_sample(&[b'a', b'b', b'c', 0xff]), SampleKind::Binary("Invalid UTF-8 detected".to_string()));
    assert!(contains_null_bytes(&[1, 0]));
    assert!(!contains_null_bytes(b"x"));
    assert!(!has_high_non_printable_ratio(b""));
    assert!(!has_high_non_printable_ratio(&[1, 2, 3, b'a', b'b', b'c', b'd', b'e', b'f', b'g']));
    assert!(has_high_non_printable_ratio(&[1, 2, 3, 4, b'b', b'c', b'd', b'e', b'f', b'g']));
}

#[test]
fn env_line_counts() {
    let c = env_counts("API_KEY=abc\n# comment=1\n  PATH=/bin\nplain text\nmy_token = x\n");
    assert_eq!(c, EnvCounts { lines: 5, var_equals: 3, secret_keywords: 2, common_env: 1 });
    match classify_sample(b"HOME=/root\nSECRET=1") {
        SampleKind::Text(c) => assert_eq!(c, EnvCounts { lines: 2, var_equals: 2, secret_keywords: 1, common_env: 1 }),
        _ => panic!("expected text"),
    }
}

#[test]
fn only_the_first_512_bytes_count() {
    let mut input = vec![b'a'; 512];
    input.push(0);
    match classify_sample(&input) {
        SampleKind::Text(c) => assert_eq!(c.lines, 1),
        _ => panic!("expected text"),
    }
}

#[test]
fn sample_cut_inside_a_character_is_text() {
    let mut input = "A".repeat(511).into_bytes();
    input.extend_from_slice("é".as_bytes());
    input.extend_from_slice(b"\nB=2\n");
    match classify_sample(&input) {
        SampleKind::Text(c) => assert_eq!(c.lines, 1),
        other => panic!("expected text, got {:?}", other),
    }
    // A short input ending in a cut character is still invalid.
    let mut short = b"A=1\n".to_vec();
    short.push(0xc3);
    assert!(matches!(classify_sample(&short), SampleKind::Binary(_)));
}
