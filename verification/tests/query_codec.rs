use hometoucher::query::{
    add_value, decimal_bytes, extact_server_address, get_query_bytes, parse_query_bytes,
    prepare_query,
};

fn pair(k: &[u8], v: &[u8]) -> (Vec<u8>, Vec<u8>) {
    (k.to_vec(), v.to_vec())
}

#[test]
fn add_value_prefixes_big_endian_length() {
    let mut out = Vec::new();
    add_value(b"hi", &mut out);
    assert_eq!(out, vec![0, 2, 104, 105]);
    add_value(b"", &mut out);
    assert_eq!(out, vec![0, 2, 104, 105, 0, 0]);
}

#[test]
fn query_bytes_end_with_double_terminator() {
    let query = vec![pair(b"a", b"xy")];
    let bytes = get_query_bytes(&query);
    assert_eq!(bytes, vec![0, 1, 97, 0, 2, 120, 121, 0, 0, 0, 0]);
}

#[test]
fn decimal_bytes_exact() {
    assert_eq!(decimal_bytes(0), b"0".to_vec());
    assert_eq!(decimal_bytes(7), b"7".to_vec());
    assert_eq!(decimal_bytes(480), b"480".to_vec());
    assert_eq!(decimal_bytes(65535), b"65535".to_vec());
}

#[test]
fn prepare_query_names_all_four_keys() {
    let bytes = prepare_query(b"panel", 640, 480);
    let mut expected = Vec::new();
    for (k, v) in [
        (&b"Name"[..], &b"panel"[..]),
        (b"ScreenWidth", b"640"),
        (b"ScreenHeight", b"480"),
        (b"FormFactor", b"InWallPanel"),
    ] {
        add_value(k, &mut expected);
        add_value(v, &mut expected);
    }
    add_value(b"", &mut expected);
    add_value(b"", &mut expected);
    assert_eq!(bytes, expected);
}

#[test]
fn parse_inverts_encode() {
    let query = vec![pair(b"Server", b"10.0.0.9"), pair(b"Port", b"5900")];
    let bytes = get_query_bytes(&query);
    let parsed = parse_query_bytes(&bytes).expect("well-formed reply must parse");
    assert_eq!(parsed, query);
}

#[test]
fn parse_ignores_bytes_after_terminator() {
    // a 1024-byte reply buffer is longer than its payload
    let mut bytes = get_query_bytes(&vec![pair(b"k", b"v")]);
    bytes.extend_from_slice(&[0; 64]);
    let parsed = parse_query_bytes(&bytes).expect("padding after the terminator is fine");
    assert_eq!(parsed, vec![pair(b"k", b"v")]);
}

#[test]
fn parse_rejects_truncated_reply() {
    assert!(parse_query_bytes(&[0]).is_none());
    assert!(parse_query_bytes(&[0, 5, 97]).is_none());
    // name present, value length overruns
    assert!(parse_query_bytes(&[0, 1, 97, 0, 9, 98]).is_none());
}

#[test]
fn extract_server_address_joins_host_and_port() {
    let reply = vec![pair(b"Server", b"10.0.0.9"), pair(b"Port", b"5900")];
    let addr = extact_server_address(&reply).expect("both keys are present");
    assert_eq!(addr, b"10.0.0.9:5900".to_vec());
}

#[test]
fn extract_server_address_requires_both_keys() {
    assert!(extact_server_address(&vec![pair(b"Server", b"10.0.0.9")]).is_none());
    assert!(extact_server_address(&vec![pair(b"Port", b"5900")]).is_none());
    assert!(extact_server_address(&Vec::new()).is_none());
}
