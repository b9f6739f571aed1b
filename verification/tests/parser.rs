use launcher_shim::handshake::HandshakeRecord;
use launcher_shim::parse_handshake;

fn parsed(s: &str) -> Option<(String, u16, i64)> {
    parse_handshake(s).map(|r: HandshakeRecord| (r.host, r.port, r.pid))
}

/// What serde_json makes of the same document, reduced to the three fields.
fn serde_parsed(s: &str) -> Option<(String, u16, i64)> {
    let v: serde_json::Value = match serde_json::from_str(s) {
        Ok(v) => v,
        Err(_) => return None,
    };
    let host = v.get("host")?.as_str()?.to_string();
    let port: u64 = v.get("port")?.as_u64()?;
    if port > 65535 {
        return None;
    }
    let pid: i64 = v.get("pid")?.as_i64()?;
    Some((host, port as u16, pid))
}

#[test]
fn parses_canonical_document() {
    let r = parsed("{\"host\":\"127.0.0.1\",\"port\":5173,\"pid\":4242}").unwrap();
    assert_eq!(r.0, "127.0.0.1");
    assert_eq!(r.1, 5173);
    assert_eq!(r.2, 4242);
}

#[test]
fn parses_with_whitespace_and_any_field_order() {
    let r = parsed(" {\n  \"pid\": 7 ,\t\"host\" : \"localhost\", \"port\": 80 }\r\n").unwrap();
    assert_eq!(r.0, "localhost");
    assert_eq!(r.1, 80);
    assert_eq!(r.2, 7);
}

#[test]
fn ignores_unknown_fields() {
    let r = parsed("{\"host\":\"h\",\"note\":\"x\",\"port\":1,\"extra\":9,\"pid\":2}").unwrap();
    assert_eq!(r.0, "h");
    assert_eq!(r.1, 1);
    assert_eq!(r.2, 2);
}

#[test]
fn accepts_port_bounds_and_empty_host() {
    assert_eq!(parsed("{\"host\":\"\",\"port\":0,\"pid\":0}").unwrap(), ("".to_string(), 0, 0));
    let r = parsed("{\"host\":\"h\",\"port\":65535,\"pid\":-1}").unwrap();
    assert_eq!(r.1, 65535);
    assert_eq!(r.2, -1);
}

#[test]
fn rejects_port_out_of_range() {
    assert!(parsed("{\"host\":\"h\",\"port\":65536,\"pid\":1}").is_none());
    assert!(parsed("{\"host\":\"h\",\"port\":-1,\"pid\":1}").is_none());
}

#[test]
fn rejects_missing_fields() {
    assert!(parsed("{}").is_none());
    assert!(parsed("{\"host\":\"h\",\"port\":1}").is_none());
    assert!(parsed("{\"port\":1,\"pid\":2}").is_none());
}

#[test]
fn rejects_duplicate_known_fields() {
    assert!(parsed("{\"host\":\"a\",\"host\":\"b\",\"port\":1,\"pid\":2}").is_none());
    assert!(parsed("{\"host\":\"a\",\"port\":1,\"port\":1,\"pid\":2}").is_none());
}

#[test]
fn rejects_ill_typed_fields() {
    assert!(parsed("{\"host\":1,\"port\":1,\"pid\":2}").is_none());
    assert!(parsed("{\"host\":\"h\",\"port\":\"1\",\"pid\":2}").is_none());
    assert!(parsed("{\"host\":\"h\",\"port\":1,\"pid\":\"2\"}").is_none());
}

#[test]
fn tolerates_truncated_and_malformed_content() {
    assert!(parsed("").is_none());
    assert!(parsed("   ").is_none());
    assert!(parsed("{\"host\":\"127.0.0.1\",\"po").is_none());
    assert!(parsed("{\"host\":\"127.0.0.1\",\"port\":51").is_none());
    assert!(parsed("not json at all").is_none());
    assert!(parsed("{\"host\":\"h\" \"port\":1,\"pid\":2}").is_none());
    assert!(parsed("{\"host\":\"h\",\"port\":1,\"pid\":2").is_none());
    assert!(parsed("{\"host\":\"h\",\"port\":01,\"pid\":2}").is_none());
    assert!(parsed("{\"host\":\"h\",\"port\":1,\"pid\":2}}").is_none());
    assert!(parsed("{\"host\":\"h\",\"port\":1,\"pid\":2} x").is_none());
}

#[test]
fn pid_digit_budget() {
    let r = parsed("{\"host\":\"h\",\"port\":1,\"pid\":999999999999999999}").unwrap();
    assert_eq!(r.2, 999_999_999_999_999_999);
    let r = parsed("{\"host\":\"h\",\"port\":1,\"pid\":-999999999999999999}").unwrap();
    assert_eq!(r.2, -999_999_999_999_999_999);
    assert!(parsed("{\"host\":\"h\",\"port\":1,\"pid\":1999999999999999999}").is_none());
}

#[test]
fn agrees_with_serde_json_on_typical_documents() {
    let cases: Vec<&str> = vec![
        "{\"host\":\"127.0.0.1\",\"port\":5173,\"pid\":4242}",
        " { \"port\" : 1 , \"pid\" : 2 , \"host\" : \"a.b\" } ",
        "{\"host\":\"\",\"port\":0,\"pid\":0}",
        "{\"host\":\"h\",\"port\":65535,\"pid\":-1}",
        "{\"host\":\"127.0.0.1\",\"po",
        "{\"host\":\"h\",\"port\":65536,\"pid\":1}",
        "{\"host\":\"h\",\"port\":1}",
        "",
        "null",
        "{\"host\":\"h\",\"port\":1,\"pid\":2} trailing",
    ];
    for c in cases {
        assert_eq!(parsed(c), serde_parsed(c), "disagreement on {:?}", c);
    }
}
