use nats_core::connect::{empty_or_none, if_true, ConnectInfo, Quoted};
use nats_core::decoder::{decode, ServerOp};
use nats_core::encoder::{encode, ClientOp};

fn bytes_of(op: ClientOp<'_>) -> Vec<u8> {
    let mut out = Vec::new();
    encode(&mut out, op).unwrap();
    out
}

fn plain() -> ConnectInfo {
    ConnectInfo {
        name: None,
        verbose: false,
        pedantic: false,
        echo: true,
        lang: "rust".to_string(),
        version: "0.1.0".to_string(),
        tls_required: false,
        user: None,
        pass: None,
        auth_token: None,
    }
}

#[test]
fn pub_with_reply() {
    let out = bytes_of(ClientOp::Pub { subject: "a", reply_to: Some("r"), payload: b"hi" });
    assert_eq!(out, b"PUB a r 2\r\nhi\r\n".to_vec());
}

#[test]
fn pub_without_reply() {
    let out = bytes_of(ClientOp::Pub { subject: "foo.bar", reply_to: None, payload: b"" });
    assert_eq!(out, b"PUB foo.bar 0\r\n\r\n".to_vec());
}

#[test]
fn pub_with_a_long_binary_payload() {
    let payload: Vec<u8> = (0..1234u32).map(|i| (i % 256) as u8).collect();
    let out = bytes_of(ClientOp::Pub { subject: "s", reply_to: None, payload: &payload });
    let mut expected = b"PUB s 1234\r\n".to_vec();
    expected.extend_from_slice(&payload);
    expected.extend_from_slice(b"\r\n");
    assert_eq!(out, expected);
}

#[test]
fn sub_with_and_without_queue_group() {
    assert_eq!(
        bytes_of(ClientOp::Sub { subject: "a.b", queue_group: Some("q"), sid: 7 }),
        b"SUB a.b q 7\r\n".to_vec()
    );
    assert_eq!(
        bytes_of(ClientOp::Sub { subject: "a.b", queue_group: None, sid: u64::MAX }),
        b"SUB a.b 18446744073709551615\r\n".to_vec()
    );
}

#[test]
fn unsub_with_and_without_limit() {
    assert_eq!(bytes_of(ClientOp::Unsub { sid: 3, max_msgs: None }), b"UNSUB 3\r\n".to_vec());
    assert_eq!(
        bytes_of(ClientOp::Unsub { sid: 0, max_msgs: Some(10) }),
        b"UNSUB 0 10\r\n".to_vec()
    );
}

#[test]
fn ping_and_pong() {
    assert_eq!(bytes_of(ClientOp::Ping), b"PING\r\n".to_vec());
    assert_eq!(bytes_of(ClientOp::Pong), b"PONG\r\n".to_vec());
}

#[test]
fn operations_follow_one_another_without_separator() {
    let mut out = Vec::new();
    encode(&mut out, ClientOp::Sub { subject: "a", queue_group: None, sid: 1 }).unwrap();
    encode(&mut out, ClientOp::Pub { subject: "a", reply_to: None, payload: b"x" }).unwrap();
    encode(&mut out, ClientOp::Ping).unwrap();
    assert_eq!(out, b"SUB a 1\r\nPUB a 1\r\nx\r\nPING\r\n".to_vec());
}

#[test]
fn connect_with_defaults() {
    let out = bytes_of(ClientOp::Connect(plain()));
    assert_eq!(
        String::from_utf8(out).unwrap(),
        "CONNECT {\"verbose\":false,\"pedantic\":false,\"lang\":\"rust\",\"version\":\"0.1.0\",\"tls_required\":false}\r\n"
    );
}

#[test]
fn connect_with_every_member() {
    let mut info = plain();
    info.name = Some("n \"1\"".to_string());
    info.verbose = true;
    info.pedantic = true;
    info.echo = false;
    info.tls_required = true;
    info.user = Some("u".to_string());
    info.pass = Some("p\\w".to_string());
    info.auth_token = Some("t\n".to_string());
    assert_eq!(
        info.to_json().unwrap(),
        "{\"name\":\"n \\\"1\\\"\",\"verbose\":true,\"pedantic\":true,\"echo\":false,\"lang\":\"rust\",\"version\":\"0.1.0\",\"tls_required\":true,\"user\":\"u\",\"pass\":\"p\\\\w\",\"auth_token\":\"t\\n\"}"
    );
}

#[test]
fn connect_json_is_what_serde_json_reads_back() {
    let mut info = plain();
    info.name = Some("caf\u{e9} \u{1f600}".to_string());
    info.user = Some("u".to_string());
    info.pass = Some("p".to_string());
    let doc: serde_json::Value = serde_json::from_str(&info.to_json().unwrap()).unwrap();
    assert_eq!(doc.get("name").and_then(|v| v.as_str()), Some("caf\u{e9} \u{1f600}"));
    assert_eq!(doc.get("user").and_then(|v| v.as_str()), Some("u"));
    assert_eq!(doc.get("pass").and_then(|v| v.as_str()), Some("p"));
    assert_eq!(doc.get("verbose").and_then(|v| v.as_bool()), Some(false));
    assert!(doc.get("echo").is_none());
    assert!(doc.get("auth_token").is_none());
}

#[test]
fn connect_leaves_empty_members_out() {
    let mut info = plain();
    info.name = Some(String::new());
    info.user = Some(String::new());
    info.auth_token = Some("tok".to_string());
    assert_eq!(
        info.to_json().unwrap(),
        "{\"verbose\":false,\"pedantic\":false,\"lang\":\"rust\",\"version\":\"0.1.0\",\"tls_required\":false,\"auth_token\":\"tok\"}"
    );
}

#[test]
fn skip_rules() {
    assert!(if_true(&true));
    assert!(!if_true(&false));
    let empty = String::new();
    let full = "x".to_string();
    assert!(empty_or_none(&None));
    assert!(empty_or_none(&Some(&empty)));
    assert!(!empty_or_none(&Some(&full)));
}

#[test]
fn text_members_are_quoted_before_they_are_assembled() {
    let mut info = plain();
    info.name = Some("a\"b".to_string());
    info.user = Some(String::new());
    info.pass = Some("p".to_string());
    let q = info.quoted().unwrap();
    assert_eq!(q.name, Some("\"a\\\"b\"".to_string()));
    assert_eq!(q.lang, "\"rust\"");
    assert_eq!(q.version, "\"0.1.0\"");
    assert_eq!(q.user, None);
    assert_eq!(q.pass, Some("\"p\"".to_string()));
    assert_eq!(q.auth_token, None);
}

#[test]
fn the_json_text_is_assembled_from_flags_and_quoted_members() {
    let mut info = plain();
    info.verbose = true;
    info.echo = false;
    let q = Quoted {
        name: Some("N".to_string()),
        lang: "L".to_string(),
        version: "V".to_string(),
        user: None,
        pass: Some("P".to_string()),
        auth_token: Some("T".to_string()),
    };
    assert_eq!(
        info.assemble(&q),
        "{\"name\":N,\"verbose\":true,\"pedantic\":false,\"echo\":false,\"lang\":L,\"version\":V,\"tls_required\":false,\"pass\":P,\"auth_token\":T}"
    );
    let bare = Quoted {
        name: None,
        lang: String::new(),
        version: String::new(),
        user: None,
        pass: None,
        auth_token: None,
    };
    assert_eq!(
        plain().assemble(&bare),
        "{\"verbose\":false,\"pedantic\":false,\"lang\":,\"version\":,\"tls_required\":false}"
    );
}

#[test]
fn ping_and_pong_are_read_back_by_the_decoder() {
    let ping = bytes_of(ClientOp::Ping);
    let d = decode(&ping);
    assert!(matches!(d.result, Ok(Some(ServerOp::Ping))));
    assert_eq!(d.consumed, ping.len());
    let pong = bytes_of(ClientOp::Pong);
    let d = decode(&pong);
    assert!(matches!(d.result, Ok(Some(ServerOp::Pong))));
    assert_eq!(d.consumed, pong.len());
}

#[test]
fn numbers_are_written_in_decimal() {
    for n in [0u64, 9, 10, 99, 100, 12345, 4294967295, 4294967296, u64::MAX] {
        let out = bytes_of(ClientOp::Unsub { sid: n, max_msgs: Some(n) });
        assert_eq!(String::from_utf8(out).unwrap(), format!("UNSUB {} {}\r\n", n, n));
    }
}
