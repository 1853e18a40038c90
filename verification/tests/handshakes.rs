use nats_core::connect::{AuthStyle, FinalizedOptions};
use nats_core::decoder::{decode, ServerOp};
use nats_core::error::{Error, ErrorKind};
use nats_core::handshake::{Handshake, LANG, VERSION};
use nats_core::info::ServerInfo;
use nats_core::plan::ConnectPlan;
use nats_core::server::Server;

fn options() -> FinalizedOptions {
    FinalizedOptions {
        name: None,
        no_echo: false,
        auth: AuthStyle::NoAuth,
        max_reconnects: None,
        ping_interval_ms: 1000,
        max_outstanding_pings: 2,
        reconnect_buffer_size: 1024,
    }
}

fn info(tls_required: bool) -> ServerInfo {
    ServerInfo { tls_required, connect_urls: Vec::new(), json: String::new() }
}

#[test]
fn handshake_succeeds_on_info_then_pong() {
    let reply = b"INFO {\"tls_required\":false,\"connect_urls\":[]}\r\nPONG\r\n";
    let mut server = Server::new("h:1").unwrap();
    server.reconnects = 3;
    let first = decode(reply);
    let second = decode(&reply[first.consumed..]);
    assert_eq!(first.consumed + second.consumed, reply.len());
    let state = server.handshake_frame(Handshake::start(), first.result.unwrap().unwrap());
    assert!(matches!(state, Handshake::AwaitPong(_)));
    assert_eq!(server.reconnects, 3);
    let state = server.handshake_frame(state, second.result.unwrap().unwrap());
    match state {
        Handshake::Connected(info) => assert!(!info.tls_required),
        other => panic!("unexpected {:?}", other),
    }
    assert_eq!(server.reconnects, 0);
}

#[test]
fn handshake_must_start_with_info() {
    let mut server = Server::new("h:1").unwrap();
    server.reconnects = 2;
    match server.handshake_frame(Handshake::start(), ServerOp::Pong) {
        Handshake::Refused(e) => {
            assert_eq!(e.kind, ErrorKind::ConnectionRefused);
            assert_eq!(e.message, "Protocol Error");
        }
        other => panic!("unexpected {:?}", other),
    }
    assert_eq!(server.reconnects, 2);
}

#[test]
fn handshake_is_refused_with_the_text_of_the_broker() {
    let mut server = Server::new("h:1").unwrap();
    server.reconnects = 1;
    let state = Handshake::AwaitPong(info(false));
    match server.handshake_frame(state, ServerOp::Error("Authorization Violation".to_string())) {
        Handshake::Refused(e) => {
            assert_eq!(e.kind, ErrorKind::ConnectionRefused);
            assert_eq!(e.message, "Authorization Violation");
            assert_eq!(e.to_text(), "Authorization Violation");
        }
        other => panic!("unexpected {:?}", other),
    }
    assert_eq!(server.reconnects, 1);
}

#[test]
fn any_other_answer_is_a_protocol_error() {
    let mut server = Server::new("h:1").unwrap();
    let frames = vec![
        ServerOp::Ping,
        ServerOp::Info(info(false)),
        ServerOp::Unknown("+OK\r\n".to_string()),
        ServerOp::Msg { subject: "s".to_string(), sid: 1, reply_to: None, payload: vec![] },
    ];
    for frame in frames {
        match server.handshake_frame(Handshake::AwaitPong(info(false)), frame) {
            Handshake::Refused(e) => {
                assert_eq!(e.kind, ErrorKind::ConnectionRefused);
                assert_eq!(e.message, "Protocol Error");
            }
            other => panic!("unexpected {:?}", other),
        }
    }
}

#[test]
fn tls_is_asked_for_by_the_address_or_by_the_broker() {
    let mut plain = Server::new("h:1").unwrap();
    let mut secure = Server::new("tls://h:1").unwrap();
    let asked = plain.handshake_frame(Handshake::start(), ServerOp::Info(info(true)));
    assert!(matches!(asked, Handshake::AwaitTls(_)));
    let asked = secure.handshake_frame(Handshake::start(), ServerOp::Info(info(false)));
    assert!(matches!(asked, Handshake::AwaitTls(_)));
    match asked.tls_done(false) {
        Handshake::Refused(e) => {
            assert_eq!(e.kind, ErrorKind::ConnectionRefused);
            assert_eq!(e.message, "TLS currently not supported");
        }
        other => panic!("unexpected {:?}", other),
    }
    let asked = secure.handshake_frame(Handshake::start(), ServerOp::Info(info(false)));
    let upgraded = asked.tls_done(true);
    assert!(matches!(upgraded, Handshake::AwaitPong(_)));
    assert!(matches!(
        secure.handshake_frame(upgraded, ServerOp::Pong),
        Handshake::Connected(_)
    ));
    assert!(matches!(
        secure.handshake_frame(Handshake::AwaitTls(info(true)), ServerOp::Pong),
        Handshake::Refused(_)
    ));
}

#[test]
fn a_finished_handshake_stays_as_it_is() {
    let mut server = Server::new("h:1").unwrap();
    server.reconnects = 4;
    assert!(matches!(
        server.handshake_frame(Handshake::Connected(info(false)), ServerOp::Pong),
        Handshake::Connected(_)
    ));
    let refused = Handshake::Refused(Error::new(ErrorKind::ConnectionRefused, "no"));
    match server.handshake_frame(refused, ServerOp::Pong) {
        Handshake::Refused(e) => assert_eq!(e.message, "no"),
        other => panic!("unexpected {:?}", other),
    }
    assert_eq!(server.reconnects, 4);
    assert!(matches!(Handshake::AwaitInfo.tls_done(true), Handshake::AwaitInfo));
}

#[test]
fn greeting_is_connect_and_ping_in_one_piece() {
    let server = Server::new("h:1").unwrap();
    let bytes = server.greeting(&options()).unwrap();
    let expected = format!(
        "CONNECT {{\"verbose\":false,\"pedantic\":false,\"lang\":\"{}\",\"version\":\"{}\",\"tls_required\":false}}\r\nPING\r\n",
        LANG, VERSION
    );
    assert_eq!(String::from_utf8(bytes).unwrap(), expected);
}

#[test]
fn greeting_carries_the_credentials_of_one_style() {
    let server = Server::new("tls://h:1").unwrap();
    let mut o = options();
    o.name = Some("me".to_string());
    o.no_echo = true;
    o.auth = AuthStyle::UserPass("u".to_string(), "p".to_string());
    let with_user = server.connect_info(&o);
    assert_eq!(with_user.name, Some("me".to_string()));
    assert!(!with_user.echo);
    assert!(!with_user.verbose);
    assert!(!with_user.pedantic);
    assert!(with_user.tls_required);
    assert_eq!(with_user.user, Some("u".to_string()));
    assert_eq!(with_user.pass, Some("p".to_string()));
    assert_eq!(with_user.auth_token, None);
    assert_eq!(
        String::from_utf8(server.greeting(&o).unwrap()).unwrap(),
        format!(
            "CONNECT {{\"name\":\"me\",\"verbose\":false,\"pedantic\":false,\"echo\":false,\"lang\":\"{}\",\"version\":\"{}\",\"tls_required\":true,\"user\":\"u\",\"pass\":\"p\"}}\r\nPING\r\n",
            LANG, VERSION
        )
    );
    o.auth = AuthStyle::Token("t".to_string());
    let with_token = server.connect_info(&o);
    assert_eq!(with_token.user, None);
    assert_eq!(with_token.pass, None);
    assert_eq!(with_token.auth_token, Some("t".to_string()));
}

#[test]
fn servers_are_tried_in_turn_for_the_allowed_passes() {
    let servers = vec![Server::new("a").unwrap(), Server::new("b").unwrap()];
    let mut plan = ConnectPlan::new(servers, Some(3));
    let mut tried = Vec::new();
    while let Some(i) = plan.next_server() {
        tried.push(i);
        let e = Error::new(ErrorKind::Unreachable, &format!("attempt {}", tried.len()));
        assert!(plan.attempt_failed(e));
    }
    assert_eq!(tried, vec![0, 1, 0, 1, 0, 1]);
    assert_eq!(plan.servers()[0].reconnects, 3);
    assert_eq!(plan.servers()[1].reconnects, 3);
    assert_eq!(plan.servers()[0].url, "a:4222");
    assert!(!plan.attempt_failed(Error::new(ErrorKind::Unreachable, "late")));
    assert!(!plan.attempt_succeeded());
    assert_eq!(plan.servers()[0].reconnects, 3);
    let e = plan.give_up();
    assert_eq!(e.kind, ErrorKind::Unreachable);
    assert_eq!(e.message, "attempt 6");
}

#[test]
fn a_success_clears_the_failures_of_its_server_only() {
    let servers = vec![Server::new("a").unwrap(), Server::new("b").unwrap()];
    let mut plan = ConnectPlan::new(servers, Some(4));
    for _ in 0..3 {
        plan.attempt_failed(Error::new(ErrorKind::Unreachable, "down"));
    }
    assert_eq!(plan.next_server(), Some(1));
    assert_eq!((plan.servers()[0].reconnects, plan.servers()[1].reconnects), (2, 1));
    assert!(plan.attempt_succeeded());
    assert_eq!(plan.next_server(), Some(1));
    let servers = plan.into_servers();
    assert_eq!((servers[0].reconnects, servers[1].reconnects), (2, 0));
    assert_eq!(servers[1].url, "b:4222");
}

#[test]
fn five_passes_where_the_options_name_none() {
    let mut plan = ConnectPlan::new(vec![Server::new("a").unwrap()], None);
    let mut attempts = 0;
    while plan.next_server().is_some() {
        attempts += 1;
        plan.attempt_failed(Error::new(ErrorKind::Unreachable, "down"));
    }
    assert_eq!(attempts, 5);
    assert_eq!(plan.servers()[0].backoff_ms(), 32);
}

#[test]
fn nothing_is_tried_without_servers_or_passes() {
    let empty = ConnectPlan::new(Vec::new(), None);
    assert_eq!(empty.next_server(), None);
    let e = empty.give_up();
    assert_eq!(e.kind, ErrorKind::Unreachable);
    assert_eq!(e.message, "no reachable server");
    let none = ConnectPlan::new(vec![Server::new("a").unwrap()], Some(0));
    assert_eq!(none.next_server(), None);
    assert_eq!(none.give_up().kind, ErrorKind::Unreachable);
}
