use nats_core::error::ErrorKind;
use nats_core::server::Server;

#[test]
fn address_with_tls_scheme_and_port() {
    let s = Server::new("tls://a:1").unwrap();
    assert_eq!(s.url, "a:1");
    assert!(s.tls_required);
    assert_eq!(s.reconnects, 0);
}

#[test]
fn address_without_port_gets_the_default() {
    let s = Server::new("b").unwrap();
    assert_eq!(s.url, "b:4222");
    assert!(!s.tls_required);
}

#[test]
fn address_with_port_and_no_scheme() {
    let s = Server::new("c:7").unwrap();
    assert_eq!(s.url, "c:7");
    assert!(!s.tls_required);
}

#[test]
fn address_with_comma_is_refused() {
    let e = Server::new("a:1,b:2").unwrap_err();
    assert_eq!(e.kind, ErrorKind::InvalidInput);
}

#[test]
fn address_without_host_is_refused() {
    assert_eq!(Server::new(":4222").unwrap_err().kind, ErrorKind::InvalidInput);
    assert_eq!(Server::new("").unwrap_err().kind, ErrorKind::InvalidInput);
    assert_eq!(Server::new("nats://").unwrap_err().kind, ErrorKind::InvalidInput);
}

#[test]
fn address_with_bad_port_is_refused() {
    assert_eq!(Server::new("a:x").unwrap_err().kind, ErrorKind::InvalidInput);
    assert_eq!(Server::new("a:").unwrap_err().kind, ErrorKind::InvalidInput);
    assert_eq!(Server::new("a:1:2").unwrap_err().kind, ErrorKind::InvalidInput);
    assert_eq!(Server::new("a:99999999999").unwrap_err().kind, ErrorKind::InvalidInput);
}

#[test]
fn other_scheme_is_not_tls() {
    let s = Server::new("nats://h:5").unwrap();
    assert_eq!(s.url, "h:5");
    assert!(!s.tls_required);
    let t = Server::new("tls").unwrap();
    assert_eq!(t.url, "tls:4222");
    assert!(!t.tls_required);
}

#[test]
fn signed_ports_are_written_in_decimal() {
    assert_eq!(Server::new("h:+80").unwrap().url, "h:80");
    assert_eq!(Server::new("h:007").unwrap().url, "h:7");
    assert_eq!(Server::new("h:-5").unwrap().url, "h:-5");
    assert_eq!(Server::new("h:-2147483648").unwrap().url, "h:-2147483648");
    assert_eq!(Server::new("h:2147483647").unwrap().url, "h:2147483647");
    assert_eq!(Server::new("h:2147483648").unwrap_err().kind, ErrorKind::InvalidInput);
}

fn sorted_urls(servers: &[Server]) -> Vec<(String, bool, u32)> {
    let mut v: Vec<(String, bool, u32)> =
        servers.iter().map(|s| (s.url.clone(), s.tls_required, s.reconnects)).collect();
    v.sort();
    v
}

#[test]
fn a_list_is_parsed_into_a_permutation_of_its_servers() {
    let input = vec!["tls://a:1".to_string(), "b".to_string(), "c:7".to_string()];
    let servers = nats_core::server::parse_server_addresses(&input);
    assert_eq!(
        sorted_urls(&servers),
        vec![
            ("a:1".to_string(), true, 0),
            ("b:4222".to_string(), false, 0),
            ("c:7".to_string(), false, 0)
        ]
    );
}

#[test]
fn refused_addresses_are_passed_over() {
    let input =
        vec!["".to_string(), "a".to_string(), "x,y".to_string(), ":1".to_string(), "a".to_string()];
    let servers = nats_core::server::parse_server_addresses(&input);
    assert_eq!(
        sorted_urls(&servers),
        vec![("a:4222".to_string(), false, 0), ("a:4222".to_string(), false, 0)]
    );
    assert!(nats_core::server::parse_server_addresses(&[]).is_empty());
}

#[test]
fn parsing_twice_gives_the_same_servers() {
    let input: Vec<String> = (0..40).map(|i| format!("host{}:{}", i, 4000 + i)).collect();
    let first = nats_core::server::parse_server_addresses(&input);
    let second = nats_core::server::parse_server_addresses(&input);
    assert_eq!(first.len(), 40);
    assert_eq!(sorted_urls(&first), sorted_urls(&second));
}

#[test]
fn the_order_of_the_servers_is_shuffled() {
    let input: Vec<String> = (0..40).map(|i| format!("host{}:{}", i, 4000 + i)).collect();
    let in_input_order: Vec<String> = input.clone();
    let mut moved = false;
    for _ in 0..8 {
        let servers = nats_core::server::parse_server_addresses(&input);
        let urls: Vec<String> = servers.iter().map(|s| s.url.clone()).collect();
        if urls != in_input_order {
            moved = true;
        }
    }
    assert!(moved);
}

#[test]
fn a_list_is_split_at_its_commas() {
    assert_eq!(nats_core::server::split_urls("a:1,b,c:7"), vec!["a:1", "b", "c:7"]);
    assert_eq!(nats_core::server::split_urls("single"), vec!["single"]);
    assert_eq!(nats_core::server::split_urls(""), vec![""]);
    assert_eq!(nats_core::server::split_urls("a,,b,"), vec!["a", "", "b", ""]);
    assert_eq!(nats_core::server::split_urls(","), vec!["", ""]);
}

#[test]
fn backoff_doubles_up_to_its_cap() {
    let mut s = Server::new("h").unwrap();
    assert_eq!(s.backoff_ms(), 0);
    let expected: [u64; 15] =
        [2, 4, 8, 16, 32, 64, 128, 256, 512, 1024, 2048, 4096, 4096, 4096, 4096];
    for (n, want) in expected.iter().enumerate() {
        s.record_failure();
        assert_eq!(s.reconnects as usize, n + 1);
        assert_eq!(s.backoff_ms(), *want);
    }
    s.reconnects = u32::MAX;
    assert_eq!(s.backoff_ms(), 4096);
    s.reconnects = 1;
    assert_eq!(s.backoff_ms(), 2);
}
