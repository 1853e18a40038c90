use crossbeam_channel::{bounded, unbounded};
use nats_core::connect::{AuthStyle, FinalizedOptions};
use nats_core::decoder::ServerOp;
use nats_core::encoder::ClientOp;
use nats_core::error::{Error, ErrorKind};
use nats_core::info::ServerInfo;
use nats_core::lifecycle::{shutdown_action, ConnectionEvent, ConnectionStatus, ShutdownAction};
use nats_core::outbound::Outbound;
use nats_core::pongs::PongQueue;
use nats_core::server::Server;
use nats_core::shared_state::{learn_servers, Reaction, SharedState};
use nats_core::subs::{Delivery, Message, SubscriptionState, Subscriptions};

fn options() -> FinalizedOptions {
    FinalizedOptions {
        name: None,
        no_echo: false,
        auth: AuthStyle::NoAuth,
        max_reconnects: None,
        ping_interval_ms: 1000,
        max_outstanding_pings: 2,
        reconnect_buffer_size: 1024,
    }
}

fn state() -> SharedState {
    SharedState::new(options(), vec![Server::new("a:1").unwrap()])
}

#[test]
fn a_new_state_is_connected_and_empty() {
    let s = state();
    assert_eq!(s.id.len(), 22);
    assert!(!s.shutting_down);
    assert!(s.last_error.is_none());
    assert_eq!(s.subs.len(), 0);
    assert_eq!(s.pongs.outstanding(), 0);
    assert_eq!(s.outbound.len(), 0);
    assert_eq!(s.status, ConnectionStatus::Connected);
    assert_ne!(state().id, s.id);
}

#[test]
fn only_the_first_shutdown_stops_the_workers() {
    let mut s = state();
    assert_eq!(s.shut_down(), ShutdownAction::StopWorkers);
    for _ in 0..10 {
        assert_eq!(s.shut_down(), ShutdownAction::Nothing);
        assert!(s.shutting_down);
    }
    assert_eq!(shutdown_action(false), ShutdownAction::StopWorkers);
    assert_eq!(shutdown_action(true), ShutdownAction::Nothing);
}

#[test]
fn after_shutdown_every_operation_is_refused() {
    let mut s = state();
    let (tx, _rx) = unbounded::<Message>();
    let sid = s.subscribe("a".to_string(), None, tx.clone()).unwrap();
    let written = s.outbound.len();
    s.shut_down();
    assert_eq!(s.enqueue(ClientOp::Ping).unwrap_err().kind, ErrorKind::Shutdown);
    assert_eq!(s.subscribe("b".to_string(), None, tx).unwrap_err().kind, ErrorKind::Shutdown);
    assert_eq!(s.unsubscribe(sid).unwrap_err().kind, ErrorKind::Shutdown);
    let (ptx, _prx) = bounded::<bool>(1);
    assert_eq!(s.ping(ptx).unwrap_err().kind, ErrorKind::Shutdown);
    assert_eq!(s.outbound.len(), written);
    assert_eq!(s.subs.len(), 1);
    assert_eq!(s.pongs.outstanding(), 0);
}

#[test]
fn pongs_answer_pings_in_the_order_of_the_pings() {
    let mut q = PongQueue::new();
    let mut receivers = Vec::new();
    for _ in 0..5 {
        let (tx, rx) = bounded::<bool>(1);
        assert!(q.ping_sent(tx, 10));
        receivers.push(rx);
    }
    assert_eq!(q.outstanding(), 5);
    for k in 0..5 {
        assert!(q.pong_received());
        for (i, rx) in receivers.iter().enumerate() {
            if i == k {
                assert_eq!(rx.try_recv(), Ok(true));
            } else {
                assert!(rx.try_recv().is_err());
            }
        }
    }
    assert_eq!(q.outstanding(), 0);
    assert!(!q.pong_received());
}

#[test]
fn too_many_outstanding_pings_mean_a_dead_link() {
    let mut q = PongQueue::new();
    let (tx, _rx) = unbounded::<bool>();
    assert!(q.ping_sent(tx.clone(), 2));
    assert!(q.ping_sent(tx.clone(), 2));
    assert!(!q.ping_sent(tx.clone(), 2));
    assert_eq!(q.outstanding(), 3);
    assert!(!q.ping_sent(tx, 0));
}

#[test]
fn a_closed_connection_fails_every_waiter() {
    let mut s = state();
    let mut receivers = Vec::new();
    for _ in 0..3 {
        let (tx, rx) = bounded::<bool>(1);
        s.ping(tx).unwrap();
        receivers.push(rx);
    }
    assert_eq!(s.gave_up(Error::new(ErrorKind::Unreachable, "down")), 3);
    for rx in receivers.iter() {
        assert_eq!(rx.try_recv(), Ok(false));
    }
    assert_eq!(s.pongs.outstanding(), 0);
    assert_eq!(s.status, ConnectionStatus::Closed);
    assert_eq!(s.last_error.as_ref().unwrap().kind, ErrorKind::Unreachable);
    s.reconnected();
    assert_eq!(s.status, ConnectionStatus::Closed);
    assert!(s.last_error.is_some());
    assert_eq!(s.connection_lost(), 0);
    assert_eq!(s.status, ConnectionStatus::Closed);
    assert_eq!(s.last_error.as_ref().unwrap().kind, ErrorKind::Unreachable);
}

#[test]
fn a_lost_connection_fails_the_waiters_and_is_remembered() {
    let mut s = state();
    let (tx, rx) = bounded::<bool>(1);
    s.ping(tx).unwrap();
    assert_eq!(s.connection_lost(), 1);
    assert_eq!(rx.try_recv(), Ok(false));
    assert_eq!(s.pongs.outstanding(), 0);
    assert_eq!(s.status, ConnectionStatus::Reconnecting);
    let e = s.last_error.as_ref().unwrap();
    assert_eq!(e.kind, ErrorKind::Disconnected);
    assert_eq!(e.message, "the connection was lost");
    assert_eq!(s.outbound.buffer, b"PING\r\n".to_vec());
}

#[test]
fn callers_hold_back_while_reconnecting_with_a_full_buffer() {
    let mut s = state();
    s.options.reconnect_buffer_size = 10;
    s.enqueue(ClientOp::Pub { subject: "s", reply_to: None, payload: b"0123456789" }).unwrap();
    assert!(s.outbound.len() > 10);
    assert!(!s.must_wait());
    s.connection_lost();
    assert!(s.must_wait());
    let _ = s.outbound.take();
    assert!(!s.must_wait());
    s.reconnected();
    assert!(!s.must_wait());
}

#[test]
fn ping_reports_whether_the_link_is_alive() {
    let mut s = state();
    let (tx, _rx) = unbounded::<bool>();
    assert_eq!(s.ping(tx.clone()).unwrap(), true);
    assert_eq!(s.ping(tx.clone()).unwrap(), true);
    assert_eq!(s.ping(tx).unwrap(), false);
    assert_eq!(s.outbound.buffer, b"PING\r\nPING\r\nPING\r\n".to_vec());
}

#[test]
fn status_follows_the_events() {
    assert_eq!(
        ConnectionStatus::Disconnected.after(ConnectionEvent::Dialing),
        ConnectionStatus::Connecting
    );
    assert_eq!(
        ConnectionStatus::Connecting.after(ConnectionEvent::Established),
        ConnectionStatus::Connected
    );
    assert_eq!(
        ConnectionStatus::Connected.after(ConnectionEvent::Lost),
        ConnectionStatus::Reconnecting
    );
    assert_eq!(
        ConnectionStatus::Reconnecting.after(ConnectionEvent::Established),
        ConnectionStatus::Connected
    );
    assert_eq!(
        ConnectionStatus::Reconnecting.after(ConnectionEvent::GaveUp),
        ConnectionStatus::Closed
    );
    for event in [
        ConnectionEvent::Dialing,
        ConnectionEvent::Established,
        ConnectionEvent::Lost,
        ConnectionEvent::GaveUp,
    ] {
        assert_eq!(ConnectionStatus::Closed.after(event), ConnectionStatus::Closed);
    }
}

#[test]
fn subscription_ids_grow_and_are_found_again() {
    let mut t = Subscriptions::new();
    let (tx, _rx) = unbounded::<Message>();
    for i in 1..=20u64 {
        let sid = t
            .insert(SubscriptionState { subject: format!("s{}", i), queue: None, sender: tx.clone() })
            .unwrap();
        assert_eq!(sid, i);
    }
    for i in 1..=20u64 {
        let at = t.find(i).unwrap();
        assert_eq!(t.get(at).sid, i);
        assert_eq!(t.get(at).state.subject, format!("s{}", i));
    }
    assert_eq!(t.find(0), None);
    assert_eq!(t.find(21), None);
    assert_eq!(t.remove(7).unwrap().subject, "s7");
    assert!(t.remove(7).is_none());
    assert_eq!(t.find(7), None);
    assert_eq!(t.len(), 19);
    for i in (1..=20u64).filter(|i| *i != 7) {
        assert_eq!(t.get(t.find(i).unwrap()).sid, i);
    }
    assert_eq!(
        t.insert(SubscriptionState { subject: "n".to_string(), queue: None, sender: tx }).unwrap(),
        21
    );
}

#[test]
fn subscription_ids_can_run_out() {
    let mut t = Subscriptions::starting_at(u64::MAX - 1);
    let (tx, _rx) = unbounded::<Message>();
    let state = |s: &str| SubscriptionState { subject: s.to_string(), queue: None, sender: tx.clone() };
    assert_eq!(t.insert(state("a")), Some(u64::MAX - 1));
    assert_eq!(t.next_sid(), u64::MAX);
    assert_eq!(t.insert(state("b")), None);
    assert_eq!(t.len(), 1);
    let mut s = state_with_ids_used_up();
    let e = s.subscribe("c".to_string(), None, tx.clone()).unwrap_err();
    assert_eq!(e.kind, ErrorKind::InvalidInput);
    assert_eq!(s.outbound.len(), 0);
}

fn state_with_ids_used_up() -> SharedState {
    let mut s = state();
    s.subs = Subscriptions::starting_at(u64::MAX);
    s
}

#[test]
fn messages_go_to_their_subscription() {
    let mut s = state();
    let (tx1, rx1) = unbounded::<Message>();
    let (tx2, rx2) = unbounded::<Message>();
    let one = s.subscribe("a".to_string(), None, tx1).unwrap();
    let two = s.subscribe("b".to_string(), Some("q".to_string()), tx2).unwrap();
    assert_eq!((one, two), (1, 2));
    let msg = |sid: u64, text: &str| ServerOp::Msg {
        subject: "a".to_string(),
        sid,
        reply_to: Some("r".to_string()),
        payload: text.as_bytes().to_vec(),
    };
    assert_eq!(s.on_server_op(msg(2, "x")), Reaction::Delivered);
    assert_eq!(s.on_server_op(msg(1, "y")), Reaction::Delivered);
    assert_eq!(s.on_server_op(msg(2, "z")), Reaction::Delivered);
    assert_eq!(s.on_server_op(msg(3, "lost")), Reaction::Dropped);
    let got: Vec<Vec<u8>> = rx2.try_iter().map(|m| m.payload).collect();
    assert_eq!(got, vec![b"x".to_vec(), b"z".to_vec()]);
    let m = rx1.try_recv().unwrap();
    assert_eq!((m.subject.as_str(), m.sid, m.reply_to.as_deref()), ("a", 1, Some("r")));
    assert_eq!(m.payload, b"y".to_vec());
    assert!(rx1.try_recv().is_err());
}

#[test]
fn messages_for_a_gone_receiver_or_a_full_sink_are_dropped() {
    let mut s = state();
    let (tx, rx) = bounded::<Message>(1);
    let sid = s.subscribe("a".to_string(), None, tx).unwrap();
    let msg = || ServerOp::Msg { subject: "a".to_string(), sid: 1, reply_to: None, payload: vec![] };
    assert_eq!(s.on_server_op(msg()), Reaction::Delivered);
    assert_eq!(s.on_server_op(msg()), Reaction::Dropped);
    drop(rx);
    assert_eq!(s.on_server_op(msg()), Reaction::Dropped);
    assert_eq!(s.unsubscribe(sid).unwrap(), true);
    assert_eq!(s.on_server_op(msg()), Reaction::Dropped);
    assert_eq!(s.unsubscribe(sid).unwrap(), false);
    assert_eq!(s.outbound.buffer, b"SUB a 1\r\nUNSUB 1\r\n".to_vec());
}

#[test]
fn a_ping_of_the_broker_is_answered() {
    let mut s = state();
    assert_eq!(s.on_server_op(ServerOp::Ping), Reaction::PongQueued);
    assert_eq!(s.outbound.buffer, b"PONG\r\n".to_vec());
}

#[test]
fn a_pong_of_the_broker_signals_the_oldest_waiter() {
    let mut s = state();
    assert_eq!(s.on_server_op(ServerOp::Pong), Reaction::Unmatched);
    let (tx1, rx1) = bounded::<bool>(1);
    let (tx2, rx2) = bounded::<bool>(1);
    s.ping(tx1).unwrap();
    s.ping(tx2).unwrap();
    assert_eq!(s.on_server_op(ServerOp::Pong), Reaction::Answered);
    assert_eq!(rx1.try_recv(), Ok(true));
    assert!(rx2.try_recv().is_err());
    assert_eq!(s.on_server_op(ServerOp::Pong), Reaction::Answered);
    assert_eq!(rx2.try_recv(), Ok(true));
}

#[test]
fn the_addresses_of_an_info_are_learned_once() {
    let mut s = state();
    let info = ServerInfo {
        tls_required: false,
        connect_urls: vec![
            "a:1".to_string(),
            "b:2".to_string(),
            "bad:port".to_string(),
            "b:2".to_string(),
            "tls://c".to_string(),
        ],
        json: String::new(),
    };
    assert_eq!(s.on_server_op(ServerOp::Info(info.clone())), Reaction::Learned(2));
    let urls: Vec<&str> = s.servers.iter().map(|x| x.url.as_str()).collect();
    assert_eq!(urls, vec!["a:1", "b:2", "c:4222"]);
    assert!(s.servers[2].tls_required);
    assert_eq!(s.on_server_op(ServerOp::Info(info)), Reaction::Learned(0));
    assert_eq!(s.servers.len(), 3);
    let mut known = Vec::new();
    assert_eq!(learn_servers(&mut known, &vec!["x".to_string(), "x:4222".to_string()]), 1);
    assert_eq!(known[0].url, "x:4222");
}

#[test]
fn an_error_of_the_broker_is_stored() {
    let mut s = state();
    assert_eq!(s.on_server_op(ServerOp::Error("Stale Connection".to_string())), Reaction::ErrorStored);
    let e = s.last_error.as_ref().unwrap();
    assert_eq!(e.message, "Stale Connection");
    assert_eq!(e.kind, ErrorKind::ConnectionRefused);
    assert_eq!(s.on_server_op(ServerOp::Unknown("+OK\r\n".to_string())), Reaction::Ignored);
    assert!(s.last_error.is_some());
}

#[test]
fn subscriptions_are_replayed_before_waiting_frames() {
    let mut s = state();
    let (tx, _rx) = unbounded::<Message>();
    s.subscribe("one".to_string(), None, tx.clone()).unwrap();
    s.subscribe("two".to_string(), Some("q".to_string()), tx.clone()).unwrap();
    s.subscribe("three".to_string(), None, tx).unwrap();
    s.unsubscribe(2).unwrap();
    let _sent = s.outbound.take();
    s.connection_lost();
    assert_eq!(s.status, ConnectionStatus::Reconnecting);
    assert!(s.last_error.is_some());
    s.enqueue(ClientOp::Pub { subject: "new", reply_to: None, payload: b"p" }).unwrap();
    s.reconnected();
    assert_eq!(s.status, ConnectionStatus::Connected);
    assert!(s.last_error.is_none());
    assert_eq!(s.outbound.buffer, b"SUB one 1\r\nSUB three 3\r\nPUB new 1\r\np\r\n".to_vec());
}

#[test]
fn replay_writes_one_sub_frame_for_each_subscription() {
    let mut t = Subscriptions::new();
    let (tx, _rx) = unbounded::<Message>();
    let mut out = b"x".to_vec();
    t.replay(&mut out);
    assert_eq!(out, b"x".to_vec());
    t.insert(SubscriptionState { subject: "a".to_string(), queue: Some("g".to_string()), sender: tx.clone() });
    t.insert(SubscriptionState { subject: "b".to_string(), queue: None, sender: tx });
    t.replay(&mut out);
    assert_eq!(out, b"xSUB a g 1\r\nSUB b 2\r\n".to_vec());
}

#[test]
fn unwritten_bytes_return_to_the_front() {
    let mut o = Outbound::new();
    o.enqueue(ClientOp::Ping).unwrap();
    o.enqueue(ClientOp::Pong).unwrap();
    assert!(o.over(11));
    assert!(!o.over(12));
    let taken = o.take();
    assert_eq!(taken, b"PING\r\nPONG\r\n".to_vec());
    assert_eq!(o.len(), 0);
    o.enqueue(ClientOp::Unsub { sid: 1, max_msgs: None }).unwrap();
    o.restore(taken, 4);
    assert_eq!(o.buffer, b"\r\nPONG\r\nUNSUB 1\r\n".to_vec());
    let all = o.take();
    let n = all.len();
    o.restore(all, n);
    assert_eq!(o.len(), 0);
}

#[test]
fn a_message_is_offered_to_the_sink_of_its_subscription() {
    let mut t = Subscriptions::new();
    let (tx1, rx1) = bounded::<Message>(1);
    let (tx2, rx2) = bounded::<Message>(1);
    t.insert(SubscriptionState { subject: "a".to_string(), queue: None, sender: tx1 });
    t.insert(SubscriptionState { subject: "b".to_string(), queue: None, sender: tx2 });
    let msg = |sid: u64, text: &str| Message {
        subject: "s".to_string(),
        sid,
        reply_to: None,
        payload: text.as_bytes().to_vec(),
    };
    assert_eq!(t.deliver(msg(2, "for two")), Delivery::Delivered);
    assert!(rx1.try_recv().is_err());
    assert_eq!(rx2.try_recv().unwrap().payload, b"for two".to_vec());
    assert_eq!(t.deliver(msg(1, "first")), Delivery::Delivered);
    assert_eq!(t.deliver(msg(1, "second")), Delivery::Refused);
    assert_eq!(rx1.try_recv().unwrap().payload, b"first".to_vec());
    assert!(rx1.try_recv().is_err());
    assert_eq!(t.deliver(msg(3, "nobody")), Delivery::NoSubscription);
    assert_eq!(t.deliver(msg(0, "nobody")), Delivery::NoSubscription);
    drop(rx2);
    assert_eq!(t.deliver(msg(2, "gone")), Delivery::Refused);
    assert!(t.remove(2).is_some());
    assert_eq!(t.deliver(msg(2, "cancelled")), Delivery::NoSubscription);
}

#[test]
fn the_sink_of_a_subscription_is_found_by_its_id() {
    let mut t = Subscriptions::new();
    let (tx1, rx1) = unbounded::<Message>();
    let (tx2, rx2) = unbounded::<Message>();
    t.insert(SubscriptionState { subject: "a".to_string(), queue: None, sender: tx1 });
    t.insert(SubscriptionState { subject: "b".to_string(), queue: None, sender: tx2 });
    assert!(t.sink_of(0).is_none());
    assert!(t.sink_of(3).is_none());
    let msg = Message { subject: "s".to_string(), sid: 2, reply_to: None, payload: vec![7] };
    t.sink_of(2).unwrap().send(msg).unwrap();
    assert_eq!(rx2.try_recv().unwrap().payload, vec![7]);
    assert!(rx1.try_recv().is_err());
    assert!(t.sink_of(1).unwrap().same_channel(&t.get(0).state.sender));
}

#[test]
fn an_offer_is_delivered_or_refused() {
    assert_eq!(Delivery::of_offer(true), Delivery::Delivered);
    assert_eq!(Delivery::of_offer(false), Delivery::Refused);
    assert_eq!(Reaction::for_delivery(Delivery::Delivered), Reaction::Delivered);
    assert_eq!(Reaction::for_delivery(Delivery::Refused), Reaction::Dropped);
    assert_eq!(Reaction::for_delivery(Delivery::NoSubscription), Reaction::Dropped);
}
