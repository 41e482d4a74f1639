use rengine::channel::{channel_try_send, reader_forward_decision, try_send, ReadForward,
    SendOutcome};
use rengine::listener::{backoff_step, base_counter, conn_channel_bound, ConnLimit, Listener,
    ShutdownTracker};
use rengine::messages::{c_login, ProtoType};
use rengine::service::{accept_registration, forward_to_connection, Communicate, ForwardOutcome,
    ServiceType, TcpSharedEntity};


fn msg(magic: i32) -> ProtoType {
    ProtoType::c_login(c_login { ret: 1, magic })
}

#[test]
fn backpressure_drop_semantics() {
    // a queue of capacity one holding one message: a second non-blocking
    // send reports full, and the first message is still first, once
    let (tx, mut rx) = tokio::sync::mpsc::channel(1);
    assert!(matches!(channel_try_send(&tx, (7, 102, msg(1))), SendOutcome::Sent));
    match channel_try_send(&tx, (7, 102, msg(2))) {
        SendOutcome::Full((vfd, id, m)) => {
            assert_eq!(vfd, 7);
            assert_eq!(id, 102);
            match m {
                ProtoType::c_login(c) => assert_eq!(c.magic, 2),
                _ => panic!("wrong message came back"),
            }
        }
        other => panic!("expected full, got {:?}", other),
    }
    let (vfd, id, first) = rx.try_recv().unwrap();
    assert_eq!((vfd, id), (7, 102));
    match first {
        ProtoType::c_login(c) => assert_eq!(c.magic, 1),
        _ => panic!("wrong first message"),
    }
    // no duplicate delivery
    assert!(rx.try_recv().is_err());
}

#[test]
fn try_send_reports_full_and_closed() {
    let (tx, rx) = tokio::sync::mpsc::channel(1);
    assert!(try_send(&tx, 1, 102, msg(1)).is_none());
    let r = try_send(&tx, 1, 102, msg(2));
    assert_eq!(r.unwrap().0, 1);
    drop(rx);
    let r = try_send(&tx, 1, 102, msg(3));
    assert_eq!(r.unwrap().0, 2);
}

#[test]
fn routing_table_consistency() {
    // a registered connection whose channel closes: the next message to it
    // is not delivered, the stale route is removed, and lookups find nothing
    let mut entity = TcpSharedEntity::default();
    let (tx, rx) = tokio::sync::mpsc::channel(4);
    accept_registration(&mut entity, 42, tx);
    drop(rx);
    assert_eq!(forward_to_connection(&mut entity, 42, 102, msg(5)), ForwardOutcome::RemovedClosed);
    assert!(entity.get(42).is_none());
    assert_eq!(forward_to_connection(&mut entity, 42, 102, msg(6)), ForwardOutcome::NoRoute);
}

#[test]
fn forwarding_delivers_and_drops_on_full() {
    let mut entity = TcpSharedEntity::default();
    let (tx, mut rx) = tokio::sync::mpsc::channel(1);
    accept_registration(&mut entity, 9, tx);
    assert_eq!(forward_to_connection(&mut entity, 9, 102, msg(1)), ForwardOutcome::Forwarded);
    assert_eq!(forward_to_connection(&mut entity, 9, 102, msg(2)), ForwardOutcome::DroppedFull);
    // the route stays after a drop
    assert!(entity.get(9).is_some());
    let (vfd, _, _) = rx.try_recv().unwrap();
    assert_eq!(vfd, 9);
}

#[test]
fn identity_numbering_per_service_type() {
    assert_eq!(base_counter(ServiceType::Tcp), 10000);
    assert_eq!(base_counter(ServiceType::Rpc), 0);
    assert_eq!(conn_channel_bound(ServiceType::Tcp), 100);
    assert_eq!(conn_channel_bound(ServiceType::Rpc), 2000);
    let mut l = Listener::new(ServiceType::Tcp);
    assert_eq!(l.next_identity(), 10001);
    assert_eq!(l.next_identity(), 10002);
    let mut l = Listener::new(ServiceType::Rpc);
    assert_eq!(l.next_identity(), 1);
}

#[test]
fn accept_backoff_doubles_to_a_cap() {
    let mut b = 1u64;
    let mut steps = Vec::new();
    loop {
        match backoff_step(b) {
            Some(nb) => {
                steps.push(nb);
                b = nb;
            }
            None => break,
        }
    }
    assert_eq!(steps, vec![2, 4, 8, 16, 32, 64, 128]);
}

#[test]
fn shutdown_completeness_with_fifty_connections() {
    // fifty active connections, each holding one permit: once every task has
    // exited, the initiator's wait completes and every permit is back
    let mut limit = ConnLimit::new(10000);
    let mut tracker = ShutdownTracker::new();
    for _ in 0..50 {
        assert!(limit.try_acquire());
        tracker.task_spawned();
    }
    assert_eq!(limit.available(), 10000 - 50);
    assert!(!tracker.wait_complete());
    for _ in 0..50 {
        tracker.task_exited(&mut limit);
    }
    assert!(tracker.wait_complete());
    assert_eq!(limit.available(), 10000);
}

#[test]
fn connection_limit_refuses_past_max() {
    let mut limit = ConnLimit::new(2);
    assert!(limit.try_acquire());
    assert!(limit.try_acquire());
    assert!(!limit.try_acquire());
    limit.release();
    assert!(limit.try_acquire());
}

#[test]
fn rpc_sender_connects_lazily_and_reuses() {
    let conf = rengine::conf::Conf {
        host_id: 3,
        name: "s1".to_string(),
        host_type: "game".to_string(),
        log_level: 1,
        max_log_file_size: 10,
        src_dir: String::new(),
        out_dir: String::new(),
        init_protos: vec![],
        tcp_serv_addr: String::new(),
        http_serv_addr: String::new(),
        rpc_serv_addr: String::new(),
        db_host_id: 99999999,
        rpc_db_serv_addr: "127.0.0.1:9001".to_string(),
    };
    let mut rpc = rengine::rpc_sender::RpcSender::new(conf);
    // to itself: nothing to send
    assert!(matches!(
        rpc.send2host(3, 102, msg(1)),
        rengine::rpc_sender::RpcSendStep::LocalHost
    ));
    // an unknown peer needs a connection at the default address
    match rpc.send2host(8, 102, msg(2)) {
        rengine::rpc_sender::RpcSendStep::NeedConnect(h, addr, pid, _) => {
            assert_eq!(h, 8);
            assert_eq!(addr, "127.0.0.1:8083");
            assert_eq!(pid, 102);
        }
        other => panic!("expected a connect request, got {:?}", other),
    }
    // the database role resolves to its configured address
    match rpc.send2db(108, msg(3)) {
        rengine::rpc_sender::RpcSendStep::NeedConnect(h, addr, _, _) => {
            assert_eq!(h, 99999999);
            assert_eq!(addr, "127.0.0.1:9001");
        }
        other => panic!("expected a connect request, got {:?}", other),
    }
    // once a channel is registered, sends reuse it
    let (tx, mut rx) = tokio::sync::mpsc::channel(1);
    rpc.register(8, tx);
    assert!(matches!(rpc.send2host(8, 102, msg(4)), rengine::rpc_sender::RpcSendStep::Delivered));
    assert!(matches!(rpc.send2host(8, 102, msg(5)), rengine::rpc_sender::RpcSendStep::ChannelFull));
    let (h, _, _) = rx.try_recv().unwrap();
    assert_eq!(h, 8);
    // a closed channel asks for a fresh connection, carrying the message
    drop(rx);
    assert!(matches!(
        rpc.send2host(8, 102, msg(6)),
        rengine::rpc_sender::RpcSendStep::NeedConnect(8, _, 102, _)
    ));
}

#[test]
fn reader_policy_over_each_outcome() {
    let (tx, mut rx) = tokio::sync::mpsc::channel(1);
    let o = channel_try_send(&tx, (7, 102, msg(1)));
    assert_eq!(reader_forward_decision(&o), ReadForward::Delivered);
    let o = channel_try_send(&tx, (7, 102, msg(2)));
    assert_eq!(reader_forward_decision(&o), ReadForward::DroppedFull);
    let _ = rx.try_recv();
    drop(rx);
    let o = channel_try_send(&tx, (7, 102, msg(3)));
    assert_eq!(reader_forward_decision(&o), ReadForward::Stop);
}
