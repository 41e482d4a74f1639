use rengine::conf::Conf;
use rengine::connection::{ConnReader, ConnWriter, WriteStep};
use rengine::engine::db_state::DbSharedEntity;
use rengine::engine::game_state::{GameSharedEntity, HttpSharedEntity};
use rengine::engine::handlers::{dispatch_db_rpc_msg, dispatch_rpc_msg, dispatch_tcp_msg,
    player_load_ret, reward_item_to_player, uuid_load_ret, LoadAction, LoginStep, TcpDispatch};
use rengine::engine::player::Player;
use rengine::engine::rpc_state::RpcSharedEntity;
use rengine::messages::{db_load_req, db_load_resp, db_save_req, s_login, ProtoType, PROTO_VERSION};
use rengine::http::{dispatch_http_msg, HttpProtoType, HttpStep};
use rengine::service::TcpSharedEntity;

fn test_conf(host_id: u64) -> Conf {
    Conf {
        host_id,
        name: "s1".to_string(),
        host_type: "game".to_string(),
        log_level: 1,
        max_log_file_size: 10,
        src_dir: "src".to_string(),
        out_dir: "out".to_string(),
        init_protos: vec![],
        tcp_serv_addr: "127.0.0.1:8080".to_string(),
        http_serv_addr: "127.0.0.1:8081".to_string(),
        rpc_serv_addr: "127.0.0.1:8082".to_string(),
        db_host_id: 99999999,
        rpc_db_serv_addr: "127.0.0.1:8083".to_string(),
    }
}

fn game_with_uuid(host_id: u64) -> GameSharedEntity {
    let conf = test_conf(host_id);
    let mut game = GameSharedEntity::new(
        conf.clone(),
        TcpSharedEntity::default(),
        RpcSharedEntity::new(conf),
        HttpSharedEntity::default(),
    );
    // an empty database record starts the counters fresh
    let resp = db_load_resp {
        key: "uuid.dat".to_string(),
        value: vec![],
        counter: 0,
        ret_func: 1,
        vfd: 0,
    };
    let _ = uuid_load_ret(&mut game, &resp, None);
    assert!(game.uuid.is_some());
    game
}

#[test]
fn end_to_end_login_and_response() {
    // the wire: client sends a login frame; the service decodes exactly one
    // message, the handler runs, the answer goes back addressed to the same
    // connection, and the writer emits exactly one frame for it
    let vfd = 10001u64;
    let mut game = game_with_uuid(7);
    let (tx, mut rx) = tokio::sync::mpsc::channel(16);
    game.tcp_entity.conn_map.insert(vfd, tx);

    // client side: one login frame arrives split over the socket
    let login = ProtoType::s_login(s_login {
        acc: "alice".to_string(),
        vers: PROTO_VERSION.to_string(),
    });
    let body = rengine::messages::serialize(&login).unwrap();
    let frame = rengine::connection::encode_frame(101, &body);
    let mut reader = ConnReader::new(vfd);
    reader.feed(&frame);
    let (from_vfd, proto_id, pto) = reader.parse_frame().unwrap().unwrap();
    assert_eq!((from_vfd, proto_id), (vfd, 101));
    assert!(reader.parse_frame().unwrap().is_none());

    // the dispatch loop takes it: a login starts loading the record
    match dispatch_tcp_msg(&mut game, from_vfd, proto_id, pto, 1000).unwrap() {
        TcpDispatch::Login(LoginStep::Loading(_)) => {}
        other => panic!("expected a loading login, got {:?}", other),
    }
    assert!(game.is_vfd_validated(vfd));

    // the database answers; the loader finishes the login
    let player = Player::new("alice".to_string(), 50007, "Alice".to_string());
    assert!(player_load_ret(&mut game, vfd, "alice", player, 99));
    let p = game.get_player_by_vfd(vfd).unwrap();
    assert_eq!(p.get_uid(), 50007);
    assert_eq!(p.get_vfd(), vfd);

    // the c_login answer sits in the connection's channel, addressed back
    let (to_vfd, resp_id, resp) = rx.try_recv().unwrap();
    assert_eq!(to_vfd, vfd);
    assert_eq!(resp_id, 102);
    let magic = match &resp {
        ProtoType::c_login(c) => {
            assert_eq!(c.ret, 1);
            assert_eq!(c.magic, 99);
            c.magic
        }
        _ => panic!("expected a login answer"),
    };
    assert_eq!(magic, 99);

    // the writer emits exactly that frame and nothing else
    let mut writer = ConnWriter::new(vfd);
    let resp_body = rengine::messages::serialize(&resp).unwrap();
    match writer.handle_outbound(to_vfd, resp_id, &resp) {
        WriteStep::Emit(out) => {
            assert_eq!(out.len(), 8 + resp_body.len());
            assert_eq!(u32::from_le_bytes([out[0], out[1], out[2], out[3]]), 102);
            assert_eq!(&out[8..], &resp_body[..]);
        }
        other => panic!("expected a frame, got {:?}", other),
    }
    assert!(rx.try_recv().is_err());
}

#[test]
fn login_rejects_wrong_version_and_double_login() {
    let vfd = 10002u64;
    let mut game = game_with_uuid(7);
    let (tx, mut rx) = tokio::sync::mpsc::channel(16);
    game.tcp_entity.conn_map.insert(vfd, tx);

    let bad = ProtoType::s_login(s_login {
        acc: "bob".to_string(),
        vers: "not-this-build".to_string(),
    });
    match dispatch_tcp_msg(&mut game, vfd, 101, bad, 1000).unwrap() {
        TcpDispatch::Login(LoginStep::VersionMismatch) => {}
        other => panic!("expected a version refusal, got {:?}", other),
    }
    // the refusal went to the client
    let (_, id, _) = rx.try_recv().unwrap();
    assert_eq!(id, 102);

    let good = || ProtoType::s_login(s_login {
        acc: "bob".to_string(),
        vers: PROTO_VERSION.to_string(),
    });
    match dispatch_tcp_msg(&mut game, vfd, 101, good(), 2000).unwrap() {
        TcpDispatch::Login(LoginStep::Loading(_)) => {}
        other => panic!("expected loading, got {:?}", other),
    }
    // a second login while the first is still running is refused
    match dispatch_tcp_msg(&mut game, vfd, 101, good(), 3000).unwrap() {
        TcpDispatch::Login(LoginStep::Busy) => {}
        other => panic!("expected busy, got {:?}", other),
    }
}

#[test]
fn unvalidated_connections_only_log_in() {
    let mut game = game_with_uuid(7);
    let pto = ProtoType::s_player_brief(rengine::messages::s_player_brief {});
    match dispatch_tcp_msg(&mut game, 777, 103, pto, 0).unwrap() {
        TcpDispatch::Dropped => {}
        other => panic!("expected a drop, got {:?}", other),
    }
}

#[test]
fn db_role_load_save_round() {
    let conf = test_conf(99999999);
    let mut db = DbSharedEntity::new(conf.clone(), RpcSharedEntity::new(conf));

    // a save writes, a stale save does not, a newer one does
    let save = |counter: u64, text: &str| ProtoType::db_save_req(db_save_req {
        from_host: 7,
        db_name: "playerdb".to_string(),
        key: "alice.dat".to_string(),
        value: text.as_bytes().to_vec(),
        counter,
    });
    dispatch_db_rpc_msg(&mut db, 0, 109, save(5, "five")).unwrap();
    assert_eq!(db.get("playerdb/alice.dat").unwrap(), &(5, b"five".to_vec()));
    dispatch_db_rpc_msg(&mut db, 0, 109, save(3, "three")).unwrap();
    assert_eq!(db.get("playerdb/alice.dat").unwrap(), &(5, b"five".to_vec()));
    dispatch_db_rpc_msg(&mut db, 0, 109, save(7, "seven")).unwrap();
    assert_eq!(db.get("playerdb/alice.dat").unwrap(), &(7, b"seven".to_vec()));

    // a load answers with the stored record
    let req = db_load_req {
        from_host: 7,
        db_name: "playerdb".to_string(),
        key: "alice.dat".to_string(),
        ret_func: 2,
        vfd: 10001,
    };
    let resp = rengine::engine::handlers::build_db_load_resp(&db, &req);
    assert_eq!(resp.key, "alice.dat");
    assert_eq!(resp.counter, 7);
    assert_eq!(resp.value, b"seven".to_vec());
    assert_eq!(resp.ret_func, 2);
    assert_eq!(resp.vfd, 10001);

    // a load of something never saved answers empty under counter zero
    let req2 = db_load_req { key: "nobody.dat".to_string(), ..req };
    let resp2 = rengine::engine::handlers::build_db_load_resp(&db, &req2);
    assert_eq!(resp2.counter, 0);
    assert!(resp2.value.is_empty());

    db.del("playerdb/alice.dat");
    assert!(db.get("playerdb/alice.dat").is_none());
}

#[test]
fn load_answers_route_to_their_loader() {
    let mut game = game_with_uuid(7);
    let resp = |ret_func: u64| ProtoType::db_load_resp(db_load_resp {
        key: "k".to_string(),
        value: vec![1],
        counter: 1,
        ret_func,
        vfd: 0,
    });
    assert!(matches!(dispatch_rpc_msg(&mut game, 0, 110, resp(1)), LoadAction::DecodeUuid(_)));
    assert!(matches!(dispatch_rpc_msg(&mut game, 0, 110, resp(2)), LoadAction::DecodePlayer(_)));
    assert!(matches!(dispatch_rpc_msg(&mut game, 0, 110, resp(9)), LoadAction::Ignore));
}

#[test]
fn reward_requires_a_player() {
    let mut game = game_with_uuid(7);
    assert!(reward_item_to_player(&mut game, 12345, 1, 1).is_err());
    let mut player = Player::new("alice".to_string(), 50007, "Alice".to_string());
    player.set_vfd(10001);
    game.add_player(player);
    // the player exists; the grant still follows the bag's stored admission
    // rule, which refuses it
    assert!(reward_item_to_player(&mut game, 50007, 1, 1).is_err());
}

#[test]
fn admin_requests_route_to_their_answers() {
    assert!(matches!(
        dispatch_http_msg(HttpProtoType::ReqServerInfo(7)),
        HttpStep::ServerInfo(7)
    ));
    match dispatch_http_msg(HttpProtoType::ReqGM("{\"func\":\"add_item\"}".to_string())) {
        HttpStep::RunGm(cmd) => assert_eq!(cmd, "{\"func\":\"add_item\"}"),
        other => panic!("expected a command, got {:?}", other),
    }
    assert!(matches!(dispatch_http_msg(HttpProtoType::ReqServerAll), HttpStep::Unhandled));
    assert!(matches!(
        dispatch_http_msg(HttpProtoType::RespGM("done".to_string())),
        HttpStep::Unhandled
    ));
}

#[test]
fn uuid_loading_is_idempotent() {
    let mut game = game_with_uuid(7);
    let before_player = game.uuid.as_ref().unwrap().for_player;
    // a second answer changes nothing once the counters are set
    let resp = db_load_resp {
        key: "uuid.dat".to_string(),
        value: vec![1, 2, 3],
        counter: 9,
        ret_func: 1,
        vfd: 0,
    };
    let decoded = rengine::engine::uuid::UUID::new(9, 5, 5);
    let _ = uuid_load_ret(&mut game, &resp, Some(decoded));
    assert_eq!(game.uuid.as_ref().unwrap().host_id, 7);
    assert_eq!(game.uuid.as_ref().unwrap().for_player, before_player);
}

#[test]
fn minted_ids_carry_the_host_residue() {
    let mut game = game_with_uuid(7);
    let p1 = game.new_player_uid().unwrap();
    let p2 = game.new_player_uid().unwrap();
    let i1 = game.new_item_uid().unwrap();
    assert_eq!(p1 % 10000, 7);
    assert_eq!(p2 % 10000, 7);
    assert_eq!(i1 % 10000, 7);
    assert!(p2 > p1);
}

#[test]
fn player_state_follows_registration_and_teardown() {
    let mut game = game_with_uuid(7);
    let mut player = Player::new("carol".to_string(), 60007, "Carol".to_string());
    player.set_vfd(10005);
    game.add_player(player);
    assert!(game.is_vfd_validated(10005));
    assert_eq!(game.get_player_by_uid(60007).unwrap().get_name(), "Carol");
    assert_eq!(game.get_player_by_vfd(10005).unwrap().get_acc(), "carol");
    let taken = game.take_player(60007).unwrap();
    assert!(game.get_player_by_uid(60007).is_none());
    game.put_player(taken);
    assert!(game.get_player_by_uid(60007).is_some());
    game.remove_player(10005, 60007);
    assert!(!game.is_vfd_validated(10005));
    assert!(game.get_player_by_uid(60007).is_none());
}
