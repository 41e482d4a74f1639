use rengine::conf::Conf;
use rengine::engine::bag::{Bag, BagType};
use rengine::engine::db::{DBConf, DBRetFuncMarker};
use rengine::engine::gm::GMFuncMarker;
use rengine::engine::handlers::{ProtoRetFuncMarker, RpcDbSendFuncMarker, RpcRetFuncMarker};
use rengine::engine::item::Item;
use rengine::engine::item_mgr::{create_new_item, ItemMgr};
use rengine::engine::op_state::OperationEntity;
use rengine::engine::uuid::UUID;
use rengine::llog::{can_log_debug, can_log_error, can_log_info, can_log_warning, LevelType};
use rengine::messages::is_proto_version;
use rengine::strutil::str_eq;

fn test_conf(host_type: &str, host_id: u64, db_host_id: u64) -> Conf {
    Conf {
        host_id,
        name: "s1".to_string(),
        host_type: host_type.to_string(),
        log_level: 1,
        max_log_file_size: 10,
        src_dir: "src".to_string(),
        out_dir: "out".to_string(),
        init_protos: vec![],
        tcp_serv_addr: "127.0.0.1:8080".to_string(),
        http_serv_addr: "127.0.0.1:8081".to_string(),
        rpc_serv_addr: "127.0.0.1:8082".to_string(),
        db_host_id,
        rpc_db_serv_addr: "127.0.0.1:8082".to_string(),
    }
}

#[test]
fn conf_validation() {
    assert!(test_conf("db", 99999999, 99999999).validate());
    assert!(!test_conf("db", 1, 99999999).validate());
    assert!(!test_conf("db", 99999999, 7).validate());
    assert!(test_conf("game", 1, 99999999).validate());
    assert!(!test_conf("game", 99999999, 99999999).validate());
    let c = test_conf("game", 3, 99999999);
    assert_eq!(c.get_host_id(), 3);
    assert_eq!(c.get_name(), "s1");
    assert_eq!(c.get_host_type(), "game");
    assert_eq!(c.get_log_level(), 1);
    assert_eq!(c.get_log_file_size(), 10);
    assert_eq!(c.get_src_dir(), "src");
    assert_eq!(c.get_out_dir(), "out");
    assert!(c.get_init_protos().is_empty());
    assert_eq!(c.get_tcp_serv_addr(), "127.0.0.1:8080");
    assert_eq!(c.get_http_serv_addr(), "127.0.0.1:8081");
    assert_eq!(c.get_rpc_serv_addr(), "127.0.0.1:8082");
    assert_eq!(c.get_db_host_id(), 99999999);
    assert_eq!(c.get_rpc_db_serv_addr(), "127.0.0.1:8082");
}

#[test]
fn log_levels() {
    assert!(matches!(LevelType::from_i32(1), LevelType::Debug));
    assert!(matches!(LevelType::from_i32(2), LevelType::Warning));
    assert!(matches!(LevelType::from_i32(3), LevelType::Info));
    assert!(matches!(LevelType::from_i32(4), LevelType::Error));
    assert!(matches!(LevelType::from_i32(0), LevelType::Debug));
    assert!(can_log_debug(LevelType::Debug));
    assert!(!can_log_debug(LevelType::Info));
    assert!(can_log_warning(LevelType::Warning));
    assert!(!can_log_warning(LevelType::Error));
    assert!(can_log_info(LevelType::Info));
    assert!(can_log_error(LevelType::Error));
}

#[test]
fn items_and_stacks() {
    let mut it = Item::new(11, 5, 3);
    assert_eq!(it.uid(), 11);
    assert_eq!(it.id(), 5);
    assert_eq!(it.stack(), 3);
    assert_eq!(it.add_stack(4), 7);
    assert_eq!(it.stack(), 7);
    let it2 = create_new_item(12, 6, 1);
    assert_eq!(it2.uid(), 12);
    assert!(!it.log_info().is_empty());
}

#[test]
fn bag_admission_rule_as_stored() {
    // the stored rule refuses an add while the bag holds no more than its
    // capacity, so from empty nothing is ever admitted
    let mut bag = Bag::new(BagType::Items, 2);
    assert!(bag.add_item(Item::new(1, 1, 1)).is_err());
    assert_eq!(bag.empty_space(), 2);
    assert!(bag.get_item(1).is_none());
    bag.del_item(1);
    assert!(bag.pack().is_empty());
    assert_eq!(BagType::from_u8(1).into_u8(), 1);
    assert_eq!(BagType::from_u8(2).into_u8(), 2);
    assert_eq!(BagType::from_u8(3).into_u8(), 3);
    assert_eq!(BagType::from_u8(200).into_u8(), 3);
}

#[test]
fn item_mgr_add_follows_bag_rule() {
    let mut mgr = ItemMgr::new(9);
    assert!(mgr.add_item_to_bag(BagType::Items, Item::new(1, 1, 1)).is_err());
    assert!(mgr.get_bag_item(BagType::Items, 1).is_none());
    assert!(mgr.pack_bag_info(BagType::Equiped).is_empty());
    assert!(mgr.pack_bag_info(BagType::Items).is_empty());
    assert!(mgr.pack_bag_info(BagType::Temp).is_empty());
}

#[test]
fn uuid_residue_classes() {
    let mut u = UUID::new(7, 0, 0);
    assert_eq!(u.inc_player_uid(), 10007);
    assert_eq!(u.inc_player_uid(), 20007);
    assert_eq!(u.inc_item_uid(), 10007);
    assert_eq!(u.for_player, 2);
    assert_eq!(u.for_item, 1);
    let card = rengine::engine::db::DBObj::new(3, DBConf::UUID);
    let u2 = UUID::new(3, 5, 6).build_with_db(card);
    assert_eq!(u2.for_player, 5);
    assert_eq!(u2.for_item, 6);
    assert!(u2.inner.is_some());
}

#[test]
fn operations_exclude_and_time_out() {
    let mut ops = OperationEntity::default();
    assert!(ops.can_start_op(42, 1000));
    assert!(!ops.can_start_op(42, 2000));
    // a minute later the stale claim is gone
    assert!(ops.can_start_op(42, 61001));
    ops.finish_op(42);
    assert!(ops.can_start_op(42, 61002));
}

#[test]
fn marker_tables() {
    assert!(matches!(DBRetFuncMarker::from_u64(1), DBRetFuncMarker::UUIDLoadFunc));
    assert!(matches!(DBRetFuncMarker::from_u64(2), DBRetFuncMarker::PlayerLoadFunc));
    assert!(matches!(DBRetFuncMarker::from_u64(3), DBRetFuncMarker::Unknow));
    assert_eq!(DBRetFuncMarker::UUIDLoadFunc.into_u64(), 1);
    assert_eq!(DBRetFuncMarker::PlayerLoadFunc.into_u64(), 2);
    assert_eq!(DBRetFuncMarker::Unknow.into_u64(), 99999999);
    assert!(matches!(RpcRetFuncMarker::from_str("db_load_resp"), RpcRetFuncMarker::db_load_resp));
    assert!(matches!(RpcRetFuncMarker::from_str("nope"), RpcRetFuncMarker::unknow));
    assert!(matches!(RpcDbSendFuncMarker::from_str("db_load_req"), RpcDbSendFuncMarker::db_load_req));
    assert!(matches!(RpcDbSendFuncMarker::from_str("db_save_req"), RpcDbSendFuncMarker::db_save_req));
    assert!(matches!(RpcDbSendFuncMarker::from_str("x"), RpcDbSendFuncMarker::unknow));
    assert!(matches!(ProtoRetFuncMarker::from_str("s_login"), ProtoRetFuncMarker::s_login));
    assert!(matches!(ProtoRetFuncMarker::from_str("s_player_brief"), ProtoRetFuncMarker::s_player_brief));
    assert!(matches!(ProtoRetFuncMarker::from_str("s_item_bag"), ProtoRetFuncMarker::s_item_bag));
    assert!(matches!(ProtoRetFuncMarker::from_str(""), ProtoRetFuncMarker::unknow));
    assert!(matches!(GMFuncMarker::from_str("add_item"), GMFuncMarker::add_item));
    assert!(matches!(GMFuncMarker::from_str("del_item"), GMFuncMarker::unknow));
    let (dbname, key, marker) = DBConf::UUID.info();
    assert_eq!(dbname, "uuiddb");
    assert_eq!(key, "uuid.dat");
    assert!(matches!(marker, DBRetFuncMarker::UUIDLoadFunc));
    let (dbname, key, marker) = DBConf::Player("alice".to_string()).info();
    assert_eq!(dbname, "playerdb");
    assert_eq!(key, "alice.dat");
    assert!(matches!(marker, DBRetFuncMarker::PlayerLoadFunc));
}

#[test]
fn string_equality_and_version() {
    assert!(str_eq("abc", "abc"));
    assert!(!str_eq("abc", "abd"));
    assert!(!str_eq("abc", "ab"));
    assert!(str_eq("", ""));
    assert!(is_proto_version(rengine::messages::PROTO_VERSION));
    assert!(!is_proto_version("something else"));
}

#[test]
fn saves_bump_the_persistence_counter() {
    let conf_entry = rengine::conf::Conf {
        host_id: 3,
        name: "s1".to_string(),
        host_type: "game".to_string(),
        log_level: 1,
        max_log_file_size: 10,
        src_dir: String::new(),
        out_dir: String::new(),
        init_protos: vec![],
        tcp_serv_addr: String::new(),
        http_serv_addr: String::new(),
        rpc_serv_addr: String::new(),
        db_host_id: 99999999,
        rpc_db_serv_addr: "127.0.0.1:9001".to_string(),
    };
    let mut rpc = rengine::engine::rpc_state::RpcSharedEntity::new(conf_entry);
    let card = rengine::engine::db::DBObj::new(3, DBConf::UUID);
    let mut u = UUID::new(3, 0, 0).build_with_db(card);
    assert!(u.save(&mut rpc, vec![1]).is_some());
    assert_eq!(u.counter, 1);
    assert!(u.save(&mut rpc, vec![2]).is_some());
    assert_eq!(u.counter, 2);
    // without a filing card nothing is sent, but the counter still moves
    let mut bare = UUID::new(3, 0, 0);
    assert!(bare.save(&mut rpc, vec![]).is_none());
    assert_eq!(bare.counter, 1);
}

#[test]
fn bag_removal_and_stack_growth() {
    // a bag built directly, as a loaded record hands one over
    let mut bag = rengine::engine::bag::Bag {
        id: 2,
        capacity: 5,
        inner: vec![Item::new(1, 10, 3), Item::new(2, 11, 4), Item::new(3, 12, 5)],
    };
    assert!(bag.add_item_stack(2, 6));
    assert_eq!(bag.get_item(2).unwrap().stack(), 10);
    // an addition that would overflow leaves the bag untouched
    assert!(bag.add_item_stack(3, i32::MAX));
    assert_eq!(bag.get_item(3).unwrap().stack(), 5);
    assert!(!bag.add_item_stack(9, 1));
    // exactly the named entry leaves
    bag.del_item(2);
    assert!(bag.get_item(2).is_none());
    assert_eq!(bag.get_item(1).unwrap().stack(), 3);
    assert_eq!(bag.get_item(3).unwrap().stack(), 5);
    bag.del_item(9);
    assert!(bag.get_item(1).is_some());
}
