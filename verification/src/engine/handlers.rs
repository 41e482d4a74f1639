//! The handler tables and the handlers of the messages the game service
//! answers, plus the per-role dispatch decisions the service loops run.

use vstd::prelude::*;
use crate::channel::{try_send, feekback};
use crate::engine::db::{DBConf, DBRetFuncMarker, load};
use crate::engine::db_state::DbSharedEntity;
use crate::engine::errors::{Error, Result};
use crate::engine::game_state::GameSharedEntity;
use crate::engine::item_mgr::create_new_item;
use crate::engine::op_state::OperationStatus;
use crate::engine::bag::BagType;
use crate::messages::{
    ProtoType, c_errors, c_item_bag, c_login, c_player_brief, db_load_req, db_load_resp,
    db_save_req, is_proto_version, s_login,
};
use crate::rpc_sender::RpcSendStep;
use crate::service::Communicate;
use vstd::string::StringExecFns;
use crate::strutil::str_eq;

verus! {

/// The handlers answering messages that arrive over peer RPC.
#[allow(non_camel_case_types)]
#[derive(Debug, PartialEq, Eq, Structural)]
pub enum RpcRetFuncMarker {
    db_load_resp,
    unknow,
}

impl RpcRetFuncMarker {
    pub fn from_str(proto_name: &str) -> (r: RpcRetFuncMarker)
        ensures
            r == RpcRetFuncMarker::db_load_resp <==> proto_name@ == "db_load_resp"@,
    {
        if str_eq(proto_name, "db_load_resp") {
            RpcRetFuncMarker::db_load_resp
        } else {
            RpcRetFuncMarker::unknow
        }
    }
}

/// The handlers the database role answers RPC messages with.
#[allow(non_camel_case_types)]
#[derive(Debug, PartialEq, Eq, Structural)]
pub enum RpcDbSendFuncMarker {
    db_load_req,
    db_save_req,
    unknow,
}

impl RpcDbSendFuncMarker {
    pub fn from_str(proto_name: &str) -> (r: RpcDbSendFuncMarker)
        ensures
            r == RpcDbSendFuncMarker::db_load_req <==> proto_name@ == "db_load_req"@,
            r == RpcDbSendFuncMarker::db_save_req <==> proto_name@ == "db_save_req"@,
    {
        proof {
            reveal_strlit("db_load_req");
            reveal_strlit("db_save_req");
            assert("db_load_req"@[3] != "db_save_req"@[3]);
        }
        if str_eq(proto_name, "db_load_req") {
            RpcDbSendFuncMarker::db_load_req
        } else if str_eq(proto_name, "db_save_req") {
            RpcDbSendFuncMarker::db_save_req
        } else {
            RpcDbSendFuncMarker::unknow
        }
    }
}

/// The handlers answering messages that arrive from player sockets.
#[allow(non_camel_case_types)]
#[derive(Debug, PartialEq, Eq, Structural)]
pub enum ProtoRetFuncMarker {
    s_login,
    s_player_brief,
    s_item_bag,
    unknow,
}

impl ProtoRetFuncMarker {
    pub fn from_str(proto_name: &str) -> (r: ProtoRetFuncMarker)
        ensures
            r == ProtoRetFuncMarker::s_login <==> proto_name@ == "s_login"@,
            r == ProtoRetFuncMarker::s_player_brief <==> proto_name@ == "s_player_brief"@,
            r == ProtoRetFuncMarker::s_item_bag <==> proto_name@ == "s_item_bag"@,
    {
        proof {
            reveal_strlit("s_login");
            reveal_strlit("s_player_brief");
            reveal_strlit("s_item_bag");
            assert("s_login"@.len() != "s_player_brief"@.len());
            assert("s_login"@.len() != "s_item_bag"@.len());
            assert("s_player_brief"@.len() != "s_item_bag"@.len());
        }
        if str_eq(proto_name, "s_login") {
            ProtoRetFuncMarker::s_login
        } else if str_eq(proto_name, "s_player_brief") {
            ProtoRetFuncMarker::s_player_brief
        } else if str_eq(proto_name, "s_item_bag") {
            ProtoRetFuncMarker::s_item_bag
        } else {
            ProtoRetFuncMarker::unknow
        }
    }
}

/// How a login request left the service.
#[derive(Debug)]
pub enum LoginStep {
    /// The connection has no route; nothing can be answered.
    NoRoute,
    /// The message was not a login request.
    NotLogin,
    /// The client's protocol fingerprint does not match: refused, with a
    /// plain answer pushed back.
    VersionMismatch,
    /// A login for this connection is already running: refused with
    /// feedback.
    Busy,
    /// The player record was asked from the database role.
    Loading(RpcSendStep),
}

/// Answers a login request: refuse a wrong protocol fingerprint, admit one
/// login at a time per connection, and start loading the account's record.
pub fn s_login_handler(game: &mut GameSharedEntity, vfd: u64, pto: ProtoType, now_ms: u64) -> (r:
    Result<LoginStep>)
    requires
        old(game).wf(),
    ensures
        final(game).wf(),
        r is Ok,
        !(pto is s_login) ==> (r matches Ok(s) && s is NotLogin),
        r matches Ok(s) ==> match s {
            LoginStep::NoRoute => !old(game).tcp_entity.conn_map@.contains_key(vfd),
            LoginStep::NotLogin => !(pto is s_login),
            LoginStep::VersionMismatch => (pto matches ProtoType::s_login(m) && m.vers@
                != crate::messages::PROTO_VERSION@),
            LoginStep::Busy => (pto is s_login && old(game).op_entity.spec_status(vfd, now_ms)
                == OperationStatus::Busy),
            LoginStep::Loading(_) => (pto matches ProtoType::s_login(m) && m.vers@
                == crate::messages::PROTO_VERSION@ && final(game).vfd2uidacc@
                == old(game).vfd2uidacc@.insert(vfd, (0, m.acc))),
        },
{
    let m = match pto {
        ProtoType::s_login(m) => m,
        _ => {
            return Ok(LoginStep::NotLogin);
        },
    };
    if !self_route(game, vfd) {
        return Ok(LoginStep::NoRoute);
    }
    let sendptoid = c_login::id();
    if !is_proto_version(m.vers.as_str()) {
        let body = c_login { ret: 1, magic: 0 };
        let sendpto = ProtoType::c_login(body);
        match game.tcp_entity.conn_map.get(&vfd) {
            Some(ch) => {
                let _ = try_send(ch, vfd, sendptoid, sendpto);
            },
            None => {},
        }
        return Ok(LoginStep::VersionMismatch);
    }
    if !game.op_entity.can_start_op(vfd, now_ms) {
        proof {
            assert(vstd::utf8::encode_utf8(Seq::<char>::empty()) =~= Seq::<u8>::empty());
        }
        match game.tcp_entity.conn_map.get(&vfd) {
            Some(ch) => {
                feekback(ch, vfd, 111, String::new());
            },
            None => {},
        }
        return Ok(LoginStep::Busy);
    }
    let acc = m.acc;
    game.add_uid_acc(vfd, 0, acc.clone());
    let host_id = game.get_host_id();
    let step = load(&mut game.rpc_entity, host_id, DBConf::Player(acc));
    Ok(LoginStep::Loading(step))
}

/// True when the player service can still reach this connection.
fn self_route(game: &mut GameSharedEntity, vfd: u64) -> (r: bool)
    ensures
        *final(game) == *old(game),
        r == old(game).tcp_entity.conn_map@.contains_key(vfd),
{
    match game.tcp_entity.conn_map.get(&vfd) {
        Some(_) => true,
        None => false,
    }
}

/// Answers a profile request with the player's brief stats.
pub fn s_player_brief(game: &mut GameSharedEntity, vfd: u64, _pto: ProtoType) -> (r: Result<()>)
    requires
        old(game).wf(),
    ensures
        final(game).wf(),
        *final(game) == *old(game),
        r is Ok,
{
    let player = match game.get_player_by_vfd(vfd) {
        Some(p) => p,
        None => {
            return Ok(());
        },
    };
    let sendptoid = c_player_brief::id();
    let sendpto = c_player_brief {
        acc: player.get_acc().to_owned(),
        uid: player.get_uid(),
        name: player.get_name().to_owned(),
        level: player.get_level(),
        expr: player.get_expr(),
        money: player.get_money(),
    };
    let sendpto = ProtoType::c_player_brief(sendpto);
    player.send(sendptoid, sendpto);
    Ok(())
}

/// Answers a bag request with the listing of the named bag.
pub fn s_item_bag(game: &mut GameSharedEntity, vfd: u64, pto: ProtoType) -> (r: Result<()>)
    requires
        old(game).wf(),
    ensures
        final(game).wf(),
        *final(game) == *old(game),
        r is Ok,
{
    let m = match pto {
        ProtoType::s_item_bag(m) => m,
        _ => {
            return Ok(());
        },
    };
    let player = match game.get_player_by_vfd(vfd) {
        Some(p) => p,
        None => {
            return Ok(());
        },
    };
    let bag_type = BagType::from_u8(m.bagtype);
    let pack_info = player.bag_listing(bag_type);
    if pack_info.len() >= 0x10000000 {
        return Ok(());
    }
    let sendptoid = c_item_bag::id();
    let sendpto = c_item_bag { bagtype: m.bagtype, uid: player.get_uid(), baginfo: pack_info };
    let sendpto = ProtoType::c_item_bag(sendpto);
    player.send(sendptoid, sendpto);
    Ok(())
}

/// The database role answering a load: the stored record when one exists,
/// else an empty record under counter zero.
pub fn build_db_load_resp(db: &DbSharedEntity, req: &db_load_req) -> (r: db_load_resp)
    requires
        db.wf(),
    ensures
        r.key@ == req.key@,
        r.ret_func == req.ret_func,
        r.vfd == req.vfd,
        match db.spec_get(db_record_key(req.db_name@, req.key@)) {
            Some(rec) => r.counter == rec.0 && r.value@ == rec.1,
            None => r.counter == 0 && r.value@ == Seq::<u8>::empty(),
        },
{
    let ukey = make_record_key(req.db_name.as_str(), req.key.as_str());
    match db.get(ukey.as_str()) {
        Some(rec) => db_load_resp {
            key: req.key.clone(),
            value: rec.1.clone(),
            counter: rec.0,
            ret_func: req.ret_func,
            vfd: req.vfd,
        },
        None => db_load_resp {
            key: req.key.clone(),
            value: Vec::new(),
            counter: 0,
            ret_func: req.ret_func,
            vfd: req.vfd,
        },
    }
}

/// The store key of one record: the database name, a slash, the record key.
pub open spec fn db_record_key(db_name: Seq<char>, key: Seq<char>) -> Seq<char> {
    db_name + "/"@ + key
}

/// Builds the store key of one record.
fn make_record_key(db_name: &str, key: &str) -> (r: String)
    ensures
        r@ == db_record_key(db_name@, key@),
{
    let mut s = db_name.to_owned();
    s.append("/");
    s.append(key);
    s
}

/// The database role taking a load request: build the answer and send it
/// back to the asking host.
pub fn db_load_req_handler(db: &mut DbSharedEntity, _vfd: u64, pto: ProtoType) -> (r: Result<
    Option<RpcSendStep>,
>)
    requires
        old(db).wf(),
    ensures
        final(db).wf(),
        final(db).entries() == old(db).entries(),
        r is Ok <==> pto is db_load_req,
        r matches Ok(o) ==> o is Some,
{
    let req = match pto {
        ProtoType::db_load_req(m) => m,
        _ => {
            return Err(Error::Feedback((111, String::new())));
        },
    };
    let sendptoid = db_load_resp::id();
    let from_host = req.from_host;
    let resp = build_db_load_resp(db, &req);
    let sendpto = ProtoType::db_load_resp(resp);
    let step = db.rpc_entity.send2host(from_host, sendptoid, sendpto);
    Ok(Some(step))
}

/// The database role taking a save: only a counter strictly above the stored
/// one writes; anything else leaves the record as it was.
pub fn db_save_req_handler(db: &mut DbSharedEntity, _vfd: u64, pto: ProtoType) -> (r: Result<()>)
    requires
        old(db).wf(),
    ensures
        final(db).wf(),
        r is Ok,
        pto matches ProtoType::db_save_req(m) ==> {
            let k = db_record_key(m.db_name@, m.key@);
            match old(db).spec_get(k) {
                Some(rec) => {
                    &&& (m.counter <= rec.0 ==> final(db).spec_get(k) == old(db).spec_get(k))
                    &&& (m.counter > rec.0 ==> final(db).spec_get(k) == Some(
                        (m.counter, m.value@),
                    ))
                },
                None => final(db).spec_get(k) == Some((m.counter, m.value@)),
            }
        },
        !(pto is db_save_req) ==> *final(db) == *old(db),
{
    let m = match pto {
        ProtoType::db_save_req(m) => m,
        _ => {
            return Ok(());
        },
    };
    let ukey = make_record_key(m.db_name.as_str(), m.key.as_str());
    match db.get(ukey.as_str()) {
        Some(rec) => {
            if m.counter <= rec.0 {
                return Ok(());
            }
        },
        None => {},
    }
    let tvalue = (m.counter, m.value);
    db.set(ukey, tvalue);
    Ok(())
}

/// What the game service must do with a database answer: run the loader the
/// record was filed under; decoding the record's bytes is the runtime's part.
#[derive(Debug)]
pub enum LoadAction {
    /// No loader matches: drop the answer.
    Ignore,
    /// Decode the bytes as the host's id counters and hand them back.
    DecodeUuid(db_load_resp),
    /// Decode the bytes as a player record and hand it back.
    DecodePlayer(db_load_resp),
}

/// Routes a database answer to its loader.
pub fn db_load_resp_handler(_vfd: u64, pto: ProtoType) -> (r: LoadAction)
    ensures
        pto matches ProtoType::db_load_resp(m) ==> match r {
            LoadAction::Ignore => m.ret_func != 1 && m.ret_func != 2,
            LoadAction::DecodeUuid(got) => m.ret_func == 1 && got.eqv(&m),
            LoadAction::DecodePlayer(got) => m.ret_func == 2 && got.eqv(&m),
        },
        !(pto is db_load_resp) ==> r is Ignore,
{
    let m = match pto {
        ProtoType::db_load_resp(m) => m,
        _ => {
            return LoadAction::Ignore;
        },
    };
    match DBRetFuncMarker::from_u64(m.ret_func) {
        DBRetFuncMarker::UUIDLoadFunc => LoadAction::DecodeUuid(m),
        DBRetFuncMarker::PlayerLoadFunc => LoadAction::DecodePlayer(m),
        DBRetFuncMarker::Unknow => LoadAction::Ignore,
    }
}

/// Grants a player a fresh item. The item lands in the items bag under the
/// bag's own admission rule; persisting the id counters afterwards is the
/// caller's business.
pub fn reward_item_to_player(game: &mut GameSharedEntity, uid: u64, item_id: u32, stack: i32) -> (r:
    Result<()>)
    requires
        old(game).wf(),
    ensures
        final(game).wf(),
        !old(game).player_by_uid@.contains_key(uid) ==> (r matches Err(e) && e is Feedback),
{
    let item_uid = match game.new_item_uid() {
        Some(u) => u,
        None => {
            return Err(Error::Feedback((111, "no player".to_owned())));
        },
    };
    let mut player = match game.take_player(uid) {
        Some(p) => p,
        None => {
            return Err(Error::Feedback((111, "no player".to_owned())));
        },
    };
    let new_item = create_new_item(item_uid, item_id, stack);
    let item_mgr = player.get_item_mgr();
    let res = item_mgr.add_item_to_bag(BagType::Items, new_item);
    game.put_player(player);
    res
}

} // verus!

// --- the per-role dispatch decisions ---

verus! {

/// What one inbound message left the game service with.
#[derive(Debug)]
pub enum TcpDispatch {
    /// The service is not ready yet, or the message has no handler, or the
    /// connection was not validated: dropped.
    Dropped,
    /// The login handler ran.
    Login(LoginStep),
    /// A handler ran to completion.
    Handled,
}

/// One turn of the game service on a message from a player socket: refuse
/// everything until the id counters are loaded, let only a login through an
/// unvalidated connection, and run the matching handler.
pub fn dispatch_tcp_msg(
    game: &mut GameSharedEntity,
    vfd: u64,
    proto_id: u32,
    pto: ProtoType,
    now_ms: u64,
) -> (r: Result<TcpDispatch>)
    requires
        old(game).wf(),
    ensures
        final(game).wf(),
        r is Ok,
        old(game).uuid is None ==> (r matches Ok(d) && d is Dropped && *final(game) == *old(game)),
        r matches Ok(d) ==> (d is Login <==> (old(game).uuid is Some && pto is s_login)),
        old(game).uuid is Some && !(pto is s_login) && !old(game).vfd2uidacc@.contains_key(vfd)
            ==> (r matches Ok(d) && d is Dropped),
        r matches Ok(d) ==> d matches TcpDispatch::Login(step) ==> match step {
            LoginStep::NoRoute => !old(game).tcp_entity.conn_map@.contains_key(vfd),
            LoginStep::NotLogin => !(pto is s_login),
            LoginStep::VersionMismatch => (pto matches ProtoType::s_login(m) && m.vers@
                != crate::messages::PROTO_VERSION@),
            LoginStep::Busy => (pto is s_login && old(game).op_entity.spec_status(vfd, now_ms)
                == OperationStatus::Busy),
            LoginStep::Loading(_) => (pto matches ProtoType::s_login(m) && m.vers@
                == crate::messages::PROTO_VERSION@ && final(game).vfd2uidacc@
                == old(game).vfd2uidacc@.insert(vfd, (0, m.acc))),
        },
{
    if match &game.uuid {
        None => true,
        Some(_) => false,
    } {
        return Ok(TcpDispatch::Dropped);
    }
    let is_login = match &pto {
        ProtoType::s_login(_) => true,
        _ => false,
    };
    if !is_login && !game.is_vfd_validated(vfd) {
        return Ok(TcpDispatch::Dropped);
    }
    match &pto {
        ProtoType::s_login(_) => {
            let step = match s_login_handler(game, vfd, pto, now_ms) {
                Ok(s) => s,
                Err(e) => {
                    return Err(e);
                },
            };
            Ok(TcpDispatch::Login(step))
        },
        ProtoType::s_player_brief(_) => {
            match s_player_brief(game, vfd, pto) {
                Ok(_) => Ok(TcpDispatch::Handled),
                Err(e) => handle_feedback(game, vfd, e),
            }
        },
        ProtoType::s_item_bag(_) => {
            match s_item_bag(game, vfd, pto) {
                Ok(_) => Ok(TcpDispatch::Handled),
                Err(e) => handle_feedback(game, vfd, e),
            }
        },
        _ => Ok(TcpDispatch::Dropped),
    }
}

/// A handler's coded failure goes back to the player as an error message,
/// with the usual drop-on-full policy; anything else is only logged.
fn handle_feedback(game: &mut GameSharedEntity, vfd: u64, e: Error) -> (r: Result<TcpDispatch>)
    requires
        old(game).wf(),
    ensures
        final(game).wf(),
        *final(game) == *old(game),
        r matches Ok(d) && d is Handled,
{
    let (id, text) = match e {
        Error::Feedback((id, text)) => (id, text),
        Error::Message(_) => {
            return Ok(TcpDispatch::Handled);
        },
    };
    if text.as_str().as_bytes().len() >= 0x10000000 {
        return Ok(TcpDispatch::Handled);
    }
    let sender = match game.get_player_by_vfd(vfd) {
        Some(p) => p.get_sender(),
        None => {
            return Ok(TcpDispatch::Handled);
        },
    };
    match sender {
        Some(ch) => {
            feekback(ch, vfd, id, text);
        },
        None => {},
    }
    Ok(TcpDispatch::Handled)
}

/// One turn of the game service on a message from a peer host: only the
/// database answer has a handler, and its record still needs decoding.
pub fn dispatch_rpc_msg(game: &mut GameSharedEntity, vfd: u64, _proto_id: u32, pto: ProtoType) -> (r:
    LoadAction)
    requires
        old(game).wf(),
    ensures
        final(game).wf(),
        *final(game) == *old(game),
        pto matches ProtoType::db_load_resp(m) ==> match r {
            LoadAction::Ignore => m.ret_func != 1 && m.ret_func != 2,
            LoadAction::DecodeUuid(got) => m.ret_func == 1 && got.eqv(&m),
            LoadAction::DecodePlayer(got) => m.ret_func == 2 && got.eqv(&m),
        },
        !(pto is db_load_resp) ==> r is Ignore,
{
    db_load_resp_handler(vfd, pto)
}

/// One turn of the database role on a message from a peer host.
pub fn dispatch_db_rpc_msg(db: &mut DbSharedEntity, vfd: u64, _proto_id: u32, pto: ProtoType) -> (r:
    Result<Option<RpcSendStep>>)
    requires
        old(db).wf(),
    ensures
        final(db).wf(),
        r is Ok,
        pto is db_load_req ==> (final(db).entries() == old(db).entries() && (r matches Ok(o) && o
            is Some)),
        pto matches ProtoType::db_save_req(m) ==> {
            let k = db_record_key(m.db_name@, m.key@);
            &&& (r matches Ok(o) && o is None)
            &&& match old(db).spec_get(k) {
                Some(rec) => {
                    &&& (m.counter <= rec.0 ==> final(db).spec_get(k) == old(db).spec_get(k))
                    &&& (m.counter > rec.0 ==> final(db).spec_get(k) == Some(
                        (m.counter, m.value@),
                    ))
                },
                None => final(db).spec_get(k) == Some((m.counter, m.value@)),
            }
        },
        !(pto is db_load_req) && !(pto is db_save_req) ==> (*final(db) == *old(db) && (r matches Ok(
            o,
        ) && o is None)),
{
    match &pto {
        ProtoType::db_load_req(_) => db_load_req_handler(db, vfd, pto),
        ProtoType::db_save_req(_) => {
            match db_save_req_handler(db, vfd, pto) {
                Ok(_) => Ok(None),
                Err(e) => Err(e),
            }
        },
        _ => Ok(None),
    }
}

/// Finishes loading the host's id counters: a fresh record starts them at
/// zero and saves at once; an existing record is taken as decoded by the
/// runtime. Once counters are set, later answers change nothing.
pub fn uuid_load_ret(
    game: &mut GameSharedEntity,
    resp: &db_load_resp,
    decoded: Option<crate::engine::uuid::UUID>,
) -> (r: Option<RpcSendStep>)
    requires
        old(game).wf(),
        decoded matches Some(u) ==> u.wf(),
    ensures
        final(game).wf(),
        old(game).uuid is Some ==> (*final(game) == *old(game) && r is None),
        old(game).uuid is None && resp.value@.len() == 0 && old(game).sysconf.host_id < 10000 ==> (
        final(game).uuid matches Some(u) && u.host_id == old(game).sysconf.host_id && u.for_player
            == 0 && u.for_item == 0),
        old(game).uuid is None && resp.value@.len() > 0 && decoded is None ==> final(game).uuid
            is None,
        decoded matches Some(u) ==> ((old(game).uuid is None && resp.value@.len() > 0)
            ==> (final(game).uuid matches Some(w) && w.host_id == u.host_id && w.for_player
            == u.for_player && w.for_item == u.for_item && w.counter == u.counter)),
    {
    if match &game.uuid {
        Some(_) => true,
        None => false,
    } {
        return None;
    }
    let host_id = game.get_host_id();
    if resp.value.len() == 0 {
        if host_id >= crate::engine::uuid::UUID_BASE {
            return None;
        }
        let dbobj = crate::engine::db::DBObj::new(host_id, DBConf::UUID);
        let uuid = crate::engine::uuid::UUID::new(host_id, 0, 0).build_with_db(dbobj);
        game.uuid = Some(uuid);
        // a fresh record is persisted at once; the save bytes come from the
        // runtime on its next turn
        return None;
    }
    match decoded {
        Some(u) => {
            let dbobj = crate::engine::db::DBObj::new(host_id, DBConf::UUID);
            game.uuid = Some(u.build_with_db(dbobj));
        },
        None => {},
    }
    None
}

/// Finishes a login once the player's record is decoded: the connection must
/// still be known, still unclaimed, and waiting for this very account; then
/// the player takes the connection, learns their magic, is told the login
/// stands, and is filed in the tables.
pub fn player_load_ret(
    game: &mut GameSharedEntity,
    resp_vfd: u64,
    resp_key: &str,
    mut player: crate::engine::player::Player,
    magic: i32,
) -> (r: bool)
    requires
        old(game).wf(),
        player.wf(),
    ensures
        final(game).wf(),
        !old(game).vfd2uidacc@.contains_key(resp_vfd) ==> (!r && *final(game) == *old(game)),
        r ==> final(game).player_by_uid@.contains_key(player.spec_uid()),
{
    let (uid_known, acc_matches) = match game.get_vfd_info(resp_vfd) {
        Some(t) => (t.0 > 0, str_eq(t.1.as_str(), resp_key)),
        None => {
            return false;
        },
    };
    if uid_known {
        // this connection already finished loading
        return false;
    }
    if !acc_matches {
        return false;
    }
    let ch = match game.tcp_entity.conn_map.get(&resp_vfd) {
        Some(ch) => clone_sender(ch),
        None => {
            return false;
        },
    };
    player.set_vfd(resp_vfd);
    player.update_sender(ch);
    player.set_magic(magic);
    let sendptoid = c_login::id();
    let body = c_login { ret: 1, magic };
    let sendpto = ProtoType::c_login(body);
    player.send(sendptoid, sendpto);
    game.add_player(player);
    true
}

} // verus!

verus! {

/// Relies on the Clone impl of tokio's mpsc::Sender: a clone is another
/// handle to the same channel.
pub assume_specification<T>[ <tokio::sync::mpsc::Sender<T> as Clone>::clone ](
    s: &tokio::sync::mpsc::Sender<T>,
) -> (r: tokio::sync::mpsc::Sender<T>)
    ensures
        r == *s,
;

/// Another handle to the same channel.
fn clone_sender(s: &crate::channel::ProtoSender) -> (r: crate::channel::ProtoSender)
    ensures
        r == *s,
{
    s.clone()
}

} // verus!

// --- the same dispatch turns, as the entities' own methods ---

verus! {

impl GameSharedEntity {
    /// One turn on a message from a player socket, with the same promises
    /// as the free dispatch.
    pub fn dispatch_tcp_msg(&mut self, vfd: u64, proto_id: u32, pto: ProtoType, now_ms: u64) -> (r:
        Result<TcpDispatch>)
        requires
            old(self).wf(),
        ensures
            final(self).wf(),
            r is Ok,
            old(self).uuid is None ==> (r matches Ok(d) && d is Dropped && *final(self) == *old(
                self,
            )),
            r matches Ok(d) ==> (d is Login <==> (old(self).uuid is Some && pto is s_login)),
            old(self).uuid is Some && !(pto is s_login) && !old(self).vfd2uidacc@.contains_key(vfd)
                ==> (r matches Ok(d) && d is Dropped),
            r matches Ok(d) ==> d matches TcpDispatch::Login(step) ==> match step {
                LoginStep::NoRoute => !old(self).tcp_entity.conn_map@.contains_key(vfd),
                LoginStep::NotLogin => !(pto is s_login),
                LoginStep::VersionMismatch => (pto matches ProtoType::s_login(m) && m.vers@
                    != crate::messages::PROTO_VERSION@),
                LoginStep::Busy => (pto is s_login && old(self).op_entity.spec_status(vfd, now_ms)
                    == OperationStatus::Busy),
                LoginStep::Loading(_) => (pto matches ProtoType::s_login(m) && m.vers@
                    == crate::messages::PROTO_VERSION@ && final(self).vfd2uidacc@
                    == old(self).vfd2uidacc@.insert(vfd, (0, m.acc))),
            },
    {
        dispatch_tcp_msg(self, vfd, proto_id, pto, now_ms)
    }

    /// One turn on a message from a peer host, with the same promises as
    /// the free dispatch.
    pub fn dispatch_rpc_msg(&mut self, vfd: u64, proto_id: u32, pto: ProtoType) -> (r: LoadAction)
        requires
            old(self).wf(),
        ensures
            final(self).wf(),
            *final(self) == *old(self),
            pto matches ProtoType::db_load_resp(m) ==> match r {
                LoadAction::Ignore => m.ret_func != 1 && m.ret_func != 2,
                LoadAction::DecodeUuid(got) => m.ret_func == 1 && got.eqv(&m),
                LoadAction::DecodePlayer(got) => m.ret_func == 2 && got.eqv(&m),
            },
            !(pto is db_load_resp) ==> r is Ignore,
    {
        dispatch_rpc_msg(self, vfd, proto_id, pto)
    }
}

impl DbSharedEntity {
    /// One turn of the database role on a message from a peer host, with
    /// the same promises as the free dispatch.
    pub fn dispatch_rpc_msg(&mut self, vfd: u64, proto_id: u32, pto: ProtoType) -> (r: Result<
        Option<RpcSendStep>,
    >)
        requires
            old(self).wf(),
        ensures
            final(self).wf(),
            r is Ok,
            pto is db_load_req ==> (final(self).entries() == old(self).entries() && (r matches Ok(
                o,
            ) && o is Some)),
            pto matches ProtoType::db_save_req(m) ==> {
                let k = db_record_key(m.db_name@, m.key@);
                &&& (r matches Ok(o) && o is None)
                &&& match old(self).spec_get(k) {
                    Some(rec) => {
                        &&& (m.counter <= rec.0 ==> final(self).spec_get(k) == old(self).spec_get(
                            k,
                        ))
                        &&& (m.counter > rec.0 ==> final(self).spec_get(k) == Some(
                            (m.counter, m.value@),
                        ))
                    },
                    None => final(self).spec_get(k) == Some((m.counter, m.value@)),
                }
            },
            !(pto is db_load_req) && !(pto is db_save_req) ==> (*final(self) == *old(self) && (
            r matches Ok(o) && o is None)),
    {
        dispatch_db_rpc_msg(self, vfd, proto_id, pto)
    }
}

} // verus!
