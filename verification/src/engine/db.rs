//! The bookkeeping each persistent object carries: which database and key it
//! lives under, and which loader runs when its data comes back.

use vstd::prelude::*;
use vstd::string::StringExecFns;
use crate::channel::ProtoMsgType;
use crate::messages::{ProtoType, db_load_req, db_save_req};
use crate::engine::rpc_state::RpcSharedEntity;
use crate::rpc_sender::RpcSendStep;

verus! {

/// What a persistent object is filed under.
#[derive(Debug, Clone, PartialEq, Eq)]
pub enum DBConf {
    UUID,
    Player(String),
}

/// The loader to run when a load answer comes back, carried over the wire as
/// a number.
#[derive(Debug, PartialEq, Eq, Structural)]
pub enum DBRetFuncMarker {
    UUIDLoadFunc,
    PlayerLoadFunc,
    Unknow,
}

impl DBRetFuncMarker {
    pub fn into_u64(self) -> (r: u64)
        ensures
            self == DBRetFuncMarker::UUIDLoadFunc ==> r == 1,
            self == DBRetFuncMarker::PlayerLoadFunc ==> r == 2,
            self == DBRetFuncMarker::Unknow ==> r == 99999999,
    {
        match self {
            DBRetFuncMarker::UUIDLoadFunc => 1,
            DBRetFuncMarker::PlayerLoadFunc => 2,
            DBRetFuncMarker::Unknow => 99999999,
        }
    }

    pub fn from_u64(tag: u64) -> (r: DBRetFuncMarker)
        ensures
            tag == 1 ==> r == DBRetFuncMarker::UUIDLoadFunc,
            tag == 2 ==> r == DBRetFuncMarker::PlayerLoadFunc,
            !(1 <= tag <= 2) ==> r == DBRetFuncMarker::Unknow,
    {
        match tag {
            1 => DBRetFuncMarker::UUIDLoadFunc,
            2 => DBRetFuncMarker::PlayerLoadFunc,
            _ => DBRetFuncMarker::Unknow,
        }
    }
}

impl DBConf {
    /// Which loader answers for this kind of record.
    pub open spec fn spec_marker(&self) -> DBRetFuncMarker {
        match self {
            DBConf::UUID => DBRetFuncMarker::UUIDLoadFunc,
            DBConf::Player(_) => DBRetFuncMarker::PlayerLoadFunc,
        }
    }

    /// The database name, record key and loader of this kind of record.
    pub fn info(&self) -> (r: (String, String, DBRetFuncMarker))
        ensures
            r.2 == self.spec_marker(),
            self is UUID ==> r.0@ == "uuiddb"@ && r.1@ == "uuid.dat"@,
            self matches DBConf::Player(acc) ==> r.0@ == "playerdb"@ && r.1@ == player_record_key(
                acc@,
            ),
    {
        match self {
            DBConf::UUID => ("uuiddb".to_owned(), "uuid.dat".to_owned(), DBRetFuncMarker::UUIDLoadFunc),
            DBConf::Player(acc) => {
                let key = make_player_key(acc.as_str());
                ("playerdb".to_owned(), key, DBRetFuncMarker::PlayerLoadFunc)
            },
        }
    }
}

/// The record key a player's account files under: the account, then the
/// data suffix.
pub open spec fn player_record_key(acc: Seq<char>) -> Seq<char> {
    acc + ".dat"@
}

/// Builds the player record key.
fn make_player_key(acc: &str) -> (r: String)
    ensures
        r@ == player_record_key(acc@),
{
    let s = acc.to_owned();
    s.concat(".dat")
}

/// One persistent object's filing card.
#[derive(Debug, Clone, PartialEq, Eq)]
pub struct DBObj {
    pub host_id: u64,
    pub conf: DBConf,
}

impl DBObj {
    pub fn new(host_id: u64, conf: DBConf) -> (r: DBObj)
        ensures
            r.host_id == host_id,
            r.conf == conf,
    {
        DBObj { host_id, conf }
    }

    /// The load request this filing card sends: which record it names is
    /// forced by the card's kind.
    pub fn build_load_req(&self) -> (r: db_load_req)
        ensures
            r.from_host == self.host_id,
            r.vfd == 0,
            self.conf is UUID ==> r.ret_func == 1 && r.db_name@ == "uuiddb"@ && r.key@
                == "uuid.dat"@,
            self.conf matches DBConf::Player(acc) ==> r.ret_func == 2 && r.db_name@ == "playerdb"@
                && r.key@ == player_record_key(acc@),
    {
        let (dbname, key, ret_func) = self.conf.info();
        db_load_req {
            from_host: self.host_id,
            db_name: dbname,
            key,
            ret_func: ret_func.into_u64(),
            vfd: 0,
        }
    }

    /// The save request this filing card sends for the given bytes and
    /// counter.
    pub fn build_save_req(&self, counter: u64, datastr: Vec<u8>) -> (r: db_save_req)
        ensures
            r.from_host == self.host_id,
            r.counter == counter,
            r.value@ == datastr@,
            self.conf is UUID ==> r.db_name@ == "uuiddb"@ && r.key@ == "uuid.dat"@,
            self.conf matches DBConf::Player(acc) ==> r.db_name@ == "playerdb"@ && r.key@
                == player_record_key(acc@),
    {
        let (dbname, key, _) = self.conf.info();
        db_save_req { from_host: self.host_id, db_name: dbname, key, value: datastr, counter }
    }

    /// Asks the database role for this object's record — the request
    /// `build_load_req` pins — and says how the message left, or what
    /// connection the runtime must make.
    pub fn load(&self, rpc: &mut RpcSharedEntity) -> (r: RpcSendStep)
        ensures
            final(rpc).spec_conf() == old(rpc).spec_conf(),
            r is LocalHost <==> old(rpc).spec_conf().db_host_id == old(rpc).spec_conf().host_id,
    {
        let req = self.build_load_req();
        let proto_id = db_load_req::id();
        let pto = ProtoType::db_load_req(req);
        rpc.send2db(proto_id, pto)
    }

    /// Sends this object's bytes to the database role — the request
    /// `build_save_req` pins — under a counter that must only ever grow.
    pub fn save(&self, rpc: &mut RpcSharedEntity, counter: u64, datastr: Vec<u8>) -> (r:
        RpcSendStep)
        ensures
            final(rpc).spec_conf() == old(rpc).spec_conf(),
            r is LocalHost <==> old(rpc).spec_conf().db_host_id == old(rpc).spec_conf().host_id,
    {
        let req = self.build_save_req(counter, datastr);
        let proto_id = db_save_req::id();
        let pto = ProtoType::db_save_req(req);
        rpc.send2db(proto_id, pto)
    }
}

/// Asks the database role for a record without keeping the filing card.
pub fn load(rpc: &mut RpcSharedEntity, host_id: u64, conf: DBConf) -> (r: RpcSendStep)
    ensures
        final(rpc).spec_conf() == old(rpc).spec_conf(),
        r is LocalHost <==> old(rpc).spec_conf().db_host_id == old(rpc).spec_conf().host_id,
{
    let tmp = DBObj::new(host_id, conf);
    tmp.load(rpc)
}

} // verus!
