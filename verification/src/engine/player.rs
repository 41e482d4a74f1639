//! One logged-in player: identity, stats, their bags, and the channel their
//! client is reached through.

use vstd::prelude::*;
use crate::channel::{ProtoSender, try_send};
use crate::engine::db::DBObj;
use crate::engine::item_mgr::ItemMgr;
use crate::engine::rpc_state::RpcSharedEntity;
use crate::messages::ProtoType;
use crate::rpc_sender::RpcSendStep;

verus! {

#[derive(Debug)]
pub struct Player {
    pub counter: u64,
    pub vfd: u64,
    pub acc: String,
    pub uid: u64,
    pub name: String,
    pub level: i32,
    pub expr: i32,
    pub money: i32,
    pub sender: Option<ProtoSender>,
    pub magic: i32,
    pub item_mgr: ItemMgr,
    pub inner: Option<DBObj>,
}

impl Player {
    pub open spec fn wf(&self) -> bool {
        self.item_mgr.wf()
    }

    pub open spec fn spec_vfd(&self) -> u64 {
        self.vfd
    }

    pub open spec fn spec_acc(&self) -> Seq<char> {
        self.acc@
    }

    pub open spec fn spec_uid(&self) -> u64 {
        self.uid
    }

    pub open spec fn spec_name(&self) -> Seq<char> {
        self.name@
    }

    pub open spec fn spec_level(&self) -> i32 {
        self.level
    }

    pub open spec fn spec_expr(&self) -> i32 {
        self.expr
    }

    pub open spec fn spec_money(&self) -> i32 {
        self.money
    }

    pub open spec fn spec_magic(&self) -> i32 {
        self.magic
    }

    pub open spec fn has_sender(&self) -> bool {
        self.sender is Some
    }

    pub fn new(acc: String, uid: u64, name: String) -> (r: Player)
        ensures
            r.wf(),
            r.spec_acc() == acc@,
            r.spec_uid() == uid,
            r.spec_name() == name@,
            r.spec_vfd() == 0,
            r.spec_level() == 0,
            r.spec_expr() == 0,
            r.spec_money() == 0,
            !r.has_sender(),
    {
        let item_mgr = ItemMgr::new(uid);
        Player {
            counter: 0,
            vfd: 0,
            acc,
            uid,
            name,
            level: 0,
            expr: 0,
            money: 0,
            sender: None,
            magic: 0,
            item_mgr,
            inner: None,
        }
    }

    /// Rebuilds a player from their persisted stats, as the loader hands
    /// them over.
    pub fn from_parts(
        counter: u64,
        vfd: u64,
        acc: String,
        uid: u64,
        name: String,
        level: i32,
        expr: i32,
        money: i32,
        item_mgr: ItemMgr,
    ) -> (r: Player)
        requires
            item_mgr.wf(),
        ensures
            r.wf(),
            r.spec_vfd() == vfd,
            r.spec_acc() == acc@,
            r.spec_uid() == uid,
            r.spec_name() == name@,
            r.spec_level() == level,
            r.spec_expr() == expr,
            r.spec_money() == money,
            !r.has_sender(),
    {
        Player {
            counter,
            vfd,
            acc,
            uid,
            name,
            level,
            expr,
            money,
            sender: None,
            magic: 0,
            item_mgr,
            inner: None,
        }
    }

    pub fn get_vfd(&self) -> (r: u64)
        ensures
            r == self.spec_vfd(),
    {
        self.vfd
    }

    /// Gives the player the identity of the connection they speak through.
    pub fn set_vfd(&mut self, vfd: u64)
        requires
            old(self).wf(),
        ensures
            final(self).wf(),
            final(self).spec_vfd() == vfd,
            final(self).spec_uid() == old(self).spec_uid(),
            final(self).spec_acc() == old(self).spec_acc(),
            final(self).has_sender() == old(self).has_sender(),
    {
        self.vfd = vfd;
    }

    pub fn get_acc(&self) -> (r: &str)
        ensures
            r@ == self.spec_acc(),
    {
        self.acc.as_str()
    }

    pub fn get_uid(&self) -> (r: u64)
        ensures
            r == self.spec_uid(),
    {
        self.uid
    }

    pub fn get_name(&self) -> (r: &str)
        ensures
            r@ == self.spec_name(),
    {
        self.name.as_str()
    }

    pub fn get_level(&self) -> (r: i32)
        ensures
            r == self.spec_level(),
    {
        self.level
    }

    pub fn get_expr(&self) -> (r: i32)
        ensures
            r == self.spec_expr(),
    {
        self.expr
    }

    pub fn get_money(&self) -> (r: i32)
        ensures
            r == self.spec_money(),
    {
        self.money
    }

    pub fn update_sender(&mut self, new_sender: ProtoSender)
        requires
            old(self).wf(),
        ensures
            final(self).wf(),
            final(self).has_sender(),
            final(self).spec_uid() == old(self).spec_uid(),
            final(self).spec_vfd() == old(self).spec_vfd(),
            final(self).spec_acc() == old(self).spec_acc(),
    {
        self.sender = Some(new_sender);
    }

    pub fn get_sender(&self) -> (r: &Option<ProtoSender>)
        ensures
            r is Some <==> self.has_sender(),
    {
        &self.sender
    }

    pub fn set_magic(&mut self, magic: i32)
        requires
            old(self).wf(),
        ensures
            final(self).wf(),
            final(self).spec_magic() == magic,
            final(self).spec_uid() == old(self).spec_uid(),
            final(self).spec_vfd() == old(self).spec_vfd(),
            final(self).spec_acc() == old(self).spec_acc(),
            final(self).has_sender() == old(self).has_sender(),
    {
        self.magic = magic;
    }

    pub fn get_item_mgr(&mut self) -> (r: &mut ItemMgr)
        requires
            old(self).wf(),
        ensures
            *r == old(self).item_mgr,
            final(self).item_mgr == *final(r),
            final(self).spec_uid() == old(self).spec_uid(),
            final(self).spec_vfd() == old(self).spec_vfd(),
            final(self).spec_acc() == old(self).spec_acc(),
            final(self).has_sender() == old(self).has_sender(),
            final(self).wf() == final(r).wf(),
            final(self).spec_name() == old(self).spec_name(),
            final(self).spec_level() == old(self).spec_level(),
            final(self).spec_expr() == old(self).spec_expr(),
            final(self).spec_money() == old(self).spec_money(),
    {
        &mut self.item_mgr
    }

    /// The wire listing of one of this player's bags.
    pub fn bag_listing(&self, bag_type: crate::engine::bag::BagType) -> (r: Vec<
        crate::messages::item_info,
    >)
        requires
            self.wf(),
    {
        self.item_mgr.pack_bag_info(bag_type)
    }

    /// Sends this player's rendered record to the database role, under the
    /// next save counter; without a filing card nothing is sent.
    pub fn save(&mut self, rpc: &mut RpcSharedEntity, datastr: Vec<u8>) -> (r: Option<RpcSendStep>)
        requires
            old(self).wf(),
            old(self).counter < u64::MAX,
        ensures
            final(self).wf(),
            final(self).counter == old(self).counter + 1,
            final(self).spec_uid() == old(self).spec_uid(),
            r is Some <==> old(self).inner is Some,
            r matches Some(step) ==> (step is LocalHost <==> old(rpc).spec_conf().db_host_id
                == old(rpc).spec_conf().host_id),
    {
        self.counter = self.counter + 1;
        match &self.inner {
            None => None,
            Some(obj) => Some(obj.save(rpc, self.counter, datastr)),
        }
    }

    /// Pushes one message toward this player's client, never blocking: with
    /// no channel, or a full one, the message is dropped.
    pub fn send(&self, proto_id: u32, pto: ProtoType)
    {
        match &self.sender {
            None => {},
            Some(s) => {
                let _ = try_send(s, self.vfd, proto_id, pto);
            },
        }
    }
}

} // verus!
