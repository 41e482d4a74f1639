//! Unique id generation: each host hands out ids in its own residue class,
//! `counter * 10000 + host_id`, so no two hosts ever mint the same id.

use vstd::prelude::*;
use crate::engine::db::DBObj;
use crate::engine::rpc_state::RpcSharedEntity;
use crate::rpc_sender::RpcSendStep;

verus! {

/// Host ids run from 1 below this base; ids are minted above it.
pub const UUID_BASE: u64 = 10000;

/// The persistent id counters of one host.
#[derive(Debug)]
pub struct UUID {
    pub counter: u64,
    pub host_id: u64,
    pub for_player: u64,
    pub for_item: u64,
    pub inner: Option<DBObj>,
}

impl UUID {
    pub open spec fn wf(&self) -> bool {
        self.host_id < UUID_BASE
    }

    pub fn new(host_id: u64, base_player_uid: u64, base_item_uid: u64) -> (r: UUID)
        requires
            host_id < UUID_BASE,
        ensures
            r.wf(),
            r.host_id == host_id,
            r.for_player == base_player_uid,
            r.for_item == base_item_uid,
            r.counter == 0,
            r.inner is None,
    {
        UUID { counter: 0, host_id, for_player: base_player_uid, for_item: base_item_uid, inner: None }
    }

    /// Ties the counters to the database record they are persisted under.
    pub fn build_with_db(self, dbobj: DBObj) -> (r: UUID)
        ensures
            r.counter == self.counter,
            r.host_id == self.host_id,
            r.for_player == self.for_player,
            r.for_item == self.for_item,
            r.inner matches Some(o) && o == dbobj,
    {
        UUID { inner: Some(dbobj), ..self }
    }

    /// The next player id: strictly increasing, and carrying this host's id
    /// as its residue.
    pub fn inc_player_uid(&mut self) -> (r: u64)
        requires
            old(self).wf(),
            old(self).for_player < 0x4000000000000,
        ensures
            final(self).wf(),
            final(self).for_player == old(self).for_player + 1,
            final(self).for_item == old(self).for_item,
            final(self).host_id == old(self).host_id,
            r == (old(self).for_player + 1) * UUID_BASE + old(self).host_id,
            r % UUID_BASE == old(self).host_id,
    {
        self.for_player = self.for_player + 1;
        proof {
            assert(self.for_player * 10000 + self.host_id <= 0xffffffffffffffff)
                by (nonlinear_arith)
                requires
                    self.for_player <= 0x4000000000000,
                    self.host_id < 10000,
            ;
        }
        let puid = self.for_player * UUID_BASE + self.host_id;
        proof {
            lemma_residue(self.for_player, self.host_id);
        }
        puid
    }

    /// The next item id, in the same residue class.
    pub fn inc_item_uid(&mut self) -> (r: u64)
        requires
            old(self).wf(),
            old(self).for_item < 0x4000000000000,
        ensures
            final(self).wf(),
            final(self).for_item == old(self).for_item + 1,
            final(self).for_player == old(self).for_player,
            final(self).host_id == old(self).host_id,
            r == (old(self).for_item + 1) * UUID_BASE + old(self).host_id,
            r % UUID_BASE == old(self).host_id,
    {
        self.for_item = self.for_item + 1;
        proof {
            assert(self.for_item * 10000 + self.host_id <= 0xffffffffffffffff)
                by (nonlinear_arith)
                requires
                    self.for_item <= 0x4000000000000,
                    self.host_id < 10000,
            ;
        }
        let iuid = self.for_item * UUID_BASE + self.host_id;
        proof {
            lemma_residue(self.for_item, self.host_id);
        }
        iuid
    }

    /// Sends the rendered counters to the database role, under the next
    /// save counter; without a filing card nothing is sent.
    pub fn save(&mut self, rpc: &mut RpcSharedEntity, datastr: Vec<u8>) -> (r: Option<RpcSendStep>)
        requires
            old(self).wf(),
            old(self).counter < u64::MAX,
        ensures
            final(self).wf(),
            final(self).counter == old(self).counter + 1,
            final(self).host_id == old(self).host_id,
            final(self).for_player == old(self).for_player,
            final(self).for_item == old(self).for_item,
            r is Some <==> old(self).inner is Some,
            r matches Some(step) ==> (step is LocalHost <==> old(rpc).spec_conf().db_host_id
                == old(rpc).spec_conf().host_id),
    {
        self.counter = self.counter + 1;
        match &self.inner {
            None => None,
            Some(obj) => Some(obj.save(rpc, self.counter, datastr)),
        }
    }
}

/// Ids minted as `k * base + host` keep the host as their residue.
proof fn lemma_residue(k: u64, host: u64)
    requires
        host < UUID_BASE,
        k * UUID_BASE + host <= u64::MAX,
    ensures
        ((k * UUID_BASE + host) as u64) % UUID_BASE == host,
{
    assert((k * 10000 + host) % 10000 == host) by (nonlinear_arith)
        requires
            host < 10000,
            0 <= k,
    ;
}

} // verus!
