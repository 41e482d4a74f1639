//! The state the game-service dispatch loop owns, alone on its task: the
//! routing tables, the player tables, and the id counters.

use vstd::prelude::*;
use std::collections::HashMap;
use crate::conf::Conf;
use crate::engine::player::Player;
use crate::engine::op_state::OperationEntity;
use crate::engine::rpc_state::RpcSharedEntity;
use crate::engine::uuid::UUID;
use crate::service::TcpSharedEntity;

verus! {

/// The HTTP admin face of a service; it carries no state of its own.
#[derive(Debug, Default)]
pub struct HttpSharedEntity {}

pub struct GameSharedEntity {
    pub sysconf: Conf,
    pub op_entity: OperationEntity,
    pub tcp_entity: TcpSharedEntity,
    pub rpc_entity: RpcSharedEntity,
    pub http_entity: HttpSharedEntity,
    pub player_by_uid: HashMap<u64, Player>,
    pub vfd2uidacc: HashMap<u64, (u64, String)>,
    pub uuid: Option<UUID>,
}

impl GameSharedEntity {
    pub open spec fn wf(&self) -> bool {
        &&& forall|u: u64|
            self.player_by_uid@.contains_key(u) ==> (#[trigger] self.player_by_uid@[u]).wf()
        &&& self.uuid matches Some(id) ==> id.wf()
    }

    pub fn new(
        sysconf: Conf,
        tcp_entity: TcpSharedEntity,
        rpc_entity: RpcSharedEntity,
        http_entity: HttpSharedEntity,
    ) -> (r: GameSharedEntity)
        ensures
            r.wf(),
            r.sysconf == sysconf,
            r.player_by_uid@ == Map::<u64, Player>::empty(),
            r.vfd2uidacc@ == Map::<u64, (u64, String)>::empty(),
            r.uuid is None,
    {
        GameSharedEntity {
            sysconf,
            tcp_entity,
            rpc_entity,
            http_entity,
            player_by_uid: HashMap::new(),
            vfd2uidacc: HashMap::new(),
            op_entity: OperationEntity::default(),
            uuid: None,
        }
    }

    pub fn get_system_conf(&self) -> (r: &Conf)
        ensures
            r == &self.sysconf,
    {
        &self.sysconf
    }

    pub fn get_host_id(&self) -> (r: u64)
        ensures
            r == self.sysconf.host_id,
    {
        self.sysconf.get_host_id()
    }

    /// Remembers which account sits on a connection; a zero uid marks a
    /// login still being loaded.
    pub fn add_uid_acc(&mut self, vfd: u64, uid: u64, acc: String)
        requires
            old(self).wf(),
        ensures
            final(self).wf(),
            final(self).vfd2uidacc@ == old(self).vfd2uidacc@.insert(vfd, (uid, acc)),
            final(self).player_by_uid@ == old(self).player_by_uid@,
            final(self).uuid == old(self).uuid,
    {
        self.vfd2uidacc.insert(vfd, (uid, acc));
    }

    pub fn get_vfd_info(&self, vfd: u64) -> (r: Option<&(u64, String)>)
        ensures
            r is Some <==> self.vfd2uidacc@.contains_key(vfd),
            r matches Some(t) ==> *t == self.vfd2uidacc@[vfd],
    {
        self.vfd2uidacc.get(&vfd)
    }

    pub fn is_vfd_validated(&self, vfd: u64) -> (r: bool)
        ensures
            r == self.vfd2uidacc@.contains_key(vfd),
    {
        match self.get_vfd_info(vfd) {
            Some(_) => true,
            None => false,
        }
    }

    /// Files a loaded player under their uid and points their connection at
    /// them.
    pub fn add_player(&mut self, player: Player)
        requires
            old(self).wf(),
            player.wf(),
        ensures
            final(self).wf(),
            final(self).player_by_uid@ == old(self).player_by_uid@.insert(
                player.spec_uid(),
                player,
            ),
            final(self).vfd2uidacc@.contains_key(player.spec_vfd()),
            final(self).uuid == old(self).uuid,
    {
        let uid = player.get_uid();
        let vfd = player.get_vfd();
        let acc = player.get_acc().to_owned();
        self.player_by_uid.insert(uid, player);
        self.vfd2uidacc.insert(vfd, (uid, acc));
    }

    pub fn get_player_by_uid(&self, uid: u64) -> (r: Option<&Player>)
        ensures
            r is Some <==> self.player_by_uid@.contains_key(uid),
            r matches Some(p) ==> *p == self.player_by_uid@[uid],
    {
        self.player_by_uid.get(&uid)
    }

    pub fn get_player_by_vfd(&self, vfd: u64) -> (r: Option<&Player>)
        ensures
            r is Some ==> self.vfd2uidacc@.contains_key(vfd) && self.player_by_uid@.contains_key(
                self.vfd2uidacc@[vfd].0,
            ),
            r matches Some(p) ==> *p == self.player_by_uid@[self.vfd2uidacc@[vfd].0],
    {
        match self.vfd2uidacc.get(&vfd) {
            Some(t) => self.player_by_uid.get(&t.0),
            None => None,
        }
    }

    /// Lifts a player out of the table for mutation; pairs with
    /// `put_player`. This is the explicit two-phase borrow the table asks
    /// for.
    pub fn take_player(&mut self, uid: u64) -> (r: Option<Player>)
        requires
            old(self).wf(),
        ensures
            final(self).wf(),
            r is Some <==> old(self).player_by_uid@.contains_key(uid),
            r matches Some(p) ==> p == old(self).player_by_uid@[uid] && p.wf(),
            final(self).player_by_uid@ == old(self).player_by_uid@.remove(uid),
            final(self).vfd2uidacc@ == old(self).vfd2uidacc@,
            final(self).uuid == old(self).uuid,
    {
        self.player_by_uid.remove(&uid)
    }

    /// Files a lifted player back.
    pub fn put_player(&mut self, player: Player)
        requires
            old(self).wf(),
            player.wf(),
        ensures
            final(self).wf(),
            final(self).player_by_uid@ == old(self).player_by_uid@.insert(
                player.spec_uid(),
                player,
            ),
            final(self).vfd2uidacc@ == old(self).vfd2uidacc@,
            final(self).uuid == old(self).uuid,
    {
        let uid = player.get_uid();
        self.player_by_uid.insert(uid, player);
    }

    pub fn remove_player_by_vfd(&mut self, vfd: u64)
        requires
            old(self).wf(),
        ensures
            final(self).wf(),
            final(self).vfd2uidacc@ == old(self).vfd2uidacc@.remove(vfd),
            final(self).player_by_uid@ == old(self).player_by_uid@,
    {
        self.vfd2uidacc.remove(&vfd);
    }

    pub fn remove_player_by_uid(&mut self, uid: u64)
        requires
            old(self).wf(),
        ensures
            final(self).wf(),
            final(self).player_by_uid@ == old(self).player_by_uid@.remove(uid),
            final(self).vfd2uidacc@ == old(self).vfd2uidacc@,
    {
        self.player_by_uid.remove(&uid);
    }

    /// Tears a connection's player state down whole.
    pub fn remove_player(&mut self, vfd: u64, uid: u64)
        requires
            old(self).wf(),
        ensures
            final(self).wf(),
            final(self).vfd2uidacc@ == old(self).vfd2uidacc@.remove(vfd),
            final(self).player_by_uid@ == old(self).player_by_uid@.remove(uid),
    {
        self.remove_player_by_vfd(vfd);
        self.remove_player_by_uid(uid);
    }

    /// Mints the next player uid; persisting the counters afterwards is the
    /// caller's business.
    pub fn new_player_uid(&mut self) -> (r: Option<u64>)
        requires
            old(self).wf(),
        ensures
            final(self).wf(),
            r is Some <==> (old(self).uuid matches Some(u) && u.for_player < 0x4000000000000),
            final(self).player_by_uid@ == old(self).player_by_uid@,
            final(self).vfd2uidacc@ == old(self).vfd2uidacc@,
    {
        match &mut self.uuid {
            None => None,
            Some(u) => {
                if u.for_player < 0x4000000000000 {
                    Some(u.inc_player_uid())
                } else {
                    None
                }
            },
        }
    }

    /// Mints the next item uid.
    pub fn new_item_uid(&mut self) -> (r: Option<u64>)
        requires
            old(self).wf(),
        ensures
            final(self).wf(),
            r is Some <==> (old(self).uuid matches Some(u) && u.for_item < 0x4000000000000),
            final(self).player_by_uid@ == old(self).player_by_uid@,
            final(self).vfd2uidacc@ == old(self).vfd2uidacc@,
    {
        match &mut self.uuid {
            None => None,
            Some(u) => {
                if u.for_item < 0x4000000000000 {
                    Some(u.inc_item_uid())
                } else {
                    None
                }
            },
        }
    }
}

} // verus!
