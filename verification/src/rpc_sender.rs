//! Outbound inter-host RPC: one persistent connection per peer host id,
//! made lazily on first use. The decisions live here; making the actual TCP
//! connection is the runtime's work, asked for through `RpcSendStep`.

use vstd::prelude::*;
use std::collections::HashMap;
use crate::channel::{channel_try_send, ProtoMsgType, ProtoSender, SendOutcome};
use crate::conf::Conf;
use crate::messages::ProtoType;
use crate::service::Communicate;

verus! {

/// What one attempt to reach a peer host came to.
#[derive(Debug)]
pub enum RpcSendStep {
    /// The target is this host itself: nothing to send.
    LocalHost,
    /// The existing channel took the message.
    Delivered,
    /// The existing channel is full: an error condition to surface, not a
    /// silent drop — RPC traffic carries durability-critical calls.
    ChannelFull,
    /// No usable channel: the runtime must connect to the address carried
    /// here, register the new channel under the host id, and send the
    /// carried message again.
    NeedConnect(u64, String, u32, ProtoType),
}

/// The per-peer connection table of the RPC sender.
#[derive(Debug)]
pub struct RpcSender {
    pub conf: Conf,
    pub chan_map: HashMap<u64, ProtoSender>,
}

impl Communicate<ProtoMsgType> for RpcSender {
    open spec fn routes(&self) -> Map<u64, ProtoSender> {
        self.chan_map@
    }

    fn register(&mut self, identity: u64, sender: ProtoSender) {
        self.chan_map.insert(identity, sender);
    }

    fn unregister(&mut self, identity: u64) {
        self.chan_map.remove(&identity);
    }

    fn get(&mut self, identity: u64) -> (r: Option<&ProtoSender>) {
        self.chan_map.get(&identity)
    }
}

impl RpcSender {
    pub open spec fn spec_conf(&self) -> Conf {
        self.conf
    }

    pub fn new(conf: Conf) -> (r: RpcSender)
        ensures
            r.spec_conf() == conf,
            r.routes() == Map::<u64, ProtoSender>::empty(),
    {
        RpcSender { conf, chan_map: HashMap::new() }
    }

    /// The address a fresh connection to `host_id` must go to: the database
    /// role has its configured address; every other peer the default.
    fn peer_addr(&self, host_id: u64) -> (r: String)
        ensures
            host_id == self.spec_conf().db_host_id ==> r@ == self.spec_conf().rpc_db_serv_addr@,
            host_id != self.spec_conf().db_host_id ==> r@ == "127.0.0.1:8083"@,
    {
        if host_id == self.conf.get_db_host_id() {
            self.conf.get_rpc_db_serv_addr().to_owned()
        } else {
            "127.0.0.1:8083".to_owned()
        }
    }

    /// The policy over one send outcome on a peer's live channel: delivery
    /// needs nothing more; a full channel is surfaced as an error condition,
    /// with no reconnect; a closed one asks for a fresh connection carrying
    /// the very message that came back.
    pub fn rpc_step_of_outcome(&self, host_id: u64, proto_id: u32, o: SendOutcome) -> (r:
        RpcSendStep)
        ensures
            r is Delivered <==> o is Sent,
            r is ChannelFull <==> o is Full,
            r is NeedConnect <==> o is Closed,
            o matches SendOutcome::Closed(m) ==> (r matches RpcSendStep::NeedConnect(
                h,
                addr,
                pid,
                p,
            ) && h == host_id && pid == proto_id && p == m.2 && (host_id
                == self.spec_conf().db_host_id ==> addr@ == self.spec_conf().rpc_db_serv_addr@) && (
            host_id != self.spec_conf().db_host_id ==> addr@ == "127.0.0.1:8083"@)),
    {
        match o {
            SendOutcome::Sent => RpcSendStep::Delivered,
            SendOutcome::Full(_) => RpcSendStep::ChannelFull,
            SendOutcome::Closed(m) => {
                let addr = self.peer_addr(host_id);
                RpcSendStep::NeedConnect(host_id, addr, proto_id, m.2)
            },
        }
    }

    /// Delivers one message toward `host_id`: nothing to a host's own id,
    /// over the existing channel when one works, else a connect request
    /// carrying the message itself.
    pub fn send2host(&mut self, host_id: u64, proto_id: u32, pto: ProtoType) -> (r: RpcSendStep)
        ensures
            final(self).spec_conf() == old(self).spec_conf(),
            final(self).routes() == old(self).routes(),
            r is LocalHost <==> host_id == old(self).spec_conf().host_id,
            !old(self).routes().contains_key(host_id) && host_id != old(self).spec_conf().host_id
                ==> r is NeedConnect,
            old(self).routes().contains_key(host_id) && host_id != old(self).spec_conf().host_id
                ==> (r is Delivered || r is ChannelFull || r is NeedConnect),
            r matches RpcSendStep::NeedConnect(h, addr, pid, p) ==> {
                &&& h == host_id
                &&& pid == proto_id
                &&& p == pto
                &&& (host_id == old(self).spec_conf().db_host_id ==> addr@ == old(
                    self,
                ).spec_conf().rpc_db_serv_addr@)
                &&& (host_id != old(self).spec_conf().db_host_id ==> addr@ == "127.0.0.1:8083"@)
            },
    {
        let cur_host_id = self.conf.get_host_id();
        if host_id == cur_host_id {
            return RpcSendStep::LocalHost;
        }
        let outcome = match self.chan_map.get(&host_id) {
            Some(tx) => channel_try_send(tx, (host_id, proto_id, pto)),
            None => {
                let addr = self.peer_addr(host_id);
                return RpcSendStep::NeedConnect(host_id, addr, proto_id, pto);
            },
        };
        self.rpc_step_of_outcome(host_id, proto_id, outcome)
    }

    /// Delivers one message toward the database-role host.
    pub fn send2db(&mut self, proto_id: u32, pto: ProtoType) -> (r: RpcSendStep)
        ensures
            final(self).spec_conf() == old(self).spec_conf(),
            final(self).routes() == old(self).routes(),
            r is LocalHost <==> old(self).spec_conf().db_host_id == old(self).spec_conf().host_id,
    {
        let db = self.conf.get_db_host_id();
        self.send2host(db, proto_id, pto)
    }
}

} // verus!
