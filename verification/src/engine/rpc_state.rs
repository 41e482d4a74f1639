//! The RPC face of a service: the routing table of accepted peer
//! connections, and the lazy outbound sender behind it.

use vstd::prelude::*;
use std::collections::HashMap;
use crate::channel::{ProtoMsgType, ProtoSender};
use crate::conf::Conf;
use crate::messages::ProtoType;
use crate::rpc_sender::{RpcSendStep, RpcSender};
use crate::service::Communicate;

verus! {

#[derive(Debug)]
pub struct RpcSharedEntity {
    pub conn_map: HashMap<u64, ProtoSender>,
    inner: RpcSender,
}

impl Communicate<ProtoMsgType> for RpcSharedEntity {
    closed spec fn routes(&self) -> Map<u64, ProtoSender> {
        self.conn_map@
    }

    fn register(&mut self, identity: u64, sender: ProtoSender) {
        self.conn_map.insert(identity, sender);
    }

    fn unregister(&mut self, identity: u64) {
        self.conn_map.remove(&identity);
    }

    fn get(&mut self, identity: u64) -> (r: Option<&ProtoSender>) {
        self.conn_map.get(&identity)
    }
}

impl RpcSharedEntity {
    pub closed spec fn spec_conf(&self) -> Conf {
        self.inner.spec_conf()
    }

    /// The outbound table of the sender behind this entity.
    pub closed spec fn outbound_routes(&self) -> Map<u64, ProtoSender> {
        self.inner.routes()
    }

    pub fn new(conf: Conf) -> (r: RpcSharedEntity)
        ensures
            r.spec_conf() == conf,
    {
        RpcSharedEntity { conn_map: HashMap::new(), inner: RpcSender::new(conf) }
    }

    /// Hands the runtime a new outbound channel for a freshly connected
    /// peer.
    pub fn register_outbound(&mut self, host_id: u64, sender: ProtoSender)
        ensures
            final(self).spec_conf() == old(self).spec_conf(),
            final(self).outbound_routes() == old(self).outbound_routes().insert(host_id, sender),
    {
        self.inner.chan_map.insert(host_id, sender);
    }

    pub fn send2host(&mut self, hostid: u64, proto_id: u32, pto: ProtoType) -> (r: RpcSendStep)
        ensures
            final(self).spec_conf() == old(self).spec_conf(),
            r is LocalHost <==> hostid == old(self).spec_conf().host_id,
    {
        self.inner.send2host(hostid, proto_id, pto)
    }

    pub fn send2db(&mut self, proto_id: u32, pto: ProtoType) -> (r: RpcSendStep)
        ensures
            final(self).spec_conf() == old(self).spec_conf(),
            r is LocalHost <==> old(self).spec_conf().db_host_id == old(self).spec_conf().host_id,
    {
        self.inner.send2db(proto_id, pto)
    }
}

} // verus!
