//! The routing fabric of the dispatch loop: a table from connection identity
//! to that connection's outbound channel, and the forwarding policy — never
//! block, drop on a full channel, drop the route itself on a closed one.

use vstd::prelude::*;
use std::collections::HashMap;
use crate::channel::{ProtoMsgType, ProtoSender, SendOutcome, channel_try_send};
use crate::messages::ProtoType;

verus! {

/// Whether a decoded message arrived from a socket or from another service.
#[derive(Debug)]
pub enum RecvType {
    FromSocket,
    FromService,
}

/// Which backbone a listener serves: player sockets or peer RPC.
#[derive(Debug, Clone, Copy, PartialEq, Eq, Structural)]
pub enum ServiceType {
    Tcp,
    Rpc,
}

/// A routing table: whoever owns one can register a connection's channel
/// under its identity, drop it, and look it up.
pub trait Communicate<T> {
    /// The table as a map from identity to channel.
    spec fn routes(&self) -> Map<u64, tokio::sync::mpsc::Sender<T>>;

    fn register(&mut self, identity: u64, sender: tokio::sync::mpsc::Sender<T>)
        ensures
            final(self).routes() == old(self).routes().insert(identity, sender),
    ;

    fn unregister(&mut self, identity: u64)
        ensures
            final(self).routes() == old(self).routes().remove(identity),
    ;

    fn get(&mut self, identity: u64) -> (r: Option<&tokio::sync::mpsc::Sender<T>>)
        ensures
            final(self).routes() == old(self).routes(),
            r is Some <==> old(self).routes().contains_key(identity),
            r matches Some(s) ==> *s == old(self).routes()[identity],
    ;
}

/// The routing table of the player-facing service.
#[derive(Debug, Default)]
pub struct TcpSharedEntity {
    pub conn_map: HashMap<u64, ProtoSender>,
}

impl Communicate<ProtoMsgType> for TcpSharedEntity {
    open spec fn routes(&self) -> Map<u64, ProtoSender> {
        self.conn_map@
    }

    fn register(&mut self, identity: u64, sender: ProtoSender) {
        self.conn_map.insert(identity, sender);
    }

    fn unregister(&mut self, identity: u64) {
        self.conn_map.remove(&identity);
    }

    fn get(&mut self, identity: u64) -> (r: Option<&ProtoSender>) {
        self.conn_map.get(&identity)
    }
}

/// What forwarding one inbound message came to.
#[derive(Debug, PartialEq, Eq, Structural)]
pub enum ForwardOutcome {
    /// The destination's channel took the message.
    Forwarded,
    /// The destination's channel was full: the message is dropped, the route
    /// stays.
    DroppedFull,
    /// The destination's channel is closed: the stale route is removed.
    RemovedClosed,
    /// No route: the destination has gone away and the message is stale.
    NoRoute,
}

/// Forwards one decoded message to the connection it names, without ever
/// blocking: on a full channel the message is dropped, and a closed channel
/// removes its routing entry, so the next lookup of that identity finds
/// nothing.
pub fn forward_to_connection<C: Communicate<ProtoMsgType>>(
    entity: &mut C,
    vfd: u64,
    proto_id: u32,
    pto: ProtoType,
) -> (r: ForwardOutcome)
    ensures
        r == ForwardOutcome::NoRoute <==> !old(entity).routes().contains_key(vfd),
        r != ForwardOutcome::RemovedClosed ==> final(entity).routes() == old(entity).routes(),
        r == ForwardOutcome::RemovedClosed ==> final(entity).routes() == old(
            entity,
        ).routes().remove(vfd),
        r == ForwardOutcome::RemovedClosed ==> !final(entity).routes().contains_key(vfd),
{
    let closed = match entity.get(vfd) {
        Some(ch) => {
            match channel_try_send(ch, (vfd, proto_id, pto)) {
                SendOutcome::Sent => {
                    return ForwardOutcome::Forwarded;
                },
                SendOutcome::Full(_) => {
                    return ForwardOutcome::DroppedFull;
                },
                SendOutcome::Closed(_) => true,
            }
        },
        None => {
            return ForwardOutcome::NoRoute;
        },
    };
    if closed {
        entity.unregister(vfd);
    }
    ForwardOutcome::RemovedClosed
}

/// Takes one new-connection registration into the routing table.
pub fn accept_registration<C: Communicate<ProtoMsgType>>(
    entity: &mut C,
    vfd: u64,
    sender: ProtoSender,
)
    ensures
        final(entity).routes() == old(entity).routes().insert(vfd, sender),
        final(entity).routes().contains_key(vfd),
{
    entity.register(vfd, sender);
}

/// Routing-table consistency: a route that was registered and later removed
/// — as forwarding does when it finds the channel closed — is gone: looking
/// its identity up finds nothing, whatever else the table holds.
pub proof fn law_routing_consistency(
    routes: Map<u64, ProtoSender>,
    vfd: u64,
    sender: ProtoSender,
)
    ensures
        !routes.insert(vfd, sender).remove(vfd).contains_key(vfd),
{
}

} // verus!
