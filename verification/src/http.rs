//! The admin-endpoint request and answer shapes, and what the dispatch loop
//! decides for each. The HTTP plumbing itself lives outside the library.

use vstd::prelude::*;

verus! {

/// One admin request or answer.
#[derive(Debug)]
pub enum HttpProtoType {
    ReqServerAll,
    ReqServerInfo(u32),
    RespServerInfo(String),
    ReqGM(String),
    RespGM(String),
    Unimplemented(String),
}

/// What the dispatch loop decides for one admin request.
#[derive(Debug)]
pub enum HttpStep {
    /// Answer with this host's info line.
    ServerInfo(u32),
    /// Run the named admin command; its JSON body still needs decoding.
    RunGm(String),
    /// Nothing handles this request.
    Unhandled,
}

/// Routes one admin request: info requests are answered, admin commands are
/// handed on to the command shim, the rest is refused.
pub fn dispatch_http_msg(hpt: HttpProtoType) -> (r: HttpStep)
    ensures
        hpt matches HttpProtoType::ReqServerInfo(hostid) ==> (r matches HttpStep::ServerInfo(h)
            && h == hostid),
        hpt matches HttpProtoType::ReqGM(cmd) ==> (r matches HttpStep::RunGm(c) && c@ == cmd@),
        hpt is ReqServerAll || hpt is RespServerInfo || hpt is RespGM || hpt is Unimplemented
            ==> r is Unhandled,
{
    match hpt {
        HttpProtoType::ReqServerInfo(hostid) => HttpStep::ServerInfo(hostid),
        HttpProtoType::ReqGM(cmdstr) => HttpStep::RunGm(cmdstr),
        _ => HttpStep::Unhandled,
    }
}

} // verus!
