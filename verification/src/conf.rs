//! The static configuration every component starts from: host identity,
//! listen addresses and peer addresses. Loading it from disk is the caller's
//! business; the checks it must pass are here.

use vstd::prelude::*;
use crate::strutil::str_eq;

verus! {

/// The host id every database-role process must carry.
pub const DB_ROLE_HOST_ID: u64 = 99999999;

#[derive(Debug, Clone)]
pub struct Conf {
    pub host_id: u64,
    pub name: String,
    pub host_type: String,
    pub log_level: i32,
    pub max_log_file_size: i32,
    pub src_dir: String,
    pub out_dir: String,
    pub init_protos: Vec<String>,
    pub tcp_serv_addr: String,
    pub http_serv_addr: String,
    pub rpc_serv_addr: String,
    pub db_host_id: u64,
    pub rpc_db_serv_addr: String,
}

impl Conf {
    /// A database host carries the reserved id as its own, and serves RPC at
    /// the database address; no other host may carry the reserved id.
    pub open spec fn valid(&self) -> bool {
        if self.host_type@ == "db"@ {
            &&& self.db_host_id == DB_ROLE_HOST_ID
            &&& self.host_id == self.db_host_id
            &&& self.rpc_serv_addr@ == self.rpc_db_serv_addr@
        } else {
            self.host_id != DB_ROLE_HOST_ID
        }
    }

    /// The startup checks, as a structured answer instead of an abort.
    pub fn validate(&self) -> (r: bool)
        ensures
            r == self.valid(),
    {
        if str_eq(self.host_type.as_str(), "db") {
            self.db_host_id == DB_ROLE_HOST_ID && self.host_id == self.db_host_id && str_eq(
                self.rpc_serv_addr.as_str(),
                self.rpc_db_serv_addr.as_str(),
            )
        } else {
            self.host_id != DB_ROLE_HOST_ID
        }
    }

    pub fn get_host_id(&self) -> (r: u64)
        ensures
            r == self.host_id,
    {
        self.host_id
    }

    pub fn get_name(&self) -> (r: &str)
        ensures
            r@ == self.name@,
    {
        self.name.as_str()
    }

    pub fn get_host_type(&self) -> (r: &str)
        ensures
            r@ == self.host_type@,
    {
        self.host_type.as_str()
    }

    pub fn get_log_level(&self) -> (r: i32)
        ensures
            r == self.log_level,
    {
        self.log_level
    }

    pub fn get_log_file_size(&self) -> (r: i32)
        ensures
            r == self.max_log_file_size,
    {
        self.max_log_file_size
    }

    pub fn get_src_dir(&self) -> (r: String)
        ensures
            r@ == self.src_dir@,
    {
        self.src_dir.clone()
    }

    pub fn get_out_dir(&self) -> (r: String)
        ensures
            r@ == self.out_dir@,
    {
        self.out_dir.clone()
    }

    pub fn get_init_protos(&self) -> (r: &Vec<String>)
        ensures
            r == &self.init_protos,
    {
        &self.init_protos
    }

    pub fn get_tcp_serv_addr(&self) -> (r: &str)
        ensures
            r@ == self.tcp_serv_addr@,
    {
        self.tcp_serv_addr.as_str()
    }

    pub fn get_http_serv_addr(&self) -> (r: &str)
        ensures
            r@ == self.http_serv_addr@,
    {
        self.http_serv_addr.as_str()
    }

    pub fn get_rpc_serv_addr(&self) -> (r: &str)
        ensures
            r@ == self.rpc_serv_addr@,
    {
        self.rpc_serv_addr.as_str()
    }

    pub fn get_db_host_id(&self) -> (r: u64)
        ensures
            r == self.db_host_id,
    {
        self.db_host_id
    }

    pub fn get_rpc_db_serv_addr(&self) -> (r: &str)
        ensures
            r@ == self.rpc_db_serv_addr@,
    {
        self.rpc_db_serv_addr.as_str()
    }
}

} // verus!
