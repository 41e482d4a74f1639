//! The admin-command table: which command names exist. Reading the command's
//! JSON body is the admin shim's work; the named actions run here.

use vstd::prelude::*;
use crate::strutil::str_eq;

verus! {

/// The admin commands this build knows.
#[allow(non_camel_case_types)]
#[derive(Debug, PartialEq, Eq, Structural)]
pub enum GMFuncMarker {
    add_item,
    unknow,
}

impl GMFuncMarker {
    pub fn from_str(func_name: &str) -> (r: GMFuncMarker)
        ensures
            r == GMFuncMarker::add_item <==> func_name@ == "add_item"@,
    {
        if str_eq(func_name, "add_item") {
            GMFuncMarker::add_item
        } else {
            GMFuncMarker::unknow
        }
    }
}

} // verus!
