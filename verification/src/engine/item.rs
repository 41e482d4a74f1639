//! One owned item: a unique instance id, its kind, and a stack count.

use vstd::prelude::*;

verus! {

#[derive(Debug, Clone, Default)]
pub struct Item {
    pub uid: u64,
    pub id: u32,
    pub stack: i32,
}

impl Item {
    pub fn new(uid: u64, id: u32, stack: i32) -> (r: Item)
        ensures
            r.uid == uid,
            r.id == id,
            r.stack == stack,
    {
        Item { uid, id, stack }
    }

    pub open spec fn spec_uid(&self) -> u64 {
        self.uid
    }

    pub open spec fn spec_id(&self) -> u32 {
        self.id
    }

    pub open spec fn spec_stack(&self) -> i32 {
        self.stack
    }

    pub fn uid(&self) -> (r: u64)
        ensures
            r == self.spec_uid(),
    {
        self.uid
    }

    pub fn id(&self) -> (r: u32)
        ensures
            r == self.spec_id(),
    {
        self.id
    }

    pub fn stack(&self) -> (r: i32)
        ensures
            r == self.spec_stack(),
    {
        self.stack
    }

    /// Grows the stack and tells its new count.
    pub fn add_stack(&mut self, addnum: i32) -> (r: i32)
        requires
            i32::MIN <= old(self).spec_stack() + addnum <= i32::MAX,
        ensures
            final(self).spec_stack() == old(self).spec_stack() + addnum,
            final(self).spec_uid() == old(self).spec_uid(),
            final(self).spec_id() == old(self).spec_id(),
            r == final(self).spec_stack(),
    {
        self.stack = self.stack + addnum;
        self.stack
    }

    /// One line describing the item, for the log.
    pub fn log_info(&self) -> String {
        log_item_line(self.uid, self.id, self.stack)
    }
}

/// Relies on the format macro of std: renders the item's fields as text.
#[verifier::external_body]
fn log_item_line(uid: u64, id: u32, stack: i32) -> String {
    format!("item_uid={},item_id={},stack={}", uid, id, stack)
}

} // verus!
