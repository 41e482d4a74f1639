//! Guards against overlapping long-running operations per connection: one
//! operation at a time, and a stale one is forgotten after a minute.

use vstd::prelude::*;
use std::collections::HashMap;

verus! {

/// A stale operation times out after this many milliseconds.
pub const OP_TIMEOUT_MS: u64 = 60000;

#[derive(Debug, PartialEq, Eq, Structural)]
pub enum OperationStatus {
    Idle,
    Busy,
}

/// When each key's running operation started, in milliseconds of the
/// caller's clock.
#[derive(Debug)]
pub struct OperationEntity {
    pub op: HashMap<u64, u64>,
}

impl Default for OperationEntity {
    fn default() -> (r: Self)
        ensures
            r.spec_op() == Map::<u64, u64>::empty(),
    {
        OperationEntity { op: HashMap::new() }
    }
}

impl OperationEntity {
    pub open spec fn spec_op(&self) -> Map<u64, u64> {
        self.op@
    }

    /// A key is busy exactly while an operation under it started less than
    /// the timeout ago.
    pub open spec fn spec_status(&self, ukey: u64, now: u64) -> OperationStatus {
        if self.spec_op().contains_key(ukey) && now - self.spec_op()[ukey] < OP_TIMEOUT_MS {
            OperationStatus::Busy
        } else {
            OperationStatus::Idle
        }
    }

    fn status(&self, ukey: u64, now: u64) -> (r: OperationStatus)
        ensures
            r == self.spec_status(ukey, now),
    {
        match self.op.get(&ukey) {
            None => OperationStatus::Idle,
            Some(last_time) => {
                if now >= *last_time && now - *last_time >= OP_TIMEOUT_MS {
                    OperationStatus::Idle
                } else {
                    if now < *last_time {
                        proof {
                            assert((now - self.spec_op()[ukey]) < 0);
                        }
                        OperationStatus::Busy
                    } else {
                        OperationStatus::Busy
                    }
                }
            },
        }
    }

    /// Claims the key for a new operation if none is running under it; a
    /// fresh claim records the caller's clock.
    pub fn can_start_op(&mut self, ukey: u64, now: u64) -> (r: bool)
        ensures
            r == (old(self).spec_status(ukey, now) == OperationStatus::Idle),
            r ==> final(self).spec_op() == old(self).spec_op().insert(ukey, now),
            !r ==> final(self).spec_op() == old(self).spec_op(),
    {
        match self.status(ukey, now) {
            OperationStatus::Busy => false,
            OperationStatus::Idle => {
                self.op.insert(ukey, now);
                true
            },
        }
    }

    /// Releases the key once its operation ended.
    pub fn finish_op(&mut self, ukey: u64)
        ensures
            final(self).spec_op() == old(self).spec_op().remove(ukey),
            !final(self).spec_op().contains_key(ukey),
    {
        self.op.remove(&ukey);
    }
}

} // verus!
