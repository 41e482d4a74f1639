//! A bag: a capacity-bounded set of items keyed by their instance uid.

use vstd::prelude::*;
use crate::engine::errors::{Error, Result};
use crate::engine::item::Item;

verus! {

#[derive(Debug, Clone, Copy, PartialEq, Eq, Structural)]
pub enum BagType {
    Equiped,
    Items,
    Temp,
}

impl BagType {
    pub fn into_u8(&self) -> (r: u8)
        ensures
            *self == BagType::Equiped ==> r == 1,
            *self == BagType::Items ==> r == 2,
            *self == BagType::Temp ==> r == 3,
    {
        match self {
            BagType::Equiped => 1,
            BagType::Items => 2,
            BagType::Temp => 3,
        }
    }

    /// Anything unknown falls back to the temporary bag.
    pub fn from_u8(bag_type: u8) -> (r: BagType)
        ensures
            bag_type == 1 ==> r == BagType::Equiped,
            bag_type == 2 ==> r == BagType::Items,
            !(1 <= bag_type <= 2) ==> r == BagType::Temp,
    {
        match bag_type {
            1 => BagType::Equiped,
            2 => BagType::Items,
            _ => BagType::Temp,
        }
    }
}

/// A bag holds each item uid at most once, and no more items than its
/// capacity.
#[derive(Debug, Default)]
pub struct Bag {
    pub id: u8,
    pub capacity: usize,
    pub inner: Vec<Item>,
}

impl Bag {
    pub open spec fn wf(&self) -> bool {
        &&& self.inner@.len() <= self.capacity
        &&& forall|i: int, j: int|
            0 <= i < j < self.inner@.len() ==> self.inner@[i].spec_uid()
                != self.inner@[j].spec_uid()
    }

    pub open spec fn spec_items(&self) -> Seq<Item> {
        self.inner@
    }

    pub open spec fn spec_capacity(&self) -> usize {
        self.capacity
    }

    /// The index at which `uid` sits, if it does.
    pub open spec fn spec_find(&self, uid: u64) -> Option<int> {
        if exists|i: int| 0 <= i < self.inner@.len() && self.inner@[i].spec_uid() == uid {
            Some(choose|i: int| 0 <= i < self.inner@.len() && self.inner@[i].spec_uid() == uid)
        } else {
            None
        }
    }

    /// With unique uids, the found index is the only one.
    pub proof fn lemma_find_at(&self, item_uid: u64, i: int)
        requires
            self.wf(),
            0 <= i < self.spec_items().len(),
            self.spec_items()[i].spec_uid() == item_uid,
        ensures
            self.spec_find(item_uid) == Some(i),
    {
        assert(exists|j: int|
            0 <= j < self.inner@.len() && self.inner@[j].spec_uid() == item_uid);
        let j = choose|j: int| 0 <= j < self.inner@.len() && self.inner@[j].spec_uid() == item_uid;
        if j != i {
            assert(false);
        }
    }

    pub fn new(id: BagType, capacity: usize) -> (r: Bag)
        ensures
            r.wf(),
            r.spec_items().len() == 0,
            r.spec_capacity() == capacity,
    {
        let idnum = id.into_u8();
        Bag { id: idnum, capacity, inner: Vec::new() }
    }

    /// Takes an item in — but only past capacity, as the stored check has it:
    /// with fewer items than the capacity the add is refused, so from an
    /// empty bag no add ever succeeds.
    pub fn add_item(&mut self, item: Item) -> (r: Result<()>)
        requires
            old(self).wf(),
        ensures
            final(self).wf(),
            final(self).spec_capacity() == old(self).spec_capacity(),
            r is Err <==> old(self).spec_items().len() <= old(self).spec_capacity(),
            r is Err ==> (*final(self) == *old(self) && r matches Err(Error::Message(_))),
            r is Ok ==> final(self).spec_items() == old(self).spec_items().push(item),
    {
        if self.inner.len() <= self.capacity {
            return Err(Error::Message(item.log_info()));
        }
        self.inner.push(item);
        Ok(())
    }

    /// Drops the item with this uid, if the bag holds it: exactly that entry
    /// leaves, everything else stays in place.
    pub fn del_item(&mut self, item_uid: u64)
        requires
            old(self).wf(),
        ensures
            final(self).wf(),
            final(self).spec_capacity() == old(self).spec_capacity(),
            final(self).id == old(self).id,
            old(self).spec_find(item_uid) is None ==> final(self).spec_items()
                == old(self).spec_items(),
            old(self).spec_find(item_uid) matches Some(i) ==> final(self).spec_items()
                == old(self).spec_items().remove(i),
            forall|j: int|
                0 <= j < final(self).spec_items().len() ==> final(self).spec_items()[j].spec_uid()
                    != item_uid,
    {
        let n = self.inner.len();
        let mut i: usize = 0;
        while i < n
            invariant
                i <= n,
                n == self.inner@.len(),
                self.wf(),
                self.capacity == old(self).capacity,
                self.id == old(self).id,
                self.inner@ == old(self).inner@,
                forall|j: int| 0 <= j < i ==> self.inner@[j].spec_uid() != item_uid,
            decreases n - i,
        {
            if self.inner[i].uid() == item_uid {
                proof {
                    old(self).lemma_find_at(item_uid, i as int);
                }
                self.inner.remove(i);
                proof {
                    assert(forall|j: int|
                        0 <= j < self.inner@.len() ==> self.inner@[j].spec_uid() != item_uid);
                }
                return ;
            }
            i = i + 1;
        }
        proof {
            if old(self).spec_find(item_uid) is Some {
                let j = choose|j: int|
                    0 <= j < old(self).inner@.len() && old(self).inner@[j].spec_uid() == item_uid;
                assert(false);
            }
        }
    }

    /// How many more items the bag could hold.
    pub fn empty_space(&self) -> (r: usize)
        requires
            self.spec_items().len() <= self.spec_capacity(),
        ensures
            r == self.spec_capacity() - self.spec_items().len(),
    {
        self.capacity - self.inner.len()
    }

    /// The item with this uid, if the bag holds it.
    pub fn get_item(&mut self, item_uid: u64) -> (r: Option<&Item>)
        requires
            old(self).wf(),
        ensures
            *final(self) == *old(self),
            r is Some <==> old(self).spec_find(item_uid) is Some,
            r matches Some(it) ==> it.spec_uid() == item_uid,
    {
        let n = self.inner.len();
        let mut i: usize = 0;
        while i < n
            invariant
                i <= n,
                n == self.inner@.len(),
                forall|j: int| 0 <= j < i ==> self.inner@[j].spec_uid() != item_uid,
            decreases n - i,
        {
            if self.inner[i].uid() == item_uid {
                return Some(&self.inner[i]);
            }
            i = i + 1;
        }
        None
    }

    /// Adds to the stack of the item with this uid, if the bag holds it;
    /// tells whether it did. On an addition within the stack's range, that
    /// item's stack grows by exactly `addnum` and nothing else moves; an
    /// addition that would overflow leaves the bag untouched.
    pub fn add_item_stack(&mut self, item_uid: u64, addnum: i32) -> (r: bool)
        requires
            old(self).wf(),
        ensures
            final(self).wf(),
            final(self).spec_capacity() == old(self).spec_capacity(),
            final(self).id == old(self).id,
            r <==> old(self).spec_find(item_uid) is Some,
            old(self).spec_find(item_uid) is None ==> final(self).spec_items()
                == old(self).spec_items(),
            old(self).spec_find(item_uid) matches Some(i) ==> {
                let it = old(self).spec_items()[i];
                &&& (i32::MIN <= it.spec_stack() + addnum <= i32::MAX
                    ==> final(self).spec_items() == old(self).spec_items().update(
                    i,
                    Item { uid: it.uid, id: it.id, stack: (it.spec_stack() + addnum) as i32 },
                ))
                &&& (!(i32::MIN <= it.spec_stack() + addnum <= i32::MAX)
                    ==> final(self).spec_items() == old(self).spec_items())
            },
    {
        let n = self.inner.len();
        let mut i: usize = 0;
        while i < n
            invariant
                i <= n,
                n == self.inner@.len(),
                self.wf(),
                self.capacity == old(self).capacity,
                self.id == old(self).id,
                self.inner@ == old(self).inner@,
                forall|j: int| 0 <= j < i ==> self.inner@[j].spec_uid() != item_uid,
            decreases n - i,
        {
            if self.inner[i].uid() == item_uid {
                proof {
                    old(self).lemma_find_at(item_uid, i as int);
                }
                let st = self.inner[i].stack();
                if addnum >= 0 && st <= i32::MAX - addnum || addnum < 0 && st >= i32::MIN - addnum {
                    let mut it = self.inner.remove(i);
                    let _ = it.add_stack(addnum);
                    self.inner.insert(i, it);
                    proof {
                        let it0 = old(self).spec_items()[i as int];
                        assert(self.inner@ =~= old(self).spec_items().update(
                            i as int,
                            Item {
                                uid: it0.uid,
                                id: it0.id,
                                stack: (it0.spec_stack() + addnum) as i32,
                            },
                        ));
                        assert(forall|a: int, b: int|
                            0 <= a < b < self.inner@.len() ==> self.inner@[a].spec_uid()
                                != self.inner@[b].spec_uid()) by {
                            assert(forall|j: int|
                                0 <= j < self.inner@.len() ==> self.inner@[j].spec_uid() == old(
                                    self,
                                ).inner@[j].spec_uid());
                        }
                    }
                }
                return true;
            }
            i = i + 1;
        }
        proof {
            if old(self).spec_find(item_uid) is Some {
                let j = choose|j: int|
                    0 <= j < old(self).inner@.len() && old(self).inner@[j].spec_uid() == item_uid;
                assert(false);
            }
        }
        false
    }

    /// The wire listing of the bag's contents, one entry per item.
    pub fn pack(&self) -> (r: Vec<crate::messages::item_info>)
        requires
            self.wf(),
        ensures
            r@.len() == self.spec_items().len(),
            forall|j: int|
                0 <= j < r@.len() ==> r@[j].uid == self.spec_items()[j].spec_uid() && r@[j].id
                    == self.spec_items()[j].spec_id() && r@[j].stack
                    == self.spec_items()[j].spec_stack(),
    {
        let n = self.inner.len();
        let mut out: Vec<crate::messages::item_info> = Vec::new();
        let mut i: usize = 0;
        while i < n
            invariant
                i <= n,
                n == self.inner@.len(),
                out@.len() == i,
                forall|j: int|
                    0 <= j < i ==> out@[j].uid == self.inner@[j].spec_uid() && out@[j].id
                        == self.inner@[j].spec_id() && out@[j].stack
                        == self.inner@[j].spec_stack(),
            decreases n - i,
        {
            let it = &self.inner[i];
            out.push(crate::messages::item_info { uid: it.uid(), id: it.id(), stack: it.stack() });
            i = i + 1;
        }
        out
    }
}

} // verus!
