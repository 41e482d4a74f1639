//! The three bags every player owns, and how items get into them.

use vstd::prelude::*;
use crate::engine::bag::{Bag, BagType};
use crate::engine::errors::{Error, Result};
use crate::engine::item::Item;
use crate::messages::item_info;

verus! {

#[derive(Debug)]
pub struct ItemMgr {
    pub owner: u64,
    pub bag_equiped: Bag,
    pub bag_items: Bag,
    pub bag_temp: Bag,
}

impl ItemMgr {
    /// The bag an operation on `bag_type` works on.
    pub open spec fn spec_bag(&self, bag_type: BagType) -> Bag {
        match bag_type {
            BagType::Equiped => self.bag_equiped,
            BagType::Items => self.bag_items,
            BagType::Temp => self.bag_temp,
        }
    }

    /// The bag whose contents a listing request for `bag_type` answers
    /// with: the stored handler table answers the items bag with the
    /// equipped bag's listing.
    pub open spec fn spec_listed_bag(&self, bag_type: BagType) -> Bag {
        match bag_type {
            BagType::Equiped => self.bag_equiped,
            BagType::Items => self.bag_equiped,
            BagType::Temp => self.bag_temp,
        }
    }

    pub open spec fn wf(&self) -> bool {
        &&& self.bag_equiped.wf()
        &&& self.bag_items.wf()
        &&& self.bag_temp.wf()
    }

    pub fn new(owner: u64) -> (r: ItemMgr)
        ensures
            r.wf(),
            r.owner == owner,
            r.bag_equiped.spec_items().len() == 0,
            r.bag_items.spec_items().len() == 0,
            r.bag_temp.spec_items().len() == 0,
    {
        let bag_equiped = Bag::new(BagType::Equiped, 5);
        let bag_items = Bag::new(BagType::Items, 1000);
        let bag_temp = Bag::new(BagType::Temp, 500);
        ItemMgr { owner, bag_equiped, bag_items, bag_temp }
    }

    /// Puts a new item into the named bag, under the bag's own admission
    /// rule, mirroring that bag's answer; the other two bags are untouched,
    /// and on admission the item can be found again under its uid.
    pub fn add_item_to_bag(&mut self, bag_type: BagType, new_item: Item) -> (r: Result<()>)
        requires
            old(self).wf(),
        ensures
            final(self).wf(),
            final(self).owner == old(self).owner,
            bag_type != BagType::Equiped ==> final(self).bag_equiped == old(self).bag_equiped,
            bag_type != BagType::Items ==> final(self).bag_items == old(self).bag_items,
            bag_type != BagType::Temp ==> final(self).bag_temp == old(self).bag_temp,
            r is Err <==> old(self).spec_bag(bag_type).spec_items().len() <= old(self).spec_bag(
                bag_type,
            ).spec_capacity(),
            r is Err ==> (*final(self) == *old(self) && r matches Err(Error::Message(_))),
            r is Ok ==> final(self).spec_bag(bag_type).spec_items() == old(self).spec_bag(
                bag_type,
            ).spec_items().push(new_item),
            r is Ok ==> final(self).spec_bag(bag_type).spec_find(new_item.spec_uid()) is Some,
    {
        let bag = match bag_type {
            BagType::Equiped => &mut self.bag_equiped,
            BagType::Items => &mut self.bag_items,
            BagType::Temp => &mut self.bag_temp,
        };
        let item_uid = new_item.uid();
        let ghost added = new_item;
        match bag.add_item(new_item) {
            Err(err) => {
                return Err(err);
            },
            _ => {},
        }
        proof {
            let b = self.spec_bag(bag_type);
            assert(b.spec_items()[b.spec_items().len() - 1] == added);
            b.lemma_find_at(item_uid, b.spec_items().len() - 1);
        }
        let bag = match bag_type {
            BagType::Equiped => &mut self.bag_equiped,
            BagType::Items => &mut self.bag_items,
            BagType::Temp => &mut self.bag_temp,
        };
        let present = match bag.get_item(item_uid) {
            Some(_) => true,
            None => false,
        };
        if !present {
            // unreachable: the bag just admitted this uid
            return Err(Error::Message("bag lost an admitted item".to_owned()));
        }
        Ok(())
    }

    /// Whether the named bag holds an item with this uid.
    pub fn get_bag_item(&mut self, bag_type: BagType, item_uid: u64) -> (r: Option<&Item>)
        requires
            old(self).wf(),
        ensures
            *final(self) == *old(self),
            r matches Some(it) ==> it.spec_uid() == item_uid,
    {
        let bag = match bag_type {
            BagType::Equiped => &mut self.bag_equiped,
            BagType::Items => &mut self.bag_items,
            BagType::Temp => &mut self.bag_temp,
        };
        bag.get_item(item_uid)
    }

    /// The wire listing of one bag, entry by entry. A request for the items
    /// bag answers with the equipped bag's listing, as the stored handler
    /// table has it — see `spec_listed_bag`.
    pub fn pack_bag_info(&self, bag_type: BagType) -> (r: Vec<item_info>)
        requires
            self.wf(),
        ensures
            r@.len() == self.spec_listed_bag(bag_type).spec_items().len(),
            forall|j: int|
                0 <= j < r@.len() ==> {
                    let it = self.spec_listed_bag(bag_type).spec_items()[j];
                    (#[trigger] r@[j]).uid == it.spec_uid() && r@[j].id == it.spec_id()
                        && r@[j].stack == it.spec_stack()
                },
    {
        match bag_type {
            BagType::Equiped => self.bag_equiped.pack(),
            BagType::Items => self.bag_equiped.pack(),
            BagType::Temp => self.bag_temp.pack(),
        }
    }
}

/// A fresh item, exactly as asked for.
pub fn create_new_item(item_uid: u64, id: u32, stack: i32) -> (r: Item)
    ensures
        r.spec_uid() == item_uid,
        r.spec_id() == id,
        r.spec_stack() == stack,
{
    Item::new(item_uid, id, stack)
}

} // verus!
