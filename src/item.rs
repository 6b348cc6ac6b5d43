use vstd::prelude::*;

use crate::id::{intern_step, resolves, Id, IdRaw, Interner};

verus! {

pub type ItemAmount = u64;

/// A stack of items: an item identifier and a quantity.
#[derive(Debug, Clone, Copy, PartialEq, Eq, Structural, Hash)]
pub struct Item {
    pub id: Id,
    pub amount: ItemAmount,
}

/// An item stack as written in data files.
#[derive(Debug, Clone, PartialEq, Eq, Hash)]
pub struct ItemRaw {
    pub id: IdRaw,
    pub amount: ItemAmount,
}

impl ItemRaw {
    /// Resolves the item identifier; the amount is kept.
    pub fn to_item(&self, interner: &mut Interner) -> (item: Item)
        ensures
            final(interner)@ == intern_step(old(interner)@, self.id@),
            resolves(final(interner)@, item.id, self.id@),
            item.amount == self.amount,
    {
        Item { id: self.id.to_id(interner), amount: self.amount }
    }
}

} // verus!
