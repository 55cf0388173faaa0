//! The player's inventory: nine stacking slots of (block id, quantity)
//! pairs and a selected-slot index.

use vstd::prelude::*;

verus! {

/// A slot holds an item id with its stacked quantity.
pub open spec fn spec_slot_match(e: Option<(usize, usize)>, id: usize) -> bool {
    e matches Some(p) && p.0 == id
}

/// Number of occupied slots in the first `n` entries.
pub open spec fn spec_filled_count(items: Seq<Option<(usize, usize)>>, n: int) -> int
    decreases n,
{
    if n <= 0 {
        0
    } else {
        spec_filled_count(items, n - 1) + if items[n - 1] is Some {
            1int
        } else {
            0int
        }
    }
}

pub struct Inventory {
    pub items: Vec<Option<(usize, usize)>>,
    pub selected: usize,
}

impl Inventory {
    /// Nine slots, every occupied slot stacking at least one item.
    pub open spec fn wf(self) -> bool {
        &&& self.items@.len() == 9
        &&& forall|i: int|
            0 <= i < 9 ==> ((#[trigger] self.items@[i]) is Some ==> self.items@[i]->Some_0.1 >= 1)
    }

    /// An empty inventory with the first slot selected.
    pub fn new() -> (r: Inventory)
        ensures
            r.wf(),
            r.items@ == Seq::new(9, |i: int| Option::<(usize, usize)>::None),
            r.selected == 0,
    {
        let mut items: Vec<Option<(usize, usize)>> = Vec::new();
        let mut i: usize = 0;
        while i < 9
            invariant
                i <= 9,
                items@.len() == i,
                forall|j: int| 0 <= j < i ==> items@[j] is None,
            decreases 9 - i,
        {
            items.push(None);
            i += 1;
        }
        proof {
            assert(items@ =~= Seq::new(9, |i: int| Option::<(usize, usize)>::None));
        }
        Inventory { items, selected: 0 }
    }

    /// Adds one item: the first slot already stacking this id grows by one
    /// (stopping at the largest representable quantity); otherwise, if
    /// fewer than nine slots are occupied, the slot indexed by that count
    /// receives a fresh stack; a full inventory drops the item.
    #[verifier::loop_isolation(false)]
    pub fn add_to_inventory(&mut self, id_to_add: usize)
        requires
            old(self).wf(),
        ensures
            final(self).wf(),
            final(self).selected == old(self).selected,
            (exists|i: int| 0 <= i < 9 && spec_slot_match(old(self).items@[i], id_to_add))
                ==> exists|i: int|
                {
                    &&& 0 <= i < 9
                    &&& spec_slot_match(old(self).items@[i], id_to_add)
                    &&& forall|j: int|
                        0 <= j < i ==> !spec_slot_match(#[trigger] old(self).items@[j], id_to_add)
                    &&& final(self).items@ == old(self).items@.update(
                        i,
                        Some(
                            (
                                id_to_add,
                                if old(self).items@[i]->Some_0.1 < usize::MAX {
                                    (old(self).items@[i]->Some_0.1 + 1) as usize
                                } else {
                                    old(self).items@[i]->Some_0.1
                                },
                            ),
                        ),
                    )
                },
            (forall|j: int| 0 <= j < 9 ==> !spec_slot_match(#[trigger] old(self).items@[j], id_to_add))
                ==> {
                let n = spec_filled_count(old(self).items@, 9);
                if n < 9 {
                    final(self).items@ == old(self).items@.update(n, Some((id_to_add, 1usize)))
                } else {
                    final(self).items@ == old(self).items@
                }
            },
    {
        let mut i: usize = 0;
        while i < 9
            invariant
                i <= 9,
                self.items@ == old(self).items@,
                self.selected == old(self).selected,
                self.items@.len() == 9,
                forall|j: int|
                    0 <= j < i ==> !spec_slot_match(#[trigger] self.items@[j], id_to_add),
            decreases 9 - i,
        {
            let grow = match self.items[i] {
                Some((id, _)) => id == id_to_add,
                None => false,
            };
            if grow {
                let slot = self.items[i];
                match slot {
                    Some((id, quantity)) => {
                        let bumped: usize = if quantity < usize::MAX {
                            quantity + 1
                        } else {
                            quantity
                        };
                        self.items[i] = Some((id_to_add, bumped));
                        proof {
                            assert(spec_slot_match(old(self).items@[i as int], id_to_add));
                            assert(bumped >= 1);
                            assert forall|j: int|
                                0 <= j < 9 implies ((#[trigger] self.items@[j]) is Some
                                ==> self.items@[j]->Some_0.1 >= 1) by {
                                if j == i as int {
                                    assert(self.items@[j] == Some((id_to_add, bumped)));
                                } else {
                                    assert(self.items@[j] == old(self).items@[j]);
                                }
                            }
                        }
                        return ;
                    },
                    None => {
                        proof {
                            assert(false);
                        }
                    },
                }
            }
            i += 1;
        }
        let mut first_free_index: usize = 0;
        let mut k: usize = 0;
        while k < 9
            invariant
                k <= 9,
                self.items@ == old(self).items@,
                self.selected == old(self).selected,
                self.items@.len() == 9,
                first_free_index == spec_filled_count(self.items@, k as int),
                first_free_index <= k,
            decreases 9 - k,
        {
            if self.items[k].is_some() {
                first_free_index += 1;
            }
            k += 1;
        }
        if first_free_index < 9 {
            self.items[first_free_index] = Some((id_to_add, 1));
        }
    }

    /// Consumes one item from the selected slot: its quantity drops by
    /// one, and a slot that reaches zero empties; returns the consumed id.
    pub fn consume_currently_selected(&mut self) -> (r: Option<usize>)
        requires
            old(self).wf(),
            old(self).selected < 9,
        ensures
            final(self).wf(),
            final(self).selected == old(self).selected,
            match old(self).items@[old(self).selected as int] {
                None => r is None && final(self).items@ == old(self).items@,
                Some(p) => {
                    &&& r == Some(p.0)
                    &&& final(self).items@ == old(self).items@.update(
                        old(self).selected as int,
                        if p.1 == 1 {
                            None
                        } else {
                            Some((p.0, (p.1 - 1) as usize))
                        },
                    )
                },
            },
    {
        let slot = self.items[self.selected];
        match slot {
            Some((id, quantity)) => {
                let remaining: usize = quantity - 1;
                if remaining == 0 {
                    self.items[self.selected] = None;
                } else {
                    self.items[self.selected] = Some((id, remaining));
                }
                Some(id)
            },
            None => None,
        }
    }
}

} // verus!
