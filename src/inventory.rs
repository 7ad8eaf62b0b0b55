use vstd::prelude::*;

verus! {

/// Number of slots of a character's inventory: equipment, bags, backpack,
/// bank, buyback and keyring.
pub const AMOUNT_OF_SLOTS: usize = 113;

/// Number of equipment slots, from the head to the tabard.
pub const EQUIPMENT_SLOTS: usize = 19;

/// First slot of the backpack.
pub const BACKPACK_START: usize = 23;

/// Last slot of the backpack.
pub const BACKPACK_END: usize = 38;

/// One item owned by a character: a template entry of the static item
/// tables and what belongs to this instance alone.
#[derive(Clone, Copy, Debug, PartialEq, Eq, Structural)]
pub struct Item {
    pub entry: u32,
    pub guid: u64,
    pub amount: u8,
    pub creator: u64,
}

impl Item {
    pub fn new(entry: u32, guid: u64, amount: u8, creator: u64) -> (r: Item)
        ensures
            r == (Item { entry, guid, amount, creator }),
    {
        Item { entry, guid, amount, creator }
    }
}

/// A table of slots, each empty or holding one item.
#[derive(Clone, Debug)]
pub struct Inventory {
    slots: Vec<Option<Item>>,
}

/// No item identifier stands in two slots.
pub open spec fn distinct_items(s: Seq<Option<Item>>) -> bool {
    forall|i: int, j: int|
        0 <= i < s.len() && 0 <= j < s.len() && i != j && #[trigger] s[i] is Some
            && #[trigger] s[j] is Some ==> s[i]->0.guid != s[j]->0.guid
}

/// Whether an item with identifier `guid` stands in a slot other than `except`.
pub open spec fn holds_guid_elsewhere(s: Seq<Option<Item>>, guid: u64, except: int) -> bool {
    exists|j: int| 0 <= j < s.len() && j != except && (#[trigger] s[j] is Some && s[j]->0.guid == guid)
}

proof fn lemma_absent_everywhere(s: Seq<Option<Item>>, guid: u64, except: int)
    requires
        !holds_guid_elsewhere(s, guid, -1),
    ensures
        !holds_guid_elsewhere(s, guid, except),
{
    if holds_guid_elsewhere(s, guid, except) {
        let j = choose|j: int|
            0 <= j < s.len() && j != except && (#[trigger] s[j] is Some && s[j]->0.guid == guid);
        assert(0 <= j < s.len() && j != -1 && (s[j] is Some && s[j]->0.guid == guid));
    }
}

impl View for Inventory {
    type V = Seq<Option<Item>>;

    closed spec fn view(&self) -> Seq<Option<Item>> {
        self.slots@
    }
}

impl Inventory {
    pub open spec fn wf(&self) -> bool {
        self@.len() == AMOUNT_OF_SLOTS && distinct_items(self@)
    }

    /// An inventory with every slot empty.
    pub fn new() -> (r: Inventory)
        ensures
            r.wf(),
            forall|i: int| 0 <= i < AMOUNT_OF_SLOTS ==> #[trigger] r@[i] is None,
    {
        let mut slots: Vec<Option<Item>> = Vec::new();
        while slots.len() < AMOUNT_OF_SLOTS
            invariant
                slots@.len() <= AMOUNT_OF_SLOTS,
                forall|i: int| 0 <= i < slots@.len() ==> #[trigger] slots@[i] is None,
            decreases AMOUNT_OF_SLOTS - slots@.len(),
        {
            slots.push(None);
        }
        Inventory { slots }
    }

    pub fn get(&self, slot: usize) -> (r: Option<Item>)
        requires
            self.wf(),
            slot < AMOUNT_OF_SLOTS,
        ensures
            r == self@[slot as int],
    {
        self.slots[slot]
    }

    /// Puts `item` in `slot`, replacing what was there.
    pub fn set(&mut self, slot: usize, item: Item)
        requires
            old(self).wf(),
            slot < AMOUNT_OF_SLOTS,
            !holds_guid_elsewhere(old(self)@, item.guid, slot as int),
        ensures
            final(self).wf(),
            final(self)@ == old(self)@.update(slot as int, Some(item)),
    {
        self.slots.set(slot, Some(item));
        proof {
            let s = self@;
            assert forall|i: int, j: int|
                0 <= i < s.len() && 0 <= j < s.len() && i != j && #[trigger] s[i] is Some
                    && #[trigger] s[j] is Some implies s[i]->0.guid != s[j]->0.guid by {
                if i == slot as int {
                    assert((old(self)@[j] is Some && old(self)@[j]->0.guid == s[j]->0.guid));
                } else if j == slot as int {
                    assert(old(self)@[i] is Some && old(self)@[i]->0.guid == s[i]->0.guid);
                } else {
                    assert(old(self)@[i] is Some && old(self)@[j] is Some);
                }
            }
        }
    }

    /// Empties `slot`.
    pub fn clear(&mut self, slot: usize)
        requires
            old(self).wf(),
            slot < AMOUNT_OF_SLOTS,
        ensures
            final(self).wf(),
            final(self)@ == old(self)@.update(slot as int, None),
    {
        self.slots.set(slot, None);
        proof {
            let s = self@;
            assert forall|i: int, j: int|
                0 <= i < s.len() && 0 <= j < s.len() && i != j && #[trigger] s[i] is Some
                    && #[trigger] s[j] is Some implies s[i]->0.guid != s[j]->0.guid by {
                assert(old(self)@[i] is Some && old(self)@[j] is Some);
            }
        }
    }

    /// Empties `slot` and hands back what it held.
    pub fn take(&mut self, slot: usize) -> (r: Option<Item>)
        requires
            old(self).wf(),
            slot < AMOUNT_OF_SLOTS,
        ensures
            final(self).wf(),
            r == old(self)@[slot as int],
            final(self)@ == old(self)@.update(slot as int, None),
    {
        let r = self.slots[slot];
        self.clear(slot);
        r
    }

    /// Exchanges the contents of two slots; either or both may be empty.
    pub fn swap(&mut self, source: usize, destination: usize)
        requires
            old(self).wf(),
            source < AMOUNT_OF_SLOTS,
            destination < AMOUNT_OF_SLOTS,
        ensures
            final(self).wf(),
            final(self)@ == old(self)@.update(source as int, old(self)@[destination as int]).update(
                destination as int,
                old(self)@[source as int],
            ),
    {
        let source_item = self.slots[source];
        let destination_item = self.slots[destination];
        self.slots.set(source, destination_item);
        self.slots.set(destination, source_item);
        proof {
            let o = old(self)@;
            let s = self@;
            let perm = |k: int|
                if k == destination as int {
                    source as int
                } else if k == source as int {
                    destination as int
                } else {
                    k
                };
            assert forall|k: int| 0 <= k < s.len() implies #[trigger] s[k] == o[perm(k)] by {}
            assert forall|i: int, j: int|
                0 <= i < s.len() && 0 <= j < s.len() && i != j && #[trigger] s[i] is Some
                    && #[trigger] s[j] is Some implies s[i]->0.guid != s[j]->0.guid by {
                assert(s[i] == o[perm(i)]);
                assert(s[j] == o[perm(j)]);
                assert(o[perm(i)] is Some && o[perm(j)] is Some);
            }
        }
    }

    /// Puts `item` in the first empty backpack slot and returns that slot,
    /// or leaves the inventory as it is when the backpack is full.
    pub fn insert_into_first_slot(&mut self, item: Item) -> (r: Option<usize>)
        requires
            old(self).wf(),
            !holds_guid_elsewhere(old(self)@, item.guid, -1),
        ensures
            final(self).wf(),
            match r {
                Some(slot) => BACKPACK_START <= slot <= BACKPACK_END
                    && old(self)@[slot as int] is None
                    && (forall|k: int| BACKPACK_START <= k < slot ==> #[trigger] old(self)@[k] is Some)
                    && final(self)@ == old(self)@.update(slot as int, Some(item)),
                None => (forall|k: int| BACKPACK_START <= k <= BACKPACK_END ==> #[trigger] old(self)@[k] is Some)
                    && final(self)@ == old(self)@,
            },
    {
        let mut i: usize = BACKPACK_START;
        while i <= BACKPACK_END
            invariant
                self@ == old(self)@,
                self.wf(),
                !holds_guid_elsewhere(self@, item.guid, -1),
                BACKPACK_START <= i <= BACKPACK_END + 1,
                forall|k: int| BACKPACK_START <= k < i ==> #[trigger] self@[k] is Some,
            decreases BACKPACK_END + 1 - i,
        {
            if self.slots[i].is_none() {
                proof {
                    lemma_absent_everywhere(self@, item.guid, i as int);
                }
                self.set(i, item);
                return Some(i);
            }
            i = i + 1;
        }
        None
    }

    /// The contents of the equipment slots, in slot order.
    pub fn equipment(&self) -> (r: Vec<Option<Item>>)
        requires
            self.wf(),
        ensures
            r@ == self@.subrange(0, EQUIPMENT_SLOTS as int),
    {
        let mut r: Vec<Option<Item>> = Vec::new();
        let mut i: usize = 0;
        while i < EQUIPMENT_SLOTS
            invariant
                self.wf(),
                i <= EQUIPMENT_SLOTS,
                r@ == self@.subrange(0, i as int),
            decreases EQUIPMENT_SLOTS - i,
        {
            r.push(self.slots[i]);
            i = i + 1;
            assert(r@ =~= self@.subrange(0, i as int));
        }
        r
    }

    /// A copy with the same contents.
    pub fn duplicate(&self) -> (r: Inventory)
        ensures
            r@ == self@,
    {
        Inventory { slots: self.slots.clone() }
    }

    /// The contents of every slot, in slot order.
    pub fn all_slots(&self) -> (r: Vec<Option<Item>>)
        requires
            self.wf(),
        ensures
            r@ == self@,
    {
        self.slots.clone()
    }

    /// Whether some slot holds an item with identifier `guid`.
    pub fn contains_guid(&self, guid: u64) -> (r: bool)
        requires
            self.wf(),
        ensures
            r == holds_guid_elsewhere(self@, guid, -1),
    {
        let mut i: usize = 0;
        while i < AMOUNT_OF_SLOTS
            invariant
                self.wf(),
                i <= AMOUNT_OF_SLOTS,
                forall|k: int| 0 <= k < i ==> !((#[trigger] self@[k] is Some && self@[k]->0.guid == guid)),
            decreases AMOUNT_OF_SLOTS - i,
        {
            match self.slots[i] {
                Some(it) => {
                    if it.guid == guid {
                        assert((self@[i as int] is Some && self@[i as int]->0.guid == guid));
                        return true;
                    }
                },
                None => {},
            }
            i = i + 1;
        }
        false
    }
}

/// Whatever sequence of operations built it, a well-formed inventory holds
/// each item in exactly one slot: two slots that hold the same item are the
/// same slot.
pub proof fn lemma_item_in_one_slot(inv: Inventory, i: int, j: int)
    requires
        inv.wf(),
        0 <= i < AMOUNT_OF_SLOTS,
        0 <= j < AMOUNT_OF_SLOTS,
        inv@[i] is Some,
        inv@[j] is Some,
        inv@[i]->0.guid == inv@[j]->0.guid,
    ensures
        i == j,
{
}

} // verus!
