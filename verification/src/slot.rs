use vstd::prelude::*;
use crate::inventory::{Inventory, items_of, first_empty, opt_items, lemma_items_of_update, lemma_items_of_swap, lemma_first_empty};
use crate::item::{ArmorKind, Item, ItemKind};

verus! {

/// A slot of an entity: a slot of its inventory, or an equipment slot.
#[derive(Clone, Copy, Debug, PartialEq, Eq, Structural)]
pub enum Slot {
    Inventory(usize),
    Equip(EquipSlot),
}

/// An equipment slot.
#[derive(Clone, Copy, Debug, PartialEq, Eq, Structural)]
pub enum EquipSlot {
    Armor(ArmorSlot),
    Mainhand,
    Offhand,
    Lantern,
    Glider,
}

/// An armour slot.
#[derive(Clone, Copy, Debug, PartialEq, Eq, Structural)]
pub enum ArmorSlot {
    Head,
    Neck,
    Shoulders,
    Chest,
    Hands,
    Ring,
    Back,
    Belt,
    Legs,
    Feet,
    Tabard,
}

/// Whether armour slot `slot` accepts armour of kind `armor`.
pub open spec fn armor_slot_holds(slot: ArmorSlot, armor: ArmorKind) -> bool {
    match (slot, armor) {
        (ArmorSlot::Head, ArmorKind::Head) => true,
        (ArmorSlot::Neck, ArmorKind::Neck) => true,
        (ArmorSlot::Shoulders, ArmorKind::Shoulder) => true,
        (ArmorSlot::Chest, ArmorKind::Chest) => true,
        (ArmorSlot::Hands, ArmorKind::Hand) => true,
        (ArmorSlot::Ring, ArmorKind::Ring) => true,
        (ArmorSlot::Back, ArmorKind::Back) => true,
        (ArmorSlot::Belt, ArmorKind::Belt) => true,
        (ArmorSlot::Legs, ArmorKind::Pants) => true,
        (ArmorSlot::Feet, ArmorKind::Foot) => true,
        (ArmorSlot::Tabard, ArmorKind::Tabard) => true,
        _ => false,
    }
}

/// Whether equipment slot `slot` accepts items of kind `kind`.
pub open spec fn equip_slot_holds(slot: EquipSlot, kind: ItemKind) -> bool {
    match (slot, kind) {
        (EquipSlot::Armor(a), ItemKind::Armor(k)) => armor_slot_holds(a, k),
        (EquipSlot::Mainhand, ItemKind::Tool) => true,
        (EquipSlot::Offhand, ItemKind::Tool) => true,
        (EquipSlot::Lantern, ItemKind::Lantern) => true,
        (EquipSlot::Glider, ItemKind::Glider) => true,
        _ => false,
    }
}

/// Whether slot `slot` accepts items of kind `kind`: an inventory slot
/// takes anything.
pub open spec fn slot_holds(slot: Slot, kind: ItemKind) -> bool {
    match slot {
        Slot::Inventory(_) => true,
        Slot::Equip(e) => equip_slot_holds(e, kind),
    }
}

/// Whether equipment slot `slot` may hold `content` (an empty slot fits
/// anywhere).
pub open spec fn fits(slot: EquipSlot, content: Option<Item>) -> bool {
    match content {
        Some(it) => equip_slot_holds(slot, it.def.kind),
        None => true,
    }
}

/// The position of an equipment slot in a loadout.
pub open spec fn slot_index(slot: EquipSlot) -> int {
    match slot {
        EquipSlot::Armor(ArmorSlot::Head) => 0,
        EquipSlot::Armor(ArmorSlot::Neck) => 1,
        EquipSlot::Armor(ArmorSlot::Shoulders) => 2,
        EquipSlot::Armor(ArmorSlot::Chest) => 3,
        EquipSlot::Armor(ArmorSlot::Hands) => 4,
        EquipSlot::Armor(ArmorSlot::Ring) => 5,
        EquipSlot::Armor(ArmorSlot::Back) => 6,
        EquipSlot::Armor(ArmorSlot::Belt) => 7,
        EquipSlot::Armor(ArmorSlot::Legs) => 8,
        EquipSlot::Armor(ArmorSlot::Feet) => 9,
        EquipSlot::Armor(ArmorSlot::Tabard) => 10,
        EquipSlot::Mainhand => 11,
        EquipSlot::Offhand => 12,
        EquipSlot::Lantern => 13,
        EquipSlot::Glider => 14,
    }
}

/// Distinct equipment slots sit at distinct positions.
pub proof fn lemma_slot_index_injective(a: EquipSlot, b: EquipSlot)
    ensures
        0 <= slot_index(a) < 15,
        slot_index(a) == slot_index(b) ==> a == b,
{
}

impl Slot {
    /// Whether this slot accepts items of kind `item_kind`.
    pub fn can_hold(self, item_kind: &ItemKind) -> (r: bool)
        ensures
            r == slot_holds(self, *item_kind),
    {
        match self {
            Slot::Inventory(_) => true,
            Slot::Equip(slot) => slot.can_hold(item_kind),
        }
    }
}

impl EquipSlot {
    /// Whether this equipment slot accepts items of kind `item_kind`.
    pub fn can_hold(self, item_kind: &ItemKind) -> (r: bool)
        ensures
            r == equip_slot_holds(self, *item_kind),
    {
        match (self, item_kind) {
            (EquipSlot::Armor(slot), ItemKind::Armor(kind)) => slot.can_hold(kind),
            (EquipSlot::Mainhand, ItemKind::Tool) => true,
            (EquipSlot::Offhand, ItemKind::Tool) => true,
            (EquipSlot::Lantern, ItemKind::Lantern) => true,
            (EquipSlot::Glider, ItemKind::Glider) => true,
            _ => false,
        }
    }

    /// The position of this slot in a loadout.
    pub fn index(self) -> (i: usize)
        ensures
            i == slot_index(self),
    {
        match self {
            EquipSlot::Armor(ArmorSlot::Head) => 0,
            EquipSlot::Armor(ArmorSlot::Neck) => 1,
            EquipSlot::Armor(ArmorSlot::Shoulders) => 2,
            EquipSlot::Armor(ArmorSlot::Chest) => 3,
            EquipSlot::Armor(ArmorSlot::Hands) => 4,
            EquipSlot::Armor(ArmorSlot::Ring) => 5,
            EquipSlot::Armor(ArmorSlot::Back) => 6,
            EquipSlot::Armor(ArmorSlot::Belt) => 7,
            EquipSlot::Armor(ArmorSlot::Legs) => 8,
            EquipSlot::Armor(ArmorSlot::Feet) => 9,
            EquipSlot::Armor(ArmorSlot::Tabard) => 10,
            EquipSlot::Mainhand => 11,
            EquipSlot::Offhand => 12,
            EquipSlot::Lantern => 13,
            EquipSlot::Glider => 14,
        }
    }
}

impl ArmorSlot {
    /// Whether this armour slot accepts armour of kind `armor`.
    pub fn can_hold(self, armor: &ArmorKind) -> (r: bool)
        ensures
            r == armor_slot_holds(self, *armor),
    {
        match (self, armor) {
            (ArmorSlot::Head, ArmorKind::Head) => true,
            (ArmorSlot::Neck, ArmorKind::Neck) => true,
            (ArmorSlot::Shoulders, ArmorKind::Shoulder) => true,
            (ArmorSlot::Chest, ArmorKind::Chest) => true,
            (ArmorSlot::Hands, ArmorKind::Hand) => true,
            (ArmorSlot::Ring, ArmorKind::Ring) => true,
            (ArmorSlot::Back, ArmorKind::Back) => true,
            (ArmorSlot::Belt, ArmorKind::Belt) => true,
            (ArmorSlot::Legs, ArmorKind::Pants) => true,
            (ArmorSlot::Feet, ArmorKind::Foot) => true,
            (ArmorSlot::Tabard, ArmorKind::Tabard) => true,
            _ => false,
        }
    }
}

/// The equipment of an entity: one optional item per equipment slot.
#[derive(Clone, Copy, Debug)]
pub struct Loadout {
    slots: [Option<Item>; 15],
}

impl View for Loadout {
    type V = Seq<Option<Item>>;

    closed spec fn view(&self) -> Seq<Option<Item>> {
        self.slots@
    }
}

impl Loadout {
    /// A loadout with every slot empty.
    pub fn new_empty() -> (l: Loadout)
        ensures
            l@ == Seq::new(15, |i: int| None::<Item>),
    {
        let l = Loadout {
            slots: [None, None, None, None, None, None, None, None, None, None, None, None, None, None, None],
        };
        assert(l@ =~= Seq::new(15, |i: int| None::<Item>));
        l
    }

    /// A loadout always has one entry per equipment slot.
    pub proof fn lemma_len(l: Loadout)
        ensures
            l@.len() == 15,
    {
    }

    /// The item in equipment slot `slot`, if any.
    pub fn get(&self, slot: EquipSlot) -> (r: Option<Item>)
        ensures
            r == self@[slot_index(slot)],
            self@.len() == 15,
    {
        self.slots[slot.index()]
    }
}

/// Puts `item` into equipment slot `equip_slot` (or empties it) and returns
/// what was there. Leaves the inventory alone.
pub fn loadout_replace(equip_slot: EquipSlot, item: Option<Item>, loadout: &mut Loadout) -> (r: Option<Item>)
    ensures
        old(loadout)@.len() == 15,
        r == old(loadout)@[slot_index(equip_slot)],
        final(loadout)@ == old(loadout)@.update(slot_index(equip_slot), item),
{
    let i = equip_slot.index();
    let prev = loadout.slots[i];
    loadout.slots[i] = item;
    prev
}

/// Puts `item` into equipment slot `equip_slot` and returns the item that
/// was there, if any.
pub fn loadout_insert(equip_slot: EquipSlot, item: Item, loadout: &mut Loadout) -> (r: Option<Item>)
    ensures
        r == old(loadout)@[slot_index(equip_slot)],
        final(loadout)@ == old(loadout)@.update(slot_index(equip_slot), Some(item)),
{
    loadout_replace(equip_slot, Some(item), loadout)
}

/// Empties equipment slot `equip_slot` and returns what it held.
pub fn loadout_remove(equip_slot: EquipSlot, loadout: &mut Loadout) -> (r: Option<Item>)
    ensures
        r == old(loadout)@[slot_index(equip_slot)],
        final(loadout)@ == old(loadout)@.update(slot_index(equip_slot), None),
{
    loadout_replace(equip_slot, None, loadout)
}

/// The result of exchanging inventory slot `i` with equipment slot `e`:
/// the contents trade places when the slot exists and the equipment slot
/// can hold what the inventory slot holds; otherwise nothing changes.
pub open spec fn inv_loadout_swapped(i: int, e: EquipSlot, inv: Seq<Option<Item>>, ld: Seq<Option<Item>>) -> (
    Seq<Option<Item>>,
    Seq<Option<Item>>,
) {
    if 0 <= i < inv.len() && fits(e, inv[i]) {
        (inv.update(i, ld[slot_index(e)]), ld.update(slot_index(e), inv[i]))
    } else {
        (inv, ld)
    }
}

/// The result of exchanging two equipment slots: the contents trade places
/// when the slots differ and each can hold the other's content; otherwise
/// nothing changes.
pub open spec fn loadout_swapped(a: EquipSlot, b: EquipSlot, ld: Seq<Option<Item>>) -> Seq<Option<Item>> {
    if a != b && fits(b, ld[slot_index(a)]) && fits(a, ld[slot_index(b)]) {
        ld.update(slot_index(a), ld[slot_index(b)]).update(slot_index(b), ld[slot_index(a)])
    } else {
        ld
    }
}

/// The result of exchanging two inventory slots: they trade places when
/// both exist.
pub open spec fn inventory_swapped(a: int, b: int, inv: Seq<Option<Item>>) -> Seq<Option<Item>> {
    if 0 <= a < inv.len() && 0 <= b < inv.len() {
        inv.update(a, inv[b]).update(b, inv[a])
    } else {
        inv
    }
}

/// Exchanges the content of inventory slot `inventory_slot` with that of
/// equipment slot `equip_slot`, provided the equipment slot can hold the
/// inventory item.
pub fn swap_inventory_loadout(
    inventory_slot: usize,
    equip_slot: EquipSlot,
    inventory: &mut Inventory,
    loadout: &mut Loadout,
)
    ensures
        (final(inventory)@, final(loadout)@) == inv_loadout_swapped(
            inventory_slot as int,
            equip_slot,
            old(inventory)@,
            old(loadout)@,
        ),
{
    let fits_slot = match inventory.get(inventory_slot) {
        Some(item) => equip_slot.can_hold(&item.kind()),
        None => true,
    };
    if fits_slot {
        let ghost inv0 = inventory@;
        let ghost ld0 = loadout@;
        let from_equip = loadout_remove(equip_slot, loadout);
        let from_inv = match from_equip {
            Some(item) => match inventory.insert(inventory_slot, item) {
                Ok(prev) => prev,
                Err(back) => Some(back),
            },
            None => inventory.remove(inventory_slot),
        };
        match from_inv {
            Some(item) => {
                let displaced = loadout_insert(equip_slot, item, loadout);
                assert(displaced.is_none());
            },
            None => {},
        }
        proof {
            let k = slot_index(equip_slot);
            if inventory_slot < inv0.len() {
                assert(loadout@ =~= ld0.update(k, inv0[inventory_slot as int]));
                assert(inventory@ =~= inv0.update(inventory_slot as int, ld0[k]));
            } else {
                assert(loadout@ =~= ld0);
            }
        }
    }
}

/// Exchanges the contents of two equipment slots; does nothing when they
/// are the same slot or either item does not fit its new slot.
pub fn swap_loadout(slot_a: EquipSlot, slot_b: EquipSlot, loadout: &mut Loadout)
    ensures
        final(loadout)@ == loadout_swapped(slot_a, slot_b, old(loadout)@),
{
    if slot_a == slot_b {
        return;
    }
    let ghost ld0 = loadout@;
    proof {
        lemma_slot_index_injective(slot_a, slot_b);
    }
    let item_a = loadout_remove(slot_a, loadout);
    let item_b = loadout_remove(slot_b, loadout);
    let a_fits_b = match &item_a {
        Some(i) => slot_b.can_hold(&i.kind()),
        None => true,
    };
    let b_fits_a = match &item_b {
        Some(i) => slot_a.can_hold(&i.kind()),
        None => true,
    };
    if a_fits_b && b_fits_a {
        let d1 = loadout_replace(slot_b, item_a, loadout);
        let d2 = loadout_replace(slot_a, item_b, loadout);
        assert(d1.is_none() && d2.is_none());
        assert(loadout@ =~= loadout_swapped(slot_a, slot_b, ld0));
    } else {
        let d1 = loadout_replace(slot_a, item_a, loadout);
        let d2 = loadout_replace(slot_b, item_b, loadout);
        assert(d1.is_none() && d2.is_none());
        assert(loadout@ =~= ld0);
    }
}

/// Exchanges the contents of two slots, each in the inventory or the
/// equipment. A swap that involves a missing inventory or loadout does
/// nothing.
pub fn swap(slot_a: Slot, slot_b: Slot, inventory: Option<&mut Inventory>, loadout: Option<&mut Loadout>)
    ensures
        match (slot_a, slot_b) {
            (Slot::Inventory(a), Slot::Inventory(b)) => (inventory matches Some(iv) ==> final(iv)@
                == inventory_swapped(a as int, b as int, iv@)) && (loadout matches Some(l) ==> final(l)@ == l@),
            (Slot::Inventory(i), Slot::Equip(e)) => (inventory matches Some(iv) ==> (loadout matches Some(l) ==> (final(iv)@, final(l)@)
                == inv_loadout_swapped(i as int, e, iv@, l@))) && (loadout is None ==> (inventory matches Some(iv)
                ==> final(iv)@ == iv@)) && (inventory is None ==> (loadout matches Some(l) ==> final(l)@ == l@)),
            (Slot::Equip(e), Slot::Inventory(i)) => (inventory matches Some(iv) ==> (loadout matches Some(l) ==> (final(iv)@, final(l)@)
                == inv_loadout_swapped(i as int, e, iv@, l@))) && (loadout is None ==> (inventory matches Some(iv)
                ==> final(iv)@ == iv@)) && (inventory is None ==> (loadout matches Some(l) ==> final(l)@ == l@)),
            (Slot::Equip(a), Slot::Equip(b)) => (loadout matches Some(l) ==> final(l)@ == loadout_swapped(
                a,
                b,
                l@,
            )) && (inventory matches Some(iv) ==> final(iv)@ == iv@),
        },
{
    match (slot_a, slot_b) {
        (Slot::Inventory(a), Slot::Inventory(b)) => {
            match inventory {
                Some(iv) => iv.swap_slots(a, b),
                None => {},
            }
        },
        (Slot::Inventory(inv_slot), Slot::Equip(equip_slot)) => {
            swap_mixed(inv_slot, equip_slot, inventory, loadout);
        },
        (Slot::Equip(equip_slot), Slot::Inventory(inv_slot)) => {
            swap_mixed(inv_slot, equip_slot, inventory, loadout);
        },
        (Slot::Equip(a), Slot::Equip(b)) => {
            match loadout {
                Some(l) => swap_loadout(a, b, l),
                None => {},
            }
        },
    }
}

fn swap_mixed(inv_slot: usize, equip_slot: EquipSlot, inventory: Option<&mut Inventory>, loadout: Option<&mut Loadout>)
    ensures
        inventory matches Some(iv) ==> (loadout matches Some(l) ==> (final(iv)@, final(l)@)
            == inv_loadout_swapped(inv_slot as int, equip_slot, iv@, l@)),
        loadout is None ==> (inventory matches Some(iv) ==> final(iv)@ == iv@),
        inventory is None ==> (loadout matches Some(l) ==> final(l)@ == l@),
{
    match inventory {
        Some(iv) => match loadout {
            Some(l) => swap_inventory_loadout(inv_slot, equip_slot, iv, l),
            None => {},
        },
        None => {},
    }
}

/// The equipment slot that items of kind `kind` are equipped into, if any.
pub open spec fn equip_target(kind: ItemKind) -> Option<EquipSlot> {
    match kind {
        ItemKind::Tool => Some(EquipSlot::Mainhand),
        ItemKind::Armor(a) => Some(
            EquipSlot::Armor(
                match a {
                    ArmorKind::Head => ArmorSlot::Head,
                    ArmorKind::Neck => ArmorSlot::Neck,
                    ArmorKind::Shoulder => ArmorSlot::Shoulders,
                    ArmorKind::Chest => ArmorSlot::Chest,
                    ArmorKind::Hand => ArmorSlot::Hands,
                    ArmorKind::Ring => ArmorSlot::Ring,
                    ArmorKind::Back => ArmorSlot::Back,
                    ArmorKind::Belt => ArmorSlot::Belt,
                    ArmorKind::Pants => ArmorSlot::Legs,
                    ArmorKind::Foot => ArmorSlot::Feet,
                    ArmorKind::Tabard => ArmorSlot::Tabard,
                },
            ),
        ),
        ItemKind::Lantern => Some(EquipSlot::Lantern),
        ItemKind::Glider => Some(EquipSlot::Glider),
        _ => None,
    }
}

fn equip_target_of(kind: ItemKind) -> (r: Option<EquipSlot>)
    ensures
        r == equip_target(kind),
{
    match kind {
        ItemKind::Tool => Some(EquipSlot::Mainhand),
        ItemKind::Armor(a) => Some(
            EquipSlot::Armor(
                match a {
                    ArmorKind::Head => ArmorSlot::Head,
                    ArmorKind::Neck => ArmorSlot::Neck,
                    ArmorKind::Shoulder => ArmorSlot::Shoulders,
                    ArmorKind::Chest => ArmorSlot::Chest,
                    ArmorKind::Hand => ArmorSlot::Hands,
                    ArmorKind::Ring => ArmorSlot::Ring,
                    ArmorKind::Back => ArmorSlot::Back,
                    ArmorKind::Belt => ArmorSlot::Belt,
                    ArmorKind::Pants => ArmorSlot::Legs,
                    ArmorKind::Foot => ArmorSlot::Feet,
                    ArmorKind::Tabard => ArmorSlot::Tabard,
                },
            ),
        ),
        ItemKind::Lantern => Some(EquipSlot::Lantern),
        ItemKind::Glider => Some(EquipSlot::Glider),
        _ => None,
    }
}

/// The result of equipping the item in inventory slot `slot`: the item
/// moves into its equipment slot and whatever was there moves into the
/// inventory slot; a tool first moves the main-hand item to the off hand
/// (and the off-hand item to the main hand). Items that cannot be equipped,
/// and empty or missing slots, change nothing.
pub open spec fn equipped(slot: int, inv: Seq<Option<Item>>, ld: Seq<Option<Item>>) -> (
    Seq<Option<Item>>,
    Seq<Option<Item>>,
) {
    match equip_target_at(slot, inv) {
        Some(e) => {
            let ld1 = if e == EquipSlot::Mainhand {
                loadout_swapped(EquipSlot::Mainhand, EquipSlot::Offhand, ld)
            } else {
                ld
            };
            inv_loadout_swapped(slot, e, inv, ld1)
        },
        None => (inv, ld),
    }
}

/// The equipment slot that the item in inventory slot `slot` goes to, if
/// the slot exists and holds an equippable item.
pub open spec fn equip_target_at(slot: int, inv: Seq<Option<Item>>) -> Option<EquipSlot> {
    if 0 <= slot < inv.len() {
        match inv[slot] {
            Some(it) => equip_target(it.def.kind),
            None => None,
        }
    } else {
        None
    }
}

/// The result of unequipping equipment slot `slot`: its item moves into the
/// first empty inventory slot; if the slot is empty or the inventory is
/// full, nothing changes.
pub open spec fn unequipped(slot: EquipSlot, inv: Seq<Option<Item>>, ld: Seq<Option<Item>>) -> (
    Seq<Option<Item>>,
    Seq<Option<Item>>,
) {
    if ld[slot_index(slot)] is Some && first_empty(inv) is Some {
        (inv.update(first_empty(inv)->0, ld[slot_index(slot)]), ld.update(slot_index(slot), None))
    } else {
        (inv, ld)
    }
}

/// Equips the item in inventory slot `slot` into the equipment slot that
/// its kind belongs to; the previously equipped item goes into the
/// inventory slot. A tool pushes the main-hand item into the off hand
/// first, and the off-hand item into the inventory slot.
pub fn equip(slot: usize, inventory: &mut Inventory, loadout: &mut Loadout)
    ensures
        (final(inventory)@, final(loadout)@) == equipped(slot as int, old(inventory)@, old(loadout)@),
{
    let target = match inventory.get(slot) {
        Some(i) => equip_target_of(i.kind()),
        None => None,
    };
    match target {
        Some(equip_slot) => {
            if equip_slot == EquipSlot::Mainhand {
                swap_loadout(EquipSlot::Mainhand, EquipSlot::Offhand, loadout);
            }
            swap_inventory_loadout(slot, equip_slot, inventory, loadout);
        },
        None => {},
    }
}

/// Moves the item in equipment slot `slot` into the first empty inventory
/// slot; leaves it equipped when the inventory is full.
pub fn unequip(slot: EquipSlot, inventory: &mut Inventory, loadout: &mut Loadout)
    ensures
        (final(inventory)@, final(loadout)@) == unequipped(slot, old(inventory)@, old(loadout)@),
{
    let ghost inv0 = inventory@;
    let ghost ld0 = loadout@;
    match loadout_remove(slot, loadout) {
        Some(item) => match inventory.push(item) {
            None => {},
            Some(back) => {
                let displaced = loadout_insert(slot, back, loadout);
                assert(displaced.is_none());
                assert(loadout@ =~= ld0);
            },
        },
        None => {
            assert(loadout@ =~= ld0);
        },
    }
}

/// Every equipped item sits in a slot that can hold it.
pub open spec fn well_equipped(ld: Seq<Option<Item>>) -> bool {
    ld.len() == 15 && forall|e: EquipSlot| #[trigger] fits(e, ld[slot_index(e)])
}

/// Exchanging an inventory slot with an equipment slot keeps every item:
/// the items held by inventory and loadout together are the same before
/// and after.
pub proof fn lemma_swap_inventory_loadout_keeps_items(
    i: int,
    e: EquipSlot,
    inv: Seq<Option<Item>>,
    ld: Seq<Option<Item>>,
)
    requires
        ld.len() == 15,
    ensures
        items_of(inv_loadout_swapped(i, e, inv, ld).0).add(items_of(inv_loadout_swapped(i, e, inv, ld).1))
            =~= items_of(inv).add(items_of(ld)),
{
    broadcast use vstd::multiset::group_multiset_axioms;
    lemma_slot_index_injective(e, e);
    let k = slot_index(e);
    if 0 <= i < inv.len() && fits(e, inv[i]) {
        lemma_items_of_update(inv, i, ld[k]);
        lemma_items_of_update(ld, k, inv[i]);
        let a = items_of(inv.update(i, ld[k]));
        let b = items_of(ld.update(k, inv[i]));
        assert forall|v: Item| #[trigger] a.add(b).count(v) == items_of(inv).add(items_of(ld)).count(v) by {
            assert(a.add(opt_items(inv[i])).count(v) == items_of(inv).add(opt_items(ld[k])).count(v));
            assert(b.add(opt_items(ld[k])).count(v) == items_of(ld).add(opt_items(inv[i])).count(v));
        }
    }
}

/// Exchanging two equipment slots keeps the equipped items.
pub proof fn lemma_swap_loadout_keeps_items(a: EquipSlot, b: EquipSlot, ld: Seq<Option<Item>>)
    requires
        ld.len() == 15,
    ensures
        items_of(loadout_swapped(a, b, ld)) =~= items_of(ld),
{
    lemma_slot_index_injective(a, b);
    lemma_slot_index_injective(b, a);
    if a != b && fits(b, ld[slot_index(a)]) && fits(a, ld[slot_index(b)]) {
        lemma_items_of_swap(ld, slot_index(a), slot_index(b));
    }
}

/// Exchanging two inventory slots keeps the inventory's items.
pub proof fn lemma_inventory_swap_keeps_items(a: int, b: int, inv: Seq<Option<Item>>)
    ensures
        items_of(inventory_swapped(a, b, inv)) =~= items_of(inv),
{
    if 0 <= a < inv.len() && 0 <= b < inv.len() {
        lemma_items_of_swap(inv, a, b);
    }
}

/// Equipping keeps every item of inventory and loadout together.
pub proof fn lemma_equip_keeps_items(slot: int, inv: Seq<Option<Item>>, ld: Seq<Option<Item>>)
    requires
        ld.len() == 15,
    ensures
        items_of(equipped(slot, inv, ld).0).add(items_of(equipped(slot, inv, ld).1)) =~= items_of(inv).add(
            items_of(ld),
        ),
{
    broadcast use vstd::multiset::group_multiset_axioms;
    if let Some(e) = equip_target_at(slot, inv) {
        let ld1 = if e == EquipSlot::Mainhand {
            loadout_swapped(EquipSlot::Mainhand, EquipSlot::Offhand, ld)
        } else {
            ld
        };
        lemma_swap_loadout_keeps_items(EquipSlot::Mainhand, EquipSlot::Offhand, ld);
        lemma_swap_inventory_loadout_keeps_items(slot, e, inv, ld1);
        assert(items_of(ld1) =~= items_of(ld));
    }
}

/// Unequipping keeps every item of inventory and loadout together.
pub proof fn lemma_unequip_keeps_items(slot: EquipSlot, inv: Seq<Option<Item>>, ld: Seq<Option<Item>>)
    requires
        ld.len() == 15,
    ensures
        items_of(unequipped(slot, inv, ld).0).add(items_of(unequipped(slot, inv, ld).1)) =~= items_of(inv).add(
            items_of(ld),
        ),
{
    broadcast use vstd::multiset::group_multiset_axioms;
    lemma_slot_index_injective(slot, slot);
    let k = slot_index(slot);
    if ld[k] is Some && first_empty(inv) is Some {
        let j = first_empty(inv)->0;
        lemma_first_empty(inv);
        lemma_items_of_update(inv, j, ld[k]);
        lemma_items_of_update(ld, k, None);
        let a = items_of(inv.update(j, ld[k]));
        let b = items_of(ld.update(k, None));
        assert forall|v: Item| #[trigger] a.add(b).count(v) == items_of(inv).add(items_of(ld)).count(v) by {
            assert(a.add(opt_items(inv[j])).count(v) == items_of(inv).add(opt_items(ld[k])).count(v));
            assert(b.add(opt_items(ld[k])).count(v) == items_of(ld).add(opt_items(None)).count(v));
        }
    }
}

/// Exchanging an inventory slot with an equipment slot keeps a loadout
/// well equipped: an item only enters a slot that can hold it.
pub proof fn lemma_swap_inventory_loadout_keeps_well_equipped(
    i: int,
    e: EquipSlot,
    inv: Seq<Option<Item>>,
    ld: Seq<Option<Item>>,
)
    requires
        well_equipped(ld),
    ensures
        well_equipped(inv_loadout_swapped(i, e, inv, ld).1),
{
    let r = inv_loadout_swapped(i, e, inv, ld).1;
    assert forall|f: EquipSlot| #[trigger] fits(f, r[slot_index(f)]) by {
        lemma_slot_index_injective(f, e);
        assert(fits(f, ld[slot_index(f)]));
    }
}

/// Exchanging two equipment slots keeps a loadout well equipped.
pub proof fn lemma_swap_loadout_keeps_well_equipped(a: EquipSlot, b: EquipSlot, ld: Seq<Option<Item>>)
    requires
        well_equipped(ld),
    ensures
        well_equipped(loadout_swapped(a, b, ld)),
{
    let r = loadout_swapped(a, b, ld);
    assert forall|f: EquipSlot| #[trigger] fits(f, r[slot_index(f)]) by {
        lemma_slot_index_injective(f, a);
        lemma_slot_index_injective(f, b);
        assert(fits(f, ld[slot_index(f)]));
    }
}

/// Equipping keeps a loadout well equipped.
pub proof fn lemma_equip_keeps_well_equipped(slot: int, inv: Seq<Option<Item>>, ld: Seq<Option<Item>>)
    requires
        well_equipped(ld),
    ensures
        well_equipped(equipped(slot, inv, ld).1),
{
    if let Some(e) = equip_target_at(slot, inv) {
        lemma_swap_loadout_keeps_well_equipped(EquipSlot::Mainhand, EquipSlot::Offhand, ld);
        let ld1 = if e == EquipSlot::Mainhand {
            loadout_swapped(EquipSlot::Mainhand, EquipSlot::Offhand, ld)
        } else {
            ld
        };
        lemma_swap_inventory_loadout_keeps_well_equipped(slot, e, inv, ld1);
    }
}

/// In a well-equipped loadout, exchanging two equipment slots twice
/// restores the loadout.
pub proof fn lemma_swap_loadout_twice(a: EquipSlot, b: EquipSlot, ld: Seq<Option<Item>>)
    requires
        well_equipped(ld),
    ensures
        loadout_swapped(a, b, loadout_swapped(a, b, ld)) =~= ld,
{
    lemma_slot_index_injective(a, b);
    lemma_slot_index_injective(b, a);
    assert(fits(a, ld[slot_index(a)]));
    assert(fits(b, ld[slot_index(b)]));
}

/// With a well-equipped loadout, exchanging an inventory slot with an
/// equipment slot twice restores both.
pub proof fn lemma_swap_inventory_loadout_twice(
    i: int,
    e: EquipSlot,
    inv: Seq<Option<Item>>,
    ld: Seq<Option<Item>>,
)
    requires
        well_equipped(ld),
    ensures
        ({
            let once = inv_loadout_swapped(i, e, inv, ld);
            inv_loadout_swapped(i, e, once.0, once.1)
        }) == (inv, ld),
{
    assert(fits(e, ld[slot_index(e)]));
    let once = inv_loadout_swapped(i, e, inv, ld);
    let twice = inv_loadout_swapped(i, e, once.0, once.1);
    if 0 <= i < inv.len() && fits(e, inv[i]) {
        assert(twice.0 =~= inv);
        assert(twice.1 =~= ld);
    }
}

/// Equipping a tool puts it in the main hand, the main-hand item in the off
/// hand, and the off-hand item into the inventory slot the tool came from.
pub proof fn lemma_equip_tool_moves_hands(slot: int, inv: Seq<Option<Item>>, ld: Seq<Option<Item>>)
    requires
        0 <= slot < inv.len(),
        inv[slot] matches Some(it) && it.def.kind == ItemKind::Tool,
        well_equipped(ld),
    ensures
        equipped(slot, inv, ld).1[slot_index(EquipSlot::Mainhand)] == inv[slot],
        equipped(slot, inv, ld).1[slot_index(EquipSlot::Offhand)] == ld[slot_index(EquipSlot::Mainhand)],
        equipped(slot, inv, ld).0[slot] == ld[slot_index(EquipSlot::Offhand)],
{
    assert(fits(EquipSlot::Mainhand, ld[slot_index(EquipSlot::Mainhand)]));
    assert(fits(EquipSlot::Offhand, ld[slot_index(EquipSlot::Offhand)]));
}

/// Unequipping into a full inventory leaves the item equipped and changes
/// nothing.
pub proof fn lemma_unequip_full_keeps(slot: EquipSlot, inv: Seq<Option<Item>>, ld: Seq<Option<Item>>)
    requires
        forall|j: int| 0 <= j < inv.len() ==> inv[j].is_some(),
    ensures
        unequipped(slot, inv, ld) == (inv, ld),
{
    lemma_first_empty(inv);
}

/// Every item kind that has an equipment slot (a tool, any armour, a glider
/// or a lantern) is sent to a slot that can hold it, and no other kind is
/// sent anywhere.
pub proof fn lemma_equip_target_holds(kind: ItemKind)
    ensures
        equip_target(kind) matches Some(t) ==> equip_slot_holds(t, kind),
        equip_target(kind) is Some <==> (kind is Tool || kind is Armor || kind is Glider || kind is Lantern),
{
}

/// Equipping an item of a kind that has an equipment slot always moves the
/// item into the loadout, into a slot that can hold its kind, whatever the
/// loadout held before.
pub proof fn lemma_equip_moves_item_into_loadout(slot: int, inv: Seq<Option<Item>>, ld: Seq<Option<Item>>)
    requires
        0 <= slot < inv.len(),
        inv[slot] matches Some(it) && (it.def.kind is Tool || it.def.kind is Armor || it.def.kind is Glider
            || it.def.kind is Lantern),
        ld.len() == 15,
    ensures
        exists|e: EquipSlot| #[trigger] equip_slot_holds(e, inv[slot]->0.def.kind) && equipped(slot, inv, ld).1[slot_index(e)]
            == inv[slot],
{
    let kind = inv[slot]->0.def.kind;
    lemma_equip_target_holds(kind);
    let e = equip_target(kind)->0;
    lemma_slot_index_injective(e, e);
    lemma_slot_index_injective(EquipSlot::Mainhand, EquipSlot::Offhand);
    let ld1 = if e == EquipSlot::Mainhand {
        loadout_swapped(EquipSlot::Mainhand, EquipSlot::Offhand, ld)
    } else {
        ld
    };
    assert(ld1.len() == 15);
    assert(fits(e, inv[slot]));
    assert(equipped(slot, inv, ld).1 == ld1.update(slot_index(e), inv[slot]));
    assert(equip_slot_holds(e, kind) && equipped(slot, inv, ld).1[slot_index(e)] == inv[slot]);
}

} // verus!
