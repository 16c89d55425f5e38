use vstd::prelude::*;
use crate::inventory::{
    first_empty, items_of, lemma_first_empty, lemma_items_of_update, lemma_take_then_stack, opt_items, stack_outcome,
    take_outcome, Inventory,
};
use vstd::multiset::Multiset;
use crate::item::{CraftedItem, Item, ItemKind};
use crate::recipe::ingredient_claims;
use crate::recipe_book::RecipeBook;
use crate::slot::{
    equip, equip_slot_holds, equip_target, equipped, lemma_equip_moves_item_into_loadout, lemma_equip_target_holds, inv_loadout_swapped, inventory_swapped, loadout_remove, loadout_swapped, slot_index, swap, unequip,
    unequipped, EquipSlot, Loadout, Slot,
};

verus! {

/// What happened to an inventory, as reported back to its owner.
#[derive(Clone, Copy, Debug, PartialEq, Eq, Structural)]
pub enum InventoryUpdateEvent {
    Collected(Item),
    CollectFailed,
    Used,
    /// A consumable was used up; it carries the id of its definition.
    Consumed(u64),
    Swapped,
    Dropped,
    Craft,
}

/// Work that using an item leaves to the world around the inventory.
#[derive(Clone, Copy, Debug, PartialEq, Eq, Structural)]
pub enum UseAction {
    Nothing,
    /// A lantern was equipped: its light goes on the entity.
    SwapLantern(Item),
    /// The lantern was unequipped: the entity's light goes out.
    SnuffLantern,
    /// A consumable was used: its effects apply to the entity.
    ApplyEffects(Item),
    /// A throwable was used: it is thrown from the entity's position.
    Throw(Item),
    /// A collar was used: the nearest tameable creature becomes the
    /// entity's pet.
    Tame,
}

/// What the world knows around an entity that uses an item.
#[derive(Clone, Copy, Debug, PartialEq, Eq, Structural)]
pub struct UseFacts {
    /// Whether the entity has a position.
    pub has_position: bool,
    /// How many creatures the entity already owns.
    pub owned_pets: u64,
    /// Whether a wild creature stands close enough to be tamed.
    pub tameable_nearby: bool,
}

/// An entity may own at most this many pets before a collar stops working.
pub const MAX_PETS: u64 = 3;

/// Whether items of kind `kind` are equipped when used.
pub open spec fn is_equippable(kind: ItemKind) -> bool {
    match kind {
        ItemKind::Tool | ItemKind::Armor(_) | ItemKind::Glider | ItemKind::Lantern => true,
        _ => false,
    }
}

fn equippable(kind: ItemKind) -> (r: bool)
    ensures
        r == is_equippable(kind),
{
    match kind {
        ItemKind::Tool | ItemKind::Armor(_) | ItemKind::Glider | ItemKind::Lantern => true,
        _ => false,
    }
}

/// The items that are equipped when used are exactly those whose kind has
/// an equipment slot.
pub proof fn lemma_equippable_iff_has_slot(kind: ItemKind)
    ensures
        is_equippable(kind) <==> equip_target(kind) is Some,
        is_equippable(kind) <==> (kind is Tool || kind is Armor || kind is Glider || kind is Lantern),
{
    lemma_equip_target_holds(kind);
}

/// Whether using a collar tames a creature.
pub open spec fn tames(facts: UseFacts) -> bool {
    facts.has_position && facts.owned_pets < MAX_PETS && facts.tameable_nearby
}

/// Picks up `item` from the world into `inv`. Nothing happens (`None`) when
/// the item is out of reach or the entity is dead. Otherwise the item goes
/// into the first empty slot and is reported collected, so its world entity
/// is to be deleted; a full inventory reports the pickup failed and leaves
/// the item where it was.
pub fn handle_pickup(inv: &mut Inventory, item: Item, in_range: bool, is_dead: bool) -> (r: Option<
    InventoryUpdateEvent,
>)
    ensures
        !in_range || is_dead ==> r is None && final(inv)@ == old(inv)@,
        in_range && !is_dead ==> match first_empty(old(inv)@) {
            Some(k) => r == Some(InventoryUpdateEvent::Collected(item)) && final(inv)@ == old(inv)@.update(
                k,
                Some(item),
            ),
            None => r == Some(InventoryUpdateEvent::CollectFailed) && final(inv)@ == old(inv)@,
        },
{
    if !in_range || is_dead {
        return None;
    }
    match inv.push(item) {
        None => Some(InventoryUpdateEvent::Collected(item)),
        Some(_) => Some(InventoryUpdateEvent::CollectFailed),
    }
}

/// Collects the item that a block yields. When the block can be collected
/// this tick and is within reach and yields `reclaimed`, the item is pushed
/// into the entity's inventory, if it has one; the first result is the
/// event to report and the second whether the block is to become empty.
pub fn handle_collect(
    inv: Option<&mut Inventory>,
    reclaimed: Option<Item>,
    collectible: bool,
    in_range: bool,
) -> (r: (Option<InventoryUpdateEvent>, bool))
    ensures
        inv matches Some(iv) ==> (match reclaimed {
            Some(item) => if collectible && in_range {
                match first_empty(iv@) {
                    Some(k) => r == (Some(InventoryUpdateEvent::Collected(item)), true) && final(iv)@
                        == iv@.update(k, Some(item)),
                    None => r == (Some(InventoryUpdateEvent::CollectFailed), false) && final(iv)@ == iv@,
                }
            } else {
                r == (None::<InventoryUpdateEvent>, false) && final(iv)@ == iv@
            },
            None => r == (None::<InventoryUpdateEvent>, false) && final(iv)@ == iv@,
        }),
        inv is None ==> r == (None::<InventoryUpdateEvent>, false),
{
    if !collectible || !in_range {
        return (None, false);
    }
    match reclaimed {
        Some(item) => match inv {
            Some(iv) => match iv.push(item) {
                None => (Some(InventoryUpdateEvent::Collected(item)), true),
                Some(_) => (Some(InventoryUpdateEvent::CollectFailed), false),
            },
            None => (None, false),
        },
        None => (None, false),
    }
}

/// What using the item in inventory slot `i` does to the inventory `inv`
/// when it cannot be equipped: the event and the action to report, and the
/// slots afterwards.
pub open spec fn used_from_inventory(inv: Seq<Option<Item>>, i: int, facts: UseFacts) -> (
    Option<InventoryUpdateEvent>,
    UseAction,
    Seq<Option<Item>>,
) {
    let (taken, after) = take_outcome(inv, i);
    match taken {
        Some(one) => match one.def.kind {
            ItemKind::Consumable => (
                Some(InventoryUpdateEvent::Consumed(one.def.id)),
                UseAction::ApplyEffects(one),
                after,
            ),
            ItemKind::Throwable => (
                Some(InventoryUpdateEvent::Used),
                if facts.has_position {
                    UseAction::Throw(one)
                } else {
                    UseAction::Nothing
                },
                after,
            ),
            ItemKind::Utility => if tames(facts) {
                (Some(InventoryUpdateEvent::Used), UseAction::Tame, after)
            } else {
                (Some(InventoryUpdateEvent::Used), UseAction::Nothing, stack_outcome(after, i, one).1)
            },
            _ => (None, UseAction::Nothing, stack_outcome(after, i, one).1),
        },
        None => (None, UseAction::Nothing, inv),
    }
}

/// Uses the item in `slot`. An equippable item in the inventory is equipped
/// when the entity has a loadout (a lantern also lights up); any other item
/// is taken out of its stack and consumed, thrown, or (a collar) used to
/// tame a creature, and goes back onto its stack when nothing used it up.
/// An equipment slot is unequipped (a lantern goes out). Returns the event
/// to report and the action left to the world.
pub fn handle_use(slot: Slot, inventory: &mut Inventory, loadout: Option<&mut Loadout>, facts: UseFacts) -> (r: (
    Option<InventoryUpdateEvent>,
    UseAction,
))
    ensures
        match slot {
            Slot::Inventory(i) => {
                let content = if i < old(inventory)@.len() { old(inventory)@[i as int] } else { None };
                match content {
                    Some(it) => if is_equippable(it.def.kind) {
                        &&& loadout matches Some(l) ==> (final(inventory)@, final(l)@) == equipped(
                            i as int,
                            old(inventory)@,
                            l@,
                        ) && r == (
                            Some(InventoryUpdateEvent::Used),
                            if it.def.kind == ItemKind::Lantern {
                                UseAction::SwapLantern(it)
                            } else {
                                UseAction::Nothing
                            },
                        )
                        &&& loadout is None ==> r == (None::<InventoryUpdateEvent>, UseAction::Nothing)
                            && final(inventory)@ == old(inventory)@
                    } else {
                        &&& (r.0, r.1, final(inventory)@) == used_from_inventory(old(inventory)@, i as int, facts)
                        &&& loadout matches Some(l) ==> final(l)@ == l@
                    },
                    None => {
                        &&& r == (None::<InventoryUpdateEvent>, UseAction::Nothing)
                        &&& final(inventory)@ == old(inventory)@
                        &&& loadout matches Some(l) ==> final(l)@ == l@
                    },
                }
            },
            Slot::Equip(e) => {
                &&& loadout matches Some(l) ==> (final(inventory)@, final(l)@) == unequipped(
                    e,
                    old(inventory)@,
                    l@,
                ) && r == (
                    Some(InventoryUpdateEvent::Used),
                    if e == EquipSlot::Lantern {
                        UseAction::SnuffLantern
                    } else {
                        UseAction::Nothing
                    },
                )
                &&& loadout is None ==> r == (None::<InventoryUpdateEvent>, UseAction::Nothing) && final(inventory)@ == old(inventory)@
            },
        },
        slot matches Slot::Inventory(i) ==> (i < old(inventory)@.len() ==> (old(inventory)@[i as int] matches Some(it)
            ==> ((it.def.kind is Tool || it.def.kind is Armor || it.def.kind is Glider || it.def.kind is Lantern) ==> (
        loadout matches Some(l) ==> r.0 == Some(InventoryUpdateEvent::Used) && exists|e: EquipSlot|
            #[trigger] equip_slot_holds(e, it.def.kind) && final(l)@[slot_index(e)] == Some(it))))),
{
    match slot {
        Slot::Inventory(i) => {
            let content = match inventory.get(i) {
                Some(it) => Some(*it),
                None => None,
            };
            match content {
                Some(it) => {
                    if equippable(it.def.kind) {
                        match loadout {
                            Some(l) => {
                                proof {
                                    Loadout::lemma_len(*l);
                                    lemma_equip_moves_item_into_loadout(i as int, inventory@, l@);
                                }
                                equip(i, inventory, l);
                                let action = if it.def.kind == ItemKind::Lantern {
                                    UseAction::SwapLantern(it)
                                } else {
                                    UseAction::Nothing
                                };
                                (Some(InventoryUpdateEvent::Used), action)
                            },
                            None => (None, UseAction::Nothing),
                        }
                    } else {
                        let ghost before = inventory@;
                        match inventory.take(i) {
                            Some(one) => match one.def.kind {
                                ItemKind::Consumable => (
                                    Some(InventoryUpdateEvent::Consumed(one.def.id)),
                                    UseAction::ApplyEffects(one),
                                ),
                                ItemKind::Throwable => {
                                    let action = if facts.has_position {
                                        UseAction::Throw(one)
                                    } else {
                                        UseAction::Nothing
                                    };
                                    (Some(InventoryUpdateEvent::Used), action)
                                },
                                ItemKind::Utility => {
                                    if facts.has_position && facts.owned_pets < MAX_PETS && facts.tameable_nearby {
                                        (Some(InventoryUpdateEvent::Used), UseAction::Tame)
                                    } else {
                                        let _ = inventory.insert_or_stack(i, one);
                                        (Some(InventoryUpdateEvent::Used), UseAction::Nothing)
                                    }
                                },
                                _ => {
                                    let _ = inventory.insert_or_stack(i, one);
                                    (None, UseAction::Nothing)
                                },
                            },
                            None => {
                                assert(false);
                                (None, UseAction::Nothing)
                            },
                        }
                    }
                },
                None => (None, UseAction::Nothing),
            }
        },
        Slot::Equip(e) => match loadout {
            Some(l) => {
                unequip(e, inventory, l);
                let action = if e == EquipSlot::Lantern {
                    UseAction::SnuffLantern
                } else {
                    UseAction::Nothing
                };
                (Some(InventoryUpdateEvent::Used), action)
            },
            None => (None, UseAction::Nothing),
        },
    }
}

/// Using an item that nothing uses up (an ingredient, or a collar that
/// tames no creature) puts it back onto its stack: the inventory is left as
/// it was.
pub proof fn lemma_use_without_effect_keeps_inventory(inv: Seq<Option<Item>>, i: int, facts: UseFacts)
    requires
        0 <= i < inv.len(),
        inv[i] matches Some(it) && !is_equippable(it.def.kind) && it.def.kind != ItemKind::Consumable
            && it.def.kind != ItemKind::Throwable && (it.def.kind == ItemKind::Utility ==> !tames(facts)),
    ensures
        used_from_inventory(inv, i, facts).2 == inv,
{
    lemma_take_then_stack(inv, i);
}

/// A pickup that is reported collected adds exactly the picked-up item to
/// the items the inventory holds.
pub proof fn lemma_pickup_adds_item(inv: Seq<Option<Item>>, item: Item)
    requires
        first_empty(inv) is Some,
    ensures
        items_of(inv.update(first_empty(inv)->0, Some(item))) == items_of(inv).insert(item),
{
    lemma_first_empty(inv);
    let k = first_empty(inv)->0;
    lemma_items_of_update(inv, k, Some(item));
    assert(opt_items(inv[k]) =~= Multiset::empty());
    assert(items_of(inv.update(k, Some(item))) =~= items_of(inv).insert(item));
}

/// Takes the item in `slot` out of the inventory or the loadout. The item
/// is returned, to be put into the world when the entity has a position,
/// and the drop is reported either way.
pub fn handle_drop(slot: Slot, inventory: Option<&mut Inventory>, loadout: Option<&mut Loadout>) -> (r: (
    Option<Item>,
    InventoryUpdateEvent,
))
    ensures
        r.1 == InventoryUpdateEvent::Dropped,
        match slot {
            Slot::Inventory(i) => {
                &&& inventory matches Some(iv) ==> (if i < iv@.len() {
                    r.0 == iv@[i as int] && final(iv)@ == iv@.update(i as int, None)
                } else {
                    r.0 is None && final(iv)@ == iv@
                })
                &&& inventory is None ==> r.0 is None
                &&& loadout matches Some(l) ==> final(l)@ == l@
            },
            Slot::Equip(e) => {
                &&& loadout matches Some(l) ==> r.0 == l@[slot_index(e)] && final(l)@ == l@.update(
                    slot_index(e),
                    None,
                )
                &&& loadout is None ==> r.0 is None
                &&& inventory matches Some(iv) ==> final(iv)@ == iv@
            },
        },
{
    let item = match slot {
        Slot::Inventory(i) => match inventory {
            Some(iv) => iv.remove(i),
            None => None,
        },
        Slot::Equip(e) => match loadout {
            Some(l) => loadout_remove(e, l),
            None => None,
        },
    };
    (item, InventoryUpdateEvent::Dropped)
}

/// Exchanges the contents of two slots (see `swap`) and reports it.
pub fn handle_swap(a: Slot, b: Slot, inventory: Option<&mut Inventory>, loadout: Option<&mut Loadout>) -> (r:
    InventoryUpdateEvent)
    ensures
        r == InventoryUpdateEvent::Swapped,
        match (a, b) {
            (Slot::Inventory(x), Slot::Inventory(y)) => (inventory matches Some(iv) ==> final(iv)@
                == inventory_swapped(x as int, y as int, iv@)) && (loadout matches Some(l) ==> final(l)@ == l@),
            (Slot::Inventory(i), Slot::Equip(e)) => (inventory matches Some(iv) ==> (loadout matches Some(l) ==> (
            final(iv)@, final(l)@) == inv_loadout_swapped(i as int, e, iv@, l@))) && (loadout is None ==> (inventory matches Some(
                iv,
            ) ==> final(iv)@ == iv@)) && (inventory is None ==> (loadout matches Some(l) ==> final(l)@ == l@)),
            (Slot::Equip(e), Slot::Inventory(i)) => (inventory matches Some(iv) ==> (loadout matches Some(l) ==> (
            final(iv)@, final(l)@) == inv_loadout_swapped(i as int, e, iv@, l@))) && (loadout is None ==> (inventory matches Some(
                iv,
            ) ==> final(iv)@ == iv@)) && (inventory is None ==> (loadout matches Some(l) ==> final(l)@ == l@)),
            (Slot::Equip(x), Slot::Equip(y)) => (loadout matches Some(l) ==> final(l)@ == loadout_swapped(x, y, l@))
                && (inventory matches Some(iv) ==> final(iv)@ == iv@),
        },
{
    swap(a, b, inventory, loadout);
    InventoryUpdateEvent::Swapped
}

/// Crafts the recipe named `recipe` from `inv`, when the book has it and the
/// inventory holds its ingredients: the ingredients are taken out and the
/// crafted item (made from them, as `Recipe::perform` makes it), with how
/// many of it to drop into the world, is returned along with the event to
/// report. Otherwise nothing changes.
pub fn handle_craft(inv: &mut Inventory, book: &RecipeBook, recipe: &str) -> (r: Option<
    (InventoryUpdateEvent, CraftedItem, u32),
>)
    ensures
        !book.view_map().contains_key(recipe@) ==> r is None && final(inv)@ == old(inv)@,
        book.view_map().contains_key(recipe@) ==> {
            let rec = book.view_map()[recipe@];
            &&& ingredient_claims(old(inv)@, rec.inputs).1.len() == 0 ==> (r matches Some((e, c, n)) && e
                == InventoryUpdateEvent::Craft && c.item == (Item { def: rec.output.0, amount: 1 })
                && c.components@ == crate::recipe::taken_components(
                old(inv)@,
                ingredient_claims(old(inv)@, rec.inputs).0,
                old(inv)@.len() as int,
            ) && n == rec.output.1) && final(inv)@ == crate::recipe::after_claims(old(inv)@, ingredient_claims(old(inv)@, rec.inputs).0)
            &&& ingredient_claims(old(inv)@, rec.inputs).1.len() > 0 ==> r is None && final(inv)@ == old(inv)@
        },
{
    match book.get(recipe) {
        Some(rec) => match rec.perform(inv) {
            Ok((item, amount)) => Some((InventoryUpdateEvent::Craft, item, amount)),
            Err(_) => None,
        },
        None => None,
    }
}

} // verus!
