use veloren_logic::inventory::Inventory;
use veloren_logic::item::{ArmorKind, Item, ItemDef, ItemKind};
use veloren_logic::slot::{
    equip, loadout_insert, loadout_remove, loadout_replace, swap, swap_loadout, unequip, ArmorSlot, EquipSlot,
    Loadout, Slot,
};

fn def(id: u64, kind: ItemKind) -> ItemDef {
    ItemDef { id, kind, tags: 0, salvage_into: None }
}

fn sword() -> Item {
    Item::new_from_item_def(def(10, ItemKind::Tool))
}

fn test_boots() -> Item {
    Item::new_from_item_def(def(20, ItemKind::Armor(ArmorKind::Foot)))
}

fn sandals() -> Item {
    Item::new_from_item_def(def(21, ItemKind::Armor(ArmorKind::Foot)))
}

fn default_loadout() -> Loadout {
    let mut l = Loadout::new_empty();
    loadout_insert(EquipSlot::Armor(ArmorSlot::Feet), sandals(), &mut l);
    l
}

#[test]
fn test_unequip_items_both_hands() {
    let mut inv = Inventory { slots: vec![None] };
    let mut loadout = default_loadout();
    loadout_insert(EquipSlot::Mainhand, sword(), &mut loadout);
    loadout_insert(EquipSlot::Offhand, sword(), &mut loadout);

    assert_eq!(Some(sword()), loadout.get(EquipSlot::Mainhand));
    unequip(EquipSlot::Mainhand, &mut inv, &mut loadout);
    // There is room in the inventory, so the main hand is emptied.
    assert_eq!(None, loadout.get(EquipSlot::Mainhand));

    unequip(EquipSlot::Offhand, &mut inv, &mut loadout);
    // The inventory is full now, so the off hand keeps its sword.
    assert_eq!(Some(sword()), loadout.get(EquipSlot::Offhand));

    assert_eq!(inv.slots[0], Some(sword()));
    assert_eq!(inv.slots.len(), 1);
}

#[test]
fn test_equip_item() {
    let boots = Some(test_boots());
    let starting_sandals = Some(sandals());
    let mut inv = Inventory { slots: vec![boots] };
    let mut loadout = default_loadout();

    assert_eq!(starting_sandals, loadout.get(EquipSlot::Armor(ArmorSlot::Feet)));
    equip(0, &mut inv, &mut loadout);
    assert_eq!(boots, loadout.get(EquipSlot::Armor(ArmorSlot::Feet)));

    assert_eq!(inv.slots[0], starting_sandals);
    assert_eq!(inv.slots.len(), 1);
}

#[test]
fn test_loadout_replace() {
    let boots = Some(test_boots());
    let starting_sandals = Some(sandals());
    let mut loadout = default_loadout();

    assert_eq!(starting_sandals, loadout.get(EquipSlot::Armor(ArmorSlot::Feet)));
    assert_eq!(
        starting_sandals,
        loadout_replace(EquipSlot::Armor(ArmorSlot::Feet), boots, &mut loadout)
    );
    assert_eq!(boots, loadout.get(EquipSlot::Armor(ArmorSlot::Feet)));
}

#[test]
fn test_loadout_remove() {
    let mut loadout = default_loadout();
    loadout_insert(EquipSlot::Mainhand, sword(), &mut loadout);

    assert_eq!(Some(sword()), loadout_remove(EquipSlot::Mainhand, &mut loadout));
    assert_eq!(None, loadout.get(EquipSlot::Mainhand));
}

#[test]
fn equipping_a_tool_moves_the_main_hand_to_the_off_hand() {
    let axe = Item::new_from_item_def(def(11, ItemKind::Tool));
    let mut inv = Inventory { slots: vec![Some(axe), None] };
    let mut loadout = Loadout::new_empty();
    loadout_insert(EquipSlot::Mainhand, sword(), &mut loadout);
    equip(0, &mut inv, &mut loadout);
    assert_eq!(loadout.get(EquipSlot::Mainhand), Some(axe));
    assert_eq!(loadout.get(EquipSlot::Offhand), Some(sword()));
    assert_eq!(inv.slots, vec![None, None]);
}

#[test]
fn equipping_an_ingredient_changes_nothing() {
    let ore = Item::new_from_item_def(def(30, ItemKind::Ingredient));
    let mut inv = Inventory { slots: vec![Some(ore)] };
    let mut loadout = default_loadout();
    equip(0, &mut inv, &mut loadout);
    assert_eq!(inv.slots, vec![Some(ore)]);
    assert_eq!(loadout.get(EquipSlot::Armor(ArmorSlot::Feet)), Some(sandals()));
}

#[test]
fn swap_refuses_an_item_the_slot_cannot_hold() {
    let mut inv = Inventory { slots: vec![Some(sword())] };
    let mut loadout = default_loadout();
    swap(
        Slot::Inventory(0),
        Slot::Equip(EquipSlot::Armor(ArmorSlot::Feet)),
        Some(&mut inv),
        Some(&mut loadout),
    );
    assert_eq!(inv.slots, vec![Some(sword())]);
    assert_eq!(loadout.get(EquipSlot::Armor(ArmorSlot::Feet)), Some(sandals()));
}

#[test]
fn swap_exchanges_matching_slots_and_twice_restores() {
    let mut inv = Inventory { slots: vec![Some(test_boots())] };
    let mut loadout = default_loadout();
    let feet = Slot::Equip(EquipSlot::Armor(ArmorSlot::Feet));
    swap(Slot::Inventory(0), feet, Some(&mut inv), Some(&mut loadout));
    assert_eq!(inv.slots, vec![Some(sandals())]);
    assert_eq!(loadout.get(EquipSlot::Armor(ArmorSlot::Feet)), Some(test_boots()));
    swap(Slot::Inventory(0), feet, Some(&mut inv), Some(&mut loadout));
    assert_eq!(inv.slots, vec![Some(test_boots())]);
    assert_eq!(loadout.get(EquipSlot::Armor(ArmorSlot::Feet)), Some(sandals()));
}

#[test]
fn swap_between_hands_and_inventory_slots() {
    let mut loadout = Loadout::new_empty();
    loadout_insert(EquipSlot::Mainhand, sword(), &mut loadout);
    swap_loadout(EquipSlot::Mainhand, EquipSlot::Offhand, &mut loadout);
    assert_eq!(loadout.get(EquipSlot::Mainhand), None);
    assert_eq!(loadout.get(EquipSlot::Offhand), Some(sword()));

    let mut inv = Inventory { slots: vec![Some(sword()), None, Some(test_boots())] };
    swap(Slot::Inventory(0), Slot::Inventory(2), Some(&mut inv), None);
    assert_eq!(inv.slots, vec![Some(test_boots()), None, Some(sword())]);
}

#[test]
fn slots_accept_only_their_kinds() {
    assert!(EquipSlot::Armor(ArmorSlot::Feet).can_hold(&ItemKind::Armor(ArmorKind::Foot)));
    assert!(!EquipSlot::Armor(ArmorSlot::Feet).can_hold(&ItemKind::Armor(ArmorKind::Head)));
    assert!(EquipSlot::Mainhand.can_hold(&ItemKind::Tool));
    assert!(!EquipSlot::Lantern.can_hold(&ItemKind::Tool));
    assert!(Slot::Inventory(3).can_hold(&ItemKind::Ingredient));
    assert!(ArmorSlot::Hands.can_hold(&ArmorKind::Hand));
    assert!(!ArmorSlot::Hands.can_hold(&ArmorKind::Ring));
}

#[test]
fn doc_loadout_remove_empties_the_main_hand() {
    let mut loadout = default_loadout();
    loadout_insert(EquipSlot::Mainhand, sword(), &mut loadout);
    loadout_remove(EquipSlot::Mainhand, &mut loadout);
    assert_eq!(None, loadout.get(EquipSlot::Mainhand));
}

#[test]
fn doc_equip_puts_boots_on_the_feet() {
    let boots = test_boots();
    let mut inv = Inventory::new_empty();
    inv.push(boots);
    let mut loadout = default_loadout();
    equip(0, &mut inv, &mut loadout);
    assert_eq!(Some(boots), loadout.get(EquipSlot::Armor(ArmorSlot::Feet)));
}

#[test]
fn doc_unequip_moves_the_sword_into_the_inventory() {
    let mut inv = Inventory::new_empty();
    let mut loadout = default_loadout();
    loadout_insert(EquipSlot::Mainhand, sword(), &mut loadout);
    unequip(EquipSlot::Mainhand, &mut inv, &mut loadout);
    assert_eq!(None, loadout.get(EquipSlot::Mainhand));
    assert_eq!(inv.slots[0], Some(sword()));
}
