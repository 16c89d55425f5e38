use veloren_logic::inventory::Inventory;
use veloren_logic::inventory_manip::{
    handle_collect, handle_craft, handle_drop, handle_pickup, handle_swap, handle_use, InventoryUpdateEvent,
    UseAction, UseFacts,
};
use veloren_logic::item::{CraftedItem, Item, ItemDef, ItemKind};
use veloren_logic::recipe::{Recipe, RecipeInput};
use veloren_logic::recipe_book::RecipeBook;
use veloren_logic::slot::{loadout_insert, EquipSlot, Loadout, Slot};

fn item(id: u64, kind: ItemKind, amount: u32) -> Item {
    Item { def: ItemDef { id, kind, tags: 0, salvage_into: None }, amount }
}

fn facts(has_position: bool, owned_pets: u64, tameable_nearby: bool) -> UseFacts {
    UseFacts { has_position, owned_pets, tameable_nearby }
}

#[test]
fn pickup_needs_range_and_life() {
    let apple = item(1, ItemKind::Consumable, 1);
    let mut inv = Inventory { slots: vec![None] };
    assert_eq!(handle_pickup(&mut inv, apple, false, false), None);
    assert_eq!(handle_pickup(&mut inv, apple, true, true), None);
    assert_eq!(inv.slots, vec![None]);
    assert_eq!(handle_pickup(&mut inv, apple, true, false), Some(InventoryUpdateEvent::Collected(apple)));
    assert_eq!(inv.slots, vec![Some(apple)]);
    assert_eq!(handle_pickup(&mut inv, apple, true, false), Some(InventoryUpdateEvent::CollectFailed));
}

#[test]
fn collect_empties_the_block_only_when_the_item_fits() {
    let ore = item(2, ItemKind::Ingredient, 1);
    let mut inv = Inventory { slots: vec![None] };
    assert_eq!(handle_collect(Some(&mut inv), Some(ore), true, true), (Some(InventoryUpdateEvent::Collected(ore)), true));
    assert_eq!(handle_collect(Some(&mut inv), Some(ore), true, true), (Some(InventoryUpdateEvent::CollectFailed), false));
    assert_eq!(handle_collect(Some(&mut inv), Some(ore), false, true), (None, false));
    assert_eq!(handle_collect(Some(&mut inv), None, true, true), (None, false));
    assert_eq!(handle_collect(None, Some(ore), true, true), (None, false));
}

#[test]
fn using_a_consumable_takes_one() {
    let potion = item(3, ItemKind::Consumable, 2);
    let mut inv = Inventory { slots: vec![Some(potion)] };
    let r = handle_use(Slot::Inventory(0), &mut inv, None, facts(true, 0, false));
    assert_eq!(r, (Some(InventoryUpdateEvent::Consumed(3)), UseAction::ApplyEffects(item(3, ItemKind::Consumable, 1))));
    assert_eq!(inv.slots, vec![Some(item(3, ItemKind::Consumable, 1))]);
}

#[test]
fn using_an_ingredient_changes_nothing() {
    let ore = item(2, ItemKind::Ingredient, 4);
    let mut inv = Inventory { slots: vec![Some(ore)] };
    assert_eq!(handle_use(Slot::Inventory(0), &mut inv, None, facts(true, 0, true)), (None, UseAction::Nothing));
    assert_eq!(inv.slots, vec![Some(ore)]);
}

#[test]
fn collar_tames_only_with_room_and_a_creature() {
    let collar = item(4, ItemKind::Utility, 1);
    let mut inv = Inventory { slots: vec![Some(collar)] };
    assert_eq!(
        handle_use(Slot::Inventory(0), &mut inv, None, facts(true, 3, true)),
        (Some(InventoryUpdateEvent::Used), UseAction::Nothing)
    );
    assert_eq!(inv.slots, vec![Some(collar)]);
    assert_eq!(
        handle_use(Slot::Inventory(0), &mut inv, None, facts(true, 2, true)),
        (Some(InventoryUpdateEvent::Used), UseAction::Tame)
    );
    assert_eq!(inv.slots, vec![None]);
}

#[test]
fn throwables_fly_only_from_a_position() {
    let bomb = item(5, ItemKind::Throwable, 2);
    let mut inv = Inventory { slots: vec![Some(bomb)] };
    let one = item(5, ItemKind::Throwable, 1);
    assert_eq!(
        handle_use(Slot::Inventory(0), &mut inv, None, facts(false, 0, false)),
        (Some(InventoryUpdateEvent::Used), UseAction::Nothing)
    );
    assert_eq!(
        handle_use(Slot::Inventory(0), &mut inv, None, facts(true, 0, false)),
        (Some(InventoryUpdateEvent::Used), UseAction::Throw(one))
    );
    assert_eq!(inv.slots, vec![None]);
}

#[test]
fn using_a_lantern_equips_it_and_unequipping_snuffs_it() {
    let lantern = item(6, ItemKind::Lantern, 1);
    let mut inv = Inventory { slots: vec![Some(lantern)] };
    let mut loadout = Loadout::new_empty();
    assert_eq!(
        handle_use(Slot::Inventory(0), &mut inv, Some(&mut loadout), facts(true, 0, false)),
        (Some(InventoryUpdateEvent::Used), UseAction::SwapLantern(lantern))
    );
    assert_eq!(loadout.get(EquipSlot::Lantern), Some(lantern));
    assert_eq!(inv.slots, vec![None]);
    assert_eq!(
        handle_use(Slot::Equip(EquipSlot::Lantern), &mut inv, Some(&mut loadout), facts(true, 0, false)),
        (Some(InventoryUpdateEvent::Used), UseAction::SnuffLantern)
    );
    assert_eq!(inv.slots, vec![Some(lantern)]);
    assert_eq!(handle_use(Slot::Inventory(0), &mut inv, None, facts(true, 0, false)), (None, UseAction::Nothing));
}

#[test]
fn drop_takes_the_whole_stack() {
    let ore = item(2, ItemKind::Ingredient, 4);
    let sword = item(7, ItemKind::Tool, 1);
    let mut inv = Inventory { slots: vec![Some(ore)] };
    let mut loadout = Loadout::new_empty();
    loadout_insert(EquipSlot::Mainhand, sword, &mut loadout);
    assert_eq!(handle_drop(Slot::Inventory(0), Some(&mut inv), Some(&mut loadout)), (Some(ore), InventoryUpdateEvent::Dropped));
    assert_eq!(inv.slots, vec![None]);
    assert_eq!(
        handle_drop(Slot::Equip(EquipSlot::Mainhand), Some(&mut inv), Some(&mut loadout)),
        (Some(sword), InventoryUpdateEvent::Dropped)
    );
    assert_eq!(loadout.get(EquipSlot::Mainhand), None);
    assert_eq!(handle_drop(Slot::Inventory(3), Some(&mut inv), None), (None, InventoryUpdateEvent::Dropped));
}

#[test]
fn swap_reports_swapped() {
    let ore = item(2, ItemKind::Ingredient, 4);
    let mut inv = Inventory { slots: vec![Some(ore), None] };
    assert_eq!(handle_swap(Slot::Inventory(0), Slot::Inventory(1), Some(&mut inv), None), InventoryUpdateEvent::Swapped);
    assert_eq!(inv.slots, vec![None, Some(ore)]);
}

#[test]
fn craft_by_name() {
    let ore_def = ItemDef { id: 2, kind: ItemKind::Ingredient, tags: 0, salvage_into: None };
    let bar_def = ItemDef { id: 9, kind: ItemKind::Ingredient, tags: 0, salvage_into: None };
    let recipe = Recipe { output: (bar_def, 2), inputs: vec![(RecipeInput::Item(ore_def), 3)], craft_sprite: None };
    let book = RecipeBook::from_recipes(vec![("bar".to_string(), recipe)]);
    let mut inv = Inventory { slots: vec![Some(Item { def: ore_def, amount: 4 })] };
    assert_eq!(handle_craft(&mut inv, &book, "nothing"), None);
    let one_ore = Item { def: ore_def, amount: 1 };
    assert_eq!(
        handle_craft(&mut inv, &book, "bar"),
        Some((
            InventoryUpdateEvent::Craft,
            CraftedItem { item: Item { def: bar_def, amount: 1 }, components: vec![one_ore, one_ore, one_ore] },
            2
        ))
    );
    assert_eq!(inv.slots, vec![Some(Item { def: ore_def, amount: 1 })]);
    assert_eq!(handle_craft(&mut inv, &book, "bar"), None);
    assert_eq!(inv.slots, vec![Some(Item { def: ore_def, amount: 1 })]);
}
