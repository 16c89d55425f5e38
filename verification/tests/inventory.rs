use veloren_logic::inventory::Inventory;
use veloren_logic::item::{Item, ItemDef, ItemKind};

fn item(id: u64, amount: u32) -> Item {
    Item { def: ItemDef { id, kind: ItemKind::Ingredient, tags: 0, salvage_into: None }, amount }
}

#[test]
fn new_empty_has_eighteen_slots() {
    let inv = Inventory::new_empty();
    assert_eq!(inv.slots.len(), 18);
    assert!(inv.slots.iter().all(|s| s.is_none()));
}

#[test]
fn push_fills_the_first_empty_slot_and_refuses_when_full() {
    let mut inv = Inventory { slots: vec![Some(item(1, 1)), None, None] };
    assert_eq!(inv.push(item(2, 1)), None);
    assert_eq!(inv.slots, vec![Some(item(1, 1)), Some(item(2, 1)), None]);
    assert_eq!(inv.push(item(3, 1)), None);
    assert_eq!(inv.push(item(4, 1)), Some(item(4, 1)));
    assert_eq!(inv.slots.len(), 3);
}

#[test]
fn take_splits_one_off_a_stack() {
    let mut inv = Inventory { slots: vec![Some(item(1, 3)), Some(item(2, 1)), None] };
    assert_eq!(inv.take(0), Some(item(1, 1)));
    assert_eq!(inv.slots[0], Some(item(1, 2)));
    assert_eq!(inv.take(1), Some(item(2, 1)));
    assert_eq!(inv.slots[1], None);
    assert_eq!(inv.take(2), None);
    assert_eq!(inv.take(9), None);
}

#[test]
fn take_then_stack_restores() {
    let mut inv = Inventory { slots: vec![Some(item(1, 3))] };
    let one = inv.take(0).unwrap();
    assert_eq!(inv.insert_or_stack(0, one), Ok(None));
    assert_eq!(inv.slots, vec![Some(item(1, 3))]);
}

#[test]
fn insert_or_stack_cases() {
    let mut inv = Inventory { slots: vec![Some(item(1, 2)), None, Some(item(5, u32::MAX))] };
    assert_eq!(inv.insert_or_stack(0, item(1, 3)), Ok(None));
    assert_eq!(inv.slots[0], Some(item(1, 5)));
    assert_eq!(inv.insert_or_stack(0, item(2, 1)), Ok(Some(item(1, 5))));
    assert_eq!(inv.slots[0], Some(item(2, 1)));
    assert_eq!(inv.insert_or_stack(1, item(3, 1)), Ok(None));
    assert_eq!(inv.insert_or_stack(2, item(5, 1)), Err(item(5, 1)));
    assert_eq!(inv.slots[2], Some(item(5, u32::MAX)));
    assert_eq!(inv.insert_or_stack(7, item(6, 1)), Err(item(6, 1)));
}

#[test]
fn insert_remove_get_and_swap() {
    let mut inv = Inventory::with_slots(2);
    assert_eq!(inv.insert(1, item(7, 1)), Ok(None));
    assert_eq!(inv.insert(1, item(8, 1)), Ok(Some(item(7, 1))));
    assert_eq!(inv.insert(2, item(9, 1)), Err(item(9, 1)));
    assert_eq!(inv.get(1), Some(&item(8, 1)));
    assert_eq!(inv.get(5), None);
    inv.swap_slots(0, 1);
    assert_eq!(inv.slots, vec![Some(item(8, 1)), None]);
    assert_eq!(inv.remove(0), Some(item(8, 1)));
    assert_eq!(inv.remove(0), None);
}
