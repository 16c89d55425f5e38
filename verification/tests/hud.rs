use veloren_logic::hud::{bag_space_text, hp_values_text, level_text};
use veloren_logic::inventory::Inventory;
use veloren_logic::item::{Item, ItemDef, ItemKind};
use veloren_logic::hud::{ingredient_quantity, output_count_text, RecipeIngredientQuantity};
use veloren_logic::recipe::{Recipe, RecipeInput};
use veloren_logic::hud::{bar_fills, bar_texts, order_recipes, BarNumbers, BarText};

#[test]
fn level_text_caps_at_three_digits() {
    assert_eq!(level_text(1), "1");
    assert_eq!(level_text(999), "999");
    assert_eq!(level_text(1000), "A");
}

#[test]
fn hp_text_in_tenths_never_zero() {
    assert_eq!(hp_values_text(1000, 1000), "100/100");
    assert_eq!(hp_values_text(5, 1000), "1/100");
    assert_eq!(hp_values_text(0, 9), "1/0");
    assert_eq!(hp_values_text(u32::MAX, u32::MAX), "429496729/429496729");
}

#[test]
fn bag_space_counts_occupied_slots() {
    let it = Item { def: ItemDef { id: 1, kind: ItemKind::Ingredient, tags: 0, salvage_into: None }, amount: 3 };
    let inv = Inventory { slots: vec![Some(it), None, Some(it), None] };
    assert_eq!(inv.amount(), 2);
    assert_eq!(bag_space_text(&inv), "2/4");
    assert_eq!(bag_space_text(&Inventory::new_empty()), "0/18");
}


#[test]
fn crafting_list_classes() {
    let ore = ItemDef { id: 1, kind: ItemKind::Ingredient, tags: 0, salvage_into: None };
    let coal = ItemDef { id: 2, kind: ItemKind::Ingredient, tags: 0b10, salvage_into: None };
    let bar = ItemDef { id: 3, kind: ItemKind::Ingredient, tags: 0, salvage_into: None };
    let recipe = Recipe { output: (bar, 1), inputs: vec![(RecipeInput::Item(ore), 2), (RecipeInput::Tag(1), 0)], craft_sprite: None };
    let with_ore = Inventory { slots: vec![Some(Item { def: ore, amount: 1 })] };
    let with_coal = Inventory { slots: vec![None, Some(Item { def: coal, amount: 5 })] };
    assert_eq!(ingredient_quantity(&with_ore, &recipe, true), RecipeIngredientQuantity::All);
    assert_eq!(ingredient_quantity(&with_ore, &recipe, false), RecipeIngredientQuantity::Partial);
    // The coal matches only the ingredient that is not consumed.
    assert_eq!(ingredient_quantity(&with_coal, &recipe, false), RecipeIngredientQuantity::Nothing);
    assert!(RecipeIngredientQuantity::All < RecipeIngredientQuantity::Partial);
    assert_eq!(output_count_text(12), "x12");
}


fn text(t: &Option<(BarText, BarText)>) -> Option<(String, String, bool)> {
    t.as_ref().map(|(h, e)| match (h, e) {
        (BarText::Text(a), BarText::Text(b)) => (a.clone(), b.clone(), false),
        (BarText::Localized(a), BarText::Localized(b)) => (a.clone(), b.clone(), true),
        _ => panic!("mixed bar texts"),
    })
}

#[test]
fn skill_bar_texts_living_and_dead() {
    assert_eq!(text(&bar_texts(BarNumbers::Values, false, 735, 1000, 73, 42)), Some(("73/100".to_string(), "42".to_string(), false)));
    assert_eq!(text(&bar_texts(BarNumbers::Values, false, 3, 1000, 0, 0)), Some(("1/100".to_string(), "0".to_string(), false)));
    assert_eq!(text(&bar_texts(BarNumbers::Percent, false, 735, 1000, 73, 42)), Some(("73%".to_string(), "42".to_string(), false)));
    assert_eq!(
        text(&bar_texts(BarNumbers::Values, true, 0, 1000, 0, 0)),
        Some(("hud.group.dead".to_string(), "hud.group.dead".to_string(), true))
    );
    assert_eq!(
        text(&bar_texts(BarNumbers::Percent, true, 500, 1000, 50, 50)),
        Some(("hud.group.dead".to_string(), "hud.group.dead".to_string(), true))
    );
    assert!(bar_texts(BarNumbers::Off, true, 0, 1000, 0, 0).is_none());
}

#[test]
fn skill_bars_are_empty_when_dead() {
    assert_eq!(bar_fills(false, 700, 1000, 30, 100), ((700, 1000), (30, 100)));
    assert_eq!(bar_fills(true, 700, 1000, 30, 100), ((0, 1000), (0, 100)));
}

#[test]
fn crafting_list_order() {
    let classes = vec![
        RecipeIngredientQuantity::Nothing,
        RecipeIngredientQuantity::All,
        RecipeIngredientQuantity::Partial,
        RecipeIngredientQuantity::All,
        RecipeIngredientQuantity::All,
    ];
    let names: Vec<String> = vec!["Axe", "Sword", "Bow", "Apple", "Sword"].into_iter().map(String::from).collect();
    assert_eq!(order_recipes(&classes, &names), vec![3, 1, 4, 2, 0]);
    let names2: Vec<String> = vec!["ab", "a", "b", "ä", "B"].into_iter().map(String::from).collect();
    let all = vec![RecipeIngredientQuantity::All; 5];
    assert_eq!(order_recipes(&all, &names2), vec![4, 1, 0, 2, 3]);
}
