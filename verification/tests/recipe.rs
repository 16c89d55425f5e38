use veloren_logic::inventory::Inventory;
use veloren_logic::item::{Item, ItemDef, ItemKind};
use veloren_logic::recipe::{try_salvage, Recipe, RecipeInput, SalvageError};
use veloren_logic::recipe_book::RecipeBook;
use veloren_logic::recipe::RawRecipeInput;
use veloren_logic::recipe_book::{recipe_from_raw, RawRecipe};

fn def(id: u64, tags: u64) -> ItemDef {
    ItemDef { id, kind: ItemKind::Ingredient, tags, salvage_into: None }
}

fn stack(d: ItemDef, amount: u32) -> Item {
    Item { def: d, amount }
}

fn sword_recipe() -> Recipe {
    let sword = ItemDef { id: 100, kind: ItemKind::Tool, tags: 0, salvage_into: Some(1) };
    Recipe {
        output: (sword, 1),
        inputs: vec![(RecipeInput::Item(def(1, 0)), 3), (RecipeInput::Tag(2), 1)],
        craft_sprite: None,
    }
}

#[test]
fn perform_takes_ingredients_and_returns_output() {
    let mut inv = Inventory {
        slots: vec![Some(stack(def(1, 0), 2)), Some(stack(def(7, 0b100), 1)), Some(stack(def(1, 0), 2))],
    };
    let r = sword_recipe().perform(&mut inv);
    let (crafted, amount) = r.unwrap();
    assert_eq!(crafted.item.def.id, 100);
    assert_eq!(crafted.item.amount, 1);
    assert_eq!(amount, 1);
    // Made from the items taken, slot by slot, one at a time.
    assert_eq!(
        crafted.components,
        vec![stack(def(1, 0), 1), stack(def(1, 0), 1), stack(def(7, 0b100), 1), stack(def(1, 0), 1)]
    );
    assert_eq!(inv.slots, vec![None, None, Some(stack(def(1, 0), 1))]);
}

#[test]
fn perform_reports_missing_and_leaves_inventory() {
    let start = vec![Some(stack(def(1, 0), 2)), None];
    let mut inv = Inventory { slots: start.clone() };
    let r = sword_recipe().perform(&mut inv);
    let missing = r.unwrap_err();
    assert_eq!(missing, vec![(RecipeInput::Item(def(1, 0)), 1), (RecipeInput::Tag(2), 1)]);
    assert_eq!(inv.slots, start);
}

#[test]
fn inputs_lists_the_ingredients() {
    let r = sword_recipe();
    assert_eq!(r.inputs(), &vec![(RecipeInput::Item(def(1, 0)), 3), (RecipeInput::Tag(2), 1)]);
}

#[test]
fn contains_ingredients_names_the_slots() {
    let inv = Inventory {
        slots: vec![Some(stack(def(1, 0), 2)), Some(stack(def(7, 0b100), 1)), Some(stack(def(1, 0), 2))],
    };
    assert_eq!(inv.contains_ingredients(&sword_recipe()), Ok(vec![(0, 2), (1, 1), (2, 1)]));
}

#[test]
fn salvage_yields_material_and_takes_one() {
    let sword = ItemDef { id: 100, kind: ItemKind::Tool, tags: 0, salvage_into: Some(5) };
    let mut inv = Inventory { slots: vec![Some(stack(sword, 2)), Some(stack(def(1, 0), 1))] };
    let out = try_salvage(&mut inv, 0).ok().unwrap();
    assert_eq!(out.len(), 1);
    assert_eq!(out[0].def.id, 5);
    assert_eq!(out[0].amount, 1);
    assert_eq!(inv.slots[0], Some(stack(sword, 1)));
    assert!(matches!(try_salvage(&mut inv, 1), Err(SalvageError::NotSalvageable)));
    assert!(matches!(try_salvage(&mut inv, 9), Err(SalvageError::NotSalvageable)));
    assert_eq!(inv.slots[1], Some(stack(def(1, 0), 1)));
}

#[test]
fn recipe_book_lookup_and_availability() {
    let plank = Recipe { output: (def(50, 0), 4), inputs: vec![(RecipeInput::Item(def(1, 0)), 1)], craft_sprite: None };
    let book = RecipeBook::from_recipes(vec![
        ("sword".to_string(), sword_recipe()),
        ("plank".to_string(), plank),
    ]);
    assert_eq!(book.get("plank").unwrap().output.1, 4);
    assert!(book.get("shield").is_none());
    assert_eq!(book.iter().len(), 2);

    let inv = Inventory { slots: vec![Some(stack(def(1, 0), 1))] };
    let available = book.get_available(&inv);
    let names: Vec<String> = available.iter().map(|(n, _)| n.clone()).collect();
    assert_eq!(names, vec!["plank".to_string()]);
}

#[test]
fn recipe_book_keeps_the_later_recipe_of_a_name() {
    let a = Recipe { output: (def(50, 0), 1), inputs: vec![], craft_sprite: None };
    let b = Recipe { output: (def(51, 0), 2), inputs: vec![], craft_sprite: Some(3) };
    let book = RecipeBook::from_recipes(vec![("x".to_string(), a), ("x".to_string(), b)]);
    let got = book.get("x").unwrap();
    assert_eq!(got.output.0.id, 51);
    assert_eq!(got.craft_sprite, Some(3));
    assert_eq!(book.iter().len(), 1);
}


fn defs() -> Vec<(String, ItemDef)> {
    vec![
        ("common.items.ore".to_string(), def(1, 0)),
        ("common.items.bar".to_string(), def(2, 0)),
        ("common.items.ore".to_string(), def(99, 0)),
    ]
}

#[test]
fn raw_recipes_resolve_their_item_paths() {
    let raw = RawRecipe {
        output: ("common.items.bar".to_string(), 2),
        inputs: vec![(RawRecipeInput::Item("common.items.ore".to_string()), 3), (RawRecipeInput::Tag(4), 1)],
        craft_sprite: Some(7),
    };
    let r = recipe_from_raw(&raw, &defs()).ok().unwrap();
    assert_eq!(r.output, (def(2, 0), 2));
    assert_eq!(r.inputs, vec![(RecipeInput::Item(def(1, 0)), 3), (RecipeInput::Tag(4), 1)]);
    assert_eq!(r.craft_sprite, Some(7));
}

#[test]
fn raw_recipes_report_the_first_unknown_path() {
    let raw = RawRecipe {
        output: ("common.items.missing_output".to_string(), 1),
        inputs: vec![
            (RawRecipeInput::Tag(4), 1),
            (RawRecipeInput::Item("common.items.missing_input".to_string()), 1),
        ],
        craft_sprite: None,
    };
    assert_eq!(recipe_from_raw(&raw, &defs()).err(), Some("common.items.missing_input".to_string()));
    let raw2 = RawRecipe { output: ("common.items.missing_output".to_string(), 1), inputs: vec![], craft_sprite: None };
    assert_eq!(recipe_from_raw(&raw2, &defs()).err(), Some("common.items.missing_output".to_string()));

    let good = RawRecipe { output: ("common.items.bar".to_string(), 1), inputs: vec![], craft_sprite: None };
    let book = RecipeBook::from_raw(&vec![("bar".to_string(), good)], &defs()).ok().unwrap();
    assert_eq!(book.get("bar").unwrap().output.0.id, 2);
    let bad = RawRecipe { output: ("nowhere".to_string(), 1), inputs: vec![], craft_sprite: None };
    assert_eq!(RecipeBook::from_raw(&vec![("x".to_string(), bad)], &defs()).err(), Some("nowhere".to_string()));
}
