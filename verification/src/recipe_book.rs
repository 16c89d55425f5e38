use vstd::prelude::*;
use crate::inventory::Inventory;
use crate::item::ItemDef;
use crate::recipe::{ingredient_claims, RawRecipeInput, Recipe, RecipeInput};

verus! {

/// A recipe as a mathematical value.
pub struct RecipeModel {
    pub output: (ItemDef, u32),
    pub inputs: Seq<(RecipeInput, u32)>,
    pub craft_sprite: Option<u32>,
}

impl View for Recipe {
    type V = RecipeModel;

    open spec fn view(&self) -> RecipeModel {
        RecipeModel { output: self.output, inputs: self.inputs@, craft_sprite: self.craft_sprite }
    }
}

/// Whether every ingredient of a recipe with inputs `inputs` can be found in
/// the slots `slots`.
pub open spec fn craftable(slots: Seq<Option<crate::item::Item>>, inputs: Seq<(RecipeInput, u32)>) -> bool {
    ingredient_claims(slots, inputs).1.len() == 0
}

impl Recipe {
    /// A copy of the recipe.
    pub fn duplicate(&self) -> (r: Recipe)
        ensures
            r@ == self@,
    {
        let mut inputs: Vec<(RecipeInput, u32)> = Vec::new();
        let mut k: usize = 0;
        while k < self.inputs.len()
            invariant
                k <= self.inputs@.len(),
                inputs@ == self.inputs@.take(k as int),
            decreases self.inputs@.len() - k,
        {
            inputs.push(self.inputs[k]);
            k = k + 1;
            assert(inputs@ =~= self.inputs@.take(k as int));
        }
        assert(inputs@ =~= self.inputs@);
        Recipe { output: self.output, inputs, craft_sprite: self.craft_sprite }
    }
}

/// The map type behind `RecipeBook`.
pub type RecipeMap = hashbrown::HashMap<String, Recipe>;

/// What a `RecipeMap` holds: for each recipe name, the recipe.
pub uninterp spec fn recipe_contents(m: RecipeMap) -> Map<Seq<char>, RecipeModel>;

/// `hashbrown::HashMap::new`: an empty map.
#[verifier::external_body]
fn recipes_new() -> (r: RecipeMap)
    ensures
        recipe_contents(r) =~= Map::empty(),
{
    hashbrown::HashMap::new()
}

/// `hashbrown::HashMap::insert`: sets the recipe under `name`, replacing any
/// recipe of that name.
#[verifier::external_body]
fn recipes_insert(m: &mut RecipeMap, name: String, recipe: Recipe)
    ensures
        recipe_contents(*final(m)) == recipe_contents(*old(m)).insert(name@, recipe@),
{
    m.insert(name, recipe);
}

/// `hashbrown::HashMap::get`: the recipe named `name`, if any.
#[verifier::external_body]
fn recipes_get<'a>(m: &'a RecipeMap, name: &str) -> (r: Option<&'a Recipe>)
    ensures
        match r {
            Some(v) => recipe_contents(*m).contains_key(name@) && v@ == recipe_contents(*m)[name@],
            None => !recipe_contents(*m).contains_key(name@),
        },
{
    m.get(name)
}

/// `hashbrown::HashMap::keys`, collected: every recipe name, each once, in
/// the map's own order (which this says nothing about).
#[verifier::external_body]
fn recipe_names(m: &RecipeMap) -> (r: Vec<String>)
    ensures
        forall|i: int| 0 <= i < r@.len() ==> recipe_contents(*m).contains_key(#[trigger] r@[i]@),
        forall|k: Seq<char>| #[trigger] recipe_contents(*m).contains_key(k) ==> exists|i: int|
            0 <= i < r@.len() && r@[i]@ == k,
        forall|i: int, j: int| 0 <= i < j < r@.len() ==> r@[i]@ != r@[j]@,
{
    m.keys().cloned().collect()
}

/// A recipe as written in a recipe file: what it makes and the ingredients,
/// with items named by their asset paths.
pub struct RawRecipe {
    pub output: (String, u32),
    pub inputs: Vec<(RawRecipeInput, u32)>,
    pub craft_sprite: Option<u32>,
}

/// The known item definitions as (asset path, definition) pairs.
pub open spec fn defs_view(defs: Seq<(String, ItemDef)>) -> Seq<(Seq<char>, ItemDef)> {
    defs.map_values(|e: (String, ItemDef)| (e.0@, e.1))
}

/// The first definition filed under `name`, if any.
pub open spec fn find_def(defs: Seq<(Seq<char>, ItemDef)>, name: Seq<char>) -> Option<ItemDef>
    decreases defs.len(),
{
    if defs.len() == 0 {
        None
    } else {
        match find_def(defs.drop_last(), name) {
            Some(d) => Some(d),
            None => if defs.last().0 == name {
                Some(defs.last().1)
            } else {
                None
            },
        }
    }
}

/// An ingredient with its item looked up, or the path that is not known.
pub open spec fn resolve_input(defs: Seq<(Seq<char>, ItemDef)>, input: RawRecipeInput) -> Result<RecipeInput, Seq<char>> {
    match input {
        RawRecipeInput::Item(name) => match find_def(defs, name@) {
            Some(d) => Ok(RecipeInput::Item(d)),
            None => Err(name@),
        },
        RawRecipeInput::Tag(t) => Ok(RecipeInput::Tag(t)),
    }
}

/// The ingredients with their items looked up, in order; or the first
/// path that is not known.
pub open spec fn resolve_inputs(defs: Seq<(Seq<char>, ItemDef)>, inputs: Seq<(RawRecipeInput, u32)>) -> Result<
    Seq<(RecipeInput, u32)>,
    Seq<char>,
>
    decreases inputs.len(),
{
    if inputs.len() == 0 {
        Ok(seq![])
    } else {
        match resolve_inputs(defs, inputs.drop_last()) {
            Ok(prev) => match resolve_input(defs, inputs.last().0) {
                Ok(r) => Ok(prev.push((r, inputs.last().1))),
                Err(e) => Err(e),
            },
            Err(e) => Err(e),
        }
    }
}

/// The recipe a raw recipe stands for: ingredients are looked up first,
/// then the output; the first path that is not known is the error.
pub open spec fn recipe_from_raw_spec(defs: Seq<(Seq<char>, ItemDef)>, raw: RawRecipe) -> Result<RecipeModel, Seq<char>> {
    match resolve_inputs(defs, raw.inputs@) {
        Ok(inputs) => match find_def(defs, raw.output.0@) {
            Some(d) => Ok(RecipeModel { output: (d, raw.output.1), inputs, craft_sprite: raw.craft_sprite }),
            None => Err(raw.output.0@),
        },
        Err(e) => Err(e),
    }
}

fn find_def_exec(defs: &Vec<(String, ItemDef)>, name: &String) -> (r: Option<ItemDef>)
    ensures
        r == find_def(defs_view(defs@), name@),
{
    let ghost dv = defs_view(defs@);
    let mut k: usize = 0;
    while k < defs.len()
        invariant
            k <= defs@.len(),
            dv == defs_view(defs@),
            find_def(dv.take(k as int), name@) is None,
        decreases defs@.len() - k,
    {
        proof {
            assert(dv.take(k as int + 1).drop_last() =~= dv.take(k as int));
        }
        if defs[k].0 == *name {
            proof {
                assert(find_def(dv.take(k as int + 1), name@) == Some(defs@[k as int].1));
                lemma_find_def_prefix(dv, k as int + 1, name@);
            }
            return Some(defs[k].1);
        }
        k = k + 1;
    }
    assert(dv.take(defs@.len() as int) =~= dv);
    None
}

/// Once a prefix of the list has a definition for `name`, so has the list,
/// and it is the same one.
proof fn lemma_find_def_prefix(defs: Seq<(Seq<char>, ItemDef)>, n: int, name: Seq<char>)
    requires
        0 <= n <= defs.len(),
        find_def(defs.take(n), name) is Some,
    ensures
        find_def(defs, name) == find_def(defs.take(n), name),
    decreases defs.len() - n,
{
    if n < defs.len() {
        assert(defs.take(n + 1).drop_last() =~= defs.take(n));
        lemma_find_def_prefix(defs, n + 1, name);
    } else {
        assert(defs.take(n) =~= defs);
    }
}

/// Builds a recipe from its raw form, looking item paths up in `defs`;
/// returns the first path that `defs` does not know.
pub fn recipe_from_raw(raw: &RawRecipe, defs: &Vec<(String, ItemDef)>) -> (r: Result<Recipe, String>)
    ensures
        match recipe_from_raw_spec(defs_view(defs@), *raw) {
            Ok(m) => r matches Ok(rec) && rec@ == m,
            Err(e) => r matches Err(name) && name@ == e,
        },
{
    let ghost dv = defs_view(defs@);
    let mut inputs: Vec<(RecipeInput, u32)> = Vec::new();
    let mut k: usize = 0;
    while k < raw.inputs.len()
        invariant
            k <= raw.inputs@.len(),
            dv == defs_view(defs@),
            resolve_inputs(dv, raw.inputs@.take(k as int)) == Ok::<Seq<(RecipeInput, u32)>, Seq<char>>(inputs@),
        decreases raw.inputs@.len() - k,
    {
        proof {
            assert(raw.inputs@.take(k as int + 1).drop_last() =~= raw.inputs@.take(k as int));
        }
        let amount = raw.inputs[k].1;
        match &raw.inputs[k].0 {
            RawRecipeInput::Item(name) => match find_def_exec(defs, name) {
                Some(d) => {
                    inputs.push((RecipeInput::Item(d), amount));
                },
                None => {
                    proof {
                        lemma_resolve_inputs_err(dv, raw.inputs@, k as int + 1);
                    }
                    return Err(name.clone());
                },
            },
            RawRecipeInput::Tag(t) => {
                inputs.push((RecipeInput::Tag(*t), amount));
            },
        }
        k = k + 1;
    }
    assert(raw.inputs@.take(raw.inputs@.len() as int) =~= raw.inputs@);
    match find_def_exec(defs, &raw.output.0) {
        Some(d) => Ok(Recipe { output: (d, raw.output.1), inputs, craft_sprite: raw.craft_sprite }),
        None => Err(raw.output.0.clone()),
    }
}

/// Once a prefix of the ingredients fails to resolve, the whole list fails
/// the same way.
proof fn lemma_resolve_inputs_err(defs: Seq<(Seq<char>, ItemDef)>, inputs: Seq<(RawRecipeInput, u32)>, n: int)
    requires
        0 <= n <= inputs.len(),
        resolve_inputs(defs, inputs.take(n)) is Err,
    ensures
        resolve_inputs(defs, inputs) == resolve_inputs(defs, inputs.take(n)),
    decreases inputs.len() - n,
{
    if n < inputs.len() {
        assert(inputs.take(n + 1).drop_last() =~= inputs.take(n));
        lemma_resolve_inputs_err(defs, inputs, n + 1);
    } else {
        assert(inputs.take(n) =~= inputs);
    }
}

/// The named recipes of a recipe file with their items looked up, in
/// order; or the first path that is not known.
pub open spec fn resolve_entries(defs: Seq<(Seq<char>, ItemDef)>, raws: Seq<(String, RawRecipe)>) -> Result<
    Seq<(Seq<char>, RecipeModel)>,
    Seq<char>,
>
    decreases raws.len(),
{
    if raws.len() == 0 {
        Ok(seq![])
    } else {
        match resolve_entries(defs, raws.drop_last()) {
            Ok(prev) => match recipe_from_raw_spec(defs, raws.last().1) {
                Ok(m) => Ok(prev.push((raws.last().0@, m))),
                Err(e) => Err(e),
            },
            Err(e) => Err(e),
        }
    }
}

proof fn lemma_resolve_entries_err(defs: Seq<(Seq<char>, ItemDef)>, raws: Seq<(String, RawRecipe)>, n: int)
    requires
        0 <= n <= raws.len(),
        resolve_entries(defs, raws.take(n)) is Err,
    ensures
        resolve_entries(defs, raws) == resolve_entries(defs, raws.take(n)),
    decreases raws.len() - n,
{
    if n < raws.len() {
        assert(raws.take(n + 1).drop_last() =~= raws.take(n));
        lemma_resolve_entries_err(defs, raws, n + 1);
    } else {
        assert(raws.take(n) =~= raws);
    }
}

/// Named recipes as mathematical values.
pub open spec fn entries_view(v: Seq<(String, Recipe)>) -> Seq<(Seq<char>, RecipeModel)> {
    v.map_values(|e: (String, Recipe)| (e.0@, e.1@))
}

/// The book that collecting `entries` in order gives: a later recipe of a
/// name replaces an earlier one.
pub open spec fn book_of(entries: Seq<(Seq<char>, RecipeModel)>) -> Map<Seq<char>, RecipeModel>
    decreases entries.len(),
{
    if entries.len() == 0 {
        Map::empty()
    } else {
        book_of(entries.drop_last()).insert(entries.last().0, entries.last().1)
    }
}

/// A book made from a list of named recipes knows exactly the names in the
/// list, and under each name the last recipe given for it.
pub proof fn lemma_book_keeps_last(entries: Seq<(Seq<char>, RecipeModel)>, i: int, k: Seq<char>)
    ensures
        0 <= i < entries.len() && (forall|j: int| i < j < entries.len() ==> entries[j].0 != entries[i].0)
            ==> book_of(entries).contains_key(entries[i].0) && book_of(entries)[entries[i].0] == entries[i].1,
        (forall|j: int| 0 <= j < entries.len() ==> entries[j].0 != k) ==> !book_of(entries).contains_key(k),
    decreases entries.len(),
{
    if entries.len() > 0 {
        lemma_book_keeps_last(entries.drop_last(), i, k);
        if 0 <= i < entries.len() - 1 && (forall|j: int| i < j < entries.len() ==> entries[j].0 != entries[i].0) {
            assert(entries.last().0 != entries[i].0);
            assert(forall|j: int| i < j < entries.len() - 1 ==> entries.drop_last()[j].0 != entries.drop_last()[i].0);
        }
        if forall|j: int| 0 <= j < entries.len() ==> entries[j].0 != k {
            assert(entries.last().0 != k);
        }
    }
}

/// The recipes known to the game, by name.
pub struct RecipeBook {
    recipes: RecipeMap,
}

impl RecipeBook {
    /// For each recipe name, its recipe.
    pub closed spec fn view_map(&self) -> Map<Seq<char>, RecipeModel> {
        recipe_contents(self.recipes)
    }

    /// The book of `recipes`, taken in order: where a name comes twice, the
    /// later recipe is kept.
    pub fn from_recipes(recipes: Vec<(String, Recipe)>) -> (b: RecipeBook)
        ensures
            b.view_map() == book_of(entries_view(recipes@)),
    {
        let ghost entries = entries_view(recipes@);
        let ghost orig = recipes@;
        let mut map = recipes_new();
        let mut rest = recipes;
        let n = rest.len();
        let mut k: usize = 0;
        assert(entries.take(0) =~= Seq::<(Seq<char>, RecipeModel)>::empty());
        while k < n
            invariant
                k <= n,
                n == orig.len(),
                entries == entries_view(orig),
                rest@ == orig.skip(k as int),
                recipe_contents(map) == book_of(entries.take(k as int)),
            decreases n - k,
        {
            let (name, recipe) = rest.remove(0);
            proof {
                assert(entries.take(k as int + 1).drop_last() =~= entries.take(k as int));
                assert(rest@ =~= orig.skip(k as int + 1));
            }
            recipes_insert(&mut map, name, recipe);
            k = k + 1;
        }
        assert(entries.take(n as int) =~= entries);
        RecipeBook { recipes: map }
    }

    /// The book a recipe file describes: each recipe with its item paths
    /// looked up in `defs` (a later recipe of a name replaces an earlier
    /// one); or the first path, in file order, that `defs` does not know.
    pub fn from_raw(raw: &Vec<(String, RawRecipe)>, defs: &Vec<(String, ItemDef)>) -> (r: Result<RecipeBook, String>)
        ensures
            match resolve_entries(defs_view(defs@), raw@) {
                Ok(entries) => r matches Ok(b) && b.view_map() == book_of(entries),
                Err(e) => r matches Err(name) && name@ == e,
            },
    {
        let ghost dv = defs_view(defs@);
        let mut recipes: Vec<(String, Recipe)> = Vec::new();
        let mut k: usize = 0;
        assert(raw@.take(0) =~= Seq::<(String, RawRecipe)>::empty());
        assert(entries_view(recipes@) =~= Seq::<(Seq<char>, RecipeModel)>::empty());
        while k < raw.len()
            invariant
                k <= raw@.len(),
                recipes@.len() == k,
                dv == defs_view(defs@),
                resolve_entries(dv, raw@.take(k as int)) == Ok::<Seq<(Seq<char>, RecipeModel)>, Seq<char>>(
                    entries_view(recipes@),
                ),
            decreases raw@.len() - k,
        {
            proof {
                assert(raw@.take(k as int + 1).drop_last() =~= raw@.take(k as int));
            }
            match recipe_from_raw(&raw[k].1, defs) {
                Ok(recipe) => {
                    let ghost before = recipes@;
                    recipes.push((raw[k].0.clone(), recipe));
                    proof {
                        assert(entries_view(recipes@) =~= entries_view(before).push(
                            (raw@[k as int].0@, recipes@[k as int].1@),
                        ));
                    }
                },
                Err(name) => {
                    proof {
                        lemma_resolve_entries_err(dv, raw@, k as int + 1);
                    }
                    return Err(name);
                },
            }
            k = k + 1;
        }
        assert(raw@.take(raw@.len() as int) =~= raw@);
        Ok(RecipeBook::from_recipes(recipes))
    }

    /// The recipe named `recipe`, if any.
    pub fn get(&self, recipe: &str) -> (r: Option<&Recipe>)
        ensures
            match r {
                Some(v) => self.view_map().contains_key(recipe@) && v@ == self.view_map()[recipe@],
                None => !self.view_map().contains_key(recipe@),
            },
    {
        recipes_get(&self.recipes, recipe)
    }

    /// Every recipe with its name, each once, in no particular order.
    pub fn iter(&self) -> (r: Vec<(String, Recipe)>)
        ensures
            forall|i: int| 0 <= i < r@.len() ==> self.view_map().contains_key(#[trigger] r@[i].0@)
                && r@[i].1@ == self.view_map()[r@[i].0@],
            forall|k: Seq<char>| #[trigger] self.view_map().contains_key(k) ==> exists|i: int|
                0 <= i < r@.len() && r@[i].0@ == k,
            forall|i: int, j: int| 0 <= i < j < r@.len() ==> r@[i].0@ != r@[j].0@,
    {
        let names = recipe_names(&self.recipes);
        let mut out: Vec<(String, Recipe)> = Vec::new();
        let mut k: usize = 0;
        while k < names.len()
            invariant
                k <= names@.len(),
                out@.len() == k,
                forall|i: int| 0 <= i < names@.len() ==> self.view_map().contains_key(#[trigger] names@[i]@),
                forall|i: int, j: int| 0 <= i < j < names@.len() ==> names@[i]@ != names@[j]@,
                forall|i: int| 0 <= i < k ==> (#[trigger] out@[i]).0@ == names@[i]@
                    && out@[i].1@ == self.view_map()[names@[i]@],
            decreases names@.len() - k,
        {
            let name = &names[k];
            match recipes_get(&self.recipes, name.as_str()) {
                Some(recipe) => {
                    out.push((name.clone(), recipe.duplicate()));
                },
                None => {
                    assert(false);
                },
            }
            k = k + 1;
        }
        assert forall|k2: Seq<char>| #[trigger] self.view_map().contains_key(k2) implies exists|i: int|
            0 <= i < out@.len() && out@[i].0@ == k2 by {
            let i = choose|i: int| 0 <= i < names@.len() && names@[i]@ == k2;
            assert(out@[i].0@ == k2);
        }
        out
    }

    /// The recipes that can be crafted from `inv`, with their names, each
    /// once, in no particular order.
    pub fn get_available(&self, inv: &Inventory) -> (r: Vec<(String, Recipe)>)
        ensures
            forall|i: int| 0 <= i < r@.len() ==> self.view_map().contains_key(#[trigger] r@[i].0@)
                && r@[i].1@ == self.view_map()[r@[i].0@] && craftable(inv@, r@[i].1@.inputs),
            forall|k: Seq<char>| #[trigger] self.view_map().contains_key(k) && craftable(
                inv@,
                self.view_map()[k].inputs,
            ) ==> exists|i: int| 0 <= i < r@.len() && r@[i].0@ == k,
            forall|i: int, j: int| 0 <= i < j < r@.len() ==> r@[i].0@ != r@[j].0@,
    {
        let names = recipe_names(&self.recipes);
        let mut out: Vec<(String, Recipe)> = Vec::new();
        let ghost mut picked: Seq<int> = Seq::empty();
        let mut k: usize = 0;
        while k < names.len()
            invariant
                k <= names@.len(),
                forall|i: int| 0 <= i < names@.len() ==> self.view_map().contains_key(#[trigger] names@[i]@),
                forall|i: int, j: int| 0 <= i < j < names@.len() ==> names@[i]@ != names@[j]@,
                picked.len() == out@.len(),
                forall|i: int| 0 <= i < picked.len() ==> 0 <= #[trigger] picked[i] < k,
                forall|i: int, j: int| 0 <= i < j < picked.len() ==> picked[i] < picked[j],
                forall|i: int| 0 <= i < out@.len() ==> (#[trigger] out@[i]).0@ == names@[picked[i]]@
                    && out@[i].1@ == self.view_map()[names@[picked[i]]@]
                    && craftable(inv@, out@[i].1@.inputs),
                forall|m: int| 0 <= m < k && #[trigger] craftable(inv@, self.view_map()[names@[m]@].inputs)
                    ==> exists|i: int| 0 <= i < picked.len() && picked[i] == m,
            decreases names@.len() - k,
        {
            let name = &names[k];
            let ghost old_picked = picked;
            match recipes_get(&self.recipes, name.as_str()) {
                Some(recipe) => {
                    if inv.contains_ingredients(recipe).is_ok() {
                        out.push((name.clone(), recipe.duplicate()));
                        proof {
                            picked = picked.push(k as int);
                        }
                    }
                },
                None => {
                    assert(false);
                },
            }
            proof {
                assert forall|m: int| 0 <= m < k + 1 && #[trigger] craftable(inv@, self.view_map()[names@[m]@].inputs)
                    implies exists|i: int| 0 <= i < picked.len() && picked[i] == m by {
                    if m == k {
                        assert(picked[picked.len() - 1] == m);
                    } else {
                        let i = choose|i: int| 0 <= i < old_picked.len() && old_picked[i] == m;
                        assert(picked[i] == m);
                    }
                }
            }
            k = k + 1;
        }
        assert forall|i: int, j: int| 0 <= i < j < out@.len() implies out@[i].0@ != out@[j].0@ by {
            assert(picked[i] < picked[j]);
        }
        assert forall|k2: Seq<char>| #[trigger] self.view_map().contains_key(k2) && craftable(
            inv@,
            self.view_map()[k2].inputs,
        ) implies exists|i: int| 0 <= i < out@.len() && out@[i].0@ == k2 by {
            let m = choose|m: int| 0 <= m < names@.len() && names@[m]@ == k2;
            assert(craftable(inv@, self.view_map()[names@[m]@].inputs));
            let i = choose|i: int| 0 <= i < picked.len() && picked[i] == m;
            assert(out@[i].0@ == k2);
        }
        out
    }
}

} // verus!
