use vstd::prelude::*;
use crate::inventory::Inventory;
use crate::item::{has_tag_spec, CraftedItem, Item, ItemDef};

verus! {

/// One ingredient of a recipe: a particular item, or any item with a tag.
#[derive(Clone, Copy, Debug, PartialEq, Eq, Structural)]
pub enum RecipeInput {
    Item(ItemDef),
    Tag(u32),
}

/// An ingredient as written in a recipe file: an item named by its asset
/// path, or a tag.
#[derive(Clone, Debug)]
pub enum RawRecipeInput {
    Item(String),
    Tag(u32),
}

/// A recipe: what it makes and how many, what it consumes (an amount of
/// zero means the ingredient must be present but is not consumed), and the
/// crafting station it needs, if any.
#[derive(Debug)]
pub struct Recipe {
    pub output: (ItemDef, u32),
    pub inputs: Vec<(RecipeInput, u32)>,
    pub craft_sprite: Option<u32>,
}

/// Why salvaging failed.
#[derive(Clone, Copy, Debug, PartialEq, Eq, Structural)]
pub enum SalvageError {
    NotSalvageable,
}

/// Whether `item` can serve as ingredient `input`.
pub open spec fn matches_input(item: Item, input: RecipeInput) -> bool {
    match input {
        RecipeInput::Item(def) => item.def.id == def.id,
        RecipeInput::Tag(tag) => has_tag_spec(item.def.tags, tag),
    }
}

/// Whether `item` can serve as ingredient `input`.
pub fn matches_recipe_input(item: &Item, input: &RecipeInput) -> (r: bool)
    ensures
        r == matches_input(*item, *input),
{
    match input {
        RecipeInput::Item(def) => item.def.id == def.id,
        RecipeInput::Tag(tag) => item.def.has_tag(*tag),
    }
}

/// Claims towards one ingredient, going through the slots from `j` on:
/// each matching slot gives as much as it has left, up to what is still
/// needed. Returns the new claims, what is still needed, and whether any
/// slot matched.
pub open spec fn claim_input(
    slots: Seq<Option<Item>>,
    claims: Seq<int>,
    input: RecipeInput,
    needed: int,
    j: int,
) -> (Seq<int>, int, bool)
    decreases slots.len() - j,
{
    if j >= slots.len() || j < 0 {
        (claims, needed, false)
    } else {
        match slots[j] {
            Some(it) => if matches_input(it, input) {
                let left = it.amount - claims[j];
                let can = if left < needed { left } else { needed };
                let r = claim_input(slots, claims.update(j, claims[j] + can), input, needed - can, j + 1);
                (r.0, r.1, true)
            } else {
                claim_input(slots, claims, input, needed, j + 1)
            },
            None => claim_input(slots, claims, input, needed, j + 1),
        }
    }
}

/// Claims for the ingredients `inputs`, taken in order, against the slots:
/// the amount claimed from each slot, and the ingredients that could not be
/// fully claimed (with the amount still missing). An ingredient with no
/// matching slot at all counts as missing, even when its amount is zero.
pub open spec fn ingredient_claims(slots: Seq<Option<Item>>, inputs: Seq<(RecipeInput, u32)>) -> (
    Seq<int>,
    Seq<(RecipeInput, u32)>,
)
    decreases inputs.len(),
{
    if inputs.len() == 0 {
        (Seq::new(slots.len(), |j: int| 0int), seq![])
    } else {
        let prev = ingredient_claims(slots, inputs.drop_last());
        let (input, amount) = inputs.last();
        let r = claim_input(slots, prev.0, input, amount as int, 0);
        if r.1 > 0 || !r.2 {
            (r.0, prev.1.push((input, r.1 as u32)))
        } else {
            (r.0, prev.1)
        }
    }
}

/// The slots once the claimed amounts are taken out: a stack loses what
/// was claimed from it, and disappears when all of it was claimed.
pub open spec fn after_claims(slots: Seq<Option<Item>>, claims: Seq<int>) -> Seq<Option<Item>> {
    Seq::new(
        slots.len(),
        |j: int|
            match slots[j] {
                Some(it) => if claims[j] == 0 {
                    Some(it)
                } else if claims[j] >= it.amount {
                    None
                } else {
                    Some(Item { def: it.def, amount: (it.amount - claims[j]) as u32 })
                },
                None => None,
            },
    )
}

/// Claims never exceed the stacks they are made against.
pub open spec fn claims_bounded(slots: Seq<Option<Item>>, claims: Seq<int>) -> bool {
    &&& claims.len() == slots.len()
    &&& forall|j: int|
        0 <= j < slots.len() ==> 0 <= #[trigger] claims[j] && match slots[j] {
            Some(it) => claims[j] <= it.amount,
            None => claims[j] == 0,
        }
}

proof fn lemma_claim_input_bounded(
    slots: Seq<Option<Item>>,
    claims: Seq<int>,
    input: RecipeInput,
    needed: int,
    j: int,
)
    requires
        claims_bounded(slots, claims),
        needed >= 0,
    ensures
        claims_bounded(slots, claim_input(slots, claims, input, needed, j).0),
        0 <= claim_input(slots, claims, input, needed, j).1 <= needed,
    decreases slots.len() - j,
{
    if j >= slots.len() || j < 0 {
    } else {
        match slots[j] {
            Some(it) => if matches_input(it, input) {
                let left = it.amount - claims[j];
                let can = if left < needed { left } else { needed };
                let c2 = claims.update(j, claims[j] + can);
                assert(claims_bounded(slots, c2));
                lemma_claim_input_bounded(slots, c2, input, needed - can, j + 1);
            } else {
                lemma_claim_input_bounded(slots, claims, input, needed, j + 1);
            },
            None => lemma_claim_input_bounded(slots, claims, input, needed, j + 1),
        }
    }
}

proof fn lemma_ingredient_claims_bounded(slots: Seq<Option<Item>>, inputs: Seq<(RecipeInput, u32)>)
    ensures
        claims_bounded(slots, ingredient_claims(slots, inputs).0),
    decreases inputs.len(),
{
    if inputs.len() == 0 {
    } else {
        lemma_ingredient_claims_bounded(slots, inputs.drop_last());
        let prev = ingredient_claims(slots, inputs.drop_last());
        let (input, amount) = inputs.last();
        lemma_claim_input_bounded(slots, prev.0, input, amount as int, 0);
    }
}

/// The sum of `c`.
pub open spec fn sum_of(c: Seq<int>) -> int
    decreases c.len(),
{
    if c.len() == 0 {
        0
    } else {
        sum_of(c.drop_last()) + c.last()
    }
}

/// How many items the slots hold, counting every stack in full.
pub open spec fn total_amount(slots: Seq<Option<Item>>) -> int
    decreases slots.len(),
{
    if slots.len() == 0 {
        0
    } else {
        total_amount(slots.drop_last()) + match slots.last() {
            Some(it) => it.amount as int,
            None => 0,
        }
    }
}

/// The sum of the amounts that the ingredients `inputs` call for.
pub open spec fn amounts_sum(inputs: Seq<(RecipeInput, u32)>) -> int
    decreases inputs.len(),
{
    if inputs.len() == 0 {
        0
    } else {
        amounts_sum(inputs.drop_last()) + inputs.last().1
    }
}

proof fn lemma_sum_update(c: Seq<int>, j: int, v: int)
    requires
        0 <= j < c.len(),
    ensures
        sum_of(c.update(j, v)) == sum_of(c) - c[j] + v,
    decreases c.len(),
{
    let u = c.update(j, v);
    if j == c.len() - 1 {
        assert(u.drop_last() =~= c.drop_last());
    } else {
        assert(u.drop_last() =~= c.drop_last().update(j, v));
        lemma_sum_update(c.drop_last(), j, v);
    }
}

proof fn lemma_sum_zeros(n: nat)
    ensures
        sum_of(Seq::new(n, |j: int| 0int)) == 0,
    decreases n,
{
    if n > 0 {
        assert(Seq::new(n, |j: int| 0int).drop_last() =~= Seq::new((n - 1) as nat, |j: int| 0int));
        lemma_sum_zeros((n - 1) as nat);
    }
}

/// Claiming towards one ingredient adds to the claims exactly what it
/// takes off the amount still needed.
proof fn lemma_claim_input_sum(
    slots: Seq<Option<Item>>,
    claims: Seq<int>,
    input: RecipeInput,
    needed: int,
    j: int,
)
    requires
        claims_bounded(slots, claims),
        needed >= 0,
    ensures
        sum_of(claim_input(slots, claims, input, needed, j).0) == sum_of(claims) + needed - claim_input(
            slots,
            claims,
            input,
            needed,
            j,
        ).1,
    decreases slots.len() - j,
{
    if j >= slots.len() || j < 0 {
    } else {
        match slots[j] {
            Some(it) => if matches_input(it, input) {
                let left = it.amount - claims[j];
                let can = if left < needed { left } else { needed };
                let c2 = claims.update(j, claims[j] + can);
                assert(claims_bounded(slots, c2));
                lemma_sum_update(claims, j, claims[j] + can);
                lemma_claim_input_sum(slots, c2, input, needed - can, j + 1);
            } else {
                lemma_claim_input_sum(slots, claims, input, needed, j + 1);
            },
            None => lemma_claim_input_sum(slots, claims, input, needed, j + 1),
        }
    }
}

/// When no ingredient is missing, the claims add up to the amounts the
/// recipe calls for.
proof fn lemma_claims_sum(slots: Seq<Option<Item>>, inputs: Seq<(RecipeInput, u32)>)
    requires
        ingredient_claims(slots, inputs).1.len() == 0,
    ensures
        sum_of(ingredient_claims(slots, inputs).0) == amounts_sum(inputs),
    decreases inputs.len(),
{
    if inputs.len() == 0 {
        lemma_sum_zeros(slots.len());
    } else {
        let prev = ingredient_claims(slots, inputs.drop_last());
        let (input, amount) = inputs.last();
        let r = claim_input(slots, prev.0, input, amount as int, 0);
        lemma_ingredient_claims_bounded(slots, inputs.drop_last());
        lemma_claim_input_bounded(slots, prev.0, input, amount as int, 0);
        assert(r.1 == 0 && r.2 && prev.1.len() == 0);
        lemma_claims_sum(slots, inputs.drop_last());
        lemma_claim_input_sum(slots, prev.0, input, amount as int, 0);
    }
}

/// Taking bounded claims out of the slots lowers the total held by the sum
/// of the claims.
proof fn lemma_after_claims_total(slots: Seq<Option<Item>>, claims: Seq<int>)
    requires
        claims_bounded(slots, claims),
    ensures
        total_amount(after_claims(slots, claims)) == total_amount(slots) - sum_of(claims),
    decreases slots.len(),
{
    if slots.len() > 0 {
        let n = slots.len() - 1;
        assert(after_claims(slots, claims).drop_last() =~= after_claims(slots.drop_last(), claims.drop_last()));
        assert(claims_bounded(slots.drop_last(), claims.drop_last()));
        lemma_after_claims_total(slots.drop_last(), claims.drop_last());
        assert(after_claims(slots, claims).last() == after_claims(slots, claims)[n]);
    }
}

/// Crafting consumes exactly what the recipe calls for: when no ingredient
/// is missing, taking the claimed ingredients leaves the inventory holding,
/// in all, the sum of the ingredient amounts fewer items, and the crafted
/// item is made from that many items.
pub proof fn lemma_perform_consumes_amounts(slots: Seq<Option<Item>>, inputs: Seq<(RecipeInput, u32)>)
    requires
        ingredient_claims(slots, inputs).1.len() == 0,
    ensures
        total_amount(slots) - total_amount(after_claims(slots, ingredient_claims(slots, inputs).0)) == amounts_sum(
            inputs,
        ),
        taken_components(slots, ingredient_claims(slots, inputs).0, slots.len() as int).len() == amounts_sum(inputs),
{
    lemma_claims_sum(slots, inputs);
    lemma_ingredient_claims_bounded(slots, inputs);
    lemma_after_claims_total(slots, ingredient_claims(slots, inputs).0);
    let claims = ingredient_claims(slots, inputs).0;
    lemma_taken_components_len(slots, claims, slots.len() as int);
    assert(claims.take(slots.len() as int) =~= claims);
}

proof fn lemma_taken_components_len(slots: Seq<Option<Item>>, claims: Seq<int>, n: int)
    requires
        0 <= n <= claims.len(),
        forall|j: int| 0 <= j < claims.len() ==> 0 <= #[trigger] claims[j],
    ensures
        taken_components(slots, claims, n).len() == sum_of(claims.take(n)),
    decreases n,
{
    if n > 0 {
        lemma_taken_components_len(slots, claims, n - 1);
        assert(claims.take(n).drop_last() =~= claims.take(n - 1));
        assert(claims.take(n).last() == claims[n - 1]);
    } else {
        assert(claims.take(0) =~= Seq::<int>::empty());
    }
}

impl Inventory {
    /// Works out which slots the ingredients of `recipe` would be taken
    /// from: the amount claimed from each slot, and the ingredients that
    /// are missing.
    pub fn ingredient_claims(&self, recipe: &Recipe) -> (r: (Vec<u32>, Vec<(RecipeInput, u32)>))
        ensures
            r.0@.len() == self@.len(),
            forall|j: int| 0 <= j < self@.len() ==> r.0@[j] as int == #[trigger] ingredient_claims(self@, recipe.inputs@).0[j],
            r.1@ == ingredient_claims(self@, recipe.inputs@).1,
    {
        let n = self.slots.len();
        let mut claims: Vec<u32> = Vec::new();
        let mut k: usize = 0;
        while k < n
            invariant
                k <= n,
                n == self@.len(),
                claims@.len() == k,
                forall|j: int| 0 <= j < k ==> claims@[j] == 0,
            decreases n - k,
        {
            claims.push(0);
            k = k + 1;
        }
        let mut missing: Vec<(RecipeInput, u32)> = Vec::new();
        let mut i: usize = 0;
        while i < recipe.inputs.len()
            invariant
                i <= recipe.inputs@.len(),
                n == self@.len(),
                claims@.len() == n,
                claims_bounded(self@, claims@.map_values(|c: u32| c as int)),
                claims@.map_values(|c: u32| c as int) == ingredient_claims(self@, recipe.inputs@.take(i as int)).0,
                missing@ == ingredient_claims(self@, recipe.inputs@.take(i as int)).1,
            decreases recipe.inputs@.len() - i,
        {
            proof {
                assert(recipe.inputs@.take(i + 1).drop_last() =~= recipe.inputs@.take(i as int));
                assert(recipe.inputs@.take(i + 1).last() == recipe.inputs@[i as int]);
                if i == 0 {
                    assert(claims@.map_values(|c: u32| c as int) =~= Seq::new(n as nat, |j: int| 0int));
                }
            }
            let (input, amount) = recipe.inputs[i];
            let ghost claims0 = claims@.map_values(|c: u32| c as int);
            let ghost total = claim_input(self@, claims0, input, amount as int, 0);
            let mut needed: u32 = amount;
            let mut contains_any = false;
            let mut j: usize = 0;
            while j < n
                invariant
                    j <= n,
                    n == self@.len(),
                    claims@.len() == n,
                    needed <= amount,
                    claims_bounded(self@, claims@.map_values(|c: u32| c as int)),
                    ({
                        let rest = claim_input(self@, claims@.map_values(|c: u32| c as int), input, needed as int, j as int);
                        rest.0 == total.0 && rest.1 == total.1 && (contains_any || rest.2) == total.2
                    }),
                decreases n - j,
            {
                let ghost cur = claims@.map_values(|c: u32| c as int);
                proof {
                    assert(cur[j as int] == claims@[j as int] as int);
                }
                match &self.slots[j] {
                    Some(item) => {
                        if matches_recipe_input(item, &input) {
                            let claim = claims[j];
                            let left = item.amount - claim;
                            let can = if left < needed { left } else { needed };
                            claims.set(j, claim + can);
                            needed = needed - can;
                            contains_any = true;
                            proof {
                                assert(claims@.map_values(|c: u32| c as int) =~= cur.update(j as int, cur[j as int] + can));
                            }
                        }
                    },
                    None => {},
                }
                j = j + 1;
            }
            proof {
                assert(claim_input(self@, claims@.map_values(|c: u32| c as int), input, needed as int, n as int) == (
                    claims@.map_values(|c: u32| c as int),
                    needed as int,
                    false,
                ));
                lemma_claim_input_bounded(self@, claims0, input, amount as int, 0);
            }
            if needed > 0 || !contains_any {
                missing.push((input, needed));
            }
            i = i + 1;
        }
        proof {
            assert(recipe.inputs@.take(recipe.inputs@.len() as int) =~= recipe.inputs@);
        }
        (claims, missing)
    }
}

/// The slots whose claim is positive, in slot order, with their claims.
pub open spec fn claimed_slots(claims: Seq<int>, n: int) -> Seq<(usize, u32)>
    decreases n,
{
    if n <= 0 {
        seq![]
    } else {
        let prev = claimed_slots(claims, n - 1);
        if claims[n - 1] > 0 {
            prev.push(((n - 1) as usize, claims[n - 1] as u32))
        } else {
            prev
        }
    }
}

/// What remains of slot content `slot` once `c` items are taken from it.
pub open spec fn after_taking(slot: Option<Item>, c: int) -> Option<Item> {
    match slot {
        Some(it) => if c == 0 {
            Some(it)
        } else if c >= it.amount {
            None
        } else {
            Some(Item { def: it.def, amount: (it.amount - c) as u32 })
        },
        None => None,
    }
}

/// The items that taking `claims[j]` items, one at a time, out of each of
/// the first `n` slots yields, slot by slot: single items of the kind each
/// slot holds.
pub open spec fn taken_components(slots: Seq<Option<Item>>, claims: Seq<int>, n: int) -> Seq<Item>
    decreases n,
{
    if n <= 0 {
        seq![]
    } else {
        taken_components(slots, claims, n - 1) + Seq::new(
            claims[n - 1] as nat,
            |t: int| Item { def: slots[n - 1]->0.def, amount: 1 },
        )
    }
}

/// Takes `count` items, one at a time, out of slot `i`, and appends each
/// taken item to `out`.
fn take_n(inv: &mut Inventory, i: usize, count: u32, out: &mut Vec<Item>)
    requires
        i < old(inv)@.len(),
        match old(inv)@[i as int] {
            Some(it) => count <= it.amount,
            None => count == 0,
        },
    ensures
        final(inv)@ == old(inv)@.update(i as int, after_taking(old(inv)@[i as int], count as int)),
        final(out)@ == old(out)@ + Seq::new(
            count as nat,
            |t: int| Item { def: old(inv)@[i as int]->0.def, amount: 1 },
        ),
{
    let ghost orig = inv@;
    let ghost orig_out = out@;
    let mut t: u32 = 0;
    while t < count
        invariant
            t <= count,
            i < orig.len(),
            match orig[i as int] {
                Some(it) => count <= it.amount,
                None => count == 0,
            },
            inv@ == orig.update(i as int, after_taking(orig[i as int], t as int)),
            out@ == orig_out + Seq::new(t as nat, |k: int| Item { def: orig[i as int]->0.def, amount: 1 }),
        decreases count - t,
    {
        let one = inv.take(i);
        match one {
            Some(x) => {
                out.push(x);
            },
            None => {},
        }
        t = t + 1;
        assert(inv@ =~= orig.update(i as int, after_taking(orig[i as int], t as int)));
        assert(out@ =~= orig_out + Seq::new(t as nat, |k: int| Item { def: orig[i as int]->0.def, amount: 1 }));
    }
    assert(inv@ =~= orig.update(i as int, after_taking(orig[i as int], count as int)));
}

impl Inventory {
    /// The slots that the ingredients of `recipe` would be taken from, with
    /// how much each gives; or the ingredients that are missing, with how
    /// much of each is missing.
    pub fn contains_ingredients(&self, recipe: &Recipe) -> (r: Result<Vec<(usize, u32)>, Vec<(RecipeInput, u32)>>)
        ensures
            match r {
                Ok(v) => ingredient_claims(self@, recipe.inputs@).1.len() == 0 && v@ == claimed_slots(
                    ingredient_claims(self@, recipe.inputs@).0,
                    self@.len() as int,
                ),
                Err(m) => ingredient_claims(self@, recipe.inputs@).1.len() > 0 && m@ == ingredient_claims(
                    self@,
                    recipe.inputs@,
                ).1,
            },
    {
        let (claims, missing) = self.ingredient_claims(recipe);
        if missing.len() > 0 {
            return Err(missing);
        }
        let ghost spec_claims = ingredient_claims(self@, recipe.inputs@).0;
        let mut out: Vec<(usize, u32)> = Vec::new();
        let mut j: usize = 0;
        while j < claims.len()
            invariant
                j <= claims@.len(),
                claims@.len() == self@.len(),
                forall|k: int| 0 <= k < self@.len() ==> claims@[k] as int == #[trigger] spec_claims[k],
                out@ == claimed_slots(spec_claims, j as int),
            decreases claims@.len() - j,
        {
            assert(claims@[j as int] as int == spec_claims[j as int]);
            if claims[j] > 0 {
                out.push((j, claims[j]));
            }
            j = j + 1;
        }
        Ok(out)
    }
}

impl Recipe {
    /// Crafts the recipe from `inv`: takes the claimed ingredients out of
    /// the inventory, one item at a time, and returns the crafted item,
    /// made from the items taken in the order they were taken, with the
    /// number made; or, leaving the inventory alone, returns the missing
    /// ingredients.
    pub fn perform(&self, inv: &mut Inventory) -> (r: Result<(CraftedItem, u32), Vec<(RecipeInput, u32)>>)
        ensures
            ingredient_claims(old(inv)@, self.inputs@).1.len() == 0 ==> (r matches Ok((c, n)) && c.item == (Item {
                def: self.output.0,
                amount: 1,
            }) && c.components@ == taken_components(
                old(inv)@,
                ingredient_claims(old(inv)@, self.inputs@).0,
                old(inv)@.len() as int,
            ) && n == self.output.1) && final(inv)@ == after_claims(
                old(inv)@,
                ingredient_claims(old(inv)@, self.inputs@).0,
            ),
            ingredient_claims(old(inv)@, self.inputs@).1.len() > 0 ==> (r matches Err(m) && m@ == ingredient_claims(
                old(inv)@,
                self.inputs@,
            ).1) && final(inv)@ == old(inv)@,
    {
        let ghost orig = inv@;
        let (claims, missing) = inv.ingredient_claims(self);
        if missing.len() > 0 {
            return Err(missing);
        }
        let ghost spec_claims = ingredient_claims(orig, self.inputs@).0;
        proof {
            lemma_ingredient_claims_bounded(orig, self.inputs@);
        }
        let n = claims.len();
        let mut components: Vec<Item> = Vec::new();
        let mut j: usize = 0;
        while j < n
            invariant
                j <= n,
                n == orig.len(),
                claims@.len() == n,
                claims_bounded(orig, spec_claims),
                forall|k: int| 0 <= k < n ==> claims@[k] as int == #[trigger] spec_claims[k],
                inv@.len() == n,
                forall|k: int| 0 <= k < n ==> #[trigger] inv@[k] == if k < j {
                    after_taking(orig[k], spec_claims[k])
                } else {
                    orig[k]
                },
                components@ == taken_components(orig, spec_claims, j as int),
            decreases n - j,
        {
            assert(claims@[j as int] as int == spec_claims[j as int]);
            assert(0 <= spec_claims[j as int]);
            assert(inv@[j as int] == orig[j as int]);
            take_n(inv, j, claims[j], &mut components);
            assert(components@ =~= taken_components(orig, spec_claims, j as int + 1));
            j = j + 1;
        }
        assert(inv@ =~= after_claims(orig, spec_claims));
        let crafted = CraftedItem::new(self.output.0, components);
        Ok((crafted, self.output.1))
    }

    /// The ingredients with their amounts.
    pub fn inputs(&self) -> (r: &Vec<(RecipeInput, u32)>)
        ensures
            r@ == self.inputs@,
    {
        &self.inputs
    }
}

/// The item in slot `slot` of `inv`, if the slot exists and holds one.
pub open spec fn slot_content(inv: Seq<Option<Item>>, slot: int) -> Option<Item> {
    if 0 <= slot < inv.len() {
        inv[slot]
    } else {
        None
    }
}

/// Salvages one item out of inventory slot `slot`: when the slot holds a
/// salvageable item, one of it is taken and the material it yields is
/// returned; otherwise nothing changes and the item is not salvageable.
pub fn try_salvage(inv: &mut Inventory, slot: usize) -> (r: Result<Vec<Item>, SalvageError>)
    ensures
        match slot_content(old(inv)@, slot as int) {
            Some(it) => match it.def.salvage_into {
                Some(m) => (r matches Ok(v) && v@ == seq![crate::item::salvage_item(m)]) && final(inv)@ == old(
                    inv,
                )@.update(slot as int, after_taking(Some(it), 1)),
                None => r == Err::<Vec<Item>, SalvageError>(SalvageError::NotSalvageable) && final(inv)@ == old(
                    inv,
                )@,
            },
            None => r == Err::<Vec<Item>, SalvageError>(SalvageError::NotSalvageable) && final(inv)@ == old(inv)@,
        },
{
    let salvageable = match inv.get(slot) {
        Some(item) => item.is_salvageable(),
        None => false,
    };
    if salvageable {
        let ghost orig = inv@;
        match inv.take(slot) {
            Some(salvage_item) => match salvage_item.try_salvage() {
                Ok(items) => {
                    assert(inv@ =~= orig.update(slot as int, after_taking(orig[slot as int], 1)));
                    Ok(items)
                },
                Err(item) => {
                    let _ = inv.push(item);
                    Err(SalvageError::NotSalvageable)
                },
            },
            None => Err(SalvageError::NotSalvageable),
        }
    } else {
        Err(SalvageError::NotSalvageable)
    }
}

} // verus!
