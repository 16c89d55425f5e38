use vstd::prelude::*;
use vstd::string::{StrSliceExecFns, StringExecFns};
use crate::inventory::{occupied, Inventory};
use crate::text::{decimal, push_decimal};
use crate::recipe::{matches_input, matches_recipe_input, Recipe, RecipeInput};
use crate::item::Item;

verus! {

/// How a character's level is shown: in decimal up to 999, as "A" above.
pub open spec fn level_text_spec(level: u32) -> Seq<char> {
    if level > 999 {
        "A"@
    } else {
        decimal(level as nat)
    }
}

/// The level shown on the skill bar.
pub fn level_text(level: u32) -> (r: String)
    ensures
        r@ == level_text_spec(level),
{
    if level > 999 {
        String::from_str("A")
    } else {
        let mut s = String::new();
        push_decimal(&mut s, level as u128);
        assert(s@ =~= decimal(level as nat));
        s
    }
}

/// The health shown on the skill bar: current and maximum in tenths, the
/// current never below one for a living character.
pub open spec fn hp_values_text_spec(current: u32, maximum: u32) -> Seq<char> {
    let shown = if current / 10 > 1 { current / 10 } else { 1 };
    decimal(shown as nat) + "/"@ + decimal((maximum / 10) as nat)
}

/// The health text of the skill bar when values are shown.
pub fn hp_values_text(current: u32, maximum: u32) -> (r: String)
    ensures
        r@ == hp_values_text_spec(current, maximum),
{
    let shown = if current / 10 > 1 { current / 10 } else { 1 };
    let mut s = String::new();
    push_decimal(&mut s, shown as u128);
    s.append("/");
    push_decimal(&mut s, (maximum / 10) as u128);
    assert(s@ =~= hp_values_text_spec(current, maximum));
    s
}

/// How full the bag is: occupied slots over all slots.
pub open spec fn bag_space_text_spec(inv: Seq<Option<crate::item::Item>>) -> Seq<char> {
    decimal(occupied(inv)) + "/"@ + decimal(inv.len())
}

/// The bag's fill text.
pub fn bag_space_text(inventory: &Inventory) -> (r: String)
    ensures
        r@ == bag_space_text_spec(inventory@),
{
    let used = inventory.amount();
    let max = inventory.slots.len();
    let mut s = String::new();
    push_decimal(&mut s, used as u128);
    s.append("/");
    push_decimal(&mut s, max as u128);
    assert(s@ =~= bag_space_text_spec(inventory@));
    s
}

/// How much of a recipe's ingredients an inventory holds, in the order the
/// crafting window lists recipes: craftable ones first.
#[derive(Clone, Copy, Debug, PartialEq, Eq, PartialOrd, Ord, Hash, Structural)]
pub enum RecipeIngredientQuantity {
    All,
    Partial,
    Nothing,
}

/// Whether some slot of `inv` holds an item that can serve as `input`.
pub open spec fn holds_some(inv: Seq<Option<Item>>, input: RecipeInput) -> bool {
    exists|j: int| 0 <= j < inv.len() && ((#[trigger] inv[j]) matches Some(it) && matches_input(it, input))
}

/// The quantity class of a recipe with ingredients `inputs` for `inv`:
/// all, when the recipe can be crafted; some, when the inventory holds a
/// match for an ingredient that is consumed; none otherwise.
pub open spec fn ingredient_quantity_spec(inv: Seq<Option<Item>>, inputs: Seq<(RecipeInput, u32)>, available: bool) -> RecipeIngredientQuantity {
    if available {
        RecipeIngredientQuantity::All
    } else if exists|i: int| 0 <= i < inputs.len() && (#[trigger] inputs[i]).1 > 0 && holds_some(inv, inputs[i].0) {
        RecipeIngredientQuantity::Partial
    } else {
        RecipeIngredientQuantity::Nothing
    }
}

fn inventory_holds(inv: &Inventory, input: &RecipeInput) -> (r: bool)
    ensures
        r == holds_some(inv@, *input),
{
    let mut j: usize = 0;
    while j < inv.slots.len()
        invariant
            j <= inv@.len(),
            forall|m: int| 0 <= m < j ==> !((#[trigger] inv@[m]) matches Some(it) && matches_input(it, *input)),
        decreases inv@.len() - j,
    {
        match &inv.slots[j] {
            Some(it) => {
                if matches_recipe_input(it, input) {
                    assert(inv@[j as int] matches Some(x) && matches_input(x, *input));
                    return true;
                }
            },
            None => {},
        }
        j = j + 1;
    }
    false
}

/// Classifies `recipe` for the crafting list; `available` tells whether it
/// is among the recipes that can be crafted now.
pub fn ingredient_quantity(inv: &Inventory, recipe: &Recipe, available: bool) -> (r: RecipeIngredientQuantity)
    ensures
        r == ingredient_quantity_spec(inv@, recipe.inputs@, available),
{
    if available {
        return RecipeIngredientQuantity::All;
    }
    let mut i: usize = 0;
    while i < recipe.inputs.len()
        invariant
            !available,
            i <= recipe.inputs@.len(),
            forall|m: int| 0 <= m < i ==> !((#[trigger] recipe.inputs@[m]).1 > 0 && holds_some(inv@, recipe.inputs@[m].0)),
        decreases recipe.inputs@.len() - i,
    {
        let (input, amount) = recipe.inputs[i];
        if amount > 0 && inventory_holds(inv, &input) {
            assert(recipe.inputs@[i as int].1 > 0 && holds_some(inv@, recipe.inputs@[i as int].0));
            return RecipeIngredientQuantity::Partial;
        }
        i = i + 1;
    }
    RecipeIngredientQuantity::Nothing
}

/// How many items a recipe makes, as the crafting window shows it.
pub fn output_count_text(count: u32) -> (r: String)
    ensures
        r@ == "x"@ + decimal(count as nat),
{
    let mut s = String::from_str("x");
    push_decimal(&mut s, count as u128);
    s
}

/// Which numbers the skill bar shows on its bars.
#[derive(Clone, Copy, Debug, PartialEq, Eq, Structural)]
pub enum BarNumbers {
    Off,
    Values,
    Percent,
}

/// A text on a bar: written out, or a localisation key to look up.
#[derive(Clone, Debug)]
pub enum BarText {
    Text(String),
    Localized(String),
}

/// A bar text as a mathematical value.
pub enum BarTextView {
    Text(Seq<char>),
    Localized(Seq<char>),
}

impl View for BarText {
    type V = BarTextView;

    open spec fn view(&self) -> BarTextView {
        match self {
            BarText::Text(s) => BarTextView::Text(s@),
            BarText::Localized(k) => BarTextView::Localized(k@),
        }
    }
}

/// The localisation key of the text shown for a dead character.
pub open spec fn dead_key() -> Seq<char> {
    "hud.group.dead"@
}

/// What the skill bar shows on its health and energy bars: nothing with
/// numbers off; for a dead character the dead text on both; otherwise, with
/// values, the health in tenths (never below one) over its maximum, and with
/// percentages the health percentage with a percent sign; the energy
/// percentage either way. The percentages come truncated to whole numbers.
pub open spec fn bar_texts_spec(
    bar_numbers: BarNumbers,
    is_dead: bool,
    health_current: u32,
    health_maximum: u32,
    hp_percent: u32,
    energy_percent: u32,
) -> Option<(BarTextView, BarTextView)> {
    match bar_numbers {
        BarNumbers::Off => None,
        _ => if is_dead {
            Some((BarTextView::Localized(dead_key()), BarTextView::Localized(dead_key())))
        } else {
            Some(
                (
                    BarTextView::Text(
                        if bar_numbers == BarNumbers::Values {
                            hp_values_text_spec(health_current, health_maximum)
                        } else {
                            decimal(hp_percent as nat) + "%"@
                        },
                    ),
                    BarTextView::Text(decimal(energy_percent as nat)),
                ),
            )
        },
    }
}

/// The texts on the skill bar's health and energy bars; see
/// `bar_texts_spec`.
pub fn bar_texts(
    bar_numbers: BarNumbers,
    is_dead: bool,
    health_current: u32,
    health_maximum: u32,
    hp_percent: u32,
    energy_percent: u32,
) -> (r: Option<(BarText, BarText)>)
    ensures
        match bar_texts_spec(bar_numbers, is_dead, health_current, health_maximum, hp_percent, energy_percent) {
            Some((h, e)) => r matches Some((rh, re)) && rh@ == h && re@ == e,
            None => r is None,
        },
{
    match bar_numbers {
        BarNumbers::Off => None,
        _ => {
            if is_dead {
                Some((BarText::Localized(String::from_str("hud.group.dead")), BarText::Localized(String::from_str("hud.group.dead"))))
            } else {
                let hp = if bar_numbers == BarNumbers::Values {
                    hp_values_text(health_current, health_maximum)
                } else {
                    let mut s = String::new();
                    push_decimal(&mut s, hp_percent as u128);
                    s.append("%");
                    assert(s@ =~= decimal(hp_percent as nat) + "%"@);
                    s
                };
                let mut e = String::new();
                push_decimal(&mut e, energy_percent as u128);
                assert(e@ =~= decimal(energy_percent as nat));
                Some((BarText::Text(hp), BarText::Text(e)))
            }
        },
    }
}

/// How full the skill bar's health and energy bars are drawn, as
/// (filled, whole) fractions: empty for a dead character, else current over
/// maximum.
pub fn bar_fills(is_dead: bool, health_current: u32, health_maximum: u32, energy_current: u32, energy_maximum: u32) -> (r: (
    (u32, u32),
    (u32, u32),
))
    ensures
        r == (if is_dead {
            ((0u32, health_maximum), (0u32, energy_maximum))
        } else {
            ((health_current, health_maximum), (energy_current, energy_maximum))
        }),
{
    if is_dead {
        ((0, health_maximum), (0, energy_maximum))
    } else {
        ((health_current, health_maximum), (energy_current, energy_maximum))
    }
}

/// Where a class stands in the crafting list: craftable first.
pub open spec fn class_rank(c: RecipeIngredientQuantity) -> int {
    match c {
        RecipeIngredientQuantity::All => 0,
        RecipeIngredientQuantity::Partial => 1,
        RecipeIngredientQuantity::Nothing => 2,
    }
}

/// Whether text `a` comes before text `b`: compared character by
/// character by code point, a proper prefix first.
pub open spec fn text_lt(a: Seq<char>, b: Seq<char>) -> bool
    decreases a.len(),
{
    if a.len() == 0 {
        b.len() > 0
    } else if b.len() == 0 {
        false
    } else if a[0] != b[0] {
        (a[0] as int) < (b[0] as int)
    } else {
        text_lt(a.drop_first(), b.drop_first())
    }
}

/// Of two different texts, one comes before the other.
pub proof fn lemma_text_lt_total(a: Seq<char>, b: Seq<char>)
    requires
        a != b,
    ensures
        text_lt(a, b) || text_lt(b, a),
    decreases a.len(),
{
    if a.len() == 0 && b.len() == 0 {
        assert(a =~= b);
    } else if a.len() == 0 || b.len() == 0 {
    } else if a[0] != b[0] {
        assert((a[0] as int) != (b[0] as int));
    } else {
        if a.drop_first() =~= b.drop_first() {
            assert(a.len() == b.len());
            assert forall|i: int| 0 <= i < a.len() implies a[i] == b[i] by {
                if i > 0 {
                    assert(a[i] == a.drop_first()[i - 1]);
                    assert(b[i] == b.drop_first()[i - 1]);
                }
            }
            assert(a =~= b);
        }
        lemma_text_lt_total(a.drop_first(), b.drop_first());
    }
}

/// The text of each name.
pub open spec fn names_view(names: Seq<String>) -> Seq<Seq<char>> {
    names.map_values(|n: String| n@)
}

/// Whether entry `i` of a crafting list comes before entry `j`: by class,
/// then by the display name of what it makes, then by position.
pub open spec fn entry_lt(classes: Seq<RecipeIngredientQuantity>, names: Seq<Seq<char>>, i: int, j: int) -> bool {
    class_rank(classes[i]) < class_rank(classes[j]) || (class_rank(classes[i]) == class_rank(classes[j]) && (
    text_lt(names[i], names[j]) || (names[i] == names[j] && i < j)))
}

proof fn lemma_entry_lt_total(classes: Seq<RecipeIngredientQuantity>, names: Seq<Seq<char>>, i: int, j: int)
    requires
        i != j,
    ensures
        entry_lt(classes, names, i, j) || entry_lt(classes, names, j, i),
{
    if names[i] != names[j] {
        lemma_text_lt_total(names[i], names[j]);
    }
}

fn text_less(a: &str, b: &str) -> (r: bool)
    ensures
        r == text_lt(a@, b@),
{
    let la = a.unicode_len();
    let lb = b.unicode_len();
    let mut k: usize = 0;
    assert(a@.skip(0) =~= a@);
    assert(b@.skip(0) =~= b@);
    while k < la && k < lb
        invariant
            la == a@.len(),
            lb == b@.len(),
            k <= la,
            k <= lb,
            text_lt(a@, b@) == text_lt(a@.skip(k as int), b@.skip(k as int)),
        decreases la - k,
    {
        let ca = a.get_char(k);
        let cb = b.get_char(k);
        proof {
            assert(a@.skip(k as int)[0] == ca);
            assert(b@.skip(k as int)[0] == cb);
            assert(a@.skip(k as int).drop_first() =~= a@.skip(k as int + 1));
            assert(b@.skip(k as int).drop_first() =~= b@.skip(k as int + 1));
        }
        if ca != cb {
            return ca < cb;
        }
        k = k + 1;
    }
    k < lb
}

fn entry_less(classes: &Vec<RecipeIngredientQuantity>, names: &Vec<String>, i: usize, j: usize) -> (r: bool)
    requires
        i < classes@.len(),
        j < classes@.len(),
        classes@.len() == names@.len(),
    ensures
        r == entry_lt(classes@, names_view(names@), i as int, j as int),
{
    let ri = rank_of(classes[i]);
    let rj = rank_of(classes[j]);
    if ri != rj {
        return ri < rj;
    }
    let ni = names[i].as_str();
    let nj = names[j].as_str();
    if text_less(ni, nj) {
        return true;
    }
    let same = names[i] == names[j];
    same && i < j
}

fn rank_of(c: RecipeIngredientQuantity) -> (r: u8)
    ensures
        r as int == class_rank(c),
{
    match c {
        RecipeIngredientQuantity::All => 0,
        RecipeIngredientQuantity::Partial => 1,
        RecipeIngredientQuantity::Nothing => 2,
    }
}

/// The order of the crafting list: the positions of the recipes whose
/// classes are `classes` and whose outputs have the display names `names`,
/// craftable ones first, then those with some ingredients, then the rest,
/// each group by display name, equal names in their given order. Every
/// position comes once.
pub fn order_recipes(classes: &Vec<RecipeIngredientQuantity>, names: &Vec<String>) -> (r: Vec<usize>)
    requires
        classes@.len() == names@.len(),
    ensures
        r@.len() == classes@.len(),
        forall|i: int| 0 <= i < r@.len() ==> #[trigger] r@[i] < classes@.len(),
        forall|i: int, j: int| 0 <= i < j < r@.len() ==> r@[i] != r@[j],
        forall|i: int|
            0 <= i < r@.len() - 1 ==> entry_lt(classes@, names_view(names@), #[trigger] r@[i] as int, r@[i + 1] as int),
{
    let n = classes.len();
    let ghost nv = names_view(names@);
    let mut order: Vec<usize> = Vec::new();
    let mut k: usize = 0;
    while k < n
        invariant
            k <= n,
            n == classes@.len(),
            n == names@.len(),
            nv == names_view(names@),
            order@.len() == k,
            forall|i: int| 0 <= i < order@.len() ==> #[trigger] order@[i] < k,
            forall|i: int, j: int| 0 <= i < j < order@.len() ==> order@[i] != order@[j],
            forall|i: int|
                0 <= i < order@.len() - 1 ==> entry_lt(classes@, nv, #[trigger] order@[i] as int, order@[i + 1] as int),
        decreases n - k,
    {
        // Find the first entry that `k` comes before.
        let mut p: usize = 0;
        while p < order.len() && !entry_less(classes, names, k, order[p])
            invariant
                p <= order@.len(),
                k < n,
                n == classes@.len(),
                n == names@.len(),
                nv == names_view(names@),
                forall|i: int| 0 <= i < order@.len() ==> #[trigger] order@[i] < k,
                forall|i: int| 0 <= i < p ==> !entry_lt(classes@, nv, k as int, #[trigger] order@[i] as int),
            decreases order@.len() - p,
        {
            p = p + 1;
        }
        let ghost old_order = order@;
        order.insert(p, k);
        proof {
            assert(order@ == old_order.insert(p as int, k));
            if p > 0 {
                assert(old_order[p - 1] < k);
                lemma_entry_lt_total(classes@, nv, k as int, old_order[p - 1] as int);
                assert(!entry_lt(classes@, nv, k as int, old_order[p as int - 1] as int));
            }
            assert forall|i: int| 0 <= i < order@.len() - 1 implies entry_lt(
                classes@,
                nv,
                #[trigger] order@[i] as int,
                order@[i + 1] as int,
            ) by {
                if i < p as int - 1 {
                    assert(order@[i] == old_order[i] && order@[i + 1] == old_order[i + 1]);
                } else if i == p as int - 1 {
                    assert(order@[i] == old_order[i] && order@[i + 1] == k);
                } else if i == p as int {
                    assert(order@[i] == k && order@[i + 1] == old_order[i]);
                } else {
                    assert(order@[i] == old_order[i - 1] && order@[i + 1] == old_order[i]);
                    assert(i - 1 < old_order.len() - 1);
                    assert(entry_lt(classes@, nv, old_order[i - 1] as int, old_order[i - 1 + 1] as int));
                }
            }
            assert forall|i: int| 0 <= i < order@.len() implies #[trigger] order@[i] < k + 1 by {
                if i < p {
                    assert(order@[i] == old_order[i]);
                } else if i > p {
                    assert(order@[i] == old_order[i - 1]);
                }
            }
            assert forall|i: int, j: int| 0 <= i < j < order@.len() implies order@[i] != order@[j] by {
                let oi = if i < p { i } else { i - 1 };
                let oj = if j < p { j } else { j - 1 };
                if i != p && j != p {
                    assert(order@[i] == old_order[oi]);
                    assert(order@[j] == old_order[oj]);
                } else if i == p {
                    assert(order@[j] == old_order[oj]);
                } else {
                    assert(order@[i] == old_order[oi]);
                }
            }
        }
        k = k + 1;
    }
    order
}

} // verus!
