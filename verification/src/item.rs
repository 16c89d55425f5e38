use vstd::prelude::*;

verus! {

/// The kinds of armour, one per armour slot.
#[derive(Clone, Copy, Debug, PartialEq, Eq, Structural)]
pub enum ArmorKind {
    Shoulder,
    Chest,
    Belt,
    Hand,
    Pants,
    Foot,
    Back,
    Ring,
    Neck,
    Head,
    Tabard,
}

/// What an item is, as far as equipping, using and crafting care.
#[derive(Clone, Copy, Debug, PartialEq, Eq, Structural)]
pub enum ItemKind {
    Tool,
    Armor(ArmorKind),
    Glider,
    Lantern,
    Consumable,
    Throwable,
    Utility,
    Ingredient,
}

/// An item definition: which item it is, its kind, its tags (bit `t` of
/// `tags` set means the item carries tag `t`, for tags `0..64`), and the
/// material it can be salvaged into, if any.
#[derive(Clone, Copy, Debug, PartialEq, Eq, Structural)]
pub struct ItemDef {
    pub id: u64,
    pub kind: ItemKind,
    pub tags: u64,
    pub salvage_into: Option<u64>,
}

/// A stack of `amount` items of one definition.
#[derive(Clone, Copy, Debug, PartialEq, Eq, Structural)]
pub struct Item {
    pub def: ItemDef,
    pub amount: u32,
}

/// A made item together with the items it was made from, in the order they
/// were used.
#[derive(Clone, Debug, PartialEq, Eq)]
pub struct CraftedItem {
    pub item: Item,
    pub components: Vec<Item>,
}

impl CraftedItem {
    /// One item of definition `def`, made from `components`.
    pub fn new(def: ItemDef, components: Vec<Item>) -> (c: CraftedItem)
        ensures
            c.item == (Item { def, amount: 1 }),
            c.components@ == components@,
    {
        CraftedItem { item: Item::new_from_item_def(def), components }
    }
}

/// Whether the tag set `tags` holds tag `tag`.
pub open spec fn has_tag_spec(tags: u64, tag: u32) -> bool {
    tag < 64 && (tags >> tag) & 1u64 == 1u64
}

impl ItemDef {
    /// Whether this definition carries `tag`.
    pub fn has_tag(&self, tag: u32) -> (r: bool)
        ensures
            r == has_tag_spec(self.tags, tag),
    {
        tag < 64 && (self.tags >> tag) & 1u64 == 1u64
    }
}

impl Item {
    /// One item of definition `def`.
    pub fn new_from_item_def(def: ItemDef) -> (i: Item)
        ensures
            i == (Item { def, amount: 1 }),
    {
        Item { def, amount: 1 }
    }

    /// What kind of item this is.
    pub fn kind(&self) -> (k: ItemKind)
        ensures
            k == self.def.kind,
    {
        self.def.kind
    }

    /// Whether salvaging this item yields something.
    pub fn is_salvageable(&self) -> (r: bool)
        ensures
            r == self.def.salvage_into.is_some(),
    {
        self.def.salvage_into.is_some()
    }

    /// Salvages the item into one item of its salvage material, or hands
    /// the item back when it cannot be salvaged.
    pub fn try_salvage(self) -> (r: Result<Vec<Item>, Item>)
        ensures
            match self.def.salvage_into {
                Some(m) => r matches Ok(v) && v@ == seq![salvage_item(m)],
                None => r == Err::<Vec<Item>, Item>(self),
            },
    {
        match self.def.salvage_into {
            Some(m) => {
                let v = vec![Item {
                    def: ItemDef { id: m, kind: ItemKind::Ingredient, tags: 0, salvage_into: None },
                    amount: 1,
                }];
                assert(v@ =~= seq![salvage_item(m)]);
                Ok(v)
            },
            None => Err(self),
        }
    }
}

/// The item that salvaging into material `m` yields.
pub open spec fn salvage_item(m: u64) -> Item {
    Item { def: ItemDef { id: m, kind: ItemKind::Ingredient, tags: 0, salvage_into: None }, amount: 1 }
}

} // verus!
