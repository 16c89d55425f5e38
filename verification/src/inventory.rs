use vstd::prelude::*;
use crate::item::Item;
use vstd::multiset::Multiset;

verus! {

broadcast use vstd::multiset::group_multiset_axioms;

/// The items held in a row of slots, counted with multiplicity.
pub open spec fn items_of(s: Seq<Option<Item>>) -> Multiset<Item>
    decreases s.len(),
{
    if s.len() == 0 {
        Multiset::empty()
    } else {
        items_of(s.drop_last()).add(opt_items(s.last()))
    }
}

/// The item in a slot, as a multiset of at most one element.
pub open spec fn opt_items(o: Option<Item>) -> Multiset<Item> {
    match o {
        Some(i) => Multiset::singleton(i),
        None => Multiset::empty(),
    }
}

/// Replacing the content of one slot removes the old content from the
/// multiset of held items and adds the new one.
pub proof fn lemma_items_of_update(s: Seq<Option<Item>>, i: int, x: Option<Item>)
    requires
        0 <= i < s.len(),
    ensures
        items_of(s.update(i, x)).add(opt_items(s[i])) =~= items_of(s).add(opt_items(x)),
    decreases s.len(),
{
    let u = s.update(i, x);
    assert(items_of(u) == items_of(u.drop_last()).add(opt_items(u.last())));
    assert(items_of(s) == items_of(s.drop_last()).add(opt_items(s.last())));
    if i == s.len() - 1 {
        assert(u.drop_last() =~= s.drop_last());
    } else {
        assert(u.drop_last() =~= s.drop_last().update(i, x));
        lemma_items_of_update(s.drop_last(), i, x);
        assert(u.last() == s.last());
        assert(s.drop_last()[i] == s[i]);
    }
    assert forall|v: Item| #[trigger] items_of(u).add(opt_items(s[i])).count(v) == items_of(s).add(opt_items(x)).count(v) by {
        if i == s.len() - 1 {
        } else {
            assert(items_of(s.drop_last().update(i, x)).add(opt_items(s[i])).count(v)
                == items_of(s.drop_last()).add(opt_items(x)).count(v));
        }
    }
}

/// Exchanging the contents of two slots keeps the held items.
pub proof fn lemma_items_of_swap(s: Seq<Option<Item>>, i: int, j: int)
    requires
        0 <= i < s.len(),
        0 <= j < s.len(),
    ensures
        items_of(s.update(i, s[j]).update(j, s[i])) =~= items_of(s),
{
    let s1 = s.update(i, s[j]);
    lemma_items_of_update(s, i, s[j]);
    lemma_items_of_update(s1, j, s[i]);
    let s2 = s1.update(j, s[i]);
    if i == j {
        assert(s2 =~= s);
    } else {
        assert(s1[j] == s[j]);
        assert forall|v: Item| items_of(s2).count(v) == items_of(s).count(v) by {
            assert(items_of(s2).add(opt_items(s[j])).count(v) == items_of(s1).add(opt_items(s[i])).count(v));
            assert(items_of(s1).add(opt_items(s[i])).count(v) == items_of(s).add(opt_items(s[j])).count(v));
        }
    }
}

/// The index of the first empty slot, if there is one.
pub open spec fn first_empty(s: Seq<Option<Item>>) -> Option<int> {
    if exists|i: int| 0 <= i < s.len() && s[i].is_none() {
        Some(choose|i: int| 0 <= i < s.len() && s[i].is_none() && (forall|j: int| 0 <= j < i ==> s[j].is_some()))
    } else {
        None
    }
}

proof fn lemma_least_empty_exists(s: Seq<Option<Item>>, i: int)
    requires
        0 <= i < s.len(),
        s[i].is_none(),
    ensures
        exists|k: int| 0 <= k < s.len() && s[k].is_none() && (forall|j: int| 0 <= j < k ==> s[j].is_some()),
    decreases i,
{
    if exists|j: int| 0 <= j < i && s[j].is_none() {
        let j = choose|j: int| 0 <= j < i && s[j].is_none();
        lemma_least_empty_exists(s, j);
    } else {
        assert(forall|j: int| 0 <= j < i ==> s[j].is_some());
    }
}

/// `first_empty` names the first empty slot, and is `None` exactly when
/// every slot is taken.
pub proof fn lemma_first_empty(s: Seq<Option<Item>>)
    ensures
        first_empty(s) matches Some(k) ==> 0 <= k < s.len() && s[k].is_none() && (forall|j: int|
            0 <= j < k ==> s[j].is_some()),
        first_empty(s) is None <==> (forall|j: int| 0 <= j < s.len() ==> s[j].is_some()),
{
    if exists|i: int| 0 <= i < s.len() && s[i].is_none() {
        let i = choose|i: int| 0 <= i < s.len() && s[i].is_none();
        lemma_least_empty_exists(s, i);
    }
}

/// What taking one item out of slot `i` of `s` gives: the item taken and
/// the slots afterwards. From a stack of more than one a single item is
/// split off; a stack of one (or none) leaves the slot empty.
pub open spec fn take_outcome(s: Seq<Option<Item>>, i: int) -> (Option<Item>, Seq<Option<Item>>) {
    if 0 <= i < s.len() {
        match s[i] {
            Some(it) => if it.amount > 1 {
                (
                    Some(Item { def: it.def, amount: 1 }),
                    s.update(i, Some(Item { def: it.def, amount: (it.amount - 1) as u32 })),
                )
            } else {
                (Some(it), s.update(i, None))
            },
            None => (None, s),
        }
    } else {
        (None, s)
    }
}

/// What putting `item` into slot `i` of `s`, stacking it onto an item of the
/// same definition, gives: the result handed back and the slots afterwards.
pub open spec fn stack_outcome(s: Seq<Option<Item>>, i: int, item: Item) -> (
    Result<Option<Item>, Item>,
    Seq<Option<Item>>,
) {
    if 0 <= i < s.len() {
        match s[i] {
            None => (Ok(None), s.update(i, Some(item))),
            Some(o) => if o.def == item.def {
                if o.amount + item.amount <= u32::MAX {
                    (Ok(None), s.update(i, Some(Item { def: o.def, amount: (o.amount + item.amount) as u32 })))
                } else {
                    (Err(item), s)
                }
            } else {
                (Ok(Some(o)), s.update(i, Some(item)))
            },
        }
    } else {
        (Err(item), s)
    }
}

/// Taking one item out of an occupied slot and stacking it back into the
/// same slot succeeds and restores every slot.
pub proof fn lemma_take_then_stack(s: Seq<Option<Item>>, i: int)
    requires
        0 <= i < s.len(),
        s[i] is Some,
    ensures
        take_outcome(s, i).0 is Some,
        stack_outcome(take_outcome(s, i).1, i, take_outcome(s, i).0->0)
            == (Ok::<Option<Item>, Item>(None), s),
{
    let it = s[i]->0;
    if it.amount > 1 {
        assert(take_outcome(s, i).1.update(i, Some(Item { def: it.def, amount: it.amount })) =~= s);
    } else {
        assert(take_outcome(s, i).1.update(i, Some(it)) =~= s);
    }
}

/// How many of the slots hold something.
pub open spec fn occupied(s: Seq<Option<Item>>) -> nat
    decreases s.len(),
{
    if s.len() == 0 {
        0
    } else {
        occupied(s.drop_last()) + if s.last().is_some() { 1nat } else { 0nat }
    }
}

proof fn lemma_occupied_bounded(s: Seq<Option<Item>>)
    ensures
        occupied(s) <= s.len(),
    decreases s.len(),
{
    if s.len() > 0 {
        lemma_occupied_bounded(s.drop_last());
    }
}

/// A row of item slots, each empty or holding one stack.
#[derive(Clone, Debug)]
pub struct Inventory {
    pub slots: Vec<Option<Item>>,
}

impl View for Inventory {
    type V = Seq<Option<Item>>;

    open spec fn view(&self) -> Seq<Option<Item>> {
        self.slots@
    }
}

proof fn lemma_first_empty_is_least(s: Seq<Option<Item>>, k: int)
    requires
        0 <= k < s.len(),
        s[k].is_none(),
        forall|j: int| 0 <= j < k ==> s[j].is_some(),
    ensures
        first_empty(s) == Some(k),
{
    assert(exists|i: int| 0 <= i < s.len() && s[i].is_none());
    let c = choose|i: int| 0 <= i < s.len() && s[i].is_none() && (forall|j: int| 0 <= j < i ==> s[j].is_some());
    assert(0 <= k < s.len() && s[k].is_none() && (forall|j: int| 0 <= j < k ==> s[j].is_some()));
    if c < k {
        assert(s[c].is_some());
    } else if c > k {
        assert(s[k].is_some());
    }
}

impl Inventory {
    /// An inventory of `n` empty slots.
    pub fn with_slots(n: usize) -> (inv: Inventory)
        ensures
            inv@ == Seq::new(n as nat, |i: int| None::<Item>),
    {
        let mut slots: Vec<Option<Item>> = Vec::new();
        let mut k: usize = 0;
        while k < n
            invariant
                k <= n,
                slots@ == Seq::new(k as nat, |i: int| None::<Item>),
            decreases n - k,
        {
            slots.push(None);
            k = k + 1;
            assert(slots@ =~= Seq::new(k as nat, |i: int| None::<Item>));
        }
        Inventory { slots }
    }

    /// The usual starting inventory: eighteen empty slots.
    pub fn new_empty() -> (inv: Inventory)
        ensures
            inv@ == Seq::new(18, |i: int| None::<Item>),
    {
        Inventory::with_slots(18)
    }

    /// The item in slot `i`, if the slot exists and holds one.
    pub fn get(&self, i: usize) -> (r: Option<&Item>)
        ensures
            r == (if i < self@.len() { match self@[i as int] { Some(it) => Some(&it), None => None } } else { None::<&Item> }),
    {
        if i < self.slots.len() {
            match &self.slots[i] {
                Some(it) => Some(it),
                None => None,
            }
        } else {
            None
        }
    }

    /// How many slots hold something.
    pub fn amount(&self) -> (n: usize)
        ensures
            n == occupied(self@),
    {
        let mut n: usize = 0;
        let mut k: usize = 0;
        while k < self.slots.len()
            invariant
                k <= self.slots@.len(),
                n == occupied(self@.take(k as int)),
            decreases self.slots@.len() - k,
        {
            proof {
                assert(self@.take(k as int + 1).drop_last() =~= self@.take(k as int));
                lemma_occupied_bounded(self@.take(k as int));
            }
            if self.slots[k].is_some() {
                n = n + 1;
            }
            k = k + 1;
        }
        assert(self@.take(self@.len() as int) =~= self@);
        n
    }

    /// Puts `item` into slot `i` and returns what was there; hands the item
    /// back when the slot does not exist.
    pub fn insert(&mut self, i: usize, item: Item) -> (r: Result<Option<Item>, Item>)
        ensures
            i < old(self)@.len() ==> r == Ok::<Option<Item>, Item>(old(self)@[i as int])
                && final(self)@ == old(self)@.update(i as int, Some(item)),
            i >= old(self)@.len() ==> r == Err::<Option<Item>, Item>(item) && final(self)@ == old(self)@,
    {
        if i < self.slots.len() {
            let prev = self.slots[i];
            self.slots.set(i, Some(item));
            Ok(prev)
        } else {
            Err(item)
        }
    }

    /// Empties slot `i` and returns what it held.
    pub fn remove(&mut self, i: usize) -> (r: Option<Item>)
        ensures
            i < old(self)@.len() ==> r == old(self)@[i as int] && final(self)@ == old(self)@.update(i as int, None),
            i >= old(self)@.len() ==> r == None::<Item> && final(self)@ == old(self)@,
    {
        if i < self.slots.len() {
            let prev = self.slots[i];
            self.slots.set(i, None);
            prev
        } else {
            None
        }
    }

    /// Puts `item` into the first empty slot; hands it back when every slot
    /// is taken.
    pub fn push(&mut self, item: Item) -> (r: Option<Item>)
        ensures
            match first_empty(old(self)@) {
                Some(k) => r == None::<Item> && final(self)@ == old(self)@.update(k, Some(item)),
                None => r == Some(item) && final(self)@ == old(self)@,
            },
    {
        let mut k: usize = 0;
        while k < self.slots.len()
            invariant
                k <= self.slots@.len(),
                self@ == old(self)@,
                forall|j: int| 0 <= j < k ==> self.slots@[j].is_some(),
            decreases self.slots@.len() - k,
        {
            if self.slots[k].is_none() {
                proof {
                    lemma_first_empty_is_least(self@, k as int);
                }
                self.slots.set(k, Some(item));
                return None;
            }
            k = k + 1;
        }
        proof {
            assert(!(exists|i: int| 0 <= i < self@.len() && self@[i].is_none()));
        }
        Some(item)
    }

    /// Takes one item out of slot `i`: from a stack of more than one, a
    /// single item is split off; otherwise the slot is emptied.
    pub fn take(&mut self, i: usize) -> (r: Option<Item>)
        ensures
            (r, final(self)@) == take_outcome(old(self)@, i as int),
            i < old(self)@.len() ==> match old(self)@[i as int] {
                Some(it) => if it.amount > 1 {
                    r == Some(Item { def: it.def, amount: 1 }) && final(self)@ == old(self)@.update(
                        i as int,
                        Some(Item { def: it.def, amount: (it.amount - 1) as u32 }),
                    )
                } else {
                    r == Some(it) && final(self)@ == old(self)@.update(i as int, None)
                },
                None => r == None::<Item> && final(self)@ == old(self)@,
            },
            i >= old(self)@.len() ==> r == None::<Item> && final(self)@ == old(self)@,
    {
        if i < self.slots.len() {
            match self.slots[i] {
                Some(it) => {
                    if it.amount > 1 {
                        self.slots.set(i, Some(Item { def: it.def, amount: it.amount - 1 }));
                        Some(Item { def: it.def, amount: 1 })
                    } else {
                        self.slots.set(i, None);
                        Some(it)
                    }
                },
                None => None,
            }
        } else {
            None
        }
    }

    /// Puts `item` into slot `i`: onto a stack of the same definition when
    /// the amounts fit together, into the slot when it is empty, or in place
    /// of a different item, which is returned. Hands the item back when the
    /// slot does not exist or the stack would not fit in a `u32`.
    pub fn insert_or_stack(&mut self, i: usize, item: Item) -> (r: Result<Option<Item>, Item>)
        ensures
            (r, final(self)@) == stack_outcome(old(self)@, i as int, item),
    {
        if i < self.slots.len() {
            match self.slots[i] {
                None => {
                    self.slots.set(i, Some(item));
                    Ok(None)
                },
                Some(o) => {
                    if o.def == item.def {
                        if item.amount <= u32::MAX - o.amount {
                            self.slots.set(i, Some(Item { def: o.def, amount: o.amount + item.amount }));
                            Ok(None)
                        } else {
                            Err(item)
                        }
                    } else {
                        self.slots.set(i, Some(item));
                        Ok(Some(o))
                    }
                },
            }
        } else {
            Err(item)
        }
    }

    /// Exchanges the contents of slots `a` and `b` when both exist.
    pub fn swap_slots(&mut self, a: usize, b: usize)
        ensures
            a < old(self)@.len() && b < old(self)@.len() ==> final(self)@ == old(self)@.update(
                a as int,
                old(self)@[b as int],
            ).update(b as int, old(self)@[a as int]),
            !(a < old(self)@.len() && b < old(self)@.len()) ==> final(self)@ == old(self)@,
    {
        if a < self.slots.len() && b < self.slots.len() {
            let x = self.slots[a];
            let y = self.slots[b];
            self.slots.set(a, y);
            self.slots.set(b, x);
        }
    }
}

} // verus!
