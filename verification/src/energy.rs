use vstd::prelude::*;

verus! {

/// What caused a change of energy.
#[derive(Clone, Copy, Debug, PartialEq, Eq, Structural)]
pub enum EnergySource {
    Ability,
    Climb,
    LevelUp,
    HitEnemy,
    Regen,
    Revive,
    Unknown,
}

/// Why a checked change of energy was refused.
#[derive(Clone, Copy, Debug, PartialEq, Eq, Structural)]
pub enum StatChangeError {
    Underflow,
    Overflow,
}

/// A signed change of energy together with its cause.
#[derive(Clone, Copy, Debug, PartialEq, Eq, Structural)]
pub struct EnergyChange {
    pub amount: i32,
    pub source: EnergySource,
}

/// The energy pool of an entity: a current amount that never exceeds the
/// maximum, and the last change applied to it (its amount and cause).
#[derive(Clone, Copy, Debug, PartialEq)]
pub struct Energy {
    current: u32,
    maximum: u32,
    last_change: Option<(i32, EnergySource)>,
}

/// `amount` as the signed value that the pool arithmetic works with.
pub open spec fn signed(amount: u32) -> int {
    (amount as i32) as int
}

impl Energy {
    #[verifier::type_invariant]
    spec fn well_formed(self) -> bool {
        self.current <= self.maximum
    }

    /// The current amount.
    pub closed spec fn cur(self) -> u32 {
        self.current
    }

    /// The maximum amount.
    pub closed spec fn max(self) -> u32 {
        self.maximum
    }

    /// The last recorded change: its amount and cause.
    pub closed spec fn last(self) -> Option<(i32, EnergySource)> {
        self.last_change
    }

    /// A full pool of `amount`, with no change recorded.
    pub fn new(amount: u32) -> (e: Energy)
        ensures
            e.cur() == amount,
            e.max() == amount,
            e.last() == None::<(i32, EnergySource)>,
            e.cur() <= e.max(),
    {
        Energy { current: amount, maximum: amount, last_change: None }
    }

    /// The energy the pool holds now.
    pub fn current(&self) -> (r: u32)
        ensures
            r == self.cur(),
            r <= self.max(),
    {
        proof {
            use_type_invariant(self);
        }
        self.current
    }

    /// The most energy the pool can hold.
    pub fn maximum(&self) -> (r: u32)
        ensures
            r == self.max(),
            self.cur() <= r,
    {
        proof {
            use_type_invariant(self);
        }
        self.maximum
    }

    /// Sets the current amount to `amount`, capped at the maximum, and
    /// records the difference from the previous amount.
    pub fn set_to(&mut self, amount: u32, cause: EnergySource)
        requires
            i32::MIN <= signed(if amount <= old(self).max() { amount } else { old(self).max() })
                - signed(old(self).cur()) <= i32::MAX,
        ensures
            final(self).cur() == (if amount <= old(self).max() { amount } else { old(self).max() }),
            final(self).max() == old(self).max(),
            final(self).cur() <= final(self).max(),
            final(self).last() == Some(
                (
                    (signed(final(self).cur()) - signed(old(self).cur())) as i32,
                    cause,
                ),
            ),
    {
        proof {
            use_type_invariant(&*self);
        }
        let amount = if amount < self.maximum { amount } else { self.maximum };
        let delta: i32 = amount as i32 - self.current as i32;
        self.last_change = Some((delta, cause));
        self.current = amount;
    }

    /// Adds `change.amount` to the current amount, clamped into
    /// `0..=maximum`, and records the change.
    pub fn change_by(&mut self, change: EnergyChange)
        requires
            i32::MIN <= signed(old(self).cur()) + change.amount <= i32::MAX,
        ensures
            final(self).cur() == clamp_to(signed(old(self).cur()) + change.amount, old(self).max()),
            final(self).max() == old(self).max(),
            final(self).cur() <= final(self).max(),
            final(self).last() == Some((change.amount, change.source)),
    {
        proof {
            use_type_invariant(&*self);
        }
        let sum: i32 = self.current as i32 + change.amount;
        let non_negative: i32 = if sum > 0 { sum } else { 0 };
        let as_unsigned: u32 = non_negative as u32;
        let new_current = if as_unsigned < self.maximum { as_unsigned } else { self.maximum };
        self.current = new_current;
        self.last_change = Some((change.amount, change.source));
    }

    /// Adds `amount` to the current amount if the result stays within
    /// `0..=maximum`; otherwise leaves the pool unchanged and says which
    /// bound would have been crossed.
    pub fn try_change_by(&mut self, amount: i32, cause: EnergySource) -> (r: Result<(), StatChangeError>)
        requires
            i32::MIN <= signed(old(self).cur()) + amount <= i32::MAX,
        ensures
            signed(old(self).cur()) + amount < 0 ==> r == Err::<(), StatChangeError>(StatChangeError::Underflow)
                && *final(self) == *old(self),
            0 <= signed(old(self).cur()) + amount && signed(old(self).cur()) + amount > signed(old(self).max())
                ==> r == Err::<(), StatChangeError>(StatChangeError::Overflow) && *final(self) == *old(self),
            final(self).cur() <= final(self).max(),
            0 <= signed(old(self).cur()) + amount <= signed(old(self).max()) ==> r == Ok::<(), StatChangeError>(())
                && final(self).cur() == clamp_to(signed(old(self).cur()) + amount, old(self).max())
                && final(self).max() == old(self).max()
                && final(self).last() == Some((amount, cause)),
    {
        proof {
            use_type_invariant(&*self);
        }
        if (self.current as i32) + amount < 0 {
            Err(StatChangeError::Underflow)
        } else if (self.current as i32) + amount > self.maximum as i32 {
            Err(StatChangeError::Overflow)
        } else {
            self.change_by(EnergyChange { amount, source: cause });
            Ok(())
        }
    }

    /// The last change made to the pool: its amount and its cause.
    pub fn last_change(&self) -> (r: Option<(i32, EnergySource)>)
        ensures
            r == self.last(),
    {
        self.last_change
    }

    /// A pool with the given parts, as read back from storage; `None` when
    /// `current` exceeds `maximum`.
    pub fn from_parts(current: u32, maximum: u32, last_change: Option<(i32, EnergySource)>) -> (r: Option<Energy>)
        ensures
            current <= maximum ==> (r matches Some(e) && e.cur() == current && e.max() == maximum && e.last()
                == last_change),
            current > maximum ==> r is None,
    {
        if current <= maximum {
            Some(Energy { current, maximum, last_change })
        } else {
            None
        }
    }

    /// Sets the maximum, lowering the current amount to it if needed.
    pub fn set_maximum(&mut self, amount: u32)
        ensures
            final(self).max() == amount,
            final(self).cur() == (if old(self).cur() <= amount { old(self).cur() } else { amount }),
            final(self).cur() <= final(self).max(),
            final(self).last() == old(self).last(),
    {
        let new_current = if self.current < amount { self.current } else { amount };
        *self = Energy { current: new_current, maximum: amount, last_change: self.last_change };
    }
}

/// `value` clamped below at zero and above at `maximum`.
pub open spec fn clamp_to(value: int, maximum: u32) -> u32 {
    if value <= 0 {
        0
    } else if value >= maximum {
        maximum
    } else {
        value as u32
    }
}

/// Below `i32::MAX` the signed reading of an amount is the amount itself.
pub proof fn lemma_signed_small(amount: u32)
    requires
        amount <= i32::MAX,
    ensures
        signed(amount) == amount,
{
}

/// A checked change that succeeds moves the current amount by exactly the
/// change, and the opposite change then succeeds and restores it (for
/// pools whose maximum fits in an `i32`).
pub proof fn lemma_try_change_round_trip(cur: u32, max: u32, amount: i32)
    requires
        cur <= max <= i32::MAX,
        0 <= cur + amount <= max,
    ensures
        clamp_to(signed(cur) + amount, max) == cur + amount,
        ({
            let next = clamp_to(signed(cur) + amount, max);
            &&& -amount <= i32::MAX
            &&& 0 <= signed(next) + (-amount) <= signed(max)
            &&& clamp_to(signed(next) + (-amount), max) == cur
        }),
{
    lemma_signed_small(cur);
    lemma_signed_small(max);
    let next = clamp_to(signed(cur) + amount, max);
    lemma_signed_small(next);
}

/// A change by any amount keeps the current amount between zero and the
/// maximum.
pub proof fn lemma_clamp_bounded(value: int, max: u32)
    ensures
        0 <= clamp_to(value, max) <= max,
        0 <= value <= max ==> clamp_to(value, max) == value,
{
}

} // verus!
