use vstd::prelude::*;

verus! {

/// The longest span a `std::time::Duration` holds, in nanoseconds.
pub const MAX_DURATION_NANOS: u128 = 18446744073709551615999999999u128;

/// `a + b` for spans in nanoseconds, or `None` where `Duration` addition
/// overflows.
pub open spec fn span_checked_add(a: u128, b: u128) -> Option<u128> {
    if a + b <= MAX_DURATION_NANOS {
        Some((a + b) as u128)
    } else {
        None
    }
}

/// Adds two spans in nanoseconds as `Duration::checked_add` does.
pub fn checked_add_span(a: u128, b: u128) -> (r: Option<u128>)
    requires
        a <= MAX_DURATION_NANOS,
        b <= MAX_DURATION_NANOS,
    ensures
        r == span_checked_add(a, b),
{
    if a <= MAX_DURATION_NANOS - b {
        Some(a + b)
    } else {
        None
    }
}

/// A section of a character's attack.
#[derive(Clone, Copy, Debug, PartialEq, Eq, Structural)]
pub enum StageSection {
    Buildup,
    Swing,
    Recover,
    Charge,
    Cast,
    Shoot,
    Movement,
}

/// The timer advanced by one tick; an overflow resets it.
pub open spec fn ticked(timer: u128, tick: u128) -> u128 {
    match span_checked_add(timer, tick) {
        Some(t) => t,
        None => 0,
    }
}

/// The timer advanced by one tick, or zero where that overflows.
pub fn tick_or_default(timer: u128, tick: u128) -> (r: u128)
    requires
        timer <= MAX_DURATION_NANOS,
        tick <= MAX_DURATION_NANOS,
    ensures
        r == ticked(timer, tick),
{
    match checked_add_span(timer, tick) {
        Some(t) => t,
        None => 0,
    }
}

} // verus!
