use vstd::prelude::*;
use crate::stage::{tick_or_default, ticked, MAX_DURATION_NANOS};

verus! {

/// What a boost does that does not change over its course.
#[derive(Clone, Copy, Debug, PartialEq, Eq, Structural)]
pub struct StaticData {
    /// How long the boost pushes, in nanoseconds.
    pub movement_duration: u128,
    /// Whether it pushes straight up rather than where the entity looks.
    pub only_up: bool,
}

/// The state of a boost.
#[derive(Clone, Copy, Debug, PartialEq, Eq, Structural)]
pub struct Data {
    pub static_data: StaticData,
    /// Time spent boosting, in nanoseconds.
    pub timer: u128,
}

/// Which way a boost pushes the entity this tick.
#[derive(Clone, Copy, Debug, PartialEq, Eq, Structural)]
pub enum Push {
    Up,
    Forward,
}

/// One tick of a boost: while its time lasts the entity is pushed and the
/// timer advances by `tick`; then the entity returns to wielding (`None`).
pub open spec fn behavior_spec(d: Data, tick: u128) -> (Option<Data>, Option<Push>) {
    if d.timer < d.static_data.movement_duration {
        (
            Some(Data { static_data: d.static_data, timer: ticked(d.timer, tick) }),
            Some(if d.static_data.only_up { Push::Up } else { Push::Forward }),
        )
    } else {
        (None, None)
    }
}

impl Data {
    /// One tick of the boost; see `behavior_spec`.
    pub fn behavior(&self, tick: u128) -> (r: (Option<Data>, Option<Push>))
        requires
            self.timer <= MAX_DURATION_NANOS,
            tick <= MAX_DURATION_NANOS,
        ensures
            r == behavior_spec(*self, tick),
    {
        if self.timer < self.static_data.movement_duration {
            let push = if self.static_data.only_up { Push::Up } else { Push::Forward };
            (Some(Data { static_data: self.static_data, timer: tick_or_default(self.timer, tick) }), Some(push))
        } else {
            (None, None)
        }
    }
}

} // verus!
