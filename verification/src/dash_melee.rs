use vstd::prelude::*;
use crate::stage::{checked_add_span, span_checked_add, tick_or_default, ticked, StageSection, MAX_DURATION_NANOS};

verus! {

/// What a dash does that does not change over its course. Spans are in
/// nanoseconds.
#[derive(Clone, Copy, Debug, PartialEq, Eq, Structural)]
pub struct StaticData {
    /// Whether the dash can charge through enemies and hit a second time.
    pub charge_through: bool,
    /// How long until the dash deals damage.
    pub buildup_duration: u128,
    /// How long the dash charges until it reaches full damage.
    pub charge_duration: u128,
    /// How long the swing lasts.
    pub swing_duration: u128,
    /// How long until the state ends after the swing.
    pub recover_duration: u128,
    /// Whether other abilities can interrupt the dash.
    pub is_interruptible: bool,
}

/// The state of a dash attack.
#[derive(Clone, Copy, Debug, PartialEq, Eq, Structural)]
pub struct Data {
    pub static_data: StaticData,
    /// Whether the charge lasts its default time rather than until the
    /// input is released.
    pub auto_charge: bool,
    /// Time spent in the current section, in nanoseconds.
    pub timer: u128,
    pub stage_section: StageSection,
    /// Whether the dash should hold off attacking again.
    pub exhausted: bool,
    /// When the charge is to end (used when charging through), in
    /// nanoseconds.
    pub charge_end_timer: u128,
}

/// Every span of `d` fits in a `Duration`.
pub open spec fn spans_valid(d: Data) -> bool {
    &&& d.timer <= MAX_DURATION_NANOS
    &&& d.charge_end_timer <= MAX_DURATION_NANOS
    &&& d.static_data.buildup_duration <= MAX_DURATION_NANOS
    &&& d.static_data.charge_duration <= MAX_DURATION_NANOS
    &&& d.static_data.swing_duration <= MAX_DURATION_NANOS
    &&& d.static_data.recover_duration <= MAX_DURATION_NANOS
}

/// A melee attack already launched by the entity, as the world sees it.
#[derive(Clone, Copy, Debug, PartialEq, Eq, Structural)]
pub struct MeleeFacts {
    /// Whether the attack has been applied.
    pub applied: bool,
    /// How many targets it hit.
    pub hit_count: u32,
}

/// What the world tells a dash on one tick. Spans are in nanoseconds.
#[derive(Clone, Copy, Debug, PartialEq, Eq, Structural)]
pub struct DashInput {
    /// Whether the ability's input is held.
    pub input_pressed: bool,
    /// Whether the entity has energy left.
    pub has_energy: bool,
    /// The entity's current melee attack, if any.
    pub melee: Option<MeleeFacts>,
    /// How far the timer advances this tick.
    pub tick: u128,
    /// How much longer a dash that charges through goes on once it hits.
    pub charge_extension: u128,
}

/// How the entity moves this tick, beyond its ordinary movement.
#[derive(Clone, Copy, Debug, PartialEq, Eq, Structural)]
pub enum Steering {
    Free,
    /// Turns towards where it looks, at the full rate.
    Turning,
    /// Turns at a reduced rate and is pushed forward.
    Charging,
}

/// What one tick of a dash decides.
#[derive(Clone, Copy, Debug, PartialEq, Eq, Structural)]
pub struct DashOutcome {
    /// The next state; `None` returns the entity to wielding its weapon and
    /// removes its melee attack.
    pub next: Option<Data>,
    /// A melee attack is launched, with its strength measured at this much
    /// charge time.
    pub attack_at: Option<u128>,
    pub steering: Steering,
    /// Whether energy drains this tick.
    pub drains_energy: bool,
    /// Whether the state may be interrupted by another ability.
    pub check_interrupt: bool,
}

/// Whether the charge goes on this tick.
pub open spec fn charging(d: Data, inp: DashInput) -> bool {
    d.timer < d.charge_end_timer && (inp.input_pressed || (d.auto_charge && d.timer
        < d.static_data.charge_duration)) && inp.has_energy
}

/// When a dash that charges through and has hit something stops charging.
pub open spec fn extended_charge_end(d: Data, inp: DashInput) -> u128 {
    if d.charge_end_timer != d.static_data.charge_duration {
        d.charge_end_timer
    } else {
        let end = match span_checked_add(d.timer, inp.charge_extension) {
            Some(t) => t,
            None => d.static_data.charge_duration,
        };
        if end < d.static_data.charge_duration {
            end
        } else {
            d.static_data.charge_duration
        }
    }
}

/// The next state while charging: an attack when not exhausted, then
/// according to how the attack fared.
pub open spec fn charge_next(d: Data, inp: DashInput) -> Data {
    let t = ticked(d.timer, inp.tick);
    if !d.exhausted {
        Data { timer: t, exhausted: true, ..d }
    } else {
        match inp.melee {
            Some(m) => if !m.applied {
                Data { timer: t, ..d }
            } else if m.hit_count == 0 {
                Data { timer: t, exhausted: false, ..d }
            } else if d.static_data.charge_through {
                Data { timer: t, charge_end_timer: extended_charge_end(d, inp), ..d }
            } else {
                Data { timer: 0, stage_section: StageSection::Swing, exhausted: false, ..d }
            },
            None => Data { timer: t, exhausted: false, ..d },
        }
    }
}

/// One tick of a dash: build up, charge (attacking as it goes), swing,
/// recover, then return to wielding.
pub open spec fn behavior_spec(d: Data, inp: DashInput) -> DashOutcome {
    let t = ticked(d.timer, inp.tick);
    let check_interrupt = !inp.input_pressed;
    match d.stage_section {
        StageSection::Buildup => if d.timer < d.static_data.buildup_duration {
            DashOutcome {
                next: Some(Data { timer: t, ..d }),
                attack_at: None,
                steering: Steering::Turning,
                drains_energy: false,
                check_interrupt,
            }
        } else {
            DashOutcome {
                next: Some(
                    Data { auto_charge: !inp.input_pressed, timer: 0, stage_section: StageSection::Charge, ..d },
                ),
                attack_at: None,
                steering: Steering::Free,
                drains_energy: false,
                check_interrupt,
            }
        },
        StageSection::Charge => if charging(d, inp) {
            DashOutcome {
                next: Some(charge_next(d, inp)),
                attack_at: if !d.exhausted {
                    Some(d.timer)
                } else {
                    None
                },
                steering: Steering::Charging,
                drains_energy: true,
                check_interrupt,
            }
        } else {
            DashOutcome {
                next: Some(Data { timer: 0, stage_section: StageSection::Swing, exhausted: false, ..d }),
                attack_at: None,
                steering: Steering::Free,
                drains_energy: false,
                check_interrupt,
            }
        },
        StageSection::Swing => if d.static_data.charge_through && !d.exhausted {
            DashOutcome {
                next: Some(Data { timer: t, exhausted: true, ..d }),
                attack_at: Some(d.charge_end_timer),
                steering: Steering::Free,
                drains_energy: false,
                check_interrupt,
            }
        } else if d.timer < d.static_data.swing_duration {
            DashOutcome {
                next: Some(Data { timer: t, ..d }),
                attack_at: None,
                steering: Steering::Free,
                drains_energy: false,
                check_interrupt,
            }
        } else {
            DashOutcome {
                next: Some(Data { timer: 0, stage_section: StageSection::Recover, ..d }),
                attack_at: None,
                steering: Steering::Free,
                drains_energy: false,
                check_interrupt,
            }
        },
        StageSection::Recover => if d.timer < d.static_data.recover_duration {
            DashOutcome {
                next: Some(Data { timer: t, ..d }),
                attack_at: None,
                steering: Steering::Free,
                drains_energy: false,
                check_interrupt,
            }
        } else {
            DashOutcome { next: None, attack_at: None, steering: Steering::Free, drains_energy: false, check_interrupt }
        },
        _ => DashOutcome {
            next: None,
            attack_at: None,
            steering: Steering::Free,
            drains_energy: false,
            check_interrupt,
        },
    }
}

/// While a dash charges on its own (its charge is automatic and it is
/// before both the default charge time and the charge end), a tick with
/// energy left keeps charging whether or not the input is held: energy
/// drains, the entity is steered as charging, an attack is launched at the
/// current charge time unless the dash is exhausted, and an unexhausted
/// dash stays in its charge, now exhausted. Holding or releasing the input
/// changes only whether the state may be interrupted.
pub proof fn lemma_auto_charge_ignores_input(d: Data, inp: DashInput)
    requires
        d.stage_section == StageSection::Charge,
        d.auto_charge,
        d.timer < d.static_data.charge_duration,
        d.timer < d.charge_end_timer,
        inp.has_energy,
    ensures
        behavior_spec(d, inp).drains_energy,
        behavior_spec(d, inp).steering == Steering::Charging,
        behavior_spec(d, inp).attack_at == (if d.exhausted { None } else { Some(d.timer) }),
        !d.exhausted ==> (behavior_spec(d, inp).next matches Some(n) && n.stage_section == StageSection::Charge
            && n.exhausted),
        ({
            let other = behavior_spec(d, DashInput { input_pressed: !inp.input_pressed, ..inp });
            &&& other.next == behavior_spec(d, inp).next
            &&& other.attack_at == behavior_spec(d, inp).attack_at
            &&& other.steering == behavior_spec(d, inp).steering
            &&& other.drains_energy == behavior_spec(d, inp).drains_energy
        }),
{
}

/// A dash in its charge stops charging (moves to its swing, with nothing
/// drained) once its energy is gone.
pub proof fn lemma_charge_stops_without_energy(d: Data, inp: DashInput)
    requires
        d.stage_section == StageSection::Charge,
        !inp.has_energy,
    ensures
        behavior_spec(d, inp).next == Some(Data { timer: 0, stage_section: StageSection::Swing, exhausted: false, ..d }),
        !behavior_spec(d, inp).drains_energy,
        behavior_spec(d, inp).steering == Steering::Free,
        behavior_spec(d, inp).attack_at is None,
{
}

impl Data {
    /// One tick of the dash; see `behavior_spec`.
    pub fn behavior(&self, inp: &DashInput) -> (r: DashOutcome)
        requires
            spans_valid(*self),
            inp.tick <= MAX_DURATION_NANOS,
            inp.charge_extension <= MAX_DURATION_NANOS,
        ensures
            r == behavior_spec(*self, *inp),
    {
        let d = *self;
        let t = tick_or_default(d.timer, inp.tick);
        let check_interrupt = !inp.input_pressed;
        let free = Steering::Free;
        match d.stage_section {
            StageSection::Buildup => {
                if d.timer < d.static_data.buildup_duration {
                    DashOutcome {
                        next: Some(Data { timer: t, ..d }),
                        attack_at: None,
                        steering: Steering::Turning,
                        drains_energy: false,
                        check_interrupt,
                    }
                } else {
                    DashOutcome {
                        next: Some(
                            Data {
                                auto_charge: !inp.input_pressed,
                                timer: 0,
                                stage_section: StageSection::Charge,
                                ..d
                            },
                        ),
                        attack_at: None,
                        steering: free,
                        drains_energy: false,
                        check_interrupt,
                    }
                }
            },
            StageSection::Charge => {
                if d.timer < d.charge_end_timer && (inp.input_pressed || (d.auto_charge && d.timer
                    < d.static_data.charge_duration)) && inp.has_energy {
                    let next = if !d.exhausted {
                        Data { timer: t, exhausted: true, ..d }
                    } else {
                        match inp.melee {
                            Some(m) => {
                                if !m.applied {
                                    Data { timer: t, ..d }
                                } else if m.hit_count == 0 {
                                    Data { timer: t, exhausted: false, ..d }
                                } else if d.static_data.charge_through {
                                    let charge_end_timer = if d.charge_end_timer != d.static_data.charge_duration {
                                        d.charge_end_timer
                                    } else {
                                        let end = match checked_add_span(d.timer, inp.charge_extension) {
                                            Some(e) => e,
                                            None => d.static_data.charge_duration,
                                        };
                                        if end < d.static_data.charge_duration {
                                            end
                                        } else {
                                            d.static_data.charge_duration
                                        }
                                    };
                                    Data { timer: t, charge_end_timer, ..d }
                                } else {
                                    Data { timer: 0, stage_section: StageSection::Swing, exhausted: false, ..d }
                                }
                            },
                            None => Data { timer: t, exhausted: false, ..d },
                        }
                    };
                    let attack_at = if !d.exhausted {
                        Some(d.timer)
                    } else {
                        None
                    };
                    DashOutcome {
                        next: Some(next),
                        attack_at,
                        steering: Steering::Charging,
                        drains_energy: true,
                        check_interrupt,
                    }
                } else {
                    DashOutcome {
                        next: Some(Data { timer: 0, stage_section: StageSection::Swing, exhausted: false, ..d }),
                        attack_at: None,
                        steering: free,
                        drains_energy: false,
                        check_interrupt,
                    }
                }
            },
            StageSection::Swing => {
                if d.static_data.charge_through && !d.exhausted {
                    DashOutcome {
                        next: Some(Data { timer: t, exhausted: true, ..d }),
                        attack_at: Some(d.charge_end_timer),
                        steering: free,
                        drains_energy: false,
                        check_interrupt,
                    }
                } else if d.timer < d.static_data.swing_duration {
                    DashOutcome {
                        next: Some(Data { timer: t, ..d }),
                        attack_at: None,
                        steering: free,
                        drains_energy: false,
                        check_interrupt,
                    }
                } else {
                    DashOutcome {
                        next: Some(Data { timer: 0, stage_section: StageSection::Recover, ..d }),
                        attack_at: None,
                        steering: free,
                        drains_energy: false,
                        check_interrupt,
                    }
                }
            },
            StageSection::Recover => {
                if d.timer < d.static_data.recover_duration {
                    DashOutcome {
                        next: Some(Data { timer: t, ..d }),
                        attack_at: None,
                        steering: free,
                        drains_energy: false,
                        check_interrupt,
                    }
                } else {
                    DashOutcome { next: None, attack_at: None, steering: free, drains_energy: false, check_interrupt }
                }
            },
            _ => DashOutcome { next: None, attack_at: None, steering: free, drains_energy: false, check_interrupt },
        }
    }
}

/// The order in which a dash goes through its sections.
pub open spec fn section_rank(s: StageSection) -> int {
    match s {
        StageSection::Buildup => 0,
        StageSection::Charge => 1,
        StageSection::Swing => 2,
        StageSection::Recover => 3,
        _ => 4,
    }
}

/// A dash never goes back to an earlier section, and whenever it moves on
/// to a new section its timer starts again from zero.
pub proof fn lemma_sections_advance(d: Data, inp: DashInput)
    ensures
        behavior_spec(d, inp).next matches Some(n) ==> section_rank(d.stage_section) <= section_rank(
            n.stage_section,
        ) && (n.stage_section != d.stage_section ==> n.timer == 0),
{
}

/// The charge never ends later than the full charge duration: if that
/// holds of a state, it holds of the next one.
pub proof fn lemma_charge_end_bounded(d: Data, inp: DashInput)
    requires
        d.charge_end_timer <= d.static_data.charge_duration,
    ensures
        behavior_spec(d, inp).next matches Some(n) ==> n.charge_end_timer <= n.static_data.charge_duration
            && n.static_data == d.static_data,
{
}

/// An attack is launched only by a dash that was not exhausted, and leaves
/// it exhausted.
pub proof fn lemma_attack_exhausts(d: Data, inp: DashInput)
    ensures
        behavior_spec(d, inp).attack_at is Some ==> !d.exhausted && (behavior_spec(d, inp).next matches Some(
            n,
        ) && n.exhausted),
{
}

/// A tick keeps every span of the state within what a `Duration` holds.
pub proof fn lemma_spans_stay_valid(d: Data, inp: DashInput)
    requires
        spans_valid(d),
        inp.tick <= MAX_DURATION_NANOS,
        inp.charge_extension <= MAX_DURATION_NANOS,
    ensures
        behavior_spec(d, inp).next matches Some(n) ==> spans_valid(n),
{
}

} // verus!
