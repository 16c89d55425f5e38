use vstd::prelude::*;
use crate::stage::{tick_or_default, ticked, StageSection, MAX_DURATION_NANOS};

verus! {

/// What an aura cast does that does not change over its course. Spans are
/// in nanoseconds.
#[derive(Clone, Copy, Debug, PartialEq, Eq, Structural)]
pub struct StaticData {
    /// How long until the aura is created.
    pub buildup_duration: u128,
    /// How long the cast lasts.
    pub cast_duration: u128,
    /// How long until the state ends after the cast.
    pub recover_duration: u128,
    /// Whether the aura grows with the caster's combo.
    pub scales_with_combo: bool,
}

/// The state of an aura cast.
#[derive(Clone, Copy, Debug, PartialEq, Eq, Structural)]
pub struct Data {
    pub static_data: StaticData,
    /// Time spent in the current section, in nanoseconds.
    pub timer: u128,
    pub stage_section: StageSection,
    /// Whether the aura has been created already.
    pub exhausted: bool,
    /// The combo counter taken on the first tick; zero until then.
    pub combo_at_cast: u32,
}

/// Every span of `d` fits in a `Duration`.
pub open spec fn spans_valid(d: Data) -> bool {
    &&& d.timer <= MAX_DURATION_NANOS
    &&& d.static_data.buildup_duration <= MAX_DURATION_NANOS
    &&& d.static_data.cast_duration <= MAX_DURATION_NANOS
    &&& d.static_data.recover_duration <= MAX_DURATION_NANOS
}

/// What the world tells an aura cast on one tick.
#[derive(Clone, Copy, Debug, PartialEq, Eq, Structural)]
pub struct AuraInput {
    /// Whether the ability's input is held.
    pub input_pressed: bool,
    /// The caster's combo counter.
    pub combo: u32,
    /// How far the timer advances this tick, in nanoseconds.
    pub tick: u128,
}

/// What one tick of an aura cast decides.
#[derive(Clone, Copy, Debug, PartialEq, Eq, Structural)]
pub struct AuraOutcome {
    /// The next state; `None` returns the caster to wielding its weapon.
    pub next: Option<Data>,
    /// The combo counter is spent: it drops by this much.
    pub combo_spent: Option<u32>,
    /// The aura is created, scaled by this combo.
    pub casts_aura: Option<u32>,
    /// Whether the state may be interrupted by another ability.
    pub check_interrupt: bool,
}

/// One tick of an aura cast: build up (taking the combo on the first tick),
/// create the aura once, cast, recover, then return to wielding.
pub open spec fn behavior_spec(d: Data, inp: AuraInput) -> AuraOutcome {
    let t = ticked(d.timer, inp.tick);
    let check_interrupt = !inp.input_pressed;
    match d.stage_section {
        StageSection::Buildup => if d.timer < d.static_data.buildup_duration {
            let first = d.combo_at_cast == 0;
            AuraOutcome {
                next: Some(Data { timer: t, combo_at_cast: if first { inp.combo } else { d.combo_at_cast }, ..d }),
                combo_spent: if first && d.static_data.scales_with_combo { Some(inp.combo) } else { None },
                casts_aura: None,
                check_interrupt,
            }
        } else if !d.exhausted {
            AuraOutcome {
                next: Some(Data { timer: 0, stage_section: StageSection::Cast, exhausted: true, ..d }),
                combo_spent: None,
                casts_aura: Some(d.combo_at_cast),
                check_interrupt,
            }
        } else {
            AuraOutcome { next: Some(d), combo_spent: None, casts_aura: None, check_interrupt }
        },
        StageSection::Cast => if d.timer < d.static_data.cast_duration {
            AuraOutcome { next: Some(Data { timer: t, ..d }), combo_spent: None, casts_aura: None, check_interrupt }
        } else {
            AuraOutcome {
                next: Some(Data { timer: 0, stage_section: StageSection::Recover, ..d }),
                combo_spent: None,
                casts_aura: None,
                check_interrupt,
            }
        },
        StageSection::Recover => if d.timer < d.static_data.recover_duration {
            AuraOutcome { next: Some(Data { timer: t, ..d }), combo_spent: None, casts_aura: None, check_interrupt }
        } else {
            AuraOutcome { next: None, combo_spent: None, casts_aura: None, check_interrupt }
        },
        _ => AuraOutcome { next: None, combo_spent: None, casts_aura: None, check_interrupt },
    }
}

impl Data {
    /// One tick of the aura cast; see `behavior_spec`.
    pub fn behavior(&self, inp: &AuraInput) -> (r: AuraOutcome)
        requires
            spans_valid(*self),
            inp.tick <= MAX_DURATION_NANOS,
        ensures
            r == behavior_spec(*self, *inp),
    {
        let d = *self;
        let t = tick_or_default(d.timer, inp.tick);
        let check_interrupt = !inp.input_pressed;
        match d.stage_section {
            StageSection::Buildup => {
                if d.timer < d.static_data.buildup_duration {
                    let first = d.combo_at_cast == 0;
                    let combo_at_cast = if first { inp.combo } else { d.combo_at_cast };
                    let combo_spent = if first && d.static_data.scales_with_combo { Some(inp.combo) } else { None };
                    AuraOutcome { next: Some(Data { timer: t, combo_at_cast, ..d }), combo_spent, casts_aura: None, check_interrupt }
                } else if !d.exhausted {
                    AuraOutcome {
                        next: Some(Data { timer: 0, stage_section: StageSection::Cast, exhausted: true, ..d }),
                        combo_spent: None,
                        casts_aura: Some(d.combo_at_cast),
                        check_interrupt,
                    }
                } else {
                    AuraOutcome { next: Some(d), combo_spent: None, casts_aura: None, check_interrupt }
                }
            },
            StageSection::Cast => {
                if d.timer < d.static_data.cast_duration {
                    AuraOutcome { next: Some(Data { timer: t, ..d }), combo_spent: None, casts_aura: None, check_interrupt }
                } else {
                    AuraOutcome {
                        next: Some(Data { timer: 0, stage_section: StageSection::Recover, ..d }),
                        combo_spent: None,
                        casts_aura: None,
                        check_interrupt,
                    }
                }
            },
            StageSection::Recover => {
                if d.timer < d.static_data.recover_duration {
                    AuraOutcome { next: Some(Data { timer: t, ..d }), combo_spent: None, casts_aura: None, check_interrupt }
                } else {
                    AuraOutcome { next: None, combo_spent: None, casts_aura: None, check_interrupt }
                }
            },
            _ => AuraOutcome { next: None, combo_spent: None, casts_aura: None, check_interrupt },
        }
    }
}

/// The aura is created at most once: only a cast that has not created it
/// yet does so, and from then on the state stays exhausted.
pub proof fn lemma_aura_cast_once(d: Data, inp: AuraInput)
    ensures
        behavior_spec(d, inp).casts_aura is Some ==> !d.exhausted,
        behavior_spec(d, inp).next matches Some(n) ==> (d.exhausted ==> n.exhausted) && (behavior_spec(
            d,
            inp,
        ).casts_aura is Some ==> n.exhausted),
{
}

/// An aura ends only out of its recovery: the state ends (no next state)
/// only from the Recover section once its recover time has passed, or from
/// a section an aura never enters. A Cast that is over always moves on into
/// Recover with its timer reset and everything else kept, and the Cast
/// section is only ever left for Recover.
pub proof fn lemma_aura_ends_only_after_recovery(d: Data, inp: AuraInput)
    ensures
        behavior_spec(d, inp).next is None ==> (d.stage_section == StageSection::Recover && d.timer
            >= d.static_data.recover_duration) || (d.stage_section != StageSection::Buildup && d.stage_section
            != StageSection::Cast && d.stage_section != StageSection::Recover),
        d.stage_section == StageSection::Cast && d.timer >= d.static_data.cast_duration ==> behavior_spec(d, inp).next
            == Some(Data { timer: 0, stage_section: StageSection::Recover, ..d }),
        d.stage_section == StageSection::Cast ==> (behavior_spec(d, inp).next matches Some(n) && (n.stage_section
            == StageSection::Cast || n.stage_section == StageSection::Recover)),
        d.stage_section == StageSection::Recover && d.timer < d.static_data.recover_duration ==> (behavior_spec(
            d,
            inp,
        ).next matches Some(n) && n.stage_section == StageSection::Recover),
{
}

/// A tick keeps every span of the state within what a `Duration` holds.
pub proof fn lemma_spans_stay_valid(d: Data, inp: AuraInput)
    requires
        spans_valid(d),
        inp.tick <= MAX_DURATION_NANOS,
    ensures
        behavior_spec(d, inp).next matches Some(n) ==> spans_valid(n),
{
}

} // verus!
