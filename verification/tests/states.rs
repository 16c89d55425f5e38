use veloren_logic::basic_aura::{self, AuraInput};
use veloren_logic::boost::{self, Push};
use veloren_logic::dash_melee::{self, DashInput, MeleeFacts, Steering};
use veloren_logic::stage::{checked_add_span, tick_or_default, StageSection, MAX_DURATION_NANOS};

const MS: u128 = 1_000_000;

fn dash(section: StageSection, timer: u128, exhausted: bool, charge_through: bool) -> dash_melee::Data {
    dash_melee::Data {
        static_data: dash_melee::StaticData {
            charge_through,
            buildup_duration: 100 * MS,
            charge_duration: 1000 * MS,
            swing_duration: 100 * MS,
            recover_duration: 200 * MS,
            is_interruptible: true,
        },
        auto_charge: false,
        timer,
        stage_section: section,
        exhausted,
        charge_end_timer: 1000 * MS,
    }
}

fn input(pressed: bool, melee: Option<MeleeFacts>) -> DashInput {
    DashInput { input_pressed: pressed, has_energy: true, melee, tick: 10 * MS, charge_extension: 50 * MS }
}

#[test]
fn spans_add_like_durations() {
    assert_eq!(checked_add_span(1, 2), Some(3));
    assert_eq!(checked_add_span(MAX_DURATION_NANOS, 1), None);
    assert_eq!(tick_or_default(MAX_DURATION_NANOS, 1), 0);
    assert_eq!(tick_or_default(5, 6), 11);
}

#[test]
fn dash_builds_up_then_charges() {
    let d = dash(StageSection::Buildup, 0, false, false);
    let r = d.behavior(&input(true, None));
    assert_eq!(r.next.unwrap().timer, 10 * MS);
    assert_eq!(r.steering, Steering::Turning);
    let d = dash(StageSection::Buildup, 100 * MS, false, false);
    let r = d.behavior(&input(false, None));
    let n = r.next.unwrap();
    assert_eq!(n.stage_section, StageSection::Charge);
    assert_eq!(n.timer, 0);
    assert!(n.auto_charge);
    assert!(r.check_interrupt);
}

#[test]
fn dash_attacks_once_per_hit_attempt() {
    let d = dash(StageSection::Charge, 20 * MS, false, false);
    let r = d.behavior(&input(true, None));
    assert_eq!(r.attack_at, Some(20 * MS));
    assert!(r.drains_energy);
    assert_eq!(r.steering, Steering::Charging);
    let n = r.next.unwrap();
    assert!(n.exhausted);
    // The attack has not landed yet: keep charging.
    let r = n.behavior(&input(true, Some(MeleeFacts { applied: false, hit_count: 0 })));
    assert_eq!(r.attack_at, None);
    assert!(r.next.unwrap().exhausted);
    // It landed and hit nothing: may attack again.
    let r = n.behavior(&input(true, Some(MeleeFacts { applied: true, hit_count: 0 })));
    assert!(!r.next.unwrap().exhausted);
    // It hit something: swing.
    let r = n.behavior(&input(true, Some(MeleeFacts { applied: true, hit_count: 1 })));
    let s = r.next.unwrap();
    assert_eq!(s.stage_section, StageSection::Swing);
    assert_eq!(s.timer, 0);
}

#[test]
fn dash_charging_through_extends_the_charge_end() {
    let d = dash(StageSection::Charge, 300 * MS, true, true);
    let r = d.behavior(&input(true, Some(MeleeFacts { applied: true, hit_count: 2 })));
    let n = r.next.unwrap();
    assert_eq!(n.charge_end_timer, 350 * MS);
    assert_eq!(n.stage_section, StageSection::Charge);
    // Already extended: stays put.
    let r = n.behavior(&input(true, Some(MeleeFacts { applied: true, hit_count: 2 })));
    assert_eq!(r.next.unwrap().charge_end_timer, 350 * MS);
}

#[test]
fn dash_swings_recovers_and_ends() {
    let d = dash(StageSection::Swing, 0, false, true);
    let r = d.behavior(&input(true, None));
    assert_eq!(r.attack_at, Some(1000 * MS));
    let d = dash(StageSection::Swing, 100 * MS, true, false);
    let n = d.behavior(&input(true, None)).next.unwrap();
    assert_eq!(n.stage_section, StageSection::Recover);
    let d = dash(StageSection::Recover, 200 * MS, true, false);
    assert!(d.behavior(&input(true, None)).next.is_none());
    let d = dash(StageSection::Cast, 0, true, false);
    assert!(d.behavior(&input(true, None)).next.is_none());
}

#[test]
fn dash_stops_charging_without_input_or_energy() {
    let d = dash(StageSection::Charge, 20 * MS, false, false);
    let mut inp = input(true, None);
    inp.has_energy = false;
    let r = d.behavior(&inp);
    assert_eq!(r.next.unwrap().stage_section, StageSection::Swing);
    assert_eq!(r.attack_at, None);
    assert!(!r.drains_energy);
}

fn aura(section: StageSection, timer: u128, exhausted: bool, combo: u32) -> basic_aura::Data {
    basic_aura::Data {
        static_data: basic_aura::StaticData {
            buildup_duration: 100 * MS,
            cast_duration: 100 * MS,
            recover_duration: 100 * MS,
            scales_with_combo: true,
        },
        timer,
        stage_section: section,
        exhausted,
        combo_at_cast: combo,
    }
}

#[test]
fn aura_takes_combo_once_and_casts_once() {
    let inp = AuraInput { input_pressed: true, combo: 7, tick: 10 * MS };
    let r = aura(StageSection::Buildup, 0, false, 0).behavior(&inp);
    assert_eq!(r.combo_spent, Some(7));
    assert_eq!(r.next.unwrap().combo_at_cast, 7);
    let r = aura(StageSection::Buildup, 10 * MS, false, 7).behavior(&inp);
    assert_eq!(r.combo_spent, None);
    let r = aura(StageSection::Buildup, 100 * MS, false, 7).behavior(&inp);
    assert_eq!(r.casts_aura, Some(7));
    let n = r.next.unwrap();
    assert_eq!(n.stage_section, StageSection::Cast);
    assert!(n.exhausted);
    let r = aura(StageSection::Buildup, 100 * MS, true, 7).behavior(&inp);
    assert_eq!(r.casts_aura, None);
    assert_eq!(r.next, Some(aura(StageSection::Buildup, 100 * MS, true, 7)));
    assert!(aura(StageSection::Recover, 100 * MS, true, 7).behavior(&inp).next.is_none());
}

#[test]
fn boost_pushes_until_its_time_is_up() {
    let d = boost::Data { static_data: boost::StaticData { movement_duration: 50 * MS, only_up: true }, timer: 0 };
    let (n, push) = d.behavior(16 * MS);
    assert_eq!(push, Some(Push::Up));
    assert_eq!(n.unwrap().timer, 16 * MS);
    let d = boost::Data { static_data: boost::StaticData { movement_duration: 50 * MS, only_up: false }, timer: 20 * MS };
    assert_eq!(d.behavior(16 * MS).1, Some(Push::Forward));
    let d = boost::Data { static_data: boost::StaticData { movement_duration: 50 * MS, only_up: false }, timer: 50 * MS };
    assert_eq!(d.behavior(16 * MS), (None, None));
}
