use veloren_logic::energy::{Energy, EnergyChange, EnergySource, StatChangeError};

#[test]
fn new_pool_is_full() {
    let e = Energy::new(1000);
    assert_eq!(e.current(), 1000);
    assert_eq!(e.maximum(), 1000);
}

#[test]
fn change_by_clamps_into_range() {
    let mut e = Energy::new(1000);
    e.change_by(EnergyChange { amount: -300, source: EnergySource::Ability });
    assert_eq!(e.current(), 700);
    e.change_by(EnergyChange { amount: 500, source: EnergySource::Regen });
    assert_eq!(e.current(), 1000);
    e.change_by(EnergyChange { amount: -5000, source: EnergySource::Ability });
    assert_eq!(e.current(), 0);
}

#[test]
fn try_change_by_reports_each_bound() {
    let mut e = Energy::new(100);
    e.set_to(50, EnergySource::Unknown);
    assert_eq!(e.try_change_by(-51, EnergySource::Ability), Err(StatChangeError::Underflow));
    assert_eq!(e.current(), 50);
    assert_eq!(e.try_change_by(51, EnergySource::Regen), Err(StatChangeError::Overflow));
    assert_eq!(e.current(), 50);
    assert_eq!(e.try_change_by(50, EnergySource::Regen), Ok(()));
    assert_eq!(e.current(), 100);
}

#[test]
fn try_change_by_round_trip_restores() {
    let mut e = Energy::new(100);
    e.set_to(40, EnergySource::Unknown);
    assert_eq!(e.try_change_by(25, EnergySource::Regen), Ok(()));
    assert_eq!(e.try_change_by(-25, EnergySource::Ability), Ok(()));
    assert_eq!(e.current(), 40);
}

#[test]
fn set_to_caps_at_maximum_and_set_maximum_lowers_current() {
    let mut e = Energy::new(100);
    e.set_to(250, EnergySource::LevelUp);
    assert_eq!(e.current(), 100);
    e.set_maximum(60);
    assert_eq!(e.maximum(), 60);
    assert_eq!(e.current(), 60);
    e.set_maximum(200);
    assert_eq!(e.current(), 60);
}

#[test]
fn last_change_and_rebuilding_from_parts() {
    let mut e = Energy::new(100);
    assert_eq!(e.last_change(), None);
    e.change_by(EnergyChange { amount: -30, source: EnergySource::Climb });
    assert_eq!(e.last_change(), Some((-30, EnergySource::Climb)));
    let copy = Energy::from_parts(e.current(), e.maximum(), e.last_change()).unwrap();
    assert_eq!(copy, e);
    assert!(Energy::from_parts(101, 100, None).is_none());
}
