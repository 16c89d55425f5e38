use veloren_logic::character_states::{
    draw_char_state_group, CharacterState, ChargedMeleeData, ComboMeleeData, LeapMeleeData,
};
use veloren_logic::dash_melee;
use veloren_logic::region::{corrosion, plant_trees, rasterize, Region};
use veloren_logic::stage::StageSection;
use veloren_logic::ui_cache::glyph_cache_dims;

fn rows(state: &CharacterState) -> Vec<(String, String)> {
    draw_char_state_group(state).grid.unwrap().rows
}

fn pair(a: &str, b: &str) -> (String, String) {
    (a.to_string(), b.to_string())
}

#[test]
fn combo_melee_rows() {
    let g = draw_char_state_group(&CharacterState::ComboMelee(ComboMeleeData {
        stage: 2,
        timer: 1_234_567_890,
        num_stages: 3,
    }));
    assert_eq!(g.label, "Current State: ");
    assert_eq!(g.current_state, "ComboMelee");
    let grid = g.grid.unwrap();
    assert_eq!(grid.id, "selected_entity_combo_melee_grid");
    assert_eq!(grid.rows, vec![pair("Stage", "2"), pair("Timer", "1234ms"), pair("num_stages", "3")]);
}

#[test]
fn dash_melee_rows() {
    let d = dash_melee::Data {
        static_data: dash_melee::StaticData {
            charge_through: false,
            buildup_duration: 0,
            charge_duration: 0,
            swing_duration: 0,
            recover_duration: 0,
            is_interruptible: false,
        },
        auto_charge: true,
        timer: 999_999,
        stage_section: StageSection::Charge,
        exhausted: false,
        charge_end_timer: 10_000_000_000,
    };
    assert_eq!(rows(&CharacterState::DashMelee(d)), vec![
        pair("Auto Charge", "True"),
        pair("Timer", "0ms"),
        pair("Stage Section", "Charge"),
        pair("Exhausted", "False "),
        pair("Charge End Timer", "10000ms"),
    ]);
}

#[test]
fn charged_and_leap_rows_and_others() {
    let c = CharacterState::ChargedMelee(ChargedMeleeData {
        stage_section: StageSection::Swing,
        timer: 5_000_000,
        charge_amount: "0.5".to_string(),
        exhausted: true,
    });
    assert_eq!(rows(&c), vec![
        pair("Stage Section", "Swing"),
        pair("Timer", "5ms"),
        pair("Charge Amount", "0.5"),
        pair("Exhausted", "True"),
    ]);
    let l = CharacterState::LeapMelee(LeapMeleeData { stage_section: StageSection::Movement, timer: 0, exhausted: false });
    assert_eq!(rows(&l), vec![pair("Stage Section", "Movement"), pair("Timer", "0ms"), pair("Exhausted", "False ")]);
    let o = draw_char_state_group(&CharacterState::Other("Idle".to_string()));
    assert_eq!(o.label, "Current State: ");
    assert_eq!(o.current_state, "Idle");
    assert!(o.grid.is_none());
}

#[test]
fn large_timers_print_every_digit() {
    let g = draw_char_state_group(&CharacterState::ComboMelee(ComboMeleeData {
        stage: u32::MAX,
        timer: u128::MAX,
        num_stages: 0,
    }));
    let r = g.grid.unwrap().rows;
    assert_eq!(r[0].1, u32::MAX.to_string());
    assert_eq!(r[1].1, format!("{}ms", u128::MAX / 1_000_000));
    assert_eq!(r[2].1, "0");
}

#[test]
fn glyph_cache_is_at_least_512_and_at_most_the_texture_limit() {
    assert_eq!(glyph_cache_dims((1920, 1080), 4096), (1920, 1080));
    assert_eq!(glyph_cache_dims((300, 8000), 4096), (512, 4096));
    assert_eq!(glyph_cache_dims((1920, 1080), 256), (512, 512));
}

#[test]
fn fresh_regions_yield_nothing_yet() {
    let r = Region::new((3, -4));
    assert!(rasterize(&r).is_empty());
    assert!(plant_trees(&r).is_empty());
    assert!(corrosion(&r).is_empty());
}
