use vstd::prelude::*;
use vstd::string::StringExecFns;
use crate::text::{decimal, decimal_string, push_decimal};
use crate::dash_melee::Data as DashMeleeData;
use crate::stage::StageSection;

verus! {

/// The name a stage section is shown by.
pub open spec fn section_text(s: StageSection) -> Seq<char> {
    match s {
        StageSection::Buildup => "Buildup"@,
        StageSection::Swing => "Swing"@,
        StageSection::Recover => "Recover"@,
        StageSection::Charge => "Charge"@,
        StageSection::Cast => "Cast"@,
        StageSection::Shoot => "Shoot"@,
        StageSection::Movement => "Movement"@,
    }
}

fn section_str(s: StageSection) -> (r: &'static str)
    ensures
        r@ == section_text(s),
{
    match s {
        StageSection::Buildup => "Buildup",
        StageSection::Swing => "Swing",
        StageSection::Recover => "Recover",
        StageSection::Charge => "Charge",
        StageSection::Cast => "Cast",
        StageSection::Shoot => "Shoot",
        StageSection::Movement => "Movement",
    }
}

/// How a flag is shown (the text for `false` keeps its trailing space).
pub open spec fn flag_text(b: bool) -> Seq<char> {
    if b {
        "True"@
    } else {
        "False "@
    }
}

fn flag_str(b: bool) -> (r: &'static str)
    ensures
        r@ == flag_text(b),
{
    if b {
        "True"
    } else {
        "False "
    }
}

/// A span of nanoseconds shown in whole milliseconds.
pub open spec fn millis_text(nanos: u128) -> Seq<char> {
    decimal((nanos / 1_000_000) as nat) + "ms"@
}

fn millis_string(nanos: u128) -> (r: String)
    ensures
        r@ == millis_text(nanos),
{
    let mut s = String::new();
    push_decimal(&mut s, nanos / 1_000_000);
    s.append("ms");
    assert(s@ =~= millis_text(nanos));
    s
}

/// A combo attack, as the debug view shows it.
#[derive(Clone, Copy, Debug, PartialEq, Eq, Structural)]
pub struct ComboMeleeData {
    pub stage: u32,
    /// Time spent in the current stage, in nanoseconds.
    pub timer: u128,
    pub num_stages: u32,
}

/// A charged attack, as the debug view shows it. The charge amount comes
/// already written with one decimal.
#[derive(Clone, Debug)]
pub struct ChargedMeleeData {
    pub stage_section: StageSection,
    /// Time spent in the current section, in nanoseconds.
    pub timer: u128,
    pub charge_amount: String,
    pub exhausted: bool,
}

/// A leap attack, as the debug view shows it.
#[derive(Clone, Copy, Debug, PartialEq, Eq, Structural)]
pub struct LeapMeleeData {
    pub stage_section: StageSection,
    /// Time spent in the current section, in nanoseconds.
    pub timer: u128,
    pub exhausted: bool,
}

/// The state of a character, as far as the debug view shows details of it.
#[derive(Clone, Debug)]
pub enum CharacterState {
    ComboMelee(ComboMeleeData),
    DashMelee(DashMeleeData),
    ChargedMelee(ChargedMeleeData),
    LeapMelee(LeapMeleeData),
    /// Any other state, by the name it is shown with: only that name is
    /// shown.
    Other(String),
}

/// The name a state is shown by: the variant's name, or the name an other
/// state carries.
pub open spec fn state_name(state: CharacterState) -> Seq<char> {
    match state {
        CharacterState::ComboMelee(_) => "ComboMelee"@,
        CharacterState::DashMelee(_) => "DashMelee"@,
        CharacterState::ChargedMelee(_) => "ChargedMelee"@,
        CharacterState::LeapMelee(_) => "LeapMelee"@,
        CharacterState::Other(name) => name@,
    }
}

fn state_name_string(state: &CharacterState) -> (r: String)
    ensures
        r@ == state_name(*state),
{
    match state {
        CharacterState::ComboMelee(_) => String::from_str("ComboMelee"),
        CharacterState::DashMelee(_) => String::from_str("DashMelee"),
        CharacterState::ChargedMelee(_) => String::from_str("ChargedMelee"),
        CharacterState::LeapMelee(_) => String::from_str("LeapMelee"),
        CharacterState::Other(name) => name.clone(),
    }
}

/// A grid of labelled values.
#[derive(Clone, Debug)]
pub struct Grid {
    pub id: String,
    pub rows: Vec<(String, String)>,
}

/// What the debug view shows of a character's state: a row with a label
/// and the state's name, and for an attack, a grid of details.
#[derive(Clone, Debug)]
pub struct CharStateGroup {
    pub label: String,
    pub current_state: String,
    pub grid: Option<Grid>,
}

/// The rows shown for a combo attack.
pub open spec fn combo_melee_rows(d: ComboMeleeData) -> Seq<(Seq<char>, Seq<char>)> {
    seq![("Stage"@, decimal(d.stage as nat)), ("Timer"@, millis_text(d.timer)), ("num_stages"@, decimal(d.num_stages as nat))]
}

/// The rows shown for a dash attack.
pub open spec fn dash_melee_rows(d: DashMeleeData) -> Seq<(Seq<char>, Seq<char>)> {
    seq![
        ("Auto Charge"@, flag_text(d.auto_charge)),
        ("Timer"@, millis_text(d.timer)),
        ("Stage Section"@, section_text(d.stage_section)),
        ("Exhausted"@, flag_text(d.exhausted)),
        ("Charge End Timer"@, millis_text(d.charge_end_timer)),
    ]
}

/// The rows shown for a charged attack.
pub open spec fn charged_melee_rows(d: ChargedMeleeData) -> Seq<(Seq<char>, Seq<char>)> {
    seq![
        ("Stage Section"@, section_text(d.stage_section)),
        ("Timer"@, millis_text(d.timer)),
        ("Charge Amount"@, d.charge_amount@),
        ("Exhausted"@, flag_text(d.exhausted)),
    ]
}

/// The rows shown for a leap attack.
pub open spec fn leap_melee_rows(d: LeapMeleeData) -> Seq<(Seq<char>, Seq<char>)> {
    seq![("Stage Section"@, section_text(d.stage_section)), ("Timer"@, millis_text(d.timer)), ("Exhausted"@, flag_text(d.exhausted))]
}

/// The grid id and the rows shown for a state, as text; no grid for states
/// without details.
pub open spec fn grid_spec(state: CharacterState) -> Option<(Seq<char>, Seq<(Seq<char>, Seq<char>)>)> {
    match state {
        CharacterState::ComboMelee(d) => Some(("selected_entity_combo_melee_grid"@, combo_melee_rows(d))),
        CharacterState::DashMelee(d) => Some(("selected_entity_dash_melee_grid"@, dash_melee_rows(d))),
        CharacterState::ChargedMelee(d) => Some(("selected_entity_charged_melee_grid"@, charged_melee_rows(d))),
        CharacterState::LeapMelee(d) => Some(("selected_entity_leap_melee_grid"@, leap_melee_rows(d))),
        CharacterState::Other(_) => None,
    }
}

/// Whether `g` shows the grid `id` with the rows `rows`.
pub open spec fn shows(g: Grid, id: Seq<char>, rows: Seq<(Seq<char>, Seq<char>)>) -> bool {
    &&& g.id@ == id
    &&& g.rows@.len() == rows.len()
    &&& forall|i: int| 0 <= i < rows.len() ==> (#[trigger] g.rows@[i]).0@ == rows[i].0 && g.rows@[i].1@ == rows[i].1
}

fn charged_melee_grid(d: &ChargedMeleeData) -> (g: Grid)
    ensures
        shows(g, "selected_entity_charged_melee_grid"@, charged_melee_rows(*d)),
{
    let rows = vec![
        row("Stage Section", String::from_str(section_str(d.stage_section))),
        row("Timer", millis_string(d.timer)),
        row("Charge Amount", d.charge_amount.clone()),
        row("Exhausted", String::from_str(flag_str(d.exhausted))),
    ];
    Grid { id: String::from_str("selected_entity_charged_melee_grid"), rows }
}

fn combo_melee_grid(d: &ComboMeleeData) -> (g: Grid)
    ensures
        shows(g, "selected_entity_combo_melee_grid"@, combo_melee_rows(*d)),
{
    let rows = vec![
        row("Stage", decimal_string(d.stage as u128)),
        row("Timer", millis_string(d.timer)),
        row("num_stages", decimal_string(d.num_stages as u128)),
    ];
    Grid { id: String::from_str("selected_entity_combo_melee_grid"), rows }
}

fn dash_melee_grid(d: &DashMeleeData) -> (g: Grid)
    ensures
        shows(g, "selected_entity_dash_melee_grid"@, dash_melee_rows(*d)),
{
    let rows = vec![
        row("Auto Charge", String::from_str(flag_str(d.auto_charge))),
        row("Timer", millis_string(d.timer)),
        row("Stage Section", String::from_str(section_str(d.stage_section))),
        row("Exhausted", String::from_str(flag_str(d.exhausted))),
        row("Charge End Timer", millis_string(d.charge_end_timer)),
    ];
    Grid { id: String::from_str("selected_entity_dash_melee_grid"), rows }
}

fn leap_melee_grid(d: &LeapMeleeData) -> (g: Grid)
    ensures
        shows(g, "selected_entity_leap_melee_grid"@, leap_melee_rows(*d)),
{
    let rows = vec![
        row("Stage Section", String::from_str(section_str(d.stage_section))),
        row("Timer", millis_string(d.timer)),
        row("Exhausted", String::from_str(flag_str(d.exhausted))),
    ];
    Grid { id: String::from_str("selected_entity_leap_melee_grid"), rows }
}

fn row(label: &str, value: String) -> (r: (String, String))
    ensures
        r.0@ == label@,
        r.1@ == value@,
{
    (String::from_str(label), value)
}

/// Lays out the debug view of a character's state: a row with the label
/// "Current State: " and the state's name, then, for the attacks that have
/// details, a grid of them, one row per value.
pub fn draw_char_state_group(character_state: &CharacterState) -> (r: CharStateGroup)
    ensures
        r.label@ == "Current State: "@,
        r.current_state@ == state_name(*character_state),
        match grid_spec(*character_state) {
            Some((id, rows)) => r.grid matches Some(g) && shows(g, id, rows),
            None => r.grid is None,
        },
{
    let label = String::from_str("Current State: ");
    let current_state = state_name_string(character_state);
    let grid = match character_state {
        CharacterState::ComboMelee(d) => Some(combo_melee_grid(d)),
        CharacterState::DashMelee(d) => Some(dash_melee_grid(d)),
        CharacterState::ChargedMelee(d) => Some(charged_melee_grid(d)),
        CharacterState::LeapMelee(d) => Some(leap_melee_grid(d)),
        CharacterState::Other(_) => None,
    };
    CharStateGroup { label, current_state, grid }
}

} // verus!
