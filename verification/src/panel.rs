//! The panels at the sides of the map: what stands on them and how it looks.

use crate::config::{adjusted, law_adjusting_touches_one_setting, law_push_goes_its_way};
use crate::config::{setting_of, setting_range, RobotConfig, SettingKey};
use crate::operator::{Interaction, UiAction};
use crate::order::{law_negation, law_one, law_ratio_order, law_zero};
use crate::paint::Colour;
use crate::scalar::Scalar;
use vstd::prelude::*;

verus! {

/// What an item of a panel is.
#[derive(Clone, Copy, Debug, PartialEq, Eq, Structural)]
pub enum PanelKind {
    /// The title of the panel.
    Heading,
    /// The title of a section.
    Section,
    /// An explanation.
    Muted,
    /// A button.
    Button(UiAction),
    /// A setting with its two buttons.
    Setting(SettingKey),
    /// What the next click does.
    Placement,
    /// The live part.
    Telemetry,
}

/// An item of a panel.
#[derive(Clone, Copy, Debug)]
pub struct PanelItem {
    /// What it is.
    pub kind: PanelKind,
    /// Its text; of the live parts, the text before there is any.
    pub text: &'static str,
}

/// The items of a panel, with their texts as character sequences.
pub open spec fn panel_rows(items: Seq<PanelItem>) -> Seq<(PanelKind, Seq<char>)> {
    items.map_values(|item: PanelItem| (item.kind, item.text@))
}

/// The left panel: steering, the map and the live part.
pub open spec fn left_panel_rows() -> Seq<(PanelKind, Seq<char>)> {
    seq![
        (PanelKind::Heading, "SPIDERBOT CONTROL"@),
        (PanelKind::Muted, "W Forward   S Backward\nA LEFT      D RIGHT\nSpace Stop\nM Auto      N Manual"@),
        (PanelKind::Section, "MODE"@),
        (PanelKind::Button(UiAction::Manual), "Manual"@),
        (PanelKind::Button(UiAction::Automatic), "Automatic / Potential Field"@),
        (PanelKind::Section, "MOVEMENT"@),
        (PanelKind::Button(UiAction::Forward), "W  Forward"@),
        (PanelKind::Button(UiAction::Backward), "S  Backward"@),
        (PanelKind::Button(UiAction::Left), "A  LEFT"@),
        (PanelKind::Button(UiAction::Right), "D  RIGHT"@),
        (PanelKind::Button(UiAction::Stop), "STOP"@),
        (PanelKind::Section, "WORLD"@),
        (PanelKind::Button(UiAction::ResetRobot), "Reset Robot"@),
        (PanelKind::Button(UiAction::ResetCamera), "Reset Camera"@),
        (PanelKind::Button(UiAction::AddObstacle), "Add Obstacle"@),
        (PanelKind::Button(UiAction::AddClimbStep), "Add Climb Box"@),
        (PanelKind::Button(UiAction::ChangeGoal), "Change Destination"@),
        (PanelKind::Button(UiAction::ClearObstacles), "Clear Obstacles"@),
        (PanelKind::Placement, "Ready."@),
        (PanelKind::Section, "LIVE"@),
        (PanelKind::Telemetry, "Starting controller..."@),
        (PanelKind::Section, "MOUSE"@),
        (PanelKind::Muted, "Left drag: move obstacle\nRight drag: orbit\nMiddle drag: pan\nWheel: zoom"@),
    ]
}

/// The right panel: the settings.
pub open spec fn right_panel_rows() -> Seq<(PanelKind, Seq<char>)> {
    seq![
        (PanelKind::Heading, "ROBOT MODEL"@),
        (PanelKind::Muted, "Red cube = Servo A (swing)\nOrange cube = Servo B (lift)\nEach leg has 2 visible servos."@),
        (PanelKind::Section, "LEG GEOMETRY"@),
        (PanelKind::Setting(SettingKey::ABLength), "A -> B"@),
        (PanelKind::Setting(SettingKey::BFootLength), "B -> Foot"@),
        (PanelKind::Setting(SettingKey::LinkWidth), "Link width"@),
        (PanelKind::Section, "BODY"@),
        (PanelKind::Setting(SettingKey::BodyWidth), "Body width"@),
        (PanelKind::Setting(SettingKey::BodyLength), "Body length"@),
        (PanelKind::Setting(SettingKey::BodyMass), "Body mass"@),
        (PanelKind::Section, "LEG MASS MODEL"@),
        (PanelKind::Setting(SettingKey::ABMass), "A-B mass"@),
        (PanelKind::Setting(SettingKey::BFootMass), "B-Foot mass"@),
        (PanelKind::Section, "TIMING"@),
        (PanelKind::Muted, "Controller: 50 Hz\nControl budget: 20 ms\nGait: 1.0 s / leg\nFull crawl: 4.0 s"@),
        (PanelKind::Section, "MAP LEGEND"@),
        (PanelKind::Muted, "White arrow: robot front\nYellow arrow: command\nGreen line: destination\nBrown box: climb experiment"@),
    ]
}

/// The left panel: steering, the map and the live part.
pub fn left_panel() -> (items: Vec<PanelItem>)
    ensures
        panel_rows(items@) == left_panel_rows(),
{
    let items = vec![
        PanelItem { kind: PanelKind::Heading, text: "SPIDERBOT CONTROL" },
        PanelItem { kind: PanelKind::Muted, text: "W Forward   S Backward\nA LEFT      D RIGHT\nSpace Stop\nM Auto      N Manual" },
        PanelItem { kind: PanelKind::Section, text: "MODE" },
        PanelItem { kind: PanelKind::Button(UiAction::Manual), text: "Manual" },
        PanelItem { kind: PanelKind::Button(UiAction::Automatic), text: "Automatic / Potential Field" },
        PanelItem { kind: PanelKind::Section, text: "MOVEMENT" },
        PanelItem { kind: PanelKind::Button(UiAction::Forward), text: "W  Forward" },
        PanelItem { kind: PanelKind::Button(UiAction::Backward), text: "S  Backward" },
        PanelItem { kind: PanelKind::Button(UiAction::Left), text: "A  LEFT" },
        PanelItem { kind: PanelKind::Button(UiAction::Right), text: "D  RIGHT" },
        PanelItem { kind: PanelKind::Button(UiAction::Stop), text: "STOP" },
        PanelItem { kind: PanelKind::Section, text: "WORLD" },
        PanelItem { kind: PanelKind::Button(UiAction::ResetRobot), text: "Reset Robot" },
        PanelItem { kind: PanelKind::Button(UiAction::ResetCamera), text: "Reset Camera" },
        PanelItem { kind: PanelKind::Button(UiAction::AddObstacle), text: "Add Obstacle" },
        PanelItem { kind: PanelKind::Button(UiAction::AddClimbStep), text: "Add Climb Box" },
        PanelItem { kind: PanelKind::Button(UiAction::ChangeGoal), text: "Change Destination" },
        PanelItem { kind: PanelKind::Button(UiAction::ClearObstacles), text: "Clear Obstacles" },
        PanelItem { kind: PanelKind::Placement, text: "Ready." },
        PanelItem { kind: PanelKind::Section, text: "LIVE" },
        PanelItem { kind: PanelKind::Telemetry, text: "Starting controller..." },
        PanelItem { kind: PanelKind::Section, text: "MOUSE" },
        PanelItem { kind: PanelKind::Muted, text: "Left drag: move obstacle\nRight drag: orbit\nMiddle drag: pan\nWheel: zoom" },
    ];
    assert(panel_rows(items@) =~= left_panel_rows());
    items
}

/// The right panel: the settings.
pub fn right_panel() -> (items: Vec<PanelItem>)
    ensures
        panel_rows(items@) == right_panel_rows(),
{
    let items = vec![
        PanelItem { kind: PanelKind::Heading, text: "ROBOT MODEL" },
        PanelItem { kind: PanelKind::Muted, text: "Red cube = Servo A (swing)\nOrange cube = Servo B (lift)\nEach leg has 2 visible servos." },
        PanelItem { kind: PanelKind::Section, text: "LEG GEOMETRY" },
        PanelItem { kind: PanelKind::Setting(SettingKey::ABLength), text: "A -> B" },
        PanelItem { kind: PanelKind::Setting(SettingKey::BFootLength), text: "B -> Foot" },
        PanelItem { kind: PanelKind::Setting(SettingKey::LinkWidth), text: "Link width" },
        PanelItem { kind: PanelKind::Section, text: "BODY" },
        PanelItem { kind: PanelKind::Setting(SettingKey::BodyWidth), text: "Body width" },
        PanelItem { kind: PanelKind::Setting(SettingKey::BodyLength), text: "Body length" },
        PanelItem { kind: PanelKind::Setting(SettingKey::BodyMass), text: "Body mass" },
        PanelItem { kind: PanelKind::Section, text: "LEG MASS MODEL" },
        PanelItem { kind: PanelKind::Setting(SettingKey::ABMass), text: "A-B mass" },
        PanelItem { kind: PanelKind::Setting(SettingKey::BFootMass), text: "B-Foot mass" },
        PanelItem { kind: PanelKind::Section, text: "TIMING" },
        PanelItem { kind: PanelKind::Muted, text: "Controller: 50 Hz\nControl budget: 20 ms\nGait: 1.0 s / leg\nFull crawl: 4.0 s" },
        PanelItem { kind: PanelKind::Section, text: "MAP LEGEND" },
        PanelItem { kind: PanelKind::Muted, text: "White arrow: robot front\nYellow arrow: command\nGreen line: destination\nBrown box: climb experiment" },
    ];
    assert(panel_rows(items@) =~= right_panel_rows());
    items
}

/// Whether a panel has an item of a kind exactly once.
pub open spec fn has_once(rows: Seq<(PanelKind, Seq<char>)>, kind: PanelKind) -> bool {
    exists|i: int|
        0 <= i < rows.len() && (#[trigger] rows[i]).0 == kind && forall|j: int|
            0 <= j < rows.len() && (#[trigger] rows[j]).0 == kind ==> j == i
}

/// Every action but the settings has exactly one button on the left panel.
pub proof fn law_every_action_has_a_button(action: UiAction)
    requires
        action !is Adjust,
    ensures
        has_once(left_panel_rows(), PanelKind::Button(action)),
{
    let rows = left_panel_rows();
    let i: int = match action {
        UiAction::Manual => 3,
        UiAction::Automatic => 4,
        UiAction::Forward => 6,
        UiAction::Backward => 7,
        UiAction::Left => 8,
        UiAction::Right => 9,
        UiAction::Stop => 10,
        UiAction::ResetRobot => 12,
        UiAction::ResetCamera => 13,
        UiAction::AddObstacle => 14,
        UiAction::AddClimbStep => 15,
        UiAction::ChangeGoal => 16,
        _ => 17,
    };
    assert(rows[i].0 == PanelKind::Button(action));
}

/// Every setting has exactly one row on the right panel.
pub proof fn law_every_setting_has_a_row(key: SettingKey)
    ensures
        has_once(right_panel_rows(), PanelKind::Setting(key)),
{
    let rows = right_panel_rows();
    let i: int = match key {
        SettingKey::ABLength => 3,
        SettingKey::BFootLength => 4,
        SettingKey::LinkWidth => 5,
        SettingKey::BodyWidth => 7,
        SettingKey::BodyLength => 8,
        SettingKey::BodyMass => 9,
        SettingKey::ABMass => 11,
        SettingKey::BFootMass => 12,
    };
    assert(rows[i].0 == PanelKind::Setting(key));
}

/// What a cell of a setting's row is.
#[derive(Clone, Copy, Debug, PartialEq, Eq, Structural)]
pub enum CellKind {
    /// The name of the setting.
    Label,
    /// A small button.
    Push(UiAction),
    /// The value of the setting.
    Value(SettingKey),
}

/// A cell of a setting's row.
#[derive(Clone, Copy, Debug)]
pub struct RowCell {
    /// What it is.
    pub kind: CellKind,
    /// Its text; of a value, the text before there is any.
    pub text: &'static str,
}

/// The row of a setting: its name, its value, and a button on either side of the value that
/// lowers and raises it.
pub open spec fn setting_cells(label: Seq<char>, key: SettingKey) -> Seq<(CellKind, Seq<char>)> {
    seq![
        (CellKind::Label, label),
        (CellKind::Push(UiAction::Adjust(key, Scalar::ratio(1, 1).negated())), "-"@),
        (CellKind::Value(key), "--"@),
        (CellKind::Push(UiAction::Adjust(key, Scalar::ratio(1, 1))), "+"@),
    ]
}

/// The row of a setting: its name, its value, and a button on either side of the value that
/// lowers and raises it.
pub fn setting_row(label: &'static str, key: SettingKey) -> (cells: Vec<RowCell>)
    ensures
        cells@.map_values(|cell: RowCell| (cell.kind, cell.text@)) == seq![
            (CellKind::Label, label@),
            (CellKind::Push(UiAction::Adjust(key, Scalar::ratio(1, 1).negated())), "-"@),
            (CellKind::Value(key), "--"@),
            (CellKind::Push(UiAction::Adjust(key, Scalar::ratio(1, 1))), "+"@),
        ],
        cells@.map_values(|cell: RowCell| (cell.kind, cell.text@)) == setting_cells(label@, key),
{
    let one = Scalar::ratio(1, 1);
    vec![
        RowCell { kind: CellKind::Label, text: label },
        RowCell { kind: CellKind::Push(UiAction::Adjust(key, one.negated())), text: "-" },
        RowCell { kind: CellKind::Value(key), text: "--" },
        RowCell { kind: CellKind::Push(UiAction::Adjust(key, one)), text: "+" },
    ]
}

/// What a text on a panel is for.
#[derive(Clone, Copy, Debug, PartialEq, Eq, Structural)]
pub enum TextRole {
    /// The title of a panel.
    Heading,
    /// The title of a section.
    Section,
    /// An explanation.
    Muted,
    /// The label of a button.
    ButtonLabel,
    /// The label of a small button.
    TinyLabel,
    /// The name of a setting.
    SettingLabel,
    /// The value of a setting.
    SettingValue,
    /// What the next click does.
    Placement,
    /// The live part.
    Telemetry,
}

/// How a text looks.
#[derive(Clone, Copy, Debug, PartialEq, Eq, Structural)]
pub struct TextStyle {
    /// The size, in pixels.
    pub size: Scalar,
    /// The colour.
    pub colour: Colour,
}

/// How the texts of a role look.
pub open spec fn spec_text_style(role: TextRole) -> TextStyle {
    match role {
        TextRole::Heading => TextStyle {
            size: Scalar::spec_ratio(180, 10),
            colour: Colour::spec_percent(4, 12, 22, 100),
        },
        TextRole::Section => TextStyle {
            size: Scalar::spec_ratio(115, 10),
            colour: Colour::spec_percent(5, 42, 78, 100),
        },
        TextRole::Muted => TextStyle {
            size: Scalar::spec_ratio(115, 10),
            colour: Colour::spec_percent(30, 35, 42, 100),
        },
        TextRole::ButtonLabel => TextStyle {
            size: Scalar::spec_ratio(125, 10),
            colour: Colour::spec_percent(100, 100, 100, 100),
        },
        TextRole::TinyLabel => TextStyle {
            size: Scalar::spec_ratio(140, 10),
            colour: Colour::spec_percent(4, 10, 18, 100),
        },
        TextRole::SettingLabel => TextStyle {
            size: Scalar::spec_ratio(115, 10),
            colour: Colour::spec_percent(12, 16, 22, 100),
        },
        TextRole::SettingValue => TextStyle {
            size: Scalar::spec_ratio(115, 10),
            colour: Colour::spec_percent(5, 10, 16, 100),
        },
        TextRole::Placement => TextStyle {
            size: Scalar::spec_ratio(120, 10),
            colour: Colour::spec_percent(5, 38, 68, 100),
        },
        TextRole::Telemetry => TextStyle {
            size: Scalar::spec_ratio(120, 10),
            colour: Colour::spec_percent(8, 11, 16, 100),
        },
    }
}

/// How the texts of a role look.
#[verifier::when_used_as_spec(spec_text_style)]
pub fn text_style(role: TextRole) -> (r: TextStyle)
    ensures
        r == text_style(role),
{
    match role {
        TextRole::Heading => TextStyle {
            size: Scalar::ratio(180, 10),
            colour: Colour::percent(4, 12, 22, 100),
        },
        TextRole::Section => TextStyle {
            size: Scalar::ratio(115, 10),
            colour: Colour::percent(5, 42, 78, 100),
        },
        TextRole::Muted => TextStyle {
            size: Scalar::ratio(115, 10),
            colour: Colour::percent(30, 35, 42, 100),
        },
        TextRole::ButtonLabel => TextStyle {
            size: Scalar::ratio(125, 10),
            colour: Colour::percent(100, 100, 100, 100),
        },
        TextRole::TinyLabel => TextStyle {
            size: Scalar::ratio(140, 10),
            colour: Colour::percent(4, 10, 18, 100),
        },
        TextRole::SettingLabel => TextStyle {
            size: Scalar::ratio(115, 10),
            colour: Colour::percent(12, 16, 22, 100),
        },
        TextRole::SettingValue => TextStyle {
            size: Scalar::ratio(115, 10),
            colour: Colour::percent(5, 10, 16, 100),
        },
        TextRole::Placement => TextStyle {
            size: Scalar::ratio(120, 10),
            colour: Colour::percent(5, 38, 68, 100),
        },
        TextRole::Telemetry => TextStyle {
            size: Scalar::ratio(120, 10),
            colour: Colour::percent(8, 11, 16, 100),
        },
    }
}

/// The background of the panels.
pub open spec fn spec_panel_colour() -> Colour {
    Colour::percent(94, 96, 98, 100)
}

/// The background of the panels.
#[verifier::when_used_as_spec(spec_panel_colour)]
pub fn panel_colour() -> (r: Colour)
    ensures
        r == panel_colour(),
{
    Colour::percent(94, 96, 98, 100)
}

/// The background of a small button before the mouse has been on it.
pub open spec fn spec_tiny_button_colour() -> Colour {
    Colour::percent(78, 84, 92, 100)
}

/// The background of a small button before the mouse has been on it.
#[verifier::when_used_as_spec(spec_tiny_button_colour)]
pub fn tiny_button_colour() -> (r: Colour)
    ensures
        r == tiny_button_colour(),
{
    Colour::percent(78, 84, 92, 100)
}

/// The background of a button, by how the mouse is on it.
pub open spec fn spec_button_colour(interaction: Interaction) -> Colour {
    match interaction {
        Interaction::Pressed => Colour::spec_percent(4, 30, 60, 100),
        Interaction::Hovered => Colour::spec_percent(24, 52, 84, 100),
        Interaction::Away => Colour::spec_percent(16, 43, 75, 100),
    }
}

/// The background of a button, by how the mouse is on it.
#[verifier::when_used_as_spec(spec_button_colour)]
pub fn button_colour(interaction: Interaction) -> (r: Colour)
    ensures
        r == button_colour(interaction),
{
    match interaction {
        Interaction::Pressed => Colour::percent(4, 30, 60, 100),
        Interaction::Hovered => Colour::percent(24, 52, 84, 100),
        Interaction::Away => Colour::percent(16, 43, 75, 100),
    }
}

/// Whether a panel has an item with a text.
pub open spec fn has_row(
    rows: Seq<(PanelKind, Seq<char>)>,
    kind: PanelKind,
    text: Seq<char>,
) -> bool {
    exists|i: int| 0 <= i < rows.len() && #[trigger] rows[i] == (kind, text)
}

/// The buttons say what they do, those for steering after the key that does the same.
pub proof fn law_buttons_say_what_they_do()
    ensures
        ({
            let rows = left_panel_rows();
            let has = |action: UiAction, text: Seq<char>|
                has_row(rows, PanelKind::Button(action), text);
            &&& has(UiAction::Manual, "Manual"@)
            &&& has(UiAction::Automatic, "Automatic / Potential Field"@)
            &&& has(UiAction::Forward, "W  Forward"@)
            &&& has(UiAction::Backward, "S  Backward"@)
            &&& has(UiAction::Left, "A  LEFT"@)
            &&& has(UiAction::Right, "D  RIGHT"@)
            &&& has(UiAction::Stop, "STOP"@)
            &&& has(UiAction::ResetRobot, "Reset Robot"@)
            &&& has(UiAction::ResetCamera, "Reset Camera"@)
            &&& has(UiAction::AddObstacle, "Add Obstacle"@)
            &&& has(UiAction::AddClimbStep, "Add Climb Box"@)
            &&& has(UiAction::ChangeGoal, "Change Destination"@)
            &&& has(UiAction::ClearObstacles, "Clear Obstacles"@)
        }),
{
    let rows = left_panel_rows();
    assert(rows[3] == (PanelKind::Button(UiAction::Manual), "Manual"@));
    assert(rows[4] == (PanelKind::Button(UiAction::Automatic), "Automatic / Potential Field"@));
    assert(rows[6] == (PanelKind::Button(UiAction::Forward), "W  Forward"@));
    assert(rows[7] == (PanelKind::Button(UiAction::Backward), "S  Backward"@));
    assert(rows[8] == (PanelKind::Button(UiAction::Left), "A  LEFT"@));
    assert(rows[9] == (PanelKind::Button(UiAction::Right), "D  RIGHT"@));
    assert(rows[10] == (PanelKind::Button(UiAction::Stop), "STOP"@));
    assert(rows[12] == (PanelKind::Button(UiAction::ResetRobot), "Reset Robot"@));
    assert(rows[13] == (PanelKind::Button(UiAction::ResetCamera), "Reset Camera"@));
    assert(rows[14] == (PanelKind::Button(UiAction::AddObstacle), "Add Obstacle"@));
    assert(rows[15] == (PanelKind::Button(UiAction::AddClimbStep), "Add Climb Box"@));
    assert(rows[16] == (PanelKind::Button(UiAction::ChangeGoal), "Change Destination"@));
    assert(rows[17] == (PanelKind::Button(UiAction::ClearObstacles), "Clear Obstacles"@));
}

/// The left panel explains the keys and the mouse, under its title, in four sections; the live
/// parts say something before there is anything to say.
pub proof fn law_left_panel_explains_itself()
    ensures
        ({
            let rows = left_panel_rows();
            &&& rows.len() == 23
            &&& rows[0] == (PanelKind::Heading, "SPIDERBOT CONTROL"@)
            &&& rows[1] == (
                PanelKind::Muted,
                "W Forward   S Backward\nA LEFT      D RIGHT\nSpace Stop\nM Auto      N Manual"@,
            )
            &&& rows[2] == (PanelKind::Section, "MODE"@)
            &&& rows[5] == (PanelKind::Section, "MOVEMENT"@)
            &&& rows[11] == (PanelKind::Section, "WORLD"@)
            &&& rows[18] == (PanelKind::Placement, "Ready."@)
            &&& rows[19] == (PanelKind::Section, "LIVE"@)
            &&& rows[20] == (PanelKind::Telemetry, "Starting controller..."@)
            &&& rows[21] == (PanelKind::Section, "MOUSE"@)
            &&& rows[22] == (
                PanelKind::Muted,
                "Left drag: move obstacle\nRight drag: orbit\nMiddle drag: pan\nWheel: zoom"@,
            )
        }),
{
}

/// The right panel names the settings and explains the robot's parts, its timing and the map.
pub proof fn law_right_panel_names_the_settings()
    ensures
        ({
            let rows = right_panel_rows();
            &&& rows.len() == 17
            &&& rows[0] == (PanelKind::Heading, "ROBOT MODEL"@)
            &&& rows[1] == (
                PanelKind::Muted,
                "Red cube = Servo A (swing)\nOrange cube = Servo B (lift)\nEach leg has 2 visible servos."@,
            )
            &&& rows[2] == (PanelKind::Section, "LEG GEOMETRY"@)
            &&& rows[3] == (PanelKind::Setting(SettingKey::ABLength), "A -> B"@)
            &&& rows[4] == (PanelKind::Setting(SettingKey::BFootLength), "B -> Foot"@)
            &&& rows[5] == (PanelKind::Setting(SettingKey::LinkWidth), "Link width"@)
            &&& rows[6] == (PanelKind::Section, "BODY"@)
            &&& rows[7] == (PanelKind::Setting(SettingKey::BodyWidth), "Body width"@)
            &&& rows[8] == (PanelKind::Setting(SettingKey::BodyLength), "Body length"@)
            &&& rows[9] == (PanelKind::Setting(SettingKey::BodyMass), "Body mass"@)
            &&& rows[10] == (PanelKind::Section, "LEG MASS MODEL"@)
            &&& rows[11] == (PanelKind::Setting(SettingKey::ABMass), "A-B mass"@)
            &&& rows[12] == (PanelKind::Setting(SettingKey::BFootMass), "B-Foot mass"@)
            &&& rows[13] == (PanelKind::Section, "TIMING"@)
            &&& rows[14] == (
                PanelKind::Muted,
                "Controller: 50 Hz\nControl budget: 20 ms\nGait: 1.0 s / leg\nFull crawl: 4.0 s"@,
            )
            &&& rows[15] == (PanelKind::Section, "MAP LEGEND"@)
            &&& rows[16] == (
                PanelKind::Muted,
                "White arrow: robot front\nYellow arrow: command\nGreen line: destination\nBrown box: climb experiment"@,
            )
        }),
{
}

/// In a setting's row, the button with the minus never raises the setting and the one with the plus
/// never lowers it; they stand on either side of the value, after the name.
pub proof fn law_row_lowers_and_raises(
    label: Seq<char>,
    key: SettingKey,
    config: RobotConfig,
)
    requires
        setting_range(key).1.le(setting_of(config, key)),
        setting_of(config, key).le(setting_range(key).2),
    ensures
        ({
            let cells = setting_cells(label, key);
            &&& cells.len() == 4
            &&& cells[0] == (CellKind::Label, label)
            &&& cells[1].1 == "-"@
            &&& cells[1].0 matches CellKind::Push(UiAction::Adjust(lowered, down)) && lowered == key
                && setting_of(adjusted(config, key, down), key).le(setting_of(config, key))
                && down.lt(Scalar::ratio(0, 1))
            &&& cells[2] == (CellKind::Value(key), "--"@)
            &&& cells[3].1 == "+"@
            &&& cells[3].0 matches CellKind::Push(UiAction::Adjust(raised, up)) && raised == key
                && setting_of(config, key).le(setting_of(adjusted(config, key, up), key))
                && Scalar::ratio(0, 1).lt(up)
        }),
{
    let one = Scalar::ratio(1, 1);
    let value = setting_of(config, key);
    law_one();
    law_zero();
    law_negation(one, one);
    vstd::arithmetic::power2::lemma_pow2_pos(149);
    assert(Scalar::ratio(0, 1).lt(one) && one.negated().lt(Scalar::ratio(0, 1))) by {
        reveal(Scalar::spec_lt);
    }
    law_adjusting_touches_one_setting(config, key, key, one);
    law_adjusting_touches_one_setting(config, key, key, one.negated());
    law_push_goes_its_way(key, value, one);
    law_push_goes_its_way(key, value, one.negated());
}

/// A button is darkest while it is pressed and lightest while the mouse is over it.
pub proof fn law_button_shows_the_mouse()
    ensures
        ({
            let pressed = button_colour(Interaction::Pressed);
            let hovered = button_colour(Interaction::Hovered);
            let away = button_colour(Interaction::Away);
            &&& pressed == Colour::percent(4, 30, 60, 100)
            &&& hovered == Colour::percent(24, 52, 84, 100)
            &&& away == Colour::percent(16, 43, 75, 100)
            &&& pressed.red.le(away.red) && away.red.le(hovered.red)
            &&& pressed.green.le(away.green) && away.green.le(hovered.green)
            &&& pressed.blue.le(away.blue) && away.blue.le(hovered.blue)
        }),
{
    law_ratio_order(4, 100, 16, 100);
    law_ratio_order(16, 100, 24, 100);
    law_ratio_order(30, 100, 43, 100);
    law_ratio_order(43, 100, 52, 100);
    law_ratio_order(60, 100, 75, 100);
    law_ratio_order(75, 100, 84, 100);
}

/// The items of a panel are read one by one.
pub proof fn law_items_are_read_one_by_one(items: Seq<PanelItem>, i: int)
    requires
        0 <= i < items.len(),
    ensures
        panel_rows(items).len() == items.len(),
        panel_rows(items)[i].0 == items[i].kind,
        panel_rows(items)[i].1 == items[i].text@,
{
}

} // verus!
