use spiderbot::config::SettingKey;
use spiderbot::operator::{Interaction, UiAction};
use spiderbot::paint::Colour;
use spiderbot::panel::{
    button_colour, left_panel, panel_colour, right_panel, setting_row, text_style,
    tiny_button_colour, CellKind, PanelKind, TextRole,
};
use spiderbot::scalar::Scalar;

fn s(x: f32) -> Scalar {
    Scalar::from_bits(x.to_bits())
}

fn rgb(red: f32, green: f32, blue: f32) -> Colour {
    Colour { red: s(red), green: s(green), blue: s(blue), alpha: s(1.0) }
}

#[test]
fn left_panel_has_every_action() {
    let items = left_panel();
    assert_eq!(items.len(), 23);
    assert_eq!((items[0].kind, items[0].text), (PanelKind::Heading, "SPIDERBOT CONTROL"));
    let expected = [
        ("Manual", UiAction::Manual),
        ("Automatic / Potential Field", UiAction::Automatic),
        ("W  Forward", UiAction::Forward),
        ("S  Backward", UiAction::Backward),
        ("A  LEFT", UiAction::Left),
        ("D  RIGHT", UiAction::Right),
        ("STOP", UiAction::Stop),
        ("Reset Robot", UiAction::ResetRobot),
        ("Reset Camera", UiAction::ResetCamera),
        ("Add Obstacle", UiAction::AddObstacle),
        ("Add Climb Box", UiAction::AddClimbStep),
        ("Change Destination", UiAction::ChangeGoal),
        ("Clear Obstacles", UiAction::ClearObstacles),
    ];
    let mut found = Vec::new();
    for item in &items {
        if let PanelKind::Button(action) = item.kind {
            found.push((item.text, action));
        }
    }
    assert_eq!(found, expected);
    assert_eq!((items[18].kind, items[18].text), (PanelKind::Placement, "Ready."));
    assert_eq!((items[20].kind, items[20].text), (PanelKind::Telemetry, "Starting controller..."));
}

#[test]
fn right_panel_has_every_setting() {
    let items = right_panel();
    assert_eq!(items.len(), 17);
    let expected = [
        ("A -> B", SettingKey::ABLength),
        ("B -> Foot", SettingKey::BFootLength),
        ("Link width", SettingKey::LinkWidth),
        ("Body width", SettingKey::BodyWidth),
        ("Body length", SettingKey::BodyLength),
        ("Body mass", SettingKey::BodyMass),
        ("A-B mass", SettingKey::ABMass),
        ("B-Foot mass", SettingKey::BFootMass),
    ];
    let mut found = Vec::new();
    for item in &items {
        if let PanelKind::Setting(key) = item.kind {
            found.push((item.text, key));
        }
    }
    assert_eq!(found, expected);
    assert_eq!(
        items[16].text,
        "White arrow: robot front\nYellow arrow: command\nGreen line: destination\n\
         Brown box: climb experiment"
    );
}

#[test]
fn rows_lower_and_raise() {
    let key = SettingKey::BodyMass;
    let cells = setting_row("Body mass", key);
    let found: Vec<(CellKind, &str)> = cells.iter().map(|c| (c.kind, c.text)).collect();
    assert_eq!(
        found,
        vec![
            (CellKind::Label, "Body mass"),
            (CellKind::Push(UiAction::Adjust(key, s(-1.0))), "-"),
            (CellKind::Value(key), "--"),
            (CellKind::Push(UiAction::Adjust(key, s(1.0))), "+"),
        ]
    );
}

#[test]
fn texts_have_sizes_and_colours() {
    let cases = [
        (TextRole::Heading, 18.0, rgb(0.04, 0.12, 0.22)),
        (TextRole::Section, 11.5, rgb(0.05, 0.42, 0.78)),
        (TextRole::Muted, 11.5, rgb(0.30, 0.35, 0.42)),
        (TextRole::ButtonLabel, 12.5, rgb(1.0, 1.0, 1.0)),
        (TextRole::TinyLabel, 14.0, rgb(0.04, 0.10, 0.18)),
        (TextRole::SettingLabel, 11.5, rgb(0.12, 0.16, 0.22)),
        (TextRole::SettingValue, 11.5, rgb(0.05, 0.10, 0.16)),
        (TextRole::Placement, 12.0, rgb(0.05, 0.38, 0.68)),
        (TextRole::Telemetry, 12.0, rgb(0.08, 0.11, 0.16)),
    ];
    for (role, size, colour) in cases {
        assert_eq!(text_style(role).size, s(size));
        assert_eq!(text_style(role).colour, colour);
    }
}

#[test]
fn buttons_show_the_mouse() {
    assert_eq!(button_colour(Interaction::Pressed), rgb(0.04, 0.30, 0.60));
    assert_eq!(button_colour(Interaction::Hovered), rgb(0.24, 0.52, 0.84));
    assert_eq!(button_colour(Interaction::Away), rgb(0.16, 0.43, 0.75));
    assert_eq!(panel_colour(), rgb(0.94, 0.96, 0.98));
    assert_eq!(tiny_button_colour(), rgb(0.78, 0.84, 0.92));
}
