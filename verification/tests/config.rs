use spiderbot::config::{
    adjust_config, physics_step, setting_range, setting_value, ChassisConfig, GaitConfig,
    LinkConfig, RobotConfig, SettingKey,
};
use spiderbot::scalar::Scalar;

fn s(x: f32) -> Scalar {
    Scalar::from_bits(x.to_bits())
}

fn config() -> RobotConfig {
    RobotConfig {
        control_hz: s(50.0),
        physics_hz: s(120.0),
        physics_substeps: 2,
        gait: GaitConfig { step_period_s: s(1.0), max_climb_height_m: s(0.07) },
        chassis: ChassisConfig {
            length_m: s(0.22),
            width_m: s(0.16),
            height_m: s(0.05),
            mass_kg: s(0.9),
        },
        links: LinkConfig {
            coxa_length_m: s(0.055),
            femur_length_m: s(0.09),
            tibia_length_m: s(0.12),
            link_radius_m: s(0.012),
            coxa_mass_kg: s(0.08),
            femur_mass_kg: s(0.1),
            tibia_mass_kg: s(0.11),
            foot_radius_m: s(0.014),
        },
    }
}

const KEYS: [SettingKey; 8] = [
    SettingKey::ABLength,
    SettingKey::BFootLength,
    SettingKey::LinkWidth,
    SettingKey::BodyWidth,
    SettingKey::BodyLength,
    SettingKey::BodyMass,
    SettingKey::ABMass,
    SettingKey::BFootMass,
];

fn value(c: &RobotConfig, key: SettingKey) -> Scalar {
    match key {
        SettingKey::ABLength => c.links.coxa_length_m,
        SettingKey::BFootLength => c.links.femur_length_m,
        SettingKey::LinkWidth => c.links.link_radius_m,
        SettingKey::BodyWidth => c.chassis.width_m,
        SettingKey::BodyLength => c.chassis.length_m,
        SettingKey::BodyMass => c.chassis.mass_kg,
        SettingKey::ABMass => c.links.coxa_mass_kg,
        SettingKey::BFootMass => c.links.femur_mass_kg,
    }
}

/// The step and the bounds of each setting.
const RANGES: [(f32, f32, f32); 8] = [
    (0.005, 0.035, 0.120),
    (0.005, 0.060, 0.180),
    (0.001, 0.007, 0.025),
    (0.010, 0.10, 0.28),
    (0.010, 0.14, 0.36),
    (0.10, 0.20, 3.0),
    (0.010, 0.02, 0.30),
    (0.010, 0.02, 0.40),
];

#[test]
fn ranges_are_those_of_the_panel() {
    for (key, (step, low, high)) in KEYS.iter().zip(RANGES) {
        assert_eq!(setting_range(*key), (s(step), s(low), s(high)));
    }
}

#[test]
fn pushes_move_a_setting_by_its_step() {
    for (key, (step, low, high)) in KEYS.iter().zip(RANGES) {
        for direction in [1.0f32, -1.0, 7.5, -0.25] {
            let mut c = config();
            adjust_config(&mut c, *key, s(direction));
            let before = f32::from_bits(value(&config(), *key).to_bits());
            let wanted = (before + direction.signum() * step).clamp(low, high);
            assert_eq!(value(&c, *key), s(wanted));
        }
    }
}

#[test]
fn pushes_leave_the_other_settings_alone() {
    for key in KEYS {
        let mut c = config();
        adjust_config(&mut c, key, s(1.0));
        for other in KEYS {
            if other != key {
                assert_eq!(value(&c, other), value(&config(), other));
            }
        }
        assert_eq!(c.gait, config().gait);
    }
}

#[test]
fn settings_stop_at_their_bounds() {
    for (key, (_, low, high)) in KEYS.iter().zip(RANGES) {
        let mut c = config();
        for _ in 0..100 {
            adjust_config(&mut c, *key, s(1.0));
        }
        assert_eq!(value(&c, *key), s(high));
        for _ in 0..100 {
            adjust_config(&mut c, *key, s(-1.0));
        }
        assert_eq!(value(&c, *key), s(low));
    }
}

#[test]
fn mass_below_the_knee_has_two_parts() {
    let mut c = config();
    adjust_config(&mut c, SettingKey::BFootMass, s(1.0));
    assert_eq!(c.links.femur_mass_kg, s(0.1f32 + 0.01));
    assert_eq!(c.links.tibia_mass_kg, s(0.11f32 + 0.01));
}

#[test]
fn panel_shows_millimetres_and_kilograms() {
    let c = config();
    let shown: Vec<String> = KEYS.iter().map(|key| setting_value(&c, *key)).collect();
    assert_eq!(
        shown,
        vec!["55 mm", "90 mm", "24 mm", "160 mm", "220 mm", "0.90 kg", "0.080 kg", "0.210 kg"]
    );
}

#[test]
fn physics_steps_are_short_enough() {
    assert_eq!(physics_step(&config()), (s(1.0 / 120.0), 2));
    let slow = RobotConfig { physics_hz: s(10.0), physics_substeps: 0, ..config() };
    assert_eq!(physics_step(&slow), (s(1.0 / 60.0), 1));
}

#[test]
fn minus_undoes_plus() {
    for (key, (_, _, high)) in KEYS.iter().zip(RANGES) {
        let mut c = config();
        adjust_config(&mut c, *key, s(1.0));
        assert_ne!(c, config());
        adjust_config(&mut c, *key, s(-1.0));
        let after = f32::from_bits(value(&c, *key).to_bits());
        let before = f32::from_bits(value(&config(), *key).to_bits());
        assert!((after - before).abs() <= high / 8_388_608.0);
        for other in KEYS {
            if other != *key {
                assert_eq!(value(&c, other), value(&config(), other));
            }
        }
    }
}
