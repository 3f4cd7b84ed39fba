//! The robot's configuration and the settings that can be changed while it walks.

use crate::accuracy::{law_sum_follows_sign, law_sum_is_close, lemma_rounded_units_keeps};
use crate::accuracy::{lemma_rounded_units_order, lemma_sum_units, size};
use crate::decimal::{fixed, fixed_text};
use crate::order::{law_between_is_finite, law_clamp_is_within, law_lt_is_transitive};
use crate::order::{law_negation, law_negation_of_product, law_one, law_one_is_neutral};
use crate::order::{law_order_is_total, law_ratio_is_finite, law_ratio_order};
use crate::order::{law_sum_is_number, law_zero};
use crate::scalar::Scalar;
use vstd::prelude::*;

verus! {

/// The whole configuration.
#[derive(Clone, Copy, Debug, PartialEq, Eq, Structural)]
pub struct RobotConfig {
    /// How often the controller is asked for an action, per second.
    pub control_hz: Scalar,
    /// How often the physics world is stepped, per second.
    pub physics_hz: Scalar,
    /// How many parts a physics step is divided into.
    pub physics_substeps: usize,
    /// The gait.
    pub gait: GaitConfig,
    /// The body.
    pub chassis: ChassisConfig,
    /// The legs.
    pub links: LinkConfig,
}

/// How the robot walks.
#[derive(Clone, Copy, Debug, PartialEq, Eq, Structural)]
pub struct GaitConfig {
    /// The time one leg takes for a step, in seconds.
    pub step_period_s: Scalar,
    /// The height of the highest box that can be climbed, in metres.
    pub max_climb_height_m: Scalar,
}

/// The box that the legs are mounted on.
#[derive(Clone, Copy, Debug, PartialEq, Eq, Structural)]
pub struct ChassisConfig {
    /// The length, in metres.
    pub length_m: Scalar,
    /// The width, in metres.
    pub width_m: Scalar,
    /// The height, in metres.
    pub height_m: Scalar,
    /// The mass, in kilograms.
    pub mass_kg: Scalar,
}

/// The segments of a leg.
#[derive(Clone, Copy, Debug, PartialEq, Eq, Structural)]
pub struct LinkConfig {
    /// The length of the coxa, in metres.
    pub coxa_length_m: Scalar,
    /// The length of the femur, in metres.
    pub femur_length_m: Scalar,
    /// The length of the tibia, in metres.
    pub tibia_length_m: Scalar,
    /// The radius of a segment, in metres.
    pub link_radius_m: Scalar,
    /// The mass of the coxa, in kilograms.
    pub coxa_mass_kg: Scalar,
    /// The mass of the femur, in kilograms.
    pub femur_mass_kg: Scalar,
    /// The mass of the tibia, in kilograms.
    pub tibia_mass_kg: Scalar,
    /// The radius of the foot, in metres.
    pub foot_radius_m: Scalar,
}

/// A setting that can be changed from the panel.
#[derive(Clone, Copy, Debug, PartialEq, Eq, Structural)]
pub enum SettingKey {
    /// The length from servo A to servo B.
    ABLength,
    /// The length from servo B to the foot.
    BFootLength,
    /// The width of the segments.
    LinkWidth,
    /// The width of the body.
    BodyWidth,
    /// The length of the body.
    BodyLength,
    /// The mass of the body.
    BodyMass,
    /// The mass of the segment from A to B.
    ABMass,
    /// The mass of the segments from B to the foot.
    BFootMass,
}

/// A value moved by `sign` steps and kept within its bounds.
pub open spec fn spec_nudged(
    value: Scalar,
    sign: Scalar,
    step: Scalar,
    low: Scalar,
    high: Scalar,
) -> Scalar {
    value.plus(sign.times(step)).clamp(low, high)
}

/// A value moved by `sign` steps and kept within its bounds.
#[verifier::when_used_as_spec(spec_nudged)]
fn nudged(value: Scalar, sign: Scalar, step: Scalar, low: Scalar, high: Scalar) -> (r: Scalar)
    requires
        low.le(high),
    ensures
        r == nudged(value, sign, step, low, high),
{
    value.plus(sign.times(step)).clamp(low, high)
}

/// The step and the bounds of a setting; the mass from B to the foot has two parts, which share
/// them.
pub open spec fn spec_setting_range(key: SettingKey) -> (Scalar, Scalar, Scalar) {
    match key {
        SettingKey::ABLength => (
            Scalar::ratio(5, 1000),
            Scalar::ratio(35, 1000),
            Scalar::ratio(120, 1000),
        ),
        SettingKey::BFootLength => (
            Scalar::ratio(5, 1000),
            Scalar::ratio(60, 1000),
            Scalar::ratio(180, 1000),
        ),
        SettingKey::LinkWidth => (
            Scalar::ratio(1, 1000),
            Scalar::ratio(7, 1000),
            Scalar::ratio(25, 1000),
        ),
        SettingKey::BodyWidth => (
            Scalar::ratio(10, 1000),
            Scalar::ratio(10, 100),
            Scalar::ratio(28, 100),
        ),
        SettingKey::BodyLength => (
            Scalar::ratio(10, 1000),
            Scalar::ratio(14, 100),
            Scalar::ratio(36, 100),
        ),
        SettingKey::BodyMass => (
            Scalar::ratio(10, 100),
            Scalar::ratio(20, 100),
            Scalar::ratio(3, 1),
        ),
        SettingKey::ABMass => (
            Scalar::ratio(10, 1000),
            Scalar::ratio(2, 100),
            Scalar::ratio(30, 100),
        ),
        SettingKey::BFootMass => (
            Scalar::ratio(10, 1000),
            Scalar::ratio(2, 100),
            Scalar::ratio(40, 100),
        ),
    }
}

/// The step and the bounds of a setting; the mass from B to the foot has two parts, which share
/// them.
#[verifier::when_used_as_spec(spec_setting_range)]
pub fn setting_range(key: SettingKey) -> (r: (Scalar, Scalar, Scalar))
    ensures
        r == setting_range(key),
        r.1.le(r.2),
{
    proof {
        law_setting_bounds_are_ordered(key);
    }
    match key {
        SettingKey::ABLength => (
            Scalar::ratio(5, 1000),
            Scalar::ratio(35, 1000),
            Scalar::ratio(120, 1000),
        ),
        SettingKey::BFootLength => (
            Scalar::ratio(5, 1000),
            Scalar::ratio(60, 1000),
            Scalar::ratio(180, 1000),
        ),
        SettingKey::LinkWidth => (
            Scalar::ratio(1, 1000),
            Scalar::ratio(7, 1000),
            Scalar::ratio(25, 1000),
        ),
        SettingKey::BodyWidth => (
            Scalar::ratio(10, 1000),
            Scalar::ratio(10, 100),
            Scalar::ratio(28, 100),
        ),
        SettingKey::BodyLength => (
            Scalar::ratio(10, 1000),
            Scalar::ratio(14, 100),
            Scalar::ratio(36, 100),
        ),
        SettingKey::BodyMass => (
            Scalar::ratio(10, 100),
            Scalar::ratio(20, 100),
            Scalar::ratio(3, 1),
        ),
        SettingKey::ABMass => (
            Scalar::ratio(10, 1000),
            Scalar::ratio(2, 100),
            Scalar::ratio(30, 100),
        ),
        SettingKey::BFootMass => (
            Scalar::ratio(10, 1000),
            Scalar::ratio(2, 100),
            Scalar::ratio(40, 100),
        ),
    }
}

/// The lower bound of a setting is at most the upper one.
pub proof fn law_setting_bounds_are_ordered(key: SettingKey)
    ensures
        setting_range(key).1.le(setting_range(key).2),
{
    law_ratio_order(35, 1000, 120, 1000);
    law_ratio_order(60, 1000, 180, 1000);
    law_ratio_order(7, 1000, 25, 1000);
    law_ratio_order(10, 100, 28, 100);
    law_ratio_order(14, 100, 36, 100);
    law_ratio_order(20, 100, 3, 1);
    law_ratio_order(2, 100, 30, 100);
    law_ratio_order(2, 100, 40, 100);
}

/// A value of a setting after a push of its button.
pub open spec fn setting_pushed(key: SettingKey, value: Scalar, direction: Scalar) -> Scalar {
    let (step, low, high) = spec_setting_range(key);
    spec_nudged(value, direction.signum(), step, low, high)
}

/// The configuration after a push of a setting's button.
pub open spec fn adjusted(config: RobotConfig, key: SettingKey, direction: Scalar) -> RobotConfig {
    let links = config.links;
    let chassis = config.chassis;
    match key {
        SettingKey::ABLength => RobotConfig {
            links: LinkConfig {
                coxa_length_m: setting_pushed(key, links.coxa_length_m, direction),
                ..links
            },
            ..config
        },
        SettingKey::BFootLength => RobotConfig {
            links: LinkConfig {
                femur_length_m: setting_pushed(key, links.femur_length_m, direction),
                ..links
            },
            ..config
        },
        SettingKey::LinkWidth => RobotConfig {
            links: LinkConfig {
                link_radius_m: setting_pushed(key, links.link_radius_m, direction),
                ..links
            },
            ..config
        },
        SettingKey::BodyWidth => RobotConfig {
            chassis: ChassisConfig {
                width_m: setting_pushed(key, chassis.width_m, direction),
                ..chassis
            },
            ..config
        },
        SettingKey::BodyLength => RobotConfig {
            chassis: ChassisConfig {
                length_m: setting_pushed(key, chassis.length_m, direction),
                ..chassis
            },
            ..config
        },
        SettingKey::BodyMass => RobotConfig {
            chassis: ChassisConfig {
                mass_kg: setting_pushed(key, chassis.mass_kg, direction),
                ..chassis
            },
            ..config
        },
        SettingKey::ABMass => RobotConfig {
            links: LinkConfig {
                coxa_mass_kg: setting_pushed(key, links.coxa_mass_kg, direction),
                ..links
            },
            ..config
        },
        SettingKey::BFootMass => RobotConfig {
            links: LinkConfig {
                femur_mass_kg: setting_pushed(key, links.femur_mass_kg, direction),
                tibia_mass_kg: setting_pushed(key, links.tibia_mass_kg, direction),
                ..links
            },
            ..config
        },
    }
}

/// Moves a setting by one step, up or down by the sign of `direction`.
pub fn adjust_config(config: &mut RobotConfig, key: SettingKey, direction: Scalar)
    ensures
        *final(config) == adjusted(*old(config), key, direction),
{
    let s = direction.signum();
    let (step, low, high) = setting_range(key);
    let links = config.links;
    let chassis = config.chassis;
    match key {
        SettingKey::ABLength => {
            config.links.coxa_length_m = nudged(links.coxa_length_m, s, step, low, high);
        },
        SettingKey::BFootLength => {
            config.links.femur_length_m = nudged(links.femur_length_m, s, step, low, high);
        },
        SettingKey::LinkWidth => {
            config.links.link_radius_m = nudged(links.link_radius_m, s, step, low, high);
        },
        SettingKey::BodyWidth => {
            config.chassis.width_m = nudged(chassis.width_m, s, step, low, high);
        },
        SettingKey::BodyLength => {
            config.chassis.length_m = nudged(chassis.length_m, s, step, low, high);
        },
        SettingKey::BodyMass => {
            config.chassis.mass_kg = nudged(chassis.mass_kg, s, step, low, high);
        },
        SettingKey::ABMass => {
            config.links.coxa_mass_kg = nudged(links.coxa_mass_kg, s, step, low, high);
        },
        SettingKey::BFootMass => {
            config.links.femur_mass_kg = nudged(links.femur_mass_kg, s, step, low, high);
            config.links.tibia_mass_kg = nudged(links.tibia_mass_kg, s, step, low, high);
        },
    }
}

/// A length in whole millimetres.
pub open spec fn millimetres(length: Scalar, per_unit: u32) -> Seq<char> {
    fixed_text(length.times(Scalar::ratio(per_unit, 1)), 0) + " mm"@
}

/// What the panel shows of a setting.
pub open spec fn setting_text(config: RobotConfig, key: SettingKey) -> Seq<char> {
    match key {
        SettingKey::ABLength => millimetres(config.links.coxa_length_m, 1000),
        SettingKey::BFootLength => millimetres(config.links.femur_length_m, 1000),
        SettingKey::LinkWidth => millimetres(config.links.link_radius_m, 2000),
        SettingKey::BodyWidth => millimetres(config.chassis.width_m, 1000),
        SettingKey::BodyLength => millimetres(config.chassis.length_m, 1000),
        SettingKey::BodyMass => fixed_text(config.chassis.mass_kg, 2) + " kg"@,
        SettingKey::ABMass => fixed_text(config.links.coxa_mass_kg, 3) + " kg"@,
        SettingKey::BFootMass => fixed_text(
            config.links.femur_mass_kg.plus(config.links.tibia_mass_kg),
            3,
        ) + " kg"@,
    }
}

/// The text of a length in whole millimetres.
fn millimetre_text(length: Scalar, per_unit: u32) -> (text: String)
    ensures
        text@ == millimetres(length, per_unit),
{
    fixed(length.times(Scalar::ratio(per_unit, 1)), 0).concat(" mm")
}

/// What the panel shows of a setting.
pub fn setting_value(config: &RobotConfig, key: SettingKey) -> (text: String)
    ensures
        text@ == setting_text(*config, key),
{
    match key {
        SettingKey::ABLength => millimetre_text(config.links.coxa_length_m, 1000),
        SettingKey::BFootLength => millimetre_text(config.links.femur_length_m, 1000),
        SettingKey::LinkWidth => millimetre_text(config.links.link_radius_m, 2000),
        SettingKey::BodyWidth => millimetre_text(config.chassis.width_m, 1000),
        SettingKey::BodyLength => millimetre_text(config.chassis.length_m, 1000),
        SettingKey::BodyMass => fixed(config.chassis.mass_kg, 2).concat(" kg"),
        SettingKey::ABMass => fixed(config.links.coxa_mass_kg, 3).concat(" kg"),
        SettingKey::BFootMass => fixed(
            config.links.femur_mass_kg.plus(config.links.tibia_mass_kg),
            3,
        ).concat(" kg"),
    }
}

/// The fixed physics step: its duration in seconds and the number of parts it is divided into.
pub open spec fn spec_physics_step(config: RobotConfig) -> (Scalar, usize) {
    (
        Scalar::ratio(1, 1).over(config.physics_hz.max(Scalar::ratio(60, 1))),
        if config.physics_substeps >= 1 {
            config.physics_substeps
        } else {
            1
        },
    )
}

/// The fixed physics step: its duration in seconds and the number of parts it is divided into.
pub fn physics_step(config: &RobotConfig) -> (r: (Scalar, usize))
    ensures
        r.0 == Scalar::ratio(1, 1).over(config.physics_hz.max(Scalar::ratio(60, 1))),
        r.1 == if config.physics_substeps >= 1 {
            config.physics_substeps
        } else {
            1
        },
        r == spec_physics_step(*config),
{
    let dt = Scalar::ratio(1, 1).over(config.physics_hz.max(Scalar::ratio(60, 1)));
    let substeps: usize = if config.physics_substeps >= 1 {
        config.physics_substeps
    } else {
        1
    };
    (dt, substeps)
}

/// A push of a setting's button leaves the setting within its bounds.
pub proof fn law_adjusted_setting_is_within_bounds(
    key: SettingKey,
    value: Scalar,
    direction: Scalar,
)
    requires
        !value.is_nan(),
        !direction.is_nan(),
    ensures
        setting_range(key).1.le(setting_pushed(key, value, direction)),
        setting_pushed(key, value, direction).le(setting_range(key).2),
{
    let (step, low, high) = setting_range(key);
    law_setting_bounds_are_ordered(key);
    law_ratio_is_finite(5, 1000);
    law_ratio_is_finite(1, 1000);
    law_ratio_is_finite(10, 1000);
    law_ratio_is_finite(10, 100);
    law_one_is_neutral(step);
    law_negation_of_product(Scalar::ratio(1, 1), step);
    law_sum_is_number(value, direction.signum().times(step));
    law_clamp_is_within(value.plus(direction.signum().times(step)), low, high);
}

/// The value of a setting; of the two parts of the mass from B to the foot, the femur's.
pub open spec fn setting_of(config: RobotConfig, key: SettingKey) -> Scalar {
    match key {
        SettingKey::ABLength => config.links.coxa_length_m,
        SettingKey::BFootLength => config.links.femur_length_m,
        SettingKey::LinkWidth => config.links.link_radius_m,
        SettingKey::BodyWidth => config.chassis.width_m,
        SettingKey::BodyLength => config.chassis.length_m,
        SettingKey::BodyMass => config.chassis.mass_kg,
        SettingKey::ABMass => config.links.coxa_mass_kg,
        SettingKey::BFootMass => config.links.femur_mass_kg,
    }
}

/// A push of a setting's button changes that setting and no other, nor what is no setting.
pub proof fn law_adjusting_touches_one_setting(
    config: RobotConfig,
    key: SettingKey,
    other: SettingKey,
    direction: Scalar,
)
    ensures
        ({
            let after = adjusted(config, key, direction);
            &&& setting_of(after, key) == setting_pushed(key, setting_of(config, key), direction)
            &&& other != key ==> setting_of(after, other) == setting_of(config, other)
            &&& other != key ==> setting_text(after, other) == setting_text(config, other)
            &&& after.control_hz == config.control_hz
            &&& after.physics_hz == config.physics_hz
            &&& after.physics_substeps == config.physics_substeps
            &&& after.gait == config.gait
            &&& after.chassis.height_m == config.chassis.height_m
            &&& after.links.tibia_length_m == config.links.tibia_length_m
            &&& after.links.foot_radius_m == config.links.foot_radius_m
        }),
{
}

/// The size of `direction` does not matter to a push, only its sign.
pub proof fn law_only_the_sign_matters(config: RobotConfig, key: SettingKey, a: Scalar, b: Scalar)
    requires
        !a.is_nan(),
        !b.is_nan(),
        a.is_negative() == b.is_negative(),
    ensures
        adjusted(config, key, a) == adjusted(config, key, b),
{
}

/// Away from the bounds, a push down undoes a push up, up to rounding: the value is off by at most
/// `2^-23` of the upper bound.
pub proof fn law_push_down_undoes_push_up(
    key: SettingKey,
    value: Scalar,
    up: Scalar,
    down: Scalar,
)
    requires
        !up.is_nan(),
        !up.is_negative(),
        !down.is_nan(),
        down.is_negative(),
        setting_range(key).1.le(value),
        value.plus(setting_range(key).0).le(setting_range(key).2),
    ensures
        0x80_0000 * size(
            setting_pushed(key, setting_pushed(key, value, up), down).units() - value.units(),
        ) <= setting_range(key).2.units(),
{
    let (step, low, high) = setting_range(key);
    let one = Scalar::ratio(1, 1);
    let zero = Scalar::ratio(0, 1);
    lemma_setting_range(key);
    law_zero();
    law_one();
    law_one_is_neutral(step);
    law_negation_of_product(one, step);
    law_negation(step, step);
    law_order_is_total(low, value);
    law_order_is_total(value.plus(step), high);
    if !value.is_finite() {
        reveal(Scalar::spec_plus);
        law_between_is_finite(low, value, high);
    }
    law_sum_follows_sign(value, step);
    let w = value.plus(step);
    law_lt_is_transitive(low, value, w);
    law_clamp_is_within(w, low, high);
    law_between_is_finite(low, w, high);
    assert(setting_pushed(key, value, up) == w);
    let z = w.plus(step.negated());
    reveal(Scalar::spec_le);
    lemma_sum_units(value, step);
    lemma_rounded_units_keeps(step);
    lemma_rounded_units_order(step.units(), value.units() + step.units());
    lemma_sum_units(w, step.negated());
    lemma_rounded_units_keeps(w);
    lemma_rounded_units_keeps(zero);
    lemma_rounded_units_order(0, w.units() - step.units());
    lemma_rounded_units_order(w.units() - step.units(), w.units());
    law_between_is_finite(zero, z, high);
    law_sum_is_close(value, step);
    law_sum_is_close(w, step.negated());
    assert(setting_pushed(key, w, down) == z.clamp(low, high));
    reveal(Scalar::spec_lt);
}

/// The step and the bounds of a setting are finite, and none is negative.
proof fn lemma_setting_range(key: SettingKey)
    ensures
        ({
            let (step, low, high) = setting_range(key);
            &&& step.is_finite() && low.is_finite() && high.is_finite()
            &&& Scalar::ratio(0, 1).le(step) && Scalar::ratio(0, 1).le(low)
            &&& low.le(high)
            &&& Scalar::ratio(0, 1).is_finite()
        }),
{
    law_setting_bounds_are_ordered(key);
    law_ratio_is_finite(0, 1);
    law_ratio_is_finite(5, 1000);
    law_ratio_is_finite(1, 1000);
    law_ratio_is_finite(10, 1000);
    law_ratio_is_finite(10, 100);
    law_ratio_is_finite(35, 1000);
    law_ratio_is_finite(60, 1000);
    law_ratio_is_finite(7, 1000);
    law_ratio_is_finite(14, 100);
    law_ratio_is_finite(20, 100);
    law_ratio_is_finite(2, 100);
    law_ratio_is_finite(120, 1000);
    law_ratio_is_finite(180, 1000);
    law_ratio_is_finite(25, 1000);
    law_ratio_is_finite(28, 100);
    law_ratio_is_finite(36, 100);
    law_ratio_is_finite(3, 1);
    law_ratio_is_finite(30, 100);
    law_ratio_is_finite(40, 100);
    law_ratio_order(0, 1, 5, 1000);
    law_ratio_order(0, 1, 1, 1000);
    law_ratio_order(0, 1, 10, 1000);
    law_ratio_order(0, 1, 10, 100);
    law_ratio_order(0, 1, 35, 1000);
    law_ratio_order(0, 1, 60, 1000);
    law_ratio_order(0, 1, 7, 1000);
    law_ratio_order(0, 1, 14, 100);
    law_ratio_order(0, 1, 20, 100);
    law_ratio_order(0, 1, 2, 100);
}

/// Away from the bounds, the minus button of a setting undoes its plus button: the configuration is
/// what it was, but for the rounding of the setting, which has two parts for the mass from B to the
/// foot.
pub proof fn law_minus_undoes_plus(config: RobotConfig, key: SettingKey)
    requires
        ({
            let (step, low, high) = setting_range(key);
            let value = setting_of(config, key);
            let second = config.links.tibia_mass_kg;
            &&& low.le(value)
            &&& value.plus(step).le(high)
            &&& key == SettingKey::BFootMass ==> low.le(second) && second.plus(step).le(high)
        }),
    ensures
        ({
            let one = Scalar::ratio(1, 1);
            let after = adjusted(adjusted(config, key, one), key, one.negated());
            let slack = setting_range(key).2.units();
            &&& 0x80_0000 * size(setting_of(after, key).units() - setting_of(config, key).units())
                <= slack
            &&& if key == SettingKey::BFootMass {
                0x80_0000 * size(
                    after.links.tibia_mass_kg.units() - config.links.tibia_mass_kg.units(),
                ) <= slack
            } else {
                after.links.tibia_mass_kg == config.links.tibia_mass_kg
            }
            &&& forall|other: SettingKey|
                other != key ==> #[trigger] setting_of(after, other) == setting_of(config, other)
            &&& after.control_hz == config.control_hz
            &&& after.physics_hz == config.physics_hz
            &&& after.physics_substeps == config.physics_substeps
            &&& after.gait == config.gait
            &&& after.chassis.height_m == config.chassis.height_m
            &&& after.links.tibia_length_m == config.links.tibia_length_m
            &&& after.links.foot_radius_m == config.links.foot_radius_m
        }),
{
    let one = Scalar::ratio(1, 1);
    law_one();
    law_push_down_undoes_push_up(key, setting_of(config, key), one, one.negated());
    if key == SettingKey::BFootMass {
        law_push_down_undoes_push_up(key, config.links.tibia_mass_kg, one, one.negated());
    }
}

/// The steps and the bounds of the settings: lengths by 5 mm, widths of segments by 1 mm, the body
/// by 10 mm, masses by 100 g for the body and 10 g for the legs.
pub proof fn law_settings_have_their_ranges()
    ensures
        setting_range(SettingKey::ABLength) == (
            Scalar::ratio(5, 1000),
            Scalar::ratio(35, 1000),
            Scalar::ratio(120, 1000),
        ),
        setting_range(SettingKey::BFootLength) == (
            Scalar::ratio(5, 1000),
            Scalar::ratio(60, 1000),
            Scalar::ratio(180, 1000),
        ),
        setting_range(SettingKey::LinkWidth) == (
            Scalar::ratio(1, 1000),
            Scalar::ratio(7, 1000),
            Scalar::ratio(25, 1000),
        ),
        setting_range(SettingKey::BodyWidth) == (
            Scalar::ratio(10, 1000),
            Scalar::ratio(10, 100),
            Scalar::ratio(28, 100),
        ),
        setting_range(SettingKey::BodyLength) == (
            Scalar::ratio(10, 1000),
            Scalar::ratio(14, 100),
            Scalar::ratio(36, 100),
        ),
        setting_range(SettingKey::BodyMass) == (
            Scalar::ratio(10, 100),
            Scalar::ratio(20, 100),
            Scalar::ratio(3, 1),
        ),
        setting_range(SettingKey::ABMass) == (
            Scalar::ratio(10, 1000),
            Scalar::ratio(2, 100),
            Scalar::ratio(30, 100),
        ),
        setting_range(SettingKey::BFootMass) == (
            Scalar::ratio(10, 1000),
            Scalar::ratio(2, 100),
            Scalar::ratio(40, 100),
        ),
{
}

/// A push moves a value by exactly its step, up for a positive direction and down for a negative
/// one, and to the bound where the step would lead beyond it.
pub proof fn law_push_is_one_step(key: SettingKey, value: Scalar, direction: Scalar)
    requires
        !direction.is_nan(),
    ensures
        ({
            let (step, low, high) = setting_range(key);
            let after = setting_pushed(key, value, direction);
            let moved = if direction.is_negative() {
                value.minus(step)
            } else {
                value.plus(step)
            };
            &&& low.le(moved) && moved.le(high) ==> after == moved
            &&& moved.lt(low) ==> after == low
            &&& high.lt(moved) ==> after == high
        }),
{
    let (step, low, high) = setting_range(key);
    lemma_setting_range(key);
    law_one();
    law_one_is_neutral(step);
    law_negation_of_product(Scalar::ratio(1, 1), step);
    let moved = if direction.is_negative() {
        value.minus(step)
    } else {
        value.plus(step)
    };
    law_clamp_is_within(moved, low, high);
    law_lt_is_transitive(low, high, moved);
    law_order_is_total(moved, low);
    law_order_is_total(low, moved);
}

/// A push up never lowers a value within its bounds, and a push down never raises it.
pub proof fn law_push_goes_its_way(key: SettingKey, value: Scalar, direction: Scalar)
    requires
        !direction.is_nan(),
        setting_range(key).1.le(value),
        value.le(setting_range(key).2),
    ensures
        !direction.is_negative() ==> value.le(setting_pushed(key, value, direction)),
        direction.is_negative() ==> setting_pushed(key, value, direction).le(value),
{
    let (step, low, high) = setting_range(key);
    lemma_setting_range(key);
    law_zero();
    law_between_is_finite(low, value, high);
    law_one();
    law_one_is_neutral(step);
    law_negation_of_product(Scalar::ratio(1, 1), step);
    law_negation(step, step);
    law_negation(step, Scalar::ratio(0, 1));
    law_sum_follows_sign(value, step);
    law_sum_follows_sign(value, step.negated());
    reveal(Scalar::spec_lt);
    reveal(Scalar::spec_le);
}

/// Each setting's button moves the part of the robot that it is named after; the mass from B to the
/// foot has two parts, which move alike, and the tibia's moves with no other button.
pub proof fn law_buttons_move_their_parts(config: RobotConfig, key: SettingKey, direction: Scalar)
    ensures
        ({
            let after = adjusted(config, key, direction);
            let pushed = |value: Scalar| setting_pushed(key, value, direction);
            &&& after.links.coxa_length_m == if key == SettingKey::ABLength {
                pushed(config.links.coxa_length_m)
            } else {
                config.links.coxa_length_m
            }
            &&& after.links.femur_length_m == if key == SettingKey::BFootLength {
                pushed(config.links.femur_length_m)
            } else {
                config.links.femur_length_m
            }
            &&& after.links.link_radius_m == if key == SettingKey::LinkWidth {
                pushed(config.links.link_radius_m)
            } else {
                config.links.link_radius_m
            }
            &&& after.chassis.width_m == if key == SettingKey::BodyWidth {
                pushed(config.chassis.width_m)
            } else {
                config.chassis.width_m
            }
            &&& after.chassis.length_m == if key == SettingKey::BodyLength {
                pushed(config.chassis.length_m)
            } else {
                config.chassis.length_m
            }
            &&& after.chassis.mass_kg == if key == SettingKey::BodyMass {
                pushed(config.chassis.mass_kg)
            } else {
                config.chassis.mass_kg
            }
            &&& after.links.coxa_mass_kg == if key == SettingKey::ABMass {
                pushed(config.links.coxa_mass_kg)
            } else {
                config.links.coxa_mass_kg
            }
            &&& after.links.femur_mass_kg == if key == SettingKey::BFootMass {
                pushed(config.links.femur_mass_kg)
            } else {
                config.links.femur_mass_kg
            }
            &&& after.links.tibia_mass_kg == if key == SettingKey::BFootMass {
                pushed(config.links.tibia_mass_kg)
            } else {
                config.links.tibia_mass_kg
            }
        }),
{
}

/// Lengths are shown in millimetres and masses in kilograms; the width of a segment is twice its
/// radius, and the mass from B to the foot is that of both parts.
pub proof fn law_settings_are_shown(config: RobotConfig)
    ensures
        ({
            let thousand = Scalar::ratio(1000, 1);
            let links = config.links;
            let chassis = config.chassis;
            &&& setting_text(config, SettingKey::ABLength) == fixed_text(
                links.coxa_length_m.times(thousand),
                0,
            ) + " mm"@
            &&& setting_text(config, SettingKey::BFootLength) == fixed_text(
                links.femur_length_m.times(thousand),
                0,
            ) + " mm"@
            &&& setting_text(config, SettingKey::LinkWidth) == fixed_text(
                links.link_radius_m.times(Scalar::ratio(2000, 1)),
                0,
            ) + " mm"@
            &&& setting_text(config, SettingKey::BodyWidth) == fixed_text(
                chassis.width_m.times(thousand),
                0,
            ) + " mm"@
            &&& setting_text(config, SettingKey::BodyLength) == fixed_text(
                chassis.length_m.times(thousand),
                0,
            ) + " mm"@
            &&& setting_text(config, SettingKey::BodyMass) == fixed_text(chassis.mass_kg, 2)
                + " kg"@
            &&& setting_text(config, SettingKey::ABMass) == fixed_text(links.coxa_mass_kg, 3)
                + " kg"@
            &&& setting_text(config, SettingKey::BFootMass) == fixed_text(
                links.femur_mass_kg.plus(links.tibia_mass_kg),
                3,
            ) + " kg"@
        }),
{
}

/// Physics runs at the rate that is configured, and at 60 steps per second at least; a step has the
/// parts that are configured, and one at least.
pub proof fn law_physics_runs_as_configured(config: RobotConfig)
    ensures
        ({
            let (dt, parts) = spec_physics_step(config);
            let least = Scalar::ratio(60, 1);
            let one = Scalar::ratio(1, 1);
            &&& least.le(config.physics_hz) ==> dt == one.over(config.physics_hz)
            &&& !least.le(config.physics_hz) ==> dt == one.over(least)
            &&& parts >= 1
            &&& config.physics_substeps >= 1 ==> parts == config.physics_substeps
            &&& config.physics_substeps == 0 ==> parts == 1
        }),
{
    let least = Scalar::ratio(60, 1);
    law_ratio_order(60, 1, 60, 1);
    law_order_is_total(config.physics_hz, least);
    law_order_is_total(least, config.physics_hz);
}

} // verus!
