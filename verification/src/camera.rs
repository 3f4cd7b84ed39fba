//! The camera that circles a point of the world.
//!
//! As in [`crate::motion`], the values of the sine, the cosine and the exponential are handed in,
//! evaluated at the arguments that [`camera_arguments`] gives.

use crate::accuracy::{law_product_with_part_is_finite, law_product_with_whole};
use crate::accuracy::{law_product_with_zero, law_sum_follows_sign, law_sum_with_zero};
use crate::order::{law_above_positive_is_not_zero, law_between_is_finite, law_clamp_is_within};
use crate::order::{law_commutes, law_lt_is_transitive, law_max_is_at_least, law_negation};
use crate::order::{law_negation_of_product, law_one, law_order_is_total, law_product_is_number};
use crate::order::{law_product_with_part, law_ratio_is_finite, law_ratio_order};
use crate::order::{law_sum_is_number, law_zero};
use crate::scalar::{lemma_magnitude_sign, Scalar};
use crate::vector::Vec3;
use vstd::prelude::*;

verus! {

/// Where the camera looks and from where.
#[derive(Clone, Copy, Debug, PartialEq, Eq, Structural)]
pub struct CameraRig {
    /// The point that it looks at.
    pub focus: Vec3,
    /// The angle about the vertical axis, in radians.
    pub yaw: Scalar,
    /// The angle above the ground, in radians.
    pub pitch: Scalar,
    /// The distance from the focus, in metres.
    pub distance: Scalar,
}

/// The camera at the start.
pub open spec fn starting_camera() -> CameraRig {
    CameraRig {
        focus: Vec3::new(Scalar::ratio(0, 1), Scalar::ratio(10, 100), Scalar::ratio(35, 100)),
        yaw: Scalar::ratio(248, 100),
        pitch: Scalar::ratio(56, 100),
        distance: Scalar::ratio(265, 100),
    }
}

impl Default for CameraRig {
    fn default() -> (r: CameraRig)
        ensures
            r == starting_camera(),
    {
        CameraRig {
            focus: Vec3::new(Scalar::ratio(0, 1), Scalar::ratio(10, 100), Scalar::ratio(35, 100)),
            yaw: Scalar::ratio(248, 100),
            pitch: Scalar::ratio(56, 100),
            distance: Scalar::ratio(265, 100),
        }
    }
}

/// What the mouse did to the camera in a frame.
#[derive(Clone, Copy, Debug, PartialEq, Eq, Structural)]
pub struct CameraInput {
    /// Whether the right button is held, which orbits.
    pub right_pressed: bool,
    /// Whether the middle button is held, which pans.
    pub middle_pressed: bool,
    /// How far the mouse moved to the right, in pixels.
    pub motion_x: Scalar,
    /// How far the mouse moved down, in pixels.
    pub motion_y: Scalar,
    /// How far the wheel turned, which zooms.
    pub scroll: Scalar,
}

/// The camera after an orbit.
pub open spec fn spec_orbited(rig: CameraRig, input: CameraInput) -> CameraRig {
    if input.right_pressed {
        CameraRig {
            yaw: rig.yaw.minus(input.motion_x.times(Scalar::ratio(6, 1000))),
            pitch: rig.pitch.minus(input.motion_y.times(Scalar::ratio(5, 1000))).clamp(
                Scalar::ratio(18, 100),
                Scalar::ratio(130, 100),
            ),
            ..rig
        }
    } else {
        rig
    }
}

/// The camera after an orbit.
#[verifier::when_used_as_spec(spec_orbited)]
pub fn orbited(rig: CameraRig, input: CameraInput) -> (r: CameraRig)
    ensures
        r == orbited(rig, input),
{
    if input.right_pressed {
        proof {
            law_ratio_order(18, 100, 130, 100);
        }
        CameraRig {
            yaw: rig.yaw.minus(input.motion_x.times(Scalar::ratio(6, 1000))),
            pitch: rig.pitch.minus(input.motion_y.times(Scalar::ratio(5, 1000))).clamp(
                Scalar::ratio(18, 100),
                Scalar::ratio(130, 100),
            ),
            ..rig
        }
    } else {
        rig
    }
}

/// The camera after a pan, for the sine and the cosine of its yaw.
pub open spec fn panned(
    rig: CameraRig,
    input: CameraInput,
    sin_yaw: Scalar,
    cos_yaw: Scalar,
) -> CameraRig {
    if input.middle_pressed {
        let zero = Scalar::ratio(0, 1);
        let right = Vec3::new(cos_yaw, zero, sin_yaw.negated());
        let forward = Vec3::new(sin_yaw, zero, cos_yaw);
        let scale = rig.distance.times(Scalar::ratio(14, 10_000));
        CameraRig {
            focus: rig.focus.plus(
                right.negated().times(input.motion_x).times(scale).plus(
                    forward.times(input.motion_y).times(scale),
                ),
            ),
            ..rig
        }
    } else {
        rig
    }
}

/// The camera after a zoom, for the factor by which the wheel changes the distance.
pub open spec fn zoomed(rig: CameraRig, input: CameraInput, factor: Scalar) -> CameraRig {
    if Scalar::ratio(1, 1000).lt(input.scroll.abs()) {
        CameraRig {
            distance: rig.distance.times(factor).clamp(
                Scalar::ratio(55, 100),
                Scalar::ratio(45, 10),
            ),
            ..rig
        }
    } else {
        rig
    }
}

/// The exponent of the zoom: its exponential is the factor by which the wheel changes the distance.
pub open spec fn zoom_exponent(scroll: Scalar) -> Scalar {
    scroll.negated().times(Scalar::ratio(22, 100))
}

/// The angle whose sine and cosine a frame needs, and the exponent of the zoom.
pub open spec fn spec_camera_arguments(rig: CameraRig, input: CameraInput) -> (Scalar, Scalar) {
    (orbited(rig, input).yaw, zoom_exponent(input.scroll))
}

/// The camera after a frame: it orbits, then pans, then zooms.
pub open spec fn camera_after(
    rig: CameraRig,
    input: CameraInput,
    sin_yaw: Scalar,
    cos_yaw: Scalar,
    zoom: Scalar,
) -> CameraRig {
    zoomed(panned(orbited(rig, input), input, sin_yaw, cos_yaw), input, zoom)
}

/// The angle whose sine and cosine a frame needs, and the exponent of the zoom.
pub fn camera_arguments(rig: &CameraRig, input: CameraInput) -> (r: (Scalar, Scalar))
    ensures
        r.0 == orbited(*rig, input).yaw,
        r.1 == zoom_exponent(input.scroll),
        r == spec_camera_arguments(*rig, input),
{
    (orbited(*rig, input).yaw, input.scroll.negated().times(Scalar::ratio(22, 100)))
}

/// Orbits, then pans, then zooms, as far as the mouse asks for it.
pub fn camera_mouse(
    rig: &mut CameraRig,
    input: CameraInput,
    sin_yaw: Scalar,
    cos_yaw: Scalar,
    zoom: Scalar,
)
    ensures
        *final(rig) == zoomed(
            panned(orbited(*old(rig), input), input, sin_yaw, cos_yaw),
            input,
            zoom,
        ),
        *final(rig) == camera_after(*old(rig), input, sin_yaw, cos_yaw, zoom),
{
    *rig = orbited(*rig, input);
    if input.middle_pressed {
        let zero = Scalar::ratio(0, 1);
        let right = Vec3::new(cos_yaw, zero, sin_yaw.negated());
        let forward = Vec3::new(sin_yaw, zero, cos_yaw);
        let scale = rig.distance.times(Scalar::ratio(14, 10_000));
        rig.focus =
        rig.focus.plus(
            right.negated().times(input.motion_x).times(scale).plus(
                forward.times(input.motion_y).times(scale),
            ),
        );
    }
    if Scalar::ratio(1, 1000).lt(input.scroll.abs()) {
        proof {
            law_ratio_order(55, 100, 45, 10);
        }
        rig.distance =
        rig.distance.times(zoom).clamp(Scalar::ratio(55, 100), Scalar::ratio(45, 10));
    }
}

/// Where the camera stands, for the sines and cosines of its angles: never below 25 cm.
pub open spec fn spec_camera_position(
    rig: CameraRig,
    sin_yaw: Scalar,
    cos_yaw: Scalar,
    sin_pitch: Scalar,
    cos_pitch: Scalar,
) -> Vec3 {
    let from_focus = Vec3::new(sin_yaw.times(cos_pitch), sin_pitch, cos_yaw.times(cos_pitch));
    let place = rig.focus.plus(from_focus.times(rig.distance));
    Vec3::new(place.x, place.y.max(Scalar::ratio(25, 100)), place.z)
}

/// Where the camera stands, for the sines and cosines of its angles: never below 25 cm.
pub fn camera_position(
    rig: &CameraRig,
    sin_yaw: Scalar,
    cos_yaw: Scalar,
    sin_pitch: Scalar,
    cos_pitch: Scalar,
) -> (r: Vec3)
    ensures
        r == spec_camera_position(*rig, sin_yaw, cos_yaw, sin_pitch, cos_pitch),
{
    let from_focus = Vec3::new(sin_yaw.times(cos_pitch), sin_pitch, cos_yaw.times(cos_pitch));
    let place = rig.focus.plus(from_focus.times(rig.distance));
    Vec3::new(place.x, place.y.max(Scalar::ratio(25, 100)), place.z)
}

/// Whether the camera is within its bounds.
pub open spec fn camera_in_bounds(rig: CameraRig) -> bool {
    &&& Scalar::ratio(18, 100).le(rig.pitch) && rig.pitch.le(Scalar::ratio(130, 100))
    &&& Scalar::ratio(55, 100).le(rig.distance) && rig.distance.le(Scalar::ratio(45, 10))
}

/// The camera starts within its bounds.
pub proof fn law_camera_starts_in_bounds()
    ensures
        camera_in_bounds(starting_camera()),
{
    law_ratio_order(18, 100, 56, 100);
    law_ratio_order(56, 100, 130, 100);
    law_ratio_order(55, 100, 265, 100);
    law_ratio_order(265, 100, 45, 10);
}

/// The mouse keeps the camera within its bounds, whatever it does.
pub proof fn law_mouse_keeps_camera_in_bounds(
    rig: CameraRig,
    input: CameraInput,
    sin_yaw: Scalar,
    cos_yaw: Scalar,
    zoom: Scalar,
)
    requires
        camera_in_bounds(rig),
        input.right_pressed ==> !input.motion_y.is_nan(),
        Scalar::ratio(1, 1000).lt(input.scroll.abs()) ==> !zoom.is_nan(),
    ensures
        camera_in_bounds(
            zoomed(panned(orbited(rig, input), input, sin_yaw, cos_yaw), input, zoom),
        ),
{
    law_ratio_order(18, 100, 130, 100);
    law_ratio_order(55, 100, 45, 10);
    law_ratio_is_finite(5, 1000);
    law_ratio_is_finite(18, 100);
    law_ratio_is_finite(130, 100);
    law_ratio_is_finite(55, 100);
    law_ratio_is_finite(45, 10);
    law_between_is_finite(Scalar::ratio(18, 100), rig.pitch, Scalar::ratio(130, 100));
    law_between_is_finite(Scalar::ratio(55, 100), rig.distance, Scalar::ratio(45, 10));
    law_above_positive_is_not_zero(Scalar::ratio(55, 100), rig.distance);
    if input.right_pressed {
        law_product_is_number(input.motion_y, Scalar::ratio(5, 1000));
        law_sum_is_number(rig.pitch, input.motion_y.times(Scalar::ratio(5, 1000)));
    }
    if !zoom.is_nan() {
        law_product_is_number(rig.distance, zoom);
    }
    law_clamp_is_within(
        rig.pitch.minus(input.motion_y.times(Scalar::ratio(5, 1000))),
        Scalar::ratio(18, 100),
        Scalar::ratio(130, 100),
    );
    law_clamp_is_within(
        rig.distance.times(zoom),
        Scalar::ratio(55, 100),
        Scalar::ratio(45, 10),
    );
}

/// The camera is never below 25 cm.
pub proof fn law_camera_stays_above_ground(
    rig: CameraRig,
    sin_yaw: Scalar,
    cos_yaw: Scalar,
    sin_pitch: Scalar,
    cos_pitch: Scalar,
)
    ensures
        Scalar::ratio(25, 100).le(
            spec_camera_position(rig, sin_yaw, cos_yaw, sin_pitch, cos_pitch).y,
        ),
{
    law_ratio_order(25, 100, 25, 100);
    let from_focus = Vec3::new(sin_yaw.times(cos_pitch), sin_pitch, cos_yaw.times(cos_pitch));
    let place = rig.focus.plus(from_focus.times(rig.distance));
    law_max_is_at_least(place.y, Scalar::ratio(25, 100));
}

/// Panning moves the focus along the ground and keeps its height.
pub proof fn law_pan_keeps_height(
    rig: CameraRig,
    input: CameraInput,
    sin_yaw: Scalar,
    cos_yaw: Scalar,
)
    requires
        camera_in_bounds(rig),
        input.middle_pressed ==> input.motion_x.is_finite() && input.motion_y.is_finite(),
        !rig.focus.y.is_nan(),
    ensures
        ({
            let after = panned(rig, input, sin_yaw, cos_yaw).focus.y;
            &&& after.units() == rig.focus.y.units()
            &&& rig.focus.y.code() != 0 ==> after == rig.focus.y
        }),
{
    if input.middle_pressed {
        let zero = Scalar::ratio(0, 1);
        let part = Scalar::ratio(14, 10_000);
        let scale = rig.distance.times(part);
        law_zero();
        law_ratio_is_finite(55, 100);
        law_ratio_is_finite(45, 10);
        law_between_is_finite(Scalar::ratio(55, 100), rig.distance, Scalar::ratio(45, 10));
        law_ratio_order(14, 10_000, 1, 1);
        law_ratio_order(1, 1, 14, 10_000);
        law_product_with_part_is_finite(rig.distance, part);
        law_product_with_zero(input.motion_x, zero.negated());
        law_product_with_zero(scale, zero.negated().times(input.motion_x));
        law_product_with_zero(input.motion_y, zero);
        law_product_with_zero(scale, zero.times(input.motion_y));
        let left = zero.negated().times(input.motion_x).times(scale);
        let ahead = zero.times(input.motion_y).times(scale);
        law_sum_with_zero(left, ahead);
        law_sum_with_zero(rig.focus.y, left.plus(ahead));
    }
}

/// The camera looks at a point 10 cm above the ground: it starts so, and the mouse keeps it so.
pub proof fn law_focus_stays_level(
    rig: CameraRig,
    input: CameraInput,
    sin_yaw: Scalar,
    cos_yaw: Scalar,
    zoom: Scalar,
)
    requires
        camera_in_bounds(rig),
        rig.focus.y == Scalar::ratio(10, 100),
        input.right_pressed ==> !input.motion_y.is_nan(),
        input.middle_pressed ==> input.motion_x.is_finite() && input.motion_y.is_finite(),
    ensures
        starting_camera().focus.y == Scalar::ratio(10, 100),
        zoomed(panned(orbited(rig, input), input, sin_yaw, cos_yaw), input, zoom).focus.y
            == Scalar::ratio(10, 100),
{
    let quiet = CameraInput { middle_pressed: false, scroll: Scalar::ratio(0, 1), ..input };
    law_ratio_is_finite(10, 100);
    law_one();
    law_zero();
    law_ratio_order(0, 1, 1, 1000);
    law_order_is_total(Scalar::ratio(1, 1000), Scalar::ratio(0, 1));
    law_mouse_keeps_camera_in_bounds(rig, quiet, sin_yaw, cos_yaw, Scalar::ratio(1, 1));
    law_pan_keeps_height(orbited(rig, input), input, sin_yaw, cos_yaw);
}

/// The right button orbits, the middle one pans and the wheel zooms, and none does what another one
/// does.
pub proof fn law_each_input_moves_its_part(
    rig: CameraRig,
    input: CameraInput,
    sin_yaw: Scalar,
    cos_yaw: Scalar,
    zoom: Scalar,
)
    ensures
        ({
            let after = zoomed(
                panned(orbited(rig, input), input, sin_yaw, cos_yaw),
                input,
                zoom,
            );
            &&& !input.right_pressed ==> after.yaw == rig.yaw && after.pitch == rig.pitch
            &&& !input.middle_pressed ==> after.focus == rig.focus
            &&& !Scalar::ratio(1, 1000).lt(input.scroll.abs()) ==> after.distance == rig.distance
        }),
{
}

/// Turning the wheel forwards never takes the camera away from the focus, and turning it back never
/// takes it closer: the exponent of the zoom has the sign opposite to the wheel's, a factor of at
/// most one never lengthens the distance, and one of at least one never shortens it.
pub proof fn law_wheel_zooms_one_way(rig: CameraRig, input: CameraInput, factor: Scalar)
    requires
        camera_in_bounds(rig),
    ensures
        input.scroll.is_finite() && Scalar::ratio(0, 1).le(input.scroll) ==> zoom_exponent(
            input.scroll,
        ).le(Scalar::ratio(0, 1)),
        input.scroll.is_finite() && input.scroll.le(Scalar::ratio(0, 1)) ==> Scalar::ratio(0, 1).le(
            zoom_exponent(input.scroll),
        ),
        Scalar::ratio(0, 1).le(factor) && factor.le(Scalar::ratio(1, 1)) ==> zoomed(
            rig,
            input,
            factor,
        ).distance.le(rig.distance),
        Scalar::ratio(1, 1).le(factor) ==> rig.distance.le(zoomed(rig, input, factor).distance),
{
    let zero = Scalar::ratio(0, 1);
    let one = Scalar::ratio(1, 1);
    let low = Scalar::ratio(55, 100);
    let high = Scalar::ratio(45, 10);
    let part = Scalar::ratio(22, 100);
    let product = rig.distance.times(factor);
    law_zero();
    law_one();
    law_ratio_is_finite(22, 100);
    law_ratio_is_finite(55, 100);
    law_ratio_is_finite(45, 10);
    law_ratio_order(0, 1, 22, 100);
    law_ratio_order(0, 1, 55, 100);
    law_ratio_order(22, 100, 1, 1);
    law_ratio_order(1, 1, 22, 100);
    law_ratio_order(1, 1, 0, 1);
    law_ratio_order(55, 100, 45, 10);
    law_between_is_finite(low, rig.distance, high);
    law_above_positive_is_not_zero(low, rig.distance);
    law_lt_is_transitive(zero, low, rig.distance);
    law_lt_is_transitive(one.negated(), zero, factor);
    reveal(Scalar::spec_le);
    reveal(Scalar::spec_lt);
    lemma_magnitude_sign(rig.distance.code() as int);
    if Scalar::ratio(1, 1000).lt(input.scroll.abs()) {
        if zero.le(factor) && factor.le(one) {
            law_product_with_part(rig.distance, factor);
        }
        if one.le(factor) {
            law_product_with_whole(rig.distance, factor);
        }
    }
    if input.scroll.is_finite() {
        law_negation(input.scroll, zero);
        law_negation(part, part);
        lemma_magnitude_sign(input.scroll.code() as int);
        lemma_magnitude_sign(0);
        law_commutes(part, input.scroll.negated());
        if input.scroll.code() == 0 {
            law_product_with_zero(part, input.scroll.negated());
        } else if input.scroll.is_negative() {
            law_product_with_part(input.scroll.negated(), part);
        } else {
            law_product_with_part(input.scroll, part);
            law_negation_of_product(input.scroll, part);
            law_negation(input.scroll.times(part), zero);
        }
    }
}

/// The right button turns the camera against the mouse, by 6 thousandths of a radian per pixel
/// across and 5 up and down; the pitch stops at its bounds, and the rest stays.
pub proof fn law_orbit_is_by_the_pixel(rig: CameraRig, input: CameraInput)
    requires
        input.right_pressed,
    ensures
        ({
            let after = orbited(rig, input);
            let low = Scalar::ratio(18, 100);
            let high = Scalar::ratio(130, 100);
            let pitch = rig.pitch.minus(input.motion_y.times(Scalar::ratio(5, 1000)));
            &&& after.yaw == rig.yaw.minus(input.motion_x.times(Scalar::ratio(6, 1000)))
            &&& low.le(pitch) && pitch.le(high) ==> after.pitch == pitch
            &&& pitch.lt(low) ==> after.pitch == low
            &&& high.lt(pitch) ==> after.pitch == high
            &&& after.focus == rig.focus
            &&& after.distance == rig.distance
        }),
{
    let low = Scalar::ratio(18, 100);
    let high = Scalar::ratio(130, 100);
    let pitch = rig.pitch.minus(input.motion_y.times(Scalar::ratio(5, 1000)));
    law_ratio_order(18, 100, 130, 100);
    law_clamp_is_within(pitch, low, high);
    law_lt_is_transitive(low, high, pitch);
    law_order_is_total(pitch, low);
    law_order_is_total(low, pitch);
}

/// Moving the mouse to the right never raises the yaw and moving it to the left never lowers it;
/// moving it down never raises the camera.
pub proof fn law_orbit_goes_against_the_mouse(rig: CameraRig, input: CameraInput)
    requires
        input.right_pressed,
        camera_in_bounds(rig),
        rig.yaw.is_finite(),
        input.motion_x.is_finite(),
        input.motion_y.is_finite(),
    ensures
        Scalar::ratio(0, 1).le(input.motion_x) ==> orbited(rig, input).yaw.le(rig.yaw),
        input.motion_x.le(Scalar::ratio(0, 1)) ==> rig.yaw.le(orbited(rig, input).yaw),
        Scalar::ratio(0, 1).le(input.motion_y) ==> orbited(rig, input).pitch.le(rig.pitch),
        input.motion_y.le(Scalar::ratio(0, 1)) ==> rig.pitch.le(orbited(rig, input).pitch),
{
    let low = Scalar::ratio(18, 100);
    let high = Scalar::ratio(130, 100);
    law_ratio_is_finite(18, 100);
    law_ratio_is_finite(130, 100);
    law_ratio_order(18, 100, 130, 100);
    law_between_is_finite(low, rig.pitch, high);
    lemma_turned_against(rig.yaw, input.motion_x, 6);
    lemma_turned_against(rig.pitch, input.motion_y, 5);
    reveal(Scalar::spec_lt);
    reveal(Scalar::spec_le);
}

/// An angle less a part of a motion goes against the motion.
proof fn lemma_turned_against(angle: Scalar, motion: Scalar, part: u32)
    requires
        angle.is_finite(),
        motion.is_finite(),
        part <= 1000,
    ensures
        Scalar::ratio(0, 1).le(motion) ==> angle.minus(
            motion.times(Scalar::ratio(part, 1000)),
        ).le(angle),
        motion.le(Scalar::ratio(0, 1)) ==> angle.le(
            angle.minus(motion.times(Scalar::ratio(part, 1000))),
        ),
{
    let zero = Scalar::ratio(0, 1);
    let factor = Scalar::ratio(part, 1000);
    let turn = motion.times(factor);
    law_zero();
    law_one();
    law_ratio_is_finite(0, 1);
    law_ratio_order(0, 1, part, 1000);
    law_ratio_order(part, 1000, 1, 1);
    law_ratio_order(1, 1, part, 1000);
    law_product_with_part_is_finite(motion, factor);
    law_negation(turn, zero);
    law_negation(motion, zero);
    law_negation(turn, turn);
    law_sum_follows_sign(angle, turn.negated());
    lemma_magnitude_sign(motion.code() as int);
    lemma_magnitude_sign(0);
    reveal(Scalar::spec_le);
    if motion.code() == 0 {
        law_ratio_is_finite(part, 1000);
        law_product_with_zero(factor, motion);
        law_commutes(factor, motion);
    } else if motion.is_negative() {
        law_product_with_part(motion.negated(), factor);
        law_negation_of_product(motion, factor);
    } else {
        law_product_with_part(motion, factor);
    }
}

/// The middle button moves the focus with the map under the mouse, to the left and ahead as the
/// camera sees it, by 14 ten-thousandths of the distance per pixel; the rest stays.
pub proof fn law_pan_is_by_the_pixel(
    rig: CameraRig,
    input: CameraInput,
    sin_yaw: Scalar,
    cos_yaw: Scalar,
)
    requires
        input.middle_pressed,
    ensures
        ({
            let after = panned(rig, input, sin_yaw, cos_yaw);
            let scale = rig.distance.times(Scalar::ratio(14, 10_000));
            &&& after.focus.x == rig.focus.x.plus(
                cos_yaw.negated().times(input.motion_x).times(scale).plus(
                    sin_yaw.times(input.motion_y).times(scale),
                ),
            )
            &&& after.focus.z == rig.focus.z.plus(
                sin_yaw.times(input.motion_x).times(scale).plus(
                    cos_yaw.times(input.motion_y).times(scale),
                ),
            )
            &&& after.yaw == rig.yaw
            &&& after.pitch == rig.pitch
            &&& after.distance == rig.distance
        }),
{
    law_negation(sin_yaw, sin_yaw);
}

/// The wheel multiplies the distance by its factor, within the bounds, once it turns by more than a
/// thousandth to either side; the rest stays.
pub proof fn law_zoom_is_by_the_factor(rig: CameraRig, input: CameraInput, factor: Scalar)
    ensures
        ({
            let after = zoomed(rig, input, factor);
            let low = Scalar::ratio(55, 100);
            let high = Scalar::ratio(45, 10);
            let distance = rig.distance.times(factor);
            let little = Scalar::ratio(1, 1000);
            let turned = little.lt(input.scroll) || input.scroll.lt(little.negated());
            &&& !turned ==> after == rig
            &&& turned && low.le(distance) && distance.le(high) ==> after.distance == distance
            &&& turned && distance.lt(low) ==> after.distance == low
            &&& turned && high.lt(distance) ==> after.distance == high
            &&& after.focus == rig.focus
            &&& after.yaw == rig.yaw
            &&& after.pitch == rig.pitch
        }),
        zoom_exponent(input.scroll) == input.scroll.negated().times(Scalar::ratio(22, 100)),
{
    let low = Scalar::ratio(55, 100);
    let high = Scalar::ratio(45, 10);
    let distance = rig.distance.times(factor);
    let little = Scalar::ratio(1, 1000);
    law_ratio_order(55, 100, 45, 10);
    law_clamp_is_within(distance, low, high);
    law_lt_is_transitive(low, high, distance);
    law_order_is_total(distance, low);
    law_order_is_total(low, distance);
    law_ratio_is_finite(1, 1000);
    law_negation(little, little);
    lemma_magnitude_sign(input.scroll.code() as int);
    lemma_magnitude_sign(little.code() as int);
    reveal(Scalar::spec_lt);
}

/// The camera stands at its distance from the focus, in the direction of its angles, or 25 cm above
/// the ground where that would be lower.
pub proof fn law_camera_stands_at_its_distance(
    rig: CameraRig,
    sin_yaw: Scalar,
    cos_yaw: Scalar,
    sin_pitch: Scalar,
    cos_pitch: Scalar,
)
    ensures
        ({
            let place = spec_camera_position(rig, sin_yaw, cos_yaw, sin_pitch, cos_pitch);
            let low = Scalar::ratio(25, 100);
            let height = rig.focus.y.plus(sin_pitch.times(rig.distance));
            &&& place.x == rig.focus.x.plus(sin_yaw.times(cos_pitch).times(rig.distance))
            &&& place.z == rig.focus.z.plus(cos_yaw.times(cos_pitch).times(rig.distance))
            &&& low.le(height) ==> place.y == height
            &&& !low.le(height) ==> place.y == low
        }),
{
    let low = Scalar::ratio(25, 100);
    let height = rig.focus.y.plus(sin_pitch.times(rig.distance));
    law_ratio_order(25, 100, 25, 100);
    law_order_is_total(height, low);
    law_order_is_total(low, height);
}

/// The mouse does all that it asks for in one frame: it turns the camera by its motion, moves the
/// focus by the distance that the camera had, and then changes the distance; the sine and the
/// cosine are those of the yaw that the frame ends with.
pub proof fn law_mouse_does_all_it_asks_for(
    rig: CameraRig,
    input: CameraInput,
    sin_yaw: Scalar,
    cos_yaw: Scalar,
    zoom: Scalar,
)
    ensures
        ({
            let after = camera_after(rig, input, sin_yaw, cos_yaw, zoom);
            let at = spec_camera_arguments(rig, input);
            let scale = rig.distance.times(Scalar::ratio(14, 10_000));
            &&& at.0 == after.yaw
            &&& at.1 == input.scroll.negated().times(Scalar::ratio(22, 100))
            &&& input.right_pressed ==> after.yaw == rig.yaw.minus(
                input.motion_x.times(Scalar::ratio(6, 1000)),
            )
            &&& input.right_pressed ==> after.pitch == orbited(rig, input).pitch
            &&& !input.right_pressed ==> after.yaw == rig.yaw && after.pitch == rig.pitch
            &&& input.middle_pressed ==> after.focus.x == rig.focus.x.plus(
                cos_yaw.negated().times(input.motion_x).times(scale).plus(
                    sin_yaw.times(input.motion_y).times(scale),
                ),
            )
            &&& input.middle_pressed ==> after.focus.z == rig.focus.z.plus(
                sin_yaw.times(input.motion_x).times(scale).plus(
                    cos_yaw.times(input.motion_y).times(scale),
                ),
            )
            &&& !input.middle_pressed ==> after.focus == rig.focus
            &&& after.distance == zoomed(rig, input, zoom).distance
        }),
{
    law_negation(sin_yaw, sin_yaw);
}

} // verus!
