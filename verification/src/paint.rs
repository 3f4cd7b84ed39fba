//! Colours and the surfaces of things.

use crate::scalar::Scalar;
use vstd::prelude::*;

verus! {

/// A colour, its components between 0 and 1.
#[derive(Clone, Copy, Debug, PartialEq, Eq, Structural)]
pub struct Colour {
    /// Red.
    pub red: Scalar,
    /// Green.
    pub green: Scalar,
    /// Blue.
    pub blue: Scalar,
    /// Opacity.
    pub alpha: Scalar,
}

impl Colour {
    /// A colour by percentages, opacity last.
    pub open spec fn spec_percent(red: u32, green: u32, blue: u32, alpha: u32) -> Colour {
        Colour {
            red: Scalar::ratio(red, 100),
            green: Scalar::ratio(green, 100),
            blue: Scalar::ratio(blue, 100),
            alpha: Scalar::ratio(alpha, 100),
        }
    }

    /// A colour by percentages, opacity last.
    #[verifier::when_used_as_spec(spec_percent)]
    pub fn percent(red: u32, green: u32, blue: u32, alpha: u32) -> (r: Colour)
        ensures
            r == Colour::percent(red, green, blue, alpha),
    {
        Colour {
            red: Scalar::ratio(red, 100),
            green: Scalar::ratio(green, 100),
            blue: Scalar::ratio(blue, 100),
            alpha: Scalar::ratio(alpha, 100),
        }
    }
}

/// What a thing is painted with.
#[derive(Clone, Copy, Debug, PartialEq, Eq, Structural)]
pub enum Paint {
    /// The robot's body.
    Body,
    /// The servos that swing.
    ServoA,
    /// The servos that lift.
    ServoB,
    /// The segments of the legs.
    Link,
    /// The feet.
    Foot,
    /// The ground.
    Ground,
    /// Obstacles.
    Obstacle,
    /// Boxes that can be climbed.
    Climb,
    /// The destination.
    Goal,
}

/// How a painted surface looks; what is not given is left to the renderer.
#[derive(Clone, Copy, Debug, PartialEq, Eq, Structural)]
pub struct Surface {
    /// The colour.
    pub colour: Colour,
    /// The colour that it glows in.
    pub glow: Option<Colour>,
    /// How metallic it is.
    pub metallic: Option<Scalar>,
    /// How rough it is.
    pub roughness: Option<Scalar>,
}

/// A surface by percentages: red, green, blue, how metallic and how rough.
pub open spec fn spec_metal(red: u32, green: u32, blue: u32, shine: u32, rough: u32) -> Surface {
    Surface {
        colour: Colour::percent(red, green, blue, 100),
        glow: None,
        metallic: Some(Scalar::ratio(shine, 100)),
        roughness: Some(Scalar::ratio(rough, 100)),
    }
}

/// A surface by percentages: red, green, blue and how rough.
pub open spec fn spec_matte(red: u32, green: u32, blue: u32, rough: u32) -> Surface {
    Surface {
        colour: Colour::percent(red, green, blue, 100),
        glow: None,
        metallic: None,
        roughness: Some(Scalar::ratio(rough, 100)),
    }
}

/// A surface by percentages: red, green, blue, how metallic and how rough.
fn metal(red: u32, green: u32, blue: u32, shine: u32, rough: u32) -> (r: Surface)
    ensures
        r == spec_metal(red, green, blue, shine, rough),
{
    Surface {
        colour: Colour::percent(red, green, blue, 100),
        glow: None,
        metallic: Some(Scalar::ratio(shine, 100)),
        roughness: Some(Scalar::ratio(rough, 100)),
    }
}

/// A surface by percentages: red, green, blue and how rough.
fn matte(red: u32, green: u32, blue: u32, rough: u32) -> (r: Surface)
    ensures
        r == spec_matte(red, green, blue, rough),
{
    Surface {
        colour: Colour::percent(red, green, blue, 100),
        glow: None,
        metallic: None,
        roughness: Some(Scalar::ratio(rough, 100)),
    }
}

/// How a paint looks.
pub open spec fn spec_surface(paint: Paint) -> Surface {
    match paint {
        Paint::Body => spec_metal(5, 35, 82, 15, 38),
        Paint::ServoA => spec_metal(95, 22, 16, 5, 45),
        Paint::ServoB => spec_metal(100, 66, 8, 5, 45),
        Paint::Link => spec_metal(18, 22, 27, 45, 35),
        Paint::Foot => Surface {
            colour: Colour::spec_percent(10, 12, 15, 100),
            glow: None,
            metallic: None,
            roughness: None,
        },
        Paint::Ground => spec_matte(48, 53, 56, 95),
        Paint::Obstacle => spec_matte(34, 36, 39, 90),
        Paint::Climb => spec_matte(52, 31, 12, 85),
        Paint::Goal => Surface {
            colour: Colour::spec_percent(8, 86, 22, 100),
            glow: Some(Colour::spec_percent(2, 20, 4, 100)),
            metallic: None,
            roughness: None,
        },
    }
}

/// How a paint looks.
#[verifier::when_used_as_spec(spec_surface)]
pub fn surface(paint: Paint) -> (r: Surface)
    ensures
        r == surface(paint),
{
    match paint {
        Paint::Body => metal(5, 35, 82, 15, 38),
        Paint::ServoA => metal(95, 22, 16, 5, 45),
        Paint::ServoB => metal(100, 66, 8, 5, 45),
        Paint::Link => metal(18, 22, 27, 45, 35),
        Paint::Foot => Surface {
            colour: Colour::percent(10, 12, 15, 100),
            glow: None,
            metallic: None,
            roughness: None,
        },
        Paint::Ground => matte(48, 53, 56, 95),
        Paint::Obstacle => matte(34, 36, 39, 90),
        Paint::Climb => matte(52, 31, 12, 85),
        Paint::Goal => Surface {
            colour: Colour::percent(8, 86, 22, 100),
            glow: Some(Colour::percent(2, 20, 4, 100)),
            metallic: None,
            roughness: None,
        },
    }
}

} // verus!
