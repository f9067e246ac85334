//! Eight-bit colours and the brightness-divisor shading model.

use vstd::prelude::*;
use crate::fixed::{from_int, times, Fixed, ONE};

verus! {

/// A colour with eight bits per channel; the channels saturate at 0 and 255.
#[derive(Clone, Copy, Debug, PartialEq, Eq, Structural)]
pub struct Rgba {
    pub r: u8,
    pub g: u8,
    pub b: u8,
    pub a: u8,
}

/// A channel divided by a fixed-point divisor, rounded down and kept within
/// the displayable range. A vanishing divisor drives every lit channel to
/// full brightness and a negative one drives it to zero.
pub open spec fn dimmed(c: u8, divisor: Fixed) -> u8 {
    if divisor > 0 {
        let q = (c * ONE) / (divisor as int);
        if q > 255 {
            255u8
        } else {
            q as u8
        }
    } else if divisor == 0 {
        if c == 0 {
            0u8
        } else {
            255u8
        }
    } else {
        0u8
    }
}

/// A channel divided by one and a half, rounded down.
pub open spec fn shadowed(c: u8) -> u8 {
    ((c * 2) / 3) as u8
}

impl Rgba {
    /// Opaque white, the neutral tint.
    pub open spec fn white_spec() -> Rgba {
        Rgba { r: 255, g: 255, b: 255, a: 255 }
    }

    /// Opaque black.
    pub open spec fn black_spec() -> Rgba {
        Rgba { r: 0, g: 0, b: 0, a: 255 }
    }

    /// The fixed tint that night vision lays over everything: the green of
    /// macroquad's palette in eight bits.
    pub open spec fn night_green_spec() -> Rgba {
        Rgba { r: 0, g: 226, b: 48, a: 255 }
    }

    /// Every colour channel divided by `divisor`; alpha is kept.
    pub open spec fn dimmed_by(self, divisor: Fixed) -> Rgba {
        Rgba {
            r: dimmed(self.r, divisor),
            g: dimmed(self.g, divisor),
            b: dimmed(self.b, divisor),
            a: self.a,
        }
    }

    /// Every colour channel divided by one and a half; alpha is kept.
    pub open spec fn in_shadow(self) -> Rgba {
        Rgba { r: shadowed(self.r), g: shadowed(self.g), b: shadowed(self.b), a: self.a }
    }

    /// Opaque white, the neutral tint.
    #[verifier::when_used_as_spec(white_spec)]
    pub fn white() -> (c: Rgba)
        ensures
            c == Rgba::white_spec(),
    {
        Rgba { r: 255, g: 255, b: 255, a: 255 }
    }

    /// Opaque black.
    #[verifier::when_used_as_spec(black_spec)]
    pub fn black() -> (c: Rgba)
        ensures
            c == Rgba::black_spec(),
    {
        Rgba { r: 0, g: 0, b: 0, a: 255 }
    }

    /// The fixed tint that night vision lays over everything.
    #[verifier::when_used_as_spec(night_green_spec)]
    pub fn night_green() -> (c: Rgba)
        ensures
            c == Rgba::night_green_spec(),
    {
        Rgba { r: 0, g: 226, b: 48, a: 255 }
    }

    /// Divides the three colour channels by `divisor`, saturating.
    pub fn dim(self, divisor: Fixed) -> (c: Rgba)
        ensures
            c == self.dimmed_by(divisor),
    {
        Rgba {
            r: dim_channel(self.r, divisor),
            g: dim_channel(self.g, divisor),
            b: dim_channel(self.b, divisor),
            a: self.a,
        }
    }

    /// Divides the three colour channels by one and a half.
    pub fn shadow(self) -> (c: Rgba)
        ensures
            c == self.in_shadow(),
    {
        Rgba {
            r: shadow_channel(self.r),
            g: shadow_channel(self.g),
            b: shadow_channel(self.b),
            a: self.a,
        }
    }
}

/// Divides one channel by a fixed-point divisor, saturating.
pub fn dim_channel(c: u8, divisor: Fixed) -> (r: u8)
    ensures
        r == dimmed(c, divisor),
{
    if divisor > 0 {
        let q: i64 = (c as i64 * ONE) / divisor;
        if q > 255 {
            255
        } else {
            q as u8
        }
    } else if divisor == 0 {
        if c == 0 {
            0
        } else {
            255
        }
    } else {
        0
    }
}

fn shadow_channel(c: u8) -> (r: u8)
    ensures
        r == shadowed(c),
{
    ((c as u16 * 2) / 3) as u8
}

/// What the shading of floor and ceiling makes of a texel on screen row
/// `dist`: with dark shading on, each channel is divided by the number of
/// rows from there down to row `height`, times the multiplier. Rows near
/// the lower edge of the picture are the brightest.
pub open spec fn floor_shaded(
    color: Rgba,
    height: i32,
    dist: i32,
    multiplier: Fixed,
    dark_shading: bool,
) -> Rgba {
    if dark_shading {
        color.dimmed_by(times(from_int((height - dist) as i64), multiplier))
    } else {
        color
    }
}

/// The tint of a wall strip at distance `dist`; `side` tells a hit on a
/// horizontal grid line.
pub open spec fn wall_shaded(
    side: bool,
    dist: Fixed,
    shadows: bool,
    dark_shading: bool,
    multiplier: Fixed,
) -> Rgba {
    let lit = if dark_shading {
        Rgba::white().dimmed_by(times(dist, multiplier))
    } else {
        Rgba::white()
    };
    if shadows && side {
        lit.in_shadow()
    } else {
        lit
    }
}

/// The tint of a sprite at distance measure `dist`.
pub open spec fn sprite_shaded(dist: Fixed, dark_shading: bool, multiplier: Fixed) -> Rgba {
    if dark_shading {
        Rgba::white().dimmed_by(times(dist, multiplier))
    } else {
        Rgba::white()
    }
}

/// With dark shading off, shading hands every colour back unchanged at any
/// distance: texels of floor and ceiling, the tint of sprites, and the tint
/// of walls on every face that the shadow mode does not darken.
pub proof fn lemma_shading_off_is_identity(
    color: Rgba,
    height: i32,
    row: i32,
    dist: Fixed,
    side: bool,
    shadows: bool,
    multiplier: Fixed,
)
    ensures
        floor_shaded(color, height, row, multiplier, false) == color,
        sprite_shaded(dist, false, multiplier) == Rgba::white(),
        !(shadows && side) ==> wall_shaded(side, dist, shadows, false, multiplier)
            == Rgba::white(),
{
}

/// A divisor of exactly one leaves a channel as it is.
pub proof fn lemma_dimmed_by_one(c: u8)
    ensures
        dimmed(c, ONE) == c,
{
}

} // verus!
