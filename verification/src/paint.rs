//! Computed paint: colours and colour stops.

use vstd::prelude::*;
use crate::scalar::narrow;
use crate::scalar::narrow_spec;
use crate::scalar::product;
use crate::scalar::product_spec;

verus! {

/// `peniko::BlendMode`: how a layer is mixed and composed with what lies
/// beneath it. The library holds such a value and hands it on; it claims
/// nothing of what is inside.
#[verifier::external_type_specification]
#[verifier::external_body]
pub struct ExBlendMode(peniko::BlendMode);

/// A colour with four 16.16 channels, each nominally between zero and one.
#[derive(Clone, Copy, Debug, PartialEq, Eq, Structural)]
pub struct Color {
    pub r: i32,
    pub g: i32,
    pub b: i32,
    pub a: i32,
}

/// A colour at a position along a gradient.
#[derive(Clone, Copy, Debug, PartialEq, Eq, Structural)]
pub struct ColorStop {
    pub offset: i32,
    pub color: Color,
}

impl Color {
    pub fn rgba(r: i32, g: i32, b: i32, a: i32) -> (c: Color)
        ensures
            c == (Color { r, g, b, a }),
    {
        Color { r, g, b, a }
    }

    /// The colour with its alpha channel multiplied by `alpha`.
    pub open spec fn with_alpha_factor_spec(self, alpha: int) -> Color {
        Color {
            r: self.r,
            g: self.g,
            b: self.b,
            a: narrow_spec(product_spec(self.a as int, alpha)) as i32,
        }
    }

    /// Multiplies the alpha channel by `alpha`.
    pub fn with_alpha_factor(self, alpha: i64) -> (c: Color)
        ensures
            c == self.with_alpha_factor_spec(alpha as int),
    {
        Color { r: self.r, g: self.g, b: self.b, a: narrow(product(self.a as i64, alpha)) }
    }
}

impl ColorStop {
    /// The stop with the alpha channel of its colour multiplied by `alpha`.
    pub open spec fn with_alpha_factor_spec(self, alpha: int) -> ColorStop {
        ColorStop { offset: self.offset, color: self.color.with_alpha_factor_spec(alpha) }
    }

    /// Multiplies the alpha channel of the colour by `alpha`.
    pub fn with_alpha_factor(self, alpha: i64) -> (c: ColorStop)
        ensures
            c == self.with_alpha_factor_spec(alpha as int),
    {
        ColorStop { offset: self.offset, color: self.color.with_alpha_factor(alpha) }
    }
}

} // verus!
