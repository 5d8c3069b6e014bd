//! Colors of the button lights.
//!
//! Note that Boppo does not display black or other dark colors since when the LEDs are off the
//! buttons' natural coloring is grey.
use vstd::prelude::*;

verus! {

/// A color of a light: red, green and blue components from 0 to 255.
#[derive(Debug, Copy, Clone, PartialEq, Eq, Structural, PartialOrd, Ord, Hash, Default)]
pub struct RGB {
    /// Red component.
    pub r: u8,
    /// Green component.
    pub g: u8,
    /// Blue component.
    pub b: u8,
}

/// A color of a light with an alpha (opacity) component from 0 (transparent) to 255 (opaque).
#[derive(Debug, Copy, Clone, PartialEq, Eq, Structural, PartialOrd, Ord, Hash, Default)]
pub struct RGBA {
    /// Red component.
    pub r: u8,
    /// Green component.
    pub g: u8,
    /// Blue component.
    pub b: u8,
    /// Alpha component.
    pub a: u8,
}

impl RGB {
    /// The color with the given components.
    pub fn new(r: u8, g: u8, b: u8) -> (c: RGB)
        ensures
            c == (RGB { r, g, b }),
    {
        RGB { r, g, b }
    }

    /// This color with alpha `a`.
    pub fn with_alpha(self, a: u8) -> (c: RGBA)
        ensures
            c == (RGBA { r: self.r, g: self.g, b: self.b, a }),
    {
        RGBA { r: self.r, g: self.g, b: self.b, a }
    }
}

impl RGBA {
    /// The color with the given components.
    pub fn new(r: u8, g: u8, b: u8, a: u8) -> (c: RGBA)
        ensures
            c == (RGBA { r, g, b, a }),
    {
        RGBA { r, g, b, a }
    }

    /// This color without its alpha component.
    pub fn rgb(self) -> (c: RGB)
        ensures
            c == (RGB { r: self.r, g: self.g, b: self.b }),
    {
        RGB { r: self.r, g: self.g, b: self.b }
    }
}

/// The colors a [`Framebuffer`][crate::Framebuffer] can hold: each has an "off" value that a new
/// or cleared buffer is filled with.
pub trait Color: Copy {
    /// The color of a light that is off.
    spec fn spec_off() -> Self;

    /// The color of a light that is off.
    fn off() -> (c: Self)
        ensures
            c == Self::spec_off(),
    ;
}

impl Color for RGB {
    open spec fn spec_off() -> RGB {
        RGB { r: 0, g: 0, b: 0 }
    }

    fn off() -> (c: RGB) {
        RGB { r: 0, g: 0, b: 0 }
    }
}

impl Color for RGBA {
    /// Off and fully transparent.
    open spec fn spec_off() -> RGBA {
        RGBA { r: 0, g: 0, b: 0, a: 0 }
    }

    fn off() -> (c: RGBA) {
        RGBA { r: 0, g: 0, b: 0, a: 0 }
    }
}

impl vstd::std_specs::ops::AddSpecImpl for RGB {
    open spec fn obeys_add_spec() -> bool {
        true
    }

    /// The sum of each component must not exceed 255.
    open spec fn add_req(self, rhs: RGB) -> bool {
        self.r + rhs.r <= 255 && self.g + rhs.g <= 255 && self.b + rhs.b <= 255
    }

    open spec fn add_spec(self, rhs: RGB) -> RGB {
        RGB { r: (self.r + rhs.r) as u8, g: (self.g + rhs.g) as u8, b: (self.b + rhs.b) as u8 }
    }
}

impl core::ops::Add for RGB {
    type Output = RGB;

    /// The component-wise sum.
    fn add(self, rhs: RGB) -> (c: RGB) {
        RGB { r: self.r + rhs.r, g: self.g + rhs.g, b: self.b + rhs.b }
    }
}

impl vstd::std_specs::ops::SubSpecImpl for RGB {
    open spec fn obeys_sub_spec() -> bool {
        true
    }

    /// The difference of each component must not be negative.
    open spec fn sub_req(self, rhs: RGB) -> bool {
        self.r - rhs.r >= 0 && self.g - rhs.g >= 0 && self.b - rhs.b >= 0
    }

    open spec fn sub_spec(self, rhs: RGB) -> RGB {
        RGB { r: (self.r - rhs.r) as u8, g: (self.g - rhs.g) as u8, b: (self.b - rhs.b) as u8 }
    }
}

impl core::ops::Sub for RGB {
    type Output = RGB;

    /// The component-wise difference.
    fn sub(self, rhs: RGB) -> (c: RGB) {
        RGB { r: self.r - rhs.r, g: self.g - rhs.g, b: self.b - rhs.b }
    }
}

impl vstd::std_specs::ops::MulSpecImpl for RGB {
    open spec fn obeys_mul_spec() -> bool {
        true
    }

    /// The product of each component must not exceed 255.
    open spec fn mul_req(self, rhs: RGB) -> bool {
        self.r * rhs.r <= 255 && self.g * rhs.g <= 255 && self.b * rhs.b <= 255
    }

    open spec fn mul_spec(self, rhs: RGB) -> RGB {
        RGB { r: (self.r * rhs.r) as u8, g: (self.g * rhs.g) as u8, b: (self.b * rhs.b) as u8 }
    }
}

impl core::ops::Mul for RGB {
    type Output = RGB;

    /// The component-wise product.
    fn mul(self, rhs: RGB) -> (c: RGB) {
        RGB { r: self.r * rhs.r, g: self.g * rhs.g, b: self.b * rhs.b }
    }
}

impl vstd::std_specs::ops::AddSpecImpl for RGBA {
    open spec fn obeys_add_spec() -> bool {
        true
    }

    /// The sum of each component must not exceed 255.
    open spec fn add_req(self, rhs: RGBA) -> bool {
        self.r + rhs.r <= 255 && self.g + rhs.g <= 255 && self.b + rhs.b <= 255 && self.a + rhs.a <= 255
    }

    open spec fn add_spec(self, rhs: RGBA) -> RGBA {
        RGBA { r: (self.r + rhs.r) as u8, g: (self.g + rhs.g) as u8, b: (self.b + rhs.b) as u8, a: (self.a + rhs.a) as u8 }
    }
}

impl core::ops::Add for RGBA {
    type Output = RGBA;

    /// The component-wise sum.
    fn add(self, rhs: RGBA) -> (c: RGBA) {
        RGBA { r: self.r + rhs.r, g: self.g + rhs.g, b: self.b + rhs.b, a: self.a + rhs.a }
    }
}

impl vstd::std_specs::ops::SubSpecImpl for RGBA {
    open spec fn obeys_sub_spec() -> bool {
        true
    }

    /// The difference of each component must not be negative.
    open spec fn sub_req(self, rhs: RGBA) -> bool {
        self.r - rhs.r >= 0 && self.g - rhs.g >= 0 && self.b - rhs.b >= 0 && self.a - rhs.a >= 0
    }

    open spec fn sub_spec(self, rhs: RGBA) -> RGBA {
        RGBA { r: (self.r - rhs.r) as u8, g: (self.g - rhs.g) as u8, b: (self.b - rhs.b) as u8, a: (self.a - rhs.a) as u8 }
    }
}

impl core::ops::Sub for RGBA {
    type Output = RGBA;

    /// The component-wise difference.
    fn sub(self, rhs: RGBA) -> (c: RGBA) {
        RGBA { r: self.r - rhs.r, g: self.g - rhs.g, b: self.b - rhs.b, a: self.a - rhs.a }
    }
}

} // verus!
