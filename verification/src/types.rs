//! LDraw base types.
//!
//! Following the LDraw.org File Format 1.0.2 and the Colour Definition
//! Language Extension.
//!
//! Coordinates and material fractions are real numbers. This library keeps
//! each of them as the decimal text it was read from (`Real`); every such
//! text is one that std reads as a 64-bit float.
use vstd::prelude::*;

verus! {

/// Color index that stands for the color of the enclosing subfile reference.
pub const MAIN_COLOR_INDEX: u16 = 16;

/// A real number, kept as the decimal text it was read from.
#[derive(Debug, PartialEq)]
pub struct Real {
    pub text: String,
}

impl DeepView for Real {
    type V = Seq<char>;

    open spec fn deep_view(&self) -> Seq<char> {
        self.text@
    }
}

/// Point (or vector) with three real coordinates.
#[derive(Debug, PartialEq)]
pub struct Point {
    pub x: Real,
    pub y: Real,
    pub z: Real,
}

/// The texts of the three coordinates of a point.
pub type SpecPoint = (Seq<char>, Seq<char>, Seq<char>);

impl DeepView for Point {
    type V = SpecPoint;

    open spec fn deep_view(&self) -> SpecPoint {
        (self.x.deep_view(), self.y.deep_view(), self.z.deep_view())
    }
}

/// Line.
#[derive(Debug, PartialEq)]
pub struct Line {
    pub a: Point,
    pub b: Point,
}

impl DeepView for Line {
    type V = (SpecPoint, SpecPoint);

    open spec fn deep_view(&self) -> (SpecPoint, SpecPoint) {
        (self.a.deep_view(), self.b.deep_view())
    }
}

/// Triangle.
#[derive(Debug, PartialEq)]
pub struct Triangle {
    pub a: Point,
    pub b: Point,
    pub c: Point,
}

impl DeepView for Triangle {
    type V = (SpecPoint, SpecPoint, SpecPoint);

    open spec fn deep_view(&self) -> (SpecPoint, SpecPoint, SpecPoint) {
        (self.a.deep_view(), self.b.deep_view(), self.c.deep_view())
    }
}

/// Quadrilateral.
#[derive(Debug, PartialEq)]
pub struct Quad {
    pub a: Point,
    pub b: Point,
    pub c: Point,
    pub d: Point,
}

impl DeepView for Quad {
    type V = (SpecPoint, SpecPoint, SpecPoint, SpecPoint);

    open spec fn deep_view(&self) -> (SpecPoint, SpecPoint, SpecPoint, SpecPoint) {
        (self.a.deep_view(), self.b.deep_view(), self.c.deep_view(), self.d.deep_view())
    }
}

/// Homogeneous affine transformation: the image of a point `p` is
/// `(row_x . p, row_y . p, row_z . p) + origin`.
#[derive(Debug, PartialEq)]
pub struct Matrix {
    pub origin: Point,
    pub row_x: Point,
    pub row_y: Point,
    pub row_z: Point,
}

impl DeepView for Matrix {
    type V = (SpecPoint, SpecPoint, SpecPoint, SpecPoint);

    open spec fn deep_view(&self) -> (SpecPoint, SpecPoint, SpecPoint, SpecPoint) {
        (
            self.origin.deep_view(),
            self.row_x.deep_view(),
            self.row_y.deep_view(),
            self.row_z.deep_view(),
        )
    }
}

/// Rotation sense.
#[derive(Clone, Copy, Debug, PartialEq, Eq, Structural)]
pub enum RotationSense {
    /// Clockwise.
    CW,
    /// Counter-clockwise.
    CCW,
}

/// RGB Color.
#[derive(Clone, Copy, Debug, PartialEq, Eq, Structural)]
pub struct RGB(pub u8, pub u8, pub u8);

/// Color reference.
#[derive(Clone, Copy, Debug, PartialEq, Eq, Structural)]
pub enum ColorRef {
    Indexed(u16),
    RGB(RGB),
}


impl DeepView for RotationSense {
    type V = RotationSense;

    open spec fn deep_view(&self) -> RotationSense {
        *self
    }
}

impl DeepView for RGB {
    type V = RGB;

    open spec fn deep_view(&self) -> RGB {
        *self
    }
}

impl DeepView for ColorRef {
    type V = ColorRef;

    open spec fn deep_view(&self) -> ColorRef {
        *self
    }
}

/// Glitter material.
#[derive(Debug, PartialEq)]
pub struct Glitter {
    pub value: RGB,
    pub alpha: Option<u8>,
    pub luminance: Option<u8>,
    pub fraction: Real,
    pub v_fraction: Real,
    /// Minimum and maximum size; the two may be equal.
    pub size: (u8, u8),
}

/// Glitter material, with its reals as texts.
pub struct SpecGlitter {
    pub value: RGB,
    pub alpha: Option<u8>,
    pub luminance: Option<u8>,
    pub fraction: Seq<char>,
    pub v_fraction: Seq<char>,
    pub size: (u8, u8),
}

impl DeepView for Glitter {
    type V = SpecGlitter;

    open spec fn deep_view(&self) -> SpecGlitter {
        SpecGlitter {
            value: self.value,
            alpha: self.alpha,
            luminance: self.luminance,
            fraction: self.fraction.deep_view(),
            v_fraction: self.v_fraction.deep_view(),
            size: self.size,
        }
    }
}

/// Speckle material.
#[derive(Debug, PartialEq)]
pub struct Speckle {
    pub value: RGB,
    pub alpha: Option<u8>,
    pub luminance: Option<u8>,
    pub fraction: Real,
    /// Minimum and maximum size; the two may be equal.
    pub size: (u8, u8),
}

/// Speckle material, with its real as text.
pub struct SpecSpeckle {
    pub value: RGB,
    pub alpha: Option<u8>,
    pub luminance: Option<u8>,
    pub fraction: Seq<char>,
    pub size: (u8, u8),
}

impl DeepView for Speckle {
    type V = SpecSpeckle;

    open spec fn deep_view(&self) -> SpecSpeckle {
        SpecSpeckle {
            value: self.value,
            alpha: self.alpha,
            luminance: self.luminance,
            fraction: self.fraction.deep_view(),
            size: self.size,
        }
    }
}

/// Color material.
#[derive(Debug, PartialEq)]
pub enum Material {
    Glitter(Glitter),
    Speckle(Speckle),
    Unknown(Vec<String>),
}

/// Color material, as values.
pub enum SpecMaterial {
    Glitter(SpecGlitter),
    Speckle(SpecSpeckle),
    Unknown(Seq<Seq<char>>),
}

impl DeepView for Material {
    type V = SpecMaterial;

    open spec fn deep_view(&self) -> SpecMaterial {
        match self {
            Material::Glitter(g) => SpecMaterial::Glitter(g.deep_view()),
            Material::Speckle(s) => SpecMaterial::Speckle(s.deep_view()),
            Material::Unknown(v) => SpecMaterial::Unknown(v.deep_view()),
        }
    }
}

/// Color finish.
#[derive(Debug, PartialEq)]
pub enum Finish {
    Chrome,
    Pearlescent,
    Rubber,
    MatteMetallic,
    Metal,
    Material(Material),
}

/// Color finish, as values.
pub enum SpecFinish {
    Chrome,
    Pearlescent,
    Rubber,
    MatteMetallic,
    Metal,
    Material(SpecMaterial),
}

impl DeepView for Finish {
    type V = SpecFinish;

    open spec fn deep_view(&self) -> SpecFinish {
        match self {
            Finish::Chrome => SpecFinish::Chrome,
            Finish::Pearlescent => SpecFinish::Pearlescent,
            Finish::Rubber => SpecFinish::Rubber,
            Finish::MatteMetallic => SpecFinish::MatteMetallic,
            Finish::Metal => SpecFinish::Metal,
            Finish::Material(m) => SpecFinish::Material(m.deep_view()),
        }
    }
}

/// Color.
#[derive(Debug, PartialEq)]
pub struct Color {
    pub name: String,
    /// Must be 0-511 for LDraw compatibility.
    pub code: u16,
    pub value: RGB,
    pub edge: ColorRef,
    pub alpha: Option<u8>,
    pub luminance: Option<u8>,
    pub finish: Option<Finish>,
}

/// Color, as values.
pub struct SpecColor {
    pub name: Seq<char>,
    pub code: u16,
    pub value: RGB,
    pub edge: ColorRef,
    pub alpha: Option<u8>,
    pub luminance: Option<u8>,
    pub finish: Option<SpecFinish>,
}

impl DeepView for Color {
    type V = SpecColor;

    open spec fn deep_view(&self) -> SpecColor {
        SpecColor {
            name: self.name@,
            code: self.code,
            value: self.value,
            edge: self.edge,
            alpha: self.alpha,
            luminance: self.luminance,
            finish: self.finish.deep_view(),
        }
    }
}

} // verus!
