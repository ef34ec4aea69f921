//! Typed property values: the engine-side, exactly-typed form of a property.
//!
//! Numeric components are fixed-point with six decimal digits (see
//! [`crate::Micros`]); colors and other byte-sized components are plain
//! integers. This keeps every value a plain, structurally comparable datum.

use vstd::prelude::*;

use crate::alist::{pairs_view, strings_view, DeepClone};

verus! {

/// A 3-component vector, in millionths.
#[derive(Clone, Copy, Debug, PartialEq, Eq, Structural)]
pub struct Vec3Val {
    pub x: i64,
    pub y: i64,
    pub z: i64,
}

/// A 2-component vector, in millionths.
#[derive(Clone, Copy, Debug, PartialEq, Eq, Structural)]
pub struct Vec2Val {
    pub x: i64,
    pub y: i64,
}

/// An 8-bit RGB color.
#[derive(Clone, Copy, Debug, PartialEq, Eq, Structural)]
pub struct Color3u8Val {
    pub r: u8,
    pub g: u8,
    pub b: u8,
}

/// A rigid transform: position (3) plus a row-major 3x3 orientation matrix
/// (9), in millionths; the component order matches the 12-element loose array
/// shape.
#[derive(Clone, Copy, Debug, PartialEq, Eq, Structural)]
pub struct CFrameComps {
    pub px: i64,
    pub py: i64,
    pub pz: i64,
    pub r00: i64,
    pub r01: i64,
    pub r02: i64,
    pub r10: i64,
    pub r11: i64,
    pub r12: i64,
    pub r20: i64,
    pub r21: i64,
    pub r22: i64,
}

/// One keypoint of a color sequence: a time and an RGB color, in millionths.
#[derive(Clone, Copy, Debug, PartialEq, Eq, Structural)]
pub struct ColorKeypoint {
    pub time: i64,
    pub r: i64,
    pub g: i64,
    pub b: i64,
}

/// One keypoint of a number sequence, in millionths.
#[derive(Clone, Copy, Debug, PartialEq, Eq, Structural)]
pub struct NumberKeypoint {
    pub time: i64,
    pub value: i64,
    pub envelope: i64,
}

/// Custom physical properties, in millionths, or the engine default.
#[derive(Clone, Copy, Debug, PartialEq, Eq, Structural)]
pub enum PhysProps {
    Default,
    Custom { density: i64, friction: i64, elasticity: i64, friction_weight: i64, elasticity_weight: i64 },
}

/// A ray: origin and direction, in millionths.
#[derive(Clone, Copy, Debug, PartialEq, Eq, Structural)]
pub struct RayVal {
    pub origin: Vec3Val,
    pub direction: Vec3Val,
}

impl View for Vec3Val {
    type V = Vec3Val;

    open spec fn view(&self) -> Vec3Val {
        *self
    }
}

impl View for Vec2Val {
    type V = Vec2Val;

    open spec fn view(&self) -> Vec2Val {
        *self
    }
}

impl View for Color3u8Val {
    type V = Color3u8Val;

    open spec fn view(&self) -> Color3u8Val {
        *self
    }
}

impl View for CFrameComps {
    type V = CFrameComps;

    open spec fn view(&self) -> CFrameComps {
        *self
    }
}

impl View for ColorKeypoint {
    type V = ColorKeypoint;

    open spec fn view(&self) -> ColorKeypoint {
        *self
    }
}

impl View for NumberKeypoint {
    type V = NumberKeypoint;

    open spec fn view(&self) -> NumberKeypoint {
        *self
    }
}

impl View for PhysProps {
    type V = PhysProps;

    open spec fn view(&self) -> PhysProps {
        *self
    }
}

impl View for RayVal {
    type V = RayVal;

    open spec fn view(&self) -> RayVal {
        *self
    }
}

/// A font description: family asset reference, weight and style codes.
#[derive(Debug, PartialEq)]
pub struct FontVal {
    pub family: String,
    pub weight: u16,
    pub style: u8,
}

pub ghost struct FontValV {
    pub family: Seq<char>,
    pub weight: u16,
    pub style: u8,
}

impl View for FontVal {
    type V = FontValV;

    open spec fn view(&self) -> FontValV {
        FontValV { family: self.family@, weight: self.weight, style: self.style }
    }
}

impl Clone for FontVal {
    fn clone(&self) -> (r: Self)
        ensures
            r@ == self@,
    {
        FontVal { family: self.family.clone(), weight: self.weight, style: self.style }
    }
}

/// A value an attribute can carry: a scalar.
#[derive(Debug, PartialEq)]
pub enum AttrValue {
    Bool(bool),
    Number(i64),
    Str(String),
}

pub ghost enum AttrValueV {
    Bool(bool),
    Number(i64),
    Str(Seq<char>),
}

impl View for AttrValue {
    type V = AttrValueV;

    open spec fn view(&self) -> AttrValueV {
        match self {
            AttrValue::Bool(b) => AttrValueV::Bool(*b),
            AttrValue::Number(n) => AttrValueV::Number(*n),
            AttrValue::Str(s) => AttrValueV::Str(s@),
        }
    }
}

impl Clone for AttrValue {
    fn clone(&self) -> (r: Self)
        ensures
            r@ == self@,
    {
        match self {
            AttrValue::Bool(b) => AttrValue::Bool(*b),
            AttrValue::Number(n) => AttrValue::Number(*n),
            AttrValue::Str(s) => AttrValue::Str(s.clone()),
        }
    }
}

/// An exactly-typed engine property value.
#[derive(Debug, PartialEq)]
pub enum TypedValue {
    Bool(bool),
    Str(String),
    BinaryStr(String),
    SharedStr(String),
    ContentRef(String),
    Float32(i64),
    Float64(i64),
    Int32(i32),
    Int64(i64),
    EnumItem(u32),
    Tags(Vec<String>),
    Axes(u8),
    Faces(u8),
    BrickColor(u16),
    Vector2(Vec2Val),
    Vector2int16(i16, i16),
    Vector3(Vec3Val),
    Vector3int16(i16, i16, i16),
    Color3(Vec3Val),
    Color3uint8(Color3u8Val),
    CFrame(CFrameComps),
    OptionalCFrame(CFrameComps),
    NumberRange(i64, i64),
    Rect(Vec2Val, Vec2Val),
    Region3(Vec3Val, Vec3Val),
    Region3int16(Vec3Val, Vec3Val),
    UDim(i64, i32),
    UDim2(i64, i32, i64, i32),
    Attributes(Vec<(String, AttrValue)>),
    Font(FontVal),
    MaterialColors(Vec<(String, Color3u8Val)>),
    ColorSequence(Vec<ColorKeypoint>),
    NumberSequence(Vec<NumberKeypoint>),
    PhysicalProperties(PhysProps),
    Ray(RayVal),
}

pub ghost enum TypedValueV {
    Bool(bool),
    Str(Seq<char>),
    BinaryStr(Seq<char>),
    SharedStr(Seq<char>),
    ContentRef(Seq<char>),
    Float32(i64),
    Float64(i64),
    Int32(i32),
    Int64(i64),
    EnumItem(u32),
    Tags(Seq<Seq<char>>),
    Axes(u8),
    Faces(u8),
    BrickColor(u16),
    Vector2(Vec2Val),
    Vector2int16(i16, i16),
    Vector3(Vec3Val),
    Vector3int16(i16, i16, i16),
    Color3(Vec3Val),
    Color3uint8(Color3u8Val),
    CFrame(CFrameComps),
    OptionalCFrame(CFrameComps),
    NumberRange(i64, i64),
    Rect(Vec2Val, Vec2Val),
    Region3(Vec3Val, Vec3Val),
    Region3int16(Vec3Val, Vec3Val),
    UDim(i64, i32),
    UDim2(i64, i32, i64, i32),
    Attributes(Seq<(Seq<char>, AttrValueV)>),
    Font(FontValV),
    MaterialColors(Seq<(Seq<char>, Color3u8Val)>),
    ColorSequence(Seq<ColorKeypoint>),
    NumberSequence(Seq<NumberKeypoint>),
    PhysicalProperties(PhysProps),
    Ray(RayVal),
}

impl View for TypedValue {
    type V = TypedValueV;

    open spec fn view(&self) -> TypedValueV {
        match self {
            TypedValue::Bool(b) => TypedValueV::Bool(*b),
            TypedValue::Str(s) => TypedValueV::Str(s@),
            TypedValue::BinaryStr(s) => TypedValueV::BinaryStr(s@),
            TypedValue::SharedStr(s) => TypedValueV::SharedStr(s@),
            TypedValue::ContentRef(s) => TypedValueV::ContentRef(s@),
            TypedValue::Float32(n) => TypedValueV::Float32(*n),
            TypedValue::Float64(n) => TypedValueV::Float64(*n),
            TypedValue::Int32(n) => TypedValueV::Int32(*n),
            TypedValue::Int64(n) => TypedValueV::Int64(*n),
            TypedValue::EnumItem(n) => TypedValueV::EnumItem(*n),
            TypedValue::Tags(v) => TypedValueV::Tags(strings_view(v@)),
            TypedValue::Axes(b) => TypedValueV::Axes(*b),
            TypedValue::Faces(b) => TypedValueV::Faces(*b),
            TypedValue::BrickColor(n) => TypedValueV::BrickColor(*n),
            TypedValue::Vector2(v) => TypedValueV::Vector2(*v),
            TypedValue::Vector2int16(x, y) => TypedValueV::Vector2int16(*x, *y),
            TypedValue::Vector3(v) => TypedValueV::Vector3(*v),
            TypedValue::Vector3int16(x, y, z) => TypedValueV::Vector3int16(*x, *y, *z),
            TypedValue::Color3(v) => TypedValueV::Color3(*v),
            TypedValue::Color3uint8(c) => TypedValueV::Color3uint8(*c),
            TypedValue::CFrame(c) => TypedValueV::CFrame(*c),
            TypedValue::OptionalCFrame(c) => TypedValueV::OptionalCFrame(*c),
            TypedValue::NumberRange(a, b) => TypedValueV::NumberRange(*a, *b),
            TypedValue::Rect(a, b) => TypedValueV::Rect(*a, *b),
            TypedValue::Region3(a, b) => TypedValueV::Region3(*a, *b),
            TypedValue::Region3int16(a, b) => TypedValueV::Region3int16(*a, *b),
            TypedValue::UDim(s, o) => TypedValueV::UDim(*s, *o),
            TypedValue::UDim2(sx, ox, sy, oy) => TypedValueV::UDim2(*sx, *ox, *sy, *oy),
            TypedValue::Attributes(v) => TypedValueV::Attributes(pairs_view(v@)),
            TypedValue::Font(f) => TypedValueV::Font(f@),
            TypedValue::MaterialColors(v) => TypedValueV::MaterialColors(pairs_view(v@)),
            TypedValue::ColorSequence(v) => TypedValueV::ColorSequence(v@),
            TypedValue::NumberSequence(v) => TypedValueV::NumberSequence(v@),
            TypedValue::PhysicalProperties(p) => TypedValueV::PhysicalProperties(*p),
            TypedValue::Ray(r) => TypedValueV::Ray(*r),
        }
    }
}

/// Clone a list of (name, value) pairs, preserving the view.
fn clone_attr_pairs(v: &Vec<(String, AttrValue)>) -> (r: Vec<(String, AttrValue)>)
    ensures
        pairs_view(r@) == pairs_view(v@),
{
    let mut r: Vec<(String, AttrValue)> = Vec::new();
    let mut i: usize = 0;
    while i < v.len()
        invariant
            i <= v.len(),
            r@.len() == i,
            forall|j: int| 0 <= j < i ==> (#[trigger] r@[j]).0@ == v@[j].0@ && r@[j].1@ == v@[j].1@,
        decreases v.len() - i,
    {
        let (name, val) = &v[i];
        r.push((name.clone(), val.clone()));
        i += 1;
    }
    proof {
        assert(pairs_view(r@) =~= pairs_view(v@));
    }
    r
}

fn clone_color_pairs(v: &Vec<(String, Color3u8Val)>) -> (r: Vec<(String, Color3u8Val)>)
    ensures
        pairs_view(r@) == pairs_view(v@),
{
    let mut r: Vec<(String, Color3u8Val)> = Vec::new();
    let mut i: usize = 0;
    while i < v.len()
        invariant
            i <= v.len(),
            r@.len() == i,
            forall|j: int| 0 <= j < i ==> (#[trigger] r@[j]).0@ == v@[j].0@ && r@[j].1@ == v@[j].1@,
        decreases v.len() - i,
    {
        let (name, val) = &v[i];
        r.push((name.clone(), *val));
        i += 1;
    }
    proof {
        assert(pairs_view(r@) =~= pairs_view(v@));
    }
    r
}

/// Clone a list of strings, preserving the view.
pub fn clone_strings(v: &Vec<String>) -> (r: Vec<String>)
    ensures
        strings_view(r@) == strings_view(v@),
{
    let mut r: Vec<String> = Vec::new();
    let mut i: usize = 0;
    while i < v.len()
        invariant
            i <= v.len(),
            r@.len() == i,
            forall|j: int| 0 <= j < i ==> (#[trigger] r@[j])@ == v@[j]@,
        decreases v.len() - i,
    {
        r.push(v[i].clone());
        i += 1;
    }
    proof {
        assert(strings_view(r@) =~= strings_view(v@));
    }
    r
}

impl Clone for TypedValue {
    fn clone(&self) -> (r: Self)
        ensures
            r@ == self@,
    {
        match self {
            TypedValue::Bool(b) => TypedValue::Bool(*b),
            TypedValue::Str(s) => TypedValue::Str(s.clone()),
            TypedValue::BinaryStr(s) => TypedValue::BinaryStr(s.clone()),
            TypedValue::SharedStr(s) => TypedValue::SharedStr(s.clone()),
            TypedValue::ContentRef(s) => TypedValue::ContentRef(s.clone()),
            TypedValue::Float32(n) => TypedValue::Float32(*n),
            TypedValue::Float64(n) => TypedValue::Float64(*n),
            TypedValue::Int32(n) => TypedValue::Int32(*n),
            TypedValue::Int64(n) => TypedValue::Int64(*n),
            TypedValue::EnumItem(n) => TypedValue::EnumItem(*n),
            TypedValue::Tags(v) => TypedValue::Tags(clone_strings(v)),
            TypedValue::Axes(b) => TypedValue::Axes(*b),
            TypedValue::Faces(b) => TypedValue::Faces(*b),
            TypedValue::BrickColor(n) => TypedValue::BrickColor(*n),
            TypedValue::Vector2(v) => TypedValue::Vector2(*v),
            TypedValue::Vector2int16(x, y) => TypedValue::Vector2int16(*x, *y),
            TypedValue::Vector3(v) => TypedValue::Vector3(*v),
            TypedValue::Vector3int16(x, y, z) => TypedValue::Vector3int16(*x, *y, *z),
            TypedValue::Color3(v) => TypedValue::Color3(*v),
            TypedValue::Color3uint8(c) => TypedValue::Color3uint8(*c),
            TypedValue::CFrame(c) => TypedValue::CFrame(*c),
            TypedValue::OptionalCFrame(c) => TypedValue::OptionalCFrame(*c),
            TypedValue::NumberRange(a, b) => TypedValue::NumberRange(*a, *b),
            TypedValue::Rect(a, b) => TypedValue::Rect(*a, *b),
            TypedValue::Region3(a, b) => TypedValue::Region3(*a, *b),
            TypedValue::Region3int16(a, b) => TypedValue::Region3int16(*a, *b),
            TypedValue::UDim(s, o) => TypedValue::UDim(*s, *o),
            TypedValue::UDim2(sx, ox, sy, oy) => TypedValue::UDim2(*sx, *ox, *sy, *oy),
            TypedValue::Attributes(v) => TypedValue::Attributes(clone_attr_pairs(v)),
            TypedValue::Font(f) => TypedValue::Font(f.clone()),
            TypedValue::MaterialColors(v) => TypedValue::MaterialColors(clone_color_pairs(v)),
            TypedValue::ColorSequence(v) => TypedValue::ColorSequence(v.clone()),
            TypedValue::NumberSequence(v) => TypedValue::NumberSequence(v.clone()),
            TypedValue::PhysicalProperties(p) => TypedValue::PhysicalProperties(*p),
            TypedValue::Ray(r) => TypedValue::Ray(*r),
        }
    }
}

impl DeepClone for TypedValue {
    fn deep_clone(&self) -> (r: Self)
        ensures
            r@ == self@,
    {
        self.clone()
    }
}

} // verus!
