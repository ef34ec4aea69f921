//! The property codec: converting between loosely-typed, human-editable
//! values and the engine's exactly-typed values, guided by the reflection
//! database.

use vstd::prelude::*;

use crate::alist::{strings_view, AList};
use crate::ambiguous::{
    AmbiguousValue, AmbiguousValueV, ObjectValue, ObjectValueV, UnresolvedValue, UnresolvedValueV,
};
use crate::reflect::{PropTypeV, ReflectionDb, ReflectionDbV, ValueKind};
use crate::text::{list_examples, spec_list_examples};
use crate::value::{
    AttrValue, AttrValueV, CFrameComps, Color3u8Val, TypedValue, TypedValueV, Vec2Val, Vec3Val,
};
use crate::MAX_NUM_MICROS;

verus! {

/// Why a loose value could not be resolved.
#[derive(Debug, PartialEq)]
pub enum ResolveError {
    /// The property is not declared for the class or any superclass.
    UnknownProperty { class: String, property: String },
    /// The property's enumerated type is not in the database.
    UnknownEnum { name: String },
    /// The value is not a member of the property's enumerated type; the
    /// diagnostic lists up to five legal member names plus a count of the
    /// remaining options.
    InvalidEnumMember { class: String, property: String, got: String, examples: String },
    /// An axis name other than the three legal ones.
    InvalidAxis { axis: String },
    /// A face name other than the six legal ones.
    InvalidFace { face: String },
    /// A color number outside the named-color catalog.
    InvalidColorNumber { number: i64 },
    /// A color name outside the named-color catalog.
    InvalidColorName { name: String },
    /// The loose shape does not fit the property's declared type.
    WrongShape { class: String, property: String, expected: ValueKind, got: String },
    /// The declared data type has no loose mapping at all.
    UnknownDataType { class: String, property: String },
    /// The shape cannot be resolved without a declared type.
    NotUnambiguous { got: String },
    /// An attribute carries a value no attribute can hold.
    UnsupportedAttribute { key: String },
}

pub ghost enum ResolveErrorV {
    UnknownProperty { class: Seq<char>, property: Seq<char> },
    UnknownEnum { name: Seq<char> },
    InvalidEnumMember { class: Seq<char>, property: Seq<char>, got: Seq<char>, examples: Seq<char> },
    InvalidAxis { axis: Seq<char> },
    InvalidFace { face: Seq<char> },
    InvalidColorNumber { number: i64 },
    InvalidColorName { name: Seq<char> },
    WrongShape { class: Seq<char>, property: Seq<char>, expected: ValueKind, got: Seq<char> },
    UnknownDataType { class: Seq<char>, property: Seq<char> },
    NotUnambiguous { got: Seq<char> },
    UnsupportedAttribute { key: Seq<char> },
}

impl View for ResolveError {
    type V = ResolveErrorV;

    open spec fn view(&self) -> ResolveErrorV {
        match self {
            ResolveError::UnknownProperty { class, property } => ResolveErrorV::UnknownProperty {
                class: class@,
                property: property@,
            },
            ResolveError::UnknownEnum { name } => ResolveErrorV::UnknownEnum { name: name@ },
            ResolveError::InvalidEnumMember { class, property, got, examples } =>
                ResolveErrorV::InvalidEnumMember {
                class: class@,
                property: property@,
                got: got@,
                examples: examples@,
            },
            ResolveError::InvalidAxis { axis } => ResolveErrorV::InvalidAxis { axis: axis@ },
            ResolveError::InvalidFace { face } => ResolveErrorV::InvalidFace { face: face@ },
            ResolveError::InvalidColorNumber { number } => ResolveErrorV::InvalidColorNumber {
                number: *number,
            },
            ResolveError::InvalidColorName { name } => ResolveErrorV::InvalidColorName {
                name: name@,
            },
            ResolveError::WrongShape { class, property, expected, got } =>
                ResolveErrorV::WrongShape {
                class: class@,
                property: property@,
                expected: *expected,
                got: got@,
            },
            ResolveError::UnknownDataType { class, property } => ResolveErrorV::UnknownDataType {
                class: class@,
                property: property@,
            },
            ResolveError::NotUnambiguous { got } => ResolveErrorV::NotUnambiguous { got: got@ },
            ResolveError::UnsupportedAttribute { key } => ResolveErrorV::UnsupportedAttribute {
                key: key@,
            },
        }
    }
}

/// The rendered diagnostic for each failure, built from its fields.
pub open spec fn spec_error_message(e: ResolveErrorV) -> Seq<char> {
    match e {
        ResolveErrorV::UnknownProperty { class, property } => "Unknown property "@ + class
            + "."@ + property,
        ResolveErrorV::UnknownEnum { name } => "Unknown enum "@ + name,
        ResolveErrorV::InvalidEnumMember { class, property, got, examples } =>
            "Invalid value for property "@ + class + "."@ + property + ". Got "@ + got
            + " but expected a member such as "@ + examples,
        ResolveErrorV::InvalidAxis { axis } => "invalid axis '"@ + axis + "'"@,
        ResolveErrorV::InvalidFace { face } => "invalid face '"@ + face + "'"@,
        ResolveErrorV::InvalidColorNumber { .. } => "not a valid color number"@,
        ResolveErrorV::InvalidColorName { name } => name + " is not a valid color name"@,
        ResolveErrorV::WrongShape { class, property, got, .. } =>
            "Wrong type of value for property "@ + class + "."@ + property + ". Got "@ + got,
        ResolveErrorV::UnknownDataType { class, property } =>
            "Unknown data type for property "@ + class + "."@ + property,
        ResolveErrorV::NotUnambiguous { got } => "Cannot unambiguously resolve "@ + got,
        ResolveErrorV::UnsupportedAttribute { key } =>
            "Unsupported attribute value under key "@ + key,
    }
}

impl ResolveError {
    /// A human-readable account of the failure.
    pub fn message(&self) -> (r: String)
        ensures
            r@ == spec_error_message(self@),
    {
        let mut out = String::new();
        match self {
            ResolveError::UnknownProperty { class, property } => {
                out.append("Unknown property ");
                out.append(class.as_str());
                out.append(".");
                out.append(property.as_str());
            }
            ResolveError::UnknownEnum { name } => {
                out.append("Unknown enum ");
                out.append(name.as_str());
            }
            ResolveError::InvalidEnumMember { class, property, got, examples } => {
                out.append("Invalid value for property ");
                out.append(class.as_str());
                out.append(".");
                out.append(property.as_str());
                out.append(". Got ");
                out.append(got.as_str());
                out.append(" but expected a member such as ");
                out.append(examples.as_str());
            }
            ResolveError::InvalidAxis { axis } => {
                out.append("invalid axis '");
                out.append(axis.as_str());
                out.append("'");
            }
            ResolveError::InvalidFace { face } => {
                out.append("invalid face '");
                out.append(face.as_str());
                out.append("'");
            }
            ResolveError::InvalidColorNumber { number: _ } => {
                out.append("not a valid color number");
            }
            ResolveError::InvalidColorName { name } => {
                out.append(name.as_str());
                out.append(" is not a valid color name");
            }
            ResolveError::WrongShape { class, property, expected: _, got } => {
                out.append("Wrong type of value for property ");
                out.append(class.as_str());
                out.append(".");
                out.append(property.as_str());
                out.append(". Got ");
                out.append(got.as_str());
            }
            ResolveError::UnknownDataType { class, property } => {
                out.append("Unknown data type for property ");
                out.append(class.as_str());
                out.append(".");
                out.append(property.as_str());
            }
            ResolveError::NotUnambiguous { got } => {
                out.append("Cannot unambiguously resolve ");
                out.append(got.as_str());
            }
            ResolveError::UnsupportedAttribute { key } => {
                out.append("Unsupported attribute value under key ");
                out.append(key.as_str());
            }
        }
        proof {
            assert(out@ =~= spec_error_message(self@));
        }
        out
    }
}

/// The loose shape of a value, in words.
pub open spec fn spec_describe(v: AmbiguousValueV) -> Seq<char> {
    match v {
        AmbiguousValueV::Bool(..) => "a bool"@,
        AmbiguousValueV::Str(..) => "a string"@,
        AmbiguousValueV::StringArray(..) => "an array of strings"@,
        AmbiguousValueV::Number(..) => "a number"@,
        AmbiguousValueV::Object(..) => "a generic object"@,
        AmbiguousValueV::Array2(..) => "an array of two numbers"@,
        AmbiguousValueV::Array3(..) => "an array of three numbers"@,
        AmbiguousValueV::Array4(..) => "an array of four numbers"@,
        AmbiguousValueV::Array12(..) => "an array of twelve numbers"@,
        AmbiguousValueV::Array2Array2(..) => "an array of two arrays of two numbers"@,
        AmbiguousValueV::Array3Array2(..) => "an array of two arrays of three numbers"@,
        AmbiguousValueV::Attributes(..) => "an object containing attributes"@,
        AmbiguousValueV::Font(..) => "an object describing a font"@,
        AmbiguousValueV::MaterialColors(..) => "an object describing material colors"@,
        AmbiguousValueV::ColorSequence(..) => "an object describing a color sequence"@,
        AmbiguousValueV::NumberSequence(..) => "an object describing a number sequence"@,
        AmbiguousValueV::PhysicalProperties(..) => "an object describing physical properties"@,
        AmbiguousValueV::Ray(..) => "an object describing a ray"@,
    }
}

impl AmbiguousValue {
    /// The loose shape of the value, in words.
    pub fn describe(&self) -> (r: &'static str)
        ensures
            r@ == spec_describe(self@),
    {
        match self {
            AmbiguousValue::Bool(..) => "a bool",
            AmbiguousValue::Str(..) => "a string",
            AmbiguousValue::StringArray(..) => "an array of strings",
            AmbiguousValue::Number(..) => "a number",
            AmbiguousValue::Object(..) => "a generic object",
            AmbiguousValue::Array2(..) => "an array of two numbers",
            AmbiguousValue::Array3(..) => "an array of three numbers",
            AmbiguousValue::Array4(..) => "an array of four numbers",
            AmbiguousValue::Array12(..) => "an array of twelve numbers",
            AmbiguousValue::Array2Array2(..) => "an array of two arrays of two numbers",
            AmbiguousValue::Array3Array2(..) => "an array of two arrays of three numbers",
            AmbiguousValue::Attributes(..) => "an object containing attributes",
            AmbiguousValue::Font(..) => "an object describing a font",
            AmbiguousValue::MaterialColors(..) => "an object describing material colors",
            AmbiguousValue::ColorSequence(..) => "an object describing a color sequence",
            AmbiguousValue::NumberSequence(..) => "an object describing a number sequence",
            AmbiguousValue::PhysicalProperties(..) => "an object describing physical properties",
            AmbiguousValue::Ray(..) => "an object describing a ray",
        }
    }
}

/// The whole part of a fixed-point number, truncated toward zero and
/// clamped to the codec's domain, as out-of-range values are on
/// serialization.
pub open spec fn spec_micros_whole(m: int) -> int {
    let w = if m >= 0 {
        m / 1_000_000
    } else {
        -((-m) / 1_000_000)
    };
    if w > 999_999_999 {
        999_999_999int
    } else if w < -999_999_999 {
        -999_999_999int
    } else {
        w
    }
}

/// Whether a fixed-point number carries a whole value.
pub open spec fn spec_micros_is_whole(m: int) -> bool {
    m % 1_000_000 == 0
}

/// The whole part of a fixed-point number.
pub fn micros_whole(m: i64) -> (r: i64)
    ensures
        r == spec_micros_whole(m as int),
        -999_999_999 <= r <= 999_999_999,
{
    if m >= 0 {
        let w = (m as u64) / 1_000_000;
        if w > 999_999_999 {
            999_999_999
        } else {
            w as i64
        }
    } else if m == i64::MIN {
        proof {
            assert((-(m as int)) / 1_000_000 > 999_999_999);
        }
        -999_999_999
    } else {
        let mag = ((-m) as u64) / 1_000_000;
        if mag > 999_999_999 {
            -999_999_999
        } else {
            -(mag as i64)
        }
    }
}

/// Saturate a whole value into a signed 16-bit component.
pub open spec fn spec_sat_i16(w: int) -> i16 {
    if w < -32768 {
        (-32768) as i16
    } else if w > 32767 {
        32767 as i16
    } else {
        w as i16
    }
}

pub fn sat_i16(w: i64) -> (r: i16)
    ensures
        r == spec_sat_i16(w as int),
{
    if w < -32768 {
        -32768
    } else if w > 32767 {
        32767
    } else {
        w as i16
    }
}

/// Saturate a whole value into an unsigned byte.
pub open spec fn spec_sat_u8(w: int) -> u8 {
    if w < 0 {
        0
    } else if w > 255 {
        255
    } else {
        w as u8
    }
}

pub fn sat_u8(w: i64) -> (r: u8)
    ensures
        r == spec_sat_u8(w as int),
{
    if w < 0 {
        0
    } else if w > 255 {
        255
    } else {
        w as u8
    }
}

/// Saturate a whole value into an unsigned 16-bit number.
pub open spec fn spec_sat_u16(w: int) -> u16 {
    if w < 0 {
        0
    } else if w > 65535 {
        65535
    } else {
        w as u16
    }
}

pub fn sat_u16(w: i64) -> (r: u16)
    ensures
        r == spec_sat_u16(w as int),
{
    if w < 0 {
        0
    } else if w > 65535 {
        65535
    } else {
        w as u16
    }
}

/// Saturate a whole value into a signed 32-bit number; the fixed-point
/// domain already fits, so this is exact.
pub fn whole_to_i32(w: i64) -> (r: i32)
    requires
        -999_999_999 <= w <= 999_999_999,
    ensures
        r == w as i32,
{
    w as i32
}

/// A whole number as a fixed-point value, clamped to the codec's domain as
/// infinities are on serialization.
pub open spec fn spec_micros_of_whole(n: int) -> i64 {
    if n > 999_999_999 {
        MAX_NUM_MICROS
    } else if n < -999_999_999 {
        (-MAX_NUM_MICROS) as i64
    } else {
        (n * 1_000_000) as i64
    }
}

pub fn micros_of_i64(n: i64) -> (r: i64)
    ensures
        r == spec_micros_of_whole(n as int),
        crate::micros_wf(r),
{
    if n > 999_999_999 {
        MAX_NUM_MICROS
    } else if n < -999_999_999 {
        -MAX_NUM_MICROS
    } else {
        n * 1_000_000
    }
}

pub fn micros_of_i32(n: i32) -> (r: i64)
    ensures
        r == spec_micros_of_whole(n as int),
        crate::micros_wf(r),
{
    micros_of_i64(n as i64)
}

/// The numeric value under a member name, first match.
pub open spec fn spec_enum_value(items: Seq<(Seq<char>, u32)>, name: Seq<char>) -> Option<u32>
    decreases items.len(),
{
    if items.len() == 0 {
        None
    } else if items[0].0 == name {
        Some(items[0].1)
    } else {
        spec_enum_value(items.drop_first(), name)
    }
}

/// The first member name under a numeric value.
pub open spec fn spec_enum_name(items: Seq<(Seq<char>, u32)>, id: u32) -> Option<Seq<char>>
    decreases items.len(),
{
    if items.len() == 0 {
        None
    } else if items[0].1 == id {
        Some(items[0].0)
    } else {
        spec_enum_name(items.drop_first(), id)
    }
}

/// The examples list for an enum diagnostic: its member names in stored
/// order, or nothing when the enum has none. A well-formed database stores
/// each enum's members in lexicographic name order
/// (`crate::reflect::lemma_enum_names_sorted`), so the listed names are
/// sorted.
pub open spec fn spec_enum_examples(items: Seq<(Seq<char>, u32)>) -> Seq<char> {
    if items.len() == 0 {
        Seq::empty()
    } else {
        spec_list_examples(items.map_values(|p: (Seq<char>, u32)| p.0))
    }
}

/// An attribute value from one loose object member.
pub open spec fn spec_attr_of_object(key: Seq<char>, v: ObjectValueV) -> Result<
    AttrValueV,
    ResolveErrorV,
> {
    match v {
        ObjectValueV::Bool(b) => Ok(AttrValueV::Bool(b)),
        ObjectValueV::Number(n) => Ok(AttrValueV::Number(n)),
        ObjectValueV::Str(s) => Ok(AttrValueV::Str(s)),
        ObjectValueV::FullyQualified(tv) => match tv {
            TypedValueV::Bool(b) => Ok(AttrValueV::Bool(b)),
            TypedValueV::Float32(m) => Ok(AttrValueV::Number(m)),
            TypedValueV::Float64(m) => Ok(AttrValueV::Number(m)),
            TypedValueV::Int32(n) => Ok(AttrValueV::Number(spec_micros_of_whole(n as int))),
            TypedValueV::Int64(n) => Ok(AttrValueV::Number(spec_micros_of_whole(n as int))),
            TypedValueV::Str(s) => Ok(AttrValueV::Str(s)),
            _ => Err(ResolveErrorV::UnsupportedAttribute { key }),
        },
    }
}

/// The attribute pairs of a loose object; the first failing member wins.
pub open spec fn spec_attrs_of_object(pairs: Seq<(Seq<char>, ObjectValueV)>) -> Result<
    Seq<(Seq<char>, AttrValueV)>,
    ResolveErrorV,
>
    decreases pairs.len(),
{
    if pairs.len() == 0 {
        Ok(Seq::empty())
    } else {
        match spec_attr_of_object(pairs[0].0, pairs[0].1) {
            Err(e) => Err(e),
            Ok(a) => match spec_attrs_of_object(pairs.drop_first()) {
                Err(e) => Err(e),
                Ok(rest) => Ok(seq![(pairs[0].0, a)] + rest),
            },
        }
    }
}

/// The axis bit for one axis name.
pub open spec fn spec_axis_bit(s: Seq<char>) -> Option<u8> {
    if s == "X"@ {
        Some(1u8)
    } else if s == "Y"@ {
        Some(2u8)
    } else if s == "Z"@ {
        Some(4u8)
    } else {
        None
    }
}

/// The axis bits of a name list; an unknown name is a hard error.
pub open spec fn spec_axes_bits(names: Seq<Seq<char>>) -> Result<u8, ResolveErrorV>
    decreases names.len(),
{
    if names.len() == 0 {
        Ok(0u8)
    } else {
        match spec_axes_bits(names.drop_last()) {
            Err(e) => Err(e),
            Ok(bits) => match spec_axis_bit(names.last()) {
                Some(b) => Ok((bits | b) as u8),
                None => Err(ResolveErrorV::InvalidAxis { axis: names.last() }),
            },
        }
    }
}

/// The face bit for one face name.
pub open spec fn spec_face_bit(s: Seq<char>) -> Option<u8> {
    if s == "Right"@ {
        Some(1u8)
    } else if s == "Top"@ {
        Some(2u8)
    } else if s == "Back"@ {
        Some(4u8)
    } else if s == "Left"@ {
        Some(8u8)
    } else if s == "Bottom"@ {
        Some(16u8)
    } else if s == "Front"@ {
        Some(32u8)
    } else {
        None
    }
}

/// The face bits of a name list; an unknown name is a hard error.
pub open spec fn spec_faces_bits(names: Seq<Seq<char>>) -> Result<u8, ResolveErrorV>
    decreases names.len(),
{
    if names.len() == 0 {
        Ok(0u8)
    } else {
        match spec_faces_bits(names.drop_last()) {
            Err(e) => Err(e),
            Ok(bits) => match spec_face_bit(names.last()) {
                Some(b) => Ok((bits | b) as u8),
                None => Err(ResolveErrorV::InvalidFace { face: names.last() }),
            },
        }
    }
}

/// Resolution of an ambiguous value against a declared value type.
pub open spec fn spec_resolve_value(
    db: ReflectionDbV,
    class: Seq<char>,
    property: Seq<char>,
    kind: ValueKind,
    v: AmbiguousValueV,
) -> Result<TypedValueV, ResolveErrorV> {
    let wrong = Err::<TypedValueV, ResolveErrorV>(ResolveErrorV::WrongShape {
        class,
        property,
        expected: kind,
        got: spec_describe(v),
    });
    match (kind, v) {
        (ValueKind::Attributes, AmbiguousValueV::Attributes(pairs)) => Ok(
            TypedValueV::Attributes(pairs),
        ),
        (ValueKind::Attributes, AmbiguousValueV::Object(pairs)) => match spec_attrs_of_object(
            pairs,
        ) {
            Ok(a) => Ok(TypedValueV::Attributes(a)),
            Err(e) => Err(e),
        },
        (ValueKind::Axes, AmbiguousValueV::StringArray(names)) => match spec_axes_bits(names) {
            Ok(bits) => Ok(TypedValueV::Axes(bits)),
            Err(e) => Err(e),
        },
        (ValueKind::BinaryString, AmbiguousValueV::Str(s)) => Ok(TypedValueV::BinaryStr(s)),
        (ValueKind::Bool, AmbiguousValueV::Bool(b)) => Ok(TypedValueV::Bool(b)),
        (ValueKind::BrickColor, AmbiguousValueV::Number(m)) => {
            let w = spec_micros_whole(m as int);
            let n = spec_sat_u16(w);
            if crate::reflect::spec_brick_color_number_valid(db.brick_colors, n) {
                Ok(TypedValueV::BrickColor(n))
            } else {
                Err(ResolveErrorV::InvalidColorNumber { number: w as i64 })
            }
        },
        (ValueKind::BrickColor, AmbiguousValueV::Str(s)) => match crate::reflect::spec_brick_color_by_name(
            db.brick_colors,
            s,
        ) {
            Some(n) => Ok(TypedValueV::BrickColor(n)),
            None => Err(ResolveErrorV::InvalidColorName { name: s }),
        },
        (ValueKind::CFrame, AmbiguousValueV::Array12(c)) => Ok(TypedValueV::CFrame(c)),
        (ValueKind::Color3, AmbiguousValueV::Array3(a, b, c)) => Ok(
            TypedValueV::Color3(Vec3Val { x: a, y: b, z: c }),
        ),
        (ValueKind::Color3uint8, AmbiguousValueV::Array3(a, b, c)) => Ok(
            TypedValueV::Color3uint8(
                Color3u8Val {
                    r: spec_sat_u8(spec_micros_whole(a as int)),
                    g: spec_sat_u8(spec_micros_whole(b as int)),
                    b: spec_sat_u8(spec_micros_whole(c as int)),
                },
            ),
        ),
        (ValueKind::ColorSequence, AmbiguousValueV::ColorSequence(ks)) => Ok(
            TypedValueV::ColorSequence(ks),
        ),
        (ValueKind::Content, AmbiguousValueV::Str(s)) => Ok(TypedValueV::ContentRef(s)),
        (ValueKind::Faces, AmbiguousValueV::StringArray(names)) => match spec_faces_bits(names) {
            Ok(bits) => Ok(TypedValueV::Faces(bits)),
            Err(e) => Err(e),
        },
        (ValueKind::Float32, AmbiguousValueV::Number(m)) => Ok(TypedValueV::Float32(m)),
        (ValueKind::Float64, AmbiguousValueV::Number(m)) => Ok(TypedValueV::Float64(m)),
        (ValueKind::Font, AmbiguousValueV::Font(f)) => Ok(TypedValueV::Font(f)),
        (ValueKind::Int32, AmbiguousValueV::Number(m)) => Ok(
            TypedValueV::Int32(spec_micros_whole(m as int) as i32),
        ),
        (ValueKind::Int64, AmbiguousValueV::Number(m)) => Ok(
            TypedValueV::Int64(spec_micros_whole(m as int) as i64),
        ),
        (ValueKind::MaterialColors, AmbiguousValueV::MaterialColors(mc)) => Ok(
            TypedValueV::MaterialColors(mc),
        ),
        (ValueKind::NumberRange, AmbiguousValueV::Array2(a, b)) => Ok(
            TypedValueV::NumberRange(a, b),
        ),
        (ValueKind::NumberSequence, AmbiguousValueV::NumberSequence(ks)) => Ok(
            TypedValueV::NumberSequence(ks),
        ),
        (ValueKind::OptionalCFrame, AmbiguousValueV::Array12(c)) => Ok(
            TypedValueV::OptionalCFrame(c),
        ),
        (ValueKind::PhysicalProperties, AmbiguousValueV::PhysicalProperties(p)) => Ok(
            TypedValueV::PhysicalProperties(p),
        ),
        (ValueKind::Ray, AmbiguousValueV::Ray(r)) => Ok(TypedValueV::Ray(r)),
        (ValueKind::Rect, AmbiguousValueV::Array2Array2(a, b)) => Ok(TypedValueV::Rect(a, b)),
        (ValueKind::Region3, AmbiguousValueV::Array3Array2(a, b)) => Ok(
            TypedValueV::Region3(a, b),
        ),
        (ValueKind::Region3int16, AmbiguousValueV::Array3Array2(a, b)) => Ok(
            TypedValueV::Region3int16(
                Vec3Val {
                    x: spec_sat_i16(spec_micros_whole(a.x as int)) as i64,
                    y: spec_sat_i16(spec_micros_whole(a.y as int)) as i64,
                    z: spec_sat_i16(spec_micros_whole(a.z as int)) as i64,
                },
                Vec3Val {
                    x: spec_sat_i16(spec_micros_whole(b.x as int)) as i64,
                    y: spec_sat_i16(spec_micros_whole(b.y as int)) as i64,
                    z: spec_sat_i16(spec_micros_whole(b.z as int)) as i64,
                },
            ),
        ),
        (ValueKind::SharedString, AmbiguousValueV::Str(s)) => Ok(TypedValueV::SharedStr(s)),
        (ValueKind::Str, AmbiguousValueV::Str(s)) => Ok(TypedValueV::Str(s)),
        (ValueKind::Tags, AmbiguousValueV::StringArray(tags)) => Ok(TypedValueV::Tags(tags)),
        (ValueKind::UDim, AmbiguousValueV::Array2(a, b)) => Ok(
            TypedValueV::UDim(a, spec_micros_whole(b as int) as i32),
        ),
        (ValueKind::UDim2, AmbiguousValueV::Array2Array2(a, b)) => Ok(
            TypedValueV::UDim2(
                a.x,
                spec_micros_whole(a.y as int) as i32,
                b.x,
                spec_micros_whole(b.y as int) as i32,
            ),
        ),
        (ValueKind::Vector2, AmbiguousValueV::Array2(a, b)) => Ok(
            TypedValueV::Vector2(Vec2Val { x: a, y: b }),
        ),
        (ValueKind::Vector2int16, AmbiguousValueV::Array2(a, b)) => Ok(
            TypedValueV::Vector2int16(
                spec_sat_i16(spec_micros_whole(a as int)),
                spec_sat_i16(spec_micros_whole(b as int)),
            ),
        ),
        (ValueKind::Vector3, AmbiguousValueV::Array3(a, b, c)) => Ok(
            TypedValueV::Vector3(Vec3Val { x: a, y: b, z: c }),
        ),
        (ValueKind::Vector3int16, AmbiguousValueV::Array3(a, b, c)) => Ok(
            TypedValueV::Vector3int16(
                spec_sat_i16(spec_micros_whole(a as int)),
                spec_sat_i16(spec_micros_whole(b as int)),
                spec_sat_i16(spec_micros_whole(c as int)),
            ),
        ),
        _ => wrong,
    }
}

/// Resolution of an ambiguous value for a class property: the declared type
/// is looked up along the superclass chain and the shape matched against it.
pub open spec fn spec_resolve(
    db: ReflectionDbV,
    class: Seq<char>,
    property: Seq<char>,
    v: AmbiguousValueV,
) -> Result<TypedValueV, ResolveErrorV> {
    match crate::reflect::spec_find_descriptor(db, class, property, db.classes.dom().len()) {
        None => Err(ResolveErrorV::UnknownProperty { class, property }),
        Some(PropTypeV::Enum(ename)) => if !db.enums.contains_key(ename) {
            Err(ResolveErrorV::UnknownEnum { name: ename })
        } else {
            let items = db.enums[ename].items;
            match v {
                AmbiguousValueV::Str(s) => match spec_enum_value(items, s) {
                    Some(id) => Ok(TypedValueV::EnumItem(id)),
                    None => Err(ResolveErrorV::InvalidEnumMember {
                        class,
                        property,
                        got: s,
                        examples: spec_enum_examples(items),
                    }),
                },
                _ => Err(ResolveErrorV::InvalidEnumMember {
                    class,
                    property,
                    got: spec_describe(v),
                    examples: spec_enum_examples(items),
                }),
            }
        },
        Some(PropTypeV::Value(kind)) => spec_resolve_value(db, class, property, kind, v),
    }
}

/// Resolution of a shape that needs no declared type: scalars only.
pub open spec fn spec_resolve_unambiguous(v: AmbiguousValueV) -> Result<
    TypedValueV,
    ResolveErrorV,
> {
    match v {
        AmbiguousValueV::Bool(b) => Ok(TypedValueV::Bool(b)),
        AmbiguousValueV::Number(m) => Ok(TypedValueV::Float64(m)),
        AmbiguousValueV::Str(s) => Ok(TypedValueV::Str(s)),
        _ => Err(ResolveErrorV::NotUnambiguous { got: spec_describe(v) }),
    }
}


/// First-match lookup of a member name's numeric value.
fn enum_value(items: &Vec<(String, u32)>, name: &String) -> (r: Option<u32>)
    ensures
        r == spec_enum_value(crate::alist::pairs_view(items@), name@),
{
    let ghost pairs = crate::alist::pairs_view(items@);
    let mut i: usize = 0;
    proof {
        assert(pairs.skip(0) =~= pairs);
    }
    while i < items.len()
        invariant
            pairs == crate::alist::pairs_view(items@),
            i <= items@.len(),
            spec_enum_value(pairs, name@) == spec_enum_value(pairs.skip(i as int), name@),
        decreases items@.len() - i,
    {
        proof {
            assert(pairs.skip(i as int)[0] == pairs[i as int]);
            assert(pairs.skip(i as int).drop_first() =~= pairs.skip(i as int + 1));
        }
        if items[i].0 == *name {
            return Some(items[i].1);
        }
        i += 1;
    }
    proof {
        assert(pairs.skip(pairs.len() as int).len() == 0);
    }
    None
}

/// First-match lookup of a numeric value's member name.
fn enum_name(items: &Vec<(String, u32)>, id: u32) -> (r: Option<String>)
    ensures
        crate::project::opt_string_view(r) == spec_enum_name(
            crate::alist::pairs_view(items@),
            id,
        ),
{
    let ghost pairs = crate::alist::pairs_view(items@);
    let mut i: usize = 0;
    proof {
        assert(pairs.skip(0) =~= pairs);
    }
    while i < items.len()
        invariant
            pairs == crate::alist::pairs_view(items@),
            i <= items@.len(),
            spec_enum_name(pairs, id) == spec_enum_name(pairs.skip(i as int), id),
        decreases items@.len() - i,
    {
        proof {
            assert(pairs.skip(i as int)[0] == pairs[i as int]);
            assert(pairs.skip(i as int).drop_first() =~= pairs.skip(i as int + 1));
        }
        if items[i].1 == id {
            return Some(items[i].0.clone());
        }
        i += 1;
    }
    proof {
        assert(pairs.skip(pairs.len() as int).len() == 0);
    }
    None
}

/// The examples list for an enum diagnostic.
fn enum_examples(items: &Vec<(String, u32)>) -> (r: String)
    ensures
        r@ == spec_enum_examples(crate::alist::pairs_view(items@)),
{
    let ghost pairs = crate::alist::pairs_view(items@);
    if items.len() == 0 {
        let r = String::new();
        proof {
            assert(r@ =~= spec_enum_examples(pairs));
        }
        return r;
    }
    let mut names: Vec<String> = Vec::new();
    let mut i: usize = 0;
    while i < items.len()
        invariant
            i <= items@.len(),
            names@.len() == i,
            forall|j: int| 0 <= j < i ==> (#[trigger] names@[j])@ == items@[j].0@,
        decreases items@.len() - i,
    {
        names.push(items[i].0.clone());
        i += 1;
    }
    let r = list_examples(&names);
    proof {
        assert(strings_view(names@) =~= pairs.map_values(|p: (Seq<char>, u32)| p.0));
    }
    r
}

/// An unknown axis at index `i` decides the whole list.
proof fn lemma_axes_err(names: Seq<Seq<char>>, i: int)
    requires
        0 <= i < names.len(),
        spec_axes_bits(names.take(i)) is Ok,
        spec_axis_bit(names[i]) is None,
    ensures
        spec_axes_bits(names) == Err::<u8, ResolveErrorV>(
            ResolveErrorV::InvalidAxis { axis: names[i] },
        ),
    decreases names.len(),
{
    if i == names.len() - 1 {
        assert(names.drop_last() =~= names.take(i));
    } else {
        assert(names.drop_last().take(i) =~= names.take(i));
        lemma_axes_err(names.drop_last(), i);
        assert(names.drop_last()[i] == names[i]);
    }
}

/// An unknown face at index `i` decides the whole list.
proof fn lemma_faces_err(names: Seq<Seq<char>>, i: int)
    requires
        0 <= i < names.len(),
        spec_faces_bits(names.take(i)) is Ok,
        spec_face_bit(names[i]) is None,
    ensures
        spec_faces_bits(names) == Err::<u8, ResolveErrorV>(
            ResolveErrorV::InvalidFace { face: names[i] },
        ),
    decreases names.len(),
{
    if i == names.len() - 1 {
        assert(names.drop_last() =~= names.take(i));
    } else {
        assert(names.drop_last().take(i) =~= names.take(i));
        lemma_faces_err(names.drop_last(), i);
        assert(names.drop_last()[i] == names[i]);
    }
}

/// The bit for one axis name, if legal.
fn axis_bit(s: &String) -> (r: Option<u8>)
    ensures
        r == spec_axis_bit(s@),
{
    let x = String::from_str("X");
    let y = String::from_str("Y");
    let z = String::from_str("Z");
    proof {
        reveal_strlit("X");
        reveal_strlit("Y");
        reveal_strlit("Z");
    }
    if *s == x {
        Some(1)
    } else if *s == y {
        Some(2)
    } else if *s == z {
        Some(4)
    } else {
        None
    }
}

/// The bit for one face name, if legal.
fn face_bit(s: &String) -> (r: Option<u8>)
    ensures
        r == spec_face_bit(s@),
{
    let right = String::from_str("Right");
    let top = String::from_str("Top");
    let back = String::from_str("Back");
    let left = String::from_str("Left");
    let bottom = String::from_str("Bottom");
    let front = String::from_str("Front");
    proof {
        reveal_strlit("Right");
        reveal_strlit("Top");
        reveal_strlit("Back");
        reveal_strlit("Left");
        reveal_strlit("Bottom");
        reveal_strlit("Front");
    }
    if *s == right {
        Some(1)
    } else if *s == top {
        Some(2)
    } else if *s == back {
        Some(4)
    } else if *s == left {
        Some(8)
    } else if *s == bottom {
        Some(16)
    } else if *s == front {
        Some(32)
    } else {
        None
    }
}

/// Fold a list of axis names into a bit set; an unknown name is an error.
fn axes_bits(names: &Vec<String>) -> (r: Result<u8, ResolveError>)
    ensures
        match r {
            Ok(bits) => spec_axes_bits(strings_view(names@)) == Ok::<u8, ResolveErrorV>(bits),
            Err(e) => spec_axes_bits(strings_view(names@)) == Err::<u8, ResolveErrorV>(e@),
        },
{
    let ghost vs = strings_view(names@);
    let mut bits: u8 = 0;
    let mut i: usize = 0;
    proof {
        assert(vs.take(0) =~= Seq::<Seq<char>>::empty());
    }
    while i < names.len()
        invariant
            vs == strings_view(names@),
            i <= names@.len(),
            spec_axes_bits(vs.take(i as int)) == Ok::<u8, ResolveErrorV>(bits),
        decreases names@.len() - i,
    {
        proof {
            assert(strings_view(names@)[i as int] == names@[i as int]@);
            assert(vs.take(i as int + 1).drop_last() =~= vs.take(i as int));
            assert(vs.take(i as int + 1).last() == vs[i as int]);
        }
        match axis_bit(&names[i]) {
            Some(b) => {
                bits = bits | b;
            }
            None => {
                proof {
                    lemma_axes_err(vs, i as int);
                }
                return Err(ResolveError::InvalidAxis { axis: names[i].clone() });
            }
        }
        i += 1;
    }
    proof {
        assert(vs.take(vs.len() as int) =~= vs);
    }
    Ok(bits)
}

/// Fold a list of face names into a bit set; an unknown name is an error.
fn faces_bits(names: &Vec<String>) -> (r: Result<u8, ResolveError>)
    ensures
        match r {
            Ok(bits) => spec_faces_bits(strings_view(names@)) == Ok::<u8, ResolveErrorV>(bits),
            Err(e) => spec_faces_bits(strings_view(names@)) == Err::<u8, ResolveErrorV>(e@),
        },
{
    let ghost vs = strings_view(names@);
    let mut bits: u8 = 0;
    let mut i: usize = 0;
    proof {
        assert(vs.take(0) =~= Seq::<Seq<char>>::empty());
    }
    while i < names.len()
        invariant
            vs == strings_view(names@),
            i <= names@.len(),
            spec_faces_bits(vs.take(i as int)) == Ok::<u8, ResolveErrorV>(bits),
        decreases names@.len() - i,
    {
        proof {
            assert(strings_view(names@)[i as int] == names@[i as int]@);
            assert(vs.take(i as int + 1).drop_last() =~= vs.take(i as int));
            assert(vs.take(i as int + 1).last() == vs[i as int]);
        }
        match face_bit(&names[i]) {
            Some(b) => {
                bits = bits | b;
            }
            None => {
                proof {
                    lemma_faces_err(vs, i as int);
                }
                return Err(ResolveError::InvalidFace { face: names[i].clone() });
            }
        }
        i += 1;
    }
    proof {
        assert(vs.take(vs.len() as int) =~= vs);
    }
    Ok(bits)
}

/// A failing member at index `i` decides the whole object.
proof fn lemma_attrs_err(pairs: Seq<(Seq<char>, ObjectValueV)>, i: int)
    requires
        0 <= i < pairs.len(),
        forall|j: int| 0 <= j < i ==> spec_attr_of_object(
            (#[trigger] pairs[j]).0,
            pairs[j].1,
        ) is Ok,
        spec_attr_of_object(pairs[i].0, pairs[i].1) is Err,
    ensures
        spec_attrs_of_object(pairs) == Err::<Seq<(Seq<char>, AttrValueV)>, ResolveErrorV>(
            spec_attr_of_object(pairs[i].0, pairs[i].1)->Err_0,
        ),
    decreases pairs.len(),
{
    if i == 0 {
    } else {
        assert(forall|j: int| 0 <= j < i - 1 ==> spec_attr_of_object(
            (#[trigger] pairs.drop_first()[j]).0,
            pairs.drop_first()[j].1,
        ) is Ok) by {
            assert(forall|j: int| 0 <= j < i - 1 ==> #[trigger] pairs.drop_first()[j] == pairs[
                j + 1
            ]);
        }
        assert(pairs.drop_first()[i - 1] == pairs[i]);
        lemma_attrs_err(pairs.drop_first(), i - 1);
    }
}

/// All-passing members at every index give the concatenated result.
proof fn lemma_attrs_ok(pairs: Seq<(Seq<char>, ObjectValueV)>, acc: Seq<(Seq<char>, AttrValueV)>)
    requires
        forall|j: int| 0 <= j < pairs.len() ==> spec_attr_of_object(
            (#[trigger] pairs[j]).0,
            pairs[j].1,
        ) is Ok,
        acc.len() == pairs.len(),
        forall|j: int| 0 <= j < pairs.len() ==> (#[trigger] acc[j]) == (
            pairs[j].0,
            spec_attr_of_object(pairs[j].0, pairs[j].1)->Ok_0,
        ),
    ensures
        spec_attrs_of_object(pairs) == Ok::<Seq<(Seq<char>, AttrValueV)>, ResolveErrorV>(acc),
    decreases pairs.len(),
{
    if pairs.len() == 0 {
        assert(acc =~= Seq::<(Seq<char>, AttrValueV)>::empty());
    } else {
        assert(forall|j: int| 0 <= j < pairs.len() - 1 ==> #[trigger] pairs.drop_first()[j]
            == pairs[j + 1]);
        assert(forall|j: int| 0 <= j < acc.len() - 1 ==> #[trigger] acc.drop_first()[j] == acc[
            j + 1
        ]);
        lemma_attrs_ok(pairs.drop_first(), acc.drop_first());
        assert(acc =~= seq![(pairs[0].0, spec_attr_of_object(pairs[0].0, pairs[0].1)->Ok_0)]
            + acc.drop_first());
    }
}

/// Convert one loose object member into an attribute value.
fn attr_of_object(key: &String, v: &ObjectValue) -> (r: Result<AttrValue, ResolveError>)
    ensures
        match r {
            Ok(a) => spec_attr_of_object(key@, v@) == Ok::<AttrValueV, ResolveErrorV>(a@),
            Err(e) => spec_attr_of_object(key@, v@) == Err::<AttrValueV, ResolveErrorV>(e@),
        },
{
    match v {
        ObjectValue::Bool(b) => Ok(AttrValue::Bool(*b)),
        ObjectValue::Number(n) => Ok(AttrValue::Number(*n)),
        ObjectValue::Str(s) => Ok(AttrValue::Str(s.clone())),
        ObjectValue::FullyQualified(tv) => match tv {
            TypedValue::Bool(b) => Ok(AttrValue::Bool(*b)),
            TypedValue::Float32(m) => Ok(AttrValue::Number(*m)),
            TypedValue::Float64(m) => Ok(AttrValue::Number(*m)),
            TypedValue::Int32(n) => Ok(AttrValue::Number(micros_of_i32(*n))),
            TypedValue::Int64(n) => Ok(AttrValue::Number(micros_of_i64(*n))),
            TypedValue::Str(s) => Ok(AttrValue::Str(s.clone())),
            _ => Err(ResolveError::UnsupportedAttribute { key: key.clone() }),
        },
    }
}

/// Convert a loose object into attribute pairs; the first failing member
/// wins.
fn attrs_of_object(pairs: &Vec<(String, ObjectValue)>) -> (r: Result<
    Vec<(String, AttrValue)>,
    ResolveError,
>)
    ensures
        match r {
            Ok(a) => spec_attrs_of_object(crate::alist::pairs_view(pairs@)) == Ok::<
                Seq<(Seq<char>, AttrValueV)>,
                ResolveErrorV,
            >(crate::alist::pairs_view(a@)),
            Err(e) => spec_attrs_of_object(crate::alist::pairs_view(pairs@)) == Err::<
                Seq<(Seq<char>, AttrValueV)>,
                ResolveErrorV,
            >(e@),
        },
{
    let ghost ps = crate::alist::pairs_view(pairs@);
    let mut out: Vec<(String, AttrValue)> = Vec::new();
    let mut i: usize = 0;
    while i < pairs.len()
        invariant
            ps == crate::alist::pairs_view(pairs@),
            i <= pairs@.len(),
            out@.len() == i,
            forall|j: int| 0 <= j < i ==> spec_attr_of_object(
                (#[trigger] ps[j]).0,
                ps[j].1,
            ) is Ok,
            forall|j: int| 0 <= j < i ==> (#[trigger] crate::alist::pairs_view(out@)[j]) == (
                ps[j].0,
                spec_attr_of_object(ps[j].0, ps[j].1)->Ok_0,
            ),
        decreases pairs@.len() - i,
    {
        let (key, val) = &pairs[i];
        proof {
            assert(ps[i as int] == (key@, val@));
        }
        match attr_of_object(key, val) {
            Ok(a) => {
                let ghost prevout = crate::alist::pairs_view(out@);
                let ghost av = a@;
                out.push((key.clone(), a));
                proof {
                    assert(crate::alist::pairs_view(out@) =~= prevout.push((key@, av)));
                }
            }
            Err(e) => {
                proof {
                    lemma_attrs_err(ps, i as int);
                }
                return Err(e);
            }
        }
        i += 1;
    }
    proof {
        lemma_attrs_ok(ps, crate::alist::pairs_view(out@));
    }
    Ok(out)
}


impl AmbiguousValue {
    /// Resolve this loose value against the declared type of
    /// `class`.`property`, walking the superclass chain in the database.
    pub fn resolve(self, db: &ReflectionDb, class: &String, property: &String) -> (r: Result<
        TypedValue,
        ResolveError,
    >)
        requires
            db.wf(),
        ensures
            match r {
                Ok(tv) => spec_resolve(db@, class@, property@, self@) == Ok::<
                    TypedValueV,
                    ResolveErrorV,
                >(tv@),
                Err(e) => spec_resolve(db@, class@, property@, self@) == Err::<
                    TypedValueV,
                    ResolveErrorV,
                >(e@),
            },
    {
        let descriptor = db.find_descriptor(class, property);
        match descriptor {
            None => Err(ResolveError::UnknownProperty {
                class: class.clone(),
                property: property.clone(),
            }),
            Some(crate::reflect::PropType::Enum(ename)) => {
                let entry = db.enums.get(&ename);
                match entry {
                    None => Err(ResolveError::UnknownEnum { name: ename.clone() }),
                    Some(desc) => {
                        match &self {
                            AmbiguousValue::Str(s) => {
                                match enum_value(&desc.items, s) {
                                    Some(id) => Ok(TypedValue::EnumItem(id)),
                                    None => Err(ResolveError::InvalidEnumMember {
                                        class: class.clone(),
                                        property: property.clone(),
                                        got: s.clone(),
                                        examples: enum_examples(&desc.items),
                                    }),
                                }
                            }
                            _ => {
                                let got = String::from_str(self.describe());
                                Err(ResolveError::InvalidEnumMember {
                                    class: class.clone(),
                                    property: property.clone(),
                                    got,
                                    examples: enum_examples(&desc.items),
                                })
                            }
                        }
                    }
                }
            }
            Some(crate::reflect::PropType::Value(kind)) => resolve_value(
                db,
                class,
                property,
                kind,
                self,
            ),
        }
    }

    /// Resolve this loose value without a declared type: scalars only.
    pub fn resolve_unambiguous(self) -> (r: Result<TypedValue, ResolveError>)
        ensures
            match r {
                Ok(tv) => spec_resolve_unambiguous(self@) == Ok::<TypedValueV, ResolveErrorV>(
                    tv@,
                ),
                Err(e) => spec_resolve_unambiguous(self@) == Err::<TypedValueV, ResolveErrorV>(
                    e@,
                ),
            },
    {
        match self {
            AmbiguousValue::Bool(b) => Ok(TypedValue::Bool(b)),
            AmbiguousValue::Number(m) => Ok(TypedValue::Float64(m)),
            AmbiguousValue::Str(s) => Ok(TypedValue::Str(s)),
            other => {
                let got = String::from_str(other.describe());
                Err(ResolveError::NotUnambiguous { got })
            }
        }
    }
}

/// Resolution against a declared value type.
fn resolve_value(
    db: &ReflectionDb,
    class: &String,
    property: &String,
    kind: ValueKind,
    v: AmbiguousValue,
) -> (r: Result<TypedValue, ResolveError>)
    ensures
        match r {
            Ok(tv) => spec_resolve_value(db@, class@, property@, kind, v@) == Ok::<
                TypedValueV,
                ResolveErrorV,
            >(tv@),
            Err(e) => spec_resolve_value(db@, class@, property@, kind, v@) == Err::<
                TypedValueV,
                ResolveErrorV,
            >(e@),
        },
{
    let ghost vv = v@;
    let wrong_got = String::from_str(v.describe());
    match (kind, v) {
        (ValueKind::Attributes, AmbiguousValue::Attributes(pairs)) => Ok(
            TypedValue::Attributes(pairs),
        ),
        (ValueKind::Attributes, AmbiguousValue::Object(pairs)) => {
            match attrs_of_object(&pairs) {
                Ok(a) => Ok(TypedValue::Attributes(a)),
                Err(e) => Err(e),
            }
        }
        (ValueKind::Axes, AmbiguousValue::StringArray(names)) => {
            match axes_bits(&names) {
                Ok(bits) => Ok(TypedValue::Axes(bits)),
                Err(e) => Err(e),
            }
        }
        (ValueKind::BinaryString, AmbiguousValue::Str(s)) => Ok(TypedValue::BinaryStr(s)),
        (ValueKind::Bool, AmbiguousValue::Bool(b)) => Ok(TypedValue::Bool(b)),
        (ValueKind::BrickColor, AmbiguousValue::Number(m)) => {
            let w = micros_whole(m);
            let n = sat_u16(w);
            if db.brick_color_number_valid(n) {
                Ok(TypedValue::BrickColor(n))
            } else {
                Err(ResolveError::InvalidColorNumber { number: w })
            }
        }
        (ValueKind::BrickColor, AmbiguousValue::Str(s)) => {
            match db.brick_color_by_name(&s) {
                Some(n) => Ok(TypedValue::BrickColor(n)),
                None => Err(ResolveError::InvalidColorName { name: s }),
            }
        }
        (ValueKind::CFrame, AmbiguousValue::Array12(c)) => Ok(TypedValue::CFrame(c)),
        (ValueKind::Color3, AmbiguousValue::Array3(a, b, c)) => Ok(
            TypedValue::Color3(Vec3Val { x: a, y: b, z: c }),
        ),
        (ValueKind::Color3uint8, AmbiguousValue::Array3(a, b, c)) => Ok(
            TypedValue::Color3uint8(
                Color3u8Val {
                    r: sat_u8(micros_whole(a)),
                    g: sat_u8(micros_whole(b)),
                    b: sat_u8(micros_whole(c)),
                },
            ),
        ),
        (ValueKind::ColorSequence, AmbiguousValue::ColorSequence(ks)) => Ok(
            TypedValue::ColorSequence(ks),
        ),
        (ValueKind::Content, AmbiguousValue::Str(s)) => Ok(TypedValue::ContentRef(s)),
        (ValueKind::Faces, AmbiguousValue::StringArray(names)) => {
            match faces_bits(&names) {
                Ok(bits) => Ok(TypedValue::Faces(bits)),
                Err(e) => Err(e),
            }
        }
        (ValueKind::Float32, AmbiguousValue::Number(m)) => Ok(TypedValue::Float32(m)),
        (ValueKind::Float64, AmbiguousValue::Number(m)) => Ok(TypedValue::Float64(m)),
        (ValueKind::Font, AmbiguousValue::Font(f)) => Ok(TypedValue::Font(f)),
        (ValueKind::Int32, AmbiguousValue::Number(m)) => {
            let w = micros_whole(m);
            Ok(TypedValue::Int32(whole_to_i32(w)))
        }
        (ValueKind::Int64, AmbiguousValue::Number(m)) => Ok(TypedValue::Int64(micros_whole(m))),
        (ValueKind::MaterialColors, AmbiguousValue::MaterialColors(mc)) => Ok(
            TypedValue::MaterialColors(mc),
        ),
        (ValueKind::NumberRange, AmbiguousValue::Array2(a, b)) => Ok(
            TypedValue::NumberRange(a, b),
        ),
        (ValueKind::NumberSequence, AmbiguousValue::NumberSequence(ks)) => Ok(
            TypedValue::NumberSequence(ks),
        ),
        (ValueKind::OptionalCFrame, AmbiguousValue::Array12(c)) => Ok(
            TypedValue::OptionalCFrame(c),
        ),
        (ValueKind::PhysicalProperties, AmbiguousValue::PhysicalProperties(p)) => Ok(
            TypedValue::PhysicalProperties(p),
        ),
        (ValueKind::Ray, AmbiguousValue::Ray(r)) => Ok(TypedValue::Ray(r)),
        (ValueKind::Rect, AmbiguousValue::Array2Array2(a, b)) => Ok(TypedValue::Rect(a, b)),
        (ValueKind::Region3, AmbiguousValue::Array3Array2(a, b)) => Ok(
            TypedValue::Region3(a, b),
        ),
        (ValueKind::Region3int16, AmbiguousValue::Array3Array2(a, b)) => Ok(
            TypedValue::Region3int16(
                Vec3Val {
                    x: sat_i16(micros_whole(a.x)) as i64,
                    y: sat_i16(micros_whole(a.y)) as i64,
                    z: sat_i16(micros_whole(a.z)) as i64,
                },
                Vec3Val {
                    x: sat_i16(micros_whole(b.x)) as i64,
                    y: sat_i16(micros_whole(b.y)) as i64,
                    z: sat_i16(micros_whole(b.z)) as i64,
                },
            ),
        ),
        (ValueKind::SharedString, AmbiguousValue::Str(s)) => Ok(TypedValue::SharedStr(s)),
        (ValueKind::Str, AmbiguousValue::Str(s)) => Ok(TypedValue::Str(s)),
        (ValueKind::Tags, AmbiguousValue::StringArray(tags)) => Ok(TypedValue::Tags(tags)),
        (ValueKind::UDim, AmbiguousValue::Array2(a, b)) => {
            let w = micros_whole(b);
            Ok(TypedValue::UDim(a, whole_to_i32(w)))
        }
        (ValueKind::UDim2, AmbiguousValue::Array2Array2(a, b)) => Ok(
            TypedValue::UDim2(
                a.x,
                whole_to_i32(micros_whole(a.y)),
                b.x,
                whole_to_i32(micros_whole(b.y)),
            ),
        ),
        (ValueKind::Vector2, AmbiguousValue::Array2(a, b)) => Ok(
            TypedValue::Vector2(Vec2Val { x: a, y: b }),
        ),
        (ValueKind::Vector2int16, AmbiguousValue::Array2(a, b)) => Ok(
            TypedValue::Vector2int16(sat_i16(micros_whole(a)), sat_i16(micros_whole(b))),
        ),
        (ValueKind::Vector3, AmbiguousValue::Array3(a, b, c)) => Ok(
            TypedValue::Vector3(Vec3Val { x: a, y: b, z: c }),
        ),
        (ValueKind::Vector3int16, AmbiguousValue::Array3(a, b, c)) => Ok(
            TypedValue::Vector3int16(
                sat_i16(micros_whole(a)),
                sat_i16(micros_whole(b)),
                sat_i16(micros_whole(c)),
            ),
        ),
        (_, other) => Err(ResolveError::WrongShape {
            class: class.clone(),
            property: property.clone(),
            expected: kind,
            got: wrong_got,
        }),
    }
}


/// The loose form the codec emits for a typed value: enums become their
/// member name when the database documents them, simple scalars and vectors
/// become ambiguous shapes, and anything without a loose shape is kept
/// fully qualified.
pub open spec fn spec_from_variant(
    db: ReflectionDbV,
    tv: TypedValueV,
    class: Seq<char>,
    property: Seq<char>,
) -> UnresolvedValueV {
    match tv {
        TypedValueV::EnumItem(id) => match crate::reflect::spec_find_descriptor(
            db,
            class,
            property,
            db.classes.dom().len(),
        ) {
            Some(PropTypeV::Enum(ename)) => if db.enums.contains_key(ename) {
                match spec_enum_name(db.enums[ename].items, id) {
                    Some(name) => UnresolvedValueV::Ambiguous(AmbiguousValueV::Str(name)),
                    None => UnresolvedValueV::FullyQualified(tv),
                }
            } else {
                UnresolvedValueV::FullyQualified(tv)
            },
            _ => UnresolvedValueV::FullyQualified(tv),
        },
        TypedValueV::Bool(b) => UnresolvedValueV::Ambiguous(AmbiguousValueV::Bool(b)),
        TypedValueV::Float32(m) => UnresolvedValueV::Ambiguous(AmbiguousValueV::Number(m)),
        TypedValueV::Float64(m) => UnresolvedValueV::Ambiguous(AmbiguousValueV::Number(m)),
        TypedValueV::Int32(n) => UnresolvedValueV::Ambiguous(
            AmbiguousValueV::Number(spec_micros_of_whole(n as int)),
        ),
        TypedValueV::Int64(n) => UnresolvedValueV::Ambiguous(
            AmbiguousValueV::Number(spec_micros_of_whole(n as int)),
        ),
        TypedValueV::Str(s) => UnresolvedValueV::Ambiguous(AmbiguousValueV::Str(s)),
        TypedValueV::Tags(ts) => UnresolvedValueV::Ambiguous(AmbiguousValueV::StringArray(ts)),
        TypedValueV::ContentRef(s) => UnresolvedValueV::Ambiguous(AmbiguousValueV::Str(s)),
        TypedValueV::Vector2(v) => UnresolvedValueV::Ambiguous(AmbiguousValueV::Array2(v.x, v.y)),
        TypedValueV::Vector3(v) => UnresolvedValueV::Ambiguous(
            AmbiguousValueV::Array3(v.x, v.y, v.z),
        ),
        TypedValueV::Color3(v) => UnresolvedValueV::Ambiguous(
            AmbiguousValueV::Array3(v.x, v.y, v.z),
        ),
        TypedValueV::CFrame(c) => UnresolvedValueV::Ambiguous(AmbiguousValueV::Array12(c)),
        TypedValueV::Attributes(a) => UnresolvedValueV::Ambiguous(AmbiguousValueV::Attributes(a)),
        TypedValueV::Font(f) => UnresolvedValueV::Ambiguous(AmbiguousValueV::Font(f)),
        TypedValueV::MaterialColors(m) => UnresolvedValueV::Ambiguous(
            AmbiguousValueV::MaterialColors(m),
        ),
        _ => UnresolvedValueV::FullyQualified(tv),
    }
}

impl UnresolvedValue {
    /// Resolve this loose value against the declared type of
    /// `class`.`property`; a fully-qualified value passes through unchanged.
    pub fn resolve(self, db: &ReflectionDb, class: &String, property: &String) -> (r: Result<
        TypedValue,
        ResolveError,
    >)
        requires
            db.wf(),
        ensures
            match r {
                Ok(tv) => spec_resolve_unresolved(db@, class@, property@, self@) == Ok::<
                    TypedValueV,
                    ResolveErrorV,
                >(tv@),
                Err(e) => spec_resolve_unresolved(db@, class@, property@, self@) == Err::<
                    TypedValueV,
                    ResolveErrorV,
                >(e@),
            },
    {
        match self {
            UnresolvedValue::FullyQualified(tv) => Ok(tv),
            UnresolvedValue::Ambiguous(v) => v.resolve(db, class, property),
        }
    }

    /// Resolve this loose value without a declared type; a fully-qualified
    /// value passes through unchanged.
    pub fn resolve_unambiguous(self) -> (r: Result<TypedValue, ResolveError>)
        ensures
            match r {
                Ok(tv) => spec_resolve_unambiguous_unresolved(self@) == Ok::<
                    TypedValueV,
                    ResolveErrorV,
                >(tv@),
                Err(e) => spec_resolve_unambiguous_unresolved(self@) == Err::<
                    TypedValueV,
                    ResolveErrorV,
                >(e@),
            },
    {
        match self {
            UnresolvedValue::FullyQualified(tv) => Ok(tv),
            UnresolvedValue::Ambiguous(v) => v.resolve_unambiguous(),
        }
    }

    /// The loose form the codec emits for a typed value.
    pub fn from_variant(
        variant: TypedValue,
        db: &ReflectionDb,
        class_name: &String,
        prop_name: &String,
    ) -> (r: UnresolvedValue)
        requires
            db.wf(),
        ensures
            r@ == spec_from_variant(db@, variant@, class_name@, prop_name@),
    {
        match variant {
            TypedValue::EnumItem(id) => {
                let descriptor = db.find_descriptor(class_name, prop_name);
                match descriptor {
                    Some(crate::reflect::PropType::Enum(ename)) => {
                        let entry = db.enums.get(&ename);
                        match entry {
                            Some(desc) => {
                                match enum_name(&desc.items, id) {
                                    Some(name) => UnresolvedValue::Ambiguous(
                                        AmbiguousValue::Str(name),
                                    ),
                                    None => UnresolvedValue::FullyQualified(
                                        TypedValue::EnumItem(id),
                                    ),
                                }
                            }
                            None => UnresolvedValue::FullyQualified(TypedValue::EnumItem(id)),
                        }
                    }
                    _ => UnresolvedValue::FullyQualified(TypedValue::EnumItem(id)),
                }
            }
            TypedValue::Bool(b) => UnresolvedValue::Ambiguous(AmbiguousValue::Bool(b)),
            TypedValue::Float32(m) => UnresolvedValue::Ambiguous(AmbiguousValue::Number(m)),
            TypedValue::Float64(m) => UnresolvedValue::Ambiguous(AmbiguousValue::Number(m)),
            TypedValue::Int32(n) => UnresolvedValue::Ambiguous(
                AmbiguousValue::Number(micros_of_i32(n)),
            ),
            TypedValue::Int64(n) => UnresolvedValue::Ambiguous(
                AmbiguousValue::Number(micros_of_i64(n)),
            ),
            TypedValue::Str(s) => UnresolvedValue::Ambiguous(AmbiguousValue::Str(s)),
            TypedValue::Tags(ts) => UnresolvedValue::Ambiguous(AmbiguousValue::StringArray(ts)),
            TypedValue::ContentRef(s) => UnresolvedValue::Ambiguous(AmbiguousValue::Str(s)),
            TypedValue::Vector2(v) => UnresolvedValue::Ambiguous(
                AmbiguousValue::Array2(v.x, v.y),
            ),
            TypedValue::Vector3(v) => UnresolvedValue::Ambiguous(
                AmbiguousValue::Array3(v.x, v.y, v.z),
            ),
            TypedValue::Color3(v) => UnresolvedValue::Ambiguous(
                AmbiguousValue::Array3(v.x, v.y, v.z),
            ),
            TypedValue::CFrame(c) => UnresolvedValue::Ambiguous(AmbiguousValue::Array12(c)),
            TypedValue::Attributes(a) => UnresolvedValue::Ambiguous(
                AmbiguousValue::Attributes(a),
            ),
            TypedValue::Font(f) => UnresolvedValue::Ambiguous(AmbiguousValue::Font(f)),
            TypedValue::MaterialColors(m) => UnresolvedValue::Ambiguous(
                AmbiguousValue::MaterialColors(m),
            ),
            other => UnresolvedValue::FullyQualified(other),
        }
    }
}

/// Resolution of a loose value: a fully-qualified value passes through.
pub open spec fn spec_resolve_unresolved(
    db: ReflectionDbV,
    class: Seq<char>,
    property: Seq<char>,
    v: UnresolvedValueV,
) -> Result<TypedValueV, ResolveErrorV> {
    match v {
        UnresolvedValueV::FullyQualified(tv) => Ok(tv),
        UnresolvedValueV::Ambiguous(a) => spec_resolve(db, class, property, a),
    }
}

/// Unambiguous resolution of a loose value: a fully-qualified value passes
/// through.
pub open spec fn spec_resolve_unambiguous_unresolved(v: UnresolvedValueV) -> Result<
    TypedValueV,
    ResolveErrorV,
> {
    match v {
        UnresolvedValueV::FullyQualified(tv) => Ok(tv),
        UnresolvedValueV::Ambiguous(a) => spec_resolve_unambiguous(a),
    }
}

/// Well-formedness of a loose value's numeric components.
pub open spec fn unresolved_wf(v: UnresolvedValueV) -> bool {
    match v {
        UnresolvedValueV::FullyQualified(..) => true,
        UnresolvedValueV::Ambiguous(a) => crate::ambiguous::ambiguous_wf(a),
    }
}

/// The ambiguous shapes whose resolution the reverse codec turns back into
/// the same loose value: for these, resolving and then reversing is the
/// identity.
pub open spec fn spec_reversible(
    db: ReflectionDbV,
    class: Seq<char>,
    property: Seq<char>,
    v: AmbiguousValueV,
) -> bool {
    match crate::reflect::spec_find_descriptor(db, class, property, db.classes.dom().len()) {
        None => false,
        Some(PropTypeV::Enum(ename)) => db.enums.contains_key(ename) && (match v {
            AmbiguousValueV::Str(s) => match spec_enum_value(db.enums[ename].items, s) {
                Some(id) => spec_enum_name(db.enums[ename].items, id) == Some(s),
                None => false,
            },
            _ => false,
        }),
        Some(PropTypeV::Value(kind)) => match (kind, v) {
            (ValueKind::Bool, AmbiguousValueV::Bool(..)) => true,
            (ValueKind::Str, AmbiguousValueV::Str(..)) => true,
            (ValueKind::Content, AmbiguousValueV::Str(..)) => true,
            (ValueKind::Float32, AmbiguousValueV::Number(..)) => true,
            (ValueKind::Float64, AmbiguousValueV::Number(..)) => true,
            (ValueKind::Int32, AmbiguousValueV::Number(m)) => crate::micros_wf(m)
                && spec_micros_is_whole(m as int),
            (ValueKind::Int64, AmbiguousValueV::Number(m)) => crate::micros_wf(m)
                && spec_micros_is_whole(m as int),
            (ValueKind::Tags, AmbiguousValueV::StringArray(..)) => true,
            (ValueKind::Vector2, AmbiguousValueV::Array2(..)) => true,
            (ValueKind::Vector3, AmbiguousValueV::Array3(..)) => true,
            (ValueKind::Color3, AmbiguousValueV::Array3(..)) => true,
            (ValueKind::CFrame, AmbiguousValueV::Array12(..)) => true,
            (ValueKind::Attributes, AmbiguousValueV::Attributes(..)) => true,
            (ValueKind::Font, AmbiguousValueV::Font(..)) => true,
            (ValueKind::MaterialColors, AmbiguousValueV::MaterialColors(..)) => true,
            _ => false,
        },
    }
}

/// Round trip: for every reversible ambiguous shape, reversing the resolved
/// value reproduces the loose value exactly. In the fixed-point model the
/// declared six-decimal truncation is the identity, so no tolerance is
/// needed.
pub proof fn lemma_resolve_reverse_round_trip(
    db: ReflectionDbV,
    class: Seq<char>,
    property: Seq<char>,
    v: AmbiguousValueV,
)
    requires
        spec_reversible(db, class, property, v),
    ensures
        spec_resolve(db, class, property, v) is Ok,
        spec_from_variant(db, spec_resolve(db, class, property, v)->Ok_0, class, property)
            == UnresolvedValueV::Ambiguous(v),
{
    let d = crate::reflect::spec_find_descriptor(db, class, property, db.classes.dom().len());
    match d {
        None => {}
        Some(PropTypeV::Enum(ename)) => {}
        Some(PropTypeV::Value(kind)) => {
            match (kind, v) {
                (ValueKind::Int32, AmbiguousValueV::Number(m)) => {
                    lemma_whole_round_trip(m);
                }
                (ValueKind::Int64, AmbiguousValueV::Number(m)) => {
                    lemma_whole_round_trip(m);
                }
                _ => {}
            }
        }
    }
}

/// A whole fixed-point number survives truncation to its whole part and
/// scaling back.
proof fn lemma_whole_round_trip(m: i64)
    requires
        crate::micros_wf(m),
        spec_micros_is_whole(m as int),
    ensures
        spec_micros_of_whole(spec_micros_whole(m as int)) == m,
{
    let w = spec_micros_whole(m as int);
    if m >= 0 {
        assert(m == 1_000_000 * (m / 1_000_000) + m % 1_000_000);
        assert(w * 1_000_000 == m);
        assert(w <= 999_999_999) by {
            assert(m <= 999_999_999_000_000);
        }
    } else {
        let n = -(m as int);
        assert(n % 1_000_000 == 0) by {
            assert(m % 1_000_000 == 0);
        }
        assert(n == 1_000_000 * (n / 1_000_000) + n % 1_000_000);
        assert(w == -(n / 1_000_000));
        assert(w * 1_000_000 == m);
        assert(-999_999_999 <= w) by {
            assert(n <= 999_999_999_000_000);
        }
    }
}

} // verus!
