//! Loosely-typed, human-editable property values: the shapes a property can
//! take in a sidecar or project document before the codec resolves it.

use vstd::prelude::*;

use crate::alist::{pairs_view, strings_view, DeepClone};
use crate::value::{
    AttrValue, AttrValueV, Color3u8Val, ColorKeypoint, FontVal, FontValV, NumberKeypoint,
    PhysProps, RayVal, TypedValue, TypedValueV, Vec2Val, Vec3Val, clone_strings,
};

verus! {

/// A member of a generic loose object: a scalar, or an already exactly-typed
/// value.
#[derive(Debug, PartialEq)]
pub enum ObjectValue {
    FullyQualified(TypedValue),
    Bool(bool),
    Number(i64),
    Str(String),
}

pub ghost enum ObjectValueV {
    FullyQualified(TypedValueV),
    Bool(bool),
    Number(i64),
    Str(Seq<char>),
}

impl View for ObjectValue {
    type V = ObjectValueV;

    open spec fn view(&self) -> ObjectValueV {
        match self {
            ObjectValue::FullyQualified(v) => ObjectValueV::FullyQualified(v@),
            ObjectValue::Bool(b) => ObjectValueV::Bool(*b),
            ObjectValue::Number(n) => ObjectValueV::Number(*n),
            ObjectValue::Str(s) => ObjectValueV::Str(s@),
        }
    }
}

impl Clone for ObjectValue {
    fn clone(&self) -> (r: Self)
        ensures
            r@ == self@,
    {
        match self {
            ObjectValue::FullyQualified(v) => ObjectValue::FullyQualified(v.clone()),
            ObjectValue::Bool(b) => ObjectValue::Bool(*b),
            ObjectValue::Number(n) => ObjectValue::Number(*n),
            ObjectValue::Str(s) => ObjectValue::Str(s.clone()),
        }
    }
}

impl DeepClone for ObjectValue {
    fn deep_clone(&self) -> (r: Self)
        ensures
            r@ == self@,
    {
        self.clone()
    }
}

/// An ambiguous loose value: one of the shapes the codec accepts.
#[derive(Debug, PartialEq)]
pub enum AmbiguousValue {
    Bool(bool),
    Str(String),
    StringArray(Vec<String>),
    Number(i64),
    Object(Vec<(String, ObjectValue)>),
    Array2(i64, i64),
    Array3(i64, i64, i64),
    Array4(i64, i64, i64, i64),
    Array12(crate::value::CFrameComps),
    Array2Array2(Vec2Val, Vec2Val),
    Array3Array2(Vec3Val, Vec3Val),
    Attributes(Vec<(String, AttrValue)>),
    Font(FontVal),
    MaterialColors(Vec<(String, Color3u8Val)>),
    ColorSequence(Vec<ColorKeypoint>),
    NumberSequence(Vec<NumberKeypoint>),
    PhysicalProperties(PhysProps),
    Ray(RayVal),
}

pub ghost enum AmbiguousValueV {
    Bool(bool),
    Str(Seq<char>),
    StringArray(Seq<Seq<char>>),
    Number(i64),
    Object(Seq<(Seq<char>, ObjectValueV)>),
    Array2(i64, i64),
    Array3(i64, i64, i64),
    Array4(i64, i64, i64, i64),
    Array12(crate::value::CFrameComps),
    Array2Array2(Vec2Val, Vec2Val),
    Array3Array2(Vec3Val, Vec3Val),
    Attributes(Seq<(Seq<char>, AttrValueV)>),
    Font(FontValV),
    MaterialColors(Seq<(Seq<char>, Color3u8Val)>),
    ColorSequence(Seq<ColorKeypoint>),
    NumberSequence(Seq<NumberKeypoint>),
    PhysicalProperties(PhysProps),
    Ray(RayVal),
}

impl View for AmbiguousValue {
    type V = AmbiguousValueV;

    open spec fn view(&self) -> AmbiguousValueV {
        match self {
            AmbiguousValue::Bool(b) => AmbiguousValueV::Bool(*b),
            AmbiguousValue::Str(s) => AmbiguousValueV::Str(s@),
            AmbiguousValue::StringArray(v) => AmbiguousValueV::StringArray(strings_view(v@)),
            AmbiguousValue::Number(n) => AmbiguousValueV::Number(*n),
            AmbiguousValue::Object(m) => AmbiguousValueV::Object(pairs_view(m@)),
            AmbiguousValue::Array2(a, b) => AmbiguousValueV::Array2(*a, *b),
            AmbiguousValue::Array3(a, b, c) => AmbiguousValueV::Array3(*a, *b, *c),
            AmbiguousValue::Array4(a, b, c, d) => AmbiguousValueV::Array4(*a, *b, *c, *d),
            AmbiguousValue::Array12(c) => AmbiguousValueV::Array12(*c),
            AmbiguousValue::Array2Array2(a, b) => AmbiguousValueV::Array2Array2(*a, *b),
            AmbiguousValue::Array3Array2(a, b) => AmbiguousValueV::Array3Array2(*a, *b),
            AmbiguousValue::Attributes(v) => AmbiguousValueV::Attributes(pairs_view(v@)),
            AmbiguousValue::Font(f) => AmbiguousValueV::Font(f@),
            AmbiguousValue::MaterialColors(v) => AmbiguousValueV::MaterialColors(pairs_view(v@)),
            AmbiguousValue::ColorSequence(v) => AmbiguousValueV::ColorSequence(v@),
            AmbiguousValue::NumberSequence(v) => AmbiguousValueV::NumberSequence(v@),
            AmbiguousValue::PhysicalProperties(p) => AmbiguousValueV::PhysicalProperties(*p),
            AmbiguousValue::Ray(r) => AmbiguousValueV::Ray(*r),
        }
    }
}

/// A loose value as it stands in a document: either already the engine's
/// exact type, or one of the ambiguous shapes.
#[derive(Debug, PartialEq)]
pub enum UnresolvedValue {
    FullyQualified(TypedValue),
    Ambiguous(AmbiguousValue),
}

pub ghost enum UnresolvedValueV {
    FullyQualified(TypedValueV),
    Ambiguous(AmbiguousValueV),
}

impl View for UnresolvedValue {
    type V = UnresolvedValueV;

    open spec fn view(&self) -> UnresolvedValueV {
        match self {
            UnresolvedValue::FullyQualified(v) => UnresolvedValueV::FullyQualified(v@),
            UnresolvedValue::Ambiguous(v) => UnresolvedValueV::Ambiguous(v@),
        }
    }
}

fn clone_attr_pairs(v: &Vec<(String, AttrValue)>) -> (r: Vec<(String, AttrValue)>)
    ensures
        pairs_view(r@) == pairs_view(v@),
{
    let mut r: Vec<(String, AttrValue)> = Vec::new();
    let mut i: usize = 0;
    while i < v.len()
        invariant
            i <= v.len(),
            r@.len() == i,
            forall|j: int| 0 <= j < i ==> (#[trigger] r@[j]).0@ == v@[j].0@ && r@[j].1@ == v@[j].1@,
        decreases v.len() - i,
    {
        let (name, val) = &v[i];
        r.push((name.clone(), val.clone()));
        i += 1;
    }
    proof {
        assert(pairs_view(r@) =~= pairs_view(v@));
    }
    r
}

fn clone_color_pairs(v: &Vec<(String, Color3u8Val)>) -> (r: Vec<(String, Color3u8Val)>)
    ensures
        pairs_view(r@) == pairs_view(v@),
{
    let mut r: Vec<(String, Color3u8Val)> = Vec::new();
    let mut i: usize = 0;
    while i < v.len()
        invariant
            i <= v.len(),
            r@.len() == i,
            forall|j: int| 0 <= j < i ==> (#[trigger] r@[j]).0@ == v@[j].0@ && r@[j].1@ == v@[j].1@,
        decreases v.len() - i,
    {
        let (name, val) = &v[i];
        r.push((name.clone(), *val));
        i += 1;
    }
    proof {
        assert(pairs_view(r@) =~= pairs_view(v@));
    }
    r
}

fn clone_object_pairs(v: &Vec<(String, ObjectValue)>) -> (r: Vec<(String, ObjectValue)>)
    ensures
        pairs_view(r@) == pairs_view(v@),
{
    let mut r: Vec<(String, ObjectValue)> = Vec::new();
    let mut i: usize = 0;
    while i < v.len()
        invariant
            i <= v.len(),
            r@.len() == i,
            forall|j: int| 0 <= j < i ==> (#[trigger] r@[j]).0@ == v@[j].0@ && r@[j].1@ == v@[j].1@,
        decreases v.len() - i,
    {
        let (name, val) = &v[i];
        r.push((name.clone(), val.clone()));
        i += 1;
    }
    proof {
        assert(pairs_view(r@) =~= pairs_view(v@));
    }
    r
}

impl Clone for AmbiguousValue {
    fn clone(&self) -> (r: Self)
        ensures
            r@ == self@,
    {
        match self {
            AmbiguousValue::Bool(b) => AmbiguousValue::Bool(*b),
            AmbiguousValue::Str(s) => AmbiguousValue::Str(s.clone()),
            AmbiguousValue::StringArray(v) => AmbiguousValue::StringArray(clone_strings(v)),
            AmbiguousValue::Number(n) => AmbiguousValue::Number(*n),
            AmbiguousValue::Object(m) => AmbiguousValue::Object(clone_object_pairs(m)),
            AmbiguousValue::Array2(a, b) => AmbiguousValue::Array2(*a, *b),
            AmbiguousValue::Array3(a, b, c) => AmbiguousValue::Array3(*a, *b, *c),
            AmbiguousValue::Array4(a, b, c, d) => AmbiguousValue::Array4(*a, *b, *c, *d),
            AmbiguousValue::Array12(c) => AmbiguousValue::Array12(*c),
            AmbiguousValue::Array2Array2(a, b) => AmbiguousValue::Array2Array2(*a, *b),
            AmbiguousValue::Array3Array2(a, b) => AmbiguousValue::Array3Array2(*a, *b),
            AmbiguousValue::Attributes(v) => AmbiguousValue::Attributes(clone_attr_pairs(v)),
            AmbiguousValue::Font(f) => AmbiguousValue::Font(f.clone()),
            AmbiguousValue::MaterialColors(v) => AmbiguousValue::MaterialColors(clone_color_pairs(v)),
            AmbiguousValue::ColorSequence(v) => AmbiguousValue::ColorSequence(v.clone()),
            AmbiguousValue::NumberSequence(v) => AmbiguousValue::NumberSequence(v.clone()),
            AmbiguousValue::PhysicalProperties(p) => AmbiguousValue::PhysicalProperties(*p),
            AmbiguousValue::Ray(r) => AmbiguousValue::Ray(*r),
        }
    }
}

impl Clone for UnresolvedValue {
    fn clone(&self) -> (r: Self)
        ensures
            r@ == self@,
    {
        match self {
            UnresolvedValue::FullyQualified(v) => UnresolvedValue::FullyQualified(v.clone()),
            UnresolvedValue::Ambiguous(v) => UnresolvedValue::Ambiguous(v.clone()),
        }
    }
}

impl DeepClone for UnresolvedValue {
    fn deep_clone(&self) -> (r: Self)
        ensures
            r@ == self@,
    {
        self.clone()
    }
}

impl UnresolvedValue {
    /// The string carried by an ambiguous string value, if that is the shape.
    pub fn as_str(&self) -> (r: Option<&String>)
        ensures
            match r {
                Some(s) => self@ == UnresolvedValueV::Ambiguous(AmbiguousValueV::Str(s@)),
                None => forall|s: Seq<char>| self@ != UnresolvedValueV::Ambiguous(
                    AmbiguousValueV::Str(s),
                ),
            },
    {
        match self {
            UnresolvedValue::Ambiguous(AmbiguousValue::Str(s)) => Some(s),
            _ => None,
        }
    }
}


/// Well-formedness of the numeric components of a loose value: each is
/// within the codec's clamp range (see [`crate::micros_wf`]).
pub open spec fn ambiguous_wf(v: AmbiguousValueV) -> bool {
    match v {
        AmbiguousValueV::Number(m) => crate::micros_wf(m),
        AmbiguousValueV::Array2(a, b) => crate::micros_wf(a) && crate::micros_wf(b),
        AmbiguousValueV::Array3(a, b, c) => crate::micros_wf(a) && crate::micros_wf(b)
            && crate::micros_wf(c),
        AmbiguousValueV::Array4(a, b, c, d) => crate::micros_wf(a) && crate::micros_wf(b)
            && crate::micros_wf(c) && crate::micros_wf(d),
        AmbiguousValueV::Array12(cf) => crate::micros_wf(cf.px) && crate::micros_wf(cf.py)
            && crate::micros_wf(cf.pz) && crate::micros_wf(cf.r00) && crate::micros_wf(cf.r01)
            && crate::micros_wf(cf.r02) && crate::micros_wf(cf.r10) && crate::micros_wf(cf.r11)
            && crate::micros_wf(cf.r12) && crate::micros_wf(cf.r20) && crate::micros_wf(cf.r21)
            && crate::micros_wf(cf.r22),
        AmbiguousValueV::Array2Array2(a, b) => crate::micros_wf(a.x) && crate::micros_wf(a.y)
            && crate::micros_wf(b.x) && crate::micros_wf(b.y),
        AmbiguousValueV::Array3Array2(a, b) => crate::micros_wf(a.x) && crate::micros_wf(a.y)
            && crate::micros_wf(a.z) && crate::micros_wf(b.x) && crate::micros_wf(b.y)
            && crate::micros_wf(b.z),
        _ => true,
    }
}

} // verus!
