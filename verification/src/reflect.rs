//! The reflection database: static class, property, enum and color
//! information that guides the property codec. The database is plain data,
//! loaded once by the embedding layer and passed through the inherited
//! context.

use vstd::prelude::*;

use crate::alist::{AList, DeepClone};

verus! {

/// The exact engine type a property can have.
#[derive(Debug, PartialEq, Eq, Structural, Clone, Copy)]
pub enum ValueKind {
    Attributes,
    Axes,
    BinaryString,
    Bool,
    BrickColor,
    CFrame,
    Color3,
    Color3uint8,
    ColorSequence,
    Content,
    Faces,
    Float32,
    Float64,
    Font,
    Int32,
    Int64,
    MaterialColors,
    NumberRange,
    NumberSequence,
    OptionalCFrame,
    PhysicalProperties,
    Ray,
    Rect,
    Region3,
    Region3int16,
    SharedString,
    Str,
    Tags,
    UDim,
    UDim2,
    Vector2,
    Vector2int16,
    Vector3,
    Vector3int16,
}

impl View for ValueKind {
    type V = ValueKind;

    open spec fn view(&self) -> ValueKind {
        *self
    }
}

/// A property's declared data type: an enumerated type by name, or a value
/// type.
#[derive(Debug, PartialEq)]
pub enum PropType {
    Enum(String),
    Value(ValueKind),
}

pub ghost enum PropTypeV {
    Enum(Seq<char>),
    Value(ValueKind),
}

impl View for PropType {
    type V = PropTypeV;

    open spec fn view(&self) -> PropTypeV {
        match self {
            PropType::Enum(s) => PropTypeV::Enum(s@),
            PropType::Value(k) => PropTypeV::Value(*k),
        }
    }
}

impl Clone for PropType {
    fn clone(&self) -> (r: Self)
        ensures
            r@ == self@,
    {
        match self {
            PropType::Enum(s) => PropType::Enum(s.clone()),
            PropType::Value(k) => PropType::Value(*k),
        }
    }
}

impl DeepClone for PropType {
    fn deep_clone(&self) -> (r: Self)
        ensures
            r@ == self@,
    {
        self.clone()
    }
}

/// One class: its superclass, and its own properties' declared types.
#[derive(Debug, PartialEq)]
pub struct ClassDesc {
    pub superclass: Option<String>,
    pub properties: AList<PropType>,
}

pub ghost struct ClassDescV {
    pub superclass: Option<Seq<char>>,
    pub properties: Map<Seq<char>, PropTypeV>,
}

impl View for ClassDesc {
    type V = ClassDescV;

    open spec fn view(&self) -> ClassDescV {
        ClassDescV {
            superclass: crate::project::opt_string_view(self.superclass),
            properties: self.properties@,
        }
    }
}

impl ClassDesc {
    pub fn clone_class(&self) -> (r: Self)
        ensures
            r@ == self@,
            r.properties.pairs() == self.properties.pairs(),
    {
        let r = ClassDesc {
            superclass: crate::datafile::clone_opt_string(&self.superclass),
            properties: self.properties.deep_clone(),
        };
        proof {
            assert(r@ =~= self@);
        }
        r
    }
}

/// Lexicographic order on names, by character value.
pub open spec fn spec_lex_le(a: Seq<char>, b: Seq<char>) -> bool
    decreases a.len(),
{
    if a.len() == 0 {
        true
    } else if b.len() == 0 {
        false
    } else if (a[0] as int) < (b[0] as int) {
        true
    } else if (a[0] as int) > (b[0] as int) {
        false
    } else {
        spec_lex_le(a.drop_first(), b.drop_first())
    }
}

/// A name list in lexicographic order.
pub open spec fn spec_names_sorted(names: Seq<Seq<char>>) -> bool {
    forall|i: int, j: int| 0 <= i < j < names.len() ==> spec_lex_le(
        #[trigger] names[i],
        #[trigger] names[j],
    )
}

/// Law: in a well-formed database every enumerated type's member names
/// stand in lexicographic order, so a diagnostic that lists them in stored
/// order lists them sorted.
pub proof fn lemma_enum_names_sorted(db: &ReflectionDb, name: Seq<char>)
    requires
        db.wf(),
        db@.enums.contains_key(name),
    ensures
        spec_names_sorted(db@.enums[name].items.map_values(|p: (Seq<char>, u32)| p.0)),
{
    crate::alist::lemma_map_of_pairs_dom(db.enums.pairs(), name);
    let i = choose|i: int|
        0 <= i < db.enums.pairs().len() && (#[trigger] db.enums.pairs()[i]).0 == name;
    crate::alist::lemma_map_of_pairs_find(db.enums.pairs(), i);
    assert(db@.enums[name] == db.enums.entries@[i].1@);
}

/// One enumerated type: its members in lexicographic name order, each with
/// its numeric value; diagnostics list members in this stored order, so
/// the order is part of the database's well-formedness.
#[derive(Debug, PartialEq)]
pub struct EnumDesc {
    pub items: Vec<(String, u32)>,
}

pub ghost struct EnumDescV {
    pub items: Seq<(Seq<char>, u32)>,
}

impl View for EnumDesc {
    type V = EnumDescV;

    open spec fn view(&self) -> EnumDescV {
        EnumDescV { items: crate::alist::pairs_view(self.items@) }
    }
}

impl DeepClone for EnumDesc {
    fn deep_clone(&self) -> (r: Self)
        ensures
            r@ == self@,
    {
        let mut items: Vec<(String, u32)> = Vec::new();
        let mut i: usize = 0;
        while i < self.items.len()
            invariant
                i <= self.items@.len(),
                items@.len() == i,
                forall|j: int| 0 <= j < i ==> (#[trigger] items@[j]).0@ == self.items@[j].0@
                    && items@[j].1 == self.items@[j].1,
            decreases self.items@.len() - i,
        {
            let (name, id) = &self.items[i];
            items.push((name.clone(), *id));
            i += 1;
        }
        let r = EnumDesc { items };
        proof {
            assert(r@.items =~= self@.items);
        }
        r
    }
}

/// The reflection database: classes, enums, the service class names, and
/// the named-color catalog.
#[derive(Debug, PartialEq)]
pub struct ReflectionDb {
    pub classes: AList<ClassDesc>,
    pub enums: AList<EnumDesc>,
    pub services: Vec<String>,
    pub brick_colors: Vec<(String, u16)>,
}

pub ghost struct ReflectionDbV {
    pub classes: Map<Seq<char>, ClassDescV>,
    pub enums: Map<Seq<char>, EnumDescV>,
    pub services: Seq<Seq<char>>,
    pub brick_colors: Seq<(Seq<char>, u16)>,
}

impl View for ReflectionDb {
    type V = ReflectionDbV;

    open spec fn view(&self) -> ReflectionDbV {
        ReflectionDbV {
            classes: self.classes@,
            enums: self.enums@,
            services: crate::alist::strings_view(self.services@),
            brick_colors: crate::alist::pairs_view(self.brick_colors@),
        }
    }
}

impl ReflectionDb {
    /// A database with nothing in it.
    pub fn empty() -> (r: ReflectionDb)
        ensures
            r.wf(),
            r@.classes == Map::<Seq<char>, ClassDescV>::empty(),
            r@.enums == Map::<Seq<char>, EnumDescV>::empty(),
            r@.services == Seq::<Seq<char>>::empty(),
            r@.brick_colors == Seq::<(Seq<char>, u16)>::empty(),
    {
        let r = ReflectionDb {
            classes: AList::new(),
            enums: AList::new(),
            services: Vec::new(),
            brick_colors: Vec::new(),
        };
        proof {
            assert(r@.services =~= Seq::<Seq<char>>::empty());
            assert(r@.brick_colors =~= Seq::<(Seq<char>, u16)>::empty());
        }
        r
    }

    /// Well-formedness: the name-keyed maps have unique keys, each class's
    /// property list does too, and each enum's members are stored in
    /// lexicographic name order.
    pub open spec fn wf(&self) -> bool {
        &&& self.classes.wf()
        &&& self.enums.wf()
        &&& forall|i: int| 0 <= i < self.classes.entries@.len() ==> (#[trigger] self.classes
            .entries@[i]).1.properties.wf()
        &&& forall|i: int| 0 <= i < self.enums.entries@.len() ==> spec_names_sorted(
            (#[trigger] self.enums.entries@[i]).1@.items.map_values(
                |p: (Seq<char>, u32)| p.0,
            ),
        )
    }

    pub fn clone_db(&self) -> (r: ReflectionDb)
        ensures
            r@ == self@,
            self.wf() ==> r.wf(),
    {
        let mut brick_colors: Vec<(String, u16)> = Vec::new();
        let mut i: usize = 0;
        while i < self.brick_colors.len()
            invariant
                i <= self.brick_colors@.len(),
                brick_colors@.len() == i,
                forall|j: int| 0 <= j < i ==> (#[trigger] brick_colors@[j]).0@
                    == self.brick_colors@[j].0@ && brick_colors@[j].1 == self.brick_colors@[j].1,
            decreases self.brick_colors@.len() - i,
        {
            let (name, id) = &self.brick_colors[i];
            brick_colors.push((name.clone(), *id));
            i += 1;
        }
        let mut centries: Vec<(String, ClassDesc)> = Vec::new();
        let mut k: usize = 0;
        while k < self.classes.entries.len()
            invariant
                k <= self.classes.entries@.len(),
                centries@.len() == k,
                forall|j: int| 0 <= j < k ==> (#[trigger] centries@[j]).0@
                    == self.classes.entries@[j].0@ && centries@[j].1@
                    == self.classes.entries@[j].1@ && centries@[j].1.properties.pairs()
                    == self.classes.entries@[j].1.properties.pairs(),
            decreases self.classes.entries@.len() - k,
        {
            let (name, class) = &self.classes.entries[k];
            centries.push((name.clone(), class.clone_class()));
            k += 1;
        }
        let classes = AList { entries: centries };
        let r = ReflectionDb {
            classes,
            enums: self.enums.deep_clone(),
            services: crate::value::clone_strings(&self.services),
            brick_colors,
        };
        proof {
            assert(r.classes.pairs() =~= self.classes.pairs());
            assert(r@.brick_colors =~= self@.brick_colors);
            assert(r@ =~= self@);
            assert(r.classes.wf() == self.classes.wf());
            assert(r.enums.wf() == self.enums.wf());
            if self.wf() {
                assert(forall|i: int| 0 <= i < r.classes.entries@.len() ==> (#[trigger] r.classes
                    .entries@[i]).1.properties.wf());
                assert forall|i: int| 0 <= i < r.enums.entries@.len() implies spec_names_sorted(
                    (#[trigger] r.enums.entries@[i]).1@.items.map_values(
                        |p: (Seq<char>, u32)| p.0,
                    ),
                ) by {
                    assert(r.enums.pairs()[i] == self.enums.pairs()[i]);
                    assert(r.enums.entries@[i].1@ == self.enums.entries@[i].1@);
                }
            }
        }
        r
    }

    /// Whether a class name names a service.
    pub fn is_service(&self, name: &String) -> (r: bool)
        ensures
            r == self@.services.contains(name@),
    {
        let mut i: usize = 0;
        while i < self.services.len()
            invariant
                i <= self.services@.len(),
                forall|j: int| 0 <= j < i ==> self@.services[j] != name@,
            decreases self.services@.len() - i,
        {
            if self.services[i] == *name {
                proof {
                    assert(self@.services[i as int] == name@);
                }
                return true;
            }
            proof {
                assert(self@.services[i as int] != name@);
            }
            i += 1;
        }
        false
    }

    /// The color number for a color name, if the catalog has it.
    pub fn brick_color_by_name(&self, name: &String) -> (r: Option<u16>)
        ensures
            r == spec_brick_color_by_name(self@.brick_colors, name@),
    {
        let mut i: usize = 0;
        proof {
            assert(self@.brick_colors.skip(0) =~= self@.brick_colors);
        }
        while i < self.brick_colors.len()
            invariant
                i <= self.brick_colors@.len(),
                spec_brick_color_by_name(self@.brick_colors, name@) == spec_brick_color_by_name(
                    self@.brick_colors.skip(i as int),
                    name@,
                ),
            decreases self.brick_colors@.len() - i,
        {
            proof {
                assert(self@.brick_colors.skip(i as int)[0] == self@.brick_colors[i as int]);
                assert(self@.brick_colors.skip(i as int).drop_first() =~= self@.brick_colors.skip(
                    i as int + 1,
                ));
            }
            if self.brick_colors[i].0 == *name {
                return Some(self.brick_colors[i].1);
            }
            i += 1;
        }
        None
    }

    /// Whether a color number is in the catalog.
    pub fn brick_color_number_valid(&self, number: u16) -> (r: bool)
        ensures
            r == spec_brick_color_number_valid(self@.brick_colors, number),
    {
        let mut i: usize = 0;
        while i < self.brick_colors.len()
            invariant
                i <= self.brick_colors@.len(),
                forall|j: int| 0 <= j < i ==> (#[trigger] self@.brick_colors[j]).1 != number,
            decreases self.brick_colors@.len() - i,
        {
            if self.brick_colors[i].1 == number {
                proof {
                    assert(self@.brick_colors[i as int].1 == number);
                }
                return true;
            }
            proof {
                assert(self@.brick_colors[i as int].1 != number);
            }
            i += 1;
        }
        false
    }

    /// Walk the superclass chain to find the declared type of a property,
    /// as the codec does; the walk gives up after as many steps as there are
    /// classes, so a malformed chain cannot loop.
    pub fn find_descriptor(&self, class: &String, property: &String) -> (r: Option<PropType>)
        requires
            self.wf(),
        ensures
            match r {
                Some(t) => spec_find_descriptor(
                    self@,
                    class@,
                    property@,
                    self@.classes.dom().len(),
                ) == Some(t@),
                None => spec_find_descriptor(
                    self@,
                    class@,
                    property@,
                    self@.classes.dom().len(),
                ) is None,
            },
    {
        let mut fuel: usize = self.classes.len();
        let mut current: String = class.clone();
        proof {
            crate::alist::lemma_unique_dom_len(self.classes.pairs());
        }
        while fuel > 0
            invariant
                self.wf(),
                fuel <= self@.classes.dom().len(),
                spec_find_descriptor(self@, class@, property@, self@.classes.dom().len())
                    == spec_find_descriptor(self@, current@, property@, fuel as nat),
            decreases fuel,
        {
            let desc = self.classes.get(&current);
            match desc {
                Some(c) => {
                    match c.properties.get(property) {
                        Some(t) => {
                            return Some(t.clone());
                        }
                        None => {
                            match &c.superclass {
                                Some(s) => {
                                    current = s.clone();
                                    fuel -= 1;
                                }
                                None => {
                                    return None;
                                }
                            }
                        }
                    }
                }
                None => {
                    return None;
                }
            }
        }
        None
    }
}

/// The color number under a color name.
pub open spec fn spec_brick_color_by_name(
    catalog: Seq<(Seq<char>, u16)>,
    name: Seq<char>,
) -> Option<u16>
    decreases catalog.len(),
{
    if catalog.len() == 0 {
        None
    } else if catalog[0].0 == name {
        Some(catalog[0].1)
    } else {
        spec_brick_color_by_name(catalog.drop_first(), name)
    }
}

/// Whether the catalog holds the color number.
pub open spec fn spec_brick_color_number_valid(
    catalog: Seq<(Seq<char>, u16)>,
    number: u16,
) -> bool {
    exists|i: int| 0 <= i < catalog.len() && (#[trigger] catalog[i]).1 == number
}

/// The declared type of `class`.`property`, walking the superclass chain
/// with bounded fuel.
pub open spec fn spec_find_descriptor(
    db: ReflectionDbV,
    class: Seq<char>,
    property: Seq<char>,
    fuel: nat,
) -> Option<PropTypeV>
    decreases fuel,
{
    if fuel == 0 {
        None
    } else if !db.classes.contains_key(class) {
        None
    } else {
        let c = db.classes[class];
        if c.properties.contains_key(property) {
            Some(c.properties[property])
        } else {
            match c.superclass {
                Some(s) => spec_find_descriptor(db, s, property, (fuel - 1) as nat),
                None => None,
            }
        }
    }
}

} // verus!
