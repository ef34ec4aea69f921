//! The property codec: resolving loose values, reversing typed ones, and
//! the diagnostics on the way.

use syncback::alist::AList;
use syncback::ambiguous::{AmbiguousValue, ObjectValue, UnresolvedValue};
use syncback::reflect::{ClassDesc, EnumDesc, PropType, ReflectionDb, ValueKind};
use syncback::resolution::ResolveError;
use syncback::text::{list_examples, u64_to_string};
use syncback::value::{AttrValue, TypedValue, Vec2Val, Vec3Val};

fn prop_list(pairs: Vec<(&str, PropType)>) -> AList<PropType> {
    AList {
        entries: pairs.into_iter().map(|(k, v)| (k.to_string(), v)).collect(),
    }
}

fn test_db() -> ReflectionDb {
    let part = ClassDesc {
        superclass: Some("Instance".to_string()),
        properties: prop_list(vec![
            ("Anchored", PropType::Value(ValueKind::Bool)),
            ("Material", PropType::Enum("Material".to_string())),
            ("Size", PropType::Value(ValueKind::Vector3)),
            ("Position", PropType::Value(ValueKind::Vector2)),
            ("Transparency", PropType::Value(ValueKind::Float64)),
            ("Count", PropType::Value(ValueKind::Int32)),
            ("Color", PropType::Value(ValueKind::Color3)),
            ("BrickColor", PropType::Value(ValueKind::BrickColor)),
            ("Axes", PropType::Value(ValueKind::Axes)),
        ]),
    };
    let instance = ClassDesc {
        superclass: None,
        properties: prop_list(vec![
            ("Name", PropType::Value(ValueKind::Str)),
            ("Tags", PropType::Value(ValueKind::Tags)),
            ("Attributes", PropType::Value(ValueKind::Attributes)),
        ]),
    };
    let material = EnumDesc {
        items: vec![
            ("Concrete".to_string(), 816),
            ("Grass".to_string(), 1280),
            ("Metal".to_string(), 1088),
            ("Plastic".to_string(), 256),
            ("Sand".to_string(), 1296),
            ("Slate".to_string(), 800),
            ("Wood".to_string(), 512),
        ],
    };
    ReflectionDb {
        classes: AList {
            entries: vec![
                ("Part".to_string(), part),
                ("Instance".to_string(), instance),
            ],
        },
        enums: AList {
            entries: vec![("Material".to_string(), material)],
        },
        services: vec!["Workspace".to_string(), "Lighting".to_string()],
        brick_colors: vec![
            ("Bright red".to_string(), 21),
            ("Bright blue".to_string(), 23),
        ],
    }
}

#[test]
fn resolves_bool_for_declared_property() {
    let db = test_db();
    let v = AmbiguousValue::Bool(true);
    let r = v
        .resolve(&db, &"Part".to_string(), &"Anchored".to_string())
        .unwrap();
    assert_eq!(r, TypedValue::Bool(true));
}

#[test]
fn resolves_property_through_superclass_chain() {
    let db = test_db();
    let v = AmbiguousValue::Str("Thing".to_string());
    let r = v
        .resolve(&db, &"Part".to_string(), &"Name".to_string())
        .unwrap();
    assert_eq!(r, TypedValue::Str("Thing".to_string()));
}

#[test]
fn resolves_enum_member_by_name() {
    let db = test_db();
    let v = AmbiguousValue::Str("Wood".to_string());
    let r = v
        .resolve(&db, &"Part".to_string(), &"Material".to_string())
        .unwrap();
    assert_eq!(r, TypedValue::EnumItem(512));
}

#[test]
fn enum_error_lists_five_members_and_a_count() {
    let db = test_db();
    let v = AmbiguousValue::Str("Cheese".to_string());
    let e = v
        .resolve(&db, &"Part".to_string(), &"Material".to_string())
        .unwrap_err();
    match e {
        ResolveError::InvalidEnumMember { got, examples, .. } => {
            assert_eq!(got, "Cheese");
            assert_eq!(examples, "Concrete, Grass, Metal, Plastic, Sand, or 2 more");
        }
        other => panic!("unexpected error {:?}", other),
    }
}

#[test]
fn unknown_property_is_an_error() {
    let db = test_db();
    let v = AmbiguousValue::Bool(true);
    let e = v
        .resolve(&db, &"Part".to_string(), &"Nonsense".to_string())
        .unwrap_err();
    assert!(matches!(e, ResolveError::UnknownProperty { .. }));
}

#[test]
fn wrong_shape_is_an_error() {
    let db = test_db();
    let v = AmbiguousValue::Str("true".to_string());
    let e = v
        .resolve(&db, &"Part".to_string(), &"Anchored".to_string())
        .unwrap_err();
    match e {
        ResolveError::WrongShape { expected, got, .. } => {
            assert_eq!(expected, ValueKind::Bool);
            assert_eq!(got, "a string");
        }
        other => panic!("unexpected error {:?}", other),
    }
}

#[test]
fn number_resolves_to_int_by_truncation() {
    let db = test_db();
    // 7.9 in millionths truncates toward zero.
    let v = AmbiguousValue::Number(7_900_000);
    let r = v
        .resolve(&db, &"Part".to_string(), &"Count".to_string())
        .unwrap();
    assert_eq!(r, TypedValue::Int32(7));
}

#[test]
fn negative_numbers_truncate_toward_zero() {
    let db = test_db();
    let v = AmbiguousValue::Number(-7_900_000);
    let r = v
        .resolve(&db, &"Part".to_string(), &"Count".to_string())
        .unwrap();
    assert_eq!(r, TypedValue::Int32(-7));
}

#[test]
fn vector3_resolves_from_three_numbers() {
    let db = test_db();
    let v = AmbiguousValue::Array3(1_000_000, 2_000_000, 3_500_000);
    let r = v
        .resolve(&db, &"Part".to_string(), &"Size".to_string())
        .unwrap();
    assert_eq!(
        r,
        TypedValue::Vector3(Vec3Val {
            x: 1_000_000,
            y: 2_000_000,
            z: 3_500_000
        })
    );
}

#[test]
fn axes_resolve_to_bits_and_reject_unknown_names() {
    let db = test_db();
    let ok = AmbiguousValue::StringArray(vec!["X".to_string(), "Z".to_string()])
        .resolve(&db, &"Part".to_string(), &"Axes".to_string())
        .unwrap();
    assert_eq!(ok, TypedValue::Axes(5));
    let err = AmbiguousValue::StringArray(vec!["X".to_string(), "W".to_string()])
        .resolve(&db, &"Part".to_string(), &"Axes".to_string())
        .unwrap_err();
    match err {
        ResolveError::InvalidAxis { axis } => assert_eq!(axis, "W"),
        other => panic!("unexpected error {:?}", other),
    }
}

#[test]
fn brick_colors_accept_name_or_number() {
    let db = test_db();
    let by_name = AmbiguousValue::Str("Bright red".to_string())
        .resolve(&db, &"Part".to_string(), &"BrickColor".to_string())
        .unwrap();
    assert_eq!(by_name, TypedValue::BrickColor(21));
    let by_number = AmbiguousValue::Number(23_000_000)
        .resolve(&db, &"Part".to_string(), &"BrickColor".to_string())
        .unwrap();
    assert_eq!(by_number, TypedValue::BrickColor(23));
    let bad = AmbiguousValue::Number(99_000_000)
        .resolve(&db, &"Part".to_string(), &"BrickColor".to_string())
        .unwrap_err();
    assert!(matches!(bad, ResolveError::InvalidColorNumber { number: 99 }));
}

#[test]
fn attributes_resolve_from_a_generic_object() {
    let db = test_db();
    let v = AmbiguousValue::Object(vec![
        ("Health".to_string(), ObjectValue::Number(100_000_000)),
        ("Alive".to_string(), ObjectValue::Bool(true)),
    ]);
    let r = v
        .resolve(&db, &"Part".to_string(), &"Attributes".to_string())
        .unwrap();
    assert_eq!(
        r,
        TypedValue::Attributes(vec![
            ("Health".to_string(), AttrValue::Number(100_000_000)),
            ("Alive".to_string(), AttrValue::Bool(true)),
        ])
    );
}

#[test]
fn round_trip_enum_number_and_vector() {
    // Reversing a resolved value reproduces the loose value: the round-trip
    // law, checked here on concrete shapes.
    let db = test_db();
    let part = "Part".to_string();
    let cases: Vec<(&str, AmbiguousValue)> = vec![
        ("Material", AmbiguousValue::Str("Grass".to_string())),
        ("Anchored", AmbiguousValue::Bool(false)),
        ("Transparency", AmbiguousValue::Number(250_000)),
        ("Count", AmbiguousValue::Number(42_000_000)),
        ("Size", AmbiguousValue::Array3(1_000_000, 0, -2_000_000)),
        ("Position", AmbiguousValue::Array2(5_500_000, -1_000_000)),
        ("Name", AmbiguousValue::Str("A".to_string())),
        (
            "Tags",
            AmbiguousValue::StringArray(vec!["x".to_string(), "y".to_string()]),
        ),
    ];
    for (prop, loose) in cases {
        let tv = loose
            .clone()
            .resolve(&db, &part, &prop.to_string())
            .unwrap();
        let back = UnresolvedValue::from_variant(tv, &db, &part, &prop.to_string());
        assert_eq!(back, UnresolvedValue::Ambiguous(loose), "property {}", prop);
    }
}

#[test]
fn round_trip_fails_only_modulo_truncation() {
    // A fractional number into an integer property is the lossy case the
    // round-trip law excludes: reversing gives the truncated value back.
    let db = test_db();
    let part = "Part".to_string();
    let loose = AmbiguousValue::Number(7_900_000);
    let tv = loose
        .clone()
        .resolve(&db, &part, &"Count".to_string())
        .unwrap();
    let back = UnresolvedValue::from_variant(tv, &db, &part, &"Count".to_string());
    assert_eq!(back, UnresolvedValue::Ambiguous(AmbiguousValue::Number(7_000_000)));
}

#[test]
fn reverse_keeps_undocumented_enum_fully_qualified() {
    let db = test_db();
    let back = UnresolvedValue::from_variant(
        TypedValue::EnumItem(99999),
        &db,
        &"Part".to_string(),
        &"Material".to_string(),
    );
    assert_eq!(back, UnresolvedValue::FullyQualified(TypedValue::EnumItem(99999)));
}

#[test]
fn resolve_unambiguous_accepts_scalars_only() {
    assert_eq!(
        AmbiguousValue::Bool(true).resolve_unambiguous().unwrap(),
        TypedValue::Bool(true)
    );
    assert_eq!(
        AmbiguousValue::Number(5).resolve_unambiguous().unwrap(),
        TypedValue::Float64(5)
    );
    let err = AmbiguousValue::Array2(1, 2).resolve_unambiguous().unwrap_err();
    assert!(matches!(err, ResolveError::NotUnambiguous { .. }));
}

#[test]
fn unresolved_as_str_sees_only_loose_strings() {
    let s = UnresolvedValue::Ambiguous(AmbiguousValue::Str("hi".to_string()));
    assert_eq!(s.as_str(), Some(&"hi".to_string()));
    let n = UnresolvedValue::Ambiguous(AmbiguousValue::Number(1));
    assert_eq!(n.as_str(), None);
    let f = UnresolvedValue::FullyQualified(TypedValue::Str("hi".to_string()));
    assert_eq!(f.as_str(), None);
}

#[test]
fn decimal_rendering_is_exact() {
    assert_eq!(u64_to_string(0), "0");
    assert_eq!(u64_to_string(7), "7");
    assert_eq!(u64_to_string(10), "10");
    assert_eq!(u64_to_string(90210), "90210");
}

#[test]
fn example_lists_match_the_documented_shape() {
    let two = vec!["A".to_string(), "B".to_string()];
    assert_eq!(list_examples(&two), "A, or B");
    let six = vec![
        "A".to_string(),
        "B".to_string(),
        "C".to_string(),
        "D".to_string(),
        "E".to_string(),
        "F".to_string(),
    ];
    assert_eq!(list_examples(&six), "A, B, C, D, E, or 1 more");
}

#[test]
fn describe_names_the_loose_shape() {
    assert_eq!(AmbiguousValue::Bool(true).describe(), "a bool");
    assert_eq!(
        AmbiguousValue::Array2Array2(
            Vec2Val { x: 0, y: 0 },
            Vec2Val { x: 0, y: 0 }
        )
        .describe(),
        "an array of two arrays of two numbers"
    );
}

#[test]
fn error_messages_carry_their_context() {
    let e = ResolveError::UnknownProperty {
        class: "Part".to_string(),
        property: "Foo".to_string(),
    };
    assert_eq!(e.message(), "Unknown property Part.Foo");
}
