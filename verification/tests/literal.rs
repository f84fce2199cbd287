use confique::literal::{
    default_value_to_meta_expr, float_type_to_variant, get_array_item_type, get_map_entry_types,
    infer_type, int_type_to_variant, Lit, Literal, NumberKind, TypeArg, TypeHint,
};
use confique::internal::{deserialize_default, ArrayIntoDeserializer, MapIntoDeserializer};
use confique::meta::{
    Expr, Float, FloatType, IntType, Integer, LeafType, MapEntry, MapKey, ScalarType,
};

fn path(name: &str) -> TypeHint {
    TypeHint::Path { ident: Some(name.to_string()), args: vec![] }
}

fn generic(args: Vec<TypeArg>) -> TypeHint {
    TypeHint::Path { ident: None, args }
}

fn number(value: u128, suffix: &str) -> Lit {
    Lit::Int { value, suffix: suffix.to_string() }
}

#[test]
fn integer_variants_by_name() {
    let pairs = [
        ("u8", "U8"), ("u16", "U16"), ("u32", "U32"), ("u64", "U64"), ("u128", "U128"),
        ("usize", "Usize"), ("i8", "I8"), ("i16", "I16"), ("i32", "I32"), ("i64", "I64"),
        ("i128", "I128"), ("isize", "Isize"),
    ];
    for (name, variant) in pairs {
        assert_eq!(int_type_to_variant(name), Some(variant));
    }
    assert_eq!(int_type_to_variant(""), None);
    assert_eq!(int_type_to_variant("f32"), None);
    assert_eq!(int_type_to_variant("U8"), None);
}

#[test]
fn float_variants_by_name() {
    assert_eq!(float_type_to_variant("f32"), Some("F32"));
    assert_eq!(float_type_to_variant("f64"), Some("F64"));
    assert_eq!(float_type_to_variant("u8"), None);
    assert_eq!(float_type_to_variant(""), None);
}

#[test]
fn the_suffix_comes_before_the_field_type() {
    assert_eq!(infer_type(NumberKind::Integer, "u8", Some(&path("i64"))), "U8");
    assert_eq!(infer_type(NumberKind::Integer, "", Some(&path("i64"))), "I64");
    assert_eq!(infer_type(NumberKind::Float, "f32", Some(&path("f64"))), "F32");
    assert_eq!(infer_type(NumberKind::Float, "", Some(&path("f32"))), "F32");
}

#[test]
fn the_widest_type_where_nothing_names_one() {
    assert_eq!(infer_type(NumberKind::Integer, "", None), "I128");
    assert_eq!(infer_type(NumberKind::Integer, "", Some(&path("Duration"))), "I128");
    assert_eq!(infer_type(NumberKind::Integer, "", Some(&path("f32"))), "I128");
    assert_eq!(infer_type(NumberKind::Integer, "", Some(&TypeHint::Other)), "I128");
    assert_eq!(infer_type(NumberKind::Float, "", None), "F64");
    assert_eq!(infer_type(NumberKind::Float, "", Some(&path("u8"))), "F64");
    // A path with generic arguments is no plain name.
    let vec_u8 = generic(vec![TypeArg::Type(path("u8"))]);
    assert_eq!(infer_type(NumberKind::Integer, "", Some(&vec_u8)), "I128");
}

#[test]
fn item_types_of_arrays() {
    let u8_ = path("u8");
    assert_eq!(get_array_item_type(&TypeHint::Slice(Box::new(path("u8")))), Some(&u8_));
    assert_eq!(get_array_item_type(&TypeHint::Array(Box::new(path("u8")))), Some(&u8_));
    assert_eq!(get_array_item_type(&generic(vec![TypeArg::Type(path("u8"))])), Some(&u8_));
    let reference = TypeHint::Reference(Box::new(TypeHint::Slice(Box::new(path("u8")))));
    assert_eq!(get_array_item_type(&reference), Some(&u8_));
    let group = TypeHint::Group(Box::new(TypeHint::Paren(Box::new(generic(vec![TypeArg::Type(
        path("u8"),
    )])))));
    assert_eq!(get_array_item_type(&group), Some(&u8_));
    assert_eq!(get_array_item_type(&path("u8")), None);
    assert_eq!(get_array_item_type(&generic(vec![TypeArg::Other])), None);
    assert_eq!(
        get_array_item_type(&generic(vec![TypeArg::Type(path("a")), TypeArg::Type(path("b"))])),
        None,
    );
    assert_eq!(get_array_item_type(&TypeHint::Other), None);
}

#[test]
fn entry_types_of_maps() {
    let k = path("String");
    let v = path("u32");
    let map = generic(vec![TypeArg::Type(path("String")), TypeArg::Type(path("u32"))]);
    assert_eq!(get_map_entry_types(&map), Some((&k, &v)));
    assert_eq!(get_map_entry_types(&generic(vec![TypeArg::Type(path("u32"))])), None);
    assert_eq!(
        get_map_entry_types(&generic(vec![TypeArg::Other, TypeArg::Type(path("u32"))])),
        None,
    );
    // A reference is not looked through here.
    assert_eq!(get_map_entry_types(&TypeHint::Reference(Box::new(path("x")))), None);
    let paren = TypeHint::Paren(Box::new(generic(vec![
        TypeArg::Type(path("String")),
        TypeArg::Type(path("u32")),
    ])));
    assert_eq!(get_map_entry_types(&paren), Some((&k, &v)));
}

#[test]
fn scalars_get_their_width() {
    let expr = |l: Lit, ty: Option<&TypeHint>| default_value_to_meta_expr(&Literal::Scalar(l), ty);
    assert_eq!(expr(number(7, ""), Some(&path("u8"))), Some(Expr::Integer(Integer::U8(7))));
    assert_eq!(expr(number(7, "i16"), Some(&path("u8"))), Some(Expr::Integer(Integer::I16(7))));
    assert_eq!(expr(number(7, ""), None), Some(Expr::Integer(Integer::I128(7))));
    assert_eq!(expr(Lit::Bool(true), None), Some(Expr::Bool(true)));
    assert_eq!(expr(Lit::Str("x".into()), Some(&path("u8"))), Some(Expr::Str("x".into())));
    assert_eq!(
        expr(Lit::Float { text: "1.5".into(), suffix: "".into() }, Some(&path("f32"))),
        Some(Expr::Float(Float::F32("1.5".into()))),
    );
    assert_eq!(
        expr(Lit::Float { text: "1.5".into(), suffix: "".into() }, None),
        Some(Expr::Float(Float::F64("1.5".into()))),
    );
}

#[test]
fn numbers_must_fit_their_type() {
    let expr = |l: Lit, ty: Option<&TypeHint>| default_value_to_meta_expr(&Literal::Scalar(l), ty);
    assert_eq!(expr(number(255, "u8"), None), Some(Expr::Integer(Integer::U8(255))));
    assert_eq!(expr(number(256, "u8"), None), None);
    assert_eq!(expr(number(127, "i8"), None), Some(Expr::Integer(Integer::I8(127))));
    assert_eq!(expr(number(128, "i8"), None), None);
    assert_eq!(expr(number(u128::MAX, "u128"), None), Some(Expr::Integer(Integer::U128(u128::MAX))));
    assert_eq!(expr(number(u128::MAX, ""), None), None);
    assert_eq!(expr(number(1 << 64, "u64"), None), None);
    // One number that does not fit spoils the array.
    let array = Literal::Array(vec![
        Literal::Scalar(number(1, "")),
        Literal::Scalar(number(300, "")),
        Literal::Scalar(number(2, "")),
    ]);
    let vec_u8 = generic(vec![TypeArg::Type(path("u8"))]);
    assert_eq!(default_value_to_meta_expr(&array, Some(&vec_u8)), None);
}

#[test]
fn maps_keep_their_order_and_type_their_keys() {
    let literal = Literal::Dict(vec![
        (number(2, ""), Literal::Scalar(Lit::Bool(true))),
        (number(1, ""), Literal::Array(vec![Literal::Scalar(number(5, ""))])),
    ]);
    let ty = generic(vec![
        TypeArg::Type(path("u16")),
        TypeArg::Type(generic(vec![TypeArg::Type(path("i64"))])),
    ]);
    assert_eq!(
        default_value_to_meta_expr(&literal, Some(&ty)),
        Some(Expr::Dict(vec![
            MapEntry { key: MapKey::Integer(Integer::U16(2)), value: Expr::Bool(true) },
            MapEntry {
                key: MapKey::Integer(Integer::U16(1)),
                value: Expr::Array(vec![Expr::Integer(Integer::I64(5))]),
            },
        ])),
    );
}

#[test]
fn defaults_are_read_by_the_type_of_the_leaf() {
    let u16_ = LeafType::Scalar(ScalarType::Integer(IntType::U16));
    assert_eq!(
        deserialize_default(&Expr::Integer(Integer::I32(8080)), &u16_),
        Ok(Expr::Integer(Integer::U16(8080))),
    );
    assert_eq!(
        deserialize_default(&Expr::Integer(Integer::I32(-1)), &u16_),
        Err("invalid default, expected u16".to_string()),
    );
    assert_eq!(
        deserialize_default(&Expr::Integer(Integer::U128(u128::MAX)), &u16_),
        Err("invalid default, expected u16".to_string()),
    );
    assert_eq!(
        deserialize_default(&Expr::Str("x".into()), &u16_),
        Err("invalid default, expected u16".to_string()),
    );
    let i64_ = LeafType::Scalar(ScalarType::Integer(IntType::I64));
    assert_eq!(
        deserialize_default(&Expr::Integer(Integer::I128(i64::MIN as i128)), &i64_),
        Ok(Expr::Integer(Integer::I64(i64::MIN))),
    );
    let f32_ = LeafType::Scalar(ScalarType::Float(FloatType::F32));
    assert_eq!(
        deserialize_default(&Expr::Float(Float::F64("1.5".into())), &f32_),
        Ok(Expr::Float(Float::F32("1.5".into()))),
    );
    assert_eq!(
        deserialize_default(&Expr::Integer(Integer::I8(-3)), &f32_),
        Ok(Expr::Float(Float::F32("-3".into()))),
    );
    let bool_ = LeafType::Scalar(ScalarType::Bool);
    assert_eq!(deserialize_default(&Expr::Bool(true), &bool_), Ok(Expr::Bool(true)));
    assert_eq!(
        deserialize_default(&Expr::Integer(Integer::U8(1)), &bool_),
        Err("invalid default, expected a boolean".to_string()),
    );
    let str_ = LeafType::Scalar(ScalarType::Str);
    assert_eq!(deserialize_default(&Expr::Str("x".into()), &str_), Ok(Expr::Str("x".into())));
    assert_eq!(
        deserialize_default(&Expr::Bool(true), &str_),
        Err("invalid default, expected a string".to_string()),
    );
    let enum_ = LeafType::Enum(vec!["A".into(), "B".into()]);
    assert_eq!(deserialize_default(&Expr::Str("B".into()), &enum_), Ok(Expr::Str("B".into())));
    assert_eq!(
        deserialize_default(&Expr::Str("C".into()), &enum_),
        Err("invalid default, expected the name of a variant".to_string()),
    );
    let list = LeafType::List(',', ScalarType::Integer(IntType::U8));
    assert_eq!(
        deserialize_default(
            &Expr::Array(vec![Expr::Integer(Integer::I32(2)), Expr::Integer(Integer::I32(1))]),
            &list,
        ),
        Ok(Expr::Array(vec![Expr::Integer(Integer::U8(2)), Expr::Integer(Integer::U8(1))])),
    );
    assert_eq!(
        deserialize_default(
            &Expr::Array(vec![Expr::Integer(Integer::I32(2)), Expr::Bool(true)]),
            &list,
        ),
        Err("invalid default, expected a sequence".to_string()),
    );
    assert_eq!(deserialize_default(&Expr::Bool(true), &LeafType::Custom), Ok(Expr::Bool(true)));
}

#[test]
fn literal_holders_keep_the_order() {
    let items = vec![Expr::Bool(true), Expr::Str("b".into()), Expr::Bool(false)];
    assert_eq!(
        ArrayIntoDeserializer(vec![Expr::Bool(true), Expr::Str("b".into()), Expr::Bool(false)])
            .into_deserializer(),
        Expr::Array(items),
    );
    let entries = vec![
        (MapKey::Str("peter".into()), Expr::Integer(Integer::U32(3))),
        (MapKey::Str("anna".into()), Expr::Integer(Integer::U32(27))),
        (MapKey::Bool(true), Expr::Bool(false)),
    ];
    assert_eq!(
        MapIntoDeserializer(entries).into_deserializer(),
        Expr::Dict(vec![
            MapEntry { key: MapKey::Str("peter".into()), value: Expr::Integer(Integer::U32(3)) },
            MapEntry { key: MapKey::Str("anna".into()), value: Expr::Integer(Integer::U32(27)) },
            MapEntry { key: MapKey::Bool(true), value: Expr::Bool(false) },
        ]),
    );
    assert_eq!(MapIntoDeserializer(vec![]).into_deserializer(), Expr::Dict(vec![]));
}

#[test]
fn integers_in_decimal() {
    assert_eq!(Integer::U8(0).to_string(), "0");
    assert_eq!(Integer::U8(255).to_string(), "255");
    assert_eq!(Integer::I8(-128).to_string(), "-128");
    assert_eq!(Integer::U16(8080).to_string(), "8080");
    assert_eq!(Integer::I16(-7).to_string(), "-7");
    assert_eq!(Integer::U32(1_000_000).to_string(), "1000000");
    assert_eq!(Integer::I32(i32::MIN).to_string(), "-2147483648");
    assert_eq!(Integer::U64(u64::MAX).to_string(), "18446744073709551615");
    assert_eq!(Integer::I64(i64::MIN).to_string(), "-9223372036854775808");
    assert_eq!(Integer::U128(u128::MAX).to_string(), "340282366920938463463374607431768211455");
    assert_eq!(Integer::I128(i128::MIN).to_string(), "-170141183460469231731687303715884105728");
    assert_eq!(Integer::I128(i128::MAX).to_string(), "170141183460469231731687303715884105727");
    assert_eq!(Integer::Usize(10).to_string(), "10");
    assert_eq!(Integer::Isize(-10).to_string(), "-10");
    assert_eq!(Float::F32("1.5".into()).to_string(), "1.5");
    assert_eq!(Float::F64("-2".into()).as_str(), "-2");
}

#[test]
fn literals_can_be_copied() {
    let e = Expr::Dict(vec![MapEntry {
        key: MapKey::Float(Float::F32("1.5".into())),
        value: Expr::Array(vec![Expr::Str("x".into()), Expr::Integer(Integer::I8(-1))]),
    }]);
    assert_eq!(e.clone(), e);
}
