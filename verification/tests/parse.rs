use confique::env::parse::{
    list_by_colon, list_by_comma, list_by_semicolon, list_by_sep, list_by_space, parse_int,
    parse_scalar, split,
};
use confique::meta::{Expr, Float, FloatType, IntType, Integer, ScalarType};

fn ints(values: &[u32]) -> Expr {
    Expr::Array(values.iter().map(|v| Expr::Integer(Integer::U32(*v))).collect())
}

const U32: ScalarType = ScalarType::Integer(IntType::U32);

#[test]
fn split_keeps_empty_pieces() {
    assert_eq!(split("a,b,,c", ','), vec!["a", "b", "", "c"]);
    assert_eq!(split("", ','), vec![""]);
    assert_eq!(split("a,", ','), vec!["a", ""]);
    assert_eq!(split(",a", ','), vec!["", "a"]);
    assert_eq!(split("abc", ','), vec!["abc"]);
    assert_eq!(split("a b", ' '), vec!["a", "b"]);
}

#[test]
fn lists_of_numbers() {
    assert_eq!(list_by_comma(U32, "8080,8000,8888"), Ok(ints(&[8080, 8000, 8888])));
    assert_eq!(list_by_colon(U32, "1:2:3"), Ok(ints(&[1, 2, 3])));
    assert_eq!(list_by_semicolon(U32, "1;2;3"), Ok(ints(&[1, 2, 3])));
    assert_eq!(list_by_space(U32, "1 2 3"), Ok(ints(&[1, 2, 3])));
    assert_eq!(list_by_sep('|', U32, "4|5"), Ok(ints(&[4, 5])));
    assert_eq!(list_by_comma(U32, "7"), Ok(ints(&[7])));
}

#[test]
fn a_list_keeps_the_order_of_its_items() {
    assert_eq!(list_by_comma(U32, "3,1,2"), Ok(ints(&[3, 1, 2])));
}

#[test]
fn items_are_read_as_they_stand() {
    // No white space is dropped around an item.
    assert_eq!(list_by_comma(U32, "1, 2"), Err("invalid digit found in string".to_string()));
    assert_eq!(list_by_comma(U32, ""), Err("cannot parse integer from empty string".to_string()));
    assert_eq!(list_by_comma(U32, "1,,2"), Err("cannot parse integer from empty string".to_string()));
    // The first item that is refused decides.
    assert_eq!(
        list_by_comma(ScalarType::Integer(IntType::U8), "1,300,x"),
        Err("number too large to fit in target type".to_string()),
    );
}

#[test]
fn lists_of_other_types() {
    assert_eq!(
        list_by_comma(ScalarType::Str, "a, b,"),
        Ok(Expr::Array(vec![
            Expr::Str("a".to_string()),
            Expr::Str(" b".to_string()),
            Expr::Str("".to_string()),
        ])),
    );
    assert_eq!(
        list_by_comma(ScalarType::Bool, "true,false"),
        Ok(Expr::Array(vec![Expr::Bool(true), Expr::Bool(false)])),
    );
    assert_eq!(
        list_by_comma(ScalarType::Bool, "true,yes"),
        Err("provided string was not `true` or `false`".to_string()),
    );
    assert_eq!(
        list_by_comma(ScalarType::Float(FloatType::F32), "1.5,2"),
        Ok(Expr::Array(vec![
            Expr::Float(Float::F32("1.5".to_string())),
            Expr::Float(Float::F32("2".to_string())),
        ])),
    );
    assert_eq!(
        list_by_comma(ScalarType::Float(FloatType::F64), "1.5,x"),
        Err("invalid float literal".to_string()),
    );
    assert_eq!(
        list_by_comma(ScalarType::Float(FloatType::F64), "1.5,"),
        Err("cannot parse float from empty string".to_string()),
    );
}

#[test]
fn numbers_of_each_width() {
    assert_eq!(parse_int(IntType::U8, "255"), Ok(Integer::U8(255)));
    assert_eq!(parse_int(IntType::U16, "65535"), Ok(Integer::U16(65535)));
    assert_eq!(parse_int(IntType::U32, "4294967295"), Ok(Integer::U32(u32::MAX)));
    assert_eq!(parse_int(IntType::U64, "18446744073709551615"), Ok(Integer::U64(u64::MAX)));
    assert_eq!(parse_int(IntType::I8, "-128"), Ok(Integer::I8(-128)));
    assert_eq!(parse_int(IntType::I16, "-32768"), Ok(Integer::I16(-32768)));
    assert_eq!(parse_int(IntType::I32, "-2147483648"), Ok(Integer::I32(i32::MIN)));
    assert_eq!(parse_int(IntType::I64, "9223372036854775807"), Ok(Integer::I64(i64::MAX)));
    assert!(parse_int(IntType::U8, "256").is_err());
    assert!(parse_int(IntType::I8, "128").is_err());
    assert!(parse_int(IntType::U8, " 1").is_err());
    assert_eq!(parse_scalar(ScalarType::Str, " x "), Ok(Expr::Str(" x ".to_string())));
}
