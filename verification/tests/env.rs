use confique::env::{DeError, Deserializer};
use confique::meta::{
    Expr, Field, FieldKind, Float, FloatType, IntType, Integer, LeafKind, LeafType, Meta,
    ScalarType,
};

fn de(v: &str) -> Deserializer {
    Deserializer::new(v.to_string())
}

fn de_bool(v: &str) -> Result<bool, DeError> {
    de(v).deserialize_bool()
}

fn f32_of(v: &str) -> f32 {
    match de(v).deserialize_f32() {
        Ok(Float::F32(text)) => text.parse().unwrap(),
        other => panic!("no f32: {other:?}"),
    }
}

fn f64_of(v: &str) -> f64 {
    match de(v).deserialize_f64() {
        Ok(Float::F64(text)) => text.parse().unwrap(),
        other => panic!("no f64: {other:?}"),
    }
}

#[test]
fn tests_boolean() {
    assert_eq!(de_bool("1"), Ok(true));
    assert_eq!(de_bool("true "), Ok(true));
    assert_eq!(de_bool(" True "), Ok(true));
    assert_eq!(de_bool("  TRUE"), Ok(true));
    assert_eq!(de_bool("yes"), Ok(true));
    assert_eq!(de_bool(" Yes"), Ok(true));
    assert_eq!(de_bool("YES "), Ok(true));

    assert_eq!(de_bool("0  "), Ok(false));
    assert_eq!(de_bool(" false"), Ok(false));
    assert_eq!(de_bool(" False "), Ok(false));
    assert_eq!(de_bool("FALSE "), Ok(false));
    assert_eq!(de_bool("no"), Ok(false));
    assert_eq!(de_bool(" No"), Ok(false));
    assert_eq!(de_bool("NO "), Ok(false));
}

#[test]
fn tests_ints() {
    assert_eq!(de("0").deserialize_u8(), Ok(0u8));
    assert_eq!(de("-1 ").deserialize_i8(), Ok(-1i8));
    assert_eq!(de(" 27").deserialize_u16(), Ok(27u16));
    assert_eq!(de("-27").deserialize_i16(), Ok(-27i16));
    assert_eq!(de("   4301").deserialize_u32(), Ok(4301u32));
    assert_eq!(de(" -123456").deserialize_i32(), Ok(-123456i32));
    assert_eq!(de(" 986543210    ").deserialize_u64(), Ok(986543210u64));
    assert_eq!(de("-986543210").deserialize_i64(), Ok(-986543210i64));
}

#[test]
fn tests_floats() {
    assert_eq!(f32_of("3.1415"), 3.1415f32);
    assert_eq!(f64_of("-123.456"), -123.456f64);
}

#[test]
fn env_boolean() {
    assert_eq!(de_bool("1"), Ok(true));
    assert_eq!(de_bool("true "), Ok(true));
    assert_eq!(de_bool("  TRUE"), Ok(true));
    assert_eq!(de_bool("0  "), Ok(false));
    assert_eq!(de_bool(" false"), Ok(false));
    assert_eq!(de_bool("FALSE "), Ok(false));
}

#[test]
fn env_ints() {
    assert_eq!(de("0").deserialize_u8(), Ok(0u8));
    assert_eq!(de("-1 ").deserialize_i8(), Ok(-1i8));
    assert_eq!(de(" 27").deserialize_u16(), Ok(27u16));
    assert_eq!(de("-27").deserialize_i16(), Ok(-27i16));
    assert_eq!(de("   4301").deserialize_u32(), Ok(4301u32));
    assert_eq!(de(" -123456").deserialize_i32(), Ok(-123456i32));
    assert_eq!(de(" 986543210    ").deserialize_u64(), Ok(986543210u64));
    assert_eq!(de("-986543210").deserialize_i64(), Ok(-986543210i64));
}

#[test]
fn env_floats() {
    assert_eq!(f32_of("3.1415"), 3.1415f32);
    assert_eq!(f64_of("-123.456"), -123.456f64);
}

#[test]
fn compiles() {
    let http = Meta {
        name: "Http".to_string(),
        doc: vec![" Configuring the HTTP server of our app.".to_string()],
        fields: vec![
            Field {
                name: "port".to_string(),
                doc: vec![" The port the server will listen on.".to_string()],
                kind: FieldKind::Leaf {
                    env: Some("PORT".to_string()),
                    kind: LeafKind::Required { default: None },
                    ty: LeafType::Scalar(ScalarType::Integer(IntType::U16)),
                },
            },
        ],
    };
    let _conf = Meta {
        name: "Conf".to_string(),
        doc: vec![" A sample configuration for our app.".to_string()],
        fields: vec![
            Field {
                name: "http".to_string(),
                doc: vec![],
                kind: FieldKind::Nested { meta: http },
            },
            Field {
                name: "title".to_string(),
                doc: vec![],
                kind: FieldKind::Leaf {
                    env: None,
                    kind: LeafKind::Required { default: None },
                    ty: LeafType::Scalar(ScalarType::Str),
                },
            },
        ],
    };
}

// ----- what the deserializer refuses --------------------------------------

#[test]
fn bool_rejects_other_words() {
    assert_eq!(de_bool("maybe"), Err(DeError("invalid value for bool: 'maybe'".to_string())));
    assert_eq!(de_bool(" 2 "), Err(DeError("invalid value for bool: '2'".to_string())));
    assert_eq!(de_bool(""), Err(DeError("invalid value for bool: ''".to_string())));
    assert_eq!(de_bool("tru e"), Err(DeError("invalid value for bool: 'tru e'".to_string())));
}

#[test]
fn ints_reject_what_does_not_fit() {
    assert_eq!(
        de("256").deserialize_u8(),
        Err(DeError(
            "invalid value '256' for type u8: number too large to fit in target type".to_string()
        )),
    );
    assert_eq!(
        de(" -129 ").deserialize_i8(),
        Err(DeError(
            "invalid value '-129' for type i8: number too small to fit in target type".to_string()
        )),
    );
    assert_eq!(
        de("-1").deserialize_u16(),
        Err(DeError("invalid value '-1' for type u16: invalid digit found in string".to_string())),
    );
    assert_eq!(
        de("  ").deserialize_u32(),
        Err(DeError(
            "invalid value '' for type u32: cannot parse integer from empty string".to_string()
        )),
    );
    assert_eq!(
        de("12a").deserialize_i64(),
        Err(DeError("invalid value '12a' for type i64: invalid digit found in string".to_string())),
    );
}

#[test]
fn ints_take_a_sign_and_leading_zeros() {
    assert_eq!(de("+7").deserialize_u8(), Ok(7u8));
    assert_eq!(de("007").deserialize_u8(), Ok(7u8));
    assert_eq!(de("-0").deserialize_i8(), Ok(0i8));
    assert_eq!(de("255").deserialize_u8(), Ok(255u8));
    assert_eq!(de("-128").deserialize_i8(), Ok(-128i8));
    assert_eq!(de("18446744073709551615").deserialize_u64(), Ok(u64::MAX));
    assert_eq!(de("-9223372036854775808").deserialize_i64(), Ok(i64::MIN));
    assert!(de("+").deserialize_i32().is_err());
    assert!(de("-").deserialize_i32().is_err());
}

#[test]
fn floats_follow_the_grammar() {
    for good in ["1", "1.", ".5", "1.5e10", "1E-3", "+inf", "-Infinity", "NaN", "  2.5  ", "1e+3"] {
        assert!(de(good).deserialize_f64().is_ok(), "{good}");
        assert!(confique::env::check_float_text(good.trim()), "{good}");
        assert!(good.trim().parse::<f64>().is_ok(), "{good}");
    }
    for bad in ["", ".", "e5", "1e", "1.2.3", "1_000", "in", "0x10", "1 2", "+", "--1"] {
        assert!(de(bad).deserialize_f64().is_err(), "{bad}");
        assert!(bad.trim().parse::<f64>().is_err(), "{bad}");
    }
    assert_eq!(
        de("abc").deserialize_f32(),
        Err(DeError("invalid value 'abc' for type f32: invalid float literal".to_string())),
    );
    assert_eq!(
        de(" ").deserialize_f64(),
        Err(DeError(
            "invalid value '' for type f64: cannot parse float from empty string".to_string()
        )),
    );
    assert_eq!(de(" 2.50 ").deserialize_f64(), Ok(Float::F64("2.50".to_string())));
}

#[test]
fn strings_stay_untrimmed() {
    assert_eq!(de("  a b  ").deserialize_string(), "  a b  ");
    assert_eq!(de("").deserialize_string(), "");
}

#[test]
fn trimming_drops_unicode_white_space() {
    assert_eq!(de_bool("\u{a0}\t true\u{2003}\n"), Ok(true));
    assert_eq!(de("\u{3000}12\u{85}").deserialize_u8(), Ok(12));
    // A zero width space is no white space.
    assert!(de_bool("\u{200b}true").is_err());
}

#[test]
fn enums_match_a_name_letter_for_letter() {
    let names = vec!["A".to_string(), "B".to_string(), "C".to_string()];
    assert_eq!(de("B").deserialize_enum(&names), Ok("B".to_string()));
    assert_eq!(
        de("b").deserialize_enum(&names),
        Err(DeError("unknown variant `b`, expected one of `A`, `B`, `C`".to_string())),
    );
    assert_eq!(
        de(" B").deserialize_enum(&names[..2].to_vec()),
        Err(DeError("unknown variant ` B`, expected `A` or `B`".to_string())),
    );
    assert_eq!(
        de("x").deserialize_enum(&names[..1].to_vec()),
        Err(DeError("unknown variant `x`, expected `A`".to_string())),
    );
    assert_eq!(
        de("x").deserialize_enum(&vec![]),
        Err(DeError("unknown variant `x`, there are no variants".to_string())),
    );
}

#[test]
fn deserialize_goes_by_the_type() {
    assert_eq!(de(" yes ").deserialize(ScalarType::Bool), Ok(Expr::Bool(true)));
    assert_eq!(
        de(" 80 ").deserialize(ScalarType::Integer(IntType::U16)),
        Ok(Expr::Integer(Integer::U16(80))),
    );
    assert_eq!(
        de("-80").deserialize(ScalarType::Integer(IntType::I64)),
        Ok(Expr::Integer(Integer::I64(-80))),
    );
    assert_eq!(
        de(" 1.5 ").deserialize(ScalarType::Float(FloatType::F32)),
        Ok(Expr::Float(Float::F32("1.5".to_string()))),
    );
    assert_eq!(de(" x ").deserialize(ScalarType::Str), Ok(Expr::Str(" x ".to_string())));
    assert!(de("70000").deserialize(ScalarType::Integer(IntType::U16)).is_err());
}

#[test]
fn float_texts_are_what_the_parser_takes() {
    let samples = [
        "1.e5", ".e5", "+nan", "-nan", "infin", "1e+", "1E5", "00.5", "5.", "+.5", "-.5e-0",
        "1e0005", "Inf", "iNfInItY", "nAn", "1f", "1.0f32", " 1", "1 ", "", "+", "-", ".", "e",
        "1e5.5", "1..5", "+-1", "1e--5", "0", "-0", "1e-", "NaN1", "inff", "in f", "١٢٣", "1,5",
        "123456789012345678901234567890", "0.0000000000000000000000000000001", "1e400", "-1e-400",
    ];
    for s in samples {
        assert_eq!(confique::env::check_float_text(s), s.parse::<f64>().is_ok(), "{s:?}");
        assert_eq!(confique::env::check_float_text(s), s.parse::<f32>().is_ok(), "{s:?}");
    }
}

#[test]
fn integer_texts_are_what_the_parser_takes() {
    let samples = [
        "0", "-0", "+0", "00", "+", "-", "", " 1", "1 ", "1_0", "0x1", "255", "256", "-1", "+255",
        "-128", "-129", "127", "128", "0000000000000000000000000255", "99999999999999999999999",
        "-99999999999999999999999", "1e2", "١٢٣", "٣", "1.0",
    ];
    for s in samples {
        let u = confique::env::parse::parse_int(IntType::U8, s);
        assert_eq!(u.clone().ok(), s.parse::<u8>().ok().map(Integer::U8), "{s:?}");
        assert_eq!(u.err(), s.parse::<u8>().err().map(|e| e.to_string()), "{s:?}");
        let i = confique::env::parse::parse_int(IntType::I8, s);
        assert_eq!(i.clone().ok(), s.parse::<i8>().ok().map(Integer::I8), "{s:?}");
        assert_eq!(i.err(), s.parse::<i8>().err().map(|e| e.to_string()), "{s:?}");
    }
}

/// Decimal digits with at most a sign in front, as the contract of the
/// integer parser has it.
fn integer_of(s: &str, signed: bool) -> Option<i128> {
    let (negative, digits) = match s.chars().next() {
        Some('+') => (false, &s[1..]),
        Some('-') if signed => (true, &s[1..]),
        _ => (false, s),
    };
    if digits.is_empty() || !digits.chars().all(|c| ('0'..='9').contains(&c)) {
        return None;
    }
    let mut value: i128 = 0;
    for c in digits.chars() {
        value = value.checked_mul(10)?.checked_add(c as i128 - '0' as i128)?;
    }
    Some(if negative { -value } else { value })
}

#[test]
fn the_integer_parser_takes_decimal_digits_with_a_sign() {
    let samples = [
        "0", "-0", "+0", "00", "+", "-", "", " 1", "1 ", "1_0", "0x1", "255", "256", "-1", "+255",
        "-128", "-129", "127", "128", "0000000000000000000000000255", "1e2", "٣", "1.0", "+-1",
        "65535", "65536", "-32768", "-32769", "4294967295", "4294967296", "-2147483648",
        "18446744073709551615", "18446744073709551616", "-9223372036854775808",
        "-9223372036854775809", "9223372036854775807", "9223372036854775808",
    ];
    for s in samples {
        let unsigned = integer_of(s, false);
        let signed = integer_of(s, true);
        assert_eq!(s.parse::<u8>().ok().map(i128::from), unsigned.filter(|v| (0..=255).contains(v)));
        assert_eq!(s.parse::<u16>().ok().map(i128::from), unsigned.filter(|v| (0..=65535).contains(v)));
        assert_eq!(
            s.parse::<u32>().ok().map(i128::from),
            unsigned.filter(|v| (0..=u32::MAX as i128).contains(v)),
        );
        assert_eq!(
            s.parse::<u64>().ok().map(i128::from),
            unsigned.filter(|v| (0..=u64::MAX as i128).contains(v)),
        );
        assert_eq!(s.parse::<i8>().ok().map(i128::from), signed.filter(|v| (-128..=127).contains(v)));
        assert_eq!(
            s.parse::<i16>().ok().map(i128::from),
            signed.filter(|v| (-32768..=32767).contains(v)),
        );
        assert_eq!(
            s.parse::<i32>().ok().map(i128::from),
            signed.filter(|v| (i32::MIN as i128..=i32::MAX as i128).contains(v)),
        );
        assert_eq!(
            s.parse::<i64>().ok().map(i128::from),
            signed.filter(|v| (i64::MIN as i128..=i64::MAX as i128).contains(v)),
        );
    }
}

/// White space as the contract of trimming has it.
fn is_white_space(c: char) -> bool {
    let n = c as u32;
    (0x9..=0xd).contains(&n)
        || n == 0x20
        || n == 0x85
        || n == 0xa0
        || n == 0x1680
        || (0x2000..=0x200a).contains(&n)
        || n == 0x2028
        || n == 0x2029
        || n == 0x202f
        || n == 0x205f
        || n == 0x3000
}

#[test]
fn white_space_is_what_trimming_drops() {
    for n in 0..=0x10ffffu32 {
        if let Some(c) = char::from_u32(n) {
            assert_eq!(is_white_space(c), c.is_whitespace(), "{n:#x}");
            let padded = format!("{c}x{c}");
            assert_eq!(padded.trim() == "x", is_white_space(c), "{n:#x}");
        }
    }
}
