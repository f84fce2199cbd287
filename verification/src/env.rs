//! Values from environment variables: what a variable holds, and how its
//! text becomes a value of the type of a leaf.

use vstd::prelude::*;
pub mod parse;
use crate::meta::{
    Expr, ExprView, Float, FloatType, FloatView, IntType, Integer, LeafType, ScalarType,
};
use crate::text::{chars_of, push_str, str_eq, string_from_chars};

verus! {

/// The integer types that the text of a variable can be read as.
pub trait IntRange: Sized {
    /// Whether the type has negative numbers.
    spec fn signed() -> bool;

    /// The least number of the type.
    spec fn least() -> int;

    /// The greatest number of the type.
    spec fn greatest() -> int;

    /// The number that a value of the type stands for.
    spec fn number(self) -> int;
}

impl IntRange for u8 {
    open spec fn signed() -> bool {
        false
    }

    open spec fn least() -> int {
        0
    }

    open spec fn greatest() -> int {
        u8::MAX as int
    }

    open spec fn number(self) -> int {
        self as int
    }
}

impl IntRange for u16 {
    open spec fn signed() -> bool {
        false
    }

    open spec fn least() -> int {
        0
    }

    open spec fn greatest() -> int {
        u16::MAX as int
    }

    open spec fn number(self) -> int {
        self as int
    }
}

impl IntRange for u32 {
    open spec fn signed() -> bool {
        false
    }

    open spec fn least() -> int {
        0
    }

    open spec fn greatest() -> int {
        u32::MAX as int
    }

    open spec fn number(self) -> int {
        self as int
    }
}

impl IntRange for u64 {
    open spec fn signed() -> bool {
        false
    }

    open spec fn least() -> int {
        0
    }

    open spec fn greatest() -> int {
        u64::MAX as int
    }

    open spec fn number(self) -> int {
        self as int
    }
}

impl IntRange for i8 {
    open spec fn signed() -> bool {
        true
    }

    open spec fn least() -> int {
        i8::MIN as int
    }

    open spec fn greatest() -> int {
        i8::MAX as int
    }

    open spec fn number(self) -> int {
        self as int
    }
}

impl IntRange for i16 {
    open spec fn signed() -> bool {
        true
    }

    open spec fn least() -> int {
        i16::MIN as int
    }

    open spec fn greatest() -> int {
        i16::MAX as int
    }

    open spec fn number(self) -> int {
        self as int
    }
}

impl IntRange for i32 {
    open spec fn signed() -> bool {
        true
    }

    open spec fn least() -> int {
        i32::MIN as int
    }

    open spec fn greatest() -> int {
        i32::MAX as int
    }

    open spec fn number(self) -> int {
        self as int
    }
}

impl IntRange for i64 {
    open spec fn signed() -> bool {
        true
    }

    open spec fn least() -> int {
        i64::MIN as int
    }

    open spec fn greatest() -> int {
        i64::MAX as int
    }

    open spec fn number(self) -> int {
        self as int
    }
}

/// The number that a decimal digit stands for.
pub open spec fn digit_value(c: char) -> Option<int> {
    if '0' <= c && c <= '9' {
        Some(c as int - '0' as int)
    } else {
        None
    }
}

/// The number that a row of decimal digits stands for; `None` where the
/// row is empty or holds anything but digits.
pub open spec fn digits_value(s: Seq<char>) -> Option<int>
    decreases s.len(),
{
    if s.len() == 0 {
        None
    } else if s.len() == 1 {
        digit_value(s[0])
    } else {
        match (digits_value(s.drop_last()), digit_value(s.last())) {
            (Some(high), Some(low)) => Some(high * 10 + low),
            _ => None,
        }
    }
}

/// The number that a text stands for: decimal digits with `+` in front or
/// nothing, or with `-` where negative numbers are wanted; nothing else,
/// no space either.
pub open spec fn integer_of(s: Seq<char>, signed: bool) -> Option<int> {
    if s.len() > 0 && s[0] == '+' {
        digits_value(s.skip(1))
    } else if s.len() > 0 && s[0] == '-' && signed {
        match digits_value(s.skip(1)) {
            Some(v) => Some(-v),
            None => None,
        }
    } else {
        digits_value(s)
    }
}

/// The words in which the parser of an integer type, given by whether it
/// has negative numbers and by its least and its greatest number, refuses
/// a text.
pub uninterp spec fn int_error_text(s: Seq<char>, signed: bool, least: int, greatest: int) -> Seq<
    char,
>;

/// `str::parse` for an integer type: the number that the text stands for,
/// where it is written in decimal digits with at most a sign in front and
/// fits the type; else the message of the error that the parser gives.
#[verifier::external_body]
pub(crate) fn parse_integer<T: IntRange + std::str::FromStr>(s: &str) -> (r: Result<T, String>)
    where <T as std::str::FromStr>::Err: std::fmt::Display
    ensures
        r is Ok <==> (integer_of(s@, T::signed()) matches Some(v) && T::least() <= v
            <= T::greatest()),
        r matches Ok(v) ==> Some(v.number()) == integer_of(s@, T::signed()),
        r matches Err(m) ==> m@ == int_error_text(s@, T::signed(), T::least(), T::greatest()),
{
    s.parse::<T>().map_err(|e| e.to_string())
}

/// Whether a character is white space, as Unicode defines it.
pub open spec fn is_white_space(c: char) -> bool {
    let n = c as u32;
    (0x9 <= n && n <= 0xd) || n == 0x20 || n == 0x85 || n == 0xa0 || n == 0x1680 || (0x2000 <= n
        && n <= 0x200a) || n == 0x2028 || n == 0x2029 || n == 0x202f || n == 0x205f || n == 0x3000
}

/// The number of white space characters that `s` starts with.
pub open spec fn leading_space(s: Seq<char>) -> nat
    decreases s.len(),
{
    if s.len() > 0 && is_white_space(s[0]) {
        1 + leading_space(s.drop_first())
    } else {
        0
    }
}

/// The number of white space characters that `s` ends with.
pub open spec fn trailing_space(s: Seq<char>) -> nat
    decreases s.len(),
{
    if s.len() > 0 && is_white_space(s.last()) {
        1 + trailing_space(s.drop_last())
    } else {
        0
    }
}

/// `s` without the white space that it starts and ends with.
pub open spec fn trimmed(s: Seq<char>) -> Seq<char> {
    if leading_space(s) + trailing_space(s) >= s.len() {
        Seq::empty()
    } else {
        s.subrange(leading_space(s) as int, s.len() - trailing_space(s))
    }
}

/// `str::trim`: the text without the white space that it starts and ends
/// with, white space being the characters with the Unicode property of
/// that name.
#[verifier::external_body]
fn trim(s: &str) -> (r: &str)
    ensures
        r@ == trimmed(s@),
{
    s.trim()
}

/// Why the text of a variable is no value of the type of its leaf.
#[derive(Debug, PartialEq, Eq)]
pub struct DeError(pub String);

/// The text of a variable, to be read as a value of some type.
#[derive(Debug)]
pub struct Deserializer {
    pub value: String,
}

/// Whether `s` is `lower` but for the case of its letters: at each place
/// it has the character of `lower` or that of `upper`, which is `lower`
/// in capital letters.
pub open spec fn same_word(s: Seq<char>, lower: Seq<char>, upper: Seq<char>) -> bool {
    &&& s.len() == lower.len()
    &&& forall|i: int| 0 <= i < s.len() ==> s[i] == lower[i] || s[i] == upper[i]
}

/// The truth value that a text stands for: `1`, `true` and `yes` are
/// true, `0`, `false` and `no` are false, whatever the case of the
/// letters and the white space around them.
pub open spec fn bool_of(s: Seq<char>) -> Option<bool> {
    let t = trimmed(s);
    if t == "1"@ || same_word(t, "true"@, "TRUE"@) || same_word(t, "yes"@, "YES"@) {
        Some(true)
    } else if t == "0"@ || same_word(t, "false"@, "FALSE"@) || same_word(t, "no"@, "NO"@) {
        Some(false)
    } else {
        None
    }
}

/// The message for a text that stands for no truth value.
pub open spec fn bool_message(s: Seq<char>) -> Seq<char> {
    "invalid value for bool: '"@ + trimmed(s) + "'"@
}

/// The start of the message for a text that stands for no number of the
/// type of this name; the message of the parser follows it.
pub open spec fn number_message(s: Seq<char>, ty: Seq<char>) -> Seq<char> {
    "invalid value '"@ + s + "' for type "@ + ty + ": "@
}

fn is_word(s: &Vec<char>, lower: &str, upper: &str) -> (b: bool)
    requires
        lower@.len() == upper@.len(),
    ensures
        b == same_word(s@, lower@, upper@),
{
    let low = chars_of(lower);
    let up = chars_of(upper);
    if s.len() != low.len() {
        return false;
    }
    let mut i: usize = 0;
    while i < s.len()
        invariant
            i <= s.len(),
            s.len() == low.len(),
            low.len() == up.len(),
            low@ == lower@,
            up@ == upper@,
            forall|j: int| 0 <= j < i ==> s@[j] == low@[j] || s@[j] == up@[j],
        decreases s.len() - i,
    {
        if s[i] != low[i] && s[i] != up[i] {
            assert(!(s@[i as int] == lower@[i as int] || s@[i as int] == upper@[i as int]));
            return false;
        }
        i += 1;
    }
    true
}

fn is_one_char(s: &Vec<char>, c: char) -> (b: bool)
    ensures
        b == (s@ == seq![c]),
{
    if s.len() == 1 && s[0] == c {
        assert(s@ =~= seq![c]);
        true
    } else {
        false
    }
}

/// What reading a text as a number of an integer type gives: the white
/// space around the text is dropped; where the rest is a number in decimal
/// digits with at most a sign in front and fits the type, that number;
/// else a message that ends with the words of the parser.
pub open spec fn read_integer(
    value: Seq<char>,
    signed: bool,
    least: int,
    greatest: int,
    ty: Seq<char>,
) -> Result<int, Seq<char>> {
    let t = trimmed(value);
    match integer_of(t, signed) {
        Some(v) => if least <= v <= greatest {
            Ok(v)
        } else {
            Err(number_message(t, ty) + int_error_text(t, signed, least, greatest))
        },
        None => Err(number_message(t, ty) + int_error_text(t, signed, least, greatest)),
    }
}

/// Whether `r` is what reading a text as a number of the type `T` gives.
pub open spec fn number_read<T: IntRange>(value: Seq<char>, ty: Seq<char>, r: Result<T, DeError>) -> bool {
    match read_integer(value, T::signed(), T::least(), T::greatest(), ty) {
        Ok(v) => r is Ok && r->Ok_0.number() == v,
        Err(m) => r is Err && r->Err_0.0@ == m,
    }
}

/// The error for a text that stands for no number of the type `ty`.
fn number_error(s: &str, ty: &str, cause: &str) -> (e: DeError)
    ensures
        e.0@ == number_message(s@, ty@) + cause@,
{
    let mut msg: Vec<char> = Vec::new();
    push_str(&mut msg, "invalid value '");
    push_str(&mut msg, s);
    push_str(&mut msg, "' for type ");
    push_str(&mut msg, ty);
    push_str(&mut msg, ": ");
    push_str(&mut msg, cause);
    assert(msg@ =~= number_message(s@, ty@) + cause@);
    DeError(string_from_chars(&msg))
}

impl Deserializer {
    pub fn new(value: String) -> (r: Self)
        ensures
            r.value == value,
    {
        Deserializer { value }
    }

    /// The text as a truth value.
    pub fn deserialize_bool(self) -> (r: Result<bool, DeError>)
        ensures
            match bool_of(self.value@) {
                Some(b) => r == Ok::<bool, DeError>(b),
                None => r is Err && r->Err_0.0@ == bool_message(self.value@),
            },
    {
        let s = trim(self.value.as_str());
        let t = chars_of(s);
        proof {
            reveal_strlit("1");
            reveal_strlit("0");
            reveal_strlit("true");
            reveal_strlit("TRUE");
            reveal_strlit("yes");
            reveal_strlit("YES");
            reveal_strlit("false");
            reveal_strlit("FALSE");
            reveal_strlit("no");
            reveal_strlit("NO");
            assert("1"@ =~= seq!['1']);
            assert("0"@ =~= seq!['0']);
        }
        if is_one_char(&t, '1') || is_word(&t, "true", "TRUE") || is_word(&t, "yes", "YES") {
            Ok(true)
        } else if is_one_char(&t, '0') || is_word(&t, "false", "FALSE") || is_word(&t, "no", "NO") {
            Ok(false)
        } else {
            let mut msg: Vec<char> = Vec::new();
            push_str(&mut msg, "invalid value for bool: '");
            push_str(&mut msg, s);
            push_str(&mut msg, "'");
            assert(msg@ =~= bool_message(self.value@));
            Err(DeError(string_from_chars(&msg)))
        }
    }

    /// The text as a number of the type `i8`.
    pub fn deserialize_i8(self) -> (r: Result<i8, DeError>)
        ensures
            number_read(self.value@, "i8"@, r),
    {
        let s = trim(self.value.as_str());
        match parse_integer::<i8>(s) {
            Ok(v) => Ok(v),
            Err(cause) => Err(number_error(s, "i8", cause.as_str())),
        }
    }

    /// The text as a number of the type `i16`.
    pub fn deserialize_i16(self) -> (r: Result<i16, DeError>)
        ensures
            number_read(self.value@, "i16"@, r),
    {
        let s = trim(self.value.as_str());
        match parse_integer::<i16>(s) {
            Ok(v) => Ok(v),
            Err(cause) => Err(number_error(s, "i16", cause.as_str())),
        }
    }

    /// The text as a number of the type `i32`.
    pub fn deserialize_i32(self) -> (r: Result<i32, DeError>)
        ensures
            number_read(self.value@, "i32"@, r),
    {
        let s = trim(self.value.as_str());
        match parse_integer::<i32>(s) {
            Ok(v) => Ok(v),
            Err(cause) => Err(number_error(s, "i32", cause.as_str())),
        }
    }

    /// The text as a number of the type `i64`.
    pub fn deserialize_i64(self) -> (r: Result<i64, DeError>)
        ensures
            number_read(self.value@, "i64"@, r),
    {
        let s = trim(self.value.as_str());
        match parse_integer::<i64>(s) {
            Ok(v) => Ok(v),
            Err(cause) => Err(number_error(s, "i64", cause.as_str())),
        }
    }

    /// The text as a number of the type `u8`.
    pub fn deserialize_u8(self) -> (r: Result<u8, DeError>)
        ensures
            number_read(self.value@, "u8"@, r),
    {
        let s = trim(self.value.as_str());
        match parse_integer::<u8>(s) {
            Ok(v) => Ok(v),
            Err(cause) => Err(number_error(s, "u8", cause.as_str())),
        }
    }

    /// The text as a number of the type `u16`.
    pub fn deserialize_u16(self) -> (r: Result<u16, DeError>)
        ensures
            number_read(self.value@, "u16"@, r),
    {
        let s = trim(self.value.as_str());
        match parse_integer::<u16>(s) {
            Ok(v) => Ok(v),
            Err(cause) => Err(number_error(s, "u16", cause.as_str())),
        }
    }

    /// The text as a number of the type `u32`.
    pub fn deserialize_u32(self) -> (r: Result<u32, DeError>)
        ensures
            number_read(self.value@, "u32"@, r),
    {
        let s = trim(self.value.as_str());
        match parse_integer::<u32>(s) {
            Ok(v) => Ok(v),
            Err(cause) => Err(number_error(s, "u32", cause.as_str())),
        }
    }

    /// The text as a number of the type `u64`.
    pub fn deserialize_u64(self) -> (r: Result<u64, DeError>)
        ensures
            number_read(self.value@, "u64"@, r),
    {
        let s = trim(self.value.as_str());
        match parse_integer::<u64>(s) {
            Ok(v) => Ok(v),
            Err(cause) => Err(number_error(s, "u64", cause.as_str())),
        }
    }

    /// The text as it is.
    pub fn deserialize_string(self) -> (r: String)
        ensures
            r == self.value,
    {
        self.value
    }
}

/// Whether a character is a decimal digit.
pub open spec fn is_digit(c: char) -> bool {
    '0' <= c && c <= '9'
}

/// The number of decimal digits that stand in `s` from position `i` on.
pub open spec fn digits_from(s: Seq<char>, i: int) -> nat
    decreases s.len() - i,
{
    if 0 <= i < s.len() && is_digit(s[i]) {
        1 + digits_from(s, i + 1)
    } else {
        0
    }
}

/// 1 where a sign stands at position `i` of `s`, else 0.
pub open spec fn sign_len(s: Seq<char>, i: int) -> int {
    if 0 <= i < s.len() && (s[i] == '+' || s[i] == '-') {
        1
    } else {
        0
    }
}

/// Whether `b` is a number in decimal notation without sign: digits with
/// at most one point among them, at least one digit in all, and then, if
/// anything, the letter `e`, at most a sign, and at least one digit.
pub open spec fn is_number_text(b: Seq<char>) -> bool {
    let whole = digits_from(b, 0) as int;
    let point = whole < b.len() && b[whole] == '.';
    let fraction = if point {
        digits_from(b, whole + 1) as int
    } else {
        0
    };
    let end = if point {
        whole + 1 + fraction
    } else {
        whole
    };
    let start = end + 1 + sign_len(b, end + 1);
    &&& whole + fraction > 0
    &&& end == b.len() || ((b[end] == 'e' || b[end] == 'E') && digits_from(b, start) > 0 && start
        + digits_from(b, start) == b.len())
}

/// Whether a text is a floating-point number as the parsers of the
/// floating-point types take it: at most a sign, and then a number in
/// decimal notation or one of the words `inf`, `infinity` and `nan`, in
/// letters of either case.
pub open spec fn is_float_text(s: Seq<char>) -> bool {
    let b = s.skip(sign_len(s, 0));
    same_word(b, "inf"@, "INF"@) || same_word(b, "infinity"@, "INFINITY"@) || same_word(
        b,
        "nan"@,
        "NAN"@,
    ) || is_number_text(b)
}

/// The words for a text that is no floating-point number.
pub open spec fn float_error_text(s: Seq<char>) -> Seq<char> {
    if s.len() == 0 {
        "cannot parse float from empty string"@
    } else {
        "invalid float literal"@
    }
}

/// What reading a text as a floating-point number gives: the text
/// without the white space around it, where that is a floating-point
/// number; else a message.
pub open spec fn read_float(value: Seq<char>, ty: Seq<char>) -> Result<Seq<char>, Seq<char>> {
    let t = trimmed(value);
    if is_float_text(t) {
        Ok(t)
    } else {
        Err(number_message(t, ty) + float_error_text(t))
    }
}

fn count_digits(s: &Vec<char>, from: usize) -> (n: usize)
    requires
        from <= s.len(),
    ensures
        n == digits_from(s@, from as int),
        from + n <= s.len(),
{
    let mut k: usize = from;
    while k < s.len() && '0' <= s[k] && s[k] <= '9'
        invariant
            from <= k <= s.len(),
            digits_from(s@, from as int) == (k - from) + digits_from(s@, k as int),
        decreases s.len() - k,
    {
        k += 1;
    }
    k - from
}

fn has_sign(s: &Vec<char>, i: usize) -> (b: bool)
    ensures
        b == (sign_len(s@, i as int) == 1),
{
    i < s.len() && (s[i] == '+' || s[i] == '-')
}

fn check_number_text(b: &Vec<char>) -> (ok: bool)
    ensures
        ok == is_number_text(b@),
{
    let whole = count_digits(b, 0);
    let point = whole < b.len() && b[whole] == '.';
    let fraction = if point {
        count_digits(b, whole + 1)
    } else {
        0
    };
    let end = if point {
        whole + 1 + fraction
    } else {
        whole
    };
    if whole + fraction == 0 {
        return false;
    }
    if end == b.len() {
        return true;
    }
    if b[end] != 'e' && b[end] != 'E' {
        return false;
    }
    let start = if has_sign(b, end + 1) {
        end + 2
    } else {
        end + 1
    };
    if start > b.len() {
        return false;
    }
    let exponent = count_digits(b, start);
    exponent > 0 && start + exponent == b.len()
}

/// Whether a text is a floating-point number.
pub fn check_float_text(s: &str) -> (ok: bool)
    ensures
        ok == is_float_text(s@),
{
    let all = chars_of(s);
    let first: usize = if has_sign(&all, 0) {
        1
    } else {
        0
    };
    let mut b: Vec<char> = Vec::new();
    let mut k: usize = first;
    assert(b@ =~= all@.subrange(first as int, k as int));
    while k < all.len()
        invariant
            first <= k <= all.len(),
            b@ == all@.subrange(first as int, k as int),
        decreases all.len() - k,
    {
        b.push(all[k]);
        k += 1;
        assert(b@ =~= all@.subrange(first as int, k as int));
    }
    assert(b@ =~= s@.skip(sign_len(s@, 0)));
    proof {
        reveal_strlit("inf");
        reveal_strlit("INF");
        reveal_strlit("infinity");
        reveal_strlit("INFINITY");
        reveal_strlit("nan");
        reveal_strlit("NAN");
    }
    is_word(&b, "inf", "INF") || is_word(&b, "infinity", "INFINITY") || is_word(&b, "nan", "NAN")
        || check_number_text(&b)
}

fn float_error(s: &str, ty: &str) -> (e: DeError)
    ensures
        e.0@ == number_message(s@, ty@) + float_error_text(s@),
{
    if s.is_empty() {
        number_error(s, ty, "cannot parse float from empty string")
    } else {
        number_error(s, ty, "invalid float literal")
    }
}

/// The names, each between backticks: one alone, two with `or` between
/// them, more after `one of` with commas between them.
pub open spec fn one_of(names: Seq<String>) -> Seq<char> {
    if names.len() == 1 {
        "`"@ + names[0]@ + "`"@
    } else if names.len() == 2 {
        "`"@ + names[0]@ + "` or `"@ + names[1]@ + "`"@
    } else {
        "one of "@ + listed(names, names.len() as int)
    }
}

/// The first `n` names, each between backticks, with commas between
/// them.
pub open spec fn listed(names: Seq<String>, n: int) -> Seq<char>
    decreases n,
{
    if n <= 0 {
        Seq::empty()
    } else if n == 1 {
        "`"@ + names[0]@ + "`"@
    } else {
        listed(names, n - 1) + ", `"@ + names[n - 1]@ + "`"@
    }
}

/// The message for a text that is none of the names.
pub open spec fn variant_message(s: Seq<char>, names: Seq<String>) -> Seq<char> {
    if names.len() == 0 {
        "unknown variant `"@ + s + "`, there are no variants"@
    } else {
        "unknown variant `"@ + s + "`, expected "@ + one_of(names)
    }
}

/// Whether `s` is one of the names.
pub open spec fn is_variant(s: Seq<char>, names: Seq<String>) -> bool {
    exists|i: int| 0 <= i < names.len() && (#[trigger] names[i])@ == s
}

fn variant_error(s: &str, names: &Vec<String>) -> (e: DeError)
    ensures
        e.0@ == variant_message(s@, names@),
{
    let mut msg: Vec<char> = Vec::new();
    push_str(&mut msg, "unknown variant `");
    push_str(&mut msg, s);
    if names.len() == 0 {
        push_str(&mut msg, "`, there are no variants");
    } else {
        push_str(&mut msg, "`, expected ");
        let ghost head = msg@;
        if names.len() == 1 {
            push_str(&mut msg, "`");
            push_str(&mut msg, names[0].as_str());
            push_str(&mut msg, "`");
        } else if names.len() == 2 {
            push_str(&mut msg, "`");
            push_str(&mut msg, names[0].as_str());
            push_str(&mut msg, "` or `");
            push_str(&mut msg, names[1].as_str());
            push_str(&mut msg, "`");
        } else {
            push_str(&mut msg, "one of ");
            let ghost start = msg@;
            let mut k: usize = 0;
            assert(msg@ =~= start + listed(names@, 0));
            while k < names.len()
                invariant
                    k <= names.len(),
                    msg@ == start + listed(names@, k as int),
                decreases names.len() - k,
            {
                if k > 0 {
                    push_str(&mut msg, ", `");
                } else {
                    push_str(&mut msg, "`");
                }
                push_str(&mut msg, names[k].as_str());
                push_str(&mut msg, "`");
                k += 1;
                assert(msg@ =~= start + listed(names@, k as int));
            }
        }
        assert(msg@ =~= head + one_of(names@));
    }
    assert(msg@ =~= variant_message(s@, names@));
    DeError(string_from_chars(&msg))
}

impl Deserializer {
    /// The text as a floating-point number of 32 bits: the text without
    /// the white space around it, where it is such a number.
    pub fn deserialize_f32(self) -> (r: Result<Float, DeError>)
        ensures
            match read_float(self.value@, "f32"@) {
                Ok(t) => r is Ok && r->Ok_0@ == FloatView::F32(t),
                Err(m) => r is Err && r->Err_0.0@ == m,
            },
    {
        let s = trim(self.value.as_str());
        if check_float_text(s) {
            Ok(Float::F32(s.to_owned()))
        } else {
            Err(float_error(s, "f32"))
        }
    }

    /// The text as a floating-point number of 64 bits: the text without
    /// the white space around it, where it is such a number.
    pub fn deserialize_f64(self) -> (r: Result<Float, DeError>)
        ensures
            match read_float(self.value@, "f64"@) {
                Ok(t) => r is Ok && r->Ok_0@ == FloatView::F64(t),
                Err(m) => r is Err && r->Err_0.0@ == m,
            },
    {
        let s = trim(self.value.as_str());
        if check_float_text(s) {
            Ok(Float::F64(s.to_owned()))
        } else {
            Err(float_error(s, "f64"))
        }
    }

    /// The text as one of the names of an enumeration: it must be one of
    /// them, letter for letter.
    pub fn deserialize_enum(self, variants: &Vec<String>) -> (r: Result<String, DeError>)
        ensures
            if is_variant(self.value@, variants@) {
                r == Ok::<String, DeError>(self.value)
            } else {
                r is Err && r->Err_0.0@ == variant_message(self.value@, variants@)
            },
    {
        let mut k: usize = 0;
        while k < variants.len()
            invariant
                k <= variants.len(),
                forall|j: int| 0 <= j < k ==> (#[trigger] variants@[j])@ != self.value@,
            decreases variants.len() - k,
        {
            if variants[k] == self.value {
                return Ok(self.value);
            }
            k += 1;
        }
        Err(variant_error(self.value.as_str(), variants))
    }
}

/// The name of an integer type.
pub open spec fn int_name(ty: IntType) -> Seq<char> {
    match ty {
        IntType::U8 => "u8"@,
        IntType::U16 => "u16"@,
        IntType::U32 => "u32"@,
        IntType::U64 => "u64"@,
        IntType::I8 => "i8"@,
        IntType::I16 => "i16"@,
        IntType::I32 => "i32"@,
        IntType::I64 => "i64"@,
    }
}

/// What the text of a variable is read as for a leaf of one value: a
/// truth value and a number without the white space around them, a string
/// as it stands. The error is the message.
pub open spec fn read_scalar(ty: ScalarType, s: Seq<char>) -> Result<ExprView, Seq<char>> {
    match ty {
        ScalarType::Bool => match bool_of(s) {
            Some(b) => Ok(ExprView::Bool(b)),
            None => Err(bool_message(s)),
        },
        ScalarType::Integer(w) => match read_integer(
            s,
            parse::int_signed(w),
            parse::int_least(w),
            parse::int_greatest(w),
            int_name(w),
        ) {
            Ok(v) => Ok(ExprView::Integer(parse::integer_as(w, v))),
            Err(m) => Err(m),
        },
        ScalarType::Float(w) => match w {
            FloatType::F32 => match read_float(s, "f32"@) {
                Ok(t) => Ok(ExprView::Float(FloatView::F32(t))),
                Err(m) => Err(m),
            },
            FloatType::F64 => match read_float(s, "f64"@) {
                Ok(t) => Ok(ExprView::Float(FloatView::F64(t))),
                Err(m) => Err(m),
            },
        },
        ScalarType::Str => Ok(ExprView::Str(s)),
    }
}

/// Why the text of a variable is no value of a leaf.
#[derive(Debug, PartialEq, Eq)]
pub enum Failure {
    /// The text is no value of the type; the string is the message.
    Deserialization(String),
    /// The parser of a list refused the text; the string is what the
    /// parser said.
    Parse(String),
}

/// Why a text is no value, as contracts see it.
pub enum FailureView {
    Deserialization(Seq<char>),
    Parse(Seq<char>),
}

impl View for Failure {
    type V = FailureView;

    open spec fn view(&self) -> FailureView {
        match self {
            Failure::Deserialization(m) => FailureView::Deserialization(m@),
            Failure::Parse(m) => FailureView::Parse(m@),
        }
    }
}

/// What the text of a variable is read as for a leaf of the given type.
pub open spec fn read_leaf(ty: LeafType, s: Seq<char>) -> Result<ExprView, FailureView> {
    match ty {
        LeafType::Scalar(t) => match read_scalar(t, s) {
            Ok(v) => Ok(v),
            Err(m) => Err(FailureView::Deserialization(m)),
        },
        LeafType::Enum(names) => if is_variant(s, names@) {
            Ok(ExprView::Str(s))
        } else {
            Err(FailureView::Deserialization(variant_message(s, names@)))
        },
        LeafType::List(sep, t) => match parse::parse_list(sep, t, s) {
            Ok(items) => Ok(ExprView::Array(items)),
            Err(m) => Err(FailureView::Parse(m)),
        },
        LeafType::Custom => Err(FailureView::Parse(no_parser())),
    }
}

/// The words for a leaf that needs a parser of the application where
/// none is at hand.
pub open spec fn no_parser() -> Seq<char> {
    "no parser is given for this field"@
}

impl Deserializer {
    fn integer(self, ty: IntType) -> (r: Result<Integer, DeError>)
        ensures
            match read_integer(
                self.value@,
                parse::int_signed(ty),
                parse::int_least(ty),
                parse::int_greatest(ty),
                int_name(ty),
            ) {
                Ok(v) => r == Ok::<Integer, DeError>(parse::integer_as(ty, v)),
                Err(m) => r is Err && r->Err_0.0@ == m,
            },
    {
        match ty {
            IntType::U8 => match self.deserialize_u8() {
                Ok(v) => Ok(Integer::U8(v)),
                Err(e) => Err(e),
            },
            IntType::U16 => match self.deserialize_u16() {
                Ok(v) => Ok(Integer::U16(v)),
                Err(e) => Err(e),
            },
            IntType::U32 => match self.deserialize_u32() {
                Ok(v) => Ok(Integer::U32(v)),
                Err(e) => Err(e),
            },
            IntType::U64 => match self.deserialize_u64() {
                Ok(v) => Ok(Integer::U64(v)),
                Err(e) => Err(e),
            },
            IntType::I8 => match self.deserialize_i8() {
                Ok(v) => Ok(Integer::I8(v)),
                Err(e) => Err(e),
            },
            IntType::I16 => match self.deserialize_i16() {
                Ok(v) => Ok(Integer::I16(v)),
                Err(e) => Err(e),
            },
            IntType::I32 => match self.deserialize_i32() {
                Ok(v) => Ok(Integer::I32(v)),
                Err(e) => Err(e),
            },
            IntType::I64 => match self.deserialize_i64() {
                Ok(v) => Ok(Integer::I64(v)),
                Err(e) => Err(e),
            },
        }
    }

    /// The text as a value of the given type.
    pub fn deserialize(self, ty: ScalarType) -> (r: Result<Expr, DeError>)
        ensures
            match read_scalar(ty, self.value@) {
                Ok(v) => r is Ok && r->Ok_0@ == v,
                Err(m) => r is Err && r->Err_0.0@ == m,
            },
    {
        match ty {
            ScalarType::Bool => match self.deserialize_bool() {
                Ok(b) => Ok(Expr::Bool(b)),
                Err(e) => Err(e),
            },
            ScalarType::Integer(w) => match self.integer(w) {
                Ok(i) => Ok(Expr::Integer(i)),
                Err(e) => Err(e),
            },
            ScalarType::Float(w) => match w {
                FloatType::F32 => match self.deserialize_f32() {
                    Ok(f) => Ok(Expr::Float(f)),
                    Err(e) => Err(e),
                },
                FloatType::F64 => match self.deserialize_f64() {
                    Ok(f) => Ok(Expr::Float(f)),
                    Err(e) => Err(e),
                },
            },
            ScalarType::Str => Ok(Expr::Str(self.deserialize_string())),
        }
    }
}

/// Reads the text of a variable as a value of the type of a leaf.
pub fn read(ty: &LeafType, raw: &str) -> (r: Result<Expr, Failure>)
    ensures
        match read_leaf(*ty, raw@) {
            Ok(v) => r is Ok && r->Ok_0@ == v,
            Err(f) => r is Err && r->Err_0@ == f,
        },
{
    match ty {
        LeafType::Scalar(t) => match Deserializer::new(raw.to_owned()).deserialize(*t) {
            Ok(v) => Ok(v),
            Err(e) => Err(Failure::Deserialization(e.0)),
        },
        LeafType::Enum(names) => match Deserializer::new(raw.to_owned()).deserialize_enum(names) {
            Ok(v) => Ok(Expr::Str(v)),
            Err(e) => Err(Failure::Deserialization(e.0)),
        },
        LeafType::List(sep, t) => match parse::list_by_sep(*sep, *t, raw) {
            Ok(v) => Ok(v),
            Err(m) => Err(Failure::Parse(m)),
        },
        LeafType::Custom => Err(Failure::Parse("no parser is given for this field".to_owned())),
    }
}

/// What looking up one environment variable gave.
#[derive(Debug, PartialEq, Eq)]
pub enum EnvVar {
    /// There is no such variable.
    NotPresent,
    /// The variable holds what is no Unicode text.
    NotUnicode,
    /// The text of the variable.
    Value(String),
}

/// What looking up a variable gave, as contracts see it.
pub enum EnvVarView {
    NotPresent,
    NotUnicode,
    Value(Seq<char>),
}

impl View for EnvVar {
    type V = EnvVarView;

    open spec fn view(&self) -> EnvVarView {
        match self {
            EnvVar::NotPresent => EnvVarView::NotPresent,
            EnvVar::NotUnicode => EnvVarView::NotUnicode,
            EnvVar::Value(s) => EnvVarView::Value(s@),
        }
    }
}

/// The environment as the library is given it: variables by name. A name
/// that does not occur is a variable that is not set.
#[derive(Debug)]
pub struct Env {
    pub vars: Vec<(String, EnvVar)>,
}

/// What the first entry under the name `key`, from position `i` on, holds.
pub open spec fn lookup_from(vars: Seq<(String, EnvVar)>, key: Seq<char>, i: int) -> EnvVarView
    decreases vars.len() - i,
{
    if 0 <= i < vars.len() {
        if vars[i].0@ == key {
            vars[i].1@
        } else {
            lookup_from(vars, key, i + 1)
        }
    } else {
        EnvVarView::NotPresent
    }
}

impl Env {
    /// The environment in which no variable is set.
    pub fn new() -> (r: Env)
        ensures
            r.vars@.len() == 0,
    {
        Env { vars: Vec::new() }
    }

    /// What the variable `key` holds.
    pub open spec fn lookup(&self, key: Seq<char>) -> EnvVarView {
        lookup_from(self.vars@, key, 0)
    }

    /// What the variable `key` holds.
    pub fn get(&self, key: &str) -> (r: &EnvVar)
        ensures
            r@ == self.lookup(key@),
    {
        let mut i: usize = 0;
        while i < self.vars.len()
            invariant
                i <= self.vars.len(),
                self.lookup(key@) == lookup_from(self.vars@, key@, i as int),
            decreases self.vars.len() - i,
        {
            if str_eq(self.vars[i].0.as_str(), key) {
                return &self.vars[i].1;
            }
            i += 1;
        }
        &EnvVar::NotPresent
    }
}

} // verus!
