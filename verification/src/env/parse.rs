//! Parsers for variables that hold a list: the text is cut at a
//! separator, and each piece is read as a value of the type of the items,
//! as it stands, with no white space dropped.

use vstd::prelude::*;
use crate::env::{
    check_float_text, float_error_text, int_error_text, integer_of, is_float_text, parse_integer,
};
use crate::meta::{Expr, ExprView, Float, FloatType, FloatView, IntType, Integer, ScalarType};
use crate::text::{chars_of, is_text, string_from_chars};

verus! {

/// The pieces that the first `n` characters of `s` fall into where they
/// are cut at each `sep`: one more than there are separators, empty
/// pieces included.
pub open spec fn pieces(s: Seq<char>, sep: char, n: int) -> Seq<Seq<char>>
    decreases n,
{
    if n <= 0 {
        seq![Seq::empty()]
    } else {
        let before = pieces(s, sep, n - 1);
        if s[n - 1] == sep {
            before.push(Seq::empty())
        } else {
            before.drop_last().push(before.last().push(s[n - 1]))
        }
    }
}

/// Cuts `input` at each `sep`.
pub fn split(input: &str, sep: char) -> (r: Vec<String>)
    ensures
        r@.len() == pieces(input@, sep, input@.len() as int).len(),
        forall|i: int| 0 <= i < r@.len() ==> (#[trigger] r@[i])@ == pieces(
            input@,
            sep,
            input@.len() as int,
        )[i],
{
    let all = chars_of(input);
    let mut done: Vec<String> = Vec::new();
    let mut current: Vec<char> = Vec::new();
    let mut k: usize = 0;
    while k < all.len()
        invariant
            k <= all.len(),
            all@ == input@,
            pieces(input@, sep, k as int).len() == done@.len() + 1,
            forall|i: int| 0 <= i < done@.len() ==> (#[trigger] done@[i])@ == pieces(
                input@,
                sep,
                k as int,
            )[i],
            pieces(input@, sep, k as int).last() == current@,
        decreases all.len() - k,
    {
        let ghost before = pieces(input@, sep, k as int);
        if all[k] == sep {
            done.push(string_from_chars(&current));
            current = Vec::new();
            assert(current@ =~= Seq::<char>::empty());
        } else {
            current.push(all[k]);
        }
        k += 1;
    }
    done.push(string_from_chars(&current));
    done
}

/// The words in which the parser of truth values refuses a text.
pub open spec fn bool_error_text() -> Seq<char> {
    "provided string was not `true` or `false`"@
}

/// A number as a literal of the given type.
pub open spec fn integer_as(ty: IntType, v: int) -> Integer {
    match ty {
        IntType::U8 => Integer::U8(v as u8),
        IntType::U16 => Integer::U16(v as u16),
        IntType::U32 => Integer::U32(v as u32),
        IntType::U64 => Integer::U64(v as u64),
        IntType::I8 => Integer::I8(v as i8),
        IntType::I16 => Integer::I16(v as i16),
        IntType::I32 => Integer::I32(v as i32),
        IntType::I64 => Integer::I64(v as i64),
    }
}

/// Whether the type has negative numbers.
pub open spec fn int_signed(ty: IntType) -> bool {
    ty is I8 || ty is I16 || ty is I32 || ty is I64
}

/// The least number of the type.
pub open spec fn int_least(ty: IntType) -> int {
    match ty {
        IntType::I8 => i8::MIN as int,
        IntType::I16 => i16::MIN as int,
        IntType::I32 => i32::MIN as int,
        IntType::I64 => i64::MIN as int,
        _ => 0,
    }
}

/// The greatest number of the type.
pub open spec fn int_greatest(ty: IntType) -> int {
    match ty {
        IntType::U8 => u8::MAX as int,
        IntType::U16 => u16::MAX as int,
        IntType::U32 => u32::MAX as int,
        IntType::U64 => u64::MAX as int,
        IntType::I8 => i8::MAX as int,
        IntType::I16 => i16::MAX as int,
        IntType::I32 => i32::MAX as int,
        IntType::I64 => i64::MAX as int,
    }
}

/// What the parser of an integer type makes of a text, as it stands: the
/// number, where the text is one in decimal digits with at most a sign in
/// front and fits the type; else the words of the parser.
pub open spec fn integer_item(ty: IntType, s: Seq<char>) -> Result<Integer, Seq<char>> {
    match integer_of(s, int_signed(ty)) {
        Some(v) => if int_least(ty) <= v <= int_greatest(ty) {
            Ok(integer_as(ty, v))
        } else {
            Err(int_error_text(s, int_signed(ty), int_least(ty), int_greatest(ty)))
        },
        None => Err(int_error_text(s, int_signed(ty), int_least(ty), int_greatest(ty))),
    }
}

/// What the parser of the type makes of one piece, as it stands.
pub open spec fn parse_item(ty: ScalarType, s: Seq<char>) -> Result<ExprView, Seq<char>> {
    match ty {
        ScalarType::Bool => if s == "true"@ {
            Ok(ExprView::Bool(true))
        } else if s == "false"@ {
            Ok(ExprView::Bool(false))
        } else {
            Err(bool_error_text())
        },
        ScalarType::Integer(w) => match integer_item(w, s) {
            Ok(i) => Ok(ExprView::Integer(i)),
            Err(m) => Err(m),
        },
        ScalarType::Float(w) => if is_float_text(s) {
            Ok(
                ExprView::Float(
                    match w {
                        FloatType::F32 => FloatView::F32(s),
                        FloatType::F64 => FloatView::F64(s),
                    },
                ),
            )
        } else {
            Err(float_error_text(s))
        },
        ScalarType::Str => Ok(ExprView::Str(s)),
    }
}

/// What the parser makes of the first `n` pieces: their values in order,
/// or the words for the first piece that it refuses.
pub open spec fn parse_items(ty: ScalarType, items: Seq<Seq<char>>, n: int) -> Result<
    Seq<ExprView>,
    Seq<char>,
>
    decreases n,
{
    if n <= 0 {
        Ok(Seq::empty())
    } else {
        match parse_items(ty, items, n - 1) {
            Ok(values) => match parse_item(ty, items[n - 1]) {
                Ok(v) => Ok(values.push(v)),
                Err(m) => Err(m),
            },
            Err(m) => Err(m),
        }
    }
}

/// What a list in a text is read as: the text is cut at each `sep`, and
/// every piece must be a value of the type.
pub open spec fn parse_list(sep: char, ty: ScalarType, input: Seq<char>) -> Result<
    Seq<ExprView>,
    Seq<char>,
> {
    let items = pieces(input, sep, input.len() as int);
    parse_items(ty, items, items.len() as int)
}

/// Reads a text as a number of the given type, as it stands.
pub fn parse_int(ty: IntType, s: &str) -> (r: Result<Integer, String>)
    ensures
        match integer_item(ty, s@) {
            Ok(i) => r == Ok::<Integer, String>(i),
            Err(m) => r is Err && r->Err_0@ == m,
        },
{
    match ty {
        IntType::U8 => match parse_integer::<u8>(s) {
            Ok(v) => Ok(Integer::U8(v)),
            Err(m) => Err(m),
        },
        IntType::U16 => match parse_integer::<u16>(s) {
            Ok(v) => Ok(Integer::U16(v)),
            Err(m) => Err(m),
        },
        IntType::U32 => match parse_integer::<u32>(s) {
            Ok(v) => Ok(Integer::U32(v)),
            Err(m) => Err(m),
        },
        IntType::U64 => match parse_integer::<u64>(s) {
            Ok(v) => Ok(Integer::U64(v)),
            Err(m) => Err(m),
        },
        IntType::I8 => match parse_integer::<i8>(s) {
            Ok(v) => Ok(Integer::I8(v)),
            Err(m) => Err(m),
        },
        IntType::I16 => match parse_integer::<i16>(s) {
            Ok(v) => Ok(Integer::I16(v)),
            Err(m) => Err(m),
        },
        IntType::I32 => match parse_integer::<i32>(s) {
            Ok(v) => Ok(Integer::I32(v)),
            Err(m) => Err(m),
        },
        IntType::I64 => match parse_integer::<i64>(s) {
            Ok(v) => Ok(Integer::I64(v)),
            Err(m) => Err(m),
        },
    }
}

/// Reads one piece as a value of the type, as it stands.
pub fn parse_scalar(ty: ScalarType, s: &str) -> (r: Result<Expr, String>)
    ensures
        match parse_item(ty, s@) {
            Ok(v) => r is Ok && r->Ok_0@ == v,
            Err(m) => r is Err && r->Err_0@ == m,
        },
{
    match ty {
        ScalarType::Bool => {
            let t = chars_of(s);
            if is_text(&t, "true") {
                Ok(Expr::Bool(true))
            } else if is_text(&t, "false") {
                Ok(Expr::Bool(false))
            } else {
                Err("provided string was not `true` or `false`".to_owned())
            }
        },
        ScalarType::Integer(w) => match parse_int(w, s) {
            Ok(i) => Ok(Expr::Integer(i)),
            Err(m) => Err(m),
        },
        ScalarType::Float(w) => {
            if check_float_text(s) {
                match w {
                    FloatType::F32 => Ok(Expr::Float(Float::F32(s.to_owned()))),
                    FloatType::F64 => Ok(Expr::Float(Float::F64(s.to_owned()))),
                }
            } else if s.is_empty() {
                Err("cannot parse float from empty string".to_owned())
            } else {
                Err("invalid float literal".to_owned())
            }
        },
        ScalarType::Str => Ok(Expr::Str(s.to_owned())),
    }
}

/// Cuts the text at each `sep` and reads every piece as a value of the
/// type `ty`: the values in their order, or the words of the parser for
/// the first piece that is none.
pub fn list_by_sep(sep: char, ty: ScalarType, input: &str) -> (r: Result<Expr, String>)
    ensures
        match parse_list(sep, ty, input@) {
            Ok(items) => r is Ok && r->Ok_0@ == ExprView::Array(items),
            Err(m) => r is Err && r->Err_0@ == m,
        },
{
    let parts = split(input, sep);
    let ghost items = pieces(input@, sep, input@.len() as int);
    let mut values: Vec<Expr> = Vec::new();
    let ghost mut views: Seq<ExprView> = Seq::empty();
    let mut k: usize = 0;
    while k < parts.len()
        invariant
            k <= parts.len(),
            items == pieces(input@, sep, input@.len() as int),
            parts@.len() == items.len(),
            forall|i: int| 0 <= i < parts@.len() ==> (#[trigger] parts@[i])@ == items[i],
            values@.len() == k,
            views.len() == k,
            forall|i: int| 0 <= i < k ==> values@[i]@ == views[i],
            parse_items(ty, items, k as int) == Ok::<Seq<ExprView>, Seq<char>>(views),
        decreases parts.len() - k,
    {
        match parse_scalar(ty, parts[k].as_str()) {
            Ok(v) => {
                proof {
                    assert(parts@[k as int]@ == items[k as int]);
                    views = views.push(v@);
                }
                values.push(v);
            },
            Err(m) => {
                proof {
                    assert(parts@[k as int]@ == items[k as int]);
                    assert(parse_items(ty, items, k as int + 1) == Err::<Seq<ExprView>, Seq<char>>(
                        m@,
                    ));
                    lemma_parse_items_fails(ty, items, k as int + 1, items.len() as int);
                }
                return Err(m);
            },
        }
        k += 1;
    }
    let r = Expr::Array(values);
    assert(r@->Array_0 =~= views);
    Ok(r)
}

/// Once a piece is refused, the pieces that follow change nothing.
pub proof fn lemma_parse_items_fails(ty: ScalarType, items: Seq<Seq<char>>, n: int, m: int)
    requires
        parse_items(ty, items, n) is Err,
        n <= m,
    ensures
        parse_items(ty, items, m) == parse_items(ty, items, n),
    decreases m - n,
{
    if n < m {
        lemma_parse_items_fails(ty, items, n, m - 1);
    }
}

/// A list with commas between its items.
pub fn list_by_comma(ty: ScalarType, input: &str) -> (r: Result<Expr, String>)
    ensures
        match parse_list(',', ty, input@) {
            Ok(items) => r is Ok && r->Ok_0@ == ExprView::Array(items),
            Err(m) => r is Err && r->Err_0@ == m,
        },
{
    list_by_sep(',', ty, input)
}

/// A list with semicolons between its items.
pub fn list_by_semicolon(ty: ScalarType, input: &str) -> (r: Result<Expr, String>)
    ensures
        match parse_list(';', ty, input@) {
            Ok(items) => r is Ok && r->Ok_0@ == ExprView::Array(items),
            Err(m) => r is Err && r->Err_0@ == m,
        },
{
    list_by_sep(';', ty, input)
}

/// A list with colons between its items.
pub fn list_by_colon(ty: ScalarType, input: &str) -> (r: Result<Expr, String>)
    ensures
        match parse_list(':', ty, input@) {
            Ok(items) => r is Ok && r->Ok_0@ == ExprView::Array(items),
            Err(m) => r is Err && r->Err_0@ == m,
        },
{
    list_by_sep(':', ty, input)
}

/// A list with spaces between its items.
pub fn list_by_space(ty: ScalarType, input: &str) -> (r: Result<Expr, String>)
    ensures
        match parse_list(' ', ty, input@) {
            Ok(items) => r is Ok && r->Ok_0@ == ExprView::Array(items),
            Err(m) => r is Err && r->Err_0@ == m,
        },
{
    list_by_sep(' ', ty, input)
}

} // verus!
