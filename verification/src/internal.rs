//! The steps that loading is made of: one leaf, one variable, one
//! validator at a time.

use vstd::prelude::*;
use crate::env::{
    no_parser, read, read_leaf, Deserializer, DeError, EnvVar, EnvVarView, Failure, FailureView,
};
use crate::error::{Error, ErrorInner, ErrorView};
use crate::env::parse::{int_greatest, int_least, integer_as};
use crate::env::{int_name, is_variant};
use crate::layer::option_view;
use crate::meta::{
    Expr, ExprView, Float, FloatType, FloatView, IntType, Integer, LeafType, MapEntry, MapKey,
    ScalarType,
};
use crate::text::{int_text, push_str, string_from_chars};

verus! {

/// The error of a missing value below the field `prefix`: the path of a
/// missing value gets `prefix` and a dot in front, any other error stays
/// as it is.
pub open spec fn prefixed(e: ErrorView, prefix: Seq<char>) -> ErrorView {
    match e {
        ErrorView::MissingValue(path) => ErrorView::MissingValue(prefix + "."@ + path),
        _ => e,
    }
}

/// The value of a required leaf, or the error that names the leaf as
/// missing.
pub fn unwrap_or_missing_value_err<T>(value: Option<T>, path: &str) -> (r: Result<T, Error>)
    ensures
        match value {
            Some(v) => r == Ok::<T, Error>(v),
            None => r is Err && r->Err_0@ == ErrorView::MissingValue(path@),
        },
{
    match value {
        Some(v) => Ok(v),
        None => Err(Error { inner: ErrorInner::MissingValue(path.to_owned()) }),
    }
}

/// Passes a result on from a nested configuration: the path of a missing
/// value gets the name of the field that holds the nested configuration
/// in front.
pub fn map_err_prefix_path<T>(res: Result<T, Error>, prefix: &str) -> (r: Result<T, Error>)
    ensures
        match res {
            Ok(v) => r == Ok::<T, Error>(v),
            Err(e) => r is Err && r->Err_0@ == prefixed(e@, prefix@),
        },
{
    match res {
        Ok(v) => Ok(v),
        Err(e) => match e.inner {
            ErrorInner::MissingValue(path) => {
                let mut out: Vec<char> = Vec::new();
                push_str(&mut out, prefix);
                push_str(&mut out, ".");
                push_str(&mut out, path.as_str());
                assert(out@ =~= prefix@ + "."@ + path@);
                Err(Error { inner: ErrorInner::MissingValue(string_from_chars(&out)) })
            },
            other => Err(Error { inner: other }),
        },
    }
}

/// What binding a leaf to the text of its variable gives, once the text
/// was read: the value; no value where an empty text was refused; else
/// the error that names the field and the variable.
pub open spec fn env_outcome<T>(
    raw: Seq<char>,
    read: Result<T, FailureView>,
    key: Seq<char>,
    field: Seq<char>,
) -> Result<Option<T>, ErrorView> {
    match read {
        Ok(v) => Ok(Some(v)),
        Err(f) => if raw.len() == 0 {
            Ok(None)
        } else {
            match f {
                FailureView::Deserialization(msg) => Err(
                    ErrorView::EnvDeserialization { field, key, msg },
                ),
                FailureView::Parse(err) => Err(ErrorView::EnvParseError { field, key, err }),
            }
        },
    }
}

/// Whether `r` is the outcome `expected`.
pub open spec fn is_outcome<T>(r: Result<Option<T>, Error>, expected: Result<Option<T>, ErrorView>) -> bool {
    match expected {
        Ok(v) => r == Ok::<Option<T>, Error>(v),
        Err(e) => r is Err && r->Err_0@ == e,
    }
}

/// Binds a leaf to the text of its variable, once the text was read. A
/// text that was refused counts as no value where it is empty: a variable
/// that is exported without a value is as good as one that is not set.
pub fn bind<T>(raw: &str, outcome: Result<T, Failure>, key: &str, field: &str) -> (r: Result<
    Option<T>,
    Error,
>)
    ensures
        is_outcome(
            r,
            env_outcome(
                raw@,
                match outcome {
                    Ok(v) => Ok(v),
                    Err(f) => Err(f@),
                },
                key@,
                field@,
            ),
        ),
        raw@.len() == 0 && outcome is Err ==> r == Ok::<Option<T>, Error>(None),
{
    match outcome {
        Ok(v) => Ok(Some(v)),
        Err(f) => {
            if raw.is_empty() {
                Ok(None)
            } else {
                match f {
                    Failure::Deserialization(msg) => Err(
                        Error {
                            inner: ErrorInner::EnvDeserialization {
                                field: field.to_owned(),
                                key: key.to_owned(),
                                msg,
                            },
                        },
                    ),
                    Failure::Parse(err) => Err(
                        Error {
                            inner: ErrorInner::EnvParseError {
                                field: field.to_owned(),
                                key: key.to_owned(),
                                err,
                            },
                        },
                    ),
                }
            }
        },
    }
}

/// The error for a variable that holds no Unicode text.
fn not_unicode(key: &str, field: &str) -> (e: Error)
    ensures
        e@ == (ErrorView::EnvNotUnicode { field: field@, key: key@ }),
{
    Error { inner: ErrorInner::EnvNotUnicode { field: field.to_owned(), key: key.to_owned() } }
}

/// What the parsers and the validators of an application do, as
/// functions: `parse` is given the name of a field and the text of its
/// variable, `check` the name of a field and its value. Both answer with
/// a message where they refuse.
pub struct Rules {
    pub parse: spec_fn(Seq<char>, Seq<char>) -> Result<ExprView, Seq<char>>,
    pub check: spec_fn(Seq<char>, ExprView) -> Result<(), Seq<char>>,
}

/// The rules of an application without parsers and validators of its
/// own.
pub open spec fn no_rules() -> Rules {
    Rules {
        parse: |field: Seq<char>, raw: Seq<char>| Err::<ExprView, Seq<char>>(no_parser()),
        check: |field: Seq<char>, value: ExprView| Ok::<(), Seq<char>>(()),
    }
}

/// The view of what a parser gave.
pub open spec fn parsed_view(r: Result<Expr, String>) -> Result<ExprView, Seq<char>> {
    match r {
        Ok(v) => Ok(v@),
        Err(e) => Err(e@),
    }
}

/// The view of what a validator gave.
pub open spec fn verdict_view(r: Result<(), String>) -> Result<(), Seq<char>> {
    match r {
        Ok(_) => Ok(()),
        Err(e) => Err(e@),
    }
}

/// Whether the validator of an application is what the rules say:
/// whatever it returns is what the rules give for the same name and the
/// same value.
pub open spec fn checks<V>(validate: &V, rules: Rules) -> bool where
    V: Fn(&String, &Expr) -> Result<(), String>,
 {
    forall|f: &String, v: &Expr, out: Result<(), String>| #[trigger]
        call_ensures(*validate, (f, v), out) ==> verdict_view(out) == (rules.check)(f@, v@)
}

/// Whether the parser and the validator of an application are what the
/// rules say: whatever they return is what the rules give for the same
/// name and the same text or value.
pub open spec fn obeys<P, V>(parse: &P, validate: &V, rules: Rules) -> bool where
    P: Fn(&String, &String) -> Result<Expr, String>,
    V: Fn(&String, &Expr) -> Result<(), String>,
 {
    &&& forall|f: &String, raw: &String, out: Result<Expr, String>| #[trigger]
        call_ensures(*parse, (f, raw), out) ==> parsed_view(out) == (rules.parse)(f@, raw@)
    &&& checks(validate, rules)
}

/// Whether the parser and the validator can be called on anything.
pub open spec fn callable<P, V>(parse: &P, validate: &V) -> bool where
    P: Fn(&String, &String) -> Result<Expr, String>,
    V: Fn(&String, &Expr) -> Result<(), String>,
 {
    &&& forall|f: &String, raw: &String| call_requires(*parse, (f, raw))
    &&& forall|f: &String, v: &Expr| call_requires(*validate, (f, v))
}

/// The message of a validator that refuses a value, as it is reported.
pub open spec fn refusal(msg: Seq<char>) -> Seq<char> {
    "validation error: "@ + msg
}

/// What the text of a variable is read as for a leaf, under the rules of
/// the application: the parser of the application reads where the type of
/// the leaf asks for it; the validator then sees every value that was
/// read, and what it refuses counts as not read.
pub open spec fn read_with(ty: LeafType, raw: Seq<char>, field: Seq<char>, rules: Rules) -> Result<
    ExprView,
    FailureView,
> {
    let first = if ty is Custom {
        match (rules.parse)(field, raw) {
            Ok(v) => Ok(v),
            Err(m) => Err(FailureView::Parse(m)),
        }
    } else {
        read_leaf(ty, raw)
    };
    match first {
        Ok(v) => match (rules.check)(field, v) {
            Ok(_) => Ok(v),
            Err(m) => if ty is Scalar || ty is Enum {
                Err(FailureView::Deserialization(refusal(m)))
            } else {
                Err(FailureView::Parse(refusal(m)))
            },
        },
        Err(f) => Err(f),
    }
}

/// What a leaf of the given type has from its variable: no value where
/// the variable is not set, an error where it holds no Unicode text, else
/// what its text is read as; a text that is refused counts as no value
/// where it is empty.
pub open spec fn leaf_from_env(
    var: EnvVarView,
    ty: LeafType,
    key: Seq<char>,
    field: Seq<char>,
    rules: Rules,
) -> Result<Option<ExprView>, ErrorView> {
    match var {
        EnvVarView::NotPresent => Ok(None),
        EnvVarView::NotUnicode => Err(ErrorView::EnvNotUnicode { field, key }),
        EnvVarView::Value(s) => env_outcome(s, read_with(ty, s, field, rules), key, field),
    }
}

/// An empty text is never an error: a variable that holds the empty text
/// gives the value that the text is read as, or no value where the text is
/// refused, by the type of the leaf, by a parser or by a validator.
pub proof fn lemma_empty_text_is_unset(ty: LeafType, key: Seq<char>, field: Seq<char>, rules: Rules)
    ensures
        leaf_from_env(EnvVarView::Value(Seq::empty()), ty, key, field, rules) is Ok,
        read_with(ty, Seq::empty(), field, rules) is Err ==> leaf_from_env(
            EnvVarView::Value(Seq::empty()),
            ty,
            key,
            field,
            rules,
        ) == Ok::<Option<ExprView>, ErrorView>(None),
{
}

/// Whether `r` is the value of a leaf, or the error, that `expected`
/// says.
pub open spec fn is_leaf(r: Result<Option<Expr>, Error>, expected: Result<
    Option<ExprView>,
    ErrorView,
>) -> bool {
    match expected {
        Ok(v) => r is Ok && option_view(r->Ok_0) == v,
        Err(e) => r is Err && r->Err_0@ == e,
    }
}

/// The value of a leaf from its environment variable, read by the type
/// of the leaf.
pub fn from_env(var: &EnvVar, key: &str, field: &str, ty: &LeafType) -> (r: Result<
    Option<Expr>,
    Error,
>)
    ensures
        is_leaf(r, leaf_from_env(var@, *ty, key@, field@, no_rules())),
{
    match var {
        EnvVar::NotPresent => Ok(None),
        EnvVar::NotUnicode => Err(not_unicode(key, field)),
        EnvVar::Value(s) => {
            let outcome = read(ty, s.as_str());
            bind(s.as_str(), outcome, key, field)
        },
    }
}

/// The value of a leaf from its environment variable, read by the type
/// of the leaf or, where the type asks for it, by the parser of the
/// application, and then checked by the validator of the application.
pub fn from_env_with<P, V>(
    var: &EnvVar,
    key: &str,
    field: &String,
    ty: &LeafType,
    parse: &P,
    validate: &V,
) -> (r: Result<Option<Expr>, Error>) where
    P: Fn(&String, &String) -> Result<Expr, String>,
    V: Fn(&String, &Expr) -> Result<(), String>,

    requires
        callable(parse, validate),
    ensures
        forall|rules: Rules| #[trigger]
            obeys(parse, validate, rules) ==> is_leaf(
                r,
                leaf_from_env(var@, *ty, key@, field@, rules),
            ),
{
    match var {
        EnvVar::NotPresent => Ok(None),
        EnvVar::NotUnicode => Err(not_unicode(key, field.as_str())),
        EnvVar::Value(s) => {
            let first = match ty {
                LeafType::Custom => match parse(field, s) {
                    Ok(v) => Ok(v),
                    Err(m) => Err(Failure::Parse(m)),
                },
                _ => read(ty, s.as_str()),
            };
            let outcome = match first {
                Ok(v) => match field_verdict(validate(field, &v)) {
                    Ok(_) => Ok(v),
                    Err(m) => match ty {
                        LeafType::Scalar(_) => Err(Failure::Deserialization(m)),
                        LeafType::Enum(_) => Err(Failure::Deserialization(m)),
                        _ => Err(Failure::Parse(m)),
                    },
                },
                Err(f) => Err(f),
            };
            let r = bind(s.as_str(), outcome, key, field.as_str());
            assert forall|rules: Rules| #[trigger] obeys(parse, validate, rules) implies is_leaf(
                r,
                leaf_from_env(var@, *ty, key@, field@, rules),
            ) by {
                let expected = read_with(*ty, s@, field@, rules);
                assert(match expected {
                    Ok(v) => outcome is Ok && outcome->Ok_0@ == v,
                    Err(f) => outcome is Err && outcome->Err_0@ == f,
                });
            }
            r
        },
    }
}

/// Runs a validator on the value of a field. The message of a validator
/// that refuses the value comes back behind the words
/// `validation error: `.
pub fn do_validate_field<T, V: FnOnce(&T) -> Result<(), String>>(t: &T, validate: V) -> (r: Result<
    (),
    String,
>)
    requires
        call_requires(validate, (t,)),
    ensures
        exists|verdict: Result<(), String>| #[trigger]
            call_ensures(validate, (t,), verdict) && validated(verdict, r),
{
    let verdict = validate(t);
    field_verdict(verdict)
}

/// Whether `r` is what the verdict of a validator on a field comes back
/// as.
pub open spec fn validated(verdict: Result<(), String>, r: Result<(), String>) -> bool {
    match verdict {
        Ok(_) => r is Ok,
        Err(e) => r is Err && r->Err_0@ == "validation error: "@ + e@,
    }
}

/// What the verdict of a validator on a field comes back as.
pub fn field_verdict(verdict: Result<(), String>) -> (r: Result<(), String>)
    ensures
        validated(verdict, r),
{
    match verdict {
        Ok(_) => Ok(()),
        Err(e) => {
            let mut msg: Vec<char> = Vec::new();
            push_str(&mut msg, "validation error: ");
            push_str(&mut msg, e.as_str());
            Err(string_from_chars(&msg))
        },
    }
}

/// What the verdict of the validator of a configuration type comes back
/// as: the configuration, or the error of a failed validation with the
/// message of the validator.
pub fn struct_verdict<T>(value: T, verdict: Result<(), String>) -> (r: Result<T, Error>)
    ensures
        match verdict {
            Ok(_) => r == Ok::<T, Error>(value),
            Err(e) => r is Err && r->Err_0@ == (ErrorView::Validation { msg: e@ }),
        },
{
    match verdict {
        Ok(_) => Ok(value),
        Err(e) => Err(Error { inner: ErrorInner::Validation { msg: e } }),
    }
}

/// Runs the validator of a configuration type on the configuration that
/// all layers were merged into.
pub fn validate_struct<T, V: FnOnce(&T) -> Result<(), String>>(value: T, validate: V) -> (r: Result<
    T,
    Error,
>)
    requires
        call_requires(validate, (&value,)),
    ensures
        exists|verdict: Result<(), String>| #[trigger]
            call_ensures(validate, (&value,), verdict) && match verdict {
                Ok(_) => r == Ok::<T, Error>(value),
                Err(e) => r is Err && r->Err_0@ == (ErrorView::Validation { msg: e@ }),
            },
{
    let verdict = validate(&value);
    struct_verdict(value, verdict)
}

/// The value of a leaf from its environment variable, read by a parser
/// that the schema names, and then checked by the validator of the leaf.
/// What the validator refuses counts as what the parser refuses.
pub fn from_env_with_parser<T, P, V>(
    var: &EnvVar,
    key: &str,
    field: &str,
    parse: P,
    validate: V,
) -> (r: Result<Option<T>, Error>) where
    P: FnOnce(&String) -> Result<T, String>,
    V: FnOnce(&T) -> Result<(), String>,

    requires
        var matches EnvVar::Value(s) ==> call_requires(parse, (&s,)),
        forall|v: T| call_requires(validate, (&v,)),
    ensures
        var is NotPresent ==> r == Ok::<Option<T>, Error>(None),
        var is NotUnicode ==> r is Err && r->Err_0@ == (ErrorView::EnvNotUnicode {
            field: field@,
            key: key@,
        }),
        var matches EnvVar::Value(s) ==> exists|parsed: Result<T, String>| #[trigger]
            call_ensures(parse, (&s,), parsed) && match parsed {
                Ok(v) => exists|verdict: Result<(), String>| #[trigger]
                    call_ensures(validate, (&v,), verdict) && match verdict {
                        Ok(_) => r == Ok::<Option<T>, Error>(Some(v)),
                        Err(e) => is_outcome(
                            r,
                            env_outcome(
                                s@,
                                Err(FailureView::Parse("validation error: "@ + e@)),
                                key@,
                                field@,
                            ),
                        ),
                    },
                Err(e) => is_outcome(
                    r,
                    env_outcome(s@, Err(FailureView::Parse(e@)), key@, field@),
                ),
            },
        var matches EnvVar::Value(s) ==> (s@.len() == 0 && !(r matches Ok(Some(_))) ==> r == Ok::<
            Option<T>,
            Error,
        >(None)),
{
    match var {
        EnvVar::NotPresent => Ok(None),
        EnvVar::NotUnicode => Err(not_unicode(key, field)),
        EnvVar::Value(s) => {
            let parsed = parse(s);
            match parsed {
                Ok(v) => {
                    let verdict = validate(&v);
                    match field_verdict(verdict) {
                        Ok(_) => Ok(Some(v)),
                        Err(msg) => bind(s.as_str(), Err(Failure::Parse(msg)), key, field),
                    }
                },
                Err(e) => bind(s.as_str(), Err(Failure::Parse(e)), key, field),
            }
        },
    }
}

/// The value of a leaf from its environment variable, read by a function
/// that is handed the text of the variable.
pub fn from_env_with_deserializer<T, D>(var: &EnvVar, key: &str, field: &str, deserialize: D) -> (r:
    Result<Option<T>, Error>) where D: FnOnce(Deserializer) -> Result<T, DeError>
    requires
        forall|d: Deserializer| call_requires(deserialize, (d,)),
    ensures
        var is NotPresent ==> r == Ok::<Option<T>, Error>(None),
        var is NotUnicode ==> r is Err && r->Err_0@ == (ErrorView::EnvNotUnicode {
            field: field@,
            key: key@,
        }),
        var matches EnvVar::Value(s) ==> exists|d: Deserializer, read: Result<T, DeError>|
            d.value@ == s@ && #[trigger] call_ensures(deserialize, (d,), read) && is_outcome(
                r,
                env_outcome(
                    s@,
                    match read {
                        Ok(v) => Ok(v),
                        Err(e) => Err(FailureView::Deserialization(e.0@)),
                    },
                    key@,
                    field@,
                ),
            ),
{
    match var {
        EnvVar::NotPresent => Ok(None),
        EnvVar::NotUnicode => Err(not_unicode(key, field)),
        EnvVar::Value(s) => {
            let d = Deserializer::new(s.clone());
            let outcome = match deserialize(d) {
                Ok(v) => Ok(v),
                Err(e) => Err(Failure::Deserialization(e.0)),
            };
            bind(s.as_str(), outcome, key, field)
        },
    }
}

/// A literal as a value of the type of one value: a truth value for a
/// truth value, a string for a string; an integer for an integer type
/// that has the number; a floating-point number or an integer for a
/// floating-point type. `None` where the literal is no such value.
pub open spec fn scalar_default(t: ScalarType, v: ExprView) -> Option<ExprView> {
    match t {
        ScalarType::Bool => if v is Bool {
            Some(v)
        } else {
            None
        },
        ScalarType::Integer(w) => match v {
            ExprView::Integer(i) => if int_least(w) <= i.value() <= int_greatest(w) {
                Some(ExprView::Integer(integer_as(w, i.value())))
            } else {
                None
            },
            _ => None,
        },
        ScalarType::Float(w) => match v {
            ExprView::Float(f) => Some(ExprView::Float(float_as(w, f.text()))),
            ExprView::Integer(i) => Some(ExprView::Float(float_as(w, int_text(i.value())))),
            _ => None,
        },
        ScalarType::Str => if v is Str {
            Some(v)
        } else {
            None
        },
    }
}

/// A text as a floating-point literal of the given type.
pub open spec fn float_as(w: FloatType, text: Seq<char>) -> FloatView {
    match w {
        FloatType::F32 => FloatView::F32(text),
        FloatType::F64 => FloatView::F64(text),
    }
}

/// The first `n` items of an array as values of the type `t`; `None`
/// where one of them is none.
pub open spec fn defaults_upto(t: ScalarType, items: Seq<ExprView>, n: int) -> Option<Seq<ExprView>>
    decreases n,
{
    if n <= 0 {
        Some(Seq::empty())
    } else {
        match (defaults_upto(t, items, n - 1), scalar_default(t, items[n - 1])) {
            (Some(before), Some(v)) => Some(before.push(v)),
            _ => None,
        }
    }
}

/// A literal as a value of the type of a leaf: the literal itself for a
/// leaf that a parser of the application reads; one of the names for an
/// enumeration; an array of values of the item type, in their order, for
/// a list. `None` where the literal is no value of the type.
pub open spec fn default_of(ty: LeafType, v: ExprView) -> Option<ExprView> {
    match ty {
        LeafType::Scalar(t) => scalar_default(t, v),
        LeafType::Enum(names) => match v {
            ExprView::Str(s) => if is_variant(s, names@) {
                Some(v)
            } else {
                None
            },
            _ => None,
        },
        LeafType::List(sep, t) => match v {
            ExprView::Array(items) => match defaults_upto(t, items, items.len() as int) {
                Some(values) => Some(ExprView::Array(values)),
                None => None,
            },
            _ => None,
        },
        LeafType::Custom => Some(v),
    }
}

/// What a leaf of the given type takes.
pub open spec fn describe(ty: LeafType) -> Seq<char> {
    match ty {
        LeafType::Scalar(t) => match t {
            ScalarType::Bool => "a boolean"@,
            ScalarType::Integer(w) => int_name(w),
            ScalarType::Float(w) => match w {
                FloatType::F32 => "f32"@,
                FloatType::F64 => "f64"@,
            },
            ScalarType::Str => "a string"@,
        },
        LeafType::Enum(_) => "the name of a variant"@,
        LeafType::List(_, _) => "a sequence"@,
        LeafType::Custom => "a value"@,
    }
}

/// The message for a default that is no value of the type of its leaf.
pub open spec fn misfit(ty: LeafType) -> Seq<char> {
    "invalid default, expected "@ + describe(ty)
}

/// Once an item is no value of the type, the items that follow change
/// nothing.
pub proof fn lemma_defaults_fail(t: ScalarType, items: Seq<ExprView>, n: int, m: int)
    requires
        defaults_upto(t, items, n) is None,
        n <= m,
    ensures
        defaults_upto(t, items, m) is None,
    decreases m - n,
{
    if n < m {
        lemma_defaults_fail(t, items, n, m - 1);
    }
}

fn integer_between(i: &Integer, least: i128, greatest: i128) -> (r: Option<i128>)
    requires
        greatest <= 0xffff_ffff_ffff_ffff,
    ensures
        match r {
            Some(v) => v == i.value() && least <= v <= greatest,
            None => !(least <= i.value() <= greatest),
        },
{
    let v: i128 = match *i {
        Integer::U8(v) => v as i128,
        Integer::U16(v) => v as i128,
        Integer::U32(v) => v as i128,
        Integer::U64(v) => v as i128,
        Integer::U128(v) => if v <= 0xffff_ffff_ffff_ffff {
            v as i128
        } else {
            return None;
        },
        Integer::Usize(v) => v as i128,
        Integer::I8(v) => v as i128,
        Integer::I16(v) => v as i128,
        Integer::I32(v) => v as i128,
        Integer::I64(v) => v as i128,
        Integer::I128(v) => v,
        Integer::Isize(v) => v as i128,
    };
    if least <= v && v <= greatest {
        Some(v)
    } else {
        None
    }
}

fn convert_integer(w: IntType, i: &Integer) -> (r: Option<Integer>)
    ensures
        r == if int_least(w) <= i.value() <= int_greatest(w) {
            Some(integer_as(w, i.value()))
        } else {
            None
        },
{
    match w {
        IntType::U8 => match integer_between(i, 0, 0xff) {
            Some(v) => Some(Integer::U8(v as u8)),
            None => None,
        },
        IntType::U16 => match integer_between(i, 0, 0xffff) {
            Some(v) => Some(Integer::U16(v as u16)),
            None => None,
        },
        IntType::U32 => match integer_between(i, 0, 0xffff_ffff) {
            Some(v) => Some(Integer::U32(v as u32)),
            None => None,
        },
        IntType::U64 => match integer_between(i, 0, 0xffff_ffff_ffff_ffff) {
            Some(v) => Some(Integer::U64(v as u64)),
            None => None,
        },
        IntType::I8 => match integer_between(i, -0x80, 0x7f) {
            Some(v) => Some(Integer::I8(v as i8)),
            None => None,
        },
        IntType::I16 => match integer_between(i, -0x8000, 0x7fff) {
            Some(v) => Some(Integer::I16(v as i16)),
            None => None,
        },
        IntType::I32 => match integer_between(i, -0x8000_0000, 0x7fff_ffff) {
            Some(v) => Some(Integer::I32(v as i32)),
            None => None,
        },
        IntType::I64 => match integer_between(i, -0x8000_0000_0000_0000, 0x7fff_ffff_ffff_ffff) {
            Some(v) => Some(Integer::I64(v as i64)),
            None => None,
        },
    }
}

fn make_float(w: FloatType, text: String) -> (r: Float)
    ensures
        r@ == float_as(w, text@),
{
    match w {
        FloatType::F32 => Float::F32(text),
        FloatType::F64 => Float::F64(text),
    }
}

fn scalar_to_default(t: ScalarType, src: &Expr) -> (r: Option<Expr>)
    ensures
        match scalar_default(t, src@) {
            Some(v) => r is Some && r->0@ == v,
            None => r is None,
        },
{
    match t {
        ScalarType::Bool => match src {
            Expr::Bool(b) => Some(Expr::Bool(*b)),
            _ => None,
        },
        ScalarType::Integer(w) => match src {
            Expr::Integer(i) => match convert_integer(w, i) {
                Some(c) => Some(Expr::Integer(c)),
                None => None,
            },
            _ => None,
        },
        ScalarType::Float(w) => match src {
            Expr::Float(f) => Some(Expr::Float(make_float(w, f.to_string()))),
            Expr::Integer(i) => Some(Expr::Float(make_float(w, i.to_string()))),
            _ => None,
        },
        ScalarType::Str => match src {
            Expr::Str(s) => Some(Expr::Str(s.clone())),
            _ => None,
        },
    }
}

/// Appends what a leaf of the given type takes.
pub fn push_description(out: &mut Vec<char>, ty: &LeafType)
    ensures
        final(out)@ == old(out)@ + describe(*ty),
{
    match ty {
        LeafType::Scalar(t) => match t {
            ScalarType::Bool => push_str(out, "a boolean"),
            ScalarType::Integer(w) => match w {
                IntType::U8 => push_str(out, "u8"),
                IntType::U16 => push_str(out, "u16"),
                IntType::U32 => push_str(out, "u32"),
                IntType::U64 => push_str(out, "u64"),
                IntType::I8 => push_str(out, "i8"),
                IntType::I16 => push_str(out, "i16"),
                IntType::I32 => push_str(out, "i32"),
                IntType::I64 => push_str(out, "i64"),
            },
            ScalarType::Float(w) => match w {
                FloatType::F32 => push_str(out, "f32"),
                FloatType::F64 => push_str(out, "f64"),
            },
            ScalarType::Str => push_str(out, "a string"),
        },
        LeafType::Enum(_) => push_str(out, "the name of a variant"),
        LeafType::List(_, _) => push_str(out, "a sequence"),
        LeafType::Custom => push_str(out, "a value"),
    }
}

fn misfit_message(ty: &LeafType) -> (r: String)
    ensures
        r@ == misfit(*ty),
{
    let mut msg: Vec<char> = Vec::new();
    push_str(&mut msg, "invalid default, expected ");
    push_description(&mut msg, ty);
    string_from_chars(&msg)
}

fn is_name(s: &String, names: &Vec<String>) -> (b: bool)
    ensures
        b == is_variant(s@, names@),
{
    let mut k: usize = 0;
    while k < names.len()
        invariant
            k <= names.len(),
            forall|j: int| 0 <= j < k ==> (#[trigger] names@[j])@ != s@,
        decreases names.len() - k,
    {
        if names[k] == *s {
            return true;
        }
        k += 1;
    }
    false
}

/// Reads a default as a value of the type of its leaf. An integer
/// becomes one of the integer type of the leaf where that type has the
/// number, and a floating-point number for a floating-point leaf; the
/// items of a list stay in their order. The error is a message: a default
/// that is no value of the type of its leaf is a mistake in the schema.
pub fn deserialize_default(src: &Expr, ty: &LeafType) -> (r: Result<Expr, String>)
    ensures
        match default_of(*ty, src@) {
            Some(v) => r is Ok && r->Ok_0@ == v,
            None => r is Err && r->Err_0@ == misfit(*ty),
        },
{
    let made = match ty {
        LeafType::Scalar(t) => scalar_to_default(*t, src),
        LeafType::Enum(names) => match src {
            Expr::Str(s) => if is_name(s, names) {
                Some(Expr::Str(s.clone()))
            } else {
                None
            },
            _ => None,
        },
        LeafType::List(sep, t) => match src {
            Expr::Array(items) => {
                let ghost views = src@->Array_0;
                let mut values: Vec<Expr> = Vec::new();
                let ghost mut made: Seq<ExprView> = Seq::empty();
                let mut k: usize = 0;
                let mut ok = true;
                while k < items.len() && ok
                    invariant
                        k <= items.len(),
                        views.len() == items@.len(),
                        forall|j: int| 0 <= j < views.len() ==> views[j] == items@[j]@,
                        ok ==> values@.len() == k && made.len() == k && (forall|j: int|
                            0 <= j < k ==> values@[j]@ == made[j]) && defaults_upto(
                            *t,
                            views,
                            k as int,
                        ) == Some(made),
                        !ok ==> defaults_upto(*t, views, views.len() as int) is None,
                    decreases items.len() - k + (if ok { 1int } else { 0int }),
                {
                    match scalar_to_default(*t, &items[k]) {
                        Some(v) => {
                            proof {
                                made = made.push(v@);
                            }
                            values.push(v);
                            k += 1;
                        },
                        None => {
                            proof {
                                lemma_defaults_fail(*t, views, k + 1, views.len() as int);
                            }
                            ok = false;
                        },
                    }
                }
                if ok {
                    let r = Expr::Array(values);
                    assert(r@->Array_0 =~= made);
                    Some(r)
                } else {
                    None
                }
            },
            _ => None,
        },
        LeafType::Custom => Some(src.clone()),
    };
    match made {
        Some(v) => Ok(v),
        None => Err(misfit_message(ty)),
    }
}

/// The items of an array literal, to be read in the order in which they
/// were written.
#[derive(Debug, PartialEq)]
pub struct ArrayIntoDeserializer(pub Vec<Expr>);

impl ArrayIntoDeserializer {
    /// The array of the items, in their order.
    pub fn into_deserializer(self) -> (r: Expr)
        ensures
            r == Expr::Array(self.0),
    {
        Expr::Array(self.0)
    }
}

/// The entries of a map literal, to be read in the order in which they
/// were written.
#[derive(Debug, PartialEq)]
pub struct MapIntoDeserializer(pub Vec<(MapKey, Expr)>);

impl MapIntoDeserializer {
    /// The map of the entries, in their order.
    pub fn into_deserializer(self) -> (r: Expr)
        ensures
            r@ is Dict,
            r@->Dict_0.len() == self.0@.len(),
            forall|i: int|
                0 <= i < self.0@.len() ==> (#[trigger] r@->Dict_0[i]) == (
                    self.0@[i].0@,
                    self.0@[i].1@,
                ),
    {
        let mut source = self.0;
        let ghost all = source@;
        let mut reversed: Vec<MapEntry> = Vec::new();
        while source.len() > 0
            invariant
                source@.len() + reversed@.len() == all.len(),
                source@ == all.take(source@.len() as int),
                forall|j: int|
                    0 <= j < reversed@.len() ==> (
                        (#[trigger] reversed@[j]).key@,
                        reversed@[j].value@,
                    ) == (all[all.len() - 1 - j].0@, all[all.len() - 1 - j].1@),
            decreases source.len(),
        {
            let ghost before = source@;
            match source.pop() {
                Some((key, value)) => {
                    reversed.push(MapEntry { key, value });
                    assert(source@ =~= all.take(source@.len() as int));
                },
                None => {},
            }
        }
        let mut entries: Vec<MapEntry> = Vec::new();
        while reversed.len() > 0
            invariant
                entries@.len() + reversed@.len() == all.len(),
                forall|j: int|
                    0 <= j < reversed@.len() ==> (
                        (#[trigger] reversed@[j]).key@,
                        reversed@[j].value@,
                    ) == (all[all.len() - 1 - j].0@, all[all.len() - 1 - j].1@),
                forall|j: int|
                    0 <= j < entries@.len() ==> ((#[trigger] entries@[j]).key@, entries@[j].value@)
                        == (all[j].0@, all[j].1@),
            decreases reversed.len(),
        {
            match reversed.pop() {
                Some(entry) => {
                    entries.push(entry);
                },
                None => {},
            }
        }
        Expr::Dict(entries)
    }
}

} // verus!
