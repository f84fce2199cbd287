//! Literals as a schema is written with them, before their types are
//! known: a number has at most a suffix that names its type. The type of
//! the field that a literal is the default of settles the widths that the
//! suffixes leave open.

use vstd::prelude::*;
use crate::meta::{Expr, ExprView, Float, FloatView, Integer, MapEntry, MapKey, MapKeyView};
use crate::text::str_eq;

verus! {

/// A literal of one value, as written.
#[derive(Debug, PartialEq, Eq)]
pub enum Lit {
    Str(String),
    /// An integer without sign, with the suffix that follows its digits;
    /// the suffix is empty where there is none.
    Int { value: u128, suffix: String },
    /// A floating-point number by its text without the suffix, and the
    /// suffix.
    Float { text: String, suffix: String },
    Bool(bool),
}

/// A literal, as written.
#[derive(Debug, PartialEq)]
pub enum Literal {
    Scalar(Lit),
    Array(Vec<Literal>),
    Dict(Vec<(Lit, Literal)>),
}

/// What stands at one place of the generic arguments of a type.
#[derive(Debug, PartialEq)]
pub enum TypeArg {
    Type(TypeHint),
    /// A lifetime, a constant or anything else that is no type.
    Other,
}

/// The type of a field as far as its notation shows it.
#[derive(Debug, PartialEq)]
pub enum TypeHint {
    /// A path: `ident` is its name where it is one plain name, `args` are
    /// the generic arguments of its last segment.
    Path { ident: Option<String>, args: Vec<TypeArg> },
    /// `[T]`
    Slice(Box<TypeHint>),
    /// `[T; N]`
    Array(Box<TypeHint>),
    /// `&T`
    Reference(Box<TypeHint>),
    /// A type in invisible brackets.
    Group(Box<TypeHint>),
    /// `(T)`
    Paren(Box<TypeHint>),
    /// Any other type.
    Other,
}

/// The variant of `Integer` that the name of an integer type stands for.
pub open spec fn int_variant(suffix: Seq<char>) -> Option<Seq<char>> {
    if suffix == "u8"@ {
        Some("U8"@)
    } else if suffix == "u16"@ {
        Some("U16"@)
    } else if suffix == "u32"@ {
        Some("U32"@)
    } else if suffix == "u64"@ {
        Some("U64"@)
    } else if suffix == "u128"@ {
        Some("U128"@)
    } else if suffix == "usize"@ {
        Some("Usize"@)
    } else if suffix == "i8"@ {
        Some("I8"@)
    } else if suffix == "i16"@ {
        Some("I16"@)
    } else if suffix == "i32"@ {
        Some("I32"@)
    } else if suffix == "i64"@ {
        Some("I64"@)
    } else if suffix == "i128"@ {
        Some("I128"@)
    } else if suffix == "isize"@ {
        Some("Isize"@)
    } else {
        None
    }
}

/// The variant of `Float` that the name of a floating-point type stands
/// for.
pub open spec fn float_variant(suffix: Seq<char>) -> Option<Seq<char>> {
    if suffix == "f32"@ {
        Some("F32"@)
    } else if suffix == "f64"@ {
        Some("F64"@)
    } else {
        None
    }
}

/// The view of an optional name.
pub open spec fn name_view(name: Option<&'static str>) -> Option<Seq<char>> {
    match name {
        Some(n) => Some(n@),
        None => None,
    }
}

/// Maps the name of an integer type to the variant of `Integer` for it:
/// `u32` to `U32`.
pub fn int_type_to_variant(suffix: &str) -> (r: Option<&'static str>)
    ensures
        name_view(r) == int_variant(suffix@),
{
    if str_eq(suffix, "u8") {
        Some("U8")
    } else if str_eq(suffix, "u16") {
        Some("U16")
    } else if str_eq(suffix, "u32") {
        Some("U32")
    } else if str_eq(suffix, "u64") {
        Some("U64")
    } else if str_eq(suffix, "u128") {
        Some("U128")
    } else if str_eq(suffix, "usize") {
        Some("Usize")
    } else if str_eq(suffix, "i8") {
        Some("I8")
    } else if str_eq(suffix, "i16") {
        Some("I16")
    } else if str_eq(suffix, "i32") {
        Some("I32")
    } else if str_eq(suffix, "i64") {
        Some("I64")
    } else if str_eq(suffix, "i128") {
        Some("I128")
    } else if str_eq(suffix, "isize") {
        Some("Isize")
    } else {
        None
    }
}

/// Maps the name of a floating-point type to the variant of `Float` for
/// it: `f32` to `F32`.
pub fn float_type_to_variant(suffix: &str) -> (r: Option<&'static str>)
    ensures
        name_view(r) == float_variant(suffix@),
{
    if str_eq(suffix, "f32") {
        Some("F32")
    } else if str_eq(suffix, "f64") {
        Some("F64")
    } else {
        None
    }
}

/// Whether a number is an integer or a floating-point number.
#[derive(Debug, Clone, Copy, PartialEq, Eq)]
pub enum NumberKind {
    Integer,
    Float,
}

/// The variant that the name of a type stands for, among those of the
/// kind.
pub open spec fn variant_of(kind: NumberKind, name: Seq<char>) -> Option<Seq<char>> {
    match kind {
        NumberKind::Integer => int_variant(name),
        NumberKind::Float => float_variant(name),
    }
}

/// The variant of a number where neither its suffix nor the type of its
/// field names one: the widest signed integer, the widest floating-point
/// number.
pub open spec fn fallback_variant(kind: NumberKind) -> Seq<char> {
    match kind {
        NumberKind::Integer => "I128"@,
        NumberKind::Float => "F64"@,
    }
}

/// The plain name of a type, where it is one.
pub open spec fn plain_name(ty: Option<TypeHint>) -> Option<Seq<char>> {
    match ty {
        Some(TypeHint::Path { ident: Some(name), args }) => Some(name@),
        _ => None,
    }
}

/// The variant of a number: the one that its suffix names; else the one
/// that the type of its field names, where that is the plain name of a
/// type of the kind; else the widest of the kind.
pub open spec fn inferred(kind: NumberKind, suffix: Seq<char>, ty: Option<TypeHint>) -> Seq<char> {
    match variant_of(kind, suffix) {
        Some(v) => v,
        None => match plain_name(ty) {
            Some(name) => match variant_of(kind, name) {
                Some(v) => v,
                None => fallback_variant(kind),
            },
            None => fallback_variant(kind),
        },
    }
}

fn to_variant(kind: NumberKind, name: &str) -> (r: Option<&'static str>)
    ensures
        name_view(r) == variant_of(kind, name@),
{
    match kind {
        NumberKind::Integer => int_type_to_variant(name),
        NumberKind::Float => float_type_to_variant(name),
    }
}

/// Infers the type of a number among the defaults of a schema: first by
/// the suffix of the literal, then by the type of the field, and where
/// neither names a type of the kind, the widest one.
pub fn infer_type(kind: NumberKind, suffix: &str, field_ty: Option<&TypeHint>) -> (r: &'static str)
    ensures
        r@ == inferred(
            kind,
            suffix@,
            match field_ty {
                Some(t) => Some(*t),
                None => None,
            },
        ),
{
    match to_variant(kind, suffix) {
        Some(v) => v,
        None => {
            let by_field = match field_ty {
                Some(TypeHint::Path { ident: Some(name), args }) => to_variant(kind, name.as_str()),
                _ => None,
            };
            match by_field {
                Some(v) => v,
                None => match kind {
                    NumberKind::Integer => "I128",
                    NumberKind::Float => "F64",
                },
            }
        },
    }
}

/// The type of the items of a field whose default is an array: the item
/// type of a slice and of an array; the one generic argument of a path
/// that has just one, as in `Vec<T>`; and the same of the type behind a
/// reference or inside brackets.
pub open spec fn array_item_type(ty: TypeHint) -> Option<TypeHint>
    decreases ty,
{
    match ty {
        TypeHint::Slice(item) => Some(*item),
        TypeHint::Array(item) => Some(*item),
        TypeHint::Path { ident, args } => if args@.len() == 1 {
            match args@[0] {
                TypeArg::Type(t) => Some(t),
                TypeArg::Other => None,
            }
        } else {
            None
        },
        TypeHint::Reference(inner) => array_item_type(*inner),
        TypeHint::Group(inner) => array_item_type(*inner),
        TypeHint::Paren(inner) => array_item_type(*inner),
        TypeHint::Other => None,
    }
}

/// The types of the keys and of the values of a field whose default is a
/// map: the two generic arguments of a path that has just two, as in
/// `HashMap<K, V>`, and the same of the type inside brackets.
pub open spec fn map_entry_types(ty: TypeHint) -> Option<(TypeHint, TypeHint)>
    decreases ty,
{
    match ty {
        TypeHint::Path { ident, args } => if args@.len() == 2 {
            match (args@[0], args@[1]) {
                (TypeArg::Type(k), TypeArg::Type(v)) => Some((k, v)),
                _ => None,
            }
        } else {
            None
        },
        TypeHint::Group(inner) => map_entry_types(*inner),
        TypeHint::Paren(inner) => map_entry_types(*inner),
        _ => None,
    }
}

/// The type of the items of a field whose default is an array, as far as
/// the notation of the type of the field shows it.
pub fn get_array_item_type(ty: &TypeHint) -> (r: Option<&TypeHint>)
    ensures
        match r {
            Some(t) => array_item_type(*ty) == Some(*t),
            None => array_item_type(*ty) is None,
        },
    decreases ty,
{
    match ty {
        TypeHint::Slice(item) => Some(&**item),
        TypeHint::Array(item) => Some(&**item),
        TypeHint::Path { ident, args } => {
            if args.len() != 1 {
                return None;
            }
            match &args[0] {
                TypeArg::Type(t) => Some(t),
                TypeArg::Other => None,
            }
        },
        TypeHint::Reference(inner) => get_array_item_type(&**inner),
        TypeHint::Group(inner) => get_array_item_type(&**inner),
        TypeHint::Paren(inner) => get_array_item_type(&**inner),
        TypeHint::Other => None,
    }
}

/// The types of the keys and of the values of a field whose default is a
/// map, as far as the notation of the type of the field shows them.
pub fn get_map_entry_types(ty: &TypeHint) -> (r: Option<(&TypeHint, &TypeHint)>)
    ensures
        match r {
            Some((k, v)) => map_entry_types(*ty) == Some((*k, *v)),
            None => map_entry_types(*ty) is None,
        },
    decreases ty,
{
    match ty {
        TypeHint::Path { ident, args } => {
            if args.len() != 2 {
                return None;
            }
            match (&args[0], &args[1]) {
                (TypeArg::Type(k), TypeArg::Type(v)) => Some((k, v)),
                _ => None,
            }
        },
        TypeHint::Group(inner) => get_map_entry_types(&**inner),
        TypeHint::Paren(inner) => get_map_entry_types(&**inner),
        _ => None,
    }
}

/// The type behind an optional reference.
pub open spec fn hint(ty: Option<&TypeHint>) -> Option<TypeHint> {
    match ty {
        Some(t) => Some(*t),
        None => None,
    }
}

/// The number `value` as a literal of the variant of this name; `None`
/// where the variant has no such number.
pub open spec fn integer_in(variant: Seq<char>, value: int) -> Option<Integer> {
    if variant == "U8"@ {
        if value <= u8::MAX {
            Some(Integer::U8(value as u8))
        } else {
            None
        }
    } else if variant == "U16"@ {
        if value <= u16::MAX {
            Some(Integer::U16(value as u16))
        } else {
            None
        }
    } else if variant == "U32"@ {
        if value <= u32::MAX {
            Some(Integer::U32(value as u32))
        } else {
            None
        }
    } else if variant == "U64"@ {
        if value <= u64::MAX {
            Some(Integer::U64(value as u64))
        } else {
            None
        }
    } else if variant == "U128"@ {
        Some(Integer::U128(value as u128))
    } else if variant == "Usize"@ {
        if value <= usize::MAX {
            Some(Integer::Usize(value as usize))
        } else {
            None
        }
    } else if variant == "I8"@ {
        if value <= i8::MAX {
            Some(Integer::I8(value as i8))
        } else {
            None
        }
    } else if variant == "I16"@ {
        if value <= i16::MAX {
            Some(Integer::I16(value as i16))
        } else {
            None
        }
    } else if variant == "I32"@ {
        if value <= i32::MAX {
            Some(Integer::I32(value as i32))
        } else {
            None
        }
    } else if variant == "I64"@ {
        if value <= i64::MAX {
            Some(Integer::I64(value as i64))
        } else {
            None
        }
    } else if variant == "I128"@ {
        if value <= i128::MAX {
            Some(Integer::I128(value as i128))
        } else {
            None
        }
    } else if variant == "Isize"@ {
        if value <= isize::MAX {
            Some(Integer::Isize(value as isize))
        } else {
            None
        }
    } else {
        None
    }
}

/// The text as a literal of the variant of this name.
pub open spec fn float_in(variant: Seq<char>, text: Seq<char>) -> FloatView {
    if variant == "F32"@ {
        FloatView::F32(text)
    } else {
        FloatView::F64(text)
    }
}

/// The literal of one value with its type settled; `None` where a number
/// does not fit its type.
pub open spec fn scalar_expr(lit: Lit, ty: Option<TypeHint>) -> Option<ExprView> {
    match lit {
        Lit::Str(s) => Some(ExprView::Str(s@)),
        Lit::Bool(b) => Some(ExprView::Bool(b)),
        Lit::Int { value, suffix } => match integer_in(
            inferred(NumberKind::Integer, suffix@, ty),
            value as int,
        ) {
            Some(i) => Some(ExprView::Integer(i)),
            None => None,
        },
        Lit::Float { text, suffix } => Some(
            ExprView::Float(float_in(inferred(NumberKind::Float, suffix@, ty), text@)),
        ),
    }
}

/// The key of a map with its type settled.
pub open spec fn key_expr(lit: Lit, ty: Option<TypeHint>) -> Option<MapKeyView> {
    match lit {
        Lit::Str(s) => Some(MapKeyView::Str(s@)),
        Lit::Bool(b) => Some(MapKeyView::Bool(b)),
        Lit::Int { value, suffix } => match integer_in(
            inferred(NumberKind::Integer, suffix@, ty),
            value as int,
        ) {
            Some(i) => Some(MapKeyView::Integer(i)),
            None => None,
        },
        Lit::Float { text, suffix } => Some(
            MapKeyView::Float(float_in(inferred(NumberKind::Float, suffix@, ty), text@)),
        ),
    }
}

/// The type of the items of an array of the given type.
pub open spec fn item_hint(ty: Option<TypeHint>) -> Option<TypeHint> {
    match ty {
        Some(t) => array_item_type(t),
        None => None,
    }
}

/// The type of the keys of a map of the given type.
pub open spec fn key_hint(ty: Option<TypeHint>) -> Option<TypeHint> {
    match ty {
        Some(t) => match map_entry_types(t) {
            Some(kv) => Some(kv.0),
            None => None,
        },
        None => None,
    }
}

/// The type of the values of a map of the given type.
pub open spec fn value_hint(ty: Option<TypeHint>) -> Option<TypeHint> {
    match ty {
        Some(t) => match map_entry_types(t) {
            Some(kv) => Some(kv.1),
            None => None,
        },
        None => None,
    }
}

/// A literal with its types settled by the type of its field: each
/// number has the width that its suffix names, or that of the type of its
/// field, its item type or its key and value types, or else the widest.
/// The items of arrays and maps stay in their order. `None` where a
/// number does not fit its type.
pub open spec fn literal_expr(lit: Literal, ty: Option<TypeHint>) -> Option<ExprView>
    decreases lit, 0int,
{
    match lit {
        Literal::Scalar(l) => scalar_expr(l, ty),
        Literal::Array(items) => match items_upto(items@, item_hint(ty), items@.len() as int) {
            Some(values) => Some(ExprView::Array(values)),
            None => None,
        },
        Literal::Dict(entries) => match entries_upto(
            entries@,
            key_hint(ty),
            value_hint(ty),
            entries@.len() as int,
        ) {
            Some(values) => Some(ExprView::Dict(values)),
            None => None,
        },
    }
}

/// The first `n` items of an array with their types settled.
pub open spec fn items_upto(items: Seq<Literal>, ty: Option<TypeHint>, n: int) -> Option<
    Seq<ExprView>,
>
    decreases items, n,
{
    if n <= 0 || n > items.len() {
        Some(Seq::empty())
    } else {
        match (items_upto(items, ty, n - 1), literal_expr(items[n - 1], ty)) {
            (Some(before), Some(v)) => Some(before.push(v)),
            _ => None,
        }
    }
}

/// The first `n` entries of a map with their types settled.
pub open spec fn entries_upto(
    entries: Seq<(Lit, Literal)>,
    key_ty: Option<TypeHint>,
    value_ty: Option<TypeHint>,
    n: int,
) -> Option<Seq<(MapKeyView, ExprView)>>
    decreases entries, n,
{
    if n <= 0 || n > entries.len() {
        Some(Seq::empty())
    } else {
        match (
            entries_upto(entries, key_ty, value_ty, n - 1),
            key_expr(entries[n - 1].0, key_ty),
            literal_expr(entries[n - 1].1, value_ty),
        ) {
            (Some(before), Some(k), Some(v)) => Some(before.push((k, v))),
            _ => None,
        }
    }
}

fn make_integer(variant: &str, value: u128) -> (r: Option<Integer>)
    ensures
        r == integer_in(variant@, value as int),
{
    if str_eq(variant, "U8") {
        if value <= 0xff {
            Some(Integer::U8(value as u8))
        } else {
            None
        }
    } else if str_eq(variant, "U16") {
        if value <= 0xffff {
            Some(Integer::U16(value as u16))
        } else {
            None
        }
    } else if str_eq(variant, "U32") {
        if value <= 0xffff_ffff {
            Some(Integer::U32(value as u32))
        } else {
            None
        }
    } else if str_eq(variant, "U64") {
        if value <= 0xffff_ffff_ffff_ffff {
            Some(Integer::U64(value as u64))
        } else {
            None
        }
    } else if str_eq(variant, "U128") {
        Some(Integer::U128(value))
    } else if str_eq(variant, "Usize") {
        if value <= usize::MAX as u128 {
            Some(Integer::Usize(value as usize))
        } else {
            None
        }
    } else if str_eq(variant, "I8") {
        if value <= 0x7f {
            Some(Integer::I8(value as i8))
        } else {
            None
        }
    } else if str_eq(variant, "I16") {
        if value <= 0x7fff {
            Some(Integer::I16(value as i16))
        } else {
            None
        }
    } else if str_eq(variant, "I32") {
        if value <= 0x7fff_ffff {
            Some(Integer::I32(value as i32))
        } else {
            None
        }
    } else if str_eq(variant, "I64") {
        if value <= 0x7fff_ffff_ffff_ffff {
            Some(Integer::I64(value as i64))
        } else {
            None
        }
    } else if str_eq(variant, "I128") {
        if value <= 0x7fff_ffff_ffff_ffff_ffff_ffff_ffff_ffff {
            Some(Integer::I128(value as i128))
        } else {
            None
        }
    } else if str_eq(variant, "Isize") {
        if value <= isize::MAX as u128 {
            Some(Integer::Isize(value as isize))
        } else {
            None
        }
    } else {
        None
    }
}

fn make_float(variant: &str, text: &str) -> (r: Float)
    ensures
        r@ == float_in(variant@, text@),
{
    if str_eq(variant, "F32") {
        Float::F32(text.to_owned())
    } else {
        Float::F64(text.to_owned())
    }
}

fn scalar_to_expr(lit: &Lit, ty: Option<&TypeHint>) -> (r: Option<Expr>)
    ensures
        match scalar_expr(*lit, hint(ty)) {
            Some(v) => r is Some && r->0@ == v,
            None => r is None,
        },
{
    match lit {
        Lit::Str(s) => Some(Expr::Str(s.clone())),
        Lit::Bool(b) => Some(Expr::Bool(*b)),
        Lit::Int { value, suffix } => {
            let variant = infer_type(NumberKind::Integer, suffix.as_str(), ty);
            match make_integer(variant, *value) {
                Some(i) => Some(Expr::Integer(i)),
                None => None,
            }
        },
        Lit::Float { text, suffix } => {
            let variant = infer_type(NumberKind::Float, suffix.as_str(), ty);
            Some(Expr::Float(make_float(variant, text.as_str())))
        },
    }
}

fn key_to_expr(lit: &Lit, ty: Option<&TypeHint>) -> (r: Option<MapKey>)
    ensures
        match key_expr(*lit, hint(ty)) {
            Some(v) => r is Some && r->0@ == v,
            None => r is None,
        },
{
    match lit {
        Lit::Str(s) => Some(MapKey::Str(s.clone())),
        Lit::Bool(b) => Some(MapKey::Bool(*b)),
        Lit::Int { value, suffix } => {
            let variant = infer_type(NumberKind::Integer, suffix.as_str(), ty);
            match make_integer(variant, *value) {
                Some(i) => Some(MapKey::Integer(i)),
                None => None,
            }
        },
        Lit::Float { text, suffix } => {
            let variant = infer_type(NumberKind::Float, suffix.as_str(), ty);
            Some(MapKey::Float(make_float(variant, text.as_str())))
        },
    }
}

/// Once an item does not fit, the items that follow change nothing.
pub proof fn lemma_items_fail(items: Seq<Literal>, ty: Option<TypeHint>, n: int, m: int)
    requires
        items_upto(items, ty, n) is None,
        n <= m <= items.len(),
    ensures
        items_upto(items, ty, m) is None,
    decreases m - n,
{
    if n < m {
        lemma_items_fail(items, ty, n, m - 1);
    }
}

/// Once an entry does not fit, the entries that follow change nothing.
pub proof fn lemma_entries_fail(
    entries: Seq<(Lit, Literal)>,
    key_ty: Option<TypeHint>,
    value_ty: Option<TypeHint>,
    n: int,
    m: int,
)
    requires
        entries_upto(entries, key_ty, value_ty, n) is None,
        n <= m <= entries.len(),
    ensures
        entries_upto(entries, key_ty, value_ty, m) is None,
    decreases m - n,
{
    if n < m {
        lemma_entries_fail(entries, key_ty, value_ty, n, m - 1);
    }
}

/// Settles the types of a default by the type of its field and gives the
/// typed literal: each number gets the width that its suffix names, or
/// that of the type of its field, or else the widest. `None` where a
/// number does not fit its type.
#[verifier::loop_isolation(false)]
pub fn default_value_to_meta_expr(default: &Literal, ty: Option<&TypeHint>) -> (r: Option<Expr>)
    ensures
        match literal_expr(*default, hint(ty)) {
            Some(v) => r is Some && r->0@ == v,
            None => r is None,
        },
    decreases default,
{
    match default {
        Literal::Scalar(l) => scalar_to_expr(l, ty),
        Literal::Array(items) => {
            let item_type = match ty {
                Some(t) => get_array_item_type(t),
                None => None,
            };
            assert(hint(item_type) == item_hint(hint(ty)));
            let mut values: Vec<Expr> = Vec::new();
            let ghost mut views: Seq<ExprView> = Seq::empty();
            let mut k: usize = 0;
            while k < items.len()
                invariant
                    k <= items.len(),
                    values@.len() == k,
                    views.len() == k,
                    forall|j: int| 0 <= j < k ==> values@[j]@ == views[j],
                    items_upto(items@, hint(item_type), k as int) == Some(views),
                decreases items.len() - k,
            {
                match default_value_to_meta_expr(&items[k], item_type) {
                    Some(v) => {
                        proof {
                            views = views.push(v@);
                        }
                        values.push(v);
                    },
                    None => {
                        proof {
                            lemma_items_fail(
                                items@,
                                hint(item_type),
                                k as int + 1,
                                items@.len() as int,
                            );
                        }
                        return None;
                    },
                }
                k += 1;
            }
            let r = Expr::Array(values);
            assert(r@->Array_0 =~= views);
            Some(r)
        },
        Literal::Dict(entries) => {
            let types = match ty {
                Some(t) => get_map_entry_types(t),
                None => None,
            };
            let key_type = match types {
                Some((k, _)) => Some(k),
                None => None,
            };
            let value_type = match types {
                Some((_, v)) => Some(v),
                None => None,
            };
            assert(hint(key_type) == key_hint(hint(ty)));
            assert(hint(value_type) == value_hint(hint(ty)));
            let mut values: Vec<MapEntry> = Vec::new();
            let ghost mut views: Seq<(MapKeyView, ExprView)> = Seq::empty();
            let mut k: usize = 0;
            while k < entries.len()
                invariant
                    k <= entries.len(),
                    values@.len() == k,
                    views.len() == k,
                    forall|j: int|
                        0 <= j < k ==> (values@[j].key@, values@[j].value@) == views[j],
                    entries_upto(entries@, hint(key_type), hint(value_type), k as int) == Some(
                        views,
                    ),
                decreases entries.len() - k,
            {
                let made = match key_to_expr(&entries[k].0, key_type) {
                    Some(key) => match default_value_to_meta_expr(&entries[k].1, value_type) {
                        Some(value) => Some(MapEntry { key, value }),
                        None => None,
                    },
                    None => None,
                };
                match made {
                    Some(entry) => {
                        proof {
                            views = views.push((entry.key@, entry.value@));
                        }
                        values.push(entry);
                    },
                    None => {
                        proof {
                            lemma_entries_fail(
                                entries@,
                                hint(key_type),
                                hint(value_type),
                                k as int + 1,
                                entries@.len() as int,
                            );
                        }
                        return None;
                    },
                }
                k += 1;
            }
            let r = Expr::Dict(values);
            assert(r@->Dict_0 =~= views);
            Some(r)
        },
    }
}

} // verus!
