//! The schema of a configuration type: its fields, their documentation,
//! defaults and environment keys, and the typed literals that defaults are
//! written in.

use vstd::prelude::*;
use crate::text::{int_text, push_decimal, push_signed, string_from_chars};

verus! {

/// An integer literal together with its width.
#[derive(Clone, Copy, Debug, PartialEq, Eq)]
pub enum Integer {
    U8(u8),
    U16(u16),
    U32(u32),
    U64(u64),
    U128(u128),
    Usize(usize),
    I8(i8),
    I16(i16),
    I32(i32),
    I64(i64),
    I128(i128),
    Isize(isize),
}

/// A floating-point literal together with its width. The value is kept as
/// its decimal text.
#[derive(Debug, PartialEq, Eq)]
pub enum Float {
    F32(String),
    F64(String),
}

/// The key of a map literal.
#[derive(Debug, PartialEq)]
pub enum MapKey {
    Str(String),
    Float(Float),
    Integer(Integer),
    Bool(bool),
}

/// One entry of a map literal.
#[derive(Debug, PartialEq)]
pub struct MapEntry {
    pub key: MapKey,
    pub value: Expr,
}

/// A typed literal. Arrays and maps keep the order in which their items
/// were written.
#[derive(Debug, PartialEq)]
pub enum Expr {
    Str(String),
    Float(Float),
    Integer(Integer),
    Bool(bool),
    Array(Vec<Expr>),
    Dict(Vec<MapEntry>),
}

/// A floating-point literal as contracts see it.
pub enum FloatView {
    F32(Seq<char>),
    F64(Seq<char>),
}

/// The key of a map literal as contracts see it.
pub enum MapKeyView {
    Str(Seq<char>),
    Float(FloatView),
    Integer(Integer),
    Bool(bool),
}

/// A literal as contracts see it: strings are sequences of characters,
/// arrays and maps are sequences of their items.
pub enum ExprView {
    Str(Seq<char>),
    Float(FloatView),
    Integer(Integer),
    Bool(bool),
    Array(Seq<ExprView>),
    Dict(Seq<(MapKeyView, ExprView)>),
}

impl View for Float {
    type V = FloatView;

    open spec fn view(&self) -> FloatView {
        match self {
            Float::F32(t) => FloatView::F32(t@),
            Float::F64(t) => FloatView::F64(t@),
        }
    }
}

impl View for MapKey {
    type V = MapKeyView;

    open spec fn view(&self) -> MapKeyView {
        match self {
            MapKey::Str(s) => MapKeyView::Str(s@),
            MapKey::Float(f) => MapKeyView::Float(f@),
            MapKey::Integer(i) => MapKeyView::Integer(*i),
            MapKey::Bool(b) => MapKeyView::Bool(*b),
        }
    }
}

/// The view of a literal: its strings as sequences of characters, its
/// items in their order.
pub open spec fn expr_view(e: Expr) -> ExprView
    decreases e,
{
    match e {
        Expr::Str(s) => ExprView::Str(s@),
        Expr::Float(f) => ExprView::Float(f@),
        Expr::Integer(i) => ExprView::Integer(i),
        Expr::Bool(b) => ExprView::Bool(b),
        Expr::Array(items) => ExprView::Array(
            Seq::new(
                items@.len(),
                |i: int|
                    if 0 <= i < items@.len() {
                        expr_view(items@[i])
                    } else {
                        ExprView::Bool(false)
                    },
            ),
        ),
        Expr::Dict(entries) => ExprView::Dict(
            Seq::new(
                entries@.len(),
                |i: int|
                    if 0 <= i < entries@.len() {
                        (entries@[i].key@, expr_view(entries@[i].value))
                    } else {
                        (MapKeyView::Bool(false), ExprView::Bool(false))
                    },
            ),
        ),
    }
}

impl View for Expr {
    type V = ExprView;

    open spec fn view(&self) -> ExprView {
        expr_view(*self)
    }
}

impl Integer {
    /// The number that the literal denotes.
    pub open spec fn value(self) -> int {
        match self {
            Integer::U8(v) => v as int,
            Integer::U16(v) => v as int,
            Integer::U32(v) => v as int,
            Integer::U64(v) => v as int,
            Integer::U128(v) => v as int,
            Integer::Usize(v) => v as int,
            Integer::I8(v) => v as int,
            Integer::I16(v) => v as int,
            Integer::I32(v) => v as int,
            Integer::I64(v) => v as int,
            Integer::I128(v) => v as int,
            Integer::Isize(v) => v as int,
        }
    }

    /// Whether the literal is of a signed type.
    pub open spec fn signed(self) -> bool {
        match self {
            Integer::I8(_) | Integer::I16(_) | Integer::I32(_) | Integer::I64(_) | Integer::I128(_)
            | Integer::Isize(_) => true,
            _ => false,
        }
    }

    /// Appends the decimal notation of the number to `out`.
    pub fn write(&self, out: &mut Vec<char>)
        ensures
            final(out)@ == old(out)@ + int_text(self.value()),
    {
        match *self {
            Integer::U8(v) => push_decimal(out, v as u128),
            Integer::U16(v) => push_decimal(out, v as u128),
            Integer::U32(v) => push_decimal(out, v as u128),
            Integer::U64(v) => push_decimal(out, v as u128),
            Integer::U128(v) => push_decimal(out, v),
            Integer::Usize(v) => push_decimal(out, v as u128),
            Integer::I8(v) => write_signed(out, v as i128),
            Integer::I16(v) => write_signed(out, v as i128),
            Integer::I32(v) => write_signed(out, v as i128),
            Integer::I64(v) => write_signed(out, v as i128),
            Integer::I128(v) => write_signed(out, v),
            Integer::Isize(v) => write_signed(out, v as i128),
        }
    }

    /// The decimal notation of the number.
    pub fn to_string(&self) -> (r: String)
        ensures
            r@ == int_text(self.value()),
    {
        let mut out: Vec<char> = Vec::new();
        self.write(&mut out);
        string_from_chars(&out)
    }
}

fn write_signed(out: &mut Vec<char>, v: i128)
    ensures
        final(out)@ == old(out)@ + int_text(v as int),
{
    if v < 0 {
        let magnitude: u128 = (-(v + 1)) as u128 + 1;
        push_signed(out, true, magnitude);
    } else {
        push_signed(out, false, v as u128);
    }
}

impl FloatView {
    /// The decimal text of the literal.
    pub open spec fn text(self) -> Seq<char> {
        match self {
            FloatView::F32(t) => t,
            FloatView::F64(t) => t,
        }
    }
}

impl Float {
    /// The decimal text of the literal.
    pub fn as_str(&self) -> (r: &str)
        ensures
            r@ == self@.text(),
    {
        match self {
            Float::F32(t) => t.as_str(),
            Float::F64(t) => t.as_str(),
        }
    }

    /// The decimal text of the literal.
    pub fn to_string(&self) -> (r: String)
        ensures
            r@ == self@.text(),
    {
        match self {
            Float::F32(t) => t.clone(),
            Float::F64(t) => t.clone(),
        }
    }
}

impl Clone for Float {
    fn clone(&self) -> (r: Self)
        ensures
            r@ == self@,
    {
        match self {
            Float::F32(t) => Float::F32(t.clone()),
            Float::F64(t) => Float::F64(t.clone()),
        }
    }
}

impl Clone for MapKey {
    fn clone(&self) -> (r: Self)
        ensures
            r@ == self@,
    {
        match self {
            MapKey::Str(s) => MapKey::Str(s.clone()),
            MapKey::Float(f) => MapKey::Float(f.clone()),
            MapKey::Integer(i) => MapKey::Integer(*i),
            MapKey::Bool(b) => MapKey::Bool(*b),
        }
    }
}

impl Clone for Expr {
    #[verifier::loop_isolation(false)]
    fn clone(&self) -> (r: Self)
        ensures
            r@ == self@,
        decreases self,
    {
        match self {
            Expr::Str(s) => Expr::Str(s.clone()),
            Expr::Float(f) => Expr::Float(f.clone()),
            Expr::Integer(i) => Expr::Integer(*i),
            Expr::Bool(b) => Expr::Bool(*b),
            Expr::Array(items) => {
                let mut copy: Vec<Expr> = Vec::new();
                let mut i: usize = 0;
                while i < items.len()
                    invariant
                        i <= items.len(),
                        copy@.len() == i,
                        forall|j: int| 0 <= j < i ==> copy@[j]@ == items@[j]@,
                    decreases items.len() - i,
                {
                    assert(decreases_to!(self => items@[i as int]));
                    copy.push(items[i].clone());
                    i += 1;
                }
                let r = Expr::Array(copy);
                proof {
                    let a = r@->Array_0;
                    let b = self@->Array_0;
                    assert(a.len() == b.len());
                    assert forall|j: int| 0 <= j < a.len() implies a[j] == b[j] by {
                        assert(copy@[j]@ == items@[j]@);
                    }
                    assert(a =~= b);
                }
                r
            },
            Expr::Dict(entries) => {
                let mut copy: Vec<MapEntry> = Vec::new();
                let mut i: usize = 0;
                while i < entries.len()
                    invariant
                        i <= entries.len(),
                        copy@.len() == i,
                        forall|j: int|
                            0 <= j < i ==> copy@[j].key@ == entries@[j].key@ && copy@[j].value@
                                == entries@[j].value@,
                    decreases entries.len() - i,
                {
                    assert(decreases_to!(self => entries@[i as int].value));
                    let key = entries[i].key.clone();
                    let value = entries[i].value.clone();
                    copy.push(MapEntry { key, value });
                    i += 1;
                }
                let r = Expr::Dict(copy);
                proof {
                    let a = r@->Dict_0;
                    let b = self@->Dict_0;
                    assert(a.len() == b.len());
                    assert forall|j: int| 0 <= j < a.len() implies a[j] == b[j] by {
                        assert(copy@[j].key@ == entries@[j].key@);
                    }
                    assert(a =~= b);
                }
                r
            },
        }
    }
}

/// An integer type that a leaf can have.
#[derive(Clone, Copy, Debug, PartialEq, Eq)]
pub enum IntType {
    U8,
    U16,
    U32,
    U64,
    I8,
    I16,
    I32,
    I64,
}

/// A floating-point type that a leaf can have.
#[derive(Clone, Copy, Debug, PartialEq, Eq)]
pub enum FloatType {
    F32,
    F64,
}

/// The type of a value that stands alone or as an item of a list.
#[derive(Clone, Copy, Debug, PartialEq, Eq)]
pub enum ScalarType {
    Bool,
    Integer(IntType),
    Float(FloatType),
    /// A string, or any value that is written as one.
    Str,
}

/// The type of a leaf, as far as reading a value of it from the text of
/// an environment variable goes.
#[derive(Debug, PartialEq)]
pub enum LeafType {
    /// One value.
    Scalar(ScalarType),
    /// One of the given names.
    Enum(Vec<String>),
    /// Values of one type, in the variable separated by a character.
    List(char, ScalarType),
    /// A value that a parser of the application reads.
    Custom,
}

/// Whether a leaf must be given a value.
#[derive(Debug, PartialEq)]
pub enum LeafKind {
    /// The leaf needs a value; `default` is the one that the schema
    /// declares, if any.
    Required { default: Option<Expr> },
    /// The leaf may stay without a value.
    Optional,
}

/// What a field holds: a value, or a configuration of its own.
#[derive(Debug, PartialEq)]
pub enum FieldKind {
    /// A value: `env` names the environment variable that can set it,
    /// `ty` says how the text of the variable is read.
    Leaf { env: Option<String>, kind: LeafKind, ty: LeafType },
    Nested { meta: Meta },
}

/// One field of a configuration type.
#[derive(Debug, PartialEq)]
pub struct Field {
    pub name: String,
    pub doc: Vec<String>,
    pub kind: FieldKind,
}

/// The description of a configuration type.
#[derive(Debug, PartialEq)]
pub struct Meta {
    /// The name of the type.
    pub name: String,
    /// The lines of its documentation.
    pub doc: Vec<String>,
    pub fields: Vec<Field>,
}

/// Whether a text can be the name of an environment variable: it holds no
/// `=` and no NUL.
pub open spec fn valid_key(key: Seq<char>) -> bool {
    forall|i: int| 0 <= i < key.len() ==> (#[trigger] key[i]) != '=' && key[i] != '\0'
}

/// Whether a text can be the name of an environment variable.
pub fn is_valid_key(key: &str) -> (b: bool)
    ensures
        b == valid_key(key@),
{
    let mut ok = true;
    for c in it: key.chars()
        invariant
            it.seq() == key@,
            ok == forall|j: int|
                0 <= j < it.index() ==> (#[trigger] key@[j]) != '=' && key@[j] != '\0',
    {
        ok = ok && c != '=' && c != '\0';
    }
    ok
}

impl Meta {
    /// Whether every environment variable that the schema names, at any
    /// depth, has a name that a variable can have.
    pub open spec fn keys_valid(self) -> bool
        decreases self,
    {
        forall|i: int|
            0 <= i < self.fields@.len() ==> match (#[trigger] self.fields@[i]).kind {
                FieldKind::Leaf { env, .. } => match env {
                    Some(key) => valid_key(key@),
                    None => true,
                },
                FieldKind::Nested { meta } => meta.keys_valid(),
            }
    }

    /// Whether every environment variable that the schema names has a
    /// name that a variable can have.
    #[verifier::loop_isolation(false)]
    pub fn has_valid_keys(&self) -> (b: bool)
        ensures
            b == self.keys_valid(),
        decreases self,
    {
        let mut i: usize = 0;
        while i < self.fields.len()
            invariant
                i <= self.fields.len(),
                forall|j: int|
                    0 <= j < i ==> match (#[trigger] self.fields@[j]).kind {
                        FieldKind::Leaf { env, .. } => match env {
                            Some(key) => valid_key(key@),
                            None => true,
                        },
                        FieldKind::Nested { meta } => meta.keys_valid(),
                    },
            decreases self.fields.len() - i,
        {
            let ok = match &self.fields[i].kind {
                FieldKind::Leaf { env, .. } => match env {
                    Some(key) => is_valid_key(key.as_str()),
                    None => true,
                },
                FieldKind::Nested { meta } => meta.has_valid_keys(),
            };
            if !ok {
                assert(!self.keys_valid()) by {
                    let f = self.fields@[i as int];
                }
                return false;
            }
            i += 1;
        }
        true
    }
}

} // verus!
