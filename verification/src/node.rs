//! The content of a configuration file as a tree of plain values, whatever
//! the format, and the layer that such a tree holds for a schema.

use vstd::prelude::*;
use crate::internal::{
    default_of, defaults_upto, describe, deserialize_default, push_description, scalar_default,
};
use crate::layer::{
    lemma_empty_layer, lemma_fit_by_field, lemma_nested_view, Layer, LayerField, LayerFieldView,
    LayerView,
};
use crate::meta::{
    Expr, ExprView, Field, FieldKind, Float, FloatView, Integer, LeafKind, LeafType, MapEntry,
    MapKey, MapKeyView, Meta, ScalarType,
};
use crate::template::bool_text;
use crate::text::{int_text, push_str, str_eq, string_from_chars};

verus! {

/// A value in a file.
#[derive(Debug, PartialEq)]
pub enum Node {
    Bool(bool),
    /// An integer that the parser of the file gave without a sign.
    Unsigned(u64),
    /// An integer that the parser of the file gave with a sign.
    Signed(i64),
    /// A floating-point number, by its decimal text.
    Float(String),
    Str(String),
    /// Values in their order.
    List(Vec<Node>),
    /// Named values, in the order of the file.
    Table(Vec<(String, Node)>),
}

/// A value in a file as contracts see it.
pub enum NodeView {
    Bool(bool),
    Unsigned(u64),
    Signed(i64),
    Float(Seq<char>),
    Str(Seq<char>),
    List(Seq<NodeView>),
    Table(Seq<(Seq<char>, NodeView)>),
}

/// The view of a value in a file.
pub open spec fn node_view(node: Node) -> NodeView
    decreases node,
{
    match node {
        Node::Bool(b) => NodeView::Bool(b),
        Node::Unsigned(v) => NodeView::Unsigned(v),
        Node::Signed(v) => NodeView::Signed(v),
        Node::Float(t) => NodeView::Float(t@),
        Node::Str(s) => NodeView::Str(s@),
        Node::List(items) => NodeView::List(
            Seq::new(
                items@.len(),
                |i: int|
                    if 0 <= i < items@.len() {
                        node_view(items@[i])
                    } else {
                        NodeView::Bool(false)
                    },
            ),
        ),
        Node::Table(entries) => NodeView::Table(
            Seq::new(
                entries@.len(),
                |i: int|
                    if 0 <= i < entries@.len() {
                        (entries@[i].0@, node_view(entries@[i].1))
                    } else {
                        (Seq::empty(), NodeView::Bool(false))
                    },
            ),
        ),
    }
}

impl View for Node {
    type V = NodeView;

    open spec fn view(&self) -> NodeView {
        node_view(*self)
    }
}

/// A value in a file as a literal: an integer of 64 bits, a
/// floating-point number of 64 bits, a table as a map with strings for
/// keys; lists and tables keep their order.
pub open spec fn node_expr(node: NodeView) -> ExprView
    decreases node,
{
    match node {
        NodeView::Bool(b) => ExprView::Bool(b),
        NodeView::Unsigned(v) => ExprView::Integer(Integer::U64(v)),
        NodeView::Signed(v) => ExprView::Integer(Integer::I64(v)),
        NodeView::Float(t) => ExprView::Float(FloatView::F64(t)),
        NodeView::Str(s) => ExprView::Str(s),
        NodeView::List(items) => ExprView::Array(
            Seq::new(
                items.len(),
                |i: int|
                    if 0 <= i < items.len() {
                        node_expr(items[i])
                    } else {
                        ExprView::Bool(false)
                    },
            ),
        ),
        NodeView::Table(entries) => ExprView::Dict(
            Seq::new(
                entries.len(),
                |i: int|
                    if 0 <= i < entries.len() {
                        (MapKeyView::Str(entries[i].0), node_expr(entries[i].1))
                    } else {
                        (MapKeyView::Bool(false), ExprView::Bool(false))
                    },
            ),
        ),
    }
}

impl Node {
    /// The value as a literal.
    #[verifier::loop_isolation(false)]
    pub fn to_expr(&self) -> (r: Expr)
        ensures
            r@ == node_expr(self@),
        decreases self,
    {
        match self {
            Node::Bool(b) => Expr::Bool(*b),
            Node::Unsigned(v) => Expr::Integer(Integer::U64(*v)),
            Node::Signed(v) => Expr::Integer(Integer::I64(*v)),
            Node::Float(t) => Expr::Float(Float::F64(t.clone())),
            Node::Str(s) => Expr::Str(s.clone()),
            Node::List(items) => {
                let mut values: Vec<Expr> = Vec::new();
                let mut i: usize = 0;
                while i < items.len()
                    invariant
                        i <= items.len(),
                        values@.len() == i,
                        forall|j: int| 0 <= j < i ==> values@[j]@ == node_expr(items@[j]@),
                    decreases items.len() - i,
                {
                    values.push(items[i].to_expr());
                    i += 1;
                }
                let r = Expr::Array(values);
                assert(r@->Array_0 =~= node_expr(self@)->Array_0);
                r
            },
            Node::Table(entries) => {
                let mut values: Vec<MapEntry> = Vec::new();
                let mut i: usize = 0;
                while i < entries.len()
                    invariant
                        i <= entries.len(),
                        values@.len() == i,
                        forall|j: int|
                            0 <= j < i ==> values@[j].key@ == MapKeyView::Str(entries@[j].0@)
                                && values@[j].value@ == node_expr(entries@[j].1@),
                    decreases entries.len() - i,
                {
                    let key = MapKey::Str(entries[i].0.clone());
                    let value = entries[i].1.to_expr();
                    values.push(MapEntry { key, value });
                    i += 1;
                }
                let r = Expr::Dict(values);
                assert(r@->Dict_0 =~= node_expr(self@)->Dict_0);
                r
            },
        }
    }
}

/// The place of the first entry under the name `name`, from place `i` on.
pub open spec fn position_from(entries: Seq<(Seq<char>, NodeView)>, name: Seq<char>, i: int) -> Option<
    int,
>
    decreases entries.len() - i,
{
    if 0 <= i < entries.len() {
        if entries[i].0 == name {
            Some(i)
        } else {
            position_from(entries, name, i + 1)
        }
    } else {
        None
    }
}

/// The entries of a table as contracts see them.
pub open spec fn entry_views(entries: Seq<(String, Node)>) -> Seq<(Seq<char>, NodeView)> {
    Seq::new(entries.len(), |i: int| (entries[i].0@, entries[i].1@))
}

fn find(entries: &Vec<(String, Node)>, name: &str, from: usize) -> (r: Option<usize>)
    ensures
        match r {
            Some(p) => position_from(entry_views(entries@), name@, from as int) == Some(p as int)
                && from <= p < entries.len(),
            None => position_from(entry_views(entries@), name@, from as int) is None,
        },
{
    let mut i: usize = from;
    while i < entries.len()
        invariant
            from <= i,
            position_from(entry_views(entries@), name@, from as int) == position_from(
                entry_views(entries@),
                name@,
                i as int,
            ),
        decreases entries.len() - i,
    {
        if str_eq(entries[i].0.as_str(), name) {
            return Some(i);
        }
        i += 1;
    }
    None
}

/// The message for a value that is no value of the type of its leaf.
pub open spec fn wrong_value(field: Seq<char>, ty: LeafType) -> Seq<char> {
    "invalid value for `"@ + field + "`, expected "@ + describe(ty)
}

/// The message for a name that stands twice in a table.
pub open spec fn duplicate(field: Seq<char>) -> Seq<char> {
    "duplicate field `"@ + field + "`"@
}

/// The message for a value that should be the table of a configuration
/// type and is none.
pub open spec fn no_table(name: Seq<char>) -> Seq<char> {
    "invalid type, expected the table `"@ + name + "`"@
}

/// What a table holds for one field: the value under the name of the
/// field, read by the type of the leaf, or the layer of the table under
/// that name; no value, or the empty layer, where the name does not
/// occur. A name that occurs twice is an error.
pub open spec fn read_field(field: Field, entries: Seq<(Seq<char>, NodeView)>) -> Result<
    LayerFieldView,
    Seq<char>,
>
    decreases field, 0int,
{
    match position_from(entries, field.name@, 0) {
        Some(p) => if position_from(entries, field.name@, p + 1) is Some {
            Err(duplicate(field.name@))
        } else {
            match field.kind {
                FieldKind::Leaf { env, kind, ty } => match default_of(ty, node_expr(entries[p].1)) {
                    Some(v) => Ok(LayerFieldView::Leaf(Some(v))),
                    None => Err(wrong_value(field.name@, ty)),
                },
                FieldKind::Nested { meta } => match node_layer(meta, entries[p].1) {
                    Ok(l) => Ok(LayerFieldView::Nested(l)),
                    Err(e) => Err(e),
                },
            }
        },
        None => Ok(LayerView::empty_field(field)),
    }
}

/// What a table holds for the first `n` fields of a schema, or the
/// message for the first of them that fails.
pub open spec fn read_upto(meta: Meta, entries: Seq<(Seq<char>, NodeView)>, n: int) -> Result<
    Seq<LayerFieldView>,
    Seq<char>,
>
    decreases meta, n,
{
    if n <= 0 || n > meta.fields@.len() {
        Ok(Seq::empty())
    } else {
        match read_upto(meta, entries, n - 1) {
            Ok(fields) => match read_field(meta.fields@[n - 1], entries) {
                Ok(f) => Ok(fields.push(f)),
                Err(e) => Err(e),
            },
            Err(e) => Err(e),
        }
    }
}

/// The layer that the content of a file holds for a schema: the content
/// must be a table; each field of the schema has what the table holds
/// under its name. Names that the schema does not know are passed over.
/// The error is a message: that of the first field, in the order of the
/// schema, whose value is none of its type.
pub open spec fn node_layer(meta: Meta, node: NodeView) -> Result<LayerView, Seq<char>>
    decreases meta, meta.fields@.len() + 1,
{
    match node {
        NodeView::Table(entries) => match read_upto(meta, entries, meta.fields@.len() as int) {
            Ok(fields) => Ok(LayerView { fields }),
            Err(e) => Err(e),
        },
        _ => Err(no_table(meta.name@)),
    }
}

/// Once a field fails, the fields that follow change nothing.
pub proof fn lemma_read_fails(meta: Meta, entries: Seq<(Seq<char>, NodeView)>, n: int, m: int)
    requires
        read_upto(meta, entries, n) is Err,
        n <= m <= meta.fields@.len(),
    ensures
        read_upto(meta, entries, m) == read_upto(meta, entries, n),
    decreases m - n,
{
    if n < m {
        lemma_read_fails(meta, entries, n, m - 1);
    }
}

/// What a table holds for the first `n` fields has the shape of these
/// fields.
pub proof fn lemma_read_upto_conforms(meta: Meta, entries: Seq<(Seq<char>, NodeView)>, n: int)
    requires
        0 <= n <= meta.fields@.len(),
        read_upto(meta, entries, n) is Ok,
    ensures
        read_upto(meta, entries, n)->Ok_0.len() == n,
        forall|i: int|
            0 <= i < n ==> match (#[trigger] meta.fields@[i]).kind {
                FieldKind::Leaf { .. } => read_upto(meta, entries, n)->Ok_0[i] is Leaf,
                FieldKind::Nested { meta: sub } => read_upto(meta, entries, n)->Ok_0[i] is Nested
                    && read_upto(meta, entries, n)->Ok_0[i]->Nested_0.conforms(sub),
            },
    decreases meta, n,
{
    if n > 0 {
        let before = read_upto(meta, entries, n - 1);
        let field = meta.fields@[n - 1];
        let here = read_field(field, entries);
        assert(before is Ok && here is Ok);
        let all = read_upto(meta, entries, n)->Ok_0;
        assert(all == before->Ok_0.push(here->Ok_0));
        lemma_read_upto_conforms(meta, entries, n - 1);
        match field.kind {
            FieldKind::Leaf { .. } => {},
            FieldKind::Nested { meta: sub } => {
                match position_from(entries, field.name@, 0) {
                    Some(p) => {
                        lemma_node_layer_conforms(sub, entries[p].1);
                    },
                    None => {
                        lemma_empty_layer(sub);
                    },
                }
            },
        }
        assert forall|i: int| 0 <= i < n implies match (#[trigger] meta.fields@[i]).kind {
            FieldKind::Leaf { .. } => all[i] is Leaf,
            FieldKind::Nested { meta: sub } => all[i] is Nested && all[i]->Nested_0.conforms(sub),
        } by {
            if i < n - 1 {
                assert(all[i] == before->Ok_0[i]);
            }
        }
    }
}

/// The layer that the content of a file holds for a schema has the shape
/// of the schema.
pub proof fn lemma_node_layer_conforms(meta: Meta, node: NodeView)
    requires
        node_layer(meta, node) is Ok,
    ensures
        node_layer(meta, node)->Ok_0.conforms(meta),
    decreases meta, meta.fields@.len() + 1,
{
    match node {
        NodeView::Table(entries) => {
            lemma_read_upto_conforms(meta, entries, meta.fields@.len() as int);
        },
        _ => {},
    }
}

fn quoted_message(before: &str, name: &str, after: &str) -> (r: Vec<char>)
    ensures
        r@ == before@ + name@ + after@,
{
    let mut msg: Vec<char> = Vec::new();
    push_str(&mut msg, before);
    push_str(&mut msg, name);
    push_str(&mut msg, after);
    msg
}

fn wrong_value_message(field: &str, ty: &LeafType) -> (r: String)
    ensures
        r@ == wrong_value(field@, *ty),
{
    let mut msg = quoted_message("invalid value for `", field, "`, expected ");
    push_description(&mut msg, ty);
    string_from_chars(&msg)
}

/// The layer that the content of a file holds for a schema. A value that
/// is none of the type of its leaf, a name that stands twice, and a value
/// that is no table where the schema has a nested configuration are
/// errors; the message names the field.
#[verifier::loop_isolation(false)]
pub fn layer_of(meta: &Meta, node: &Node) -> (r: Result<Layer, String>)
    ensures
        match node_layer(*meta, node@) {
            Ok(l) => r is Ok && r->Ok_0@ == l,
            Err(e) => r is Err && r->Err_0@ == e,
        },
        r matches Ok(l) ==> l@.conforms(*meta),
    decreases meta,
{
    let entries = match node {
        Node::Table(entries) => entries,
        _ => {
            let msg = quoted_message("invalid type, expected the table `", meta.name.as_str(), "`");
            return Err(string_from_chars(&msg));
        },
    };
    let ghost table = entry_views(entries@);
    assert(node@->Table_0 =~= table);
    let mut fields: Vec<LayerField> = Vec::new();
    let ghost mut views: Seq<LayerFieldView> = Seq::empty();
    let mut i: usize = 0;
    while i < meta.fields.len()
        invariant
            i <= meta.fields.len(),
            fields@.len() == i,
            views.len() == i,
            forall|j: int| 0 <= j < i ==> fields@[j]@ == views[j],
            read_upto(*meta, table, i as int) == Ok::<Seq<LayerFieldView>, Seq<char>>(views),
        decreases meta.fields.len() - i,
    {
        let field = &meta.fields[i];
        let made: Result<LayerField, String> = match find(entries, field.name.as_str(), 0) {
            Some(p) => {
                if find(entries, field.name.as_str(), p + 1).is_some() {
                    let msg = quoted_message("duplicate field `", field.name.as_str(), "`");
                    Err(string_from_chars(&msg))
                } else {
                    match &field.kind {
                        FieldKind::Leaf { env, kind, ty } => {
                            let value = entries[p].1.to_expr();
                            match deserialize_default(&value, ty) {
                                Ok(v) => Ok(LayerField::Leaf(Some(v))),
                                Err(_) => Err(wrong_value_message(field.name.as_str(), ty)),
                            }
                        },
                        FieldKind::Nested { meta: sub } => match layer_of(sub, &entries[p].1) {
                            Ok(l) => {
                                proof {
                                    lemma_nested_view(l);
                                }
                                Ok(LayerField::Nested(l))
                            },
                            Err(e) => Err(e),
                        },
                    }
                }
            },
            None => match &field.kind {
                FieldKind::Leaf { .. } => Ok(LayerField::Leaf(None)),
                FieldKind::Nested { meta: sub } => {
                    let l = Layer::empty(sub);
                    proof {
                        lemma_nested_view(l);
                    }
                    Ok(LayerField::Nested(l))
                },
            },
        };
        assert(match read_field(*field, table) {
            Ok(f) => made is Ok && made->Ok_0@ == f,
            Err(e) => made is Err && made->Err_0@ == e,
        });
        match made {
            Ok(f) => {
                proof {
                    views = views.push(f@);
                }
                fields.push(f);
            },
            Err(e) => {
                proof {
                    lemma_read_fails(*meta, table, i + 1, meta.fields@.len() as int);
                }
                return Err(e);
            },
        }
        i += 1;
    }
    let r = Layer { fields };
    proof {
        assert(r@.fields =~= views);
        lemma_node_layer_conforms(*meta, node@);
    }
    Ok(r)
}

/// The key of a map as the name of an entry of a table.
pub open spec fn key_name(key: MapKeyView) -> Seq<char> {
    match key {
        MapKeyView::Str(s) => s,
        MapKeyView::Float(f) => f.text(),
        MapKeyView::Integer(i) => int_text(i.value()),
        MapKeyView::Bool(b) => bool_text(b),
    }
}

/// A literal as the value in a file that stands for it: its numbers
/// without their widths, its arrays and maps in their order.
pub open spec fn expr_node(v: ExprView) -> NodeView
    decreases v,
{
    match v {
        ExprView::Bool(b) => NodeView::Bool(b),
        ExprView::Str(s) => NodeView::Str(s),
        ExprView::Float(f) => NodeView::Float(f.text()),
        ExprView::Integer(i) => if i.value() < 0 {
            NodeView::Signed(i.value() as i64)
        } else {
            NodeView::Unsigned(i.value() as u64)
        },
        ExprView::Array(items) => NodeView::List(
            Seq::new(
                items.len(),
                |k: int|
                    if 0 <= k < items.len() {
                        expr_node(items[k])
                    } else {
                        NodeView::Bool(false)
                    },
            ),
        ),
        ExprView::Dict(entries) => NodeView::Table(
            Seq::new(
                entries.len(),
                |k: int|
                    if 0 <= k < entries.len() {
                        (key_name(entries[k].0), expr_node(entries[k].1))
                    } else {
                        (Seq::empty(), NodeView::Bool(false))
                    },
            ),
        ),
    }
}

/// Whether every leaf of the schema, at any depth, has a default and a
/// type by which a value in a file is read.
pub open spec fn all_defaulted(meta: Meta) -> bool
    decreases meta,
{
    forall|i: int|
        0 <= i < meta.fields@.len() ==> match (#[trigger] meta.fields@[i]).kind {
            FieldKind::Leaf { env, kind, ty } => !(ty is Custom) && kind is Required
                && kind->default is Some,
            FieldKind::Nested { meta: sub } => all_defaulted(sub),
        }
}

/// Whether no two fields of one configuration type have the same name,
/// at any depth.
pub open spec fn distinct_names(meta: Meta) -> bool
    decreases meta,
{
    &&& forall|i: int, j: int|
        0 <= i < j < meta.fields@.len() ==> (#[trigger] meta.fields@[i]).name@ != (
        #[trigger] meta.fields@[j]).name@
    &&& forall|i: int|
        0 <= i < meta.fields@.len() ==> match (#[trigger] meta.fields@[i]).kind {
            FieldKind::Leaf { .. } => true,
            FieldKind::Nested { meta: sub } => distinct_names(sub),
        }
}

/// What a file that holds the defaults of a schema has under the name of
/// one field.
pub open spec fn default_node(field: Field) -> NodeView
    decreases field,
{
    match field.kind {
        FieldKind::Leaf { env, kind, ty } => match kind {
            LeafKind::Required { default: Some(declared) } => match default_of(ty, declared@) {
                Some(v) => expr_node(v),
                None => NodeView::Bool(false),
            },
            _ => NodeView::Bool(false),
        },
        FieldKind::Nested { meta } => defaults_tree(meta),
    }
}

/// The content of a file that holds the defaults of a schema and nothing
/// else: a table with the value of each default under the name of its
/// leaf, and such a table under the name of each nested configuration.
pub open spec fn defaults_tree(meta: Meta) -> NodeView
    decreases meta,
{
    NodeView::Table(
        Seq::new(
            meta.fields@.len(),
            |i: int|
                if 0 <= i < meta.fields@.len() {
                    (meta.fields@[i].name@, default_node(meta.fields@[i]))
                } else {
                    (Seq::empty(), NodeView::Bool(false))
                },
        ),
    )
}

/// No entry under a name is found where none has the name.
pub proof fn lemma_position_none(entries: Seq<(Seq<char>, NodeView)>, name: Seq<char>, k: int)
    requires
        0 <= k,
        forall|j: int| k <= j < entries.len() ==> (#[trigger] entries[j]).0 != name,
    ensures
        position_from(entries, name, k) is None,
    decreases entries.len() - k,
{
    if k < entries.len() {
        lemma_position_none(entries, name, k + 1);
    }
}

/// The first entry under a name is found at its place.
pub proof fn lemma_position_at(entries: Seq<(Seq<char>, NodeView)>, name: Seq<char>, k: int, i: int)
    requires
        0 <= k <= i < entries.len(),
        entries[i].0 == name,
        forall|j: int| k <= j < i ==> (#[trigger] entries[j]).0 != name,
    ensures
        position_from(entries, name, k) == Some(i),
    decreases i - k,
{
    if k < i {
        lemma_position_at(entries, name, k + 1, i);
    }
}

/// A value of a leaf of one value, written to a file and read again, is
/// what it was.
pub proof fn lemma_scalar_reads_back(t: ScalarType, declared: ExprView)
    requires
        scalar_default(t, declared) is Some,
    ensures
        scalar_default(t, node_expr(expr_node(scalar_default(t, declared)->0))) == scalar_default(
            t,
            declared,
        ),
{
}

/// The values that the first `n` items of an array are read as, one by
/// one.
pub proof fn lemma_defaults_by_item(t: ScalarType, items: Seq<ExprView>, n: int)
    requires
        0 <= n,
        defaults_upto(t, items, n) is Some,
    ensures
        defaults_upto(t, items, n)->0.len() == n,
        forall|k: int|
            0 <= k < n ==> scalar_default(t, #[trigger] items[k]) == Some(
                defaults_upto(t, items, n)->0[k],
            ),
    decreases n,
{
    if n > 0 {
        lemma_defaults_by_item(t, items, n - 1);
    }
}

/// An array whose items are read as the values `values`, one by one, is
/// read as these values.
pub proof fn lemma_defaults_of_items(
    t: ScalarType,
    items: Seq<ExprView>,
    values: Seq<ExprView>,
    n: int,
)
    requires
        0 <= n <= values.len(),
        forall|k: int| 0 <= k < n ==> scalar_default(t, #[trigger] items[k]) == Some(values[k]),
    ensures
        defaults_upto(t, items, n) == Some(values.take(n)),
    decreases n,
{
    if n > 0 {
        lemma_defaults_of_items(t, items, values, n - 1);
        assert(values.take(n) =~= values.take(n - 1).push(values[n - 1]));
    } else {
        assert(values.take(0) =~= Seq::<ExprView>::empty());
    }
}

/// The value of a default, written to a file and read again by the type
/// of its leaf, is what it was.
pub proof fn lemma_value_reads_back(ty: LeafType, declared: ExprView)
    requires
        !(ty is Custom),
        default_of(ty, declared) is Some,
    ensures
        default_of(ty, node_expr(expr_node(default_of(ty, declared)->0))) == default_of(
            ty,
            declared,
        ),
{
    match ty {
        LeafType::Scalar(t) => {
            lemma_scalar_reads_back(t, declared);
        },
        LeafType::Enum(names) => {},
        LeafType::List(sep, t) => {
            let items = declared->Array_0;
            let values = defaults_upto(t, items, items.len() as int)->0;
            lemma_defaults_by_item(t, items, items.len() as int);
            let back = node_expr(expr_node(ExprView::Array(values)))->Array_0;
            assert(back.len() == values.len());
            assert forall|k: int| 0 <= k < values.len() implies scalar_default(
                t,
                #[trigger] back[k],
            ) == Some(values[k]) by {
                assert(back[k] == node_expr(expr_node(values[k])));
                assert(scalar_default(t, items[k]) == Some(values[k]));
                lemma_scalar_reads_back(t, items[k]);
            }
            lemma_defaults_of_items(t, back, values, values.len() as int);
            assert(values.take(values.len() as int) =~= values);
        },
        LeafType::Custom => {},
    }
}

/// What the file of the defaults holds for the first `n` fields is what
/// the layer of defaults holds for them.
pub proof fn lemma_defaults_read_upto(meta: Meta, n: int)
    requires
        LayerView::defaults_fit(meta),
        all_defaulted(meta),
        distinct_names(meta),
        0 <= n <= meta.fields@.len(),
    ensures
        read_upto(meta, defaults_tree(meta)->Table_0, n) == Ok::<Seq<LayerFieldView>, Seq<char>>(
            LayerView::defaults_for(meta).fields.take(n),
        ),
    decreases meta, n,
{
    let entries = defaults_tree(meta)->Table_0;
    let all = LayerView::defaults_for(meta).fields;
    if n > 0 {
        lemma_defaults_read_upto(meta, n - 1);
        let i = n - 1;
        let field = meta.fields@[i];
        lemma_fit_by_field(meta, meta.fields@.len() as int, i);
        assert(entries[i].0 == field.name@);
        assert forall|j: int| 0 <= j < i implies (#[trigger] entries[j]).0 != field.name@ by {
            assert(meta.fields@[j].name@ != meta.fields@[i].name@);
        }
        lemma_position_at(entries, field.name@, 0, i);
        assert forall|j: int| i + 1 <= j < entries.len() implies (#[trigger] entries[j]).0
            != field.name@ by {
            assert(meta.fields@[i].name@ != meta.fields@[j].name@);
        }
        lemma_position_none(entries, field.name@, i + 1);
        match field.kind {
            FieldKind::Leaf { env, kind, ty } => {
                let declared = kind->default->0;
                lemma_value_reads_back(ty, declared@);
            },
            FieldKind::Nested { meta: sub } => {
                lemma_defaults_read_back(sub);
            },
        }
        assert(read_field(field, entries) == Ok::<LayerFieldView, Seq<char>>(all[i]));
        assert(all.take(n) =~= all.take(n - 1).push(all[i]));
    } else {
        assert(all.take(0) =~= Seq::<LayerFieldView>::empty());
    }
}

/// Reading back the defaults: for a schema in which every leaf has a
/// default, the layer of the file that holds these defaults, each under
/// the name of its leaf, is the layer of defaults.
pub proof fn lemma_defaults_read_back(meta: Meta)
    requires
        LayerView::defaults_fit(meta),
        all_defaulted(meta),
        distinct_names(meta),
    ensures
        node_layer(meta, defaults_tree(meta)) == Ok::<LayerView, Seq<char>>(
            LayerView::defaults_for(meta),
        ),
    decreases meta, meta.fields@.len() + 1,
{
    lemma_defaults_read_upto(meta, meta.fields@.len() as int);
    let all = LayerView::defaults_for(meta).fields;
    assert(all.take(meta.fields@.len() as int) =~= all);
}

} // verus!
