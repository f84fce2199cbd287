use confique::layer::{Layer, LayerField};
use confique::meta::{
    Expr, Field, FieldKind, Float, FloatType, IntType, Integer, LeafKind, LeafType, MapEntry,
    MapKey, Meta, ScalarType,
};
use confique::node::{layer_of, Node};

fn leaf(name: &str, ty: LeafType) -> Field {
    Field {
        name: name.to_string(),
        doc: vec![],
        kind: FieldKind::Leaf { env: None, kind: LeafKind::Optional, ty },
    }
}

fn schema() -> Meta {
    let http = Meta {
        name: "Http".to_string(),
        doc: vec![],
        fields: vec![
            leaf("port", LeafType::Scalar(ScalarType::Integer(IntType::U16))),
            leaf("bind", LeafType::Scalar(ScalarType::Str)),
        ],
    };
    Meta {
        name: "Conf".to_string(),
        doc: vec![],
        fields: vec![
            leaf("name", LeafType::Scalar(ScalarType::Str)),
            Field { name: "http".to_string(), doc: vec![], kind: FieldKind::Nested { meta: http } },
            leaf("debug", LeafType::Scalar(ScalarType::Bool)),
            leaf("ratio", LeafType::Scalar(ScalarType::Float(FloatType::F32))),
            leaf("level", LeafType::Enum(vec!["low".to_string(), "high".to_string()])),
            leaf("ids", LeafType::List(',', ScalarType::Integer(IntType::I8))),
            leaf("extra", LeafType::Custom),
        ],
    }
}

fn table(entries: Vec<(&str, Node)>) -> Node {
    Node::Table(entries.into_iter().map(|(k, v)| (k.to_string(), v)).collect())
}

fn text(s: &str) -> Node {
    Node::Str(s.to_string())
}

fn none() -> LayerField {
    LayerField::Leaf(None)
}

fn some(e: Expr) -> LayerField {
    LayerField::Leaf(Some(e))
}

#[test]
fn a_table_gives_the_layer_of_its_values() {
    let node = table(vec![
        ("debug", Node::Bool(true)),
        ("unknown", Node::Unsigned(1)),
        ("http", table(vec![("bind", text("0.0.0.0")), ("port", Node::Signed(8080))])),
        ("name", text("app")),
        ("ratio", Node::Float("1.5".to_string())),
        ("level", text("high")),
        ("ids", Node::List(vec![Node::Signed(-1), Node::Unsigned(2)])),
    ]);
    let layer = layer_of(&schema(), &node).unwrap();
    assert_eq!(
        layer,
        Layer {
            fields: vec![
                some(Expr::Str("app".to_string())),
                LayerField::Nested(Layer {
                    fields: vec![
                        some(Expr::Integer(Integer::U16(8080))),
                        some(Expr::Str("0.0.0.0".to_string())),
                    ],
                }),
                some(Expr::Bool(true)),
                some(Expr::Float(Float::F32("1.5".to_string()))),
                some(Expr::Str("high".to_string())),
                some(Expr::Array(vec![Expr::Integer(Integer::I8(-1)), Expr::Integer(Integer::I8(2))])),
                none(),
            ],
        },
    );
    assert!(layer.conforms(&schema()));
}

#[test]
fn an_empty_table_gives_the_empty_layer() {
    assert_eq!(layer_of(&schema(), &table(vec![])), Ok(Layer::empty(&schema())));
}

#[test]
fn an_integer_is_a_floating_point_number_too() {
    let node = table(vec![("ratio", Node::Signed(-3))]);
    let layer = layer_of(&schema(), &node).unwrap();
    assert_eq!(layer.fields[3], some(Expr::Float(Float::F32("-3".to_string()))));
}

#[test]
fn a_leaf_of_any_value_keeps_the_order_of_the_file() {
    let node = table(vec![(
        "extra",
        table(vec![
            ("zebra", Node::Unsigned(1)),
            ("anna", Node::List(vec![Node::Bool(false), Node::Float("2.5".to_string())])),
            ("mid", Node::Signed(-1)),
        ]),
    )]);
    let layer = layer_of(&schema(), &node).unwrap();
    assert_eq!(
        layer.fields[6],
        some(Expr::Dict(vec![
            MapEntry { key: MapKey::Str("zebra".to_string()), value: Expr::Integer(Integer::U64(1)) },
            MapEntry {
                key: MapKey::Str("anna".to_string()),
                value: Expr::Array(vec![
                    Expr::Bool(false),
                    Expr::Float(Float::F64("2.5".to_string())),
                ]),
            },
            MapEntry { key: MapKey::Str("mid".to_string()), value: Expr::Integer(Integer::I64(-1)) },
        ])),
    );
    assert_eq!(Node::Unsigned(7).to_expr(), Expr::Integer(Integer::U64(7)));
}

#[test]
fn values_that_are_none_of_their_leaf() {
    let err = |node: Node| layer_of(&schema(), &node).unwrap_err();
    assert_eq!(
        err(table(vec![("name", Node::Bool(true))])),
        "invalid value for `name`, expected a string",
    );
    assert_eq!(
        err(table(vec![("http", table(vec![("port", Node::Unsigned(70000))]))])),
        "invalid value for `port`, expected u16",
    );
    assert_eq!(
        err(table(vec![("http", table(vec![("port", Node::Signed(-1))]))])),
        "invalid value for `port`, expected u16",
    );
    assert_eq!(
        err(table(vec![("debug", text("true"))])),
        "invalid value for `debug`, expected a boolean",
    );
    assert_eq!(
        err(table(vec![("ratio", text("1.5"))])),
        "invalid value for `ratio`, expected f32",
    );
    assert_eq!(
        err(table(vec![("level", text("mid"))])),
        "invalid value for `level`, expected the name of a variant",
    );
    assert_eq!(
        err(table(vec![("ids", Node::List(vec![Node::Signed(1), Node::Signed(128)]))])),
        "invalid value for `ids`, expected a sequence",
    );
    assert_eq!(
        err(table(vec![("ids", Node::Signed(1))])),
        "invalid value for `ids`, expected a sequence",
    );
}

#[test]
fn what_is_no_table() {
    assert_eq!(
        layer_of(&schema(), &Node::List(vec![])).unwrap_err(),
        "invalid type, expected the table `Conf`",
    );
    assert_eq!(
        layer_of(&schema(), &table(vec![("http", Node::Unsigned(1))])).unwrap_err(),
        "invalid type, expected the table `Http`",
    );
}

#[test]
fn a_name_that_stands_twice() {
    let node = table(vec![("name", text("a")), ("debug", Node::Bool(true)), ("name", text("b"))]);
    assert_eq!(layer_of(&schema(), &node).unwrap_err(), "duplicate field `name`");
    // A name that the schema does not know may stand twice.
    let node = table(vec![("x", text("a")), ("x", text("b"))]);
    assert_eq!(layer_of(&schema(), &node), Ok(Layer::empty(&schema())));
}

#[test]
fn the_first_field_of_the_schema_that_fails_decides() {
    let node = table(vec![("debug", text("no")), ("name", Node::Bool(true))]);
    assert_eq!(layer_of(&schema(), &node).unwrap_err(), "invalid value for `name`, expected a string");
}
