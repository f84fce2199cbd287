use confique::config::{Config, ConfigField};
use confique::error::ErrorInner;
use confique::layer::{Layer, LayerField};
use confique::meta::{
    Expr, Field, FieldKind, FloatType, IntType, Integer, LeafKind, LeafType, Meta, ScalarType,
};

fn leaf(name: &str, kind: LeafKind, ty: LeafType) -> Field {
    Field { name: name.to_string(), doc: vec![], kind: FieldKind::Leaf { env: None, kind, ty } }
}

fn text_leaf(name: &str, kind: LeafKind) -> Field {
    leaf(name, kind, LeafType::Scalar(ScalarType::Str))
}

fn nested(name: &str, meta: Meta) -> Field {
    Field { name: name.to_string(), doc: vec![], kind: FieldKind::Nested { meta } }
}

fn text(s: &str) -> Expr {
    Expr::Str(s.to_string())
}

fn some(s: &str) -> LayerField {
    LayerField::Leaf(Some(text(s)))
}

fn none() -> LayerField {
    LayerField::Leaf(None)
}

fn layer(fields: Vec<LayerField>) -> Layer {
    Layer { fields }
}

/// `{ name: required, http: { port: required, bind: default, proxy: optional } }`
fn schema() -> Meta {
    let http = Meta {
        name: "Http".to_string(),
        doc: vec![],
        fields: vec![
            leaf(
                "port",
                LeafKind::Required { default: None },
                LeafType::Scalar(ScalarType::Integer(IntType::U16)),
            ),
            text_leaf("bind", LeafKind::Required { default: Some(text("127.0.0.1")) }),
            text_leaf("proxy", LeafKind::Optional),
        ],
    };
    Meta {
        name: "Conf".to_string(),
        doc: vec![],
        fields: vec![text_leaf("name", LeafKind::Required { default: None }), nested("http", http)],
    }
}

fn port(n: u16) -> LayerField {
    LayerField::Leaf(Some(Expr::Integer(Integer::U16(n))))
}

#[test]
fn empty_has_no_value_at_any_depth() {
    let empty = Layer::empty(&schema());
    assert_eq!(empty, layer(vec![none(), LayerField::Nested(layer(vec![none(), none(), none()]))]));
    assert!(empty.is_empty());
    assert!(empty.conforms(&schema()));
    assert!(!empty.is_complete(&schema()));
}

#[test]
fn default_values_hold_the_declared_defaults() {
    let defaults = Layer::default_values(&schema());
    assert_eq!(
        defaults,
        layer(vec![none(), LayerField::Nested(layer(vec![none(), some("127.0.0.1"), none()]))]),
    );
    assert!(!defaults.is_empty());
    assert!(!defaults.is_complete(&schema()));
}

#[test]
fn with_fallback_keeps_own_values_and_fills_gaps() {
    let a = layer(vec![some("a"), LayerField::Nested(layer(vec![none(), some("a.bind"), none()]))]);
    let b = layer(vec![some("b"), LayerField::Nested(layer(vec![port(1), some("b.bind"), none()]))]);
    let merged = a.with_fallback(b);
    assert_eq!(
        merged,
        layer(vec![some("a"), LayerField::Nested(layer(vec![port(1), some("a.bind"), none()]))]),
    );
}

#[test]
fn with_fallback_is_not_commutative() {
    let a = || layer(vec![some("a"), LayerField::Nested(layer(vec![none(), none(), none()]))]);
    let b = || layer(vec![some("b"), LayerField::Nested(layer(vec![none(), none(), none()]))]);
    assert_ne!(a().with_fallback(b()), b().with_fallback(a()));
}

#[test]
fn merge_priority_of_three_layers() {
    let a = || layer(vec![some("a"), LayerField::Nested(layer(vec![none(), none(), none()]))]);
    let b = || layer(vec![some("b"), LayerField::Nested(layer(vec![port(2), none(), none()]))]);
    let c = || {
        layer(vec![some("c"), LayerField::Nested(layer(vec![port(3), some("c.bind"), some("c.p")]))])
    };
    let expected =
        layer(vec![some("a"), LayerField::Nested(layer(vec![port(2), some("c.bind"), some("c.p")]))]);
    assert_eq!(a().with_fallback(b()).with_fallback(c()), expected);
    assert_eq!(a().with_fallback(b().with_fallback(c())), expected);
}

#[test]
fn empty_is_neutral_on_both_sides() {
    let l = || layer(vec![some("x"), LayerField::Nested(layer(vec![port(7), none(), some("p")]))]);
    assert_eq!(l().with_fallback(Layer::empty(&schema())), l());
    assert_eq!(Layer::empty(&schema()).with_fallback(l()), l());
}

#[test]
fn a_longer_fallback_adds_no_field() {
    let a = layer(vec![none()]);
    let b = layer(vec![some("b"), some("extra")]);
    assert_eq!(a.with_fallback(b), layer(vec![some("b")]));
}

#[test]
fn a_leaf_and_a_nested_layer_do_not_merge() {
    let a = layer(vec![none()]);
    let b = layer(vec![LayerField::Nested(layer(vec![some("x")]))]);
    assert_eq!(a.with_fallback(b), layer(vec![none()]));
}

#[test]
fn is_empty_looks_into_nested_layers() {
    let l = layer(vec![none(), LayerField::Nested(layer(vec![none(), none(), some("p")]))]);
    assert!(!l.is_empty());
    assert!(layer(vec![]).is_empty());
}

#[test]
fn completeness_asks_for_required_leaves_without_default() {
    let meta = schema();
    // The leaf with a default and the optional leaf do not count.
    let complete = layer(vec![some("n"), LayerField::Nested(layer(vec![port(80), none(), none()]))]);
    assert!(complete.is_complete(&meta));
    let no_port = layer(vec![some("n"), LayerField::Nested(layer(vec![none(), some("b"), none()]))]);
    assert!(!no_port.is_complete(&meta));
    let no_name = layer(vec![none(), LayerField::Nested(layer(vec![port(80), none(), none()]))]);
    assert!(!no_name.is_complete(&meta));
    // A layer without the nested layer has none of its leaves.
    assert!(!layer(vec![some("n")]).is_complete(&meta));
}

#[test]
fn conforms_compares_the_shape() {
    let meta = schema();
    assert!(!layer(vec![none()]).conforms(&meta));
    assert!(!layer(vec![none(), none()]).conforms(&meta));
    assert!(!layer(vec![none(), LayerField::Nested(layer(vec![none()]))]).conforms(&meta));
    assert!(layer(vec![some("x"), LayerField::Nested(layer(vec![none(), none(), none()]))])
        .conforms(&meta));
}

#[test]
fn complete_layers_convert_and_incomplete_ones_miss_a_value() {
    let meta = schema();
    let defaults = || Layer::default_values(&schema());
    let complete = layer(vec![some("n"), LayerField::Nested(layer(vec![port(80), none(), none()]))])
        .with_fallback(defaults());
    assert!(complete.is_complete(&meta));
    let config = Config::from_layer(&meta, complete).unwrap();
    assert_eq!(
        config,
        Config {
            fields: vec![
                ConfigField::Required(text("n")),
                ConfigField::Nested(Config {
                    fields: vec![
                        ConfigField::Required(Expr::Integer(Integer::U16(80))),
                        ConfigField::Required(text("127.0.0.1")),
                        ConfigField::Optional(None),
                    ],
                }),
            ],
        },
    );

    let incomplete = layer(vec![some("n"), LayerField::Nested(layer(vec![none(), none(), none()]))])
        .with_fallback(defaults());
    assert!(!incomplete.is_complete(&meta));
    let err = Config::from_layer(&meta, incomplete).unwrap_err();
    assert_eq!(err.inner, ErrorInner::MissingValue("http.port".to_string()));
}

#[test]
fn the_first_missing_value_is_named() {
    let meta = schema();
    let err = Config::from_layer(&meta, Layer::empty(&meta)).unwrap_err();
    assert_eq!(err.inner, ErrorInner::MissingValue("name".to_string()));
    assert_eq!(err.to_string(), "required configuration value is missing: 'name'");
}

#[test]
fn a_default_without_merge_is_missing_in_conversion() {
    // Complete without the defaults, but the leaf with a default has no value.
    let meta = schema();
    let l = layer(vec![some("n"), LayerField::Nested(layer(vec![port(80), none(), none()]))]);
    assert!(l.is_complete(&meta));
    let err = Config::from_layer(&meta, l).unwrap_err();
    assert_eq!(err.inner, ErrorInner::MissingValue("http.bind".to_string()));
}

#[test]
fn defaults_become_values_of_the_type_of_their_leaf() {
    let meta = Meta {
        name: "Conf".to_string(),
        doc: vec![],
        fields: vec![
            leaf(
                "port",
                LeafKind::Required { default: Some(Expr::Integer(Integer::I32(8080))) },
                LeafType::Scalar(ScalarType::Integer(IntType::U16)),
            ),
            leaf(
                "ratio",
                LeafKind::Required { default: Some(Expr::Integer(Integer::U8(3))) },
                LeafType::Scalar(ScalarType::Float(FloatType::F64)),
            ),
            leaf(
                "ids",
                LeafKind::Required {
                    default: Some(Expr::Array(vec![
                        Expr::Integer(Integer::I32(1)),
                        Expr::Integer(Integer::I32(2)),
                        Expr::Integer(Integer::I32(3)),
                    ])),
                },
                LeafType::List(',', ScalarType::Integer(IntType::U32)),
            ),
        ],
    };
    assert_eq!(Layer::first_misfit(&meta), None);
    let defaults = Layer::default_values(&meta);
    assert_eq!(
        defaults,
        layer(vec![
            LayerField::Leaf(Some(Expr::Integer(Integer::U16(8080)))),
            LayerField::Leaf(Some(Expr::Float(confique::meta::Float::F64("3".to_string())))),
            LayerField::Leaf(Some(Expr::Array(vec![
                Expr::Integer(Integer::U32(1)),
                Expr::Integer(Integer::U32(2)),
                Expr::Integer(Integer::U32(3)),
            ]))),
        ]),
    );
}

#[test]
fn a_default_that_is_no_value_of_its_leaf_is_found() {
    let inner = Meta {
        name: "Inner".to_string(),
        doc: vec![],
        fields: vec![
            text_leaf("fine", LeafKind::Required { default: Some(text("x")) }),
            leaf(
                "odd",
                LeafKind::Required { default: Some(Expr::Integer(Integer::I32(70000))) },
                LeafType::Scalar(ScalarType::Integer(IntType::U16)),
            ),
            leaf(
                "later",
                LeafKind::Required { default: Some(Expr::Bool(true)) },
                LeafType::Scalar(ScalarType::Str),
            ),
        ],
    };
    let meta = Meta {
        name: "Conf".to_string(),
        doc: vec![],
        fields: vec![text_leaf("name", LeafKind::Optional), nested("inner", inner)],
    };
    let misfit = Layer::first_misfit(&meta).unwrap();
    assert_eq!(misfit.field, "Inner::odd");
    assert_eq!(misfit.msg, "invalid default, expected u16");
    let fine = |_: &String, _: &Expr| -> Result<(), String> { Ok(()) };
    assert_eq!(Layer::check_defaults(&meta, &fine), Err(misfit));
    assert_eq!(Layer::first_misfit(&schema()), None);
}

#[test]
fn clone_copies_a_layer() {
    let l = layer(vec![some("x"), LayerField::Nested(layer(vec![port(7), none(), some("p")]))]);
    assert_eq!(l.clone(), l);
}
