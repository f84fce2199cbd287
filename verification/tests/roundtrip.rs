use confique::layer::Layer;
use confique::node::{layer_of, Node};
use confique::meta::{
    is_valid_key, Expr, Field, FieldKind, IntType, Integer, LeafKind, LeafType, Meta, ScalarType,
};

fn leaf(name: &str, default: Expr, ty: LeafType) -> Field {
    Field {
        name: name.to_string(),
        doc: vec![format!(" The {name} of it.")],
        kind: FieldKind::Leaf {
            env: Some(name.to_uppercase()),
            kind: LeafKind::Required { default: Some(default) },
            ty,
        },
    }
}

fn nested(name: &str, meta: Meta) -> Field {
    Field { name: name.to_string(), doc: vec![" A section.".to_string()], kind: FieldKind::Nested { meta } }
}

fn text(s: &str) -> Expr {
    Expr::Str(s.to_string())
}

fn schema() -> Meta {
    let str_ = || LeafType::Scalar(ScalarType::Str);
    let headers = Meta {
        name: "Headers".to_string(),
        doc: vec![],
        fields: vec![leaf(
            "allowed",
            Expr::Array(vec![text("content-type"), text("content-encoding")]),
            LeafType::List(',', ScalarType::Str),
        )],
    };
    let http = Meta {
        name: "Http".to_string(),
        doc: vec![],
        fields: vec![
            leaf("bind", text("127.0.0.1"), str_()),
            nested("headers", headers),
            leaf(
                "retries",
                Expr::Integer(Integer::U8(3)),
                LeafType::Scalar(ScalarType::Integer(IntType::U8)),
            ),
        ],
    };
    Meta {
        name: "Conf".to_string(),
        doc: vec![" An application.".to_string()],
        fields: vec![
            leaf("name", text("the \"app\""), str_()),
            leaf(
                "port",
                Expr::Integer(Integer::U16(8080)),
                LeafType::Scalar(ScalarType::Integer(IntType::U16)),
            ),
            leaf("debug", Expr::Bool(false), LeafType::Scalar(ScalarType::Bool)),
            nested("http", http),
        ],
    }
}

/// Takes the comment token off the lines that hold a field, and drops the
/// other comments.
fn uncomment(template: &str, token: &str, separator: &str) -> String {
    let mut out = String::new();
    for line in template.lines() {
        let body = line.trim_start();
        let indent = &line[..line.len() - body.len()];
        match body.strip_prefix(token) {
            Some(rest) if rest.starts_with(' ') || rest.is_empty() => {}
            Some(rest) if rest.contains(separator) => {
                out.push_str(indent);
                out.push_str(rest);
                out.push('\n');
            }
            Some(_) => {}
            None => {
                out.push_str(line);
                out.push('\n');
            }
        }
    }
    out
}

/// What a parser gave, as the tree of plain values that the library
/// takes.
fn node_of(value: &serde_yaml::Value) -> Node {
    match value {
        serde_yaml::Value::Bool(b) => Node::Bool(*b),
        serde_yaml::Value::Number(n) => match (n.as_u64(), n.as_i64()) {
            (Some(u), _) => Node::Unsigned(u),
            (None, Some(i)) => Node::Signed(i),
            (None, None) => Node::Float(n.to_string()),
        },
        serde_yaml::Value::String(s) => Node::Str(s.clone()),
        serde_yaml::Value::Sequence(items) => Node::List(items.iter().map(node_of).collect()),
        serde_yaml::Value::Mapping(map) => Node::Table(
            map.iter().map(|(k, v)| (k.as_str().unwrap().to_string(), node_of(v))).collect(),
        ),
        other => panic!("no value: {other:?}"),
    }
}

#[test]
fn toml_template_holds_the_defaults() {
    let meta = schema();
    let template = confique::toml::try_template(&meta, Default::default()).unwrap();
    let document = uncomment(&template, "#", " = ");
    let parsed: serde_yaml::Value = toml::from_str(&document).unwrap();
    assert_eq!(layer_of(&meta, &node_of(&parsed)), Ok(Layer::default_values(&meta)));
}

#[test]
fn yaml_template_holds_the_defaults() {
    let meta = schema();
    let template = confique::yaml::try_template(&meta, Default::default()).unwrap();
    let document = uncomment(&template, "#", ": ");
    let parsed: serde_yaml::Value = serde_yaml::from_str(&document).unwrap();
    assert_eq!(layer_of(&meta, &node_of(&parsed)), Ok(Layer::default_values(&meta)));
}

#[test]
fn json5_template_holds_the_defaults() {
    let meta = schema();
    let template = confique::json5::try_template(&meta, Default::default()).unwrap();
    let document = uncomment(&template, "//", ": ");
    let parsed: serde_yaml::Value = json5::from_str(&document).unwrap();
    assert_eq!(layer_of(&meta, &node_of(&parsed)), Ok(Layer::default_values(&meta)));
}

#[test]
fn templates_without_comments_hold_the_defaults_too() {
    let meta = schema();
    let mut options = confique::yaml::FormatOptions::default();
    options.general.comments = false;
    options.indent = 4;
    let template = confique::yaml::try_template(&meta, options).unwrap();
    let parsed: serde_yaml::Value = serde_yaml::from_str(&uncomment(&template, "#", ": ")).unwrap();
    assert_eq!(layer_of(&meta, &node_of(&parsed)), Ok(Layer::default_values(&meta)));

    let mut options = confique::json5::FormatOptions::default();
    options.general.nested_field_gap = 3;
    options.indent = 0;
    let template = confique::json5::try_template(&meta, options).unwrap();
    let parsed: serde_yaml::Value = json5::from_str(&uncomment(&template, "//", ": ")).unwrap();
    assert_eq!(layer_of(&meta, &node_of(&parsed)), Ok(Layer::default_values(&meta)));
}

#[test]
fn names_of_variables() {
    assert!(is_valid_key("PORT"));
    assert!(is_valid_key(""));
    assert!(is_valid_key("a b"));
    assert!(!is_valid_key("A=B"));
    assert!(!is_valid_key("A\0"));
    assert!(schema().has_valid_keys());
    let mut bad = schema();
    if let FieldKind::Nested { meta } = &mut bad.fields[3].kind {
        if let FieldKind::Leaf { env, .. } = &mut meta.fields[2].kind {
            *env = Some("X=1".to_string());
        }
    }
    assert!(!bad.has_valid_keys());
}
