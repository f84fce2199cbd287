use confique::meta::{Expr, Field, FieldKind, LeafKind, LeafType, Meta, ScalarType};

fn lines(doc: &[&str]) -> Vec<String> {
    doc.iter().map(|l| l.to_string()).collect()
}

fn leaf(name: &str, doc: &[&str], env: Option<&str>, kind: LeafKind) -> Field {
    Field {
        name: name.to_string(),
        doc: lines(doc),
        kind: FieldKind::Leaf {
            env: env.map(|e| e.to_string()),
            kind,
            ty: LeafType::Scalar(ScalarType::Str),
        },
    }
}

fn nested(name: &str, doc: &[&str], meta: Meta) -> Field {
    Field { name: name.to_string(), doc: lines(doc), kind: FieldKind::Nested { meta } }
}

fn required(default: Option<Expr>) -> LeafKind {
    LeafKind::Required { default }
}

fn text(s: &str) -> Expr {
    Expr::Str(s.to_string())
}

fn headers(with_allowed: bool) -> Meta {
    let mut fields = vec![
        leaf(
            "username",
            &[" The header in which the reverse proxy specifies the username."],
            None,
            required(Some(text("x-username"))),
        ),
        leaf(
            "display_name",
            &[" The header in which the reverse proxy specifies the display name."],
            None,
            required(Some(text("x-display-name"))),
        ),
    ];
    if with_allowed {
        fields.push(leaf(
            "allowed",
            &[" Headers that are allowed."],
            None,
            required(Some(Expr::Array(vec![text("content-type"), text("content-encoding")]))),
        ));
    }
    Meta { name: "Headers".to_string(), doc: vec![], fields }
}

fn log_config() -> Meta {
    Meta {
        name: "LogConfig".to_string(),
        doc: vec![],
        fields: vec![
            leaf(
                "stdout",
                &[" If set to `true`, the app will log to stdout."],
                None,
                required(Some(Expr::Bool(true))),
            ),
            leaf(
                "file",
                &[
                    " If this is set, the app will write logs to the given file. Of course,",
                    " the app has to have write access to that file.",
                ],
                None,
                LeafKind::Optional,
            ),
        ],
    }
}

/// A website with an HTTP server and a log.
fn example1() -> Meta {
    let http = Meta {
        name: "Http".to_string(),
        doc: lines(&[" Configuring the HTTP server of our app."]),
        fields: vec![
            Field {
                name: "port".to_string(),
                doc: lines(&[" The port the server will listen on."]),
                kind: FieldKind::Leaf {
                    env: Some("PORT".to_string()),
                    kind: required(None),
                    ty: LeafType::Scalar(ScalarType::Integer(confique::meta::IntType::U16)),
                },
            },
            nested("headers", &[], headers(true)),
            leaf(
                "bind",
                &[
                    " The bind address of the server. Can be set to `0.0.0.0` for example, to",
                    " allow other users of the network to access the server.",
                ],
                None,
                required(Some(text("127.0.0.1"))),
            ),
        ],
    };
    Meta {
        name: "Conf".to_string(),
        doc: lines(&[" A sample configuration for our app."]),
        fields: vec![
            leaf("site_name", &[" Name of the website."], None, required(None)),
            nested("http", &[" Configurations related to the HTTP communication."], http),
            nested("log", &[" Configuring the logging."], log_config()),
        ],
    }
}

/// A configuration whose top level holds nothing but a nested section.
fn example2() -> Meta {
    let http = Meta {
        name: "Http".to_string(),
        doc: lines(&[" Configuring the HTTP server of our app."]),
        fields: vec![nested("headers", &[], headers(false)), nested("log", &[], log_config())],
    };
    Meta {
        name: "Conf".to_string(),
        doc: lines(&[" A sample configuration for our app."]),
        fields: vec![nested("http", &[], http)],
    }
}

#[test]
fn toml_default() {
    let options = confique::toml::FormatOptions::default();
    let out = confique::toml::try_template(&example1(), options).unwrap();
    let expected = "# A sample configuration for our app.\n\
\n\
# Name of the website.\n\
#\n\
# Required! This value must be specified.\n\
#site_name =\n\
\n\
# Configurations related to the HTTP communication.\n\
[http]\n\
# The port the server will listen on.\n\
#\n\
# Can also be specified via environment variable `PORT`.\n\
#\n\
# Required! This value must be specified.\n\
#port =\n\
\n\
# The bind address of the server. Can be set to `0.0.0.0` for example, to\n\
# allow other users of the network to access the server.\n\
#\n\
# Default value: \"127.0.0.1\"\n\
#bind = \"127.0.0.1\"\n\
\n\
[http.headers]\n\
# The header in which the reverse proxy specifies the username.\n\
#\n\
# Default value: \"x-username\"\n\
#username = \"x-username\"\n\
\n\
# The header in which the reverse proxy specifies the display name.\n\
#\n\
# Default value: \"x-display-name\"\n\
#display_name = \"x-display-name\"\n\
\n\
# Headers that are allowed.\n\
#\n\
# Default value: [\"content-type\", \"content-encoding\"]\n\
#allowed = [\"content-type\", \"content-encoding\"]\n\
\n\
# Configuring the logging.\n\
[log]\n\
# If set to `true`, the app will log to stdout.\n\
#\n\
# Default value: true\n\
#stdout = true\n\
\n\
# If this is set, the app will write logs to the given file. Of course,\n\
# the app has to have write access to that file.\n\
#file =\n";
    assert_eq!(&out, expected);
}

#[test]
fn toml_no_comments() {
    let mut options = confique::toml::FormatOptions::default();
    options.general.comments = false;
    let out = confique::toml::try_template(&example1(), options).unwrap();
    let expected = "#site_name =\n\
\n\
[http]\n\
#port =\n\
#bind = \"127.0.0.1\"\n\
\n\
[http.headers]\n\
#username = \"x-username\"\n\
#display_name = \"x-display-name\"\n\
#allowed = [\"content-type\", \"content-encoding\"]\n\
\n\
[log]\n\
#stdout = true\n\
#file =\n";
    assert_eq!(&out, expected);
}

#[test]
fn indent_2() {
    let mut options = confique::toml::FormatOptions::default();
    options.indent = 2;
    let out = confique::toml::try_template(&example1(), options).unwrap();
    let expected = "# A sample configuration for our app.\n\
\n\
# Name of the website.\n\
#\n\
# Required! This value must be specified.\n\
#site_name =\n\
\n\
\x20 # Configurations related to the HTTP communication.\n\
\x20 [http]\n\
\x20 # The port the server will listen on.\n\
\x20 #\n\
\x20 # Can also be specified via environment variable `PORT`.\n\
\x20 #\n\
\x20 # Required! This value must be specified.\n\
\x20 #port =\n\
\n\
\x20 # The bind address of the server. Can be set to `0.0.0.0` for example, to\n\
\x20 # allow other users of the network to access the server.\n\
\x20 #\n\
\x20 # Default value: \"127.0.0.1\"\n\
\x20 #bind = \"127.0.0.1\"\n\
\n\
\x20   [http.headers]\n\
\x20   # The header in which the reverse proxy specifies the username.\n\
\x20   #\n\
\x20   # Default value: \"x-username\"\n\
\x20   #username = \"x-username\"\n\
\n\
\x20   # The header in which the reverse proxy specifies the display name.\n\
\x20   #\n\
\x20   # Default value: \"x-display-name\"\n\
\x20   #display_name = \"x-display-name\"\n\
\n\
\x20   # Headers that are allowed.\n\
\x20   #\n\
\x20   # Default value: [\"content-type\", \"content-encoding\"]\n\
\x20   #allowed = [\"content-type\", \"content-encoding\"]\n\
\n\
\x20 # Configuring the logging.\n\
\x20 [log]\n\
\x20 # If set to `true`, the app will log to stdout.\n\
\x20 #\n\
\x20 # Default value: true\n\
\x20 #stdout = true\n\
\n\
\x20 # If this is set, the app will write logs to the given file. Of course,\n\
\x20 # the app has to have write access to that file.\n\
\x20 #file =\n";
    assert_eq!(&out, expected);
}

#[test]
fn nested_gap_2() {
    let mut options = confique::toml::FormatOptions::default();
    options.general.nested_field_gap = 2;
    let out = confique::toml::try_template(&example1(), options).unwrap();
    let expected = "# A sample configuration for our app.\n\
\n\
# Name of the website.\n\
#\n\
# Required! This value must be specified.\n\
#site_name =\n\
\n\
\n\
# Configurations related to the HTTP communication.\n\
[http]\n\
# The port the server will listen on.\n\
#\n\
# Can also be specified via environment variable `PORT`.\n\
#\n\
# Required! This value must be specified.\n\
#port =\n\
\n\
# The bind address of the server. Can be set to `0.0.0.0` for example, to\n\
# allow other users of the network to access the server.\n\
#\n\
# Default value: \"127.0.0.1\"\n\
#bind = \"127.0.0.1\"\n\
\n\
\n\
[http.headers]\n\
# The header in which the reverse proxy specifies the username.\n\
#\n\
# Default value: \"x-username\"\n\
#username = \"x-username\"\n\
\n\
# The header in which the reverse proxy specifies the display name.\n\
#\n\
# Default value: \"x-display-name\"\n\
#display_name = \"x-display-name\"\n\
\n\
# Headers that are allowed.\n\
#\n\
# Default value: [\"content-type\", \"content-encoding\"]\n\
#allowed = [\"content-type\", \"content-encoding\"]\n\
\n\
\n\
# Configuring the logging.\n\
[log]\n\
# If set to `true`, the app will log to stdout.\n\
#\n\
# Default value: true\n\
#stdout = true\n\
\n\
# If this is set, the app will write logs to the given file. Of course,\n\
# the app has to have write access to that file.\n\
#file =\n";
    assert_eq!(&out, expected);
}

#[test]
fn toml_immediately_nested() {
    let options = confique::toml::FormatOptions::default();
    let out = confique::toml::try_template(&example2(), options).unwrap();
    let expected = "# A sample configuration for our app.\n\
\n\
[http]\n\
[http.headers]\n\
# The header in which the reverse proxy specifies the username.\n\
#\n\
# Default value: \"x-username\"\n\
#username = \"x-username\"\n\
\n\
# The header in which the reverse proxy specifies the display name.\n\
#\n\
# Default value: \"x-display-name\"\n\
#display_name = \"x-display-name\"\n\
\n\
[http.log]\n\
# If set to `true`, the app will log to stdout.\n\
#\n\
# Default value: true\n\
#stdout = true\n\
\n\
# If this is set, the app will write logs to the given file. Of course,\n\
# the app has to have write access to that file.\n\
#file =\n";
    assert_eq!(&out, expected);
}

#[test]
fn yaml_default() {
    let options = confique::yaml::FormatOptions::default();
    let out = confique::yaml::try_template(&example1(), options).unwrap();
    let expected = "# A sample configuration for our app.\n\
\n\
# Name of the website.\n\
#\n\
# Required! This value must be specified.\n\
#site_name:\n\
\n\
# Configurations related to the HTTP communication.\n\
http:\n\
\x20 # The port the server will listen on.\n\
\x20 #\n\
\x20 # Can also be specified via environment variable `PORT`.\n\
\x20 #\n\
\x20 # Required! This value must be specified.\n\
\x20 #port:\n\
\n\
\x20 # The bind address of the server. Can be set to `0.0.0.0` for example, to\n\
\x20 # allow other users of the network to access the server.\n\
\x20 #\n\
\x20 # Default value: 127.0.0.1\n\
\x20 #bind: 127.0.0.1\n\
\n\
\x20 headers:\n\
\x20   # The header in which the reverse proxy specifies the username.\n\
\x20   #\n\
\x20   # Default value: x-username\n\
\x20   #username: x-username\n\
\n\
\x20   # The header in which the reverse proxy specifies the display name.\n\
\x20   #\n\
\x20   # Default value: x-display-name\n\
\x20   #display_name: x-display-name\n\
\n\
\x20   # Headers that are allowed.\n\
\x20   #\n\
\x20   # Default value: [content-type, content-encoding]\n\
\x20   #allowed: [content-type, content-encoding]\n\
\n\
# Configuring the logging.\n\
log:\n\
\x20 # If set to `true`, the app will log to stdout.\n\
\x20 #\n\
\x20 # Default value: true\n\
\x20 #stdout: true\n\
\n\
\x20 # If this is set, the app will write logs to the given file. Of course,\n\
\x20 # the app has to have write access to that file.\n\
\x20 #file:\n";
    assert_eq!(&out, expected);
}

#[test]
fn yaml_no_comments() {
    let mut options = confique::yaml::FormatOptions::default();
    options.general.comments = false;
    let out = confique::yaml::try_template(&example1(), options).unwrap();
    let expected = "#site_name:\n\
\n\
http:\n\
\x20 #port:\n\
\x20 #bind: 127.0.0.1\n\
\n\
\x20 headers:\n\
\x20   #username: x-username\n\
\x20   #display_name: x-display-name\n\
\x20   #allowed: [content-type, content-encoding]\n\
\n\
log:\n\
\x20 #stdout: true\n\
\x20 #file:\n";
    assert_eq!(&out, expected);
}

#[test]
fn yaml_immediately_nested() {
    let options = confique::yaml::FormatOptions::default();
    let out = confique::yaml::try_template(&example2(), options).unwrap();
    let expected = "# A sample configuration for our app.\n\
\n\
http:\n\
\x20 headers:\n\
\x20   # The header in which the reverse proxy specifies the username.\n\
\x20   #\n\
\x20   # Default value: x-username\n\
\x20   #username: x-username\n\
\n\
\x20   # The header in which the reverse proxy specifies the display name.\n\
\x20   #\n\
\x20   # Default value: x-display-name\n\
\x20   #display_name: x-display-name\n\
\n\
\x20 log:\n\
\x20   # If set to `true`, the app will log to stdout.\n\
\x20   #\n\
\x20   # Default value: true\n\
\x20   #stdout: true\n\
\n\
\x20   # If this is set, the app will write logs to the given file. Of course,\n\
\x20   # the app has to have write access to that file.\n\
\x20   #file:\n";
    assert_eq!(&out, expected);
}

#[test]
fn json5_default() {
    let options = confique::json5::FormatOptions::default();
    let out = confique::json5::try_template(&example1(), options).unwrap();
    let expected = "// A sample configuration for our app.\n\
{\n\
\x20 // Name of the website.\n\
\x20 //\n\
\x20 // Required! This value must be specified.\n\
\x20 //site_name: ,\n\
\n\
\x20 // Configurations related to the HTTP communication.\n\
\x20 http: {\n\
\x20   // The port the server will listen on.\n\
\x20   //\n\
\x20   // Can also be specified via environment variable `PORT`.\n\
\x20   //\n\
\x20   // Required! This value must be specified.\n\
\x20   //port: ,\n\
\n\
\x20   // The bind address of the server. Can be set to `0.0.0.0` for example, to\n\
\x20   // allow other users of the network to access the server.\n\
\x20   //\n\
\x20   // Default value: \"127.0.0.1\"\n\
\x20   //bind: \"127.0.0.1\",\n\
\n\
\x20   headers: {\n\
\x20     // The header in which the reverse proxy specifies the username.\n\
\x20     //\n\
\x20     // Default value: \"x-username\"\n\
\x20     //username: \"x-username\",\n\
\n\
\x20     // The header in which the reverse proxy specifies the display name.\n\
\x20     //\n\
\x20     // Default value: \"x-display-name\"\n\
\x20     //display_name: \"x-display-name\",\n\
\n\
\x20     // Headers that are allowed.\n\
\x20     //\n\
\x20     // Default value: [\"content-type\",\"content-encoding\"]\n\
\x20     //allowed: [\"content-type\",\"content-encoding\"],\n\
\x20   },\n\
\x20 },\n\
\n\
\x20 // Configuring the logging.\n\
\x20 log: {\n\
\x20   // If set to `true`, the app will log to stdout.\n\
\x20   //\n\
\x20   // Default value: true\n\
\x20   //stdout: true,\n\
\n\
\x20   // If this is set, the app will write logs to the given file. Of course,\n\
\x20   // the app has to have write access to that file.\n\
\x20   //file: ,\n\
\x20 },\n\
}\n";
    assert_eq!(&out, expected);
}

#[test]
fn json5_no_comments() {
    let mut options = confique::json5::FormatOptions::default();
    options.general.comments = false;
    let out = confique::json5::try_template(&example1(), options).unwrap();
    let expected = "{\n\
\x20 //site_name: ,\n\
\n\
\x20 http: {\n\
\x20   //port: ,\n\
\x20   //bind: \"127.0.0.1\",\n\
\n\
\x20   headers: {\n\
\x20     //username: \"x-username\",\n\
\x20     //display_name: \"x-display-name\",\n\
\x20     //allowed: [\"content-type\",\"content-encoding\"],\n\
\x20   },\n\
\x20 },\n\
\n\
\x20 log: {\n\
\x20   //stdout: true,\n\
\x20   //file: ,\n\
\x20 },\n\
}\n";
    assert_eq!(&out, expected);
}

#[test]
fn json5_immediately_nested() {
    let options = confique::json5::FormatOptions::default();
    let out = confique::json5::try_template(&example2(), options).unwrap();
    let expected = "// A sample configuration for our app.\n\
{\n\
\x20 http: {\n\
\x20   headers: {\n\
\x20     // The header in which the reverse proxy specifies the username.\n\
\x20     //\n\
\x20     // Default value: \"x-username\"\n\
\x20     //username: \"x-username\",\n\
\n\
\x20     // The header in which the reverse proxy specifies the display name.\n\
\x20     //\n\
\x20     // Default value: \"x-display-name\"\n\
\x20     //display_name: \"x-display-name\",\n\
\x20   },\n\
\n\
\x20   log: {\n\
\x20     // If set to `true`, the app will log to stdout.\n\
\x20     //\n\
\x20     // Default value: true\n\
\x20     //stdout: true,\n\
\n\
\x20     // If this is set, the app will write logs to the given file. Of course,\n\
\x20     // the app has to have write access to that file.\n\
\x20     //file: ,\n\
\x20   },\n\
\x20 },\n\
}\n";
    assert_eq!(&out, expected);
}
