use confique::error::{Error, ErrorInner};
use confique::internal::{
    field_verdict, do_validate_field, map_err_prefix_path, struct_verdict,
    unwrap_or_missing_value_err, validate_struct,
};

fn err(inner: ErrorInner) -> Error {
    Error { inner }
}

fn s(v: &str) -> String {
    v.to_string()
}

#[test]
fn missing_value_message() {
    let e = err(ErrorInner::MissingValue(s("http.port")));
    assert_eq!(e.to_string(), "required configuration value is missing: 'http.port'");
    assert_eq!(e.to_string_with_source(), e.to_string());
    assert_eq!(e.source(), None);
}

#[test]
fn io_messages() {
    let e = err(ErrorInner::Io { path: Some(s("conf.toml")), err: s("permission denied") });
    assert_eq!(e.to_string(), "IO error occured while reading configuration file 'conf.toml'");
    assert_eq!(
        e.to_string_with_source(),
        "IO error occured while reading configuration file 'conf.toml': permission denied",
    );
    assert_eq!(e.source(), Some("permission denied"));
    let e = err(ErrorInner::Io { path: None, err: s("boom") });
    assert_eq!(e.to_string(), "IO error occured while loading configuration");
    assert_eq!(e.to_string_with_source(), "IO error occured while loading configuration: boom");
}

#[test]
fn deserialization_messages() {
    let e = err(ErrorInner::Deserialization { source: Some(s("file 'a.toml'")), err: s("bad") });
    assert_eq!(e.to_string(), "failed to deserialize configuration from file 'a.toml'");
    assert_eq!(
        e.to_string_with_source(),
        "failed to deserialize configuration from file 'a.toml': bad",
    );
    let e = err(ErrorInner::Deserialization { source: None, err: s("bad") });
    assert_eq!(e.to_string(), "failed to deserialize configuration");
    assert_eq!(e.to_string_with_source(), "failed to deserialize configuration: bad");
    assert_eq!(e.source(), Some("bad"));
}

#[test]
fn env_messages() {
    let e = err(ErrorInner::EnvNotUnicode { field: s("Conf::port"), key: s("PORT") });
    assert_eq!(
        e.to_string(),
        "failed to load value `Conf::port` from environment variable `PORT`: \
         value is not valid unicode",
    );
    let e = err(ErrorInner::EnvDeserialization {
        field: s("Conf::port"),
        key: s("PORT"),
        msg: s("invalid value"),
    });
    assert_eq!(
        e.to_string(),
        "failed to deserialize value `Conf::port` from environment variable `PORT`: invalid value",
    );
    assert_eq!(e.source(), None);
    let e =
        err(ErrorInner::EnvParseError { field: s("Conf::port"), key: s("PORT"), err: s("no") });
    assert_eq!(e.to_string(), "failed to parse environment variable `PORT` into field `Conf::port`");
    assert_eq!(
        e.to_string_with_source(),
        "failed to parse environment variable `PORT` into field `Conf::port`: no",
    );
    assert_eq!(e.source(), Some("no"));
}

#[test]
fn file_messages() {
    let e = err(ErrorInner::UnsupportedFileFormat { path: s("a.ini") });
    assert_eq!(e.to_string(), "unknown configuration file format/extension: 'a.ini'");
    let e = err(ErrorInner::MissingFileExtension { path: s("conf") });
    assert_eq!(
        e.to_string(),
        "cannot guess configuration file format due to missing file extension in 'conf'",
    );
    let e = err(ErrorInner::MissingRequiredFile { path: s("a.toml") });
    assert_eq!(e.to_string(), "required configuration file does not exist: 'a.toml'");
}

#[test]
fn validation_message() {
    let e = err(ErrorInner::Validation { msg: s("exactly one of foo and bar must be set") });
    assert_eq!(
        e.to_string(),
        "config validation failed: exactly one of foo and bar must be set",
    );
    assert_eq!(e.to_string_with_source(), e.to_string());
}

#[test]
fn from_inner() {
    let e = Error::from(ErrorInner::MissingValue(s("a")));
    assert_eq!(e.inner, ErrorInner::MissingValue(s("a")));
}

#[test]
fn unwrap_or_missing() {
    assert_eq!(unwrap_or_missing_value_err(Some(3), "port").unwrap(), 3);
    let e = unwrap_or_missing_value_err::<u8>(None, "port").unwrap_err();
    assert_eq!(e.inner, ErrorInner::MissingValue(s("port")));
}

#[test]
fn prefix_path_only_touches_missing_values() {
    let r: Result<u8, Error> = Err(err(ErrorInner::MissingValue(s("headers.allowed"))));
    let e = map_err_prefix_path(r, "http").unwrap_err();
    assert_eq!(e.inner, ErrorInner::MissingValue(s("http.headers.allowed")));

    let r: Result<u8, Error> = Err(err(ErrorInner::Validation { msg: s("no") }));
    let e = map_err_prefix_path(r, "http").unwrap_err();
    assert_eq!(e.inner, ErrorInner::Validation { msg: s("no") });

    assert_eq!(map_err_prefix_path(Ok(5), "http").unwrap(), 5);
}

#[test]
fn field_validation_prefixes_the_message() {
    let not_1234 = |v: &u32| if *v == 1234 { Err(s("bad password")) } else { Ok(()) };
    assert_eq!(do_validate_field(&1, not_1234), Ok(()));
    assert_eq!(do_validate_field(&1234, not_1234), Err(s("validation error: bad password")));
    assert_eq!(field_verdict(Ok(())), Ok(()));
    assert_eq!(field_verdict(Err(s("x"))), Err(s("validation error: x")));
}

#[test]
fn struct_validation_gives_a_validation_error() {
    let positive = |v: &i32| if *v > 0 { Ok(()) } else { Err(s("must be positive")) };
    assert_eq!(validate_struct(3, positive).unwrap(), 3);
    let e = validate_struct(-3, positive).unwrap_err();
    assert_eq!(e.inner, ErrorInner::Validation { msg: s("must be positive") });
    assert_eq!(e.to_string(), "config validation failed: must be positive");
    assert_eq!(struct_verdict(1, Ok(())).unwrap(), 1);
}
