//! The errors of loading a configuration, and the sentence that each one
//! is reported with.

use vstd::prelude::*;
use crate::text::{push_str, string_from_chars};

verus! {

/// An error of loading a configuration.
#[derive(Debug, PartialEq)]
pub struct Error {
    pub inner: ErrorInner,
}

/// What went wrong.
#[allow(inconsistent_fields)]
#[derive(Debug, PartialEq)]
pub enum ErrorInner {
    /// A required value is missing after all layers were merged. The
    /// string is the dotted path to the value, as in `http.port`.
    MissingValue(String),
    /// Reading a file failed.
    Io { path: Option<String>, err: String },
    /// The content of a source could not be turned into a layer. `source`
    /// completes the sentence "failed to deserialize configuration from ".
    Deserialization { source: Option<String>, err: String },
    /// The environment variable `key` does not hold Unicode.
    EnvNotUnicode { field: String, key: String },
    /// The environment variable `key` does not hold a value of the type
    /// of `field`.
    EnvDeserialization { field: String, key: String, msg: String },
    /// The parser that the schema names for `field` refused the
    /// environment variable `key`.
    EnvParseError { field: String, key: String, err: String },
    /// The extension of the file's name is not one of a known format.
    UnsupportedFileFormat { path: String },
    /// The file's name has no extension.
    MissingFileExtension { path: String },
    /// A file that was marked as required does not exist.
    MissingRequiredFile { path: String },
    /// The validator of a configuration type refused the merged value.
    Validation { msg: String },
}

/// An error as contracts see it.
#[allow(inconsistent_fields)]
pub enum ErrorView {
    MissingValue(Seq<char>),
    Io { path: Option<Seq<char>>, err: Seq<char> },
    Deserialization { source: Option<Seq<char>>, err: Seq<char> },
    EnvNotUnicode { field: Seq<char>, key: Seq<char> },
    EnvDeserialization { field: Seq<char>, key: Seq<char>, msg: Seq<char> },
    EnvParseError { field: Seq<char>, key: Seq<char>, err: Seq<char> },
    UnsupportedFileFormat { path: Seq<char> },
    MissingFileExtension { path: Seq<char> },
    MissingRequiredFile { path: Seq<char> },
    Validation { msg: Seq<char> },
}

/// The view of an optional string.
pub open spec fn option_text(s: Option<String>) -> Option<Seq<char>> {
    match s {
        Some(t) => Some(t@),
        None => None,
    }
}

impl View for ErrorInner {
    type V = ErrorView;

    open spec fn view(&self) -> ErrorView {
        match self {
            ErrorInner::MissingValue(path) => ErrorView::MissingValue(path@),
            ErrorInner::Io { path, err } => ErrorView::Io { path: option_text(*path), err: err@ },
            ErrorInner::Deserialization { source, err } => ErrorView::Deserialization {
                source: option_text(*source),
                err: err@,
            },
            ErrorInner::EnvNotUnicode { field, key } => ErrorView::EnvNotUnicode {
                field: field@,
                key: key@,
            },
            ErrorInner::EnvDeserialization { field, key, msg } => ErrorView::EnvDeserialization {
                field: field@,
                key: key@,
                msg: msg@,
            },
            ErrorInner::EnvParseError { field, key, err } => ErrorView::EnvParseError {
                field: field@,
                key: key@,
                err: err@,
            },
            ErrorInner::UnsupportedFileFormat { path } => ErrorView::UnsupportedFileFormat {
                path: path@,
            },
            ErrorInner::MissingFileExtension { path } => ErrorView::MissingFileExtension {
                path: path@,
            },
            ErrorInner::MissingRequiredFile { path } => ErrorView::MissingRequiredFile {
                path: path@,
            },
            ErrorInner::Validation { msg } => ErrorView::Validation { msg: msg@ },
        }
    }
}

impl View for Error {
    type V = ErrorView;

    open spec fn view(&self) -> ErrorView {
        self.inner@
    }
}

impl ErrorView {
    /// The sentence that reports the error, without its cause.
    pub open spec fn sentence(self) -> Seq<char> {
        match self {
            ErrorView::MissingValue(path) => "required configuration value is missing: '"@ + path
                + "'"@,
            ErrorView::Io { path, err } => match path {
                Some(p) => "IO error occured while reading configuration file '"@ + p + "'"@,
                None => "IO error occured while loading configuration"@,
            },
            ErrorView::Deserialization { source, err } => match source {
                Some(s) => "failed to deserialize configuration from "@ + s,
                None => "failed to deserialize configuration"@,
            },
            ErrorView::EnvNotUnicode { field, key } => "failed to load value `"@ + field
                + "` from environment variable `"@ + key + "`: value is not valid unicode"@,
            ErrorView::EnvDeserialization { field, key, msg } => "failed to deserialize value `"@
                + field + "` from environment variable `"@ + key + "`: "@ + msg,
            ErrorView::EnvParseError { field, key, err } => "failed to parse environment variable `"@
                + key + "` into field `"@ + field + "`"@,
            ErrorView::UnsupportedFileFormat { path } =>
                "unknown configuration file format/extension: '"@ + path + "'"@,
            ErrorView::MissingFileExtension { path } =>
                "cannot guess configuration file format due to missing file extension in '"@
                + path + "'"@,
            ErrorView::MissingRequiredFile { path } =>
                "required configuration file does not exist: '"@ + path + "'"@,
            ErrorView::Validation { msg } => "config validation failed: "@ + msg,
        }
    }

    /// The cause of the error, where it has one: the message of the error
    /// that a parser gave.
    pub open spec fn source(self) -> Option<Seq<char>> {
        match self {
            ErrorView::Io { path, err } => Some(err),
            ErrorView::Deserialization { source, err } => Some(err),
            ErrorView::EnvParseError { field, key, err } => Some(err),
            _ => None,
        }
    }

    /// The report of the error: its sentence and, in the long form and
    /// where the error has a cause, a colon and the cause.
    pub open spec fn message(self, long: bool) -> Seq<char> {
        match self.source() {
            Some(cause) => if long {
                self.sentence() + ": "@ + cause
            } else {
                self.sentence()
            },
            None => self.sentence(),
        }
    }
}

impl Error {
    /// Appends the sentence that reports the error.
    fn write_sentence(&self, out: &mut Vec<char>)
        ensures
            final(out)@ == old(out)@ + self@.sentence(),
    {
        let ghost start = out@;
        match &self.inner {
            ErrorInner::MissingValue(path) => {
                push_str(out, "required configuration value is missing: '");
                push_str(out, path.as_str());
                push_str(out, "'");
            },
            ErrorInner::Io { path, err } => match path {
                Some(p) => {
                    push_str(out, "IO error occured while reading configuration file '");
                    push_str(out, p.as_str());
                    push_str(out, "'");
                },
                None => {
                    push_str(out, "IO error occured while loading configuration");
                },
            },
            ErrorInner::Deserialization { source, err } => match source {
                Some(s) => {
                    push_str(out, "failed to deserialize configuration from ");
                    push_str(out, s.as_str());
                },
                None => {
                    push_str(out, "failed to deserialize configuration");
                },
            },
            ErrorInner::EnvNotUnicode { field, key } => {
                push_str(out, "failed to load value `");
                push_str(out, field.as_str());
                push_str(out, "` from environment variable `");
                push_str(out, key.as_str());
                push_str(out, "`: value is not valid unicode");
            },
            ErrorInner::EnvDeserialization { field, key, msg } => {
                push_str(out, "failed to deserialize value `");
                push_str(out, field.as_str());
                push_str(out, "` from environment variable `");
                push_str(out, key.as_str());
                push_str(out, "`: ");
                push_str(out, msg.as_str());
            },
            ErrorInner::EnvParseError { field, key, err } => {
                push_str(out, "failed to parse environment variable `");
                push_str(out, key.as_str());
                push_str(out, "` into field `");
                push_str(out, field.as_str());
                push_str(out, "`");
            },
            ErrorInner::UnsupportedFileFormat { path } => {
                push_str(out, "unknown configuration file format/extension: '");
                push_str(out, path.as_str());
                push_str(out, "'");
            },
            ErrorInner::MissingFileExtension { path } => {
                push_str(
                    out,
                    "cannot guess configuration file format due to missing file extension in '",
                );
                push_str(out, path.as_str());
                push_str(out, "'");
            },
            ErrorInner::MissingRequiredFile { path } => {
                push_str(out, "required configuration file does not exist: '");
                push_str(out, path.as_str());
                push_str(out, "'");
            },
            ErrorInner::Validation { msg } => {
                push_str(out, "config validation failed: ");
                push_str(out, msg.as_str());
            },
        }
        assert(out@ =~= start + self@.sentence());
    }

    /// The cause of the error, where it has one.
    pub fn source(&self) -> (r: Option<&str>)
        ensures
            match r {
                Some(s) => self@.source() == Some(s@),
                None => self@.source() is None,
            },
    {
        match &self.inner {
            ErrorInner::Io { path, err } => Some(err.as_str()),
            ErrorInner::Deserialization { source, err } => Some(err.as_str()),
            ErrorInner::EnvParseError { field, key, err } => Some(err.as_str()),
            _ => None,
        }
    }

    /// The report of the error: one sentence, without its cause.
    pub fn to_string(&self) -> (r: String)
        ensures
            r@ == self@.message(false),
    {
        let mut out: Vec<char> = Vec::new();
        self.write_sentence(&mut out);
        string_from_chars(&out)
    }

    /// The long form of the report: the sentence and, where the error has
    /// a cause, a colon and the cause.
    pub fn to_string_with_source(&self) -> (r: String)
        ensures
            r@ == self@.message(true),
    {
        let mut out: Vec<char> = Vec::new();
        self.write_sentence(&mut out);
        match self.source() {
            Some(cause) => {
                push_str(&mut out, ": ");
                push_str(&mut out, cause);
            },
            None => {},
        }
        assert(out@ =~= self@.message(true));
        string_from_chars(&out)
    }
}

impl From<ErrorInner> for Error {
    fn from(inner: ErrorInner) -> (r: Error)
    {
        Error { inner }
    }
}

impl vstd::std_specs::convert::FromSpecImpl<ErrorInner> for Error {
    open spec fn obeys_from_spec() -> bool {
        true
    }

    open spec fn from_spec(inner: ErrorInner) -> Error {
        Error { inner }
    }
}

} // verus!
