//! Files as sources of configuration: which format a file has, and what
//! the outcome of reading it means.

use vstd::prelude::*;
use crate::error::{Error, ErrorInner, ErrorView};
use crate::internal::{checks, field_verdict, no_rules, refusal, Rules};
use crate::layer::{is_layer, Layer, LayerView};
use crate::meta::{Expr, Meta};
use crate::text::{chars_of, is_text, push_str, string_from_chars};

verus! {

/// The formats of configuration files.
#[derive(Debug, Clone, Copy, PartialEq, Eq)]
pub enum FileFormat {
    Toml,
    Yaml,
    Json5,
}

/// The format that an extension stands for: `toml`; `yaml` and `yml`;
/// `json5` and `json`.
pub open spec fn format_of(ext: Seq<char>) -> Option<FileFormat> {
    if ext == "toml"@ {
        Some(FileFormat::Toml)
    } else if ext == "yaml"@ || ext == "yml"@ {
        Some(FileFormat::Yaml)
    } else if ext == "json5"@ || ext == "json"@ {
        Some(FileFormat::Json5)
    } else {
        None
    }
}

impl FileFormat {
    /// The format that an extension stands for, if it is a known one.
    pub fn from_extension(ext: &str) -> (r: Option<FileFormat>)
        ensures
            r == format_of(ext@),
    {
        let e = chars_of(ext);
        if is_text(&e, "toml") {
            Some(FileFormat::Toml)
        } else if is_text(&e, "yaml") || is_text(&e, "yml") {
            Some(FileFormat::Yaml)
        } else if is_text(&e, "json5") || is_text(&e, "json") {
            Some(FileFormat::Json5)
        } else {
            None
        }
    }
}

/// What reading a file and parsing its content gave.
#[derive(Debug, PartialEq)]
pub enum FileOutcome {
    /// There is no such file.
    NotFound,
    /// Reading failed for another reason; the string is the message.
    Failed(String),
    /// The content is no configuration of the format; the string is what
    /// the parser said.
    Malformed(String),
    /// The layer that the content holds.
    Loaded(Layer),
}

/// A file as a source of configuration. A file is optional unless it is
/// marked as required: an optional file that does not exist gives the
/// empty layer.
#[derive(Debug, PartialEq, Eq)]
pub struct File {
    pub path: String,
    pub format: FileFormat,
    pub required: bool,
}

/// Whether `ext` can be the extension of the name of the file at `path`:
/// it holds no `.`, and it stands in the path right behind a `.`.
pub open spec fn follows_dot(path: Seq<char>, ext: Seq<char>) -> bool {
    &&& forall|j: int| 0 <= j < ext.len() ==> (#[trigger] ext[j]) != '.'
    &&& exists|i: int|
        0 <= i && i + 1 + ext.len() <= path.len() && (#[trigger] path[i]) == '.' && path.subrange(
            i + 1,
            i + 1 + ext.len(),
        ) == ext
}

/// `Path::extension`: the extension of the file's name, if it has one.
/// Which part of a path is the file's name goes by the rules of the
/// platform, so the contract says only what holds on each: an extension
/// is what follows the last `.` of the name.
#[verifier::external_body]
pub(crate) fn extension(path: &str) -> (r: Option<String>)
    ensures
        r matches Some(ext) ==> follows_dot(path@, ext@),
{
    std::path::Path::new(path).extension().map(|e| e.to_string_lossy().into_owned())
}

/// The file at `path` whose name has the extension `ext`, if any: an error
/// where it has none or the extension is not one of a known format.
pub open spec fn file_of(path: Seq<char>, ext: Option<Seq<char>>) -> Result<FileFormat, ErrorView> {
    match ext {
        Some(e) => match format_of(e) {
            Some(format) => Ok(format),
            None => Err(ErrorView::UnsupportedFileFormat { path }),
        },
        None => Err(ErrorView::MissingFileExtension { path }),
    }
}

/// The words that name a file as the source of a configuration.
pub open spec fn file_source(path: Seq<char>) -> Seq<char> {
    "file '"@ + path + "'"@
}

impl File {
    /// What the outcome of reading the file means: the layer that the
    /// file holds, where the validator of the application refuses none of
    /// its values; the empty layer where the file does not exist and is
    /// not required; else an error.
    pub open spec fn load_spec(self, meta: Meta, outcome: FileOutcome, rules: Rules) -> Result<
        LayerView,
        ErrorView,
    > {
        match outcome {
            FileOutcome::NotFound => if self.required {
                Err(ErrorView::MissingRequiredFile { path: self.path@ })
            } else {
                Ok(LayerView::empty_for(meta))
            },
            FileOutcome::Failed(err) => Err(ErrorView::Io { path: Some(self.path@), err: err@ }),
            FileOutcome::Malformed(err) => Err(
                ErrorView::Deserialization { source: Some(file_source(self.path@)), err: err@ },
            ),
            FileOutcome::Loaded(layer) => match layer@.checked(meta, rules) {
                Ok(_) => Ok(layer@),
                Err(refused) => Err(
                    ErrorView::Deserialization {
                        source: Some(file_source(self.path@)),
                        err: refusal(refused.1),
                    },
                ),
            },
        }
    }

    /// The file at `path`, in the format that the extension `ext` of its
    /// name stands for.
    pub fn with_extension(path: &str, ext: Option<&str>) -> (r: Result<File, Error>)
        ensures
            match file_of(
                path@,
                match ext {
                    Some(e) => Some(e@),
                    None => None,
                },
            ) {
                Ok(format) => r is Ok && r->Ok_0.path@ == path@ && r->Ok_0.format == format
                    && !r->Ok_0.required,
                Err(e) => r is Err && r->Err_0@ == e,
            },
    {
        match ext {
            Some(e) => match FileFormat::from_extension(e) {
                Some(format) => Ok(File::with_format(path, format)),
                None => Err(
                    Error { inner: ErrorInner::UnsupportedFileFormat { path: path.to_owned() } },
                ),
            },
            None => Err(Error { inner: ErrorInner::MissingFileExtension { path: path.to_owned() } }),
        }
    }

    /// The file at `path`, in the format that the extension of its name
    /// stands for. An error where the name has no extension or the
    /// extension is not one of a known format.
    pub fn new(path: &str) -> (r: Result<File, Error>)
        ensures
            match r {
                Ok(file) => file.path@ == path@ && !file.required && exists|ext: Seq<char>| #[trigger]
                    follows_dot(path@, ext) && format_of(ext) == Some(file.format),
                Err(e) => e@ == (ErrorView::MissingFileExtension { path: path@ }) || (e@ == (
                ErrorView::UnsupportedFileFormat { path: path@ }) && exists|ext: Seq<char>| #[trigger]
                    follows_dot(path@, ext) && format_of(ext) is None),
            },
            (forall|i: int| 0 <= i < path@.len() ==> (#[trigger] path@[i]) != '.') ==> r is Err
                && r->Err_0@ == (ErrorView::MissingFileExtension { path: path@ }),
    {
        match extension(path) {
            Some(e) => {
                assert(follows_dot(path@, e@));
                File::with_extension(path, Some(e.as_str()))
            },
            None => File::with_extension(path, None),
        }
    }

    /// The file at `path` in the given format.
    pub fn with_format(path: &str, format: FileFormat) -> (r: File)
        ensures
            r.path@ == path@,
            r.format == format,
            !r.required,
    {
        File { path: path.to_owned(), format, required: false }
    }

    /// The TOML file at `path`.
    pub fn toml(path: &str) -> (r: File)
        ensures
            r.path@ == path@,
            r.format == FileFormat::Toml,
            !r.required,
    {
        File::with_format(path, FileFormat::Toml)
    }

    /// The YAML file at `path`.
    pub fn yaml(path: &str) -> (r: File)
        ensures
            r.path@ == path@,
            r.format == FileFormat::Yaml,
            !r.required,
    {
        File::with_format(path, FileFormat::Yaml)
    }

    /// Marks the file as required: loading fails where it does not exist.
    pub fn required(self) -> (r: File)
        ensures
            r.path == self.path,
            r.format == self.format,
            r.required,
    {
        File { path: self.path, format: self.format, required: true }
    }

    /// The layer of the file, given the outcome of reading it.
    pub fn load(&self, meta: &Meta, outcome: &FileOutcome) -> (r: Result<Layer, Error>)
        ensures
            is_layer(r, self.load_spec(*meta, *outcome, no_rules())),
    {
        let validate = |f: &String, v: &Expr| -> (r: Result<(), String>)
            ensures
                r is Ok,
            { Ok(()) };
        let r = self.load_with(meta, outcome, &validate);
        assert(checks(&validate, no_rules()));
        r
    }

    fn malformed(&self, err: String) -> (e: Error)
        ensures
            e@ == (ErrorView::Deserialization { source: Some(file_source(self.path@)), err: err@ }),
    {
        let mut source: Vec<char> = Vec::new();
        push_str(&mut source, "file '");
        push_str(&mut source, self.path.as_str());
        push_str(&mut source, "'");
        assert(source@ =~= file_source(self.path@));
        Error {
            inner: ErrorInner::Deserialization { source: Some(string_from_chars(&source)), err },
        }
    }

    /// The layer of the file, given the outcome of reading it, with the
    /// validator of the application: it sees every value of the layer
    /// that the file holds, and what it refuses makes the file one that
    /// holds no configuration.
    pub fn load_with<V>(&self, meta: &Meta, outcome: &FileOutcome, validate: &V) -> (r: Result<
        Layer,
        Error,
    >) where V: Fn(&String, &Expr) -> Result<(), String>
        requires
            forall|f: &String, v: &Expr| call_requires(*validate, (f, v)),
        ensures
            forall|rules: Rules| #[trigger]
                checks(validate, rules) ==> is_layer(r, self.load_spec(*meta, *outcome, rules)),
    {
        match outcome {
            FileOutcome::NotFound => {
                if self.required {
                    Err(Error { inner: ErrorInner::MissingRequiredFile { path: self.path.clone() } })
                } else {
                    Ok(Layer::empty(meta))
                }
            },
            FileOutcome::Failed(err) => Err(
                Error { inner: ErrorInner::Io { path: Some(self.path.clone()), err: err.clone() } },
            ),
            FileOutcome::Malformed(err) => Err(self.malformed(err.clone())),
            FileOutcome::Loaded(layer) => match layer.validate_with(meta, validate) {
                Ok(_) => Ok(layer.clone()),
                Err(refused) => match field_verdict(Err(refused.msg)) {
                    Ok(_) => Ok(layer.clone()),
                    Err(msg) => Err(self.malformed(msg)),
                },
            },
        }
    }
}

} // verus!
