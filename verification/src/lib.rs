//! Layered configuration, verified.
//!
//! An application describes its configuration as a schema (`meta`): a tree
//! of leaves and nested sections, with documentation, defaults and the
//! names of environment variables. Every source of configuration gives a
//! layer (`layer`): a value, or none, for each leaf. Layers are merged by
//! priority, the defaults of the schema fill what is left, and the result
//! is turned into the configuration (`config`), or into the error that
//! names the first value that is missing (`error`). `builder` does all of
//! this for a list of sources.
//!
//! `env` reads the text of environment variables as values; `file` says
//! what the outcome of reading a file means, and `node` what the content
//! of a file holds for a schema; `literal` settles the types of the
//! defaults that a schema is written with; `template`, with `toml`, `yaml`
//! and `json5`, writes a schema as a commented file for the users of the
//! application.
//!
//! The library reads no variable and no file itself: it is handed what was
//! found (`builder::World`).

pub mod builder;
pub mod config;
pub mod env;
pub mod error;
pub mod file;
pub mod internal;
pub mod json5;
pub mod layer;
pub mod literal;
pub mod meta;
pub mod node;
pub mod template;
pub mod text;
pub mod toml;
pub mod yaml;
