//! Loading a configuration from several sources. A source that was added
//! earlier has priority: a later one only fills the gaps that the earlier
//! ones left.

use vstd::prelude::*;
use crate::config::{accept_all, approves, is_config, Config, ConfigView, Verdicts};
use crate::env::Env;
use crate::error::{option_text, Error, ErrorView};
use crate::file::{extension, file_of, follows_dot, File, FileOutcome};
use crate::internal::{callable, checks, no_rules, obeys, Rules};
use crate::layer::{defaults_accepted, is_layer, Layer, LayerView};
use crate::meta::{Expr, Meta};

verus! {

/// One source of configuration.
#[derive(Debug)]
pub enum Source {
    /// A file, by its path and the extension of its name.
    File { path: String, extension: Option<String> },
    /// The environment variables.
    Env,
    /// A layer that is there already.
    Preloaded(Layer),
}

/// What is outside the program, as the library is given it: the
/// environment, and for each file what reading it gave. A file that does
/// not occur is a file that does not exist.
#[derive(Debug)]
pub struct World {
    pub env: Env,
    pub files: Vec<(String, FileOutcome)>,
}

/// What reading the first file under the path `path`, from position `i`
/// on, gave.
pub open spec fn file_from(files: Seq<(String, FileOutcome)>, path: Seq<char>, i: int) -> FileOutcome
    decreases files.len() - i,
{
    if 0 <= i < files.len() {
        if files[i].0@ == path {
            files[i].1
        } else {
            file_from(files, path, i + 1)
        }
    } else {
        FileOutcome::NotFound
    }
}

impl World {
    /// What reading the file at `path` gave.
    pub open spec fn file(self, path: Seq<char>) -> FileOutcome {
        file_from(self.files@, path, 0)
    }

    /// What reading the file at `path` gave.
    pub fn outcome(&self, path: &String) -> (r: &FileOutcome)
        ensures
            *r == self.file(path@),
    {
        let mut i: usize = 0;
        while i < self.files.len()
            invariant
                i <= self.files.len(),
                self.file(path@) == file_from(self.files@, path@, i as int),
            decreases self.files.len() - i,
        {
            if self.files[i].0 == *path {
                return &self.files[i].1;
            }
            i += 1;
        }
        &FileOutcome::NotFound
    }
}

/// The layer of one source: that of a file, whose values the validator of
/// the application has seen; that of the environment; or a layer that is
/// there already, taken as it is.
pub open spec fn source_layer(meta: Meta, source: Source, world: World, rules: Rules) -> Result<
    LayerView,
    ErrorView,
> {
    match source {
        Source::File { path, extension } => match file_of(path@, option_text(extension)) {
            Ok(format) => (File { path, format, required: false }).load_spec(
                meta,
                world.file(path@),
                rules,
            ),
            Err(e) => Err(e),
        },
        Source::Env => LayerView::from_env(meta, world.env, rules),
        Source::Preloaded(layer) => Ok(layer@),
    }
}

/// The first `n` sources merged, each filling the gaps of those before
/// it; or the error of the first source that fails.
pub open spec fn merged_upto(
    meta: Meta,
    sources: Seq<Source>,
    world: World,
    rules: Rules,
    n: int,
) -> Result<LayerView, ErrorView>
    decreases n,
{
    if n <= 0 {
        Ok(LayerView::empty_for(meta))
    } else {
        match merged_upto(meta, sources, world, rules, n - 1) {
            Ok(acc) => match source_layer(meta, sources[n - 1], world, rules) {
                Ok(layer) => Ok(acc.with_fallback(layer)),
                Err(e) => Err(e),
            },
            Err(e) => Err(e),
        }
    }
}

/// The configuration of a layer once the defaults of the schema have
/// filled its gaps; the error names the first required value that is
/// still missing, or is that of a validator that refuses.
pub open spec fn finished(meta: Meta, layer: LayerView, accept: Verdicts) -> Result<
    ConfigView,
    ErrorView,
> {
    ConfigView::resolve(meta, layer.with_fallback(LayerView::defaults_for(meta)), accept)
}

/// What loading gives: the sources are merged in their order, the first
/// with the highest priority; the defaults of the schema fill what is
/// left; the result is turned into the configuration.
pub open spec fn loaded(
    meta: Meta,
    sources: Seq<Source>,
    world: World,
    rules: Rules,
    accept: Verdicts,
) -> Result<ConfigView, ErrorView> {
    match merged_upto(meta, sources, world, rules, sources.len() as int) {
        Ok(acc) => finished(meta, acc, accept),
        Err(e) => Err(e),
    }
}

/// Once a source fails, the sources that follow change nothing.
pub proof fn lemma_merge_fails(
    meta: Meta,
    sources: Seq<Source>,
    world: World,
    rules: Rules,
    n: int,
    m: int,
)
    requires
        merged_upto(meta, sources, world, rules, n) is Err,
        n <= m,
    ensures
        merged_upto(meta, sources, world, rules, m) == merged_upto(meta, sources, world, rules, n),
    decreases m - n,
{
    if n < m {
        lemma_merge_fails(meta, sources, world, rules, n, m - 1);
    }
}

/// Collects the sources of a configuration and loads it from them.
#[derive(Debug)]
pub struct Builder {
    pub meta: Meta,
    pub sources: Vec<Source>,
}

fn load_source<P, V>(meta: &Meta, source: &Source, world: &World, parse: &P, validate: &V) -> (r:
    Result<Layer, Error>) where
    P: Fn(&String, &String) -> Result<Expr, String>,
    V: Fn(&String, &Expr) -> Result<(), String>,

    requires
        callable(parse, validate),
    ensures
        forall|rules: Rules| #[trigger]
            obeys(parse, validate, rules) ==> is_layer(
                r,
                source_layer(*meta, *source, *world, rules),
            ),
{
    match source {
        Source::File { path, extension } => {
            let file = match extension {
                Some(e) => File::with_extension(path.as_str(), Some(e.as_str())),
                None => File::with_extension(path.as_str(), None),
            };
            match file {
                Ok(f) => {
                    let r = f.load_with(meta, world.outcome(path), validate);
                    assert forall|rules: Rules| #[trigger] obeys(parse, validate, rules) implies is_layer(
                        r,
                        source_layer(*meta, *source, *world, rules),
                    ) by {
                        assert(f.load_spec(*meta, world.file(path@), rules) == (File {
                            path: *path,
                            format: f.format,
                            required: false,
                        }).load_spec(*meta, world.file(path@), rules));
                    }
                    r
                },
                Err(e) => Err(e),
            }
        },
        Source::Env => Layer::from_env_with(meta, &world.env, parse, validate),
        Source::Preloaded(layer) => Ok(layer.clone()),
    }
}

impl Builder {
    /// A builder without sources.
    pub fn new(meta: Meta) -> (r: Builder)
        ensures
            r.meta == meta,
            r.sources@.len() == 0,
    {
        Builder { meta, sources: Vec::new() }
    }

    /// Adds a file as a source. Its format goes by the extension of its
    /// name: loading fails where the name has none or the extension is not
    /// one of a known format. The file is optional: where it does not
    /// exist, it gives the empty layer.
    pub fn file(self, path: &str) -> (r: Builder)
        ensures
            r.meta == self.meta,
            r.sources@.len() == self.sources@.len() + 1,
            r.sources@.take(self.sources@.len() as int) == self.sources@,
            r.sources@.last() matches Source::File { path: p, extension } && p@ == path@ && (
            extension matches Some(ext) ==> follows_dot(path@, ext@)),
    {
        let mut sources = self.sources;
        let ghost before = sources@;
        sources.push(Source::File { path: path.to_owned(), extension: extension(path) });
        assert(sources@.take(before.len() as int) =~= before);
        Builder { meta: self.meta, sources }
    }

    /// Adds the environment variables as a source.
    pub fn env(self) -> (r: Builder)
        ensures
            r.meta == self.meta,
            r.sources@ == self.sources@.push(Source::Env),
    {
        let mut sources = self.sources;
        sources.push(Source::Env);
        Builder { meta: self.meta, sources }
    }

    /// Adds a layer that is there already as a source.
    pub fn preloaded(self, layer: Layer) -> (r: Builder)
        ensures
            r.meta == self.meta,
            r.sources@ == self.sources@.push(Source::Preloaded(layer)),
    {
        let mut sources = self.sources;
        sources.push(Source::Preloaded(layer));
        Builder { meta: self.meta, sources }
    }

    /// Loads the sources in their order and merges them: a source that
    /// was added earlier has priority, a later one only fills gaps. The
    /// defaults of the schema fill what is left. The error is that of the
    /// first source that fails, or names the first required value that no
    /// source gave. The defaults of the schema must be values of the types
    /// of their leaves: a schema of which `Layer::first_misfit` finds one
    /// that is not cannot be loaded.
    pub fn load(self, world: &World) -> (r: Result<Config, Error>)
        requires
            LayerView::defaults_fit(self.meta),
        ensures
            is_config(r, loaded(self.meta, self.sources@, *world, no_rules(), accept_all())),
    {
        let parse = |f: &String, raw: &String| -> (r: Result<Expr, String>)
            ensures
                crate::internal::parsed_view(r) == Err::<crate::meta::ExprView, Seq<char>>(
                    crate::env::no_parser(),
                ),
            { Err("no parser is given for this field".to_owned()) };
        let validate = |f: &String, v: &Expr| -> (r: Result<(), String>)
            ensures
                r is Ok,
            { Ok(()) };
        let accept = |n: &String, c: &Config| -> (r: Result<(), String>)
            ensures
                r is Ok,
            { Ok(()) };
        let r = merge_sources(self, world, &parse, &validate, &accept);
        assert(obeys(&parse, &validate, no_rules()));
        assert(approves(&accept, accept_all()));
        r
    }

    /// Loads the sources as `load` does, with the parsers and validators
    /// of the application: `parse` reads the variables of the leaves whose
    /// type asks for it; `validate` sees every value that a file or the
    /// environment gives; `validate_struct` sees each configuration once
    /// all layers are merged into it. The defaults of the schema must be
    /// in order: values of the types of their leaves that the validator
    /// does not refuse. `Layer::check_defaults` tells; a schema that fails
    /// there cannot be loaded.
    pub fn load_with<P, V, S>(
        self,
        world: &World,
        parse: &P,
        validate: &V,
        validate_struct: &S,
    ) -> (r: Result<Config, Error>) where
        P: Fn(&String, &String) -> Result<Expr, String>,
        V: Fn(&String, &Expr) -> Result<(), String>,
        S: Fn(&String, &Config) -> Result<(), String>,

        requires
            callable(parse, validate),
            forall|n: &String, c: &Config| call_requires(*validate_struct, (n, c)),
            defaults_accepted(self.meta, validate),
        ensures
            forall|rules: Rules, accept: Verdicts|
                #![trigger obeys(parse, validate, rules), approves(validate_struct, accept)]
                obeys(parse, validate, rules) && approves(validate_struct, accept) ==> is_config(
                    r,
                    loaded(self.meta, self.sources@, *world, rules, accept),
                ),
    {
        merge_sources(self, world, parse, validate, validate_struct)
    }
}

/// Merges the sources of a builder in their order, lets the defaults of
/// the schema fill what is left, and turns the result into the
/// configuration.
fn merge_sources<P, V, S>(
    builder: Builder,
    world: &World,
    parse: &P,
    validate: &V,
    validate_struct: &S,
) -> (r: Result<Config, Error>) where
    P: Fn(&String, &String) -> Result<Expr, String>,
    V: Fn(&String, &Expr) -> Result<(), String>,
    S: Fn(&String, &Config) -> Result<(), String>,

    requires
        callable(parse, validate),
        forall|n: &String, c: &Config| call_requires(*validate_struct, (n, c)),
        LayerView::defaults_fit(builder.meta),
    ensures
        forall|rules: Rules, accept: Verdicts|
            #![trigger obeys(parse, validate, rules), approves(validate_struct, accept)]
            obeys(parse, validate, rules) && approves(validate_struct, accept) ==> is_config(
                r,
                loaded(builder.meta, builder.sources@, *world, rules, accept),
            ),
{
    let mut acc = Layer::empty(&builder.meta);
    let mut i: usize = 0;
    while i < builder.sources.len()
        invariant
            i <= builder.sources.len(),
            callable(parse, validate),
            forall|rules: Rules| #[trigger]
                obeys(parse, validate, rules) ==> merged_upto(
                    builder.meta,
                    builder.sources@,
                    *world,
                    rules,
                    i as int,
                ) == Ok::<LayerView, ErrorView>(acc@),
        decreases builder.sources.len() - i,
    {
        match load_source(&builder.meta, &builder.sources[i], world, parse, validate) {
            Ok(layer) => {
                acc = acc.with_fallback(layer);
            },
            Err(e) => {
                proof {
                    assert forall|rules: Rules| #[trigger]
                        obeys(parse, validate, rules) implies merged_upto(
                        builder.meta,
                        builder.sources@,
                        *world,
                        rules,
                        builder.sources@.len() as int,
                    ) == Err::<LayerView, ErrorView>(e@) by {
                        assert(is_layer(
                            Err::<Layer, Error>(e),
                            source_layer(builder.meta, builder.sources@[i as int], *world, rules),
                        ));
                        lemma_merge_fails(
                            builder.meta,
                            builder.sources@,
                            *world,
                            rules,
                            i + 1,
                            builder.sources@.len() as int,
                        );
                    }
                }
                return Err(e);
            },
        }
        i += 1;
    }
    Config::from_layer_with(
        &builder.meta,
        acc.with_fallback(Layer::default_values(&builder.meta)),
        validate_struct,
    )
}

impl Config {
    /// A builder for a configuration of the schema.
    pub fn builder(meta: Meta) -> (r: Builder)
        ensures
            r.meta == meta,
            r.sources@.len() == 0,
    {
        Builder::new(meta)
    }

    /// What loading from one file gives: the file must exist unless the
    /// defaults of the schema alone make a complete configuration.
    pub open spec fn file_config(
        meta: Meta,
        file: File,
        outcome: FileOutcome,
        rules: Rules,
        accept: Verdicts,
    ) -> Result<ConfigView, ErrorView> {
        let needed = !LayerView::defaults_for(meta).is_complete(meta);
        match (File { path: file.path, format: file.format, required: file.required || needed })
            .load_spec(meta, outcome, rules) {
            Ok(layer) => finished(meta, layer, accept),
            Err(e) => Err(e),
        }
    }

    /// Loads the configuration from one file, given the outcome of
    /// reading it, with the defaults of the schema for what the file
    /// leaves open. The file must exist unless the defaults alone make a
    /// complete configuration. The defaults of the schema must be values
    /// of the types of their leaves.
    pub fn from_file(meta: &Meta, file: File, outcome: &FileOutcome) -> (r: Result<Config, Error>)
        requires
            LayerView::defaults_fit(*meta),
        ensures
            is_config(r, Config::file_config(*meta, file, *outcome, no_rules(), accept_all())),
    {
        let validate = |f: &String, v: &Expr| -> (r: Result<(), String>)
            ensures
                r is Ok,
            { Ok(()) };
        let accept = |n: &String, c: &Config| -> (r: Result<(), String>)
            ensures
                r is Ok,
            { Ok(()) };
        let r = load_file(meta, file, outcome, &validate, &accept);
        assert(checks(&validate, no_rules()));
        assert(approves(&accept, accept_all()));
        r
    }

    /// Loads the configuration from one file as `from_file` does, with
    /// the validators of the application: `validate` sees every value that
    /// the file gives, `validate_struct` each configuration once the
    /// defaults are merged in. The defaults of the schema must be in
    /// order, as `Layer::check_defaults` tells.
    pub fn from_file_with<V, S>(
        meta: &Meta,
        file: File,
        outcome: &FileOutcome,
        validate: &V,
        validate_struct: &S,
    ) -> (r: Result<Config, Error>) where
        V: Fn(&String, &Expr) -> Result<(), String>,
        S: Fn(&String, &Config) -> Result<(), String>,

        requires
            forall|f: &String, v: &Expr| call_requires(*validate, (f, v)),
            forall|n: &String, c: &Config| call_requires(*validate_struct, (n, c)),
            defaults_accepted(*meta, validate),
        ensures
            forall|rules: Rules, accept: Verdicts|
                #![trigger checks(validate, rules), approves(validate_struct, accept)]
                checks(validate, rules) && approves(validate_struct, accept) ==> is_config(
                    r,
                    Config::file_config(*meta, file, *outcome, rules, accept),
                ),
    {
        load_file(meta, file, outcome, validate, validate_struct)
    }
}

/// Loads the layer of one file, which must exist unless the defaults make
/// a complete configuration, lets the defaults fill what is left, and
/// turns the result into the configuration.
fn load_file<V, S>(
    meta: &Meta,
    file: File,
    outcome: &FileOutcome,
    validate: &V,
    validate_struct: &S,
) -> (r: Result<Config, Error>) where
    V: Fn(&String, &Expr) -> Result<(), String>,
    S: Fn(&String, &Config) -> Result<(), String>,

    requires
        forall|f: &String, v: &Expr| call_requires(*validate, (f, v)),
        forall|n: &String, c: &Config| call_requires(*validate_struct, (n, c)),
        LayerView::defaults_fit(*meta),
    ensures
        forall|rules: Rules, accept: Verdicts|
            #![trigger checks(validate, rules), approves(validate_struct, accept)]
            checks(validate, rules) && approves(validate_struct, accept) ==> is_config(
                r,
                Config::file_config(*meta, file, *outcome, rules, accept),
            ),
{
    let default_values = Layer::default_values(meta);
    let file = if !default_values.is_complete(meta) {
        file.required()
    } else {
        file
    };
    match file.load_with(meta, outcome, validate) {
        Ok(layer) => Config::from_layer_with(
            meta,
            layer.with_fallback(default_values),
            validate_struct,
        ),
        Err(e) => Err(e),
    }
}

} // verus!
