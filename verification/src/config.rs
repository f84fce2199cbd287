//! The configuration that a complete layer is turned into.

use vstd::prelude::*;
use crate::error::{Error, ErrorView};
use crate::internal::{
    map_err_prefix_path, prefixed, struct_verdict, unwrap_or_missing_value_err, verdict_view,
};
use crate::layer::{Layer, LayerField, LayerView, lemma_nested_view, option_view};
use crate::meta::{Expr, ExprView, Field, FieldKind, LeafKind, Meta};

verus! {

/// The value of one field of a configuration.
#[derive(Debug, PartialEq)]
pub enum ConfigField {
    /// The value of a required leaf.
    Required(Expr),
    /// The value of an optional leaf, if it has one.
    Optional(Option<Expr>),
    /// A nested configuration.
    Nested(Config),
}

/// A configuration: a value for every field of its schema, in the order
/// of the schema.
#[derive(Debug, PartialEq)]
pub struct Config {
    pub fields: Vec<ConfigField>,
}

/// The value of one field of a configuration, as contracts see it.
pub enum ConfigFieldView {
    Required(ExprView),
    Optional(Option<ExprView>),
    Nested(ConfigView),
}

/// A configuration as contracts see it.
pub struct ConfigView {
    pub fields: Seq<ConfigFieldView>,
}

/// The view of one field of a configuration.
pub open spec fn config_field_view(f: ConfigField) -> ConfigFieldView
    decreases f,
{
    match f {
        ConfigField::Required(e) => ConfigFieldView::Required(e@),
        ConfigField::Optional(v) => ConfigFieldView::Optional(option_view(v)),
        ConfigField::Nested(c) => ConfigFieldView::Nested(
            ConfigView {
                fields: Seq::new(
                    c.fields@.len(),
                    |i: int|
                        if 0 <= i < c.fields@.len() {
                            config_field_view(c.fields@[i])
                        } else {
                            ConfigFieldView::Optional(None)
                        },
                ),
            },
        ),
    }
}

impl View for ConfigField {
    type V = ConfigFieldView;

    open spec fn view(&self) -> ConfigFieldView {
        config_field_view(*self)
    }
}

impl View for Config {
    type V = ConfigView;

    open spec fn view(&self) -> ConfigView {
        ConfigView { fields: Seq::new(self.fields@.len(), |i: int| self.fields@[i]@) }
    }
}

/// The fields `prefix` in front of what the rest resolved to.
pub open spec fn prepend(
    prefix: Seq<ConfigFieldView>,
    rest: Result<Seq<ConfigFieldView>, ErrorView>,
) -> Result<Seq<ConfigFieldView>, ErrorView> {
    match rest {
        Ok(fields) => Ok(prefix + fields),
        Err(e) => Err(e),
    }
}

/// What the validators of configuration types do, as a function of the
/// name of the type and the configuration: the message, where they
/// refuse.
pub type Verdicts = spec_fn(Seq<char>, ConfigView) -> Result<(), Seq<char>>;

/// The validators that refuse nothing.
pub open spec fn accept_all() -> Verdicts {
    |name: Seq<char>, config: ConfigView| Ok::<(), Seq<char>>(())
}

/// Whether the validator of an application is what `accept` says:
/// whatever it returns is what `accept` gives for the same name and the
/// same configuration.
pub open spec fn approves<S>(validate: &S, accept: Verdicts) -> bool where
    S: Fn(&String, &Config) -> Result<(), String>,
 {
    forall|n: &String, c: &Config, out: Result<(), String>| #[trigger]
        call_ensures(*validate, (n, c), out) ==> verdict_view(out) == accept(n@, c@)
}

impl ConfigView {
    /// What the field at position `i` resolves to: its value; the error of
    /// a missing value where it is a required leaf without one; or the
    /// error of the nested configuration, with the name of the field in
    /// front of the path of a missing value.
    pub open spec fn resolve_field(field: Field, layer: LayerView, i: int, accept: Verdicts) -> Result<
        ConfigFieldView,
        ErrorView,
    >
        decreases field, 0int,
    {
        match field.kind {
            FieldKind::Leaf { env, kind, .. } => match kind {
                LeafKind::Required { default } => match layer.leaf_at(i) {
                    Some(v) => Ok(ConfigFieldView::Required(v)),
                    None => Err(ErrorView::MissingValue(field.name@)),
                },
                LeafKind::Optional => Ok(ConfigFieldView::Optional(layer.leaf_at(i))),
            },
            FieldKind::Nested { meta } => match ConfigView::resolve(
                meta,
                layer.nested_at(i),
                accept,
            ) {
                Ok(c) => Ok(ConfigFieldView::Nested(c)),
                Err(e) => Err(prefixed(e, field.name@)),
            },
        }
    }

    /// What the fields from position `i` on resolve to: their values, or
    /// the error of the first of them that fails.
    pub open spec fn resolve_from(meta: Meta, layer: LayerView, accept: Verdicts, i: int) -> Result<
        Seq<ConfigFieldView>,
        ErrorView,
    >
        decreases meta, meta.fields@.len() - i,
    {
        if 0 <= i < meta.fields@.len() {
            match ConfigView::resolve_field(meta.fields@[i], layer, i, accept) {
                Ok(f) => prepend(seq![f], ConfigView::resolve_from(meta, layer, accept, i + 1)),
                Err(e) => Err(e),
            }
        } else {
            Ok(Seq::empty())
        }
    }

    /// What a layer resolves to: the configuration, once its validator
    /// has seen it; the error of the first required leaf, in the order of
    /// the schema, that has no value, with its dotted path; or the error
    /// of a validator that refuses, that of a nested configuration before
    /// that of the configuration around it.
    pub open spec fn resolve(meta: Meta, layer: LayerView, accept: Verdicts) -> Result<
        ConfigView,
        ErrorView,
    >
        decreases meta, meta.fields@.len() + 1,
    {
        match ConfigView::resolve_from(meta, layer, accept, 0) {
            Ok(fields) => match accept(meta.name@, ConfigView { fields }) {
                Ok(_) => Ok(ConfigView { fields }),
                Err(msg) => Err(ErrorView::Validation { msg }),
            },
            Err(e) => Err(e),
        }
    }
}

/// Whether `r` is the configuration, or the error, that `expected` says.
pub open spec fn is_config(r: Result<Config, Error>, expected: Result<ConfigView, ErrorView>) -> bool {
    match expected {
        Ok(c) => r is Ok && r->Ok_0@ == c,
        Err(e) => r is Err && r->Err_0@ == e,
    }
}

/// The view of a nested configuration is the view of the configuration.
pub proof fn lemma_nested_config_view(c: Config)
    ensures
        ConfigField::Nested(c)@ == ConfigFieldView::Nested(c@),
{
    assert(ConfigField::Nested(c)@->Nested_0.fields =~= c@.fields);
}

fn clone_leaf(layer: &Layer, i: usize) -> (r: Option<Expr>)
    ensures
        option_view(r) == layer@.leaf_at(i as int),
{
    if i < layer.fields.len() {
        match &layer.fields[i] {
            LayerField::Leaf(v) => match v {
                Some(e) => Some(e.clone()),
                None => None,
            },
            LayerField::Nested(_) => None,
        }
    } else {
        None
    }
}

impl Config {
    /// Turns a merged layer into the configuration of the schema: each
    /// required leaf must have a value, an optional leaf passes as it is.
    /// The error names the first required leaf without a value by its
    /// dotted path.
    pub fn from_layer(meta: &Meta, layer: Layer) -> (r: Result<Config, Error>)
        ensures
            is_config(r, ConfigView::resolve(*meta, layer@, accept_all())),
    {
        let validate = |n: &String, c: &Config| -> (r: Result<(), String>)
            ensures
                r is Ok,
            { Ok(()) };
        let r = resolve(meta, &layer, &validate);
        assert(approves(&validate, accept_all()));
        r
    }

    /// Turns a merged layer into the configuration of the schema, and
    /// hands each configuration, once all its fields are there, to the
    /// validator of the application, together with the name of its type:
    /// a nested configuration before the one around it. What the validator
    /// refuses is an error.
    pub fn from_layer_with<S>(meta: &Meta, layer: Layer, validate: &S) -> (r: Result<
        Config,
        Error,
    >) where S: Fn(&String, &Config) -> Result<(), String>
        requires
            forall|n: &String, c: &Config| call_requires(*validate, (n, c)),
        ensures
            forall|accept: Verdicts| #[trigger]
                approves(validate, accept) ==> is_config(
                    r,
                    ConfigView::resolve(*meta, layer@, accept),
                ),
    {
        resolve(meta, &layer, validate)
    }
}

#[verifier::loop_isolation(false)]
fn resolve<S>(meta: &Meta, layer: &Layer, validate: &S) -> (r: Result<Config, Error>) where
    S: Fn(&String, &Config) -> Result<(), String>,

    requires
        forall|n: &String, c: &Config| call_requires(*validate, (n, c)),
    ensures
        forall|accept: Verdicts| #[trigger]
            approves(validate, accept) ==> is_config(r, ConfigView::resolve(*meta, layer@, accept)),
    decreases meta,
{
    let mut fields: Vec<ConfigField> = Vec::new();
    let mut i: usize = 0;
    let ghost mut done: Seq<ConfigFieldView> = Seq::empty();
    while i < meta.fields.len()
        invariant
            i <= meta.fields.len(),
            fields@.len() == i,
            done.len() == i,
            forall|j: int| 0 <= j < i ==> fields@[j]@ == done[j],
            forall|accept: Verdicts| #[trigger]
                approves(validate, accept) ==> ConfigView::resolve_from(*meta, layer@, accept, 0)
                    == prepend(done, ConfigView::resolve_from(*meta, layer@, accept, i as int)),
        decreases meta.fields.len() - i,
    {
        let field = &meta.fields[i];
        let made = match &field.kind {
            FieldKind::Leaf { env, kind, .. } => match kind {
                LeafKind::Required { default } => {
                    match unwrap_or_missing_value_err(clone_leaf(layer, i), field.name.as_str()) {
                        Ok(v) => Ok(ConfigField::Required(v)),
                        Err(e) => Err(e),
                    }
                },
                LeafKind::Optional => Ok(ConfigField::Optional(clone_leaf(layer, i))),
            },
            FieldKind::Nested { meta: sub } => {
                let ghost below = layer@.nested_at(i as int);
                let nested = if i < layer.fields.len() {
                    match &layer.fields[i] {
                        LayerField::Nested(l) => {
                            proof {
                                lemma_nested_view(*l);
                            }
                            resolve(sub, l, validate)
                        },
                        LayerField::Leaf(_) => resolve(sub, &Layer::none(), validate),
                    }
                } else {
                    resolve(sub, &Layer::none(), validate)
                };
                assert forall|accept: Verdicts| #[trigger] approves(validate, accept) implies is_config(
                    nested,
                    ConfigView::resolve(*sub, below, accept),
                ) by {}
                match map_err_prefix_path(nested, field.name.as_str()) {
                    Ok(c) => {
                        proof {
                            lemma_nested_config_view(c);
                        }
                        Ok(ConfigField::Nested(c))
                    },
                    Err(e) => Err(e),
                }
            },
        };
        proof {
            assert forall|accept: Verdicts| #[trigger] approves(validate, accept) implies match made {
                Ok(f) => ConfigView::resolve_field(*field, layer@, i as int, accept) == Ok::<
                    ConfigFieldView,
                    ErrorView,
                >(f@),
                Err(e) => ConfigView::resolve_field(*field, layer@, i as int, accept) == Err::<
                    ConfigFieldView,
                    ErrorView,
                >(e@),
            } by {
                match field.kind {
                    FieldKind::Leaf { .. } => {},
                    FieldKind::Nested { meta: sub } => {
                        let expected = ConfigView::resolve(sub, layer@.nested_at(i as int), accept);
                        assert(match expected {
                            Ok(c) => made is Ok && made->Ok_0@ == ConfigFieldView::Nested(c),
                            Err(e) => made is Err && made->Err_0@ == prefixed(e, field.name@),
                        });
                    },
                }
            }
        }
        match made {
            Ok(f) => {
                proof {
                    assert forall|accept: Verdicts| #[trigger]
                        approves(validate, accept) implies ConfigView::resolve_from(
                        *meta,
                        layer@,
                        accept,
                        0,
                    ) == prepend(
                        done.push(f@),
                        ConfigView::resolve_from(*meta, layer@, accept, i + 1),
                    ) by {
                        let rest = ConfigView::resolve_from(*meta, layer@, accept, i + 1);
                        assert(prepend(done, prepend(seq![f@], rest)) =~= prepend(
                            done.push(f@),
                            rest,
                        )) by {
                            if rest is Ok {
                                assert(done + (seq![f@] + rest->Ok_0) =~= done.push(f@)
                                    + rest->Ok_0);
                            }
                        }
                    }
                    done = done.push(f@);
                }
                fields.push(f);
            },
            Err(e) => {
                return Err(e);
            },
        }
        i += 1;
    }
    let c = Config { fields };
    proof {
        assert(c@.fields =~= done);
        assert(done + Seq::<ConfigFieldView>::empty() =~= done);
    }
    let verdict = validate(&meta.name, &c);
    struct_verdict(c, verdict)
}

/// Whether a result is the error of a missing value.
pub open spec fn is_missing<T>(r: Result<T, ErrorView>) -> bool {
    r is Err && r->Err_0 is MissingValue
}

/// Whether the validators refuse nothing.
pub open spec fn never_refuses(accept: Verdicts) -> bool {
    forall|n: Seq<char>, c: ConfigView| (#[trigger] accept(n, c)) is Ok
}

/// Whether every field from position `i` on lets the layer be complete.
pub open spec fn complete_from(meta: Meta, layer: LayerView, i: int) -> bool {
    forall|j: int| i <= j < meta.fields@.len() ==> complete_at(meta, layer, j)
}

/// Whether the field at position `i` lets the layer be complete.
pub open spec fn complete_at(meta: Meta, layer: LayerView, i: int) -> bool {
    match meta.fields@[i].kind {
        FieldKind::Leaf { env, kind, .. } => LayerView::gates(kind) ==> layer.leaf_at(i) is Some,
        FieldKind::Nested { meta: sub } => layer.nested_at(i).is_complete(sub),
    }
}

/// A layer is complete exactly where each field lets it be.
pub proof fn lemma_complete_by_field(meta: Meta, layer: LayerView)
    ensures
        layer.is_complete(meta) <==> forall|j: int|
            0 <= j < meta.fields@.len() ==> complete_at(meta, layer, j),
{
    if layer.is_complete(meta) {
        assert forall|j: int| 0 <= j < meta.fields@.len() implies complete_at(meta, layer, j) by {
            let f = meta.fields@[j];
        }
    }
    if forall|j: int| 0 <= j < meta.fields@.len() ==> complete_at(meta, layer, j) {
        assert forall|i: int| 0 <= i < meta.fields@.len() implies match (#[trigger] meta.fields@[i]).kind {
            FieldKind::Leaf { env, kind, .. } => LayerView::gates(kind) ==> layer.leaf_at(i)
                is Some,
            FieldKind::Nested { meta: sub } => layer.nested_at(i).is_complete(sub),
        } by {
            assert(complete_at(meta, layer, i));
        }
    }
}

/// What resolving has to do with completeness, field by field: where all
/// fields from position `i` on let the layer be complete, no value among
/// them is missing; where one does not, resolving them fails, and on a
/// missing value where no validator refuses.
pub proof fn lemma_resolve_from(meta: Meta, layer: LayerView, accept: Verdicts, i: int)
    requires
        layer.holds_defaults(meta),
        0 <= i <= meta.fields@.len(),
    ensures
        complete_from(meta, layer, i) ==> !is_missing(
            ConfigView::resolve_from(meta, layer, accept, i),
        ),
        !complete_from(meta, layer, i) ==> ConfigView::resolve_from(meta, layer, accept, i) is Err,
        never_refuses(accept) && ConfigView::resolve_from(meta, layer, accept, i) is Err
            ==> is_missing(ConfigView::resolve_from(meta, layer, accept, i)),
    decreases meta, meta.fields@.len() - i,
{
    if i < meta.fields@.len() {
        let field = meta.fields@[i];
        lemma_resolve_from(meta, layer, accept, i + 1);
        match field.kind {
            FieldKind::Leaf { env, kind, .. } => {},
            FieldKind::Nested { meta: sub } => {
                lemma_resolve(sub, layer.nested_at(i), accept);
            },
        }
        let here = ConfigView::resolve_field(field, layer, i, accept);
        assert(complete_at(meta, layer, i) ==> !is_missing(here));
        assert(!complete_at(meta, layer, i) ==> here is Err);
        assert(never_refuses(accept) && here is Err ==> is_missing(here));
        if complete_from(meta, layer, i) {
            assert(complete_at(meta, layer, i));
            assert(complete_from(meta, layer, i + 1));
        } else {
            if complete_at(meta, layer, i) {
                assert(!complete_from(meta, layer, i + 1));
            }
        }
    }
}

/// What resolving has to do with completeness: where the layer is
/// complete, no value is missing; where it is not, resolving fails, and on
/// a missing value where no validator refuses.
pub proof fn lemma_resolve(meta: Meta, layer: LayerView, accept: Verdicts)
    requires
        layer.holds_defaults(meta),
    ensures
        layer.is_complete(meta) ==> !is_missing(ConfigView::resolve(meta, layer, accept)),
        !layer.is_complete(meta) ==> ConfigView::resolve(meta, layer, accept) is Err,
        never_refuses(accept) && ConfigView::resolve(meta, layer, accept) is Err ==> is_missing(
            ConfigView::resolve(meta, layer, accept),
        ),
    decreases meta, meta.fields@.len() + 1,
{
    lemma_resolve_from(meta, layer, accept, 0);
    lemma_complete_by_field(meta, layer);
    if never_refuses(accept) {
        let r = ConfigView::resolve_from(meta, layer, accept, 0);
        if r is Ok {
            assert(accept(meta.name@, ConfigView { fields: r->Ok_0 }) is Ok);
        }
    }
}

/// Completeness is what conversion needs. For a layer that holds the
/// defaults of its schema: where it is complete, turning it into the
/// configuration never fails on a missing value; where it is not, turning
/// it into the configuration fails, and on a missing value unless a
/// validator refuses first. So, where no validator refuses, the layer is
/// complete exactly where the conversion does not fail on a missing value.
pub proof fn lemma_complete_iff_resolves(meta: Meta, layer: LayerView, accept: Verdicts)
    requires
        layer.holds_defaults(meta),
    ensures
        layer.is_complete(meta) ==> !is_missing(ConfigView::resolve(meta, layer, accept)),
        !layer.is_complete(meta) ==> ConfigView::resolve(meta, layer, accept) is Err,
        never_refuses(accept) ==> (layer.is_complete(meta) <==> !is_missing(
            ConfigView::resolve(meta, layer, accept),
        )),
{
    lemma_resolve(meta, layer, accept);
}

} // verus!
