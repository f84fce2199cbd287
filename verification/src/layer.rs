//! Layers: the values that one source gives for the leaves of a
//! configuration type, each of them optional, and how layers are merged.

use vstd::prelude::*;
use crate::env::Env;
use crate::error::{Error, ErrorView};
use crate::internal::{
    callable, checks, default_of, deserialize_default, from_env_with, leaf_from_env, misfit,
    no_rules, obeys, parsed_view, verdict_view, Rules,
};
use crate::env::no_parser;
use crate::meta::{Expr, ExprView, Field, FieldKind, LeafKind, LeafType, Meta};
use crate::text::{push_str, string_from_chars};

verus! {

/// What a layer holds for one field.
#[derive(Debug, PartialEq)]
pub enum LayerField {
    /// The value of a leaf, if the source gave one.
    Leaf(Option<Expr>),
    /// The layer of a nested configuration.
    Nested(Layer),
}

/// The values of one source, field by field, in the order of the schema.
#[derive(Debug, PartialEq)]
pub struct Layer {
    pub fields: Vec<LayerField>,
}

/// What a layer holds for one field, as contracts see it.
pub enum LayerFieldView {
    Leaf(Option<ExprView>),
    Nested(LayerView),
}

/// A layer as contracts see it: what it holds for each field, in the
/// order of the schema.
pub struct LayerView {
    pub fields: Seq<LayerFieldView>,
}

/// The view of an optional literal.
pub open spec fn option_view(v: Option<Expr>) -> Option<ExprView> {
    match v {
        Some(e) => Some(e@),
        None => None,
    }
}

/// The view of one field of a layer.
pub open spec fn layer_field_view(f: LayerField) -> LayerFieldView
    decreases f,
{
    match f {
        LayerField::Leaf(v) => LayerFieldView::Leaf(option_view(v)),
        LayerField::Nested(l) => LayerFieldView::Nested(
            LayerView {
                fields: Seq::new(
                    l.fields@.len(),
                    |i: int|
                        if 0 <= i < l.fields@.len() {
                            layer_field_view(l.fields@[i])
                        } else {
                            LayerFieldView::Leaf(None)
                        },
                ),
            },
        ),
    }
}

impl View for LayerField {
    type V = LayerFieldView;

    open spec fn view(&self) -> LayerFieldView {
        layer_field_view(*self)
    }
}

impl View for Layer {
    type V = LayerView;

    open spec fn view(&self) -> LayerView {
        LayerView { fields: Seq::new(self.fields@.len(), |i: int| self.fields@[i]@) }
    }
}

impl LayerView {
    /// The layer without fields.
    pub open spec fn none() -> LayerView {
        LayerView { fields: Seq::empty() }
    }

    /// The value of the leaf at position `i`; `None` where the layer has
    /// no leaf there.
    pub open spec fn leaf_at(self, i: int) -> Option<ExprView> {
        if 0 <= i < self.fields.len() {
            match self.fields[i] {
                LayerFieldView::Leaf(v) => v,
                LayerFieldView::Nested(_) => None,
            }
        } else {
            None
        }
    }

    /// The nested layer at position `i`; the layer without fields where
    /// the layer has no nested layer there.
    pub open spec fn nested_at(self, i: int) -> LayerView {
        if 0 <= i < self.fields.len() {
            match self.fields[i] {
                LayerFieldView::Leaf(_) => LayerView::none(),
                LayerFieldView::Nested(l) => l,
            }
        } else {
            LayerView::none()
        }
    }

    /// What the empty layer of a schema holds for one field.
    pub open spec fn empty_field(field: Field) -> LayerFieldView
        decreases field,
    {
        match field.kind {
            FieldKind::Leaf { .. } => LayerFieldView::Leaf(None),
            FieldKind::Nested { meta } => LayerFieldView::Nested(LayerView::empty_for(meta)),
        }
    }

    /// The empty layer of a schema: no leaf has a value, at any depth.
    pub open spec fn empty_for(meta: Meta) -> LayerView
        decreases meta,
    {
        LayerView {
            fields: Seq::new(
                meta.fields@.len(),
                |i: int|
                    if 0 <= i < meta.fields@.len() {
                        LayerView::empty_field(meta.fields@[i])
                    } else {
                        LayerFieldView::Leaf(None)
                    },
            ),
        }
    }

    /// What the layer of defaults holds for one field: for a leaf, its
    /// default as a value of the type of the leaf.
    pub open spec fn default_field(field: Field) -> LayerFieldView
        decreases field,
    {
        match field.kind {
            FieldKind::Leaf { env, kind, ty } => match kind {
                LeafKind::Required { default } => match default {
                    Some(declared) => LayerFieldView::Leaf(default_of(ty, declared@)),
                    None => LayerFieldView::Leaf(None),
                },
                LeafKind::Optional => LayerFieldView::Leaf(None),
            },
            FieldKind::Nested { meta } => LayerFieldView::Nested(LayerView::defaults_for(meta)),
        }
    }

    /// The layer of the defaults that a schema declares, each as a value
    /// of the type of its leaf.
    pub open spec fn defaults_for(meta: Meta) -> LayerView
        decreases meta,
    {
        LayerView {
            fields: Seq::new(
                meta.fields@.len(),
                |i: int|
                    if 0 <= i < meta.fields@.len() {
                        LayerView::default_field(meta.fields@[i])
                    } else {
                        LayerFieldView::Leaf(None)
                    },
            ),
        }
    }

    /// Whether the layer has the shape of the schema: a leaf for each
    /// leaf, a conforming layer for each nested configuration.
    pub open spec fn conforms(self, meta: Meta) -> bool
        decreases meta,
    {
        &&& self.fields.len() == meta.fields@.len()
        &&& forall|i: int|
            0 <= i < meta.fields@.len() ==> match (#[trigger] meta.fields@[i]).kind {
                FieldKind::Leaf { .. } => self.fields[i] is Leaf,
                FieldKind::Nested { meta: sub } => self.fields[i] is Nested
                    && self.fields[i]->Nested_0.conforms(sub),
            }
    }

    /// One field of `self` with the gaps filled from `fallback`.
    pub open spec fn merge_field(a: LayerFieldView, b: LayerFieldView) -> LayerFieldView
        decreases a,
    {
        match a {
            LayerFieldView::Leaf(x) => match b {
                LayerFieldView::Leaf(y) => LayerFieldView::Leaf(if x is Some { x } else { y }),
                LayerFieldView::Nested(_) => a,
            },
            LayerFieldView::Nested(x) => match b {
                LayerFieldView::Leaf(_) => a,
                LayerFieldView::Nested(y) => LayerFieldView::Nested(x.with_fallback(y)),
            },
        }
    }

    /// `self` with the gaps filled from `fallback`: each leaf keeps its own
    /// value and takes that of `fallback` only where it has none.
    pub open spec fn with_fallback(self, fallback: LayerView) -> LayerView
        decreases self,
    {
        LayerView {
            fields: Seq::new(
                self.fields.len(),
                |i: int|
                    if 0 <= i < self.fields.len() {
                        if i < fallback.fields.len() {
                            LayerView::merge_field(self.fields[i], fallback.fields[i])
                        } else {
                            self.fields[i]
                        }
                    } else {
                        LayerFieldView::Leaf(None)
                    },
            ),
        }
    }

    /// What a field has from the environment. A leaf is named in errors
    /// by the name of its type, two colons, and its own name.
    pub open spec fn env_field(owner: Seq<char>, field: Field, env: Env, rules: Rules) -> Result<
        LayerFieldView,
        ErrorView,
    >
        decreases field, 0int,
    {
        match field.kind {
            FieldKind::Leaf { env: key, kind, ty } => match key {
                Some(k) => match leaf_from_env(
                    env.lookup(k@),
                    ty,
                    k@,
                    owner + "::"@ + field.name@,
                    rules,
                ) {
                    Ok(v) => Ok(LayerFieldView::Leaf(v)),
                    Err(e) => Err(e),
                },
                None => Ok(LayerFieldView::Leaf(None)),
            },
            FieldKind::Nested { meta } => match LayerView::env_upto(
                meta,
                env,
                rules,
                meta.fields@.len() as int,
            ) {
                Ok(fields) => Ok(LayerFieldView::Nested(LayerView { fields })),
                Err(e) => Err(e),
            },
        }
    }

    /// What the first `n` fields have from the environment, or the error
    /// of the first of them that fails.
    pub open spec fn env_upto(meta: Meta, env: Env, rules: Rules, n: int) -> Result<
        Seq<LayerFieldView>,
        ErrorView,
    >
        decreases meta, n,
    {
        if n <= 0 || n > meta.fields@.len() {
            Ok(Seq::empty())
        } else {
            match LayerView::env_upto(meta, env, rules, n - 1) {
                Ok(fields) => match LayerView::env_field(
                    meta.name@,
                    meta.fields@[n - 1],
                    env,
                    rules,
                ) {
                    Ok(f) => Ok(fields.push(f)),
                    Err(e) => Err(e),
                },
                Err(e) => Err(e),
            }
        }
    }

    /// The layer of the environment: each leaf with an environment
    /// variable has what the text of the variable is read as, or no value
    /// where the variable is not set or holds an empty text that is no
    /// value; every other leaf has no value. The error is that of the
    /// first leaf, in the order of the schema, whose variable holds a text
    /// that is no value. The rules say what the parsers and validators of
    /// the application do.
    pub open spec fn from_env(meta: Meta, env: Env, rules: Rules) -> Result<LayerView, ErrorView> {
        match LayerView::env_upto(meta, env, rules, meta.fields@.len() as int) {
            Ok(fields) => Ok(LayerView { fields }),
            Err(e) => Err(e),
        }
    }

    /// Whether every default that the schema declares, at any depth, is a
    /// value of the type of its leaf. A schema of which this does not hold
    /// is a mistake of its author; it has no layer of defaults.
    pub open spec fn defaults_fit(meta: Meta) -> bool {
        LayerView::misfit_upto(meta, meta.fields@.len() as int) is None
    }

    /// The first default among the first `n` fields that is no value of
    /// the type of its leaf: the name of the leaf, and the message.
    pub open spec fn misfit_upto(meta: Meta, n: int) -> Option<(Seq<char>, Seq<char>)>
        decreases meta, n,
    {
        if n <= 0 || n > meta.fields@.len() {
            None
        } else {
            match LayerView::misfit_upto(meta, n - 1) {
                Some(found) => Some(found),
                None => LayerView::misfit_field(meta.name@, meta.fields@[n - 1]),
            }
        }
    }

    /// The first default below a field that is no value of the type of
    /// its leaf.
    pub open spec fn misfit_field(owner: Seq<char>, field: Field) -> Option<(Seq<char>, Seq<char>)>
        decreases field, 0int,
    {
        match field.kind {
            FieldKind::Leaf { env, kind, ty } => match kind {
                LeafKind::Required { default: Some(declared) } => if default_of(ty, declared@)
                    is None {
                    Some((owner + "::"@ + field.name@, misfit(ty)))
                } else {
                    None
                },
                _ => None,
            },
            FieldKind::Nested { meta } => LayerView::misfit_upto(meta, meta.fields@.len() as int),
        }
    }

    /// What is wrong with the defaults of a schema, if anything: the first
    /// default that is no value of the type of its leaf; else the first
    /// that the validator of the application refuses.
    pub open spec fn defaults_checked(meta: Meta, rules: Rules) -> Result<
        (),
        (Seq<char>, Seq<char>),
    > {
        match LayerView::misfit_upto(meta, meta.fields@.len() as int) {
            Some(found) => Err(found),
            None => LayerView::defaults_for(meta).checked(meta, rules),
        }
    }

    /// What the validator says of the value of one field: the name of the
    /// leaf and the message, where the validator refuses the value of a
    /// leaf. A leaf without a value is not looked at.
    pub open spec fn checked_field(
        owner: Seq<char>,
        field: Field,
        value: LayerFieldView,
        rules: Rules,
    ) -> Result<(), (Seq<char>, Seq<char>)>
        decreases field, 0int,
    {
        match field.kind {
            FieldKind::Leaf { .. } => match value {
                LayerFieldView::Leaf(Some(v)) => match (rules.check)(
                    owner + "::"@ + field.name@,
                    v,
                ) {
                    Ok(_) => Ok(()),
                    Err(m) => Err((owner + "::"@ + field.name@, m)),
                },
                _ => Ok(()),
            },
            FieldKind::Nested { meta } => match value {
                LayerFieldView::Nested(l) => l.checked_upto(meta, rules, meta.fields@.len() as int),
                LayerFieldView::Leaf(_) => Ok(()),
            },
        }
    }

    /// What the validator says of the first `n` fields: the first refusal,
    /// in the order of the schema.
    pub open spec fn checked_upto(self, meta: Meta, rules: Rules, n: int) -> Result<
        (),
        (Seq<char>, Seq<char>),
    >
        decreases meta, n,
    {
        if n <= 0 || n > meta.fields@.len() {
            Ok(())
        } else {
            match self.checked_upto(meta, rules, n - 1) {
                Ok(_) => if n - 1 < self.fields.len() {
                    LayerView::checked_field(
                        meta.name@,
                        meta.fields@[n - 1],
                        self.fields[n - 1],
                        rules,
                    )
                } else {
                    Ok(())
                },
                Err(e) => Err(e),
            }
        }
    }

    /// What the validator of the application says of the values of a
    /// layer: nothing, or the name of the first leaf whose value it
    /// refuses, and its message.
    pub open spec fn checked(self, meta: Meta, rules: Rules) -> Result<(), (Seq<char>, Seq<char>)> {
        self.checked_upto(meta, rules, meta.fields@.len() as int)
    }

    /// Whether every leaf for which the schema declares a default has a
    /// value, at any depth. This holds of every layer that the defaults
    /// were merged into.
    pub open spec fn holds_defaults(self, meta: Meta) -> bool
        decreases meta,
    {
        forall|i: int|
            0 <= i < meta.fields@.len() ==> match (#[trigger] meta.fields@[i]).kind {
                FieldKind::Leaf { env, kind, .. } => (kind matches LeafKind::Required { default }
                    && default is Some) ==> self.leaf_at(i) is Some,
                FieldKind::Nested { meta: sub } => self.nested_at(i).holds_defaults(sub),
            }
    }

    /// The value of the leaf that `path` leads to: each of its numbers but
    /// the last picks a nested layer, the last one a leaf. `None` where the
    /// path leads to no leaf or the leaf has no value.
    pub open spec fn value_at(self, path: Seq<int>) -> Option<ExprView>
        decreases path.len(),
    {
        if path.len() == 0 {
            None
        } else if path.len() == 1 {
            self.leaf_at(path[0])
        } else {
            self.nested_at(path[0]).value_at(path.drop_first())
        }
    }

    /// Whether one field holds no value.
    pub open spec fn field_is_empty(f: LayerFieldView) -> bool
        decreases f,
    {
        match f {
            LayerFieldView::Leaf(v) => v is None,
            LayerFieldView::Nested(l) => l.is_empty(),
        }
    }

    /// Whether no leaf has a value, at any depth.
    pub open spec fn is_empty(self) -> bool
        decreases self,
    {
        forall|i: int|
            0 <= i < self.fields.len() ==> LayerView::field_is_empty(#[trigger] self.fields[i])
    }

    /// Whether a leaf of this kind must have a value for the layer to be
    /// complete: it is required and the schema declares no default for it.
    pub open spec fn gates(kind: LeafKind) -> bool {
        kind matches LeafKind::Required { default } && default is None
    }

    /// Whether every leaf that is required and has no default has a
    /// value, at any depth.
    pub open spec fn is_complete(self, meta: Meta) -> bool
        decreases meta,
    {
        forall|i: int|
            0 <= i < meta.fields@.len() ==> match (#[trigger] meta.fields@[i]).kind {
                FieldKind::Leaf { env, kind, .. } => LayerView::gates(kind) ==> self.leaf_at(i)
                    is Some,
                FieldKind::Nested { meta: sub } => self.nested_at(i).is_complete(sub),
            }
    }
}

/// The view of a nested field is the view of its layer.
pub proof fn lemma_nested_view(l: Layer)
    ensures
        LayerField::Nested(l)@ == LayerFieldView::Nested(l@),
{
    assert(LayerField::Nested(l)@->Nested_0.fields =~= l@.fields);
}

fn clone_option(v: &Option<Expr>) -> (r: Option<Expr>)
    ensures
        option_view(r) == option_view(*v),
{
    match v {
        Some(e) => Some(e.clone()),
        None => None,
    }
}

impl Clone for LayerField {
    #[verifier::loop_isolation(false)]
    fn clone(&self) -> (r: Self)
        ensures
            r@ == self@,
        decreases self,
    {
        match self {
            LayerField::Leaf(v) => LayerField::Leaf(clone_option(v)),
            LayerField::Nested(l) => {
                let mut fields: Vec<LayerField> = Vec::new();
                let mut i: usize = 0;
                while i < l.fields.len()
                    invariant
                        i <= l.fields.len(),
                        fields@.len() == i,
                        forall|j: int| 0 <= j < i ==> fields@[j]@ == l.fields@[j]@,
                    decreases l.fields.len() - i,
                {
                    assert(decreases_to!(self => l.fields@[i as int]));
                    fields.push(l.fields[i].clone());
                    i += 1;
                }
                let copy = Layer { fields };
                proof {
                    assert(copy@.fields =~= l@.fields);
                    lemma_nested_view(copy);
                    lemma_nested_view(*l);
                }
                LayerField::Nested(copy)
            },
        }
    }
}

impl Clone for Layer {
    fn clone(&self) -> (r: Self)
        ensures
            r@ == self@,
    {
        let mut fields: Vec<LayerField> = Vec::new();
        let mut i: usize = 0;
        while i < self.fields.len()
            invariant
                i <= self.fields.len(),
                fields@.len() == i,
                forall|j: int| 0 <= j < i ==> fields@[j]@ == self.fields@[j]@,
            decreases self.fields.len() - i,
        {
            fields.push(self.fields[i].clone());
            i += 1;
        }
        let r = Layer { fields };
        assert(r@.fields =~= self@.fields);
        r
    }
}

impl Layer {
    /// The layer without fields.
    pub fn none() -> (r: Layer)
        ensures
            r@ == LayerView::none(),
    {
        let r = Layer { fields: Vec::new() };
        assert(r@.fields =~= LayerView::none().fields);
        r
    }

    /// The empty layer of a schema: no leaf has a value, at any depth.
    #[verifier::loop_isolation(false)]
    pub fn empty(meta: &Meta) -> (r: Layer)
        ensures
            r@ == LayerView::empty_for(*meta),
        decreases meta,
    {
        let mut fields: Vec<LayerField> = Vec::new();
        let mut i: usize = 0;
        while i < meta.fields.len()
            invariant
                i <= meta.fields.len(),
                fields@.len() == i,
                forall|j: int|
                    0 <= j < i ==> fields@[j]@ == LayerView::empty_field(meta.fields@[j]),
            decreases meta.fields.len() - i,
        {
            let field = &meta.fields[i];
            let f = match &field.kind {
                FieldKind::Leaf { .. } => LayerField::Leaf(None),
                FieldKind::Nested { meta: sub } => {
                    let l = Layer::empty(sub);
                    proof {
                        lemma_nested_view(l);
                    }
                    LayerField::Nested(l)
                },
            };
            fields.push(f);
            i += 1;
        }
        let r = Layer { fields };
        assert(r@.fields =~= LayerView::empty_for(*meta).fields);
        r
    }

    /// The layer of the defaults that a schema declares: each leaf with a
    /// declared default holds it, as a value of the type of the leaf; every
    /// other leaf has no value. The defaults of the schema must be values
    /// of the types of their leaves; `first_misfit` tells.
    #[verifier::loop_isolation(false)]
    pub fn default_values(meta: &Meta) -> (r: Layer)
        requires
            LayerView::defaults_fit(*meta),
        ensures
            r@ == LayerView::defaults_for(*meta),
        decreases meta,
    {
        let mut fields: Vec<LayerField> = Vec::new();
        let mut i: usize = 0;
        while i < meta.fields.len()
            invariant
                i <= meta.fields.len(),
                fields@.len() == i,
                forall|j: int|
                    0 <= j < i ==> fields@[j]@ == LayerView::default_field(meta.fields@[j]),
            decreases meta.fields.len() - i,
        {
            let field = &meta.fields[i];
            let f = match &field.kind {
                FieldKind::Leaf { env, kind, ty } => match kind {
                    LeafKind::Required { default } => match default {
                        Some(declared) => match deserialize_default(declared, ty) {
                            Ok(v) => LayerField::Leaf(Some(v)),
                            Err(_) => LayerField::Leaf(None),
                        },
                        None => LayerField::Leaf(None),
                    },
                    LeafKind::Optional => LayerField::Leaf(None),
                },
                FieldKind::Nested { meta: sub } => {
                    proof {
                        lemma_fit_by_field(*meta, meta.fields@.len() as int, i as int);
                    }
                    let l = Layer::default_values(sub);
                    proof {
                        lemma_nested_view(l);
                    }
                    LayerField::Nested(l)
                },
            };
            fields.push(f);
            i += 1;
        }
        let r = Layer { fields };
        assert(r@.fields =~= LayerView::defaults_for(*meta).fields);
        r
    }

    /// The layer of the environment: each leaf with an environment
    /// variable has what the text of the variable is read as. A variable
    /// that is not set gives no value, and so does one whose text is empty
    /// and no value of the leaf; any other text that is no value of the
    /// leaf is an error.
    pub fn from_env(meta: &Meta, env: &Env) -> (r: Result<Layer, Error>)
        ensures
            is_layer(r, LayerView::from_env(*meta, *env, no_rules())),
    {
        let parse = |f: &String, raw: &String| -> (r: Result<Expr, String>)
            ensures
                parsed_view(r) == Err::<ExprView, Seq<char>>(no_parser()),
            { Err("no parser is given for this field".to_owned()) };
        let validate = |f: &String, v: &Expr| -> (r: Result<(), String>)
            ensures
                r is Ok,
            { Ok(()) };
        let r = Layer::from_env_with(meta, env, &parse, &validate);
        assert(obeys(&parse, &validate, no_rules()));
        r
    }

    /// The layer of the environment, with the parsers and the validators
    /// of the application: `parse` reads the text of a variable for the
    /// leaves whose type asks for it, `validate` sees every value that
    /// was read. Both are given the name of the leaf, which is the name of
    /// its type, two colons, and its own name. What they refuse counts as
    /// a text that is no value of the leaf.
    #[verifier::loop_isolation(false)]
    pub fn from_env_with<P, V>(meta: &Meta, env: &Env, parse: &P, validate: &V) -> (r: Result<
        Layer,
        Error,
    >) where
        P: Fn(&String, &String) -> Result<Expr, String>,
        V: Fn(&String, &Expr) -> Result<(), String>,

        requires
            callable(parse, validate),
        ensures
            forall|rules: Rules| #[trigger]
                obeys(parse, validate, rules) ==> is_layer(
                    r,
                    LayerView::from_env(*meta, *env, rules),
                ),
        decreases meta,
    {
        let mut fields: Vec<LayerField> = Vec::new();
        let ghost mut views: Seq<LayerFieldView> = Seq::empty();
        let mut i: usize = 0;
        while i < meta.fields.len()
            invariant
                i <= meta.fields.len(),
                fields@.len() == i,
                views.len() == i,
                forall|j: int| 0 <= j < i ==> fields@[j]@ == views[j],
                forall|rules: Rules| #[trigger]
                    obeys(parse, validate, rules) ==> LayerView::env_upto(
                        *meta,
                        *env,
                        rules,
                        i as int,
                    ) == Ok::<Seq<LayerFieldView>, ErrorView>(views),
            decreases meta.fields.len() - i,
        {
            let field = &meta.fields[i];
            let made = match &field.kind {
                FieldKind::Leaf { env: key, kind, ty } => match key {
                    Some(k) => {
                        let mut name: Vec<char> = Vec::new();
                        push_str(&mut name, meta.name.as_str());
                        push_str(&mut name, "::");
                        push_str(&mut name, field.name.as_str());
                        assert(name@ =~= meta.name@ + "::"@ + field.name@);
                        let name = string_from_chars(&name);
                        match from_env_with(
                            env.get(k.as_str()),
                            k.as_str(),
                            &name,
                            ty,
                            parse,
                            validate,
                        ) {
                            Ok(v) => Ok(LayerField::Leaf(v)),
                            Err(e) => Err(e),
                        }
                    },
                    None => Ok(LayerField::Leaf(None)),
                },
                FieldKind::Nested { meta: sub } => match Layer::from_env_with(
                    sub,
                    env,
                    parse,
                    validate,
                ) {
                    Ok(l) => {
                        proof {
                            lemma_nested_view(l);
                        }
                        Ok(LayerField::Nested(l))
                    },
                    Err(e) => Err(e),
                },
            };
            proof {
                assert forall|rules: Rules| #[trigger] obeys(parse, validate, rules) implies match made {
                    Ok(f) => LayerView::env_field(meta.name@, meta.fields@[i as int], *env, rules)
                        == Ok::<LayerFieldView, ErrorView>(f@),
                    Err(e) => LayerView::env_field(meta.name@, meta.fields@[i as int], *env, rules)
                        == Err::<LayerFieldView, ErrorView>(e@),
                } by {
                    match meta.fields@[i as int].kind {
                        FieldKind::Leaf { env: key, kind, ty } => {},
                        FieldKind::Nested { meta: sub } => {
                            assert(is_layer(
                                match made {
                                    Ok(f) => Ok(f->Nested_0),
                                    Err(e) => Err(e),
                                },
                                LayerView::from_env(sub, *env, rules),
                            ));
                        },
                    }
                }
            }
            match made {
                Ok(f) => {
                    proof {
                        assert forall|rules: Rules| #[trigger]
                            obeys(parse, validate, rules) implies LayerView::env_upto(
                            *meta,
                            *env,
                            rules,
                            i + 1,
                        ) == Ok::<Seq<LayerFieldView>, ErrorView>(views.push(f@)) by {}
                        views = views.push(f@);
                    }
                    fields.push(f);
                },
                Err(e) => {
                    proof {
                        assert forall|rules: Rules| #[trigger]
                            obeys(parse, validate, rules) implies is_layer(
                            Err::<Layer, Error>(e),
                            LayerView::from_env(*meta, *env, rules),
                        ) by {
                            assert(LayerView::env_upto(*meta, *env, rules, i + 1) == Err::<
                                Seq<LayerFieldView>,
                                ErrorView,
                            >(e@));
                            lemma_env_fails(*meta, *env, rules, i + 1, meta.fields@.len() as int);
                        }
                    }
                    return Err(e);
                },
            }
            i += 1;
        }
        let r = Layer { fields };
        assert(r@.fields =~= views);
        Ok(r)
    }

    /// Runs the validator of the application on every value of the
    /// layer, in the order of the schema, and stops at the first that it
    /// refuses.
    #[verifier::loop_isolation(false)]
    pub fn validate_with<V>(&self, meta: &Meta, validate: &V) -> (r: Result<(), Invalid>) where
        V: Fn(&String, &Expr) -> Result<(), String>,

        requires
            forall|f: &String, v: &Expr| call_requires(*validate, (f, v)),
        ensures
            forall|rules: Rules| #[trigger]
                checks(validate, rules) ==> invalid_view(r) == self@.checked(*meta, rules),
        decreases meta,
    {
        let mut i: usize = 0;
        while i < meta.fields.len()
            invariant
                i <= meta.fields.len(),
                forall|rules: Rules| #[trigger]
                    checks(validate, rules) ==> self@.checked_upto(*meta, rules, i as int) == Ok::<
                        (),
                        (Seq<char>, Seq<char>),
                    >(()),
            decreases meta.fields.len() - i,
        {
            let field = &meta.fields[i];
            let ghost here = Ok::<(), (Seq<char>, Seq<char>)>(());
            let verdict = if i < self.fields.len() {
                assert(self@.fields[i as int] == self.fields@[i as int]@);
                match &field.kind {
                    FieldKind::Leaf { .. } => match &self.fields[i] {
                        LayerField::Leaf(Some(v)) => {
                            let mut name: Vec<char> = Vec::new();
                            push_str(&mut name, meta.name.as_str());
                            push_str(&mut name, "::");
                            push_str(&mut name, field.name.as_str());
                            assert(name@ =~= meta.name@ + "::"@ + field.name@);
                            let name = string_from_chars(&name);
                            let out = validate(&name, v);
                            let verdict = match out {
                                Ok(_) => Ok(()),
                                Err(msg) => Err(Invalid { field: name, msg }),
                            };
                            proof {
                                assert(self@.fields[i as int] == LayerFieldView::Leaf(Some(v@)));
                                assert forall|rules: Rules| #[trigger]
                                    checks(validate, rules) implies invalid_view(verdict)
                                    == LayerView::checked_field(
                                    meta.name@,
                                    *field,
                                    self@.fields[i as int],
                                    rules,
                                ) by {
                                    assert(verdict_view(out) == (rules.check)(name@, v@));
                                }
                            }
                            verdict
                        },
                        _ => {
                            proof {
                                assert forall|rules: Rules| #[trigger]
                                    checks(validate, rules) implies here
                                    == LayerView::checked_field(
                                    meta.name@,
                                    *field,
                                    self@.fields[i as int],
                                    rules,
                                ) by {}
                            }
                            Ok(())
                        },
                    },
                    FieldKind::Nested { meta: sub } => match &self.fields[i] {
                        LayerField::Nested(l) => {
                            proof {
                                lemma_nested_view(*l);
                            }
                            let verdict = l.validate_with(sub, validate);
                            proof {
                                assert forall|rules: Rules| #[trigger]
                                    checks(validate, rules) implies invalid_view(verdict)
                                    == LayerView::checked_field(
                                    meta.name@,
                                    *field,
                                    self@.fields[i as int],
                                    rules,
                                ) by {
                                    assert(invalid_view(verdict) == l@.checked(*sub, rules));
                                }
                            }
                            verdict
                        },
                        LayerField::Leaf(_) => {
                            proof {
                                assert forall|rules: Rules| #[trigger]
                                    checks(validate, rules) implies here
                                    == LayerView::checked_field(
                                    meta.name@,
                                    *field,
                                    self@.fields[i as int],
                                    rules,
                                ) by {}
                            }
                            Ok(())
                        },
                    },
                }
            } else {
                Ok(())
            };
            proof {
                assert forall|rules: Rules| #[trigger] checks(validate, rules) implies invalid_view(
                    verdict,
                ) == self@.checked_upto(*meta, rules, i + 1) by {
                    assert(self@.checked_upto(*meta, rules, i as int) is Ok);
                    if i < self.fields.len() {
                        assert(invalid_view(verdict) == LayerView::checked_field(
                            meta.name@,
                            *field,
                            self@.fields[i as int],
                            rules,
                        ));
                    }
                }
            }
            match verdict {
                Ok(_) => {},
                Err(e) => {
                    proof {
                        assert forall|rules: Rules| #[trigger]
                            checks(validate, rules) implies invalid_view(Err::<(), Invalid>(e))
                            == self@.checked(*meta, rules) by {
                            lemma_check_fails(
                                self@,
                                *meta,
                                rules,
                                i + 1,
                                meta.fields@.len() as int,
                            );
                        }
                    }
                    return Err(e);
                },
            }
            i += 1;
        }
        Ok(())
    }

    /// The first default of the schema that is no value of the type of
    /// its leaf.
    #[verifier::loop_isolation(false)]
    pub fn first_misfit(meta: &Meta) -> (r: Option<Invalid>)
        ensures
            match r {
                Some(found) => LayerView::misfit_upto(*meta, meta.fields@.len() as int) == Some(
                    (found.field@, found.msg@),
                ),
                None => LayerView::misfit_upto(*meta, meta.fields@.len() as int) is None,
            },
        decreases meta,
    {
        let mut i: usize = 0;
        while i < meta.fields.len()
            invariant
                i <= meta.fields.len(),
                LayerView::misfit_upto(*meta, i as int) is None,
            decreases meta.fields.len() - i,
        {
            let field = &meta.fields[i];
            let found = match &field.kind {
                FieldKind::Leaf { env, kind, ty } => match kind {
                    LeafKind::Required { default: Some(declared) } => match deserialize_default(
                        declared,
                        ty,
                    ) {
                        Ok(_) => None,
                        Err(msg) => {
                            let mut name: Vec<char> = Vec::new();
                            push_str(&mut name, meta.name.as_str());
                            push_str(&mut name, "::");
                            push_str(&mut name, field.name.as_str());
                            assert(name@ =~= meta.name@ + "::"@ + field.name@);
                            Some(Invalid { field: string_from_chars(&name), msg })
                        },
                    },
                    _ => None,
                },
                FieldKind::Nested { meta: sub } => Layer::first_misfit(sub),
            };
            assert(LayerView::misfit_field(meta.name@, meta.fields@[i as int]) == match found {
                Some(f) => Some((f.field@, f.msg@)),
                None => None,
            });
            match found {
                Some(f) => {
                    proof {
                        assert(LayerView::misfit_upto(*meta, i + 1) == Some((f.field@, f.msg@)));
                        lemma_misfit_stays(*meta, i + 1, meta.fields@.len() as int);
                    }
                    return Some(f);
                },
                None => {},
            }
            i += 1;
        }
        None
    }

    /// Checks the defaults that the schema declares: each must be a value
    /// of the type of its leaf, and the validator of the application must
    /// refuse none. What this finds is a mistake in the schema.
    pub fn check_defaults<V>(meta: &Meta, validate: &V) -> (r: Result<(), Invalid>) where
        V: Fn(&String, &Expr) -> Result<(), String>,

        requires
            forall|f: &String, v: &Expr| call_requires(*validate, (f, v)),
        ensures
            forall|rules: Rules| #[trigger]
                checks(validate, rules) ==> invalid_view(r) == LayerView::defaults_checked(
                    *meta,
                    rules,
                ),
            r is Ok ==> defaults_accepted(*meta, validate),
    {
        match Layer::first_misfit(meta) {
            Some(found) => Err(found),
            None => Layer::default_values(meta).validate_with(meta, validate),
        }
    }

    /// `self` with the gaps filled from `fallback`: each leaf keeps its own
    /// value and takes that of `fallback` only where it has none.
    pub fn with_fallback(self, fallback: Layer) -> (r: Layer)
        ensures
            r@ == self@.with_fallback(fallback@),
    {
        merge(&self, &fallback)
    }

    /// Whether no leaf has a value, at any depth.
    #[verifier::loop_isolation(false)]
    pub fn is_empty(&self) -> (b: bool)
        ensures
            b == self@.is_empty(),
        decreases self,
    {
        let mut i: usize = 0;
        while i < self.fields.len()
            invariant
                i <= self.fields.len(),
                forall|j: int| 0 <= j < i ==> LayerView::field_is_empty(#[trigger] self@.fields[j]),
            decreases self.fields.len() - i,
        {
            let empty = match &self.fields[i] {
                LayerField::Leaf(v) => v.is_none(),
                LayerField::Nested(l) => {
                    proof {
                        lemma_nested_view(*l);
                    }
                    l.is_empty()
                },
            };
            if !empty {
                assert(!LayerView::field_is_empty(self@.fields[i as int]));
                return false;
            }
            i += 1;
        }
        true
    }

    /// Whether every leaf that is required and has no default has a
    /// value, at any depth.
    #[verifier::loop_isolation(false)]
    pub fn is_complete(&self, meta: &Meta) -> (b: bool)
        ensures
            b == self@.is_complete(*meta),
        decreases meta,
    {
        let mut i: usize = 0;
        while i < meta.fields.len()
            invariant
                i <= meta.fields.len(),
                forall|j: int|
                    0 <= j < i ==> match (#[trigger] meta.fields@[j]).kind {
                        FieldKind::Leaf { env, kind, .. } => LayerView::gates(kind) ==> self@.leaf_at(
                            j,
                        ) is Some,
                        FieldKind::Nested { meta: sub } => self@.nested_at(j).is_complete(sub),
                    },
            decreases meta.fields.len() - i,
        {
            let ok = match &meta.fields[i].kind {
                FieldKind::Leaf { env, kind, .. } => match kind {
                    LeafKind::Required { default: None } => self.has_leaf(i),
                    _ => true,
                },
                FieldKind::Nested { meta: sub } => {
                    if i < self.fields.len() {
                        match &self.fields[i] {
                            LayerField::Nested(l) => {
                                proof {
                                    lemma_nested_view(*l);
                                }
                                l.is_complete(sub)
                            },
                            LayerField::Leaf(_) => Layer::none().is_complete(sub),
                        }
                    } else {
                        Layer::none().is_complete(sub)
                    }
                },
            };
            if !ok {
                assert(!self@.is_complete(*meta)) by {
                    let f = meta.fields@[i as int];
                }
                return false;
            }
            i += 1;
        }
        true
    }

    /// Whether the leaf at position `i` has a value.
    fn has_leaf(&self, i: usize) -> (b: bool)
        ensures
            b == (self@.leaf_at(i as int) is Some),
    {
        if i < self.fields.len() {
            match &self.fields[i] {
                LayerField::Leaf(v) => v.is_some(),
                LayerField::Nested(_) => false,
            }
        } else {
            false
        }
    }

    /// Whether the layer has the shape of the schema.
    #[verifier::loop_isolation(false)]
    pub fn conforms(&self, meta: &Meta) -> (b: bool)
        ensures
            b == self@.conforms(*meta),
        decreases meta,
    {
        if self.fields.len() != meta.fields.len() {
            return false;
        }
        let mut i: usize = 0;
        while i < meta.fields.len()
            invariant
                i <= meta.fields.len(),
                self.fields.len() == meta.fields.len(),
                forall|j: int|
                    0 <= j < i ==> match (#[trigger] meta.fields@[j]).kind {
                        FieldKind::Leaf { .. } => self@.fields[j] is Leaf,
                        FieldKind::Nested { meta: sub } => self@.fields[j] is Nested
                            && self@.fields[j]->Nested_0.conforms(sub),
                    },
            decreases meta.fields.len() - i,
        {
            let ok = match &meta.fields[i].kind {
                FieldKind::Leaf { .. } => match &self.fields[i] {
                    LayerField::Leaf(_) => true,
                    LayerField::Nested(_) => false,
                },
                FieldKind::Nested { meta: sub } => match &self.fields[i] {
                    LayerField::Leaf(_) => false,
                    LayerField::Nested(l) => {
                        proof {
                            lemma_nested_view(*l);
                        }
                        l.conforms(sub)
                    },
                },
            };
            if !ok {
                assert(!self@.conforms(*meta)) by {
                    let f = meta.fields@[i as int];
                }
                return false;
            }
            i += 1;
        }
        true
    }
}

#[verifier::loop_isolation(false)]
fn merge(a: &Layer, b: &Layer) -> (r: Layer)
    ensures
        r@ == a@.with_fallback(b@),
    decreases a,
{
    let mut fields: Vec<LayerField> = Vec::new();
    let mut i: usize = 0;
    while i < a.fields.len()
        invariant
            i <= a.fields.len(),
            fields@.len() == i,
            forall|j: int| 0 <= j < i ==> fields@[j]@ == a@.with_fallback(b@).fields[j],
        decreases a.fields.len() - i,
    {
        let f = if i < b.fields.len() {
            match &a.fields[i] {
                LayerField::Leaf(x) => match &b.fields[i] {
                    LayerField::Leaf(y) => match x {
                        Some(e) => LayerField::Leaf(Some(e.clone())),
                        None => LayerField::Leaf(clone_option(y)),
                    },
                    LayerField::Nested(_) => LayerField::Leaf(clone_option(x)),
                },
                LayerField::Nested(x) => match &b.fields[i] {
                    LayerField::Leaf(_) => a.fields[i].clone(),
                    LayerField::Nested(y) => {
                        let m = merge(x, y);
                        proof {
                            lemma_nested_view(*x);
                            lemma_nested_view(*y);
                            lemma_nested_view(m);
                        }
                        LayerField::Nested(m)
                    },
                },
            }
        } else {
            a.fields[i].clone()
        };
        fields.push(f);
        i += 1;
    }
    let r = Layer { fields };
    assert(r@.fields =~= a@.with_fallback(b@).fields);
    r
}

/// The first of two optional values that is present.
pub open spec fn first_some(a: Option<ExprView>, b: Option<ExprView>) -> Option<ExprView> {
    if a is Some {
        a
    } else {
        b
    }
}

/// The empty layer of a schema has the shape of the schema and holds no
/// value.
pub proof fn lemma_empty_layer(meta: Meta)
    ensures
        LayerView::empty_for(meta).conforms(meta),
        LayerView::empty_for(meta).is_empty(),
    decreases meta,
{
    let e = LayerView::empty_for(meta);
    assert forall|i: int| 0 <= i < meta.fields@.len() implies match (#[trigger] meta.fields@[i]).kind {
        FieldKind::Leaf { .. } => e.fields[i] is Leaf,
        FieldKind::Nested { meta: sub } => e.fields[i] is Nested && e.fields[i]->Nested_0.conforms(
            sub,
        ),
    } by {
        match meta.fields@[i].kind {
            FieldKind::Leaf { .. } => {},
            FieldKind::Nested { meta: sub } => {
                lemma_empty_layer(sub);
            },
        }
    }
    assert forall|i: int| 0 <= i < e.fields.len() implies LayerView::field_is_empty(
        #[trigger] e.fields[i],
    ) by {
        match meta.fields@[i].kind {
            FieldKind::Leaf { .. } => {},
            FieldKind::Nested { meta: sub } => {
                lemma_empty_layer(sub);
            },
        }
    }
}

/// Filling the gaps of a layer from a layer that holds no value changes
/// nothing.
pub proof fn lemma_fallback_to_empty(l: LayerView, e: LayerView)
    requires
        e.is_empty(),
    ensures
        l.with_fallback(e) == l,
    decreases l,
{
    assert forall|i: int| 0 <= i < l.fields.len() implies l.with_fallback(e).fields[i]
        == l.fields[i] by {
        if i < e.fields.len() {
            assert(LayerView::field_is_empty(e.fields[i]));
            match l.fields[i] {
                LayerFieldView::Leaf(_) => {},
                LayerFieldView::Nested(x) => match e.fields[i] {
                    LayerFieldView::Leaf(_) => {},
                    LayerFieldView::Nested(y) => {
                        lemma_fallback_to_empty(x, y);
                    },
                },
            }
        }
    }
    assert(l.with_fallback(e).fields =~= l.fields);
}

/// Filling the gaps of the empty layer of a schema from a layer of that
/// schema gives that layer.
pub proof fn lemma_fallback_from_empty(meta: Meta, l: LayerView)
    requires
        l.conforms(meta),
    ensures
        LayerView::empty_for(meta).with_fallback(l) == l,
    decreases meta,
{
    let e = LayerView::empty_for(meta);
    assert forall|i: int| 0 <= i < e.fields.len() implies e.with_fallback(l).fields[i]
        == l.fields[i] by {
        match meta.fields@[i].kind {
            FieldKind::Leaf { .. } => {},
            FieldKind::Nested { meta: sub } => {
                lemma_fallback_from_empty(sub, l.fields[i]->Nested_0);
            },
        }
    }
    assert(e.with_fallback(l).fields =~= l.fields);
}

/// The empty layer is neutral for merging, on either side: a layer merged
/// with the empty layer of its schema is that layer.
pub proof fn lemma_empty_is_neutral(meta: Meta, l: LayerView)
    requires
        l.conforms(meta),
    ensures
        l.with_fallback(LayerView::empty_for(meta)) == l,
        LayerView::empty_for(meta).with_fallback(l) == l,
{
    lemma_empty_layer(meta);
    lemma_fallback_to_empty(l, LayerView::empty_for(meta));
    lemma_fallback_from_empty(meta, l);
}

/// Merging two layers of a schema gives a layer of that schema.
pub proof fn lemma_fallback_conforms(meta: Meta, a: LayerView, b: LayerView)
    requires
        a.conforms(meta),
        b.conforms(meta),
    ensures
        a.with_fallback(b).conforms(meta),
    decreases meta,
{
    let m = a.with_fallback(b);
    assert forall|i: int| 0 <= i < meta.fields@.len() implies match (#[trigger] meta.fields@[i]).kind {
        FieldKind::Leaf { .. } => m.fields[i] is Leaf,
        FieldKind::Nested { meta: sub } => m.fields[i] is Nested && m.fields[i]->Nested_0.conforms(
            sub,
        ),
    } by {
        match meta.fields@[i].kind {
            FieldKind::Leaf { .. } => {},
            FieldKind::Nested { meta: sub } => {
                lemma_fallback_conforms(sub, a.fields[i]->Nested_0, b.fields[i]->Nested_0);
            },
        }
    }
}

/// No path leads to a value in the layer without fields.
pub proof fn lemma_none_has_no_value(path: Seq<int>)
    ensures
        LayerView::none().value_at(path) is None,
    decreases path.len(),
{
    if path.len() > 1 {
        lemma_none_has_no_value(path.drop_first());
    }
}

/// In the merge of two layers of a schema, each leaf has its value from
/// the first layer, and from the second only where the first has none.
pub proof fn lemma_fallback_value(meta: Meta, a: LayerView, b: LayerView, path: Seq<int>)
    requires
        a.conforms(meta),
        b.conforms(meta),
    ensures
        a.with_fallback(b).value_at(path) == first_some(a.value_at(path), b.value_at(path)),
    decreases path.len(),
{
    let m = a.with_fallback(b);
    if path.len() > 0 {
        let i = path[0];
        if 0 <= i < meta.fields@.len() {
            let f = meta.fields@[i];
            match f.kind {
                FieldKind::Leaf { .. } => {
                    if path.len() > 1 {
                        lemma_none_has_no_value(path.drop_first());
                    }
                },
                FieldKind::Nested { meta: sub } => {
                    if path.len() > 1 {
                        lemma_fallback_value(
                            sub,
                            a.fields[i]->Nested_0,
                            b.fields[i]->Nested_0,
                            path.drop_first(),
                        );
                    }
                },
            }
        } else {
            if path.len() > 1 {
                lemma_none_has_no_value(path.drop_first());
            }
        }
    }
}

/// Priority of merging: where three layers of a schema are merged, the
/// first over the second over the third, each leaf has the value of the
/// first of them that holds one for it.
pub proof fn lemma_merge_priority(
    meta: Meta,
    a: LayerView,
    b: LayerView,
    c: LayerView,
    path: Seq<int>,
)
    requires
        a.conforms(meta),
        b.conforms(meta),
        c.conforms(meta),
    ensures
        a.with_fallback(b).with_fallback(c).value_at(path) == first_some(
            a.value_at(path),
            first_some(b.value_at(path), c.value_at(path)),
        ),
{
    lemma_fallback_conforms(meta, a, b);
    lemma_fallback_value(meta, a, b, path);
    lemma_fallback_value(meta, a.with_fallback(b), c, path);
}

/// Merging is associative: for three layers of a schema, the result does
/// not depend on which two of them are merged first.
pub proof fn lemma_fallback_associative(meta: Meta, a: LayerView, b: LayerView, c: LayerView)
    requires
        a.conforms(meta),
        b.conforms(meta),
        c.conforms(meta),
    ensures
        a.with_fallback(b).with_fallback(c) == a.with_fallback(b.with_fallback(c)),
    decreases meta,
{
    let l = a.with_fallback(b).with_fallback(c);
    let r = a.with_fallback(b.with_fallback(c));
    assert forall|i: int| 0 <= i < a.fields.len() implies l.fields[i] == r.fields[i] by {
        match meta.fields@[i].kind {
            FieldKind::Leaf { .. } => {},
            FieldKind::Nested { meta: sub } => {
                lemma_fallback_associative(
                    sub,
                    a.fields[i]->Nested_0,
                    b.fields[i]->Nested_0,
                    c.fields[i]->Nested_0,
                );
            },
        }
    }
    assert(l.fields =~= r.fields);
}

/// Where no default is found among the first `n` fields that is no value
/// of the type of its leaf, none is found at any of these fields.
pub proof fn lemma_fit_by_field(meta: Meta, n: int, i: int)
    requires
        LayerView::misfit_upto(meta, n) is None,
        0 <= i < n <= meta.fields@.len(),
    ensures
        LayerView::misfit_field(meta.name@, meta.fields@[i]) is None,
    decreases n,
{
    if i < n - 1 {
        lemma_fit_by_field(meta, n - 1, i);
    }
}

/// A layer of a schema into which the defaults of the schema were merged
/// has a value for every leaf with a declared default.
pub proof fn lemma_merged_holds_defaults(meta: Meta, l: LayerView)
    requires
        l.conforms(meta),
        LayerView::defaults_fit(meta),
    ensures
        l.with_fallback(LayerView::defaults_for(meta)).holds_defaults(meta),
    decreases meta,
{
    let d = LayerView::defaults_for(meta);
    let m = l.with_fallback(d);
    assert forall|i: int| 0 <= i < meta.fields@.len() implies match (#[trigger] meta.fields@[i]).kind {
        FieldKind::Leaf { env, kind, .. } => (kind matches LeafKind::Required { default } && default
            is Some) ==> m.leaf_at(i) is Some,
        FieldKind::Nested { meta: sub } => m.nested_at(i).holds_defaults(sub),
    } by {
        lemma_fit_by_field(meta, meta.fields@.len() as int, i);
        match meta.fields@[i].kind {
            FieldKind::Leaf { .. } => {},
            FieldKind::Nested { meta: sub } => {
                lemma_merged_holds_defaults(sub, l.fields[i]->Nested_0);
            },
        }
    }
}

/// Once a field fails, the fields that follow change nothing.
pub proof fn lemma_env_fails(meta: Meta, env: Env, rules: Rules, n: int, m: int)
    requires
        LayerView::env_upto(meta, env, rules, n) is Err,
        n <= m <= meta.fields@.len(),
    ensures
        LayerView::env_upto(meta, env, rules, m) == LayerView::env_upto(meta, env, rules, n),
    decreases m - n,
{
    if n < m {
        lemma_env_fails(meta, env, rules, n, m - 1);
    }
}

/// Whether the defaults of a schema are in order for an application with
/// this validator: each is a value of the type of its leaf, and the
/// validator, as far as it is a function of its arguments, refuses none.
/// `Layer::check_defaults` tells.
pub open spec fn defaults_accepted<V>(meta: Meta, validate: &V) -> bool where
    V: Fn(&String, &Expr) -> Result<(), String>,
 {
    &&& LayerView::defaults_fit(meta)
    &&& forall|rules: Rules| #[trigger]
        checks(validate, rules) ==> LayerView::defaults_checked(meta, rules) is Ok
}

/// A value that the validator of the application refuses: the name of
/// the leaf, and the message of the validator.
#[derive(Debug, PartialEq, Eq)]
pub struct Invalid {
    pub field: String,
    pub msg: String,
}

/// The view of what validating a layer gave.
pub open spec fn invalid_view(r: Result<(), Invalid>) -> Result<(), (Seq<char>, Seq<char>)> {
    match r {
        Ok(_) => Ok(()),
        Err(e) => Err((e.field@, e.msg@)),
    }
}

/// Once a default is found that does not fit, the fields that follow
/// change nothing.
pub proof fn lemma_misfit_stays(meta: Meta, n: int, m: int)
    requires
        LayerView::misfit_upto(meta, n) is Some,
        n <= m <= meta.fields@.len(),
    ensures
        LayerView::misfit_upto(meta, m) == LayerView::misfit_upto(meta, n),
    decreases m - n,
{
    if n < m {
        lemma_misfit_stays(meta, n, m - 1);
    }
}

/// Once a value is refused, the fields that follow change nothing.
pub proof fn lemma_check_fails(l: LayerView, meta: Meta, rules: Rules, n: int, m: int)
    requires
        l.checked_upto(meta, rules, n) is Err,
        n <= m <= meta.fields@.len(),
    ensures
        l.checked_upto(meta, rules, m) == l.checked_upto(meta, rules, n),
    decreases m - n,
{
    if n < m {
        lemma_check_fails(l, meta, rules, n, m - 1);
    }
}

/// Whether `r` is the layer, or the error, that `expected` says.
pub open spec fn is_layer(r: Result<Layer, Error>, expected: Result<LayerView, ErrorView>) -> bool {
    match expected {
        Ok(l) => r is Ok && r->Ok_0@ == l,
        Err(e) => r is Err && r->Err_0@ == e,
    }
}

/// The layer of the defaults of a schema has the shape of the schema.
pub proof fn lemma_defaults_conform(meta: Meta)
    ensures
        LayerView::defaults_for(meta).conforms(meta),
    decreases meta,
{
    let d = LayerView::defaults_for(meta);
    assert forall|i: int| 0 <= i < meta.fields@.len() implies match (#[trigger] meta.fields@[i]).kind {
        FieldKind::Leaf { .. } => d.fields[i] is Leaf,
        FieldKind::Nested { meta: sub } => d.fields[i] is Nested && d.fields[i]->Nested_0.conforms(
            sub,
        ),
    } by {
        match meta.fields@[i].kind {
            FieldKind::Leaf { .. } => {},
            FieldKind::Nested { meta: sub } => {
                lemma_defaults_conform(sub);
            },
        }
    }
}

/// What the first `n` fields have from the environment has the shape of
/// these fields.
pub proof fn lemma_env_upto_conforms(meta: Meta, env: Env, rules: Rules, n: int)
    requires
        0 <= n <= meta.fields@.len(),
        LayerView::env_upto(meta, env, rules, n) is Ok,
    ensures
        LayerView::env_upto(meta, env, rules, n)->Ok_0.len() == n,
        forall|i: int|
            0 <= i < n ==> match (#[trigger] meta.fields@[i]).kind {
                FieldKind::Leaf { .. } => LayerView::env_upto(meta, env, rules, n)->Ok_0[i] is Leaf,
                FieldKind::Nested { meta: sub } => LayerView::env_upto(meta, env, rules, n)->Ok_0[i]
                    is Nested && LayerView::env_upto(
                    meta,
                    env,
                    rules,
                    n,
                )->Ok_0[i]->Nested_0.conforms(sub),
            },
    decreases meta, n,
{
    if n > 0 {
        let before = LayerView::env_upto(meta, env, rules, n - 1);
        let here = LayerView::env_field(meta.name@, meta.fields@[n - 1], env, rules);
        assert(before is Ok && here is Ok);
        let all = LayerView::env_upto(meta, env, rules, n)->Ok_0;
        assert(all == before->Ok_0.push(here->Ok_0));
        lemma_env_upto_conforms(meta, env, rules, n - 1);
        match meta.fields@[n - 1].kind {
            FieldKind::Leaf { .. } => {},
            FieldKind::Nested { meta: sub } => {
                assert(LayerView::env_upto(sub, env, rules, sub.fields@.len() as int) is Ok);
                lemma_env_upto_conforms(sub, env, rules, sub.fields@.len() as int);
            },
        }
        assert forall|i: int| 0 <= i < n implies match (#[trigger] meta.fields@[i]).kind {
            FieldKind::Leaf { .. } => all[i] is Leaf,
            FieldKind::Nested { meta: sub } => all[i] is Nested && all[i]->Nested_0.conforms(sub),
        } by {
            if i < n - 1 {
                assert(all[i] == before->Ok_0[i]);
            }
        }
    }
}

/// A layer of the environment has the shape of the schema.
pub proof fn lemma_env_conforms(meta: Meta, env: Env, rules: Rules)
    requires
        LayerView::from_env(meta, env, rules) is Ok,
    ensures
        LayerView::from_env(meta, env, rules)->Ok_0.conforms(meta),
{
    lemma_env_upto_conforms(meta, env, rules, meta.fields@.len() as int);
}

} // verus!
