//! Configuration templates: a commented document that names every value
//! of a schema, with its documentation and its default. The walk over the
//! schema is written once; each format says how its lines look.

use vstd::prelude::*;
use crate::layer::option_view;
use crate::meta::{
    Expr, ExprView, Field, FieldKind, Integer, LeafKind, MapKey, MapKeyView, Meta,
};
use crate::text::{int_text, push_chars, push_str, string_from_chars};

verus! {

/// The options of a template that do not depend on the format.
#[derive(Debug, Clone, Copy, PartialEq, Eq)]
pub struct FormatOptions {
    /// Whether to write the documentation of the schema, and for each leaf
    /// whether it is required or what its default is.
    pub comments: bool,
    /// Whether, among the comments, a leaf that can be set by an
    /// environment variable names that variable.
    pub env_keys: bool,
    /// The number of empty lines between two leaves; where it is `None`,
    /// one with comments and none without.
    pub leaf_field_gap: Option<u8>,
    /// The number of empty lines in front of a nested section.
    pub nested_field_gap: u8,
}

impl FormatOptions {
    /// The number of empty lines between two leaves.
    pub open spec fn leaf_gap(self) -> nat {
        match self.leaf_field_gap {
            Some(gap) => gap as nat,
            None => if self.comments {
                1
            } else {
                0
            },
        }
    }

    /// The number of empty lines between two leaves.
    pub fn leaf_field_gap(&self) -> (gap: u8)
        ensures
            gap == self.leaf_gap(),
    {
        match self.leaf_field_gap {
            Some(gap) => gap,
            None => if self.comments {
                1
            } else {
                0
            },
        }
    }
}

impl Default for FormatOptions {
    fn default() -> (r: Self)
        ensures
            r == (FormatOptions {
                comments: true,
                env_keys: true,
                leaf_field_gap: None,
                nested_field_gap: 1,
            }),
    {
        FormatOptions { comments: true, env_keys: true, leaf_field_gap: None, nested_field_gap: 1 }
    }
}

/// The number of line breaks that `s` ends with.
pub open spec fn trailing_newlines(s: Seq<char>) -> nat
    decreases s.len(),
{
    if s.len() > 0 && s.last() == '\n' {
        1 + trailing_newlines(s.drop_last())
    } else {
        0
    }
}

/// `n` line breaks.
pub open spec fn newlines(n: nat) -> Seq<char> {
    Seq::new(n, |i: int| '\n')
}

/// `buf` with as many line breaks added as it takes to end with `size`
/// empty lines; an empty buffer stays empty.
pub open spec fn with_gap(buf: Seq<char>, size: nat) -> Seq<char> {
    if buf.len() == 0 {
        buf
    } else if size + 1 > trailing_newlines(buf) {
        buf + newlines((size + 1 - trailing_newlines(buf)) as nat)
    } else {
        buf
    }
}

/// `buf` ending with exactly one line break: one is added where it ends
/// with none, all but one are taken away where it ends with several.
pub open spec fn single_trailing_newline(buf: Seq<char>) -> Seq<char> {
    if trailing_newlines(buf) == 0 {
        buf.push('\n')
    } else {
        buf.take(buf.len() - trailing_newlines(buf) + 1)
    }
}

/// `buf` ending with an empty line: line breaks are added until it ends
/// with two of them; an empty buffer stays empty.
pub open spec fn with_empty_line(buf: Seq<char>) -> Seq<char> {
    with_gap(buf, 1)
}

/// The number of line breaks that `out` ends with.
pub fn count_trailing_newlines(out: &Vec<char>) -> (n: usize)
    ensures
        n == trailing_newlines(out@),
        n <= out.len(),
{
    let mut i: usize = out.len();
    assert(out@.take(i as int) =~= out@);
    while i > 0 && out[i - 1] == '\n'
        invariant
            i <= out.len(),
            trailing_newlines(out@) == (out.len() - i) + trailing_newlines(out@.take(i as int)),
        decreases i,
    {
        assert(out@.take(i as int).drop_last() =~= out@.take(i - 1));
        i -= 1;
    }
    out.len() - i
}

fn push_newlines(out: &mut Vec<char>, n: usize)
    ensures
        final(out)@ == old(out)@ + newlines(n as nat),
{
    let mut k: usize = 0;
    assert(out@ =~= old(out)@ + newlines(0));
    while k < n
        invariant
            k <= n,
            out@ == old(out)@ + newlines(k as nat),
        decreases n - k,
    {
        out.push('\n');
        k += 1;
        assert(out@ =~= old(out)@ + newlines(k as nat));
    }
}

/// Makes sure that `out` ends with at least `size` empty lines. An empty
/// buffer stays empty.
pub fn make_gap(out: &mut Vec<char>, size: u8)
    ensures
        final(out)@ == with_gap(old(out)@, size as nat),
{
    if out.len() > 0 {
        let have = count_trailing_newlines(out);
        let want: usize = size as usize + 1;
        if want > have {
            push_newlines(out, want - have);
        }
    }
}

/// Makes sure that `out` ends with exactly one line break.
pub fn assert_single_trailing_newline(out: &mut Vec<char>)
    ensures
        final(out)@ == single_trailing_newline(old(out)@),
{
    let have = count_trailing_newlines(out);
    if have == 0 {
        out.push('\n');
    } else {
        let keep = out.len() - have + 1;
        out.truncate(keep);
        assert(out@ =~= old(out)@.take(keep as int));
    }
}

/// Makes sure that `out` ends with an empty line: adds no, one or two line
/// breaks. An empty buffer stays empty.
pub fn add_empty_line(out: &mut Vec<char>)
    ensures
        final(out)@ == with_empty_line(old(out)@),
{
    make_gap(out, 1);
}

/// `n` spaces.
pub open spec fn spaces(n: nat) -> Seq<char> {
    Seq::new(n, |i: int| ' ')
}

/// `n` spaces.
pub fn make_spaces(n: u8) -> (r: Vec<char>)
    ensures
        r@ == spaces(n as nat),
{
    let mut r: Vec<char> = Vec::new();
    let mut k: u8 = 0;
    assert(r@ =~= spaces(0));
    while k < n
        invariant
            k <= n,
            r@ == spaces(k as nat),
        decreases n - k,
    {
        r.push(' ');
        k += 1;
        assert(r@ =~= spaces(k as nat));
    }
    r
}

/// The line of a comment: the indentation, the token that starts a
/// comment, the text, and a line break.
pub open spec fn comment_line(ind: Seq<char>, token: Seq<char>, comment: Seq<char>) -> Seq<char> {
    ind + token + comment + "\n"@
}

/// The first `n` of `lines`, each as the line of a comment.
pub open spec fn comment_block(ind: Seq<char>, token: Seq<char>, lines: Seq<String>, n: int) -> Seq<
    char,
>
    decreases n,
{
    if n <= 0 {
        Seq::empty()
    } else {
        comment_block(ind, token, lines, n - 1) + comment_line(ind, token, lines[n - 1]@)
    }
}

/// Writes the line of a comment.
pub fn write_comment(out: &mut Vec<char>, ind: &Vec<char>, token: &str, comment: &str)
    ensures
        final(out)@ == old(out)@ + comment_line(ind@, token@, comment@),
{
    push_chars(out, ind);
    push_str(out, token);
    push_str(out, comment);
    push_str(out, "\n");
    assert(out@ =~= old(out)@ + comment_line(ind@, token@, comment@));
}

/// Writes each of `lines` as the line of a comment.
pub fn write_comment_block(out: &mut Vec<char>, ind: &Vec<char>, token: &str, lines: &Vec<String>)
    ensures
        final(out)@ == old(out)@ + comment_block(ind@, token@, lines@, lines@.len() as int),
{
    let mut k: usize = 0;
    assert(out@ =~= old(out)@ + comment_block(ind@, token@, lines@, 0));
    while k < lines.len()
        invariant
            k <= lines.len(),
            out@ == old(out)@ + comment_block(ind@, token@, lines@, k as int),
        decreases lines.len() - k,
    {
        write_comment(out, ind, token, lines[k].as_str());
        k += 1;
        assert(out@ =~= old(out)@ + comment_block(ind@, token@, lines@, k as int));
    }
}

/// What a format contributes to a template: how a comment, a value, a
/// field that is commented out and the frame of a nested section look.
/// The indentation of a line is handed in as text.
pub trait Formatter: Sized {
    /// The indentation that one level of nesting adds.
    spec fn unit(&self) -> Seq<char>;

    /// The indentation of the fields at the top level.
    spec fn main_indentation(&self) -> Seq<char>;

    /// The line of a comment.
    spec fn comment_text(&self, ind: Seq<char>, comment: Seq<char>) -> Seq<char>;

    /// Whether the format can write this string.
    spec fn str_ok(&self, s: Seq<char>) -> bool;

    /// The string as the format writes it.
    spec fn str_text(&self, s: Seq<char>) -> Seq<char>;

    /// Whether the format can write this number.
    spec fn integer_ok(&self, i: Integer) -> bool;

    /// Whether the format writes this key of a map as it is, without
    /// quotes.
    spec fn bare_key(&self, s: Seq<char>) -> bool;

    /// What parts the items of an array, and the entries of a map.
    spec fn item_separator(&self) -> Seq<char>;

    /// What parts a key of a map from its value.
    spec fn key_separator(&self) -> Seq<char>;

    /// What opens a map.
    spec fn dict_open(&self) -> Seq<char>;

    /// What closes a map.
    spec fn dict_close(&self) -> Seq<char>;

    /// A field with its value, if there is one, as it stands behind the
    /// comment token of the line that comments it out.
    spec fn field_line(&self, name: Seq<char>, value: Option<Seq<char>>) -> Seq<char>;

    /// What opens a nested section: `path` leads to it from the top level
    /// and ends with its own name, `ind` is the indentation of the fields
    /// around it.
    spec fn nested_start_text(&self, ind: Seq<char>, path: Seq<String>, doc: Seq<String>) -> Seq<
        char,
    >;

    /// What closes a nested section.
    spec fn nested_end_text(&self, ind: Seq<char>) -> Seq<char>;

    /// The buffer once the top level is opened.
    spec fn main_start(&self, buf: Seq<char>) -> Seq<char>;

    /// What closes the top level.
    spec fn main_end_text(&self) -> Seq<char>;

    fn indent_unit(&self) -> (r: Vec<char>)
        ensures
            r@ == self.unit(),
    ;

    fn main_indent(&self) -> (r: Vec<char>)
        ensures
            r@ == self.main_indentation(),
    ;

    /// Writes a comment. The text of the comment follows the comment
    /// token directly.
    fn comment(&self, out: &mut Vec<char>, ind: &Vec<char>, comment: &str)
        ensures
            final(out)@ == old(out)@ + self.comment_text(ind@, comment@),
    ;

    fn check_str(&self, s: &str) -> (ok: bool)
        ensures
            ok == self.str_ok(s@),
    ;

    fn print_str(&self, out: &mut Vec<char>, s: &str)
        requires
            self.str_ok(s@),
        ensures
            final(out)@ == old(out)@ + self.str_text(s@),
    ;

    fn check_integer(&self, i: &Integer) -> (ok: bool)
        ensures
            ok == self.integer_ok(*i),
    ;

    fn is_bare_key(&self, s: &str) -> (b: bool)
        ensures
            b == self.bare_key(s@),
    ;

    fn item_sep(&self) -> (r: &'static str)
        ensures
            r@ == self.item_separator(),
    ;

    fn key_sep(&self) -> (r: &'static str)
        ensures
            r@ == self.key_separator(),
    ;

    fn dict_start(&self) -> (r: &'static str)
        ensures
            r@ == self.dict_open(),
    ;

    fn dict_end(&self) -> (r: &'static str)
        ensures
            r@ == self.dict_close(),
    ;

    /// Writes a field that is commented out, with its value if there is
    /// one.
    fn disabled_field(&self, out: &mut Vec<char>, ind: &Vec<char>, name: &str, value: Option<&str>)
        ensures
            final(out)@ == old(out)@ + self.comment_text(
                ind@,
                self.field_line(
                    name@,
                    match value {
                        Some(v) => Some(v@),
                        None => None,
                    },
                ),
            ),
    ;

    /// Opens a nested section.
    fn start_nested(
        &self,
        out: &mut Vec<char>,
        ind: &Vec<char>,
        path: &Vec<String>,
        doc: &Vec<String>,
    )
        requires
            path@.len() > 0,
        ensures
            final(out)@ == old(out)@ + self.nested_start_text(ind@, path@, doc@),
    ;

    /// Closes a nested section.
    fn end_nested(&self, out: &mut Vec<char>, ind: &Vec<char>)
        ensures
            final(out)@ == old(out)@ + self.nested_end_text(ind@),
    ;

    /// Opens the top level, after the documentation of the schema.
    fn start_main(&self, out: &mut Vec<char>)
        ensures
            final(out)@ == self.main_start(old(out)@),
    ;

    /// Closes the top level, after all fields.
    fn end_main(&self, out: &mut Vec<char>)
        ensures
            final(out)@ == old(out)@ + self.main_end_text(),
    ;
}

/// `true` or `false`.
pub open spec fn bool_text(b: bool) -> Seq<char> {
    if b {
        "true"@
    } else {
        "false"@
    }
}

/// Whether the format can write this key of a map.
pub open spec fn key_ok<F: Formatter>(fmt: F, key: MapKeyView) -> bool {
    match key {
        MapKeyView::Str(s) => fmt.bare_key(s) || fmt.str_ok(s),
        MapKeyView::Integer(i) => fmt.integer_ok(i),
        MapKeyView::Float(_) => true,
        MapKeyView::Bool(_) => true,
    }
}

/// A key of a map as the format writes it.
pub open spec fn key_text<F: Formatter>(fmt: F, key: MapKeyView) -> Seq<char> {
    match key {
        MapKeyView::Str(s) => if fmt.bare_key(s) {
            s
        } else {
            fmt.str_text(s)
        },
        MapKeyView::Integer(i) => int_text(i.value()),
        MapKeyView::Float(f) => f.text(),
        MapKeyView::Bool(b) => bool_text(b),
    }
}

/// Whether the format can write this literal: every string and every
/// number in it.
pub open spec fn expr_ok<F: Formatter>(fmt: F, value: ExprView) -> bool
    decreases value,
{
    match value {
        ExprView::Str(s) => fmt.str_ok(s),
        ExprView::Integer(i) => fmt.integer_ok(i),
        ExprView::Float(_) => true,
        ExprView::Bool(_) => true,
        ExprView::Array(items) => forall|i: int|
            0 <= i < items.len() ==> expr_ok(fmt, #[trigger] items[i]),
        ExprView::Dict(entries) => forall|i: int|
            0 <= i < entries.len() ==> key_ok(fmt, (#[trigger] entries[i]).0) && expr_ok(
                fmt,
                entries[i].1,
            ),
    }
}

/// The literal as the format writes it: an array in square brackets, a
/// map between what the format opens and closes one with, both on one
/// line and in the order of their items.
pub open spec fn expr_text<F: Formatter>(fmt: F, value: ExprView) -> Seq<char>
    decreases value, 0int,
{
    match value {
        ExprView::Str(s) => fmt.str_text(s),
        ExprView::Integer(i) => int_text(i.value()),
        ExprView::Float(f) => f.text(),
        ExprView::Bool(b) => bool_text(b),
        ExprView::Array(items) => "["@ + items_text(fmt, items, items.len() as int) + "]"@,
        ExprView::Dict(entries) => fmt.dict_open() + entries_text(
            fmt,
            entries,
            entries.len() as int,
        ) + fmt.dict_close(),
    }
}

/// The first `n` items of an array, with the separator between them.
pub open spec fn items_text<F: Formatter>(fmt: F, items: Seq<ExprView>, n: int) -> Seq<char>
    decreases items, n,
{
    if n <= 0 || n > items.len() {
        Seq::empty()
    } else if n == 1 {
        expr_text(fmt, items[0])
    } else {
        items_text(fmt, items, n - 1) + fmt.item_separator() + expr_text(fmt, items[n - 1])
    }
}

/// The first `n` entries of a map, with the separator between them.
pub open spec fn entries_text<F: Formatter>(
    fmt: F,
    entries: Seq<(MapKeyView, ExprView)>,
    n: int,
) -> Seq<char>
    decreases entries, n,
{
    if n <= 0 || n > entries.len() {
        Seq::empty()
    } else {
        (if n == 1 {
            Seq::empty()
        } else {
            entries_text(fmt, entries, n - 1) + fmt.item_separator()
        }) + key_text(fmt, entries[n - 1].0) + fmt.key_separator() + expr_text(
            fmt,
            entries[n - 1].1,
        )
    }
}

fn check_key<F: Formatter>(fmt: &F, key: &MapKey) -> (ok: bool)
    ensures
        ok == key_ok(*fmt, key@),
{
    match key {
        MapKey::Str(s) => fmt.is_bare_key(s.as_str()) || fmt.check_str(s.as_str()),
        MapKey::Integer(i) => fmt.check_integer(i),
        MapKey::Float(_) => true,
        MapKey::Bool(_) => true,
    }
}

fn print_bool(out: &mut Vec<char>, b: bool)
    ensures
        final(out)@ == old(out)@ + bool_text(b),
{
    if b {
        push_str(out, "true");
    } else {
        push_str(out, "false");
    }
}

fn print_key<F: Formatter>(fmt: &F, out: &mut Vec<char>, key: &MapKey)
    requires
        key_ok(*fmt, key@),
    ensures
        final(out)@ == old(out)@ + key_text(*fmt, key@),
{
    match key {
        MapKey::Str(s) => {
            if fmt.is_bare_key(s.as_str()) {
                push_str(out, s.as_str());
            } else {
                fmt.print_str(out, s.as_str());
            }
        },
        MapKey::Integer(i) => i.write(out),
        MapKey::Float(f) => push_str(out, f.as_str()),
        MapKey::Bool(b) => print_bool(out, *b),
    }
}

/// Whether the format can write this literal.
#[verifier::loop_isolation(false)]
pub fn check_expr<F: Formatter>(fmt: &F, value: &Expr) -> (ok: bool)
    ensures
        ok == expr_ok(*fmt, value@),
    decreases value,
{
    match value {
        Expr::Str(s) => fmt.check_str(s.as_str()),
        Expr::Integer(i) => fmt.check_integer(i),
        Expr::Float(_) => true,
        Expr::Bool(_) => true,
        Expr::Array(items) => {
            let ghost views = value@->Array_0;
            let mut i: usize = 0;
            while i < items.len()
                invariant
                    i <= items.len(),
                    forall|j: int| 0 <= j < i ==> expr_ok(*fmt, #[trigger] views[j]),
                decreases items.len() - i,
            {
                if !check_expr(fmt, &items[i]) {
                    assert(!expr_ok(*fmt, views[i as int]));
                    return false;
                }
                i += 1;
            }
            true
        },
        Expr::Dict(entries) => {
            let ghost views = value@->Dict_0;
            let mut i: usize = 0;
            while i < entries.len()
                invariant
                    i <= entries.len(),
                    forall|j: int|
                        0 <= j < i ==> key_ok(*fmt, (#[trigger] views[j]).0) && expr_ok(
                            *fmt,
                            views[j].1,
                        ),
                decreases entries.len() - i,
            {
                let entry = &entries[i];
                if !check_key(fmt, &entry.key) || !check_expr(fmt, &entry.value) {
                    assert(!(key_ok(*fmt, views[i as int].0) && expr_ok(*fmt, views[i as int].1)));
                    return false;
                }
                i += 1;
            }
            true
        },
    }
}

/// Writes the literal as the format writes it.
#[verifier::loop_isolation(false)]
pub fn print_expr<F: Formatter>(fmt: &F, out: &mut Vec<char>, value: &Expr)
    requires
        expr_ok(*fmt, value@),
    ensures
        final(out)@ == old(out)@ + expr_text(*fmt, value@),
    decreases value,
{
    let ghost start = out@;
    match value {
        Expr::Str(s) => fmt.print_str(out, s.as_str()),
        Expr::Integer(i) => i.write(out),
        Expr::Float(f) => push_str(out, f.as_str()),
        Expr::Bool(b) => print_bool(out, *b),
        Expr::Array(items) => {
            let ghost views = value@->Array_0;
            push_str(out, "[");
            let mut i: usize = 0;
            assert(out@ =~= start + "["@ + items_text(*fmt, views, 0));
            while i < items.len()
                invariant
                    i <= items.len(),
                    out@ == start + "["@ + items_text(*fmt, views, i as int),
                decreases items.len() - i,
            {
                if i > 0 {
                    push_str(out, fmt.item_sep());
                }
                assert(expr_ok(*fmt, views[i as int]));
                print_expr(fmt, out, &items[i]);
                i += 1;
                assert(out@ =~= start + "["@ + items_text(*fmt, views, i as int));
            }
            push_str(out, "]");
            assert(out@ =~= start + expr_text(*fmt, value@));
        },
        Expr::Dict(entries) => {
            let ghost views = value@->Dict_0;
            push_str(out, fmt.dict_start());
            let mut i: usize = 0;
            assert(out@ =~= start + fmt.dict_open() + entries_text(*fmt, views, 0));
            while i < entries.len()
                invariant
                    i <= entries.len(),
                    out@ == start + fmt.dict_open() + entries_text(*fmt, views, i as int),
                decreases entries.len() - i,
            {
                if i > 0 {
                    push_str(out, fmt.item_sep());
                }
                let entry = &entries[i];
                assert(key_ok(*fmt, views[i as int].0) && expr_ok(*fmt, views[i as int].1));
                print_key(fmt, out, &entry.key);
                push_str(out, fmt.key_sep());
                print_expr(fmt, out, &entry.value);
                i += 1;
                assert(out@ =~= start + fmt.dict_open() + entries_text(*fmt, views, i as int));
            }
            push_str(out, fmt.dict_end());
            assert(out@ =~= start + expr_text(*fmt, value@));
        },
    }
}

/// The line of a field that is commented out, with its value if there is
/// one.
pub open spec fn field_text<F: Formatter>(
    fmt: F,
    ind: Seq<char>,
    name: Seq<char>,
    value: Option<ExprView>,
) -> Seq<char> {
    fmt.comment_text(
        ind,
        fmt.field_line(
            name,
            match value {
                Some(v) => Some(expr_text(fmt, v)),
                None => None,
            },
        ),
    )
}

/// Writes a field that is commented out, with its value if there is one.
pub fn disabled_field<F: Formatter>(
    fmt: &F,
    out: &mut Vec<char>,
    ind: &Vec<char>,
    name: &str,
    value: &Option<Expr>,
)
    requires
        match *value {
            Some(v) => expr_ok(*fmt, v@),
            None => true,
        },
    ensures
        final(out)@ == old(out)@ + field_text(*fmt, ind@, name@, option_view(*value)),
{
    match value {
        Some(v) => {
            let mut text: Vec<char> = Vec::new();
            print_expr(fmt, &mut text, v);
            assert(text@ =~= expr_text(*fmt, v@));
            let text = string_from_chars(&text);
            fmt.disabled_field(out, ind, name, Some(text.as_str()));
        },
        None => {
            fmt.disabled_field(out, ind, name, None);
        },
    }
}

/// The first `n` of `lines`, each as a comment.
pub open spec fn comment_lines<F: Formatter>(
    fmt: F,
    ind: Seq<char>,
    lines: Seq<String>,
    n: int,
) -> Seq<char>
    decreases n,
{
    if n <= 0 {
        Seq::empty()
    } else {
        comment_lines(fmt, ind, lines, n - 1) + fmt.comment_text(ind, lines[n - 1]@)
    }
}

/// The comment that names the environment variable of a leaf.
pub open spec fn env_note(key: Seq<char>) -> Seq<char> {
    " Can also be specified via environment variable `"@ + key + "`."@
}

/// The comment that gives the default of a leaf, or says that the leaf is
/// required.
pub open spec fn default_note<F: Formatter>(fmt: F, default: Option<ExprView>) -> Seq<char> {
    match default {
        Some(v) => " Default value: "@ + expr_text(fmt, v),
        None => " Required! This value must be specified."@,
    }
}

/// The empty comment that parts the documentation of a leaf from what
/// follows it, where there is documentation.
pub open spec fn separator<F: Formatter>(fmt: F, ind: Seq<char>, wanted: bool) -> Seq<char> {
    if wanted {
        fmt.comment_text(ind, Seq::empty())
    } else {
        Seq::empty()
    }
}

/// The lines of one leaf: its documentation, the note on its environment
/// variable, the note on its default, and the field itself, commented out.
pub open spec fn leaf_text<F: Formatter>(
    fmt: F,
    ind: Seq<char>,
    field: Field,
    options: FormatOptions,
) -> Seq<char>
    recommends
        field.kind is Leaf,
{
    let has_docs = field.doc@.len() > 0;
    let env = field.kind->env;
    let above = if options.comments {
        comment_lines(fmt, ind, field.doc@, field.doc@.len() as int) + (if options.env_keys
            && env is Some {
            separator(fmt, ind, has_docs) + fmt.comment_text(ind, env_note(env->0@))
        } else {
            Seq::empty()
        })
    } else {
        Seq::empty()
    };
    above + (match field.kind->kind {
        LeafKind::Optional => field_text(fmt, ind, field.name@, None),
        LeafKind::Required { default } => (if options.comments {
            separator(fmt, ind, has_docs) + fmt.comment_text(
                ind,
                default_note(fmt, option_view(default)),
            )
        } else {
            Seq::empty()
        }) + field_text(fmt, ind, field.name@, option_view(default)),
    })
}

/// The buffer after the leaves among the first `n` fields, and whether
/// there was a leaf among them. Each leaf but the first is set off by a
/// gap.
pub open spec fn leaves_upto<F: Formatter>(
    fmt: F,
    ind: Seq<char>,
    buf: Seq<char>,
    meta: Meta,
    options: FormatOptions,
    n: int,
) -> (Seq<char>, bool)
    decreases n,
{
    if n <= 0 {
        (buf, false)
    } else {
        let before = leaves_upto(fmt, ind, buf, meta, options, n - 1);
        let field = meta.fields@[n - 1];
        if field.kind is Leaf {
            (
                (if before.1 {
                    with_gap(before.0, options.leaf_gap())
                } else {
                    before.0
                }) + leaf_text(fmt, ind, field, options),
                true,
            )
        } else {
            before
        }
    }
}

/// The buffer after the nested sections among the first `n` fields, and
/// whether anything was written. Each section is set off by a gap from
/// what stands before it.
pub open spec fn nested_upto<F: Formatter>(
    fmt: F,
    ind: Seq<char>,
    path: Seq<String>,
    start: (Seq<char>, bool),
    meta: Meta,
    options: FormatOptions,
    n: int,
) -> (Seq<char>, bool)
    decreases meta, n,
{
    if n <= 0 || n > meta.fields@.len() {
        start
    } else {
        let before = nested_upto(fmt, ind, path, start, meta, options, n - 1);
        let field = meta.fields@[n - 1];
        match field.kind {
            FieldKind::Leaf { .. } => before,
            FieldKind::Nested { meta: sub } => {
                let gapped = if before.1 {
                    with_gap(before.0, options.nested_field_gap as nat)
                } else {
                    before.0
                };
                let doc = if options.comments {
                    field.doc@
                } else {
                    Seq::empty()
                };
                let opened = gapped + fmt.nested_start_text(ind, path.push(field.name), doc);
                let inside = fields_text(
                    fmt,
                    ind + fmt.unit(),
                    path.push(field.name),
                    opened,
                    sub,
                    options,
                );
                (inside + fmt.nested_end_text(ind), true)
            },
        }
    }
}

/// The buffer after the fields of a schema: first its leaves, then its
/// nested sections, each with its own fields inside.
pub open spec fn fields_text<F: Formatter>(
    fmt: F,
    ind: Seq<char>,
    path: Seq<String>,
    buf: Seq<char>,
    meta: Meta,
    options: FormatOptions,
) -> Seq<char>
    decreases meta, meta.fields@.len() + 1,
{
    nested_upto(
        fmt,
        ind,
        path,
        leaves_upto(fmt, ind, buf, meta, options, meta.fields@.len() as int),
        meta,
        options,
        meta.fields@.len() as int,
    ).0
}

/// The template of a schema: its documentation, the top level with all
/// fields, and exactly one line break at the end.
pub open spec fn document<F: Formatter>(fmt: F, meta: Meta, options: FormatOptions) -> Seq<char> {
    let head = if options.comments {
        comment_lines(fmt, Seq::empty(), meta.doc@, meta.doc@.len() as int)
    } else {
        Seq::empty()
    };
    single_trailing_newline(
        fields_text(
            fmt,
            fmt.main_indentation(),
            Seq::empty(),
            fmt.main_start(head),
            meta,
            options,
        ) + fmt.main_end_text(),
    )
}

/// Whether the format can write every default that the schema declares.
pub open spec fn printable<F: Formatter>(fmt: F, meta: Meta) -> bool
    decreases meta,
{
    forall|i: int|
        0 <= i < meta.fields@.len() ==> match (#[trigger] meta.fields@[i]).kind {
            FieldKind::Leaf { env, kind, .. } => match kind {
                LeafKind::Required { default } => match default {
                    Some(v) => expr_ok(fmt, v@),
                    None => true,
                },
                LeafKind::Optional => true,
            },
            FieldKind::Nested { meta: sub } => printable(fmt, sub),
        }
}

/// Whether the format can write every default that the schema declares.
#[verifier::loop_isolation(false)]
pub fn check_printable<F: Formatter>(fmt: &F, meta: &Meta) -> (ok: bool)
    ensures
        ok == printable(*fmt, *meta),
    decreases meta,
{
    let mut i: usize = 0;
    while i < meta.fields.len()
        invariant
            i <= meta.fields.len(),
            forall|j: int|
                0 <= j < i ==> match (#[trigger] meta.fields@[j]).kind {
                    FieldKind::Leaf { env, kind, .. } => match kind {
                        LeafKind::Required { default } => match default {
                            Some(v) => expr_ok(*fmt, v@),
                            None => true,
                        },
                        LeafKind::Optional => true,
                    },
                    FieldKind::Nested { meta: sub } => printable(*fmt, sub),
                },
        decreases meta.fields.len() - i,
    {
        let ok = match &meta.fields[i].kind {
            FieldKind::Leaf { env, kind, .. } => match kind {
                LeafKind::Required { default } => match default {
                    Some(v) => check_expr(fmt, v),
                    None => true,
                },
                LeafKind::Optional => true,
            },
            FieldKind::Nested { meta: sub } => check_printable(fmt, sub),
        };
        if !ok {
            assert(!printable(*fmt, *meta)) by {
                let f = meta.fields@[i as int];
            }
            return false;
        }
        i += 1;
    }
    true
}

fn comment_all<F: Formatter>(fmt: &F, out: &mut Vec<char>, ind: &Vec<char>, lines: &Vec<String>)
    ensures
        final(out)@ == old(out)@ + comment_lines(*fmt, ind@, lines@, lines@.len() as int),
{
    let mut k: usize = 0;
    assert(out@ =~= old(out)@ + comment_lines(*fmt, ind@, lines@, 0));
    while k < lines.len()
        invariant
            k <= lines.len(),
            out@ == old(out)@ + comment_lines(*fmt, ind@, lines@, k as int),
        decreases lines.len() - k,
    {
        let ghost before = out@;
        fmt.comment(out, ind, lines[k].as_str());
        k += 1;
        assert(out@ =~= old(out)@ + comment_lines(*fmt, ind@, lines@, k as int));
    }
}

/// Writes the empty comment that parts the documentation of a leaf from
/// what follows it.
fn emit_separator<F: Formatter>(fmt: &F, out: &mut Vec<char>, ind: &Vec<char>, wanted: bool)
    ensures
        final(out)@ == old(out)@ + separator(*fmt, ind@, wanted),
{
    if wanted {
        proof {
            reveal_strlit("");
            assert(""@ =~= Seq::<char>::empty());
        }
        fmt.comment(out, ind, "");
    } else {
        assert(out@ =~= old(out)@ + Seq::<char>::empty());
    }
}

/// Writes the comment that names the environment variable of a leaf.
pub fn env_comment<F: Formatter>(fmt: &F, out: &mut Vec<char>, ind: &Vec<char>, env_key: &str)
    ensures
        final(out)@ == old(out)@ + fmt.comment_text(ind@, env_note(env_key@)),
{
    let mut note: Vec<char> = Vec::new();
    push_str(&mut note, " Can also be specified via environment variable `");
    push_str(&mut note, env_key);
    push_str(&mut note, "`.");
    assert(note@ =~= env_note(env_key@));
    let note = string_from_chars(&note);
    fmt.comment(out, ind, note.as_str());
}

/// Writes the comment that gives the default of a leaf, or says that the
/// leaf is required.
pub fn default_or_required_comment<F: Formatter>(
    fmt: &F,
    out: &mut Vec<char>,
    ind: &Vec<char>,
    default_value: &Option<Expr>,
)
    requires
        match *default_value {
            Some(v) => expr_ok(*fmt, v@),
            None => true,
        },
    ensures
        final(out)@ == old(out)@ + fmt.comment_text(
            ind@,
            default_note(*fmt, option_view(*default_value)),
        ),
{
    match default_value {
        Some(v) => {
            let mut note: Vec<char> = Vec::new();
            push_str(&mut note, " Default value: ");
            print_expr(fmt, &mut note, v);
            assert(note@ =~= default_note(*fmt, option_view(*default_value)));
            let note = string_from_chars(&note);
            fmt.comment(out, ind, note.as_str());
        },
        None => {
            fmt.comment(out, ind, " Required! This value must be specified.");
        },
    }
}

fn emit_leaf<F: Formatter>(
    fmt: &F,
    out: &mut Vec<char>,
    ind: &Vec<char>,
    field: &Field,
    options: &FormatOptions,
)
    requires
        field.kind is Leaf,
        match field.kind->kind {
            LeafKind::Required { default } => match default {
                Some(v) => expr_ok(*fmt, v@),
                None => true,
            },
            LeafKind::Optional => true,
        },
    ensures
        final(out)@ == old(out)@ + leaf_text(*fmt, ind@, *field, *options),
{
    let ghost start = out@;
    let has_docs = field.doc.len() > 0;
    match &field.kind {
        FieldKind::Leaf { env, kind, .. } => {
            if options.comments {
                comment_all(fmt, out, ind, &field.doc);
                if options.env_keys {
                    match env {
                        Some(key) => {
                            emit_separator(fmt, out, ind, has_docs);
                            env_comment(fmt, out, ind, key.as_str());
                        },
                        None => {},
                    }
                }
            }
            match kind {
                LeafKind::Optional => {
                    disabled_field(fmt, out, ind, field.name.as_str(), &None);
                },
                LeafKind::Required { default } => {
                    if options.comments {
                        emit_separator(fmt, out, ind, has_docs);
                        default_or_required_comment(fmt, out, ind, default);
                    }
                    disabled_field(fmt, out, ind, field.name.as_str(), default);
                },
            }
        },
        FieldKind::Nested { .. } => {},
    }
    assert(out@ =~= start + leaf_text(*fmt, ind@, *field, *options));
}

fn clone_path(path: &Vec<String>) -> (r: Vec<String>)
    ensures
        r@ == path@,
{
    let mut r: Vec<String> = Vec::new();
    let mut k: usize = 0;
    while k < path.len()
        invariant
            k <= path.len(),
            r@ == path@.take(k as int),
        decreases path.len() - k,
    {
        r.push(path[k].clone());
        k += 1;
        assert(r@ =~= path@.take(k as int));
    }
    assert(path@.take(path.len() as int) =~= path@);
    r
}

/// Writes the fields of a schema: first its leaves, then its nested
/// sections, each with its own fields inside.
#[verifier::loop_isolation(false)]
pub fn format_impl<F: Formatter>(
    fmt: &F,
    out: &mut Vec<char>,
    ind: &Vec<char>,
    path: &Vec<String>,
    meta: &Meta,
    options: &FormatOptions,
)
    requires
        printable(*fmt, *meta),
    ensures
        final(out)@ == fields_text(*fmt, ind@, path@, old(out)@, *meta, *options),
    decreases meta,
{
    let ghost start = out@;
    let mut emitted_anything = false;
    let mut i: usize = 0;
    while i < meta.fields.len()
        invariant
            i <= meta.fields.len(),
            (out@, emitted_anything) == leaves_upto(*fmt, ind@, start, *meta, *options, i as int),
        decreases meta.fields.len() - i,
    {
        let field = &meta.fields[i];
        match &field.kind {
            FieldKind::Leaf { .. } => {
                if emitted_anything {
                    make_gap(out, options.leaf_field_gap());
                }
                emit_leaf(fmt, out, ind, field, options);
                emitted_anything = true;
            },
            FieldKind::Nested { .. } => {},
        }
        i += 1;
    }
    let ghost leaves = (out@, emitted_anything);
    let mut inner: Vec<char> = Vec::new();
    push_chars(&mut inner, ind);
    let unit = fmt.indent_unit();
    push_chars(&mut inner, &unit);
    assert(inner@ =~= ind@ + fmt.unit());
    let no_doc: Vec<String> = Vec::new();
    assert(no_doc@ =~= Seq::<String>::empty());
    let mut i: usize = 0;
    while i < meta.fields.len()
        invariant
            i <= meta.fields.len(),
            (out@, emitted_anything) == nested_upto(
                *fmt,
                ind@,
                path@,
                leaves,
                *meta,
                *options,
                i as int,
            ),
        decreases meta.fields.len() - i,
    {
        let field = &meta.fields[i];
        match &field.kind {
            FieldKind::Leaf { .. } => {},
            FieldKind::Nested { meta: sub } => {
                if emitted_anything {
                    make_gap(out, options.nested_field_gap);
                }
                emitted_anything = true;
                let mut sub_path = clone_path(path);
                sub_path.push(field.name.clone());
                assert(sub_path@ =~= path@.push(field.name));
                if options.comments {
                    fmt.start_nested(out, ind, &sub_path, &field.doc);
                } else {
                    fmt.start_nested(out, ind, &sub_path, &no_doc);
                }
                format_impl(fmt, out, &inner, &sub_path, sub, options);
                fmt.end_nested(out, ind);
            },
        }
        i += 1;
    }
}

/// Writes the template of a schema.
pub fn format<F: Formatter>(fmt: &F, meta: &Meta, options: FormatOptions) -> (out: Vec<char>)
    requires
        printable(*fmt, *meta),
    ensures
        out@ == document(*fmt, *meta, options),
{
    let mut out: Vec<char> = Vec::new();
    let top: Vec<char> = Vec::new();
    assert(top@ =~= Seq::<char>::empty());
    if options.comments {
        comment_all(fmt, &mut out, &top, &meta.doc);
        assert(out@ =~= comment_lines(*fmt, Seq::empty(), meta.doc@, meta.doc@.len() as int));
    }
    fmt.start_main(&mut out);
    let ind = fmt.main_indent();
    let path: Vec<String> = Vec::new();
    assert(path@ =~= Seq::<String>::empty());
    format_impl(fmt, &mut out, &ind, &path, meta, &options);
    fmt.end_main(&mut out);
    assert_single_trailing_newline(&mut out);
    out
}

/// Writes the template of a schema, where the format can write every
/// default that the schema declares; `None` where it cannot.
pub fn try_format<F: Formatter>(fmt: &F, meta: &Meta, options: FormatOptions) -> (r: Option<
    Vec<char>,
>)
    ensures
        r is Some <==> printable(*fmt, *meta),
        r is Some ==> r->0@ == document(*fmt, *meta, options),
{
    if check_printable(fmt, meta) {
        Some(format(fmt, meta, options))
    } else {
        None
    }
}

} // verus!
