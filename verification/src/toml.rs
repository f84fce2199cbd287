//! Templates in TOML.

use vstd::prelude::*;
use crate::meta::{Integer, Meta};
use crate::template::{
    comment_block, comment_line, document, make_gap, make_spaces, printable, spaces, check_printable,
    with_gap, write_comment, write_comment_block, Formatter,
};
use crate::text::{push_chars, push_str, string_from_chars};

verus! {

/// The options of a TOML template.
#[derive(Debug, Clone, Copy, PartialEq, Eq)]
pub struct FormatOptions {
    /// The number of spaces by which each level of tables is indented.
    pub indent: u8,
    /// The options that do not depend on the format.
    pub general: crate::template::FormatOptions,
}

impl Default for FormatOptions {
    fn default() -> (r: Self)
        ensures
            r.indent == 0,
            r.general == (crate::template::FormatOptions {
                comments: true,
                env_keys: true,
                leaf_field_gap: None,
                nested_field_gap: 1,
            }),
    {
        FormatOptions { indent: 0, general: Default::default() }
    }
}

/// A string as a TOML value: what the serializer of the `toml` crate
/// writes for it.
pub uninterp spec fn toml_string_text(s: Seq<char>) -> Seq<char>;

/// `toml::ser::ValueSerializer` on a string: the string as a TOML value.
/// The serializer does not fail on a string.
#[verifier::external_body]
fn serialize_str(s: &str) -> (r: String)
    ensures
        r@ == toml_string_text(s@),
{
    let mut out = String::new();
    let _ = serde::Serialize::serialize(s, ::toml::ser::ValueSerializer::new(&mut out));
    out
}

/// Whether a character can stand in a key without quotes: an ASCII letter
/// or digit, `_` or `-`.
pub open spec fn is_bare_char(c: char) -> bool {
    ('a' <= c && c <= 'z') || ('A' <= c && c <= 'Z') || ('0' <= c && c <= '9') || c == '_' || c
        == '-'
}

/// Whether a key can stand without quotes: every character of it can.
pub open spec fn valid_bare_key(s: Seq<char>) -> bool {
    forall|i: int| 0 <= i < s.len() ==> is_bare_char(#[trigger] s[i])
}

/// Whether a key can stand without quotes.
pub fn is_valid_bare_key(s: &str) -> (b: bool)
    ensures
        b == valid_bare_key(s@),
{
    let mut ok = true;
    for c in it: s.chars()
        invariant
            it.seq() == s@,
            ok == forall|j: int| 0 <= j < it.index() ==> is_bare_char(#[trigger] s@[j]),
    {
        let good = ('a' <= c && c <= 'z') || ('A' <= c && c <= 'Z') || ('0' <= c && c <= '9') || c
            == '_' || c == '-';
        ok = ok && good;
    }
    ok
}

/// The names of `path`, up to the `n`th, with dots between them.
pub open spec fn dotted(path: Seq<String>, n: int) -> Seq<char>
    decreases n,
{
    if n <= 0 {
        Seq::empty()
    } else if n == 1 {
        path[0]@
    } else {
        dotted(path, n - 1) + "."@ + path[n - 1]@
    }
}

/// What writes a template in TOML.
pub struct TomlFormatter {
    pub indent: u8,
}

impl TomlFormatter {
    pub fn new(options: &FormatOptions) -> (r: Self)
        ensures
            r.indent == options.indent,
    {
        TomlFormatter { indent: options.indent }
    }
}

impl Formatter for TomlFormatter {
    open spec fn unit(&self) -> Seq<char> {
        spaces(self.indent as nat)
    }

    open spec fn main_indentation(&self) -> Seq<char> {
        Seq::empty()
    }

    open spec fn comment_text(&self, ind: Seq<char>, comment: Seq<char>) -> Seq<char> {
        comment_line(ind, "#"@, comment)
    }

    open spec fn str_ok(&self, s: Seq<char>) -> bool {
        true
    }

    open spec fn str_text(&self, s: Seq<char>) -> Seq<char> {
        toml_string_text(s)
    }

    /// TOML has signed numbers of 64 bits, and the serializer takes none
    /// of 128 bits.
    open spec fn integer_ok(&self, i: Integer) -> bool {
        !(i is U128) && !(i is I128) && i.value() <= i64::MAX
    }

    open spec fn bare_key(&self, s: Seq<char>) -> bool {
        valid_bare_key(s)
    }

    open spec fn item_separator(&self) -> Seq<char> {
        ", "@
    }

    open spec fn key_separator(&self) -> Seq<char> {
        " = "@
    }

    open spec fn dict_open(&self) -> Seq<char> {
        "{ "@
    }

    open spec fn dict_close(&self) -> Seq<char> {
        " }"@
    }

    open spec fn field_line(&self, name: Seq<char>, value: Option<Seq<char>>) -> Seq<char> {
        match value {
            Some(v) => name + " = "@ + v,
            None => name + " ="@,
        }
    }

    /// A table is opened by its documentation and its header, the dotted
    /// path in square brackets, both indented as the fields of the table.
    open spec fn nested_start_text(&self, ind: Seq<char>, path: Seq<String>, doc: Seq<String>) -> Seq<
        char,
    > {
        comment_block(ind + self.unit(), "#"@, doc, doc.len() as int) + (ind + self.unit()) + "["@
            + dotted(path, path.len() as int) + "]\n"@
    }

    open spec fn nested_end_text(&self, ind: Seq<char>) -> Seq<char> {
        Seq::empty()
    }

    open spec fn main_start(&self, buf: Seq<char>) -> Seq<char> {
        with_gap(buf, 1)
    }

    open spec fn main_end_text(&self) -> Seq<char> {
        Seq::empty()
    }

    fn indent_unit(&self) -> (r: Vec<char>) {
        make_spaces(self.indent)
    }

    fn main_indent(&self) -> (r: Vec<char>) {
        Vec::new()
    }

    fn comment(&self, out: &mut Vec<char>, ind: &Vec<char>, comment: &str) {
        write_comment(out, ind, "#", comment);
    }

    fn check_str(&self, s: &str) -> (ok: bool) {
        true
    }

    fn print_str(&self, out: &mut Vec<char>, s: &str) {
        let text = serialize_str(s);
        push_str(out, text.as_str());
    }

    fn check_integer(&self, i: &Integer) -> (ok: bool) {
        match *i {
            Integer::U128(_) => false,
            Integer::I128(_) => false,
            Integer::U64(v) => v <= 0x7fff_ffff_ffff_ffffu64,
            Integer::Usize(v) => (v as u64) <= 0x7fff_ffff_ffff_ffffu64,
            _ => true,
        }
    }

    fn is_bare_key(&self, s: &str) -> (b: bool) {
        is_valid_bare_key(s)
    }

    fn item_sep(&self) -> (r: &'static str) {
        ", "
    }

    fn key_sep(&self) -> (r: &'static str) {
        " = "
    }

    fn dict_start(&self) -> (r: &'static str) {
        "{ "
    }

    fn dict_end(&self) -> (r: &'static str) {
        " }"
    }

    fn disabled_field(&self, out: &mut Vec<char>, ind: &Vec<char>, name: &str, value: Option<&str>) {
        let mut line: Vec<char> = Vec::new();
        push_str(&mut line, name);
        match value {
            Some(v) => {
                push_str(&mut line, " = ");
                push_str(&mut line, v);
            },
            None => {
                push_str(&mut line, " =");
            },
        }
        let line = string_from_chars(&line);
        write_comment(out, ind, "#", line.as_str());
    }

    fn start_nested(
        &self,
        out: &mut Vec<char>,
        ind: &Vec<char>,
        path: &Vec<String>,
        doc: &Vec<String>,
    ) {
        let mut inner: Vec<char> = Vec::new();
        push_chars(&mut inner, ind);
        let unit = make_spaces(self.indent);
        push_chars(&mut inner, &unit);
        assert(inner@ =~= ind@ + self.unit());
        write_comment_block(out, &inner, "#", doc);
        push_chars(out, &inner);
        push_str(out, "[");
        let ghost before = out@;
        let mut k: usize = 0;
        assert(out@ =~= before + dotted(path@, 0));
        while k < path.len()
            invariant
                k <= path.len(),
                out@ == before + dotted(path@, k as int),
            decreases path.len() - k,
        {
            if k > 0 {
                push_str(out, ".");
            }
            push_str(out, path[k].as_str());
            k += 1;
            assert(out@ =~= before + dotted(path@, k as int));
        }
        push_str(out, "]\n");
        assert(out@ =~= old(out)@ + self.nested_start_text(ind@, path@, doc@));
    }

    fn end_nested(&self, out: &mut Vec<char>, ind: &Vec<char>) {
        assert(out@ =~= old(out)@ + Seq::<char>::empty());
    }

    fn start_main(&self, out: &mut Vec<char>) {
        make_gap(out, 1);
    }

    fn end_main(&self, out: &mut Vec<char>) {
        assert(out@ =~= old(out)@ + Seq::<char>::empty());
    }
}

/// The template of a schema in TOML.
pub open spec fn template_text(meta: Meta, options: FormatOptions) -> Seq<char> {
    document(TomlFormatter { indent: options.indent }, meta, options.general)
}

/// Writes the schema as a TOML file in which every value is commented
/// out: a template to hand to the users of an application.
pub fn template(meta: &Meta, options: FormatOptions) -> (r: String)
    requires
        printable(TomlFormatter { indent: options.indent }, *meta),
    ensures
        r@ == template_text(*meta, options),
{
    let out = TomlFormatter::new(&options);
    let text = crate::template::format(&out, meta, options.general);
    string_from_chars(&text)
}

/// The template of a schema in TOML, where TOML can hold every default of
/// the schema; `None` where it cannot: TOML has no integer beyond 64 bits
/// with a sign.
pub fn try_template(meta: &Meta, options: FormatOptions) -> (r: Option<String>)
    ensures
        r is Some <==> printable(TomlFormatter { indent: options.indent }, *meta),
        r is Some ==> r->0@ == template_text(*meta, options),
{
    let out = TomlFormatter::new(&options);
    if check_printable(&out, meta) {
        Some(template(meta, options))
    } else {
        None
    }
}

} // verus!
