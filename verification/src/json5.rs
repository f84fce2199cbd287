//! Templates in JSON5.

use vstd::prelude::*;
use crate::meta::{Integer, Meta};
use crate::template::{
    comment_block, comment_line, document, make_spaces, printable, spaces, check_printable,
    write_comment, write_comment_block, Formatter,
};
use crate::text::{push_chars, push_str, string_from_chars};

verus! {

/// The options of a JSON5 template.
#[derive(Debug, Clone, Copy, PartialEq, Eq)]
pub struct FormatOptions {
    /// The number of spaces by which each level is indented.
    pub indent: u8,
    /// The options that do not depend on the format.
    pub general: crate::template::FormatOptions,
}

impl Default for FormatOptions {
    fn default() -> (r: Self)
        ensures
            r.indent == 2,
            r.general == (crate::template::FormatOptions {
                comments: true,
                env_keys: true,
                leaf_field_gap: None,
                nested_field_gap: 1,
            }),
    {
        FormatOptions { indent: 2, general: Default::default() }
    }
}

/// A character as it stands inside a string: a backslash in front of a
/// quote, a slash and a backslash, and the letter of a line feed, a
/// carriage return, a tab, a backspace and a form feed.
pub open spec fn escape_char(c: char) -> Seq<char> {
    if c == '"' {
        seq!['\\', '"']
    } else if c == '\n' {
        seq!['\\', 'n']
    } else if c == '\r' {
        seq!['\\', 'r']
    } else if c == '\t' {
        seq!['\\', 't']
    } else if c == '/' {
        seq!['\\', '/']
    } else if c == '\\' {
        seq!['\\', '\\']
    } else if c == '\u{8}' {
        seq!['\\', 'b']
    } else if c == '\u{c}' {
        seq!['\\', 'f']
    } else {
        seq![c]
    }
}

/// The first `n` characters of `s`, each as it stands inside a string.
pub open spec fn escaped(s: Seq<char>, n: int) -> Seq<char>
    decreases n,
{
    if n <= 0 {
        Seq::empty()
    } else {
        escaped(s, n - 1) + escape_char(s[n - 1])
    }
}

/// A string as a JSON5 value: its characters between double quotes.
pub open spec fn quoted(s: Seq<char>) -> Seq<char> {
    seq!['"'] + escaped(s, s.len() as int) + seq!['"']
}

/// `json5::to_string` on a string: the string between double quotes, with
/// a backslash in front of each quote, slash and backslash, and `\n`,
/// `\r`, `\t`, `\b`, `\f` for the control characters of those names. The
/// crate does not fail on a string.
#[verifier::external_body]
fn to_json5(s: &str) -> (r: String)
    ensures
        r@ == quoted(s@),
{
    ::json5::to_string(&s).unwrap_or_default()
}

/// What writes a template in JSON5.
pub struct Json5Formatter {
    pub indent: u8,
}

impl Json5Formatter {
    pub fn new(options: &FormatOptions) -> (r: Self)
        ensures
            r.indent == options.indent,
    {
        Json5Formatter { indent: options.indent }
    }
}

impl Formatter for Json5Formatter {
    open spec fn unit(&self) -> Seq<char> {
        spaces(self.indent as nat)
    }

    /// The fields at the top level stand inside the braces of the
    /// document, one level in.
    open spec fn main_indentation(&self) -> Seq<char> {
        spaces(self.indent as nat)
    }

    open spec fn comment_text(&self, ind: Seq<char>, comment: Seq<char>) -> Seq<char> {
        comment_line(ind, "//"@, comment)
    }

    open spec fn str_ok(&self, s: Seq<char>) -> bool {
        true
    }

    open spec fn str_text(&self, s: Seq<char>) -> Seq<char> {
        quoted(s)
    }

    /// The serializer takes no number of 128 bits.
    open spec fn integer_ok(&self, i: Integer) -> bool {
        !(i is U128) && !(i is I128)
    }

    open spec fn bare_key(&self, s: Seq<char>) -> bool {
        false
    }

    open spec fn item_separator(&self) -> Seq<char> {
        ","@
    }

    open spec fn key_separator(&self) -> Seq<char> {
        ":"@
    }

    open spec fn dict_open(&self) -> Seq<char> {
        "{"@
    }

    open spec fn dict_close(&self) -> Seq<char> {
        "}"@
    }

    open spec fn field_line(&self, name: Seq<char>, value: Option<Seq<char>>) -> Seq<char> {
        match value {
            Some(v) => name + ": "@ + v + ","@,
            None => name + ": ,"@,
        }
    }

    /// An object is opened by its documentation and its name with a colon
    /// and a brace, both indented as the fields around it.
    open spec fn nested_start_text(&self, ind: Seq<char>, path: Seq<String>, doc: Seq<String>) -> Seq<
        char,
    > {
        comment_block(ind, "//"@, doc, doc.len() as int) + ind + path.last()@ + ": {\n"@
    }

    open spec fn nested_end_text(&self, ind: Seq<char>) -> Seq<char> {
        ind + "},\n"@
    }

    open spec fn main_start(&self, buf: Seq<char>) -> Seq<char> {
        buf + "{\n"@
    }

    open spec fn main_end_text(&self) -> Seq<char> {
        "}\n"@
    }

    fn indent_unit(&self) -> (r: Vec<char>) {
        make_spaces(self.indent)
    }

    fn main_indent(&self) -> (r: Vec<char>) {
        make_spaces(self.indent)
    }

    fn comment(&self, out: &mut Vec<char>, ind: &Vec<char>, comment: &str) {
        write_comment(out, ind, "//", comment);
    }

    fn check_str(&self, s: &str) -> (ok: bool) {
        true
    }

    fn print_str(&self, out: &mut Vec<char>, s: &str) {
        let text = to_json5(s);
        push_str(out, text.as_str());
    }

    fn check_integer(&self, i: &Integer) -> (ok: bool) {
        match *i {
            Integer::U128(_) => false,
            Integer::I128(_) => false,
            _ => true,
        }
    }

    fn is_bare_key(&self, s: &str) -> (b: bool) {
        false
    }

    fn item_sep(&self) -> (r: &'static str) {
        ","
    }

    fn key_sep(&self) -> (r: &'static str) {
        ":"
    }

    fn dict_start(&self) -> (r: &'static str) {
        "{"
    }

    fn dict_end(&self) -> (r: &'static str) {
        "}"
    }

    fn disabled_field(&self, out: &mut Vec<char>, ind: &Vec<char>, name: &str, value: Option<&str>) {
        let mut line: Vec<char> = Vec::new();
        push_str(&mut line, name);
        match value {
            Some(v) => {
                push_str(&mut line, ": ");
                push_str(&mut line, v);
                push_str(&mut line, ",");
            },
            None => {
                push_str(&mut line, ": ,");
            },
        }
        let line = string_from_chars(&line);
        write_comment(out, ind, "//", line.as_str());
    }

    fn start_nested(
        &self,
        out: &mut Vec<char>,
        ind: &Vec<char>,
        path: &Vec<String>,
        doc: &Vec<String>,
    ) {
        write_comment_block(out, ind, "//", doc);
        push_chars(out, ind);
        push_str(out, path[path.len() - 1].as_str());
        push_str(out, ": {\n");
        assert(out@ =~= old(out)@ + self.nested_start_text(ind@, path@, doc@));
    }

    fn end_nested(&self, out: &mut Vec<char>, ind: &Vec<char>) {
        push_chars(out, ind);
        push_str(out, "},\n");
        assert(out@ =~= old(out)@ + self.nested_end_text(ind@));
    }

    fn start_main(&self, out: &mut Vec<char>) {
        push_str(out, "{\n");
    }

    fn end_main(&self, out: &mut Vec<char>) {
        push_str(out, "}\n");
    }
}

/// The template of a schema in JSON5.
pub open spec fn template_text(meta: Meta, options: FormatOptions) -> Seq<char> {
    document(Json5Formatter { indent: options.indent }, meta, options.general)
}

/// Writes the schema as a JSON5 file in which every value is commented
/// out: a template to hand to the users of an application.
pub fn template(meta: &Meta, options: FormatOptions) -> (r: String)
    requires
        printable(Json5Formatter { indent: options.indent }, *meta),
    ensures
        r@ == template_text(*meta, options),
{
    let out = Json5Formatter::new(&options);
    let text = crate::template::format(&out, meta, options.general);
    string_from_chars(&text)
}

/// The template of a schema in JSON5, where the format can hold every
/// default of the schema; `None` where it cannot: the serializer takes no
/// number of 128 bits.
pub fn try_template(meta: &Meta, options: FormatOptions) -> (r: Option<String>)
    ensures
        r is Some <==> printable(Json5Formatter { indent: options.indent }, *meta),
        r is Some ==> r->0@ == template_text(*meta, options),
{
    let out = Json5Formatter::new(&options);
    if check_printable(&out, meta) {
        Some(template(meta, options))
    } else {
        None
    }
}

} // verus!
