//! Templates in YAML.

use vstd::prelude::*;
use crate::error::option_text;
use crate::meta::{Integer, Meta};
use crate::template::{
    comment_block, comment_line, count_trailing_newlines, document, make_gap, make_spaces,
    printable, spaces, trailing_newlines, check_printable, with_gap, write_comment,
    write_comment_block, Formatter,
};
use crate::text::{chars_of, push_chars, push_str, string_from_chars};

verus! {

/// The options of a YAML template.
#[derive(Debug, Clone, Copy, PartialEq, Eq)]
pub struct FormatOptions {
    /// The number of spaces by which each level is indented.
    pub indent: u8,
    /// The options that do not depend on the format.
    pub general: crate::template::FormatOptions,
}

impl Default for FormatOptions {
    fn default() -> (r: Self)
        ensures
            r.indent == 2,
            r.general == (crate::template::FormatOptions {
                comments: true,
                env_keys: true,
                leaf_field_gap: None,
                nested_field_gap: 1,
            }),
    {
        FormatOptions { indent: 2, general: Default::default() }
    }
}

/// The YAML document that the `serde_yaml` crate writes for a string;
/// `None` where it reports an error.
pub uninterp spec fn yaml_document(s: Seq<char>) -> Option<Seq<char>>;

/// `serde_yaml::to_string` on a string: the document that holds the
/// string as its only value, or `None` where the crate reports an error.
#[verifier::external_body]
fn to_yaml(s: &str) -> (r: Option<String>)
    ensures
        option_text(r) == yaml_document(s@),
{
    serde_yaml::to_string(s).ok()
}

/// Whether a document starts with the marker of a document and a line
/// break.
pub open spec fn has_marker(doc: Seq<char>) -> bool {
    doc.len() >= 4 && doc[0] == '-' && doc[1] == '-' && doc[2] == '-' && doc[3] == '\n'
}

/// The document without the marker that it may start with.
pub open spec fn without_marker(doc: Seq<char>) -> Seq<char> {
    if has_marker(doc) {
        doc.skip(4)
    } else {
        doc
    }
}

/// The number of line breaks that `s` starts with.
pub open spec fn leading_newlines(s: Seq<char>) -> nat
    decreases s.len(),
{
    if s.len() > 0 && s[0] == '\n' {
        1 + leading_newlines(s.drop_first())
    } else {
        0
    }
}

/// `s` without the line breaks that it starts and ends with.
pub open spec fn trim_newlines(s: Seq<char>) -> Seq<char> {
    if leading_newlines(s) + trailing_newlines(s) >= s.len() {
        Seq::empty()
    } else {
        s.subrange(leading_newlines(s) as int, s.len() - trailing_newlines(s))
    }
}

/// The value that a document of one value holds: the document without its
/// marker and without the line breaks around the value.
pub open spec fn scalar_of(doc: Seq<char>) -> Seq<char> {
    trim_newlines(without_marker(doc))
}

fn count_leading_newlines(s: &Vec<char>) -> (n: usize)
    ensures
        n == leading_newlines(s@),
        n <= s.len(),
{
    let mut i: usize = 0;
    assert(s@.skip(0) =~= s@);
    while i < s.len() && s[i] == '\n'
        invariant
            i <= s.len(),
            leading_newlines(s@) == i + leading_newlines(s@.skip(i as int)),
        decreases s.len() - i,
    {
        assert(s@.skip(i as int).drop_first() =~= s@.skip(i + 1));
        i += 1;
    }
    i
}

/// Appends the value that a document of one value holds.
fn push_scalar(out: &mut Vec<char>, doc: &str)
    ensures
        final(out)@ == old(out)@ + scalar_of(doc@),
{
    let all = chars_of(doc);
    let marked = all.len() >= 4 && all[0] == '-' && all[1] == '-' && all[2] == '-' && all[3]
        == '\n';
    let mut body: Vec<char> = Vec::new();
    let mut k: usize = if marked {
        4
    } else {
        0
    };
    assert(body@ =~= all@.subrange(k as int, k as int));
    let first = k;
    while k < all.len()
        invariant
            first <= k <= all.len(),
            body@ == all@.subrange(first as int, k as int),
        decreases all.len() - k,
    {
        body.push(all[k]);
        k += 1;
        assert(body@ =~= all@.subrange(first as int, k as int));
    }
    assert(body@ =~= without_marker(doc@));
    let lead = count_leading_newlines(&body);
    let trail = count_trailing_newlines(&body);
    if trail < body.len() - lead {
        let end = body.len() - trail;
        let mut k: usize = lead;
        assert(out@ =~= old(out)@ + body@.subrange(lead as int, k as int));
        while k < end
            invariant
                lead <= k <= end,
                end <= body.len(),
                out@ == old(out)@ + body@.subrange(lead as int, k as int),
            decreases end - k,
        {
            out.push(body[k]);
            k += 1;
            assert(out@ =~= old(out)@ + body@.subrange(lead as int, k as int));
        }
    } else {
        assert(out@ =~= old(out)@ + Seq::<char>::empty());
    }
}

/// What writes a template in YAML.
pub struct YamlFormatter {
    pub indent: u8,
}

impl YamlFormatter {
    pub fn new(options: &FormatOptions) -> (r: Self)
        ensures
            r.indent == options.indent,
    {
        YamlFormatter { indent: options.indent }
    }
}

impl Formatter for YamlFormatter {
    open spec fn unit(&self) -> Seq<char> {
        spaces(self.indent as nat)
    }

    open spec fn main_indentation(&self) -> Seq<char> {
        Seq::empty()
    }

    open spec fn comment_text(&self, ind: Seq<char>, comment: Seq<char>) -> Seq<char> {
        comment_line(ind, "#"@, comment)
    }

    open spec fn str_ok(&self, s: Seq<char>) -> bool {
        yaml_document(s) is Some
    }

    /// A string stands as the crate writes it in a document of its own,
    /// without the frame of the document.
    open spec fn str_text(&self, s: Seq<char>) -> Seq<char> {
        scalar_of(yaml_document(s)->0)
    }

    open spec fn integer_ok(&self, i: Integer) -> bool {
        true
    }

    open spec fn bare_key(&self, s: Seq<char>) -> bool {
        false
    }

    open spec fn item_separator(&self) -> Seq<char> {
        ", "@
    }

    open spec fn key_separator(&self) -> Seq<char> {
        ": "@
    }

    open spec fn dict_open(&self) -> Seq<char> {
        "{ "@
    }

    open spec fn dict_close(&self) -> Seq<char> {
        " }"@
    }

    open spec fn field_line(&self, name: Seq<char>, value: Option<Seq<char>>) -> Seq<char> {
        match value {
            Some(v) => name + ": "@ + v,
            None => name + ":"@,
        }
    }

    /// A section is opened by its documentation and its name with a
    /// colon, both indented as the fields around it.
    open spec fn nested_start_text(&self, ind: Seq<char>, path: Seq<String>, doc: Seq<String>) -> Seq<
        char,
    > {
        comment_block(ind, "#"@, doc, doc.len() as int) + ind + path.last()@ + ":\n"@
    }

    open spec fn nested_end_text(&self, ind: Seq<char>) -> Seq<char> {
        Seq::empty()
    }

    open spec fn main_start(&self, buf: Seq<char>) -> Seq<char> {
        with_gap(buf, 1)
    }

    open spec fn main_end_text(&self) -> Seq<char> {
        Seq::empty()
    }

    fn indent_unit(&self) -> (r: Vec<char>) {
        make_spaces(self.indent)
    }

    fn main_indent(&self) -> (r: Vec<char>) {
        Vec::new()
    }

    fn comment(&self, out: &mut Vec<char>, ind: &Vec<char>, comment: &str) {
        write_comment(out, ind, "#", comment);
    }

    fn check_str(&self, s: &str) -> (ok: bool) {
        to_yaml(s).is_some()
    }

    fn print_str(&self, out: &mut Vec<char>, s: &str) {
        match to_yaml(s) {
            Some(doc) => push_scalar(out, doc.as_str()),
            None => {},
        }
    }

    fn check_integer(&self, i: &Integer) -> (ok: bool) {
        true
    }

    fn is_bare_key(&self, s: &str) -> (b: bool) {
        false
    }

    fn item_sep(&self) -> (r: &'static str) {
        ", "
    }

    fn key_sep(&self) -> (r: &'static str) {
        ": "
    }

    fn dict_start(&self) -> (r: &'static str) {
        "{ "
    }

    fn dict_end(&self) -> (r: &'static str) {
        " }"
    }

    fn disabled_field(&self, out: &mut Vec<char>, ind: &Vec<char>, name: &str, value: Option<&str>) {
        let mut line: Vec<char> = Vec::new();
        push_str(&mut line, name);
        match value {
            Some(v) => {
                push_str(&mut line, ": ");
                push_str(&mut line, v);
            },
            None => {
                push_str(&mut line, ":");
            },
        }
        let line = string_from_chars(&line);
        write_comment(out, ind, "#", line.as_str());
    }

    fn start_nested(
        &self,
        out: &mut Vec<char>,
        ind: &Vec<char>,
        path: &Vec<String>,
        doc: &Vec<String>,
    ) {
        write_comment_block(out, ind, "#", doc);
        push_chars(out, ind);
        push_str(out, path[path.len() - 1].as_str());
        push_str(out, ":\n");
        assert(out@ =~= old(out)@ + self.nested_start_text(ind@, path@, doc@));
    }

    fn end_nested(&self, out: &mut Vec<char>, ind: &Vec<char>) {
        assert(out@ =~= old(out)@ + Seq::<char>::empty());
    }

    fn start_main(&self, out: &mut Vec<char>) {
        make_gap(out, 1);
    }

    fn end_main(&self, out: &mut Vec<char>) {
        assert(out@ =~= old(out)@ + Seq::<char>::empty());
    }
}

/// The template of a schema in YAML.
pub open spec fn template_text(meta: Meta, options: FormatOptions) -> Seq<char> {
    document(YamlFormatter { indent: options.indent }, meta, options.general)
}

/// Writes the schema as a YAML file in which every value is commented
/// out: a template to hand to the users of an application.
pub fn template(meta: &Meta, options: FormatOptions) -> (r: String)
    requires
        printable(YamlFormatter { indent: options.indent }, *meta),
    ensures
        r@ == template_text(*meta, options),
{
    let out = YamlFormatter::new(&options);
    let text = crate::template::format(&out, meta, options.general);
    string_from_chars(&text)
}

/// The template of a schema in YAML, where every string among the
/// defaults of the schema can be written; `None` where one cannot.
pub fn try_template(meta: &Meta, options: FormatOptions) -> (r: Option<String>)
    ensures
        r is Some <==> printable(YamlFormatter { indent: options.indent }, *meta),
        r is Some ==> r->0@ == template_text(*meta, options),
{
    let out = YamlFormatter::new(&options);
    if check_printable(&out, meta) {
        Some(template(meta, options))
    } else {
        None
    }
}

} // verus!
