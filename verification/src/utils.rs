//! Values and annotation properties in their wire form.

use vstd::prelude::*;
use crate::command::{lemma_insert_new, CommandProperties};
use crate::text::{decimal, decimal_spec};

verus! {

/// Where an annotation points: a title, a file, and a range of lines and
/// columns in it. Each part may be absent.
pub struct AnnotationProperties<'a> {
    pub title: Option<&'a str>,
    pub file: Option<&'a str>,
    pub start_line: Option<u32>,
    pub end_line: Option<u32>,
    pub start_column: Option<u32>,
    pub end_column: Option<u32>,
}

/// The wire text of an optional value: the value itself, or the empty text
/// for an absent one.
pub open spec fn command_value_spec(value: Option<String>) -> Seq<char> {
    match value {
        Some(s) => s@,
        None => Seq::empty(),
    }
}

/// The wire text of an optional value.
pub fn to_command_value(value: Option<String>) -> (r: String)
    ensures
        r@ == command_value_spec(value),
{
    match value {
        Some(s) => s,
        None => String::new(),
    }
}

/// The wire text of an optional text.
pub open spec fn text_value_spec(value: Option<&str>) -> Seq<char> {
    match value {
        Some(s) => s@,
        None => Seq::empty(),
    }
}

/// The wire text of an optional number: its decimal numeral, or the empty
/// text for an absent one.
pub open spec fn number_value_spec(value: Option<u32>) -> Seq<char> {
    match value {
        Some(n) => decimal_spec(n as nat),
        None => Seq::empty(),
    }
}

fn text_value(value: Option<&str>) -> (r: String)
    ensures
        r@ == text_value_spec(value),
{
    match value {
        Some(s) => String::from_str(s),
        None => String::new(),
    }
}

fn number_value(value: Option<u32>) -> (r: String)
    ensures
        r@ == number_value_spec(value),
{
    match value {
        Some(n) => decimal(n),
        None => String::new(),
    }
}

/// The properties of an annotation command, in wire order: `title`, `file`,
/// `line`, `endLine`, `col`, `endColumn`.
pub open spec fn annotation_properties_spec(a: AnnotationProperties) -> Seq<
    (Seq<char>, Seq<char>),
> {
    seq![
        ("title"@, text_value_spec(a.title)),
        ("file"@, text_value_spec(a.file)),
        ("line"@, number_value_spec(a.start_line)),
        ("endLine"@, number_value_spec(a.end_line)),
        ("col"@, number_value_spec(a.start_column)),
        ("endColumn"@, number_value_spec(a.end_column)),
    ]
}

/// The properties of an annotation command. Every key is present; an absent
/// part has the empty text as its value.
pub fn to_command_properties(a: AnnotationProperties) -> (r: CommandProperties)
    ensures
        r@ == annotation_properties_spec(a),
        r.wf(),
{
    proof {
        reveal_strlit("title");
        reveal_strlit("file");
        reveal_strlit("line");
        reveal_strlit("endLine");
        reveal_strlit("col");
        reveal_strlit("endColumn");
        assert("title"@.len() == 5 && "file"@.len() == 4 && "line"@.len() == 4);
        assert("endLine"@.len() == 7 && "col"@.len() == 3 && "endColumn"@.len() == 9);
    }
    let mut r = CommandProperties::new();
    let title = text_value(a.title);
    r.insert("title", title.as_str());
    let ghost one = seq![("title"@, title@)];
    assert(r@ =~= one);
    let file = text_value(a.file);
    proof {
        lemma_insert_new(one, "file"@, file@);
    }
    r.insert("file", file.as_str());
    let ghost two = one.push(("file"@, file@));
    let line = number_value(a.start_line);
    proof {
        assert("file"@[0] == 'f');
        assert("line"@[0] == 'l');
        lemma_insert_new(two, "line"@, line@);
    }
    r.insert("line", line.as_str());
    let ghost three = two.push(("line"@, line@));
    let end_line = number_value(a.end_line);
    proof {
        lemma_insert_new(three, "endLine"@, end_line@);
    }
    r.insert("endLine", end_line.as_str());
    let ghost four = three.push(("endLine"@, end_line@));
    let col = number_value(a.start_column);
    proof {
        lemma_insert_new(four, "col"@, col@);
    }
    r.insert("col", col.as_str());
    let ghost five = four.push(("col"@, col@));
    let end_column = number_value(a.end_column);
    proof {
        lemma_insert_new(five, "endColumn"@, end_column@);
    }
    r.insert("endColumn", end_column.as_str());
    proof {
        assert(r@ =~= annotation_properties_spec(a));
    }
    r
}

} // verus!
