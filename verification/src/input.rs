//! The inputs of an action: where they are found and how their values are
//! validated.

use vstd::prelude::*;
use crate::error::CoreError;
use crate::text::{
    concat2, concat3, replace_char, replace_char_spec, split, split_spec, text_eq, to_uppercase,
    trim, trim_spec, uppercase_of, views_of,
};

verus! {

/// How an input is read.
pub struct InputOptions {
    /// Whether the input must have a value. Absent means no.
    pub required: Option<bool>,
    /// Whether white space round the value is removed. Absent means yes.
    pub trim_whitespace: Option<bool>,
}

/// Whether the options ask for a value.
pub open spec fn is_required(options: Option<&InputOptions>) -> bool {
    options matches Some(o) && o.required == Some(true)
}

/// Whether the options ask to keep white space as it is.
pub open spec fn keeps_whitespace(options: Option<&InputOptions>) -> bool {
    options matches Some(o) && o.trim_whitespace == Some(false)
}

/// The name of the environment variable of an input: `INPUT_` and the
/// input's name with `_` for each space, in upper case.
pub open spec fn input_variable_spec(name: Seq<char>) -> Seq<char> {
    "INPUT_"@ + uppercase_of(replace_char_spec(name, ' ', seq!['_']))
}

/// The name of the environment variable that holds an input's value.
pub fn input_variable_name(name: &str) -> (r: String)
    ensures
        r@ == input_variable_spec(name@),
{
    proof {
        reveal_strlit("_");
        assert("_"@ =~= seq!['_']);
    }
    let spaced = replace_char(name, ' ', "_");
    let upper = to_uppercase(spaced.as_str());
    concat2("INPUT_", upper.as_str())
}

/// The message for a required input without a value.
pub open spec fn required_message_spec(name: Seq<char>) -> Seq<char> {
    "input "@ + name + " required"@
}

/// The value of an input as it is handed out: trimmed, unless the options
/// keep white space.
pub open spec fn input_value_spec(value: Seq<char>, options: Option<&InputOptions>) -> Seq<char> {
    if keeps_whitespace(options) {
        value
    } else {
        trim_spec(value)
    }
}

/// Whether an input is refused: it is required and its value is empty.
pub open spec fn input_is_missing(value: Seq<char>, options: Option<&InputOptions>) -> bool {
    is_required(options) && value.len() == 0
}

fn required(options: Option<&InputOptions>) -> (r: bool)
    ensures
        r == is_required(options),
{
    match options {
        Some(o) => match o.required {
            Some(b) => b,
            None => false,
        },
        None => false,
    }
}

fn keeps(options: Option<&InputOptions>) -> (r: bool)
    ensures
        r == keeps_whitespace(options),
{
    match options {
        Some(o) => match o.trim_whitespace {
            Some(b) => !b,
            None => false,
        },
        None => false,
    }
}

/// Validates the value of the input `name`. `value` is what the input's
/// environment variable holds, empty where it is unset. A required input
/// with an empty value is refused; otherwise the value is handed out,
/// trimmed unless the options say otherwise.
pub fn get_input(name: &str, value: &str, options: Option<&InputOptions>) -> (r: Result<
    String,
    CoreError,
>)
    ensures
        r is Err <==> input_is_missing(value@, options),
        r matches Ok(v) ==> v@ == input_value_spec(value@, options),
        r matches Err(e) ==> e matches CoreError::Configuration(m) && m@ == required_message_spec(
            name@,
        ),
{
    if required(options) && value.is_empty() {
        return Err(CoreError::Configuration(concat3("input ", name, " required")));
    }
    if keeps(options) {
        return Ok(String::from_str(value));
    }
    Ok(trim(value))
}

/// Each piece trimmed.
pub open spec fn trim_each_spec(pieces: Seq<Seq<char>>) -> Seq<Seq<char>> {
    Seq::new(pieces.len(), |i: int| trim_spec(pieces[i]))
}

/// The lines of an input's value: the value as `get_input` hands it out,
/// split at line feeds, and each line trimmed unless the options keep white
/// space.
pub open spec fn multiline_spec(value: Seq<char>, options: Option<&InputOptions>) -> Seq<
    Seq<char>,
> {
    let lines = split_spec(input_value_spec(value, options), '\n');
    if keeps_whitespace(options) {
        lines
    } else {
        trim_each_spec(lines)
    }
}

/// Validates the value of the input `name` and splits it into lines.
pub fn get_multiline_input(name: &str, value: &str, options: Option<&InputOptions>) -> (r: Result<
    Vec<String>,
    CoreError,
>)
    ensures
        r is Err <==> input_is_missing(value@, options),
        r matches Ok(v) ==> views_of(v@) == multiline_spec(value@, options),
        r matches Err(e) ==> e matches CoreError::Configuration(m) && m@ == required_message_spec(
            name@,
        ),
{
    let whole = match get_input(name, value, options) {
        Ok(v) => v,
        Err(e) => {
            return Err(e);
        },
    };
    let lines = split(whole.as_str(), '\n');
    if keeps(options) {
        return Ok(lines);
    }
    let mut out: Vec<String> = Vec::new();
    let mut i: usize = 0;
    while i < lines.len()
        invariant
            i <= lines@.len(),
            views_of(out@) == trim_each_spec(views_of(lines@)).take(i as int),
        decreases lines@.len() - i,
    {
        let trimmed = trim(lines[i].as_str());
        let ghost before = views_of(out@);
        out.push(trimmed);
        proof {
            let all = trim_each_spec(views_of(lines@));
            assert(views_of(out@) =~= before.push(trimmed@));
            assert(all[i as int] == trim_spec(lines@[i as int]@));
            assert(all.take(i + 1) =~= all.take(i as int).push(all[i as int]));
        }
        i += 1;
    }
    proof {
        let all = trim_each_spec(views_of(lines@));
        assert(all.take(all.len() as int) == all);
    }
    Ok(out)
}

/// The texts that stand for `true`.
pub open spec fn is_true_literal(v: Seq<char>) -> bool {
    v == "true"@ || v == "True"@ || v == "TRUE"@
}

/// The texts that stand for `false`.
pub open spec fn is_false_literal(v: Seq<char>) -> bool {
    v == "false"@ || v == "False"@ || v == "FALSE"@
}

/// The message for a value that is no boolean.
pub open spec fn not_boolean_message_spec(name: Seq<char>) -> Seq<char> {
    name + " not `true | True | TRUE | false | False | FALSE`"@
}

/// Reads a text as a boolean: one of `true`, `True`, `TRUE`, `false`,
/// `False`, `FALSE`. Every other text is refused.
pub fn parse_boolean(name: &str, v: &str) -> (r: Result<bool, CoreError>)
    ensures
        r is Ok <==> is_true_literal(v@) || is_false_literal(v@),
        r matches Ok(b) ==> b == is_true_literal(v@),
        r matches Err(e) ==> e matches CoreError::Validation(m) && m@ == not_boolean_message_spec(
            name@,
        ),
{
    proof {
        reveal_strlit("true");
        reveal_strlit("True");
        reveal_strlit("TRUE");
        reveal_strlit("false");
        reveal_strlit("False");
        reveal_strlit("FALSE");
        assert("true"@.len() == 4 && "True"@.len() == 4 && "TRUE"@.len() == 4);
        assert("false"@.len() == 5 && "False"@.len() == 5 && "FALSE"@.len() == 5);
    }
    if text_eq(v, "true") || text_eq(v, "True") || text_eq(v, "TRUE") {
        return Ok(true);
    }
    if text_eq(v, "false") || text_eq(v, "False") || text_eq(v, "FALSE") {
        return Ok(false);
    }
    Err(
        CoreError::Validation(
            concat2(name, " not `true | True | TRUE | false | False | FALSE`"),
        ),
    )
}

/// Validates the value of the input `name` and reads it as a boolean.
pub fn get_boolean_input(name: &str, value: &str, options: Option<&InputOptions>) -> (r: Result<
    bool,
    CoreError,
>)
    ensures
        r is Ok <==> !input_is_missing(value@, options) && (is_true_literal(
            input_value_spec(value@, options),
        ) || is_false_literal(input_value_spec(value@, options))),
        r matches Ok(b) ==> b == is_true_literal(input_value_spec(value@, options)),
        r matches Err(e) ==> if input_is_missing(value@, options) {
            e matches CoreError::Configuration(m) && m@ == required_message_spec(name@)
        } else {
            e matches CoreError::Validation(m) && m@ == not_boolean_message_spec(name@)
        },
{
    match get_input(name, value, options) {
        Ok(v) => parse_boolean(name, v.as_str()),
        Err(e) => Err(e),
    }
}

} // verus!
