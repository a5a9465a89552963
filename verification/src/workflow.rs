//! The operations of a job step, each as the text that it emits and the
//! place where that text goes.

use vstd::prelude::*;
use crate::command::{command_line_spec, issue, issue_command, CommandProperties};
use crate::error::CoreError;
use crate::file_command::{
    delimiter_is_safe, issue_file_command, key_value_message_spec, prepare_key_value_message,
    FileAppend,
};
use crate::text::{concat2, concat3, text_eq};
use crate::utils::{
    annotation_properties_spec, command_value_spec, to_command_properties, to_command_value,
    AnnotationProperties,
};

verus! {

/// How a step ended.
#[derive(Clone, Copy, Debug, PartialEq, Eq)]
pub enum ExitCode {
    Success,
    Failure,
}

impl ExitCode {
    /// The process exit status: 0 for success, 1 for failure.
    pub fn code(&self) -> (r: i32)
        ensures
            r == (if *self is Success {
                0i32
            } else {
                1i32
            }),
    {
        match self {
            ExitCode::Success => 0,
            ExitCode::Failure => 1,
        }
    }
}

/// What an operation emits.
pub enum Emission {
    /// Text for standard output, to be written in one piece and followed by
    /// a line's end.
    Stdout(String),
    /// Text for a file, to be appended in one write.
    File(FileAppend),
}

/// An emission as plain values.
pub enum EmissionView {
    Stdout(Seq<char>),
    File { path: Seq<char>, text: Seq<char> },
}

impl View for Emission {
    type V = EmissionView;

    open spec fn view(&self) -> EmissionView {
        match self {
            Emission::Stdout(line) => EmissionView::Stdout(line@),
            Emission::File(a) => EmissionView::File { path: a.path@, text: a.text@ },
        }
    }
}

/// The one property of a stdout command that carries a name.
pub open spec fn name_property_spec(name: Seq<char>) -> Seq<(Seq<char>, Seq<char>)> {
    seq![("name"@, name)]
}

/// What a named value emits. With a target file: the framed key and value
/// and a line feed, for that file. Without one: the stdout command.
pub open spec fn key_value_emission_spec(
    stdout_command: Seq<char>,
    name: Seq<char>,
    value: Seq<char>,
    file_path: Seq<char>,
    delimiter: Seq<char>,
) -> EmissionView {
    if file_path.len() > 0 {
        EmissionView::File {
            path: file_path,
            text: key_value_message_spec(name, value, delimiter).push('\n'),
        }
    } else {
        EmissionView::Stdout(
            command_line_spec(stdout_command, name_property_spec(name), value),
        )
    }
}

/// Whether a named value is refused: there is a target file, and the
/// delimiter occurs in the name or in the value.
pub open spec fn key_value_collides(
    name: Seq<char>,
    value: Seq<char>,
    file_path: Seq<char>,
    delimiter: Seq<char>,
) -> bool {
    file_path.len() > 0 && !delimiter_is_safe(name, value, delimiter)
}

/// Chooses between the file form and the stdout form of a named value by
/// `file_path` alone, and encodes it.
pub fn emit_key_value(
    stdout_command: &str,
    file_command: &str,
    name: &str,
    value: Option<String>,
    file_path: &str,
    delimiter: &str,
) -> (r: Result<Emission, CoreError>)
    ensures
        r is Err <==> key_value_collides(name@, command_value_spec(value), file_path@, delimiter@),
        r matches Ok(e) ==> e@ == key_value_emission_spec(
            stdout_command@,
            name@,
            command_value_spec(value),
            file_path@,
            delimiter@,
        ),
        r matches Err(e) ==> e is DelimiterCollision,
{
    if !file_path.is_empty() {
        match prepare_key_value_message(name, value, delimiter) {
            Ok(message) => match issue_file_command(file_command, file_path, message.as_str()) {
                Ok(a) => Ok(Emission::File(a)),
                Err(e) => Err(e),
            },
            Err(e) => Err(e),
        }
    } else {
        let mut properties = CommandProperties::new();
        properties.insert("name", name);
        proof {
            assert(properties@ =~= name_property_spec(name@));
        }
        let converted = to_command_value(value);
        let line = issue_command(stdout_command, &properties, converted.as_str());
        Ok(Emission::Stdout(line))
    }
}

/// Exports a variable to the steps that follow. `file_path` is the value
/// of `GITHUB_ENV`, empty where it is unset.
pub fn export_variable(name: &str, value: Option<String>, file_path: &str, delimiter: &str) -> (r:
    Result<Emission, CoreError>)
    ensures
        r is Err <==> key_value_collides(name@, command_value_spec(value), file_path@, delimiter@),
        r matches Ok(e) ==> e@ == key_value_emission_spec(
            "set-env"@,
            name@,
            command_value_spec(value),
            file_path@,
            delimiter@,
        ),
        r matches Err(e) ==> e is DelimiterCollision,
{
    emit_key_value("set-env", "ENV", name, value, file_path, delimiter)
}

/// Sets an output of the step. `file_path` is the value of `GITHUB_OUTPUT`,
/// empty where it is unset.
pub fn set_output(name: &str, value: Option<String>, file_path: &str, delimiter: &str) -> (r:
    Result<Emission, CoreError>)
    ensures
        r is Err <==> key_value_collides(name@, command_value_spec(value), file_path@, delimiter@),
        r matches Ok(e) ==> e@ == key_value_emission_spec(
            "set-output"@,
            name@,
            command_value_spec(value),
            file_path@,
            delimiter@,
        ),
        r matches Err(e) ==> e is DelimiterCollision,
{
    emit_key_value("set-output", "OUTPUT", name, value, file_path, delimiter)
}

/// Saves state for the step's later phases. `file_path` is the value of
/// `GITHUB_STATE`, empty where it is unset.
pub fn save_state(name: &str, value: Option<String>, file_path: &str, delimiter: &str) -> (r:
    Result<Emission, CoreError>)
    ensures
        r is Err <==> key_value_collides(name@, command_value_spec(value), file_path@, delimiter@),
        r matches Ok(e) ==> e@ == key_value_emission_spec(
            "save-state"@,
            name@,
            command_value_spec(value),
            file_path@,
            delimiter@,
        ),
        r matches Err(e) ==> e is DelimiterCollision,
{
    emit_key_value("save-state", "STATE", name, value, file_path, delimiter)
}

/// The name of the environment variable that holds a saved state: `STATE_`
/// and the state's name.
pub fn state_variable_name(name: &str) -> (r: String)
    ensures
        r@ == "STATE_"@ + name@,
{
    concat2("STATE_", name)
}

/// What adding a directory to the search path emits.
pub open spec fn add_path_spec(input_path: Seq<char>, file_path: Seq<char>) -> EmissionView {
    if file_path.len() > 0 {
        EmissionView::File { path: file_path, text: input_path.push('\n') }
    } else {
        EmissionView::Stdout(command_line_spec("add-path"@, Seq::empty(), input_path))
    }
}

/// Adds a directory to the search path of the steps that follow.
/// `file_path` is the value of `GITHUB_PATH`, empty where it is unset.
pub fn add_path(input_path: &str, file_path: &str) -> (r: Emission)
    ensures
        r@ == add_path_spec(input_path@, file_path@),
{
    match issue_file_command("PATH", file_path, input_path) {
        Ok(a) => Emission::File(a),
        Err(_) => Emission::Stdout(issue("add-path", Some(input_path))),
    }
}

/// The search path with one more directory at its end.
pub fn extended_path(current: &str, delimiter: &str, input_path: &str) -> (r: String)
    ensures
        r@ == current@ + delimiter@ + input_path@,
{
    concat3(current, delimiter, input_path)
}

/// The command that masks a secret in the log.
pub fn set_secret(secret: &str) -> (line: String)
    ensures
        line@ == command_line_spec("add-mask"@, Seq::empty(), secret@),
{
    issue("add-mask", Some(secret))
}

/// The command that switches the echoing of commands on or off.
pub fn set_command_echo(enabled: bool) -> (line: String)
    ensures
        line@ == command_line_spec(
            "echo"@,
            Seq::empty(),
            if enabled {
                "on"@
            } else {
                "off"@
            },
        ),
{
    issue(
        "echo",
        Some(
            if enabled {
                "on"
            } else {
                "off"
            },
        ),
    )
}

/// Whether the runner asked for debug output: `runner_debug`, the value of
/// `RUNNER_DEBUG`, is `1`.
pub fn is_debug(runner_debug: Option<&str>) -> (r: bool)
    ensures
        r == (runner_debug matches Some(v) && v@ == "1"@),
{
    match runner_debug {
        Some(v) => text_eq(v, "1"),
        None => false,
    }
}

/// The command for a debug message.
pub fn debug(message: &str) -> (line: String)
    ensures
        line@ == command_line_spec("debug"@, Seq::empty(), message@),
{
    issue("debug", Some(message))
}

/// The properties of an annotation, where `None` stands for an annotation
/// with every part absent.
pub open spec fn annotation_spec(properties: Option<AnnotationProperties>) -> Seq<
    (Seq<char>, Seq<char>),
> {
    annotation_properties_spec(
        match properties {
            Some(p) => p,
            None => AnnotationProperties {
                title: None,
                file: None,
                start_line: None,
                end_line: None,
                start_column: None,
                end_column: None,
            },
        },
    )
}

/// The command of an annotation with the given level.
pub fn annotate(level: &str, message: &str, properties: Option<AnnotationProperties>) -> (line:
    String)
    ensures
        line@ == command_line_spec(level@, annotation_spec(properties), message@),
{
    let properties = match properties {
        Some(p) => p,
        None => AnnotationProperties {
            title: None,
            file: None,
            start_line: None,
            end_line: None,
            start_column: None,
            end_column: None,
        },
    };
    let converted = to_command_properties(properties);
    issue_command(level, &converted, message)
}

/// The command for an error annotation.
pub fn error(message: &str, properties: Option<AnnotationProperties>) -> (line: String)
    ensures
        line@ == command_line_spec("error"@, annotation_spec(properties), message@),
{
    annotate("error", message, properties)
}

/// The command for a warning annotation.
pub fn warning(message: &str, properties: Option<AnnotationProperties>) -> (line: String)
    ensures
        line@ == command_line_spec("warning"@, annotation_spec(properties), message@),
{
    annotate("warning", message, properties)
}

/// The command for a notice annotation.
pub fn notice(message: &str, properties: Option<AnnotationProperties>) -> (line: String)
    ensures
        line@ == command_line_spec("notice"@, annotation_spec(properties), message@),
{
    annotate("notice", message, properties)
}

/// The command that reports the step's failure: an error annotation
/// without properties set.
pub fn set_failed(message: &str) -> (line: String)
    ensures
        line@ == command_line_spec("error"@, annotation_spec(None), message@),
{
    error(message, None)
}

/// The command that opens a group of log lines.
pub fn start_group(name: &str) -> (line: String)
    ensures
        line@ == command_line_spec("group"@, Seq::empty(), name@),
{
    issue("group", Some(name))
}

/// The command that closes the group of log lines.
pub fn end_group() -> (line: String)
    ensures
        line@ == command_line_spec("endgroup"@, Seq::empty(), Seq::empty()),
{
    issue("endgroup", None)
}

/// Runs `f` as a group: hands back the command that opens the group, what
/// `f` returned, and the command that closes the group.
pub fn group<T, F: FnOnce() -> T>(name: &str, f: F) -> (r: (String, T, String))
    requires
        f.requires(()),
    ensures
        r.0@ == command_line_spec("group"@, Seq::empty(), name@),
        f.ensures((), r.1),
        r.2@ == command_line_spec("endgroup"@, Seq::empty(), Seq::empty()),
{
    let opening = start_group(name);
    let result = f();
    let closing = end_group();
    (opening, result, closing)
}

} // verus!
