//! Workflow commands for CI jobs: the encoding of commands as stdout lines and
//! as delimiter-framed file blocks, and the validation of action inputs.

pub mod text;
pub mod error;
pub mod command;
pub mod utils;
pub mod file_command;
pub mod input;
pub mod workflow;
pub mod decode;

pub use crate::error::CoreError;
pub use crate::command::{
    escape_data, escape_property, issue, issue_command, CommandProperties,
};
pub use crate::utils::{to_command_properties, to_command_value, AnnotationProperties};
pub use crate::file_command::{
    file_command_variable, fresh_token, issue_file_command, make_delimiter,
    prepare_key_value_message, write_file_command, FileAppend,
};
pub use crate::input::{
    get_boolean_input, get_input, get_multiline_input, input_variable_name, InputOptions,
};
pub use crate::workflow::{
    add_path, debug, end_group, error, export_variable, extended_path, group, is_debug, notice,
    save_state, set_command_echo, set_failed, set_output, set_secret, start_group,
    state_variable_name, warning, Emission, ExitCode,
};
