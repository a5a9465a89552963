//! The file form of a workflow command: a key and a value framed by a
//! single-use delimiter, appended to the file that the runner names.

use vstd::prelude::*;
use crate::error::CoreError;
use crate::text::{concat2, contains, contains_spec, lacks};
use crate::utils::{command_value_spec, to_command_value};

verus! {

/// The hexadecimal digit for a value below sixteen.
pub open spec fn hex_digit_spec(d: nat) -> char {
    if d == 0 {
        '0'
    } else if d == 1 {
        '1'
    } else if d == 2 {
        '2'
    } else if d == 3 {
        '3'
    } else if d == 4 {
        '4'
    } else if d == 5 {
        '5'
    } else if d == 6 {
        '6'
    } else if d == 7 {
        '7'
    } else if d == 8 {
        '8'
    } else if d == 9 {
        '9'
    } else if d == 10 {
        'a'
    } else if d == 11 {
        'b'
    } else if d == 12 {
        'c'
    } else if d == 13 {
        'd'
    } else if d == 14 {
        'e'
    } else {
        'f'
    }
}

/// The last `digits` hexadecimal digits of `n`, most significant first.
pub open spec fn hex_spec(n: nat, digits: nat) -> Seq<char>
    decreases digits,
{
    if digits == 0 {
        Seq::empty()
    } else {
        hex_spec(n / 16, (digits - 1) as nat).push(hex_digit_spec(n % 16))
    }
}

/// The text with which every delimiter starts.
pub open spec fn delimiter_prefix() -> Seq<char> {
    "ghadelimiter_"@
}

/// The delimiter made from a 128-bit value: the prefix and the value's 32
/// hexadecimal digits.
pub open spec fn delimiter_spec(token: u128) -> Seq<char> {
    delimiter_prefix() + hex_spec(token as nat, 32)
}

/// `n` without its last `digits` hexadecimal digits.
pub open spec fn shifted_spec(n: nat, digits: nat) -> nat
    decreases digits,
{
    if digits == 0 {
        n
    } else {
        shifted_spec(n / 16, (digits - 1) as nat)
    }
}

/// Sixteen to the power `digits`.
pub open spec fn pow16_spec(digits: nat) -> nat
    decreases digits,
{
    if digits == 0 {
        1
    } else {
        16 * pow16_spec((digits - 1) as nat)
    }
}

proof fn lemma_hex_injective(n: nat, m: nat, digits: nat)
    requires
        hex_spec(n, digits) == hex_spec(m, digits),
        shifted_spec(n, digits) == shifted_spec(m, digits),
    ensures
        n == m,
    decreases digits,
{
    if digits > 0 {
        let d = (digits - 1) as nat;
        assert(hex_spec(n, digits).drop_last() == hex_spec(n / 16, d));
        assert(hex_spec(m, digits).drop_last() == hex_spec(m / 16, d));
        assert(hex_spec(n, digits).last() == hex_digit_spec(n % 16));
        assert(hex_spec(m, digits).last() == hex_digit_spec(m % 16));
        lemma_hex_injective(n / 16, m / 16, d);
        assert(n % 16 == m % 16);
    }
}

proof fn lemma_shifted_small(n: nat, digits: nat)
    requires
        n < pow16_spec(digits),
    ensures
        shifted_spec(n, digits) == 0,
    decreases digits,
{
    if digits > 0 {
        lemma_shifted_small(n / 16, (digits - 1) as nat);
    }
}

proof fn lemma_pow16_32()
    ensures
        pow16_spec(32) > u128::MAX,
{
    reveal_with_fuel(pow16_spec, 33);
    assert(pow16_spec(8) == 0x1_0000_0000);
    assert(pow16_spec(16) == 0x1_0000_0000_0000_0000);
    assert(pow16_spec(24) == 0x1_0000_0000_0000_0000_0000_0000);
    assert(pow16_spec(31) == 0x1000_0000_0000_0000_0000_0000_0000_0000);
}

proof fn lemma_hex_shape(n: nat, digits: nat)
    ensures
        hex_spec(n, digits).len() == digits,
        lacks(hex_spec(n, digits), '\n'),
    decreases digits,
{
    if digits > 0 {
        lemma_hex_shape(n / 16, (digits - 1) as nat);
    }
}

/// A delimiter has 45 characters, the prefix and 32 digits, and stands on
/// one line.
pub proof fn lemma_delimiter_shape(token: u128)
    ensures
        delimiter_spec(token).len() == 45,
        lacks(delimiter_spec(token), '\n'),
{
    reveal_strlit("ghadelimiter_");
    lemma_hex_shape(token as nat, 32);
    assert(delimiter_prefix().len() == 13);
    assert(lacks(delimiter_prefix(), '\n'));
}

/// Different values give different delimiters.
pub proof fn lemma_delimiter_injective(a: u128, b: u128)
    requires
        delimiter_spec(a) == delimiter_spec(b),
    ensures
        a == b,
{
    let prefix = delimiter_prefix();
    let x = hex_spec(a as nat, 32);
    let y = hex_spec(b as nat, 32);
    assert(x == (prefix + x).skip(prefix.len() as int));
    assert(y == (prefix + y).skip(prefix.len() as int));
    lemma_pow16_32();
    lemma_shifted_small(a as nat, 32);
    lemma_shifted_small(b as nat, 32);
    lemma_hex_injective(a as nat, b as nat, 32);
}

fn hex_digit(d: u128) -> (c: char)
    requires
        d < 16,
    ensures
        c == hex_digit_spec(d as nat),
{
    if d == 0 {
        '0'
    } else if d == 1 {
        '1'
    } else if d == 2 {
        '2'
    } else if d == 3 {
        '3'
    } else if d == 4 {
        '4'
    } else if d == 5 {
        '5'
    } else if d == 6 {
        '6'
    } else if d == 7 {
        '7'
    } else if d == 8 {
        '8'
    } else if d == 9 {
        '9'
    } else if d == 10 {
        'a'
    } else if d == 11 {
        'b'
    } else if d == 12 {
        'c'
    } else if d == 13 {
        'd'
    } else if d == 14 {
        'e'
    } else {
        'f'
    }
}

fn push_hex(out: &mut String, n: u128, digits: u32)
    ensures
        final(out)@ == old(out)@ + hex_spec(n as nat, digits as nat),
    decreases digits,
{
    if digits > 0 {
        push_hex(out, n / 16, digits - 1);
        out.push(hex_digit(n % 16));
    }
}

/// The delimiter for one file command, made from a 128-bit value that the
/// caller drew at random for this command alone.
pub fn make_delimiter(token: u128) -> (r: String)
    ensures
        r@ == delimiter_spec(token),
{
    let mut out = String::from_str("ghadelimiter_");
    push_hex(&mut out, token, 32);
    out
}

/// `getrandom::getrandom` fills a buffer with random bytes from the
/// operating system, or fails and says so. The bytes are handed on as one
/// 128-bit value; nothing is claimed of them.
#[verifier::external_body]
fn random_token() -> (r: Option<u128>) {
    let mut bytes = [0u8; 16];
    match getrandom::getrandom(&mut bytes) {
        Ok(()) => Some(u128::from_be_bytes(bytes)),
        Err(_) => None,
    }
}

/// The message of the error for a system that gives no random bytes.
pub open spec fn no_random_bytes_message() -> Seq<char> {
    "Unable to draw random bytes for a delimiter"@
}

/// Draws the 128-bit value for one delimiter from the operating system's
/// source of random bytes. Fails where the system gives none.
pub fn fresh_token() -> (r: Result<u128, CoreError>)
    ensures
        r matches Err(e) ==> e matches CoreError::Io(m) && m@ == no_random_bytes_message(),
{
    match random_token() {
        Some(token) => Ok(token),
        None => Err(
            CoreError::Io(String::from_str("Unable to draw random bytes for a delimiter")),
        ),
    }
}

/// A key and a value framed by a delimiter: the key, `<<`, the delimiter, a
/// line feed, the value, a line feed, and the delimiter again.
pub open spec fn key_value_message_spec(
    key: Seq<char>,
    value: Seq<char>,
    delimiter: Seq<char>,
) -> Seq<char> {
    key + seq!['<', '<'] + delimiter + seq!['\n'] + value + seq!['\n'] + delimiter
}

/// Whether a delimiter can frame this key and value: it occurs in neither.
pub open spec fn delimiter_is_safe(key: Seq<char>, value: Seq<char>, delimiter: Seq<char>) -> bool {
    !contains_spec(key, delimiter) && !contains_spec(value, delimiter)
}

/// Frames a key and a value with a delimiter. Fails, and frames nothing,
/// where the delimiter occurs in the key or in the value.
pub fn prepare_key_value_message(key: &str, value: Option<String>, delimiter: &str) -> (r: Result<
    String,
    CoreError,
>)
    ensures
        r is Ok <==> delimiter_is_safe(key@, command_value_spec(value), delimiter@),
        r matches Ok(m) ==> m@ == key_value_message_spec(
            key@,
            command_value_spec(value),
            delimiter@,
        ),
        r matches Err(e) ==> e is DelimiterCollision,
{
    let converted = to_command_value(value);
    if contains(key, delimiter) {
        return Err(CoreError::DelimiterCollision);
    }
    if contains(converted.as_str(), delimiter) {
        return Err(CoreError::DelimiterCollision);
    }
    proof {
        reveal_strlit("<<");
        reveal_strlit("\n");
        assert("<<"@ =~= seq!['<', '<']);
        assert("\n"@ =~= seq!['\n']);
    }
    let mut out = String::from_str(key);
    out.append("<<");
    out.append(delimiter);
    out.append("\n");
    out.append(converted.as_str());
    out.append("\n");
    out.append(delimiter);
    Ok(out)
}

/// What to append to which file.
pub struct FileAppend {
    /// The path of the file.
    pub path: String,
    /// The text to append in a single write.
    pub text: String,
}

/// The name of the environment variable that holds the path of a file
/// command's target: `GITHUB_` and the command.
pub open spec fn file_command_variable_spec(command: Seq<char>) -> Seq<char> {
    "GITHUB_"@ + command
}

/// The name of the environment variable that holds the path of a file
/// command's target.
pub fn file_command_variable(command: &str) -> (r: String)
    ensures
        r@ == file_command_variable_spec(command@),
{
    concat2("GITHUB_", command)
}

/// Prepares a file command: the message and a line feed, to be appended to
/// the file at `file_path`, which is the value of the command's environment
/// variable, empty where the variable is unset. Fails on an empty path.
pub fn issue_file_command(command: &str, file_path: &str, message: &str) -> (r: Result<
    FileAppend,
    CoreError,
>)
    ensures
        r is Ok <==> file_path@.len() > 0,
        r matches Ok(a) ==> a.path@ == file_path@ && a.text@ == message@.push('\n'),
        r matches Err(e) ==> e matches CoreError::MissingTarget(name) && name@
            == file_command_variable_spec(command@),
{
    if file_path.is_empty() {
        return Err(CoreError::MissingTarget(file_command_variable(command)));
    }
    proof {
        reveal_strlit("\n");
        assert(message@ + "\n"@ =~= message@.push('\n'));
    }
    Ok(FileAppend { path: String::from_str(file_path), text: concat2(message, "\n") })
}

/// The block that one file command appends: the framed key and value, and
/// a line feed.
pub open spec fn file_block_spec(key: Seq<char>, value: Seq<char>, delimiter: Seq<char>) -> Seq<
    char,
> {
    key_value_message_spec(key, value, delimiter).push('\n')
}

/// Prepares the block that sets `key` to `value` in the file of the
/// command `command_key`. `file_path` is the value of the command's
/// environment variable, empty where it is unset; `token` is a 128-bit
/// value drawn at random for this block alone. Fails without a target file,
/// and where the delimiter made from `token` occurs in the key or in the
/// value; a block is never framed with an unsafe delimiter.
pub fn write_file_command(
    command_key: &str,
    file_path: &str,
    key: &str,
    value: Option<String>,
    token: u128,
) -> (r: Result<FileAppend, CoreError>)
    ensures
        r is Ok <==> file_path@.len() > 0 && delimiter_is_safe(
            key@,
            command_value_spec(value),
            delimiter_spec(token),
        ),
        r matches Ok(a) ==> a.path@ == file_path@ && a.text@ == file_block_spec(
            key@,
            command_value_spec(value),
            delimiter_spec(token),
        ),
        r matches Err(e) ==> if file_path@.len() == 0 {
            e matches CoreError::MissingTarget(name) && name@ == file_command_variable_spec(
                command_key@,
            )
        } else {
            e is DelimiterCollision
        },
{
    if file_path.is_empty() {
        return Err(CoreError::MissingTarget(file_command_variable(command_key)));
    }
    let delimiter = make_delimiter(token);
    match prepare_key_value_message(key, value, delimiter.as_str()) {
        Ok(message) => issue_file_command(command_key, file_path, message.as_str()),
        Err(e) => Err(e),
    }
}

} // verus!
