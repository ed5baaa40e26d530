//! The commands that the packaging tool runs, and what it makes of their
//! outcome. The library says what to run and reads what came back; the
//! caller runs it.

use vstd::prelude::*;
use vstd::string::StringExecFns;
use crate::text::string_from_chars;

verus! {

/// A command to run: the program, and the arguments in order.
#[derive(Debug)]
pub struct CommandLine {
    pub program: String,
    pub args: Vec<String>,
}

/// A command as contracts see it.
pub struct CommandLineView {
    pub program: Seq<char>,
    pub args: Seq<Seq<char>>,
}

impl View for CommandLine {
    type V = CommandLineView;

    open spec fn view(&self) -> CommandLineView {
        CommandLineView { program: self.program@, args: texts(self.args@) }
    }
}

/// The texts of the strings.
pub open spec fn texts(strings: Seq<String>) -> Seq<Seq<char>> {
    strings.map_values(|s: String| s@)
}

/// What came back from a command that has run.
#[derive(Debug)]
pub struct Output {
    /// Whether the command reported success.
    pub success: bool,
    /// What it wrote to its standard output.
    pub stdout: Vec<u8>,
    /// What it wrote to its standard error.
    pub stderr: Vec<u8>,
}

/// The bytes read as text, each byte as the character with its number.
pub open spec fn text_of_bytes(bytes: Seq<u8>) -> Seq<char> {
    bytes.map_values(|b: u8| b as char)
}

/// Reads bytes as text, each byte as the character with its number.
pub fn bytes_to_string(bytes: &Vec<u8>) -> (text: String)
    ensures
        text@ == text_of_bytes(bytes@),
{
    let mut chars: Vec<char> = Vec::new();
    let mut i: usize = 0;
    while i < bytes.len()
        invariant
            i <= bytes.len(),
            chars@ == text_of_bytes(bytes@.take(i as int)),
        decreases bytes.len() - i,
    {
        chars.push(bytes[i] as char);
        assert(text_of_bytes(bytes@.take(i as int + 1)) =~= text_of_bytes(bytes@.take(i as int)).push(
            bytes@[i as int] as char,
        ));
        i = i + 1;
    }
    string_from_chars(&chars)
}

/// The command that runs cargo with `args`, cargo being the program at
/// `cargo_path`.
pub fn cargo_exec(cargo_path: &str, args: Vec<String>) -> (command: CommandLine)
    ensures
        command@ == (CommandLineView { program: cargo_path@, args: texts(args@) }),
{
    CommandLine { program: String::from_str(cargo_path), args }
}

/// The command that runs this tool again with `args`: cargo, with `xtask`
/// before the arguments.
pub fn xtask_exec(cargo_path: &str, args: Vec<String>) -> (command: CommandLine)
    ensures
        command@ == (CommandLineView {
            program: cargo_path@,
            args: seq!["xtask"@] + texts(args@),
        }),
{
    let mut args = args;
    let ghost given = texts(args@);
    args.insert(0, String::from_str("xtask"));
    assert(texts(args@) =~= seq!["xtask"@] + given);
    CommandLine { program: String::from_str(cargo_path), args }
}

/// The message with which a failed command is reported.
pub open spec fn failure(exec_str: Seq<char>, stderr: Seq<u8>) -> Seq<char> {
    "Command "@ + exec_str + " failed: "@ + text_of_bytes(stderr)
}

/// What to make of a command that has run: its output where it reported
/// success, and otherwise a message that names the program and holds what
/// it wrote to its standard error.
pub fn try_exec(exec_str: &str, output: &Output) -> (outcome: Result<String, String>)
    ensures
        match outcome {
            Ok(text) => output.success && text@ == text_of_bytes(output.stdout@),
            Err(message) => !output.success && message@ == failure(exec_str@, output.stderr@),
        },
{
    if output.success {
        Ok(bytes_to_string(&output.stdout))
    } else {
        let mut message = String::from_str("Command ");
        message.append(exec_str);
        message.append(" failed: ");
        let errors = bytes_to_string(&output.stderr);
        message.append(errors.as_str());
        Err(message)
    }
}

/// The output of a command that has run and reported success.
pub fn exec(exec_str: &str, output: &Output) -> (text: String)
    requires
        output.success,
    ensures
        text@ == text_of_bytes(output.stdout@),
{
    bytes_to_string(&output.stdout)
}

} // verus!
