//! What becomes of a command that was run: whether it counts as done, what
//! its output decodes to, and how a failure is told.
//!
//! The caller starts the process and hands over how that went. A command is
//! named by the text that stands for it in diagnostics.

use crate::table::{decode, decoded, Misfit};
use vstd::prelude::*;
use vstd::string::StringExecFns;
use vstd::utf8::{decode_utf8, valid_utf8};

verus! {

/// `serde_json::Value`, a JSON value. It is handed on as it is: nothing is
/// read of it here.
#[verifier::external_type_specification]
#[verifier::external_body]
pub struct ExJsonValue(serde_json::Value);

/// `serde_json::Error`, which tells why bytes are no JSON value.
#[verifier::external_type_specification]
#[verifier::external_body]
pub struct ExJsonError(serde_json::Error);

/// A command to run, as contracts speak of it.
pub struct Invocation {
    pub program: Seq<char>,
    pub arguments: Seq<Seq<char>>,
    pub environment: Seq<(Seq<char>, Seq<char>)>,
    pub directory: Option<Seq<char>>,
}

/// A command to run.
#[derive(Clone, Debug, PartialEq, Eq)]
pub struct CommandLine {
    /// The program to start.
    pub program: String,
    /// What the program is told, in this order.
    pub arguments: Vec<String>,
    /// The variables to set for the program, each with its value, in the
    /// order in which they are set.
    pub environment: Vec<(String, String)>,
    /// The folder to start the program in, if not the current one.
    pub directory: Option<String>,
}

impl View for CommandLine {
    type V = Invocation;

    open spec fn view(&self) -> Invocation {
        Invocation {
            program: self.program@,
            arguments: self.arguments.deep_view(),
            environment: self.environment.deep_view(),
            directory: self.directory.deep_view(),
        }
    }
}

impl DeepView for CommandLine {
    type V = Invocation;

    open spec fn deep_view(&self) -> Invocation {
        self@
    }
}

/// The command that starts `program` with `arguments`, in the current
/// folder and with no variable set.
pub open spec fn plain(program: Seq<char>, arguments: Seq<Seq<char>>) -> Invocation {
    Invocation { program, arguments, environment: Seq::empty(), directory: None }
}

/// How a process ended.
#[derive(Clone, Debug, PartialEq, Eq)]
pub struct ExitStatus {
    /// Whether the process reported success.
    pub success: bool,
    /// The status in words, for diagnostics.
    pub description: String,
}

/// How a process ended and what it wrote to its standard output.
#[derive(Clone, Debug, PartialEq, Eq)]
pub struct Output {
    pub status: ExitStatus,
    pub stdout: Vec<u8>,
}

/// Where a command failed.
#[derive(Clone, Copy, Debug, PartialEq, Eq)]
pub enum Stage {
    /// The process could not be started.
    Spawn,
    /// The process ran and reported failure.
    Wait,
    /// The process succeeded, but its output could not be decoded.
    Decode,
}

/// Why the output of a command could not be decoded.
#[derive(Clone, Debug, PartialEq, Eq)]
pub enum DecodeFailure {
    /// The output is not UTF-8.
    InvalidText,
    /// The output is not JSON, or not of the shape that was asked for.
    InvalidJson { reason: String },
    /// A row of the output has another number of fields than was asked for.
    MisfitRow(Misfit),
}

/// Why a command failed.
#[derive(Clone, Debug, PartialEq, Eq)]
pub enum Failure {
    /// The process could not be run.
    SpawnFailure { reason: String },
    /// The process ran and reported failure.
    NonZeroExit { status: String },
    /// The process succeeded, but its output could not be decoded.
    DecodeFailure(DecodeFailure),
}

/// A failure of a command, with the command that failed.
#[derive(Clone, Debug, PartialEq, Eq)]
pub struct CommandError {
    /// The text that stands for the command.
    pub command: String,
    /// Why it failed.
    pub failure: Failure,
}

/// The stage at which `failure` comes about.
pub open spec fn stage_of(failure: Failure) -> Stage {
    match failure {
        Failure::SpawnFailure { .. } => Stage::Spawn,
        Failure::NonZeroExit { .. } => Stage::Wait,
        Failure::DecodeFailure(_) => Stage::Decode,
    }
}

impl CommandError {
    /// The stage at which the command failed.
    pub fn stage(&self) -> (stage: Stage)
        ensures
            stage == stage_of(self.failure),
    {
        match &self.failure {
            Failure::SpawnFailure { .. } => Stage::Spawn,
            Failure::NonZeroExit { .. } => Stage::Wait,
            Failure::DecodeFailure(_) => Stage::Decode,
        }
    }
}

/// `failure` says that a process could not be run for `reason`.
pub open spec fn is_not_run(failure: Failure, reason: Seq<char>) -> bool {
    failure matches Failure::SpawnFailure { reason: told } && told@ == reason
}

/// `failure` says that a process ran and ended with `status`.
pub open spec fn is_exit(failure: Failure, status: Seq<char>) -> bool {
    failure matches Failure::NonZeroExit { status: told } && told@ == status
}

/// `error` says that the command `command` could not be run for `reason`.
pub open spec fn is_spawn_failure(error: CommandError, command: Seq<char>, reason: Seq<char>) -> bool {
    error.command@ == command && is_not_run(error.failure, reason)
}

/// `error` says that the command `command` ran and ended with `status`.
pub open spec fn is_non_zero_exit(error: CommandError, command: Seq<char>, status: Seq<char>) -> bool {
    error.command@ == command && is_exit(error.failure, status)
}

/// The failure of a process that ended with `status`.
pub fn status_error(status: ExitStatus) -> (failure: Failure)
    ensures
        is_exit(failure, status.description@),
{
    Failure::NonZeroExit { status: status.description }
}

/// Tells what became of the command `command`. `ran` is how running it
/// went: what it gave, or why it could not be run. `evaluate` tells what
/// that is worth.
pub fn go<T, U, G: FnOnce(T) -> Result<U, Failure>>(
    command: &str,
    ran: Result<T, String>,
    evaluate: G,
) -> (outcome: Result<U, CommandError>)
    requires
        ran matches Ok(value) ==> evaluate.requires((value,)),
    ensures
        outcome_of(
            command@,
            ran,
            outcome,
            |value: T, worth: Result<U, Failure>| evaluate.ensures((value,), worth),
        ),
{
    match ran {
        Err(reason) => Err(
            CommandError { command: command.to_owned(), failure: Failure::SpawnFailure { reason } },
        ),
        Ok(value) => match evaluate(value) {
            Ok(worth) => Ok(worth),
            Err(failure) => Err(CommandError { command: command.to_owned(), failure }),
        },
    }
}

/// Succeeds if the command `command` ran and reported success.
pub fn status_ok(command: &str, ran: Result<ExitStatus, String>) -> (outcome: Result<
    (),
    CommandError,
>)
    ensures
        match ran {
            Err(reason) => outcome is Err && is_spawn_failure(outcome->Err_0, command@, reason@),
            Ok(status) => if status.success {
                outcome is Ok
            } else {
                outcome is Err && is_non_zero_exit(outcome->Err_0, command@, status.description@)
            },
        },
{
    let evaluate = |status: ExitStatus| -> (worth: Result<(), Failure>)
        ensures
            status.success ==> worth is Ok,
            !status.success ==> worth is Err && is_exit(worth->Err_0, status.description@),
        {
            if status.success {
                Ok(())
            } else {
                Err(status_error(status))
            }
        };
    go(command, ran, evaluate)
}

/// `String::from_utf8` gives the text that the bytes encode, and none where
/// they are not UTF-8.
#[verifier::external_body]
fn text_of(bytes: Vec<u8>) -> (text: Option<String>)
    ensures
        text is Some <==> valid_utf8(bytes@),
        text is Some ==> text->0@ == decode_utf8(bytes@),
{
    String::from_utf8(bytes).ok()
}

/// Whether `serde_json::from_slice` reads a JSON value from these bytes.
pub uninterp spec fn is_json(bytes: Seq<u8>) -> bool;

/// The JSON value that `serde_json::from_slice` reads from these bytes.
pub uninterp spec fn json_value(bytes: Seq<u8>) -> serde_json::Value;

/// `serde_json::from_slice` reads a JSON value from the bytes, or tells why
/// it cannot. Which of the two it does, and the value that it reads, depend
/// on the bytes alone.
#[verifier::external_body]
fn parse_json(bytes: &[u8]) -> (parsed: Result<serde_json::Value, serde_json::Error>)
    ensures
        parsed is Ok <==> is_json(bytes@),
        parsed is Ok ==> parsed->Ok_0 == json_value(bytes@),
{
    serde_json::from_slice(bytes)
}

/// `to_string` of a `serde_json::Error` tells the error in words. Nothing is
/// claimed of the words.
#[verifier::external_body]
fn explain(error: &serde_json::Error) -> String {
    error.to_string()
}

/// The failure of a command whose output is not UTF-8.
pub open spec fn is_invalid_text(failure: Failure) -> bool {
    failure matches Failure::DecodeFailure(DecodeFailure::InvalidText)
}

/// The failure of a command whose output is not JSON.
pub open spec fn is_invalid_json(failure: Failure) -> bool {
    failure matches Failure::DecodeFailure(DecodeFailure::InvalidJson { .. })
}

/// What the output of a process is worth as text: the text that its bytes
/// encode, if the process succeeded and the bytes are UTF-8.
pub open spec fn text_worth(output: Output, worth: Result<String, Failure>) -> bool {
    if !output.status.success {
        worth is Err && is_exit(worth->Err_0, output.status.description@)
    } else if !valid_utf8(output.stdout@) {
        worth is Err && is_invalid_text(worth->Err_0)
    } else {
        worth is Ok && worth->Ok_0@ == decode_utf8(output.stdout@)
    }
}

/// The output of a successful process as text.
pub fn text_of_output(output: Output) -> (worth: Result<String, Failure>)
    ensures
        text_worth(output, worth),
{
    if output.status.success {
        match text_of(output.stdout) {
            Some(text) => Ok(text),
            None => Err(Failure::DecodeFailure(DecodeFailure::InvalidText)),
        }
    } else {
        Err(status_error(output.status))
    }
}

/// What became of the command `command`, of which `worth` tells what running
/// it was worth.
pub open spec fn outcome_of<T, U>(
    command: Seq<char>,
    ran: Result<T, String>,
    outcome: Result<U, CommandError>,
    worth: spec_fn(T, Result<U, Failure>) -> bool,
) -> bool {
    match ran {
        Err(reason) => outcome is Err && is_spawn_failure(outcome->Err_0, command, reason@),
        Ok(value) => match outcome {
            Ok(result) => worth(value, Ok(result)),
            Err(error) => error.command@ == command && worth(value, Err(error.failure)),
        },
    }
}

/// The standard output of the command `command` as text. Fails where the
/// command could not be run, reported failure, or wrote what is not UTF-8.
pub fn stdout_utf8(command: &str, ran: Result<Output, String>) -> (outcome: Result<
    String,
    CommandError,
>)
    ensures
        outcome_of(
            command@,
            ran,
            outcome,
            |output: Output, worth: Result<String, Failure>| text_worth(output, worth),
        ),
{
    let evaluate = |output: Output| -> (worth: Result<String, Failure>)
        ensures
            text_worth(output, worth),
        { text_of_output(output) };
    go(command, ran, evaluate)
}

/// What the output of a process is worth as a table of `column_count`
/// columns: the rows of the text that its bytes encode, if the process
/// succeeded, the bytes are UTF-8 and each row has that many fields.
pub open spec fn table_worth(
    output: Output,
    column_count: int,
    worth: Result<Vec<Vec<String>>, Failure>,
) -> bool {
    if !output.status.success {
        worth is Err && is_exit(worth->Err_0, output.status.description@)
    } else if !valid_utf8(output.stdout@) {
        worth is Err && is_invalid_text(worth->Err_0)
    } else {
        match worth {
            Ok(rows) => decoded(decode_utf8(output.stdout@), column_count, Ok(rows.deep_view())),
            Err(Failure::DecodeFailure(DecodeFailure::MisfitRow(misfit))) => decoded(
                decode_utf8(output.stdout@),
                column_count,
                Err(misfit@),
            ),
            Err(_) => false,
        }
    }
}

/// The output of a successful process as a table of `column_count` columns.
pub fn table_of_output(output: Output, column_count: usize) -> (worth: Result<
    Vec<Vec<String>>,
    Failure,
>)
    ensures
        table_worth(output, column_count as int, worth),
{
    match text_of_output(output) {
        Err(failure) => Err(failure),
        Ok(text) => match decode(text.as_str(), column_count) {
            Ok(rows) => Ok(rows),
            Err(misfit) => Err(Failure::DecodeFailure(DecodeFailure::MisfitRow(misfit))),
        },
    }
}

/// The standard output of the command `command` as a table of
/// `column_count` columns. Fails where the command could not be run,
/// reported failure, wrote what is not UTF-8, or wrote a row with another
/// number of fields; the error then names the first such row.
pub fn stdout_table(command: &str, ran: Result<Output, String>, column_count: usize) -> (outcome:
    Result<Vec<Vec<String>>, CommandError>)
    ensures
        outcome_of(
            command@,
            ran,
            outcome,
            |output: Output, worth: Result<Vec<Vec<String>>, Failure>|
                table_worth(output, column_count as int, worth),
        ),
{
    let evaluate = |output: Output| -> (worth: Result<Vec<Vec<String>>, Failure>)
        ensures
            table_worth(output, column_count as int, worth),
        { table_of_output(output, column_count) };
    go(command, ran, evaluate)
}

/// What a JSON value that was read, or the error that was met, is worth.
pub fn json_worth(parsed: Result<serde_json::Value, serde_json::Error>) -> (worth: Result<
    serde_json::Value,
    Failure,
>)
    ensures
        match parsed {
            Ok(value) => worth == Ok::<serde_json::Value, Failure>(value),
            Err(_) => worth is Err && is_invalid_json(worth->Err_0),
        },
{
    match parsed {
        Ok(value) => Ok(value),
        Err(error) => Err(
            Failure::DecodeFailure(DecodeFailure::InvalidJson { reason: explain(&error) }),
        ),
    }
}

/// What the output of a process is worth as JSON: the value that its bytes
/// denote, if the process succeeded and its bytes are JSON.
pub open spec fn json_output_worth(output: Output, worth: Result<serde_json::Value, Failure>) -> bool {
    if !output.status.success {
        worth is Err && is_exit(worth->Err_0, output.status.description@)
    } else if !is_json(output.stdout@) {
        worth is Err && is_invalid_json(worth->Err_0)
    } else {
        worth is Ok && worth->Ok_0 == json_value(output.stdout@)
    }
}

/// The output of a successful process as JSON.
pub fn json_of_output(output: Output) -> (worth: Result<serde_json::Value, Failure>)
    ensures
        json_output_worth(output, worth),
{
    if output.status.success {
        json_worth(parse_json(output.stdout.as_slice()))
    } else {
        Err(status_error(output.status))
    }
}

/// The standard output of the command `command` as the JSON value that it
/// denotes. Fails where the command could not be run, reported failure, or
/// wrote what is not JSON.
pub fn stdout_json(command: &str, ran: Result<Output, String>) -> (outcome: Result<
    serde_json::Value,
    CommandError,
>)
    ensures
        outcome_of(
            command@,
            ran,
            outcome,
            |output: Output, worth: Result<serde_json::Value, Failure>|
                json_output_worth(output, worth),
        ),
{
    let evaluate = |output: Output| -> (worth: Result<serde_json::Value, Failure>)
        ensures
            json_output_worth(output, worth),
        { json_of_output(output) };
    go(command, ran, evaluate)
}

/// The failure of the command `command` whose output is JSON, but not of
/// the shape that was asked for; `reason` tells what is amiss.
pub fn shape_error(command: &str, reason: String) -> (error: CommandError)
    ensures
        error.command@ == command@,
        error.failure matches Failure::DecodeFailure(DecodeFailure::InvalidJson { reason: told })
            && told == reason,
{
    CommandError {
        command: command.to_owned(),
        failure: Failure::DecodeFailure(DecodeFailure::InvalidJson { reason }),
    }
}

/// How feeding a process its input went.
#[derive(Clone, Debug, PartialEq, Eq)]
pub struct Fed {
    /// Why the input could not be written in full, if it could not.
    pub write_failure: Option<String>,
}

/// Succeeds if both commands of a pipe ran and reported success. Fails with
/// the side that failed: the writer, if it failed, whatever became of the
/// reader; else the reader.
pub fn pipe(
    writer: &str,
    writer_ran: Result<ExitStatus, String>,
    reader: &str,
    reader_ran: Result<ExitStatus, String>,
) -> (outcome: Result<(), CommandError>)
    ensures
        match (writer_ran, reader_ran) {
            (Err(reason), _) => outcome is Err && is_spawn_failure(
                outcome->Err_0,
                writer@,
                reason@,
            ),
            (Ok(written), _) if !written.success => outcome is Err && is_non_zero_exit(
                outcome->Err_0,
                writer@,
                written.description@,
            ),
            (Ok(_), Err(reason)) => outcome is Err && is_spawn_failure(
                outcome->Err_0,
                reader@,
                reason@,
            ),
            (Ok(_), Ok(read)) => if read.success {
                outcome is Ok
            } else {
                outcome is Err && is_non_zero_exit(outcome->Err_0, reader@, read.description@)
            },
        },
{
    match status_ok(writer, writer_ran) {
        Err(error) => Err(error),
        Ok(()) => status_ok(reader, reader_ran),
    }
}

/// Succeeds if the command `command`, which was fed its input while it ran,
/// ran and reported success, and hands on how the feeding went. Fails where
/// the command could not be run or reported failure.
pub fn feed_stdin(command: &str, fed: Result<(), String>, ran: Result<ExitStatus, String>) -> (outcome:
    Result<Fed, CommandError>)
    ensures
        match ran {
            Err(reason) => outcome is Err && is_spawn_failure(outcome->Err_0, command@, reason@),
            Ok(status) => if status.success {
                outcome is Ok && outcome->Ok_0.write_failure == fed.err()
            } else {
                outcome is Err && is_non_zero_exit(outcome->Err_0, command@, status.description@)
            },
        },
{
    match status_ok(command, ran) {
        Err(error) => Err(error),
        Ok(()) => Ok(Fed { write_failure: fed.err() }),
    }
}

/// The decimal digit for `value`.
pub open spec fn digit(value: nat) -> char
    recommends
        value < 10,
{
    if value == 0 {
        '0'
    } else if value == 1 {
        '1'
    } else if value == 2 {
        '2'
    } else if value == 3 {
        '3'
    } else if value == 4 {
        '4'
    } else if value == 5 {
        '5'
    } else if value == 6 {
        '6'
    } else if value == 7 {
        '7'
    } else if value == 8 {
        '8'
    } else {
        '9'
    }
}

/// `value` in decimal digits, without leading zeros.
pub open spec fn decimal(value: nat) -> Seq<char>
    decreases value,
{
    if value < 10 {
        seq![digit(value)]
    } else {
        decimal(value / 10).push(digit(value % 10))
    }
}

/// Puts `value` in decimal digits at the end of `text`.
fn push_decimal(text: &mut String, value: usize)
    ensures
        final(text)@ == old(text)@ + decimal(value as nat),
    decreases value,
{
    if value >= 10 {
        push_decimal(text, value / 10);
    }
    let last = value % 10;
    let character = if last == 0 {
        '0'
    } else if last == 1 {
        '1'
    } else if last == 2 {
        '2'
    } else if last == 3 {
        '3'
    } else if last == 4 {
        '4'
    } else if last == 5 {
        '5'
    } else if last == 6 {
        '6'
    } else if last == 7 {
        '7'
    } else if last == 8 {
        '8'
    } else {
        '9'
    };
    text.push(character);
    assert(text@ =~= old(text)@ + decimal(value as nat));
}

/// What `Debug` writes for a string: the string in double quotes, with the
/// characters escaped that need it.
pub uninterp spec fn quoted(text: Seq<char>) -> Seq<char>;

/// `format!` with `{:?}` writes a string as `Debug` does, which depends on
/// the string alone.
#[verifier::external_body]
pub(crate) fn quote(text: &str) -> (written: String)
    ensures
        written@ == quoted(text@),
{
    format!("{text:?}")
}

/// What `Debug` writes for the path that `text` names: the text in double
/// quotes, with the characters escaped that need it.
pub uninterp spec fn quoted_path(text: Seq<char>) -> Seq<char>;

/// `format!` with `{:?}` writes the path that `std::path::Path::new` makes
/// of a text as `Debug` does, which depends on the text alone.
#[verifier::external_body]
pub(crate) fn quote_path(text: &str) -> (written: String)
    ensures
        written@ == quoted_path(text@),
{
    format!("{:?}", std::path::Path::new(text))
}

/// The words that tell that `misfit` has another number of fields than its
/// table.
pub open spec fn misfit_words(misfit: Misfit) -> Seq<char> {
    "Unable to parse result line "@ + decimal(misfit.line_number as nat) + ", expected "@ + decimal(
        misfit.expected as nat,
    ) + " fields but got "@ + decimal(misfit.found as nat) + ": "@ + quoted(misfit.row@)
}

/// The words that tell `error`, from the command that failed down to the
/// cause.
pub open spec fn chain_of(error: CommandError) -> Seq<Seq<char>> {
    match error.failure {
        Failure::SpawnFailure { reason } => seq![
            "Unable to run command: "@ + error.command@,
            reason@,
        ],
        Failure::NonZeroExit { status } => seq![
            "Unable to evaluate result of command: "@ + error.command@,
            status@,
        ],
        Failure::DecodeFailure(DecodeFailure::InvalidText) => seq![
            "Unable to evaluate result of command: "@ + error.command@,
            "Stdout is not valid UTF-8"@,
        ],
        Failure::DecodeFailure(DecodeFailure::InvalidJson { reason }) => seq![
            "Unable to evaluate result of command: "@ + error.command@,
            "Unable to deserialize JSON from stdout"@,
            reason@,
        ],
        Failure::DecodeFailure(DecodeFailure::MisfitRow(misfit)) => seq![
            "Unable to evaluate result of command: "@ + error.command@,
            misfit_words(misfit),
        ],
    }
}

impl Misfit {
    /// Tells in words that the row has another number of fields than its
    /// table.
    pub fn words(&self) -> (words: String)
        ensures
            words@ == misfit_words(*self),
    {
        let mut words = String::from_str("Unable to parse result line ");
        push_decimal(&mut words, self.line_number);
        words.append(", expected ");
        push_decimal(&mut words, self.expected);
        words.append(" fields but got ");
        push_decimal(&mut words, self.found);
        words.append(": ");
        let row = quote(self.row.as_str());
        words.append(row.as_str());
        words
    }
}

impl CommandError {
    /// Tells the error in words, one line for each layer: first the command
    /// and what was being done with it, then the cause.
    pub fn chain(&self) -> (lines: Vec<String>)
        ensures
            lines.deep_view() == chain_of(*self),
    {
        let mut lines: Vec<String> = Vec::new();
        let mut headline = match &self.failure {
            Failure::SpawnFailure { .. } => String::from_str("Unable to run command: "),
            _ => String::from_str("Unable to evaluate result of command: "),
        };
        headline.append(self.command.as_str());
        lines.push(headline);
        match &self.failure {
            Failure::SpawnFailure { reason } => {
                lines.push(reason.clone());
            },
            Failure::NonZeroExit { status } => {
                lines.push(status.clone());
            },
            Failure::DecodeFailure(DecodeFailure::InvalidText) => {
                lines.push(String::from_str("Stdout is not valid UTF-8"));
            },
            Failure::DecodeFailure(DecodeFailure::InvalidJson { reason }) => {
                lines.push(String::from_str("Unable to deserialize JSON from stdout"));
                lines.push(reason.clone());
            },
            Failure::DecodeFailure(DecodeFailure::MisfitRow(misfit)) => {
                lines.push(misfit.words());
            },
        }
        assert(lines.deep_view() =~= chain_of(*self));
        lines
    }
}

} // verus!
