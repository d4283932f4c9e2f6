use wheelsticks::command::{
    feed_stdin, go, json_worth, pipe, shape_error, status_error, status_ok, stdout_json,
    stdout_table, stdout_utf8, text_of_output, CommandError, DecodeFailure, ExitStatus, Failure, Fed,
    Output, Stage,
};
use wheelsticks::table::Misfit;

fn success() -> ExitStatus {
    ExitStatus { success: true, description: "exit status: 0".into() }
}

fn failure() -> ExitStatus {
    ExitStatus { success: false, description: "exit status: 1".into() }
}

fn no_program() -> String {
    "No such file or directory (os error 2)".into()
}

fn wrote(bytes: &[u8]) -> Result<Output, String> {
    Ok(Output { status: success(), stdout: bytes.to_vec() })
}

fn error(command: &str, failure: Failure) -> CommandError {
    CommandError { command: command.into(), failure }
}

#[test]
fn status_ok_handles_invalid_program() {
    assert_eq!(
        status_ok("\"\"", Err(no_program())),
        Err(error("\"\"", Failure::SpawnFailure { reason: no_program() })),
    );
}

#[test]
fn status_ok_handles_success() {
    assert_eq!(status_ok("\"sh\" \"-c\" \"exit 0\"", Ok(success())), Ok(()));
}

#[test]
fn status_ok_handles_failure() {
    assert_eq!(
        status_ok("\"sh\" \"-c\" \"exit 1\"", Ok(failure())),
        Err(error(
            "\"sh\" \"-c\" \"exit 1\"",
            Failure::NonZeroExit { status: "exit status: 1".into() },
        )),
    );
}

#[test]
fn stdout_json_handles_invalid_program() {
    assert_eq!(
        stdout_json("\"\"", Err(no_program())),
        Err(error("\"\"", Failure::SpawnFailure { reason: no_program() })),
    );
}

#[test]
fn stdout_json_handles_failure() {
    assert_eq!(
        stdout_json("sh", Ok(Output { status: failure(), stdout: b"\"Hi\"".to_vec() })),
        Err(error("sh", Failure::NonZeroExit { status: "exit status: 1".into() })),
    );
}

#[test]
fn stdout_json_handles_success() {
    assert_eq!(stdout_json("sh", wrote(b"\"Hi\"")), Ok(serde_json::Value::String("Hi".into())));
    assert_eq!(
        stdout_json("sh", wrote(b" [1, null] ")),
        Ok(serde_json::Value::Array(vec![
            serde_json::Value::Number(1.into()),
            serde_json::Value::Null,
        ])),
    );
}

#[test]
fn stdout_json_handles_what_is_not_json() {
    assert_eq!(
        stdout_json("sh", wrote(b"{\"a\": ")),
        Err(error(
            "sh",
            Failure::DecodeFailure(DecodeFailure::InvalidJson {
                reason: "EOF while parsing a value at line 1 column 6".into(),
            }),
        )),
    );
    assert!(stdout_json("sh", wrote(b"")).is_err());
    assert!(stdout_json("sh", wrote(b"1 2")).is_err());
}

#[test]
fn json_worth_keeps_the_value_and_tells_the_error() {
    let value = serde_json::Value::Bool(true);
    assert_eq!(json_worth(Ok(value.clone())), Ok(value));
    let parsed = serde_json::from_str::<serde_json::Value>("[");
    assert_eq!(
        json_worth(parsed),
        Err(Failure::DecodeFailure(DecodeFailure::InvalidJson {
            reason: "EOF while parsing a list at line 1 column 1".into(),
        })),
    );
}

#[test]
fn shape_error_is_a_decode_failure() {
    let error = shape_error("docker", "missing field `Id`".into());
    assert_eq!(
        error,
        CommandError {
            command: "docker".into(),
            failure: Failure::DecodeFailure(DecodeFailure::InvalidJson {
                reason: "missing field `Id`".into(),
            }),
        },
    );
    assert_eq!(error.stage(), Stage::Decode);
}

#[test]
fn stdout_table_handles_invalid_program() {
    assert_eq!(
        stdout_table("\"\"", Err(no_program()), 3),
        Err(error("\"\"", Failure::SpawnFailure { reason: no_program() })),
    );
}

#[test]
fn stdout_table_handles_failure() {
    assert_eq!(
        stdout_table("sh", Ok(Output { status: failure(), stdout: b"1 2 3".to_vec() }), 3),
        Err(error("sh", Failure::NonZeroExit { status: "exit status: 1".into() })),
    );
}

#[test]
fn stdout_table_handles_success() {
    let expected: Vec<Vec<String>> = vec![
        vec!["13".into(), "a".into(), "b".into()],
        vec!["8".into(), "x".into(), "yz".into()],
    ];
    assert_eq!(stdout_table("sh", wrote(b"13 a  b\n 8 x\tyz"), 3), Ok(expected));
}

#[test]
fn stdout_table_names_the_misfit() {
    let outcome = stdout_table("sh", wrote(b"13 a b\n8 x"), 3);
    assert_eq!(
        outcome,
        Err(error(
            "sh",
            Failure::DecodeFailure(DecodeFailure::MisfitRow(Misfit {
                line_number: 2,
                expected: 3,
                found: 2,
                row: "8 x".into(),
            })),
        )),
    );
    assert_eq!(
        outcome.unwrap_err().chain(),
        vec![
            String::from("Unable to evaluate result of command: sh"),
            String::from("Unable to parse result line 2, expected 3 fields but got 2: \"8 x\""),
        ],
    );
}

#[test]
fn stdout_table_handles_what_is_not_text() {
    assert_eq!(
        stdout_table("sh", wrote(&[b'a', 0xFF, b'b']), 1),
        Err(error("sh", Failure::DecodeFailure(DecodeFailure::InvalidText))),
    );
}

#[test]
fn stdout_utf8_handles_invalid_program() {
    assert_eq!(
        stdout_utf8("\"\"", Err(no_program())),
        Err(error("\"\"", Failure::SpawnFailure { reason: no_program() })),
    );
}

#[test]
fn stdout_utf8_handles_failure() {
    assert_eq!(
        stdout_utf8("sh", Ok(Output { status: failure(), stdout: b"Hi".to_vec() })),
        Err(error("sh", Failure::NonZeroExit { status: "exit status: 1".into() })),
    );
}

#[test]
fn stdout_utf8_handles_success() {
    assert_eq!(stdout_utf8("sh", wrote(b"Hi")), Ok("Hi".into()));
    assert_eq!(stdout_utf8("sh", wrote("größer €".as_bytes())), Ok("größer €".into()));
    assert_eq!(stdout_utf8("sh", wrote(b"")), Ok("".into()));
}

#[test]
fn stdout_utf8_handles_what_is_not_text() {
    for bytes in [&[0xC3_u8][..], &[0xFF], &[b'a', 0x80], &[0xED, 0xA0, 0x80], &[0xC0, 0xAF]] {
        assert_eq!(
            stdout_utf8("sh", wrote(bytes)),
            Err(error("sh", Failure::DecodeFailure(DecodeFailure::InvalidText))),
        );
    }
}

#[test]
fn failure_of_the_process_comes_before_its_output() {
    assert_eq!(
        text_of_output(Output { status: failure(), stdout: vec![0xFF] }),
        Err(Failure::NonZeroExit { status: "exit status: 1".into() }),
    );
}

#[test]
fn status_error_carries_the_status() {
    assert_eq!(
        status_error(ExitStatus { success: false, description: "signal: 9 (SIGKILL)".into() }),
        Failure::NonZeroExit { status: "signal: 9 (SIGKILL)".into() },
    );
}

#[test]
fn go_evaluates_what_ran() {
    let doubled = go("double", Ok(21_u32), |value: u32| Ok::<u32, Failure>(value * 2));
    assert_eq!(doubled, Ok(42));
    let refused = go("refuse", Ok(21_u32), |_: u32| {
        Err::<u32, Failure>(Failure::NonZeroExit { status: "no".into() })
    });
    assert_eq!(refused, Err(error("refuse", Failure::NonZeroExit { status: "no".into() })));
    let not_run = go("absent", Err::<u32, String>("gone".into()), |value: u32| {
        Ok::<u32, Failure>(value)
    });
    assert_eq!(not_run, Err(error("absent", Failure::SpawnFailure { reason: "gone".into() })));
}

#[test]
fn stage_follows_the_failure() {
    assert_eq!(error("c", Failure::SpawnFailure { reason: "r".into() }).stage(), Stage::Spawn);
    assert_eq!(error("c", Failure::NonZeroExit { status: "s".into() }).stage(), Stage::Wait);
    assert_eq!(
        error("c", Failure::DecodeFailure(DecodeFailure::InvalidText)).stage(),
        Stage::Decode,
    );
}

#[test]
fn chain_tells_command_then_cause() {
    assert_eq!(
        error("\"docker\" \"ps\"", Failure::SpawnFailure { reason: no_program() }).chain(),
        vec![String::from("Unable to run command: \"docker\" \"ps\""), no_program()],
    );
    assert_eq!(
        error("sh", Failure::NonZeroExit { status: "exit status: 1".into() }).chain(),
        vec![
            String::from("Unable to evaluate result of command: sh"),
            String::from("exit status: 1"),
        ],
    );
    assert_eq!(
        error("sh", Failure::DecodeFailure(DecodeFailure::InvalidText)).chain(),
        vec![
            String::from("Unable to evaluate result of command: sh"),
            String::from("Stdout is not valid UTF-8"),
        ],
    );
    assert_eq!(
        error("sh", Failure::DecodeFailure(DecodeFailure::InvalidJson { reason: "why".into() }))
            .chain(),
        vec![
            String::from("Unable to evaluate result of command: sh"),
            String::from("Unable to deserialize JSON from stdout"),
            String::from("why"),
        ],
    );
}

#[test]
fn pipe_succeeds_if_both_sides_do() {
    assert_eq!(pipe("w", Ok(success()), "r", Ok(success())), Ok(()));
}

#[test]
fn pipe_fails_with_the_side_that_failed() {
    assert_eq!(
        pipe("w", Ok(failure()), "r", Ok(success())),
        Err(error("w", Failure::NonZeroExit { status: "exit status: 1".into() })),
    );
    assert_eq!(
        pipe("w", Ok(success()), "r", Ok(failure())),
        Err(error("r", Failure::NonZeroExit { status: "exit status: 1".into() })),
    );
    assert_eq!(
        pipe("w", Err(no_program()), "r", Ok(success())),
        Err(error("w", Failure::SpawnFailure { reason: no_program() })),
    );
    assert_eq!(
        pipe("w", Ok(success()), "r", Err(no_program())),
        Err(error("r", Failure::SpawnFailure { reason: no_program() })),
    );
    assert_eq!(
        pipe("w", Ok(failure()), "r", Err(no_program())),
        Err(error("w", Failure::NonZeroExit { status: "exit status: 1".into() })),
    );
}

#[test]
fn feed_stdin_fails_on_spawn_or_exit() {
    assert_eq!(
        feed_stdin("cat", Ok(()), Err(no_program())),
        Err(error("cat", Failure::SpawnFailure { reason: no_program() })),
    );
    assert_eq!(
        feed_stdin("cat", Ok(()), Ok(failure())),
        Err(error("cat", Failure::NonZeroExit { status: "exit status: 1".into() })),
    );
    assert_eq!(
        feed_stdin("cat", Err("Broken pipe".into()), Ok(failure())),
        Err(error("cat", Failure::NonZeroExit { status: "exit status: 1".into() })),
    );
}

#[test]
fn feed_stdin_hands_on_how_the_feeding_went() {
    assert_eq!(feed_stdin("cat", Ok(()), Ok(success())), Ok(Fed { write_failure: None }));
    assert_eq!(
        feed_stdin("true", Err("Broken pipe".into()), Ok(success())),
        Ok(Fed { write_failure: Some("Broken pipe".into()) }),
    );
}
