use std::io::ErrorKind;

use carbide_scout::backoff::RetryFactor;
use carbide_scout::cmd::{CmdError, CommandSpec};
use carbide_scout::exec::{
    AttemptEvent, AttemptStep, CommandExecutionOptions, CommandExecutor, RunEvent, RunStep,
};
use carbide_scout::io_error::IoError;
use carbide_scout::process::{ExitStatus, ProcessOutput};
use carbide_scout::time::Duration;

fn factor(text: &str) -> RetryFactor {
    RetryFactor::from_text(text).expect("the text is a number")
}

fn output(code: Option<i32>, stdout: &[u8], stderr: &[u8]) -> ProcessOutput {
    ProcessOutput {
        status: ExitStatus { code },
        stdout: stdout.to_vec(),
        stderr: stderr.to_vec(),
    }
}

fn not_found(message: &str) -> IoError {
    IoError::new(ErrorKind::NotFound, message.to_string())
}

/// What the process of a command does when it is run.
enum Process {
    Ends(ProcessOutput),
    RunsOn,
    CannotStart(&'static str),
}

/// Runs a command whose every attempt meets the next of these processes, and
/// gives the waits in between and the result.
fn run_with(
    executor: &CommandExecutor<'_>,
    spec: &CommandSpec,
    processes: Vec<Process>,
) -> (Vec<Duration>, Result<ProcessOutput, CmdError>) {
    let mut waits = Vec::new();
    let mut processes = processes.into_iter();
    let mut current = None;
    let mut run = executor.execute_with_retry();
    loop {
        let event = match &run.step {
            RunStep::Attempt(AttemptStep::Spawn) => {
                match processes.next().expect("one process for each attempt") {
                    Process::CannotStart(reason) => {
                        RunEvent::Attempt(AttemptEvent::Failed(not_found(reason)))
                    }
                    process => {
                        current = Some(process);
                        RunEvent::Attempt(AttemptEvent::Spawned)
                    }
                }
            }
            RunStep::Attempt(AttemptStep::Wait(_)) => match current.as_ref().unwrap() {
                Process::Ends(output) => RunEvent::Attempt(AttemptEvent::Exited(output.status)),
                _ => RunEvent::Attempt(AttemptEvent::TimedOut),
            },
            RunStep::Attempt(AttemptStep::ReadStdout(_)) => match current.as_ref().unwrap() {
                Process::Ends(output) => {
                    RunEvent::Attempt(AttemptEvent::Read(output.stdout.clone()))
                }
                _ => unreachable!(),
            },
            RunStep::Attempt(AttemptStep::ReadStderr(_, _)) => match current.as_ref().unwrap() {
                Process::Ends(output) => {
                    RunEvent::Attempt(AttemptEvent::Read(output.stderr.clone()))
                }
                _ => unreachable!(),
            },
            RunStep::Attempt(AttemptStep::Collect) => match current.take().unwrap() {
                Process::Ends(output) => RunEvent::Attempt(AttemptEvent::Collected(output)),
                _ => unreachable!(),
            },
            RunStep::Attempt(AttemptStep::Kill(_)) => RunEvent::Attempt(AttemptEvent::Killed),
            RunStep::Attempt(AttemptStep::Done(_)) => unreachable!(),
            RunStep::Sleep { delay, .. } => {
                waits.push(*delay);
                RunEvent::Slept
            }
            RunStep::Done(_) => break,
        };
        run = executor.advance(spec, run, event);
    }
    match run.step {
        RunStep::Done(result) => (waits, result),
        _ => unreachable!(),
    }
}

fn run_once(
    executor: &CommandExecutor<'_>,
    spec: &CommandSpec,
    process: Process,
) -> Result<ProcessOutput, CmdError> {
    let (waits, result) = run_with(executor, spec, vec![process]);
    assert!(waits.is_empty());
    result
}

#[test]
fn command_spec_displays_program_and_args() {
    assert_eq!(CommandSpec::new("echo").to_string(), "echo");
    assert_eq!(
        CommandSpec::new("echo").args(&["hello", "world"]).to_string(),
        "echo hello world"
    );
}

#[test]
fn command_executor_runs_successful_spec() {
    let options = CommandExecutionOptions::new()
        .with_timeout(Some(Duration::from_secs(5)))
        .with_retries(0);
    let executor = CommandExecutor { options: &options };
    let spec = CommandSpec::new("echo").arg("hello");

    let output = run_once(&executor, &spec, Process::Ends(output(Some(0), b"hello\n", b""))).unwrap();

    assert!(output.status.success());
    assert_eq!(String::from_utf8_lossy(&output.stdout).trim(), "hello");
}

#[test]
fn command_executor_reports_failure_details() {
    let options = CommandExecutionOptions::new()
        .with_timeout(Some(Duration::from_secs(5)))
        .with_retries(0);
    let executor = CommandExecutor { options: &options };
    let spec = CommandSpec::new("sh").args(&["-c", "printf stdout; printf stderr >&2; exit 7"]);

    let error = run_once(
        &executor,
        &spec,
        Process::Ends(output(Some(7), b"stdout", b"stderr")),
    )
    .unwrap_err();

    match error {
        CmdError::CommandExecution {
            command,
            exit_code,
            stdout,
            stderr,
        } => {
            assert_eq!(command, "sh -c printf stdout; printf stderr >&2; exit 7");
            assert_eq!(exit_code, Some(7));
            assert_eq!(stdout, "stdout");
            assert_eq!(stderr, "stderr");
        }
        other => panic!("expected command execution error, got {other:?}"),
    }
}

#[test]
fn command_executor_reports_timeout() {
    let options = CommandExecutionOptions::new()
        .with_timeout(Some(Duration::from_millis(50)))
        .with_retries(0);
    let executor = CommandExecutor { options: &options };
    let spec = CommandSpec::new("sleep").arg("1");

    let error = run_once(&executor, &spec, Process::RunsOn).unwrap_err();

    match error {
        CmdError::Timeout { command, duration } => {
            assert_eq!(command, "sleep 1");
            assert_eq!(duration, Duration::from_millis(50));
        }
        other => panic!("expected timeout error, got {other:?}"),
    }
}

#[test]
fn default_options_are_as_documented() {
    let options = CommandExecutionOptions::default();
    assert_eq!(options.timeout, Some(Duration::from_secs(30)));
    assert_eq!(options.retries, 3);
    assert_eq!(options.retry_delay, Duration::from_millis(500));
    assert_eq!(options.max_retry_delay, Duration::from_secs(60));
    assert_eq!(options.retry_multiplier.as_str().parse(), Ok(2.0f32));
    assert!(!options.verbose);
}

#[test]
fn builders_change_one_option_each() {
    let options = CommandExecutionOptions::new()
        .with_retry_delay(Duration::from_millis(10))
        .with_max_retry_delay(Duration::from_millis(40))
        .with_retry_multiplier(factor("1.5"))
        .with_verbose(true);
    assert_eq!(options.retry_delay, Duration::from_millis(10));
    assert_eq!(options.max_retry_delay, Duration::from_millis(40));
    assert_eq!(options.retry_multiplier.as_str(), "1.5");
    assert!(options.verbose);
    assert_eq!(options.timeout, Some(Duration::from_secs(30)));
    assert_eq!(options.retries, 3);
}

#[test]
fn waits_double_from_the_retry_delay() {
    let options = CommandExecutionOptions::new().with_retries(4);
    let executor = CommandExecutor { options: &options };
    let spec = CommandSpec::new("false");
    let failures = (0..5).map(|_| Process::Ends(output(Some(1), b"", b""))).collect();

    let (waits, result) = run_with(&executor, &spec, failures);

    assert_eq!(
        waits,
        vec![
            Duration::from_millis(500),
            Duration::from_secs(1),
            Duration::from_secs(2),
            Duration::from_secs(4),
        ]
    );
    assert!(matches!(
        result,
        Err(CmdError::CommandExecution { exit_code: Some(1), .. })
    ));
}

#[test]
fn waits_stay_within_the_longest() {
    let options = CommandExecutionOptions::new()
        .with_retries(3)
        .with_retry_delay(Duration::from_secs(1))
        .with_max_retry_delay(Duration::from_secs(3))
        .with_retry_multiplier(factor("2.5"));
    let executor = CommandExecutor { options: &options };
    let spec = CommandSpec::new("false");
    let failures = (0..4).map(|_| Process::RunsOn).collect();

    let (waits, _) = run_with(&executor, &spec, failures);

    assert_eq!(
        waits,
        vec![
            Duration::from_secs(1),
            Duration::from_millis(2500),
            Duration::from_secs(3),
        ]
    );
}

#[test]
fn the_first_wait_may_be_longer_than_the_longest() {
    let options = CommandExecutionOptions::new()
        .with_retries(2)
        .with_retry_delay(Duration::from_secs(9))
        .with_max_retry_delay(Duration::from_secs(3));
    let executor = CommandExecutor { options: &options };
    let spec = CommandSpec::new("false");
    let failures = (0..3).map(|_| Process::RunsOn).collect();

    let (waits, _) = run_with(&executor, &spec, failures);

    assert_eq!(waits, vec![Duration::from_secs(9), Duration::from_secs(3)]);
}

#[test]
fn a_factor_is_a_number() {
    for text in ["0", "2", "1.5", "10.25", "-1", "1e3", "inf", "NaN", ".5"] {
        assert_eq!(factor(text).as_str(), text);
    }
    for text in ["", "twice", "1,5", "0x2", "1.5 "] {
        assert!(RetryFactor::from_text(text).is_none(), "{text:?}");
    }
    for value in [2.0f32, 0.1, f32::MAX, f32::MIN_POSITIVE, f32::NEG_INFINITY] {
        assert_eq!(factor(&value.to_string()).as_str().parse(), Ok(value));
    }
    assert_eq!(RetryFactor::two().clone().as_str(), "2");
}

#[test]
fn a_command_that_recovers_is_not_tried_further() {
    let options = CommandExecutionOptions::new();
    let executor = CommandExecutor { options: &options };
    let spec = CommandSpec::new("flaky");

    let (waits, result) = run_with(
        &executor,
        &spec,
        vec![
            Process::CannotStart("No such file or directory (os error 2)"),
            Process::RunsOn,
            Process::Ends(output(Some(0), b"ok", b"")),
        ],
    );

    assert_eq!(waits, vec![Duration::from_millis(500), Duration::from_secs(1)]);
    assert_eq!(result.unwrap(), output(Some(0), b"ok", b""));
}

#[test]
fn without_a_limit_the_output_is_collected() {
    let options = CommandExecutionOptions::new().with_timeout(None).with_retries(0);
    let executor = CommandExecutor { options: &options };
    let spec = CommandSpec::new("true");

    let result = run_once(&executor, &spec, Process::Ends(output(Some(0), b"a", b"b")));
    assert_eq!(result.unwrap(), output(Some(0), b"a", b"b"));

    let killed = run_once(&executor, &spec, Process::Ends(output(None, b"a", b"b")));
    assert!(matches!(
        killed,
        Err(CmdError::CommandExecution { exit_code: None, .. })
    ));
}

#[test]
fn an_error_of_the_system_names_the_command() {
    let options = CommandExecutionOptions::new().with_retries(0);
    let executor = CommandExecutor { options: &options };
    let spec = CommandSpec::new("missing").arg("-x");

    let error = run_once(&executor, &spec, Process::CannotStart("not found")).unwrap_err();

    assert_eq!(error.to_string(), "I/O error running missing -x: not found");

    for step in [
        AttemptStep::Wait(Duration::from_secs(1)),
        AttemptStep::Collect,
        AttemptStep::ReadStdout(ExitStatus { code: Some(0) }),
        AttemptStep::ReadStderr(ExitStatus { code: Some(0) }, vec![1]),
    ] {
        let next = executor.execute_single_attempt(
            &spec,
            step,
            AttemptEvent::Failed(IoError::new(ErrorKind::BrokenPipe, "broken pipe".to_string())),
        );
        match next {
            AttemptStep::Done(Err(CmdError::CommandIo { command, source })) => {
                assert_eq!(command, "missing -x");
                assert_eq!(source.kind(), ErrorKind::BrokenPipe);
                assert_eq!(source.to_string(), "broken pipe");
            }
            _ => panic!("expected an I/O error"),
        }
    }
}

#[test]
fn a_process_that_cannot_be_killed_timed_out_all_the_same() {
    let options = CommandExecutionOptions::new();
    let executor = CommandExecutor { options: &options };
    let spec = CommandSpec::new("sleep");
    let next = executor.execute_single_attempt(
        &spec,
        AttemptStep::Kill(Duration::from_secs(30)),
        AttemptEvent::Failed(not_found("no such process")),
    );
    assert!(matches!(
        next,
        AttemptStep::Done(Err(CmdError::Timeout { .. }))
    ));
}

#[test]
fn events_of_another_step_change_nothing() {
    let options = CommandExecutionOptions::new();
    let executor = CommandExecutor { options: &options };
    let spec = CommandSpec::new("x");
    let next = executor.execute_single_attempt(&spec, AttemptStep::Spawn, AttemptEvent::TimedOut);
    assert!(matches!(next, AttemptStep::Spawn));
    let run = executor.execute_with_retry();
    let run = executor.advance(&spec, run, RunEvent::Slept);
    assert!(matches!(run.step, RunStep::Attempt(AttemptStep::Spawn)));
}

#[test]
fn a_finished_attempt_keeps_its_result() {
    let options = CommandExecutionOptions::new();
    let executor = CommandExecutor { options: &options };
    let spec = CommandSpec::new("x");
    let done = AttemptStep::Done(Ok(output(Some(0), b"kept", b"")));
    let next = executor.execute_single_attempt(&spec, done, AttemptEvent::Failed(not_found("late")));
    match next {
        AttemptStep::Done(Ok(kept)) => assert_eq!(kept.stdout, b"kept".to_vec()),
        _ => panic!("expected the result to stay"),
    }
}

#[test]
fn only_passing_errors_are_retried() {
    let options = CommandExecutionOptions::new();
    let executor = CommandExecutor { options: &options };
    let text = || "x".to_string();
    assert!(executor.should_retry_error(&CmdError::CommandExecution {
        command: text(),
        exit_code: Some(1),
        stdout: text(),
        stderr: text(),
    }));
    assert!(executor.should_retry_error(&CmdError::Timeout {
        command: text(),
        duration: Duration::from_secs(1),
    }));
    assert!(executor.should_retry_error(&CmdError::CommandIo {
        command: text(),
        source: not_found("x"),
    }));
    assert!(executor.should_retry_error(&CmdError::RunError(text(), text())));
    assert!(executor.should_retry_error(&CmdError::TokioRunError(text(), text())));
    assert!(!executor.should_retry_error(&CmdError::InvalidRetry(0, text())));
    assert!(!executor.should_retry_error(&CmdError::Subprocess(text(), vec![], text())));
    assert!(!executor.should_retry_error(&CmdError::OutputParse(text(), vec![])));
}

#[test]
fn an_error_not_worth_a_retry_ends_the_command() {
    let options = CommandExecutionOptions::new();
    let executor = CommandExecutor { options: &options };
    let parse = CmdError::OutputParse("x".to_string(), vec![]);
    let step = executor.after_attempt(Err(parse), Some(Duration::from_secs(1)));
    assert!(matches!(step, RunStep::Done(Err(CmdError::OutputParse(_, _)))));

    let run_error = CmdError::RunError("x".to_string(), "y".to_string());
    let step = executor.after_attempt(Err(run_error), Some(Duration::from_secs(1)));
    assert!(matches!(step, RunStep::Sleep { .. }));

    let run_error = CmdError::RunError("x".to_string(), "y".to_string());
    let step = executor.after_attempt(Err(run_error), None);
    assert!(matches!(step, RunStep::Done(Err(CmdError::RunError(_, _)))));
}

#[test]
fn every_error_says_what_happened() {
    let s = |text: &str| text.to_string();
    assert_eq!(
        CmdError::InvalidRetry(0, s("ls ")).to_string(),
        "Invalid retry value 0 for ls "
    );
    assert_eq!(
        CmdError::Subprocess(s("ls"), vec![s("-l"), s("a \"b\"\n")], s("boom")).to_string(),
        "Subprocess ls with arguments [\"-l\", \"a \\\"b\\\"\\n\"] failed with output: boom"
    );
    assert_eq!(
        CmdError::CommandExecution {
            command: s("ls"),
            exit_code: Some(-2),
            stdout: s("out"),
            stderr: s("err"),
        }
        .to_string(),
        "Command execution failed: ls\nExit code: Some(-2)\nStdout: out\nStderr: err"
    );
    assert_eq!(
        CmdError::CommandExecution {
            command: s("ls"),
            exit_code: None,
            stdout: s(""),
            stderr: s(""),
        }
        .to_string(),
        "Command execution failed: ls\nExit code: None\nStdout: \nStderr: "
    );
    assert_eq!(
        CmdError::Timeout {
            command: s("sleep 1"),
            duration: Duration::from_millis(1500),
        }
        .to_string(),
        "Command timed out after 1.5s: sleep 1"
    );
    assert_eq!(
        CmdError::OutputParse(s("ls"), vec![]).to_string(),
        "Command ls with args [] produced output that is not valid UTF8"
    );
    assert_eq!(
        CmdError::RunError(s("ls "), s("gone")).to_string(),
        "Error running 'ls ': gone"
    );
    assert_eq!(
        CmdError::TokioRunError(s("ls "), s("gone")).to_string(),
        "Error async running 'ls ': gone"
    );
}

#[test]
fn a_failed_process_is_quoted_by_its_standard_error() {
    let spec = CommandSpec::new("tool").arg("a");
    let error = CmdError::subprocess_error(&spec, &output(Some(1), b"out", b"err"));
    assert_eq!(
        error.to_string(),
        "Subprocess tool with arguments [\"a\"] failed with output: err"
    );
    let error = CmdError::subprocess_error(&spec, &output(Some(1), b"out\xff", b""));
    assert_eq!(
        error.to_string(),
        "Subprocess tool with arguments [\"a\"] failed with output: out\u{fffd}"
    );
    let error = CmdError::output_parse_error(&spec);
    assert_eq!(
        error.to_string(),
        "Command tool with args [\"a\"] produced output that is not valid UTF8"
    );
}

#[test]
fn reports_follow_the_run() {
    let options = CommandExecutionOptions::new().with_verbose(true);
    let executor = CommandExecutor { options: &options };
    let spec = CommandSpec::new("echo").arg("hi");
    assert_eq!(
        executor.start_notices(&spec, "2.0"),
        vec![
            "[EXEC] Executing command with timeout and retry: echo hi".to_string(),
            "[EXEC] Retry config: 4 attempts, 2.0x multiplier, 500ms initial delay, 60s max delay"
                .to_string(),
        ]
    );
    let elapsed = Duration::from_millis(2300);
    let notice = |step: RunStep| executor.notice(&step, elapsed);
    let status = ExitStatus { code: Some(0) };
    assert_eq!(
        notice(RunStep::Attempt(AttemptStep::Wait(Duration::from_secs(30)))),
        Some("[TIMEOUT] Waiting for command with timeout: 30s".to_string())
    );
    assert_eq!(
        notice(RunStep::Attempt(AttemptStep::ReadStdout(status))),
        Some("[TIMEOUT] Command completed in 2s".to_string())
    );
    assert_eq!(
        notice(RunStep::Attempt(AttemptStep::Kill(Duration::from_secs(30)))),
        Some("[TIMEOUT] Command timed out after 2s, killing process".to_string())
    );
    assert_eq!(notice(RunStep::Attempt(AttemptStep::Spawn)), None);
    assert_eq!(
        notice(RunStep::Sleep {
            delay: Duration::from_millis(500),
            error: CmdError::RunError("echo hi".to_string(), "gone".to_string()),
        }),
        Some("[RETRY] Retrying after 500ms due to error: Error running 'echo hi': gone".to_string())
    );
    assert_eq!(
        notice(RunStep::Done(Ok(output(Some(0), b"", b"")))),
        Some("[EXEC] Command completed successfully".to_string())
    );
    assert_eq!(
        notice(RunStep::Done(Err(CmdError::RunError(
            "echo hi".to_string(),
            "gone".to_string()
        )))),
        Some(
            "[EXEC] Command failed after all retries: Error running 'echo hi': gone".to_string()
        )
    );
}

#[test]
fn without_verbose_nothing_is_reported() {
    let options = CommandExecutionOptions::new();
    let executor = CommandExecutor { options: &options };
    let spec = CommandSpec::new("echo");
    assert!(executor.start_notices(&spec, "2.0").is_empty());
    let step = RunStep::Done(Ok(output(Some(0), b"", b"")));
    assert_eq!(executor.notice(&step, Duration::from_secs(1)), None);
}

#[test]
fn a_finished_run_keeps_its_result() {
    let options = CommandExecutionOptions::new().with_retries(0);
    let executor = CommandExecutor { options: &options };
    let spec = CommandSpec::new("x");
    let run = executor.execute_with_retry();
    let failed = AttemptEvent::Failed(not_found("gone"));
    let run = executor.advance(&spec, run, RunEvent::Attempt(failed));
    let run = executor.advance(&spec, run, RunEvent::Slept);
    let run = executor.advance(&spec, run, RunEvent::Attempt(AttemptEvent::Spawned));
    assert!(matches!(run.step, RunStep::Done(Err(CmdError::CommandIo { .. }))));
}

#[test]
fn an_attempt_can_only_end_in_errors_that_are_retried() {
    let options = CommandExecutionOptions::new();
    let executor = CommandExecutor { options: &options };
    let spec = CommandSpec::new("x");
    for process in [
        Process::Ends(output(Some(1), b"", b"")),
        Process::Ends(output(None, b"", b"")),
        Process::RunsOn,
        Process::CannotStart("gone"),
    ] {
        let once = CommandExecutionOptions::new().with_retries(0);
        let error = run_once(&CommandExecutor { options: &once }, &spec, process).unwrap_err();
        assert!(executor.should_retry_error(&error));
    }
}

#[test]
fn a_program_that_does_not_exist_is_not_found() {
    let options = CommandExecutionOptions::new();
    let executor = CommandExecutor { options: &options };
    let spec = CommandSpec::new("/nonexistent/prog").arg("x");
    let step = executor.execute_single_attempt(
        &spec,
        AttemptStep::Spawn,
        AttemptEvent::Failed(not_found("No such file or directory (os error 2)")),
    );
    match step {
        AttemptStep::Done(Err(CmdError::CommandIo { command, source })) => {
            assert_eq!(command, "/nonexistent/prog x");
            assert_eq!(source.kind(), ErrorKind::NotFound);
        }
        _ => panic!("the program does not exist"),
    }
}

#[test]
fn options_can_be_copied() {
    let options = CommandExecutionOptions::new().with_retries(9).with_retry_multiplier(factor("3"));
    let copy = options.clone();
    assert_eq!(copy.retries, 9);
    assert_eq!(copy.retry_multiplier.as_str(), "3");
    assert_eq!(format!("{copy:?}"), format!("{options:?}"));
}
