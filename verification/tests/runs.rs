use carbide_scout::cmd::CmdError;
use carbide_scout::process::{ExitStatus, ProcessOutput};
use carbide_scout::run::{
    pause_between_attempts, Cmd, CmdOutput, OutputEvent, OutputStep, TimedEvent, TimedStep, TokioCmd,
};
use carbide_scout::time::{Duration, SystemTime};

fn output(code: Option<i32>, stdout: &[u8], stderr: &[u8]) -> ProcessOutput {
    ProcessOutput {
        status: ExitStatus { code },
        stdout: stdout.to_vec(),
        stderr: stderr.to_vec(),
    }
}

type Run = Result<ProcessOutput, String>;

fn foreground(cmd: &Cmd, runs: Vec<Run>) -> (usize, Result<String, CmdError>) {
    let mut runs = runs.into_iter();
    let mut made = 0;
    let mut step = cmd.output();
    loop {
        let event = match &step {
            OutputStep::Run(_) => {
                made += 1;
                match runs.next().expect("one outcome for each run") {
                    Ok(output) => OutputEvent::Ran(output),
                    Err(reason) => OutputEvent::Failed(reason),
                }
            }
            OutputStep::Pause(_, _) => OutputEvent::Paused,
            OutputStep::Done(_) => break,
        };
        step = cmd.output_step(step, event);
    }
    match step {
        OutputStep::Done(result) => (made, result),
        _ => unreachable!(),
    }
}

fn background(cmd: &TokioCmd, runs: Vec<Run>) -> (usize, Result<String, CmdError>) {
    let mut runs = runs.into_iter();
    let mut made = 0;
    let mut step = cmd.output();
    loop {
        let event = match &step {
            OutputStep::Run(_) => {
                made += 1;
                match runs.next().expect("one outcome for each run") {
                    Ok(output) => OutputEvent::Ran(output),
                    Err(reason) => OutputEvent::Failed(reason),
                }
            }
            OutputStep::Pause(_, _) => OutputEvent::Paused,
            OutputStep::Done(_) => break,
        };
        step = cmd.output_step(step, event);
    }
    match step {
        OutputStep::Done(result) => (made, result),
        _ => unreachable!(),
    }
}

fn timed(cmd: &TokioCmd, events: Vec<TimedEvent>) -> (usize, Result<CmdOutput, CmdError>) {
    let start = SystemTime::new(100, 0);
    let end = SystemTime::new(105, 0);
    let mut events = events.into_iter();
    let mut made = 0;
    let mut step = cmd.output_with_timeout();
    loop {
        let event = match &step {
            TimedStep::Run(_, limit) => {
                assert_eq!(*limit, cmd.time_limit());
                made += 1;
                events.next().expect("one outcome for each run")
            }
            TimedStep::Pause(_, _) => TimedEvent::Paused,
            _ => break,
        };
        step = cmd.timed_step(step, event);
    }
    match step {
        TimedStep::Over(last) => (made, cmd.timed_output(last, start, end)),
        TimedStep::Failed(error) => (made, Err(error)),
        _ => unreachable!(),
    }
}

#[test]
fn a_new_command_runs_once() {
    let cmd = Cmd::new("ls");
    assert_eq!(cmd.attempts, 1);
    assert!(!cmd.ignore_return);
    assert_eq!(cmd.pretty_cmd(), "ls ");
    let cmd = TokioCmd::new("ls");
    assert_eq!(cmd.attempts, 1);
    assert_eq!(cmd.timeout, 3600);
    assert_eq!(cmd.time_limit(), Duration::from_secs(3600));
    assert_eq!(cmd.pretty_cmd(), "ls ");
    assert_eq!(pause_between_attempts(), Duration::from_millis(100));
}

#[test]
fn builders_of_a_command_keep_the_rest() {
    let cmd = Cmd::new("ls")
        .args(&["-l", "/"])
        .env("LANG", "C")
        .env("TZ", "UTC")
        .attempts(4)
        .ignore_return(true);
    assert_eq!(cmd.pretty_cmd(), "ls -l /");
    assert_eq!(
        cmd.envs,
        vec![
            ("LANG".to_string(), "C".to_string()),
            ("TZ".to_string(), "UTC".to_string())
        ]
    );
    assert_eq!(cmd.attempts, 4);
    assert!(cmd.ignore_return);
    let cmd = TokioCmd::new("ls")
        .args(&["-l"])
        .env("LANG", "C")
        .attempts(2)
        .timeout(9);
    assert_eq!(cmd.pretty_cmd(), "ls -l");
    assert_eq!(cmd.envs, vec![("LANG".to_string(), "C".to_string())]);
    assert_eq!(cmd.attempts, 2);
    assert_eq!(cmd.timeout, 9);
    assert_eq!(cmd.time_limit(), Duration::from_secs(9));
}

#[test]
fn the_background_makes_no_difference_but_for_one_error() {
    let failed = || Ok(output(Some(3), b"", b"no"));
    let cases: Vec<(u32, Vec<Run>)> = vec![
        (2, vec![failed(), Ok(output(Some(0), b"yes", b""))]),
        (2, vec![failed(), failed()]),
        (1, vec![Ok(output(Some(0), b"\xff", b""))]),
        (0, vec![]),
    ];
    let again: Vec<(u32, Vec<Run>)> = vec![
        (2, vec![failed(), Ok(output(Some(0), b"yes", b""))]),
        (2, vec![failed(), failed()]),
        (1, vec![Ok(output(Some(0), b"\xff", b""))]),
        (0, vec![]),
    ];
    for ((attempts, runs), (_, same_runs)) in cases.into_iter().zip(again) {
        let (made, result) = foreground(&Cmd::new("ls").attempts(attempts), runs);
        let (made_too, result_too) = background(&TokioCmd::new("ls").attempts(attempts), same_runs);
        assert_eq!(made, made_too);
        match (result, result_too) {
            (Ok(text), Ok(text_too)) => assert_eq!(text, text_too),
            (Err(error), Err(error_too)) => assert_eq!(error.to_string(), error_too.to_string()),
            _ => panic!("one succeeds and the other fails"),
        }
    }
    let (_, result) = foreground(&Cmd::new("ls"), vec![Err("gone".to_string())]);
    assert!(matches!(result, Err(CmdError::RunError(line, reason)) if line == "ls " && reason == "gone"));
    let (_, result) = background(&TokioCmd::new("ls"), vec![Err("gone".to_string())]);
    assert!(matches!(result, Err(CmdError::TokioRunError(line, reason)) if line == "ls " && reason == "gone"));
}

#[test]
fn output_is_that_of_the_first_success() {
    let cmd = Cmd::new("ls").attempts(3);
    let (made, result) = foreground(
        &cmd,
        vec![
            Ok(output(Some(1), b"no", b"")),
            Ok(output(Some(0), "gr\u{fc}n".as_bytes(), b"")),
        ],
    );
    assert_eq!(made, 2);
    assert_eq!(result.unwrap(), "gr\u{fc}n");
}

#[test]
fn output_of_failures_quotes_the_last() {
    let cmd = Cmd::new("ls").args(&["x"]).attempts(2);
    let (made, result) = foreground(
        &cmd,
        vec![
            Ok(output(Some(1), b"first", b"")),
            Ok(output(Some(2), b"", b"second")),
        ],
    );
    assert_eq!(made, 2);
    assert_eq!(
        result.unwrap_err().to_string(),
        "Subprocess ls with arguments [\"x\"] failed with output: second"
    );
}

#[test]
fn no_attempts_is_an_error() {
    let (made, result) = foreground(&Cmd::new("ls").attempts(0), vec![]);
    assert_eq!(made, 0);
    assert_eq!(
        result.unwrap_err().to_string(),
        "Invalid retry value 0 for ls "
    );
    let (made, result) = background(&TokioCmd::new("ls").attempts(0), vec![]);
    assert_eq!(made, 0);
    assert_eq!(
        result.unwrap_err().to_string(),
        "Invalid retry value 0 for ls "
    );
    let (made, result) = timed(&TokioCmd::new("ls").attempts(0), vec![]);
    assert_eq!(made, 0);
    assert!(matches!(result, Err(CmdError::InvalidRetry(0, _))));
}

#[test]
fn an_ignored_return_is_taken_at_once() {
    let cmd = Cmd::new("ls").attempts(5).ignore_return(true);
    let (made, result) = foreground(&cmd, vec![Ok(output(Some(3), b"anyway", b""))]);
    assert_eq!(made, 1);
    assert_eq!(result.unwrap(), "anyway");
}

#[test]
fn a_command_that_cannot_run_is_not_tried_again() {
    let (made, result) = foreground(&Cmd::new("ls").attempts(3), vec![Err("gone".to_string())]);
    assert_eq!(made, 1);
    assert_eq!(result.unwrap_err().to_string(), "Error running 'ls ': gone");
    let (made, result) = background(
        &TokioCmd::new("ls").attempts(3),
        vec![Err("gone".to_string())],
    );
    assert_eq!(made, 1);
    assert_eq!(
        result.unwrap_err().to_string(),
        "Error async running 'ls ': gone"
    );
}

#[test]
fn output_that_is_not_text_is_an_error() {
    let (_, result) = foreground(&Cmd::new("ls"), vec![Ok(output(Some(0), b"\xc3", b""))]);
    assert!(matches!(result, Err(CmdError::OutputParse(_, _))));
    let (_, result) = background(&TokioCmd::new("ls"), vec![Ok(output(Some(0), b"\xff", b""))]);
    assert!(matches!(result, Err(CmdError::OutputParse(_, _))));
}

#[test]
fn background_output_is_that_of_the_last_run() {
    let cmd = TokioCmd::new("ls").attempts(2);
    let (made, result) = background(
        &cmd,
        vec![
            Ok(output(None, b"a", b"")),
            Ok(output(Some(0), b"b", b"")),
        ],
    );
    assert_eq!(made, 2);
    assert_eq!(result.unwrap(), "b");
    let (_, result) = background(
        &TokioCmd::new("ls"),
        vec![Ok(output(Some(1), b"only out", b""))],
    );
    assert_eq!(
        result.unwrap_err().to_string(),
        "Subprocess ls with arguments [] failed with output: only out"
    );
}

#[test]
fn timed_output_holds_both_streams_and_the_times() {
    let cmd = TokioCmd::new("ls").attempts(3);
    let (made, result) = timed(
        &cmd,
        vec![
            TimedEvent::Ran(output(Some(4), b"no", b"no")),
            TimedEvent::Ran(output(Some(0), b"out", b"err")),
        ],
    );
    assert_eq!(made, 2);
    let result = result.unwrap();
    assert_eq!(result.stdout, "out");
    assert_eq!(result.stderr, "err");
    assert_eq!(result.exit_code, 0);
    assert_eq!(result.start_time, SystemTime::new(100, 0));
    assert_eq!(result.end_time, SystemTime::new(105, 0));
}

#[test]
fn timed_output_of_failures_is_no_error() {
    let cmd = TokioCmd::new("ls").attempts(2);
    let (made, result) = timed(
        &cmd,
        vec![
            TimedEvent::Ran(output(Some(4), b"one", b"")),
            TimedEvent::Ran(output(None, b"two", b"")),
        ],
    );
    assert_eq!(made, 2);
    let result = result.unwrap();
    assert_eq!(result.stdout, "two");
    assert_eq!(result.exit_code, 0);
    let (_, result) = timed(
        &TokioCmd::new("ls"),
        vec![TimedEvent::Ran(output(Some(4), b"", b""))],
    );
    assert_eq!(result.unwrap().exit_code, 4);
}

#[test]
fn timed_output_tells_its_errors_apart() {
    let cmd = TokioCmd::new("ls").attempts(2);
    let (made, result) = timed(&cmd, vec![TimedEvent::SpawnFailed("gone".to_string())]);
    assert_eq!(made, 1);
    assert_eq!(result.err().unwrap().to_string(), "Error running 'ls ': gone");
    let (made, result) = timed(
        &cmd,
        vec![TimedEvent::WaitFailed("deadline has elapsed".to_string())],
    );
    assert_eq!(made, 1);
    assert_eq!(
        result.err().unwrap().to_string(),
        "Error async running 'ls ': deadline has elapsed"
    );
    for bad in [output(Some(0), b"\xff", b""), output(Some(0), b"", b"\xff")] {
        let (_, result) = timed(&cmd, vec![TimedEvent::Ran(bad)]);
        assert!(matches!(result, Err(CmdError::OutputParse(_, _))));
    }
}
