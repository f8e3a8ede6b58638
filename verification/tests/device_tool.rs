use std::io::ErrorKind;

use carbide_scout::cmd::{CmdError, CommandSpec};
use carbide_scout::exec::CommandExecutionOptions;
use carbide_scout::host_logging::env_filter;
use carbide_scout::io_error::IoError;
use carbide_scout::mlx_executor::{trim, CommandExecutor, ExecOptions, MlxRunnerError};
use carbide_scout::time::Duration;

fn broken(message: &str) -> IoError {
    IoError::new(ErrorKind::BrokenPipe, message.to_string())
}

fn options(verbose: bool) -> ExecOptions {
    ExecOptions {
        command: CommandExecutionOptions::new().with_retries(7),
        verbose,
        dry_run: true,
    }
}

#[test]
fn lasting_errors_are_not_retried() {
    let options = options(false);
    let executor = CommandExecutor { options: &options };
    let s = || "x".to_string();
    for error in [
        MlxRunnerError::VariableNotFound { variable: s() },
        MlxRunnerError::ArraySizeMismatch { variable: s() },
        MlxRunnerError::ValueConversion { variable: s() },
        MlxRunnerError::InvalidArrayIndex { variable: s() },
        MlxRunnerError::DeviceMismatch { device: s() },
        MlxRunnerError::NoDeviceFound,
        MlxRunnerError::ConfirmationDeclined { variables: vec![s()] },
        MlxRunnerError::JsonParsing { content: s() },
    ] {
        assert!(!executor.should_retry_error(&error));
    }
    for error in [
        MlxRunnerError::CommandExecution {
            command: s(),
            exit_code: None,
            stdout: s(),
            stderr: s(),
        },
        MlxRunnerError::TempFileError { path: s(), source: broken("x") },
        MlxRunnerError::Timeout { command: s(), duration: Duration::from_secs(1) },
        MlxRunnerError::Io(broken("x")),
        MlxRunnerError::GenericError(s()),
    ] {
        assert!(executor.should_retry_error(&error));
    }
}

#[test]
fn errors_of_the_command_keep_what_they_know() {
    let s = |text: &str| text.to_string();
    assert!(matches!(
        MlxRunnerError::from_cmd_error(CmdError::CommandExecution {
            command: s("c"),
            exit_code: Some(3),
            stdout: s("o"),
            stderr: s("e"),
        }),
        MlxRunnerError::CommandExecution { exit_code: Some(3), .. }
    ));
    assert!(matches!(
        MlxRunnerError::from_cmd_error(CmdError::Timeout {
            command: s("c"),
            duration: Duration::from_secs(2),
        }),
        MlxRunnerError::Timeout { duration, .. } if duration == Duration::from_secs(2)
    ));
    assert!(matches!(
        MlxRunnerError::from_cmd_error(CmdError::CommandIo { command: s("c"), source: broken("why") }),
        MlxRunnerError::Io(why) if why.kind() == ErrorKind::BrokenPipe && why.to_string() == "why"
    ));
    assert!(matches!(
        MlxRunnerError::from_cmd_error(CmdError::RunError(s("c"), s("why"))),
        MlxRunnerError::GenericError(text) if text == "Error running 'c': why"
    ));
}

#[test]
fn the_tool_runs_as_its_command_options_say() {
    let options = options(true);
    let executor = CommandExecutor { options: &options };
    assert_eq!(executor.execute_with_retry().options.retries, 7);
    assert!(executor.is_dry_run());
    assert!(executor.is_verbose());
    assert_eq!(
        executor.execute_dry_run(&CommandSpec::new("mlxconfig").arg("q"), "query"),
        "[DRY RUN] Would execute query: mlxconfig q"
    );
}

#[test]
fn the_user_is_asked_before_settings_are_destroyed() {
    let options = options(true);
    let executor = CommandExecutor { options: &options };
    assert_eq!(
        executor.prompt_for_confirmation(&vec!["A".to_string(), "B".to_string()]),
        vec![
            "WARNING: You are about to modify destructive variables:",
            " - A",
            " - B",
            "",
        ]
    );
    assert_eq!(executor.confirmation_question(), "Continue? (y/N): ");
    for yes in ["y", "Y\n", "  yes \r\n", "YeS\u{3000}"] {
        assert!(executor.confirmed(yes), "{yes:?}");
    }
    for no in ["", "\n", "n", "no", "yess", "y e s", "\u{ff59}"] {
        assert!(!executor.confirmed(no), "{no:?}");
    }
    assert!(executor.response_confirms("yes"));
    assert!(!executor.response_confirms("Yes"));
    assert_eq!(
        executor.confirmation_notice(true),
        Some("[CONFIRM] User confirmed destructive operation".to_string())
    );
    assert_eq!(
        executor.confirmation_notice(false),
        Some("[CONFIRM] User declined destructive operation".to_string())
    );
}

#[test]
fn a_temporary_file_has_a_name_of_its_own() {
    let options = options(true);
    let executor = CommandExecutor { options: &options };
    let name = "mlxconfig-runner-00000000-0000-0000-0000-0000000000ab.json";
    for prefix in ["/tmp", "/tmp/", "", "/", "a/b", "a/b//"] {
        let joined = std::path::Path::new(prefix).join(name);
        assert_eq!(executor.temp_file(prefix, 0xab), joined.to_str().unwrap());
        assert_ne!(executor.temp_file(prefix, 0xab), executor.temp_file(prefix, 0xac));
    }
    let first = executor.create_temp_file("/tmp");
    assert_ne!(first, executor.create_temp_file("/tmp"));
    assert!(first.starts_with("/tmp/mlxconfig-runner-"));
    assert!(first.ends_with(".json"));
    assert_eq!(first.len(), 5 + 17 + 36 + 5);
    match executor.temp_file_created("/tmp/f".to_string(), Ok(())) {
        Ok((path, report)) => {
            assert_eq!(path, "/tmp/f");
            assert_eq!(report, Some("[TEMP] Created temporary file: /tmp/f".to_string()));
        }
        Err(_) => panic!("the file was made"),
    }
    assert!(matches!(
        executor.cleanup_temp_file("/tmp/f", Some(Ok(()))),
        Ok(Some(line)) if line == "[TEMP] Cleaned up temporary file: /tmp/f"
    ));
    assert!(matches!(executor.cleanup_temp_file("/tmp/f", None), Ok(None)));
}

#[test]
fn a_temporary_file_that_fails_is_named() {
    let options = options(true);
    let executor = CommandExecutor { options: &options };
    let why = || IoError::new(ErrorKind::ReadOnlyFilesystem, "read-only".to_string());
    for error in [
        executor.temp_file_created("/tmp/f".to_string(), Err(why())).unwrap_err(),
        executor.cleanup_temp_file("/tmp/f", Some(Err(why()))).unwrap_err(),
    ] {
        match error {
            MlxRunnerError::TempFileError { path, source } => {
                assert_eq!(path, "/tmp/f");
                assert_eq!(source.kind(), ErrorKind::ReadOnlyFilesystem);
                assert_eq!(source.to_string(), "read-only");
            }
            _ => panic!("the file failed"),
        }
    }
}

#[test]
fn an_answer_that_cannot_be_read_is_an_error() {
    let options = options(true);
    let executor = CommandExecutor { options: &options };
    assert!(matches!(executor.confirmation(Ok(" Yes\n".to_string())), Ok(true)));
    assert!(matches!(executor.confirmation(Ok("\n".to_string())), Ok(false)));
    assert!(matches!(
        executor.confirmation(Err(broken("closed"))),
        Err(MlxRunnerError::Io(why)) if why.to_string() == "closed"
    ));
}

#[test]
fn a_quiet_tool_reports_nothing() {
    let options = options(false);
    let executor = CommandExecutor { options: &options };
    assert_eq!(executor.confirmation_notice(true), None);
    assert!(matches!(
        executor.temp_file_created("/tmp/f".to_string(), Ok(())),
        Ok((_, None))
    ));
    assert!(matches!(executor.cleanup_temp_file("/tmp/f", Some(Ok(()))), Ok(None)));
    assert!(!executor.is_verbose());
}

#[test]
fn talkative_crates_are_held_quieter() {
    let plan = env_filter();
    assert_eq!(plan.default_directive, "info");
    assert_eq!(
        plan.pinned,
        vec![
            "tower=warn",
            "rustls=warn",
            "hyper=warn",
            "sqlx=info",
            "tokio_util::codec=warn",
            "h2=warn",
            "hickory_resolver::error=info",
            "hickory_proto::xfer=info",
            "hickory_resolver::name_server=info",
            "hickory_proto=info",
            "netlink_proto=warn",
        ]
    );
}

#[test]
fn white_space_is_taken_from_both_ends() {
    for text in [
        "", " ", "a", " a ", "\t\r\n a b \u{b}\u{c}", "\u{a0}x\u{2003}", "\u{200b}x\u{feff}",
        "\u{85}\u{1680}\u{2028}y\u{2029}\u{202f}\u{205f}\u{3000}", "\u{180e}z",
    ] {
        assert_eq!(trim(text), text.trim(), "{text:?}");
    }
    for n in 0..=0xffff {
        if let Some(c) = char::from_u32(n) {
            let text = format!("{c}x{c}");
            assert_eq!(trim(&text), text.trim(), "{n:x}");
        }
    }
}
