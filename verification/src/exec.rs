//! Running a command with a time limit, and again while it fails.
//!
//! One attempt is a machine: each step says what to do next to the process,
//! and the event that comes of it leads to the next step. A command's run is
//! a machine around it, which starts another attempt after each that failed
//! for as long as there are waits left.

use vstd::prelude::*;
use vstd::string::*;

use crate::backoff::{exponential_waits, wait_nanos, wait_of, RetryFactor, Waits};
use crate::cmd::{
    command_line, error_text, execution_failure, output_result, CmdError, CmdErrorView, CmdResult,
    CommandSpec, CommandView,
};
use crate::io_error::{IoError, IoErrorView};
use crate::process::{succeeded, ExitStatus, OutputView, ProcessOutput};
use crate::text::{decimal, decimal_text, lossy, option_text, texts};
use crate::time::{format_duration, span_text, Duration};

verus! {

/// How often and for how long a command is tried.
#[derive(Clone, Debug)]
pub struct CommandExecutionOptions {
    /// The time limit of one attempt, if there is one.
    pub timeout: Option<Duration>,
    /// How many further attempts follow a failed first one.
    pub retries: u32,
    /// The wait before the first retry.
    pub retry_delay: Duration,
    /// The longest wait before a later retry.
    pub max_retry_delay: Duration,
    /// The factor by which the wait grows.
    pub retry_multiplier: RetryFactor,
    /// Whether progress is reported.
    pub verbose: bool,
}

/// The options that hold unless others are chosen: a limit of thirty
/// seconds, three retries, waits from half a second to a minute that double,
/// and no reports.
pub open spec fn are_defaults(o: CommandExecutionOptions) -> bool {
    &&& o.timeout is Some
    &&& wait_of(o.timeout->0) == (30u64, 0u32)
    &&& o.retries == 3
    &&& wait_of(o.retry_delay) == (0u64, 500_000_000u32)
    &&& wait_of(o.max_retry_delay) == (60u64, 0u32)
    &&& o.retry_multiplier.text() == "2"@
    &&& !o.verbose
}

impl Default for CommandExecutionOptions {
    fn default() -> (r: Self)
        ensures
            are_defaults(r),
    {
        CommandExecutionOptions {
            timeout: Some(Duration::from_secs(30)),
            retries: 3,
            retry_delay: Duration::from_millis(500),
            max_retry_delay: Duration::from_secs(60),
            retry_multiplier: RetryFactor::two(),
            verbose: false,
        }
    }
}

impl CommandExecutionOptions {
    /// The default options.
    pub fn new() -> (r: Self)
        ensures
            are_defaults(r),
    {
        Self::default()
    }

    /// The options with another time limit, or none.
    pub fn with_timeout(self, timeout: Option<Duration>) -> (r: Self)
        ensures
            r == (CommandExecutionOptions { timeout, ..self }),
    {
        CommandExecutionOptions { timeout, ..self }
    }

    /// The options with another number of retries.
    pub fn with_retries(self, retries: u32) -> (r: Self)
        ensures
            r == (CommandExecutionOptions { retries, ..self }),
    {
        CommandExecutionOptions { retries, ..self }
    }

    /// The options with another first wait.
    pub fn with_retry_delay(self, delay: Duration) -> (r: Self)
        ensures
            r == (CommandExecutionOptions { retry_delay: delay, ..self }),
    {
        CommandExecutionOptions { retry_delay: delay, ..self }
    }

    /// The options with another longest wait.
    pub fn with_max_retry_delay(self, max_delay: Duration) -> (r: Self)
        ensures
            r == (CommandExecutionOptions { max_retry_delay: max_delay, ..self }),
    {
        CommandExecutionOptions { max_retry_delay: max_delay, ..self }
    }

    /// The options with another factor.
    pub fn with_retry_multiplier(self, multiplier: RetryFactor) -> (r: Self)
        ensures
            r == (CommandExecutionOptions { retry_multiplier: multiplier, ..self }),
    {
        CommandExecutionOptions { retry_multiplier: multiplier, ..self }
    }

    /// The options with reports on or off.
    pub fn with_verbose(self, verbose: bool) -> (r: Self)
        ensures
            r == (CommandExecutionOptions { verbose, ..self }),
    {
        CommandExecutionOptions { verbose, ..self }
    }
}

/// What one attempt does next to its process.
pub enum AttemptStep {
    /// Start it, with both outputs piped.
    Spawn,
    /// Wait for its end, at most so long.
    Wait(Duration),
    /// Wait for its end and read both outputs.
    Collect,
    /// It ended: read its standard output.
    ReadStdout(ExitStatus),
    /// It ended and printed this: read its standard error.
    ReadStderr(ExitStatus, Vec<u8>),
    /// It overran this limit: kill it and reap it.
    Kill(Duration),
    /// The attempt is over.
    Done(CmdResult<ProcessOutput>),
}

/// What came of a step.
pub enum AttemptEvent {
    /// The process was started.
    Spawned,
    /// The process ended.
    Exited(ExitStatus),
    /// The process was still running at the end of the wait.
    TimedOut,
    /// The process ended and both outputs were read.
    Collected(ProcessOutput),
    /// One output was read to its end.
    Read(Vec<u8>),
    /// The process was killed and reaped, or could not be.
    Killed,
    /// The operating system refused.
    Failed(IoError),
}

/// A step with its bytes and texts as sequences.
pub enum StepView {
    Spawn,
    Wait(Duration),
    Collect,
    ReadStdout(Option<i32>),
    ReadStderr(Option<i32>, Seq<u8>),
    Kill(Duration),
    Done(Result<OutputView, CmdErrorView>),
}

impl View for AttemptStep {
    type V = StepView;

    open spec fn view(&self) -> StepView {
        match self {
            AttemptStep::Spawn => StepView::Spawn,
            AttemptStep::Wait(limit) => StepView::Wait(*limit),
            AttemptStep::Collect => StepView::Collect,
            AttemptStep::ReadStdout(status) => StepView::ReadStdout(status.code),
            AttemptStep::ReadStderr(status, stdout) => StepView::ReadStderr(status.code, stdout@),
            AttemptStep::Kill(limit) => StepView::Kill(*limit),
            AttemptStep::Done(result) => StepView::Done(output_result(*result)),
        }
    }
}

/// An event with its bytes and texts as sequences.
pub enum EventView {
    Spawned,
    Exited(Option<i32>),
    TimedOut,
    Collected(OutputView),
    Read(Seq<u8>),
    Killed,
    Failed(IoErrorView),
}

impl View for AttemptEvent {
    type V = EventView;

    open spec fn view(&self) -> EventView {
        match self {
            AttemptEvent::Spawned => EventView::Spawned,
            AttemptEvent::Exited(status) => EventView::Exited(status.code),
            AttemptEvent::TimedOut => EventView::TimedOut,
            AttemptEvent::Collected(output) => EventView::Collected(output@),
            AttemptEvent::Read(bytes) => EventView::Read(bytes@),
            AttemptEvent::Killed => EventView::Killed,
            AttemptEvent::Failed(error) => EventView::Failed(error@),
        }
    }
}

/// The result of a finished process: its output where it succeeded, else an
/// error with all that is known of it.
pub open spec fn judged(line: Seq<char>, output: OutputView) -> Result<OutputView, CmdErrorView> {
    if succeeded(output.code) {
        Ok(output)
    } else {
        Err(execution_failure(line, output))
    }
}

/// The step of an attempt that the operating system refused to go on with.
pub open spec fn refused(line: Seq<char>, source: IoErrorView) -> StepView {
    StepView::Done(Err(CmdErrorView::CommandIo { command: line, source }))
}

/// The steps under a time limit: wait, read the two outputs of a process
/// that ended, kill one that did not. An event that does not belong to a
/// step leaves it.
pub open spec fn limited_next(line: Seq<char>, step: StepView, event: EventView) -> StepView {
    match (step, event) {
        (StepView::Wait(_), EventView::Exited(code)) => StepView::ReadStdout(code),
        (StepView::Wait(limit), EventView::TimedOut) => StepView::Kill(limit),
        (StepView::Wait(_), EventView::Failed(source)) => refused(line, source),
        (StepView::ReadStdout(code), EventView::Read(stdout)) => StepView::ReadStderr(code, stdout),
        (StepView::ReadStdout(_), EventView::Failed(source)) => refused(line, source),
        (StepView::ReadStderr(code, stdout), EventView::Read(stderr)) => StepView::Done(
            Ok(OutputView { code, stdout, stderr }),
        ),
        (StepView::ReadStderr(_, _), EventView::Failed(source)) => refused(line, source),
        (StepView::Kill(limit), EventView::Killed) => StepView::Done(
            Err(CmdErrorView::Timeout { command: line, duration: limit }),
        ),
        (StepView::Kill(limit), EventView::Failed(_)) => StepView::Done(
            Err(CmdErrorView::Timeout { command: line, duration: limit }),
        ),
        _ => step,
    }
}

/// The steps of a whole attempt: start the process, follow it under the time
/// limit or collect it without one, and judge what it returned. A finished
/// attempt stays as it is.
pub open spec fn attempt_next(
    timeout: Option<Duration>,
    line: Seq<char>,
    step: StepView,
    event: EventView,
) -> StepView {
    match (step, event) {
        (StepView::Done(_), _) => step,
        (StepView::Spawn, EventView::Spawned) => match timeout {
            Some(limit) => StepView::Wait(limit),
            None => StepView::Collect,
        },
        (StepView::Spawn, EventView::Failed(source)) => refused(line, source),
        (StepView::Collect, EventView::Collected(output)) => StepView::Done(judged(line, output)),
        (StepView::Collect, EventView::Failed(source)) => refused(line, source),
        _ => match limited_next(line, step, event) {
            StepView::Done(Ok(output)) => StepView::Done(judged(line, output)),
            next => next,
        },
    }
}

/// Whether an error is worth another attempt: the command ran and failed,
/// overran its limit, or could not be run.
pub open spec fn retryable(error: CmdErrorView) -> bool {
    match error {
        CmdErrorView::CommandExecution { .. } => true,
        CmdErrorView::Timeout { .. } => true,
        CmdErrorView::CommandIo { .. } => true,
        CmdErrorView::RunError(_, _) => true,
        CmdErrorView::TokioRunError(_, _) => true,
        CmdErrorView::InvalidRetry(_, _) => false,
        CmdErrorView::Subprocess(_, _, _) => false,
        CmdErrorView::OutputParse(_, _) => false,
    }
}

/// What a command's run does next.
pub enum RunStep {
    /// Take this step of an attempt.
    Attempt(AttemptStep),
    /// An attempt failed with this error: wait before the next.
    Sleep { delay: Duration, error: CmdError },
    /// The command is over.
    Done(CmdResult<ProcessOutput>),
}

/// What came of a step.
pub enum RunEvent {
    /// This came of a step of an attempt.
    Attempt(AttemptEvent),
    /// The wait is over.
    Slept,
}

/// A step with its bytes and texts as sequences.
pub enum RunStepView {
    Attempt(StepView),
    Sleep { delay: (u64, u32), error: CmdErrorView },
    Done(Result<OutputView, CmdErrorView>),
}

impl View for RunStep {
    type V = RunStepView;

    open spec fn view(&self) -> RunStepView {
        match self {
            RunStep::Attempt(step) => RunStepView::Attempt(step@),
            RunStep::Sleep { delay, error } => RunStepView::Sleep {
                delay: wait_of(*delay),
                error: error@,
            },
            RunStep::Done(result) => RunStepView::Done(output_result(*result)),
        }
    }
}

/// An event with its bytes and texts as sequences.
pub enum RunEventView {
    Attempt(EventView),
    Slept,
}

impl View for RunEvent {
    type V = RunEventView;

    open spec fn view(&self) -> RunEventView {
        match self {
            RunEvent::Attempt(event) => RunEventView::Attempt(event@),
            RunEvent::Slept => RunEventView::Slept,
        }
    }
}

/// A command's run: its step, and the waits that are left.
pub struct RunView {
    pub step: RunStepView,
    pub waits: Seq<(u64, u32)>,
}

/// Whether an attempt's result is one that no retry follows.
pub open spec fn is_final(result: Result<OutputView, CmdErrorView>) -> bool {
    match result {
        Ok(_) => true,
        Err(error) => !retryable(error),
    }
}

/// What follows an attempt's result, given the wait before a further attempt
/// if there may be one: an error worth it leads to the wait, anything else
/// ends the command.
pub open spec fn after_result(
    result: Result<OutputView, CmdErrorView>,
    wait: Option<(u64, u32)>,
) -> RunStepView {
    match (result, wait) {
        (Err(error), Some(delay)) if retryable(error) => RunStepView::Sleep { delay, error },
        _ => RunStepView::Done(result),
    }
}

/// The first of the waits, if any is left.
pub open spec fn first_wait(waits: Seq<(u64, u32)>) -> Option<(u64, u32)> {
    if waits.len() > 0 {
        Some(waits[0])
    } else {
        None
    }
}

/// A run after the result of an attempt. A wait is taken only where a
/// further attempt follows.
pub open spec fn settled(waits: Seq<(u64, u32)>, result: Result<OutputView, CmdErrorView>) -> RunView {
    let step = after_result(result, first_wait(waits));
    RunView {
        step,
        waits: if step is Sleep {
            waits.drop_first()
        } else {
            waits
        },
    }
}

/// A run after an event: the attempt goes on to its end, and after a wait
/// another one begins. An event that does not belong to the step changes
/// nothing.
pub open spec fn run_next(
    timeout: Option<Duration>,
    line: Seq<char>,
    run: RunView,
    event: RunEventView,
) -> RunView {
    match (run.step, event) {
        (RunStepView::Attempt(step), RunEventView::Attempt(event)) => match attempt_next(
            timeout,
            line,
            step,
            event,
        ) {
            StepView::Done(result) => settled(run.waits, result),
            next => RunView { step: RunStepView::Attempt(next), waits: run.waits },
        },
        (RunStepView::Sleep { .. }, RunEventView::Slept) => RunView {
            step: RunStepView::Attempt(StepView::Spawn),
            waits: run.waits,
        },
        _ => run,
    }
}

/// The report that a command is about to run.
pub open spec fn started_text(command: CommandView) -> Seq<char> {
    "[EXEC] Executing command with timeout and retry: "@ + command_line(command)
}

/// The report on how a command will be retried.
pub open spec fn retry_config_text(o: CommandExecutionOptions, multiplier: Seq<char>) -> Seq<char> {
    "[EXEC] Retry config: "@ + decimal((o.retries + 1) as nat) + " attempts, "@ + multiplier
        + "x multiplier, "@ + span_text(o.retry_delay) + " initial delay, "@ + span_text(
        o.max_retry_delay,
    ) + " max delay"@
}

/// The report on reaching a step of an attempt.
pub open spec fn attempt_notice_text(step: StepView, elapsed: Duration) -> Option<Seq<char>> {
    match step {
        StepView::Wait(limit) => Some(
            "[TIMEOUT] Waiting for command with timeout: "@ + span_text(limit),
        ),
        StepView::ReadStdout(_) => Some("[TIMEOUT] Command completed in "@ + span_text(elapsed)),
        StepView::Kill(_) => Some(
            "[TIMEOUT] Command timed out after "@ + span_text(elapsed) + ", killing process"@,
        ),
        _ => None,
    }
}

/// The report on reaching a step of a run, so long after the attempt began.
pub open spec fn notice_text(verbose: bool, step: RunStep, elapsed: Duration) -> Option<Seq<char>> {
    if !verbose {
        None
    } else {
        match step {
            RunStep::Attempt(step) => attempt_notice_text(step@, elapsed),
            RunStep::Sleep { delay, error } => Some(
                "[RETRY] Retrying after "@ + span_text(delay) + " due to error: "@ + error_text(
                    error@,
                ),
            ),
            RunStep::Done(Ok(_)) => Some("[EXEC] Command completed successfully"@),
            RunStep::Done(Err(error)) => Some(
                "[EXEC] Command failed after all retries: "@ + error_text(error@),
            ),
        }
    }
}

/// A command that is being run.
pub struct CommandRun {
    /// What to do next.
    pub step: RunStep,
    /// The waits that are left, one for each further attempt.
    pub waits: Waits,
}

impl View for CommandRun {
    type V = RunView;

    open spec fn view(&self) -> RunView {
        RunView { step: self.step@, waits: self.waits@ }
    }
}

/// Runs commands as its options say.
pub struct CommandExecutor<'a> {
    pub options: &'a CommandExecutionOptions,
}

impl<'a> CommandExecutor<'a> {
    /// The run of a command from its first attempt: one wait for each retry,
    /// the first of them the retry delay, the others within the longest
    /// delay.
    pub fn execute_with_retry(&self) -> (r: CommandRun)
        ensures
            r@.step == RunStepView::Attempt(StepView::Spawn),
            r@.waits == exponential_waits(
                wait_of(self.options.retry_delay),
                wait_of(self.options.max_retry_delay),
                self.options.retries,
                self.options.retry_multiplier.text(),
            ),
            r@.waits.len() == self.options.retries,
            r@.waits.len() > 0 ==> r@.waits[0] == wait_of(self.options.retry_delay),
            forall|i: int|
                0 < i < r@.waits.len() ==> wait_nanos(#[trigger] r@.waits[i]) <= wait_nanos(
                    wait_of(self.options.max_retry_delay),
                ),
    {
        CommandRun {
            step: RunStep::Attempt(AttemptStep::Spawn),
            waits: Waits::new(
                self.options.retry_delay,
                self.options.max_retry_delay,
                self.options.retries,
                &self.options.retry_multiplier,
            ),
        }
    }

    /// The run of a command after an event.
    pub fn advance(&self, command_spec: &CommandSpec, run: CommandRun, event: RunEvent) -> (r:
        CommandRun)
        ensures
            r@ == run_next(self.options.timeout, command_line(command_spec@), run@, event@),
    {
        let CommandRun { step, waits } = run;
        match (step, event) {
            (RunStep::Attempt(step), RunEvent::Attempt(event)) => {
                match self.execute_single_attempt(command_spec, step, event) {
                    AttemptStep::Done(result) => {
                        let retry = match &result {
                            Ok(_) => false,
                            Err(error) => self.should_retry_error(error),
                        };
                        let (wait, waits) = if retry {
                            waits.take_next()
                        } else {
                            (None, waits)
                        };
                        let step = self.after_attempt(result, wait);
                        CommandRun { step, waits }
                    },
                    next => CommandRun { step: RunStep::Attempt(next), waits },
                }
            },
            (RunStep::Sleep { .. }, RunEvent::Slept) => {
                CommandRun { step: RunStep::Attempt(AttemptStep::Spawn), waits }
            },
            (step, _) => CommandRun { step, waits },
        }
    }

    /// What follows an attempt, given the wait before a further attempt if
    /// there may be one.
    pub fn after_attempt(&self, result: CmdResult<ProcessOutput>, wait: Option<Duration>) -> (r:
        RunStep)
        ensures
            r@ == after_result(
                output_result(result),
                match wait {
                    Some(delay) => Some(wait_of(delay)),
                    None => None,
                },
            ),
    {
        match result {
            Ok(output) => RunStep::Done(Ok(output)),
            Err(error) => match wait {
                Some(delay) => {
                    if self.should_retry_error(&error) {
                        RunStep::Sleep { delay, error }
                    } else {
                        RunStep::Done(Err(error))
                    }
                },
                None => RunStep::Done(Err(error)),
            },
        }
    }

    /// The next step of an attempt that starts at `Spawn`.
    pub fn execute_single_attempt(
        &self,
        command_spec: &CommandSpec,
        step: AttemptStep,
        event: AttemptEvent,
    ) -> (r: AttemptStep)
        ensures
            r@ == attempt_next(self.options.timeout, command_line(command_spec@), step@, event@),
    {
        let command_string = command_spec.to_string();
        match (step, event) {
            (AttemptStep::Done(result), _) => AttemptStep::Done(result),
            (AttemptStep::Spawn, AttemptEvent::Spawned) => match self.options.timeout {
                Some(timeout) => AttemptStep::Wait(timeout),
                None => AttemptStep::Collect,
            },
            (AttemptStep::Spawn, AttemptEvent::Failed(source)) => AttemptStep::Done(
                Err(CmdError::CommandIo { command: command_string, source }),
            ),
            (AttemptStep::Collect, AttemptEvent::Collected(output)) => AttemptStep::Done(
                Self::judge(command_string, output),
            ),
            (AttemptStep::Collect, AttemptEvent::Failed(source)) => AttemptStep::Done(
                Err(CmdError::CommandIo { command: command_string, source }),
            ),
            (step, event) => match self.execute_with_timeout(command_spec, step, event) {
                AttemptStep::Done(Ok(output)) => AttemptStep::Done(
                    Self::judge(command_string, output),
                ),
                next => next,
            },
        }
    }

    /// The output of a process that succeeded, or the error of one that did
    /// not.
    fn judge(command: String, output: ProcessOutput) -> (r: CmdResult<ProcessOutput>)
        ensures
            output_result(r) == judged(command@, output@),
    {
        if output.status.success() {
            Ok(output)
        } else {
            Err(CmdError::command_execution(command, output))
        }
    }

    /// The next step of a process that runs under a time limit; it ends with
    /// the output of the process, whatever its exit code.
    pub fn execute_with_timeout(
        &self,
        command_spec: &CommandSpec,
        step: AttemptStep,
        event: AttemptEvent,
    ) -> (r: AttemptStep)
        ensures
            r@ == limited_next(command_line(command_spec@), step@, event@),
    {
        let command = command_spec.to_string();
        match (step, event) {
            (AttemptStep::Wait(_), AttemptEvent::Exited(status)) => AttemptStep::ReadStdout(status),
            (AttemptStep::Wait(timeout), AttemptEvent::TimedOut) => AttemptStep::Kill(timeout),
            (AttemptStep::Wait(_), AttemptEvent::Failed(source)) => AttemptStep::Done(
                Err(CmdError::CommandIo { command, source }),
            ),
            (AttemptStep::ReadStdout(status), AttemptEvent::Read(stdout)) => AttemptStep::ReadStderr(
                status,
                stdout,
            ),
            (AttemptStep::ReadStdout(_), AttemptEvent::Failed(source)) => AttemptStep::Done(
                Err(CmdError::CommandIo { command, source }),
            ),
            (AttemptStep::ReadStderr(status, stdout), AttemptEvent::Read(stderr)) =>
                AttemptStep::Done(Ok(ProcessOutput { status, stdout, stderr })),
            (AttemptStep::ReadStderr(_, _), AttemptEvent::Failed(source)) => AttemptStep::Done(
                Err(CmdError::CommandIo { command, source }),
            ),
            (AttemptStep::Kill(timeout), AttemptEvent::Killed) => AttemptStep::Done(
                Err(CmdError::Timeout { command, duration: timeout }),
            ),
            (AttemptStep::Kill(timeout), AttemptEvent::Failed(_)) => AttemptStep::Done(
                Err(CmdError::Timeout { command, duration: timeout }),
            ),
            (step, _) => step,
        }
    }

    /// What is reported before the first attempt: the command, and how it
    /// will be retried; nothing unless reports are on. `multiplier` is the
    /// factor rounded to one decimal place.
    pub fn start_notices(&self, command_spec: &CommandSpec, multiplier: &str) -> (r: Vec<String>)
        requires
            self.options.verbose ==> self.options.retries < u32::MAX,
        ensures
            texts(r@) == if self.options.verbose {
                seq![
                    started_text(command_spec@),
                    retry_config_text(*self.options, multiplier@),
                ]
            } else {
                Seq::empty()
            },
    {
        let mut lines: Vec<String> = Vec::new();
        if self.options.verbose {
            let command = command_spec.to_string();
            lines.push(
                "[EXEC] Executing command with timeout and retry: ".to_owned().concat(
                    command.as_str(),
                ),
            );
            let attempts = decimal_text(self.options.retries as u128 + 1);
            let delay = format_duration(self.options.retry_delay);
            let max_delay = format_duration(self.options.max_retry_delay);
            lines.push(
                "[EXEC] Retry config: ".to_owned().concat(attempts.as_str()).concat(
                    " attempts, ",
                ).concat(multiplier).concat("x multiplier, ").concat(delay.as_str()).concat(
                    " initial delay, ",
                ).concat(max_delay.as_str()).concat(" max delay"),
            );
            assert(texts(lines@) =~= seq![
                started_text(command_spec@),
                retry_config_text(*self.options, multiplier@),
            ]);
        } else {
            assert(texts(lines@) =~= Seq::empty());
        }
        lines
    }

    /// What is reported on reaching a step of a run, so long after the
    /// attempt began: the start of the wait for the process, the end of the
    /// process or of its time, a coming retry with its reason, and how the
    /// command ended; nothing unless reports are on.
    pub fn notice(&self, step: &RunStep, elapsed: Duration) -> (r: Option<String>)
        ensures
            option_text(r) == notice_text(self.options.verbose, *step, elapsed),
    {
        if !self.options.verbose {
            return None;
        }
        match step {
            RunStep::Attempt(AttemptStep::Wait(timeout)) => {
                let limit = format_duration(*timeout);
                Some(
                    "[TIMEOUT] Waiting for command with timeout: ".to_owned().concat(
                        limit.as_str(),
                    ),
                )
            },
            RunStep::Attempt(AttemptStep::ReadStdout(_)) => {
                let time = format_duration(elapsed);
                Some("[TIMEOUT] Command completed in ".to_owned().concat(time.as_str()))
            },
            RunStep::Attempt(AttemptStep::Kill(_)) => {
                let time = format_duration(elapsed);
                Some(
                    "[TIMEOUT] Command timed out after ".to_owned().concat(time.as_str()).concat(
                        ", killing process",
                    ),
                )
            },
            RunStep::Attempt(_) => None,
            RunStep::Sleep { delay, error } => {
                let wait = format_duration(*delay);
                let reason = error.to_string();
                Some(
                    "[RETRY] Retrying after ".to_owned().concat(wait.as_str()).concat(
                        " due to error: ",
                    ).concat(reason.as_str()),
                )
            },
            RunStep::Done(Ok(_)) => Some("[EXEC] Command completed successfully".to_owned()),
            RunStep::Done(Err(error)) => {
                let reason = error.to_string();
                Some(
                    "[EXEC] Command failed after all retries: ".to_owned().concat(
                        reason.as_str(),
                    ),
                )
            },
        }
    }

    /// Whether an error is worth another attempt.
    pub fn should_retry_error(&self, error: &CmdError) -> (r: bool)
        ensures
            r == retryable(error@),
    {
        match error {
            CmdError::CommandExecution { .. } => true,
            CmdError::Timeout { .. } => true,
            CmdError::CommandIo { .. } => true,
            CmdError::RunError(_, _) => true,
            CmdError::TokioRunError(_, _) => true,
            _ => false,
        }
    }
}

/// The step that an attempt reaches from another through a list of events.
pub open spec fn attempt_run(
    timeout: Option<Duration>,
    line: Seq<char>,
    step: StepView,
    events: Seq<EventView>,
) -> StepView
    decreases events.len(),
{
    if events.len() == 0 {
        step
    } else {
        attempt_next(
            timeout,
            line,
            attempt_run(timeout, line, step, events.drop_last()),
            events.last(),
        )
    }
}

/// What holds of every step that an attempt at a command can reach.
pub open spec fn attempt_step_ok(timeout: Option<Duration>, line: Seq<char>, step: StepView) -> bool {
    match step {
        StepView::Wait(limit) => timeout == Some(limit),
        StepView::Kill(limit) => timeout == Some(limit),
        StepView::ReadStdout(_) => timeout is Some,
        StepView::ReadStderr(_, _) => timeout is Some,
        StepView::Collect => timeout is None,
        StepView::Spawn => true,
        StepView::Done(Ok(output)) => succeeded(output.code),
        StepView::Done(Err(CmdErrorView::CommandExecution { command, exit_code, .. })) => command
            == line && !succeeded(exit_code),
        StepView::Done(Err(CmdErrorView::Timeout { command, duration })) => command == line
            && timeout == Some(duration),
        StepView::Done(Err(CmdErrorView::CommandIo { command, .. })) => command == line,
        StepView::Done(Err(_)) => false,
    }
}

/// Whatever happens to its process, an attempt follows the time limit it was
/// given, or none, succeeds only with the exit code zero, fails with the
/// exit code zero never, names its command in every error, and gives the
/// configured limit in a timeout.
pub proof fn law_attempt_outcomes(
    timeout: Option<Duration>,
    line: Seq<char>,
    events: Seq<EventView>,
)
    ensures
        attempt_step_ok(timeout, line, attempt_run(timeout, line, StepView::Spawn, events)),
    decreases events.len(),
{
    if events.len() > 0 {
        law_attempt_outcomes(timeout, line, events.drop_last());
    }
}

/// Every error that an attempt can end with is worth a retry.
pub proof fn law_attempt_errors_are_retryable(
    timeout: Option<Duration>,
    line: Seq<char>,
    events: Seq<EventView>,
)
    ensures
        attempt_run(timeout, line, StepView::Spawn, events) matches StepView::Done(Err(error))
            ==> retryable(error),
{
    law_attempt_outcomes(timeout, line, events);
}

/// A finished attempt keeps its result, whatever events follow.
pub proof fn law_attempt_done_is_final(
    timeout: Option<Duration>,
    line: Seq<char>,
    result: Result<OutputView, CmdErrorView>,
    events: Seq<EventView>,
)
    ensures
        attempt_run(timeout, line, StepView::Done(result), events) == StepView::Done(result),
    decreases events.len(),
{
    if events.len() > 0 {
        law_attempt_done_is_final(timeout, line, result, events.drop_last());
    }
}

/// Without a time limit an attempt never kills its process and never ends
/// with a timeout.
pub proof fn law_no_limit_no_timeout(line: Seq<char>, events: Seq<EventView>)
    ensures
        !(attempt_run(None, line, StepView::Spawn, events) is Kill),
        !(attempt_run(None, line, StepView::Spawn, events) matches StepView::Done(
            Err(CmdErrorView::Timeout { .. }),
        )),
{
    law_attempt_outcomes(None, line, events);
}

/// A process that ends within its limit, and whose two outputs are read,
/// leads to what it returned.
pub proof fn law_attempt_reads_both_outputs(
    limit: Duration,
    line: Seq<char>,
    output: OutputView,
)
    ensures
        attempt_run(
            Some(limit),
            line,
            StepView::Spawn,
            seq![
                EventView::Spawned,
                EventView::Exited(output.code),
                EventView::Read(output.stdout),
                EventView::Read(output.stderr),
            ],
        ) == StepView::Done(judged(line, output)),
{
    let events = seq![
        EventView::Spawned,
        EventView::Exited(output.code),
        EventView::Read(output.stdout),
        EventView::Read(output.stderr),
    ];
    reveal_with_fuel(attempt_run, 5);
    assert(events.drop_last() =~= events.take(3));
    assert(events.take(3).drop_last() =~= events.take(2));
    assert(events.take(2).drop_last() =~= events.take(1));
    assert(events.take(1).drop_last() =~= Seq::empty());
}

/// A run at its start, with these waits.
pub open spec fn run_start(waits: Seq<(u64, u32)>) -> RunView {
    RunView { step: RunStepView::Attempt(StepView::Spawn), waits }
}

/// A run after a list of events.
pub open spec fn run_run(
    timeout: Option<Duration>,
    line: Seq<char>,
    run: RunView,
    events: Seq<RunEventView>,
) -> RunView
    decreases events.len(),
{
    if events.len() == 0 {
        run
    } else {
        run_next(timeout, line, run_run(timeout, line, run, events.drop_last()), events.last())
    }
}

/// The result of the attempt that an event ends, if it ends one.
pub open spec fn ended_attempt(
    timeout: Option<Duration>,
    line: Seq<char>,
    run: RunView,
    event: RunEventView,
) -> Option<Result<OutputView, CmdErrorView>> {
    match (run.step, event) {
        (RunStepView::Attempt(step), RunEventView::Attempt(event)) => match attempt_next(
            timeout,
            line,
            step,
            event,
        ) {
            StepView::Done(result) => Some(result),
            _ => None,
        },
        _ => None,
    }
}

/// The results of the attempts that ended through a list of events, in
/// order.
pub open spec fn attempt_results(
    timeout: Option<Duration>,
    line: Seq<char>,
    run: RunView,
    events: Seq<RunEventView>,
) -> Seq<Result<OutputView, CmdErrorView>>
    decreases events.len(),
{
    if events.len() == 0 {
        Seq::empty()
    } else {
        let earlier = events.drop_last();
        let results = attempt_results(timeout, line, run, earlier);
        match ended_attempt(timeout, line, run_run(timeout, line, run, earlier), events.last()) {
            Some(result) => results.push(result),
            None => results,
        }
    }
}

/// How many attempts a run has begun, given how many have ended.
pub open spec fn attempts_begun(run: RunView, ended: nat) -> nat {
    if run.step is Attempt {
        ended + 1
    } else {
        ended
    }
}

/// What holds of every run that a command can reach from its start with
/// these waits, when its attempts have ended with these results.
pub open spec fn run_ok(
    timeout: Option<Duration>,
    line: Seq<char>,
    waits: Seq<(u64, u32)>,
    run: RunView,
    results: Seq<Result<OutputView, CmdErrorView>>,
) -> bool {
    let retries = if run.step is Done {
        results.len() - 1
    } else {
        results.len() as int
    };
    &&& 0 <= retries <= waits.len()
    &&& run.waits == waits.skip(retries)
    &&& forall|i: int|
        0 <= i < results.len() ==> attempt_step_ok(timeout, line, StepView::Done(#[trigger] results[i]))
    &&& forall|i: int| 0 <= i < retries ==> !is_final(#[trigger] results[i])
    &&& match run.step {
        RunStepView::Attempt(step) => attempt_step_ok(timeout, line, step) && !(step is Done),
        RunStepView::Sleep { delay, error } => retries > 0 && delay == waits[retries - 1]
            && results.last() == Err::<OutputView, CmdErrorView>(error),
        RunStepView::Done(result) => result == results.last() && (result is Err ==> retries
            == waits.len()),
    }
}

/// Whatever happens to its processes, a command's run takes its waits in
/// their order, one for each retry; it waits only after an attempt that
/// failed with an error worth a retry; its result is that of its last
/// attempt, which succeeds only with the exit code zero; and it gives up
/// only when no wait is left, with an error that names the command.
pub proof fn law_run_outcomes(
    timeout: Option<Duration>,
    line: Seq<char>,
    waits: Seq<(u64, u32)>,
    events: Seq<RunEventView>,
)
    ensures
        run_ok(
            timeout,
            line,
            waits,
            run_run(timeout, line, run_start(waits), events),
            attempt_results(timeout, line, run_start(waits), events),
        ),
    decreases events.len(),
{
    if events.len() == 0 {
        assert(waits.skip(0) =~= waits);
    } else {
        let earlier = events.drop_last();
        law_run_outcomes(timeout, line, waits, earlier);
        let before = run_run(timeout, line, run_start(waits), earlier);
        let after = run_run(timeout, line, run_start(waits), events);
        let results0 = attempt_results(timeout, line, run_start(waits), earlier);
        let results = attempt_results(timeout, line, run_start(waits), events);
        match ended_attempt(timeout, line, before, events.last()) {
            Some(result) => {
                assert(results == results0.push(result));
                assert(results.last() == result);
                assert(attempt_step_ok(timeout, line, StepView::Done(result)));
                assert forall|i: int| 0 <= i < results.len() implies attempt_step_ok(
                    timeout,
                    line,
                    StepView::Done(#[trigger] results[i]),
                ) by {
                    if i < results0.len() {
                        assert(results[i] == results0[i]);
                    }
                }
                assert forall|i: int| 0 <= i < results0.len() implies !is_final(
                    #[trigger] results[i],
                ) by {
                    assert(results[i] == results0[i]);
                }
                if after.step is Sleep {
                    let used = results0.len() as int;
                    assert(waits.skip(used).drop_first() =~= waits.skip(used + 1));
                    assert(!is_final(result));
                }
            },
            None => {},
        }
    }
}

/// With so many waits a command begins at least one attempt and at most one
/// more than there are waits; each attempt before the last failed with an
/// error worth a retry; a command that is over has the result of its last
/// attempt; and where waits were left, that was one that no retry follows.
pub proof fn law_retry_stops(
    timeout: Option<Duration>,
    line: Seq<char>,
    waits: Seq<(u64, u32)>,
    events: Seq<RunEventView>,
)
    ensures
        ({
            let run = run_run(timeout, line, run_start(waits), events);
            let results = attempt_results(timeout, line, run_start(waits), events);
            &&& 1 <= attempts_begun(run, results.len()) <= waits.len() + 1
            &&& forall|i: int|
                0 <= i < attempts_begun(run, results.len()) - 1 ==> !is_final(#[trigger] results[i])
            &&& run.step matches RunStepView::Done(result) ==> {
                &&& results.len() > 0
                &&& result == results.last()
                &&& results.len() < waits.len() + 1 ==> is_final(result)
            }
        }),
{
    law_run_outcomes(timeout, line, waits, events);
}

/// A command that ends in an error was tried exactly once more than it has
/// waits, and every attempt failed.
pub proof fn law_retry_exhausts(
    timeout: Option<Duration>,
    line: Seq<char>,
    waits: Seq<(u64, u32)>,
    events: Seq<RunEventView>,
)
    requires
        run_run(timeout, line, run_start(waits), events).step matches RunStepView::Done(Err(_)),
    ensures
        ({
            let results = attempt_results(timeout, line, run_start(waits), events);
            &&& results.len() == waits.len() + 1
            &&& forall|i: int| 0 <= i < results.len() ==> #[trigger] results[i] is Err
        }),
{
    law_run_outcomes(timeout, line, waits, events);
    let results = attempt_results(timeout, line, run_start(waits), events);
    assert forall|i: int| 0 <= i < results.len() implies #[trigger] results[i] is Err by {
        if i < results.len() - 1 {
            assert(!is_final(results[i]));
        }
    }
}

/// A run that is over keeps its result, whatever events follow.
pub proof fn law_run_done_is_final(
    timeout: Option<Duration>,
    line: Seq<char>,
    run: RunView,
    events: Seq<RunEventView>,
)
    requires
        run.step is Done,
    ensures
        run_run(timeout, line, run, events) == run,
    decreases events.len(),
{
    if events.len() > 0 {
        law_run_done_is_final(timeout, line, run, events.drop_last());
    }
}

/// A finished process is judged alike with and without a time limit: its
/// output where it ended with the exit code zero, and otherwise an error
/// with the command, the exit code it ended with, and what it wrote to each
/// of its two outputs.
pub proof fn law_limit_does_not_change_the_result(
    limit: Duration,
    line: Seq<char>,
    output: OutputView,
)
    ensures
        ({
            let collected = attempt_run(
                None,
                line,
                StepView::Spawn,
                seq![EventView::Spawned, EventView::Collected(output)],
            );
            let limited = attempt_run(
                Some(limit),
                line,
                StepView::Spawn,
                seq![
                    EventView::Spawned,
                    EventView::Exited(output.code),
                    EventView::Read(output.stdout),
                    EventView::Read(output.stderr),
                ],
            );
            &&& collected == limited
            &&& output.code == Some(0i32) ==> collected == StepView::Done(Ok(output))
            &&& output.code != Some(0i32) ==> collected == StepView::Done(
                Err(
                    CmdErrorView::CommandExecution {
                        command: line,
                        exit_code: output.code,
                        stdout: lossy(output.stdout),
                        stderr: lossy(output.stderr),
                    },
                ),
            )
        }),
{
    law_attempt_reads_both_outputs(limit, line, output);
    let events = seq![EventView::Spawned, EventView::Collected(output)];
    reveal_with_fuel(attempt_run, 3);
    assert(events.drop_last() =~= seq![EventView::Spawned]);
    assert(events.drop_last().drop_last() =~= Seq::empty());
}

/// Whatever happens to its process, an attempt without a time limit ends
/// with what the process left behind when it was collected, or with the
/// refusal of the operating system.
pub proof fn law_unlimited_result_is_of_its_process(
    line: Seq<char>,
    events: Seq<EventView>,
    result: Result<OutputView, CmdErrorView>,
)
    requires
        attempt_run(None, line, StepView::Spawn, events) == StepView::Done(result),
    ensures
        exists|i: int|
            0 <= i < events.len() && match #[trigger] events[i] {
                EventView::Collected(output) => if output.code == Some(0i32) {
                    result == Ok::<OutputView, CmdErrorView>(output)
                } else {
                    result == Err::<OutputView, CmdErrorView>(
                        CmdErrorView::CommandExecution {
                            command: line,
                            exit_code: output.code,
                            stdout: lossy(output.stdout),
                            stderr: lossy(output.stderr),
                        },
                    )
                },
                EventView::Failed(source) => result == Err::<OutputView, CmdErrorView>(
                    CmdErrorView::CommandIo { command: line, source },
                ),
                _ => false,
            },
    decreases events.len(),
{
    let earlier = events.drop_last();
    let before = attempt_run(None, line, StepView::Spawn, earlier);
    law_attempt_outcomes(None, line, earlier);
    assert(events[events.len() - 1] == events.last());
    match before {
        StepView::Done(r) => {
            law_unlimited_result_is_of_its_process(line, earlier, r);
            let i = choose|i: int|
                0 <= i < earlier.len() && match #[trigger] earlier[i] {
                    EventView::Collected(output) => if output.code == Some(0i32) {
                        result == Ok::<OutputView, CmdErrorView>(output)
                    } else {
                        result == Err::<OutputView, CmdErrorView>(
                            CmdErrorView::CommandExecution {
                                command: line,
                                exit_code: output.code,
                                stdout: lossy(output.stdout),
                                stderr: lossy(output.stderr),
                            },
                        )
                    },
                    EventView::Failed(source) => result == Err::<OutputView, CmdErrorView>(
                        CmdErrorView::CommandIo { command: line, source },
                    ),
                    _ => false,
                };
            assert(events[i] == earlier[i]);
        },
        _ => {},
    }
}

/// Whether the process of an attempt is known to have ended with this code.
pub open spec fn saw_exit(events: Seq<EventView>, code: Option<i32>) -> bool {
    exists|i: int| 0 <= i < events.len() && #[trigger] events[i] == EventView::Exited(code)
}

/// Whether the process ended with this code, and after that this was read.
pub open spec fn saw_stdout(events: Seq<EventView>, code: Option<i32>, stdout: Seq<u8>) -> bool {
    exists|i: int|
        0 <= i < events.len() && #[trigger] events[i] == EventView::Read(stdout) && saw_exit(
            events.take(i),
            code,
        )
}

/// Whether the process ended with this code, and after that first the one
/// was read and after it the other.
pub open spec fn saw_output(events: Seq<EventView>, output: OutputView) -> bool {
    exists|i: int|
        0 <= i < events.len() && #[trigger] events[i] == EventView::Read(output.stderr)
            && saw_stdout(events.take(i), output.code, output.stdout)
}

/// What was seen stays seen as further events come.
proof fn lemma_still_seen(events: Seq<EventView>, output: OutputView)
    requires
        events.len() > 0,
    ensures
        saw_exit(events.drop_last(), output.code) ==> saw_exit(events, output.code),
        saw_stdout(events.drop_last(), output.code, output.stdout) ==> saw_stdout(
            events,
            output.code,
            output.stdout,
        ),
        saw_output(events.drop_last(), output) ==> saw_output(events, output),
{
    let earlier = events.drop_last();
    if saw_exit(earlier, output.code) {
        let i = choose|i: int|
            0 <= i < earlier.len() && #[trigger] earlier[i] == EventView::Exited(output.code);
        assert(events[i] == earlier[i]);
    }
    if saw_stdout(earlier, output.code, output.stdout) {
        let i = choose|i: int|
            0 <= i < earlier.len() && #[trigger] earlier[i] == EventView::Read(output.stdout)
                && saw_exit(earlier.take(i), output.code);
        assert(events[i] == earlier[i]);
        assert(events.take(i) =~= earlier.take(i));
    }
    if saw_output(earlier, output) {
        let i = choose|i: int|
            0 <= i < earlier.len() && #[trigger] earlier[i] == EventView::Read(output.stderr)
                && saw_stdout(earlier.take(i), output.code, output.stdout);
        assert(events[i] == earlier[i]);
        assert(events.take(i) =~= earlier.take(i));
    }
}

/// Whether a step of an attempt under a time limit is one that these events
/// account for.
pub open spec fn accounted_for(
    limit: Duration,
    line: Seq<char>,
    events: Seq<EventView>,
    step: StepView,
) -> bool {
    match step {
        StepView::Spawn => true,
        StepView::Collect => false,
        StepView::Wait(l) => l == limit,
        StepView::Kill(l) => l == limit && events.contains(EventView::TimedOut),
        StepView::ReadStdout(code) => saw_exit(events, code),
        StepView::ReadStderr(code, stdout) => saw_stdout(events, code, stdout),
        StepView::Done(Ok(output)) => output.code == Some(0i32) && saw_output(events, output),
        StepView::Done(Err(error)) => {
            ||| exists|output: OutputView|
                output.code != Some(0i32) && #[trigger] saw_output(events, output) && error
                    == (CmdErrorView::CommandExecution {
                    command: line,
                    exit_code: output.code,
                    stdout: lossy(output.stdout),
                    stderr: lossy(output.stderr),
                })
            ||| events.contains(EventView::TimedOut) && error == (CmdErrorView::Timeout {
                command: line,
                duration: limit,
            })
            ||| exists|i: int|
                0 <= i < events.len() && (#[trigger] events[i] matches EventView::Failed(source)
                    && error == (CmdErrorView::CommandIo { command: line, source }))
        },
    }
}

/// Under a time limit an attempt ends with the exit code and the two outputs
/// of its process as they were read, in their order; with a timeout of that
/// limit only where the process overran it; or with the refusal of the
/// operating system as it was.
pub proof fn law_limited_result_is_of_its_process(
    limit: Duration,
    line: Seq<char>,
    events: Seq<EventView>,
)
    ensures
        accounted_for(
            limit,
            line,
            events,
            attempt_run(Some(limit), line, StepView::Spawn, events),
        ),
    decreases events.len(),
{
    if events.len() > 0 {
        let earlier = events.drop_last();
        let last = events.len() - 1;
        law_limited_result_is_of_its_process(limit, line, earlier);
        let before = attempt_run(Some(limit), line, StepView::Spawn, earlier);
        assert(events[last] == events.last());
        assert(events.take(last) =~= earlier);
        if earlier.contains(EventView::TimedOut) {
            let i = choose|i: int| 0 <= i < earlier.len() && earlier[i] == EventView::TimedOut;
            assert(events[i] == EventView::TimedOut);
        }
        match before {
            StepView::ReadStdout(code) => {
                lemma_still_seen(
                    events,
                    OutputView { code, stdout: Seq::empty(), stderr: Seq::empty() },
                );
            },
            StepView::ReadStderr(code, stdout) => {
                lemma_still_seen(events, OutputView { code, stdout, stderr: Seq::empty() });
                if let EventView::Read(stderr) = events.last() {
                    assert(saw_output(events, OutputView { code, stdout, stderr }));
                }
            },
            StepView::Done(Ok(output)) => {
                lemma_still_seen(events, output);
            },
            StepView::Done(Err(error)) => {
                if exists|i: int|
                    0 <= i < earlier.len() && (#[trigger] earlier[i] matches EventView::Failed(
                        source,
                    ) && error == (CmdErrorView::CommandIo { command: line, source })) {
                    let i = choose|i: int|
                        0 <= i < earlier.len() && (#[trigger] earlier[i] matches EventView::Failed(
                            source,
                        ) && error == (CmdErrorView::CommandIo { command: line, source }));
                    assert(events[i] == earlier[i]);
                } else if !earlier.contains(EventView::TimedOut) || error != (
                CmdErrorView::Timeout { command: line, duration: limit }) {
                    let output = choose|output: OutputView|
                        output.code != Some(0i32) && #[trigger] saw_output(earlier, output) && error
                            == (CmdErrorView::CommandExecution {
                            command: line,
                            exit_code: output.code,
                            stdout: lossy(output.stdout),
                            stderr: lossy(output.stderr),
                        });
                    lemma_still_seen(events, output);
                }
            },
            _ => {},
        }
    }
}

/// A process that overruns its limit is killed, and the attempt is a timeout
/// of that limit, whether or not the process could be killed.
pub proof fn law_overrun_is_killed(
    limit: Duration,
    line: Seq<char>,
    source: IoErrorView,
)
    ensures
        ({
            let overran = seq![EventView::Spawned, EventView::TimedOut];
            let step = attempt_run(Some(limit), line, StepView::Spawn, overran);
            let timeout = StepView::Done(
                Err(CmdErrorView::Timeout { command: line, duration: limit }),
            );
            &&& step == StepView::Kill(limit)
            &&& attempt_next(Some(limit), line, step, EventView::Killed) == timeout
            &&& attempt_next(Some(limit), line, step, EventView::Failed(source)) == timeout
        }),
{
    let overran = seq![EventView::Spawned, EventView::TimedOut];
    reveal_with_fuel(attempt_run, 3);
    assert(overran.drop_last() =~= seq![EventView::Spawned]);
    assert(overran.drop_last().drop_last() =~= Seq::empty());
}

/// Where the operating system refuses to start the process, to wait for it
/// or to read from it, the attempt ends with that error for the command.
pub proof fn law_refusal_ends_an_attempt(
    timeout: Option<Duration>,
    line: Seq<char>,
    step: StepView,
    source: IoErrorView,
)
    requires
        !(step is Kill || step is Done),
    ensures
        attempt_next(timeout, line, step, EventView::Failed(source)) == StepView::Done(
            Err(CmdErrorView::CommandIo { command: line, source }),
        ),
{
}

/// An attempt moves only with an event that its step calls for.
pub proof fn law_attempt_moves_with_its_events(
    timeout: Option<Duration>,
    line: Seq<char>,
    step: StepView,
    event: EventView,
)
    ensures
        attempt_next(timeout, line, step, event) != step ==> match step {
            StepView::Spawn => event is Spawned || event is Failed,
            StepView::Wait(_) => event is Exited || event is TimedOut || event is Failed,
            StepView::Collect => event is Collected || event is Failed,
            StepView::ReadStdout(_) => event is Read || event is Failed,
            StepView::ReadStderr(_, _) => event is Read || event is Failed,
            StepView::Kill(_) => event is Killed || event is Failed,
            StepView::Done(_) => false,
        },
        step is Spawn && event is Spawned ==> attempt_next(timeout, line, step, event)
            == match timeout {
            Some(limit) => StepView::Wait(limit),
            None => StepView::Collect,
        },
{
}

/// After the wait a command is tried again from the start, with the waits
/// that are left; until an attempt is over the run goes through its steps
/// and keeps its waits.
pub proof fn law_every_attempt_starts_afresh(
    timeout: Option<Duration>,
    line: Seq<char>,
    run: RunView,
    event: EventView,
)
    ensures
        run.step is Sleep ==> run_next(timeout, line, run, RunEventView::Slept) == (RunView {
            step: RunStepView::Attempt(StepView::Spawn),
            waits: run.waits,
        }),
        run.step is Sleep ==> run_next(timeout, line, run, RunEventView::Attempt(event)) == run,
        run.step matches RunStepView::Attempt(step) ==> {
            let next = attempt_next(timeout, line, step, event);
            let after = run_next(timeout, line, run, RunEventView::Attempt(event));
            &&& !(next is Done) ==> after == (RunView {
                step: RunStepView::Attempt(next),
                waits: run.waits,
            })
            &&& next matches StepView::Done(Ok(output)) ==> after == (RunView {
                step: RunStepView::Done(Ok(output)),
                waits: run.waits,
            })
            &&& next matches StepView::Done(Err(error)) ==> run.waits.len() == 0 ==> after
                == (RunView { step: RunStepView::Done(Err(error)), waits: run.waits })
            &&& run_next(timeout, line, run, RunEventView::Slept) == run
        },
{
}

/// An error is worth another attempt exactly where another attempt may go
/// otherwise: the command ran and failed, ran too long, or could not be run.
pub proof fn law_which_errors_are_retried(error: CmdErrorView)
    ensures
        retryable(error) <==> (error is CommandExecution || error is Timeout || error is CommandIo
            || error is RunError || error is TokioRunError),
{
}

/// A failed attempt whose error is worth another is followed by the first
/// wait that is left, and by nothing where none is; any other result ends
/// the command.
pub proof fn law_what_follows_an_attempt(
    waits: Seq<(u64, u32)>,
    result: Result<OutputView, CmdErrorView>,
)
    ensures
        ({
            let again = waits.len() > 0 && (result matches Err(error) && !(error is InvalidRetry
                || error is Subprocess || error is OutputParse));
            &&& again ==> settled(waits, result) == (RunView {
                step: RunStepView::Sleep { delay: waits[0], error: result->Err_0 },
                waits: waits.skip(1),
            })
            &&& !again ==> settled(waits, result) == (RunView {
                step: RunStepView::Done(result),
                waits,
            })
        }),
{
    if waits.len() > 0 {
        assert(waits.drop_first() =~= waits.skip(1));
    }
}

/// Nothing is reported unless reports are on; a report on a wait names its
/// length and the error before it, one on the end names the error or the
/// success.
pub proof fn law_reports(step: RunStep, elapsed: Duration)
    ensures
        notice_text(false, step, elapsed) is None,
        step matches RunStep::Sleep { delay, error } ==> notice_text(true, step, elapsed) == Some(
            "[RETRY] Retrying after "@ + span_text(delay) + " due to error: "@ + error_text(error@),
        ),
        step matches RunStep::Done(Err(error)) ==> notice_text(true, step, elapsed) == Some(
            "[EXEC] Command failed after all retries: "@ + error_text(error@),
        ),
        step matches RunStep::Done(Ok(_)) ==> notice_text(true, step, elapsed) == Some(
            "[EXEC] Command completed successfully"@,
        ),
        step matches RunStep::Attempt(AttemptStep::Wait(limit)) ==> notice_text(true, step, elapsed)
            == Some("[TIMEOUT] Waiting for command with timeout: "@ + span_text(limit)),
        step matches RunStep::Attempt(AttemptStep::ReadStdout(_)) ==> notice_text(
            true,
            step,
            elapsed,
        ) == Some("[TIMEOUT] Command completed in "@ + span_text(elapsed)),
        step matches RunStep::Attempt(AttemptStep::Kill(_)) ==> notice_text(true, step, elapsed)
            == Some(
            "[TIMEOUT] Command timed out after "@ + span_text(elapsed) + ", killing process"@,
        ),
        step matches RunStep::Attempt(inner) && !(inner is Wait || inner is ReadStdout
            || inner is Kill) ==> notice_text(true, step, elapsed) is None,
{
}

/// The reports before the first attempt name the command, one attempt more
/// than there are retries, and the two delays.
pub proof fn law_start_reports(
    options: CommandExecutionOptions,
    multiplier: Seq<char>,
    command: CommandView,
)
    ensures
        started_text(command) == "[EXEC] Executing command with timeout and retry: "@
            + command_line(command),
        retry_config_text(options, multiplier) == "[EXEC] Retry config: "@ + decimal(
            (options.retries + 1) as nat,
        ) + " attempts, "@ + multiplier + "x multiplier, "@ + span_text(options.retry_delay)
            + " initial delay, "@ + span_text(options.max_retry_delay) + " max delay"@,
{
}

/// The options that hold unless others are chosen: thirty seconds, three
/// retries, waits from half a second to a minute that double, no reports.
pub proof fn law_default_options(options: CommandExecutionOptions)
    ensures
        are_defaults(options) <==> (options.timeout matches Some(limit) && limit.secs() == 30
            && limit.nanos() == 0) && options.retries == 3 && options.retry_delay.secs() == 0
            && options.retry_delay.nanos() == 500_000_000 && options.max_retry_delay.secs() == 60
            && options.max_retry_delay.nanos() == 0 && options.retry_multiplier.text() == "2"@
            && !options.verbose,
{
}

/// What a step or an event of an attempt stands for is seen in full.
pub proof fn law_attempt_views(
    status: ExitStatus,
    stdout: Vec<u8>,
    output: ProcessOutput,
    error: IoError,
    limit: Duration,
)
    ensures
        AttemptStep::Wait(limit)@ == StepView::Wait(limit),
        AttemptStep::Kill(limit)@ == StepView::Kill(limit),
        AttemptStep::ReadStdout(status)@ == StepView::ReadStdout(status.code),
        AttemptStep::ReadStderr(status, stdout)@ == StepView::ReadStderr(status.code, stdout@),
        AttemptStep::Done(Ok(output))@ == StepView::Done(Ok(output@)),
        AttemptEvent::Exited(status)@ == EventView::Exited(status.code),
        AttemptEvent::Collected(output)@ == EventView::Collected(output@),
        AttemptEvent::Read(stdout)@ == EventView::Read(stdout@),
        AttemptEvent::Failed(error)@ == EventView::Failed(error@),
{
}

/// Under a time limit a process that ended is given back as it is, whatever
/// its exit code: how it is judged is not up to the limit. A result that is
/// there stays.
pub proof fn law_limited_process_is_given_back(
    line: Seq<char>,
    limit: Duration,
    output: OutputView,
    result: Result<OutputView, CmdErrorView>,
    event: EventView,
)
    ensures
        limited_next(line, StepView::Wait(limit), EventView::Exited(output.code))
            == StepView::ReadStdout(output.code),
        limited_next(line, StepView::ReadStdout(output.code), EventView::Read(output.stdout))
            == StepView::ReadStderr(output.code, output.stdout),
        limited_next(
            line,
            StepView::ReadStderr(output.code, output.stdout),
            EventView::Read(output.stderr),
        ) == StepView::Done(Ok(output)),
        limited_next(line, StepView::Wait(limit), EventView::TimedOut) == StepView::Kill(limit),
        limited_next(line, StepView::Done(result), event) == StepView::Done(result),
        limited_next(line, StepView::Spawn, event) == StepView::Spawn,
        limited_next(line, StepView::Collect, event) == StepView::Collect,
{
}

/// The steps and events of a run are seen as they are, and a run with the
/// waits that it has left.
pub proof fn law_run_is_seen_in_full(
    run: CommandRun,
    step: AttemptStep,
    event: AttemptEvent,
    delay: Duration,
    error: CmdError,
    output: ProcessOutput,
)
    ensures
        run@.step == run.step@,
        run@.waits == run.waits@,
        RunStep::Attempt(step)@ == RunStepView::Attempt(step@),
        (RunStep::Sleep { delay, error })@ == (RunStepView::Sleep {
            delay: (delay.secs(), delay.nanos()),
            error: error@,
        }),
        RunStep::Done(Ok(output))@ == RunStepView::Done(Ok(output@)),
        RunStep::Done(Err(error))@ == RunStepView::Done(Err(error@)),
        RunEvent::Attempt(event)@ == RunEventView::Attempt(event@),
        RunEvent::Slept@ is Slept,
{
}

} // verus!
