//! Running a command a fixed number of times until it succeeds, in the
//! foreground (`Cmd`) or in the background (`TokioCmd`).
//!
//! Each way to run is a machine: a step says what to do next, and the event
//! that comes of it leads to the next step.

use vstd::prelude::*;
use vstd::string::*;
use vstd::utf8::*;

use crate::cmd::{
    parse_failure, pretty_line, subprocess_failure, text_result, CmdError, CmdErrorView, CmdResult,
    CommandSpec, CommandView,
};
use crate::process::{succeeded, OutputView, ProcessOutput};
use crate::text::{joined, lossy, utf8_text};
use crate::time::{Duration, SystemTime};

verus! {

/// What to do next to get a command's output.
pub enum OutputStep {
    /// Run the command; so many runs are allowed, this one included.
    Run(u32),
    /// Pause after a run that failed with this output; so many runs are
    /// still allowed.
    Pause(u32, ProcessOutput),
    /// The command is over.
    Done(CmdResult<String>),
}

/// What came of a step.
pub enum OutputEvent {
    /// The command ran to its end.
    Ran(ProcessOutput),
    /// The command could not be run; the text of the error.
    Failed(String),
    /// The pause is over.
    Paused,
}

/// A step with its bytes and texts as sequences.
pub enum OutputStepView {
    Run(u32),
    Pause(u32, OutputView),
    Done(Result<Seq<char>, CmdErrorView>),
}

impl View for OutputStep {
    type V = OutputStepView;

    open spec fn view(&self) -> OutputStepView {
        match self {
            OutputStep::Run(left) => OutputStepView::Run(*left),
            OutputStep::Pause(left, last) => OutputStepView::Pause(*left, last@),
            OutputStep::Done(result) => OutputStepView::Done(text_result(*result)),
        }
    }
}

/// An event with its bytes and texts as sequences.
pub enum OutputEventView {
    Ran(OutputView),
    Failed(Seq<char>),
    Paused,
}

impl View for OutputEvent {
    type V = OutputEventView;

    open spec fn view(&self) -> OutputEventView {
        match self {
            OutputEvent::Ran(output) => OutputEventView::Ran(output@),
            OutputEvent::Failed(reason) => OutputEventView::Failed(reason@),
            OutputEvent::Paused => OutputEventView::Paused,
        }
    }
}

/// What decides how a command's output is obtained.
pub struct OutputPlan {
    pub command: CommandView,
    pub attempts: u32,
    /// Take the output of a run whatever its exit code.
    pub ignore_return: bool,
    /// Run in the background.
    pub background: bool,
}

/// The standard output as text, or the error of output that is not UTF-8.
pub open spec fn stdout_text(command: CommandView, output: OutputView) -> Result<
    Seq<char>,
    CmdErrorView,
> {
    if valid_utf8(output.stdout) {
        Ok(decode_utf8(output.stdout))
    } else {
        Err(parse_failure(command))
    }
}

/// The error of a command that could not be run.
pub open spec fn run_failure(plan: OutputPlan, reason: Seq<char>) -> CmdErrorView {
    if plan.background {
        CmdErrorView::TokioRunError(pretty_line(plan.command), reason)
    } else {
        CmdErrorView::RunError(pretty_line(plan.command), reason)
    }
}

/// The first step: the first run, or an error where no run is allowed.
pub open spec fn output_start(plan: OutputPlan) -> OutputStepView {
    if plan.attempts == 0 {
        OutputStepView::Done(
            Err(CmdErrorView::InvalidRetry(plan.attempts, pretty_line(plan.command))),
        )
    } else {
        OutputStepView::Run(plan.attempts)
    }
}

/// How many runs are left after one more.
pub open spec fn one_less(left: u32) -> u32 {
    if left == 0 {
        0
    } else {
        (left - 1) as u32
    }
}

/// The step after a step and its event; an event that does not belong to a
/// step leaves it.
pub open spec fn output_next(
    plan: OutputPlan,
    step: OutputStepView,
    event: OutputEventView,
) -> OutputStepView {
    match (step, event) {
        (OutputStepView::Run(left), OutputEventView::Ran(output)) => if succeeded(output.code)
            || plan.ignore_return {
            OutputStepView::Done(stdout_text(plan.command, output))
        } else {
            OutputStepView::Pause(one_less(left), output)
        },
        (OutputStepView::Run(_), OutputEventView::Failed(reason)) => OutputStepView::Done(
            Err(run_failure(plan, reason)),
        ),
        (OutputStepView::Pause(left, last), OutputEventView::Paused) => if left == 0 {
            OutputStepView::Done(Err(subprocess_failure(plan.command, last)))
        } else {
            OutputStepView::Run(left)
        },
        _ => step,
    }
}

/// The pause after a run that failed: a tenth of a second.
pub fn pause_between_attempts() -> (r: Duration)
    ensures
        r.secs() == 0,
        r.nanos() == 100_000_000,
{
    Duration::from_millis(100)
}

/// How many runs are left after one more.
fn count_down(left: u32) -> (r: u32)
    ensures
        r == one_less(left),
{
    if left == 0 {
        0
    } else {
        left - 1
    }
}

/// The standard output as text, or the error of output that is not UTF-8.
fn read_stdout(command: &CommandSpec, output: ProcessOutput) -> (r: CmdResult<String>)
    ensures
        text_result(r) == stdout_text(command@, output@),
{
    match utf8_text(output.stdout) {
        Some(text) => Ok(text),
        None => Err(CmdError::output_parse_error(command)),
    }
}

/// A command that runs in the foreground.
#[derive(Debug)]
pub struct Cmd {
    pub command: CommandSpec,
    /// The environment variables to set, in order.
    pub envs: Vec<(String, String)>,
    pub attempts: u32,
    pub ignore_return: bool,
}

/// The variables and values of an environment.
pub open spec fn env_texts(envs: Seq<(String, String)>) -> Seq<(Seq<char>, Seq<char>)> {
    envs.map_values(|e: (String, String)| (e.0@, e.1@))
}

/// Adds one variable to an environment.
fn push_env(envs: Vec<(String, String)>, key: &str, value: &str) -> (r: Vec<(String, String)>)
    ensures
        env_texts(r@) == env_texts(envs@).push((key@, value@)),
{
    let mut all = envs;
    all.push((key.to_owned(), value.to_owned()));
    assert(env_texts(all@) =~= env_texts(envs@).push((key@, value@)));
    all
}

impl Cmd {
    /// The part of the command that decides how its output is obtained.
    pub open spec fn plan(&self) -> OutputPlan {
        OutputPlan {
            command: self.command@,
            attempts: self.attempts,
            ignore_return: self.ignore_return,
            background: false,
        }
    }

    /// A command without arguments that is run once and has to succeed.
    pub fn new(program: &str) -> (r: Self)
        ensures
            r.command@ == (CommandView { program: program@, args: Seq::empty() }),
            env_texts(r.envs@) == Seq::<(Seq<char>, Seq<char>)>::empty(),
            r.attempts == 1,
            !r.ignore_return,
    {
        let r = Cmd {
            command: CommandSpec::new(program),
            envs: Vec::new(),
            attempts: 1,
            ignore_return: false,
        };
        assert(env_texts(r.envs@) =~= Seq::empty());
        r
    }

    /// The command with more arguments.
    pub fn args(self, args: &[&str]) -> (r: Self)
        ensures
            r.command@ == (CommandView {
                program: self.command@.program,
                args: self.command@.args + args@.map_values(|s: &str| s@),
            }),
            r == (Cmd { command: r.command, ..self }),
    {
        Cmd {
            command: self.command.args(args),
            envs: self.envs,
            attempts: self.attempts,
            ignore_return: self.ignore_return,
        }
    }

    /// The command with one more environment variable.
    pub fn env(self, key: &str, value: &str) -> (r: Self)
        ensures
            env_texts(r.envs@) == env_texts(self.envs@).push((key@, value@)),
            r == (Cmd { envs: r.envs, ..self }),
    {
        Cmd {
            command: self.command,
            envs: push_env(self.envs, key, value),
            attempts: self.attempts,
            ignore_return: self.ignore_return,
        }
    }

    /// The command with another number of runs.
    pub fn attempts(self, attempts: u32) -> (r: Self)
        ensures
            r == (Cmd { attempts, ..self }),
    {
        Cmd { attempts, ..self }
    }

    /// The command with its exit code ignored, or not.
    pub fn ignore_return(self, ignore: bool) -> (r: Self)
        ensures
            r == (Cmd { ignore_return: ignore, ..self }),
    {
        Cmd { ignore_return: ignore, ..self }
    }

    /// The first step to the command's output.
    pub fn output(&self) -> (r: OutputStep)
        ensures
            r@ == output_start(self.plan()),
    {
        if self.attempts == 0 {
            OutputStep::Done(Err(CmdError::InvalidRetry(self.attempts, self.pretty_cmd())))
        } else {
            OutputStep::Run(self.attempts)
        }
    }

    /// The next step to the command's output.
    pub fn output_step(&self, step: OutputStep, event: OutputEvent) -> (r: OutputStep)
        ensures
            r@ == output_next(self.plan(), step@, event@),
    {
        match (step, event) {
            (OutputStep::Run(left), OutputEvent::Ran(output)) => {
                if output.status.success() || self.ignore_return {
                    OutputStep::Done(read_stdout(&self.command, output))
                } else {
                    OutputStep::Pause(count_down(left), output)
                }
            },
            (OutputStep::Run(_), OutputEvent::Failed(reason)) => OutputStep::Done(
                Err(CmdError::RunError(self.pretty_cmd(), reason)),
            ),
            (OutputStep::Pause(left, last), OutputEvent::Paused) => {
                if left == 0 {
                    OutputStep::Done(Err(CmdError::subprocess_error(&self.command, &last)))
                } else {
                    OutputStep::Run(left)
                }
            },
            (step, _) => step,
        }
    }

    /// The command as its errors name it.
    pub fn pretty_cmd(&self) -> (r: String)
        ensures
            r@ == pretty_line(self.command@),
    {
        self.command.pretty()
    }
}

/// All that a command left behind, and when it ran.
#[derive(Debug)]
pub struct CmdOutput {
    pub stdout: String,
    pub stderr: String,
    pub exit_code: i32,
    pub start_time: SystemTime,
    pub end_time: SystemTime,
}

/// The output of a command with its texts as sequences.
pub struct CmdOutputView {
    pub stdout: Seq<char>,
    pub stderr: Seq<char>,
    pub exit_code: i32,
    pub start_time: SystemTime,
    pub end_time: SystemTime,
}

impl View for CmdOutput {
    type V = CmdOutputView;

    open spec fn view(&self) -> CmdOutputView {
        CmdOutputView {
            stdout: self.stdout@,
            stderr: self.stderr@,
            exit_code: self.exit_code,
            start_time: self.start_time,
            end_time: self.end_time,
        }
    }
}

/// A result seen through the views of its two sides.
pub open spec fn timed_output_view(r: CmdResult<CmdOutput>) -> Result<CmdOutputView, CmdErrorView> {
    match r {
        Ok(output) => Ok(output@),
        Err(error) => Err(error@),
    }
}

/// What to do next to run a command under a time limit.
pub enum TimedStep {
    /// Run the command, and give it up when this time has passed; so many
    /// runs are allowed, this one included.
    Run(u32, Duration),
    /// Pause after a run that failed with this output; so many runs are
    /// still allowed.
    Pause(u32, ProcessOutput),
    /// No run follows; the output of the last one, if there was one.
    Over(Option<ProcessOutput>),
    /// The command could not be run to its end.
    Failed(CmdError),
}

/// What came of a step.
pub enum TimedEvent {
    /// The command ran to its end within its time.
    Ran(ProcessOutput),
    /// The command could not be started; the text of the error.
    SpawnFailed(String),
    /// The command overran its time, or waiting for it failed; the text of
    /// the error.
    WaitFailed(String),
    /// The pause is over.
    Paused,
}

/// A step with its bytes and texts as sequences.
pub enum TimedStepView {
    /// The runs that are allowed, and the time limit as seconds and
    /// nanoseconds.
    Run(u32, (u64, u32)),
    Pause(u32, OutputView),
    Over(Option<OutputView>),
    Failed(CmdErrorView),
}

impl View for TimedStep {
    type V = TimedStepView;

    open spec fn view(&self) -> TimedStepView {
        match self {
            TimedStep::Run(left, limit) => TimedStepView::Run(*left, (limit.secs(), limit.nanos())),
            TimedStep::Pause(left, last) => TimedStepView::Pause(*left, last@),
            TimedStep::Over(last) => TimedStepView::Over(
                match last {
                    Some(output) => Some(output@),
                    None => None,
                },
            ),
            TimedStep::Failed(error) => TimedStepView::Failed(error@),
        }
    }
}

/// An event with its bytes and texts as sequences.
pub enum TimedEventView {
    Ran(OutputView),
    SpawnFailed(Seq<char>),
    WaitFailed(Seq<char>),
    Paused,
}

impl View for TimedEvent {
    type V = TimedEventView;

    open spec fn view(&self) -> TimedEventView {
        match self {
            TimedEvent::Ran(output) => TimedEventView::Ran(output@),
            TimedEvent::SpawnFailed(reason) => TimedEventView::SpawnFailed(reason@),
            TimedEvent::WaitFailed(reason) => TimedEventView::WaitFailed(reason@),
            TimedEvent::Paused => TimedEventView::Paused,
        }
    }
}

/// What decides how a command is run under a time limit.
pub struct TimedPlan {
    pub command: CommandView,
    pub attempts: u32,
    /// The time limit of each run, in seconds.
    pub timeout: u64,
}

/// The first step: the first run, or the end where no run is allowed.
pub open spec fn timed_start(plan: TimedPlan) -> TimedStepView {
    if plan.attempts == 0 {
        TimedStepView::Over(None)
    } else {
        TimedStepView::Run(plan.attempts, (plan.timeout, 0))
    }
}

/// The step after a step and its event; an event that does not belong to a
/// step leaves it.
pub open spec fn timed_next(
    plan: TimedPlan,
    step: TimedStepView,
    event: TimedEventView,
) -> TimedStepView {
    match (step, event) {
        (TimedStepView::Run(left, _), TimedEventView::Ran(output)) => if succeeded(output.code) {
            TimedStepView::Over(Some(output))
        } else {
            TimedStepView::Pause(one_less(left), output)
        },
        (TimedStepView::Run(_, _), TimedEventView::SpawnFailed(reason)) => TimedStepView::Failed(
            CmdErrorView::RunError(pretty_line(plan.command), reason),
        ),
        (TimedStepView::Run(_, _), TimedEventView::WaitFailed(reason)) => TimedStepView::Failed(
            CmdErrorView::TokioRunError(pretty_line(plan.command), reason),
        ),
        (TimedStepView::Pause(left, last), TimedEventView::Paused) => if left == 0 {
            TimedStepView::Over(Some(last))
        } else {
            TimedStepView::Run(left, (plan.timeout, 0))
        },
        _ => step,
    }
}

/// What is returned of the last run: both outputs as texts with the exit
/// code, zero where a signal ended the process; an error where an output is
/// not UTF-8, and where there was no run.
pub open spec fn timed_result(
    command: CommandView,
    attempts: u32,
    last: Option<OutputView>,
    start_time: SystemTime,
    end_time: SystemTime,
) -> Result<CmdOutputView, CmdErrorView> {
    match last {
        Some(output) => if valid_utf8(output.stdout) && valid_utf8(output.stderr) {
            Ok(
                CmdOutputView {
                    stdout: decode_utf8(output.stdout),
                    stderr: decode_utf8(output.stderr),
                    exit_code: match output.code {
                        Some(code) => code,
                        None => 0,
                    },
                    start_time,
                    end_time,
                },
            )
        } else {
            Err(parse_failure(command))
        },
        None => Err(CmdErrorView::InvalidRetry(attempts, pretty_line(command))),
    }
}

/// A command that runs in the background.
#[derive(Debug)]
pub struct TokioCmd {
    pub command: CommandSpec,
    /// The environment variables to set, in order.
    pub envs: Vec<(String, String)>,
    pub attempts: u32,
    /// The time limit of one run in seconds.
    pub timeout: u64,
}

impl TokioCmd {
    /// The part of the command that decides how its output is obtained.
    pub open spec fn plan(&self) -> OutputPlan {
        OutputPlan {
            command: self.command@,
            attempts: self.attempts,
            ignore_return: false,
            background: true,
        }
    }

    /// A command without arguments that is run once, for an hour at most.
    pub fn new(program: &str) -> (r: Self)
        ensures
            r.command@ == (CommandView { program: program@, args: Seq::empty() }),
            env_texts(r.envs@) == Seq::<(Seq<char>, Seq<char>)>::empty(),
            r.attempts == 1,
            r.timeout == 3600,
    {
        let r = TokioCmd {
            command: CommandSpec::new(program),
            envs: Vec::new(),
            attempts: 1,
            timeout: 3600,
        };
        assert(env_texts(r.envs@) =~= Seq::empty());
        r
    }

    /// The command with more arguments.
    pub fn args(self, args: &[&str]) -> (r: Self)
        ensures
            r.command@ == (CommandView {
                program: self.command@.program,
                args: self.command@.args + args@.map_values(|s: &str| s@),
            }),
            r == (TokioCmd { command: r.command, ..self }),
    {
        TokioCmd {
            command: self.command.args(args),
            envs: self.envs,
            attempts: self.attempts,
            timeout: self.timeout,
        }
    }

    /// The command with one more environment variable.
    pub fn env(self, key: &str, value: &str) -> (r: Self)
        ensures
            env_texts(r.envs@) == env_texts(self.envs@).push((key@, value@)),
            r == (TokioCmd { envs: r.envs, ..self }),
    {
        TokioCmd {
            command: self.command,
            envs: push_env(self.envs, key, value),
            attempts: self.attempts,
            timeout: self.timeout,
        }
    }

    /// The command with another number of runs.
    pub fn attempts(self, attempts: u32) -> (r: Self)
        ensures
            r == (TokioCmd { attempts, ..self }),
    {
        TokioCmd { attempts, ..self }
    }

    /// The command with another time limit, in seconds.
    pub fn timeout(self, timeout: u64) -> (r: Self)
        ensures
            r == (TokioCmd { timeout, ..self }),
    {
        TokioCmd { timeout, ..self }
    }

    /// What decides how the command is run under the time limit.
    pub open spec fn timed_plan(&self) -> TimedPlan {
        TimedPlan { command: self.command@, attempts: self.attempts, timeout: self.timeout }
    }

    /// How long each run under the time limit may take.
    pub fn time_limit(&self) -> (r: Duration)
        ensures
            r.secs() == self.timeout,
            r.nanos() == 0,
    {
        Duration::new(self.timeout, 0)
    }

    /// The first step to a run under the time limit.
    pub fn output_with_timeout(&self) -> (r: TimedStep)
        ensures
            r@ == timed_start(self.timed_plan()),
    {
        if self.attempts == 0 {
            TimedStep::Over(None)
        } else {
            TimedStep::Run(self.attempts, self.time_limit())
        }
    }

    /// The next step of a run under the time limit.
    pub fn timed_step(&self, step: TimedStep, event: TimedEvent) -> (r: TimedStep)
        ensures
            r@ == timed_next(self.timed_plan(), step@, event@),
    {
        match (step, event) {
            (TimedStep::Run(left, _), TimedEvent::Ran(output)) => {
                if output.status.success() {
                    TimedStep::Over(Some(output))
                } else {
                    TimedStep::Pause(count_down(left), output)
                }
            },
            (TimedStep::Run(_, _), TimedEvent::SpawnFailed(reason)) => TimedStep::Failed(
                CmdError::RunError(self.pretty_cmd(), reason),
            ),
            (TimedStep::Run(_, _), TimedEvent::WaitFailed(reason)) => TimedStep::Failed(
                CmdError::TokioRunError(self.pretty_cmd(), reason),
            ),
            (TimedStep::Pause(left, last), TimedEvent::Paused) => {
                if left == 0 {
                    TimedStep::Over(Some(last))
                } else {
                    TimedStep::Run(left, self.time_limit())
                }
            },
            (step, _) => step,
        }
    }

    /// What is returned once no run follows, with the times at which the
    /// first run began and the last ended.
    pub fn timed_output(
        &self,
        last: Option<ProcessOutput>,
        start_time: SystemTime,
        end_time: SystemTime,
    ) -> (r: CmdResult<CmdOutput>)
        ensures
            timed_output_view(r) == timed_result(
                self.command@,
                self.attempts,
                match last {
                    Some(output) => Some(output@),
                    None => None,
                },
                start_time,
                end_time,
            ),
    {
        match last {
            Some(output) => {
                let stdout = match utf8_text(output.stdout) {
                    Some(text) => text,
                    None => {
                        return Err(CmdError::output_parse_error(&self.command));
                    },
                };
                let stderr = match utf8_text(output.stderr) {
                    Some(text) => text,
                    None => {
                        return Err(CmdError::output_parse_error(&self.command));
                    },
                };
                let exit_code: i32 = match output.status.code {
                    Some(code) => code,
                    None => 0,
                };
                Ok(CmdOutput { stdout, stderr, exit_code, start_time, end_time })
            },
            None => Err(CmdError::InvalidRetry(self.attempts, self.pretty_cmd())),
        }
    }

    /// The first step to the command's output.
    pub fn output(&self) -> (r: OutputStep)
        ensures
            r@ == output_start(self.plan()),
    {
        if self.attempts == 0 {
            OutputStep::Done(Err(CmdError::InvalidRetry(self.attempts, self.pretty_cmd())))
        } else {
            OutputStep::Run(self.attempts)
        }
    }

    /// The next step to the command's output.
    pub fn output_step(&self, step: OutputStep, event: OutputEvent) -> (r: OutputStep)
        ensures
            r@ == output_next(self.plan(), step@, event@),
    {
        match (step, event) {
            (OutputStep::Run(left), OutputEvent::Ran(output)) => {
                if output.status.success() {
                    OutputStep::Done(read_stdout(&self.command, output))
                } else {
                    OutputStep::Pause(count_down(left), output)
                }
            },
            (OutputStep::Run(_), OutputEvent::Failed(reason)) => OutputStep::Done(
                Err(CmdError::TokioRunError(self.pretty_cmd(), reason)),
            ),
            (OutputStep::Pause(left, last), OutputEvent::Paused) => {
                if left == 0 {
                    OutputStep::Done(Err(CmdError::subprocess_error(&self.command, &last)))
                } else {
                    OutputStep::Run(left)
                }
            },
            (step, _) => step,
        }
    }

    /// The command as its errors name it.
    pub fn pretty_cmd(&self) -> (r: String)
        ensures
            r@ == pretty_line(self.command@),
    {
        self.command.pretty()
    }
}

/// The step that a command reaches from its first through a list of events.
pub open spec fn output_trace(plan: OutputPlan, events: Seq<OutputEventView>) -> OutputStepView
    decreases events.len(),
{
    if events.len() == 0 {
        output_start(plan)
    } else {
        output_next(plan, output_trace(plan, events.drop_last()), events.last())
    }
}

/// What the runs came to that ended through a list of events, in order: the
/// output of the process, or why there was none.
pub open spec fn runs_made(plan: OutputPlan, events: Seq<OutputEventView>) -> Seq<
    Result<OutputView, Seq<char>>,
>
    decreases events.len(),
{
    if events.len() == 0 {
        Seq::empty()
    } else {
        let runs = runs_made(plan, events.drop_last());
        match (output_trace(plan, events.drop_last()), events.last()) {
            (OutputStepView::Run(_), OutputEventView::Ran(output)) => runs.push(Ok(output)),
            (OutputStepView::Run(_), OutputEventView::Failed(reason)) => runs.push(Err(reason)),
            _ => runs,
        }
    }
}

/// Whether no further run follows one that came to this.
pub open spec fn settles(plan: OutputPlan, run: Result<OutputView, Seq<char>>) -> bool {
    match run {
        Ok(output) => succeeded(output.code) || plan.ignore_return,
        Err(_) => true,
    }
}

/// The result of a command whose last run came to this.
pub open spec fn result_of_last(plan: OutputPlan, run: Result<OutputView, Seq<char>>) -> Result<
    Seq<char>,
    CmdErrorView,
> {
    match run {
        Err(reason) => Err(run_failure(plan, reason)),
        Ok(output) => if succeeded(output.code) || plan.ignore_return {
            stdout_text(plan.command, output)
        } else {
            Err(subprocess_failure(plan.command, output))
        },
    }
}

/// A command that may run so many times never runs more often; every run
/// but the last ended without success; a command that is over ran at least
/// once, and where runs were left its last run settled the matter; and its
/// result is that of its last run: its standard output as text, or an error
/// that quotes it.
pub proof fn law_output_is_of_last_run(plan: OutputPlan, events: Seq<OutputEventView>)
    requires
        plan.attempts > 0,
    ensures
        ({
            let runs = runs_made(plan, events);
            &&& runs.len() <= plan.attempts
            &&& forall|i: int| 0 <= i < runs.len() - 1 ==> !settles(plan, #[trigger] runs[i])
            &&& match output_trace(plan, events) {
                OutputStepView::Run(left) => left > 0 && left + runs.len() == plan.attempts && (
                runs.len() > 0 ==> !settles(plan, runs.last())),
                OutputStepView::Pause(left, last) => runs.len() > 0 && left + runs.len()
                    == plan.attempts && runs.last() == Ok::<OutputView, Seq<char>>(last)
                    && !settles(plan, runs.last()),
                OutputStepView::Done(result) => runs.len() > 0 && result == result_of_last(
                    plan,
                    runs.last(),
                ) && (runs.len() < plan.attempts ==> settles(plan, runs.last())),
            }
        }),
    decreases events.len(),
{
    if events.len() > 0 {
        let earlier = events.drop_last();
        law_output_is_of_last_run(plan, earlier);
        let runs0 = runs_made(plan, earlier);
        let runs = runs_made(plan, events);
        assert forall|i: int| 0 <= i < runs.len() - 1 implies !settles(plan, #[trigger] runs[i]) by {
            if i < runs0.len() {
                assert(runs[i] == runs0[i]);
            }
        }
    }
}

/// A command that may not run at all never does, and is an error.
pub proof fn law_no_attempts_no_run(plan: OutputPlan, events: Seq<OutputEventView>)
    requires
        plan.attempts == 0,
    ensures
        output_trace(plan, events) == OutputStepView::Done(
            Err(CmdErrorView::InvalidRetry(0, pretty_line(plan.command))),
        ),
        runs_made(plan, events).len() == 0,
    decreases events.len(),
{
    if events.len() > 0 {
        law_no_attempts_no_run(plan, events.drop_last());
    }
}

/// A command whose exit code is ignored runs at most once, however many runs
/// it may have, and is over with that run.
pub proof fn law_ignored_return_runs_once(plan: OutputPlan, events: Seq<OutputEventView>)
    requires
        plan.ignore_return,
        plan.attempts > 0,
    ensures
        runs_made(plan, events).len() <= 1,
        runs_made(plan, events).len() == 1 ==> output_trace(plan, events) is Done,
{
    law_output_is_of_last_run(plan, events);
    let runs = runs_made(plan, events);
    if runs.len() > 1 {
        assert(settles(plan, runs[0]));
    }
}

/// A step of a command in the foreground as it is in the background: the
/// same, but for the error of a command that could not be run.
pub open spec fn in_background(step: OutputStepView) -> OutputStepView {
    match step {
        OutputStepView::Done(Err(CmdErrorView::RunError(line, reason))) => OutputStepView::Done(
            Err(CmdErrorView::TokioRunError(line, reason)),
        ),
        _ => step,
    }
}

/// A command in the background goes through the same runs and pauses to the
/// same result as in the foreground, but for the error of a run that could
/// not be made, which has another kind and the same texts.
pub proof fn law_background_makes_no_difference(plan: OutputPlan, events: Seq<OutputEventView>)
    requires
        !plan.background,
    ensures
        ({
            let background = OutputPlan { background: true, ..plan };
            &&& output_trace(background, events) == in_background(output_trace(plan, events))
            &&& runs_made(background, events) == runs_made(plan, events)
        }),
    decreases events.len(),
{
    if events.len() > 0 {
        law_background_makes_no_difference(plan, events.drop_last());
    }
}

/// One run under a time limit.
pub enum TimedRun {
    Ran(OutputView),
    SpawnFailed(Seq<char>),
    WaitFailed(Seq<char>),
}

/// The step that a command under a time limit reaches from its first through
/// a list of events.
pub open spec fn timed_trace(
    plan: TimedPlan,
    events: Seq<TimedEventView>,
) -> TimedStepView
    decreases events.len(),
{
    if events.len() == 0 {
        timed_start(plan)
    } else {
        timed_next(plan, timed_trace(plan, events.drop_last()), events.last())
    }
}

/// What the runs under a time limit came to that ended through a list of
/// events, in order.
pub open spec fn timed_runs_made(
    plan: TimedPlan,
    events: Seq<TimedEventView>,
) -> Seq<TimedRun>
    decreases events.len(),
{
    if events.len() == 0 {
        Seq::empty()
    } else {
        let earlier = events.drop_last();
        let runs = timed_runs_made(plan, earlier);
        match (timed_trace(plan, earlier), events.last()) {
            (TimedStepView::Run(_, _), TimedEventView::Ran(output)) => runs.push(
                TimedRun::Ran(output),
            ),
            (TimedStepView::Run(_, _), TimedEventView::SpawnFailed(reason)) => runs.push(
                TimedRun::SpawnFailed(reason),
            ),
            (TimedStepView::Run(_, _), TimedEventView::WaitFailed(reason)) => runs.push(
                TimedRun::WaitFailed(reason),
            ),
            _ => runs,
        }
    }
}

/// Whether a run ended without success, so that another may follow.
pub open spec fn may_run_again(run: TimedRun) -> bool {
    run matches TimedRun::Ran(output) && !succeeded(output.code)
}

/// Under a time limit too a command never runs more often than it may; only
/// runs that ended without success are followed by another; every run has the
/// command's time limit; and once no run follows, the output, successful or
/// not, or the error is that of the last run.
pub proof fn law_timed_output_is_of_last_run(
    plan: TimedPlan,
    events: Seq<TimedEventView>,
)
    requires
        plan.attempts > 0,
    ensures
        ({
            let runs = timed_runs_made(plan, events);
            &&& runs.len() <= plan.attempts
            &&& forall|i: int| 0 <= i < runs.len() - 1 ==> may_run_again(#[trigger] runs[i])
            &&& match timed_trace(plan, events) {
                TimedStepView::Run(left, limit) => limit == (plan.timeout, 0u32) && left > 0 && left + runs.len() == plan.attempts && (runs.len()
                    > 0 ==> may_run_again(runs.last())),
                TimedStepView::Pause(left, last) => runs.len() > 0 && left + runs.len() == plan.attempts
                    && runs.last() == TimedRun::Ran(last) && may_run_again(runs.last()),
                TimedStepView::Over(last) => runs.len() > 0 && last is Some && runs.last()
                    == TimedRun::Ran(last->0) && (runs.len() < plan.attempts ==> !may_run_again(
                    runs.last(),
                )),
                TimedStepView::Failed(error) => runs.len() > 0 && match runs.last() {
                    TimedRun::Ran(_) => false,
                    TimedRun::SpawnFailed(reason) => error == CmdErrorView::RunError(
                        pretty_line(plan.command),
                        reason,
                    ),
                    TimedRun::WaitFailed(reason) => error == CmdErrorView::TokioRunError(
                        pretty_line(plan.command),
                        reason,
                    ),
                },
            }
        }),
    decreases events.len(),
{
    if events.len() > 0 {
        let earlier = events.drop_last();
        law_timed_output_is_of_last_run(plan, earlier);
        let runs0 = timed_runs_made(plan, earlier);
        let runs = timed_runs_made(plan, events);
        assert forall|i: int| 0 <= i < runs.len() - 1 implies may_run_again(
            #[trigger] runs[i],
        ) by {
            if i < runs0.len() {
                assert(runs[i] == runs0[i]);
            }
        }
    }
}

/// A command that is over gives what its last run left behind. Where that
/// run settled it, the result is the text of the run's standard output if
/// those bytes are UTF-8, and an error that names the command if they are
/// not, whatever the run wrote to its standard error; where the runs are
/// used up, it is an error that quotes the standard error, or the standard
/// output where the standard error is empty.
pub proof fn law_result_is_the_standard_output(
    plan: OutputPlan,
    events: Seq<OutputEventView>,
    result: Result<Seq<char>, CmdErrorView>,
)
    requires
        plan.attempts > 0,
        output_trace(plan, events) == OutputStepView::Done(result),
    ensures
        ({
            let runs = runs_made(plan, events);
            &&& runs.len() > 0
            &&& match runs.last() {
                Ok(output) => {
                    let settled = output.code == Some(0i32) || plan.ignore_return;
                    &&& settled && valid_utf8(output.stdout) ==> result == Ok::<
                        Seq<char>,
                        CmdErrorView,
                    >(decode_utf8(output.stdout))
                    &&& settled && !valid_utf8(output.stdout) ==> result == Err::<
                        Seq<char>,
                        CmdErrorView,
                    >(CmdErrorView::OutputParse(plan.command.program, plan.command.args))
                    &&& !settled && output.stderr.len() > 0 ==> result == Err::<
                        Seq<char>,
                        CmdErrorView,
                    >(
                        CmdErrorView::Subprocess(
                            plan.command.program,
                            plan.command.args,
                            lossy(output.stderr),
                        ),
                    )
                    &&& !settled && output.stderr.len() == 0 ==> result == Err::<
                        Seq<char>,
                        CmdErrorView,
                    >(
                        CmdErrorView::Subprocess(
                            plan.command.program,
                            plan.command.args,
                            lossy(output.stdout),
                        ),
                    )
                    &&& !settled ==> runs.len() == plan.attempts
                },
                Err(reason) => result == Err::<Seq<char>, CmdErrorView>(
                    if plan.background {
                        CmdErrorView::TokioRunError(
                            plan.command.program + " "@ + joined(plan.command.args, " "@),
                            reason,
                        )
                    } else {
                        CmdErrorView::RunError(
                            plan.command.program + " "@ + joined(plan.command.args, " "@),
                            reason,
                        )
                    },
                ),
            }
        }),
{
    law_output_is_of_last_run(plan, events);
}

/// Two runs that succeed with the same standard output give the same result,
/// whatever they write to their standard error.
pub proof fn law_standard_error_of_a_success_is_ignored(
    plan: OutputPlan,
    left: u32,
    stdout: Seq<u8>,
    stderr: Seq<u8>,
    other_stderr: Seq<u8>,
)
    ensures
        output_next(
            plan,
            OutputStepView::Run(left),
            OutputEventView::Ran(OutputView { code: Some(0i32), stdout, stderr }),
        ) == output_next(
            plan,
            OutputStepView::Run(left),
            OutputEventView::Ran(OutputView { code: Some(0i32), stdout, stderr: other_stderr }),
        ),
        valid_utf8(stdout) ==> output_next(
            plan,
            OutputStepView::Run(left),
            OutputEventView::Ran(OutputView { code: Some(0i32), stdout, stderr }),
        ) == OutputStepView::Done(Ok(decode_utf8(stdout))),
{
}

/// A run that fails is followed by a pause, with one run less allowed, and
/// the pause by the next run or, where none is allowed, by the end; a
/// command moves only with the event that its step calls for.
pub proof fn law_failed_run_is_followed_by_a_pause(
    plan: OutputPlan,
    left: u32,
    output: OutputView,
    event: OutputEventView,
    step: OutputStepView,
)
    requires
        left > 0,
    ensures
        output.code != Some(0i32) && !plan.ignore_return ==> output_next(
            plan,
            OutputStepView::Run(left),
            OutputEventView::Ran(output),
        ) == OutputStepView::Pause((left - 1) as u32, output),
        output_next(plan, OutputStepView::Pause(left, output), OutputEventView::Paused)
            == OutputStepView::Run(left),
        output_next(plan, OutputStepView::Pause(0, output), OutputEventView::Paused) is Done,
        output_next(plan, step, event) != step ==> match step {
            OutputStepView::Run(_) => event is Ran || event is Failed,
            OutputStepView::Pause(_, _) => event is Paused,
            OutputStepView::Done(_) => false,
        },
{
}

/// A command begins with its first run and all its runs allowed, or is an
/// error that names the number and the command where it may not run.
pub proof fn law_first_step_of_a_command(plan: OutputPlan)
    ensures
        plan.attempts > 0 ==> output_start(plan) == OutputStepView::Run(plan.attempts),
        plan.attempts == 0 ==> output_start(plan) == OutputStepView::Done(
            Err(
                CmdErrorView::InvalidRetry(
                    0,
                    plan.command.program + " "@ + joined(plan.command.args, " "@),
                ),
            ),
        ),
{
}

/// Whatever its exit code, a command under a time limit gives both outputs
/// of its last run as texts where both are UTF-8, each from its own bytes,
/// with the exit code, zero where a signal ended the process, and the times
/// it was given; where one output is not UTF-8 it is an error that names the
/// command.
pub proof fn law_timed_result_has_both_outputs(
    plan: TimedPlan,
    output: OutputView,
    start_time: SystemTime,
    end_time: SystemTime,
)
    ensures
        ({
            let result = timed_result(
                plan.command,
                plan.attempts,
                Some(output),
                start_time,
                end_time,
            );
            &&& result is Ok <==> valid_utf8(output.stdout) && valid_utf8(output.stderr)
            &&& result matches Ok(left) ==> {
                &&& left.stdout == decode_utf8(output.stdout)
                &&& left.stderr == decode_utf8(output.stderr)
                &&& output.code matches Some(code) ==> left.exit_code == code
                &&& output.code is None ==> left.exit_code == 0
                &&& left.start_time == start_time
                &&& left.end_time == end_time
            }
            &&& result matches Err(error) ==> error == CmdErrorView::OutputParse(
                plan.command.program,
                plan.command.args,
            )
        }),
        timed_result(plan.command, plan.attempts, None, start_time, end_time) == Err::<
            CmdOutputView,
            CmdErrorView,
        >(
            CmdErrorView::InvalidRetry(
                plan.attempts,
                plan.command.program + " "@ + joined(plan.command.args, " "@),
            ),
        ),
{
}

/// A command under a time limit that is over without an error has the output
/// of its last run, unchanged in its exit code and its two outputs; one that
/// could not be started and one that could not be waited for are different
/// errors with the same command line.
pub proof fn law_timed_run_keeps_its_output(
    plan: TimedPlan,
    events: Seq<TimedEventView>,
)
    requires
        plan.attempts > 0,
    ensures
        timed_trace(plan, events) matches TimedStepView::Over(last) ==> {
            let runs = timed_runs_made(plan, events);
            &&& last matches Some(output) && runs.last() == TimedRun::Ran(output) && (output.code
                == Some(0i32) || runs.len() == plan.attempts)
        },
        timed_trace(plan, events) matches TimedStepView::Failed(error) ==> {
            let line = plan.command.program + " "@ + joined(plan.command.args, " "@);
            match timed_runs_made(plan, events).last() {
                TimedRun::Ran(_) => false,
                TimedRun::SpawnFailed(reason) => error == CmdErrorView::RunError(line, reason),
                TimedRun::WaitFailed(reason) => error == CmdErrorView::TokioRunError(line, reason),
            }
        },
{
    law_timed_output_is_of_last_run(plan, events);
}

/// Under a time limit too a run that fails is followed by a pause with one
/// run less allowed, and a success ends the command; a command moves only
/// with the event that its step calls for.
pub proof fn law_timed_failure_is_followed_by_a_pause(
    plan: TimedPlan,
    left: u32,
    limit: (u64, u32),
    output: OutputView,
    event: TimedEventView,
    step: TimedStepView,
)
    requires
        left > 0,
    ensures
        timed_next(plan, TimedStepView::Run(left, limit), TimedEventView::Ran(output))
            == if output.code == Some(0i32) {
            TimedStepView::Over(Some(output))
        } else {
            TimedStepView::Pause((left - 1) as u32, output)
        },
        timed_next(plan, TimedStepView::Pause(left, output), TimedEventView::Paused)
            == TimedStepView::Run(left, (plan.timeout, 0)),
        timed_next(plan, TimedStepView::Pause(0, output), TimedEventView::Paused)
            == TimedStepView::Over(Some(output)),
        timed_next(plan, step, event) != step ==> match step {
            TimedStepView::Run(_, _) => event is Ran || event is SpawnFailed || event is WaitFailed,
            TimedStepView::Pause(_, _) => event is Paused,
            _ => false,
        },
        plan.attempts > 0 ==> timed_start(plan) == TimedStepView::Run(
            plan.attempts,
            (plan.timeout, 0),
        ),
        plan.attempts == 0 ==> timed_start(plan) == TimedStepView::Over(None),
{
}

/// How a command is run is what it was built with.
pub proof fn law_plans(cmd: Cmd, background: TokioCmd)
    ensures
        cmd.plan() == (OutputPlan {
            command: cmd.command@,
            attempts: cmd.attempts,
            ignore_return: cmd.ignore_return,
            background: false,
        }),
        background.plan() == (OutputPlan {
            command: background.command@,
            attempts: background.attempts,
            ignore_return: false,
            background: true,
        }),
        background.timed_plan() == (TimedPlan {
            command: background.command@,
            attempts: background.attempts,
            timeout: background.timeout,
        }),
{
}

/// What a run leaves behind is seen in full.
pub proof fn law_run_views(
    output: CmdOutput,
    ran: ProcessOutput,
    error: CmdError,
    left: u32,
    limit: Duration,
)
    ensures
        output@.stdout == output.stdout@,
        output@.stderr == output.stderr@,
        output@.exit_code == output.exit_code,
        output@.start_time == output.start_time,
        output@.end_time == output.end_time,
        timed_output_view(Ok(output)) == Ok::<CmdOutputView, CmdErrorView>(output@),
        timed_output_view(Err(error)) == Err::<CmdOutputView, CmdErrorView>(error@),
        OutputEvent::Ran(ran)@ == OutputEventView::Ran(ran@),
        OutputStep::Done(Err(error))@ == OutputStepView::Done(Err(error@)),
        TimedEvent::Ran(ran)@ == TimedEventView::Ran(ran@),
        TimedStep::Over(Some(ran))@ == TimedStepView::Over(Some(ran@)),
        TimedStep::Failed(error)@ == TimedStepView::Failed(error@),
        TimedStep::Run(left, limit)@ == TimedStepView::Run(left, (limit.secs(), limit.nanos())),
{
}

/// An environment is seen variable by variable, in order.
pub proof fn law_environment_is_seen_in_full(envs: Seq<(String, String)>, i: int)
    requires
        0 <= i < envs.len(),
    ensures
        env_texts(envs).len() == envs.len(),
        env_texts(envs)[i] == (envs[i].0@, envs[i].1@),
{
}

} // verus!
