//! Commands: what to run, how a run can fail, and what the failure says.

use vstd::prelude::*;
use vstd::string::*;

use crate::io_error::{IoError, IoErrorView};
use crate::process::{OutputView, ProcessOutput};
use crate::text::{
    decimal, decimal_text, join, joined, lossy, lossy_text, quote_list, quoted_list,
    signed_decimal, signed_decimal_text, texts,
};
use crate::time::{debug_duration, debug_span, Duration};

verus! {

/// A command description that can be run again for each retry.
#[derive(Clone, Debug, PartialEq, Eq)]
pub struct CommandSpec {
    pub program: String,
    pub args: Vec<String>,
}

/// A program and its arguments as texts.
pub struct CommandView {
    pub program: Seq<char>,
    pub args: Seq<Seq<char>>,
}

impl View for CommandSpec {
    type V = CommandView;

    open spec fn view(&self) -> CommandView {
        CommandView { program: self.program@, args: texts(self.args@) }
    }
}

/// The command line: the program alone, or with its arguments after a space
/// and separated by spaces.
pub open spec fn command_line(c: CommandView) -> Seq<char> {
    if c.args.len() == 0 {
        c.program
    } else {
        c.program + " "@ + joined(c.args, " "@)
    }
}

impl CommandSpec {
    /// A command without arguments.
    pub fn new(program: &str) -> (r: Self)
        ensures
            r@ == (CommandView { program: program@, args: Seq::empty() }),
    {
        let r = CommandSpec { program: program.to_owned(), args: Vec::new() };
        assert(r@.args =~= Seq::empty());
        r
    }

    /// The command with one more argument.
    pub fn arg(self, arg: &str) -> (r: Self)
        ensures
            r@ == (CommandView { program: self@.program, args: self@.args.push(arg@) }),
    {
        let mut args = self.args;
        args.push(arg.to_owned());
        let r = CommandSpec { program: self.program, args };
        assert(r@.args =~= self@.args.push(arg@));
        r
    }

    /// The command with more arguments, in their order.
    pub fn args(self, args: &[&str]) -> (r: Self)
        ensures
            r@ == (CommandView {
                program: self@.program,
                args: self@.args + args@.map_values(|s: &str| s@),
            }),
    {
        let mut all = self.args;
        let ghost before = texts(all@);
        let ghost added = args@.map_values(|s: &str| s@);
        let mut i: usize = 0;
        while i < args.len()
            invariant
                i <= args.len(),
                added == args@.map_values(|s: &str| s@),
                texts(all@) == before + added.take(i as int),
            decreases args.len() - i,
        {
            let ghost previous = texts(all@);
            all.push(args[i].to_owned());
            proof {
                assert(texts(all@) =~= previous.push(args[i as int]@));
                assert(before + added.take(i + 1) =~= previous.push(args[i as int]@));
            }
            i += 1;
        }
        assert(added.take(i as int) =~= added);
        CommandSpec { program: self.program, args: all }
    }

    /// The command line in one text.
    pub fn to_string(&self) -> (r: String)
        ensures
            r@ == command_line(self@),
    {
        if self.args.len() == 0 {
            self.program.clone()
        } else {
            let rest = join(&self.args, " ");
            self.program.clone().concat(" ").concat(rest.as_str())
        }
    }

    /// The program, a space, and the arguments separated by spaces; the
    /// space stays where there are no arguments.
    pub fn pretty(&self) -> (r: String)
        ensures
            r@ == pretty_line(self@),
    {
        let rest = join(&self.args, " ");
        self.program.clone().concat(" ").concat(rest.as_str())
    }

    /// An equal command.
    pub fn copy(&self) -> (r: Self)
        ensures
            r@ == self@,
    {
        let mut args: Vec<String> = Vec::new();
        let mut i: usize = 0;
        while i < self.args.len()
            invariant
                i <= self.args.len(),
                args.len() == i,
                forall|k: int| 0 <= k < i ==> args[k] == #[trigger] self.args[k],
            decreases self.args.len() - i,
        {
            args.push(self.args[i].clone());
            i += 1;
        }
        assert(texts(args@) =~= texts(self.args@));
        CommandSpec { program: self.program.clone(), args }
    }
}

/// The program and its arguments as an error about a run names them.
pub open spec fn pretty_line(c: CommandView) -> Seq<char> {
    c.program + " "@ + joined(c.args, " "@)
}

/// Why a command gave no result.
#[derive(Debug)]
pub enum CmdError {
    /// The number of attempts allows none.
    InvalidRetry(u32, String),
    /// The program ran and failed: program, arguments and what it printed.
    Subprocess(String, Vec<String>, String),
    /// The program ran and failed, with all that is known of the run.
    CommandExecution {
        command: String,
        exit_code: Option<i32>,
        stdout: String,
        stderr: String,
    },
    /// The program was still running when its time was over.
    Timeout { command: String, duration: Duration },
    /// Starting the program, waiting for it or reading from it failed.
    CommandIo { command: String, source: IoError },
    /// The program printed what is not UTF-8.
    OutputParse(String, Vec<String>),
    /// The program could not be run: command line and reason.
    RunError(String, String),
    /// The program could not be run in the background, or to its end there.
    TokioRunError(String, String),
}

/// The result of running a command.
pub type CmdResult<T> = Result<T, CmdError>;

/// An error with its texts as sequences of characters.
pub enum CmdErrorView {
    InvalidRetry(u32, Seq<char>),
    Subprocess(Seq<char>, Seq<Seq<char>>, Seq<char>),
    CommandExecution {
        command: Seq<char>,
        exit_code: Option<i32>,
        stdout: Seq<char>,
        stderr: Seq<char>,
    },
    Timeout { command: Seq<char>, duration: Duration },
    CommandIo { command: Seq<char>, source: IoErrorView },
    OutputParse(Seq<char>, Seq<Seq<char>>),
    RunError(Seq<char>, Seq<char>),
    TokioRunError(Seq<char>, Seq<char>),
}

impl View for CmdError {
    type V = CmdErrorView;

    open spec fn view(&self) -> CmdErrorView {
        match self {
            CmdError::InvalidRetry(n, c) => CmdErrorView::InvalidRetry(*n, c@),
            CmdError::Subprocess(p, a, o) => CmdErrorView::Subprocess(p@, texts(a@), o@),
            CmdError::CommandExecution { command, exit_code, stdout, stderr } =>
                CmdErrorView::CommandExecution {
                    command: command@,
                    exit_code: *exit_code,
                    stdout: stdout@,
                    stderr: stderr@,
                },
            CmdError::Timeout { command, duration } => CmdErrorView::Timeout {
                command: command@,
                duration: *duration,
            },
            CmdError::CommandIo { command, source } => CmdErrorView::CommandIo {
                command: command@,
                source: source@,
            },
            CmdError::OutputParse(p, a) => CmdErrorView::OutputParse(p@, texts(a@)),
            CmdError::RunError(c, e) => CmdErrorView::RunError(c@, e@),
            CmdError::TokioRunError(c, e) => CmdErrorView::TokioRunError(c@, e@),
        }
    }
}

/// A result seen through the views of its two sides.
pub open spec fn output_result(r: CmdResult<ProcessOutput>) -> Result<OutputView, CmdErrorView> {
    match r {
        Ok(output) => Ok(output@),
        Err(error) => Err(error@),
    }
}

/// A result seen through the views of its two sides.
pub open spec fn text_result(r: CmdResult<String>) -> Result<Seq<char>, CmdErrorView> {
    match r {
        Ok(text) => Ok(text@),
        Err(error) => Err(error@),
    }
}

/// What a failed process is quoted with: its standard error, or its standard
/// output where it wrote nothing there.
pub open spec fn failure_details(output: OutputView) -> Seq<char> {
    if output.stderr.len() == 0 {
        lossy(output.stdout)
    } else {
        lossy(output.stderr)
    }
}

/// The error of a program that ran and failed.
pub open spec fn subprocess_failure(c: CommandView, output: OutputView) -> CmdErrorView {
    CmdErrorView::Subprocess(c.program, c.args, failure_details(output))
}

/// The error of a program whose output is not UTF-8.
pub open spec fn parse_failure(c: CommandView) -> CmdErrorView {
    CmdErrorView::OutputParse(c.program, c.args)
}

/// The error of a program that ran and failed, in full.
pub open spec fn execution_failure(command: Seq<char>, output: OutputView) -> CmdErrorView {
    CmdErrorView::CommandExecution {
        command,
        exit_code: output.code,
        stdout: lossy(output.stdout),
        stderr: lossy(output.stderr),
    }
}

/// An exit code as `{:?}` prints it.
pub open spec fn code_text(code: Option<i32>) -> Seq<char> {
    match code {
        Some(n) => "Some("@ + signed_decimal(n as int) + ")"@,
        None => "None"@,
    }
}

/// What an error says.
pub open spec fn error_text(e: CmdErrorView) -> Seq<char> {
    match e {
        CmdErrorView::InvalidRetry(n, c) => "Invalid retry value "@ + decimal(n as nat) + " for "@
            + c,
        CmdErrorView::Subprocess(p, a, o) => "Subprocess "@ + p + " with arguments "@ + quoted_list(
            a,
        ) + " failed with output: "@ + o,
        CmdErrorView::CommandExecution { command, exit_code, stdout, stderr } =>
            "Command execution failed: "@ + command + "\nExit code: "@ + code_text(exit_code)
            + "\nStdout: "@ + stdout + "\nStderr: "@ + stderr,
        CmdErrorView::Timeout { command, duration } => "Command timed out after "@ + debug_span(
            duration.secs(),
            duration.nanos(),
        ) + ": "@ + command,
        CmdErrorView::CommandIo { command, source } => "I/O error running "@ + command + ": "@
            + source.message,
        CmdErrorView::OutputParse(p, a) => "Command "@ + p + " with args "@ + quoted_list(a)
            + " produced output that is not valid UTF8"@,
        CmdErrorView::RunError(c, e) => "Error running '"@ + c + "': "@ + e,
        CmdErrorView::TokioRunError(c, e) => "Error async running '"@ + c + "': "@ + e,
    }
}

/// Prints an exit code as `{:?}` does.
fn print_code(code: Option<i32>) -> (r: String)
    ensures
        r@ == code_text(code),
{
    match code {
        Some(n) => {
            let digits = signed_decimal_text(n);
            "Some(".to_owned().concat(digits.as_str()).concat(")")
        },
        None => "None".to_owned(),
    }
}

impl CmdError {
    /// The error of a command that ran and failed: it quotes the standard
    /// error, or the standard output where the standard error is empty.
    pub fn subprocess_error(command: &CommandSpec, output: &ProcessOutput) -> (r: Self)
        ensures
            r@ == subprocess_failure(command@, output@),
    {
        let error_details = if output.stderr.len() == 0 {
            lossy_text(&output.stdout)
        } else {
            lossy_text(&output.stderr)
        };
        let command = command.copy();
        CmdError::Subprocess(command.program, command.args, error_details)
    }

    /// The error of a command whose output is not UTF-8.
    pub fn output_parse_error(command: &CommandSpec) -> (r: Self)
        ensures
            r@ == parse_failure(command@),
    {
        let command = command.copy();
        CmdError::OutputParse(command.program, command.args)
    }

    /// The error of a command that ran and failed, with its exit code and
    /// all it printed.
    pub fn command_execution(command: String, output: ProcessOutput) -> (r: Self)
        ensures
            r@ == execution_failure(command@, output@),
    {
        CmdError::CommandExecution {
            command,
            exit_code: output.status.code,
            stdout: lossy_text(&output.stdout),
            stderr: lossy_text(&output.stderr),
        }
    }

    /// What the error says.
    pub fn to_string(&self) -> (r: String)
        ensures
            r@ == error_text(self@),
    {
        match self {
            CmdError::InvalidRetry(n, c) => {
                let n = decimal_text(*n as u128);
                "Invalid retry value ".to_owned().concat(n.as_str()).concat(" for ").concat(
                    c.as_str(),
                )
            },
            CmdError::Subprocess(p, a, o) => {
                let a = quote_list(a);
                "Subprocess ".to_owned().concat(p.as_str()).concat(" with arguments ").concat(
                    a.as_str(),
                ).concat(" failed with output: ").concat(o.as_str())
            },
            CmdError::CommandExecution { command, exit_code, stdout, stderr } => {
                let code = print_code(*exit_code);
                "Command execution failed: ".to_owned().concat(command.as_str()).concat(
                    "\nExit code: ",
                ).concat(code.as_str()).concat("\nStdout: ").concat(stdout.as_str()).concat(
                    "\nStderr: ",
                ).concat(stderr.as_str())
            },
            CmdError::Timeout { command, duration } => {
                let duration = debug_duration(*duration);
                "Command timed out after ".to_owned().concat(duration.as_str()).concat(
                    ": ",
                ).concat(command.as_str())
            },
            CmdError::CommandIo { command, source } => {
                let source = source.to_string();
                "I/O error running ".to_owned().concat(command.as_str()).concat(": ").concat(
                    source.as_str(),
                )
            },
            CmdError::OutputParse(p, a) => {
                let a = quote_list(a);
                "Command ".to_owned().concat(p.as_str()).concat(" with args ").concat(
                    a.as_str(),
                ).concat(" produced output that is not valid UTF8")
            },
            CmdError::RunError(c, e) => {
                "Error running '".to_owned().concat(c.as_str()).concat("': ").concat(e.as_str())
            },
            CmdError::TokioRunError(c, e) => {
                "Error async running '".to_owned().concat(c.as_str()).concat("': ").concat(
                    e.as_str(),
                )
            },
        }
    }
}

/// A command line begins with the program; without arguments it is the
/// program alone, and each further argument is appended after a space.
pub proof fn law_command_line_grows_by_arguments(
    program: Seq<char>,
    args: Seq<Seq<char>>,
    arg: Seq<char>,
)
    ensures
        command_line(CommandView { program, args: Seq::empty() }) == program,
        command_line(CommandView { program, args: args.push(arg) }) == command_line(
            CommandView { program, args },
        ) + " "@ + arg,
        pretty_line(CommandView { program, args: Seq::empty() }) == program + " "@,
        pretty_line(CommandView { program, args: args.push(arg) }) == command_line(
            CommandView { program, args: args.push(arg) },
        ),
{
    reveal_strlit(" ");
    assert(args.push(arg).drop_last() =~= args);
    assert(joined(Seq::empty(), " "@) =~= Seq::empty());
    assert(program + " "@ + joined(Seq::empty(), " "@) =~= program + " "@);
    if args.len() == 0 {
        assert(args =~= Seq::empty());
        assert(args.push(arg)[0] == arg);
    } else {
        assert(program + " "@ + (joined(args, " "@) + " "@ + arg) =~= program + " "@ + joined(
            args,
            " "@,
        ) + " "@ + arg);
    }
}

/// The error of a program that failed names the program and its arguments
/// and quotes what it wrote to its standard error; only where it wrote
/// nothing there, what it wrote to its standard output.
pub proof fn law_failure_quotes_the_standard_error(command: CommandView, output: OutputView)
    ensures
        subprocess_failure(command, output) matches CmdErrorView::Subprocess(program, args, details)
            && program == command.program && args == command.args && (output.stderr.len() > 0
            ==> details == lossy(output.stderr)) && (output.stderr.len() == 0 ==> details == lossy(
            output.stdout,
        )),
        parse_failure(command) == CmdErrorView::OutputParse(command.program, command.args),
{
}

/// The full error of a program that failed has the exit code that it ended
/// with and both of its outputs, each in its place.
pub proof fn law_failure_has_code_and_outputs(line: Seq<char>, output: OutputView)
    ensures
        execution_failure(line, output) == (CmdErrorView::CommandExecution {
            command: line,
            exit_code: output.code,
            stdout: lossy(output.stdout),
            stderr: lossy(output.stderr),
        }),
{
}

/// What each error says, with all that it holds.
pub proof fn law_error_texts(
    number: u32,
    a: Seq<char>,
    b: Seq<char>,
    c: Seq<char>,
    args: Seq<Seq<char>>,
    code: i32,
    duration: Duration,
    source: IoErrorView,
)
    ensures
        error_text(CmdErrorView::InvalidRetry(number, a)) == "Invalid retry value "@ + decimal(
            number as nat,
        ) + " for "@ + a,
        error_text(CmdErrorView::Subprocess(a, args, b)) == "Subprocess "@ + a + " with arguments "@
            + quoted_list(args) + " failed with output: "@ + b,
        error_text(
            CmdErrorView::CommandExecution {
                command: a,
                exit_code: Some(code),
                stdout: b,
                stderr: c,
            },
        ) == "Command execution failed: "@ + a + "\nExit code: "@ + ("Some("@ + signed_decimal(
            code as int,
        ) + ")"@) + "\nStdout: "@ + b + "\nStderr: "@ + c,
        error_text(
            CmdErrorView::CommandExecution { command: a, exit_code: None, stdout: b, stderr: c },
        ) == "Command execution failed: "@ + a + "\nExit code: "@ + "None"@ + "\nStdout: "@ + b
            + "\nStderr: "@ + c,
        error_text(CmdErrorView::Timeout { command: a, duration }) == "Command timed out after "@
            + debug_span(duration.secs(), duration.nanos()) + ": "@ + a,
        error_text(CmdErrorView::CommandIo { command: a, source }) == "I/O error running "@ + a
            + ": "@ + source.message,
        error_text(CmdErrorView::OutputParse(a, args)) == "Command "@ + a + " with args "@
            + quoted_list(args) + " produced output that is not valid UTF8"@,
        error_text(CmdErrorView::RunError(a, b)) == "Error running '"@ + a + "': "@ + b,
        error_text(CmdErrorView::TokioRunError(a, b)) == "Error async running '"@ + a + "': "@ + b,
{
}

/// An error is seen as the error it is, with every part of it.
pub proof fn law_error_views(
    number: u32,
    a: String,
    b: String,
    c: String,
    args: Vec<String>,
    exit_code: Option<i32>,
    duration: Duration,
    source: IoError,
)
    ensures
        CmdError::InvalidRetry(number, a)@ == CmdErrorView::InvalidRetry(number, a@),
        CmdError::Subprocess(a, args, b)@ == CmdErrorView::Subprocess(a@, texts(args@), b@),
        (CmdError::CommandExecution { command: a, exit_code, stdout: b, stderr: c })@
            == (CmdErrorView::CommandExecution {
            command: a@,
            exit_code,
            stdout: b@,
            stderr: c@,
        }),
        (CmdError::Timeout { command: a, duration })@ == (CmdErrorView::Timeout {
            command: a@,
            duration,
        }),
        (CmdError::CommandIo { command: a, source })@ == (CmdErrorView::CommandIo {
            command: a@,
            source: source@,
        }),
        CmdError::OutputParse(a, args)@ == CmdErrorView::OutputParse(a@, texts(args@)),
        CmdError::RunError(a, b)@ == CmdErrorView::RunError(a@, b@),
        CmdError::TokioRunError(a, b)@ == CmdErrorView::TokioRunError(a@, b@),
{
}

/// A command and a result are seen as they are.
pub proof fn law_command_views(command: CommandSpec, output: ProcessOutput, text: String, error: CmdError)
    ensures
        command@.program == command.program@,
        command@.args.len() == command.args.len(),
        forall|i: int|
            0 <= i < command.args.len() ==> #[trigger] command@.args[i] == command.args[i]@,
        output_result(Ok(output)) == Ok::<OutputView, CmdErrorView>(output@),
        output_result(Err(error)) == Err::<OutputView, CmdErrorView>(error@),
        text_result(Ok(text)) == Ok::<Seq<char>, CmdErrorView>(text@),
        text_result(Err(error)) == Err::<Seq<char>, CmdErrorView>(error@),
{
}

} // verus!
