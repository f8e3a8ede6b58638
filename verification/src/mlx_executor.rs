//! What is particular to running the device configuration tool: which of
//! its errors pass, what the user is asked before a change that destroys
//! settings, and where its output goes.

use vstd::prelude::*;
use vstd::string::*;

use crate::cmd::{command_line, error_text, CmdError, CommandSpec, CommandView};
use crate::exec;
use crate::exec::{retryable, CommandExecutionOptions};
use crate::ids::{
    hyphenated, is_random_uuid, law_texts_do_not_collide, lemma_text_length, random_uuid, uuid_text,
};
use crate::io_error::{IoError, IoErrorView};
use crate::text::{characters, option_text, same_text, texts};
use crate::time::Duration;

verus! {

/// Why running the configuration tool gave no result.
#[derive(Debug)]
pub enum MlxRunnerError {
    VariableNotFound { variable: String },
    ArraySizeMismatch { variable: String },
    ValueConversion { variable: String },
    InvalidArrayIndex { variable: String },
    DeviceMismatch { device: String },
    NoDeviceFound,
    ConfirmationDeclined { variables: Vec<String> },
    JsonParsing { content: String },
    CommandExecution {
        command: String,
        exit_code: Option<i32>,
        stdout: String,
        stderr: String,
    },
    TempFileError { path: String, source: IoError },
    Timeout { command: String, duration: Duration },
    Io(IoError),
    GenericError(String),
}

/// Whether an error may pass by itself: the tool failed or ran too long, or
/// the operating system refused. What is wrong with the request, with the
/// device or with the tool's answer stays wrong.
pub open spec fn may_pass(error: MlxRunnerError) -> bool {
    match error {
        MlxRunnerError::CommandExecution { .. } => true,
        MlxRunnerError::TempFileError { .. } => true,
        MlxRunnerError::Timeout { .. } => true,
        MlxRunnerError::Io(_) => true,
        MlxRunnerError::GenericError(_) => true,
        _ => false,
    }
}

/// Whether an error of the tool stands for an error of its command: what is
/// known of a run that failed or timed out stays known, the rest keeps its
/// text.
pub open spec fn stands_for(tool: MlxRunnerError, error: CmdError) -> bool {
    match error {
        CmdError::CommandExecution { command, exit_code, stdout, stderr } => tool
            == (MlxRunnerError::CommandExecution { command, exit_code, stdout, stderr }),
        CmdError::Timeout { command, duration } => tool == (MlxRunnerError::Timeout {
            command,
            duration,
        }),
        CmdError::CommandIo { source, .. } => tool == MlxRunnerError::Io(source),
        _ => tool matches MlxRunnerError::GenericError(text) && text@ == error_text(error@),
    }
}

impl MlxRunnerError {
    /// The error of the tool for an error of its command: what is known of a
    /// run that failed or timed out stays known, the rest keeps its text.
    pub fn from_cmd_error(error: CmdError) -> (r: Self)
        ensures
            match error {
                CmdError::CommandExecution { command, exit_code, stdout, stderr } => r
                    == (MlxRunnerError::CommandExecution { command, exit_code, stdout, stderr }),
                CmdError::Timeout { command, duration } => r == (MlxRunnerError::Timeout {
                    command,
                    duration,
                }),
                CmdError::CommandIo { source, .. } => r == MlxRunnerError::Io(source),
                _ => r matches MlxRunnerError::GenericError(text) && text@ == error_text(error@),
            },
            retryable(error@) ==> may_pass(r),
            stands_for(r, error),
    {
        match error {
            CmdError::CommandExecution { command, exit_code, stdout, stderr } =>
                MlxRunnerError::CommandExecution { command, exit_code, stdout, stderr },
            CmdError::Timeout { command, duration } => MlxRunnerError::Timeout { command, duration },
            CmdError::CommandIo { command: _, source } => MlxRunnerError::Io(source),
            error => MlxRunnerError::GenericError(error.to_string()),
        }
    }
}

/// How the configuration tool is run.
pub struct ExecOptions {
    /// How its command is tried and tried again.
    pub command: CommandExecutionOptions,
    /// Whether progress is reported.
    pub verbose: bool,
    /// Whether commands are only shown.
    pub dry_run: bool,
}

/// Runs the configuration tool as its options say.
pub struct CommandExecutor<'a> {
    pub options: &'a ExecOptions,
}

/// What the user is told before a change to variables whose settings it
/// destroys.
pub open spec fn confirmation_lines(variables: Seq<Seq<char>>) -> Seq<Seq<char>> {
    seq!["WARNING: You are about to modify destructive variables:"@] + variables.map_values(
        |name: Seq<char>| " - "@ + name,
    ) + seq![""@]
}

/// Whether a character is white space: the spaces, tabs and line breaks of
/// Unicode.
pub open spec fn is_white(c: char) -> bool {
    let n = c as u32;
    9 <= n <= 13 || n == 0x20 || n == 0x85 || n == 0xa0 || n == 0x1680 || 0x2000 <= n <= 0x200a || n
        == 0x2028 || n == 0x2029 || n == 0x202f || n == 0x205f || n == 0x3000
}

/// A text without the white space at its start.
pub open spec fn trimmed_start(text: Seq<char>) -> Seq<char>
    decreases text.len(),
{
    if text.len() > 0 && is_white(text[0]) {
        trimmed_start(text.drop_first())
    } else {
        text
    }
}

/// A text without the white space at its end.
pub open spec fn trimmed_end(text: Seq<char>) -> Seq<char>
    decreases text.len(),
{
    if text.len() > 0 && is_white(text.last()) {
        trimmed_end(text.drop_last())
    } else {
        text
    }
}

/// A text without the white space at its two ends.
pub open spec fn trimmed(text: Seq<char>) -> Seq<char> {
    trimmed_end(trimmed_start(text))
}

/// Whether a character is white space.
fn white(c: char) -> (r: bool)
    ensures
        r == is_white(c),
{
    let n: u32 = c as u32;
    (9 <= n && n <= 13) || n == 0x20 || n == 0x85 || n == 0xa0 || n == 0x1680 || (0x2000 <= n && n
        <= 0x200a) || n == 0x2028 || n == 0x2029 || n == 0x202f || n == 0x205f || n == 0x3000
}

/// Takes the white space from the two ends of a text.
pub fn trim(text: &str) -> (r: String)
    ensures
        r@ == trimmed(text@),
{
    let list = characters(text);
    let mut start: usize = 0;
    assert(text@.skip(0) =~= text@);
    while start < list.len() && white(list[start])
        invariant
            start <= list.len(),
            list@ == text@,
            trimmed_start(text@) == trimmed_start(text@.skip(start as int)),
        decreases list.len() - start,
    {
        assert(text@.skip(start as int).drop_first() =~= text@.skip(start + 1));
        start += 1;
    }
    let ghost rest = text@.skip(start as int);
    assert(trimmed_start(text@) == rest);
    let mut end: usize = list.len();
    assert(rest.take(rest.len() as int) =~= rest);
    while start < end && white(list[end - 1])
        invariant
            start <= end <= list.len(),
            list@ == text@,
            rest == text@.skip(start as int),
            trimmed_end(rest) == trimmed_end(rest.take(end - start)),
        decreases end,
    {
        assert(rest.take(end - start).drop_last() =~= rest.take(end - start - 1));
        end -= 1;
    }
    assert(trimmed_end(rest) == rest.take(end - start));
    let mut r = String::new();
    let mut i: usize = start;
    assert(r@ =~= rest.take(0));
    while i < end
        invariant
            start <= i <= end <= list.len(),
            list@ == text@,
            rest == text@.skip(start as int),
            r@ == rest.take(i - start),
        decreases end - i,
    {
        r.push(list[i]);
        assert(rest.take(i - start).push(list[i as int]) =~= rest.take(i + 1 - start));
        i += 1;
    }
    r
}

/// An ASCII character in lower case.
pub open spec fn ascii_lower(c: char) -> char {
    if 'A' <= c && c <= 'Z' {
        (c as u8 + 32) as char
    } else {
        c
    }
}

/// Whether a text has only ASCII characters.
pub open spec fn all_ascii(text: Seq<char>) -> bool {
    forall|i: int| 0 <= i < text.len() ==> (#[trigger] text[i] as u32) < 128
}

/// What `str::to_lowercase` makes of a text.
pub uninterp spec fn lowercased(text: Seq<char>) -> Seq<char>;

/// `str::to_lowercase`: an ASCII text has its letters put into lower case;
/// how the characters beyond ASCII are mapped is left to the standard
/// library and only named.
#[verifier::external_body]
fn lowercase_text(text: &str) -> (r: String)
    ensures
        r@ == lowercased(text@),
        all_ascii(text@) ==> r@ == text@.map_values(|c: char| ascii_lower(c)),
{
    text.to_lowercase()
}

/// Whether an answer, without white space around it and in lower case, is a
/// yes.
pub open spec fn is_yes(response: Seq<char>) -> bool {
    response == "y"@ || response == "yes"@
}

/// What is shown in place of running a command.
pub open spec fn dry_run_text(operation: Seq<char>, command: CommandView) -> Seq<char> {
    "[DRY RUN] Would execute "@ + operation + ": "@ + command_line(command)
}

/// Whether a line that the user gave is a yes.
pub open spec fn goes_on(line: Seq<char>) -> bool {
    is_yes(lowercased(trimmed(line)))
}

/// The report on a temporary file, if reports are on.
pub open spec fn file_report(verbose: bool, what: Seq<char>, path: Seq<char>) -> Option<Seq<char>> {
    if verbose {
        Some(what + path)
    } else {
        None
    }
}

/// Whether an error says why a temporary file could not be made or removed.
pub open spec fn is_temp_file_error(
    error: MlxRunnerError,
    file: Seq<char>,
    reason: IoErrorView,
) -> bool {
    error matches MlxRunnerError::TempFileError { path, source } && path@ == file && source@
        == reason
}

/// The name of a temporary file with this identifier.
pub open spec fn temp_file_name(id: u128) -> Seq<char> {
    "mlxconfig-runner-"@ + hyphenated(id) + ".json"@
}

/// What stands before a name in a directory, as Unix writes paths: nothing
/// for no directory, else the directory with a slash at its end.
pub open spec fn path_start(directory: Seq<char>) -> Seq<char> {
    if directory.len() == 0 || directory.last() == '/' {
        directory
    } else {
        directory.push('/')
    }
}

/// The path of the temporary file with this identifier in a directory.
pub open spec fn temp_path(directory: Seq<char>, id: u128) -> Seq<char> {
    path_start(directory) + temp_file_name(id)
}

/// Whether a text is the path of a temporary file in a directory, with some
/// identifier that was drawn at random.
pub open spec fn is_temp_path(directory: Seq<char>, path: Seq<char>) -> bool {
    exists|id: u128| #[trigger] is_random_uuid(id) && path == temp_path(directory, id)
}

/// Different identifiers give different paths in any directory: two
/// temporary files are one only where the same identifier was drawn twice.
pub proof fn law_temp_paths_differ(directory: Seq<char>, a: u128, b: u128)
    requires
        a != b,
    ensures
        temp_path(directory, a) != temp_path(directory, b),
{
    law_texts_do_not_collide(a, b);
    let from: int = path_start(directory).len() as int + "mlxconfig-runner-"@.len();
    if temp_path(directory, a) == temp_path(directory, b) {
        lemma_text_length(a);
        lemma_text_length(b);
        assert(temp_path(directory, a).subrange(from, from + 36) =~= hyphenated(a));
        assert(temp_path(directory, b).subrange(from, from + 36) =~= hyphenated(b));
    }
}

impl<'a> CommandExecutor<'a> {
    /// What runs the tool's commands, and again while they fail: the shared
    /// executor, as the options of the command say.
    pub fn execute_with_retry(&self) -> (r: exec::CommandExecutor<'a>)
        ensures
            r.options == self.options.command,
    {
        exec::CommandExecutor { options: &self.options.command }
    }

    /// Whether an error is worth another attempt.
    pub fn should_retry_error(&self, error: &MlxRunnerError) -> (r: bool)
        ensures
            r == may_pass(*error),
    {
        match error {
            MlxRunnerError::VariableNotFound { .. } => false,
            MlxRunnerError::ArraySizeMismatch { .. } => false,
            MlxRunnerError::ValueConversion { .. } => false,
            MlxRunnerError::InvalidArrayIndex { .. } => false,
            MlxRunnerError::DeviceMismatch { .. } => false,
            MlxRunnerError::NoDeviceFound => false,
            MlxRunnerError::ConfirmationDeclined { .. } => false,
            MlxRunnerError::JsonParsing { .. } => false,
            MlxRunnerError::CommandExecution { .. } => true,
            MlxRunnerError::TempFileError { .. } => true,
            MlxRunnerError::Timeout { .. } => true,
            MlxRunnerError::Io(_) => true,
            MlxRunnerError::GenericError(_) => true,
        }
    }

    /// The lines that come before the question whether to go on.
    pub fn prompt_for_confirmation(&self, destructive_vars: &Vec<String>) -> (r: Vec<String>)
        ensures
            texts(r@) == confirmation_lines(texts(destructive_vars@)),
    {
        let mut lines: Vec<String> = Vec::new();
        lines.push("WARNING: You are about to modify destructive variables:".to_owned());
        let ghost names = texts(destructive_vars@).map_values(|name: Seq<char>| " - "@ + name);
        let ghost first = seq!["WARNING: You are about to modify destructive variables:"@];
        let mut i: usize = 0;
        assert(texts(lines@) =~= first + names.take(0));
        while i < destructive_vars.len()
            invariant
                i <= destructive_vars.len(),
                names == texts(destructive_vars@).map_values(|name: Seq<char>| " - "@ + name),
                texts(lines@) == first + names.take(i as int),
            decreases destructive_vars.len() - i,
        {
            let ghost before = texts(lines@);
            lines.push(" - ".to_owned().concat(destructive_vars[i].as_str()));
            proof {
                assert(texts(lines@) =~= before.push(names[i as int]));
                assert(first + names.take(i + 1) =~= (first + names.take(i as int)).push(
                    names[i as int],
                ));
            }
            i += 1;
        }
        let ghost before = texts(lines@);
        lines.push("".to_owned());
        proof {
            assert(names.take(i as int) =~= names);
            assert(texts(lines@) =~= before.push(""@));
            assert(first + names + seq![""@] =~= before.push(""@));
        }
        lines
    }

    /// The question whether to go on.
    pub fn confirmation_question(&self) -> (r: String)
        ensures
            r@ == "Continue? (y/N): "@,
    {
        "Continue? (y/N): ".to_owned()
    }

    /// Whether the user goes on: what the line says that was read, or why
    /// none was.
    pub fn confirmation(&self, input: Result<String, IoError>) -> (r: Result<bool, MlxRunnerError>)
        ensures
            match input {
                Ok(line) => r is Ok && r->Ok_0 == is_yes(lowercased(trimmed(line@))),
                Err(error) => r is Err && r->Err_0 == MlxRunnerError::Io(error),
            },
    {
        match input {
            Ok(line) => Ok(self.confirmed(line.as_str())),
            Err(error) => Err(MlxRunnerError::Io(error)),
        }
    }

    /// Whether the line that the user gave is a yes.
    pub fn confirmed(&self, input: &str) -> (r: bool)
        ensures
            r == is_yes(lowercased(trimmed(input@))),
            r == goes_on(input@),
            all_ascii(trimmed(input@)) ==> r == is_yes(
                trimmed(input@).map_values(|c: char| ascii_lower(c)),
            ),
    {
        let trimmed_input = trim(input);
        let response = lowercase_text(trimmed_input.as_str());
        self.response_confirms(response.as_str())
    }

    /// Whether an answer, without white space around it and in lower case,
    /// is a yes: only `y` and `yes` are.
    pub fn response_confirms(&self, response: &str) -> (r: bool)
        ensures
            r == is_yes(response@),
    {
        same_text(response, "y") || same_text(response, "yes")
    }

    /// What is reported of the user's answer; nothing unless reports are on.
    pub fn confirmation_notice(&self, confirmed: bool) -> (r: Option<String>)
        ensures
            match r {
                Some(line) => self.options.verbose && line@ == if confirmed {
                    "[CONFIRM] User confirmed destructive operation"@
                } else {
                    "[CONFIRM] User declined destructive operation"@
                },
                None => !self.options.verbose,
            },
    {
        if !self.options.verbose {
            None
        } else if confirmed {
            Some("[CONFIRM] User confirmed destructive operation".to_owned())
        } else {
            Some("[CONFIRM] User declined destructive operation".to_owned())
        }
    }

    /// A path for a temporary file in a directory, with a name that is drawn
    /// at random.
    pub fn create_temp_file(&self, prefix: &str) -> (r: String)
        ensures
            is_temp_path(prefix@, r@),
    {
        let id: u128 = random_uuid();
        let r = self.temp_file(prefix, id);
        assert(is_random_uuid(id) && r@ == temp_path(prefix@, id));
        r
    }

    /// The path of the temporary file with an identifier in a directory.
    pub fn temp_file(&self, prefix: &str, id: u128) -> (r: String)
        ensures
            r@ == temp_path(prefix@, id),
    {
        let list = characters(prefix);
        let mut path = prefix.to_owned();
        if list.len() > 0 && list[list.len() - 1] != '/' {
            path.push('/');
        }
        let text = uuid_text(id);
        let name = "mlxconfig-runner-".to_owned().concat(text.as_str()).concat(".json");
        path.concat(name.as_str())
    }

    /// What making a temporary file comes to: its path and the report of it,
    /// if reports are on, or the error that names the path that was tried.
    pub fn temp_file_created(&self, path: String, created: Result<(), IoError>) -> (r: Result<
        (String, Option<String>),
        MlxRunnerError,
    >)
        ensures
            match created {
                Ok(_) => r is Ok && r->Ok_0.0 == path && option_text(r->Ok_0.1) == file_report(
                    self.options.verbose,
                    "[TEMP] Created temporary file: "@,
                    path@,
                ),
                Err(error) => r is Err && is_temp_file_error(r->Err_0, path@, error@),
            },
    {
        match created {
            Ok(_) => {
                let report = if self.options.verbose {
                    Some("[TEMP] Created temporary file: ".to_owned().concat(path.as_str()))
                } else {
                    None
                };
                Ok((path, report))
            },
            Err(source) => Err(MlxRunnerError::TempFileError { path, source }),
        }
    }

    /// What removing a temporary file comes to, and nothing where there was
    /// none: the report of it, if reports are on, or the error that names
    /// the file.
    pub fn cleanup_temp_file(&self, path: &str, removed: Option<Result<(), IoError>>) -> (r: Result<
        Option<String>,
        MlxRunnerError,
    >)
        ensures
            match removed {
                None => r is Ok && r->Ok_0 is None,
                Some(Ok(_)) => r is Ok && option_text(r->Ok_0) == file_report(
                    self.options.verbose,
                    "[TEMP] Cleaned up temporary file: "@,
                    path@,
                ),
                Some(Err(error)) => r is Err && is_temp_file_error(r->Err_0, path@, error@),
            },
    {
        match removed {
            None => Ok(None),
            Some(Ok(_)) => {
                if self.options.verbose {
                    Ok(Some("[TEMP] Cleaned up temporary file: ".to_owned().concat(path)))
                } else {
                    Ok(None)
                }
            },
            Some(Err(source)) => Err(MlxRunnerError::TempFileError { path: path.to_owned(), source }),
        }
    }

    /// What is shown in place of running a command.
    pub fn execute_dry_run(&self, command_spec: &CommandSpec, operation_type: &str) -> (r: String)
        ensures
            r@ == "[DRY RUN] Would execute "@ + operation_type@ + ": "@ + command_line(
                command_spec@,
            ),
            r@ == dry_run_text(operation_type@, command_spec@),
    {
        let command = command_spec.to_string();
        "[DRY RUN] Would execute ".to_owned().concat(operation_type).concat(": ").concat(
            command.as_str(),
        )
    }

    /// Whether commands are only shown.
    pub fn is_dry_run(&self) -> (r: bool)
        ensures
            r == self.options.dry_run,
    {
        self.options.dry_run
    }

    /// Whether progress is reported.
    pub fn is_verbose(&self) -> (r: bool)
        ensures
            r == self.options.verbose,
    {
        self.options.verbose
    }
}

/// A trimmed text is what is left between white space at the two ends: the
/// text is that with white space before and after it, and it neither begins
/// nor ends with white space.
pub proof fn law_trimmed_is_the_middle(text: Seq<char>)
    ensures
        exists|from: int, to: int| #[trigger]
            is_middle(text, from, to) && trimmed(text) == text.subrange(from, to),
        trimmed(text).len() > 0 ==> !is_white(trimmed(text)[0]) && !is_white(trimmed(text).last()),
{
    lemma_trimmed_start(text);
    let rest = trimmed_start(text);
    lemma_trimmed_end(rest);
    let from = text.len() - rest.len();
    let to = from + trimmed(text).len();
    assert(trimmed(text) =~= text.subrange(from, to)) by {
        assert(rest =~= text.skip(from));
        assert(trimmed(text) =~= rest.take(trimmed(text).len() as int));
    }
    assert forall|i: int| to <= i < text.len() implies is_white(#[trigger] text[i]) by {
        assert(rest[i - from] == text[i]);
    }
    assert(is_middle(text, from, to));
    if trimmed(text).len() > 0 {
        assert(trimmed(text)[0] == rest[0]);
    }
}

/// Whether a text has only white space before one place and from another on.
pub open spec fn is_middle(text: Seq<char>, from: int, to: int) -> bool {
    &&& 0 <= from <= to <= text.len()
    &&& forall|i: int| 0 <= i < from ==> is_white(#[trigger] text[i])
    &&& forall|i: int| to <= i < text.len() ==> is_white(#[trigger] text[i])
}

/// Only white space is taken from the start of a text, and all of it.
proof fn lemma_trimmed_start(text: Seq<char>)
    ensures
        ({
            let rest = trimmed_start(text);
            let from = text.len() - rest.len();
            &&& 0 <= from <= text.len()
            &&& rest == text.skip(from)
            &&& forall|i: int| 0 <= i < from ==> is_white(#[trigger] text[i])
            &&& rest.len() > 0 ==> !is_white(rest[0])
        }),
    decreases text.len(),
{
    if text.len() > 0 && is_white(text[0]) {
        lemma_trimmed_start(text.drop_first());
        let rest = trimmed_start(text);
        let from = text.len() - rest.len();
        assert(rest =~= text.skip(from));
        assert forall|i: int| 0 <= i < from implies is_white(#[trigger] text[i]) by {
            if i > 0 {
                assert(text.drop_first()[i - 1] == text[i]);
            }
        }
    } else {
        assert(text.skip(0) =~= text);
    }
}

/// Only white space is taken from the end of a text, and all of it.
proof fn lemma_trimmed_end(text: Seq<char>)
    ensures
        ({
            let rest = trimmed_end(text);
            &&& rest.len() <= text.len()
            &&& rest == text.take(rest.len() as int)
            &&& forall|i: int| rest.len() <= i < text.len() ==> is_white(#[trigger] text[i])
            &&& rest.len() > 0 ==> !is_white(rest.last())
        }),
    decreases text.len(),
{
    if text.len() > 0 && is_white(text.last()) {
        lemma_trimmed_end(text.drop_last());
        let rest = trimmed_end(text);
        assert(rest =~= text.take(rest.len() as int));
        assert forall|i: int| rest.len() <= i < text.len() implies is_white(#[trigger] text[i]) by {
            if i < text.len() - 1 {
                assert(text.drop_last()[i] == text[i]);
            }
        }
    } else {
        assert(text.take(text.len() as int) =~= text);
    }
}

/// White space is the space, the tab and the line breaks, and the other
/// spaces of Unicode; no letter, digit or mark of ASCII is.
pub proof fn law_what_is_white_space(c: char)
    ensures
        (c as u32) < 0x80 ==> (is_white(c) <==> c == ' ' || 9 <= c as u32 <= 13),
        (c as u32) >= 0x80 ==> (is_white(c) <==> c as u32 == 0x85 || c as u32 == 0xa0 || c as u32
            == 0x1680 || 0x2000 <= c as u32 <= 0x200a || c as u32 == 0x2028 || c as u32 == 0x2029
            || c as u32 == 0x202f || c as u32 == 0x205f || c as u32 == 0x3000),
{
}

/// The user goes on only by `y` or `yes`: an answer that is neither, an
/// empty one among them, is a no.
pub proof fn law_only_yes_is_yes(response: Seq<char>)
    ensures
        is_yes(response) <==> response == seq!['y'] || response == seq!['y', 'e', 's'],
{
    reveal_strlit("y");
    reveal_strlit("yes");
    assert("y"@ =~= seq!['y']);
    assert("yes"@ =~= seq!['y', 'e', 's']);
}

/// A capital letter of ASCII becomes the small one of the same place in the
/// alphabet; any other character stays.
pub proof fn law_lower_case_letters(c: char)
    ensures
        'A' <= c && c <= 'Z' ==> ascii_lower(c) as u32 - 'a' as u32 == c as u32 - 'A' as u32,
        !('A' <= c && c <= 'Z') ==> ascii_lower(c) == c,
{
}

/// The user is warned first, told every variable by its name and in order,
/// and an empty line follows.
pub proof fn law_confirmation_names_every_variable(variables: Seq<Seq<char>>, i: int)
    requires
        0 <= i < variables.len(),
    ensures
        confirmation_lines(variables).len() == variables.len() + 2,
        confirmation_lines(variables)[0]
            == "WARNING: You are about to modify destructive variables:"@,
        confirmation_lines(variables)[i + 1] == " - "@ + variables[i],
        confirmation_lines(variables).last() == ""@,
{
}

/// An error may pass exactly where it is of the tool's run, of a temporary
/// file or of the operating system, or of no known sort.
pub proof fn law_which_errors_may_pass(error: MlxRunnerError)
    ensures
        may_pass(error) <==> (error is CommandExecution || error is TempFileError
            || error is Timeout || error is Io || error is GenericError),
{
}

/// A temporary file is in its directory, named for the tool and for its
/// identifier; a directory without a slash at its end gets one, and no
/// directory none.
pub proof fn law_temp_file_is_in_its_directory(directory: Seq<char>, id: u128)
    ensures
        temp_path(directory.push('/'), id) == directory.push('/') + ("mlxconfig-runner-"@
            + hyphenated(id) + ".json"@),
        directory.len() > 0 && directory.last() != '/' ==> temp_path(directory, id) == temp_path(
            directory.push('/'),
            id,
        ),
        temp_path(Seq::empty(), id) == Seq::<char>::empty() + ("mlxconfig-runner-"@ + hyphenated(id)
            + ".json"@),
        forall|path: Seq<char>|
            #![trigger is_temp_path(directory, path)]
            is_temp_path(directory, path) <==> exists|drawn: u128| #[trigger]
                is_random_uuid(drawn) && path == temp_path(directory, drawn),
{
}

/// A report on a file names it, and there is none unless reports are on; an
/// error about a file is one that names it with its reason.
pub proof fn law_file_reports(
    what: Seq<char>,
    path: Seq<char>,
    error: MlxRunnerError,
    reason: IoErrorView,
)
    ensures
        file_report(true, what, path) == Some(what + path),
        file_report(false, what, path) is None,
        is_temp_file_error(error, path, reason) <==> (error is TempFileError
            && error->TempFileError_path@ == path && error->TempFileError_source@ == reason),
{
}

/// The tool's error keeps the command, the exit code and both outputs of a
/// run that failed, the limit of one that timed out, and the error of the
/// operating system; every other error keeps what it says.
pub proof fn law_tool_error_keeps_what_is_known(tool: MlxRunnerError, error: CmdError)
    requires
        stands_for(tool, error),
    ensures
        tool is CommandExecution <==> error is CommandExecution,
        tool is Timeout <==> error is Timeout,
        tool is Io <==> error is CommandIo,
        error is CommandExecution ==> tool->CommandExecution_command
            == error->CommandExecution_command && tool->CommandExecution_exit_code
            == error->CommandExecution_exit_code && tool->CommandExecution_stdout
            == error->CommandExecution_stdout && tool->CommandExecution_stderr
            == error->CommandExecution_stderr,
        error is Timeout ==> tool->Timeout_command == error->Timeout_command
            && tool->Timeout_duration == error->Timeout_duration,
        error is CommandIo ==> tool->Io_0 == error->CommandIo_source,
        !(error is CommandExecution || error is Timeout || error is CommandIo) ==> (
        tool matches MlxRunnerError::GenericError(text) && text@ == error_text(error@)),
{
}

/// White space around an answer makes no difference to whether it is a yes.
pub proof fn law_answer_counts_without_its_margins(a: Seq<char>, b: Seq<char>)
    requires
        trimmed(a) == trimmed(b),
    ensures
        goes_on(a) == goes_on(b),
        goes_on(a) <==> lowercased(trimmed(a)) == "y"@ || lowercased(trimmed(a)) == "yes"@,
{
}

/// A text is of ASCII exactly where each of its characters is.
pub proof fn law_ascii_texts(text: Seq<char>, c: char)
    ensures
        all_ascii(Seq::empty()),
        all_ascii(text.push(c)) <==> all_ascii(text) && (c as u32) < 128,
{
    if all_ascii(text.push(c)) {
        assert(text.push(c)[text.len() as int] == c);
        assert forall|i: int| 0 <= i < text.len() implies (#[trigger] text[i] as u32) < 128 by {
            assert(text.push(c)[i] == text[i]);
        }
    }
}

/// What is shown in place of a run names what would be run, and as what.
pub proof fn law_dry_run_names_the_command(operation: Seq<char>, command: CommandView)
    ensures
        dry_run_text(operation, command) == "[DRY RUN] Would execute "@ + operation + ": "@
            + command_line(command),
{
}

} // verus!
