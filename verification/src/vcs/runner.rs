//! The subprocess seam underneath [`ShellVcs`](crate::vcs::shell::ShellVcs).
//!
//! Deciding which command line expresses an operation, and reading what it
//! printed, is one job; running it is another. Only the second one is behind
//! [`CommandRunner`], which knows nothing of `git` or `gh`.

use vstd::prelude::*;

use crate::failure::{IoError, IoErrorKind, IoErrorView};
use crate::vcs::{VcsError, VcsErrorView};

verus! {

/// What one finished subprocess printed and how it exited.
#[derive(Debug, Eq, PartialEq)]
pub struct CommandOutput {
    /// The process exit code, or `-1` when a signal terminated it.
    pub status: i32,
    /// Everything the process wrote to stdout.
    pub stdout: String,
    /// Everything the process wrote to stderr.
    pub stderr: String,
}

/// The contents of a [`CommandOutput`].
pub struct CommandOutputView {
    pub status: i32,
    pub stdout: Seq<char>,
    pub stderr: Seq<char>,
}

impl View for CommandOutput {
    type V = CommandOutputView;

    open spec fn view(&self) -> CommandOutputView {
        CommandOutputView { status: self.status, stdout: self.stdout@, stderr: self.stderr@ }
    }
}

impl CommandOutput {
    /// Whether the process exited zero.
    pub fn is_success(&self) -> (success: bool)
        ensures
            success == (self@.status == 0),
    {
        self.status == 0
    }
}

/// One run of a program: what was run, and what came back.
pub struct Run {
    pub program: Seq<char>,
    pub args: Seq<Seq<char>>,
    pub cwd: Option<Seq<char>>,
    pub result: Result<CommandOutputView, VcsErrorView>,
}

/// The contents of an optional directory.
pub open spec fn directory(cwd: Option<&str>) -> Option<Seq<char>> {
    match cwd {
        Some(cwd) => Some(cwd@),
        None => None,
    }
}

/// Runs an external program and captures its output.
///
/// An error means that the process could not be run at all. A process that
/// ran and exited non-zero is an output with that status: only the caller
/// knows whether it is a failure.
///
/// Nothing is promised of what a program prints; [`CommandRunner::runs`]
/// records each run with what came back.
pub trait CommandRunner: Sized {
    /// Every run so far, in order.
    closed spec fn runs(&self) -> Seq<Run> {
        arbitrary()
    }

    /// Runs `program` with `args`, optionally from the directory `cwd`.
    fn run(&mut self, program: &str, args: &Vec<String>, cwd: Option<&str>) -> (result: Result<
        CommandOutput,
        VcsError,
    >)
        ensures
            final(self).runs() == old(self).runs().push(
                Run {
                    program: program@,
                    args: crate::text::texts(args@),
                    cwd: directory(cwd),
                    result: crate::vcs::outcome(result),
                },
            ),
    ;
}

/// `program` and `args` as one line, each argument after a space.
pub open spec fn line_of(program: Seq<char>, args: Seq<Seq<char>>) -> Seq<char>
    decreases args.len(),
{
    if args.len() == 0 {
        program
    } else {
        line_of(program, args.drop_last()) + " "@ + args.last()
    }
}

/// Renders `program` and `args` as a command line, for error messages.
///
/// Diagnostics only: nothing is quoted.
pub fn command_line(program: &str, args: &[String]) -> (line: String)
    ensures
        line@ == line_of(program@, crate::text::texts(args@)),
{
    let ghost all = crate::text::texts(args@);
    let mut line = program.to_string();
    let mut i: usize = 0;
    assert(all.take(0) =~= Seq::<Seq<char>>::empty());
    while i < args.len()
        invariant
            i <= args@.len(),
            all == crate::text::texts(args@),
            line@ == line_of(program@, all.take(i as int)),
        decreases args@.len() - i,
    {
        line.append(" ");
        line.append(args[i].as_str());
        proof {
            assert(all.take(i + 1).drop_last() =~= all.take(i as int));
            assert(all[i as int] == args@[i as int]@);
        }
        i += 1;
    }
    assert(all.take(i as int) =~= all);
    line
}

/// What a process that was run has left behind.
#[derive(Debug, Eq, PartialEq)]
pub struct Finished {
    /// The exit code; `None` when a signal terminated the process.
    pub code: Option<i32>,
    /// Everything the process wrote to stdout.
    pub stdout: String,
    /// Everything the process wrote to stderr.
    pub stderr: String,
}

/// What running `program` with `args` comes to, given the exit code, if there
/// was one, and the output, or why it did not start.
pub open spec fn settled_run(
    program: Seq<char>,
    args: Seq<Seq<char>>,
    attempt: Result<(Option<i32>, Seq<char>, Seq<char>), IoErrorView>,
) -> Result<CommandOutputView, VcsErrorView> {
    match attempt {
        Ok((Some(status), stdout, stderr)) => Ok(CommandOutputView { status, stdout, stderr }),
        Ok((None, stdout, stderr)) => Ok(CommandOutputView { status: -1i32, stdout, stderr }),
        Err(source) => if source.kind is NotFound {
            Err(VcsErrorView::BinaryNotFound { binary: program })
        } else {
            Err(VcsErrorView::Spawn { command: line_of(program, args), source })
        },
    }
}

/// What running `program` with `args` comes to, given how the attempt ended.
///
/// A process that could not be started because something was not found means
/// that the program is missing. Any other failure to start it is kept.
pub fn settle_run(program: &str, args: &[String], attempt: Result<Finished, IoError>) -> (result:
    Result<CommandOutput, VcsError>)
    ensures
        settled_run(
            program@,
            crate::text::texts(args@),
            match attempt {
                Ok(finished) => Ok((finished.code, finished.stdout@, finished.stderr@)),
                Err(cause) => Err(cause@),
            },
        ) == crate::vcs::outcome(result),
        match attempt {
            Ok(finished) => result matches Ok(output) && output@ == (CommandOutputView {
                status: match finished.code {
                    Some(code) => code,
                    None => -1i32,
                },
                stdout: finished.stdout@,
                stderr: finished.stderr@,
            }),
            Err(cause) => result matches Err(error) && error@ == if cause.kind
                == IoErrorKind::NotFound {
                VcsErrorView::BinaryNotFound { binary: program@ }
            } else {
                VcsErrorView::Spawn {
                    command: line_of(program@, crate::text::texts(args@)),
                    source: cause@,
                }
            },
        },
{
    match attempt {
        Ok(finished) => {
            let status: i32 = match finished.code {
                Some(code) => code,
                None => -1,
            };
            Ok(CommandOutput { status, stdout: finished.stdout, stderr: finished.stderr })
        },
        Err(cause) => match cause.kind {
            IoErrorKind::NotFound => Err(VcsError::BinaryNotFound { binary: program.to_string() }),
            _ => Err(VcsError::Spawn { command: command_line(program, args), source: cause }),
        },
    }
}

/// One [`CommandRunner::run`] call as recorded by [`FakeRunner`].
#[derive(Debug, Eq, PartialEq)]
pub struct RecordedCall {
    /// The program that would have been executed.
    pub program: String,
    /// The argument vector, verbatim.
    pub args: Vec<String>,
    /// The working directory the call would have run in.
    pub cwd: Option<String>,
}

/// A [`CommandRunner`] that replays canned output and records every call.
///
/// Queue one response per expected call with [`FakeRunner::succeed`] or
/// [`FakeRunner::fail`], in call order.
pub struct FakeRunner {
    responses: Vec<CommandOutput>,
    calls: Vec<RecordedCall>,
    runs: Ghost<Seq<Run>>,
}

/// The contents of several responses.
pub open spec fn outputs_view(outputs: Seq<CommandOutput>) -> Seq<CommandOutputView> {
    outputs.map_values(|output: CommandOutput| output@)
}

impl FakeRunner {
    /// The responses that are still queued.
    pub closed spec fn queued(&self) -> Seq<CommandOutputView> {
        outputs_view(self.responses@)
    }

    /// The calls recorded so far.
    pub closed spec fn recorded(&self) -> Seq<RecordedCall> {
        self.calls@
    }

    /// Creates a runner with no queued responses.
    pub fn new() -> (runner: FakeRunner)
        ensures
            runner.queued() == Seq::<CommandOutputView>::empty(),
            runner.recorded() == Seq::<RecordedCall>::empty(),
            runner.runs() == Seq::<Run>::empty(),
    {
        let runner = FakeRunner {
            responses: Vec::new(),
            calls: Vec::new(),
            runs: Ghost(Seq::empty()),
        };
        assert(runner.queued() =~= Seq::<CommandOutputView>::empty());
        runner
    }

    /// Queues a zero-exit response printing `stdout`.
    pub fn succeed(&mut self, stdout: &str)
        ensures
            final(self).queued() == old(self).queued().push(
                (CommandOutputView { status: 0, stdout: stdout@, stderr: Seq::empty() }),
            ),
            final(self).recorded() == old(self).recorded(),
            final(self).runs() == old(self).runs(),
    {
        self.push(
            CommandOutput { status: 0, stdout: stdout.to_string(), stderr: String::new() },
        );
    }

    /// Queues a response exiting `status` with `stderr`.
    pub fn fail(&mut self, status: i32, stderr: &str)
        ensures
            final(self).queued() == old(self).queued().push(
                (CommandOutputView { status, stdout: Seq::empty(), stderr: stderr@ }),
            ),
            final(self).recorded() == old(self).recorded(),
            final(self).runs() == old(self).runs(),
    {
        self.push(
            CommandOutput { status, stdout: String::new(), stderr: stderr.to_string() },
        );
    }

    /// Every call made so far, in call order.
    pub fn calls(&self) -> (calls: &Vec<RecordedCall>)
        ensures
            calls@ == self.recorded(),
    {
        &self.calls
    }

    fn push(&mut self, output: CommandOutput)
        ensures
            final(self).queued() == old(self).queued().push(output@),
            final(self).recorded() == old(self).recorded(),
            final(self).runs() == old(self).runs(),
    {
        self.responses.push(output);
        assert(self.queued() =~= old(self).queued().push(output@));
    }
}

impl CommandRunner for FakeRunner {
    closed spec fn runs(&self) -> Seq<Run> {
        self.runs@
    }

    /// Gives the next queued response. A call beyond the last one is answered
    /// with [`VcsError::Spawn`].
    fn run(&mut self, program: &str, args: &Vec<String>, cwd: Option<&str>) -> (result: Result<
        CommandOutput,
        VcsError,
    >)
        ensures
            final(self).recorded().len() == old(self).recorded().len() + 1,
            final(self).recorded().drop_last() == old(self).recorded(),
            final(self).recorded().last().program@ == program@,
            crate::text::texts(final(self).recorded().last().args@) == crate::text::texts(args@),
            crate::text::text_view(final(self).recorded().last().cwd) == directory(cwd),
            old(self).queued().len() > 0 ==> crate::vcs::outcome(result) == Ok::<
                CommandOutputView,
                VcsErrorView,
            >(old(self).queued()[0]) && final(self).queued() == old(self).queued().skip(1),
            old(self).queued().len() == 0 ==> result is Err && final(self).queued() == old(
                self,
            ).queued(),
    {
        let ghost queued = self.queued();
        let result: Result<CommandOutput, VcsError> = if self.responses.len() > 0 {
            let output = self.responses.remove(0);
            assert(outputs_view(self.responses@) =~= queued.skip(1));
            Ok(output)
        } else {
            Err(
                VcsError::Spawn {
                    command: command_line(program, args),
                    source: IoError {
                        kind: IoErrorKind::Other,
                        message: "no response is queued".to_string(),
                    },
                },
            )
        };
        let place = match cwd {
            Some(cwd) => Some(cwd.to_string()),
            None => None,
        };
        self.calls.push(
            RecordedCall {
                program: program.to_string(),
                args: crate::text::clone_texts(args),
                cwd: place,
            },
        );
        assert(self.calls@.drop_last() =~= old(self).calls@);
        self.runs = Ghost(
            self.runs@.push(
                Run {
                    program: program@,
                    args: crate::text::texts(args@),
                    cwd: directory(cwd),
                    result: crate::vcs::outcome(result),
                },
            ),
        );
        result
    }
}

/// A process that ran is told with its own exit code and output, one that a
/// signal ended with a code that is no success; and a program is called missing
/// only where it was not found.
pub proof fn runs_are_told_as_they_ended(
    program: Seq<char>,
    args: Seq<Seq<char>>,
    code: i32,
    stdout: Seq<char>,
    stderr: Seq<char>,
    source: IoErrorView,
)
    ensures
        settled_run(program, args, Ok((Some(code), stdout, stderr))) == Ok::<
            CommandOutputView,
            VcsErrorView,
        >(CommandOutputView { status: code, stdout, stderr }),
        settled_run(program, args, Ok((None, stdout, stderr))) matches Ok(output) && output.status
            == -1 && output.stdout == stdout && output.stderr == stderr,
        source.kind is NotFound ==> settled_run(program, args, Err(source)) == Err::<
            CommandOutputView,
            VcsErrorView,
        >(VcsErrorView::BinaryNotFound { binary: program }),
        source.kind is AlreadyExists || source.kind is Other ==> settled_run(
            program,
            args,
            Err(source),
        ) == Err::<CommandOutputView, VcsErrorView>(
            VcsErrorView::Spawn { command: line_of(program, args), source },
        ),
{
}

} // verus!
