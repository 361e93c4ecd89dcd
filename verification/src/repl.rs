//! The read-eval-print loop as a state machine: the shell reads a line,
//! resolves it, runs the command, and stops right after the first line whose
//! command is `exit`. Reading lines, searching the path, and doing what a
//! command needs are left to the caller.

use vstd::prelude::*;

use crate::command_node::CommandNode;
use crate::commands::{BuiltInKind, BuiltInModel, Command, CommandModel};
use crate::executor::{
    command_answers, command_needs, command_ran, Answer, Execution, ExecutionError, Need,
};
use crate::parser::{parse, parsed};
use crate::text::{lower_case, words};
use crate::resolver::{resolve_command, resolved};

verus! {

/// What became of a line that was read.
#[derive(Debug, PartialEq, Eq)]
pub enum LineStep {
    /// The line held no command.
    Skip,
    /// The command could not be resolved; write this message to standard
    /// error.
    Report(String),
    /// The command is resolved and waits to be run.
    Ready,
}

/// The command that `line` holds, when the search of the path for its name
/// found `found`; `None` when the line holds no command or names none.
pub open spec fn line_command(line: Seq<char>, found: Option<Seq<char>>) -> Option<CommandModel> {
    match parsed(line) {
        Some(raw) => match resolved(raw, found) {
            Ok(c) => Some(c),
            Err(_) => None,
        },
        None => None,
    }
}

/// Whether the command of `line` is the `exit` builtin.
pub open spec fn is_exit_line(line: Seq<char>, found: Option<Seq<char>>) -> bool {
    line_command(line, found) == Some(CommandModel::BuiltIn(BuiltInModel::Exit))
}

/// A session of the shell: the lines read so far, the command waiting to be
/// run, and whether the shell has stopped.
pub struct Session {
    pending: Option<Command>,
    stopped: bool,
    lines: Ghost<Seq<(Seq<char>, Option<Seq<char>>)>>,
}

impl Session {
    /// The lines read so far, each with what the search of the path found
    /// for the name of its command.
    pub closed spec fn lines(&self) -> Seq<(Seq<char>, Option<Seq<char>>)> {
        self.lines@
    }

    /// Whether the shell has stopped.
    pub closed spec fn stopped(&self) -> bool {
        self.stopped
    }

    /// The command of the last line, when it waits to be run.
    pub closed spec fn pending(&self) -> Option<Command> {
        self.pending
    }

    /// The session is consistent: a waiting command is the command of the
    /// last line; the shell stopped only after running the command of the
    /// last line, which was `exit`; and no other line read was an `exit`
    /// line.
    pub closed spec fn wf(&self) -> bool {
        let ls = self.lines@;
        &&& self.stopped ==> self.pending is None && ls.len() > 0 && is_exit_line(
            ls.last().0,
            ls.last().1,
        )
        &&& self.pending matches Some(c) ==> ls.len() > 0 && line_command(ls.last().0, ls.last().1)
            == Some(c@)
        &&& forall|k: int|
            0 <= k < ls.len() && is_exit_line(#[trigger] ls[k].0, ls[k].1) ==> k == ls.len() - 1 && (
            self.stopped || self.pending is Some)
    }

    /// A session that has read nothing.
    pub fn new() -> (s: Session)
        ensures
            s.wf(),
            s.lines().len() == 0,
            !s.stopped(),
            s.pending() is None,
    {
        Session { pending: None, stopped: false, lines: Ghost(Seq::empty()) }
    }

    /// Whether the shell has stopped.
    pub fn is_stopped(&self) -> (r: bool)
        ensures
            r == self.stopped(),
    {
        self.stopped
    }

    /// Reads a line, given what a search of the path found for the name of
    /// its command: a line with no command is skipped, an unknown command is
    /// reported, and a resolved command waits to be run.
    pub fn read_line(&mut self, input: &str, found: Option<String>) -> (r: LineStep)
        requires
            old(self).wf(),
            !old(self).stopped(),
            old(self).pending() is None,
        ensures
            final(self).wf(),
            !final(self).stopped(),
            final(self).lines() == old(self).lines().push((input@, found.deep_view())),
            match parsed(input@) {
                None => r is Skip && final(self).pending() is None,
                Some(raw) => match resolved(raw, found.deep_view()) {
                    Ok(c) => r is Ready && (final(self).pending() matches Some(p) && p@ == c),
                    Err(name) => r matches LineStep::Report(m) && m@ == name + ": command not found"@
                        && final(self).pending() is None,
                },
            },
    {
        let ghost entry = (input@, found.deep_view());
        let ghost before = self.lines@;
        let ghost after = before.push(entry);
        assert(after[after.len() - 1] == entry);
        assert forall|k: int| 0 <= k < before.len() implies #[trigger] after[k] == before[k] by {}
        self.lines = Ghost(after);
        match parse(input) {
            Err(_) => LineStep::Skip,
            Ok(node) => match resolve_command(node, found) {
                Ok(CommandNode::Single(c)) => {
                    self.pending = Some(c);
                    LineStep::Ready
                },
                Err(e) => LineStep::Report(e.message()),
            },
        }
    }

    /// What the waiting command needs done or learned before it runs.
    pub fn need(&self) -> (r: Need)
        requires
            self.pending() is Some,
        ensures
            command_needs(self.pending()->0, r),
    {
        match &self.pending {
            Some(c) => c.need(),
            None => Need::Nothing,
        }
    }

    /// Runs the waiting command given the answer to what it needs; the shell
    /// stops exactly when that command is `exit`.
    pub fn run(&mut self, answer: Answer) -> (r: Result<Execution, ExecutionError>)
        requires
            old(self).wf(),
            old(self).pending() matches Some(c) && command_answers(c, answer),
        ensures
            final(self).wf(),
            final(self).lines() == old(self).lines(),
            final(self).pending() is None,
            command_ran(old(self).pending()->0, answer, r),
            final(self).stopped() == is_exit_line(
                old(self).lines().last().0,
                old(self).lines().last().1,
            ),
    {
        let c = self.pending.take();
        match c {
            Some(c) => {
                let r = c.run(answer);
                self.stopped = match &r {
                    Ok(e) => e.result == crate::executor::ExecutionResult::Exit,
                    Err(_) => false,
                };
                r
            },
            None => Err(ExecutionError { error: String::new() }),
        }
    }
}

/// A line is an `exit` line exactly when its first word, in lower case, is
/// `exit`, whatever else the line holds and whatever the search of the path
/// found.
pub proof fn lemma_exit_lines(line: Seq<char>, found: Option<Seq<char>>)
    ensures
        is_exit_line(line, found) <==> (words(line).len() > 0 && lower_case(words(line)[0]) == "exit"@),
{
    if words(line).len() > 0 {
        let name = lower_case(words(line)[0]);
        crate::commands::lemma_only_builtin_names_are_builtins(name, BuiltInKind::Exit);
        crate::commands::lemma_builtin_name_round_trip(BuiltInKind::Exit);
        crate::commands::lemma_builtin_name_round_trip(BuiltInKind::Pwd);
        crate::commands::lemma_builtin_name_round_trip(BuiltInKind::Echo);
        crate::commands::lemma_builtin_name_round_trip(BuiltInKind::Type);
    }
}

/// The shell stops right after the first line whose command is `exit`: when
/// it has stopped, the last line read is an `exit` line and no earlier line
/// was; before that, no line read was an `exit` line except one whose command
/// still waits to be run. No line is read once it has stopped (see
/// `Session::read_line`).
pub proof fn lemma_stops_at_first_exit(s: Session)
    requires
        s.wf(),
    ensures
        s.stopped() ==> s.lines().len() > 0 && is_exit_line(
            s.lines().last().0,
            s.lines().last().1,
        ),
        forall|k: int|
            0 <= k < s.lines().len() - 1 ==> !is_exit_line(#[trigger] s.lines()[k].0, s.lines()[k].1),
        !s.stopped() && s.pending() is None ==> forall|k: int|
            0 <= k < s.lines().len() ==> !is_exit_line(#[trigger] s.lines()[k].0, s.lines()[k].1),
{
}

} // verus!
