//! Resolving a parsed command line: a name is a builtin if it names one, and
//! otherwise a program found on the search path.

use vstd::prelude::*;

use crate::command_node::CommandNode;
use crate::commands::{
    BuiltInKind, Command, CommandModel, CommandType, CommandTypeModel, External, ExternalModel,
};
use crate::parser::{RawCommand, RawCommandModel};

verus! {

/// Why a command line could not be resolved.
#[derive(Debug, PartialEq, Eq)]
pub enum ResolveError {
    UnknownCommand { command: String },
}

impl ResolveError {
    /// The text that describes the error.
    pub fn message(&self) -> (r: String)
        ensures
            match self {
                ResolveError::UnknownCommand { command } => r@ == command@ + ": command not found"@,
            },
    {
        match self {
            ResolveError::UnknownCommand { command } => {
                let mut r = command.clone();
                r.append(": command not found");
                r
            },
        }
    }
}

/// What `command` stands for, when a search of the path for it found
/// `found`: a builtin name always means the builtin.
pub open spec fn looked_up(command: Seq<char>, found: Option<Seq<char>>) -> Option<CommandTypeModel> {
    match BuiltInKind::named(command) {
        Some(kind) => Some(CommandTypeModel::BuiltIn(kind)),
        None => match found {
            Some(path) => Some(CommandTypeModel::External(path)),
            None => None,
        },
    }
}

/// What `command` stands for, given `found`, the program that a search of
/// the path found for it (`None` when none was found or none was made).
pub fn lookup_in(command: &str, found: Option<String>) -> (r: Option<CommandType>)
    ensures
        match r {
            Some(t) => looked_up(command@, found.deep_view()) == Some(t@),
            None => looked_up(command@, found.deep_view()) is None,
        },
{
    match BuiltInKind::from_name(command) {
        Some(kind) => Some(CommandType::BuiltIn(kind)),
        None => match found {
            Some(path) => Some(CommandType::External { path }),
            None => None,
        },
    }
}

/// The command that `raw` resolves to, or the unknown name.
pub open spec fn resolved(raw: RawCommandModel, found: Option<Seq<char>>) -> Result<
    CommandModel,
    Seq<char>,
> {
    match looked_up(raw.command, found) {
        Some(CommandTypeModel::BuiltIn(kind)) => Ok(CommandModel::BuiltIn(kind.with_args(raw.args))),
        Some(CommandTypeModel::External(path)) => Ok(
            CommandModel::External(ExternalModel { path, args: raw.args }),
        ),
        None => Err(raw.command),
    }
}

/// Resolves a command, given what a search of the path found for its name.
pub fn resolve_raw_command(raw: RawCommand, found: Option<String>) -> (r: Result<
    Command,
    ResolveError,
>)
    ensures
        match r {
            Ok(c) => resolved(raw@, found.deep_view()) == Ok::<CommandModel, Seq<char>>(c@),
            Err(ResolveError::UnknownCommand { command }) => resolved(raw@, found.deep_view())
                == Err::<CommandModel, Seq<char>>(command@),
        },
{
    let RawCommand { command, args } = raw;
    match lookup_in(command.as_str(), found) {
        Some(CommandType::BuiltIn(kind)) => Ok(Command::BuiltIn(kind.build(args))),
        Some(CommandType::External { path }) => Ok(Command::External(External::new(path, args))),
        None => Err(ResolveError::UnknownCommand { command }),
    }
}

/// Resolves a command line, given what a search of the path found for the
/// name of its command.
pub fn resolve_command(raw_command_node: CommandNode<RawCommand>, found: Option<String>) -> (r:
    Result<CommandNode<Command>, ResolveError>)
    ensures
        match (raw_command_node, r) {
            (CommandNode::Single(raw), Ok(CommandNode::Single(c))) => resolved(
                raw@,
                found.deep_view(),
            ) == Ok::<CommandModel, Seq<char>>(c@),
            (CommandNode::Single(raw), Err(ResolveError::UnknownCommand { command })) => resolved(
                raw@,
                found.deep_view(),
            ) == Err::<CommandModel, Seq<char>>(command@),
        },
{
    match raw_command_node {
        CommandNode::Single(raw) => match resolve_raw_command(raw, found) {
            Ok(c) => Ok(CommandNode::Single(c)),
            Err(e) => Err(e),
        },
    }
}

/// A place where a program of the wanted name may be: its path, whether a
/// plain file is there, and whether the user may execute it.
#[derive(Debug, PartialEq, Eq)]
pub struct Candidate {
    pub path: String,
    pub is_file: bool,
    pub executable: bool,
}

/// The path of the first candidate that is an executable file.
pub open spec fn first_usable(cs: Seq<Candidate>) -> Option<Seq<char>>
    decreases cs.len(),
{
    if cs.len() == 0 {
        None
    } else if cs[0].is_file && cs[0].executable {
        Some(cs[0].path@)
    } else {
        first_usable(cs.drop_first())
    }
}

/// Chooses the program to run among the places where the search path says
/// it may be, in the order of the search path.
pub fn choose_binary(candidates: Vec<Candidate>) -> (r: Option<String>)
    ensures
        r.deep_view() == first_usable(candidates@),
{
    let n = candidates.len();
    let mut i: usize = 0;
    assert(candidates@.skip(0) =~= candidates@);
    while i < n
        invariant
            0 <= i <= n,
            n == candidates@.len(),
            first_usable(candidates@) == first_usable(candidates@.skip(i as int)),
        decreases n - i,
    {
        assert(candidates@.skip(i as int).drop_first() =~= candidates@.skip(i + 1));
        if candidates[i].is_file && candidates[i].executable {
            return Some(candidates[i].path.clone());
        }
        i = i + 1;
    }
    None
}


/// A builtin's name stands for the builtin, whatever a search of the path
/// found, and the command resolves to the builtin with the command's
/// arguments.
pub proof fn lemma_builtin_wins_over_path(kind: BuiltInKind, args: Seq<Seq<char>>, found: Option<Seq<char>>)
    ensures
        looked_up(kind.name(), found) == Some(CommandTypeModel::BuiltIn(kind)),
        resolved(RawCommandModel { command: kind.name(), args }, found) == Ok::<CommandModel, Seq<char>>(
            CommandModel::BuiltIn(kind.with_args(args)),
        ),
{
    crate::commands::lemma_builtin_name_round_trip(kind);
}

/// A name that is no builtin, and for which the search of the path found
/// nothing, is refused with that name.
pub proof fn lemma_unknown_is_refused(raw: RawCommandModel)
    requires
        BuiltInKind::named(raw.command) is None,
    ensures
        looked_up(raw.command, None) is None,
        resolved(raw, None) == Err::<CommandModel, Seq<char>>(raw.command),
{
}

/// A name that is no builtin stands for the program that the search found.
pub proof fn lemma_program_found(raw: RawCommandModel, path: Seq<char>)
    requires
        BuiltInKind::named(raw.command) is None,
    ensures
        resolved(raw, Some(path)) == Ok::<CommandModel, Seq<char>>(
            CommandModel::External(ExternalModel { path, args: raw.args }),
        ),
{
}

/// The chosen program is the first candidate that is an executable file:
/// earlier candidates that are no file, or that may not be executed, are
/// passed over, and later ones are never chosen.
pub proof fn lemma_first_usable_wins(cs: Seq<Candidate>, j: int)
    requires
        0 <= j < cs.len(),
        cs[j].is_file && cs[j].executable,
        forall|i: int| 0 <= i < j ==> !(#[trigger] cs[i].is_file && cs[i].executable),
    ensures
        first_usable(cs) == Some(cs[j].path@),
    decreases j,
{
    if j > 0 {
        assert forall|i: int| 0 <= i < j - 1 implies !(#[trigger] cs.drop_first()[i].is_file
            && cs.drop_first()[i].executable) by {
            assert(cs.drop_first()[i] == cs[i + 1]);
        }
        lemma_first_usable_wins(cs.drop_first(), j - 1);
    }
}

/// Nothing is chosen when no candidate is an executable file.
pub proof fn lemma_none_usable(cs: Seq<Candidate>)
    requires
        forall|i: int| 0 <= i < cs.len() ==> !(#[trigger] cs[i].is_file && cs[i].executable),
    ensures
        first_usable(cs) is None,
    decreases cs.len(),
{
    if cs.len() > 0 {
        assert forall|i: int| 0 <= i < cs.len() - 1 implies !(#[trigger] cs.drop_first()[i].is_file
            && cs.drop_first()[i].executable) by {
            assert(cs.drop_first()[i] == cs[i + 1]);
        }
        lemma_none_usable(cs.drop_first());
    }
}

} // verus!
