//! Parsing a command line into a command name and its arguments.

use vstd::prelude::*;

use crate::command_node::CommandNode;
use crate::text::{
    all_ascii, ascii_lower, is_white_space, join, lemma_ascii_lower, lemma_words_are_words,
    lemma_words_of_join, lemma_words_split_at_white_space, lower_case, split_whitespace, to_lowercase,
    words,
};

verus! {

/// A command line as typed: the command name, in lower case, and its
/// arguments as written.
#[derive(Debug, PartialEq, Eq)]
pub struct RawCommand {
    pub command: String,
    pub args: Vec<String>,
}

/// A parsed command line as a mathematical value.
pub struct RawCommandModel {
    pub command: Seq<char>,
    pub args: Seq<Seq<char>>,
}

impl View for RawCommand {
    type V = RawCommandModel;

    open spec fn view(&self) -> RawCommandModel {
        RawCommandModel { command: self.command@, args: self.args.deep_view() }
    }
}

/// Why a command line could not be parsed.
#[derive(Debug, Clone, Copy, PartialEq, Eq, Structural)]
pub enum ParseError {
    EmptyInput,
}

impl ParseError {
    /// The text that describes the error.
    pub fn message(&self) -> (r: String)
        ensures
            r@ == "Failed to parse, input cannot be empty"@,
    {
        "Failed to parse, input cannot be empty".to_owned()
    }
}

/// The command that `input` holds: its first word in lower case names the
/// command and the remaining words are the arguments; `None` when the input
/// holds no word.
pub open spec fn parsed(input: Seq<char>) -> Option<RawCommandModel> {
    let ws = words(input);
    if ws.len() == 0 {
        None
    } else {
        Some(RawCommandModel { command: lower_case(ws[0]), args: ws.drop_first() })
    }
}

impl RawCommand {
    /// The command whose words are `ws`, named by `command`: the words after
    /// the first are its arguments.
    pub fn from_words(command: String, ws: Vec<String>) -> (r: RawCommand)
        requires
            ws.len() > 0,
        ensures
            r@ == (RawCommandModel { command: command@, args: ws.deep_view().drop_first() }),
    {
        let mut args = ws;
        let ghost all = args.deep_view();
        args.remove(0);
        assert(args.deep_view() =~= all.drop_first());
        RawCommand { command, args }
    }
}

/// Parses a command line: splits it into words at white space, and takes the
/// first word, in lower case, as the command name.
pub fn parse(input: &str) -> (r: Result<CommandNode<RawCommand>, ParseError>)
    ensures
        match r {
            Ok(CommandNode::Single(c)) => parsed(input@) == Some(c@),
            Err(e) => e == ParseError::EmptyInput && parsed(input@) is None,
        },
        r matches Ok(CommandNode::Single(c)) ==> {
            &&& c.command@.len() > 0
            &&& c.args.len() + 1 == words(input@).len()
            &&& forall|i: int| 0 <= i < c.args.len() ==> #[trigger] c.args[i]@.len() > 0
            &&& forall|i: int, k: int|
                0 <= i < c.args.len() && 0 <= k < c.args[i]@.len() ==> !is_white_space(
                    #[trigger] c.args[i]@[k],
                )
        },
{
    proof {
        lemma_words_are_words(input@);
    }
    let tokens = split_whitespace(input);
    if tokens.len() == 0 {
        return Err(ParseError::EmptyInput);
    }
    let command = to_lowercase(tokens[0].as_str());
    let ghost ws = tokens.deep_view();
    let raw = RawCommand::from_words(command, tokens);
    assert(raw.args.deep_view() == ws.drop_first());
    assert(raw.args.deep_view().len() == raw.args.len());
    assert(ws.len() == raw.args.len() + 1);
    assert forall|i: int| 0 <= i < raw.args.len() implies #[trigger] raw.args[i]@ == ws[i + 1] by {
        assert(raw.args.deep_view() == ws.drop_first());
        assert(raw.args.deep_view()[i] == raw.args@[i].deep_view());
        assert(ws.drop_first()[i] == ws[i + 1]);
    }
    assert(ws == words(input@));
    Ok(CommandNode::Single(raw))
}


/// How much white space stands between, before or after the words of a
/// command line does not change the command: white space at the start or at
/// the end is passed over, and a run of white space counts as one.
pub proof fn lemma_parse_ignores_extra_space(a: Seq<char>, c: char, d: char, b: Seq<char>)
    requires
        is_white_space(c),
        is_white_space(d),
    ensures
        parsed(seq![c] + b) == parsed(b),
        parsed(a + seq![c]) == parsed(a),
        parsed(a + seq![c, d] + b) == parsed(a + seq![c] + b),
{
    let e = Seq::<char>::empty();
    lemma_words_split_at_white_space(e, c, b);
    assert(e + seq![c] + b =~= seq![c] + b);
    assert(words(e) =~= Seq::<Seq<char>>::empty());
    assert(words(e) + words(b) =~= words(b));
    lemma_words_split_at_white_space(a, c, e);
    assert(a + seq![c] + e =~= a + seq![c]);
    assert(words(a) + words(e) =~= words(a));
    lemma_words_split_at_white_space(a, c, seq![d] + b);
    assert(a + seq![c] + (seq![d] + b) =~= a + seq![c, d] + b);
    lemma_words_split_at_white_space(e, d, b);
    assert(e + seq![d] + b =~= seq![d] + b);
    lemma_words_split_at_white_space(a, c, b);
}


/// A line is refused exactly when it holds no word; otherwise the command
/// name is the lower-case form of the first word and the arguments are the
/// other words, all of them, as written and in order.
pub proof fn lemma_parsed_words(input: Seq<char>)
    ensures
        parsed(input) is None <==> words(input).len() == 0,
        parsed(input) matches Some(r) ==> r.command == lower_case(words(input)[0]) && r.args.len() + 1
            == words(input).len() && (forall|i: int|
            0 <= i < r.args.len() ==> #[trigger] r.args[i] == words(input)[i + 1]),
{
}

/// ASCII case in the command name does not matter: two command lines whose
/// names, written in ASCII, differ only in the case of their letters, and
/// whose arguments are the same, give the same command. Arguments keep their
/// case (see `parsed`).
pub proof fn lemma_command_case_ignored(s1: Seq<char>, s2: Seq<char>)
    requires
        words(s1).len() > 0,
        words(s2).len() > 0,
        words(s1).drop_first() == words(s2).drop_first(),
        all_ascii(words(s1)[0]),
        all_ascii(words(s2)[0]),
        ascii_lower(words(s1)[0]) == ascii_lower(words(s2)[0]),
    ensures
        parsed(s1) == parsed(s2),
{
}

/// Writing a parsed command out again, its name and arguments separated by
/// single spaces, and parsing that gives the same command, when the name
/// was written in ASCII.
pub proof fn lemma_parse_round_trip(input: Seq<char>, r: RawCommandModel)
    requires
        parsed(input) == Some(r),
        all_ascii(words(input)[0]),
    ensures
        parsed(join(seq![r.command] + r.args, " "@)) == Some(r),
{
    let ws = words(input);
    lemma_words_are_words(input);
    let w0 = ws[0];
    lemma_ascii_lower(w0);
    let vs = seq![r.command] + r.args;
    assert(r.command == ascii_lower(w0));
    assert(r.args == ws.drop_first());
    assert forall|i: int| 0 <= i < vs.len() implies #[trigger] vs[i].len() > 0 by {
        if i > 0 {
            assert(vs[i] == ws[i]);
        }
    }
    assert forall|i: int, k: int| 0 <= i < vs.len() && 0 <= k < vs[i].len() implies !is_white_space(
        #[trigger] vs[i][k],
    ) by {
        if i > 0 {
            assert(vs[i] == ws[i]);
        } else {
            assert(!is_white_space(w0[k]));
        }
    }
    lemma_words_of_join(vs);
    assert(vs.drop_first() =~= r.args);
}

} // verus!
