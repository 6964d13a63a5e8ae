//! Commands, the grammar of a command line, and the log record of a command.

use crate::text::{
    is_token, is_token_str, lemma_tokens_after_space, lemma_tokens_after_token,
    lemma_tokens_are_tokens, lemma_tokens_of_spaces, split_tokens, tokens,
};
use vstd::prelude::*;
use vstd::std_specs::convert::FromSpecImpl;
use vstd::string::StringExecFns;

verus! {

/// One operation on the state table.
#[derive(Debug, PartialEq, Eq)]
pub enum Command {
    /// Read the value stored under a key. Only a leader reads; a read is
    /// neither logged nor forwarded.
    Get(String),
    /// Store a value under a key. On the wire and in the log its verb is
    /// `SET`.
    Put(String, String),
    /// Remove a key.
    Delete(String),
    /// What a line that is no command stands for. It changes nothing.
    Unknown,
}

/// The mathematical value of a [`Command`].
pub enum CommandView {
    Get(Seq<char>),
    Put(Seq<char>, Seq<char>),
    Delete(Seq<char>),
    Unknown,
}

impl View for Command {
    type V = CommandView;

    open spec fn view(&self) -> CommandView {
        match self {
            Command::Get(k) => CommandView::Get(k@),
            Command::Put(k, v) => CommandView::Put(k@, v@),
            Command::Delete(k) => CommandView::Delete(k@),
            Command::Unknown => CommandView::Unknown,
        }
    }
}

/// Why a line is not a command.
#[derive(Debug, Clone, Copy, PartialEq, Eq, Structural)]
pub enum ParseError {
    /// The line holds no token.
    Empty,
    /// The first token is no verb of the grammar.
    UnknownVerb,
    /// Nothing follows the verb.
    MissingKey,
    /// Nothing follows the key of a `SET`.
    MissingValue,
    /// Something follows the last operand.
    TrailingToken,
}

impl CommandView {
    /// Whether the command changes the table, and so belongs in the log.
    pub open spec fn is_mutating(self) -> bool {
        self is Put || self is Delete
    }

    /// Whether the key and the value of the command are tokens.
    pub open spec fn well_formed(self) -> bool {
        match self {
            CommandView::Get(k) => is_token(k),
            CommandView::Put(k, v) => is_token(k) && is_token(v),
            CommandView::Delete(k) => is_token(k),
            CommandView::Unknown => true,
        }
    }

    /// The log record of the command: `SET <key> <value>` or `DEL <key>`,
    /// each followed by a line feed. Only a mutating command has one.
    pub open spec fn record(self) -> Option<Seq<char>> {
        match self {
            CommandView::Put(k, v) => Some("SET "@ + k + " "@ + v + "\n"@),
            CommandView::Delete(k) => Some("DEL "@ + k + "\n"@),
            _ => None,
        }
    }
}

/// Which verbs a line may begin with.
#[derive(Debug, Clone, Copy, PartialEq, Eq, Structural)]
pub enum Grammar {
    /// What an operator types at a leader: `SET`, `DEL` and `GET`.
    Operator,
    /// What the log holds and what a leader forwards: `SET` and `DEL`.
    Record,
}

/// The command that a sequence of tokens spells: the verb, then the key,
/// then for `SET` the value, and nothing more.
pub open spec fn parse_tokens(t: Seq<Seq<char>>, grammar: Grammar) -> Result<
    CommandView,
    ParseError,
> {
    if t.len() == 0 {
        Err(ParseError::Empty)
    } else if t[0] == "SET"@ {
        if t.len() == 1 {
            Err(ParseError::MissingKey)
        } else if t.len() == 2 {
            Err(ParseError::MissingValue)
        } else if t.len() == 3 {
            Ok(CommandView::Put(t[1], t[2]))
        } else {
            Err(ParseError::TrailingToken)
        }
    } else if t[0] == "DEL"@ || (t[0] == "GET"@ && grammar == Grammar::Operator) {
        if t.len() == 1 {
            Err(ParseError::MissingKey)
        } else if t.len() == 2 {
            Ok(
                if t[0] == "DEL"@ {
                    CommandView::Delete(t[1])
                } else {
                    CommandView::Get(t[1])
                },
            )
        } else {
            Err(ParseError::TrailingToken)
        }
    } else {
        Err(ParseError::UnknownVerb)
    }
}

/// The command that a line spells, or the reason why it spells none.
pub open spec fn parse_line(line: Seq<char>, grammar: Grammar) -> Result<CommandView, ParseError> {
    parse_tokens(tokens(line), grammar)
}

/// What a live session takes a line for: the command it spells, and
/// [`CommandView::Unknown`] where it spells none.
pub open spec fn command_of(line: Seq<char>, grammar: Grammar) -> CommandView {
    match parse_line(line, grammar) {
        Ok(c) => c,
        Err(_) => CommandView::Unknown,
    }
}

/// The mathematical value of the result of parsing.
pub open spec fn parsed_view(r: Result<Command, ParseError>) -> Result<CommandView, ParseError> {
    match r {
        Ok(c) => Ok(c@),
        Err(e) => Err(e),
    }
}

impl Command {
    /// Parses one line in the given grammar. Tokens are separated by
    /// whitespace; whitespace before the verb and after the last operand, a
    /// line feed included, is ignored.
    pub fn parse(line: &str, grammar: Grammar) -> (r: Result<Command, ParseError>)
        ensures
            parsed_view(r) == parse_line(line@, grammar),
            r matches Ok(c) ==> c@.well_formed(),
    {
        proof {
            law_parsed_is_well_formed(line@, grammar);
        }
        let mut toks = split_tokens(line);
        let n = toks.len();
        if n == 0 {
            return Err(ParseError::Empty);
        }
        let is_set = toks[0] == String::from_str("SET");
        let is_del = toks[0] == String::from_str("DEL");
        let is_get = grammar == Grammar::Operator && toks[0] == String::from_str("GET");
        if !(is_set || is_del || is_get) {
            Err(ParseError::UnknownVerb)
        } else if n == 1 {
            Err(ParseError::MissingKey)
        } else if is_set {
            if n == 2 {
                Err(ParseError::MissingValue)
            } else if n == 3 {
                let value = toks.pop().unwrap();
                let key = toks.pop().unwrap();
                Ok(Command::Put(key, value))
            } else {
                Err(ParseError::TrailingToken)
            }
        } else if n == 2 {
            let key = toks.pop().unwrap();
            if is_del {
                Ok(Command::Delete(key))
            } else {
                Ok(Command::Get(key))
            }
        } else {
            Err(ParseError::TrailingToken)
        }
    }

    /// Whether the key and the value of the command are tokens. Commands
    /// that were parsed are; one that was put together by hand may not be.
    pub fn is_well_formed(&self) -> (b: bool)
        ensures
            b == self@.well_formed(),
    {
        match self {
            Command::Get(k) => is_token_str(k.as_str()),
            Command::Put(k, v) => is_token_str(k.as_str()) && is_token_str(v.as_str()),
            Command::Delete(k) => is_token_str(k.as_str()),
            Command::Unknown => true,
        }
    }

    /// The log record of the command, if it has one.
    pub fn record(&self) -> (r: Option<String>)
        ensures
            match r {
                Some(s) => self@.record() == Some(s@),
                None => self@.record().is_none(),
            },
    {
        match self {
            Command::Put(k, v) => {
                let mut s = String::from_str("SET ");
                s.append(k.as_str());
                s.append(" ");
                s.append(v.as_str());
                s.append("\n");
                Some(s)
            },
            Command::Delete(k) => {
                let mut s = String::from_str("DEL ");
                s.append(k.as_str());
                s.append("\n");
                Some(s)
            },
            _ => None,
        }
    }
}

impl Clone for Command {
    fn clone(&self) -> (c: Command)
        ensures
            c@ == self@,
    {
        match self {
            Command::Get(k) => Command::Get(k.clone()),
            Command::Put(k, v) => Command::Put(k.clone(), v.clone()),
            Command::Delete(k) => Command::Delete(k.clone()),
            Command::Unknown => Command::Unknown,
        }
    }
}

impl From<String> for Command {
    /// Reads a line that an operator typed: the command that the line
    /// spells, and [`Command::Unknown`] where it spells none.
    fn from(line: String) -> (c: Command)
        ensures
            c@ == command_of(line@, Grammar::Operator),
            c@.well_formed(),
    {
        match Command::parse(line.as_str(), Grammar::Operator) {
            Ok(c) => c,
            Err(_) => Command::Unknown,
        }
    }
}

/// Two strings of the same characters need not be the same value, so `from`
/// promises nothing about equality of commands: its contract speaks of
/// their views.
impl FromSpecImpl<String> for Command {
    open spec fn obeys_from_spec() -> bool {
        false
    }

    open spec fn from_spec(line: String) -> Command {
        Command::Unknown
    }
}

/// What the literals of the grammar hold.
proof fn lemma_literals()
    ensures
        "SET"@ == seq!['S', 'E', 'T'],
        "DEL"@ == seq!['D', 'E', 'L'],
        "SET "@ == seq!['S', 'E', 'T', ' '],
        "DEL "@ == seq!['D', 'E', 'L', ' '],
        " "@ == seq![' '],
        "\n"@ == seq!['\n'],
{
    reveal_strlit("SET");
    reveal_strlit("DEL");
    reveal_strlit("SET ");
    reveal_strlit("DEL ");
    reveal_strlit(" ");
    reveal_strlit("\n");
}

/// A line that parses spells a command whose key and value are tokens; in
/// the grammar of records that command is a mutating one.
pub proof fn law_parsed_is_well_formed(line: Seq<char>, grammar: Grammar)
    ensures
        match parse_line(line, grammar) {
            Ok(c) => c.well_formed() && !(c is Unknown) && (grammar == Grammar::Record
                ==> c.is_mutating()),
            Err(_) => true,
        },
{
    lemma_tokens_are_tokens(line);
}

/// The record of a command is one line, closed by the only line feed in it,
/// and that line spells the command again, in either grammar.
pub proof fn law_record_round_trip(c: CommandView, grammar: Grammar)
    requires
        c.well_formed(),
        c.is_mutating(),
    ensures
        c.record() is Some,
        c.record().unwrap().len() > 0,
        c.record().unwrap().last() == '\n',
        forall|i: int|
            0 <= i < c.record().unwrap().len() - 1 ==> #[trigger] c.record().unwrap()[i] != '\n',
        parse_line(c.record().unwrap(), grammar) == Ok::<CommandView, ParseError>(c),
        parse_line(c.record().unwrap().drop_last(), grammar) == Ok::<CommandView, ParseError>(c),
{
    lemma_literals();
    let record = c.record().unwrap();
    let line = record.drop_last();
    let space = seq![' '];
    let feed = seq!['\n'];
    let none = Seq::<char>::empty();
    lemma_tokens_of_spaces(feed);
    lemma_tokens_of_spaces(none);
    match c {
        CommandView::Put(k, v) => {
            let verb = "SET"@;
            assert forall|end: Seq<char>| end == feed || end == none implies #[trigger] tokens(
                verb + (space + (k + (space + (v + end)))),
            ) == seq![verb, k, v] by {
                lemma_tokens_after_token(v, end);
                lemma_tokens_after_space(' ', v + end);
                lemma_tokens_after_token(k, space + (v + end));
                lemma_tokens_after_space(' ', k + (space + (v + end)));
                lemma_tokens_after_token(verb, space + (k + (space + (v + end))));
                assert(seq![verb] + (seq![k] + (seq![v] + Seq::<Seq<char>>::empty())) == seq![
                    verb,
                    k,
                    v,
                ]);
            }
            assert(record == verb + (space + (k + (space + (v + feed)))));
            assert(line == verb + (space + (k + (space + (v + none)))));
        },
        CommandView::Delete(k) => {
            let verb = "DEL"@;
            assert forall|end: Seq<char>| end == feed || end == none implies #[trigger] tokens(
                verb + (space + (k + end)),
            ) == seq![verb, k] by {
                lemma_tokens_after_token(k, end);
                lemma_tokens_after_space(' ', k + end);
                lemma_tokens_after_token(verb, space + (k + end));
            }
            assert(record == verb + (space + (k + feed)));
            assert(line == verb + (space + (k + none)));
        },
        _ => {},
    }
}

} // verus!
