//! The command log: one record per line, replayed from the start to rebuild
//! the state table.

use crate::command::{
    command_of, law_record_round_trip, parse_line, Command, CommandView, Grammar, ParseError,
};
use crate::table::{apply, apply_all, run_command, Db, Table};
use crate::text::{ends_lines, lemma_lines_concat, lemma_lines_of_line, lines, split_lines};
use vstd::prelude::*;

verus! {

/// Why a log cannot be replayed: its first line that is no record.
#[derive(Debug, Clone, Copy, PartialEq, Eq, Structural)]
pub struct ReplayError {
    /// The number of the line, counted from 1.
    pub line: usize,
    /// Why the line is no record.
    pub error: ParseError,
}

/// The table that the records on the given lines build, from the empty
/// table and in order; or the first line that is no record.
pub open spec fn replay_lines(ls: Seq<Seq<char>>) -> Result<Table, ReplayError>
    decreases ls.len(),
{
    if ls.len() == 0 {
        Ok(Table::empty())
    } else {
        match replay_lines(ls.drop_last()) {
            Err(e) => Err(e),
            Ok(table) => match parse_line(ls.last(), Grammar::Record) {
                Ok(c) => Ok(apply(table, c)),
                Err(error) => Err(ReplayError { line: ls.len() as usize, error }),
            },
        }
    }
}

/// The table that a log builds, or the first of its lines that is no record.
pub open spec fn replay_text(text: Seq<char>) -> Result<Table, ReplayError> {
    replay_lines(lines(text))
}

/// The mathematical value of the result of a replay.
pub open spec fn replayed_view(r: Result<Db, ReplayError>) -> Result<Table, ReplayError> {
    match r {
        Ok(db) => Ok(db@),
        Err(e) => Err(e),
    }
}

/// Once a line is no record, the replay of every longer log fails on it.
proof fn lemma_replay_error_stays(ls: Seq<Seq<char>>, n: int)
    requires
        0 <= n <= ls.len(),
        replay_lines(ls.take(n)) is Err,
    ensures
        replay_lines(ls) == replay_lines(ls.take(n)),
    decreases ls.len() - n,
{
    if n == ls.len() {
        assert(ls.take(n) == ls);
    } else {
        assert(ls.drop_last().take(n) == ls.take(n));
        lemma_replay_error_stays(ls.drop_last(), n);
    }
}

/// Rebuilds the state table from the contents of a log. Every line has to
/// be a record; the first one that is not ends the replay with an error,
/// and nothing is skipped. What follows the last line feed is a line like
/// the others.
pub fn replay(contents: &str) -> (r: Result<Db, ReplayError>)
    ensures
        replayed_view(r) == replay_text(contents@),
{
    let ls = split_lines(contents);
    let mut hashmap = Db::new();
    let mut i: usize = 0;
    while i < ls.len()
        invariant
            i <= ls.len(),
            ls.deep_view() == lines(contents@),
            replay_lines(ls.deep_view().take(i as int)) == Ok::<Table, ReplayError>(hashmap@),
        decreases ls.len() - i,
    {
        proof {
            let done = ls.deep_view().take(i as int);
            assert(ls.deep_view().take(i + 1).drop_last() == done);
        }
        match Command::parse(ls[i].as_str(), Grammar::Record) {
            Ok(command) => {
                let _ = run_command(&mut hashmap, &command);
            },
            Err(error) => {
                proof {
                    lemma_replay_error_stays(ls.deep_view(), i + 1);
                }
                return Err(ReplayError { line: i + 1, error });
            },
        }
        i += 1;
    }
    proof {
        assert(ls.deep_view().take(i as int) == ls.deep_view());
    }
    Ok(hashmap)
}

/// The commands that the given lines spell as records.
pub open spec fn records_of(ls: Seq<Seq<char>>) -> Seq<CommandView> {
    Seq::new(ls.len(), |i: int| command_of(ls[i], Grammar::Record))
}

/// Replay is a fold over the lines. Where every line is a record, the
/// replay builds the table that applying the records, from the empty
/// table and in order, builds.
pub proof fn law_replay_folds_lines(ls: Seq<Seq<char>>)
    requires
        forall|i: int| 0 <= i < ls.len() ==> (#[trigger] parse_line(ls[i], Grammar::Record)) is Ok,
    ensures
        replay_lines(ls) == Ok::<Table, ReplayError>(apply_all(Table::empty(), records_of(ls))),
    decreases ls.len(),
{
    if ls.len() > 0 {
        let before = ls.drop_last();
        assert forall|i: int| 0 <= i < before.len() implies (#[trigger] parse_line(
            before[i],
            Grammar::Record,
        )) is Ok by {
            assert(before[i] == ls[i]);
        }
        law_replay_folds_lines(before);
        assert(records_of(ls).drop_last() == records_of(before));
    }
}

/// Replay stops at the first line that is no record, and reports that line.
pub proof fn law_replay_stops_at_first_bad_line(ls: Seq<Seq<char>>, bad: int)
    requires
        0 <= bad < ls.len(),
        parse_line(ls[bad], Grammar::Record) is Err,
        forall|i: int| 0 <= i < bad ==> (#[trigger] parse_line(ls[i], Grammar::Record)) is Ok,
    ensures
        replay_lines(ls) == Err::<Table, ReplayError>(
            ReplayError {
                line: (bad + 1) as usize,
                error: parse_line(ls[bad], Grammar::Record)->Err_0,
            },
        ),
{
    let upto = ls.take(bad + 1);
    let before = ls.take(bad);
    assert(upto.drop_last() == before);
    assert forall|i: int| 0 <= i < before.len() implies (#[trigger] parse_line(
        before[i],
        Grammar::Record,
    )) is Ok by {
        assert(before[i] == ls[i]);
    }
    law_replay_folds_lines(before);
    lemma_replay_error_stays(ls, bad + 1);
}

/// What committing a command appends to the log: its record, or nothing
/// where it has none.
pub open spec fn appended(command: CommandView) -> Seq<char> {
    match command.record() {
        Some(record) => record,
        None => Seq::empty(),
    }
}

/// The log that committing a sequence of commands writes, from an empty
/// log and in order.
pub open spec fn log_of(commands: Seq<CommandView>) -> Seq<char>
    decreases commands.len(),
{
    if commands.len() == 0 {
        Seq::empty()
    } else {
        log_of(commands.drop_last()) + appended(commands.last())
    }
}

/// Log and table stay in step. Where the log ends its lines and replays to
/// the table, then after a command is applied to the table and its record
/// is appended to the log, the log still ends its lines and replays to the
/// new table, and the record is its last line.
pub proof fn law_commit_keeps_replay(log: Seq<char>, table: Table, command: CommandView)
    requires
        ends_lines(log),
        replay_text(log) == Ok::<Table, ReplayError>(table),
        command.well_formed(),
    ensures
        ends_lines(log + appended(command)),
        replay_text(log + appended(command)) == Ok::<Table, ReplayError>(apply(table, command)),
        command.is_mutating() ==> lines(log + appended(command)).last() + seq!['\n'] == appended(
            command,
        ),
{
    if command.is_mutating() {
        law_record_round_trip(command, Grammar::Record);
        let record = command.record().unwrap();
        let line = record.drop_last();
        assert(record == line + seq!['\n']);
        lemma_lines_of_line(line);
        lemma_lines_concat(log, record);
        assert((lines(log) + seq![line]).drop_last() == lines(log));
    }
}

/// Nothing is skipped. A line that is no record makes the replay fail,
/// wherever in the log it stands: on that line, unless an earlier line is
/// no record either.
pub proof fn law_bad_line_fails_replay(before: Seq<char>, line: Seq<char>, after: Seq<char>)
    requires
        ends_lines(before),
        forall|i: int| 0 <= i < line.len() ==> #[trigger] line[i] != '\n',
        parse_line(line, Grammar::Record) is Err,
    ensures
        replay_text(before + line + seq!['\n'] + after) == match replay_text(before) {
            Ok(_) => Err::<Table, ReplayError>(
                ReplayError {
                    line: (lines(before).len() + 1) as usize,
                    error: parse_line(line, Grammar::Record)->Err_0,
                },
            ),
            Err(e) => Err(e),
        },
{
    let upto = before + line + seq!['\n'];
    lemma_lines_of_line(line);
    assert(upto == before + (line + seq!['\n']));
    lemma_lines_concat(before, line + seq!['\n']);
    lemma_lines_concat(upto, after);
    let head = lines(before) + seq![line];
    let all = head + lines(after);
    assert(head.drop_last() == lines(before));
    assert(all.take(head.len() as int) == head);
    lemma_replay_error_stays(all, head.len() as int);
}

/// Replay is a fold. The log that a sequence of commands writes replays to
/// the table that applying those commands, from the empty table and in
/// order, builds.
pub proof fn law_replay_is_fold(commands: Seq<CommandView>)
    requires
        forall|i: int| 0 <= i < commands.len() ==> (#[trigger] commands[i]).well_formed(),
    ensures
        ends_lines(log_of(commands)),
        replay_text(log_of(commands)) == Ok::<Table, ReplayError>(
            apply_all(Table::empty(), commands),
        ),
    decreases commands.len(),
{
    if commands.len() > 0 {
        let before = commands.drop_last();
        assert forall|i: int| 0 <= i < before.len() implies (#[trigger] before[i]).well_formed() by {
            assert(before[i] == commands[i]);
        }
        law_replay_is_fold(before);
        law_commit_keeps_replay(
            log_of(before),
            apply_all(Table::empty(), before),
            commands.last(),
        );
    }
}

} // verus!
