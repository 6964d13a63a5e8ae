use kv_replica::command::{Command, ParseError};
use kv_replica::log::{replay, ReplayError};
use kv_replica::table::{run_command, Db};

fn s(text: &str) -> String {
    text.to_string()
}

fn failure(contents: &str) -> ReplayError {
    match replay(contents) {
        Ok(_) => panic!("replay of {:?} went through", contents),
        Err(e) => e,
    }
}

#[test]
fn empty_log_replays_to_empty_table() {
    let db = replay("").unwrap();
    assert!(db.is_empty());
}

#[test]
fn scenario_log_replays_to_its_table() {
    let db = replay("SET a 1\nSET b 2\nDEL a\nSET b 3\n").unwrap();
    assert_eq!(db.len(), 1);
    assert_eq!(db.get("b"), Some(&s("3")));
    assert_eq!(db.get("a"), None);
}

#[test]
fn last_line_may_lack_its_line_feed() {
    let db = replay("SET a 1\nSET b 2").unwrap();
    assert_eq!(db.len(), 2);
    assert_eq!(db.get("a"), Some(&s("1")));
    assert_eq!(db.get("b"), Some(&s("2")));
}

#[test]
fn carriage_returns_are_whitespace() {
    let db = replay("SET a 1\r\nDEL b\r\n").unwrap();
    assert_eq!(db.len(), 1);
    assert_eq!(db.get("a"), Some(&s("1")));
}

#[test]
fn malformed_line_fails_replay() {
    assert_eq!(
        failure("SET a 1\nFOO bar\nSET b 2\n"),
        ReplayError { line: 2, error: ParseError::UnknownVerb }
    );
    assert_eq!(failure("FOO bar"), ReplayError { line: 1, error: ParseError::UnknownVerb });
    assert_eq!(failure("FOO bar\n"), ReplayError { line: 1, error: ParseError::UnknownVerb });
}

#[test]
fn replay_reports_the_first_bad_line() {
    assert_eq!(
        failure("SET a 1\nSET b\nFOO\n"),
        ReplayError { line: 2, error: ParseError::MissingValue }
    );
    assert_eq!(failure("DEL\n"), ReplayError { line: 1, error: ParseError::MissingKey });
    assert_eq!(
        failure("SET a 1\nDEL a\nSET a 1 2\n"),
        ReplayError { line: 3, error: ParseError::TrailingToken }
    );
    assert_eq!(failure("SET a 1\n\nSET b 2\n"), ReplayError { line: 2, error: ParseError::Empty });
    assert_eq!(failure("\n"), ReplayError { line: 1, error: ParseError::Empty });
}

#[test]
fn a_read_in_the_log_fails_replay() {
    assert_eq!(
        failure("SET a 1\nGET a\n"),
        ReplayError { line: 2, error: ParseError::UnknownVerb }
    );
}

#[test]
fn replay_is_a_fold_of_the_applier() {
    let commands = vec![
        Command::Put(s("a"), s("1")),
        Command::Put(s("b"), s("2")),
        Command::Get(s("a")),
        Command::Delete(s("c")),
        Command::Put(s("a"), s("3")),
        Command::Unknown,
        Command::Delete(s("b")),
        Command::Put(s("d"), s("4")),
    ];
    let mut live = Db::new();
    let mut log = String::new();
    for command in &commands {
        run_command(&mut live, command);
        if let Some(record) = command.record() {
            log.push_str(&record);
        }
    }
    assert_eq!(log, "SET a 1\nSET b 2\nDEL c\nSET a 3\nDEL b\nSET d 4\n");
    let replayed = replay(&log).unwrap();
    assert_eq!(replayed.len(), live.len());
    assert_eq!(replayed.len(), 2);
    for key in ["a", "b", "c", "d"] {
        assert_eq!(replayed.get(key), live.get(key));
    }
    assert_eq!(replayed.get("a"), Some(&s("3")));
    assert_eq!(replayed.get("d"), Some(&s("4")));
}

#[test]
fn replay_twice_gives_the_same_table() {
    let log = "SET a 1\nSET b 2\nDEL a\nSET b 3\nSET c 4\n";
    let first = replay(log).unwrap();
    let second = replay(log).unwrap();
    assert_eq!(first.len(), 2);
    assert_eq!(second.len(), 2);
    for key in ["a", "b", "c"] {
        assert_eq!(first.get(key), second.get(key));
    }
}
