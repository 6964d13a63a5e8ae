use kv_replica::command::{Command, Grammar, ParseError};
use kv_replica::log::replay;
use kv_replica::session::{handle_client, handle_operator, Effect, Input};
use kv_replica::table::{run_command, Db};
use kv_replica::text::{split_lines, split_tokens};

/// A small linear congruential generator: the same inputs in every run.
struct Numbers(u64);

impl Numbers {
    fn next(&mut self, below: usize) -> usize {
        self.0 = self.0.wrapping_mul(6364136223846793005).wrapping_add(1442695040888963407);
        ((self.0 >> 33) as usize) % below
    }
}

const ALPHABET: [char; 16] = [
    'S', 'E', 'T', 'D', 'L', 'G', 'a', 'b', '1', '\u{e9}', ' ', ' ', '\t', '\n', '\r', '\u{3000}',
];

fn text(numbers: &mut Numbers, longest: usize) -> String {
    let len = numbers.next(longest + 1);
    (0..len).map(|_| ALPHABET[numbers.next(ALPHABET.len())]).collect()
}

const WORDS: [&str; 8] = ["SET", "DEL", "GET", "FOO", "a", "b", "key", "1"];

fn line_of_words(numbers: &mut Numbers) -> String {
    let count = numbers.next(6);
    let mut line = String::new();
    for _ in 0..numbers.next(2) {
        line.push(' ');
    }
    for i in 0..count {
        if i > 0 {
            line.push_str(["", " ", "  ", "\t"][1 + numbers.next(3)]);
        }
        line.push_str(WORDS[numbers.next(WORDS.len())]);
    }
    for _ in 0..numbers.next(2) {
        line.push(' ');
    }
    line
}

fn expected_parse(line: &str, grammar: Grammar) -> Result<Command, ParseError> {
    let t: Vec<&str> = line.split_whitespace().collect();
    if t.is_empty() {
        return Err(ParseError::Empty);
    }
    let operands = match t[0] {
        "SET" => 2,
        "DEL" => 1,
        "GET" if grammar == Grammar::Operator => 1,
        _ => return Err(ParseError::UnknownVerb),
    };
    if t.len() == 1 {
        return Err(ParseError::MissingKey);
    }
    if t.len() - 1 < operands {
        return Err(ParseError::MissingValue);
    }
    if t.len() - 1 > operands {
        return Err(ParseError::TrailingToken);
    }
    Ok(match t[0] {
        "SET" => Command::Put(t[1].to_string(), t[2].to_string()),
        "DEL" => Command::Delete(t[1].to_string()),
        _ => Command::Get(t[1].to_string()),
    })
}

fn expected_lines(text: &str) -> Vec<String> {
    let mut pieces: Vec<String> = text.split('\n').map(|p| p.to_string()).collect();
    if pieces.last().map(|p| p.is_empty()).unwrap_or(false) {
        pieces.pop();
    }
    pieces
}

#[test]
fn generated_texts_split_into_tokens_as_the_standard_library_splits_them() {
    let mut numbers = Numbers(1);
    for _ in 0..3000 {
        let sample = text(&mut numbers, 24);
        let expected: Vec<String> = sample.split_whitespace().map(|t| t.to_string()).collect();
        assert_eq!(split_tokens(&sample), expected, "{:?}", sample);
    }
}

#[test]
fn generated_texts_split_into_lines_at_line_feeds() {
    let mut numbers = Numbers(2);
    for _ in 0..3000 {
        let sample = text(&mut numbers, 24);
        assert_eq!(split_lines(&sample), expected_lines(&sample), "{:?}", sample);
    }
}

#[test]
fn generated_lines_parse_by_their_tokens() {
    let mut numbers = Numbers(3);
    for _ in 0..3000 {
        let sample = line_of_words(&mut numbers);
        for grammar in [Grammar::Operator, Grammar::Record] {
            assert_eq!(
                Command::parse(&sample, grammar),
                expected_parse(&sample, grammar),
                "{:?}",
                sample
            );
        }
        let fallback = expected_parse(&sample, Grammar::Operator).unwrap_or(Command::Unknown);
        assert_eq!(Command::from(sample.clone()), fallback, "{:?}", sample);
    }
}

#[test]
fn generated_sessions_keep_log_and_table_in_step() {
    let mut numbers = Numbers(4);
    let keys = ["a", "b", "key"];
    for _ in 0..200 {
        let mut leader = Db::new();
        let mut reference = Db::new();
        let mut follower = Db::new();
        let mut leader_log = String::new();
        let mut follower_log = String::new();
        for _ in 0..numbers.next(12) {
            let sample = line_of_words(&mut numbers);
            run_command(&mut reference, &Command::from(sample.clone()));
            for effect in handle_operator(&mut leader, Input::Line(sample)) {
                match effect {
                    Effect::Append(record) => leader_log.push_str(&record),
                    Effect::Forward(record) => {
                        for effect in handle_client(&mut follower, Input::Line(record)) {
                            match effect {
                                Effect::Append(record) => follower_log.push_str(&record),
                                other => panic!("a follower asked for {:?}", other),
                            }
                        }
                    }
                    Effect::Display(_) => {}
                    Effect::Close => panic!("the input has not ended"),
                }
            }
            let restarted = replay(&leader_log).unwrap();
            assert_eq!(follower_log, leader_log);
            for table in [&leader, &follower, &restarted] {
                assert_eq!(table.len(), reference.len());
                for key in keys {
                    assert_eq!(table.get(key), reference.get(key));
                }
            }
        }
    }
}
