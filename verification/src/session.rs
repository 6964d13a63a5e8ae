//! What a node does with its input. A session decides; the program around
//! it reads the input, performs the effects and reports how they went.
//!
//! One node has one table and one log. Its sessions take turns: each call
//! below and the appends it asks for form one step that no other session of
//! the node may interleave with.

use crate::command::{
    command_of, law_parsed_is_well_formed, law_record_round_trip, parse_line, Command,
    CommandView, Grammar,
};
use crate::log::{appended, law_commit_keeps_replay, replay_text, ReplayError};
use crate::response::{Response, ResponseView};
use crate::table::{apply, respond, run_command, Db, Table};
use crate::text::ends_lines;
use vstd::prelude::*;

verus! {

/// What reaches a session.
#[derive(Debug, PartialEq, Eq)]
pub enum Input {
    /// One line: typed by the operator of a leader, or received by a
    /// follower from its leader.
    Line(String),
    /// No more input: the operator ended or interrupted the input, the
    /// input could not be read, or the leader closed the connection.
    Closed,
}

/// The mathematical value of an [`Input`].
pub enum InputView {
    Line(Seq<char>),
    Closed,
}

impl View for Input {
    type V = InputView;

    open spec fn view(&self) -> InputView {
        match self {
            Input::Line(line) => InputView::Line(line@),
            Input::Closed => InputView::Closed,
        }
    }
}

impl Clone for Input {
    fn clone(&self) -> (i: Input)
        ensures
            i@ == self@,
    {
        match self {
            Input::Line(line) => Input::Line(line.clone()),
            Input::Closed => Input::Closed,
        }
    }
}

/// One thing that a session asks the program around it to do.
#[derive(Debug, PartialEq, Eq)]
pub enum Effect {
    /// Append the record to the node's log and wait until it is durable.
    Append(String),
    /// Send the record to the follower.
    Forward(String),
    /// Show the response to the operator.
    Display(Response),
    /// Close the connection in an orderly way and end the session.
    Close,
}

/// The mathematical value of an [`Effect`].
pub enum EffectView {
    Append(Seq<char>),
    Forward(Seq<char>),
    Display(ResponseView),
    Close,
}

impl View for Effect {
    type V = EffectView;

    open spec fn view(&self) -> EffectView {
        match self {
            Effect::Append(record) => EffectView::Append(record@),
            Effect::Forward(record) => EffectView::Forward(record@),
            Effect::Display(response) => EffectView::Display(response@),
            Effect::Close => EffectView::Close,
        }
    }
}

impl Clone for Effect {
    fn clone(&self) -> (e: Effect)
        ensures
            e@ == self@,
    {
        match self {
            Effect::Append(record) => Effect::Append(record.clone()),
            Effect::Forward(record) => Effect::Forward(record.clone()),
            Effect::Display(response) => Effect::Display(response.clone()),
            Effect::Close => Effect::Close,
        }
    }
}

impl DeepView for Effect {
    type V = EffectView;

    open spec fn deep_view(&self) -> EffectView {
        self@
    }
}

/// What follows when an effect could not be performed.
#[derive(Debug, Clone, Copy, PartialEq, Eq, Structural)]
pub enum Recovery {
    /// Drop the effects that remain and end the session with the error.
    Abort,
    /// Report the error and go on with the effects that remain.
    Continue,
}

impl EffectView {
    /// What follows when the effect could not be performed. A command whose
    /// record could not be made durable is not committed: it is neither
    /// forwarded nor acknowledged. A follower that cannot be reached does
    /// not stop its leader.
    pub open spec fn on_failure(self) -> Recovery {
        match self {
            EffectView::Append(_) => Recovery::Abort,
            EffectView::Forward(_) => Recovery::Continue,
            EffectView::Display(_) => Recovery::Continue,
            EffectView::Close => Recovery::Abort,
        }
    }
}

impl Effect {
    /// What follows when the effect could not be performed.
    pub fn on_failure(&self) -> (recovery: Recovery)
        ensures
            recovery == self@.on_failure(),
    {
        match self {
            Effect::Append(_) => Recovery::Abort,
            Effect::Forward(_) => Recovery::Continue,
            Effect::Display(_) => Recovery::Continue,
            Effect::Close => Recovery::Abort,
        }
    }
}

/// What a leader does for a command, in order: first the record is made
/// durable, then it is forwarded, then the operator sees the response. A
/// command without a record is only answered.
pub open spec fn leader_plan(table: Table, command: CommandView) -> Seq<EffectView> {
    match command.record() {
        Some(record) => seq![
            EffectView::Append(record),
            EffectView::Forward(record),
            EffectView::Display(respond(table, command)),
        ],
        None => seq![EffectView::Display(respond(table, command))],
    }
}

/// What a follower does for a command: it makes the record durable, and
/// neither forwards nor answers.
pub open spec fn follower_plan(command: CommandView) -> Seq<EffectView> {
    match command.record() {
        Some(record) => seq![EffectView::Append(record)],
        None => Seq::empty(),
    }
}

/// Applies a command on the leader and says what is to be done for it.
pub fn persist_command(hashmap: &mut Db, command: &Command) -> (plan: Vec<Effect>)
    requires
        command@.well_formed(),
    ensures
        final(hashmap)@ == apply(old(hashmap)@, command@),
        plan.deep_view() == leader_plan(old(hashmap)@, command@),
{
    let response = run_command(hashmap, command);
    let mut plan: Vec<Effect> = Vec::new();
    match command.record() {
        Some(record) => {
            plan.push(Effect::Append(record.clone()));
            plan.push(Effect::Forward(record));
        },
        None => {},
    }
    plan.push(Effect::Display(response));
    plan
}

/// One step of a leader's session. A line is read as a command of the
/// operator's grammar, applied, and planned for; a line that spells no
/// command changes nothing and is answered as unknown. When the input has
/// ended, the channel to the follower is closed.
pub fn handle_operator(hashmap: &mut Db, input: Input) -> (plan: Vec<Effect>)
    ensures
        match input@ {
            InputView::Line(line) => {
                let command = command_of(line, Grammar::Operator);
                &&& final(hashmap)@ == apply(old(hashmap)@, command)
                &&& plan.deep_view() == leader_plan(old(hashmap)@, command)
            },
            InputView::Closed => {
                &&& final(hashmap)@ == old(hashmap)@
                &&& plan.deep_view() == seq![EffectView::Close]
            },
        },
{
    match input {
        Input::Line(line) => {
            let command = Command::from(line);
            persist_command(hashmap, &command)
        },
        Input::Closed => {
            let mut plan: Vec<Effect> = Vec::new();
            plan.push(Effect::Close);
            plan
        },
    }
}

/// One step of a follower's session with one leader. A line is read as a
/// record and applied, and its record goes to the follower's own log; a
/// line that is no record changes nothing and the session goes on. When
/// the leader has closed the connection, the session ends.
pub fn handle_client(hashmap: &mut Db, input: Input) -> (plan: Vec<Effect>)
    ensures
        match input@ {
            InputView::Line(line) => {
                let command = command_of(line, Grammar::Record);
                &&& final(hashmap)@ == apply(old(hashmap)@, command)
                &&& plan.deep_view() == follower_plan(command)
            },
            InputView::Closed => {
                &&& final(hashmap)@ == old(hashmap)@
                &&& plan.deep_view() == seq![EffectView::Close]
            },
        },
{
    let mut plan: Vec<Effect> = Vec::new();
    match input {
        Input::Line(line) => {
            let command = match Command::parse(line.as_str(), Grammar::Record) {
                Ok(command) => command,
                Err(_) => Command::Unknown,
            };
            let _ = run_command(hashmap, &command);
            match command.record() {
                Some(record) => {
                    plan.push(Effect::Append(record));
                },
                None => {},
            }
        },
        Input::Closed => {
            plan.push(Effect::Close);
        },
    }
    plan
}

/// Durable before forwarded. Whatever a leader forwards, its plan has made
/// durable just before, by an append whose failure ends the plan. A
/// command that changes the table is appended once, at the head of the
/// plan; one that does not is not appended.
pub proof fn law_durable_before_forward(table: Table, command: CommandView)
    ensures
        forall|i: int|
            0 <= i < leader_plan(table, command).len() && (#[trigger] leader_plan(
                table,
                command,
            )[i]) is Forward ==> {
                &&& i > 0
                &&& leader_plan(table, command)[i - 1] == EffectView::Append(
                    leader_plan(table, command)[i]->Forward_0,
                )
                &&& leader_plan(table, command)[i - 1].on_failure() == Recovery::Abort
            },
        forall|i: int|
            0 <= i < leader_plan(table, command).len() && (#[trigger] leader_plan(
                table,
                command,
            )[i]) is Append ==> {
                &&& i == 0
                &&& command.is_mutating()
                &&& leader_plan(table, command)[i] == EffectView::Append(command.record().unwrap())
            },
        command.is_mutating() ==> leader_plan(table, command)[0] is Append,
{
}

/// A follower is a sink: all that its plan for a command ever asks for is
/// to append the record of that command.
pub proof fn law_follower_is_a_sink(command: CommandView)
    ensures
        forall|i: int|
            0 <= i < follower_plan(command).len() ==> #[trigger] follower_plan(command)[i]
                == EffectView::Append(command.record().unwrap()),
        follower_plan(command).len() == (if command.is_mutating() {
            1nat
        } else {
            0nat
        }),
{
}

/// The follower follows. Let a follower hold the table that its leader
/// holds. For whatever line the operator types, the follower that receives
/// what the leader forwards ends with the leader's new table and appends
/// to its log what the leader appended to its own; and where the leader
/// forwards nothing, the leader's table has not changed.
pub proof fn law_follower_follows_leader(table: Table, line: Seq<char>)
    ensures
        match command_of(line, Grammar::Operator).record() {
            Some(record) => {
                &&& leader_plan(table, command_of(line, Grammar::Operator))[1]
                    == EffectView::Forward(record)
                &&& apply(table, command_of(record, Grammar::Record)) == apply(
                    table,
                    command_of(line, Grammar::Operator),
                )
                &&& follower_plan(command_of(record, Grammar::Record)) == seq![
                    EffectView::Append(record),
                ]
            },
            None => apply(table, command_of(line, Grammar::Operator)) == table,
        },
{
    let command = command_of(line, Grammar::Operator);
    law_parsed_is_well_formed(line, Grammar::Operator);
    if command.is_mutating() {
        law_record_round_trip(command, Grammar::Record);
    }
}

/// A line that spells no command is tolerated in live traffic: the table
/// stays as it is, nothing goes to the log or to the follower, the leader
/// answers that the command is unknown and the follower does nothing.
pub proof fn law_no_command_no_change(table: Table, line: Seq<char>, grammar: Grammar)
    requires
        parse_line(line, grammar) is Err,
    ensures
        apply(table, command_of(line, grammar)) == table,
        leader_plan(table, command_of(line, grammar)) == seq![
            EffectView::Display(ResponseView::Unknown),
        ],
        follower_plan(command_of(line, grammar)) == Seq::<EffectView>::empty(),
{
}

/// Sessions keep log and table in step. Where the log of a node ends its
/// lines and replays to its table, it does so again after the node has
/// applied what a line spells, in the grammar of its role, and has
/// appended what the plan for it says.
pub proof fn law_session_keeps_replay(
    log: Seq<char>,
    table: Table,
    line: Seq<char>,
    grammar: Grammar,
)
    requires
        ends_lines(log),
        replay_text(log) == Ok::<Table, ReplayError>(table),
    ensures
        ends_lines(log + appended(command_of(line, grammar))),
        replay_text(log + appended(command_of(line, grammar))) == Ok::<Table, ReplayError>(
            apply(table, command_of(line, grammar)),
        ),
{
    law_parsed_is_well_formed(line, grammar);
    law_commit_keeps_replay(log, table, command_of(line, grammar));
}

} // verus!
