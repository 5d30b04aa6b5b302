//! The decisions that keep a sidecar running: when to start it and how long to wait in between,
//! what to do with its reports, and how commands are answered.

use crate::allow_list::AllowList;
use crate::clock::{current_time, Timestamp};
use crate::command::{
    command_line, fresh_id, is_uuid_text, serialize_command_line, EnvelopeModel,
    SidecarCommandEnvelope, SidecarCommandKind,
};
use crate::inbound::{accepts, convert_inbound_at, converted};
use crate::json::{JsonModel, JsonValue};
use crate::message::{InboundMessage, InboundModel};
use crate::sidecar::{PayloadModel, SidecarEvent, SidecarEventModel, SidecarInboundPayload};
use crate::string_map::{entries_map, lemma_without_absent_key, without_key, StringMap};
use crate::text::{is_blank, is_blank_text};
use vstd::prelude::*;

verus! {

/// How long a command may take before its caller gives up on it, in seconds.
pub const COMMAND_TIMEOUT_SECS: u64 = 20;

/// The first wait between two starts of the sidecar, in seconds.
pub const INITIAL_RECONNECT_BACKOFF_SECS: u64 = 2;

/// The longest wait between two starts of the sidecar, in seconds.
pub const MAX_RECONNECT_BACKOFF_SECS: u64 = 30;

/// Where the supervisor stands.
#[derive(Clone, Copy, Debug, PartialEq, Eq, Structural)]
pub enum SupervisorPhase {
    /// About to start the sidecar, unless a shutdown was asked for.
    Polling,
    /// The sidecar is being started.
    Spawning,
    /// The sidecar is running.
    Connected,
    /// The sidecar is running, and a command is being written to it.
    Writing,
    /// The sidecar is gone, and is started again unless a shutdown was asked for.
    Disconnected,
    /// The sidecar is not started again.
    Stopped,
}

/// How far the writing of a command has come.
#[derive(Clone, Copy, Debug, PartialEq, Eq, Structural)]
pub enum WriteStage {
    /// Its line is being written.
    Line,
    /// The line feed behind it is being written.
    Newline,
    /// It is being flushed.
    Flush,
}

/// A command that is being written. Its caller waits for an answer at `slot`.
#[derive(Debug)]
struct CommandWrite {
    id: String,
    slot: u64,
    stage: WriteStage,
}

/// What happens to the supervisor.
#[derive(Debug)]
pub enum SupervisorEvent {
    /// It was looked up whether a shutdown was asked for.
    ShutdownPolled { requested: bool },
    /// The sidecar could not be started.
    SpawnFailed,
    /// The sidecar was started, with the standard streams that could be had.
    Spawned { stdin: bool, stdout: bool, stderr: bool },
    /// A shutdown is asked for.
    ShutdownRequested,
    /// There will be no more commands.
    CommandsClosed,
    /// A command came in. Its caller waits for an answer at `slot`.
    CommandReceived { envelope: SidecarCommandEnvelope, slot: u64 },
    /// The part of a command that was to be written was written, or was flushed; or why it was not.
    Written { result: Result<(), String> },
    /// The sidecar wrote a line. `report` is the report that the line holds, or the reason why it
    /// holds none.
    LineRead { line: String, report: Result<SidecarEvent, String> },
    /// Nobody takes messages any more.
    InboundClosed,
    /// The sidecar's output has come to its end, or can no longer be read.
    OutputEnded,
}

/// How important an entry in the log is.
#[derive(Clone, Copy, Debug, PartialEq, Eq, Structural)]
pub enum LogLevel {
    Error,
    Warn,
    Info,
    Debug,
}

/// An entry in the log.
#[derive(Debug)]
pub enum LogEntry {
    /// The sidecar has started up for the adapter that it names.
    Ready { adapter_key: Option<String> },
    /// The sidecar has something to put down.
    SidecarLog { message: String },
    /// A line of the sidecar is no report.
    UnreadableLine { line: String, error: String },
    /// A message of a sender who is not on the list was dropped.
    SenderNotListed { sender_id: String },
}

/// What the supervisor wants done, in order.
#[derive(Debug)]
pub enum SupervisorAction {
    /// Start the sidecar.
    Launch,
    /// Wait.
    Sleep { seconds: u64 },
    /// Write a text to the sidecar.
    Write(String),
    /// Flush what was written to the sidecar.
    Flush,
    /// Kill the sidecar.
    Kill,
    /// Answer the caller who waits at `slot`.
    Reply { slot: u64, outcome: Result<(), String> },
    /// Give up the caller who waits at `slot`, without an answer.
    Abandon { slot: u64 },
    /// Tell the bot of a message.
    Deliver(InboundMessage),
    /// Put down an entry in the log.
    Log { level: LogLevel, entry: LogEntry },
    /// Stop for good.
    Stop,
}

/// Keeps a sidecar running.
#[derive(Debug)]
pub struct Supervisor {
    runtime_key: String,
    dm_allow_list: AllowList,
    phase: SupervisorPhase,
    reconnect_backoff: u64,
    pending: StringMap<u64>,
    writing: Option<CommandWrite>,
}

/// What a `CommandWrite` stands for.
#[verifier::ext_equal]
pub struct WriteModel {
    pub id: Seq<char>,
    pub slot: u64,
    pub stage: WriteStage,
}

/// What a `Supervisor` stands for: `pending` are the commands that wait for an answer, each with
/// the slot at which its caller waits, in the order in which they were sent; `writing` is the
/// command that is being written.
#[verifier::ext_equal]
pub struct SupervisorModel {
    pub runtime_key: Seq<char>,
    pub dm_allow_list: Seq<Seq<char>>,
    pub phase: SupervisorPhase,
    pub reconnect_backoff: u64,
    pub pending: Seq<(Seq<char>, u64)>,
    pub writing: Option<WriteModel>,
}

/// What the caller of a command is told if it could not be written, given how far it had come.
pub open spec fn write_refusal(stage: WriteStage, error: Seq<char>) -> Seq<char> {
    match stage {
        WriteStage::Line => "failed writing command to photon sidecar: "@ + error,
        WriteStage::Newline => "failed writing command newline to photon sidecar: "@ + error,
        WriteStage::Flush => "failed flushing command to photon sidecar: "@ + error,
    }
}

/// What a `SupervisorEvent` stands for.
#[verifier::ext_equal]
pub enum EventModel {
    ShutdownPolled { requested: bool },
    SpawnFailed,
    Spawned { complete: bool },
    ShutdownRequested,
    CommandsClosed,
    CommandReceived { envelope: EnvelopeModel, slot: u64 },
    Written { result: Result<(), Seq<char>> },
    LineRead { line: Seq<char>, report: Result<SidecarEventModel, Seq<char>> },
    InboundClosed,
    OutputEnded,
}

/// What a `LogEntry` stands for.
#[verifier::ext_equal]
pub enum EntryModel {
    Ready { adapter_key: Option<Seq<char>> },
    SidecarLog { message: Seq<char> },
    UnreadableLine { line: Seq<char>, error: Seq<char> },
    SenderNotListed { sender_id: Seq<char> },
}

/// What a `SupervisorAction` stands for.
#[verifier::ext_equal]
pub enum ActionModel {
    Launch,
    Sleep { seconds: u64 },
    Write(Seq<char>),
    Flush,
    Kill,
    Reply { slot: u64, outcome: Result<(), Seq<char>> },
    Abandon { slot: u64 },
    Deliver(InboundModel),
    Log { level: LogLevel, entry: EntryModel },
    Stop,
}

/// What an outcome, or the reason why there is none, stands for.
pub open spec fn outcome_model(outcome: Result<(), String>) -> Result<(), Seq<char>> {
    match outcome {
        Ok(()) => Ok(()),
        Err(reason) => Err(reason@),
    }
}

impl View for SupervisorEvent {
    type V = EventModel;

    open spec fn view(&self) -> EventModel {
        match self {
            SupervisorEvent::ShutdownPolled { requested } => EventModel::ShutdownPolled {
                requested: *requested,
            },
            SupervisorEvent::SpawnFailed => EventModel::SpawnFailed,
            SupervisorEvent::Spawned { stdin, stdout, stderr } => EventModel::Spawned {
                complete: *stdin && *stdout && *stderr,
            },
            SupervisorEvent::ShutdownRequested => EventModel::ShutdownRequested,
            SupervisorEvent::CommandsClosed => EventModel::CommandsClosed,
            SupervisorEvent::CommandReceived { envelope, slot } => EventModel::CommandReceived {
                envelope: envelope@,
                slot: *slot,
            },
            SupervisorEvent::Written { result } => EventModel::Written {
                result: outcome_model(*result),
            },
            SupervisorEvent::LineRead { line, report } => EventModel::LineRead {
                line: line@,
                report: match report {
                    Ok(event) => Ok(event@),
                    Err(error) => Err(error@),
                },
            },
            SupervisorEvent::InboundClosed => EventModel::InboundClosed,
            SupervisorEvent::OutputEnded => EventModel::OutputEnded,
        }
    }
}

impl View for LogEntry {
    type V = EntryModel;

    open spec fn view(&self) -> EntryModel {
        match self {
            LogEntry::Ready { adapter_key } => EntryModel::Ready {
                adapter_key: adapter_key.deep_view(),
            },
            LogEntry::SidecarLog { message } => EntryModel::SidecarLog { message: message@ },
            LogEntry::UnreadableLine { line, error } => EntryModel::UnreadableLine {
                line: line@,
                error: error@,
            },
            LogEntry::SenderNotListed { sender_id } => EntryModel::SenderNotListed {
                sender_id: sender_id@,
            },
        }
    }
}

impl View for SupervisorAction {
    type V = ActionModel;

    open spec fn view(&self) -> ActionModel {
        match self {
            SupervisorAction::Launch => ActionModel::Launch,
            SupervisorAction::Sleep { seconds } => ActionModel::Sleep { seconds: *seconds },
            SupervisorAction::Write(text) => ActionModel::Write(text@),
            SupervisorAction::Flush => ActionModel::Flush,
            SupervisorAction::Kill => ActionModel::Kill,
            SupervisorAction::Reply { slot, outcome } => ActionModel::Reply {
                slot: *slot,
                outcome: outcome_model(*outcome),
            },
            SupervisorAction::Abandon { slot } => ActionModel::Abandon { slot: *slot },
            SupervisorAction::Deliver(message) => ActionModel::Deliver(message@),
            SupervisorAction::Log { level, entry } => ActionModel::Log {
                level: *level,
                entry: entry@,
            },
            SupervisorAction::Stop => ActionModel::Stop,
        }
    }
}

impl View for Supervisor {
    type V = SupervisorModel;

    closed spec fn view(&self) -> SupervisorModel {
        SupervisorModel {
            runtime_key: self.runtime_key@,
            dm_allow_list: self.dm_allow_list@,
            phase: self.phase,
            reconnect_backoff: self.reconnect_backoff,
            pending: self.pending.order(),
            writing: match self.writing {
                Some(write) => Some(
                    WriteModel { id: write.id@, slot: write.slot, stage: write.stage },
                ),
                None => None,
            },
        }
    }
}

/// What a list of actions stands for.
pub open spec fn action_models(actions: Seq<SupervisorAction>) -> Seq<ActionModel> {
    actions.map_values(|action: SupervisorAction| action@)
}

/// The wait after a wait of `seconds`: twice as long, up to the longest.
pub open spec fn next_backoff(seconds: u64) -> u64 {
    if 2 * seconds < MAX_RECONNECT_BACKOFF_SECS {
        (2 * seconds) as u64
    } else {
        MAX_RECONNECT_BACKOFF_SECS
    }
}

/// The answer that every pending caller gets when the commands are given up for `reason`.
pub open spec fn refusals(pending: Seq<(Seq<char>, u64)>, reason: Seq<char>) -> Seq<ActionModel> {
    pending.map_values(
        |command: (Seq<char>, u64)| ActionModel::Reply { slot: command.1, outcome: Err(reason) },
    )
}

/// The importance of an entry that the sidecar wants in the log.
pub open spec fn log_level_of(level: Option<Seq<char>>) -> LogLevel {
    if level == Some("error"@) {
        LogLevel::Error
    } else if level == Some("warn"@) {
        LogLevel::Warn
    } else {
        LogLevel::Debug
    }
}

/// What is done about a message that is reported if it is `now`: it is delivered if it is accepted;
/// else there is an entry in the log if only the list stood against it.
pub open spec fn inbound_actions(
    state: SupervisorModel,
    payload: PayloadModel,
    now: Timestamp,
) -> Seq<ActionModel> {
    if accepts(state.dm_allow_list, payload) {
        seq![ActionModel::Deliver(converted(state.runtime_key, payload, now))]
    } else if is_blank_text(payload.space_id) || is_blank_text(payload.sender_id) {
        Seq::empty()
    } else {
        seq![
            ActionModel::Log {
                level: LogLevel::Debug,
                entry: EntryModel::SenderNotListed { sender_id: payload.sender_id },
            },
        ]
    }
}

/// What happens when a running sidecar reports something if it is `now`: the commands that are
/// still pending, and what is to be done.
pub open spec fn report_outcome(
    state: SupervisorModel,
    event: SidecarEventModel,
    now: Timestamp,
) -> (Seq<(Seq<char>, u64)>, Seq<ActionModel>) {
    match event {
        SidecarEventModel::Ready { adapter_key } => (
            state.pending,
            seq![
                ActionModel::Log {
                    level: LogLevel::Info,
                    entry: EntryModel::Ready { adapter_key },
                },
            ],
        ),
        SidecarEventModel::Inbound { payload } => (
            state.pending,
            inbound_actions(state, payload, now),
        ),
        SidecarEventModel::Response { id, ok, error } => {
            let slots = entries_map(state.pending);
            if slots.contains_key(id) {
                (
                    without_key(state.pending, id),
                    seq![
                        ActionModel::Reply {
                            slot: slots[id],
                            outcome: if ok {
                                Ok(())
                            } else {
                                match error {
                                    Some(reason) => Err(reason),
                                    None => Err("unknown photon sidecar error"@),
                                }
                            },
                        },
                    ],
                )
            } else {
                (state.pending, Seq::empty())
            }
        },
        SidecarEventModel::Log { level, message } => (
            state.pending,
            seq![
                ActionModel::Log {
                    level: log_level_of(level),
                    entry: EntryModel::SidecarLog { message },
                },
            ],
        ),
    }
}

/// What happens when a running sidecar has written a line if it is `now`: the commands that are
/// still pending, and what is to be done. Blank lines are passed over, and so are, but for an entry
/// in the log, lines that hold no report.
pub open spec fn line_outcome(
    state: SupervisorModel,
    line: Seq<char>,
    report: Result<SidecarEventModel, Seq<char>>,
    now: Timestamp,
) -> (Seq<(Seq<char>, u64)>, Seq<ActionModel>) {
    if is_blank_text(line) {
        (state.pending, Seq::empty())
    } else {
        match report {
            Ok(event) => report_outcome(state, event, now),
            Err(error) => (
                state.pending,
                seq![
                    ActionModel::Log {
                        level: LogLevel::Warn,
                        entry: EntryModel::UnreadableLine { line, error },
                    },
                ],
            ),
        }
    }
}

/// The line that asks the sidecar to shut down, as the command `id`.
pub open spec fn shutdown_line(id: Seq<char>) -> Seq<char> {
    command_line(
        EnvelopeModel { id, command: SidecarCommandKind::Shutdown, payload: JsonModel::Null },
    )
}

/// How a shutdown begins: the sidecar is asked for it, as the command `id`, and killed.
pub open spec fn shutdown_opening(id: Seq<char>) -> Seq<ActionModel> {
    seq![
        ActionModel::Write(shutdown_line(id)),
        ActionModel::Write("\n"@),
        ActionModel::Flush,
        ActionModel::Kill,
    ]
}

/// What happens when a part of the command that is being written was written or not: the next
/// state, and what is to be done. The line is followed by a line feed, and the line feed by a
/// flush; then the command is pending, in place of one under the same id, whose caller is given
/// up. The first part that fails ends it, and the caller is told.
pub open spec fn written_outcome(
    state: SupervisorModel,
    write: WriteModel,
    result: Result<(), Seq<char>>,
) -> (SupervisorModel, Seq<ActionModel>) {
    let done = SupervisorModel { phase: SupervisorPhase::Connected, writing: None, ..state };
    match result {
        Err(error) => (
            done,
            seq![
                ActionModel::Reply {
                    slot: write.slot,
                    outcome: Err(write_refusal(write.stage, error)),
                },
            ],
        ),
        Ok(()) => match write.stage {
            WriteStage::Line => (
                SupervisorModel {
                    writing: Some(WriteModel { stage: WriteStage::Newline, ..write }),
                    ..state
                },
                seq![ActionModel::Write("\n"@)],
            ),
            WriteStage::Newline => (
                SupervisorModel {
                    writing: Some(WriteModel { stage: WriteStage::Flush, ..write }),
                    ..state
                },
                seq![ActionModel::Flush],
            ),
            WriteStage::Flush => (
                SupervisorModel {
                    pending: without_key(state.pending, write.id).push((write.id, write.slot)),
                    ..done
                },
                if entries_map(state.pending).contains_key(write.id) {
                    seq![ActionModel::Abandon { slot: entries_map(state.pending)[write.id] }]
                } else {
                    Seq::empty()
                },
            ),
        },
    }
}

/// What an event leads to: the next state, and what is to be done. `now` is the time on the clock,
/// `id` the id of the command that asks the sidecar to shut down. An event that does not belong to
/// the phase leads to nothing.
pub open spec fn step_outcome(
    state: SupervisorModel,
    event: EventModel,
    now: Timestamp,
    id: Seq<char>,
) -> (SupervisorModel, Seq<ActionModel>) {
    let none = Seq::<(Seq<char>, u64)>::empty();
    let backoff = state.reconnect_backoff;
    let stopped = SupervisorModel { phase: SupervisorPhase::Stopped, pending: none, ..state };
    match (state.phase, event) {
        (SupervisorPhase::Polling, EventModel::ShutdownPolled { requested }) => if requested {
            (
                SupervisorModel { phase: SupervisorPhase::Stopped, ..state },
                seq![ActionModel::Stop],
            )
        } else {
            (
                SupervisorModel { phase: SupervisorPhase::Spawning, ..state },
                seq![ActionModel::Launch],
            )
        },
        (SupervisorPhase::Spawning, EventModel::SpawnFailed) => (
            SupervisorModel {
                phase: SupervisorPhase::Polling,
                reconnect_backoff: next_backoff(backoff),
                ..state
            },
            seq![ActionModel::Sleep { seconds: backoff }],
        ),
        (SupervisorPhase::Spawning, EventModel::Spawned { complete }) => {
            let reset = SupervisorModel {
                reconnect_backoff: INITIAL_RECONNECT_BACKOFF_SECS,
                ..state
            };
            if complete {
                (SupervisorModel { phase: SupervisorPhase::Connected, ..reset }, Seq::empty())
            } else {
                (
                    SupervisorModel { phase: SupervisorPhase::Polling, ..reset },
                    seq![
                        ActionModel::Kill,
                        ActionModel::Sleep { seconds: INITIAL_RECONNECT_BACKOFF_SECS },
                    ],
                )
            }
        },
        (SupervisorPhase::Connected, EventModel::ShutdownRequested) => (
            stopped,
            shutdown_opening(id) + refusals(
                state.pending,
                "photon sidecar shutting down"@,
            ).push(ActionModel::Stop),
        ),
        (SupervisorPhase::Connected, EventModel::CommandsClosed) => (
            stopped,
            seq![ActionModel::Kill] + refusals(
                state.pending,
                "photon command channel closed"@,
            ).push(ActionModel::Stop),
        ),
        (SupervisorPhase::Connected, EventModel::CommandReceived { envelope, slot }) => (
            SupervisorModel {
                phase: SupervisorPhase::Writing,
                writing: Some(
                    WriteModel { id: envelope.id, slot, stage: WriteStage::Line },
                ),
                ..state
            },
            seq![ActionModel::Write(command_line(envelope))],
        ),
        (SupervisorPhase::Writing, EventModel::Written { result }) => match state.writing {
            Some(write) => written_outcome(state, write, result),
            None => (state, Seq::empty()),
        },
        (SupervisorPhase::Connected, EventModel::LineRead { line, report }) => {
            let (pending, actions) = line_outcome(state, line, report, now);
            (SupervisorModel { pending, ..state }, actions)
        },
        (SupervisorPhase::Connected, EventModel::InboundClosed) => (
            SupervisorModel { phase: SupervisorPhase::Disconnected, pending: none, ..state },
            refusals(state.pending, "photon sidecar disconnected before responding"@),
        ),
        (SupervisorPhase::Connected, EventModel::OutputEnded) => (
            SupervisorModel { phase: SupervisorPhase::Disconnected, pending: none, ..state },
            refusals(state.pending, "photon sidecar disconnected before responding"@),
        ),
        (SupervisorPhase::Disconnected, EventModel::ShutdownPolled { requested }) => if requested {
            (
                SupervisorModel { phase: SupervisorPhase::Stopped, ..state },
                seq![ActionModel::Stop],
            )
        } else {
            (
                SupervisorModel {
                    phase: SupervisorPhase::Polling,
                    reconnect_backoff: next_backoff(backoff),
                    ..state
                },
                seq![ActionModel::Sleep { seconds: backoff }],
            )
        },
        _ => (state, Seq::empty()),
    }
}

/// Whether an event may lead from one state to the next with the given actions: for some time on
/// the clock, and some fresh id.
pub open spec fn steps(
    before: SupervisorModel,
    event: EventModel,
    after: SupervisorModel,
    actions: Seq<ActionModel>,
) -> bool {
    exists|now: Timestamp, id: Seq<char>|
        {
            &&& is_uuid_text(id)
            &&& (after, actions) == #[trigger] step_outcome(before, event, now, id)
        }
}

/// The importance of an entry that the sidecar wants in the log.
fn log_level(level: &Option<String>) -> (importance: LogLevel)
    ensures
        importance == log_level_of(level.deep_view()),
{
    match level {
        Some(name) => if *name == "error".to_string() {
            LogLevel::Error
        } else if *name == "warn".to_string() {
            LogLevel::Warn
        } else {
            LogLevel::Debug
        },
        None => LogLevel::Debug,
    }
}

/// What the caller of a command is told if it could not be written.
fn refusal_at(stage: WriteStage, error: String) -> (reason: String)
    ensures
        reason@ == write_refusal(stage, error@),
{
    let failed = match stage {
        WriteStage::Line => "failed writing command to photon sidecar: ",
        WriteStage::Newline => "failed writing command newline to photon sidecar: ",
        WriteStage::Flush => "failed flushing command to photon sidecar: ",
    };
    failed.to_string().concat(error.as_str())
}

impl Supervisor {
    /// A supervisor that has not started its sidecar yet.
    pub fn new(runtime_key: String, dm_allow_list: AllowList) -> (supervisor: Supervisor)
        ensures
            supervisor@ == (SupervisorModel {
                runtime_key: runtime_key@,
                dm_allow_list: dm_allow_list@,
                phase: SupervisorPhase::Polling,
                reconnect_backoff: INITIAL_RECONNECT_BACKOFF_SECS,
                pending: Seq::empty(),
                writing: None,
            }),
    {
        Supervisor {
            runtime_key,
            dm_allow_list,
            phase: SupervisorPhase::Polling,
            reconnect_backoff: INITIAL_RECONNECT_BACKOFF_SECS,
            pending: StringMap::new(),
            writing: None,
        }
    }

    /// Where the supervisor stands.
    pub fn phase(&self) -> (phase: SupervisorPhase)
        ensures
            phase == self@.phase,
    {
        self.phase
    }

    /// Takes the present wait, and makes the next one longer.
    fn take_backoff(&mut self) -> (seconds: u64)
        ensures
            seconds == old(self)@.reconnect_backoff,
            final(self)@ == (SupervisorModel {
                reconnect_backoff: next_backoff(old(self)@.reconnect_backoff),
                ..old(self)@
            }),
    {
        let seconds = self.reconnect_backoff;
        self.reconnect_backoff = if seconds < MAX_RECONNECT_BACKOFF_SECS / 2 {
            2 * seconds
        } else {
            MAX_RECONNECT_BACKOFF_SECS
        };
        seconds
    }

    /// Gives up the pending commands, and answers their callers.
    fn refuse_pending(&mut self, reason: &str, actions: &mut Vec<SupervisorAction>)
        ensures
            final(self)@ == (SupervisorModel { pending: Seq::empty(), ..old(self)@ }),
            action_models(final(actions)@) == action_models(old(actions)@) + refusals(
                old(self)@.pending,
                reason@,
            ),
    {
        let ghost before = actions@;
        let ghost pending = self.pending.order();
        let mut i: usize = 0;
        assert(action_models(before) + refusals(pending, reason@).take(0) =~= action_models(
            before,
        ));
        while i < self.pending.len()
            invariant
                i <= pending.len(),
                pending == self.pending.order(),
                pending == old(self)@.pending,
                self@ == old(self)@,
                action_models(actions@) == action_models(before) + refusals(
                    pending,
                    reason@,
                ).take(i as int),
            decreases pending.len() - i,
        {
            let ghost so_far = actions@;
            let slot = *self.pending.entry(i).1;
            actions.push(SupervisorAction::Reply { slot, outcome: Err(reason.to_string()) });
            proof {
                let all = refusals(pending, reason@);
                assert(all.take(i + 1) =~= all.take(i as int).push(all[i as int]));
                assert(action_models(actions@) =~= action_models(so_far).push(all[i as int]));
            }
            i += 1;
        }
        assert(refusals(pending, reason@).take(pending.len() as int) =~= refusals(
            pending,
            reason@,
        ));
        self.pending.clear();
    }

    /// Deals with a message that the running sidecar reports, if it is `now`.
    fn take_in(&self, payload: SidecarInboundPayload, now: Timestamp) -> (actions: Vec<
        SupervisorAction,
    >)
        ensures
            action_models(actions@) == inbound_actions(self@, payload@, now),
    {
        let ghost expected = inbound_actions(self@, payload@, now);
        let mut actions: Vec<SupervisorAction> = Vec::new();
        let blank = is_blank(payload.space_id.as_str()) || is_blank(payload.sender_id.as_str());
        let sender_id = payload.sender_id.clone();
        match convert_inbound_at(self.runtime_key.as_str(), &self.dm_allow_list, payload, now) {
            Some(message) => actions.push(SupervisorAction::Deliver(message)),
            None => {
                if !blank {
                    let entry = LogEntry::SenderNotListed { sender_id };
                    actions.push(SupervisorAction::Log { level: LogLevel::Debug, entry });
                }
            },
        }
        assert(action_models(actions@) =~= expected);
        actions
    }

    /// Deals with a report of the running sidecar, if it is `now`.
    pub fn report_at(&mut self, event: SidecarEvent, now: Timestamp) -> (actions: Vec<
        SupervisorAction,
    >)
        ensures
            ({
                let (pending, expected) = report_outcome(old(self)@, event@, now);
                &&& final(self)@ == SupervisorModel { pending, ..old(self)@ }
                &&& action_models(actions@) == expected
            }),
    {
        let ghost expected = report_outcome(old(self)@, event@, now).1;
        let mut actions: Vec<SupervisorAction> = Vec::new();
        match event {
            SidecarEvent::Ready { adapter_key } => {
                let entry = LogEntry::Ready { adapter_key };
                actions.push(SupervisorAction::Log { level: LogLevel::Info, entry });
            },
            SidecarEvent::Inbound { payload } => {
                actions = self.take_in(payload, now);
            },
            SidecarEvent::Response { id, ok, error } => {
                match self.pending.remove(id.as_str()) {
                    Some(slot) => {
                        let outcome = if ok {
                            Ok(())
                        } else {
                            match error {
                                Some(reason) => Err(reason),
                                None => Err("unknown photon sidecar error".to_string()),
                            }
                        };
                        actions.push(SupervisorAction::Reply { slot, outcome });
                    },
                    None => {
                        proof {
                            lemma_without_absent_key(old(self)@.pending, id@);
                        }
                    },
                }
            },
            SidecarEvent::Log { level, message } => {
                let entry = LogEntry::SidecarLog { message };
                actions.push(SupervisorAction::Log { level: log_level(&level), entry });
            },
        }
        assert(action_models(actions@) =~= expected);
        actions
    }

    /// Deals with a line of the running sidecar, if it is `now`.
    pub fn line_at(
        &mut self,
        line: String,
        report: Result<SidecarEvent, String>,
        now: Timestamp,
    ) -> (actions: Vec<SupervisorAction>)
        ensures
            ({
                let (pending, expected) = line_outcome(
                    old(self)@,
                    line@,
                    match report {
                        Ok(event) => Ok(event@),
                        Err(error) => Err(error@),
                    },
                    now,
                );
                &&& final(self)@ == SupervisorModel { pending, ..old(self)@ }
                &&& action_models(actions@) == expected
            }),
    {
        let mut actions: Vec<SupervisorAction> = Vec::new();
        assert(action_models(actions@) =~= Seq::empty());
        if !is_blank(line.as_str()) {
            match report {
                Ok(event) => {
                    actions = self.report_at(event, now);
                },
                Err(error) => {
                    let entry = LogEntry::UnreadableLine { line, error };
                    actions.push(SupervisorAction::Log { level: LogLevel::Warn, entry });
                    assert(action_models(actions@) =~= seq![
                        ActionModel::Log {
                            level: LogLevel::Warn,
                            entry: EntryModel::UnreadableLine { line: line@, error: error@ },
                        },
                    ]);
                },
            }
        }
        actions
    }

    /// Begins to write a command to the running sidecar.
    fn begin_command(&mut self, envelope: SidecarCommandEnvelope, slot: u64) -> (actions: Vec<
        SupervisorAction,
    >)
        ensures
            final(self)@ == (SupervisorModel {
                phase: SupervisorPhase::Writing,
                writing: Some(
                    WriteModel { id: envelope.id@, slot, stage: WriteStage::Line },
                ),
                ..old(self)@
            }),
            action_models(actions@) == seq![ActionModel::Write(command_line(envelope@))],
    {
        let mut actions: Vec<SupervisorAction> = Vec::new();
        match serialize_command_line(&envelope) {
            Ok(line) => {
                actions.push(SupervisorAction::Write(line));
                self.writing = Some(
                    CommandWrite { id: envelope.id, slot, stage: WriteStage::Line },
                );
                self.phase = SupervisorPhase::Writing;
            },
            Err(error) => {
                actions.push(SupervisorAction::Reply { slot, outcome: Err(error.message()) });
            },
        }
        assert(action_models(actions@) =~= seq![ActionModel::Write(command_line(envelope@))]);
        actions
    }

    /// Goes on with the command that is being written.
    fn go_on_writing(&mut self, result: Result<(), String>) -> (actions: Vec<SupervisorAction>)
        ensures
            (final(self)@, action_models(actions@)) == match old(self)@.writing {
                Some(write) => written_outcome(
                    old(self)@,
                    write,
                    outcome_model(result),
                ),
                None => (old(self)@, Seq::empty()),
            },
    {
        let ghost before = self@;
        let ghost outcome = outcome_model(result);
        let mut actions: Vec<SupervisorAction> = Vec::new();
        match self.writing.take() {
            Some(write) => {
                match (result, write.stage) {
                    (Err(error), stage) => {
                        let reason = refusal_at(stage, error);
                        actions.push(
                            SupervisorAction::Reply { slot: write.slot, outcome: Err(reason) },
                        );
                        self.phase = SupervisorPhase::Connected;
                    },
                    (Ok(()), WriteStage::Line) => {
                        actions.push(SupervisorAction::Write("\n".to_string()));
                        self.writing = Some(CommandWrite { stage: WriteStage::Newline, ..write });
                    },
                    (Ok(()), WriteStage::Newline) => {
                        actions.push(SupervisorAction::Flush);
                        self.writing = Some(CommandWrite { stage: WriteStage::Flush, ..write });
                    },
                    (Ok(()), WriteStage::Flush) => {
                        match self.pending.insert(write.id, write.slot) {
                            Some(slot) => actions.push(SupervisorAction::Abandon { slot }),
                            None => {},
                        }
                        self.phase = SupervisorPhase::Connected;
                    },
                }
            },
            None => {},
        }
        proof {
            let (after, expected) = match before.writing {
                Some(write) => written_outcome(before, write, outcome),
                None => (before, Seq::empty()),
            };
            assert(self@ =~= after);
            assert(action_models(actions@) =~= expected);
        }
        actions
    }

    /// Shuts a running sidecar down, given the id of the command that asks it to.
    pub fn shut_down_as(&mut self, id: String) -> (actions: Vec<SupervisorAction>)
        ensures
            final(self)@ == (SupervisorModel {
                phase: SupervisorPhase::Stopped,
                pending: Seq::empty(),
                ..old(self)@
            }),
            action_models(actions@) == shutdown_opening(id@) + refusals(
                old(self)@.pending,
                "photon sidecar shutting down"@,
            ).push(ActionModel::Stop),
    {
        let mut actions: Vec<SupervisorAction> = Vec::new();
        let envelope = SidecarCommandEnvelope {
            id,
            command: SidecarCommandKind::Shutdown,
            payload: JsonValue::Null,
        };
        match serialize_command_line(&envelope) {
            Ok(line) => {
                actions.push(SupervisorAction::Write(line));
                actions.push(SupervisorAction::Write("\n".to_string()));
                actions.push(SupervisorAction::Flush);
            },
            Err(_) => {},
        }
        actions.push(SupervisorAction::Kill);
        assert(action_models(actions@) =~= shutdown_opening(id@));
        self.refuse_pending("photon sidecar shutting down", &mut actions);
        let ghost before = actions@;
        actions.push(SupervisorAction::Stop);
        assert(action_models(actions@) =~= action_models(before).push(ActionModel::Stop));
        self.phase = SupervisorPhase::Stopped;
        actions
    }

    /// Gives up on the sidecar that was running.
    fn disconnect(&mut self) -> (actions: Vec<SupervisorAction>)
        ensures
            final(self)@ == (SupervisorModel {
                phase: SupervisorPhase::Disconnected,
                pending: Seq::empty(),
                ..old(self)@
            }),
            action_models(actions@) == refusals(
                old(self)@.pending,
                "photon sidecar disconnected before responding"@,
            ),
    {
        let mut actions: Vec<SupervisorAction> = Vec::new();
        assert(action_models(actions@) =~= Seq::empty());
        self.refuse_pending("photon sidecar disconnected before responding", &mut actions);
        self.phase = SupervisorPhase::Disconnected;
        actions
    }

    /// Takes in an event, and says what is to be done.
    pub fn step(&mut self, event: SupervisorEvent) -> (actions: Vec<SupervisorAction>)
        ensures
            steps(old(self)@, event@, final(self)@, action_models(actions@)),
    {
        let ghost before = self@;
        let ghost happening = event@;
        proof {
            lemma_uuid_text_exists();
        }
        let ghost mut time = Timestamp { seconds: 0, nanos: 0 };
        let ghost mut name = choose|id: Seq<char>| is_uuid_text(id);
        let mut actions: Vec<SupervisorAction> = Vec::new();
        match (self.phase, event) {
            (SupervisorPhase::Polling, SupervisorEvent::ShutdownPolled { requested }) => {
                if requested {
                    self.phase = SupervisorPhase::Stopped;
                    actions.push(SupervisorAction::Stop);
                } else {
                    self.phase = SupervisorPhase::Spawning;
                    actions.push(SupervisorAction::Launch);
                }
            },
            (SupervisorPhase::Spawning, SupervisorEvent::SpawnFailed) => {
                let seconds = self.take_backoff();
                self.phase = SupervisorPhase::Polling;
                actions.push(SupervisorAction::Sleep { seconds });
            },
            (SupervisorPhase::Spawning, SupervisorEvent::Spawned { stdin, stdout, stderr }) => {
                self.reconnect_backoff = INITIAL_RECONNECT_BACKOFF_SECS;
                if stdin && stdout && stderr {
                    self.phase = SupervisorPhase::Connected;
                } else {
                    self.phase = SupervisorPhase::Polling;
                    actions.push(SupervisorAction::Kill);
                    actions.push(
                        SupervisorAction::Sleep { seconds: INITIAL_RECONNECT_BACKOFF_SECS },
                    );
                }
            },
            (SupervisorPhase::Connected, SupervisorEvent::ShutdownRequested) => {
                let id = fresh_id();
                proof {
                    name = id@;
                }
                actions = self.shut_down_as(id);
            },
            (SupervisorPhase::Connected, SupervisorEvent::CommandsClosed) => {
                actions.push(SupervisorAction::Kill);
                assert(action_models(actions@) =~= seq![ActionModel::Kill]);
                self.refuse_pending("photon command channel closed", &mut actions);
                let ghost refused = actions@;
                actions.push(SupervisorAction::Stop);
                assert(action_models(actions@) =~= action_models(refused).push(ActionModel::Stop));
                self.phase = SupervisorPhase::Stopped;
            },
            (SupervisorPhase::Connected, SupervisorEvent::CommandReceived { envelope, slot }) => {
                actions = self.begin_command(envelope, slot);
            },
            (SupervisorPhase::Writing, SupervisorEvent::Written { result }) => {
                actions = self.go_on_writing(result);
            },
            (SupervisorPhase::Connected, SupervisorEvent::LineRead { line, report }) => {
                let now = current_time();
                proof {
                    time = now;
                }
                actions = self.line_at(line, report, now);
            },
            (SupervisorPhase::Connected, SupervisorEvent::InboundClosed) => {
                actions = self.disconnect();
            },
            (SupervisorPhase::Connected, SupervisorEvent::OutputEnded) => {
                actions = self.disconnect();
            },
            (SupervisorPhase::Disconnected, SupervisorEvent::ShutdownPolled { requested }) => {
                if requested {
                    self.phase = SupervisorPhase::Stopped;
                    actions.push(SupervisorAction::Stop);
                } else {
                    let seconds = self.take_backoff();
                    self.phase = SupervisorPhase::Polling;
                    actions.push(SupervisorAction::Sleep { seconds });
                }
            },
            _ => {},
        }
        proof {
            let (after, expected) = step_outcome(before, happening, time, name);
            assert(self@ =~= after);
            assert(action_models(actions@) =~= expected);
        }
        actions
    }
}

/// There are texts of the form of a UUID.
proof fn lemma_uuid_text_exists()
    ensures
        exists|id: Seq<char>| is_uuid_text(id),
{
    let id = Seq::new(
        36,
        |i: int|
            if i == 8 || i == 13 || i == 18 || i == 23 {
                '-'
            } else if i == 14 {
                '4'
            } else if i == 19 {
                '8'
            } else {
                '0'
            },
    );
    assert(is_uuid_text(id));
}

} // verus!
