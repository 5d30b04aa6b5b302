//! What the supervisor does about each thing that happens, in terms of what happened.

use crate::clock::Timestamp;
use crate::command::{
    command_name, is_uuid_text, EnvelopeModel, SidecarCommandEnvelope, SidecarCommandKind,
};
use crate::inbound::converted;
use crate::inbound_laws::{
    law_content_is_what_was_reported, law_message_is_what_was_reported, law_who_is_heard,
};
use crate::json::JsonModel;
use crate::json_reading::{law_command_line_reads_back, read_value, value_tree, JsonTree};
use crate::message::MessageContent;
use crate::sidecar::{SidecarEvent, SidecarEventModel, SidecarInboundPayload};
use crate::string_map::{
    distinct_keys, entries_map, lemma_entries_map_dom, lemma_without_absent_key, without_key,
};
use crate::supervisor::{
    action_models, line_outcome, step_outcome, steps, LogEntry, LogLevel, SupervisorAction,
    SupervisorEvent, SupervisorModel, SupervisorPhase, WriteModel, WriteStage,
    COMMAND_TIMEOUT_SECS, INITIAL_RECONNECT_BACKOFF_SECS, MAX_RECONNECT_BACKOFF_SECS,
};
use crate::supervisor_laws::expects;
use crate::text_laws::{has_ink, law_blank_texts_have_no_ink};
use vstd::prelude::*;

verus! {

/// Whether an event may lead from one state to the next with the given actions.
pub open spec fn leads_to(
    before: SupervisorModel,
    event: SupervisorEvent,
    after: SupervisorModel,
    actions: Seq<SupervisorAction>,
) -> bool {
    steps(before, event@, after, action_models(actions))
}

/// The models of actions are those of each of them, in order.
proof fn lemma_action_models(actions: Seq<SupervisorAction>)
    ensures
        action_models(actions).len() == actions.len(),
        forall|i: int| 0 <= i < actions.len() ==> #[trigger] action_models(actions)[i]
            == actions[i]@,
{
}

/// A caller gives up on a command after 20 seconds. Waits between two starts last from 2 to 30
/// seconds.
pub proof fn law_time_limits()
    ensures
        COMMAND_TIMEOUT_SECS == 20,
        INITIAL_RECONNECT_BACKOFF_SECS == 2,
        MAX_RECONNECT_BACKOFF_SECS == 30,
{
}

/// An event that does not belong to the phase changes nothing and leads to nothing.
pub proof fn law_other_events_are_ignored(
    before: SupervisorModel,
    event: SupervisorEvent,
    after: SupervisorModel,
    actions: Seq<SupervisorAction>,
)
    requires
        leads_to(before, event, after, actions),
        !expects(before.phase, event@),
    ensures
        after == before,
        actions.len() == 0,
{
    lemma_action_models(actions);
}

/// Whether a sender is let through: the list names nobody, or names the sender.
pub open spec fn is_listed(dm_allow_list: Seq<Seq<char>>, sender: Seq<char>) -> bool {
    dm_allow_list.len() == 0 || exists|i: int|
        0 <= i < dm_allow_list.len() && #[trigger] dm_allow_list[i] == sender
}

/// A message from a listed sender in a space is delivered to the bot, and that is all: with its id,
/// its sender, its conversation and what it says, whatever else the sidecar reported of it.
pub proof fn law_message_is_delivered(
    before: SupervisorModel,
    line: String,
    payload: SidecarInboundPayload,
    after: SupervisorModel,
    actions: Seq<SupervisorAction>,
)
    requires
        before.phase == SupervisorPhase::Connected,
        has_ink(line@),
        has_ink(payload.space_id@),
        has_ink(payload.sender_id@),
        is_listed(before.dm_allow_list, payload.sender_id@),
        leads_to(
            before,
            SupervisorEvent::LineRead { line, report: Ok(SidecarEvent::Inbound { payload }) },
            after,
            actions,
        ),
    ensures
        after == before,
        actions.len() == 1,
        actions[0] matches SupervisorAction::Deliver(message) && {
            &&& message.id@ == payload.message_id@
            &&& message.sender_id@ == payload.sender_id@
            &&& message.conversation_id@ == before.runtime_key + ":"@ + payload.space_id@
            &&& payload.attachments@.len() == 0 ==> (message.content matches MessageContent::Text(
                text,
            ) && text@ == payload.text@)
            &&& exists|now: Timestamp|
                message@ == #[trigger] converted(before.runtime_key, payload@, now)
        },
{
    law_blank_texts_have_no_ink(line@);
    law_blank_texts_have_no_ink(payload.space_id@);
    law_blank_texts_have_no_ink(payload.sender_id@);
    law_who_is_heard(before.dm_allow_list, payload);
    lemma_action_models(actions);
    let event = SupervisorEvent::LineRead { line, report: Ok(SidecarEvent::Inbound { payload }) };
    let (now, id): (Timestamp, Seq<char>) = choose|now: Timestamp, id: Seq<char>|
        (after, action_models(actions)) == #[trigger] step_outcome(before, event@, now, id);
    assert(action_models(actions)[0] == actions[0]@);
    if let SupervisorAction::Deliver(message) = actions[0] {
        assert(message@ == converted(before.runtime_key, payload@, now));
        law_message_is_what_was_reported(before.runtime_key, payload, now, message);
        law_content_is_what_was_reported(before.runtime_key, payload, now, message);
    }
}

/// A message without a space or a sender is passed over; one from a sender who is not listed leads
/// to an entry in the log that names the sender, and to nothing else.
pub proof fn law_message_is_dropped(
    before: SupervisorModel,
    line: String,
    payload: SidecarInboundPayload,
    after: SupervisorModel,
    actions: Seq<SupervisorAction>,
)
    requires
        before.phase == SupervisorPhase::Connected,
        has_ink(line@),
        leads_to(
            before,
            SupervisorEvent::LineRead { line, report: Ok(SidecarEvent::Inbound { payload }) },
            after,
            actions,
        ),
    ensures
        after == before,
        !has_ink(payload.space_id@) || !has_ink(payload.sender_id@) ==> actions.len() == 0,
        has_ink(payload.space_id@) && has_ink(payload.sender_id@) && !is_listed(
            before.dm_allow_list,
            payload.sender_id@,
        ) ==> actions.len() == 1 && (actions[0] matches SupervisorAction::Log { level, entry }
            && level == LogLevel::Debug && (entry matches LogEntry::SenderNotListed { sender_id }
            && sender_id@ == payload.sender_id@)),
{
    law_blank_texts_have_no_ink(line@);
    law_blank_texts_have_no_ink(payload.space_id@);
    law_blank_texts_have_no_ink(payload.sender_id@);
    law_who_is_heard(before.dm_allow_list, payload);
    lemma_action_models(actions);
    if actions.len() > 0 {
        assert(action_models(actions)[0] == actions[0]@);
    }
}

/// Where a key stands among distinct ones, the map has its value, and dropping it takes out that
/// entry.
proof fn lemma_entry_at(entries: Seq<(Seq<char>, u64)>, i: int)
    requires
        distinct_keys(entries),
        0 <= i < entries.len(),
    ensures
        entries_map(entries).contains_key(entries[i].0),
        entries_map(entries)[entries[i].0] == entries[i].1,
        without_key(entries, entries[i].0) == entries.remove(i),
    decreases entries.len(),
{
    let shorter = entries.drop_last();
    let key = entries[i].0;
    if i == entries.len() - 1 {
        lemma_entries_map_dom(shorter, key);
        if entries_map(shorter).dom().contains(key) {
            let j = choose|j: int| 0 <= j < shorter.len() && (#[trigger] shorter[j]).0 == key;
            assert(entries[j].0 == entries[i].0);
        }
        lemma_without_absent_key(shorter, key);
        assert(entries.remove(i) =~= shorter);
    } else {
        assert(entries[i].0 != entries[entries.len() - 1].0);
        assert(shorter[i] == entries[i]);
        lemma_entry_at(shorter, i);
        assert(entries.remove(i) =~= shorter.remove(i).push(entries.last()));
    }
}

/// A key that no entry has is not in the map.
proof fn lemma_no_entry(entries: Seq<(Seq<char>, u64)>, key: Seq<char>)
    requires
        forall|i: int| 0 <= i < entries.len() ==> (#[trigger] entries[i]).0 != key,
    ensures
        !entries_map(entries).contains_key(key),
        without_key(entries, key) == entries,
{
    lemma_entries_map_dom(entries, key);
    lemma_without_absent_key(entries, key);
}

/// A response answers the command that it names, and no other: with success if it says so, and else
/// with the error that it gives, or the word that the error is unknown. The command is then no longer
/// pending; all others still are.
pub proof fn law_response_answers_its_command(
    before: SupervisorModel,
    line: String,
    id: String,
    ok: bool,
    error: Option<String>,
    after: SupervisorModel,
    actions: Seq<SupervisorAction>,
    i: int,
)
    requires
        before.phase == SupervisorPhase::Connected,
        distinct_keys(before.pending),
        has_ink(line@),
        0 <= i < before.pending.len(),
        before.pending[i].0 == id@,
        leads_to(
            before,
            SupervisorEvent::LineRead {
                line,
                report: Ok(SidecarEvent::Response { id, ok, error }),
            },
            after,
            actions,
        ),
    ensures
        after == (SupervisorModel { pending: before.pending.remove(i), ..before }),
        actions.len() == 1,
        actions[0] matches SupervisorAction::Reply { slot, outcome } && {
            &&& slot == before.pending[i].1
            &&& ok <==> outcome is Ok
            &&& outcome matches Err(reason) ==> match error {
                Some(text) => reason@ == text@,
                None => reason@ == "unknown photon sidecar error"@,
            }
        },
{
    law_blank_texts_have_no_ink(line@);
    lemma_action_models(actions);
    lemma_entry_at(before.pending, i);
    assert(action_models(actions)[0] == actions[0]@);
}

/// A response to a command that is not pending changes nothing and leads to nothing.
pub proof fn law_unknown_response_is_passed_over(
    before: SupervisorModel,
    line: String,
    id: String,
    ok: bool,
    error: Option<String>,
    after: SupervisorModel,
    actions: Seq<SupervisorAction>,
)
    requires
        forall|i: int| 0 <= i < before.pending.len() ==> (#[trigger] before.pending[i]).0 != id@,
        leads_to(
            before,
            SupervisorEvent::LineRead {
                line,
                report: Ok(SidecarEvent::Response { id, ok, error }),
            },
            after,
            actions,
        ),
    ensures
        after == before,
        actions.len() == 0,
{
    lemma_action_models(actions);
    lemma_no_entry(before.pending, id@);
}

/// What a line leads to depends on the key of the adapter, on the list and on the pending commands,
/// and on nothing else about the supervisor.
pub proof fn law_what_a_line_depends_on(
    a: SupervisorModel,
    b: SupervisorModel,
    line: String,
    report: Result<SidecarEventModel, Seq<char>>,
    now: Timestamp,
)
    requires
        a.runtime_key == b.runtime_key,
        a.dm_allow_list == b.dm_allow_list,
        a.pending == b.pending,
    ensures
        line_outcome(a, line@, report, now) == line_outcome(b, line@, report, now),
{
}

/// A report that the sidecar is ready is put into the log with the key that the sidecar names; so is
/// what the sidecar wants there, as an error or a warning if it calls it so; and so is, as a warning,
/// a line that holds no report, with the reason why. A blank line leads to nothing.
pub proof fn law_lines_for_the_log(
    before: SupervisorModel,
    line: String,
    report: Result<SidecarEvent, String>,
    after: SupervisorModel,
    actions: Seq<SupervisorAction>,
)
    requires
        before.phase == SupervisorPhase::Connected,
        leads_to(before, SupervisorEvent::LineRead { line, report }, after, actions),
    ensures
        !has_ink(line@) ==> after == before && actions.len() == 0,
        has_ink(line@) ==> match report {
            Ok(SidecarEvent::Ready { adapter_key }) => {
                &&& after == before
                &&& actions.len() == 1
                &&& actions[0] matches SupervisorAction::Log { level, entry }
                &&& level == LogLevel::Info
                &&& entry matches LogEntry::Ready { adapter_key: named }
                &&& match adapter_key {
                    Some(key) => named matches Some(same) && same@ == key@,
                    None => named is None,
                }
            },
            Ok(SidecarEvent::Log { level: importance, message }) => {
                &&& after == before
                &&& actions.len() == 1
                &&& actions[0] matches SupervisorAction::Log { level, entry }
                &&& entry matches LogEntry::SidecarLog { message: said }
                &&& said@ == message@
                &&& level == LogLevel::Error <==> (importance is Some && importance->0@
                    == "error"@)
                &&& level == LogLevel::Warn <==> (importance is Some && importance->0@ == "warn"@)
                &&& level != LogLevel::Info
            },
            Err(error) => {
                &&& after == before
                &&& actions.len() == 1
                &&& actions[0] matches SupervisorAction::Log { level, entry }
                &&& level == LogLevel::Warn
                &&& entry matches LogEntry::UnreadableLine { line: said, error: reason }
                &&& said@ == line@
                &&& reason@ == error@
            },
            _ => true,
        },
{
    law_blank_texts_have_no_ink(line@);
    lemma_action_models(actions);
    reveal_strlit("error");
    reveal_strlit("warn");
    assert("error"@.len() == 5 && "warn"@.len() == 4);
    if actions.len() > 0 {
        assert(action_models(actions)[0] == actions[0]@);
    }
}

/// Whether the actions from the one at `from` on, as many as there are pending commands, tell the
/// callers of these, each in its turn, that the command failed for `reason`.
pub open spec fn all_are_told(
    pending: Seq<(Seq<char>, u64)>,
    actions: Seq<SupervisorAction>,
    from: int,
    reason: Seq<char>,
) -> bool {
    forall|i: int|
        0 <= i < pending.len() ==> ({
            &&& #[trigger] actions[from + i] matches SupervisorAction::Reply { slot, outcome }
            &&& slot == pending[i].1
            &&& outcome matches Err(text)
            &&& text@ == reason
        })
}

/// When the sidecar's output ends, or nobody takes messages any more, all callers are told, and the
/// supervisor goes on to start the sidecar again.
pub proof fn law_lost_sidecar(
    before: SupervisorModel,
    event: SupervisorEvent,
    after: SupervisorModel,
    actions: Seq<SupervisorAction>,
)
    requires
        before.phase == SupervisorPhase::Connected,
        event is OutputEnded || event is InboundClosed,
        leads_to(before, event, after, actions),
    ensures
        after == (SupervisorModel {
            phase: SupervisorPhase::Disconnected,
            pending: Seq::empty(),
            ..before
        }),
        actions.len() == before.pending.len(),
        all_are_told(
            before.pending,
            actions,
            0,
            "photon sidecar disconnected before responding"@,
        ),
{
    lemma_action_models(actions);
    assert forall|i: int| 0 <= i < before.pending.len() implies ({
        &&& #[trigger] actions[0 + i] matches SupervisorAction::Reply { slot, outcome }
        &&& slot == before.pending[i].1
        &&& outcome matches Err(text)
        &&& text@ == "photon sidecar disconnected before responding"@
    }) by {
        assert(action_models(actions)[i] == actions[0 + i]@);
    }
}

/// When there will be no more commands, the sidecar is killed, all callers are told, and the
/// supervisor stops.
pub proof fn law_closed_commands(
    before: SupervisorModel,
    after: SupervisorModel,
    actions: Seq<SupervisorAction>,
)
    requires
        before.phase == SupervisorPhase::Connected,
        leads_to(before, SupervisorEvent::CommandsClosed, after, actions),
    ensures
        after == (SupervisorModel {
            phase: SupervisorPhase::Stopped,
            pending: Seq::empty(),
            ..before
        }),
        actions.len() == before.pending.len() + 2,
        actions[0] is Kill,
        all_are_told(before.pending, actions, 1, "photon command channel closed"@),
        actions.last() is Stop,
{
    lemma_action_models(actions);
    let models = action_models(actions);
    assert(models[0] == actions[0]@);
    assert(models[actions.len() - 1] == actions[actions.len() - 1]@);
    assert forall|i: int| 0 <= i < before.pending.len() implies ({
        &&& #[trigger] actions[1 + i] matches SupervisorAction::Reply { slot, outcome }
        &&& slot == before.pending[i].1
        &&& outcome matches Err(text)
        &&& text@ == "photon command channel closed"@
    }) by {
        assert(models[1 + i] == actions[1 + i]@);
    }
}

/// When a shutdown is asked for, the sidecar is told in a line of its own under a fresh id, and is
/// killed; all callers are told, and the supervisor stops.
pub proof fn law_shutdown_of_sidecar(
    before: SupervisorModel,
    after: SupervisorModel,
    actions: Seq<SupervisorAction>,
)
    requires
        before.phase == SupervisorPhase::Connected,
        leads_to(before, SupervisorEvent::ShutdownRequested, after, actions),
    ensures
        after == (SupervisorModel {
            phase: SupervisorPhase::Stopped,
            pending: Seq::empty(),
            ..before
        }),
        actions.len() == before.pending.len() + 5,
        actions[0] matches SupervisorAction::Write(line) && exists|id: Seq<char>| #[trigger]
            is_uuid_text(id) && read_value(line@) == Some(
                (
                    JsonTree::Object(
                        seq![
                            ("id"@, JsonTree::Text(id)),
                            ("command"@, JsonTree::Text("shutdown"@)),
                            ("payload"@, JsonTree::Null),
                        ],
                    ),
                    Seq::<char>::empty(),
                ),
            ),
        actions[1] matches SupervisorAction::Write(text) && text@ == "\n"@,
        actions[2] is Flush,
        actions[3] is Kill,
        all_are_told(before.pending, actions, 4, "photon sidecar shutting down"@),
        actions.last() is Stop,
{
    lemma_action_models(actions);
    let models = action_models(actions);
    let (now, id): (Timestamp, Seq<char>) = choose|now: Timestamp, id: Seq<char>|
        {
            &&& is_uuid_text(id)
            &&& (after, models) == #[trigger] step_outcome(
                before,
                SupervisorEvent::ShutdownRequested@,
                now,
                id,
            )
        };
    law_command_line_reads_back(
        EnvelopeModel {
            id,
            command: SidecarCommandKind::Shutdown,
            payload: JsonModel::Null,
        },
    );
    assert(models[0] == actions[0]@);
    assert(models[1] == actions[1]@);
    assert(models[2] == actions[2]@);
    assert(models[3] == actions[3]@);
    assert(models[actions.len() - 1] == actions[actions.len() - 1]@);
    assert forall|i: int| 0 <= i < before.pending.len() implies ({
        &&& #[trigger] actions[4 + i] matches SupervisorAction::Reply { slot, outcome }
        &&& slot == before.pending[i].1
        &&& outcome matches Err(text)
        &&& text@ == "photon sidecar shutting down"@
    }) by {
        assert(models[4 + i] == actions[4 + i]@);
    }
}

/// Before every start it is looked up whether a shutdown was asked for: then the supervisor stops,
/// and else starts the sidecar.
pub proof fn law_start(
    before: SupervisorModel,
    requested: bool,
    after: SupervisorModel,
    actions: Seq<SupervisorAction>,
)
    requires
        before.phase == SupervisorPhase::Polling,
        leads_to(before, SupervisorEvent::ShutdownPolled { requested }, after, actions),
    ensures
        actions.len() == 1,
        requested ==> actions[0] is Stop && after == (SupervisorModel {
            phase: SupervisorPhase::Stopped,
            ..before
        }),
        !requested ==> actions[0] is Launch && after == (SupervisorModel {
            phase: SupervisorPhase::Spawning,
            ..before
        }),
{
    lemma_action_models(actions);
    assert(action_models(actions)[0] == actions[0]@);
}

/// After the sidecar is lost it is looked up whether a shutdown was asked for: then the supervisor
/// stops, and else waits before the next start; the wait after that is twice as long, up to 30
/// seconds.
pub proof fn law_restart(
    before: SupervisorModel,
    requested: bool,
    after: SupervisorModel,
    actions: Seq<SupervisorAction>,
)
    requires
        before.phase == SupervisorPhase::Disconnected,
        leads_to(before, SupervisorEvent::ShutdownPolled { requested }, after, actions),
    ensures
        actions.len() == 1,
        requested ==> actions[0] is Stop && after == (SupervisorModel {
            phase: SupervisorPhase::Stopped,
            ..before
        }),
        !requested ==> (actions[0] matches SupervisorAction::Sleep { seconds } && seconds
            == before.reconnect_backoff) && after == (SupervisorModel {
            phase: SupervisorPhase::Polling,
            reconnect_backoff: after.reconnect_backoff,
            ..before
        }) && after.reconnect_backoff == if before.reconnect_backoff < 15 {
            2 * before.reconnect_backoff
        } else {
            30
        },
{
    lemma_action_models(actions);
    assert(action_models(actions)[0] == actions[0]@);
}

/// A sidecar with all its streams is connected, and the waits start over. Without one of them it is
/// killed, and started again after the first wait. A start that failed is tried again after a wait.
pub proof fn law_outcome_of_start(
    before: SupervisorModel,
    stdin: bool,
    stdout: bool,
    stderr: bool,
    after: SupervisorModel,
    actions: Seq<SupervisorAction>,
    failed: SupervisorModel,
    waits: Seq<SupervisorAction>,
)
    requires
        before.phase == SupervisorPhase::Spawning,
        leads_to(before, SupervisorEvent::Spawned { stdin, stdout, stderr }, after, actions),
        leads_to(before, SupervisorEvent::SpawnFailed, failed, waits),
    ensures
        stdin && stdout && stderr ==> actions.len() == 0 && after == (SupervisorModel {
            phase: SupervisorPhase::Connected,
            reconnect_backoff: 2,
            ..before
        }),
        !stdin || !stdout || !stderr ==> actions.len() == 2 && actions[0] is Kill && (
        actions[1] matches SupervisorAction::Sleep { seconds } && seconds == 2) && after == (
        SupervisorModel { phase: SupervisorPhase::Polling, reconnect_backoff: 2, ..before }),
        waits.len() == 1,
        waits[0] matches SupervisorAction::Sleep { seconds } && seconds
            == before.reconnect_backoff,
        failed == (SupervisorModel {
            phase: SupervisorPhase::Polling,
            reconnect_backoff: failed.reconnect_backoff,
            ..before
        }),
        failed.reconnect_backoff == if before.reconnect_backoff < 15 {
            2 * before.reconnect_backoff
        } else {
            30
        },
{
    lemma_action_models(actions);
    lemma_action_models(waits);
    assert(action_models(waits)[0] == waits[0]@);
    if actions.len() > 0 {
        assert(action_models(actions)[0] == actions[0]@);
    }
    if actions.len() > 1 {
        assert(action_models(actions)[1] == actions[1]@);
    }
}

/// A command that comes in is written as a line that says its id, its kind and its payload; until
/// that is done nothing else changes.
pub proof fn law_command_is_taken(
    before: SupervisorModel,
    envelope: SidecarCommandEnvelope,
    slot: u64,
    after: SupervisorModel,
    actions: Seq<SupervisorAction>,
)
    requires
        before.phase == SupervisorPhase::Connected,
        leads_to(before, SupervisorEvent::CommandReceived { envelope, slot }, after, actions),
    ensures
        after == (SupervisorModel {
            phase: SupervisorPhase::Writing,
            writing: Some(WriteModel { id: envelope.id@, slot, stage: WriteStage::Line }),
            ..before
        }),
        actions.len() == 1,
        actions[0] matches SupervisorAction::Write(line) && read_value(line@) == Some(
            (
                JsonTree::Object(
                    seq![
                        ("id"@, JsonTree::Text(envelope.id@)),
                        ("command"@, JsonTree::Text(command_name(envelope.command))),
                        ("payload"@, value_tree(envelope.payload@)),
                    ],
                ),
                Seq::<char>::empty(),
            ),
        ),
{
    lemma_action_models(actions);
    law_command_line_reads_back(envelope@);
    assert(action_models(actions)[0] == actions[0]@);
}

/// A written line is followed by one line feed, and that by a flush; then the command waits for its
/// answer behind all others, and the next thing can happen. If another command with its id was
/// waiting, that one's caller is given up.
pub proof fn law_writing_goes_on(
    before: SupervisorModel,
    write: WriteModel,
    after: SupervisorModel,
    actions: Seq<SupervisorAction>,
    i: int,
)
    requires
        before.phase == SupervisorPhase::Writing,
        before.writing == Some(write),
        distinct_keys(before.pending),
        leads_to(before, SupervisorEvent::Written { result: Ok(()) }, after, actions),
    ensures
        write.stage == WriteStage::Line ==> {
            &&& actions.len() == 1
            &&& actions[0] matches SupervisorAction::Write(text)
            &&& text@ == "\n"@
            &&& after == (SupervisorModel {
                writing: Some(WriteModel { stage: WriteStage::Newline, ..write }),
                ..before
            })
        },
        write.stage == WriteStage::Newline ==> {
            &&& actions.len() == 1
            &&& actions[0] is Flush
            &&& after == (SupervisorModel {
                writing: Some(WriteModel { stage: WriteStage::Flush, ..write }),
                ..before
            })
        },
        write.stage == WriteStage::Flush && (forall|j: int|
            0 <= j < before.pending.len() ==> (#[trigger] before.pending[j]).0 != write.id) ==> {
            &&& actions.len() == 0
            &&& after == (SupervisorModel {
                phase: SupervisorPhase::Connected,
                writing: None,
                pending: before.pending.push((write.id, write.slot)),
                ..before
            })
        },
        write.stage == WriteStage::Flush && 0 <= i < before.pending.len() && before.pending[i].0
            == write.id ==> {
            &&& actions.len() == 1
            &&& actions[0] matches SupervisorAction::Abandon { slot }
            &&& slot == before.pending[i].1
            &&& after == (SupervisorModel {
                phase: SupervisorPhase::Connected,
                writing: None,
                pending: before.pending.remove(i).push((write.id, write.slot)),
                ..before
            })
        },
{
    lemma_action_models(actions);
    if actions.len() > 0 {
        assert(action_models(actions)[0] == actions[0]@);
    }
    if forall|j: int|
        0 <= j < before.pending.len() ==> (#[trigger] before.pending[j]).0 != write.id {
        lemma_no_entry(before.pending, write.id);
    }
    if 0 <= i < before.pending.len() && before.pending[i].0 == write.id {
        lemma_entry_at(before.pending, i);
    }
}

/// What could not be written is answered to the caller of the command, with the part that failed
/// and the reason; the command is given up, and nothing else changes.
pub proof fn law_writing_fails(
    before: SupervisorModel,
    write: WriteModel,
    error: String,
    after: SupervisorModel,
    actions: Seq<SupervisorAction>,
)
    requires
        before.phase == SupervisorPhase::Writing,
        before.writing == Some(write),
        leads_to(before, SupervisorEvent::Written { result: Err(error) }, after, actions),
    ensures
        after == (SupervisorModel {
            phase: SupervisorPhase::Connected,
            writing: None,
            ..before
        }),
        actions.len() == 1,
        actions[0] matches SupervisorAction::Reply { slot, outcome } && {
            &&& slot == write.slot
            &&& outcome matches Err(reason)
            &&& write.stage == WriteStage::Line ==> reason@
                == "failed writing command to photon sidecar: "@ + error@
            &&& write.stage == WriteStage::Newline ==> reason@
                == "failed writing command newline to photon sidecar: "@ + error@
            &&& write.stage == WriteStage::Flush ==> reason@
                == "failed flushing command to photon sidecar: "@ + error@
        },
{
    lemma_action_models(actions);
    assert(action_models(actions)[0] == actions[0]@);
}

} // verus!
