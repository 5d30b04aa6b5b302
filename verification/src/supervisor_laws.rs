//! What holds of the supervisor in every state it can come to.

use crate::clock::Timestamp;
use crate::command::{command_line, EnvelopeModel};
use crate::sidecar::{PayloadModel, SidecarEventModel};
use crate::string_map::{
    distinct_keys, entries_map, lemma_entries_map_dom, lemma_without_absent_key,
    lemma_without_key_distinct, lemma_without_key_map, lemma_without_key_members, without_key,
};
use crate::supervisor::{
    next_backoff, refusals, shutdown_opening, step_outcome, steps, write_refusal, ActionModel,
    EventModel, SupervisorModel, SupervisorPhase, WriteStage, INITIAL_RECONNECT_BACKOFF_SECS,
    MAX_RECONNECT_BACKOFF_SECS,
};
use crate::text::is_blank_text;
use vstd::multiset::Multiset;
use vstd::prelude::*;

verus! {

/// Whether the sidecar is running in a phase.
pub open spec fn is_up(phase: SupervisorPhase) -> bool {
    phase == SupervisorPhase::Connected || phase == SupervisorPhase::Writing
}

/// What every state of a supervisor has in common: no id is pending twice, commands are pending
/// only while the sidecar is running, a command is being written exactly in the phase for that,
/// and the wait is within its bounds.
pub open spec fn is_sound(state: SupervisorModel) -> bool {
    &&& distinct_keys(state.pending)
    &&& !is_up(state.phase) ==> state.pending.len() == 0
    &&& state.phase == SupervisorPhase::Writing <==> state.writing is Some
    &&& INITIAL_RECONNECT_BACKOFF_SECS <= state.reconnect_backoff <= MAX_RECONNECT_BACKOFF_SECS
}

/// Whether an event belongs to a phase.
pub open spec fn expects(phase: SupervisorPhase, event: EventModel) -> bool {
    match phase {
        SupervisorPhase::Polling => event is ShutdownPolled,
        SupervisorPhase::Spawning => event is SpawnFailed || event is Spawned,
        SupervisorPhase::Connected => !(event is ShutdownPolled) && !(event is SpawnFailed) && !(
        event is Spawned) && !(event is Written),
        SupervisorPhase::Writing => event is Written,
        SupervisorPhase::Disconnected => event is ShutdownPolled,
        SupervisorPhase::Stopped => false,
    }
}

/// A supervisor that has not started its sidecar yet is sound.
pub proof fn law_new_supervisor_is_sound(state: SupervisorModel)
    requires
        state.phase == SupervisorPhase::Polling,
        state.reconnect_backoff == INITIAL_RECONNECT_BACKOFF_SECS,
        state.pending.len() == 0,
        state.writing is None,
    ensures
        is_sound(state),
{
}

/// Every event leads from a sound state to a sound state.
pub proof fn law_steps_keep_soundness(
    before: SupervisorModel,
    event: EventModel,
    after: SupervisorModel,
    actions: Seq<ActionModel>,
)
    requires
        is_sound(before),
        steps(before, event, after, actions),
    ensures
        is_sound(after),
{
    let (now, id): (Timestamp, Seq<char>) = choose|now: Timestamp, id: Seq<char>|
        (after, actions) == #[trigger] step_outcome(before, event, now, id);
    match event {
        EventModel::Written { result } => {
            if before.writing is Some {
                let (command, slot) = (before.writing->0.id, before.writing->0.slot);
                lemma_without_key_distinct(before.pending, command);
                lemma_without_key_members(before.pending, command);
                assert(distinct_keys(without_key(before.pending, command).push((command, slot))));
            }
        },
        EventModel::LineRead {
            line,
            report: Ok(SidecarEventModel::Response { id: command, ok, error }),
        } => {
            lemma_without_key_distinct(before.pending, command);
        },
        _ => {},
    }
}

/// The supervisor never waits for less than the first wait, nor for more than the longest.
pub proof fn law_waits_are_bounded(
    before: SupervisorModel,
    event: EventModel,
    after: SupervisorModel,
    actions: Seq<ActionModel>,
    i: int,
)
    requires
        is_sound(before),
        steps(before, event, after, actions),
        0 <= i < actions.len(),
    ensures
        actions[i] matches ActionModel::Sleep { seconds } ==> INITIAL_RECONNECT_BACKOFF_SECS
            <= seconds <= MAX_RECONNECT_BACKOFF_SECS,
{
    let (now, id): (Timestamp, Seq<char>) = choose|now: Timestamp, id: Seq<char>|
        (after, actions) == #[trigger] step_outcome(before, event, now, id);
}

/// The slots of the pending commands.
pub open spec fn slots(pending: Seq<(Seq<char>, u64)>) -> Multiset<u64>
    decreases pending.len(),
{
    if pending.len() == 0 {
        Multiset::empty()
    } else {
        slots(pending.drop_last()).insert(pending.last().1)
    }
}

/// The slots at which callers wait: those of the pending commands, and that of the command that is
/// being written.
pub open spec fn waiting(state: SupervisorModel) -> Multiset<u64> {
    match state.writing {
        Some(write) => slots(state.pending).insert(write.slot),
        None => slots(state.pending),
    }
}

/// The slots that are done with: those that are answered, and those that are given up.
pub open spec fn settled(actions: Seq<ActionModel>) -> Multiset<u64>
    decreases actions.len(),
{
    if actions.len() == 0 {
        Multiset::empty()
    } else {
        let earlier = settled(actions.drop_last());
        match actions.last() {
            ActionModel::Reply { slot, outcome } => earlier.insert(slot),
            ActionModel::Abandon { slot } => earlier.insert(slot),
            _ => earlier,
        }
    }
}

/// The slot that an event brings in.
pub open spec fn brought_in(event: EventModel) -> Multiset<u64> {
    match event {
        EventModel::CommandReceived { envelope, slot } => Multiset::singleton(slot),
        _ => Multiset::empty(),
    }
}

/// Answers come one after the other.
proof fn lemma_settled_concat(a: Seq<ActionModel>, b: Seq<ActionModel>)
    ensures
        settled(a + b) == settled(a).add(settled(b)),
    decreases b.len(),
{
    if b.len() == 0 {
        assert(a + b =~= a);
        assert(settled(a).add(Multiset::empty()) =~= settled(a));
    } else {
        lemma_settled_concat(a, b.drop_last());
        assert((a + b).drop_last() =~= a + b.drop_last());
        assert((a + b).last() == b.last());
        match b.last() {
            ActionModel::Reply { slot, outcome } => {
                assert(settled(a).add(settled(b.drop_last())).insert(slot) =~= settled(a).add(
                    settled(b.drop_last()).insert(slot),
                ));
            },
            ActionModel::Abandon { slot } => {
                assert(settled(a).add(settled(b.drop_last())).insert(slot) =~= settled(a).add(
                    settled(b.drop_last()).insert(slot),
                ));
            },
            _ => {},
        }
    }
}

/// Giving up the pending commands answers each of them once.
proof fn lemma_settled_refusals(pending: Seq<(Seq<char>, u64)>, reason: Seq<char>)
    ensures
        settled(refusals(pending, reason)) == slots(pending),
    decreases pending.len(),
{
    if pending.len() > 0 {
        lemma_settled_refusals(pending.drop_last(), reason);
        assert(refusals(pending, reason).drop_last() =~= refusals(pending.drop_last(), reason));
    }
}

/// Taking out a pending command takes out its slot.
proof fn lemma_slots_without_key(pending: Seq<(Seq<char>, u64)>, id: Seq<char>)
    requires
        distinct_keys(pending),
        entries_map(pending).contains_key(id),
    ensures
        slots(pending) == slots(without_key(pending, id)).insert(entries_map(pending)[id]),
    decreases pending.len(),
{
    let shorter = pending.drop_last();
    let last = pending.last();
    if last.0 == id {
        assert(!entries_map(shorter).contains_key(id)) by {
            lemma_entries_map_dom(shorter, id);
            if entries_map(shorter).contains_key(id) {
                let i = choose|i: int| 0 <= i < shorter.len() && (#[trigger] shorter[i]).0 == id;
                assert(pending[i].0 == id);
                assert(pending[pending.len() - 1].0 == id);
            }
        }
        lemma_without_absent_key(shorter, id);
    } else {
        lemma_slots_without_key(shorter, id);
        let kept = without_key(shorter, id);
        assert(kept.push(last).drop_last() =~= kept);
        let slot = entries_map(pending)[id];
        assert(slots(kept).insert(slot).insert(last.1) =~= slots(kept).insert(last.1).insert(slot));
    }
}

/// No caller is forgotten and none is done with twice: the callers that waited before an event,
/// and the one that it brings in, are those that still wait and those that are done with.
pub proof fn law_every_caller_is_settled_once(
    before: SupervisorModel,
    event: EventModel,
    after: SupervisorModel,
    actions: Seq<ActionModel>,
)
    requires
        is_sound(before),
        expects(before.phase, event),
        steps(before, event, after, actions),
    ensures
        waiting(before).add(brought_in(event)) == waiting(after).add(settled(actions)),
{
    let (now, id): (Timestamp, Seq<char>) = choose|now: Timestamp, id: Seq<char>|
        (after, actions) == #[trigger] step_outcome(before, event, now, id);
    reveal_with_fuel(settled, 5);
    let pending = slots(before.pending);
    let nobody = Multiset::<u64>::empty();
    assert(slots(Seq::empty()) == nobody);
    assert(pending.add(nobody) =~= pending);
    assert(nobody.add(pending) =~= pending);
    match event {
        EventModel::ShutdownRequested => {
            let refused = refusals(before.pending, "photon sidecar shutting down"@);
            let opening = shutdown_opening(id);
            lemma_settled_refusals(before.pending, "photon sidecar shutting down"@);
            assert(refused.push(ActionModel::Stop).drop_last() =~= refused);
            assert(opening.drop_last().drop_last().drop_last().drop_last() =~= Seq::empty());
            assert(settled(opening) == nobody);
            assert(actions =~= opening + refused.push(ActionModel::Stop));
            lemma_settled_concat(opening, refused.push(ActionModel::Stop));
        },
        EventModel::CommandsClosed => {
            let refused = refusals(before.pending, "photon command channel closed"@);
            let opening = actions.take(1);
            lemma_settled_refusals(before.pending, "photon command channel closed"@);
            assert(refused.push(ActionModel::Stop).drop_last() =~= refused);
            assert(opening.drop_last() =~= Seq::empty());
            assert(settled(opening) == nobody);
            assert(actions =~= opening + refused.push(ActionModel::Stop));
            lemma_settled_concat(opening, refused.push(ActionModel::Stop));
        },
        EventModel::CommandReceived { envelope, slot } => {
            assert(pending.add(Multiset::singleton(slot)) =~= pending.insert(slot));
            assert(actions.drop_last() =~= Seq::empty());
            assert(settled(actions) == nobody);
            assert(pending.insert(slot).add(nobody) =~= pending.insert(slot));
        },
        EventModel::Written { result } => {
            let write = before.writing->0;
            let kept = without_key(before.pending, write.id);
            assert(pending.insert(write.slot).add(nobody) =~= pending.insert(write.slot));
            if actions.len() > 0 {
                assert(actions.drop_last() =~= Seq::empty());
            }
            match (result, write.stage) {
                (Err(error), stage) => {
                    assert(settled(actions) =~= Multiset::singleton(write.slot));
                    assert(pending.add(Multiset::singleton(write.slot)) =~= pending.insert(
                        write.slot,
                    ));
                },
                (Ok(()), WriteStage::Flush) => {
                    assert(kept.push((write.id, write.slot)).drop_last() =~= kept);
                    if entries_map(before.pending).contains_key(write.id) {
                        let replaced = entries_map(before.pending)[write.id];
                        lemma_slots_without_key(before.pending, write.id);
                        assert(settled(actions) =~= Multiset::singleton(replaced));
                        assert(slots(kept).insert(write.slot).add(Multiset::singleton(replaced))
                            =~= slots(kept).insert(replaced).insert(write.slot));
                    } else {
                        lemma_without_absent_key(before.pending, write.id);
                    }
                },
                _ => {
                    assert(settled(actions) == nobody);
                },
            }
        },
        EventModel::LineRead {
            line,
            report: Ok(SidecarEventModel::Response { id: command, ok, error }),
        } => {
            if actions.len() > 0 {
                let slot = entries_map(before.pending)[command];
                lemma_slots_without_key(before.pending, command);
                assert(actions.drop_last() =~= Seq::empty());
                assert(settled(actions) =~= Multiset::singleton(slot));
                assert(slots(after.pending).add(Multiset::singleton(slot)) =~= pending);
            }
        },
        EventModel::InboundClosed => {
            lemma_settled_refusals(
                before.pending,
                "photon sidecar disconnected before responding"@,
            );
        },
        EventModel::OutputEnded => {
            lemma_settled_refusals(
                before.pending,
                "photon sidecar disconnected before responding"@,
            );
        },
        _ => {
            if actions.len() > 0 {
                assert(actions.drop_last().len() < 2);
            }
            assert(settled(actions) == nobody);
        },
    }
}

/// A run of a supervisor from its beginning: the states that it goes through, the events that
/// lead from each of them to the next, and the actions that each event leads to.
pub open spec fn is_run(
    states: Seq<SupervisorModel>,
    events: Seq<EventModel>,
    actions: Seq<Seq<ActionModel>>,
) -> bool {
    &&& states.len() == events.len() + 1
    &&& actions.len() == events.len()
    &&& states[0].phase == SupervisorPhase::Polling
    &&& states[0].reconnect_backoff == INITIAL_RECONNECT_BACKOFF_SECS
    &&& states[0].pending.len() == 0
    &&& states[0].writing is None
    &&& forall|i: int|
        0 <= i < events.len() ==> expects(states[i].phase, #[trigger] events[i]) && steps(
            states[i],
            events[i],
            states[i + 1],
            actions[i],
        )
}

/// A run without its last event is a run.
proof fn lemma_run_begins(
    states: Seq<SupervisorModel>,
    events: Seq<EventModel>,
    actions: Seq<Seq<ActionModel>>,
)
    requires
        is_run(states, events, actions),
        events.len() > 0,
    ensures
        is_run(states.drop_last(), events.drop_last(), actions.drop_last()),
{
    let (earlier_states, earlier_events, earlier_actions) = (
        states.drop_last(),
        events.drop_last(),
        actions.drop_last(),
    );
    assert forall|i: int| 0 <= i < earlier_events.len() implies expects(
        earlier_states[i].phase,
        #[trigger] earlier_events[i],
    ) && steps(
        earlier_states[i],
        earlier_events[i],
        earlier_states[i + 1],
        earlier_actions[i],
    ) by {
        assert(events[i] == earlier_events[i]);
    }
}

/// The slots that all events of a run bring in.
pub open spec fn all_brought_in(events: Seq<EventModel>) -> Multiset<u64>
    decreases events.len(),
{
    if events.len() == 0 {
        Multiset::empty()
    } else {
        all_brought_in(events.drop_last()).add(brought_in(events.last()))
    }
}

/// The slots that are done with in a run.
pub open spec fn all_settled(actions: Seq<Seq<ActionModel>>) -> Multiset<u64>
    decreases actions.len(),
{
    if actions.len() == 0 {
        Multiset::empty()
    } else {
        all_settled(actions.drop_last()).add(settled(actions.last()))
    }
}

/// In every run, the callers that came in are those that still wait and those that are done with,
/// each of them once. Whenever no sidecar is running, and so after the stop, none waits.
pub proof fn law_runs_settle_every_caller_once(
    states: Seq<SupervisorModel>,
    events: Seq<EventModel>,
    actions: Seq<Seq<ActionModel>>,
)
    requires
        is_run(states, events, actions),
    ensures
        is_sound(states.last()),
        all_brought_in(events) == waiting(states.last()).add(all_settled(actions)),
        !is_up(states.last().phase) ==> all_brought_in(events)
            == all_settled(actions),
    decreases events.len(),
{
    let nobody = Multiset::<u64>::empty();
    if events.len() == 0 {
        assert(waiting(states.last()).add(nobody) =~= nobody);
    } else {
        let last = events.len() - 1;
        let (earlier_states, earlier_events, earlier_actions) = (
            states.drop_last(),
            events.drop_last(),
            actions.drop_last(),
        );
        lemma_run_begins(states, events, actions);
        law_runs_settle_every_caller_once(earlier_states, earlier_events, earlier_actions);
        let before = states[last];
        let after = states[last + 1];
        assert(expects(before.phase, events[last]));
        law_steps_keep_soundness(before, events[last], after, actions[last]);
        law_every_caller_is_settled_once(before, events[last], after, actions[last]);
        let done = all_settled(earlier_actions);
        assert(waiting(before).add(done).add(brought_in(events[last])) =~= waiting(before).add(
            brought_in(events[last]),
        ).add(done));
        assert(waiting(after).add(settled(actions[last])).add(done) =~= waiting(after).add(
            done.add(settled(actions[last])),
        ));
    }
    if !is_up(states.last().phase) {
        assert(waiting(states.last()) == nobody);
        assert(nobody.add(all_settled(actions)) =~= all_settled(actions));
    }
}

/// A supervisor that has stopped does nothing any more.
pub proof fn law_stopped_is_final(
    before: SupervisorModel,
    event: EventModel,
    after: SupervisorModel,
    actions: Seq<ActionModel>,
)
    requires
        before.phase == SupervisorPhase::Stopped,
        steps(before, event, after, actions),
    ensures
        after == before,
        actions.len() == 0,
{
}

/// A message of a sender who is not on a list that names anybody is not delivered: it leads to
/// nothing but, at most, an entry in the log.
pub proof fn law_unlisted_sender_is_not_delivered(
    before: SupervisorModel,
    line: Seq<char>,
    payload: PayloadModel,
    after: SupervisorModel,
    actions: Seq<ActionModel>,
)
    requires
        before.dm_allow_list.len() > 0,
        !before.dm_allow_list.contains(payload.sender_id),
        steps(
            before,
            EventModel::LineRead { line, report: Ok(SidecarEventModel::Inbound { payload }) },
            after,
            actions,
        ),
    ensures
        after == before,
        forall|i: int| 0 <= i < actions.len() ==> #[trigger] actions[i] is Log,
{
}

/// A caller is given up without an answer only if another command was sent under the id of the
/// caller's own.
pub proof fn law_only_replaced_callers_are_given_up(
    before: SupervisorModel,
    event: EventModel,
    after: SupervisorModel,
    actions: Seq<ActionModel>,
    slot: u64,
)
    requires
        steps(before, event, after, actions),
        actions.contains(ActionModel::Abandon { slot }),
    ensures
        event matches EventModel::Written { result } && result is Ok,
        before.writing matches Some(write) && write.stage == WriteStage::Flush && entries_map(
            before.pending,
        ).contains_key(write.id) && entries_map(before.pending)[write.id] == slot,
{
}

/// The id of the command that an event brings in.
pub open spec fn command_id(event: EventModel) -> Option<Seq<char>> {
    match event {
        EventModel::CommandReceived { envelope, slot } => Some(envelope.id),
        _ => None,
    }
}

/// Whether no two commands of a run have the same id.
pub open spec fn distinct_commands(events: Seq<EventModel>) -> bool {
    forall|i: int, j: int|
        0 <= i < j < events.len() && command_id(#[trigger] events[i]) is Some ==> command_id(
            events[i],
        ) != command_id(#[trigger] events[j])
}

/// A command that is pending or being written came in earlier.
proof fn lemma_pending_came_in(
    states: Seq<SupervisorModel>,
    events: Seq<EventModel>,
    actions: Seq<Seq<ActionModel>>,
    n: int,
    id: Seq<char>,
)
    requires
        is_run(states, events, actions),
        0 <= n <= events.len(),
        entries_map(states[n].pending).contains_key(id) || (states[n].writing is Some
            && states[n].writing->0.id == id),
    ensures
        exists|m: int| 0 <= m < n && command_id(#[trigger] events[m]) == Some(id),
    decreases n,
{
    if n > 0 {
        let event = events[n - 1];
        let before = states[n - 1];
        assert(steps(before, event, states[n], actions[n - 1]));
        match event {
            EventModel::Written { result } => {
                if before.writing is Some {
                    let write = before.writing->0;
                    let kept = without_key(before.pending, write.id);
                    assert(kept.push((write.id, write.slot)).drop_last() =~= kept);
                    lemma_without_key_map(before.pending, write.id);
                }
            },
            EventModel::LineRead {
                line,
                report: Ok(SidecarEventModel::Response { id: answered, ok, error }),
            } => {
                lemma_without_key_map(before.pending, answered);
            },
            _ => {},
        }
        if command_id(event) != Some(id) {
            lemma_pending_came_in(states, events, actions, n - 1, id);
        }
    }
}

/// If no two commands have the same id, none is written under an id that is pending.
proof fn lemma_written_is_not_pending(
    states: Seq<SupervisorModel>,
    events: Seq<EventModel>,
    actions: Seq<Seq<ActionModel>>,
    n: int,
)
    requires
        is_run(states, events, actions),
        distinct_commands(events),
        0 <= n <= events.len(),
    ensures
        states[n].writing matches Some(write) ==> !entries_map(states[n].pending).contains_key(
            write.id,
        ),
    decreases n,
{
    if n > 0 {
        let event = events[n - 1];
        let before = states[n - 1];
        lemma_written_is_not_pending(states, events, actions, n - 1);
        assert(expects(before.phase, event));
        assert(steps(before, event, states[n], actions[n - 1]));
        match event {
            EventModel::CommandReceived { envelope, slot } => {
                if entries_map(before.pending).contains_key(envelope.id) {
                    lemma_pending_came_in(states, events, actions, n - 1, envelope.id);
                    let m = choose|m: int|
                        0 <= m < n - 1 && command_id(#[trigger] events[m]) == Some(envelope.id);
                    assert(command_id(events[m]) == command_id(events[n - 1]));
                }
            },
            EventModel::LineRead {
                line,
                report: Ok(SidecarEventModel::Response { id: answered, ok, error }),
            } => {
                lemma_without_key_map(before.pending, answered);
            },
            _ => {},
        }
    }
}

/// If no two commands have the same id, as random ids have not, no caller is ever given up without
/// an answer.
pub proof fn law_distinct_commands_are_all_answered(
    states: Seq<SupervisorModel>,
    events: Seq<EventModel>,
    actions: Seq<Seq<ActionModel>>,
    i: int,
    slot: u64,
)
    requires
        is_run(states, events, actions),
        distinct_commands(events),
        0 <= i < events.len(),
    ensures
        !actions[i].contains(ActionModel::Abandon { slot }),
{
    assert(steps(states[i], events[i], states[i + 1], actions[i]));
    if actions[i].contains(ActionModel::Abandon { slot }) {
        law_only_replaced_callers_are_given_up(
            states[i],
            events[i],
            states[i + 1],
            actions[i],
            slot,
        );
        lemma_written_is_not_pending(states, events, actions, i);
    }
}

/// A command that could not be written is answered with the reason, to its own caller alone. No
/// other caller notices, and the next command is taken.
pub proof fn law_failed_write_concerns_one_caller(
    before: SupervisorModel,
    error: Seq<char>,
    after: SupervisorModel,
    actions: Seq<ActionModel>,
)
    requires
        is_sound(before),
        before.phase == SupervisorPhase::Writing,
        steps(before, EventModel::Written { result: Err(error) }, after, actions),
    ensures
        before.writing matches Some(write) && actions == seq![
            ActionModel::Reply {
                slot: write.slot,
                outcome: Err(write_refusal(write.stage, error)),
            },
        ],
        after == (SupervisorModel {
            phase: SupervisorPhase::Connected,
            writing: None,
            ..before
        }),
{
}

/// What is written to the sidecar, and when it is flushed, in order.
pub open spec fn output(actions: Seq<ActionModel>) -> Seq<ActionModel>
    decreases actions.len(),
{
    if actions.len() == 0 {
        Seq::empty()
    } else if actions.last() is Write || actions.last() is Flush {
        output(actions.drop_last()).push(actions.last())
    } else {
        output(actions.drop_last())
    }
}

/// What is written to the sidecar in a run, and when it is flushed, in order.
pub open spec fn all_output(actions: Seq<Seq<ActionModel>>) -> Seq<ActionModel>
    decreases actions.len(),
{
    if actions.len() == 0 {
        Seq::empty()
    } else {
        all_output(actions.drop_last()) + output(actions.last())
    }
}

/// How a command is written: its line, a line feed, and a flush.
pub open spec fn command_output(envelope: EnvelopeModel) -> Seq<ActionModel> {
    seq![
        ActionModel::Write(command_line(envelope)),
        ActionModel::Write("\n"@),
        ActionModel::Flush,
    ]
}

/// What is still to be written of the command that is being written.
pub open spec fn output_to_come(state: SupervisorModel) -> Seq<ActionModel> {
    match state.writing {
        Some(write) => match write.stage {
            WriteStage::Line => seq![ActionModel::Write("\n"@), ActionModel::Flush],
            WriteStage::Newline => seq![ActionModel::Flush],
            WriteStage::Flush => Seq::empty(),
        },
        None => Seq::empty(),
    }
}

/// How the commands of a run are written, one after the other in the order in which they came in.
/// Of a command that could not be written what was still to come is left out.
pub open spec fn queued_output(
    states: Seq<SupervisorModel>,
    events: Seq<EventModel>,
) -> Seq<ActionModel>
    decreases events.len(),
{
    if events.len() == 0 {
        Seq::empty()
    } else {
        let earlier = queued_output(states, events.drop_last());
        match events.last() {
            EventModel::CommandReceived { envelope, slot } => earlier + command_output(envelope),
            EventModel::Written { result: Err(error) } => earlier.take(
                earlier.len() - output_to_come(states[events.len() - 1]).len(),
            ),
            _ => earlier,
        }
    }
}

/// Actions that write nothing have no output.
proof fn lemma_no_output(actions: Seq<ActionModel>)
    requires
        forall|i: int|
            0 <= i < actions.len() ==> !(#[trigger] actions[i] is Write) && !(actions[i] is Flush),
    ensures
        output(actions) == Seq::<ActionModel>::empty(),
    decreases actions.len(),
{
    if actions.len() > 0 {
        let shorter = actions.drop_last();
        assert forall|i: int| 0 <= i < shorter.len() implies !(#[trigger] shorter[i] is Write) && !(
        shorter[i] is Flush) by {
            assert(shorter[i] == actions[i]);
        }
        lemma_no_output(shorter);
        assert(!(actions[actions.len() - 1] is Write) && !(actions[actions.len() - 1] is Flush));
    }
}

/// One event adds to the output what it adds to the queue, up to what is still to come.
proof fn lemma_output_of_step(
    before: SupervisorModel,
    event: EventModel,
    after: SupervisorModel,
    actions: Seq<ActionModel>,
)
    requires
        is_sound(before),
        expects(before.phase, event),
        steps(before, event, after, actions),
        !(event is ShutdownRequested),
    ensures
        output(actions) + output_to_come(after) == match event {
            EventModel::CommandReceived { envelope, slot } => output_to_come(before)
                + command_output(envelope),
            EventModel::Written { result: Err(error) } => Seq::empty(),
            _ => output_to_come(before),
        },
{
    reveal_with_fuel(output, 2);
    match event {
        EventModel::CommandReceived { envelope, slot } => {
            assert(actions.drop_last() =~= Seq::empty());
            assert(output(actions) + output_to_come(after) =~= output_to_come(before)
                + command_output(envelope));
        },
        EventModel::Written { result } => {
            if actions.len() > 0 {
                assert(actions.drop_last() =~= Seq::empty());
            }
        },
        _ => {
            lemma_no_output(actions);
        },
    }
}

/// Exactly the commands that came in are written to the sidecar: each of them once, in the order in
/// which they came in, as its line, one line feed and a flush, up to the first of these that fails.
/// While a command is being written, the rest of it is still to come. What a shutdown writes is left
/// out here.
pub proof fn law_commands_are_written_in_order(
    states: Seq<SupervisorModel>,
    events: Seq<EventModel>,
    actions: Seq<Seq<ActionModel>>,
)
    requires
        is_run(states, events, actions),
        forall|i: int| 0 <= i < events.len() ==> !(#[trigger] events[i] is ShutdownRequested),
    ensures
        all_output(actions) + output_to_come(states.last()) == queued_output(states, events),
        states.last().phase != SupervisorPhase::Writing ==> all_output(actions) == queued_output(
            states,
            events,
        ),
    decreases events.len(),
{
    let after = states.last();
    law_runs_settle_every_caller_once(states, events, actions);
    if events.len() > 0 {
        let last = events.len() - 1;
        let (before, event) = (states[last], events[last]);
        let (earlier_states, earlier_events, earlier_actions) = (
            states.drop_last(),
            events.drop_last(),
            actions.drop_last(),
        );
        assert(expects(before.phase, event));
        assert(steps(before, event, after, actions[last]));
        lemma_run_begins(states, events, actions);
        assert forall|i: int| 0 <= i < last implies !(
        #[trigger] earlier_events[i] is ShutdownRequested) by {
            assert(earlier_events[i] == events[i]);
        }
        law_commands_are_written_in_order(earlier_states, earlier_events, earlier_actions);
        law_runs_settle_every_caller_once(earlier_states, earlier_events, earlier_actions);
        lemma_queued_output_of_prefix(earlier_states, states, earlier_events);
        lemma_output_of_step(before, event, after, actions[last]);
        let earlier = all_output(earlier_actions);
        let queued = queued_output(states, earlier_events);
        let step = output(actions[last]) + output_to_come(after);
        assert(all_output(actions) + output_to_come(after) =~= earlier + step);
        match event {
            EventModel::CommandReceived { envelope, slot } => {
                assert(earlier + step =~= queued + command_output(envelope));
            },
            EventModel::Written { result: Err(error) } => {
                assert(queued.take(queued.len() - output_to_come(before).len()) =~= earlier);
                assert(earlier + step =~= earlier);
            },
            _ => {},
        }
    }
    assert(all_output(actions) + Seq::empty() =~= all_output(actions));
}

/// The queued output depends on no state behind the last event.
proof fn lemma_queued_output_of_prefix(
    states: Seq<SupervisorModel>,
    more: Seq<SupervisorModel>,
    events: Seq<EventModel>,
)
    requires
        events.len() <= states.len() <= more.len(),
        forall|i: int| 0 <= i < states.len() ==> #[trigger] states[i] == more[i],
    ensures
        queued_output(states, events) == queued_output(more, events),
    decreases events.len(),
{
    if events.len() > 0 {
        lemma_queued_output_of_prefix(states, more, events.drop_last());
        assert(states[events.len() - 1] == more[events.len() - 1]);
    }
}

/// Nothing is written to the sidecar but the line of a command that has just come in, the line feed
/// behind a line that was written, and what a shutdown begins with.
pub proof fn law_nothing_else_is_written(
    before: SupervisorModel,
    event: EventModel,
    after: SupervisorModel,
    actions: Seq<ActionModel>,
    text: Seq<char>,
)
    requires
        steps(before, event, after, actions),
        actions.contains(ActionModel::Write(text)),
        !(event is ShutdownRequested),
    ensures
        ({
            ||| event matches EventModel::CommandReceived { envelope, slot } && text
                == command_line(envelope) && actions.len() == 1
            ||| event matches EventModel::Written { result } && result is Ok && before.writing is Some
                && before.writing->0.stage == WriteStage::Line && text == "\n"@ && actions.len()
                == 1
        }),
{
}

/// The `k`-th wait in a row, in seconds: two to the power of `k`, or the longest wait if that is
/// less.
pub open spec fn nth_wait(k: nat) -> u64 {
    if vstd::arithmetic::power2::pow2(k) < MAX_RECONNECT_BACKOFF_SECS {
        vstd::arithmetic::power2::pow2(k) as u64
    } else {
        MAX_RECONNECT_BACKOFF_SECS
    }
}

/// The first wait is the initial one, and every wait is followed by one that is twice as long, up
/// to the longest.
pub proof fn law_backoff_doubles(k: nat)
    ensures
        nth_wait(1) == INITIAL_RECONNECT_BACKOFF_SECS,
        next_backoff(nth_wait(k)) == nth_wait(k + 1),
{
    vstd::arithmetic::power2::lemma2_to64();
    vstd::arithmetic::power2::lemma_pow2_unfold(k + 1);
}

/// Whether an event lets the supervisor wait before it starts the sidecar again: the start failed,
/// or the sidecar is gone and no shutdown was asked for.
pub open spec fn is_setback(phase: SupervisorPhase, event: EventModel) -> bool {
    match event {
        EventModel::SpawnFailed => phase == SupervisorPhase::Spawning,
        EventModel::ShutdownPolled { requested } => phase == SupervisorPhase::Disconnected
            && !requested,
        _ => false,
    }
}

/// The number of setbacks among the first `n` events of a run since the sidecar was last started,
/// or since the beginning.
pub open spec fn setbacks(states: Seq<SupervisorModel>, events: Seq<EventModel>, n: nat) -> nat
    decreases n,
{
    if n == 0 || events[n - 1] is Spawned {
        0
    } else {
        let earlier = setbacks(states, events, (n - 1) as nat);
        if is_setback(states[n - 1].phase, events[n - 1]) {
            earlier + 1
        } else {
            earlier
        }
    }
}

/// The wait that comes next depends on the number of setbacks alone.
proof fn lemma_backoff_of_setbacks(
    states: Seq<SupervisorModel>,
    events: Seq<EventModel>,
    actions: Seq<Seq<ActionModel>>,
    n: nat,
)
    requires
        is_run(states, events, actions),
        n <= events.len(),
    ensures
        states[n as int].reconnect_backoff == nth_wait(setbacks(states, events, n) + 1),
    decreases n,
{
    law_backoff_doubles(1);
    if n > 0 {
        let event = events[n - 1];
        let before = states[n - 1];
        lemma_backoff_of_setbacks(states, events, actions, (n - 1) as nat);
        law_backoff_doubles(setbacks(states, events, (n - 1) as nat) + 1);
        assert(expects(before.phase, event));
        assert(steps(before, event, states[n as int], actions[n - 1]));
    }
}

/// In every run, the `k`-th setback since the sidecar was last started, or since the beginning, is
/// followed by a wait of two to the power of `k` seconds, or of the longest wait if that is less.
/// Besides, a sidecar that was started without its streams is followed by the initial wait. There
/// are no other waits.
pub proof fn law_setbacks_back_off(
    states: Seq<SupervisorModel>,
    events: Seq<EventModel>,
    actions: Seq<Seq<ActionModel>>,
    i: int,
)
    requires
        is_run(states, events, actions),
        0 <= i < events.len(),
    ensures
        is_setback(states[i].phase, events[i]) ==> actions[i] == seq![
            ActionModel::Sleep { seconds: nth_wait(setbacks(states, events, (i + 1) as nat)) },
        ],
        forall|k: int|
            0 <= k < actions[i].len() && (#[trigger] actions[i][k] matches ActionModel::Sleep {
                seconds,
            }) ==> is_setback(states[i].phase, events[i]) || (events[i] matches EventModel::Spawned {
                complete,
            } && !complete && actions[i][k] == (ActionModel::Sleep {
                seconds: INITIAL_RECONNECT_BACKOFF_SECS,
            })),
{
    lemma_backoff_of_setbacks(states, events, actions, i as nat);
    assert(expects(states[i].phase, events[i]));
    assert(steps(states[i], events[i], states[i + 1], actions[i]));
}

/// Whether an event is a line of the sidecar that asks for nothing: a blank line, a line that holds
/// no report, or a report that the sidecar is ready or has something for the log.
pub open spec fn is_idle_line(event: EventModel) -> bool {
    match event {
        EventModel::LineRead { line, report } => is_blank_text(line) || match report {
            Ok(event) => event is Ready || event is Log,
            Err(error) => true,
        },
        _ => false,
    }
}

/// A line that asks for nothing leaves the supervisor as it was, and leads to nothing but, at most,
/// an entry in the log.
pub proof fn law_idle_lines_change_nothing(
    before: SupervisorModel,
    event: EventModel,
    after: SupervisorModel,
    actions: Seq<ActionModel>,
)
    requires
        is_idle_line(event),
        steps(before, event, after, actions),
    ensures
        after == before,
        forall|i: int| 0 <= i < actions.len() ==> #[trigger] actions[i] is Log,
{
}

/// An event, with the time on the clock and the id that is drawn for it.
pub struct Happening {
    pub event: EventModel,
    pub now: Timestamp,
    pub id: Seq<char>,
}

/// The state that events lead to, one after the other.
pub open spec fn state_after(
    state: SupervisorModel,
    happenings: Seq<Happening>,
) -> SupervisorModel
    decreases happenings.len(),
{
    if happenings.len() == 0 {
        state
    } else {
        let last = happenings.last();
        step_outcome(
            state_after(state, happenings.drop_last()),
            last.event,
            last.now,
            last.id,
        ).0
    }
}

/// The actions that are more than an entry in the log, in their order.
pub open spec fn unlogged(actions: Seq<ActionModel>) -> Seq<ActionModel>
    decreases actions.len(),
{
    if actions.len() == 0 {
        Seq::empty()
    } else if actions.last() is Log {
        unlogged(actions.drop_last())
    } else {
        unlogged(actions.drop_last()).push(actions.last())
    }
}

/// Everything that events lead to, one after the other, but for the entries in the log: the messages
/// that are delivered, the answers that callers get, and what is done with the sidecar.
pub open spec fn effects(state: SupervisorModel, happenings: Seq<Happening>) -> Seq<ActionModel>
    decreases happenings.len(),
{
    if happenings.len() == 0 {
        Seq::empty()
    } else {
        let last = happenings.last();
        let earlier = happenings.drop_last();
        effects(state, earlier) + unlogged(
            step_outcome(state_after(state, earlier), last.event, last.now, last.id).1,
        )
    }
}

/// The events but for the lines that ask for nothing.
pub open spec fn without_idle_lines(happenings: Seq<Happening>) -> Seq<Happening>
    decreases happenings.len(),
{
    if happenings.len() == 0 {
        Seq::empty()
    } else if is_idle_line(happenings.last().event) {
        without_idle_lines(happenings.drop_last())
    } else {
        without_idle_lines(happenings.drop_last()).push(happenings.last())
    }
}

/// Lines that ask for nothing can be left out.
proof fn lemma_idle_lines_left_out(state: SupervisorModel, happenings: Seq<Happening>)
    ensures
        state_after(state, happenings) == state_after(state, without_idle_lines(happenings)),
        effects(state, happenings) == effects(state, without_idle_lines(happenings)),
    decreases happenings.len(),
{
    if happenings.len() > 0 {
        let earlier = happenings.drop_last();
        let last = happenings.last();
        lemma_idle_lines_left_out(state, earlier);
        if is_idle_line(last.event) {
            let before = state_after(state, earlier);
            let (after, actions) = step_outcome(before, last.event, last.now, last.id);
            assert(after == before);
            reveal_with_fuel(unlogged, 2);
            assert(unlogged(actions) =~= Seq::empty());
            assert(effects(state, earlier) + Seq::empty() =~= effects(state, earlier));
        } else {
            assert(without_idle_lines(happenings).drop_last() =~= without_idle_lines(earlier));
        }
    }
}

/// Two runs that differ only in lines that ask for nothing deliver the same messages, give every
/// caller the same answers, do the same with the sidecar, and end in the same state.
pub proof fn law_idle_lines_do_not_matter(
    state: SupervisorModel,
    a: Seq<Happening>,
    b: Seq<Happening>,
)
    requires
        without_idle_lines(a) == without_idle_lines(b),
    ensures
        state_after(state, a) == state_after(state, b),
        effects(state, a) == effects(state, b),
{
    lemma_idle_lines_left_out(state, a);
    lemma_idle_lines_left_out(state, b);
}

/// Everything that is done in a run, but for the entries in the log.
pub open spec fn all_unlogged(actions: Seq<Seq<ActionModel>>) -> Seq<ActionModel>
    decreases actions.len(),
{
    if actions.len() == 0 {
        Seq::empty()
    } else {
        all_unlogged(actions.drop_last()) + unlogged(actions.last())
    }
}

/// Nothing but the times on the clock and the ids that are drawn decides how a run goes: with these
/// given, its events lead to its last state and to everything that is done in it.
pub proof fn law_runs_follow_their_events(
    states: Seq<SupervisorModel>,
    events: Seq<EventModel>,
    actions: Seq<Seq<ActionModel>>,
)
    requires
        is_run(states, events, actions),
    ensures
        exists|happenings: Seq<Happening>|
            {
                &&& happenings.len() == events.len()
                &&& forall|i: int|
                    0 <= i < events.len() ==> (#[trigger] happenings[i]).event == events[i]
                &&& state_after(states[0], happenings) == states.last()
                &&& #[trigger] effects(states[0], happenings) == all_unlogged(actions)
            },
    decreases events.len(),
{
    if events.len() == 0 {
        let none = Seq::<Happening>::empty();
        assert(state_after(states[0], none) == states.last());
        assert(effects(states[0], none) == all_unlogged(actions));
    } else {
        let last = events.len() - 1;
        lemma_run_begins(states, events, actions);
        law_runs_follow_their_events(states.drop_last(), events.drop_last(), actions.drop_last());
        let earlier = choose|happenings: Seq<Happening>|
            {
                &&& happenings.len() == last
                &&& forall|i: int|
                    0 <= i < last ==> (#[trigger] happenings[i]).event == events.drop_last()[i]
                &&& state_after(states[0], happenings) == states.drop_last().last()
                &&& #[trigger] effects(states[0], happenings) == all_unlogged(actions.drop_last())
            };
        assert(steps(states[last], events[last], states[last + 1], actions[last]));
        let (now, id): (Timestamp, Seq<char>) = choose|now: Timestamp, id: Seq<char>|
            (states[last + 1], actions[last]) == #[trigger] step_outcome(
                states[last],
                events[last],
                now,
                id,
            );
        let all = earlier.push(Happening { event: events[last], now, id });
        assert(all.drop_last() =~= earlier);
        assert(state_after(states[0], all) == states.last());
        assert(effects(states[0], all) == all_unlogged(actions));
        assert forall|i: int| 0 <= i < events.len() implies (#[trigger] all[i]).event
            == events[i] by {
            if i < last {
                assert(all[i] == earlier[i]);
            }
        }
    }
}

} // verus!
