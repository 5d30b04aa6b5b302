use photon::allow_list::AllowList;
use photon::command::{SidecarCommandEnvelope, SidecarCommandKind};
use photon::json::JsonValue;
use photon::message::MessageContent;
use photon::sidecar::{SidecarEvent, SidecarInboundPayload};
use photon::supervisor::{
    LogEntry, LogLevel, Supervisor, SupervisorAction, SupervisorEvent, SupervisorPhase,
};

fn fresh() -> Supervisor {
    Supervisor::new(
        "photon".to_string(),
        AllowList::new(vec!["sender-1".to_string()]),
    )
}

fn connected() -> Supervisor {
    let mut supervisor = fresh();
    supervisor.step(SupervisorEvent::ShutdownPolled { requested: false });
    supervisor.step(SupervisorEvent::Spawned { stdin: true, stdout: true, stderr: true });
    assert_eq!(supervisor.phase(), SupervisorPhase::Connected);
    supervisor
}

fn command(id: &str, slot: u64) -> SupervisorEvent {
    let envelope = SidecarCommandEnvelope {
        id: id.to_string(),
        command: SidecarCommandKind::Health,
        payload: JsonValue::Null,
    };
    SupervisorEvent::CommandReceived { envelope, slot }
}

fn written() -> SupervisorEvent {
    SupervisorEvent::Written { result: Ok(()) }
}

fn not_written(error: &str) -> SupervisorEvent {
    SupervisorEvent::Written { result: Err(error.to_string()) }
}

/// Sends a command, and hands out what is done once it is flushed.
fn send(supervisor: &mut Supervisor, id: &str, slot: u64) -> Vec<SupervisorAction> {
    let actions = supervisor.step(command(id, slot));
    let line = format!("{{\"id\":\"{id}\",\"command\":\"health\",\"payload\":null}}");
    assert!(matches!(actions.as_slice(), [SupervisorAction::Write(text)] if *text == line));
    assert_eq!(supervisor.phase(), SupervisorPhase::Writing);
    let actions = supervisor.step(written());
    assert!(matches!(actions.as_slice(), [SupervisorAction::Write(text)] if text == "\n"));
    let actions = supervisor.step(written());
    assert!(matches!(actions.as_slice(), [SupervisorAction::Flush]));
    assert_eq!(supervisor.phase(), SupervisorPhase::Writing);
    let actions = supervisor.step(written());
    assert_eq!(supervisor.phase(), SupervisorPhase::Connected);
    actions
}

fn report(event: SidecarEvent) -> SupervisorEvent {
    SupervisorEvent::LineRead { line: "{}".to_string(), report: Ok(event) }
}

fn response(id: &str, ok: bool, error: Option<&str>) -> SupervisorEvent {
    report(SidecarEvent::Response {
        id: id.to_string(),
        ok,
        error: error.map(|text| text.to_string()),
    })
}

fn inbound(sender_id: &str) -> SupervisorEvent {
    report(SidecarEvent::Inbound {
        payload: SidecarInboundPayload {
            space_id: "space-1".to_string(),
            message_id: "m1".to_string(),
            sender_id: sender_id.to_string(),
            sender_display_name: None,
            text: "hello".to_string(),
            timestamp: Some("1970-01-01T00:00:01Z".to_string()),
            mentions_or_replies_to_bot: false,
            is_dm: true,
            space_name: None,
            server_name: None,
            attachments: Vec::new(),
        },
    })
}

/// The slots that are answered, with the error that each of them is given.
fn replies(actions: &[SupervisorAction]) -> Vec<(u64, Option<&str>)> {
    actions
        .iter()
        .filter_map(|action| match action {
            SupervisorAction::Reply { slot, outcome: Ok(()) } => Some((*slot, None)),
            SupervisorAction::Reply { slot, outcome: Err(reason) } => {
                Some((*slot, Some(reason.as_str())))
            }
            _ => None,
        })
        .collect()
}

fn slept(actions: &[SupervisorAction]) -> Option<u64> {
    actions.iter().find_map(|action| match action {
        SupervisorAction::Sleep { seconds } => Some(*seconds),
        _ => None,
    })
}

#[test]
fn shutdown_before_the_start_stops() {
    let mut supervisor = fresh();
    assert_eq!(supervisor.phase(), SupervisorPhase::Polling);
    let actions = supervisor.step(SupervisorEvent::ShutdownPolled { requested: true });
    assert!(matches!(actions.as_slice(), [SupervisorAction::Stop]));
    assert_eq!(supervisor.phase(), SupervisorPhase::Stopped);
    let actions = supervisor.step(SupervisorEvent::ShutdownPolled { requested: false });
    assert!(actions.is_empty());
    assert_eq!(supervisor.phase(), SupervisorPhase::Stopped);
}

#[test]
fn failing_starts_wait_longer_and_longer() {
    let mut supervisor = fresh();
    let mut waits: Vec<u64> = Vec::new();
    for _ in 0..6 {
        let actions = supervisor.step(SupervisorEvent::ShutdownPolled { requested: false });
        assert!(matches!(actions.as_slice(), [SupervisorAction::Launch]));
        assert_eq!(supervisor.phase(), SupervisorPhase::Spawning);
        let actions = supervisor.step(SupervisorEvent::SpawnFailed);
        assert_eq!(supervisor.phase(), SupervisorPhase::Polling);
        waits.push(slept(&actions).unwrap());
    }
    assert_eq!(waits, vec![2, 4, 8, 16, 30, 30]);
}

#[test]
fn a_start_that_works_resets_the_wait() {
    let mut supervisor = fresh();
    for _ in 0..3 {
        supervisor.step(SupervisorEvent::ShutdownPolled { requested: false });
        supervisor.step(SupervisorEvent::SpawnFailed);
    }
    supervisor.step(SupervisorEvent::ShutdownPolled { requested: false });
    let actions =
        supervisor.step(SupervisorEvent::Spawned { stdin: true, stdout: true, stderr: true });
    assert!(actions.is_empty());
    supervisor.step(SupervisorEvent::OutputEnded);
    assert_eq!(supervisor.phase(), SupervisorPhase::Disconnected);
    let actions = supervisor.step(SupervisorEvent::ShutdownPolled { requested: false });
    assert_eq!(slept(&actions), Some(2));
    assert_eq!(supervisor.phase(), SupervisorPhase::Polling);
}

#[test]
fn a_sidecar_without_its_streams_is_killed() {
    for missing in 0..3 {
        let mut supervisor = fresh();
        supervisor.step(SupervisorEvent::ShutdownPolled { requested: false });
        let actions = supervisor.step(SupervisorEvent::Spawned {
            stdin: missing != 0,
            stdout: missing != 1,
            stderr: missing != 2,
        });
        assert!(matches!(
            actions.as_slice(),
            [SupervisorAction::Kill, SupervisorAction::Sleep { seconds: 2 }]
        ));
        assert_eq!(supervisor.phase(), SupervisorPhase::Polling);
    }
}

#[test]
fn responses_answer_their_commands_once() {
    let mut supervisor = connected();
    assert!(send(&mut supervisor, "a", 1).is_empty());
    assert!(send(&mut supervisor, "b", 2).is_empty());
    assert!(send(&mut supervisor, "c", 3).is_empty());
    let actions = supervisor.step(response("b", true, None));
    assert_eq!(replies(&actions), vec![(2, None)]);
    assert!(supervisor.step(response("b", true, None)).is_empty());
    assert!(supervisor.step(response("z", true, None)).is_empty());
    let actions = supervisor.step(response("a", false, Some("no such space")));
    assert_eq!(replies(&actions), vec![(1, Some("no such space"))]);
    let actions = supervisor.step(response("c", false, None));
    assert_eq!(replies(&actions), vec![(3, Some("unknown photon sidecar error"))]);
}

#[test]
fn commands_that_cannot_be_written_are_refused() {
    let mut supervisor = connected();
    send(&mut supervisor, "z", 9);
    let reasons = [
        "failed writing command to photon sidecar: broken pipe",
        "failed writing command newline to photon sidecar: broken pipe",
        "failed flushing command to photon sidecar: broken pipe",
    ];
    for (parts, reason) in reasons.iter().enumerate() {
        supervisor.step(command("a", 5));
        for _ in 0..parts {
            assert_eq!(supervisor.step(written()).len(), 1);
        }
        let actions = supervisor.step(not_written("broken pipe"));
        assert_eq!(actions.len(), 1);
        assert_eq!(replies(&actions), vec![(5, Some(*reason))]);
        assert_eq!(supervisor.phase(), SupervisorPhase::Connected);
    }
    assert!(supervisor.step(response("a", true, None)).is_empty());
    let actions = supervisor.step(response("z", true, None));
    assert_eq!(replies(&actions), vec![(9, None)]);
    assert!(send(&mut supervisor, "b", 6).is_empty());
}

#[test]
fn commands_are_written_once_in_their_order() {
    let mut supervisor = connected();
    let mut text = String::new();
    for (slot, id) in ["a", "b"].iter().enumerate() {
        let mut event = command(id, slot as u64);
        loop {
            let actions = supervisor.step(event);
            for action in &actions {
                match action {
                    SupervisorAction::Write(part) => text.push_str(part),
                    SupervisorAction::Flush => text.push('|'),
                    other => panic!("expected output, got {other:?}"),
                }
            }
            if actions.is_empty() {
                break;
            }
            event = written();
        }
    }
    assert_eq!(
        text,
        concat_lines(&[
            r#"{"id":"a","command":"health","payload":null}"#,
            r#"{"id":"b","command":"health","payload":null}"#,
        ])
    );
}

/// The lines, each with a line feed and a mark for the flush behind it.
fn concat_lines(lines: &[&str]) -> String {
    lines.iter().map(|line| format!("{line}\n|")).collect()
}

#[test]
fn only_its_own_outcome_is_heard_during_a_write() {
    let mut supervisor = connected();
    send(&mut supervisor, "a", 1);
    supervisor.step(command("b", 2));
    assert!(supervisor.step(response("a", true, None)).is_empty());
    assert!(supervisor.step(SupervisorEvent::OutputEnded).is_empty());
    assert_eq!(supervisor.phase(), SupervisorPhase::Writing);
    let mut idle = connected();
    assert!(idle.step(written()).is_empty());
    assert_eq!(idle.phase(), SupervisorPhase::Connected);
}

#[test]
fn shutdown_tells_the_sidecar_and_the_callers() {
    let mut supervisor = connected();
    send(&mut supervisor, "a", 1);
    send(&mut supervisor, "b", 2);
    let actions = supervisor.step(SupervisorEvent::ShutdownRequested);
    assert_eq!(actions.len(), 7);
    match &actions[0] {
        SupervisorAction::Write(line) => {
            let value: serde_json::Value = serde_json::from_str(line).unwrap();
            assert_eq!(value["command"].as_str(), Some("shutdown"));
            assert!(value["payload"].is_null());
            assert_eq!(value["id"].as_str().map(|id| id.len()), Some(36));
        }
        other => panic!("expected a line, got {other:?}"),
    }
    assert!(matches!(&actions[1], SupervisorAction::Write(text) if text == "\n"));
    assert!(matches!(actions[2], SupervisorAction::Flush));
    assert!(matches!(actions[3], SupervisorAction::Kill));
    let reason = Some("photon sidecar shutting down");
    assert_eq!(replies(&actions), vec![(1, reason), (2, reason)]);
    assert!(matches!(actions[6], SupervisorAction::Stop));
    assert_eq!(supervisor.phase(), SupervisorPhase::Stopped);
}

#[test]
fn closed_command_channel_stops_the_supervisor() {
    let mut supervisor = connected();
    send(&mut supervisor, "a", 1);
    let actions = supervisor.step(SupervisorEvent::CommandsClosed);
    assert!(matches!(actions[0], SupervisorAction::Kill));
    assert_eq!(replies(&actions), vec![(1, Some("photon command channel closed"))]);
    assert!(matches!(actions[2], SupervisorAction::Stop));
    assert_eq!(actions.len(), 3);
    assert_eq!(supervisor.phase(), SupervisorPhase::Stopped);
}

#[test]
fn lost_sidecar_is_started_again() {
    for event in [SupervisorEvent::OutputEnded, SupervisorEvent::InboundClosed] {
        let mut supervisor = connected();
        send(&mut supervisor, "a", 1);
        let actions = supervisor.step(event);
        assert_eq!(
            replies(&actions),
            vec![(1, Some("photon sidecar disconnected before responding"))]
        );
        assert_eq!(actions.len(), 1);
        assert_eq!(supervisor.phase(), SupervisorPhase::Disconnected);
        let actions = supervisor.step(SupervisorEvent::ShutdownPolled { requested: true });
        assert!(matches!(actions.as_slice(), [SupervisorAction::Stop]));
    }
}

#[test]
fn messages_are_delivered_if_the_sender_is_listed() {
    let mut supervisor = connected();
    let mut actions = supervisor.step(inbound("sender-1"));
    assert_eq!(actions.len(), 1);
    match actions.remove(0) {
        SupervisorAction::Deliver(message) => {
            assert_eq!(message.conversation_id, "photon:space-1");
            assert_eq!(message.timestamp.seconds, 1);
            assert!(matches!(message.content, MessageContent::Text(text) if text == "hello"));
        }
        other => panic!("expected a message, got {other:?}"),
    }
    let actions = supervisor.step(inbound("sender-2"));
    match actions.as_slice() {
        [SupervisorAction::Log {
            level: LogLevel::Debug,
            entry: LogEntry::SenderNotListed { sender_id },
        }] => assert_eq!(sender_id, "sender-2"),
        other => panic!("expected an entry, got {other:?}"),
    }
    assert!(supervisor.step(inbound("  ")).is_empty());
    assert_eq!(supervisor.phase(), SupervisorPhase::Connected);
}

#[test]
fn log_entries_keep_their_importance() {
    let mut supervisor = connected();
    let cases = [
        (Some("error"), LogLevel::Error),
        (Some("warn"), LogLevel::Warn),
        (Some("info"), LogLevel::Debug),
        (Some("ERROR"), LogLevel::Debug),
        (None, LogLevel::Debug),
    ];
    for (name, expected) in cases {
        let event = SidecarEvent::Log {
            level: name.map(|text| text.to_string()),
            message: "entry".to_string(),
        };
        let actions = supervisor.step(report(event));
        match actions.as_slice() {
            [SupervisorAction::Log { level, entry: LogEntry::SidecarLog { message } }] => {
                assert_eq!(*level, expected);
                assert_eq!(message, "entry");
            }
            other => panic!("expected an entry, got {other:?}"),
        }
    }
}

#[test]
fn ready_sidecars_are_logged_with_their_key() {
    let mut supervisor = connected();
    for key in [None, Some("photon:support".to_string())] {
        let actions = supervisor.step(report(SidecarEvent::Ready { adapter_key: key.clone() }));
        match actions.as_slice() {
            [SupervisorAction::Log {
                level: LogLevel::Info,
                entry: LogEntry::Ready { adapter_key },
            }] => assert_eq!(*adapter_key, key),
            other => panic!("expected an entry, got {other:?}"),
        }
    }
    assert_eq!(supervisor.phase(), SupervisorPhase::Connected);
}

#[test]
fn lines_without_a_report_are_passed_over() {
    let mut supervisor = connected();
    send(&mut supervisor, "a", 1);
    for line in ["", " \t", "\u{3000}"] {
        let actions = supervisor.step(SupervisorEvent::LineRead {
            line: line.to_string(),
            report: Err("EOF while parsing".to_string()),
        });
        assert!(actions.is_empty());
    }
    let actions = supervisor.step(SupervisorEvent::LineRead {
        line: "oops".to_string(),
        report: Err("expected value".to_string()),
    });
    match actions.as_slice() {
        [SupervisorAction::Log {
            level: LogLevel::Warn,
            entry: LogEntry::UnreadableLine { line, error },
        }] => {
            assert_eq!(line, "oops");
            assert_eq!(error, "expected value");
        }
        other => panic!("expected an entry, got {other:?}"),
    }
    assert_eq!(supervisor.phase(), SupervisorPhase::Connected);
    let actions = supervisor.step(response("a", true, None));
    assert_eq!(replies(&actions), vec![(1, None)]);
}

#[test]
fn a_caller_whose_id_is_used_again_is_given_up() {
    let mut supervisor = connected();
    send(&mut supervisor, "a", 1);
    send(&mut supervisor, "b", 2);
    supervisor.step(command("a", 3));
    let actions = supervisor.step(not_written("x"));
    assert_eq!(actions.len(), 1);
    assert_eq!(replies(&actions).len(), 1);
    let actions = send(&mut supervisor, "a", 4);
    assert!(matches!(actions.as_slice(), [SupervisorAction::Abandon { slot: 1 }]));
    let actions = supervisor.step(response("a", true, None));
    assert_eq!(replies(&actions), vec![(4, None)]);
    let actions = supervisor.step(SupervisorEvent::OutputEnded);
    assert_eq!(
        replies(&actions),
        vec![(2, Some("photon sidecar disconnected before responding"))]
    );
}

#[test]
fn waits_start_over_after_every_start() {
    let mut supervisor = fresh();
    for expected in [2, 4, 8] {
        supervisor.step(SupervisorEvent::ShutdownPolled { requested: false });
        let actions = supervisor.step(SupervisorEvent::SpawnFailed);
        assert_eq!(slept(&actions), Some(expected));
    }
    supervisor.step(SupervisorEvent::ShutdownPolled { requested: false });
    let actions =
        supervisor.step(SupervisorEvent::Spawned { stdin: true, stdout: false, stderr: true });
    assert_eq!(slept(&actions), Some(2));
    for expected in [2, 4, 8, 16, 30, 30] {
        supervisor.step(SupervisorEvent::ShutdownPolled { requested: false });
        let actions = supervisor.step(SupervisorEvent::SpawnFailed);
        assert_eq!(slept(&actions), Some(expected));
    }
    supervisor.step(SupervisorEvent::ShutdownPolled { requested: false });
    supervisor.step(SupervisorEvent::Spawned { stdin: true, stdout: true, stderr: true });
    supervisor.step(SupervisorEvent::InboundClosed);
    let actions = supervisor.step(SupervisorEvent::ShutdownPolled { requested: false });
    assert_eq!(slept(&actions), Some(2));
    supervisor.step(SupervisorEvent::ShutdownPolled { requested: false });
    let actions = supervisor.step(SupervisorEvent::SpawnFailed);
    assert_eq!(slept(&actions), Some(4));
}

#[test]
fn events_of_another_phase_are_ignored() {
    let mut supervisor = fresh();
    assert!(supervisor.step(inbound("sender-1")).is_empty());
    assert!(supervisor.step(SupervisorEvent::SpawnFailed).is_empty());
    assert_eq!(supervisor.phase(), SupervisorPhase::Polling);
    let mut supervisor = connected();
    assert!(supervisor.step(SupervisorEvent::SpawnFailed).is_empty());
    assert_eq!(supervisor.phase(), SupervisorPhase::Connected);
}
