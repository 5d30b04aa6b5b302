use photon::adapter::CommandReply;
use photon::allow_list::AllowList;
use photon::command::{SidecarCommandEnvelope, SidecarCommandKind};
use photon::error::PhotonError;
use photon::json::JsonValue;
use photon::launch::WorkingDir;
use photon::message::{InboundMessage, OutboundResponse, StatusUpdate};
use photon::sidecar::SidecarInboundPayload;
use photon::string_map::StringMap;
use photon::PhotonAdapter;
use std::path::PathBuf;

fn running_adapter() -> PhotonAdapter {
    let mut adapter =
        PhotonAdapter::new("photon:support", "project", "secret", None, None, Vec::new());
    adapter.start();
    adapter
}

fn message(message_id: &str, mentions_or_replies_to_bot: bool) -> InboundMessage {
    let payload = SidecarInboundPayload {
        space_id: "space:1".to_string(),
        message_id: message_id.to_string(),
        sender_id: "sender-1".to_string(),
        sender_display_name: None,
        text: "hello".to_string(),
        timestamp: None,
        mentions_or_replies_to_bot,
        is_dm: true,
        space_name: None,
        server_name: None,
        attachments: Vec::new(),
    };
    PhotonAdapter::convert_inbound("photon:support", &AllowList::new(Vec::new()), payload).unwrap()
}

fn bare_message(conversation_id: &str) -> InboundMessage {
    let mut bare = message("m1", false);
    bare.conversation_id = conversation_id.to_string();
    bare.metadata = StringMap::new();
    bare
}

/// The members of a payload, as JSON would show them.
fn fields(envelope: &SidecarCommandEnvelope) -> Vec<(&str, Option<&str>)> {
    match &envelope.payload {
        JsonValue::Object(members) => members
            .iter()
            .map(|member| (member.name.as_str(), member.value.as_deref()))
            .collect(),
        other => panic!("expected an object, got {other:?}"),
    }
}

fn sent(
    adapter: &mut PhotonAdapter,
    message: &InboundMessage,
    response: OutboundResponse,
) -> SidecarCommandEnvelope {
    adapter
        .respond(message, response)
        .expect("response should be accepted")
        .expect("a command should be sent")
}

fn text(text: &str) -> OutboundResponse {
    OutboundResponse::Text(text.to_string())
}

#[test]
fn text_goes_back_to_the_space() {
    let mut adapter = running_adapter();
    let envelope = sent(&mut adapter, &message("m1", false), text("hi"));
    assert_eq!(envelope.command, SidecarCommandKind::SendText);
    assert_eq!(
        fields(&envelope),
        vec![("space_id", Some("space:1")), ("text", Some("hi"))]
    );
}

#[test]
fn text_is_threaded_when_the_bot_is_mentioned() {
    let mut adapter = running_adapter();
    let envelope = sent(&mut adapter, &message("m1", true), text("hi"));
    assert_eq!(envelope.command, SidecarCommandKind::SendReply);
    assert_eq!(
        fields(&envelope),
        vec![
            ("reply_to_message_id", Some("m1")),
            ("space_id", Some("space:1")),
            ("text", Some("hi")),
        ]
    );
}

#[test]
fn thread_reply_is_always_threaded_if_there_is_an_id() {
    let mut adapter = running_adapter();
    let reply = || OutboundResponse::ThreadReply { text: "hi".to_string() };
    let envelope = sent(&mut adapter, &message("m1", false), reply());
    assert_eq!(envelope.command, SidecarCommandKind::SendReply);
    let envelope = sent(&mut adapter, &message("  ", true), reply());
    assert_eq!(envelope.command, SidecarCommandKind::SendText);
}

#[test]
fn other_texts_are_sent_as_text() {
    let mut adapter = running_adapter();
    for response in [
        OutboundResponse::RichMessage { text: "hi".to_string() },
        OutboundResponse::Ephemeral { text: "hi".to_string() },
        OutboundResponse::ScheduledMessage { text: "hi".to_string() },
    ] {
        let envelope = sent(&mut adapter, &message("m1", false), response);
        assert_eq!(envelope.command, SidecarCommandKind::SendText);
    }
}

#[test]
fn blank_text_is_not_sent() {
    let mut adapter = running_adapter();
    assert!(matches!(
        adapter.respond(&message("m1", true), text(" \n\t")),
        Ok(None)
    ));
    let reply = OutboundResponse::ThreadReply { text: "\u{a0}".to_string() };
    assert!(matches!(adapter.respond(&message("m1", true), reply), Ok(None)));
    assert!(matches!(
        adapter.send_photon_text(&bare_message(""), "", true),
        Ok(None)
    ));
}

#[test]
fn send_photon_text_can_be_threaded() {
    let adapter = running_adapter();
    let envelope = adapter
        .send_photon_text(&message("m1", false), "hi", true)
        .unwrap()
        .unwrap();
    assert_eq!(envelope.command, SidecarCommandKind::SendReply);
    let envelope = adapter
        .send_photon_text(&message("m1", false), "hi", false)
        .unwrap()
        .unwrap();
    assert_eq!(envelope.command, SidecarCommandKind::SendText);
}

#[test]
fn file_is_sent_as_base64() {
    let mut adapter = running_adapter();
    let file = |caption: Option<String>| OutboundResponse::File {
        filename: "a.txt".to_string(),
        data: b"hello".to_vec(),
        mime_type: "text/plain".to_string(),
        caption,
    };
    let envelope = sent(&mut adapter, &message("m1", false), file(None));
    assert_eq!(envelope.command, SidecarCommandKind::SendFile);
    assert_eq!(
        fields(&envelope),
        vec![
            ("caption", None),
            ("data_base64", Some("aGVsbG8=")),
            ("filename", Some("a.txt")),
            ("mime_type", Some("text/plain")),
            ("space_id", Some("space:1")),
        ]
    );
    let envelope = sent(&mut adapter, &message("m1", true), file(Some("see".to_string())));
    assert_eq!(
        fields(&envelope),
        vec![
            ("caption", Some("see")),
            ("data_base64", Some("aGVsbG8=")),
            ("filename", Some("a.txt")),
            ("mime_type", Some("text/plain")),
            ("reply_to_message_id", Some("m1")),
            ("space_id", Some("space:1")),
        ]
    );
}

#[test]
fn base64_covers_every_remainder_and_the_whole_alphabet() {
    let adapter = running_adapter();
    let encoded = |data: Vec<u8>| {
        let file = OutboundResponse::File {
            filename: String::new(),
            data,
            mime_type: String::new(),
            caption: None,
        };
        let envelope = adapter.broadcast("space", file).unwrap().unwrap();
        fields(&envelope)[1].1.unwrap().to_string()
    };
    assert_eq!(encoded(Vec::new()), "");
    assert_eq!(encoded(b"f".to_vec()), "Zg==");
    assert_eq!(encoded(b"fo".to_vec()), "Zm8=");
    assert_eq!(encoded(b"foo".to_vec()), "Zm9v");
    assert_eq!(encoded(b"foob".to_vec()), "Zm9vYg==");
    assert_eq!(encoded(vec![0xfb, 0xff, 0xbf]), "+/+/");
    let all = vec![
        0x00, 0x10, 0x83, 0x10, 0x51, 0x87, 0x20, 0x92, 0x8b, 0x30, 0xd3, 0x8f, 0x41, 0x14, 0x93,
        0x51, 0x55, 0x97, 0x61, 0x96, 0x9b, 0x71, 0xd7, 0x9f, 0x82, 0x18, 0xa3, 0x92, 0x59, 0xa7,
        0xa2, 0x9a, 0xab, 0xb2, 0xdb, 0xaf, 0xc3, 0x1c, 0xb3, 0xd3, 0x5d, 0xb7, 0xe3, 0x9e, 0xbb,
        0xf3, 0xdf, 0xbf,
    ];
    assert_eq!(
        encoded(all),
        "ABCDEFGHIJKLMNOPQRSTUVWXYZabcdefghijklmnopqrstuvwxyz0123456789+/"
    );
}

#[test]
fn reactions_need_an_id() {
    let mut adapter = running_adapter();
    let thumb = || "thumbs-up".to_string();
    let envelope = sent(
        &mut adapter,
        &message("m1", false),
        OutboundResponse::Reaction(thumb()),
    );
    assert_eq!(envelope.command, SidecarCommandKind::AddReaction);
    assert_eq!(
        fields(&envelope),
        vec![
            ("emoji", Some("thumbs-up")),
            ("message_id", Some("m1")),
            ("space_id", Some("space:1")),
        ]
    );
    let envelope = sent(
        &mut adapter,
        &message("m1", false),
        OutboundResponse::RemoveReaction(thumb()),
    );
    assert_eq!(envelope.command, SidecarCommandKind::RemoveReaction);
    assert!(matches!(
        adapter.respond(&bare_message(""), OutboundResponse::Reaction(thumb())),
        Ok(None)
    ));
}

#[test]
fn status_shows_typing() {
    let mut adapter = running_adapter();
    let envelope = sent(
        &mut adapter,
        &message("m1", false),
        OutboundResponse::Status(StatusUpdate::Thinking),
    );
    assert_eq!(envelope.command, SidecarCommandKind::StartTyping);
    assert_eq!(fields(&envelope), vec![("space_id", Some("space:1"))]);
    let envelope = adapter
        .send_status(&message("m1", false), StatusUpdate::Other)
        .unwrap()
        .unwrap();
    assert_eq!(envelope.command, SidecarCommandKind::StopTyping);
}

#[test]
fn stream_is_sent_when_it_ends() {
    let mut adapter = running_adapter();
    let first = message("m1", false);
    let mut second = message("m2", false);
    second.conversation_id = "photon:support:elsewhere".to_string();
    let chunk = |part: &str| OutboundResponse::StreamChunk(part.to_string());
    assert!(matches!(adapter.respond(&first, OutboundResponse::StreamStart), Ok(None)));
    assert!(matches!(adapter.respond(&first, chunk("he")), Ok(None)));
    assert!(matches!(adapter.respond(&second, chunk("other")), Ok(None)));
    assert!(matches!(adapter.respond(&first, chunk("llo")), Ok(None)));
    let envelope = sent(&mut adapter, &first, OutboundResponse::StreamEnd);
    assert_eq!(
        fields(&envelope),
        vec![("space_id", Some("space:1")), ("text", Some("hello"))]
    );
    assert!(matches!(adapter.respond(&first, OutboundResponse::StreamEnd), Ok(None)));
    let envelope = sent(&mut adapter, &second, OutboundResponse::StreamEnd);
    assert_eq!(fields(&envelope)[1], ("text", Some("other")));
}

#[test]
fn a_new_stream_forgets_the_old_one() {
    let mut adapter = running_adapter();
    let inbound = message("m1", false);
    let chunk = |part: &str| OutboundResponse::StreamChunk(part.to_string());
    adapter.respond(&inbound, chunk("old")).unwrap();
    adapter.respond(&inbound, OutboundResponse::StreamStart).unwrap();
    adapter.respond(&inbound, chunk("new")).unwrap();
    let envelope = sent(&mut adapter, &inbound, OutboundResponse::StreamEnd);
    assert_eq!(fields(&envelope)[1], ("text", Some("new")));
}

#[test]
fn space_falls_back_to_the_conversation_id() {
    let mut adapter = running_adapter();
    let bare = bare_message("photon:support:space-9");
    let envelope = sent(&mut adapter, &bare, text("hi"));
    assert_eq!(fields(&envelope)[0], ("space_id", Some("space-9")));
    assert_eq!(adapter.extract_space_id(&bare_message("space-9")).unwrap(), "space-9");
    assert_eq!(adapter.extract_message_id(&bare), None);
    assert!(!adapter.inbound_expects_inline_reply_thread(&bare));
}

#[test]
fn message_without_a_space_is_an_error() {
    let mut adapter = running_adapter();
    for conversation_id in ["", "photon:", "photon: "] {
        let result = adapter.respond(&bare_message(conversation_id), text("hi"));
        assert!(matches!(result, Err(PhotonError::MissingSpaceId)));
        let result = adapter.send_status(&bare_message(conversation_id), StatusUpdate::Thinking);
        assert!(matches!(result, Err(PhotonError::MissingSpaceId)));
    }
    let mut blank = bare_message("photon:space-9");
    blank
        .metadata
        .insert("photon_space_id".to_string(), JsonValue::Text(" ".to_string()));
    assert!(adapter.extract_space_id(&blank).is_err());
}

#[test]
fn metadata_of_another_type_is_ignored() {
    let adapter = running_adapter();
    let mut odd = bare_message("photon:space-9");
    odd.metadata.insert("photon_space_id".to_string(), JsonValue::Bool(true));
    odd.metadata.insert("photon_message_id".to_string(), JsonValue::Null);
    odd.metadata.insert(
        "photon_mentions_or_replies_to_bot".to_string(),
        JsonValue::Text("true".to_string()),
    );
    assert_eq!(adapter.extract_space_id(&odd).unwrap(), "space-9");
    assert_eq!(adapter.extract_message_id(&odd), None);
    assert!(!adapter.inbound_expects_inline_reply_thread(&odd));
}

#[test]
fn broadcast_goes_to_the_trimmed_target() {
    let adapter = running_adapter();
    let reply = OutboundResponse::ThreadReply { text: " ".to_string() };
    let envelope = adapter.broadcast(" space-7\n", reply).unwrap().unwrap();
    assert_eq!(envelope.command, SidecarCommandKind::SendText);
    assert_eq!(
        fields(&envelope),
        vec![("space_id", Some("space-7")), ("text", Some(" "))]
    );
    assert!(matches!(
        adapter.broadcast(" \t", text("hi")),
        Err(PhotonError::EmptyBroadcastTarget)
    ));
    for response in [
        OutboundResponse::Reaction("x".to_string()),
        OutboundResponse::RemoveReaction("x".to_string()),
        OutboundResponse::StreamStart,
        OutboundResponse::StreamChunk("x".to_string()),
        OutboundResponse::StreamEnd,
        OutboundResponse::Status(StatusUpdate::Thinking),
    ] {
        assert!(matches!(adapter.broadcast("space-7", response), Ok(None)));
    }
}

#[test]
fn commands_need_a_running_sidecar() {
    let mut adapter =
        PhotonAdapter::new("photon".to_string(), "project", "secret", None, None, Vec::new());
    match adapter.health_check() {
        Err(PhotonError::NotRunning { adapter }) => assert_eq!(adapter, "photon"),
        other => panic!("expected NotRunning, got {other:?}"),
    }
    adapter.start();
    let envelope = adapter.health_check().unwrap();
    assert_eq!(envelope.command, SidecarCommandKind::Health);
    assert!(matches!(envelope.payload, JsonValue::Null));
    let chunk = OutboundResponse::StreamChunk("lost".to_string());
    adapter.respond(&message("m1", false), chunk).unwrap();
    assert!(adapter.shutdown());
    assert!(!adapter.shutdown());
    assert!(matches!(
        adapter.respond(&message("m1", false), text("hi")),
        Err(PhotonError::NotRunning { .. })
    ));
    assert!(matches!(
        adapter.respond(&message("m1", false), OutboundResponse::StreamEnd),
        Ok(None)
    ));
}

#[test]
fn command_ids_are_random_uuids() {
    let adapter = running_adapter();
    let first = adapter.health_check().unwrap().id;
    let second = adapter.health_check().unwrap().id;
    assert_ne!(first, second);
    for id in [first, second] {
        assert_eq!(id.len(), 36);
        assert_eq!(uuid::Uuid::parse_str(&id).unwrap().get_version_num(), 4);
        for (i, c) in id.chars().enumerate() {
            match i {
                8 | 13 | 18 | 23 => assert_eq!(c, '-'),
                14 => assert_eq!(c, '4'),
                19 => assert!("89ab".contains(c)),
                _ => assert!("0123456789abcdef".contains(c)),
            }
        }
    }
}

#[test]
fn replies_are_turned_into_results() {
    let adapter = running_adapter();
    assert!(adapter.command_result(CommandReply::Answered(Ok(()))).is_ok());
    let failure = |reply: CommandReply| adapter.command_result(reply).unwrap_err().message();
    assert_eq!(failure(CommandReply::Answered(Err("no".to_string()))), "no");
    assert_eq!(
        failure(CommandReply::SendFailed("closed".to_string())),
        "failed to send command to photon sidecar for 'photon:support': closed"
    );
    assert_eq!(
        failure(CommandReply::Dropped("closed".to_string())),
        "photon sidecar response channel dropped for 'photon:support': closed"
    );
    assert_eq!(
        failure(CommandReply::TimedOut),
        "photon sidecar command timed out for 'photon:support'"
    );
}

#[test]
fn sidecar_is_launched_as_configured() {
    let plain = PhotonAdapter::new("photon", "project", "secret", None, None, Vec::new());
    let launch = plain.launch();
    assert_eq!(launch.program, "bun");
    assert_eq!(launch.args, vec!["run", "start"]);
    assert!(matches!(launch.working_dir, WorkingDir::Bundled("packages/photon-bridge")));
    let env: Vec<(&str, &str)> = launch
        .env
        .iter()
        .map(|var| (var.name.as_str(), var.value.as_str()))
        .collect();
    assert_eq!(
        env,
        vec![
            ("PHOTON_PROJECT_ID", "project"),
            ("PHOTON_PROJECT_SECRET", "secret"),
            ("PHOTON_ADAPTER_KEY", "photon"),
        ]
    );

    let custom = PhotonAdapter::new(
        "photon",
        "project",
        "secret",
        Some("node bridge.js".to_string()),
        Some(PathBuf::from("/srv/bridge")),
        vec![" a ".to_string(), "b".to_string(), "a".to_string()],
    );
    let launch = custom.launch();
    assert_eq!(launch.program, "sh");
    assert_eq!(launch.args, vec!["-lc", "node bridge.js"]);
    match launch.working_dir {
        WorkingDir::Configured(dir) => assert_eq!(dir, &PathBuf::from("/srv/bridge")),
        other => panic!("expected the configured directory, got {other:?}"),
    }
    assert_eq!(launch.env[3].name, "PHOTON_DM_ALLOW_LIST");
    assert_eq!(launch.env[3].value, "a,b");
}

#[test]
fn adapter_has_a_name_and_no_history() {
    let adapter = running_adapter();
    assert_eq!(adapter.name(), "photon:support");
    assert!(adapter.fetch_history(&message("m1", false), 10).is_empty());
}

#[test]
fn requests_carry_the_ids_that_are_drawn() {
    let adapter = running_adapter();
    let ids = ["first", "second"];
    let requests: Vec<SidecarCommandEnvelope> = ids
        .iter()
        .map(|id| {
            adapter
                .send_sidecar_command_as(
                    id.to_string(),
                    SidecarCommandKind::Health,
                    JsonValue::Text(format!("payload of {id}")),
                )
                .unwrap()
        })
        .collect();
    for (request, id) in requests.iter().zip(ids) {
        assert_eq!(request.id, id);
        assert_eq!(request.command, SidecarCommandKind::Health);
        assert_eq!(request.payload.as_str(), Some(format!("payload of {id}").as_str()));
    }
    let one = adapter.send_sidecar_command(SidecarCommandKind::Health, JsonValue::Null).unwrap();
    let other = adapter.send_sidecar_command(SidecarCommandKind::Health, JsonValue::Null).unwrap();
    assert_eq!(one.id.len(), 36);
    assert_ne!(one.id, other.id);
    let mut stopped = running_adapter();
    stopped.shutdown();
    match stopped.send_sidecar_command_as(
        "third".to_string(),
        SidecarCommandKind::Health,
        JsonValue::Null,
    ) {
        Err(PhotonError::NotRunning { adapter }) => assert_eq!(adapter, stopped.name()),
        other => panic!("expected an error, got {other:?}"),
    }
}
