use photon::allow_list::AllowList;
use photon::clock::{arrival_of, arrival_time_at, Timestamp};
use photon::inbound::{apply_runtime_adapter_to_conversation_id, convert_inbound_at};
use photon::message::{InboundMessage, MessageContent};
use photon::sidecar::{SidecarInboundAttachment, SidecarInboundPayload};
use photon::PhotonAdapter;

fn everyone() -> AllowList {
    AllowList::new(Vec::new())
}

fn plain_payload() -> SidecarInboundPayload {
    SidecarInboundPayload {
        space_id: "space-123".to_string(),
        message_id: "msg-456".to_string(),
        sender_id: "sender-1".to_string(),
        sender_display_name: None,
        text: "hello".to_string(),
        timestamp: None,
        mentions_or_replies_to_bot: false,
        is_dm: false,
        space_name: None,
        server_name: None,
        attachments: Vec::new(),
    }
}

fn attachment(url: Option<&str>, data_base64: Option<&str>) -> SidecarInboundAttachment {
    SidecarInboundAttachment {
        filename: "pic.png".to_string(),
        mime_type: "image/png".to_string(),
        url: url.map(|text| text.to_string()),
        data_base64: data_base64.map(|text| text.to_string()),
        size_bytes: Some(5),
    }
}

fn metadata_text<'a>(message: &'a InboundMessage, key: &str) -> Option<&'a str> {
    message.metadata.get(key).and_then(|value| value.as_str())
}

#[test]
fn convert_inbound_sets_runtime_adapter_and_metadata() {
    let payload = SidecarInboundPayload {
        space_id: "space-123".to_string(),
        message_id: "msg-456".to_string(),
        sender_id: "sender-1".to_string(),
        sender_display_name: Some("Alice".to_string()),
        text: "hello".to_string(),
        timestamp: Some("2026-01-01T00:00:00Z".to_string()),
        mentions_or_replies_to_bot: true,
        is_dm: true,
        space_name: Some("Support".to_string()),
        server_name: Some("iMessage".to_string()),
        attachments: Vec::new(),
    };

    let inbound =
        PhotonAdapter::convert_inbound("photon:support", &AllowList::new(Vec::new()), payload)
            .expect("inbound should parse");

    assert_eq!(inbound.source, "photon");
    assert_eq!(inbound.adapter.as_deref(), Some("photon:support"));
    assert_eq!(inbound.conversation_id, "photon:support:space-123");
    assert_eq!(
        inbound
            .metadata
            .get("photon_mentions_or_replies_to_bot")
            .and_then(|value| value.as_bool()),
        Some(true)
    );
    assert_eq!(
        inbound
            .metadata
            .get("photon_is_dm")
            .and_then(|value| value.as_bool()),
        Some(true)
    );

    assert_eq!(inbound.id, "msg-456");
    assert_eq!(inbound.sender_id, "sender-1");
    assert_eq!(inbound.agent_id, None);
    assert_eq!(inbound.formatted_author.as_deref(), Some("Alice"));
    assert_eq!(metadata_text(&inbound, "photon_space_id"), Some("space-123"));
    assert_eq!(metadata_text(&inbound, "photon_message_id"), Some("msg-456"));
    assert_eq!(metadata_text(&inbound, "photon_sender_id"), Some("sender-1"));
    assert_eq!(metadata_text(&inbound, "message_id"), Some("msg-456"));
    assert_eq!(metadata_text(&inbound, "channel_name"), Some("Support"));
    assert_eq!(metadata_text(&inbound, "server_name"), Some("iMessage"));
    assert_eq!(metadata_text(&inbound, "sender_display_name"), Some("Alice"));
    assert_eq!(inbound.metadata.len(), 9);
}

#[test]
fn convert_inbound_inline_base64_becomes_data_url_attachment() {
    let payload = SidecarInboundPayload {
        space_id: "space-123".to_string(),
        message_id: "msg-456".to_string(),
        sender_id: "sender-1".to_string(),
        sender_display_name: None,
        text: "check this".to_string(),
        timestamp: None,
        mentions_or_replies_to_bot: false,
        is_dm: true,
        space_name: None,
        server_name: None,
        attachments: vec![SidecarInboundAttachment {
            filename: "pic.png".to_string(),
            mime_type: "image/png".to_string(),
            url: None,
            data_base64: Some("aGVsbG8=".to_string()),
            size_bytes: Some(5),
        }],
    };

    let inbound = PhotonAdapter::convert_inbound("photon", &AllowList::new(Vec::new()), payload)
        .expect("inbound should parse");

    match inbound.content {
        MessageContent::Media { text, attachments } => {
            assert_eq!(text.as_deref(), Some("check this"));
            assert_eq!(attachments.len(), 1);
            assert!(attachments[0]
                .url
                .starts_with("data:image/png;base64,aGVsbG8="));
        }
        other => panic!("expected Media, got {other:?}"),
    }
}

#[test]
fn declared_time_is_taken_over() {
    let mut payload = plain_payload();
    payload.timestamp = Some("2026-01-01T01:30:00.25+01:30".to_string());
    let inbound = PhotonAdapter::convert_inbound("photon", &everyone(), payload).unwrap();
    assert_eq!(
        inbound.timestamp,
        Timestamp { seconds: 1767225600, nanos: 250_000_000 }
    );
}

#[test]
fn missing_or_malformed_time_becomes_the_present() {
    for declared in [None, Some("yesterday".to_string())] {
        let mut payload = plain_payload();
        payload.timestamp = declared;
        let before = chrono::Utc::now().timestamp();
        let inbound = PhotonAdapter::convert_inbound("photon", &everyone(), payload).unwrap();
        let after = chrono::Utc::now().timestamp();
        assert!(before <= inbound.timestamp.seconds && inbound.timestamp.seconds <= after);
    }
}

#[test]
fn clock_counts_without_a_valid_time() {
    let now = Timestamp { seconds: 7, nanos: 9 };
    for declared in [None, Some("yesterday".to_string())] {
        assert_eq!(arrival_time_at(&declared, now), now);
        let mut payload = plain_payload();
        payload.timestamp = declared;
        let inbound = convert_inbound_at("photon", &everyone(), payload, now).unwrap();
        assert_eq!(inbound.timestamp, now);
    }
    assert_eq!(arrival_of(None, now), now);
    let midnight = Timestamp { seconds: 1767225600, nanos: 0 };
    assert_eq!(arrival_of(Some((1767225600, 0)), now), midnight);
    let declared = Some("2026-01-01T02:00:00+02:00".to_string());
    assert_eq!(arrival_time_at(&declared, now), midnight);
    let mut payload = plain_payload();
    payload.timestamp = declared;
    let inbound = convert_inbound_at("photon", &everyone(), payload, now).unwrap();
    assert_eq!(inbound.timestamp, midnight);
}

#[test]
fn blank_space_or_sender_is_dropped() {
    let mut payload = plain_payload();
    payload.space_id = " \t".to_string();
    assert!(PhotonAdapter::convert_inbound("photon", &everyone(), payload).is_none());
    let mut payload = plain_payload();
    payload.sender_id = "\u{3000}\n".to_string();
    assert!(PhotonAdapter::convert_inbound("photon", &everyone(), payload).is_none());
}

#[test]
fn allow_list_decides_on_senders() {
    let list = AllowList::new(vec!["  sender-1 ".to_string(), "".to_string()]);
    assert!(PhotonAdapter::convert_inbound("photon", &list, plain_payload()).is_some());
    let mut payload = plain_payload();
    payload.sender_id = "sender-2".to_string();
    assert!(PhotonAdapter::convert_inbound("photon", &list, payload).is_none());
}

#[test]
fn allow_list_is_trimmed_and_holds_nothing_twice() {
    let list = AllowList::new(vec![
        " b ".to_string(),
        "a".to_string(),
        "   ".to_string(),
        "b".to_string(),
    ]);
    assert_eq!(list.to_csv(), "b,a");
    assert!(list.contains("a"));
    assert!(!list.contains(" b "));
    assert!(!list.is_empty());
    assert!(!list.admits("c"));
    assert_eq!(list.clone().to_csv(), "b,a");
    assert!(AllowList::new(vec![" ".to_string()]).is_empty());
    assert!(AllowList::new(vec![" ".to_string()]).admits("anybody"));
}

#[test]
fn attachments_without_contents_are_left_out() {
    let mut payload = plain_payload();
    payload.text = String::new();
    payload.attachments = vec![
        attachment(None, None),
        attachment(Some("  "), Some(" ")),
        attachment(Some(" https://example.com/a "), Some("")),
        attachment(Some("https://example.com/b"), Some(" YQ== ")),
    ];
    let inbound = PhotonAdapter::convert_inbound("photon", &everyone(), payload).unwrap();
    match inbound.content {
        MessageContent::Media { text, attachments } => {
            assert_eq!(text, None);
            assert_eq!(attachments.len(), 2);
            assert_eq!(attachments[0].url, "https://example.com/a");
            assert_eq!(attachments[1].url, "data:image/png;base64,YQ==");
            assert_eq!(attachments[1].filename, "pic.png");
            assert_eq!(attachments[1].size_bytes, Some(5));
            assert!(attachments[1].auth_header.is_none());
            assert!(attachments[1].pre_saved_id.is_none());
        }
        other => panic!("expected Media, got {other:?}"),
    }
}

#[test]
fn message_without_usable_attachments_is_text() {
    let mut payload = plain_payload();
    payload.attachments = vec![attachment(None, None)];
    let inbound = PhotonAdapter::convert_inbound("photon", &everyone(), payload).unwrap();
    match inbound.content {
        MessageContent::Text(text) => assert_eq!(text, "hello"),
        other => panic!("expected Text, got {other:?}"),
    }
}

#[test]
fn empty_names_are_not_metadata() {
    let mut payload = plain_payload();
    payload.space_name = Some(String::new());
    payload.server_name = Some(String::new());
    payload.sender_display_name = Some(String::new());
    let inbound = PhotonAdapter::convert_inbound("photon", &everyone(), payload).unwrap();
    assert!(inbound.metadata.get("channel_name").is_none());
    assert!(inbound.metadata.get("server_name").is_none());
    assert!(inbound.metadata.get("sender_display_name").is_none());
    assert_eq!(inbound.formatted_author.as_deref(), Some(""));
}

#[test]
fn conversation_id_carries_the_adapter() {
    let rekeyed = |key: &str, base: &str| {
        apply_runtime_adapter_to_conversation_id(key, base.to_string())
    };
    assert_eq!(rekeyed("photon", "photon:a:b"), "photon:a:b");
    assert_eq!(rekeyed("photon:work", "photon:a"), "photon:work:a");
    assert_eq!(rekeyed("photon", "plain"), "plain");
}
