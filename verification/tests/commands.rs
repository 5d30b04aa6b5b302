use photon::command::{serialize_command_line, SidecarCommandEnvelope, SidecarCommandKind};
use photon::error::PhotonError;
use photon::json::{JsonMember, JsonValue};

fn member(name: &str, value: Option<&str>) -> JsonMember {
    JsonMember { name: name.to_string(), value: value.map(|text| text.to_string()) }
}

fn line(id: &str, command: SidecarCommandKind, payload: JsonValue) -> String {
    serialize_command_line(&SidecarCommandEnvelope { id: id.to_string(), command, payload })
        .expect("command should serialize")
}

#[test]
fn serialize_command_line_emits_command_and_payload() {
    let line = serialize_command_line(&SidecarCommandEnvelope {
        id: "abc".to_string(),
        command: SidecarCommandKind::SendText,
        payload: JsonValue::Object(vec![
            member("space_id", Some("space-1")),
            member("text", Some("hello")),
        ]),
    })
    .expect("command should serialize");

    let value: serde_json::Value =
        serde_json::from_str(line.as_str()).expect("serialized line should be valid json");
    assert_eq!(value.get("id").and_then(|item| item.as_str()), Some("abc"));
    assert_eq!(
        value.get("command").and_then(|item| item.as_str()),
        Some("send_text")
    );
    assert_eq!(
        value
            .get("payload")
            .and_then(|item| item.get("space_id"))
            .and_then(|item| item.as_str()),
        Some("space-1")
    );
}

#[test]
fn command_line_is_exact() {
    let payload = JsonValue::Object(vec![
        member("space_id", Some("space-1")),
        member("text", Some("hello")),
    ]);
    assert_eq!(
        line("abc", SidecarCommandKind::SendText, payload),
        r#"{"id":"abc","command":"send_text","payload":{"space_id":"space-1","text":"hello"}}"#
    );
    assert_eq!(
        line("", SidecarCommandKind::Health, JsonValue::Null),
        r#"{"id":"","command":"health","payload":null}"#
    );
    assert_eq!(
        line("x", SidecarCommandKind::Shutdown, JsonValue::Object(Vec::new())),
        r#"{"id":"x","command":"shutdown","payload":{}}"#
    );
    assert_eq!(
        line("x", SidecarCommandKind::Health, JsonValue::Bool(true)),
        r#"{"id":"x","command":"health","payload":true}"#
    );
    assert_eq!(
        line("x", SidecarCommandKind::Health, JsonValue::Bool(false)),
        r#"{"id":"x","command":"health","payload":false}"#
    );
    assert_eq!(
        line("x", SidecarCommandKind::Health, JsonValue::Text("y".to_string())),
        r#"{"id":"x","command":"health","payload":"y"}"#
    );
}

#[test]
fn object_members_are_sorted_and_later_ones_count() {
    let payload = JsonValue::Object(vec![
        member("b", Some("1")),
        member("ab", None),
        member("a", Some("2")),
        member("b", Some("3")),
        member("\u{e9}", None),
        member("z", None),
    ]);
    assert_eq!(
        line("x", SidecarCommandKind::SendFile, payload),
        "{\"id\":\"x\",\"command\":\"send_file\",\"payload\":{\"a\":\"2\",\"ab\":null,\"b\":\"3\",\"z\":null,\"\u{e9}\":null}}"
    );
}

#[test]
fn special_characters_are_escaped() {
    let text = "\"\\/\u{8}\t\n\u{b}\u{c}\r\u{0}\u{1f}\u{7f}\u{e9}\u{1f600}\u{2028}";
    let expected = "\\\"\\\\/\\b\\t\\n\\u000b\\f\\r\\u0000\\u001f\u{7f}\u{e9}\u{1f600}\u{2028}";
    let written = line(text, SidecarCommandKind::Health, JsonValue::Null);
    assert_eq!(
        written,
        format!("{{\"id\":\"{expected}\",\"command\":\"health\",\"payload\":null}}")
    );
    let read: serde_json::Value = serde_json::from_str(&written).unwrap();
    assert_eq!(read["id"].as_str(), Some(text));
}

#[test]
fn command_line_is_one_line() {
    let payload = JsonValue::Object(vec![member("text", Some("a\nb\r\u{0}c"))]);
    let written = line("i\nd", SidecarCommandKind::SendText, payload);
    assert!(written.chars().all(|c| c >= ' '));
    assert_eq!(written.lines().count(), 1);
}

#[test]
fn different_commands_have_different_lines() {
    let a = line("a", SidecarCommandKind::Health, JsonValue::Null);
    let b = line("b", SidecarCommandKind::Health, JsonValue::Null);
    let c = line("a", SidecarCommandKind::Shutdown, JsonValue::Null);
    let d = line("a", SidecarCommandKind::Health, JsonValue::Text("null".to_string()));
    assert_ne!(a, b);
    assert_ne!(a, c);
    assert_ne!(a, d);
}

#[test]
fn command_names_are_those_of_the_protocol() {
    let names: Vec<String> = [
        SidecarCommandKind::SendText,
        SidecarCommandKind::SendReply,
        SidecarCommandKind::SendFile,
        SidecarCommandKind::AddReaction,
        SidecarCommandKind::RemoveReaction,
        SidecarCommandKind::StartTyping,
        SidecarCommandKind::StopTyping,
        SidecarCommandKind::Health,
        SidecarCommandKind::Shutdown,
    ]
    .iter()
    .map(|kind| kind.name())
    .collect();
    assert_eq!(
        names,
        vec![
            "send_text",
            "send_reply",
            "send_file",
            "add_reaction",
            "remove_reaction",
            "start_typing",
            "stop_typing",
            "health",
            "shutdown",
        ]
    );
}

#[test]
fn errors_say_what_went_wrong() {
    let key = || "photon:support".to_string();
    let detail = || "broken pipe".to_string();
    assert_eq!(
        PhotonError::MissingSpaceId.message(),
        "missing photon_space_id in metadata"
    );
    assert_eq!(
        PhotonError::EmptyBroadcastTarget.message(),
        "photon broadcast target can't be empty"
    );
    assert_eq!(
        PhotonError::Serialization.message(),
        "failed to serialize photon sidecar command"
    );
    assert_eq!(
        PhotonError::NotRunning { adapter: key() }.message(),
        "photon sidecar is not running for adapter 'photon:support'"
    );
    assert_eq!(
        PhotonError::SendFailed { adapter: key(), detail: detail() }.message(),
        "failed to send command to photon sidecar for 'photon:support': broken pipe"
    );
    assert_eq!(PhotonError::Rejected { reason: detail() }.message(), "broken pipe");
    assert_eq!(
        PhotonError::ResponseDropped { adapter: key(), detail: detail() }.message(),
        "photon sidecar response channel dropped for 'photon:support': broken pipe"
    );
    assert_eq!(
        PhotonError::TimedOut { adapter: key() }.message(),
        "photon sidecar command timed out for 'photon:support'"
    );
}

#[test]
fn order_of_members_does_not_show() {
    let one = JsonValue::Object(vec![
        member("text", Some("old")),
        member("space_id", Some("s")),
        member("text", Some("new")),
    ]);
    let other = JsonValue::Object(vec![
        member("space_id", Some("s")),
        member("text", Some("new")),
    ]);
    assert_eq!(
        line("a", SidecarCommandKind::SendText, one),
        line("a", SidecarCommandKind::SendText, other)
    );
}

#[test]
fn command_line_reads_back() {
    let payload = JsonValue::Object(vec![
        member("text", Some("a\n\"b\"\u{1}")),
        member("caption", None),
    ]);
    let written = line("i\\d", SidecarCommandKind::SendFile, payload);
    let read: serde_json::Value = serde_json::from_str(&written).unwrap();
    let keys: Vec<&String> = read.as_object().unwrap().keys().collect();
    assert_eq!(keys, vec!["command", "id", "payload"]);
    assert_eq!(read["id"].as_str(), Some("i\\d"));
    assert_eq!(read["command"].as_str(), Some("send_file"));
    assert_eq!(read["payload"]["text"].as_str(), Some("a\n\"b\"\u{1}"));
    assert!(read["payload"]["caption"].is_null());
    assert_eq!(read["payload"].as_object().unwrap().len(), 2);
}
