//! The commands that the adapter writes to its sidecar, one JSON object per line.

use crate::error::PhotonError;
use crate::json::{
    is_printable, json_text, law_canonical_values_are_unique, law_json_text_determines_value,
    law_json_text_is_printable, law_same_values_have_one_text, lemma_printable_concat,
    lemma_quoted_prefix_free, lemma_quoted_printable, quoted, same_value, write_json, JsonModel,
    JsonValue,
};
use vstd::prelude::*;

verus! {

/// What a command asks of the sidecar.
#[derive(Clone, Copy, Debug, PartialEq, Eq, Structural)]
pub enum SidecarCommandKind {
    SendText,
    SendReply,
    SendFile,
    AddReaction,
    RemoveReaction,
    StartTyping,
    StopTyping,
    Health,
    Shutdown,
}

/// A command on its way to the sidecar. The answer comes back under its `id`.
#[derive(Debug)]
pub struct SidecarCommandEnvelope {
    pub id: String,
    pub command: SidecarCommandKind,
    pub payload: JsonValue,
}

/// What a `SidecarCommandEnvelope` stands for.
#[verifier::ext_equal]
pub struct EnvelopeModel {
    pub id: Seq<char>,
    pub command: SidecarCommandKind,
    pub payload: JsonModel,
}

/// A command that has no `id` yet.
#[derive(Debug)]
pub struct SidecarCommand {
    pub command: SidecarCommandKind,
    pub payload: JsonValue,
}

/// What a `SidecarCommand` stands for.
#[verifier::ext_equal]
pub struct CommandModel {
    pub command: SidecarCommandKind,
    pub payload: JsonModel,
}

impl View for SidecarCommandEnvelope {
    type V = EnvelopeModel;

    open spec fn view(&self) -> EnvelopeModel {
        EnvelopeModel { id: self.id@, command: self.command, payload: self.payload@ }
    }
}

impl View for SidecarCommand {
    type V = CommandModel;

    open spec fn view(&self) -> CommandModel {
        CommandModel { command: self.command, payload: self.payload@ }
    }
}

/// The name of a kind of command on the wire.
pub open spec fn command_name(kind: SidecarCommandKind) -> Seq<char> {
    match kind {
        SidecarCommandKind::SendText => "send_text"@,
        SidecarCommandKind::SendReply => "send_reply"@,
        SidecarCommandKind::SendFile => "send_file"@,
        SidecarCommandKind::AddReaction => "add_reaction"@,
        SidecarCommandKind::RemoveReaction => "remove_reaction"@,
        SidecarCommandKind::StartTyping => "start_typing"@,
        SidecarCommandKind::StopTyping => "stop_typing"@,
        SidecarCommandKind::Health => "health"@,
        SidecarCommandKind::Shutdown => "shutdown"@,
    }
}

/// The line that carries a command, without the line feed that ends it.
pub open spec fn command_line(envelope: EnvelopeModel) -> Seq<char> {
    "{\"id\":"@ + (quoted(envelope.id) + (",\"command\":"@ + (quoted(
        command_name(envelope.command),
    ) + (",\"payload\":"@ + (json_text(envelope.payload) + "}"@)))))
}

impl SidecarCommandKind {
    /// The name of this kind on the wire.
    pub fn name(&self) -> (name: String)
        ensures
            name@ == command_name(*self),
    {
        match self {
            SidecarCommandKind::SendText => "send_text".to_string(),
            SidecarCommandKind::SendReply => "send_reply".to_string(),
            SidecarCommandKind::SendFile => "send_file".to_string(),
            SidecarCommandKind::AddReaction => "add_reaction".to_string(),
            SidecarCommandKind::RemoveReaction => "remove_reaction".to_string(),
            SidecarCommandKind::StartTyping => "start_typing".to_string(),
            SidecarCommandKind::StopTyping => "stop_typing".to_string(),
            SidecarCommandKind::Health => "health".to_string(),
            SidecarCommandKind::Shutdown => "shutdown".to_string(),
        }
    }
}

/// Writes a command as the line that carries it, without the line feed that ends it.
pub fn serialize_command_line(command: &SidecarCommandEnvelope) -> (line: Result<
    String,
    PhotonError,
>)
    ensures
        line is Ok,
        line->Ok_0@ == command_line(command@),
{
    let id = match write_json(&JsonValue::Text(command.id.clone())) {
        Ok(text) => text,
        Err(_) => return Err(PhotonError::Serialization),
    };
    let name = match write_json(&JsonValue::Text(command.command.name())) {
        Ok(text) => text,
        Err(_) => return Err(PhotonError::Serialization),
    };
    let payload = match write_json(&command.payload) {
        Ok(text) => text,
        Err(_) => return Err(PhotonError::Serialization),
    };
    let line = "{\"id\":".to_string()
        .concat(id.as_str())
        .concat(",\"command\":")
        .concat(name.as_str())
        .concat(",\"payload\":")
        .concat(payload.as_str())
        .concat("}");
    assert(line@ =~= command_line(command@));
    Ok(line)
}

/// True of a random UUID in its usual form: 36 characters, lower-case hexadecimal digits in
/// groups of 8, 4, 4, 4 and 12 with hyphens between them, the third group starting with the
/// version number 4 and the fourth with the variant.
pub open spec fn is_uuid_text(text: Seq<char>) -> bool {
    &&& text.len() == 36
    &&& forall|i: int|
        0 <= i < 36 ==> if i == 8 || i == 13 || i == 18 || i == 23 {
            #[trigger] text[i] == '-'
        } else {
            '0' <= text[i] <= '9' || 'a' <= text[i] <= 'f'
        }
    &&& text[14] == '4'
    &&& text[19] == '8' || text[19] == '9' || text[19] == 'a' || text[19] == 'b'
}

/// `uuid::Uuid::new_v4` as text: a random UUID in its usual form. Which one it is rests on
/// chance. Without a source of random numbers the call panics.
#[verifier::external_body]
pub(crate) fn fresh_id() -> (id: String)
    ensures
        is_uuid_text(id@),
{
    uuid::Uuid::new_v4().to_string()
}

/// Different kinds of commands have different names on the wire.
pub proof fn law_command_names_distinct(a: SidecarCommandKind, b: SidecarCommandKind)
    requires
        command_name(a) == command_name(b),
    ensures
        a == b,
{
    reveal_strlit("send_text");
    reveal_strlit("send_reply");
    reveal_strlit("send_file");
    reveal_strlit("add_reaction");
    reveal_strlit("remove_reaction");
    reveal_strlit("start_typing");
    reveal_strlit("stop_typing");
    reveal_strlit("health");
    reveal_strlit("shutdown");
    assert(command_name(a).len() == command_name(b).len());
    assert("send_text"@.len() == 9 && "send_reply"@.len() == 10 && "send_file"@.len() == 9);
    assert("add_reaction"@.len() == 12 && "remove_reaction"@.len() == 15);
    assert("start_typing"@.len() == 12 && "stop_typing"@.len() == 11);
    assert("health"@.len() == 6 && "shutdown"@.len() == 8);
    assert("send_text"@[5] == 't' && "send_file"@[5] == 'f');
    assert("add_reaction"@[0] == 'a' && "start_typing"@[0] == 's');
}

/// The line of a command holds no line feed, nor any other control character, so that a line
/// feed after it shows where it ends.
pub proof fn law_command_line_is_one_line(envelope: EnvelopeModel)
    ensures
        is_printable(command_line(envelope)),
        !command_line(envelope).contains('\n'),
        !command_line(envelope).contains('\r'),
{
    reveal_strlit("{\"id\":");
    reveal_strlit(",\"command\":");
    reveal_strlit(",\"payload\":");
    reveal_strlit("}");
    let name = command_name(envelope.command);
    lemma_quoted_printable(envelope.id);
    lemma_quoted_printable(name);
    law_json_text_is_printable(envelope.payload);
    let tail = json_text(envelope.payload) + "}"@;
    lemma_printable_concat(json_text(envelope.payload), "}"@);
    lemma_printable_concat(",\"payload\":"@, tail);
    lemma_printable_concat(quoted(name), ",\"payload\":"@ + tail);
    lemma_printable_concat(",\"command\":"@, quoted(name) + (",\"payload\":"@ + tail));
    lemma_printable_concat(
        quoted(envelope.id),
        ",\"command\":"@ + (quoted(name) + (",\"payload\":"@ + tail)),
    );
    lemma_printable_concat(
        "{\"id\":"@,
        quoted(envelope.id) + (",\"command\":"@ + (quoted(name) + (",\"payload\":"@ + tail))),
    );
}

/// The line of a command determines the command, and the other way round: two commands have one
/// line exactly if they have the same id, kind and payload, where the payloads may differ in the
/// order of their members and in members that a later one overrides. Commands whose payloads are
/// canonical, as in every command that the adapter makes, are then equal.
pub proof fn law_command_line_determines_command(a: EnvelopeModel, b: EnvelopeModel)
    ensures
        command_line(a) == command_line(b) <==> a.id == b.id && a.command == b.command
            && same_value(a.payload, b.payload),
        command_line(a) == command_line(b) && a.payload.canonical() && b.payload.canonical()
            ==> a == b,
{
    if same_value(a.payload, b.payload) {
        law_same_values_have_one_text(a.payload, b.payload);
    }
    if command_line(a) == command_line(b) {
        lemma_same_line_same_command(a, b);
        if a.payload.canonical() && b.payload.canonical() {
            law_canonical_values_are_unique(a.payload, b.payload);
        }
    }
}

/// Commands with the same line are the same.
proof fn lemma_same_line_same_command(a: EnvelopeModel, b: EnvelopeModel)
    requires
        command_line(a) == command_line(b),
    ensures
        a.id == b.id,
        a.command == b.command,
        same_value(a.payload, b.payload),
{
    let head = "{\"id\":"@;
    let middle = ",\"command\":"@;
    let last = ",\"payload\":"@;
    let a_payload = json_text(a.payload) + "}"@;
    let b_payload = json_text(b.payload) + "}"@;
    let a_name = quoted(command_name(a.command)) + (last + a_payload);
    let b_name = quoted(command_name(b.command)) + (last + b_payload);
    let a_id = quoted(a.id) + (middle + a_name);
    let b_id = quoted(b.id) + (middle + b_name);
    assert((head + a_id).skip(head.len() as int) =~= a_id);
    assert((head + b_id).skip(head.len() as int) =~= b_id);
    lemma_quoted_prefix_free(a.id, b.id, middle + a_name, middle + b_name);
    assert((middle + a_name).skip(middle.len() as int) =~= a_name);
    assert((middle + b_name).skip(middle.len() as int) =~= b_name);
    lemma_quoted_prefix_free(
        command_name(a.command),
        command_name(b.command),
        last + a_payload,
        last + b_payload,
    );
    law_command_names_distinct(a.command, b.command);
    assert((last + a_payload).skip(last.len() as int) =~= a_payload);
    assert((last + b_payload).skip(last.len() as int) =~= b_payload);
    law_json_text_determines_value(a.payload, b.payload, "}"@, "}"@);
}

} // verus!
