//! From what the bot has to say to the command that makes the sidecar say it.

use crate::attachment_data::{base64_len, base64_text, encode_base64};
use crate::command::{CommandModel, SidecarCommand, SidecarCommandKind};
use crate::error::{ErrorModel, PhotonError};
use crate::json::{lemma_precedes_by_first, precedes, JsonMember, JsonModel, JsonValue};
use crate::message::{InboundMessage, InboundModel, OutboundResponse, ResponseModel, StatusUpdate};
use crate::string_map::StringMap;
use crate::text::{is_blank, is_blank_text, last_segment, split_last, trimmed};
use vstd::prelude::*;

verus! {

/// What is to be done: send a command, send nothing, or report an error.
pub open spec fn plan_model(plan: Result<Option<SidecarCommand>, PhotonError>) -> Result<
    Option<CommandModel>,
    ErrorModel,
> {
    match plan {
        Ok(Some(command)) => Ok(Some(command@)),
        Ok(None) => Ok(None),
        Err(error) => Err(error@),
    }
}

/// The text under `key` in the metadata of a message.
pub open spec fn metadata_text(message: InboundModel, key: Seq<char>) -> Option<Seq<char>> {
    if message.metadata.contains_key(key) {
        match message.metadata[key] {
            JsonModel::Text(text) => Some(text),
            _ => None,
        }
    } else {
        None
    }
}

/// The space that an answer to a message goes to: the one that its metadata names, else the last
/// part of its conversation id; `None` if that is blank.
pub open spec fn space_of(message: InboundModel) -> Option<Seq<char>> {
    let space = match metadata_text(message, "photon_space_id"@) {
        Some(text) => text,
        None => last_segment(message.conversation_id, ':'),
    };
    if is_blank_text(space) {
        None
    } else {
        Some(space)
    }
}

/// The id under which Photon knows a message, unless it is blank.
pub open spec fn message_id_of(message: InboundModel) -> Option<Seq<char>> {
    match metadata_text(message, "photon_message_id"@) {
        Some(text) if !is_blank_text(text) => Some(text),
        _ => None,
    }
}

/// Whether Photon marked a message as one that mentions the bot or replies to it.
pub open spec fn refers_to_bot(message: InboundModel) -> bool {
    let key = "photon_mentions_or_replies_to_bot"@;
    message.metadata.contains_key(key) && message.metadata[key] == JsonModel::Bool(true)
}

/// The message that an answer is threaded under: the one that is answered, if threading is asked
/// for or the message refers to the bot, and it has an id.
pub open spec fn thread_of(message: InboundModel, force: bool) -> Option<Seq<char>> {
    if force || refers_to_bot(message) {
        message_id_of(message)
    } else {
        None
    }
}

/// The payload of a text in a space.
pub open spec fn text_payload(space: Seq<char>, text: Seq<char>) -> JsonModel {
    JsonModel::Object(seq![("space_id"@, Some(space)), ("text"@, Some(text))])
}

/// The payload of a text in a space, in reply to a message.
pub open spec fn reply_payload(space: Seq<char>, reply_to: Seq<char>, text: Seq<char>) -> JsonModel {
    JsonModel::Object(
        seq![
            ("reply_to_message_id"@, Some(reply_to)),
            ("space_id"@, Some(space)),
            ("text"@, Some(text)),
        ],
    )
}

/// The payload of a file in a space, in reply to a message if one is given.
pub open spec fn file_payload(
    space: Seq<char>,
    reply_to: Option<Seq<char>>,
    filename: Seq<char>,
    mime_type: Seq<char>,
    data: Seq<u8>,
    caption: Option<Seq<char>>,
) -> JsonModel {
    let file = seq![
        ("caption"@, caption),
        ("data_base64"@, Some(base64_text(data))),
        ("filename"@, Some(filename)),
        ("mime_type"@, Some(mime_type)),
    ];
    let addressed = match reply_to {
        Some(id) => file.push(("reply_to_message_id"@, Some(id))),
        None => file,
    };
    JsonModel::Object(addressed.push(("space_id"@, Some(space))))
}

/// The payload of a reaction to a message.
pub open spec fn reaction_payload(
    space: Seq<char>,
    message_id: Seq<char>,
    emoji: Seq<char>,
) -> JsonModel {
    JsonModel::Object(
        seq![
            ("emoji"@, Some(emoji)),
            ("message_id"@, Some(message_id)),
            ("space_id"@, Some(space)),
        ],
    )
}

/// The payload that names a space only.
pub open spec fn space_payload(space: Seq<char>) -> JsonModel {
    JsonModel::Object(seq![("space_id"@, Some(space))])
}

/// What is done to say `text` in answer to a message: nothing if it is blank, else a reply if the
/// answer is threaded, else a plain text.
pub open spec fn text_plan(message: InboundModel, text: Seq<char>, force: bool) -> Result<
    Option<CommandModel>,
    ErrorModel,
> {
    if is_blank_text(text) {
        Ok(None)
    } else {
        match space_of(message) {
            None => Err(ErrorModel::MissingSpaceId),
            Some(space) => match thread_of(message, force) {
                Some(id) => Ok(
                    Some(
                        CommandModel {
                            command: SidecarCommandKind::SendReply,
                            payload: reply_payload(space, id, text),
                        },
                    ),
                ),
                None => Ok(
                    Some(
                        CommandModel {
                            command: SidecarCommandKind::SendText,
                            payload: text_payload(space, text),
                        },
                    ),
                ),
            },
        }
    }
}

/// What is done to react to a message: nothing if it has no id.
pub open spec fn reaction_plan(
    message: InboundModel,
    command: SidecarCommandKind,
    emoji: Seq<char>,
) -> Result<Option<CommandModel>, ErrorModel> {
    match message_id_of(message) {
        None => Ok(None),
        Some(id) => match space_of(message) {
            None => Err(ErrorModel::MissingSpaceId),
            Some(space) => Ok(
                Some(CommandModel { command, payload: reaction_payload(space, id, emoji) }),
            ),
        },
    }
}

/// What is done to show a status: the bot types while it thinks, and else does not.
pub open spec fn status_plan(message: InboundModel, status: StatusUpdate) -> Result<
    Option<CommandModel>,
    ErrorModel,
> {
    match space_of(message) {
        None => Err(ErrorModel::MissingSpaceId),
        Some(space) => Ok(
            Some(
                CommandModel {
                    command: if status == StatusUpdate::Thinking {
                        SidecarCommandKind::StartTyping
                    } else {
                        SidecarCommandKind::StopTyping
                    },
                    payload: space_payload(space),
                },
            ),
        ),
    }
}

/// What is done to answer a message, and the texts that are being streamed afterwards, by
/// conversation.
pub open spec fn response_plan(
    streams: Map<Seq<char>, Seq<char>>,
    message: InboundModel,
    response: ResponseModel,
) -> (Map<Seq<char>, Seq<char>>, Result<Option<CommandModel>, ErrorModel>) {
    let conversation = message.conversation_id;
    match response {
        ResponseModel::Text(text) => (streams, text_plan(message, text, false)),
        ResponseModel::RichMessage { text } => (streams, text_plan(message, text, false)),
        ResponseModel::ThreadReply { text } => (streams, text_plan(message, text, true)),
        ResponseModel::Ephemeral { text } => (streams, text_plan(message, text, false)),
        ResponseModel::ScheduledMessage { text } => (streams, text_plan(message, text, false)),
        ResponseModel::File { filename, data, mime_type, caption } => (
            streams,
            match space_of(message) {
                None => Err(ErrorModel::MissingSpaceId),
                Some(space) => Ok(
                    Some(
                        CommandModel {
                            command: SidecarCommandKind::SendFile,
                            payload: file_payload(
                                space,
                                thread_of(message, false),
                                filename,
                                mime_type,
                                data,
                                caption,
                            ),
                        },
                    ),
                ),
            },
        ),
        ResponseModel::Reaction(emoji) => (
            streams,
            reaction_plan(message, SidecarCommandKind::AddReaction, emoji),
        ),
        ResponseModel::RemoveReaction(emoji) => (
            streams,
            reaction_plan(message, SidecarCommandKind::RemoveReaction, emoji),
        ),
        ResponseModel::StreamStart => (streams.insert(conversation, Seq::empty()), Ok(None)),
        ResponseModel::StreamChunk(chunk) => (
            streams.insert(
                conversation,
                if streams.contains_key(conversation) {
                    streams[conversation] + chunk
                } else {
                    chunk
                },
            ),
            Ok(None),
        ),
        ResponseModel::StreamEnd => if streams.contains_key(conversation) {
            (
                streams.remove(conversation),
                text_plan(message, streams[conversation], false),
            )
        } else {
            (streams, Ok(None))
        },
        ResponseModel::Status(status) => (streams, status_plan(message, status)),
    }
}

/// What is done to say something in the space `target` unasked.
pub open spec fn broadcast_plan(target: Seq<char>, response: ResponseModel) -> Result<
    Option<CommandModel>,
    ErrorModel,
> {
    let space = trimmed(target);
    let say = |text: Seq<char>|
        Ok::<Option<CommandModel>, ErrorModel>(
            Some(
                CommandModel {
                    command: SidecarCommandKind::SendText,
                    payload: text_payload(space, text),
                },
            ),
        );
    if space.len() == 0 {
        Err(ErrorModel::EmptyBroadcastTarget)
    } else {
        match response {
            ResponseModel::Text(text) => say(text),
            ResponseModel::ThreadReply { text } => say(text),
            ResponseModel::Ephemeral { text } => say(text),
            ResponseModel::ScheduledMessage { text } => say(text),
            ResponseModel::RichMessage { text } => say(text),
            ResponseModel::File { filename, data, mime_type, caption } => Ok(
                Some(
                    CommandModel {
                        command: SidecarCommandKind::SendFile,
                        payload: file_payload(space, None, filename, mime_type, data, caption),
                    },
                ),
            ),
            _ => Ok(None),
        }
    }
}

/// Whether the contents of a file response can be held as base64 text.
pub open spec fn is_encodable(response: ResponseModel) -> bool {
    match response {
        ResponseModel::File { data, .. } => base64_len(data.len()) <= isize::MAX,
        _ => true,
    }
}

/// A planned command has a payload whose members are in canonical order.
pub open spec fn is_canonical_plan(plan: Result<Option<CommandModel>, ErrorModel>) -> bool {
    plan matches Ok(Some(command)) ==> command.payload.canonical()
}

/// Members whose names start with ascending characters are in canonical order.
proof fn lemma_canonical_by_first(members: Seq<(Seq<char>, Option<Seq<char>>)>)
    requires
        forall|i: int| 0 <= i < members.len() ==> (#[trigger] members[i]).0.len() > 0,
        forall|i: int, j: int|
            0 <= i < j < members.len() ==> (#[trigger] members[i]).0[0] < (#[trigger] members[j]).0[0],
    ensures
        JsonModel::Object(members).canonical(),
{
    assert forall|i: int, j: int| 0 <= i < j < members.len() implies precedes(
        (#[trigger] members[i]).0,
        (#[trigger] members[j]).0,
    ) by {
        lemma_precedes_by_first(members[i].0, members[j].0);
    }
}

/// The payloads of the adapter's commands are canonical.
proof fn lemma_payloads_canonical()
    ensures
        forall|space: Seq<char>, text: Seq<char>| #[trigger]
            text_payload(space, text).canonical(),
        forall|space: Seq<char>, id: Seq<char>, text: Seq<char>| #[trigger]
            reply_payload(space, id, text).canonical(),
        forall|
            space: Seq<char>,
            id: Option<Seq<char>>,
            name: Seq<char>,
            mime: Seq<char>,
            data: Seq<u8>,
            caption: Option<Seq<char>>,
        | #[trigger]
            file_payload(space, id, name, mime, data, caption).canonical(),
        forall|space: Seq<char>, id: Seq<char>, emoji: Seq<char>| #[trigger]
            reaction_payload(space, id, emoji).canonical(),
        forall|space: Seq<char>| #[trigger] space_payload(space).canonical(),
{
    reveal_strlit("caption");
    reveal_strlit("data_base64");
    reveal_strlit("emoji");
    reveal_strlit("filename");
    reveal_strlit("message_id");
    reveal_strlit("mime_type");
    reveal_strlit("reply_to_message_id");
    reveal_strlit("space_id");
    reveal_strlit("text");
    assert("caption"@.len() > 0 && "caption"@[0] == 'c');
    assert("data_base64"@.len() > 0 && "data_base64"@[0] == 'd');
    assert("emoji"@.len() > 0 && "emoji"@[0] == 'e');
    assert("filename"@.len() > 0 && "filename"@[0] == 'f');
    assert("message_id"@.len() > 0 && "message_id"@[0] == 'm');
    assert("mime_type"@.len() > 0 && "mime_type"@[0] == 'm');
    assert("reply_to_message_id"@.len() > 0 && "reply_to_message_id"@[0] == 'r');
    assert("space_id"@.len() > 0 && "space_id"@[0] == 's');
    assert("text"@.len() > 0 && "text"@[0] == 't');
    assert forall|space: Seq<char>, text: Seq<char>| #[trigger]
        text_payload(space, text).canonical() by {
        lemma_canonical_by_first(text_payload(space, text)->Object_0);
    }
    assert forall|space: Seq<char>, id: Seq<char>, text: Seq<char>| #[trigger]
        reply_payload(space, id, text).canonical() by {
        lemma_canonical_by_first(reply_payload(space, id, text)->Object_0);
    }
    assert forall|
        space: Seq<char>,
        id: Option<Seq<char>>,
        name: Seq<char>,
        mime: Seq<char>,
        data: Seq<u8>,
        caption: Option<Seq<char>>,
    | #[trigger]
        file_payload(space, id, name, mime, data, caption).canonical() by {
        lemma_canonical_by_first(
            file_payload(space, id, name, mime, data, caption)->Object_0,
        );
    }
    assert forall|space: Seq<char>, id: Seq<char>, emoji: Seq<char>| #[trigger]
        reaction_payload(space, id, emoji).canonical() by {
        lemma_canonical_by_first(reaction_payload(space, id, emoji)->Object_0);
    }
}

/// Whatever is planned in answer to a message has its payload in canonical order.
pub proof fn law_response_plan_is_canonical(
    streams: Map<Seq<char>, Seq<char>>,
    message: InboundModel,
    response: ResponseModel,
)
    ensures
        is_canonical_plan(response_plan(streams, message, response).1),
{
    lemma_payloads_canonical();
}

/// Whatever is planned for a broadcast has its payload in canonical order.
pub proof fn law_broadcast_plan_is_canonical(target: Seq<char>, response: ResponseModel)
    ensures
        is_canonical_plan(broadcast_plan(target, response)),
{
    lemma_payloads_canonical();
}

/// The text under `key` in the metadata of a message.
fn find_text(message: &InboundMessage, key: &str) -> (text: Option<String>)
    ensures
        text.deep_view() == metadata_text(message@, key@),
{
    match message.metadata.get(key) {
        Some(value) => match value.as_str() {
            Some(text) => Some(text.to_string()),
            None => None,
        },
        None => None,
    }
}

/// The space that an answer to `message` goes to.
pub(crate) fn find_space(message: &InboundMessage) -> (space: Option<String>)
    ensures
        space.deep_view() == space_of(message@),
{
    let space = match find_text(message, "photon_space_id") {
        Some(text) => text,
        None => split_last(message.conversation_id.as_str(), ':'),
    };
    if is_blank(space.as_str()) {
        None
    } else {
        Some(space)
    }
}

/// The id under which Photon knows `message`.
pub(crate) fn find_message_id(message: &InboundMessage) -> (id: Option<String>)
    ensures
        id.deep_view() == message_id_of(message@),
{
    match find_text(message, "photon_message_id") {
        Some(text) => if is_blank(text.as_str()) {
            None
        } else {
            Some(text)
        },
        None => None,
    }
}

/// Whether `message` mentions the bot or replies to it.
pub(crate) fn find_refers_to_bot(message: &InboundMessage) -> (refers: bool)
    ensures
        refers == refers_to_bot(message@),
{
    match message.metadata.get("photon_mentions_or_replies_to_bot") {
        Some(value) => match value.as_bool() {
            Some(flag) => flag,
            None => false,
        },
        None => false,
    }
}

/// The message that an answer to `message` is threaded under.
fn find_thread(message: &InboundMessage, force: bool) -> (id: Option<String>)
    ensures
        id.deep_view() == thread_of(message@, force),
{
    if force || find_refers_to_bot(message) {
        find_message_id(message)
    } else {
        None
    }
}

/// A member of an object.
fn member(name: &str, value: Option<String>) -> (member: JsonMember)
    ensures
        member@ == (name@, value.deep_view()),
{
    JsonMember { name: name.to_string(), value }
}

/// A command that says `text` in a space, in reply to a message if one is given.
fn text_command(space: String, reply_to: Option<String>, text: String) -> (command: SidecarCommand)
    ensures
        command@ == (match reply_to {
            Some(id) => CommandModel {
                command: SidecarCommandKind::SendReply,
                payload: reply_payload(space@, id@, text@),
            },
            None => CommandModel {
                command: SidecarCommandKind::SendText,
                payload: text_payload(space@, text@),
            },
        }),
{
    let mut members: Vec<JsonMember> = Vec::new();
    let command = match &reply_to {
        Some(id) => {
            members.push(member("reply_to_message_id", Some(id.clone())));
            SidecarCommandKind::SendReply
        },
        None => SidecarCommandKind::SendText,
    };
    members.push(member("space_id", Some(space)));
    members.push(member("text", Some(text)));
    proof {
        let views = members@.map_values(|member: JsonMember| member@);
        match reply_to {
            Some(id) => {
                assert(views =~= reply_payload(space@, id@, text@)->Object_0);
            },
            None => {
                assert(views =~= text_payload(space@, text@)->Object_0);
            },
        }
    }
    SidecarCommand { command, payload: JsonValue::Object(members) }
}

/// A command that sends a file to a space, in reply to a message if one is given.
fn file_command(
    space: String,
    reply_to: Option<String>,
    filename: String,
    mime_type: String,
    data: &Vec<u8>,
    caption: Option<String>,
) -> (command: SidecarCommand)
    requires
        base64_len(data@.len()) <= isize::MAX,
    ensures
        command@ == (CommandModel {
            command: SidecarCommandKind::SendFile,
            payload: file_payload(
                space@,
                reply_to.deep_view(),
                filename@,
                mime_type@,
                data@,
                caption.deep_view(),
            ),
        }),
{
    let ghost payload = file_payload(
        space@,
        reply_to.deep_view(),
        filename@,
        mime_type@,
        data@,
        caption.deep_view(),
    );
    let mut members: Vec<JsonMember> = Vec::new();
    members.push(member("caption", caption));
    members.push(member("data_base64", Some(encode_base64(data))));
    members.push(member("filename", Some(filename)));
    members.push(member("mime_type", Some(mime_type)));
    match reply_to {
        Some(id) => {
            members.push(member("reply_to_message_id", Some(id)));
        },
        None => {},
    }
    members.push(member("space_id", Some(space)));
    assert(members@.map_values(|member: JsonMember| member@) =~= payload->Object_0);
    SidecarCommand {
        command: SidecarCommandKind::SendFile,
        payload: JsonValue::Object(members),
    }
}

/// A command that reacts to a message, or takes a reaction back.
fn reaction_command(
    command: SidecarCommandKind,
    space: String,
    message_id: String,
    emoji: String,
) -> (planned: SidecarCommand)
    ensures
        planned@ == (CommandModel {
            command,
            payload: reaction_payload(space@, message_id@, emoji@),
        }),
{
    let ghost payload = reaction_payload(space@, message_id@, emoji@);
    let mut members: Vec<JsonMember> = Vec::new();
    members.push(member("emoji", Some(emoji)));
    members.push(member("message_id", Some(message_id)));
    members.push(member("space_id", Some(space)));
    assert(members@.map_values(|member: JsonMember| member@) =~= payload->Object_0);
    SidecarCommand { command, payload: JsonValue::Object(members) }
}

/// Plans how `text` is said in answer to `message`, threaded if `force` asks for it.
pub fn plan_text(message: &InboundMessage, text: String, force: bool) -> (plan: Result<
    Option<SidecarCommand>,
    PhotonError,
>)
    ensures
        plan_model(plan) == text_plan(message@, text@, force),
{
    if is_blank(text.as_str()) {
        return Ok(None);
    }
    match find_space(message) {
        Some(space) => Ok(Some(text_command(space, find_thread(message, force), text))),
        None => Err(PhotonError::MissingSpaceId),
    }
}

/// Plans how a reaction to `message` is given or taken back.
fn plan_reaction(message: &InboundMessage, command: SidecarCommandKind, emoji: String) -> (plan:
    Result<Option<SidecarCommand>, PhotonError>)
    ensures
        plan_model(plan) == reaction_plan(message@, command, emoji@),
{
    match find_message_id(message) {
        Some(id) => match find_space(message) {
            Some(space) => Ok(Some(reaction_command(command, space, id, emoji))),
            None => Err(PhotonError::MissingSpaceId),
        },
        None => Ok(None),
    }
}

/// Plans how a status is shown where `message` came from.
pub fn plan_status(message: &InboundMessage, status: StatusUpdate) -> (plan: Result<
    Option<SidecarCommand>,
    PhotonError,
>)
    ensures
        plan_model(plan) == status_plan(message@, status),
{
    match find_space(message) {
        Some(space) => {
            let command = match status {
                StatusUpdate::Thinking => SidecarCommandKind::StartTyping,
                StatusUpdate::Other => SidecarCommandKind::StopTyping,
            };
            let ghost payload = space_payload(space@);
            let mut members: Vec<JsonMember> = Vec::new();
            members.push(member("space_id", Some(space)));
            assert(members@.map_values(|member: JsonMember| member@) =~= payload->Object_0);
            Ok(Some(SidecarCommand { command, payload: JsonValue::Object(members) }))
        },
        None => Err(PhotonError::MissingSpaceId),
    }
}

/// Plans how `message` is answered, and keeps the texts that are being streamed.
pub fn plan_response(
    streams: &mut StringMap<String>,
    message: &InboundMessage,
    response: OutboundResponse,
) -> (plan: Result<Option<SidecarCommand>, PhotonError>)
    requires
        space_of(message@) is Some ==> is_encodable(response@),
    ensures
        (final(streams)@, plan_model(plan)) == response_plan(old(streams)@, message@, response@),
        old(streams).wf() ==> final(streams).wf(),
{
    match response {
        OutboundResponse::Text(text) => plan_text(message, text, false),
        OutboundResponse::RichMessage { text } => plan_text(message, text, false),
        OutboundResponse::ThreadReply { text } => plan_text(message, text, true),
        OutboundResponse::Ephemeral { text } => plan_text(message, text, false),
        OutboundResponse::ScheduledMessage { text } => plan_text(message, text, false),
        OutboundResponse::File { filename, data, mime_type, caption } => match find_space(
            message,
        ) {
            Some(space) => {
                let reply_to = find_thread(message, false);
                Ok(Some(file_command(space, reply_to, filename, mime_type, &data, caption)))
            },
            None => Err(PhotonError::MissingSpaceId),
        },
        OutboundResponse::Reaction(emoji) => plan_reaction(
            message,
            SidecarCommandKind::AddReaction,
            emoji,
        ),
        OutboundResponse::RemoveReaction(emoji) => plan_reaction(
            message,
            SidecarCommandKind::RemoveReaction,
            emoji,
        ),
        OutboundResponse::StreamStart => {
            streams.insert(message.conversation_id.clone(), String::new());
            Ok(None)
        },
        OutboundResponse::StreamChunk(chunk) => {
            let text = match streams.remove(message.conversation_id.as_str()) {
                Some(text) => text.concat(chunk.as_str()),
                None => chunk,
            };
            streams.insert(message.conversation_id.clone(), text);
            assert(streams@ =~= old(streams)@.insert(message.conversation_id@, text@));
            Ok(None)
        },
        OutboundResponse::StreamEnd => match streams.remove(message.conversation_id.as_str()) {
            Some(text) => plan_text(message, text, false),
            None => {
                assert(streams@ =~= old(streams)@);
                Ok(None)
            },
        },
        OutboundResponse::Status(status) => plan_status(message, status),
    }
}

/// Plans how something is said in the space `target` unasked.
pub fn plan_broadcast(target: &str, response: OutboundResponse) -> (plan: Result<
    Option<SidecarCommand>,
    PhotonError,
>)
    requires
        trimmed(target@).len() > 0 ==> is_encodable(response@),
    ensures
        plan_model(plan) == broadcast_plan(target@, response@),
{
    let space = target.trim();
    if space.is_empty() {
        return Err(PhotonError::EmptyBroadcastTarget);
    }
    let space = space.to_string();
    match response {
        OutboundResponse::Text(text) => Ok(Some(text_command(space, None, text))),
        OutboundResponse::ThreadReply { text } => Ok(Some(text_command(space, None, text))),
        OutboundResponse::Ephemeral { text } => Ok(Some(text_command(space, None, text))),
        OutboundResponse::ScheduledMessage { text } => Ok(Some(text_command(space, None, text))),
        OutboundResponse::RichMessage { text } => Ok(Some(text_command(space, None, text))),
        OutboundResponse::File { filename, data, mime_type, caption } => Ok(
            Some(file_command(space, None, filename, mime_type, &data, caption)),
        ),
        OutboundResponse::Reaction(_) => Ok(None),
        OutboundResponse::RemoveReaction(_) => Ok(None),
        OutboundResponse::StreamStart => Ok(None),
        OutboundResponse::StreamChunk(_) => Ok(None),
        OutboundResponse::StreamEnd => Ok(None),
        OutboundResponse::Status(_) => Ok(None),
    }
}

} // verus!
