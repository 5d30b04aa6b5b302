//! What holds of the adapter as a whole, across its functions.

use crate::adapter::{reply_result, request_as, submits, AdapterModel, CommandReply};
use crate::clock::{arrival, rfc3339_instant, Timestamp};
use crate::command::{CommandModel, EnvelopeModel, SidecarCommandKind};
use crate::error::{error_message, ErrorModel};
use crate::inbound::{
    accepts, converted, converted_attachments, converted_metadata, PHOTON_SOURCE,
};
use crate::json::JsonModel;
use crate::message::{InboundModel, ResponseModel};
use crate::metadata_keys::{CHANNEL_NAME, MESSAGE_ID, SERVER_NAME};
use crate::outbound::{
    message_id_of, refers_to_bot, response_plan, space_of, text_plan, thread_of,
};
use crate::sidecar::{PayloadModel, SidecarAttachmentModel};
use crate::text::{is_blank_text, lemma_from_first_of_prefix, lemma_last_segment_of_suffix};
use vstd::prelude::*;

verus! {

/// The metadata keys are different texts.
proof fn lemma_metadata_keys_distinct()
    ensures
        forall|i: int, j: int|
            0 <= i < j < metadata_key_list().len() ==> #[trigger] metadata_key_list()[i]
                != #[trigger] metadata_key_list()[j],
{
    reveal_strlit("photon_space_id");
    reveal_strlit("photon_message_id");
    reveal_strlit("photon_sender_id");
    reveal_strlit("photon_mentions_or_replies_to_bot");
    reveal_strlit("photon_is_dm");
    reveal_strlit("message_id");
    reveal_strlit("channel_name");
    reveal_strlit("server_name");
    reveal_strlit("sender_display_name");
    assert("photon_space_id"@.len() == 15);
    assert("photon_message_id"@.len() == 17);
    assert("photon_sender_id"@.len() == 16);
    assert("photon_mentions_or_replies_to_bot"@.len() == 33);
    assert("photon_is_dm"@.len() == 12 && "photon_is_dm"@[0] == 'p');
    assert("message_id"@.len() == 10);
    assert("channel_name"@.len() == 12 && "channel_name"@[0] == 'c');
    assert("server_name"@.len() == 11);
    assert("sender_display_name"@.len() == 19);
}

/// The keys under which the metadata of a message may hold something.
pub open spec fn metadata_key_list() -> Seq<Seq<char>> {
    seq![
        "photon_space_id"@,
        "photon_message_id"@,
        "photon_sender_id"@,
        "photon_mentions_or_replies_to_bot"@,
        "photon_is_dm"@,
        MESSAGE_ID@,
        CHANNEL_NAME@,
        SERVER_NAME@,
        "sender_display_name"@,
    ]
}

/// A text that may be missing, as metadata: nothing if it is missing or empty.
pub open spec fn optional_entry(text: Option<Seq<char>>) -> Option<JsonModel> {
    match text {
        Some(text) if text.len() > 0 => Some(JsonModel::Text(text)),
        _ => None,
    }
}

/// What the metadata of a message holds under each of its keys.
pub proof fn law_metadata_of_message(payload: PayloadModel)
    ensures
        ({
            let metadata = converted_metadata(payload);
            &&& metadata.get("photon_space_id"@) == Some(JsonModel::Text(payload.space_id))
            &&& metadata.get("photon_message_id"@) == Some(JsonModel::Text(payload.message_id))
            &&& metadata.get("photon_sender_id"@) == Some(JsonModel::Text(payload.sender_id))
            &&& metadata.get("photon_mentions_or_replies_to_bot"@) == Some(
                JsonModel::Bool(payload.mentions_or_replies_to_bot),
            )
            &&& metadata.get("photon_is_dm"@) == Some(JsonModel::Bool(payload.is_dm))
            &&& metadata.get(MESSAGE_ID@) == Some(JsonModel::Text(payload.message_id))
            &&& metadata.get(CHANNEL_NAME@) == optional_entry(payload.space_name)
            &&& metadata.get(SERVER_NAME@) == optional_entry(payload.server_name)
            &&& metadata.get("sender_display_name"@) == optional_entry(
                payload.sender_display_name,
            )
            &&& forall|key: Seq<char>| #[trigger]
                metadata.contains_key(key) ==> metadata_key_list().contains(key)
        }),
{
    lemma_metadata_keys_distinct();
    let keys = metadata_key_list();
    assert(keys[0] == "photon_space_id"@);
    assert(keys[1] == "photon_message_id"@);
    assert(keys[2] == "photon_sender_id"@);
    assert(keys[3] == "photon_mentions_or_replies_to_bot"@);
    assert(keys[4] == "photon_is_dm"@);
    assert(keys[5] == MESSAGE_ID@);
    assert(keys[6] == CHANNEL_NAME@);
    assert(keys[7] == SERVER_NAME@);
    assert(keys[8] == "sender_display_name"@);
}

/// An answer to a message goes back to the space that the message came from, refers to the
/// message by Photon's id for it, and is threaded by itself exactly if Photon marked the message
/// as one that mentions the bot or replies to it.
pub proof fn law_answer_goes_back(
    runtime_key: Seq<char>,
    dm_allow_list: Seq<Seq<char>>,
    payload: PayloadModel,
    now: Timestamp,
)
    requires
        accepts(dm_allow_list, payload),
    ensures
        ({
            let message = converted(runtime_key, payload, now);
            let id = if is_blank_text(payload.message_id) {
                None
            } else {
                Some(payload.message_id)
            };
            &&& space_of(message) == Some(payload.space_id)
            &&& message_id_of(message) == id
            &&& refers_to_bot(message) == payload.mentions_or_replies_to_bot
            &&& thread_of(message, true) == id
            &&& thread_of(message, false) == if payload.mentions_or_replies_to_bot {
                id
            } else {
                None
            }
        }),
{
    law_metadata_of_message(payload);
}

/// A message that declares a time in RFC 3339 has that time, whatever the clock says; every other
/// message has the time on the clock. Nothing else about a message depends on the clock.
pub proof fn law_arrival(
    runtime_key: Seq<char>,
    payload: PayloadModel,
    now: Timestamp,
    later: Timestamp,
)
    ensures
        ({
            let declared = match payload.timestamp {
                Some(text) => rfc3339_instant(text),
                None => None,
            };
            let message = converted(runtime_key, payload, now);
            &&& match declared {
                Some(instant) => message.timestamp.seconds == instant.0 && message.timestamp.nanos
                    == instant.1,
                None => message.timestamp == now,
            }
            &&& converted(runtime_key, payload, later) == (InboundModel {
                timestamp: arrival(payload.timestamp, later),
                ..message
            })
        }),
{
}

/// The conversation of a message is named by the key of the adapter and the space.
pub proof fn law_conversation_id(runtime_key: Seq<char>, payload: PayloadModel, now: Timestamp)
    ensures
        converted(runtime_key, payload, now).conversation_id == runtime_key + ":"@
            + payload.space_id,
{
    reveal_strlit("photon");
    reveal_strlit(":");
    assert(":"@ =~= seq![':']);
    let base = PHOTON_SOURCE@ + ":"@ + payload.space_id;
    assert(!PHOTON_SOURCE@.contains(':')) by {
        assert(PHOTON_SOURCE@ =~= seq!['p', 'h', 'o', 't', 'o', 'n']);
    }
    assert(base[6] == ':');
    lemma_from_first_of_prefix(PHOTON_SOURCE@, payload.space_id, ':');
    assert(base =~= PHOTON_SOURCE@ + seq![':'] + payload.space_id);
    assert(runtime_key + (seq![':'] + payload.space_id) =~= runtime_key + ":"@ + payload.space_id);
}

/// Two messages of the same adapter belong to the same conversation exactly if they came from the
/// same space.
pub proof fn law_conversations_are_spaces(
    runtime_key: Seq<char>,
    a: PayloadModel,
    b: PayloadModel,
    now_a: Timestamp,
    now_b: Timestamp,
)
    ensures
        converted(runtime_key, a, now_a).conversation_id == converted(
            runtime_key,
            b,
            now_b,
        ).conversation_id <==> a.space_id == b.space_id,
{
    law_conversation_id(runtime_key, a, now_a);
    law_conversation_id(runtime_key, b, now_b);
    let head = runtime_key + ":"@;
    assert((head + a.space_id).skip(head.len() as int) =~= a.space_id);
    assert((head + b.space_id).skip(head.len() as int) =~= b.space_id);
}

/// The space of a conversation is found from its id alone, if the space's own id has no colon:
/// then a message of that conversation without metadata is answered in the same space.
pub proof fn law_space_from_conversation_id(
    runtime_key: Seq<char>,
    payload: PayloadModel,
    now: Timestamp,
    message: InboundModel,
)
    requires
        !is_blank_text(payload.space_id),
        !payload.space_id.contains(':'),
        message.conversation_id == converted(runtime_key, payload, now).conversation_id,
        !message.metadata.contains_key("photon_space_id"@),
    ensures
        space_of(message) == Some(payload.space_id),
{
    law_conversation_id(runtime_key, payload, now);
    reveal_strlit(":");
    lemma_last_segment_of_suffix(runtime_key, payload.space_id, ':');
    assert(runtime_key.push(':') + payload.space_id =~= runtime_key + ":"@ + payload.space_id);
}

/// Every attachment that is passed on has an address, and there are at most as many as came.
pub proof fn law_attachments_have_addresses(attachments: Seq<SidecarAttachmentModel>)
    ensures
        converted_attachments(attachments).len() <= attachments.len(),
        forall|i: int|
            0 <= i < converted_attachments(attachments).len() ==> (
            #[trigger] converted_attachments(attachments)[i]).url.len() > 0,
    decreases attachments.len(),
{
    if attachments.len() > 0 {
        law_attachments_have_addresses(attachments.drop_last());
        reveal_strlit("data:");
        assert("data:"@.len() == 5);
    }
}

/// A text that is not blank goes out as a reply exactly if the message has an id, and either
/// threading is asked for or the message mentions the bot or replies to it; else it goes out as a
/// plain text.
pub proof fn law_threading(message: InboundModel, text: Seq<char>, force: bool)
    requires
        !is_blank_text(text),
        space_of(message) is Some,
    ensures
        ({
            let threaded = message_id_of(message) is Some && (force || refers_to_bot(message));
            text_plan(message, text, force) matches Ok(Some(command)) && command.command == if threaded {
                SidecarCommandKind::SendReply
            } else {
                SidecarCommandKind::SendText
            }
        }),
{
}

/// Nothing is threaded by itself: without a request for a thread, and without a mark of Photon's
/// on the message, no text goes out as a reply, and no payload names a message to reply to.
pub proof fn law_unmarked_messages_are_not_threaded(
    streams: Map<Seq<char>, Seq<char>>,
    message: InboundModel,
    response: ResponseModel,
)
    requires
        !refers_to_bot(message),
        !(response is ThreadReply),
    ensures
        response_plan(streams, message, response).1 matches Ok(Some(command)) ==> {
            &&& command.command != SidecarCommandKind::SendReply
            &&& command.payload matches JsonModel::Object(members) ==> forall|i: int|
                0 <= i < members.len() ==> (#[trigger] members[i]).0 != "reply_to_message_id"@
        },
{
    reveal_strlit("caption");
    reveal_strlit("data_base64");
    reveal_strlit("emoji");
    reveal_strlit("filename");
    reveal_strlit("message_id");
    reveal_strlit("mime_type");
    reveal_strlit("reply_to_message_id");
    reveal_strlit("space_id");
    reveal_strlit("text");
    assert("reply_to_message_id"@.len() == 19);
    assert("caption"@.len() == 7 && "data_base64"@.len() == 11 && "filename"@.len() == 8);
    assert("emoji"@.len() == 5 && "message_id"@.len() == 10 && "mime_type"@.len() == 9);
    assert("space_id"@.len() == 8 && "text"@.len() == 4);
}

/// A blank text is never sent.
pub proof fn law_blank_text_is_not_sent(message: InboundModel, text: Seq<char>, force: bool)
    requires
        is_blank_text(text),
    ensures
        text_plan(message, text, force) == Ok::<Option<CommandModel>, ErrorModel>(None),
{
}

/// The texts that are being streamed after the chunks have come in.
pub open spec fn after_chunks(
    streams: Map<Seq<char>, Seq<char>>,
    message: InboundModel,
    chunks: Seq<Seq<char>>,
) -> Map<Seq<char>, Seq<char>>
    decreases chunks.len(),
{
    if chunks.len() == 0 {
        streams
    } else {
        response_plan(
            after_chunks(streams, message, chunks.drop_last()),
            message,
            ResponseModel::StreamChunk(chunks.last()),
        ).0
    }
}

/// The chunks, one after the other.
pub open spec fn concatenated(chunks: Seq<Seq<char>>) -> Seq<char>
    decreases chunks.len(),
{
    if chunks.len() == 0 {
        Seq::empty()
    } else {
        concatenated(chunks.drop_last()) + chunks.last()
    }
}

/// While a stream is open, its conversation holds the chunks so far, and no other conversation
/// changes.
proof fn lemma_after_chunks(
    streams: Map<Seq<char>, Seq<char>>,
    message: InboundModel,
    chunks: Seq<Seq<char>>,
)
    requires
        streams.contains_key(message.conversation_id),
    ensures
        after_chunks(streams, message, chunks) == streams.insert(
            message.conversation_id,
            streams[message.conversation_id] + concatenated(chunks),
        ),
    decreases chunks.len(),
{
    let conversation = message.conversation_id;
    if chunks.len() == 0 {
        assert(streams[conversation] + concatenated(chunks) =~= streams[conversation]);
        assert(streams.insert(conversation, streams[conversation]) =~= streams);
    } else {
        lemma_after_chunks(streams, message, chunks.drop_last());
        let held = streams[conversation] + concatenated(chunks.drop_last());
        assert(held + chunks.last() =~= streams[conversation] + concatenated(chunks));
        assert(streams.insert(conversation, held).insert(conversation, held + chunks.last())
            =~= streams.insert(conversation, held + chunks.last()));
    }
}

/// A stream that is started, fed with chunks and ended says what one text with all the chunks
/// would have said, and leaves nothing behind.
pub proof fn law_stream_says_its_chunks(
    streams: Map<Seq<char>, Seq<char>>,
    message: InboundModel,
    chunks: Seq<Seq<char>>,
)
    ensures
        ({
            let started = response_plan(streams, message, ResponseModel::StreamStart).0;
            let fed = after_chunks(started, message, chunks);
            let ended = response_plan(fed, message, ResponseModel::StreamEnd);
            &&& ended.0 == streams.remove(message.conversation_id)
            &&& ended.1 == response_plan(
                streams,
                message,
                ResponseModel::Text(concatenated(chunks)),
            ).1
        }),
{
    let conversation = message.conversation_id;
    let started = streams.insert(conversation, Seq::empty());
    lemma_after_chunks(started, message, chunks);
    assert(Seq::<char>::empty() + concatenated(chunks) =~= concatenated(chunks));
    assert(started.insert(conversation, concatenated(chunks)).remove(conversation)
        =~= streams.remove(conversation));
}

/// A response to one conversation leaves the streams of all others alone.
pub proof fn law_streams_are_separate(
    streams: Map<Seq<char>, Seq<char>>,
    message: InboundModel,
    response: ResponseModel,
    other: Seq<char>,
)
    requires
        other != message.conversation_id,
    ensures
        response_plan(streams, message, response).0.get(other) == streams.get(other),
{
}

/// Only stream responses touch the texts that are being streamed.
pub proof fn law_other_responses_keep_streams(
    streams: Map<Seq<char>, Seq<char>>,
    message: InboundModel,
    response: ResponseModel,
)
    requires
        !(response is StreamStart),
        !(response is StreamChunk),
        !(response is StreamEnd),
    ensures
        response_plan(streams, message, response).0 == streams,
{
}

/// Without a running sidecar no command goes out: not before the start, nor after a shutdown.
pub proof fn law_no_command_without_sidecar(
    adapter: AdapterModel,
    plan: Result<Option<CommandModel>, ErrorModel>,
    submission: Result<Option<EnvelopeModel>, ErrorModel>,
)
    requires
        !adapter.running,
        submits(adapter, plan, submission),
    ensures
        !(submission matches Ok(Some(_))),
{
}

/// Commands whose ids differ make as many requests, each of them with its own id, command and
/// payload, and no two of them with the same id. What happens to the adapter in between does not
/// matter as long as its sidecar is running.
pub proof fn law_requests_are_kept_apart(
    adapters: Seq<AdapterModel>,
    ids: Seq<Seq<char>>,
    commands: Seq<CommandModel>,
    requests: Seq<Result<EnvelopeModel, ErrorModel>>,
)
    requires
        adapters.len() == commands.len(),
        ids.len() == commands.len(),
        requests.len() == commands.len(),
        ids.no_duplicates(),
        forall|i: int| 0 <= i < commands.len() ==> (#[trigger] adapters[i]).running,
        forall|i: int|
            0 <= i < commands.len() ==> #[trigger] requests[i] == request_as(
                adapters[i],
                ids[i],
                commands[i],
            ),
    ensures
        forall|i: int|
            0 <= i < commands.len() ==> #[trigger] requests[i] == Ok::<EnvelopeModel, ErrorModel>(
                EnvelopeModel {
                    id: ids[i],
                    command: commands[i].command,
                    payload: commands[i].payload,
                },
            ),
        forall|i: int, j: int|
            0 <= i < j < commands.len() ==> (#[trigger] requests[i])->Ok_0.id != (
            #[trigger] requests[j])->Ok_0.id,
{
    assert forall|i: int| 0 <= i < commands.len() implies #[trigger] requests[i] == Ok::<
        EnvelopeModel,
        ErrorModel,
    >(
        EnvelopeModel {
            id: ids[i],
            command: commands[i].command,
            payload: commands[i].payload,
        },
    ) by {
        assert(adapters[i].running);
    }
}

/// A command that could not be handed over is an error that names the adapter and says why.
pub proof fn law_closed_queue_is_an_error(adapter: Seq<char>, detail: String)
    ensures
        reply_result(adapter, CommandReply::SendFailed(detail)) matches Err(error) && error_message(
            error,
        ) == "failed to send command to photon sidecar for '"@ + adapter + "': "@ + detail@,
{
}

} // verus!
