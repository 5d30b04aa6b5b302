//! What the sidecar is told to say, in terms of what the bot has to say and to whom.

use crate::attachment_data::base64_text;
use crate::base64_reading::{law_base64_reads_back, read_base64};
use crate::command::{CommandModel, SidecarCommandKind};
use crate::error::ErrorModel;
use crate::json::{JsonMember, JsonModel, JsonValue};
use crate::message::{InboundMessage, OutboundResponse, StatusUpdate};
use crate::outbound::{
    broadcast_plan, message_id_of, refers_to_bot, response_plan, space_of, status_plan, text_plan,
};
use crate::string_map::entries_map;
use crate::text::{lemma_last_segment_of_suffix, trimmed};
use crate::text_laws::{has_ink, law_blank_texts_have_no_ink, law_last_segment};
use vstd::prelude::*;

verus! {

/// JSON values are modelled as they are.
pub proof fn law_json_values_are_kept(
    flag: bool,
    text: String,
    member: JsonMember,
    members: Vec<JsonMember>,
)
    ensures
        JsonValue::Null@ == JsonModel::Null,
        JsonValue::Bool(flag)@ == JsonModel::Bool(flag),
        JsonValue::Text(text)@ == JsonModel::Text(text@),
        member@.0 == member.name@,
        member.value is None ==> member@.1 is None,
        member.value matches Some(value) ==> member@.1 == Some(value@),
        JsonValue::Object(members)@ matches JsonModel::Object(all) && all.len()
            == members@.len() && forall|i: int|
            0 <= i < all.len() ==> #[trigger] all[i] == members@[i]@,
{
}

/// What the metadata of a message say in a text under `key`.
pub open spec fn says_under(message: InboundMessage, key: Seq<char>, text: Seq<char>) -> bool {
    message.metadata@.contains_key(key) && message.metadata@[key] == JsonModel::Text(text)
}

/// Whether the metadata of a message hold no text under `key`.
pub open spec fn is_silent_under(message: InboundMessage, key: Seq<char>) -> bool {
    !message.metadata@.contains_key(key) || !(message.metadata@[key] is Text)
}

/// An answer goes to the space that the metadata of the message name. If they name none, it goes to
/// what stands behind the last colon of the conversation id. A blank space is none.
pub proof fn law_where_answers_go(
    message: InboundMessage,
    named: Seq<char>,
    head: Seq<char>,
    tail: Seq<char>,
)
    ensures
        says_under(message, "photon_space_id"@, named) ==> space_of(message@) == if has_ink(
            named,
        ) {
            Some(named)
        } else {
            None
        },
        is_silent_under(message, "photon_space_id"@) && !tail.contains(':') && (
        message.conversation_id@ == head.push(':') + tail || message.conversation_id@ == tail)
            ==> space_of(message@) == if has_ink(tail) {
            Some(tail)
        } else {
            None
        },
{
    law_blank_texts_have_no_ink(named);
    law_blank_texts_have_no_ink(tail);
    if !tail.contains(':') {
        lemma_last_segment_of_suffix(head, tail, ':');
        law_last_segment(tail, ':');
    }
}

/// The id of a message is what its metadata name, unless that is blank; it refers to the bot exactly
/// if its metadata say so.
pub proof fn law_what_is_answered(message: InboundMessage, id: Seq<char>)
    ensures
        says_under(message, "photon_message_id"@, id) ==> message_id_of(message@) == if has_ink(
            id,
        ) {
            Some(id)
        } else {
            None
        },
        is_silent_under(message, "photon_message_id"@) ==> message_id_of(message@) is None,
        refers_to_bot(message@) <==> message.metadata@.contains_key(
            "photon_mentions_or_replies_to_bot"@,
        ) && message.metadata@["photon_mentions_or_replies_to_bot"@] == JsonModel::Bool(true),
{
    law_blank_texts_have_no_ink(id);
}

/// The members of a payload, by name. A payload that is no object has none.
pub open spec fn members_of(payload: JsonModel) -> Map<Seq<char>, Option<Seq<char>>> {
    match payload {
        JsonModel::Object(members) => entries_map(members),
        _ => Map::empty(),
    }
}

/// Whether `plan` is to send one command of the given kind, whose payload has exactly the given
/// members.
pub open spec fn sends(
    plan: Result<Option<CommandModel>, ErrorModel>,
    command: SidecarCommandKind,
    members: Map<Seq<char>, Option<Seq<char>>>,
) -> bool {
    &&& plan matches Ok(Some(planned))
    &&& planned.command == command
    &&& planned.payload is Object
    &&& members_of(planned.payload) == members
}

/// Whether `plan` is to send nothing.
pub open spec fn sends_nothing(plan: Result<Option<CommandModel>, ErrorModel>) -> bool {
    plan matches Ok(None)
}

/// Whether `plan` is to report that the message names no space.
pub open spec fn misses_space(plan: Result<Option<CommandModel>, ErrorModel>) -> bool {
    plan matches Err(error) && error is MissingSpaceId
}

/// The members that say a text in a space.
pub open spec fn text_members(space: Seq<char>, text: Seq<char>) -> Map<
    Seq<char>,
    Option<Seq<char>>,
> {
    Map::empty().insert("space_id"@, Some(space)).insert("text"@, Some(text))
}

/// A text with ink in it is said as it is, character for character, in the space that the message
/// came from. It is threaded under the message, if the message has an id, exactly if that is asked
/// for or the message refers to the bot. A blank text is not said, and without a space there is an
/// error.
pub proof fn law_text_is_said_whole(message: InboundMessage, text: String, force: bool)
    ensures
        ({
            let plan = text_plan(message@, text@, force);
            let threaded = message_id_of(message@) is Some && (force || refers_to_bot(message@));
            &&& !has_ink(text@) ==> sends_nothing(plan)
            &&& has_ink(text@) && space_of(message@) is None ==> misses_space(plan)
            &&& has_ink(text@) && space_of(message@) is Some && !threaded ==> sends(
                plan,
                SidecarCommandKind::SendText,
                text_members(space_of(message@)->0, text@),
            )
            &&& has_ink(text@) && space_of(message@) is Some && threaded ==> sends(
                plan,
                SidecarCommandKind::SendReply,
                text_members(space_of(message@)->0, text@).insert(
                    "reply_to_message_id"@,
                    Some(message_id_of(message@)->0),
                ),
            )
        }),
{
    law_blank_texts_have_no_ink(text@);
    lemma_text_command(message, text, force);
}

proof fn lemma_text_command(message: InboundMessage, text: String, force: bool)
    ensures
        text_plan(message@, text@, force) matches Ok(Some(planned)) ==> ({
            let said = text_members(space_of(message@)->0, text@);
            let threaded = message_id_of(message@) is Some && (force || refers_to_bot(message@));
            &&& planned.payload is Object
            &&& members_of(planned.payload) == if threaded {
                said.insert("reply_to_message_id"@, Some(message_id_of(message@)->0))
            } else {
                said
            }
        }),
{
    if let Ok(Some(planned)) = text_plan(message@, text@, force) {
        let (space, id) = (space_of(message@)->0, message_id_of(message@)->0);
        let members = planned.payload->Object_0;
        reveal_with_fuel(entries_map, 4);
        if members.len() == 3 {
            lemma_reply_names();
            assert(members.drop_last().drop_last().drop_last() =~= Seq::empty());
            assert(entries_map(members) =~= text_members(space, text@).insert(
                "reply_to_message_id"@,
                Some(id),
            ));
        } else {
            assert(members.drop_last().drop_last() =~= Seq::empty());
            assert(entries_map(members) =~= text_members(space, text@));
        }
    }
}

/// The names of the members of a reply are different texts.
proof fn lemma_reply_names()
    ensures
        "reply_to_message_id"@ != "space_id"@,
        "reply_to_message_id"@ != "text"@,
        "space_id"@ != "text"@,
{
    reveal_strlit("reply_to_message_id");
    reveal_strlit("space_id");
    reveal_strlit("text");
    assert("reply_to_message_id"@.len() == 19);
    assert("space_id"@.len() == 8 && "text"@.len() == 4);
}

/// The text that a response is there to say.
pub open spec fn text_in(response: OutboundResponse) -> Option<String> {
    match response {
        OutboundResponse::Text(text) => Some(text),
        OutboundResponse::RichMessage { text } => Some(text),
        OutboundResponse::ThreadReply { text } => Some(text),
        OutboundResponse::Ephemeral { text } => Some(text),
        OutboundResponse::ScheduledMessage { text } => Some(text),
        _ => None,
    }
}

/// Every response that is there to say a text says it as `law_text_is_said_whole` tells, and touches
/// no stream. Only a reply in a thread asks for a thread.
pub proof fn law_texts_are_said(
    streams: Map<Seq<char>, Seq<char>>,
    message: InboundMessage,
    response: OutboundResponse,
)
    requires
        text_in(response) is Some,
    ensures
        response_plan(streams, message@, response@) == (
            streams,
            text_plan(message@, text_in(response)->0@, response is ThreadReply),
        ),
{
}

/// Starting a stream empties it; every chunk goes to its end, and opens it if need be; ending it
/// says what it holds, as a plain text would, and forgets it. Ending a stream that is not open does
/// nothing. Nothing is sent before the end.
pub proof fn law_streaming(
    streams: Map<Seq<char>, Seq<char>>,
    message: InboundMessage,
    chunk: String,
)
    ensures
        ({
            let conversation = message.conversation_id@;
            let (started, at_start) = response_plan(
                streams,
                message@,
                OutboundResponse::StreamStart@,
            );
            let (fed, at_chunk) = response_plan(
                streams,
                message@,
                OutboundResponse::StreamChunk(chunk)@,
            );
            let (ended, at_end) = response_plan(streams, message@, OutboundResponse::StreamEnd@);
            &&& sends_nothing(at_start)
            &&& sends_nothing(at_chunk)
            &&& started.contains_key(conversation) && started[conversation].len() == 0
            &&& started.remove(conversation) == streams.remove(conversation)
            &&& fed.contains_key(conversation)
            &&& streams.contains_key(conversation) ==> fed[conversation] == streams[conversation]
                + chunk@
            &&& !streams.contains_key(conversation) ==> fed[conversation] == chunk@
            &&& fed.remove(conversation) == streams.remove(conversation)
            &&& ended == streams.remove(conversation)
            &&& !streams.contains_key(conversation) ==> sends_nothing(at_end)
            &&& streams.contains_key(conversation) ==> at_end == text_plan(
                message@,
                streams[conversation],
                false,
            )
        }),
{
    let conversation = message.conversation_id@;
    let started = response_plan(streams, message@, OutboundResponse::StreamStart@).0;
    let fed = response_plan(streams, message@, OutboundResponse::StreamChunk(chunk)@).0;
    let ended = response_plan(streams, message@, OutboundResponse::StreamEnd@).0;
    assert(started.remove(conversation) =~= streams.remove(conversation));
    assert(fed.remove(conversation) =~= streams.remove(conversation));
    assert(ended =~= streams.remove(conversation));
}

/// Whether the members of a payload are those of a file in a space: its name, its type, its contents
/// in base64, and its caption, which is null if there is none.
pub open spec fn holds_file(
    members: Map<Seq<char>, Option<Seq<char>>>,
    space: Seq<char>,
    filename: String,
    data: Vec<u8>,
    mime_type: String,
    caption: Option<String>,
) -> bool {
    &&& members.contains_key("space_id"@) && members["space_id"@] == Some(space)
    &&& members.contains_key("filename"@) && members["filename"@] == Some(filename@)
    &&& members.contains_key("mime_type"@) && members["mime_type"@] == Some(mime_type@)
    &&& members.contains_key("data_base64"@) && members["data_base64"@] is Some && read_base64(
        members["data_base64"@]->0,
    ) == data@
    &&& members.contains_key("caption"@) && match caption {
        Some(text) => members["caption"@] == Some(text@),
        None => members["caption"@] is None,
    }
    &&& members.dom() == set!["caption"@, "data_base64"@, "filename"@, "mime_type"@, "space_id"@]
}

/// A file goes to the space that the message came from, with all that was given of it. It is
/// threaded under the message, if the message has an id, exactly if the message refers to the bot;
/// that adds the id of the message, and changes nothing else.
pub proof fn law_file_is_sent_whole(
    streams: Map<Seq<char>, Seq<char>>,
    message: InboundMessage,
    filename: String,
    data: Vec<u8>,
    mime_type: String,
    caption: Option<String>,
)
    ensures
        ({
            let response = OutboundResponse::File { filename, data, mime_type, caption };
            let (after, plan) = response_plan(streams, message@, response@);
            let threaded = message_id_of(message@) is Some && refers_to_bot(message@);
            let reply = "reply_to_message_id"@;
            &&& after == streams
            &&& space_of(message@) is None ==> misses_space(plan)
            &&& space_of(message@) matches Some(space) ==> {
                &&& plan matches Ok(Some(planned))
                &&& planned.command == SidecarCommandKind::SendFile
                &&& planned.payload is Object
                &&& holds_file(
                    members_of(planned.payload).remove(reply),
                    space,
                    filename,
                    data,
                    mime_type,
                    caption,
                )
                &&& threaded <==> members_of(planned.payload).contains_key(reply)
                &&& threaded ==> members_of(planned.payload)[reply] == Some(
                    message_id_of(message@)->0,
                )
            }
        }),
{
    let response = OutboundResponse::File { filename, data, mime_type, caption };
    if let Some(space) = space_of(message@) {
        let planned = response_plan(streams, message@, response@).1->Ok_0->0;
        let id = if refers_to_bot(message@) {
            message_id_of(message@)
        } else {
            None
        };
        lemma_file_members(
            planned.payload->Object_0,
            space,
            id,
            filename,
            data,
            mime_type,
            caption,
        );
    }
}

/// The members of a file.
proof fn lemma_file_members(
    members: Seq<(Seq<char>, Option<Seq<char>>)>,
    space: Seq<char>,
    reply_to: Option<Seq<char>>,
    filename: String,
    data: Vec<u8>,
    mime_type: String,
    caption: Option<String>,
)
    requires
        ({
            let file = seq![
                ("caption"@, caption.deep_view()),
                ("data_base64"@, Some(base64_text(data@))),
                ("filename"@, Some(filename@)),
                ("mime_type"@, Some(mime_type@)),
            ];
            members == match reply_to {
                Some(id) => file.push(("reply_to_message_id"@, Some(id))).push(
                    ("space_id"@, Some(space)),
                ),
                None => file.push(("space_id"@, Some(space))),
            }
        }),
    ensures
        ({
            let all = entries_map(members);
            let reply = "reply_to_message_id"@;
            &&& holds_file(all.remove(reply), space, filename, data, mime_type, caption)
            &&& reply_to is Some <==> all.contains_key(reply)
            &&& reply_to matches Some(id) ==> all[reply] == Some(id)
        }),
{
    law_base64_reads_back(data@);
    lemma_file_names();
    let all = entries_map(members);
    reveal_with_fuel(entries_map, 7);
    let names = set!["caption"@, "data_base64"@, "filename"@, "mime_type"@, "space_id"@];
    if reply_to is Some {
        assert(members.drop_last().drop_last().drop_last().drop_last().drop_last().drop_last()
            =~= Seq::empty());
    } else {
        assert(members.drop_last().drop_last().drop_last().drop_last().drop_last() =~= Seq::empty());
    }
    assert(all.remove("reply_to_message_id"@).dom() =~= names);
}

/// The names of the members of a file are different texts.
proof fn lemma_file_names()
    ensures
        "caption"@ != "data_base64"@,
        "caption"@ != "filename"@,
        "caption"@ != "mime_type"@,
        "caption"@ != "reply_to_message_id"@,
        "caption"@ != "space_id"@,
        "data_base64"@ != "filename"@,
        "data_base64"@ != "mime_type"@,
        "data_base64"@ != "reply_to_message_id"@,
        "data_base64"@ != "space_id"@,
        "filename"@ != "mime_type"@,
        "filename"@ != "reply_to_message_id"@,
        "filename"@ != "space_id"@,
        "mime_type"@ != "reply_to_message_id"@,
        "mime_type"@ != "space_id"@,
        "reply_to_message_id"@ != "space_id"@,
{
    reveal_strlit("caption");
    reveal_strlit("data_base64");
    reveal_strlit("filename");
    reveal_strlit("mime_type");
    reveal_strlit("reply_to_message_id");
    reveal_strlit("space_id");
    assert("caption"@.len() == 7 && "data_base64"@.len() == 11 && "mime_type"@.len() == 9);
    assert("filename"@.len() == 8 && "filename"@[0] == 'f');
    assert("reply_to_message_id"@.len() == 19);
    assert("space_id"@.len() == 8 && "space_id"@[0] == 's');
}

/// A reaction is given, or taken back, with its emoji, to the message by its id, in the space that
/// the message came from. To a message without an id there is none, and without a space there is an
/// error.
pub proof fn law_reactions(
    streams: Map<Seq<char>, Seq<char>>,
    message: InboundMessage,
    emoji: String,
)
    ensures
        ({
            let (kept, given) = response_plan(
                streams,
                message@,
                OutboundResponse::Reaction(emoji)@,
            );
            let (left, taken) = response_plan(
                streams,
                message@,
                OutboundResponse::RemoveReaction(emoji)@,
            );
            &&& kept == streams && left == streams
            &&& message_id_of(message@) is None ==> sends_nothing(given) && sends_nothing(taken)
            &&& message_id_of(message@) is Some && space_of(message@) is None ==> misses_space(
                given,
            ) && misses_space(taken)
            &&& message_id_of(message@) is Some && space_of(message@) is Some ==> {
                let members = Map::empty().insert("emoji"@, Some(emoji@)).insert(
                    "message_id"@,
                    Some(message_id_of(message@)->0),
                ).insert("space_id"@, Some(space_of(message@)->0));
                &&& sends(given, SidecarCommandKind::AddReaction, members)
                &&& sends(taken, SidecarCommandKind::RemoveReaction, members)
            }
        }),
{
    reveal_with_fuel(entries_map, 4);
    if message_id_of(message@) is Some && space_of(message@) is Some {
        let given = response_plan(streams, message@, OutboundResponse::Reaction(emoji)@).1;
        let taken = response_plan(streams, message@, OutboundResponse::RemoveReaction(emoji)@).1;
        let a = given->Ok_0->0.payload->Object_0;
        let b = taken->Ok_0->0.payload->Object_0;
        assert(a.drop_last().drop_last().drop_last() =~= Seq::empty());
        assert(b.drop_last().drop_last().drop_last() =~= Seq::empty());
        let members = Map::<Seq<char>, Option<Seq<char>>>::empty().insert(
            "emoji"@,
            Some(emoji@),
        ).insert("message_id"@, Some(message_id_of(message@)->0)).insert(
            "space_id"@,
            Some(space_of(message@)->0),
        );
        assert(entries_map(a) =~= members);
        assert(entries_map(b) =~= members);
    }
}

/// The bot is seen typing in the space that the message came from exactly while it thinks. A status
/// is the same whether it comes by itself or as a response.
pub proof fn law_statuses(
    streams: Map<Seq<char>, Seq<char>>,
    message: InboundMessage,
    status: StatusUpdate,
)
    ensures
        ({
            let plan = status_plan(message@, status);
            &&& response_plan(streams, message@, OutboundResponse::Status(status)@) == (
                streams,
                plan,
            )
            &&& space_of(message@) is None ==> misses_space(plan)
            &&& space_of(message@) matches Some(space) ==> sends(
                plan,
                if status == StatusUpdate::Thinking {
                    SidecarCommandKind::StartTyping
                } else {
                    SidecarCommandKind::StopTyping
                },
                Map::empty().insert("space_id"@, Some(space)),
            )
        }),
{
    if let Some(space) = space_of(message@) {
        let members = status_plan(message@, status)->Ok_0->0.payload->Object_0;
        reveal_with_fuel(entries_map, 2);
        assert(members.drop_last() =~= Seq::empty());
        assert(entries_map(members) =~= Map::<Seq<char>, Option<Seq<char>>>::empty().insert(
            "space_id"@,
            Some(space),
        ));
    }
}

/// A text that is broadcast goes as it is, even if it is blank, to the space that the target names
/// without the white space around it, as one plain text; it does not matter what kind of response it
/// comes in. A blank target is an error.
pub proof fn law_texts_are_broadcast(target: Seq<char>, response: OutboundResponse)
    requires
        text_in(response) is Some,
    ensures
        has_ink(target) ==> sends(
            broadcast_plan(target, response@),
            SidecarCommandKind::SendText,
            text_members(trimmed(target), text_in(response)->0@),
        ),
        !has_ink(target) ==> (broadcast_plan(target, response@) matches Err(error) && error
            is EmptyBroadcastTarget),
{
    law_blank_texts_have_no_ink(target);
    if has_ink(target) {
        let members = broadcast_plan(target, response@)->Ok_0->0.payload->Object_0;
        reveal_with_fuel(entries_map, 3);
        assert(members.drop_last().drop_last() =~= Seq::empty());
        assert(entries_map(members) =~= text_members(trimmed(target), text_in(response)->0@));
    }
}

/// A file that is broadcast goes to the space that the target names without the white space around
/// it, with all that was given of it, and is never threaded. A blank target is an error.
pub proof fn law_files_are_broadcast(
    target: Seq<char>,
    filename: String,
    data: Vec<u8>,
    mime_type: String,
    caption: Option<String>,
)
    ensures
        ({
            let response = OutboundResponse::File { filename, data, mime_type, caption };
            let plan = broadcast_plan(target, response@);
            &&& has_ink(target) ==> {
                &&& plan matches Ok(Some(planned))
                &&& planned.command == SidecarCommandKind::SendFile
                &&& planned.payload is Object
                &&& holds_file(
                    members_of(planned.payload),
                    trimmed(target),
                    filename,
                    data,
                    mime_type,
                    caption,
                )
            }
            &&& !has_ink(target) ==> (plan matches Err(error) && error is EmptyBroadcastTarget)
        }),
{
    law_blank_texts_have_no_ink(target);
    if has_ink(target) {
        let response = OutboundResponse::File { filename, data, mime_type, caption };
        let members = broadcast_plan(target, response@)->Ok_0->0.payload->Object_0;
        lemma_file_members(
            members,
            trimmed(target),
            None,
            filename,
            data,
            mime_type,
            caption,
        );
        let all = entries_map(members);
        assert(all.remove("reply_to_message_id"@) =~= all);
    }
}

/// Only texts and files are broadcast: every other response is passed over, but for the error of a
/// blank target.
pub proof fn law_nothing_else_is_broadcast(target: Seq<char>, response: OutboundResponse)
    requires
        text_in(response) is None,
        !(response is File),
    ensures
        has_ink(target) ==> sends_nothing(broadcast_plan(target, response@)),
        !has_ink(target) ==> (broadcast_plan(target, response@) matches Err(error) && error
            is EmptyBroadcastTarget),
{
    law_blank_texts_have_no_ink(target);
}

} // verus!
