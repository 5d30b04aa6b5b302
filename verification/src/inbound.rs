//! From what the sidecar reports to what the bot is told.

use crate::allow_list::{admits_sender, AllowList};
use crate::clock::{arrival, arrival_time_at, Timestamp};
use crate::json::{JsonModel, JsonValue};
use crate::message::{
    Attachment, AttachmentModel, ContentModel, InboundMessage, InboundModel, MessageContent,
};
use crate::metadata_keys::{CHANNEL_NAME, MESSAGE_ID, SERVER_NAME};
use crate::sidecar::{
    PayloadModel, SidecarAttachmentModel, SidecarInboundAttachment, SidecarInboundPayload,
};
use crate::string_map::StringMap;
use crate::text::{from_first, is_blank, is_blank_text, split_first, trimmed};
use vstd::prelude::*;

verus! {

/// The platform that messages of this adapter come from.
pub const PHOTON_SOURCE: &'static str = "photon";

/// The conversation id `base` of a platform, as it is used by the adapter `runtime_key`: the
/// adapter's key takes the place of the platform, which stands in front of the first colon.
pub open spec fn rekeyed(runtime_key: Seq<char>, base: Seq<char>) -> Seq<char> {
    if base.contains(':') {
        runtime_key + from_first(base, ':')
    } else {
        base
    }
}

/// Whether a message is passed on: it names a space and a sender, and the list lets the sender
/// through.
pub open spec fn accepts(dm_allow_list: Seq<Seq<char>>, payload: PayloadModel) -> bool {
    &&& !is_blank_text(payload.space_id)
    &&& !is_blank_text(payload.sender_id)
    &&& admits_sender(dm_allow_list, payload.sender_id)
}

/// Where the contents of an attachment are: in the URL itself if the sidecar sent them along,
/// else at the address that it gave; `None` if it did neither.
pub open spec fn attachment_url(attachment: SidecarAttachmentModel) -> Option<Seq<char>> {
    let inline = match attachment.data_base64 {
        Some(raw) => trimmed(raw),
        None => Seq::empty(),
    };
    let address = match attachment.url {
        Some(url) => trimmed(url),
        None => Seq::empty(),
    };
    if inline.len() > 0 {
        Some("data:"@ + attachment.mime_type + ";base64,"@ + inline)
    } else if address.len() > 0 {
        Some(address)
    } else {
        None
    }
}

/// The attachments whose contents can be had, in their order.
pub open spec fn converted_attachments(attachments: Seq<SidecarAttachmentModel>) -> Seq<
    AttachmentModel,
>
    decreases attachments.len(),
{
    if attachments.len() == 0 {
        Seq::empty()
    } else {
        let earlier = converted_attachments(attachments.drop_last());
        let last = attachments.last();
        match attachment_url(last) {
            Some(url) => earlier.push(
                AttachmentModel {
                    filename: last.filename,
                    mime_type: last.mime_type,
                    url,
                    size_bytes: last.size_bytes,
                    auth_header: None,
                    pre_saved_id: None,
                },
            ),
            None => earlier,
        }
    }
}

/// `metadata`, with a non-empty `text` put under `key`.
pub open spec fn with_text(
    metadata: Map<Seq<char>, JsonModel>,
    key: Seq<char>,
    text: Option<Seq<char>>,
) -> Map<Seq<char>, JsonModel> {
    match text {
        Some(text) if text.len() > 0 => metadata.insert(key, JsonModel::Text(text)),
        _ => metadata,
    }
}

/// The metadata of a message.
pub open spec fn converted_metadata(payload: PayloadModel) -> Map<Seq<char>, JsonModel> {
    let ids = Map::<Seq<char>, JsonModel>::empty()
        .insert("photon_space_id"@, JsonModel::Text(payload.space_id))
        .insert("photon_message_id"@, JsonModel::Text(payload.message_id))
        .insert("photon_sender_id"@, JsonModel::Text(payload.sender_id))
        .insert(
            "photon_mentions_or_replies_to_bot"@,
            JsonModel::Bool(payload.mentions_or_replies_to_bot),
        )
        .insert("photon_is_dm"@, JsonModel::Bool(payload.is_dm))
        .insert(MESSAGE_ID@, JsonModel::Text(payload.message_id));
    let named = with_text(ids, CHANNEL_NAME@, payload.space_name);
    let served = with_text(named, SERVER_NAME@, payload.server_name);
    with_text(served, "sender_display_name"@, payload.sender_display_name)
}

/// What a message says: its text alone, or its attachments with the text if there is any.
pub open spec fn converted_content(payload: PayloadModel) -> ContentModel {
    let attachments = converted_attachments(payload.attachments);
    if attachments.len() == 0 {
        ContentModel::Text(payload.text)
    } else {
        ContentModel::Media {
            text: if payload.text.len() == 0 {
                None
            } else {
                Some(payload.text)
            },
            attachments,
        }
    }
}

/// The message that the bot is told of, if it is `now`.
pub open spec fn converted(
    runtime_key: Seq<char>,
    payload: PayloadModel,
    now: Timestamp,
) -> InboundModel {
    InboundModel {
        id: payload.message_id,
        source: PHOTON_SOURCE@,
        adapter: Some(runtime_key),
        conversation_id: rekeyed(runtime_key, PHOTON_SOURCE@ + ":"@ + payload.space_id),
        sender_id: payload.sender_id,
        agent_id: None,
        content: converted_content(payload),
        timestamp: arrival(payload.timestamp, now),
        metadata: converted_metadata(payload),
        formatted_author: payload.sender_display_name,
    }
}

/// Puts the key of the adapter in place of the platform in a conversation id.
pub fn apply_runtime_adapter_to_conversation_id(
    runtime_key: &str,
    base_conversation_id: String,
) -> (conversation_id: String)
    ensures
        conversation_id@ == rekeyed(runtime_key@, base_conversation_id@),
{
    let rest = split_first(base_conversation_id.as_str(), ':');
    proof {
        lemma_from_first_empty_iff_absent(base_conversation_id@, ':');
    }
    if rest.as_str().is_empty() {
        base_conversation_id
    } else {
        String::from(runtime_key).concat(rest.as_str())
    }
}

/// Nothing stands from the first separator on exactly if there is no separator.
proof fn lemma_from_first_empty_iff_absent(text: Seq<char>, separator: char)
    ensures
        from_first(text, separator).len() == 0 <==> !text.contains(separator),
    decreases text.len(),
{
    if text.len() > 0 {
        if text.first() == separator {
            assert(text[0] == separator);
        } else {
            lemma_from_first_empty_iff_absent(text.drop_first(), separator);
            if text.contains(separator) {
                let i = choose|i: int| 0 <= i < text.len() && text[i] == separator;
                assert(text.drop_first()[i - 1] == separator);
            }
            if text.drop_first().contains(separator) {
                let i = choose|i: int|
                    0 <= i < text.drop_first().len() && text.drop_first()[i] == separator;
                assert(text[i + 1] == separator);
            }
        }
    }
}

/// Takes over an attachment whose contents can be had.
fn convert_attachment(attachment: &SidecarInboundAttachment) -> (converted: Option<Attachment>)
    ensures
        match attachment_url(attachment@) {
            Some(url) => converted is Some && converted->0@ == (AttachmentModel {
                filename: attachment.filename@,
                mime_type: attachment.mime_type@,
                url,
                size_bytes: attachment.size_bytes,
                auth_header: None,
                pre_saved_id: None,
            }),
            None => converted is None,
        },
{
    let inline = match &attachment.data_base64 {
        Some(raw) => raw.as_str().trim(),
        None => "",
    };
    let address = match &attachment.url {
        Some(url) => url.as_str().trim(),
        None => "",
    };
    proof {
        reveal_strlit("");
        assert(""@ =~= Seq::empty());
    }
    let url = if !inline.is_empty() {
        "data:".to_string()
            .concat(attachment.mime_type.as_str())
            .concat(";base64,")
            .concat(inline)
    } else if !address.is_empty() {
        address.to_string()
    } else {
        return None;
    };
    Some(
        Attachment {
            filename: attachment.filename.clone(),
            mime_type: attachment.mime_type.clone(),
            url,
            size_bytes: attachment.size_bytes,
            auth_header: None,
            pre_saved_id: None,
        },
    )
}

/// Takes over the attachments whose contents can be had.
fn convert_attachments(attachments: &Vec<SidecarInboundAttachment>) -> (converted: Vec<Attachment>)
    ensures
        converted@.map_values(|attachment: Attachment| attachment@) == converted_attachments(
            attachments@.map_values(|attachment: SidecarInboundAttachment| attachment@),
        ),
{
    let ghost given = attachments@.map_values(
        |attachment: SidecarInboundAttachment| attachment@,
    );
    let ghost view_of = |attachment: Attachment| attachment@;
    let mut converted: Vec<Attachment> = Vec::new();
    let mut i: usize = 0;
    assert(converted@.map_values(view_of) =~= converted_attachments(given.take(0)));
    while i < attachments.len()
        invariant
            i <= attachments.len(),
            given == attachments@.map_values(
                |attachment: SidecarInboundAttachment| attachment@,
            ),
            view_of == (|attachment: Attachment| attachment@),
            converted@.map_values(view_of) == converted_attachments(given.take(i as int)),
        decreases attachments.len() - i,
    {
        let ghost before = converted@;
        assert(given.take(i + 1).drop_last() =~= given.take(i as int));
        assert(given.take(i + 1).last() == attachments[i as int]@);
        match convert_attachment(&attachments[i]) {
            Some(attachment) => {
                converted.push(attachment);
                assert(converted@.map_values(view_of) =~= before.map_values(view_of).push(
                    attachment@,
                ));
            },
            None => {},
        }
        i += 1;
    }
    assert(given.take(attachments.len() as int) =~= given);
    converted
}

/// Puts a non-empty text under a key.
fn insert_text(metadata: &mut StringMap<JsonValue>, key: &str, text: &Option<String>)
    ensures
        final(metadata)@ == with_text(old(metadata)@, key@, text.deep_view()),
        old(metadata).wf() ==> final(metadata).wf(),
{
    match text {
        Some(text) => {
            if !text.as_str().is_empty() {
                metadata.insert(key.to_string(), JsonValue::Text(text.clone()));
            }
        },
        None => {},
    }
}

/// Collects the metadata of a message.
fn convert_metadata(payload: &SidecarInboundPayload) -> (metadata: StringMap<JsonValue>)
    ensures
        metadata.wf(),
        metadata@ == converted_metadata(payload@),
{
    let mut metadata: StringMap<JsonValue> = StringMap::new();
    metadata.insert(
        "photon_space_id".to_string(),
        JsonValue::Text(payload.space_id.clone()),
    );
    metadata.insert(
        "photon_message_id".to_string(),
        JsonValue::Text(payload.message_id.clone()),
    );
    metadata.insert(
        "photon_sender_id".to_string(),
        JsonValue::Text(payload.sender_id.clone()),
    );
    metadata.insert(
        "photon_mentions_or_replies_to_bot".to_string(),
        JsonValue::Bool(payload.mentions_or_replies_to_bot),
    );
    metadata.insert("photon_is_dm".to_string(), JsonValue::Bool(payload.is_dm));
    metadata.insert(MESSAGE_ID.to_string(), JsonValue::Text(payload.message_id.clone()));
    insert_text(&mut metadata, CHANNEL_NAME, &payload.space_name);
    insert_text(&mut metadata, SERVER_NAME, &payload.server_name);
    insert_text(&mut metadata, "sender_display_name", &payload.sender_display_name);
    metadata
}

/// What the bot is told of a message if it is `now`, if it is told of it at all. A message without
/// a valid time of its own arrived `now`.
pub fn convert_inbound_at(
    runtime_key: &str,
    dm_allow_list: &AllowList,
    payload: SidecarInboundPayload,
    now: Timestamp,
) -> (message: Option<InboundMessage>)
    ensures
        message is Some <==> accepts(dm_allow_list@, payload@),
        message is Some ==> message->0.metadata.wf() && message->0@ == converted(
            runtime_key@,
            payload@,
            now,
        ),
{
    if is_blank(payload.space_id.as_str()) || is_blank(payload.sender_id.as_str()) {
        return None;
    }
    if !dm_allow_list.admits(payload.sender_id.as_str()) {
        return None;
    }
    let timestamp = arrival_time_at(&payload.timestamp, now);
    let conversation_id = apply_runtime_adapter_to_conversation_id(
        runtime_key,
        PHOTON_SOURCE.to_string().concat(":").concat(payload.space_id.as_str()),
    );
    let metadata = convert_metadata(&payload);
    let attachments = convert_attachments(&payload.attachments);
    let content = if attachments.len() == 0 {
        MessageContent::Text(payload.text)
    } else {
        MessageContent::Media {
            text: if payload.text.as_str().is_empty() {
                None
            } else {
                Some(payload.text)
            },
            attachments,
        }
    };
    let message = InboundMessage {
        id: payload.message_id,
        source: PHOTON_SOURCE.to_string(),
        adapter: Some(String::from(runtime_key)),
        conversation_id,
        sender_id: payload.sender_id,
        agent_id: None,
        content,
        timestamp,
        metadata,
        formatted_author: payload.sender_display_name,
    };
    Some(message)
}

} // verus!
