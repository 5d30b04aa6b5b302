//! What the bot is told of a message, in terms of what the sidecar reported.

use crate::clock::{rfc3339_instant, Timestamp};
use crate::inbound::{accepts, attachment_url, converted, converted_attachments, rekeyed};
use crate::json::JsonModel;
use crate::laws::{law_arrival, law_conversation_id, law_metadata_of_message};
use crate::message::{Attachment, InboundMessage, MessageContent};
use crate::metadata_keys::{CHANNEL_NAME, MESSAGE_ID, SERVER_NAME};
use crate::sidecar::{SidecarAttachmentModel, SidecarInboundAttachment, SidecarInboundPayload};
use crate::text::{lemma_from_first_of_prefix, trimmed};
use crate::text_laws::{has_ink, law_blank_texts_have_no_ink};
use vstd::prelude::*;

verus! {

/// A message is passed on exactly if its space and its sender say something, and the list names
/// nobody or names the sender. Nothing else about the message counts.
pub proof fn law_who_is_heard(dm_allow_list: Seq<Seq<char>>, payload: SidecarInboundPayload)
    ensures
        accepts(dm_allow_list, payload@) <==> {
            &&& has_ink(payload.space_id@)
            &&& has_ink(payload.sender_id@)
            &&& dm_allow_list.len() == 0 || exists|i: int|
                0 <= i < dm_allow_list.len() && #[trigger] dm_allow_list[i]
                    == payload.sender_id@
        },
{
    law_blank_texts_have_no_ink(payload.space_id@);
    law_blank_texts_have_no_ink(payload.sender_id@);
}

/// The conversation id of a platform keeps everything from its first colon on, behind the key of the
/// adapter; one without a colon stays as it is.
pub proof fn law_rekeying(runtime_key: Seq<char>, platform: Seq<char>, rest: Seq<char>)
    requires
        !platform.contains(':'),
    ensures
        rekeyed(runtime_key, platform) == platform,
        rekeyed(runtime_key, platform + seq![':'] + rest) == runtime_key + seq![':'] + rest,
{
    let base = platform + seq![':'] + rest;
    assert(base[platform.len() as int] == ':');
    lemma_from_first_of_prefix(platform, rest, ':');
    assert(runtime_key + (seq![':'] + rest) =~= runtime_key + seq![':'] + rest);
}

/// What the bot is told of a message is what the sidecar reported of it: the id, the sender, the
/// space, the time if it is a valid one, and the name of the sender.
pub proof fn law_message_is_what_was_reported(
    runtime_key: Seq<char>,
    payload: SidecarInboundPayload,
    now: Timestamp,
    message: InboundMessage,
)
    requires
        message@ == converted(runtime_key, payload@, now),
    ensures
        message.id@ == payload.message_id@,
        message.source@ == "photon"@,
        message.adapter matches Some(adapter) && adapter@ == runtime_key,
        message.conversation_id@ == runtime_key + ":"@ + payload.space_id@,
        message.sender_id@ == payload.sender_id@,
        message.agent_id is None,
        match payload.sender_display_name {
            Some(name) => message.formatted_author matches Some(author) && author@ == name@,
            None => message.formatted_author is None,
        },
        payload.timestamp is None ==> message.timestamp == now,
        payload.timestamp matches Some(text) ==> match rfc3339_instant(text@) {
            Some(instant) => message.timestamp.seconds == instant.0 && message.timestamp.nanos
                == instant.1,
            None => message.timestamp == now,
        },
{
    law_conversation_id(runtime_key, payload@, now);
    law_arrival(runtime_key, payload@, now, now);
}

/// The text that is found under a key exactly if there is one that is not empty.
pub open spec fn found_under(
    metadata: Map<Seq<char>, JsonModel>,
    key: Seq<char>,
    text: Option<String>,
) -> bool {
    match text {
        Some(text) if text@.len() > 0 => metadata.contains_key(key) && metadata[key]
            == JsonModel::Text(text@),
        _ => !metadata.contains_key(key),
    }
}

/// The metadata of a message hold what the sidecar reported under Photon's own keys and under those
/// of every platform; names that are missing or empty are left out.
pub proof fn law_metadata_are_what_was_reported(
    runtime_key: Seq<char>,
    payload: SidecarInboundPayload,
    now: Timestamp,
    message: InboundMessage,
)
    requires
        message@ == converted(runtime_key, payload@, now),
    ensures
        ({
            let metadata = message.metadata@;
            &&& metadata.get("photon_space_id"@) == Some(JsonModel::Text(payload.space_id@))
            &&& metadata.get("photon_message_id"@) == Some(JsonModel::Text(payload.message_id@))
            &&& metadata.get("photon_sender_id"@) == Some(JsonModel::Text(payload.sender_id@))
            &&& metadata.get("photon_mentions_or_replies_to_bot"@) == Some(
                JsonModel::Bool(payload.mentions_or_replies_to_bot),
            )
            &&& metadata.get("photon_is_dm"@) == Some(JsonModel::Bool(payload.is_dm))
            &&& metadata.get("message_id"@) == Some(JsonModel::Text(payload.message_id@))
            &&& found_under(metadata, "channel_name"@, payload.space_name)
            &&& found_under(metadata, "server_name"@, payload.server_name)
            &&& found_under(metadata, "sender_display_name"@, payload.sender_display_name)
            &&& MESSAGE_ID@ == "message_id"@ && CHANNEL_NAME@ == "channel_name"@ && SERVER_NAME@
                == "server_name"@
        }),
{
    law_metadata_of_message(payload@);
}

/// What is kept of an attachment besides its address.
pub open spec fn keeps_its_details(
    attachment: SidecarInboundAttachment,
    kept: Attachment,
) -> bool {
    &&& kept.filename@ == attachment.filename@
    &&& kept.mime_type@ == attachment.mime_type@
    &&& kept.size_bytes == attachment.size_bytes
    &&& kept.auth_header is None
    &&& kept.pre_saved_id is None
}

/// Whether the sidecar sent the contents of an attachment along.
pub open spec fn is_inline(attachment: SidecarInboundAttachment) -> bool {
    attachment.data_base64 is Some && has_ink(attachment.data_base64->0@)
}

/// Whether the sidecar gave an address for an attachment.
pub open spec fn is_addressed(attachment: SidecarInboundAttachment) -> bool {
    attachment.url is Some && has_ink(attachment.url->0@)
}

/// An attachment whose contents the sidecar sent along is kept with a `data:` URL: its own type, and
/// the contents without the white space around them.
pub proof fn law_inline_attachment(attachment: SidecarInboundAttachment, kept: Attachment)
    requires
        is_inline(attachment),
    ensures
        converted_attachments(seq![attachment@]).len() == 1,
        converted_attachments(seq![attachment@])[0] == kept@ ==> {
            &&& keeps_its_details(attachment, kept)
            &&& kept.url@ == "data:"@ + attachment.mime_type@ + ";base64,"@ + trimmed(
                attachment.data_base64->0@,
            )
        },
{
    law_blank_texts_have_no_ink(attachment.data_base64->0@);
    lemma_one_attachment(attachment@);
}

/// Of attachments with the same contents and different types the addresses differ.
pub proof fn law_addresses_name_the_type(a: SidecarInboundAttachment, b: SidecarInboundAttachment)
    requires
        is_inline(a),
        is_inline(b),
        a.data_base64->0@ == b.data_base64->0@,
        a.mime_type@ != b.mime_type@,
    ensures
        attachment_url(a@) is Some,
        attachment_url(b@) is Some,
        attachment_url(a@) != attachment_url(b@),
{
    law_blank_texts_have_no_ink(a.data_base64->0@);
    let tail = ";base64,"@ + trimmed(a.data_base64->0@);
    let (x, y) = (attachment_url(a@)->0, attachment_url(b@)->0);
    let (m, n) = (a.mime_type@, b.mime_type@);
    assert(x =~= "data:"@ + (m + tail));
    assert(y =~= "data:"@ + (n + tail));
    if x == y {
        let from = "data:"@.len() as int;
        assert(x.len() == y.len());
        assert(x.skip(from) =~= m + tail);
        assert(y.skip(from) =~= n + tail);
        assert((m + tail).take(m.len() as int) =~= m);
        assert((n + tail).take(n.len() as int) =~= n);
    }
}

/// An attachment without contents is kept with the address that the sidecar gave, without the white
/// space around it.
pub proof fn law_addressed_attachment(attachment: SidecarInboundAttachment, kept: Attachment)
    requires
        !is_inline(attachment),
        is_addressed(attachment),
    ensures
        converted_attachments(seq![attachment@]).len() == 1,
        converted_attachments(seq![attachment@])[0] == kept@ ==> {
            &&& keeps_its_details(attachment, kept)
            &&& kept.url@ == trimmed(attachment.url->0@)
        },
{
    if attachment.data_base64 is Some {
        law_blank_texts_have_no_ink(attachment.data_base64->0@);
    }
    law_blank_texts_have_no_ink(attachment.url->0@);
    lemma_one_attachment(attachment@);
}

/// An attachment with neither contents nor an address is left out.
pub proof fn law_empty_attachment(attachment: SidecarInboundAttachment)
    requires
        !is_inline(attachment),
        !is_addressed(attachment),
    ensures
        converted_attachments(seq![attachment@]).len() == 0,
{
    if attachment.data_base64 is Some {
        law_blank_texts_have_no_ink(attachment.data_base64->0@);
    }
    if attachment.url is Some {
        law_blank_texts_have_no_ink(attachment.url->0@);
    }
    lemma_one_attachment(attachment@);
}

proof fn lemma_one_attachment(attachment: SidecarAttachmentModel)
    ensures
        converted_attachments(seq![attachment]).len() == if attachment_url(attachment) is Some {
            1int
        } else {
            0int
        },
        attachment_url(attachment) matches Some(url) ==> ({
            let kept = converted_attachments(seq![attachment])[0];
            &&& kept.filename == attachment.filename
            &&& kept.mime_type == attachment.mime_type
            &&& kept.url == url
            &&& kept.size_bytes == attachment.size_bytes
            &&& kept.auth_header is None
            &&& kept.pre_saved_id is None
        }),
{
    reveal_with_fuel(converted_attachments, 2);
    assert(seq![attachment].drop_last() =~= Seq::empty());
}

/// Attachments are taken over one by one, in their order: what is kept of two lists in a row is what
/// is kept of the first, and then of the second.
pub proof fn law_attachments_one_by_one(
    a: Seq<SidecarAttachmentModel>,
    b: Seq<SidecarAttachmentModel>,
)
    ensures
        converted_attachments(Seq::empty()).len() == 0,
        converted_attachments(a + b) == converted_attachments(a) + converted_attachments(b),
    decreases b.len(),
{
    if b.len() == 0 {
        assert(a + b =~= a);
        assert(converted_attachments(a) + converted_attachments(b) =~= converted_attachments(a));
    } else {
        law_attachments_one_by_one(a, b.drop_last());
        assert((a + b).drop_last() =~= a + b.drop_last());
        assert((a + b).last() == b.last());
        assert(converted_attachments(a + b) =~= converted_attachments(a) + converted_attachments(b));
    }
}

/// A message says its text, and brings the attachments that are kept. Without any of these it is a
/// text, even an empty one; with some of them an empty text is left out.
pub proof fn law_content_is_what_was_reported(
    runtime_key: Seq<char>,
    payload: SidecarInboundPayload,
    now: Timestamp,
    message: InboundMessage,
)
    requires
        message@ == converted(runtime_key, payload@, now),
    ensures
        ({
            let kept = converted_attachments(
                payload.attachments@.map_values(
                    |attachment: SidecarInboundAttachment| attachment@,
                ),
            );
            if kept.len() == 0 {
                message.content matches MessageContent::Text(text) && text@ == payload.text@
            } else {
                &&& message.content matches MessageContent::Media { text, attachments }
                &&& attachments@.len() == kept.len()
                &&& forall|i: int| 0 <= i < kept.len() ==> (#[trigger] attachments@[i])@ == kept[i]
                &&& payload.text@.len() == 0 ==> text is None
                &&& payload.text@.len() > 0 ==> (text matches Some(said) && said@ == payload.text@)
            }
        }),
{
    let kept = converted_attachments(
        payload.attachments@.map_values(|attachment: SidecarInboundAttachment| attachment@),
    );
    if kept.len() > 0 {
        match message.content {
            MessageContent::Media { text, attachments } => {
                let views = attachments@.map_values(|attachment: Attachment| attachment@);
                assert(views == kept);
                assert forall|i: int| 0 <= i < kept.len() implies (#[trigger] attachments@[i])@
                    == kept[i] by {
                    assert(views[i] == attachments@[i]@);
                }
            },
            _ => {},
        }
    }
}

} // verus!
