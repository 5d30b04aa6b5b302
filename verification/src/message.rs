//! Messages in both directions, as the rest of the bot sees them.

use crate::clock::Timestamp;
use crate::json::{JsonModel, JsonValue};
use crate::string_map::StringMap;
use vstd::prelude::*;

verus! {

/// A file that came with a message.
#[derive(Debug)]
pub struct Attachment {
    pub filename: String,
    pub mime_type: String,
    /// Where the contents are: an HTTP address, or a `data:` URL that holds them.
    pub url: String,
    pub size_bytes: Option<u64>,
    pub auth_header: Option<String>,
    pub pre_saved_id: Option<String>,
}

/// What a message says.
#[derive(Debug)]
pub enum MessageContent {
    Text(String),
    Media { text: Option<String>, attachments: Vec<Attachment> },
}

/// A message that somebody sent to the bot.
#[derive(Debug)]
pub struct InboundMessage {
    pub id: String,
    pub source: String,
    pub adapter: Option<String>,
    pub conversation_id: String,
    pub sender_id: String,
    pub agent_id: Option<String>,
    pub content: MessageContent,
    pub timestamp: Timestamp,
    pub metadata: StringMap<JsonValue>,
    pub formatted_author: Option<String>,
}

/// What the bot is doing.
#[derive(Clone, Copy, Debug, PartialEq, Eq, Structural)]
pub enum StatusUpdate {
    /// It is working on an answer.
    Thinking,
    /// It is doing anything else.
    Other,
}

/// What the bot has to say.
#[derive(Debug)]
pub enum OutboundResponse {
    Text(String),
    RichMessage { text: String },
    ThreadReply { text: String },
    File { filename: String, data: Vec<u8>, mime_type: String, caption: Option<String> },
    Reaction(String),
    RemoveReaction(String),
    Ephemeral { text: String },
    ScheduledMessage { text: String },
    StreamStart,
    StreamChunk(String),
    StreamEnd,
    Status(StatusUpdate),
}

/// An earlier message of a conversation.
#[derive(Debug)]
pub struct HistoryMessage {
    pub author: String,
    pub content: String,
}

/// What an `Attachment` stands for.
#[verifier::ext_equal]
pub struct AttachmentModel {
    pub filename: Seq<char>,
    pub mime_type: Seq<char>,
    pub url: Seq<char>,
    pub size_bytes: Option<u64>,
    pub auth_header: Option<Seq<char>>,
    pub pre_saved_id: Option<Seq<char>>,
}

/// What a `MessageContent` stands for.
#[verifier::ext_equal]
pub enum ContentModel {
    Text(Seq<char>),
    Media { text: Option<Seq<char>>, attachments: Seq<AttachmentModel> },
}

/// What an `InboundMessage` stands for.
#[verifier::ext_equal]
pub struct InboundModel {
    pub id: Seq<char>,
    pub source: Seq<char>,
    pub adapter: Option<Seq<char>>,
    pub conversation_id: Seq<char>,
    pub sender_id: Seq<char>,
    pub agent_id: Option<Seq<char>>,
    pub content: ContentModel,
    pub timestamp: Timestamp,
    pub metadata: Map<Seq<char>, JsonModel>,
    pub formatted_author: Option<Seq<char>>,
}

/// What an `OutboundResponse` stands for.
#[verifier::ext_equal]
pub enum ResponseModel {
    Text(Seq<char>),
    RichMessage { text: Seq<char> },
    ThreadReply { text: Seq<char> },
    File {
        filename: Seq<char>,
        data: Seq<u8>,
        mime_type: Seq<char>,
        caption: Option<Seq<char>>,
    },
    Reaction(Seq<char>),
    RemoveReaction(Seq<char>),
    Ephemeral { text: Seq<char> },
    ScheduledMessage { text: Seq<char> },
    StreamStart,
    StreamChunk(Seq<char>),
    StreamEnd,
    Status(StatusUpdate),
}

impl View for Attachment {
    type V = AttachmentModel;

    open spec fn view(&self) -> AttachmentModel {
        AttachmentModel {
            filename: self.filename@,
            mime_type: self.mime_type@,
            url: self.url@,
            size_bytes: self.size_bytes,
            auth_header: self.auth_header.deep_view(),
            pre_saved_id: self.pre_saved_id.deep_view(),
        }
    }
}

impl View for MessageContent {
    type V = ContentModel;

    open spec fn view(&self) -> ContentModel {
        match self {
            MessageContent::Text(text) => ContentModel::Text(text@),
            MessageContent::Media { text, attachments } => ContentModel::Media {
                text: text.deep_view(),
                attachments: attachments@.map_values(|attachment: Attachment| attachment@),
            },
        }
    }
}

impl View for InboundMessage {
    type V = InboundModel;

    open spec fn view(&self) -> InboundModel {
        InboundModel {
            id: self.id@,
            source: self.source@,
            adapter: self.adapter.deep_view(),
            conversation_id: self.conversation_id@,
            sender_id: self.sender_id@,
            agent_id: self.agent_id.deep_view(),
            content: self.content@,
            timestamp: self.timestamp,
            metadata: self.metadata@,
            formatted_author: self.formatted_author.deep_view(),
        }
    }
}

impl View for OutboundResponse {
    type V = ResponseModel;

    open spec fn view(&self) -> ResponseModel {
        match self {
            OutboundResponse::Text(text) => ResponseModel::Text(text@),
            OutboundResponse::RichMessage { text } => ResponseModel::RichMessage { text: text@ },
            OutboundResponse::ThreadReply { text } => ResponseModel::ThreadReply { text: text@ },
            OutboundResponse::File { filename, data, mime_type, caption } => ResponseModel::File {
                filename: filename@,
                data: data@,
                mime_type: mime_type@,
                caption: caption.deep_view(),
            },
            OutboundResponse::Reaction(emoji) => ResponseModel::Reaction(emoji@),
            OutboundResponse::RemoveReaction(emoji) => ResponseModel::RemoveReaction(emoji@),
            OutboundResponse::Ephemeral { text } => ResponseModel::Ephemeral { text: text@ },
            OutboundResponse::ScheduledMessage { text } => ResponseModel::ScheduledMessage {
                text: text@,
            },
            OutboundResponse::StreamStart => ResponseModel::StreamStart,
            OutboundResponse::StreamChunk(chunk) => ResponseModel::StreamChunk(chunk@),
            OutboundResponse::StreamEnd => ResponseModel::StreamEnd,
            OutboundResponse::Status(status) => ResponseModel::Status(*status),
        }
    }
}

} // verus!
