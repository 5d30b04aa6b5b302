//! What the sidecar reports, one JSON object per line.

use vstd::prelude::*;

verus! {

/// A file that came with a message, as the sidecar reports it.
#[derive(Debug)]
pub struct SidecarInboundAttachment {
    pub filename: String,
    pub mime_type: String,
    /// Where the file can be fetched, unless only `data_base64` is set.
    pub url: Option<String>,
    /// The contents of the file in standard base64.
    pub data_base64: Option<String>,
    pub size_bytes: Option<u64>,
}

/// A message, as the sidecar reports it.
#[derive(Debug)]
pub struct SidecarInboundPayload {
    pub space_id: String,
    pub message_id: String,
    pub sender_id: String,
    pub sender_display_name: Option<String>,
    pub text: String,
    pub timestamp: Option<String>,
    pub mentions_or_replies_to_bot: bool,
    pub is_dm: bool,
    pub space_name: Option<String>,
    pub server_name: Option<String>,
    pub attachments: Vec<SidecarInboundAttachment>,
}

/// A report of the sidecar.
#[derive(Debug)]
pub enum SidecarEvent {
    /// It has started up.
    Ready { adapter_key: Option<String> },
    /// Somebody sent a message.
    Inbound { payload: SidecarInboundPayload },
    /// It answers the command `id`.
    Response { id: String, ok: bool, error: Option<String> },
    /// It has something to put down in the log.
    Log { level: Option<String>, message: String },
}

/// What a `SidecarInboundAttachment` stands for.
#[verifier::ext_equal]
pub struct SidecarAttachmentModel {
    pub filename: Seq<char>,
    pub mime_type: Seq<char>,
    pub url: Option<Seq<char>>,
    pub data_base64: Option<Seq<char>>,
    pub size_bytes: Option<u64>,
}

/// What a `SidecarInboundPayload` stands for.
#[verifier::ext_equal]
pub struct PayloadModel {
    pub space_id: Seq<char>,
    pub message_id: Seq<char>,
    pub sender_id: Seq<char>,
    pub sender_display_name: Option<Seq<char>>,
    pub text: Seq<char>,
    pub timestamp: Option<Seq<char>>,
    pub mentions_or_replies_to_bot: bool,
    pub is_dm: bool,
    pub space_name: Option<Seq<char>>,
    pub server_name: Option<Seq<char>>,
    pub attachments: Seq<SidecarAttachmentModel>,
}

/// What a `SidecarEvent` stands for.
#[verifier::ext_equal]
pub enum SidecarEventModel {
    Ready { adapter_key: Option<Seq<char>> },
    Inbound { payload: PayloadModel },
    Response { id: Seq<char>, ok: bool, error: Option<Seq<char>> },
    Log { level: Option<Seq<char>>, message: Seq<char> },
}

impl View for SidecarInboundAttachment {
    type V = SidecarAttachmentModel;

    open spec fn view(&self) -> SidecarAttachmentModel {
        SidecarAttachmentModel {
            filename: self.filename@,
            mime_type: self.mime_type@,
            url: self.url.deep_view(),
            data_base64: self.data_base64.deep_view(),
            size_bytes: self.size_bytes,
        }
    }
}

impl View for SidecarInboundPayload {
    type V = PayloadModel;

    open spec fn view(&self) -> PayloadModel {
        PayloadModel {
            space_id: self.space_id@,
            message_id: self.message_id@,
            sender_id: self.sender_id@,
            sender_display_name: self.sender_display_name.deep_view(),
            text: self.text@,
            timestamp: self.timestamp.deep_view(),
            mentions_or_replies_to_bot: self.mentions_or_replies_to_bot,
            is_dm: self.is_dm,
            space_name: self.space_name.deep_view(),
            server_name: self.server_name.deep_view(),
            attachments: self.attachments@.map_values(
                |attachment: SidecarInboundAttachment| attachment@,
            ),
        }
    }
}

impl View for SidecarEvent {
    type V = SidecarEventModel;

    open spec fn view(&self) -> SidecarEventModel {
        match self {
            SidecarEvent::Ready { adapter_key } => SidecarEventModel::Ready {
                adapter_key: adapter_key.deep_view(),
            },
            SidecarEvent::Inbound { payload } => SidecarEventModel::Inbound { payload: payload@ },
            SidecarEvent::Response { id, ok, error } => SidecarEventModel::Response {
                id: id@,
                ok: *ok,
                error: error.deep_view(),
            },
            SidecarEvent::Log { level, message } => SidecarEventModel::Log {
                level: level.deep_view(),
                message: message@,
            },
        }
    }
}

} // verus!
