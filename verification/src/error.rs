//! What can go wrong between the adapter and its sidecar.

use vstd::prelude::*;

verus! {

/// Why the adapter could not do what it was asked for.
#[derive(Debug)]
pub enum PhotonError {
    /// The message names no space to answer in.
    MissingSpaceId,
    /// A broadcast has to name a space.
    EmptyBroadcastTarget,
    /// The command could not be written as JSON.
    Serialization,
    /// The adapter has no sidecar to send to.
    NotRunning { adapter: String },
    /// The sidecar's supervisor no longer takes commands.
    SendFailed { adapter: String, detail: String },
    /// The command was answered with an error.
    Rejected { reason: String },
    /// The command was dropped without an answer.
    ResponseDropped { adapter: String, detail: String },
    /// The command was not answered in time.
    TimedOut { adapter: String },
}

/// What a `PhotonError` says.
pub enum ErrorModel {
    MissingSpaceId,
    EmptyBroadcastTarget,
    Serialization,
    NotRunning { adapter: Seq<char> },
    SendFailed { adapter: Seq<char>, detail: Seq<char> },
    Rejected { reason: Seq<char> },
    ResponseDropped { adapter: Seq<char>, detail: Seq<char> },
    TimedOut { adapter: Seq<char> },
}

impl View for PhotonError {
    type V = ErrorModel;

    open spec fn view(&self) -> ErrorModel {
        match self {
            PhotonError::MissingSpaceId => ErrorModel::MissingSpaceId,
            PhotonError::EmptyBroadcastTarget => ErrorModel::EmptyBroadcastTarget,
            PhotonError::Serialization => ErrorModel::Serialization,
            PhotonError::NotRunning { adapter } => ErrorModel::NotRunning { adapter: adapter@ },
            PhotonError::SendFailed { adapter, detail } => ErrorModel::SendFailed {
                adapter: adapter@,
                detail: detail@,
            },
            PhotonError::Rejected { reason } => ErrorModel::Rejected { reason: reason@ },
            PhotonError::ResponseDropped { adapter, detail } => ErrorModel::ResponseDropped {
                adapter: adapter@,
                detail: detail@,
            },
            PhotonError::TimedOut { adapter } => ErrorModel::TimedOut { adapter: adapter@ },
        }
    }
}

/// The message of an error.
pub open spec fn error_message(error: ErrorModel) -> Seq<char> {
    match error {
        ErrorModel::MissingSpaceId => "missing photon_space_id in metadata"@,
        ErrorModel::EmptyBroadcastTarget => "photon broadcast target can't be empty"@,
        ErrorModel::Serialization => "failed to serialize photon sidecar command"@,
        ErrorModel::NotRunning { adapter } => "photon sidecar is not running for adapter '"@
            + adapter + "'"@,
        ErrorModel::SendFailed { adapter, detail } =>
            "failed to send command to photon sidecar for '"@ + adapter + "': "@ + detail,
        ErrorModel::Rejected { reason } => reason,
        ErrorModel::ResponseDropped { adapter, detail } =>
            "photon sidecar response channel dropped for '"@ + adapter + "': "@ + detail,
        ErrorModel::TimedOut { adapter } => "photon sidecar command timed out for '"@ + adapter
            + "'"@,
    }
}

impl PhotonError {
    /// The message of this error.
    pub fn message(&self) -> (message: String)
        ensures
            message@ == error_message(self@),
    {
        match self {
            PhotonError::MissingSpaceId => "missing photon_space_id in metadata".to_string(),
            PhotonError::EmptyBroadcastTarget =>
                "photon broadcast target can't be empty".to_string(),
            PhotonError::Serialization =>
                "failed to serialize photon sidecar command".to_string(),
            PhotonError::NotRunning { adapter } =>
                "photon sidecar is not running for adapter '".to_string()
                .concat(adapter.as_str())
                .concat("'"),
            PhotonError::SendFailed { adapter, detail } =>
                "failed to send command to photon sidecar for '".to_string()
                .concat(adapter.as_str())
                .concat("': ")
                .concat(detail.as_str()),
            PhotonError::Rejected { reason } => reason.clone(),
            PhotonError::ResponseDropped { adapter, detail } =>
                "photon sidecar response channel dropped for '".to_string()
                .concat(adapter.as_str())
                .concat("': ")
                .concat(detail.as_str()),
            PhotonError::TimedOut { adapter } =>
                "photon sidecar command timed out for '".to_string()
                .concat(adapter.as_str())
                .concat("'"),
        }
    }
}

} // verus!
