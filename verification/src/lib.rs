//! Photon iMessage adapter: what the bot is told of the messages that a sidecar process reports,
//! what the sidecar is told to say in return, and how the sidecar is kept running. The sidecar
//! is spoken to over its standard streams, one JSON object per line.

pub mod adapter;
pub mod adapter_laws;
pub mod allow_list;
pub mod attachment_data;
pub mod base64_reading;
pub mod clock;
pub mod command;
pub mod error;
pub mod inbound;
pub mod inbound_laws;
pub mod json;
pub mod json_reading;
pub mod launch;
pub mod laws;
pub mod message;
pub mod metadata_keys;
pub mod outbound;
pub mod outbound_laws;
pub mod sidecar;
pub mod string_map;
pub mod supervisor;
pub mod supervisor_laws;
pub mod text;
pub mod text_laws;
pub mod transition_laws;

pub use adapter::PhotonAdapter;
