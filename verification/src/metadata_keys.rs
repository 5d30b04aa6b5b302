//! The metadata keys that mean the same on every platform.

use vstd::prelude::*;

verus! {

/// The metadata key of a message's own id.
pub const MESSAGE_ID: &'static str = "message_id";

/// The metadata key of the name of the channel that a message came from.
pub const CHANNEL_NAME: &'static str = "channel_name";

/// The metadata key of the name of the server that a message came from.
pub const SERVER_NAME: &'static str = "server_name";

} // verus!
