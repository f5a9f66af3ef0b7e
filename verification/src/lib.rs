//! Client side of the TeamSpeak 3 ServerQuery protocol: the escape codec, the
//! record parser, the status-line decoder, the framed response reader and the
//! name negotiation of managed connections.

use vstd::prelude::*;

pub mod client;
pub mod command;
pub mod data;
pub mod error;
pub mod escape;
pub mod managed;
pub mod number;
pub mod raw;
pub mod record;
pub mod text;

pub use crate::client::QueryClient;
pub use crate::command::MessageTarget;
pub use crate::error::{ErrorResponse, Ts3Error};

verus! {

/// The id of a server group.
pub type ServerGroupID = i32;

/// The id of a channel.
pub type ChannelId = i32;

/// Temporary, per connection id of a client, reused upon disconnect. Not to
/// be confused with a client database, myteamspeak or identity id.
pub type ClientId = u16;

/// Default limit on the number of lines read for one response.
pub const LIMIT_READ_LINES: usize = 100;

/// Default limit on the number of bytes read for one line.
pub const LIMIT_LINE_BYTES: u64 = 64_000;

} // verus!
