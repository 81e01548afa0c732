//! The vocabulary shared with a chat-protocol adapter: the events such an
//! adapter feeds into the runner and the effects it performs on the runner's
//! behalf. The adapter itself does network I/O and lives outside this crate.

use vstd::prelude::*;

verus! {

/// An observation made by a chat-protocol adapter, sent into the runner.
#[derive(Debug, PartialEq)]
pub enum ChatEvent {
    ChannelMsg { channel: String, from: String, msg: String },
    PrivateMsg { from: String, msg: String },
    JoinedChannel { channel: String, who: String },
    PartedChannel { channel: String, who: String, comment: Option<String> },
}

/// An outgoing message request, handed to a chat-protocol adapter by the
/// interpreter function.
#[derive(Debug, PartialEq)]
pub enum ChatEffect {
    ChannelMsg { channel: String, msg: Vec<String> },
    PrivateMsg { to: String, msg: Vec<String> },
}

} // verus!
