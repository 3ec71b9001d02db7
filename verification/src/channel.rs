//! Where a request came from and where replies go.

use vstd::prelude::*;

verus! {

/// A chat on a channel: the channel name, the peer (chat id) and an optional thread.
pub struct ChannelPeer {
    pub channel: String,
    pub peer: String,
    pub thread_id: Option<String>,
}

} // verus!
