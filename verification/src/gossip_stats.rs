//! The lines that the log holds about gossip, from which its traffic can be summed up.

use crate::hex::{hex_str, hex_text};
use crate::text::{decimal, decimal_text, text4};
use vstd::prelude::*;
use vstd::string::*;

verus! {

/// A gossip message that has come in.
#[derive(Clone, Copy, Debug)]
pub enum GossipMessage {
    /// A node announces itself.
    NodeAnnouncement { node_id: [u8; 33] },
    /// A channel is announced.
    ChannelAnnouncement { short_channel_id: u64 },
    /// One end of a channel says on what terms it forwards.
    ChannelUpdate { short_channel_id: u64, channel_flags: u8 },
}

/// How many bytes the type of a message takes on the wire.
pub const MESSAGE_TYPE_LEN: u64 = 2;

/// The line about a message: what it is, what it is about, and how many bytes it takes on the
/// wire, its type counted in. The direction of an update is the lowest bit of its flags.
pub open spec fn stats_line(message: GossipMessage, serialized_length: nat) -> Seq<char> {
    (match message {
        GossipMessage::NodeAnnouncement { node_id } =>
            "GOSSIP-STATS: recv node_announcement node="@ + hex_text(node_id@),
        GossipMessage::ChannelAnnouncement { short_channel_id } =>
            "GOSSIP-STATS: recv channel_announcement scid="@ + decimal_text(
            short_channel_id as nat,
        ),
        GossipMessage::ChannelUpdate { short_channel_id, channel_flags } =>
            "GOSSIP-STATS: recv channel_update scid="@ + decimal_text(short_channel_id as nat)
            + " dir="@ + decimal_text((channel_flags % 2) as nat),
    }) + " bytes="@ + decimal_text(serialized_length + MESSAGE_TYPE_LEN as nat)
}

/// Whether lines about gossip are written.
#[derive(Clone, Copy, Debug)]
pub struct GossipStats {
    /// Whether the operator has asked for them.
    pub enabled: bool,
}

impl GossipStats {
    /// Lines are written where the operator has asked for them.
    pub fn new(enabled: bool) -> (r: GossipStats)
        ensures
            r.enabled == enabled,
    {
        GossipStats { enabled }
    }

    /// The line that is written about a message, if one is: only where the operator has asked for
    /// it, and only about messages that came from a peer.
    pub open spec fn line(self, from_peer: bool, message: GossipMessage, serialized_length: nat) -> Option<
        Seq<char>,
    > {
        if self.enabled && from_peer {
            Some(stats_line(message, serialized_length))
        } else {
            None
        }
    }

    /// Writes the line about a message, if one is written.
    pub fn record(&self, from_peer: bool, message: &GossipMessage, serialized_length: u64) -> (r:
        Option<String>)
        requires
            serialized_length + MESSAGE_TYPE_LEN <= u64::MAX,
        ensures
            r is Some == self.line(from_peer, *message, serialized_length as nat) is Some,
            r is Some ==> r->0@ == self.line(from_peer, *message, serialized_length as nat)->0,
    {
        if !self.enabled || !from_peer {
            return None;
        }
        let mut line: String = match *message {
            GossipMessage::NodeAnnouncement { node_id } => crate::text::text2(
                "GOSSIP-STATS: recv node_announcement node=",
                hex_str(node_id.as_slice()).as_str(),
            ),
            GossipMessage::ChannelAnnouncement { short_channel_id } => crate::text::text2(
                "GOSSIP-STATS: recv channel_announcement scid=",
                decimal(short_channel_id).as_str(),
            ),
            GossipMessage::ChannelUpdate { short_channel_id, channel_flags } => {
                let dir: u8 = channel_flags & 1;
                assert(dir == channel_flags % 2) by (bit_vector)
                    requires
                        dir == channel_flags & 1,
                ;
                text4(
                    "GOSSIP-STATS: recv channel_update scid=",
                    decimal(short_channel_id).as_str(),
                    " dir=",
                    decimal(dir as u64).as_str(),
                )
            },
        };
        line.append(" bytes=");
        line.append(decimal(serialized_length + MESSAGE_TYPE_LEN).as_str());
        Some(line)
    }

    /// Takes a gossip message: writes the line about it to the log, if one is written, then has
    /// the message handled once and hands back the answer as it is, whether the message was
    /// accepted or not. Nothing but that line may be written: the log promises to take no other.
    pub fn handle<R, L: FnOnce(String), H: FnOnce() -> R>(
        &self,
        from_peer: bool,
        message: &GossipMessage,
        serialized_length: u64,
        log: L,
        inner: H,
    ) -> (r: R)
        requires
            serialized_length + MESSAGE_TYPE_LEN <= u64::MAX,
            forall|text: String|
                self.line(from_peer, *message, serialized_length as nat) == Some(text@)
                    ==> #[trigger] call_requires(log, (text,)),
            call_requires(inner, ()),
        ensures
            call_ensures(inner, (), r),
            self.line(from_peer, *message, serialized_length as nat) is Some ==> exists|text: String|
                text@ == self.line(from_peer, *message, serialized_length as nat)->0
                    && #[trigger] call_ensures(log, (text,), ()),
    {
        match self.record(from_peer, message, serialized_length) {
            Some(text) => log(text),
            None => {},
        }
        inner()
    }
}

/// A node whose operator has not asked for it writes nothing about gossip, whatever comes in; and
/// nothing is ever written about messages that the node made up itself.
pub proof fn law_silent_unless_asked(stats: GossipStats, message: GossipMessage, len: nat)
    ensures
        stats.line(false, message, len) is None,
        !stats.enabled ==> stats.line(true, message, len) is None,
        stats.enabled ==> stats.line(true, message, len) is Some,
{
}

} // verus!
