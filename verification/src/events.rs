//! What the node does when something happens on the network.

use crate::hex::{hex_bytes, hex_str, hex_text, to_vec};
use crate::ldk::{
    consensus_transaction, is_consensus_transaction, is_witness_script, text_of_bytes, utf8_lossy,
    witness_address, witness_address_text,
};
use crate::network::Network;
use crate::offline::{hold_message, InterceptedOms, StaticInvoices};
use crate::payment_table::{
    claimed_payment, failed_payment, sent_payment, InboundPaymentInfoStorage,
    OutboundPaymentInfoStorage,
};
use crate::payments::{same_id, MillisatAmount, PaymentInfo};
use crate::text::{decimal, decimal_text, text2, text3, text4, text5};
use crate::wire::{be_value, lemma_be_value_bound, pow256};
use vstd::prelude::*;
use vstd::string::*;

verus! {

/// What a payment to the node is for, with what the node knows of it.
#[derive(Clone, Copy, Debug)]
pub enum PaymentPurpose {
    /// An invoice of the node's own.
    Bolt11InvoicePayment { payment_preimage: Option<[u8; 32]>, payment_secret: [u8; 32] },
    /// An offer of the node's own.
    Bolt12OfferPayment { payment_preimage: Option<[u8; 32]>, payment_secret: [u8; 32] },
    /// A refund that the node has claimed.
    Bolt12RefundPayment { payment_preimage: Option<[u8; 32]>, payment_secret: [u8; 32] },
    /// Nothing that the node has asked for.
    SpontaneousPayment([u8; 32]),
}

impl PaymentPurpose {
    /// The preimage of the payment, where the node knows it.
    pub open spec fn preimage(self) -> Option<[u8; 32]> {
        match self {
            PaymentPurpose::Bolt11InvoicePayment { payment_preimage, .. } => payment_preimage,
            PaymentPurpose::Bolt12OfferPayment { payment_preimage, .. } => payment_preimage,
            PaymentPurpose::Bolt12RefundPayment { payment_preimage, .. } => payment_preimage,
            PaymentPurpose::SpontaneousPayment(preimage) => Some(preimage),
        }
    }

    /// The secret of the payment, where the node has asked for one.
    pub open spec fn secret(self) -> Option<[u8; 32]> {
        match self {
            PaymentPurpose::Bolt11InvoicePayment { payment_secret, .. } => Some(payment_secret),
            PaymentPurpose::Bolt12OfferPayment { payment_secret, .. } => Some(payment_secret),
            PaymentPurpose::Bolt12RefundPayment { payment_secret, .. } => Some(payment_secret),
            PaymentPurpose::SpontaneousPayment(_) => None,
        }
    }

    /// The preimage and the secret of the payment.
    pub fn parts(&self) -> (r: (Option<[u8; 32]>, Option<[u8; 32]>))
        ensures
            r.0 == self.preimage(),
            r.1 == self.secret(),
    {
        match *self {
            PaymentPurpose::Bolt11InvoicePayment { payment_preimage, payment_secret } => (
                payment_preimage,
                Some(payment_secret),
            ),
            PaymentPurpose::Bolt12OfferPayment { payment_preimage, payment_secret } => (
                payment_preimage,
                Some(payment_secret),
            ),
            PaymentPurpose::Bolt12RefundPayment { payment_preimage, payment_secret } => (
                payment_preimage,
                Some(payment_secret),
            ),
            PaymentPurpose::SpontaneousPayment(preimage) => (Some(preimage), None),
        }
    }
}

/// What the network graph knows of a node.
pub enum NodeName {
    /// Nothing.
    Private,
    /// The node, but no announcement of it.
    Unnamed,
    /// The alias that the node has announced.
    Alias(String),
}

/// What the node knows of one of its channels.
pub struct ChannelFacts {
    /// The identifier of the channel.
    pub channel_id: [u8; 32],
    /// The node at the other end.
    pub counterparty: [u8; 33],
    /// What the network graph knows of that node.
    pub counterparty_name: NodeName,
    /// Where the channel is funded on the chain.
    pub short_channel_id: Option<u64>,
    /// The name by which the node routes over the channel.
    pub outbound_scid_alias: Option<u64>,
    /// The name by which others route over the channel.
    pub inbound_scid_alias: Option<u64>,
}

/// Where an onion message goes next.
#[derive(Clone, Copy, Debug)]
pub enum NextMessageHop {
    /// To a node.
    NodeId([u8; 33]),
    /// To the node at the other end of a channel.
    ShortChannelId(u64),
}

/// What happens on the network. Messages and invoices are passed on as they are.
#[allow(inconsistent_fields)]
pub enum NodeEvent<M, I> {
    /// A channel that the node opens is to be funded.
    FundingGenerationReady {
        temporary_channel_id: [u8; 32],
        counterparty_node_id: [u8; 33],
        channel_value_satoshis: u64,
        output_script: Vec<u8>,
    },
    /// A payment can be claimed.
    PaymentClaimable { payment_hash: [u8; 32], purpose: PaymentPurpose, amount_msat: u64 },
    /// A payment has been claimed.
    PaymentClaimed { payment_hash: [u8; 32], purpose: PaymentPurpose, amount_msat: u64 },
    /// A payment of the node's has arrived.
    PaymentSent {
        payment_preimage: [u8; 32],
        payment_hash: [u8; 32],
        fee_paid_msat: Option<u64>,
        payment_id: Option<[u8; 32]>,
    },
    /// A node wants to open a channel. With it come 32 fresh random bytes.
    OpenChannelRequest {
        temporary_channel_id: [u8; 32],
        counterparty_node_id: [u8; 33],
        entropy: [u8; 32],
    },
    /// A payment of the node's has failed.
    PaymentFailed {
        payment_hash: Option<[u8; 32]>,
        reason: Option<String>,
        payment_id: [u8; 32],
    },
    /// The node has forwarded a payment.
    PaymentForwarded {
        prev_channel_id: Option<[u8; 32]>,
        next_channel_id: Option<[u8; 32]>,
        total_fee_earned_msat: Option<u64>,
        claim_from_onchain_tx: bool,
        outbound_amount_forwarded_msat: u64,
    },
    /// Outputs on the chain can be spent.
    SpendableOutputs,
    /// A channel waits for its funding to be confirmed.
    ChannelPending { channel_id: [u8; 32], counterparty_node_id: [u8; 33] },
    /// A channel can be used.
    ChannelReady { channel_id: [u8; 32], counterparty_node_id: [u8; 33] },
    /// A channel has been closed.
    ChannelClosed {
        channel_id: [u8; 32],
        closure_reason: String,
        counterparty: Option<[u8; 33]>,
    },
    /// An onion message came for a peer that is offline.
    OnionMessageIntercepted { next_hop: NextMessageHop, message: M },
    /// A peer that takes onion messages has connected.
    OnionMessagePeerConnected { peer_node_id: [u8; 33] },
    /// A recipient that is often offline hands over an invoice.
    PersistStaticInvoice { invoice: I, invoice_slot: u16, recipient_id: Vec<u8> },
    /// A payer asks for the invoice of such a recipient.
    StaticInvoiceRequested { recipient_id: Vec<u8>, invoice_slot: u16 },
    /// A transaction needs a higher fee.
    BumpTransaction,
    /// A peer has to be connected.
    ConnectionNeeded,
    /// Anything else.
    Other,
}

/// What the node has to do.
#[derive(Debug, PartialEq)]
pub enum NodeAction<S, B, L> {
    /// Show a line.
    Print(S),
    /// Show a text without ending the line.
    Inline(S),
    /// Write the inbound payments to disk.
    SaveInbound,
    /// Write the outbound payments to disk.
    SaveOutbound,
    /// Fund a channel with a transaction that pays its value to an address.
    FundChannel {
        temporary_channel_id: [u8; 32],
        counterparty_node_id: [u8; 33],
        address: S,
        value_sat: u64,
    },
    /// Claim a payment.
    ClaimFunds([u8; 32]),
    /// Accept a channel.
    AcceptChannel {
        temporary_channel_id: [u8; 32],
        counterparty_node_id: [u8; 33],
        user_channel_id: u128,
    },
    /// Hand the outputs to the sweeper: all of them or not those that the node's own keys spend,
    /// at once or from a height on.
    TrackOutputs { exclude_static_outputs: bool, delay_until_height: Option<u32> },
    /// Forward messages to a peer, in order.
    Replay { peer: [u8; 33], messages: L },
    /// Confirm that the invoice is kept.
    ConfirmPersisted,
    /// Answer with the invoice that is kept for a recipient and a slot.
    ServeInvoice { recipient_id: B, invoice_slot: u16 },
    /// Raise the fee of the transaction.
    BumpTransaction,
    /// Connect to the peer.
    ConnectPeer,
}

impl<M> View for NodeAction<String, Vec<u8>, Vec<M>> {
    type V = NodeAction<Seq<char>, Seq<u8>, Seq<M>>;

    open spec fn view(&self) -> NodeAction<Seq<char>, Seq<u8>, Seq<M>> {
        match *self {
            NodeAction::Print(s) => NodeAction::Print(s@),
            NodeAction::Inline(s) => NodeAction::Inline(s@),
            NodeAction::SaveInbound => NodeAction::SaveInbound,
            NodeAction::SaveOutbound => NodeAction::SaveOutbound,
            NodeAction::FundChannel {
                temporary_channel_id,
                counterparty_node_id,
                address,
                value_sat,
            } => NodeAction::FundChannel {
                temporary_channel_id,
                counterparty_node_id,
                address: address@,
                value_sat,
            },
            NodeAction::ClaimFunds(preimage) => NodeAction::ClaimFunds(preimage),
            NodeAction::AcceptChannel {
                temporary_channel_id,
                counterparty_node_id,
                user_channel_id,
            } => NodeAction::AcceptChannel {
                temporary_channel_id,
                counterparty_node_id,
                user_channel_id,
            },
            NodeAction::TrackOutputs { exclude_static_outputs, delay_until_height } =>
                NodeAction::TrackOutputs { exclude_static_outputs, delay_until_height },
            NodeAction::Replay { peer, messages } => NodeAction::Replay {
                peer,
                messages: messages@,
            },
            NodeAction::ConfirmPersisted => NodeAction::ConfirmPersisted,
            NodeAction::ServeInvoice { recipient_id, invoice_slot } => NodeAction::ServeInvoice {
                recipient_id: recipient_id@,
                invoice_slot,
            },
            NodeAction::BumpTransaction => NodeAction::BumpTransaction,
            NodeAction::ConnectPeer => NodeAction::ConnectPeer,
        }
    }
}

/// What a list of actions asks for.
pub open spec fn node_action_views<M>(v: Seq<NodeAction<String, Vec<u8>, Vec<M>>>) -> Seq<
    NodeAction<Seq<char>, Seq<u8>, Seq<M>>,
> {
    v.map_values(|a: NodeAction<String, Vec<u8>, Vec<M>>| a@)
}

/// Appends an action.
fn push<M>(
    actions: &mut Vec<NodeAction<String, Vec<u8>, Vec<M>>>,
    action: NodeAction<String, Vec<u8>, Vec<M>>,
)
    ensures
        node_action_views(final(actions)@) == node_action_views(old(actions)@).push(action@),
{
    actions.push(action);
    assert(node_action_views(actions@) =~= node_action_views(old(actions)@).push(action@));
}

/// The number that the first 16 of some bytes spell, the highest byte first.
pub open spec fn user_channel_id_of(entropy: [u8; 32]) -> u128 {
    be_value(entropy@.take(16)) as u128
}

/// Draws a channel identifier from random bytes.
pub fn read_user_channel_id(entropy: &[u8; 32]) -> (r: u128)
    ensures
        r == be_value(entropy@.take(16)),
        r == user_channel_id_of(*entropy),
{
    let mut v: u128 = 0;
    let mut i: usize = 0;
    assert(entropy@.take(0) =~= Seq::<u8>::empty());
    while i < 16
        invariant
            i <= 16,
            v == be_value(entropy@.take(i as int)),
        decreases 16 - i,
    {
        proof {
            let now = entropy@.take(i + 1);
            assert(now.drop_last() =~= entropy@.take(i as int));
            lemma_be_value_bound(now);
            reveal_with_fuel(pow256, 17);
        }
        v = v * 256 + entropy[i] as u128;
        i = i + 1;
    }
    v
}

/// The channel with an identifier, if there is one: the first in the list.
pub open spec fn channel_with_id(channels: Seq<ChannelFacts>, id: [u8; 32]) -> Option<ChannelFacts>
    decreases channels.len(),
{
    if channels.len() == 0 {
        None
    } else if channels[0].channel_id == id {
        Some(channels[0])
    } else {
        channel_with_id(channels.drop_first(), id)
    }
}

/// Whether a channel is known by a short identifier.
pub open spec fn goes_by(channel: ChannelFacts, scid: u64) -> bool {
    channel.short_channel_id == Some(scid) || channel.outbound_scid_alias == Some(scid)
        || channel.inbound_scid_alias == Some(scid)
}

/// The node at the other end of the channel with a short identifier, if there is one.
pub open spec fn node_behind(channels: Seq<ChannelFacts>, scid: u64) -> Option<[u8; 33]>
    decreases channels.len(),
{
    if channels.len() == 0 {
        None
    } else if goes_by(channels[0], scid) {
        Some(channels[0].counterparty)
    } else {
        node_behind(channels.drop_first(), scid)
    }
}

/// The node that an onion message goes to next, if it is known.
pub open spec fn next_node(channels: Seq<ChannelFacts>, next_hop: NextMessageHop) -> Option<
    [u8; 33],
> {
    match next_hop {
        NextMessageHop::NodeId(node_id) => Some(node_id),
        NextMessageHop::ShortChannelId(scid) => node_behind(channels, scid),
    }
}

/// Whether an optional number is the given one.
fn is_number(n: Option<u64>, v: u64) -> (r: bool)
    ensures
        r == (n == Some(v)),
{
    match n {
        Some(m) => m == v,
        None => false,
    }
}

/// Finds the node that an onion message goes to next.
fn find_next_node(channels: &Vec<ChannelFacts>, next_hop: NextMessageHop) -> (r: Option<[u8; 33]>)
    ensures
        r == next_node(channels@, next_hop),
{
    match next_hop {
        NextMessageHop::NodeId(node_id) => Some(node_id),
        NextMessageHop::ShortChannelId(scid) => {
            let mut i: usize = 0;
            assert(channels@.skip(0) =~= channels@);
            while i < channels.len()
                invariant
                    i <= channels@.len(),
                    next_hop == NextMessageHop::ShortChannelId(scid),
                    node_behind(channels@, scid) == node_behind(channels@.skip(i as int), scid),
                decreases channels.len() - i,
            {
                let channel: &ChannelFacts = &channels[i];
                assert(channels@.skip(i as int)[0] == *channel);
                assert(channels@.skip(i as int).drop_first() =~= channels@.skip(i + 1));
                if is_number(channel.short_channel_id, scid) || is_number(
                    channel.outbound_scid_alias,
                    scid,
                ) || is_number(channel.inbound_scid_alias, scid) {
                    return Some(channel.counterparty);
                }
                i = i + 1;
            }
            None
        },
    }
}

/// How the node at one end of a forwarded payment is named.
pub open spec fn node_text(channels: Seq<ChannelFacts>, channel_id: Option<[u8; 32]>) -> Seq<char> {
    match channel_id {
        None => ""@,
        Some(id) => match channel_with_id(channels, id) {
            None => ""@,
            Some(channel) => match channel.counterparty_name {
                NodeName::Private => "private node"@,
                NodeName::Unnamed => "unnamed node"@,
                NodeName::Alias(alias) => "node "@ + alias@,
            },
        },
    }
}

/// How the channel at one end of a forwarded payment is named.
pub open spec fn channel_text(channel_id: Option<[u8; 32]>) -> Seq<char> {
    match channel_id {
        None => ""@,
        Some(id) => " with channel "@ + hex_text(id@),
    }
}

/// Writes how the node at one end of a forwarded payment is named.
fn write_node(channels: &Vec<ChannelFacts>, channel_id: Option<[u8; 32]>) -> (r: String)
    ensures
        r@ == node_text(channels@, channel_id),
{
    let id: [u8; 32] = match channel_id {
        None => return "".to_owned(),
        Some(id) => id,
    };
    let mut i: usize = 0;
    assert(channels@.skip(0) =~= channels@);
    while i < channels.len()
        invariant
            i <= channels@.len(),
            channel_with_id(channels@, id) == channel_with_id(channels@.skip(i as int), id),
            channel_id == Some(id),
        decreases channels.len() - i,
    {
        let channel: &ChannelFacts = &channels[i];
        assert(channels@.skip(i as int)[0] == *channel);
        assert(channels@.skip(i as int).drop_first() =~= channels@.skip(i + 1));
        if same_id(&channel.channel_id, &id) {
            return match &channel.counterparty_name {
                NodeName::Private => "private node".to_owned(),
                NodeName::Unnamed => "unnamed node".to_owned(),
                NodeName::Alias(alias) => text2("node ", alias.as_str()),
            };
        }
        i = i + 1;
    }
    "".to_owned()
}

/// Writes how the channel at one end of a forwarded payment is named.
fn write_channel(channel_id: Option<[u8; 32]>) -> (r: String)
    ensures
        r@ == channel_text(channel_id),
{
    match channel_id {
        None => "".to_owned(),
        Some(id) => text2(" with channel ", hex_str(id.as_slice()).as_str()),
    }
}

/// What the node remembers, besides its channels.
pub struct NodeMemory<M, I> {
    /// The payments to the node.
    pub inbound: Map<[u8; 32], PaymentInfo>,
    /// The payments of the node.
    pub outbound: Map<[u8; 32], PaymentInfo>,
    /// The messages that are held for peers that are offline.
    pub messages: Map<[u8; 33], Seq<M>>,
    /// The invoices that are kept for recipients that are often offline.
    pub invoices: Map<(Seq<u8>, u16), I>,
}

/// What the node does with an event: what it remembers afterwards, and what it has to do, in
/// order.
pub struct NodeReaction<M, I> {
    /// What the node remembers afterwards.
    pub memory: NodeMemory<M, I>,
    /// What the node has to do, in order.
    pub actions: Seq<NodeAction<Seq<char>, Seq<u8>, Seq<M>>>,
}

/// The node remembers what it did, and has something to do.
pub open spec fn just<M, I>(
    memory: NodeMemory<M, I>,
    actions: Seq<NodeAction<Seq<char>, Seq<u8>, Seq<M>>>,
) -> NodeReaction<M, I> {
    NodeReaction { memory, actions }
}

/// A line, and then the operator is asked for a command again.
pub open spec fn announce_line<M>(line: Seq<char>) -> Seq<
    NodeAction<Seq<char>, Seq<u8>, Seq<M>>,
> {
    seq![NodeAction::Print(line), NodeAction::Inline("> "@)]
}

/// The line about a payment that can be claimed.
pub open spec fn claimable_line(payment_hash: [u8; 32], amount_msat: u64) -> Seq<char> {
    "\nEVENT: received payment from payment hash "@ + hex_text(payment_hash@) + " of "@
        + decimal_text(amount_msat as nat) + " millisatoshis"@
}

/// The line about a payment that has been claimed.
pub open spec fn claimed_line(payment_hash: [u8; 32], amount_msat: u64) -> Seq<char> {
    "\nEVENT: claimed payment from payment hash "@ + hex_text(payment_hash@) + " of "@
        + decimal_text(amount_msat as nat) + " millisatoshis"@
}

/// How the fee of a payment is named.
pub open spec fn fee_text(fee_paid_msat: Option<u64>) -> Seq<char> {
    match fee_paid_msat {
        Some(fee) => " (fee "@ + decimal_text(fee as nat) + " msat)"@,
        None => ""@,
    }
}

/// The line about a payment that has arrived.
pub open spec fn sent_line(
    amt_msat: MillisatAmount,
    fee_paid_msat: Option<u64>,
    payment_hash: [u8; 32],
    payment_preimage: [u8; 32],
) -> Seq<char> {
    "\nEVENT: successfully sent payment of "@ + amt_msat.text() + " millisatoshis"@ + fee_text(
        fee_paid_msat,
    ) + " from payment hash "@ + hex_text(payment_hash@) + " with preimage "@ + hex_text(
        payment_preimage@,
    )
}

/// Why a payment failed; where no reason is given, the attempts are used up.
pub open spec fn failure_text(reason: Option<String>) -> Seq<char> {
    match reason {
        Some(reason) => reason@,
        None => "RetriesExhausted"@,
    }
}

/// The text about a payment that has failed.
pub open spec fn failed_text(
    payment_hash: Option<[u8; 32]>,
    reason: Option<String>,
    payment_id: [u8; 32],
) -> Seq<char> {
    match payment_hash {
        Some(hash) => "\nEVENT: Failed to send payment to payment ID "@ + hex_text(payment_id@)
            + ", payment hash "@ + hex_text(hash@) + ": "@ + failure_text(reason),
        None => "\nEVENT: Failed fetch invoice for payment ID "@ + hex_text(payment_id@) + ": "@
            + failure_text(reason),
    }
}

/// The line about a payment that has been forwarded.
pub open spec fn forwarded_line(
    channels: Seq<ChannelFacts>,
    prev_channel_id: Option<[u8; 32]>,
    next_channel_id: Option<[u8; 32]>,
    total_fee_earned_msat: Option<u64>,
    claim_from_onchain_tx: bool,
    outbound_amount_forwarded_msat: u64,
) -> Seq<char> {
    "\nEVENT: Forwarded payment for "@ + decimal_text(outbound_amount_forwarded_msat as nat)
        + " msat"@ + " from "@ + node_text(channels, prev_channel_id) + channel_text(
        prev_channel_id,
    ) + " to "@ + node_text(channels, next_channel_id) + channel_text(next_channel_id) + (
    match total_fee_earned_msat {
        Some(fee) => ", earning "@ + decimal_text(fee as nat) + " msat "@,
        None => ", claiming onchain "@,
    }) + (if claim_from_onchain_tx {
        "from onchain downstream claim"@
    } else {
        "from HTLC fulfill message"@
    })
}

/// The line about a channel whose state has changed.
pub open spec fn channel_line(
    channel_id: [u8; 32],
    counterparty_node_id: [u8; 33],
    what: Seq<char>,
) -> Seq<char> {
    "\nEVENT: Channel "@ + hex_text(channel_id@) + " with peer "@ + hex_text(
        counterparty_node_id@,
    ) + what
}

/// The line about a channel that has been closed.
pub open spec fn closed_line(
    channel_id: [u8; 32],
    counterparty: Option<[u8; 33]>,
    reason: Seq<char>,
) -> Seq<char> {
    "\nEVENT: Channel "@ + hex_text(channel_id@) + " with counterparty "@ + (match counterparty {
        Some(id) => hex_text(id@),
        None => ""@,
    }) + " closed due to: "@ + reason
}

/// Whether the node can handle an event: the output to be funded pays to a witness program, the
/// preimage of a payment to be claimed is known, and a payment that has arrived is named, unless
/// the node remembers no payment at all.
pub open spec fn can_handle<M, I>(
    event: NodeEvent<M, I>,
    outbound: Map<[u8; 32], PaymentInfo>,
) -> bool {
    match event {
        NodeEvent::FundingGenerationReady { output_script, .. } => is_witness_script(
            output_script@,
        ),
        NodeEvent::PaymentClaimable { purpose, .. } => purpose.preimage() is Some,
        NodeEvent::PaymentSent { payment_id, .. } => payment_id is Some || outbound
            == Map::<[u8; 32], PaymentInfo>::empty(),
        _ => true,
    }
}

/// What the node does with an event.
pub open spec fn handle<M, I>(
    event: NodeEvent<M, I>,
    network: Network,
    channels: Seq<ChannelFacts>,
    memory: NodeMemory<M, I>,
) -> NodeReaction<M, I> {
    match event {
        NodeEvent::FundingGenerationReady {
            temporary_channel_id,
            counterparty_node_id,
            channel_value_satoshis,
            output_script,
        } => just(
            memory,
            seq![
                NodeAction::FundChannel {
                    temporary_channel_id,
                    counterparty_node_id,
                    address: witness_address_text(output_script@, network.addresses()),
                    value_sat: channel_value_satoshis,
                },
            ],
        ),
        NodeEvent::PaymentClaimable { payment_hash, purpose, amount_msat } => just(
            memory,
            announce_line(claimable_line(payment_hash, amount_msat)).push(
                NodeAction::ClaimFunds(purpose.preimage()->0),
            ),
        ),
        NodeEvent::PaymentClaimed { payment_hash, purpose, amount_msat } => just(
            NodeMemory {
                inbound: memory.inbound.insert(
                    payment_hash,
                    claimed_payment(
                        (if memory.inbound.dom().contains(payment_hash) {
                            Some(memory.inbound[payment_hash])
                        } else {
                            None
                        }),
                        purpose.preimage(),
                        purpose.secret(),
                        amount_msat,
                    ),
                ),
                ..memory
            },
            announce_line(claimed_line(payment_hash, amount_msat)).push(NodeAction::SaveInbound),
        ),
        NodeEvent::PaymentSent { payment_preimage, payment_hash, fee_paid_msat, payment_id } => if payment_id is Some
            && memory.outbound.dom().contains(payment_id->0) {
            let before = memory.outbound[payment_id->0];
            just(
                NodeMemory {
                    outbound: memory.outbound.insert(
                        payment_id->0,
                        sent_payment(before, payment_preimage),
                    ),
                    ..memory
                },
                announce_line(
                    sent_line(before.amt_msat, fee_paid_msat, payment_hash, payment_preimage),
                ).push(NodeAction::SaveOutbound),
            )
        } else {
            just(memory, seq![NodeAction::SaveOutbound])
        },
        NodeEvent::OpenChannelRequest { temporary_channel_id, counterparty_node_id, entropy } =>
            just(
            memory,
            seq![
                NodeAction::AcceptChannel {
                    temporary_channel_id,
                    counterparty_node_id,
                    user_channel_id: user_channel_id_of(entropy),
                },
            ],
        ),
        NodeEvent::PaymentFailed { payment_hash, reason, payment_id } => just(
            NodeMemory {
                outbound: if memory.outbound.dom().contains(payment_id) {
                    memory.outbound.insert(
                        payment_id,
                        failed_payment(memory.outbound[payment_id]),
                    )
                } else {
                    memory.outbound
                },
                ..memory
            },
            seq![
                NodeAction::Inline(failed_text(payment_hash, reason, payment_id)),
                NodeAction::Inline("> "@),
                NodeAction::SaveOutbound,
            ],
        ),
        NodeEvent::PaymentForwarded {
            prev_channel_id,
            next_channel_id,
            total_fee_earned_msat,
            claim_from_onchain_tx,
            outbound_amount_forwarded_msat,
        } => just(
            memory,
            announce_line(
                forwarded_line(
                    channels,
                    prev_channel_id,
                    next_channel_id,
                    total_fee_earned_msat,
                    claim_from_onchain_tx,
                    outbound_amount_forwarded_msat,
                ),
            ),
        ),
        NodeEvent::SpendableOutputs => just(
            memory,
            seq![
                NodeAction::TrackOutputs {
                    exclude_static_outputs: false,
                    delay_until_height: None,
                },
            ],
        ),
        NodeEvent::ChannelPending { channel_id, counterparty_node_id } => just(
            memory,
            announce_line(
                channel_line(
                    channel_id,
                    counterparty_node_id,
                    " is pending awaiting funding lock-in!"@,
                ),
            ),
        ),
        NodeEvent::ChannelReady { channel_id, counterparty_node_id } => just(
            memory,
            announce_line(
                channel_line(channel_id, counterparty_node_id, " is ready to be used!"@),
            ),
        ),
        NodeEvent::ChannelClosed { channel_id, closure_reason, counterparty } => just(
            memory,
            announce_line(closed_line(channel_id, counterparty, closure_reason@)),
        ),
        NodeEvent::OnionMessageIntercepted { next_hop, message } => match next_node(
            channels,
            next_hop,
        ) {
            Some(node_id) => just(
                NodeMemory {
                    messages: memory.messages.insert(
                        node_id,
                        hold_message(
                            (if memory.messages.dom().contains(node_id) {
                                memory.messages[node_id]
                            } else {
                                seq![]
                            }),
                            message,
                        ),
                    ),
                    ..memory
                },
                announce_line(
                    "\nEVENT: intercepted an onion message for offline peer "@ + hex_text(
                        node_id@,
                    ) + ", holding it for replay"@,
                ),
            ),
            None => just(
                memory,
                announce_line(
                    "\nEVENT: dropping an intercepted onion message with an unknown next hop"@,
                ),
            ),
        },
        NodeEvent::OnionMessagePeerConnected { peer_node_id } => if memory.messages.dom().contains(
            peer_node_id,
        ) {
            just(
                NodeMemory { messages: memory.messages.remove(peer_node_id), ..memory },
                seq![
                    NodeAction::Replay {
                        peer: peer_node_id,
                        messages: memory.messages[peer_node_id],
                    },
                ],
            )
        } else {
            just(memory, seq![])
        },
        NodeEvent::PersistStaticInvoice { invoice, invoice_slot, recipient_id } => just(
            NodeMemory {
                invoices: memory.invoices.insert((recipient_id@, invoice_slot), invoice),
                ..memory
            },
            seq![NodeAction::ConfirmPersisted] + announce_line(
                "\nEVENT: persisted a static invoice in slot "@ + decimal_text(
                    invoice_slot as nat,
                ) + " for async recipient "@ + utf8_lossy(recipient_id@),
            ),
        ),
        NodeEvent::StaticInvoiceRequested { recipient_id, invoice_slot } =>
            if memory.invoices.dom().contains((recipient_id@, invoice_slot)) {
            just(
                memory,
                seq![NodeAction::ServeInvoice { recipient_id: recipient_id@, invoice_slot }],
            )
        } else {
            just(
                memory,
                announce_line(
                    "\nEVENT: received a static invoice request for unknown recipient "@
                        + utf8_lossy(recipient_id@) + " slot "@ + decimal_text(
                        invoice_slot as nat,
                    ),
                ),
            )
        },
        NodeEvent::BumpTransaction => just(memory, seq![NodeAction::BumpTransaction]),
        NodeEvent::ConnectionNeeded => just(memory, seq![NodeAction::ConnectPeer]),
        NodeEvent::Other => just(memory, seq![]),
    }
}

/// Whether a script pays to a witness program.
pub fn pays_to_witness(script: &[u8]) -> (r: bool)
    ensures
        r == is_witness_script(script@),
{
    if script.len() < 4 || script.len() != 2 + script[1] as usize {
        return false;
    }
    let version: u8 = if script[0] > 0x50 {
        script[0] - 0x50
    } else {
        script[0]
    };
    script[1] >= 2 && script[1] <= 40 && version <= 16 && (version != 0 || script[1] == 20
        || script[1] == 32)
}

/// Whether the node can handle an event.
pub fn can_handle_event<M, I>(
    event: &NodeEvent<M, I>,
    outbound: &OutboundPaymentInfoStorage,
) -> (r: bool)
    ensures
        r == can_handle(*event, outbound.payments@),
{
    match event {
        NodeEvent::FundingGenerationReady { output_script, .. } => pays_to_witness(
            output_script.as_slice(),
        ),
        NodeEvent::PaymentClaimable { purpose, .. } => purpose.parts().0.is_some(),
        NodeEvent::PaymentSent { payment_id, .. } => payment_id.is_some()
            || outbound.payments.is_empty(),
        _ => true,
    }
}

/// A line, and then the operator is asked for a command again.
fn announcing<M>(line: String) -> (r: Vec<NodeAction<String, Vec<u8>, Vec<M>>>)
    ensures
        node_action_views(r@) == announce_line::<M>(line@),
{
    let mut r: Vec<NodeAction<String, Vec<u8>, Vec<M>>> = Vec::new();
    push(&mut r, NodeAction::Print(line));
    push(&mut r, NodeAction::Inline("> ".to_owned()));
    assert(node_action_views(r@) =~= announce_line::<M>(line@));
    r
}

/// One action.
fn only<M>(action: NodeAction<String, Vec<u8>, Vec<M>>) -> (r: Vec<
    NodeAction<String, Vec<u8>, Vec<M>>,
>)
    ensures
        node_action_views(r@) == seq![action@],
{
    let mut r: Vec<NodeAction<String, Vec<u8>, Vec<M>>> = Vec::new();
    push(&mut r, action);
    assert(node_action_views(r@) =~= seq![action@]);
    r
}

/// Writes the line about a payment that can be claimed.
fn write_claimable(payment_hash: &[u8; 32], amount_msat: u64) -> (r: String)
    ensures
        r@ == claimable_line(*payment_hash, amount_msat),
{
    text5(
        "\nEVENT: received payment from payment hash ",
        hex_str(payment_hash.as_slice()).as_str(),
        " of ",
        decimal(amount_msat).as_str(),
        " millisatoshis",
    )
}

/// Writes the line about a payment that has been claimed.
fn write_claimed(payment_hash: &[u8; 32], amount_msat: u64) -> (r: String)
    ensures
        r@ == claimed_line(*payment_hash, amount_msat),
{
    text5(
        "\nEVENT: claimed payment from payment hash ",
        hex_str(payment_hash.as_slice()).as_str(),
        " of ",
        decimal(amount_msat).as_str(),
        " millisatoshis",
    )
}

/// Writes the line about a payment that has arrived.
fn write_sent(
    amt_msat: MillisatAmount,
    fee_paid_msat: Option<u64>,
    payment_hash: &[u8; 32],
    payment_preimage: &[u8; 32],
) -> (r: String)
    ensures
        r@ == sent_line(amt_msat, fee_paid_msat, *payment_hash, *payment_preimage),
{
    let fee: String = match fee_paid_msat {
        Some(fee) => text3(" (fee ", decimal(fee).as_str(), " msat)"),
        None => "".to_owned(),
    };
    let mut line: String = text4(
        "\nEVENT: successfully sent payment of ",
        amt_msat.fmt().as_str(),
        " millisatoshis",
        fee.as_str(),
    );
    line.append(" from payment hash ");
    line.append(hex_str(payment_hash.as_slice()).as_str());
    line.append(" with preimage ");
    line.append(hex_str(payment_preimage.as_slice()).as_str());
    line
}

/// Writes the text about a payment that has failed.
fn write_failed(
    payment_hash: Option<[u8; 32]>,
    reason: Option<String>,
    payment_id: &[u8; 32],
) -> (r: String)
    ensures
        r@ == failed_text(payment_hash, reason, *payment_id),
{
    let why: String = match reason {
        Some(reason) => reason,
        None => "RetriesExhausted".to_owned(),
    };
    let id: String = hex_str(payment_id.as_slice());
    match payment_hash {
        Some(hash) => {
            let mut line: String = text5(
                "\nEVENT: Failed to send payment to payment ID ",
                id.as_str(),
                ", payment hash ",
                hex_str(hash.as_slice()).as_str(),
                ": ",
            );
            line.append(why.as_str());
            line
        },
        None => text4(
            "\nEVENT: Failed fetch invoice for payment ID ",
            id.as_str(),
            ": ",
            why.as_str(),
        ),
    }
}

/// Writes the line about a payment that has been forwarded.
fn write_forwarded(
    channels: &Vec<ChannelFacts>,
    prev_channel_id: Option<[u8; 32]>,
    next_channel_id: Option<[u8; 32]>,
    total_fee_earned_msat: Option<u64>,
    claim_from_onchain_tx: bool,
    outbound_amount_forwarded_msat: u64,
) -> (r: String)
    ensures
        r@ == forwarded_line(
            channels@,
            prev_channel_id,
            next_channel_id,
            total_fee_earned_msat,
            claim_from_onchain_tx,
            outbound_amount_forwarded_msat,
        ),
{
    let earned: String = match total_fee_earned_msat {
        Some(fee) => text3(", earning ", decimal(fee).as_str(), " msat "),
        None => ", claiming onchain ".to_owned(),
    };
    let how: String = if claim_from_onchain_tx {
        "from onchain downstream claim".to_owned()
    } else {
        "from HTLC fulfill message".to_owned()
    };
    let mut line: String = text4(
        "\nEVENT: Forwarded payment for ",
        decimal(outbound_amount_forwarded_msat).as_str(),
        " msat",
        " from ",
    );
    line.append(write_node(channels, prev_channel_id).as_str());
    line.append(write_channel(prev_channel_id).as_str());
    line.append(" to ");
    line.append(write_node(channels, next_channel_id).as_str());
    line.append(write_channel(next_channel_id).as_str());
    line.append(earned.as_str());
    line.append(how.as_str());
    line
}

/// Writes the line about a channel whose state has changed.
fn write_channel_line(channel_id: &[u8; 32], counterparty_node_id: &[u8; 33], what: &str) -> (r:
    String)
    ensures
        r@ == channel_line(*channel_id, *counterparty_node_id, what@),
{
    text5(
        "\nEVENT: Channel ",
        hex_str(channel_id.as_slice()).as_str(),
        " with peer ",
        hex_str(counterparty_node_id.as_slice()).as_str(),
        what,
    )
}

/// Writes the line about a channel that has been closed.
fn write_closed(channel_id: &[u8; 32], counterparty: Option<[u8; 33]>, reason: &str) -> (r: String)
    ensures
        r@ == closed_line(*channel_id, counterparty, reason@),
{
    let who: String = match counterparty {
        Some(id) => hex_str(id.as_slice()),
        None => "".to_owned(),
    };
    let mut line: String = text5(
        "\nEVENT: Channel ",
        hex_str(channel_id.as_slice()).as_str(),
        " with counterparty ",
        who.as_str(),
        " closed due to: ",
    );
    line.append(reason);
    line
}

/// Does with an event what it calls for: remembers what is to be remembered, and returns what is
/// to be done, in order.
pub fn handle_ldk_events<M, I>(
    event: NodeEvent<M, I>,
    network: Network,
    channels: &Vec<ChannelFacts>,
    inbound: &mut InboundPaymentInfoStorage,
    outbound: &mut OutboundPaymentInfoStorage,
    intercepted_oms: &mut InterceptedOms<M>,
    static_invoices: &mut StaticInvoices<I>,
) -> (r: Vec<NodeAction<String, Vec<u8>, Vec<M>>>)
    requires
        can_handle(event, old(outbound).payments@),
        old(intercepted_oms).wf(),
        old(static_invoices).wf(),
    ensures
        final(intercepted_oms).wf(),
        final(static_invoices).wf(),
        ({
            let reaction = handle(
                event,
                network,
                channels@,
                NodeMemory {
                    inbound: old(inbound).payments@,
                    outbound: old(outbound).payments@,
                    messages: old(intercepted_oms)@,
                    invoices: old(static_invoices)@,
                },
            );
            &&& node_action_views(r@) == reaction.actions
            &&& final(inbound).payments@ == reaction.memory.inbound
            &&& final(outbound).payments@ == reaction.memory.outbound
            &&& final(intercepted_oms)@ == reaction.memory.messages
            &&& final(static_invoices)@ == reaction.memory.invoices
        }),
{
    match event {
        NodeEvent::FundingGenerationReady {
            temporary_channel_id,
            counterparty_node_id,
            channel_value_satoshis,
            output_script,
        } => {
            let address: String = witness_address(
                output_script.as_slice(),
                network.address_network(),
            );
            only(
                NodeAction::FundChannel {
                    temporary_channel_id,
                    counterparty_node_id,
                    address,
                    value_sat: channel_value_satoshis,
                },
            )
        },
        NodeEvent::PaymentClaimable { payment_hash, purpose, amount_msat } => {
            let mut actions: Vec<NodeAction<String, Vec<u8>, Vec<M>>> = announcing(
                write_claimable(&payment_hash, amount_msat),
            );
            match purpose.parts().0 {
                Some(preimage) => push(&mut actions, NodeAction::ClaimFunds(preimage)),
                None => {},
            }
            actions
        },
        NodeEvent::PaymentClaimed { payment_hash, purpose, amount_msat } => {
            let parts: (Option<[u8; 32]>, Option<[u8; 32]>) = purpose.parts();
            inbound.mark_claimed(payment_hash, parts.0, parts.1, amount_msat);
            let mut actions: Vec<NodeAction<String, Vec<u8>, Vec<M>>> = announcing(
                write_claimed(&payment_hash, amount_msat),
            );
            push(&mut actions, NodeAction::SaveInbound);
            actions
        },
        NodeEvent::PaymentSent { payment_preimage, payment_hash, fee_paid_msat, payment_id } => {
            let sent: Option<MillisatAmount> = match payment_id {
                Some(id) => outbound.mark_sent(id, payment_preimage),
                None => None,
            };
            match sent {
                Some(amt_msat) => {
                    let mut actions: Vec<NodeAction<String, Vec<u8>, Vec<M>>> = announcing(
                        write_sent(amt_msat, fee_paid_msat, &payment_hash, &payment_preimage),
                    );
                    push(&mut actions, NodeAction::SaveOutbound);
                    actions
                },
                None => only(NodeAction::SaveOutbound),
            }
        },
        NodeEvent::OpenChannelRequest { temporary_channel_id, counterparty_node_id, entropy } =>
            only(
            NodeAction::AcceptChannel {
                temporary_channel_id,
                counterparty_node_id,
                user_channel_id: read_user_channel_id(&entropy),
            },
        ),
        NodeEvent::PaymentFailed { payment_hash, reason, payment_id } => {
            let ghost said = failed_text(payment_hash, reason, payment_id);
            outbound.mark_failed(payment_id);
            let mut actions: Vec<NodeAction<String, Vec<u8>, Vec<M>>> = only(
                NodeAction::Inline(write_failed(payment_hash, reason, &payment_id)),
            );
            push(&mut actions, NodeAction::Inline("> ".to_owned()));
            push(&mut actions, NodeAction::SaveOutbound);
            assert(node_action_views(actions@) =~= seq![
                NodeAction::Inline(said),
                NodeAction::Inline("> "@),
                NodeAction::SaveOutbound,
            ]);
            actions
        },
        NodeEvent::PaymentForwarded {
            prev_channel_id,
            next_channel_id,
            total_fee_earned_msat,
            claim_from_onchain_tx,
            outbound_amount_forwarded_msat,
        } => announcing(
            write_forwarded(
                channels,
                prev_channel_id,
                next_channel_id,
                total_fee_earned_msat,
                claim_from_onchain_tx,
                outbound_amount_forwarded_msat,
            ),
        ),
        NodeEvent::SpendableOutputs => only(
            NodeAction::TrackOutputs { exclude_static_outputs: false, delay_until_height: None },
        ),
        NodeEvent::ChannelPending { channel_id, counterparty_node_id } => announcing(
            write_channel_line(
                &channel_id,
                &counterparty_node_id,
                " is pending awaiting funding lock-in!",
            ),
        ),
        NodeEvent::ChannelReady { channel_id, counterparty_node_id } => announcing(
            write_channel_line(&channel_id, &counterparty_node_id, " is ready to be used!"),
        ),
        NodeEvent::ChannelClosed { channel_id, closure_reason, counterparty } => announcing(
            write_closed(&channel_id, counterparty, closure_reason.as_str()),
        ),
        NodeEvent::OnionMessageIntercepted { next_hop, message } => match find_next_node(
            channels,
            next_hop,
        ) {
            Some(node_id) => {
                intercepted_oms.hold(node_id, message);
                announcing(
                    text3(
                        "\nEVENT: intercepted an onion message for offline peer ",
                        hex_str(node_id.as_slice()).as_str(),
                        ", holding it for replay",
                    ),
                )
            },
            None => announcing(
                "\nEVENT: dropping an intercepted onion message with an unknown next hop".to_owned(),
            ),
        },
        NodeEvent::OnionMessagePeerConnected { peer_node_id } => {
            let ghost before = intercepted_oms@;
            match intercepted_oms.take(&peer_node_id) {
                Some(messages) => only(NodeAction::Replay { peer: peer_node_id, messages }),
                None => {
                    assert(intercepted_oms@ =~= before);
                    Vec::new()
                },
            }
        },
        NodeEvent::PersistStaticInvoice { invoice, invoice_slot, recipient_id } => {
            let name: String = text_of_bytes(recipient_id.as_slice());
            let ghost recipient = recipient_id@;
            static_invoices.persist(recipient_id, invoice_slot, invoice);
            let line: String = text4(
                "\nEVENT: persisted a static invoice in slot ",
                decimal(invoice_slot as u64).as_str(),
                " for async recipient ",
                name.as_str(),
            );
            let mut actions: Vec<NodeAction<String, Vec<u8>, Vec<M>>> = only(
                NodeAction::ConfirmPersisted,
            );
            push(&mut actions, NodeAction::Print(line));
            push(&mut actions, NodeAction::Inline("> ".to_owned()));
            assert(node_action_views(actions@) =~= seq![NodeAction::ConfirmPersisted]
                + announce_line::<M>(line@));
            actions
        },
        NodeEvent::StaticInvoiceRequested { recipient_id, invoice_slot } => {
            if static_invoices.contains(&recipient_id, invoice_slot) {
                only(NodeAction::ServeInvoice { recipient_id, invoice_slot })
            } else {
                announcing(
                    text4(
                        "\nEVENT: received a static invoice request for unknown recipient ",
                        text_of_bytes(recipient_id.as_slice()).as_str(),
                        " slot ",
                        decimal(invoice_slot as u64).as_str(),
                    ),
                )
            }
        },
        NodeEvent::BumpTransaction => only(NodeAction::BumpTransaction),
        NodeEvent::ConnectionNeeded => only(NodeAction::ConnectPeer),
        NodeEvent::Other => Vec::new(),
    }
}

/// The transaction that the wallet has signed to fund a channel, if the wallet has signed all of
/// it and its text spells out one transaction.
pub open spec fn funding_bytes(complete: bool, hex: Seq<char>) -> Option<Seq<u8>> {
    match hex_bytes(hex) {
        Some(bytes) => if complete && consensus_transaction(bytes) {
            Some(bytes)
        } else {
            None
        },
        None => None,
    }
}

/// Reads the transaction that the wallet has signed to fund a channel.
pub fn funding_transaction(complete: bool, hex: &str) -> (r: Option<Vec<u8>>)
    ensures
        r is Some == funding_bytes(complete, hex@) is Some,
        r is Some ==> r->0@ == funding_bytes(complete, hex@)->0,
{
    match to_vec(hex) {
        Some(bytes) => {
            if complete && is_consensus_transaction(bytes.as_slice()) {
                Some(bytes)
            } else {
                None
            }
        },
        None => None,
    }
}

/// Says that a channel could not be funded.
pub fn funding_refused<M>() -> (r: Vec<NodeAction<String, Vec<u8>, Vec<M>>>)
    ensures
        node_action_views(r@) == announce_line::<M>(
            "\nERROR: Channel went away before we could fund it. The peer disconnected or refused the channel."@,
        ),
{
    announcing(
        "\nERROR: Channel went away before we could fund it. The peer disconnected or refused the channel.".to_owned(),
    )
}

/// The text about a channel that another node opens, given why it could not be accepted, if it
/// could not.
pub open spec fn accepted_text(
    temporary_channel_id: [u8; 32],
    counterparty_node_id: [u8; 33],
    error: Option<String>,
) -> Seq<char> {
    match error {
        Some(e) => "\nEVENT: Failed to accept inbound channel ("@ + hex_text(
            temporary_channel_id@,
        ) + ") from "@ + hex_text(counterparty_node_id@) + ": "@ + e@,
        None => "\nEVENT: Accepted inbound channel ("@ + hex_text(temporary_channel_id@)
            + ") from "@ + hex_text(counterparty_node_id@),
    }
}

/// Says what became of a channel that another node opens.
pub fn channel_accepted<M>(
    temporary_channel_id: &[u8; 32],
    counterparty_node_id: &[u8; 33],
    error: Option<String>,
) -> (r: Vec<NodeAction<String, Vec<u8>, Vec<M>>>)
    ensures
        node_action_views(r@) == seq![
            NodeAction::<Seq<char>, Seq<u8>, Seq<M>>::Inline(
                accepted_text(*temporary_channel_id, *counterparty_node_id, error),
            ),
            NodeAction::Inline("> "@),
        ],
{
    let ghost said = accepted_text(*temporary_channel_id, *counterparty_node_id, error);
    let id: String = hex_str(temporary_channel_id.as_slice());
    let node: String = hex_str(counterparty_node_id.as_slice());
    let text: String = match error {
        Some(e) => {
            let mut text: String = text5(
                "\nEVENT: Failed to accept inbound channel (",
                id.as_str(),
                ") from ",
                node.as_str(),
                ": ",
            );
            text.append(e.as_str());
            text
        },
        None => text4(
            "\nEVENT: Accepted inbound channel (",
            id.as_str(),
            ") from ",
            node.as_str(),
        ),
    };
    let mut r: Vec<NodeAction<String, Vec<u8>, Vec<M>>> = only(NodeAction::Inline(text));
    push(&mut r, NodeAction::Inline("> ".to_owned()));
    assert(node_action_views(r@) =~= seq![
        NodeAction::<Seq<char>, Seq<u8>, Seq<M>>::Inline(said),
        NodeAction::Inline("> "@),
    ]);
    r
}

/// One line for every message that could not be forwarded, in order.
pub open spec fn replay_errors<M>(peer: [u8; 33], outcomes: Seq<Option<String>>) -> Seq<
    NodeAction<Seq<char>, Seq<u8>, Seq<M>>,
>
    decreases outcomes.len(),
{
    if outcomes.len() == 0 {
        seq![]
    } else {
        match outcomes.last() {
            Some(e) => replay_errors(peer, outcomes.drop_last()).push(
                NodeAction::Print(
                    "\nERROR: failed to replay an intercepted onion message to "@ + hex_text(
                        peer@,
                    ) + ": "@ + e@,
                ),
            ),
            None => replay_errors(peer, outcomes.drop_last()),
        }
    }
}

/// Says what became of the messages that were held for a peer, given for each of them why it
/// could not be forwarded, if it could not.
pub fn replayed<M>(peer: &[u8; 33], outcomes: &Vec<Option<String>>) -> (r: Vec<
    NodeAction<String, Vec<u8>, Vec<M>>,
>)
    ensures
        node_action_views(r@) == replay_errors::<M>(*peer, outcomes@) + announce_line::<M>(
            "\nEVENT: replayed "@ + decimal_text(outcomes@.len())
                + " held onion message(s) to reconnected peer "@ + hex_text(peer@),
        ),
{
    let hex: String = hex_str(peer.as_slice());
    let mut r: Vec<NodeAction<String, Vec<u8>, Vec<M>>> = Vec::new();
    let mut i: usize = 0;
    proof {
        assert(outcomes@.take(0) =~= Seq::<Option<String>>::empty());
        assert(node_action_views(r@) =~= replay_errors::<M>(*peer, outcomes@.take(0)));
    }
    while i < outcomes.len()
        invariant
            i <= outcomes@.len(),
            hex@ == hex_text(peer@),
            node_action_views(r@) == replay_errors::<M>(*peer, outcomes@.take(i as int)),
        decreases outcomes.len() - i,
    {
        proof {
            assert(outcomes@.take(i + 1).drop_last() =~= outcomes@.take(i as int));
            assert(outcomes@.take(i + 1).last() == outcomes@[i as int]);
        }
        match &outcomes[i] {
            Some(e) => {
                push(
                    &mut r,
                    NodeAction::Print(
                        text4(
                            "\nERROR: failed to replay an intercepted onion message to ",
                            hex.as_str(),
                            ": ",
                            e.as_str(),
                        ),
                    ),
                );
            },
            None => {},
        }
        i = i + 1;
    }
    assert(outcomes@.take(i as int) =~= outcomes@);
    let ghost errors = node_action_views(r@);
    let line: String = text4(
        "\nEVENT: replayed ",
        decimal(outcomes.len() as u64).as_str(),
        " held onion message(s) to reconnected peer ",
        hex.as_str(),
    );
    push(&mut r, NodeAction::Print(line));
    push(&mut r, NodeAction::Inline("> ".to_owned()));
    assert(node_action_views(r@) =~= errors + announce_line::<M>(line@));
    r
}

/// The line about an invoice that was asked for, given why it could not be handed out, if it
/// could not.
pub open spec fn served_line(
    recipient_id: Seq<u8>,
    invoice_slot: u16,
    error: Option<String>,
) -> Seq<char> {
    match error {
        None => "\nEVENT: served the static invoice in slot "@ + decimal_text(
            invoice_slot as nat,
        ) + " for async recipient "@ + utf8_lossy(recipient_id),
        Some(e) => "\nERROR: failed to serve a static invoice: "@ + e@,
    }
}

/// Says what became of an invoice that was asked for.
pub fn invoice_served<M>(recipient_id: &Vec<u8>, invoice_slot: u16, error: Option<String>) -> (r:
    Vec<NodeAction<String, Vec<u8>, Vec<M>>>)
    ensures
        node_action_views(r@) == announce_line::<M>(
            served_line(recipient_id@, invoice_slot, error),
        ),
{
    match error {
        None => announcing(
            text4(
                "\nEVENT: served the static invoice in slot ",
                decimal(invoice_slot as u64).as_str(),
                " for async recipient ",
                text_of_bytes(recipient_id.as_slice()).as_str(),
            ),
        ),
        Some(e) => announcing(
            text2("\nERROR: failed to serve a static invoice: ", e.as_str()),
        ),
    }
}

} // verus!
