//! What each event of the network leads to, and what the operator is told of it.

use crate::events::{
    accepted_text, can_handle, channel_line, channel_text, channel_with_id, claimable_line,
    claimed_line, closed_line, failed_text, fee_text, forwarded_line, funding_bytes, handle,
    next_node, node_text, replay_errors, sent_line, served_line, ChannelFacts, NextMessageHop,
    NodeAction, NodeEvent, NodeMemory, NodeName, PaymentPurpose,
};
use crate::hex::{hex_text, law_hex_round_trip};
use crate::ldk::{
    consensus_transaction, is_witness_script, utf8_lossy, witness_address_text, AddressNetwork,
};
use crate::network::Network;
use crate::payments::{HTLCStatus, MillisatAmount, PaymentInfo};
use crate::report_laws::{begins, holds, lemma_kept, lemma_piece};
use crate::text::decimal_text;
use crate::wire::{be_value, lemma_be_value_bound, pow256};
use vstd::prelude::*;
use vstd::string::*;

verus! {

/// A channel is funded with the value that was agreed on, at the address of the script that came
/// with the request, for the channel and the peer that asked.
pub proof fn law_channels_are_funded_as_agreed<M, I>(
    temporary_channel_id: [u8; 32],
    counterparty_node_id: [u8; 33],
    channel_value_satoshis: u64,
    output_script: Vec<u8>,
    network: Network,
    channels: Seq<ChannelFacts>,
    memory: NodeMemory<M, I>,
)
    ensures
        ({
            let r = handle(
                NodeEvent::FundingGenerationReady {
                    temporary_channel_id,
                    counterparty_node_id,
                    channel_value_satoshis,
                    output_script,
                },
                network,
                channels,
                memory,
            );
            let on = match network {
                Network::Bitcoin => AddressNetwork::Bitcoin,
                Network::Testnet => AddressNetwork::Testnet,
                Network::Testnet4 => AddressNetwork::Testnet,
                Network::Signet => AddressNetwork::Signet,
                Network::Regtest => AddressNetwork::Regtest,
            };
            &&& r.memory == memory
            &&& r.actions.len() == 1
            &&& r.actions[0] matches NodeAction::FundChannel {
                temporary_channel_id: id,
                counterparty_node_id: peer,
                address,
                value_sat,
            }
            &&& id == temporary_channel_id
            &&& peer == counterparty_node_id
            &&& value_sat == channel_value_satoshis
            &&& address == witness_address_text(output_script@, on)
        }),
{
}

/// A payment that has come is claimed with its own preimage, whatever it was made for, and nothing
/// is remembered of it before it has been claimed.
pub proof fn law_payments_are_claimed<M, I>(
    payment_hash: [u8; 32],
    purpose: PaymentPurpose,
    amount_msat: u64,
    network: Network,
    channels: Seq<ChannelFacts>,
    memory: NodeMemory<M, I>,
)
    ensures
        ({
            let r = handle(
                NodeEvent::PaymentClaimable { payment_hash, purpose, amount_msat },
                network,
                channels,
                memory,
            );
            &&& r.memory == memory
            &&& r.actions.len() == 3
            &&& r.actions[2] matches NodeAction::ClaimFunds(preimage)
            &&& match purpose {
                PaymentPurpose::Bolt11InvoicePayment { payment_preimage, .. } => payment_preimage
                    is Some ==> payment_preimage == Some(preimage),
                PaymentPurpose::Bolt12OfferPayment { payment_preimage, .. } => payment_preimage
                    is Some ==> payment_preimage == Some(preimage),
                PaymentPurpose::Bolt12RefundPayment { payment_preimage, .. } => payment_preimage
                    is Some ==> payment_preimage == Some(preimage),
                PaymentPurpose::SpontaneousPayment(own) => own == preimage,
            }
        }),
{
}

/// A payment that has been claimed is remembered as succeeded, with the preimage and the secret
/// that it was made with; one that was made without being asked for has no secret.
pub proof fn law_claims_are_remembered<M, I>(
    payment_hash: [u8; 32],
    purpose: PaymentPurpose,
    amount_msat: u64,
    network: Network,
    channels: Seq<ChannelFacts>,
    memory: NodeMemory<M, I>,
)
    ensures
        ({
            let r = handle(
                NodeEvent::PaymentClaimed { payment_hash, purpose, amount_msat },
                network,
                channels,
                memory,
            );
            let info = r.memory.inbound[payment_hash];
            &&& r.memory.inbound.dom() == memory.inbound.dom().insert(payment_hash)
            &&& info.status == HTLCStatus::Succeeded
            &&& match purpose {
                PaymentPurpose::Bolt11InvoicePayment { payment_preimage, payment_secret } =>
                    info.preimage == payment_preimage && info.secret == Some(payment_secret),
                PaymentPurpose::Bolt12OfferPayment { payment_preimage, payment_secret } =>
                    info.preimage == payment_preimage && info.secret == Some(payment_secret),
                PaymentPurpose::Bolt12RefundPayment { payment_preimage, payment_secret } =>
                    info.preimage == payment_preimage && info.secret == Some(payment_secret),
                PaymentPurpose::SpontaneousPayment(own) => info.preimage == Some(own)
                    && info.secret is None,
            }
        }),
{
    let r = handle(
        NodeEvent::PaymentClaimed { payment_hash, purpose, amount_msat },
        network,
        channels,
        memory,
    );
    assert(r.memory.inbound.dom() =~= memory.inbound.dom().insert(payment_hash));
}

/// A payment of the node that has arrived or failed keeps its amount and its secret.
pub proof fn law_outcomes_keep_the_payment<M, I>(
    event: NodeEvent<M, I>,
    network: Network,
    channels: Seq<ChannelFacts>,
    memory: NodeMemory<M, I>,
    id: [u8; 32],
)
    requires
        memory.outbound.dom().contains(id),
    ensures
        ({
            let after = handle(event, network, channels, memory).memory.outbound;
            &&& after.dom() == memory.outbound.dom()
            &&& after[id].amt_msat == memory.outbound[id].amt_msat
            &&& after[id].secret == memory.outbound[id].secret
            &&& after[id].preimage == memory.outbound[id].preimage || event is PaymentSent
            &&& after[id].status == memory.outbound[id].status || event is PaymentSent || event
                is PaymentFailed
        }),
{
    let after = handle(event, network, channels, memory).memory.outbound;
    assert(after.dom() =~= memory.outbound.dom());
}

/// A channel that a peer asks for is accepted for that peer, under an identifier that is drawn
/// from fresh bytes: its sixteen bytes are the first sixteen of them.
pub proof fn law_channels_are_accepted<M, I>(
    temporary_channel_id: [u8; 32],
    counterparty_node_id: [u8; 33],
    entropy: [u8; 32],
    network: Network,
    channels: Seq<ChannelFacts>,
    memory: NodeMemory<M, I>,
)
    ensures
        ({
            let r = handle(
                NodeEvent::OpenChannelRequest {
                    temporary_channel_id,
                    counterparty_node_id,
                    entropy,
                },
                network,
                channels,
                memory,
            );
            &&& r.memory == memory
            &&& r.actions.len() == 1
            &&& r.actions[0] matches NodeAction::AcceptChannel {
                temporary_channel_id: id,
                counterparty_node_id: peer,
                user_channel_id,
            }
            &&& id == temporary_channel_id
            &&& peer == counterparty_node_id
            &&& user_channel_id as nat == be_value(entropy@.take(16))
        }),
{
    lemma_be_value_bound(entropy@.take(16));
    assert(pow256(16) == 0x1_0000_0000_0000_0000_0000_0000_0000_0000) by {
        reveal_with_fuel(pow256, 17);
    }
}

/// Outputs that can be spent are tracked, all of them and at once; a transaction that needs a
/// higher fee gets one; and a peer that is needed is connected.
pub proof fn law_requests_are_passed_on<M, I>(
    network: Network,
    channels: Seq<ChannelFacts>,
    memory: NodeMemory<M, I>,
)
    ensures
        ({
            let spend = handle(NodeEvent::<M, I>::SpendableOutputs, network, channels, memory);
            let bump = handle(NodeEvent::<M, I>::BumpTransaction, network, channels, memory);
            let connect = handle(NodeEvent::<M, I>::ConnectionNeeded, network, channels, memory);
            let other = handle(NodeEvent::<M, I>::Other, network, channels, memory);
            &&& spend.memory == memory && bump.memory == memory && connect.memory == memory
                && other.memory == memory
            &&& spend.actions.len() == 1 && bump.actions.len() == 1 && connect.actions.len() == 1
                && other.actions.len() == 0
            &&& spend.actions[0] matches NodeAction::TrackOutputs {
                exclude_static_outputs,
                delay_until_height,
            }
            &&& !exclude_static_outputs
            &&& delay_until_height is None
            &&& bump.actions[0] is BumpTransaction
            &&& connect.actions[0] is ConnectPeer
        }),
{
}

/// The channel that is found under an identifier has it, and none before it has.
proof fn lemma_channel_with_id(channels: Seq<ChannelFacts>, id: [u8; 32])
    ensures
        match channel_with_id(channels, id) {
            Some(channel) => exists|i: int|
                {
                    &&& 0 <= i < channels.len()
                    &&& #[trigger] channels[i] == channel
                    &&& channel.channel_id == id
                    &&& forall|j: int| 0 <= j < i ==> (#[trigger] channels[j]).channel_id != id
                },
            None => forall|j: int|
                0 <= j < channels.len() ==> (#[trigger] channels[j]).channel_id != id,
        },
    decreases channels.len(),
{
    if channels.len() > 0 && channels[0].channel_id != id {
        let rest = channels.drop_first();
        lemma_channel_with_id(rest, id);
        assert(forall|j: int| 0 < j < channels.len() ==> #[trigger] channels[j] == rest[j - 1]);
        match channel_with_id(rest, id) {
            Some(channel) => {
                let i = choose|i: int|
                    {
                        &&& 0 <= i < rest.len()
                        &&& #[trigger] rest[i] == channel
                        &&& channel.channel_id == id
                        &&& forall|j: int| 0 <= j < i ==> (#[trigger] rest[j]).channel_id != id
                    };
                assert(channels[i + 1] == channel);
                assert forall|j: int| 0 <= j < i + 1 implies (#[trigger] channels[j]).channel_id
                    != id by {
                    if j > 0 {
                        assert(rest[j - 1].channel_id != id);
                    }
                }
            },
            None => {
                assert forall|j: int| 0 <= j < channels.len() implies (
                #[trigger] channels[j]).channel_id != id by {
                    if j > 0 {
                        assert(rest[j - 1].channel_id != id);
                    }
                }
            },
        }
    } else if channels.len() > 0 {
        assert(channels[0].channel_id == id);
    }
}

/// A channel is told by the name of the node at its other end, if it is one of the node's.
pub proof fn law_channels_go_by_their_peers(channels: Seq<ChannelFacts>, id: [u8; 32], i: int)
    requires
        0 <= i < channels.len(),
        channels[i].channel_id == id,
        forall|j: int| 0 <= j < i ==> (#[trigger] channels[j]).channel_id != id,
    ensures
        node_text(channels, Some(id)) == (match channels[i].counterparty_name {
            NodeName::Private => "private node"@,
            NodeName::Unnamed => "unnamed node"@,
            NodeName::Alias(alias) => "node "@ + alias@,
        }),
{
    lemma_channel_with_id(channels, id);
    assert(channel_with_id(channels, id) == Some(channels[i])) by {
        match channel_with_id(channels, id) {
            Some(channel) => {
                let k = choose|k: int|
                    {
                        &&& 0 <= k < channels.len()
                        &&& #[trigger] channels[k] == channel
                        &&& channel.channel_id == id
                        &&& forall|j: int|
                            0 <= j < k ==> (#[trigger] channels[j]).channel_id != id
                    };
                assert(k == i);
            },
            None => {},
        }
    }
}

/// No channel, or one that is none of the node's, is told by no name.
pub proof fn law_unknown_channels_have_no_name(channels: Seq<ChannelFacts>, id: [u8; 32])
    requires
        forall|j: int| 0 <= j < channels.len() ==> (#[trigger] channels[j]).channel_id != id,
    ensures
        node_text(channels, Some(id)) == ""@,
        node_text(channels, None) == ""@,
{
    lemma_channel_with_id(channels, id);
}

/// A message goes to the node that it names, or to the one behind the channel that it names by
/// its place on the chain or by either alias; a channel that is not known leads nowhere.
pub proof fn law_messages_find_their_peer(channels: Seq<ChannelFacts>, scid: u64, node: [u8; 33])
    ensures
        next_node(channels, NextMessageHop::NodeId(node)) == Some(node),
        match next_node(channels, NextMessageHop::ShortChannelId(scid)) {
            Some(peer) => exists|i: int|
                {
                    &&& 0 <= i < channels.len()
                    &&& (#[trigger] channels[i]).counterparty == peer
                    &&& channels[i].short_channel_id == Some(scid)
                        || channels[i].outbound_scid_alias == Some(scid)
                        || channels[i].inbound_scid_alias == Some(scid)
                },
            None => forall|i: int|
                0 <= i < channels.len() ==> {
                    &&& (#[trigger] channels[i]).short_channel_id != Some(scid)
                    &&& channels[i].outbound_scid_alias != Some(scid)
                    &&& channels[i].inbound_scid_alias != Some(scid)
                },
        },
    decreases channels.len(),
{
    if channels.len() > 0 {
        let rest = channels.drop_first();
        law_messages_find_their_peer(rest, scid, node);
        assert(forall|j: int| 0 < j < channels.len() ==> #[trigger] channels[j] == rest[j - 1]);
        let first = channels[0];
        if first.short_channel_id == Some(scid) || first.outbound_scid_alias == Some(scid)
            || first.inbound_scid_alias == Some(scid) {
            assert(channels[0].counterparty == first.counterparty);
        } else {
            match next_node(rest, NextMessageHop::ShortChannelId(scid)) {
                Some(peer) => {
                    let i = choose|i: int|
                        {
                            &&& 0 <= i < rest.len()
                            &&& (#[trigger] rest[i]).counterparty == peer
                            &&& rest[i].short_channel_id == Some(scid)
                                || rest[i].outbound_scid_alias == Some(scid)
                                || rest[i].inbound_scid_alias == Some(scid)
                        };
                    assert(channels[i + 1] == rest[i]);
                },
                None => {
                    assert forall|i: int| 0 <= i < channels.len() implies {
                        &&& (#[trigger] channels[i]).short_channel_id != Some(scid)
                        &&& channels[i].outbound_scid_alias != Some(scid)
                        &&& channels[i].inbound_scid_alias != Some(scid)
                    } by {
                        if i > 0 {
                            assert(channels[i] == rest[i - 1]);
                        }
                    }
                },
            }
        }
    }
}

/// A message for a peer that is away is kept for that peer and for no other, behind those that are
/// kept already.
pub proof fn law_messages_are_kept_for_their_peer<M, I>(
    next_hop: NextMessageHop,
    message: M,
    network: Network,
    channels: Seq<ChannelFacts>,
    memory: NodeMemory<M, I>,
    other: [u8; 33],
)
    ensures
        ({
            let after = handle(
                NodeEvent::<M, I>::OnionMessageIntercepted { next_hop, message },
                network,
                channels,
                memory,
            ).memory;
            match next_node(channels, next_hop) {
                Some(peer) => {
                    &&& after.messages.dom().contains(peer)
                    &&& after.messages[peer].len() > 0
                    &&& after.messages[peer].last() == message
                    &&& other != peer ==> after.messages.dom().contains(other)
                        == memory.messages.dom().contains(other) && after.messages[other]
                        == memory.messages[other]
                },
                None => after == memory,
            }
        }),
        ({
            let actions = handle(
                NodeEvent::<M, I>::OnionMessageIntercepted { next_hop, message },
                network,
                channels,
                memory,
            ).actions;
            &&& actions.len() == 2
            &&& told_with(
                actions,
                match next_node(channels, next_hop) {
                    Some(peer) => "\nEVENT: intercepted an onion message for offline peer "@
                        + hex_text(peer@) + ", holding it for replay"@,
                    None =>
                        "\nEVENT: dropping an intercepted onion message with an unknown next hop"@,
                },
            )
        }),
{
}

/// The line that an event is told with, and the prompt behind it.
pub open spec fn told_with<M>(
    actions: Seq<NodeAction<Seq<char>, Seq<u8>, Seq<M>>>,
    line: Seq<char>,
) -> bool {
    &&& actions.len() >= 2
    &&& actions[0] == NodeAction::<Seq<char>, Seq<u8>, Seq<M>>::Print(line)
    &&& actions[1] == NodeAction::<Seq<char>, Seq<u8>, Seq<M>>::Inline("> "@)
}

/// The operator is told of a payment that has come, and again once it has been claimed, each time
/// with its hash and its amount.
pub proof fn law_payments_that_come_are_told<M, I>(
    payment_hash: [u8; 32],
    purpose: PaymentPurpose,
    amount_msat: u64,
    network: Network,
    channels: Seq<ChannelFacts>,
    memory: NodeMemory<M, I>,
)
    ensures
        ({
            let what = " payment from payment hash "@ + hex_text(payment_hash@) + " of "@
                + decimal_text(amount_msat as nat) + " millisatoshis"@;
            let came = handle(
                NodeEvent::PaymentClaimable { payment_hash, purpose, amount_msat },
                network,
                channels,
                memory,
            );
            let claimed = handle(
                NodeEvent::PaymentClaimed { payment_hash, purpose, amount_msat },
                network,
                channels,
                memory,
            );
            &&& told_with(came.actions, "\nEVENT: received"@ + what)
            &&& told_with(claimed.actions, "\nEVENT: claimed"@ + what)
        }),
{
    reveal_strlit("\nEVENT: received");
    reveal_strlit("\nEVENT: claimed");
    reveal_strlit(" payment from payment hash ");
    reveal_strlit("\nEVENT: received payment from payment hash ");
    reveal_strlit("\nEVENT: claimed payment from payment hash ");
    let lead = " payment from payment hash "@;
    let what = lead + hex_text(payment_hash@) + " of "@ + decimal_text(amount_msat as nat)
        + " millisatoshis"@;
    assert("\nEVENT: received"@ + lead =~= "\nEVENT: received payment from payment hash "@);
    assert("\nEVENT: claimed"@ + lead =~= "\nEVENT: claimed payment from payment hash "@);
    assert("\nEVENT: received"@ + what =~= claimable_line(payment_hash, amount_msat));
    assert("\nEVENT: claimed"@ + what =~= claimed_line(payment_hash, amount_msat));
}

/// The operator is told of a payment of the node that has arrived, with its amount, its fee where
/// that is known, its hash and its preimage.
pub proof fn law_payments_that_arrive_are_told<M, I>(
    payment_preimage: [u8; 32],
    payment_hash: [u8; 32],
    fee_paid_msat: Option<u64>,
    id: [u8; 32],
    network: Network,
    channels: Seq<ChannelFacts>,
    memory: NodeMemory<M, I>,
)
    requires
        memory.outbound.dom().contains(id),
    ensures
        ({
            let r = handle(
                NodeEvent::<M, I>::PaymentSent {
                    payment_preimage,
                    payment_hash,
                    fee_paid_msat,
                    payment_id: Some(id),
                },
                network,
                channels,
                memory,
            );
            let amount = match memory.outbound[id].amt_msat {
                MillisatAmount(Some(amt)) => decimal_text(amt as nat),
                MillisatAmount(None) => "unknown"@,
            };
            &&& r.actions.len() == 3
            &&& r.actions[0] matches NodeAction::Print(line)
            &&& told_with(r.actions, line)
            &&& begins(
                line,
                "\nEVENT: successfully sent payment of "@ + amount + " millisatoshis"@,
            )
            &&& fee_paid_msat matches Some(fee) ==> holds(
                line,
                " (fee "@ + decimal_text(fee as nat) + " msat)"@,
            )
            &&& holds(line, " from payment hash "@ + hex_text(payment_hash@))
            &&& holds(line, " with preimage "@ + hex_text(payment_preimage@))
            &&& line.len() == "\nEVENT: successfully sent payment of "@.len() + amount.len()
                + " millisatoshis"@.len() + (match fee_paid_msat {
                Some(fee) => " (fee "@.len() + decimal_text(fee as nat).len() + " msat)"@.len(),
                None => 0nat,
            }) + " from payment hash "@.len() + 64 + " with preimage "@.len() + 64
        }),
{
    reveal_strlit("");
    let amount = memory.outbound[id].amt_msat.text();
    let lead = "\nEVENT: successfully sent payment of "@ + amount + " millisatoshis"@;
    let fee = fee_text(fee_paid_msat);
    let hash = " from payment hash "@ + hex_text(payment_hash@);
    let preimage = " with preimage "@ + hex_text(payment_preimage@);
    let line = sent_line(
        memory.outbound[id].amt_msat,
        fee_paid_msat,
        payment_hash,
        payment_preimage,
    );
    let none = Seq::<char>::empty();
    lemma_piece(line, lead, fee, hash + preimage);
    lemma_piece(line, lead + fee, hash, preimage);
    lemma_piece(line, lead + fee + hash, preimage, none);
    assert(begins(line, lead)) by {
        reveal(begins);
        assert(line.take(lead.len() as int) =~= lead);
    }
}

/// The operator is told of a payment of the node that has failed, with its identifier, with its
/// hash if it has come so far as to have one, and with the reason.
pub proof fn law_payments_that_fail_are_told<M, I>(
    payment_hash: Option<[u8; 32]>,
    reason: Option<String>,
    payment_id: [u8; 32],
    network: Network,
    channels: Seq<ChannelFacts>,
    memory: NodeMemory<M, I>,
)
    ensures
        ({
            let r = handle(
                NodeEvent::<M, I>::PaymentFailed { payment_hash, reason, payment_id },
                network,
                channels,
                memory,
            );
            let why = match reason {
                Some(reason) => reason@,
                None => "RetriesExhausted"@,
            };
            let hash = match payment_hash {
                Some(hash) => ", payment hash "@ + hex_text(hash@),
                None => Seq::<char>::empty(),
            };
            let tail = hex_text(payment_id@) + hash + ": "@ + why;
            &&& r.actions.len() == 3
            &&& r.actions[0] matches NodeAction::Inline(line)
            &&& payment_hash is Some ==> line == "\nEVENT: Failed to send payment to payment ID "@
                + tail
            &&& payment_hash is None ==> line == "\nEVENT: Failed fetch invoice for payment ID "@
                + tail
        }),
{
    let why = match reason {
        Some(reason) => reason@,
        None => "RetriesExhausted"@,
    };
    let hash = match payment_hash {
        Some(hash) => ", payment hash "@ + hex_text(hash@),
        None => Seq::<char>::empty(),
    };
    let tail = hex_text(payment_id@) + hash + ": "@ + why;
    let line = failed_text(payment_hash, reason, payment_id);
    if payment_hash is Some {
        assert(line =~= "\nEVENT: Failed to send payment to payment ID "@ + tail);
    } else {
        assert(line =~= "\nEVENT: Failed fetch invoice for payment ID "@ + tail);
    }
}

/// How a channel that a payment went through is named, if there was one.
pub open spec fn with_channel(id: Option<[u8; 32]>) -> Seq<char> {
    match id {
        Some(id) => " with channel "@ + hex_text(id@),
        None => Seq::empty(),
    }
}

/// What stands in a text of nine parts.
proof fn lemma_pieces(
    lead: Seq<char>,
    from: Seq<char>,
    a: Seq<char>,
    b: Seq<char>,
    to: Seq<char>,
    c: Seq<char>,
    d: Seq<char>,
    fee: Seq<char>,
    how: Seq<char>,
)
    ensures
        ({
            let line = lead + from + a + b + to + c + d + fee + how;
            &&& begins(line, lead)
            &&& holds(line, from + a + b + to)
            &&& holds(line, to + c + d)
            &&& holds(line, fee)
            &&& holds(line, how)
        }),
{
    let none = Seq::<char>::empty();
    let t1 = lead + from + a + b;
    let t2 = t1 + to;
    let t3 = t2 + c + d;
    let t4 = t3 + fee;
    let t5 = t4 + how;
    lemma_piece(t2, lead, from + a + b + to, none);
    lemma_piece(t3, t1, to + c + d, none);
    lemma_piece(t4, t3, fee, none);
    lemma_piece(t5, t4, how, none);
    lemma_kept(t2, c);
    lemma_kept(t2 + c, d);
    lemma_kept(t3, fee);
    lemma_kept(t4, how);
    assert(begins(t5, lead)) by {
        reveal(begins);
        assert(t5.take(lead.len() as int) =~= lead);
    }
}

/// What the line about a payment that was forwarded holds.
proof fn lemma_forwarded(
    channels: Seq<ChannelFacts>,
    prev: Option<[u8; 32]>,
    next: Option<[u8; 32]>,
    total_fee_earned_msat: Option<u64>,
    claim_from_onchain_tx: bool,
    amount_msat: u64,
    line: Seq<char>,
)
    requires
        line == forwarded_line(
            channels,
            prev,
            next,
            total_fee_earned_msat,
            claim_from_onchain_tx,
            amount_msat,
        ),
    ensures
        ({
            &&& begins(
                line,
                "\nEVENT: Forwarded payment for "@ + decimal_text(amount_msat as nat) + " msat"@,
            )
            &&& holds(line, " from "@ + node_text(channels, prev) + with_channel(prev) + " to "@)
            &&& holds(line, " to "@ + node_text(channels, next) + with_channel(next))
            &&& total_fee_earned_msat matches Some(fee) ==> holds(
                line,
                ", earning "@ + decimal_text(fee as nat) + " msat "@,
            )
            &&& total_fee_earned_msat is None ==> holds(line, ", claiming onchain "@)
            &&& claim_from_onchain_tx ==> holds(line, "from onchain downstream claim"@)
            &&& !claim_from_onchain_tx ==> holds(line, "from HTLC fulfill message"@)
            &&& line.len() == "\nEVENT: Forwarded payment for "@.len() + decimal_text(
                amount_msat as nat,
            ).len() + " msat"@.len() + " from "@.len() + node_text(channels, prev).len()
                + with_channel(prev).len() + " to "@.len() + node_text(channels, next).len()
                + with_channel(next).len() + (match total_fee_earned_msat {
                Some(fee) => ", earning "@.len() + decimal_text(fee as nat).len() + " msat "@.len(),
                None => ", claiming onchain "@.len(),
            }) + (if claim_from_onchain_tx {
                "from onchain downstream claim"@.len()
            } else {
                "from HTLC fulfill message"@.len()
            })
        }),
{
    reveal_strlit("");
    let lead = "\nEVENT: Forwarded payment for "@ + decimal_text(amount_msat as nat) + " msat"@;
    let fee = match total_fee_earned_msat {
        Some(fee) => ", earning "@ + decimal_text(fee as nat) + " msat "@,
        None => ", claiming onchain "@,
    };
    let how = if claim_from_onchain_tx {
        "from onchain downstream claim"@
    } else {
        "from HTLC fulfill message"@
    };
    assert(with_channel(prev) =~= channel_text(prev));
    assert(with_channel(next) =~= channel_text(next));
    lemma_pieces(
        lead,
        " from "@,
        node_text(channels, prev),
        with_channel(prev),
        " to "@,
        node_text(channels, next),
        with_channel(next),
        fee,
        how,
    );
}

/// The operator is told of a payment that was forwarded, with its amount, the channels and the
/// nodes that it came from and went to, and what was earned.
pub proof fn law_forwards_are_told<M, I>(
    prev: Option<[u8; 32]>,
    next: Option<[u8; 32]>,
    total_fee_earned_msat: Option<u64>,
    claim_from_onchain_tx: bool,
    amount_msat: u64,
    network: Network,
    channels: Seq<ChannelFacts>,
    memory: NodeMemory<M, I>,
)
    ensures
        ({
            let r = handle(
                NodeEvent::<M, I>::PaymentForwarded {
                    prev_channel_id: prev,
                    next_channel_id: next,
                    total_fee_earned_msat,
                    claim_from_onchain_tx,
                    outbound_amount_forwarded_msat: amount_msat,
                },
                network,
                channels,
                memory,
            );
            &&& r.memory == memory
            &&& r.actions.len() == 2
            &&& r.actions[0] matches NodeAction::Print(line)
            &&& told_with(r.actions, line)
            &&& begins(
                line,
                "\nEVENT: Forwarded payment for "@ + decimal_text(amount_msat as nat) + " msat"@,
            )
            &&& holds(line, " from "@ + node_text(channels, prev) + with_channel(prev) + " to "@)
            &&& holds(line, " to "@ + node_text(channels, next) + with_channel(next))
            &&& total_fee_earned_msat matches Some(fee) ==> holds(
                line,
                ", earning "@ + decimal_text(fee as nat) + " msat "@,
            )
            &&& total_fee_earned_msat is None ==> holds(line, ", claiming onchain "@)
            &&& claim_from_onchain_tx ==> holds(line, "from onchain downstream claim"@)
            &&& !claim_from_onchain_tx ==> holds(line, "from HTLC fulfill message"@)
            &&& line.len() == "\nEVENT: Forwarded payment for "@.len() + decimal_text(
                amount_msat as nat,
            ).len() + " msat"@.len() + " from "@.len() + node_text(channels, prev).len()
                + with_channel(prev).len() + " to "@.len() + node_text(channels, next).len()
                + with_channel(next).len() + (match total_fee_earned_msat {
                Some(fee) => ", earning "@.len() + decimal_text(fee as nat).len() + " msat "@.len(),
                None => ", claiming onchain "@.len(),
            }) + (if claim_from_onchain_tx {
                "from onchain downstream claim"@.len()
            } else {
                "from HTLC fulfill message"@.len()
            })
        }),
{
    let line = forwarded_line(
        channels,
        prev,
        next,
        total_fee_earned_msat,
        claim_from_onchain_tx,
        amount_msat,
    );
    lemma_forwarded(
        channels,
        prev,
        next,
        total_fee_earned_msat,
        claim_from_onchain_tx,
        amount_msat,
        line,
    );
}

/// The operator is told of a channel that is pending, ready or closed, with its identifier and its
/// peer, and of one that is closed with the reason.
pub proof fn law_channels_are_told<M, I>(
    channel_id: [u8; 32],
    peer: [u8; 33],
    counterparty: Option<[u8; 33]>,
    reason: String,
    network: Network,
    channels: Seq<ChannelFacts>,
    memory: NodeMemory<M, I>,
)
    ensures
        ({
            let pending = handle(
                NodeEvent::<M, I>::ChannelPending { channel_id, counterparty_node_id: peer },
                network,
                channels,
                memory,
            );
            let ready = handle(
                NodeEvent::<M, I>::ChannelReady { channel_id, counterparty_node_id: peer },
                network,
                channels,
                memory,
            );
            let closed = handle(
                NodeEvent::<M, I>::ChannelClosed {
                    channel_id,
                    closure_reason: reason,
                    counterparty,
                },
                network,
                channels,
                memory,
            );
            let lead = "\nEVENT: Channel "@ + hex_text(channel_id@) + " with "@;
            &&& pending.memory == memory && ready.memory == memory && closed.memory == memory
            &&& pending.actions.len() == 2 && ready.actions.len() == 2 && closed.actions.len() == 2
            &&& told_with(
                pending.actions,
                lead + "peer "@ + hex_text(peer@) + " is pending awaiting funding lock-in!"@,
            )
            &&& told_with(
                ready.actions,
                lead + "peer "@ + hex_text(peer@) + " is ready to be used!"@,
            )
            &&& told_with(
                closed.actions,
                lead + "counterparty "@ + (match counterparty {
                    Some(id) => hex_text(id@),
                    None => Seq::<char>::empty(),
                }) + " closed due to: "@ + reason@,
            )
        }),
{
    reveal_strlit(" with ");
    reveal_strlit("peer ");
    reveal_strlit("counterparty ");
    reveal_strlit(" with peer ");
    reveal_strlit(" with counterparty ");
    assert(" with "@ + "peer "@ =~= " with peer "@);
    assert(" with "@ + "counterparty "@ =~= " with counterparty "@);
    let lead = "\nEVENT: Channel "@ + hex_text(channel_id@) + " with "@;
    let key = hex_text(peer@);
    let pending = " is pending awaiting funding lock-in!"@;
    let ready = " is ready to be used!"@;
    assert(channel_line(channel_id, peer, pending) =~= lead + "peer "@ + key
        + pending);
    assert(channel_line(channel_id, peer, ready) =~= lead + "peer "@ + key + ready);
    reveal_strlit("");
    let who = match counterparty {
        Some(id) => hex_text(id@),
        None => Seq::<char>::empty(),
    };
    assert(closed_line(channel_id, counterparty, reason@) =~= lead + "counterparty "@ + who
        + " closed due to: "@ + reason@);
}

/// A static invoice that is handed over is kept for its recipient and slot, which is confirmed and
/// then told; a request for one that is not kept is told too and changes nothing.
pub proof fn law_static_invoices_are_told<M, I>(
    invoice: I,
    invoice_slot: u16,
    recipient_id: Vec<u8>,
    network: Network,
    channels: Seq<ChannelFacts>,
    memory: NodeMemory<M, I>,
)
    ensures
        ({
            let kept = handle(
                NodeEvent::<M, I>::PersistStaticInvoice { invoice, invoice_slot, recipient_id },
                network,
                channels,
                memory,
            );
            let asked = handle(
                NodeEvent::<M, I>::StaticInvoiceRequested { recipient_id, invoice_slot },
                network,
                channels,
                memory,
            );
            let slot = decimal_text(invoice_slot as nat);
            let name = utf8_lossy(recipient_id@);
            &&& kept.actions.len() == 3
            &&& kept.actions[0] is ConfirmPersisted
            &&& told_with(
                kept.actions.skip(1),
                "\nEVENT: persisted a static invoice in slot "@ + slot + " for async recipient "@
                    + name,
            )
            &&& kept.memory.invoices == memory.invoices.insert(
                (recipient_id@, invoice_slot),
                invoice,
            )
            &&& asked.memory == memory
            &&& !memory.invoices.dom().contains((recipient_id@, invoice_slot)) ==> {
                &&& asked.actions.len() == 2
                &&& told_with(
                    asked.actions,
                    "\nEVENT: received a static invoice request for unknown recipient "@ + name
                        + " slot "@ + slot,
                )
            }
        }),
{
}

/// The operator is told of each message that could not be replayed, in order and with the reason,
/// and of no other.
pub proof fn law_failed_replays_are_told<M>(
    peer: [u8; 33],
    outcomes: Seq<Option<String>>,
    outcome: Option<String>,
)
    ensures
        replay_errors::<M>(peer, seq![]).len() == 0,
        outcome is None ==> replay_errors::<M>(peer, outcomes.push(outcome)) == replay_errors::<M>(
            peer,
            outcomes,
        ),
        outcome matches Some(e) ==> {
            let told = replay_errors::<M>(peer, outcomes.push(outcome));
            &&& told.drop_last() == replay_errors::<M>(peer, outcomes)
            &&& told.len() == replay_errors::<M>(peer, outcomes).len() + 1
            &&& told.last() matches NodeAction::Print(line)
            &&& holds(line, " to "@ + hex_text(peer@) + ": "@ + e@)
        },
{
    assert(outcomes.push(outcome).drop_last() =~= outcomes);
    if outcome is Some {
        let e = outcome->0@;
        let told = replay_errors::<M>(peer, outcomes.push(outcome));
        assert(told.drop_last() =~= replay_errors::<M>(peer, outcomes));
        reveal_strlit("\nERROR: failed to replay an intercepted onion message to ");
        reveal_strlit("\nERROR: failed to replay an intercepted onion message");
        reveal_strlit(" to ");
        let lead = "\nERROR: failed to replay an intercepted onion message"@;
        assert("\nERROR: failed to replay an intercepted onion message to "@ =~= lead + " to "@);
        let line = "\nERROR: failed to replay an intercepted onion message to "@ + hex_text(peer@)
            + ": "@ + e;
        let none = Seq::<char>::empty();
        lemma_piece(line, lead, " to "@ + hex_text(peer@) + ": "@ + e, none);
    }
}

/// A funding transaction is used only if it is signed in full, and as it was written.
pub proof fn law_funding_is_complete(complete: bool, bytes: Seq<u8>)
    ensures
        funding_bytes(complete, hex_text(bytes)) == (if complete && consensus_transaction(bytes) {
            Some(bytes)
        } else {
            None
        }),
{
    law_hex_round_trip(bytes);
}

/// The operator is told which channel of which peer was accepted or could not be, and which static
/// invoice was served or could not be.
pub proof fn law_answers_are_told(
    temporary_channel_id: [u8; 32],
    peer: [u8; 33],
    recipient_id: Seq<u8>,
    invoice_slot: u16,
    error: String,
)
    ensures
        ({
            let which = "("@ + hex_text(temporary_channel_id@) + ") from "@ + hex_text(peer@);
            let accepted = accepted_text(temporary_channel_id, peer, None);
            let refused = accepted_text(temporary_channel_id, peer, Some(error));
            let served = served_line(recipient_id, invoice_slot, None);
            let unserved = served_line(recipient_id, invoice_slot, Some(error));
            &&& accepted == "\nEVENT: Accepted inbound channel "@ + which
            &&& refused == "\nEVENT: Failed to accept inbound channel "@ + which + ": "@ + error@
            &&& holds(
                served,
                " in slot "@ + decimal_text(invoice_slot as nat) + " for async recipient "@
                    + utf8_lossy(recipient_id),
            )
            &&& holds(unserved, "failed to serve a static invoice: "@ + error@)
        }),
{
    reveal_strlit("(");
    reveal_strlit("\nEVENT: Accepted inbound channel ");
    reveal_strlit("\nEVENT: Failed to accept inbound channel ");
    reveal_strlit("\nEVENT: Accepted inbound channel (");
    reveal_strlit("\nEVENT: Failed to accept inbound channel (");
    assert("\nEVENT: Accepted inbound channel "@ + "("@ =~= "\nEVENT: Accepted inbound channel ("@);
    assert("\nEVENT: Failed to accept inbound channel "@ + "("@
        =~= "\nEVENT: Failed to accept inbound channel ("@);
    let which = "("@ + hex_text(temporary_channel_id@) + ") from "@ + hex_text(peer@);
    assert(accepted_text(temporary_channel_id, peer, None)
        =~= "\nEVENT: Accepted inbound channel "@ + which);
    assert(accepted_text(temporary_channel_id, peer, Some(error))
        =~= "\nEVENT: Failed to accept inbound channel "@ + which + ": "@ + error@);
    let none = Seq::<char>::empty();
    let slot = decimal_text(invoice_slot as nat);
    let name = utf8_lossy(recipient_id);
    reveal_strlit("\nEVENT: served the static invoice in slot ");
    reveal_strlit("\nEVENT: served the static invoice");
    reveal_strlit(" in slot ");
    let lead = "\nEVENT: served the static invoice"@;
    assert("\nEVENT: served the static invoice in slot "@ =~= lead + " in slot "@);
    lemma_piece(
        served_line(recipient_id, invoice_slot, None),
        lead,
        " in slot "@ + slot + " for async recipient "@ + name,
        none,
    );
    reveal_strlit("\nERROR: failed to serve a static invoice: ");
    reveal_strlit("\nERROR: ");
    reveal_strlit("failed to serve a static invoice: ");
    assert("\nERROR: failed to serve a static invoice: "@ =~= "\nERROR: "@
        + "failed to serve a static invoice: "@);
    lemma_piece(
        served_line(recipient_id, invoice_slot, Some(error)),
        "\nERROR: "@,
        "failed to serve a static invoice: "@ + error@,
        none,
    );
}

/// A payment that the node does not remember leaves it as it was when it arrives or fails, and
/// what is remembered is saved all the same.
pub proof fn law_forgotten_payments_stay_forgotten<M, I>(
    payment_preimage: [u8; 32],
    payment_hash: [u8; 32],
    fee_paid_msat: Option<u64>,
    id: [u8; 32],
    reason: Option<String>,
    network: Network,
    channels: Seq<ChannelFacts>,
    memory: NodeMemory<M, I>,
)
    requires
        !memory.outbound.dom().contains(id),
    ensures
        ({
            let sent = handle(
                NodeEvent::<M, I>::PaymentSent {
                    payment_preimage,
                    payment_hash,
                    fee_paid_msat,
                    payment_id: Some(id),
                },
                network,
                channels,
                memory,
            );
            let failed = handle(
                NodeEvent::<M, I>::PaymentFailed {
                    payment_hash: Some(payment_hash),
                    reason,
                    payment_id: id,
                },
                network,
                channels,
                memory,
            );
            &&& sent.memory == memory
            &&& sent.actions == seq![NodeAction::<Seq<char>, Seq<u8>, Seq<M>>::SaveOutbound]
            &&& failed.memory == memory
            &&& failed.actions.last() is SaveOutbound
        }),
{
}

/// The node can handle every event but three: a channel to fund at no address, a payment to claim
/// without a preimage, and one that has arrived without an identifier while others are remembered.
pub proof fn law_most_events_can_be_handled<M, I>(
    event: NodeEvent<M, I>,
    outbound: Map<[u8; 32], PaymentInfo>,
)
    ensures
        !(event is FundingGenerationReady || event is PaymentClaimable || event is PaymentSent)
            ==> can_handle(event, outbound),
        event matches NodeEvent::PaymentClaimable {
            purpose: PaymentPurpose::SpontaneousPayment(_),
            ..
        } ==> can_handle(event, outbound),
        event matches NodeEvent::PaymentClaimable {
            purpose: PaymentPurpose::Bolt11InvoicePayment { payment_preimage, .. },
            ..
        } ==> (can_handle(event, outbound) <==> payment_preimage is Some),
        event matches NodeEvent::PaymentClaimable {
            purpose: PaymentPurpose::Bolt12OfferPayment { payment_preimage, .. },
            ..
        } ==> (can_handle(event, outbound) <==> payment_preimage is Some),
        event matches NodeEvent::PaymentClaimable {
            purpose: PaymentPurpose::Bolt12RefundPayment { payment_preimage, .. },
            ..
        } ==> (can_handle(event, outbound) <==> payment_preimage is Some),
        event matches NodeEvent::FundingGenerationReady { output_script, .. } ==> (can_handle(
            event,
            outbound,
        ) <==> is_witness_script(output_script@)),
        event matches NodeEvent::PaymentSent { payment_id: Some(_), .. } ==> can_handle(
            event,
            outbound,
        ),
        event matches NodeEvent::PaymentSent { payment_id: None, .. } ==> (can_handle(
            event,
            outbound,
        ) <==> forall|id: [u8; 32]| !#[trigger] outbound.dom().contains(id)),
{
    if forall|id: [u8; 32]| !#[trigger] outbound.dom().contains(id) {
        assert(outbound =~= Map::<[u8; 32], PaymentInfo>::empty());
    }
}

/// A script can be paid to if it holds a version from 0 to 16 and a program of 2 to 40 bytes
/// behind its length, with 20 or 32 bytes in version 0.
pub proof fn law_witness_scripts(version: u8, program: Seq<u8>)
    requires
        version <= 16,
        program.len() <= 75,
    ensures
        ({
            let first = if version == 0 {
                0u8
            } else {
                (0x50 + version) as u8
            };
            let script = seq![first, program.len() as u8] + program;
            is_witness_script(script) <==> 2 <= program.len() <= 40 && (version == 0
                ==> program.len() == 20 || program.len() == 32)
        }),
        forall|script: Seq<u8>| #[trigger]
            is_witness_script(script) ==> 4 <= script.len() <= 42 && script[1] + 2 == script.len()
                && (script[0] <= 0x10 || 0x51 <= script[0] <= 0x60),
{
}

} // verus!
