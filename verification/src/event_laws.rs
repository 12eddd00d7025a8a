//! What holds of the node whatever happens on the network.

use crate::events::{handle, next_node, ChannelFacts, NodeAction, NodeEvent, NodeMemory};
use crate::network::Network;
use crate::offline::{
    hold_message, hold_messages, law_newest_messages_are_held, MAX_INTERCEPTED_OMS_PER_PEER,
};
use crate::payments::HTLCStatus;
use vstd::prelude::*;
use vstd::string::*;

verus! {

/// The inbound payment that an event is about, if it is about one.
pub open spec fn inbound_concerned<M, I>(event: NodeEvent<M, I>) -> Option<[u8; 32]> {
    match event {
        NodeEvent::PaymentClaimed { payment_hash, .. } => Some(payment_hash),
        _ => None,
    }
}

/// The outbound payment that an event is about, if it is about one.
pub open spec fn outbound_concerned<M, I>(event: NodeEvent<M, I>) -> Option<[u8; 32]> {
    match event {
        NodeEvent::PaymentSent { payment_id, .. } => payment_id,
        NodeEvent::PaymentFailed { payment_id, .. } => Some(payment_id),
        _ => None,
    }
}

/// An event changes no payment but the one that it is about; no payment is forgotten, and no
/// outbound payment is made up.
pub proof fn law_events_concern_one_payment<M, I>(
    event: NodeEvent<M, I>,
    network: Network,
    channels: Seq<ChannelFacts>,
    memory: NodeMemory<M, I>,
    id: [u8; 32],
)
    ensures
        ({
            let after = handle(event, network, channels, memory).memory;
            &&& inbound_concerned(event) != Some(id) ==> after.inbound.dom().contains(id)
                == memory.inbound.dom().contains(id) && after.inbound[id] == memory.inbound[id]
            &&& outbound_concerned(event) != Some(id) ==> after.outbound[id]
                == memory.outbound[id]
            &&& memory.inbound.dom().contains(id) ==> after.inbound.dom().contains(id)
            &&& after.outbound.dom().contains(id) == memory.outbound.dom().contains(id)
        }),
{
}

/// Whenever what is remembered of payments changes, it is written to disk.
pub proof fn law_changes_are_saved<M, I>(
    event: NodeEvent<M, I>,
    network: Network,
    channels: Seq<ChannelFacts>,
    memory: NodeMemory<M, I>,
)
    ensures
        ({
            let r = handle(event, network, channels, memory);
            &&& r.memory.inbound != memory.inbound ==> r.actions.len() > 0 && r.actions.last()
                is SaveInbound
            &&& r.memory.outbound != memory.outbound ==> r.actions.len() > 0 && r.actions.last()
                is SaveOutbound
        }),
{
}

/// A payment that is claimed, has arrived or has failed is remembered as such, and its amount
/// stays what it was.
pub proof fn law_payments_settle<M, I>(
    event: NodeEvent<M, I>,
    network: Network,
    channels: Seq<ChannelFacts>,
    memory: NodeMemory<M, I>,
)
    ensures
        ({
            let after = handle(event, network, channels, memory).memory;
            match event {
                NodeEvent::PaymentClaimed { payment_hash, amount_msat, .. } => {
                    &&& after.inbound.dom().contains(payment_hash)
                    &&& after.inbound[payment_hash].status == HTLCStatus::Succeeded
                    &&& memory.inbound.dom().contains(payment_hash)
                        ==> after.inbound[payment_hash].amt_msat
                        == memory.inbound[payment_hash].amt_msat
                    &&& !memory.inbound.dom().contains(payment_hash)
                        ==> after.inbound[payment_hash].amt_msat.0 == Some(amount_msat)
                },
                NodeEvent::PaymentSent { payment_id: Some(id), payment_preimage, .. } =>
                    memory.outbound.dom().contains(id) ==> {
                    &&& after.outbound[id].status == HTLCStatus::Succeeded
                    &&& after.outbound[id].preimage == Some(payment_preimage)
                    &&& after.outbound[id].amt_msat == memory.outbound[id].amt_msat
                },
                NodeEvent::PaymentFailed { payment_id, .. } => memory.outbound.dom().contains(
                    payment_id,
                ) ==> {
                    &&& after.outbound[payment_id].status == HTLCStatus::Failed
                    &&& after.outbound[payment_id].amt_msat == memory.outbound[payment_id].amt_msat
                },
                _ => true,
            }
        }),
{
}

/// What the node remembers once several events have been handled, each with the channels of its
/// time.
pub open spec fn after_events<M, I>(
    history: Seq<(NodeEvent<M, I>, Seq<ChannelFacts>)>,
    network: Network,
    memory: NodeMemory<M, I>,
) -> NodeMemory<M, I>
    decreases history.len(),
{
    if history.len() == 0 {
        memory
    } else {
        handle(
            history.last().0,
            network,
            history.last().1,
            after_events(history.drop_last(), network, memory),
        ).memory
    }
}

/// The message that an event brings for a peer, if it brings one.
pub open spec fn message_for<M, I>(
    event: NodeEvent<M, I>,
    channels: Seq<ChannelFacts>,
    peer: [u8; 33],
) -> Option<M> {
    match event {
        NodeEvent::OnionMessageIntercepted { next_hop, message } => if next_node(
            channels,
            next_hop,
        ) == Some(peer) {
            Some(message)
        } else {
            None
        },
        _ => None,
    }
}

/// The messages that several events bring for a peer, in the order in which they come.
pub open spec fn messages_for<M, I>(
    history: Seq<(NodeEvent<M, I>, Seq<ChannelFacts>)>,
    peer: [u8; 33],
) -> Seq<M>
    decreases history.len(),
{
    if history.len() == 0 {
        seq![]
    } else {
        match message_for(history.last().0, history.last().1, peer) {
            Some(message) => messages_for(history.drop_last(), peer).push(message),
            None => messages_for(history.drop_last(), peer),
        }
    }
}

/// Whether an event is that a peer has come back.
pub open spec fn brings_back<M, I>(event: NodeEvent<M, I>, peer: [u8; 33]) -> bool {
    event matches NodeEvent::OnionMessagePeerConnected { peer_node_id } && peer_node_id == peer
}

/// What is held for a peer that stays away.
proof fn lemma_held_while_away<M, I>(
    history: Seq<(NodeEvent<M, I>, Seq<ChannelFacts>)>,
    peer: [u8; 33],
    network: Network,
    memory: NodeMemory<M, I>,
)
    requires
        !memory.messages.dom().contains(peer),
        forall|i: int| 0 <= i < history.len() ==> !brings_back((#[trigger] history[i]).0, peer),
    ensures
        ({
            let away = after_events(history, network, memory);
            let came = messages_for(history, peer);
            &&& away.messages.dom().contains(peer) == (came.len() > 0)
            &&& came.len() > 0 ==> away.messages[peer] == hold_messages(Seq::<M>::empty(), came)
        }),
    decreases history.len(),
{
    if history.len() > 0 {
        let first = history.drop_last();
        assert(forall|i: int| 0 <= i < first.len() ==> first[i] == history[i]);
        lemma_held_while_away(first, peer, network, memory);
        assert(!brings_back(history[history.len() - 1].0, peer));
        let came = messages_for(first, peer);
        if came.len() == 0 {
            assert(came =~= Seq::<M>::empty());
            assert(hold_messages(Seq::<M>::empty(), came) == Seq::<M>::empty());
        }
        match message_for(history.last().0, history.last().1, peer) {
            Some(message) => {
                assert(came.push(message).drop_last() =~= came);
                assert(hold_messages(Seq::<M>::empty(), came.push(message)) == hold_message(
                    hold_messages(Seq::<M>::empty(), came),
                    message,
                ));
            },
            None => {},
        }
    }
}

/// A peer that comes back gets the messages that came for it while it was away, whatever else
/// happened meanwhile: the newest of them where there were too many, in the order in which they
/// came, and each of them once. What is held for other peers stays as it is.
pub proof fn law_offline_peers_get_their_messages<M, I>(
    history: Seq<(NodeEvent<M, I>, Seq<ChannelFacts>)>,
    peer: [u8; 33],
    network: Network,
    channels: Seq<ChannelFacts>,
    memory: NodeMemory<M, I>,
)
    requires
        !memory.messages.dom().contains(peer),
        forall|i: int| 0 <= i < history.len() ==> !brings_back((#[trigger] history[i]).0, peer),
    ensures
        ({
            let came = messages_for(history, peer);
            let away = after_events(history, network, memory);
            let back = handle(
                NodeEvent::<M, I>::OnionMessagePeerConnected { peer_node_id: peer },
                network,
                channels,
                away,
            );
            let newest = if came.len() <= MAX_INTERCEPTED_OMS_PER_PEER {
                came
            } else {
                came.skip(came.len() - MAX_INTERCEPTED_OMS_PER_PEER)
            };
            &&& came.len() > 0 ==> back.actions == seq![
                NodeAction::<Seq<char>, Seq<u8>, Seq<M>>::Replay { peer, messages: newest },
            ]
            &&& came.len() == 0 ==> back.actions == Seq::<
                NodeAction<Seq<char>, Seq<u8>, Seq<M>>,
            >::empty()
            &&& back.memory.messages == away.messages.remove(peer)
        }),
{
    lemma_held_while_away(history, peer, network, memory);
    law_newest_messages_are_held(messages_for(history, peer));
    let away = after_events(history, network, memory);
    if !away.messages.dom().contains(peer) {
        assert(away.messages.remove(peer) =~= away.messages);
    }
}

/// Whether an event hands over an invoice for a recipient and a slot.
pub open spec fn hands_over<M, I>(event: NodeEvent<M, I>, recipient: Seq<u8>, slot: u16) -> bool {
    event matches NodeEvent::PersistStaticInvoice { invoice_slot, recipient_id, .. }
        && recipient_id@ == recipient && invoice_slot == slot
}

/// What is kept for a recipient and a slot changes only when an invoice is handed over for them.
proof fn lemma_invoice_stays<M, I>(
    history: Seq<(NodeEvent<M, I>, Seq<ChannelFacts>)>,
    recipient: Seq<u8>,
    slot: u16,
    network: Network,
    memory: NodeMemory<M, I>,
)
    requires
        forall|i: int|
            0 <= i < history.len() ==> !hands_over((#[trigger] history[i]).0, recipient, slot),
    ensures
        ({
            let after = after_events(history, network, memory);
            &&& after.invoices.dom().contains((recipient, slot)) == memory.invoices.dom().contains(
                (recipient, slot),
            )
            &&& after.invoices[(recipient, slot)] == memory.invoices[(recipient, slot)]
        }),
    decreases history.len(),
{
    if history.len() > 0 {
        let first = history.drop_last();
        assert(forall|i: int| 0 <= i < first.len() ==> first[i] == history[i]);
        lemma_invoice_stays(first, recipient, slot, network, memory);
        assert(!hands_over(history[history.len() - 1].0, recipient, slot));
    }
}

/// A payer that asks for the invoice of a recipient is answered with the one that was handed over
/// last for that recipient and slot, whatever else happened since.
pub proof fn law_last_invoice_is_served<M, I>(
    handed_over: (NodeEvent<M, I>, Seq<ChannelFacts>),
    since: Seq<(NodeEvent<M, I>, Seq<ChannelFacts>)>,
    recipient_id: Vec<u8>,
    invoice_slot: u16,
    network: Network,
    channels: Seq<ChannelFacts>,
    memory: NodeMemory<M, I>,
)
    requires
        hands_over(handed_over.0, recipient_id@, invoice_slot),
        forall|i: int|
            0 <= i < since.len() ==> !hands_over(
                (#[trigger] since[i]).0,
                recipient_id@,
                invoice_slot,
            ),
    ensures
        ({
            let kept = after_events(
                since,
                network,
                handle(handed_over.0, network, handed_over.1, memory).memory,
            );
            let asked = handle(
                NodeEvent::<M, I>::StaticInvoiceRequested { recipient_id, invoice_slot },
                network,
                channels,
                kept,
            );
            &&& handed_over.0 matches NodeEvent::PersistStaticInvoice { invoice, .. }
            &&& kept.invoices[(recipient_id@, invoice_slot)] == invoice
            &&& asked.actions == seq![
                NodeAction::<Seq<char>, Seq<u8>, Seq<M>>::ServeInvoice {
                    recipient_id: recipient_id@,
                    invoice_slot,
                },
            ]
            &&& asked.memory == kept
        }),
{
    let first = handle(handed_over.0, network, handed_over.1, memory).memory;
    lemma_invoice_stays(since, recipient_id@, invoice_slot, network, first);
}

} // verus!
