use pq_ldk_sample::events::{
    can_handle_event, channel_accepted, funding_refused, funding_transaction, handle_ldk_events,
    invoice_served, pays_to_witness, read_user_channel_id, replayed, ChannelFacts, NextMessageHop,
    NodeAction, NodeEvent, NodeName, PaymentPurpose,
};
use pq_ldk_sample::hex::{hex_str, to_vec};
use pq_ldk_sample::network::Network;
use pq_ldk_sample::offline::{InterceptedOms, StaticInvoices, MAX_INTERCEPTED_OMS_PER_PEER};
use pq_ldk_sample::payment_table::{InboundPaymentInfoStorage, OutboundPaymentInfoStorage};
use pq_ldk_sample::payments::{HTLCStatus, MillisatAmount};

type Step = NodeAction<String, Vec<u8>, Vec<u32>>;

struct Node {
    network: Network,
    channels: Vec<ChannelFacts>,
    inbound: InboundPaymentInfoStorage,
    outbound: OutboundPaymentInfoStorage,
    messages: InterceptedOms<u32>,
    invoices: StaticInvoices<&'static str>,
}

impl Node {
    fn new() -> Node {
        Node {
            network: Network::Regtest,
            channels: vec![
                channel(1, NodeName::Private, Some(10)),
                channel(2, NodeName::Unnamed, None),
                channel(3, NodeName::Alias("bob".to_string()), Some(30)),
            ],
            inbound: InboundPaymentInfoStorage::new(),
            outbound: OutboundPaymentInfoStorage::new(),
            messages: InterceptedOms::new(),
            invoices: StaticInvoices::new(),
        }
    }

    fn tell(&mut self, event: NodeEvent<u32, &'static str>) -> Vec<Step> {
        assert!(can_handle_event(&event, &self.outbound));
        handle_ldk_events(
            event,
            self.network,
            &self.channels,
            &mut self.inbound,
            &mut self.outbound,
            &mut self.messages,
            &mut self.invoices,
        )
    }
}

fn channel(n: u8, counterparty_name: NodeName, short_channel_id: Option<u64>) -> ChannelFacts {
    ChannelFacts {
        channel_id: [n; 32],
        counterparty: [n; 33],
        counterparty_name,
        short_channel_id,
        outbound_scid_alias: Some(1000 + n as u64),
        inbound_scid_alias: Some(2000 + n as u64),
    }
}

fn line(text: &str) -> Vec<Step> {
    vec![NodeAction::Print(text.to_string()), NodeAction::Inline("> ".to_string())]
}

fn with(mut steps: Vec<Step>, step: Step) -> Vec<Step> {
    steps.push(step);
    steps
}

fn hex32(n: u8) -> String {
    hex_str(&[n; 32])
}

fn hex33(n: u8) -> String {
    hex_str(&[n; 33])
}

#[test]
fn a_channel_is_funded_at_its_address() {
    let script = to_vec("0014751e76e8199196d454941c45d1b3a323f1433bd6").unwrap();
    let expected = [
        (Network::Bitcoin, "bc1qw508d6qejxtdg4y5r3zarvary0c5xw7kv8f3t4"),
        (Network::Testnet, "tb1qw508d6qejxtdg4y5r3zarvary0c5xw7kxpjzsx"),
        (Network::Testnet4, "tb1qw508d6qejxtdg4y5r3zarvary0c5xw7kxpjzsx"),
        (Network::Signet, "tb1qw508d6qejxtdg4y5r3zarvary0c5xw7kxpjzsx"),
        (Network::Regtest, "bcrt1qw508d6qejxtdg4y5r3zarvary0c5xw7kygt080"),
    ];
    for (network, address) in expected {
        let mut node = Node::new();
        node.network = network;
        let steps = node.tell(NodeEvent::FundingGenerationReady {
            temporary_channel_id: [1; 32],
            counterparty_node_id: [2; 33],
            channel_value_satoshis: 5000,
            output_script: script.clone(),
        });
        assert_eq!(
            steps,
            vec![NodeAction::FundChannel {
                temporary_channel_id: [1; 32],
                counterparty_node_id: [2; 33],
                address: address.to_string(),
                value_sat: 5000,
            }]
        );
    }
}

#[test]
fn only_witness_outputs_are_funded() {
    let program = |version: u8, len: usize| {
        let mut s = vec![version, len as u8];
        s.extend(vec![7u8; len]);
        s
    };
    assert!(pays_to_witness(&program(0, 20)));
    assert!(pays_to_witness(&program(0, 32)));
    assert!(!pays_to_witness(&program(0, 33)));
    assert!(pays_to_witness(&program(0x51, 32)));
    assert!(pays_to_witness(&program(0x60, 40)));
    assert!(!pays_to_witness(&program(0x61, 32)));
    assert!(!pays_to_witness(&program(0x51, 41)));
    assert!(!pays_to_witness(&program(0x51, 1)));
    assert!(!pays_to_witness(&[0, 20, 1, 2]));
    assert!(!pays_to_witness(&[]));
}

#[test]
fn a_funding_transaction_has_to_be_complete() {
    let tx = bitcoin::Transaction {
        version: bitcoin::transaction::Version::TWO,
        lock_time: bitcoin::absolute::LockTime::ZERO,
        input: vec![bitcoin::TxIn::default()],
        output: vec![],
    };
    let bytes = bitcoin::consensus::encode::serialize(&tx);
    let hex = hex_str(&bytes);
    assert_eq!(funding_transaction(true, &hex), Some(bytes));
    assert_eq!(funding_transaction(false, &hex), None);
    assert_eq!(funding_transaction(true, &format!("{}00", hex)), None);
    assert_eq!(funding_transaction(true, "zz"), None);
    let refused: Vec<Step> = funding_refused();
    assert_eq!(refused, line("\nERROR: Channel went away before we could fund it. The peer disconnected or refused the channel."));
}

#[test]
fn a_payment_is_claimed_with_its_preimage() {
    let mut node = Node::new();
    let purposes = [
        PaymentPurpose::Bolt11InvoicePayment { payment_preimage: Some([5; 32]), payment_secret: [6; 32] },
        PaymentPurpose::Bolt12OfferPayment { payment_preimage: Some([5; 32]), payment_secret: [6; 32] },
        PaymentPurpose::Bolt12RefundPayment { payment_preimage: Some([5; 32]), payment_secret: [6; 32] },
        PaymentPurpose::SpontaneousPayment([5; 32]),
    ];
    for purpose in purposes {
        let steps = node.tell(NodeEvent::PaymentClaimable {
            payment_hash: [4; 32],
            purpose,
            amount_msat: 900,
        });
        let text = format!("\nEVENT: received payment from payment hash {} of 900 millisatoshis", hex32(4));
        assert_eq!(steps, with(line(&text), NodeAction::ClaimFunds([5; 32])));
    }
    let unknown = NodeEvent::<u32, &'static str>::PaymentClaimable {
        payment_hash: [4; 32],
        purpose: PaymentPurpose::Bolt11InvoicePayment { payment_preimage: None, payment_secret: [6; 32] },
        amount_msat: 1,
    };
    assert!(!can_handle_event(&unknown, &node.outbound));
}

#[test]
fn a_claimed_payment_is_remembered() {
    let mut node = Node::new();
    node.inbound.record_pending([4; 32], Some([1; 32]), 1000);
    let steps = node.tell(NodeEvent::PaymentClaimed {
        payment_hash: [4; 32],
        purpose: PaymentPurpose::Bolt11InvoicePayment {
            payment_preimage: Some([5; 32]),
            payment_secret: [6; 32],
        },
        amount_msat: 900,
    });
    let text = format!("\nEVENT: claimed payment from payment hash {} of 900 millisatoshis", hex32(4));
    assert_eq!(steps, with(line(&text), NodeAction::SaveInbound));
    let p = node.inbound.payments.get(&[4; 32]).unwrap();
    assert_eq!(p.status, HTLCStatus::Succeeded);
    assert_eq!(p.amt_msat, MillisatAmount(Some(1000)));
    assert_eq!(p.preimage, Some([5; 32]));
    assert_eq!(p.secret, Some([6; 32]));
    node.tell(NodeEvent::PaymentClaimed {
        payment_hash: [8; 32],
        purpose: PaymentPurpose::SpontaneousPayment([9; 32]),
        amount_msat: 70,
    });
    let q = node.inbound.payments.get(&[8; 32]).unwrap();
    assert_eq!(q.amt_msat, MillisatAmount(Some(70)));
    assert_eq!(q.secret, None);
}

#[test]
fn a_payment_that_arrived_is_remembered() {
    let mut node = Node::new();
    node.outbound.record_pending([3; 32], None, 1000);
    node.outbound.record_pending([4; 32], None, 2000);
    let steps = node.tell(NodeEvent::PaymentSent {
        payment_preimage: [7; 32],
        payment_hash: [8; 32],
        fee_paid_msat: Some(2),
        payment_id: Some([3; 32]),
    });
    let text = format!("\nEVENT: successfully sent payment of 1000 millisatoshis (fee 2 msat) from payment hash {} with preimage {}", hex32(8), hex32(7));
    assert_eq!(steps, with(line(&text), NodeAction::SaveOutbound));
    assert_eq!(node.outbound.payments.get(&[3; 32]).unwrap().status, HTLCStatus::Succeeded);
    assert_eq!(node.outbound.payments.get(&[3; 32]).unwrap().preimage, Some([7; 32]));
    assert_eq!(node.outbound.payments.get(&[4; 32]).unwrap().status, HTLCStatus::Pending);
    let steps = node.tell(NodeEvent::PaymentSent {
        payment_preimage: [7; 32],
        payment_hash: [8; 32],
        fee_paid_msat: None,
        payment_id: Some([99; 32]),
    });
    assert_eq!(steps, vec![NodeAction::SaveOutbound]);
    let unnamed = || NodeEvent::<u32, &'static str>::PaymentSent {
        payment_preimage: [7; 32],
        payment_hash: [8; 32],
        fee_paid_msat: None,
        payment_id: None,
    };
    assert!(!can_handle_event(&unnamed(), &node.outbound));
    let mut empty = Node::new();
    assert_eq!(empty.tell(unnamed()), vec![NodeAction::SaveOutbound]);
}

#[test]
fn a_failed_payment_is_remembered() {
    let mut node = Node::new();
    node.outbound.record_pending([3; 32], None, 1000);
    let inline = |text: String| {
        vec![
            NodeAction::Inline(text),
            NodeAction::Inline("> ".to_string()),
            NodeAction::SaveOutbound,
        ]
    };
    let steps = node.tell(NodeEvent::PaymentFailed {
        payment_hash: Some([8; 32]),
        reason: None,
        payment_id: [3; 32],
    });
    assert_eq!(steps, inline(format!("\nEVENT: Failed to send payment to payment ID {}, payment hash {}: RetriesExhausted", hex32(3), hex32(8))));
    assert_eq!(node.outbound.payments.get(&[3; 32]).unwrap().status, HTLCStatus::Failed);
    let steps = node.tell(NodeEvent::PaymentFailed {
        payment_hash: None,
        reason: Some("RouteNotFound".to_string()),
        payment_id: [5; 32],
    });
    assert_eq!(steps, inline(format!("\nEVENT: Failed fetch invoice for payment ID {}: RouteNotFound", hex32(5))));
    assert!(node.outbound.payments.get(&[5; 32]).is_none());
}

#[test]
fn a_channel_that_is_opened_gets_a_random_number() {
    let mut entropy = [0u8; 32];
    for (i, b) in entropy.iter_mut().enumerate() {
        *b = i as u8 + 1;
    }
    let mut first = [0u8; 16];
    first.copy_from_slice(&entropy[..16]);
    assert_eq!(read_user_channel_id(&entropy), u128::from_be_bytes(first));
    assert_eq!(read_user_channel_id(&[0xff; 32]), u128::MAX);
    let mut node = Node::new();
    assert_eq!(
        node.tell(NodeEvent::OpenChannelRequest {
            temporary_channel_id: [1; 32],
            counterparty_node_id: [2; 33],
            entropy,
        }),
        vec![NodeAction::AcceptChannel {
            temporary_channel_id: [1; 32],
            counterparty_node_id: [2; 33],
            user_channel_id: u128::from_be_bytes(first),
        }]
    );
    let ok: Vec<Step> = channel_accepted(&[1; 32], &[2; 33], None);
    assert_eq!(ok[0], NodeAction::Inline(format!("\nEVENT: Accepted inbound channel ({}) from {}", hex32(1), hex33(2))));
    assert_eq!(ok[1], NodeAction::Inline("> ".to_string()));
    let bad: Vec<Step> = channel_accepted(&[1; 32], &[2; 33], Some("E".to_string()));
    assert_eq!(bad[0], NodeAction::Inline(format!("\nEVENT: Failed to accept inbound channel ({}) from {}: E", hex32(1), hex33(2))));
}

#[test]
fn forwarded_payments_are_shown() {
    let mut node = Node::new();
    let forwarded = |prev, next, fee, onchain| NodeEvent::PaymentForwarded {
        prev_channel_id: prev,
        next_channel_id: next,
        total_fee_earned_msat: fee,
        claim_from_onchain_tx: onchain,
        outbound_amount_forwarded_msat: 55,
    };
    assert_eq!(
        node.tell(forwarded(Some([1; 32]), Some([3; 32]), Some(4), false)),
        line(&format!("\nEVENT: Forwarded payment for 55 msat from private node with channel {} to node bob with channel {}, earning 4 msat from HTLC fulfill message", hex32(1), hex32(3)))
    );
    assert_eq!(
        node.tell(forwarded(Some([2; 32]), Some([9; 32]), None, true)),
        line(&format!("\nEVENT: Forwarded payment for 55 msat from unnamed node with channel {} to  with channel {}, claiming onchain from onchain downstream claim", hex32(2), hex32(9)))
    );
    assert_eq!(
        node.tell(forwarded(None, None, Some(0), false)),
        line("\nEVENT: Forwarded payment for 55 msat from  to , earning 0 msat from HTLC fulfill message")
    );
}

#[test]
fn channel_states_are_shown() {
    let mut node = Node::new();
    assert_eq!(
        node.tell(NodeEvent::ChannelPending { channel_id: [1; 32], counterparty_node_id: [2; 33] }),
        line(&format!("\nEVENT: Channel {} with peer {} is pending awaiting funding lock-in!", hex32(1), hex33(2)))
    );
    assert_eq!(
        node.tell(NodeEvent::ChannelReady { channel_id: [1; 32], counterparty_node_id: [2; 33] }),
        line(&format!("\nEVENT: Channel {} with peer {} is ready to be used!", hex32(1), hex33(2)))
    );
    assert_eq!(
        node.tell(NodeEvent::ChannelClosed {
            channel_id: [1; 32],
            closure_reason: "HolderForceClosed".to_string(),
            counterparty: Some([2; 33]),
        }),
        line(&format!("\nEVENT: Channel {} with counterparty {} closed due to: HolderForceClosed", hex32(1), hex33(2)))
    );
    assert_eq!(
        node.tell(NodeEvent::ChannelClosed {
            channel_id: [1; 32],
            closure_reason: "X".to_string(),
            counterparty: None,
        }),
        line(&format!("\nEVENT: Channel {} with counterparty  closed due to: X", hex32(1)))
    );
}

#[test]
fn other_events_are_passed_on() {
    let mut node = Node::new();
    assert_eq!(
        node.tell(NodeEvent::SpendableOutputs),
        vec![NodeAction::TrackOutputs { exclude_static_outputs: false, delay_until_height: None }]
    );
    assert_eq!(node.tell(NodeEvent::BumpTransaction), vec![NodeAction::BumpTransaction]);
    assert_eq!(node.tell(NodeEvent::ConnectionNeeded), vec![NodeAction::ConnectPeer]);
    assert_eq!(node.tell(NodeEvent::Other), vec![]);
}

#[test]
fn messages_for_offline_peers_are_held_and_replayed() {
    let mut node = Node::new();
    let steps = node.tell(NodeEvent::OnionMessageIntercepted {
        next_hop: NextMessageHop::NodeId([5; 33]),
        message: 1,
    });
    assert_eq!(steps, line(&format!("\nEVENT: intercepted an onion message for offline peer {}, holding it for replay", hex33(5))));
    for scid in [30, 1003, 2003] {
        let steps = node.tell(NodeEvent::OnionMessageIntercepted {
            next_hop: NextMessageHop::ShortChannelId(scid),
            message: scid as u32,
        });
        assert_eq!(steps, line(&format!("\nEVENT: intercepted an onion message for offline peer {}, holding it for replay", hex33(3))));
    }
    let steps = node.tell(NodeEvent::OnionMessageIntercepted {
        next_hop: NextMessageHop::ShortChannelId(77),
        message: 9,
    });
    assert_eq!(steps, line("\nEVENT: dropping an intercepted onion message with an unknown next hop"));
    assert_eq!(
        node.tell(NodeEvent::OnionMessagePeerConnected { peer_node_id: [3; 33] }),
        vec![NodeAction::Replay { peer: [3; 33], messages: vec![30, 1003, 2003] }]
    );
    assert_eq!(node.tell(NodeEvent::OnionMessagePeerConnected { peer_node_id: [3; 33] }), vec![]);
    assert_eq!(
        node.tell(NodeEvent::OnionMessagePeerConnected { peer_node_id: [5; 33] }),
        vec![NodeAction::Replay { peer: [5; 33], messages: vec![1] }]
    );
}

#[test]
fn the_newest_messages_are_held() {
    let mut node = Node::new();
    for message in 0..120u32 {
        node.tell(NodeEvent::OnionMessageIntercepted {
            next_hop: NextMessageHop::NodeId([5; 33]),
            message,
        });
    }
    assert_eq!(MAX_INTERCEPTED_OMS_PER_PEER, 50);
    assert_eq!(
        node.tell(NodeEvent::OnionMessagePeerConnected { peer_node_id: [5; 33] }),
        vec![NodeAction::Replay { peer: [5; 33], messages: (70..120).collect() }]
    );
}

#[test]
fn a_replay_is_reported() {
    let steps: Vec<Step> = replayed(&[5; 33], &vec![None, Some("A".to_string()), None, Some("B".to_string())]);
    let mut expected: Vec<Step> = ["A", "B"]
        .iter()
        .map(|e| NodeAction::Print(format!("\nERROR: failed to replay an intercepted onion message to {}: {}", hex33(5), e)))
        .collect();
    expected.extend(line(&format!("\nEVENT: replayed 4 held onion message(s) to reconnected peer {}", hex33(5))));
    assert_eq!(steps, expected);
}

#[test]
fn the_last_static_invoice_is_served() {
    let mut node = Node::new();
    let persist = |invoice, slot| NodeEvent::PersistStaticInvoice {
        invoice,
        invoice_slot: slot,
        recipient_id: b"ali\xff".to_vec(),
    };
    let steps = node.tell(persist("one", 3));
    assert_eq!(steps[0], NodeAction::ConfirmPersisted);
    assert_eq!(steps[1..], line("\nEVENT: persisted a static invoice in slot 3 for async recipient ali\u{fffd}")[..]);
    node.tell(persist("two", 3));
    node.tell(persist("other", 4));
    let request = |slot| NodeEvent::StaticInvoiceRequested {
        recipient_id: b"ali\xff".to_vec(),
        invoice_slot: slot,
    };
    assert_eq!(
        node.tell(request(3)),
        vec![NodeAction::ServeInvoice { recipient_id: b"ali\xff".to_vec(), invoice_slot: 3 }]
    );
    assert_eq!(node.invoices.get(&b"ali\xff".to_vec(), 3), Some(&"two"));
    assert_eq!(node.invoices.get(&b"ali\xff".to_vec(), 4), Some(&"other"));
    assert_eq!(node.invoices.get(&b"ali".to_vec(), 3), None);
    assert_eq!(
        node.tell(request(5)),
        line("\nEVENT: received a static invoice request for unknown recipient ali\u{fffd} slot 5")
    );
    let ok: Vec<Step> = invoice_served(&b"bob".to_vec(), 2, None);
    assert_eq!(ok, line("\nEVENT: served the static invoice in slot 2 for async recipient bob"));
    let bad: Vec<Step> = invoice_served(&b"bob".to_vec(), 2, Some("E".to_string()));
    assert_eq!(bad, line("\nERROR: failed to serve a static invoice: E"));
}

#[test]
fn other_events_do_not_disturb_what_is_held_and_kept() {
    let mut node = Node::new();
    let bob = b"bob".to_vec();
    node.tell(NodeEvent::PersistStaticInvoice {
        invoice: "bob's",
        invoice_slot: 1,
        recipient_id: bob.clone(),
    });
    for message in 0..60u32 {
        node.tell(NodeEvent::OnionMessageIntercepted {
            next_hop: NextMessageHop::NodeId([5; 33]),
            message,
        });
        node.tell(NodeEvent::OnionMessageIntercepted {
            next_hop: NextMessageHop::NodeId([6; 33]),
            message: 1000 + message,
        });
        node.tell(NodeEvent::OnionMessagePeerConnected { peer_node_id: [6; 33] });
        node.tell(NodeEvent::PersistStaticInvoice {
            invoice: "ann's",
            invoice_slot: 1,
            recipient_id: b"ann".to_vec(),
        });
        node.tell(NodeEvent::Other);
    }
    assert_eq!(
        node.tell(NodeEvent::OnionMessagePeerConnected { peer_node_id: [5; 33] }),
        vec![NodeAction::Replay { peer: [5; 33], messages: (10..60).collect() }]
    );
    assert_eq!(
        node.tell(NodeEvent::StaticInvoiceRequested { recipient_id: bob.clone(), invoice_slot: 1 }),
        vec![NodeAction::ServeInvoice { recipient_id: bob.clone(), invoice_slot: 1 }]
    );
    assert_eq!(node.invoices.get(&bob, 1), Some(&"bob's"));
}
