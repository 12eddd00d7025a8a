use pq_ldk_sample::gossip_stats::{GossipMessage, GossipStats};
use pq_ldk_sample::hex::hex_str;
use pq_ldk_sample::payment_table::{InboundPaymentInfoStorage, OutboundPaymentInfoStorage};
use pq_ldk_sample::payments::{HTLCStatus, MillisatAmount, PaymentEntry, PaymentInfo};
use pq_ldk_sample::reports::{
    graph_info, help, list_channels, list_nodes, list_payments, list_peers, node_info,
    payments_listing, sum_balances, BalanceFacts, ChannelRow, GraphNode, NodeFacts,
};

#[test]
fn the_help_names_the_program_and_its_commands() {
    let vanilla = help("pq-ldk-sample", "0.1.0", false);
    assert!(vanilla.starts_with("\nVERSION:\n  pq-ldk-sample v0.1.0\n\nUSAGE:\n  Command [arguments]\n\nCOMMANDS:\n"));
    assert!(!vanilla.contains("pq-omit-pubkey"));
    assert!(!vanilla.contains("connectpeerpq"));
    assert!(vanilla.contains("      getinvoice <amt_msats> <expiry_secs>\n      getoffer [<amt_msats>]\n"));
    let pq = help("n", "v", true);
    assert!(pq.contains("      connectpeer pubkey@host:port\n      connectpeerpq pubkey@host:port [kem_key_hex]\n      disconnectpeer <peer_pubkey>\n"));
    assert!(pq.contains("      getinvoice <amt_msats> <expiry_secs> [--pq-omit-pubkey]\n"));
    assert!(pq.ends_with("\n  Other:\n      signmessage <message>\n      nodeinfo\n      listnodes\n      graphinfo\n      announce\n"));
}

fn facts(balances: Vec<BalanceFacts>) -> NodeFacts {
    NodeFacts {
        node_id: [2; 33],
        pq_node_id: None,
        pq_kem_node_id: None,
        channels_usable: vec![true, false, true],
        balances,
        num_peers: 4,
        network_nodes: 5,
        network_channels: 6,
    }
}

#[test]
fn the_node_shows_itself() {
    let balances = vec![
        BalanceFacts::ClaimableOnChannelClose {
            claimable_satoshis: 100,
            candidate_fees_satoshis: vec![7, 8],
            confirmed_candidate: 1,
        },
        BalanceFacts::MaybeTimeoutClaimableHTLC {
            claimable_satoshis: 0,
            amount_satoshis: 30,
            outbound_payment: true,
        },
        BalanceFacts::MaybeTimeoutClaimableHTLC {
            claimable_satoshis: 0,
            amount_satoshis: 900,
            outbound_payment: false,
        },
        BalanceFacts::Other { claimable_satoshis: 5 },
    ];
    assert_eq!(sum_balances(&balances), Some((105, 8, 30)));
    let mut f = facts(balances);
    let expected = format!(
        "\t{{\n\t\t node_pubkey: {}\n\t\t num_channels: 3\n\t\t num_usable_channels: 2\n\t\t local_balance_sats: 105\n\t\t eventual_close_fees_sats: 8\n\t\t pending_outbound_payments_sats: 30\n\t\t num_peers: 4\n\t\t network_nodes: 5\n\t\t network_channels: 6\n\t}},\n",
        hex_str(&[2; 33])
    );
    assert_eq!(node_info(&f), expected);
    f.pq_node_id = Some(vec![0xaa]);
    f.pq_kem_node_id = Some(vec![0xbb, 0xcc]);
    assert!(node_info(&f).contains("\n\t\t pq_node_id: aa\n\t\t pq_kem_node_id: bbcc\n\t\t num_channels: 3\n"));
}

#[test]
fn balances_that_cannot_be_summed_up_are_found() {
    let whole = BalanceFacts::Other { claimable_satoshis: u64::MAX };
    assert_eq!(sum_balances(&vec![whole]), Some((u64::MAX, 0, 0)));
    let too_much = vec![
        BalanceFacts::Other { claimable_satoshis: u64::MAX },
        BalanceFacts::Other { claimable_satoshis: 1 },
    ];
    assert_eq!(sum_balances(&too_much), None);
    let no_candidate = BalanceFacts::ClaimableOnChannelClose {
        claimable_satoshis: 0,
        candidate_fees_satoshis: vec![1],
        confirmed_candidate: 1,
    };
    assert_eq!(sum_balances(&vec![no_candidate]), None);
    assert_eq!(sum_balances(&vec![]), Some((0, 0, 0)));
}

#[test]
fn peers_are_listed() {
    assert_eq!(list_peers(&vec![]), "\t{\n\t},\n");
    let expected = format!("\t{{\n\t\t pubkey: {}\n\t\t pubkey: {}\n\t}},\n", hex_str(&[2; 33]), hex_str(&[3; 33]));
    assert_eq!(list_peers(&vec![[2; 33], [3; 33]]), expected);
}

fn graph_node(n: u8, has_announcement: bool, pq_pinned: bool) -> GraphNode {
    GraphNode { node_id: [n; 33], has_announcement, pq_pinned, pq_kem_pinned: false }
}

#[test]
fn nodes_are_listed() {
    assert_eq!(list_nodes(&vec![], false), "[]\n");
    let nodes = vec![graph_node(2, true, true)];
    assert_eq!(
        list_nodes(&nodes, false),
        format!("[\n\t{{\n\t\tnode_id: {},\n\t\thas_announcement: true,\n\t}},\n]\n", hex_str(&[2; 33]))
    );
    assert_eq!(
        list_nodes(&nodes, true),
        format!("[\n\t{{\n\t\tnode_id: {},\n\t\thas_announcement: true,\n\t\tpq_pinned: true,\n\t\tpq_kem_pinned: false,\n\t}},\n]\n", hex_str(&[2; 33]))
    );
}

#[test]
fn the_graph_is_counted() {
    let nodes = vec![graph_node(2, true, true), graph_node(3, false, false), graph_node(4, true, false)];
    let channels = vec![(true, true), (false, true), (false, false)];
    assert_eq!(
        graph_info(&nodes, &channels, false),
        "GRAPHINFO nodes=3 announced=2 channels=3 updates=3"
    );
    assert_eq!(
        graph_info(&nodes, &channels, true),
        "GRAPHINFO nodes=3 announced=2 channels=3 updates=3 pinned=1"
    );
}

#[test]
fn channels_are_listed() {
    let mut txid = [0u8; 32];
    txid[0] = 0xaa;
    let row = ChannelRow {
        channel_id: [1; 32],
        funding_txid: Some(txid),
        peer: [2; 33],
        peer_alias: Some("bob".to_string()),
        short_channel_id: Some(77),
        is_channel_ready: true,
        channel_value_satoshis: 1000,
        outbound_capacity_msat: 500,
        inbound_capacity_msat: 400,
        is_usable: true,
        is_announced: false,
    };
    let shown = list_channels(&vec![row]);
    let expected = format!(
        "[\n\t{{\n\t\tchannel_id: {},\n\t\tfunding_txid: {}aa,\n\t\tpeer_pubkey: {},\n\t\tpeer_alias: bob\n\t\tshort_channel_id: 77,\n\t\tis_channel_ready: true,\n\t\tchannel_value_satoshis: 1000,\n\t\toutbound_capacity_msat: 500,\n\t\tavailable_balance_for_send_msat: 500,\n\t\tavailable_balance_for_recv_msat: 400,\n\t\tchannel_can_send_payments: true,\n\t\tpublic: false,\n\t}},\n]\n",
        hex_str(&[1; 32]), "00".repeat(31), hex_str(&[2; 33])
    );
    assert_eq!(shown, expected);
    let bare = ChannelRow {
        channel_id: [1; 32],
        funding_txid: None,
        peer: [2; 33],
        peer_alias: None,
        short_channel_id: None,
        is_channel_ready: false,
        channel_value_satoshis: 1,
        outbound_capacity_msat: 2,
        inbound_capacity_msat: 3,
        is_usable: false,
        is_announced: true,
    };
    let expected = format!(
        "[\n\t{{\n\t\tchannel_id: {},\n\t\tpeer_pubkey: {},\n\t\tis_channel_ready: false,\n\t\tchannel_value_satoshis: 1,\n\t\toutbound_capacity_msat: 2,\n\t\tchannel_can_send_payments: false,\n\t\tpublic: true,\n\t}},\n]\n",
        hex_str(&[1; 32]), hex_str(&[2; 33])
    );
    assert_eq!(list_channels(&vec![bare]), expected);
}

#[test]
fn payments_are_listed() {
    let entry = |n: u8, status, amt| PaymentEntry {
        id: [n; 32],
        info: PaymentInfo { preimage: None, secret: None, status, amt_msat: MillisatAmount(amt) },
    };
    let shown = payments_listing(
        &vec![entry(1, HTLCStatus::Pending, Some(5)), entry(2, HTLCStatus::Succeeded, None)],
        &vec![entry(3, HTLCStatus::Failed, Some(7))],
    );
    let row = |amount: &str, n: u8, direction: &str, status: &str| {
        format!("\n\t{{\n\t\tamount_millisatoshis: {},\n\t\tpayment_hash: {},\n\t\thtlc_direction: {},\n\t\thtlc_status: {},\n\t}},\n", amount, hex_str(&[n; 32]), direction, status)
    };
    let expected = format!(
        "[{}{}{}]\n",
        row("5", 1, "inbound", "pending"),
        row("unknown", 2, "inbound", "succeeded"),
        row("7", 3, "outbound", "failed")
    );
    assert_eq!(shown, expected);
    let mut inbound = InboundPaymentInfoStorage::new();
    inbound.record_pending([1; 32], None, 5);
    let outbound = OutboundPaymentInfoStorage::new();
    assert_eq!(
        list_payments(&inbound, &outbound),
        format!("[{}]\n", row("5", 1, "inbound", "pending"))
    );
}

#[test]
fn gossip_is_measured_on_the_wire() {
    let stats = GossipStats::new(true);
    assert_eq!(
        stats.record(true, &GossipMessage::NodeAnnouncement { node_id: [2; 33] }, 140),
        Some(format!("GOSSIP-STATS: recv node_announcement node={} bytes=142", hex_str(&[2; 33])))
    );
    assert_eq!(
        stats.record(true, &GossipMessage::ChannelAnnouncement { short_channel_id: 9 }, 430),
        Some("GOSSIP-STATS: recv channel_announcement scid=9 bytes=432".to_string())
    );
    for (flags, dir) in [(0u8, 0), (1, 1), (2, 0), (255, 1)] {
        let update = GossipMessage::ChannelUpdate { short_channel_id: 9, channel_flags: flags };
        assert_eq!(
            stats.record(true, &update, 128),
            Some(format!("GOSSIP-STATS: recv channel_update scid=9 dir={} bytes=130", dir))
        );
    }
}

#[test]
fn gossip_is_not_measured_unless_asked() {
    let message = GossipMessage::ChannelAnnouncement { short_channel_id: 9 };
    assert_eq!(GossipStats::new(false).record(true, &message, 1), None);
    assert_eq!(GossipStats::new(true).record(false, &message, 1), None);
}

#[test]
fn measuring_gossip_changes_no_answer() {
    let message = GossipMessage::NodeAnnouncement { node_id: [3; 33] };
    for enabled in [true, false] {
        for from_peer in [true, false] {
            for answer in [Ok(true), Ok(false), Err("rejected")] {
                let mut lines: Vec<String> = Vec::new();
                let mut calls = 0;
                let stats = GossipStats::new(enabled);
                let log = |line: String| lines.push(line);
                let got = stats.handle(from_peer, &message, 140, log, || {
                    calls += 1;
                    answer
                });
                assert_eq!(got, answer);
                assert_eq!(calls, 1);
                if enabled && from_peer {
                    let node = "03".repeat(33);
                    let line = format!("GOSSIP-STATS: recv node_announcement node={} bytes=142", node);
                    assert_eq!(lines, vec![line]);
                } else {
                    assert!(lines.is_empty());
                }
            }
        }
    }
}
