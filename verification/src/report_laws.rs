//! What the operator can count on finding in what is shown.

use crate::actions::ActionView;
use crate::console::greeting;
use crate::gossip_stats::{stats_line, GossipMessage, GossipStats};
use crate::hex::hex_text;
use crate::payments::{HTLCStatus, MillisatAmount, PaymentEntry};
use crate::reports::{
    announced_nodes, balances_wf, bool_text, channel_row, channel_rows, channel_updates,
    channels_text, close_fees, count_true, graph_line, help_text, key_line, local_balance,
    node_info_text, node_row, node_rows, nodes_text, payment_row, payment_rows, payments_text,
    peer_lines, peers_text, pending_payments, pinned_nodes, BalanceFacts, ChannelRow, GraphNode,
    NodeFacts,
};
use crate::text::decimal_text;
use vstd::prelude::*;
use vstd::string::*;

verus! {

/// Whether a text begins with a piece.
#[verifier::opaque]
pub open spec fn begins(text: Seq<char>, piece: Seq<char>) -> bool {
    piece.len() <= text.len() && text.take(piece.len() as int) == piece
}

/// Whether a piece stands in a text.
#[verifier::opaque]
pub open spec fn holds(text: Seq<char>, piece: Seq<char>) -> bool {
    exists|i: int| 0 <= i <= text.len() - piece.len() && #[trigger] text.subrange(
        i,
        i + piece.len(),
    ) == piece
}

/// What stands in a text still stands in it once the text goes on.
pub proof fn lemma_kept(text: Seq<char>, more: Seq<char>)
    ensures
        forall|piece: Seq<char>| #[trigger] holds(text, piece) ==> holds(text + more, piece),
        forall|piece: Seq<char>| #[trigger] begins(text, piece) ==> begins(text + more, piece),
{
    reveal(holds);
    reveal(begins);
    assert forall|piece: Seq<char>| #[trigger] begins(text, piece) implies begins(
        text + more,
        piece,
    ) by {
        let n = piece.len() as int;
        assert((text + more).take(n) =~= text.take(n));
    }
    assert forall|piece: Seq<char>| #[trigger] holds(text, piece) implies holds(
        text + more,
        piece,
    ) by {
        let i = choose|i: int|
            0 <= i <= text.len() - piece.len() && #[trigger] text.subrange(i, i + piece.len())
                == piece;
        assert((text + more).subrange(i, i + piece.len()) =~= text.subrange(i, i + piece.len()));
    }
}

/// What stands in the end of a text stands in the text.
pub proof fn lemma_behind(text: Seq<char>, more: Seq<char>)
    ensures
        forall|piece: Seq<char>| #[trigger] holds(more, piece) ==> holds(text + more, piece),
{
    reveal(holds);
    assert forall|piece: Seq<char>| #[trigger] holds(more, piece) implies holds(
        text + more,
        piece,
    ) by {
        let i = choose|i: int|
            0 <= i <= more.len() - piece.len() && #[trigger] more.subrange(i, i + piece.len())
                == piece;
        let n = text.len() as int;
        assert((text + more).subrange(n + i, n + i + piece.len()) =~= more.subrange(
            i,
            i + piece.len(),
        ));
    }
}

/// A label and a value stand in the text that ends with them.
pub proof fn lemma_labelled(text: Seq<char>, label: Seq<char>, value: Seq<char>)
    ensures
        holds(text + label + value, label + value),
        forall|piece: Seq<char>| #[trigger]
            holds(text, piece) ==> holds(text + label + value, piece),
        forall|piece: Seq<char>| #[trigger]
            begins(text, piece) ==> begins(text + label + value, piece),
{
    reveal(holds);
    let piece = label + value;
    let whole = text + label + value;
    let n = text.len() as int;
    assert(whole.subrange(n, n + piece.len()) =~= piece);
    lemma_kept(text, piece);
    assert(whole =~= text + piece);
}

/// What a text was put together around stands in it.
pub proof fn lemma_piece(text: Seq<char>, before: Seq<char>, piece: Seq<char>, after: Seq<char>)
    requires
        text =~= before + piece + after,
    ensures
        holds(text, piece),
{
    reveal(holds);
    let n = before.len() as int;
    assert(text.subrange(n, n + piece.len()) =~= piece);
}

/// Every text holds itself.
pub proof fn lemma_itself(text: Seq<char>)
    ensures
        holds(text, text),
        begins(text, text),
{
    reveal(holds);
    reveal(begins);
    assert(text.take(text.len() as int) =~= text);
    assert(text.subrange(0, 0int + text.len()) =~= text);
}

/// Every channel of the node is listed, in order and between brackets: another channel adds its
/// own text, and that text begins with its identifier and names its peer, its value, what can be
/// sent and received, whether it can be used and whether it is announced.
pub proof fn law_every_channel_is_listed(rows: Seq<ChannelRow>, row: ChannelRow)
    ensures
        channel_rows(rows.push(row)) == channel_rows(rows) + channel_row(row),
        channels_text(seq![]) == "[]\n"@,
        channels_text(rows.push(row)) == channels_text(rows).take(
            channels_text(rows).len() - 2,
        ) + channel_row(row) + "]\n"@,
        begins(
            channel_row(row),
            "\n\t{\n\t\tchannel_id: "@ + hex_text(row.channel_id@) + ",\n"@,
        ),
        holds(channel_row(row), "\t\tpeer_pubkey: "@ + hex_text(row.peer@)),
        holds(channel_row(row), "\t\tis_channel_ready: "@ + bool_text(row.is_channel_ready)),
        holds(
            channel_row(row),
            ",\n\t\tchannel_value_satoshis: "@ + decimal_text(row.channel_value_satoshis as nat),
        ),
        holds(
            channel_row(row),
            ",\n\t\toutbound_capacity_msat: "@ + decimal_text(row.outbound_capacity_msat as nat),
        ),
        holds(channel_row(row), "\t\tchannel_can_send_payments: "@ + bool_text(row.is_usable)),
        holds(channel_row(row), ",\n\t\tpublic: "@ + bool_text(row.is_announced)),
        row.is_usable ==> holds(
            channel_row(row),
            "\t\tavailable_balance_for_send_msat: "@ + decimal_text(
                row.outbound_capacity_msat as nat,
            ),
        ),
        row.is_usable ==> holds(
            channel_row(row),
            ",\n\t\tavailable_balance_for_recv_msat: "@ + decimal_text(
                row.inbound_capacity_msat as nat,
            ),
        ),
        row.funding_txid matches Some(txid) ==> holds(
            channel_row(row),
            "\t\tfunding_txid: "@ + hex_text(Seq::new(32, |i: int| txid@[31 - i])),
        ),
        row.peer_alias matches Some(alias) ==> holds(
            channel_row(row),
            "\t\tpeer_alias: "@ + alias@,
        ),
        row.short_channel_id matches Some(id) ==> holds(
            channel_row(row),
            "\t\tshort_channel_id: "@ + decimal_text(id as nat),
        ),
{
    lemma_channels_text(rows, row);
    lemma_channel_row(row);
}

proof fn lemma_channels_text(rows: Seq<ChannelRow>, row: ChannelRow)
    ensures
        channel_rows(rows.push(row)) == channel_rows(rows) + channel_row(row),
        channels_text(seq![]) == "[]\n"@,
        channels_text(rows.push(row)) == channels_text(rows).take(
            channels_text(rows).len() - 2,
        ) + channel_row(row) + "]\n"@,
{
    reveal_strlit("[");
    reveal_strlit("]\n");
    reveal_strlit("[]\n");
    reveal_strlit("");
    assert(channels_text(seq![]) =~= "[]\n"@);
    assert(rows.push(row).drop_last() =~= rows);
    assert(channels_text(rows).take(channels_text(rows).len() - 2) =~= "["@ + channel_rows(rows));
    assert(channels_text(rows.push(row)) =~= "["@ + channel_rows(rows) + channel_row(row)
        + "]\n"@);
}

proof fn lemma_channel_row(row: ChannelRow)
    ensures
        begins(
            channel_row(row),
            "\n\t{\n\t\tchannel_id: "@ + hex_text(row.channel_id@) + ",\n"@,
        ),
        holds(channel_row(row), "\t\tpeer_pubkey: "@ + hex_text(row.peer@)),
        holds(channel_row(row), "\t\tis_channel_ready: "@ + bool_text(row.is_channel_ready)),
        holds(
            channel_row(row),
            ",\n\t\tchannel_value_satoshis: "@ + decimal_text(row.channel_value_satoshis as nat),
        ),
        holds(
            channel_row(row),
            ",\n\t\toutbound_capacity_msat: "@ + decimal_text(row.outbound_capacity_msat as nat),
        ),
        holds(channel_row(row), "\t\tchannel_can_send_payments: "@ + bool_text(row.is_usable)),
        holds(channel_row(row), ",\n\t\tpublic: "@ + bool_text(row.is_announced)),
        row.is_usable ==> holds(
            channel_row(row),
            "\t\tavailable_balance_for_send_msat: "@ + decimal_text(
                row.outbound_capacity_msat as nat,
            ),
        ),
        row.is_usable ==> holds(
            channel_row(row),
            ",\n\t\tavailable_balance_for_recv_msat: "@ + decimal_text(
                row.inbound_capacity_msat as nat,
            ),
        ),
        row.funding_txid matches Some(txid) ==> holds(
            channel_row(row),
            "\t\tfunding_txid: "@ + hex_text(Seq::new(32, |i: int| txid@[31 - i])),
        ),
        row.peer_alias matches Some(alias) ==> holds(
            channel_row(row),
            "\t\tpeer_alias: "@ + alias@,
        ),
        row.short_channel_id matches Some(id) ==> holds(
            channel_row(row),
            "\t\tshort_channel_id: "@ + decimal_text(id as nat),
        ),
{
    let lead = "\n\t{\n\t\tchannel_id: "@ + hex_text(row.channel_id@) + ",\n"@;
    let funding = match row.funding_txid {
        Some(txid) => "\t\tfunding_txid: "@ + hex_text(txid@.reverse()) + ",\n"@,
        None => ""@,
    };
    if let Some(txid) = row.funding_txid {
        assert(txid@.reverse() =~= Seq::new(32, |i: int| txid@[31 - i]));
        let piece = "\t\tfunding_txid: "@ + hex_text(txid@.reverse());
        lemma_itself(piece);
        lemma_kept(piece, ",\n"@);
    }
    let alias = match row.peer_alias {
        Some(alias) => "\t\tpeer_alias: "@ + alias@ + "\n"@,
        None => ""@,
    };
    if let Some(name) = row.peer_alias {
        let piece = "\t\tpeer_alias: "@ + name@;
        lemma_itself(piece);
        lemma_kept(piece, "\n"@);
    }
    let scid = match row.short_channel_id {
        Some(id) => "\t\tshort_channel_id: "@ + decimal_text(id as nat) + ",\n"@,
        None => ""@,
    };
    if let Some(id) = row.short_channel_id {
        let piece = "\t\tshort_channel_id: "@ + decimal_text(id as nat);
        lemma_itself(piece);
        lemma_kept(piece, ",\n"@);
    }
    let sent = decimal_text(row.outbound_capacity_msat as nat);
    let received = decimal_text(row.inbound_capacity_msat as nat);
    let available = if row.is_usable {
        "\t\tavailable_balance_for_send_msat: "@ + sent
            + ",\n\t\tavailable_balance_for_recv_msat: "@ + received + ",\n"@
    } else {
        ""@
    };
    if row.is_usable {
        let first = "\t\tavailable_balance_for_send_msat: "@ + sent;
        lemma_itself(first);
        lemma_labelled(first, ",\n\t\tavailable_balance_for_recv_msat: "@, received);
        lemma_kept(first + ",\n\t\tavailable_balance_for_recv_msat: "@ + received, ",\n"@);
    }
    let t1 = lead + funding;
    lemma_itself(lead);
    lemma_kept(lead, funding);
    lemma_behind(lead, funding);
    lemma_labelled(t1, "\t\tpeer_pubkey: "@, hex_text(row.peer@));
    let t2 = t1 + "\t\tpeer_pubkey: "@ + hex_text(row.peer@);
    lemma_kept(t2, ",\n"@);
    let t3 = t2 + ",\n"@;
    lemma_kept(t3, alias);
    lemma_behind(t3, alias);
    let t4 = t3 + alias;
    lemma_kept(t4, scid);
    lemma_behind(t4, scid);
    let t5 = t4 + scid;
    lemma_labelled(t5, "\t\tis_channel_ready: "@, bool_text(row.is_channel_ready));
    let t6 = t5 + "\t\tis_channel_ready: "@ + bool_text(row.is_channel_ready);
    let value = decimal_text(row.channel_value_satoshis as nat);
    lemma_labelled(t6, ",\n\t\tchannel_value_satoshis: "@, value);
    let t7 = t6 + ",\n\t\tchannel_value_satoshis: "@ + value;
    lemma_labelled(t7, ",\n\t\toutbound_capacity_msat: "@, sent);
    let t8 = t7 + ",\n\t\toutbound_capacity_msat: "@ + sent;
    lemma_kept(t8, ",\n"@);
    let t9 = t8 + ",\n"@;
    lemma_kept(t9, available);
    lemma_behind(t9, available);
    let t10 = t9 + available;
    lemma_labelled(t10, "\t\tchannel_can_send_payments: "@, bool_text(row.is_usable));
    let t11 = t10 + "\t\tchannel_can_send_payments: "@ + bool_text(row.is_usable);
    lemma_labelled(t11, ",\n\t\tpublic: "@, bool_text(row.is_announced));
    let t12 = t11 + ",\n\t\tpublic: "@ + bool_text(row.is_announced);
    lemma_kept(t12, ",\n\t},\n"@);
    assert(channel_row(row) == t12 + ",\n\t},\n"@);
}

/// A truth value is shown as the word for it.
pub proof fn law_truth_is_named(b: bool)
    ensures
        bool_text(b) == "true"@ <==> b,
        bool_text(b) == "false"@ <==> !b,
{
    reveal_strlit("true");
    reveal_strlit("false");
    assert("true"@.len() == 4 && "false"@.len() == 5);
}

/// What is not known of a channel takes no room: the text grows by a line for the funding, for the
/// alias and for the place on the chain where they are known, by two for the balances where the
/// channel can be used, and holds nothing else besides.
pub proof fn law_channels_show_what_is_known(row: ChannelRow)
    ensures
        ({
            let funding = match row.funding_txid {
                Some(_) => "\t\tfunding_txid: "@.len() + 64 + ",\n"@.len(),
                None => 0nat,
            };
            let alias = match row.peer_alias {
                Some(alias) => "\t\tpeer_alias: "@.len() + alias@.len() + "\n"@.len(),
                None => 0nat,
            };
            let place = match row.short_channel_id {
                Some(id) => "\t\tshort_channel_id: "@.len() + decimal_text(id as nat).len()
                    + ",\n"@.len(),
                None => 0nat,
            };
            let sent = decimal_text(row.outbound_capacity_msat as nat).len();
            let received = decimal_text(row.inbound_capacity_msat as nat).len();
            let balances = if row.is_usable {
                "\t\tavailable_balance_for_send_msat: "@.len() + sent
                    + ",\n\t\tavailable_balance_for_recv_msat: "@.len() + received + ",\n"@.len()
            } else {
                0nat
            };
            channel_row(row).len() == "\n\t{\n\t\tchannel_id: "@.len() + 64 + ",\n"@.len()
                + funding + "\t\tpeer_pubkey: "@.len() + 66 + ",\n"@.len() + alias + place
                + "\t\tis_channel_ready: "@.len() + bool_text(row.is_channel_ready).len()
                + ",\n\t\tchannel_value_satoshis: "@.len() + decimal_text(
                row.channel_value_satoshis as nat,
            ).len() + ",\n\t\toutbound_capacity_msat: "@.len() + sent + ",\n"@.len() + balances
                + "\t\tchannel_can_send_payments: "@.len() + bool_text(row.is_usable).len()
                + ",\n\t\tpublic: "@.len() + bool_text(row.is_announced).len()
                + ",\n\t},\n"@.len()
        }),
{
    reveal_strlit("");
    assert(""@.len() == 0);
}

/// Every peer is listed, in order.
pub proof fn law_every_peer_is_listed(peers: Seq<[u8; 33]>, peer: [u8; 33])
    ensures
        peers_text(seq![]) == "\t{\n\t},\n"@,
        peers_text(peers.push(peer)) == peers_text(peers).take(peers_text(peers).len() - 4)
            + "\t\t pubkey: "@ + hex_text(peer@) + "\n\t},\n"@,
{
    reveal_strlit("");
    reveal_strlit("\n");
    reveal_strlit("\t{\n");
    reveal_strlit("\t},\n");
    reveal_strlit("\n\t},\n");
    reveal_strlit("\t{\n\t},\n");
    assert(peers_text(seq![]) =~= "\t{\n\t},\n"@);
    assert(peers.push(peer).drop_last() =~= peers);
    assert("\n\t},\n"@ =~= "\n"@ + "\t},\n"@);
    assert(peers_text(peers).take(peers_text(peers).len() - 4) =~= "\t{\n"@ + peer_lines(peers));
    assert(peers_text(peers.push(peer)) =~= "\t{\n"@ + peer_lines(peers) + "\t\t pubkey: "@
        + hex_text(peer@) + "\n\t},\n"@);
}

/// Every node of the graph is listed, in order, with its identifier and whether it has announced
/// itself; a post-quantum node is also told whose keys are pinned.
pub proof fn law_every_node_is_listed(nodes: Seq<GraphNode>, node: GraphNode, post_quantum: bool)
    ensures
        nodes_text(seq![], post_quantum) == "[]\n"@,
        nodes_text(nodes.push(node), post_quantum) == nodes_text(nodes, post_quantum).take(
            nodes_text(nodes, post_quantum).len() - 2,
        ) + node_row(node, post_quantum) + "]\n"@,
        node_row(node, false) == "\n\t{\n\t\tnode_id: "@ + hex_text(node.node_id@)
            + ",\n\t\thas_announcement: "@ + bool_text(node.has_announcement) + ",\n\t},\n"@,
        begins(
            node_row(node, true),
            node_row(node, false).take(node_row(node, false).len() - 5),
        ),
        holds(node_row(node, true), ",\n\t\tpq_pinned: "@ + bool_text(node.pq_pinned)),
        holds(node_row(node, true), ",\n\t\tpq_kem_pinned: "@ + bool_text(node.pq_kem_pinned)),
        node_row(node, true).len() == node_row(node, false).len() + ",\n\t\tpq_pinned: "@.len()
            + bool_text(node.pq_pinned).len() + ",\n\t\tpq_kem_pinned: "@.len() + bool_text(
            node.pq_kem_pinned,
        ).len(),
{
    reveal_strlit("[");
    reveal_strlit("]\n");
    reveal_strlit("[]\n");
    reveal_strlit("");
    assert(nodes_text(seq![], post_quantum) =~= "[]\n"@);
    assert(nodes.push(node).drop_last() =~= nodes);
    let before = nodes_text(nodes, post_quantum);
    assert(before.take(before.len() - 2) =~= "["@ + node_rows(nodes, post_quantum));
    assert(nodes_text(nodes.push(node), post_quantum) =~= "["@ + node_rows(nodes, post_quantum)
        + node_row(node, post_quantum) + "]\n"@);
    let tail = ",\n\t},\n"@;
    reveal_strlit(",\n\t},\n");
    assert(tail.len() == 6);
    let lead = "\n\t{\n\t\tnode_id: "@ + hex_text(node.node_id@) + ",\n\t\thas_announcement: "@
        + bool_text(node.has_announcement);
    assert(lead + ""@ =~= lead);
    assert(node_row(node, false) == lead + tail);
    let first = ",\n\t\tpq_pinned: "@ + bool_text(node.pq_pinned);
    let second = ",\n\t\tpq_kem_pinned: "@ + bool_text(node.pq_kem_pinned);
    let pins = first + ",\n\t\tpq_kem_pinned: "@ + bool_text(node.pq_kem_pinned);
    assert(node_row(node, true) == lead + pins + tail);
    lemma_itself(first);
    lemma_labelled(first, ",\n\t\tpq_kem_pinned: "@, bool_text(node.pq_kem_pinned));
    lemma_behind(lead, pins);
    lemma_kept(lead + pins, tail);
    reveal_strlit(",\n\t\tpq_pinned: ");
    assert(first[0] == ',');
    assert(begins(
        node_row(node, true),
        node_row(node, false).take(node_row(node, false).len() - 5),
    )) by {
        reveal(begins);
        let piece = node_row(node, false).take(node_row(node, false).len() - 5);
        assert(piece =~= lead.push(','));
        assert(node_row(node, true).take(piece.len() as int) =~= piece);
    }
}

/// Every payment is listed, those to the node before those of the node and each list in order,
/// with its amount, its hash, its direction and how far it has come.
pub proof fn law_every_payment_is_listed(
    inbound: Seq<PaymentEntry>,
    outbound: Seq<PaymentEntry>,
    entry: PaymentEntry,
)
    ensures
        ({
            let amount = match entry.info.amt_msat {
                MillisatAmount(Some(amt)) => decimal_text(amt as nat),
                MillisatAmount(None) => "unknown"@,
            };
            let status = match entry.info.status {
                HTLCStatus::Pending => "pending"@,
                HTLCStatus::Succeeded => "succeeded"@,
                HTLCStatus::Failed => "failed"@,
            };
            let lead = "\n\t{\n\t\tamount_millisatoshis: "@ + amount + ",\n\t\tpayment_hash: "@
                + hex_text(entry.id@);
            let tail = ",\n\t\thtlc_status: "@ + status + ",\n\t},\n"@;
            let before = payments_text(inbound, outbound);
            let came = payments_text(inbound.push(entry), seq![]);
            &&& payments_text(seq![], seq![]) == "[]\n"@
            &&& payments_text(inbound, outbound.push(entry)) == before.take(before.len() - 2) + (
            lead + ",\n\t\thtlc_direction: outbound"@ + tail) + "]\n"@
            &&& came == payments_text(inbound, seq![]).take(
                payments_text(inbound, seq![]).len() - 2,
            ) + (lead + ",\n\t\thtlc_direction: inbound"@ + tail) + "]\n"@
        }),
{
    reveal_strlit("[");
    reveal_strlit("]\n");
    reveal_strlit("[]\n");
    reveal_strlit("");
    reveal_strlit(",\n\t\thtlc_direction: ");
    reveal_strlit(",\n\t\thtlc_direction: inbound");
    reveal_strlit(",\n\t\thtlc_direction: outbound");
    reveal_strlit("inbound");
    reveal_strlit("outbound");
    let label = ",\n\t\thtlc_direction: "@;
    assert(label + "inbound"@ =~= ",\n\t\thtlc_direction: inbound"@);
    assert(label + "outbound"@ =~= ",\n\t\thtlc_direction: outbound"@);
    let amount = entry.info.amt_msat.text();
    let status = entry.info.status.text();
    let lead = "\n\t{\n\t\tamount_millisatoshis: "@ + amount + ",\n\t\tpayment_hash: "@ + hex_text(
        entry.id@,
    );
    let tail = ",\n\t\thtlc_status: "@ + status + ",\n\t},\n"@;
    assert(payment_row(entry, "inbound"@) =~= lead + (label + "inbound"@) + tail);
    assert(payment_row(entry, "outbound"@) =~= lead + (label + "outbound"@) + tail);
    assert(payments_text(seq![], seq![]) =~= "[]\n"@);
    assert(inbound.push(entry).drop_last() =~= inbound);
    assert(outbound.push(entry).drop_last() =~= outbound);
    let came = payment_rows(inbound, "inbound"@);
    let went = payment_rows(outbound, "outbound"@);
    let before = payments_text(inbound, outbound);
    let alone = payments_text(inbound, seq![]);
    assert(payment_rows(seq![], "outbound"@) =~= ""@);
    assert(before.take(before.len() - 2) =~= "["@ + came + went);
    assert(alone.take(alone.len() - 2) =~= "["@ + came);
    assert(payments_text(inbound, outbound.push(entry)) =~= "["@ + came + went + payment_row(
        entry,
        "outbound"@,
    ) + "]\n"@);
    assert(payments_text(inbound.push(entry), seq![]) =~= "["@ + came + payment_row(
        entry,
        "inbound"@,
    ) + "]\n"@);
}

/// Balances add up: another one adds what can be claimed of it, the fee of the candidate that is
/// confirmed, and the amount of a payment of the node that is still on its way.
pub proof fn law_balances_add_up(balances: Seq<BalanceFacts>, more: BalanceFacts)
    ensures
        local_balance(seq![]) == 0 && close_fees(seq![]) == 0 && pending_payments(seq![]) == 0,
        ({
            let all = balances.push(more);
            match more {
                BalanceFacts::ClaimableOnChannelClose {
                    claimable_satoshis,
                    candidate_fees_satoshis,
                    confirmed_candidate,
                } => {
                    &&& local_balance(all) == local_balance(balances) + claimable_satoshis
                    &&& close_fees(all) == close_fees(balances)
                        + candidate_fees_satoshis@[confirmed_candidate as int]
                    &&& pending_payments(all) == pending_payments(balances)
                },
                BalanceFacts::MaybeTimeoutClaimableHTLC {
                    claimable_satoshis,
                    amount_satoshis,
                    outbound_payment,
                } => {
                    &&& local_balance(all) == local_balance(balances) + claimable_satoshis
                    &&& close_fees(all) == close_fees(balances)
                    &&& outbound_payment ==> pending_payments(all) == pending_payments(balances)
                        + amount_satoshis
                    &&& !outbound_payment ==> pending_payments(all) == pending_payments(balances)
                },
                BalanceFacts::Other { claimable_satoshis } => {
                    &&& local_balance(all) == local_balance(balances) + claimable_satoshis
                    &&& close_fees(all) == close_fees(balances)
                    &&& pending_payments(all) == pending_payments(balances)
                },
            }
        }),
{
    let all = balances.push(more);
    let claimable = |b: BalanceFacts| b.claimable();
    let fee = |b: BalanceFacts| b.close_fee();
    let pending = |b: BalanceFacts| b.pending_payment();
    let none = Seq::<BalanceFacts>::empty();
    assert(none.map_values(claimable) =~= Seq::<u64>::empty());
    assert(none.map_values(fee) =~= Seq::<u64>::empty());
    assert(none.map_values(pending) =~= Seq::<u64>::empty());
    assert(all.map_values(claimable).drop_last() =~= balances.map_values(claimable));
    assert(all.map_values(fee).drop_last() =~= balances.map_values(fee));
    assert(all.map_values(pending).drop_last() =~= balances.map_values(pending));
    assert(all.map_values(claimable).last() == more.claimable());
    assert(all.map_values(fee).last() == more.close_fee());
    assert(all.map_values(pending).last() == more.pending_payment());
}

/// Balances can be shown if every confirmed candidate is among the candidates and no sum is too
/// large.
pub proof fn law_balances_can_be_shown(balances: Seq<BalanceFacts>)
    ensures
        balances_wf(balances) <==> {
            &&& forall|i: int|
                0 <= i < balances.len() ==> match #[trigger] balances[i] {
                    BalanceFacts::ClaimableOnChannelClose {
                        candidate_fees_satoshis,
                        confirmed_candidate,
                        ..
                    } => confirmed_candidate < candidate_fees_satoshis@.len(),
                    _ => true,
                }
            &&& local_balance(balances) <= 0xffff_ffff_ffff_ffff
            &&& close_fees(balances) <= 0xffff_ffff_ffff_ffff
            &&& pending_payments(balances) <= 0xffff_ffff_ffff_ffff
        },
{
    if forall|i: int|
        0 <= i < balances.len() ==> match #[trigger] balances[i] {
            BalanceFacts::ClaimableOnChannelClose {
                candidate_fees_satoshis,
                confirmed_candidate,
                ..
            } => confirmed_candidate < candidate_fees_satoshis@.len(),
            _ => true,
        } {
        assert(forall|i: int| 0 <= i < balances.len() ==> (#[trigger] balances[i]).wf());
    }
    if balances_wf(balances) {
        assert(forall|i: int| 0 <= i < balances.len() ==> (#[trigger] balances[i]).wf());
    }
}

/// The graph is counted node by node and channel by channel: each node that has announced itself,
/// each node that is pinned, and each direction of a channel that has an update counts once.
pub proof fn law_graphs_are_counted(
    nodes: Seq<GraphNode>,
    node: GraphNode,
    channels: Seq<(bool, bool)>,
    channel: (bool, bool),
)
    ensures
        announced_nodes(seq![]) == 0 && pinned_nodes(seq![]) == 0 && channel_updates(seq![]) == 0,
        announced_nodes(nodes.push(node)) == announced_nodes(nodes) + (if node.has_announcement {
            1int
        } else {
            0
        }),
        pinned_nodes(nodes.push(node)) == pinned_nodes(nodes) + (if node.pq_pinned {
            1int
        } else {
            0
        }),
        channel_updates(channels.push(channel)) == channel_updates(channels) + (if channel.0 {
            1int
        } else {
            0
        }) + (if channel.1 {
            1int
        } else {
            0
        }),
{
    let announced = |n: GraphNode| n.has_announcement;
    let pinned = |n: GraphNode| n.pq_pinned;
    let one = |c: (bool, bool)| c.0;
    let two = |c: (bool, bool)| c.1;
    let no_nodes = Seq::<GraphNode>::empty();
    let no_channels = Seq::<(bool, bool)>::empty();
    assert(no_nodes.map_values(announced) =~= Seq::<bool>::empty());
    assert(no_nodes.map_values(pinned) =~= Seq::<bool>::empty());
    assert(no_channels.map_values(one) =~= Seq::<bool>::empty());
    assert(no_channels.map_values(two) =~= Seq::<bool>::empty());
    assert(nodes.push(node).map_values(announced).drop_last() =~= nodes.map_values(announced));
    assert(nodes.push(node).map_values(pinned).drop_last() =~= nodes.map_values(pinned));
    assert(channels.push(channel).map_values(one).drop_last() =~= channels.map_values(one));
    assert(channels.push(channel).map_values(two).drop_last() =~= channels.map_values(two));
    assert(nodes.push(node).map_values(announced).last() == node.has_announcement);
    assert(nodes.push(node).map_values(pinned).last() == node.pq_pinned);
    assert(channels.push(channel).map_values(one).last() == channel.0);
    assert(channels.push(channel).map_values(two).last() == channel.1);
}

/// The line about the graph gives the number of its nodes, of those that are announced, of its
/// channels and of their updates, and to a post-quantum node the number of those that are pinned.
pub proof fn law_graphs_are_shown(
    nodes: Seq<GraphNode>,
    channels: Seq<(bool, bool)>,
)
    ensures
        graph_line(nodes, channels, false) == "GRAPHINFO nodes="@ + decimal_text(nodes.len())
            + " announced="@ + decimal_text(announced_nodes(nodes)) + " channels="@ + decimal_text(
            channels.len(),
        ) + " updates="@ + decimal_text(channel_updates(channels)),
        graph_line(nodes, channels, true) == graph_line(nodes, channels, false) + " pinned="@
            + decimal_text(pinned_nodes(nodes)),
{
    reveal_strlit("");
    assert(graph_line(nodes, channels, false) =~= "GRAPHINFO nodes="@ + decimal_text(nodes.len())
        + " announced="@ + decimal_text(announced_nodes(nodes)) + " channels="@ + decimal_text(
        channels.len(),
    ) + " updates="@ + decimal_text(channel_updates(channels)));
    assert(graph_line(nodes, channels, true) =~= graph_line(nodes, channels, false) + " pinned="@
        + decimal_text(pinned_nodes(nodes)));
}

/// Channels that can be used are counted one by one.
pub proof fn law_usable_channels_are_counted(usable: Seq<bool>, more: bool)
    ensures
        count_true(seq![]) == 0,
        count_true(usable.push(more)) == count_true(usable) + (if more {
            1int
        } else {
            0
        }),
{
    assert(usable.push(more).drop_last() =~= usable);
}

/// What the node shows of itself: its key, its post-quantum keys where it has them, how many
/// channels it has and how many of them can be used, its balances, its peers, and the size of the
/// network.
pub proof fn law_nodes_show_themselves(facts: NodeFacts)
    ensures
        ({
            let text = node_info_text(facts);
            &&& begins(text, "\t{\n\t\t node_pubkey: "@ + hex_text(facts.node_id@))
            &&& facts.pq_node_id matches Some(key) ==> holds(
                text,
                "\t\t pq_node_id: "@ + hex_text(key@) + "\n"@,
            )
            &&& facts.pq_kem_node_id matches Some(key) ==> holds(
                text,
                "\t\t pq_kem_node_id: "@ + hex_text(key@) + "\n"@,
            )
            &&& holds(
                text,
                "\t\t num_channels: "@ + decimal_text(facts.channels_usable@.len()),
            )
            &&& holds(
                text,
                "\n\t\t num_usable_channels: "@ + decimal_text(
                    count_true(facts.channels_usable@),
                ),
            )
            &&& holds(
                text,
                "\n\t\t local_balance_sats: "@ + decimal_text(local_balance(facts.balances@)),
            )
            &&& holds(
                text,
                "\n\t\t eventual_close_fees_sats: "@ + decimal_text(close_fees(facts.balances@)),
            )
            &&& holds(
                text,
                "\n\t\t pending_outbound_payments_sats: "@ + decimal_text(
                    pending_payments(facts.balances@),
                ),
            )
            &&& holds(text, "\n\t\t num_peers: "@ + decimal_text(facts.num_peers as nat))
            &&& holds(text, "\n\t\t network_nodes: "@ + decimal_text(facts.network_nodes as nat))
            &&& holds(
                text,
                "\n\t\t network_channels: "@ + decimal_text(facts.network_channels as nat),
            )
            &&& facts.pq_node_id is None && facts.pq_kem_node_id is None ==> begins(
                text,
                "\t{\n\t\t node_pubkey: "@ + hex_text(facts.node_id@) + "\n"@
                    + "\t\t num_channels: "@,
            )
        }),
{
    let lead = "\t{\n\t\t node_pubkey: "@ + hex_text(facts.node_id@);
    let pq = key_line("pq_node_id"@, facts.pq_node_id);
    let kem = key_line("pq_kem_node_id"@, facts.pq_kem_node_id);
    reveal_strlit("\t\t ");
    reveal_strlit("pq_node_id");
    reveal_strlit("pq_kem_node_id");
    reveal_strlit(": ");
    reveal_strlit("\t\t pq_node_id: ");
    reveal_strlit("\t\t pq_kem_node_id: ");
    assert("\t\t pq_node_id: "@ =~= "\t\t "@ + "pq_node_id"@ + ": "@);
    assert("\t\t pq_kem_node_id: "@ =~= "\t\t "@ + "pq_kem_node_id"@ + ": "@);
    lemma_itself(lead);
    lemma_itself(pq);
    lemma_itself(kem);
    lemma_kept(lead, "\n"@);
    let t1 = lead + "\n"@;
    lemma_kept(t1, pq);
    lemma_behind(t1, pq);
    let t2 = t1 + pq;
    lemma_kept(t2, kem);
    lemma_behind(t2, kem);
    let t3 = t2 + kem;
    let v = decimal_text(facts.channels_usable@.len());
    lemma_itself(t3 + "\t\t num_channels: "@);
    lemma_kept(t3 + "\t\t num_channels: "@, v);
    assert(""@.len() == 0) by {
        reveal_strlit("");
    }
    if facts.pq_node_id is None && facts.pq_kem_node_id is None {
        assert(t3 =~= lead + "\n"@);
    }
    lemma_labelled(t3, "\t\t num_channels: "@, v);
    let t4 = t3 + "\t\t num_channels: "@ + v;
    let v = decimal_text(count_true(facts.channels_usable@));
    lemma_labelled(t4, "\n\t\t num_usable_channels: "@, v);
    let t5 = t4 + "\n\t\t num_usable_channels: "@ + v;
    let v = decimal_text(local_balance(facts.balances@));
    lemma_labelled(t5, "\n\t\t local_balance_sats: "@, v);
    let t6 = t5 + "\n\t\t local_balance_sats: "@ + v;
    let v = decimal_text(close_fees(facts.balances@));
    lemma_labelled(t6, "\n\t\t eventual_close_fees_sats: "@, v);
    let t7 = t6 + "\n\t\t eventual_close_fees_sats: "@ + v;
    let v = decimal_text(pending_payments(facts.balances@));
    lemma_labelled(t7, "\n\t\t pending_outbound_payments_sats: "@, v);
    let t8 = t7 + "\n\t\t pending_outbound_payments_sats: "@ + v;
    let v = decimal_text(facts.num_peers as nat);
    lemma_labelled(t8, "\n\t\t num_peers: "@, v);
    let t9 = t8 + "\n\t\t num_peers: "@ + v;
    let v = decimal_text(facts.network_nodes as nat);
    lemma_labelled(t9, "\n\t\t network_nodes: "@, v);
    let t10 = t9 + "\n\t\t network_nodes: "@ + v;
    let v = decimal_text(facts.network_channels as nat);
    lemma_labelled(t10, "\n\t\t network_channels: "@, v);
    let t11 = t10 + "\n\t\t network_channels: "@ + v;
    lemma_kept(t11, "\n\t},\n"@);
    assert(node_info_text(facts) == t11 + "\n\t},\n"@);
}

/// A gossip message is measured as it came over the wire, with the two bytes of its type, and is
/// named by its node or its channel; of an update the lowest bit of its flags gives the direction.
pub proof fn law_gossip_is_measured(
    node_id: [u8; 33],
    short_channel_id: u64,
    channel_flags: u8,
    len: nat,
)
    ensures
        stats_line(GossipMessage::NodeAnnouncement { node_id }, len)
            == "GOSSIP-STATS: recv node_announcement node="@ + hex_text(node_id@) + " bytes="@
            + decimal_text(len + 2),
        stats_line(GossipMessage::ChannelAnnouncement { short_channel_id }, len)
            == "GOSSIP-STATS: recv channel_announcement scid="@ + decimal_text(
            short_channel_id as nat,
        ) + " bytes="@ + decimal_text(len + 2),
        ({
            let line = stats_line(
                GossipMessage::ChannelUpdate { short_channel_id, channel_flags },
                len,
            );
            let lead = "GOSSIP-STATS: recv channel_update scid="@ + decimal_text(
                short_channel_id as nat,
            );
            &&& channel_flags & 1 == 0 ==> line == lead + " dir=0 bytes="@ + decimal_text(len + 2)
            &&& channel_flags & 1 == 1 ==> line == lead + " dir=1 bytes="@ + decimal_text(len + 2)
        }),
{
    assert(channel_flags & 1 == channel_flags % 2) by (bit_vector);
    reveal_strlit(" dir=");
    reveal_strlit(" bytes=");
    reveal_strlit(" dir=0 bytes=");
    reveal_strlit(" dir=1 bytes=");
    let line = stats_line(GossipMessage::ChannelUpdate { short_channel_id, channel_flags }, len);
    let lead = "GOSSIP-STATS: recv channel_update scid="@ + decimal_text(short_channel_id as nat);
    if channel_flags & 1 == 0 {
        assert(decimal_text(0) == seq!['0']);
        assert(" dir=0 bytes="@ =~= " dir="@ + seq!['0'] + " bytes="@);
        assert(line =~= lead + " dir=0 bytes="@ + decimal_text(len + 2));
    }
    if channel_flags & 1 == 1 {
        assert(decimal_text(1) == seq!['1']);
        assert(" dir=1 bytes="@ =~= " dir="@ + seq!['1'] + " bytes="@);
        assert(line =~= lead + " dir=1 bytes="@ + decimal_text(len + 2));
    }
}

/// What comes from a peer is measured where that is asked for, and nothing else is.
pub proof fn law_measurements_are_shown(
    stats: GossipStats,
    from_peer: bool,
    message: GossipMessage,
    len: nat,
)
    ensures
        stats.line(from_peer, message, len) == (if stats.enabled && from_peer {
            Some(stats_line(message, len))
        } else {
            None
        }),
{
}

/// The console greets the operator with the key of the node, and then asks for a command.
pub proof fn law_greetings_name_the_node(node_id: [u8; 33])
    ensures
        greeting(node_id).len() == 4,
        forall|i: int| 0 <= i < 3 ==> #[trigger] greeting(node_id)[i] is Print,
        greeting(node_id)[0] == ActionView::Print(
            "LDK startup successful. Enter \"help\" to view available commands. Press Ctrl-D to quit."@,
        ),
        greeting(node_id)[1] == ActionView::Print(
            "LDK logs are available at <your-supplied-ldk-data-dir-path>/.ldk/logs"@,
        ),
        greeting(node_id)[2] == ActionView::Print(
            "Local Node ID is "@ + hex_text(node_id@) + "."@,
        ),
        greeting(node_id)[3] == ActionView::Inline("> "@),
{
}

/// The help names the program and every command with its arguments; those of the post-quantum
/// extensions are named exactly to a node that has them.
pub proof fn law_help_names_every_command(name: Seq<char>, version: Seq<char>, post_quantum: bool)
    ensures
        ({
            let help = help_text(name, version, post_quantum);
            &&& begins(
                help,
                "\nVERSION:\n  "@ + name + " v"@ + version
                    + "\n\nUSAGE:\n  Command [arguments]\n\nCOMMANDS:\n  help\tShows a list of commands.\n  quit\tClose the application.\n"@,
            )
            &&& holds(
                help,
                "\n  Channels:\n      openchannel pubkey@[host:port] <amt_satoshis> [--public] [--with-anchors]\n      closechannel <channel_id> <peer_pubkey>\n      forceclosechannel <channel_id> <peer_pubkey>\n      listchannels\n"@,
            )
            &&& holds(
                help,
                "\n  Peers:\n      connectpeer pubkey@host:port\n"@ + (if post_quantum {
                    "      connectpeerpq pubkey@host:port [kem_key_hex]\n"@
                } else {
                    Seq::<char>::empty()
                }) + "      disconnectpeer <peer_pubkey>\n      listpeers\n"@,
            )
            &&& holds(
                help,
                "\n  Payments:\n      sendpayment <invoice|offer> [<amount_msat>]\n      keysend <dest_pubkey> <amt_msats>\n      listpayments\n"@,
            )
            &&& holds(
                help,
                "\n  Invoices:\n"@ + (if post_quantum {
                    "      getinvoice <amt_msats> <expiry_secs> [--pq-omit-pubkey]\n"@
                } else {
                    "      getinvoice <amt_msats> <expiry_secs>\n"@
                }) + "      getoffer [<amt_msats>]\n"@,
            )
            &&& holds(
                help,
                "\n  Refunds:\n      getrefund <amt_msats> <expiry_secs>\n      claimrefund <refund>\n"@,
            )
            &&& holds(
                help,
                "\n  Async payments:\n      asyncpaths <recipient_id>\t(static invoice server side)\n      setasyncserver <path_hex>...\t(async recipient side)\n      getasyncoffer\t(async recipient side)\n"@,
            )
            &&& holds(
                help,
                "\n  Other:\n      signmessage <message>\n      nodeinfo\n      listnodes\n      graphinfo\n      announce\n"@,
            )
        }),
{
    let none = Seq::<char>::empty();
    let lead = "\nVERSION:\n  "@ + name + " v"@ + version
        + "\n\nUSAGE:\n  Command [arguments]\n\nCOMMANDS:\n  help\tShows a list of commands.\n  quit\tClose the application.\n"@;
    let channels = "\n  Channels:\n      openchannel pubkey@[host:port] <amt_satoshis> [--public] [--with-anchors]\n      closechannel <channel_id> <peer_pubkey>\n      forceclosechannel <channel_id> <peer_pubkey>\n      listchannels\n"@;
    let connect = "\n  Peers:\n      connectpeer pubkey@host:port\n"@;
    let protect = if post_quantum {
        "      connectpeerpq pubkey@host:port [kem_key_hex]\n"@
    } else {
        ""@
    };
    assert(!post_quantum ==> protect =~= none) by {
        reveal_strlit("");
    }
    let peers = "      disconnectpeer <peer_pubkey>\n      listpeers\n"@;
    let payments = "\n  Payments:\n      sendpayment <invoice|offer> [<amount_msat>]\n      keysend <dest_pubkey> <amt_msats>\n      listpayments\n"@;
    let invoices = "\n  Invoices:\n"@;
    let invoice = if post_quantum {
        "      getinvoice <amt_msats> <expiry_secs> [--pq-omit-pubkey]\n"@
    } else {
        "      getinvoice <amt_msats> <expiry_secs>\n"@
    };
    let offers = "      getoffer [<amt_msats>]\n"@;
    let refunds = "\n  Refunds:\n      getrefund <amt_msats> <expiry_secs>\n      claimrefund <refund>\n"@;
    let asynchronous = "\n  Async payments:\n      asyncpaths <recipient_id>\t(static invoice server side)\n      setasyncserver <path_hex>...\t(async recipient side)\n      getasyncoffer\t(async recipient side)\n"@;
    let other = "\n  Other:\n      signmessage <message>\n      nodeinfo\n      listnodes\n      graphinfo\n      announce\n"@;
    lemma_itself(lead);
    let t1 = lead + channels;
    lemma_kept(lead, channels);
    lemma_piece(t1, lead, channels, none);
    let t2 = t1 + connect + protect + peers;
    lemma_kept(t1, connect);
    lemma_kept(t1 + connect, protect);
    lemma_kept(t1 + connect + protect, peers);
    lemma_piece(t2, t1, connect + protect + peers, none);
    let t3 = t2 + payments;
    lemma_kept(t2, payments);
    lemma_piece(t3, t2, payments, none);
    let t4 = t3 + invoices + invoice + offers;
    lemma_kept(t3, invoices);
    lemma_kept(t3 + invoices, invoice);
    lemma_kept(t3 + invoices + invoice, offers);
    lemma_piece(t4, t3, invoices + invoice + offers, none);
    let t5 = t4 + refunds;
    lemma_kept(t4, refunds);
    lemma_piece(t5, t4, refunds, none);
    let t6 = t5 + asynchronous;
    lemma_kept(t5, asynchronous);
    lemma_piece(t6, t5, asynchronous, none);
    lemma_kept(t6, other);
    lemma_piece(t6 + other, t6, other, none);
    assert(help_text(name, version, post_quantum) == t6 + other);
}

} // verus!
