//! What the operator is shown of the node: its commands, itself, its peers, its channels, its
//! payments and the network around it.

use crate::hex::{hex_str, hex_text};
use crate::payment_table::{
    distinct_ids, table_of, InboundPaymentInfoStorage, OutboundPaymentInfoStorage,
};
use crate::payments::PaymentEntry;
use crate::text::{decimal, decimal_text, text3, text4, text5};
use vstd::prelude::*;
use vstd::string::*;

verus! {

/// The text of a truth value.
pub open spec fn bool_text(b: bool) -> Seq<char> {
    if b {
        "true"@
    } else {
        "false"@
    }
}

/// Writes a truth value.
fn write_bool(b: bool) -> (r: &'static str)
    ensures
        r@ == bool_text(b),
{
    if b {
        "true"
    } else {
        "false"
    }
}

/// The text of the commands, given the name and the version of the program. The post-quantum
/// commands are shown only where the node speaks the post-quantum extensions.
pub open spec fn help_text(name: Seq<char>, version: Seq<char>, post_quantum: bool) -> Seq<char> {
    "\nVERSION:\n  "@ + name + " v"@ + version
        + "\n\nUSAGE:\n  Command [arguments]\n\nCOMMANDS:\n  help\tShows a list of commands.\n  quit\tClose the application.\n"@
        + "\n  Channels:\n      openchannel pubkey@[host:port] <amt_satoshis> [--public] [--with-anchors]\n      closechannel <channel_id> <peer_pubkey>\n      forceclosechannel <channel_id> <peer_pubkey>\n      listchannels\n"@
        + "\n  Peers:\n      connectpeer pubkey@host:port\n"@ + (if post_quantum {
        "      connectpeerpq pubkey@host:port [kem_key_hex]\n"@
    } else {
        ""@
    }) + "      disconnectpeer <peer_pubkey>\n      listpeers\n"@
        + "\n  Payments:\n      sendpayment <invoice|offer> [<amount_msat>]\n      keysend <dest_pubkey> <amt_msats>\n      listpayments\n"@
        + "\n  Invoices:\n"@ + (if post_quantum {
        "      getinvoice <amt_msats> <expiry_secs> [--pq-omit-pubkey]\n"@
    } else {
        "      getinvoice <amt_msats> <expiry_secs>\n"@
    }) + "      getoffer [<amt_msats>]\n"@
        + "\n  Refunds:\n      getrefund <amt_msats> <expiry_secs>\n      claimrefund <refund>\n"@
        + "\n  Async payments:\n      asyncpaths <recipient_id>\t(static invoice server side)\n      setasyncserver <path_hex>...\t(async recipient side)\n      getasyncoffer\t(async recipient side)\n"@
        + "\n  Other:\n      signmessage <message>\n      nodeinfo\n      listnodes\n      graphinfo\n      announce\n"@
}

/// Writes the commands.
pub fn help(name: &str, version: &str, post_quantum: bool) -> (r: String)
    ensures
        r@ == help_text(name@, version@, post_quantum),
{
    let mut out: String = text4("\nVERSION:\n  ", name, " v", version);
    out.append(
        "\n\nUSAGE:\n  Command [arguments]\n\nCOMMANDS:\n  help\tShows a list of commands.\n  quit\tClose the application.\n",
    );
    out.append(
        "\n  Channels:\n      openchannel pubkey@[host:port] <amt_satoshis> [--public] [--with-anchors]\n      closechannel <channel_id> <peer_pubkey>\n      forceclosechannel <channel_id> <peer_pubkey>\n      listchannels\n",
    );
    out.append("\n  Peers:\n      connectpeer pubkey@host:port\n");
    if post_quantum {
        out.append("      connectpeerpq pubkey@host:port [kem_key_hex]\n");
    } else {
        out.append("");
    }
    out.append("      disconnectpeer <peer_pubkey>\n      listpeers\n");
    out.append(
        "\n  Payments:\n      sendpayment <invoice|offer> [<amount_msat>]\n      keysend <dest_pubkey> <amt_msats>\n      listpayments\n",
    );
    out.append("\n  Invoices:\n");
    if post_quantum {
        out.append("      getinvoice <amt_msats> <expiry_secs> [--pq-omit-pubkey]\n");
    } else {
        out.append("      getinvoice <amt_msats> <expiry_secs>\n");
    }
    out.append("      getoffer [<amt_msats>]\n");
    out.append(
        "\n  Refunds:\n      getrefund <amt_msats> <expiry_secs>\n      claimrefund <refund>\n",
    );
    out.append(
        "\n  Async payments:\n      asyncpaths <recipient_id>\t(static invoice server side)\n      setasyncserver <path_hex>...\t(async recipient side)\n      getasyncoffer\t(async recipient side)\n",
    );
    out.append(
        "\n  Other:\n      signmessage <message>\n      nodeinfo\n      listnodes\n      graphinfo\n      announce\n",
    );
    out
}

/// What the node could claim in one channel.
pub enum BalanceFacts {
    /// The channel is open. Closing it costs the fee of the confirmed one of the candidates.
    ClaimableOnChannelClose {
        claimable_satoshis: u64,
        candidate_fees_satoshis: Vec<u64>,
        confirmed_candidate: usize,
    },
    /// A payment that may still time out.
    MaybeTimeoutClaimableHTLC {
        claimable_satoshis: u64,
        amount_satoshis: u64,
        outbound_payment: bool,
    },
    /// Anything else.
    Other { claimable_satoshis: u64 },
}

impl BalanceFacts {
    /// What can be claimed.
    pub open spec fn claimable(self) -> u64 {
        match self {
            BalanceFacts::ClaimableOnChannelClose { claimable_satoshis, .. } => claimable_satoshis,
            BalanceFacts::MaybeTimeoutClaimableHTLC { claimable_satoshis, .. } =>
                claimable_satoshis,
            BalanceFacts::Other { claimable_satoshis } => claimable_satoshis,
        }
    }

    /// What closing the channel costs.
    pub open spec fn close_fee(self) -> u64 {
        match self {
            BalanceFacts::ClaimableOnChannelClose {
                candidate_fees_satoshis,
                confirmed_candidate,
                ..
            } => candidate_fees_satoshis@[confirmed_candidate as int],
            _ => 0,
        }
    }

    /// What the node is paying.
    pub open spec fn pending_payment(self) -> u64 {
        match self {
            BalanceFacts::MaybeTimeoutClaimableHTLC { amount_satoshis, outbound_payment, .. } =>
                if outbound_payment {
                amount_satoshis
            } else {
                0
            },
            _ => 0,
        }
    }

    /// The confirmed candidate is one of the candidates.
    pub open spec fn wf(self) -> bool {
        match self {
            BalanceFacts::ClaimableOnChannelClose {
                candidate_fees_satoshis,
                confirmed_candidate,
                ..
            } => confirmed_candidate < candidate_fees_satoshis@.len(),
            _ => true,
        }
    }

    /// Reads the three amounts, if the confirmed candidate is one of the candidates.
    fn amounts(&self) -> (r: Option<(u64, u64, u64)>)
        ensures
            r is Some == self.wf(),
            r matches Some(v) ==> v.0 == self.claimable() && v.1 == self.close_fee() && v.2
                == self.pending_payment(),
    {
        match self {
            BalanceFacts::ClaimableOnChannelClose {
                claimable_satoshis,
                candidate_fees_satoshis,
                confirmed_candidate,
            } => {
                if *confirmed_candidate < candidate_fees_satoshis.len() {
                    Some((*claimable_satoshis, candidate_fees_satoshis[*confirmed_candidate], 0))
                } else {
                    None
                }
            },
            BalanceFacts::MaybeTimeoutClaimableHTLC {
                claimable_satoshis,
                amount_satoshis,
                outbound_payment,
            } => {
                if *outbound_payment {
                    Some((*claimable_satoshis, 0, *amount_satoshis))
                } else {
                    Some((*claimable_satoshis, 0, 0))
                }
            },
            BalanceFacts::Other { claimable_satoshis } => Some((*claimable_satoshis, 0, 0)),
        }
    }
}

/// The sum of some numbers.
pub open spec fn total(s: Seq<u64>) -> nat
    decreases s.len(),
{
    if s.len() == 0 {
        0
    } else {
        total(s.drop_last()) + s.last() as nat
    }
}

/// Everything that can be claimed.
pub open spec fn local_balance(balances: Seq<BalanceFacts>) -> nat {
    total(balances.map_values(|b: BalanceFacts| b.claimable()))
}

/// Everything that closing the channels will cost.
pub open spec fn close_fees(balances: Seq<BalanceFacts>) -> nat {
    total(balances.map_values(|b: BalanceFacts| b.close_fee()))
}

/// Everything that the node is paying.
pub open spec fn pending_payments(balances: Seq<BalanceFacts>) -> nat {
    total(balances.map_values(|b: BalanceFacts| b.pending_payment()))
}

/// Whether the balances can be summed up: each is whole, and the sums are numbers of 64 bits.
pub open spec fn balances_wf(balances: Seq<BalanceFacts>) -> bool {
    &&& forall|i: int| 0 <= i < balances.len() ==> (#[trigger] balances[i]).wf()
    &&& local_balance(balances) <= u64::MAX
    &&& close_fees(balances) <= u64::MAX
    &&& pending_payments(balances) <= u64::MAX
}

/// The sum grows with each number.
proof fn lemma_total_prefix(s: Seq<u64>, n: int)
    requires
        0 <= n <= s.len(),
    ensures
        total(s.take(n)) <= total(s),
    decreases s.len() - n,
{
    if n < s.len() {
        assert(s.take(n + 1).drop_last() =~= s.take(n));
        lemma_total_prefix(s, n + 1);
    } else {
        assert(s.take(n) =~= s);
    }
}

/// One more balance in each of the sums.
proof fn lemma_sums(balances: Seq<BalanceFacts>, n: int)
    requires
        0 <= n < balances.len(),
    ensures
        local_balance(balances.take(n + 1)) == local_balance(balances.take(n))
            + balances[n].claimable(),
        close_fees(balances.take(n + 1)) == close_fees(balances.take(n)) + balances[n].close_fee(),
        pending_payments(balances.take(n + 1)) == pending_payments(balances.take(n))
            + balances[n].pending_payment(),
        local_balance(balances.take(n + 1)) <= local_balance(balances),
        close_fees(balances.take(n + 1)) <= close_fees(balances),
        pending_payments(balances.take(n + 1)) <= pending_payments(balances),
{
    let claimable = |b: BalanceFacts| b.claimable();
    let fee = |b: BalanceFacts| b.close_fee();
    let pending = |b: BalanceFacts| b.pending_payment();
    let now = balances.take(n + 1);
    let before = balances.take(n);
    assert(now.map_values(claimable).drop_last() =~= before.map_values(claimable));
    assert(now.map_values(fee).drop_last() =~= before.map_values(fee));
    assert(now.map_values(pending).drop_last() =~= before.map_values(pending));
    assert(now.map_values(claimable) =~= balances.map_values(claimable).take(n + 1));
    assert(now.map_values(fee) =~= balances.map_values(fee).take(n + 1));
    assert(now.map_values(pending) =~= balances.map_values(pending).take(n + 1));
    lemma_total_prefix(balances.map_values(claimable), n + 1);
    lemma_total_prefix(balances.map_values(fee), n + 1);
    lemma_total_prefix(balances.map_values(pending), n + 1);
}

/// Sums up the balances, if they can be summed up.
pub fn sum_balances(balances: &Vec<BalanceFacts>) -> (r: Option<(u64, u64, u64)>)
    ensures
        r is Some == balances_wf(balances@),
        r matches Some(v) ==> v.0 == local_balance(balances@) && v.1 == close_fees(balances@)
            && v.2 == pending_payments(balances@),
{
    let mut claimable: u64 = 0;
    let mut fees: u64 = 0;
    let mut pending: u64 = 0;
    let mut i: usize = 0;
    proof {
        let none = balances@.take(0);
        assert(none.map_values(|b: BalanceFacts| b.claimable()) =~= Seq::<u64>::empty());
        assert(none.map_values(|b: BalanceFacts| b.close_fee()) =~= Seq::<u64>::empty());
        assert(none.map_values(|b: BalanceFacts| b.pending_payment()) =~= Seq::<u64>::empty());
    }
    while i < balances.len()
        invariant
            i <= balances@.len(),
            claimable == local_balance(balances@.take(i as int)),
            fees == close_fees(balances@.take(i as int)),
            pending == pending_payments(balances@.take(i as int)),
            forall|k: int| 0 <= k < i ==> (#[trigger] balances@[k]).wf(),
        decreases balances.len() - i,
    {
        let v: (u64, u64, u64) = match balances[i].amounts() {
            None => {
                assert(!balances@[i as int].wf());
                return None;
            },
            Some(v) => v,
        };
        proof {
            lemma_sums(balances@, i as int);
        }
        if v.0 > u64::MAX - claimable || v.1 > u64::MAX - fees || v.2 > u64::MAX - pending {
            return None;
        }
        claimable = claimable + v.0;
        fees = fees + v.1;
        pending = pending + v.2;
        i = i + 1;
    }
    assert(balances@.take(i as int) =~= balances@);
    Some((claimable, fees, pending))
}

/// What is shown of the node itself.
pub struct NodeFacts {
    /// The public key of the node.
    pub node_id: [u8; 33],
    /// The post-quantum signing key of the node, where it has one.
    pub pq_node_id: Option<Vec<u8>>,
    /// The post-quantum encapsulation key of the node, where it has one.
    pub pq_kem_node_id: Option<Vec<u8>>,
    /// For each channel, whether it is usable.
    pub channels_usable: Vec<bool>,
    /// What the node could claim.
    pub balances: Vec<BalanceFacts>,
    /// How many peers are connected.
    pub num_peers: u64,
    /// How many nodes the network graph has.
    pub network_nodes: u64,
    /// How many channels the network graph has.
    pub network_channels: u64,
}

/// How many of some truth values are true.
pub open spec fn count_true(s: Seq<bool>) -> nat
    decreases s.len(),
{
    if s.len() == 0 {
        0
    } else {
        count_true(s.drop_last()) + if s.last() {
            1nat
        } else {
            0nat
        }
    }
}

/// Counts how many of some truth values are true.
fn count(s: &Vec<bool>) -> (r: usize)
    ensures
        r == count_true(s@),
{
    let mut n: usize = 0;
    let mut i: usize = 0;
    assert(s@.take(0) =~= Seq::<bool>::empty());
    while i < s.len()
        invariant
            n <= i <= s@.len(),
            n == count_true(s@.take(i as int)),
        decreases s.len() - i,
    {
        assert(s@.take(i + 1).drop_last() =~= s@.take(i as int));
        assert(s@.take(i + 1).last() == s@[i as int]);
        if s[i] {
            n = n + 1;
        }
        i = i + 1;
    }
    assert(s@.take(i as int) =~= s@);
    n
}

/// The line of a key that the node may have.
pub open spec fn key_line(name: Seq<char>, key: Option<Vec<u8>>) -> Seq<char> {
    match key {
        Some(key) => "\t\t "@ + name + ": "@ + hex_text(key@) + "\n"@,
        None => ""@,
    }
}

/// The text about the node itself.
pub open spec fn node_info_text(facts: NodeFacts) -> Seq<char> {
    "\t{\n\t\t node_pubkey: "@ + hex_text(facts.node_id@) + "\n"@ + key_line(
        "pq_node_id"@,
        facts.pq_node_id,
    ) + key_line("pq_kem_node_id"@, facts.pq_kem_node_id) + "\t\t num_channels: "@ + decimal_text(
        facts.channels_usable@.len(),
    ) + "\n\t\t num_usable_channels: "@ + decimal_text(count_true(facts.channels_usable@))
        + "\n\t\t local_balance_sats: "@ + decimal_text(local_balance(facts.balances@))
        + "\n\t\t eventual_close_fees_sats: "@ + decimal_text(close_fees(facts.balances@))
        + "\n\t\t pending_outbound_payments_sats: "@ + decimal_text(
        pending_payments(facts.balances@),
    ) + "\n\t\t num_peers: "@ + decimal_text(facts.num_peers as nat) + "\n\t\t network_nodes: "@
        + decimal_text(facts.network_nodes as nat) + "\n\t\t network_channels: "@ + decimal_text(
        facts.network_channels as nat,
    ) + "\n\t},\n"@
}

/// Writes the line of a key that the node may have.
fn write_key(name: &str, key: &Option<Vec<u8>>) -> (r: String)
    ensures
        r@ == key_line(name@, *key),
{
    match key {
        Some(key) => text5("\t\t ", name, ": ", hex_str(key.as_slice()).as_str(), "\n"),
        None => "".to_owned(),
    }
}

/// Writes the text about the node itself.
pub fn node_info(facts: &NodeFacts) -> (r: String)
    requires
        balances_wf(facts.balances@),
    ensures
        r@ == node_info_text(*facts),
{
    let sums: (u64, u64, u64) = match sum_balances(&facts.balances) {
        None => (0, 0, 0),
        Some(sums) => sums,
    };
    let mut out: String = text3(
        "\t{\n\t\t node_pubkey: ",
        hex_str(facts.node_id.as_slice()).as_str(),
        "\n",
    );
    out.append(write_key("pq_node_id", &facts.pq_node_id).as_str());
    out.append(write_key("pq_kem_node_id", &facts.pq_kem_node_id).as_str());
    out.append("\t\t num_channels: ");
    out.append(decimal(facts.channels_usable.len() as u64).as_str());
    out.append("\n\t\t num_usable_channels: ");
    out.append(decimal(count(&facts.channels_usable) as u64).as_str());
    out.append("\n\t\t local_balance_sats: ");
    out.append(decimal(sums.0).as_str());
    out.append("\n\t\t eventual_close_fees_sats: ");
    out.append(decimal(sums.1).as_str());
    out.append("\n\t\t pending_outbound_payments_sats: ");
    out.append(decimal(sums.2).as_str());
    out.append("\n\t\t num_peers: ");
    out.append(decimal(facts.num_peers).as_str());
    out.append("\n\t\t network_nodes: ");
    out.append(decimal(facts.network_nodes).as_str());
    out.append("\n\t\t network_channels: ");
    out.append(decimal(facts.network_channels).as_str());
    out.append("\n\t},\n");
    out
}

/// The lines about the peers.
pub open spec fn peer_lines(peers: Seq<[u8; 33]>) -> Seq<char>
    decreases peers.len(),
{
    if peers.len() == 0 {
        ""@
    } else {
        peer_lines(peers.drop_last()) + "\t\t pubkey: "@ + hex_text(peers.last()@) + "\n"@
    }
}

/// The text about the peers that the node is connected to.
pub open spec fn peers_text(peers: Seq<[u8; 33]>) -> Seq<char> {
    "\t{\n"@ + peer_lines(peers) + "\t},\n"@
}

/// Writes the text about the peers that the node is connected to.
pub fn list_peers(peers: &Vec<[u8; 33]>) -> (r: String)
    ensures
        r@ == peers_text(peers@),
{
    let mut lines: String = "".to_owned();
    let mut i: usize = 0;
    assert(peers@.take(0) =~= Seq::<[u8; 33]>::empty());
    while i < peers.len()
        invariant
            i <= peers@.len(),
            lines@ == peer_lines(peers@.take(i as int)),
        decreases peers.len() - i,
    {
        proof {
            assert(peers@.take(i + 1).drop_last() =~= peers@.take(i as int));
            assert(peers@.take(i + 1).last() == peers@[i as int]);
        }
        lines.append("\t\t pubkey: ");
        lines.append(hex_str(peers[i].as_slice()).as_str());
        lines.append("\n");
        i = i + 1;
    }
    assert(peers@.take(i as int) =~= peers@);
    text3("\t{\n", lines.as_str(), "\t},\n")
}

/// What is shown of a node of the network graph.
#[derive(Clone, Copy, Debug)]
pub struct GraphNode {
    /// The public key of the node.
    pub node_id: [u8; 33],
    /// Whether the node has announced itself.
    pub has_announcement: bool,
    /// Whether the signing key of the node is pinned.
    pub pq_pinned: bool,
    /// Whether the encapsulation key of the node is pinned.
    pub pq_kem_pinned: bool,
}

/// The text about one node of the network graph.
pub open spec fn node_row(node: GraphNode, post_quantum: bool) -> Seq<char> {
    "\n\t{\n\t\tnode_id: "@ + hex_text(node.node_id@) + ",\n\t\thas_announcement: "@ + bool_text(
        node.has_announcement,
    ) + (if post_quantum {
        ",\n\t\tpq_pinned: "@ + bool_text(node.pq_pinned) + ",\n\t\tpq_kem_pinned: "@ + bool_text(
            node.pq_kem_pinned,
        )
    } else {
        ""@
    }) + ",\n\t},\n"@
}

/// The texts about nodes of the network graph, one after the other.
pub open spec fn node_rows(nodes: Seq<GraphNode>, post_quantum: bool) -> Seq<char>
    decreases nodes.len(),
{
    if nodes.len() == 0 {
        ""@
    } else {
        node_rows(nodes.drop_last(), post_quantum) + node_row(nodes.last(), post_quantum)
    }
}

/// The text about the nodes of the network graph.
pub open spec fn nodes_text(nodes: Seq<GraphNode>, post_quantum: bool) -> Seq<char> {
    "["@ + node_rows(nodes, post_quantum) + "]\n"@
}

/// Writes the text about one node of the network graph.
fn write_node_row(node: &GraphNode, post_quantum: bool) -> (r: String)
    ensures
        r@ == node_row(*node, post_quantum),
{
    let pins: String = if post_quantum {
        text4(
            ",\n\t\tpq_pinned: ",
            write_bool(node.pq_pinned),
            ",\n\t\tpq_kem_pinned: ",
            write_bool(node.pq_kem_pinned),
        )
    } else {
        "".to_owned()
    };
    let mut out: String = text5(
        "\n\t{\n\t\tnode_id: ",
        hex_str(node.node_id.as_slice()).as_str(),
        ",\n\t\thas_announcement: ",
        write_bool(node.has_announcement),
        pins.as_str(),
    );
    out.append(",\n\t},\n");
    out
}

/// Writes the text about the nodes of the network graph.
pub fn list_nodes(nodes: &Vec<GraphNode>, post_quantum: bool) -> (r: String)
    ensures
        r@ == nodes_text(nodes@, post_quantum),
{
    let mut rows: String = "".to_owned();
    let mut i: usize = 0;
    assert(nodes@.take(0) =~= Seq::<GraphNode>::empty());
    while i < nodes.len()
        invariant
            i <= nodes@.len(),
            rows@ == node_rows(nodes@.take(i as int), post_quantum),
        decreases nodes.len() - i,
    {
        proof {
            assert(nodes@.take(i + 1).drop_last() =~= nodes@.take(i as int));
            assert(nodes@.take(i + 1).last() == nodes@[i as int]);
        }
        rows.append(write_node_row(&nodes[i], post_quantum).as_str());
        i = i + 1;
    }
    assert(nodes@.take(i as int) =~= nodes@);
    text3("[", rows.as_str(), "]\n")
}

/// How many of the nodes have announced themselves.
pub open spec fn announced_nodes(nodes: Seq<GraphNode>) -> nat {
    count_true(nodes.map_values(|n: GraphNode| n.has_announcement))
}

/// How many of the nodes have their signing keys pinned.
pub open spec fn pinned_nodes(nodes: Seq<GraphNode>) -> nat {
    count_true(nodes.map_values(|n: GraphNode| n.pq_pinned))
}

/// How many directions of the channels have an update. Each channel has two directions.
pub open spec fn channel_updates(channels: Seq<(bool, bool)>) -> nat {
    count_true(channels.map_values(|c: (bool, bool)| c.0)) + count_true(
        channels.map_values(|c: (bool, bool)| c.1),
    )
}

/// The line about the size of the network graph.
pub open spec fn graph_line(
    nodes: Seq<GraphNode>,
    channels: Seq<(bool, bool)>,
    post_quantum: bool,
) -> Seq<char> {
    "GRAPHINFO nodes="@ + decimal_text(nodes.len()) + " announced="@ + decimal_text(
        announced_nodes(nodes),
    ) + " channels="@ + decimal_text(channels.len()) + " updates="@ + decimal_text(
        channel_updates(channels),
    ) + (if post_quantum {
        " pinned="@ + decimal_text(pinned_nodes(nodes))
    } else {
        ""@
    })
}

/// No more truth values are true than there are.
proof fn lemma_count_bound(s: Seq<bool>)
    ensures
        count_true(s) <= s.len(),
    decreases s.len(),
{
    if s.len() > 0 {
        lemma_count_bound(s.drop_last());
    }
}

/// The counts of the network graph fit its size: no more nodes are announced or pinned than there
/// are, and no channel has more than two updates.
pub proof fn law_graph_counts_fit(nodes: Seq<GraphNode>, channels: Seq<(bool, bool)>)
    ensures
        announced_nodes(nodes) <= nodes.len(),
        pinned_nodes(nodes) <= nodes.len(),
        channel_updates(channels) <= 2 * channels.len(),
{
    lemma_count_bound(nodes.map_values(|n: GraphNode| n.has_announcement));
    lemma_count_bound(nodes.map_values(|n: GraphNode| n.pq_pinned));
    lemma_count_bound(channels.map_values(|c: (bool, bool)| c.0));
    lemma_count_bound(channels.map_values(|c: (bool, bool)| c.1));
}

/// Counts the directions of the channels that have an update.
fn count_updates(channels: &Vec<(bool, bool)>) -> (r: u64)
    requires
        2 * channels@.len() <= u64::MAX,
    ensures
        r == channel_updates(channels@),
{
    let mut one: Vec<bool> = Vec::new();
    let mut two: Vec<bool> = Vec::new();
    let mut i: usize = 0;
    while i < channels.len()
        invariant
            i <= channels@.len(),
            one@ =~= channels@.take(i as int).map_values(|c: (bool, bool)| c.0),
            two@ =~= channels@.take(i as int).map_values(|c: (bool, bool)| c.1),
        decreases channels.len() - i,
    {
        one.push(channels[i].0);
        two.push(channels[i].1);
        i = i + 1;
    }
    proof {
        assert(channels@.take(i as int) =~= channels@);
        lemma_count_bound(one@);
        lemma_count_bound(two@);
    }
    count(&one) as u64 + count(&two) as u64
}

/// Writes the line about the size of the network graph.
pub fn graph_info(
    nodes: &Vec<GraphNode>,
    channels: &Vec<(bool, bool)>,
    post_quantum: bool,
) -> (r: String)
    requires
        2 * channels@.len() <= u64::MAX,
    ensures
        r@ == graph_line(nodes@, channels@, post_quantum),
{
    let mut announced: Vec<bool> = Vec::new();
    let mut pinned: Vec<bool> = Vec::new();
    let mut i: usize = 0;
    while i < nodes.len()
        invariant
            i <= nodes@.len(),
            announced@ =~= nodes@.take(i as int).map_values(|n: GraphNode| n.has_announcement),
            pinned@ =~= nodes@.take(i as int).map_values(|n: GraphNode| n.pq_pinned),
        decreases nodes.len() - i,
    {
        announced.push(nodes[i].has_announcement);
        pinned.push(nodes[i].pq_pinned);
        i = i + 1;
    }
    assert(nodes@.take(i as int) =~= nodes@);
    let mut out: String = text4(
        "GRAPHINFO nodes=",
        decimal(nodes.len() as u64).as_str(),
        " announced=",
        decimal(count(&announced) as u64).as_str(),
    );
    out.append(" channels=");
    out.append(decimal(channels.len() as u64).as_str());
    out.append(" updates=");
    out.append(decimal(count_updates(channels)).as_str());
    let pins: String = if post_quantum {
        crate::text::text2(" pinned=", decimal(count(&pinned) as u64).as_str())
    } else {
        "".to_owned()
    };
    out.append(pins.as_str());
    out
}

/// What is shown of a channel.
pub struct ChannelRow {
    /// The identifier of the channel.
    pub channel_id: [u8; 32],
    /// The transaction that funds the channel, once there is one.
    pub funding_txid: Option<[u8; 32]>,
    /// The node at the other end.
    pub peer: [u8; 33],
    /// The alias that the node at the other end has announced, if any.
    pub peer_alias: Option<String>,
    /// Where the channel is funded on the chain, once it is.
    pub short_channel_id: Option<u64>,
    /// Whether the channel is ready.
    pub is_channel_ready: bool,
    /// The value of the channel.
    pub channel_value_satoshis: u64,
    /// How much the node can send.
    pub outbound_capacity_msat: u64,
    /// How much the node can receive.
    pub inbound_capacity_msat: u64,
    /// Whether the channel can be used.
    pub is_usable: bool,
    /// Whether the channel is announced.
    pub is_announced: bool,
}

/// The text of the identifier of a transaction: its bytes from the last to the first.
pub open spec fn txid_text(txid: [u8; 32]) -> Seq<char> {
    hex_text(txid@.reverse())
}

/// The text about one channel.
pub open spec fn channel_row(row: ChannelRow) -> Seq<char> {
    "\n\t{\n\t\tchannel_id: "@ + hex_text(row.channel_id@) + ",\n"@ + (match row.funding_txid {
        Some(txid) => "\t\tfunding_txid: "@ + txid_text(txid) + ",\n"@,
        None => ""@,
    }) + "\t\tpeer_pubkey: "@ + hex_text(row.peer@) + ",\n"@ + (match row.peer_alias {
        Some(alias) => "\t\tpeer_alias: "@ + alias@ + "\n"@,
        None => ""@,
    }) + (match row.short_channel_id {
        Some(id) => "\t\tshort_channel_id: "@ + decimal_text(id as nat) + ",\n"@,
        None => ""@,
    }) + "\t\tis_channel_ready: "@ + bool_text(row.is_channel_ready)
        + ",\n\t\tchannel_value_satoshis: "@ + decimal_text(row.channel_value_satoshis as nat)
        + ",\n\t\toutbound_capacity_msat: "@ + decimal_text(row.outbound_capacity_msat as nat)
        + ",\n"@ + (if row.is_usable {
        "\t\tavailable_balance_for_send_msat: "@ + decimal_text(row.outbound_capacity_msat as nat)
            + ",\n\t\tavailable_balance_for_recv_msat: "@ + decimal_text(
            row.inbound_capacity_msat as nat,
        ) + ",\n"@
    } else {
        ""@
    }) + "\t\tchannel_can_send_payments: "@ + bool_text(row.is_usable) + ",\n\t\tpublic: "@
        + bool_text(row.is_announced) + ",\n\t},\n"@
}

/// The texts about channels, one after the other.
pub open spec fn channel_rows(rows: Seq<ChannelRow>) -> Seq<char>
    decreases rows.len(),
{
    if rows.len() == 0 {
        ""@
    } else {
        channel_rows(rows.drop_last()) + channel_row(rows.last())
    }
}

/// The text about the channels.
pub open spec fn channels_text(rows: Seq<ChannelRow>) -> Seq<char> {
    "["@ + channel_rows(rows) + "]\n"@
}

/// Writes the identifier of a transaction.
fn write_txid(txid: &[u8; 32]) -> (r: String)
    ensures
        r@ == txid_text(*txid),
{
    let mut bytes: Vec<u8> = Vec::new();
    let mut i: usize = 0;
    while i < 32
        invariant
            i <= 32,
            bytes@ =~= txid@.reverse().take(i as int),
        decreases 32 - i,
    {
        bytes.push(txid[31 - i]);
        i = i + 1;
    }
    assert(bytes@ =~= txid@.reverse());
    hex_str(bytes.as_slice())
}

/// Writes the text about one channel.
fn write_channel_row(row: &ChannelRow) -> (r: String)
    ensures
        r@ == channel_row(*row),
{
    let funding: String = match &row.funding_txid {
        Some(txid) => text3("\t\tfunding_txid: ", write_txid(txid).as_str(), ",\n"),
        None => "".to_owned(),
    };
    let alias: String = match &row.peer_alias {
        Some(alias) => text3("\t\tpeer_alias: ", alias.as_str(), "\n"),
        None => "".to_owned(),
    };
    let scid: String = match row.short_channel_id {
        Some(id) => text3("\t\tshort_channel_id: ", decimal(id).as_str(), ",\n"),
        None => "".to_owned(),
    };
    let available: String = if row.is_usable {
        text5(
            "\t\tavailable_balance_for_send_msat: ",
            decimal(row.outbound_capacity_msat).as_str(),
            ",\n\t\tavailable_balance_for_recv_msat: ",
            decimal(row.inbound_capacity_msat).as_str(),
            ",\n",
        )
    } else {
        "".to_owned()
    };
    let mut out: String = text4(
        "\n\t{\n\t\tchannel_id: ",
        hex_str(row.channel_id.as_slice()).as_str(),
        ",\n",
        funding.as_str(),
    );
    out.append("\t\tpeer_pubkey: ");
    out.append(hex_str(row.peer.as_slice()).as_str());
    out.append(",\n");
    out.append(alias.as_str());
    out.append(scid.as_str());
    out.append("\t\tis_channel_ready: ");
    out.append(write_bool(row.is_channel_ready));
    out.append(",\n\t\tchannel_value_satoshis: ");
    out.append(decimal(row.channel_value_satoshis).as_str());
    out.append(",\n\t\toutbound_capacity_msat: ");
    out.append(decimal(row.outbound_capacity_msat).as_str());
    out.append(",\n");
    out.append(available.as_str());
    out.append("\t\tchannel_can_send_payments: ");
    out.append(write_bool(row.is_usable));
    out.append(",\n\t\tpublic: ");
    out.append(write_bool(row.is_announced));
    out.append(",\n\t},\n");
    out
}

/// Writes the text about the channels.
pub fn list_channels(rows: &Vec<ChannelRow>) -> (r: String)
    ensures
        r@ == channels_text(rows@),
{
    let mut out: String = "".to_owned();
    let mut i: usize = 0;
    assert(rows@.take(0) =~= Seq::<ChannelRow>::empty());
    while i < rows.len()
        invariant
            i <= rows@.len(),
            out@ == channel_rows(rows@.take(i as int)),
        decreases rows.len() - i,
    {
        proof {
            assert(rows@.take(i + 1).drop_last() =~= rows@.take(i as int));
            assert(rows@.take(i + 1).last() == rows@[i as int]);
        }
        out.append(write_channel_row(&rows[i]).as_str());
        i = i + 1;
    }
    assert(rows@.take(i as int) =~= rows@);
    text3("[", out.as_str(), "]\n")
}

/// The text about one payment.
pub open spec fn payment_row(entry: PaymentEntry, direction: Seq<char>) -> Seq<char> {
    "\n\t{\n\t\tamount_millisatoshis: "@ + entry.info.amt_msat.text() + ",\n\t\tpayment_hash: "@
        + hex_text(entry.id@) + ",\n\t\thtlc_direction: "@ + direction + ",\n\t\thtlc_status: "@
        + entry.info.status.text() + ",\n\t},\n"@
}

/// The texts about payments, one after the other.
pub open spec fn payment_rows(entries: Seq<PaymentEntry>, direction: Seq<char>) -> Seq<char>
    decreases entries.len(),
{
    if entries.len() == 0 {
        ""@
    } else {
        payment_rows(entries.drop_last(), direction) + payment_row(entries.last(), direction)
    }
}

/// The text about the payments, those to the node before those of the node.
pub open spec fn payments_text(inbound: Seq<PaymentEntry>, outbound: Seq<PaymentEntry>) -> Seq<
    char,
> {
    "["@ + payment_rows(inbound, "inbound"@) + payment_rows(outbound, "outbound"@) + "]\n"@
}

/// Writes the texts about payments.
fn write_payment_rows(entries: &Vec<PaymentEntry>, direction: &str) -> (r: String)
    ensures
        r@ == payment_rows(entries@, direction@),
{
    let mut out: String = "".to_owned();
    let mut i: usize = 0;
    assert(entries@.take(0) =~= Seq::<PaymentEntry>::empty());
    while i < entries.len()
        invariant
            i <= entries@.len(),
            out@ == payment_rows(entries@.take(i as int), direction@),
        decreases entries.len() - i,
    {
        proof {
            assert(entries@.take(i + 1).drop_last() =~= entries@.take(i as int));
            assert(entries@.take(i + 1).last() == entries@[i as int]);
        }
        let entry: PaymentEntry = entries[i];
        let mut row: String = text4(
            "\n\t{\n\t\tamount_millisatoshis: ",
            entry.info.amt_msat.fmt().as_str(),
            ",\n\t\tpayment_hash: ",
            hex_str(entry.id.as_slice()).as_str(),
        );
        row.append(",\n\t\thtlc_direction: ");
        row.append(direction);
        row.append(",\n\t\thtlc_status: ");
        row.append(entry.info.status.fmt().as_str());
        row.append(",\n\t},\n");
        out.append(row.as_str());
        i = i + 1;
    }
    assert(entries@.take(i as int) =~= entries@);
    out
}

/// Writes the text about listed payments.
pub fn payments_listing(inbound: &Vec<PaymentEntry>, outbound: &Vec<PaymentEntry>) -> (r: String)
    ensures
        r@ == payments_text(inbound@, outbound@),
{
    text4(
        "[",
        write_payment_rows(inbound, "inbound").as_str(),
        write_payment_rows(outbound, "outbound").as_str(),
        "]\n",
    )
}

/// Writes the text about the payments that the node remembers: each of them once, in an order
/// that is left open.
pub fn list_payments(
    inbound: &InboundPaymentInfoStorage,
    outbound: &OutboundPaymentInfoStorage,
) -> (r: String)
    ensures
        exists|a: Seq<PaymentEntry>, b: Seq<PaymentEntry>|
            {
                &&& distinct_ids(a)
                &&& distinct_ids(b)
                &&& table_of(a) == inbound.payments@
                &&& table_of(b) == outbound.payments@
                &&& r@ == #[trigger] payments_text(a, b)
            },
{
    let a: Vec<PaymentEntry> = inbound.payments.entries();
    let b: Vec<PaymentEntry> = outbound.payments.entries();
    payments_listing(&a, &b)
}

} // verus!
