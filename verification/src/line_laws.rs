//! What a typed line asks for: every request says on which words it rests, and what a command
//! shows can be typed back.

use crate::actions::{
    ask, Action, ActionView, Event, ReactionView, Record, Report, State, StateView,
};
use crate::commands::{
    all_paths, async_paths, claim_refund, close_channel, closed_channel, command, command_named,
    connect_peer, connect_peer_pq, disconnect_peer, flag_complaints, force_close_channel,
    get_invoice, get_refund, has_anchors, is_public, keysend, open_channel, open_connected,
    send_payment, set_async_server, sign_line, CloseError, Command, Settings,
};
use crate::console::react;
use crate::console_laws::{lawful, lemma_command, lemma_complaints, payment_made};
use crate::hex::{compressed_pubkey, hex_bytes, hex_text, is_hex_digit, law_hex_round_trip};
use crate::ldk::{bolt11_invoice, bolt12_offer, bolt12_refund_fault, public_key_of, sha256};
use crate::payments::{law_bytes_fill_an_array, lemma_array32};
use crate::peers::{peer_host, peer_pubkey};
use crate::text::{
    first_index, lemma_first_index, lemma_first_index_unique, u32_of, u64_of, words, NumberError,
};
use vstd::prelude::*;
use vstd::string::*;
use vstd::utf8::encode_utf8;

verus! {

/// Whether a word spells a public key in its compressed form.
pub open spec fn spells_key(word: Seq<char>, key: [u8; 33]) -> bool {
    &&& word.len() == 66
    &&& hex_bytes(word) is Some
    &&& public_key_of(hex_bytes(word)->0) == Some(key)
}

/// Whether a word names the peer with a public key: up to the first `@` it spells the key.
pub open spec fn names_peer(word: Seq<char>, key: [u8; 33]) -> bool {
    exists|n: int|
        #![trigger word.take(n)]
        {
            &&& 0 <= n <= word.len()
            &&& spells_key(word.take(n), key)
            &&& n < word.len() ==> word[n] == '@'
        }
}

/// Whether a text is what stands in a word between the first `@` and the next one.
pub open spec fn names_host(word: Seq<char>, host: Seq<char>) -> bool {
    exists|n: int|
        #![trigger word.skip(n)]
        {
            &&& 0 < n <= word.len()
            &&& word[n - 1] == '@'
            &&& forall|k: int| 0 <= k < n - 1 ==> word[k] != '@'
            &&& !host.contains('@')
            &&& host.is_prefix_of(word.skip(n))
            &&& n + host.len() < word.len() ==> word[n + host.len()] == '@'
        }
}

/// Whether the words of a line ask for an action. What only informs the operator or saves what is
/// remembered needs no words.
pub open spec fn asked_for(
    action: ActionView,
    ws: Seq<Seq<char>>,
    entropy: [u8; 32],
    settings: Settings,
) -> bool {
    match action {
        Action::Print(_) => true,
        Action::Inline(_) => true,
        Action::SaveInbound => true,
        Action::SaveOutbound => true,
        Action::Report(Report::Help) => ws[0] == "help"@,
        Action::Report(Report::Channels) => ws[0] == "listchannels"@,
        Action::Report(Report::Payments) => ws[0] == "listpayments"@,
        Action::Report(Report::Node) => ws[0] == "nodeinfo"@,
        Action::Report(Report::Peers) => ws[0] == "listpeers"@,
        Action::Report(Report::Nodes) => ws[0] == "listnodes"@,
        Action::Report(Report::Graph) => ws[0] == "graphinfo"@,
        Action::Keysend {
            dest,
            amt_msat,
            preimage,
            payment_id,
            final_cltv_delta,
            allow_mpp,
            retry_secs,
        } => {
            &&& ws.len() >= 3
            &&& ws[0] == "keysend"@
            &&& spells_key(ws[1], dest)
            &&& u64_of(ws[2]) == Ok::<u64, NumberError>(amt_msat)
            &&& preimage == entropy
            &&& payment_id == sha256(entropy@)
            &&& final_cltv_delta == 40
            &&& !allow_mpp
            &&& retry_secs == 10
        },
        Action::PayOffer { offer, amt_msat, payment_id, retry_secs } => {
            &&& ws.len() >= 3
            &&& ws[0] == "sendpayment"@
            &&& offer == ws[1]
            &&& bolt12_offer(offer) matches Some((asked_msat, _))
            &&& asked_msat is Some ==> asked_msat == Some(amt_msat)
            &&& u64_of(ws[2]) == Ok::<u64, NumberError>(amt_msat)
            &&& payment_id == entropy
            &&& retry_secs == 10
        },
        Action::PayInvoice { invoice, named_msat, payment_id, retry_secs } => {
            &&& ws.len() >= 2
            &&& ws[0] == "sendpayment"@
            &&& invoice == ws[1]
            &&& bolt12_offer(invoice) is None
            &&& bolt11_invoice(invoice) matches Ok(facts)
            &&& payment_id == facts.payment_hash
            &&& named_msat is Some <==> ws.len() >= 3
            &&& named_msat is Some ==> u64_of(ws[2]) == Ok::<u64, NumberError>(
                named_msat->0,
            )
            &&& named_msat is Some || facts.amount_msat is Some
            &&& named_msat is Some && facts.amount_msat is Some ==> named_msat == facts.amount_msat
            &&& retry_secs == 10
        },
        Action::CreateInvoice { amt_msat, expiry_secs, pq_omit_pubkey } => {
            &&& ws.len() >= 3
            &&& ws[0] == "getinvoice"@
            &&& u64_of(ws[1]) == Ok::<u64, NumberError>(amt_msat)
            &&& u32_of(ws[2]) == Ok::<u32, NumberError>(expiry_secs)
            &&& pq_omit_pubkey <==> ws.len() >= 4
            &&& pq_omit_pubkey ==> ws[3] == "--pq-omit-pubkey"@ && settings.post_quantum
        },
        Action::StartRefund { amt_msat, lifetime_secs, payment_id, retry_secs } => {
            &&& ws.len() >= 3
            &&& ws[0] == "getrefund"@
            &&& u64_of(ws[1]) == Ok::<u64, NumberError>(amt_msat)
            &&& u64_of(ws[2]) == Ok::<u64, NumberError>(lifetime_secs)
            &&& payment_id == entropy
            &&& retry_secs == 10
        },
        Action::ClaimRefund(refund) => {
            &&& ws.len() >= 2
            &&& ws[0] == "claimrefund"@
            &&& refund == ws[1]
            &&& bolt12_refund_fault(refund) is None
        },
        Action::AsyncPaths(recipient) => {
            &&& ws.len() >= 2
            &&& ws[0] == "asyncpaths"@
            &&& recipient == encode_utf8(ws[1])
        },
        Action::SetServerPaths(paths) => {
            &&& ws.len() >= 2
            &&& ws[0] == "setasyncserver"@
            &&& paths.len() == ws.len() - 1
            &&& forall|i: int|
                0 <= i < paths.len() ==> hex_bytes(ws[i + 1]) == Some(#[trigger] paths[i])
        },
        Action::FindPeer(key) => {
            &&& ws.len() >= 3
            &&& ws[0] == "openchannel"@
            &&& spells_key(ws[1], key)
        },
        Action::Resolve(host) => {
            &&& ws.len() >= 2
            &&& ws[0] == "openchannel"@ || ws[0] == "connectpeer"@ || (ws[0] == "connectpeerpq"@
                && settings.post_quantum)
            &&& names_host(ws[1], host)
        },
        Action::FindChannels(key) => {
            &&& ws.len() >= 2
            &&& ws[0] == "disconnectpeer"@
            &&& hex_bytes(ws[1]) is Some
            &&& public_key_of(hex_bytes(ws[1])->0) == Some(key)
        },
        Action::CloseChannel { channel_id, peer } => {
            &&& ws.len() >= 3
            &&& ws[0] == "closechannel"@
            &&& hex_bytes(ws[1]) == Some(channel_id@)
            &&& hex_bytes(ws[2]) is Some
            &&& public_key_of(hex_bytes(ws[2])->0) == Some(peer)
        },
        Action::ForceCloseChannel { channel_id, peer, reason } => {
            &&& ws.len() >= 3
            &&& ws[0] == "forceclosechannel"@
            &&& hex_bytes(ws[1]) == Some(channel_id@)
            &&& hex_bytes(ws[2]) is Some
            &&& public_key_of(hex_bytes(ws[2])->0) == Some(peer)
            &&& reason == "Manually force-closed"@
        },
        Action::StartOffer => ws[0] == "getoffer"@,
        Action::GetAsyncOffer => ws[0] == "getasyncoffer"@,
        Action::FindAnnounced => ws[0] == "announce"@,
        Action::Connect { .. } => false,
        Action::FindPin(_) => false,
        Action::ConnectPq { .. } => false,
        Action::OpenChannel { .. } => false,
        Action::BuildOffer(_) => false,
        Action::BuildRefund => false,
        Action::Disconnect(_) => false,
        Action::Broadcast { .. } => false,
    }
}

/// Whether the words of a line ask for everything that is done.
#[verifier::opaque]
spec fn all_asked(
    r: ReactionView,
    ws: Seq<Seq<char>>,
    entropy: [u8; 32],
    settings: Settings,
) -> bool {
    forall|i: int|
        0 <= i < r.actions.len() ==> asked_for(#[trigger] r.actions[i], ws, entropy, settings)
}

/// Whether a payment that a reaction makes is noted with the amount that is paid, the secret that
/// goes with it and the identifier that it is made under, and whether the console then waits for
/// that very payment.
pub open spec fn noted_in_full(r: ReactionView) -> bool {
    forall|i: int|
        0 <= i < r.actions.len() ==> match #[trigger] r.actions[i] {
            Action::Keysend { dest, amt_msat, payment_id, .. } => {
                &&& r.record == Some(
                    Record::OutboundPending { payment_id, payment_secret: None, amt_msat },
                )
                &&& r.state == StateView::Sending { payment_id, amt_msat, payee: dest }
            },
            Action::PayOffer { amt_msat, payment_id, .. } => {
                &&& r.record == Some(
                    Record::OutboundPending { payment_id, payment_secret: None, amt_msat },
                )
                &&& r.state == StateView::PayOffer
            },
            Action::PayInvoice { invoice, named_msat, payment_id, .. } => {
                &&& bolt11_invoice(invoice) matches Ok(facts)
                &&& r.record matches Some(
                    Record::OutboundPending { payment_id: id, payment_secret, amt_msat },
                )
                &&& id == payment_id
                &&& payment_secret == Some(facts.payment_secret)
                &&& named_msat is Some ==> named_msat == Some(amt_msat)
                &&& facts.amount_msat is Some ==> facts.amount_msat == Some(amt_msat)
                &&& r.state == StateView::Sending { payment_id, amt_msat, payee: facts.payee }
            },
            _ => true,
        }
}

/// The channel identifier that is read is the one that is spelled.
proof fn lemma_closed_channel(ws: Seq<Seq<char>>)
    ensures
        closed_channel(ws) matches Ok(c) ==> {
            &&& ws.len() >= 3
            &&& hex_bytes(ws[1]) == Some(c.0@)
            &&& hex_bytes(ws[2]) is Some
            &&& public_key_of(hex_bytes(ws[2])->0) == Some(c.1)
        },
{
    if closed_channel(ws) is Ok {
        law_bytes_fill_an_array(hex_bytes(ws[1])->0);
    }
}

/// The host that is read out of a word is the one that it names.
proof fn lemma_peer_host(word: Seq<char>)
    ensures
        peer_host(word) matches Some(host) ==> names_host(word, host),
        peer_host(word) is None ==> !word.contains('@'),
{
    lemma_first_index(word, '@');
    let n = first_index(word, '@') as int + 1;
    if peer_host(word) is Some {
        let rest = word.skip(n);
        lemma_first_index(rest, '@');
        let host = peer_host(word)->0;
        assert(host =~= rest.take(first_index(rest, '@') as int));
        assert(forall|i: int| 0 <= i < host.len() ==> host[i] == rest[i]);
        assert(n + host.len() < word.len() ==> word[n + host.len()] == rest[host.len() as int]);
        assert(word.skip(n) == rest);
        assert(host.is_prefix_of(word.skip(n)));
    }
}

proof fn lemma_asked_open(ws: Seq<Seq<char>>, entropy: [u8; 32], settings: Settings)
    requires
        ws.len() > 0,
        ws[0] == "openchannel"@,
    ensures
        all_asked(open_channel(ws), ws, entropy, settings),
        noted_in_full(open_channel(ws)),
{
    reveal(all_asked);
    reveal(open_channel);
    lemma_peer_host(ws[1]);
    lemma_first_index(ws[1], '@');
    assert(ws[1].take(ws[1].len() as int) =~= ws[1]);
}

proof fn lemma_asked_send(ws: Seq<Seq<char>>, entropy: [u8; 32], settings: Settings)
    requires
        ws.len() > 0,
        ws[0] == "sendpayment"@,
    ensures
        all_asked(send_payment(ws, entropy), ws, entropy, settings),
        noted_in_full(send_payment(ws, entropy)),
{
    reveal(all_asked);
    reveal(send_payment);
}

proof fn lemma_asked_keysend(ws: Seq<Seq<char>>, entropy: [u8; 32], settings: Settings)
    requires
        ws.len() > 0,
        ws[0] == "keysend"@,
    ensures
        all_asked(keysend(ws, entropy), ws, entropy, settings),
        noted_in_full(keysend(ws, entropy)),
{
    reveal(all_asked);
    reveal(keysend);
}

proof fn lemma_asked_invoice(ws: Seq<Seq<char>>, entropy: [u8; 32], settings: Settings)
    requires
        ws.len() > 0,
        ws[0] == "getinvoice"@,
    ensures
        all_asked(get_invoice(ws, settings.post_quantum), ws, entropy, settings),
        noted_in_full(get_invoice(ws, settings.post_quantum)),
{
    reveal(all_asked);
    reveal(get_invoice);
}

proof fn lemma_asked_refunds(ws: Seq<Seq<char>>, entropy: [u8; 32], settings: Settings)
    requires
        ws.len() > 0,
    ensures
        ws[0] == "getrefund"@ ==> all_asked(get_refund(ws, entropy), ws, entropy, settings),
        ws[0] == "claimrefund"@ ==> all_asked(claim_refund(ws), ws, entropy, settings),
        noted_in_full(get_refund(ws, entropy)),
        noted_in_full(claim_refund(ws)),
{
    reveal(all_asked);
    reveal(get_refund);
    reveal(claim_refund);
}

/// The paths that are read are those that the words spell, one for each.
proof fn lemma_all_paths_spelled(ws: Seq<Seq<char>>)
    ensures
        all_paths(ws) matches Some(paths) ==> {
            &&& paths.len() == ws.len()
            &&& forall|i: int|
                0 <= i < paths.len() ==> hex_bytes(ws[i]) == Some(#[trigger] paths[i])
        },
    decreases ws.len(),
{
    if ws.len() > 0 && all_paths(ws) is Some {
        let before = ws.drop_last();
        lemma_all_paths_spelled(before);
        assert(forall|i: int| 0 <= i < before.len() ==> before[i] == ws[i]);
    }
}

proof fn lemma_asked_async(ws: Seq<Seq<char>>, entropy: [u8; 32], settings: Settings)
    requires
        ws.len() > 0,
    ensures
        ws[0] == "asyncpaths"@ ==> all_asked(async_paths(ws), ws, entropy, settings),
        ws[0] == "setasyncserver"@ ==> all_asked(
            set_async_server(all_paths(ws.skip(1))),
            ws,
            entropy,
            settings,
        ),
        noted_in_full(async_paths(ws)),
        noted_in_full(set_async_server(all_paths(ws.skip(1)))),
{
    reveal(all_asked);
    reveal(async_paths);
    reveal(set_async_server);
    lemma_all_paths_spelled(ws.skip(1));
    assert(forall|i: int| 0 <= i < ws.len() - 1 ==> ws.skip(1)[i] == ws[i + 1]);
}

proof fn lemma_asked_peers(ws: Seq<Seq<char>>, entropy: [u8; 32], settings: Settings)
    requires
        ws.len() > 0,
    ensures
        ws[0] == "connectpeerpq"@ && settings.post_quantum ==> all_asked(
            connect_peer_pq(ws),
            ws,
            entropy,
            settings,
        ),
        ws[0] == "connectpeer"@ ==> all_asked(connect_peer(ws), ws, entropy, settings),
        ws[0] == "disconnectpeer"@ ==> all_asked(disconnect_peer(ws), ws, entropy, settings),
        noted_in_full(connect_peer_pq(ws)),
        noted_in_full(connect_peer(ws)),
        noted_in_full(disconnect_peer(ws)),
{
    reveal(all_asked);
    reveal(connect_peer_pq);
    reveal(connect_peer);
    reveal(disconnect_peer);
    if ws.len() >= 2 {
        lemma_peer_host(ws[1]);
    }
}

proof fn lemma_asked_closing(ws: Seq<Seq<char>>, entropy: [u8; 32], settings: Settings)
    requires
        ws.len() > 0,
    ensures
        ws[0] == "closechannel"@ ==> all_asked(close_channel(ws), ws, entropy, settings),
        ws[0] == "forceclosechannel"@ ==> all_asked(
            force_close_channel(ws),
            ws,
            entropy,
            settings,
        ),
        noted_in_full(close_channel(ws)),
        noted_in_full(force_close_channel(ws)),
{
    reveal(all_asked);
    reveal(close_channel);
    reveal(force_close_channel);
    lemma_closed_channel(ws);
}

/// Everything that is done about a line is asked for by its words, and its payments are noted in
/// full.
proof fn lemma_asked(line: Seq<char>, entropy: [u8; 32], settings: Settings)
    ensures
        all_asked(command(line, entropy, settings), words(line), entropy, settings),
        noted_in_full(command(line, entropy, settings)),
{
    reveal(command);
    let ws = words(line);
    if ws.len() == 0 {
        reveal(all_asked);
    } else {
        reveal(command_named);
        match command_named(ws[0], settings.post_quantum) {
            Command::OpenChannel => lemma_asked_open(ws, entropy, settings),
            Command::SendPayment => lemma_asked_send(ws, entropy, settings),
            Command::Keysend => lemma_asked_keysend(ws, entropy, settings),
            Command::GetInvoice => lemma_asked_invoice(ws, entropy, settings),
            Command::GetRefund => lemma_asked_refunds(ws, entropy, settings),
            Command::ClaimRefund => lemma_asked_refunds(ws, entropy, settings),
            Command::AsyncPaths => lemma_asked_async(ws, entropy, settings),
            Command::SetAsyncServer => lemma_asked_async(ws, entropy, settings),
            Command::ConnectPeerPq => lemma_asked_peers(ws, entropy, settings),
            Command::ConnectPeer => lemma_asked_peers(ws, entropy, settings),
            Command::DisconnectPeer => lemma_asked_peers(ws, entropy, settings),
            Command::CloseChannel => lemma_asked_closing(ws, entropy, settings),
            Command::ForceCloseChannel => lemma_asked_closing(ws, entropy, settings),
            Command::SignMessage => {
                reveal(all_asked);
                reveal(sign_line);
            },
            _ => {
                reveal(all_asked);
            },
        }
    }
}

/// The console does nothing that the typed line does not ask for: each request that a line leads
/// to carries the numbers, keys, channels and texts that its words spell, under the name that
/// stands first.
pub proof fn law_lines_are_followed(text: String, entropy: [u8; 32], settings: Settings, i: int)
    requires
        0 <= i < react(StateView::Ready, Event::Line { text, entropy }, settings).actions.len(),
    ensures
        asked_for(
            react(StateView::Ready, Event::Line { text, entropy }, settings).actions[i],
            words(text@),
            entropy,
            settings,
        ),
{
    lemma_asked(text@, entropy, settings);
    reveal(all_asked);
}

/// No state but the first and the one in which an offer is confirmed leads to a payment.
#[verifier::rlimit(30)]
proof fn lemma_no_payment(state: StateView, event: Event, settings: Settings)
    requires
        !(state is Ready),
        !(state is ConfirmOffer),
    ensures
        forall|i: int|
            0 <= i < react(state, event, settings).actions.len() ==> payment_made(
                #[trigger] react(state, event, settings).actions[i],
            ) is None,
{
    match state {
        State::OpenPeer { words, .. } => lemma_complaints(words.skip(3)),
        State::OpenConnected { words, .. } => lemma_complaints(words.skip(3)),
        State::OpenConnect { words, .. } => lemma_complaints(words.skip(3)),
        _ => {},
    }
}

/// Whenever the console makes a payment, what it notes of it is the amount that is paid, under the
/// identifier that it is paid under.
pub proof fn law_payments_are_noted_in_full(state: StateView, event: Event, settings: Settings)
    ensures
        noted_in_full(react(state, event, settings)),
{
    let r = react(state, event, settings);
    if state is Ready {
        match event {
            Event::Line { text, entropy } => {
                lemma_asked(text@, entropy, settings);
                assert(r == command(text@, entropy, settings));
            },
            _ => {},
        }
    } else if !(state is ConfirmOffer) {
        lemma_no_payment(state, event, settings);
        assert forall|i: int| 0 <= i < r.actions.len() implies !(#[trigger] r.actions[i] is Keysend
            || r.actions[i] is PayOffer || r.actions[i] is PayInvoice) by {
            assert(payment_made(r.actions[i]) is None);
        }
    }
}

/// Whenever a typed line makes the console pay a node or an offer, the amount that is paid and the
/// one that is noted are both the number that its third word spells.
pub proof fn law_typed_amounts_are_paid(
    text: String,
    entropy: [u8; 32],
    settings: Settings,
    i: int,
)
    requires
        0 <= i < react(StateView::Ready, Event::Line { text, entropy }, settings).actions.len(),
    ensures
        ({
            let r = react(StateView::Ready, Event::Line { text, entropy }, settings);
            let paid = match r.actions[i] {
                Action::Keysend { amt_msat, .. } => Some(amt_msat),
                Action::PayOffer { amt_msat, .. } => Some(amt_msat),
                _ => None,
            };
            paid is Some ==> {
                &&& words(text@).len() >= 3
                &&& u64_of(words(text@)[2]) == Ok::<u64, NumberError>(paid->0)
                &&& r.record matches Some(Record::OutboundPending { amt_msat, .. })
                &&& amt_msat == paid->0
            }
        }),
{
    let r = react(StateView::Ready, Event::Line { text, entropy }, settings);
    lemma_asked(text@, entropy, settings);
    assert(r == command(text@, entropy, settings));
    reveal(all_asked);
    let action = r.actions[i];
    assert(asked_for(action, words(text@), entropy, settings));
}

/// An offer that the operator agrees to is paid for the amount that was asked about, and that
/// amount is noted.
pub proof fn law_agreed_amounts_are_paid(
    offer: Seq<char>,
    amt_msat: u64,
    payment_id: [u8; 32],
    event: Event,
    settings: Settings,
    i: int,
)
    requires
        0 <= i < react(
            StateView::ConfirmOffer { offer, amt_msat, payment_id },
            event,
            settings,
        ).actions.len(),
    ensures
        ({
            let r = react(
                StateView::ConfirmOffer { offer, amt_msat, payment_id },
                event,
                settings,
            );
            payment_made(r.actions[i]) is Some ==> {
                &&& r.actions[i] == ActionView::PayOffer {
                    offer,
                    amt_msat,
                    payment_id,
                    retry_secs: 10,
                }
                &&& r.record == Some(
                    Record::OutboundPending { payment_id, payment_secret: None, amt_msat },
                )
            }
        }),
{
}

/// Each command answers to its own name, and the post-quantum one only where the node speaks the
/// extensions.
pub proof fn law_commands_answer_to_their_names(post_quantum: bool)
    ensures
        command_named("help"@, post_quantum) == Command::Help,
        command_named("openchannel"@, post_quantum) == Command::OpenChannel,
        command_named("sendpayment"@, post_quantum) == Command::SendPayment,
        command_named("keysend"@, post_quantum) == Command::Keysend,
        command_named("getoffer"@, post_quantum) == Command::GetOffer,
        command_named("getinvoice"@, post_quantum) == Command::GetInvoice,
        command_named("getrefund"@, post_quantum) == Command::GetRefund,
        command_named("claimrefund"@, post_quantum) == Command::ClaimRefund,
        command_named("asyncpaths"@, post_quantum) == Command::AsyncPaths,
        command_named("setasyncserver"@, post_quantum) == Command::SetAsyncServer,
        command_named("getasyncoffer"@, post_quantum) == Command::GetAsyncOffer,
        command_named("connectpeerpq"@, true) == Command::ConnectPeerPq,
        command_named("connectpeerpq"@, false) == Command::Unknown,
        command_named("connectpeer"@, post_quantum) == Command::ConnectPeer,
        command_named("disconnectpeer"@, post_quantum) == Command::DisconnectPeer,
        command_named("listchannels"@, post_quantum) == Command::ListChannels,
        command_named("listpayments"@, post_quantum) == Command::ListPayments,
        command_named("closechannel"@, post_quantum) == Command::CloseChannel,
        command_named("forceclosechannel"@, post_quantum) == Command::ForceCloseChannel,
        command_named("nodeinfo"@, post_quantum) == Command::NodeInfo,
        command_named("listpeers"@, post_quantum) == Command::ListPeers,
        command_named("listnodes"@, post_quantum) == Command::ListNodes,
        command_named("graphinfo"@, post_quantum) == Command::GraphInfo,
        command_named("announce"@, post_quantum) == Command::Announce,
        command_named("signmessage"@, post_quantum) == Command::SignMessage,
        command_named("quit"@, post_quantum) == Command::Quit,
        command_named("exit"@, post_quantum) == Command::Quit,
{
    reveal(command_named);
    reveal_strlit("help");
    assert("help"@.len() == 4);
    reveal_strlit("openchannel");
    assert("openchannel"@.len() == 11);
    reveal_strlit("sendpayment");
    assert("sendpayment"@.len() == 11);
    reveal_strlit("keysend");
    assert("keysend"@.len() == 7);
    reveal_strlit("getoffer");
    assert("getoffer"@.len() == 8);
    reveal_strlit("getinvoice");
    assert("getinvoice"@.len() == 10);
    reveal_strlit("getrefund");
    assert("getrefund"@.len() == 9);
    reveal_strlit("claimrefund");
    assert("claimrefund"@.len() == 11);
    reveal_strlit("asyncpaths");
    assert("asyncpaths"@.len() == 10);
    reveal_strlit("setasyncserver");
    assert("setasyncserver"@.len() == 14);
    reveal_strlit("getasyncoffer");
    assert("getasyncoffer"@.len() == 13);
    reveal_strlit("connectpeerpq");
    assert("connectpeerpq"@.len() == 13);
    reveal_strlit("connectpeer");
    assert("connectpeer"@.len() == 11);
    reveal_strlit("disconnectpeer");
    assert("disconnectpeer"@.len() == 14);
    reveal_strlit("listchannels");
    assert("listchannels"@.len() == 12);
    reveal_strlit("listpayments");
    assert("listpayments"@.len() == 12);
    reveal_strlit("closechannel");
    assert("closechannel"@.len() == 12);
    reveal_strlit("forceclosechannel");
    assert("forceclosechannel"@.len() == 17);
    reveal_strlit("nodeinfo");
    assert("nodeinfo"@.len() == 8);
    reveal_strlit("listpeers");
    assert("listpeers"@.len() == 9);
    reveal_strlit("listnodes");
    assert("listnodes"@.len() == 9);
    reveal_strlit("graphinfo");
    assert("graphinfo"@.len() == 9);
    reveal_strlit("announce");
    assert("announce"@.len() == 8);
    reveal_strlit("signmessage");
    assert("signmessage"@.len() == 11);
    reveal_strlit("quit");
    assert("quit"@.len() == 4);
    reveal_strlit("exit");
    assert("exit"@.len() == 4);
    assert("sendpayment"@[0] != "openchannel"@[0]);
    assert("claimrefund"@[0] != "openchannel"@[0]);
    assert("claimrefund"@[0] != "sendpayment"@[0]);
    assert("asyncpaths"@[0] != "getinvoice"@[0]);
    assert("connectpeerpq"@[0] != "getasyncoffer"@[0]);
    assert("connectpeer"@[0] != "openchannel"@[0]);
    assert("connectpeer"@[0] != "sendpayment"@[0]);
    assert("connectpeer"@[1] != "claimrefund"@[1]);
    assert("disconnectpeer"@[0] != "setasyncserver"@[0]);
    assert("listpayments"@[4] != "listchannels"@[4]);
    assert("closechannel"@[0] != "listchannels"@[0]);
    assert("closechannel"@[0] != "listpayments"@[0]);
    assert("nodeinfo"@[0] != "getoffer"@[0]);
    assert("listpeers"@[0] != "getrefund"@[0]);
    assert("listnodes"@[0] != "getrefund"@[0]);
    assert("listnodes"@[4] != "listpeers"@[4]);
    assert("graphinfo"@[1] != "getrefund"@[1]);
    assert("graphinfo"@[0] != "listpeers"@[0]);
    assert("graphinfo"@[0] != "listnodes"@[0]);
    assert("announce"@[0] != "getoffer"@[0]);
    assert("announce"@[0] != "nodeinfo"@[0]);
    assert("signmessage"@[0] != "openchannel"@[0]);
    assert("signmessage"@[1] != "sendpayment"@[1]);
    assert("signmessage"@[0] != "claimrefund"@[0]);
    assert("signmessage"@[0] != "connectpeer"@[0]);
    assert("quit"@[0] != "help"@[0]);
    assert("exit"@[0] != "help"@[0]);
    assert("exit"@[0] != "quit"@[0]);
}

/// Sending a typed amount to a typed key pays exactly that amount to exactly that node, under the
/// hash of a fresh preimage, and notes it before it is paid.
pub proof fn law_keysend_pays_what_is_typed(
    text: String,
    entropy: [u8; 32],
    settings: Settings,
    dest: [u8; 33],
    amt_msat: u64,
)
    requires
        words(text@).len() >= 3,
        words(text@)[0] == "keysend"@,
        spells_key(words(text@)[1], dest),
        u64_of(words(text@)[2]) == Ok::<u64, NumberError>(amt_msat),
    ensures
        ({
            let r = react(StateView::Ready, Event::Line { text, entropy }, settings);
            let payment_id = sha256(entropy@);
            &&& r.record == Some(
                Record::OutboundPending { payment_id, payment_secret: None, amt_msat },
            )
            &&& r.state == StateView::Sending { payment_id, amt_msat, payee: dest }
            &&& r.actions == seq![
                ActionView::SaveOutbound,
                ActionView::Keysend {
                    dest,
                    amt_msat,
                    preimage: entropy,
                    payment_id,
                    final_cltv_delta: 40,
                    allow_mpp: false,
                    retry_secs: 10,
                },
            ]
        }),
{
    law_commands_answer_to_their_names(settings.post_quantum);
    reveal(command);
    reveal(keysend);
}

/// What is noted of an invoice that has been made.
proof fn lemma_invoice_flow(
    amt_msat: u64,
    invoice: String,
    payment_hash: [u8; 32],
    payment_secret: [u8; 32],
    settings: Settings,
)
    ensures
        ({
            let made = react(
                StateView::CreateInvoice { amt_msat },
                Event::Invoice { text: invoice, payment_hash, payment_secret },
                settings,
            );
            &&& made.state == StateView::Ready
            &&& made.record == Some(
                Record::InboundPending {
                    payment_hash,
                    payment_secret: Some(payment_secret),
                    amt_msat,
                },
            )
            &&& made.actions == seq![
                ActionView::Print("SUCCESS: generated invoice: "@ + invoice@),
                ActionView::SaveInbound,
                ActionView::Inline("> "@),
            ]
        }),
{
    let made = react(
        StateView::CreateInvoice { amt_msat },
        Event::Invoice { text: invoice, payment_hash, payment_secret },
        settings,
    );
    assert(made.actions =~= seq![
        ActionView::Print("SUCCESS: generated invoice: "@ + invoice@),
        ActionView::SaveInbound,
        ActionView::Inline("> "@),
    ]);
}

/// An invoice is asked for with the typed amount and the typed expiry; once it is there, the
/// payment is expected under its hash, with its secret and with the typed amount.
#[verifier::rlimit(30)]
pub proof fn law_invoices_are_for_what_is_typed(
    text: String,
    entropy: [u8; 32],
    settings: Settings,
    amt_msat: u64,
    expiry_secs: u32,
    invoice: String,
    payment_hash: [u8; 32],
    payment_secret: [u8; 32],
)
    requires
        words(text@).len() == 3 || words(text@).len() >= 4 && settings.post_quantum && words(
            text@,
        )[3] == "--pq-omit-pubkey"@,
        words(text@)[0] == "getinvoice"@,
        u64_of(words(text@)[1]) == Ok::<u64, NumberError>(amt_msat),
        u32_of(words(text@)[2]) == Ok::<u32, NumberError>(expiry_secs),
    ensures
        ({
            let asked = react(StateView::Ready, Event::Line { text, entropy }, settings);
            let made = react(
                asked.state,
                Event::Invoice { text: invoice, payment_hash, payment_secret },
                settings,
            );
            &&& asked.record is None
            &&& asked.actions == seq![
                ActionView::CreateInvoice {
                    amt_msat,
                    expiry_secs,
                    pq_omit_pubkey: words(text@).len() >= 4,
                },
            ]
            &&& made.state == StateView::Ready
            &&& made.record == Some(
                Record::InboundPending {
                    payment_hash,
                    payment_secret: Some(payment_secret),
                    amt_msat,
                },
            )
            &&& made.actions == seq![
                ActionView::Print("SUCCESS: generated invoice: "@ + invoice@),
                ActionView::SaveInbound,
                ActionView::Inline("> "@),
            ]
        }),
{
    let asked = react(StateView::Ready, Event::Line { text, entropy }, settings);
    assert(asked == command(text@, entropy, settings));
    assert(asked == ask(
        StateView::CreateInvoice { amt_msat },
        ActionView::CreateInvoice {
            amt_msat,
            expiry_secs,
            pq_omit_pubkey: words(text@).len() >= 4,
        },
    )) by {
        law_commands_answer_to_their_names(settings.post_quantum);
        reveal(command);
        reveal(get_invoice);
    }
    lemma_invoice_flow(amt_msat, invoice, payment_hash, payment_secret, settings);
}

/// How a refund comes about once it has begun.
proof fn lemma_refund_flow(
    amt_msat: u64,
    payment_id: [u8; 32],
    refund: String,
    settings: Settings,
)
    ensures
        react(StateView::StartRefund { amt_msat, payment_id }, Event::Done, settings) == ask(
            StateView::BuildRefund { amt_msat, payment_id },
            ActionView::BuildRefund,
        ),
        ({
            let built = react(
                StateView::BuildRefund { amt_msat, payment_id },
                Event::Text(refund),
                settings,
            );
            &&& built.record == Some(
                Record::OutboundPending { payment_id, payment_secret: None, amt_msat },
            )
            &&& built.state == StateView::Ready
            &&& built.actions == seq![
                ActionView::SaveOutbound,
                ActionView::Print("SUCCESS: generated refund, we will pay the invoice it draws"@),
                ActionView::Print(refund@),
                ActionView::Inline("> "@),
            ]
        }),
{
    let built = react(
        StateView::BuildRefund { amt_msat, payment_id },
        Event::Text(refund),
        settings,
    );
    assert(built.actions =~= seq![
        ActionView::SaveOutbound,
        ActionView::Print("SUCCESS: generated refund, we will pay the invoice it draws"@),
        ActionView::Print(refund@),
        ActionView::Inline("> "@),
    ]);
}

/// A refund is built for the typed amount and the typed time; once it is there, a payment of that
/// amount is noted under the identifier that the refund was built with.
#[verifier::rlimit(30)]
pub proof fn law_refunds_are_for_what_is_typed(
    text: String,
    entropy: [u8; 32],
    settings: Settings,
    amt_msat: u64,
    lifetime_secs: u64,
    refund: String,
)
    requires
        words(text@).len() >= 3,
        words(text@)[0] == "getrefund"@,
        u64_of(words(text@)[1]) == Ok::<u64, NumberError>(amt_msat),
        u64_of(words(text@)[2]) == Ok::<u64, NumberError>(lifetime_secs),
    ensures
        ({
            let asked = react(StateView::Ready, Event::Line { text, entropy }, settings);
            let started = react(asked.state, Event::Done, settings);
            let built = react(started.state, Event::Text(refund), settings);
            &&& asked.actions == seq![
                ActionView::StartRefund {
                    amt_msat,
                    lifetime_secs,
                    payment_id: entropy,
                    retry_secs: 10,
                },
            ]
            &&& started.actions == seq![ActionView::BuildRefund]
            &&& asked.record is None && started.record is None
            &&& built.record == Some(
                Record::OutboundPending { payment_id: entropy, payment_secret: None, amt_msat },
            )
            &&& built.state == StateView::Ready
            &&& built.actions == seq![
                ActionView::SaveOutbound,
                ActionView::Print("SUCCESS: generated refund, we will pay the invoice it draws"@),
                ActionView::Print(refund@),
                ActionView::Inline("> "@),
            ]
        }),
{
    let asked = react(StateView::Ready, Event::Line { text, entropy }, settings);
    assert(asked == ask(
        StateView::StartRefund { amt_msat, payment_id: entropy },
        ActionView::StartRefund { amt_msat, lifetime_secs, payment_id: entropy, retry_secs: 10 },
    )) by {
        law_commands_answer_to_their_names(settings.post_quantum);
        reveal(command);
        reveal(get_refund);
    }
    lemma_refund_flow(amt_msat, entropy, refund, settings);
}

/// A channel is read exactly if 32 bytes and a public key are spelled, and what is missing or
/// wrong first is complained about.
pub proof fn law_channels_are_read(ws: Seq<Seq<char>>, channel_id: [u8; 32], peer: [u8; 33])
    ensures
        closed_channel(ws) == Ok::<_, CloseError>((channel_id, peer)) <==> {
            &&& ws.len() >= 3
            &&& hex_bytes(ws[1]) == Some(channel_id@)
            &&& hex_bytes(ws[2]) is Some
            &&& public_key_of(hex_bytes(ws[2])->0) == Some(peer)
        },
        closed_channel(ws) == Err::<([u8; 32], [u8; 33]), _>(CloseError::MissingChannel)
            <==> ws.len() < 2,
        closed_channel(ws) == Err::<([u8; 32], [u8; 33]), _>(CloseError::BadChannel) <==> ws.len()
            >= 2 && (hex_bytes(ws[1]) is None || hex_bytes(ws[1])->0.len() != 32),
        closed_channel(ws) == Err::<([u8; 32], [u8; 33]), _>(CloseError::MissingPeer) ==> ws.len()
            == 2,
{
    lemma_closed_channel(ws);
    lemma_array32(channel_id);
}

/// The channel that is read is the one that is typed, with the peer that is typed behind it.
pub proof fn law_typed_channels_are_read(
    ws: Seq<Seq<char>>,
    channel_id: [u8; 32],
    peer: [u8; 33],
)
    requires
        public_key_of(peer@) == Some(peer),
        ws.len() >= 3,
        ws[1] == hex_text(channel_id@),
        ws[2] == hex_text(peer@),
    ensures
        closed_channel(ws) == Ok::<_, CloseError>((channel_id, peer)),
{
    law_hex_round_trip(channel_id@);
    law_hex_round_trip(peer@);
    lemma_array32(channel_id);
}

/// The channel that is closed is the one that is typed: what is shown of a channel and of its peer
/// can be typed behind `closechannel` as it is.
pub proof fn law_typed_channels_are_closed(
    text: String,
    entropy: [u8; 32],
    settings: Settings,
    channel_id: [u8; 32],
    peer: [u8; 33],
)
    requires
        public_key_of(peer@) == Some(peer),
        words(text@).len() >= 3,
        words(text@)[0] == "closechannel"@,
        words(text@)[1] == hex_text(channel_id@),
        words(text@)[2] == hex_text(peer@),
    ensures
        react(StateView::Ready, Event::Line { text, entropy }, settings) == ask(
            StateView::Close,
            ActionView::CloseChannel { channel_id, peer },
        ),
{
    law_commands_answer_to_their_names(settings.post_quantum);
    law_typed_channels_are_read(words(text@), channel_id, peer);
    reveal(command);
    reveal(close_channel);
}

/// The same channel is closed by force where that is asked for.
pub proof fn law_typed_channels_are_force_closed(
    text: String,
    entropy: [u8; 32],
    settings: Settings,
    channel_id: [u8; 32],
    peer: [u8; 33],
)
    requires
        public_key_of(peer@) == Some(peer),
        words(text@).len() >= 3,
        words(text@)[0] == "forceclosechannel"@,
        words(text@)[1] == hex_text(channel_id@),
        words(text@)[2] == hex_text(peer@),
    ensures
        react(StateView::Ready, Event::Line { text, entropy }, settings) == ask(
            StateView::ForceClose,
            ActionView::ForceCloseChannel { channel_id, peer, reason: "Manually force-closed"@ },
        ),
{
    law_commands_answer_to_their_names(settings.post_quantum);
    law_typed_channels_are_read(words(text@), channel_id, peer);
    reveal(command);
    reveal(force_close_channel);
}

/// A typed recipient is given paths, a typed refund is claimed, and the lists are shown to whoever
/// types their names.
#[verifier::rlimit(30)]
pub proof fn law_plain_commands_are_obeyed(text: String, entropy: [u8; 32], settings: Settings)
    requires
        words(text@).len() >= 1,
    ensures
        ({
            let ws = words(text@);
            let r = react(StateView::Ready, Event::Line { text, entropy }, settings);
            &&& ws[0] == "asyncpaths"@ && ws.len() >= 2 ==> r == ask(
                StateView::AsyncPaths,
                ActionView::AsyncPaths(encode_utf8(ws[1])),
            )
            &&& ws[0] == "claimrefund"@ && ws.len() >= 2 && bolt12_refund_fault(ws[1]) is None
                ==> r == ask(StateView::ClaimRefund, ActionView::ClaimRefund(ws[1]))
            &&& ws[0] == "getoffer"@ ==> r == ask(
                StateView::StartOffer { words: ws },
                ActionView::StartOffer,
            )
            &&& ws[0] == "getasyncoffer"@ ==> r == ask(
                StateView::GetAsyncOffer,
                ActionView::GetAsyncOffer,
            )
            &&& ws[0] == "announce"@ ==> r == ask(StateView::Announce, ActionView::FindAnnounced)
            &&& ws[0] == "help"@ ==> r.actions[0] == ActionView::Report(Report::Help)
            &&& ws[0] == "listchannels"@ ==> r.actions[0] == ActionView::Report(Report::Channels)
            &&& ws[0] == "listpayments"@ ==> r.actions[0] == ActionView::Report(Report::Payments)
            &&& ws[0] == "nodeinfo"@ ==> r.actions[0] == ActionView::Report(Report::Node)
            &&& ws[0] == "listpeers"@ ==> r.actions[0] == ActionView::Report(Report::Peers)
            &&& ws[0] == "listnodes"@ ==> r.actions[0] == ActionView::Report(Report::Nodes)
            &&& ws[0] == "graphinfo"@ ==> r.actions[0] == ActionView::Report(Report::Graph)
            &&& r.state == StateView::Stopped <==> ws[0] == "quit"@ || ws[0] == "exit"@
        }),
{
    law_commands_answer_to_their_names(settings.post_quantum);
    lemma_command(text@, entropy, settings);
    reveal(lawful);
    reveal(command);
    reveal(command_named);
    reveal(async_paths);
    reveal(claim_refund);
}

/// A peer to disconnect is the one that is typed.
pub proof fn law_typed_peers_are_disconnected(
    text: String,
    entropy: [u8; 32],
    settings: Settings,
    key: [u8; 33],
    channel_peers: Vec<[u8; 33]>,
)
    requires
        words(text@).len() >= 2,
        words(text@)[0] == "disconnectpeer"@,
        spells_key(words(text@)[1], key),
    ensures
        ({
            let asked = react(StateView::Ready, Event::Line { text, entropy }, settings);
            let found = react(
                asked.state,
                Event::Channels { peers: channel_peers, connected: true },
                settings,
            );
            &&& asked.actions == seq![ActionView::FindChannels(key)]
            &&& !channel_peers@.contains(key) ==> found.actions[0] == ActionView::Disconnect(key)
        }),
{
    law_commands_answer_to_their_names(settings.post_quantum);
    reveal(command);
    reveal(disconnect_peer);
}

/// Whether a setting is on at the end of some words: it is switched on by one of two words, with
/// none behind that switches it off.
pub open spec fn switched_on(
    ws: Seq<Seq<char>>,
    on: Seq<char>,
    also_on: Seq<char>,
    off: Seq<char>,
) -> bool {
    exists|k: int|
        0 <= k < ws.len() && (#[trigger] ws[k] == on || ws[k] == also_on) && (forall|j: int|
            k < j < ws.len() ==> #[trigger] ws[j] != off)
}

/// Whether a word is one of the settings of a channel.
pub open spec fn is_setting(word: Seq<char>) -> bool {
    ||| word == "--public"@
    ||| word == "--public=true"@
    ||| word == "--public=false"@
    ||| word == "--with-anchors"@
    ||| word == "--with-anchors=true"@
    ||| word == "--with-anchors=false"@
}

/// The words for the settings of a channel are all different.
proof fn lemma_settings_differ()
    ensures
        "--public"@ != "--public=false"@,
        "--public=true"@ != "--public=false"@,
        "--with-anchors"@ != "--public"@,
        "--with-anchors"@ != "--public=true"@,
        "--with-anchors"@ != "--public=false"@,
        "--with-anchors=true"@ != "--public"@,
        "--with-anchors=true"@ != "--public=true"@,
        "--with-anchors=true"@ != "--public=false"@,
        "--with-anchors=false"@ != "--public"@,
        "--with-anchors=false"@ != "--public=true"@,
        "--with-anchors=false"@ != "--public=false"@,
        "--with-anchors"@ != "--with-anchors=false"@,
        "--with-anchors=true"@ != "--with-anchors=false"@,
{
    reveal_strlit("--public");
    reveal_strlit("--public=true");
    reveal_strlit("--public=false");
    reveal_strlit("--with-anchors");
    reveal_strlit("--with-anchors=true");
    reveal_strlit("--with-anchors=false");
    assert("--public"@.len() == 8);
    assert("--public=true"@.len() == 13);
    assert("--public=false"@.len() == 14);
    assert("--with-anchors"@.len() == 14);
    assert("--with-anchors=true"@.len() == 19);
    assert("--with-anchors=false"@.len() == 20);
    assert("--with-anchors"@[2] != "--public=false"@[2]);
}

/// How the settings of a channel depend on the words for them.
proof fn lemma_settings(flags: Seq<Seq<char>>)
    ensures
        is_public(flags) == switched_on(
            flags,
            "--public"@,
            "--public=true"@,
            "--public=false"@,
        ),
        has_anchors(flags) == switched_on(
            flags,
            "--with-anchors"@,
            "--with-anchors=true"@,
            "--with-anchors=false"@,
        ),
        flag_complaints(flags).len() == flags.filter(|w: Seq<char>| !is_setting(w)).len(),
    decreases flags.len(),
{
    lemma_settings_differ();
    reveal(Seq::filter);
    if flags.len() > 0 {
        let before = flags.drop_last();
        lemma_settings(before);
        lemma_switched(flags, "--public"@, "--public=true"@, "--public=false"@);
        lemma_switched(flags, "--with-anchors"@, "--with-anchors=true"@, "--with-anchors=false"@);
    }
}

/// The last word for a setting decides.
proof fn lemma_switched(ws: Seq<Seq<char>>, on: Seq<char>, also_on: Seq<char>, off: Seq<char>)
    requires
        ws.len() > 0,
        on != off,
        also_on != off,
    ensures
        switched_on(ws, on, also_on, off) == (if ws.last() == on || ws.last() == also_on {
            true
        } else if ws.last() == off {
            false
        } else {
            switched_on(ws.drop_last(), on, also_on, off)
        }),
{
    let before = ws.drop_last();
    let n = ws.len() - 1;
    assert(ws[n] == ws.last());
    assert(forall|k: int| 0 <= k < n ==> before[k] == ws[k]);
    if ws.last() == on || ws.last() == also_on {
        assert(switched_on(ws, on, also_on, off));
    } else if switched_on(ws, on, also_on, off) {
        let k = choose|k: int|
            0 <= k < ws.len() && (#[trigger] ws[k] == on || ws[k] == also_on) && (forall|j: int|
                k < j < ws.len() ==> #[trigger] ws[j] != off);
        assert(k < n);
        assert(before[k] == ws[k]);
    } else if ws.last() != off && switched_on(before, on, also_on, off) {
        let k = choose|k: int|
            0 <= k < before.len() && (#[trigger] before[k] == on || before[k] == also_on) && (
            forall|j: int| k < j < before.len() ==> #[trigger] before[j] != off);
        assert(ws[k] == before[k]);
    }
}

/// A channel is opened with the peer that was named and for the amount that was typed. It is
/// announced only if the operator asks for that behind the amount, it has anchors only if the
/// operator asks for those, and nothing is given away. Each word that is no setting is complained
/// about once.
#[verifier::rlimit(30)]
pub proof fn law_channels_open_as_asked(
    state: StateView,
    event: Event,
    settings: Settings,
    i: int,
)
    requires
        0 <= i < react(state, event, settings).actions.len(),
        react(state, event, settings).actions[i] is OpenChannel,
    ensures
        ({
            let r = react(state, event, settings);
            let ws = match state {
                State::OpenPeer { words, .. } => words,
                State::OpenConnected { words, .. } => words,
                State::OpenConnect { words, .. } => words,
                _ => seq![],
            };
            let peer = match state {
                State::OpenPeer { pubkey, .. } => Some(pubkey),
                State::OpenConnected { pubkey, .. } => Some(pubkey),
                State::OpenConnect { pubkey, .. } => Some(pubkey),
                _ => None,
            };
            let terms = r.actions[i]->terms;
            let behind = ws.skip(3);
            &&& peer == Some(r.actions[i]->OpenChannel_peer)
            &&& u64_of(ws[2]) == Ok::<u64, NumberError>(terms.value_sat)
            &&& terms.announce_for_forwarding == switched_on(
                behind,
                "--public"@,
                "--public=true"@,
                "--public=false"@,
            )
            &&& terms.with_anchors == switched_on(
                behind,
                "--with-anchors"@,
                "--with-anchors=true"@,
                "--with-anchors=false"@,
            )
            &&& terms.their_to_self_delay == 2016
            &&& terms.push_msat == 0
            &&& terms.user_channel_id == 0
            &&& i == behind.filter(|w: Seq<char>| !is_setting(w)).len()
            &&& r.actions.len() == i + 1
        }),
{
    match event {
        Event::Line { text, entropy } => {
            lemma_asked(text@, entropy, settings);
            reveal(all_asked);
        },
        _ => {},
    }
    match state {
        State::OpenPeer { words, .. } => {
            lemma_complaints(words.skip(3));
            lemma_settings(words.skip(3));
        },
        State::OpenConnected { words, .. } => {
            lemma_complaints(words.skip(3));
            lemma_settings(words.skip(3));
        },
        State::OpenConnect { words, .. } => {
            lemma_complaints(words.skip(3));
            lemma_settings(words.skip(3));
        },
        _ => {},
    }
}

/// A channel whose words ask for nothing more stays unannounced and without anchors, and one that
/// is asked for is opened.
pub proof fn law_channels_are_private_unless_asked(
    pubkey: [u8; 33],
    ws: Seq<Seq<char>>,
    value_sat: u64,
)
    requires
        ws.len() >= 3,
        u64_of(ws[2]) == Ok::<u64, NumberError>(value_sat),
    ensures
        ({
            let r = open_connected(pubkey, ws);
            &&& r.state == StateView::OpenCreate { pubkey }
            &&& r.actions.last() matches Action::OpenChannel { peer, terms }
            &&& peer == pubkey
            &&& terms.value_sat == value_sat
            &&& !ws.skip(3).contains("--public"@) && !ws.skip(3).contains("--public=true"@)
                ==> !terms.announce_for_forwarding
            &&& (ws.skip(3).contains("--public"@) || ws.skip(3).contains("--public=true"@))
                && !ws.skip(3).contains("--public=false"@) ==> terms.announce_for_forwarding
            &&& !ws.skip(3).contains("--with-anchors"@) && !ws.skip(3).contains(
                "--with-anchors=true"@,
            ) ==> !terms.with_anchors
            &&& (ws.skip(3).contains("--with-anchors"@) || ws.skip(3).contains(
                "--with-anchors=true"@,
            )) && !ws.skip(3).contains("--with-anchors=false"@) ==> terms.with_anchors
        }),
{
    lemma_settings(ws.skip(3));
}

/// A key in hexadecimal, an `@` and a host name that key and that host.
pub(crate) proof fn lemma_named_peer(
    word: Seq<char>,
    hex: Seq<char>,
    key: [u8; 33],
    host: Seq<char>,
)
    requires
        spells_key(hex, key),
        !host.contains('@'),
        word == hex + "@"@ + host,
    ensures
        peer_pubkey(word) == Some(key),
        peer_host(word) == Some(host),
{
    reveal_strlit("@");
    assert(forall|i: int| 0 <= i < hex.len() ==> is_hex_digit(#[trigger] hex[i]));
    assert forall|i: int| 0 <= i < hex.len() implies #[trigger] word[i] != '@' by {
        assert(word[i] == hex[i]);
    }
    lemma_first_index_unique(word, '@', hex.len());
    assert(word.take(hex.len() as int) =~= hex);
    let rest = word.skip(hex.len() as int + 1);
    assert(rest =~= host);
    lemma_first_index_unique(rest, '@', rest.len());
    assert(rest.take(rest.len() as int) =~= host);
}

/// A key in hexadecimal alone names that key and no host.
proof fn lemma_named_key(hex: Seq<char>, key: [u8; 33])
    requires
        spells_key(hex, key),
    ensures
        peer_pubkey(hex) == Some(key),
        peer_host(hex) is None,
{
    assert(forall|i: int| 0 <= i < hex.len() ==> is_hex_digit(#[trigger] hex[i]));
    lemma_first_index_unique(hex, '@', hex.len());
    assert(hex.take(hex.len() as int) =~= hex);
}

/// A key is read exactly if it is spelled in its compressed form.
pub proof fn law_keys_are_read(word: Seq<char>, key: [u8; 33])
    ensures
        compressed_pubkey(word) == Some(key) <==> spells_key(word, key),
        peer_pubkey(word) == Some(key) ==> names_peer(word, key),
{
    lemma_first_index(word, '@');
    let n = first_index(word, '@') as int;
    assert(word.take(n) == word.take(n));
}

/// The hexadecimal text of a key spells that key.
pub proof fn law_shown_keys_are_spelled(key: [u8; 33])
    requires
        public_key_of(key@) == Some(key),
    ensures
        spells_key(hex_text(key@), key),
{
    law_hex_round_trip(key@);
}

/// A channel with a peer that is named by its key alone is opened if the peer is connected, and
/// with no other peer.
pub proof fn law_connected_peers_get_channels(
    text: String,
    entropy: [u8; 32],
    settings: Settings,
    key: [u8; 33],
)
    requires
        words(text@).len() >= 3,
        words(text@)[0] == "openchannel"@,
        spells_key(words(text@)[1], key),
    ensures
        ({
            let asked = react(StateView::Ready, Event::Line { text, entropy }, settings);
            let found = react(asked.state, Event::Peer(true), settings);
            let lost = react(asked.state, Event::Peer(false), settings);
            &&& asked.actions == seq![ActionView::FindPeer(key)]
            &&& found == open_connected(key, words(text@))
            &&& lost.state == StateView::Ready
            &&& lost.actions[0] == ActionView::Print(
                "ERROR: Peer address not provided and peer is not connected"@,
            )
        }),
{
    let asked = react(StateView::Ready, Event::Line { text, entropy }, settings);
    assert(asked == ask(
        StateView::OpenPeer { pubkey: key, words: words(text@) },
        ActionView::FindPeer(key),
    )) by {
        law_commands_answer_to_their_names(settings.post_quantum);
        lemma_named_key(words(text@)[1], key);
        reveal(command);
        reveal(open_channel);
    }
}

/// How a channel comes about once the host of the peer has been resolved.
proof fn lemma_open_flow(ws: Seq<Seq<char>>, key: [u8; 33], addr: String, settings: Settings)
    requires
        peer_pubkey(ws[1]) == Some(key),
        peer_host(ws[1]) is Some,
    ensures
        ({
            let checking = StateView::OpenConnected { pubkey: key, addr: addr@, words: ws };
            let dialling = StateView::OpenConnect { pubkey: key, words: ws };
            &&& react(
                StateView::OpenAddress { words: ws },
                Event::Address(Some(addr)),
                settings,
            ) == ask(checking, ActionView::FindPeer(key))
            &&& react(checking, Event::Peer(true), settings) == open_connected(key, ws)
            &&& react(checking, Event::Peer(false), settings) == ask(
                dialling,
                ActionView::Connect { pubkey: key, addr: addr@ },
            )
            &&& react(dialling, Event::Connected(true), settings) == open_connected(key, ws)
        }),
{
}

/// A channel with a peer that is named by its key and its host is opened with that peer: the host
/// is resolved, the peer is connected under the address that came of it unless it is connected
/// already, and the channel is opened with it.
#[verifier::rlimit(30)]
pub proof fn law_named_peers_get_channels(
    text: String,
    entropy: [u8; 32],
    settings: Settings,
    hex: Seq<char>,
    key: [u8; 33],
    host: Seq<char>,
    addr: String,
)
    requires
        spells_key(hex, key),
        !host.contains('@'),
        words(text@).len() >= 3,
        words(text@)[0] == "openchannel"@,
        words(text@)[1] == hex + "@"@ + host,
    ensures
        ({
            let asked = react(StateView::Ready, Event::Line { text, entropy }, settings);
            let resolved = react(asked.state, Event::Address(Some(addr)), settings);
            let found = react(resolved.state, Event::Peer(true), settings);
            let away = react(resolved.state, Event::Peer(false), settings);
            let connected = react(away.state, Event::Connected(true), settings);
            &&& asked.actions == seq![ActionView::Resolve(host)]
            &&& resolved.actions == seq![ActionView::FindPeer(key)]
            &&& found == open_connected(key, words(text@))
            &&& away.actions == seq![ActionView::Connect { pubkey: key, addr: addr@ }]
            &&& connected == open_connected(key, words(text@))
        }),
{
    let ws = words(text@);
    let asked = react(StateView::Ready, Event::Line { text, entropy }, settings);
    lemma_named_peer(ws[1], hex, key, host);
    assert(asked == ask(StateView::OpenAddress { words: ws }, ActionView::Resolve(host))) by {
        law_commands_answer_to_their_names(settings.post_quantum);
        reveal(command);
        reveal(open_channel);
    }
    lemma_open_flow(ws, key, addr, settings);
    let checking = StateView::OpenConnected { pubkey: key, addr: addr@, words: ws };
    let resolved = react(asked.state, Event::Address(Some(addr)), settings);
    assert(resolved == ask(checking, ActionView::FindPeer(key)));
    let away = react(resolved.state, Event::Peer(false), settings);
    assert(away.state == StateView::OpenConnect { pubkey: key, words: ws });
}

/// How a connection comes about once the host of the peer has been resolved.
proof fn lemma_peer_flow(ws: Seq<Seq<char>>, key: [u8; 33], addr: String, settings: Settings)
    requires
        peer_pubkey(ws[1]) == Some(key),
        peer_host(ws[1]) is Some,
    ensures
        ({
            let done = ActionView::Print("SUCCESS: connected to peer "@ + hex_text(key@));
            let checking = StateView::PeerConnected { pubkey: key, addr: addr@ };
            let dialling = StateView::PeerConnect { pubkey: key };
            &&& react(
                StateView::PeerAddress { words: ws },
                Event::Address(Some(addr)),
                settings,
            ) == ask(checking, ActionView::FindPeer(key))
            &&& react(checking, Event::Peer(true), settings).actions == seq![
                done,
                ActionView::Inline("> "@),
            ]
            &&& react(checking, Event::Peer(false), settings) == ask(
                dialling,
                ActionView::Connect { pubkey: key, addr: addr@ },
            )
            &&& react(dialling, Event::Connected(true), settings).actions == seq![
                done,
                ActionView::Inline("> "@),
            ]
        }),
{
    let done = ActionView::Print("SUCCESS: connected to peer "@ + hex_text(key@));
    assert(seq![done].push(ActionView::Inline("> "@)) =~= seq![done, ActionView::Inline("> "@)]);
}

/// A peer that is named by its key and its host is connected: the host is resolved, and unless the
/// peer is connected already, it is connected under the address that came of it.
#[verifier::rlimit(30)]
pub proof fn law_named_peers_are_connected(
    text: String,
    entropy: [u8; 32],
    settings: Settings,
    hex: Seq<char>,
    key: [u8; 33],
    host: Seq<char>,
    addr: String,
)
    requires
        spells_key(hex, key),
        !host.contains('@'),
        words(text@).len() >= 2,
        words(text@)[0] == "connectpeer"@,
        words(text@)[1] == hex + "@"@ + host,
    ensures
        ({
            let asked = react(StateView::Ready, Event::Line { text, entropy }, settings);
            let resolved = react(asked.state, Event::Address(Some(addr)), settings);
            let found = react(resolved.state, Event::Peer(true), settings);
            let away = react(resolved.state, Event::Peer(false), settings);
            let connected = react(away.state, Event::Connected(true), settings);
            let done = ActionView::Print("SUCCESS: connected to peer "@ + hex_text(key@));
            &&& asked.actions == seq![ActionView::Resolve(host)]
            &&& resolved.actions == seq![ActionView::FindPeer(key)]
            &&& found.actions == seq![done, ActionView::Inline("> "@)]
            &&& away.actions == seq![ActionView::Connect { pubkey: key, addr: addr@ }]
            &&& connected.actions == seq![done, ActionView::Inline("> "@)]
        }),
{
    let ws = words(text@);
    let asked = react(StateView::Ready, Event::Line { text, entropy }, settings);
    lemma_named_peer(ws[1], hex, key, host);
    assert(asked == ask(StateView::PeerAddress { words: ws }, ActionView::Resolve(host))) by {
        law_commands_answer_to_their_names(settings.post_quantum);
        reveal(command);
        reveal(connect_peer);
    }
    lemma_peer_flow(ws, key, addr, settings);
    let checking = StateView::PeerConnected { pubkey: key, addr: addr@ };
    let resolved = react(asked.state, Event::Address(Some(addr)), settings);
    assert(resolved == ask(checking, ActionView::FindPeer(key)));
    let away = react(resolved.state, Event::Peer(false), settings);
    assert(away.state == StateView::PeerConnect { pubkey: key });
}

/// How a post-quantum connection comes about once the host of the peer has been resolved.
proof fn lemma_pq_flow(
    ws: Seq<Seq<char>>,
    key: [u8; 33],
    addr: String,
    kem_key: Seq<u8>,
    pin: Option<Vec<u8>>,
    settings: Settings,
)
    requires
        ws.len() >= 3,
        peer_pubkey(ws[1]) == Some(key),
        peer_host(ws[1]) is Some,
        ws[2] == hex_text(kem_key),
        kem_key.len() == settings.kem_key_len,
    ensures
        ({
            let used = match pin {
                Some(pinned) => pinned@,
                None => kem_key,
            };
            let pinning = StateView::PqPin { pubkey: key, addr: addr@, named: Some(ws[2]) };
            let checking = StateView::PqConnected { pubkey: key, addr: addr@, kem_key: used };
            &&& react(
                StateView::PqAddress { words: ws },
                Event::Address(Some(addr)),
                settings,
            ) == ask(pinning, ActionView::FindPin(key))
            &&& react(pinning, Event::Pin(pin), settings) == ask(
                checking,
                ActionView::FindPeer(key),
            )
            &&& react(checking, Event::Peer(false), settings).actions == seq![
                ActionView::ConnectPq { pubkey: key, addr: addr@, kem_key: used },
            ]
        }),
{
    law_hex_round_trip(kem_key);
}

/// Where no key is typed, none is taken for one: the peer is connected with the key that is
/// pinned, or else the operator is asked for one.
pub proof fn law_keys_are_not_made_up(
    ws: Seq<Seq<char>>,
    key: [u8; 33],
    addr: String,
    pin: Vec<u8>,
    settings: Settings,
)
    requires
        ws.len() == 2,
        peer_pubkey(ws[1]) == Some(key),
        peer_host(ws[1]) is Some,
    ensures
        ({
            let resolved = react(
                StateView::PqAddress { words: ws },
                Event::Address(Some(addr)),
                settings,
            );
            let unpinned = react(resolved.state, Event::Pin(None), settings);
            let pinned = react(resolved.state, Event::Pin(Some(pin)), settings);
            &&& resolved.state == StateView::PqPin { pubkey: key, addr: addr@, named: None }
            &&& unpinned.state == StateView::Ready
            &&& unpinned.actions[0] == ActionView::Print(
                "ERROR: no ML-KEM key pinned for peer from gossip, pass kem_key_hex explicitly"@,
            )
            &&& pinned.state == StateView::PqConnected { pubkey: key, addr: addr@, kem_key: pin@ }
        }),
{
}

/// A post-quantum connection goes to the peer that is named, under the address of its host, with
/// the key that is pinned or else the one that is typed.
#[verifier::rlimit(30)]
pub proof fn law_named_peers_are_connected_with_their_key(
    text: String,
    entropy: [u8; 32],
    settings: Settings,
    hex: Seq<char>,
    key: [u8; 33],
    host: Seq<char>,
    addr: String,
    kem_key: Seq<u8>,
    pin: Option<Vec<u8>>,
)
    requires
        settings.post_quantum,
        spells_key(hex, key),
        !host.contains('@'),
        words(text@).len() >= 3,
        words(text@)[0] == "connectpeerpq"@,
        words(text@)[1] == hex + "@"@ + host,
        words(text@)[2] == hex_text(kem_key),
        kem_key.len() == settings.kem_key_len,
    ensures
        ({
            let asked = react(StateView::Ready, Event::Line { text, entropy }, settings);
            let resolved = react(asked.state, Event::Address(Some(addr)), settings);
            let pinned = react(resolved.state, Event::Pin(pin), settings);
            let away = react(pinned.state, Event::Peer(false), settings);
            &&& asked.actions == seq![ActionView::Resolve(host)]
            &&& resolved.actions == seq![ActionView::FindPin(key)]
            &&& pinned.actions == seq![ActionView::FindPeer(key)]
            &&& away.actions == seq![
                ActionView::ConnectPq {
                    pubkey: key,
                    addr: addr@,
                    kem_key: match pin {
                        Some(pinned) => pinned@,
                        None => kem_key,
                    },
                },
            ]
        }),
{
    let ws = words(text@);
    let asked = react(StateView::Ready, Event::Line { text, entropy }, settings);
    lemma_named_peer(ws[1], hex, key, host);
    assert(asked == ask(StateView::PqAddress { words: ws }, ActionView::Resolve(host))) by {
        law_commands_answer_to_their_names(settings.post_quantum);
        reveal(command);
        reveal(connect_peer_pq);
    }
    lemma_pq_flow(ws, key, addr, kem_key, pin, settings);
}

} // verus!
