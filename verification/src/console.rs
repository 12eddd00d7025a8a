//! The console as a whole: how it goes on with a command when what it asked for has come.

use crate::actions::{
    action_views, answer, answering, ask, asking, byte_strings, finish, finishing, ignore,
    no_actions, one_action, prompt, push_action, Action, ActionView, ConsoleAction, ConsoleState,
    Event, Reaction, ReactionView, Record, State, StateView,
};
use crate::commands::{
    answer_quoted, ask_to_confirm, async_paths, claim_refund, close_channel, command,
    confirm_question, connect_peer, connect_peer_pq, disconnect_peer, finish_open_channel,
    force_close_channel, get_invoice, get_refund, keysend, open_channel, open_connected,
    pay_offer_now, quoted, run_command, send_payment, set_async_server, sign_line,
    start_pay_offer_now, stop, Settings,
};
use crate::hex::{hex_bytes, hex_str, hex_text, to_vec};
use crate::payment_table::{
    failed_payment, pending_payment, InboundPaymentInfoStorage, OutboundPaymentInfoStorage,
};
use crate::payments::PaymentInfo;
use crate::peers::{any_announced, contains_key, parse_peer_info, peer_info};
use crate::startup::{copy_from, NODE_RGB};
use crate::text::{decimal, decimal_text, parse_u64, text2, text3, text4, text5, texts, u64_of};
use vstd::prelude::*;
use vstd::string::*;

verus! {

/// The text that an optional string holds.
pub open spec fn optional_text(s: Option<String>) -> Option<Seq<char>> {
    match s {
        Some(s) => Some(s@),
        None => None,
    }
}

/// What is said once something is done, or why it could not be done.
pub open spec fn tell(
    state: StateView,
    event: Event,
    done: Seq<char>,
    failed: Seq<char>,
) -> ReactionView {
    match event {
        Event::Done => answer(done),
        Event::Failed(e) => answer(failed + e@),
        _ => ignore(state),
    }
}

/// What is shown once something has come, or why it has not come.
pub open spec fn show(state: StateView, event: Event, failed: Seq<char>) -> ReactionView {
    match event {
        Event::Text(t) => answer(t@),
        Event::Failed(e) => answer(failed + e@),
        _ => ignore(state),
    }
}

/// Changes nothing.
fn ignoring(state: ConsoleState) -> (r: Reaction)
    ensures
        r@ == ignore(state@),
{
    let r: Reaction = Reaction { state, record: None, actions: no_actions() };
    assert(r@.actions =~= seq![]);
    r
}

/// Says that something is done, or why not.
fn telling(state: ConsoleState, event: Event, done: &str, failed: &str) -> (r: Reaction)
    ensures
        r@ == tell(state@, event, done@, failed@),
{
    match event {
        Event::Done => answering(done.to_owned()),
        Event::Failed(e) => answering(text2(failed, e.as_str())),
        _ => ignoring(state),
    }
}

/// Shows what has come, or says why it has not.
fn showing(state: ConsoleState, event: Event, failed: &str) -> (r: Reaction)
    ensures
        r@ == show(state@, event, failed@),
{
    match event {
        Event::Text(t) => answering(t),
        Event::Failed(e) => answering(text2(failed, e.as_str())),
        _ => ignoring(state),
    }
}

/// Whether a line begins with a letter.
pub open spec fn begins_with(line: Seq<char>, c: char) -> bool {
    line.len() > 0 && line[0] == c
}

/// How the operator's answer is taken when an offer is to be paid: `Y` pays it, `N` does not, and
/// anything else repeats the question.
pub open spec fn confirm_offer(
    offer: Seq<char>,
    amt_msat: u64,
    payment_id: [u8; 32],
    line: Seq<char>,
) -> ReactionView {
    if begins_with(line, 'Y') {
        pay_offer_now(offer, amt_msat, payment_id)
    } else if begins_with(line, 'N') {
        finish(seq![])
    } else {
        ask(State::ConfirmOffer { offer, amt_msat, payment_id }, confirm_question(amt_msat))
    }
}

/// Takes the operator's answer when an offer is to be paid.
fn take_confirmation(offer: String, amt_msat: u64, payment_id: [u8; 32], line: &str) -> (r: Reaction)
    ensures
        r@ == confirm_offer(offer@, amt_msat, payment_id, line@),
{
    let cs: Vec<char> = crate::text::chars_of(line);
    if cs.len() > 0 && cs[0] == 'Y' {
        start_pay_offer_now(offer, amt_msat, payment_id)
    } else if cs.len() > 0 && cs[0] == 'N' {
        finishing(no_actions())
    } else {
        ask_to_confirm(offer, amt_msat, payment_id)
    }
}

/// The end of the operator's input ends the console, with a line that says why.
pub open spec fn end_of_input() -> ReactionView {
    stop(seq![Action::Print("ERROR: End of stdin"@)])
}

/// A line that cannot be read ends the console, with a line that says why.
pub open spec fn input_failed(e: Seq<char>) -> ReactionView {
    stop(seq![Action::Print("ERROR: "@ + e)])
}

/// Ends the console.
fn stopping(line: String) -> (r: Reaction)
    ensures
        r@ == stop(seq![Action::Print(line@)]),
{
    Reaction { state: State::Stopped, record: None, actions: one_action(Action::Print(line)) }
}

/// How `openchannel` goes on once the host of the peer has been resolved.
pub open spec fn open_resolved(ws: Seq<Seq<char>>, addr: Option<Seq<char>>) -> ReactionView {
    match peer_info(ws[1], addr) {
        Err(e) => answer(quoted(e.text())),
        Ok(peer) => ask(
            State::OpenConnected { pubkey: peer.0, addr: peer.1, words: ws },
            Action::FindPeer(peer.0),
        ),
    }
}

/// Goes on to open a channel once the host of the peer has been resolved.
fn open_with_address(ws: Vec<String>, addr: Option<String>) -> (r: Reaction)
    requires
        ws@.len() >= 2,
    ensures
        r@ == open_resolved(texts(ws@), optional_text(addr)),
{
    match parse_peer_info(ws[1].as_str(), addr) {
        Err(e) => answer_quoted(e.message().as_str()),
        Ok(peer) => asking(
            State::OpenConnected { pubkey: peer.0, addr: peer.1, words: ws },
            Action::FindPeer(peer.0),
        ),
    }
}

/// The line when a connection has failed.
pub open spec fn not_connected() -> ReactionView {
    answer("ERROR: failed to connect to peer"@)
}

/// How `getoffer` goes on once the offer has begun.
pub open spec fn offer_started(ws: Seq<Seq<char>>) -> ReactionView {
    if ws.len() < 2 {
        ask(State::BuildOffer, Action::BuildOffer(None))
    } else {
        match u64_of(ws[1]) {
            Ok(amt) => ask(State::BuildOffer, Action::BuildOffer(Some(amt))),
            Err(_) => answer("ERROR: getoffer provided payment amount was not a number"@),
        }
    }
}

/// Goes on with an offer that has begun.
fn go_on_with_offer(ws: &Vec<String>) -> (r: Reaction)
    ensures
        r@ == offer_started(texts(ws@)),
{
    if ws.len() < 2 {
        return asking(State::BuildOffer, Action::BuildOffer(None));
    }
    match parse_u64(ws[1].as_str()) {
        Ok(amt) => asking(State::BuildOffer, Action::BuildOffer(Some(amt))),
        Err(_) => answering("ERROR: getoffer provided payment amount was not a number".to_owned()),
    }
}

/// What is said of a payment that is on its way.
pub open spec fn sending(amt_msat: u64, payee: [u8; 33]) -> Seq<char> {
    "EVENT: initiated sending "@ + decimal_text(amt_msat as nat) + " msats to "@ + hex_text(payee@)
}

/// How a payment to a node ends: it is on its way, or it is noted as failed and the note is
/// saved.
pub open spec fn payment_sent(
    payment_id: [u8; 32],
    amt_msat: u64,
    payee: [u8; 33],
    event: Event,
) -> ReactionView {
    match event {
        Event::Done => finish(
            seq![Action::Print(sending(amt_msat, payee)), Action::Inline("> "@)],
        ),
        Event::Failed(e) => ReactionView {
            record: Some(Record::OutboundFailed { payment_id }),
            ..finish(
                seq![
                    Action::Print("ERROR: failed to send payment: "@ + e@),
                    Action::Inline("> "@),
                    Action::SaveOutbound,
                ],
            )
        },
        _ => ignore(State::Sending { payment_id, amt_msat, payee }),
    }
}

/// Ends a payment to a node.
fn end_payment(payment_id: [u8; 32], amt_msat: u64, payee: [u8; 33], event: Event) -> (r: Reaction)
    ensures
        r@ == payment_sent(payment_id, amt_msat, payee, event),
{
    match event {
        Event::Done => {
            let line: String = text4(
                "EVENT: initiated sending ",
                decimal(amt_msat).as_str(),
                " msats to ",
                hex_str(payee.as_slice()).as_str(),
            );
            let mut actions: Vec<ConsoleAction> = one_action(Action::Print(line));
            push_action(&mut actions, Action::Inline("> ".to_owned()));
            assert(action_views(actions@) =~= seq![
                Action::Print(sending(amt_msat, payee)),
                Action::Inline("> "@),
            ]);
            finishing(actions)
        },
        Event::Failed(e) => {
            let ghost said = "ERROR: failed to send payment: "@ + e@;
            let line: String = text2("ERROR: failed to send payment: ", e.as_str());
            let mut actions: Vec<ConsoleAction> = one_action(Action::Print(line));
            push_action(&mut actions, Action::Inline("> ".to_owned()));
            push_action(&mut actions, Action::SaveOutbound);
            assert(action_views(actions@) =~= seq![
                Action::Print(said),
                Action::Inline("> "@),
                Action::SaveOutbound,
            ]);
            let ended: Reaction = finishing(actions);
            Reaction {
                state: ended.state,
                record: Some(Record::OutboundFailed { payment_id }),
                actions: ended.actions,
            }
        },
        _ => ignoring(State::Sending { payment_id, amt_msat, payee }),
    }
}

/// How `getinvoice` ends: the payment is noted as expected under its hash. What is remembered of
/// inbound payments is saved either way.
pub open spec fn invoice_created(amt_msat: u64, event: Event) -> ReactionView {
    match event {
        Event::Invoice { text, payment_hash, payment_secret } => ReactionView {
            record: Some(
                Record::InboundPending {
                    payment_hash,
                    payment_secret: Some(payment_secret),
                    amt_msat,
                },
            ),
            ..finish(
                seq![
                    Action::Print("SUCCESS: generated invoice: "@ + text@),
                    Action::SaveInbound,
                ],
            )
        },
        Event::Failed(e) => finish(
            seq![Action::Print("ERROR: failed to create invoice: "@ + e@), Action::SaveInbound],
        ),
        _ => ignore(State::CreateInvoice { amt_msat }),
    }
}

/// A line, and then the inbound payments are saved.
fn print_and_save_inbound(line: String) -> (r: Reaction)
    ensures
        r@ == finish(seq![Action::Print(line@), Action::SaveInbound]),
{
    let mut actions: Vec<ConsoleAction> = one_action(Action::Print(line));
    push_action(&mut actions, Action::SaveInbound);
    assert(action_views(actions@) =~= seq![Action::Print(line@), Action::SaveInbound]);
    finishing(actions)
}

/// Ends the creation of an invoice.
fn end_invoice(amt_msat: u64, event: Event) -> (r: Reaction)
    ensures
        r@ == invoice_created(amt_msat, event),
{
    match event {
        Event::Invoice { text, payment_hash, payment_secret } => {
            let ended: Reaction = print_and_save_inbound(
                text2("SUCCESS: generated invoice: ", text.as_str()),
            );
            Reaction {
                state: ended.state,
                record: Some(
                    Record::InboundPending {
                        payment_hash,
                        payment_secret: Some(payment_secret),
                        amt_msat,
                    },
                ),
                actions: ended.actions,
            }
        },
        Event::Failed(e) => print_and_save_inbound(
            text2("ERROR: failed to create invoice: ", e.as_str()),
        ),
        _ => ignoring(State::CreateInvoice { amt_msat }),
    }
}

/// How `getrefund` ends: the payment is noted, the note is saved, and the refund is shown.
pub open spec fn refund_built(amt_msat: u64, payment_id: [u8; 32], event: Event) -> ReactionView {
    match event {
        Event::Text(refund) => ReactionView {
            record: Some(
                Record::OutboundPending { payment_id, payment_secret: None, amt_msat },
            ),
            ..finish(
                seq![
                    Action::SaveOutbound,
                    Action::Print(
                        "SUCCESS: generated refund, we will pay the invoice it draws"@,
                    ),
                    Action::Print(refund@),
                ],
            )
        },
        Event::Failed(e) => answer("ERROR: Failed to build refund: "@ + e@),
        _ => ignore(State::BuildRefund { amt_msat, payment_id }),
    }
}

/// Ends the creation of a refund.
fn end_refund(amt_msat: u64, payment_id: [u8; 32], event: Event) -> (r: Reaction)
    ensures
        r@ == refund_built(amt_msat, payment_id, event),
{
    match event {
        Event::Text(refund) => {
            let mut actions: Vec<ConsoleAction> = one_action(Action::SaveOutbound);
            push_action(
                &mut actions,
                Action::Print(
                    "SUCCESS: generated refund, we will pay the invoice it draws".to_owned(),
                ),
            );
            push_action(&mut actions, Action::Print(refund));
            assert(action_views(actions@) =~= seq![
                Action::SaveOutbound,
                Action::Print("SUCCESS: generated refund, we will pay the invoice it draws"@),
                Action::Print(refund@),
            ]);
            let ended: Reaction = finishing(actions);
            Reaction {
                state: ended.state,
                record: Some(
                    Record::OutboundPending { payment_id, payment_secret: None, amt_msat },
                ),
                actions: ended.actions,
            }
        },
        Event::Failed(e) => answering(text2("ERROR: Failed to build refund: ", e.as_str())),
        _ => ignoring(State::BuildRefund { amt_msat, payment_id }),
    }
}

/// How `claimrefund` ends: the payment is noted as expected, the note is saved, and the operator
/// is told.
pub open spec fn refund_claimed(event: Event) -> ReactionView {
    match event {
        Event::RefundClaimed { payment_hash, amt_msat } => ReactionView {
            record: Some(
                Record::InboundPending { payment_hash, payment_secret: None, amt_msat },
            ),
            ..finish(
                seq![
                    Action::SaveInbound,
                    Action::Print(
                        "SUCCESS: sent invoice for refund of "@ + decimal_text(amt_msat as nat)
                            + " msat with payment hash "@ + hex_text(payment_hash@)
                            + ", awaiting payment"@,
                    ),
                ],
            )
        },
        Event::Failed(e) => answer("ERROR: failed to request refund payment: "@ + e@),
        _ => ignore(State::ClaimRefund),
    }
}

/// Ends the claim of a refund.
fn end_claim(event: Event) -> (r: Reaction)
    ensures
        r@ == refund_claimed(event),
{
    match event {
        Event::RefundClaimed { payment_hash, amt_msat } => {
            let line: String = text5(
                "SUCCESS: sent invoice for refund of ",
                decimal(amt_msat).as_str(),
                " msat with payment hash ",
                hex_str(payment_hash.as_slice()).as_str(),
                ", awaiting payment",
            );
            let mut actions: Vec<ConsoleAction> = one_action(Action::SaveInbound);
            push_action(&mut actions, Action::Print(line));
            assert(action_views(actions@) =~= seq![Action::SaveInbound, Action::Print(line@)]);
            let ended: Reaction = finishing(actions);
            Reaction {
                state: ended.state,
                record: Some(
                    Record::InboundPending { payment_hash, payment_secret: None, amt_msat },
                ),
                actions: ended.actions,
            }
        },
        Event::Failed(e) => answering(
            text2("ERROR: failed to request refund payment: ", e.as_str()),
        ),
        _ => ignoring(State::ClaimRefund),
    }
}

/// Byte strings in hexadecimal, with a space between each two.
pub open spec fn joined_hex(paths: Seq<Seq<u8>>) -> Seq<char>
    decreases paths.len(),
{
    if paths.len() == 0 {
        seq![]
    } else if paths.len() == 1 {
        hex_text(paths[0])
    } else {
        joined_hex(paths.drop_last()) + " "@ + hex_text(paths.last())
    }
}

/// Writes byte strings in hexadecimal.
fn join_hex(paths: &Vec<Vec<u8>>) -> (r: String)
    ensures
        r@ == joined_hex(byte_strings(paths@)),
{
    let mut out: String = String::new();
    let mut i: usize = 0;
    let ghost all = byte_strings(paths@);
    assert(all.take(0) =~= Seq::<Seq<u8>>::empty());
    while i < paths.len()
        invariant
            i <= paths@.len(),
            all == byte_strings(paths@),
            out@ == joined_hex(all.take(i as int)),
        decreases paths.len() - i,
    {
        let hex: String = hex_str(paths[i].as_slice());
        proof {
            assert(all.take(i + 1).drop_last() =~= all.take(i as int));
            assert(all.take(i + 1).last() == paths@[i as int]@);
        }
        if i == 0 {
            out = hex;
        } else {
            out.append(" ");
            out.append(hex.as_str());
        }
        i = i + 1;
    }
    assert(all.take(i as int) =~= all);
    out
}

/// How `asyncpaths` ends.
pub open spec fn paths_created(event: Event) -> ReactionView {
    match event {
        Event::Paths(paths) => finish(
            seq![
                Action::Print(
                    "SUCCESS: paths for the async recipient to hand to `setasyncserver`:"@,
                ),
                Action::Print(joined_hex(byte_strings(paths@))),
            ],
        ),
        Event::Failed(_) => answer(
            "ERROR: failed to create async recipient paths, do we have connected peers?"@,
        ),
        _ => ignore(State::AsyncPaths),
    }
}

/// Ends the creation of paths.
fn end_paths(event: Event) -> (r: Reaction)
    ensures
        r@ == paths_created(event),
{
    match event {
        Event::Paths(paths) => {
            let mut actions: Vec<ConsoleAction> = one_action(
                Action::Print(
                    "SUCCESS: paths for the async recipient to hand to `setasyncserver`:".to_owned(),
                ),
            );
            push_action(&mut actions, Action::Print(join_hex(&paths)));
            assert(action_views(actions@) =~= seq![
                Action::Print(
                    "SUCCESS: paths for the async recipient to hand to `setasyncserver`:"@,
                ),
                Action::Print(joined_hex(byte_strings(paths@))),
            ]);
            finishing(actions)
        },
        Event::Failed(_) => answering(
            "ERROR: failed to create async recipient paths, do we have connected peers?".to_owned(),
        ),
        _ => ignoring(State::AsyncPaths),
    }
}

/// The encapsulation key that a word spells out in hexadecimal, if it has the right length.
pub open spec fn kem_key_of(word: Seq<char>, len: usize) -> Option<Seq<u8>> {
    match hex_bytes(word) {
        Some(bytes) => if bytes.len() == len {
            Some(bytes)
        } else {
            None
        },
        None => None,
    }
}

/// How `connectpeerpq` goes on once the host of the peer has been resolved: it asks for the
/// encapsulation key that gossip has pinned, and remembers the one that the operator names.
pub open spec fn pq_resolved(ws: Seq<Seq<char>>, addr: Option<Seq<char>>) -> ReactionView {
    match peer_info(ws[1], addr) {
        Err(e) => answer(quoted(e.text())),
        Ok(peer) => ask(
            State::PqPin {
                pubkey: peer.0,
                addr: peer.1,
                named: if ws.len() < 3 {
                    None
                } else {
                    Some(ws[2])
                },
            },
            Action::FindPin(peer.0),
        ),
    }
}

/// Goes on with a post-quantum connection once the host of the peer has been resolved.
fn pq_with_address(ws: &Vec<String>, addr: Option<String>) -> (r: Reaction)
    requires
        ws@.len() >= 2,
    ensures
        r@ == pq_resolved(texts(ws@), optional_text(addr)),
{
    let peer: ([u8; 33], String) = match parse_peer_info(ws[1].as_str(), addr) {
        Err(e) => return answer_quoted(e.message().as_str()),
        Ok(peer) => peer,
    };
    let named: Option<String> = if ws.len() < 3 {
        None
    } else {
        Some(ws[2].clone())
    };
    asking(State::PqPin { pubkey: peer.0, addr: peer.1, named }, Action::FindPin(peer.0))
}

/// How `connectpeerpq` goes on once it is known which key gossip has pinned, if any: with that
/// key, or, where the peer is not pinned yet, with the one that the operator names.
pub open spec fn pq_pinned(
    pubkey: [u8; 33],
    addr: Seq<char>,
    named: Option<Seq<char>>,
    pin: Option<Seq<u8>>,
    kem_key_len: usize,
) -> ReactionView {
    match (pin, named) {
        (Some(kem_key), _) => ask(
            State::PqConnected { pubkey, addr, kem_key },
            Action::FindPeer(pubkey),
        ),
        (None, Some(word)) => match kem_key_of(word, kem_key_len) {
            Some(kem_key) => ask(
                State::PqConnected { pubkey, addr, kem_key },
                Action::FindPeer(pubkey),
            ),
            None => answer("ERROR: couldn't parse kem_key_hex as an ML-KEM encapsulation key"@),
        },
        (None, None) => answer(
            "ERROR: no ML-KEM key pinned for peer from gossip, pass kem_key_hex explicitly"@,
        ),
    }
}

/// What some bytes are, where there are any.
pub open spec fn optional_bytes(bytes: Option<Vec<u8>>) -> Option<Seq<u8>> {
    match bytes {
        Some(bytes) => Some(bytes@),
        None => None,
    }
}

/// Goes on with a post-quantum connection once it is known which key gossip has pinned.
fn pq_with_pin(
    pubkey: [u8; 33],
    addr: String,
    named: Option<String>,
    pin: Option<Vec<u8>>,
    kem_key_len: usize,
) -> (r: Reaction)
    ensures
        r@ == pq_pinned(pubkey, addr@, optional_text(named), optional_bytes(pin), kem_key_len),
{
    let kem_key: Vec<u8> = match pin {
        Some(key) => key,
        None => match named {
            Some(word) => {
                let key: Vec<u8> = match to_vec(word.as_str()) {
                    Some(key) => key,
                    None => return answering(
                        "ERROR: couldn't parse kem_key_hex as an ML-KEM encapsulation key".to_owned(),
                    ),
                };
                if key.len() != kem_key_len {
                    return answering(
                        "ERROR: couldn't parse kem_key_hex as an ML-KEM encapsulation key".to_owned(),
                    );
                }
                key
            },
            None => return answering(
                "ERROR: no ML-KEM key pinned for peer from gossip, pass kem_key_hex explicitly".to_owned(),
            ),
        },
    };
    asking(State::PqConnected { pubkey, addr, kem_key }, Action::FindPeer(pubkey))
}

/// How `connectpeer` goes on once the host of the peer has been resolved.
pub open spec fn peer_resolved(ws: Seq<Seq<char>>, addr: Option<Seq<char>>) -> ReactionView {
    match peer_info(ws[1], addr) {
        Err(e) => answer(quoted(e.text())),
        Ok(peer) => ask(
            State::PeerConnected { pubkey: peer.0, addr: peer.1 },
            Action::FindPeer(peer.0),
        ),
    }
}

/// Goes on to connect to a peer once its host has been resolved.
fn peer_with_address(ws: &Vec<String>, addr: Option<String>) -> (r: Reaction)
    requires
        ws@.len() >= 2,
    ensures
        r@ == peer_resolved(texts(ws@), optional_text(addr)),
{
    match parse_peer_info(ws[1].as_str(), addr) {
        Err(e) => answer_quoted(e.message().as_str()),
        Ok(peer) => asking(
            State::PeerConnected { pubkey: peer.0, addr: peer.1 },
            Action::FindPeer(peer.0),
        ),
    }
}

/// What is said of a connection.
pub open spec fn connected_to(pubkey: [u8; 33]) -> ReactionView {
    answer("SUCCESS: connected to peer "@ + hex_text(pubkey@))
}

/// Says that the peer is connected.
fn say_connected(pubkey: &[u8; 33]) -> (r: Reaction)
    ensures
        r@ == connected_to(*pubkey),
{
    answering(text2("SUCCESS: connected to peer ", hex_str(pubkey.as_slice()).as_str()))
}

/// How `disconnectpeer` ends: a peer that has a channel stays connected, a peer that is not
/// connected cannot be disconnected, and any other is disconnected.
pub open spec fn disconnect(
    pubkey: [u8; 33],
    channel_peers: Seq<[u8; 33]>,
    connected: bool,
) -> ReactionView {
    if channel_peers.contains(pubkey) {
        answer("Error: Node has an active channel with this peer, close any channels first"@)
    } else if !connected {
        answer("Error: Could not find peer "@ + hex_text(pubkey@))
    } else {
        finish(
            seq![
                Action::Disconnect(pubkey),
                Action::Print("SUCCESS: disconnected from peer "@ + hex_text(pubkey@)),
            ],
        )
    }
}

/// Disconnects a peer, or says why not.
pub fn do_disconnect_peer(
    pubkey: [u8; 33],
    channel_peers: &Vec<[u8; 33]>,
    connected: bool,
) -> (r: Reaction)
    ensures
        r@ == disconnect(pubkey, channel_peers@, connected),
{
    if contains_key(channel_peers, &pubkey) {
        return answering(
            "Error: Node has an active channel with this peer, close any channels first".to_owned(),
        );
    }
    let hex: String = hex_str(pubkey.as_slice());
    if !connected {
        return answering(text2("Error: Could not find peer ", hex.as_str()));
    }
    let mut actions: Vec<ConsoleAction> = one_action(Action::Disconnect(pubkey));
    push_action(
        &mut actions,
        Action::Print(text2("SUCCESS: disconnected from peer ", hex.as_str())),
    );
    assert(action_views(actions@) =~= seq![
        Action::Disconnect(pubkey),
        Action::Print("SUCCESS: disconnected from peer "@ + hex_text(pubkey@)),
    ]);
    finishing(actions)
}

/// How `announce` ends: the announcement goes out only if some channel is announced.
pub open spec fn announce(announced: Seq<bool>, settings: Settings) -> ReactionView {
    if announced.contains(true) {
        finish(
            seq![
                Action::Broadcast {
                    rgb: NODE_RGB,
                    alias: settings.announced_node_name,
                    addresses: texts(settings.announced_addresses@),
                },
                Action::Print("SUCCESS: broadcast node announcement"@),
            ],
        )
    } else {
        answer("ERROR: no announced channels, the announcement would not relay"@)
    }
}

/// Announces the node, or says why not.
fn end_announce(announced: &Vec<bool>, settings: &Settings) -> (r: Reaction)
    ensures
        r@ == announce(announced@, *settings),
{
    if any_announced(announced) {
        let mut actions: Vec<ConsoleAction> = one_action(
            Action::Broadcast {
                rgb: NODE_RGB,
                alias: settings.announced_node_name,
                addresses: copy_from(&settings.announced_addresses, 0),
            },
        );
        push_action(
            &mut actions,
            Action::Print("SUCCESS: broadcast node announcement".to_owned()),
        );
        assert(texts(settings.announced_addresses@).skip(0) =~= texts(
            settings.announced_addresses@,
        ));
        assert(action_views(actions@) =~= seq![
            Action::Broadcast {
                rgb: NODE_RGB,
                alias: settings.announced_node_name,
                addresses: texts(settings.announced_addresses@),
            },
            Action::Print("SUCCESS: broadcast node announcement"@),
        ]);
        finishing(actions)
    } else {
        answering("ERROR: no announced channels, the announcement would not relay".to_owned())
    }
}

/// What the console does with an event in a state. An event that the state does not wait for
/// changes nothing.
pub open spec fn react(state: StateView, event: Event, settings: Settings) -> ReactionView {
    match state {
        State::Ready => match event {
            Event::Line { text, entropy } => command(text@, entropy, settings),
            Event::EndOfInput => end_of_input(),
            Event::InputFailed(e) => input_failed(e@),
            _ => ignore(state),
        },
        State::ConfirmOffer { offer, amt_msat, payment_id } => match event {
            Event::Line { text, entropy } => confirm_offer(offer, amt_msat, payment_id, text@),
            Event::EndOfInput => end_of_input(),
            Event::InputFailed(e) => input_failed(e@),
            _ => ignore(state),
        },
        State::Stopped => ignore(state),
        State::OpenPeer { pubkey, words } => match event {
            Event::Peer(true) => open_connected(pubkey, words),
            Event::Peer(false) => answer(
                "ERROR: Peer address not provided and peer is not connected"@,
            ),
            _ => ignore(state),
        },
        State::OpenAddress { words } => match event {
            Event::Address(addr) => open_resolved(words, optional_text(addr)),
            _ => ignore(state),
        },
        State::OpenConnected { pubkey, addr, words } => match event {
            Event::Peer(true) => open_connected(pubkey, words),
            Event::Peer(false) => ask(
                State::OpenConnect { pubkey, words },
                Action::Connect { pubkey, addr },
            ),
            _ => ignore(state),
        },
        State::OpenConnect { pubkey, words } => match event {
            Event::Connected(true) => open_connected(pubkey, words),
            Event::Connected(false) => not_connected(),
            _ => ignore(state),
        },
        State::OpenCreate { pubkey } => tell(
            state,
            event,
            "EVENT: initiated channel with peer "@ + hex_text(pubkey@) + ". "@,
            "ERROR: failed to open channel: "@,
        ),
        State::PayOffer => match event {
            Event::Done => answer("Payment in flight"@),
            Event::Failed(e) => answer("ERROR: Failed to pay: Err("@ + e@ + ")"@),
            _ => ignore(state),
        },
        State::Sending { payment_id, amt_msat, payee } => payment_sent(
            payment_id,
            amt_msat,
            payee,
            event,
        ),
        State::StartOffer { words } => match event {
            Event::Done => offer_started(words),
            Event::Failed(e) => answer("ERROR: Failed to initiate offer building: "@ + e@),
            _ => ignore(state),
        },
        State::BuildOffer => show(state, event, "ERROR: Failed to build offer: "@),
        State::CreateInvoice { amt_msat } => invoice_created(amt_msat, event),
        State::StartRefund { amt_msat, payment_id } => match event {
            Event::Done => ask(State::BuildRefund { amt_msat, payment_id }, Action::BuildRefund),
            Event::Failed(e) => answer("ERROR: Failed to initiate refund building: "@ + e@),
            _ => ignore(state),
        },
        State::BuildRefund { amt_msat, payment_id } => refund_built(amt_msat, payment_id, event),
        State::ClaimRefund => refund_claimed(event),
        State::AsyncPaths => paths_created(event),
        State::SetServerPaths => match event {
            Event::Done => answer(
                "SUCCESS: static invoice server paths set, building an async receive offer with the server"@,
            ),
            Event::Failed(_) => answer("ERROR: failed to set static invoice server paths"@),
            _ => ignore(state),
        },
        State::GetAsyncOffer => match event {
            Event::Text(offer) => answer(offer@),
            Event::Failed(_) => answer(
                "ERROR: no async receive offer ready yet, run `setasyncserver` and wait for the server exchange"@,
            ),
            _ => ignore(state),
        },
        State::PqAddress { words } => match event {
            Event::Address(addr) => pq_resolved(words, optional_text(addr)),
            _ => ignore(state),
        },
        State::PqPin { pubkey, addr, named } => match event {
            Event::Pin(pin) => pq_pinned(
                pubkey,
                addr,
                named,
                optional_bytes(pin),
                settings.kem_key_len,
            ),
            _ => ignore(state),
        },
        State::PqConnected { pubkey, addr, kem_key } => match event {
            Event::Peer(true) => answer(
                "ERROR: already connected to peer "@ + hex_text(pubkey@) + ", disconnect first"@,
            ),
            Event::Peer(false) => ask(
                State::PqConnect { pubkey },
                Action::ConnectPq { pubkey, addr, kem_key },
            ),
            _ => ignore(state),
        },
        State::PqConnect { pubkey } => match event {
            Event::Connected(true) => answer(
                "SUCCESS: connected to peer "@ + hex_text(pubkey@)
                    + " over post-quantum transport"@,
            ),
            Event::Connected(false) => answer(
                "ERROR: failed to connect to peer over post-quantum transport"@,
            ),
            _ => ignore(state),
        },
        State::PeerAddress { words } => match event {
            Event::Address(addr) => peer_resolved(words, optional_text(addr)),
            _ => ignore(state),
        },
        State::PeerConnected { pubkey, addr } => match event {
            Event::Peer(true) => connected_to(pubkey),
            Event::Peer(false) => ask(
                State::PeerConnect { pubkey },
                Action::Connect { pubkey, addr },
            ),
            _ => ignore(state),
        },
        State::PeerConnect { pubkey } => match event {
            Event::Connected(true) => connected_to(pubkey),
            Event::Connected(false) => not_connected(),
            _ => ignore(state),
        },
        State::Disconnect { pubkey } => match event {
            Event::Channels { peers, connected } => disconnect(pubkey, peers@, connected),
            _ => ignore(state),
        },
        State::Close => tell(
            state,
            event,
            "EVENT: initiating channel close"@,
            "ERROR: failed to close channel: "@,
        ),
        State::ForceClose => tell(
            state,
            event,
            "EVENT: initiating channel force-close"@,
            "ERROR: failed to force-close channel: "@,
        ),
        State::Announce => match event {
            Event::Announced(announced) => announce(announced@, settings),
            _ => ignore(state),
        },
    }
}

/// Whether a state holds the words that its command needs.
pub open spec fn state_wf(state: StateView) -> bool {
    match state {
        State::OpenPeer { words, .. } => words.len() >= 3,
        State::OpenAddress { words } => words.len() >= 3,
        State::OpenConnected { words, .. } => words.len() >= 3,
        State::OpenConnect { words, .. } => words.len() >= 3,
        State::PqAddress { words } => words.len() >= 2,
        State::PeerAddress { words } => words.len() >= 2,
        _ => true,
    }
}

/// Does with an event what the state calls for.
pub fn reaction(state: ConsoleState, event: Event, settings: &Settings) -> (r: Reaction)
    requires
        state_wf(state@),
    ensures
        r@ == react(state@, event, *settings),
{
    match state {
        State::Ready => match event {
            Event::Line { text, entropy } => run_command(text.as_str(), entropy, settings),
            Event::EndOfInput => stopping("ERROR: End of stdin".to_owned()),
            Event::InputFailed(e) => stopping(text2("ERROR: ", e.as_str())),
            _ => ignoring(State::Ready),
        },
        State::ConfirmOffer { offer, amt_msat, payment_id } => match event {
            Event::Line { text, entropy } => take_confirmation(
                offer,
                amt_msat,
                payment_id,
                text.as_str(),
            ),
            Event::EndOfInput => stopping("ERROR: End of stdin".to_owned()),
            Event::InputFailed(e) => stopping(text2("ERROR: ", e.as_str())),
            _ => ignoring(State::ConfirmOffer { offer, amt_msat, payment_id }),
        },
        State::Stopped => ignoring(State::Stopped),
        State::OpenPeer { pubkey, words } => match event {
            Event::Peer(found) => {
                if found {
                    finish_open_channel(pubkey, &words)
                } else {
                    answering(
                        "ERROR: Peer address not provided and peer is not connected".to_owned(),
                    )
                }
            },
            _ => ignoring(State::OpenPeer { pubkey, words }),
        },
        State::OpenAddress { words } => match event {
            Event::Address(addr) => open_with_address(words, addr),
            _ => ignoring(State::OpenAddress { words }),
        },
        State::OpenConnected { pubkey, addr, words } => match event {
            Event::Peer(found) => {
                if found {
                    finish_open_channel(pubkey, &words)
                } else {
                    asking(
                        State::OpenConnect { pubkey, words },
                        Action::Connect { pubkey, addr },
                    )
                }
            },
            _ => ignoring(State::OpenConnected { pubkey, addr, words }),
        },
        State::OpenConnect { pubkey, words } => match event {
            Event::Connected(ok) => {
                if ok {
                    finish_open_channel(pubkey, &words)
                } else {
                    answering("ERROR: failed to connect to peer".to_owned())
                }
            },
            _ => ignoring(State::OpenConnect { pubkey, words }),
        },
        State::OpenCreate { pubkey } => {
            let done: String = text3(
                "EVENT: initiated channel with peer ",
                hex_str(pubkey.as_slice()).as_str(),
                ". ",
            );
            telling(
                State::OpenCreate { pubkey },
                event,
                done.as_str(),
                "ERROR: failed to open channel: ",
            )
        },
        State::PayOffer => match event {
            Event::Done => answering("Payment in flight".to_owned()),
            Event::Failed(e) => answering(text3("ERROR: Failed to pay: Err(", e.as_str(), ")")),
            _ => ignoring(State::PayOffer),
        },
        State::Sending { payment_id, amt_msat, payee } => end_payment(
            payment_id,
            amt_msat,
            payee,
            event,
        ),
        State::StartOffer { words } => match event {
            Event::Done => go_on_with_offer(&words),
            Event::Failed(e) => answering(
                text2("ERROR: Failed to initiate offer building: ", e.as_str()),
            ),
            _ => ignoring(State::StartOffer { words }),
        },
        State::BuildOffer => showing(State::BuildOffer, event, "ERROR: Failed to build offer: "),
        State::CreateInvoice { amt_msat } => end_invoice(amt_msat, event),
        State::StartRefund { amt_msat, payment_id } => match event {
            Event::Done => asking(
                State::BuildRefund { amt_msat, payment_id },
                Action::BuildRefund,
            ),
            Event::Failed(e) => answering(
                text2("ERROR: Failed to initiate refund building: ", e.as_str()),
            ),
            _ => ignoring(State::StartRefund { amt_msat, payment_id }),
        },
        State::BuildRefund { amt_msat, payment_id } => end_refund(amt_msat, payment_id, event),
        State::ClaimRefund => end_claim(event),
        State::AsyncPaths => end_paths(event),
        State::SetServerPaths => match event {
            Event::Done => answering(
                "SUCCESS: static invoice server paths set, building an async receive offer with the server".to_owned(),
            ),
            Event::Failed(_) => answering(
                "ERROR: failed to set static invoice server paths".to_owned(),
            ),
            _ => ignoring(State::SetServerPaths),
        },
        State::GetAsyncOffer => match event {
            Event::Text(offer) => answering(offer),
            Event::Failed(_) => answering(
                "ERROR: no async receive offer ready yet, run `setasyncserver` and wait for the server exchange".to_owned(),
            ),
            _ => ignoring(State::GetAsyncOffer),
        },
        State::PqAddress { words } => match event {
            Event::Address(addr) => pq_with_address(&words, addr),
            _ => ignoring(State::PqAddress { words }),
        },
        State::PqPin { pubkey, addr, named } => match event {
            Event::Pin(pin) => pq_with_pin(pubkey, addr, named, pin, settings.kem_key_len),
            _ => ignoring(State::PqPin { pubkey, addr, named }),
        },
        State::PqConnected { pubkey, addr, kem_key } => match event {
            Event::Peer(found) => {
                if found {
                    answering(
                        text3(
                            "ERROR: already connected to peer ",
                            hex_str(pubkey.as_slice()).as_str(),
                            ", disconnect first",
                        ),
                    )
                } else {
                    asking(
                        State::PqConnect { pubkey },
                        Action::ConnectPq { pubkey, addr, kem_key },
                    )
                }
            },
            _ => ignoring(State::PqConnected { pubkey, addr, kem_key }),
        },
        State::PqConnect { pubkey } => match event {
            Event::Connected(ok) => {
                if ok {
                    answering(
                        text3(
                            "SUCCESS: connected to peer ",
                            hex_str(pubkey.as_slice()).as_str(),
                            " over post-quantum transport",
                        ),
                    )
                } else {
                    answering(
                        "ERROR: failed to connect to peer over post-quantum transport".to_owned(),
                    )
                }
            },
            _ => ignoring(State::PqConnect { pubkey }),
        },
        State::PeerAddress { words } => match event {
            Event::Address(addr) => peer_with_address(&words, addr),
            _ => ignoring(State::PeerAddress { words }),
        },
        State::PeerConnected { pubkey, addr } => match event {
            Event::Peer(found) => {
                if found {
                    say_connected(&pubkey)
                } else {
                    asking(State::PeerConnect { pubkey }, Action::Connect { pubkey, addr })
                }
            },
            _ => ignoring(State::PeerConnected { pubkey, addr }),
        },
        State::PeerConnect { pubkey } => match event {
            Event::Connected(ok) => {
                if ok {
                    say_connected(&pubkey)
                } else {
                    answering("ERROR: failed to connect to peer".to_owned())
                }
            },
            _ => ignoring(State::PeerConnect { pubkey }),
        },
        State::Disconnect { pubkey } => match event {
            Event::Channels { peers, connected } => do_disconnect_peer(pubkey, &peers, connected),
            _ => ignoring(State::Disconnect { pubkey }),
        },
        State::Close => telling(
            State::Close,
            event,
            "EVENT: initiating channel close",
            "ERROR: failed to close channel: ",
        ),
        State::ForceClose => telling(
            State::ForceClose,
            event,
            "EVENT: initiating channel force-close",
            "ERROR: failed to force-close channel: ",
        ),
        State::Announce => match event {
            Event::Announced(announced) => end_announce(&announced, settings),
            _ => ignoring(State::Announce),
        },
    }
}

/// The console never loses the words that its command needs.
pub proof fn law_state_stays_well_formed(state: StateView, event: Event, settings: Settings)
    requires
        state_wf(state),
    ensures
        state_wf(react(state, event, settings).state),
{
    reveal(command);
    reveal(open_channel);
    reveal(send_payment);
    reveal(keysend);
    reveal(get_invoice);
    reveal(get_refund);
    reveal(claim_refund);
    reveal(async_paths);
    reveal(set_async_server);
    reveal(connect_peer_pq);
    reveal(connect_peer);
    reveal(disconnect_peer);
    reveal(close_channel);
    reveal(force_close_channel);
    reveal(sign_line);
}

/// What is noted of inbound payments.
pub open spec fn inbound_noted(
    payments: Map<[u8; 32], PaymentInfo>,
    record: Option<Record>,
) -> Map<[u8; 32], PaymentInfo> {
    match record {
        Some(Record::InboundPending { payment_hash, payment_secret, amt_msat }) => payments.insert(
            payment_hash,
            pending_payment(payment_secret, amt_msat),
        ),
        _ => payments,
    }
}

/// What is noted of outbound payments.
pub open spec fn outbound_noted(
    payments: Map<[u8; 32], PaymentInfo>,
    record: Option<Record>,
) -> Map<[u8; 32], PaymentInfo> {
    match record {
        Some(Record::OutboundPending { payment_id, payment_secret, amt_msat }) => payments.insert(
            payment_id,
            pending_payment(payment_secret, amt_msat),
        ),
        Some(Record::OutboundFailed { payment_id }) => if payments.dom().contains(payment_id) {
            payments.insert(payment_id, failed_payment(payments[payment_id]))
        } else {
            payments
        },
        _ => payments,
    }
}

/// Notes something in the records of payments.
pub fn note(
    record: Option<Record>,
    inbound: &mut InboundPaymentInfoStorage,
    outbound: &mut OutboundPaymentInfoStorage,
)
    ensures
        final(inbound).payments@ == inbound_noted(old(inbound).payments@, record),
        final(outbound).payments@ == outbound_noted(old(outbound).payments@, record),
{
    match record {
        Some(Record::InboundPending { payment_hash, payment_secret, amt_msat }) => {
            inbound.record_pending(payment_hash, payment_secret, amt_msat);
        },
        Some(Record::OutboundPending { payment_id, payment_secret, amt_msat }) => {
            outbound.record_pending(payment_id, payment_secret, amt_msat);
        },
        Some(Record::OutboundFailed { payment_id }) => {
            outbound.mark_failed(payment_id);
        },
        None => {},
    }
}

/// The console of a node.
pub struct Console {
    state: ConsoleState,
    settings: Settings,
}

impl Console {
    /// What the console waits for.
    pub closed spec fn state(self) -> StateView {
        self.state@
    }

    /// What the console knows of the node.
    pub closed spec fn settings(self) -> Settings {
        self.settings
    }

    #[verifier::type_invariant]
    spec fn wf(self) -> bool {
        state_wf(self.state@)
    }

    /// The console of a node that has just started, and what it shows first.
    pub fn start(settings: Settings, node_id: &[u8; 33]) -> (r: (Console, Vec<ConsoleAction>))
        ensures
            r.0.state() == StateView::Ready,
            r.0.settings() == settings,
            action_views(r.1@) == greeting(*node_id),
    {
        let mut actions: Vec<ConsoleAction> = one_action(
            Action::Print(
                "LDK startup successful. Enter \"help\" to view available commands. Press Ctrl-D to quit.".to_owned(),
            ),
        );
        push_action(
            &mut actions,
            Action::Print(
                "LDK logs are available at <your-supplied-ldk-data-dir-path>/.ldk/logs".to_owned(),
            ),
        );
        push_action(
            &mut actions,
            Action::Print(
                text3("Local Node ID is ", hex_str(node_id.as_slice()).as_str(), "."),
            ),
        );
        push_action(&mut actions, Action::Inline("> ".to_owned()));
        assert(action_views(actions@) =~= greeting(*node_id));
        (Console { state: State::Ready, settings }, actions)
    }

    /// Whether the console has ended.
    pub fn stopped(&self) -> (r: bool)
        ensures
            r == (self.state() == StateView::Stopped),
    {
        match &self.state {
            State::Stopped => true,
            _ => false,
        }
    }

    /// Takes an event: notes in the records of payments what is to be noted, and returns what is
    /// to be done, in order.
    pub fn step(
        &mut self,
        event: Event,
        inbound: &mut InboundPaymentInfoStorage,
        outbound: &mut OutboundPaymentInfoStorage,
    ) -> (r: Vec<ConsoleAction>)
        ensures
            ({
                let reaction = react(old(self).state(), event, old(self).settings());
                &&& final(self).state() == reaction.state
                &&& final(self).settings() == old(self).settings()
                &&& action_views(r@) == reaction.actions
                &&& final(inbound).payments@ == inbound_noted(
                    old(inbound).payments@,
                    reaction.record,
                )
                &&& final(outbound).payments@ == outbound_noted(
                    old(outbound).payments@,
                    reaction.record,
                )
            }),
    {
        proof {
            use_type_invariant(&*self);
        }
        let mut state: ConsoleState = State::Ready;
        std::mem::swap(&mut state, &mut self.state);
        let r: Reaction = reaction(state, event, &self.settings);
        proof {
            law_state_stays_well_formed(state@, event, self.settings);
        }
        note(r.record, inbound, outbound);
        self.state = r.state;
        r.actions
    }
}

/// What a console shows first.
pub open spec fn greeting(node_id: [u8; 33]) -> Seq<ActionView> {
    seq![
        Action::Print(
            "LDK startup successful. Enter \"help\" to view available commands. Press Ctrl-D to quit."@,
        ),
        Action::Print("LDK logs are available at <your-supplied-ldk-data-dir-path>/.ldk/logs"@),
        Action::Print("Local Node ID is "@ + hex_text(node_id@) + "."@),
        prompt(),
    ]
}

} // verus!
