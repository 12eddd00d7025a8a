//! What comes of what the operator has asked for.

use crate::actions::{
    ask, ignore, Action, ActionView, Event, ReactionView, Record, State, StateView,
};
use crate::commands::{
    async_paths, claim_refund, close_channel, command, command_named, connect_peer, connect_peer_pq,
    disconnect_peer, force_close_channel, get_invoice, get_refund, keysend, open_channel,
    send_payment, set_async_server, sign_line, Command, Settings,
};
use crate::console::{inbound_noted, outbound_noted, react};
use crate::console_laws::{lawful, lemma_command};
use crate::hex::hex_text;
use crate::ldk::{bolt11_invoice, bolt12_offer, human_readable_name, message_signature, sha256};
use crate::line_laws::{
    law_commands_answer_to_their_names, law_keysend_pays_what_is_typed, spells_key,
};
use crate::payments::{HTLCStatus, PaymentInfo};
use crate::report_laws::begins;
use crate::text::{
    decimal_text, is_space, lemma_words_of_run, no_space, texts, trimmed, u64_of, words,
    NumberError,
};
use vstd::prelude::*;
use vstd::string::*;
use vstd::utf8::{encode_scalar, encode_utf8};

verus! {

/// A pending payment is remembered with its amount and its secret and nothing more.
pub proof fn law_notes_are_remembered(
    inbound: Map<[u8; 32], PaymentInfo>,
    outbound: Map<[u8; 32], PaymentInfo>,
    id: [u8; 32],
    payment_secret: Option<[u8; 32]>,
    amt_msat: u64,
)
    ensures
        ({
            let came = Record::InboundPending { payment_hash: id, payment_secret, amt_msat };
            let went = Record::OutboundPending { payment_id: id, payment_secret, amt_msat };
            let came = inbound_noted(inbound, Some(came));
            let went = outbound_noted(outbound, Some(went));
            &&& came.dom() == inbound.dom().insert(id)
            &&& went.dom() == outbound.dom().insert(id)
            &&& came[id] == went[id]
            &&& came[id].status == HTLCStatus::Pending
            &&& came[id].amt_msat.0 == Some(amt_msat)
            &&& came[id].secret == payment_secret
            &&& came[id].preimage is None
        }),
        ({
            let failed = Record::OutboundFailed { payment_id: id };
            let after = outbound_noted(outbound, Some(failed));
            &&& inbound_noted(inbound, Some(failed)) == inbound
            &&& !outbound.dom().contains(id) ==> after == outbound
            &&& outbound.dom().contains(id) ==> after.dom() == outbound.dom() && after[id].status
                == HTLCStatus::Failed && after[id].amt_msat == outbound[id].amt_msat
                && after[id].secret == outbound[id].secret && after[id].preimage
                == outbound[id].preimage
            &&& inbound_noted(inbound, None) == inbound && outbound_noted(outbound, None)
                == outbound
        }),
{
    let came = Record::InboundPending { payment_hash: id, payment_secret, amt_msat };
    let went = Record::OutboundPending { payment_id: id, payment_secret, amt_msat };
    let failed = Record::OutboundFailed { payment_id: id };
    assert(inbound_noted(inbound, Some(came)).dom() =~= inbound.dom().insert(id));
    assert(outbound_noted(outbound, Some(went)).dom() =~= outbound.dom().insert(id));
    if outbound.dom().contains(id) {
        assert(outbound_noted(outbound, Some(failed)).dom() =~= outbound.dom());
    }
}

/// The operator is told of a typed payment that is on its way with the typed amount and the typed
/// key; one that could not be made is remembered as failed, with that amount.
pub proof fn law_typed_payments_are_followed_up(
    text: String,
    entropy: [u8; 32],
    settings: Settings,
    dest: [u8; 33],
    amt_msat: u64,
    error: String,
    outbound: Map<[u8; 32], PaymentInfo>,
)
    requires
        words(text@).len() >= 3,
        words(text@)[0] == "keysend"@,
        spells_key(words(text@)[1], dest),
        u64_of(words(text@)[2]) == Ok::<u64, NumberError>(amt_msat),
    ensures
        ({
            let id = sha256(entropy@);
            let asked = react(StateView::Ready, Event::Line { text, entropy }, settings);
            let sent = react(asked.state, Event::Done, settings);
            let failed = react(asked.state, Event::Failed(error), settings);
            let noted = outbound_noted(outbound, asked.record);
            let after = outbound_noted(noted, failed.record);
            &&& sent.record is None
            &&& sent.actions[0] == ActionView::Print(
                "EVENT: initiated sending "@ + decimal_text(amt_msat as nat) + " msats to "@
                    + hex_text(dest@),
            )
            &&& noted[id].status == HTLCStatus::Pending
            &&& noted[id].amt_msat.0 == Some(amt_msat)
            &&& after.dom() == noted.dom()
            &&& after[id].status == HTLCStatus::Failed
            &&& after[id].amt_msat.0 == Some(amt_msat)
            &&& sent.actions.len() == 3
            &&& sent.actions[1] == ActionView::Inline("> "@)
            &&& sent.actions[2] == ActionView::Inline("> "@)
            &&& failed.actions == seq![
                ActionView::Print("ERROR: failed to send payment: "@ + error@),
                ActionView::Inline("> "@),
                ActionView::SaveOutbound,
                ActionView::Inline("> "@),
            ]
        }),
{
    law_keysend_pays_what_is_typed(text, entropy, settings, dest, amt_msat);
    let asked = react(StateView::Ready, Event::Line { text, entropy }, settings);
    let failed = react(asked.state, Event::Failed(error), settings);
    let noted = outbound_noted(outbound, asked.record);
    let after = outbound_noted(noted, failed.record);
    assert(failed.actions =~= seq![
        ActionView::Print("ERROR: failed to send payment: "@ + error@),
        ActionView::Inline("> "@),
        ActionView::SaveOutbound,
        ActionView::Inline("> "@),
    ]);
    assert(after.dom() =~= noted.dom());
}

/// An invoice that is typed is paid: for its own amount where it has one, else for the amount that
/// is typed behind it, and the operator is told of that amount and of its payee.
pub proof fn law_typed_invoices_are_paid(
    text: String,
    entropy: [u8; 32],
    settings: Settings,
    amt_msat: u64,
)
    requires
        words(text@).len() >= 2,
        words(text@)[0] == "sendpayment"@,
        bolt12_offer(words(text@)[1]) is None,
        !human_readable_name(words(text@)[1]),
        bolt11_invoice(words(text@)[1]) is Ok,
        bolt11_invoice(words(text@)[1])->Ok_0.amount_msat == Some(amt_msat) || (bolt11_invoice(
            words(text@)[1],
        )->Ok_0.amount_msat is None && words(text@).len() >= 3),
        words(text@).len() >= 3 ==> u64_of(words(text@)[2]) == Ok::<u64, NumberError>(amt_msat),
    ensures
        ({
            let ws = words(text@);
            let facts = bolt11_invoice(ws[1])->Ok_0;
            let r = react(StateView::Ready, Event::Line { text, entropy }, settings);
            let sent = react(r.state, Event::Done, settings);
            &&& r.record == Some(
                Record::OutboundPending {
                    payment_id: facts.payment_hash,
                    payment_secret: Some(facts.payment_secret),
                    amt_msat,
                },
            )
            &&& r.actions == seq![
                ActionView::SaveOutbound,
                ActionView::PayInvoice {
                    invoice: ws[1],
                    named_msat: if ws.len() >= 3 {
                        Some(amt_msat)
                    } else {
                        None
                    },
                    payment_id: facts.payment_hash,
                    retry_secs: 10,
                },
            ]
            &&& sent.actions[0] == ActionView::Print(
                "EVENT: initiated sending "@ + decimal_text(amt_msat as nat) + " msats to "@
                    + hex_text(facts.payee@),
            )
        }),
{
    law_commands_answer_to_their_names(settings.post_quantum);
    reveal(command);
    reveal(send_payment);
    let facts = bolt11_invoice(words(text@)[1])->Ok_0;
    let r = react(StateView::Ready, Event::Line { text, entropy }, settings);
    assert(r.state == StateView::Sending {
        payment_id: facts.payment_hash,
        amt_msat,
        payee: facts.payee,
    });
}

/// An offer that is typed alone is paid for its own amount once the operator agrees, and not
/// before: the question names that amount, a `N` ends the matter, and any other answer repeats the
/// question.
pub proof fn law_typed_offers_are_confirmed(
    text: String,
    entropy: [u8; 32],
    settings: Settings,
    amt_msat: u64,
    reply: String,
    other: [u8; 32],
)
    requires
        words(text@).len() == 2,
        words(text@)[0] == "sendpayment"@,
        bolt12_offer(words(text@)[1]) matches Some((asked, _)) && asked == Some(amt_msat),
    ensures
        ({
            let offer = words(text@)[1];
            let asked = react(StateView::Ready, Event::Line { text, entropy }, settings);
            let replied = react(
                asked.state,
                Event::Line { text: reply, entropy: other },
                settings,
            );
            &&& asked.record is None
            &&& asked.actions == seq![
                ActionView::Inline(
                    "Paying offer for "@ + decimal_text(amt_msat as nat)
                        + " msat. Continue (Y/N)? >"@,
                ),
            ]
            &&& reply@.len() > 0 && reply@[0] == 'Y' ==> {
                &&& replied.record == Some(
                    Record::OutboundPending { payment_id: entropy, payment_secret: None, amt_msat },
                )
                &&& replied.actions == seq![
                    ActionView::SaveOutbound,
                    ActionView::PayOffer { offer, amt_msat, payment_id: entropy, retry_secs: 10 },
                ]
            }
            &&& reply@.len() > 0 && reply@[0] == 'N' ==> replied.record is None && replied.state
                == StateView::Ready && replied.actions == seq![ActionView::Inline("> "@)]
            &&& (reply@.len() == 0 || reply@[0] != 'Y' && reply@[0] != 'N') ==> replied == asked
        }),
{
    law_commands_answer_to_their_names(settings.post_quantum);
    reveal(command);
    reveal(send_payment);
    let asked = react(StateView::Ready, Event::Line { text, entropy }, settings);
    assert(asked.state == StateView::ConfirmOffer {
        offer: words(text@)[1],
        amt_msat,
        payment_id: entropy,
    });
    let replied = react(asked.state, Event::Line { text: reply, entropy: other }, settings);
    if reply@.len() > 0 && reply@[0] == 'N' {
        assert(replied.actions =~= seq![ActionView::Inline("> "@)]);
    }
}

/// An offer is paid at once where the typed amount is the one that it asks for or where it asks
/// for none; where the two differ, nothing is paid and the operator is told what it asks for.
pub proof fn law_typed_offers_are_paid(
    text: String,
    entropy: [u8; 32],
    settings: Settings,
    amt_msat: u64,
)
    requires
        words(text@).len() >= 3,
        words(text@)[0] == "sendpayment"@,
        u64_of(words(text@)[2]) == Ok::<u64, NumberError>(amt_msat),
        bolt12_offer(words(text@)[1]) is Some,
    ensures
        ({
            let offer = words(text@)[1];
            let r = react(StateView::Ready, Event::Line { text, entropy }, settings);
            match bolt12_offer(offer) {
                Some((Some(asked), _)) if asked != amt_msat => r.record is None && r.actions[0]
                    == ActionView::Print(
                    "Amount didn't match offer of "@ + decimal_text(asked as nat) + "msat"@,
                ) && r.state == StateView::Ready,
                _ => {
                    &&& r.record == Some(
                        Record::OutboundPending {
                            payment_id: entropy,
                            payment_secret: None,
                            amt_msat,
                        },
                    )
                    &&& r.actions == seq![
                        ActionView::SaveOutbound,
                        ActionView::PayOffer {
                            offer,
                            amt_msat,
                            payment_id: entropy,
                            retry_secs: 10,
                        },
                    ]
                },
            }
        }),
{
    law_commands_answer_to_their_names(settings.post_quantum);
    reveal(command);
    reveal(send_payment);
}

/// An offer of the node is built for the typed amount, or for any amount where none is typed.
pub proof fn law_offers_are_for_what_is_typed(ws: Seq<Seq<char>>, settings: Settings, amt_msat: u64)
    ensures
        ({
            let r = react(StateView::StartOffer { words: ws }, Event::Done, settings);
            &&& ws.len() < 2 ==> r.actions == seq![ActionView::BuildOffer(None)]
            &&& ws.len() >= 2 && u64_of(ws[1]) == Ok::<u64, NumberError>(amt_msat) ==> r.actions
                == seq![ActionView::BuildOffer(Some(amt_msat))]
            &&& ws.len() >= 2 && u64_of(ws[1]) is Err ==> r.state == StateView::Ready && r.actions
                == seq![
                ActionView::Print("ERROR: getoffer provided payment amount was not a number"@),
                ActionView::Inline("> "@),
            ]
        }),
{
    if ws.len() >= 2 && u64_of(ws[1]) is Err {
        let r = react(StateView::StartOffer { words: ws }, Event::Done, settings);
        assert(r.actions =~= seq![
            ActionView::Print("ERROR: getoffer provided payment amount was not a number"@),
            ActionView::Inline("> "@),
        ]);
    }
}

/// A claimed refund is expected under the hash and with the amount that were agreed on, and the
/// operator is told of both.
pub proof fn law_claimed_refunds_are_expected(
    payment_hash: [u8; 32],
    amt_msat: u64,
    settings: Settings,
)
    ensures
        ({
            let r = react(
                StateView::ClaimRefund,
                Event::RefundClaimed { payment_hash, amt_msat },
                settings,
            );
            &&& r.record == Some(
                Record::InboundPending { payment_hash, payment_secret: None, amt_msat },
            )
            &&& r.state == StateView::Ready
            &&& r.actions.len() == 3
            &&& r.actions[0] == ActionView::SaveInbound
            &&& r.actions[1] == ActionView::Print(
                "SUCCESS: sent invoice for refund of "@ + decimal_text(amt_msat as nat)
                    + " msat with payment hash "@ + hex_text(payment_hash@)
                    + ", awaiting payment"@,
            )
        }),
{
}

/// The node announces itself in black, under its own name and addresses, exactly if one of its
/// channels is announced.
pub proof fn law_announcements_name_the_node(announced: Vec<bool>, settings: Settings)
    ensures
        ({
            let r = react(StateView::Announce, Event::Announced(announced), settings);
            &&& (exists|i: int| 0 <= i < announced@.len() && announced@[i]) <==> r.actions[0]
                is Broadcast
            &&& r.actions[0] is Broadcast ==> r.actions[0] == (ActionView::Broadcast {
                rgb: [0, 0, 0],
                alias: settings.announced_node_name,
                addresses: texts(settings.announced_addresses@),
            })
            &&& r.state == StateView::Ready && r.record is None
        }),
{
    if exists|i: int| 0 <= i < announced@.len() && announced@[i] {
        let i = choose|i: int| 0 <= i < announced@.len() && announced@[i];
        assert(announced@.contains(true));
    }
}

/// The bytes of a text behind plain characters are the bytes of that text behind one byte for each
/// of them.
pub proof fn lemma_utf8_behind(lead: Seq<char>, s: Seq<char>)
    requires
        forall|i: int| 0 <= i < lead.len() ==> #[trigger] lead[i] as u32 <= 0x7f,
    ensures
        encode_utf8(lead + s).len() == lead.len() + encode_utf8(s).len(),
        encode_utf8(lead + s).skip(lead.len() as int) == encode_utf8(s),
    decreases lead.len(),
{
    let t = lead + s;
    if lead.len() == 0 {
        assert(t =~= s);
        assert(encode_utf8(t).skip(0) =~= encode_utf8(s));
    } else {
        let rest = lead.drop_first();
        lemma_utf8_behind(rest, s);
        assert(t.drop_first() =~= rest + s);
        assert(t[0] == lead[0]);
        let first = encode_scalar(t[0] as u32);
        assert(lead[0] as u32 <= 0x7f);
        assert(first.len() == 1);
        assert(encode_utf8(t) =~= first + encode_utf8(rest + s));
        assert(encode_utf8(t).skip(lead.len() as int) =~= encode_utf8(rest + s).skip(
            rest.len() as int,
        ));
    }
}

/// A text has at least one byte for each of its characters.
proof fn lemma_utf8_len(s: Seq<char>)
    ensures
        encode_utf8(s).len() >= s.len(),
    decreases s.len(),
{
    if s.len() > 0 {
        lemma_utf8_len(s.drop_first());
    }
}

/// Whatever is typed behind `signmessage ` is what is signed, up to the spaces at its end.
pub proof fn law_typed_messages_are_signed(
    message: Seq<char>,
    entropy: [u8; 32],
    settings: Settings,
)
    requires
        message.len() > 0,
        !is_space(message.last()),
    ensures
        ({
            let r = command("signmessage "@ + message, entropy, settings);
            &&& r.state == StateView::Ready
            &&& r.record is None
            &&& r.actions == seq![
                ActionView::Print(
                    "\""@ + message_signature(encode_utf8(message), settings.secret.bytes())
                        + "\""@,
                ),
                ActionView::Inline("> "@),
            ]
        }),
{
    let name = "signmessage"@;
    let lead = "signmessage "@;
    let line = lead + message;
    reveal_strlit("signmessage");
    reveal_strlit("signmessage ");
    assert(lead =~= name.push(' '));
    assert(no_space(name));
    assert(line =~= name + (seq![' '] + message));
    lemma_words_of_run(name, seq![' '] + message);
    assert(words(line)[0] == name);
    assert(line[0] == 's');
    assert(line.skip(0) =~= line);
    assert(line.last() == message.last());
    assert(trimmed(line) == line);
    assert forall|i: int| 0 <= i < lead.len() implies #[trigger] lead[i] as u32 <= 0x7f by {}
    lemma_utf8_behind(lead, message);
    lemma_utf8_len(message);
    law_commands_answer_to_their_names(settings.post_quantum);
    reveal(command);
    reveal(sign_line);
    let r = command(line, entropy, settings);
    assert(r.actions =~= seq![
        ActionView::Print(
            "\""@ + message_signature(encode_utf8(message), settings.secret.bytes()) + "\""@,
        ),
        ActionView::Inline("> "@),
    ]);
}

/// Whether an action is what the console waits for in a state.
pub open spec fn awaits(state: StateView, action: ActionView) -> bool {
    match state {
        State::Ready => true,
        State::Stopped => true,
        State::OpenPeer { pubkey, .. } => action == ActionView::FindPeer(pubkey),
        State::OpenAddress { .. } => action is Resolve,
        State::OpenConnected { pubkey, .. } => action == ActionView::FindPeer(pubkey),
        State::OpenConnect { pubkey, .. } => action is Connect && action->Connect_pubkey == pubkey,
        State::OpenCreate { pubkey } => action is OpenChannel && action->OpenChannel_peer == pubkey,
        State::ConfirmOffer { amt_msat, .. } => action == ActionView::Inline(
            "Paying offer for "@ + decimal_text(amt_msat as nat) + " msat. Continue (Y/N)? >"@,
        ),
        State::PayOffer => action is PayOffer,
        State::Sending { payment_id, amt_msat, payee } => {
            ||| action matches Action::Keysend { dest, amt_msat: amt, payment_id: id, .. } && dest
                == payee && amt == amt_msat && id == payment_id
            ||| action matches Action::PayInvoice { payment_id: id, .. } && id == payment_id
        },
        State::StartOffer { .. } => action is StartOffer,
        State::BuildOffer => action is BuildOffer,
        State::CreateInvoice { amt_msat } => action is CreateInvoice
            && action->CreateInvoice_amt_msat == amt_msat,
        State::StartRefund { amt_msat, payment_id } => action is StartRefund
            && action->StartRefund_amt_msat == amt_msat && action->StartRefund_payment_id
            == payment_id,
        State::BuildRefund { .. } => action is BuildRefund,
        State::ClaimRefund => action is ClaimRefund,
        State::AsyncPaths => action is AsyncPaths,
        State::SetServerPaths => action is SetServerPaths,
        State::GetAsyncOffer => action is GetAsyncOffer,
        State::PqAddress { .. } => action is Resolve,
        State::PqPin { pubkey, .. } => action == ActionView::FindPin(pubkey),
        State::PqConnected { pubkey, .. } => action == ActionView::FindPeer(pubkey),
        State::PqConnect { pubkey } => action is ConnectPq && action->ConnectPq_pubkey == pubkey,
        State::PeerAddress { .. } => action is Resolve,
        State::PeerConnected { pubkey, .. } => action == ActionView::FindPeer(pubkey),
        State::PeerConnect { pubkey } => action is Connect && action->Connect_pubkey == pubkey,
        State::Disconnect { pubkey } => action == ActionView::FindChannels(pubkey),
        State::Close => action is CloseChannel,
        State::ForceClose => action is ForceCloseChannel,
        State::Announce => action is FindAnnounced,
    }
}

/// Whether the console has asked for what it waits for.
spec fn waits_well(r: ReactionView) -> bool {
    r.state == StateView::Ready || r.state == StateView::Stopped || (r.actions.len() > 0 && awaits(
        r.state,
        r.actions.last(),
    ))
}

proof fn lemma_waits(line: Seq<char>, entropy: [u8; 32], settings: Settings)
    ensures
        waits_well(command(line, entropy, settings)),
{
    reveal(command);
    let ws = words(line);
    if ws.len() > 0 {
        match command_named(ws[0], settings.post_quantum) {
            Command::OpenChannel => reveal(open_channel),
            Command::SendPayment => reveal(send_payment),
            Command::Keysend => reveal(keysend),
            Command::GetInvoice => reveal(get_invoice),
            Command::GetRefund => reveal(get_refund),
            Command::ClaimRefund => reveal(claim_refund),
            Command::AsyncPaths => reveal(async_paths),
            Command::SetAsyncServer => reveal(set_async_server),
            Command::ConnectPeerPq => reveal(connect_peer_pq),
            Command::ConnectPeer => reveal(connect_peer),
            Command::DisconnectPeer => reveal(disconnect_peer),
            Command::CloseChannel => reveal(close_channel),
            Command::ForceCloseChannel => reveal(force_close_channel),
            Command::SignMessage => reveal(sign_line),
            _ => {},
        }
    }
}

/// The console waits for nothing but what it has just asked for: whenever it is not ready for a
/// command, the last thing it did was to ask for what its state is about.
pub proof fn law_console_waits_for_what_it_asked(
    state: StateView,
    event: Event,
    settings: Settings,
)
    ensures
        ({
            let r = react(state, event, settings);
            ||| r == ignore(state)
            ||| r.state == StateView::Ready
            ||| r.state == StateView::Stopped
            ||| r.actions.len() > 0 && awaits(r.state, r.actions.last())
        }),
{
    match (state, event) {
        (State::Ready, Event::Line { text, entropy }) => lemma_waits(text@, entropy, settings),
        _ => {},
    }
}

/// Whether an event is an answer to what the console waits for in a state.
pub open spec fn answers(state: StateView, event: Event) -> bool {
    match state {
        State::Ready => event is Line || event is EndOfInput || event is InputFailed,
        State::ConfirmOffer { .. } => event is Line || event is EndOfInput || event is InputFailed,
        State::Stopped => false,
        State::OpenPeer { .. } => event is Peer,
        State::OpenAddress { .. } => event is Address,
        State::OpenConnected { .. } => event is Peer,
        State::OpenConnect { .. } => event is Connected,
        State::OpenCreate { .. } => event is Done || event is Failed,
        State::PayOffer => event is Done || event is Failed,
        State::Sending { .. } => event is Done || event is Failed,
        State::StartOffer { .. } => event is Done || event is Failed,
        State::BuildOffer => event is Text || event is Failed,
        State::CreateInvoice { .. } => event is Invoice || event is Failed,
        State::StartRefund { .. } => event is Done || event is Failed,
        State::BuildRefund { .. } => event is Text || event is Failed,
        State::ClaimRefund => event is RefundClaimed || event is Failed,
        State::AsyncPaths => event is Paths || event is Failed,
        State::SetServerPaths => event is Done || event is Failed,
        State::GetAsyncOffer => event is Text || event is Failed,
        State::PqAddress { .. } => event is Address,
        State::PqPin { .. } => event is Pin,
        State::PqConnected { .. } => event is Peer,
        State::PqConnect { .. } => event is Connected,
        State::PeerAddress { .. } => event is Address,
        State::PeerConnected { .. } => event is Peer,
        State::PeerConnect { .. } => event is Connected,
        State::Disconnect { .. } => event is Channels,
        State::Close => event is Done || event is Failed,
        State::ForceClose => event is Done || event is Failed,
        State::Announce => event is Announced,
    }
}

/// What is no answer to what the console waits for changes nothing; and an answer leads on: either
/// the operator is told something and asked for the next command, or the console asks for more, or
/// it ends.
pub proof fn law_answers_lead_on(state: StateView, event: Event, settings: Settings)
    ensures
        !answers(state, event) ==> react(state, event, settings) == ignore(state),
        answers(state, event) ==> react(state, event, settings).actions.len() > 0 || react(
            state,
            event,
            settings,
        ).state == StateView::Stopped,
{
    match (state, event) {
        (State::Ready, Event::Line { text, entropy }) => {
            lemma_waits(text@, entropy, settings);
            lemma_command(text@, entropy, settings);
            reveal(lawful);
        },
        _ => {},
    }
}

/// Every failure ends what was asked for and is told, with the reason where there is one to tell:
/// the line ends with it, or, of an offer, with it in brackets.
pub proof fn law_failures_are_told(state: StateView, error: String, settings: Settings)
    requires
        answers(state, Event::Failed(error)),
    ensures
        ({
            let r = react(state, Event::Failed(error), settings);
            &&& r.state == StateView::Ready
            &&& r.actions[0] matches Action::Print(line)
            &&& match state {
                State::OpenCreate { .. } => line == "ERROR: failed to open channel: "@ + error@,
                State::PayOffer => line == "ERROR: Failed to pay: Err("@ + error@ + ")"@,
                State::Sending { .. } => line == "ERROR: failed to send payment: "@ + error@,
                State::StartOffer { .. } => line == "ERROR: Failed to initiate offer building: "@
                    + error@,
                State::BuildOffer => line == "ERROR: Failed to build offer: "@ + error@,
                State::CreateInvoice { .. } => line == "ERROR: failed to create invoice: "@
                    + error@,
                State::StartRefund { .. } => line == "ERROR: Failed to initiate refund building: "@
                    + error@,
                State::BuildRefund { .. } => line == "ERROR: Failed to build refund: "@ + error@,
                State::ClaimRefund => line == "ERROR: failed to request refund payment: "@
                    + error@,
                State::Close => line == "ERROR: failed to close channel: "@ + error@,
                State::ForceClose => line == "ERROR: failed to force-close channel: "@ + error@,
                _ => begins(line, "ERROR: "@),
            }
            &&& r.record is None || state is Sending
            &&& r.actions.last() == ActionView::Inline("> "@)
            &&& r.actions.len() == (if state is Sending {
                4int
            } else if state is CreateInvoice {
                3
            } else {
                2
            })
            &&& state is CreateInvoice ==> r.actions[1] == ActionView::SaveInbound
        }),
{
    reveal(begins);
    reveal_strlit("ERROR: ");
    reveal_strlit("ERROR: failed to create async recipient paths, do we have connected peers?");
    reveal_strlit("ERROR: failed to set static invoice server paths");
    reveal_strlit(
        "ERROR: no async receive offer ready yet, run `setasyncserver` and wait for the server exchange",
    );
    let n = "ERROR: "@.len() as int;
    assert("ERROR: failed to create async recipient paths, do we have connected peers?"@.take(n)
        =~= "ERROR: "@);
    assert("ERROR: failed to set static invoice server paths"@.take(n) =~= "ERROR: "@);
    assert("ERROR: no async receive offer ready yet, run `setasyncserver` and wait for the server exchange"@.take(
        n,
    ) =~= "ERROR: "@);
}

/// Every success is told: a channel with the key of its peer, an offer as it was built, a peer by
/// its key.
#[verifier::rlimit(30)]
pub proof fn law_successes_are_told(pubkey: [u8; 33], text: String, settings: Settings)
    ensures
        ({
            let opened = react(StateView::OpenCreate { pubkey }, Event::Done, settings);
            let built = react(StateView::BuildOffer, Event::Text(text), settings);
            let kept = react(StateView::GetAsyncOffer, Event::Text(text), settings);
            let dialled = react(StateView::PqConnect { pubkey }, Event::Connected(true), settings);
            let failed = react(
                StateView::PeerConnect { pubkey },
                Event::Connected(false),
                settings,
            );
            let unopened = react(
                StateView::OpenConnect { pubkey, words: seq![] },
                Event::Connected(false),
                settings,
            );
            let unprotected = react(
                StateView::PqConnect { pubkey },
                Event::Connected(false),
                settings,
            );
            let closing = react(StateView::Close, Event::Done, settings);
            let forcing = react(StateView::ForceClose, Event::Done, settings);
            let paid = react(StateView::PayOffer, Event::Done, settings);
            &&& opened.actions == seq![
                ActionView::Print(
                    "EVENT: initiated channel with peer "@ + hex_text(pubkey@) + ". "@,
                ),
                ActionView::Inline("> "@),
            ]
            &&& built.actions == seq![ActionView::Print(text@), ActionView::Inline("> "@)]
            &&& kept.actions == built.actions
            &&& dialled.actions[0] == ActionView::Print(
                "SUCCESS: connected to peer "@ + hex_text(pubkey@)
                    + " over post-quantum transport"@,
            )
            &&& failed.actions[0] == ActionView::Print("ERROR: failed to connect to peer"@)
            &&& unopened == failed
            &&& unprotected.actions[0] == ActionView::Print(
                "ERROR: failed to connect to peer over post-quantum transport"@,
            )
            &&& closing.actions[0] == ActionView::Print("EVENT: initiating channel close"@)
            &&& forcing.actions[0] == ActionView::Print("EVENT: initiating channel force-close"@)
            &&& paid.actions[0] == ActionView::Print("Payment in flight"@)
        }),
{
    let opened = react(StateView::OpenCreate { pubkey }, Event::Done, settings);
    let built = react(StateView::BuildOffer, Event::Text(text), settings);
    let kept = react(StateView::GetAsyncOffer, Event::Text(text), settings);
    let shown = seq![ActionView::Print(text@), ActionView::Inline("> "@)];
    assert(built.actions =~= shown);
    assert(kept.actions =~= shown);
    assert(opened.actions =~= seq![
        ActionView::Print("EVENT: initiated channel with peer "@ + hex_text(pubkey@) + ". "@),
        ActionView::Inline("> "@),
    ]);
}

} // verus!
