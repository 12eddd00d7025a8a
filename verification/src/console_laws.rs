//! What holds of the console whatever is typed and whatever comes of it.

use crate::actions::{
    answer, ask, finish, ignore, prompt, Action, ActionView, Event, ReactionView, Record, Report,
    State, StateView,
};
use crate::commands::{
    all_paths, async_paths, claim_refund, close_channel, command, command_named, connect_peer,
    connect_peer_pq, disconnect_peer, flag_complaints, force_close_channel, get_invoice,
    get_refund, keysend, named_amount, open_channel, pay_invoice, pay_offer, send_payment,
    set_async_server, sign_line, stop, Command, Settings,
};
use crate::console::{
    begins_with, confirm_offer, disconnect, inbound_noted, joined_hex, outbound_noted, pq_pinned,
    react,
};
use crate::hex::{hex_text, law_hex_round_trip, lemma_hex_unbroken};
use crate::ldk::{blinded_message_path, bolt12_offer, human_readable_name, InvoiceFacts};
use crate::payment_table::{failed_payment, pending_payment};
use crate::payments::PaymentInfo;
use crate::peers::peer_info;
use crate::startup::PAYMENT_RETRY_SECS;
use crate::text::{
    is_space, law_leading_spaces_are_ignored, leading_spaces, lemma_words_appended,
    lemma_words_of_run, trimmed, words,
};
use vstd::prelude::*;
use vstd::string::*;

verus! {

/// The identifier of the payment that an action makes, if it makes one.
pub open spec fn payment_made(action: ActionView) -> Option<[u8; 32]> {
    match action {
        Action::PayOffer { payment_id, .. } => Some(payment_id),
        Action::PayInvoice { payment_id, .. } => Some(payment_id),
        Action::Keysend { payment_id, .. } => Some(payment_id),
        _ => None,
    }
}

/// Whether an action needs the post-quantum extensions.
pub open spec fn needs_post_quantum(action: ActionView) -> bool {
    match action {
        Action::FindPin(_) => true,
        Action::ConnectPq { .. } => true,
        Action::CreateInvoice { pq_omit_pubkey, .. } => pq_omit_pubkey,
        _ => false,
    }
}

/// Whether a state belongs to a post-quantum connection.
pub open spec fn is_post_quantum(state: StateView) -> bool {
    match state {
        State::PqAddress { .. } => true,
        State::PqPin { .. } => true,
        State::PqConnected { .. } => true,
        State::PqConnect { .. } => true,
        _ => false,
    }
}

/// The complaints about settings are lines and nothing else.
pub proof fn lemma_complaints(flags: Seq<Seq<char>>)
    ensures
        forall|i: int|
            0 <= i < flag_complaints(flags).len() ==> #[trigger] flag_complaints(flags)[i] is Print,
    decreases flags.len(),
{
    if flags.len() > 0 {
        lemma_complaints(flags.drop_last());
    }
}

/// The words of a channel to be opened, wherever they are needed.
proof fn lemma_open_complaints(state: StateView)
    ensures
        match state {
            State::OpenPeer { words, .. } => forall|i: int|
                0 <= i < flag_complaints(words.skip(3)).len() ==> #[trigger] flag_complaints(
                    words.skip(3),
                )[i] is Print,
            State::OpenConnected { words, .. } => forall|i: int|
                0 <= i < flag_complaints(words.skip(3)).len() ==> #[trigger] flag_complaints(
                    words.skip(3),
                )[i] is Print,
            State::OpenConnect { words, .. } => forall|i: int|
                0 <= i < flag_complaints(words.skip(3)).len() ==> #[trigger] flag_complaints(
                    words.skip(3),
                )[i] is Print,
            _ => true,
        },
{
    match state {
        State::OpenPeer { words, .. } => lemma_complaints(words.skip(3)),
        State::OpenConnected { words, .. } => lemma_complaints(words.skip(3)),
        State::OpenConnect { words, .. } => lemma_complaints(words.skip(3)),
        _ => {},
    }
}

/// Whether every payment that a reaction makes has been noted as pending, under the identifier
/// that it is made with, and the note has been saved just before.
pub open spec fn payments_noted(r: ReactionView) -> bool {
    forall|i: int|
        0 <= i < r.actions.len() && payment_made(#[trigger] r.actions[i]) is Some ==> {
            &&& i > 0
            &&& r.actions[i - 1] == ActionView::SaveOutbound
            &&& r.record matches Some(Record::OutboundPending { payment_id, .. })
            &&& payment_made(r.actions[i]) == Some(payment_id)
        }
}

/// Whether what a reaction notes of payments is written to disk.
pub open spec fn notes_saved(r: ReactionView) -> bool {
    match r.record {
        Some(Record::InboundPending { .. }) => r.actions.contains(ActionView::SaveInbound),
        Some(_) => r.actions.contains(ActionView::SaveOutbound),
        None => true,
    }
}

/// Whether nothing in a reaction needs the post-quantum extensions.
pub open spec fn classical(r: ReactionView) -> bool {
    &&& !is_post_quantum(r.state)
    &&& forall|i: int| 0 <= i < r.actions.len() ==> !needs_post_quantum(#[trigger] r.actions[i])
}

/// Whether a reaction that leaves the console ready for a command ends by asking for one.
pub open spec fn prompts(r: ReactionView) -> bool {
    r.state == StateView::Ready ==> r.actions.len() > 0 && r.actions.last() == prompt()
}

/// What holds of the reaction to every command but the one that ends the console.
#[verifier::opaque]
pub(crate) open spec fn lawful(r: ReactionView, post_quantum: bool) -> bool {
    &&& payments_noted(r)
    &&& notes_saved(r)
    &&& prompts(r)
    &&& post_quantum || classical(r)
    &&& r.state != StateView::Stopped
}

proof fn lemma_open_channel(ws: Seq<Seq<char>>, pq: bool)
    ensures
        lawful(open_channel(ws), pq),
{
    reveal(lawful);
    reveal(open_channel);
}

proof fn lemma_send_payment(ws: Seq<Seq<char>>, entropy: [u8; 32], pq: bool)
    ensures
        lawful(send_payment(ws, entropy), pq),
{
    reveal(lawful);
    reveal(send_payment);
    let r = send_payment(ws, entropy);
    if r.record is Some {
        assert(r.actions[0] == ActionView::SaveOutbound);
    }
}

proof fn lemma_keysend(ws: Seq<Seq<char>>, entropy: [u8; 32], pq: bool)
    ensures
        lawful(keysend(ws, entropy), pq),
{
    reveal(lawful);
    reveal(keysend);
    let r = keysend(ws, entropy);
    if r.record is Some {
        assert(r.actions[0] == ActionView::SaveOutbound);
    }
}

proof fn lemma_get_invoice(ws: Seq<Seq<char>>, pq: bool)
    ensures
        lawful(get_invoice(ws, pq), pq),
{
    reveal(lawful);
    reveal(get_invoice);
}

proof fn lemma_refunds(ws: Seq<Seq<char>>, entropy: [u8; 32], pq: bool)
    ensures
        lawful(get_refund(ws, entropy), pq),
        lawful(claim_refund(ws), pq),
{
    reveal(lawful);
    reveal(get_refund);
    reveal(claim_refund);
}

proof fn lemma_async(ws: Seq<Seq<char>>, paths: Option<Seq<Seq<u8>>>, pq: bool)
    ensures
        lawful(async_paths(ws), pq),
        lawful(set_async_server(paths), pq),
{
    reveal(lawful);
    reveal(async_paths);
    reveal(set_async_server);
}

proof fn lemma_peers(ws: Seq<Seq<char>>, pq: bool)
    ensures
        lawful(connect_peer_pq(ws), true),
        lawful(connect_peer(ws), pq),
        lawful(disconnect_peer(ws), pq),
{
    reveal(lawful);
    reveal(connect_peer_pq);
    reveal(connect_peer);
    reveal(disconnect_peer);
}

proof fn lemma_closing(ws: Seq<Seq<char>>, pq: bool)
    ensures
        lawful(close_channel(ws), pq),
        lawful(force_close_channel(ws), pq),
{
    reveal(lawful);
    reveal(close_channel);
    reveal(force_close_channel);
}

proof fn lemma_signing(line: Seq<char>, settings: Settings)
    ensures
        lawful(sign_line(line, settings.secret), settings.post_quantum),
{
    reveal(lawful);
    reveal(sign_line);
}

proof fn lemma_plain(ws: Seq<Seq<char>>, report: Report, line: Seq<char>, pq: bool)
    ensures
        lawful(finish(seq![]), pq),
        lawful(finish(seq![Action::Report(report)]), pq),
        lawful(ask(State::StartOffer { words: ws }, Action::StartOffer), pq),
        lawful(ask(State::GetAsyncOffer, Action::GetAsyncOffer), pq),
        lawful(ask(State::Announce, Action::FindAnnounced), pq),
        lawful(answer(line), pq),
{
    reveal(lawful);
}

/// What holds of the reaction to a line: that it ends the console exactly if it asks for that,
/// and else what holds of every command.
pub(crate) proof fn lemma_command(line: Seq<char>, entropy: [u8; 32], settings: Settings)
    ensures
        asks_to_quit(line, settings.post_quantum) ==> command(line, entropy, settings) == stop(
            seq![],
        ),
        !asks_to_quit(line, settings.post_quantum) ==> lawful(
            command(line, entropy, settings),
            settings.post_quantum,
        ),
{
    reveal(command);
    let ws = words(line);
    let pq = settings.post_quantum;
    let unknown = "Unknown command. See `\"help\" for available commands."@;
    lemma_plain(ws, Report::Help, unknown, pq);
    if ws.len() > 0 {
        lemma_plain(ws, Report::Channels, unknown, pq);
        lemma_plain(ws, Report::Payments, unknown, pq);
        lemma_plain(ws, Report::Node, unknown, pq);
        lemma_plain(ws, Report::Peers, unknown, pq);
        lemma_plain(ws, Report::Nodes, unknown, pq);
        lemma_plain(ws, Report::Graph, unknown, pq);
        assert(command_named(ws[0], false) != Command::ConnectPeerPq) by {
            reveal(command_named);
        }
        lemma_open_channel(ws, pq);
        lemma_send_payment(ws, entropy, pq);
        lemma_keysend(ws, entropy, pq);
        lemma_get_invoice(ws, pq);
        lemma_refunds(ws, entropy, pq);
        lemma_async(ws, all_paths(ws.skip(1)), pq);
        lemma_peers(ws, pq);
        lemma_closing(ws, pq);
        lemma_signing(line, settings);
    }
}

/// Whether a line asks to end the console.
pub open spec fn asks_to_quit(line: Seq<char>, post_quantum: bool) -> bool {
    let ws = words(line);
    ws.len() > 0 && command_named(ws[0], post_quantum) == Command::Quit
}

/// Every payment that the console makes has been noted as pending, under the identifier that it
/// is made with, and the note has been saved just before.
pub proof fn law_payments_are_noted_first(state: StateView, event: Event, settings: Settings)
    ensures
        payments_noted(react(state, event, settings)),
{
    reveal(lawful);
    lemma_open_complaints(state);
    match event {
        Event::Line { text, entropy } => lemma_command(text@, entropy, settings),
        _ => {},
    }
}

/// Whenever the console notes something of a payment, what is remembered is written to disk.
pub proof fn law_notes_are_saved(state: StateView, event: Event, settings: Settings)
    ensures
        notes_saved(react(state, event, settings)),
{
    reveal(lawful);
    let r = react(state, event, settings);
    match event {
        Event::Line { text, entropy } => {
            lemma_command(text@, entropy, settings);
            if state is ConfirmOffer && r.record is Some {
                assert(r.actions[0] == ActionView::SaveOutbound);
            }
        },
        Event::Failed(_) => {
            if r.record is Some {
                assert(r.actions[2] == ActionView::SaveOutbound);
            }
        },
        Event::Invoice { .. } => {
            if r.record is Some {
                assert(r.actions[1] == ActionView::SaveInbound);
            }
        },
        Event::RefundClaimed { .. } => {
            if r.record is Some {
                assert(r.actions[0] == ActionView::SaveInbound);
            }
        },
        _ => {
            if r.record is Some {
                assert(r.actions[0] == ActionView::SaveOutbound);
            }
        },
    }
}

/// A node without the post-quantum extensions never enters a post-quantum connection, and never
/// asks for anything that needs the extensions.
pub proof fn law_vanilla_stays_classical(state: StateView, event: Event, settings: Settings)
    requires
        !settings.post_quantum,
        !is_post_quantum(state),
    ensures
        classical(react(state, event, settings)),
{
    let r = react(state, event, settings);
    match state {
        State::Ready => {
            match event {
                Event::Line { text, entropy } => {
                    lemma_command(text@, entropy, settings);
                    assert(classical(r)) by {
                        reveal(lawful);
                    }
                },
                _ => {},
            }
        },
        State::OpenPeer { words, .. } => {
            lemma_complaints(words.skip(3));
            assert(classical(r));
        },
        State::OpenConnected { words, .. } => {
            lemma_complaints(words.skip(3));
            assert(classical(r));
        },
        State::OpenConnect { words, .. } => {
            lemma_complaints(words.skip(3));
            assert(classical(r));
        },
        _ => {},
    }
}

/// Whenever a command is over, the last thing the console does is to ask for the next one.
pub proof fn law_commands_end_with_a_prompt(state: StateView, event: Event, settings: Settings)
    ensures
        prompts(react(state, event, settings)) || react(state, event, settings) == ignore(state),
{
    reveal(lawful);
    match event {
        Event::Line { text, entropy } => lemma_command(text@, entropy, settings),
        _ => {},
    }
}

/// Whether an event ends the console in a state.
pub open spec fn ends(state: StateView, event: Event, post_quantum: bool) -> bool {
    match (state, event) {
        (State::Stopped, _) => true,
        (State::Ready, Event::Line { text, .. }) => asks_to_quit(text@, post_quantum),
        (State::Ready, Event::EndOfInput) => true,
        (State::Ready, Event::InputFailed(_)) => true,
        (State::ConfirmOffer { .. }, Event::EndOfInput) => true,
        (State::ConfirmOffer { .. }, Event::InputFailed(_)) => true,
        _ => false,
    }
}

/// The console ends when the operator asks for it or can type nothing more, and only then; once
/// it has ended it does nothing.
pub proof fn law_console_ends(state: StateView, event: Event, settings: Settings)
    ensures
        react(state, event, settings).state == StateView::Stopped <==> ends(
            state,
            event,
            settings.post_quantum,
        ),
        state == StateView::Stopped ==> react(state, event, settings) == ignore(state),
{
    reveal(lawful);
    match event {
        Event::Line { text, entropy } => lemma_command(text@, entropy, settings),
        _ => {},
    }
}

/// A line without words does nothing.
pub proof fn law_blank_lines_do_nothing(line: Seq<char>, entropy: [u8; 32], settings: Settings)
    requires
        words(line).len() == 0,
    ensures
        command(line, entropy, settings) == finish(seq![]),
{
    reveal(command);
}

/// Spaces in front of a text disappear when it is trimmed.
proof fn lemma_trimmed_lead(lead: Seq<char>, s: Seq<char>)
    requires
        forall|i: int| 0 <= i < lead.len() ==> is_space(#[trigger] lead[i]),
    ensures
        leading_spaces(lead + s) == lead.len() + leading_spaces(s),
        trimmed(lead + s) == trimmed(s),
    decreases lead.len(),
{
    let t = lead + s;
    if lead.len() == 0 {
        assert(t =~= s);
    } else {
        assert(t[0] == lead[0]);
        assert(t.drop_first() =~= lead.drop_first() + s);
        lemma_trimmed_lead(lead.drop_first(), s);
        lemma_leading_bound(s);
        assert(t.skip(leading_spaces(t) as int) =~= s.skip(leading_spaces(s) as int));
    }
}

/// No more spaces stand at the front of a text than it has characters.
proof fn lemma_leading_bound(s: Seq<char>)
    ensures
        leading_spaces(s) <= s.len(),
    decreases s.len(),
{
    if s.len() > 0 {
        lemma_leading_bound(s.drop_first());
    }
}

/// Spaces in front of a line change nothing about what it asks for.
pub proof fn law_indented_lines_mean_the_same(
    lead: Seq<char>,
    line: Seq<char>,
    entropy: [u8; 32],
    settings: Settings,
)
    requires
        forall|i: int| 0 <= i < lead.len() ==> is_space(#[trigger] lead[i]),
    ensures
        command(lead + line, entropy, settings) == command(line, entropy, settings),
{
    reveal(command);
    reveal(sign_line);
    law_leading_spaces_are_ignored(lead, line);
    lemma_trimmed_lead(lead, line);
}

/// An invoice is paid only for the amount that it asks for, and only for the amount that the
/// operator names; where the two differ, or where there is neither, nothing is noted or paid.
pub proof fn law_invoice_amounts_agree(
    text: Seq<char>,
    invoice: InvoiceFacts,
    named: Option<u64>,
)
    ensures
        match pay_invoice(text, invoice, named).record {
            Some(record) => {
                &&& record matches Record::OutboundPending { payment_id, payment_secret, amt_msat }
                &&& payment_id == invoice.payment_hash
                &&& payment_secret == Some(invoice.payment_secret)
                &&& invoice.amount_msat is Some ==> invoice.amount_msat == Some(amt_msat)
                &&& named is Some ==> named == Some(amt_msat)
            },
            None => {
                &&& forall|i: int|
                    0 <= i < pay_invoice(text, invoice, named).actions.len() ==> payment_made(
                        #[trigger] pay_invoice(text, invoice, named).actions[i],
                    ) is None
                &&& invoice.amount_msat is Some == named is Some
                &&& invoice.amount_msat is Some ==> invoice.amount_msat != named
            },
        },
{
}

/// An offer is not paid at once unless the operator has named its amount.
pub proof fn law_offers_need_consent(
    offer: Seq<char>,
    offer_msat: Option<u64>,
    amount_text: Seq<char>,
    named: Option<u64>,
    payment_id: [u8; 32],
)
    ensures
        ({
            let r = pay_offer(offer, offer_msat, amount_text, named, payment_id);
            &&& r.record is Some <==> named is Some && (offer_msat is None || offer_msat == named)
            &&& r.record is None ==> forall|i: int|
                0 <= i < r.actions.len() ==> payment_made(#[trigger] r.actions[i]) is None
        }),
{
}

/// A human-readable name is never paid: the operator is told so, nothing is noted and nothing is
/// asked for.
pub proof fn law_names_are_not_paid(line: Seq<char>, entropy: [u8; 32], settings: Settings)
    requires
        words(line).len() >= 2,
        named_amount(words(line)) is Ok,
        command_named(words(line)[0], settings.post_quantum) == Command::SendPayment,
        bolt12_offer(words(line)[1]) is None,
        human_readable_name(words(line)[1]),
    ensures
        command(line, entropy, settings) == answer(
            "ERROR: paying human readable names is not supported"@,
        ),
{
    reveal(command);
    reveal(send_payment);
}

/// A post-quantum connection to a peer whose encapsulation key gossip has pinned is made with that
/// key, whatever the operator types behind the peer.
pub proof fn law_pinned_keys_are_used(
    words: Seq<Seq<char>>,
    addr: String,
    pin: Vec<u8>,
    settings: Settings,
)
    requires
        peer_info(words[1], Some(addr@)) is Ok,
    ensures
        ({
            let peer = peer_info(words[1], Some(addr@))->Ok_0;
            let resolved = react(State::PqAddress { words }, Event::Address(Some(addr)), settings);
            let pinned = react(resolved.state, Event::Pin(Some(pin)), settings);
            let dialled = react(pinned.state, Event::Peer(false), settings);
            &&& resolved.actions == seq![ActionView::FindPin(peer.0)]
            &&& dialled.actions == seq![
                ActionView::ConnectPq { pubkey: peer.0, addr: peer.1, kem_key: pin@ },
            ]
        }),
{
}

/// The paths that a list of byte strings spells out in hexadecimal are that list.
proof fn lemma_paths_read_back(paths: Seq<Seq<u8>>)
    requires
        forall|i: int| 0 <= i < paths.len() ==> blinded_message_path(#[trigger] paths[i]),
    ensures
        all_paths(hex_words(paths)) == Some(paths),
    decreases paths.len(),
{
    if paths.len() == 0 {
        assert(paths =~= Seq::<Seq<u8>>::empty());
    } else {
        let before = paths.drop_last();
        assert(forall|i: int| 0 <= i < before.len() ==> before[i] == paths[i]);
        lemma_paths_read_back(before);
        law_hex_round_trip(paths.last());
        assert(hex_words(paths).drop_last() =~= hex_words(before));
        assert(blinded_message_path(paths[paths.len() - 1]));
        assert(before.push(paths.last()) =~= paths);
    }
}

/// Byte strings in hexadecimal, a word each.
pub open spec fn hex_words(paths: Seq<Seq<u8>>) -> Seq<Seq<char>> {
    paths.map_values(|path: Seq<u8>| hex_text(path))
}

/// The words of a command with byte strings behind it.
proof fn lemma_words_of_paths(paths: Seq<Seq<u8>>)
    requires
        paths.len() >= 1,
        forall|i: int| 0 <= i < paths.len() ==> (#[trigger] paths[i]).len() > 0,
    ensures
        words("setasyncserver "@ + joined_hex(paths)) == seq!["setasyncserver"@] + hex_words(paths),
    decreases paths.len(),
{
    let name = "setasyncserver"@;
    let none = Seq::<char>::empty();
    reveal_strlit("setasyncserver");
    reveal_strlit("setasyncserver ");
    reveal_strlit(" ");
    assert("setasyncserver "@ =~= name + " "@);
    let last = hex_text(paths.last());
    lemma_hex_unbroken(paths.last());
    assert(paths[paths.len() - 1].len() > 0);
    if paths.len() == 1 {
        assert(name + none =~= name);
        lemma_words_of_run(name, none);
        lemma_words_appended(name, last);
        assert(words(name) =~= seq![name]);
        assert("setasyncserver "@ + joined_hex(paths) =~= name + " "@ + last);
        assert(hex_words(paths) =~= seq![last]);
        assert(seq![name].push(last) =~= seq![name] + hex_words(paths));
    } else {
        let before = paths.drop_last();
        assert(forall|i: int| 0 <= i < before.len() ==> before[i] == paths[i]);
        lemma_words_of_paths(before);
        lemma_words_appended("setasyncserver "@ + joined_hex(before), last);
        assert("setasyncserver "@ + joined_hex(paths) =~= "setasyncserver "@ + joined_hex(before)
            + " "@ + last);
        assert((seq![name] + hex_words(before)).push(last) =~= seq![name] + hex_words(paths));
    }
}

/// Paths are shown behind each other, with one space between each two.
pub proof fn law_paths_are_shown_in_order(paths: Seq<Seq<u8>>, path: Seq<u8>)
    ensures
        joined_hex(seq![path]) == hex_text(path),
        paths.len() > 0 ==> joined_hex(paths.push(path)) == joined_hex(paths) + " "@ + hex_text(
            path,
        ),
{
    assert(seq![path][0] == path);
    assert(paths.push(path).drop_last() =~= paths);
}

/// What a static invoice server shows for `asyncpaths` can be typed behind `setasyncserver` as it
/// is: the recipient uses exactly those paths.
pub proof fn law_paths_are_taken_back(
    paths: Seq<Seq<u8>>,
    entropy: [u8; 32],
    settings: Settings,
)
    requires
        paths.len() >= 1,
        forall|i: int|
            0 <= i < paths.len() ==> (#[trigger] paths[i]).len() > 0 && blinded_message_path(
                paths[i],
            ),
    ensures
        command("setasyncserver "@ + joined_hex(paths), entropy, settings) == ask(
            State::SetServerPaths,
            Action::SetServerPaths(paths),
        ),
{
    lemma_words_of_paths(paths);
    lemma_paths_read_back(paths);
    let ws = words("setasyncserver "@ + joined_hex(paths));
    assert(ws[0] == "setasyncserver"@);
    assert(ws.skip(1) =~= hex_words(paths));
    assert(command_named(ws[0], settings.post_quantum) == Command::SetAsyncServer) by {
        reveal(command_named);
        reveal_strlit("setasyncserver");
        reveal_strlit("help");
        reveal_strlit("openchannel");
        reveal_strlit("sendpayment");
        reveal_strlit("keysend");
        reveal_strlit("getoffer");
        reveal_strlit("getinvoice");
        reveal_strlit("getrefund");
        reveal_strlit("claimrefund");
        reveal_strlit("asyncpaths");
    }
    reveal(command);
    reveal(set_async_server);
}

/// The encapsulation key that a node shows of itself can be typed behind `connectpeerpq` as it is:
/// a peer that is not pinned yet is connected with exactly that key.
pub proof fn law_shown_keys_are_taken(pubkey: [u8; 33], addr: Seq<char>, key: Seq<u8>, len: usize)
    requires
        key.len() == len,
    ensures
        pq_pinned(pubkey, addr, Some(hex_text(key)), None, len) == ask(
            State::PqConnected { pubkey, addr, kem_key: key },
            Action::FindPeer(pubkey),
        ),
{
    law_hex_round_trip(key);
}

/// When the operator is asked about an offer, it is paid exactly if the answer begins with `Y`.
pub proof fn law_consent_is_a_yes(
    offer: Seq<char>,
    amt_msat: u64,
    payment_id: [u8; 32],
    line: Seq<char>,
)
    ensures
        ({
            let r = confirm_offer(offer, amt_msat, payment_id, line);
            &&& r.record is Some <==> begins_with(line, 'Y')
            &&& r.actions.contains(
                Action::PayOffer { offer, amt_msat, payment_id, retry_secs: PAYMENT_RETRY_SECS },
            )
                <==> begins_with(line, 'Y')
        }),
{
    let r = confirm_offer(offer, amt_msat, payment_id, line);
    let pay: ActionView = Action::PayOffer {
        offer,
        amt_msat,
        payment_id,
        retry_secs: PAYMENT_RETRY_SECS,
    };
    if begins_with(line, 'Y') {
        assert(r.actions[1] == pay);
    } else {
        assert forall|i: int| 0 <= i < r.actions.len() implies r.actions[i] != pay by {
            assert(r.actions[i] is Inline);
        }
    }
}

/// A peer is disconnected only if it is the one that was named, it is connected, and it has no
/// channel.
pub proof fn law_peers_with_channels_stay(
    pubkey: [u8; 33],
    channel_peers: Seq<[u8; 33]>,
    connected: bool,
    key: [u8; 33],
)
    ensures
        disconnect(pubkey, channel_peers, connected).actions.contains(
            ActionView::Disconnect(key),
        ) <==> key == pubkey && connected && !channel_peers.contains(pubkey),
{
    let r = disconnect(pubkey, channel_peers, connected);
    if connected && !channel_peers.contains(pubkey) {
        assert(r.actions[0] == ActionView::Disconnect(pubkey));
        if r.actions.contains(ActionView::Disconnect(key)) {
            let i = choose|i: int|
                0 <= i < r.actions.len() && r.actions[i] == ActionView::Disconnect(key);
            assert(i == 0);
        }
    }
}

/// What is noted concerns one payment: all others stay as they were, and what is noted of
/// inbound payments changes no outbound ones, nor the other way round.
pub proof fn law_notes_concern_one_payment(
    inbound: Map<[u8; 32], PaymentInfo>,
    outbound: Map<[u8; 32], PaymentInfo>,
    record: Option<Record>,
    id: [u8; 32],
)
    requires
        match record {
            Some(Record::InboundPending { payment_hash, .. }) => payment_hash != id,
            Some(Record::OutboundPending { payment_id, .. }) => payment_id != id,
            Some(Record::OutboundFailed { payment_id }) => payment_id != id,
            None => true,
        },
    ensures
        inbound_noted(inbound, record).dom().contains(id) == inbound.dom().contains(id),
        inbound_noted(inbound, record)[id] == inbound[id],
        outbound_noted(outbound, record).dom().contains(id) == outbound.dom().contains(id),
        outbound_noted(outbound, record)[id] == outbound[id],
        inbound_noted(inbound, record) == inbound || outbound_noted(outbound, record) == outbound,
{
}

/// A payment that could not be made after all is remembered as failed, with its amount and its
/// secret.
pub proof fn law_failed_payments_are_remembered(
    outbound: Map<[u8; 32], PaymentInfo>,
    payment_id: [u8; 32],
    payment_secret: Option<[u8; 32]>,
    amt_msat: u64,
)
    ensures
        outbound_noted(
            outbound_noted(
                outbound,
                Some(Record::OutboundPending { payment_id, payment_secret, amt_msat }),
            ),
            Some(Record::OutboundFailed { payment_id }),
        ) == outbound.insert(
            payment_id,
            failed_payment(pending_payment(payment_secret, amt_msat)),
        ),
{
    assert(outbound_noted(
        outbound_noted(
            outbound,
            Some(Record::OutboundPending { payment_id, payment_secret, amt_msat }),
        ),
        Some(Record::OutboundFailed { payment_id }),
    ) =~= outbound.insert(payment_id, failed_payment(pending_payment(payment_secret, amt_msat))));
}

} // verus!
