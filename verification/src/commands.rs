//! The commands of the console: what a typed line asks for.
//!
//! The model of each command is opaque, so that a proof about the console as a whole unfolds only
//! the commands that it reveals.

use crate::actions::{
    action_views, answer, answering, ask, asking, finish, finishing, no_actions, one_action,
    push_action, Action, ActionView, ChannelTerms, ConsoleAction, Reaction, ReactionView, Record,
    Report, State,
};
use crate::hex::{compressed_pubkey, hex_bytes, to_compressed_pubkey, to_vec};
use crate::ldk::{
    blinded_message_path, bolt11_invoice, bolt12_offer, bolt12_refund_fault, check_bolt12_refund,
    human_readable_name, is_blinded_message_path, is_human_readable_name, message_signature,
    public_key_from_slice, public_key_from_str, public_key_from_text, public_key_of,
    read_bolt11_invoice, read_bolt12_offer, sha256, sha256_hash, InvoiceFacts,
};
use crate::payments::{array32, to_array32};
use crate::peers::{peer_host, peer_pubkey, split_peer_info, PeerInfoError};
use crate::signing::NodeSecret;
use crate::startup::{KEYSEND_FINAL_CLTV_DELTA, PAYMENT_RETRY_SECS};
use crate::text::{
    decimal, decimal_text, parse_u32, parse_u64, split_words, text2, text3, text5, text_is, texts, trim,
    trimmed, u32_of, u64_of, words, NumberError,
};
use crate::wire::write_bytes;
use vstd::prelude::*;
use vstd::slice::slice_subrange;
use vstd::string::*;
use vstd::utf8::encode_utf8;

verus! {

/// What the console knows of the node that it belongs to.
pub struct Settings {
    /// Whether the node speaks the post-quantum extensions.
    pub post_quantum: bool,
    /// The length of an encapsulation key.
    pub kem_key_len: usize,
    /// The secret key of the node.
    pub secret: NodeSecret,
    /// The name that the node announces, padded with zeros.
    pub announced_node_name: [u8; 32],
    /// The addresses that the node announces.
    pub announced_addresses: Vec<String>,
}

/// The commands.
#[derive(Clone, Copy, Debug, PartialEq, Eq, Structural)]
pub enum Command {
    /// `help`
    Help,
    /// `openchannel`
    OpenChannel,
    /// `sendpayment`
    SendPayment,
    /// `keysend`
    Keysend,
    /// `getoffer`
    GetOffer,
    /// `getinvoice`
    GetInvoice,
    /// `getrefund`
    GetRefund,
    /// `claimrefund`
    ClaimRefund,
    /// `asyncpaths`
    AsyncPaths,
    /// `setasyncserver`
    SetAsyncServer,
    /// `getasyncoffer`
    GetAsyncOffer,
    /// `connectpeerpq`
    ConnectPeerPq,
    /// `connectpeer`
    ConnectPeer,
    /// `disconnectpeer`
    DisconnectPeer,
    /// `listchannels`
    ListChannels,
    /// `listpayments`
    ListPayments,
    /// `closechannel`
    CloseChannel,
    /// `forceclosechannel`
    ForceCloseChannel,
    /// `nodeinfo`
    NodeInfo,
    /// `listpeers`
    ListPeers,
    /// `listnodes`
    ListNodes,
    /// `graphinfo`
    GraphInfo,
    /// `announce`
    Announce,
    /// `signmessage`
    SignMessage,
    /// `quit` or `exit`
    Quit,
    /// Anything else.
    Unknown,
}

/// The command that a word names. The post-quantum connection is a command only where the node
/// speaks the post-quantum extensions.
#[verifier::opaque]
pub open spec fn command_named(word: Seq<char>, post_quantum: bool) -> Command {
    if word == "help"@ {
        Command::Help
    } else if word == "openchannel"@ {
        Command::OpenChannel
    } else if word == "sendpayment"@ {
        Command::SendPayment
    } else if word == "keysend"@ {
        Command::Keysend
    } else if word == "getoffer"@ {
        Command::GetOffer
    } else if word == "getinvoice"@ {
        Command::GetInvoice
    } else if word == "getrefund"@ {
        Command::GetRefund
    } else if word == "claimrefund"@ {
        Command::ClaimRefund
    } else if word == "asyncpaths"@ {
        Command::AsyncPaths
    } else if word == "setasyncserver"@ {
        Command::SetAsyncServer
    } else if word == "getasyncoffer"@ {
        Command::GetAsyncOffer
    } else if word == "connectpeerpq"@ && post_quantum {
        Command::ConnectPeerPq
    } else if word == "connectpeer"@ {
        Command::ConnectPeer
    } else if word == "disconnectpeer"@ {
        Command::DisconnectPeer
    } else if word == "listchannels"@ {
        Command::ListChannels
    } else if word == "listpayments"@ {
        Command::ListPayments
    } else if word == "closechannel"@ {
        Command::CloseChannel
    } else if word == "forceclosechannel"@ {
        Command::ForceCloseChannel
    } else if word == "nodeinfo"@ {
        Command::NodeInfo
    } else if word == "listpeers"@ {
        Command::ListPeers
    } else if word == "listnodes"@ {
        Command::ListNodes
    } else if word == "graphinfo"@ {
        Command::GraphInfo
    } else if word == "announce"@ {
        Command::Announce
    } else if word == "signmessage"@ {
        Command::SignMessage
    } else if word == "quit"@ || word == "exit"@ {
        Command::Quit
    } else {
        Command::Unknown
    }
}

/// Reads the name of a command.
pub fn read_command(word: &String, post_quantum: bool) -> (r: Command)
    ensures
        r == command_named(word@, post_quantum),
{
    proof {
        reveal(command_named);
    }
    if text_is(word, "help") {
        Command::Help
    } else if text_is(word, "openchannel") {
        Command::OpenChannel
    } else if text_is(word, "sendpayment") {
        Command::SendPayment
    } else if text_is(word, "keysend") {
        Command::Keysend
    } else if text_is(word, "getoffer") {
        Command::GetOffer
    } else if text_is(word, "getinvoice") {
        Command::GetInvoice
    } else if text_is(word, "getrefund") {
        Command::GetRefund
    } else if text_is(word, "claimrefund") {
        Command::ClaimRefund
    } else if text_is(word, "asyncpaths") {
        Command::AsyncPaths
    } else if text_is(word, "setasyncserver") {
        Command::SetAsyncServer
    } else if text_is(word, "getasyncoffer") {
        Command::GetAsyncOffer
    } else if text_is(word, "connectpeerpq") && post_quantum {
        Command::ConnectPeerPq
    } else if text_is(word, "connectpeer") {
        Command::ConnectPeer
    } else if text_is(word, "disconnectpeer") {
        Command::DisconnectPeer
    } else if text_is(word, "listchannels") {
        Command::ListChannels
    } else if text_is(word, "listpayments") {
        Command::ListPayments
    } else if text_is(word, "closechannel") {
        Command::CloseChannel
    } else if text_is(word, "forceclosechannel") {
        Command::ForceCloseChannel
    } else if text_is(word, "nodeinfo") {
        Command::NodeInfo
    } else if text_is(word, "listpeers") {
        Command::ListPeers
    } else if text_is(word, "listnodes") {
        Command::ListNodes
    } else if text_is(word, "graphinfo") {
        Command::GraphInfo
    } else if text_is(word, "announce") {
        Command::Announce
    } else if text_is(word, "signmessage") {
        Command::SignMessage
    } else if text_is(word, "quit") || text_is(word, "exit") {
        Command::Quit
    } else {
        Command::Unknown
    }
}

/// The delay on the node's own outputs that other implementations ask for at most.
pub const THEIR_TO_SELF_DELAY: u16 = 2016;

/// A setting of a channel to be opened.
#[derive(Clone, Copy, Debug, PartialEq, Eq, Structural)]
pub enum ChannelFlag {
    /// Whether the channel is announced.
    Public(bool),
    /// Whether anchor outputs are asked for.
    Anchors(bool),
    /// No setting at all.
    Invalid,
}

/// The setting that a word names.
pub open spec fn channel_flag(word: Seq<char>) -> ChannelFlag {
    if word == "--public"@ || word == "--public=true"@ {
        ChannelFlag::Public(true)
    } else if word == "--public=false"@ {
        ChannelFlag::Public(false)
    } else if word == "--with-anchors"@ || word == "--with-anchors=true"@ {
        ChannelFlag::Anchors(true)
    } else if word == "--with-anchors=false"@ {
        ChannelFlag::Anchors(false)
    } else {
        ChannelFlag::Invalid
    }
}

/// Whether the channel is announced: the last word that says so decides.
pub open spec fn is_public(flags: Seq<Seq<char>>) -> bool
    decreases flags.len(),
{
    flags.len() > 0 && match channel_flag(flags.last()) {
        ChannelFlag::Public(on) => on,
        _ => is_public(flags.drop_last()),
    }
}

/// Whether anchor outputs are asked for: the last word that says so decides.
pub open spec fn has_anchors(flags: Seq<Seq<char>>) -> bool
    decreases flags.len(),
{
    flags.len() > 0 && match channel_flag(flags.last()) {
        ChannelFlag::Anchors(on) => on,
        _ => has_anchors(flags.drop_last()),
    }
}

/// One line for every word that names no setting.
pub open spec fn flag_complaints(flags: Seq<Seq<char>>) -> Seq<ActionView>
    decreases flags.len(),
{
    if flags.len() == 0 {
        seq![]
    } else if channel_flag(flags.last()) == ChannelFlag::Invalid {
        flag_complaints(flags.drop_last()).push(
            Action::Print(
                "ERROR: invalid boolean flag format. Valid formats: `--option`, `--option=true` `--option=false`"@,
            ),
        )
    } else {
        flag_complaints(flags.drop_last())
    }
}

/// Reads a setting of a channel.
fn read_channel_flag(word: &String) -> (r: ChannelFlag)
    ensures
        r == channel_flag(word@),
{
    if text_is(word, "--public") || text_is(word, "--public=true") {
        ChannelFlag::Public(true)
    } else if text_is(word, "--public=false") {
        ChannelFlag::Public(false)
    } else if text_is(word, "--with-anchors") || text_is(word, "--with-anchors=true") {
        ChannelFlag::Anchors(true)
    } else if text_is(word, "--with-anchors=false") {
        ChannelFlag::Anchors(false)
    } else {
        ChannelFlag::Invalid
    }
}

/// What `openchannel` asks for first: the peer has to be connected.
#[verifier::opaque]
pub open spec fn open_channel(ws: Seq<Seq<char>>) -> ReactionView {
    if ws.len() < 3 {
        answer(
            "ERROR: openchannel has 2 required arguments: `openchannel pubkey@host:port channel_amt_satoshis` [--public] [--with-anchors]"@,
        )
    } else {
        match peer_pubkey(ws[1]) {
            None => answer("ERROR: unable to parse given pubkey for node"@),
            Some(pubkey) => match peer_host(ws[1]) {
                None => ask(State::OpenPeer { pubkey, words: ws }, Action::FindPeer(pubkey)),
                Some(host) => ask(State::OpenAddress { words: ws }, Action::Resolve(host)),
            },
        }
    }
}

/// Begins to open a channel.
pub fn start_open_channel(ws: Vec<String>) -> (r: Reaction)
    ensures
        r@ == open_channel(texts(ws@)),
{
    proof {
        reveal(open_channel);
    }
    if ws.len() < 3 {
        return answering(
            "ERROR: openchannel has 2 required arguments: `openchannel pubkey@host:port channel_amt_satoshis` [--public] [--with-anchors]".to_owned(),
        );
    }
    let parts: (Option<[u8; 33]>, Option<String>) = split_peer_info(ws[1].as_str());
    match parts.0 {
        None => answering("ERROR: unable to parse given pubkey for node".to_owned()),
        Some(pubkey) => match parts.1 {
            None => asking(State::OpenPeer { pubkey, words: ws }, Action::FindPeer(pubkey)),
            Some(host) => asking(State::OpenAddress { words: ws }, Action::Resolve(host)),
        },
    }
}

/// What `openchannel` asks for once the peer is connected: the channel, on the terms that the
/// words name.
pub open spec fn open_connected(pubkey: [u8; 33], ws: Seq<Seq<char>>) -> ReactionView {
    match u64_of(ws[2]) {
        Err(_) => answer("ERROR: channel amount must be a number"@),
        Ok(value_sat) => ReactionView {
            state: State::OpenCreate { pubkey },
            record: None,
            actions: flag_complaints(ws.skip(3)).push(
                Action::OpenChannel {
                    peer: pubkey,
                    terms: ChannelTerms {
                        value_sat,
                        announce_for_forwarding: is_public(ws.skip(3)),
                        with_anchors: has_anchors(ws.skip(3)),
                        their_to_self_delay: THEIR_TO_SELF_DELAY,
                        push_msat: 0,
                        user_channel_id: 0,
                    },
                },
            ),
        },
    }
}

/// Goes on to open a channel once the peer is connected.
pub fn finish_open_channel(pubkey: [u8; 33], ws: &Vec<String>) -> (r: Reaction)
    requires
        ws@.len() >= 3,
    ensures
        r@ == open_connected(pubkey, texts(ws@)),
{
    let value_sat: u64 = match parse_u64(ws[2].as_str()) {
        Err(_) => return answering("ERROR: channel amount must be a number".to_owned()),
        Ok(v) => v,
    };
    let ghost flags = texts(ws@).skip(3);
    let mut actions: Vec<ConsoleAction> = no_actions();
    let mut announce_for_forwarding: bool = false;
    let mut with_anchors: bool = false;
    let mut i: usize = 3;
    assert(flags.take(0) =~= Seq::<Seq<char>>::empty());
    while i < ws.len()
        invariant
            3 <= i <= ws@.len(),
            flags == texts(ws@).skip(3),
            announce_for_forwarding == is_public(flags.take(i - 3)),
            with_anchors == has_anchors(flags.take(i - 3)),
            action_views(actions@) == flag_complaints(flags.take(i - 3)),
        decreases ws.len() - i,
    {
        proof {
            assert(flags.take(i - 2).drop_last() =~= flags.take(i - 3));
            assert(flags.take(i - 2).last() == ws@[i as int]@);
        }
        match read_channel_flag(&ws[i]) {
            ChannelFlag::Public(on) => {
                announce_for_forwarding = on;
            },
            ChannelFlag::Anchors(on) => {
                with_anchors = on;
            },
            ChannelFlag::Invalid => {
                push_action(
                    &mut actions,
                    Action::Print(
                        "ERROR: invalid boolean flag format. Valid formats: `--option`, `--option=true` `--option=false`".to_owned(),
                    ),
                );
            },
        }
        i = i + 1;
    }
    assert(flags.take(i - 3) =~= flags);
    let terms: ChannelTerms = ChannelTerms {
        value_sat,
        announce_for_forwarding,
        with_anchors,
        their_to_self_delay: THEIR_TO_SELF_DELAY,
        push_msat: 0,
        user_channel_id: 0,
    };
    push_action(&mut actions, Action::OpenChannel { peer: pubkey, terms });
    Reaction { state: State::OpenCreate { pubkey }, record: None, actions }
}

/// The amount that the operator names behind an invoice or an offer, if any.
pub open spec fn named_amount(ws: Seq<Seq<char>>) -> Result<Option<u64>, NumberError> {
    if ws.len() < 3 {
        Ok(None)
    } else {
        match u64_of(ws[2]) {
            Ok(amt) => Ok(Some(amt)),
            Err(e) => Err(e),
        }
    }
}

/// An amount that is no number.
pub open spec fn bad_amount(e: NumberError) -> ReactionView {
    answer("ERROR: couldn't parse amount_msat: "@ + e.text())
}

/// Answers an amount that is no number.
fn answer_bad_amount(e: NumberError) -> (r: Reaction)
    ensures
        r@ == bad_amount(e),
{
    answering(text2("ERROR: couldn't parse amount_msat: ", e.message().as_str()))
}

/// What `sendpayment` does: it pays an offer or an invoice.
#[verifier::opaque]
pub open spec fn send_payment(ws: Seq<Seq<char>>, entropy: [u8; 32]) -> ReactionView {
    if ws.len() < 2 {
        answer(
            "ERROR: sendpayment requires an invoice: `sendpayment <invoice> [amount_msat]`"@,
        )
    } else {
        match named_amount(ws) {
            Err(e) => bad_amount(e),
            Ok(named) => match bolt12_offer(ws[1]) {
                Some(offer) => pay_offer(ws[1], offer.0, offer.1, named, entropy),
                None => if human_readable_name(ws[1]) {
                    answer("ERROR: paying human readable names is not supported"@)
                } else {
                    match bolt11_invoice(ws[1]) {
                        Ok(invoice) => pay_invoice(ws[1], invoice, named),
                        Err(e) => answer("ERROR: invalid invoice: "@ + e),
                    }
                },
            },
        }
    }
}

/// How an offer is paid, given its amount where it is one of bitcoin, the text of its amount
/// whatever it is, and the amount that the operator names. Where the operator names none, the
/// operator is asked first.
pub open spec fn pay_offer(
    offer: Seq<char>,
    offer_msat: Option<u64>,
    amount_text: Seq<char>,
    named: Option<u64>,
    payment_id: [u8; 32],
) -> ReactionView {
    match (offer_msat, named) {
        (None, None) => answer(
            "ERROR: Cannot process non-Bitcoin-denominated offer value "@ + amount_text,
        ),
        (Some(amt_msat), None) => ask(
            State::ConfirmOffer { offer, amt_msat, payment_id },
            confirm_question(amt_msat),
        ),
        (Some(amt_msat), Some(wanted)) if wanted != amt_msat => answer(
            "Amount didn't match offer of "@ + decimal_text(amt_msat as nat) + "msat"@,
        ),
        (_, Some(amt_msat)) => pay_offer_now(offer, amt_msat, payment_id),
    }
}

/// The question before an offer is paid.
pub open spec fn confirm_question(amt_msat: u64) -> ActionView {
    Action::Inline(
        "Paying offer for "@ + decimal_text(amt_msat as nat) + " msat. Continue (Y/N)? >"@,
    )
}

/// An offer is paid: the payment is noted, the note is saved, and the payment is made.
pub open spec fn pay_offer_now(
    offer: Seq<char>,
    amt_msat: u64,
    payment_id: [u8; 32],
) -> ReactionView {
    ReactionView {
        state: State::PayOffer,
        record: Some(
            Record::OutboundPending { payment_id, payment_secret: None, amt_msat },
        ),
        actions: seq![
            Action::SaveOutbound,
            Action::PayOffer { offer, amt_msat, payment_id, retry_secs: PAYMENT_RETRY_SECS },
        ],
    }
}

/// The amount to pay for an invoice: the one of the invoice, or, where it has none, the one that
/// the operator names. There is none where the two disagree or are both missing.
pub open spec fn invoice_amount(invoice_msat: Option<u64>, named: Option<u64>) -> Option<u64> {
    match (invoice_msat, named) {
        (Some(inv), Some(req)) => if inv == req {
            Some(inv)
        } else {
            None
        },
        (Some(inv), None) => Some(inv),
        (None, Some(req)) => Some(req),
        (None, None) => None,
    }
}

/// An invoice is not paid.
pub open spec fn refuse(line: Seq<char>) -> ReactionView {
    finish(seq![Action::Print(line), Action::Inline("> "@)])
}

/// How an invoice is paid: the payment is noted under its hash, the note is saved, and the
/// payment is made.
pub open spec fn pay_invoice(
    text: Seq<char>,
    invoice: InvoiceFacts,
    named: Option<u64>,
) -> ReactionView {
    match invoice_amount(invoice.amount_msat, named) {
        None => refuse(
            match invoice.amount_msat {
                Some(inv) => "Amount didn't match invoice value of "@ + decimal_text(inv as nat)
                    + "msat"@,
                None => "Need an amount to pay an amountless invoice"@,
            },
        ),
        Some(amt_msat) => ReactionView {
            state: State::Sending {
                payment_id: invoice.payment_hash,
                amt_msat,
                payee: invoice.payee,
            },
            record: Some(
                Record::OutboundPending {
                    payment_id: invoice.payment_hash,
                    payment_secret: Some(invoice.payment_secret),
                    amt_msat,
                },
            ),
            actions: seq![
                Action::SaveOutbound,
                Action::PayInvoice {
                    invoice: text,
                    named_msat: named,
                    payment_id: invoice.payment_hash,
                    retry_secs: PAYMENT_RETRY_SECS,
                },
            ],
        },
    }
}

/// What `keysend` does: it pays a node under a preimage of the payer's own.
#[verifier::opaque]
pub open spec fn keysend(ws: Seq<Seq<char>>, entropy: [u8; 32]) -> ReactionView {
    if ws.len() < 2 {
        answer(
            "ERROR: keysend requires a destination pubkey: `keysend <dest_pubkey> <amt_msat>`"@,
        )
    } else {
        match compressed_pubkey(ws[1]) {
            None => answer("ERROR: couldn't parse destination pubkey"@),
            Some(dest) => if ws.len() < 3 {
                answer(
                    "ERROR: keysend requires an amount in millisatoshis: `keysend <dest_pubkey> <amt_msat>`"@,
                )
            } else {
                match u64_of(ws[2]) {
                    Err(e) => bad_amount(e),
                    Ok(amt_msat) => {
                        let payment_id = sha256(entropy@);
                        ReactionView {
                            state: State::Sending { payment_id, amt_msat, payee: dest },
                            record: Some(
                                Record::OutboundPending {
                                    payment_id,
                                    payment_secret: None,
                                    amt_msat,
                                },
                            ),
                            actions: seq![
                                Action::SaveOutbound,
                                Action::Keysend {
                                    dest,
                                    amt_msat,
                                    preimage: entropy,
                                    payment_id,
                                    final_cltv_delta: KEYSEND_FINAL_CLTV_DELTA,
                                    allow_mpp: false,
                                    retry_secs: PAYMENT_RETRY_SECS,
                                },
                            ],
                        }
                    },
                }
            },
        }
    }
}

/// Asks the operator before an offer is paid.
pub(crate) fn ask_to_confirm(offer: String, amt_msat: u64, payment_id: [u8; 32]) -> (r: Reaction)
    ensures
        r@ == ask(
            State::ConfirmOffer { offer: offer@, amt_msat, payment_id },
            confirm_question(amt_msat),
        ),
{
    let question: String = text3(
        "Paying offer for ",
        decimal(amt_msat).as_str(),
        " msat. Continue (Y/N)? >",
    );
    asking(State::ConfirmOffer { offer, amt_msat, payment_id }, Action::Inline(question))
}

/// Pays an offer.
pub fn start_pay_offer_now(offer: String, amt_msat: u64, payment_id: [u8; 32]) -> (r: Reaction)
    ensures
        r@ == pay_offer_now(offer@, amt_msat, payment_id),
{
    let mut actions: Vec<ConsoleAction> = one_action(Action::SaveOutbound);
    push_action(
        &mut actions,
        Action::PayOffer { offer, amt_msat, payment_id, retry_secs: PAYMENT_RETRY_SECS },
    );
    assert(action_views(actions@) =~= pay_offer_now(offer@, amt_msat, payment_id).actions);
    Reaction {
        state: State::PayOffer,
        record: Some(Record::OutboundPending { payment_id, payment_secret: None, amt_msat }),
        actions,
    }
}

/// Begins to pay an offer.
pub fn start_pay_offer(
    offer: String,
    offer_msat: Option<u64>,
    amount_text: &str,
    named: Option<u64>,
    payment_id: [u8; 32],
) -> (r: Reaction)
    ensures
        r@ == pay_offer(offer@, offer_msat, amount_text@, named, payment_id),
{
    match (offer_msat, named) {
        (None, None) => answering(
            text2("ERROR: Cannot process non-Bitcoin-denominated offer value ", amount_text),
        ),
        (Some(amt_msat), None) => ask_to_confirm(offer, amt_msat, payment_id),
        (Some(amt_msat), Some(wanted)) => {
            if wanted != amt_msat {
                answering(
                    text3("Amount didn't match offer of ", decimal(amt_msat).as_str(), "msat"),
                )
            } else {
                start_pay_offer_now(offer, amt_msat, payment_id)
            }
        },
        (None, Some(amt_msat)) => start_pay_offer_now(offer, amt_msat, payment_id),
    }
}

/// Begins to pay an invoice.
pub fn start_pay_invoice(text: String, invoice: InvoiceFacts, named: Option<u64>) -> (r: Reaction)
    ensures
        r@ == pay_invoice(text@, invoice, named),
{
    let amt_msat: u64 = match (invoice.amount_msat, named) {
        (Some(inv), Some(req)) => {
            if inv != req {
                return refuse_amount(
                    text3(
                        "Amount didn't match invoice value of ",
                        decimal(inv).as_str(),
                        "msat",
                    ),
                );
            }
            inv
        },
        (Some(inv), None) => inv,
        (None, Some(req)) => req,
        (None, None) => {
            return refuse_amount("Need an amount to pay an amountless invoice".to_owned());
        },
    };
    let payment_id: [u8; 32] = invoice.payment_hash;
    let mut actions: Vec<ConsoleAction> = one_action(Action::SaveOutbound);
    push_action(
        &mut actions,
        Action::PayInvoice {
            invoice: text,
            named_msat: named,
            payment_id,
            retry_secs: PAYMENT_RETRY_SECS,
        },
    );
    assert(action_views(actions@) =~= pay_invoice(text@, invoice, named).actions);
    Reaction {
        state: State::Sending { payment_id, amt_msat, payee: invoice.payee },
        record: Some(
            Record::OutboundPending {
                payment_id,
                payment_secret: Some(invoice.payment_secret),
                amt_msat,
            },
        ),
        actions,
    }
}

/// Refuses to pay an invoice.
fn refuse_amount(line: String) -> (r: Reaction)
    ensures
        r@ == refuse(line@),
{
    let mut actions: Vec<ConsoleAction> = one_action(Action::Print(line));
    push_action(&mut actions, Action::Inline("> ".to_owned()));
    assert(action_views(actions@) =~= seq![Action::Print(line@), Action::Inline("> "@)]);
    finishing(actions)
}

/// Begins to pay an offer or an invoice.
pub fn start_send_payment(ws: &Vec<String>, entropy: [u8; 32]) -> (r: Reaction)
    ensures
        r@ == send_payment(texts(ws@), entropy),
{
    proof {
        reveal(send_payment);
    }
    if ws.len() < 2 {
        return answering(
            "ERROR: sendpayment requires an invoice: `sendpayment <invoice> [amount_msat]`".to_owned(),
        );
    }
    let mut named: Option<u64> = None;
    if ws.len() >= 3 {
        match parse_u64(ws[2].as_str()) {
            Ok(amt) => {
                named = Some(amt);
            },
            Err(e) => return answer_bad_amount(e),
        }
    }
    let text: String = ws[1].clone();
    match read_bolt12_offer(text.as_str()) {
        Some(offer) => start_pay_offer(text, offer.0, offer.1.as_str(), named, entropy),
        None => {
            if is_human_readable_name(text.as_str()) {
                return answering(
                    "ERROR: paying human readable names is not supported".to_owned(),
                );
            }
            match read_bolt11_invoice(text.as_str()) {
                Ok(invoice) => start_pay_invoice(text, invoice, named),
                Err(e) => answering(text2("ERROR: invalid invoice: ", e.as_str())),
            }
        },
    }
}

/// Begins to pay a node.
pub fn start_keysend(ws: &Vec<String>, entropy: [u8; 32]) -> (r: Reaction)
    ensures
        r@ == keysend(texts(ws@), entropy),
{
    proof {
        reveal(keysend);
    }
    if ws.len() < 2 {
        return answering(
            "ERROR: keysend requires a destination pubkey: `keysend <dest_pubkey> <amt_msat>`".to_owned(),
        );
    }
    let dest: [u8; 33] = match to_compressed_pubkey(ws[1].as_str()) {
        None => return answering("ERROR: couldn't parse destination pubkey".to_owned()),
        Some(dest) => dest,
    };
    if ws.len() < 3 {
        return answering(
            "ERROR: keysend requires an amount in millisatoshis: `keysend <dest_pubkey> <amt_msat>`".to_owned(),
        );
    }
    let amt_msat: u64 = match parse_u64(ws[2].as_str()) {
        Err(e) => return answer_bad_amount(e),
        Ok(amt) => amt,
    };
    let payment_id: [u8; 32] = sha256_hash(entropy.as_slice());
    let mut actions: Vec<ConsoleAction> = one_action(Action::SaveOutbound);
    push_action(
        &mut actions,
        Action::Keysend {
            dest,
            amt_msat,
            preimage: entropy,
            payment_id,
            final_cltv_delta: KEYSEND_FINAL_CLTV_DELTA,
            allow_mpp: false,
            retry_secs: PAYMENT_RETRY_SECS,
        },
    );
    assert(action_views(actions@) =~= keysend(texts(ws@), entropy).actions);
    Reaction {
        state: State::Sending { payment_id, amt_msat, payee: dest },
        record: Some(Record::OutboundPending { payment_id, payment_secret: None, amt_msat }),
        actions,
    }
}

/// Whether an invoice leaves out the post-quantum key, or the flag that is none.
pub open spec fn invoice_flag(ws: Seq<Seq<char>>, post_quantum: bool) -> Result<bool, Seq<char>> {
    if ws.len() < 4 {
        Ok(false)
    } else if ws[3] == "--pq-omit-pubkey"@ && post_quantum {
        Ok(true)
    } else {
        Err(ws[3])
    }
}

/// What `getinvoice` asks for: an invoice over an amount with an expiry.
#[verifier::opaque]
pub open spec fn get_invoice(ws: Seq<Seq<char>>, post_quantum: bool) -> ReactionView {
    if ws.len() < 2 {
        answer("ERROR: getinvoice requires an amount in millisatoshis"@)
    } else if u64_of(ws[1]) is Err {
        answer("ERROR: getinvoice provided payment amount was not a number"@)
    } else if ws.len() < 3 {
        answer("ERROR: getinvoice requires an expiry in seconds"@)
    } else if u32_of(ws[2]) is Err {
        answer("ERROR: getinvoice provided expiry was not a number"@)
    } else {
        match invoice_flag(ws, post_quantum) {
            Err(flag) => answer("ERROR: getinvoice got unknown flag "@ + flag),
            Ok(pq_omit_pubkey) => {
                let amt_msat = u64_of(ws[1])->Ok_0;
                ask(
                    State::CreateInvoice { amt_msat },
                    Action::CreateInvoice {
                        amt_msat,
                        expiry_secs: u32_of(ws[2])->Ok_0,
                        pq_omit_pubkey,
                    },
                )
            },
        }
    }
}

/// Begins to create an invoice.
pub fn start_get_invoice(ws: &Vec<String>, post_quantum: bool) -> (r: Reaction)
    ensures
        r@ == get_invoice(texts(ws@), post_quantum),
{
    proof {
        reveal(get_invoice);
    }
    if ws.len() < 2 {
        return answering("ERROR: getinvoice requires an amount in millisatoshis".to_owned());
    }
    let amt_msat: u64 = match parse_u64(ws[1].as_str()) {
        Err(_) => return answering(
            "ERROR: getinvoice provided payment amount was not a number".to_owned(),
        ),
        Ok(amt) => amt,
    };
    if ws.len() < 3 {
        return answering("ERROR: getinvoice requires an expiry in seconds".to_owned());
    }
    let expiry_secs: u32 = match parse_u32(ws[2].as_str()) {
        Err(_) => return answering(
            "ERROR: getinvoice provided expiry was not a number".to_owned(),
        ),
        Ok(secs) => secs,
    };
    let mut pq_omit_pubkey: bool = false;
    if ws.len() >= 4 {
        if text_is(&ws[3], "--pq-omit-pubkey") && post_quantum {
            pq_omit_pubkey = true;
        } else {
            return answering(text2("ERROR: getinvoice got unknown flag ", ws[3].as_str()));
        }
    }
    asking(
        State::CreateInvoice { amt_msat },
        Action::CreateInvoice { amt_msat, expiry_secs, pq_omit_pubkey },
    )
}

/// What `getrefund` asks for: a refund of an amount with an expiry.
#[verifier::opaque]
pub open spec fn get_refund(ws: Seq<Seq<char>>, payment_id: [u8; 32]) -> ReactionView {
    if ws.len() < 2 || u64_of(ws[1]) is Err {
        answer(
            "ERROR: getrefund requires an amount in millisatoshis and an expiry in seconds: `getrefund <amt_msats> <expiry_secs>`"@,
        )
    } else if ws.len() < 3 || u64_of(ws[2]) is Err {
        answer(
            "ERROR: getrefund requires an expiry in seconds: `getrefund <amt_msats> <expiry_secs>`"@,
        )
    } else {
        let amt_msat = u64_of(ws[1])->Ok_0;
        ask(
            State::StartRefund { amt_msat, payment_id },
            Action::StartRefund {
                amt_msat,
                lifetime_secs: u64_of(ws[2])->Ok_0,
                payment_id,
                retry_secs: PAYMENT_RETRY_SECS,
            },
        )
    }
}

/// Begins a refund.
pub fn start_get_refund(ws: &Vec<String>, payment_id: [u8; 32]) -> (r: Reaction)
    ensures
        r@ == get_refund(texts(ws@), payment_id),
{
    proof {
        reveal(get_refund);
    }
    let amt_msat: Option<u64> = optional_number(ws, 1);
    let lifetime_secs: Option<u64> = optional_number(ws, 2);
    match amt_msat {
        None => answering(
            "ERROR: getrefund requires an amount in millisatoshis and an expiry in seconds: `getrefund <amt_msats> <expiry_secs>`".to_owned(),
        ),
        Some(amt_msat) => match lifetime_secs {
            None => answering(
                "ERROR: getrefund requires an expiry in seconds: `getrefund <amt_msats> <expiry_secs>`".to_owned(),
            ),
            Some(lifetime_secs) => asking(
                State::StartRefund { amt_msat, payment_id },
                Action::StartRefund {
                    amt_msat,
                    lifetime_secs,
                    payment_id,
                    retry_secs: PAYMENT_RETRY_SECS,
                },
            ),
        },
    }
}

/// The number at a position, if there is one.
fn optional_number(ws: &Vec<String>, i: usize) -> (r: Option<u64>)
    ensures
        r == (if i < ws@.len() && u64_of(ws@[i as int]@) is Ok {
            Some(u64_of(ws@[i as int]@)->Ok_0)
        } else {
            None
        }),
{
    if i < ws.len() {
        match parse_u64(ws[i].as_str()) {
            Ok(n) => Some(n),
            Err(_) => None,
        }
    } else {
        None
    }
}

/// What `claimrefund` asks for: the payment of the refund that a word spells out.
#[verifier::opaque]
pub open spec fn claim_refund(ws: Seq<Seq<char>>) -> ReactionView {
    if ws.len() < 2 {
        answer("ERROR: claimrefund requires a refund string: `claimrefund <refund>`"@)
    } else {
        claim_read_refund(ws[1], bolt12_refund_fault(ws[1]))
    }
}

/// How a refund is claimed, given what is wrong with its text, if anything.
pub open spec fn claim_read_refund(text: Seq<char>, fault: Option<Seq<char>>) -> ReactionView {
    match fault {
        Some(e) => answer("ERROR: invalid refund: "@ + e),
        None => ask(State::ClaimRefund, Action::ClaimRefund(text)),
    }
}

/// Begins to claim a refund that has been read.
pub fn start_claim_read_refund(text: String, fault: Option<String>) -> (r: Reaction)
    ensures
        r@ == claim_read_refund(
            text@,
            match fault {
                Some(e) => Some(e@),
                None => None,
            },
        ),
{
    match fault {
        Some(e) => answering(text2("ERROR: invalid refund: ", e.as_str())),
        None => asking(State::ClaimRefund, Action::ClaimRefund(text)),
    }
}

/// Begins to claim a refund.
pub fn start_claim_refund(ws: &Vec<String>) -> (r: Reaction)
    ensures
        r@ == claim_refund(texts(ws@)),
{
    proof {
        reveal(claim_refund);
    }
    if ws.len() < 2 {
        return answering(
            "ERROR: claimrefund requires a refund string: `claimrefund <refund>`".to_owned(),
        );
    }
    let text: String = ws[1].clone();
    let fault: Option<String> = check_bolt12_refund(text.as_str());
    start_claim_read_refund(text, fault)
}

/// What `asyncpaths` asks for: paths for the recipient that a word names.
#[verifier::opaque]
pub open spec fn async_paths(ws: Seq<Seq<char>>) -> ReactionView {
    if ws.len() < 2 {
        answer("ERROR: asyncpaths requires a recipient id: `asyncpaths <recipient_id>`"@)
    } else {
        ask(State::AsyncPaths, Action::AsyncPaths(encode_utf8(ws[1])))
    }
}

/// Begins to create paths.
pub fn start_async_paths(ws: &Vec<String>) -> (r: Reaction)
    ensures
        r@ == async_paths(texts(ws@)),
{
    proof {
        reveal(async_paths);
    }
    if ws.len() < 2 {
        return answering(
            "ERROR: asyncpaths requires a recipient id: `asyncpaths <recipient_id>`".to_owned(),
        );
    }
    let mut id: Vec<u8> = Vec::new();
    write_bytes(&mut id, ws[1].as_str().as_bytes());
    assert(id@ =~= encode_utf8(ws@[1]@));
    asking(State::AsyncPaths, Action::AsyncPaths(id))
}

/// The path that a word spells out in hexadecimal, if it does.
pub open spec fn path_bytes(word: Seq<char>) -> Option<Seq<u8>> {
    match hex_bytes(word) {
        Some(bytes) => if blinded_message_path(bytes) {
            Some(bytes)
        } else {
            None
        },
        None => None,
    }
}

/// The paths that words spell out, if each of them does.
pub open spec fn all_paths(ws: Seq<Seq<char>>) -> Option<Seq<Seq<u8>>>
    decreases ws.len(),
{
    if ws.len() == 0 {
        Some(seq![])
    } else {
        match (all_paths(ws.drop_last()), path_bytes(ws.last())) {
            (Some(before), Some(bytes)) => Some(before.push(bytes)),
            _ => None,
        }
    }
}

/// One word that spells out no path spoils them all.
proof fn lemma_all_paths(ws: Seq<Seq<char>>, n: int)
    requires
        0 <= n <= ws.len(),
        all_paths(ws.take(n)) is None,
    ensures
        all_paths(ws) is None,
    decreases ws.len() - n,
{
    if n < ws.len() {
        assert(ws.take(n + 1).drop_last() =~= ws.take(n));
        lemma_all_paths(ws, n + 1);
    } else {
        assert(ws.take(n) =~= ws);
    }
}

/// What is wanted by `setasyncserver`.
pub open spec fn server_paths_usage() -> ActionView {
    Action::Print(
        "ERROR: setasyncserver requires paths from the server's `asyncpaths`: `setasyncserver <path_hex>...`"@,
    )
}

/// What `setasyncserver` asks for, given the paths that its words spell out: to use them, if
/// there are any.
#[verifier::opaque]
pub open spec fn set_async_server(paths: Option<Seq<Seq<u8>>>) -> ReactionView {
    match paths {
        None => finish(
            seq![
                Action::Print("ERROR: couldn't parse blinded message path hex"@),
                server_paths_usage(),
            ],
        ),
        Some(paths) => if paths.len() == 0 {
            finish(seq![server_paths_usage()])
        } else {
            ask(State::SetServerPaths, Action::SetServerPaths(paths))
        },
    }
}

/// Reads the paths of a static invoice server.
fn read_paths(ws: &Vec<String>) -> (r: Option<Vec<Vec<u8>>>)
    requires
        ws@.len() >= 1,
    ensures
        match r {
            Some(paths) => all_paths(texts(ws@).skip(1)) == Some(
                crate::actions::byte_strings(paths@),
            ),
            None => all_paths(texts(ws@).skip(1)) is None,
        },
{
    let ghost hexes = texts(ws@).skip(1);
    let mut paths: Vec<Vec<u8>> = Vec::new();
    let mut i: usize = 1;
    proof {
        assert(hexes.take(0) =~= Seq::<Seq<char>>::empty());
        assert(crate::actions::byte_strings(paths@) =~= Seq::<Seq<u8>>::empty());
    }
    while i < ws.len()
        invariant
            1 <= i <= ws@.len(),
            hexes == texts(ws@).skip(1),
            all_paths(hexes.take(i - 1)) == Some(crate::actions::byte_strings(paths@)),
        decreases ws.len() - i,
    {
        let ghost before = crate::actions::byte_strings(paths@);
        proof {
            assert(hexes.take(i as int).drop_last() =~= hexes.take(i - 1));
            assert(hexes.take(i as int).last() == ws@[i as int]@);
        }
        let bytes: Vec<u8> = match to_vec(ws[i].as_str()) {
            Some(bytes) => bytes,
            None => {
                proof {
                    lemma_all_paths(hexes, i as int);
                }
                return None;
            },
        };
        if !is_blinded_message_path(bytes.as_slice()) {
            proof {
                lemma_all_paths(hexes, i as int);
            }
            return None;
        }
        paths.push(bytes);
        assert(crate::actions::byte_strings(paths@) =~= before.push(bytes@));
        i = i + 1;
    }
    assert(hexes.take(i - 1) =~= hexes);
    Some(paths)
}

/// Begins to use the paths of a static invoice server that have been read.
pub fn start_set_async_server(paths: Option<Vec<Vec<u8>>>) -> (r: Reaction)
    ensures
        r@ == set_async_server(
            match paths {
                Some(paths) => Some(crate::actions::byte_strings(paths@)),
                None => None,
            },
        ),
{
    proof {
        reveal(set_async_server);
    }
    let usage: String =
        "ERROR: setasyncserver requires paths from the server's `asyncpaths`: `setasyncserver <path_hex>...`".to_owned();
    match paths {
        None => {
            let mut actions: Vec<ConsoleAction> = one_action(
                Action::Print("ERROR: couldn't parse blinded message path hex".to_owned()),
            );
            push_action(&mut actions, Action::Print(usage));
            assert(action_views(actions@) =~= seq![
                Action::Print("ERROR: couldn't parse blinded message path hex"@),
                server_paths_usage(),
            ]);
            finishing(actions)
        },
        Some(paths) => {
            if paths.len() == 0 {
                finishing(one_action(Action::Print(usage)))
            } else {
                asking(State::SetServerPaths, Action::SetServerPaths(paths))
            }
        },
    }
}

/// A text in quotes.
pub open spec fn quoted(text: Seq<char>) -> Seq<char> {
    "\""@ + text + "\""@
}

/// Answers with a text in quotes.
pub(crate) fn answer_quoted(text: &str) -> (r: Reaction)
    ensures
        r@ == answer(quoted(text@)),
{
    answering(text3("\"", text, "\""))
}

/// What `connectpeerpq` asks for first: the address of the peer.
#[verifier::opaque]
pub open spec fn connect_peer_pq(ws: Seq<Seq<char>>) -> ReactionView {
    if ws.len() < 2 {
        answer(
            "ERROR: connectpeerpq requires peer connection info: `connectpeerpq pubkey@host:port [kem_key_hex]`"@,
        )
    } else {
        match peer_host(ws[1]) {
            None => answer(quoted(PeerInfoError::MissingAddress.text())),
            Some(host) => ask(State::PqAddress { words: ws }, Action::Resolve(host)),
        }
    }
}

/// Begins a post-quantum connection.
pub fn start_connect_peer_pq(ws: Vec<String>) -> (r: Reaction)
    ensures
        r@ == connect_peer_pq(texts(ws@)),
{
    proof {
        reveal(connect_peer_pq);
    }
    if ws.len() < 2 {
        return answering(
            "ERROR: connectpeerpq requires peer connection info: `connectpeerpq pubkey@host:port [kem_key_hex]`".to_owned(),
        );
    }
    match split_peer_info(ws[1].as_str()).1 {
        None => answer_quoted(PeerInfoError::MissingAddress.message().as_str()),
        Some(host) => asking(State::PqAddress { words: ws }, Action::Resolve(host)),
    }
}

/// What `connectpeer` asks for first: the address of the peer.
#[verifier::opaque]
pub open spec fn connect_peer(ws: Seq<Seq<char>>) -> ReactionView {
    if ws.len() < 2 {
        answer(
            "ERROR: connectpeer requires peer connection info: `connectpeer pubkey@host:port`"@,
        )
    } else {
        match peer_host(ws[1]) {
            None => answer(quoted(PeerInfoError::MissingAddress.text())),
            Some(host) => ask(State::PeerAddress { words: ws }, Action::Resolve(host)),
        }
    }
}

/// Begins to connect to a peer.
pub fn start_connect_peer(ws: Vec<String>) -> (r: Reaction)
    ensures
        r@ == connect_peer(texts(ws@)),
{
    proof {
        reveal(connect_peer);
    }
    if ws.len() < 2 {
        return answering(
            "ERROR: connectpeer requires peer connection info: `connectpeer pubkey@host:port`".to_owned(),
        );
    }
    match split_peer_info(ws[1].as_str()).1 {
        None => answer_quoted(PeerInfoError::MissingAddress.message().as_str()),
        Some(host) => asking(State::PeerAddress { words: ws }, Action::Resolve(host)),
    }
}

/// What `disconnectpeer` asks for first: what the node knows of the peer.
#[verifier::opaque]
pub open spec fn disconnect_peer(ws: Seq<Seq<char>>) -> ReactionView {
    if ws.len() < 2 {
        answer(
            "ERROR: disconnectpeer requires peer public key: `disconnectpeer <peer_pubkey>`"@,
        )
    } else {
        disconnect_key(public_key_from_text(ws[1]))
    }
}

/// How a peer is disconnected, given its key or what is wrong with it.
pub open spec fn disconnect_key(key: Result<[u8; 33], Seq<char>>) -> ReactionView {
    match key {
        Err(e) => answer("ERROR: "@ + e),
        Ok(pubkey) => ask(State::Disconnect { pubkey }, Action::FindChannels(pubkey)),
    }
}

/// Begins to disconnect the peer whose key has been read.
pub fn start_disconnect_key(key: Result<[u8; 33], String>) -> (r: Reaction)
    ensures
        r@ == disconnect_key(
            match key {
                Ok(pubkey) => Ok(pubkey),
                Err(e) => Err(e@),
            },
        ),
{
    match key {
        Err(e) => answering(text2("ERROR: ", e.as_str())),
        Ok(pubkey) => asking(State::Disconnect { pubkey }, Action::FindChannels(pubkey)),
    }
}

/// Begins to disconnect a peer.
pub fn start_disconnect_peer(ws: &Vec<String>) -> (r: Reaction)
    ensures
        r@ == disconnect_peer(texts(ws@)),
{
    proof {
        reveal(disconnect_peer);
    }
    if ws.len() < 2 {
        return answering(
            "ERROR: disconnectpeer requires peer public key: `disconnectpeer <peer_pubkey>`".to_owned(),
        );
    }
    start_disconnect_key(public_key_from_str(ws[1].as_str()))
}

/// Why a channel is not closed.
#[derive(Clone, Copy, Debug, PartialEq, Eq, Structural)]
pub enum CloseError {
    /// No channel is named.
    MissingChannel,
    /// What is named is no channel.
    BadChannel,
    /// No peer is named.
    MissingPeer,
    /// What is named is no peer.
    BadPeer,
}

/// The channel and the peer that the words behind a command name.
pub open spec fn closed_channel(ws: Seq<Seq<char>>) -> Result<([u8; 32], [u8; 33]), CloseError> {
    if ws.len() < 2 {
        Err(CloseError::MissingChannel)
    } else if hex_bytes(ws[1]) is None || hex_bytes(ws[1])->0.len() != 32 {
        Err(CloseError::BadChannel)
    } else if ws.len() < 3 {
        Err(CloseError::MissingPeer)
    } else if hex_bytes(ws[2]) is None || public_key_of(hex_bytes(ws[2])->0) is None {
        Err(CloseError::BadPeer)
    } else {
        Ok((array32(hex_bytes(ws[1])->0), public_key_of(hex_bytes(ws[2])->0)->0))
    }
}

impl CloseError {
    /// What the operator is told, given the name of the command.
    pub open spec fn text(self, name: Seq<char>) -> Seq<char> {
        match self {
            CloseError::MissingChannel => "ERROR: "@ + name + " requires a channel ID: `"@ + name
                + " <channel_id> <peer_pubkey>`"@,
            CloseError::BadChannel => "ERROR: couldn't parse channel_id"@,
            CloseError::MissingPeer => "ERROR: "@ + name + " requires a peer pubkey: `"@ + name
                + " <channel_id> <peer_pubkey>`"@,
            CloseError::BadPeer => "ERROR: couldn't parse peer_pubkey"@,
        }
    }

    /// Says what is wrong.
    pub fn message(self, name: &str) -> (r: String)
        ensures
            r@ == self.text(name@),
    {
        match self {
            CloseError::MissingChannel => text5(
                "ERROR: ",
                name,
                " requires a channel ID: `",
                name,
                " <channel_id> <peer_pubkey>`",
            ),
            CloseError::BadChannel => "ERROR: couldn't parse channel_id".to_owned(),
            CloseError::MissingPeer => text5(
                "ERROR: ",
                name,
                " requires a peer pubkey: `",
                name,
                " <channel_id> <peer_pubkey>`",
            ),
            CloseError::BadPeer => "ERROR: couldn't parse peer_pubkey".to_owned(),
        }
    }
}

/// Reads the channel and the peer behind a command.
pub fn read_closed_channel(ws: &Vec<String>) -> (r: Result<([u8; 32], [u8; 33]), CloseError>)
    ensures
        r == closed_channel(texts(ws@)),
{
    if ws.len() < 2 {
        return Err(CloseError::MissingChannel);
    }
    let id: Vec<u8> = match to_vec(ws[1].as_str()) {
        None => return Err(CloseError::BadChannel),
        Some(id) => id,
    };
    if id.len() != 32 {
        return Err(CloseError::BadChannel);
    }
    let channel_id: [u8; 32] = to_array32(id.as_slice());
    assert(id@.take(32) =~= id@);
    if ws.len() < 3 {
        return Err(CloseError::MissingPeer);
    }
    let key: Vec<u8> = match to_vec(ws[2].as_str()) {
        None => return Err(CloseError::BadPeer),
        Some(key) => key,
    };
    match public_key_from_slice(key.as_slice()) {
        None => Err(CloseError::BadPeer),
        Some(peer) => Ok((channel_id, peer)),
    }
}

/// What `closechannel` asks for.
#[verifier::opaque]
pub open spec fn close_channel(ws: Seq<Seq<char>>) -> ReactionView {
    match closed_channel(ws) {
        Err(e) => answer(e.text("closechannel"@)),
        Ok(c) => ask(State::Close, Action::CloseChannel { channel_id: c.0, peer: c.1 }),
    }
}

/// Begins to close a channel.
pub fn start_close_channel(ws: &Vec<String>) -> (r: Reaction)
    ensures
        r@ == close_channel(texts(ws@)),
{
    proof {
        reveal(close_channel);
    }
    match read_closed_channel(ws) {
        Err(e) => answering(e.message("closechannel")),
        Ok(c) => asking(State::Close, Action::CloseChannel { channel_id: c.0, peer: c.1 }),
    }
}

/// What `forceclosechannel` asks for.
#[verifier::opaque]
pub open spec fn force_close_channel(ws: Seq<Seq<char>>) -> ReactionView {
    match closed_channel(ws) {
        Err(e) => answer(e.text("forceclosechannel"@)),
        Ok(c) => ask(
            State::ForceClose,
            Action::ForceCloseChannel {
                channel_id: c.0,
                peer: c.1,
                reason: "Manually force-closed"@,
            },
        ),
    }
}

/// Begins to force a channel closed.
pub fn start_force_close_channel(ws: &Vec<String>) -> (r: Reaction)
    ensures
        r@ == force_close_channel(texts(ws@)),
{
    proof {
        reveal(force_close_channel);
    }
    match read_closed_channel(ws) {
        Err(e) => answering(e.message("forceclosechannel")),
        Ok(c) => asking(
            State::ForceClose,
            Action::ForceCloseChannel {
                channel_id: c.0,
                peer: c.1,
                reason: "Manually force-closed".to_owned(),
            },
        ),
    }
}

/// Where the message begins in a line that asks for its signature: behind the command and one
/// byte more.
pub const MSG_STARTPOS: usize = 12;

/// The message that a line asks to be signed, if there is one.
pub open spec fn message_of(line: Seq<char>) -> Option<Seq<u8>> {
    let bytes = encode_utf8(trimmed(line));
    if bytes.len() <= MSG_STARTPOS {
        None
    } else {
        Some(bytes.skip(MSG_STARTPOS as int))
    }
}

/// What `signmessage` shows: the signature of the rest of the line.
#[verifier::opaque]
pub open spec fn sign_line(line: Seq<char>, secret: NodeSecret) -> ReactionView {
    match message_of(line) {
        None => answer("ERROR: signmsg requires a message"@),
        Some(msg) => answer(quoted(message_signature(msg, secret.bytes()))),
    }
}

/// Reads the message that a line asks to be signed.
pub fn read_message(line: &str) -> (r: Option<Vec<u8>>)
    ensures
        r is Some == message_of(line@) is Some,
        r is Some ==> r->0@ == message_of(line@)->0,
{
    let text: String = trim(line);
    let bytes: &[u8] = text.as_str().as_bytes();
    if bytes.len() <= MSG_STARTPOS {
        return None;
    }
    let mut msg: Vec<u8> = Vec::new();
    write_bytes(&mut msg, slice_subrange(bytes, MSG_STARTPOS, bytes.len()));
    assert(msg@ =~= bytes@.skip(MSG_STARTPOS as int));
    Some(msg)
}

/// Signs the rest of a line.
pub fn start_sign_message(line: &str, secret: &NodeSecret) -> (r: Reaction)
    ensures
        r@ == sign_line(line@, *secret),
{
    proof {
        reveal(sign_line);
    }
    match read_message(line) {
        None => answering("ERROR: signmsg requires a message".to_owned()),
        Some(msg) => answer_quoted(secret.sign(msg.as_slice()).as_str()),
    }
}

/// What a typed line asks for.
#[verifier::opaque]
pub open spec fn command(line: Seq<char>, entropy: [u8; 32], settings: Settings) -> ReactionView {
    let ws = words(line);
    if ws.len() == 0 {
        finish(seq![])
    } else {
        match command_named(ws[0], settings.post_quantum) {
            Command::Help => finish(seq![Action::Report(Report::Help)]),
            Command::OpenChannel => open_channel(ws),
            Command::SendPayment => send_payment(ws, entropy),
            Command::Keysend => keysend(ws, entropy),
            Command::GetOffer => ask(State::StartOffer { words: ws }, Action::StartOffer),
            Command::GetInvoice => get_invoice(ws, settings.post_quantum),
            Command::GetRefund => get_refund(ws, entropy),
            Command::ClaimRefund => claim_refund(ws),
            Command::AsyncPaths => async_paths(ws),
            Command::SetAsyncServer => set_async_server(all_paths(ws.skip(1))),
            Command::GetAsyncOffer => ask(State::GetAsyncOffer, Action::GetAsyncOffer),
            Command::ConnectPeerPq => connect_peer_pq(ws),
            Command::ConnectPeer => connect_peer(ws),
            Command::DisconnectPeer => disconnect_peer(ws),
            Command::ListChannels => finish(seq![Action::Report(Report::Channels)]),
            Command::ListPayments => finish(seq![Action::Report(Report::Payments)]),
            Command::CloseChannel => close_channel(ws),
            Command::ForceCloseChannel => force_close_channel(ws),
            Command::NodeInfo => finish(seq![Action::Report(Report::Node)]),
            Command::ListPeers => finish(seq![Action::Report(Report::Peers)]),
            Command::ListNodes => finish(seq![Action::Report(Report::Nodes)]),
            Command::GraphInfo => finish(seq![Action::Report(Report::Graph)]),
            Command::Announce => ask(State::Announce, Action::FindAnnounced),
            Command::SignMessage => sign_line(line, settings.secret),
            Command::Quit => stop(seq![]),
            Command::Unknown => answer(
                "Unknown command. See `\"help\" for available commands."@,
            ),
        }
    }
}

/// The console ends.
pub open spec fn stop(actions: Seq<ActionView>) -> ReactionView {
    ReactionView { state: State::Stopped, record: None, actions }
}

/// Reads a typed line and does what it asks for.
pub fn run_command(line: &str, entropy: [u8; 32], settings: &Settings) -> (r: Reaction)
    ensures
        r@ == command(line@, entropy, *settings),
{
    proof {
        reveal(command);
    }
    let ws: Vec<String> = split_words(line);
    assert(ws@.len() == texts(ws@).len());
    if ws.len() == 0 {
        return finishing(no_actions());
    }
    assert(ws@[0]@ == texts(ws@)[0]);
    match read_command(&ws[0], settings.post_quantum) {
        Command::Help => finishing(one_action(Action::Report(Report::Help))),
        Command::OpenChannel => start_open_channel(ws),
        Command::SendPayment => start_send_payment(&ws, entropy),
        Command::Keysend => start_keysend(&ws, entropy),
        Command::GetOffer => asking(State::StartOffer { words: ws }, Action::StartOffer),
        Command::GetInvoice => start_get_invoice(&ws, settings.post_quantum),
        Command::GetRefund => start_get_refund(&ws, entropy),
        Command::ClaimRefund => start_claim_refund(&ws),
        Command::AsyncPaths => start_async_paths(&ws),
        Command::SetAsyncServer => start_set_async_server(read_paths(&ws)),
        Command::GetAsyncOffer => asking(State::GetAsyncOffer, Action::GetAsyncOffer),
        Command::ConnectPeerPq => start_connect_peer_pq(ws),
        Command::ConnectPeer => start_connect_peer(ws),
        Command::DisconnectPeer => start_disconnect_peer(&ws),
        Command::ListChannels => finishing(one_action(Action::Report(Report::Channels))),
        Command::ListPayments => finishing(one_action(Action::Report(Report::Payments))),
        Command::CloseChannel => start_close_channel(&ws),
        Command::ForceCloseChannel => start_force_close_channel(&ws),
        Command::NodeInfo => finishing(one_action(Action::Report(Report::Node))),
        Command::ListPeers => finishing(one_action(Action::Report(Report::Peers))),
        Command::ListNodes => finishing(one_action(Action::Report(Report::Nodes))),
        Command::GraphInfo => finishing(one_action(Action::Report(Report::Graph))),
        Command::Announce => asking(State::Announce, Action::FindAnnounced),
        Command::SignMessage => start_sign_message(line, &settings.secret),
        Command::Quit => Reaction {
            state: State::Stopped,
            record: None,
            actions: no_actions(),
        },
        Command::Unknown => answering(
            "Unknown command. See `\"help\" for available commands.".to_owned(),
        ),
    }
}

} // verus!
