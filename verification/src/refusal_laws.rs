//! What the operator is told where something cannot be done.

use crate::actions::{byte_strings, ActionView, Event, ReactionView, StateView};
use crate::answer_laws::lemma_utf8_behind;
use crate::commands::{
    all_paths, async_paths, claim_refund, close_channel, command, command_named, connect_peer,
    connect_peer_pq, disconnect_peer, force_close_channel, get_invoice, get_refund, keysend,
    open_channel, open_connected, send_payment, set_async_server, sign_line, Command, Settings,
};
use crate::console::{joined_hex, react};
use crate::hex::{compressed_pubkey, hex_bytes, hex_text};
use crate::ldk::{
    blinded_message_path, bolt11_invoice, bolt12_offer, bolt12_refund_fault, human_readable_name,
    public_key_of,
};
use crate::line_laws::law_commands_answer_to_their_names;
use crate::text::{
    decimal_text, first_index, is_space, lemma_first_index, lemma_words_of_run, u32_of, u64_of,
    words, NumberError,
};
use crate::text_laws::law_texts_are_trimmed;
use vstd::prelude::*;
use vstd::string::*;

verus! {

/// Whether a reaction says one line, asks for the next command and does nothing else.
pub open spec fn only_says(r: ReactionView, line: Seq<char>) -> bool {
    &&& r.state == StateView::Ready
    &&& r.record is None
    &&& r.actions.len() == 2
    &&& r.actions[0] == ActionView::Print(line)
    &&& r.actions[1] == ActionView::Inline("> "@)
}

/// Whether a reaction says one line, asks for the next command twice and does nothing else.
pub open spec fn only_refuses(r: ReactionView, line: Seq<char>) -> bool {
    &&& r.state == StateView::Ready
    &&& r.record is None
    &&& r.actions.len() == 3
    &&& r.actions[0] == ActionView::Print(line)
    &&& r.actions[1] == ActionView::Inline("> "@)
    &&& r.actions[2] == ActionView::Inline("> "@)
}

/// What is no number is told as such.
pub open spec fn number_fault(e: NumberError) -> Seq<char> {
    match e {
        NumberError::Empty => "cannot parse integer from empty string"@,
        NumberError::InvalidDigit => "invalid digit found in string"@,
        NumberError::TooLarge => "number too large to fit in target type"@,
    }
}

/// What is no command is told to be none.
pub proof fn law_unknown_commands_are_told(text: String, entropy: [u8; 32], settings: Settings)
    requires
        words(text@).len() > 0,
        command_named(words(text@)[0], settings.post_quantum) == Command::Unknown,
    ensures
        only_says(
            react(StateView::Ready, Event::Line { text, entropy }, settings),
            "Unknown command. See `\"help\" for available commands."@,
        ),
{
    reveal(command);
}

/// A payment to a node needs a key and an amount, and says which of them is missing or wrong.
pub proof fn law_payments_need_a_key_and_an_amount(
    text: String,
    entropy: [u8; 32],
    settings: Settings,
)
    requires
        words(text@).len() > 0,
        words(text@)[0] == "keysend"@,
    ensures
        ({
            let ws = words(text@);
            let r = react(StateView::Ready, Event::Line { text, entropy }, settings);
            let is_key = ws[1].len() == 66 && hex_bytes(ws[1]) is Some && public_key_of(
                hex_bytes(ws[1])->0,
            ) is Some;
            &&& ws.len() == 1 ==> only_says(
                r,
                "ERROR: keysend requires a destination pubkey: `keysend <dest_pubkey> <amt_msat>`"@,
            )
            &&& ws.len() >= 2 && !is_key ==> only_says(
                r,
                "ERROR: couldn't parse destination pubkey"@,
            )
            &&& ws.len() == 2 && is_key ==> only_says(
                r,
                "ERROR: keysend requires an amount in millisatoshis: `keysend <dest_pubkey> <amt_msat>`"@,
            )
            &&& ws.len() >= 3 && is_key ==> match u64_of(ws[2]) {
                Ok(_) => r.record is Some,
                Err(e) => only_says(
                    r,
                    "ERROR: couldn't parse amount_msat: "@ + number_fault(e),
                ),
            }
        }),
{
    law_commands_answer_to_their_names(settings.post_quantum);
    reveal(command);
    reveal(keysend);
}

/// A payment needs an invoice or an offer and amounts that agree, and says what is missing or
/// wrong, the typed amount first.
pub proof fn law_payments_need_an_invoice(text: String, entropy: [u8; 32], settings: Settings)
    requires
        words(text@).len() > 0,
        words(text@)[0] == "sendpayment"@,
    ensures
        ({
            let ws = words(text@);
            let r = react(StateView::Ready, Event::Line { text, entropy }, settings);
            let typed = ws.len() >= 3;
            let sound = ws.len() >= 2 && (typed ==> u64_of(ws[2]) is Ok);
            &&& ws.len() == 1 ==> only_says(
                r,
                "ERROR: sendpayment requires an invoice: `sendpayment <invoice> [amount_msat]`"@,
            )
            &&& typed && u64_of(ws[2]) is Err ==> only_says(
                r,
                "ERROR: couldn't parse amount_msat: "@ + number_fault(u64_of(ws[2])->Err_0),
            )
            &&& sound && !typed ==> match bolt12_offer(ws[1]) {
                Some((None, amount)) => only_says(
                    r,
                    "ERROR: Cannot process non-Bitcoin-denominated offer value "@ + amount,
                ),
                _ => true,
            }
            &&& sound && bolt12_offer(ws[1]) is None && human_readable_name(ws[1]) ==> only_says(
                r,
                "ERROR: paying human readable names is not supported"@,
            )
            &&& sound && bolt12_offer(ws[1]) is None && !human_readable_name(ws[1])
                ==> match bolt11_invoice(ws[1]) {
                Err(e) => only_says(r, "ERROR: invalid invoice: "@ + e),
                Ok(facts) => match facts.amount_msat {
                    None => typed || only_refuses(
                        r,
                        "Need an amount to pay an amountless invoice"@,
                    ),
                    Some(asked) => !typed || u64_of(ws[2]) == Ok::<u64, NumberError>(asked)
                        || only_refuses(
                        r,
                        "Amount didn't match invoice value of "@ + decimal_text(asked as nat)
                            + "msat"@,
                    ),
                },
            }
        }),
{
    law_commands_answer_to_their_names(settings.post_quantum);
    reveal(command);
    reveal(send_payment);
}

/// An invoice needs an amount and an expiry, and a refund needs both too; whatever else stands
/// behind an invoice must be the one flag that a post-quantum node knows.
pub proof fn law_invoices_need_an_amount(text: String, entropy: [u8; 32], settings: Settings)
    requires
        words(text@).len() > 0,
        words(text@)[0] == "getinvoice"@,
    ensures
        ({
            let ws = words(text@);
            let r = react(StateView::Ready, Event::Line { text, entropy }, settings);
            &&& ws.len() == 1 ==> only_says(
                r,
                "ERROR: getinvoice requires an amount in millisatoshis"@,
            )
            &&& ws.len() >= 2 && u64_of(ws[1]) is Err ==> only_says(
                r,
                "ERROR: getinvoice provided payment amount was not a number"@,
            )
            &&& ws.len() == 2 && u64_of(ws[1]) is Ok ==> only_says(
                r,
                "ERROR: getinvoice requires an expiry in seconds"@,
            )
            &&& ws.len() >= 3 && u64_of(ws[1]) is Ok && u32_of(ws[2]) is Err ==> only_says(
                r,
                "ERROR: getinvoice provided expiry was not a number"@,
            )
            &&& ws.len() >= 4 && u64_of(ws[1]) is Ok && u32_of(ws[2]) is Ok && (ws[3]
                != "--pq-omit-pubkey"@ || !settings.post_quantum) ==> only_says(
                r,
                "ERROR: getinvoice got unknown flag "@ + ws[3],
            )
        }),
{
    law_commands_answer_to_their_names(settings.post_quantum);
    reveal(command);
    reveal(get_invoice);
}

/// A refund needs an amount and an expiry.
pub proof fn law_refunds_need_an_amount(text: String, entropy: [u8; 32], settings: Settings)
    requires
        words(text@).len() > 0,
        words(text@)[0] == "getrefund"@,
    ensures
        ({
            let ws = words(text@);
            let r = react(StateView::Ready, Event::Line { text, entropy }, settings);
            &&& ws.len() == 1 || u64_of(ws[1]) is Err ==> only_says(
                r,
                "ERROR: getrefund requires an amount in millisatoshis and an expiry in seconds: `getrefund <amt_msats> <expiry_secs>`"@,
            )
            &&& ws.len() >= 2 && u64_of(ws[1]) is Ok && (ws.len() == 2 || u64_of(ws[2]) is Err)
                ==> only_says(
                r,
                "ERROR: getrefund requires an expiry in seconds: `getrefund <amt_msats> <expiry_secs>`"@,
            )
        }),
{
    law_commands_answer_to_their_names(settings.post_quantum);
    reveal(command);
    reveal(get_refund);
}

/// What is to be claimed has to be a refund, paths have to be for someone, and the paths of a
/// server have to be there and to be paths.
pub proof fn law_recipients_and_refunds_are_needed(
    text: String,
    entropy: [u8; 32],
    settings: Settings,
)
    requires
        words(text@).len() > 0,
    ensures
        ({
            let ws = words(text@);
            let r = react(StateView::Ready, Event::Line { text, entropy }, settings);
            let usage = ActionView::Print(
                "ERROR: setasyncserver requires paths from the server's `asyncpaths`: `setasyncserver <path_hex>...`"@,
            );
            &&& ws[0] == "claimrefund"@ && ws.len() == 1 ==> only_says(
                r,
                "ERROR: claimrefund requires a refund string: `claimrefund <refund>`"@,
            )
            &&& ws[0] == "claimrefund"@ && ws.len() >= 2 && bolt12_refund_fault(ws[1]) is Some
                ==> only_says(r, "ERROR: invalid refund: "@ + bolt12_refund_fault(ws[1])->0)
            &&& ws[0] == "asyncpaths"@ && ws.len() == 1 ==> only_says(
                r,
                "ERROR: asyncpaths requires a recipient id: `asyncpaths <recipient_id>`"@,
            )
            &&& ws[0] == "setasyncserver"@ && ws.len() == 1 ==> r.state == StateView::Ready
                && r.actions == seq![usage, ActionView::Inline("> "@)]
            &&& ws[0] == "setasyncserver"@ && all_paths(ws.skip(1)) is None ==> r.state
                == StateView::Ready && r.actions == seq![
                ActionView::Print("ERROR: couldn't parse blinded message path hex"@),
                usage,
                ActionView::Inline("> "@),
            ]
        }),
{
    law_commands_answer_to_their_names(settings.post_quantum);
    let ws = words(text@);
    let r = react(StateView::Ready, Event::Line { text, entropy }, settings);
    let usage = ActionView::Print(
        "ERROR: setasyncserver requires paths from the server's `asyncpaths`: `setasyncserver <path_hex>...`"@,
    );
    reveal(command);
    if ws[0] == "claimrefund"@ {
        reveal(claim_refund);
    } else if ws[0] == "asyncpaths"@ {
        reveal(async_paths);
    } else if ws[0] == "setasyncserver"@ {
        reveal(set_async_server);
        if ws.len() == 1 {
            assert(ws.skip(1) =~= Seq::<Seq<char>>::empty());
            assert(r.actions =~= seq![usage, ActionView::Inline("> "@)]);
        } else if all_paths(ws.skip(1)) is None {
            assert(r.actions =~= seq![
                ActionView::Print("ERROR: couldn't parse blinded message path hex"@),
                usage,
                ActionView::Inline("> "@),
            ]);
        }
    }
}

/// Paths can be used only if every word spells one.
pub proof fn law_every_path_counts(ws: Seq<Seq<char>>)
    ensures
        all_paths(ws) is Some <==> forall|i: int|
            0 <= i < ws.len() ==> hex_bytes(#[trigger] ws[i]) is Some
                && blinded_message_path(hex_bytes(ws[i])->0),
    decreases ws.len(),
{
    if ws.len() > 0 {
        let before = ws.drop_last();
        law_every_path_counts(before);
        assert(forall|i: int| 0 <= i < before.len() ==> before[i] == ws[i]);
        assert(ws[ws.len() - 1] == ws.last());
        if all_paths(ws) is Some {
            assert forall|i: int| 0 <= i < ws.len() implies hex_bytes(#[trigger] ws[i]) is Some
                && blinded_message_path(hex_bytes(ws[i])->0) by {
                if i < before.len() {
                    assert(before[i] == ws[i]);
                }
            }
        }
    }
}

/// A channel needs a peer and an amount.
pub proof fn law_channels_need_a_peer_and_an_amount(
    text: String,
    entropy: [u8; 32],
    settings: Settings,
    pubkey: [u8; 33],
)
    requires
        words(text@).len() > 0,
        words(text@)[0] == "openchannel"@,
    ensures
        ({
            let ws = words(text@);
            let r = react(StateView::Ready, Event::Line { text, entropy }, settings);
            let key = ws[1].take(first_index(ws[1], '@') as int);
            &&& ws.len() < 3 ==> only_says(
                r,
                "ERROR: openchannel has 2 required arguments: `openchannel pubkey@host:port channel_amt_satoshis` [--public] [--with-anchors]"@,
            )
            &&& ws.len() >= 3 && !(key.len() == 66 && hex_bytes(key) is Some && public_key_of(
                hex_bytes(key)->0,
            ) is Some) ==> only_says(r, "ERROR: unable to parse given pubkey for node"@)
            &&& ws.len() >= 3 && u64_of(ws[2]) is Err ==> only_says(
                open_connected(pubkey, ws),
                "ERROR: channel amount must be a number"@,
            )
        }),
{
    law_commands_answer_to_their_names(settings.post_quantum);
    reveal(command);
    reveal(open_channel);
}

/// A connection needs a key and a host.
#[verifier::rlimit(30)]
pub proof fn law_connections_need_a_peer(
    text: String,
    entropy: [u8; 32],
    settings: Settings,
)
    requires
        words(text@).len() > 0,
    ensures
        ({
            let ws = words(text@);
            let r = react(StateView::Ready, Event::Line { text, entropy }, settings);
            let no_address = "\"ERROR: incorrectly formatted peer info. Should be formatted as: `pubkey@host:port`\""@;
            &&& ws[0] == "connectpeer"@ && ws.len() == 1 ==> only_says(
                r,
                "ERROR: connectpeer requires peer connection info: `connectpeer pubkey@host:port`"@,
            )
            &&& ws[0] == "connectpeer"@ && ws.len() >= 2 && !ws[1].contains('@') ==> only_says(
                r,
                no_address,
            )
            &&& settings.post_quantum && ws[0] == "connectpeerpq"@ && ws.len() == 1 ==> only_says(
                r,
                "ERROR: connectpeerpq requires peer connection info: `connectpeerpq pubkey@host:port [kem_key_hex]`"@,
            )
            &&& settings.post_quantum && ws[0] == "connectpeerpq"@ && ws.len() >= 2
                && !ws[1].contains('@') ==> only_says(r, no_address)
            &&& ws[0] == "disconnectpeer"@ && ws.len() == 1 ==> only_says(
                r,
                "ERROR: disconnectpeer requires peer public key: `disconnectpeer <peer_pubkey>`"@,
            )
            &&& ws[0] == "disconnectpeer"@ && ws.len() >= 2 && (hex_bytes(ws[1]) is None
                || public_key_of(hex_bytes(ws[1])->0) is None || (ws[1].len() != 66 && ws[1].len()
                != 130)) ==> only_says(r, "ERROR: malformed public key"@)
        }),
{
    law_commands_answer_to_their_names(settings.post_quantum);
    let ws = words(text@);
    reveal(command);
    let plain = "ERROR: incorrectly formatted peer info. Should be formatted as: `pubkey@host:port`"@;
    if ws.len() >= 2 {
        lemma_first_index(ws[1], '@');
        let n = first_index(ws[1], '@') as int;
        if n < ws[1].len() {
            assert(ws[1].contains(ws[1][n]));
        }
    }
    assert("\""@ + plain + "\""@
        =~= "\"ERROR: incorrectly formatted peer info. Should be formatted as: `pubkey@host:port`\""@)
        by {
        reveal_strlit("\"");
        reveal_strlit(
            "ERROR: incorrectly formatted peer info. Should be formatted as: `pubkey@host:port`",
        );
        reveal_strlit(
            "\"ERROR: incorrectly formatted peer info. Should be formatted as: `pubkey@host:port`\"",
        );
    }
    if ws[0] == "connectpeer"@ {
        reveal(connect_peer);
    } else if ws[0] == "connectpeerpq"@ {
        reveal(connect_peer_pq);
    } else if ws[0] == "disconnectpeer"@ {
        reveal(disconnect_peer);
        assert("ERROR: "@ + "malformed public key"@ =~= "ERROR: malformed public key"@) by {
            reveal_strlit("ERROR: ");
            reveal_strlit("malformed public key");
            reveal_strlit("ERROR: malformed public key");
        }
    }
}

/// A peer that is not found at its address, or not named by a key, is told in quotes, wherever its
/// address was needed.
#[verifier::rlimit(30)]
pub proof fn law_unreachable_peers_are_told(ws: Seq<Seq<char>>, addr: String, settings: Settings)
    requires
        ws.len() >= 2,
        ws[1].contains('@'),
    ensures
        ({
            let states = seq![
                StateView::OpenAddress { words: ws },
                StateView::PqAddress { words: ws },
                StateView::PeerAddress { words: ws },
            ];
            forall|i: int|
                0 <= i < 3 ==> {
                    &&& only_says(
                        react(#[trigger] states[i], Event::Address(None), settings),
                        "\"ERROR: couldn't parse pubkey@host:port into a socket address\""@,
                    )
                    &&& compressed_pubkey(ws[1].take(first_index(ws[1], '@') as int)) is None
                        ==> only_says(
                        react(states[i], Event::Address(Some(addr)), settings),
                        "\"ERROR: unable to parse given pubkey for node\""@,
                    )
                }
        }),
{
    lemma_first_index(ws[1], '@');
    let i = choose|i: int| 0 <= i < ws[1].len() && ws[1][i] == '@';
    assert(first_index(ws[1], '@') <= i);
    assert("\""@ + "ERROR: couldn't parse pubkey@host:port into a socket address"@ + "\""@
        =~= "\"ERROR: couldn't parse pubkey@host:port into a socket address\""@) by {
        reveal_strlit("\"");
        reveal_strlit("ERROR: couldn't parse pubkey@host:port into a socket address");
        reveal_strlit("\"ERROR: couldn't parse pubkey@host:port into a socket address\"");
    }
    assert("\""@ + "ERROR: unable to parse given pubkey for node"@ + "\""@
        =~= "\"ERROR: unable to parse given pubkey for node\""@) by {
        reveal_strlit("\"");
        reveal_strlit("ERROR: unable to parse given pubkey for node");
        reveal_strlit("\"ERROR: unable to parse given pubkey for node\"");
    }
}

/// A channel to close needs an identifier and a peer, whether or not it is closed by force.
pub proof fn law_closing_needs_a_channel_and_a_peer(
    text: String,
    entropy: [u8; 32],
    settings: Settings,
)
    requires
        words(text@).len() > 0,
        words(text@)[0] == "closechannel"@ || words(text@)[0] == "forceclosechannel"@,
    ensures
        ({
            let ws = words(text@);
            let name = ws[0];
            let r = react(StateView::Ready, Event::Line { text, entropy }, settings);
            let is_id = hex_bytes(ws[1]) is Some && hex_bytes(ws[1])->0.len() == 32;
            let is_key = hex_bytes(ws[2]) is Some && public_key_of(hex_bytes(ws[2])->0) is Some;
            &&& ws.len() == 1 ==> only_says(
                r,
                "ERROR: "@ + name + " requires a channel ID: `"@ + name
                    + " <channel_id> <peer_pubkey>`"@,
            )
            &&& ws.len() >= 2 && !is_id ==> only_says(r, "ERROR: couldn't parse channel_id"@)
            &&& ws.len() == 2 && is_id ==> only_says(
                r,
                "ERROR: "@ + name + " requires a peer pubkey: `"@ + name
                    + " <channel_id> <peer_pubkey>`"@,
            )
            &&& ws.len() >= 3 && is_id && !is_key ==> only_says(
                r,
                "ERROR: couldn't parse peer_pubkey"@,
            )
        }),
{
    law_commands_answer_to_their_names(settings.post_quantum);
    reveal(command);
    reveal(close_channel);
    reveal(force_close_channel);
}

/// A post-quantum connection needs a key that is pinned or typed, and no connection that is there
/// already.
pub proof fn law_protected_connections_need_a_key(
    pubkey: [u8; 33],
    addr: Seq<char>,
    named: Seq<char>,
    kem_key: Seq<u8>,
    settings: Settings,
)
    ensures
        only_says(
            react(
                StateView::PqPin { pubkey, addr, named: None },
                Event::Pin(None),
                settings,
            ),
            "ERROR: no ML-KEM key pinned for peer from gossip, pass kem_key_hex explicitly"@,
        ),
        hex_bytes(named) is None || hex_bytes(named)->0.len() != settings.kem_key_len ==> only_says(
            react(
                StateView::PqPin { pubkey, addr, named: Some(named) },
                Event::Pin(None),
                settings,
            ),
            "ERROR: couldn't parse kem_key_hex as an ML-KEM encapsulation key"@,
        ),
        only_says(
            react(StateView::PqConnected { pubkey, addr, kem_key }, Event::Peer(true), settings),
            "ERROR: already connected to peer "@ + hex_text(pubkey@) + ", disconnect first"@,
        ),
{
}

/// A peer that has a channel or is not connected stays as it is, and the operator is told why.
pub proof fn law_peers_that_stay_are_told(
    pubkey: [u8; 33],
    peers: Vec<[u8; 33]>,
    connected: bool,
    settings: Settings,
)
    ensures
        ({
            let r = react(
                StateView::Disconnect { pubkey },
                Event::Channels { peers, connected },
                settings,
            );
            &&& peers@.contains(pubkey) ==> only_says(
                r,
                "Error: Node has an active channel with this peer, close any channels first"@,
            )
            &&& !peers@.contains(pubkey) && !connected ==> only_says(
                r,
                "Error: Could not find peer "@ + hex_text(pubkey@),
            )
            &&& !peers@.contains(pubkey) && connected ==> r.actions[1] == ActionView::Print(
                "SUCCESS: disconnected from peer "@ + hex_text(pubkey@),
            )
        }),
{
}

/// The operator is told if there is nothing to announce, and once the announcement is made; the
/// paths for an async recipient are shown on one line; and why the console ends is told.
pub proof fn law_other_outcomes_are_told(
    announced: Vec<bool>,
    paths: Vec<Vec<u8>>,
    error: String,
    offer: Seq<char>,
    amt_msat: u64,
    payment_id: [u8; 32],
    settings: Settings,
)
    ensures
        ({
            let silent = react(StateView::Announce, Event::Announced(announced), settings);
            let shown = react(StateView::AsyncPaths, Event::Paths(paths), settings);
            let set = react(StateView::SetServerPaths, Event::Done, settings);
            let ended = react(StateView::Ready, Event::EndOfInput, settings);
            let broken = react(StateView::Ready, Event::InputFailed(error), settings);
            let asking = StateView::ConfirmOffer { offer, amt_msat, payment_id };
            &&& !announced@.contains(true) ==> only_says(
                silent,
                "ERROR: no announced channels, the announcement would not relay"@,
            )
            &&& announced@.contains(true) ==> silent.actions[1] == ActionView::Print(
                "SUCCESS: broadcast node announcement"@,
            )
            &&& shown.state == StateView::Ready
            &&& shown.actions[0] == ActionView::Print(
                "SUCCESS: paths for the async recipient to hand to `setasyncserver`:"@,
            )
            &&& shown.actions[1] == ActionView::Print(joined_hex(byte_strings(paths@)))
            &&& only_says(
                set,
                "SUCCESS: static invoice server paths set, building an async receive offer with the server"@,
            )
            &&& ended.state == StateView::Stopped && ended.actions == seq![
                ActionView::Print("ERROR: End of stdin"@),
            ]
            &&& broken.state == StateView::Stopped && broken.actions == seq![
                ActionView::Print("ERROR: "@ + error@),
            ]
            &&& react(asking, Event::EndOfInput, settings) == ended
            &&& react(asking, Event::InputFailed(error), settings) == broken
        }),
{
}

/// A message to sign has to be there: spaces are none.
pub proof fn law_messages_to_sign_are_needed(
    text: String,
    trail: Seq<char>,
    entropy: [u8; 32],
    settings: Settings,
)
    requires
        text@ == "signmessage"@ + trail,
        forall|i: int| 0 <= i < trail.len() ==> is_space(#[trigger] trail[i]),
    ensures
        only_says(
            react(StateView::Ready, Event::Line { text, entropy }, settings),
            "ERROR: signmsg requires a message"@,
        ),
{
    let name = "signmessage"@;
    let none = Seq::<char>::empty();
    reveal_strlit("signmessage");
    assert(none + name + trail =~= name + trail);
    law_texts_are_trimmed(none, name, trail);
    lemma_words_of_run(name, trail);
    lemma_utf8_behind(name, none);
    assert(name + none =~= name);
    law_commands_answer_to_their_names(settings.post_quantum);
    reveal(command);
    reveal(sign_line);
}

} // verus!
