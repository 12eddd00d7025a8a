use pq_ldk_sample::actions::{Action, ChannelTerms, ConsoleAction, Event, Report};
use pq_ldk_sample::commands::{
    read_closed_channel, read_command, read_message, start_claim_read_refund,
    start_disconnect_key, start_pay_invoice, start_pay_offer, start_set_async_server, CloseError,
    Command, Settings,
};
use pq_ldk_sample::console::{do_disconnect_peer, Console};
use pq_ldk_sample::hex::{hex_str, to_compressed_pubkey, to_vec};
use pq_ldk_sample::ldk::InvoiceFacts;
use pq_ldk_sample::payment_table::{InboundPaymentInfoStorage, OutboundPaymentInfoStorage};
use pq_ldk_sample::payments::{HTLCStatus, MillisatAmount};
use pq_ldk_sample::signing::NodeSecret;

const KEY: &str = "0279be667ef9dcbbac55a06295ce870b07029bfcdb2dce28d959f2815b16f81798";
const PAYEE: &str = "03e7156ae33b0a208d0744199163177e909e80176e55d97a2f221ede0f934dd9ad";
const INVOICE: &str = "lnbc25m1pvjluezpp5qqqsyqcyq5rqwzqfqqqsyqcyq5rqwzqfqqqsyqcyq5rqwzqfqypqdq5vdhkven9v5sxyetpdeessp5zyg3zyg3zyg3zyg3zyg3zyg3zyg3zyg3zyg3zyg3zyg3zyg3zygs9q5sqqqqqqqqqqqqqqqqsgq2a25dxl5hrntdtn6zvydt7d66hyzsyhqs4wdynavys42xgl6sgx9c4g7me86a27t07mdtfry458rtjr0v92cnmswpsjscgt2vcse3sgpz3uapa";
const OPEN_INVOICE: &str = "lnbc1pvjluezsp5zyg3zyg3zyg3zyg3zyg3zyg3zyg3zyg3zyg3zyg3zyg3zyg3zygspp5qqqsyqcyq5rqwzqfqqqsyqcyq5rqwzqfqqqsyqcyq5rqwzqfqypqdpl2pkx2ctnv5sxxmmwwd5kgetjypeh2ursdae8g6twvus8g6rfwvs8qun0dfjkxaq9qrsgq357wnc5r2ueh7ck6q93dj32dlqnls087fxdwk8qakdyafkq3yap9us6v52vjjsrvywa6rt52cm9r9zqt8r2t7mlcwspyetp5h2tztugp9lfyql";
const HASH: &str = "0001020304050607080900010203040506070809000102030405060708090102";
const OFFER: &str =
    "lno1pqpzwyq2p32x2um5ypmx2cm5dae8x93pqthvwfzadd7jejes8q9lhc4rvjxd022zv5l44g6qah82ru5rdpnpj";
const OPEN_OFFER: &str =
    "lno1pgx9getnwss8vetrw3hhyuckyypwa3eyt44h6txtxquqh7lz5djge4afgfjn7k4rgrkuag0jsd5xvxg";

struct Session {
    console: Console,
    inbound: InboundPaymentInfoStorage,
    outbound: OutboundPaymentInfoStorage,
}

fn key() -> [u8; 33] {
    to_compressed_pubkey(KEY).unwrap()
}

/// A refund made with the Lightning library.
fn refund() -> String {
    let payer = bitcoin::secp256k1::PublicKey::from_slice(&key()).unwrap();
    let builder = lightning::offers::refund::RefundBuilder::new(vec![1; 32], payer, 1000).unwrap();
    builder.build().unwrap().to_string()
}

fn settings(post_quantum: bool) -> Settings {
    let mut one = [0u8; 32];
    one[31] = 1;
    Settings {
        post_quantum,
        kem_key_len: 4,
        secret: NodeSecret::new(one).unwrap(),
        announced_node_name: [b'a'; 32],
        announced_addresses: vec!["1.2.3.4:9735".to_string(), "[::1]:9735".to_string()],
    }
}

fn session(post_quantum: bool) -> Session {
    Session {
        console: Console::start(settings(post_quantum), &key()).0,
        inbound: InboundPaymentInfoStorage::new(),
        outbound: OutboundPaymentInfoStorage::new(),
    }
}

impl Session {
    fn tell(&mut self, event: Event) -> Vec<ConsoleAction> {
        self.console.step(event, &mut self.inbound, &mut self.outbound)
    }

    fn line(&mut self, text: &str) -> Vec<ConsoleAction> {
        self.tell(Event::Line { text: text.to_string(), entropy: [9; 32] })
    }
}

fn print(text: &str) -> ConsoleAction {
    Action::Print(text.to_string())
}

fn prompt() -> ConsoleAction {
    Action::Inline("> ".to_string())
}

/// The one line that a command ends with.
fn answered(actions: Vec<ConsoleAction>, text: &str) {
    assert_eq!(actions, vec![print(text), prompt()]);
}

fn failed(text: &str) -> Event {
    Event::Failed(text.to_string())
}

#[test]
fn the_console_greets_and_asks_for_a_command() {
    let (console, actions) = Console::start(settings(false), &key());
    assert!(!console.stopped());
    assert_eq!(actions[0], print("LDK startup successful. Enter \"help\" to view available commands. Press Ctrl-D to quit."));
    assert_eq!(actions[2], print(&format!("Local Node ID is {}.", KEY)));
    assert_eq!(actions[3], prompt());
    assert_eq!(actions.len(), 4);
}

#[test]
fn blank_and_unknown_lines() {
    let mut s = session(false);
    assert_eq!(s.line("   "), vec![prompt()]);
    answered(s.line("frobnicate"), "Unknown command. See `\"help\" for available commands.");
    answered(s.line("Help"), "Unknown command. See `\"help\" for available commands.");
}

#[test]
fn reports_are_asked_for() {
    let mut s = session(false);
    let cases = [
        ("help", Report::Help),
        ("listchannels", Report::Channels),
        ("listpayments", Report::Payments),
        ("nodeinfo", Report::Node),
        ("  listpeers  now", Report::Peers),
        ("listnodes", Report::Nodes),
        ("graphinfo", Report::Graph),
    ];
    for (line, report) in cases {
        assert_eq!(s.line(line), vec![Action::Report(report), prompt()]);
    }
}

#[test]
fn every_command_has_its_name() {
    let names = [
        ("help", Command::Help), ("openchannel", Command::OpenChannel),
        ("sendpayment", Command::SendPayment), ("keysend", Command::Keysend),
        ("getoffer", Command::GetOffer), ("getinvoice", Command::GetInvoice),
        ("getrefund", Command::GetRefund), ("claimrefund", Command::ClaimRefund),
        ("asyncpaths", Command::AsyncPaths), ("setasyncserver", Command::SetAsyncServer),
        ("getasyncoffer", Command::GetAsyncOffer), ("connectpeerpq", Command::ConnectPeerPq),
        ("connectpeer", Command::ConnectPeer), ("disconnectpeer", Command::DisconnectPeer),
        ("listchannels", Command::ListChannels), ("listpayments", Command::ListPayments),
        ("closechannel", Command::CloseChannel),
        ("forceclosechannel", Command::ForceCloseChannel), ("nodeinfo", Command::NodeInfo),
        ("listpeers", Command::ListPeers), ("listnodes", Command::ListNodes),
        ("graphinfo", Command::GraphInfo), ("announce", Command::Announce),
        ("signmessage", Command::SignMessage), ("quit", Command::Quit), ("exit", Command::Quit),
        ("stop", Command::Unknown),
    ];
    for (name, command) in names {
        assert_eq!(read_command(&name.to_string(), true), command);
        let vanilla = if name == "connectpeerpq" { Command::Unknown } else { command };
        assert_eq!(read_command(&name.to_string(), false), vanilla);
    }
}

#[test]
fn the_console_ends_on_quit_and_at_the_end_of_input() {
    for line in ["quit", " exit now"] {
        let mut s = session(false);
        assert_eq!(s.line(line), vec![]);
        assert!(s.console.stopped());
        assert_eq!(s.line("help"), vec![]);
        assert!(s.console.stopped());
    }
    let mut s = session(false);
    assert_eq!(s.tell(Event::EndOfInput), vec![print("ERROR: End of stdin")]);
    assert!(s.console.stopped());
    let mut s = session(false);
    assert_eq!(s.tell(Event::InputFailed("oops".to_string())), vec![print("ERROR: oops")]);
    assert!(s.console.stopped());
}

#[test]
fn events_that_are_not_waited_for_change_nothing() {
    let mut s = session(false);
    assert_eq!(s.tell(Event::Done), vec![]);
    assert_eq!(s.tell(Event::Peer(true)), vec![]);
    s.line("closechannel");
    s.line("getasyncoffer");
    assert_eq!(s.line("help"), vec![]);
    answered(s.tell(Event::Text("lno1".to_string())), "lno1");
}

#[test]
fn a_channel_is_opened_to_a_connected_peer() {
    let mut s = session(false);
    let asked = s.line(&format!("openchannel {} 1000000 --public --with-anchors", KEY));
    assert_eq!(asked, vec![Action::FindPeer(key())]);
    let terms = ChannelTerms {
        value_sat: 1_000_000,
        announce_for_forwarding: true,
        with_anchors: true,
        their_to_self_delay: 2016,
        push_msat: 0,
        user_channel_id: 0,
    };
    assert_eq!(s.tell(Event::Peer(true)), vec![Action::OpenChannel { peer: key(), terms }]);
    answered(s.tell(Event::Done), &format!("EVENT: initiated channel with peer {}. ", KEY));
    s.line(&format!("openchannel {} 5", KEY));
    answered(s.tell(Event::Peer(false)), "ERROR: Peer address not provided and peer is not connected");
}

#[test]
fn a_channel_is_opened_over_a_new_connection() {
    let mut s = session(false);
    let asked = s.line(&format!("openchannel {}@localhost:9735 77 --public=false x --public=true --with-anchors --with-anchors=false", KEY));
    assert_eq!(asked, vec![Action::Resolve("localhost:9735".to_string())]);
    assert_eq!(s.tell(Event::Address(Some("127.0.0.1:9735".to_string()))), vec![Action::FindPeer(key())]);
    assert_eq!(
        s.tell(Event::Peer(false)),
        vec![Action::Connect { pubkey: key(), addr: "127.0.0.1:9735".to_string() }]
    );
    let terms = ChannelTerms {
        value_sat: 77,
        announce_for_forwarding: true,
        with_anchors: false,
        their_to_self_delay: 2016,
        push_msat: 0,
        user_channel_id: 0,
    };
    assert_eq!(
        s.tell(Event::Connected(true)),
        vec![
            print("ERROR: invalid boolean flag format. Valid formats: `--option`, `--option=true` `--option=false`"),
            Action::OpenChannel { peer: key(), terms },
        ]
    );
    answered(s.tell(failed("TooSmall")), "ERROR: failed to open channel: TooSmall");
}

#[test]
fn opening_a_channel_fails_in_many_ways() {
    let mut s = session(false);
    let usage = "ERROR: openchannel has 2 required arguments: `openchannel pubkey@host:port channel_amt_satoshis` [--public] [--with-anchors]";
    answered(s.line("openchannel"), usage);
    answered(s.line(&format!("openchannel {}", KEY)), usage);
    answered(s.line("openchannel abc 5"), "ERROR: unable to parse given pubkey for node");
    s.line(&format!("openchannel {}@nowhere 5", KEY));
    answered(
        s.tell(Event::Address(None)),
        "\"ERROR: couldn't parse pubkey@host:port into a socket address\"",
    );
    s.line(&format!("openchannel {}@h:1 5", KEY));
    s.tell(Event::Address(Some("1.1.1.1:1".to_string())));
    s.tell(Event::Peer(false));
    answered(s.tell(Event::Connected(false)), "ERROR: failed to connect to peer");
    s.line(&format!("openchannel {}@h:1 much", KEY));
    s.tell(Event::Address(Some("1.1.1.1:1".to_string())));
    answered(s.tell(Event::Peer(true)), "ERROR: channel amount must be a number");
}

#[test]
fn an_invoice_is_paid_and_noted_first() {
    let mut s = session(false);
    let mut hash = [0u8; 32];
    hash.copy_from_slice(&to_vec(HASH).unwrap());
    assert_eq!(
        s.line(&format!("sendpayment {}", INVOICE)),
        vec![
            Action::SaveOutbound,
            Action::PayInvoice { invoice: INVOICE.to_string(), named_msat: None, payment_id: hash, retry_secs: 10 },
        ]
    );
    let p = s.outbound.payments.get(&hash).unwrap();
    assert_eq!(p.status, HTLCStatus::Pending);
    assert_eq!(p.amt_msat, MillisatAmount(Some(2_500_000_000)));
    assert_eq!(p.secret, Some([0x11; 32]));
    assert_eq!(
        s.tell(Event::Done),
        vec![
            print(&format!("EVENT: initiated sending 2500000000 msats to {}", PAYEE)),
            prompt(),
            prompt(),
        ]
    );
    s.line(&format!("sendpayment {} 2500000000", INVOICE));
    assert_eq!(
        s.tell(failed("RouteNotFound")),
        vec![
            print("ERROR: failed to send payment: RouteNotFound"),
            prompt(),
            Action::SaveOutbound,
            prompt(),
        ]
    );
    let p = s.outbound.payments.get(&hash).unwrap();
    assert_eq!(p.status, HTLCStatus::Failed);
    assert_eq!(p.amt_msat, MillisatAmount(Some(2_500_000_000)));
}

#[test]
fn invoice_amounts_have_to_agree() {
    let mut s = session(false);
    assert_eq!(
        s.line(&format!("sendpayment {} 5", INVOICE)),
        vec![print("Amount didn't match invoice value of 2500000000msat"), prompt(), prompt()]
    );
    assert_eq!(
        s.line(&format!("sendpayment {}", OPEN_INVOICE)),
        vec![print("Need an amount to pay an amountless invoice"), prompt(), prompt()]
    );
    assert!(s.outbound.payments.is_empty());
    let paid = s.line(&format!("sendpayment {} 123", OPEN_INVOICE));
    assert!(matches!(paid[1], Action::PayInvoice { named_msat: Some(123), .. }));
    assert!(!s.outbound.payments.is_empty());
}

#[test]
fn payments_that_cannot_be_read_are_refused() {
    let mut s = session(false);
    answered(
        s.line("sendpayment"),
        "ERROR: sendpayment requires an invoice: `sendpayment <invoice> [amount_msat]`",
    );
    answered(
        s.line(&format!("sendpayment {} x", INVOICE)),
        "ERROR: couldn't parse amount_msat: invalid digit found in string",
    );
    answered(
        s.line("sendpayment matt@mattcorallo.com"),
        "ERROR: paying human readable names is not supported",
    );
    let actions = s.line("sendpayment lnbc1nonsense");
    assert_eq!(actions.len(), 2);
    assert!(format!("{:?}", actions[0]).contains("ERROR: invalid invoice: ParseError"));
}

#[test]
fn an_invoice_is_paid_as_its_facts_say() {
    let facts = InvoiceFacts {
        payment_hash: [1; 32],
        payment_secret: [2; 32],
        amount_msat: Some(10),
        payee: key(),
    };
    let r = start_pay_invoice("x".to_string(), facts, Some(10));
    assert_eq!(r.actions.len(), 2);
    let r = start_pay_invoice("x".to_string(), facts, Some(11));
    assert!(r.record.is_none());
    assert_eq!(r.actions[0], print("Amount didn't match invoice value of 10msat"));
}

#[test]
fn an_offer_is_paid_after_a_yes() {
    let mut s = session(false);
    let question = Action::Inline("Paying offer for 10000 msat. Continue (Y/N)? >".to_string());
    assert_eq!(s.line(&format!("sendpayment {}", OFFER)), vec![question]);
    assert!(s.outbound.payments.is_empty());
    assert_eq!(s.line("maybe").len(), 1);
    assert_eq!(
        s.line("Yes"),
        vec![
            Action::SaveOutbound,
            Action::PayOffer { offer: OFFER.to_string(), amt_msat: 10000, payment_id: [9; 32], retry_secs: 10 },
        ]
    );
    let p = s.outbound.payments.get(&[9; 32]).unwrap();
    assert_eq!(p.amt_msat, MillisatAmount(Some(10000)));
    assert_eq!(p.secret, None);
    answered(s.tell(Event::Done), "Payment in flight");
    s.line(&format!("sendpayment {} 10000", OFFER));
    answered(s.tell(failed("DuplicatePaymentId")), "ERROR: Failed to pay: Err(DuplicatePaymentId)");
}

#[test]
fn an_offer_is_not_paid_without_consent() {
    let mut s = session(false);
    s.line(&format!("sendpayment {}", OFFER));
    assert_eq!(s.line("No"), vec![prompt()]);
    assert!(s.outbound.payments.is_empty());
    answered(
        s.line(&format!("sendpayment {} 9999", OFFER)),
        "Amount didn't match offer of 10000msat",
    );
    answered(
        s.line(&format!("sendpayment {}", OPEN_OFFER)),
        "ERROR: Cannot process non-Bitcoin-denominated offer value None",
    );
    let paid = s.line(&format!("sendpayment {} 50", OPEN_OFFER));
    assert!(matches!(paid[1], Action::PayOffer { amt_msat: 50, .. }));
    let mut t = session(false);
    t.line(&format!("sendpayment {}", OFFER));
    assert_eq!(t.tell(Event::EndOfInput), vec![print("ERROR: End of stdin")]);
    assert!(t.console.stopped());
}

#[test]
fn an_offer_is_paid_as_its_amount_says() {
    let r = start_pay_offer("o".to_string(), None, "Some(X)", None, [3; 32]);
    assert_eq!(
        r.actions,
        vec![
            print("ERROR: Cannot process non-Bitcoin-denominated offer value Some(X)"),
            prompt(),
        ]
    );
    let r = start_pay_offer("o".to_string(), None, "Some(X)", Some(4), [3; 32]);
    assert_eq!(
        r.actions[1],
        Action::PayOffer { offer: "o".to_string(), amt_msat: 4, payment_id: [3; 32], retry_secs: 10 }
    );
}

#[test]
fn keysend_pays_under_the_hash_of_its_preimage() {
    let mut s = session(false);
    let actions = s.line(&format!("keysend {} 600", KEY));
    match &actions[1] {
        Action::Keysend {
            dest,
            amt_msat,
            preimage,
            payment_id,
            final_cltv_delta,
            allow_mpp,
            retry_secs,
        } => {
            assert_eq!((*final_cltv_delta, *allow_mpp, *retry_secs), (40, false, 10));
            assert_eq!(*dest, key());
            assert_eq!(*amt_msat, 600);
            assert_eq!(*preimage, [9; 32]);
            assert_ne!(*payment_id, [9; 32]);
            let digest: bitcoin::hashes::sha256::Hash = bitcoin::hashes::Hash::hash(&[9u8; 32]);
            assert_eq!(hex_str(payment_id), digest.to_string());
            assert!(s.outbound.payments.get(payment_id).is_some());
        },
        other => panic!("{:?}", other),
    }
    assert_eq!(actions[0], Action::SaveOutbound);
    assert_eq!(
        s.tell(Event::Done)[0],
        print(&format!("EVENT: initiated sending 600 msats to {}", KEY))
    );
}

#[test]
fn keysend_is_refused_without_a_node_and_an_amount() {
    let mut s = session(false);
    answered(s.line("keysend"), "ERROR: keysend requires a destination pubkey: `keysend <dest_pubkey> <amt_msat>`");
    answered(s.line("keysend 02ff 5"), "ERROR: couldn't parse destination pubkey");
    answered(s.line(&format!("keysend {}", KEY)), "ERROR: keysend requires an amount in millisatoshis: `keysend <dest_pubkey> <amt_msat>`");
    answered(
        s.line(&format!("keysend {} 99999999999999999999", KEY)),
        "ERROR: couldn't parse amount_msat: number too large to fit in target type",
    );
    assert!(s.outbound.payments.is_empty());
}

#[test]
fn offers_are_built_in_two_steps() {
    let mut s = session(false);
    assert_eq!(s.line("getoffer"), vec![Action::StartOffer]);
    assert_eq!(s.tell(Event::Done), vec![Action::BuildOffer(None)]);
    answered(s.tell(Event::Text("lno1x".to_string())), "lno1x");
    s.line("getoffer 5");
    assert_eq!(s.tell(Event::Done), vec![Action::BuildOffer(Some(5))]);
    answered(s.tell(failed("E")), "ERROR: Failed to build offer: E");
    s.line("getoffer five");
    answered(s.tell(Event::Done), "ERROR: getoffer provided payment amount was not a number");
    s.line("getoffer five");
    answered(s.tell(failed("E")), "ERROR: Failed to initiate offer building: E");
}

#[test]
fn an_invoice_is_created_and_expected() {
    let mut s = session(true);
    assert_eq!(
        s.line("getinvoice 1000 3600"),
        vec![Action::CreateInvoice { amt_msat: 1000, expiry_secs: 3600, pq_omit_pubkey: false }]
    );
    assert_eq!(
        s.tell(Event::Invoice {
            text: "lnbc1".to_string(),
            payment_hash: [4; 32],
            payment_secret: [5; 32],
        }),
        vec![print("SUCCESS: generated invoice: lnbc1"), Action::SaveInbound, prompt()]
    );
    let p = s.inbound.payments.get(&[4; 32]).unwrap();
    assert_eq!(p.amt_msat, MillisatAmount(Some(1000)));
    assert_eq!(p.secret, Some([5; 32]));
    assert_eq!(p.status, HTLCStatus::Pending);
    assert_eq!(
        s.line("getinvoice 1 2 --pq-omit-pubkey"),
        vec![Action::CreateInvoice { amt_msat: 1, expiry_secs: 2, pq_omit_pubkey: true }]
    );
    assert_eq!(
        s.tell(failed("E")),
        vec![print("ERROR: failed to create invoice: E"), Action::SaveInbound, prompt()]
    );
}

#[test]
fn invoice_arguments_are_checked() {
    let mut s = session(false);
    answered(s.line("getinvoice"), "ERROR: getinvoice requires an amount in millisatoshis");
    answered(s.line("getinvoice x"), "ERROR: getinvoice provided payment amount was not a number");
    answered(s.line("getinvoice 1"), "ERROR: getinvoice requires an expiry in seconds");
    answered(s.line("getinvoice 1 4294967296"), "ERROR: getinvoice provided expiry was not a number");
    answered(s.line("getinvoice 1 2 --x"), "ERROR: getinvoice got unknown flag --x");
    answered(
        s.line("getinvoice 1 2 --pq-omit-pubkey"),
        "ERROR: getinvoice got unknown flag --pq-omit-pubkey",
    );
}

#[test]
fn a_refund_is_made_and_noted() {
    let mut s = session(false);
    assert_eq!(
        s.line("getrefund 700 60"),
        vec![Action::StartRefund { amt_msat: 700, lifetime_secs: 60, payment_id: [9; 32], retry_secs: 10 }]
    );
    assert_eq!(s.tell(Event::Done), vec![Action::BuildRefund]);
    assert!(s.outbound.payments.is_empty());
    assert_eq!(
        s.tell(Event::Text("lnr1".to_string())),
        vec![
            Action::SaveOutbound,
            print("SUCCESS: generated refund, we will pay the invoice it draws"),
            print("lnr1"),
            prompt(),
        ]
    );
    assert_eq!(s.outbound.payments.get(&[9; 32]).unwrap().amt_msat, MillisatAmount(Some(700)));
    s.line("getrefund 700 60");
    answered(s.tell(failed("E")), "ERROR: Failed to initiate refund building: E");
    s.line("getrefund 700 60");
    s.tell(Event::Done);
    answered(s.tell(failed("E")), "ERROR: Failed to build refund: E");
    answered(s.line("getrefund"), "ERROR: getrefund requires an amount in millisatoshis and an expiry in seconds: `getrefund <amt_msats> <expiry_secs>`");
    answered(s.line("getrefund 5 x"), "ERROR: getrefund requires an expiry in seconds: `getrefund <amt_msats> <expiry_secs>`");
}

#[test]
fn a_refund_is_claimed_and_expected() {
    let mut s = session(false);
    answered(s.line("claimrefund"), "ERROR: claimrefund requires a refund string: `claimrefund <refund>`");
    let bad = s.line("claimrefund lnr1x");
    assert!(format!("{:?}", bad[0]).contains("ERROR: invalid refund: "));
    assert_eq!(
        s.line(&format!("claimrefund {}", refund())),
        vec![Action::ClaimRefund(refund())]
    );
    let claimed = s.tell(Event::RefundClaimed { payment_hash: [0xab; 32], amt_msat: 12 });
    assert_eq!(claimed[0], Action::SaveInbound);
    assert_eq!(
        claimed[1],
        print(&format!(
            "SUCCESS: sent invoice for refund of 12 msat with payment hash {}, awaiting payment",
            "ab".repeat(32)
        ))
    );
    assert_eq!(s.inbound.payments.get(&[0xab; 32]).unwrap().secret, None);
    s.line(&format!("claimrefund {}", refund()));
    answered(s.tell(failed("E")), "ERROR: failed to request refund payment: E");
    let r = start_claim_read_refund("t".to_string(), Some("E".to_string()));
    answered(r.actions, "ERROR: invalid refund: E");
}

#[test]
fn paths_are_created_for_a_recipient() {
    let mut s = session(false);
    answered(s.line("asyncpaths"), "ERROR: asyncpaths requires a recipient id: `asyncpaths <recipient_id>`");
    assert_eq!(s.line("asyncpaths al\u{ed}ce"), vec![Action::AsyncPaths("al\u{ed}ce".as_bytes().to_vec())]);
    assert_eq!(
        s.tell(Event::Paths(vec![vec![1, 2], vec![0xff], vec![]])),
        vec![
            print("SUCCESS: paths for the async recipient to hand to `setasyncserver`:"),
            print("0102 ff "),
            prompt(),
        ]
    );
    s.line("asyncpaths x");
    answered(s.tell(failed("")), "ERROR: failed to create async recipient paths, do we have connected peers?");
}

#[test]
fn server_paths_have_to_be_paths() {
    let mut s = session(false);
    let usage = "ERROR: setasyncserver requires paths from the server's `asyncpaths`: `setasyncserver <path_hex>...`";
    answered(s.line("setasyncserver"), usage);
    assert_eq!(
        s.line("setasyncserver 00"),
        vec![print("ERROR: couldn't parse blinded message path hex"), print(usage), prompt()]
    );
    assert_eq!(s.line("setasyncserver zz").len(), 3);
    // A path with an introduction node and one hop without a payload.
    let path = format!("{}{}01{}0000", KEY, KEY, KEY);
    let bytes = to_vec(&path).unwrap();
    assert_eq!(
        s.line(&format!("setasyncserver {} {}", path, path)),
        vec![Action::SetServerPaths(vec![bytes.clone(), bytes])]
    );
    answered(s.tell(Event::Done), "SUCCESS: static invoice server paths set, building an async receive offer with the server");
    assert_eq!(s.line(&format!("setasyncserver {} 00", path)).len(), 3);
    s.line(&format!("setasyncserver {}", path));
    answered(s.tell(failed("")), "ERROR: failed to set static invoice server paths");
    let r = start_set_async_server(Some(vec![vec![1]]));
    assert_eq!(r.actions, vec![Action::SetServerPaths(vec![vec![1]])]);
    s.line("getasyncoffer");
    answered(s.tell(failed("")), "ERROR: no async receive offer ready yet, run `setasyncserver` and wait for the server exchange");
}

#[test]
fn a_peer_is_connected_if_necessary() {
    let mut s = session(false);
    answered(s.line("connectpeer"), "ERROR: connectpeer requires peer connection info: `connectpeer pubkey@host:port`");
    answered(s.line(&format!("connectpeer {}", KEY)), "\"ERROR: incorrectly formatted peer info. Should be formatted as: `pubkey@host:port`\"");
    assert_eq!(s.line("connectpeer ff@h:1"), vec![Action::Resolve("h:1".to_string())]);
    answered(s.tell(Event::Address(Some("1.1.1.1:1".to_string()))), "\"ERROR: unable to parse given pubkey for node\"");
    s.line(&format!("connectpeer {}@h:1", KEY));
    s.tell(Event::Address(Some("1.1.1.1:1".to_string())));
    answered(s.tell(Event::Peer(true)), &format!("SUCCESS: connected to peer {}", KEY));
    s.line(&format!("connectpeer {}@h:1", KEY));
    s.tell(Event::Address(Some("1.1.1.1:1".to_string())));
    assert_eq!(s.tell(Event::Peer(false)), vec![Action::Connect { pubkey: key(), addr: "1.1.1.1:1".to_string() }]);
    answered(s.tell(Event::Connected(true)), &format!("SUCCESS: connected to peer {}", KEY));
    s.line(&format!("connectpeer {}@h:1", KEY));
    s.tell(Event::Address(Some("1.1.1.1:1".to_string())));
    s.tell(Event::Peer(false));
    answered(s.tell(Event::Connected(false)), "ERROR: failed to connect to peer");
}

/// Types a post-quantum connection and answers which key gossip has pinned.
fn connect_pq(s: &mut Session, words: &str, pin: Option<Vec<u8>>) -> Vec<ConsoleAction> {
    assert_eq!(
        s.line(&format!("connectpeerpq {}@h:1{}", KEY, words)),
        vec![Action::Resolve("h:1".to_string())]
    );
    assert_eq!(
        s.tell(Event::Address(Some("1.1.1.1:1".to_string()))),
        vec![Action::FindPin(key())]
    );
    s.tell(Event::Pin(pin))
}

fn dials_with(s: &mut Session, kem_key: Vec<u8>) {
    assert_eq!(
        s.tell(Event::Peer(false)),
        vec![Action::ConnectPq { pubkey: key(), addr: "1.1.1.1:1".to_string(), kem_key }]
    );
}

#[test]
fn a_post_quantum_connection_uses_a_pinned_key_or_else_a_given_one() {
    let mut s = session(true);
    answered(s.line("connectpeerpq"), "ERROR: connectpeerpq requires peer connection info: `connectpeerpq pubkey@host:port [kem_key_hex]`");
    let bad = "ERROR: couldn't parse kem_key_hex as an ML-KEM encapsulation key";
    let none = "ERROR: no ML-KEM key pinned for peer from gossip, pass kem_key_hex explicitly";
    // The pinned key is used, whatever is typed.
    for words in ["", " 01020304", " 010203", " zz"] {
        assert_eq!(connect_pq(&mut s, words, Some(vec![7; 4])), vec![Action::FindPeer(key())]);
        dials_with(&mut s, vec![7; 4]);
        answered(s.tell(Event::Connected(true)), &format!("SUCCESS: connected to peer {} over post-quantum transport", KEY));
    }
    // A peer that is not pinned yet is connected with the key that is typed.
    assert_eq!(connect_pq(&mut s, " 01020304", None), vec![Action::FindPeer(key())]);
    dials_with(&mut s, vec![1, 2, 3, 4]);
    answered(s.tell(Event::Connected(false)), "ERROR: failed to connect to peer over post-quantum transport");
    answered(connect_pq(&mut s, " 010203", None), bad);
    answered(connect_pq(&mut s, " zz", None), bad);
    answered(connect_pq(&mut s, "", None), none);
    connect_pq(&mut s, "", Some(vec![7; 4]));
    answered(s.tell(Event::Peer(true)), &format!("ERROR: already connected to peer {}, disconnect first", KEY));
}

#[test]
fn a_vanilla_node_has_no_post_quantum_command() {
    let mut s = session(false);
    answered(
        s.line(&format!("connectpeerpq {}@h:1", KEY)),
        "Unknown command. See `\"help\" for available commands.",
    );
}

#[test]
fn a_peer_with_a_channel_stays_connected() {
    let mut s = session(false);
    answered(s.line("disconnectpeer"), "ERROR: disconnectpeer requires peer public key: `disconnectpeer <peer_pubkey>`");
    answered(s.line("disconnectpeer 0102"), "ERROR: malformed public key");
    answered(s.line(&format!("disconnectpeer {}0", KEY)), "ERROR: malformed public key");
    answered(s.line(&format!("disconnectpeer 05{}", &KEY[2..])), "ERROR: malformed public key");
    answered(s.line(&format!("disconnectpeer {}zz", &KEY[2..])), "ERROR: malformed public key");
    let long = format!("04{}{}", &KEY[2..], "483ada7726a3c4655da4fbfc0e1108a8fd17b448a68554199c47d08ffb10d4b8");
    assert_eq!(s.line(&format!("disconnectpeer {}", long.to_uppercase())), vec![Action::FindChannels(key())]);
    s.tell(Event::Channels { peers: vec![], connected: false });
    assert_eq!(s.line(&format!("disconnectpeer {}", KEY)), vec![Action::FindChannels(key())]);
    answered(
        s.tell(Event::Channels { peers: vec![[2; 33], key()], connected: true }),
        "Error: Node has an active channel with this peer, close any channels first",
    );
    let r = do_disconnect_peer(key(), &vec![[2; 33]], false);
    answered(r.actions, &format!("Error: Could not find peer {}", KEY));
    s.line(&format!("disconnectpeer {}", KEY));
    assert_eq!(
        s.tell(Event::Channels { peers: vec![], connected: true }),
        vec![
            Action::Disconnect(key()),
            print(&format!("SUCCESS: disconnected from peer {}", KEY)),
            prompt(),
        ]
    );
    answered(start_disconnect_key(Err("x".to_string())).actions, "ERROR: x");
}

#[test]
fn channels_are_closed() {
    let mut s = session(false);
    let id = "07".repeat(32);
    assert_eq!(
        s.line(&format!("closechannel {} {}", id, KEY)),
        vec![Action::CloseChannel { channel_id: [7; 32], peer: key() }]
    );
    answered(s.tell(Event::Done), "EVENT: initiating channel close");
    s.line(&format!("closechannel {} {}", id, KEY));
    answered(s.tell(failed("E")), "ERROR: failed to close channel: E");
    assert_eq!(
        s.line(&format!("forceclosechannel {} {}", id, KEY)),
        vec![Action::ForceCloseChannel {
            channel_id: [7; 32],
            peer: key(),
            reason: "Manually force-closed".to_string(),
        }]
    );
    answered(s.tell(Event::Done), "EVENT: initiating channel force-close");
    s.line(&format!("forceclosechannel {} {}", id, KEY));
    answered(s.tell(failed("E")), "ERROR: failed to force-close channel: E");
}

#[test]
fn a_channel_to_be_closed_has_to_be_named() {
    let words = |line: &str| line.split(' ').map(|w| w.to_string()).collect::<Vec<_>>();
    let id = "07".repeat(32);
    assert_eq!(read_closed_channel(&words("closechannel")), Err(CloseError::MissingChannel));
    assert_eq!(read_closed_channel(&words("closechannel 0707")), Err(CloseError::BadChannel));
    assert_eq!(read_closed_channel(&words("closechannel zz")), Err(CloseError::BadChannel));
    let no_peer = format!("closechannel {}", id);
    assert_eq!(read_closed_channel(&words(&no_peer)), Err(CloseError::MissingPeer));
    let bad_peer = format!("closechannel {} 05", id);
    assert_eq!(read_closed_channel(&words(&bad_peer)), Err(CloseError::BadPeer));
    // An uncompressed key is a key as well.
    let uncompressed = format!(
        "closechannel {} 04{}483ada7726a3c4655da4fbfc0e1108a8fd17b448a68554199c47d08ffb10d4b8",
        id,
        &KEY[2..]
    );
    assert_eq!(read_closed_channel(&words(&uncompressed)), Ok(([7; 32], key())));
    let mut s = session(false);
    answered(s.line("closechannel"), "ERROR: closechannel requires a channel ID: `closechannel <channel_id> <peer_pubkey>`");
    answered(s.line("forceclosechannel 07"), "ERROR: couldn't parse channel_id");
    answered(s.line(&no_peer.replace("close", "forceclose")), "ERROR: forceclosechannel requires a peer pubkey: `forceclosechannel <channel_id> <peer_pubkey>`");
    answered(s.line(&bad_peer), "ERROR: couldn't parse peer_pubkey");
}

#[test]
fn a_node_without_announced_channels_stays_silent() {
    let mut s = session(false);
    assert_eq!(s.line("announce"), vec![Action::FindAnnounced]);
    answered(s.tell(Event::Announced(vec![false, false])), "ERROR: no announced channels, the announcement would not relay");
    s.line("announce");
    assert_eq!(
        s.tell(Event::Announced(vec![false, true])),
        vec![
            Action::Broadcast {
                rgb: [0; 3],
                alias: [b'a'; 32],
                addresses: vec!["1.2.3.4:9735".to_string(), "[::1]:9735".to_string()],
            },
            print("SUCCESS: broadcast node announcement"),
            prompt(),
        ]
    );
}

#[test]
fn messages_are_signed() {
    let mut s = session(false);
    answered(
        s.line("  signmessage test message "),
        "\"d9tibmnic9t5y41hg7hkakdcra94akas9ku3rmmj4ag9mritc8ok4p5qzefs78c9pqfhpuftqqzhydbdwfg7u6w6wdxcqpqn4sj4e73e\"",
    );
    answered(s.line("signmessage "), "ERROR: signmsg requires a message");
    assert_eq!(read_message("signmessage hi"), Some(b"hi".to_vec()));
    assert_eq!(read_message("signmessage"), None);
}

#[test]
fn secrets_are_numbers_below_the_group_order() {
    assert!(NodeSecret::new([0; 32]).is_none());
    assert!(NodeSecret::new([0xff; 32]).is_none());
    let mut order = [0u8; 32];
    order.copy_from_slice(
        &to_vec("fffffffffffffffffffffffffffffffebaaedce6af48a03bbfd25e8cd0364141").unwrap(),
    );
    assert!(NodeSecret::new(order).is_none());
    order[31] = 0x40;
    assert!(NodeSecret::new(order).is_some());
}

#[test]
fn human_readable_names_are_told_from_invoices() {
    let mut s = session(false);
    let refused = "ERROR: paying human readable names is not supported";
    for name in ["a@b.c", "\u{20bf}sat_o-shi@Example.com", "a@b.", "a.@.b"] {
        answered(s.line(&format!("sendpayment {}", name)), refused);
        answered(s.line(&format!("sendpayment {} 5", name)), refused);
    }
    let room = "d".repeat(230);
    answered(s.line(&format!("sendpayment u@{}", room)), refused);
    answered(s.line(&format!("sendpayment u@{}.", room)), refused);
    let others = ["a", "@b", "a@", "a@.", "a@b@c", "a@b+c", "\u{e4}@b", "uu@"];
    for other in others {
        assert_ne!(s.line(&format!("sendpayment {}", other))[0], print(refused));
    }
    assert_ne!(s.line(&format!("sendpayment uu@{}", room))[0], print(refused));
}

#[test]
fn shown_paths_are_taken_back() {
    let path = |payload: &str| to_vec(&format!("{}{}01{}{}", KEY, KEY, KEY, payload)).unwrap();
    let paths = vec![path("0000"), path("0002abcd"), path("000100")];
    let mut s = session(false);
    for n in 1..=paths.len() {
        let some = paths[..n].to_vec();
        assert_eq!(s.line("asyncpaths ann"), vec![Action::AsyncPaths(b"ann".to_vec())]);
        let shown = match &s.tell(Event::Paths(some.clone()))[1] {
            Action::Print(line) => line.clone(),
            other => panic!("{:?}", other),
        };
        assert_eq!(s.line(&format!("setasyncserver {}", shown)), vec![Action::SetServerPaths(some)]);
        s.tell(Event::Done);
    }
}

#[test]
fn a_shown_key_is_taken() {
    let mut s = session(true);
    let shown = hex_str(&[0, 255, 16, 7]);
    assert_eq!(connect_pq(&mut s, &format!(" {}", shown), None), vec![Action::FindPeer(key())]);
    dials_with(&mut s, vec![0, 255, 16, 7]);
}
