//! What the console waits for, what it is told, and what it asks the node to do.
//!
//! The types that hold text or bytes are generic, so that one declaration serves both the
//! running console, whose texts are strings, and its model, whose texts are sequences.

use crate::text::texts;
use vstd::prelude::*;
use vstd::string::*;

verus! {

/// What the operator can be shown in answer to a command without arguments.
#[derive(Clone, Copy, Debug, PartialEq, Eq, Structural)]
pub enum Report {
    /// The commands.
    Help,
    /// The channels of the node.
    Channels,
    /// The payments that the node remembers.
    Payments,
    /// The node itself.
    Node,
    /// The peers that the node is connected to.
    Peers,
    /// The nodes of the network graph.
    Nodes,
    /// The size of the network graph.
    Graph,
}

/// How a channel is to be opened.
#[derive(Clone, Copy, Debug, PartialEq, Eq, Structural)]
pub struct ChannelTerms {
    /// The value of the channel in satoshis.
    pub value_sat: u64,
    /// Whether the channel is announced, so that others can route over it.
    pub announce_for_forwarding: bool,
    /// Whether anchor outputs are asked for.
    pub with_anchors: bool,
    /// The longest delay on the node's own outputs that it grants its peer.
    pub their_to_self_delay: u16,
    /// How many millisatoshis of the channel belong to the peer from the start.
    pub push_msat: u64,
    /// The number by which the node knows the channel until it has an identifier.
    pub user_channel_id: u128,
}

/// What the console asks the node to do.
#[derive(Debug, PartialEq)]
pub enum Action<S, B, L, W> {
    /// Show a line.
    Print(S),
    /// Show a text without ending the line.
    Inline(S),
    /// Write the inbound payments to disk.
    SaveInbound,
    /// Write the outbound payments to disk.
    SaveOutbound,
    /// Show a report.
    Report(Report),
    /// Say whether the peer is connected.
    FindPeer([u8; 33]),
    /// Resolve a host and port to an address.
    Resolve(S),
    /// Connect to the peer at an address.
    Connect { pubkey: [u8; 33], addr: S },
    /// Say which encapsulation key gossip has pinned for the peer.
    FindPin([u8; 33]),
    /// Connect to the peer at an address over the post-quantum transport.
    ConnectPq { pubkey: [u8; 33], addr: S, kem_key: B },
    /// Open a channel to the peer.
    OpenChannel { peer: [u8; 33], terms: ChannelTerms },
    /// Pay an offer.
    PayOffer { offer: S, amt_msat: u64, payment_id: [u8; 32], retry_secs: u64 },
    /// Pay an invoice; an amount is given where the operator named one.
    PayInvoice { invoice: S, named_msat: Option<u64>, payment_id: [u8; 32], retry_secs: u64 },
    /// Pay a node of which nothing but its key is known, with so many blocks for the last hop, in
    /// one part or in several.
    Keysend {
        dest: [u8; 33],
        amt_msat: u64,
        preimage: [u8; 32],
        payment_id: [u8; 32],
        final_cltv_delta: u32,
        allow_mpp: bool,
        retry_secs: u64,
    },
    /// Begin an offer.
    StartOffer,
    /// Finish the offer that was begun.
    BuildOffer(Option<u64>),
    /// Create an invoice.
    CreateInvoice { amt_msat: u64, expiry_secs: u32, pq_omit_pubkey: bool },
    /// Begin a refund that expires after so many seconds.
    StartRefund { amt_msat: u64, lifetime_secs: u64, payment_id: [u8; 32], retry_secs: u64 },
    /// Finish the refund that was begun.
    BuildRefund,
    /// Ask for the payment of a refund.
    ClaimRefund(S),
    /// Create the paths that an often-offline recipient hands out.
    AsyncPaths(B),
    /// Use the paths of a static invoice server.
    SetServerPaths(L),
    /// Say which offer the static invoice server keeps for this node.
    GetAsyncOffer,
    /// Say which peers have channels and whether the peer is connected.
    FindChannels([u8; 33]),
    /// Disconnect the peer.
    Disconnect([u8; 33]),
    /// Close a channel together with its peer.
    CloseChannel { channel_id: [u8; 32], peer: [u8; 33] },
    /// Close a channel by publishing its latest state.
    ForceCloseChannel { channel_id: [u8; 32], peer: [u8; 33], reason: S },
    /// Say which channels are announced.
    FindAnnounced,
    /// Broadcast the announcement of the node: its colour, its name and its addresses.
    Broadcast { rgb: [u8; 3], alias: [u8; 32], addresses: W },
}

/// An action of the running console.
pub type ConsoleAction = Action<String, Vec<u8>, Vec<Vec<u8>>, Vec<String>>;

/// An action in the model of the console.
pub type ActionView = Action<Seq<char>, Seq<u8>, Seq<Seq<u8>>, Seq<Seq<char>>>;

/// What a list of byte strings holds.
pub open spec fn byte_strings(v: Seq<Vec<u8>>) -> Seq<Seq<u8>> {
    v.map_values(|b: Vec<u8>| b@)
}

impl View for Action<String, Vec<u8>, Vec<Vec<u8>>, Vec<String>> {
    type V = Action<Seq<char>, Seq<u8>, Seq<Seq<u8>>, Seq<Seq<char>>>;

    open spec fn view(&self) -> Action<Seq<char>, Seq<u8>, Seq<Seq<u8>>, Seq<Seq<char>>> {
        match *self {
            Action::Print(s) => Action::Print(s@),
            Action::Inline(s) => Action::Inline(s@),
            Action::SaveInbound => Action::SaveInbound,
            Action::SaveOutbound => Action::SaveOutbound,
            Action::Report(r) => Action::Report(r),
            Action::FindPeer(k) => Action::FindPeer(k),
            Action::Resolve(s) => Action::Resolve(s@),
            Action::Connect { pubkey, addr } => Action::Connect { pubkey, addr: addr@ },
            Action::FindPin(k) => Action::FindPin(k),
            Action::ConnectPq { pubkey, addr, kem_key } => Action::ConnectPq {
                pubkey,
                addr: addr@,
                kem_key: kem_key@,
            },
            Action::OpenChannel { peer, terms } => Action::OpenChannel { peer, terms },
            Action::PayOffer { offer, amt_msat, payment_id, retry_secs } => Action::PayOffer {
                offer: offer@,
                amt_msat,
                payment_id,
                retry_secs,
            },
            Action::PayInvoice { invoice, named_msat, payment_id, retry_secs } =>
                Action::PayInvoice { invoice: invoice@, named_msat, payment_id, retry_secs },
            Action::Keysend {
                dest,
                amt_msat,
                preimage,
                payment_id,
                final_cltv_delta,
                allow_mpp,
                retry_secs,
            } => Action::Keysend {
                dest,
                amt_msat,
                preimage,
                payment_id,
                final_cltv_delta,
                allow_mpp,
                retry_secs,
            },
            Action::StartOffer => Action::StartOffer,
            Action::BuildOffer(amt) => Action::BuildOffer(amt),
            Action::CreateInvoice { amt_msat, expiry_secs, pq_omit_pubkey } =>
                Action::CreateInvoice { amt_msat, expiry_secs, pq_omit_pubkey },
            Action::StartRefund { amt_msat, lifetime_secs, payment_id, retry_secs } =>
                Action::StartRefund { amt_msat, lifetime_secs, payment_id, retry_secs },
            Action::BuildRefund => Action::BuildRefund,
            Action::ClaimRefund(s) => Action::ClaimRefund(s@),
            Action::AsyncPaths(b) => Action::AsyncPaths(b@),
            Action::SetServerPaths(l) => Action::SetServerPaths(byte_strings(l@)),
            Action::GetAsyncOffer => Action::GetAsyncOffer,
            Action::FindChannels(k) => Action::FindChannels(k),
            Action::Disconnect(k) => Action::Disconnect(k),
            Action::CloseChannel { channel_id, peer } => Action::CloseChannel { channel_id, peer },
            Action::ForceCloseChannel { channel_id, peer, reason } => Action::ForceCloseChannel {
                channel_id,
                peer,
                reason: reason@,
            },
            Action::FindAnnounced => Action::FindAnnounced,
            Action::Broadcast { rgb, alias, addresses } => Action::Broadcast {
                rgb,
                alias,
                addresses: texts(addresses@),
            },
        }
    }
}

/// What the console waits for.
#[derive(Debug, PartialEq)]
pub enum State<S, B, W> {
    /// A command.
    Ready,
    /// Nothing more: the console has ended.
    Stopped,
    /// Whether the peer of a channel to be opened is connected.
    OpenPeer { pubkey: [u8; 33], words: W },
    /// The address of the peer of a channel to be opened.
    OpenAddress { words: W },
    /// Whether the peer at an address has to be connected before a channel is opened.
    OpenConnected { pubkey: [u8; 33], addr: S, words: W },
    /// The connection over which a channel is to be opened.
    OpenConnect { pubkey: [u8; 33], words: W },
    /// The channel.
    OpenCreate { pubkey: [u8; 33] },
    /// The operator's consent to pay an offer.
    ConfirmOffer { offer: S, amt_msat: u64, payment_id: [u8; 32] },
    /// What became of the payment of an offer.
    PayOffer,
    /// What became of a payment to a node.
    Sending { payment_id: [u8; 32], amt_msat: u64, payee: [u8; 33] },
    /// The beginning of an offer.
    StartOffer { words: W },
    /// The offer.
    BuildOffer,
    /// The invoice.
    CreateInvoice { amt_msat: u64 },
    /// The beginning of a refund.
    StartRefund { amt_msat: u64, payment_id: [u8; 32] },
    /// The refund.
    BuildRefund { amt_msat: u64, payment_id: [u8; 32] },
    /// The invoice for a refund.
    ClaimRefund,
    /// The paths for an often-offline recipient.
    AsyncPaths,
    /// Whether the paths of the static invoice server were taken.
    SetServerPaths,
    /// The offer that the static invoice server keeps.
    GetAsyncOffer,
    /// The address of the peer of a post-quantum connection.
    PqAddress { words: W },
    /// The encapsulation key that gossip has pinned; the operator may have named one.
    PqPin { pubkey: [u8; 33], addr: S, named: Option<S> },
    /// Whether the peer of a post-quantum connection is connected already.
    PqConnected { pubkey: [u8; 33], addr: S, kem_key: B },
    /// The post-quantum connection.
    PqConnect { pubkey: [u8; 33] },
    /// The address of a peer.
    PeerAddress { words: W },
    /// Whether a peer is connected already.
    PeerConnected { pubkey: [u8; 33], addr: S },
    /// The connection to a peer.
    PeerConnect { pubkey: [u8; 33] },
    /// Whether a peer may be disconnected.
    Disconnect { pubkey: [u8; 33] },
    /// The closing of a channel.
    Close,
    /// The forced closing of a channel.
    ForceClose,
    /// Whether any channel is announced.
    Announce,
}

/// The state of the running console.
pub type ConsoleState = State<String, Vec<u8>, Vec<String>>;

/// A state in the model of the console.
pub type StateView = State<Seq<char>, Seq<u8>, Seq<Seq<char>>>;

impl View for State<String, Vec<u8>, Vec<String>> {
    type V = State<Seq<char>, Seq<u8>, Seq<Seq<char>>>;

    open spec fn view(&self) -> State<Seq<char>, Seq<u8>, Seq<Seq<char>>> {
        match *self {
            State::Ready => State::Ready,
            State::Stopped => State::Stopped,
            State::OpenPeer { pubkey, words } => State::OpenPeer { pubkey, words: texts(words@) },
            State::OpenAddress { words } => State::OpenAddress { words: texts(words@) },
            State::OpenConnected { pubkey, addr, words } => State::OpenConnected {
                pubkey,
                addr: addr@,
                words: texts(words@),
            },
            State::OpenConnect { pubkey, words } => State::OpenConnect {
                pubkey,
                words: texts(words@),
            },
            State::OpenCreate { pubkey } => State::OpenCreate { pubkey },
            State::ConfirmOffer { offer, amt_msat, payment_id } => State::ConfirmOffer {
                offer: offer@,
                amt_msat,
                payment_id,
            },
            State::PayOffer => State::PayOffer,
            State::Sending { payment_id, amt_msat, payee } => State::Sending {
                payment_id,
                amt_msat,
                payee,
            },
            State::StartOffer { words } => State::StartOffer { words: texts(words@) },
            State::BuildOffer => State::BuildOffer,
            State::CreateInvoice { amt_msat } => State::CreateInvoice { amt_msat },
            State::StartRefund { amt_msat, payment_id } => State::StartRefund {
                amt_msat,
                payment_id,
            },
            State::BuildRefund { amt_msat, payment_id } => State::BuildRefund {
                amt_msat,
                payment_id,
            },
            State::ClaimRefund => State::ClaimRefund,
            State::AsyncPaths => State::AsyncPaths,
            State::SetServerPaths => State::SetServerPaths,
            State::GetAsyncOffer => State::GetAsyncOffer,
            State::PqAddress { words } => State::PqAddress { words: texts(words@) },
            State::PqPin { pubkey, addr, named } => State::PqPin {
                pubkey,
                addr: addr@,
                named: match named {
                    Some(word) => Some(word@),
                    None => None,
                },
            },
            State::PqConnected { pubkey, addr, kem_key } => State::PqConnected {
                pubkey,
                addr: addr@,
                kem_key: kem_key@,
            },
            State::PqConnect { pubkey } => State::PqConnect { pubkey },
            State::PeerAddress { words } => State::PeerAddress { words: texts(words@) },
            State::PeerConnected { pubkey, addr } => State::PeerConnected { pubkey, addr: addr@ },
            State::PeerConnect { pubkey } => State::PeerConnect { pubkey },
            State::Disconnect { pubkey } => State::Disconnect { pubkey },
            State::Close => State::Close,
            State::ForceClose => State::ForceClose,
            State::Announce => State::Announce,
        }
    }
}

/// What the console is told.
#[derive(Debug)]
pub enum Event {
    /// The operator has typed a line. With it come 32 fresh random bytes.
    Line { text: String, entropy: [u8; 32] },
    /// The operator will type nothing more.
    EndOfInput,
    /// The operator's next line could not be read.
    InputFailed(String),
    /// Whether the peer is connected.
    Peer(bool),
    /// The address, if the host and port have one.
    Address(Option<String>),
    /// Whether the connection came about.
    Connected(bool),
    /// The encapsulation key that gossip has pinned, if any.
    Pin(Option<Vec<u8>>),
    /// It is done.
    Done,
    /// It could not be done.
    Failed(String),
    /// It is done, and this is the result.
    Text(String),
    /// The invoice has been created.
    Invoice { text: String, payment_hash: [u8; 32], payment_secret: [u8; 32] },
    /// The invoice for the refund has been sent.
    RefundClaimed { payment_hash: [u8; 32], amt_msat: u64 },
    /// The paths have been created.
    Paths(Vec<Vec<u8>>),
    /// The peers of the channels, and whether the peer in question is connected.
    Channels { peers: Vec<[u8; 33]>, connected: bool },
    /// Which of the channels are announced.
    Announced(Vec<bool>),
}

/// What the console notes in the records of payments.
#[derive(Clone, Copy, Debug)]
pub enum Record {
    /// A payment to the node is expected.
    InboundPending { payment_hash: [u8; 32], payment_secret: Option<[u8; 32]>, amt_msat: u64 },
    /// A payment by the node is about to be made.
    OutboundPending { payment_id: [u8; 32], payment_secret: Option<[u8; 32]>, amt_msat: u64 },
    /// A payment by the node could not be made.
    OutboundFailed { payment_id: [u8; 32] },
}

/// What the console does with an event: the state that it goes to, what it notes in the records,
/// and what it asks for, in order.
pub struct Reaction {
    /// The state that the console goes to.
    pub state: ConsoleState,
    /// What is noted, before anything is asked for.
    pub record: Option<Record>,
    /// What is asked for, in order.
    pub actions: Vec<ConsoleAction>,
}

/// A reaction in the model of the console.
pub struct ReactionView {
    /// The state that the console goes to.
    pub state: StateView,
    /// What is noted, before anything is asked for.
    pub record: Option<Record>,
    /// What is asked for, in order.
    pub actions: Seq<ActionView>,
}

/// What a list of actions asks for.
pub open spec fn action_views(v: Seq<ConsoleAction>) -> Seq<ActionView> {
    v.map_values(|a: ConsoleAction| a@)
}

impl View for Reaction {
    type V = ReactionView;

    open spec fn view(&self) -> ReactionView {
        ReactionView {
            state: self.state@,
            record: self.record,
            actions: action_views(self.actions@),
        }
    }
}

/// The text that asks the operator for a command.
pub open spec fn prompt() -> ActionView {
    Action::Inline("> "@)
}

/// The command is over: the console does this and asks for the next command.
pub open spec fn finish(actions: Seq<ActionView>) -> ReactionView {
    ReactionView { state: State::Ready, record: None, actions: actions.push(prompt()) }
}

/// The command is over, with a line to show for it.
pub open spec fn answer(line: Seq<char>) -> ReactionView {
    finish(seq![Action::Print(line)])
}

/// The console asks for something and waits for what comes of it.
pub open spec fn ask(state: StateView, action: ActionView) -> ReactionView {
    ReactionView { state, record: None, actions: seq![action] }
}

/// The event changes nothing.
pub open spec fn ignore(state: StateView) -> ReactionView {
    ReactionView { state, record: None, actions: seq![] }
}

/// An action behind others.
pub(crate) fn push_action(actions: &mut Vec<ConsoleAction>, action: ConsoleAction)
    ensures
        action_views(final(actions)@) == action_views(old(actions)@).push(action@),
{
    actions.push(action);
    assert(action_views(actions@) =~= action_views(old(actions)@).push(action@));
}

/// No actions.
pub(crate) fn no_actions() -> (r: Vec<ConsoleAction>)
    ensures
        action_views(r@) == Seq::<ActionView>::empty(),
{
    let r: Vec<ConsoleAction> = Vec::new();
    assert(action_views(r@) =~= Seq::<ActionView>::empty());
    r
}

/// One action.
pub(crate) fn one_action(action: ConsoleAction) -> (r: Vec<ConsoleAction>)
    ensures
        action_views(r@) == seq![action@],
{
    let mut r: Vec<ConsoleAction> = no_actions();
    push_action(&mut r, action);
    assert(action_views(r@) =~= seq![action@]);
    r
}

/// Ends a command.
pub(crate) fn finishing(actions: Vec<ConsoleAction>) -> (r: Reaction)
    ensures
        r@ == finish(action_views(actions@)),
{
    let mut actions: Vec<ConsoleAction> = actions;
    push_action(&mut actions, Action::Inline("> ".to_owned()));
    Reaction { state: State::Ready, record: None, actions }
}

/// Ends a command with a line.
pub(crate) fn answering(line: String) -> (r: Reaction)
    ensures
        r@ == answer(line@),
{
    finishing(one_action(Action::Print(line)))
}

/// Asks for something.
pub(crate) fn asking(state: ConsoleState, action: ConsoleAction) -> (r: Reaction)
    ensures
        r@ == ask(state@, action@),
{
    Reaction { state, record: None, actions: one_action(action) }
}

} // verus!
