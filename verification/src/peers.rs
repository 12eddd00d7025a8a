//! The peers of the node: how the operator names them, and when the node connects to them.

use crate::hex::{compressed_pubkey, to_compressed_pubkey};
use crate::text::{before_first, second_piece, split_pieces, texts};
use vstd::prelude::*;
use vstd::string::*;

verus! {

/// Why a text does not name a peer.
#[derive(Clone, Copy, Debug, PartialEq, Eq, Structural)]
pub enum PeerInfoError {
    /// There is no address in it.
    MissingAddress,
    /// The address cannot be resolved.
    BadAddress,
    /// The public key is not valid.
    BadPubkey,
}

impl PeerInfoError {
    /// What the operator is told.
    pub open spec fn text(self) -> Seq<char> {
        match self {
            PeerInfoError::MissingAddress =>
                "ERROR: incorrectly formatted peer info. Should be formatted as: `pubkey@host:port`"@,
            PeerInfoError::BadAddress =>
                "ERROR: couldn't parse pubkey@host:port into a socket address"@,
            PeerInfoError::BadPubkey => "ERROR: unable to parse given pubkey for node"@,
        }
    }

    /// Says what is wrong.
    pub fn message(self) -> (r: String)
        ensures
            r@ == self.text(),
    {
        match self {
            PeerInfoError::MissingAddress =>
                "ERROR: incorrectly formatted peer info. Should be formatted as: `pubkey@host:port`".to_owned(),
            PeerInfoError::BadAddress =>
                "ERROR: couldn't parse pubkey@host:port into a socket address".to_owned(),
            PeerInfoError::BadPubkey => "ERROR: unable to parse given pubkey for node".to_owned(),
        }
    }
}

/// The public key of a peer named as `pubkey@host:port`: what stands before the first `@`.
pub open spec fn peer_pubkey(info: Seq<char>) -> Option<[u8; 33]> {
    compressed_pubkey(before_first(info, '@'))
}

/// The host and port of a peer named as `pubkey@host:port`: what stands behind the first `@`, up
/// to another one.
pub open spec fn peer_host(info: Seq<char>) -> Option<Seq<char>> {
    second_piece(info, '@')
}

/// The peer that a text names, given what its host and port resolve to.
pub open spec fn peer_info(info: Seq<char>, resolved: Option<Seq<char>>) -> Result<
    ([u8; 33], Seq<char>),
    PeerInfoError,
> {
    match (peer_host(info), resolved, peer_pubkey(info)) {
        (None, _, _) => Err(PeerInfoError::MissingAddress),
        (Some(_), None, _) => Err(PeerInfoError::BadAddress),
        (Some(_), Some(_), None) => Err(PeerInfoError::BadPubkey),
        (Some(_), Some(addr), Some(pubkey)) => Ok((pubkey, addr)),
    }
}

/// Reads the public key of a peer and its host and port.
pub fn split_peer_info(info: &str) -> (r: (Option<[u8; 33]>, Option<String>))
    ensures
        r.0 == peer_pubkey(info@),
        r.1 is Some == peer_host(info@) is Some,
        r.1 is Some ==> r.1->0@ == peer_host(info@)->0,
{
    let pieces: (String, Option<String>) = split_pieces(info, '@');
    (to_compressed_pubkey(pieces.0.as_str()), pieces.1)
}

/// Reads the name of a peer, given what its host and port resolve to.
pub fn parse_peer_info(info: &str, resolved: Option<String>) -> (r: Result<
    ([u8; 33], String),
    PeerInfoError,
>)
    ensures
        ({
            let addr = match resolved {
                Some(addr) => Some(addr@),
                None => None,
            };
            match r {
                Ok(v) => peer_info(info@, addr) == Ok::<_, PeerInfoError>((v.0, v.1@)),
                Err(e) => peer_info(info@, addr) == Err::<([u8; 33], Seq<char>), _>(e),
            }
        }),
{
    let parts: (Option<[u8; 33]>, Option<String>) = split_peer_info(info);
    if parts.1.is_none() {
        return Err(PeerInfoError::MissingAddress);
    }
    match resolved {
        None => Err(PeerInfoError::BadAddress),
        Some(addr) => match parts.0 {
            None => Err(PeerInfoError::BadPubkey),
            Some(pubkey) => Ok((pubkey, addr)),
        },
    }
}

/// Whether two public keys are the same.
pub fn same_key(a: &[u8; 33], b: &[u8; 33]) -> (r: bool)
    ensures
        r == (*a == *b),
{
    let mut i: usize = 0;
    while i < 33
        invariant
            i <= 33,
            forall|k: int| 0 <= k < i ==> #[trigger] a@[k] == b@[k],
        decreases 33 - i,
    {
        if a[i] != b[i] {
            assert(a@[i as int] != b@[i as int]);
            return false;
        }
        i = i + 1;
    }
    assert(*a =~= *b);
    true
}

/// Whether a public key is in a list.
pub fn contains_key(keys: &Vec<[u8; 33]>, key: &[u8; 33]) -> (r: bool)
    ensures
        r == keys@.contains(*key),
{
    let mut i: usize = 0;
    while i < keys.len()
        invariant
            i <= keys@.len(),
            forall|k: int| 0 <= k < i ==> #[trigger] keys@[k] != *key,
        decreases keys.len() - i,
    {
        if same_key(&keys[i], key) {
            assert(keys@[i as int] == *key);
            return true;
        }
        i = i + 1;
    }
    false
}

/// Whether any of the channels is announced. Only then does an announcement of the node relay.
pub fn any_announced(announced: &Vec<bool>) -> (r: bool)
    ensures
        r == announced@.contains(true),
{
    let mut i: usize = 0;
    while i < announced.len()
        invariant
            i <= announced@.len(),
            forall|k: int| 0 <= k < i ==> !(#[trigger] announced@[k]),
        decreases announced.len() - i,
    {
        if announced[i] {
            assert(announced@[i as int] == true);
            return true;
        }
        i = i + 1;
    }
    false
}

/// How long the node waits for a connection to be opened.
pub const CONNECT_TIMEOUT_SECS: u64 = 10;

/// How often the node looks whether the peer has finished its handshake.
pub const CONNECT_POLL_MILLIS: u64 = 10;

/// What happens while the node connects to a peer.
#[derive(Clone, Copy, Debug, PartialEq, Eq, Structural)]
pub enum ConnectEvent {
    /// Whether the connection was opened in time.
    Opened(bool),
    /// The connection was closed.
    Closed,
    /// Some time has passed; the peer has finished its handshake, or not yet.
    Waited { found: bool },
}

/// What the node does while it connects to a peer.
#[derive(Clone, Copy, Debug, PartialEq, Eq, Structural)]
pub enum ConnectStep {
    /// Give up.
    Fail,
    /// Begin the handshake, and wait.
    Attach,
    /// Wait on.
    Wait,
    /// The peer is connected.
    Succeed,
}

/// What the node does next while it connects to a peer.
pub open spec fn connect_next(event: ConnectEvent) -> ConnectStep {
    match event {
        ConnectEvent::Opened(true) => ConnectStep::Attach,
        ConnectEvent::Opened(false) => ConnectStep::Fail,
        ConnectEvent::Closed => ConnectStep::Fail,
        ConnectEvent::Waited { found: true } => ConnectStep::Succeed,
        ConnectEvent::Waited { found: false } => ConnectStep::Wait,
    }
}

/// Decides what the node does next while it connects to a peer.
pub fn do_connect_peer(event: ConnectEvent) -> (r: ConnectStep)
    ensures
        r == connect_next(event),
{
    match event {
        ConnectEvent::Opened(ok) => {
            if ok {
                ConnectStep::Attach
            } else {
                ConnectStep::Fail
            }
        },
        ConnectEvent::Closed => ConnectStep::Fail,
        ConnectEvent::Waited { found } => {
            if found {
                ConnectStep::Succeed
            } else {
                ConnectStep::Wait
            }
        },
    }
}

/// Where the node stands with the events of a connection so far: what it did last, with giving up
/// and succeeding final.
pub open spec fn connect_outcome(events: Seq<ConnectEvent>) -> ConnectStep
    decreases events.len(),
{
    if events.len() == 0 {
        ConnectStep::Wait
    } else {
        match connect_outcome(events.drop_last()) {
            ConnectStep::Fail => ConnectStep::Fail,
            ConnectStep::Succeed => ConnectStep::Succeed,
            _ => connect_next(events.last()),
        }
    }
}

/// A connection is reported to have come about only if the peer was found.
pub proof fn law_connected_peers_were_found(events: Seq<ConnectEvent>)
    requires
        connect_outcome(events) == ConnectStep::Succeed,
    ensures
        events.contains(ConnectEvent::Waited { found: true }),
    decreases events.len(),
{
    if events.len() > 0 {
        let before = events.drop_last();
        if connect_outcome(before) == ConnectStep::Succeed {
            law_connected_peers_were_found(before);
            let i = choose|i: int|
                0 <= i < before.len() && before[i] == ConnectEvent::Waited { found: true };
            assert(events[i] == ConnectEvent::Waited { found: true });
        } else {
            assert(events[events.len() - 1] == ConnectEvent::Waited { found: true });
        }
    }
}

/// Where the search for a connection stands. The addresses that are left are tried in order.
#[derive(Debug, PartialEq)]
pub enum SearchState<S, W> {
    /// An address is being resolved.
    Resolving { rest: W },
    /// Before the peer is dialled at an address, the node looks whether it is connected.
    Checking { addr: S, candidates: W, rest: W },
    /// The peer is being dialled.
    Connecting { candidates: W, rest: W },
    /// The search is over.
    Over,
}

/// What the search for a connection asks for.
#[derive(Debug, PartialEq)]
pub enum SearchAction<S> {
    /// Resolve an address.
    Resolve(S),
    /// Say whether the peer is connected.
    FindPeer,
    /// Dial the peer.
    Connect(S),
    /// Say that a connection failed.
    Complain,
}

/// What the search for a connection is told.
#[derive(Debug)]
pub enum SearchEvent {
    /// What an address resolves to, if it can be resolved.
    Addresses(Option<Vec<String>>),
    /// Whether the peer is connected.
    Peer(bool),
    /// Whether the connection came about.
    Connected(bool),
}

impl View for SearchState<String, Vec<String>> {
    type V = SearchState<Seq<char>, Seq<Seq<char>>>;

    open spec fn view(&self) -> SearchState<Seq<char>, Seq<Seq<char>>> {
        match *self {
            SearchState::Resolving { rest } => SearchState::Resolving { rest: texts(rest@) },
            SearchState::Checking { addr, candidates, rest } => SearchState::Checking {
                addr: addr@,
                candidates: texts(candidates@),
                rest: texts(rest@),
            },
            SearchState::Connecting { candidates, rest } => SearchState::Connecting {
                candidates: texts(candidates@),
                rest: texts(rest@),
            },
            SearchState::Over => SearchState::Over,
        }
    }
}

impl View for SearchAction<String> {
    type V = SearchAction<Seq<char>>;

    open spec fn view(&self) -> SearchAction<Seq<char>> {
        match *self {
            SearchAction::Resolve(s) => SearchAction::Resolve(s@),
            SearchAction::FindPeer => SearchAction::FindPeer,
            SearchAction::Connect(s) => SearchAction::Connect(s@),
            SearchAction::Complain => SearchAction::Complain,
        }
    }
}

/// What a list of steps of a search asks for.
pub open spec fn search_actions(v: Seq<SearchAction<String>>) -> Seq<SearchAction<Seq<char>>> {
    v.map_values(|a: SearchAction<String>| a@)
}

/// How the search goes on: with the next candidate, or else with the next address, or else it is
/// over.
pub open spec fn search_on(candidates: Seq<Seq<char>>, rest: Seq<Seq<char>>) -> (
    SearchState<Seq<char>, Seq<Seq<char>>>,
    Seq<SearchAction<Seq<char>>>,
) {
    if candidates.len() > 0 {
        (
            SearchState::Checking {
                addr: candidates[0],
                candidates: candidates.drop_first(),
                rest,
            },
            seq![SearchAction::FindPeer],
        )
    } else if rest.len() > 0 {
        (
            SearchState::Resolving { rest: rest.drop_first() },
            seq![SearchAction::Resolve(rest[0])],
        )
    } else {
        (SearchState::Over, seq![])
    }
}

/// What the search for a connection does with an event: an address that cannot be resolved is
/// passed over, a failed connection leads to the next candidate, and the first success ends it.
pub open spec fn search_next(
    state: SearchState<Seq<char>, Seq<Seq<char>>>,
    event: SearchEvent,
) -> (SearchState<Seq<char>, Seq<Seq<char>>>, Seq<SearchAction<Seq<char>>>) {
    match (state, event) {
        (SearchState::Resolving { rest }, SearchEvent::Addresses(None)) => search_on(seq![], rest),
        (SearchState::Resolving { rest }, SearchEvent::Addresses(Some(found))) => search_on(
            texts(found@),
            rest,
        ),
        (SearchState::Checking { .. }, SearchEvent::Peer(true)) => (SearchState::Over, seq![]),
        (SearchState::Checking { addr, candidates, rest }, SearchEvent::Peer(false)) => (
            SearchState::Connecting { candidates, rest },
            seq![SearchAction::Connect(addr)],
        ),
        (SearchState::Connecting { .. }, SearchEvent::Connected(true)) => (
            SearchState::Over,
            seq![],
        ),
        (SearchState::Connecting { candidates, rest }, SearchEvent::Connected(false)) => {
            let next = search_on(candidates, rest);
            (next.0, seq![SearchAction::Complain] + next.1)
        },
        _ => (state, seq![]),
    }
}

/// Takes the first text off a list.
fn take_first(list: &mut Vec<String>) -> (r: String)
    requires
        old(list)@.len() > 0,
    ensures
        r@ == texts(old(list)@)[0],
        texts(final(list)@) == texts(old(list)@).drop_first(),
{
    let first: String = list.remove(0);
    assert(texts(list@) =~= texts(old(list)@).drop_first());
    first
}

/// Goes on with the search for a connection.
fn go_on_searching(candidates: Vec<String>, rest: Vec<String>) -> (r: (
    SearchState<String, Vec<String>>,
    Vec<SearchAction<String>>,
))
    ensures
        r.0@ == search_on(texts(candidates@), texts(rest@)).0,
        search_actions(r.1@) == search_on(texts(candidates@), texts(rest@)).1,
{
    let mut candidates: Vec<String> = candidates;
    let mut rest: Vec<String> = rest;
    let mut actions: Vec<SearchAction<String>> = Vec::new();
    if candidates.len() > 0 {
        let addr: String = take_first(&mut candidates);
        actions.push(SearchAction::FindPeer);
        assert(search_actions(actions@) =~= seq![SearchAction::<Seq<char>>::FindPeer]);
        (SearchState::Checking { addr, candidates, rest }, actions)
    } else if rest.len() > 0 {
        let address: String = take_first(&mut rest);
        let ghost text = address@;
        actions.push(SearchAction::Resolve(address));
        assert(search_actions(actions@) =~= seq![SearchAction::Resolve(text)]);
        (SearchState::Resolving { rest }, actions)
    } else {
        assert(search_actions(actions@) =~= seq![]);
        (SearchState::Over, actions)
    }
}

/// Begins the search for a connection to a peer that has announced the given addresses.
pub fn start_search(addresses: Vec<String>) -> (r: (
    SearchState<String, Vec<String>>,
    Vec<SearchAction<String>>,
))
    ensures
        r.0@ == search_on(seq![], texts(addresses@)).0,
        search_actions(r.1@) == search_on(seq![], texts(addresses@)).1,
{
    let none: Vec<String> = Vec::new();
    assert(texts(none@) =~= Seq::<Seq<char>>::empty());
    go_on_searching(none, addresses)
}

/// Takes an event of the search for a connection.
pub fn search_step(state: SearchState<String, Vec<String>>, event: SearchEvent) -> (r: (
    SearchState<String, Vec<String>>,
    Vec<SearchAction<String>>,
))
    ensures
        r.0@ == search_next(state@, event).0,
        search_actions(r.1@) == search_next(state@, event).1,
{
    let mut actions: Vec<SearchAction<String>> = Vec::new();
    assert(search_actions(actions@) =~= seq![]);
    match state {
        SearchState::Resolving { rest } => match event {
            SearchEvent::Addresses(found) => match found {
                None => {
                    let none: Vec<String> = Vec::new();
                    assert(texts(none@) =~= Seq::<Seq<char>>::empty());
                    go_on_searching(none, rest)
                },
                Some(found) => go_on_searching(found, rest),
            },
            _ => (SearchState::Resolving { rest }, actions),
        },
        SearchState::Checking { addr, candidates, rest } => match event {
            SearchEvent::Peer(found) => {
                if found {
                    (SearchState::Over, actions)
                } else {
                    let ghost text = addr@;
                    actions.push(SearchAction::Connect(addr));
                    assert(search_actions(actions@) =~= seq![SearchAction::Connect(text)]);
                    (SearchState::Connecting { candidates, rest }, actions)
                }
            },
            _ => (SearchState::Checking { addr, candidates, rest }, actions),
        },
        SearchState::Connecting { candidates, rest } => match event {
            SearchEvent::Connected(ok) => {
                if ok {
                    (SearchState::Over, actions)
                } else {
                    let next: (SearchState<String, Vec<String>>, Vec<SearchAction<String>>) =
                        go_on_searching(candidates, rest);
                    let ghost later = search_actions(next.1@);
                    let mut more: Vec<SearchAction<String>> = next.1;
                    actions.push(SearchAction::Complain);
                    actions.append(&mut more);
                    assert(search_actions(actions@) =~= seq![SearchAction::<Seq<char>>::Complain]
                        + later);
                    (next.0, actions)
                }
            },
            _ => (SearchState::Connecting { candidates, rest }, actions),
        },
        SearchState::Over => (SearchState::Over, actions),
    }
}

/// What the node does about the peer of a channel when it looks after its connections.
#[derive(Clone, Copy, Debug, PartialEq, Eq, Structural)]
pub enum Reconnect {
    /// The peer is connected: nothing.
    Skip,
    /// The node is shutting down: no peer is dialled any more.
    Stop,
    /// The peer is dialled.
    Dial,
}

/// What the node does about the peer of a channel.
pub open spec fn reconnect(connected: bool, stopping: bool) -> Reconnect {
    if connected {
        Reconnect::Skip
    } else if stopping {
        Reconnect::Stop
    } else {
        Reconnect::Dial
    }
}

/// Decides what the node does about the peer of a channel.
pub fn reconnect_decision(connected: bool, stopping: bool) -> (r: Reconnect)
    ensures
        r == reconnect(connected, stopping),
{
    if connected {
        Reconnect::Skip
    } else if stopping {
        Reconnect::Stop
    } else {
        Reconnect::Dial
    }
}

/// How an announced address is reached.
#[derive(Clone, Copy, Debug, PartialEq, Eq, Structural)]
pub enum AddressKind {
    /// Over the older onion service.
    OnionV2,
    /// Over the onion service.
    OnionV3,
    /// Over the network.
    Plain,
}

/// The addresses that can be dialled without the onion service, in order.
pub open spec fn plain_addresses(kinds: Seq<AddressKind>, addresses: Seq<Seq<char>>) -> Seq<
    Seq<char>,
>
    decreases kinds.len(),
{
    if kinds.len() == 0 || addresses.len() != kinds.len() {
        seq![]
    } else if kinds.last() == AddressKind::Plain {
        plain_addresses(kinds.drop_last(), addresses.drop_last()).push(addresses.last())
    } else {
        plain_addresses(kinds.drop_last(), addresses.drop_last())
    }
}

/// Picks the addresses that can be dialled without the onion service.
pub fn non_onion(kinds: &Vec<AddressKind>, addresses: &Vec<String>) -> (r: Vec<String>)
    requires
        kinds@.len() == addresses@.len(),
    ensures
        texts(r@) == plain_addresses(kinds@, texts(addresses@)),
{
    let mut out: Vec<String> = Vec::new();
    let mut i: usize = 0;
    let ghost all = texts(addresses@);
    proof {
        assert(kinds@.take(0) =~= Seq::<AddressKind>::empty());
        assert(texts(out@) =~= plain_addresses(kinds@.take(0), all.take(0)));
    }
    while i < kinds.len()
        invariant
            i <= kinds@.len(),
            kinds@.len() == addresses@.len(),
            all == texts(addresses@),
            texts(out@) == plain_addresses(kinds@.take(i as int), all.take(i as int)),
        decreases kinds.len() - i,
    {
        let ghost before = texts(out@);
        proof {
            assert(kinds@.take(i + 1).drop_last() =~= kinds@.take(i as int));
            assert(all.take(i + 1).drop_last() =~= all.take(i as int));
            assert(all.take(i + 1).last() == addresses@[i as int]@);
        }
        match kinds[i] {
            AddressKind::Plain => {
                let address: String = addresses[i].clone();
                out.push(address);
                assert(texts(out@) =~= before.push(addresses@[i as int]@));
            },
            _ => {},
        }
        i = i + 1;
    }
    assert(kinds@.take(i as int) =~= kinds@);
    assert(all.take(i as int) =~= all);
    out
}

} // verus!
