//! How peers are named, found and dialled.

use crate::line_laws::{lemma_named_peer, spells_key};
use crate::peers::{
    connect_next, peer_info, plain_addresses, reconnect, search_next, search_on, AddressKind,
    ConnectEvent, ConnectStep, PeerInfoError, Reconnect, SearchAction, SearchEvent, SearchState,
};
use crate::text::{first_index, lemma_first_index, texts};
use vstd::prelude::*;
use vstd::string::*;

verus! {

/// A peer that is named by its key and its host is that key under the address of that host; a
/// missing host is complained about before an address that is not found, and that before a key
/// that is not one.
pub proof fn law_peers_are_named(
    hex: Seq<char>,
    key: [u8; 33],
    host: Seq<char>,
    addr: Seq<char>,
    info: Seq<char>,
    resolved: Option<Seq<char>>,
)
    requires
        spells_key(hex, key),
        !host.contains('@'),
    ensures
        peer_info(hex + "@"@ + host, Some(addr)) == Ok::<_, PeerInfoError>((key, addr)),
        peer_info(hex + "@"@ + host, None) == Err::<([u8; 33], Seq<char>), _>(
            PeerInfoError::BadAddress,
        ),
        !info.contains('@') ==> peer_info(info, resolved) == Err::<([u8; 33], Seq<char>), _>(
            PeerInfoError::MissingAddress,
        ),
        info.contains('@') && resolved is None ==> peer_info(info, resolved) == Err::<
            ([u8; 33], Seq<char>),
            _,
        >(PeerInfoError::BadAddress),
        peer_info(info, resolved) matches Ok(peer) ==> resolved == Some(peer.1) && info.contains(
            '@',
        ),
{
    lemma_named_peer(hex + "@"@ + host, hex, key, host);
    lemma_first_index(info, '@');
    let n = first_index(info, '@') as int;
    if info.contains('@') {
        let i = choose|i: int| 0 <= i < info.len() && info[i] == '@';
        assert(n <= i);
    } else if n < info.len() {
        assert(info[n] == '@');
    }
}

/// The addresses that a search dials while no peer is found and every connection fails.
pub open spec fn failed_dials(
    state: SearchState<Seq<char>, Seq<Seq<char>>>,
    rounds: nat,
) -> Seq<Seq<char>>
    decreases rounds,
{
    if rounds == 0 {
        seq![]
    } else {
        let asked = search_next(state, SearchEvent::Peer(false));
        let failed = search_next(asked.0, SearchEvent::Connected(false));
        (match asked.1[0] {
            SearchAction::Connect(addr) => seq![addr],
            _ => seq![],
        }) + failed_dials(failed.0, (rounds - 1) as nat)
    }
}

/// As long as connections fail, every address that was found is dialled, in order, and no other.
pub proof fn law_every_address_is_dialled(found: Vec<String>, rest: Seq<Seq<char>>)
    ensures
        ({
            let state = search_next(
                SearchState::Resolving { rest },
                SearchEvent::Addresses(Some(found)),
            ).0;
            failed_dials(state, texts(found@).len()) == texts(found@)
        }),
{
    lemma_dials(texts(found@), rest);
}

proof fn lemma_dials(candidates: Seq<Seq<char>>, rest: Seq<Seq<char>>)
    ensures
        failed_dials(search_on(candidates, rest).0, candidates.len()) == candidates,
    decreases candidates.len(),
{
    if candidates.len() > 0 {
        let next = candidates.drop_first();
        lemma_dials(next, rest);
        let state = search_on(candidates, rest).0;
        let asked = search_next(state, SearchEvent::Peer(false));
        let failed = search_next(asked.0, SearchEvent::Connected(false));
        assert(asked.1 == seq![SearchAction::Connect(candidates[0])]);
        assert(asked.0 == SearchState::<Seq<char>, Seq<Seq<char>>>::Connecting {
            candidates: next,
            rest,
        });
        assert(failed.0 == search_on(next, rest).0);
        assert(seq![candidates[0]] + next =~= candidates);
    } else {
        assert(failed_dials(search_on(candidates, rest).0, 0) =~= candidates);
    }
}

/// A search goes through its addresses in order: the next is resolved once nothing that was found
/// before is left, whether that failed or could not be resolved, and with the last it is over.
pub proof fn law_searches_go_through_their_addresses(
    address: Seq<char>,
    rest: Seq<Seq<char>>,
    found: Vec<String>,
)
    ensures
        ({
            let left = seq![address] + rest;
            let none = Seq::<Seq<char>>::empty();
            let next = SearchState::<Seq<char>, Seq<Seq<char>>>::Resolving { rest };
            let unresolved = search_next(
                SearchState::Resolving { rest: left },
                SearchEvent::Addresses(None),
            );
            let failed = search_next(
                SearchState::Connecting { candidates: none, rest: left },
                SearchEvent::Connected(false),
            );
            let last = search_next(
                SearchState::Resolving { rest: none },
                SearchEvent::Addresses(None),
            );
            &&& unresolved.0 == next
            &&& unresolved.1 == seq![SearchAction::Resolve(address)]
            &&& failed.0 == next
            &&& failed.1 == seq![SearchAction::Complain, SearchAction::Resolve(address)]
            &&& last.0 is Over
            &&& last.1.len() == 0
        }),
{
    let left = seq![address] + rest;
    assert(left.drop_first() =~= rest);
    assert(left[0] == address);
}

/// A search begins with the first address, asks before each dial whether the peer is there, and
/// complains about each dial that fails before it goes on.
pub proof fn law_searches_take_one_step_at_a_time(
    addr: Seq<char>,
    candidates: Seq<Seq<char>>,
    rest: Seq<Seq<char>>,
)
    ensures
        ({
            let none = Seq::<Seq<char>>::empty();
            let begun = search_on(none, seq![addr] + rest);
            let found = search_on(seq![addr] + candidates, rest);
            let over = search_on(none, none);
            let failed = search_next(
                SearchState::Connecting { candidates: seq![addr] + candidates, rest },
                SearchEvent::Connected(false),
            );
            let checking = SearchState::<Seq<char>, Seq<Seq<char>>>::Checking {
                addr,
                candidates,
                rest,
            };
            &&& begun.0 == SearchState::<Seq<char>, Seq<Seq<char>>>::Resolving { rest }
            &&& begun.1 == seq![SearchAction::Resolve(addr)]
            &&& found.0 == checking
            &&& found.1 == seq![SearchAction::<Seq<char>>::FindPeer]
            &&& over.0 is Over && over.1.len() == 0
            &&& failed.0 == checking
            &&& failed.1 == seq![
                SearchAction::<Seq<char>>::Complain,
                SearchAction::<Seq<char>>::FindPeer,
            ]
        }),
{
    assert((seq![addr] + rest).drop_first() =~= rest);
    assert((seq![addr] + candidates).drop_first() =~= candidates);
    assert((seq![addr] + rest)[0] == addr);
    assert((seq![addr] + candidates)[0] == addr);
}

/// A search is over once the peer is connected, found or dialled, and then nothing more is done.
pub proof fn law_searches_end_with_the_peer(
    state: SearchState<Seq<char>, Seq<Seq<char>>>,
    event: SearchEvent,
)
    ensures
        state is Checking && event == SearchEvent::Peer(true) ==> search_next(state, event).0
            is Over && search_next(state, event).1.len() == 0,
        state is Connecting && event == SearchEvent::Connected(true) ==> search_next(
            state,
            event,
        ).0 is Over && search_next(state, event).1.len() == 0,
        state is Over ==> search_next(state, event).0 is Over && search_next(
            state,
            event,
        ).1.len() == 0,
        forall|i: int|
            0 <= i < search_next(state, event).1.len() && #[trigger] search_next(
                state,
                event,
            ).1[i] is Connect ==> event == SearchEvent::Peer(false) && state is Checking
                && search_next(state, event).1[i]->Connect_0 == state->addr,
{
}

/// The addresses behind the onion service are left out, and all others are kept in order.
pub proof fn law_plain_addresses_are_kept(
    kinds: Seq<AddressKind>,
    addresses: Seq<Seq<char>>,
    kind: AddressKind,
    address: Seq<char>,
)
    requires
        kinds.len() == addresses.len(),
    ensures
        plain_addresses(seq![], seq![]) == Seq::<Seq<char>>::empty(),
        plain_addresses(kinds.push(kind), addresses.push(address)) == (if kind
            == AddressKind::Plain {
            plain_addresses(kinds, addresses).push(address)
        } else {
            plain_addresses(kinds, addresses)
        }),
{
    assert(kinds.push(kind).drop_last() =~= kinds);
    assert(addresses.push(address).drop_last() =~= addresses);
}

/// A peer of a channel is dialled exactly if it is away and the node is not shutting down.
pub proof fn law_lost_peers_are_dialled(connected: bool, stopping: bool)
    ensures
        reconnect(connected, stopping) == Reconnect::Dial <==> !connected && !stopping,
        reconnect(connected, stopping) == Reconnect::Skip <==> connected,
{
}

/// A connection succeeds with the handshake and with nothing else; it fails if it is not opened in
/// time or closed, and until either happens the node waits.
pub proof fn law_connections_need_a_handshake(event: ConnectEvent)
    ensures
        connect_next(event) == ConnectStep::Succeed <==> event == (ConnectEvent::Waited {
            found: true,
        }),
        connect_next(event) == ConnectStep::Fail <==> event == ConnectEvent::Opened(false) || event
            == ConnectEvent::Closed,
        connect_next(event) == ConnectStep::Attach <==> event == ConnectEvent::Opened(true),
{
}

} // verus!
