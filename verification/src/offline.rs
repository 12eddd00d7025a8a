//! What the node keeps for peers that are often offline: the messages that came for them while
//! they were away, and the invoices that it hands out in their place.

use crate::peers::same_key;
use vstd::prelude::*;

verus! {

/// How many messages are held for a peer; beyond that the oldest is dropped.
pub const MAX_INTERCEPTED_OMS_PER_PEER: usize = 50;

/// The messages that are held for one peer, the oldest first.
struct Held<M> {
    peer: [u8; 33],
    messages: Vec<M>,
}

/// The messages that are held for peers that are offline.
pub struct InterceptedOms<M> {
    held: Vec<Held<M>>,
}

/// What is held for a peer once another message has come for it.
pub open spec fn hold_message<M>(held: Seq<M>, message: M) -> Seq<M> {
    if held.len() >= MAX_INTERCEPTED_OMS_PER_PEER {
        held.drop_first().push(message)
    } else {
        held.push(message)
    }
}

/// Where the messages for a peer are kept.
spec fn holds_for<M>(s: Seq<Held<M>>, peer: [u8; 33], i: int) -> bool {
    0 <= i < s.len() && s[i].peer == peer
}

/// The messages of a list, by the peers that they are for.
spec fn held_map<M>(s: Seq<Held<M>>) -> Map<[u8; 33], Seq<M>> {
    Map::new(
        |peer: [u8; 33]| exists|i: int| holds_for(s, peer, i),
        |peer: [u8; 33]| s[choose|i: int| holds_for(s, peer, i)].messages@,
    )
}

/// Whether each peer has one place in a list, with no more messages than may be held.
spec fn held_once<M>(s: Seq<Held<M>>) -> bool {
    &&& forall|i: int, j: int|
        0 <= i < j < s.len() ==> (#[trigger] s[i]).peer != (#[trigger] s[j]).peer
    &&& forall|i: int|
        0 <= i < s.len() ==> (#[trigger] s[i]).messages@.len() <= MAX_INTERCEPTED_OMS_PER_PEER
}

/// What stands at the one place of a peer is what is held for it.
proof fn lemma_held_at<M>(s: Seq<Held<M>>, i: int)
    requires
        held_once(s),
        0 <= i < s.len(),
    ensures
        held_map(s).dom().contains(s[i].peer),
        held_map(s)[s[i].peer] == s[i].messages@,
{
    let peer = s[i].peer;
    assert(holds_for(s, peer, i));
    let j = choose|j: int| holds_for(s, peer, j);
    assert(i == j);
}

impl<M> View for InterceptedOms<M> {
    type V = Map<[u8; 33], Seq<M>>;

    closed spec fn view(&self) -> Map<[u8; 33], Seq<M>> {
        held_map(self.held@)
    }
}

impl<M> InterceptedOms<M> {
    /// Each peer has one place.
    pub closed spec fn wf(self) -> bool {
        held_once(self.held@)
    }

    /// Holds nothing yet.
    pub fn new() -> (r: InterceptedOms<M>)
        ensures
            r.wf(),
            r@ == Map::<[u8; 33], Seq<M>>::empty(),
    {
        let r: InterceptedOms<M> = InterceptedOms { held: Vec::new() };
        assert(r@ =~= Map::<[u8; 33], Seq<M>>::empty());
        r
    }

    /// Where the messages for a peer are kept.
    fn position(&self, peer: &[u8; 33]) -> (r: Option<usize>)
        requires
            self.wf(),
        ensures
            r is Some == self@.dom().contains(*peer),
            r matches Some(i) ==> holds_for(self.held@, *peer, i as int) && self@[*peer]
                == self.held@[i as int].messages@,
    {
        let mut i: usize = 0;
        while i < self.held.len()
            invariant
                i <= self.held@.len(),
                self.wf(),
                forall|k: int| 0 <= k < i ==> !holds_for(self.held@, *peer, k),
            decreases self.held.len() - i,
        {
            if same_key(&self.held[i].peer, peer) {
                proof {
                    lemma_held_at(self.held@, i as int);
                }
                return Some(i);
            }
            i = i + 1;
        }
        None
    }

    /// Holds a message for a peer.
    pub fn hold(&mut self, peer: [u8; 33], message: M)
        requires
            old(self).wf(),
        ensures
            final(self).wf(),
            final(self)@ == old(self)@.insert(
                peer,
                hold_message(
                    (if old(self)@.dom().contains(peer) {
                        old(self)@[peer]
                    } else {
                        seq![]
                    }),
                    message,
                ),
            ),
    {
        let ghost before = self.held@;
        match self.position(&peer) {
            Some(i) => {
                let mut held: Held<M> = self.held.swap_remove(i);
                let ghost rest = self.held@;
                if held.messages.len() >= MAX_INTERCEPTED_OMS_PER_PEER {
                    held.messages.remove(0);
                    assert(held.messages@ =~= before[i as int].messages@.drop_first());
                }
                held.messages.push(message);
                self.held.push(held);
                proof {
                    lemma_moved(before, i as int, rest, held);
                    assert(self@ =~= old(self)@.insert(peer, held.messages@));
                }
            },
            None => {
                let mut messages: Vec<M> = Vec::new();
                messages.push(message);
                assert(messages@ =~= hold_message(Seq::<M>::empty(), message));
                let held: Held<M> = Held { peer, messages };
                self.held.push(held);
                proof {
                    assert forall|k: int| 0 <= k < before.len() implies (#[trigger] before[k]).peer
                        != peer by {
                        assert(!holds_for(before, peer, k));
                    }
                    assert(held_once(self.held@));
                    lemma_appended(before, held);
                    assert(self@ =~= old(self)@.insert(peer, messages@));
                }
            },
        }
    }

    /// Hands out everything that is held for a peer, the oldest first, and holds none of it any
    /// more.
    pub fn take(&mut self, peer: &[u8; 33]) -> (r: Option<Vec<M>>)
        requires
            old(self).wf(),
        ensures
            final(self).wf(),
            final(self)@ == old(self)@.remove(*peer),
            r is Some == old(self)@.dom().contains(*peer),
            r is Some ==> r->0@ == old(self)@[*peer],
    {
        let ghost before = self.held@;
        match self.position(peer) {
            Some(i) => {
                let held: Held<M> = self.held.swap_remove(i);
                proof {
                    lemma_removed(before, i as int, self.held@);
                    assert(self@ =~= old(self)@.remove(*peer));
                }
                Some(held.messages)
            },
            None => {
                assert(self@ =~= old(self)@.remove(*peer));
                None
            },
        }
    }
}

/// A place behind a list adds what is kept there.
proof fn lemma_appended<M>(s: Seq<Held<M>>, e: Held<M>)
    requires
        held_once(s),
        held_once(s.push(e)),
    ensures
        held_map(s.push(e)) == held_map(s).insert(e.peer, e.messages@),
{
    let t = s.push(e);
    assert forall|peer: [u8; 33]|
        held_map(t).dom().contains(peer) == held_map(s).insert(e.peer, e.messages@).dom().contains(
            peer,
        ) by {
        if held_map(s).dom().contains(peer) {
            let i = choose|i: int| holds_for(s, peer, i);
            assert(holds_for(t, peer, i));
        }
        if peer == e.peer {
            assert(holds_for(t, peer, s.len() as int));
        }
        if held_map(t).dom().contains(peer) && peer != e.peer {
            let i = choose|i: int| holds_for(t, peer, i);
            assert(holds_for(s, peer, i));
        }
    }
    assert forall|peer: [u8; 33]| held_map(t).dom().contains(peer) implies held_map(t)[peer]
        == held_map(s).insert(e.peer, e.messages@)[peer] by {
        let i = choose|i: int| holds_for(t, peer, i);
        lemma_held_at(t, i);
        if i < s.len() {
            lemma_held_at(s, i);
            assert(t[i] == s[i]);
            assert(t[s.len() as int].peer == e.peer);
        }
    }
    assert(held_map(t) =~= held_map(s).insert(e.peer, e.messages@));
}

/// Taking the last place in exchange for one that is given up takes away what was kept there.
proof fn lemma_removed<M>(s: Seq<Held<M>>, i: int, t: Seq<Held<M>>)
    requires
        held_once(s),
        0 <= i < s.len(),
        t == s.update(i, s.last()).drop_last(),
    ensures
        held_once(t),
        held_map(t) == held_map(s).remove(s[i].peer),
{
    let gone = s[i].peer;
    assert forall|a: int, b: int| 0 <= a < b < t.len() implies (#[trigger] t[a]).peer != (
    #[trigger] t[b]).peer by {
        let p = if a == i {
            s.len() - 1
        } else {
            a
        };
        let q = if b == i {
            s.len() - 1
        } else {
            b
        };
        assert(t[a] == s[p] && t[b] == s[q] && p != q);
        if p < q {
            assert(s[p].peer != s[q].peer);
        } else {
            assert(s[q].peer != s[p].peer);
        }
    }
    assert forall|a: int| 0 <= a < t.len() implies (#[trigger] t[a]).messages@.len()
        <= MAX_INTERCEPTED_OMS_PER_PEER by {
        let p = if a == i {
            s.len() - 1
        } else {
            a
        };
        assert(t[a] == s[p]);
    }
    assert forall|peer: [u8; 33]|
        held_map(t).dom().contains(peer) == held_map(s).remove(gone).dom().contains(peer) by {
        if held_map(s).dom().contains(peer) && peer != gone {
            let k = choose|k: int| holds_for(s, peer, k);
            let p = if k == s.len() - 1 {
                i
            } else {
                k
            };
            assert(holds_for(t, peer, p));
        }
        if held_map(t).dom().contains(peer) {
            let k = choose|k: int| holds_for(t, peer, k);
            let p = if k == i {
                s.len() - 1
            } else {
                k
            };
            assert(t[k] == s[p]);
            assert(holds_for(s, peer, p));
            if peer == gone {
                if p < i {
                    assert(s[p].peer != s[i].peer);
                } else {
                    assert(p != i);
                    assert(s[i].peer != s[p].peer);
                }
            }
        }
    }
    assert forall|peer: [u8; 33]| held_map(t).dom().contains(peer) implies held_map(t)[peer]
        == held_map(s).remove(gone)[peer] by {
        let k = choose|k: int| holds_for(t, peer, k);
        let p = if k == i {
            s.len() - 1
        } else {
            k
        };
        assert(t[k] == s[p]);
        lemma_held_at(t, k);
        lemma_held_at(s, p);
    }
    assert(held_map(t) =~= held_map(s).remove(gone));
}

/// Giving up a place and taking one behind the others changes what is kept for its peer and
/// nothing else.
proof fn lemma_moved<M>(s: Seq<Held<M>>, i: int, t: Seq<Held<M>>, e: Held<M>)
    requires
        held_once(s),
        0 <= i < s.len(),
        t == s.update(i, s.last()).drop_last(),
        e.peer == s[i].peer,
        e.messages@.len() <= MAX_INTERCEPTED_OMS_PER_PEER,
    ensures
        held_once(t.push(e)),
        held_map(t.push(e)) == held_map(s).insert(e.peer, e.messages@),
{
    lemma_removed(s, i, t);
    let u = t.push(e);
    assert forall|a: int, b: int| 0 <= a < b < u.len() implies (#[trigger] u[a]).peer != (
    #[trigger] u[b]).peer by {
        if b == t.len() {
            lemma_held_at(t, a);
            assert(u[a] == t[a]);
        } else {
            assert(t[a].peer != t[b].peer);
        }
    }
    lemma_appended(t, e);
    assert(held_map(u) =~= held_map(s).insert(e.peer, e.messages@));
}

/// What is held for a peer once several messages have come for it.
pub open spec fn hold_messages<M>(held: Seq<M>, messages: Seq<M>) -> Seq<M>
    decreases messages.len(),
{
    if messages.len() == 0 {
        held
    } else {
        hold_message(hold_messages(held, messages.drop_last()), messages.last())
    }
}

/// However many messages come for a peer while it is away, the newest of them are held, as many
/// as may be, in the order in which they came.
pub proof fn law_newest_messages_are_held<M>(messages: Seq<M>)
    ensures
        ({
            let held = hold_messages(Seq::<M>::empty(), messages);
            &&& held.len() <= MAX_INTERCEPTED_OMS_PER_PEER
            &&& messages.len() <= MAX_INTERCEPTED_OMS_PER_PEER ==> held == messages
            &&& messages.len() > MAX_INTERCEPTED_OMS_PER_PEER ==> held == messages.skip(
                messages.len() - MAX_INTERCEPTED_OMS_PER_PEER,
            )
        }),
    decreases messages.len(),
{
    let max = MAX_INTERCEPTED_OMS_PER_PEER as int;
    let held = hold_messages(Seq::<M>::empty(), messages);
    if messages.len() > 0 {
        let first = messages.drop_last();
        law_newest_messages_are_held(first);
        if messages.len() <= max {
            assert(held =~= messages);
        } else if messages.len() == max + 1 {
            assert(held =~= messages.skip(messages.len() - max));
        } else {
            assert(held =~= messages.skip(messages.len() - max));
        }
    } else {
        assert(held =~= messages);
    }
}

/// An invoice that is handed out for one recipient.
struct Kept<I> {
    recipient: Vec<u8>,
    slot: u16,
    invoice: I,
}

/// The invoices that the node hands out for recipients that are often offline, by the recipient
/// and the slot that the recipient has chosen.
pub struct StaticInvoices<I> {
    kept: Vec<Kept<I>>,
}

/// Where the invoice for a recipient and a slot is kept.
spec fn keeps_for<I>(s: Seq<Kept<I>>, key: (Seq<u8>, u16), i: int) -> bool {
    0 <= i < s.len() && s[i].recipient@ == key.0 && s[i].slot == key.1
}

/// The invoices of a list, by the recipients and slots that they are for.
spec fn kept_map<I>(s: Seq<Kept<I>>) -> Map<(Seq<u8>, u16), I> {
    Map::new(
        |key: (Seq<u8>, u16)| exists|i: int| keeps_for(s, key, i),
        |key: (Seq<u8>, u16)| s[choose|i: int| keeps_for(s, key, i)].invoice,
    )
}

/// Whether each recipient and slot has one place in a list.
spec fn kept_once<I>(s: Seq<Kept<I>>) -> bool {
    forall|key: (Seq<u8>, u16), i: int, j: int|
        #![trigger keeps_for(s, key, i), keeps_for(s, key, j)]
        keeps_for(s, key, i) && keeps_for(s, key, j) ==> i == j
}

/// What stands at the one place of a recipient and a slot is what is kept for them.
proof fn lemma_kept_at<I>(s: Seq<Kept<I>>, key: (Seq<u8>, u16), i: int)
    requires
        kept_once(s),
        keeps_for(s, key, i),
    ensures
        kept_map(s).dom().contains(key),
        kept_map(s)[key] == s[i].invoice,
{
    let j = choose|j: int| keeps_for(s, key, j);
    assert(keeps_for(s, key, j));
}

/// Writing over a place, or taking a new one behind the others, changes what is kept for its
/// recipient and slot and nothing else.
proof fn lemma_kept<I>(s: Seq<Kept<I>>, i: int, t: Seq<Kept<I>>, e: Kept<I>)
    requires
        kept_once(s),
        0 <= i <= s.len(),
        i < s.len() ==> keeps_for(s, (e.recipient@, e.slot), i) && t == s.update(i, e),
        i == s.len() ==> t == s.push(e) && !kept_map(s).dom().contains((e.recipient@, e.slot)),
    ensures
        kept_once(t),
        kept_map(t) == kept_map(s).insert((e.recipient@, e.slot), e.invoice),
{
    let own = (e.recipient@, e.slot);
    assert(keeps_for(t, own, i));
    assert forall|key: (Seq<u8>, u16), a: int| #[trigger]
        keeps_for(t, key, a) == (if a == i {
            key == own
        } else {
            keeps_for(s, key, a)
        }) by {}
    assert forall|key: (Seq<u8>, u16), a: int, b: int|
        #![trigger keeps_for(t, key, a), keeps_for(t, key, b)]
        keeps_for(t, key, a) && keeps_for(t, key, b) implies a == b by {
        if a != i && b != i {
            assert(keeps_for(s, key, a) && keeps_for(s, key, b));
        } else if a != b {
            let c = if a == i {
                b
            } else {
                a
            };
            assert(keeps_for(s, own, c));
            if i < s.len() {
                assert(keeps_for(s, own, i));
            }
        }
    }
    let after = kept_map(s).insert(own, e.invoice);
    assert forall|key: (Seq<u8>, u16)|
        kept_map(t).dom().contains(key) == after.dom().contains(key) by {
        if kept_map(s).dom().contains(key) && key != own {
            let a = choose|a: int| keeps_for(s, key, a);
            assert(keeps_for(t, key, a));
        }
        if kept_map(t).dom().contains(key) && key != own {
            let a = choose|a: int| keeps_for(t, key, a);
            assert(keeps_for(s, key, a));
        }
    }
    assert forall|key: (Seq<u8>, u16)| kept_map(t).dom().contains(key) implies kept_map(t)[key]
        == after[key] by {
        let a = choose|a: int| keeps_for(t, key, a);
        lemma_kept_at(t, key, a);
        if key == own {
            assert(keeps_for(t, key, i));
        } else {
            assert(a != i);
            lemma_kept_at(s, key, a);
        }
    }
    assert(kept_map(t) =~= after);
}

/// Whether two byte strings are the same.
fn same_bytes(a: &Vec<u8>, b: &Vec<u8>) -> (r: bool)
    ensures
        r == (a@ == b@),
{
    if a.len() != b.len() {
        return false;
    }
    let mut i: usize = 0;
    while i < a.len()
        invariant
            i <= a@.len(),
            a@.len() == b@.len(),
            forall|k: int| 0 <= k < i ==> #[trigger] a@[k] == b@[k],
        decreases a.len() - i,
    {
        if a[i] != b[i] {
            assert(a@[i as int] != b@[i as int]);
            return false;
        }
        i = i + 1;
    }
    assert(a@ =~= b@);
    true
}

impl<I> View for StaticInvoices<I> {
    type V = Map<(Seq<u8>, u16), I>;

    closed spec fn view(&self) -> Map<(Seq<u8>, u16), I> {
        kept_map(self.kept@)
    }
}

impl<I> StaticInvoices<I> {
    /// Each recipient and slot has one place.
    pub closed spec fn wf(self) -> bool {
        kept_once(self.kept@)
    }

    /// Keeps nothing yet.
    pub fn new() -> (r: StaticInvoices<I>)
        ensures
            r.wf(),
            r@ == Map::<(Seq<u8>, u16), I>::empty(),
    {
        let r: StaticInvoices<I> = StaticInvoices { kept: Vec::new() };
        assert(r@ =~= Map::<(Seq<u8>, u16), I>::empty());
        r
    }

    /// Where the invoice for a recipient and a slot is kept.
    fn position(&self, recipient: &Vec<u8>, slot: u16) -> (r: Option<usize>)
        requires
            self.wf(),
        ensures
            r is Some == self@.dom().contains((recipient@, slot)),
            r matches Some(i) ==> keeps_for(self.kept@, (recipient@, slot), i as int)
                && self@[(recipient@, slot)] == self.kept@[i as int].invoice,
    {
        let mut i: usize = 0;
        while i < self.kept.len()
            invariant
                i <= self.kept@.len(),
                self.wf(),
                forall|k: int| 0 <= k < i ==> !keeps_for(self.kept@, (recipient@, slot), k),
            decreases self.kept.len() - i,
        {
            if self.kept[i].slot == slot && same_bytes(&self.kept[i].recipient, recipient) {
                proof {
                    lemma_kept_at(self.kept@, (recipient@, slot), i as int);
                }
                return Some(i);
            }
            i = i + 1;
        }
        None
    }

    /// Keeps an invoice; one that was kept for the same recipient and slot is given up.
    pub fn persist(&mut self, recipient: Vec<u8>, slot: u16, invoice: I)
        requires
            old(self).wf(),
        ensures
            final(self).wf(),
            final(self)@ == old(self)@.insert((recipient@, slot), invoice),
    {
        let ghost before = self.kept@;
        let found: Option<usize> = self.position(&recipient, slot);
        let kept: Kept<I> = Kept { recipient, slot, invoice };
        match found {
            Some(i) => {
                self.kept.set(i, kept);
                proof {
                    lemma_kept(before, i as int, self.kept@, kept);
                }
            },
            None => {
                self.kept.push(kept);
                proof {
                    lemma_kept(before, before.len() as int, self.kept@, kept);
                }
            },
        }
    }

    /// Whether an invoice is kept for a recipient and a slot.
    pub fn contains(&self, recipient: &Vec<u8>, slot: u16) -> (r: bool)
        requires
            self.wf(),
        ensures
            r == self@.dom().contains((recipient@, slot)),
    {
        self.position(recipient, slot).is_some()
    }

    /// The invoice that is kept for a recipient and a slot.
    pub fn get(&self, recipient: &Vec<u8>, slot: u16) -> (r: Option<&I>)
        requires
            self.wf(),
        ensures
            r is Some == self@.dom().contains((recipient@, slot)),
            r is Some ==> *r->0 == self@[(recipient@, slot)],
    {
        match self.position(recipient, slot) {
            Some(i) => Some(&self.kept[i].invoice),
            None => None,
        }
    }
}

} // verus!
