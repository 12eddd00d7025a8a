//! How numbers, payments and messages are kept.

use crate::offline::{hold_message, hold_messages, law_newest_messages_are_held};
use crate::payment_table::{
    claimed_payment, entries_bytes, failed_payment, lemma_table_push, pending_payment,
    restarted_payment, sent_payment, spec_read_entries, spec_read_store, store_bytes,
    stored_payments, table_bytes, table_of,
};
use crate::payments::{
    lemma_array32, lemma_body_read, spec_read_optional, HTLCStatus, MillisatAmount, PaymentEntry,
    PaymentInfo,
};
use crate::wire::{
    be_bytes, be_value, count_bytes, law_be_round_trip, law_size_round_trip, lemma_pow256_values,
    lemma_small_size, pow256, prefixed, record_bytes, size_bytes, spec_read_count, spec_read_size,
    DecodeError,
};
use vstd::prelude::*;

verus! {

/// Numbers are kept with the highest byte first, each byte counting 256 times as much as the next.
pub proof fn law_high_bytes_come_first(b: u8, s: Seq<u8>)
    ensures
        be_value(seq![]) == 0,
        be_value(seq![b]) == b,
        be_value(seq![b] + s) == b * pow256(s.len()) + be_value(s),
        pow256(0) == 1,
        pow256(s.len() + 1) == 256 * pow256(s.len()),
    decreases s.len(),
{
    let t = seq![b] + s;
    assert(seq![b].drop_last() =~= Seq::<u8>::empty());
    assert(be_value(Seq::<u8>::empty()) == 0);
    if s.len() == 0 {
        assert(t =~= seq![b]);
        let one = pow256(0);
        assert(b * one == b) by (nonlinear_arith)
            requires
                one == 1,
        ;
    } else {
        law_high_bytes_come_first(b, s.drop_last());
        assert(t.drop_last() =~= seq![b] + s.drop_last());
        let n = s.len();
        let p = pow256((n - 1) as nat);
        assert(pow256(n) == 256 * p);
        let v = be_value(s.drop_last());
        assert(be_value(t.drop_last()) == b * p + v);
        assert((b * p + v) * 256 == b * (256 * p) + v * 256) by (nonlinear_arith);
        assert(t.last() == s.last());
        let q = pow256(n);
        assert(b * (256 * p) == b * q) by (nonlinear_arith)
            requires
                q == 256 * p,
        ;
        assert(be_value(t) == be_value(t.drop_last()) * 256 + t.last());
    }
}

/// A number is written in as many bytes as it is given, and those bytes are the only ones of that
/// length that stand for it.
pub proof fn law_bytes_of_numbers_are_unique(s: Seq<u8>)
    ensures
        be_bytes(be_value(s), s.len()) == s,
    decreases s.len(),
{
    if s.len() > 0 {
        let first = s.drop_last();
        law_bytes_of_numbers_are_unique(first);
        let v = be_value(s);
        assert(v == be_value(first) * 256 + s.last());
        assert(v / 256 == be_value(first));
        assert(v % 256 == s.last());
        assert(be_bytes(v, s.len()) =~= first.push(s.last()));
    } else {
        assert(be_bytes(be_value(s), 0) =~= s);
    }
}

/// A length takes one byte where that is enough, else a mark and two, four or eight bytes, of
/// which as few as possible are used; one that uses more is refused.
pub proof fn law_lengths_are_short(n: nat, s: Seq<u8>)
    requires
        n <= u64::MAX,
    ensures
        n < 0xfd ==> size_bytes(n) == seq![n as u8],
        0xfd <= n < 0x1_0000 ==> size_bytes(n).len() == 3 && size_bytes(n)[0] == 0xfd,
        0x1_0000 <= n < 0x1_0000_0000 ==> size_bytes(n).len() == 5 && size_bytes(n)[0] == 0xfe,
        0x1_0000_0000 <= n ==> size_bytes(n).len() == 9 && size_bytes(n)[0] == 0xff,
        n >= 0xfd ==> be_value(size_bytes(n).skip(1)) == n,
        s.len() == 2 && be_value(s) < 0xfd ==> spec_read_size(seq![0xfdu8] + s) == Err::<
            (nat, nat),
            _,
        >(DecodeError::InvalidValue),
        s.len() == 4 && be_value(s) < 0x1_0000 ==> spec_read_size(seq![0xfeu8] + s) == Err::<
            (nat, nat),
            _,
        >(DecodeError::InvalidValue),
        s.len() == 8 && be_value(s) < 0x1_0000_0000 ==> spec_read_size(seq![0xffu8] + s) == Err::<
            (nat, nat),
            _,
        >(DecodeError::InvalidValue),
        spec_read_size(seq![]) == Err::<(nat, nat), _>(DecodeError::ShortRead),
        s.len() < 2 ==> spec_read_size(seq![0xfdu8] + s) is Err,
        s.len() < 4 ==> spec_read_size(seq![0xfeu8] + s) is Err,
        s.len() < 8 ==> spec_read_size(seq![0xffu8] + s) is Err,
{
    reveal(size_bytes);
    reveal(spec_read_size);
    lemma_pow256_values();
    if 0xfd <= n {
        let len: nat = if n < 0x1_0000 {
            2
        } else if n < 0x1_0000_0000 {
            4
        } else {
            8
        };
        law_be_round_trip(n, len);
        assert(size_bytes(n).skip(1) =~= be_bytes(n, len));
    }
    assert((seq![0xfdu8] + s).skip(1) =~= s);
    assert((seq![0xfeu8] + s).skip(1) =~= s);
    assert((seq![0xffu8] + s).skip(1) =~= s);
    assert(s.take(s.len() as int) =~= s);
}

/// A count takes two bytes, and eight more only where those two are not enough.
pub proof fn law_counts_are_short(n: nat)
    requires
        n <= u64::MAX,
    ensures
        n < 0xffff ==> count_bytes(n).len() == 2 && be_value(count_bytes(n)) == n,
        n >= 0xffff ==> count_bytes(n).len() == 10 && count_bytes(n).take(2) == seq![0xffu8, 0xff]
            && be_value(count_bytes(n).skip(2)) == n - 0xffff,
{
    lemma_pow256_values();
    if n < 0xffff {
        law_be_round_trip(n, 2);
    } else {
        law_be_round_trip(0xffff, 2);
        law_be_round_trip((n - 0xffff) as nat, 8);
        assert(count_bytes(n).take(2) =~= be_bytes(0xffff, 2));
        assert(count_bytes(n).skip(2) =~= be_bytes((n - 0xffff) as nat, 8));
        let marks = seq![0xffu8, 0xffu8];
        assert(marks.drop_last() =~= seq![0xffu8]);
        law_high_bytes_come_first(0xff, seq![0xffu8]);
        law_high_bytes_come_first(0xff, seq![]);
        assert(marks =~= seq![0xffu8] + seq![0xffu8]);
        assert(pow256(1) == 256);
        law_bytes_of_numbers_are_unique(marks);
    }
}

/// A long count is read as it was written, unless it is too large.
pub proof fn law_long_counts_have_limits(v: u64, tail: Seq<u8>)
    ensures
        spec_read_count(seq![0xffu8, 0xff] + be_bytes(v as nat, 8) + tail) == (if v + 0xffff
            <= u64::MAX {
            Ok::<(nat, nat), DecodeError>(((v + 0xffff) as nat, 10nat))
        } else {
            Err(DecodeError::InvalidValue)
        }),
{
    let marks = seq![0xffu8, 0xffu8];
    let long = be_bytes(v as nat, 8);
    let s = marks + long + tail;
    lemma_pow256_values();
    law_be_round_trip(v as nat, 8);
    law_high_bytes_come_first(0xff, seq![0xffu8]);
    law_high_bytes_come_first(0xff, seq![]);
    assert(marks =~= seq![0xffu8] + seq![0xffu8]);
    assert(s.take(2) =~= marks);
    assert(s.skip(2).take(8) =~= long);
}

/// A status that is cut short is refused.
pub proof fn law_cut_statuses_are_refused(status: HTLCStatus, body: Seq<u8>, k: int)
    requires
        body.len() <= u64::MAX,
        0 <= k < prefixed(body).len(),
    ensures
        HTLCStatus::spec_read(seq![status.number()] + prefixed(body).take(k)) is Err,
{
    let s = seq![status.number()] + prefixed(body).take(k);
    lemma_cut(body, k);
    assert(s.skip(1) =~= prefixed(body).take(k));
}

/// A status that is not known, and anything that is cut short, is refused.
pub proof fn law_damaged_values_are_refused(s: Seq<u8>)
    ensures
        s.len() > 0 && s[0] > 2 ==> HTLCStatus::spec_read(s) == Err::<(HTLCStatus, nat), _>(
            DecodeError::UnknownRequiredFeature,
        ),
        s.len() < 2 ==> HTLCStatus::spec_read(s) is Err,
        s.len() == 0 ==> MillisatAmount::spec_read(s) is Err && spec_read_optional(s) is Err
            && PaymentInfo::spec_read(s) is Err,
        0 < s.len() < 9 && 0 < s[0] < 0xfd ==> MillisatAmount::spec_read(s) == Err::<
            (MillisatAmount, nat),
            _,
        >(DecodeError::ShortRead),
        0 < s.len() < 33 && 0 < s[0] < 0xfd ==> spec_read_optional(s) == Err::<
            (Option<[u8; 32]>, nat),
            _,
        >(DecodeError::ShortRead),
{
    reveal(spec_read_size);
    if s.len() > 0 {
        assert(s.skip(1).len() == s.len() - 1);
    }
}

/// A store lists its payments in order, each under its identifier, behind their number; another
/// payment stands behind the others.
pub proof fn law_stores_list_their_payments(s: Seq<PaymentEntry>, e: PaymentEntry)
    ensures
        entries_bytes(seq![]) == Seq::<u8>::empty(),
        entries_bytes(s.push(e)) == entries_bytes(s) + e.id@ + e.info.bytes(),
        table_bytes(s) == count_bytes(s.len()) + entries_bytes(s),
        store_bytes(s).len() == size_bytes(1 + size_bytes(table_bytes(s).len()).len() + table_bytes(
            s,
        ).len()).len() + 1 + size_bytes(table_bytes(s).len()).len() + table_bytes(s).len(),
        store_bytes(s).skip(store_bytes(s).len() - table_bytes(s).len()) == table_bytes(s),
{
    lemma_entries_push(s, e);
    let table = table_bytes(s);
    let bytes = store_bytes(s);
    lemma_small_size(0);
    assert(bytes.skip(bytes.len() - table.len()) =~= table);
}

proof fn lemma_entries_push(s: Seq<PaymentEntry>, e: PaymentEntry)
    ensures
        entries_bytes(s.push(e)) == entries_bytes(s) + e.id@ + e.info.bytes(),
    decreases s.len(),
{
    let t = s.push(e);
    if s.len() == 0 {
        assert(t.drop_first() =~= s);
        assert(entries_bytes(t) =~= entries_bytes(s) + e.id@ + e.info.bytes());
    } else {
        assert(t.drop_first() =~= s.drop_first().push(e));
        lemma_entries_push(s.drop_first(), e);
        assert(t[0] == s[0]);
        assert(entries_bytes(t) =~= entries_bytes(s) + e.id@ + e.info.bytes());
    }
}

/// A list of payments is a table of them: another payment is added, under its identifier.
pub proof fn law_lists_are_tables(s: Seq<PaymentEntry>, e: PaymentEntry)
    ensures
        table_of(seq![]) == Map::<[u8; 32], PaymentInfo>::empty(),
        table_of(s.push(e)) == table_of(s).insert(e.id, e.info),
{
    assert(table_of(seq![]) =~= Map::<[u8; 32], PaymentInfo>::empty());
    lemma_table_push(s, e);
}

/// A store that cannot be read holds no payments.
pub proof fn law_damaged_stores_are_empty(bytes: Seq<u8>)
    requires
        spec_read_store(bytes) is Err,
    ensures
        stored_payments(bytes) == Map::<[u8; 32], PaymentInfo>::empty(),
{
    assert(stored_payments(bytes) =~= Map::<[u8; 32], PaymentInfo>::empty());
}

/// What becomes of a payment: it is pending without a preimage; it fails or arrives with the
/// amount and the secret that it was noted with; a claimed one has the secret that it was claimed
/// with, and the amount that it was noted with or else the one that came.
pub proof fn law_payments_run_their_course(
    secret: Option<[u8; 32]>,
    amt_msat: u64,
    preimage: [u8; 32],
    claimed_secret: Option<[u8; 32]>,
    amount_msat: u64,
    known: bool,
)
    ensures
        ({
            let pending = pending_payment(secret, amt_msat);
            let failed = failed_payment(pending);
            let sent = sent_payment(pending, preimage);
            let claimed = claimed_payment(
                Some(pending),
                Some(preimage),
                claimed_secret,
                amount_msat,
            );
            let unasked = claimed_payment(None, Some(preimage), claimed_secret, amount_msat);
            &&& pending.amt_msat.0 == Some(amt_msat) && failed.amt_msat.0 == Some(amt_msat)
                && sent.amt_msat.0 == Some(amt_msat) && claimed.amt_msat.0 == Some(amt_msat)
            &&& unasked.amt_msat.0 == Some(amount_msat)
            &&& pending.secret == secret && failed.secret == secret && sent.secret == secret
            &&& claimed.secret == claimed_secret && unasked.secret == claimed_secret
            &&& pending.preimage is None && failed.preimage is None
            &&& sent.preimage == Some(preimage) && claimed.preimage == Some(preimage)
                && unasked.preimage == Some(preimage)
            &&& pending.status == HTLCStatus::Pending && failed.status == HTLCStatus::Failed
            &&& sent.status == HTLCStatus::Succeeded && claimed.status == HTLCStatus::Succeeded
                && unasked.status == HTLCStatus::Succeeded
            &&& restarted_payment(sent, known) == sent && restarted_payment(failed, known)
                == failed
            &&& restarted_payment(pending, true) == pending && restarted_payment(pending, false)
                == failed
        }),
{
}

/// Fifty messages are held for a peer: the newest, in the order in which they came.
pub proof fn law_fifty_messages_are_held<M>(messages: Seq<M>)
    ensures
        ({
            let held = hold_messages(Seq::<M>::empty(), messages);
            let n = messages.len();
            &&& held.len() == (if n <= 50 {
                n as int
            } else {
                50
            })
            &&& forall|i: int|
                0 <= i < held.len() ==> #[trigger] held[i] == messages[n - held.len() + i]
        }),
{
    law_newest_messages_are_held(messages);
}

/// Another message stands behind those that are held; the oldest makes room for it where fifty are
/// held already.
pub proof fn law_messages_queue_up<M>(held: Seq<M>, message: M)
    requires
        held.len() <= 50,
    ensures
        hold_message(held, message).last() == message,
        held.len() < 50 ==> hold_message(held, message).drop_last() == held,
        held.len() == 50 ==> hold_message(held, message).drop_last() == held.skip(1),
{
    let after = hold_message(held, message);
    if held.len() < 50 {
        assert(after.drop_last() =~= held);
    } else {
        assert(after.drop_last() =~= held.skip(1));
    }
}

/// A length that is cut short is none.
proof fn lemma_size_cut(n: nat, k: int)
    requires
        n <= u64::MAX,
        0 <= k < size_bytes(n).len(),
    ensures
        spec_read_size(size_bytes(n).take(k)) is Err,
{
    reveal(size_bytes);
    reveal(spec_read_size);
    lemma_pow256_values();
    let len: nat = if n < 0xfd {
        0
    } else if n < 0x1_0000 {
        2
    } else if n < 0x1_0000_0000 {
        4
    } else {
        8
    };
    if len > 0 {
        law_be_round_trip(n, len);
    }
    let cut = size_bytes(n).take(k);
    if k > 0 {
        assert(cut[0] == size_bytes(n)[0]);
        assert(cut.skip(1).len() == k - 1);
    }
}

/// A payment that is cut short anywhere is refused.
pub proof fn law_cut_payments_are_refused(p: PaymentInfo, k: int)
    requires
        0 <= k < p.bytes().len(),
    ensures
        PaymentInfo::spec_read(p.bytes().take(k)) is Err,
{
    let body = p.body();
    lemma_body_read(p, Seq::empty());
    lemma_cut(body, k);
}

/// A store that is cut short anywhere is refused as a whole.
pub proof fn law_cut_stores_are_refused(s: Seq<PaymentEntry>, k: int)
    requires
        store_bytes(s).len() <= u64::MAX,
        0 <= k < store_bytes(s).len(),
    ensures
        spec_read_store(store_bytes(s).take(k)) is Err,
        stored_payments(store_bytes(s).take(k)) == Map::<[u8; 32], PaymentInfo>::empty(),
{
    lemma_cut(record_bytes(0, table_bytes(s)), k);
    law_damaged_stores_are_empty(store_bytes(s).take(k));
}

/// Where records behind their length are cut short, there is no length, or there are fewer bytes
/// than it says.
proof fn lemma_cut(body: Seq<u8>, k: int)
    requires
        body.len() <= u64::MAX,
        0 <= k < prefixed(body).len(),
    ensures
        match spec_read_size(prefixed(body).take(k)) {
            Err(_) => true,
            Ok(len) => len.0 > prefixed(body).take(k).skip(len.1 as int).len() && len.1 <= k,
        },
{
    let size = size_bytes(body.len());
    let n = size.len() as int;
    let cut = prefixed(body).take(k);
    if k < n {
        lemma_size_cut(body.len(), k);
        assert(cut =~= size.take(k));
    } else {
        law_size_round_trip(body.len(), body.take(k - n));
        assert(cut =~= size + body.take(k - n));
    }
}

/// A store without payments is refused, and so is one of no bytes at all.
pub proof fn law_stores_need_their_payments()
    ensures
        spec_read_store(prefixed(seq![])) == Err::<(Seq<PaymentEntry>, nat), _>(
            DecodeError::InvalidValue,
        ),
        spec_read_store(seq![]) == Err::<(Seq<PaymentEntry>, nat), _>(DecodeError::ShortRead),
{
    let none = Seq::<u8>::empty();
    lemma_small_size(0);
    law_size_round_trip(0, none);
    assert(prefixed(none) =~= seq![0u8]);
    assert(seq![0u8] + none =~= seq![0u8]);
    assert(prefixed(none).skip(1) =~= none);
    assert(none.take(0) =~= none);
    reveal(spec_read_size);
}

/// Payments are read one by one, each behind those that were read before; an identifier that was
/// read before is refused.
pub proof fn law_payments_are_read_one_by_one(
    e: PaymentEntry,
    tail: Seq<u8>,
    n: nat,
    seen: Seq<PaymentEntry>,
)
    ensures
        ({
            let bytes = e.id@ + e.info.bytes() + tail;
            let r = spec_read_entries(bytes, n + 1, seen);
            let rest = spec_read_entries(tail, n, seen.push(e));
            &&& table_of(seen).dom().contains(e.id) ==> r == Err::<(Seq<PaymentEntry>, nat), _>(
                DecodeError::InvalidValue,
            )
            &&& !table_of(seen).dom().contains(e.id) ==> match rest {
                Ok(v) => r == Ok::<_, DecodeError>((v.0, 32 + e.info.bytes().len() + v.1)),
                Err(f) => r == Err::<(Seq<PaymentEntry>, nat), _>(f),
            }
        }),
        n > 0 && tail.len() < 32 ==> spec_read_entries(tail, n, seen) == Err::<
            (Seq<PaymentEntry>, nat),
            _,
        >(DecodeError::ShortRead),
        spec_read_entries(tail, 0, seen) == Ok::<_, DecodeError>((seen, 0nat)),
{
    let a = e.id@;
    let b = e.info.bytes();
    let all = a + b + tail;
    assert(all =~= a + (b + tail));
    assert(all.take(32) =~= a);
    lemma_array32(e.id);
    assert(all.skip(32) =~= b + tail);
    e.info.law_round_trip(tail);
    assert(all.skip((32 + b.len()) as int) =~= tail);
    assert(PaymentEntry { id: e.id, info: e.info } == e);
    assert((n + 1 - 1) as nat == n);
}

} // verus!
