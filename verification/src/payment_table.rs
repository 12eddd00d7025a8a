//! The node's record of its payments, as a whole: what each event makes of it, and how it is
//! written to disk and read back.

use crate::payments::{
    array32, same_id, to_array32, HTLCStatus, MillisatAmount, PaymentEntry, PaymentInfo,
};
use crate::wire::{
    check_value, count_bytes, law_count_round_trip, law_size_round_trip, lemma_head_round_trip,
    lemma_small_size, prefixed, read_count, read_head, read_size, record_bytes, size_bytes,
    spec_read_count, spec_read_head, spec_read_size, take_window, value_fault, window, write_bytes,
    write_count, write_prefixed, write_record, DecodeError, Head,
};
use vstd::prelude::*;
use vstd::slice::slice_subrange;

verus! {

/// What is remembered under an identifier: the entry nearest the end decides.
pub open spec fn lookup(s: Seq<PaymentEntry>, id: [u8; 32]) -> Option<PaymentInfo>
    decreases s.len(),
{
    if s.len() == 0 {
        None
    } else if s.last().id == id {
        Some(s.last().info)
    } else {
        lookup(s.drop_last(), id)
    }
}

/// Whether no identifier stands twice.
pub open spec fn distinct_ids(s: Seq<PaymentEntry>) -> bool {
    forall|i: int, j: int| 0 <= i < j < s.len() ==> (#[trigger] s[i]).id != (#[trigger] s[j]).id
}

/// The payments of a list of entries, by their identifiers.
pub open spec fn table_of(s: Seq<PaymentEntry>) -> Map<[u8; 32], PaymentInfo> {
    Map::new(|id: [u8; 32]| lookup(s, id) is Some, |id: [u8; 32]| lookup(s, id)->0)
}

/// An entry of a list without repeated identifiers is what is looked up, and only entries are.
proof fn lemma_lookup(s: Seq<PaymentEntry>, id: [u8; 32])
    ensures
        lookup(s, id) is Some ==> exists|i: int|
            0 <= i < s.len() && (#[trigger] s[i]).id == id && s[i].info == lookup(s, id)->0,
        lookup(s, id) is None ==> forall|i: int| 0 <= i < s.len() ==> (#[trigger] s[i]).id != id,
        distinct_ids(s) ==> forall|i: int|
            0 <= i < s.len() && (#[trigger] s[i]).id == id ==> lookup(s, id) == Some(s[i].info),
    decreases s.len(),
{
    if s.len() > 0 {
        let t = s.drop_last();
        lemma_lookup(t, id);
        assert(forall|i: int| 0 <= i < t.len() ==> t[i] == s[i]);
        if s.last().id == id {
            assert(s[s.len() - 1].id == id);
        } else if lookup(t, id) is Some {
            let i = choose|i: int|
                0 <= i < t.len() && (#[trigger] t[i]).id == id && t[i].info == lookup(t, id)->0;
            assert(s[i].id == id);
        }
    }
}

/// The payments that the node remembers, by their hashes or identifiers: a hash map of the
/// Lightning library.
#[verifier::external_body]
pub struct PaymentTable {
    map: lightning::util::hash_tables::HashMap<[u8; 32], PaymentInfo>,
}

/// The payments that a table holds.
pub uninterp spec fn table_contents(table: PaymentTable) -> Map<[u8; 32], PaymentInfo>;

impl View for PaymentTable {
    type V = Map<[u8; 32], PaymentInfo>;

    open spec fn view(&self) -> Map<[u8; 32], PaymentInfo> {
        table_contents(*self)
    }
}

/// `lightning::util::hash_tables::new_hash_map`: a map that holds nothing.
#[verifier::external_body]
fn new_hash_map() -> (r: PaymentTable)
    ensures
        table_contents(r).dom() == Set::<[u8; 32]>::empty(),
{
    PaymentTable { map: lightning::util::hash_tables::new_hash_map() }
}

/// `HashMap::get`: what the map holds under the key, if anything.
#[verifier::external_body]
fn hash_map_get(table: &PaymentTable, id: &[u8; 32]) -> (r: Option<PaymentInfo>)
    ensures
        r == (if table_contents(*table).dom().contains(*id) {
            Some(table_contents(*table)[*id])
        } else {
            None
        }),
{
    table.map.get(id).copied()
}

/// `HashMap::insert`: the map holds the value under the key, and under every other key what it
/// held.
#[verifier::external_body]
fn hash_map_insert(table: &mut PaymentTable, id: [u8; 32], info: PaymentInfo)
    ensures
        table_contents(*final(table)) == table_contents(*old(table)).insert(id, info),
{
    table.map.insert(id, info);
}

/// `HashMap::iter`: everything that the map holds, each key once, in an order that is left open.
#[verifier::external_body]
fn hash_map_iter(table: &PaymentTable) -> (r: Vec<PaymentEntry>)
    ensures
        distinct_ids(r@),
        table_of(r@) == table_contents(*table),
{
    table.map.iter().map(|(id, info)| PaymentEntry { id: *id, info: *info }).collect()
}

impl PaymentTable {
    /// Remembers nothing yet.
    pub fn new() -> (r: PaymentTable)
        ensures
            r@ == Map::<[u8; 32], PaymentInfo>::empty(),
    {
        let r: PaymentTable = new_hash_map();
        assert(r@ =~= Map::<[u8; 32], PaymentInfo>::empty());
        r
    }

    /// What is remembered under an identifier.
    pub fn get(&self, id: &[u8; 32]) -> (r: Option<PaymentInfo>)
        ensures
            r == (if self@.dom().contains(*id) {
                Some(self@[*id])
            } else {
                None
            }),
    {
        hash_map_get(self, id)
    }

    /// Remembers a payment; one that was remembered under the same identifier is forgotten.
    pub fn insert(&mut self, id: [u8; 32], info: PaymentInfo)
        ensures
            final(self)@ == old(self)@.insert(id, info),
    {
        hash_map_insert(self, id, info);
    }

    /// The payments with their identifiers, each of them once.
    pub fn entries(&self) -> (r: Vec<PaymentEntry>)
        ensures
            distinct_ids(r@),
            table_of(r@) == self@,
    {
        hash_map_iter(self)
    }

    /// Whether no payment is remembered.
    pub fn is_empty(&self) -> (r: bool)
        ensures
            r == (self@ == Map::<[u8; 32], PaymentInfo>::empty()),
    {
        let entries: Vec<PaymentEntry> = self.entries();
        if entries.len() == 0 {
            assert(self@ =~= Map::<[u8; 32], PaymentInfo>::empty());
            true
        } else {
            proof {
                lemma_lookup(entries@, entries@[0].id);
                assert(self@.dom().contains(entries@[0].id));
            }
            false
        }
    }
}

/// The bytes of a list of entries, one after the other.
pub open spec fn entries_bytes(s: Seq<PaymentEntry>) -> Seq<u8>
    decreases s.len(),
{
    if s.len() == 0 {
        seq![]
    } else {
        s[0].id@ + s[0].info.bytes() + entries_bytes(s.drop_first())
    }
}

/// The bytes of a table: how many entries it has, and the entries.
pub open spec fn table_bytes(s: Seq<PaymentEntry>) -> Seq<u8> {
    count_bytes(s.len()) + entries_bytes(s)
}

/// The bytes of a whole store: one record that holds the table, behind its length.
pub open spec fn store_bytes(s: Seq<PaymentEntry>) -> Seq<u8> {
    prefixed(record_bytes(0, table_bytes(s)))
}

/// Reading `n` entries behind those that have been read, none of them under an identifier that
/// has been seen.
pub open spec fn spec_read_entries(s: Seq<u8>, n: nat, seen: Seq<PaymentEntry>) -> Result<
    (Seq<PaymentEntry>, nat),
    DecodeError,
>
    decreases n,
{
    if n == 0 {
        Ok((seen, 0))
    } else if s.len() < 32 {
        Err(DecodeError::ShortRead)
    } else {
        let id = array32(s.take(32));
        match PaymentInfo::spec_read(s.skip(32)) {
            Err(e) => Err(e),
            Ok(v) => if lookup(seen, id) is Some {
                Err(DecodeError::InvalidValue)
            } else {
                match spec_read_entries(
                    s.skip((32 + v.1) as int),
                    (n - 1) as nat,
                    seen.push(PaymentEntry { id, info: v.0 }),
                ) {
                    Err(e) => Err(e),
                    Ok(r) => Ok((r.0, 32 + v.1 + r.1)),
                }
            },
        }
    }
}

/// Reading a table: its entries and how many bytes they took.
pub open spec fn spec_read_table(s: Seq<u8>) -> Result<(Seq<PaymentEntry>, nat), DecodeError> {
    match spec_read_count(s) {
        Err(e) => Err(e),
        Ok(n) => match spec_read_entries(s.skip(n.1 as int), n.0, seq![]) {
            Err(e) => Err(e),
            Ok(r) => Ok((r.0, n.1 + r.1)),
        },
    }
}

/// Reading the value of a record of a store.
#[verifier::opaque]
pub open spec fn store_field(
    f: Option<Seq<PaymentEntry>>,
    kind: nat,
    len: nat,
    rest: Seq<u8>,
) -> Result<Option<Seq<PaymentEntry>>, DecodeError> {
    if kind == 0 {
        match spec_read_table(window(rest, len)) {
            Err(e) => Err(e),
            Ok(v) => match value_fault(v.1, len, rest.len()) {
                Some(e) => Err(e),
                None => Ok(Some(v.0)),
            },
        }
    } else if kind % 2 == 0 {
        Err(DecodeError::UnknownRequiredFeature)
    } else if len > rest.len() {
        Err(DecodeError::ShortRead)
    } else {
        Ok(f)
    }
}

/// Reading the records of a store to the end of their stream.
pub open spec fn store_stream(
    s: Seq<u8>,
    last: Option<u64>,
    f: Option<Seq<PaymentEntry>>,
) -> Result<Option<Seq<PaymentEntry>>, DecodeError>
    decreases s.len(),
{
    match spec_read_head(s, last, seq![0u64]) {
        Err(e) => Err(e),
        Ok(None) => if last is None {
            Err(DecodeError::InvalidValue)
        } else {
            Ok(f)
        },
        Ok(Some(h)) => {
            let rest = s.skip(h.2 as int);
            match store_field(f, h.0, h.1, rest) {
                Err(e) => Err(e),
                Ok(g) => if 0 < h.2 <= s.len() && h.1 <= rest.len() {
                    store_stream(rest.skip(h.1 as int), Some(h.0 as u64), g)
                } else {
                    Ok(g)
                },
            }
        },
    }
}

/// Reading a whole store: its entries and how many bytes they took.
pub open spec fn spec_read_store(s: Seq<u8>) -> Result<(Seq<PaymentEntry>, nat), DecodeError> {
    match spec_read_size(s) {
        Err(e) => Err(e),
        Ok(len) => {
            let rest = s.skip(len.1 as int);
            match store_stream(window(rest, len.0), None, None) {
                Err(e) => Err(e),
                Ok(f) => if rest.len() < len.0 {
                    Err(DecodeError::ShortRead)
                } else {
                    Ok((f->0, len.1 + len.0))
                },
            }
        },
    }
}

/// An entry behind a list adds its payment to those of the list.
pub proof fn lemma_table_push(s: Seq<PaymentEntry>, e: PaymentEntry)
    ensures
        table_of(s.push(e)) == table_of(s).insert(e.id, e.info),
{
    assert(s.push(e).drop_last() =~= s);
    assert(table_of(s.push(e)) =~= table_of(s).insert(e.id, e.info));
}

/// Appends entries.
fn write_entries(out: &mut Vec<u8>, entries: &Vec<PaymentEntry>)
    ensures
        final(out)@ == old(out)@ + entries_bytes(entries@),
{
    let mut i: usize = 0;
    assert(entries@.skip(0) =~= entries@);
    while i < entries.len()
        invariant
            i <= entries@.len(),
            out@ + entries_bytes(entries@.skip(i as int)) == old(out)@ + entries_bytes(entries@),
        decreases entries.len() - i,
    {
        let e: PaymentEntry = entries[i];
        let ghost before = out@;
        let ghost rest = entries@.skip(i as int);
        write_bytes(out, e.id.as_slice());
        e.info.write(out);
        i = i + 1;
        proof {
            assert(rest[0] == e);
            assert(rest.drop_first() =~= entries@.skip(i as int));
            assert(out@ + entries_bytes(entries@.skip(i as int)) =~= before + entries_bytes(rest));
        }
    }
    assert(entries@.skip(i as int) =~= Seq::<PaymentEntry>::empty());
    assert(out@ + Seq::<u8>::empty() =~= out@);
}

/// Whether some bytes are a store of the payments: they list each of them once, in any order.
pub open spec fn is_store_of(bytes: Seq<u8>, payments: Map<[u8; 32], PaymentInfo>) -> bool {
    exists|s: Seq<PaymentEntry>|
        distinct_ids(s) && table_of(s) == payments && bytes == #[trigger] store_bytes(s)
}

impl PaymentTable {
    /// The bytes of a store that holds the table.
    pub fn encode(&self) -> (r: Vec<u8>)
        ensures
            is_store_of(r@, self@),
    {
        let entries: Vec<PaymentEntry> = self.entries();
        let mut table: Vec<u8> = Vec::new();
        write_count(&mut table, entries.len() as u64);
        write_entries(&mut table, &entries);
        assert(table@ =~= table_bytes(entries@));
        let mut body: Vec<u8> = Vec::new();
        write_record(&mut body, 0, &table);
        assert(body@ =~= record_bytes(0, table_bytes(entries@)));
        let mut out: Vec<u8> = Vec::new();
        write_prefixed(&mut out, &body);
        assert(out@ =~= store_bytes(entries@));
        out
    }

    /// Reads entries behind a count.
    fn read_entries(s: &[u8], n: u64) -> (r: Result<(PaymentTable, usize), DecodeError>)
        ensures
            match (r, spec_read_entries(s@, n as nat, seq![])) {
                (Ok(v), Ok(w)) => v.0@ == table_of(w.0) && v.1 == w.1 && v.1 <= s@.len(),
                (Err(e), Err(f)) => e == f,
                _ => false,
            },
    {
        let mut table: PaymentTable = PaymentTable::new();
        let mut left: u64 = n;
        let mut used: usize = 0;
        let ghost mut seen: Seq<PaymentEntry> = seq![];
        assert(s@.skip(0) =~= s@);
        assert(table_of(seen) =~= table@);
        while left > 0
            invariant
                used <= s@.len(),
                table@ == table_of(seen),
                spec_read_entries(s@, n as nat, seq![]) == (match spec_read_entries(
                    s@.skip(used as int),
                    left as nat,
                    seen,
                ) {
                    Err(e) => Err(e),
                    Ok(r) => Ok((r.0, (used + r.1) as nat)),
                }),
            decreases left,
        {
            let rest: &[u8] = slice_subrange(s, used, s.len());
            assert(rest@ =~= s@.skip(used as int));
            if rest.len() < 32 {
                return Err(DecodeError::ShortRead);
            }
            let id: [u8; 32] = to_array32(rest);
            let body: &[u8] = slice_subrange(rest, 32, rest.len());
            assert(body@ =~= rest@.skip(32));
            let v: (PaymentInfo, usize) = match PaymentInfo::read(body) {
                Err(e) => return Err(e),
                Ok(v) => v,
            };
            if table.get(&id).is_some() {
                return Err(DecodeError::InvalidValue);
            }
            proof {
                let e = PaymentEntry { id, info: v.0 };
                lemma_table_push(seen, e);
                assert(rest@.skip(32 + v.1) =~= s@.skip(used + 32 + v.1));
                seen = seen.push(e);
            }
            table.insert(id, v.0);
            used = used + 32 + v.1;
            left = left - 1;
        }
        Ok((table, used))
    }

    /// Reads a table.
    fn read_table(s: &[u8]) -> (r: Result<(PaymentTable, usize), DecodeError>)
        ensures
            match (r, spec_read_table(s@)) {
                (Ok(v), Ok(w)) => v.0@ == table_of(w.0) && v.1 == w.1 && v.1 <= s@.len(),
                (Err(e), Err(f)) => e == f,
                _ => false,
            },
    {
        let n: (u64, usize) = match read_count(s) {
            Err(e) => return Err(e),
            Ok(v) => v,
        };
        let rest: &[u8] = slice_subrange(s, n.1, s.len());
        assert(rest@ =~= s@.skip(n.1 as int));
        match PaymentTable::read_entries(rest, n.0) {
            Err(e) => Err(e),
            Ok(v) => Ok((v.0, n.1 + v.1)),
        }
    }

    /// Reads the records of a store to the end of their stream.
    fn read_stream(s: &[u8]) -> (r: Result<PaymentTable, DecodeError>)
        ensures
            match (r, store_stream(s@, None, None)) {
                (Ok(t), Ok(f)) => f is Some && t@ == table_of(f->0),
                (Err(e), Err(f)) => e == f,
                _ => false,
            },
    {
        let mut required: Vec<u64> = Vec::new();
        required.push(0);
        assert(required@ =~= seq![0u64]);
        let mut rest: &[u8] = s;
        let mut last: Option<u64> = None;
        let mut table: PaymentTable = PaymentTable::new();
        let ghost mut found: Option<Seq<PaymentEntry>> = None;
        loop
            invariant
                required@ == seq![0u64],
                found is Some == last is Some,
                found is Some ==> table@ == table_of(found->0),
                store_stream(s@, None, None) == store_stream(rest@, last, found),
            decreases rest@.len(),
        {
            let h: Head = match read_head(rest, last, &required) {
                Err(e) => return Err(e),
                Ok(None) => {
                    if last.is_none() {
                        return Err(DecodeError::InvalidValue);
                    }
                    return Ok(table);
                },
                Ok(Some(h)) => h,
            };
            let value: &[u8] = slice_subrange(rest, h.size, rest.len());
            assert(value@ =~= rest@.skip(h.size as int));
            proof {
                reveal(store_field);
            }
            if h.kind == 0 {
                let v: (PaymentTable, usize) = match PaymentTable::read_table(
                    take_window(value, h.len),
                ) {
                    Err(e) => return Err(e),
                    Ok(v) => v,
                };
                match check_value(v.1, h.len, value.len()) {
                    Some(e) => return Err(e),
                    None => {},
                }
                table = v.0;
                proof {
                    found = Some(spec_read_table(window(value@, h.len as nat))->Ok_0.0);
                }
            } else {
                if h.kind % 2 == 0 {
                    return Err(DecodeError::UnknownRequiredFeature);
                }
                if h.len > value.len() as u64 {
                    return Err(DecodeError::ShortRead);
                }
                assert(last is Some) by {
                    assert(seq![0u64][0] == 0);
                }
            }
            let next: &[u8] = slice_subrange(value, h.len as usize, value.len());
            assert(next@ =~= value@.skip(h.len as int));
            rest = next;
            last = Some(h.kind);
        }
    }

    /// Reads a store: the table in it and how many bytes it took.
    pub fn read(s: &[u8]) -> (r: Result<(PaymentTable, usize), DecodeError>)
        ensures
            match (r, spec_read_store(s@)) {
                (Ok(v), Ok(w)) => v.0@ == table_of(w.0) && v.1 == w.1 && v.1 <= s@.len(),
                (Err(e), Err(f)) => e == f,
                _ => false,
            },
    {
        let len: (u64, usize) = match read_size(s) {
            Err(e) => return Err(e),
            Ok(v) => v,
        };
        let rest: &[u8] = slice_subrange(s, len.1, s.len());
        assert(rest@ =~= s@.skip(len.1 as int));
        let all: &[u8] = take_window(rest, len.0);
        let table: PaymentTable = match PaymentTable::read_stream(all) {
            Err(e) => return Err(e),
            Ok(t) => t,
        };
        if (rest.len() as u64) < len.0 {
            return Err(DecodeError::ShortRead);
        }
        Ok((table, len.1 + len.0 as usize))
    }
}

/// Entries that were written are read back behind those that have been read.
proof fn lemma_entries_round_trip(s: Seq<PaymentEntry>, seen: Seq<PaymentEntry>, tail: Seq<u8>)
    requires
        distinct_ids(seen + s),
    ensures
        spec_read_entries(entries_bytes(s) + tail, s.len(), seen) == Ok::<_, DecodeError>(
            (seen + s, entries_bytes(s).len()),
        ),
    decreases s.len(),
{
    if s.len() == 0 {
        assert(seen + s =~= seen);
    } else {
        let e = s[0];
        let later = s.drop_first();
        let a = e.id@;
        let b = e.info.bytes();
        let c = entries_bytes(later) + tail;
        let all = entries_bytes(s) + tail;
        assert(all =~= a + (b + c));
        assert(all.take(32) =~= a);
        crate::payments::lemma_array32(e.id);
        assert(all.skip(32) =~= b + c);
        e.info.law_round_trip(c);
        assert(all.skip((32 + b.len()) as int) =~= c);
        lemma_lookup(seen, e.id);
        if lookup(seen, e.id) is Some {
            let i = choose|i: int| 0 <= i < seen.len() && (#[trigger] seen[i]).id == e.id;
            assert((seen + s)[i].id == e.id);
            assert((seen + s)[seen.len() as int].id == e.id);
        }
        assert(seen.push(e) + later =~= seen + s);
        lemma_entries_round_trip(later, seen.push(e), tail);
        assert(PaymentEntry { id: e.id, info: e.info } == e);
    }
}

/// A table that was written is read back as it was.
proof fn lemma_table_round_trip(s: Seq<PaymentEntry>)
    requires
        distinct_ids(s),
        table_bytes(s).len() <= u64::MAX,
    ensures
        spec_read_table(table_bytes(s)) == Ok::<_, DecodeError>((s, table_bytes(s).len())),
{
    let none = Seq::<u8>::empty();
    let t = table_bytes(s);
    lemma_entries_at_least(s);
    law_count_round_trip(s.len(), entries_bytes(s));
    lemma_entries_round_trip(s, seq![], none);
    assert(seq![] + s =~= s);
    assert(entries_bytes(s) + none =~= entries_bytes(s));
    assert(t.skip(count_bytes(s.len()).len() as int) =~= entries_bytes(s));
}

/// The one record of a store that was written is read back as it was.
proof fn lemma_stream_round_trip(s: Seq<PaymentEntry>)
    requires
        distinct_ids(s),
        table_bytes(s).len() <= u64::MAX,
    ensures
        store_stream(record_bytes(0, table_bytes(s)), None, None) == Ok::<_, DecodeError>(Some(s)),
{
    let none = Seq::<u8>::empty();
    let t = table_bytes(s);
    let body = record_bytes(0, t);
    lemma_table_round_trip(s);
    assert(window(t + none, t.len()) =~= t);
    assert(store_field(None, 0, t.len(), t + none) == Ok::<_, DecodeError>(Some(s))) by {
        reveal(store_field);
    }
    lemma_head_round_trip(0, t, none, None, seq![0u64]);
    law_size_round_trip(0, none);
    law_size_round_trip(t.len(), none);
    assert(body + none =~= body);
    assert((t + none).skip(t.len() as int) =~= none);
    assert(store_stream(none, Some(0u64), Some(s)) == Ok::<_, DecodeError>(Some(s)));
}

/// A store that was written is read back as it was, whatever follows it in the file.
pub proof fn law_store_round_trip(s: Seq<PaymentEntry>, tail: Seq<u8>)
    requires
        distinct_ids(s),
        store_bytes(s).len() <= u64::MAX,
    ensures
        spec_read_store(store_bytes(s) + tail) == Ok::<_, DecodeError>((s, store_bytes(s).len())),
{
    let body = record_bytes(0, table_bytes(s));
    lemma_stream_round_trip(s);
    law_size_round_trip(body.len(), body + tail);
    let all = store_bytes(s) + tail;
    assert(all =~= size_bytes(body.len()) + (body + tail));
    assert(all.skip(size_bytes(body.len()).len() as int) =~= body + tail);
    assert(window(body + tail, body.len()) =~= body);
}

/// A store that a later version has written, with a record behind the payments, is read as far as
/// it is known if that record may be passed over, and refused if it may not.
pub proof fn law_later_stores(s: Seq<PaymentEntry>, kind: u64, value: Seq<u8>)
    requires
        distinct_ids(s),
        store_bytes(s).len() + 100 <= u64::MAX,
        0 < kind < 0xfd,
        value.len() <= 40,
    ensures
        ({
            let bytes = prefixed(
                record_bytes(0, table_bytes(s)) + record_bytes(kind as nat, value),
            );
            &&& kind % 2 == 1 ==> spec_read_store(bytes) == Ok::<_, DecodeError>((s, bytes.len()))
            &&& kind % 2 == 0 ==> spec_read_store(bytes) == Err::<(Seq<PaymentEntry>, nat), _>(
                DecodeError::UnknownRequiredFeature,
            )
        }),
{
    let none = Seq::<u8>::empty();
    let t = table_bytes(s);
    let more = record_bytes(kind as nat, value);
    let body = record_bytes(0, t) + more;
    let bytes = prefixed(body);
    lemma_table_round_trip(s);
    assert(window(t + more, t.len()) =~= t);
    assert(store_field(None, 0, t.len(), t + more) == Ok::<_, DecodeError>(Some(s))) by {
        reveal(store_field);
    }
    lemma_head_round_trip(0, t, more, None, seq![0u64]);
    law_size_round_trip(0, none);
    law_size_round_trip(t.len(), none);
    assert((t + more).skip(t.len() as int) =~= more);
    assert(store_stream(body, None, None) == store_stream(more, Some(0u64), Some(s)));
    lemma_head_round_trip(kind as nat, value, none, Some(0u64), seq![0u64]);
    law_size_round_trip(kind as nat, none);
    law_size_round_trip(value.len(), none);
    assert(more + none =~= more);
    assert(value + none =~= value);
    assert(value.skip(value.len() as int) =~= none);
    assert(store_field(Some(s), kind as nat, value.len(), value) == (if kind % 2 == 1 {
        Ok::<_, DecodeError>(Some(s))
    } else {
        Err(DecodeError::UnknownRequiredFeature)
    })) by {
        reveal(store_field);
    }
    if kind % 2 == 1 {
        assert(store_stream(none, Some(kind), Some(s)) == Ok::<_, DecodeError>(Some(s)));
    }
    lemma_small_size(kind as nat);
    lemma_small_size(value.len());
    law_size_round_trip(body.len(), body);
    assert(bytes.skip(size_bytes(body.len()).len() as int) =~= body);
    assert(window(body, body.len()) =~= body);
}

/// Every entry takes up bytes.
proof fn lemma_entries_at_least(s: Seq<PaymentEntry>)
    ensures
        entries_bytes(s).len() >= s.len(),
    decreases s.len(),
{
    if s.len() > 0 {
        lemma_entries_at_least(s.drop_first());
    }
}

/// What the node remembers of a payment that it has just sent off or asked for.
pub open spec fn pending_payment(secret: Option<[u8; 32]>, amt_msat: u64) -> PaymentInfo {
    PaymentInfo {
        preimage: None,
        secret,
        status: HTLCStatus::Pending,
        amt_msat: MillisatAmount(Some(amt_msat)),
    }
}

/// What a payment becomes once it has been claimed; its amount stays as it was remembered.
pub open spec fn claimed_payment(
    before: Option<PaymentInfo>,
    preimage: Option<[u8; 32]>,
    secret: Option<[u8; 32]>,
    amount_msat: u64,
) -> PaymentInfo {
    PaymentInfo {
        preimage,
        secret,
        status: HTLCStatus::Succeeded,
        amt_msat: match before {
            Some(info) => info.amt_msat,
            None => MillisatAmount(Some(amount_msat)),
        },
    }
}

/// What a payment becomes once it has arrived.
pub open spec fn sent_payment(before: PaymentInfo, preimage: [u8; 32]) -> PaymentInfo {
    PaymentInfo { preimage: Some(preimage), status: HTLCStatus::Succeeded, ..before }
}

/// What a payment becomes once it has failed.
pub open spec fn failed_payment(before: PaymentInfo) -> PaymentInfo {
    PaymentInfo { status: HTLCStatus::Failed, ..before }
}

/// What a payment is after a restart: one that was pending and of which the channels know
/// nothing any more has failed.
pub open spec fn restarted_payment(before: PaymentInfo, known: bool) -> PaymentInfo {
    if before.status == HTLCStatus::Pending && !known {
        failed_payment(before)
    } else {
        before
    }
}

/// Whether an identifier is in a list.
fn contains_id(ids: &Vec<[u8; 32]>, id: &[u8; 32]) -> (r: bool)
    ensures
        r == ids@.contains(*id),
{
    let mut i: usize = 0;
    while i < ids.len()
        invariant
            i <= ids@.len(),
            forall|k: int| 0 <= k < i ==> #[trigger] ids@[k] != *id,
        decreases ids.len() - i,
    {
        if same_id(&ids[i], id) {
            assert(ids@[i as int] == *id);
            return true;
        }
        i = i + 1;
    }
    false
}

/// The payments that others make to the node, by their hashes.
pub struct InboundPaymentInfoStorage {
    /// The payments.
    pub payments: PaymentTable,
}

/// The payments that the node makes, by their identifiers.
pub struct OutboundPaymentInfoStorage {
    /// The payments.
    pub payments: PaymentTable,
}

impl InboundPaymentInfoStorage {
    /// Remembers nothing yet.
    pub fn new() -> (r: InboundPaymentInfoStorage)
        ensures
            r.payments@ == Map::<[u8; 32], PaymentInfo>::empty(),
    {
        InboundPaymentInfoStorage { payments: PaymentTable::new() }
    }

    /// The bytes of the store.
    pub fn encode(&self) -> (r: Vec<u8>)
        ensures
            is_store_of(r@, self.payments@),
    {
        self.payments.encode()
    }

    /// The store that some bytes hold; one that cannot be read holds nothing.
    pub fn from_bytes(bytes: &[u8]) -> (r: InboundPaymentInfoStorage)
        ensures
            r.payments@ == stored_payments(bytes@),
    {
        InboundPaymentInfoStorage { payments: table_from_bytes(bytes) }
    }

    /// Remembers a payment that the node waits for.
    pub fn record_pending(&mut self, hash: [u8; 32], secret: Option<[u8; 32]>, amt_msat: u64)
        ensures
            final(self).payments@ == old(self).payments@.insert(
                hash,
                pending_payment(secret, amt_msat),
            ),
    {
        let info: PaymentInfo = PaymentInfo {
            preimage: None,
            secret,
            status: HTLCStatus::Pending,
            amt_msat: MillisatAmount(Some(amt_msat)),
        };
        self.payments.insert(hash, info);
    }

    /// Remembers that a payment has been claimed.
    pub fn mark_claimed(
        &mut self,
        hash: [u8; 32],
        preimage: Option<[u8; 32]>,
        secret: Option<[u8; 32]>,
        amount_msat: u64,
    )
        ensures
            final(self).payments@ == old(self).payments@.insert(
                hash,
                claimed_payment(
                    (if old(self).payments@.dom().contains(hash) {
                        Some(old(self).payments@[hash])
                    } else {
                        None
                    }),
                    preimage,
                    secret,
                    amount_msat,
                ),
            ),
    {
        let amt_msat: MillisatAmount = match self.payments.get(&hash) {
            Some(info) => info.amt_msat,
            None => MillisatAmount(Some(amount_msat)),
        };
        let info: PaymentInfo = PaymentInfo {
            preimage,
            secret,
            status: HTLCStatus::Succeeded,
            amt_msat,
        };
        self.payments.insert(hash, info);
    }
}

impl OutboundPaymentInfoStorage {
    /// Remembers nothing yet.
    pub fn new() -> (r: OutboundPaymentInfoStorage)
        ensures
            r.payments@ == Map::<[u8; 32], PaymentInfo>::empty(),
    {
        OutboundPaymentInfoStorage { payments: PaymentTable::new() }
    }

    /// The bytes of the store.
    pub fn encode(&self) -> (r: Vec<u8>)
        ensures
            is_store_of(r@, self.payments@),
    {
        self.payments.encode()
    }

    /// The store that some bytes hold; one that cannot be read holds nothing.
    pub fn from_bytes(bytes: &[u8]) -> (r: OutboundPaymentInfoStorage)
        ensures
            r.payments@ == stored_payments(bytes@),
    {
        OutboundPaymentInfoStorage { payments: table_from_bytes(bytes) }
    }

    /// Remembers a payment that the node is about to make.
    pub fn record_pending(&mut self, id: [u8; 32], secret: Option<[u8; 32]>, amt_msat: u64)
        ensures
            final(self).payments@ == old(self).payments@.insert(
                id,
                pending_payment(secret, amt_msat),
            ),
    {
        let info: PaymentInfo = PaymentInfo {
            preimage: None,
            secret,
            status: HTLCStatus::Pending,
            amt_msat: MillisatAmount(Some(amt_msat)),
        };
        self.payments.insert(id, info);
    }

    /// Remembers that a payment has arrived, where it is one of the node's own, and returns its
    /// amount.
    pub fn mark_sent(&mut self, id: [u8; 32], preimage: [u8; 32]) -> (r: Option<MillisatAmount>)
        ensures
            match r {
                Some(amt) => old(self).payments@.dom().contains(id) && amt
                    == old(self).payments@[id].amt_msat && final(self).payments@
                    == old(self).payments@.insert(
                    id,
                    sent_payment(old(self).payments@[id], preimage),
                ),
                None => !old(self).payments@.dom().contains(id) && *final(self) == *old(self),
            },
    {
        match self.payments.get(&id) {
            Some(info) => {
                let sent: PaymentInfo = PaymentInfo {
                    preimage: Some(preimage),
                    status: HTLCStatus::Succeeded,
                    ..info
                };
                self.payments.insert(id, sent);
                Some(info.amt_msat)
            },
            None => None,
        }
    }

    /// Remembers that a payment has failed, where it is one of the node's own.
    pub fn mark_failed(&mut self, id: [u8; 32])
        ensures
            old(self).payments@.dom().contains(id) ==> final(self).payments@
                == old(self).payments@.insert(id, failed_payment(old(self).payments@[id])),
            !old(self).payments@.dom().contains(id) ==> *final(self) == *old(self),
    {
        match self.payments.get(&id) {
            Some(info) => {
                let failed: PaymentInfo = PaymentInfo { status: HTLCStatus::Failed, ..info };
                self.payments.insert(id, failed);
            },
            None => {},
        }
    }

    /// Gives up, after a restart, the pending payments that the channels no longer know.
    pub fn fail_forgotten(&mut self, recent: &Vec<[u8; 32]>)
        ensures
            final(self).payments@ == restarted_payments(old(self).payments@, recent@),
    {
        self.payments.fail_forgotten(recent);
    }
}

/// What the payments are after a restart, given those that the channels still know.
pub open spec fn restarted_payments(
    payments: Map<[u8; 32], PaymentInfo>,
    recent: Seq<[u8; 32]>,
) -> Map<[u8; 32], PaymentInfo> {
    payments.map_entries(
        |id: [u8; 32], info: PaymentInfo| restarted_payment(info, recent.contains(id)),
    )
}

impl PaymentTable {
    /// Gives up the pending payments that are not in the list.
    pub fn fail_forgotten(&mut self, recent: &Vec<[u8; 32]>)
        ensures
            final(self)@ == restarted_payments(old(self)@, recent@),
    {
        let entries: Vec<PaymentEntry> = self.entries();
        let ghost before = self@;
        let mut i: usize = 0;
        assert forall|k: int| 0 <= k < entries@.len() implies self@[(#[trigger] entries@[k]).id]
            == entries@[k].info by {
            lemma_lookup(entries@, entries@[k].id);
        }
        while i < entries.len()
            invariant
                i <= entries@.len(),
                distinct_ids(entries@),
                table_of(entries@) == before,
                self@.dom() == before.dom(),
                forall|k: int|
                    0 <= k < i ==> self@[(#[trigger] entries@[k]).id] == restarted_payment(
                        entries@[k].info,
                        recent@.contains(entries@[k].id),
                    ),
                forall|k: int|
                    i <= k < entries@.len() ==> self@[(#[trigger] entries@[k]).id]
                        == entries@[k].info,
            decreases entries.len() - i,
        {
            let e: PaymentEntry = entries[i];
            let pending: bool = match e.info.status {
                HTLCStatus::Pending => true,
                _ => false,
            };
            proof {
                lemma_lookup(entries@, e.id);
                assert(entries@[i as int].id == e.id);
            }
            if pending && !contains_id(recent, &e.id) {
                let failed: PaymentInfo = PaymentInfo { status: HTLCStatus::Failed, ..e.info };
                self.insert(e.id, failed);
                assert(self@.dom() =~= before.dom());
            }
            i = i + 1;
        }
        proof {
            assert forall|id: [u8; 32]| before.dom().contains(id) implies #[trigger] self@[id]
                == restarted_payments(before, recent@)[id] by {
                lemma_lookup(entries@, id);
                let k = choose|k: int|
                    0 <= k < entries@.len() && (#[trigger] entries@[k]).id == id
                        && entries@[k].info == lookup(entries@, id)->0;
                assert(entries@[k].id == id);
            }
            assert(self@ =~= restarted_payments(before, recent@));
        }
    }
}

/// The entries that some bytes hold; none where they cannot be read.
pub open spec fn stored_entries(bytes: Seq<u8>) -> Seq<PaymentEntry> {
    match spec_read_store(bytes) {
        Ok(v) => v.0,
        Err(_) => seq![],
    }
}

/// The payments that some bytes hold; none where they cannot be read.
pub open spec fn stored_payments(bytes: Seq<u8>) -> Map<[u8; 32], PaymentInfo> {
    table_of(stored_entries(bytes))
}

/// The table that some bytes hold; an empty one where they cannot be read.
fn table_from_bytes(bytes: &[u8]) -> (r: PaymentTable)
    ensures
        r@ == stored_payments(bytes@),
{
    match PaymentTable::read(bytes) {
        Ok(v) => v.0,
        Err(_) => {
            let r: PaymentTable = PaymentTable::new();
            assert(r@ =~= stored_payments(bytes@));
            r
        },
    }
}

/// What is written to disk is what the next start remembers.
pub proof fn law_restart_remembers(bytes: Seq<u8>, payments: Map<[u8; 32], PaymentInfo>)
    requires
        is_store_of(bytes, payments),
        bytes.len() <= u64::MAX,
    ensures
        stored_payments(bytes) == payments,
{
    let s = choose|s: Seq<PaymentEntry>|
        distinct_ids(s) && table_of(s) == payments && bytes == #[trigger] store_bytes(s);
    law_store_round_trip(s, Seq::empty());
    assert(store_bytes(s) + Seq::<u8>::empty() =~= store_bytes(s));
}

/// After a restart every payment that is still pending is one that the channels know, and no
/// other payment has changed.
pub proof fn law_restart_settles(payments: Map<[u8; 32], PaymentInfo>, recent: Seq<[u8; 32]>)
    ensures
        ({
            let after = restarted_payments(payments, recent);
            &&& after.dom() == payments.dom()
            &&& forall|id: [u8; 32]| #[trigger]
                after.dom().contains(id) ==> {
                    &&& after[id].status == HTLCStatus::Pending ==> recent.contains(id)
                    &&& payments[id].status != HTLCStatus::Pending || recent.contains(id)
                        ==> after[id] == payments[id]
                    &&& payments[id].status == HTLCStatus::Pending && !recent.contains(id)
                        ==> after[id] == failed_payment(payments[id])
                }
        }),
{
    assert(restarted_payments(payments, recent).dom() =~= payments.dom());
}

/// A second restart with the same channels changes nothing more.
pub proof fn law_restart_is_stable(payments: Map<[u8; 32], PaymentInfo>, recent: Seq<[u8; 32]>)
    ensures
        restarted_payments(restarted_payments(payments, recent), recent) == restarted_payments(
            payments,
            recent,
        ),
{
    assert(restarted_payments(restarted_payments(payments, recent), recent)
        =~= restarted_payments(payments, recent));
}

} // verus!
