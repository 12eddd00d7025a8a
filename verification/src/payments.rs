//! What the node remembers of its payments, and the form in which it keeps that on disk.

use crate::text::{decimal, decimal_text};
use crate::wire::{
    be_bytes, be_value, check_value, law_be_round_trip, law_size_round_trip, lemma_head_round_trip,
    lemma_pow256_values, lemma_small_size, passes_over, prefixed, read_be, read_head, read_size,
    record_bytes, size_bytes, spec_read_be, spec_read_head, spec_read_size, take_window,
    value_fault, window, write_be, write_bytes, write_prefixed, write_record, write_size,
    DecodeError, Head,
};
use vstd::array::spec_array_update;
use vstd::prelude::*;
use vstd::slice::slice_subrange;
use vstd::string::*;

verus! {

/// How far a payment has come.
#[derive(Clone, Copy, Debug, PartialEq, Eq, Structural)]
pub enum HTLCStatus {
    /// The payment is on its way.
    Pending,
    /// The payment has arrived.
    Succeeded,
    /// The payment will not arrive.
    Failed,
}

/// An amount in millisatoshis, where it is known.
#[derive(Clone, Copy, Debug, PartialEq, Eq, Structural)]
pub struct MillisatAmount(pub Option<u64>);

/// What the node remembers of one payment.
#[derive(Clone, Copy, Debug)]
pub struct PaymentInfo {
    /// The preimage, once it is known.
    pub preimage: Option<[u8; 32]>,
    /// The secret that the recipient asked for.
    pub secret: Option<[u8; 32]>,
    /// How far the payment has come.
    pub status: HTLCStatus,
    /// How much is paid.
    pub amt_msat: MillisatAmount,
}

/// One remembered payment under its hash or identifier.
#[derive(Clone, Copy, Debug)]
pub struct PaymentEntry {
    /// The hash or identifier of the payment.
    pub id: [u8; 32],
    /// What is remembered of it.
    pub info: PaymentInfo,
}

/// The array that holds the given 32 bytes.
pub open spec fn array32(s: Seq<u8>) -> [u8; 32] {
    choose|a: [u8; 32]| #[trigger] a@ == s
}

/// An array is determined by its bytes.
pub proof fn lemma_array32(a: [u8; 32])
    ensures
        array32(a@) == a,
{
    let b = array32(a@);
    assert(a@ == a@);
    assert(b@ == a@);
    assert forall|i: int| 0 <= i < 32 implies a[i] == b[i] by {
        assert(a@[i] == b@[i]);
    }
    assert(a =~= b);
}

/// Arrays can be filled byte by byte.
proof fn lemma_filled(s: Seq<u8>, n: nat) -> (a: [u8; 32])
    requires
        s.len() == 32,
        n <= 32,
    ensures
        a@.take(n as int) == s.take(n as int),
    decreases n,
{
    if n == 0 {
        let a: [u8; 32] = arbitrary();
        assert(a@.take(0) =~= s.take(0));
        a
    } else {
        let b = lemma_filled(s, (n - 1) as nat);
        let a = spec_array_update(b, n - 1, s[n - 1]);
        assert(a@ == b@.update(n - 1, s[n - 1]));
        assert forall|i: int| 0 <= i < n implies a@.take(n as int)[i] == s.take(n as int)[i] by {
            if i < n - 1 {
                assert(b@.take(n - 1)[i] == s.take(n - 1)[i]);
            }
        }
        assert(a@.take(n as int) =~= s.take(n as int));
        a
    }
}

/// Every 32 bytes fill an array, in their order.
pub proof fn law_bytes_fill_an_array(s: Seq<u8>)
    requires
        s.len() == 32,
    ensures
        array32(s)@ == s,
{
    let a = lemma_filled(s, 32);
    assert(a@.take(32) =~= a@);
    assert(s.take(32) =~= s);
    assert(a@ == s);
}

/// Reads 32 bytes into an array.
pub fn to_array32(s: &[u8]) -> (r: [u8; 32])
    requires
        s@.len() >= 32,
    ensures
        r@ == s@.take(32),
        r == array32(s@.take(32)),
{
    let mut out: [u8; 32] = [0u8; 32];
    let mut i: usize = 0;
    while i < 32
        invariant
            i <= 32 <= s@.len(),
            forall|k: int| 0 <= k < i ==> #[trigger] out@[k] == s@[k],
        decreases 32 - i,
    {
        out[i] = s[i];
        i = i + 1;
    }
    assert(out@ =~= s@.take(32));
    proof {
        lemma_array32(out);
    }
    out
}

/// Whether two identifiers are the same.
pub fn same_id(a: &[u8; 32], b: &[u8; 32]) -> (r: bool)
    ensures
        r == (*a == *b),
{
    let mut i: usize = 0;
    while i < 32
        invariant
            i <= 32,
            forall|k: int| 0 <= k < i ==> #[trigger] a@[k] == b@[k],
        decreases 32 - i,
    {
        if a[i] != b[i] {
            assert(a@[i as int] != b@[i as int]);
            return false;
        }
        i = i + 1;
    }
    assert(*a =~= *b);
    true
}

impl MillisatAmount {
    /// The text of the amount: its number, or `unknown`.
    pub open spec fn text(self) -> Seq<char> {
        match self.0 {
            Some(amt) => decimal_text(amt as nat),
            None => "unknown"@,
        }
    }

    /// Writes the amount as text.
    pub fn fmt(&self) -> (r: String)
        ensures
            r@ == self.text(),
    {
        match self.0 {
            Some(amt) => decimal(amt),
            None => "unknown".to_owned(),
        }
    }

    /// The bytes of the amount.
    pub open spec fn bytes(self) -> Seq<u8> {
        match self.0 {
            None => seq![0u8],
            Some(amt) => size_bytes(9) + be_bytes(amt as nat, 8),
        }
    }

    /// Reading an amount: its value and how many bytes it took.
    pub open spec fn spec_read(s: Seq<u8>) -> Result<(MillisatAmount, nat), DecodeError> {
        match spec_read_size(s) {
            Err(e) => Err(e),
            Ok(len) => if len.0 == 0 {
                Ok((MillisatAmount(None), len.1))
            } else {
                let inside = window(s.skip(len.1 as int), (len.0 - 1) as nat);
                match spec_read_be(inside, 8) {
                    Err(e) => Err(e),
                    Ok(v) => Ok((MillisatAmount(Some(v.0 as u64)), len.1 + 8)),
                }
            },
        }
    }

    /// Reads an amount.
    pub fn read(s: &[u8]) -> (r: Result<(MillisatAmount, usize), DecodeError>)
        ensures
            match r {
                Ok(v) => MillisatAmount::spec_read(s@) == Ok::<_, DecodeError>((v.0, v.1 as nat))
                    && v.1 <= s@.len(),
                Err(e) => MillisatAmount::spec_read(s@) == Err::<(MillisatAmount, nat), _>(e),
            },
    {
        let len: (u64, usize) = match read_size(s) {
            Err(e) => return Err(e),
            Ok(v) => v,
        };
        if len.0 == 0 {
            return Ok((MillisatAmount(None), len.1));
        }
        let rest: &[u8] = slice_subrange(s, len.1, s.len());
        assert(rest@ =~= s@.skip(len.1 as int));
        let inside: &[u8] = take_window(rest, len.0 - 1);
        match read_be(inside, 8) {
            Err(e) => Err(e),
            Ok(v) => Ok((MillisatAmount(Some(v.0)), len.1 + 8)),
        }
    }

    /// Appends the amount.
    pub fn write(&self, out: &mut Vec<u8>)
        ensures
            final(out)@ == old(out)@ + self.bytes(),
    {
        match self.0 {
            None => {
                out.push(0u8);
            },
            Some(amt) => {
                write_size(out, 9);
                write_be(out, amt, 8);
            },
        }
        assert(out@ =~= old(out)@ + self.bytes());
    }

    /// An amount that was written is read back, whatever follows it.
    pub proof fn law_round_trip(self, tail: Seq<u8>)
        ensures
            MillisatAmount::spec_read(self.bytes() + tail) == Ok::<_, DecodeError>(
                (self, self.bytes().len()),
            ),
    {
        let s = self.bytes() + tail;
        lemma_small_size(0);
        lemma_small_size(9);
        match self.0 {
            None => {
                law_size_round_trip(0, tail);
                assert(s =~= size_bytes(0) + tail);
            },
            Some(amt) => {
                let body = be_bytes(amt as nat, 8);
                lemma_be_u64(amt);
                law_size_round_trip(9, body + tail);
                assert(s =~= size_bytes(9) + (body + tail));
                assert(s.skip(1) =~= body + tail);
                assert(window(body + tail, 8) =~= body);
                assert(body.take(8) =~= body);
            },
        }
    }
}

/// A secret or a preimage, where there is one: its bytes.
pub open spec fn optional_bytes(v: Option<[u8; 32]>) -> Seq<u8> {
    match v {
        None => seq![0u8],
        Some(a) => size_bytes(33) + a@,
    }
}

/// Reading a secret or a preimage, where there is one.
pub open spec fn spec_read_optional(s: Seq<u8>) -> Result<(Option<[u8; 32]>, nat), DecodeError> {
    match spec_read_size(s) {
        Err(e) => Err(e),
        Ok(len) => if len.0 == 0 {
            Ok((None, len.1))
        } else {
            let inside = window(s.skip(len.1 as int), (len.0 - 1) as nat);
            if inside.len() < 32 {
                Err(DecodeError::ShortRead)
            } else {
                Ok((Some(array32(inside.take(32))), len.1 + 32))
            }
        },
    }
}

/// Reads a secret or a preimage, where there is one.
pub fn read_optional(s: &[u8]) -> (r: Result<(Option<[u8; 32]>, usize), DecodeError>)
    ensures
        match r {
            Ok(v) => spec_read_optional(s@) == Ok::<_, DecodeError>((v.0, v.1 as nat)) && v.1
                <= s@.len(),
            Err(e) => spec_read_optional(s@) == Err::<(Option<[u8; 32]>, nat), _>(e),
        },
{
    let len: (u64, usize) = match read_size(s) {
        Err(e) => return Err(e),
        Ok(v) => v,
    };
    if len.0 == 0 {
        return Ok((None, len.1));
    }
    let rest: &[u8] = slice_subrange(s, len.1, s.len());
    assert(rest@ =~= s@.skip(len.1 as int));
    let inside: &[u8] = take_window(rest, len.0 - 1);
    if inside.len() < 32 {
        return Err(DecodeError::ShortRead);
    }
    Ok((Some(to_array32(inside)), len.1 + 32))
}

/// Appends a secret or a preimage, where there is one.
pub fn write_optional(out: &mut Vec<u8>, v: &Option<[u8; 32]>)
    ensures
        final(out)@ == old(out)@ + optional_bytes(*v),
{
    match v {
        None => {
            out.push(0u8);
        },
        Some(a) => {
            write_size(out, 33);
            write_bytes(out, a.as_slice());
        },
    }
    assert(out@ =~= old(out)@ + optional_bytes(*v));
}

/// A secret or a preimage that was written is read back, whatever follows it.
proof fn lemma_optional_round_trip(v: Option<[u8; 32]>, tail: Seq<u8>)
    ensures
        spec_read_optional(optional_bytes(v) + tail) == Ok::<_, DecodeError>(
            (v, optional_bytes(v).len()),
        ),
        optional_bytes(v).len() <= 40,
{
    let s = optional_bytes(v) + tail;
    lemma_small_size(0);
    lemma_small_size(33);
    match v {
        None => {
            law_size_round_trip(0, tail);
            assert(s =~= size_bytes(0) + tail);
        },
        Some(a) => {
            law_size_round_trip(33, a@ + tail);
            assert(s =~= size_bytes(33) + (a@ + tail));
            assert(s.skip(1) =~= a@ + tail);
            assert(window(a@ + tail, 32) =~= a@);
            assert(a@.take(32) =~= a@);
            lemma_array32(a);
        },
    }
}

/// Reading a stream of records in which no type is known: only odd types may stand there.
pub open spec fn unknown_stream_fault(s: Seq<u8>, last: Option<u64>) -> Option<DecodeError>
    decreases s.len(),
{
    match spec_read_head(s, last, seq![]) {
        Err(e) => Some(e),
        Ok(None) => None,
        Ok(Some(h)) => {
            let rest = s.skip(h.2 as int);
            if h.0 % 2 == 0 {
                Some(DecodeError::UnknownRequiredFeature)
            } else if h.1 > rest.len() {
                Some(DecodeError::ShortRead)
            } else if 0 < h.2 <= s.len() {
                unknown_stream_fault(rest.skip(h.1 as int), Some(h.0 as u64))
            } else {
                None
            }
        },
    }
}

/// What is wrong with a stream of records in which no type is known.
fn check_unknown_stream(s: &[u8]) -> (r: Option<DecodeError>)
    ensures
        r == unknown_stream_fault(s@, None),
{
    let required: Vec<u64> = Vec::new();
    let mut rest: &[u8] = s;
    let mut last: Option<u64> = None;
    assert(required@ =~= seq![]);
    loop
        invariant
            required@ == Seq::<u64>::empty(),
            unknown_stream_fault(s@, None) == unknown_stream_fault(rest@, last),
        decreases rest@.len(),
    {
        let h: Head = match read_head(rest, last, &required) {
            Err(e) => return Some(e),
            Ok(None) => return None,
            Ok(Some(h)) => h,
        };
        if h.kind % 2 == 0 {
            return Some(DecodeError::UnknownRequiredFeature);
        }
        let value: &[u8] = slice_subrange(rest, h.size, rest.len());
        assert(value@ =~= rest@.skip(h.size as int));
        if h.len > value.len() as u64 {
            return Some(DecodeError::ShortRead);
        }
        let next: &[u8] = slice_subrange(value, h.len as usize, value.len());
        assert(next@ =~= value@.skip(h.len as int));
        rest = next;
        last = Some(h.kind);
    }
}

impl HTLCStatus {
    /// The number under which the status is written.
    pub open spec fn number(self) -> u8 {
        match self {
            HTLCStatus::Pending => 0,
            HTLCStatus::Succeeded => 1,
            HTLCStatus::Failed => 2,
        }
    }

    /// The bytes of the status: its number and an empty stream of records.
    pub open spec fn bytes(self) -> Seq<u8> {
        seq![self.number()] + prefixed(seq![])
    }

    /// The word for the status.
    pub open spec fn text(self) -> Seq<char> {
        match self {
            HTLCStatus::Pending => "pending"@,
            HTLCStatus::Succeeded => "succeeded"@,
            HTLCStatus::Failed => "failed"@,
        }
    }

    /// Writes the word for the status.
    pub fn fmt(&self) -> (r: String)
        ensures
            r@ == self.text(),
    {
        match self {
            HTLCStatus::Pending => "pending".to_owned(),
            HTLCStatus::Succeeded => "succeeded".to_owned(),
            HTLCStatus::Failed => "failed".to_owned(),
        }
    }

    /// The status that is written under a number.
    pub open spec fn of_number(n: u8) -> Option<HTLCStatus> {
        if n == 0 {
            Some(HTLCStatus::Pending)
        } else if n == 1 {
            Some(HTLCStatus::Succeeded)
        } else if n == 2 {
            Some(HTLCStatus::Failed)
        } else {
            None
        }
    }

    /// Reading a status: its value and how many bytes it took.
    pub open spec fn spec_read(s: Seq<u8>) -> Result<(HTLCStatus, nat), DecodeError> {
        if s.len() == 0 {
            Err(DecodeError::ShortRead)
        } else {
            match HTLCStatus::of_number(s[0]) {
                None => Err(DecodeError::UnknownRequiredFeature),
                Some(status) => match spec_read_size(s.skip(1)) {
                    Err(e) => Err(e),
                    Ok(len) => {
                        let rest = s.skip(1).skip(len.1 as int);
                        match unknown_stream_fault(window(rest, len.0), None) {
                            Some(e) => Err(e),
                            None => if rest.len() < len.0 {
                                Err(DecodeError::ShortRead)
                            } else {
                                Ok((status, 1 + len.1 + len.0))
                            },
                        }
                    },
                },
            }
        }
    }

    /// Reads a status.
    pub fn read(s: &[u8]) -> (r: Result<(HTLCStatus, usize), DecodeError>)
        ensures
            match r {
                Ok(v) => HTLCStatus::spec_read(s@) == Ok::<_, DecodeError>((v.0, v.1 as nat))
                    && v.1 <= s@.len(),
                Err(e) => HTLCStatus::spec_read(s@) == Err::<(HTLCStatus, nat), _>(e),
            },
    {
        if s.len() == 0 {
            return Err(DecodeError::ShortRead);
        }
        let status: HTLCStatus = match s[0] {
            0 => HTLCStatus::Pending,
            1 => HTLCStatus::Succeeded,
            2 => HTLCStatus::Failed,
            _ => return Err(DecodeError::UnknownRequiredFeature),
        };
        let body: &[u8] = slice_subrange(s, 1, s.len());
        assert(body@ =~= s@.skip(1));
        let len: (u64, usize) = match read_size(body) {
            Err(e) => return Err(e),
            Ok(v) => v,
        };
        let rest: &[u8] = slice_subrange(body, len.1, body.len());
        assert(rest@ =~= body@.skip(len.1 as int));
        match check_unknown_stream(take_window(rest, len.0)) {
            Some(e) => return Err(e),
            None => {},
        }
        if (rest.len() as u64) < len.0 {
            return Err(DecodeError::ShortRead);
        }
        Ok((status, 1 + len.1 + len.0 as usize))
    }

    /// Appends the status.
    pub fn write(&self, out: &mut Vec<u8>)
        ensures
            final(out)@ == old(out)@ + self.bytes(),
    {
        match self {
            HTLCStatus::Pending => out.push(0u8),
            HTLCStatus::Succeeded => out.push(1u8),
            HTLCStatus::Failed => out.push(2u8),
        }
        let none: Vec<u8> = Vec::new();
        write_prefixed(out, &none);
        assert(none@ =~= seq![]);
        assert(out@ =~= old(out)@ + self.bytes());
    }

    /// A status that was written is read back, whatever follows it.
    pub proof fn law_round_trip(self, tail: Seq<u8>)
        ensures
            HTLCStatus::spec_read(self.bytes() + tail) == Ok::<_, DecodeError>(
                (self, self.bytes().len()),
            ),
            self.bytes().len() == 2,
    {
        let s = self.bytes() + tail;
        law_size_round_trip(0, tail);
        lemma_small_size(0);
        assert(prefixed(seq![]) =~= seq![0u8]);
        assert(s.skip(1) =~= size_bytes(0) + tail);
        assert(window(s.skip(1).skip(1), 0) =~= Seq::<u8>::empty());
    }
}

/// A number of 64 bits is read back from its eight bytes.
pub proof fn lemma_be_u64(n: u64)
    ensures
        be_bytes(n as nat, 8).len() == 8,
        be_value(be_bytes(n as nat, 8)) == n,
{
    lemma_pow256_values();
    law_be_round_trip(n as nat, 8);
}

/// The types of the records of a payment, all of them required.
pub open spec fn info_types() -> Seq<u64> {
    seq![0u64, 2, 4, 6]
}

/// The records of a payment that have been read so far.
#[derive(Clone, Copy, Debug)]
pub struct InfoFields {
    /// The preimage, if its record has been read.
    pub preimage: Option<Option<[u8; 32]>>,
    /// The secret, if its record has been read.
    pub secret: Option<Option<[u8; 32]>>,
    /// The status, if its record has been read.
    pub status: Option<HTLCStatus>,
    /// The amount, if its record has been read.
    pub amt_msat: Option<MillisatAmount>,
}

/// The fields before any record has been read.
pub open spec fn no_fields() -> InfoFields {
    InfoFields { preimage: None, secret: None, status: None, amt_msat: None }
}

/// Reading the value of a record of a payment: a known type has to use up its value, an unknown
/// one is passed over where it is odd.
#[verifier::opaque]
pub open spec fn info_field(f: InfoFields, kind: nat, len: nat, rest: Seq<u8>) -> Result<
    InfoFields,
    DecodeError,
> {
    let w = window(rest, len);
    if kind == 0 {
        match spec_read_optional(w) {
            Err(e) => Err(e),
            Ok(v) => match value_fault(v.1, len, rest.len()) {
                Some(e) => Err(e),
                None => Ok(InfoFields { preimage: Some(v.0), ..f }),
            },
        }
    } else if kind == 2 {
        match spec_read_optional(w) {
            Err(e) => Err(e),
            Ok(v) => match value_fault(v.1, len, rest.len()) {
                Some(e) => Err(e),
                None => Ok(InfoFields { secret: Some(v.0), ..f }),
            },
        }
    } else if kind == 4 {
        match HTLCStatus::spec_read(w) {
            Err(e) => Err(e),
            Ok(v) => match value_fault(v.1, len, rest.len()) {
                Some(e) => Err(e),
                None => Ok(InfoFields { status: Some(v.0), ..f }),
            },
        }
    } else if kind == 6 {
        match MillisatAmount::spec_read(w) {
            Err(e) => Err(e),
            Ok(v) => match value_fault(v.1, len, rest.len()) {
                Some(e) => Err(e),
                None => Ok(InfoFields { amt_msat: Some(v.0), ..f }),
            },
        }
    } else if kind % 2 == 0 {
        Err(DecodeError::UnknownRequiredFeature)
    } else if len > rest.len() {
        Err(DecodeError::ShortRead)
    } else {
        Ok(f)
    }
}

/// Reading the records of a payment to the end of their stream.
pub open spec fn info_stream(s: Seq<u8>, last: Option<u64>, f: InfoFields) -> Result<
    InfoFields,
    DecodeError,
>
    decreases s.len(),
{
    match spec_read_head(s, last, info_types()) {
        Err(e) => Err(e),
        Ok(None) => if last is None || last->0 < 6 {
            Err(DecodeError::InvalidValue)
        } else {
            Ok(f)
        },
        Ok(Some(h)) => {
            let rest = s.skip(h.2 as int);
            match info_field(f, h.0, h.1, rest) {
                Err(e) => Err(e),
                Ok(g) => if 0 < h.2 <= s.len() && h.1 <= rest.len() {
                    info_stream(rest.skip(h.1 as int), Some(h.0 as u64), g)
                } else {
                    Ok(g)
                },
            }
        },
    }
}

/// Reads the value of a record of a payment.
fn read_info_field(f: InfoFields, kind: u64, len: u64, rest: &[u8]) -> (r: Result<
    InfoFields,
    DecodeError,
>)
    ensures
        r == info_field(f, kind as nat, len as nat, rest@),
        r is Ok ==> len <= rest@.len(),
{
    reveal(info_field);
    let w: &[u8] = take_window(rest, len);
    if kind == 0 || kind == 2 {
        match read_optional(w) {
            Err(e) => Err(e),
            Ok(v) => match check_value(v.1, len, rest.len()) {
                Some(e) => Err(e),
                None => if kind == 0 {
                    Ok(InfoFields { preimage: Some(v.0), ..f })
                } else {
                    Ok(InfoFields { secret: Some(v.0), ..f })
                },
            },
        }
    } else if kind == 4 {
        match HTLCStatus::read(w) {
            Err(e) => Err(e),
            Ok(v) => match check_value(v.1, len, rest.len()) {
                Some(e) => Err(e),
                None => Ok(InfoFields { status: Some(v.0), ..f }),
            },
        }
    } else if kind == 6 {
        match MillisatAmount::read(w) {
            Err(e) => Err(e),
            Ok(v) => match check_value(v.1, len, rest.len()) {
                Some(e) => Err(e),
                None => Ok(InfoFields { amt_msat: Some(v.0), ..f }),
            },
        }
    } else if kind % 2 == 0 {
        Err(DecodeError::UnknownRequiredFeature)
    } else if len > rest.len() as u64 {
        Err(DecodeError::ShortRead)
    } else {
        Ok(f)
    }
}

/// Which records must have been read once the record before type `last` has been passed.
pub open spec fn fields_up_to(f: InfoFields, last: Option<u64>) -> bool {
    &&& (last is Some ==> f.preimage is Some)
    &&& (last is Some && last->0 >= 2 ==> f.secret is Some)
    &&& (last is Some && last->0 >= 4 ==> f.status is Some)
    &&& (last is Some && last->0 >= 6 ==> f.amt_msat is Some)
}

/// Required types cannot be passed over.
proof fn lemma_fields_kept(f: InfoFields, last: Option<u64>, kind: u64, len: nat, rest: Seq<u8>)
    requires
        fields_up_to(f, last),
        last is Some ==> last->0 < kind,
        !passes_over(last, kind as nat, info_types()),
        info_field(f, kind as nat, len, rest) is Ok,
    ensures
        fields_up_to(info_field(f, kind as nat, len, rest)->Ok_0, Some(kind)),
{
    reveal(info_field);
    let t = info_types();
    assert(t[0] == 0 && t[1] == 2 && t[2] == 4 && t[3] == 6);
}

impl PaymentInfo {
    /// The records of the payment.
    pub open spec fn body(self) -> Seq<u8> {
        record_bytes(0, optional_bytes(self.preimage)) + (record_bytes(
            2,
            optional_bytes(self.secret),
        ) + (record_bytes(4, self.status.bytes()) + record_bytes(6, self.amt_msat.bytes())))
    }

    /// The bytes of the payment: its records behind their length.
    pub open spec fn bytes(self) -> Seq<u8> {
        prefixed(self.body())
    }

    /// Reading a payment: its value and how many bytes it took.
    pub open spec fn spec_read(s: Seq<u8>) -> Result<(PaymentInfo, nat), DecodeError> {
        match spec_read_size(s) {
            Err(e) => Err(e),
            Ok(len) => {
                let rest = s.skip(len.1 as int);
                match info_stream(window(rest, len.0), None, no_fields()) {
                    Err(e) => Err(e),
                    Ok(f) => if rest.len() < len.0 {
                        Err(DecodeError::ShortRead)
                    } else {
                        Ok(
                            (
                                PaymentInfo {
                                    preimage: f.preimage->0,
                                    secret: f.secret->0,
                                    status: f.status->0,
                                    amt_msat: f.amt_msat->0,
                                },
                                len.1 + len.0,
                            ),
                        )
                    },
                }
            },
        }
    }

    /// Appends the payment.
    pub fn write(&self, out: &mut Vec<u8>)
        ensures
            final(out)@ == old(out)@ + self.bytes(),
    {
        let mut preimage: Vec<u8> = Vec::new();
        write_optional(&mut preimage, &self.preimage);
        assert(preimage@ =~= optional_bytes(self.preimage));
        let mut secret: Vec<u8> = Vec::new();
        write_optional(&mut secret, &self.secret);
        assert(secret@ =~= optional_bytes(self.secret));
        let mut status: Vec<u8> = Vec::new();
        self.status.write(&mut status);
        assert(status@ =~= self.status.bytes());
        let mut amt: Vec<u8> = Vec::new();
        self.amt_msat.write(&mut amt);
        assert(amt@ =~= self.amt_msat.bytes());
        let mut body: Vec<u8> = Vec::new();
        write_record(&mut body, 0, &preimage);
        write_record(&mut body, 2, &secret);
        write_record(&mut body, 4, &status);
        write_record(&mut body, 6, &amt);
        assert(body@ =~= self.body());
        write_prefixed(out, &body);
    }

    /// Reads a payment.
    pub fn read(s: &[u8]) -> (r: Result<(PaymentInfo, usize), DecodeError>)
        ensures
            match r {
                Ok(v) => PaymentInfo::spec_read(s@) == Ok::<_, DecodeError>((v.0, v.1 as nat))
                    && 0 < v.1 <= s@.len(),
                Err(e) => PaymentInfo::spec_read(s@) == Err::<(PaymentInfo, nat), _>(e),
            },
    {
        let len: (u64, usize) = match read_size(s) {
            Err(e) => return Err(e),
            Ok(v) => v,
        };
        let rest: &[u8] = slice_subrange(s, len.1, s.len());
        assert(rest@ =~= s@.skip(len.1 as int));
        let all: &[u8] = take_window(rest, len.0);
        let f: InfoFields = match PaymentInfo::read_stream(all) {
            Err(e) => return Err(e),
            Ok(f) => f,
        };
        if (rest.len() as u64) < len.0 {
            return Err(DecodeError::ShortRead);
        }
        let info: PaymentInfo = PaymentInfo {
            preimage: f.preimage.unwrap(),
            secret: f.secret.unwrap(),
            status: f.status.unwrap(),
            amt_msat: f.amt_msat.unwrap(),
        };
        Ok((info, len.1 + len.0 as usize))
    }

    /// Reads the records of a payment to the end of their stream.
    fn read_stream(s: &[u8]) -> (r: Result<InfoFields, DecodeError>)
        ensures
            r == info_stream(s@, None, no_fields()),
            r matches Ok(f) ==> f.preimage is Some && f.secret is Some && f.status is Some
                && f.amt_msat is Some,
    {
        let mut required: Vec<u64> = Vec::new();
        required.push(0);
        required.push(2);
        required.push(4);
        required.push(6);
        assert(required@ =~= info_types());
        let mut rest: &[u8] = s;
        let mut last: Option<u64> = None;
        let mut f: InfoFields = InfoFields {
            preimage: None,
            secret: None,
            status: None,
            amt_msat: None,
        };
        loop
            invariant
                required@ == info_types(),
                fields_up_to(f, last),
                info_stream(s@, None, no_fields()) == info_stream(rest@, last, f),
            decreases rest@.len(),
        {
            let h: Head = match read_head(rest, last, &required) {
                Err(e) => return Err(e),
                Ok(None) => {
                    match last {
                        None => return Err(DecodeError::InvalidValue),
                        Some(l) => if l < 6 {
                            return Err(DecodeError::InvalidValue);
                        },
                    }
                    return Ok(f);
                },
                Ok(Some(h)) => h,
            };
            let value: &[u8] = slice_subrange(rest, h.size, rest.len());
            assert(value@ =~= rest@.skip(h.size as int));
            let g: InfoFields = match read_info_field(f, h.kind, h.len, value) {
                Err(e) => return Err(e),
                Ok(g) => g,
            };
            proof {
                lemma_fields_kept(f, last, h.kind, h.len as nat, value@);
            }
            let next: &[u8] = slice_subrange(value, h.len as usize, value.len());
            assert(next@ =~= value@.skip(h.len as int));
            rest = next;
            last = Some(h.kind);
            f = g;
        }
    }

    /// A payment that was written is read back, whatever follows it.
    pub proof fn law_round_trip(self, tail: Seq<u8>)
        ensures
            PaymentInfo::spec_read(self.bytes() + tail) == Ok::<_, DecodeError>(
                (self, self.bytes().len()),
            ),
            self.bytes().len() > 0,
    {
        let v0 = optional_bytes(self.preimage);
        let v2 = optional_bytes(self.secret);
        let v4 = self.status.bytes();
        let v6 = self.amt_msat.bytes();
        let r6 = record_bytes(6, v6);
        let r4 = record_bytes(4, v4) + r6;
        let r2 = record_bytes(2, v2) + r4;
        let body = self.body();
        let none = Seq::<u8>::empty();
        let t = info_types();
        assert(t[0] == 0 && t[1] == 2 && t[2] == 4 && t[3] == 6);

        let f0 = InfoFields { preimage: Some(self.preimage), ..no_fields() };
        let f2 = InfoFields { secret: Some(self.secret), ..f0 };
        let f4 = InfoFields { status: Some(self.status), ..f2 };
        let f6 = InfoFields { amt_msat: Some(self.amt_msat), ..f4 };

        lemma_info_fields(self, no_fields(), r2);
        lemma_info_fields(self, f0, r4);
        lemma_info_fields(self, f2, r6);
        lemma_info_fields(self, f4, none);
        lemma_info_step(no_fields(), f0, None, 0, v0, r2);
        lemma_info_step(f0, f2, Some(0), 2, v2, r4);
        lemma_info_step(f2, f4, Some(2), 4, v4, r6);
        assert(record_bytes(6, v6) + none =~= r6);
        lemma_info_step(f4, f6, Some(4), 6, v6, none);
        assert(info_stream(none, Some(6), f6) == Ok::<_, DecodeError>(f6));
        assert(info_stream(body, None, no_fields()) == Ok::<_, DecodeError>(f6));

        let s = self.bytes() + tail;
        lemma_record_len(0, v0);
        lemma_record_len(2, v2);
        lemma_record_len(4, v4);
        lemma_record_len(6, v6);
        law_size_round_trip(body.len(), body + tail);
        assert(s =~= size_bytes(body.len()) + (body + tail));
        assert(s.skip(size_bytes(body.len()).len() as int) =~= body + tail);
        assert(window(body + tail, body.len()) =~= body);
    }
}

/// The records of a payment that was written are read back, and reading goes on behind them.
pub(crate) proof fn lemma_body_read(p: PaymentInfo, more: Seq<u8>)
    ensures
        p.body().len() <= 240,
        info_stream(p.body() + more, None, no_fields()) == info_stream(
            more,
            Some(6),
            InfoFields {
                preimage: Some(p.preimage),
                secret: Some(p.secret),
                status: Some(p.status),
                amt_msat: Some(p.amt_msat),
            },
        ),
{
    let v0 = optional_bytes(p.preimage);
    let v2 = optional_bytes(p.secret);
    let v4 = p.status.bytes();
    let v6 = p.amt_msat.bytes();
    let r6 = record_bytes(6, v6) + more;
    let r4 = record_bytes(4, v4) + r6;
    let r2 = record_bytes(2, v2) + r4;
    let t = info_types();
    assert(t[0] == 0 && t[1] == 2 && t[2] == 4 && t[3] == 6);
    let f0 = InfoFields { preimage: Some(p.preimage), ..no_fields() };
    let f2 = InfoFields { secret: Some(p.secret), ..f0 };
    let f4 = InfoFields { status: Some(p.status), ..f2 };
    let f6 = InfoFields { amt_msat: Some(p.amt_msat), ..f4 };
    lemma_info_fields(p, no_fields(), r2);
    lemma_info_fields(p, f0, r4);
    lemma_info_fields(p, f2, r6);
    lemma_info_fields(p, f4, more);
    lemma_info_step(no_fields(), f0, None, 0, v0, r2);
    lemma_info_step(f0, f2, Some(0), 2, v2, r4);
    lemma_info_step(f2, f4, Some(2), 4, v4, r6);
    lemma_info_step(f4, f6, Some(4), 6, v6, more);
    assert(p.body() + more =~= record_bytes(0, v0) + r2);
    lemma_record_len(0, v0);
    lemma_record_len(2, v2);
    lemma_record_len(4, v4);
    lemma_record_len(6, v6);
}

/// A payment that a later version has written, with more records behind those that are known, is
/// read as far as it is known if those records may be passed over, and refused if one of them may
/// not: the types of the former are odd, those of the latter even.
pub proof fn law_later_records(p: PaymentInfo, kind: u64, value: Seq<u8>)
    requires
        6 < kind < 0xfd,
        value.len() <= 40,
    ensures
        ({
            let bytes = prefixed(p.body() + record_bytes(kind as nat, value));
            &&& kind % 2 == 1 ==> PaymentInfo::spec_read(bytes) == Ok::<_, DecodeError>(
                (p, bytes.len()),
            )
            &&& kind % 2 == 0 ==> PaymentInfo::spec_read(bytes) == Err::<(PaymentInfo, nat), _>(
                DecodeError::UnknownRequiredFeature,
            )
        }),
{
    let none = Seq::<u8>::empty();
    let more = record_bytes(kind as nat, value);
    let body = p.body() + more;
    let bytes = prefixed(body);
    let f = InfoFields {
        preimage: Some(p.preimage),
        secret: Some(p.secret),
        status: Some(p.status),
        amt_msat: Some(p.amt_msat),
    };
    lemma_body_read(p, more);
    lemma_record_len(kind as nat, value);
    let t = info_types();
    assert(t[0] == 0 && t[1] == 2 && t[2] == 4 && t[3] == 6);
    reveal(info_field);
    assert(more + none =~= more);
    assert(value + none =~= value);
    lemma_head_round_trip(kind as nat, value, none, Some(6), t);
    if kind % 2 == 1 {
        lemma_info_step(f, f, Some(6), kind, value, none);
        assert(info_stream(none, Some(kind), f) == Ok::<_, DecodeError>(f));
    }
    law_size_round_trip(body.len(), body);
    assert(bytes.skip(size_bytes(body.len()).len() as int) =~= body);
    assert(window(body, body.len()) =~= body);
}

/// A payment with a record missing is refused.
pub proof fn law_records_are_required(p: PaymentInfo)
    ensures
        ({
            let preimage = record_bytes(0, optional_bytes(p.preimage));
            let secret = record_bytes(2, optional_bytes(p.secret));
            let status = record_bytes(4, p.status.bytes());
            let amount = record_bytes(6, p.amt_msat.bytes());
            let refused = Err::<(PaymentInfo, nat), _>(DecodeError::InvalidValue);
            &&& PaymentInfo::spec_read(prefixed(secret + status + amount)) == refused
            &&& PaymentInfo::spec_read(prefixed(preimage + (status + amount))) == refused
            &&& PaymentInfo::spec_read(prefixed(preimage + (secret + amount))) == refused
            &&& PaymentInfo::spec_read(prefixed(preimage + (secret + status))) == refused
            &&& PaymentInfo::spec_read(prefixed(seq![])) == refused
        }),
{
    let v0 = optional_bytes(p.preimage);
    let v2 = optional_bytes(p.secret);
    let v4 = p.status.bytes();
    let v6 = p.amt_msat.bytes();
    let r0 = record_bytes(0, v0);
    let r2 = record_bytes(2, v2);
    let r4 = record_bytes(4, v4);
    let r6 = record_bytes(6, v6);
    let none = Seq::<u8>::empty();
    let t = info_types();
    assert(t[0] == 0 && t[1] == 2 && t[2] == 4 && t[3] == 6);
    let f0 = InfoFields { preimage: Some(p.preimage), ..no_fields() };
    let f2 = InfoFields { secret: Some(p.secret), ..f0 };
    let f4 = InfoFields { status: Some(p.status), ..f2 };
    lemma_info_fields(p, no_fields(), none);
    lemma_record_len(0, v0);
    lemma_record_len(2, v2);
    lemma_record_len(4, v4);
    lemma_record_len(6, v6);

    let a = r2 + r4 + r6;
    lemma_head_read(2, v2, r4 + r6, None);
    assert(a =~= r2 + (r4 + r6));
    assert(passes_over(None, 2, t));
    lemma_refused(a);

    let b = r0 + (r4 + r6);
    lemma_info_fields(p, no_fields(), r4 + r6);
    lemma_info_step(no_fields(), f0, None, 0, v0, r4 + r6);
    lemma_head_read(4, v4, r6, Some(0));
    assert(passes_over(Some(0), 4, t));
    lemma_refused(b);

    let c = r0 + (r2 + r6);
    lemma_info_fields(p, no_fields(), r2 + r6);
    lemma_info_step(no_fields(), f0, None, 0, v0, r2 + r6);
    lemma_info_fields(p, f0, r6);
    lemma_info_step(f0, f2, Some(0), 2, v2, r6);
    assert(r6 + none =~= r6);
    lemma_head_read(6, v6, none, Some(2));
    assert(passes_over(Some(2), 6, t));
    lemma_refused(c);

    let d = r0 + (r2 + r4);
    lemma_info_fields(p, no_fields(), r2 + r4);
    lemma_info_step(no_fields(), f0, None, 0, v0, r2 + r4);
    lemma_info_fields(p, f0, r4);
    lemma_info_step(f0, f2, Some(0), 2, v2, r4);
    lemma_info_fields(p, f2, none);
    assert(r4 + none =~= r4);
    lemma_info_step(f2, f4, Some(2), 4, v4, none);
    lemma_refused(d);

    lemma_refused(none);
}

/// The type of a record that was written is read back, whether or not the record may stand there.
proof fn lemma_head_read(kind: nat, value: Seq<u8>, tail: Seq<u8>, last: Option<u64>)
    requires
        kind < 0xfd,
        last is Some ==> last->0 < kind,
        passes_over(last, kind, info_types()),
    ensures
        spec_read_head(record_bytes(kind, value) + tail, last, info_types()) == Err::<
            Option<(nat, nat, nat)>,
            _,
        >(DecodeError::InvalidValue),
{
    let s = record_bytes(kind, value) + tail;
    let rest = size_bytes(value.len()) + value + tail;
    law_size_round_trip(kind, rest);
    assert(s =~= size_bytes(kind) + rest);
}

/// A stream of records that is refused is refused behind its length too.
proof fn lemma_refused(body: Seq<u8>)
    requires
        body.len() <= 240,
        info_stream(body, None, no_fields()) == Err::<InfoFields, _>(DecodeError::InvalidValue),
    ensures
        PaymentInfo::spec_read(prefixed(body)) == Err::<(PaymentInfo, nat), _>(
            DecodeError::InvalidValue,
        ),
{
    let bytes = prefixed(body);
    law_size_round_trip(body.len(), body);
    assert(bytes.skip(size_bytes(body.len()).len() as int) =~= body);
    assert(window(body, body.len()) =~= body);
}

/// How a payment lies on disk: behind the length of it all stand the preimage, the secret, the
/// status and the amount, in this order and under their types, each behind its length; what is
/// there of the first two and of the amount counts its bytes and one more.
pub proof fn law_payments_on_disk(p: PaymentInfo)
    ensures
        ({
            let preimage = match p.preimage {
                Some(a) => seq![0u8, 33, 33] + a@,
                None => seq![0u8, 1, 0],
            };
            let secret = match p.secret {
                Some(a) => seq![2u8, 33, 33] + a@,
                None => seq![2u8, 1, 0],
            };
            let status = match p.status {
                HTLCStatus::Pending => seq![4u8, 2, 0, 0],
                HTLCStatus::Succeeded => seq![4u8, 2, 1, 0],
                HTLCStatus::Failed => seq![4u8, 2, 2, 0],
            };
            let amount = match p.amt_msat {
                MillisatAmount(Some(amt)) => seq![6u8, 9, 9] + be_bytes(amt as nat, 8),
                MillisatAmount(None) => seq![6u8, 1, 0],
            };
            let all = preimage + secret + status + amount;
            p.bytes() == seq![all.len() as u8] + all
        }),
{
    let v0 = optional_bytes(p.preimage);
    let v2 = optional_bytes(p.secret);
    let v4 = p.status.bytes();
    let v6 = p.amt_msat.bytes();
    lemma_small_size(0);
    lemma_small_size(1);
    lemma_small_size(2);
    lemma_small_size(4);
    lemma_small_size(6);
    lemma_small_size(9);
    lemma_small_size(33);
    if p.amt_msat.0 is Some {
        lemma_be_u64(p.amt_msat.0->0);
    }
    let preimage = match p.preimage {
        Some(a) => seq![0u8, 33, 33] + a@,
        None => seq![0u8, 1, 0],
    };
    let secret = match p.secret {
        Some(a) => seq![2u8, 33, 33] + a@,
        None => seq![2u8, 1, 0],
    };
    let status = match p.status {
        HTLCStatus::Pending => seq![4u8, 2, 0, 0],
        HTLCStatus::Succeeded => seq![4u8, 2, 1, 0],
        HTLCStatus::Failed => seq![4u8, 2, 2, 0],
    };
    let amount = match p.amt_msat {
        MillisatAmount(Some(amt)) => seq![6u8, 9, 9] + be_bytes(amt as nat, 8),
        MillisatAmount(None) => seq![6u8, 1, 0],
    };
    let all = preimage + secret + status + amount;
    assert(v4 =~= seq![p.status.number(), 0u8]);
    assert(record_bytes(0, v0) =~= preimage);
    assert(record_bytes(2, v2) =~= secret);
    assert(record_bytes(4, v4) =~= status);
    assert(record_bytes(6, v6) =~= amount);
    assert(p.body() =~= all);
    lemma_small_size(all.len());
}

/// A status that a later version has written, with a record behind it, is read as far as it is
/// known if that record may be passed over, and refused if it may not.
pub proof fn law_later_statuses(status: HTLCStatus, kind: u64, value: Seq<u8>)
    requires
        kind < 0xfd,
        value.len() <= 40,
    ensures
        ({
            let bytes = seq![status.number()] + prefixed(record_bytes(kind as nat, value));
            &&& kind % 2 == 1 ==> HTLCStatus::spec_read(bytes) == Ok::<_, DecodeError>(
                (status, bytes.len()),
            )
            &&& kind % 2 == 0 ==> HTLCStatus::spec_read(bytes) == Err::<(HTLCStatus, nat), _>(
                DecodeError::UnknownRequiredFeature,
            )
        }),
{
    let none = Seq::<u8>::empty();
    let body = record_bytes(kind as nat, value);
    let bytes = seq![status.number()] + prefixed(body);
    lemma_record_len(kind as nat, value);
    lemma_head_round_trip(kind as nat, value, none, None, seq![]);
    law_size_round_trip(kind as nat, none);
    law_size_round_trip(value.len(), none);
    assert(body + none =~= body);
    assert(value + none =~= value);
    assert(value.skip(value.len() as int) =~= none);
    law_size_round_trip(body.len(), body);
    assert(bytes.skip(1) =~= prefixed(body));
    assert(prefixed(body).skip(size_bytes(body.len()).len() as int) =~= body);
    assert(window(body, body.len()) =~= body);
    if kind % 2 == 1 {
        assert(unknown_stream_fault(none, Some(kind)) is None);
        assert(unknown_stream_fault(body, None) is None);
    } else {
        assert(unknown_stream_fault(body, None) == Some(DecodeError::UnknownRequiredFeature));
    }
}

/// A record that says more than its value is refused.
pub proof fn law_nothing_is_left_over(p: PaymentInfo, more: u8)
    ensures
        ({
            let preimage = record_bytes(0, optional_bytes(p.preimage));
            let secret = record_bytes(2, optional_bytes(p.secret));
            let status = record_bytes(4, p.status.bytes());
            let amount = record_bytes(6, p.amt_msat.bytes().push(more));
            PaymentInfo::spec_read(prefixed(preimage + (secret + (status + amount)))) == Err::<
                (PaymentInfo, nat),
                _,
            >(DecodeError::InvalidValue)
        }),
{
    let v0 = optional_bytes(p.preimage);
    let v2 = optional_bytes(p.secret);
    let v4 = p.status.bytes();
    let v6 = p.amt_msat.bytes().push(more);
    let none = Seq::<u8>::empty();
    let r6 = record_bytes(6, v6);
    let r4 = record_bytes(4, v4) + r6;
    let r2 = record_bytes(2, v2) + r4;
    let body = record_bytes(0, v0) + r2;
    let t = info_types();
    assert(t[0] == 0 && t[1] == 2 && t[2] == 4 && t[3] == 6);
    let f0 = InfoFields { preimage: Some(p.preimage), ..no_fields() };
    let f2 = InfoFields { secret: Some(p.secret), ..f0 };
    let f4 = InfoFields { status: Some(p.status), ..f2 };
    lemma_info_fields(p, no_fields(), r2);
    lemma_info_fields(p, f0, r4);
    lemma_info_fields(p, f2, r6);
    lemma_info_step(no_fields(), f0, None, 0, v0, r2);
    lemma_info_step(f0, f2, Some(0), 2, v2, r4);
    lemma_info_step(f2, f4, Some(2), 4, v4, r6);
    p.amt_msat.law_round_trip(seq![more]);
    assert(v6 =~= p.amt_msat.bytes() + seq![more]);
    assert(v6.len() <= 40) by {
        lemma_small_size(9);
        if p.amt_msat.0 is Some {
            lemma_be_u64(p.amt_msat.0->0);
        }
    }
    lemma_head_round_trip(6, v6, none, Some(4), t);
    assert(r6 + none =~= r6);
    assert(v6 + none =~= v6);
    assert(window(v6, v6.len()) =~= v6);
    assert(info_field(f4, 6, v6.len(), v6) == Err::<InfoFields, _>(DecodeError::InvalidValue)) by {
        reveal(info_field);
    }
    lemma_record_len(0, v0);
    lemma_record_len(2, v2);
    lemma_record_len(4, v4);
    lemma_record_len(6, v6);
    lemma_refused(body);
}

/// Amounts and secrets count their bytes and one more; a count that is too small is refused, and
/// what stands between the end of a value and the end of its count is left unread.
pub proof fn law_counted_values(n: u8, amt: u64, a: [u8; 32], tail: Seq<u8>)
    requires
        0 < n < 0xfd,
    ensures
        n < 9 ==> MillisatAmount::spec_read(seq![n] + tail) == Err::<(MillisatAmount, nat), _>(
            DecodeError::ShortRead,
        ),
        n >= 9 ==> MillisatAmount::spec_read(seq![n] + be_bytes(amt as nat, 8) + tail) == Ok::<
            _,
            DecodeError,
        >((MillisatAmount(Some(amt)), 9nat)),
        n < 33 ==> spec_read_optional(seq![n] + tail) == Err::<(Option<[u8; 32]>, nat), _>(
            DecodeError::ShortRead,
        ),
        n >= 33 ==> spec_read_optional(seq![n] + a@ + tail) == Ok::<_, DecodeError>(
            (Some(a), 33nat),
        ),
        MillisatAmount::spec_read(seq![0u8] + tail) == Ok::<_, DecodeError>(
            (MillisatAmount(None), 1nat),
        ),
        spec_read_optional(seq![0u8] + tail) == Ok::<_, DecodeError>((None::<[u8; 32]>, 1nat)),
{
    let body = be_bytes(amt as nat, 8);
    lemma_small_size(n as nat);
    lemma_small_size(0);
    lemma_be_u64(amt);
    law_size_round_trip(n as nat, tail);
    law_size_round_trip(0, tail);
    law_size_round_trip(n as nat, body + tail);
    law_size_round_trip(n as nat, a@ + tail);
    assert((seq![n] + tail).skip(1) =~= tail);
    assert(seq![n] + body + tail =~= seq![n] + (body + tail));
    assert((seq![n] + (body + tail)).skip(1) =~= body + tail);
    assert(seq![n] + a@ + tail =~= seq![n] + (a@ + tail));
    assert((seq![n] + (a@ + tail)).skip(1) =~= a@ + tail);
    assert(window(body + tail, (n - 1) as nat).take(8) =~= body || n < 9);
    assert(window(a@ + tail, (n - 1) as nat).take(32) =~= a@ || n < 33);
    lemma_array32(a);
}

/// A payment with a record twice is refused.
pub proof fn law_records_stand_once(p: PaymentInfo, rest: Seq<u8>)
    requires
        rest.len() <= 100,
    ensures
        ({
            let preimage = record_bytes(0, optional_bytes(p.preimage));
            PaymentInfo::spec_read(prefixed(preimage + (preimage + rest))) == Err::<
                (PaymentInfo, nat),
                _,
            >(DecodeError::InvalidValue)
        }),
{
    let v0 = optional_bytes(p.preimage);
    let r0 = record_bytes(0, v0);
    let again = r0 + rest;
    let f0 = InfoFields { preimage: Some(p.preimage), ..no_fields() };
    let t = info_types();
    assert(t[0] == 0 && t[1] == 2 && t[2] == 4 && t[3] == 6);
    lemma_info_fields(p, no_fields(), again);
    lemma_info_step(no_fields(), f0, None, 0, v0, again);
    let behind = size_bytes(v0.len()) + v0 + rest;
    law_size_round_trip(0, behind);
    assert(again =~= size_bytes(0) + behind);
    lemma_record_len(0, v0);
    lemma_refused(r0 + again);
}

/// A short record is at most 60 bytes long.
proof fn lemma_record_len(kind: nat, value: Seq<u8>)
    requires
        kind < 0xfd,
        value.len() <= 40,
    ensures
        record_bytes(kind, value).len() <= 60,
{
    lemma_small_size(kind);
    lemma_small_size(value.len());
}

/// Each value of a payment that was written is read back.
proof fn lemma_info_fields(p: PaymentInfo, f: InfoFields, tail: Seq<u8>)
    ensures
        optional_bytes(p.preimage).len() <= 40,
        optional_bytes(p.secret).len() <= 40,
        p.status.bytes().len() <= 40,
        p.amt_msat.bytes().len() <= 40,
        info_field(f, 0, optional_bytes(p.preimage).len(), optional_bytes(p.preimage) + tail) == Ok::<
            _,
            DecodeError,
        >(InfoFields { preimage: Some(p.preimage), ..f }),
        info_field(f, 2, optional_bytes(p.secret).len(), optional_bytes(p.secret) + tail) == Ok::<
            _,
            DecodeError,
        >(InfoFields { secret: Some(p.secret), ..f }),
        info_field(f, 4, p.status.bytes().len(), p.status.bytes() + tail) == Ok::<_, DecodeError>(
            InfoFields { status: Some(p.status), ..f },
        ),
        info_field(f, 6, p.amt_msat.bytes().len(), p.amt_msat.bytes() + tail) == Ok::<
            _,
            DecodeError,
        >(InfoFields { amt_msat: Some(p.amt_msat), ..f }),
{
    reveal(info_field);
    let none = Seq::<u8>::empty();
    let v0 = optional_bytes(p.preimage);
    let v2 = optional_bytes(p.secret);
    let v4 = p.status.bytes();
    let v6 = p.amt_msat.bytes();
    lemma_optional_round_trip(p.preimage, none);
    lemma_optional_round_trip(p.secret, none);
    p.status.law_round_trip(none);
    p.amt_msat.law_round_trip(none);
    assert(v0 + none =~= v0);
    assert(v2 + none =~= v2);
    assert(v4 + none =~= v4);
    assert(v6 + none =~= v6);
    assert(window(v0 + tail, v0.len()) =~= v0);
    assert(window(v2 + tail, v2.len()) =~= v2);
    assert(window(v4 + tail, v4.len()) =~= v4);
    assert(window(v6 + tail, v6.len()) =~= v6);
    if p.amt_msat.0 is Some {
        lemma_be_u64(p.amt_msat.0->0);
        lemma_small_size(9);
    }
}

/// One record of a payment that was written is read back, and reading goes on behind it.
proof fn lemma_info_step(
    f: InfoFields,
    g: InfoFields,
    last: Option<u64>,
    kind: u64,
    value: Seq<u8>,
    tail: Seq<u8>,
)
    requires
        value.len() <= 40,
        last is Some ==> last->0 < kind,
        !passes_over(last, kind as nat, info_types()),
        info_field(f, kind as nat, value.len(), value + tail) == Ok::<_, DecodeError>(g),
    ensures
        info_stream(record_bytes(kind as nat, value) + tail, last, f) == info_stream(
            tail,
            Some(kind),
            g,
        ),
{
    lemma_head_round_trip(kind as nat, value, tail, last, info_types());
    law_size_round_trip(kind as nat, Seq::empty());
    law_size_round_trip(value.len(), Seq::empty());
    assert((value + tail).skip(value.len() as int) =~= tail);
}

} // verus!
