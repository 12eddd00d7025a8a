//! The building blocks of the record format in which the node keeps its payments on disk:
//! big-endian integers, variable-length sizes, and streams of typed records.

use vstd::prelude::*;
use vstd::slice::slice_subrange;

verus! {

/// Why some bytes could not be read.
#[derive(Clone, Copy, Debug, PartialEq, Eq, Structural)]
pub enum DecodeError {
    /// A record of an even type that the reader does not know.
    UnknownRequiredFeature,
    /// A value outside its range, a record out of order, or a missing record.
    InvalidValue,
    /// The bytes end too early.
    ShortRead,
}

/// `256` to the power of `n`.
pub open spec fn pow256(n: nat) -> nat
    decreases n,
{
    if n == 0 {
        1
    } else {
        256 * pow256((n - 1) as nat)
    }
}

/// The number that some bytes denote, the highest byte first.
pub open spec fn be_value(s: Seq<u8>) -> nat
    decreases s.len(),
{
    if s.len() == 0 {
        0
    } else {
        be_value(s.drop_last()) * 256 + s.last() as nat
    }
}

/// The last `len` bytes of a number, the highest byte first.
pub open spec fn be_bytes(n: nat, len: nat) -> Seq<u8>
    decreases len,
{
    if len == 0 {
        seq![]
    } else {
        be_bytes(n / 256, (len - 1) as nat).push((n % 256) as u8)
    }
}

/// A number of `n` bytes is below `pow256(n)`.
pub proof fn lemma_be_value_bound(s: Seq<u8>)
    ensures
        be_value(s) < pow256(s.len()),
    decreases s.len(),
{
    if s.len() > 0 {
        lemma_be_value_bound(s.drop_last());
    }
}

/// A number that fits in `len` bytes is read back from them.
pub proof fn law_be_round_trip(n: nat, len: nat)
    requires
        n < pow256(len),
    ensures
        be_bytes(n, len).len() == len,
        be_value(be_bytes(n, len)) == n,
    decreases len,
{
    if len > 0 {
        assert(n / 256 < pow256((len - 1) as nat)) by (nonlinear_arith)
            requires
                n < 256 * pow256((len - 1) as nat),
        ;
        law_be_round_trip(n / 256, (len - 1) as nat);
        assert(be_bytes(n, len).drop_last() =~= be_bytes(n / 256, (len - 1) as nat));
    }
}

/// The sizes of two, four and eight bytes.
pub proof fn lemma_pow256_values()
    ensures
        pow256(1) == 0x100,
        pow256(2) == 0x1_0000,
        pow256(4) == 0x1_0000_0000,
        pow256(8) == 0x1_0000_0000_0000_0000,
{
    reveal_with_fuel(pow256, 9);
}

/// Reading a number of `n` bytes: its value and how many bytes it took.
pub open spec fn spec_read_be(s: Seq<u8>, n: nat) -> Result<(nat, nat), DecodeError> {
    if s.len() < n {
        Err(DecodeError::ShortRead)
    } else {
        Ok((be_value(s.take(n as int)), n))
    }
}

/// Reads a number of up to eight bytes.
pub fn read_be(s: &[u8], n: usize) -> (r: Result<(u64, usize), DecodeError>)
    requires
        n <= 8,
    ensures
        r is Ok == spec_read_be(s@, n as nat) is Ok,
        r matches Ok(v) ==> spec_read_be(s@, n as nat) == Ok::<_, DecodeError>(
            (v.0 as nat, v.1 as nat),
        ),
        r matches Err(e) ==> spec_read_be(s@, n as nat) == Err::<(nat, nat), DecodeError>(e),
        r matches Ok(v) ==> v.1 <= s@.len() && v.0 < pow256(n as nat),
{
    if s.len() < n {
        return Err(DecodeError::ShortRead);
    }
    let mut v: u64 = 0;
    let mut i: usize = 0;
    assert(s@.take(0) =~= Seq::<u8>::empty());
    while i < n
        invariant
            i <= n <= 8,
            n <= s@.len(),
            v == be_value(s@.take(i as int)),
        decreases n - i,
    {
        proof {
            let now = s@.take(i + 1);
            assert(now.drop_last() =~= s@.take(i as int));
            lemma_be_value_bound(now);
            assert(pow256((i + 1) as nat) <= 0x1_0000_0000_0000_0000) by {
                reveal_with_fuel(pow256, 9);
            }
        }
        v = v * 256 + s[i] as u64;
        i = i + 1;
    }
    proof {
        lemma_be_value_bound(s@.take(n as int));
    }
    Ok((v, n))
}

/// Appends a number of `n` bytes.
pub fn write_be(out: &mut Vec<u8>, v: u64, n: usize)
    requires
        n <= 8,
    ensures
        final(out)@ == old(out)@ + be_bytes(v as nat, n as nat),
    decreases n,
{
    if n > 0 {
        write_be(out, v / 256, n - 1);
        let b: u64 = v % 256;
        out.push(b as u8);
        assert(out@ =~= old(out)@ + be_bytes(v as nat, n as nat));
    } else {
        assert(out@ =~= old(out)@ + be_bytes(v as nat, n as nat));
    }
}

/// Appends the given bytes.
pub fn write_bytes(out: &mut Vec<u8>, bytes: &[u8])
    ensures
        final(out)@ == old(out)@ + bytes@,
{
    let mut i: usize = 0;
    assert(out@ =~= old(out)@ + bytes@.take(0));
    while i < bytes.len()
        invariant
            i <= bytes@.len(),
            out@ == old(out)@ + bytes@.take(i as int),
        decreases bytes.len() - i,
    {
        out.push(bytes[i]);
        i = i + 1;
        assert(bytes@.take(i as int) =~= bytes@.take(i - 1).push(bytes@[i - 1]));
        assert(out@ =~= old(out)@ + bytes@.take(i as int));
    }
    assert(bytes@.take(i as int) =~= bytes@);
}

/// The bytes of a size: one for a small number, else a marker and two, four or eight bytes.
#[verifier::opaque]
pub open spec fn size_bytes(n: nat) -> Seq<u8> {
    if n < 0xfd {
        seq![n as u8]
    } else if n < 0x1_0000 {
        seq![0xfdu8] + be_bytes(n, 2)
    } else if n < 0x1_0000_0000 {
        seq![0xfeu8] + be_bytes(n, 4)
    } else {
        seq![0xffu8] + be_bytes(n, 8)
    }
}

/// Reading the part of a size after its marker: a number that fits in fewer bytes is refused.
pub open spec fn spec_read_long_size(s: Seq<u8>, n: nat, least: nat) -> Result<
    (nat, nat),
    DecodeError,
> {
    match spec_read_be(s.skip(1), n) {
        Err(e) => Err(e),
        Ok(v) => if v.0 < least {
            Err(DecodeError::InvalidValue)
        } else {
            Ok((v.0, n + 1))
        },
    }
}

/// Reading a size: its value and how many bytes it took.
#[verifier::opaque]
pub open spec fn spec_read_size(s: Seq<u8>) -> Result<(nat, nat), DecodeError> {
    if s.len() == 0 {
        Err(DecodeError::ShortRead)
    } else if s[0] == 0xff {
        spec_read_long_size(s, 8, 0x1_0000_0000)
    } else if s[0] == 0xfe {
        spec_read_long_size(s, 4, 0x1_0000)
    } else if s[0] == 0xfd {
        spec_read_long_size(s, 2, 0xfd)
    } else {
        Ok((s[0] as nat, 1))
    }
}

/// Reads the part of a size after its marker.
fn read_long_size(s: &[u8], n: usize, least: u64) -> (r: Result<(u64, usize), DecodeError>)
    requires
        n <= 8,
        s@.len() > 0,
    ensures
        r is Ok == spec_read_long_size(s@, n as nat, least as nat) is Ok,
        r matches Ok(v) ==> spec_read_long_size(s@, n as nat, least as nat) == Ok::<_, DecodeError>(
            (v.0 as nat, v.1 as nat),
        ),
        r matches Err(e) ==> spec_read_long_size(s@, n as nat, least as nat) == Err::<
            (nat, nat),
            DecodeError,
        >(e),
        r matches Ok(v) ==> v.1 <= s@.len(),
{
    let rest: &[u8] = slice_subrange(s, 1, s.len());
    assert(rest@ =~= s@.skip(1));
    match read_be(rest, n) {
        Err(e) => Err(e),
        Ok(v) => if v.0 < least {
            Err(DecodeError::InvalidValue)
        } else {
            Ok((v.0, n + 1))
        },
    }
}

/// Reads a size.
pub fn read_size(s: &[u8]) -> (r: Result<(u64, usize), DecodeError>)
    ensures
        r is Ok == spec_read_size(s@) is Ok,
        r matches Ok(v) ==> spec_read_size(s@) == Ok::<_, DecodeError>((v.0 as nat, v.1 as nat)),
        r matches Err(e) ==> spec_read_size(s@) == Err::<(nat, nat), DecodeError>(e),
        r matches Ok(v) ==> 0 < v.1 <= s@.len(),
{
    reveal(spec_read_size);
    if s.len() == 0 {
        return Err(DecodeError::ShortRead);
    }
    let marker: u8 = s[0];
    if marker == 0xff {
        read_long_size(s, 8, 0x1_0000_0000)
    } else if marker == 0xfe {
        read_long_size(s, 4, 0x1_0000)
    } else if marker == 0xfd {
        read_long_size(s, 2, 0xfd)
    } else {
        Ok((marker as u64, 1))
    }
}

/// Appends a size.
pub fn write_size(out: &mut Vec<u8>, n: u64)
    ensures
        final(out)@ == old(out)@ + size_bytes(n as nat),
{
    reveal(size_bytes);
    if n < 0xfd {
        out.push(n as u8);
    } else if n < 0x1_0000 {
        out.push(0xfd);
        write_be(out, n, 2);
    } else if n < 0x1_0000_0000 {
        out.push(0xfe);
        write_be(out, n, 4);
    } else {
        out.push(0xff);
        write_be(out, n, 8);
    }
    assert(out@ =~= old(out)@ + size_bytes(n as nat));
}

/// A size that was written is read back, whatever follows it.
pub proof fn law_size_round_trip(n: nat, tail: Seq<u8>)
    requires
        n <= u64::MAX,
    ensures
        spec_read_size(size_bytes(n) + tail) == Ok::<_, DecodeError>((n, size_bytes(n).len())),
        0 < size_bytes(n).len() <= 9,
{
    reveal(size_bytes);
    reveal(spec_read_size);
    lemma_pow256_values();
    let s = size_bytes(n) + tail;
    if n < 0xfd {
    } else {
        let len: nat = if n < 0x1_0000 {
            2
        } else if n < 0x1_0000_0000 {
            4
        } else {
            8
        };
        law_be_round_trip(n, len);
        assert(s.skip(1).take(len as int) =~= be_bytes(n, len));
    }
}

/// A small number is its own size.
pub proof fn lemma_small_size(n: nat)
    requires
        n < 0xfd,
    ensures
        size_bytes(n) == seq![n as u8],
{
    reveal(size_bytes);
}

/// The bytes of the number of entries of a collection: two, or ten from `0xffff` entries on.
pub open spec fn count_bytes(n: nat) -> Seq<u8> {
    if n < 0xffff {
        be_bytes(n, 2)
    } else {
        be_bytes(0xffff, 2) + be_bytes((n - 0xffff) as nat, 8)
    }
}

/// Reading the number of entries of a collection.
pub open spec fn spec_read_count(s: Seq<u8>) -> Result<(nat, nat), DecodeError> {
    match spec_read_be(s, 2) {
        Err(e) => Err(e),
        Ok(short) => if short.0 < 0xffff {
            Ok((short.0, 2))
        } else {
            match spec_read_be(s.skip(2), 8) {
                Err(e) => Err(e),
                Ok(long) => if long.0 + 0xffff > u64::MAX {
                    Err(DecodeError::InvalidValue)
                } else {
                    Ok((long.0 + 0xffff, 10))
                },
            }
        },
    }
}

/// Reads the number of entries of a collection.
pub fn read_count(s: &[u8]) -> (r: Result<(u64, usize), DecodeError>)
    ensures
        r is Ok == spec_read_count(s@) is Ok,
        r matches Ok(v) ==> spec_read_count(s@) == Ok::<_, DecodeError>((v.0 as nat, v.1 as nat)),
        r matches Err(e) ==> spec_read_count(s@) == Err::<(nat, nat), DecodeError>(e),
        r matches Ok(v) ==> v.1 <= s@.len(),
{
    let short: (u64, usize) = match read_be(s, 2) {
        Err(e) => return Err(e),
        Ok(v) => v,
    };
    proof {
        lemma_pow256_values();
    }
    if short.0 < 0xffff {
        return Ok((short.0, 2));
    }
    let rest: &[u8] = slice_subrange(s, 2, s.len());
    assert(rest@ =~= s@.skip(2));
    match read_be(rest, 8) {
        Err(e) => Err(e),
        Ok(long) => if long.0 > u64::MAX - 0xffff {
            Err(DecodeError::InvalidValue)
        } else {
            Ok((long.0 + 0xffff, 10))
        },
    }
}

/// Appends the number of entries of a collection.
pub fn write_count(out: &mut Vec<u8>, n: u64)
    ensures
        final(out)@ == old(out)@ + count_bytes(n as nat),
{
    if n < 0xffff {
        write_be(out, n, 2);
    } else {
        write_be(out, 0xffff, 2);
        write_be(out, n - 0xffff, 8);
    }
    assert(out@ =~= old(out)@ + count_bytes(n as nat));
}

/// A number of entries that was written is read back, whatever follows it.
pub proof fn law_count_round_trip(n: nat, tail: Seq<u8>)
    requires
        n <= u64::MAX,
    ensures
        spec_read_count(count_bytes(n) + tail) == Ok::<_, DecodeError>((n, count_bytes(n).len())),
        2 <= count_bytes(n).len() <= 10,
{
    lemma_pow256_values();
    let s = count_bytes(n) + tail;
    if n < 0xffff {
        law_be_round_trip(n, 2);
        assert(s.take(2) =~= be_bytes(n, 2));
    } else {
        law_be_round_trip(0xffff, 2);
        law_be_round_trip((n - 0xffff) as nat, 8);
        assert(s.take(2) =~= be_bytes(0xffff, 2));
        assert(s.skip(2).take(8) =~= be_bytes((n - 0xffff) as nat, 8));
    }
}

/// The head of a record: its type, the length of its value, and the length of the head itself.
pub struct Head {
    /// The type of the record.
    pub kind: u64,
    /// How many bytes the record claims for its value.
    pub len: u64,
    /// How many bytes the head took.
    pub size: usize,
}

/// Whether a record of type `kind` comes too late: a required type lies between the previous
/// record and this one.
pub open spec fn passes_over(last: Option<u64>, kind: nat, required: Seq<u64>) -> bool {
    exists|k: int|
        0 <= k < required.len() && (last is None || last->0 < #[trigger] required[k]) && kind
            > required[k]
}

/// Reading the head of the next record of a stream; there is none where the stream has ended.
/// Types have to grow from record to record.
pub open spec fn spec_read_head(s: Seq<u8>, last: Option<u64>, required: Seq<u64>) -> Result<
    Option<(nat, nat, nat)>,
    DecodeError,
> {
    if s.len() == 0 {
        Ok(None)
    } else {
        match spec_read_size(s) {
            Err(e) => Err(e),
            Ok(kind) => if last is Some && kind.0 <= last->0 {
                Err(DecodeError::InvalidValue)
            } else if passes_over(last, kind.0, required) {
                Err(DecodeError::InvalidValue)
            } else {
                match spec_read_size(s.skip(kind.1 as int)) {
                    Err(e) => Err(e),
                    Ok(len) => Ok(Some((kind.0, len.0, kind.1 + len.1))),
                }
            },
        }
    }
}

/// Whether a required type lies between the previous record and this one.
fn check_passes_over(last: Option<u64>, kind: u64, required: &Vec<u64>) -> (r: bool)
    ensures
        r == passes_over(last, kind as nat, required@),
{
    let mut k: usize = 0;
    while k < required.len()
        invariant
            k <= required@.len(),
            forall|j: int|
                0 <= j < k ==> !((last is None || last->0 < #[trigger] required@[j]) && kind
                    > required@[j]),
        decreases required.len() - k,
    {
        let needed: u64 = required[k];
        let unseen: bool = match last {
            None => true,
            Some(l) => l < needed,
        };
        if unseen && kind > needed {
            assert(kind > required@[k as int]);
            return true;
        }
        k = k + 1;
    }
    false
}

/// Reads the head of the next record of a stream.
pub fn read_head(s: &[u8], last: Option<u64>, required: &Vec<u64>) -> (r: Result<
    Option<Head>,
    DecodeError,
>)
    ensures
        match r {
            Ok(None) => spec_read_head(s@, last, required@) == Ok::<_, DecodeError>(
                None::<(nat, nat, nat)>,
            ),
            Ok(Some(h)) => spec_read_head(s@, last, required@) == Ok::<_, DecodeError>(
                Some((h.kind as nat, h.len as nat, h.size as nat)),
            ) && 0 < h.size <= s@.len(),
            Err(e) => spec_read_head(s@, last, required@) == Err::<
                Option<(nat, nat, nat)>,
                DecodeError,
            >(e),
        },
{
    if s.len() == 0 {
        return Ok(None);
    }
    let kind: (u64, usize) = match read_size(s) {
        Err(e) => return Err(e),
        Ok(v) => v,
    };
    match last {
        Some(l) => {
            if kind.0 <= l {
                return Err(DecodeError::InvalidValue);
            }
        },
        None => {},
    }
    if check_passes_over(last, kind.0, required) {
        return Err(DecodeError::InvalidValue);
    }
    let rest: &[u8] = slice_subrange(s, kind.1, s.len());
    assert(rest@ =~= s@.skip(kind.1 as int));
    match read_size(rest) {
        Err(e) => Err(e),
        Ok(len) => Ok(Some(Head { kind: kind.0, len: len.0, size: kind.1 + len.1 })),
    }
}

/// The bytes that are there of a value of `len` bytes.
pub open spec fn window(rest: Seq<u8>, len: nat) -> Seq<u8> {
    if len <= rest.len() {
        rest.take(len as int)
    } else {
        rest
    }
}

/// The bytes that are there of a value of `len` bytes.
pub fn take_window(rest: &[u8], len: u64) -> (r: &[u8])
    ensures
        r@ == window(rest@, len as nat),
{
    if len <= rest.len() as u64 {
        let w: &[u8] = slice_subrange(rest, 0, len as usize);
        assert(w@ =~= rest@.take(len as int));
        w
    } else {
        rest
    }
}

/// What is wrong with a value of `len` bytes, `avail` of which are there, of which the reader
/// used `used`.
pub open spec fn value_fault(used: nat, len: nat, avail: nat) -> Option<DecodeError> {
    if used == len {
        None
    } else if avail < len {
        Some(DecodeError::ShortRead)
    } else {
        Some(DecodeError::InvalidValue)
    }
}

/// What is wrong with a value that the reader did not use up.
pub fn check_value(used: usize, len: u64, avail: usize) -> (r: Option<DecodeError>)
    ensures
        r == value_fault(used as nat, len as nat, avail as nat),
{
    if used as u64 == len {
        None
    } else if (avail as u64) < len {
        Some(DecodeError::ShortRead)
    } else {
        Some(DecodeError::InvalidValue)
    }
}

/// The bytes of a record.
pub open spec fn record_bytes(kind: nat, value: Seq<u8>) -> Seq<u8> {
    size_bytes(kind) + size_bytes(value.len()) + value
}

/// Appends a record.
pub fn write_record(out: &mut Vec<u8>, kind: u64, value: &Vec<u8>)
    ensures
        final(out)@ == old(out)@ + record_bytes(kind as nat, value@),
{
    write_size(out, kind);
    write_size(out, value.len() as u64);
    write_bytes(out, value.as_slice());
    assert(out@ =~= old(out)@ + record_bytes(kind as nat, value@));
}

/// The bytes of a stream of records behind its length.
pub open spec fn prefixed(body: Seq<u8>) -> Seq<u8> {
    size_bytes(body.len()) + body
}

/// Appends a stream of records behind its length.
pub fn write_prefixed(out: &mut Vec<u8>, body: &Vec<u8>)
    ensures
        final(out)@ == old(out)@ + prefixed(body@),
{
    write_size(out, body.len() as u64);
    write_bytes(out, body.as_slice());
    assert(out@ =~= old(out)@ + prefixed(body@));
}

/// The head of a record that was written is read back.
pub proof fn lemma_head_round_trip(
    kind: nat,
    value: Seq<u8>,
    tail: Seq<u8>,
    last: Option<u64>,
    required: Seq<u64>,
)
    requires
        kind <= u64::MAX,
        value.len() <= u64::MAX,
        last is Some ==> last->0 < kind,
        !passes_over(last, kind, required),
    ensures
        ({
            let s = record_bytes(kind, value) + tail;
            let size = size_bytes(kind).len() + size_bytes(value.len()).len();
            &&& spec_read_head(s, last, required) == Ok::<_, DecodeError>(
                Some((kind, value.len(), size)),
            )
            &&& s.skip(size as int) == value + tail
            &&& size <= s.len()
        }),
{
    let s = record_bytes(kind, value) + tail;
    let a = size_bytes(kind);
    let b = size_bytes(value.len());
    law_size_round_trip(kind, b + value + tail);
    assert(s =~= a + (b + value + tail));
    law_size_round_trip(value.len(), value + tail);
    assert(s.skip(a.len() as int) =~= b + (value + tail));
    assert(s.skip((a.len() + b.len()) as int) =~= value + tail);
}

} // verus!
