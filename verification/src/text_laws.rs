//! What holds of texts, numbers and bytes as the operator reads and types them.

use crate::hex::{hex_bytes, hex_digit_char, hex_digit_value, hex_text, is_hex_digit};
use crate::text::{
    after_first, before_first, decimal_text, digits_number, first_index, is_space,
    law_leading_spaces_are_ignored, leading_spaces, lemma_first_index_unique, lemma_words_of_run,
    no_space, number_of, second_piece, trimmed, trimmed_end, u16_of, u32_of, u64_of, words,
    NumberError,
};
use vstd::prelude::*;
use vstd::string::*;

verus! {

/// The ten digits, each at the place of its value.
pub open spec fn ten_digits() -> Seq<char> {
    seq!['0', '1', '2', '3', '4', '5', '6', '7', '8', '9']
}

/// The sixteen digits, each at the place of its value.
pub open spec fn sixteen_digits() -> Seq<char> {
    seq!['0', '1', '2', '3', '4', '5', '6', '7', '8', '9', 'a', 'b', 'c', 'd', 'e', 'f']
}

/// The sixteen digits with capital letters.
pub open spec fn sixteen_capitals() -> Seq<char> {
    seq!['0', '1', '2', '3', '4', '5', '6', '7', '8', '9', 'A', 'B', 'C', 'D', 'E', 'F']
}

/// A number is written digit by digit, the highest first and without a zero in front.
pub proof fn law_numbers_are_written_in_digits(n: nat, d: nat)
    requires
        d < 10,
    ensures
        decimal_text(d) == seq![ten_digits()[d as int]],
        n > 0 ==> decimal_text(10 * n + d) == decimal_text(n).push(ten_digits()[d as int]),
{
    if n > 0 {
        assert((10 * n + d) / 10 == n);
        assert((10 * n + d) % 10 == d);
    }
}

/// A number is written in digits alone.
pub proof fn law_numbers_are_digits_only(n: nat)
    ensures
        decimal_text(n).len() > 0,
        forall|i: int|
            0 <= i < decimal_text(n).len() ==> '0' <= #[trigger] decimal_text(n)[i] <= '9',
    decreases n,
{
    if n < 10 {
        law_numbers_are_written_in_digits(0, n);
    } else {
        law_numbers_are_digits_only(n / 10);
        law_numbers_are_written_in_digits(n / 10, n % 10);
        assert(10 * (n / 10) + n % 10 == n);
    }
}

/// A number is read digit by digit: another digit makes it ten times as large and adds its value,
/// as long as the number is not too large. A plus in front changes nothing.
pub proof fn law_numbers_are_read_by_digits(s: Seq<char>, d: nat, max: nat)
    requires
        d < 10,
        max >= 9,
    ensures
        number_of(seq![ten_digits()[d as int]], max) == Ok::<nat, NumberError>(d),
        s.len() > 0 ==> match number_of(s, max) {
            Ok(n) => number_of(s.push(ten_digits()[d as int]), max) == (if 10 * n + d <= max {
                Ok::<nat, NumberError>(10 * n + d)
            } else {
                Err(NumberError::TooLarge)
            }),
            Err(e) => s.len() > 1 ==> number_of(s.push(ten_digits()[d as int]), max) == Err::<
                nat,
                _,
            >(e),
        },
        s.len() > 0 && s[0] != '+' && s[0] != '-' ==> number_of(seq!['+'] + s, max) == number_of(
            s,
            max,
        ),
{
    let c = ten_digits()[d as int];
    let one = seq![c];
    assert(one.drop_last() =~= Seq::<char>::empty());
    assert(digits_number(one.drop_last(), max) == Ok::<nat, NumberError>(0));
    let t = s.push(c);
    assert(t.drop_last() =~= s);
    if s.len() > 0 {
        assert(t[0] == s[0]);
        assert(t.drop_first().drop_last() =~= s.drop_first());
        if s.len() == 1 && s[0] == '+' {
            assert(s.drop_first() =~= Seq::<char>::empty());
        }
        assert((seq!['+'] + s).drop_first() =~= s);
    }
}

/// What stands in the way of a number is told: a character that is no digit, if nothing stood in
/// the way before.
pub proof fn law_bad_digits_are_told(s: Seq<char>, c: char, max: nat)
    requires
        !('0' <= c <= '9'),
    ensures
        number_of(seq![c], max) == Err::<nat, _>(NumberError::InvalidDigit),
        number_of(s, max) is Ok ==> number_of(s.push(c), max) == Err::<nat, _>(
            NumberError::InvalidDigit,
        ),
        number_of(s, max) == Err::<nat, _>(NumberError::TooLarge) ==> number_of(s.push(c), max)
            == Err::<nat, _>(NumberError::TooLarge),
{
    let one = seq![c];
    assert(one.drop_last() =~= Seq::<char>::empty());
    assert(digits_number(one.drop_last(), max) == Ok::<nat, NumberError>(0));
    assert(one.drop_first() =~= Seq::<char>::empty());
    let t = s.push(c);
    assert(t.drop_last() =~= s);
    if s.len() > 0 {
        assert(t[0] == s[0]);
        assert(t.drop_first().drop_last() =~= s.drop_first());
    }
}

/// What is no number is not read as one: an empty text, a sign alone, and any text with a
/// character behind its sign that is no digit.
pub proof fn law_only_numbers_are_read(s: Seq<char>, i: int, max: nat)
    ensures
        s.len() == 0 ==> number_of(s, max) == Err::<nat, _>(NumberError::Empty),
        0 < i < s.len() && !('0' <= s[i] <= '9') ==> number_of(s, max) is Err,
        s.len() > 0 && s[0] != '+' && !('0' <= s[0] <= '9') ==> number_of(s, max) is Err,
{
    if 0 < i < s.len() && !('0' <= s[i] <= '9') {
        if s[0] == '+' {
            lemma_no_digit(s.drop_first(), i - 1, max);
        } else {
            lemma_no_digit(s, i, max);
        }
    }
    if s.len() > 0 && s[0] != '+' && !('0' <= s[0] <= '9') {
        lemma_no_digit(s, 0, max);
    }
}

proof fn lemma_no_digit(s: Seq<char>, i: int, max: nat)
    requires
        0 <= i < s.len(),
        !('0' <= s[i] <= '9'),
    ensures
        digits_number(s, max) is Err,
    decreases s.len(),
{
    if i < s.len() - 1 {
        lemma_no_digit(s.drop_last(), i, max);
    }
}

/// A number that is too large is refused, and every other one is read as it was written.
pub proof fn law_numbers_have_limits(n: nat)
    ensures
        u64_of(decimal_text(n)) == (if n <= u64::MAX {
            Ok::<u64, NumberError>(n as u64)
        } else {
            Err(NumberError::TooLarge)
        }),
        u32_of(decimal_text(n)) == (if n <= u32::MAX {
            Ok::<u32, NumberError>(n as u32)
        } else {
            Err(NumberError::TooLarge)
        }),
        u16_of(decimal_text(n)) == (if n <= u16::MAX {
            Ok::<u16, NumberError>(n as u16)
        } else {
            Err(NumberError::TooLarge)
        }),
{
    lemma_limit(n, u64::MAX as nat);
    lemma_limit(n, u32::MAX as nat);
    lemma_limit(n, u16::MAX as nat);
}

proof fn lemma_limit(n: nat, max: nat)
    requires
        max >= 9,
    ensures
        number_of(decimal_text(n), max) == (if n <= max {
            Ok::<nat, NumberError>(n)
        } else {
            Err(NumberError::TooLarge)
        }),
    decreases n,
{
    if n < 10 {
        law_numbers_are_written_in_digits(0, n);
        law_numbers_are_read_by_digits(seq![], n, max);
    } else {
        lemma_limit(n / 10, max);
        assert(10 * (n / 10) + n % 10 == n);
        law_numbers_are_written_in_digits(n / 10, n % 10);
        law_numbers_are_read_by_digits(decimal_text(n / 10), n % 10, max);
        law_numbers_are_digits_only(n / 10);
        if n / 10 > max {
            if decimal_text(n / 10).len() == 1 {
                assert(n / 10 < 10) by {
                    if n / 10 >= 10 {
                        law_numbers_are_digits_only(n / 10 / 10);
                        assert(decimal_text(n / 10).len() == decimal_text(n / 10 / 10).len() + 1);
                    }
                }
            }
        }
    }
}

/// Bytes are written in pairs of digits, the higher one first.
pub proof fn law_bytes_are_written_in_pairs(b: Seq<u8>, i: int)
    requires
        0 <= i < b.len(),
    ensures
        hex_text(b).len() == 2 * b.len(),
        hex_text(b)[2 * i] == sixteen_digits()[b[i] as int / 16],
        hex_text(b)[2 * i + 1] == sixteen_digits()[b[i] as int % 16],
{
    assert((2 * i) % 2 == 0 && (2 * i) / 2 == i);
    assert((2 * i + 1) % 2 == 1 && (2 * i + 1) / 2 == i);
    lemma_digit_places(b[i] as int / 16);
    lemma_digit_places(b[i] as int % 16);
}

proof fn lemma_digit_places(v: int)
    requires
        0 <= v < 16,
    ensures
        hex_digit_char(v) == sixteen_digits()[v],
        hex_digit_value(sixteen_digits()[v]) == v,
        hex_digit_value(sixteen_capitals()[v]) == v,
        is_hex_digit(sixteen_digits()[v]),
        is_hex_digit(sixteen_capitals()[v]),
{
}

/// Bytes are read from pairs of digits, the higher one first, with small letters or capital ones;
/// a digit left over at the end is passed over.
pub proof fn law_bytes_are_read_in_pairs(s: Seq<char>, b: Seq<u8>)
    requires
        s.len() == 2 * b.len() || s.len() == 2 * b.len() + 1,
        forall|i: int|
            #![trigger b[i]]
            0 <= i < b.len() ==> {
                &&& s[2 * i] == sixteen_digits()[b[i] as int / 16] || s[2 * i]
                    == sixteen_capitals()[b[i] as int / 16]
                &&& s[2 * i + 1] == sixteen_digits()[b[i] as int % 16] || s[2 * i + 1]
                    == sixteen_capitals()[b[i] as int % 16]
            },
        s.len() % 2 == 1 ==> sixteen_digits().contains(s.last()) || sixteen_capitals().contains(
            s.last(),
        ),
    ensures
        hex_bytes(s) == Some(b),
{
    assert forall|k: int| 0 <= k < s.len() implies is_hex_digit(#[trigger] s[k]) by {
        let i = k / 2;
        if i < b.len() {
            let v = b[i] as int;
            lemma_digit_places(v / 16);
            lemma_digit_places(v % 16);
            assert(k == 2 * i || k == 2 * i + 1);
        } else {
            assert(s[k] == s.last());
            if sixteen_digits().contains(s.last()) {
                let v = choose|v: int| 0 <= v < 16 && sixteen_digits()[v] == s.last();
                lemma_digit_places(v);
            } else {
                let v = choose|v: int| 0 <= v < 16 && sixteen_capitals()[v] == s.last();
                lemma_digit_places(v);
            }
        }
    }
    let read = hex_bytes(s)->0;
    assert forall|i: int| 0 <= i < b.len() implies #[trigger] read[i] == b[i] by {
        let v = b[i] as int;
        lemma_digit_places(v / 16);
        lemma_digit_places(v % 16);
    }
    assert(read =~= b);
}

/// A text with anything but digits in it is no bytes.
pub proof fn law_only_digits_are_bytes(s: Seq<char>, i: int)
    requires
        0 <= i < s.len(),
        !sixteen_digits().contains(s[i]),
        !sixteen_capitals().contains(s[i]),
    ensures
        hex_bytes(s) is None,
{
    if is_hex_digit(s[i]) {
        let v = hex_digit_value(s[i]);
        if 'A' <= s[i] <= 'F' {
            assert(sixteen_capitals()[v] == s[i]);
        } else {
            assert(sixteen_digits()[v] == s[i]);
        }
    }
}

/// The characters that part words.
pub open spec fn white_space() -> Seq<char> {
    seq![
        '\u{9}',
        '\u{a}',
        '\u{b}',
        '\u{c}',
        '\u{d}',
        '\u{20}',
        '\u{85}',
        '\u{a0}',
        '\u{1680}',
        '\u{2000}',
        '\u{2001}',
        '\u{2002}',
        '\u{2003}',
        '\u{2004}',
        '\u{2005}',
        '\u{2006}',
        '\u{2007}',
        '\u{2008}',
        '\u{2009}',
        '\u{200a}',
        '\u{2028}',
        '\u{2029}',
        '\u{202f}',
        '\u{205f}',
        '\u{3000}',
    ]
}

/// Words are parted by white space and by nothing else.
pub proof fn law_spaces_are_white(c: char)
    ensures
        is_space(c) <==> white_space().contains(c),
{
    let w = white_space();
    if is_space(c) {
        let n = c as u32;
        let i: int = if n <= 0x20 && n != 0x20 {
            n - 9
        } else if n == 0x20 {
            5
        } else if n == 0x85 {
            6
        } else if n == 0xa0 {
            7
        } else if n == 0x1680 {
            8
        } else if n <= 0x200a {
            9 + (n - 0x2000)
        } else if n == 0x2028 {
            20
        } else if n == 0x2029 {
            21
        } else if n == 0x202f {
            22
        } else if n == 0x205f {
            23
        } else {
            24
        };
        assert(w[i] == c);
    }
    if w.contains(c) {
        let i = choose|i: int| 0 <= i < w.len() && w[i] == c;
        assert(is_space(w[i]));
    }
}

/// Spaces, however many and wherever they stand, leave the words as they are; what stands between
/// them is a word.
pub proof fn law_spaces_part_words(run: Seq<char>, gap: Seq<char>, rest: Seq<char>)
    requires
        run.len() > 0,
        no_space(run),
        gap.len() > 0,
        forall|i: int| 0 <= i < gap.len() ==> is_space(#[trigger] gap[i]),
    ensures
        words(run) == seq![run],
        words(run + gap) == seq![run],
        words(run + gap + rest) == seq![run] + words(rest),
{
    let none = Seq::<char>::empty();
    assert(run + none =~= run);
    assert(words(none) =~= Seq::<Seq<char>>::empty());
    lemma_words_of_run(run, none);
    law_leading_spaces_are_ignored(gap, none);
    assert(gap + none =~= gap);
    assert(gap[0] == gap.first());
    lemma_words_of_run(run, gap);
    law_leading_spaces_are_ignored(gap, rest);
    assert((gap + rest)[0] == gap[0]);
    lemma_words_of_run(run, gap + rest);
    assert(run + gap + rest =~= run + (gap + rest));
    assert(seq![run] + Seq::<Seq<char>>::empty() =~= seq![run]);
}

/// A text is trimmed of the spaces around it and of nothing else.
pub proof fn law_texts_are_trimmed(lead: Seq<char>, s: Seq<char>, trail: Seq<char>)
    requires
        forall|i: int| 0 <= i < lead.len() ==> is_space(#[trigger] lead[i]),
        forall|i: int| 0 <= i < trail.len() ==> is_space(#[trigger] trail[i]),
        s.len() > 0,
        !is_space(s[0]),
        !is_space(s.last()),
    ensures
        trimmed(lead + s + trail) == s,
    decreases lead.len() + trail.len(),
{
    let t = lead + s + trail;
    lemma_lead(lead, s + trail);
    assert(t =~= lead + (s + trail));
    assert((s + trail)[0] == s[0]);
    assert(leading_spaces(s + trail) == 0);
    assert(t.skip(lead.len() as int) =~= s + trail);
    lemma_trail(s, trail);
}

proof fn lemma_lead(lead: Seq<char>, s: Seq<char>)
    requires
        forall|i: int| 0 <= i < lead.len() ==> is_space(#[trigger] lead[i]),
    ensures
        leading_spaces(lead + s) == lead.len() + leading_spaces(s),
    decreases lead.len(),
{
    if lead.len() == 0 {
        assert(lead + s =~= s);
    } else {
        assert((lead + s)[0] == lead[0]);
        assert((lead + s).drop_first() =~= lead.drop_first() + s);
        lemma_lead(lead.drop_first(), s);
    }
}

proof fn lemma_trail(s: Seq<char>, trail: Seq<char>)
    requires
        forall|i: int| 0 <= i < trail.len() ==> is_space(#[trigger] trail[i]),
        s.len() > 0,
        !is_space(s.last()),
    ensures
        trimmed_end(s + trail) == s,
    decreases trail.len(),
{
    if trail.len() == 0 {
        assert(s + trail =~= s);
    } else {
        assert((s + trail).last() == trail[trail.len() - 1]);
        assert((s + trail).drop_last() =~= s + trail.drop_last());
        lemma_trail(s, trail.drop_last());
    }
}

/// A text is cut at the first place where a character stands: what stands before, and what stands
/// behind up to the next such place, come out as they went in.
pub proof fn law_texts_are_cut(run: Seq<char>, c: char, rest: Seq<char>, more: Seq<char>)
    requires
        !run.contains(c),
        !rest.contains(c),
    ensures
        before_first(run, c) == run,
        after_first(run, c) is None,
        second_piece(run, c) is None,
        before_first(run.push(c) + more, c) == run,
        after_first(run.push(c) + more, c) == Some(more),
        second_piece(run.push(c) + rest, c) == Some(rest),
        second_piece(run.push(c) + rest.push(c) + more, c) == Some(rest),
{
    lemma_cut(run, c, more);
    lemma_cut(run, c, rest);
    lemma_cut(run, c, rest.push(c) + more);
    lemma_cut(rest, c, more);
    assert(run.push(c) + rest.push(c) + more =~= run.push(c) + (rest.push(c) + more));
}

proof fn lemma_cut(run: Seq<char>, c: char, more: Seq<char>)
    requires
        !run.contains(c),
    ensures
        first_index(run, c) == run.len(),
        before_first(run, c) == run,
        first_index(run.push(c) + more, c) == run.len(),
        before_first(run.push(c) + more, c) == run,
        after_first(run.push(c) + more, c) == Some(more),
{
    let t = run.push(c) + more;
    assert forall|i: int| 0 <= i < run.len() implies #[trigger] run[i] != c by {
        assert(run.contains(run[i]));
    }
    lemma_first_index_unique(run, c, run.len());
    assert(run.take(run.len() as int) =~= run);
    assert forall|i: int| 0 <= i < run.len() implies #[trigger] t[i] != c by {
        assert(t[i] == run[i]);
    }
    lemma_first_index_unique(t, c, run.len());
    assert(t.take(run.len() as int) =~= run);
    assert(t.skip(run.len() as int + 1) =~= more);
}

} // verus!
