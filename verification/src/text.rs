//! Text as the console reads and writes it: words, decimal numbers, trimmed lines.

use vstd::prelude::*;
use vstd::string::*;

verus! {

/// `String::push`: appends one character to the end of the string.
pub assume_specification[ String::push ](s: &mut String, c: char)
    ensures
        final(s)@ == old(s)@.push(c),
;

/// The characters with the Unicode property `White_Space`.
pub open spec fn is_space(c: char) -> bool {
    ||| '\u{9}' <= c <= '\u{d}'
    ||| c == ' '
    ||| c == '\u{85}'
    ||| c == '\u{a0}'
    ||| c == '\u{1680}'
    ||| '\u{2000}' <= c <= '\u{200a}'
    ||| c == '\u{2028}'
    ||| c == '\u{2029}'
    ||| c == '\u{202f}'
    ||| c == '\u{205f}'
    ||| c == '\u{3000}'
}

/// Whether the character separates words.
pub fn space(c: char) -> (r: bool)
    ensures
        r == is_space(c),
{
    ('\u{9}' <= c && c <= '\u{d}') || c == ' ' || c == '\u{85}' || c == '\u{a0}' || c == '\u{1680}'
        || ('\u{2000}' <= c && c <= '\u{200a}') || c == '\u{2028}' || c == '\u{2029}' || c
        == '\u{202f}' || c == '\u{205f}' || c == '\u{3000}'
}

/// What a list of strings holds.
pub open spec fn texts(v: Seq<String>) -> Seq<Seq<char>> {
    v.map_values(|s: String| s@)
}

/// How many characters stand before the first space.
pub open spec fn word_len(s: Seq<char>) -> nat
    decreases s.len(),
{
    if s.len() == 0 || is_space(s[0]) {
        0
    } else {
        1 + word_len(s.drop_first())
    }
}

/// The words of a line: its maximal runs of characters other than spaces, in order.
pub open spec fn words(s: Seq<char>) -> Seq<Seq<char>>
    decreases s.len(),
{
    if s.len() == 0 {
        seq![]
    } else if is_space(s[0]) {
        words(s.drop_first())
    } else {
        let n = word_len(s);
        if 0 < n <= s.len() {
            seq![s.take(n as int)] + words(s.skip(n as int))
        } else {
            seq![]
        }
    }
}

/// Whether no character of the text is a space.
pub open spec fn no_space(s: Seq<char>) -> bool {
    forall|i: int| 0 <= i < s.len() ==> !is_space(#[trigger] s[i])
}

/// `word_len` counts characters of the text, none of them a space, up to a space or the end.
proof fn lemma_word_len(s: Seq<char>)
    ensures
        word_len(s) <= s.len(),
        forall|i: int| 0 <= i < word_len(s) ==> !is_space(#[trigger] s[i]),
        word_len(s) < s.len() ==> is_space(s[word_len(s) as int]),
        s.len() > 0 && !is_space(s[0]) ==> word_len(s) > 0,
    decreases s.len(),
{
    if s.len() > 0 && !is_space(s[0]) {
        let t = s.drop_first();
        lemma_word_len(t);
        assert forall|i: int| 0 <= i < word_len(s) implies !is_space(#[trigger] s[i]) by {
            if i > 0 {
                assert(t[i - 1] == s[i]);
            }
        }
    }
}

/// A run without spaces that ends at a space or at the end of the text has its own length.
proof fn lemma_word_len_of_run(run: Seq<char>, rest: Seq<char>)
    requires
        no_space(run),
        rest.len() == 0 || is_space(rest[0]),
    ensures
        word_len(run + rest) == run.len(),
    decreases run.len(),
{
    let s = run + rest;
    if run.len() > 0 {
        assert(s[0] == run[0]);
        assert(s.drop_first() =~= run.drop_first() + rest);
        lemma_word_len_of_run(run.drop_first(), rest);
    } else {
        assert(s =~= rest);
    }
}

/// The first word of a text that begins with a run without spaces.
pub proof fn lemma_words_of_run(run: Seq<char>, rest: Seq<char>)
    requires
        run.len() > 0,
        no_space(run),
        rest.len() == 0 || is_space(rest[0]),
    ensures
        words(run + rest) == seq![run] + words(rest),
{
    let s = run + rest;
    lemma_word_len_of_run(run, rest);
    assert(s[0] == run[0]);
    assert(s.take(run.len() as int) =~= run);
    assert(s.skip(run.len() as int) =~= rest);
}

/// Every word is a non-empty run without spaces.
pub proof fn law_words_are_unbroken(s: Seq<char>)
    ensures
        forall|i: int|
            0 <= i < words(s).len() ==> (#[trigger] words(s)[i]).len() > 0 && no_space(words(s)[i]),
    decreases s.len(),
{
    if s.len() == 0 {
    } else if is_space(s[0]) {
        law_words_are_unbroken(s.drop_first());
        assert(words(s) == words(s.drop_first()));
    } else {
        let n = word_len(s);
        lemma_word_len(s);
        let first = s.take(n as int);
        let later = words(s.skip(n as int));
        law_words_are_unbroken(s.skip(n as int));
        assert forall|i: int| 0 <= i < words(s).len() implies (#[trigger] words(s)[i]).len() > 0
            && no_space(words(s)[i]) by {
            if i == 0 {
                assert(words(s)[0] == first);
            } else {
                assert(words(s)[i] == later[i - 1]);
            }
        }
    }
}

/// Spaces in front of a line, and how many of them there are, change nothing about its words.
pub proof fn law_leading_spaces_are_ignored(lead: Seq<char>, s: Seq<char>)
    requires
        forall|i: int| 0 <= i < lead.len() ==> is_space(#[trigger] lead[i]),
    ensures
        words(lead + s) == words(s),
    decreases lead.len(),
{
    if lead.len() == 0 {
        assert(lead + s =~= s);
    } else {
        let t = lead + s;
        assert(t[0] == lead[0]);
        assert(t.drop_first() =~= lead.drop_first() + s);
        law_leading_spaces_are_ignored(lead.drop_first(), s);
    }
}

/// A run without spaces that is typed behind a line and a space is one more word of it.
pub proof fn lemma_words_appended(s: Seq<char>, run: Seq<char>)
    requires
        run.len() > 0,
        no_space(run),
    ensures
        words(s + " "@ + run) == words(s).push(run),
    decreases s.len(),
{
    reveal_strlit(" ");
    let t = s + " "@ + run;
    let none = Seq::<char>::empty();
    if s.len() == 0 {
        assert(is_space(t[0]));
        assert(t.drop_first() =~= run + none);
        lemma_words_of_run(run, none);
        assert(words(t) =~= words(s).push(run));
    } else if is_space(s[0]) {
        assert(t[0] == s[0]);
        assert(t.drop_first() =~= s.drop_first() + " "@ + run);
        lemma_words_appended(s.drop_first(), run);
    } else {
        lemma_word_len(s);
        let n = word_len(s) as int;
        let first = s.take(n);
        let rest = s.skip(n);
        let later = rest + " "@ + run;
        assert(s =~= first + rest);
        assert(t =~= first + later);
        lemma_words_of_run(first, rest);
        lemma_words_of_run(first, later);
        lemma_words_appended(rest, run);
        assert(seq![first] + words(rest).push(run) =~= (seq![first] + words(rest)).push(run));
    }
}

/// Splits a line into its words.
pub fn split_words(line: &str) -> (r: Vec<String>)
    ensures
        texts(r@) == words(line@),
{
    let cs: Vec<char> = chars_of(line);
    let mut out: Vec<String> = Vec::new();
    let mut cur: String = String::new();
    let mut i: usize = 0;
    assert(cur@ + cs@.skip(0) =~= cs@);
    assert(texts(out@) =~= Seq::<Seq<char>>::empty());
    while i < cs.len()
        invariant
            i <= cs.len(),
            cs@ == line@,
            no_space(cur@),
            words(line@) == texts(out@) + words(cur@ + cs@.skip(i as int)),
        decreases cs.len() - i,
    {
        let c: char = cs[i];
        let ghost before = cur@;
        let ghost done = texts(out@);
        let ghost rest = cs@.skip(i as int);
        assert(rest[0] == c);
        assert(rest.drop_first() =~= cs@.skip(i + 1));
        if space(c) {
            proof {
                if before.len() > 0 {
                    lemma_words_of_run(before, rest);
                } else {
                    assert(before + rest =~= rest);
                }
            }
            if cur.as_str().is_empty() {
                assert(cur@ + cs@.skip(i + 1) =~= cs@.skip(i + 1));
            } else {
                let word: String = cur;
                cur = String::new();
                out.push(word);
                assert(texts(out@) =~= done.push(before));
                assert(cur@ + cs@.skip(i + 1) =~= cs@.skip(i + 1));
                assert(done + (seq![before] + words(rest)) =~= done.push(before) + words(rest));
            }
        } else {
            cur.push(c);
            assert(cur@ + cs@.skip(i + 1) =~= before + rest);
        }
        i = i + 1;
    }
    let ghost rest = cs@.skip(i as int);
    let ghost before = cur@;
    let ghost done = texts(out@);
    assert(rest =~= Seq::<char>::empty());
    if !cur.as_str().is_empty() {
        proof {
            lemma_words_of_run(before, rest);
        }
        out.push(cur);
        assert(texts(out@) =~= done.push(before));
        assert(done + (seq![before] + words(rest)) =~= done.push(before));
    } else {
        assert(before + rest =~= rest);
        assert(words(rest) =~= Seq::<Seq<char>>::empty());
        assert(done + words(rest) =~= done);
    }
    out
}

/// The characters of a text.
pub fn chars_of(s: &str) -> (r: Vec<char>)
    ensures
        r@ == s@,
{
    let mut out: Vec<char> = Vec::new();
    for c in it: s.chars()
        invariant
            it.seq() == s@,
            out@ == s@.take(it.index() as int),
    {
        out.push(c);
    }
    assert(s@.take(s@.len() as int) =~= s@);
    out
}

/// The text made of the characters from `from` up to `to`.
pub fn string_of(cs: &Vec<char>, from: usize, to: usize) -> (r: String)
    requires
        from <= to <= cs@.len(),
    ensures
        r@ == cs@.subrange(from as int, to as int),
{
    let mut out: String = String::new();
    let mut i: usize = from;
    while i < to
        invariant
            from <= i <= to <= cs@.len(),
            out@ == cs@.subrange(from as int, i as int),
        decreases to - i,
    {
        out.push(cs[i]);
        i = i + 1;
        assert(cs@.subrange(from as int, i as int) =~= cs@.subrange(from as int, i - 1).push(
            cs@[i - 1],
        ));
    }
    out
}

/// Whether the text is exactly the given one.
pub fn text_is(s: &String, expected: &str) -> (r: bool)
    ensures
        r == (s@ == expected@),
{
    *s == expected.to_owned()
}

/// Puts two texts together.
pub fn text2(a: &str, b: &str) -> (r: String)
    ensures
        r@ == a@ + b@,
{
    let mut s: String = a.to_owned();
    s.append(b);
    s
}

/// Puts three texts together.
pub fn text3(a: &str, b: &str, c: &str) -> (r: String)
    ensures
        r@ == a@ + b@ + c@,
{
    let mut s: String = a.to_owned();
    s.append(b);
    s.append(c);
    s
}

/// Puts four texts together.
pub fn text4(a: &str, b: &str, c: &str, d: &str) -> (r: String)
    ensures
        r@ == a@ + b@ + c@ + d@,
{
    let mut s: String = text3(a, b, c);
    s.append(d);
    s
}

/// Puts five texts together.
pub fn text5(a: &str, b: &str, c: &str, d: &str, e: &str) -> (r: String)
    ensures
        r@ == a@ + b@ + c@ + d@ + e@,
{
    let mut s: String = text4(a, b, c, d);
    s.append(e);
    s
}

/// Where the character first stands in the text; its length where it stands nowhere.
pub open spec fn first_index(s: Seq<char>, c: char) -> nat
    decreases s.len(),
{
    if s.len() == 0 || s[0] == c {
        0
    } else {
        1 + first_index(s.drop_first(), c)
    }
}

/// `first_index` is the least position that holds the character.
pub proof fn lemma_first_index(s: Seq<char>, c: char)
    ensures
        first_index(s, c) <= s.len(),
        first_index(s, c) < s.len() ==> s[first_index(s, c) as int] == c,
        forall|i: int| 0 <= i < first_index(s, c) ==> #[trigger] s[i] != c,
    decreases s.len(),
{
    if s.len() > 0 && s[0] != c {
        let t = s.drop_first();
        lemma_first_index(t, c);
        assert forall|i: int| 0 <= i < first_index(s, c) implies #[trigger] s[i] != c by {
            if i > 0 {
                assert(t[i - 1] == s[i]);
            }
        }
    }
}

/// A position that holds the character, with none before it, is the first one.
pub proof fn lemma_first_index_unique(s: Seq<char>, c: char, n: nat)
    requires
        n <= s.len(),
        n < s.len() ==> s[n as int] == c,
        forall|i: int| 0 <= i < n ==> #[trigger] s[i] != c,
    ensures
        first_index(s, c) == n,
{
    lemma_first_index(s, c);
}

/// The part of the text before the first occurrence of the character, or all of it.
pub open spec fn before_first(s: Seq<char>, c: char) -> Seq<char> {
    s.take(first_index(s, c) as int)
}

/// The part of the text after the first occurrence of the character, if it occurs.
pub open spec fn after_first(s: Seq<char>, c: char) -> Option<Seq<char>> {
    if first_index(s, c) < s.len() {
        Some(s.skip(first_index(s, c) as int + 1))
    } else {
        None
    }
}

/// The second of the pieces that the text falls into at each occurrence of the character.
pub open spec fn second_piece(s: Seq<char>, c: char) -> Option<Seq<char>> {
    match after_first(s, c) {
        Some(rest) => Some(before_first(rest, c)),
        None => None,
    }
}

/// The first position at or after `from` that holds the character, or the end.
pub(crate) fn find_from(cs: &Vec<char>, from: usize, c: char) -> (r: usize)
    requires
        from <= cs@.len(),
    ensures
        from <= r <= cs@.len(),
        r - from == first_index(cs@.skip(from as int), c),
{
    let mut i: usize = from;
    while i < cs.len()
        invariant_except_break
            forall|k: int| from <= k < i ==> #[trigger] cs@[k] != c,
        invariant
            from <= i <= cs@.len(),
        ensures
            forall|k: int| from <= k < i ==> #[trigger] cs@[k] != c,
            i < cs@.len() ==> cs@[i as int] == c,
        decreases cs.len() - i,
    {
        if cs[i] == c {
            break;
        }
        i = i + 1;
    }
    proof {
        let t = cs@.skip(from as int);
        assert forall|k: int| 0 <= k < i - from implies #[trigger] t[k] != c by {
            assert(t[k] == cs@[k + from]);
        }
        lemma_first_index_unique(t, c, (i - from) as nat);
    }
    i
}

/// Splits the text at a character and returns the first piece and, if there is one, the second.
pub fn split_pieces(s: &str, c: char) -> (r: (String, Option<String>))
    ensures
        r.0@ == before_first(s@, c),
        r.1 is Some == second_piece(s@, c) is Some,
        r.1 is Some ==> r.1->0@ == second_piece(s@, c)->0,
{
    let cs: Vec<char> = chars_of(s);
    let first: usize = find_from(&cs, 0, c);
    assert(cs@.skip(0) =~= cs@);
    let head: String = string_of(&cs, 0, first);
    assert(head@ =~= before_first(s@, c));
    if first == cs.len() {
        return (head, None);
    }
    let second: usize = find_from(&cs, first + 1, c);
    let tail: String = string_of(&cs, first + 1, second);
    assert(tail@ =~= before_first(cs@.skip(first + 1), c));
    (head, Some(tail))
}

/// The character of a decimal digit.
pub open spec fn digit_char(d: nat) -> char {
    (('0' as u32) + d) as char
}

/// The decimal digits of a number, the highest first and without leading zeros.
pub open spec fn decimal_text(n: nat) -> Seq<char>
    decreases n,
{
    if n < 10 {
        seq![digit_char(n)]
    } else {
        decimal_text(n / 10).push(digit_char(n % 10))
    }
}

/// The character of a digit below ten.
fn digit(d: u64) -> (r: char)
    requires
        d < 10,
    ensures
        r == digit_char(d as nat),
{
    let b: u8 = (d as u8) + 48u8;
    b as char
}

/// Writes a number in decimal.
pub fn decimal(n: u64) -> (r: String)
    ensures
        r@ == decimal_text(n as nat),
    decreases n,
{
    if n < 10 {
        let mut s: String = String::new();
        s.push(digit(n));
        assert(s@ =~= seq![digit_char(n as nat)]);
        s
    } else {
        let mut s: String = decimal(n / 10);
        s.push(digit(n % 10));
        s
    }
}

/// Why a text is no number of the wanted size.
#[derive(Clone, Copy, Debug, PartialEq, Eq, Structural)]
pub enum NumberError {
    /// There is nothing to read.
    Empty,
    /// Something other than a digit stands where a digit is wanted.
    InvalidDigit,
    /// The number is larger than the type can hold.
    TooLarge,
}

/// Whether the character is a decimal digit.
pub open spec fn is_digit(c: char) -> bool {
    '0' <= c <= '9'
}

/// The value of a decimal digit.
pub open spec fn digit_value(c: char) -> nat {
    (c as u32 - '0' as u32) as nat
}

/// The number that a run of digits denotes; the first character, from the left, that is no
/// digit or that takes the number above `max` decides the error.
pub open spec fn digits_number(s: Seq<char>, max: nat) -> Result<nat, NumberError>
    decreases s.len(),
{
    if s.len() == 0 {
        Ok(0)
    } else {
        match digits_number(s.drop_last(), max) {
            Err(e) => Err(e),
            Ok(v) => if !is_digit(s.last()) {
                Err(NumberError::InvalidDigit)
            } else if v * 10 + digit_value(s.last()) > max {
                Err(NumberError::TooLarge)
            } else {
                Ok(v * 10 + digit_value(s.last()))
            },
        }
    }
}

/// The number that a text denotes: digits, with at most one plus sign before them.
pub open spec fn number_of(s: Seq<char>, max: nat) -> Result<nat, NumberError> {
    if s.len() == 0 {
        Err(NumberError::Empty)
    } else if s.len() == 1 && (s[0] == '+' || s[0] == '-') {
        Err(NumberError::InvalidDigit)
    } else if s[0] == '+' {
        digits_number(s.drop_first(), max)
    } else {
        digits_number(s, max)
    }
}

/// An error in the first part of a run of digits is the error of the whole run.
proof fn lemma_digits_error(s: Seq<char>, n: int, max: nat)
    requires
        0 <= n <= s.len(),
        digits_number(s.take(n), max) is Err,
    ensures
        digits_number(s, max) == digits_number(s.take(n), max),
    decreases s.len() - n,
{
    if n < s.len() {
        assert(s.take(n + 1).drop_last() =~= s.take(n));
        lemma_digits_error(s, n + 1, max);
    } else {
        assert(s.take(n) =~= s);
    }
}

/// Reads an unsigned number no larger than `max`.
pub fn parse_number(s: &str, max: u64) -> (r: Result<u64, NumberError>)
    ensures
        r is Ok == number_of(s@, max as nat) is Ok,
        r is Ok ==> r->Ok_0 == number_of(s@, max as nat)->Ok_0,
        r is Err ==> number_of(s@, max as nat) == Err::<nat, NumberError>(r->Err_0),
{
    let cs: Vec<char> = chars_of(s);
    if cs.len() == 0 {
        return Err(NumberError::Empty);
    }
    if cs.len() == 1 && (cs[0] == '+' || cs[0] == '-') {
        return Err(NumberError::InvalidDigit);
    }
    let from: usize = if cs[0] == '+' {
        1
    } else {
        0
    };
    let ghost ds = cs@.skip(from as int);
    proof {
        assert(from == 1 ==> ds =~= s@.drop_first());
        assert(from == 0 ==> ds =~= s@);
        assert(ds.take(0) =~= Seq::<char>::empty());
    }
    let mut v: u64 = 0;
    let mut i: usize = from;
    while i < cs.len()
        invariant
            from <= i <= cs@.len(),
            cs@ == s@,
            ds == cs@.skip(from as int),
            number_of(s@, max as nat) == digits_number(ds, max as nat),
            v <= max,
            digits_number(ds.take(i - from), max as nat) == Ok::<nat, NumberError>(v as nat),
        decreases cs.len() - i,
    {
        let c: char = cs[i];
        let ghost n = i - from;
        proof {
            assert(ds.take(n + 1).drop_last() =~= ds.take(n));
            assert(ds.take(n + 1).last() == c);
        }
        if !('0' <= c && c <= '9') {
            proof {
                lemma_digits_error(ds, n + 1, max as nat);
            }
            return Err(NumberError::InvalidDigit);
        }
        let d: u64 = (c as u32 - 48u32) as u64;
        if d > max || v > max / 10 || v * 10 > max - d {
            proof {
                lemma_digits_error(ds, n + 1, max as nat);
            }
            return Err(NumberError::TooLarge);
        }
        v = v * 10 + d;
        i = i + 1;
    }
    assert(ds.take(i - from) =~= ds);
    Ok(v)
}

/// The number of 64 bits that a text denotes.
pub open spec fn u64_of(s: Seq<char>) -> Result<u64, NumberError> {
    match number_of(s, u64::MAX as nat) {
        Ok(n) => Ok(n as u64),
        Err(e) => Err(e),
    }
}

/// The number of 32 bits that a text denotes.
pub open spec fn u32_of(s: Seq<char>) -> Result<u32, NumberError> {
    match number_of(s, u32::MAX as nat) {
        Ok(n) => Ok(n as u32),
        Err(e) => Err(e),
    }
}

/// The number of 16 bits that a text denotes.
pub open spec fn u16_of(s: Seq<char>) -> Result<u16, NumberError> {
    match number_of(s, u16::MAX as nat) {
        Ok(n) => Ok(n as u16),
        Err(e) => Err(e),
    }
}

/// A number that a text denotes is no larger than it may be.
proof fn lemma_number_bound(s: Seq<char>, max: nat)
    ensures
        digits_number(s, max) is Ok ==> digits_number(s, max)->Ok_0 <= max,
{
}

/// Reads a number of 64 bits.
pub fn parse_u64(s: &str) -> (r: Result<u64, NumberError>)
    ensures
        r == u64_of(s@),
{
    parse_number(s, u64::MAX)
}

/// Reads a number of 32 bits.
pub fn parse_u32(s: &str) -> (r: Result<u32, NumberError>)
    ensures
        r == u32_of(s@),
{
    match parse_number(s, 0xffff_ffffu64) {
        Ok(n) => {
            proof {
                lemma_number_bound(s@, u32::MAX as nat);
                lemma_number_bound(s@.drop_first(), u32::MAX as nat);
            }
            Ok(n as u32)
        },
        Err(e) => Err(e),
    }
}

/// Reads a number of 16 bits.
pub fn parse_u16(s: &str) -> (r: Result<u16, NumberError>)
    ensures
        r == u16_of(s@),
{
    match parse_number(s, 0xffffu64) {
        Ok(n) => {
            proof {
                lemma_number_bound(s@, u16::MAX as nat);
                lemma_number_bound(s@.drop_first(), u16::MAX as nat);
            }
            Ok(n as u16)
        },
        Err(e) => Err(e),
    }
}

impl NumberError {
    /// What the operator is told.
    pub open spec fn text(self) -> Seq<char> {
        match self {
            NumberError::Empty => "cannot parse integer from empty string"@,
            NumberError::InvalidDigit => "invalid digit found in string"@,
            NumberError::TooLarge => "number too large to fit in target type"@,
        }
    }

    /// Says what is wrong.
    pub fn message(self) -> (r: String)
        ensures
            r@ == self.text(),
    {
        match self {
            NumberError::Empty => "cannot parse integer from empty string".to_owned(),
            NumberError::InvalidDigit => "invalid digit found in string".to_owned(),
            NumberError::TooLarge => "number too large to fit in target type".to_owned(),
        }
    }
}

/// The digit that stands for a value is read back as that value.
proof fn lemma_digit_round_trip(d: nat)
    requires
        d < 10,
    ensures
        is_digit(digit_char(d)),
        digit_value(digit_char(d)) == d,
        digit_char(d) != '+',
        digit_char(d) != '-',
{
}

/// The digits written for a number denote that number.
proof fn lemma_digits_of_decimal(n: nat, max: nat)
    requires
        n <= max,
    ensures
        digits_number(decimal_text(n), max) == Ok::<nat, NumberError>(n),
        decimal_text(n).len() > 0,
        is_digit(decimal_text(n)[0]),
    decreases n,
{
    if n < 10 {
        lemma_digit_round_trip(n);
        assert(decimal_text(n).drop_last() =~= Seq::<char>::empty());
        assert(digits_number(decimal_text(n).drop_last(), max) == Ok::<nat, NumberError>(0));
    } else {
        lemma_digits_of_decimal(n / 10, max);
        lemma_digit_round_trip(n % 10);
        assert(decimal_text(n).drop_last() =~= decimal_text(n / 10));
        assert(decimal_text(n)[0] == decimal_text(n / 10)[0]);
    }
}

/// A number that the console prints can be typed back: reading its decimal text gives it again.
pub proof fn law_decimal_round_trip(n: nat, max: nat)
    requires
        n <= max,
    ensures
        number_of(decimal_text(n), max) == Ok::<nat, NumberError>(n),
{
    lemma_digits_of_decimal(n, max);
}

/// How many spaces stand at the front of the text.
pub open spec fn leading_spaces(s: Seq<char>) -> nat
    decreases s.len(),
{
    if s.len() > 0 && is_space(s[0]) {
        1 + leading_spaces(s.drop_first())
    } else {
        0
    }
}

/// The text without the spaces at its end.
pub open spec fn trimmed_end(s: Seq<char>) -> Seq<char>
    decreases s.len(),
{
    if s.len() > 0 && is_space(s.last()) {
        trimmed_end(s.drop_last())
    } else {
        s
    }
}

/// The text without the spaces at its front and at its end.
pub open spec fn trimmed(s: Seq<char>) -> Seq<char> {
    trimmed_end(s.skip(leading_spaces(s) as int))
}

/// A front of spaces up to a character that is none is the whole front.
proof fn lemma_leading_spaces(s: Seq<char>, n: nat)
    requires
        n <= s.len(),
        n < s.len() ==> !is_space(s[n as int]),
        forall|i: int| 0 <= i < n ==> is_space(#[trigger] s[i]),
    ensures
        leading_spaces(s) == n,
    decreases n,
{
    if n > 0 {
        let t = s.drop_first();
        assert forall|i: int| 0 <= i < n - 1 implies is_space(#[trigger] t[i]) by {
            assert(t[i] == s[i + 1]);
        }
        lemma_leading_spaces(t, (n - 1) as nat);
    }
}

/// Removes the spaces at the front and at the end of a line.
pub fn trim(s: &str) -> (r: String)
    ensures
        r@ == trimmed(s@),
{
    let cs: Vec<char> = chars_of(s);
    let mut from: usize = 0;
    while from < cs.len() && space(cs[from])
        invariant
            from <= cs@.len(),
            forall|i: int| 0 <= i < from ==> is_space(#[trigger] cs@[i]),
        decreases cs.len() - from,
    {
        from = from + 1;
    }
    proof {
        lemma_leading_spaces(cs@, from as nat);
    }
    let mut to: usize = cs.len();
    assert(cs@.subrange(from as int, to as int) =~= cs@.skip(from as int));
    while from < to && space(cs[to - 1])
        invariant
            from <= to <= cs@.len(),
            trimmed_end(cs@.skip(from as int)) == trimmed_end(cs@.subrange(from as int, to as int)),
        decreases to - from,
    {
        let ghost part = cs@.subrange(from as int, to as int);
        assert(part.last() == cs@[to - 1]);
        to = to - 1;
        assert(cs@.subrange(from as int, to as int) =~= part.drop_last());
    }
    string_of(&cs, from, to)
}

} // verus!
