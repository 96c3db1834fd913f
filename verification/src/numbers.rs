//! Reading integers and flags from text.
use crate::text;
use vstd::prelude::*;
use vstd::string::*;

verus! {

/// Why a text is not an integer of the wanted range.
#[derive(Debug, Clone, Copy, PartialEq, Eq, Structural)]
pub enum NumberError {
    Empty,
    InvalidDigit,
    TooLarge,
    TooSmall,
}

impl NumberError {
    pub open spec fn text(self) -> Seq<char> {
        match self {
            NumberError::Empty => "cannot parse integer from empty string"@,
            NumberError::InvalidDigit => "invalid digit found in string"@,
            NumberError::TooLarge => "number too large to fit in target type"@,
            NumberError::TooSmall => "number too small to fit in target type"@,
        }
    }

    pub fn message(self) -> (r: String)
        ensures
            r@ == self.text(),
    {
        match self {
            NumberError::Empty => "cannot parse integer from empty string".to_owned(),
            NumberError::InvalidDigit => "invalid digit found in string".to_owned(),
            NumberError::TooLarge => "number too large to fit in target type".to_owned(),
            NumberError::TooSmall => "number too small to fit in target type".to_owned(),
        }
    }
}

/// The number a digit stands for.
pub open spec fn digit_value(c: char) -> int {
    c as int - 48
}

/// The number that the digits `s` continue `acc` to; `beyond` as soon as it passes `max`.
pub open spec fn digits_value(
    s: Seq<char>,
    acc: int,
    max: int,
    beyond: NumberError,
) -> Result<int, NumberError>
    decreases s.len(),
{
    if s.len() == 0 {
        Ok(acc)
    } else if !('0' <= s[0] <= '9') {
        Err(NumberError::InvalidDigit)
    } else if acc * 10 + digit_value(s[0]) > max {
        Err(beyond)
    } else {
        digits_value(s.drop_first(), acc * 10 + digit_value(s[0]), max, beyond)
    }
}

/// A natural number up to `max`, with an optional `+`.
pub open spec fn natural(s: Seq<char>, max: int) -> Result<int, NumberError> {
    if s.len() == 0 {
        Err(NumberError::Empty)
    } else if s.len() > 1 && s[0] == '+' {
        digits_value(s.drop_first(), 0, max, NumberError::TooLarge)
    } else {
        digits_value(s, 0, max, NumberError::TooLarge)
    }
}

/// A 32 bit integer, with an optional sign.
pub open spec fn integer32(s: Seq<char>) -> Result<int, NumberError> {
    if s.len() > 1 && s[0] == '-' {
        match digits_value(s.drop_first(), 0, 0x8000_0000, NumberError::TooSmall) {
            Ok(n) => Ok(-n),
            Err(e) => Err(e),
        }
    } else {
        natural(s, 0x7fff_ffff)
    }
}

/// `true` or `false`, letter for letter.
pub open spec fn flag(s: Seq<char>) -> Option<bool> {
    if s == "true"@ {
        Some(true)
    } else if s == "false"@ {
        Some(false)
    } else {
        None
    }
}

/// A result with its number as an integer.
pub open spec fn as_int(r: Result<u64, NumberError>) -> Result<int, NumberError> {
    match r {
        Ok(n) => Ok(n as int),
        Err(e) => Err(e),
    }
}

fn read_digits(chars: &Vec<char>, from: usize, max: u64, beyond: NumberError) -> (r: Result<
    u64,
    NumberError,
>)
    requires
        from <= chars@.len(),
    ensures
        as_int(r) == digits_value(chars@.skip(from as int), 0, max as int, beyond),
{
    let n: usize = chars.len();
    let mut i: usize = from;
    let mut acc: u64 = 0;
    while i < n
        invariant
            n == chars@.len(),
            from <= i <= n,
            acc <= max,
            digits_value(chars@.skip(from as int), 0, max as int, beyond) == digits_value(
                chars@.skip(i as int),
                acc as int,
                max as int,
                beyond,
            ),
        decreases n - i,
    {
        let c: char = chars[i];
        assert(chars@.skip(i as int)[0] == c);
        if !('0' <= c && c <= '9') {
            return Err(NumberError::InvalidDigit);
        }
        let d: u64 = (c as u32 - 48) as u64;
        let next: u128 = acc as u128 * 10 + d as u128;
        if next > max as u128 {
            return Err(beyond);
        }
        assert(chars@.skip(i as int).drop_first() == chars@.skip(i + 1));
        acc = next as u64;
        i = i + 1;
    }
    assert(chars@.skip(i as int).len() == 0);
    Ok(acc)
}

/// A natural number up to `max`.
pub fn parse_natural(s: &str, max: u64) -> (r: Result<u64, NumberError>)
    ensures
        as_int(r) == natural(s@, max as int),
        r is Ok ==> r->Ok_0 <= max,
{
    let chars = text::chars_of(s);
    if chars.len() == 0 {
        return Err(NumberError::Empty);
    }
    proof {
        lemma_within(s@, 0, max as int, NumberError::TooLarge);
        lemma_within(s@.drop_first(), 0, max as int, NumberError::TooLarge);
        assert(s@.skip(0) == s@);
        assert(s@.skip(1) == s@.drop_first());
    }
    if chars.len() > 1 && chars[0] == '+' {
        read_digits(&chars, 1, max, NumberError::TooLarge)
    } else {
        read_digits(&chars, 0, max, NumberError::TooLarge)
    }
}

proof fn lemma_within(s: Seq<char>, acc: int, max: int, beyond: NumberError)
    requires
        0 <= acc <= max,
    ensures
        digits_value(s, acc, max, beyond) matches Ok(n) ==> 0 <= n <= max,
    decreases s.len(),
{
    if s.len() > 0 && '0' <= s[0] <= '9' && acc * 10 + digit_value(s[0]) <= max {
        lemma_within(s.drop_first(), acc * 10 + digit_value(s[0]), max, beyond);
    }
}

/// A 32 bit integer.
pub fn parse_integer32(s: &str) -> (r: Result<i32, NumberError>)
    ensures
        match r {
            Ok(n) => integer32(s@) == Ok::<int, NumberError>(n as int),
            Err(e) => integer32(s@) == Err::<int, NumberError>(e),
        },
{
    let chars = text::chars_of(s);
    if chars.len() > 1 && chars[0] == '-' {
        proof {
            lemma_within(s@.drop_first(), 0, 0x8000_0000, NumberError::TooSmall);
            assert(s@.skip(1) == s@.drop_first());
        }
        match read_digits(&chars, 1, 0x8000_0000, NumberError::TooSmall) {
            Ok(n) => Ok((-(n as i64)) as i32),
            Err(e) => Err(e),
        }
    } else {
        match parse_natural(s, 0x7fff_ffff) {
            Ok(n) => Ok(n as i32),
            Err(e) => Err(e),
        }
    }
}

/// `true` or `false`.
pub fn parse_flag(s: &str) -> (r: Option<bool>)
    ensures
        r == flag(s@),
{
    if text::same(s, "true") {
        Some(true)
    } else if text::same(s, "false") {
        Some(false)
    } else {
        None
    }
}

/// Digits go on from what stands before them.
proof fn lemma_digits_behind(s: Seq<char>, t: Seq<char>, acc: int, max: int, beyond: NumberError)
    ensures
        digits_value(s, acc, max, beyond) matches Ok(n) ==> digits_value(s + t, acc, max, beyond)
            == digits_value(t, n, max, beyond),
        digits_value(s, acc, max, beyond) matches Err(e) ==> digits_value(s + t, acc, max, beyond)
            == Err::<int, NumberError>(e),
    decreases s.len(),
{
    if s.len() == 0 {
        assert(s + t == t);
    } else if '0' <= s[0] <= '9' && acc * 10 + digit_value(s[0]) <= max {
        lemma_digits_behind(s.drop_first(), t, acc * 10 + digit_value(s[0]), max, beyond);
        assert((s + t).drop_first() == s.drop_first() + t);
        assert((s + t)[0] == s[0]);
    } else {
        assert((s + t)[0] == s[0]);
    }
}

proof fn lemma_reads_back(n: nat, max: int, beyond: NumberError)
    requires
        max >= 0,
    ensures
        n <= max ==> digits_value(text::decimal(n), 0, max, beyond) == Ok::<int, NumberError>(
            n as int,
        ),
        n > max ==> digits_value(text::decimal(n), 0, max, beyond) == Err::<int, NumberError>(
            beyond,
        ),
    decreases n,
{
    let last = seq![text::digit(n % 10)];
    assert(last.drop_first().len() == 0);
    assert(last[0] == text::digit(n % 10));
    if n < 10 {
        assert(text::decimal(n) == last);
        assert(n <= max ==> digits_value(last.drop_first(), n as int, max, beyond) == Ok::<
            int,
            NumberError,
        >(n as int));
    } else {
        lemma_reads_back(n / 10, max, beyond);
        lemma_digits_behind(text::decimal(n / 10), last, 0, max, beyond);
        assert(text::decimal(n) == text::decimal(n / 10) + last);
        assert(n <= max ==> digits_value(last.drop_first(), n as int, max, beyond) == Ok::<
            int,
            NumberError,
        >(n as int));
    }
}

/// Reading a number gives back the number that was written, with or without a plus before it, and
/// refuses one that is too large.
pub proof fn written_numbers_read_back(n: nat, max: int)
    requires
        max >= 0,
    ensures
        n <= max ==> natural(text::decimal(n), max) == Ok::<int, NumberError>(n as int),
        n <= max ==> natural(seq!['+'] + text::decimal(n), max) == Ok::<int, NumberError>(
            n as int,
        ),
        n > max ==> natural(text::decimal(n), max) == Err::<int, NumberError>(
            NumberError::TooLarge,
        ),
{
    text::lemma_decimal_digits(n);
    lemma_reads_back(n, max, NumberError::TooLarge);
    assert('0' <= text::decimal(n)[0]);
    assert((seq!['+'] + text::decimal(n)).drop_first() == text::decimal(n));
}

/// So it is with integers of 32 bits, which may have a minus before them.
pub proof fn written_integers_read_back(n: nat)
    ensures
        n <= 2147483647 ==> integer32(text::decimal(n)) == Ok::<int, NumberError>(n as int),
        n > 2147483647 ==> integer32(text::decimal(n)) == Err::<int, NumberError>(
            NumberError::TooLarge,
        ),
        n <= 2147483648 ==> integer32(seq!['-'] + text::decimal(n)) == Ok::<int, NumberError>(
            -(n as int),
        ),
        n > 2147483648 ==> integer32(seq!['-'] + text::decimal(n)) == Err::<int, NumberError>(
            NumberError::TooSmall,
        ),
{
    text::lemma_decimal_digits(n);
    written_numbers_read_back(n, 0x7fff_ffff);
    lemma_reads_back(n, 0x8000_0000, NumberError::TooSmall);
    assert('0' <= text::decimal(n)[0]);
    assert((seq!['-'] + text::decimal(n)).drop_first() == text::decimal(n));
}

proof fn lemma_digits_only(s: Seq<char>, acc: int, max: int, beyond: NumberError)
    ensures
        digits_value(s, acc, max, beyond) is Ok ==> forall|i: int|
            0 <= i < s.len() ==> '0' <= #[trigger] s[i] <= '9',
    decreases s.len(),
{
    if s.len() > 0 && '0' <= s[0] <= '9' && acc * 10 + digit_value(s[0]) <= max {
        let t = s.drop_first();
        lemma_digits_only(t, acc * 10 + digit_value(s[0]), max, beyond);
        if digits_value(s, acc, max, beyond) is Ok {
            assert forall|i: int| 0 <= i < s.len() implies '0' <= #[trigger] s[i] <= '9' by {
                if i > 0 {
                    assert(s[i] == t[i - 1]);
                }
            }
        }
    }
}

/// Nothing but digits reads as a number, behind one sign at most; nothing reads as no number; and
/// a number that reads is within its bounds.
pub proof fn only_digits_read_as_numbers(s: Seq<char>, max: int)
    requires
        max >= 0,
    ensures
        natural(s, max) is Ok ==> s.len() > 0 && forall|i: int|
            1 <= i < s.len() ==> '0' <= #[trigger] s[i] <= '9',
        natural(s, max) is Ok && s[0] != '+' ==> '0' <= s[0] <= '9',
        natural(s, max) matches Ok(n) ==> 0 <= n <= max,
        natural(Seq::empty(), max) == Err::<int, NumberError>(NumberError::Empty),
        natural(seq!['+'], max) == Err::<int, NumberError>(NumberError::InvalidDigit),
        integer32(seq!['-']) == Err::<int, NumberError>(NumberError::InvalidDigit),
{
    let t = s.drop_first();
    lemma_digits_only(s, 0, max, NumberError::TooLarge);
    lemma_within(s, 0, max, NumberError::TooLarge);
    if s.len() > 0 {
        lemma_digits_only(t, 0, max, NumberError::TooLarge);
        lemma_within(t, 0, max, NumberError::TooLarge);
        if s.len() > 1 && s[0] == '+' && natural(s, max) is Ok {
            assert forall|i: int| 1 <= i < s.len() implies '0' <= #[trigger] s[i] <= '9' by {
                assert(s[i] == t[i - 1]);
            }
        }
    }
}

/// A flag is the word for it, and nothing else is a flag.
pub proof fn flags_are_words(s: Seq<char>)
    ensures
        flag("true"@) == Some(true),
        flag("false"@) == Some(false),
        flag(s) is Some ==> s == "true"@ || s == "false"@,
{
    reveal_strlit("true");
    reveal_strlit("false");
    assert("true"@.len() != "false"@.len());
}

} // verus!
