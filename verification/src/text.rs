//! Small helpers for reading and building text.

use vstd::prelude::*;
use vstd::string::*;

verus! {

/// Appends the character at `index` of `alphabet` to `text`.
pub fn push_from(text: &mut String, alphabet: &str, index: usize)
    requires
        alphabet.is_ascii(),
        index < alphabet@.len() <= usize::MAX,
    ensures
        final(text)@ == old(text)@.push(alphabet@[index as int]),
{
    text.append(alphabet.substring_ascii(index, index + 1));
}

/// The characters of `text`, in order.
pub fn chars_of(text: &str) -> (chars: Vec<char>)
    ensures
        chars@ == text@,
{
    let mut chars: Vec<char> = Vec::new();
    for c in it: text.chars()
        invariant
            it.seq() == text@,
            chars@ == it.seq().take(it.index()),
    {
        chars.push(c);
    }
    chars
}

/// Whether `c` is one of the decimal digits `0` to `9`.
pub open spec fn is_digit(c: char) -> bool {
    '0' <= c && c <= '9'
}

/// Whether `c` is a decimal digit.
pub fn is_decimal_digit(c: char) -> (yes: bool)
    ensures
        yes == is_digit(c),
{
    '0' <= c && c <= '9'
}

/// The value of a decimal digit.
pub open spec fn digit_value(c: char) -> nat {
    (c as u32 - '0' as u32) as nat
}

/// The decimal digit that stands for `d`, for `d` below ten.
pub open spec fn digit_char(d: nat) -> char {
    "0123456789"@[d as int]
}

/// Whether `text` holds decimal digits only.
pub open spec fn all_digits(text: Seq<char>) -> bool {
    forall|i: int| 0 <= i < text.len() ==> is_digit(#[trigger] text[i])
}

/// The number that a run of decimal digits stands for; zero for the empty run.
pub open spec fn decimal_value(digits: Seq<char>) -> nat
    decreases digits.len(),
{
    if digits.len() == 0 {
        0
    } else {
        decimal_value(digits.drop_last()) * 10 + digit_value(digits.last())
    }
}

/// The decimal digits of `n`, without leading zeros.
pub open spec fn decimal(n: nat) -> Seq<char>
    decreases n,
{
    if n < 10 {
        seq![digit_char(n)]
    } else {
        decimal(n / 10).push(digit_char(n % 10))
    }
}

/// A run of digits stands for at least as much as any of its prefixes.
pub proof fn lemma_decimal_value_prefix(digits: Seq<char>, k: int)
    requires
        0 <= k <= digits.len(),
    ensures
        decimal_value(digits.take(k)) <= decimal_value(digits),
    decreases digits.len() - k,
{
    if k == digits.len() {
        assert(digits.take(k) == digits);
    } else {
        lemma_decimal_value_prefix(digits.drop_last(), k);
        assert(digits.drop_last().take(k) == digits.take(k));
    }
}

/// Reading back the digits written for `n` gives `n`.
pub proof fn lemma_decimal_round_trip(n: nat)
    ensures
        all_digits(decimal(n)),
        decimal(n).len() >= 1,
        decimal_value(decimal(n)) == n,
    decreases n,
{
    reveal_strlit("0123456789");
    if n < 10 {
        assert(decimal_value(decimal(n).drop_last()) == 0);
    } else {
        lemma_decimal_round_trip(n / 10);
        assert(decimal(n).drop_last() == decimal(n / 10));
    }
}

/// Appends the decimal digits of `n` to `text`.
pub fn push_decimal(text: &mut String, n: u64)
    ensures
        final(text)@ == old(text)@ + decimal(n as nat),
    decreases n,
{
    if n >= 10 {
        push_decimal(text, n / 10);
    }
    proof {
        reveal_strlit("0123456789");
    }
    push_from(text, "0123456789", (n % 10) as usize);
}

/// The decimal digits of `n` as a string of their own.
pub fn decimal_string(n: u64) -> (text: String)
    ensures
        text@ == decimal(n as nat),
{
    let mut text = String::new();
    push_decimal(&mut text, n);
    text
}

/// Reads `chars[from..to]` as a decimal number: `None` where those
/// characters are not all digits, or stand for more than 64 bits hold.
pub fn parse_decimal(chars: &Vec<char>, from: usize, to: usize) -> (value: Option<u64>)
    requires
        from <= to <= chars.len(),
    ensures
        match value {
            Some(n) => all_digits(chars@.subrange(from as int, to as int)) && n == decimal_value(
                chars@.subrange(from as int, to as int),
            ),
            None => !all_digits(chars@.subrange(from as int, to as int)) || decimal_value(
                chars@.subrange(from as int, to as int),
            ) > u64::MAX,
        },
{
    let ghost digits = chars@.subrange(from as int, to as int);
    let mut acc: u64 = 0;
    let mut i: usize = from;
    while i < to
        invariant
            from <= i <= to <= chars.len(),
            digits == chars@.subrange(from as int, to as int),
            all_digits(digits.take(i - from)),
            acc == decimal_value(digits.take(i - from)),
        decreases to - i,
    {
        let c = chars[i];
        assert(c == digits[i - from]);
        if !is_decimal_digit(c) {
            return None;
        }
        let d = (c as u32 - '0' as u32) as u64;
        proof {
            assert(digits.take(i - from + 1) == digits.take(i - from).push(c));
            assert(digits.take(i - from + 1).drop_last() == digits.take(i - from));
            lemma_decimal_value_prefix(digits, i - from + 1);
        }
        let scaled = match acc.checked_mul(10) {
            Some(scaled) => scaled,
            None => {
                return None;
            },
        };
        acc = match scaled.checked_add(d) {
            Some(sum) => sum,
            None => {
                return None;
            },
        };
        i = i + 1;
    }
    assert(digits.take(to - from) == digits);
    Some(acc)
}

} // verus!
