//! Numbers as decimal numerals, written and read.

use vstd::prelude::*;

verus! {

/// The character of the decimal digit `d`, `d < 10`.
pub open spec fn digit_char(d: nat) -> char {
    ('0' as u32 as int + d) as char
}

/// The decimal numeral of `n`, without sign and without leading zeros.
pub open spec fn decimal(n: nat) -> Seq<char>
    decreases n,
{
    if n < 10 {
        seq![digit_char(n)]
    } else {
        decimal(n / 10).push(digit_char(n % 10))
    }
}

/// The number that a decimal digit stands for.
pub open spec fn digit_value(c: char) -> Option<nat> {
    if '0' <= c <= '9' {
        Some((c as u32 as int - '0' as u32 as int) as nat)
    } else {
        None
    }
}

/// The number that `s` spells in decimal digits, if it is made of such digits
/// and of nothing else. Zeros in front do not count.
pub open spec fn decimal_value(s: Seq<char>) -> Option<nat>
    decreases s.len(),
{
    if s.len() == 0 {
        None
    } else {
        match digit_value(s.last()) {
            None => None,
            Some(digit) => if s.len() == 1 {
                Some(digit)
            } else {
                match decimal_value(s.drop_last()) {
                    Some(value) => Some(10 * value + digit),
                    None => None,
                }
            },
        }
    }
}

/// Appends the decimal numeral of `n` to `text`.
pub fn push_decimal(text: &mut String, n: u64)
    ensures
        final(text)@ == old(text)@ + decimal(n as nat),
    decreases n,
{
    if n >= 10 {
        push_decimal(text, n / 10);
    }
    let d: u8 = (n % 10) as u8;
    text.push((48 + d) as char);
}

/// The decimal numeral of `n`.
pub fn decimal_text(n: u64) -> (text: String)
    ensures
        text@ == decimal(n as nat),
{
    let mut text = String::new();
    push_decimal(&mut text, n);
    text
}

/// Where digits spell a number, the first of them spell a number too, and
/// no greater one.
proof fn lemma_decimal_value_grows(s: Seq<char>, shorter: int)
    requires
        1 <= shorter <= s.len(),
        decimal_value(s) is Some,
    ensures
        decimal_value(s.take(shorter)) is Some,
        decimal_value(s.take(shorter))->0 <= decimal_value(s)->0,
    decreases s.len(),
{
    if shorter == s.len() {
        assert(s.take(shorter) =~= s);
    } else {
        assert(s.drop_last().take(shorter) =~= s.take(shorter));
        lemma_decimal_value_grows(s.drop_last(), shorter);
    }
}

/// The number that `word` spells in decimal digits, if it spells one and the
/// number is no greater than `u64::MAX`.
pub fn read_decimal(word: &[char]) -> (number: Option<u64>)
    ensures
        number is Some <==> decimal_value(word@) is Some && decimal_value(word@)->0 <= u64::MAX,
        number matches Some(value) ==> decimal_value(word@) == Some(value as nat),
{
    let n: usize = word.len();
    if n == 0 {
        return None;
    }
    let mut value: u64 = 0;
    let mut i: usize = 0;
    while i < n
        invariant
            i <= n,
            n == word@.len(),
            i > 0 ==> decimal_value(word@.take(i as int)) == Some(value as nat),
            i == 0 ==> value == 0,
        decreases n - i,
    {
        let c = word[i];
        let ghost longer = word@.take(i + 1);
        proof {
            assert(longer.drop_last() =~= word@.take(i as int));
            if decimal_value(word@) is Some {
                lemma_decimal_value_grows(word@, i + 1);
            }
        }
        if !('0' <= c && c <= '9') {
            return None;
        }
        let digit: u64 = (c as u8 - 48) as u64;
        if value > (u64::MAX - digit) / 10 {
            return None;
        }
        value = 10 * value + digit;
        i += 1;
    }
    assert(word@.take(n as int) =~= word@);
    Some(value)
}

/// A decimal numeral has a digit.
proof fn lemma_decimal_nonempty(n: nat)
    ensures
        decimal(n).len() >= 1,
    decreases n,
{
    if n >= 10 {
        lemma_decimal_nonempty(n / 10);
    }
}

/// The decimal numeral of a number spells that number.
pub proof fn lemma_decimal_spells(n: nat)
    ensures
        decimal_value(decimal(n)) == Some(n),
    decreases n,
{
    if n >= 10 {
        lemma_decimal_spells(n / 10);
        assert(decimal(n).drop_last() =~= decimal(n / 10));
        lemma_decimal_nonempty(n / 10);
    }
}

} // verus!
