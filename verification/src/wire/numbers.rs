//! Numbers: how a number stands in a record, and how it is read back.

use vstd::prelude::*;
use crate::text::push_char;

verus! {

/// The digit for a number below ten.
pub open spec fn digit(n: int) -> char {
    if n == 0 {
        '0'
    } else if n == 1 {
        '1'
    } else if n == 2 {
        '2'
    } else if n == 3 {
        '3'
    } else if n == 4 {
        '4'
    } else if n == 5 {
        '5'
    } else if n == 6 {
        '6'
    } else if n == 7 {
        '7'
    } else if n == 8 {
        '8'
    } else {
        '9'
    }
}

/// A number as it stands in a record: in decimal digits, the highest first,
/// with no zero in front of another digit.
pub open spec fn decimal(n: nat) -> Seq<char>
    decreases n,
{
    if n < 10 {
        seq![digit(n as int)]
    } else {
        decimal(n / 10).push(digit((n % 10) as int))
    }
}

/// The number that a decimal digit stands for.
pub open spec fn digit_value(c: char) -> Option<nat> {
    if c == '0' {
        Some(0)
    } else if c == '1' {
        Some(1)
    } else if c == '2' {
        Some(2)
    } else if c == '3' {
        Some(3)
    } else if c == '4' {
        Some(4)
    } else if c == '5' {
        Some(5)
    } else if c == '6' {
        Some(6)
    } else if c == '7' {
        Some(7)
    } else if c == '8' {
        Some(8)
    } else if c == '9' {
        Some(9)
    } else {
        None
    }
}

/// Whether the input begins with something other than a digit, or is empty.
pub open spec fn ends_number(input: Seq<char>) -> bool {
    input.len() == 0 || digit_value(input[0]) is None
}

/// Reads the digits at the head of the input: the number that they make
/// behind the digits of `read`, and what follows them.
pub closed spec fn digits(input: Seq<char>, read: nat) -> (nat, Seq<char>)
    decreases input.len(),
{
    if input.len() > 0 && digit_value(input[0]) is Some {
        digits(input.skip(1), read * 10 + digit_value(input[0])->0)
    } else {
        (read, input)
    }
}

/// Reads a number at the head of the input: the number, and what follows
/// its digits. `None` where there is no digit, where a zero stands in front
/// of another digit, and where the number is too large for 64 bits.
pub closed spec fn number_at(input: Seq<char>) -> Option<(nat, Seq<char>)> {
    if input.len() == 0 || digit_value(input[0]) is None {
        None
    } else if input[0] == '0' && input.len() > 1 && digit_value(input[1]) is Some {
        None
    } else if digits(input, 0).0 > u64::MAX {
        None
    } else {
        Some(digits(input, 0))
    }
}

/// The number made by the digits of `read` followed by those of `n`.
spec fn joined(read: nat, n: nat) -> nat
    decreases n,
{
    if n < 10 {
        read * 10 + n
    } else {
        joined(read, n / 10) * 10 + n % 10
    }
}

/// Reading more digits never makes the number smaller.
proof fn lemma_digits_grow(input: Seq<char>, read: nat)
    ensures
        digits(input, read).0 >= read,
    decreases input.len(),
{
    if input.len() > 0 && digit_value(input[0]) is Some {
        lemma_digits_grow(input.skip(1), read * 10 + digit_value(input[0])->0);
    }
}

/// Reading the digits of `n` comes to reading what follows them, with `n`
/// joined to what was read before.
proof fn lemma_digits_of_decimal(n: nat, read: nat, tail: Seq<char>)
    ensures
        digits(decimal(n) + tail, read) == digits(tail, joined(read, n)),
    decreases n,
{
    if n < 10 {
        let input = decimal(n) + tail;
        assert(input[0] == digit(n as int));
        assert(digit_value(digit(n as int)) == Some(n));
        assert(input.skip(1) =~= tail);
    } else {
        let last = digit((n % 10) as int);
        let longer = seq![last] + tail;
        assert(decimal(n) + tail =~= decimal(n / 10) + longer);
        lemma_digits_of_decimal(n / 10, read, longer);
        assert(longer[0] == last);
        assert(digit_value(last) == Some(n % 10));
        assert(longer.skip(1) =~= tail);
    }
}

/// Joining a number to nothing gives the number.
proof fn lemma_joined_to_nothing(n: nat)
    ensures
        joined(0, n) == n,
    decreases n,
{
    if n >= 10 {
        lemma_joined_to_nothing(n / 10);
    }
}

/// A number stands with at least one digit, all of them digits, and begins
/// with a zero only if it is zero.
pub proof fn lemma_decimal_shape(n: nat)
    ensures
        decimal(n).len() >= 1,
        digit_value(decimal(n)[0]) is Some,
        n > 0 ==> decimal(n)[0] != '0',
        n >= 10 ==> decimal(n).len() >= 2 && digit_value(decimal(n)[1]) is Some,
        n < 10 ==> decimal(n).len() == 1,
        forall|k: int| 0 <= k < decimal(n).len() ==> digit_value(#[trigger] decimal(n)[k]) is Some,
    decreases n,
{
    if n < 10 {
        assert(digit_value(digit(n as int)) == Some(n));
    } else {
        lemma_decimal_shape(n / 10);
        let shorter = decimal(n / 10);
        let last = digit((n % 10) as int);
        assert(digit_value(last) == Some(n % 10));
        assert(decimal(n)[0] == shorter[0]);
        if n / 10 >= 10 {
            assert(decimal(n)[1] == shorter[1]);
        } else {
            assert(decimal(n)[1] == last);
        }
        assert forall|k: int| 0 <= k < decimal(n).len() implies digit_value(
            #[trigger] decimal(n)[k],
        ) is Some by {
            if k < shorter.len() {
                assert(decimal(n)[k] == shorter[k]);
            }
        }
    }
}

/// A number holds no control character.
pub proof fn lemma_decimal_is_plain(n: nat)
    ensures
        crate::wire::strings::is_plain(decimal(n)),
{
    lemma_decimal_shape(n);
    assert forall|k: int| 0 <= k < decimal(n).len() implies (#[trigger] decimal(n)[k] as int)
        >= 0x20 by {
        assert(digit_value(decimal(n)[k]) is Some);
    }
}

/// A number that fits in 64 bits, followed by anything but a digit, reads
/// back as the number and leaves what follows.
pub proof fn lemma_number_round_trip(n: nat, tail: Seq<char>)
    requires
        n <= u64::MAX,
        ends_number(tail),
    ensures
        number_at(decimal(n) + tail) == Some((n, tail)),
{
    let input = decimal(n) + tail;
    lemma_decimal_shape(n);
    lemma_digits_of_decimal(n, 0, tail);
    lemma_joined_to_nothing(n);
    assert(input[0] == decimal(n)[0]);
    if n >= 10 {
        assert(input[1] == decimal(n)[1]);
    } else if input.len() > 1 {
        assert(input[1] == tail[0]);
    }
}

/// The digit for a number below ten.
fn digit_char(n: u64) -> (c: char)
    requires
        n < 10,
    ensures
        c == digit(n as int),
{
    if n == 0 {
        '0'
    } else if n == 1 {
        '1'
    } else if n == 2 {
        '2'
    } else if n == 3 {
        '3'
    } else if n == 4 {
        '4'
    } else if n == 5 {
        '5'
    } else if n == 6 {
        '6'
    } else if n == 7 {
        '7'
    } else if n == 8 {
        '8'
    } else {
        '9'
    }
}

/// The number that a decimal digit stands for.
pub(crate) fn digit_number(c: char) -> (n: Option<u64>)
    ensures
        match n {
            Some(n) => digit_value(c) == Some(n as nat) && n < 10,
            None => digit_value(c) is None,
        },
{
    if c == '0' {
        Some(0)
    } else if c == '1' {
        Some(1)
    } else if c == '2' {
        Some(2)
    } else if c == '3' {
        Some(3)
    } else if c == '4' {
        Some(4)
    } else if c == '5' {
        Some(5)
    } else if c == '6' {
        Some(6)
    } else if c == '7' {
        Some(7)
    } else if c == '8' {
        Some(8)
    } else if c == '9' {
        Some(9)
    } else {
        None
    }
}

/// Appends a number to a record.
pub(crate) fn push_decimal(out: &mut String, n: u64)
    ensures
        final(out)@ == old(out)@ + decimal(n as nat),
    decreases n,
{
    if n >= 10 {
        push_decimal(out, n / 10);
    }
    push_char(out, digit_char(n % 10));
    assert(out@ =~= old(out)@ + decimal(n as nat));
}

/// Reads a number that begins at `start`: the number, and the position
/// behind its last digit.
pub(crate) fn parse_number(text: &Vec<char>, start: usize) -> (found: Option<(u64, usize)>)
    requires
        start <= text.len(),
    ensures
        match found {
            Some((n, next)) => start < next <= text.len() && number_at(text@.skip(start as int))
                == Some((n as nat, text@.skip(next as int))),
            None => number_at(text@.skip(start as int)) is None,
        },
{
    let ghost whole = text@.skip(start as int);
    if start >= text.len() {
        return None;
    }
    assert(whole[0] == text@[start as int]);
    if digit_number(text[start]).is_none() {
        return None;
    }
    if text[start] == '0' && text.len() - start > 1 {
        assert(whole[1] == text@[start as int + 1]);
        if digit_number(text[start + 1]).is_some() {
            return None;
        }
    }
    let mut value: u64 = 0;
    let mut at: usize = start;
    loop
        invariant
            start <= at <= text.len(),
            at == start ==> value == 0,
            digits(text@.skip(at as int), value as nat) == digits(whole, 0),
            whole == text@.skip(start as int),
            start < text.len(),
            digit_value(text@[start as int]) is Some,
        ensures
            start < at <= text.len(),
            digits(whole, 0) == (value as nat, text@.skip(at as int)),
        decreases text.len() - at,
    {
        let ghost input = text@.skip(at as int);
        if at >= text.len() {
            break;
        }
        assert(input[0] == text@[at as int]);
        match digit_number(text[at]) {
            None => {
                break;
            },
            Some(d) => {
                assert(input.skip(1) =~= text@.skip(at as int + 1));
                if value > (u64::MAX - d) / 10 {
                    proof {
                        lemma_digits_grow(input.skip(1), value as nat * 10 + d as nat);
                    }
                    return None;
                }
                value = value * 10 + d;
                at += 1;
            },
        }
    }
    Some((value, at))
}

} // verus!
