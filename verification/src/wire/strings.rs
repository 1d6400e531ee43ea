//! Quoted strings: how a text stands in a record, and how it is read back.

use vstd::prelude::*;
use crate::text::{chars_of, push_char};

verus! {

/// The digit for a number below sixteen, in lower case.
pub open spec fn hex_digit(n: int) -> char {
    if n == 0 {
        '0'
    } else if n == 1 {
        '1'
    } else if n == 2 {
        '2'
    } else if n == 3 {
        '3'
    } else if n == 4 {
        '4'
    } else if n == 5 {
        '5'
    } else if n == 6 {
        '6'
    } else if n == 7 {
        '7'
    } else if n == 8 {
        '8'
    } else if n == 9 {
        '9'
    } else if n == 10 {
        'a'
    } else if n == 11 {
        'b'
    } else if n == 12 {
        'c'
    } else if n == 13 {
        'd'
    } else if n == 14 {
        'e'
    } else {
        'f'
    }
}

/// How one character stands inside quotes. The quote and the backslash get a
/// backslash in front. A control character, one below the space, is written
/// as `\u00` and its two hex digits, so that no record holds a line break.
/// Every other character stands for itself.
pub open spec fn escape_char(c: char) -> Seq<char> {
    if c == '"' {
        seq!['\\', '"']
    } else if c == '\\' {
        seq!['\\', '\\']
    } else if (c as int) < 0x20 {
        seq!['\\', 'u', '0', '0', hex_digit(c as int / 16), hex_digit(c as int % 16)]
    } else {
        seq![c]
    }
}

/// How a text stands inside quotes: character by character.
pub open spec fn escape(text: Seq<char>) -> Seq<char>
    decreases text.len(),
{
    if text.len() == 0 {
        Seq::empty()
    } else {
        escape_char(text[0]) + escape(text.skip(1))
    }
}

/// A text as it stands in a record: escaped, between quotes.
pub open spec fn quoted(text: Seq<char>) -> Seq<char> {
    seq!['"'] + escape(text) + seq!['"']
}

/// The number that a lower-case hex digit stands for.
pub closed spec fn hex_value(c: char) -> Option<int> {
    if c == '0' {
        Some(0)
    } else if c == '1' {
        Some(1)
    } else if c == '2' {
        Some(2)
    } else if c == '3' {
        Some(3)
    } else if c == '4' {
        Some(4)
    } else if c == '5' {
        Some(5)
    } else if c == '6' {
        Some(6)
    } else if c == '7' {
        Some(7)
    } else if c == '8' {
        Some(8)
    } else if c == '9' {
        Some(9)
    } else if c == 'a' {
        Some(10)
    } else if c == 'b' {
        Some(11)
    } else if c == 'c' {
        Some(12)
    } else if c == 'd' {
        Some(13)
    } else if c == 'e' {
        Some(14)
    } else if c == 'f' {
        Some(15)
    } else {
        None
    }
}

/// The control character with this code.
pub closed spec fn control_char(code: int) -> char {
    code as char
}

/// Reads the inside of a quoted string up to the closing quote: the text
/// read, behind `read`, and what follows the quote. `None` where the input
/// is no such inside.
pub closed spec fn unescape(input: Seq<char>, read: Seq<char>) -> Option<(Seq<char>, Seq<char>)>
    decreases input.len(),
{
    if input.len() == 0 {
        None
    } else if input[0] == '"' {
        Some((read, input.skip(1)))
    } else if input[0] == '\\' {
        if input.len() >= 2 && input[1] == '"' {
            unescape(input.skip(2), read.push('"'))
        } else if input.len() >= 2 && input[1] == '\\' {
            unescape(input.skip(2), read.push('\\'))
        } else if input.len() >= 6 && input[1] == 'u' && input[2] == '0' && input[3] == '0' {
            match (hex_value(input[4]), hex_value(input[5])) {
                (Some(high), Some(low)) => if high < 2 {
                    unescape(input.skip(6), read.push(control_char(high * 16 + low)))
                } else {
                    None
                },
                _ => None,
            }
        } else {
            None
        }
    } else if (input[0] as int) < 0x20 {
        None
    } else {
        unescape(input.skip(1), read.push(input[0]))
    }
}

/// Reads a quoted string at the head of the input: the text, and what
/// follows the closing quote.
pub closed spec fn string_at(input: Seq<char>) -> Option<(Seq<char>, Seq<char>)> {
    if input.len() > 0 && input[0] == '"' {
        unescape(input.skip(1), Seq::empty())
    } else {
        None
    }
}

/// A character is a number from zero up, and small enough for `u32`.
pub proof fn lemma_char_is_a_number(c: char)
    ensures
        0 <= c as int <= 0x10FFFF,
        (c as u32) as int == c as int,
{
}

/// Escaping goes character by character, so it goes part by part.
pub proof fn lemma_escape_of_parts(left: Seq<char>, right: Seq<char>)
    ensures
        escape(left + right) == escape(left) + escape(right),
    decreases left.len(),
{
    if left.len() == 0 {
        assert(left + right =~= right);
        assert(escape(left) + escape(right) =~= escape(right));
    } else {
        assert((left + right).skip(1) =~= left.skip(1) + right);
        lemma_escape_of_parts(left.skip(1), right);
        assert(escape(left + right) =~= escape(left) + escape(right));
    }
}

/// What was escaped reads back as it was: the inside of a quoted string,
/// then the quote, then anything, reads as the text and leaves what follows.
pub proof fn lemma_unescape_inverts_escape(text: Seq<char>, read: Seq<char>, tail: Seq<char>)
    ensures
        unescape(escape(text) + seq!['"'] + tail, read) == Some((read + text, tail)),
    decreases text.len(),
{
    let input = escape(text) + seq!['"'] + tail;
    if text.len() == 0 {
        assert(input =~= seq!['"'] + tail);
        assert(input.skip(1) =~= tail);
        assert(read + text =~= read);
    } else {
        let c = text[0];
        lemma_char_is_a_number(c);
        let rest = text.skip(1);
        let after = escape(rest) + seq!['"'] + tail;
        let head = escape_char(c);
        assert(input =~= head + after);
        assert(input.skip(head.len() as int) =~= after);
        lemma_unescape_inverts_escape(rest, read.push(c), tail);
        assert(read.push(c) + rest =~= read + text);
        if c == '"' {
            assert(input[0] == '\\' && input[1] == '"');
        } else if c == '\\' {
            assert(input[0] == '\\' && input[1] == '\\');
        } else if (c as int) < 0x20 {
            let code = c as int;
            assert(input[0] == '\\' && input[1] == 'u' && input[2] == '0' && input[3] == '0');
            assert(input[4] == hex_digit(code / 16));
            assert(input[5] == hex_digit(code % 16));
            assert(hex_value(hex_digit(code / 16)) == Some(code / 16));
            assert(hex_value(hex_digit(code % 16)) == Some(code % 16));
            assert((code / 16) * 16 + code % 16 == code);
            assert(control_char((code / 16) * 16 + code % 16) == c);
        } else {
            assert(input[0] == c);
        }
    }
}

/// A quoted string, followed by anything, reads back as the text and leaves
/// what follows.
pub proof fn lemma_string_round_trip(text: Seq<char>, tail: Seq<char>)
    ensures
        string_at(quoted(text) + tail) == Some((text, tail)),
{
    let input = quoted(text) + tail;
    assert(input[0] == '"');
    assert(input.skip(1) =~= escape(text) + seq!['"'] + tail);
    lemma_unescape_inverts_escape(text, Seq::empty(), tail);
    assert(Seq::<char>::empty() + text =~= text);
}

/// Whether a text holds no control character, and so no line break.
pub open spec fn is_plain(text: Seq<char>) -> bool {
    forall|k: int| 0 <= k < text.len() ==> (#[trigger] text[k] as int) >= 0x20
}

/// Plain texts put together make a plain text.
pub proof fn lemma_plain_parts(left: Seq<char>, right: Seq<char>)
    requires
        is_plain(left),
        is_plain(right),
    ensures
        is_plain(left + right),
{
    assert forall|k: int| 0 <= k < (left + right).len() implies (#[trigger] (left + right)[k]
        as int) >= 0x20 by {
        if k < left.len() {
            assert((left + right)[k] == left[k]);
        } else {
            assert((left + right)[k] == right[k - left.len()]);
        }
    }
}

/// A quoted string holds no control character, whatever the text.
pub proof fn lemma_quoted_is_plain(text: Seq<char>)
    ensures
        is_plain(quoted(text)),
{
    lemma_escape_has_no_control_char(text);
    lemma_plain_parts(seq!['"'], escape(text));
    lemma_plain_parts(seq!['"'] + escape(text), seq!['"']);
}

/// An escaped text holds no control character: no line break above all.
pub proof fn lemma_escape_has_no_control_char(text: Seq<char>)
    ensures
        is_plain(escape(text)),
    decreases text.len(),
{
    if text.len() > 0 {
        lemma_escape_has_no_control_char(text.skip(1));
        let head = escape_char(text[0]);
        let rest = escape(text.skip(1));
        lemma_char_is_a_number(text[0]);
        assert(is_plain(head)) by {
            assert forall|k: int| 0 <= k < head.len() implies (#[trigger] head[k] as int)
                >= 0x20 by {
                let code = text[0] as int;
                if code < 0x20 && text[0] != '"' && text[0] != '\\' {
                    assert(0 <= code / 16 < 2 && 0 <= code % 16 < 16);
                }
            }
        }
        lemma_plain_parts(head, rest);
    }
}

/// The digit for a number below sixteen.
fn hex_char(n: u32) -> (c: char)
    requires
        n < 16,
    ensures
        c == hex_digit(n as int),
{
    if n == 0 {
        '0'
    } else if n == 1 {
        '1'
    } else if n == 2 {
        '2'
    } else if n == 3 {
        '3'
    } else if n == 4 {
        '4'
    } else if n == 5 {
        '5'
    } else if n == 6 {
        '6'
    } else if n == 7 {
        '7'
    } else if n == 8 {
        '8'
    } else if n == 9 {
        '9'
    } else if n == 10 {
        'a'
    } else if n == 11 {
        'b'
    } else if n == 12 {
        'c'
    } else if n == 13 {
        'd'
    } else if n == 14 {
        'e'
    } else {
        'f'
    }
}

/// The number that a lower-case hex digit stands for.
fn hex_number(c: char) -> (n: Option<u8>)
    ensures
        match n {
            Some(n) => hex_value(c) == Some(n as int) && n < 16,
            None => hex_value(c) is None,
        },
{
    if c == '0' {
        Some(0)
    } else if c == '1' {
        Some(1)
    } else if c == '2' {
        Some(2)
    } else if c == '3' {
        Some(3)
    } else if c == '4' {
        Some(4)
    } else if c == '5' {
        Some(5)
    } else if c == '6' {
        Some(6)
    } else if c == '7' {
        Some(7)
    } else if c == '8' {
        Some(8)
    } else if c == '9' {
        Some(9)
    } else if c == 'a' {
        Some(10)
    } else if c == 'b' {
        Some(11)
    } else if c == 'c' {
        Some(12)
    } else if c == 'd' {
        Some(13)
    } else if c == 'e' {
        Some(14)
    } else if c == 'f' {
        Some(15)
    } else {
        None
    }
}

/// Appends a text to a record as a quoted string.
pub(crate) fn push_quoted(out: &mut String, text: &str)
    ensures
        final(out)@ == old(out)@ + quoted(text@),
{
    let chars = chars_of(text);
    push_char(out, '"');
    let mut i: usize = 0;
    assert(chars@.take(0) =~= Seq::<char>::empty());
    while i < chars.len()
        invariant
            i <= chars.len(),
            chars@ == text@,
            out@ == old(out)@ + seq!['"'] + escape(chars@.take(i as int)),
        decreases chars.len() - i,
    {
        let c = chars[i];
        let ghost before = out@;
        proof {
            lemma_char_is_a_number(c);
        }
        if c == '"' {
            push_char(out, '\\');
            push_char(out, '"');
        } else if c == '\\' {
            push_char(out, '\\');
            push_char(out, '\\');
        } else if (c as u32) < 0x20 {
            let code = c as u32;
            push_char(out, '\\');
            push_char(out, 'u');
            push_char(out, '0');
            push_char(out, '0');
            push_char(out, hex_char(code / 16));
            push_char(out, hex_char(code % 16));
        } else {
            push_char(out, c);
        }
        proof {
            assert(out@ =~= before + escape_char(c));
            let seen = chars@.take(i as int);
            assert(chars@.take(i as int + 1) =~= seen + seq![c]);
            lemma_escape_of_parts(seen, seq![c]);
            assert(escape(seq![c]) =~= escape_char(c)) by {
                assert(seq![c].skip(1) =~= Seq::<char>::empty());
                assert(escape(seq![c].skip(1)) =~= Seq::<char>::empty());
            }
            assert(out@ =~= old(out)@ + seq!['"'] + escape(chars@.take(i as int + 1)));
        }
        i += 1;
    }
    assert(chars@.take(i as int) =~= chars@);
    push_char(out, '"');
    assert(out@ =~= old(out)@ + quoted(text@));
}

/// Reads a quoted string that begins at `start`: the text, and the position
/// behind the closing quote.
pub(crate) fn parse_string(text: &Vec<char>, start: usize) -> (found: Option<(String, usize)>)
    requires
        start <= text.len(),
    ensures
        match found {
            Some((read, next)) => start < next <= text.len() && string_at(
                text@.skip(start as int),
            ) == Some((read@, text@.skip(next as int))),
            None => string_at(text@.skip(start as int)) is None,
        },
{
    if start >= text.len() || text[start] != '"' {
        return None;
    }
    let mut read = String::new();
    let mut at: usize = start + 1;
    assert(text@.skip(start as int).skip(1) =~= text@.skip(at as int));
    loop
        invariant
            start < at <= text.len(),
            unescape(text@.skip(at as int), read@) == string_at(text@.skip(start as int)),
        decreases text.len() - at,
    {
        let ghost input = text@.skip(at as int);
        if at >= text.len() {
            return None;
        }
        let c = text[at];
        assert(input[0] == c);
        proof {
            lemma_char_is_a_number(c);
        }
        if c == '"' {
            assert(input.skip(1) =~= text@.skip(at as int + 1));
            return Some((read, at + 1));
        } else if c == '\\' {
            if text.len() - at >= 2 && text[at + 1] == '"' {
                assert(input[1] == '"');
                assert(input.skip(2) =~= text@.skip(at as int + 2));
                push_char(&mut read, '"');
                at += 2;
            } else if text.len() - at >= 2 && text[at + 1] == '\\' {
                assert(input[1] == '\\');
                assert(input.skip(2) =~= text@.skip(at as int + 2));
                push_char(&mut read, '\\');
                at += 2;
            } else if text.len() - at >= 6 && text[at + 1] == 'u' && text[at + 2] == '0' && text[at
                + 3] == '0' {
                assert(input[1] == 'u' && input[2] == '0' && input[3] == '0');
                assert(input[4] == text@[at as int + 4] && input[5] == text@[at as int + 5]);
                assert(input.skip(6) =~= text@.skip(at as int + 6));
                let high = hex_number(text[at + 4]);
                let low = hex_number(text[at + 5]);
                match (high, low) {
                    (Some(high), Some(low)) => {
                        if high < 2 {
                            let code: u8 = high * 16 + low;
                            push_char(&mut read, code as char);
                            at += 6;
                        } else {
                            return None;
                        }
                    },
                    _ => {
                        return None;
                    },
                }
            } else {
                proof {
                    if input.len() >= 2 {
                        assert(input[1] == text@[at as int + 1]);
                    }
                    if input.len() >= 6 {
                        assert(input[2] == text@[at as int + 2]);
                        assert(input[3] == text@[at as int + 3]);
                    }
                }
                return None;
            }
        } else if (c as u32) < 0x20 {
            return None;
        } else {
            assert(input.skip(1) =~= text@.skip(at as int + 1));
            push_char(&mut read, c);
            at += 1;
        }
    }
}

} // verus!
