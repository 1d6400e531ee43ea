//! Field values and lists of them: the variant-specific part of a record.

use vstd::prelude::*;
use crate::text::push_char;
use crate::wire::numbers::{
    decimal, digit_value, lemma_decimal_is_plain, lemma_decimal_shape, lemma_number_round_trip,
    number_at, parse_number, push_decimal,
};
use crate::wire::strings::{
    is_plain, lemma_plain_parts, lemma_quoted_is_plain, lemma_string_round_trip, parse_string,
    push_quoted, quoted, string_at,
};

verus! {

/// One field of an event as it goes over the wire.
#[derive(Debug, PartialEq, Eq)]
pub enum Value {
    /// A number.
    Number(u64),
    /// A text.
    Text(String),
    /// Yes or no.
    Flag(bool),
}

/// The mathematical value of a [`Value`].
pub enum ValueView {
    Number(u64),
    Text(Seq<char>),
    Flag(bool),
}

impl View for Value {
    type V = ValueView;

    open spec fn view(&self) -> ValueView {
        match *self {
            Value::Number(n) => ValueView::Number(n),
            Value::Text(text) => ValueView::Text(text@),
            Value::Flag(flag) => ValueView::Flag(flag),
        }
    }
}

/// The mathematical values of a list of values.
pub open spec fn value_views(values: Seq<Value>) -> Seq<ValueView> {
    values.map_values(|value: Value| value@)
}

/// The word for yes.
pub open spec fn yes() -> Seq<char> {
    seq!['t', 'r', 'u', 'e']
}

/// The word for no.
pub open spec fn no() -> Seq<char> {
    seq!['f', 'a', 'l', 's', 'e']
}

/// A value as it stands in a record: a number in decimal, a text in quotes,
/// a flag as `true` or `false`.
pub open spec fn value_text(value: ValueView) -> Seq<char> {
    match value {
        ValueView::Number(n) => decimal(n as nat),
        ValueView::Text(text) => quoted(text),
        ValueView::Flag(flag) => if flag {
            yes()
        } else {
            no()
        },
    }
}

/// A list that is not empty, from its first value on: the values with a
/// comma between them, and the closing bracket.
pub open spec fn list_tail(values: Seq<ValueView>) -> Seq<char>
    decreases values.len(),
{
    if values.len() <= 1 {
        if values.len() == 1 {
            value_text(values[0]) + seq![']']
        } else {
            seq![']']
        }
    } else {
        value_text(values[0]) + seq![','] + list_tail(values.skip(1))
    }
}

/// A list of values as it stands in a record: between brackets, with a
/// comma between one value and the next.
pub open spec fn list_text(values: Seq<ValueView>) -> Seq<char> {
    seq!['['] + list_tail(values)
}

/// Whether the input begins with these characters.
pub open spec fn begins_with(input: Seq<char>, word: Seq<char>) -> bool {
    input.len() >= word.len() && input.take(word.len() as int) == word
}

/// Whether the input begins with what may follow a value in a list.
pub open spec fn ends_value(input: Seq<char>) -> bool {
    input.len() > 0 && (input[0] == ',' || input[0] == ']')
}

/// Reads a value at the head of the input: the value, and what follows it.
pub closed spec fn value_at(input: Seq<char>) -> Option<(ValueView, Seq<char>)> {
    if input.len() == 0 {
        None
    } else if input[0] == '"' {
        match string_at(input) {
            Some((text, rest)) => Some((ValueView::Text(text), rest)),
            None => None,
        }
    } else if input[0] == 't' {
        if begins_with(input, yes()) {
            Some((ValueView::Flag(true), input.skip(4)))
        } else {
            None
        }
    } else if input[0] == 'f' {
        if begins_with(input, no()) {
            Some((ValueView::Flag(false), input.skip(5)))
        } else {
            None
        }
    } else {
        match number_at(input) {
            Some((n, rest)) => Some((ValueView::Number(n as u64), rest)),
            None => None,
        }
    }
}

/// Reads the values of a list that is not empty, behind those of `read`,
/// up to the closing bracket: all the values, and what follows the bracket.
pub closed spec fn values_at(input: Seq<char>, read: Seq<ValueView>) -> Option<
    (Seq<ValueView>, Seq<char>),
>
    decreases input.len(),
{
    match value_at(input) {
        None => None,
        Some((value, rest)) => if rest.len() >= input.len() || rest.len() == 0 {
            None
        } else if rest[0] == ',' {
            values_at(rest.skip(1), read.push(value))
        } else if rest[0] == ']' {
            Some((read.push(value), rest.skip(1)))
        } else {
            None
        },
    }
}

/// Reads a list at the head of the input: its values, and what follows its
/// closing bracket.
pub closed spec fn list_at(input: Seq<char>) -> Option<(Seq<ValueView>, Seq<char>)> {
    if input.len() < 2 || input[0] != '[' {
        None
    } else if input[1] == ']' {
        Some((Seq::empty(), input.skip(2)))
    } else {
        values_at(input.skip(1), Seq::empty())
    }
}

/// A value, followed by a comma or a closing bracket, reads back as the
/// value and leaves what follows.
pub proof fn lemma_value_round_trip(value: ValueView, tail: Seq<char>)
    requires
        ends_value(tail),
    ensures
        value_at(value_text(value) + tail) == Some((value, tail)),
        value_text(value).len() > 0,
{
    let input = value_text(value) + tail;
    match value {
        ValueView::Number(n) => {
            lemma_decimal_shape(n as nat);
            assert(digit_value(tail[0]) is None);
            lemma_number_round_trip(n as nat, tail);
            assert(input[0] == decimal(n as nat)[0]);
            assert(digit_value(input[0]) is Some);
        },
        ValueView::Text(text) => {
            lemma_string_round_trip(text, tail);
            assert(input[0] == '"');
        },
        ValueView::Flag(flag) => {
            if flag {
                assert(input[0] == 't');
                assert(input.take(4) =~= yes());
                assert(input.skip(4) =~= tail);
            } else {
                assert(input[0] == 'f');
                assert(input.take(5) =~= no());
                assert(input.skip(5) =~= tail);
            }
        },
    }
}

/// A list that is not empty, from its first value on and followed by
/// anything, reads back as its values and leaves what follows.
pub proof fn lemma_values_round_trip(
    values: Seq<ValueView>,
    read: Seq<ValueView>,
    tail: Seq<char>,
)
    requires
        values.len() >= 1,
    ensures
        values_at(list_tail(values) + tail, read) == Some((read + values, tail)),
    decreases values.len(),
{
    let input = list_tail(values) + tail;
    let first = value_text(values[0]);
    if values.len() == 1 {
        let after = seq![']'] + tail;
        assert(input =~= first + after);
        lemma_value_round_trip(values[0], after);
        assert(after.skip(1) =~= tail);
        assert(read.push(values[0]) =~= read + values);
    } else {
        let rest = values.skip(1);
        let after = seq![','] + (list_tail(rest) + tail);
        assert(input =~= first + after);
        lemma_value_round_trip(values[0], after);
        assert(after.skip(1) =~= list_tail(rest) + tail);
        lemma_values_round_trip(rest, read.push(values[0]), tail);
        assert(read.push(values[0]) + rest =~= read + values);
    }
}

/// A list, followed by anything, reads back as its values and leaves what
/// follows.
pub proof fn lemma_list_round_trip(values: Seq<ValueView>, tail: Seq<char>)
    ensures
        list_at(list_text(values) + tail) == Some((values, tail)),
{
    let input = list_text(values) + tail;
    assert(input[0] == '[');
    if values.len() == 0 {
        assert(input =~= seq!['[', ']'] + tail);
        assert(input.skip(2) =~= tail);
        assert(values =~= Seq::<ValueView>::empty());
    } else {
        assert(input.skip(1) =~= list_tail(values) + tail);
        lemma_values_round_trip(values, Seq::empty(), tail);
        assert(Seq::<ValueView>::empty() + values =~= values);
        let first = value_text(values[0]);
        lemma_value_round_trip(values[0], seq![']']);
        assert(input[1] == first[0]) by {
            if values.len() == 1 {
                assert(list_tail(values) =~= first + seq![']']);
            } else {
                assert(list_tail(values) =~= first + (seq![','] + list_tail(values.skip(1))));
            }
        }
        lemma_value_begins_no_list_end(values[0]);
    }
}

/// A value holds no control character.
pub proof fn lemma_value_is_plain(value: ValueView)
    ensures
        is_plain(value_text(value)),
{
    match value {
        ValueView::Number(n) => {
            lemma_decimal_is_plain(n as nat);
        },
        ValueView::Text(text) => {
            lemma_quoted_is_plain(text);
        },
        ValueView::Flag(flag) => {},
    }
}

/// A list holds no control character.
pub proof fn lemma_list_is_plain(values: Seq<ValueView>)
    ensures
        is_plain(list_tail(values)),
        is_plain(list_text(values)),
    decreases values.len(),
{
    if values.len() >= 1 {
        lemma_value_is_plain(values[0]);
        if values.len() == 1 {
            lemma_plain_parts(value_text(values[0]), seq![']']);
        } else {
            lemma_list_is_plain(values.skip(1));
            lemma_plain_parts(value_text(values[0]), seq![',']);
            lemma_plain_parts(value_text(values[0]) + seq![','], list_tail(values.skip(1)));
        }
    }
    lemma_plain_parts(seq!['['], list_tail(values));
}

/// No value begins with a closing bracket.
proof fn lemma_value_begins_no_list_end(value: ValueView)
    ensures
        value_text(value).len() > 0,
        value_text(value)[0] != ']',
{
    match value {
        ValueView::Number(n) => {
            lemma_decimal_shape(n as nat);
        },
        ValueView::Text(text) => {
            assert(quoted(text)[0] == '"');
        },
        ValueView::Flag(flag) => {},
    }
}

/// Appends a value to a record.
pub(crate) fn push_value(out: &mut String, value: &Value)
    ensures
        final(out)@ == old(out)@ + value_text(value@),
{
    match value {
        Value::Number(n) => push_decimal(out, *n),
        Value::Text(text) => push_quoted(out, text.as_str()),
        Value::Flag(flag) => {
            if *flag {
                push_char(out, 't');
                push_char(out, 'r');
                push_char(out, 'u');
                push_char(out, 'e');
            } else {
                push_char(out, 'f');
                push_char(out, 'a');
                push_char(out, 'l');
                push_char(out, 's');
                push_char(out, 'e');
            }
            assert(out@ =~= old(out)@ + value_text(value@));
        },
    }
}

/// Appends a list of values to a record.
pub(crate) fn push_list(out: &mut String, values: &Vec<Value>)
    ensures
        final(out)@ == old(out)@ + list_text(value_views(values@)),
{
    let ghost all = value_views(values@);
    push_char(out, '[');
    let mut i: usize = 0;
    assert(all.skip(0) =~= all);
    assert(out@ + list_tail(all.skip(0)) =~= old(out)@ + list_text(all));
    while i < values.len()
        invariant
            i <= values.len(),
            all == value_views(values@),
            out@ + list_tail(all.skip(i as int)) == old(out)@ + list_text(all),
        decreases values.len() - i,
    {
        let ghost before = out@;
        let ghost left = all.skip(i as int);
        push_value(out, &values[i]);
        assert(left[0] == values@[i as int]@);
        assert(left.skip(1) =~= all.skip(i as int + 1));
        if i + 1 < values.len() {
            push_char(out, ',');
            assert(out@ + list_tail(all.skip(i as int + 1)) =~= before + list_tail(left));
        } else {
            assert(list_tail(all.skip(i as int + 1)) =~= seq![']']);
            assert(out@ + list_tail(all.skip(i as int + 1)) =~= before + list_tail(left));
        }
        i += 1;
    }
    assert(list_tail(all.skip(i as int)) =~= seq![']']);
    push_char(out, ']');
}

/// Tells whether the text holds `word` from `start` on.
pub(crate) fn holds_at(text: &Vec<char>, start: usize, word: &Vec<char>) -> (held: bool)
    requires
        start <= text.len(),
    ensures
        held == begins_with(text@.skip(start as int), word@),
{
    let ghost input = text@.skip(start as int);
    if text.len() - start < word.len() {
        return false;
    }
    let mut i: usize = 0;
    while i < word.len()
        invariant
            i <= word.len(),
            start + word.len() <= text.len(),
            input == text@.skip(start as int),
            forall|k: int| 0 <= k < i ==> input[k] == word@[k],
        decreases word.len() - i,
    {
        assert(input[i as int] == text@[start + i]);
        if text[start + i] != word[i] {
            assert(input.take(word.len() as int)[i as int] != word@[i as int]);
            return false;
        }
        i += 1;
    }
    assert(input.take(word.len() as int) =~= word@);
    true
}

/// The word for yes, as characters.
fn yes_word() -> (word: Vec<char>)
    ensures
        word@ == yes(),
{
    let mut word: Vec<char> = Vec::new();
    word.push('t');
    word.push('r');
    word.push('u');
    word.push('e');
    assert(word@ =~= yes());
    word
}

/// The word for no, as characters.
fn no_word() -> (word: Vec<char>)
    ensures
        word@ == no(),
{
    let mut word: Vec<char> = Vec::new();
    word.push('f');
    word.push('a');
    word.push('l');
    word.push('s');
    word.push('e');
    assert(word@ =~= no());
    word
}

/// Reads a value that begins at `start`: the value, and the position
/// behind it.
pub(crate) fn parse_value(text: &Vec<char>, start: usize) -> (found: Option<(Value, usize)>)
    requires
        start <= text.len(),
    ensures
        match found {
            Some((value, next)) => start < next <= text.len() && value_at(
                text@.skip(start as int),
            ) == Some((value@, text@.skip(next as int))),
            None => value_at(text@.skip(start as int)) is None,
        },
{
    let ghost input = text@.skip(start as int);
    if start >= text.len() {
        return None;
    }
    let c = text[start];
    assert(input[0] == c);
    if c == '"' {
        match parse_string(text, start) {
            Some((read, next)) => Some((Value::Text(read), next)),
            None => None,
        }
    } else if c == 't' {
        if holds_at(text, start, &yes_word()) {
            assert(input.skip(4) =~= text@.skip(start as int + 4));
            Some((Value::Flag(true), start + 4))
        } else {
            None
        }
    } else if c == 'f' {
        if holds_at(text, start, &no_word()) {
            assert(input.skip(5) =~= text@.skip(start as int + 5));
            Some((Value::Flag(false), start + 5))
        } else {
            None
        }
    } else {
        match parse_number(text, start) {
            Some((n, next)) => Some((Value::Number(n), next)),
            None => None,
        }
    }
}

/// Reads a list that begins at `start`: its values, and the position
/// behind its closing bracket.
pub(crate) fn parse_list(text: &Vec<char>, start: usize) -> (found: Option<(Vec<Value>, usize)>)
    requires
        start <= text.len(),
    ensures
        match found {
            Some((values, next)) => start < next <= text.len() && list_at(
                text@.skip(start as int),
            ) == Some((value_views(values@), text@.skip(next as int))),
            None => list_at(text@.skip(start as int)) is None,
        },
{
    let ghost input = text@.skip(start as int);
    if text.len() - start < 2 {
        return None;
    }
    assert(input[0] == text@[start as int] && input[1] == text@[start as int + 1]);
    if text[start] != '[' {
        return None;
    }
    let mut values: Vec<Value> = Vec::new();
    if text[start + 1] == ']' {
        assert(input.skip(2) =~= text@.skip(start as int + 2));
        assert(value_views(values@) =~= Seq::<ValueView>::empty());
        return Some((values, start + 2));
    }
    let mut at: usize = start + 1;
    assert(input.skip(1) =~= text@.skip(at as int));
    assert(value_views(values@) =~= Seq::<ValueView>::empty());
    loop
        invariant
            start < at <= text.len(),
            values_at(text@.skip(at as int), value_views(values@)) == list_at(
                text@.skip(start as int),
            ),
        decreases text.len() - at,
    {
        let ghost read = value_views(values@);
        match parse_value(text, at) {
            None => {
                return None;
            },
            Some((value, next)) => {
                if next >= text.len() {
                    return None;
                }
                let ghost rest = text@.skip(next as int);
                assert(rest[0] == text@[next as int]);
                assert(rest.skip(1) =~= text@.skip(next as int + 1));
                let ghost seen = value@;
                values.push(value);
                assert(value_views(values@) =~= read.push(seen));
                if text[next] == ',' {
                    at = next + 1;
                } else if text[next] == ']' {
                    return Some((values, next + 1));
                } else {
                    return None;
                }
            },
        }
    }
}

} // verus!
