//! The record format: how an event goes over the wire as one line of text,
//! and how it is read back.
//!
//! A record names the source of the event and, under `payload`, the kind of
//! event with the fields of that kind:
//!
//! ```text
//! {"source":"kbd","payload":{"KeyPress":[30,0]}}
//! ```
//!
//! There is one way to write an event, and `decode` takes that one and no
//! other. A record holds no line break, so records can follow each other
//! one per line.

pub mod strings;
pub mod numbers;
pub mod values;

use vstd::prelude::*;
use vstd::string::StringExecFns;
use crate::event::{
    event_view, DomainEvent, DomainEventView, Event, EventView, Mode, Modifiers, StatsSnapshot,
};
use crate::text::{chars_of, push_char, same_text};
use crate::wire::strings::{
    is_plain, lemma_char_is_a_number, lemma_plain_parts, lemma_quoted_is_plain,
    lemma_string_round_trip, parse_string, push_quoted, quoted, string_at,
};
use crate::wire::values::{
    begins_with, holds_at, lemma_list_is_plain, lemma_list_round_trip, list_at, list_text,
    parse_list, push_list, value_views, Value, ValueView,
};

verus! {

/// The kind of an event: what a record names in front of the fields.
#[derive(Clone, Copy, Debug, PartialEq, Eq, Structural)]
pub enum Kind {
    KeyPress,
    KeyRelease,
    HidReport,
    SendText,
    SendFile,
    TextSent,
    CurrentStats,
    ModeChange,
    Exit,
    Sleep,
    WakeUp,
    ReportSent,
}

/// The kind of a payload.
pub open spec fn kind_of(payload: DomainEventView) -> Kind {
    match payload {
        DomainEventView::KeyPress(..) => Kind::KeyPress,
        DomainEventView::KeyRelease(..) => Kind::KeyRelease,
        DomainEventView::HidReport(_) => Kind::HidReport,
        DomainEventView::SendText(_) => Kind::SendText,
        DomainEventView::SendFile(..) => Kind::SendFile,
        DomainEventView::TextSent => Kind::TextSent,
        DomainEventView::CurrentStats(_) => Kind::CurrentStats,
        DomainEventView::ModeChange(_) => Kind::ModeChange,
        DomainEventView::Exit => Kind::Exit,
        DomainEventView::Sleep => Kind::Sleep,
        DomainEventView::WakeUp => Kind::WakeUp,
        DomainEventView::ReportSent => Kind::ReportSent,
    }
}

/// The name of a kind, as it stands in a record.
pub open spec fn kind_name(kind: Kind) -> Seq<char> {
    match kind {
        Kind::KeyPress => "KeyPress"@,
        Kind::KeyRelease => "KeyRelease"@,
        Kind::HidReport => "HidReport"@,
        Kind::SendText => "SendText"@,
        Kind::SendFile => "SendFile"@,
        Kind::TextSent => "TextSent"@,
        Kind::CurrentStats => "CurrentStats"@,
        Kind::ModeChange => "ModeChange"@,
        Kind::Exit => "Exit"@,
        Kind::Sleep => "Sleep"@,
        Kind::WakeUp => "WakeUp"@,
        Kind::ReportSent => "ReportSent"@,
    }
}

/// The name of a mode, as it stands in a record.
pub open spec fn mode_name(mode: Mode) -> Seq<char> {
    match mode {
        Mode::PassThrough => "PassThrough"@,
        Mode::InApp => "InApp"@,
    }
}

/// The fields of a payload, in the order in which a record lists them. A
/// key event lists its code and its modifier bits, a report its bytes, a
/// file its path and whether a line break follows, the statistics their
/// four numbers, a change of mode the name of the mode.
pub open spec fn fields_of(payload: DomainEventView) -> Seq<ValueView> {
    match payload {
        DomainEventView::KeyPress(code, modifiers) => seq![
            ValueView::Number(code as u64),
            ValueView::Number(modifiers.bits as u64),
        ],
        DomainEventView::KeyRelease(code, modifiers) => seq![
            ValueView::Number(code as u64),
            ValueView::Number(modifiers.bits as u64),
        ],
        DomainEventView::HidReport(bytes) => bytes.map_values(
            |byte: u8| ValueView::Number(byte as u64),
        ),
        DomainEventView::SendText(text) => seq![ValueView::Text(text)],
        DomainEventView::SendFile(path, newline) => seq![
            ValueView::Text(path),
            ValueView::Flag(newline),
        ],
        DomainEventView::CurrentStats(stats) => seq![
            ValueView::Number(stats.total),
            ValueView::Number(stats.today),
            ValueView::Number(stats.wpm as u64),
            ValueView::Number(stats.max_wpm as u64),
        ],
        DomainEventView::ModeChange(mode) => seq![ValueView::Text(mode_name(mode))],
        DomainEventView::TextSent
        | DomainEventView::Exit
        | DomainEventView::Sleep
        | DomainEventView::WakeUp
        | DomainEventView::ReportSent => Seq::empty(),
    }
}

/// What every record begins with.
pub open spec fn opening() -> Seq<char> {
    seq!['{', '"', 's', 'o', 'u', 'r', 'c', 'e', '"', ':']
}

/// What stands between the source and the kind.
pub open spec fn middle() -> Seq<char> {
    seq![',', '"', 'p', 'a', 'y', 'l', 'o', 'a', 'd', '"', ':', '{']
}

/// What every record ends with.
pub open spec fn closing() -> Seq<char> {
    seq!['}', '}']
}

/// An event as one record: the source, then under `payload` the name of
/// the kind and the list of the fields.
pub open spec fn record_text(event: EventView) -> Seq<char> {
    opening() + quoted(event.source) + middle() + quoted(kind_name(kind_of(event.payload)))
        + seq![':'] + list_text(fields_of(event.payload)) + closing()
}

/// The event that a text is the record of, if it is the record of one.
pub open spec fn decoded(text: Seq<char>) -> Option<EventView> {
    if exists|event: EventView| record_text(event) == text {
        Some(choose|event: EventView| record_text(event) == text)
    } else {
        None
    }
}

/// The kind that a name stands for.
pub closed spec fn kind_named(name: Seq<char>) -> Option<Kind> {
    if name == "KeyPress"@ {
        Some(Kind::KeyPress)
    } else if name == "KeyRelease"@ {
        Some(Kind::KeyRelease)
    } else if name == "HidReport"@ {
        Some(Kind::HidReport)
    } else if name == "SendText"@ {
        Some(Kind::SendText)
    } else if name == "SendFile"@ {
        Some(Kind::SendFile)
    } else if name == "TextSent"@ {
        Some(Kind::TextSent)
    } else if name == "CurrentStats"@ {
        Some(Kind::CurrentStats)
    } else if name == "ModeChange"@ {
        Some(Kind::ModeChange)
    } else if name == "Exit"@ {
        Some(Kind::Exit)
    } else if name == "Sleep"@ {
        Some(Kind::Sleep)
    } else if name == "WakeUp"@ {
        Some(Kind::WakeUp)
    } else if name == "ReportSent"@ {
        Some(Kind::ReportSent)
    } else {
        None
    }
}

/// The number that a value holds, if it is a number up to `limit`.
pub closed spec fn number_in(values: Seq<ValueView>, position: int, limit: u64) -> Option<u64> {
    if 0 <= position < values.len() {
        match values[position] {
            ValueView::Number(n) => if n <= limit {
                Some(n)
            } else {
                None
            },
            _ => None,
        }
    } else {
        None
    }
}

/// The text that a value holds, if it is a text.
pub closed spec fn text_in(values: Seq<ValueView>, position: int) -> Option<Seq<char>> {
    if 0 <= position < values.len() {
        match values[position] {
            ValueView::Text(text) => Some(text),
            _ => None,
        }
    } else {
        None
    }
}

/// The flag that a value holds, if it is a flag.
pub closed spec fn flag_in(values: Seq<ValueView>, position: int) -> Option<bool> {
    if 0 <= position < values.len() {
        match values[position] {
            ValueView::Flag(flag) => Some(flag),
            _ => None,
        }
    } else {
        None
    }
}

/// Whether every value is a number that fits in a byte.
pub closed spec fn all_bytes(values: Seq<ValueView>) -> bool {
    forall|k: int| 0 <= k < values.len() ==> number_in(values, k, 255) is Some
}

/// The bytes that a list of numbers holds.
pub closed spec fn bytes_in(values: Seq<ValueView>) -> Seq<u8> {
    Seq::new(values.len(), |k: int| number_in(values, k, 255)->0 as u8)
}

/// The mode that a name stands for.
pub closed spec fn mode_named(name: Seq<char>) -> Option<Mode> {
    if name == "PassThrough"@ {
        Some(Mode::PassThrough)
    } else if name == "InApp"@ {
        Some(Mode::InApp)
    } else {
        None
    }
}

/// The payload of a kind with these fields, if the fields are those of the
/// kind: as many, of the right sort, and each number in its range.
pub closed spec fn payload_of(kind: Kind, values: Seq<ValueView>) -> Option<DomainEventView> {
    match kind {
        Kind::KeyPress => match (number_in(values, 0, 0xffff), number_in(values, 1, 0xff)) {
            (Some(code), Some(bits)) => if values.len() == 2 {
                Some(DomainEventView::KeyPress(code as u16, Modifiers { bits: bits as u8 }))
            } else {
                None
            },
            _ => None,
        },
        Kind::KeyRelease => match (number_in(values, 0, 0xffff), number_in(values, 1, 0xff)) {
            (Some(code), Some(bits)) => if values.len() == 2 {
                Some(DomainEventView::KeyRelease(code as u16, Modifiers { bits: bits as u8 }))
            } else {
                None
            },
            _ => None,
        },
        Kind::HidReport => if all_bytes(values) {
            Some(DomainEventView::HidReport(bytes_in(values)))
        } else {
            None
        },
        Kind::SendText => match text_in(values, 0) {
            Some(text) => if values.len() == 1 {
                Some(DomainEventView::SendText(text))
            } else {
                None
            },
            None => None,
        },
        Kind::SendFile => match (text_in(values, 0), flag_in(values, 1)) {
            (Some(path), Some(newline)) => if values.len() == 2 {
                Some(DomainEventView::SendFile(path, newline))
            } else {
                None
            },
            _ => None,
        },
        Kind::CurrentStats => match (
            number_in(values, 0, u64::MAX),
            number_in(values, 1, u64::MAX),
            number_in(values, 2, 0xffff),
            number_in(values, 3, 0xffff),
        ) {
            (Some(total), Some(today), Some(wpm), Some(max_wpm)) => if values.len() == 4 {
                Some(
                    DomainEventView::CurrentStats(
                        StatsSnapshot {
                            total,
                            today,
                            wpm: wpm as u16,
                            max_wpm: max_wpm as u16,
                        },
                    ),
                )
            } else {
                None
            },
            _ => None,
        },
        Kind::ModeChange => match text_in(values, 0) {
            Some(name) => match mode_named(name) {
                Some(mode) => if values.len() == 1 {
                    Some(DomainEventView::ModeChange(mode))
                } else {
                    None
                },
                None => None,
            },
            None => None,
        },
        Kind::TextSent => if values.len() == 0 {
            Some(DomainEventView::TextSent)
        } else {
            None
        },
        Kind::Exit => if values.len() == 0 {
            Some(DomainEventView::Exit)
        } else {
            None
        },
        Kind::Sleep => if values.len() == 0 {
            Some(DomainEventView::Sleep)
        } else {
            None
        },
        Kind::WakeUp => if values.len() == 0 {
            Some(DomainEventView::WakeUp)
        } else {
            None
        },
        Kind::ReportSent => if values.len() == 0 {
            Some(DomainEventView::ReportSent)
        } else {
            None
        },
    }
}

/// Reads a record: the event, where the whole input is the record of one.
pub closed spec fn record_at(input: Seq<char>) -> Option<EventView> {
    if !begins_with(input, opening()) {
        None
    } else {
        match string_at(input.skip(10)) {
            None => None,
            Some((source, after_source)) => if !begins_with(after_source, middle()) {
                None
            } else {
                match string_at(after_source.skip(12)) {
                    None => None,
                    Some((name, after_name)) => if after_name.len() == 0 || after_name[0] != ':' {
                        None
                    } else {
                        match list_at(after_name.skip(1)) {
                            None => None,
                            Some((values, after_list)) => if after_list != closing() {
                                None
                            } else {
                                match kind_named(name) {
                                    None => None,
                                    Some(kind) => match payload_of(kind, values) {
                                        None => None,
                                        Some(payload) => Some(EventView { source, payload }),
                                    },
                                }
                            },
                        }
                    },
                }
            },
        }
    }
}

/// The names of the kinds differ from each other: each name stands for its
/// kind and for no other.
proof fn lemma_kind_names_differ(kind: Kind)
    ensures
        kind_named(kind_name(kind)) == Some(kind),
{
    reveal_strlit("KeyPress");
    reveal_strlit("KeyRelease");
    reveal_strlit("HidReport");
    reveal_strlit("SendText");
    reveal_strlit("SendFile");
    reveal_strlit("TextSent");
    reveal_strlit("CurrentStats");
    reveal_strlit("ModeChange");
    reveal_strlit("Exit");
    reveal_strlit("Sleep");
    reveal_strlit("WakeUp");
    reveal_strlit("ReportSent");
    assert("KeyPress"@.len() == 8 && "KeyRelease"@.len() == 10 && "HidReport"@.len() == 9);
    assert("SendText"@.len() == 8 && "SendFile"@.len() == 8 && "TextSent"@.len() == 8);
    assert("CurrentStats"@.len() == 12 && "ModeChange"@.len() == 10 && "Exit"@.len() == 4);
    assert("Sleep"@.len() == 5 && "WakeUp"@.len() == 6 && "ReportSent"@.len() == 10);
    assert("KeyPress"@[0] == 'K' && "SendText"@[0] == 'S' && "SendFile"@[0] == 'S' && "TextSent"@[0]
        == 'T');
    assert("SendText"@[4] == 'T' && "SendFile"@[4] == 'F');
    assert("KeyRelease"@[0] == 'K' && "ModeChange"@[0] == 'M' && "ReportSent"@[0] == 'R');
}

/// The names of the modes differ from each other.
proof fn lemma_mode_names_differ(mode: Mode)
    ensures
        mode_named(mode_name(mode)) == Some(mode),
{
    reveal_strlit("PassThrough");
    reveal_strlit("InApp");
    assert("PassThrough"@.len() == 11 && "InApp"@.len() == 5);
}

/// The fields of a payload read back as the payload.
proof fn lemma_fields_round_trip(payload: DomainEventView)
    ensures
        payload_of(kind_of(payload), fields_of(payload)) == Some(payload),
{
    let values = fields_of(payload);
    match payload {
        DomainEventView::HidReport(bytes) => {
            assert forall|k: int| 0 <= k < values.len() implies number_in(values, k, 255)
                == Some(bytes[k] as u64) by {}
            assert(bytes_in(values) =~= bytes);
        },
        DomainEventView::ModeChange(mode) => {
            lemma_mode_names_differ(mode);
        },
        _ => {},
    }
}

/// A record reads back as its event.
proof fn lemma_record_round_trip(event: EventView)
    ensures
        record_at(record_text(event)) == Some(event),
{
    let kind = kind_of(event.payload);
    let values = fields_of(event.payload);
    let input = record_text(event);
    let after_opening = quoted(event.source) + (middle() + (quoted(kind_name(kind)) + (seq![':']
        + (list_text(values) + closing()))));
    assert(input =~= opening() + after_opening);
    assert(input.take(10) =~= opening());
    assert(input.skip(10) =~= after_opening);
    let after_source = middle() + (quoted(kind_name(kind)) + (seq![':'] + (list_text(values)
        + closing())));
    lemma_string_round_trip(event.source, after_source);
    assert(after_source.take(12) =~= middle());
    let after_middle = quoted(kind_name(kind)) + (seq![':'] + (list_text(values) + closing()));
    assert(after_source.skip(12) =~= after_middle);
    let after_name = seq![':'] + (list_text(values) + closing());
    lemma_string_round_trip(kind_name(kind), after_name);
    assert(after_name[0] == ':');
    assert(after_name.skip(1) =~= list_text(values) + closing());
    lemma_list_round_trip(values, closing());
    lemma_kind_names_differ(kind);
    lemma_fields_round_trip(event.payload);
}

/// A text is the record of at most one event: `decoded` tells which, and
/// tells so exactly for the records that there are.
pub proof fn law_decoded_is_exact(text: Seq<char>, event: EventView)
    ensures
        decoded(text) == Some(event) <==> record_text(event) == text,
{
    if exists|other: EventView| record_text(other) == text {
        let chosen = choose|other: EventView| record_text(other) == text;
        lemma_record_round_trip(chosen);
        if record_text(event) == text {
            lemma_record_round_trip(event);
        }
    }
}

/// Encoding an event and decoding the text gives the event back, whatever
/// the event: every kind, every text, every number.
pub proof fn law_wire_round_trip(event: EventView)
    ensures
        decoded(record_text(event)) == Some(event),
{
    law_decoded_is_exact(record_text(event), event);
}

/// A line without the blanks around it.
pub open spec fn trimmed(line: Seq<char>) -> Seq<char> {
    trimmed_end(trimmed_start(line))
}

/// Whether a character is a blank: one that Unicode counts as white space.
/// These are the tab and the four characters behind it up to the carriage
/// return, the space, the next-line character, the no-break space, the
/// ogham space mark, the spaces of fixed width, the line and the paragraph
/// separator, the narrow no-break space, the medium mathematical space and
/// the ideographic space.
pub open spec fn is_blank(c: char) -> bool {
    let code = c as int;
    ||| 0x09 <= code <= 0x0d
    ||| code == 0x20
    ||| code == 0x85
    ||| code == 0xa0
    ||| code == 0x1680
    ||| 0x2000 <= code <= 0x200a
    ||| code == 0x2028
    ||| code == 0x2029
    ||| code == 0x202f
    ||| code == 0x205f
    ||| code == 0x3000
}

/// A line without the blanks in front.
pub open spec fn trimmed_start(line: Seq<char>) -> Seq<char>
    decreases line.len(),
{
    if line.len() > 0 && is_blank(line[0]) {
        trimmed_start(line.skip(1))
    } else {
        line
    }
}

/// A line without the blanks at its end.
pub open spec fn trimmed_end(line: Seq<char>) -> Seq<char>
    decreases line.len(),
{
    if line.len() > 0 && is_blank(line.last()) {
        trimmed_end(line.drop_last())
    } else {
        line
    }
}

/// The kind of a payload.
fn kind(payload: &DomainEvent) -> (kind: Kind)
    ensures
        kind == kind_of(payload@),
{
    match payload {
        DomainEvent::KeyPress(..) => Kind::KeyPress,
        DomainEvent::KeyRelease(..) => Kind::KeyRelease,
        DomainEvent::HidReport(_) => Kind::HidReport,
        DomainEvent::SendText(_) => Kind::SendText,
        DomainEvent::SendFile(..) => Kind::SendFile,
        DomainEvent::TextSent => Kind::TextSent,
        DomainEvent::CurrentStats(_) => Kind::CurrentStats,
        DomainEvent::ModeChange(_) => Kind::ModeChange,
        DomainEvent::Exit => Kind::Exit,
        DomainEvent::Sleep => Kind::Sleep,
        DomainEvent::WakeUp => Kind::WakeUp,
        DomainEvent::ReportSent() => Kind::ReportSent,
    }
}

/// The name of a kind.
fn name_of(kind: Kind) -> (name: &'static str)
    ensures
        name@ == kind_name(kind),
{
    match kind {
        Kind::KeyPress => "KeyPress",
        Kind::KeyRelease => "KeyRelease",
        Kind::HidReport => "HidReport",
        Kind::SendText => "SendText",
        Kind::SendFile => "SendFile",
        Kind::TextSent => "TextSent",
        Kind::CurrentStats => "CurrentStats",
        Kind::ModeChange => "ModeChange",
        Kind::Exit => "Exit",
        Kind::Sleep => "Sleep",
        Kind::WakeUp => "WakeUp",
        Kind::ReportSent => "ReportSent",
    }
}

/// The kind that a name stands for.
fn kind_from(name: &str) -> (kind: Option<Kind>)
    ensures
        kind == kind_named(name@),
{
    if same_text(name, "KeyPress") {
        Some(Kind::KeyPress)
    } else if same_text(name, "KeyRelease") {
        Some(Kind::KeyRelease)
    } else if same_text(name, "HidReport") {
        Some(Kind::HidReport)
    } else if same_text(name, "SendText") {
        Some(Kind::SendText)
    } else if same_text(name, "SendFile") {
        Some(Kind::SendFile)
    } else if same_text(name, "TextSent") {
        Some(Kind::TextSent)
    } else if same_text(name, "CurrentStats") {
        Some(Kind::CurrentStats)
    } else if same_text(name, "ModeChange") {
        Some(Kind::ModeChange)
    } else if same_text(name, "Exit") {
        Some(Kind::Exit)
    } else if same_text(name, "Sleep") {
        Some(Kind::Sleep)
    } else if same_text(name, "WakeUp") {
        Some(Kind::WakeUp)
    } else if same_text(name, "ReportSent") {
        Some(Kind::ReportSent)
    } else {
        None
    }
}

/// The fields of a payload.
fn fields(payload: &DomainEvent) -> (values: Vec<Value>)
    ensures
        value_views(values@) == fields_of(payload@),
{
    let mut values: Vec<Value> = Vec::new();
    match payload {
        DomainEvent::KeyPress(code, modifiers) => {
            values.push(Value::Number(*code as u64));
            values.push(Value::Number(modifiers.bits as u64));
        },
        DomainEvent::KeyRelease(code, modifiers) => {
            values.push(Value::Number(*code as u64));
            values.push(Value::Number(modifiers.bits as u64));
        },
        DomainEvent::HidReport(bytes) => {
            let mut i: usize = 0;
            while i < bytes.len()
                invariant
                    i <= bytes.len(),
                    values.len() == i,
                    forall|k: int|
                        0 <= k < i ==> (#[trigger] values[k])@ == ValueView::Number(
                            bytes[k] as u64,
                        ),
                decreases bytes.len() - i,
            {
                values.push(Value::Number(bytes[i] as u64));
                i += 1;
            }
        },
        DomainEvent::SendText(text) => {
            values.push(Value::Text(text.clone()));
        },
        DomainEvent::SendFile(path, newline) => {
            values.push(Value::Text(path.clone()));
            values.push(Value::Flag(*newline));
        },
        DomainEvent::CurrentStats(stats) => {
            values.push(Value::Number(stats.total));
            values.push(Value::Number(stats.today));
            values.push(Value::Number(stats.wpm as u64));
            values.push(Value::Number(stats.max_wpm as u64));
        },
        DomainEvent::ModeChange(mode) => {
            let name = match mode {
                Mode::PassThrough => "PassThrough",
                Mode::InApp => "InApp",
            };
            values.push(Value::Text(String::from_str(name)));
        },
        DomainEvent::TextSent
        | DomainEvent::Exit
        | DomainEvent::Sleep
        | DomainEvent::WakeUp
        | DomainEvent::ReportSent() => {},
    }
    assert(value_views(values@) =~= fields_of(payload@));
    values
}

/// The number at a position, if a number up to `limit` stands there.
fn number(values: &Vec<Value>, position: usize, limit: u64) -> (found: Option<u64>)
    ensures
        found == number_in(value_views(values@), position as int, limit),
{
    if position >= values.len() {
        return None;
    }
    match &values[position] {
        Value::Number(n) => {
            if *n <= limit {
                Some(*n)
            } else {
                None
            }
        },
        _ => None,
    }
}

/// The text at a position, if a text stands there.
fn text(values: &Vec<Value>, position: usize) -> (found: Option<String>)
    ensures
        match found {
            Some(text) => text_in(value_views(values@), position as int) == Some(text@),
            None => text_in(value_views(values@), position as int) is None,
        },
{
    if position >= values.len() {
        return None;
    }
    match &values[position] {
        Value::Text(text) => Some(text.clone()),
        _ => None,
    }
}

/// The flag at a position, if a flag stands there.
fn flag(values: &Vec<Value>, position: usize) -> (found: Option<bool>)
    ensures
        found == flag_in(value_views(values@), position as int),
{
    if position >= values.len() {
        return None;
    }
    match &values[position] {
        Value::Flag(flag) => Some(*flag),
        _ => None,
    }
}

/// The bytes that a list holds, if every value is a number that fits in one.
fn bytes(values: &Vec<Value>) -> (found: Option<Vec<u8>>)
    ensures
        match found {
            Some(bytes) => all_bytes(value_views(values@)) && bytes@ == bytes_in(
                value_views(values@),
            ),
            None => !all_bytes(value_views(values@)),
        },
{
    let mut bytes: Vec<u8> = Vec::new();
    let mut i: usize = 0;
    while i < values.len()
        invariant
            i <= values.len(),
            bytes.len() == i,
            forall|k: int|
                0 <= k < i ==> number_in(value_views(values@), k, 255) == Some(
                    (#[trigger] bytes[k]) as u64,
                ),
        decreases values.len() - i,
    {
        match number(values, i, 255) {
            Some(n) => bytes.push(n as u8),
            None => {
                return None;
            },
        }
        i += 1;
    }
    assert forall|k: int| 0 <= k < values.len() implies number_in(
        value_views(values@),
        k,
        255,
    ) is Some by {
        assert(number_in(value_views(values@), k, 255) == Some(bytes[k] as u64));
    }
    assert(bytes@ =~= bytes_in(value_views(values@)));
    Some(bytes)
}

/// The mode that a name stands for.
fn mode_from(name: &str) -> (mode: Option<Mode>)
    ensures
        mode == mode_named(name@),
{
    if same_text(name, "PassThrough") {
        Some(Mode::PassThrough)
    } else if same_text(name, "InApp") {
        Some(Mode::InApp)
    } else {
        None
    }
}

/// The payload of a kind with these fields.
fn payload(kind: Kind, values: &Vec<Value>) -> (found: Option<DomainEvent>)
    ensures
        match found {
            Some(payload) => payload_of(kind, value_views(values@)) == Some(payload@),
            None => payload_of(kind, value_views(values@)) is None,
        },
{
    let count = values.len();
    match kind {
        Kind::KeyPress => match (number(values, 0, 0xffff), number(values, 1, 0xff)) {
            (Some(code), Some(bits)) => {
                if count == 2 {
                    Some(DomainEvent::KeyPress(code as u16, Modifiers { bits: bits as u8 }))
                } else {
                    None
                }
            },
            _ => None,
        },
        Kind::KeyRelease => match (number(values, 0, 0xffff), number(values, 1, 0xff)) {
            (Some(code), Some(bits)) => {
                if count == 2 {
                    Some(DomainEvent::KeyRelease(code as u16, Modifiers { bits: bits as u8 }))
                } else {
                    None
                }
            },
            _ => None,
        },
        Kind::HidReport => match bytes(values) {
            Some(bytes) => Some(DomainEvent::HidReport(bytes)),
            None => None,
        },
        Kind::SendText => match text(values, 0) {
            Some(text) => {
                if count == 1 {
                    Some(DomainEvent::SendText(text))
                } else {
                    None
                }
            },
            None => None,
        },
        Kind::SendFile => match (text(values, 0), flag(values, 1)) {
            (Some(path), Some(newline)) => {
                if count == 2 {
                    Some(DomainEvent::SendFile(path, newline))
                } else {
                    None
                }
            },
            _ => None,
        },
        Kind::CurrentStats => match (
            number(values, 0, u64::MAX),
            number(values, 1, u64::MAX),
            number(values, 2, 0xffff),
            number(values, 3, 0xffff),
        ) {
            (Some(total), Some(today), Some(wpm), Some(max_wpm)) => {
                if count == 4 {
                    Some(
                        DomainEvent::CurrentStats(
                            StatsSnapshot {
                                total,
                                today,
                                wpm: wpm as u16,
                                max_wpm: max_wpm as u16,
                            },
                        ),
                    )
                } else {
                    None
                }
            },
            _ => None,
        },
        Kind::ModeChange => match text(values, 0) {
            Some(name) => match mode_from(name.as_str()) {
                Some(mode) => {
                    if count == 1 {
                        Some(DomainEvent::ModeChange(mode))
                    } else {
                        None
                    }
                },
                None => None,
            },
            None => None,
        },
        Kind::TextSent => if count == 0 {
            Some(DomainEvent::TextSent)
        } else {
            None
        },
        Kind::Exit => if count == 0 {
            Some(DomainEvent::Exit)
        } else {
            None
        },
        Kind::Sleep => if count == 0 {
            Some(DomainEvent::Sleep)
        } else {
            None
        },
        Kind::WakeUp => if count == 0 {
            Some(DomainEvent::WakeUp)
        } else {
            None
        },
        Kind::ReportSent => if count == 0 {
            Some(DomainEvent::ReportSent())
        } else {
            None
        },
    }
}

/// What every record begins with, as characters.
fn opening_word() -> (word: Vec<char>)
    ensures
        word@ == opening(),
{
    let mut word: Vec<char> = Vec::new();
    word.push('{');
    word.push('"');
    word.push('s');
    word.push('o');
    word.push('u');
    word.push('r');
    word.push('c');
    word.push('e');
    word.push('"');
    word.push(':');
    assert(word@ =~= opening());
    word
}

/// What stands between the source and the kind, as characters.
fn middle_word() -> (word: Vec<char>)
    ensures
        word@ == middle(),
{
    let mut word: Vec<char> = Vec::new();
    word.push(',');
    word.push('"');
    word.push('p');
    word.push('a');
    word.push('y');
    word.push('l');
    word.push('o');
    word.push('a');
    word.push('d');
    word.push('"');
    word.push(':');
    word.push('{');
    assert(word@ =~= middle());
    word
}

/// Appends characters to a record.
fn push_word(out: &mut String, word: &Vec<char>)
    ensures
        final(out)@ == old(out)@ + word@,
{
    let mut i: usize = 0;
    assert(out@ =~= old(out)@ + word@.take(0));
    while i < word.len()
        invariant
            i <= word.len(),
            out@ == old(out)@ + word@.take(i as int),
        decreases word.len() - i,
    {
        push_char(out, word[i]);
        assert(out@ =~= old(out)@ + word@.take(i as int + 1));
        i += 1;
    }
    assert(word@.take(i as int) =~= word@);
}

/// Writes an event as one record.
pub fn encode(event: &Event) -> (record: String)
    ensures
        record@ == record_text(event@),
{
    let mut record = String::new();
    push_word(&mut record, &opening_word());
    push_quoted(&mut record, event.source.as_str());
    push_word(&mut record, &middle_word());
    push_quoted(&mut record, name_of(kind(&event.payload)));
    push_char(&mut record, ':');
    push_list(&mut record, &fields(&event.payload));
    push_char(&mut record, '}');
    push_char(&mut record, '}');
    assert(record@ =~= record_text(event@));
    record
}

/// Writes an event as one line: its record, and the line break behind it.
pub fn encode_line(event: &Event) -> (line: String)
    ensures
        line@ == record_text(event@).push('\n'),
{
    let mut line = encode(event);
    push_char(&mut line, '\n');
    line
}

/// Reads a record leniently: the event that the text reads as.
fn parse_record(text: &Vec<char>) -> (found: Option<Event>)
    ensures
        event_view(found) == record_at(text@),
{
    assert(text@.skip(0) =~= text@);
    if !holds_at(text, 0, &opening_word()) {
        return None;
    }
    let (source, after_source) = match parse_string(text, 10) {
        Some(found) => found,
        None => {
            return None;
        },
    };
    if !holds_at(text, after_source, &middle_word()) {
        return None;
    }
    assert(text@.skip(after_source as int).skip(12) =~= text@.skip(after_source as int + 12));
    let (name, after_name) = match parse_string(text, after_source + 12) {
        Some(found) => found,
        None => {
            return None;
        },
    };
    let ghost rest = text@.skip(after_name as int);
    if after_name >= text.len() {
        return None;
    }
    assert(rest[0] == text@[after_name as int]);
    if text[after_name] != ':' {
        return None;
    }
    assert(rest.skip(1) =~= text@.skip(after_name as int + 1));
    let (values, after_list) = match parse_list(text, after_name + 1) {
        Some(found) => found,
        None => {
            return None;
        },
    };
    let ghost end = text@.skip(after_list as int);
    if text.len() - after_list != 2 {
        assert(end.len() != closing().len());
        return None;
    }
    assert(end[0] == text@[after_list as int] && end[1] == text@[after_list as int + 1]);
    if text[after_list] != '}' || text[after_list + 1] != '}' {
        assert(end[0] != closing()[0] || end[1] != closing()[1]);
        return None;
    }
    assert(end =~= closing());
    let kind = match kind_from(name.as_str()) {
        Some(kind) => kind,
        None => {
            return None;
        },
    };
    match payload(kind, &values) {
        Some(payload) => Some(Event { source, payload }),
        None => None,
    }
}

/// Tells whether two lists hold the same characters.
fn same_chars(left: &Vec<char>, right: &Vec<char>) -> (same: bool)
    ensures
        same == (left@ == right@),
{
    if left.len() != right.len() {
        return false;
    }
    let mut i: usize = 0;
    while i < left.len()
        invariant
            i <= left.len(),
            left.len() == right.len(),
            forall|k: int| 0 <= k < i ==> left@[k] == right@[k],
        decreases left.len() - i,
    {
        if left[i] != right[i] {
            return false;
        }
        i += 1;
    }
    assert(left@ =~= right@);
    true
}

/// Reads the record in these characters.
fn decode_chars(text: &Vec<char>) -> (event: Option<Event>)
    ensures
        event_view(event) == decoded(text@),
{
    proof {
        if exists|event: EventView| record_text(event) == text@ {
            let chosen = choose|event: EventView| record_text(event) == text@;
            lemma_record_round_trip(chosen);
        }
    }
    match parse_record(text) {
        None => None,
        Some(event) => {
            let again = encode(&event);
            if same_chars(&chars_of(again.as_str()), text) {
                proof {
                    law_decoded_is_exact(text@, event@);
                }
                Some(event)
            } else {
                None
            }
        },
    }
}

/// Reads a record. The text has to be the record of an event, as `encode`
/// writes it, with nothing in front and nothing behind: then that event is
/// returned. Any other text is malformed, and `None` says so.
pub fn decode(text: &str) -> (event: Option<Event>)
    ensures
        event_view(event) == decoded(text@),
{
    decode_chars(&chars_of(text))
}

/// Tells whether a character is a blank.
fn blank(c: char) -> (b: bool)
    ensures
        b == is_blank(c),
{
    proof {
        lemma_char_is_a_number(c);
    }
    let code = c as u32;
    (0x09 <= code && code <= 0x0d) || code == 0x20 || code == 0x85 || code == 0xa0 || code
        == 0x1680 || (0x2000 <= code && code <= 0x200a) || code == 0x2028 || code == 0x2029
        || code == 0x202f || code == 0x205f || code == 0x3000
}

/// The characters of a line without the blanks around them.
fn trim(line: &Vec<char>) -> (inner: Vec<char>)
    ensures
        inner@ == trimmed(line@),
{
    let mut start: usize = 0;
    assert(line@.skip(0) =~= line@);
    while start < line.len() && blank(line[start])
        invariant
            start <= line.len(),
            trimmed_start(line@.skip(start as int)) == trimmed_start(line@),
        decreases line.len() - start,
    {
        assert(line@.skip(start as int)[0] == line@[start as int]);
        assert(line@.skip(start as int).skip(1) =~= line@.skip(start as int + 1));
        start += 1;
    }
    proof {
        if start < line.len() {
            assert(line@.skip(start as int)[0] == line@[start as int]);
        }
    }
    let ghost front = line@.skip(start as int);
    assert(front == trimmed_start(line@));
    let mut end: usize = line.len();
    assert(line@.subrange(start as int, end as int) =~= front);
    while end > start && blank(line[end - 1])
        invariant
            start <= end <= line.len(),
            trimmed_end(line@.subrange(start as int, end as int)) == trimmed_end(front),
        decreases end - start,
    {
        let ghost here = line@.subrange(start as int, end as int);
        assert(here.last() == line@[end as int - 1]);
        assert(here.drop_last() =~= line@.subrange(start as int, end as int - 1));
        end -= 1;
    }
    proof {
        let here = line@.subrange(start as int, end as int);
        if end > start {
            assert(here.last() == line@[end as int - 1]);
        }
        assert(trimmed_end(here) == here);
    }
    let mut inner: Vec<char> = Vec::new();
    let mut i: usize = start;
    while i < end
        invariant
            start <= i <= end <= line.len(),
            inner@ == line@.subrange(start as int, i as int),
        decreases end - i,
    {
        inner.push(line[i]);
        assert(inner@ =~= line@.subrange(start as int, i as int + 1));
        i += 1;
    }
    inner
}

/// Reads the record on one line, as it comes off the wire: the blanks
/// around it, the line break above all, do not count.
pub fn decode_line(line: &str) -> (event: Option<Event>)
    ensures
        event_view(event) == decoded(trimmed(line@)),
{
    decode_chars(&trim(&chars_of(line)))
}

/// A record is one line: it holds no control character, and so no line
/// break, whatever stands in the event.
pub proof fn law_record_is_one_line(event: EventView)
    ensures
        is_plain(record_text(event)),
        !record_text(event).contains('\n'),
        !record_text(event).contains('\r'),
{
    let name = kind_name(kind_of(event.payload));
    let values = fields_of(event.payload);
    lemma_quoted_is_plain(event.source);
    lemma_quoted_is_plain(name);
    lemma_list_is_plain(values);
    lemma_plain_parts(opening(), quoted(event.source));
    lemma_plain_parts(opening() + quoted(event.source), middle());
    lemma_plain_parts(opening() + quoted(event.source) + middle(), quoted(name));
    lemma_plain_parts(opening() + quoted(event.source) + middle() + quoted(name), seq![':']);
    lemma_plain_parts(
        opening() + quoted(event.source) + middle() + quoted(name) + seq![':'],
        list_text(values),
    );
    lemma_plain_parts(
        opening() + quoted(event.source) + middle() + quoted(name) + seq![':'] + list_text(
            values,
        ),
        closing(),
    );
    let record = record_text(event);
    if record.contains('\n') {
        let k = choose|k: int| 0 <= k < record.len() && record[k] == '\n';
        assert(record[k] as int >= 0x20);
    }
    if record.contains('\r') {
        let k = choose|k: int| 0 <= k < record.len() && record[k] == '\r';
        assert(record[k] as int >= 0x20);
    }
}

/// A line that `encode_line` wrote reads back as the event.
pub proof fn law_line_round_trip(event: EventView)
    ensures
        decoded(trimmed(record_text(event).push('\n'))) == Some(event),
{
    let record = record_text(event);
    let line = record.push('\n');
    assert(record[0] == '{') by {
        assert(record =~= opening() + (quoted(event.source) + middle() + quoted(
            kind_name(kind_of(event.payload)),
        ) + seq![':'] + list_text(fields_of(event.payload)) + closing()));
    }
    assert(record.last() == '}');
    assert(line[0] == record[0]);
    assert(trimmed_start(line) == line);
    assert(line.drop_last() =~= record);
    assert(trimmed_end(line) == trimmed_end(record));
    assert(trimmed_end(record) == record);
    law_wire_round_trip(event);
}

} // verus!
