use charon_core::event::{DomainEvent, Event, Mode, Modifiers, StatsSnapshot};
use charon_core::wire::{decode, decode_line, encode, encode_line};

fn event(source: &str, payload: DomainEvent) -> Event {
    Event::new(source.to_string(), payload)
}

fn every_variant() -> Vec<(Event, &'static str)> {
    vec![
        (
            event("kbd", DomainEvent::KeyPress(30, Modifiers::none())),
            r#"{"source":"kbd","payload":{"KeyPress":[30,0]}}"#,
        ),
        (
            event("kbd", DomainEvent::KeyRelease(65535, Modifiers { bits: 255 })),
            r#"{"source":"kbd","payload":{"KeyRelease":[65535,255]}}"#,
        ),
        (
            event("hid", DomainEvent::HidReport(vec![0, 0, 4, 0, 0, 0, 0, 255])),
            r#"{"source":"hid","payload":{"HidReport":[0,0,4,0,0,0,0,255]}}"#,
        ),
        (
            event("client", DomainEvent::SendText("hello".to_string())),
            r#"{"source":"client","payload":{"SendText":["hello"]}}"#,
        ),
        (
            event("client", DomainEvent::SendFile("/tmp/a b.txt".to_string(), true)),
            r#"{"source":"client","payload":{"SendFile":["/tmp/a b.txt",true]}}"#,
        ),
        (
            event("typist", DomainEvent::TextSent),
            r#"{"source":"typist","payload":{"TextSent":[]}}"#,
        ),
        (
            event(
                "stats",
                DomainEvent::CurrentStats(StatsSnapshot {
                    total: 18446744073709551615,
                    today: 0,
                    wpm: 65535,
                    max_wpm: 120,
                }),
            ),
            r#"{"source":"stats","payload":{"CurrentStats":[18446744073709551615,0,65535,120]}}"#,
        ),
        (
            event("daemon", DomainEvent::ModeChange(Mode::InApp)),
            r#"{"source":"daemon","payload":{"ModeChange":["InApp"]}}"#,
        ),
        (
            event("daemon", DomainEvent::ModeChange(Mode::PassThrough)),
            r#"{"source":"daemon","payload":{"ModeChange":["PassThrough"]}}"#,
        ),
        (event("broker", DomainEvent::Exit), r#"{"source":"broker","payload":{"Exit":[]}}"#),
        (event("power", DomainEvent::Sleep), r#"{"source":"power","payload":{"Sleep":[]}}"#),
        (event("power", DomainEvent::WakeUp), r#"{"source":"power","payload":{"WakeUp":[]}}"#),
        (
            event("hid", DomainEvent::ReportSent()),
            r#"{"source":"hid","payload":{"ReportSent":[]}}"#,
        ),
    ]
}

#[test]
fn every_variant_is_written_as_its_record() {
    for (event, record) in every_variant() {
        assert_eq!(encode(&event), record);
    }
}

#[test]
fn every_variant_reads_back() {
    for (event, record) in every_variant() {
        assert_eq!(decode(record), Some(event.clone()));
        assert_eq!(decode(&encode(&event)), Some(event));
    }
}

#[test]
fn quotes_backslashes_and_control_characters_are_escaped() {
    let text = "say \"hi\"\\\n\ttab\u{0}\u{1f} end".to_string();
    let event = event("a\"b", DomainEvent::SendText(text));
    let record = encode(&event);
    assert_eq!(
        record,
        "{\"source\":\"a\\\"b\",\"payload\":{\"SendText\":[\"say \\\"hi\\\"\\\\\\u000a\\u0009tab\\u0000\\u001f end\"]}}"
    );
    assert!(!record.contains('\n'));
    assert_eq!(decode(&record), Some(event));
}

#[test]
fn other_characters_stand_for_themselves() {
    let event = event("клавиатура", DomainEvent::SendFile("~/żółw/日本語 🙂.txt".to_string(), false));
    let record = encode(&event);
    assert_eq!(
        record,
        "{\"source\":\"клавиатура\",\"payload\":{\"SendFile\":[\"~/żółw/日本語 🙂.txt\",false]}}"
    );
    assert_eq!(decode(&record), Some(event));
}

#[test]
fn empty_texts_and_lists_read_back() {
    for event in [
        event("", DomainEvent::SendText(String::new())),
        event("", DomainEvent::HidReport(Vec::new())),
        event("x", DomainEvent::SendFile(String::new(), false)),
    ] {
        assert_eq!(decode(&encode(&event)), Some(event));
    }
    assert_eq!(
        encode(&event("", DomainEvent::HidReport(Vec::new()))),
        r#"{"source":"","payload":{"HidReport":[]}}"#
    );
}

#[test]
fn line_is_the_record_and_a_line_break() {
    for (event, record) in every_variant() {
        let line = encode_line(&event);
        assert_eq!(line, format!("{record}\n"));
        assert_eq!(line.matches('\n').count(), 1);
        assert_eq!(decode_line(&line), Some(event));
    }
}

#[test]
fn blanks_around_a_line_do_not_count() {
    let record = r#"{"source":"kbd","payload":{"KeyPress":[30,0]}}"#;
    let expected = event("kbd", DomainEvent::KeyPress(30, Modifiers::none()));
    assert_eq!(decode_line(record), Some(expected.clone()));
    assert_eq!(decode_line(&format!("{record}\r\n")), Some(expected.clone()));
    assert_eq!(decode_line(&format!(" \t{record} \n")), Some(expected.clone()));
    assert_eq!(decode(&format!("{record}\n")), None);
    assert_eq!(decode(&format!(" {record}")), None);
    assert_eq!(decode_line(""), None);
    assert_eq!(decode_line(" \n"), None);
}

#[test]
fn every_white_space_character_counts_as_a_blank_and_no_other() {
    let record = r#"{"source":"kbd","payload":{"KeyPress":[30,0]}}"#;
    let expected = event("kbd", DomainEvent::KeyPress(30, Modifiers::none()));
    let mut blanks = 0;
    for c in (0..=0x10ffff_u32).filter_map(char::from_u32) {
        let in_front = decode_line(&format!("{c}{record}"));
        let behind = decode_line(&format!("{record}{c}"));
        if c.is_whitespace() {
            blanks += 1;
            assert_eq!(in_front, Some(expected.clone()), "{:?}", c);
            assert_eq!(behind, Some(expected.clone()), "{:?}", c);
        } else {
            assert_eq!(in_front, None, "{:?}", c);
            assert_eq!(behind, None, "{:?}", c);
        }
    }
    assert_eq!(blanks, 25);
    assert_eq!(decode_line(&format!("\u{c}\u{3000} {record}\u{85}\u{2028}\r\n")), Some(expected));
}

#[test]
fn malformed_records_are_refused() {
    let malformed = [
        "",
        "not a record",
        "{}",
        r#"{"source":"kbd"}"#,
        r#"{"source":"kbd","payload":{"KeyPress":[30,0]}"#,
        r#"{"source":"kbd","payload":{"KeyPress":[30,0]}}}"#,
        r#"{"source":"kbd","payload":{"KeyPress":[30,0]}} "#,
        r#"{"source": "kbd","payload":{"KeyPress":[30,0]}}"#,
        r#"{"source":"kbd","payload":{"KeyPress":[30, 0]}}"#,
        r#"{"payload":{"KeyPress":[30,0]},"source":"kbd"}"#,
        r#"{"source":kbd,"payload":{"KeyPress":[30,0]}}"#,
        r#"{"source":"kbd","payload":{"KeyPress":[30,0,]}}"#,
        r#"{"source":"kbd","payload":{"KeyPress":[,30,0]}}"#,
        r#"{"source":"kbd","payload":{"KeyPress":30,0}}"#,
        r#"{"source":"kbd","payload":{"KeyPress":[30,0}}"#,
    ];
    for text in malformed {
        assert_eq!(decode(text), None, "{text}");
    }
}

#[test]
fn unknown_kinds_and_wrong_fields_are_refused() {
    let refused = [
        r#"{"source":"kbd","payload":{"KeyDown":[30,0]}}"#,
        r#"{"source":"kbd","payload":{"keypress":[30,0]}}"#,
        r#"{"source":"kbd","payload":{"":[]}}"#,
        r#"{"source":"kbd","payload":{"KeyPress":[30]}}"#,
        r#"{"source":"kbd","payload":{"KeyPress":[30,0,0]}}"#,
        r#"{"source":"kbd","payload":{"KeyPress":["30",0]}}"#,
        r#"{"source":"kbd","payload":{"KeyPress":[65536,0]}}"#,
        r#"{"source":"kbd","payload":{"KeyPress":[30,256]}}"#,
        r#"{"source":"hid","payload":{"HidReport":[1,256]}}"#,
        r#"{"source":"hid","payload":{"HidReport":[1,"2"]}}"#,
        r#"{"source":"c","payload":{"SendText":[]}}"#,
        r#"{"source":"c","payload":{"SendText":[1]}}"#,
        r#"{"source":"c","payload":{"SendFile":["a"]}}"#,
        r#"{"source":"c","payload":{"SendFile":[true,"a"]}}"#,
        r#"{"source":"c","payload":{"SendFile":["a",1]}}"#,
        r#"{"source":"s","payload":{"CurrentStats":[1,2,3]}}"#,
        r#"{"source":"s","payload":{"CurrentStats":[1,2,65536,3]}}"#,
        r#"{"source":"d","payload":{"ModeChange":["Menu"]}}"#,
        r#"{"source":"d","payload":{"ModeChange":[]}}"#,
        r#"{"source":"d","payload":{"Exit":[0]}}"#,
        r#"{"source":"d","payload":{"TextSent":[""]}}"#,
    ];
    for text in refused {
        assert_eq!(decode(text), None, "{text}");
    }
}

#[test]
fn numbers_are_read_in_one_form_only() {
    assert_eq!(
        decode(r#"{"source":"kbd","payload":{"KeyPress":[0,0]}}"#),
        Some(event("kbd", DomainEvent::KeyPress(0, Modifiers::none())))
    );
    let refused = [
        r#"{"source":"kbd","payload":{"KeyPress":[030,0]}}"#,
        r#"{"source":"kbd","payload":{"KeyPress":[00,0]}}"#,
        r#"{"source":"kbd","payload":{"KeyPress":[+30,0]}}"#,
        r#"{"source":"kbd","payload":{"KeyPress":[-1,0]}}"#,
        r#"{"source":"kbd","payload":{"KeyPress":[30.0,0]}}"#,
        r#"{"source":"kbd","payload":{"KeyPress":[3e1,0]}}"#,
        r#"{"source":"s","payload":{"CurrentStats":[18446744073709551616,0,0,0]}}"#,
        r#"{"source":"s","payload":{"CurrentStats":[99999999999999999999999,0,0,0]}}"#,
    ];
    for text in refused {
        assert_eq!(decode(text), None, "{text}");
    }
}

#[test]
fn strings_are_read_in_one_form_only() {
    let refused = [
        "{\"source\":\"k\nbd\",\"payload\":{\"Exit\":[]}}",
        "{\"source\":\"k\\nbd\",\"payload\":{\"Exit\":[]}}",
        "{\"source\":\"k\\u000Abd\",\"payload\":{\"Exit\":[]}}",
        "{\"source\":\"k\\u0041bd\",\"payload\":{\"Exit\":[]}}",
        "{\"source\":\"k\\u00\",\"payload\":{\"Exit\":[]}}",
        "{\"source\":\"k\\/bd\",\"payload\":{\"Exit\":[]}}",
        "{\"source\":\"kbd,\"payload\":{\"Exit\":[]}}",
        "{\"source\":\"kbd\\\",\"payload\":{\"Exit\":[]}}",
    ];
    for text in refused {
        assert_eq!(decode(text), None, "{text}");
    }
    assert_eq!(
        decode("{\"source\":\"k\\u000abd\",\"payload\":{\"Exit\":[]}}"),
        Some(event("k\nbd", DomainEvent::Exit))
    );
}

#[test]
fn flags_are_read_in_one_form_only() {
    assert_eq!(decode(r#"{"source":"c","payload":{"SendFile":["a",True]}}"#), None);
    assert_eq!(decode(r#"{"source":"c","payload":{"SendFile":["a",tru]}}"#), None);
    assert_eq!(decode(r#"{"source":"c","payload":{"SendFile":["a",falsey]}}"#), None);
    assert_eq!(
        decode(r#"{"source":"c","payload":{"SendFile":["a",false]}}"#),
        Some(event("c", DomainEvent::SendFile("a".to_string(), false)))
    );
}
