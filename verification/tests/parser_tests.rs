use icalparse::parser::check_format;
use icalparse::parser::parse_document;
use icalparse::parser::read_begin;
use icalparse::parser::read_document;
use icalparse::parser::read_tz;
use icalparse::parser::read_vevent;
use icalparse::parser::read_vtimezone;
use icalparse::records::ParseError;
use icalparse::records::ParsedEntry;
use icalparse::records::Property;
use icalparse::tokenizer::tokenize;

fn prop(key: &str, value: &str) -> Property {
    Property { key: key.to_string(), value: value.to_string() }
}

fn unknown_pairs(unknown: &[Property]) -> Vec<(&str, &str)> {
    unknown.iter().map(|p| (p.key.as_str(), p.value.as_str())).collect()
}

#[test]
fn event_round_trip_of_known_fields() {
    let toks = tokenize("BEGIN:VEVENT\nUID:1\nSUMMARY:Test\nEND:VEVENT\n");
    let entry = read_document(&toks).unwrap().unwrap();
    match entry {
        ParsedEntry::Event(ev) => {
            assert_eq!(ev.uid.as_deref(), Some("1"));
            assert_eq!(ev.summary.as_deref(), Some("Test"));
            assert_eq!(ev.class, None);
            assert_eq!(ev.sequence, None);
            assert_eq!(ev.dtstamp, None);
            assert_eq!(ev.location, None);
            assert_eq!(ev.categories, None);
            assert_eq!(ev.description, None);
            assert!(ev.unknown.is_empty());
        }
        _ => panic!("expected an event entry"),
    }
}

#[test]
fn event_last_write_wins() {
    let toks = tokenize("BEGIN:VEVENT\nSUMMARY:first\nSUMMARY:second\nEND:VEVENT\n");
    match read_document(&toks).unwrap().unwrap() {
        ParsedEntry::Event(ev) => {
            assert_eq!(ev.summary.as_deref(), Some("second"));
        }
        _ => panic!("expected an event entry"),
    }
}

#[test]
fn event_unknown_properties_keep_encounter_order() {
    let toks = tokenize("BEGIN:VEVENT\nX-FOO:1\nX-BAR:2\nEND:VEVENT\n");
    match read_document(&toks).unwrap().unwrap() {
        ParsedEntry::Event(ev) => {
            assert_eq!(unknown_pairs(&ev.unknown), vec![("X-FOO", "1"), ("X-BAR", "2")]);
        }
        _ => panic!("expected an event entry"),
    }
}

#[test]
fn calendar_with_timezone_and_two_events() {
    let text = "BEGIN:VCALENDAR\n\
                VERSION:2\n\
                PRODID:tester\n\
                BEGIN:VTIMEZONE\n\
                TZID:Europe_Berlin\n\
                END:VTIMEZONE\n\
                BEGIN:VEVENT\nUID:one\nEND:VEVENT\n\
                BEGIN:VEVENT\nUID:two\nEND:VEVENT\n\
                END:VCALENDAR\n";
    let toks = tokenize(text);
    match read_document(&toks).unwrap().unwrap() {
        ParsedEntry::Calendar(cal) => {
            assert_eq!(cal.version.as_deref(), Some("2"));
            assert_eq!(cal.prodid.as_deref(), Some("tester"));
            assert_eq!(cal.method, None);
            let tz = cal.timezone.expect("timezone should be set");
            assert_eq!(tz.tzid.as_deref(), Some("Europe_Berlin"));
            assert_eq!(cal.events.len(), 2);
            assert_eq!(cal.events[0].uid.as_deref(), Some("one"));
            assert_eq!(cal.events[1].uid.as_deref(), Some("two"));
            assert!(cal.unknown.is_empty());
        }
        _ => panic!("expected a calendar entry"),
    }
}

#[test]
fn later_timezone_overwrites_earlier_one() {
    let text = "BEGIN:VCALENDAR\n\
                BEGIN:VTIMEZONE\nTZID:first\nEND:VTIMEZONE\n\
                BEGIN:VTIMEZONE\nTZID:second\nEND:VTIMEZONE\n\
                END:VCALENDAR\n";
    let toks = tokenize(text);
    match read_document(&toks).unwrap().unwrap() {
        ParsedEntry::Calendar(cal) => {
            assert_eq!(cal.timezone.unwrap().tzid.as_deref(), Some("second"));
        }
        _ => panic!("expected a calendar entry"),
    }
}

#[test]
fn nested_calendar_is_rejected() {
    let toks = tokenize("BEGIN:VCALENDAR\nBEGIN:VCALENDAR\nEND:VCALENDAR\nEND:VCALENDAR\n");
    assert_eq!(read_document(&toks), Err(ParseError::IllegalNesting));
}

#[test]
fn begin_inside_event_is_rejected() {
    let toks = tokenize("BEGIN:VCALENDAR\nBEGIN:VEVENT\nBEGIN:VALARM\nEND:VCALENDAR\n");
    assert_eq!(read_document(&toks), Err(ParseError::IllegalChildBlock));
}

#[test]
fn empty_input_is_rejected() {
    let toks = tokenize("no property lines here\n");
    assert_eq!(read_document(&toks), Err(ParseError::EmptyInput));
}

#[test]
fn first_token_must_be_begin() {
    let toks = tokenize("UID:stray\n");
    assert_eq!(read_document(&toks), Err(ParseError::UnexpectedBlockKind));
}

#[test]
fn event_reader_terminates_implicitly_without_end() {
    let toks = tokenize("BEGIN:VEVENT\nUID:7\nSUMMARY:open ended\n");
    match read_document(&toks).unwrap().unwrap() {
        ParsedEntry::Event(ev) => {
            assert_eq!(ev.uid.as_deref(), Some("7"));
            assert_eq!(ev.summary.as_deref(), Some("open ended"));
        }
        _ => panic!("expected an event entry"),
    }
}

#[test]
fn calendar_reader_terminates_implicitly_without_end() {
    let toks = tokenize("BEGIN:VCALENDAR\nVERSION:2\nBEGIN:VEVENT\nUID:tail\n");
    match read_document(&toks).unwrap().unwrap() {
        ParsedEntry::Calendar(cal) => {
            assert_eq!(cal.version.as_deref(), Some("2"));
            assert_eq!(cal.events.len(), 1);
            assert_eq!(cal.events[0].uid.as_deref(), Some("tail"));
        }
        _ => panic!("expected a calendar entry"),
    }
}

#[test]
fn timezone_reader_terminates_implicitly_inside_sub_block() {
    let toks = tokenize("BEGIN:VTIMEZONE\nTZID:zone\nBEGIN:STANDARD\nTZNAME:CET\n");
    match read_document(&toks).unwrap().unwrap() {
        ParsedEntry::Timezone(tz) => {
            assert_eq!(tz.tzid.as_deref(), Some("zone"));
            assert_eq!(tz.definition("STANDARD").unwrap().name.as_deref(), Some("CET"));
        }
        _ => panic!("expected a timezone entry"),
    }
}

#[test]
fn parsing_twice_yields_equal_trees() {
    let text = "BEGIN:VCALENDAR\nVERSION:2\nBEGIN:VEVENT\nUID:a\nEND:VEVENT\nEND:VCALENDAR\n";
    let toks = tokenize(text);
    let first = read_document(&toks);
    let second = read_document(&toks);
    assert_eq!(first, second);
    assert_eq!(parse_document(text), first);
}

#[test]
fn unsupported_block_type_yields_no_entry_and_leaks_interior() {
    // The dispatcher does not skip an unsupported block, so its interior
    // tokens run through the enclosing calendar reader as properties.
    let text = "BEGIN:VCALENDAR\n\
                BEGIN:VTODO\nDUE:tomorrow\nEND:VTODO\n\
                END:VCALENDAR\n";
    let toks = tokenize(text);
    match read_document(&toks).unwrap().unwrap() {
        ParsedEntry::Calendar(cal) => {
            assert_eq!(
                unknown_pairs(&cal.unknown),
                vec![("DUE", "tomorrow"), ("END", "VTODO")]
            );
        }
        _ => panic!("expected a calendar entry"),
    }
}

#[test]
fn top_level_unsupported_block_yields_no_entry() {
    let toks = tokenize("BEGIN:VTODO\nDUE:tomorrow\nEND:VTODO\n");
    assert_eq!(read_document(&toks), Ok(None));
}

#[test]
fn timezone_definitions_keyed_by_declared_name() {
    let text = "BEGIN:VTIMEZONE\n\
                TZID:Europe_Berlin\n\
                BEGIN:STANDARD\nTZNAME:CET\nTZOFFSETFROM:0200\nTZOFFSETTO:0100\nEND:STANDARD\n\
                BEGIN:DAYLIGHT\nTZNAME:CEST\nEND:DAYLIGHT\n\
                END:VTIMEZONE\n";
    let toks = tokenize(text);
    match read_document(&toks).unwrap().unwrap() {
        ParsedEntry::Timezone(tz) => {
            assert_eq!(tz.definitions.len(), 2);
            let standard = tz.definition("STANDARD").expect("standard rule");
            assert_eq!(standard.name.as_deref(), Some("CET"));
            assert_eq!(standard.offset_from.as_deref(), Some("0200"));
            assert_eq!(standard.offset_to.as_deref(), Some("0100"));
            let daylight = tz.definition("DAYLIGHT").expect("daylight rule");
            assert_eq!(daylight.name.as_deref(), Some("CEST"));
            assert!(tz.definition("VTODO").is_none());
        }
        _ => panic!("expected a timezone entry"),
    }
}

#[test]
fn duplicate_rule_name_reads_as_last_wins() {
    let text = "BEGIN:VTIMEZONE\n\
                BEGIN:STANDARD\nTZNAME:old\nEND:STANDARD\n\
                BEGIN:STANDARD\nTZNAME:new\nEND:STANDARD\n\
                END:VTIMEZONE\n";
    let toks = tokenize(text);
    match read_document(&toks).unwrap().unwrap() {
        ParsedEntry::Timezone(tz) => {
            let rule = tz.definition("STANDARD").expect("standard rule");
            assert_eq!(rule.name.as_deref(), Some("new"));
        }
        _ => panic!("expected a timezone entry"),
    }
}

#[test]
fn rule_reader_drops_unrecognized_properties() {
    let toks = vec![prop("TZNAME", "CET"), prop("X-NOTE", "ignored"), prop("END", "STANDARD")];
    let (rule, next) = read_tz("STANDARD", &toks, 0);
    assert_eq!(rule.name.as_deref(), Some("CET"));
    assert_eq!(next, 3);
}

#[test]
fn stray_end_token_of_another_block_is_unknown() {
    let toks = vec![prop("END", "VTIMEZONE"), prop("END", "VEVENT")];
    let (ev, next) = read_vevent(&toks, 0).unwrap();
    assert_eq!(unknown_pairs(&ev.unknown), vec![("END", "VTIMEZONE")]);
    assert_eq!(next, 2);
}

#[test]
fn timezone_unknown_properties_are_kept() {
    let toks = vec![prop("X-NOTE", "hello"), prop("END", "VTIMEZONE")];
    let (tz, next) = read_vtimezone(&toks, 0);
    assert_eq!(unknown_pairs(&tz.unknown), vec![("X-NOTE", "hello")]);
    assert_eq!(next, 2);
}

#[test]
fn check_format_accepts_expected_key_only() {
    assert_eq!(check_format(&prop("BEGIN", "VEVENT"), "BEGIN"), Ok(()));
    assert_eq!(
        check_format(&prop("UID", "VEVENT"), "BEGIN"),
        Err(ParseError::UnexpectedBlockKind)
    );
}

#[test]
fn read_begin_rejects_non_begin_token() {
    let toks: Vec<Property> = Vec::new();
    assert_eq!(
        read_begin(&prop("END", "VEVENT"), &toks, 0),
        Err(ParseError::UnexpectedBlockKind)
    );
}

#[test]
fn read_begin_on_unsupported_type_leaves_cursor_in_place() {
    let toks = vec![prop("DUE", "tomorrow")];
    assert_eq!(read_begin(&prop("BEGIN", "VTODO"), &toks, 0), Ok((None, 0)));
}
