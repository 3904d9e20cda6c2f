//! Laws of the block readers, stated over the spec-level readers and
//! proved once and for all: implicit termination on exhausted input,
//! last-write-wins for known properties, preservation of unknown
//! properties in encounter order, rejection of a calendar nested inside
//! a calendar, and purity of the parse.

use vstd::prelude::*;

use crate::parser::lemma_spec_read_tz_suffix;
use crate::parser::lemma_spec_read_vevent_suffix;
use crate::parser::lemma_spec_read_vtimezone_suffix;
use crate::parser::spec_event_step;
use crate::parser::spec_read_document;
use crate::parser::spec_rule_step;
use crate::parser::spec_read_tz;
use crate::parser::spec_read_vcalendar;
use crate::parser::spec_read_vevent;
use crate::parser::spec_read_vtimezone;
use crate::records::CalendarModel;
use crate::records::EventModel;
use crate::records::ParseError;
use crate::records::TimezoneModel;
use crate::records::TimezoneRuleModel;
use crate::records::Tok;
use crate::records::init_calendar_model;
use crate::records::init_event_model;
use crate::records::init_rule_model;
use crate::records::init_timezone_model;

verus! {

/// A token that keeps a reader keyed on `label` looping: it neither
/// opens a nested block nor closes the reader's own block.
pub open spec fn plain_block_token(t: Tok, label: Seq<char>) -> bool {
    t.0 != "BEGIN"@ && !(t.0 == "END"@ && t.1 == label)
}

/// The value of the last token with the given key, if any.
pub open spec fn last_value(ts: Seq<Tok>, key: Seq<char>) -> Option<Seq<char>>
    decreases ts.len(),
{
    if ts.len() == 0 {
        None
    } else if ts.last().0 == key {
        Some(ts.last().1)
    } else {
        last_value(ts.drop_last(), key)
    }
}

/// `last_value` seen from the front: the last occurrence in `ts` is the
/// last occurrence after the first token, unless only the first token
/// carries the key.
proof fn lemma_last_value_front(ts: Seq<Tok>, key: Seq<char>)
    requires
        ts.len() > 0,
    ensures
        last_value(ts, key) == (if last_value(ts.skip(1), key) is Some {
            last_value(ts.skip(1), key)
        } else if ts[0].0 == key {
            Some(ts[0].1)
        } else {
            None
        }),
    decreases ts.len(),
{
    if ts.len() == 1 {
        assert(ts.skip(1) =~= Seq::<Tok>::empty());
        assert(ts.drop_last() =~= Seq::<Tok>::empty());
        assert(ts.last() == ts[0]);
    } else {
        assert(ts.skip(1).last() == ts.last());
        assert(ts.skip(1).drop_last() =~= ts.drop_last().skip(1));
        if ts.last().0 == key {
        } else {
            lemma_last_value_front(ts.drop_last(), key);
            assert(ts.drop_last()[0] == ts[0]);
        }
    }
}

/// Implicit termination of the event reader: a block body that runs out
/// before an `END:VEVENT` token (and opens no nested block) is read to
/// the end and yields the partially populated record, not an error.
pub proof fn lemma_event_implicit_termination(ts: Seq<Tok>, m: EventModel)
    requires
        forall|j: int| 0 <= j < ts.len() ==> plain_block_token(#[trigger] ts[j], "VEVENT"@),
    ensures
        spec_read_vevent(ts, m) is Ok,
        spec_read_vevent(ts, m)->Ok_0.1 == Seq::<Tok>::empty(),
    decreases ts.len(),
{
    if ts.len() > 0 {
        assert(plain_block_token(ts[0], "VEVENT"@));
        assert forall|j: int| 0 <= j < ts.skip(1).len() implies plain_block_token(
            #[trigger] ts.skip(1)[j],
            "VEVENT"@,
        ) by {
            assert(ts.skip(1)[j] == ts[j + 1]);
        }
        lemma_event_implicit_termination(ts.skip(1), spec_event_step(m, ts[0]));
    }
}

/// Implicit termination of the timezone-rule reader: a body that runs
/// out before an `END` token matching the declared label is read to the
/// end and yields the partially populated record.
pub proof fn lemma_rule_implicit_termination(name: Seq<char>, ts: Seq<Tok>, m: TimezoneRuleModel)
    requires
        forall|j: int| 0 <= j < ts.len() ==> !((#[trigger] ts[j]).0 == "END"@ && ts[j].1 == name),
    ensures
        spec_read_tz(name, ts, m).1 == Seq::<Tok>::empty(),
    decreases ts.len(),
{
    if ts.len() > 0 {
        assert forall|j: int| 0 <= j < ts.skip(1).len() implies !((#[trigger] ts.skip(1)[j]).0
            == "END"@ && ts.skip(1)[j].1 == name) by {
            assert(ts.skip(1)[j] == ts[j + 1]);
        }
        lemma_rule_implicit_termination(name, ts.skip(1), spec_rule_step(m, ts[0]));
    }
}

/// Implicit termination of the timezone reader: a token sequence that
/// runs out before a closing `END:VTIMEZONE` token is read to the end,
/// sub-blocks included, and yields the partially populated record.
pub proof fn lemma_timezone_implicit_termination(ts: Seq<Tok>, m: TimezoneModel)
    requires
        forall|j: int|
            0 <= j < ts.len() ==> !((#[trigger] ts[j]).0 == "END"@ && ts[j].1 == "VTIMEZONE"@),
    ensures
        spec_read_vtimezone(ts, m).1 == Seq::<Tok>::empty(),
    decreases ts.len(),
{
    if ts.len() > 0 {
        assert forall|j: int| 0 <= j < ts.skip(1).len() implies !((#[trigger] ts.skip(1)[j]).0
            == "END"@ && ts.skip(1)[j].1 == "VTIMEZONE"@) by {
            assert(ts.skip(1)[j] == ts[j + 1]);
        }
        let t = ts[0];
        if t.0 == "BEGIN"@ {
            let (rule, mid) = spec_read_tz(t.1, ts.skip(1), init_rule_model());
            lemma_spec_read_tz_suffix(t.1, ts.skip(1), init_rule_model());
            assert(ts.skip(1).skip(ts.skip(1).len() - mid.len()) =~= ts.skip(ts.len() - mid.len()));
            assert forall|j: int| 0 <= j < mid.len() implies !((#[trigger] mid[j]).0 == "END"@
                && mid[j].1 == "VTIMEZONE"@) by {
                assert(mid[j] == ts[ts.len() - mid.len() + j]);
            }
            lemma_timezone_implicit_termination(
                mid,
                TimezoneModel { definitions: m.definitions.insert(t.1, rule), ..m },
            );
        } else if t.0 == "TZID"@ {
            lemma_timezone_implicit_termination(
                ts.skip(1),
                TimezoneModel { tzid: Some(t.1), ..m },
            );
        } else {
            lemma_timezone_implicit_termination(
                ts.skip(1),
                TimezoneModel { unknown: m.unknown.push(t), ..m },
            );
        }
    }
}

/// Implicit termination of the calendar reader: whenever the reader
/// succeeds on a token sequence with no closing `END:VCALENDAR`, it has
/// read the sequence to its end, nested blocks included, and yields the
/// partially populated record. On such input the reader can still fail
/// (on a nested calendar, or on a block inside one of its events), but
/// it never fails merely because the sequence ran out.
pub proof fn lemma_calendar_implicit_termination(ts: Seq<Tok>, m: CalendarModel)
    requires
        forall|j: int|
            0 <= j < ts.len() ==> !((#[trigger] ts[j]).0 == "END"@ && ts[j].1 == "VCALENDAR"@),
    ensures
        spec_read_vcalendar(ts, m) matches Ok(r) ==> r.1 == Seq::<Tok>::empty(),
    decreases ts.len(),
{
    if ts.len() > 0 {
        assert forall|j: int| 0 <= j < ts.skip(1).len() implies !((#[trigger] ts.skip(1)[j]).0
            == "END"@ && ts.skip(1)[j].1 == "VCALENDAR"@) by {
            assert(ts.skip(1)[j] == ts[j + 1]);
        }
        let t = ts[0];
        if t.0 == "BEGIN"@ {
            if t.1 == "VEVENT"@ {
                match spec_read_vevent(ts.skip(1), init_event_model()) {
                    Ok((ev, mid)) => {
                        lemma_spec_read_vevent_suffix(ts.skip(1), init_event_model());
                        assert(ts.skip(1).skip(ts.skip(1).len() - mid.len()) =~= ts.skip(
                            ts.len() - mid.len(),
                        ));
                        assert forall|j: int| 0 <= j < mid.len() implies !((#[trigger] mid[j]).0
                            == "END"@ && mid[j].1 == "VCALENDAR"@) by {
                            assert(mid[j] == ts[ts.len() - mid.len() + j]);
                        }
                        lemma_calendar_implicit_termination(
                            mid,
                            CalendarModel { events: m.events.push(ev), ..m },
                        );
                    },
                    Err(_) => {},
                }
            } else if t.1 == "VCALENDAR"@ {
                // the reader fails here, so there is nothing to show
            } else if t.1 == "VTIMEZONE"@ {
                let (tz, mid) = spec_read_vtimezone(ts.skip(1), init_timezone_model());
                lemma_spec_read_vtimezone_suffix(ts.skip(1), init_timezone_model());
                assert(ts.skip(1).skip(ts.skip(1).len() - mid.len()) =~= ts.skip(
                    ts.len() - mid.len(),
                ));
                assert forall|j: int| 0 <= j < mid.len() implies !((#[trigger] mid[j]).0 == "END"@
                    && mid[j].1 == "VCALENDAR"@) by {
                    assert(mid[j] == ts[ts.len() - mid.len() + j]);
                }
                lemma_calendar_implicit_termination(
                    mid,
                    CalendarModel { timezone: Some(tz), ..m },
                );
            } else {
                lemma_calendar_implicit_termination(ts.skip(1), m);
            }
        } else if t.0 == "METHOD"@ {
            lemma_calendar_implicit_termination(
                ts.skip(1),
                CalendarModel { method: Some(t.1), ..m },
            );
        } else if t.0 == "PRODID"@ {
            lemma_calendar_implicit_termination(
                ts.skip(1),
                CalendarModel { prodid: Some(t.1), ..m },
            );
        } else if t.0 == "VERSION"@ {
            lemma_calendar_implicit_termination(
                ts.skip(1),
                CalendarModel { version: Some(t.1), ..m },
            );
        } else {
            lemma_calendar_implicit_termination(
                ts.skip(1),
                CalendarModel { unknown: m.unknown.push(t), ..m },
            );
        }
    }
}

/// Last write wins in an event block: reading a block body (one that
/// opens no nested block and holds no closing `END:VEVENT`) leaves
/// `summary` at the value of the body's last `SUMMARY` property, or
/// unchanged if the body has none. A second `SUMMARY` line therefore
/// overwrites the first.
pub proof fn lemma_event_last_write_wins(ts: Seq<Tok>, m: EventModel)
    requires
        forall|j: int| 0 <= j < ts.len() ==> plain_block_token(#[trigger] ts[j], "VEVENT"@),
    ensures
        spec_read_vevent(ts, m) is Ok,
        spec_read_vevent(ts, m)->Ok_0.0.summary == (match last_value(ts, "SUMMARY"@) {
            Some(v) => Some(v),
            None => m.summary,
        }),
    decreases ts.len(),
{
    lemma_event_implicit_termination(ts, m);
    if ts.len() > 0 {
        reveal_strlit("UID");
        reveal_strlit("SUMMARY");
        assert("UID"@.len() == 3);
        assert("SUMMARY"@.len() == 7);
        assert(plain_block_token(ts[0], "VEVENT"@));
        assert forall|j: int| 0 <= j < ts.skip(1).len() implies plain_block_token(
            #[trigger] ts.skip(1)[j],
            "VEVENT"@,
        ) by {
            assert(ts.skip(1)[j] == ts[j + 1]);
        }
        lemma_event_last_write_wins(ts.skip(1), spec_event_step(m, ts[0]));
        lemma_last_value_front(ts, "SUMMARY"@);
    }
}

/// The keys the event reader recognizes and stores into typed fields.
pub open spec fn known_event_key(k: Seq<char>) -> bool {
    k == "UID"@ || k == "SUMMARY"@ || k == "SEQUENCE"@ || k == "DTSTAMP"@ || k == "LOCATION"@ || k
        == "CATEGORIES"@ || k == "DESCRIPTION"@ || k == "CLASS"@
}

/// The subsequence of tokens whose keys the event reader does not
/// recognize, in encounter order.
pub open spec fn unrecognized_event_tokens(ts: Seq<Tok>) -> Seq<Tok>
    decreases ts.len(),
{
    if ts.len() == 0 {
        Seq::empty()
    } else if known_event_key(ts[0].0) {
        unrecognized_event_tokens(ts.skip(1))
    } else {
        seq![ts[0]] + unrecognized_event_tokens(ts.skip(1))
    }
}

/// Unknown properties of an event block are preserved in encounter
/// order and never deduplicated: reading a block body appends exactly
/// the body's unrecognized tokens, in order, to the unknown bag.
pub proof fn lemma_event_unknown_order(ts: Seq<Tok>, m: EventModel)
    requires
        forall|j: int| 0 <= j < ts.len() ==> plain_block_token(#[trigger] ts[j], "VEVENT"@),
    ensures
        spec_read_vevent(ts, m) is Ok,
        spec_read_vevent(ts, m)->Ok_0.0.unknown == m.unknown + unrecognized_event_tokens(ts),
    decreases ts.len(),
{
    lemma_event_implicit_termination(ts, m);
    if ts.len() == 0 {
        assert(m.unknown + unrecognized_event_tokens(ts) =~= m.unknown);
    } else {
        assert(plain_block_token(ts[0], "VEVENT"@));
        assert forall|j: int| 0 <= j < ts.skip(1).len() implies plain_block_token(
            #[trigger] ts.skip(1)[j],
            "VEVENT"@,
        ) by {
            assert(ts.skip(1)[j] == ts[j + 1]);
        }
        let t = ts[0];
        lemma_event_unknown_order(ts.skip(1), spec_event_step(m, t));
        if known_event_key(t.0) {
            assert(spec_event_step(m, t).unknown == m.unknown);
        } else {
            assert(m.unknown.push(t) + unrecognized_event_tokens(ts.skip(1)) =~= m.unknown + (seq![
                t,
            ] + unrecognized_event_tokens(ts.skip(1))));
        }
    }
}

/// A calendar nested directly inside a calendar is rejected: a calendar
/// body that opens with `BEGIN:VCALENDAR` makes the calendar reader
/// fail, and when the inner calendar itself reads cleanly the error is
/// `IllegalNesting`.
pub proof fn lemma_calendar_nesting_rejected(ts: Seq<Tok>, m: CalendarModel)
    requires
        ts.len() > 0,
        ts[0] == (("BEGIN"@, "VCALENDAR"@)),
    ensures
        spec_read_vcalendar(ts, m) is Err,
        spec_read_vcalendar(ts.skip(1), init_calendar_model()) is Ok ==> spec_read_vcalendar(ts, m)
            == Err::<(CalendarModel, Seq<Tok>), ParseError>(ParseError::IllegalNesting),
{
    reveal_strlit("BEGIN");
    reveal_strlit("END");
    reveal_strlit("VEVENT");
    reveal_strlit("VCALENDAR");
    assert("BEGIN"@.len() == 5);
    assert("END"@.len() == 3);
    assert("VEVENT"@.len() == 6);
    assert("VCALENDAR"@.len() == 9);
    assert("BEGIN"@ != "END"@);
    assert("VCALENDAR"@ != "VEVENT"@);
}

/// Parsing is a pure function of the token sequence: two parses of
/// equal sequences yield equal outcomes.
pub proof fn lemma_parse_deterministic(a: Seq<Tok>, b: Seq<Tok>)
    requires
        a == b,
    ensures
        spec_read_document(a) == spec_read_document(b),
{
}

} // verus!
