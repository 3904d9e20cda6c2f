//! The block parser: a recursive-descent reader over the token sequence.
//!
//! `read_begin` inspects one `BEGIN` token and dispatches to the reader
//! for the declared block type. Each reader consumes tokens from the
//! shared cursor until it sees its matching `END` token or the sequence
//! runs out (an implicit end, not an error), storing recognized
//! properties into typed fields (a later occurrence of a known key
//! overwrites an earlier one) and the rest into the block's unknown bag.
//!
//! Each executable reader is specified against a spec-level reader that
//! takes the remaining token sequence and returns the block's model
//! together with the tokens left after the block.

use vstd::prelude::*;

use crate::tokenizer::spec_tokenize;
use crate::tokenizer::tokenize;
use crate::records::CalendarModel;
use crate::records::CalendarRecord;
use crate::records::EntryModel;
use crate::records::EventModel;
use crate::records::EventRecord;
use crate::records::ParseError;
use crate::records::ParsedEntry;
use crate::records::Property;
use crate::records::TimezoneModel;
use crate::records::TimezoneRecord;
use crate::records::TimezoneRuleModel;
use crate::records::TimezoneRuleRecord;
use crate::records::Tok;
use crate::records::init_calendar_model;
use crate::records::init_event_model;
use crate::records::init_rule_model;
use crate::records::init_timezone_model;

verus! {

/// How one property token changes a timezone-rule record: a known key
/// overwrites its field, any other key is dropped.
pub open spec fn spec_rule_step(m: TimezoneRuleModel, t: Tok) -> TimezoneRuleModel {
    if t.0 == "TZOFFSETFROM"@ {
        TimezoneRuleModel { offset_from: Some(t.1), ..m }
    } else if t.0 == "TZOFFSETTO"@ {
        TimezoneRuleModel { offset_to: Some(t.1), ..m }
    } else if t.0 == "TZNAME"@ {
        TimezoneRuleModel { name: Some(t.1), ..m }
    } else if t.0 == "DTSTART"@ {
        TimezoneRuleModel { dtstart: Some(t.1), ..m }
    } else if t.0 == "RRULE"@ {
        TimezoneRuleModel { rrule: Some(t.1), ..m }
    } else {
        m
    }
}

/// The timezone-rule reader over the token sequence: consume until
/// `END:<name>` (where `name` is the sub-block's declared type) or the
/// end of the sequence, and return the record and the remaining tokens.
/// This reader never fails.
pub open spec fn spec_read_tz(name: Seq<char>, ts: Seq<Tok>, m: TimezoneRuleModel) -> (
    TimezoneRuleModel,
    Seq<Tok>,
)
    decreases ts.len(),
{
    if ts.len() == 0 {
        (m, ts)
    } else {
        let t = ts[0];
        if t.0 == "END"@ && t.1 == name {
            (m, ts.skip(1))
        } else {
            spec_read_tz(name, ts.skip(1), spec_rule_step(m, t))
        }
    }
}

/// What the rule reader leaves over is a suffix of its input.
pub proof fn lemma_spec_read_tz_suffix(name: Seq<char>, ts: Seq<Tok>, m: TimezoneRuleModel)
    ensures
        ({
            let rest = spec_read_tz(name, ts, m).1;
            rest.len() <= ts.len() && rest == ts.skip(ts.len() - rest.len())
        }),
    decreases ts.len(),
{
    if ts.len() > 0 {
        let t = ts[0];
        if !(t.0 == "END"@ && t.1 == name) {
            lemma_spec_read_tz_suffix(name, ts.skip(1), spec_rule_step(m, t));
            let rest = spec_read_tz(name, ts.skip(1), spec_rule_step(m, t)).1;
            assert(ts.skip(1).skip(ts.skip(1).len() - rest.len()) =~= ts.skip(
                ts.len() - rest.len(),
            ));
        }
    }
}

/// How one property token changes an event record: a known key
/// overwrites its field, any other key joins the unknown bag.
pub open spec fn spec_event_step(m: EventModel, t: Tok) -> EventModel {
    if t.0 == "UID"@ {
        EventModel { uid: Some(t.1), ..m }
    } else if t.0 == "SUMMARY"@ {
        EventModel { summary: Some(t.1), ..m }
    } else if t.0 == "SEQUENCE"@ {
        EventModel { sequence: Some(t.1), ..m }
    } else if t.0 == "DTSTAMP"@ {
        EventModel { dtstamp: Some(t.1), ..m }
    } else if t.0 == "LOCATION"@ {
        EventModel { location: Some(t.1), ..m }
    } else if t.0 == "CATEGORIES"@ {
        EventModel { categories: Some(t.1), ..m }
    } else if t.0 == "DESCRIPTION"@ {
        EventModel { description: Some(t.1), ..m }
    } else if t.0 == "CLASS"@ {
        EventModel { class: Some(t.1), ..m }
    } else {
        EventModel { unknown: m.unknown.push(t), ..m }
    }
}

/// The event reader over the token sequence: consume until `END:VEVENT`
/// or the end of the sequence. A `BEGIN` token inside an event block is
/// a fatal format violation: events are leaves.
pub open spec fn spec_read_vevent(ts: Seq<Tok>, m: EventModel) -> Result<
    (EventModel, Seq<Tok>),
    ParseError,
>
    decreases ts.len(),
{
    if ts.len() == 0 {
        Ok((m, ts))
    } else {
        let t = ts[0];
        if t.0 == "END"@ && t.1 == "VEVENT"@ {
            Ok((m, ts.skip(1)))
        } else if t.0 == "BEGIN"@ {
            Err(ParseError::IllegalChildBlock)
        } else {
            spec_read_vevent(ts.skip(1), spec_event_step(m, t))
        }
    }
}

/// What the event reader leaves over, when it succeeds, is a suffix of
/// its input.
pub proof fn lemma_spec_read_vevent_suffix(ts: Seq<Tok>, m: EventModel)
    ensures
        spec_read_vevent(ts, m) matches Ok(r) ==> r.1.len() <= ts.len() && r.1 == ts.skip(
            ts.len() - r.1.len(),
        ),
    decreases ts.len(),
{
    if ts.len() > 0 {
        let t = ts[0];
        if !(t.0 == "END"@ && t.1 == "VEVENT"@) && t.0 != "BEGIN"@ {
            lemma_spec_read_vevent_suffix(ts.skip(1), spec_event_step(m, t));
            match spec_read_vevent(ts.skip(1), spec_event_step(m, t)) {
                Ok(r) => {
                    assert(ts.skip(1).skip(ts.skip(1).len() - r.1.len()) =~= ts.skip(
                        ts.len() - r.1.len(),
                    ));
                },
                Err(_) => {},
            }
        }
    }
}

/// The timezone reader over the token sequence: consume until
/// `END:VTIMEZONE` or the end of the sequence. A nested `BEGIN` token
/// opens a rule sub-block, read by the rule reader keyed on the token's
/// value and stored in `definitions` under that declared name. This
/// reader never fails.
pub open spec fn spec_read_vtimezone(ts: Seq<Tok>, m: TimezoneModel) -> (TimezoneModel, Seq<Tok>)
    decreases ts.len(),
    via spec_read_vtimezone_decreases
{
    if ts.len() == 0 {
        (m, ts)
    } else {
        let t = ts[0];
        if t.0 == "END"@ && t.1 == "VTIMEZONE"@ {
            (m, ts.skip(1))
        } else if t.0 == "BEGIN"@ {
            let (rule, rest) = spec_read_tz(t.1, ts.skip(1), init_rule_model());
            spec_read_vtimezone(
                rest,
                TimezoneModel { definitions: m.definitions.insert(t.1, rule), ..m },
            )
        } else if t.0 == "TZID"@ {
            spec_read_vtimezone(ts.skip(1), TimezoneModel { tzid: Some(t.1), ..m })
        } else {
            spec_read_vtimezone(ts.skip(1), TimezoneModel { unknown: m.unknown.push(t), ..m })
        }
    }
}

#[via_fn]
proof fn spec_read_vtimezone_decreases(ts: Seq<Tok>, m: TimezoneModel) {
    if ts.len() > 0 {
        let t = ts[0];
        if t.0 == "BEGIN"@ {
            lemma_spec_read_tz_suffix(t.1, ts.skip(1), init_rule_model());
        }
    }
}

/// What the timezone reader leaves over is a suffix of its input.
pub proof fn lemma_spec_read_vtimezone_suffix(ts: Seq<Tok>, m: TimezoneModel)
    ensures
        ({
            let rest = spec_read_vtimezone(ts, m).1;
            rest.len() <= ts.len() && rest == ts.skip(ts.len() - rest.len())
        }),
    decreases ts.len(),
{
    if ts.len() > 0 {
        let t = ts[0];
        if t.0 == "END"@ && t.1 == "VTIMEZONE"@ {
        } else if t.0 == "BEGIN"@ {
            let (rule, mid) = spec_read_tz(t.1, ts.skip(1), init_rule_model());
            lemma_spec_read_tz_suffix(t.1, ts.skip(1), init_rule_model());
            assert(ts.skip(1).skip(ts.skip(1).len() - mid.len()) =~= ts.skip(ts.len() - mid.len()));
            let m2 = TimezoneModel { definitions: m.definitions.insert(t.1, rule), ..m };
            lemma_spec_read_vtimezone_suffix(mid, m2);
            let rest = spec_read_vtimezone(mid, m2).1;
            assert(mid.skip(mid.len() - rest.len()) =~= ts.skip(ts.len() - rest.len()));
        } else if t.0 == "TZID"@ {
            lemma_spec_read_vtimezone_suffix(ts.skip(1), TimezoneModel { tzid: Some(t.1), ..m });
            let rest = spec_read_vtimezone(ts.skip(1), TimezoneModel { tzid: Some(t.1), ..m }).1;
            assert(ts.skip(1).skip(ts.skip(1).len() - rest.len()) =~= ts.skip(
                ts.len() - rest.len(),
            ));
        } else {
            let m2 = TimezoneModel { unknown: m.unknown.push(t), ..m };
            lemma_spec_read_vtimezone_suffix(ts.skip(1), m2);
            let rest = spec_read_vtimezone(ts.skip(1), m2).1;
            assert(ts.skip(1).skip(ts.skip(1).len() - rest.len()) =~= ts.skip(
                ts.len() - rest.len(),
            ));
        }
    }
}

/// The calendar reader over the token sequence: consume until
/// `END:VCALENDAR` or the end of the sequence. A nested `BEGIN` token is
/// dispatched by block type: an event is appended to `events`; a
/// timezone is stored as `timezone`, overwriting any earlier one; a
/// calendar inside a calendar is a fatal format violation; a block of
/// any other type yields no entry and consumes nothing beyond its
/// `BEGIN` token, so that block's interior tokens run through this
/// reader as ordinary properties.
pub open spec fn spec_read_vcalendar(ts: Seq<Tok>, m: CalendarModel) -> Result<
    (CalendarModel, Seq<Tok>),
    ParseError,
>
    decreases ts.len(),
    via spec_read_vcalendar_decreases
{
    if ts.len() == 0 {
        Ok((m, ts))
    } else {
        let t = ts[0];
        if t.0 == "END"@ && t.1 == "VCALENDAR"@ {
            Ok((m, ts.skip(1)))
        } else if t.0 == "BEGIN"@ {
            if t.1 == "VEVENT"@ {
                match spec_read_vevent(ts.skip(1), init_event_model()) {
                    Ok((ev, rest)) => spec_read_vcalendar(
                        rest,
                        CalendarModel { events: m.events.push(ev), ..m },
                    ),
                    Err(e) => Err(e),
                }
            } else if t.1 == "VCALENDAR"@ {
                match spec_read_vcalendar(ts.skip(1), init_calendar_model()) {
                    Ok(_) => Err(ParseError::IllegalNesting),
                    Err(e) => Err(e),
                }
            } else if t.1 == "VTIMEZONE"@ {
                let (tz, rest) = spec_read_vtimezone(ts.skip(1), init_timezone_model());
                spec_read_vcalendar(rest, CalendarModel { timezone: Some(tz), ..m })
            } else {
                spec_read_vcalendar(ts.skip(1), m)
            }
        } else if t.0 == "METHOD"@ {
            spec_read_vcalendar(ts.skip(1), CalendarModel { method: Some(t.1), ..m })
        } else if t.0 == "PRODID"@ {
            spec_read_vcalendar(ts.skip(1), CalendarModel { prodid: Some(t.1), ..m })
        } else if t.0 == "VERSION"@ {
            spec_read_vcalendar(ts.skip(1), CalendarModel { version: Some(t.1), ..m })
        } else {
            spec_read_vcalendar(ts.skip(1), CalendarModel { unknown: m.unknown.push(t), ..m })
        }
    }
}

#[via_fn]
proof fn spec_read_vcalendar_decreases(ts: Seq<Tok>, m: CalendarModel) {
    if ts.len() > 0 {
        let t = ts[0];
        if t.0 == "BEGIN"@ {
            if t.1 == "VEVENT"@ {
                lemma_spec_read_vevent_suffix(ts.skip(1), init_event_model());
            } else if t.1 == "VTIMEZONE"@ {
                lemma_spec_read_vtimezone_suffix(ts.skip(1), init_timezone_model());
            }
        }
    }
}

/// The dispatcher over one `BEGIN` token and the tokens after it: check
/// the token's key, then read the block its value declares. A block
/// type this parser does not know yields no entry and leaves the cursor
/// exactly where it was.
pub open spec fn spec_read_begin(t: Tok, ts: Seq<Tok>) -> Result<
    (Option<EntryModel>, Seq<Tok>),
    ParseError,
> {
    if t.0 != "BEGIN"@ {
        Err(ParseError::UnexpectedBlockKind)
    } else if t.1 == "VEVENT"@ {
        match spec_read_vevent(ts, init_event_model()) {
            Ok((ev, rest)) => Ok((Some(EntryModel::Event(ev)), rest)),
            Err(e) => Err(e),
        }
    } else if t.1 == "VCALENDAR"@ {
        match spec_read_vcalendar(ts, init_calendar_model()) {
            Ok((c, rest)) => Ok((Some(EntryModel::Calendar(c)), rest)),
            Err(e) => Err(e),
        }
    } else if t.1 == "VTIMEZONE"@ {
        let (tz, rest) = spec_read_vtimezone(ts, init_timezone_model());
        Ok((Some(EntryModel::Timezone(tz)), rest))
    } else {
        Ok((None, ts))
    }
}

/// What parsing a whole token sequence yields: the entry of its first
/// block, dispatched from the first token, or `EmptyInput` if there are
/// no tokens at all. Tokens after the first block are ignored.
pub open spec fn spec_read_document(ts: Seq<Tok>) -> Result<Option<EntryModel>, ParseError> {
    if ts.len() == 0 {
        Err(ParseError::EmptyInput)
    } else {
        match spec_read_begin(ts[0], ts.skip(1)) {
            Ok((entry, _)) => Ok(entry),
            Err(e) => Err(e),
        }
    }
}

/// Whether the property's key is the given keyword.
fn key_is(p: &Property, kw: &str) -> (b: bool)
    ensures
        b == (p.key@ == kw@),
{
    let k: String = kw.to_owned();
    p.key.eq(&k)
}

/// Whether the property's value is the given keyword.
fn val_is(p: &Property, kw: &str) -> (b: bool)
    ensures
        b == (p.value@ == kw@),
{
    let v: String = kw.to_owned();
    p.value.eq(&v)
}

/// Check that a token carries the expected key; a mismatch is the
/// structural-corruption error.
pub fn check_format(input: &Property, expected: &str) -> (r: Result<(), ParseError>)
    ensures
        r is Ok <==> input.key@ == expected@,
        r is Err ==> r == Err::<(), ParseError>(ParseError::UnexpectedBlockKind),
{
    if key_is(input, expected) {
        Ok(())
    } else {
        Err(ParseError::UnexpectedBlockKind)
    }
}

/// Read one `STANDARD`/`DAYLIGHT` rule sub-block, keyed on the declared
/// label `name`, from `toks[pos..]`; return the record and the position
/// after the block. This reader cannot fail.
pub fn read_tz(name: &str, toks: &Vec<Property>, pos: usize) -> (r: (TimezoneRuleRecord, usize))
    requires
        pos <= toks@.len(),
    ensures
        pos <= r.1 <= toks@.len(),
        spec_read_tz(name@, toks.deep_view().skip(pos as int), init_rule_model()) == (
            r.0@,
            toks.deep_view().skip(r.1 as int),
        ),
{
    let ghost s = toks.deep_view();
    let mut rec = TimezoneRuleRecord::new();
    let mut i: usize = pos;
    loop
        invariant
            s == toks.deep_view(),
            pos <= i <= s.len(),
            spec_read_tz(name@, s.skip(pos as int), init_rule_model()) == spec_read_tz(
                name@,
                s.skip(i as int),
                rec@,
            ),
        decreases s.len() - i,
    {
        if i >= toks.len() {
            proof {
                assert(s.skip(i as int) =~= Seq::<Tok>::empty());
            }
            return (rec, i);
        }
        let p = &toks[i];
        proof {
            assert(s.skip(i as int)[0] == p@);
            assert(s.skip(i as int).skip(1) =~= s.skip(i as int + 1));
        }
        if key_is(p, "END") && val_is(p, name) {
            return (rec, i + 1);
        }
        let ghost before = rec@;
        if key_is(p, "TZOFFSETFROM") {
            rec.offset_from = Some(p.value.clone());
        } else if key_is(p, "TZOFFSETTO") {
            rec.offset_to = Some(p.value.clone());
        } else if key_is(p, "TZNAME") {
            rec.name = Some(p.value.clone());
        } else if key_is(p, "DTSTART") {
            rec.dtstart = Some(p.value.clone());
        } else if key_is(p, "RRULE") {
            rec.rrule = Some(p.value.clone());
        }
        proof {
            assert(rec@ =~= spec_rule_step(before, p@));
        }
        i = i + 1;
    }
}

/// Read one `VEVENT` block from `toks[pos..]`; return the record and the
/// position after the block, or the fatal error a nested `BEGIN` raises.
pub fn read_vevent(toks: &Vec<Property>, pos: usize) -> (r: Result<
    (EventRecord, usize),
    ParseError,
>)
    requires
        pos <= toks@.len(),
    ensures
        ({
            let parsed = spec_read_vevent(toks.deep_view().skip(pos as int), init_event_model());
            match r {
                Ok((rec, newpos)) => pos <= newpos <= toks@.len() && parsed
                    == Ok::<(EventModel, Seq<Tok>), ParseError>((
                    rec@,
                    toks.deep_view().skip(newpos as int),
                )),
                Err(e) => parsed == Err::<(EventModel, Seq<Tok>), ParseError>(e),
            }
        }),
{
    let ghost s = toks.deep_view();
    let mut rec = EventRecord::new();
    let mut i: usize = pos;
    loop
        invariant
            s == toks.deep_view(),
            pos <= i <= s.len(),
            spec_read_vevent(s.skip(pos as int), init_event_model()) == spec_read_vevent(
                s.skip(i as int),
                rec@,
            ),
        decreases s.len() - i,
    {
        if i >= toks.len() {
            proof {
                assert(s.skip(i as int) =~= Seq::<Tok>::empty());
            }
            return Ok((rec, i));
        }
        let p = &toks[i];
        proof {
            assert(s.skip(i as int)[0] == p@);
            assert(s.skip(i as int).skip(1) =~= s.skip(i as int + 1));
        }
        if key_is(p, "END") && val_is(p, "VEVENT") {
            return Ok((rec, i + 1));
        }
        if key_is(p, "BEGIN") {
            return Err(ParseError::IllegalChildBlock);
        }
        let ghost before = rec@;
        if key_is(p, "UID") {
            rec.uid = Some(p.value.clone());
        } else if key_is(p, "SUMMARY") {
            rec.summary = Some(p.value.clone());
        } else if key_is(p, "SEQUENCE") {
            rec.sequence = Some(p.value.clone());
        } else if key_is(p, "DTSTAMP") {
            rec.dtstamp = Some(p.value.clone());
        } else if key_is(p, "LOCATION") {
            rec.location = Some(p.value.clone());
        } else if key_is(p, "CATEGORIES") {
            rec.categories = Some(p.value.clone());
        } else if key_is(p, "DESCRIPTION") {
            rec.description = Some(p.value.clone());
        } else if key_is(p, "CLASS") {
            rec.class = Some(p.value.clone());
        } else {
            let ghost before_unknown = rec.unknown.deep_view();
            rec.unknown.push(p.clone());
            proof {
                assert(rec.unknown.deep_view() =~= before_unknown.push(p@));
            }
        }
        proof {
            assert(rec@ =~= spec_event_step(before, p@));
        }
        i = i + 1;
    }
}

/// Read one `VTIMEZONE` block from `toks[pos..]`; return the record and
/// the position after the block. This reader cannot fail.
pub fn read_vtimezone(toks: &Vec<Property>, pos: usize) -> (r: (TimezoneRecord, usize))
    requires
        pos <= toks@.len(),
    ensures
        pos <= r.1 <= toks@.len(),
        spec_read_vtimezone(toks.deep_view().skip(pos as int), init_timezone_model()) == (
            r.0@,
            toks.deep_view().skip(r.1 as int),
        ),
{
    let ghost s = toks.deep_view();
    let mut rec = TimezoneRecord::new();
    let mut i: usize = pos;
    loop
        invariant
            s == toks.deep_view(),
            pos <= i <= s.len(),
            spec_read_vtimezone(s.skip(pos as int), init_timezone_model()) == spec_read_vtimezone(
                s.skip(i as int),
                rec@,
            ),
        decreases s.len() - i,
    {
        if i >= toks.len() {
            proof {
                assert(s.skip(i as int) =~= Seq::<Tok>::empty());
            }
            return (rec, i);
        }
        let p = &toks[i];
        proof {
            assert(s.skip(i as int)[0] == p@);
            assert(s.skip(i as int).skip(1) =~= s.skip(i as int + 1));
        }
        if key_is(p, "END") && val_is(p, "VTIMEZONE") {
            return (rec, i + 1);
        }
        let ghost before = rec@;
        if key_is(p, "BEGIN") {
            let (rule, j) = read_tz(p.value.as_str(), toks, i + 1);
            let ghost before_defs = rec.definitions.deep_view();
            let ghost rulem = rule@;
            rec.definitions.push((p.value.clone(), rule));
            proof {
                assert(rec.definitions.deep_view() =~= before_defs.push((p@.1, rulem)));
                assert(before_defs.push((p@.1, rulem)).drop_last() =~= before_defs);
                assert(rec@ =~= TimezoneModel {
                    definitions: before.definitions.insert(p@.1, rulem),
                    ..before
                });
            }
            i = j;
        } else if key_is(p, "TZID") {
            rec.tzid = Some(p.value.clone());
            proof {
                assert(rec@ =~= TimezoneModel { tzid: Some(p@.1), ..before });
            }
            i = i + 1;
        } else {
            let ghost before_unknown = rec.unknown.deep_view();
            rec.unknown.push(p.clone());
            proof {
                assert(rec.unknown.deep_view() =~= before_unknown.push(p@));
                assert(rec@ =~= TimezoneModel { unknown: before.unknown.push(p@), ..before });
            }
            i = i + 1;
        }
    }
}

/// Read one `VCALENDAR` block from `toks[pos..]`; return the record and
/// the position after the block, or the fatal error raised by a nested
/// calendar or by a block inside one of its events.
pub fn read_vcalendar(toks: &Vec<Property>, pos: usize) -> (r: Result<
    (CalendarRecord, usize),
    ParseError,
>)
    requires
        pos <= toks@.len(),
    ensures
        ({
            let parsed = spec_read_vcalendar(
                toks.deep_view().skip(pos as int),
                init_calendar_model(),
            );
            match r {
                Ok((rec, newpos)) => pos <= newpos <= toks@.len() && parsed
                    == Ok::<(CalendarModel, Seq<Tok>), ParseError>((
                    rec@,
                    toks.deep_view().skip(newpos as int),
                )),
                Err(e) => parsed == Err::<(CalendarModel, Seq<Tok>), ParseError>(e),
            }
        }),
    decreases toks@.len() - pos, 0int,
{
    let ghost s = toks.deep_view();
    let mut rec = CalendarRecord::new();
    let mut i: usize = pos;
    loop
        invariant
            s == toks.deep_view(),
            pos <= i <= s.len(),
            spec_read_vcalendar(s.skip(pos as int), init_calendar_model()) == spec_read_vcalendar(
                s.skip(i as int),
                rec@,
            ),
        decreases s.len() - i,
    {
        if i >= toks.len() {
            proof {
                assert(s.skip(i as int) =~= Seq::<Tok>::empty());
            }
            return Ok((rec, i));
        }
        let p = &toks[i];
        proof {
            assert(s.skip(i as int)[0] == p@);
            assert(s.skip(i as int).skip(1) =~= s.skip(i as int + 1));
        }
        if key_is(p, "END") && val_is(p, "VCALENDAR") {
            return Ok((rec, i + 1));
        }
        let ghost before = rec@;
        if key_is(p, "BEGIN") {
            match read_begin(p, toks, i + 1) {
                Err(e) => {
                    return Err(e);
                },
                Ok((entry, j)) => {
                    match entry {
                        Some(ParsedEntry::Calendar(_)) => {
                            return Err(ParseError::IllegalNesting);
                        },
                        Some(ParsedEntry::Timezone(tz)) => {
                            let ghost tzm = tz@;
                            rec.timezone = Some(tz);
                            proof {
                                assert(rec@ =~= CalendarModel { timezone: Some(tzm), ..before });
                            }
                            i = j;
                        },
                        Some(ParsedEntry::Event(ev)) => {
                            let ghost evm = ev@;
                            let ghost before_events = rec.events.deep_view();
                            rec.events.push(ev);
                            proof {
                                assert(rec.events.deep_view() =~= before_events.push(evm));
                                assert(rec@ =~= CalendarModel {
                                    events: before.events.push(evm),
                                    ..before
                                });
                            }
                            i = j;
                        },
                        None => {
                            i = j;
                        },
                    }
                },
            }
        } else if key_is(p, "METHOD") {
            rec.method = Some(p.value.clone());
            proof {
                assert(rec@ =~= CalendarModel { method: Some(p@.1), ..before });
            }
            i = i + 1;
        } else if key_is(p, "PRODID") {
            rec.prodid = Some(p.value.clone());
            proof {
                assert(rec@ =~= CalendarModel { prodid: Some(p@.1), ..before });
            }
            i = i + 1;
        } else if key_is(p, "VERSION") {
            rec.version = Some(p.value.clone());
            proof {
                assert(rec@ =~= CalendarModel { version: Some(p@.1), ..before });
            }
            i = i + 1;
        } else {
            let ghost before_unknown = rec.unknown.deep_view();
            rec.unknown.push(p.clone());
            proof {
                assert(rec.unknown.deep_view() =~= before_unknown.push(p@));
                assert(rec@ =~= CalendarModel { unknown: before.unknown.push(p@), ..before });
            }
            i = i + 1;
        }
    }
}

/// Dispatch one `BEGIN` token: check its key, then read the block its
/// value declares from `toks[pos..]`. A block type this parser does not
/// know yields no entry and leaves the cursor exactly where it was, so
/// that block's interior tokens run through the caller's loop.
pub fn read_begin(begin: &Property, toks: &Vec<Property>, pos: usize) -> (r: Result<
    (Option<ParsedEntry>, usize),
    ParseError,
>)
    requires
        pos <= toks@.len(),
    ensures
        ({
            let parsed = spec_read_begin(begin@, toks.deep_view().skip(pos as int));
            match r {
                Ok((entry, newpos)) => pos <= newpos <= toks@.len() && parsed
                    == Ok::<(Option<EntryModel>, Seq<Tok>), ParseError>((
                    entry.deep_view(),
                    toks.deep_view().skip(newpos as int),
                )),
                Err(e) => parsed == Err::<(Option<EntryModel>, Seq<Tok>), ParseError>(e),
            }
        }),
    decreases toks@.len() - pos, 1int,
{
    if let Err(e) = check_format(begin, "BEGIN") {
        return Err(e);
    }
    if val_is(begin, "VEVENT") {
        match read_vevent(toks, pos) {
            Ok((rec, j)) => Ok((Some(ParsedEntry::Event(rec)), j)),
            Err(e) => Err(e),
        }
    } else if val_is(begin, "VCALENDAR") {
        match read_vcalendar(toks, pos) {
            Ok((rec, j)) => Ok((Some(ParsedEntry::Calendar(rec)), j)),
            Err(e) => Err(e),
        }
    } else if val_is(begin, "VTIMEZONE") {
        let (rec, j) = read_vtimezone(toks, pos);
        Ok((Some(ParsedEntry::Timezone(rec)), j))
    } else {
        Ok((None, pos))
    }
}

/// Parse a whole token sequence: dispatch its first token, or report
/// `EmptyInput` if there is none. Tokens after the first block are
/// ignored.
pub fn read_document(toks: &Vec<Property>) -> (r: Result<Option<ParsedEntry>, ParseError>)
    ensures
        ({
            let parsed = spec_read_document(toks.deep_view());
            match r {
                Ok(entry) => parsed == Ok::<Option<EntryModel>, ParseError>(entry.deep_view()),
                Err(e) => parsed == Err::<Option<EntryModel>, ParseError>(e),
            }
        }),
{
    if toks.len() == 0 {
        return Err(ParseError::EmptyInput);
    }
    let first = &toks[0];
    proof {
        assert(toks.deep_view()[0] == first@);
    }
    match read_begin(first, toks, 1) {
        Ok((entry, _)) => Ok(entry),
        Err(e) => Err(e),
    }
}

/// Tokenize the document text, then parse the token sequence.
pub fn parse_document(text: &str) -> (r: Result<Option<ParsedEntry>, ParseError>)
    ensures
        ({
            let parsed = spec_read_document(spec_tokenize(text@));
            match r {
                Ok(entry) => parsed == Ok::<Option<EntryModel>, ParseError>(entry.deep_view()),
                Err(e) => parsed == Err::<Option<EntryModel>, ParseError>(e),
            }
        }),
{
    let toks = tokenize(text);
    read_document(&toks)
}

} // verus!
