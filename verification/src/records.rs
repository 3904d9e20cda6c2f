//! The data model: property tokens, the typed records that the block
//! readers build, and the spec-level models that the contracts speak of.

use vstd::prelude::*;

verus! {

/// The spec-level form of one property: the views of its key and value.
pub type Tok = (Seq<char>, Seq<char>);

/// One property line of the document: an ordered `(key, value)` pair,
/// both stored verbatim.
#[derive(PartialEq, Eq, Debug)]
pub struct Property {
    pub key: String,
    pub value: String,
}

impl View for Property {
    type V = Tok;

    open spec fn view(&self) -> Tok {
        (self.key@, self.value@)
    }
}

impl DeepView for Property {
    type V = Tok;

    open spec fn deep_view(&self) -> Tok {
        self@
    }
}

impl Clone for Property {
    fn clone(&self) -> (r: Self)
        ensures
            r@ == self@,
    {
        Property { key: self.key.clone(), value: self.value.clone() }
    }
}

/// How a parse can fail. Every failure is reported to the caller as a
/// typed error; the verified functions of this crate never panic.
#[derive(Clone, Copy, PartialEq, Eq, Structural, Debug)]
pub enum ParseError {
    /// The token sequence is empty at top level: nothing to parse.
    EmptyInput,
    /// A token expected to open a block does not carry the key `BEGIN`.
    UnexpectedBlockKind,
    /// A `VCALENDAR` block stands directly inside another `VCALENDAR` block.
    IllegalNesting,
    /// A `BEGIN` token stands inside a `VEVENT` block: events are leaves.
    IllegalChildBlock,
}

/// A `STANDARD`/`DAYLIGHT` sub-block of a timezone definition.
/// Unrecognized properties of a rule block are dropped, not kept:
/// this reader alone has no unknown bag.
#[derive(PartialEq, Eq, Debug)]
pub struct TimezoneRuleRecord {
    pub offset_from: Option<String>,
    pub offset_to: Option<String>,
    pub name: Option<String>,
    pub dtstart: Option<String>,
    pub rrule: Option<String>,
}

/// Spec-level model of a `TimezoneRuleRecord`.
#[verifier::ext_equal]
pub struct TimezoneRuleModel {
    pub offset_from: Option<Seq<char>>,
    pub offset_to: Option<Seq<char>>,
    pub name: Option<Seq<char>>,
    pub dtstart: Option<Seq<char>>,
    pub rrule: Option<Seq<char>>,
}

impl View for TimezoneRuleRecord {
    type V = TimezoneRuleModel;

    open spec fn view(&self) -> TimezoneRuleModel {
        TimezoneRuleModel {
            offset_from: self.offset_from.deep_view(),
            offset_to: self.offset_to.deep_view(),
            name: self.name.deep_view(),
            dtstart: self.dtstart.deep_view(),
            rrule: self.rrule.deep_view(),
        }
    }
}

impl DeepView for TimezoneRuleRecord {
    type V = TimezoneRuleModel;

    open spec fn deep_view(&self) -> TimezoneRuleModel {
        self@
    }
}

/// The model of a rule record with no properties seen yet.
pub open spec fn init_rule_model() -> TimezoneRuleModel {
    TimezoneRuleModel {
        offset_from: None,
        offset_to: None,
        name: None,
        dtstart: None,
        rrule: None,
    }
}

impl TimezoneRuleRecord {
    /// A rule record with no properties seen yet.
    pub fn new() -> (r: Self)
        ensures
            r@ == init_rule_model(),
    {
        TimezoneRuleRecord {
            offset_from: None,
            offset_to: None,
            name: None,
            dtstart: None,
            rrule: None,
        }
    }
}

/// The mapping that a sequence of `(identifier, rule)` insertions denotes:
/// a later insertion under the same identifier replaces the earlier one.
pub open spec fn defs_map(ds: Seq<(Seq<char>, TimezoneRuleModel)>) -> Map<
    Seq<char>,
    TimezoneRuleModel,
>
    decreases ds.len(),
{
    if ds.len() == 0 {
        Map::empty()
    } else {
        defs_map(ds.drop_last()).insert(ds.last().0, ds.last().1)
    }
}

/// A `VTIMEZONE` block: an optional `TZID`, the `STANDARD`/`DAYLIGHT`
/// sub-blocks it holds, and the unknown-property bag.
///
/// `definitions` keeps each parsed sub-block in encounter order, keyed by
/// the sub-block's declared name (the value of its `BEGIN` token). As a
/// mapping it reads last-wins: the model views `definitions` through
/// [`defs_map`], and [`TimezoneRecord::definition`] looks a name up with
/// the same semantics.
#[derive(PartialEq, Eq, Debug)]
pub struct TimezoneRecord {
    pub tzid: Option<String>,
    pub definitions: Vec<(String, TimezoneRuleRecord)>,
    pub unknown: Vec<Property>,
}

/// Spec-level model of a `TimezoneRecord`.
#[verifier::ext_equal]
pub struct TimezoneModel {
    pub tzid: Option<Seq<char>>,
    pub definitions: Map<Seq<char>, TimezoneRuleModel>,
    pub unknown: Seq<Tok>,
}

impl View for TimezoneRecord {
    type V = TimezoneModel;

    open spec fn view(&self) -> TimezoneModel {
        TimezoneModel {
            tzid: self.tzid.deep_view(),
            definitions: defs_map(self.definitions.deep_view()),
            unknown: self.unknown.deep_view(),
        }
    }
}

impl DeepView for TimezoneRecord {
    type V = TimezoneModel;

    open spec fn deep_view(&self) -> TimezoneModel {
        self@
    }
}

/// The model of a timezone record with nothing seen yet.
pub open spec fn init_timezone_model() -> TimezoneModel {
    TimezoneModel { tzid: None, definitions: Map::empty(), unknown: Seq::empty() }
}

impl TimezoneRecord {
    /// A timezone record with nothing seen yet.
    pub fn new() -> (r: Self)
        ensures
            r@ == init_timezone_model(),
    {
        let r = TimezoneRecord { tzid: None, definitions: Vec::new(), unknown: Vec::new() };
        proof {
            assert(r.definitions.deep_view() =~= Seq::<(Seq<char>, TimezoneRuleModel)>::empty());
            assert(r.unknown.deep_view() =~= Seq::<Tok>::empty());
        }
        r
    }

    /// Look a sub-block identifier up in `definitions`, reading the log
    /// as the mapping it denotes: the rule most recently stored under
    /// that name, if any.
    pub fn definition(&self, name: &str) -> (r: Option<&TimezoneRuleRecord>)
        ensures
            match r {
                Some(rule) => self@.definitions.contains_key(name@) && rule@
                    == self@.definitions[name@],
                None => !self@.definitions.contains_key(name@),
            },
    {
        let ghost ds = self.definitions.deep_view();
        let mut j: usize = self.definitions.len();
        proof {
            assert(ds.take(j as int) =~= ds);
        }
        loop
            invariant
                j <= self.definitions.len(),
                ds == self.definitions.deep_view(),
                defs_map(ds).contains_key(name@) == defs_map(ds.take(j as int)).contains_key(
                    name@,
                ),
                defs_map(ds).contains_key(name@) ==> defs_map(ds)[name@] == defs_map(
                    ds.take(j as int),
                )[name@],
            decreases j,
        {
            if j == 0 {
                proof {
                    assert(ds.take(0) =~= Seq::<(Seq<char>, TimezoneRuleModel)>::empty());
                }
                return None;
            }
            j = j - 1;
            let entry = &self.definitions[j];
            proof {
                assert(ds.take(j as int + 1).drop_last() =~= ds.take(j as int));
                assert(ds.take(j as int + 1).last() == ds[j as int]);
                assert(ds[j as int] == (entry.0@, entry.1@));
            }
            if string_is(&entry.0, name) {
                return Some(&entry.1);
            }
        }
    }
}

/// Whether the string equals the given string slice.
fn string_is(a: &String, b: &str) -> (r: bool)
    ensures
        r == (a@ == b@),
{
    let other: String = b.to_owned();
    a.eq(&other)
}

/// A `VEVENT` block: the known properties, each optional, and the
/// unknown-property bag in encounter order.
#[derive(PartialEq, Eq, Debug)]
pub struct EventRecord {
    pub uid: Option<String>,
    pub class: Option<String>,
    pub summary: Option<String>,
    pub sequence: Option<String>,
    pub dtstamp: Option<String>,
    pub location: Option<String>,
    pub categories: Option<String>,
    pub description: Option<String>,
    pub unknown: Vec<Property>,
}

/// Spec-level model of an `EventRecord`.
#[verifier::ext_equal]
pub struct EventModel {
    pub uid: Option<Seq<char>>,
    pub class: Option<Seq<char>>,
    pub summary: Option<Seq<char>>,
    pub sequence: Option<Seq<char>>,
    pub dtstamp: Option<Seq<char>>,
    pub location: Option<Seq<char>>,
    pub categories: Option<Seq<char>>,
    pub description: Option<Seq<char>>,
    pub unknown: Seq<Tok>,
}

impl View for EventRecord {
    type V = EventModel;

    open spec fn view(&self) -> EventModel {
        EventModel {
            uid: self.uid.deep_view(),
            class: self.class.deep_view(),
            summary: self.summary.deep_view(),
            sequence: self.sequence.deep_view(),
            dtstamp: self.dtstamp.deep_view(),
            location: self.location.deep_view(),
            categories: self.categories.deep_view(),
            description: self.description.deep_view(),
            unknown: self.unknown.deep_view(),
        }
    }
}

impl DeepView for EventRecord {
    type V = EventModel;

    open spec fn deep_view(&self) -> EventModel {
        self@
    }
}

/// The model of an event record with no properties seen yet.
pub open spec fn init_event_model() -> EventModel {
    EventModel {
        uid: None,
        class: None,
        summary: None,
        sequence: None,
        dtstamp: None,
        location: None,
        categories: None,
        description: None,
        unknown: Seq::empty(),
    }
}

impl EventRecord {
    /// An event record with no properties seen yet.
    pub fn new() -> (r: Self)
        ensures
            r@ == init_event_model(),
    {
        let r = EventRecord {
            uid: None,
            class: None,
            summary: None,
            sequence: None,
            dtstamp: None,
            location: None,
            categories: None,
            description: None,
            unknown: Vec::new(),
        };
        proof {
            assert(r.unknown.deep_view() =~= Seq::<Tok>::empty());
        }
        r
    }
}

/// A `VCALENDAR` block: the known properties, at most one timezone
/// definition (the most recent `VTIMEZONE` block wins), the events in
/// document order, and the unknown-property bag.
#[derive(PartialEq, Eq, Debug)]
pub struct CalendarRecord {
    pub version: Option<String>,
    pub method: Option<String>,
    pub prodid: Option<String>,
    pub timezone: Option<TimezoneRecord>,
    pub events: Vec<EventRecord>,
    pub unknown: Vec<Property>,
}

/// Spec-level model of a `CalendarRecord`.
#[verifier::ext_equal]
pub struct CalendarModel {
    pub version: Option<Seq<char>>,
    pub method: Option<Seq<char>>,
    pub prodid: Option<Seq<char>>,
    pub timezone: Option<TimezoneModel>,
    pub events: Seq<EventModel>,
    pub unknown: Seq<Tok>,
}

impl View for CalendarRecord {
    type V = CalendarModel;

    open spec fn view(&self) -> CalendarModel {
        CalendarModel {
            version: self.version.deep_view(),
            method: self.method.deep_view(),
            prodid: self.prodid.deep_view(),
            timezone: self.timezone.deep_view(),
            events: self.events.deep_view(),
            unknown: self.unknown.deep_view(),
        }
    }
}

impl DeepView for CalendarRecord {
    type V = CalendarModel;

    open spec fn deep_view(&self) -> CalendarModel {
        self@
    }
}

/// The model of a calendar record with nothing seen yet.
pub open spec fn init_calendar_model() -> CalendarModel {
    CalendarModel {
        version: None,
        method: None,
        prodid: None,
        timezone: None,
        events: Seq::empty(),
        unknown: Seq::empty(),
    }
}

impl CalendarRecord {
    /// A calendar record with nothing seen yet.
    pub fn new() -> (r: Self)
        ensures
            r@ == init_calendar_model(),
    {
        let r = CalendarRecord {
            version: None,
            method: None,
            prodid: None,
            timezone: None,
            events: Vec::new(),
            unknown: Vec::new(),
        };
        proof {
            assert(r.events.deep_view() =~= Seq::<EventModel>::empty());
            assert(r.unknown.deep_view() =~= Seq::<Tok>::empty());
        }
        r
    }
}

/// The outcome of dispatching one `BEGIN ... END` block: which kind of
/// record the block produced.
#[derive(PartialEq, Eq, Debug)]
pub enum ParsedEntry {
    Calendar(CalendarRecord),
    Timezone(TimezoneRecord),
    Event(EventRecord),
}

/// Spec-level model of a `ParsedEntry`.
#[verifier::ext_equal]
pub enum EntryModel {
    Calendar(CalendarModel),
    Timezone(TimezoneModel),
    Event(EventModel),
}

impl View for ParsedEntry {
    type V = EntryModel;

    open spec fn view(&self) -> EntryModel {
        match self {
            ParsedEntry::Calendar(c) => EntryModel::Calendar(c@),
            ParsedEntry::Timezone(t) => EntryModel::Timezone(t@),
            ParsedEntry::Event(e) => EntryModel::Event(e@),
        }
    }
}

impl DeepView for ParsedEntry {
    type V = EntryModel;

    open spec fn deep_view(&self) -> EntryModel {
        self@
    }
}

} // verus!
