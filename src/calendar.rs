//! Show records and their synthesis into calendar events.
use vstd::prelude::*;
use crate::datetime::{MIN_INSTANT, MAX_INSTANT, basic_form_of, format_utc_basic, utc_basic_of};
use crate::cinegestion::movie_views;
use crate::text::{same_text, views};

verus! {

/// One scheduled film session staffed by volunteers.
#[derive(Debug)]
pub struct Movie {
    pub id: u32,
    pub title: String,
    /// Start of the session, in seconds since the Unix epoch (UTC).
    pub date: i64,
    pub projector: String,
    pub assigned_to: Vec<String>,
}

/// What a [`Movie`] holds, as mathematical values.
pub struct MovieView {
    pub id: u32,
    pub title: Seq<char>,
    pub date: int,
    pub projector: Seq<char>,
    pub assigned_to: Seq<Seq<char>>,
}

impl View for Movie {
    type V = MovieView;

    open spec fn view(&self) -> MovieView {
        MovieView {
            id: self.id,
            title: self.title@,
            date: self.date as int,
            projector: self.projector@,
            assigned_to: views(self.assigned_to@),
        }
    }
}

impl Movie {
    /// The start lies in the supported range of instants.
    pub open spec fn wf(&self) -> bool {
        MIN_INSTANT <= self.date <= MAX_INSTANT
    }
}

/// The namespace of the session identifiers. It must never change: every UID
/// issued so far is derived from it.
pub const CINECO_NAMESPACE: u128 = 0x4f345610_24a1_4c21_84cf_7f3efdf964d0;

/// The duration given to every session, in seconds: two hours.
pub const SESSION_SECONDS: i64 = 7200;

/// A calendar event, before it is written out.
pub struct CalendarEvent {
    pub uid: String,
    pub start: i64,
    pub end: i64,
    pub attendees: Vec<String>,
    pub confirmed: bool,
    pub summary: String,
    pub description: String,
}

/// What a [`CalendarEvent`] holds, as mathematical values.
pub struct CalendarEventView {
    pub uid: Seq<char>,
    pub start: int,
    pub end: int,
    pub attendees: Seq<Seq<char>>,
    pub confirmed: bool,
    pub summary: Seq<char>,
    pub description: Seq<char>,
}

impl View for CalendarEvent {
    type V = CalendarEventView;

    open spec fn view(&self) -> CalendarEventView {
        CalendarEventView {
            uid: self.uid@,
            start: self.start as int,
            end: self.end as int,
            attendees: views(self.attendees@),
            confirmed: self.confirmed,
            summary: self.summary@,
            description: self.description@,
        }
    }
}

/// The decimal text of `n`, without leading zeros.
pub open spec fn decimal(n: nat) -> Seq<char>
    decreases n,
{
    if n < 10 {
        seq![digit_char(n)]
    } else {
        decimal(n / 10) + seq![digit_char(n % 10)]
    }
}

pub open spec fn digit_char(d: nat) -> char {
    if d == 0 { '0' } else if d == 1 { '1' } else if d == 2 { '2' } else if d == 3 { '3' }
    else if d == 4 { '4' } else if d == 5 { '5' } else if d == 6 { '6' } else if d == 7 { '7' }
    else if d == 8 { '8' } else { '9' }
}

fn digit_text(d: u32) -> (r: &'static str)
    requires
        d < 10,
    ensures
        r@ == seq![digit_char(d as nat)],
{
    proof {
        reveal_strlit("0");
        reveal_strlit("1");
        reveal_strlit("2");
        reveal_strlit("3");
        reveal_strlit("4");
        reveal_strlit("5");
        reveal_strlit("6");
        reveal_strlit("7");
        reveal_strlit("8");
        reveal_strlit("9");
    }
    if d == 0 { "0" } else if d == 1 { "1" } else if d == 2 { "2" } else if d == 3 { "3" }
    else if d == 4 { "4" } else if d == 5 { "5" } else if d == 6 { "6" } else if d == 7 { "7" }
    else if d == 8 { "8" } else { "9" }
}

/// The decimal text of `n`.
pub fn decimal_text(n: u32) -> (r: String)
    ensures
        r@ == decimal(n as nat),
    decreases n,
{
    if n < 10 {
        String::from_str(digit_text(n))
    } else {
        let mut s = decimal_text(n / 10);
        s.append(digit_text(n % 10));
        s
    }
}

/// `s` escaped as an iCalendar TEXT value: a backslash before `,`, `;` and `\`,
/// `\n` for a line feed, and a carriage return dropped before a line feed or
/// written `\n` elsewhere.
pub open spec fn escaped(s: Seq<char>) -> Seq<char>
    decreases s.len(),
{
    if s.len() == 0 {
        seq![]
    } else {
        let c = s[0];
        let rest = escaped(s.drop_first());
        if c == ',' || c == ';' || c == '\\' {
            seq!['\\', c] + rest
        } else if c == '\n' {
            seq!['\\', 'n'] + rest
        } else if c == '\r' {
            if s.len() > 1 && s[1] == '\n' {
                rest
            } else {
                seq!['\\', 'n'] + rest
            }
        } else {
            seq![c] + rest
        }
    }
}

/// What a conformant reader makes of an escaped TEXT value: `\n` is a line feed
/// and a backslash keeps the character after it.
pub open spec fn unescaped(s: Seq<char>) -> Seq<char>
    decreases s.len(),
{
    if s.len() == 0 {
        seq![]
    } else if s[0] == '\\' && s.len() > 1 {
        let c = if s[1] == 'n' { '\n' } else { s[1] };
        seq![c] + unescaped(s.subrange(2, s.len() as int))
    } else {
        seq![s[0]] + unescaped(s.drop_first())
    }
}

/// Relies on ics::escape_text: the iCalendar escaping of a TEXT value, as its source does it.
#[verifier::external_body]
fn escape_text(s: &str) -> (r: String)
    ensures
        r@ == escaped(s@),
{
    ics::escape_text(s).into_owned()
}

/// The hyphenated lower-case text of the version-5 UUID of the UTF-8 bytes of
/// `name` under the namespace `namespace`.
pub uninterp spec fn uuid_v5_of(namespace: u128, name: Seq<char>) -> Seq<char>;

/// Relies on uuid::Uuid::new_v5 over Uuid::from_u128, shown by its `Display`: the
/// name-based identifier, in its 36-character hyphenated form.
#[verifier::external_body]
fn uuid_v5(namespace: u128, name: &str) -> (r: String)
    ensures
        r@ == uuid_v5_of(namespace, name@),
        r@.len() == 36,
{
    uuid::Uuid::new_v5(&uuid::Uuid::from_u128(namespace), name.as_bytes()).to_string()
}

/// The UID of the events of session `id`.
pub open spec fn uid_of(id: u32) -> Seq<char> {
    uuid_v5_of(CINECO_NAMESPACE, decimal(id as nat))
}

/// The UID of the events of session `id`: the same for a session in every run.
pub fn session_uid(id: u32) -> (r: String)
    ensures
        r@ == uid_of(id),
{
    let name = decimal_text(id);
    uuid_v5(CINECO_NAMESPACE, name.as_str())
}

/// The names joined with `", "` between them.
pub open spec fn joined(names: Seq<Seq<char>>) -> Seq<char>
    decreases names.len(),
{
    if names.len() == 0 {
        seq![]
    } else if names.len() == 1 {
        names[0]
    } else {
        joined(names.drop_last()) + ", "@ + names.last()
    }
}

/// The description text of a session, before escaping.
pub open spec fn description_text(m: MovieView) -> Seq<char> {
    "Numéro de séance: "@ + decimal(m.id as nat) + "\nProjection du film '"@ + m.title
        + "'\nProjectioniste(s): "@ + joined(m.assigned_to) + "\nProjo: "@ + m.projector
}

/// The event of a session for `viewer`.
pub open spec fn event_of(viewer: Seq<char>, m: MovieView) -> CalendarEventView {
    CalendarEventView {
        uid: uid_of(m.id),
        start: m.date,
        end: m.date + SESSION_SECONDS,
        attendees: m.assigned_to,
        confirmed: m.assigned_to.contains(viewer),
        summary: m.title,
        description: escaped(description_text(m)),
    }
}

/// Joins the names with `", "` between them.
pub fn join_names(names: &Vec<String>) -> (r: String)
    ensures
        r@ == joined(views(names@)),
{
    let mut out = String::new();
    let mut i: usize = 0;
    while i < names.len()
        invariant
            i <= names@.len(),
            out@ == joined(views(names@).subrange(0, i as int)),
        decreases names@.len() - i,
    {
        let ghost prev = views(names@).subrange(0, i as int);
        let ghost next = views(names@).subrange(0, i + 1);
        assert(next.drop_last() =~= prev);
        if i > 0 {
            out.append(", ");
        }
        out.append(names[i].as_str());
        i = i + 1;
        proof {
            if i == 1 {
                assert(out@ =~= joined(next));
            }
        }
    }
    assert(views(names@).subrange(0, i as int) =~= views(names@));
    out
}

/// Maps a session to its event for `me`: confirmed exactly when `me` is among
/// the assigned names.
pub fn map_to_event(me: &str, movie: &Movie) -> (r: CalendarEvent)
    requires
        movie.wf(),
    ensures
        r@ == event_of(me@, movie@),
{
    let uid = session_uid(movie.id);
    let mut attendees: Vec<String> = Vec::new();
    let mut confirmed = false;
    let mut i: usize = 0;
    while i < movie.assigned_to.len()
        invariant
            i <= movie.assigned_to@.len(),
            views(attendees@) == views(movie.assigned_to@).subrange(0, i as int),
            confirmed == views(movie.assigned_to@).subrange(0, i as int).contains(me@),
        decreases movie.assigned_to@.len() - i,
    {
        let name = &movie.assigned_to[i];
        if same_text(name.as_str(), me) {
            confirmed = true;
        }
        attendees.push(name.clone());
        proof {
            let prev = views(movie.assigned_to@).subrange(0, i as int);
            let next = views(movie.assigned_to@).subrange(0, i + 1);
            assert(next =~= prev.push(name@));
            assert(views(attendees@) =~= next);
            if confirmed && !prev.contains(me@) {
                assert(next[i as int] == me@);
            }
            if next.contains(me@) {
                let k = choose|k: int| 0 <= k < next.len() && next[k] == me@;
                if k < i {
                    assert(prev[k] == me@);
                }
            }
        }
        i = i + 1;
    }
    assert(views(movie.assigned_to@).subrange(0, i as int) =~= views(movie.assigned_to@));
    let mut text = String::from_str("Numéro de séance: ");
    let id_text = decimal_text(movie.id);
    text.append(id_text.as_str());
    text.append("\nProjection du film '");
    text.append(movie.title.as_str());
    text.append("'\nProjectioniste(s): ");
    let names = join_names(&movie.assigned_to);
    text.append(names.as_str());
    text.append("\nProjo: ");
    text.append(movie.projector.as_str());
    let description = escape_text(text.as_str());
    CalendarEvent {
        uid,
        start: movie.date,
        end: movie.date + SESSION_SECONDS,
        attendees,
        confirmed,
        summary: movie.title.clone(),
        description,
    }
}

#[verifier::external_type_specification]
#[verifier::external_body]
pub struct ExICalendar<'a>(ics::ICalendar<'a>);

#[verifier::external_type_specification]
#[verifier::external_body]
pub struct ExEvent<'a>(ics::Event<'a>);

/// The properties of an ics event, as (name, value) pairs in the order they were added.
pub uninterp spec fn event_properties(e: ics::Event<'static>) -> Seq<(Seq<char>, Seq<char>)>;

/// The properties of an ics calendar itself, as (name, value) pairs in order.
pub uninterp spec fn calendar_properties(c: ics::ICalendar<'static>) -> Seq<(Seq<char>, Seq<char>)>;

/// The events of an ics calendar, each as its properties, in the order they were added.
pub uninterp spec fn calendar_events(c: ics::ICalendar<'static>) -> Seq<Seq<(Seq<char>, Seq<char>)>>;

/// Whether an ics event holds only properties without parameters, and no alarm.
pub uninterp spec fn plain_event(e: ics::Event<'static>) -> bool;

/// Whether an ics calendar holds only properties without parameters, and only
/// VEVENTs that are plain.
pub uninterp spec fn plain_calendar(c: ics::ICalendar<'static>) -> bool;

/// The iCalendar text that ics writes for a plain VCALENDAR with these
/// properties and VEVENTs.
pub uninterp spec fn ical_text_of(
    props: Seq<(Seq<char>, Seq<char>)>,
    events: Seq<Seq<(Seq<char>, Seq<char>)>>,
) -> Seq<char>;

/// Relies on ics::ICalendar::new: a VCALENDAR with its VERSION and PRODID and no event.
#[verifier::external_body]
fn new_calendar(version: &'static str, prodid: &'static str) -> (r: ics::ICalendar<'static>)
    ensures
        calendar_properties(r) == seq![("VERSION"@, version@), ("PRODID"@, prodid@)],
        calendar_events(r) == Seq::<Seq<(Seq<char>, Seq<char>)>>::empty(),
        plain_calendar(r),
{
    ics::ICalendar::new(version, prodid)
}

/// Relies on ics::ICalendar::add_event: appends a VEVENT to the calendar.
#[verifier::external_body]
fn add_event(cal: &mut ics::ICalendar<'static>, event: ics::Event<'static>)
    requires
        plain_calendar(*old(cal)),
        plain_event(event),
    ensures
        plain_calendar(*final(cal)),
        calendar_properties(*final(cal)) == calendar_properties(*old(cal)),
        calendar_events(*final(cal)) == calendar_events(*old(cal)).push(event_properties(event)),
{
    cal.add_event(event)
}

/// Relies on ics::Event::new: a VEVENT holding its UID and DTSTAMP.
#[verifier::external_body]
fn new_event(uid: String, dtstamp: String) -> (r: ics::Event<'static>)
    ensures
        event_properties(r) == seq![("UID"@, uid@), ("DTSTAMP"@, dtstamp@)],
        plain_event(r),
{
    ics::Event::new(uid, dtstamp)
}

/// Relies on ics::properties::Status::confirmed and ics::Event::push: adds `STATUS:CONFIRMED`.
#[verifier::external_body]
fn push_confirmed(event: &mut ics::Event<'static>)
    requires
        plain_event(*old(event)),
    ensures
        plain_event(*final(event)),
        event_properties(*final(event)) == event_properties(*old(event)).push(("STATUS"@, "CONFIRMED"@)),
{
    event.push(ics::properties::Status::confirmed())
}

/// Relies on ics::properties::Attendee::new and ics::Event::push: adds an ATTENDEE.
#[verifier::external_body]
fn push_attendee(event: &mut ics::Event<'static>, name: String)
    requires
        plain_event(*old(event)),
    ensures
        plain_event(*final(event)),
        event_properties(*final(event)) == event_properties(*old(event)).push(("ATTENDEE"@, name@)),
{
    event.push(ics::properties::Attendee::new(name))
}

/// Relies on ics::properties::DtStart::new and ics::Event::push: adds the DTSTART.
#[verifier::external_body]
fn push_start(event: &mut ics::Event<'static>, date: String)
    requires
        plain_event(*old(event)),
    ensures
        plain_event(*final(event)),
        event_properties(*final(event)) == event_properties(*old(event)).push(("DTSTART"@, date@)),
{
    event.push(ics::properties::DtStart::new(date))
}

/// Relies on ics::properties::DtEnd::new and ics::Event::push: adds the DTEND.
#[verifier::external_body]
fn push_end(event: &mut ics::Event<'static>, date: String)
    requires
        plain_event(*old(event)),
    ensures
        plain_event(*final(event)),
        event_properties(*final(event)) == event_properties(*old(event)).push(("DTEND"@, date@)),
{
    event.push(ics::properties::DtEnd::new(date))
}

/// Relies on ics::properties::Categories::new and ics::Event::push: adds a CATEGORIES.
#[verifier::external_body]
fn push_category(event: &mut ics::Event<'static>, category: &'static str)
    requires
        plain_event(*old(event)),
    ensures
        plain_event(*final(event)),
        event_properties(*final(event)) == event_properties(*old(event)).push(("CATEGORIES"@, category@)),
{
    event.push(ics::properties::Categories::new(category))
}

/// Relies on ics::properties::Summary::new and ics::Event::push: adds the SUMMARY,
/// a text already escaped.
#[verifier::external_body]
fn push_summary(event: &mut ics::Event<'static>, summary: String)
    requires
        plain_event(*old(event)),
    ensures
        plain_event(*final(event)),
        event_properties(*final(event)) == event_properties(*old(event)).push(("SUMMARY"@, summary@)),
{
    event.push(ics::properties::Summary::new(summary))
}

/// Relies on ics::properties::Description::new and ics::Event::push: adds the
/// DESCRIPTION, a text already escaped.
#[verifier::external_body]
fn push_description(event: &mut ics::Event<'static>, description: String)
    requires
        plain_event(*old(event)),
    ensures
        plain_event(*final(event)),
        event_properties(*final(event)) == event_properties(*old(event)).push(("DESCRIPTION"@, description@)),
{
    event.push(ics::properties::Description::new(description))
}

/// Relies on the `Display` of ics::ICalendar: the calendar written as iCalendar text.
#[verifier::external_body]
fn calendar_text(cal: &ics::ICalendar<'static>) -> (r: String)
    requires
        plain_calendar(*cal),
    ensures
        r@ == ical_text_of(calendar_properties(*cal), calendar_events(*cal)),
{
    cal.to_string()
}

/// The product identifier written in every calendar.
pub open spec fn product_id() -> Seq<char> {
    "-//xyz Corp//NONSGML PDA Calendar Version 1.0//EN"@
}

/// One ATTENDEE property per name, in order.
pub open spec fn attendee_properties(names: Seq<Seq<char>>) -> Seq<(Seq<char>, Seq<char>)> {
    names.map_values(|n: Seq<char>| ("ATTENDEE"@, n))
}

/// The properties of the VEVENT written for an event: UID, DTSTAMP, STATUS when
/// confirmed, one ATTENDEE per name, DTSTART and DTEND in UTC basic form, the
/// two categories, SUMMARY and DESCRIPTION, both escaped.
pub open spec fn vevent_properties(e: CalendarEventView) -> Seq<(Seq<char>, Seq<char>)> {
    seq![("UID"@, e.uid), ("DTSTAMP"@, utc_basic_of(e.start))]
        + (if e.confirmed { seq![("STATUS"@, "CONFIRMED"@)] } else { seq![] })
        + attendee_properties(e.attendees)
        + seq![
        ("DTSTART"@, utc_basic_of(e.start)),
        ("DTEND"@, utc_basic_of(e.end)),
        ("CATEGORIES"@, "PROJECTION"@),
        ("CATEGORIES"@, "CINEMA"@),
        ("SUMMARY"@, escaped(e.summary)),
        ("DESCRIPTION"@, e.description),
    ]
}

/// Writes an event as a VEVENT.
fn to_ics_event(e: &CalendarEvent) -> (r: ics::Event<'static>)
    requires
        MIN_INSTANT <= e.start <= MAX_INSTANT,
        e.end == e.start + SESSION_SECONDS,
    ensures
        event_properties(r) == vevent_properties(e@),
        plain_event(r),
        basic_form_of(e.start as int),
        basic_form_of(e.end as int),
{
    let start = match format_utc_basic(e.start) {
        Some(s) => s,
        None => {
            assert(false);
            String::new()
        },
    };
    let end = match format_utc_basic(e.end) {
        Some(s) => s,
        None => {
            assert(false);
            String::new()
        },
    };
    let mut event = new_event(e.uid.clone(), start.clone());
    if e.confirmed {
        push_confirmed(&mut event);
    }
    let ghost head = event_properties(event);
    let attendees = &e.attendees;
    let mut i: usize = 0;
    let n = attendees.len();
    while i < n
        invariant
            i <= n,
            n == attendees@.len(),
            attendees == &e.attendees,
            event_properties(event) == head + attendee_properties(views(attendees@).subrange(0, i as int)),
            plain_event(event),
        decreases n - i,
    {
        let name = attendees[i].clone();
        push_attendee(&mut event, name);
        proof {
            assert(attendee_properties(views(attendees@).subrange(0, i + 1)) =~= attendee_properties(
                views(attendees@).subrange(0, i as int),
            ).push(("ATTENDEE"@, attendees@[i as int]@)));
        }
        i = i + 1;
    }
    assert(views(attendees@).subrange(0, i as int) =~= views(attendees@));
    push_start(&mut event, start);
    push_end(&mut event, end);
    push_category(&mut event, "PROJECTION");
    push_category(&mut event, "CINEMA");
    push_summary(&mut event, escape_text(e.summary.as_str()));
    push_description(&mut event, e.description.clone());
    proof {
        reveal_strlit("CONFIRMED");
        assert(event_properties(event) =~= vevent_properties(e@));
    }
    event
}

/// A calendar of sessions: the events, and the iCalendar document written from them.
pub struct CinecoCalendar {
    pub events: Vec<CalendarEvent>,
    pub document: ics::ICalendar<'static>,
}

/// The views of the events of `v`.
pub open spec fn event_views(v: Seq<CalendarEvent>) -> Seq<CalendarEventView> {
    v.map_values(|e: CalendarEvent| e@)
}

/// The events of the sessions for `viewer`, one per session, in order.
pub open spec fn events_of(viewer: Seq<char>, movies: Seq<MovieView>) -> Seq<CalendarEventView> {
    movies.map_values(|m: MovieView| event_of(viewer, m))
}

/// Builds the calendar of the sessions for `me`: version 2.0, a fixed product
/// identifier, and one event per session in order.
pub fn generate_calendar(movies: &Vec<Movie>, me: &str) -> (r: CinecoCalendar)
    requires
        forall|k: int| 0 <= k < movies@.len() ==> (#[trigger] movies@[k]).wf(),
    ensures
        event_views(r.events@) == events_of(me@, movie_views(movies@)),
        calendar_properties(r.document) == seq![("VERSION"@, "2.0"@), ("PRODID"@, product_id())],
        plain_calendar(r.document),
        forall|k: int| 0 <= k < movies@.len() ==> basic_form_of(#[trigger] movies@[k].date as int)
            && basic_form_of(movies@[k].date + SESSION_SECONDS),
        calendar_events(r.document) == events_of(me@, movie_views(movies@)).map_values(
            |e: CalendarEventView| vevent_properties(e),
        ),
{
    let mut document = new_calendar("2.0", "-//xyz Corp//NONSGML PDA Calendar Version 1.0//EN");
    let mut events: Vec<CalendarEvent> = Vec::new();
    let mut i: usize = 0;
    while i < movies.len()
        invariant
            i <= movies@.len(),
            forall|k: int| 0 <= k < movies@.len() ==> (#[trigger] movies@[k]).wf(),
            events@.len() == i,
            calendar_properties(document) == seq![("VERSION"@, "2.0"@), ("PRODID"@, product_id())],
            plain_calendar(document),
            forall|k: int| 0 <= k < i ==> basic_form_of(#[trigger] movies@[k].date as int)
                && basic_form_of(movies@[k].date + SESSION_SECONDS),
            calendar_events(document) == event_views(events@).map_values(
                |e: CalendarEventView| vevent_properties(e),
            ),
            event_views(events@) == events_of(me@, movie_views(movies@)).subrange(0, i as int),
        decreases movies@.len() - i,
    {
        let event = map_to_event(me, &movies[i]);
        add_event(&mut document, to_ics_event(&event));
        let ghost ev = event@;
        events.push(event);
        proof {
            assert(events@[i as int]@ == ev);
            assert(movie_views(movies@)[i as int] == movies@[i as int]@);
            assert(event_views(events@) =~= events_of(me@, movie_views(movies@)).subrange(0, i + 1));
            assert(calendar_events(document) =~= event_views(events@).map_values(
                |e: CalendarEventView| vevent_properties(e),
            ));
        }
        i = i + 1;
    }
    assert(events_of(me@, movie_views(movies@)).subrange(0, i as int) =~= events_of(me@, movie_views(movies@)));
    assert(event_views(events@) =~= events_of(me@, movie_views(movies@)));
    CinecoCalendar { events, document }
}

impl CinecoCalendar {
    /// The calendar as iCalendar text.
    pub fn to_ics_string(&self) -> (r: String)
        requires
            plain_calendar(self.document),
        ensures
            r@ == ical_text_of(calendar_properties(self.document), calendar_events(self.document)),
    {
        calendar_text(&self.document)
    }
}

/// The UID of an event depends on the session number alone: two sessions with
/// the same number get the same UID, whoever views them and whatever else they hold.
pub proof fn lemma_uid_stable(viewer1: Seq<char>, m1: MovieView, viewer2: Seq<char>, m2: MovieView)
    requires
        m1.id == m2.id,
    ensures
        event_of(viewer1, m1).uid == event_of(viewer2, m2).uid,
{
}

/// An event is confirmed exactly when the viewer is among the session's assigned names.
pub proof fn lemma_confirmed_iff_assigned(viewer: Seq<char>, m: MovieView)
    ensures
        event_of(viewer, m).confirmed <==> exists|i: int| 0 <= i < m.assigned_to.len() && m.assigned_to[i] == viewer,
{
}

/// Reading back an escaped text gives the text, when it holds no carriage return.
pub proof fn lemma_unescape_escaped(s: Seq<char>)
    requires
        forall|i: int| 0 <= i < s.len() ==> s[i] != '\r',
    ensures
        unescaped(escaped(s)) == s,
    decreases s.len(),
{
    if s.len() > 0 {
        let t = s.drop_first();
        assert forall|i: int| 0 <= i < t.len() implies t[i] != '\r' by {
            assert(t[i] == s[i + 1]);
        }
        lemma_unescape_escaped(t);
        let e = escaped(s);
        let c = s[0];
        let rest = escaped(t);
        if c == ',' || c == ';' || c == '\\' || c == '\n' {
            assert(e.subrange(2, e.len() as int) =~= rest);
        } else {
            assert(e.drop_first() =~= rest);
        }
        assert(unescaped(e) =~= s);
    }
}

/// The description of an event, read back by a conformant reader, is the
/// description text with the title and names as they were, commas, semicolons
/// and backslashes included, when no carriage return stands in it.
pub proof fn lemma_description_read_back(viewer: Seq<char>, m: MovieView)
    requires
        forall|i: int| 0 <= i < description_text(m).len() ==> description_text(m)[i] != '\r',
    ensures
        unescaped(event_of(viewer, m).description) == description_text(m),
{
    lemma_unescape_escaped(description_text(m));
}

} // verus!
