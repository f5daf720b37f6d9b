//! iCalendar text: its lines, its events, and the recurrence rules that
//! make one event stand for many.

use vstd::prelude::*;
use crate::apps::{result_model, AppExecutionContext, AppExecutionError, AppFault, AppOutput,
    ContextModel, OutputModel};
use crate::calendar::{format_in_zone, parse_rfc3339, rfc3339_instant, zone_text, Timestamp};
use crate::json::{items_model, member_bool, member_str, member_u64, JsonModel, JsonObject,
    JsonValue};
use crate::text::{contains_sub, has_sub, is_blank, lowercase, str_is_blank};
use crate::calendar::{known_zone, local_to_utc, naive_day, naive_time, parse_naive_day,
    parse_naive_time, weekday_index, weekday_of, zone_instant, zone_known};
use crate::text::{chars_of, contains_char, parse_i64, parse_u64, replace, replaced, same_text,
    signed_value, split_first, split_on, split_once, split_text, starts_with, string_of_range,
    strip_prefix, strip_suffix, texts, trim, trim_start, trimmed, trimmed_start, unsigned_value,
    without_prefix, without_suffix};

verus! {

/// `line` without the carriage returns at its end.
pub open spec fn without_trailing_cr(line: Seq<char>) -> Seq<char>
    decreases line.len(),
{
    if line.len() > 0 && line.last() == '\r' {
        without_trailing_cr(line.drop_last())
    } else {
        line
    }
}

/// The lines of a text: the pieces between its line feeds, without the
/// empty piece behind a line feed that ends the text.
pub open spec fn raw_lines(text: Seq<char>) -> Seq<Seq<char>> {
    let pieces = split_on(text, '\n');
    if pieces.len() > 0 && pieces.last().len() == 0 {
        pieces.drop_last()
    } else {
        pieces
    }
}

/// Whether a line continues the line before it: it begins with a space or a tab.
pub open spec fn continues(line: Seq<char>) -> bool {
    line.len() > 0 && (line[0] == ' ' || line[0] == '\t')
}

/// The logical lines that raw lines make: a line that continues the one
/// before it is appended to it, without the white space at its front.
pub open spec fn unfolded(raw: Seq<Seq<char>>) -> Seq<Seq<char>>
    decreases raw.len(),
{
    if raw.len() == 0 {
        Seq::empty()
    } else {
        let before = unfolded(raw.drop_last());
        let line = without_trailing_cr(raw.last());
        if continues(line) && before.len() > 0 {
            before.drop_last().push(before.last() + trimmed_start(line))
        } else {
            before.push(line)
        }
    }
}

/// The logical lines of an iCalendar text.
pub open spec fn unfolded_lines(ical: Seq<char>) -> Seq<Seq<char>> {
    unfolded(raw_lines(ical))
}

fn strip_trailing_cr(line: &str) -> (out: String)
    ensures
        out@ == without_trailing_cr(line@),
{
    let v = chars_of(line);
    let mut end: usize = v.len();
    assert(v@.take(v.len() as int) == v@);
    while end > 0 && v[end - 1] == '\r'
        invariant
            end <= v.len(),
            without_trailing_cr(v@) == without_trailing_cr(v@.take(end as int)),
        decreases end,
    {
        proof {
            assert(v@.take(end as int).drop_last() == v@.take(end - 1));
        }
        end -= 1;
    }
    string_of_range(&v, 0, end)
}

fn is_continuation(line: &str) -> (out: bool)
    ensures
        out == continues(line@),
{
    let v = chars_of(line);
    v.len() > 0 && (v[0] == ' ' || v[0] == '\t')
}

/// Splits an iCalendar text into its logical lines.
pub fn unfold_ical_lines(ical: &str) -> (out: Vec<String>)
    ensures
        texts(out@) == unfolded_lines(ical@),
{
    let mut pieces = split_text(ical, '\n');
    let ghost all = texts(pieces@);
    if pieces.len() > 0 && pieces[pieces.len() - 1].as_str().unicode_len() == 0 {
        pieces.pop();
        assert(texts(pieces@) == all.drop_last());
    }
    let ghost raw = texts(pieces@);
    let mut lines: Vec<String> = Vec::new();
    let mut i: usize = 0;
    while i < pieces.len()
        invariant
            i <= pieces.len(),
            raw == texts(pieces@),
            texts(lines@) == unfolded(raw.take(i as int)),
        decreases pieces.len() - i,
    {
        let line = strip_trailing_cr(pieces[i].as_str());
        proof {
            assert(raw.take(i + 1).drop_last() == raw.take(i as int));
        }
        if is_continuation(line.as_str()) && lines.len() > 0 {
            let continuation = trim_start(line.as_str());
            let ghost before = texts(lines@);
            let mut last = lines.pop().unwrap();
            last.append(continuation.as_str());
            lines.push(last);
        } else {
            lines.push(line);
        }
        i += 1;
    }
    assert(raw.take(pieces.len() as int) == raw);
    lines
}

/// The zone that a line names as the calendar's own, if it names one.
pub open spec fn line_zone(line: Seq<char>) -> Option<Seq<char>> {
    match without_prefix(line, "X-WR-TIMEZONE:"@) {
        Some(rest) => if trimmed(rest).len() > 0 {
            Some(trimmed(rest))
        } else {
            None
        },
        None => None,
    }
}

/// The zone that the first of `lines[from..]` to name one names.
pub open spec fn first_zone(lines: Seq<Seq<char>>, from: int) -> Option<Seq<char>>
    decreases lines.len() - from,
{
    if from < 0 || from >= lines.len() {
        None
    } else {
        match line_zone(lines[from]) {
            Some(zone) => Some(zone),
            None => first_zone(lines, from + 1),
        }
    }
}

/// The zone of the calendar: the value of its first `X-WR-TIMEZONE` line that is not blank.
pub fn parse_calendar_timezone(ical: &str) -> (out: Option<String>)
    ensures
        crate::calendar::optional_text(out) == first_zone(unfolded_lines(ical@), 0),
{
    let lines = unfold_ical_lines(ical);
    let mut i: usize = 0;
    while i < lines.len()
        invariant
            i <= lines.len(),
            texts(lines@) == unfolded_lines(ical@),
            first_zone(texts(lines@), i as int) == first_zone(unfolded_lines(ical@), 0),
        decreases lines.len() - i,
    {
        match strip_prefix(lines[i].as_str(), "X-WR-TIMEZONE:") {
            Some(rest) => {
                let zone = trim(rest.as_str());
                if zone.as_str().unicode_len() > 0 {
                    return Some(zone);
                }
            },
            None => {},
        }
        i += 1;
    }
    None
}

/// A text value as it was before it was escaped for iCalendar: `\n` and
/// `\N` are line feeds, and a backslash before a comma, a semicolon or a
/// backslash is dropped. The five replacements are made one after the
/// other, each over the whole text.
pub open spec fn unescaped(value: Seq<char>) -> Seq<char> {
    replaced(
        replaced(
            replaced(replaced(replaced(value, "\\n"@, "\n"@), "\\N"@, "\n"@), "\\,"@, ","@),
            "\\;"@,
            ";"@,
        ),
        "\\\\"@,
        "\\"@,
    )
}

/// Undoes the escaping of an iCalendar text value.
pub fn unescape_ical_text(value: &str) -> (out: String)
    ensures
        out@ == unescaped(value@),
{
    let a = replace(value, "\\n", "\n");
    let b = replace(a.as_str(), "\\N", "\n");
    let c = replace(b.as_str(), "\\,", ",");
    let d = replace(c.as_str(), "\\;", ";");
    replace(d.as_str(), "\\\\", "\\")
}

/// An error over the field `ical`.
pub open spec fn ical_fault(reason: Seq<char>) -> AppFault {
    AppFault::InvalidField { field: "ical"@, reason }
}

fn ical_error(reason: String) -> (out: AppExecutionError)
    ensures
        out@ == ical_fault(reason@),
{
    AppExecutionError::InvalidField { field: "ical", reason }
}

/// `head`, then `value` between backticks.
pub open spec fn quoting(head: Seq<char>, value: Seq<char>) -> Seq<char> {
    head + value + "`"@
}

fn quote(head: &str, value: &str) -> (out: String)
    ensures
        out@ == quoting(head@, value@),
{
    let mut out = head.to_owned();
    out.append(value);
    out.append("`");
    out
}

/// `head`, `value` between backticks, `middle`, and `zone` between backticks.
pub open spec fn quoting_two(head: Seq<char>, value: Seq<char>, middle: Seq<char>, zone: Seq<char>) -> Seq<
    char,
> {
    head + value + middle + zone + "`"@
}

fn quote_two(head: &str, value: &str, middle: &str, zone: &str) -> (out: String)
    ensures
        out@ == quoting_two(head@, value@, middle@, zone@),
{
    let mut out = head.to_owned();
    out.append(value);
    out.append(middle);
    out.append(zone);
    out.append("`");
    out
}

/// The instant that a date or a date with time names in iCalendar, in
/// seconds since the epoch.
///
/// A value that ends in `Z` is a time in UTC. Any other value is read on
/// the clocks of `zone`: with a `T` in it as a date with time, else as the
/// midnight at which a day begins. A time that those clocks skip or show
/// twice is turned down.
pub open spec fn ical_instant(value: Seq<char>, zone: Seq<char>) -> Result<int, AppFault> {
    match without_suffix(value, "Z"@) {
        Some(stripped) => match naive_time(stripped, "%Y%m%dT%H%M%S"@) {
            Some(secs) => Ok(secs),
            None => Err(ical_fault(quoting("invalid datetime `"@, value))),
        },
        None => if !known_zone(zone) {
            Err(ical_fault(quoting("unknown timezone `"@, zone)))
        } else if value.contains('T') {
            match naive_time(value, "%Y%m%dT%H%M%S"@) {
                None => Err(ical_fault(quoting("invalid datetime `"@, value))),
                Some(naive) => match zone_instant(zone, naive) {
                    Some(secs) => Ok(secs),
                    None => Err(
                        ical_fault(
                            quoting_two(
                                "ambiguous datetime `"@,
                                value,
                                "` for timezone `"@,
                                zone,
                            ),
                        ),
                    ),
                },
            }
        } else {
            match naive_day(value, "%Y%m%d"@) {
                None => Err(ical_fault(quoting("invalid date `"@, value))),
                Some(naive) => match zone_instant(zone, naive) {
                    Some(secs) => Ok(secs),
                    None => Err(
                        ical_fault(
                            quoting_two("ambiguous date `"@, value, "` for timezone `"@, zone),
                        ),
                    ),
                },
            }
        },
    }
}

/// What reading an instant came to, as a model.
pub open spec fn instant_outcome(out: Result<i64, AppExecutionError>) -> Result<int, AppFault> {
    match out {
        Ok(secs) => Ok(secs as int),
        Err(e) => Err(e@),
    }
}

/// Reads a date or a date with time.
pub fn parse_ical_datetime(value: &str, zone: &str) -> (out: Result<i64, AppExecutionError>)
    ensures
        instant_outcome(out) == ical_instant(value@, zone@),
{
    match strip_suffix(value, "Z") {
        Some(stripped) => {
            return match parse_naive_time(stripped.as_str(), "%Y%m%dT%H%M%S") {
                Some(secs) => Ok(secs),
                None => Err(ical_error(quote("invalid datetime `", value))),
            };
        },
        None => {},
    }
    if !zone_known(zone) {
        return Err(ical_error(quote("unknown timezone `", zone)));
    }
    if contains_char(value, 'T') {
        let naive = match parse_naive_time(value, "%Y%m%dT%H%M%S") {
            Some(naive) => naive,
            None => {
                return Err(ical_error(quote("invalid datetime `", value)));
            },
        };
        match local_to_utc(zone, naive) {
            Some(secs) => Ok(secs),
            None => Err(
                ical_error(quote_two("ambiguous datetime `", value, "` for timezone `", zone)),
            ),
        }
    } else {
        let naive = match parse_naive_day(value, "%Y%m%d") {
            Some(naive) => naive,
            None => {
                return Err(ical_error(quote("invalid date `", value)));
            },
        };
        match local_to_utc(zone, naive) {
            Some(secs) => Ok(secs),
            None => Err(ical_error(quote_two("ambiguous date `", value, "` for timezone `", zone))),
        }
    }
}

/// One event of a calendar.
#[derive(Debug, Clone)]
pub struct ParsedIcalEvent {
    pub summary: String,
    pub description: String,
    pub location: String,
    pub url: String,
    /// The zone in which the start was read.
    pub time_zone: String,
    /// Whether the start is a date without a time.
    pub full_day: bool,
    /// The start, in seconds since the epoch.
    pub start_ts: i64,
    /// The end, in seconds since the epoch.
    pub end_ts: i64,
    pub rrule: Option<String>,
}

/// The model of a [`ParsedIcalEvent`].
pub ghost struct EventModel {
    pub summary: Seq<char>,
    pub description: Seq<char>,
    pub location: Seq<char>,
    pub url: Seq<char>,
    pub time_zone: Seq<char>,
    pub full_day: bool,
    pub start: int,
    pub end: int,
    pub rrule: Option<Seq<char>>,
}

impl View for ParsedIcalEvent {
    type V = EventModel;

    open spec fn view(&self) -> EventModel {
        EventModel {
            summary: self.summary@,
            description: self.description@,
            location: self.location@,
            url: self.url@,
            time_zone: self.time_zone@,
            full_day: self.full_day,
            start: self.start_ts as int,
            end: self.end_ts as int,
            rrule: crate::calendar::optional_text(self.rrule),
        }
    }
}

/// The models of a list of events.
pub open spec fn event_models(events: Seq<ParsedIcalEvent>) -> Seq<EventModel> {
    events.map_values(|e: ParsedIcalEvent| e@)
}

/// An event while its lines are being read.
struct Draft {
    summary: String,
    description: String,
    location: String,
    url: String,
    time_zone: String,
    full_day: bool,
    start: Option<i64>,
    end: Option<i64>,
    rrule: Option<String>,
}

/// What is known of an event while its lines are being read.
pub ghost struct DraftModel {
    pub summary: Seq<char>,
    pub description: Seq<char>,
    pub location: Seq<char>,
    pub url: Seq<char>,
    pub time_zone: Seq<char>,
    pub full_day: bool,
    pub start: Option<int>,
    pub end: Option<int>,
    pub rrule: Option<Seq<char>>,
}

/// An optional count of seconds as a number.
pub open spec fn optional_int(value: Option<i64>) -> Option<int> {
    match value {
        Some(n) => Some(n as int),
        None => None,
    }
}

impl View for Draft {
    type V = DraftModel;

    closed spec fn view(&self) -> DraftModel {
        DraftModel {
            summary: self.summary@,
            description: self.description@,
            location: self.location@,
            url: self.url@,
            time_zone: self.time_zone@,
            full_day: self.full_day,
            start: optional_int(self.start),
            end: optional_int(self.end),
            rrule: crate::calendar::optional_text(self.rrule),
        }
    }
}

/// An event of which nothing is known yet.
pub open spec fn empty_draft() -> DraftModel {
    DraftModel {
        summary: Seq::empty(),
        description: Seq::empty(),
        location: Seq::empty(),
        url: Seq::empty(),
        time_zone: Seq::empty(),
        full_day: false,
        start: None,
        end: None,
        rrule: None,
    }
}

/// The value of the last parameter `TZID` among `params[from..]`, or
/// `found` where there is none.
pub open spec fn zone_parameter(params: Seq<Seq<char>>, from: int, found: Option<Seq<char>>) -> Option<
    Seq<char>,
>
    decreases params.len() - from,
{
    if from < 0 || from >= params.len() {
        found
    } else {
        match split_first(params[from], '=') {
            Some((key, value)) => if key == "TZID"@ {
                zone_parameter(params, from + 1, Some(value))
            } else {
                zone_parameter(params, from + 1, found)
            },
            None => zone_parameter(params, from + 1, found),
        }
    }
}

/// The zone in which a property is read: its own parameter, or the fallback.
pub open spec fn property_zone(params: Seq<Seq<char>>, fallback: Seq<char>) -> Seq<char> {
    match zone_parameter(params, 1, None) {
        Some(zone) => zone,
        None => fallback,
    }
}

/// What is known of an event after one more of its lines was read. A line
/// is a name, parameters behind semicolons, a colon, and the value. Of a
/// property that stands twice the later one counts.
///
/// The four texts of an event, `SUMMARY`, `DESCRIPTION`, `LOCATION` and
/// `URL`, are all taken with their escapes undone; the rule of a
/// recurrence is taken as it is written.
pub open spec fn draft_after_line(draft: DraftModel, line: Seq<char>, fallback: Seq<char>) -> Result<
    DraftModel,
    AppFault,
> {
    match split_first(line, ':') {
        None => Err(ical_fault(quoting("invalid VEVENT property line `"@, line))),
        Some((head, value)) => {
            let params = split_on(head, ';');
            let name = params[0];
            let zone = property_zone(params, fallback);
            if name == "SUMMARY"@ {
                Ok(DraftModel { summary: unescaped(value), ..draft })
            } else if name == "DESCRIPTION"@ {
                Ok(DraftModel { description: unescaped(value), ..draft })
            } else if name == "LOCATION"@ {
                Ok(DraftModel { location: unescaped(value), ..draft })
            } else if name == "URL"@ {
                Ok(DraftModel { url: unescaped(value), ..draft })
            } else if name == "RRULE"@ {
                Ok(DraftModel { rrule: Some(value), ..draft })
            } else if name == "DTSTART"@ {
                match ical_instant(value, zone) {
                    Ok(secs) => Ok(
                        DraftModel {
                            time_zone: zone,
                            full_day: !value.contains('T'),
                            start: Some(secs),
                            ..draft
                        },
                    ),
                    Err(fault) => Err(fault),
                }
            } else if name == "DTEND"@ {
                match ical_instant(value, zone) {
                    Ok(secs) => Ok(DraftModel { end: Some(secs), ..draft }),
                    Err(fault) => Err(fault),
                }
            } else {
                Ok(draft)
            }
        },
    }
}

/// What is known of an event after `lines[from..]` were read.
pub open spec fn draft_after_lines(
    draft: DraftModel,
    lines: Seq<Seq<char>>,
    from: int,
    fallback: Seq<char>,
) -> Result<DraftModel, AppFault>
    decreases lines.len() - from,
{
    if from < 0 || from >= lines.len() {
        Ok(draft)
    } else {
        match draft_after_line(draft, lines[from], fallback) {
            Ok(next) => draft_after_lines(next, lines, from + 1, fallback),
            Err(fault) => Err(fault),
        }
    }
}

/// The event that the lines between `BEGIN:VEVENT` and `END:VEVENT` make.
/// An event has to have a start; one without an end ends when it starts.
pub open spec fn event_of_lines(lines: Seq<Seq<char>>, fallback: Seq<char>) -> Result<
    EventModel,
    AppFault,
> {
    match draft_after_lines(empty_draft(), lines, 0, fallback) {
        Err(fault) => Err(fault),
        Ok(draft) => match draft.start {
            None => Err(ical_fault("VEVENT missing DTSTART"@)),
            Some(start) => Ok(
                EventModel {
                    summary: draft.summary,
                    description: draft.description,
                    location: draft.location,
                    url: draft.url,
                    time_zone: draft.time_zone,
                    full_day: draft.full_day,
                    start,
                    end: match draft.end {
                        Some(end) => end,
                        None => start,
                    },
                    rrule: draft.rrule,
                },
            ),
        },
    }
}

/// What reading an event came to, as a model.
pub open spec fn event_outcome(out: Result<ParsedIcalEvent, AppExecutionError>) -> Result<
    EventModel,
    AppFault,
> {
    match out {
        Ok(event) => Ok(event@),
        Err(e) => Err(e@),
    }
}

fn zone_of_params(params: &Vec<String>, fallback: &str) -> (out: String)
    ensures
        out@ == property_zone(texts(params@), fallback@),
{
    let mut found: Option<String> = None;
    let mut i: usize = 1;
    while i < params.len()
        invariant
            1 <= i,
            zone_parameter(texts(params@), i as int, crate::calendar::optional_text(found))
                == zone_parameter(texts(params@), 1, None),
        decreases params.len() - i,
    {
        match split_once(params[i].as_str(), '=') {
            Some((key, value)) => {
                if same_text(key.as_str(), "TZID") {
                    found = Some(value);
                }
            },
            None => {},
        }
        i += 1;
    }
    match found {
        Some(zone) => zone,
        None => fallback.to_owned(),
    }
}

fn read_line(draft: Draft, line: &str, fallback: &str) -> (out: Result<Draft, AppExecutionError>)
    ensures
        match out {
            Ok(next) => draft_after_line(draft@, line@, fallback@) == Ok::<DraftModel, AppFault>(
                next@,
            ),
            Err(e) => draft_after_line(draft@, line@, fallback@) == Err::<DraftModel, AppFault>(e@),
        },
{
    let mut draft = draft;
    let (head, value) = match split_once(line, ':') {
        Some(pair) => pair,
        None => {
            return Err(ical_error(quote("invalid VEVENT property line `", line)));
        },
    };
    let params = split_text(head.as_str(), ';');
    let name = params[0].as_str();
    if same_text(name, "SUMMARY") {
        draft.summary = unescape_ical_text(value.as_str());
    } else if same_text(name, "DESCRIPTION") {
        draft.description = unescape_ical_text(value.as_str());
    } else if same_text(name, "LOCATION") {
        draft.location = unescape_ical_text(value.as_str());
    } else if same_text(name, "URL") {
        draft.url = unescape_ical_text(value.as_str());
    } else if same_text(name, "RRULE") {
        draft.rrule = Some(value);
    } else if same_text(name, "DTSTART") {
        let zone = zone_of_params(&params, fallback);
        let secs = match parse_ical_datetime(value.as_str(), zone.as_str()) {
            Ok(secs) => secs,
            Err(e) => {
                return Err(e);
            },
        };
        draft.full_day = !contains_char(value.as_str(), 'T');
        draft.time_zone = zone;
        draft.start = Some(secs);
    } else if same_text(name, "DTEND") {
        let zone = zone_of_params(&params, fallback);
        let secs = match parse_ical_datetime(value.as_str(), zone.as_str()) {
            Ok(secs) => secs,
            Err(e) => {
                return Err(e);
            },
        };
        draft.end = Some(secs);
    }
    Ok(draft)
}

/// Reads one event from the lines between its markers.
#[verifier::loop_isolation(false)]
pub fn parse_ical_event(lines: &Vec<String>, fallback_timezone: &str) -> (out: Result<
    ParsedIcalEvent,
    AppExecutionError,
>)
    ensures
        event_outcome(out) == event_of_lines(texts(lines@), fallback_timezone@),
{
    let mut draft = Draft {
        summary: String::new(),
        description: String::new(),
        location: String::new(),
        url: String::new(),
        time_zone: String::new(),
        full_day: false,
        start: None,
        end: None,
        rrule: None,
    };
    let ghost goal = draft_after_lines(empty_draft(), texts(lines@), 0, fallback_timezone@);
    let mut i: usize = 0;
    while i < lines.len()
        invariant
            i <= lines.len(),
            draft_after_lines(draft@, texts(lines@), i as int, fallback_timezone@) == goal,
        decreases lines.len() - i,
    {
        draft = match read_line(draft, lines[i].as_str(), fallback_timezone) {
            Ok(next) => next,
            Err(e) => {
                return Err(e);
            },
        };
        i += 1;
    }
    let start_ts = match draft.start {
        Some(start) => start,
        None => {
            return Err(ical_error("VEVENT missing DTSTART".to_owned()));
        },
    };
    let end_ts = match draft.end {
        Some(end) => end,
        None => start_ts,
    };
    Ok(
        ParsedIcalEvent {
            summary: draft.summary,
            description: draft.description,
            location: draft.location,
            url: draft.url,
            time_zone: draft.time_zone,
            full_day: draft.full_day,
            start_ts,
            end_ts,
            rrule: draft.rrule,
        },
    )
}

/// The events of `lines[from..]`, after `events`: `current` holds the
/// lines of the event that is being read, if `in_event` says that one is.
/// An end marker closes the event of the lines that were gathered, whether
/// or not a begin marker opened it.
pub open spec fn events_after(
    lines: Seq<Seq<char>>,
    from: int,
    events: Seq<EventModel>,
    current: Seq<Seq<char>>,
    in_event: bool,
    fallback: Seq<char>,
) -> Result<Seq<EventModel>, AppFault>
    decreases lines.len() - from,
{
    if from < 0 || from >= lines.len() {
        Ok(events)
    } else if lines[from] == "BEGIN:VEVENT"@ {
        events_after(lines, from + 1, events, Seq::empty(), true, fallback)
    } else if lines[from] == "END:VEVENT"@ {
        match event_of_lines(current, fallback) {
            Ok(event) => events_after(
                lines,
                from + 1,
                events.push(event),
                Seq::empty(),
                false,
                fallback,
            ),
            Err(fault) => Err(fault),
        }
    } else if in_event {
        events_after(lines, from + 1, events, current.push(lines[from]), true, fallback)
    } else {
        events_after(lines, from + 1, events, current, false, fallback)
    }
}

/// The events of an iCalendar text, in the order of the text.
pub open spec fn calendar_events(ical: Seq<char>, fallback: Seq<char>) -> Result<
    Seq<EventModel>,
    AppFault,
> {
    events_after(unfolded_lines(ical), 0, Seq::empty(), Seq::empty(), false, fallback)
}

/// What reading the events came to, as a model.
pub open spec fn events_outcome(out: Result<Vec<ParsedIcalEvent>, AppExecutionError>) -> Result<
    Seq<EventModel>,
    AppFault,
> {
    match out {
        Ok(events) => Ok(event_models(events@)),
        Err(e) => Err(e@),
    }
}

/// Reads the events of an iCalendar text.
#[verifier::loop_isolation(false)]
pub fn parse_ical_events(ical: &str, fallback_timezone: &str) -> (out: Result<
    Vec<ParsedIcalEvent>,
    AppExecutionError,
>)
    ensures
        events_outcome(out) == calendar_events(ical@, fallback_timezone@),
{
    let lines = unfold_ical_lines(ical);
    let mut events: Vec<ParsedIcalEvent> = Vec::new();
    let mut current: Vec<String> = Vec::new();
    let mut in_event = false;
    let ghost all = texts(lines@);
    let ghost goal = calendar_events(ical@, fallback_timezone@);
    let mut i: usize = 0;
    assert(event_models(events@) == Seq::<EventModel>::empty());
    assert(texts(current@) == Seq::<Seq<char>>::empty());
    while i < lines.len()
        invariant
            i <= lines.len(),
            all == texts(lines@),
            events_after(
                all,
                i as int,
                event_models(events@),
                texts(current@),
                in_event,
                fallback_timezone@,
            ) == goal,
        decreases lines.len() - i,
    {
        let line = lines[i].as_str();
        if same_text(line, "BEGIN:VEVENT") {
            in_event = true;
            current = Vec::new();
        } else if same_text(line, "END:VEVENT") {
            in_event = false;
            let event = match parse_ical_event(&current, fallback_timezone) {
                Ok(event) => event,
                Err(e) => {
                    return Err(e);
                },
            };
            assert(event_models(events@.push(event)) == event_models(events@).push(event@));
            events.push(event);
            current = Vec::new();
        } else if in_event {
            let owned = lines[i].clone();
            assert(texts(current@.push(owned)) == texts(current@).push(owned@));
            current.push(owned);
        }
        i += 1;
    }
    Ok(events)
}

/// How an event repeats.
#[derive(Debug, Clone)]
pub struct RecurrenceRule {
    /// `DAILY`, `WEEKLY`, `MONTHLY` or `YEARLY`.
    pub frequency: String,
    /// Every how many days, weeks, months or years: 1 or more.
    pub interval: i64,
    /// How many occurrences there are at most.
    pub count: Option<usize>,
    /// The instant after which there is no occurrence.
    pub until: Option<i64>,
    /// The days of the week on which a weekly event occurs, Monday being 0.
    pub byday: Vec<u8>,
}

/// The model of a [`RecurrenceRule`].
pub ghost struct RuleModel {
    pub frequency: Seq<char>,
    pub interval: int,
    pub count: Option<int>,
    pub until: Option<int>,
    pub byday: Seq<int>,
}

/// The days of a list as numbers.
pub open spec fn day_numbers(days: Seq<u8>) -> Seq<int> {
    days.map_values(|d: u8| d as int)
}

impl View for RecurrenceRule {
    type V = RuleModel;

    open spec fn view(&self) -> RuleModel {
        RuleModel {
            frequency: self.frequency@,
            interval: self.interval as int,
            count: match self.count {
                Some(n) => Some(n as int),
                None => None,
            },
            until: optional_int(self.until),
            byday: day_numbers(self.byday@),
        }
    }
}

/// The day of the week that a `BYDAY` token names, Monday being 0. Only
/// the last two characters count, so that a number before them is passed over.
pub open spec fn token_day(token: Seq<char>) -> Option<int> {
    let name = if token.len() > 2 {
        token.skip(token.len() - 2)
    } else {
        token
    };
    if name == "MO"@ {
        Some(0int)
    } else if name == "TU"@ {
        Some(1int)
    } else if name == "WE"@ {
        Some(2int)
    } else if name == "TH"@ {
        Some(3int)
    } else if name == "FR"@ {
        Some(4int)
    } else if name == "SA"@ {
        Some(5int)
    } else if name == "SU"@ {
        Some(6int)
    } else {
        None
    }
}

/// Reads one token of a `BYDAY` list.
pub fn parse_byday_token(token: &str) -> (out: Option<u8>)
    ensures
        match out {
            Some(d) => token_day(token@) == Some(d as int) && d < 7,
            None => token_day(token@) is None,
        },
{
    let v = chars_of(token);
    let from: usize = if v.len() > 2 {
        v.len() - 2
    } else {
        0
    };
    let name = string_of_range(&v, from, v.len());
    proof {
        if v.len() > 2 {
        } else {
            assert(v@.subrange(0, v.len() as int) == v@);
        }
    }
    let name = name.as_str();
    if same_text(name, "MO") {
        Some(0)
    } else if same_text(name, "TU") {
        Some(1)
    } else if same_text(name, "WE") {
        Some(2)
    } else if same_text(name, "TH") {
        Some(3)
    } else if same_text(name, "FR") {
        Some(4)
    } else if same_text(name, "SA") {
        Some(5)
    } else if same_text(name, "SU") {
        Some(6)
    } else {
        None
    }
}

/// The days that the tokens `tokens[..upto]` name, in their order; a token
/// that names no day is passed over.
pub open spec fn token_days(tokens: Seq<Seq<char>>, upto: int) -> Seq<int>
    decreases upto,
{
    if upto <= 0 {
        Seq::empty()
    } else {
        match token_day(tokens[upto - 1]) {
            Some(d) => token_days(tokens, upto - 1).push(d),
            None => token_days(tokens, upto - 1),
        }
    }
}

/// The days that a `BYDAY` value lists.
pub open spec fn listed_days(value: Seq<char>) -> Seq<int> {
    token_days(split_on(value, ','), split_on(value, ',').len() as int)
}

fn parse_byday(value: &str) -> (out: Vec<u8>)
    ensures
        day_numbers(out@) == listed_days(value@),
        forall|i: int| 0 <= i < out@.len() ==> out@[i] < 7,
{
    let tokens = split_text(value, ',');
    let mut out: Vec<u8> = Vec::new();
    let mut i: usize = 0;
    while i < tokens.len()
        invariant
            i <= tokens.len(),
            texts(tokens@) == split_on(value@, ','),
            day_numbers(out@) == token_days(texts(tokens@), i as int),
            forall|k: int| 0 <= k < out@.len() ==> out@[k] < 7,
        decreases tokens.len() - i,
    {
        match parse_byday_token(tokens[i].as_str()) {
            Some(d) => {
                out.push(d);
            },
            None => {},
        }
        i += 1;
    }
    out
}

/// The interval that an `INTERVAL` value asks for: its number, but 1 where
/// it is no number that fits 64 bits or is below 1.
pub open spec fn interval_of(value: Seq<char>) -> int {
    match signed_value(value) {
        Some(n) => if 1 <= n <= i64::MAX {
            n
        } else {
            1
        },
        None => 1,
    }
}

/// The count that a `COUNT` value asks for, where it is a number without a
/// minus sign that fits the machine's word.
pub open spec fn count_of(value: Seq<char>) -> Option<int> {
    match unsigned_value(value) {
        Some(n) => if n <= usize::MAX {
            Some(n)
        } else {
            None
        },
        None => None,
    }
}

/// The rule after one more component of its text was read. A component is
/// a key, an equals sign and a value; any other is passed over.
pub open spec fn rule_after_component(rule: RuleModel, component: Seq<char>, zone: Seq<char>) -> Result<
    RuleModel,
    AppFault,
> {
    match split_first(component, '=') {
        None => Ok(rule),
        Some((key, value)) => if key == "FREQ"@ {
            Ok(RuleModel { frequency: value, ..rule })
        } else if key == "INTERVAL"@ {
            Ok(RuleModel { interval: interval_of(value), ..rule })
        } else if key == "COUNT"@ {
            Ok(RuleModel { count: count_of(value), ..rule })
        } else if key == "UNTIL"@ {
            match ical_instant(value, zone) {
                Ok(secs) => Ok(RuleModel { until: Some(secs), ..rule }),
                Err(fault) => Err(fault),
            }
        } else if key == "BYDAY"@ {
            Ok(RuleModel { byday: listed_days(value), ..rule })
        } else {
            Ok(rule)
        },
    }
}

/// The rule after `components[from..]` were read.
pub open spec fn rule_after(rule: RuleModel, components: Seq<Seq<char>>, from: int, zone: Seq<char>) -> Result<
    RuleModel,
    AppFault,
>
    decreases components.len() - from,
{
    if from < 0 || from >= components.len() {
        Ok(rule)
    } else {
        match rule_after_component(rule, components[from], zone) {
            Ok(next) => rule_after(next, components, from + 1, zone),
            Err(fault) => Err(fault),
        }
    }
}

/// The rule before any component was read: every one of something, without end.
pub open spec fn plain_rule() -> RuleModel {
    RuleModel { frequency: Seq::empty(), interval: 1, count: None, until: None, byday: Seq::empty() }
}

/// The rule that an `RRULE` value states: components between semicolons,
/// of which `FREQ` has to be one.
pub open spec fn rule_of(text: Seq<char>, zone: Seq<char>) -> Result<RuleModel, AppFault> {
    match rule_after(plain_rule(), split_on(text, ';'), 0, zone) {
        Err(fault) => Err(fault),
        Ok(rule) => if rule.frequency.len() == 0 {
            Err(ical_fault("RRULE missing FREQ"@))
        } else {
            Ok(rule)
        },
    }
}

/// What reading a rule came to, as a model.
pub open spec fn rule_outcome(out: Result<RecurrenceRule, AppExecutionError>) -> Result<
    RuleModel,
    AppFault,
> {
    match out {
        Ok(rule) => Ok(rule@),
        Err(e) => Err(e@),
    }
}

impl RecurrenceRule {
    /// A rule that can be stepped: its interval is 1 or more, and its days are days of a week.
    pub open spec fn wf(&self) -> bool {
        &&& self.interval >= 1
        &&& forall|i: int| 0 <= i < self.byday@.len() ==> self.byday@[i] < 7
    }
}

fn read_component(rule: RecurrenceRule, component: &str, zone: &str) -> (out: Result<
    RecurrenceRule,
    AppExecutionError,
>)
    requires
        rule.wf(),
    ensures
        match out {
            Ok(next) => next.wf() && rule_after_component(rule@, component@, zone@) == Ok::<
                RuleModel,
                AppFault,
            >(next@),
            Err(e) => rule_after_component(rule@, component@, zone@) == Err::<RuleModel, AppFault>(
                e@,
            ),
        },
{
    let mut rule = rule;
    let (key, value) = match split_once(component, '=') {
        Some(pair) => pair,
        None => {
            return Ok(rule);
        },
    };
    let key = key.as_str();
    if same_text(key, "FREQ") {
        rule.frequency = value;
    } else if same_text(key, "INTERVAL") {
        rule.interval = match parse_i64(value.as_str()) {
            Some(n) => if n >= 1 {
                n
            } else {
                1
            },
            None => 1,
        };
    } else if same_text(key, "COUNT") {
        rule.count = match parse_u64(value.as_str()) {
            Some(n) => if n <= usize::MAX as u64 {
                Some(n as usize)
            } else {
                None
            },
            None => None,
        };
    } else if same_text(key, "UNTIL") {
        let secs = match parse_ical_datetime(value.as_str(), zone) {
            Ok(secs) => secs,
            Err(e) => {
                return Err(e);
            },
        };
        rule.until = Some(secs);
    } else if same_text(key, "BYDAY") {
        rule.byday = parse_byday(value.as_str());
    }
    Ok(rule)
}

/// Reads a recurrence rule; `zone` is the zone in which its `UNTIL` is read.
#[verifier::loop_isolation(false)]
pub fn parse_rrule(rrule: &str, zone: &str) -> (out: Result<RecurrenceRule, AppExecutionError>)
    ensures
        rule_outcome(out) == rule_of(rrule@, zone@),
        out matches Ok(rule) ==> rule.wf(),
{
    let components = split_text(rrule, ';');
    let mut rule = RecurrenceRule {
        frequency: String::new(),
        interval: 1,
        count: None,
        until: None,
        byday: Vec::new(),
    };
    assert(rule@.byday == Seq::<int>::empty());
    let ghost goal = rule_after(plain_rule(), split_on(rrule@, ';'), 0, zone@);
    let mut i: usize = 0;
    while i < components.len()
        invariant
            i <= components.len(),
            rule.wf(),
            rule_after(rule@, texts(components@), i as int, zone@) == goal,
        decreases components.len() - i,
    {
        rule = match read_component(rule, components[i].as_str(), zone) {
            Ok(next) => next,
            Err(e) => {
                return Err(e);
            },
        };
        i += 1;
    }
    if rule.frequency.as_str().unicode_len() == 0 {
        return Err(ical_error("RRULE missing FREQ".to_owned()));
    }
    Ok(rule)
}

/// The instant a whole number of days before `secs` at which the week of
/// `secs` began: the same time of day on its Monday.
pub open spec fn week_start_of(secs: int) -> int {
    secs - 86400 * weekday_index(secs)
}

/// The quotient of `a` by `b`, rounded toward zero.
pub open spec fn toward_zero(a: int, b: int) -> int {
    if a >= 0 {
        a / b
    } else {
        -((-a) / b)
    }
}

/// The whole weeks from the week of `base` to the week of `current`.
pub open spec fn weeks_between(base: int, current: int) -> int {
    toward_zero(toward_zero(week_start_of(current) - week_start_of(base), 86400), 7)
}

/// Whether a count of weeks is a multiple of the interval.
pub open spec fn on_interval(weeks: int, interval: int) -> bool {
    (if weeks >= 0 {
        weeks
    } else {
        -weeks
    }) % interval == 0
}

/// The least of the days that is greater than `after`, if there is one.
pub open spec fn least_above(days: Seq<int>, after: int) -> Option<int>
    decreases days.len(),
{
    if days.len() == 0 {
        None
    } else {
        let rest = least_above(days.drop_last(), after);
        let d = days.last();
        if d > after && (rest is None || d < rest->0) {
            Some(d)
        } else {
            rest
        }
    }
}

/// What `least_above` finds is the least of the days above the bound.
pub proof fn law_least_above_is_least(days: Seq<int>, after: int)
    ensures
        match least_above(days, after) {
            Some(m) => days.contains(m) && m > after && forall|i: int|
                0 <= i < days.len() && days[i] > after ==> m <= #[trigger] days[i],
            None => forall|i: int| 0 <= i < days.len() ==> #[trigger] days[i] <= after,
        },
    decreases days.len(),
{
    if days.len() > 0 {
        let rest = days.drop_last();
        law_least_above_is_least(rest, after);
        let found = least_above(days, after);
        match found {
            Some(m) => {
                assert forall|i: int| 0 <= i < days.len() && days[i] > after implies m
                    <= #[trigger] days[i] by {
                    if i < rest.len() {
                        assert(rest[i] == days[i]);
                    }
                }
            },
            None => {
                assert forall|i: int| 0 <= i < days.len() implies #[trigger] days[i] <= after by {
                    if i < rest.len() {
                        assert(rest[i] == days[i]);
                    }
                }
            },
        }
    }
}

/// An instant that fits 64 bits, or the failure to fit.
pub open spec fn in_range(secs: int) -> Result<int, AppFault> {
    if i64::MIN <= secs <= i64::MAX {
        Ok(secs)
    } else {
        Err(ical_fault("recurrence is out of range"@))
    }
}

/// The occurrence that follows the one at `current`, for an event that
/// first occurred at `base`.
///
/// A daily event steps by the interval in days, a monthly one by 30 days
/// for each month of the interval, a yearly one by 365 days for each year.
/// A weekly event without listed days steps by the interval in weeks. With
/// listed days, and in a week that is a multiple of the interval away from
/// the first week, it steps to the next listed day of the same week. Where
/// that week has none left, or is no such multiple, it steps to the first
/// listed day of the week that follows by the interval.
pub open spec fn next_occurrence(current: int, rule: RuleModel, base: int) -> Result<int, AppFault> {
    if rule.frequency == "DAILY"@ {
        in_range(current + 86400 * rule.interval)
    } else if rule.frequency == "WEEKLY"@ {
        if rule.byday.len() == 0 {
            in_range(current + 604800 * rule.interval)
        } else {
            let today = weekday_index(current);
            let later = least_above(rule.byday, today);
            if on_interval(weeks_between(base, current), rule.interval) && later is Some {
                in_range(current + 86400 * (later->0 - today))
            } else {
                match least_above(rule.byday, -1) {
                    Some(first) => in_range(
                        week_start_of(current) + 604800 * rule.interval + 86400 * first,
                    ),
                    None => Err(ical_fault("RRULE BYDAY has no values"@)),
                }
            }
        }
    } else if rule.frequency == "MONTHLY"@ {
        in_range(current + 86400 * (30 * rule.interval))
    } else if rule.frequency == "YEARLY"@ {
        in_range(current + 86400 * (365 * rule.interval))
    } else {
        Err(ical_fault(quoting("unsupported RRULE FREQ `"@, rule.frequency)))
    }
}

fn fit(secs: i128) -> (out: Result<i64, AppExecutionError>)
    ensures
        instant_outcome(out) == in_range(secs as int),
{
    if secs < -0x8000_0000_0000_0000 || secs > 0x7fff_ffff_ffff_ffff {
        Err(ical_error("recurrence is out of range".to_owned()))
    } else {
        Ok(secs as i64)
    }
}

fn least_day_above(days: &Vec<u8>, after: i64) -> (out: Option<u8>)
    ensures
        match out {
            Some(d) => least_above(day_numbers(days@), after as int) == Some(d as int),
            None => least_above(day_numbers(days@), after as int) is None,
        },
{
    let ghost all = day_numbers(days@);
    let mut best: Option<u8> = None;
    let mut i: usize = 0;
    while i < days.len()
        invariant
            i <= days.len(),
            all == day_numbers(days@),
            match best {
                Some(d) => least_above(all.take(i as int), after as int) == Some(d as int),
                None => least_above(all.take(i as int), after as int) is None,
            },
        decreases days.len() - i,
    {
        let d = days[i];
        proof {
            assert(all.take(i + 1).drop_last() == all.take(i as int));
        }
        if (d as i64) > after {
            match best {
                Some(b) => {
                    if d < b {
                        best = Some(d);
                    }
                },
                None => {
                    best = Some(d);
                },
            }
        }
        i += 1;
    }
    assert(all.take(days.len() as int) == all);
    best
}

fn quotient_toward_zero(a: i128, b: i128) -> (out: i128)
    requires
        b > 0,
        a > i128::MIN,
    ensures
        out == toward_zero(a as int, b as int),
{
    if a >= 0 {
        a / b
    } else {
        -((-a) / b)
    }
}

/// Steps from one occurrence of an event to the next.
pub fn next_recurrence(current: i64, rule: &RecurrenceRule, base_start: i64) -> (out: Result<
    i64,
    AppExecutionError,
>)
    requires
        rule.wf(),
    ensures
        instant_outcome(out) == next_occurrence(current as int, rule@, base_start as int),
{
    let frequency = rule.frequency.as_str();
    let now: i128 = current as i128;
    let interval: i128 = rule.interval as i128;
    if same_text(frequency, "DAILY") {
        fit(now + 86400 * interval)
    } else if same_text(frequency, "WEEKLY") {
        if rule.byday.len() == 0 {
            return fit(now + 604800 * interval);
        }
        let today = weekday_of(current);
        let base_day = weekday_of(base_start);
        let week: i128 = now - 86400 * (today as i128);
        let base_week: i128 = (base_start as i128) - 86400 * (base_day as i128);
        let days_apart = quotient_toward_zero(week - base_week, 86400);
        let weeks = quotient_toward_zero(days_apart, 7);
        let distance: i128 = if weeks >= 0 {
            weeks
        } else {
            -weeks
        };
        if distance % interval == 0 {
            match least_day_above(&rule.byday, today) {
                Some(later) => {
                    return fit(now + 86400 * ((later as i128) - (today as i128)));
                },
                None => {},
            }
        }
        match least_day_above(&rule.byday, -1) {
            Some(first) => fit(week + 604800 * interval + 86400 * (first as i128)),
            None => Err(ical_error("RRULE BYDAY has no values".to_owned())),
        }
    } else if same_text(frequency, "MONTHLY") {
        fit(now + 86400 * (30 * interval))
    } else if same_text(frequency, "YEARLY") {
        fit(now + 86400 * (365 * interval))
    } else {
        Err(ical_error(quote("unsupported RRULE FREQ `", frequency)))
    }
}

/// The occurrences that follow `found`, from the one at `cursor` on, when
/// `generated` occurrences have been counted. Counting ends with the cap,
/// with the rule's own count, behind the rule's last instant, and 370 days
/// behind the end of the window. Occurrences outside the window are
/// counted and left out.
pub open spec fn occurrences_from(
    rule: RuleModel,
    base: int,
    duration: int,
    window_from: int,
    window_until: int,
    cap: nat,
    cursor: int,
    generated: nat,
    found: Seq<(int, int)>,
) -> Result<Seq<(int, int)>, AppFault>
    decreases cap - generated,
{
    if generated >= cap {
        Ok(found)
    } else if rule.until is Some && cursor > rule.until->0 {
        Ok(found)
    } else {
        let hit = window_from <= cursor <= window_until;
        if hit && in_range(cursor + duration) is Err {
            Err(ical_fault("recurrence is out of range"@))
        } else {
            let held = if hit {
                found.push((cursor, cursor + duration))
            } else {
                found
            };
            if hit && held.len() >= cap {
                Ok(held)
            } else if rule.count is Some && generated + 1 >= rule.count->0 {
                Ok(held)
            } else {
                match next_occurrence(cursor, rule, base) {
                    Err(fault) => Err(fault),
                    Ok(next) => if next > window_until + 370 * 86400 {
                        Ok(held)
                    } else {
                        occurrences_from(
                            rule,
                            base,
                            duration,
                            window_from,
                            window_until,
                            cap,
                            next,
                            generated + 1,
                            held,
                        )
                    },
                }
            }
        }
    }
}

/// The occurrences of an event in a window, each with its start and its
/// end, at most `cap` of them: the event itself where it does not repeat
/// and overlaps the window, else what its rule generates from its start.
pub open spec fn event_occurrences(event: EventModel, window_from: int, window_until: int, cap: nat) -> Result<
    Seq<(int, int)>,
    AppFault,
> {
    match event.rrule {
        None => if event.start <= window_until && event.end >= window_from {
            Ok(seq![(event.start, event.end)])
        } else {
            Ok(Seq::empty())
        },
        Some(text) => match rule_of(text, event.time_zone) {
            Err(fault) => Err(fault),
            Ok(rule) => occurrences_from(
                rule,
                event.start,
                event.end - event.start,
                window_from,
                window_until,
                cap,
                event.start,
                0,
                Seq::empty(),
            ),
        },
    }
}

/// Pairs of start and end as numbers.
pub open spec fn spans(pairs: Seq<(i64, i64)>) -> Seq<(int, int)> {
    pairs.map_values(|p: (i64, i64)| (p.0 as int, p.1 as int))
}

/// What an expansion came to, as a model.
pub open spec fn spans_outcome(out: Result<Vec<(i64, i64)>, AppExecutionError>) -> Result<
    Seq<(int, int)>,
    AppFault,
> {
    match out {
        Ok(pairs) => Ok(spans(pairs@)),
        Err(e) => Err(e@),
    }
}

/// Lists the occurrences of an event in the window from `start_range` to `end_range`.
#[verifier::loop_isolation(false)]
pub fn expand_ical_event_occurrences(
    event: &ParsedIcalEvent,
    start_range: i64,
    end_range: i64,
    export_count: usize,
) -> (out: Result<Vec<(i64, i64)>, AppExecutionError>)
    ensures
        spans_outcome(out) == event_occurrences(
            event@,
            start_range as int,
            end_range as int,
            export_count as nat,
        ),
{
    let mut occurrences: Vec<(i64, i64)> = Vec::new();
    assert(spans(occurrences@) == Seq::<(int, int)>::empty());
    let text = match &event.rrule {
        None => {
            if event.start_ts <= end_range && event.end_ts >= start_range {
                occurrences.push((event.start_ts, event.end_ts));
                assert(spans(occurrences@) == seq![(event.start_ts as int, event.end_ts as int)]);
            }
            return Ok(occurrences);
        },
        Some(text) => text,
    };
    let rule = match parse_rrule(text.as_str(), event.time_zone.as_str()) {
        Ok(rule) => rule,
        Err(e) => {
            return Err(e);
        },
    };
    let duration: i128 = (event.end_ts as i128) - (event.start_ts as i128);
    let horizon: i128 = (end_range as i128) + 370 * 86400;
    let mut generated: usize = 0;
    let mut cursor: i64 = event.start_ts;
    let ghost goal = event_occurrences(
        event@,
        start_range as int,
        end_range as int,
        export_count as nat,
    );
    while generated < export_count
        invariant
            generated <= export_count,
            occurrences_from(
                rule@,
                event.start_ts as int,
                duration as int,
                start_range as int,
                end_range as int,
                export_count as nat,
                cursor as int,
                generated as nat,
                spans(occurrences@),
            ) == goal,
        decreases export_count - generated,
    {
        match rule.until {
            Some(until) => {
                if cursor > until {
                    return Ok(occurrences);
                }
            },
            None => {},
        }
        if cursor >= start_range && cursor <= end_range {
            let end = match fit((cursor as i128) + duration) {
                Ok(end) => end,
                Err(e) => {
                    return Err(e);
                },
            };
            assert(spans(occurrences@.push((cursor, end))) == spans(occurrences@).push(
                (cursor as int, end as int),
            ));
            occurrences.push((cursor, end));
            if occurrences.len() >= export_count {
                return Ok(occurrences);
            }
        }
        generated += 1;
        match rule.count {
            Some(count) => {
                if generated >= count {
                    return Ok(occurrences);
                }
            },
            None => {},
        }
        cursor = match next_recurrence(cursor, &rule, event.start_ts) {
            Ok(next) => next,
            Err(e) => {
                return Err(e);
            },
        };
        if (cursor as i128) > horizon {
            return Ok(occurrences);
        }
    }
    Ok(occurrences)
}

/// An error over the two fields that bound the window.
pub open spec fn boundary_fault(reason: Seq<char>) -> AppFault {
    AppFault::InvalidField { field: "exportFrom/exportUntil"@, reason }
}

/// The first whole second that is not before an instant.
pub open spec fn second_at_or_after(at: Timestamp) -> int {
    if at.nanos > 0 {
        at.secs + 1
    } else {
        at.secs as int
    }
}

/// A bound of the export window, in whole seconds. Events fall on whole
/// seconds, so the first bound is rounded up and the last one down.
///
/// A blank first bound is now, a blank last bound 366 days from now. Else
/// the bound is an RFC 3339 instant, or a day as `YYYY-MM-DD` (its first
/// second for the first bound, its last for the last one, on the clocks of
/// `zone`), or whatever iCalendar itself would read.
pub open spec fn boundary_instant(value: Seq<char>, zone: Seq<char>, is_start: bool, now: Timestamp) -> Result<
    int,
    AppFault,
> {
    if is_blank(value) {
        if is_start {
            in_range(second_at_or_after(now))
        } else {
            in_range(now.secs + 366 * 86400)
        }
    } else if rfc3339_instant(value) is Some {
        if is_start {
            in_range(second_at_or_after(rfc3339_instant(value)->0.at))
        } else {
            Ok(rfc3339_instant(value)->0.at.secs as int)
        }
    } else if naive_day(value, "%Y-%m-%d"@) is Some {
        let midnight = naive_day(value, "%Y-%m-%d"@)->0;
        let naive = if is_start {
            midnight
        } else {
            midnight + 86399
        };
        if !(i64::MIN <= naive <= i64::MAX) {
            Err(ical_fault("recurrence is out of range"@))
        } else if !known_zone(zone) {
            Err(boundary_fault(quoting("unknown timezone `"@, zone)))
        } else {
            match zone_instant(zone, naive) {
                Some(secs) => Ok(secs),
                None => Err(
                    boundary_fault(
                        quoting_two("ambiguous boundary `"@, value, "` for timezone `"@, zone),
                    ),
                ),
            }
        }
    } else {
        ical_instant(value, zone)
    }
}

/// Reads one bound of the export window.
pub fn parse_ical_boundary(value: &str, zone: &str, is_start: bool, now: Timestamp) -> (out: Result<
    i64,
    AppExecutionError,
>)
    ensures
        instant_outcome(out) == boundary_instant(value@, zone@, is_start, now),
{
    if str_is_blank(value) {
        return if is_start {
            fit((now.secs as i128) + (if now.nanos > 0 { 1i128 } else { 0i128 }))
        } else {
            fit((now.secs as i128) + 366 * 86400)
        };
    }
    match parse_rfc3339(value) {
        Some(instant) => {
            return if is_start {
                fit((instant.at.secs as i128) + (if instant.at.nanos > 0 { 1i128 } else { 0i128 }))
            } else {
                Ok(instant.at.secs)
            };
        },
        None => {},
    }
    match parse_naive_day(value, "%Y-%m-%d") {
        Some(midnight) => {
            let naive: i128 = if is_start {
                midnight as i128
            } else {
                (midnight as i128) + 86399
            };
            let naive = match fit(naive) {
                Ok(naive) => naive,
                Err(e) => {
                    return Err(e);
                },
            };
            if !zone_known(zone) {
                return Err(
                    AppExecutionError::InvalidField {
                        field: "exportFrom/exportUntil",
                        reason: quote("unknown timezone `", zone),
                    },
                );
            }
            return match local_to_utc(zone, naive) {
                Some(secs) => Ok(secs),
                None => Err(
                    AppExecutionError::InvalidField {
                        field: "exportFrom/exportUntil",
                        reason: quote_two("ambiguous boundary `", value, "` for timezone `", zone),
                    },
                ),
            };
        },
        None => {},
    }
    parse_ical_datetime(value, zone)
}

/// One occurrence of an event of a calendar.
#[derive(Debug, Clone, Copy, PartialEq, Eq)]
pub struct Occurrence {
    /// The place of the event among the events of the calendar.
    pub event: usize,
    pub start: i64,
    pub end: i64,
}

/// The model of an [`Occurrence`].
pub ghost struct OccurrenceModel {
    pub event: int,
    pub start: int,
    pub end: int,
}

impl View for Occurrence {
    type V = OccurrenceModel;

    open spec fn view(&self) -> OccurrenceModel {
        OccurrenceModel { event: self.event as int, start: self.start as int, end: self.end as int }
    }
}

/// The models of a list of occurrences.
pub open spec fn occurrence_models(items: Seq<Occurrence>) -> Seq<OccurrenceModel> {
    items.map_values(|o: Occurrence| o@)
}

/// `held`, and behind it the spans `spans[k..]` as occurrences of the
/// event at place `event`; but no more once `cap` occurrences are held.
pub open spec fn with_spans(
    held: Seq<OccurrenceModel>,
    event: int,
    spans: Seq<(int, int)>,
    k: int,
    cap: nat,
) -> Seq<OccurrenceModel>
    decreases spans.len() - k,
{
    if k < 0 || k >= spans.len() {
        held
    } else {
        let more = held.push(OccurrenceModel { event, start: spans[k].0, end: spans[k].1 });
        if more.len() >= cap {
            more
        } else {
            with_spans(more, event, spans, k + 1, cap)
        }
    }
}

/// Whether an event passes the search: every event passes an empty search,
/// any other has to stand in the summary, both taken in lower case.
pub open spec fn passes_search(summary: Seq<char>, search: Seq<char>) -> bool {
    search.len() == 0 || has_sub(lowercase(summary), search)
}

/// The occurrences of the events `events[from..]` in the window, behind
/// `held`. No more events are looked at once `cap` occurrences are held.
pub open spec fn gathered(
    events: Seq<EventModel>,
    from: int,
    search: Seq<char>,
    window_from: int,
    window_until: int,
    cap: nat,
    held: Seq<OccurrenceModel>,
) -> Result<Seq<OccurrenceModel>, AppFault>
    decreases events.len() - from,
{
    if from < 0 || from >= events.len() {
        Ok(held)
    } else if !passes_search(events[from].summary, search) {
        gathered(events, from + 1, search, window_from, window_until, cap, held)
    } else {
        match event_occurrences(events[from], window_from, window_until, cap) {
            Err(fault) => Err(fault),
            Ok(found) => {
                let more = with_spans(held, from, found, 0, cap);
                if more.len() >= cap {
                    Ok(more)
                } else {
                    gathered(events, from + 1, search, window_from, window_until, cap, more)
                }
            },
        }
    }
}

/// Where `item` goes into a list that is sorted by start: behind every
/// occurrence that does not start later.
pub open spec fn place_by_start(sorted: Seq<OccurrenceModel>, item: OccurrenceModel) -> int
    decreases sorted.len(),
{
    if sorted.len() > 0 && sorted.last().start > item.start {
        place_by_start(sorted.drop_last(), item)
    } else {
        sorted.len() as int
    }
}

/// The occurrences in the order of their starts; those that start
/// together keep the order in which they stand.
pub open spec fn by_start(items: Seq<OccurrenceModel>) -> Seq<OccurrenceModel>
    decreases items.len(),
{
    if items.len() == 0 {
        Seq::empty()
    } else {
        let sorted = by_start(items.drop_last());
        sorted.insert(place_by_start(sorted, items.last()), items.last())
    }
}

/// Where an occurrence goes into a sorted list: every occurrence behind
/// that place starts later, and the one before it does not.
proof fn lemma_place_by_start(sorted: Seq<OccurrenceModel>, item: OccurrenceModel)
    ensures
        0 <= place_by_start(sorted, item) <= sorted.len(),
        forall|j: int|
            place_by_start(sorted, item) <= j < sorted.len() ==> (#[trigger] sorted[j]).start
                > item.start,
        place_by_start(sorted, item) > 0 ==> sorted[place_by_start(sorted, item) - 1].start
            <= item.start,
    decreases sorted.len(),
{
    if sorted.len() > 0 && sorted.last().start > item.start {
        let rest = sorted.drop_last();
        lemma_place_by_start(rest, item);
        assert forall|j: int| place_by_start(sorted, item) <= j < sorted.len() implies (
        #[trigger] sorted[j]).start > item.start by {
            if j < rest.len() {
                assert(sorted[j] == rest[j]);
            }
        }
        if place_by_start(sorted, item) > 0 {
            assert(sorted[place_by_start(sorted, item) - 1] == rest[place_by_start(rest, item) - 1]);
        }
    }
}

/// No occurrence starts later than one that stands behind it.
pub open spec fn ordered_by_start(items: Seq<OccurrenceModel>) -> bool {
    forall|i: int, j: int| 0 <= i < j < items.len() ==> items[i].start <= items[j].start
}

/// Sorting by start orders the occurrences by their starts and only
/// rearranges them: each occurrence stands in the result as often as in
/// what was sorted.
pub proof fn law_by_start_orders(items: Seq<OccurrenceModel>)
    ensures
        ordered_by_start(by_start(items)),
        by_start(items).to_multiset() == items.to_multiset(),
        by_start(items).len() == items.len(),
    decreases items.len(),
{
    if items.len() == 0 {
        assert(by_start(items) =~= items);
    } else {
        let rest = items.drop_last();
        let item = items.last();
        law_by_start_orders(rest);
        let sorted = by_start(rest);
        let p = place_by_start(sorted, item);
        lemma_place_by_start(sorted, item);
        let out = sorted.insert(p, item);
        assert(by_start(items) == out);
        assert forall|i: int, j: int| 0 <= i < j < out.len() implies out[i].start
            <= out[j].start by {
            if j < p {
                assert(out[i] == sorted[i] && out[j] == sorted[j]);
            } else if j == p {
                assert(out[i] == sorted[i]);
                if p > 0 {
                    assert(sorted[i].start <= sorted[p - 1].start);
                }
            } else if i < p {
                assert(out[i] == sorted[i] && out[j] == sorted[j - 1]);
            } else if i == p {
                assert(out[j] == sorted[j - 1]);
            } else {
                assert(out[i] == sorted[i - 1] && out[j] == sorted[j - 1]);
            }
        }
        vstd::seq_lib::to_multiset_insert(sorted, p, item);
        vstd::seq_lib::to_multiset_build(rest, item);
        assert(rest.push(item) =~= items);
    }
}

/// Sorts occurrences by their starts; those that start together keep their order.
pub fn sort_by_start(items: &Vec<Occurrence>) -> (out: Vec<Occurrence>)
    ensures
        occurrence_models(out@) == by_start(occurrence_models(items@)),
        out@.len() == items@.len(),
        forall|k: int| 0 <= k < out@.len() ==> items@.contains(#[trigger] out@[k]),
{
    let ghost all = occurrence_models(items@);
    let mut out: Vec<Occurrence> = Vec::new();
    let mut i: usize = 0;
    while i < items.len()
        invariant
            i <= items.len(),
            all == occurrence_models(items@),
            out@.len() == i,
            occurrence_models(out@) == by_start(all.take(i as int)),
            forall|k: int| 0 <= k < out@.len() ==> items@.contains(#[trigger] out@[k]),
        decreases items.len() - i,
    {
        let item = items[i];
        let ghost sorted = occurrence_models(out@);
        let mut place: usize = out.len();
        assert(sorted.take(sorted.len() as int) == sorted);
        while place > 0 && out[place - 1].start > item.start
            invariant
                place <= out.len(),
                sorted == occurrence_models(out@),
                place_by_start(sorted, item@) == place_by_start(sorted.take(place as int), item@),
            decreases place,
        {
            proof {
                assert(sorted.take(place as int).drop_last() == sorted.take(place - 1));
            }
            place -= 1;
        }
        proof {
            assert(all.take(i + 1).drop_last() == all.take(i as int));
        }
        let ghost before = out@;
        out.insert(place, item);
        i += 1;
    }
    assert(all.take(items.len() as int) == all);
    out
}

/// The text of a field that is a string, or nothing where it is none.
pub open spec fn text_field(fields: Map<Seq<char>, JsonModel>, key: Seq<char>) -> Seq<char> {
    match member_str(fields, key) {
        Some(text) => text,
        None => Seq::empty(),
    }
}

/// Whether a field is the boolean `true`.
pub open spec fn flag(fields: Map<Seq<char>, JsonModel>, key: Seq<char>) -> bool {
    member_bool(fields, key) == Some(true)
}

/// The last instant of an occurrence that is shown: for an event with a
/// time its end, for an event of whole days the second before its end, so
/// that the day on which it ends is the last day that it covers; and where
/// such an event does not end after it starts, the last second of its first day.
pub open spec fn shown_end(full_day: bool, start: int, end: int) -> int {
    if !full_day {
        end
    } else if end <= start {
        start + 86399
    } else {
        end - 1
    }
}

/// The pattern by which the times of an event are written.
pub open spec fn time_pattern(full_day: bool) -> Seq<char> {
    if full_day {
        "%Y-%m-%d"@
    } else {
        "%Y-%m-%dT%H:%M:%S"@
    }
}

/// `object` with one more member, where `wanted` says so and the text is not empty.
pub open spec fn with_text(
    object: Map<Seq<char>, JsonModel>,
    wanted: bool,
    key: Seq<char>,
    text: Seq<char>,
) -> Map<Seq<char>, JsonModel> {
    if wanted && text.len() > 0 {
        object.insert(key, JsonModel::Str(text))
    } else {
        object
    }
}

/// The JSON object that shows one occurrence: summary, start and end on
/// the clocks of the calendar's zone, and what the fields ask for besides.
pub open spec fn occurrence_entry(
    event: EventModel,
    start: int,
    end: int,
    zone: Seq<char>,
    fields: Map<Seq<char>, JsonModel>,
) -> Result<JsonModel, AppFault> {
    let last = shown_end(event.full_day, start, end);
    let pattern = time_pattern(event.full_day);
    if !(i64::MIN <= last <= i64::MAX) {
        Err(ical_fault("recurrence is out of range"@))
    } else if zone_text(zone, start, 0, pattern) is None || zone_text(zone, last, 0, pattern)
        is None {
        Err(ical_fault("time cannot be shown"@))
    } else {
        let base = Map::<Seq<char>, JsonModel>::empty().insert(
            "summary"@,
            JsonModel::Str(event.summary),
        ).insert("startTime"@, JsonModel::Str(zone_text(zone, start, 0, pattern)->0)).insert(
            "endTime"@,
            JsonModel::Str(zone_text(zone, last, 0, pattern)->0),
        );
        let more = with_text(
            with_text(
                with_text(base, flag(fields, "addLocation"@), "location"@, event.location),
                flag(fields, "addUrl"@),
                "url"@,
                event.url,
            ),
            flag(fields, "addDescription"@),
            "description"@,
            event.description,
        );
        Ok(
            JsonModel::Object(
                if flag(fields, "addTimezone"@) {
                    more.insert(
                        "timezone"@,
                        JsonModel::Str(
                            if event.time_zone.len() == 0 {
                                zone
                            } else {
                                event.time_zone
                            },
                        ),
                    )
                } else {
                    more
                },
            ),
        )
    }
}

/// The entries of the occurrences `sorted[k..]`, behind `held`, up to the
/// cap; each occurrence names its event by its place among `events`.
pub open spec fn entries_from(
    events: Seq<EventModel>,
    sorted: Seq<OccurrenceModel>,
    k: int,
    zone: Seq<char>,
    fields: Map<Seq<char>, JsonModel>,
    cap: nat,
    held: Seq<JsonModel>,
) -> Result<Seq<JsonModel>, AppFault>
    decreases sorted.len() - k,
{
    if k < 0 || k >= sorted.len() || k >= cap {
        Ok(held)
    } else {
        match occurrence_entry(events[sorted[k].event], sorted[k].start, sorted[k].end, zone, fields) {
            Err(fault) => Err(fault),
            Ok(entry) => entries_from(events, sorted, k + 1, zone, fields, cap, held.push(entry)),
        }
    }
}

/// How many occurrences `data/icalJson` is asked for at most: the field
/// `exportCount`, or 100 where it is no integer from 0 on; and no more
/// than the machine can count.
pub open spec fn export_cap(fields: Map<Seq<char>, JsonModel>) -> nat {
    match member_u64(fields, "exportCount"@) {
        Some(n) => if n <= usize::MAX {
            n as nat
        } else {
            usize::MAX as nat
        },
        None => 100,
    }
}

/// The zone of a calendar: its own, else that of the context, else UTC.
pub open spec fn calendar_zone(ical: Seq<char>, context: ContextModel) -> Seq<char> {
    match first_zone(unfolded_lines(ical), 0) {
        Some(zone) => zone,
        None => match context.time_zone {
            Some(zone) => zone,
            None => "UTC"@,
        },
    }
}

/// `data/icalJson`: the occurrences of the events of an iCalendar text in
/// a window of time, as an array of objects in the order of their starts.
///
/// The field `ical` holds the text itself, not an address of it. The
/// fields `exportFrom` and `exportUntil` bound the window, `exportCount`
/// caps the number of occurrences, and `search` keeps only the events whose
/// summary holds it, whatever the case of the letters.
pub open spec fn ical_json_result(
    fields: Map<Seq<char>, JsonModel>,
    context: ContextModel,
    now: Timestamp,
) -> Result<OutputModel, AppFault> {
    match member_str(fields, "ical"@) {
        None => Err(AppFault::MissingField("ical"@)),
        Some(ical) => if is_blank(ical) {
            Err(ical_fault("No iCal data provided."@))
        } else if "http"@.is_prefix_of(ical) {
            Err(ical_fault("Pass in iCal data as a string, not a URL."@))
        } else {
            let zone = calendar_zone(ical, context);
            let cap = export_cap(fields);
            let search = lowercase(text_field(fields, "search"@));
            match boundary_instant(text_field(fields, "exportFrom"@), zone, true, now) {
                Err(fault) => Err(fault),
                Ok(window_from) => match boundary_instant(
                    text_field(fields, "exportUntil"@),
                    zone,
                    false,
                    now,
                ) {
                    Err(fault) => Err(fault),
                    Ok(window_until) => match calendar_events(ical, zone) {
                        Err(fault) => Err(fault),
                        Ok(events) => match gathered(
                            events,
                            0,
                            search,
                            window_from,
                            window_until,
                            cap,
                            Seq::empty(),
                        ) {
                            Err(fault) => Err(fault),
                            Ok(held) => if !known_zone(zone) {
                                Err(ical_fault(quoting("unknown timezone `"@, zone)))
                            } else {
                                match entries_from(
                                    events,
                                    by_start(held),
                                    0,
                                    zone,
                                    fields,
                                    cap,
                                    Seq::empty(),
                                ) {
                                    Err(fault) => Err(fault),
                                    Ok(items) => Ok(OutputModel::Value(JsonModel::Array(items))),
                                }
                            },
                        },
                    },
                },
            }
        },
    }
}

fn string_field(fields: &JsonObject, key: &str) -> (out: String)
    ensures
        out@ == text_field(fields@, key@),
{
    match fields.get_str(key) {
        Some(text) => text.to_owned(),
        None => String::new(),
    }
}

fn flag_of(fields: &JsonObject, key: &str) -> (out: bool)
    ensures
        out == flag(fields@, key@),
{
    match fields.get_bool(key) {
        Some(value) => value,
        None => false,
    }
}

fn add_text(object: &mut JsonObject, wanted: bool, key: &str, text: &str)
    ensures
        final(object)@ == with_text(old(object)@, wanted, key@, text@),
{
    if wanted && text.unicode_len() > 0 {
        object.insert(key.to_owned(), JsonValue::Str(text.to_owned()));
    }
}

fn entry_of(event: &ParsedIcalEvent, start: i64, end: i64, zone: &str, fields: &JsonObject) -> (out:
    Result<JsonValue, AppExecutionError>)
    ensures
        match out {
            Ok(entry) => occurrence_entry(event@, start as int, end as int, zone@, fields@) == Ok::<
                JsonModel,
                AppFault,
            >(entry@),
            Err(e) => occurrence_entry(event@, start as int, end as int, zone@, fields@) == Err::<
                JsonModel,
                AppFault,
            >(e@),
        },
{
    let last: i128 = if !event.full_day {
        end as i128
    } else if end <= start {
        (start as i128) + 86399
    } else {
        (end as i128) - 1
    };
    let last = match fit(last) {
        Ok(last) => last,
        Err(e) => {
            return Err(e);
        },
    };
    let pattern = if event.full_day {
        "%Y-%m-%d"
    } else {
        "%Y-%m-%dT%H:%M:%S"
    };
    let start_text = match format_in_zone(zone, Timestamp { secs: start, nanos: 0 }, pattern) {
        Some(text) => text,
        None => {
            return Err(ical_error("time cannot be shown".to_owned()));
        },
    };
    let end_text = match format_in_zone(zone, Timestamp { secs: last, nanos: 0 }, pattern) {
        Some(text) => text,
        None => {
            return Err(ical_error("time cannot be shown".to_owned()));
        },
    };
    let mut object = JsonObject::new();
    object.insert("summary".to_owned(), JsonValue::Str(event.summary.clone()));
    object.insert("startTime".to_owned(), JsonValue::Str(start_text));
    object.insert("endTime".to_owned(), JsonValue::Str(end_text));
    add_text(&mut object, flag_of(fields, "addLocation"), "location", event.location.as_str());
    add_text(&mut object, flag_of(fields, "addUrl"), "url", event.url.as_str());
    add_text(
        &mut object,
        flag_of(fields, "addDescription"),
        "description",
        event.description.as_str(),
    );
    if flag_of(fields, "addTimezone") {
        let shown = if event.time_zone.as_str().unicode_len() == 0 {
            zone.to_owned()
        } else {
            event.time_zone.clone()
        };
        object.insert("timezone".to_owned(), JsonValue::Str(shown));
    }
    Ok(JsonValue::Object(object))
}

#[verifier::loop_isolation(false)]
fn gather(
    events: &Vec<ParsedIcalEvent>,
    search: &str,
    window_from: i64,
    window_until: i64,
    cap: usize,
) -> (out: Result<Vec<Occurrence>, AppExecutionError>)
    ensures
        match out {
            Ok(held) => gathered(
                event_models(events@),
                0,
                search@,
                window_from as int,
                window_until as int,
                cap as nat,
                Seq::empty(),
            ) == Ok::<Seq<OccurrenceModel>, AppFault>(occurrence_models(held@)) && forall|k: int|
                0 <= k < held@.len() ==> (#[trigger] held@[k]).event < events@.len(),
            Err(e) => gathered(
                event_models(events@),
                0,
                search@,
                window_from as int,
                window_until as int,
                cap as nat,
                Seq::empty(),
            ) == Err::<Seq<OccurrenceModel>, AppFault>(e@),
        },
{
    let ghost all = event_models(events@);
    let ghost goal = gathered(
        all,
        0,
        search@,
        window_from as int,
        window_until as int,
        cap as nat,
        Seq::empty(),
    );
    let mut held: Vec<Occurrence> = Vec::new();
    assert(occurrence_models(held@) == Seq::<OccurrenceModel>::empty());
    let mut i: usize = 0;
    while i < events.len()
        invariant
            i <= events.len(),
            gathered(
                all,
                i as int,
                search@,
                window_from as int,
                window_until as int,
                cap as nat,
                occurrence_models(held@),
            ) == goal,
            forall|k: int| 0 <= k < held@.len() ==> (#[trigger] held@[k]).event < events@.len(),
        decreases events.len() - i,
    {
        let event = &events[i];
        let passes = search.unicode_len() == 0 || contains_sub(
            event.summary.as_str().to_lowercase().as_str(),
            search,
        );
        if passes {
            let expanded = match expand_ical_event_occurrences(
                event,
                window_from,
                window_until,
                cap,
            ) {
                Ok(expanded) => expanded,
                Err(e) => {
                    return Err(e);
                },
            };
            let ghost found = spans(expanded@);
            let ghost target = with_spans(occurrence_models(held@), i as int, found, 0, cap as nat);
            let mut k: usize = 0;
            let mut full = false;
            while k < expanded.len() && !full
                invariant
                    k <= expanded.len(),
                    found == spans(expanded@),
                    !full ==> with_spans(occurrence_models(held@), i as int, found, k as int, cap as nat)
                        == target,
                    full ==> occurrence_models(held@) == target && held@.len() >= cap,
                    forall|j: int|
                        0 <= j < held@.len() ==> (#[trigger] held@[j]).event < events@.len(),
                decreases expanded.len() - k + if full { 0int } else { 1int },
            {
                let span = expanded[k];
                let item = Occurrence { event: i, start: span.0, end: span.1 };
                proof {
                    assert(occurrence_models(held@.push(item)) == occurrence_models(held@).push(
                        item@,
                    ));
                }
                held.push(item);
                if held.len() >= cap {
                    full = true;
                } else {
                    k += 1;
                }
            }
            if held.len() >= cap {
                return Ok(held);
            }
        }
        i += 1;
    }
    Ok(held)
}

/// Runs `data/icalJson` with `now` as the reading of the clock.
#[verifier::loop_isolation(false)]
pub fn execute_data_ical_json(fields: &JsonObject, context: &AppExecutionContext, now: Timestamp) -> (out:
    Result<AppOutput, AppExecutionError>)
    ensures
        result_model(out) == ical_json_result(fields@, context@, now),
{
    let ical = match fields.get_str("ical") {
        Some(ical) => ical,
        None => {
            return Err(AppExecutionError::MissingField("ical"));
        },
    };
    if str_is_blank(ical) {
        return Err(ical_error("No iCal data provided.".to_owned()));
    }
    if starts_with(ical, "http") {
        return Err(ical_error("Pass in iCal data as a string, not a URL.".to_owned()));
    }
    let zone: String = match parse_calendar_timezone(ical) {
        Some(zone) => zone,
        None => match &context.time_zone {
            Some(zone) => zone.clone(),
            None => "UTC".to_owned(),
        },
    };
    let zone = zone.as_str();
    let export_from = string_field(fields, "exportFrom");
    let export_until = string_field(fields, "exportUntil");
    let cap: usize = match fields.get_u64("exportCount") {
        Some(n) => if n <= usize::MAX as u64 {
            n as usize
        } else {
            usize::MAX
        },
        None => 100,
    };
    let search = string_field(fields, "search").as_str().to_lowercase();
    let window_from = match parse_ical_boundary(export_from.as_str(), zone, true, now) {
        Ok(secs) => secs,
        Err(e) => {
            return Err(e);
        },
    };
    let window_until = match parse_ical_boundary(export_until.as_str(), zone, false, now) {
        Ok(secs) => secs,
        Err(e) => {
            return Err(e);
        },
    };
    let events = match parse_ical_events(ical, zone) {
        Ok(events) => events,
        Err(e) => {
            return Err(e);
        },
    };
    let held = match gather(&events, search.as_str(), window_from, window_until, cap) {
        Ok(held) => held,
        Err(e) => {
            return Err(e);
        },
    };
    let sorted = sort_by_start(&held);
    if !zone_known(zone) {
        return Err(ical_error(quote("unknown timezone `", zone)));
    }
    let ghost all = event_models(events@);
    let ghost order = occurrence_models(sorted@);
    let ghost goal = entries_from(all, order, 0, zone@, fields@, cap as nat, Seq::empty());
    let mut rendered: Vec<JsonValue> = Vec::new();
    let mut k: usize = 0;
    while k < sorted.len() && k < cap
        invariant
            k <= sorted.len(),
            entries_from(all, order, k as int, zone@, fields@, cap as nat, items_model(rendered@))
                == goal,
        decreases sorted.len() - k,
    {
        let item = sorted[k];
        let entry = match entry_of(&events[item.event], item.start, item.end, zone, fields) {
            Ok(entry) => entry,
            Err(e) => {
                return Err(e);
            },
        };
        proof {
            assert(rendered@.push(entry).drop_last() == rendered@);
        }
        rendered.push(entry);
        k += 1;
    }
    Ok(AppOutput::Value(JsonValue::Array(rendered)))
}

} // verus!
