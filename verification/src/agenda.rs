//! `data/eventsToAgenda`: a list of events as a text agenda, day by day.

use vstd::prelude::*;
use crate::apps::{result_model, AppExecutionContext, AppExecutionError, AppFault, AppOutput,
    ContextModel, OutputModel};
use crate::calendar::{format_in_zone, known_zone, naive_day, naive_time, parse_naive_day,
    parse_naive_time, parse_rfc3339, rfc3339_instant, zone_known, zone_text, Timestamp};
use crate::ical::{flag, quoting};
use crate::json::{fixed6_text, items_model, lemma_items_model, member, member_number, member_str,
    model_array, number_fixed6, JsonModel, JsonObject, JsonValue};
use crate::text::{chars_of, contains_char, first_index, is_hex_digit, order_of, same_text,
    split_first, split_once, string_of, string_of_range, text_order, two_digit_text, two_digits,
    TextOrder};

verus! {

/// A failure over the value of a field.
pub open spec fn field_fault(field: Seq<char>, reason: Seq<char>) -> AppFault {
    AppFault::InvalidField { field, reason }
}

fn field_error(field: &'static str, reason: String) -> (out: AppExecutionError)
    ensures
        out@ == field_fault(field@, reason@),
{
    AppExecutionError::InvalidField { field, reason }
}

fn quote(head: &str, value: &str) -> (out: String)
    ensures
        out@ == quoting(head@, value@),
{
    let mut out = head.to_owned();
    out.append(value);
    out.append("`");
    out
}

/// A hexadecimal digit as a capital letter or a figure.
pub open spec fn hex_upper(c: char) -> char {
    if c == 'a' {
        'A'
    } else if c == 'b' {
        'B'
    } else if c == 'c' {
        'C'
    } else if c == 'd' {
        'D'
    } else if c == 'e' {
        'E'
    } else if c == 'f' {
        'F'
    } else {
        c
    }
}

/// A colour as `#RRGGBB` with capital letters: what a colour has to be
/// like, but for the case of its letters.
pub open spec fn normal_color(raw: Seq<char>) -> Option<Seq<char>> {
    if raw.len() == 7 && raw[0] == '#' && forall|i: int| 1 <= i < 7 ==> is_hex_digit(#[trigger] raw[i]) {
        Some(Seq::new(7, |i: int| hex_upper(raw[i])))
    } else {
        None
    }
}

/// What checking a colour came to, as a model.
pub open spec fn color_outcome(out: Result<String, AppExecutionError>) -> Result<Seq<char>, AppFault> {
    match out {
        Ok(text) => Ok(text@),
        Err(e) => Err(e@),
    }
}

/// The colour of a field in capital letters, or the failure over that field.
pub open spec fn color_or_fault(raw: Seq<char>, field: Seq<char>) -> Result<Seq<char>, AppFault> {
    match normal_color(raw) {
        Some(color) => Ok(color),
        None => Err(field_fault(field, "expected #RRGGBB format"@)),
    }
}

fn hex_upper_of(c: char) -> (out: char)
    ensures
        out == hex_upper(c),
{
    if c == 'a' {
        'A'
    } else if c == 'b' {
        'B'
    } else if c == 'c' {
        'C'
    } else if c == 'd' {
        'D'
    } else if c == 'e' {
        'E'
    } else if c == 'f' {
        'F'
    } else {
        c
    }
}

fn char_is_hex(c: char) -> (out: bool)
    ensures
        out == is_hex_digit(c),
{
    ('0' <= c && c <= '9') || ('a' <= c && c <= 'f') || ('A' <= c && c <= 'F')
}

/// Checks that a colour is `#RRGGBB` and writes it with capital letters.
pub fn normalize_hex_color(raw: &str, field: &'static str) -> (out: Result<String, AppExecutionError>)
    ensures
        color_outcome(out) == color_or_fault(raw@, field@),
{
    let v = chars_of(raw);
    if v.len() != 7 || v[0] != '#' {
        return Err(field_error(field, "expected #RRGGBB format".to_owned()));
    }
    let mut out: Vec<char> = Vec::new();
    out.push('#');
    let mut i: usize = 1;
    while i < 7
        invariant
            1 <= i <= 7,
            v@.len() == 7,
            v@ == raw@,
            v@[0] == '#',
            out@.len() == i,
            forall|j: int| 1 <= j < i ==> is_hex_digit(#[trigger] v@[j]),
            forall|j: int| 0 <= j < i ==> out@[j] == hex_upper(v@[j]),
        decreases 7 - i,
    {
        if !char_is_hex(v[i]) {
            return Err(field_error(field, "expected #RRGGBB format".to_owned()));
        }
        out.push(hex_upper_of(v[i]));
        i += 1;
    }
    assert(out@ =~= Seq::new(7, |i: int| hex_upper(raw@[i])));
    Ok(string_of(&out))
}

/// How many zeros stand at the end of a text.
pub open spec fn trailing_zeros(text: Seq<char>) -> nat
    decreases text.len(),
{
    if text.len() > 0 && text.last() == '0' {
        1 + trailing_zeros(text.drop_last())
    } else {
        0
    }
}

/// A number with six digits behind the point, cut back to the digits that
/// say something: the zeros at its end go, then a point at its end, and
/// where nothing is left the text is `0`.
pub open spec fn short_number(fixed: Seq<char>) -> Seq<char> {
    let kept = fixed.take(fixed.len() - trailing_zeros(fixed));
    let cut = if kept.len() > 0 && kept.last() == '.' {
        kept.drop_last()
    } else {
        kept
    };
    if cut.len() == 0 {
        "0"@
    } else {
        cut
    }
}

fn shorten_number(fixed: &str) -> (out: String)
    ensures
        out@ == short_number(fixed@),
{
    let v = chars_of(fixed);
    let mut end: usize = v.len();
    assert(v@.take(v.len() as int) == v@);
    while end > 0 && v[end - 1] == '0'
        invariant
            end <= v.len(),
            trailing_zeros(v@) == (v.len() - end) + trailing_zeros(v@.take(end as int)),
        decreases end,
    {
        proof {
            assert(v@.take(end as int).drop_last() == v@.take(end - 1));
        }
        end -= 1;
    }
    if end > 0 && v[end - 1] == '.' {
        end -= 1;
    }
    if end == 0 {
        return "0".to_owned();
    }
    string_of_range(&v, 0, end)
}

/// The size of a font as the agenda writes it: the number of the field,
/// cut back to the digits that say something, or the default where the
/// field holds no number.
pub open spec fn font_size(fields: Map<Seq<char>, JsonModel>, key: Seq<char>, default: Seq<char>) -> Seq<
    char,
> {
    match member_number(fields, key) {
        Some(number) => match fixed6_text(number) {
            Some(fixed) => short_number(fixed),
            None => default,
        },
        None => default,
    }
}

fn font_size_of(fields: &JsonObject, key: &str, default: &str) -> (out: String)
    ensures
        out@ == font_size(fields@, key@, default@),
{
    match fields.get(key) {
        Some(value) => match value.as_number() {
            Some(number) => match number_fixed6(number) {
                Some(fixed) => shorten_number(fixed.as_str()),
                None => default.to_owned(),
            },
            None => default.to_owned(),
        },
        None => default.to_owned(),
    }
}

/// The mark that sets size and colour for the text behind it.
pub open spec fn style_mark(size: Seq<char>, color: Seq<char>) -> Seq<char> {
    "^("@ + size + ","@ + color + ")"@
}

fn style_mark_of(size: &str, color: &str) -> (out: String)
    ensures
        out@ == style_mark(size@, color@),
{
    let mut out = "^(".to_owned();
    out.append(size);
    out.append(",");
    out.append(color);
    out.append(")");
    out
}

/// The colour of a field, or the default where the field is no string.
pub open spec fn color_field(fields: Map<Seq<char>, JsonModel>, key: Seq<char>, default: Seq<char>) -> Result<
    Seq<char>,
    AppFault,
> {
    color_or_fault(
        match member_str(fields, key) {
            Some(raw) => raw,
            None => default,
        },
        key,
    )
}

fn color_of(fields: &JsonObject, key: &'static str, default: &str) -> (out: Result<
    String,
    AppExecutionError,
>)
    ensures
        color_outcome(out) == color_field(fields@, key@, default@),
{
    match fields.get_str(key) {
        Some(raw) => normalize_hex_color(raw, key),
        None => normalize_hex_color(default, key),
    }
}

/// The three marks of an agenda: for the titles of days, for plain text, and for times.
pub ghost struct Marks {
    pub title: Seq<char>,
    pub normal: Seq<char>,
    pub time: Seq<char>,
}

/// The member `key` of a value that is an object, if it is a string.
pub open spec fn event_text(event: JsonModel, key: Seq<char>) -> Option<Seq<char>> {
    match event {
        JsonModel::Object(object) => member_str(object, key),
        _ => None,
    }
}

fn event_text_of<'a>(event: &'a JsonValue, key: &str) -> (out: Option<&'a str>)
    ensures
        crate::json::slice_text(out) == event_text(event@, key@),
{
    match event.get(key) {
        Some(value) => value.as_str(),
        None => None,
    }
}

/// The zone of the first of `events[from..]` that names one.
pub open spec fn first_event_zone(events: Seq<JsonModel>, from: int) -> Option<Seq<char>>
    decreases events.len() - from,
{
    if from < 0 || from >= events.len() {
        None
    } else {
        match event_text(events[from], "timezone"@) {
            Some(zone) => if zone.len() > 0 {
                Some(zone)
            } else {
                first_event_zone(events, from + 1)
            },
            None => first_event_zone(events, from + 1),
        }
    }
}

/// The zone of an agenda: that of the first event that names one, else
/// that of the context, else UTC. A zone that is not known is a failure
/// over the field that named it.
pub open spec fn agenda_zone(events: Seq<JsonModel>, context: ContextModel) -> Result<
    Seq<char>,
    AppFault,
> {
    match first_event_zone(events, 0) {
        Some(zone) => if known_zone(zone) {
            Ok(zone)
        } else {
            Err(field_fault("events.timezone"@, quoting("unknown timezone `"@, zone)))
        },
        None => {
            let zone = match context.time_zone {
                Some(zone) => zone,
                None => "UTC"@,
            };
            if known_zone(zone) {
                Ok(zone)
            } else {
                Err(field_fault("timeZone"@, quoting("unknown timezone `"@, zone)))
            }
        },
    }
}

/// Finds the zone in which the agenda's "today" is taken.
#[verifier::loop_isolation(false)]
pub fn get_timezone(events: &Vec<JsonValue>, fallback: Option<&str>) -> (out: Result<
    String,
    AppExecutionError,
>)
    ensures
        color_outcome(out) == agenda_zone(
            items_model(events@),
            ContextModel {
                state: Map::empty(),
                is_rendering: false,
                next_sleep_seconds: None,
                time_zone: crate::json::slice_text(fallback),
            },
        ),
{
    proof {
        lemma_items_model(events@);
    }
    let ghost all = items_model(events@);
    let mut i: usize = 0;
    while i < events.len()
        invariant
            i <= events.len(),
            first_event_zone(all, i as int) == first_event_zone(all, 0),
        decreases events.len() - i,
    {
        match event_text_of(&events[i], "timezone") {
            Some(zone) => {
                if zone.unicode_len() > 0 {
                    if zone_known(zone) {
                        return Ok(zone.to_owned());
                    }
                    return Err(field_error("events.timezone", quote("unknown timezone `", zone)));
                }
            },
            None => {},
        }
        i += 1;
    }
    let zone = match fallback {
        Some(zone) => zone,
        None => "UTC",
    };
    if zone_known(zone) {
        Ok(zone.to_owned())
    } else {
        Err(field_error("timeZone", quote("unknown timezone `", zone)))
    }
}

/// The day that a text names as `YYYY-MM-DD`: the naive time of its
/// midnight, or the failure over `field`.
pub open spec fn date_of(raw: Seq<char>, field: Seq<char>) -> Result<int, AppFault> {
    match naive_day(raw, "%Y-%m-%d"@) {
        Some(day) => Ok(day),
        None => Err(field_fault(field, "expected YYYY-MM-DD date, got `"@ + raw + "`"@)),
    }
}

/// Reads a day that is written as `YYYY-MM-DD`.
pub fn parse_date(raw: &str, field: &'static str) -> (out: Result<i64, AppExecutionError>)
    ensures
        crate::ical::instant_outcome(out) == date_of(raw@, field@),
{
    match parse_naive_day(raw, "%Y-%m-%d") {
        Some(day) => Ok(day),
        None => Err(field_error(field, quote("expected YYYY-MM-DD date, got `", raw))),
    }
}

/// The part of a text before its first `T`.
pub open spec fn day_part(raw: Seq<char>) -> Seq<char> {
    raw.take(first_index(raw, 'T'))
}

/// The day of a date or of a date with time, as it is written, once it
/// has been checked to be a date. A failure is one over `events.startTime`.
pub open spec fn iso_day(raw: Seq<char>) -> Result<Seq<char>, AppFault> {
    match date_of(day_part(raw), "events.startTime"@) {
        Ok(_) => Ok(day_part(raw)),
        Err(fault) => Err(fault),
    }
}

/// Takes the day from a date or a date with time.
pub fn split_iso_day(raw: &str) -> (out: Result<String, AppExecutionError>)
    ensures
        color_outcome(out) == iso_day(raw@),
{
    let v = chars_of(raw);
    assert(v@.skip(0) == v@);
    let k = crate::text::find_char(&v, 0, 'T');
    let day = string_of_range(&v, 0, k);
    match parse_date(day.as_str(), "events.startTime") {
        Ok(_) => Ok(day),
        Err(e) => Err(e),
    }
}

/// The title of a day, such as `Tuesday, December 24`.
pub open spec fn day_title(day: int) -> Option<Seq<char>> {
    zone_text("UTC"@, day, 0, "%A, %B %-d"@)
}

/// The title of the day that a text names, or the failure over `field`.
pub open spec fn title_of(raw: Seq<char>, field: Seq<char>) -> Result<Seq<char>, AppFault> {
    match date_of(raw, field) {
        Err(fault) => Err(fault),
        Ok(day) => match day_title(day) {
            Some(title) => Ok(title),
            None => Err(field_fault(field, "date cannot be shown"@)),
        },
    }
}

fn title_for(raw: &str, field: &'static str) -> (out: Result<String, AppExecutionError>)
    ensures
        color_outcome(out) == title_of(raw@, field@),
{
    let day = match parse_date(raw, field) {
        Ok(day) => day,
        Err(e) => {
            return Err(e);
        },
    };
    match format_in_zone("UTC", Timestamp { secs: day, nanos: 0 }, "%A, %B %-d") {
        Some(title) => Ok(title),
        None => Err(field_error(field, "date cannot be shown".to_owned())),
    }
}

/// Hours and minutes of a time of day that is counted in seconds, as `HH:MM`.
pub open spec fn hours_minutes(secs: int) -> Seq<char> {
    let of_day = secs % 86400;
    two_digits(of_day / 3600) + ":"@ + two_digits((of_day % 3600) / 60)
}

fn hours_minutes_of(secs: i128) -> (out: String)
    requires
        -0x1_0000_0000_0000_0000 < secs < 0x1_0000_0000_0000_0000,
    ensures
        out@ == hours_minutes(secs as int),
{
    let shifted: i128 = if secs >= 0 {
        secs % 86400
    } else {
        let r = (-secs) % 86400;
        assert((secs as int) % 86400 == (if r == 0 { 0int } else { 86400 - r })) by {
            let s = secs as int;
            let q = (-s) / 86400;
            if r == 0 {
            } else {
                vstd::arithmetic::div_mod::lemma_fundamental_div_mod_converse(
                    s,
                    86400,
                    -q - 1,
                    86400 - r,
                );
            }
        }
        if r == 0 {
            0
        } else {
            86400 - r
        }
    };
    let of_day: u64 = shifted as u64;
    let hours = two_digit_text(of_day / 3600);
    let minutes = two_digit_text((of_day % 3600) / 60);
    let mut out = hours;
    out.append(":");
    out.append(minutes.as_str());
    out
}

/// Whether every character is one of the 128 of ASCII.
pub open spec fn all_ascii(text: Seq<char>) -> bool {
    forall|i: int| 0 <= i < text.len() ==> (#[trigger] text[i] as u32) < 128
}

/// The time of day of a date with time, as `HH:MM`.
///
/// The text is read as an RFC 3339 instant (the time is then the one on
/// the clocks of its own offset), else as a date with a time to the second
/// or to the minute. Where it is none of these, the first five characters
/// behind its `T` are taken, if they are ASCII and the third is a colon.
/// A failure is one over `events.startTime`.
pub open spec fn clock_time(raw: Seq<char>) -> Result<Seq<char>, AppFault> {
    match split_first(raw, 'T') {
        None => Err(
            field_fault(
                "events.startTime"@,
                quoting("expected datetime with T separator, got `"@, raw),
            ),
        ),
        Some((_, time_part)) => if rfc3339_instant(raw) is Some {
            Ok(hours_minutes(rfc3339_instant(raw)->0.at.secs + rfc3339_instant(raw)->0.offset))
        } else if naive_time(raw, "%Y-%m-%dT%H:%M:%S"@) is Some {
            Ok(hours_minutes(naive_time(raw, "%Y-%m-%dT%H:%M:%S"@)->0))
        } else if naive_time(raw, "%Y-%m-%dT%H:%M"@) is Some {
            Ok(hours_minutes(naive_time(raw, "%Y-%m-%dT%H:%M"@)->0))
        } else if time_part.len() >= 5 && all_ascii(time_part.take(5)) && time_part[2] == ':' {
            Ok(time_part.take(5))
        } else {
            Err(field_fault("events.startTime"@, quoting("unable to parse time from `"@, raw)))
        },
    }
}

/// Takes the time of day from a date with time.
pub fn extract_hh_mm(raw: &str) -> (out: Result<String, AppExecutionError>)
    ensures
        color_outcome(out) == clock_time(raw@),
{
    let time_part = match split_once(raw, 'T') {
        Some((_, time_part)) => time_part,
        None => {
            return Err(
                field_error(
                    "events.startTime",
                    quote("expected datetime with T separator, got `", raw),
                ),
            );
        },
    };
    match parse_rfc3339(raw) {
        Some(instant) => {
            return Ok(hours_minutes_of((instant.at.secs as i128) + (instant.offset as i128)));
        },
        None => {},
    }
    match parse_naive_time(raw, "%Y-%m-%dT%H:%M:%S") {
        Some(secs) => {
            return Ok(hours_minutes_of(secs as i128));
        },
        None => {},
    }
    match parse_naive_time(raw, "%Y-%m-%dT%H:%M") {
        Some(secs) => {
            return Ok(hours_minutes_of(secs as i128));
        },
        None => {},
    }
    let v = chars_of(time_part.as_str());
    if v.len() >= 5 {
        let mut ascii = true;
        let mut i: usize = 0;
        while i < 5
            invariant
                i <= 5,
                v@.len() >= 5,
                ascii <==> forall|j: int| 0 <= j < i ==> (#[trigger] v@[j] as u32) < 128,
            decreases 5 - i,
        {
            if (v[i] as u32) >= 128 {
                ascii = false;
            }
            i += 1;
        }
        proof {
            if ascii {
            } else {
                let j = choose|j: int| 0 <= j < 5 && !((#[trigger] v@[j] as u32) < 128);
                assert(v@.take(5)[j] == v@[j]);
            }
        }
        if ascii && v[2] == ':' {
            return Ok(string_of_range(&v, 0, 5));
        }
    }
    Err(field_error("events.startTime", quote("unable to parse time from `", raw)))
}

/// The text by which an event is sorted: its start as it is written, or
/// nothing where it has none.
pub open spec fn start_key(event: JsonModel) -> Seq<char> {
    match event_text(event, "startTime"@) {
        Some(start) => start,
        None => Seq::empty(),
    }
}

fn start_key_of(event: &JsonValue) -> (out: &str)
    ensures
        out@ == start_key(event@),
{
    proof {
        reveal_strlit("");
    }
    match event_text_of(event, "startTime") {
        Some(start) => start,
        None => "",
    }
}

/// The marks that set size and colour for the three kinds of text of an
/// agenda: the titles of the days, the times, and everything else.
#[derive(Debug, PartialEq, Eq)]
pub struct AgendaMarks {
    pub title: String,
    pub normal: String,
    pub time: String,
}

impl View for AgendaMarks {
    type V = Marks;

    open spec fn view(&self) -> Marks {
        Marks { title: self.title@, normal: self.normal@, time: self.time@ }
    }
}

/// An event as the agenda writes it: its texts as they were given, the
/// days on which it starts and ends, and what was made of them. What
/// could not be made is kept as the error that is reported once the agenda
/// comes to need it.
#[derive(Debug, PartialEq, Eq)]
pub struct AgendaEntry {
    pub summary: String,
    /// Start and end as they were given.
    pub start: String,
    pub end: String,
    /// The days of start and end, as `YYYY-MM-DD`.
    pub start_day: String,
    pub end_day: String,
    /// The titles of those days, such as `Tuesday, December 24`.
    pub start_title: Result<String, AppExecutionError>,
    pub end_title: Result<String, AppExecutionError>,
    /// Hours and minutes of start and end, for an event whose start has a time.
    pub times: Result<(String, String), AppExecutionError>,
}

/// The model of an [`AgendaEntry`].
pub ghost struct EntryModel {
    pub summary: Seq<char>,
    pub start: Seq<char>,
    pub end: Seq<char>,
    pub start_day: Seq<char>,
    pub end_day: Seq<char>,
    pub start_title: Result<Seq<char>, AppFault>,
    pub end_title: Result<Seq<char>, AppFault>,
    pub times: Result<(Seq<char>, Seq<char>), AppFault>,
}

/// The model of two texts, or of the error in their place.
pub open spec fn pair_outcome(out: Result<(String, String), AppExecutionError>) -> Result<
    (Seq<char>, Seq<char>),
    AppFault,
> {
    match out {
        Ok(pair) => Ok((pair.0@, pair.1@)),
        Err(e) => Err(e@),
    }
}

impl View for AgendaEntry {
    type V = EntryModel;

    open spec fn view(&self) -> EntryModel {
        EntryModel {
            summary: self.summary@,
            start: self.start@,
            end: self.end@,
            start_day: self.start_day@,
            end_day: self.end_day@,
            start_title: color_outcome(self.start_title),
            end_title: color_outcome(self.end_title),
            times: pair_outcome(self.times),
        }
    }
}

/// One of the events of an agenda: the text by which it is sorted, and
/// the event as the agenda writes it, or the error that it is reported
/// with when the agenda comes to it.
#[derive(Debug, PartialEq, Eq)]
pub struct AgendaItem {
    pub start_key: String,
    pub entry: Result<AgendaEntry, AppExecutionError>,
}

/// The model of an [`AgendaItem`].
pub ghost struct ItemModel {
    pub start_key: Seq<char>,
    pub entry: Result<EntryModel, AppFault>,
}

impl View for AgendaItem {
    type V = ItemModel;

    open spec fn view(&self) -> ItemModel {
        ItemModel {
            start_key: self.start_key@,
            entry: match self.entry {
                Ok(entry) => Ok(entry@),
                Err(e) => Err(e@),
            },
        }
    }
}

/// The models of a list of items, one for one.
pub open spec fn item_models(items: Seq<AgendaItem>) -> Seq<ItemModel> {
    items.map_values(|item: AgendaItem| item@)
}

/// Where `item` goes into a list that is sorted by start: behind every
/// item whose start does not come later in the order of `str`.
pub open spec fn place_by_key(sorted: Seq<ItemModel>, item: ItemModel) -> int
    decreases sorted.len(),
{
    if sorted.len() > 0 && text_order(item.start_key, sorted.last().start_key)
        == TextOrder::Before {
        place_by_key(sorted.drop_last(), item)
    } else {
        sorted.len() as int
    }
}

/// The items in the order of their starts as texts; those whose starts
/// are the same keep the order in which they stand.
pub open spec fn by_start_text(items: Seq<ItemModel>) -> Seq<ItemModel>
    decreases items.len(),
{
    if items.len() == 0 {
        Seq::empty()
    } else {
        let sorted = by_start_text(items.drop_last());
        sorted.insert(place_by_key(sorted, items.last()), items.last())
    }
}

/// The items at the places that `order` lists.
pub open spec fn picked(all: Seq<ItemModel>, order: Seq<usize>) -> Seq<ItemModel> {
    Seq::new(order.len(), |k: int| all[order[k] as int])
}

/// Two texts stand to each other one way round as they do the other way round.
proof fn lemma_text_order_flips(a: Seq<char>, b: Seq<char>)
    ensures
        text_order(a, b) == TextOrder::Before <==> text_order(b, a) == TextOrder::After,
        text_order(a, b) == TextOrder::Same <==> text_order(b, a) == TextOrder::Same,
    decreases a.len(),
{
    if a.len() > 0 && b.len() > 0 && a[0] == b[0] {
        lemma_text_order_flips(a.drop_first(), b.drop_first());
    }
}

/// A text that does not come behind a second, which does not come behind
/// a third, does not come behind the third.
proof fn lemma_not_after_chains(a: Seq<char>, b: Seq<char>, c: Seq<char>)
    requires
        text_order(a, b) != TextOrder::After,
        text_order(b, c) != TextOrder::After,
    ensures
        text_order(a, c) != TextOrder::After,
    decreases a.len(),
{
    if a.len() > 0 && b.len() > 0 && c.len() > 0 && a[0] == b[0] && b[0] == c[0] {
        lemma_not_after_chains(a.drop_first(), b.drop_first(), c.drop_first());
    }
}

/// Where an item goes into a sorted list: it comes before every item
/// behind that place, and not before the one in front of it.
proof fn lemma_place_by_key(sorted: Seq<ItemModel>, item: ItemModel)
    ensures
        0 <= place_by_key(sorted, item) <= sorted.len(),
        forall|j: int|
            place_by_key(sorted, item) <= j < sorted.len() ==> text_order(
                item.start_key,
                (#[trigger] sorted[j]).start_key,
            ) == TextOrder::Before,
        place_by_key(sorted, item) > 0 ==> text_order(
            item.start_key,
            sorted[place_by_key(sorted, item) - 1].start_key,
        ) != TextOrder::Before,
    decreases sorted.len(),
{
    if sorted.len() > 0 && text_order(item.start_key, sorted.last().start_key)
        == TextOrder::Before {
        let rest = sorted.drop_last();
        lemma_place_by_key(rest, item);
        assert forall|j: int| place_by_key(sorted, item) <= j < sorted.len() implies text_order(
            item.start_key,
            (#[trigger] sorted[j]).start_key,
        ) == TextOrder::Before by {
            if j < rest.len() {
                assert(sorted[j] == rest[j]);
            }
        }
        if place_by_key(sorted, item) > 0 {
            assert(sorted[place_by_key(sorted, item) - 1] == rest[place_by_key(rest, item) - 1]);
        }
    }
}

/// No item's start comes behind the start of an item that stands behind it.
pub open spec fn ordered_by_key(items: Seq<ItemModel>) -> bool {
    forall|i: int, j: int|
        0 <= i < j < items.len() ==> text_order(items[i].start_key, items[j].start_key)
            != TextOrder::After
}

/// Sorting by start orders the items by their starts, as texts, and only
/// rearranges them: each item stands in the result as often as in what
/// was sorted.
pub proof fn law_by_start_text_orders(items: Seq<ItemModel>)
    ensures
        ordered_by_key(by_start_text(items)),
        by_start_text(items).to_multiset() == items.to_multiset(),
        by_start_text(items).len() == items.len(),
    decreases items.len(),
{
    if items.len() == 0 {
        assert(by_start_text(items) =~= items);
    } else {
        let rest = items.drop_last();
        let item = items.last();
        law_by_start_text_orders(rest);
        let sorted = by_start_text(rest);
        let p = place_by_key(sorted, item);
        lemma_place_by_key(sorted, item);
        let out = sorted.insert(p, item);
        assert(by_start_text(items) == out);
        assert forall|i: int, j: int| 0 <= i < j < out.len() implies text_order(
            out[i].start_key,
            out[j].start_key,
        ) != TextOrder::After by {
            if j < p {
                assert(out[i] == sorted[i] && out[j] == sorted[j]);
            } else if j == p {
                assert(out[i] == sorted[i]);
                lemma_text_order_flips(item.start_key, sorted[p - 1].start_key);
                if i < p - 1 {
                    lemma_not_after_chains(
                        sorted[i].start_key,
                        sorted[p - 1].start_key,
                        item.start_key,
                    );
                }
            } else if i < p {
                assert(out[i] == sorted[i] && out[j] == sorted[j - 1]);
            } else if i == p {
                assert(out[j] == sorted[j - 1]);
            } else {
                assert(out[i] == sorted[i - 1] && out[j] == sorted[j - 1]);
            }
        }
        vstd::seq_lib::to_multiset_insert(sorted, p, item);
        vstd::seq_lib::to_multiset_build(rest, item);
        assert(rest.push(item) =~= items);
    }
}

/// The places of the items in the order of their starts.
#[verifier::loop_isolation(false)]
fn sort_items(items: &Vec<AgendaItem>) -> (order: Vec<usize>)
    ensures
        picked(item_models(items@), order@) == by_start_text(item_models(items@)),
        forall|k: int| 0 <= k < order@.len() ==> (#[trigger] order@[k]) < items@.len(),
{
    let ghost all = item_models(items@);
    let mut order: Vec<usize> = Vec::new();
    let mut i: usize = 0;
    assert(picked(all, order@) =~= by_start_text(all.take(0)));
    while i < items.len()
        invariant
            i <= items.len(),
            order@.len() == i,
            forall|k: int| 0 <= k < order@.len() ==> (#[trigger] order@[k]) < i,
            picked(all, order@) == by_start_text(all.take(i as int)),
        decreases items.len() - i,
    {
        let key = items[i].start_key.as_str();
        let ghost sorted = picked(all, order@);
        let mut place: usize = order.len();
        assert(sorted.take(sorted.len() as int) == sorted);
        while place > 0 && matches!(
            order_of(key, items[order[place - 1]].start_key.as_str()),
            TextOrder::Before
        )
            invariant
                place <= order.len(),
                place_by_key(sorted, all[i as int]) == place_by_key(
                    sorted.take(place as int),
                    all[i as int],
                ),
            decreases place,
        {
            proof {
                assert(sorted.take(place as int).drop_last() == sorted.take(place - 1));
            }
            place -= 1;
        }
        proof {
            assert(all.take(i + 1).drop_last() == all.take(i as int));
            assert(all.take(i + 1).last() == all[i as int]);
        }
        let ghost before = order@;
        order.insert(place, i);
        proof {
            assert(picked(all, order@) =~= picked(all, before).insert(place as int, all[i as int]));
        }
        i += 1;
    }
    assert(all.take(items.len() as int) == all);
    order
}

/// The agenda as far as it is written.
pub ghost struct AgendaState {
    pub text: Seq<char>,
    /// The day under whose title the next event would stand, as `YYYY-MM-DD`.
    pub current_day: Seq<char>,
    /// Whether an event has been written.
    pub has_any: bool,
}

/// The title of a day and the mark for the text under it, each on a line of its own.
pub open spec fn day_heading(marks: Marks, title: Seq<char>) -> Seq<char> {
    marks.title + title + "\n"@ + marks.normal + "\n"@
}

/// Whether `a` does not come behind `b` in the order of `str`.
pub open spec fn not_after(a: Seq<char>, b: Seq<char>) -> bool {
    text_order(a, b) != TextOrder::After
}

/// The day under whose title an event stands: the day on which it starts;
/// but today, where the agenda starts with today and today lies between
/// the event's first and last day, both taken as texts.
pub open spec fn display_day(
    start_date: Seq<char>,
    end_date: Seq<char>,
    current_day: Seq<char>,
    start_with_today: bool,
) -> Seq<char> {
    if start_with_today && current_day.len() > 0 && not_after(start_date, current_day)
        && not_after(current_day, end_date) {
        current_day
    } else {
        start_date
    }
}

/// The line of one event under the title of `day`: its times where its
/// start has a time, `All day` where it starts and ends on that day, else
/// the day until which it goes on.
pub open spec fn entry_line(entry: EntryModel, day: Seq<char>, marks: Marks) -> Result<
    Seq<char>,
    AppFault,
> {
    if entry.start.contains('T') {
        match entry.times {
            Err(fault) => Err(fault),
            Ok(times) => Ok(
                marks.time + times.0 + " - "@ + times.1 + "  "@ + marks.normal + entry.summary
                    + "\n"@,
            ),
        }
    } else if entry.start == day && entry.end == day {
        Ok(marks.time + "All day  "@ + marks.normal + entry.summary + "\n"@)
    } else {
        match entry.end_title {
            Err(fault) => Err(fault),
            Ok(title) => Ok(
                marks.time + "Until "@ + title + "  "@ + marks.normal + entry.summary + "\n"@,
            ),
        }
    }
}

/// The agenda up to the title under which an event stands: a new day gets
/// an empty line and its title; and before the first such title, an agenda
/// that starts with today says that today has no events.
pub open spec fn entry_heading(
    state: AgendaState,
    entry: EntryModel,
    day: Seq<char>,
    marks: Marks,
    start_with_today: bool,
) -> Result<Seq<char>, AppFault> {
    if day == state.current_day {
        Ok(state.text)
    } else {
        match entry.start_title {
            Err(fault) => Err(fault),
            Ok(title) => Ok(
                state.text + (if !state.has_any && start_with_today {
                    "No events today\n"@
                } else {
                    Seq::empty()
                }) + "\n"@ + day_heading(marks, title),
            ),
        }
    }
}

/// The agenda after one more event was written.
pub open spec fn entry_added(
    state: AgendaState,
    entry: EntryModel,
    marks: Marks,
    start_with_today: bool,
) -> Result<AgendaState, AppFault> {
    let day = display_day(entry.start_day, entry.end_day, state.current_day, start_with_today);
    match entry_heading(state, entry, day, marks, start_with_today) {
        Err(fault) => Err(fault),
        Ok(text) => match entry_line(entry, day, marks) {
            Err(fault) => Err(fault),
            Ok(line) => Ok(AgendaState { text: text + line, current_day: day, has_any: true }),
        },
    }
}

/// The agenda after it came to one more item: the item's own error, or
/// the agenda with the event written.
pub open spec fn item_added(state: AgendaState, item: ItemModel, marks: Marks, start_with_today: bool) -> Result<
    AgendaState,
    AppFault,
> {
    match item.entry {
        Err(fault) => Err(fault),
        Ok(entry) => entry_added(state, entry, marks, start_with_today),
    }
}

/// The agenda after the items `items[k..]` were written.
pub open spec fn agenda_from(
    items: Seq<ItemModel>,
    k: int,
    state: AgendaState,
    marks: Marks,
    start_with_today: bool,
) -> Result<AgendaState, AppFault>
    decreases items.len() - k,
{
    if k < 0 || k >= items.len() {
        Ok(state)
    } else {
        match item_added(state, items[k], marks, start_with_today) {
            Err(fault) => Err(fault),
            Ok(next) => agenda_from(items, k + 1, next, marks, start_with_today),
        }
    }
}

/// The agenda of a list of items, given its marks and its today (title
/// and date): the items in the order of their starts, each under the
/// title of its day. An agenda that starts with today, and one without
/// items, begins with the title of today.
pub open spec fn items_text(
    items: Seq<ItemModel>,
    marks: Marks,
    today: (Seq<char>, Seq<char>),
    start_with_today: bool,
) -> Result<Seq<char>, AppFault> {
    let start = if start_with_today || items.len() == 0 {
        AgendaState { text: day_heading(marks, today.0), current_day: today.1, has_any: false }
    } else {
        AgendaState { text: Seq::empty(), current_day: Seq::empty(), has_any: false }
    };
    if items.len() == 0 {
        Ok(start.text + "No events found\n"@)
    } else {
        match agenda_from(by_start_text(items), 0, start, marks, start_with_today) {
            Err(fault) => Err(fault),
            Ok(state) => Ok(state.text),
        }
    }
}

/// Hours and minutes of the start and the end of an event whose start
/// has a time; of any other event nothing.
pub open spec fn event_times(start: Seq<char>, end: Seq<char>) -> Result<
    (Seq<char>, Seq<char>),
    AppFault,
> {
    if start.contains('T') {
        match clock_time(start) {
            Err(fault) => Err(fault),
            Ok(from) => match clock_time(end) {
                Err(fault) => Err(fault),
                Ok(until) => Ok((from, until)),
            },
        }
    } else {
        Ok((Seq::empty(), Seq::empty()))
    }
}

/// An event as the agenda writes it. The event has to have a start and an
/// end, both strings that begin with a day.
pub open spec fn resolved_entry(event: JsonModel) -> Result<EntryModel, AppFault> {
    let summary = match event_text(event, "summary"@) {
        Some(summary) => summary,
        None => Seq::empty(),
    };
    match event_text(event, "startTime"@) {
        None => Err(field_fault("events.startTime"@, "missing or non-string startTime"@)),
        Some(start) => match event_text(event, "endTime"@) {
            None => Err(field_fault("events.endTime"@, "missing or non-string endTime"@)),
            Some(end) => match iso_day(start) {
                Err(fault) => Err(fault),
                Ok(start_day) => match iso_day(end) {
                    Err(fault) => Err(fault),
                    Ok(end_day) => Ok(
                        EntryModel {
                            summary,
                            start,
                            end,
                            start_day,
                            end_day,
                            start_title: title_of(start_day, "events.startTime"@),
                            end_title: title_of(end_day, "events.endTime"@),
                            times: event_times(start, end),
                        },
                    ),
                },
            },
        },
    }
}

/// An event as an item of the agenda.
pub open spec fn resolved_item(event: JsonModel) -> ItemModel {
    ItemModel { start_key: start_key(event), entry: resolved_entry(event) }
}

/// The events of an agenda as its items, one for one.
pub open spec fn resolved_items(events: Seq<JsonModel>) -> Seq<ItemModel> {
    Seq::new(events.len(), |i: int| resolved_item(events[i]))
}

/// Today as the agenda shows it: its title and its date. It is the day
/// that the field `testOverrideToday` names, or else the day that the
/// clocks of `zone` show at the instant `now`.
pub open spec fn today_of(fields: Map<Seq<char>, JsonModel>, zone: Seq<char>, now: Timestamp) -> Result<
    (Seq<char>, Seq<char>),
    AppFault,
> {
    match member_str(fields, "testOverrideToday"@) {
        Some(raw) => match date_of(raw, "testOverrideToday"@) {
            Err(fault) => Err(fault),
            Ok(day) => if day_title(day) is Some && zone_text("UTC"@, day, 0, "%Y-%m-%d"@) is Some {
                Ok((day_title(day)->0, zone_text("UTC"@, day, 0, "%Y-%m-%d"@)->0))
            } else {
                Err(field_fault("testOverrideToday"@, "date cannot be shown"@))
            },
        },
        None => {
            let title = zone_text(zone, now.secs as int, now.nanos as int, "%A, %B %-d"@);
            let date = zone_text(zone, now.secs as int, now.nanos as int, "%Y-%m-%d"@);
            if title is Some && date is Some {
                Ok((title->0, date->0))
            } else {
                Err(field_fault("timeZone"@, "date cannot be shown"@))
            }
        },
    }
}

/// The events that `data/eventsToAgenda` is given: the field `events`, if it is an array.
pub open spec fn agenda_events(fields: Map<Seq<char>, JsonModel>) -> Option<Seq<JsonModel>> {
    match member(fields, "events"@) {
        Some(value) => model_array(value),
        None => None,
    }
}

/// The agenda of a list of events, given its marks and its today.
pub open spec fn agenda_text(
    events: Seq<JsonModel>,
    marks: Marks,
    today: (Seq<char>, Seq<char>),
    start_with_today: bool,
) -> Result<Seq<char>, AppFault> {
    items_text(resolved_items(events), marks, today, start_with_today)
}

/// `data/eventsToAgenda`: the events of the field `events` as a text, in
/// the order of their starts and under the titles of their days.
///
/// Colours and sizes of the three kinds of text come from the fields; a
/// colour has to be `#RRGGBB`. An agenda that starts with today, and one
/// without events, begins with the title of today.
pub open spec fn agenda_result(
    fields: Map<Seq<char>, JsonModel>,
    context: ContextModel,
    now: Timestamp,
) -> Result<OutputModel, AppFault> {
    match agenda_events(fields) {
        None => Err(AppFault::MissingField("events"@)),
        Some(events) => match color_field(fields, "textColor"@, "#FFFFFF"@) {
            Err(fault) => Err(fault),
            Ok(text_color) => match color_field(fields, "timeColor"@, "#FF0000"@) {
                Err(fault) => Err(fault),
                Ok(time_color) => match color_field(fields, "titleColor"@, "#FFFFFF"@) {
                    Err(fault) => Err(fault),
                    Ok(title_color) => {
                        let base = font_size(fields, "baseFontSize"@, "24"@);
                        let marks = Marks {
                            title: style_mark(font_size(fields, "titleFontSize"@, "48"@), title_color),
                            normal: style_mark(base, text_color),
                            time: style_mark(base, time_color),
                        };
                        match agenda_zone(events, context) {
                            Err(fault) => Err(fault),
                            Ok(zone) => match today_of(fields, zone, now) {
                                Err(fault) => Err(fault),
                                Ok(today) => match agenda_text(
                                    events,
                                    marks,
                                    today,
                                    flag(fields, "startWithToday"@),
                                ) {
                                    Err(fault) => Err(fault),
                                    Ok(text) => Ok(OutputModel::Value(JsonModel::Str(text))),
                                },
                            },
                        }
                    },
                },
            },
        },
    }
}

/// The agenda as far as it is written, as strings.
struct Progress {
    text: String,
    current_day: String,
    has_any: bool,
}

impl View for Progress {
    type V = AgendaState;

    closed spec fn view(&self) -> AgendaState {
        AgendaState { text: self.text@, current_day: self.current_day@, has_any: self.has_any }
    }
}

fn same_error(e: &AppExecutionError) -> (out: AppExecutionError)
    ensures
        out@ == e@,
{
    match e {
        AppExecutionError::UnknownKeyword(keyword) => AppExecutionError::UnknownKeyword(
            keyword.clone(),
        ),
        AppExecutionError::MissingField(field) => AppExecutionError::MissingField(field),
        AppExecutionError::InvalidField { field, reason } => AppExecutionError::InvalidField {
            field,
            reason: reason.clone(),
        },
        AppExecutionError::JsonParse(why) => AppExecutionError::JsonParse(why.clone()),
        AppExecutionError::Aborted(why) => AppExecutionError::Aborted(why.clone()),
    }
}

fn times_of(start: &str, end: &str) -> (out: Result<(String, String), AppExecutionError>)
    ensures
        pair_outcome(out) == event_times(start@, end@),
{
    if !contains_char(start, 'T') {
        return Ok((String::new(), String::new()));
    }
    let from = match extract_hh_mm(start) {
        Ok(text) => text,
        Err(e) => {
            return Err(e);
        },
    };
    match extract_hh_mm(end) {
        Ok(until) => Ok((from, until)),
        Err(e) => Err(e),
    }
}

fn resolve_entry(event: &JsonValue) -> (out: Result<AgendaEntry, AppExecutionError>)
    ensures
        match out {
            Ok(entry) => resolved_entry(event@) == Ok::<EntryModel, AppFault>(entry@),
            Err(e) => resolved_entry(event@) == Err::<EntryModel, AppFault>(e@),
        },
{
    proof {
        reveal_strlit("");
    }
    let summary = match event_text_of(event, "summary") {
        Some(summary) => summary,
        None => "",
    };
    let start = match event_text_of(event, "startTime") {
        Some(start) => start,
        None => {
            return Err(
                field_error("events.startTime", "missing or non-string startTime".to_owned()),
            );
        },
    };
    let end = match event_text_of(event, "endTime") {
        Some(end) => end,
        None => {
            return Err(field_error("events.endTime", "missing or non-string endTime".to_owned()));
        },
    };
    let start_day = match split_iso_day(start) {
        Ok(day) => day,
        Err(e) => {
            return Err(e);
        },
    };
    let end_day = match split_iso_day(end) {
        Ok(day) => day,
        Err(e) => {
            return Err(e);
        },
    };
    let start_title = title_for(start_day.as_str(), "events.startTime");
    let end_title = title_for(end_day.as_str(), "events.endTime");
    let times = times_of(start, end);
    let entry = AgendaEntry {
        summary: summary.to_owned(),
        start: start.to_owned(),
        end: end.to_owned(),
        start_day,
        end_day,
        start_title,
        end_title,
        times,
    };
    proof {
        let model = resolved_entry(event@)->Ok_0;
        assert(resolved_entry(event@) is Ok);
        assert(entry@.summary == model.summary);
        assert(entry@.start == model.start);
        assert(entry@.end == model.end);
        assert(entry@.start_day == model.start_day);
        assert(entry@.end_day == model.end_day);
        assert(entry@.start_title == model.start_title);
        assert(entry@.end_title == model.end_title);
        assert(entry@.times == model.times);
    }
    Ok(entry)
}

/// Makes of the events of an agenda its items: for each event what the
/// agenda writes of it, with the titles of its days and its times of day.
pub fn resolve_events(events: &Vec<JsonValue>) -> (out: Vec<AgendaItem>)
    ensures
        item_models(out@) == resolved_items(items_model(events@)),
{
    proof {
        lemma_items_model(events@);
    }
    let mut out: Vec<AgendaItem> = Vec::new();
    let mut i: usize = 0;
    while i < events.len()
        invariant
            i <= events.len(),
            out@.len() == i,
            forall|j: int| 0 <= j < i ==> (#[trigger] out@[j])@ == resolved_item(events@[j]@),
        decreases events.len() - i,
    {
        let event = &events[i];
        let item = AgendaItem {
            start_key: start_key_of(event).to_owned(),
            entry: resolve_entry(event),
        };
        out.push(item);
        i += 1;
    }
    assert(item_models(out@) =~= resolved_items(items_model(events@)));
    out
}

fn line_of(entry: &AgendaEntry, day: &str, marks: &AgendaMarks) -> (out: Result<
    String,
    AppExecutionError,
>)
    ensures
        color_outcome(out) == entry_line(entry@, day@, marks@),
{
    let mut line = marks.time.clone();
    if contains_char(entry.start.as_str(), 'T') {
        match &entry.times {
            Ok(times) => {
                line.append(times.0.as_str());
                line.append(" - ");
                line.append(times.1.as_str());
            },
            Err(e) => {
                return Err(same_error(e));
            },
        }
    } else if same_text(entry.start.as_str(), day) && same_text(entry.end.as_str(), day) {
        line.append("All day");
        proof {
            reveal_strlit("All day  ");
            reveal_strlit("All day");
            reveal_strlit("  ");
            assert(marks@.time + "All day  "@ =~= marks@.time + "All day"@ + "  "@);
        }
    } else {
        match &entry.end_title {
            Ok(title) => {
                line.append("Until ");
                line.append(title.as_str());
            },
            Err(e) => {
                return Err(same_error(e));
            },
        }
    }
    line.append("  ");
    line.append(marks.normal.as_str());
    line.append(entry.summary.as_str());
    line.append("\n");
    Ok(line)
}

fn add_entry(progress: Progress, entry: &AgendaEntry, marks: &AgendaMarks, start_with_today: bool) -> (out:
    Result<Progress, AppExecutionError>)
    ensures
        match out {
            Ok(next) => entry_added(progress@, entry@, marks@, start_with_today) == Ok::<
                AgendaState,
                AppFault,
            >(next@),
            Err(e) => entry_added(progress@, entry@, marks@, start_with_today) == Err::<
                AgendaState,
                AppFault,
            >(e@),
        },
{
    let mut progress = progress;
    let today_within = start_with_today && progress.current_day.as_str().unicode_len() > 0
        && !matches!(
        order_of(entry.start_day.as_str(), progress.current_day.as_str()),
        TextOrder::After
    ) && !matches!(
        order_of(progress.current_day.as_str(), entry.end_day.as_str()),
        TextOrder::After
    );
    let day: String = if today_within {
        progress.current_day.clone()
    } else {
        entry.start_day.clone()
    };
    if !same_text(day.as_str(), progress.current_day.as_str()) {
        let title = match &entry.start_title {
            Ok(title) => title,
            Err(e) => {
                return Err(same_error(e));
            },
        };
        if !progress.has_any && start_with_today {
            progress.text.append("No events today\n");
        }
        progress.text.append("\n");
        let ghost before = progress.text@;
        progress.text.append(marks.title.as_str());
        progress.text.append(title.as_str());
        progress.text.append("\n");
        progress.text.append(marks.normal.as_str());
        progress.text.append("\n");
        assert(progress.text@ =~= before + day_heading(marks@, title@));
    }
    let line = match line_of(entry, day.as_str(), marks) {
        Ok(line) => line,
        Err(e) => {
            return Err(e);
        },
    };
    progress.text.append(line.as_str());
    progress.current_day = day;
    progress.has_any = true;
    Ok(progress)
}

/// Writes the agenda of a list of items: the items in the order of their
/// starts, each under the title of its day. `today_title` and `today`
/// are the title and the date of today.
#[verifier::loop_isolation(false)]
pub fn agenda_of_items(
    items: &Vec<AgendaItem>,
    marks: &AgendaMarks,
    today_title: &str,
    today: &str,
    start_with_today: bool,
) -> (out: Result<String, AppExecutionError>)
    ensures
        color_outcome(out) == items_text(
            item_models(items@),
            marks@,
            (today_title@, today@),
            start_with_today,
        ),
{
    let ghost all = item_models(items@);
    let mut progress = Progress { text: String::new(), current_day: String::new(), has_any: false };
    if start_with_today || items.len() == 0 {
        progress.text.append(marks.title.as_str());
        progress.text.append(today_title);
        progress.text.append("\n");
        progress.text.append(marks.normal.as_str());
        progress.text.append("\n");
        progress.current_day = today.to_owned();
    }
    if items.len() == 0 {
        progress.text.append("No events found\n");
        return Ok(progress.text);
    }
    let order = sort_items(items);
    let ghost sorted = by_start_text(all);
    let ghost goal = agenda_from(sorted, 0, progress@, marks@, start_with_today);
    let mut k: usize = 0;
    while k < order.len()
        invariant
            k <= order.len(),
            sorted == picked(all, order@),
            agenda_from(sorted, k as int, progress@, marks@, start_with_today) == goal,
        decreases order.len() - k,
    {
        let item = &items[order[k]];
        assert(sorted[k as int] == item@);
        progress = match &item.entry {
            Err(e) => {
                return Err(same_error(e));
            },
            Ok(entry) => match add_entry(progress, entry, marks, start_with_today) {
                Ok(next) => next,
                Err(e) => {
                    return Err(e);
                },
            },
        };
        k += 1;
    }
    Ok(progress.text)
}

fn today_for(fields: &JsonObject, zone: &str, now: Timestamp) -> (out: Result<
    (String, String),
    AppExecutionError,
>)
    ensures
        match out {
            Ok(today) => today_of(fields@, zone@, now) == Ok::<(Seq<char>, Seq<char>), AppFault>(
                (today.0@, today.1@),
            ),
            Err(e) => today_of(fields@, zone@, now) == Err::<(Seq<char>, Seq<char>), AppFault>(e@),
        },
{
    match fields.get_str("testOverrideToday") {
        Some(raw) => {
            let day = match parse_date(raw, "testOverrideToday") {
                Ok(day) => day,
                Err(e) => {
                    return Err(e);
                },
            };
            let at = Timestamp { secs: day, nanos: 0 };
            match (format_in_zone("UTC", at, "%A, %B %-d"), format_in_zone("UTC", at, "%Y-%m-%d")) {
                (Some(title), Some(date)) => Ok((title, date)),
                _ => Err(field_error("testOverrideToday", "date cannot be shown".to_owned())),
            }
        },
        None => match (
            format_in_zone(zone, now, "%A, %B %-d"),
            format_in_zone(zone, now, "%Y-%m-%d"),
        ) {
            (Some(title), Some(date)) => Ok((title, date)),
            _ => Err(field_error("timeZone", "date cannot be shown".to_owned())),
        },
    }
}

/// Runs `data/eventsToAgenda` with `now` as the reading of the clock.
pub fn execute_data_events_to_agenda(
    fields: &JsonObject,
    context: &AppExecutionContext,
    now: Timestamp,
) -> (out: Result<AppOutput, AppExecutionError>)
    ensures
        result_model(out) == agenda_result(fields@, context@, now),
{
    let events = match fields.get("events") {
        Some(value) => match value.as_array() {
            Some(events) => events,
            None => {
                return Err(AppExecutionError::MissingField("events"));
            },
        },
        None => {
            return Err(AppExecutionError::MissingField("events"));
        },
    };
    let base_size = font_size_of(fields, "baseFontSize", "24");
    let title_size = font_size_of(fields, "titleFontSize", "48");
    let text_color = match color_of(fields, "textColor", "#FFFFFF") {
        Ok(color) => color,
        Err(e) => {
            return Err(e);
        },
    };
    let time_color = match color_of(fields, "timeColor", "#FF0000") {
        Ok(color) => color,
        Err(e) => {
            return Err(e);
        },
    };
    let title_color = match color_of(fields, "titleColor", "#FFFFFF") {
        Ok(color) => color,
        Err(e) => {
            return Err(e);
        },
    };
    let start_with_today = match fields.get_bool("startWithToday") {
        Some(value) => value,
        None => false,
    };
    let marks = AgendaMarks {
        title: style_mark_of(title_size.as_str(), title_color.as_str()),
        normal: style_mark_of(base_size.as_str(), text_color.as_str()),
        time: style_mark_of(base_size.as_str(), time_color.as_str()),
    };
    let fallback: Option<&str> = match &context.time_zone {
        Some(zone) => Some(zone.as_str()),
        None => None,
    };
    let zone = match get_timezone(events, fallback) {
        Ok(zone) => zone,
        Err(e) => {
            return Err(e);
        },
    };
    let today = match today_for(fields, zone.as_str(), now) {
        Ok(today) => today,
        Err(e) => {
            return Err(e);
        },
    };
    let items = resolve_events(events);
    match agenda_of_items(&items, &marks, today.0.as_str(), today.1.as_str(), start_with_today) {
        Ok(text) => Ok(AppOutput::Value(JsonValue::Str(text))),
        Err(e) => Err(e),
    }
}

} // verus!
