//! `data/clock`: the time as a text.

use vstd::prelude::*;
use crate::apps::{invalid, missing, result_model, AppExecutionContext, AppExecutionError,
    AppFault, AppOutput, ContextModel, Env, OutputModel};
use crate::calendar::{format_in_host_zone, format_in_zone, known_zone, optional_text,
    parse_rfc3339, rfc3339_instant, zone_known, zone_text, Timestamp};
use crate::ical::quoting;
use crate::json::{member_str, JsonModel, JsonObject, JsonValue};
use crate::text::{is_blank, replace, replaced, same_text, str_is_blank};

verus! {

/// The `chrono` pattern for a pattern of letters: `yyyy`, `MM`, `dd`, `HH`,
/// `mm`, `ss` and `fff` stand for year, month, day, hour, minute, second
/// and millisecond. The seven are replaced one after the other, each over
/// the whole text.
pub open spec fn chrono_pattern(pattern: Seq<char>) -> Seq<char> {
    replaced(
        replaced(
            replaced(
                replaced(
                    replaced(
                        replaced(replaced(pattern, "yyyy"@, "%Y"@), "MM"@, "%m"@),
                        "dd"@,
                        "%d"@,
                    ),
                    "HH"@,
                    "%H"@,
                ),
                "mm"@,
                "%M"@,
            ),
            "ss"@,
            "%S"@,
        ),
        "fff"@,
        "%3f"@,
    )
}

/// Turns a pattern of letters into a `chrono` pattern.
pub fn nim_time_format_to_chrono(nim_format: &str) -> (out: String)
    ensures
        out@ == chrono_pattern(nim_format@),
{
    let a = replace(nim_format, "yyyy", "%Y");
    let b = replace(a.as_str(), "MM", "%m");
    let c = replace(b.as_str(), "dd", "%d");
    let d = replace(c.as_str(), "HH", "%H");
    let e = replace(d.as_str(), "mm", "%M");
    let f = replace(e.as_str(), "ss", "%S");
    replace(f.as_str(), "fff", "%3f")
}

/// The pattern that the fields ask for: the field `format`, or the field
/// `formatCustom` where `format` says `custom`.
pub open spec fn clock_pattern(fields: Map<Seq<char>, JsonModel>) -> Result<Seq<char>, AppFault> {
    match member_str(fields, "format"@) {
        None => Err(AppFault::MissingField("format"@)),
        Some(format) => if format == "custom"@ {
            match member_str(fields, "formatCustom"@) {
                None => Err(AppFault::MissingField("formatCustom"@)),
                Some(custom) => Ok(custom),
            }
        } else {
            Ok(format)
        },
    }
}

/// The instant that the clock shows: the field `testOverrideNow` as an RFC
/// 3339 instant, or the reading of the clock.
pub open spec fn clock_instant(fields: Map<Seq<char>, JsonModel>, now: Timestamp) -> Result<
    Timestamp,
    AppFault,
> {
    match member_str(fields, "testOverrideNow"@) {
        Some(raw) => match rfc3339_instant(raw) {
            Some(instant) => Ok(instant.at),
            None => Err(
                AppFault::InvalidField {
                    field: "testOverrideNow"@,
                    reason: quoting("expected RFC3339 datetime, got `"@, raw),
                },
            ),
        },
        None => Ok(now),
    }
}

/// The output of the clock for a text that was written, or for none.
pub open spec fn clock_shown(text: Option<Seq<char>>) -> Result<OutputModel, AppFault> {
    match text {
        Some(text) => Ok(OutputModel::Value(JsonModel::Str(text))),
        None => invalid("format"@, "time cannot be shown"@),
    }
}

/// `data/clock`: an instant as a text, by a pattern of letters, on the
/// clocks of the context's zone, or on those of the host where the context
/// names no zone.
pub open spec fn clock_result(fields: Map<Seq<char>, JsonModel>, context: ContextModel, env: Env) -> Result<
    OutputModel,
    AppFault,
> {
    match clock_pattern(fields) {
        Err(fault) => Err(fault),
        Ok(pattern) => if is_blank(pattern) {
            invalid("format"@, "must not be empty"@)
        } else {
            match clock_instant(fields, env.now) {
                Err(fault) => Err(fault),
                Ok(at) => match context.time_zone {
                    Some(zone) => if !known_zone(zone) {
                        invalid("timeZone"@, quoting("unknown timezone `"@, zone))
                    } else {
                        clock_shown(
                            zone_text(zone, at.secs as int, at.nanos as int, chrono_pattern(pattern)),
                        )
                    },
                    None => clock_shown(env.host_text),
                },
            }
        },
    }
}

/// The output of `data/clock` for what was written, if anything was.
pub fn clock_output(rendered: Option<String>) -> (out: Result<AppOutput, AppExecutionError>)
    ensures
        result_model(out) == clock_shown(optional_text(rendered)),
{
    match rendered {
        Some(text) => Ok(AppOutput::Value(JsonValue::Str(text))),
        None => Err(
            AppExecutionError::InvalidField {
                field: "format",
                reason: "time cannot be shown".to_owned(),
            },
        ),
    }
}

/// Runs `data/clock` with `now` as the reading of the clock. Where the
/// context names no zone, the host is asked to write the time in its own.
pub fn execute_data_clock(fields: &JsonObject, context: &AppExecutionContext, now: Timestamp) -> (out:
    Result<AppOutput, AppExecutionError>)
    ensures
        exists|host_text: Option<Seq<char>>|
            result_model(out) == #[trigger] clock_result(fields@, context@, Env { now, host_text }),
{
    let ghost any = Env { now, host_text: None };
    let format = match fields.get_str("format") {
        Some(format) => format,
        None => {
            assert(clock_result(fields@, context@, any) == missing("format"@));
            return Err(AppExecutionError::MissingField("format"));
        },
    };
    let format = if same_text(format, "custom") {
        match fields.get_str("formatCustom") {
            Some(custom) => custom,
            None => {
                return Err(AppExecutionError::MissingField("formatCustom"));
            },
        }
    } else {
        format
    };
    if str_is_blank(format) {
        return Err(
            AppExecutionError::InvalidField { field: "format", reason: "must not be empty".to_owned() },
        );
    }
    let at: Timestamp = match fields.get_str("testOverrideNow") {
        Some(raw) => match parse_rfc3339(raw) {
            Some(instant) => instant.at,
            None => {
                let mut reason = "expected RFC3339 datetime, got `".to_owned();
                reason.append(raw);
                reason.append("`");
                let out = Err(AppExecutionError::InvalidField { field: "testOverrideNow", reason });
                return out;
            },
        },
        None => now,
    };
    let pattern = nim_time_format_to_chrono(format);
    match &context.time_zone {
        Some(zone) => {
            if !zone_known(zone.as_str()) {
                let mut reason = "unknown timezone `".to_owned();
                reason.append(zone.as_str());
                reason.append("`");
                let out = Err(AppExecutionError::InvalidField { field: "timeZone", reason });
                return out;
            }
            let out = clock_output(format_in_zone(zone.as_str(), at, pattern.as_str()));
            out
        },
        None => {
            let rendered = format_in_host_zone(at, pattern.as_str());
            let ghost env = Env { now, host_text: optional_text(rendered) };
            let out = clock_output(rendered);
            assert(result_model(out) == clock_result(fields@, context@, env));
            out
        },
    }
}

} // verus!
