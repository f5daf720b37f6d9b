//! Events as lines of JSON, and the places that such lines are written to.

use vstd::prelude::*;
use crate::json::{json_text, to_text, JsonModel, JsonObject, JsonValue};
use crate::text::texts;

verus! {

/// How a write ended: it went well, or the message says why it did not.
pub open spec fn write_outcome(out: Result<(), String>) -> Result<(), Seq<char>> {
    match out {
        Ok(_) => Ok(()),
        Err(why) => Err(why@),
    }
}

/// A place that lines of JSON are written to.
pub trait JsonLineSink: Sized {
    /// Whether writing `line` can turn this sink into `after` and end in `out`.
    /// Each kind of sink says for itself what a write does to it; of a
    /// sink that says nothing, nothing is known.
    open spec fn writes(&self, line: Seq<char>, after: &Self, out: Result<(), Seq<char>>) -> bool {
        true
    }

    /// Writes one line; the message says why where it cannot be written.
    fn write_line(&mut self, line: &str) -> (out: Result<(), String>)
        ensures
            old(self).writes(line@, final(self), write_outcome(out)),
    ;
}

/// A sink that keeps its lines in memory.
#[derive(Debug, Clone)]
pub struct MemoryJsonLineSink {
    lines: Vec<String>,
}

impl Default for MemoryJsonLineSink {
    /// A sink without lines.
    fn default() -> (out: Self)
        ensures
            out.written().len() == 0,
    {
        Self { lines: Vec::new() }
    }
}

impl MemoryJsonLineSink {
    /// The lines that were written, the oldest first.
    pub closed spec fn written(&self) -> Seq<Seq<char>> {
        texts(self.lines@)
    }

    /// A sink without lines.
    pub fn new() -> (out: Self)
        ensures
            out.written().len() == 0,
    {
        Self { lines: Vec::new() }
    }

    /// The lines that were written, the oldest first.
    pub fn lines(&self) -> (out: Vec<String>)
        ensures
            texts(out@) == self.written(),
    {
        let mut out: Vec<String> = Vec::new();
        let mut i: usize = 0;
        while i < self.lines.len()
            invariant
                i <= self.lines.len(),
                texts(out@) == texts(self.lines@).take(i as int),
            decreases self.lines.len() - i,
        {
            let line = self.lines[i].clone();
            proof {
                let all = texts(self.lines@);
                assert(all.take(i + 1) == all.take(i as int).push(all[i as int]));
            }
            out.push(line);
            i += 1;
        }
        out
    }

    /// Keeps one more line.
    pub fn push_line(&mut self, line: &str)
        ensures
            final(self).written() == old(self).written().push(line@),
    {
        let owned = line.to_owned();
        self.lines.push(owned);
    }
}

impl JsonLineSink for MemoryJsonLineSink {
    /// A write always goes well, and the line is kept behind the others.
    open spec fn writes(&self, line: Seq<char>, after: &Self, out: Result<(), Seq<char>>) -> bool {
        out is Ok && after.written() == self.written().push(line)
    }

    fn write_line(&mut self, line: &str) -> (out: Result<(), String>) {
        self.push_line(line);
        Ok(())
    }
}

/// Two sinks as one: a line goes to the first, and then to the second.
pub struct MultiJsonLineSink<A: JsonLineSink, B: JsonLineSink> {
    pub first: A,
    pub second: B,
}

impl<A: JsonLineSink, B: JsonLineSink> MultiJsonLineSink<A, B> {
    /// The two sinks as one.
    pub fn new(first: A, second: B) -> (out: Self)
        ensures
            out.first == first,
            out.second == second,
    {
        Self { first, second }
    }
}

impl<A: JsonLineSink, B: JsonLineSink> JsonLineSink for MultiJsonLineSink<A, B> {
    /// The line goes to the first sink. Where that goes well it goes to
    /// the second, whose outcome is that of the write; where it does not,
    /// the second sink is left as it is and the failure of the first is
    /// that of the write.
    open spec fn writes(&self, line: Seq<char>, after: &Self, out: Result<(), Seq<char>>) -> bool {
        ||| self.first.writes(line, &after.first, Ok(())) && self.second.writes(
            line,
            &after.second,
            out,
        )
        ||| out is Err && self.first.writes(line, &after.first, out) && after.second == self.second
    }

    fn write_line(&mut self, line: &str) -> (out: Result<(), String>) {
        match self.first.write_line(line) {
            Ok(_) => self.second.write_line(line),
            Err(why) => Err(why),
        }
    }
}

/// An event with the time at which it was logged.
pub open spec fn envelope(event: JsonModel, timestamp: JsonModel) -> JsonModel {
    JsonModel::Object(
        Map::<Seq<char>, JsonModel>::empty().insert("timestamp"@, timestamp).insert("event"@, event),
    )
}

/// Puts an event into its envelope. The time is handed in.
pub fn event_envelope(event: JsonValue, timestamp: JsonValue) -> (out: JsonValue)
    ensures
        out@ == envelope(event@, timestamp@),
{
    let mut object = JsonObject::new();
    object.insert("timestamp".to_owned(), timestamp);
    object.insert("event".to_owned(), event);
    JsonValue::Object(object)
}

/// The line that is written for an event.
pub fn event_line(event: JsonValue, timestamp: JsonValue) -> (out: String)
    ensures
        out@ == json_text(envelope(event@, timestamp@)),
{
    to_text(&event_envelope(event, timestamp))
}

/// Writes an event to a sink: one write, of the line of the event in its
/// envelope, whose outcome is handed back.
pub fn emit_event_to_sink<S: JsonLineSink>(sink: &mut S, event: JsonValue, timestamp: JsonValue) -> (out:
    Result<(), String>)
    ensures
        old(sink).writes(
            json_text(envelope(event@, timestamp@)),
            final(sink),
            write_outcome(out),
        ),
{
    let line = event_line(event, timestamp);
    sink.write_line(line.as_str())
}

/// Writes an event to a sink: one write, of the line of the event in its
/// envelope, whose outcome is handed back.
pub fn log_event_with_sink<S: JsonLineSink>(sink: &mut S, event: JsonValue, timestamp: JsonValue) -> (out:
    Result<(), String>)
    ensures
        old(sink).writes(
            json_text(envelope(event@, timestamp@)),
            final(sink),
            write_outcome(out),
        ),
{
    emit_event_to_sink(sink, event, timestamp)
}

/// The event that carries a message for those who debug.
pub fn debug_event(message: &str) -> (out: JsonValue)
    ensures
        out@ == JsonModel::Object(
            Map::<Seq<char>, JsonModel>::empty().insert("event"@, JsonModel::Str("debug"@)).insert(
                "message"@,
                JsonModel::Str(message@),
            ),
        ),
{
    let mut object = JsonObject::new();
    object.insert("event".to_owned(), JsonValue::Str("debug".to_owned()));
    object.insert("message".to_owned(), JsonValue::Str(message.to_owned()));
    JsonValue::Object(object)
}

} // verus!
