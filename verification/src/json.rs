//! JSON values as the engine sees them: a tree of plain values with a
//! mathematical model, and the three conversions to and from text.

use vstd::prelude::*;
use serde_json::Value as Raw;

verus! {

/// A JSON number. Integers are held exactly; every other number is held by
/// its literal text, since nothing here computes with fractions.
#[derive(Debug, PartialEq)]
pub enum JsonNumber {
    /// An integer in `0 ..= u64::MAX`.
    PosInt(u64),
    /// An integer below zero.
    NegInt(i64),
    /// A number with a fraction or an exponent, as JSON text writes it.
    Float(String),
}

/// One member of a JSON object.
#[derive(Debug, PartialEq)]
pub struct JsonEntry {
    pub key: String,
    pub value: JsonValue,
}

/// A JSON object: members in the order in which their keys were first set.
/// Where a key stands twice, the later member is the one that counts.
#[derive(Debug, PartialEq)]
pub struct JsonObject {
    pub entries: Vec<JsonEntry>,
}

/// A JSON value.
#[derive(Debug, PartialEq)]
pub enum JsonValue {
    Null,
    Bool(bool),
    Number(JsonNumber),
    Str(String),
    Array(Vec<JsonValue>),
    Object(JsonObject),
}

/// The mathematical model of a [`JsonNumber`].
pub ghost enum NumberModel {
    PosInt(int),
    NegInt(int),
    Float(Seq<char>),
}

/// The mathematical model of a [`JsonValue`]: an object is a finite map, so
/// the order of its members is not part of the value.
pub ghost enum JsonModel {
    Null,
    Bool(bool),
    Number(NumberModel),
    Str(Seq<char>),
    Array(Seq<JsonModel>),
    Object(Map<Seq<char>, JsonModel>),
}

impl View for JsonNumber {
    type V = NumberModel;

    open spec fn view(&self) -> NumberModel {
        match self {
            JsonNumber::PosInt(u) => NumberModel::PosInt(*u as int),
            JsonNumber::NegInt(i) => NumberModel::NegInt(*i as int),
            JsonNumber::Float(t) => NumberModel::Float(t@),
        }
    }
}

/// The map that a list of members stands for: later members win.
pub open spec fn entries_model(entries: Seq<JsonEntry>) -> Map<Seq<char>, JsonModel>
    decreases entries,
{
    if entries.len() == 0 {
        Map::empty()
    } else {
        entries_model(entries.drop_last()).insert(entries.last().key@, entries.last().value@)
    }
}

/// The models of a list of values, one for one.
pub open spec fn items_model(items: Seq<JsonValue>) -> Seq<JsonModel>
    decreases items,
{
    if items.len() == 0 {
        Seq::empty()
    } else {
        items_model(items.drop_last()).push(items.last()@)
    }
}

impl View for JsonValue {
    type V = JsonModel;

    open spec fn view(&self) -> JsonModel
        decreases self,
    {
        match self {
            JsonValue::Null => JsonModel::Null,
            JsonValue::Bool(b) => JsonModel::Bool(*b),
            JsonValue::Number(n) => JsonModel::Number(n@),
            JsonValue::Str(s) => JsonModel::Str(s@),
            JsonValue::Array(items) => JsonModel::Array(items_model(items@)),
            JsonValue::Object(object) => JsonModel::Object(entries_model(object.entries@)),
        }
    }
}

impl View for JsonObject {
    type V = Map<Seq<char>, JsonModel>;

    open spec fn view(&self) -> Map<Seq<char>, JsonModel> {
        entries_model(self.entries@)
    }
}

/// `serde_json`'s value type, carried between the conversions below.
#[verifier::external_type_specification]
#[verifier::external_body]
pub struct ExSerdeValue(serde_json::Value);

/// What `serde_json::from_str` makes of a text: the value it reads, or the
/// message of the error it reports.
pub uninterp spec fn parsed_json(text: Seq<char>) -> Result<JsonModel, Seq<char>>;

/// The JSON value that one of `serde_json`'s values holds.
pub uninterp spec fn serde_model(value: serde_json::Value) -> JsonModel;

/// The text that `serde_json` writes for one of its values, without any white space.
pub uninterp spec fn serde_text(value: serde_json::Value) -> Seq<char>;

/// What comes of writing one of `serde_json`'s values with one member or
/// item to a line, each level indented by `indent` spaces: the text, or
/// the way in which the serializer failed.
pub uninterp spec fn serde_pretty_text(value: serde_json::Value, indent: nat) -> Result<
    Seq<char>,
    PrettyFault,
>;

/// The compact text of a JSON value, as `serde_json` writes it.
pub uninterp spec fn json_text(value: JsonModel) -> Seq<char>;

/// The indented text of a JSON value, as `serde_json` writes it, or the way
/// in which its serializer fails on the value.
pub uninterp spec fn json_pretty_text(value: JsonModel, indent: nat) -> Result<
    Seq<char>,
    PrettyFault,
>;

/// What reading a text came to, as a model.
pub open spec fn parse_outcome(out: Result<JsonValue, String>) -> Result<JsonModel, Seq<char>> {
    match out {
        Ok(v) => Ok(v@),
        Err(e) => Err(e@),
    }
}

/// Calls `serde_json::from_str` for a `serde_json::Value`; an error is
/// handed back as the message that it displays.
#[verifier::external_body]
fn serde_parse(text: &str) -> (out: Result<serde_json::Value, String>)
    ensures
        match out {
            Ok(v) => parsed_json(text@) == Ok::<JsonModel, Seq<char>>(serde_model(v)),
            Err(e) => parsed_json(text@) == Err::<JsonModel, Seq<char>>(e@),
        },
{
    serde_json::from_str::<serde_json::Value>(text).map_err(|e| e.to_string())
}

/// Copies one of `serde_json`'s values, variant by variant. A number is an
/// integer where `as_u64` or `as_i64` gives one, else the text that it displays.
#[verifier::external_body]
fn from_serde(value: &serde_json::Value) -> (out: JsonValue)
    ensures
        out@ == serde_model(*value),
{
    match value {
        Raw::Null => JsonValue::Null,
        Raw::Bool(b) => JsonValue::Bool(*b),
        Raw::Number(n) => JsonValue::Number(
            n.as_u64().map(JsonNumber::PosInt).or(n.as_i64().map(JsonNumber::NegInt)).unwrap_or_else(
                || JsonNumber::Float(n.to_string()))),
        Raw::String(s) => JsonValue::Str(s.clone()),
        Raw::Array(a) => JsonValue::Array(a.iter().map(from_serde).collect()),
        Raw::Object(m) => JsonValue::Object(JsonObject {
            entries: m.iter().map(|(k, v)| JsonEntry { key: k.clone(), value: from_serde(v) }).collect(),
        }),
    }
}

/// Builds the `serde_json` value for a JSON value, variant by variant: a
/// number that is held as text is read by `serde_json`'s own number parser
/// (`null` where it is no number), and the members of an object are
/// inserted in order, so that a later member replaces an earlier one.
#[verifier::external_body]
fn to_serde(value: &JsonValue) -> (out: serde_json::Value)
    ensures
        serde_text(out) == json_text(value@),
        forall|indent: nat| #[trigger] serde_pretty_text(out, indent) == json_pretty_text(value@, indent),
{
    match value {
        JsonValue::Null => Raw::Null,
        JsonValue::Bool(b) => Raw::Bool(*b),
        JsonValue::Number(JsonNumber::PosInt(n)) => Raw::from(*n),
        JsonValue::Number(JsonNumber::NegInt(n)) => Raw::from(*n),
        JsonValue::Number(JsonNumber::Float(t)) => t.parse().map_or(Raw::Null, Raw::Number),
        JsonValue::Str(s) => Raw::String(s.clone()),
        JsonValue::Array(items) => Raw::Array(items.iter().map(to_serde).collect()),
        JsonValue::Object(o) => Raw::Object(
            o.entries.iter().map(|e| (e.key.clone(), to_serde(&e.value))).collect()),
    }
}

/// Calls `to_string` on one of `serde_json`'s values.
#[verifier::external_body]
fn serde_to_string(value: &serde_json::Value) -> (out: String)
    ensures
        out@ == serde_text(*value),
{
    value.to_string()
}

/// Why an indented text could not be had.
#[derive(Debug, Clone, PartialEq, Eq)]
pub enum PrettyFailure {
    /// The serializer reported an error.
    Render,
    /// The serializer wrote bytes that are not UTF-8; the text says which.
    Encoding(String),
}

/// The model of a [`PrettyFailure`].
pub ghost enum PrettyFault {
    Render,
    Encoding(Seq<char>),
}

/// What writing an indented text came to, as a model.
pub open spec fn pretty_outcome(out: Result<String, PrettyFailure>) -> Result<Seq<char>, PrettyFault> {
    match out {
        Ok(text) => Ok(text@),
        Err(PrettyFailure::Render) => Err(PrettyFault::Render),
        Err(PrettyFailure::Encoding(why)) => Err(PrettyFault::Encoding(why@)),
    }
}

/// Serializes one of `serde_json`'s values through a `Serializer` whose
/// `PrettyFormatter` indents by `indent` spaces, and reads the bytes as UTF-8.
#[verifier::external_body]
fn serde_to_pretty(value: &serde_json::Value, indent: usize) -> (out: Result<String, PrettyFailure>)
    requires
        indent <= isize::MAX,
    ensures
        pretty_outcome(out) == serde_pretty_text(*value, indent as nat),
{
    let spaces = vec![b' '; indent];
    let formatter = serde_json::ser::PrettyFormatter::with_indent(&spaces);
    let mut serializer = serde_json::Serializer::with_formatter(Vec::new(), formatter);
    if serde::Serialize::serialize(value, &mut serializer).is_err() {
        return Err(PrettyFailure::Render);
    }
    String::from_utf8(serializer.into_inner()).map_err(|e| PrettyFailure::Encoding(e.to_string()))
}

/// A number written with six digits behind the point, as Rust's `{:.6}`
/// writes the 64-bit float that is nearest to it; none where the number
/// is held as a text that `serde_json` does not read as a number.
pub uninterp spec fn fixed6_text(number: NumberModel) -> Option<Seq<char>>;

/// Takes the number as `serde_json` does (`Number::from` for an integer,
/// its number parser for a text), asks it for its float with `as_f64`, and
/// formats that with `{:.6}`.
#[verifier::external_body]
pub(crate) fn number_fixed6(number: &JsonNumber) -> (out: Option<String>)
    ensures
        crate::calendar::optional_text(out) == fixed6_text(number@),
{
    let read = match number {
        JsonNumber::PosInt(n) => Some(serde_json::Number::from(*n)),
        JsonNumber::NegInt(n) => Some(serde_json::Number::from(*n)),
        JsonNumber::Float(t) => t.parse::<serde_json::Number>().ok(),
    };
    read.and_then(|number| number.as_f64()).map(|float| format!("{:.6}", float))
}

/// Reads a JSON text.
pub fn parse_json(text: &str) -> (out: Result<JsonValue, String>)
    ensures
        parse_outcome(out) == parsed_json(text@),
{
    match serde_parse(text) {
        Ok(raw) => Ok(from_serde(&raw)),
        Err(e) => Err(e),
    }
}

/// Writes a JSON value without any white space.
pub fn to_text(value: &JsonValue) -> (out: String)
    ensures
        out@ == json_text(value@),
{
    let raw = to_serde(value);
    serde_to_string(&raw)
}

/// Writes a JSON value over several lines, each level indented by `indent` spaces.
pub fn to_pretty_text(value: &JsonValue, indent: usize) -> (out: Result<String, PrettyFailure>)
    requires
        indent <= isize::MAX,
    ensures
        pretty_outcome(out) == json_pretty_text(value@, indent as nat),
{
    let raw = to_serde(value);
    serde_to_pretty(&raw, indent)
}

/// The model at each place is that of the value there.
pub proof fn lemma_items_model(items: Seq<JsonValue>)
    ensures
        items_model(items).len() == items.len(),
        forall|i: int| 0 <= i < items.len() ==> #[trigger] items_model(items)[i] == items[i]@,
    decreases items.len(),
{
    if items.len() > 0 {
        lemma_items_model(items.drop_last());
        assert(items_model(items) == items_model(items.drop_last()).push(items.last()@));
    }
}

/// A key that no member has is not in the map.
pub proof fn lemma_entries_absent(entries: Seq<JsonEntry>, key: Seq<char>)
    requires
        forall|j: int| 0 <= j < entries.len() ==> (#[trigger] entries[j]).key@ != key,
    ensures
        !entries_model(entries).contains_key(key),
    decreases entries.len(),
{
    if entries.len() > 0 {
        let rest = entries.drop_last();
        lemma_entries_absent(rest, key);
        assert(entries_model(entries) == entries_model(rest).insert(
            entries.last().key@,
            entries.last().value@,
        ));
    }
}

/// The last member with a key gives the key's value in the map.
pub proof fn lemma_entries_last_wins(entries: Seq<JsonEntry>, key: Seq<char>, i: int)
    requires
        0 <= i < entries.len(),
        entries[i].key@ == key,
        forall|j: int| i < j < entries.len() ==> (#[trigger] entries[j]).key@ != key,
    ensures
        entries_model(entries).contains_key(key),
        entries_model(entries)[key] == entries[i].value@,
    decreases entries.len(),
{
    let rest = entries.drop_last();
    assert(entries_model(entries) == entries_model(rest).insert(
        entries.last().key@,
        entries.last().value@,
    ));
    if i < entries.len() - 1 {
        lemma_entries_last_wins(rest, key, i);
    }
}

/// Putting a new value at the last member with a key is setting the key in the map.
pub proof fn lemma_entries_replace(entries: Seq<JsonEntry>, i: int, entry: JsonEntry)
    requires
        0 <= i < entries.len(),
        entries[i].key@ == entry.key@,
        forall|j: int| i < j < entries.len() ==> (#[trigger] entries[j]).key@ != entry.key@,
    ensures
        entries_model(entries.update(i, entry)) == entries_model(entries).insert(
            entry.key@,
            entry.value@,
        ),
    decreases entries.len(),
{
    let rest = entries.drop_last();
    let changed = entries.update(i, entry);
    assert(entries_model(entries) == entries_model(rest).insert(
        entries.last().key@,
        entries.last().value@,
    ));
    if i == entries.len() - 1 {
        assert(changed.drop_last() == rest);
    } else {
        lemma_entries_replace(rest, i, entry);
        assert(changed.drop_last() == rest.update(i, entry));
    }
}

impl Clone for JsonNumber {
    fn clone(&self) -> (out: Self)
        ensures
            out@ == self@,
    {
        match self {
            JsonNumber::PosInt(u) => JsonNumber::PosInt(*u),
            JsonNumber::NegInt(i) => JsonNumber::NegInt(*i),
            JsonNumber::Float(t) => JsonNumber::Float(t.clone()),
        }
    }
}

impl Clone for JsonValue {
    #[verifier::loop_isolation(false)]
    fn clone(&self) -> (out: Self)
        ensures
            out@ == self@,
        decreases self,
    {
        match self {
            JsonValue::Null => JsonValue::Null,
            JsonValue::Bool(b) => JsonValue::Bool(*b),
            JsonValue::Number(n) => JsonValue::Number(n.clone()),
            JsonValue::Str(s) => JsonValue::Str(s.clone()),
            JsonValue::Array(items) => {
                let mut out: Vec<JsonValue> = Vec::new();
                let mut i: usize = 0;
                while i < items.len()
                    invariant
                        i <= items.len(),
                        out@.len() == i,
                        items_model(out@) == items_model(items@.take(i as int)),
                    decreases items.len() - i,
                {
                    let item = items[i].clone();
                    proof {
                        assert(items@.take(i + 1).drop_last() == items@.take(i as int));
                        assert(out@.push(item).drop_last() == out@);
                    }
                    out.push(item);
                    i += 1;
                }
                assert(items@.take(items.len() as int) == items@);
                JsonValue::Array(out)
            },
            JsonValue::Object(object) => {
                let entries = &object.entries;
                let mut out: Vec<JsonEntry> = Vec::new();
                let mut i: usize = 0;
                while i < entries.len()
                    invariant
                        i <= entries.len(),
                        out@.len() == i,
                        entries_model(out@) == entries_model(entries@.take(i as int)),
                    decreases entries.len() - i,
                {
                    let entry = JsonEntry {
                        key: entries[i].key.clone(),
                        value: entries[i].value.clone(),
                    };
                    proof {
                        assert(entries@.take(i + 1).drop_last() == entries@.take(i as int));
                        assert(out@.push(entry).drop_last() == out@);
                    }
                    out.push(entry);
                    i += 1;
                }
                assert(entries@.take(entries.len() as int) == entries@);
                JsonValue::Object(JsonObject { entries: out })
            },
        }
    }
}

impl Clone for JsonEntry {
    fn clone(&self) -> (out: Self)
        ensures
            out.key@ == self.key@,
            out.value@ == self.value@,
    {
        JsonEntry { key: self.key.clone(), value: self.value.clone() }
    }
}

impl Clone for JsonObject {
    fn clone(&self) -> (out: Self)
        ensures
            out@ == self@,
    {
        let mut out: Vec<JsonEntry> = Vec::new();
        let mut i: usize = 0;
        while i < self.entries.len()
            invariant
                i <= self.entries.len(),
                out@.len() == i,
                entries_model(out@) == entries_model(self.entries@.take(i as int)),
            decreases self.entries.len() - i,
        {
            let entry = self.entries[i].clone();
            proof {
                assert(self.entries@.take(i + 1).drop_last() == self.entries@.take(i as int));
                assert(out@.push(entry).drop_last() == out@);
            }
            out.push(entry);
            i += 1;
        }
        assert(self.entries@.take(self.entries.len() as int) == self.entries@);
        JsonObject { entries: out }
    }
}

/// The value of a key in an object, if the object has the key.
pub open spec fn member(object: Map<Seq<char>, JsonModel>, key: Seq<char>) -> Option<JsonModel> {
    if object.contains_key(key) {
        Some(object[key])
    } else {
        None
    }
}

/// What a reference to a value stands for, if there is one.
pub open spec fn found(value: Option<&JsonValue>) -> Option<JsonModel> {
    match value {
        Some(v) => Some(v@),
        None => None,
    }
}

/// The text of a value that is a string.
pub open spec fn model_str(value: JsonModel) -> Option<Seq<char>> {
    match value {
        JsonModel::Str(s) => Some(s),
        _ => None,
    }
}

/// The truth value of a value that is a boolean.
pub open spec fn model_bool(value: JsonModel) -> Option<bool> {
    match value {
        JsonModel::Bool(b) => Some(b),
        _ => None,
    }
}

/// The number of a value that is an integer from 0 to `u64::MAX`.
pub open spec fn model_u64(value: JsonModel) -> Option<int> {
    match value {
        JsonModel::Number(NumberModel::PosInt(n)) => Some(n),
        _ => None,
    }
}

/// The number of a value that is an integer from `i64::MIN` to `i64::MAX`.
pub open spec fn model_i64(value: JsonModel) -> Option<int> {
    match value {
        JsonModel::Number(NumberModel::PosInt(n)) => if n <= i64::MAX {
            Some(n)
        } else {
            None
        },
        JsonModel::Number(NumberModel::NegInt(n)) => Some(n),
        _ => None,
    }
}

/// The number of a value that is a number of any kind.
pub open spec fn model_number(value: JsonModel) -> Option<NumberModel> {
    match value {
        JsonModel::Number(n) => Some(n),
        _ => None,
    }
}

/// The items of a value that is an array.
pub open spec fn model_array(value: JsonModel) -> Option<Seq<JsonModel>> {
    match value {
        JsonModel::Array(items) => Some(items),
        _ => None,
    }
}

/// The text of the member `key` of `object`, if that member is a string.
pub open spec fn member_str(object: Map<Seq<char>, JsonModel>, key: Seq<char>) -> Option<Seq<char>> {
    match member(object, key) {
        Some(v) => model_str(v),
        None => None,
    }
}

/// The truth value of the member `key` of `object`, if that member is a boolean.
pub open spec fn member_bool(object: Map<Seq<char>, JsonModel>, key: Seq<char>) -> Option<bool> {
    match member(object, key) {
        Some(v) => model_bool(v),
        None => None,
    }
}

/// The member `key` of `object` as an integer from 0 to `u64::MAX`, if it is one.
pub open spec fn member_u64(object: Map<Seq<char>, JsonModel>, key: Seq<char>) -> Option<int> {
    match member(object, key) {
        Some(v) => model_u64(v),
        None => None,
    }
}

/// The member `key` of `object` as an integer from `i64::MIN` to `i64::MAX`, if it is one.
pub open spec fn member_i64(object: Map<Seq<char>, JsonModel>, key: Seq<char>) -> Option<int> {
    match member(object, key) {
        Some(v) => model_i64(v),
        None => None,
    }
}

/// The member `key` of `object` as a number, if it is one.
pub open spec fn member_number(object: Map<Seq<char>, JsonModel>, key: Seq<char>) -> Option<
    NumberModel,
> {
    match member(object, key) {
        Some(v) => model_number(v),
        None => None,
    }
}

/// The text of an optional string slice.
pub open spec fn slice_text(value: Option<&str>) -> Option<Seq<char>> {
    match value {
        Some(s) => Some(s@),
        None => None,
    }
}

impl JsonObject {
    /// An object without members.
    pub fn new() -> (out: Self)
        ensures
            out@ == Map::<Seq<char>, JsonModel>::empty(),
    {
        JsonObject { entries: Vec::new() }
    }

    /// The value of `key`, if the object has that key.
    pub fn get(&self, key: &str) -> (out: Option<&JsonValue>)
        ensures
            found(out) == member(self@, key@),
    {
        let mut i: usize = self.entries.len();
        while i > 0
            invariant
                i <= self.entries.len(),
                forall|j: int| i <= j < self.entries.len() ==> (#[trigger] self.entries@[j]).key@ != key@,
            decreases i,
        {
            i -= 1;
            if crate::text::same_text(self.entries[i].key.as_str(), key) {
                proof {
                    lemma_entries_last_wins(self.entries@, key@, i as int);
                }
                return Some(&self.entries[i].value);
            }
        }
        proof {
            lemma_entries_absent(self.entries@, key@);
        }
        None
    }

    /// Sets `key` to `value`, whether or not the object had the key.
    pub fn insert(&mut self, key: String, value: JsonValue)
        ensures
            final(self)@ == old(self)@.insert(key@, value@),
    {
        let mut i: usize = self.entries.len();
        while i > 0
            invariant
                i <= self.entries.len(),
                self.entries == old(self).entries,
                forall|j: int| i <= j < self.entries.len() ==> (#[trigger] self.entries@[j]).key@ != key@,
            decreases i,
        {
            i -= 1;
            if crate::text::same_text(self.entries[i].key.as_str(), key.as_str()) {
                let entry = JsonEntry { key, value };
                proof {
                    lemma_entries_replace(self.entries@, i as int, entry);
                }
                self.entries.set(i, entry);
                return ;
            }
        }
        let entry = JsonEntry { key, value };
        proof {
            assert(self.entries@.push(entry).drop_last() == self.entries@);
        }
        self.entries.push(entry);
    }

    /// The text of the member `key`, if that member is a string.
    pub fn get_str(&self, key: &str) -> (out: Option<&str>)
        ensures
            slice_text(out) == member_str(self@, key@),
    {
        match self.get(key) {
            Some(v) => v.as_str(),
            None => None,
        }
    }

    /// The truth value of the member `key`, if that member is a boolean.
    pub fn get_bool(&self, key: &str) -> (out: Option<bool>)
        ensures
            out == member_bool(self@, key@),
    {
        match self.get(key) {
            Some(v) => v.as_bool(),
            None => None,
        }
    }

    /// The member `key` as a `u64`, if it is an integer in that range.
    pub fn get_u64(&self, key: &str) -> (out: Option<u64>)
        ensures
            match out {
                Some(n) => member_u64(self@, key@) == Some(n as int),
                None => member_u64(self@, key@) is None,
            },
    {
        match self.get(key) {
            Some(v) => v.as_u64(),
            None => None,
        }
    }

    /// The member `key` as an `i64`, if it is an integer in that range.
    pub fn get_i64(&self, key: &str) -> (out: Option<i64>)
        ensures
            match out {
                Some(n) => member_i64(self@, key@) == Some(n as int),
                None => member_i64(self@, key@) is None,
            },
    {
        match self.get(key) {
            Some(v) => v.as_i64(),
            None => None,
        }
    }
}

impl JsonValue {
    /// The text of a string.
    pub fn as_str(&self) -> (out: Option<&str>)
        ensures
            slice_text(out) == model_str(self@),
    {
        match self {
            JsonValue::Str(s) => Some(s.as_str()),
            _ => None,
        }
    }

    /// The truth value of a boolean.
    pub fn as_bool(&self) -> (out: Option<bool>)
        ensures
            out == model_bool(self@),
    {
        match self {
            JsonValue::Bool(b) => Some(*b),
            _ => None,
        }
    }

    /// The value as a `u64`, if it is an integer in that range.
    pub fn as_u64(&self) -> (out: Option<u64>)
        ensures
            match out {
                Some(n) => model_u64(self@) == Some(n as int),
                None => model_u64(self@) is None,
            },
    {
        match self {
            JsonValue::Number(JsonNumber::PosInt(n)) => Some(*n),
            _ => None,
        }
    }

    /// The value as an `i64`, if it is an integer in that range.
    pub fn as_i64(&self) -> (out: Option<i64>)
        ensures
            match out {
                Some(n) => model_i64(self@) == Some(n as int),
                None => model_i64(self@) is None,
            },
    {
        match self {
            JsonValue::Number(JsonNumber::PosInt(n)) => if *n <= 0x7fff_ffff_ffff_ffff {
                Some(*n as i64)
            } else {
                None
            },
            JsonValue::Number(JsonNumber::NegInt(n)) => Some(*n),
            _ => None,
        }
    }

    /// The number, if the value is one.
    pub fn as_number(&self) -> (out: Option<&JsonNumber>)
        ensures
            match out {
                Some(n) => model_number(self@) == Some(n@),
                None => model_number(self@) is None,
            },
    {
        match self {
            JsonValue::Number(n) => Some(n),
            _ => None,
        }
    }

    /// The items of an array.
    pub fn as_array(&self) -> (out: Option<&Vec<JsonValue>>)
        ensures
            match out {
                Some(items) => model_array(self@) == Some(items_model(items@)),
                None => model_array(self@) is None,
            },
    {
        match self {
            JsonValue::Array(items) => Some(items),
            _ => None,
        }
    }

    /// The members of an object.
    pub fn as_object(&self) -> (out: Option<&JsonObject>)
        ensures
            match out {
                Some(object) => self@ == JsonModel::Object(object@),
                None => !(self@ is Object),
            },
    {
        match self {
            JsonValue::Object(object) => Some(object),
            _ => None,
        }
    }

    /// Whether the value is `null`.
    pub fn is_null(&self) -> (out: bool)
        ensures
            out == (self@ is Null),
    {
        match self {
            JsonValue::Null => true,
            _ => false,
        }
    }

    /// The member `key` of an object.
    pub fn get(&self, key: &str) -> (out: Option<&JsonValue>)
        ensures
            found(out) == (match self@ {
                JsonModel::Object(object) => member(object, key@),
                _ => None,
            }),
    {
        match self {
            JsonValue::Object(object) => object.get(key),
            _ => None,
        }
    }

    /// A string value that holds `text`.
    pub fn text(text: &str) -> (out: Self)
        ensures
            out@ == JsonModel::Str(text@),
    {
        JsonValue::Str(text.to_owned())
    }
}

} // verus!
