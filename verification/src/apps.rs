//! The operations that a scene is made of. Each is addressed by a keyword,
//! reads its settings from a JSON object, may change the context of the
//! run, and returns one output.

use vstd::prelude::*;
use crate::json::{json_pretty_text, json_text, member, member_bool, member_i64, member_number,
    member_str, member_u64, parse_json, parsed_json, to_pretty_text, to_text, JsonModel,
    JsonNumber, JsonObject, JsonValue, NumberModel, PrettyFailure, PrettyFault};
use crate::models::AppDescriptor;
use crate::text::{chars_of, same_text};

verus! {

/// What a run carries from one operation to the next.
#[derive(Debug, PartialEq)]
pub struct AppExecutionContext {
    /// Values that outlive the run.
    pub state: JsonObject,
    /// Whether the display is in the middle of a refresh.
    pub is_rendering: bool,
    /// How long the runtime is asked to sleep before the next run, in
    /// seconds: a number that is not below zero.
    pub next_sleep_seconds: Option<JsonNumber>,
    /// The IANA name of the zone in which dates and times are shown.
    pub time_zone: Option<String>,
}

/// What an operation hands back.
#[derive(Debug, PartialEq)]
pub enum AppOutput {
    Value(JsonValue),
    /// The id of the node to go on with; 0 stands for no jump.
    BranchNode(u64),
    Empty,
}

/// Why an operation failed.
#[derive(Debug, Clone, PartialEq, Eq)]
pub enum AppExecutionError {
    UnknownKeyword(String),
    MissingField(&'static str),
    InvalidField { field: &'static str, reason: String },
    JsonParse(String),
    Aborted(String),
}

/// The model of an [`AppExecutionContext`].
pub ghost struct ContextModel {
    pub state: Map<Seq<char>, JsonModel>,
    pub is_rendering: bool,
    pub next_sleep_seconds: Option<NumberModel>,
    pub time_zone: Option<Seq<char>>,
}

/// The model of an [`AppOutput`].
pub ghost enum OutputModel {
    Value(JsonModel),
    BranchNode(int),
    Empty,
}

/// The model of an [`AppExecutionError`].
pub ghost enum AppFault {
    UnknownKeyword(Seq<char>),
    MissingField(Seq<char>),
    InvalidField { field: Seq<char>, reason: Seq<char> },
    JsonParse(Seq<char>),
    Aborted(Seq<char>),
}

/// What one operation came to: its result, and the context that it left.
pub ghost struct AppOutcome {
    pub result: Result<OutputModel, AppFault>,
    pub context: ContextModel,
}

impl View for AppExecutionContext {
    type V = ContextModel;

    open spec fn view(&self) -> ContextModel {
        ContextModel {
            state: self.state@,
            is_rendering: self.is_rendering,
            next_sleep_seconds: match self.next_sleep_seconds {
                Some(n) => Some(n@),
                None => None,
            },
            time_zone: match self.time_zone {
                Some(z) => Some(z@),
                None => None,
            },
        }
    }
}

impl View for AppOutput {
    type V = OutputModel;

    open spec fn view(&self) -> OutputModel {
        match self {
            AppOutput::Value(v) => OutputModel::Value(v@),
            AppOutput::BranchNode(id) => OutputModel::BranchNode(*id as int),
            AppOutput::Empty => OutputModel::Empty,
        }
    }
}

impl View for AppExecutionError {
    type V = AppFault;

    open spec fn view(&self) -> AppFault {
        match self {
            AppExecutionError::UnknownKeyword(keyword) => AppFault::UnknownKeyword(keyword@),
            AppExecutionError::MissingField(field) => AppFault::MissingField(field@),
            AppExecutionError::InvalidField { field, reason } => AppFault::InvalidField {
                field: field@,
                reason: reason@,
            },
            AppExecutionError::JsonParse(why) => AppFault::JsonParse(why@),
            AppExecutionError::Aborted(why) => AppFault::Aborted(why@),
        }
    }
}

impl Default for AppExecutionContext {
    fn default() -> (out: Self)
        ensures
            out@ == (ContextModel {
                state: Map::empty(),
                is_rendering: false,
                next_sleep_seconds: None,
                time_zone: None,
            }),
    {
        AppExecutionContext {
            state: JsonObject::new(),
            is_rendering: false,
            next_sleep_seconds: None,
            time_zone: None,
        }
    }
}

impl Clone for AppExecutionContext {
    fn clone(&self) -> (out: Self)
        ensures
            out@ == self@,
    {
        AppExecutionContext {
            state: self.state.clone(),
            is_rendering: self.is_rendering,
            next_sleep_seconds: match &self.next_sleep_seconds {
                Some(n) => Some(n.clone()),
                None => None,
            },
            time_zone: match &self.time_zone {
                Some(z) => Some(z.clone()),
                None => None,
            },
        }
    }
}

impl Clone for AppOutput {
    fn clone(&self) -> (out: Self)
        ensures
            out@ == self@,
    {
        match self {
            AppOutput::Value(v) => AppOutput::Value(v.clone()),
            AppOutput::BranchNode(id) => AppOutput::BranchNode(*id),
            AppOutput::Empty => AppOutput::Empty,
        }
    }
}

impl AppExecutionError {
    /// The sentence that [`AppExecutionError::message`] writes.
    pub open spec fn message_text(fault: AppFault) -> Seq<char> {
        match fault {
            AppFault::UnknownKeyword(keyword) => "unknown app keyword: "@ + keyword,
            AppFault::MissingField(field) => "missing required app field: "@ + field,
            AppFault::InvalidField { field, reason } => "invalid app field `"@ + field + "`: "@
                + reason,
            AppFault::JsonParse(why) => "failed to parse json: "@ + why,
            AppFault::Aborted(why) => "app execution aborted: "@ + why,
        }
    }

    /// The error as a sentence.
    pub fn message(&self) -> (out: String)
        ensures
            out@ == Self::message_text(self@),
    {
        match self {
            AppExecutionError::UnknownKeyword(keyword) => {
                let mut out = "unknown app keyword: ".to_owned();
                out.append(keyword.as_str());
                out
            },
            AppExecutionError::MissingField(field) => {
                let mut out = "missing required app field: ".to_owned();
                out.append(field);
                out
            },
            AppExecutionError::InvalidField { field, reason } => {
                let mut out = "invalid app field `".to_owned();
                out.append(field);
                out.append("`: ");
                out.append(reason.as_str());
                out
            },
            AppExecutionError::JsonParse(why) => {
                let mut out = "failed to parse json: ".to_owned();
                out.append(why.as_str());
                out
            },
            AppExecutionError::Aborted(why) => {
                let mut out = "app execution aborted: ".to_owned();
                out.append(why.as_str());
                out
            },
        }
    }
}

/// The apps that are known to the runtime, in the order of their manifest.
#[derive(Debug)]
pub struct AppRegistry {
    apps: Vec<AppDescriptor>,
}

impl Default for AppRegistry {
    /// A registry without apps.
    fn default() -> (out: Self)
        ensures
            out.entries() == Seq::<AppDescriptor>::empty(),
    {
        Self { apps: Vec::new() }
    }
}

impl AppRegistry {
    /// The descriptors that the registry holds.
    pub closed spec fn entries(&self) -> Seq<AppDescriptor> {
        self.apps@
    }

    /// A registry of these apps.
    pub fn with_apps(apps: Vec<AppDescriptor>) -> (out: Self)
        ensures
            out.entries() == apps@,
    {
        Self { apps }
    }

    /// The apps of the registry.
    pub fn apps(&self) -> (out: &[AppDescriptor])
        ensures
            out@ == self.entries(),
    {
        self.apps.as_slice()
    }
}

/// What an operation's result stands for.
pub open spec fn result_model(out: Result<AppOutput, AppExecutionError>) -> Result<
    OutputModel,
    AppFault,
> {
    match out {
        Ok(output) => Ok(output@),
        Err(e) => Err(e@),
    }
}

/// An outcome that leaves the context as it was.
pub open spec fn pure_outcome(result: Result<OutputModel, AppFault>, context: ContextModel) -> AppOutcome {
    AppOutcome { result, context }
}

/// A failure for want of a field.
pub open spec fn missing(field: Seq<char>) -> Result<OutputModel, AppFault> {
    Err(AppFault::MissingField(field))
}

/// A failure over the value of a field.
pub open spec fn invalid(field: Seq<char>, reason: Seq<char>) -> Result<OutputModel, AppFault> {
    Err(AppFault::InvalidField { field, reason })
}

fn invalid_field<T>(field: &'static str, reason: &str) -> (out: Result<T, AppExecutionError>)
    ensures
        out is Err,
        out->Err_0@ == (AppFault::InvalidField { field: field@, reason: reason@ }),
{
    Err(AppExecutionError::InvalidField { field, reason: reason.to_owned() })
}

/// `data/parseJson`: reads the JSON text in the field `text`.
pub open spec fn parse_json_result(fields: Map<Seq<char>, JsonModel>) -> Result<OutputModel, AppFault> {
    match member_str(fields, "text"@) {
        None => missing("text"@),
        Some(text) => match parsed_json(text) {
            Ok(value) => Ok(OutputModel::Value(value)),
            Err(why) => Err(AppFault::JsonParse(why)),
        },
    }
}

pub fn execute_data_parse_json(fields: &JsonObject) -> (out: Result<AppOutput, AppExecutionError>)
    ensures
        result_model(out) == parse_json_result(fields@),
{
    let text = match fields.get_str("text") {
        Some(text) => text,
        None => {
            return Err(AppExecutionError::MissingField("text"));
        },
    };
    match parse_json(text) {
        Ok(value) => Ok(AppOutput::Value(value)),
        Err(why) => Err(AppExecutionError::JsonParse(why)),
    }
}

/// The width of the indent that `data/prettyJson` is asked for: the field
/// `ident`, or 2 where it is no integer.
pub open spec fn pretty_indent(fields: Map<Seq<char>, JsonModel>) -> int {
    match member_i64(fields, "ident"@) {
        Some(n) => n,
        None => 2,
    }
}

/// The failure that an indented text that could not be written stands for.
pub open spec fn pretty_fault(fault: PrettyFault) -> AppFault {
    match fault {
        PrettyFault::Render => AppFault::InvalidField {
            field: "json"@,
            reason: "value cannot be rendered as json"@,
        },
        PrettyFault::Encoding(why) => AppFault::InvalidField {
            field: "json"@,
            reason: "encoded json is not utf-8: "@ + why,
        },
    }
}

/// `data/prettyJson`: writes the field `json` as text; over several lines
/// and indented where the field `prettify` is true, else without white
/// space. An indent below zero is turned down, and so is one that no
/// allocation on this machine could hold.
pub open spec fn pretty_json_result(fields: Map<Seq<char>, JsonModel>) -> Result<OutputModel, AppFault> {
    match member(fields, "json"@) {
        None => missing("json"@),
        Some(value) => if member_bool(fields, "prettify"@) == Some(true) {
            let indent = pretty_indent(fields);
            if indent < 0 {
                invalid("ident"@, "must be >= 0"@)
            } else if indent > isize::MAX {
                invalid("ident"@, "must fit in memory"@)
            } else {
                match json_pretty_text(value, indent as nat) {
                    Ok(text) => Ok(OutputModel::Value(JsonModel::Str(text))),
                    Err(fault) => Err(pretty_fault(fault)),
                }
            }
        } else {
            Ok(OutputModel::Value(JsonModel::Str(json_text(value))))
        },
    }
}

/// The output of `data/prettyJson` for what the serializer returned.
pub fn pretty_json_output(rendered: Result<String, PrettyFailure>) -> (out: Result<
    AppOutput,
    AppExecutionError,
>)
    ensures
        result_model(out) == (match crate::json::pretty_outcome(rendered) {
            Ok(text) => Ok::<OutputModel, AppFault>(OutputModel::Value(JsonModel::Str(text))),
            Err(fault) => Err::<OutputModel, AppFault>(pretty_fault(fault)),
        }),
{
    match rendered {
        Ok(text) => Ok(AppOutput::Value(JsonValue::Str(text))),
        Err(PrettyFailure::Render) => invalid_field("json", "value cannot be rendered as json"),
        Err(PrettyFailure::Encoding(why)) => {
            let mut reason = "encoded json is not utf-8: ".to_owned();
            reason.append(why.as_str());
            Err(AppExecutionError::InvalidField { field: "json", reason })
        },
    }
}

pub fn execute_data_pretty_json(fields: &JsonObject) -> (out: Result<AppOutput, AppExecutionError>)
    ensures
        result_model(out) == pretty_json_result(fields@),
{
    let value = match fields.get("json") {
        Some(value) => value,
        None => {
            return Err(AppExecutionError::MissingField("json"));
        },
    };
    let prettify = match fields.get_bool("prettify") {
        Some(flag) => flag,
        None => false,
    };
    if prettify {
        let indent: i64 = match fields.get_i64("ident") {
            Some(n) => n,
            None => 2,
        };
        if indent < 0 {
            return invalid_field("ident", "must be >= 0");
        }
        if indent as u64 > isize::MAX as u64 {
            return invalid_field("ident", "must fit in memory");
        }
        pretty_json_output(to_pretty_text(value, indent as usize))
    } else {
        Ok(AppOutput::Value(JsonValue::Str(to_text(value))))
    }
}

/// The value that `logic/setAsState` is asked to store as JSON: the field
/// `valueJson`, unless it is `null`.
pub open spec fn state_json_value(fields: Map<Seq<char>, JsonModel>) -> Option<JsonModel> {
    match member(fields, "valueJson"@) {
        Some(value) => if value is Null {
            None
        } else {
            Some(value)
        },
        None => None,
    }
}

/// `logic/setAsState`: stores one value in the state under the key that
/// the field `stateKey` names. The value is the string `valueString` or the
/// JSON `valueJson`: with both, the operation fails; with neither, nothing
/// is stored.
pub open spec fn set_as_state_outcome(fields: Map<Seq<char>, JsonModel>, context: ContextModel) -> AppOutcome {
    match member_str(fields, "stateKey"@) {
        None => pure_outcome(missing("stateKey"@), context),
        Some(key) => {
            let as_text = member_str(fields, "valueString"@);
            let as_json = state_json_value(fields);
            if as_text is Some && as_json is Some {
                pure_outcome(
                    invalid(
                        "valueString/valueJson"@,
                        "only one of valueString or valueJson can be set"@,
                    ),
                    context,
                )
            } else {
                let state = match (as_json, as_text) {
                    (Some(value), _) => context.state.insert(key, value),
                    (None, Some(text)) => context.state.insert(key, JsonModel::Str(text)),
                    (None, None) => context.state,
                };
                AppOutcome {
                    result: Ok(OutputModel::Empty),
                    context: ContextModel { state, ..context },
                }
            }
        },
    }
}

pub fn execute_logic_set_as_state(fields: &JsonObject, context: &mut AppExecutionContext) -> (out:
    Result<AppOutput, AppExecutionError>)
    ensures
        (AppOutcome { result: result_model(out), context: final(context)@ })
            == set_as_state_outcome(fields@, old(context)@),
{
    let state_key = match fields.get_str("stateKey") {
        Some(key) => key,
        None => {
            return Err(AppExecutionError::MissingField("stateKey"));
        },
    };
    let value_string = fields.get_str("valueString");
    let value_json: Option<&JsonValue> = match fields.get("valueJson") {
        Some(value) => if value.is_null() {
            None
        } else {
            Some(value)
        },
        None => None,
    };
    if value_string.is_some() && value_json.is_some() {
        return invalid_field(
            "valueString/valueJson",
            "only one of valueString or valueJson can be set",
        );
    }
    match value_json {
        Some(value) => {
            context.state.insert(state_key.to_owned(), value.clone());
        },
        None => match value_string {
            Some(text) => {
                context.state.insert(state_key.to_owned(), JsonValue::Str(text.to_owned()));
            },
            None => {},
        },
    }
    Ok(AppOutput::Empty)
}

/// `logic/ifElse`: reads the boolean field `condition` and names the node
/// of the branch that it selects, `thenNode` or `elseNode`. Where that
/// field is no integer from 0 to `u64::MAX`, or is 0, there is no jump.
pub open spec fn if_else_result(fields: Map<Seq<char>, JsonModel>) -> Result<OutputModel, AppFault> {
    match member_bool(fields, "condition"@) {
        None => missing("condition"@),
        Some(condition) => {
            let target = if condition {
                member_u64(fields, "thenNode"@)
            } else {
                member_u64(fields, "elseNode"@)
            };
            match target {
                Some(id) => if id == 0 {
                    Ok(OutputModel::Empty)
                } else {
                    Ok(OutputModel::BranchNode(id))
                },
                None => Ok(OutputModel::Empty),
            }
        },
    }
}

pub fn execute_logic_if_else(fields: &JsonObject) -> (out: Result<AppOutput, AppExecutionError>)
    ensures
        result_model(out) == if_else_result(fields@),
{
    let condition = match fields.get_bool("condition") {
        Some(flag) => flag,
        None => {
            return Err(AppExecutionError::MissingField("condition"));
        },
    };
    let target = if condition {
        fields.get_u64("thenNode")
    } else {
        fields.get_u64("elseNode")
    };
    match target {
        Some(node_id) => if node_id == 0 {
            Ok(AppOutput::Empty)
        } else {
            Ok(AppOutput::BranchNode(node_id))
        },
        None => Ok(AppOutput::Empty),
    }
}

/// Where the digits of a number's text end and its exponent begins.
pub open spec fn mantissa_end(text: Seq<char>) -> int
    decreases text.len(),
{
    if text.len() == 0 || text[0] == 'e' || text[0] == 'E' {
        0
    } else {
        1 + mantissa_end(text.drop_first())
    }
}

/// Whether the text of a number names a number below zero: it begins with
/// a minus sign, and a digit other than 0 stands before its exponent.
pub open spec fn text_below_zero(text: Seq<char>) -> bool {
    &&& text.len() > 0
    &&& text[0] == '-'
    &&& exists|i: int| 0 <= i < mantissa_end(text) && '1' <= #[trigger] text[i] <= '9'
}

/// Whether a number is below zero.
pub open spec fn below_zero(number: NumberModel) -> bool {
    match number {
        NumberModel::PosInt(_) => false,
        NumberModel::NegInt(n) => n < 0,
        NumberModel::Float(text) => text_below_zero(text),
    }
}

proof fn lemma_mantissa_end(text: Seq<char>)
    ensures
        0 <= mantissa_end(text) <= text.len(),
        forall|i: int| 0 <= i < mantissa_end(text) ==> #[trigger] text[i] != 'e' && text[i] != 'E',
        mantissa_end(text) < text.len() ==> text[mantissa_end(text)] == 'e' || text[mantissa_end(
            text,
        )] == 'E',
    decreases text.len(),
{
    if !(text.len() == 0 || text[0] == 'e' || text[0] == 'E') {
        let rest = text.drop_first();
        lemma_mantissa_end(rest);
        assert forall|i: int| 0 <= i < mantissa_end(text) implies #[trigger] text[i] != 'e'
            && text[i] != 'E' by {
            if i > 0 {
                assert(text[i] == rest[i - 1]);
            }
        }
    }
}

/// Whether a number is below zero.
#[verifier::loop_isolation(false)]
pub fn number_below_zero(number: &JsonNumber) -> (out: bool)
    ensures
        out == below_zero(number@),
{
    match number {
        JsonNumber::PosInt(_) => false,
        JsonNumber::NegInt(n) => *n < 0,
        JsonNumber::Float(text) => {
            let v = chars_of(text.as_str());
            proof {
                lemma_mantissa_end(v@);
            }
            if v.len() == 0 || v[0] != '-' {
                return false;
            }
            let mut i: usize = 0;
            while i < v.len() && v[i] != 'e' && v[i] != 'E'
                invariant
                    i <= v.len(),
                    i <= mantissa_end(v@),
                    forall|j: int| 0 <= j < i ==> !('1' <= #[trigger] v@[j] <= '9'),
                decreases v.len() - i,
            {
                if '1' <= v[i] && v[i] <= '9' {
                    return true;
                }
                i += 1;
            }
            false
        },
    }
}

/// `logic/nextSleepDuration`: asks the runtime to sleep for the number of
/// seconds in the field `duration`, which may not be below zero.
pub open spec fn next_sleep_outcome(fields: Map<Seq<char>, JsonModel>, context: ContextModel) -> AppOutcome {
    match member_number(fields, "duration"@) {
        None => pure_outcome(missing("duration"@), context),
        Some(duration) => if below_zero(duration) {
            pure_outcome(invalid("duration"@, "must be >= 0"@), context)
        } else {
            AppOutcome {
                result: Ok(OutputModel::Empty),
                context: ContextModel { next_sleep_seconds: Some(duration), ..context },
            }
        },
    }
}

pub fn execute_logic_next_sleep_duration(
    fields: &JsonObject,
    context: &mut AppExecutionContext,
) -> (out: Result<AppOutput, AppExecutionError>)
    ensures
        (AppOutcome { result: result_model(out), context: final(context)@ })
            == next_sleep_outcome(fields@, old(context)@),
{
    let duration = match fields.get("duration") {
        Some(value) => match value.as_number() {
            Some(number) => number,
            None => {
                return Err(AppExecutionError::MissingField("duration"));
            },
        },
        None => {
            return Err(AppExecutionError::MissingField("duration"));
        },
    };
    if number_below_zero(duration) {
        return invalid_field("duration", "must be >= 0");
    }
    context.next_sleep_seconds = Some(duration.clone());
    Ok(AppOutput::Empty)
}

/// `logic/breakIfRendering`: gives up the run while the display is busy.
pub open spec fn break_if_rendering_result(context: ContextModel) -> Result<OutputModel, AppFault> {
    if context.is_rendering {
        Err(AppFault::Aborted("aborting run because scene is rendering"@))
    } else {
        Ok(OutputModel::Empty)
    }
}

pub fn execute_logic_break_if_rendering(context: &AppExecutionContext) -> (out: Result<
    AppOutput,
    AppExecutionError,
>)
    ensures
        result_model(out) == break_if_rendering_result(context@),
{
    if context.is_rendering {
        return Err(AppExecutionError::Aborted("aborting run because scene is rendering".to_owned()));
    }
    Ok(AppOutput::Empty)
}

/// `logic/setAsState` with both sources fails and leaves the context as it
/// was; with neither it succeeds and leaves the context as it was. Both,
/// where the field `stateKey` names a key: without one the operation fails
/// for want of that field.
pub proof fn law_set_as_state_sources(fields: Map<Seq<char>, JsonModel>, context: ContextModel)
    requires
        member_str(fields, "stateKey"@) is Some,
    ensures
        member_str(fields, "valueString"@) is Some && state_json_value(fields) is Some
            ==> set_as_state_outcome(fields, context) == pure_outcome(
            invalid("valueString/valueJson"@, "only one of valueString or valueJson can be set"@),
            context,
        ),
        member_str(fields, "valueString"@) is None && state_json_value(fields) is None
            ==> set_as_state_outcome(fields, context) == pure_outcome(
            Ok(OutputModel::Empty),
            context,
        ),
{
}

/// `logic/ifElse` never names node 0: a branch that is selected and set to
/// 0 gives no jump.
pub proof fn law_if_else_zero_is_no_jump(fields: Map<Seq<char>, JsonModel>)
    ensures
        member_bool(fields, "condition"@) == Some(true) && member_u64(fields, "thenNode"@) == Some(
            0int,
        ) ==> if_else_result(fields) == Ok::<OutputModel, AppFault>(OutputModel::Empty),
        member_bool(fields, "condition"@) == Some(false) && member_u64(fields, "elseNode"@)
            == Some(0int) ==> if_else_result(fields) == Ok::<OutputModel, AppFault>(
            OutputModel::Empty,
        ),
        !(if_else_result(fields) matches Ok(OutputModel::BranchNode(id)) && id == 0),
{
}

/// `data/prettyJson` turns down every indent below zero.
pub proof fn law_pretty_json_indent(fields: Map<Seq<char>, JsonModel>)
    requires
        member(fields, "json"@) is Some,
        member_bool(fields, "prettify"@) == Some(true),
        member_i64(fields, "ident"@) matches Some(n) && n < 0,
    ensures
        pretty_json_result(fields) == invalid("ident"@, "must be >= 0"@),
{
}

/// What an operation may read from outside the run.
pub ghost struct Env {
    /// The reading of the clock.
    pub now: crate::calendar::Timestamp,
    /// What the host wrote when it was asked for a time in its own zone.
    pub host_text: Option<Seq<char>>,
}

/// What the operation that `keyword` names comes to on these fields, in
/// this context and with these readings from outside. Two operations have
/// a second, older name.
pub open spec fn app_outcome(
    keyword: Seq<char>,
    fields: Map<Seq<char>, JsonModel>,
    context: ContextModel,
    env: Env,
) -> AppOutcome {
    if keyword == "data/parseJson"@ {
        pure_outcome(parse_json_result(fields), context)
    } else if keyword == "data/prettyJson"@ {
        pure_outcome(pretty_json_result(fields), context)
    } else if keyword == "data/clock"@ {
        pure_outcome(crate::clock::clock_result(fields, context, env), context)
    } else if keyword == "data/xmlToJson"@ {
        pure_outcome(crate::xml::xml_to_json_result(fields), context)
    } else if keyword == "data/eventsToAgenda"@ {
        pure_outcome(crate::agenda::agenda_result(fields, context, env.now), context)
    } else if keyword == "data/icalJson"@ {
        pure_outcome(crate::ical::ical_json_result(fields, context, env.now), context)
    } else if keyword == "logic/setAsState"@ {
        set_as_state_outcome(fields, context)
    } else if keyword == "logic/ifElse"@ || keyword == "logicIfElse"@ {
        pure_outcome(if_else_result(fields), context)
    } else if keyword == "logic/nextSleepDuration"@ {
        next_sleep_outcome(fields, context)
    } else if keyword == "logic/breakIfRendering"@ {
        pure_outcome(break_if_rendering_result(context), context)
    } else {
        pure_outcome(Err(AppFault::UnknownKeyword(keyword)), context)
    }
}

/// Whether `outcome` is what the operation comes to for some reading of
/// the clock and some answer of the host.
pub open spec fn app_step(
    keyword: Seq<char>,
    fields: Map<Seq<char>, JsonModel>,
    context: ContextModel,
    outcome: AppOutcome,
) -> bool {
    exists|env: Env| outcome == app_outcome(keyword, fields, context, env)
}

/// The operation that `keyword` names never answers with a branch.
pub open spec fn never_branches(keyword: Seq<char>) -> bool {
    forall|fields: Map<Seq<char>, JsonModel>, context: ContextModel, env: Env|
        !((#[trigger] app_outcome(keyword, fields, context, env)).result matches Ok(
            OutputModel::BranchNode(_),
        ))
}

/// Only `logic/ifElse`, under either of its names, ever answers with a branch.
pub proof fn law_only_if_else_branches(keyword: Seq<char>)
    requires
        keyword != "logic/ifElse"@,
        keyword != "logicIfElse"@,
    ensures
        never_branches(keyword),
{
}

/// Runs the operation that `keyword` names, with `now` as the reading of
/// the clock. Only `data/clock` asks the host for anything else, and only
/// where the context names no zone.
pub fn execute_app_at(
    keyword: &str,
    fields: &JsonObject,
    context: &mut AppExecutionContext,
    now: crate::calendar::Timestamp,
) -> (out: Result<AppOutput, AppExecutionError>)
    ensures
        exists|host_text: Option<Seq<char>>|
            (AppOutcome { result: result_model(out), context: final(context)@ })
                == #[trigger] app_outcome(
                keyword@,
                fields@,
                old(context)@,
                Env { now, host_text },
            ),
{
    let ghost mut env = Env { now, host_text: None };
    let out = if same_text(keyword, "data/parseJson") {
        execute_data_parse_json(fields)
    } else if same_text(keyword, "data/prettyJson") {
        execute_data_pretty_json(fields)
    } else if same_text(keyword, "data/clock") {
        let out = crate::clock::execute_data_clock(fields, context, now);
        proof {
            let host_text = choose|host_text: Option<Seq<char>>|
                result_model(out) == #[trigger] crate::clock::clock_result(
                    fields@,
                    context@,
                    Env { now, host_text },
                );
            env = Env { now, host_text };
        }
        out
    } else if same_text(keyword, "data/xmlToJson") {
        crate::xml::execute_data_xml_to_json(fields)
    } else if same_text(keyword, "data/eventsToAgenda") {
        crate::agenda::execute_data_events_to_agenda(fields, context, now)
    } else if same_text(keyword, "data/icalJson") {
        crate::ical::execute_data_ical_json(fields, context, now)
    } else if same_text(keyword, "logic/setAsState") {
        execute_logic_set_as_state(fields, context)
    } else if same_text(keyword, "logic/ifElse") || same_text(keyword, "logicIfElse") {
        execute_logic_if_else(fields)
    } else if same_text(keyword, "logic/nextSleepDuration") {
        execute_logic_next_sleep_duration(fields, context)
    } else if same_text(keyword, "logic/breakIfRendering") {
        execute_logic_break_if_rendering(context)
    } else {
        Err(AppExecutionError::UnknownKeyword(keyword.to_owned()))
    };
    assert((AppOutcome { result: result_model(out), context: context@ }) == app_outcome(
        keyword@,
        fields@,
        old(context)@,
        Env { now, host_text: env.host_text },
    ));
    out
}

/// Whether the operation that `keyword` names shows or compares times,
/// so that it may ask what time it is.
pub open spec fn reads_clock(keyword: Seq<char>) -> bool {
    keyword == "data/clock"@ || keyword == "data/eventsToAgenda"@ || keyword == "data/icalJson"@
}

/// Runs the operation that `keyword` names. The clock is read for the
/// operations that show or compare times, and for no other.
pub fn execute_ported_app(keyword: &str, fields: &JsonObject, context: &mut AppExecutionContext) -> (out:
    Result<AppOutput, AppExecutionError>)
    ensures
        app_step(
            keyword@,
            fields@,
            old(context)@,
            AppOutcome { result: result_model(out), context: final(context)@ },
        ),
        !reads_clock(keyword@) ==> forall|env: Env|
            (AppOutcome { result: result_model(out), context: final(context)@ })
                == #[trigger] app_outcome(keyword@, fields@, old(context)@, env),
{
    let timed = same_text(keyword, "data/clock") || same_text(keyword, "data/eventsToAgenda")
        || same_text(keyword, "data/icalJson");
    let now = if timed {
        crate::calendar::utc_now()
    } else {
        crate::calendar::Timestamp { secs: 0, nanos: 0 }
    };
    let out = execute_app_at(keyword, fields, context, now);
    proof {
        let host_text = choose|host_text: Option<Seq<char>>|
            (AppOutcome { result: result_model(out), context: context@ })
                == #[trigger] app_outcome(
                keyword@,
                fields@,
                old(context)@,
                Env { now, host_text },
            );
    }
    out
}

} // verus!
