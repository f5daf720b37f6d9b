//! The command line: one optional command word, then flags that each take a
//! value; and the document of what the commands and their events promise.

use vstd::prelude::*;
use crate::json::{JsonModel, JsonObject, JsonValue};
use crate::text::{same_text, starts_with_char, texts};

verus! {

#[derive(Debug, Clone, Copy, PartialEq, Eq)]
pub enum Command {
    Run,
    Check,
    Parity,
    E2e,
    PrintContract,
}

#[derive(Debug, Clone, PartialEq, Eq)]
pub struct Cli {
    pub command: Command,
    pub config_path: Option<String>,
    pub scene_manifest: Option<String>,
    pub app_manifest: Option<String>,
    pub renderer_contract_path: Option<String>,
    pub driver_contract_path: Option<String>,
    pub renderer_discovery_file: Option<String>,
    pub driver_discovery_file: Option<String>,
    pub renderer_discovery_json: Option<String>,
    pub driver_discovery_json: Option<String>,
    pub event_log_path: Option<String>,
    pub e2e_scenes_dir: Option<String>,
    pub e2e_snapshots_dir: Option<String>,
    pub e2e_assets_dir: Option<String>,
    pub e2e_output_dir: Option<String>,
}

#[derive(Debug, Clone, PartialEq, Eq)]
pub enum CliParseError {
    UnknownArgument(String),
    MissingValue(&'static str),
    UnknownCommand(String),
}

/// The model of a [`CliParseError`].
pub ghost enum CliFault {
    UnknownArgument(Seq<char>),
    MissingValue(Seq<char>),
    UnknownCommand(Seq<char>),
}

impl View for CliParseError {
    type V = CliFault;

    open spec fn view(&self) -> CliFault {
        match self {
            CliParseError::UnknownArgument(argument) => CliFault::UnknownArgument(argument@),
            CliParseError::MissingValue(flag) => CliFault::MissingValue(flag@),
            CliParseError::UnknownCommand(command) => CliFault::UnknownCommand(command@),
        }
    }
}

impl CliParseError {
    /// The sentence that [`CliParseError::message`] writes.
    pub open spec fn message_text(fault: CliFault) -> Seq<char> {
        match fault {
            CliFault::UnknownArgument(argument) => "unknown argument: "@ + argument,
            CliFault::MissingValue(flag) => "missing value for "@ + flag,
            CliFault::UnknownCommand(command) => "unknown command: "@ + command,
        }
    }

    /// The error as a sentence.
    pub fn message(&self) -> (out: String)
        ensures
            out@ == Self::message_text(self@),
    {
        match self {
            CliParseError::UnknownArgument(argument) => {
                let mut out = "unknown argument: ".to_owned();
                out.append(argument.as_str());
                out
            },
            CliParseError::MissingValue(flag) => {
                let mut out = "missing value for ".to_owned();
                out.append(flag);
                out
            },
            CliParseError::UnknownCommand(command) => {
                let mut out = "unknown command: ".to_owned();
                out.append(command.as_str());
                out
            },
        }
    }
}

/// The model of a [`Cli`]: the command, and the values of the flags in the
/// order of [`flag_names`].
pub ghost struct CliModel {
    pub command: Command,
    pub values: Seq<Option<Seq<char>>>,
}

/// The text of an optional string.
pub open spec fn optional_text(value: Option<String>) -> Option<Seq<char>> {
    match value {
        Some(s) => Some(s@),
        None => None,
    }
}

/// The flags, each of which takes one value.
pub open spec fn flag_names() -> Seq<Seq<char>> {
    seq![
        "--config"@,
        "--scenes"@,
        "--apps"@,
        "--renderer-contract"@,
        "--driver-contract"@,
        "--renderer-discovery-file"@,
        "--driver-discovery-file"@,
        "--renderer-discovery-json"@,
        "--driver-discovery-json"@,
        "--event-log"@,
        "--e2e-scenes"@,
        "--e2e-snapshots"@,
        "--e2e-assets"@,
        "--e2e-output"@,
    ]
}

/// The place of `argument` among the flags: the first name that it equals.
pub open spec fn flag_index(argument: Seq<char>) -> Option<int> {
    first_match(flag_names(), argument, 0)
}

/// The first place at or after `from` at which `names` holds `argument`.
pub open spec fn first_match(names: Seq<Seq<char>>, argument: Seq<char>, from: int) -> Option<int>
    decreases names.len() - from,
{
    if from < 0 || from >= names.len() {
        None
    } else if names[from] == argument {
        Some(from)
    } else {
        first_match(names, argument, from + 1)
    }
}

/// The command that a word names.
pub open spec fn command_word(word: Seq<char>) -> Option<Command> {
    if word == "run"@ {
        Some(Command::Run)
    } else if word == "check"@ {
        Some(Command::Check)
    } else if word == "parity"@ {
        Some(Command::Parity)
    } else if word == "e2e"@ {
        Some(Command::E2e)
    } else if word == "contract"@ {
        Some(Command::PrintContract)
    } else {
        None
    }
}

/// Reads flags and their values from `args[pos..]` into `values`: every
/// flag takes the argument behind it, whatever that is; a later value of a
/// flag replaces an earlier one; the first argument that is no flag, or the
/// first flag that has no argument behind it, ends the reading with an error.
pub open spec fn read_flags(args: Seq<Seq<char>>, pos: int, values: Seq<Option<Seq<char>>>) -> Result<
    Seq<Option<Seq<char>>>,
    CliFault,
>
    decreases args.len() - pos,
{
    if pos < 0 || pos >= args.len() {
        Ok(values)
    } else {
        match flag_index(args[pos]) {
            None => Err(CliFault::UnknownArgument(args[pos])),
            Some(k) => if pos + 1 >= args.len() {
                Err(CliFault::MissingValue(flag_names()[k]))
            } else {
                read_flags(args, pos + 2, values.update(k, Some(args[pos + 1])))
            },
        }
    }
}

/// What a command line means. The first argument may name the command; if
/// it does not and does not begin with `-` either, it is an unknown command.
/// Without a command word the command is `run`.
pub open spec fn parsed_cli(args: Seq<Seq<char>>) -> Result<CliModel, CliFault> {
    let none = Seq::new(14, |i: int| None::<Seq<char>>);
    if args.len() == 0 {
        Ok(CliModel { command: Command::Run, values: none })
    } else {
        match command_word(args[0]) {
            Some(command) => match read_flags(args, 1, none) {
                Ok(values) => Ok(CliModel { command, values }),
                Err(fault) => Err(fault),
            },
            None => if args[0].len() > 0 && args[0][0] == '-' {
                match read_flags(args, 0, none) {
                    Ok(values) => Ok(CliModel { command: Command::Run, values }),
                    Err(fault) => Err(fault),
                }
            } else {
                Err(CliFault::UnknownCommand(args[0]))
            },
        }
    }
}

/// What [`Cli::parse`] returned, as a model.
pub open spec fn cli_outcome(out: Result<Cli, CliParseError>) -> Result<CliModel, CliFault> {
    match out {
        Ok(cli) => Ok(cli@),
        Err(e) => Err(e@),
    }
}

impl View for Cli {
    type V = CliModel;

    open spec fn view(&self) -> CliModel {
        CliModel {
            command: self.command,
            values: seq![
                optional_text(self.config_path),
                optional_text(self.scene_manifest),
                optional_text(self.app_manifest),
                optional_text(self.renderer_contract_path),
                optional_text(self.driver_contract_path),
                optional_text(self.renderer_discovery_file),
                optional_text(self.driver_discovery_file),
                optional_text(self.renderer_discovery_json),
                optional_text(self.driver_discovery_json),
                optional_text(self.event_log_path),
                optional_text(self.e2e_scenes_dir),
                optional_text(self.e2e_snapshots_dir),
                optional_text(self.e2e_assets_dir),
                optional_text(self.e2e_output_dir),
            ],
        }
    }
}

impl Default for Cli {
    fn default() -> (out: Self)
        ensures
            out@ == (CliModel { command: Command::Run, values: Seq::new(14, |i: int| None::<Seq<char>>) }),
    {
        let out = Cli {
            command: Command::Run,
            config_path: None,
            scene_manifest: None,
            app_manifest: None,
            renderer_contract_path: None,
            driver_contract_path: None,
            renderer_discovery_file: None,
            driver_discovery_file: None,
            renderer_discovery_json: None,
            driver_discovery_json: None,
            event_log_path: None,
            e2e_scenes_dir: None,
            e2e_snapshots_dir: None,
            e2e_assets_dir: None,
            e2e_output_dir: None,
        };
        assert(out@.values =~= Seq::new(14, |i: int| None::<Seq<char>>));
        out
    }
}

fn command_of(word: &str) -> (out: Option<Command>)
    ensures
        out == command_word(word@),
{
    if same_text(word, "run") {
        Some(Command::Run)
    } else if same_text(word, "check") {
        Some(Command::Check)
    } else if same_text(word, "parity") {
        Some(Command::Parity)
    } else if same_text(word, "e2e") {
        Some(Command::E2e)
    } else if same_text(word, "contract") {
        Some(Command::PrintContract)
    } else {
        None
    }
}

fn flag_name_of(k: usize) -> (out: &'static str)
    requires
        k < 14,
    ensures
        out@ == flag_names()[k as int],
{
    if k == 0 {
        "--config"
    } else if k == 1 {
        "--scenes"
    } else if k == 2 {
        "--apps"
    } else if k == 3 {
        "--renderer-contract"
    } else if k == 4 {
        "--driver-contract"
    } else if k == 5 {
        "--renderer-discovery-file"
    } else if k == 6 {
        "--driver-discovery-file"
    } else if k == 7 {
        "--renderer-discovery-json"
    } else if k == 8 {
        "--driver-discovery-json"
    } else if k == 9 {
        "--event-log"
    } else if k == 10 {
        "--e2e-scenes"
    } else if k == 11 {
        "--e2e-snapshots"
    } else if k == 12 {
        "--e2e-assets"
    } else {
        "--e2e-output"
    }
}

fn flag_index_of(argument: &str) -> (out: Option<usize>)
    ensures
        match out {
            Some(k) => flag_index(argument@) == Some(k as int) && k < 14,
            None => flag_index(argument@) is None,
        },
{
    let mut k: usize = 0;
    while k < 14
        invariant
            k <= 14,
            flag_names().len() == 14,
            flag_index(argument@) == first_match(flag_names(), argument@, k as int),
        decreases 14 - k,
    {
        if same_text(flag_name_of(k), argument) {
            return Some(k);
        }
        k += 1;
    }
    None
}

impl Cli {
    fn set_value(&mut self, k: usize, value: String)
        requires
            k < 14,
        ensures
            final(self)@.command == old(self)@.command,
            final(self)@.values == old(self)@.values.update(k as int, Some(value@)),
    {
        if k == 0 {
            self.config_path = Some(value);
        } else if k == 1 {
            self.scene_manifest = Some(value);
        } else if k == 2 {
            self.app_manifest = Some(value);
        } else if k == 3 {
            self.renderer_contract_path = Some(value);
        } else if k == 4 {
            self.driver_contract_path = Some(value);
        } else if k == 5 {
            self.renderer_discovery_file = Some(value);
        } else if k == 6 {
            self.driver_discovery_file = Some(value);
        } else if k == 7 {
            self.renderer_discovery_json = Some(value);
        } else if k == 8 {
            self.driver_discovery_json = Some(value);
        } else if k == 9 {
            self.event_log_path = Some(value);
        } else if k == 10 {
            self.e2e_scenes_dir = Some(value);
        } else if k == 11 {
            self.e2e_snapshots_dir = Some(value);
        } else if k == 12 {
            self.e2e_assets_dir = Some(value);
        } else {
            self.e2e_output_dir = Some(value);
        }
    }

    /// Reads a command line, the program's own name left out.
    #[verifier::loop_isolation(false)]
    pub fn parse(args: Vec<String>) -> (out: Result<Self, CliParseError>)
        ensures
            cli_outcome(out) == parsed_cli(texts(args@)),
    {
        let mut cli = Cli::default();
        let ghost words = texts(args@);
        let mut pos: usize = 0;
        if args.len() > 0 {
            let first = args[0].as_str();
            match command_of(first) {
                Some(command) => {
                    cli.command = command;
                    pos = 1;
                },
                None => {
                    if !starts_with_char(first, '-') {
                        return Err(CliParseError::UnknownCommand(args[0].clone()));
                    }
                },
            }
        }
        let ghost command = cli.command;
        let ghost goal = read_flags(words, pos as int, cli@.values);
        while pos < args.len()
            invariant
                pos <= args.len(),
                cli.command == command,
                cli@.values.len() == 14,
                read_flags(words, pos as int, cli@.values) == goal,
            decreases args.len() - pos,
        {
            let k = match flag_index_of(args[pos].as_str()) {
                Some(k) => k,
                None => {
                    return Err(CliParseError::UnknownArgument(args[pos].clone()));
                },
            };
            if pos + 1 >= args.len() {
                return Err(CliParseError::MissingValue(flag_name_of(k)));
            }
            cli.set_value(k, args[pos + 1].clone());
            pos += 2;
        }
        Ok(cli)
    }
}

/// A list of names as a JSON array of strings.
pub open spec fn names_model(names: Seq<&'static str>) -> JsonModel {
    JsonModel::Array(Seq::new(names.len(), |i: int| JsonModel::Str(names[i]@)))
}

fn names_value(names: &Vec<&'static str>) -> (out: JsonValue)
    ensures
        out@ == names_model(names@),
{
    let mut items: Vec<JsonValue> = Vec::new();
    let mut i: usize = 0;
    while i < names.len()
        invariant
            i <= names.len(),
            items@.len() == i,
            forall|j: int| 0 <= j < i ==> (#[trigger] items@[j])@ == JsonModel::Str(names@[j]@),
        decreases names.len() - i,
    {
        items.push(JsonValue::Str(names[i].to_owned()));
        i += 1;
    }
    proof {
        crate::json::lemma_items_model(items@);
        assert(crate::json::items_model(items@) =~= Seq::new(
            names@.len(),
            |i: int| JsonModel::Str(names@[i]@),
        ));
    }
    JsonValue::Array(items)
}

/// The flags of the commands that boot the runtime or check what it would load.
pub open spec fn boot_flag_names() -> Seq<&'static str> {
    seq!["--config <path>", "--scenes <path>", "--apps <path>", "--event-log <path>"]
}

fn boot_flags() -> (out: Vec<&'static str>)
    ensures
        out@ == boot_flag_names(),
{
    let mut out: Vec<&'static str> = Vec::new();
    out.push("--config <path>");
    out.push("--scenes <path>");
    out.push("--apps <path>");
    out.push("--event-log <path>");
    out
}

/// The flags of the command that checks two contracts against each other.
pub open spec fn parity_flag_names() -> Seq<&'static str> {
    seq!["--renderer-contract <path>", "--driver-contract <path>", "--renderer-discovery-file <path>", "--driver-discovery-file <path>", "--renderer-discovery-json <json>", "--driver-discovery-json <json>", "--event-log <path>"]
}

fn parity_flags() -> (out: Vec<&'static str>)
    ensures
        out@ == parity_flag_names(),
{
    let mut out: Vec<&'static str> = Vec::new();
    out.push("--renderer-contract <path>");
    out.push("--driver-contract <path>");
    out.push("--renderer-discovery-file <path>");
    out.push("--driver-discovery-file <path>");
    out.push("--renderer-discovery-json <json>");
    out.push("--driver-discovery-json <json>");
    out.push("--event-log <path>");
    out
}

/// The flags of the command that renders scenes and compares them with snapshots.
pub open spec fn e2e_flag_names() -> Seq<&'static str> {
    seq!["--e2e-scenes <dir>", "--e2e-snapshots <dir>", "--e2e-assets <dir>", "--e2e-output <dir>", "--event-log <path>"]
}

fn e2e_flags() -> (out: Vec<&'static str>)
    ensures
        out@ == e2e_flag_names(),
{
    let mut out: Vec<&'static str> = Vec::new();
    out.push("--e2e-scenes <dir>");
    out.push("--e2e-snapshots <dir>");
    out.push("--e2e-assets <dir>");
    out.push("--e2e-output <dir>");
    out.push("--event-log <path>");
    out
}

/// The fields of the event that the runtime starts.
pub open spec fn start_field_names() -> Seq<&'static str> {
    seq!["server", "apps_loaded", "scenes_loaded", "config"]
}

fn start_fields() -> (out: Vec<&'static str>)
    ensures
        out@ == start_field_names(),
{
    let mut out: Vec<&'static str> = Vec::new();
    out.push("server");
    out.push("apps_loaded");
    out.push("scenes_loaded");
    out.push("config");
    out
}

/// The fields of the event that the runtime is ready.
pub open spec fn ready_field_names() -> Seq<&'static str> {
    seq!["server", "health_endpoint", "event_stream_transport", "metrics_interval_seconds", "apps_loaded", "scenes_loaded"]
}

fn ready_fields() -> (out: Vec<&'static str>)
    ensures
        out@ == ready_field_names(),
{
    let mut out: Vec<&'static str> = Vec::new();
    out.push("server");
    out.push("health_endpoint");
    out.push("event_stream_transport");
    out.push("metrics_interval_seconds");
    out.push("apps_loaded");
    out.push("scenes_loaded");
    out
}

/// The fields of the events that say what the runtime has loaded: that it stops, and that a check went well.
pub open spec fn load_field_names() -> Seq<&'static str> {
    seq!["server", "metrics_interval_seconds", "apps_loaded", "scenes_loaded"]
}

fn load_fields() -> (out: Vec<&'static str>)
    ensures
        out@ == load_field_names(),
{
    let mut out: Vec<&'static str> = Vec::new();
    out.push("server");
    out.push("metrics_interval_seconds");
    out.push("apps_loaded");
    out.push("scenes_loaded");
    out
}

/// The fields of the event that a check failed.
pub open spec fn error_field_names() -> Seq<&'static str> {
    seq!["error"]
}

fn error_fields() -> (out: Vec<&'static str>)
    ensures
        out@ == error_field_names(),
{
    let mut out: Vec<&'static str> = Vec::new();
    out.push("error");
    out
}

/// The fields of the event that two contracts agree.
pub open spec fn parity_ok_field_names() -> Seq<&'static str> {
    seq!["renderer_api_version", "driver_api_version", "driver_device_kind", "shared_formats", "renderer_target_fps", "renderer_tick_budget_ms", "renderer_drop_policy", "driver_backpressure_policy", "driver_max_queue_depth", "renderer_contract_source", "driver_contract_source"]
}

fn parity_ok_fields() -> (out: Vec<&'static str>)
    ensures
        out@ == parity_ok_field_names(),
{
    let mut out: Vec<&'static str> = Vec::new();
    out.push("renderer_api_version");
    out.push("driver_api_version");
    out.push("driver_device_kind");
    out.push("shared_formats");
    out.push("renderer_target_fps");
    out.push("renderer_tick_budget_ms");
    out.push("renderer_drop_policy");
    out.push("driver_backpressure_policy");
    out.push("driver_max_queue_depth");
    out.push("renderer_contract_source");
    out.push("driver_contract_source");
    out
}

/// The fields of the event that two contracts do not agree.
pub open spec fn parity_failed_field_names() -> Seq<&'static str> {
    seq!["error", "duration_ms", "renderer_contract_source", "driver_contract_source", "renderer_source_label", "driver_source_label"]
}

fn parity_failed_fields() -> (out: Vec<&'static str>)
    ensures
        out@ == parity_failed_field_names(),
{
    let mut out: Vec<&'static str> = Vec::new();
    out.push("error");
    out.push("duration_ms");
    out.push("renderer_contract_source");
    out.push("driver_contract_source");
    out.push("renderer_source_label");
    out.push("driver_source_label");
    out
}

/// The fields of the event that the scenes are rendered as their snapshots.
pub open spec fn e2e_ok_field_names() -> Seq<&'static str> {
    seq!["scenes_checked", "scenes_failed", "max_diff"]
}

fn e2e_ok_fields() -> (out: Vec<&'static str>)
    ensures
        out@ == e2e_ok_field_names(),
{
    let mut out: Vec<&'static str> = Vec::new();
    out.push("scenes_checked");
    out.push("scenes_failed");
    out.push("max_diff");
    out
}

/// The fields of the event that scenes are not rendered as their snapshots.
pub open spec fn e2e_failed_field_names() -> Seq<&'static str> {
    seq!["scenes_checked", "scenes_failed", "max_diff", "failing_scenes"]
}

fn e2e_failed_fields() -> (out: Vec<&'static str>)
    ensures
        out@ == e2e_failed_field_names(),
{
    let mut out: Vec<&'static str> = Vec::new();
    out.push("scenes_checked");
    out.push("scenes_failed");
    out.push("max_diff");
    out.push("failing_scenes");
    out
}

/// The fields of the event that the runtime is alive.
pub open spec fn heartbeat_field_names() -> Seq<&'static str> {
    seq!["uptime_seconds", "server"]
}

fn heartbeat_fields() -> (out: Vec<&'static str>)
    ensures
        out@ == heartbeat_field_names(),
{
    let mut out: Vec<&'static str> = Vec::new();
    out.push("uptime_seconds");
    out.push("server");
    out
}

/// The fields of the event that reports the metrics.
pub open spec fn metrics_field_names() -> Seq<&'static str> {
    seq!["uptime_seconds", "metrics_interval_seconds", "apps_loaded", "scenes_loaded"]
}

fn metrics_fields() -> (out: Vec<&'static str>)
    ensures
        out@ == metrics_field_names(),
{
    let mut out: Vec<&'static str> = Vec::new();
    out.push("uptime_seconds");
    out.push("metrics_interval_seconds");
    out.push("apps_loaded");
    out.push("scenes_loaded");
    out
}

/// The empty JSON object.
pub open spec fn no_members() -> Map<Seq<char>, JsonModel> {
    Map::<Seq<char>, JsonModel>::empty()
}

/// What the document says of a command: what it does, its flags, and one remark.
pub open spec fn command_model(
    description: Seq<char>,
    flags: Seq<&'static str>,
    remark: Seq<char>,
    remarked: Seq<char>,
) -> JsonModel {
    JsonModel::Object(
        no_members().insert("description"@, JsonModel::Str(description)).insert(
            "flags"@,
            names_model(flags),
        ).insert(remark, JsonModel::Str(remarked)),
    )
}

fn command_value(description: &str, flags: &Vec<&'static str>, remark: &str, remarked: &str) -> (out:
    JsonValue)
    ensures
        out@ == command_model(description@, flags@, remark@, remarked@),
{
    let mut object = JsonObject::new();
    object.insert("description".to_owned(), JsonValue::Str(description.to_owned()));
    object.insert("flags".to_owned(), names_value(flags));
    object.insert(remark.to_owned(), JsonValue::Str(remarked.to_owned()));
    JsonValue::Object(object)
}

/// What the document says of an event: how grave it is, and its fields.
pub open spec fn event_model(level: Seq<char>, fields: Seq<&'static str>) -> JsonModel {
    JsonModel::Object(
        no_members().insert("level"@, JsonModel::Str(level)).insert("fields"@, names_model(fields)),
    )
}

fn event_value(level: &str, fields: &Vec<&'static str>) -> (out: JsonValue)
    ensures
        out@ == event_model(level@, fields@),
{
    let mut object = JsonObject::new();
    object.insert("level".to_owned(), JsonValue::Str(level.to_owned()));
    object.insert("fields".to_owned(), names_value(fields));
    JsonValue::Object(object)
}

/// The commands of the program.
pub open spec fn commands_model() -> JsonModel {
    JsonModel::Object(
        no_members().insert(
            "run"@,
            command_model(
                "Boot FrameOS runtime and optionally preload manifests."@,
                boot_flag_names(),
                "event_log_routing"@,
                "--event-log overrides config.log_to_file when both are set"@,
            ),
        ).insert(
            "check"@,
            command_model(
                "Validate that config and optional manifests can be loaded."@,
                boot_flag_names(),
                "event_log_routing"@,
                "--event-log overrides config.log_to_file when both are set"@,
            ),
        ).insert(
            "parity"@,
            command_model(
                "Validate renderer/driver contracts against parity invariants (fixture files or discovery payloads)."@,
                parity_flag_names(),
                "notes"@,
                "provide exactly one source per side: contract path or discovery payload"@,
            ),
        ).insert(
            "e2e"@,
            command_model(
                "Render e2e scenes and compare generated images against snapshot PNGs."@,
                e2e_flag_names(),
                "notes"@,
                "defaults resolve against repo root when paths are omitted"@,
            ),
        ).insert(
            "contract"@,
            JsonModel::Object(
                no_members().insert(
                    "description"@,
                    JsonModel::Str("Print the runtime CLI/event contract as JSON."@),
                ).insert("flags"@, names_model(Seq::empty())),
            ),
        ),
    )
}

fn commands_value() -> (out: JsonValue)
    ensures
        out@ == commands_model(),
{
    let boot = boot_flags();
    let mut commands = JsonObject::new();
    commands.insert(
        "run".to_owned(),
        command_value(
            "Boot FrameOS runtime and optionally preload manifests.",
            &boot,
            "event_log_routing",
            "--event-log overrides config.log_to_file when both are set",
        ),
    );
    commands.insert(
        "check".to_owned(),
        command_value(
            "Validate that config and optional manifests can be loaded.",
            &boot,
            "event_log_routing",
            "--event-log overrides config.log_to_file when both are set",
        ),
    );
    commands.insert(
        "parity".to_owned(),
        command_value(
            "Validate renderer/driver contracts against parity invariants (fixture files or discovery payloads).",
            &parity_flags(),
            "notes",
            "provide exactly one source per side: contract path or discovery payload",
        ),
    );
    commands.insert(
        "e2e".to_owned(),
        command_value(
            "Render e2e scenes and compare generated images against snapshot PNGs.",
            &e2e_flags(),
            "notes",
            "defaults resolve against repo root when paths are omitted",
        ),
    );
    let mut contract = JsonObject::new();
    contract.insert(
        "description".to_owned(),
        JsonValue::Str("Print the runtime CLI/event contract as JSON.".to_owned()),
    );
    contract.insert("flags".to_owned(), names_value(&Vec::new()));
    commands.insert("contract".to_owned(), JsonValue::Object(contract));
    JsonValue::Object(commands)
}

/// How the events are streamed, and what a message of the stream holds.
pub open spec fn stream_model() -> JsonModel {
    JsonModel::Object(
        no_members().insert("transport"@, JsonModel::Str("websocket"@)).insert(
            "path"@,
            JsonModel::Str("/ws/events"@),
        ).insert(
            "message_envelope"@,
            JsonModel::Object(
                no_members().insert("event"@, JsonModel::Str("string"@)).insert(
                    "timestamp"@,
                    JsonModel::Str("number"@),
                ).insert("fields"@, JsonModel::Str("object"@)),
            ),
        ),
    )
}

fn stream_value() -> (out: JsonValue)
    ensures
        out@ == stream_model(),
{
    let mut envelope = JsonObject::new();
    envelope.insert("event".to_owned(), JsonValue::Str("string".to_owned()));
    envelope.insert("timestamp".to_owned(), JsonValue::Str("number".to_owned()));
    envelope.insert("fields".to_owned(), JsonValue::Str("object".to_owned()));
    let mut stream = JsonObject::new();
    stream.insert("transport".to_owned(), JsonValue::Str("websocket".to_owned()));
    stream.insert("path".to_owned(), JsonValue::Str("/ws/events".to_owned()));
    stream.insert("message_envelope".to_owned(), JsonValue::Object(envelope));
    JsonValue::Object(stream)
}

/// The events that the program publishes.
pub open spec fn events_model() -> JsonModel {
    JsonModel::Object(
        no_members().insert("runtime:start"@, event_model("info"@, start_field_names())).insert(
            "runtime:ready"@,
            event_model("info"@, ready_field_names()),
        ).insert("runtime:stop"@, event_model("info"@, load_field_names())).insert(
            "runtime:check_ok"@,
            event_model("info"@, load_field_names()),
        ).insert("runtime:check_failed"@, event_model("error"@, error_field_names())).insert(
            "runtime:parity_ok"@,
            event_model("info"@, parity_ok_field_names()),
        ).insert("runtime:parity_failed"@, event_model("error"@, parity_failed_field_names())).insert(
            "runtime:e2e_ok"@,
            event_model("info"@, e2e_ok_field_names()),
        ).insert("runtime:e2e_failed"@, event_model("error"@, e2e_failed_field_names())).insert(
            "runtime:heartbeat"@,
            event_model("debug"@, heartbeat_field_names()),
        ).insert("runtime:metrics_tick"@, event_model("info"@, metrics_field_names())),
    )
}

fn events_value() -> (out: JsonValue)
    ensures
        out@ == events_model(),
{
    let load = load_fields();
    let mut events = JsonObject::new();
    events.insert("runtime:start".to_owned(), event_value("info", &start_fields()));
    events.insert("runtime:ready".to_owned(), event_value("info", &ready_fields()));
    events.insert("runtime:stop".to_owned(), event_value("info", &load));
    events.insert("runtime:check_ok".to_owned(), event_value("info", &load));
    events.insert("runtime:check_failed".to_owned(), event_value("error", &error_fields()));
    events.insert("runtime:parity_ok".to_owned(), event_value("info", &parity_ok_fields()));
    events.insert(
        "runtime:parity_failed".to_owned(),
        event_value("error", &parity_failed_fields()),
    );
    events.insert("runtime:e2e_ok".to_owned(), event_value("info", &e2e_ok_fields()));
    events.insert("runtime:e2e_failed".to_owned(), event_value("error", &e2e_failed_fields()));
    events.insert("runtime:heartbeat".to_owned(), event_value("debug", &heartbeat_fields()));
    events.insert("runtime:metrics_tick".to_owned(), event_value("info", &metrics_fields()));
    JsonValue::Object(events)
}

/// The events that each command publishes, with their fields.
pub open spec fn command_events_model() -> JsonModel {
    JsonModel::Object(
        no_members().insert(
            "run"@,
            JsonModel::Object(
                no_members().insert("runtime:start"@, names_model(start_field_names())).insert(
                    "runtime:ready"@,
                    names_model(ready_field_names()),
                ).insert("runtime:heartbeat"@, names_model(heartbeat_field_names())).insert(
                    "runtime:metrics_tick"@,
                    names_model(metrics_field_names()),
                ).insert("runtime:stop"@, names_model(load_field_names())),
            ),
        ).insert(
            "check"@,
            JsonModel::Object(
                no_members().insert("runtime:check_ok"@, names_model(load_field_names())).insert(
                    "runtime:check_failed"@,
                    names_model(error_field_names()),
                ),
            ),
        ).insert(
            "parity"@,
            JsonModel::Object(
                no_members().insert(
                    "runtime:parity_ok"@,
                    names_model(parity_ok_field_names()),
                ).insert("runtime:parity_failed"@, names_model(parity_failed_field_names())),
            ),
        ).insert(
            "e2e"@,
            JsonModel::Object(
                no_members().insert("runtime:e2e_ok"@, names_model(e2e_ok_field_names())).insert(
                    "runtime:e2e_failed"@,
                    names_model(e2e_failed_field_names()),
                ),
            ),
        ).insert("contract"@, JsonModel::Object(no_members())),
    )
}

fn command_events_value() -> (out: JsonValue)
    ensures
        out@ == command_events_model(),
{
    let mut run = JsonObject::new();
    run.insert("runtime:start".to_owned(), names_value(&start_fields()));
    run.insert("runtime:ready".to_owned(), names_value(&ready_fields()));
    run.insert("runtime:heartbeat".to_owned(), names_value(&heartbeat_fields()));
    run.insert("runtime:metrics_tick".to_owned(), names_value(&metrics_fields()));
    run.insert("runtime:stop".to_owned(), names_value(&load_fields()));
    let mut check = JsonObject::new();
    check.insert("runtime:check_ok".to_owned(), names_value(&load_fields()));
    check.insert("runtime:check_failed".to_owned(), names_value(&error_fields()));
    let mut parity = JsonObject::new();
    parity.insert("runtime:parity_ok".to_owned(), names_value(&parity_ok_fields()));
    parity.insert("runtime:parity_failed".to_owned(), names_value(&parity_failed_fields()));
    let mut e2e = JsonObject::new();
    e2e.insert("runtime:e2e_ok".to_owned(), names_value(&e2e_ok_fields()));
    e2e.insert("runtime:e2e_failed".to_owned(), names_value(&e2e_failed_fields()));
    let mut all = JsonObject::new();
    all.insert("run".to_owned(), JsonValue::Object(run));
    all.insert("check".to_owned(), JsonValue::Object(check));
    all.insert("parity".to_owned(), JsonValue::Object(parity));
    all.insert("e2e".to_owned(), JsonValue::Object(e2e));
    all.insert("contract".to_owned(), JsonValue::Object(JsonObject::new()));
    JsonValue::Object(all)
}

/// What the program promises of its commands and of the events that it
/// publishes, as a document.
pub open spec fn contract_document() -> JsonModel {
    JsonModel::Object(
        no_members().insert("commands"@, commands_model()).insert(
            "event_stream"@,
            stream_model(),
        ).insert("events"@, events_model()).insert("command_event_fields"@, command_events_model()),
    )
}

/// Writes the document of what the program promises of its commands and
/// of the events that it publishes.
pub fn command_contract_json() -> (out: JsonValue)
    ensures
        out@ == contract_document(),
{
    let mut document = JsonObject::new();
    document.insert("commands".to_owned(), commands_value());
    document.insert("event_stream".to_owned(), stream_value());
    document.insert("events".to_owned(), events_value());
    document.insert("command_event_fields".to_owned(), command_events_value());
    JsonValue::Object(document)
}

} // verus!
