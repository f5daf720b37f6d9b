//! The runtime: what it holds, and what it does from tick to tick.

use vstd::prelude::*;
use crate::apps::AppRegistry;
use crate::config::{ConfigError, FrameOSConfig};
use crate::json::{JsonModel, JsonNumber, JsonObject, JsonValue, NumberModel};
use crate::manifests::{apps_checked, load_app_registry, load_scene_catalog, scenes_checked,
    ManifestLoadError};
use crate::metrics::Metrics;
use crate::models::{AppDescriptor, SceneDescriptor};
use crate::scenes::SceneCatalog;
use crate::server::Server;
use crate::text::decimal_text;

verus! {

#[derive(Debug, Clone, PartialEq, Eq)]
pub enum RuntimeError {
    Config(ConfigError),
    Manifest(ManifestLoadError),
    Io(String),
}

impl RuntimeError {
    /// The sentence that [`RuntimeError::message`] writes.
    pub open spec fn message_text(&self) -> Seq<char> {
        match self {
            RuntimeError::Config(source) => "config error: "@ + source.message_text(),
            RuntimeError::Manifest(source) => "manifest error: "@ + source.message_text(),
            RuntimeError::Io(source) => "runtime io error: "@ + source@,
        }
    }

    /// The error as a sentence.
    pub fn message(&self) -> (out: String)
        ensures
            out@ == self.message_text(),
    {
        match self {
            RuntimeError::Config(source) => {
                let mut out = "config error: ".to_owned();
                out.append(source.message().as_str());
                out
            },
            RuntimeError::Manifest(source) => {
                let mut out = "manifest error: ".to_owned();
                out.append(source.message().as_str());
                out
            },
            RuntimeError::Io(source) => {
                let mut out = "runtime io error: ".to_owned();
                out.append(source.as_str());
                out
            },
        }
    }
}

/// A runtime and what was loaded into it.
#[derive(Debug)]
pub struct Runtime {
    config: FrameOSConfig,
    server: Server,
    metrics: Metrics,
    scenes: Option<SceneCatalog>,
    apps: Option<AppRegistry>,
}

/// One nanosecond short of a second would be no heartbeat: a second has this many.
pub const NANOS_PER_SECOND: u64 = 1_000_000_000;

/// When the runtime last did what it does at intervals. Times are readings
/// of a clock that never runs backwards, in nanoseconds.
#[derive(Debug, Clone, Copy, PartialEq, Eq)]
pub struct TickState {
    pub started_at: u64,
    pub last_heartbeat_at: u64,
    pub last_metrics_at: u64,
}

/// The time from `then` to `now`; none where `now` is the earlier reading.
pub open spec fn elapsed(then: u64, now: u64) -> int {
    if now >= then {
        now - then
    } else {
        0
    }
}

impl TickState {
    /// A runtime that has just started.
    pub fn new(now: u64) -> (out: Self)
        ensures
            out == (TickState { started_at: now, last_heartbeat_at: now, last_metrics_at: now }),
    {
        Self { started_at: now, last_heartbeat_at: now, last_metrics_at: now }
    }

    /// Whether a heartbeat is due: a second or more has passed since the last one.
    pub fn should_emit_heartbeat(&self, now: u64) -> (out: bool)
        ensures
            out == (elapsed(self.last_heartbeat_at, now) >= NANOS_PER_SECOND),
    {
        now >= self.last_heartbeat_at && now - self.last_heartbeat_at >= NANOS_PER_SECOND
    }

    /// Whether the metrics are due: the interval has passed since they were last reported.
    pub fn should_emit_metrics_tick(&self, now: u64, metrics_interval: u64) -> (out: bool)
        ensures
            out == (elapsed(self.last_metrics_at, now) >= metrics_interval),
    {
        if now >= self.last_metrics_at {
            now - self.last_metrics_at >= metrics_interval
        } else {
            metrics_interval == 0
        }
    }
}

/// What the runtime reports.
#[derive(Debug, Clone, Copy, PartialEq, Eq)]
pub enum RuntimeEvent {
    Start,
    Ready,
    Heartbeat,
    MetricsTick,
    Stop,
}

impl RuntimeEvent {
    /// The name under which the event is published.
    pub fn name(&self) -> (out: &'static str)
        ensures
            out@ == (match self {
                RuntimeEvent::Start => "runtime:start"@,
                RuntimeEvent::Ready => "runtime:ready"@,
                RuntimeEvent::Heartbeat => "runtime:heartbeat"@,
                RuntimeEvent::MetricsTick => "runtime:metrics_tick"@,
                RuntimeEvent::Stop => "runtime:stop"@,
            }),
    {
        match self {
            RuntimeEvent::Start => "runtime:start",
            RuntimeEvent::Ready => "runtime:ready",
            RuntimeEvent::Heartbeat => "runtime:heartbeat",
            RuntimeEvent::MetricsTick => "runtime:metrics_tick",
            RuntimeEvent::Stop => "runtime:stop",
        }
    }
}

/// The interval between two reports of the metrics, in nanoseconds: the
/// configured seconds, but one second at least, and no more than 64 bits hold.
pub open spec fn metrics_interval_nanos(seconds: u64) -> u64 {
    let whole = if seconds == 0 {
        1
    } else {
        seconds as int
    };
    if whole * NANOS_PER_SECOND > u64::MAX {
        u64::MAX
    } else {
        (whole * NANOS_PER_SECOND) as u64
    }
}

/// What one turn of the loop reports at the reading `now`: the heartbeat
/// where it is due, then the metrics where they are due.
pub open spec fn tick_events(state: TickState, now: u64, interval: u64) -> Seq<RuntimeEvent> {
    (if elapsed(state.last_heartbeat_at, now) >= NANOS_PER_SECOND {
        seq![RuntimeEvent::Heartbeat]
    } else {
        Seq::empty()
    }) + (if elapsed(state.last_metrics_at, now) >= interval {
        seq![RuntimeEvent::MetricsTick]
    } else {
        Seq::empty()
    })
}

/// The state after one turn of the loop: what was reported was last reported now.
pub open spec fn tick_state(state: TickState, now: u64, interval: u64) -> TickState {
    TickState {
        started_at: state.started_at,
        last_heartbeat_at: if elapsed(state.last_heartbeat_at, now) >= NANOS_PER_SECOND {
            now
        } else {
            state.last_heartbeat_at
        },
        last_metrics_at: if elapsed(state.last_metrics_at, now) >= interval {
            now
        } else {
            state.last_metrics_at
        },
    }
}

/// What a run reports whose loop turned at the readings `ticks[from..]`,
/// after `held`, before it stops.
pub open spec fn loop_events(
    ticks: Seq<u64>,
    from: int,
    state: TickState,
    interval: u64,
    held: Seq<RuntimeEvent>,
) -> Seq<RuntimeEvent>
    decreases ticks.len() - from,
{
    if from < 0 || from >= ticks.len() {
        held
    } else {
        loop_events(
            ticks,
            from + 1,
            tick_state(state, ticks[from], interval),
            interval,
            held + tick_events(state, ticks[from], interval),
        )
    }
}

impl Runtime {
    /// The configuration of the runtime.
    pub closed spec fn settings(&self) -> FrameOSConfig {
        self.config
    }

    /// The scenes that were loaded, if any were.
    pub closed spec fn loaded_scenes(&self) -> Option<Seq<SceneDescriptor>> {
        match self.scenes {
            Some(catalog) => Some(catalog.entries()),
            None => None,
        }
    }

    /// The apps that were loaded, if any were.
    pub closed spec fn loaded_apps(&self) -> Option<Seq<AppDescriptor>> {
        match self.apps {
            Some(registry) => Some(registry.entries()),
            None => None,
        }
    }

    /// The seconds between two reports of the metrics, as configured.
    pub closed spec fn metrics_seconds(&self) -> u64 {
        self.metrics.interval()
    }

    /// A runtime for this configuration, with nothing loaded.
    pub fn new(config: FrameOSConfig) -> (out: Self)
        ensures
            out.settings() == config,
            out.loaded_scenes() is None,
            out.loaded_apps() is None,
            out.metrics_seconds() == config.metrics_interval_seconds,
            out.address().host() == config.server_host@,
            out.address().port() == config.server_port,
    {
        let server = Server::from_config(&config);
        let metrics = Metrics::from_config(&config);
        Self { config, server, metrics, scenes: None, apps: None }
    }

    /// The runtime with the scenes of a manifest, if each of them passes its rules.
    pub fn with_scene_manifest(self, scenes: Vec<SceneDescriptor>) -> (out: Result<Self, RuntimeError>)
        ensures
            match out {
                Ok(runtime) => runtime.loaded_scenes() == Some(scenes@) && runtime.loaded_apps()
                    == self.loaded_apps() && runtime.settings() == self.settings()
                    && runtime.address() == self.address() && runtime.metrics_seconds()
                    == self.metrics_seconds() && scenes_checked(
                    scenes@,
                    None,
                ),
                Err(RuntimeError::Manifest(e)) => scenes_checked(scenes@, Some(e)),
                Err(_) => false,
            },
    {
        let mut runtime = self;
        match load_scene_catalog(scenes) {
            Ok(catalog) => {
                runtime.scenes = Some(catalog);
                Ok(runtime)
            },
            Err(e) => Err(RuntimeError::Manifest(e)),
        }
    }

    /// The runtime with the apps of a manifest, if each of them passes its rules.
    pub fn with_app_manifest(self, apps: Vec<AppDescriptor>) -> (out: Result<Self, RuntimeError>)
        ensures
            match out {
                Ok(runtime) => runtime.loaded_apps() == Some(apps@) && runtime.loaded_scenes()
                    == self.loaded_scenes() && runtime.settings() == self.settings()
                    && runtime.address() == self.address() && runtime.metrics_seconds()
                    == self.metrics_seconds() && apps_checked(
                    apps@,
                    None,
                ),
                Err(RuntimeError::Manifest(e)) => apps_checked(apps@, Some(e)),
                Err(_) => false,
            },
    {
        let mut runtime = self;
        match load_app_registry(apps) {
            Ok(registry) => {
                runtime.apps = Some(registry);
                Ok(runtime)
            },
            Err(e) => Err(RuntimeError::Manifest(e)),
        }
    }

    /// How many apps are loaded.
    pub fn apps_loaded(&self) -> (out: usize)
        ensures
            out == (match self.loaded_apps() {
                Some(apps) => apps.len(),
                None => 0,
            }),
    {
        match &self.apps {
            Some(registry) => registry.apps().len(),
            None => 0,
        }
    }

    /// How many scenes are loaded.
    pub fn scenes_loaded(&self) -> (out: usize)
        ensures
            out == (match self.loaded_scenes() {
                Some(scenes) => scenes.len(),
                None => 0,
            }),
    {
        match &self.scenes {
            Some(catalog) => catalog.scenes().len(),
            None => 0,
        }
    }

    /// The address that the runtime serves on.
    pub closed spec fn address(&self) -> Server {
        self.server
    }

    /// The address that the runtime serves on.
    pub fn server(&self) -> (out: &Server)
        ensures
            *out == self.address(),
    {
        &self.server
    }

    /// The configuration of the runtime.
    pub fn config(&self) -> (out: &FrameOSConfig)
        ensures
            *out == self.settings(),
    {
        &self.config
    }

    /// The interval between two reports of the metrics, in nanoseconds.
    pub fn metrics_interval(&self) -> (out: u64)
        ensures
            out == metrics_interval_nanos(self.metrics_seconds()),
    {
        let seconds = self.metrics.interval_seconds();
        let whole: u64 = if seconds == 0 {
            1
        } else {
            seconds
        };
        if whole > u64::MAX / NANOS_PER_SECOND {
            u64::MAX
        } else {
            whole * NANOS_PER_SECOND
        }
    }

    /// One turn of the loop at the reading `now`: says what is due, and
    /// notes that it was reported.
    pub fn tick(&self, state: &mut TickState, now: u64) -> (out: Vec<RuntimeEvent>)
        ensures
            out@ == tick_events(*old(state), now, metrics_interval_nanos(self.metrics_seconds())),
            *final(state) == tick_state(
                *old(state),
                now,
                metrics_interval_nanos(self.metrics_seconds()),
            ),
    {
        let interval = self.metrics_interval();
        let mut out: Vec<RuntimeEvent> = Vec::new();
        let heartbeat = state.should_emit_heartbeat(now);
        let metrics = state.should_emit_metrics_tick(now, interval);
        if heartbeat {
            state.last_heartbeat_at = now;
            out.push(RuntimeEvent::Heartbeat);
        }
        if metrics {
            state.last_metrics_at = now;
            out.push(RuntimeEvent::MetricsTick);
        }
        out
    }

    /// What a run reports that started at the reading `started` and whose
    /// loop turned at the readings `ticks` before it was stopped: its
    /// start, that it is ready, what fell due at each turn, and its stop.
    #[verifier::loop_isolation(false)]
    pub fn run_until_stopped(&self, started: u64, ticks: &Vec<u64>) -> (out: Vec<RuntimeEvent>)
        ensures
            out@ == loop_events(
                ticks@,
                0,
                TickState { started_at: started, last_heartbeat_at: started, last_metrics_at: started },
                metrics_interval_nanos(self.metrics_seconds()),
                seq![RuntimeEvent::Start, RuntimeEvent::Ready],
            ).push(RuntimeEvent::Stop),
    {
        let ghost interval = metrics_interval_nanos(self.metrics_seconds());
        let mut state = TickState::new(started);
        let mut out: Vec<RuntimeEvent> = Vec::new();
        out.push(RuntimeEvent::Start);
        out.push(RuntimeEvent::Ready);
        assert(out@ =~= seq![RuntimeEvent::Start, RuntimeEvent::Ready]);
        let ghost goal = loop_events(ticks@, 0, state, interval, out@);
        let mut i: usize = 0;
        while i < ticks.len()
            invariant
                i <= ticks.len(),
                loop_events(ticks@, i as int, state, interval, out@) == goal,
            decreases ticks.len() - i,
        {
            let mut due = self.tick(&mut state, ticks[i]);
            out.append(&mut due);
            i += 1;
        }
        out.push(RuntimeEvent::Stop);
        out
    }

    /// What a run reports that is stopped before its loop turns once.
    pub fn start(&self) -> (out: Vec<RuntimeEvent>)
        ensures
            out@ == seq![RuntimeEvent::Start, RuntimeEvent::Ready, RuntimeEvent::Stop],
    {
        let ticks: Vec<u64> = Vec::new();
        let out = self.run_until_stopped(0, &ticks);
        out
    }
}

/// A count as a JSON number.
pub open spec fn count(n: int) -> JsonModel {
    JsonModel::Number(NumberModel::PosInt(n))
}

fn count_value(n: u64) -> (out: JsonValue)
    ensures
        out@ == count(n as int),
{
    JsonValue::Number(JsonNumber::PosInt(n))
}

fn text_value(text: &str) -> (out: JsonValue)
    ensures
        out@ == JsonModel::Str(text@),
{
    JsonValue::Str(text.to_owned())
}

impl Runtime {
    /// Host and port that the runtime serves on, with a colon between them.
    pub open spec fn endpoint_text(&self) -> Seq<char> {
        self.address().host() + ":"@ + decimal_text(self.address().port() as nat)
    }

    /// How many apps are loaded.
    pub open spec fn app_count(&self) -> int {
        match self.loaded_apps() {
            Some(apps) => apps.len() as int,
            None => 0,
        }
    }

    /// How many scenes are loaded.
    pub open spec fn scene_count(&self) -> int {
        match self.loaded_scenes() {
            Some(scenes) => scenes.len() as int,
            None => 0,
        }
    }

    /// What several events say of the load of the runtime.
    pub open spec fn load_members(&self) -> Map<Seq<char>, JsonModel> {
        Map::<Seq<char>, JsonModel>::empty().insert(
            "metrics_interval_seconds"@,
            count(self.metrics_seconds() as int),
        ).insert("apps_loaded"@, count(self.app_count())).insert(
            "scenes_loaded"@,
            count(self.scene_count()),
        )
    }

    fn load_object(&self) -> (out: JsonObject)
        ensures
            out@ == self.load_members(),
    {
        let mut object = JsonObject::new();
        object.insert("metrics_interval_seconds".to_owned(), count_value(self.metrics.interval_seconds()));
        object.insert("apps_loaded".to_owned(), count_value(self.apps_loaded() as u64));
        object.insert("scenes_loaded".to_owned(), count_value(self.scenes_loaded() as u64));
        object
    }

    /// The event with which a run says where it serves and what it has
    /// loaded: that a check went well, or that the runtime stops.
    pub open spec fn load_event(&self, name: Seq<char>) -> JsonModel {
        JsonModel::Object(
            self.load_members().insert("server"@, JsonModel::Str(self.endpoint_text())).insert(
                "event"@,
                JsonModel::Str(name),
            ),
        )
    }

    fn load_event_value(&self, name: &str) -> (out: JsonValue)
        ensures
            out@ == self.load_event(name@),
    {
        let mut object = self.load_object();
        object.insert("server".to_owned(), JsonValue::Str(self.server.endpoint()));
        object.insert("event".to_owned(), text_value(name));
        JsonValue::Object(object)
    }

    /// The event that says that the runtime could be built.
    pub fn check_event(&self) -> (out: JsonValue)
        ensures
            out@ == self.load_event("runtime:check_ok"@),
    {
        self.load_event_value("runtime:check_ok")
    }

    /// The event that says that the runtime stops.
    pub fn stop_event(&self) -> (out: JsonValue)
        ensures
            out@ == self.load_event("runtime:stop"@),
    {
        self.load_event_value("runtime:stop")
    }

    /// What the event of the start says of the configuration.
    pub open spec fn start_members(&self) -> Map<Seq<char>, JsonModel> {
        let config = self.settings();
        Map::<Seq<char>, JsonModel>::empty().insert("name"@, JsonModel::Str(config.name@)).insert(
            "mode"@,
            JsonModel::Str(config.mode@),
        ).insert("server_host"@, JsonModel::Str(config.server_host@)).insert(
            "server_port"@,
            count(config.server_port as int),
        ).insert("frame_host"@, JsonModel::Str(config.frame_host@)).insert(
            "frame_port"@,
            count(config.frame_port as int),
        ).insert("width"@, count(config.width as int)).insert(
            "height"@,
            count(config.height as int),
        ).insert("device"@, JsonModel::Str(config.device@)).insert(
            "assets_path"@,
            JsonModel::Str(config.assets_path@),
        )
    }

    /// The event that says that the runtime starts, and with what configuration.
    pub fn start_event(&self) -> (out: JsonValue)
        ensures
            out@ == JsonModel::Object(
                Map::<Seq<char>, JsonModel>::empty().insert(
                    "event"@,
                    JsonModel::Str("runtime:start"@),
                ).insert("config"@, JsonModel::Object(self.start_members())),
            ),
    {
        let mut config = JsonObject::new();
        config.insert("name".to_owned(), text_value(self.config.name.as_str()));
        config.insert("mode".to_owned(), text_value(self.config.mode.as_str()));
        config.insert("server_host".to_owned(), text_value(self.config.server_host.as_str()));
        config.insert("server_port".to_owned(), count_value(self.config.server_port as u64));
        config.insert("frame_host".to_owned(), text_value(self.config.frame_host.as_str()));
        config.insert("frame_port".to_owned(), count_value(self.config.frame_port as u64));
        config.insert("width".to_owned(), count_value(self.config.width as u64));
        config.insert("height".to_owned(), count_value(self.config.height as u64));
        config.insert("device".to_owned(), text_value(self.config.device.as_str()));
        config.insert("assets_path".to_owned(), text_value(self.config.assets_path.as_str()));
        let mut object = JsonObject::new();
        object.insert("event".to_owned(), text_value("runtime:start"));
        object.insert("config".to_owned(), JsonValue::Object(config));
        JsonValue::Object(object)
    }

    /// The event that says that the runtime is ready: where it serves,
    /// where its health can be asked for, and what it has loaded.
    pub open spec fn ready_model(&self, local_addr: Seq<char>) -> JsonModel {
        JsonModel::Object(
            self.load_members().insert("server"@, JsonModel::Str(self.endpoint_text())).insert(
                "health_endpoint"@,
                JsonModel::Str("http://"@ + local_addr + "/healthz"@),
            ).insert("event_stream_transport"@, JsonModel::Str("websocket_stub"@)).insert(
                "event"@,
                JsonModel::Str("runtime:ready"@),
            ),
        )
    }

    /// The event that says that the runtime is ready. `local_addr` is the
    /// address that its listener is bound to.
    pub fn ready_event(&self, local_addr: &str) -> (out: JsonValue)
        ensures
            out@ == self.ready_model(local_addr@),
    {
        let mut health = "http://".to_owned();
        health.append(local_addr);
        health.append("/healthz");
        let mut object = self.load_object();
        object.insert("server".to_owned(), JsonValue::Str(self.server.endpoint()));
        object.insert("health_endpoint".to_owned(), JsonValue::Str(health));
        object.insert("event_stream_transport".to_owned(), text_value("websocket_stub"));
        object.insert("event".to_owned(), text_value("runtime:ready"));
        JsonValue::Object(object)
    }

    /// The event for what fell due at a turn of the loop: a heartbeat says
    /// how long the runtime has run and where it serves, a report of the
    /// metrics how long it has run and what it has loaded. Nothing else
    /// falls due at a turn.
    pub open spec fn due_model(&self, due: RuntimeEvent, uptime: JsonModel) -> Option<JsonModel> {
        match due {
            RuntimeEvent::Heartbeat => Some(
                JsonModel::Object(
                    Map::<Seq<char>, JsonModel>::empty().insert("uptime_seconds"@, uptime).insert(
                        "server"@,
                        JsonModel::Str(self.endpoint_text()),
                    ).insert("event"@, JsonModel::Str("runtime:heartbeat"@)),
                ),
            ),
            RuntimeEvent::MetricsTick => Some(
                JsonModel::Object(
                    self.load_members().insert("uptime_seconds"@, uptime).insert(
                        "event"@,
                        JsonModel::Str("runtime:metrics_tick"@),
                    ),
                ),
            ),
            _ => None,
        }
    }

    /// The event for what fell due at a turn of the loop. `uptime` is the
    /// time for which the runtime has run, in seconds.
    pub fn due_event(&self, due: RuntimeEvent, uptime: JsonValue) -> (out: Option<JsonValue>)
        ensures
            match out {
                Some(event) => self.due_model(due, uptime@) == Some(event@),
                None => self.due_model(due, uptime@) is None,
            },
    {
        match due {
            RuntimeEvent::Heartbeat => {
                let mut object = JsonObject::new();
                object.insert("uptime_seconds".to_owned(), uptime);
                object.insert("server".to_owned(), JsonValue::Str(self.server.endpoint()));
                object.insert("event".to_owned(), text_value("runtime:heartbeat"));
                Some(JsonValue::Object(object))
            },
            RuntimeEvent::MetricsTick => {
                let mut object = self.load_object();
                object.insert("uptime_seconds".to_owned(), uptime);
                object.insert("event".to_owned(), text_value("runtime:metrics_tick"));
                Some(JsonValue::Object(object))
            },
            _ => None,
        }
    }
}

/// The event that says that the runtime could not be built.
pub fn check_failed_event(error: &RuntimeError) -> (out: JsonValue)
    ensures
        out@ == JsonModel::Object(
            Map::<Seq<char>, JsonModel>::empty().insert(
                "event"@,
                JsonModel::Str("runtime:check_failed"@),
            ).insert("error"@, JsonModel::Str(error.message_text())),
        ),
{
    let mut object = JsonObject::new();
    object.insert("event".to_owned(), text_value("runtime:check_failed"));
    object.insert("error".to_owned(), JsonValue::Str(error.message()));
    JsonValue::Object(object)
}

} // verus!
