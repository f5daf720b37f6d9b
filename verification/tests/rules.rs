use frameos::config::{ConfigError, FrameOSConfig, RawFrameOSConfig};
use frameos::discovery::{
    discovery_source_from_cli, DiscoveryError, DiscoverySource, InvalidInput, LoadFailure,
};
use frameos::e2e_cli::{default_e2e_options, join_path, E2eCliOptions};
use frameos::manifests::{
    load_app_manifest, load_app_registry, load_scene_catalog, load_scene_manifest,
    ManifestLoadError,
};
use frameos::metrics::Metrics;
use frameos::models::{
    is_semver_like, AppDescriptor, ModelValidationError, SceneDescriptor, SceneSource,
};
use frameos::parity::{
    load_driver_contract_from_source, load_renderer_contract_from_source, run_parity_check,
    run_parity_check_with_sources, validate_renderer_driver_parity,
    validate_renderer_driver_parity_with_sources, ContractSource, DriverContract,
    DriverSchedulingContract, ParityError, RendererContract, RendererSchedulingContract,
};

fn renderer() -> RendererContract {
    RendererContract {
        api_version: "v1".to_string(),
        supports_layers: true,
        supported_color_formats: vec![
            "rgb888".to_string(),
            "rgb565".to_string(),
            "gray8".to_string(),
            "rgb565".to_string(),
        ],
        max_fps: 30,
        scheduling: RendererSchedulingContract {
            target_fps: 20,
            tick_budget_ms: 50,
            drop_policy: "drop_oldest".to_string(),
        },
    }
}

fn driver() -> DriverContract {
    DriverContract {
        api_version: "v1".to_string(),
        device_kind: "eink".to_string(),
        required_renderer_formats: vec!["rgb888".to_string(), "rgb565".to_string()],
        supports_partial_refresh: true,
        scheduling: DriverSchedulingContract {
            backpressure_policy: "drop".to_string(),
            max_queue_depth: 0,
        },
    }
}

fn failures(renderer: &RendererContract, driver: &DriverContract) -> Vec<String> {
    match validate_renderer_driver_parity(renderer, driver) {
        Err(ParityError::ValidationFailed(messages)) => messages,
        other => panic!("expected broken rules, got {other:?}"),
    }
}

fn scene(id: &str, version: &str, source: SceneSource) -> SceneDescriptor {
    SceneDescriptor {
        id: id.to_string(),
        app_id: "clock".to_string(),
        version: version.to_string(),
        source,
        metadata: Vec::new(),
    }
}

fn app(id: &str, entry_scene: Option<&str>, env: Vec<(&str, &str)>) -> AppDescriptor {
    AppDescriptor {
        id: id.to_string(),
        display_name: "Clock".to_string(),
        executable: "/usr/bin/clock".to_string(),
        entry_scene: entry_scene.map(|name| name.to_string()),
        enabled: true,
        env: env.into_iter().map(|(key, value)| (key.to_string(), value.to_string())).collect(),
    }
}

fn invalid(field: &'static str, reason: &str) -> ModelValidationError {
    ModelValidationError::InvalidField { field, reason: reason.to_string() }
}

#[test]
fn report_lists_the_shared_formats_once_and_in_order() {
    let report = validate_renderer_driver_parity_with_sources(&renderer(), &driver(), "a", "b")
        .expect("contracts should agree");
    assert_eq!(report.shared_formats, vec!["rgb565".to_string(), "rgb888".to_string()]);
    assert_eq!(report.renderer_api_version, "v1");
    assert_eq!(report.driver_api_version, "v1");
    assert_eq!(report.driver_device_kind, "eink");
    assert_eq!((report.renderer_target_fps, report.renderer_tick_budget_ms), (20, 50));
    assert_eq!(report.renderer_drop_policy, "drop_oldest");
    assert_eq!(report.driver_backpressure_policy, "drop");
    assert_eq!(report.driver_max_queue_depth, 0);
    assert_eq!((report.renderer_contract_source.as_str(), report.driver_contract_source.as_str()), ("a", "b"));
}

#[test]
fn versions_have_to_be_there_and_to_agree() {
    let mut blank = renderer();
    blank.api_version = "  ".to_string();
    let mut none = driver();
    none.api_version = String::new();
    assert_eq!(
        failures(&blank, &none),
        vec![
            "renderer api_version must not be empty",
            "driver api_version must not be empty",
            "api version mismatch (renderer=  , driver=)",
        ]
    );
    let mut newer = driver();
    newer.api_version = "v2".to_string();
    assert_eq!(failures(&renderer(), &newer), vec!["api version mismatch (renderer=v1, driver=v2)"]);
}

#[test]
fn renderer_has_to_have_every_format_that_the_driver_needs() {
    let mut poor = renderer();
    poor.supported_color_formats = vec!["gray8".to_string()];
    assert_eq!(
        failures(&poor, &driver()),
        vec!["renderer missing required driver formats: rgb888, rgb565"]
    );
    poor.supported_color_formats = Vec::new();
    let mut modest = driver();
    modest.required_renderer_formats = Vec::new();
    assert_eq!(
        failures(&poor, &modest),
        vec![
            "renderer supported_color_formats must not be empty",
            "driver required_renderer_formats must not be empty",
        ]
    );
}

#[test]
fn partial_refresh_is_for_paper_displays() {
    let mut lcd = driver();
    lcd.device_kind = "lcd".to_string();
    assert_eq!(
        failures(&renderer(), &lcd),
        vec!["partial refresh is only allowed for eink/epd device kinds (got lcd)"]
    );
    lcd.supports_partial_refresh = false;
    assert!(validate_renderer_driver_parity(&renderer(), &lcd).is_ok());
    let mut epd = driver();
    epd.device_kind = "epd".to_string();
    assert!(validate_renderer_driver_parity(&renderer(), &epd).is_ok());
}

#[test]
fn rates_have_to_be_positive_and_to_fit_each_other() {
    let mut still = renderer();
    still.max_fps = 0;
    still.scheduling.target_fps = 0;
    still.scheduling.tick_budget_ms = 0;
    assert_eq!(
        failures(&still, &driver()),
        vec![
            "renderer max_fps must be greater than zero",
            "renderer scheduling.target_fps must be greater than zero",
            "renderer scheduling.tick_budget_ms must be greater than zero",
        ]
    );
    let mut hasty = renderer();
    hasty.scheduling.target_fps = 60;
    hasty.scheduling.tick_budget_ms = 17;
    assert_eq!(
        failures(&hasty, &driver()),
        vec![
            "renderer scheduling.target_fps (60) must be <= max_fps (30)",
            "renderer scheduling.tick_budget_ms (17) exceeds frame budget at target_fps=60 (16ms)",
        ]
    );
    hasty.max_fps = 60;
    hasty.scheduling.tick_budget_ms = 16;
    assert!(validate_renderer_driver_parity(&hasty, &driver()).is_ok());
    let mut slow = renderer();
    slow.scheduling.target_fps = 3;
    slow.scheduling.tick_budget_ms = 334;
    assert_eq!(
        failures(&slow, &driver()),
        vec!["renderer scheduling.tick_budget_ms (334) exceeds frame budget at target_fps=3 (333ms)"]
    );
}

#[test]
fn policies_have_to_be_known_and_to_fit_each_other() {
    let mut odd = renderer();
    odd.scheduling.drop_policy = "shrug".to_string();
    let mut vague = driver();
    vague.scheduling.backpressure_policy = "wait".to_string();
    vague.scheduling.max_queue_depth = 2;
    assert_eq!(
        failures(&odd, &vague),
        vec![
            "renderer scheduling.drop_policy must be one of drop_oldest/drop_newest/block (got shrug)",
            "driver scheduling.backpressure_policy must be one of drop/queue/block (got wait)",
            "driver scheduling.max_queue_depth must be zero unless backpressure_policy=queue",
        ]
    );
    let mut queue = driver();
    queue.scheduling.backpressure_policy = "queue".to_string();
    assert_eq!(
        failures(&renderer(), &queue),
        vec!["driver scheduling.max_queue_depth must be greater than zero when backpressure_policy=queue"]
    );
    queue.scheduling.max_queue_depth = 4;
    assert!(validate_renderer_driver_parity(&renderer(), &queue).is_ok());
    let mut blocking = renderer();
    blocking.scheduling.drop_policy = "block".to_string();
    assert_eq!(
        failures(&blocking, &driver()),
        vec!["driver backpressure_policy=drop requires renderer drop_policy to be drop_oldest or drop_newest"]
    );
}

#[test]
fn parity_errors_are_written_as_sentences() {
    assert_eq!(
        ParityError::ValidationFailed(vec!["one".to_string(), "two".to_string()]).message(),
        "parity validation failed: one; two"
    );
    assert_eq!(
        ParityError::ReadFailed("r.json".to_string(), "gone".to_string()).message(),
        "failed to read parity contract r.json: gone"
    );
    assert_eq!(
        ParityError::ParseFailed("r.json".to_string(), "no json".to_string()).message(),
        "failed to parse parity contract r.json: no json"
    );
    assert_eq!(
        ParityError::DiscoveryFailed("nothing there".to_string()).message(),
        "failed to load discovered parity contract: nothing there"
    );
}

#[test]
fn contract_that_could_not_be_loaded_fails_the_check_by_its_source() {
    let file = ContractSource::FixtureFile("renderer.json".to_string());
    assert_eq!(
        load_renderer_contract_from_source(&file, Err(LoadFailure::Read("gone".to_string()))),
        Err(ParityError::ReadFailed("renderer.json".to_string(), "gone".to_string()))
    );
    assert_eq!(
        load_driver_contract_from_source(&file, Err(LoadFailure::Parse("no json".to_string()))),
        Err(ParityError::ParseFailed("renderer.json".to_string(), "no json".to_string()))
    );
    let inline = ContractSource::Discovery(DiscoverySource::InlineJson("{".to_string()));
    assert_eq!(
        load_renderer_contract_from_source(&inline, Err(LoadFailure::Parse("eof".to_string()))),
        Err(ParityError::DiscoveryFailed(
            "failed to parse discovery payload inline-json: eof".to_string()
        ))
    );
    let found = ContractSource::Discovery(DiscoverySource::File("/run/d.json".to_string()));
    assert_eq!(
        load_driver_contract_from_source(&found, Err(LoadFailure::Read("gone".to_string()))),
        Err(ParityError::DiscoveryFailed(
            "failed to read discovery payload /run/d.json: gone".to_string()
        ))
    );
    assert_eq!(load_renderer_contract_from_source(&file, Ok(renderer())), Ok(renderer()));
    assert_eq!(load_driver_contract_from_source(&file, Ok(driver())), Ok(driver()));
}

#[test]
fn check_names_the_kind_of_each_source_in_its_report() {
    let report = run_parity_check("r.json", "d.json", Ok(renderer()), Ok(driver()))
        .expect("contracts should agree");
    assert_eq!(report.renderer_contract_source, "fixture");
    assert_eq!(report.driver_contract_source, "fixture");
    let found = ContractSource::Discovery(DiscoverySource::InlineJson("{}".to_string()));
    let file = ContractSource::FixtureFile("d.json".to_string());
    let report = run_parity_check_with_sources(&found, &file, Ok(renderer()), Ok(driver()))
        .expect("contracts should agree");
    assert_eq!(report.renderer_contract_source, "discovered");
    assert_eq!(report.driver_contract_source, "fixture");
    assert_eq!(found.source_kind(), "discovered");
    assert_eq!(found.source_label(), "discovery-inline:sha1:bf21a9e8fbc5:len:2");
    assert_eq!(file.source_kind(), "fixture");
    assert_eq!(file.source_label(), "fixture:d.json");
}

#[test]
fn check_fails_with_the_first_contract_that_could_not_be_loaded() {
    assert_eq!(
        run_parity_check(
            "r.json",
            "d.json",
            Err(LoadFailure::Read("gone".to_string())),
            Err(LoadFailure::Parse("junk".to_string()))
        ),
        Err(ParityError::ReadFailed("r.json".to_string(), "gone".to_string()))
    );
    assert_eq!(
        run_parity_check("r.json", "d.json", Ok(renderer()), Err(LoadFailure::Parse("junk".to_string()))),
        Err(ParityError::ParseFailed("d.json".to_string(), "junk".to_string()))
    );
}

#[test]
fn discovery_source_is_a_file_or_a_payload_and_never_both() {
    assert_eq!(
        discovery_source_from_cli(Some("/run/d.json"), None, "--file", "--json"),
        Ok(DiscoverySource::File("/run/d.json".to_string()))
    );
    assert_eq!(
        discovery_source_from_cli(None, Some("{}"), "--file", "--json"),
        Ok(DiscoverySource::InlineJson("{}".to_string()))
    );
    assert_eq!(
        discovery_source_from_cli(Some("a"), Some("{}"), "--file", "--json"),
        Err(InvalidInput { message: "--file and --json are mutually exclusive".to_string() })
    );
    assert_eq!(
        discovery_source_from_cli(None, None, "--file", "--json"),
        Err(InvalidInput { message: "one of --file or --json is required".to_string() })
    );
}

#[test]
fn discovery_label_names_a_payload_by_digest_and_length() {
    assert_eq!(
        DiscoverySource::File("/run/d.json".to_string()).source_label(),
        "discovery-file:/run/d.json"
    );
    assert_eq!(
        DiscoverySource::InlineJson(String::new()).source_label(),
        "discovery-inline:sha1:da39a3ee5e6b:len:0"
    );
    assert_eq!(
        DiscoverySource::InlineJson("{\"é\":1}".to_string()).source_label(),
        "discovery-inline:sha1:262d840b1a03:len:8"
    );
    assert_eq!(DiscoverySource::File(String::new()).source_kind(), "discovered");
}

#[test]
fn discovery_errors_are_written_as_sentences() {
    let file = DiscoverySource::File("/run/d.json".to_string());
    let read = DiscoveryError::from_failure(&file, LoadFailure::Read("gone".to_string()));
    assert_eq!(read, DiscoveryError::ReadFailed("/run/d.json".to_string(), "gone".to_string()));
    assert_eq!(read.message(), "failed to read discovery payload /run/d.json: gone");
    let inline = DiscoverySource::InlineJson("{".to_string());
    let parse = DiscoveryError::from_failure(&inline, LoadFailure::Parse("eof".to_string()));
    assert_eq!(parse, DiscoveryError::ParseFailed("inline-json".to_string(), "eof".to_string()));
    assert_eq!(parse.message(), "failed to parse discovery payload inline-json: eof");
}

#[test]
fn versions_are_three_numbers_between_points() {
    for good in ["1.0.0", "0.0.0", "10.20.30", "007.1.2"] {
        assert!(is_semver_like(good), "version {good:?}");
    }
    for bad in ["", "1", "1.0", "1.0.0.0", "v1.0.0", "1..0", "1.0.", ".1.0", "1.0.x", "1.0.-1", "1.0.0 ", "1.０.0"] {
        assert!(!is_semver_like(bad), "version {bad:?}");
    }
}

#[test]
fn scene_is_checked_field_by_field() {
    let good = scene("clock/default", "1.2.3", SceneSource::InlineJson);
    assert_eq!(good.validate(), Ok(()));
    assert_eq!(
        scene(" ", "1.2.3", SceneSource::InlineJson).validate(),
        Err(ModelValidationError::MissingField("id"))
    );
    let mut homeless = good.clone();
    homeless.app_id = "\t".to_string();
    assert_eq!(homeless.validate(), Err(ModelValidationError::MissingField("app_id")));
    assert_eq!(
        scene("a", "", SceneSource::InlineJson).validate(),
        Err(ModelValidationError::MissingField("version"))
    );
    assert_eq!(
        scene("a", "1.2", SceneSource::InlineJson).validate(),
        Err(invalid("version", "must match major.minor.patch using numeric segments"))
    );
}

#[test]
fn scene_source_has_to_say_where_the_scene_is() {
    let at = |source: SceneSource| scene("a", "1.0.0", source).validate();
    assert_eq!(at(SceneSource::AssetPath { path: "/srv/a.json".to_string() }), Ok(()));
    assert_eq!(
        at(SceneSource::AssetPath { path: " ".to_string() }),
        Err(ModelValidationError::MissingField("source.path"))
    );
    assert_eq!(
        at(SceneSource::AssetPath { path: "srv/a.json".to_string() }),
        Err(invalid("source.path", "asset path must be absolute"))
    );
    assert_eq!(at(SceneSource::RemoteUrl { url: "https://example.com/a".to_string() }), Ok(()));
    assert_eq!(at(SceneSource::RemoteUrl { url: "http://example.com/a".to_string() }), Ok(()));
    assert_eq!(
        at(SceneSource::RemoteUrl { url: String::new() }),
        Err(ModelValidationError::MissingField("source.url"))
    );
    assert_eq!(
        at(SceneSource::RemoteUrl { url: "ftp://example.com/a".to_string() }),
        Err(invalid("source.url", "remote url must start with http:// or https://"))
    );
}

#[test]
fn app_is_checked_field_by_field() {
    assert_eq!(app("clock", Some("clock/default"), vec![("TZ", "UTC")]).validate(), Ok(()));
    assert_eq!(app("clock", None, vec![]).validate(), Ok(()));
    assert_eq!(app("", None, vec![]).validate(), Err(ModelValidationError::MissingField("id")));
    let mut idle = app("clock", None, vec![]);
    idle.executable = "  ".to_string();
    assert_eq!(idle.validate(), Err(ModelValidationError::MissingField("executable")));
    assert_eq!(
        app("clock", Some(" "), vec![]).validate(),
        Err(invalid("entry_scene", "entry scene cannot be blank when provided"))
    );
    assert_eq!(
        app("clock", None, vec![("TZ", "UTC"), (" ", "x")]).validate(),
        Err(invalid("env", "environment variable keys cannot be blank"))
    );
}

#[test]
fn model_errors_are_written_as_sentences() {
    assert_eq!(ModelValidationError::MissingField("id").message(), "missing required field: id");
    assert_eq!(
        invalid("version", "must be numbers").message(),
        "invalid field `version`: must be numbers"
    );
}

#[test]
fn manifest_is_accepted_only_as_a_whole() {
    let scenes = vec![
        scene("a", "1.0.0", SceneSource::InlineJson),
        scene("b", "2.0", SceneSource::InlineJson),
        scene("", "3.0.0", SceneSource::InlineJson),
    ];
    let error = ManifestLoadError::Validation {
        manifest: "scene",
        index: 1,
        source: invalid("version", "must match major.minor.patch using numeric segments"),
    };
    assert_eq!(load_scene_manifest(scenes.clone()), Err(error.clone()));
    assert_eq!(load_scene_catalog(scenes).err(), Some(error.clone()));
    assert_eq!(
        error.message(),
        "invalid scene entry at index 1: invalid field `version`: must match major.minor.patch using numeric segments"
    );
    let good = vec![scene("a", "1.0.0", SceneSource::InlineJson)];
    assert_eq!(load_scene_manifest(good.clone()), Ok(good.clone()));
    assert_eq!(load_scene_catalog(good.clone()).expect("catalog").scenes(), good.as_slice());
    assert_eq!(load_scene_manifest(Vec::new()), Ok(Vec::new()));
}

#[test]
fn app_manifest_names_the_first_app_that_breaks_a_rule() {
    let apps = vec![app("clock", None, vec![]), app("", None, vec![]), app(" ", None, vec![])];
    let error = ManifestLoadError::Validation {
        manifest: "app",
        index: 1,
        source: ModelValidationError::MissingField("id"),
    };
    assert_eq!(load_app_manifest(apps.clone()), Err(error.clone()));
    assert_eq!(load_app_registry(apps).err(), Some(error.clone()));
    assert_eq!(error.message(), "invalid app entry at index 1: missing required field: id");
    let good = vec![app("clock", None, vec![])];
    assert_eq!(load_app_manifest(good.clone()), Ok(good.clone()));
    assert_eq!(load_app_registry(good.clone()).expect("registry").apps(), good.as_slice());
}

#[test]
fn manifest_errors_of_reading_are_written_as_sentences() {
    assert_eq!(
        ManifestLoadError::Io { path: "/m.json".to_string(), source: "gone".to_string() }.message(),
        "failed to read manifest /m.json: gone"
    );
    assert_eq!(
        ManifestLoadError::Parse { path: "/m.json".to_string(), source: "junk".to_string() }.message(),
        "failed to parse manifest /m.json: junk"
    );
}

#[test]
fn configuration_has_its_defaults() {
    let config = FrameOSConfig::default();
    assert_eq!(config.name, "");
    assert_eq!(config.mode, "rpios");
    assert_eq!((config.server_host.as_str(), config.server_port), ("", 8989));
    assert_eq!((config.frame_host.as_str(), config.frame_port), ("localhost", 8787));
    assert_eq!(config.frame_access, "private");
    assert_eq!((config.width, config.height), (1920, 1080));
    assert_eq!(config.device, "web_only");
    assert_eq!(config.metrics_interval_seconds, 60);
    assert_eq!((config.rotate, config.flip.as_str()), (0, ""));
    assert_eq!(config.scaling_mode, "cover");
    assert_eq!(config.assets_path, "/srv/assets");
    assert_eq!(config.log_to_file, None);
    assert!(!config.debug);
    assert_eq!(config.time_zone, "UTC");
    assert_eq!(config.validate(), Ok(()));
}

#[test]
fn file_overrides_what_it_sets_and_keeps_the_rest() {
    let mut config = FrameOSConfig::default();
    config.apply_raw(RawFrameOSConfig {
        server_port: Some(9000),
        width: Some(800),
        metrics_interval: Some(5),
        rotate: Some(-90),
        log_to_file: Some("/var/log/frame.jsonl".to_string()),
        debug: Some(true),
        time_zone: Some("Europe/Brussels".to_string()),
        ..RawFrameOSConfig::default()
    });
    assert_eq!((config.server_port, config.frame_port), (9000, 8787));
    assert_eq!((config.width, config.height), (800, 1080));
    assert_eq!(config.metrics_interval_seconds, 5);
    assert_eq!(config.rotate, -90);
    assert_eq!(config.log_to_file, Some("/var/log/frame.jsonl".to_string()));
    assert!(config.debug);
    assert_eq!(config.time_zone, "Europe/Brussels");
    assert_eq!(config.mode, "rpios");
    config.apply_raw(RawFrameOSConfig::default());
    assert_eq!(config.log_to_file, Some("/var/log/frame.jsonl".to_string()));
    assert_eq!(config.server_port, 9000);
}

#[test]
fn frame_without_a_name_is_named_after_its_host() {
    let mut config = FrameOSConfig::default();
    config.apply_raw(RawFrameOSConfig {
        frame_host: Some("kitchen.local".to_string()),
        ..RawFrameOSConfig::default()
    });
    assert_eq!(config.name, "kitchen.local");
    config.apply_raw(RawFrameOSConfig {
        frame_host: Some("hall.local".to_string()),
        ..RawFrameOSConfig::default()
    });
    assert_eq!(config.name, "kitchen.local");
    config.apply_raw(RawFrameOSConfig {
        name: Some(String::new()),
        ..RawFrameOSConfig::default()
    });
    assert_eq!(config.name, "hall.local");
    config.apply_raw(RawFrameOSConfig {
        name: Some("Hall".to_string()),
        ..RawFrameOSConfig::default()
    });
    assert_eq!(config.name, "Hall");
}

#[test]
fn configuration_is_checked_rule_by_rule() {
    let failed = |message: &str| Err(ConfigError::ValidationFailed(message.to_string()));
    let mut config = FrameOSConfig::default();
    config.height = 0;
    config.frame_port = 0;
    config.assets_path = "assets".to_string();
    assert_eq!(config.validate(), failed("width and height must be positive"));
    config.height = 1;
    assert_eq!(config.validate(), failed("server_port and frame_port must be positive"));
    config.frame_port = 1;
    assert_eq!(config.validate(), failed("assets_path must be an absolute path"));
    config.assets_path = String::new();
    assert_eq!(config.validate(), failed("assets_path must be an absolute path"));
    config.assets_path = "/".to_string();
    assert_eq!(config.validate(), Ok(()));
    config.width = 0;
    assert_eq!(config.validate(), failed("width and height must be positive"));
    config.width = 1;
    config.server_port = 0;
    assert_eq!(config.validate(), failed("server_port and frame_port must be positive"));
}

#[test]
fn configuration_errors_are_written_as_sentences() {
    assert_eq!(
        ConfigError::MissingConfig("/etc/frame.json".to_string()).message(),
        "config file not found: /etc/frame.json"
    );
    assert_eq!(
        ConfigError::ReadFailed("/etc/frame.json".to_string(), "denied".to_string()).message(),
        "failed to read config file /etc/frame.json: denied"
    );
    assert_eq!(
        ConfigError::ParseFailed("/etc/frame.json".to_string(), "junk".to_string()).message(),
        "failed to parse config file /etc/frame.json: junk"
    );
    assert_eq!(
        ConfigError::ValidationFailed("width and height must be positive".to_string()).message(),
        "invalid config: width and height must be positive"
    );
}

#[test]
fn metrics_take_their_interval_from_the_configuration() {
    let mut config = FrameOSConfig::default();
    config.metrics_interval_seconds = 15;
    assert_eq!(Metrics::from_config(&config).interval_seconds(), 15);
    config.metrics_interval_seconds = 0;
    assert_eq!(Metrics::from_config(&config).interval_seconds(), 0);
}

#[test]
fn snapshot_check_looks_below_the_repository_by_default() {
    assert_eq!(
        default_e2e_options("/work/frameos"),
        E2eCliOptions {
            scenes_dir: "/work/frameos/e2e/scenes".to_string(),
            snapshots_dir: "/work/frameos/e2e/snapshots".to_string(),
            assets_dir: "/work/frameos/e2e/assets".to_string(),
            output_dir: "/work/frameos/e2e/rust-output".to_string(),
        }
    );
    assert_eq!(default_e2e_options("/").scenes_dir, "/e2e/scenes");
    assert_eq!(default_e2e_options("").output_dir, "e2e/rust-output");
    assert_eq!(join_path("a/", "b"), "a/b");
    assert_eq!(join_path("a", "b"), "a/b");
}

#[test]
fn parity_events_show_the_report_or_the_failure() {
    let report = validate_renderer_driver_parity(&renderer(), &driver()).expect("contracts agree");
    assert_eq!(
        frameos::json::to_text(&frameos::parity::parity_ok_event(&report)),
        [
            r#"{"driver_api_version":"v1","driver_backpressure_policy":"drop","driver_contract_source":"fixture","#,
            r#""driver_device_kind":"eink","driver_max_queue_depth":0,"event":"runtime:parity_ok","#,
            r#""renderer_api_version":"v1","renderer_contract_source":"fixture","renderer_drop_policy":"drop_oldest","#,
            r#""renderer_target_fps":20,"renderer_tick_budget_ms":50,"shared_formats":["rgb565","rgb888"]}"#,
        ]
        .join("")
    );
    let error = ParityError::ValidationFailed(vec!["one".to_string(), "two".to_string()]);
    let file = ContractSource::FixtureFile("r.json".to_string());
    let inline = ContractSource::Discovery(DiscoverySource::InlineJson("{}".to_string()));
    assert_eq!(
        frameos::json::to_text(&frameos::parity::parity_failed_event(&error, 12, &file, &inline)),
        [
            r#"{"driver_contract_source":"discovered","driver_source_label":"discovery-inline:sha1:bf21a9e8fbc5:len:2","#,
            r#""duration_ms":12,"error":"parity validation failed: one; two","event":"runtime:parity_failed","#,
            r#""renderer_contract_source":"fixture","renderer_source_label":"fixture:r.json"}"#,
        ]
        .join("")
    );
}

#[test]
fn what_starts_from_nothing_holds_nothing() {
    assert!(frameos::scenes::SceneCatalog::default().scenes().is_empty());
    assert!(frameos::apps::AppRegistry::default().apps().is_empty());
    assert!(frameos::logging::MemoryJsonLineSink::default().lines().is_empty());
    let raw = RawFrameOSConfig::default();
    assert!(raw.name.is_none() && raw.server_port.is_none() && raw.log_to_file.is_none());
    assert!(raw.debug.is_none() && raw.time_zone.is_none() && raw.metrics_interval.is_none());
}
