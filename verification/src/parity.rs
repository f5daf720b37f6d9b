//! The rules that a renderer's contract and a driver's contract have to
//! meet together before the two may be paired.

use vstd::prelude::*;
use crate::discovery::{discovery_failure_text, discovery_label, DiscoveryError, DiscoverySource,
    DiscoverySourceModel, LoadFailure};
use crate::text::{contains_text, decimal_text, insert_sorted_unique, is_blank, join, joined,
    same_text, starts_with, str_is_blank, strictly_sorted, texts, u64_to_text};
use crate::json::{JsonModel, JsonNumber, JsonObject, JsonValue, NumberModel};

verus! {

#[derive(Debug, Clone, PartialEq, Eq)]
pub struct RendererContract {
    pub api_version: String,
    pub supports_layers: bool,
    pub supported_color_formats: Vec<String>,
    pub max_fps: u32,
    pub scheduling: RendererSchedulingContract,
}

#[derive(Debug, Clone, PartialEq, Eq)]
pub struct RendererSchedulingContract {
    pub target_fps: u32,
    pub tick_budget_ms: u32,
    pub drop_policy: String,
}

#[derive(Debug, Clone, PartialEq, Eq)]
pub struct DriverContract {
    pub api_version: String,
    pub device_kind: String,
    pub required_renderer_formats: Vec<String>,
    pub supports_partial_refresh: bool,
    pub scheduling: DriverSchedulingContract,
}

#[derive(Debug, Clone, PartialEq, Eq)]
pub struct DriverSchedulingContract {
    pub backpressure_policy: String,
    pub max_queue_depth: u32,
}

/// Where a contract was taken from.
#[derive(Debug, Clone, PartialEq, Eq)]
pub enum ContractSource {
    FixtureFile(String),
    Discovery(DiscoverySource),
}

/// The model of a [`ContractSource`].
pub ghost enum ContractSourceModel {
    FixtureFile(Seq<char>),
    Discovery(DiscoverySourceModel),
}

impl View for ContractSource {
    type V = ContractSourceModel;

    open spec fn view(&self) -> ContractSourceModel {
        match self {
            ContractSource::FixtureFile(path) => ContractSourceModel::FixtureFile(path@),
            ContractSource::Discovery(inner) => ContractSourceModel::Discovery(inner@),
        }
    }
}

/// The label of a contract source: a fixture by its path, a discovery
/// source by its own label.
pub open spec fn contract_label(source: ContractSourceModel) -> Seq<char> {
    match source {
        ContractSourceModel::FixtureFile(path) => "fixture:"@ + path,
        ContractSourceModel::Discovery(inner) => discovery_label(inner),
    }
}

/// The kind of a source: `fixture` for a file, `discovered` for a discovery source.
pub open spec fn kind_of(source: ContractSourceModel) -> Seq<char> {
    match source {
        ContractSourceModel::FixtureFile(_) => "fixture"@,
        ContractSourceModel::Discovery(_) => "discovered"@,
    }
}

impl ContractSource {
    /// `fixture` for a file, `discovered` for a discovery source.
    pub fn source_kind(&self) -> (out: &'static str)
        ensures
            out@ == kind_of(self@),
    {
        match self {
            ContractSource::FixtureFile(_) => "fixture",
            ContractSource::Discovery(_) => "discovered",
        }
    }

    /// A short text that tells one source from another.
    pub fn source_label(&self) -> (out: String)
        ensures
            out@ == contract_label(self@),
    {
        match self {
            ContractSource::FixtureFile(path) => {
                let mut out = "fixture:".to_owned();
                out.append(path.as_str());
                out
            },
            ContractSource::Discovery(source) => source.source_label(),
        }
    }
}

/// What a pair of contracts that passed every rule has in common.
#[derive(Debug, Clone, PartialEq, Eq)]
pub struct ParityReport {
    pub renderer_api_version: String,
    pub driver_api_version: String,
    pub shared_formats: Vec<String>,
    pub driver_device_kind: String,
    pub renderer_target_fps: u32,
    pub renderer_tick_budget_ms: u32,
    pub renderer_drop_policy: String,
    pub driver_backpressure_policy: String,
    pub driver_max_queue_depth: u32,
    pub renderer_contract_source: String,
    pub driver_contract_source: String,
}

/// Why a parity check did not pass.
#[derive(Debug, Clone, PartialEq, Eq)]
pub enum ParityError {
    /// A contract file could not be read: its path, and why.
    ReadFailed(String, String),
    /// A contract was read and is not a contract: where it came from, and why.
    ParseFailed(String, String),
    DiscoveryFailed(String),
    /// The contracts were read and break these rules.
    ValidationFailed(Vec<String>),
}

/// The model of a [`ParityError`].
pub ghost enum ParityFault {
    ReadFailed(Seq<char>, Seq<char>),
    ParseFailed(Seq<char>, Seq<char>),
    DiscoveryFailed(Seq<char>),
    ValidationFailed(Seq<Seq<char>>),
}

impl View for ParityError {
    type V = ParityFault;

    open spec fn view(&self) -> ParityFault {
        match self {
            ParityError::ReadFailed(path, why) => ParityFault::ReadFailed(path@, why@),
            ParityError::ParseFailed(place, why) => ParityFault::ParseFailed(place@, why@),
            ParityError::DiscoveryFailed(details) => ParityFault::DiscoveryFailed(details@),
            ParityError::ValidationFailed(messages) => ParityFault::ValidationFailed(
                texts(messages@),
            ),
        }
    }
}

impl ParityError {
    /// The sentence that [`ParityError::message`] writes.
    pub open spec fn message_text(fault: ParityFault) -> Seq<char> {
        match fault {
            ParityFault::ReadFailed(path, why) => "failed to read parity contract "@ + path + ": "@
                + why,
            ParityFault::ParseFailed(place, why) => "failed to parse parity contract "@ + place
                + ": "@ + why,
            ParityFault::DiscoveryFailed(details) =>
                "failed to load discovered parity contract: "@ + details,
            ParityFault::ValidationFailed(messages) => "parity validation failed: "@ + joined(
                messages,
                "; "@,
            ),
        }
    }

    /// The error as a sentence.
    pub fn message(&self) -> (out: String)
        ensures
            out@ == Self::message_text(self@),
    {
        match self {
            ParityError::ReadFailed(path, why) => cat4(
                "failed to read parity contract ",
                path.as_str(),
                ": ",
                why.as_str(),
            ),
            ParityError::ParseFailed(place, why) => cat4(
                "failed to parse parity contract ",
                place.as_str(),
                ": ",
                why.as_str(),
            ),
            ParityError::DiscoveryFailed(details) => cat2(
                "failed to load discovered parity contract: ",
                details.as_str(),
            ),
            ParityError::ValidationFailed(messages) => {
                let list = join(messages, "; ");
                cat2("parity validation failed: ", list.as_str())
            },
        }
    }
}

fn cat2(a: &str, b: &str) -> (out: String)
    ensures
        out@ == a@ + b@,
{
    let mut out = a.to_owned();
    out.append(b);
    out
}

fn cat3(a: &str, b: &str, c: &str) -> (out: String)
    ensures
        out@ == a@ + b@ + c@,
{
    let mut out = cat2(a, b);
    out.append(c);
    out
}

fn cat4(a: &str, b: &str, c: &str, d: &str) -> (out: String)
    ensures
        out@ == a@ + b@ + c@ + d@,
{
    let mut out = cat3(a, b, c);
    out.append(d);
    out
}

fn cat5(a: &str, b: &str, c: &str, d: &str, e: &str) -> (out: String)
    ensures
        out@ == a@ + b@ + c@ + d@ + e@,
{
    let mut out = cat4(a, b, c, d);
    out.append(e);
    out
}

fn cat7(a: &str, b: &str, c: &str, d: &str, e: &str, f: &str, g: &str) -> (out: String)
    ensures
        out@ == a@ + b@ + c@ + d@ + e@ + f@ + g@,
{
    let mut out = cat5(a, b, c, d, e);
    out.append(f);
    out.append(g);
    out
}

/// One message where the rule is broken, none where it is kept.
pub open spec fn when(broken: bool, message: Seq<char>) -> Seq<Seq<char>> {
    if broken {
        seq![message]
    } else {
        Seq::empty()
    }
}

/// The formats that the driver requires and the renderer does not offer, in
/// the driver's order.
pub open spec fn missing_formats(renderer: &RendererContract, driver: &DriverContract) -> Seq<
    Seq<char>,
> {
    texts(driver.required_renderer_formats@).filter(
        |f: Seq<char>| !texts(renderer.supported_color_formats@).contains(f),
    )
}

/// The milliseconds that one frame may take at `target_fps` frames a second.
pub open spec fn frame_budget_ms(target_fps: int) -> int {
    1000int / target_fps
}

/// The rules on the two API versions, each by its message where it is broken.
pub open spec fn version_faults(renderer: &RendererContract, driver: &DriverContract) -> Seq<
    Seq<char>,
> {
    let r_api = renderer.api_version@;
    let d_api = driver.api_version@;
    when(is_blank(r_api), "renderer api_version must not be empty"@) + when(
        is_blank(d_api),
        "driver api_version must not be empty"@,
    ) + when(
        r_api != d_api,
        "api version mismatch (renderer="@ + r_api + ", driver="@ + d_api + ")"@,
    )
}

/// The rules on colour formats and on partial refresh.
pub open spec fn format_faults(renderer: &RendererContract, driver: &DriverContract) -> Seq<
    Seq<char>,
> {
    let missing = missing_formats(renderer, driver);
    let kind = driver.device_kind@;
    when(
        renderer.supported_color_formats@.len() == 0,
        "renderer supported_color_formats must not be empty"@,
    ) + when(
        driver.required_renderer_formats@.len() == 0,
        "driver required_renderer_formats must not be empty"@,
    ) + when(
        missing.len() > 0,
        "renderer missing required driver formats: "@ + joined(missing, ", "@),
    ) + when(
        driver.supports_partial_refresh && !(kind == "eink"@ || kind == "epd"@),
        "partial refresh is only allowed for eink/epd device kinds (got "@ + kind + ")"@,
    )
}

/// The rules on the renderer's frame rates and tick budget.
pub open spec fn rate_faults(renderer: &RendererContract) -> Seq<Seq<char>> {
    let max_fps = renderer.max_fps as nat;
    let target = renderer.scheduling.target_fps as nat;
    let tick = renderer.scheduling.tick_budget_ms as nat;
    when(max_fps == 0, "renderer max_fps must be greater than zero"@) + when(
        target == 0,
        "renderer scheduling.target_fps must be greater than zero"@,
    ) + when(tick == 0, "renderer scheduling.tick_budget_ms must be greater than zero"@) + when(
        target > max_fps,
        "renderer scheduling.target_fps ("@ + decimal_text(target) + ") must be <= max_fps ("@
            + decimal_text(max_fps) + ")"@,
    ) + when(
        target > 0 && tick > frame_budget_ms(target as int),
        "renderer scheduling.tick_budget_ms ("@ + decimal_text(tick)
            + ") exceeds frame budget at target_fps="@ + decimal_text(target) + " ("@
            + decimal_text(frame_budget_ms(target as int) as nat) + "ms)"@,
    )
}

/// The rules on the two scheduling policies.
pub open spec fn policy_faults(renderer: &RendererContract, driver: &DriverContract) -> Seq<
    Seq<char>,
> {
    let drop_policy = renderer.scheduling.drop_policy@;
    let backpressure = driver.scheduling.backpressure_policy@;
    let depth = driver.scheduling.max_queue_depth;
    when(
        !(drop_policy == "drop_oldest"@ || drop_policy == "drop_newest"@ || drop_policy
            == "block"@),
        "renderer scheduling.drop_policy must be one of drop_oldest/drop_newest/block (got "@
            + drop_policy + ")"@,
    ) + when(
        !(backpressure == "drop"@ || backpressure == "queue"@ || backpressure == "block"@),
        "driver scheduling.backpressure_policy must be one of drop/queue/block (got "@
            + backpressure + ")"@,
    ) + when(
        backpressure == "queue"@ && depth == 0,
        "driver scheduling.max_queue_depth must be greater than zero when backpressure_policy=queue"@,
    ) + when(
        backpressure != "queue"@ && depth != 0,
        "driver scheduling.max_queue_depth must be zero unless backpressure_policy=queue"@,
    ) + when(
        backpressure == "drop"@ && !"drop_"@.is_prefix_of(drop_policy),
        "driver backpressure_policy=drop requires renderer drop_policy to be drop_oldest or drop_newest"@,
    )
}

/// Every rule that the two contracts break, each by its message, in the
/// order in which the rules are tried: versions, formats, rates, policies.
pub open spec fn parity_faults(renderer: &RendererContract, driver: &DriverContract) -> Seq<
    Seq<char>,
> {
    version_faults(renderer, driver) + format_faults(renderer, driver) + rate_faults(renderer)
        + policy_faults(renderer, driver)
}

/// What the report of a passing pair holds: the contracts' own values, the
/// names of the two sources, and the formats that both sides name, sorted
/// and each once.
pub open spec fn report_of(
    report: &ParityReport,
    renderer: &RendererContract,
    driver: &DriverContract,
    renderer_source: Seq<char>,
    driver_source: Seq<char>,
) -> bool {
    &&& report.renderer_api_version@ == renderer.api_version@
    &&& report.driver_api_version@ == driver.api_version@
    &&& report.driver_device_kind@ == driver.device_kind@
    &&& report.renderer_target_fps == renderer.scheduling.target_fps
    &&& report.renderer_tick_budget_ms == renderer.scheduling.tick_budget_ms
    &&& report.renderer_drop_policy@ == renderer.scheduling.drop_policy@
    &&& report.driver_backpressure_policy@ == driver.scheduling.backpressure_policy@
    &&& report.driver_max_queue_depth == driver.scheduling.max_queue_depth
    &&& report.renderer_contract_source@ == renderer_source
    &&& report.driver_contract_source@ == driver_source
    &&& strictly_sorted(texts(report.shared_formats@))
    &&& forall|f: Seq<char>| #[trigger]
        texts(report.shared_formats@).contains(f) <==> (texts(
            renderer.supported_color_formats@,
        ).contains(f) && texts(driver.required_renderer_formats@).contains(f))
}

/// The outcome of a validation: a report of the pair where no rule is
/// broken, else every broken rule.
pub open spec fn parity_outcome(
    out: Result<ParityReport, ParityError>,
    renderer: &RendererContract,
    driver: &DriverContract,
    renderer_source: Seq<char>,
    driver_source: Seq<char>,
) -> bool {
    match out {
        Ok(report) => parity_faults(renderer, driver).len() == 0 && report_of(
            &report,
            renderer,
            driver,
            renderer_source,
            driver_source,
        ),
        Err(e) => parity_faults(renderer, driver).len() > 0 && e@ == ParityFault::ValidationFailed(
            parity_faults(renderer, driver),
        ),
    }
}

fn note(errors: &mut Vec<String>, broken: bool, message: String)
    ensures
        texts(final(errors)@) == texts(old(errors)@) + when(broken, message@),
{
    if broken {
        errors.push(message);
    }
}

fn missing_formats_of(renderer: &RendererContract, driver: &DriverContract) -> (out: Vec<String>)
    ensures
        texts(out@) == missing_formats(renderer, driver),
{
    let required = &driver.required_renderer_formats;
    let ghost absent = |f: Seq<char>| !texts(renderer.supported_color_formats@).contains(f);
    let mut out: Vec<String> = Vec::new();
    let mut i: usize = 0;
    while i < required.len()
        invariant
            i <= required.len(),
            required == &driver.required_renderer_formats,
            absent == |f: Seq<char>| !texts(renderer.supported_color_formats@).contains(f),
            texts(out@) == texts(required@).take(i as int).filter(absent),
        decreases required.len() - i,
    {
        proof {
            let t = texts(required@);
            assert(t.take(i + 1) == t.take(i as int).push(t[i as int]));
            Seq::lemma_filter_push(t.take(i as int), t[i as int], absent);
        }
        if !contains_text(&renderer.supported_color_formats, required[i].as_str()) {
            let item = required[i].clone();
            out.push(item);
        }
        i += 1;
    }
    assert(texts(required@).take(required.len() as int) == texts(required@));
    out
}

fn shared_formats_of(renderer: &RendererContract, driver: &DriverContract) -> (out: Vec<String>)
    ensures
        strictly_sorted(texts(out@)),
        forall|f: Seq<char>| #[trigger]
            texts(out@).contains(f) <==> (texts(renderer.supported_color_formats@).contains(f)
                && texts(driver.required_renderer_formats@).contains(f)),
{
    let supported = &renderer.supported_color_formats;
    let mut out: Vec<String> = Vec::new();
    let mut i: usize = 0;
    while i < supported.len()
        invariant
            i <= supported.len(),
            supported == &renderer.supported_color_formats,
            strictly_sorted(texts(out@)),
            forall|f: Seq<char>| #[trigger]
                texts(out@).contains(f) <==> (texts(supported@).take(i as int).contains(f)
                    && texts(driver.required_renderer_formats@).contains(f)),
        decreases supported.len() - i,
    {
        let ghost t = texts(supported@);
        if contains_text(&driver.required_renderer_formats, supported[i].as_str()) {
            insert_sorted_unique(&mut out, supported[i].clone());
        }
        proof {
            assert forall|f: Seq<char>| #[trigger]
                texts(out@).contains(f) <==> (t.take(i + 1).contains(f) && texts(
                    driver.required_renderer_formats@,
                ).contains(f)) by {
                let next = t.take(i + 1);
                assert(next[i as int] == t[i as int]);
            }
        }
        i += 1;
    }
    assert(texts(supported@).take(supported.len() as int) == texts(supported@));
    out
}

/// Tries every parity rule on a renderer and a driver whose contracts both
/// came from fixtures.
pub fn validate_renderer_driver_parity(renderer: &RendererContract, driver: &DriverContract) -> (out:
    Result<ParityReport, ParityError>)
    ensures
        parity_outcome(out, renderer, driver, "fixture"@, "fixture"@),
{
    validate_renderer_driver_parity_with_sources(renderer, driver, "fixture", "fixture")
}

fn version_faults_of(renderer: &RendererContract, driver: &DriverContract) -> (errors: Vec<String>)
    ensures
        texts(errors@) == version_faults(renderer, driver),
{
    let mut errors: Vec<String> = Vec::new();
    let r_api = renderer.api_version.as_str();
    let d_api = driver.api_version.as_str();
    note(&mut errors, str_is_blank(r_api), "renderer api_version must not be empty".to_owned());
    note(&mut errors, str_is_blank(d_api), "driver api_version must not be empty".to_owned());
    note(
        &mut errors,
        !same_text(r_api, d_api),
        cat5("api version mismatch (renderer=", r_api, ", driver=", d_api, ")"),
    );
    errors
}

fn format_faults_of(renderer: &RendererContract, driver: &DriverContract) -> (errors: Vec<String>)
    ensures
        texts(errors@) == format_faults(renderer, driver),
{
    let mut errors: Vec<String> = Vec::new();
    let kind = driver.device_kind.as_str();
    note(
        &mut errors,
        renderer.supported_color_formats.len() == 0,
        "renderer supported_color_formats must not be empty".to_owned(),
    );
    note(
        &mut errors,
        driver.required_renderer_formats.len() == 0,
        "driver required_renderer_formats must not be empty".to_owned(),
    );
    let missing = missing_formats_of(renderer, driver);
    let missing_list = join(&missing, ", ");
    note(
        &mut errors,
        missing.len() > 0,
        cat2("renderer missing required driver formats: ", missing_list.as_str()),
    );
    note(
        &mut errors,
        driver.supports_partial_refresh && !(same_text(kind, "eink") || same_text(kind, "epd")),
        cat3("partial refresh is only allowed for eink/epd device kinds (got ", kind, ")"),
    );
    errors
}

fn rate_faults_of(renderer: &RendererContract) -> (errors: Vec<String>)
    ensures
        texts(errors@) == rate_faults(renderer),
{
    let mut errors: Vec<String> = Vec::new();
    let max_fps = renderer.max_fps;
    let target = renderer.scheduling.target_fps;
    let tick = renderer.scheduling.tick_budget_ms;
    note(&mut errors, max_fps == 0, "renderer max_fps must be greater than zero".to_owned());
    note(
        &mut errors,
        target == 0,
        "renderer scheduling.target_fps must be greater than zero".to_owned(),
    );
    note(
        &mut errors,
        tick == 0,
        "renderer scheduling.tick_budget_ms must be greater than zero".to_owned(),
    );
    let target_text = u64_to_text(target as u64);
    let max_text = u64_to_text(max_fps as u64);
    let tick_text = u64_to_text(tick as u64);
    note(
        &mut errors,
        target > max_fps,
        cat5(
            "renderer scheduling.target_fps (",
            target_text.as_str(),
            ") must be <= max_fps (",
            max_text.as_str(),
            ")",
        ),
    );
    let budget: u32 = if target > 0 {
        1000 / target
    } else {
        0
    };
    let budget_text = u64_to_text(budget as u64);
    note(
        &mut errors,
        target > 0 && tick > budget,
        cat7(
            "renderer scheduling.tick_budget_ms (",
            tick_text.as_str(),
            ") exceeds frame budget at target_fps=",
            target_text.as_str(),
            " (",
            budget_text.as_str(),
            "ms)",
        ),
    );
    errors
}

fn policy_faults_of(renderer: &RendererContract, driver: &DriverContract) -> (errors: Vec<String>)
    ensures
        texts(errors@) == policy_faults(renderer, driver),
{
    let mut errors: Vec<String> = Vec::new();
    let drop_policy = renderer.scheduling.drop_policy.as_str();
    let backpressure = driver.scheduling.backpressure_policy.as_str();
    let depth = driver.scheduling.max_queue_depth;
    note(
        &mut errors,
        !(same_text(drop_policy, "drop_oldest") || same_text(drop_policy, "drop_newest")
            || same_text(drop_policy, "block")),
        cat3(
            "renderer scheduling.drop_policy must be one of drop_oldest/drop_newest/block (got ",
            drop_policy,
            ")",
        ),
    );
    note(
        &mut errors,
        !(same_text(backpressure, "drop") || same_text(backpressure, "queue") || same_text(
            backpressure,
            "block",
        )),
        cat3(
            "driver scheduling.backpressure_policy must be one of drop/queue/block (got ",
            backpressure,
            ")",
        ),
    );
    note(
        &mut errors,
        same_text(backpressure, "queue") && depth == 0,
        "driver scheduling.max_queue_depth must be greater than zero when backpressure_policy=queue".to_owned(),
    );
    note(
        &mut errors,
        !same_text(backpressure, "queue") && depth != 0,
        "driver scheduling.max_queue_depth must be zero unless backpressure_policy=queue".to_owned(),
    );
    note(
        &mut errors,
        same_text(backpressure, "drop") && !starts_with(drop_policy, "drop_"),
        "driver backpressure_policy=drop requires renderer drop_policy to be drop_oldest or drop_newest".to_owned(),
    );
    errors
}

fn extend(errors: &mut Vec<String>, more: Vec<String>)
    ensures
        texts(final(errors)@) == texts(old(errors)@) + texts(more@),
{
    let mut more = more;
    let ghost a = errors@;
    errors.append(&mut more);
}

/// Tries every parity rule on a renderer and a driver, and names in the
/// report where each contract came from.
pub fn validate_renderer_driver_parity_with_sources(
    renderer: &RendererContract,
    driver: &DriverContract,
    renderer_source: &str,
    driver_source: &str,
) -> (out: Result<ParityReport, ParityError>)
    ensures
        parity_outcome(out, renderer, driver, renderer_source@, driver_source@),
{
    let mut errors = version_faults_of(renderer, driver);
    extend(&mut errors, format_faults_of(renderer, driver));
    extend(&mut errors, rate_faults_of(renderer));
    extend(&mut errors, policy_faults_of(renderer, driver));
    if errors.len() > 0 {
        return Err(ParityError::ValidationFailed(errors));
    }
    let shared_formats = shared_formats_of(renderer, driver);
    Ok(
        ParityReport {
            renderer_api_version: renderer.api_version.clone(),
            driver_api_version: driver.api_version.clone(),
            shared_formats,
            driver_device_kind: driver.device_kind.clone(),
            renderer_target_fps: renderer.scheduling.target_fps,
            renderer_tick_budget_ms: renderer.scheduling.tick_budget_ms,
            renderer_drop_policy: renderer.scheduling.drop_policy.clone(),
            driver_backpressure_policy: driver.scheduling.backpressure_policy.clone(),
            driver_max_queue_depth: driver.scheduling.max_queue_depth,
            renderer_contract_source: renderer_source.to_owned(),
            driver_contract_source: driver_source.to_owned(),
        },
    )
}

/// The error that a failure to load a contract from `source` stands for: a
/// fixture keeps the two kinds of failure apart and names its path, a
/// discovery source reports the failure as one sentence.
pub open spec fn load_fault(source: ContractSourceModel, failure: LoadFailure) -> ParityFault {
    match source {
        ContractSourceModel::FixtureFile(path) => match failure {
            LoadFailure::Read(why) => ParityFault::ReadFailed(path, why@),
            LoadFailure::Parse(why) => ParityFault::ParseFailed(path, why@),
        },
        ContractSourceModel::Discovery(inner) => ParityFault::DiscoveryFailed(
            discovery_failure_text(inner, failure),
        ),
    }
}

fn load_error(source: &ContractSource, failure: LoadFailure) -> (out: ParityError)
    ensures
        out@ == load_fault(source@, failure),
{
    match source {
        ContractSource::FixtureFile(path) => match failure {
            LoadFailure::Read(why) => ParityError::ReadFailed(path.clone(), why),
            LoadFailure::Parse(why) => ParityError::ParseFailed(path.clone(), why),
        },
        ContractSource::Discovery(inner) => {
            let error = DiscoveryError::from_failure(inner, failure);
            ParityError::DiscoveryFailed(error.message())
        },
    }
}

/// Hands on the renderer's contract that was loaded from `source`, or turns
/// the failure to load it into the error that belongs to that source.
pub fn load_renderer_contract_from_source(
    source: &ContractSource,
    loaded: Result<RendererContract, LoadFailure>,
) -> (out: Result<RendererContract, ParityError>)
    ensures
        match loaded {
            Ok(contract) => out == Ok::<RendererContract, ParityError>(contract),
            Err(failure) => out is Err && out->Err_0@ == load_fault(source@, failure),
        },
{
    match loaded {
        Ok(contract) => Ok(contract),
        Err(failure) => Err(load_error(source, failure)),
    }
}

/// Hands on the driver's contract that was loaded from `source`, or turns
/// the failure to load it into the error that belongs to that source.
pub fn load_driver_contract_from_source(
    source: &ContractSource,
    loaded: Result<DriverContract, LoadFailure>,
) -> (out: Result<DriverContract, ParityError>)
    ensures
        match loaded {
            Ok(contract) => out == Ok::<DriverContract, ParityError>(contract),
            Err(failure) => out is Err && out->Err_0@ == load_fault(source@, failure),
        },
{
    match loaded {
        Ok(contract) => Ok(contract),
        Err(failure) => Err(load_error(source, failure)),
    }
}

/// What a whole check comes to: the renderer's failure to load where there
/// is one, else the driver's, else the outcome of the rules.
pub open spec fn check_outcome(
    out: Result<ParityReport, ParityError>,
    renderer_source: ContractSourceModel,
    driver_source: ContractSourceModel,
    renderer_loaded: Result<RendererContract, LoadFailure>,
    driver_loaded: Result<DriverContract, LoadFailure>,
) -> bool {
    match renderer_loaded {
        Err(failure) => out is Err && out->Err_0@ == load_fault(renderer_source, failure),
        Ok(renderer) => match driver_loaded {
            Err(failure) => out is Err && out->Err_0@ == load_fault(driver_source, failure),
            Ok(driver) => parity_outcome(
                out,
                &renderer,
                &driver,
                kind_of(renderer_source),
                kind_of(driver_source),
            ),
        },
    }
}

/// Checks two contracts that were loaded from fixture files at the two paths.
pub fn run_parity_check(
    renderer_path: &str,
    driver_path: &str,
    renderer_loaded: Result<RendererContract, LoadFailure>,
    driver_loaded: Result<DriverContract, LoadFailure>,
) -> (out: Result<ParityReport, ParityError>)
    ensures
        check_outcome(
            out,
            ContractSourceModel::FixtureFile(renderer_path@),
            ContractSourceModel::FixtureFile(driver_path@),
            renderer_loaded,
            driver_loaded,
        ),
{
    let renderer_source = ContractSource::FixtureFile(renderer_path.to_owned());
    let driver_source = ContractSource::FixtureFile(driver_path.to_owned());
    run_parity_check_with_sources(&renderer_source, &driver_source, renderer_loaded, driver_loaded)
}

/// Checks two contracts that were loaded from the two sources, and names
/// the kind of each source in the report.
pub fn run_parity_check_with_sources(
    renderer_source: &ContractSource,
    driver_source: &ContractSource,
    renderer_loaded: Result<RendererContract, LoadFailure>,
    driver_loaded: Result<DriverContract, LoadFailure>,
) -> (out: Result<ParityReport, ParityError>)
    ensures
        check_outcome(out, renderer_source@, driver_source@, renderer_loaded, driver_loaded),
{
    let renderer = match load_renderer_contract_from_source(renderer_source, renderer_loaded) {
        Ok(contract) => contract,
        Err(e) => {
            return Err(e);
        },
    };
    let driver = match load_driver_contract_from_source(driver_source, driver_loaded) {
        Ok(contract) => contract,
        Err(e) => {
            return Err(e);
        },
    };
    validate_renderer_driver_parity_with_sources(
        &renderer,
        &driver,
        renderer_source.source_kind(),
        driver_source.source_kind(),
    )
}

/// A count as a JSON number.
pub open spec fn count(n: int) -> JsonModel {
    JsonModel::Number(NumberModel::PosInt(n))
}

/// Texts as a JSON array of strings.
pub open spec fn texts_model(items: Seq<Seq<char>>) -> JsonModel {
    JsonModel::Array(Seq::new(items.len(), |i: int| JsonModel::Str(items[i])))
}

fn texts_value(items: &Vec<String>) -> (out: JsonValue)
    ensures
        out@ == texts_model(texts(items@)),
{
    let mut values: Vec<JsonValue> = Vec::new();
    let mut i: usize = 0;
    while i < items.len()
        invariant
            i <= items.len(),
            values@.len() == i,
            forall|j: int| 0 <= j < i ==> (#[trigger] values@[j])@ == JsonModel::Str(items@[j]@),
        decreases items.len() - i,
    {
        values.push(JsonValue::Str(items[i].clone()));
        i += 1;
    }
    proof {
        crate::json::lemma_items_model(values@);
        assert(crate::json::items_model(values@) =~= Seq::new(
            items@.len(),
            |i: int| JsonModel::Str(texts(items@)[i]),
        ));
    }
    JsonValue::Array(values)
}

fn put_text(object: &mut JsonObject, key: &str, text: &str)
    ensures
        final(object)@ == old(object)@.insert(key@, JsonModel::Str(text@)),
{
    object.insert(key.to_owned(), JsonValue::Str(text.to_owned()));
}

fn put_count(object: &mut JsonObject, key: &str, n: u64)
    ensures
        final(object)@ == old(object)@.insert(key@, count(n as int)),
{
    object.insert(key.to_owned(), JsonValue::Number(JsonNumber::PosInt(n)));
}

/// The event that says that two contracts agree: what the report holds.
pub open spec fn parity_ok_model(report: &ParityReport) -> JsonModel {
    JsonModel::Object(
        Map::<Seq<char>, JsonModel>::empty().insert(
            "event"@,
            JsonModel::Str("runtime:parity_ok"@),
        ).insert("renderer_api_version"@, JsonModel::Str(report.renderer_api_version@)).insert(
            "driver_api_version"@,
            JsonModel::Str(report.driver_api_version@),
        ).insert("driver_device_kind"@, JsonModel::Str(report.driver_device_kind@)).insert(
            "shared_formats"@,
            texts_model(texts(report.shared_formats@)),
        ).insert("renderer_target_fps"@, count(report.renderer_target_fps as int)).insert(
            "renderer_tick_budget_ms"@,
            count(report.renderer_tick_budget_ms as int),
        ).insert("renderer_drop_policy"@, JsonModel::Str(report.renderer_drop_policy@)).insert(
            "driver_backpressure_policy"@,
            JsonModel::Str(report.driver_backpressure_policy@),
        ).insert("driver_max_queue_depth"@, count(report.driver_max_queue_depth as int)).insert(
            "renderer_contract_source"@,
            JsonModel::Str(report.renderer_contract_source@),
        ).insert("driver_contract_source"@, JsonModel::Str(report.driver_contract_source@)),
    )
}

/// Writes the event that says that two contracts agree.
pub fn parity_ok_event(report: &ParityReport) -> (out: JsonValue)
    ensures
        out@ == parity_ok_model(report),
{
    let mut object = JsonObject::new();
    put_text(&mut object, "event", "runtime:parity_ok");
    put_text(&mut object, "renderer_api_version", report.renderer_api_version.as_str());
    put_text(&mut object, "driver_api_version", report.driver_api_version.as_str());
    put_text(&mut object, "driver_device_kind", report.driver_device_kind.as_str());
    object.insert("shared_formats".to_owned(), texts_value(&report.shared_formats));
    put_count(&mut object, "renderer_target_fps", report.renderer_target_fps as u64);
    put_count(&mut object, "renderer_tick_budget_ms", report.renderer_tick_budget_ms as u64);
    put_text(&mut object, "renderer_drop_policy", report.renderer_drop_policy.as_str());
    put_text(&mut object, "driver_backpressure_policy", report.driver_backpressure_policy.as_str());
    put_count(&mut object, "driver_max_queue_depth", report.driver_max_queue_depth as u64);
    put_text(&mut object, "renderer_contract_source", report.renderer_contract_source.as_str());
    put_text(&mut object, "driver_contract_source", report.driver_contract_source.as_str());
    JsonValue::Object(object)
}

/// The event that says that a check of two contracts failed: why, how
/// long the check took, and the kind and the label of each source.
pub open spec fn parity_failed_model(
    fault: ParityFault,
    duration_ms: u64,
    renderer_source: ContractSourceModel,
    driver_source: ContractSourceModel,
) -> JsonModel {
    JsonModel::Object(
        Map::<Seq<char>, JsonModel>::empty().insert(
            "event"@,
            JsonModel::Str("runtime:parity_failed"@),
        ).insert("error"@, JsonModel::Str(ParityError::message_text(fault))).insert(
            "duration_ms"@,
            count(duration_ms as int),
        ).insert("renderer_contract_source"@, JsonModel::Str(kind_of(renderer_source))).insert(
            "driver_contract_source"@,
            JsonModel::Str(kind_of(driver_source)),
        ).insert("renderer_source_label"@, JsonModel::Str(contract_label(renderer_source))).insert(
            "driver_source_label"@,
            JsonModel::Str(contract_label(driver_source)),
        ),
    )
}

/// Writes the event that says that a check of two contracts failed.
pub fn parity_failed_event(
    error: &ParityError,
    duration_ms: u64,
    renderer_source: &ContractSource,
    driver_source: &ContractSource,
) -> (out: JsonValue)
    ensures
        out@ == parity_failed_model(error@, duration_ms, renderer_source@, driver_source@),
{
    let mut object = JsonObject::new();
    put_text(&mut object, "event", "runtime:parity_failed");
    put_text(&mut object, "error", error.message().as_str());
    put_count(&mut object, "duration_ms", duration_ms);
    put_text(&mut object, "renderer_contract_source", renderer_source.source_kind());
    put_text(&mut object, "driver_contract_source", driver_source.source_kind());
    put_text(&mut object, "renderer_source_label", renderer_source.source_label().as_str());
    put_text(&mut object, "driver_source_label", driver_source.source_label().as_str());
    JsonValue::Object(object)
}

} // verus!
