//! Applying the manifest to claws.
//!
//! A claw is applied in three steps: its bearer is made sure of, its
//! `config.toml` is rendered and written where it differs from what is there,
//! and its container is ensured.

use vstd::prelude::*;
use vstd::string::*;
use crate::config::OrchestratorConfig;
use crate::driver::env_file::EnvFile;
use crate::driver::{env_file, ClawSpec, EnsureOutcome, LogSettings};
use crate::failure::Failure;
use crate::keymap::KeyMap;
use crate::manifest::{ClawDefaults, ClawOverlay};
use crate::api::{Answer, AnswerBody};
use crate::bearer::Bearer;
use crate::render::{Injections, RenderError};
use crate::{api, document, failure, paths, render, text, wire};

verus! {

// ---- memory limits ----------------------------------------------------

/// The value of a run of decimal digits.
pub open spec fn digits_value(s: Seq<char>) -> int
    decreases s.len(),
{
    if s.len() == 0 {
        0
    } else {
        digits_value(s.drop_last()) * 10 + (s.last() as int - '0' as int)
    }
}

/// There is at least one character, and all are decimal digits.
pub open spec fn all_digits(s: Seq<char>) -> bool {
    s.len() > 0 && forall|i: int| 0 <= i < s.len() ==> '0' <= #[trigger] s[i] <= '9'
}

/// The number of 64 bits that a text spells: digits, with a sign before them or
/// not.
pub open spec fn spelled(s: Seq<char>) -> Option<int> {
    let signed = s.len() > 0 && (s[0] == '-' || s[0] == '+');
    let digits = if signed {
        s.skip(1)
    } else {
        s
    };
    let value = if signed && s[0] == '-' {
        -digits_value(digits)
    } else {
        digits_value(digits)
    };
    if all_digits(digits) && i64::MIN <= value <= i64::MAX {
        Some(value)
    } else {
        None
    }
}

proof fn lemma_digits_grow(s: Seq<char>, n: int)
    requires
        0 <= n <= s.len(),
        forall|i: int| 0 <= i < s.len() ==> '0' <= #[trigger] s[i] <= '9',
    ensures
        0 <= digits_value(s.take(n)) <= digits_value(s),
    decreases s.len(),
{
    if n < s.len() {
        assert(s.drop_last().take(n) =~= s.take(n));
        lemma_digits_grow(s.drop_last(), n);
    } else {
        assert(s.take(n) =~= s);
        if s.len() > 0 {
            assert(s.drop_last().take(n - 1) =~= s.drop_last());
            lemma_digits_grow(s.drop_last(), n - 1);
        }
    }
}

/// The value of the digits from `from` on, where it is not above a bound.
fn read_digits(v: &Vec<char>, from: usize, bound: i128) -> (r: Option<i128>)
    requires
        from <= v@.len(),
        0 <= bound <= 0x8000_0000_0000_0000,
    ensures
        match r {
            Some(n) => all_digits(v@.skip(from as int)) && n == digits_value(v@.skip(from as int))
                && 0 <= n <= bound,
            None => !all_digits(v@.skip(from as int)) || digits_value(v@.skip(from as int)) > bound,
        },
{
    let ghost s = v@.skip(from as int);
    if from == v.len() {
        return None;
    }
    let mut n: i128 = 0;
    let mut i: usize = from;
    assert(s.take(0) =~= Seq::<char>::empty());
    while i < v.len()
        invariant
            from <= i <= v@.len(),
            from < v@.len(),
            s == v@.skip(from as int),
            0 <= bound <= 0x8000_0000_0000_0000,
            0 <= n <= bound,
            n == digits_value(s.take(i - from)),
            forall|j: int| 0 <= j < i - from ==> '0' <= #[trigger] s[j] <= '9',
        decreases v@.len() - i,
    {
        let c = v[i];
        assert(s[i - from] == c);
        if !('0' <= c && c <= '9') {
            return None;
        }
        assert(s.take(i - from + 1).drop_last() =~= s.take(i - from));
        let d: i128 = (c as u32 - 48) as i128;
        let next: i128 = n * 10 + d;
        assert(next == digits_value(s.take(i - from + 1)));
        if next > bound {
            proof {
                if all_digits(s) {
                    lemma_digits_grow(s, i - from + 1);
                }
            }
            return None;
        }
        n = next;
        i = i + 1;
    }
    assert(s.take(s.len() as int) =~= s);
    Some(n)
}

/// The number of 64 bits that a text spells.
pub fn parse_number(s: &str) -> (r: Option<i64>)
    ensures
        match r {
            Some(n) => spelled(s@) == Some(n as int),
            None => spelled(s@) is None,
        },
{
    let v = text::chars_of(s);
    assert(v@.skip(0) =~= v@);
    if v.len() > 0 && v[0] == '-' {
        match read_digits(&v, 1, 0x8000_0000_0000_0000) {
            Some(n) => Some((-n) as i64),
            None => None,
        }
    } else if v.len() > 0 && v[0] == '+' {
        match read_digits(&v, 1, 0x7fff_ffff_ffff_ffff) {
            Some(n) => Some(n as i64),
            None => None,
        }
    } else {
        match read_digits(&v, 0, 0x7fff_ffff_ffff_ffff) {
            Some(n) => Some(n as i64),
            None => None,
        }
    }
}

/// The bytes that a unit stands for.
pub open spec fn unit_bytes(c: char) -> Option<int> {
    if c == 'g' || c == 'G' {
        Some(1_073_741_824)
    } else if c == 'm' || c == 'M' {
        Some(1_048_576)
    } else if c == 'k' || c == 'K' {
        Some(1_024)
    } else {
        None
    }
}

/// The number, held within 64 bits.
pub open spec fn saturated(n: int) -> int {
    if n > i64::MAX {
        i64::MAX as int
    } else if n < i64::MIN {
        i64::MIN as int
    } else {
        n
    }
}

/// The bytes that a memory limit in docker notation stands for.
pub open spec fn mem_limit(s: Seq<char>) -> Option<int> {
    let t = text::trimmed(s);
    if t.len() == 0 {
        None
    } else {
        match unit_bytes(t.last()) {
            Some(unit) => match spelled(text::trimmed(t.drop_last())) {
                Some(n) => Some(saturated(n * unit)),
                None => None,
            },
            None => spelled(t),
        }
    }
}

fn times(n: i64, unit: i64) -> (r: i64)
    requires
        unit == 1_073_741_824 || unit == 1_048_576 || unit == 1_024,
    ensures
        r == saturated(n * unit),
{
    assert(-0x2000_0000_0000_0000_0000_0000 <= n * unit <= 0x2000_0000_0000_0000_0000_0000)
        by (nonlinear_arith)
        requires
            -0x8000_0000_0000_0000 <= n <= 0x7fff_ffff_ffff_ffff,
            0 <= unit <= 1_073_741_824,
    ;
    let p: i128 = (n as i128) * (unit as i128);
    if p > i64::MAX as i128 {
        i64::MAX
    } else if p < i64::MIN as i128 {
        i64::MIN
    } else {
        p as i64
    }
}

/// Reads a memory limit in docker notation, such as `1g`, `512m` or `1024`.
pub fn parse_mem_limit(s: &str) -> (r: Option<i64>)
    ensures
        match r {
            Some(n) => mem_limit(s@) == Some(n as int),
            None => mem_limit(s@) is None,
        },
{
    let t = text::trim(s);
    let v = text::chars_of(t.as_str());
    if v.len() == 0 {
        return None;
    }
    let last = v[v.len() - 1];
    let unit: i64 = if last == 'g' || last == 'G' {
        1_073_741_824
    } else if last == 'm' || last == 'M' {
        1_048_576
    } else if last == 'k' || last == 'K' {
        1_024
    } else {
        return parse_number(t.as_str());
    };
    let head = text::slice_text(&v, 0, v.len() - 1);
    assert(head@ =~= t@.drop_last());
    let digits = text::trim(head.as_str());
    match parse_number(digits.as_str()) {
        Some(n) => Some(times(n, unit)),
        None => None,
    }
}

// ---- the container of a claw ------------------------------------------

/// The first of two, where it is there, else the second.
pub open spec fn first_of<T>(a: Option<T>, b: Option<T>) -> Option<T> {
    match a {
        Some(v) => Some(v),
        None => b,
    }
}

/// The value, or a last resort.
pub open spec fn or_else<T>(a: Option<T>, last: T) -> T {
    match a {
        Some(v) => v,
        None => last,
    }
}

fn first_text(a: &Option<String>, b: &Option<String>) -> (r: Option<String>)
    ensures
        text::opt_text(r) == first_of(text::opt_text(*a), text::opt_text(*b)),
{
    match a {
        Some(s) => Some(s.clone()),
        None => text::copy_opt(b),
    }
}

/// The memory limit of the manifest, where it can be read.
pub open spec fn manifest_mem_limit(d: ClawDefaults) -> Option<int> {
    match d.mem_limit {
        Some(s) => mem_limit(s@),
        None => None,
    }
}

/// The environment of every claw.
pub open spec fn claw_env(cfg: OrchestratorConfig) -> Map<Seq<char>, Seq<char>> {
    map![
        "ZEROCLAW_ALLOW_PUBLIC_BIND"@ => "true"@,
        "ZEROCLAW_GATEWAY_PORT"@ => text::decimal_text(cfg.proxy.claw_port as nat),
        "ZEROCLAW_CONFIG_DIR"@ => "/zeroclaw-data/config"@,
    ]
}

/// The image of a claw: that of its overlay, else that of the manifest, else
/// that of the orchestrator.
pub open spec fn claw_image(
    cfg: OrchestratorConfig,
    overlay: ClawOverlay,
    d: ClawDefaults,
) -> Option<Seq<char>> {
    first_of(
        text::opt_text(overlay.fleet.image),
        first_of(text::opt_text(d.image), text::opt_text(cfg.default_image)),
    )
}

/// `spec` is the claw of an overlay. What the manifest does not set, the
/// orchestrator's own defaults set. A file with further environment is given by
/// its path and its content.
pub open spec fn is_spec_of(
    spec: ClawSpec,
    cfg: OrchestratorConfig,
    overlay: ClawOverlay,
    d: ClawDefaults,
    config_dir: Seq<char>,
    env_file: Option<(Seq<char>, Seq<char>)>,
) -> bool {
    let name = overlay.fleet.name@;
    &&& spec.name@ == name
    &&& Some(spec.image@) == claw_image(cfg, overlay, d)
    &&& match manifest_mem_limit(d) {
        Some(bytes) => spec.mem_limit_bytes matches Some(n) && n == bytes,
        None => spec.mem_limit_bytes == cfg.default_mem_limit_bytes,
    }
    &&& spec.cpu_limit == first_of(d.cpu_limit, cfg.default_cpu_limit)
    &&& spec.restart@ == or_else(
        first_of(text::opt_text(d.restart), text::opt_text(cfg.default_restart)),
        "unless-stopped"@,
    )
    &&& wire::text_map(spec.env@) == claw_env(cfg)
    &&& spec.config_dir@ == config_dir
    &&& match env_file {
        Some((path, content)) => {
            &&& text::opt_text(spec.env_file) == Some(path)
            &&& wire::text_map(spec.file_env@) == env_file::file_variables(content)
        },
        None => spec.env_file is None && wire::text_map(spec.file_env@) == Map::<
            Seq<char>,
            Seq<char>,
        >::empty(),
    }
    &&& spec.data_volume@ == "claw-data-"@ + name
    &&& spec.network@ == cfg.claws_network@
    &&& spec.log.max_size@ == or_else(
        first_of(text::opt_text(d.log_max_size), text::opt_text(cfg.default_log_max_size)),
        "20m"@,
    )
    &&& spec.log.max_file == or_else(first_of(d.log_max_file, cfg.default_log_max_file), 3)
    &&& spec.published_ports@.len() == 0
}

/// Why a claw without an image cannot be applied.
pub open spec fn no_image() -> Seq<char> {
    "no image — set fleet.defaults.image or overlay [_fleet] image"@
}

/// The claw of an overlay, with the defaults of the manifest as it was just
/// read; `None` stands for a manifest that cannot be read, which sets nothing.
pub fn build_spec(
    cfg: &OrchestratorConfig,
    overlay: &ClawOverlay,
    defaults: Option<ClawDefaults>,
    config_dir: &str,
    env_file: Option<EnvFile>,
) -> (r: Result<ClawSpec, Failure>)
    ensures
        ({
            let d = or_else(defaults, no_defaults());
            match claw_image(*cfg, *overlay, d) {
                Some(_) => r matches Ok(spec) && is_spec_of(
                    spec,
                    *cfg,
                    *overlay,
                    d,
                    config_dir@,
                    env_file::file_view(env_file),
                ),
                None => r matches Err(f) && f@ == failure::plain_failure(no_image()),
            }
        }),
{
    let d = match defaults {
        Some(d) => d,
        None => ClawDefaults::default(),
    };
    let image = match &overlay.fleet.image {
        Some(s) => s.clone(),
        None => match first_text(&d.image, &cfg.default_image) {
            Some(s) => s,
            None => return Err(
                Failure::new(
                    "no image — set fleet.defaults.image or overlay [_fleet] image".to_owned(),
                ),
            ),
        },
    };
    let limit = match &d.mem_limit {
        Some(s) => parse_mem_limit(s.as_str()),
        None => None,
    };
    let mem_limit_bytes = match limit {
        Some(n) => Some(n),
        None => cfg.default_mem_limit_bytes,
    };
    let cpu_limit = match d.cpu_limit {
        Some(n) => Some(n),
        None => cfg.default_cpu_limit,
    };
    let restart = match first_text(&d.restart, &cfg.default_restart) {
        Some(s) => s,
        None => "unless-stopped".to_owned(),
    };
    let max_size = match first_text(&d.log_max_size, &cfg.default_log_max_size) {
        Some(s) => s,
        None => "20m".to_owned(),
    };
    let max_file: u32 = match d.log_max_file {
        Some(n) => n,
        None => match cfg.default_log_max_file {
            Some(n) => n,
            None => 3,
        },
    };
    let mut env: KeyMap<String> = KeyMap::new();
    env.insert("ZEROCLAW_ALLOW_PUBLIC_BIND".to_owned(), "true".to_owned());
    env.insert("ZEROCLAW_GATEWAY_PORT".to_owned(), text::decimal(cfg.proxy.claw_port as u64));
    env.insert("ZEROCLAW_CONFIG_DIR".to_owned(), "/zeroclaw-data/config".to_owned());
    assert(wire::text_map(env@) =~= claw_env(*cfg));
    let (env_file, file_env) = match env_file {
        Some(f) => {
            let vars = env_file::read_variables(f.content.as_str());
            (Some(f.path), vars)
        },
        None => {
            let none: KeyMap<String> = KeyMap::new();
            assert(wire::text_map(none@) =~= Map::<Seq<char>, Seq<char>>::empty());
            (None, none)
        },
    };
    Ok(
        ClawSpec {
            name: overlay.fleet.name.clone(),
            image,
            mem_limit_bytes,
            cpu_limit,
            restart,
            env,
            config_dir: config_dir.to_owned(),
            env_file,
            file_env,
            data_volume: text::labelled("claw-data-", overlay.fleet.name.as_str()),
            network: cfg.claws_network.clone(),
            log: LogSettings { max_size, max_file },
            published_ports: Vec::new(),
        },
    )
}

/// Defaults that set nothing.
pub open spec fn no_defaults() -> ClawDefaults {
    ClawDefaults {
        image: None,
        mem_limit: None,
        cpu_limit: None,
        restart: None,
        log_max_size: None,
        log_max_file: None,
    }
}

/// Where the file with further environment of a claw is looked for.
pub open spec fn env_file_place(name: Seq<char>) -> Seq<char> {
    "/etc/zeroclaw-fleet-secrets/"@ + name + ".env"@
}

/// Where the file with further environment of a claw is looked for.
pub fn env_file_path(name: &str) -> (r: String)
    ensures
        r@ == env_file_place(name@),
{
    let mut out = text::labelled("/etc/zeroclaw-fleet-secrets/", name);
    out.append(".env");
    out
}

/// Where the configuration of a claw is kept.
pub open spec fn config_home(state_dir: Seq<char>, name: Seq<char>) -> Seq<char> {
    paths::joined(paths::joined(state_dir, name), "config"@)
}

/// The directory of a claw's configuration.
pub fn config_dir(state_dir: &str, name: &str) -> (r: String)
    ensures
        r@ == config_home(state_dir@, name@),
{
    let claw = paths::join(state_dir, name);
    paths::join(claw.as_str(), "config")
}

/// The file of a claw's bearer.
pub fn bearer_path(state_dir: &str, name: &str) -> (r: String)
    ensures
        r@ == paths::joined(paths::joined(state_dir@, name@), "bearer.txt"@),
{
    let claw = paths::join(state_dir, name);
    paths::join(claw.as_str(), "bearer.txt")
}

/// `inj` is what is put into the configuration of a claw with this bearer.
pub open spec fn injected(inj: Injections, cfg: OrchestratorConfig, bearer: Seq<char>) -> bool {
    &&& inj.orchestrator_bearer@ == bearer
    &&& inj.mcp_bearer_placeholder@ == cfg.mcp_bearer_placeholder@
    &&& inj.mcp_server_url@ == cfg.mcp_server_url@
    &&& inj.mcp_server_name@ == cfg.mcp_server_name@
    &&& inj.channel_secrets@.len() == 0
}

/// What is put into the configuration of a claw.
pub fn injections(cfg: &OrchestratorConfig, bearer: &str) -> (r: Injections)
    ensures
        injected(r, *cfg, bearer@),
{
    Injections {
        orchestrator_bearer: bearer.to_owned(),
        mcp_bearer_placeholder: cfg.mcp_bearer_placeholder.clone(),
        mcp_server_url: cfg.mcp_server_url.clone(),
        mcp_server_name: cfg.mcp_server_name.clone(),
        channel_secrets: Vec::new(),
    }
}

/// Whether a rendered configuration has to be written: only where it differs
/// from what the file holds.
pub fn must_write(on_disk: Option<&str>, rendered: &str) -> (r: bool)
    ensures
        r == match on_disk {
            Some(s) => s@ != rendered@,
            None => true,
        },
{
    match on_disk {
        Some(s) => !text::same_text(s, rendered),
        None => true,
    }
}

// ---- results ----------------------------------------------------------

/// What came of applying a claw.
#[derive(Debug)]
pub struct ApplyResult {
    pub name: String,
    pub rendered: bool,
    pub container: String,
    pub steps: Vec<String>,
    pub warnings: Vec<String>,
}

/// What a result says.
pub struct ApplyView {
    pub name: Seq<char>,
    pub rendered: bool,
    pub container: Seq<char>,
    pub steps: Seq<Seq<char>>,
    pub warnings: Seq<Seq<char>>,
}

impl View for ApplyResult {
    type V = ApplyView;

    open spec fn view(&self) -> ApplyView {
        ApplyView {
            name: self.name@,
            rendered: self.rendered,
            container: self.container@,
            steps: text::texts(self.steps@),
            warnings: text::texts(self.warnings@),
        }
    }
}

/// How the outcome at the container is told.
pub open spec fn outcome_text(outcome: EnsureOutcome) -> Seq<char> {
    match outcome {
        EnsureOutcome::Created => "created+started"@,
        EnsureOutcome::Recreated => "recreated+started"@,
        EnsureOutcome::Unchanged => "unchanged"@,
    }
}

/// The warning that there is no file with further environment where it was looked
/// for.
pub open spec fn env_warning(path: Seq<char>) -> Seq<char> {
    "no env_file at "@ + path
        + " — claw will start without OPENAI_API_KEY; LiteLLM calls will fail"@
}

/// The result for a claw that was applied. `missing_env_file` is where a file with
/// further environment was looked for in vain.
pub open spec fn applied_view(
    name: Seq<char>,
    bearer_is_new: bool,
    config_path: Seq<char>,
    config_written: bool,
    missing_env_file: Option<Seq<char>>,
    outcome: EnsureOutcome,
) -> ApplyView {
    ApplyView {
        name,
        rendered: true,
        container: outcome_text(outcome),
        steps: seq![
            if bearer_is_new {
                "bearer:generated"@
            } else {
                "bearer:existing"@
            },
            if config_written {
                "config:wrote:"@ + config_path
            } else {
                "config:unchanged:"@ + config_path
            },
            "container:"@ + outcome_text(outcome),
        ],
        warnings: match missing_env_file {
            Some(path) => seq![env_warning(path)],
            None => Seq::empty(),
        },
    }
}

/// The result for a claw that was applied.
pub fn applied(
    name: &str,
    bearer_is_new: bool,
    config_path: &str,
    config_written: bool,
    missing_env_file: Option<String>,
    outcome: EnsureOutcome,
) -> (r: ApplyResult)
    ensures
        r@ == applied_view(
            name@,
            bearer_is_new,
            config_path@,
            config_written,
            text::opt_text(missing_env_file),
            outcome,
        ),
{
    let container = match outcome {
        EnsureOutcome::Created => "created+started".to_owned(),
        EnsureOutcome::Recreated => "recreated+started".to_owned(),
        EnsureOutcome::Unchanged => "unchanged".to_owned(),
    };
    let mut steps: Vec<String> = Vec::new();
    if bearer_is_new {
        steps.push("bearer:generated".to_owned());
    } else {
        steps.push("bearer:existing".to_owned());
    }
    if config_written {
        steps.push(text::labelled("config:wrote:", config_path));
    } else {
        steps.push(text::labelled("config:unchanged:", config_path));
    }
    steps.push(text::labelled("container:", container.as_str()));
    let mut warnings: Vec<String> = Vec::new();
    if let Some(path) = &missing_env_file {
        let mut w = text::labelled("no env_file at ", path.as_str());
        w.append(" — claw will start without OPENAI_API_KEY; LiteLLM calls will fail");
        warnings.push(w);
    }
    let r = ApplyResult { name: name.to_owned(), rendered: true, container, steps, warnings };
    proof {
        let want = applied_view(
            name@,
            bearer_is_new,
            config_path@,
            config_written,
            text::opt_text(missing_env_file),
            outcome,
        );
        assert(r@.steps =~= want.steps);
        assert(r@.warnings =~= want.warnings);
    }
    r
}

/// The result for a claw that could not be applied, among the results of all.
pub fn not_applied(name: &str, f: &Failure) -> (r: ApplyResult)
    ensures
        r@ == (ApplyView {
            name: name@,
            rendered: false,
            container: "error: "@ + (f@.message + failure::after_colons(f@.causes)),
            steps: Seq::empty(),
            warnings: seq![f@.message],
        }),
{
    let mut warnings: Vec<String> = Vec::new();
    warnings.push(f.message.clone());
    let r = ApplyResult {
        name: name.to_owned(),
        rendered: false,
        container: text::labelled("error: ", f.detail().as_str()),
        steps: Vec::new(),
        warnings,
    };
    assert(r@.steps =~= Seq::<Seq<char>>::empty());
    assert(r@.warnings =~= seq![f@.message]);
    r
}

/// The answer to a request to apply one claw.
pub fn up_one(run: Result<ApplyResult, Failure>) -> (r: Answer<ApplyResult>)
    ensures
        match run {
            Ok(out) => r.status == 200 && r.body == AnswerBody::Value(out),
            Err(f) => api::says(r, 500, f@.message + failure::after_colons(f@.causes)),
        },
{
    match run {
        Ok(out) => Answer { status: 200, body: AnswerBody::Value(out) },
        Err(f) => api::say(500, f.detail()),
    }
}

/// The failure where a claw has no overlay.
pub fn no_overlay(name: &str) -> (r: Failure)
    ensures
        r@ == failure::plain_failure("no overlay for "@ + name@),
{
    Failure::new(text::labelled("no overlay for ", name))
}

/// A refusal to render, as a failure.
pub fn render_failure(e: RenderError) -> (r: Failure)
    ensures
        r@ == match e {
            RenderError::Parse(cause) => failure::caused_failure(e.spec_message(), cause@),
            RenderError::Serialize(cause) => failure::caused_failure(e.spec_message(), cause@),
        },
{
    match e {
        RenderError::Parse(cause) => Failure::caused("parse base.toml", cause),
        RenderError::Serialize(cause) => Failure::caused("serialize merged config", cause),
    }
}

// ---- the course of an application -------------------------------------

/// What the application of a claw asks the program to do.
pub enum ApplyAction {
    /// Read `base.toml`.
    ReadBase { path: String },
    /// Read the claw's bearer, or draw one where the file keeps none.
    EnsureBearer { path: String },
    /// Write the bearer down.
    WriteBearer { path: String, bearer: String },
    /// Read the configuration that the claw has.
    ReadConfig { path: String },
    /// Write the configuration, in place of what the claw has.
    WriteConfig { path: String, content: String },
    /// Read the defaults of the manifest, and the claw's file with further
    /// environment, if it has one.
    Survey { fleet_yaml: String, env_file: String },
    /// Ensure the claw's container.
    Ensure(ClawSpec),
    /// The claw is applied.
    Finish(ApplyResult),
    /// `gateway` or `mcp` of the merged document is no table, so that nothing
    /// can be put into it, or a text of the final document cannot be written.
    Unrenderable,
    /// The application has failed.
    GiveUp(Failure),
}

/// What the program reports of an action.
pub enum ApplyEvent {
    Base(Result<String, String>),
    Bearer(Bearer),
    Done(Result<(), Failure>),
    OnDisk(Option<String>),
    Survey {
        defaults: Option<ClawDefaults>,
        /// What the file with further environment holds or why it cannot be read,
        /// where there is one.
        env_file: Option<Result<String, String>>,
    },
    Ensured(Result<EnsureOutcome, Failure>),
}

/// What an application waits for.
#[derive(Clone, Copy, PartialEq, Eq, Structural)]
pub enum ApplyStage {
    BaseRead,
    BearerKnown,
    BearerWritten,
    ConfigRead,
    ConfigWritten,
    Surveyed,
    Ensured,
    Over,
}

/// The events that answer the action of a stage.
pub open spec fn answers_apply(stage: ApplyStage, event: ApplyEvent) -> bool {
    match stage {
        ApplyStage::BaseRead => event is Base,
        ApplyStage::BearerKnown => event is Bearer,
        ApplyStage::BearerWritten | ApplyStage::ConfigWritten => event is Done,
        ApplyStage::ConfigRead => event is OnDisk,
        ApplyStage::Surveyed => event is Survey,
        ApplyStage::Ensured => event is Ensured,
        ApplyStage::Over => false,
    }
}

/// The application of one claw.
pub struct Applying {
    pub name: String,
    pub overlay: ClawOverlay,
    pub base: String,
    pub bearer: String,
    pub bearer_is_new: bool,
    pub rendered: String,
    pub written: bool,
    pub has_env_file: bool,
    pub stage: ApplyStage,
}

/// The file of a claw's configuration.
pub open spec fn config_file(cfg: OrchestratorConfig, name: Seq<char>) -> Seq<char> {
    paths::joined(config_home(cfg.state_dir@, name), "config.toml"@)
}

/// The run asks for the survey that precedes the container.
pub open spec fn surveys(
    cfg: OrchestratorConfig,
    run: Applying,
    stage: ApplyStage,
    action: ApplyAction,
) -> bool {
    &&& stage == ApplyStage::Surveyed
    &&& action matches ApplyAction::Survey { fleet_yaml, env_file } && fleet_yaml@
        == paths::joined(cfg.fleet_dir@, "fleet.yaml"@) && env_file@ == env_file_place(
        run.overlay.fleet.name@,
    )
}

/// The run has rendered the configuration with what is injected, and asks for
/// what the claw has, or says why it cannot.
pub open spec fn renders_with(
    cfg: OrchestratorConfig,
    run: Applying,
    inj: Injections,
    rendered: Seq<char>,
    stage: ApplyStage,
    action: ApplyAction,
) -> bool {
    let body = document::contents(run.overlay.body);
    match document::toml_document(run.base@) {
        Err(cause) => stage == ApplyStage::Over && (action matches ApplyAction::GiveUp(f) && f@
            == failure::caused_failure("parse base.toml"@, cause)),
        Ok(base) => if !render::renderable(run.base@, body, inj) {
            stage == ApplyStage::Over && action is Unrenderable
        } else {
            match document::toml_pretty(inj.configured(base, body)) {
                Ok(out) => {
                    &&& rendered == out
                    &&& stage == ApplyStage::ConfigRead
                    &&& action matches ApplyAction::ReadConfig { path } && path@ == config_file(
                        cfg,
                        run.name@,
                    )
                },
                Err(cause) => stage == ApplyStage::Over && (action matches ApplyAction::GiveUp(f)
                    && f@ == failure::caused_failure("serialize merged config"@, cause)),
            }
        },
    }
}

/// The run has rendered the configuration with its bearer.
pub open spec fn renders(
    cfg: OrchestratorConfig,
    run: Applying,
    rendered: Seq<char>,
    stage: ApplyStage,
    action: ApplyAction,
) -> bool {
    exists|inj: Injections| #[trigger]
        injected(inj, cfg, run.bearer@) && renders_with(cfg, run, inj, rendered, stage, action)
}

/// What an application goes on with after an event.
pub open spec fn apply_goes_on(
    cfg: OrchestratorConfig,
    run: Applying,
    event: ApplyEvent,
    later: Applying,
    action: ApplyAction,
) -> bool {
    &&& later.name == run.name
    &&& later.overlay == run.overlay
    &&& match event {
        ApplyEvent::Base(Err(cause)) => later.stage == ApplyStage::Over && (
        action matches ApplyAction::GiveUp(f) && f@ == failure::caused_failure(
            "read "@ + paths::joined(cfg.fleet_dir@, "base.toml"@),
            cause@,
        )),
        ApplyEvent::Base(Ok(base)) => {
            &&& later.base@ == base@
            &&& later.stage == ApplyStage::BearerKnown
            &&& action matches ApplyAction::EnsureBearer { path } && path@ == paths::joined(
                paths::joined(cfg.state_dir@, run.name@),
                "bearer.txt"@,
            )
        },
        ApplyEvent::Bearer(b) => {
            &&& later.base == run.base
            &&& later.bearer@ == b.value@
            &&& later.bearer_is_new == b.is_new
            &&& if b.is_new {
                &&& later.stage == ApplyStage::BearerWritten
                &&& action matches ApplyAction::WriteBearer { path, bearer } && path@
                    == paths::joined(paths::joined(cfg.state_dir@, run.name@), "bearer.txt"@)
                    && bearer@ == b.value@
            } else {
                renders(cfg, later, later.rendered@, later.stage, action)
            }
        },
        ApplyEvent::Done(Err(f)) => later.stage == ApplyStage::Over && action
            == ApplyAction::GiveUp(f),
        ApplyEvent::Done(Ok(_)) => {
            &&& later.base == run.base
            &&& later.bearer == run.bearer
            &&& later.bearer_is_new == run.bearer_is_new
            &&& if run.stage == ApplyStage::BearerWritten {
                renders(cfg, later, later.rendered@, later.stage, action)
            } else {
                &&& later.rendered == run.rendered
                &&& later.written == run.written
                &&& surveys(cfg, run, later.stage, action)
            }
        },
        ApplyEvent::OnDisk(content) => {
            &&& later.bearer_is_new == run.bearer_is_new
            &&& later.rendered == run.rendered
            &&& if text::opt_text(content) == Some(run.rendered@) {
                !later.written && surveys(cfg, run, later.stage, action)
            } else {
                &&& later.written
                &&& later.stage == ApplyStage::ConfigWritten
                &&& action matches ApplyAction::WriteConfig { path, content } && path@
                    == config_file(cfg, run.name@) && content@ == run.rendered@
            }
        },
        ApplyEvent::Survey { defaults, env_file } => {
            let d = or_else(defaults, no_defaults());
            let path = env_file_place(run.overlay.fleet.name@);
            &&& later.bearer_is_new == run.bearer_is_new
            &&& later.written == run.written
            &&& later.has_env_file == (env_file is Some)
            &&& match claw_image(cfg, run.overlay, d) {
                Some(_) => match env_file {
                    Some(Err(cause)) => later.stage == ApplyStage::Over && (
                    action matches ApplyAction::GiveUp(f) && f@ == failure::caused_failure(
                        "read "@ + path,
                        cause@,
                    )),
                    _ => {
                        &&& later.stage == ApplyStage::Ensured
                        &&& action matches ApplyAction::Ensure(spec) && is_spec_of(
                            spec,
                            cfg,
                            run.overlay,
                            d,
                            config_home(cfg.state_dir@, run.name@),
                            match env_file {
                                Some(Ok(content)) => Some((path, content@)),
                                _ => None,
                            },
                        )
                    },
                },
                None => later.stage == ApplyStage::Over && (action matches ApplyAction::GiveUp(f)
                    && f@ == failure::plain_failure(no_image())),
            }
        },
        ApplyEvent::Ensured(Err(f)) => later.stage == ApplyStage::Over && action
            == ApplyAction::GiveUp(f),
        ApplyEvent::Ensured(Ok(outcome)) => {
            &&& later.stage == ApplyStage::Over
            &&& action matches ApplyAction::Finish(out) && out@ == applied_view(
                run.name@,
                run.bearer_is_new,
                config_file(cfg, run.name@),
                run.written,
                if run.has_env_file {
                    None
                } else {
                    Some(env_file_place(run.overlay.fleet.name@))
                },
                outcome,
            )
        },
    }
}

impl Applying {
    fn render_now(&mut self, cfg: &OrchestratorConfig) -> (r: ApplyAction)
        ensures
            final(self).name == old(self).name,
            final(self).overlay == old(self).overlay,
            final(self).base == old(self).base,
            final(self).bearer == old(self).bearer,
            final(self).bearer_is_new == old(self).bearer_is_new,
            renders(*cfg, *final(self), final(self).rendered@, final(self).stage, r),
    {
        let inj = injections(cfg, self.bearer.as_str());
        let action = match render::try_render(self.base.as_str(), &self.overlay, &inj) {
            None => {
                self.stage = ApplyStage::Over;
                ApplyAction::Unrenderable
            },
            Some(Err(e)) => {
                self.stage = ApplyStage::Over;
                ApplyAction::GiveUp(render_failure(e))
            },
            Some(Ok(s)) => {
                self.rendered = s;
                self.stage = ApplyStage::ConfigRead;
                ApplyAction::ReadConfig { path: self.config_path(cfg) }
            },
        };
        assert(renders_with(*cfg, *self, inj, self.rendered@, self.stage, action));
        assert(injected(inj, *cfg, self.bearer@));
        assert(renders(*cfg, *self, self.rendered@, self.stage, action));
        action
    }

    fn config_path(&self, cfg: &OrchestratorConfig) -> (r: String)
        ensures
            r@ == config_file(*cfg, self.name@),
    {
        let dir = config_dir(cfg.state_dir.as_str(), self.name.as_str());
        paths::join(dir.as_str(), "config.toml")
    }

    fn survey(&mut self, cfg: &OrchestratorConfig) -> (r: ApplyAction)
        ensures
            *final(self) == (Applying { stage: ApplyStage::Surveyed, ..*old(self) }),
            surveys(*cfg, *old(self), final(self).stage, r),
    {
        self.stage = ApplyStage::Surveyed;
        ApplyAction::Survey {
            fleet_yaml: paths::join(cfg.fleet_dir.as_str(), "fleet.yaml"),
            env_file: env_file_path(self.overlay.fleet.name.as_str()),
        }
    }

    /// Takes the application one step on: from what came of the last action to
    /// the next.
    pub fn step(&mut self, cfg: &OrchestratorConfig, event: ApplyEvent) -> (r: ApplyAction)
        requires
            answers_apply(old(self).stage, event),
        ensures
            apply_goes_on(*cfg, *old(self), event, *final(self), r),
    {
        match event {
            ApplyEvent::Base(Err(cause)) => {
                self.stage = ApplyStage::Over;
                let path = paths::join(cfg.fleet_dir.as_str(), "base.toml");
                let task = text::labelled("read ", path.as_str());
                ApplyAction::GiveUp(Failure::caused(task.as_str(), cause))
            },
            ApplyEvent::Base(Ok(base)) => {
                self.base = base;
                self.stage = ApplyStage::BearerKnown;
                ApplyAction::EnsureBearer {
                    path: bearer_path(cfg.state_dir.as_str(), self.name.as_str()),
                }
            },
            ApplyEvent::Bearer(b) => {
                self.bearer_is_new = b.is_new;
                self.bearer = b.value;
                if b.is_new {
                    self.stage = ApplyStage::BearerWritten;
                    ApplyAction::WriteBearer {
                        path: bearer_path(cfg.state_dir.as_str(), self.name.as_str()),
                        bearer: self.bearer.clone(),
                    }
                } else {
                    self.render_now(cfg)
                }
            },
            ApplyEvent::Done(Err(f)) => {
                self.stage = ApplyStage::Over;
                ApplyAction::GiveUp(f)
            },
            ApplyEvent::Done(Ok(_)) => {
                if self.stage == ApplyStage::BearerWritten {
                    self.render_now(cfg)
                } else {
                    self.survey(cfg)
                }
            },
            ApplyEvent::OnDisk(content) => {
                let differs = match &content {
                    Some(s) => must_write(Some(s.as_str()), self.rendered.as_str()),
                    None => must_write(None, self.rendered.as_str()),
                };
                self.written = differs;
                if differs {
                    self.stage = ApplyStage::ConfigWritten;
                    ApplyAction::WriteConfig {
                        path: self.config_path(cfg),
                        content: self.rendered.clone(),
                    }
                } else {
                    self.survey(cfg)
                }
            },
            ApplyEvent::Survey { defaults, env_file } => {
                self.has_env_file = env_file.is_some();
                let path = env_file_path(self.overlay.fleet.name.as_str());
                let task = text::labelled("read ", path.as_str());
                let (file, unreadable) = match env_file {
                    Some(Ok(content)) => (Some(EnvFile { path, content }), None),
                    Some(Err(cause)) => (None, Some(cause)),
                    None => (None, None),
                };
                let dir = config_dir(cfg.state_dir.as_str(), self.name.as_str());
                match build_spec(cfg, &self.overlay, defaults, dir.as_str(), file) {
                    Ok(spec) => match unreadable {
                        Some(cause) => {
                            self.stage = ApplyStage::Over;
                            ApplyAction::GiveUp(Failure::caused(task.as_str(), cause))
                        },
                        None => {
                            self.stage = ApplyStage::Ensured;
                            ApplyAction::Ensure(spec)
                        },
                    },
                    Err(f) => {
                        self.stage = ApplyStage::Over;
                        ApplyAction::GiveUp(f)
                    },
                }
            },
            ApplyEvent::Ensured(Err(f)) => {
                self.stage = ApplyStage::Over;
                ApplyAction::GiveUp(f)
            },
            ApplyEvent::Ensured(Ok(outcome)) => {
                self.stage = ApplyStage::Over;
                let path = self.config_path(cfg);
                let missing_env_file = if self.has_env_file {
                    None
                } else {
                    Some(env_file_path(self.overlay.fleet.name.as_str()))
                };
                ApplyAction::Finish(
                    applied(
                        self.name.as_str(),
                        self.bearer_is_new,
                        path.as_str(),
                        self.written,
                        missing_env_file,
                        outcome,
                    ),
                )
            },
        }
    }
}

/// Begins to apply a claw. One without an overlay cannot be applied.
pub fn apply_one(name: &str, overlay: Option<ClawOverlay>, cfg: &OrchestratorConfig) -> (r: Result<
    (Applying, ApplyAction),
    Failure,
>)
    ensures
        match overlay {
            Some(o) => r matches Ok(started) && {
                &&& started.0.name@ == name@
                &&& started.0.overlay == o
                &&& started.0.stage == ApplyStage::BaseRead
                &&& started.1 matches ApplyAction::ReadBase { path } && path@ == paths::joined(
                    cfg.fleet_dir@,
                    "base.toml"@,
                )
            },
            None => r matches Err(f) && f@ == failure::plain_failure("no overlay for "@ + name@),
        },
{
    match overlay {
        Some(overlay) => Ok(
            (
                Applying {
                    name: name.to_owned(),
                    overlay,
                    base: String::new(),
                    bearer: String::new(),
                    bearer_is_new: false,
                    rendered: String::new(),
                    written: false,
                    has_env_file: false,
                    stage: ApplyStage::BaseRead,
                },
                ApplyAction::ReadBase { path: paths::join(cfg.fleet_dir.as_str(), "base.toml") },
            ),
        ),
        None => Err(no_overlay(name)),
    }
}

/// Nothing is written where the claw already has the configuration that would
/// be written.
pub proof fn law_same_configuration_is_not_written(
    cfg: OrchestratorConfig,
    run: Applying,
    content: String,
    later: Applying,
    action: ApplyAction,
)
    requires
        content@ == run.rendered@,
        apply_goes_on(cfg, run, ApplyEvent::OnDisk(Some(content)), later, action),
    ensures
        !(action is WriteConfig),
        !later.written,
{
    assert(text::opt_text(Some(content)) == Some(run.rendered@));
}

// ---- what holds of limits ---------------------------------------------

proof fn lemma_decimal_is_read(n: nat)
    ensures
        digits_value(text::decimal_text(n)) == n,
        all_digits(text::decimal_text(n)),
    decreases n,
{
    text::law_decimal_notation_spells_the_number(n);
    if n >= 10 {
        lemma_decimal_is_read(n / 10);
        assert(text::decimal_text(n).drop_last() =~= text::decimal_text(n / 10));
    } else {
        reveal_with_fuel(digits_value, 2);
        assert(text::decimal_text(n).drop_last() =~= Seq::<char>::empty());
    }
}

/// A number that is written down is read back as it was, with a plus before it too;
/// one that is too large or too small for 64 bits is not read.
pub proof fn law_written_number_is_read_back(n: int)
    ensures
        i64::MIN <= n <= i64::MAX ==> spelled(text::integer_text(n)) == Some(n),
        !(i64::MIN <= n <= i64::MAX) ==> spelled(text::integer_text(n)) is None,
        0 <= n <= i64::MAX ==> spelled(seq!['+'] + text::integer_text(n)) == Some(n),
{
    if n < 0 {
        let digits = text::decimal_text((-n) as nat);
        lemma_decimal_is_read((-n) as nat);
        assert((seq!['-'] + digits).skip(1) =~= digits);
    } else {
        let digits = text::decimal_text(n as nat);
        lemma_decimal_is_read(n as nat);
        assert('0' <= digits[0] <= '9');
        assert((seq!['+'] + digits).skip(1) =~= digits);
    }
}

/// A text with anything but digits behind its first character is no number, nor is
/// one that has no digit.
pub proof fn law_other_text_is_no_number(s: Seq<char>, i: int)
    requires
        s.len() == 0 || s == seq!['-'] || s == seq!['+'] || 0 <= i < s.len() && !('0' <= s[i] <= '9')
            && (i > 0 || s[0] != '-' && s[0] != '+'),
    ensures
        spelled(s) is None,
{
    if s.len() > 0 && (s[0] == '-' || s[0] == '+') {
        if 0 < i < s.len() {
            assert(s.skip(1)[i - 1] == s[i]);
        }
    }
}

/// A memory limit is a number of bytes, or of units of 1024, 1024 * 1024 or
/// 1024 * 1024 * 1024 bytes, in small letters or capitals; what is too much for 64
/// bits stands for the most that they hold. White space around it does not count.
pub proof fn law_memory_limit_is_number_times_unit(
    before: Seq<char>,
    n: nat,
    unit: char,
    after: Seq<char>,
)
    requires
        n <= i64::MAX,
        forall|i: int| 0 <= i < before.len() ==> text::is_white_space(#[trigger] before[i]),
        forall|i: int| 0 <= i < after.len() ==> text::is_white_space(#[trigger] after[i]),
    ensures
        mem_limit(before + text::decimal_text(n) + after) == Some(n as int),
        ({
            let r = mem_limit(before + text::decimal_text(n).push(unit) + after);
            &&& unit == 'k' || unit == 'K' ==> r == Some(
                if n * 1024 > i64::MAX {
                    i64::MAX as int
                } else {
                    n as int * 1024
                },
            )
            &&& unit == 'm' || unit == 'M' ==> r == Some(
                if n * (1024 * 1024) > i64::MAX {
                    i64::MAX as int
                } else {
                    n as int * (1024 * 1024)
                },
            )
            &&& unit == 'g' || unit == 'G' ==> r == Some(
                if n * (1024 * 1024 * 1024) > i64::MAX {
                    i64::MAX as int
                } else {
                    n as int * (1024 * 1024 * 1024)
                },
            )
        }),
{
    let digits = text::decimal_text(n);
    lemma_decimal_is_read(n);
    law_written_number_is_read_back(n as int);
    assert(text::integer_text(n as int) == digits);
    text::law_trimming_takes_white_space_away(digits);
    assert('0' <= digits[0] <= '9');
    assert('0' <= digits[digits.len() - 1] <= '9');
    text::law_trimming_frees_what_stands_in_white_space(before, digits, after);
    text::law_trimming_frees_what_stands_in_white_space(Seq::empty(), digits, Seq::empty());
    assert(Seq::<char>::empty() + digits + Seq::<char>::empty() =~= digits);
    let with_unit = digits.push(unit);
    assert(with_unit[0] == digits[0]);
    if unit_bytes(unit) is Some {
        text::law_trimming_frees_what_stands_in_white_space(before, with_unit, after);
        assert(with_unit.drop_last() =~= digits);
        assert(n * 1024 >= 0 && n * 1048576 >= 0 && n * 1073741824 >= 0);
    }
}

/// White space between the number and its unit does not count, and a negative limit is
/// the negative number of units, held within 64 bits.
pub proof fn law_limit_may_be_spaced_or_negative(n: int, between: Seq<char>, unit: char)
    requires
        i64::MIN <= n <= i64::MAX,
        forall|i: int| 0 <= i < between.len() ==> text::is_white_space(#[trigger] between[i]),
        unit == 'k' || unit == 'K' || unit == 'm' || unit == 'M' || unit == 'g' || unit == 'G',
    ensures
        ({
            let bytes = n * (if unit == 'k' || unit == 'K' {
                1024int
            } else if unit == 'm' || unit == 'M' {
                1024int * 1024
            } else {
                1024int * 1024 * 1024
            });
            mem_limit(text::integer_text(n) + between + seq![unit]) == Some(
                if bytes > i64::MAX {
                    i64::MAX as int
                } else if bytes < i64::MIN {
                    i64::MIN as int
                } else {
                    bytes
                },
            )
        }),
{
    lemma_spaced_limit(n, between, unit);
    if unit == 'k' || unit == 'K' {
        assert(unit_bytes(unit) == Some(1_024int));
    } else if unit == 'm' || unit == 'M' {
        assert(unit_bytes(unit) == Some(1_048_576int));
    } else {
        assert(unit_bytes(unit) == Some(1_073_741_824int));
    }
}

proof fn lemma_spaced_limit(n: int, between: Seq<char>, unit: char)
    requires
        i64::MIN <= n <= i64::MAX,
        forall|i: int| 0 <= i < between.len() ==> text::is_white_space(#[trigger] between[i]),
        unit_bytes(unit) is Some,
    ensures
        mem_limit(text::integer_text(n) + between + seq![unit]) == Some(
            saturated(n * unit_bytes(unit)->0),
        ),
{
    let number = text::integer_text(n);
    lemma_number_has_no_space_around(n);
    law_written_number_is_read_back(n);
    let whole = number + between + seq![unit];
    assert(whole[0] == number[0]);
    assert(whole.last() == unit);
    assert(!text::is_white_space(unit));
    let none = Seq::<char>::empty();
    text::law_trimming_frees_what_stands_in_white_space(none, whole, none);
    assert(none + whole + none =~= whole);
    assert(whole.drop_last() =~= number + between);
    text::law_trimming_frees_what_stands_in_white_space(none, number, between);
    assert(none + number + between =~= number + between);
}

proof fn lemma_number_has_no_space_around(n: int)
    ensures
        text::integer_text(n).len() > 0,
        !text::is_white_space(text::integer_text(n)[0]),
        !text::is_white_space(text::integer_text(n).last()),
{
    let number = text::integer_text(n);
    let digits = text::decimal_text(if n < 0 {
        (-n) as nat
    } else {
        n as nat
    });
    text::law_decimal_notation_spells_the_number(if n < 0 {
        (-n) as nat
    } else {
        n as nat
    });
    assert(number.last() == digits[digits.len() - 1]);
    assert(number[0] == '-' || number[0] == digits[0]);
}

/// An empty limit, or one that holds no number, is no limit.
pub proof fn law_limit_without_a_number_is_none(s: Seq<char>)
    requires
        forall|i: int| 0 <= i < s.len() ==> text::is_white_space(#[trigger] s[i]),
    ensures
        mem_limit(s) is None,
{
    text::law_trimming_takes_white_space_away(s);
    if text::trimmed(s).len() > 0 {
        let (i, j) = choose|i: int, j: int|
            0 <= i <= j <= s.len() && text::trimmed(s) == #[trigger] s.subrange(i, j) && (forall|
                k: int,
            |
                0 <= k < s.len() && !(i <= k < j) ==> text::is_white_space(#[trigger] s[k]));
        assert(text::trimmed(s)[0] == s[i]);
    }
}

// ---- what holds of claws ----------------------------------------------

/// The overlay's image comes before the manifest's, and the manifest's before that
/// of the orchestrator; where none names one, the claw cannot be applied.
pub proof fn law_nearest_image_counts(
    cfg: OrchestratorConfig,
    overlay: ClawOverlay,
    d: ClawDefaults,
    config_dir: &str,
    env_file: Option<EnvFile>,
    r: Result<ClawSpec, Failure>,
)
    requires
        call_ensures(build_spec, (&cfg, &overlay, Some(d), config_dir, env_file), r),
    ensures
        overlay.fleet.image matches Some(image) ==> (r matches Ok(spec) && spec.image@ == image@),
        overlay.fleet.image is None && d.image is Some ==> (r matches Ok(spec) && spec.image@
            == d.image->0@),
        overlay.fleet.image is None && d.image is None && cfg.default_image is Some ==> (
        r matches Ok(spec) && spec.image@ == cfg.default_image->0@),
        overlay.fleet.image is None && d.image is None && cfg.default_image is None ==> (
        r matches Err(f) && f.message@
            == "no image — set fleet.defaults.image or overlay [_fleet] image"@),
{
}

/// What the manifest sets for claws comes before what the orchestrator sets, field
/// by field, and what neither sets has its last resort.
pub proof fn law_manifest_comes_before_the_orchestrator(
    cfg: OrchestratorConfig,
    overlay: ClawOverlay,
    d: ClawDefaults,
    config_dir: &str,
    env_file: Option<EnvFile>,
    spec: ClawSpec,
)
    requires
        call_ensures(build_spec, (&cfg, &overlay, Some(d), config_dir, env_file), Ok(spec)),
    ensures
        d.restart matches Some(s) ==> spec.restart@ == s@,
        d.restart is None && cfg.default_restart is Some ==> spec.restart@
            == cfg.default_restart->0@,
        d.restart is None && cfg.default_restart is None ==> spec.restart@ == "unless-stopped"@,
        d.cpu_limit is Some ==> spec.cpu_limit == d.cpu_limit,
        d.cpu_limit is None ==> spec.cpu_limit == cfg.default_cpu_limit,
        d.mem_limit matches Some(s) && mem_limit(s@) is Some ==> (
        spec.mem_limit_bytes matches Some(n) && mem_limit(d.mem_limit->0@) == Some(n as int)),
        d.mem_limit is None || mem_limit(d.mem_limit->0@) is None ==> spec.mem_limit_bytes
            == cfg.default_mem_limit_bytes,
        d.log_max_size matches Some(s) ==> spec.log.max_size@ == s@,
        d.log_max_size is None && cfg.default_log_max_size is Some ==> spec.log.max_size@
            == cfg.default_log_max_size->0@,
        d.log_max_size is None && cfg.default_log_max_size is None ==> spec.log.max_size@
            == "20m"@,
        d.log_max_file matches Some(n) ==> spec.log.max_file == n,
        d.log_max_file is None && cfg.default_log_max_file is Some ==> spec.log.max_file
            == cfg.default_log_max_file->0,
        d.log_max_file is None && cfg.default_log_max_file is None ==> spec.log.max_file == 3,
{
}

/// A claw bears its overlay's name, keeps its data in a volume of that name, reads
/// its configuration where it was put, joins the network of the claws, publishes no
/// port, and is told the port of its gateway and where its configuration is.
pub proof fn law_claw_is_its_overlays(
    cfg: OrchestratorConfig,
    overlay: ClawOverlay,
    defaults: Option<ClawDefaults>,
    config_dir: &str,
    env_file: Option<EnvFile>,
    spec: ClawSpec,
)
    requires
        call_ensures(build_spec, (&cfg, &overlay, defaults, config_dir, env_file), Ok(spec)),
    ensures
        spec.name@ == overlay.fleet.name@,
        spec.data_volume@ == "claw-data-"@ + overlay.fleet.name@,
        spec.config_dir@ == config_dir@,
        spec.network@ == cfg.claws_network@,
        spec.published_ports@.len() == 0,
        wire::text_map(spec.env@) == map![
            "ZEROCLAW_ALLOW_PUBLIC_BIND"@ => "true"@,
            "ZEROCLAW_GATEWAY_PORT"@ => text::decimal_text(cfg.proxy.claw_port as nat),
            "ZEROCLAW_CONFIG_DIR"@ => "/zeroclaw-data/config"@,
        ],
        env_file is None ==> spec.env_file is None && spec.file_env@.dom() =~= Set::empty(),
        env_file matches Some(f) ==> (spec.env_file matches Some(p) && p@ == f.path@)
            && wire::text_map(spec.file_env@) == env_file::file_variables(f.content@),
{
    if env_file is None {
        assert(wire::text_map(spec.file_env@).dom() =~= spec.file_env@.dom());
    }
}

/// A manifest that cannot be read sets nothing: the claw is that of a manifest
/// without defaults.
pub proof fn law_unread_manifest_sets_nothing(
    cfg: OrchestratorConfig,
    overlay: ClawOverlay,
    config_dir: &str,
    env_file: Option<EnvFile>,
    r: Result<ClawSpec, Failure>,
)
    requires
        call_ensures(build_spec, (&cfg, &overlay, None::<ClawDefaults>, config_dir, env_file), r),
    ensures
        r is Ok <==> overlay.fleet.image is Some || cfg.default_image is Some,
        r matches Ok(spec) ==> {
            &&& spec.mem_limit_bytes == cfg.default_mem_limit_bytes
            &&& spec.cpu_limit == cfg.default_cpu_limit
            &&& spec.image@ == (match overlay.fleet.image {
                Some(image) => image@,
                None => cfg.default_image->0@,
            })
            &&& cfg.default_restart matches Some(s) ==> spec.restart@ == s@
        },
{
}

/// What is injected into a claw's configuration is the claw's bearer and what the
/// orchestrator says of the hub.
pub proof fn law_injections_are_the_orchestrators(
    cfg: OrchestratorConfig,
    bearer: &str,
    inj: Injections,
)
    requires
        call_ensures(injections, (&cfg, bearer), inj),
    ensures
        inj.orchestrator_bearer@ == bearer@,
        inj.mcp_bearer_placeholder@ == cfg.mcp_bearer_placeholder@,
        inj.mcp_server_url@ == cfg.mcp_server_url@,
        inj.mcp_server_name@ == cfg.mcp_server_name@,
        inj.channel_secrets@.len() == 0,
{
}

/// The result for a claw tells of its bearer, of its configuration and of its
/// container, in this order, and warns of an environment file that is missing.
pub proof fn law_result_tells_what_was_done(
    name: &str,
    bearer_is_new: bool,
    config_path: &str,
    config_written: bool,
    missing_env_file: Option<String>,
    outcome: EnsureOutcome,
    r: ApplyResult,
)
    requires
        call_ensures(
            applied,
            (name, bearer_is_new, config_path, config_written, missing_env_file, outcome),
            r,
        ),
    ensures
        r.name@ == name@ && r.rendered,
        r.steps@.len() == 3,
        r.steps@[0]@ == (if bearer_is_new {
            "bearer:generated"@
        } else {
            "bearer:existing"@
        }),
        r.steps@[1]@ == (if config_written {
            "config:wrote:"@
        } else {
            "config:unchanged:"@
        }) + config_path@,
        r.steps@[2]@ == "container:"@ + r.container@,
        outcome == EnsureOutcome::Created ==> r.container@ == "created+started"@,
        outcome == EnsureOutcome::Recreated ==> r.container@ == "recreated+started"@,
        outcome == EnsureOutcome::Unchanged ==> r.container@ == "unchanged"@,
        missing_env_file is None ==> r.warnings@.len() == 0,
        missing_env_file matches Some(path) ==> r.warnings@.len() == 1 && r.warnings@[0]@
            == "no env_file at "@ + path@
            + " — claw will start without OPENAI_API_KEY; LiteLLM calls will fail"@,
{
    let steps = r@.steps;
    assert(steps.len() == 3);
    assert(steps[0] == r.steps@[0]@ && steps[1] == r.steps@[1]@ && steps[2] == r.steps@[2]@);
    let warnings = r@.warnings;
    assert(warnings.len() == r.warnings@.len());
    if missing_env_file is Some {
        assert(warnings[0] == r.warnings@[0]@);
    }
}

// ---- what holds of every application ----------------------------------

/// A new bearer is written into the claw's own file before the configuration that
/// accepts it is made; one that was there is not written again.
pub proof fn law_new_bearer_is_written_first(
    cfg: OrchestratorConfig,
    run: Applying,
    b: Bearer,
    later: Applying,
    action: ApplyAction,
)
    requires
        apply_goes_on(cfg, run, ApplyEvent::Bearer(b), later, action),
    ensures
        b.is_new ==> (action matches ApplyAction::WriteBearer { path, bearer } && bearer@ == b.value@
            && path@ == paths::joined(
            paths::joined(cfg.state_dir@, run.name@),
            "bearer.txt"@,
        )),
        !b.is_new ==> !(action is WriteBearer),
        later.bearer@ == b.value@ && later.bearer_is_new == b.is_new,
{
}

/// What the claw's file is compared with, and what is written over it where it
/// differs, is the base with the overlay, the claw's bearer and the hub in it; it
/// goes to the claw's own file.
pub proof fn law_configuration_is_rendered_with_the_bearer(
    cfg: OrchestratorConfig,
    run: Applying,
    event: ApplyEvent,
    later: Applying,
    path: String,
)
    requires
        event is Bearer || event is Done,
        apply_goes_on(cfg, run, event, later, ApplyAction::ReadConfig { path }),
    ensures
        path@ == paths::joined(
            paths::joined(paths::joined(cfg.state_dir@, run.name@), "config"@),
            "config.toml"@,
        ),
        later.stage == ApplyStage::ConfigRead,
        exists|inj: Injections, base: Map<Seq<char>, document::ItemView>|
            #![trigger inj.configured(base, document::contents(run.overlay.body))]
            {
                &&& document::toml_document(run.base@) == Ok::<
                    Map<Seq<char>, document::ItemView>,
                    Seq<char>,
                >(base)
                &&& document::toml_pretty(
                    inj.configured(base, document::contents(run.overlay.body)),
                ) == Ok::<Seq<char>, Seq<char>>(later.rendered@)
                &&& inj.orchestrator_bearer@ == (match event {
                    ApplyEvent::Bearer(b) => b.value@,
                    _ => run.bearer@,
                })
                &&& inj.mcp_bearer_placeholder@ == cfg.mcp_bearer_placeholder@
                &&& inj.mcp_server_url@ == cfg.mcp_server_url@
                &&& inj.mcp_server_name@ == cfg.mcp_server_name@
                &&& inj.channel_secrets@.len() == 0
            },
{
    let inj = choose|inj: Injections| #[trigger]
        injected(inj, cfg, later.bearer@) && renders_with(
            cfg,
            later,
            inj,
            later.rendered@,
            later.stage,
            ApplyAction::ReadConfig { path },
        );
    let base = document::toml_document(run.base@)->Ok_0;
    assert(document::toml_pretty(inj.configured(base, document::contents(run.overlay.body)))
        == Ok::<Seq<char>, Seq<char>>(later.rendered@));
}

/// A configuration that differs from what the claw has is written as it was
/// rendered, into the claw's own file, and told as written.
pub proof fn law_other_configuration_is_written(
    cfg: OrchestratorConfig,
    run: Applying,
    content: Option<String>,
    later: Applying,
    action: ApplyAction,
)
    requires
        content is None || content->0@ != run.rendered@,
        apply_goes_on(cfg, run, ApplyEvent::OnDisk(content), later, action),
    ensures
        action matches ApplyAction::WriteConfig { path, content } && content@ == run.rendered@
            && path@ == paths::joined(
            paths::joined(paths::joined(cfg.state_dir@, run.name@), "config"@),
            "config.toml"@,
        ),
        later.written,
        later.stage == ApplyStage::ConfigWritten,
{
}

/// Before the container, the manifest is read again and the claw's environment file
/// is looked for, each where it is kept.
pub proof fn law_survey_asks_for_manifest_and_environment(
    cfg: OrchestratorConfig,
    run: Applying,
    event: ApplyEvent,
    later: Applying,
    fleet_yaml: String,
    env_file: String,
)
    requires
        answers_apply(run.stage, event),
        apply_goes_on(cfg, run, event, later, ApplyAction::Survey { fleet_yaml, env_file }),
    ensures
        fleet_yaml@ == paths::joined(cfg.fleet_dir@, "fleet.yaml"@),
        env_file@ == "/etc/zeroclaw-fleet-secrets/"@ + run.overlay.fleet.name@ + ".env"@,
        event is Done || (event matches ApplyEvent::OnDisk(Some(s)) && s@ == run.rendered@),
{
    let action = ApplyAction::Survey { fleet_yaml, env_file };
    if renders(cfg, later, later.rendered@, later.stage, action) {
        let inj = choose|inj: Injections| #[trigger]
            injected(inj, cfg, later.bearer@) && renders_with(
                cfg,
                later,
                inj,
                later.rendered@,
                later.stage,
                action,
            );
        assert(renders_with(cfg, later, inj, later.rendered@, later.stage, action));
    }
}

/// The container is ensured for the claw of the overlay, with the variables of the
/// environment file that was found. A file that is there and cannot be read stops
/// the application.
pub proof fn law_container_is_the_overlays(
    cfg: OrchestratorConfig,
    run: Applying,
    defaults: Option<ClawDefaults>,
    env_file: Option<Result<String, String>>,
    later: Applying,
    action: ApplyAction,
)
    requires
        apply_goes_on(cfg, run, ApplyEvent::Survey { defaults, env_file }, later, action),
    ensures
        env_file matches Some(Err(_)) ==> action is GiveUp && later.stage == ApplyStage::Over,
        action matches ApplyAction::Ensure(spec) ==> {
            &&& spec.name@ == run.overlay.fleet.name@
            &&& spec.config_dir@ == paths::joined(
                paths::joined(cfg.state_dir@, run.name@),
                "config"@,
            )
            &&& spec.network@ == cfg.claws_network@
            &&& env_file matches Some(Ok(content)) ==> wire::text_map(spec.file_env@)
                == env_file::file_variables(content@) && (spec.env_file matches Some(p) && p@
                == "/etc/zeroclaw-fleet-secrets/"@ + run.overlay.fleet.name@ + ".env"@)
            &&& env_file is None ==> spec.env_file is None
        },
        action is Ensure || action is GiveUp,
        later.has_env_file == (env_file is Some),
        later.written == run.written && later.bearer_is_new == run.bearer_is_new,
{
}

/// An application that ends well tells what it did along the way: whether the bearer
/// was new, whether the configuration was written, what became of the container, and
/// that the environment file was missing where it was.
pub proof fn law_application_tells_what_it_did(
    cfg: OrchestratorConfig,
    run: Applying,
    outcome: EnsureOutcome,
    later: Applying,
    action: ApplyAction,
)
    requires
        apply_goes_on(cfg, run, ApplyEvent::Ensured(Ok(outcome)), later, action),
    ensures
        action matches ApplyAction::Finish(out) && {
            let path = paths::joined(
                paths::joined(paths::joined(cfg.state_dir@, run.name@), "config"@),
                "config.toml"@,
            );
            let missing = "/etc/zeroclaw-fleet-secrets/"@ + run.overlay.fleet.name@ + ".env"@;
            &&& out@.name == run.name@
            &&& out@.rendered
            &&& out@.steps.len() == 3
            &&& out@.steps[0] == (if run.bearer_is_new {
                "bearer:generated"@
            } else {
                "bearer:existing"@
            })
            &&& out@.steps[1] == (if run.written {
                "config:wrote:"@ + path
            } else {
                "config:unchanged:"@ + path
            })
            &&& out@.steps[2] == "container:"@ + out@.container
            &&& out@.container == (match outcome {
                EnsureOutcome::Created => "created+started"@,
                EnsureOutcome::Recreated => "recreated+started"@,
                EnsureOutcome::Unchanged => "unchanged"@,
            })
            &&& run.has_env_file ==> out@.warnings.len() == 0
            &&& !run.has_env_file ==> out@.warnings == seq![
                "no env_file at "@ + missing
                    + " — claw will start without OPENAI_API_KEY; LiteLLM calls will fail"@,
            ]
        },
{
}

/// A base that cannot be read, or is no TOML, ends the application with what was tried and
/// why it failed; nothing is written then.
pub proof fn law_unusable_base_ends_the_application(
    cfg: OrchestratorConfig,
    run: Applying,
    cause: String,
    b: Bearer,
    later: Applying,
    action: ApplyAction,
)
    requires
        apply_goes_on(cfg, run, ApplyEvent::Base(Err(cause)), later, action) || (!b.is_new
            && document::toml_document(run.base@) is Err && apply_goes_on(
            cfg,
            run,
            ApplyEvent::Bearer(b),
            later,
            action,
        )),
    ensures
        later.stage == ApplyStage::Over,
        action matches ApplyAction::GiveUp(f) && {
            ||| f@.message == "read "@ + paths::joined(cfg.fleet_dir@, "base.toml"@) && f@.causes
                == seq![cause@]
            ||| f@.message == "parse base.toml"@ && f@.causes == seq![
                document::toml_document(run.base@)->Err_0,
            ]
        },
{
}

/// A document into which nothing can be put, or which cannot be written, ends the
/// application too: the first without a failure of its own, the second with the writer's
/// words.
pub proof fn law_unwritable_document_ends_the_application(
    cfg: OrchestratorConfig,
    run: Applying,
    b: Bearer,
    later: Applying,
    action: ApplyAction,
    base: Map<Seq<char>, document::ItemView>,
)
    requires
        !b.is_new,
        document::toml_document(run.base@) == Ok::<Map<Seq<char>, document::ItemView>, Seq<char>>(
            base,
        ),
        apply_goes_on(cfg, run, ApplyEvent::Bearer(b), later, action),
    ensures
        action is Unrenderable || action is GiveUp || action is ReadConfig,
        !(action is ReadConfig) ==> later.stage == ApplyStage::Over,
        ({
            let merged = render::overlaid(base, document::contents(run.overlay.body));
            merged.dom().contains("gateway"@) && !(merged["gateway"@] is Table)
                || merged.dom().contains("mcp"@) && !(merged["mcp"@] is Table)
                ==> action is Unrenderable
        }),
        action matches ApplyAction::GiveUp(f) ==> f@.message == "serialize merged config"@
            && f@.causes.len() == 1,
{
    let inj = choose|inj: Injections| #[trigger]
        injected(inj, cfg, later.bearer@) && renders_with(
            cfg,
            later,
            inj,
            later.rendered@,
            later.stage,
            action,
        );
    assert(renders_with(cfg, later, inj, later.rendered@, later.stage, action));
}

/// A failure outside ends the application with that very failure, and nothing else
/// is done.
pub proof fn law_failure_ends_the_application(
    cfg: OrchestratorConfig,
    run: Applying,
    f: Failure,
    later: Applying,
    action: ApplyAction,
)
    requires
        apply_goes_on(cfg, run, ApplyEvent::Done(Err(f)), later, action) || apply_goes_on(
            cfg,
            run,
            ApplyEvent::Ensured(Err(f)),
            later,
            action,
        ),
    ensures
        action == ApplyAction::GiveUp(f),
        later.stage == ApplyStage::Over,
{
}

} // verus!
