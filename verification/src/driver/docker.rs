//! Claws as Docker containers.

use vstd::prelude::*;
use vstd::string::*;
use crate::driver::{ClawHealth, ClawSpec, ClawStatus, EnsureOutcome, CLAW_LABEL, MANAGED_LABEL};
use crate::keymap::KeyMap;
use crate::{driver, text, wire};

verus! {

// ---- environments -----------------------------------------------------

/// Whether two environments hold the same entries, each as often, in whatever
/// order.
pub fn env_lists_equal(got: &[String], want: &[String]) -> (r: bool)
    ensures
        r == (text::texts(got@).to_multiset() == text::texts(want@).to_multiset()),
{
    broadcast use vstd::seq_lib::group_to_multiset_ensures;

    let ghost all_got = text::texts(got@);
    let ghost all_want = text::texts(want@);
    let mut rest: Vec<String> = Vec::new();
    let mut k: usize = 0;
    while k < want.len()
        invariant
            k <= want.len(),
            rest@ == want@.take(k as int),
        decreases want.len() - k,
    {
        assert(want@.take(k + 1) =~= want@.take(k as int).push(want@[k as int]));
        rest.push(want[k].clone());
        k = k + 1;
    }
    assert(want@.take(want@.len() as int) =~= want@);
    let mut i: usize = 0;
    assert(all_got.take(0).to_multiset().add(text::texts(rest@).to_multiset())
        =~= all_want.to_multiset());
    while i < got.len()
        invariant
            i <= got.len(),
            all_got == text::texts(got@),
            all_want == text::texts(want@),
            all_got.take(i as int).to_multiset().add(text::texts(rest@).to_multiset())
                == all_want.to_multiset(),
        decreases got.len() - i,
    {
        broadcast use vstd::seq_lib::group_to_multiset_ensures;

        let ghost g = got@[i as int]@;
        assert(all_got.take(i + 1) =~= all_got.take(i as int).push(g));
        match position(&rest, got[i].as_str()) {
            Some(j) => {
                let ghost before = text::texts(rest@);
                rest.remove(j);
                assert(text::texts(rest@) =~= before.remove(j as int));
                assert(all_got.take(i + 1).to_multiset().add(text::texts(rest@).to_multiset())
                    =~= all_got.take(i as int).to_multiset().add(before.to_multiset()));
            },
            None => {
                proof {
                    lemma_prefix_count(all_got, i + 1, g);
                    assert(all_got.take(i + 1).to_multiset().count(g) == all_got.take(
                        i as int,
                    ).to_multiset().count(g) + 1);
                    assert(text::texts(rest@).to_multiset().count(g) == 0);
                    assert(all_want.to_multiset().count(g) == all_got.take(
                        i as int,
                    ).to_multiset().count(g));
                }
                return false;
            },
        }
        i = i + 1;
    }
    assert(all_got.take(all_got.len() as int) =~= all_got);
    proof {
        let left = text::texts(rest@).to_multiset();
        assert(all_got.to_multiset().add(left) == all_want.to_multiset());
        if rest@.len() == 0 {
            assert(text::texts(rest@) =~= Seq::<Seq<char>>::empty());
            assert(all_got.to_multiset() =~= all_want.to_multiset());
        } else {
            let x = text::texts(rest@)[0];
            assert(text::texts(rest@).contains(x));
            assert(left.count(x) > 0);
            assert(all_want.to_multiset().count(x) != all_got.to_multiset().count(x));
        }
    }
    rest.len() == 0
}

proof fn lemma_prefix_count(s: Seq<Seq<char>>, n: int, x: Seq<char>)
    requires
        0 <= n <= s.len(),
    ensures
        s.take(n).to_multiset().count(x) <= s.to_multiset().count(x),
    decreases s.len() - n,
{
    broadcast use vstd::seq_lib::group_to_multiset_ensures;

    if n < s.len() {
        assert(s.take(n + 1) =~= s.take(n).push(s[n]));
        lemma_prefix_count(s, n + 1, x);
    } else {
        assert(s.take(n) =~= s);
    }
}

/// A place at which a list of strings holds the text.
fn position(v: &Vec<String>, s: &str) -> (r: Option<usize>)
    ensures
        match r {
            Some(j) => j < v@.len() && text::texts(v@)[j as int] == s@,
            None => !text::texts(v@).contains(s@),
        },
{
    let mut i: usize = 0;
    while i < v.len()
        invariant
            i <= v.len(),
            forall|j: int| 0 <= j < i ==> (#[trigger] text::texts(v@)[j]) != s@,
        decreases v.len() - i,
    {
        if text::same_text(v[i].as_str(), s) {
            return Some(i);
        }
        i = i + 1;
    }
    None
}

/// The entries of an environment, in the order of their names.
pub open spec fn env_entries(env: KeyMap<String>) -> Seq<Seq<char>> {
    Seq::new(env.keys().len(), |i: int| env.keys()[i] + "="@ + env.values()[i]@)
}

fn env_list(env: &KeyMap<String>) -> (r: Vec<String>)
    ensures
        text::texts(r@) == env_entries(*env),
{
    let n = env.len();
    let mut out: Vec<String> = Vec::new();
    let mut i: usize = 0;
    while i < n
        invariant
            i <= n,
            n == env.keys().len(),
            n == env.values().len(),
            out@.len() == i,
            forall|j: int| 0 <= j < i ==> (#[trigger] out@[j])@ == env_entries(*env)[j],
        decreases n - i,
    {
        let mut entry = env.key_at(i).to_owned();
        entry.append("=");
        entry.append(env.value_at(i).as_str());
        out.push(entry);
        i = i + 1;
    }
    assert(text::texts(out@) =~= env_entries(*env));
    out
}

/// The entries among the first `n` variables of a file that the environment does
/// not hold itself.
pub open spec fn further_entries(
    vars: KeyMap<String>,
    env: KeyMap<String>,
    n: int,
) -> Seq<Seq<char>>
    decreases n,
{
    if n <= 0 {
        Seq::empty()
    } else if env@.dom().contains(vars.keys()[n - 1]) {
        further_entries(vars, env, n - 1)
    } else {
        further_entries(vars, env, n - 1).push(
            vars.keys()[n - 1] + "="@ + vars.values()[n - 1]@,
        )
    }
}

/// The environment of a claw's container: that of the claw, and what its file
/// adds.
pub open spec fn container_env(spec: ClawSpec) -> Seq<Seq<char>> {
    env_entries(spec.env) + further_entries(
        spec.file_env,
        spec.env,
        spec.file_env.keys().len() as int,
    )
}

fn full_env(spec: &ClawSpec) -> (r: Vec<String>)
    ensures
        text::texts(r@) == container_env(*spec),
{
    broadcast use text::lemma_texts_push;

    let mut out = env_list(&spec.env);
    let vars = &spec.file_env;
    let n = vars.len();
    let mut i: usize = 0;
    assert(text::texts(out@) =~= env_entries(spec.env) + further_entries(*vars, spec.env, 0));
    while i < n
        invariant
            i <= n,
            n == vars.keys().len(),
            n == vars.values().len(),
            *vars == spec.file_env,
            text::texts(out@) == env_entries(spec.env) + further_entries(
                *vars,
                spec.env,
                i as int,
            ),
        decreases n - i,
    {
        broadcast use text::lemma_texts_push;

        let ghost before = text::texts(out@);
        if !spec.env.contains_key(vars.key_at(i)) {
            let mut entry = vars.key_at(i).to_owned();
            entry.append("=");
            entry.append(vars.value_at(i).as_str());
            out.push(entry);
            assert(text::texts(out@) =~= before.push(entry@));
        }
        i = i + 1;
        assert(text::texts(out@) =~= env_entries(spec.env) + further_entries(
            *vars,
            spec.env,
            i as int,
        ));
    }
    out
}

/// Every variable of a claw's file that the claw does not set itself reaches its
/// container, with the value that the file gives it.
pub proof fn law_file_reaches_the_container(spec: ClawSpec, i: int)
    requires
        0 <= i < spec.file_env.keys().len(),
        !spec.env@.dom().contains(spec.file_env.keys()[i]),
    ensures
        container_env(spec).contains(
            spec.file_env.keys()[i] + "="@ + spec.file_env.values()[i]@,
        ),
{
    let vars = spec.file_env;
    let n = vars.keys().len() as int;
    let further = further_entries(vars, spec.env, n);
    let entry = vars.keys()[i] + "="@ + vars.values()[i]@;
    lemma_further_entries(vars, spec.env, n, i);
    let j = further.index_of(entry);
    assert(container_env(spec)[env_entries(spec.env).len() + j] == entry);
}

proof fn lemma_further_entries(vars: KeyMap<String>, env: KeyMap<String>, n: int, i: int)
    requires
        0 <= i < n,
        !env@.dom().contains(vars.keys()[i]),
    ensures
        further_entries(vars, env, n).contains(vars.keys()[i] + "="@ + vars.values()[i]@),
    decreases n,
{
    let entry = vars.keys()[i] + "="@ + vars.values()[i]@;
    let all = further_entries(vars, env, n);
    if i == n - 1 {
        assert(all.last() == entry);
    } else {
        lemma_further_entries(vars, env, n - 1, i);
        let rest = further_entries(vars, env, n - 1);
        assert(all[rest.index_of(entry)] == entry);
    }
}

// ---- containers -------------------------------------------------------

/// What a mount draws from.
#[derive(Debug, Clone, Copy, PartialEq, Eq, Structural)]
pub enum MountKind {
    /// A named volume.
    Volume,
    /// A directory of the host.
    Bind,
    /// Anything else that the daemon knows.
    Other,
}

/// A mount of a container.
pub struct Mount {
    pub target: String,
    pub source: String,
    pub kind: MountKind,
    pub read_only: bool,
}

/// What a mount says.
pub struct MountView {
    pub target: Seq<char>,
    pub source: Seq<char>,
    pub kind: MountKind,
    pub read_only: bool,
}

impl View for Mount {
    type V = MountView;

    open spec fn view(&self) -> MountView {
        MountView {
            target: self.target@,
            source: self.source@,
            kind: self.kind,
            read_only: self.read_only,
        }
    }
}

/// What a list of mounts says.
pub open spec fn mounts_view(mounts: Seq<Mount>) -> Seq<MountView> {
    mounts.map_values(|m: Mount| m@)
}

/// When the daemon restarts a container.
#[derive(Debug, Clone, Copy, PartialEq, Eq, Structural)]
pub enum RestartPolicyName {
    No,
    Always,
    OnFailure,
    UnlessStopped,
}

/// How the daemon checks a container's health; times are in nanoseconds.
pub struct HealthCheck {
    pub test: Vec<String>,
    pub interval: i64,
    pub timeout: i64,
    pub retries: i64,
    pub start_period: i64,
}

/// What the daemon is asked to create.
pub struct ContainerConfig {
    pub image: String,
    /// Entries of the form `NAME=value`.
    pub env: Vec<String>,
    pub mounts: Vec<Mount>,
    /// Memory limit in bytes.
    pub memory: Option<i64>,
    /// CPU limit in billionths of a core.
    pub nano_cpus: Option<i64>,
    pub restart_policy: RestartPolicyName,
    pub log_driver: String,
    pub log_options: KeyMap<String>,
    pub network: String,
    pub healthcheck: HealthCheck,
    pub labels: KeyMap<String>,
    /// Published ports: the container's and the host's.
    pub ports: Vec<(u16, u16)>,
}

/// The policy that a text names. A text that names none stands for
/// `unless-stopped`, the empty text for `no`.
pub open spec fn policy_named(s: Seq<char>) -> RestartPolicyName {
    if s == "always"@ {
        RestartPolicyName::Always
    } else if s == "on-failure"@ {
        RestartPolicyName::OnFailure
    } else if s == "unless-stopped"@ {
        RestartPolicyName::UnlessStopped
    } else if s == "no"@ || s == ""@ {
        RestartPolicyName::No
    } else {
        RestartPolicyName::UnlessStopped
    }
}

/// The policy that a text names.
pub fn restart_policy_name(s: &str) -> (r: RestartPolicyName)
    ensures
        r == policy_named(s@),
{
    if text::same_text(s, "always") {
        RestartPolicyName::Always
    } else if text::same_text(s, "on-failure") {
        RestartPolicyName::OnFailure
    } else if text::same_text(s, "unless-stopped") {
        RestartPolicyName::UnlessStopped
    } else if text::same_text(s, "no") || text::same_text(s, "") {
        RestartPolicyName::No
    } else {
        RestartPolicyName::UnlessStopped
    }
}

/// The mounts of a claw: its data, and within it the directory of its
/// configuration, which stays writable so that bearers can be rotated.
pub open spec fn claw_mounts(spec: ClawSpec) -> Seq<MountView> {
    seq![
        MountView {
            target: "/zeroclaw-data"@,
            source: spec.data_volume@,
            kind: MountKind::Volume,
            read_only: false,
        },
        MountView {
            target: "/zeroclaw-data/config"@,
            source: spec.config_dir@,
            kind: MountKind::Bind,
            read_only: false,
        },
    ]
}

/// `config` is the container that `spec` describes.
pub open spec fn materializes(config: ContainerConfig, spec: ClawSpec) -> bool {
    &&& config.image@ == spec.image@
    &&& text::texts(config.env@) == container_env(spec)
    &&& mounts_view(config.mounts@) == claw_mounts(spec)
    &&& config.memory == spec.mem_limit_bytes
    &&& config.nano_cpus == spec.cpu_limit
    &&& config.restart_policy == policy_named(spec.restart@)
    &&& config.log_driver@ == "json-file"@
    &&& wire::text_map(config.log_options@) == map![
        "max-size"@ => spec.log.max_size@,
        "max-file"@ => text::decimal_text(spec.log.max_file as nat),
    ]
    &&& config.network@ == spec.network@
    &&& text::texts(config.healthcheck.test@) == seq!["CMD"@, "zeroclaw"@, "doctor"@]
    &&& config.healthcheck.interval == 30_000_000_000
    &&& config.healthcheck.timeout == 10_000_000_000
    &&& config.healthcheck.retries == 3
    &&& config.healthcheck.start_period == 30_000_000_000
    &&& wire::text_map(config.labels@) == map![
        MANAGED_LABEL@ => "true"@,
        CLAW_LABEL@ => spec.name@,
    ]
    &&& config.ports@ == spec.published_ports@
}

/// Translates claws into containers.
pub struct DockerDriver {}

impl DockerDriver {
    /// The container that a claw asks for.
    pub fn build_config(spec: &ClawSpec) -> (r: ContainerConfig)
        ensures
            materializes(r, *spec),
    {
        let mut mounts: Vec<Mount> = Vec::new();
        mounts.push(
            Mount {
                target: "/zeroclaw-data".to_owned(),
                source: spec.data_volume.clone(),
                kind: MountKind::Volume,
                read_only: false,
            },
        );
        mounts.push(
            Mount {
                target: "/zeroclaw-data/config".to_owned(),
                source: spec.config_dir.clone(),
                kind: MountKind::Bind,
                read_only: false,
            },
        );
        assert(mounts_view(mounts@) =~= claw_mounts(*spec));
        let mut log_options: KeyMap<String> = KeyMap::new();
        log_options.insert("max-size".to_owned(), spec.log.max_size.clone());
        log_options.insert("max-file".to_owned(), text::decimal(spec.log.max_file as u64));
        assert(wire::text_map(log_options@) =~= map![
            "max-size"@ => spec.log.max_size@,
            "max-file"@ => text::decimal_text(spec.log.max_file as nat),
        ]);
        let mut labels: KeyMap<String> = KeyMap::new();
        labels.insert(MANAGED_LABEL.to_owned(), "true".to_owned());
        labels.insert(CLAW_LABEL.to_owned(), spec.name.clone());
        assert(wire::text_map(labels@) =~= map![
            MANAGED_LABEL@ => "true"@,
            CLAW_LABEL@ => spec.name@,
        ]);
        let mut test: Vec<String> = Vec::new();
        test.push("CMD".to_owned());
        test.push("zeroclaw".to_owned());
        test.push("doctor".to_owned());
        assert(text::texts(test@) =~= seq!["CMD"@, "zeroclaw"@, "doctor"@]);
        ContainerConfig {
            image: spec.image.clone(),
            env: full_env(spec),
            mounts,
            memory: spec.mem_limit_bytes,
            nano_cpus: spec.cpu_limit,
            restart_policy: restart_policy_name(spec.restart.as_str()),
            log_driver: "json-file".to_owned(),
            log_options,
            network: spec.network.clone(),
            healthcheck: HealthCheck {
                test,
                interval: 30_000_000_000,
                timeout: 10_000_000_000,
                retries: 3,
                start_period: 30_000_000_000,
            },
            labels,
            ports: copy_ports(&spec.published_ports),
        }
    }
}

fn copy_ports(v: &Vec<(u16, u16)>) -> (r: Vec<(u16, u16)>)
    ensures
        r@ == v@,
{
    let mut out: Vec<(u16, u16)> = Vec::new();
    let mut i: usize = 0;
    while i < v.len()
        invariant
            i <= v.len(),
            out@ == v@.take(i as int),
        decreases v.len() - i,
    {
        assert(v@.take(i + 1) =~= v@.take(i as int).push(v@[i as int]));
        out.push(v[i]);
        i = i + 1;
    }
    assert(v@.take(v@.len() as int) =~= v@);
    out
}

// ---- what the daemon reports ------------------------------------------

/// What a container's health check reports.
#[derive(Debug, Clone, Copy, PartialEq, Eq, Structural)]
pub enum HealthStatus {
    /// There is no check.
    Unchecked,
    Starting,
    Healthy,
    Unhealthy,
}

/// The state of a container.
pub struct ContainerState {
    /// Whether the container has been started; it then may still be paused.
    pub running: Option<bool>,
    /// Whether the container is paused.
    pub paused: Option<bool>,
    pub health: Option<HealthStatus>,
    pub started_at: Option<String>,
}

impl Default for ContainerState {
    /// Nothing is reported.
    fn default() -> (r: Self)
        ensures
            r.running is None,
            r.paused is None,
            r.health is None,
            r.started_at is None,
    {
        ContainerState { running: None, paused: None, health: None, started_at: None }
    }
}

/// The settings of a container.
pub struct ContainerSettings {
    /// The image that was asked for.
    pub image: Option<String>,
    pub env: Option<Vec<String>>,
}

/// A container as the daemon reports it.
pub struct Container {
    pub id: Option<String>,
    /// The image as the daemon resolved it.
    pub image: Option<String>,
    pub settings: Option<ContainerSettings>,
    pub mounts: Vec<Mount>,
    pub restart_policy: Option<RestartPolicyName>,
    pub state: Option<ContainerState>,
}

/// The environment that a container has.
pub open spec fn env_of(settings: ContainerSettings) -> Seq<Seq<char>> {
    match settings.env {
        Some(env) => text::texts(env@),
        None => Seq::empty(),
    }
}

/// Image, environment, mounts and restart policy of the container are those of
/// the claw.
pub open spec fn in_step(existing: Container, want: ClawSpec) -> bool {
    match existing.settings {
        Some(settings) => {
            &&& text::opt_text(settings.image) == Some(want.image@)
            &&& env_of(settings).to_multiset() == container_env(want).to_multiset()
            &&& mounts_view(existing.mounts@) == claw_mounts(want)
            &&& existing.restart_policy == Some(policy_named(want.restart@))
        },
        None => false,
    }
}

fn same_mount(m: &Mount, target: &str, source: &str, kind: MountKind) -> (r: bool)
    ensures
        r == (m@ == MountView { target: target@, source: source@, kind, read_only: false }),
{
    text::same_text(m.target.as_str(), target) && text::same_text(m.source.as_str(), source)
        && m.kind == kind && !m.read_only
}

fn has_mounts(mounts: &Vec<Mount>, want: &ClawSpec) -> (r: bool)
    ensures
        r == (mounts_view(mounts@) == claw_mounts(*want)),
{
    if mounts.len() != 2 {
        assert(mounts_view(mounts@).len() != claw_mounts(*want).len());
        return false;
    }
    let first = same_mount(
        &mounts[0],
        "/zeroclaw-data",
        want.data_volume.as_str(),
        MountKind::Volume,
    );
    let second = same_mount(
        &mounts[1],
        "/zeroclaw-data/config",
        want.config_dir.as_str(),
        MountKind::Bind,
    );
    proof {
        let got = mounts_view(mounts@);
        let all = claw_mounts(*want);
        assert(got[0] == mounts@[0]@ && got[1] == mounts@[1]@);
        if first && second {
            assert(got =~= all);
        } else {
            assert(got[0] != all[0] || got[1] != all[1]);
        }
    }
    first && second
}

impl DockerDriver {
    /// Whether a container no longer matches its claw, so that it has to be
    /// replaced.
    pub fn spec_drifted(existing: &Container, want: &ClawSpec) -> (r: bool)
        ensures
            r == !in_step(*existing, *want),
    {
        let settings = match &existing.settings {
            Some(s) => s,
            None => return true,
        };
        match &settings.image {
            Some(image) => {
                if !text::same_text(image.as_str(), want.image.as_str()) {
                    return true;
                }
            },
            None => return true,
        }
        let wanted = full_env(want);
        let none: Vec<String> = Vec::new();
        assert(text::texts(none@) =~= Seq::<Seq<char>>::empty());
        let same_env = match &settings.env {
            Some(env) => env_lists_equal(env.as_slice(), wanted.as_slice()),
            None => env_lists_equal(none.as_slice(), wanted.as_slice()),
        };
        if !same_env {
            return true;
        }
        if !has_mounts(&existing.mounts, want) {
            return true;
        }
        match existing.restart_policy {
            Some(policy) => policy != restart_policy_name(want.restart.as_str()),
            None => true,
        }
    }
}

/// The container was started and is not paused.
pub open spec fn active(s: ContainerState) -> bool {
    s.running == Some(true) && s.paused != Some(true)
}

fn is_active(s: &ContainerState) -> (r: bool)
    ensures
        r == active(*s),
{
    let running = match s.running {
        Some(b) => b,
        None => false,
    };
    let paused = match s.paused {
        Some(b) => b,
        None => false,
    };
    running && !paused
}

/// The health that a container's state shows.
pub open spec fn health_of(state: Option<ContainerState>) -> ClawHealth {
    match state {
        None => ClawHealth::Missing,
        Some(s) => if active(s) {
            match s.health {
                Some(HealthStatus::Starting) => ClawHealth::Starting,
                Some(HealthStatus::Unhealthy) => ClawHealth::Unhealthy,
                _ => ClawHealth::Healthy,
            }
        } else {
            ClawHealth::Stopped
        },
    }
}

/// The health that a container's state shows.
pub fn classify(state: Option<&ContainerState>) -> (r: ClawHealth)
    ensures
        r == health_of(
            match state {
                Some(s) => Some(*s),
                None => None,
            },
        ),
{
    match state {
        None => ClawHealth::Missing,
        Some(s) => {
            if is_active(s) {
                match s.health {
                    Some(HealthStatus::Starting) => ClawHealth::Starting,
                    Some(HealthStatus::Unhealthy) => ClawHealth::Unhealthy,
                    _ => ClawHealth::Healthy,
                }
            } else {
                ClawHealth::Stopped
            }
        },
    }
}

/// The first twelve characters of an identifier.
pub open spec fn short_id(id: Seq<char>) -> Seq<char> {
    if id.len() > 12 {
        id.take(12)
    } else {
        id
    }
}

fn shorten(id: &str) -> (r: String)
    ensures
        r@ == short_id(id@),
{
    let v = text::chars_of(id);
    let n: usize = if v.len() > 12 {
        12
    } else {
        v.len()
    };
    let r = text::slice_text(&v, 0, n);
    assert(v@.subrange(0, n as int) =~= short_id(id@));
    r
}

impl DockerDriver {
    /// The status of a claw, from what the daemon reports of its container.
    pub fn status(name: &str, found: Option<&Container>) -> (r: ClawStatus)
        ensures
            r.name@ == name@,
            match found {
                None => {
                    &&& r.health == ClawHealth::Missing
                    &&& r.image is None
                    &&& r.container_id is None
                    &&& r.started_at is None
                },
                Some(c) => {
                    &&& r.health == health_of(c.state)
                    &&& r.image == c.image
                    &&& text::opt_text(r.container_id) == match c.id {
                        Some(id) => Some(short_id(id@)),
                        None => None,
                    }
                    &&& r.started_at == match c.state {
                        Some(s) => s.started_at,
                        None => None,
                    }
                },
            },
    {
        match found {
            None => ClawStatus {
                name: name.to_owned(),
                health: ClawHealth::Missing,
                image: None,
                container_id: None,
                started_at: None,
            },
            Some(c) => ClawStatus {
                name: name.to_owned(),
                health: classify(c.state.as_ref()),
                image: text::copy_opt(&c.image),
                container_id: match &c.id {
                    Some(id) => Some(shorten(id.as_str())),
                    None => None,
                },
                started_at: match &c.state {
                    Some(s) => text::copy_opt(&s.started_at),
                    None => None,
                },
            },
        }
    }
}

// ---- lifecycle --------------------------------------------------------

/// What the daemon is told to do.
pub enum Order {
    Create { container: String, config: ContainerConfig },
    Start { container: String },
    /// Let a paused container go on.
    Unpause { container: String },
    /// Stop, by force once the seconds have run out.
    Stop { container: String, grace_secs: i64 },
    /// Remove, running or not; its volumes stay.
    Remove { container: String },
    RemoveVolume { volume: String },
}

/// One step of a plan. Where the step names its task, a failure ends the plan
/// and is reported under that task; where it names none, the plan goes on.
pub struct Step {
    pub order: Order,
    pub task: Option<String>,
}

pub open spec fn creates(step: Step, spec: ClawSpec, task: Seq<char>) -> bool {
    &&& step.order matches Order::Create { container, config } && container@
        == driver::container_of(spec.name@) && materializes(config, spec)
    &&& text::opt_text(step.task) == Some(task + driver::container_of(spec.name@))
}

pub open spec fn starts(step: Step, claw: Seq<char>, task: Seq<char>) -> bool {
    &&& step.order matches Order::Start { container } && container@ == driver::container_of(claw)
    &&& text::opt_text(step.task) == Some(task + driver::container_of(claw))
}

pub open spec fn unpauses(step: Step, claw: Seq<char>, task: Seq<char>) -> bool {
    &&& step.order matches Order::Unpause { container } && container@ == driver::container_of(claw)
    &&& text::opt_text(step.task) == Some(task + driver::container_of(claw))
}

pub open spec fn stops(step: Step, claw: Seq<char>, task: Option<Seq<char>>) -> bool {
    &&& step.order matches Order::Stop { container, grace_secs } && container@
        == driver::container_of(claw) && grace_secs == 30
    &&& text::opt_text(step.task) == match task {
        Some(t) => Some(t + driver::container_of(claw)),
        None => None,
    }
}

pub open spec fn removes(step: Step, claw: Seq<char>, task: Option<Seq<char>>) -> bool {
    &&& step.order matches Order::Remove { container } && container@ == driver::container_of(claw)
    &&& text::opt_text(step.task) == match task {
        Some(t) => Some(t + driver::container_of(claw)),
        None => None,
    }
}

/// The container runs, and is not paused.
pub open spec fn runs(c: Container) -> bool {
    c.state matches Some(s) && active(s)
}

/// The container was started and is paused.
pub open spec fn pauses(c: Container) -> bool {
    c.state matches Some(s) && s.running == Some(true) && s.paused == Some(true)
}

/// The plan that leaves a claw's container as it should be and running: it is
/// created where it is missing, replaced where it has drifted, let go on where it
/// is paused, and started where it stands still.
pub open spec fn ensures_claw(
    steps: Seq<Step>,
    outcome: EnsureOutcome,
    existing: Option<Container>,
    spec: ClawSpec,
) -> bool {
    match existing {
        None => {
            &&& outcome == EnsureOutcome::Created
            &&& steps.len() == 2
            &&& creates(steps[0], spec, "create container "@)
            &&& starts(steps[1], spec.name@, "start container "@)
        },
        Some(c) => if !in_step(c, spec) {
            &&& outcome == EnsureOutcome::Recreated
            &&& steps.len() == 4
            &&& stops(steps[0], spec.name@, None)
            &&& removes(steps[1], spec.name@, None)
            &&& creates(steps[2], spec, "recreate container "@)
            &&& starts(steps[3], spec.name@, "start recreated container "@)
        } else {
            &&& outcome == EnsureOutcome::Unchanged
            &&& if runs(c) {
                steps.len() == 0
            } else if pauses(c) {
                steps.len() == 1 && unpauses(steps[0], spec.name@, "unpause existing container "@)
            } else {
                steps.len() == 1 && starts(steps[0], spec.name@, "start existing container "@)
            }
        },
    }
}

fn is_paused(c: &Container) -> (r: bool)
    ensures
        r == pauses(*c),
{
    match &c.state {
        Some(s) => match (s.running, s.paused) {
            (Some(running), Some(paused)) => running && paused,
            _ => false,
        },
        None => false,
    }
}

/// The plan that starts a claw.
pub open spec fn starts_claw(steps: Seq<Step>, paused: bool, claw: Seq<char>) -> bool {
    &&& steps.len() == 1
    &&& if paused {
        unpauses(steps[0], claw, "start "@)
    } else {
        starts(steps[0], claw, "start "@)
    }
}

/// The plan that removes a claw's container.
pub open spec fn removes_claw(steps: Seq<Step>, exists_now: bool, claw: Seq<char>) -> bool {
    if exists_now {
        &&& steps.len() == 2
        &&& stops(steps[0], claw, None)
        &&& removes(steps[1], claw, Some("remove "@))
    } else {
        steps.len() == 0
    }
}

/// The plan that removes a claw's container and then its volume.
pub open spec fn purges_claw(
    steps: Seq<Step>,
    exists_now: bool,
    claw: Seq<char>,
    data_volume: Seq<char>,
) -> bool {
    &&& steps.len() > 0
    &&& removes_claw(steps.drop_last(), exists_now, claw)
    &&& steps.last().order matches Order::RemoveVolume { volume } && volume@ == data_volume
    &&& text::opt_text(steps.last().task) == Some("remove volume "@ + data_volume)
}

fn start_step(claw: &str, task: &str) -> (r: Step)
    ensures
        starts(r, claw@, task@),
{
    let container = driver::container_name(claw);
    let task = text::labelled(task, container.as_str());
    Step { order: Order::Start { container }, task: Some(task) }
}

fn unpause_step(claw: &str, task: &str) -> (r: Step)
    ensures
        unpauses(r, claw@, task@),
{
    let container = driver::container_name(claw);
    let task = text::labelled(task, container.as_str());
    Step { order: Order::Unpause { container }, task: Some(task) }
}

fn create_step(spec: &ClawSpec, task: &str) -> (r: Step)
    ensures
        creates(r, *spec, task@),
{
    let container = driver::container_name(spec.name.as_str());
    let task = text::labelled(task, container.as_str());
    Step {
        order: Order::Create { container, config: DockerDriver::build_config(spec) },
        task: Some(task),
    }
}

impl DockerDriver {
    /// The plan that leaves a claw's container as it should be and running, and
    /// what it amounts to.
    pub fn ensure(existing: Option<&Container>, spec: &ClawSpec) -> (r: (Vec<Step>, EnsureOutcome))
        ensures
            ensures_claw(
                r.0@,
                r.1,
                match existing {
                    Some(c) => Some(*c),
                    None => None,
                },
                *spec,
            ),
    {
        let name = spec.name.as_str();
        let mut steps: Vec<Step> = Vec::new();
        match existing {
            None => {
                steps.push(create_step(spec, "create container "));
                steps.push(start_step(name, "start container "));
                (steps, EnsureOutcome::Created)
            },
            Some(c) => {
                if DockerDriver::spec_drifted(c, spec) {
                    let container = driver::container_name(name);
                    steps.push(
                        Step {
                            order: Order::Stop { container: container.clone(), grace_secs: 30 },
                            task: None,
                        },
                    );
                    steps.push(Step { order: Order::Remove { container }, task: None });
                    steps.push(create_step(spec, "recreate container "));
                    steps.push(start_step(name, "start recreated container "));
                    (steps, EnsureOutcome::Recreated)
                } else {
                    let running = match &c.state {
                        Some(s) => is_active(s),
                        None => false,
                    };
                    if is_paused(c) {
                        steps.push(unpause_step(name, "unpause existing container "));
                    } else if !running {
                        steps.push(start_step(name, "start existing container "));
                    }
                    (steps, EnsureOutcome::Unchanged)
                }
            },
        }
    }

    /// The plan that starts a claw, or lets it go on where it is paused.
    pub fn start(existing: Option<&Container>, name: &str) -> (r: Vec<Step>)
        ensures
            starts_claw(r@, existing matches Some(c) && pauses(*c), name@),
    {
        let paused = match existing {
            Some(c) => is_paused(c),
            None => false,
        };
        let mut steps: Vec<Step> = Vec::new();
        if paused {
            steps.push(unpause_step(name, "start "));
        } else {
            steps.push(start_step(name, "start "));
        }
        steps
    }

    /// The plan that stops a claw.
    pub fn stop(name: &str) -> (r: Vec<Step>)
        ensures
            r@.len() == 1,
            stops(r@[0], name@, Some("stop "@)),
    {
        let container = driver::container_name(name);
        let task = text::labelled("stop ", container.as_str());
        let mut steps: Vec<Step> = Vec::new();
        steps.push(Step { order: Order::Stop { container, grace_secs: 30 }, task: Some(task) });
        steps
    }

    /// The plan that stops a claw and starts it again.
    pub fn restart(name: &str) -> (r: Vec<Step>)
        ensures
            r@.len() == 2,
            stops(r@[0], name@, Some("stop "@)),
            starts(r@[1], name@, "start "@),
    {
        let mut steps = DockerDriver::stop(name);
        steps.push(start_step(name, "start "));
        steps
    }

    /// The plan that removes a claw's container and keeps its volume. Where there
    /// is no container, nothing is left to do.
    pub fn remove(existing: Option<&Container>, name: &str) -> (r: Vec<Step>)
        ensures
            removes_claw(r@, existing is Some, name@),
    {
        let mut steps: Vec<Step> = Vec::new();
        if existing.is_some() {
            let container = driver::container_name(name);
            let task = text::labelled("remove ", container.as_str());
            steps.push(
                Step {
                    order: Order::Stop { container: container.clone(), grace_secs: 30 },
                    task: None,
                },
            );
            steps.push(Step { order: Order::Remove { container }, task: Some(task) });
        }
        steps
    }

    /// The plan that removes a claw's container, where there is one, and its
    /// volume.
    pub fn purge(existing: Option<&Container>, name: &str, data_volume: &str) -> (r: Vec<Step>)
        ensures
            purges_claw(r@, existing is Some, name@, data_volume@),
    {
        let mut steps = DockerDriver::remove(existing, name);
        let ghost first = steps@;
        steps.push(
            Step {
                order: Order::RemoveVolume { volume: data_volume.to_owned() },
                task: Some(text::labelled("remove volume ", data_volume)),
            },
        );
        assert(steps@.drop_last() =~= first);
        steps
    }

    /// The label filter that finds every container of the fleet.
    pub fn list_fleet_containers() -> (r: String)
        ensures
            r@ == MANAGED_LABEL@ + "=true"@,
    {
        text::labelled(MANAGED_LABEL, "=true")
    }
}

// ---- what holds of plans ----------------------------------------------

/// A container as a plan sees it.
pub struct Site {
    /// Started, and perhaps paused since.
    pub started: bool,
    /// Paused while started.
    pub paused: bool,
    /// Whether it is the container that the claw asks for.
    pub in_step: bool,
}

/// What is there of a claw: its container and its volume.
pub struct Scene {
    pub container: Option<Site>,
    pub volume: bool,
}

/// What an order makes of what is there of a claw, or that the daemon refuses it.
/// There is nothing to start, stop or remove where there is no container, a name
/// is given once, and only what is paused can be let go on, which it needs before
/// it is started. Starting what runs, stopping what stands still and removing a
/// volume that is gone are done at once.
pub open spec fn effect(scene: Scene, order: Order, spec: ClawSpec) -> Option<Scene> {
    match order {
        Order::Create { config, .. } => match scene.container {
            None => Some(
                Scene {
                    container: Some(
                        Site {
                            started: false,
                            paused: false,
                            in_step: materializes(config, spec),
                        },
                    ),
                    volume: true,
                },
            ),
            Some(_) => None,
        },
        Order::Start { .. } => match scene.container {
            Some(s) if !s.paused => Some(
                Scene { container: Some(Site { started: true, ..s }), ..scene },
            ),
            _ => None,
        },
        Order::Unpause { .. } => match scene.container {
            Some(s) if s.paused => Some(
                Scene { container: Some(Site { paused: false, ..s }), ..scene },
            ),
            _ => None,
        },
        Order::Stop { .. } => match scene.container {
            Some(s) => Some(
                Scene { container: Some(Site { started: false, paused: false, ..s }), ..scene },
            ),
            None => None,
        },
        Order::Remove { .. } => match scene.container {
            Some(_) => Some(Scene { container: None, ..scene }),
            None => None,
        },
        Order::RemoveVolume { .. } => match scene.container {
            Some(_) => None,
            None => Some(Scene { volume: false, ..scene }),
        },
    }
}

/// What a plan makes of what is there of a claw, or that it fails: a refusal is
/// passed over where the step names no task, and ends the plan where it does.
pub open spec fn carried_out(scene: Scene, steps: Seq<Step>, spec: ClawSpec) -> Option<Scene>
    decreases steps.len(),
{
    if steps.len() == 0 {
        Some(scene)
    } else {
        match carried_out(scene, steps.drop_last(), spec) {
            None => None,
            Some(reached) => match effect(reached, steps.last().order, spec) {
                Some(next) => Some(next),
                None => if steps.last().task is None {
                    Some(reached)
                } else {
                    None
                },
            },
        }
    }
}

/// The container that there is, as a plan sees it.
pub open spec fn site_of(existing: Option<Container>, spec: ClawSpec) -> Option<Site> {
    match existing {
        None => None,
        Some(c) => Some(
            Site {
                started: c.state matches Some(s) && s.running == Some(true),
                paused: pauses(c),
                in_step: in_step(c, spec),
            },
        ),
    }
}

/// A container that runs, is not paused, and is the one that the claw asks for.
pub open spec fn settled() -> Site {
    Site { started: true, paused: false, in_step: true }
}

/// A plan that ensures a claw succeeds and leaves the container that the claw
/// asks for, and leaves it running, whatever there was before: also what an
/// earlier plan left behind that broke off halfway.
pub proof fn law_ensured_claw_runs(
    steps: Seq<Step>,
    outcome: EnsureOutcome,
    existing: Option<Container>,
    volume: bool,
    spec: ClawSpec,
)
    requires
        ensures_claw(steps, outcome, existing, spec),
    ensures
        carried_out(Scene { container: site_of(existing, spec), volume }, steps, spec) matches Some(
            after,
        ) && after.container == Some(settled()),
{
    reveal_with_fuel(carried_out, 5);
}

/// A container that is as it should be and runs is left alone.
pub proof fn law_settled_claw_is_left_alone(
    steps: Seq<Step>,
    outcome: EnsureOutcome,
    existing: Option<Container>,
    spec: ClawSpec,
)
    requires
        ensures_claw(steps, outcome, existing, spec),
    ensures
        steps.len() == 0 <==> site_of(existing, spec) == Some(settled()),
        outcome == EnsureOutcome::Unchanged <==> (site_of(existing, spec) matches Some(s)
            && s.in_step),
        outcome == EnsureOutcome::Created <==> existing is None,
{
}

/// Stopping what is stopped, and starting what runs, succeeds and changes nothing.
pub proof fn law_start_and_stop_are_idempotent(
    scene: Scene,
    start: Step,
    stop: Step,
    spec: ClawSpec,
)
    requires
        start.order is Start,
        stop.order is Stop,
    ensures
        effect(scene, start.order, spec) matches Some(after) ==> effect(after, start.order, spec)
            == Some(after),
        effect(scene, stop.order, spec) matches Some(after) ==> effect(after, stop.order, spec)
            == Some(after),
{
}

/// A plan that starts a claw succeeds and leaves it running, wherever it has a
/// container, running, paused or stopped.
pub proof fn law_started_claw_runs(
    steps: Seq<Step>,
    existing: Container,
    volume: bool,
    spec: ClawSpec,
)
    requires
        starts_claw(steps, pauses(existing), spec.name@),
    ensures
        carried_out(Scene { container: site_of(Some(existing), spec), volume }, steps, spec)
            == Some(
            Scene {
                container: Some(
                    Site { started: true, paused: false, in_step: in_step(existing, spec) },
                ),
                volume,
            },
        ),
{
    reveal_with_fuel(carried_out, 2);
}

/// A plan that restarts a claw succeeds and leaves it running, wherever it has a
/// container, also a paused one or one that an earlier restart left stopped.
pub proof fn law_restarted_claw_runs(scene: Scene, steps: Seq<Step>, spec: ClawSpec)
    requires
        scene.container is Some,
        steps.len() == 2,
        stops(steps[0], spec.name@, Some("stop "@)),
        starts(steps[1], spec.name@, "start "@),
    ensures
        carried_out(scene, steps, spec) matches Some(after) && after.container == Some(
            Site { started: true, paused: false, ..scene.container->0 },
        ),
{
    reveal_with_fuel(carried_out, 3);
}

/// A plan that removes a claw succeeds and leaves no container, whatever there was
/// before, and keeps the volume.
pub proof fn law_removed_claw_is_gone(
    steps: Seq<Step>,
    existing: Option<Container>,
    volume: bool,
    spec: ClawSpec,
)
    requires
        removes_claw(steps, existing is Some, spec.name@),
    ensures
        carried_out(Scene { container: site_of(existing, spec), volume }, steps, spec) == Some(
            Scene { container: None, volume },
        ),
{
    reveal_with_fuel(carried_out, 3);
}

/// A plan that purges a claw succeeds and leaves neither container nor volume,
/// whatever there was before: also what an earlier purge left behind that broke
/// off halfway.
pub proof fn law_purged_claw_is_gone(
    steps: Seq<Step>,
    existing: Option<Container>,
    volume: bool,
    data_volume: Seq<char>,
    spec: ClawSpec,
)
    requires
        purges_claw(steps, existing is Some, spec.name@, data_volume),
    ensures
        carried_out(Scene { container: site_of(existing, spec), volume }, steps, spec) == Some(
            Scene { container: None, volume: false },
        ),
{
    law_removed_claw_is_gone(steps.drop_last(), existing, volume, spec);
}

/// The daemon reports of a container what it was asked to create.
pub open spec fn reports(c: Container, config: ContainerConfig) -> bool {
    &&& c.settings matches Some(s) && text::opt_text(s.image) == Some(config.image@) && env_of(s)
        == text::texts(config.env@)
    &&& mounts_view(c.mounts@) == mounts_view(config.mounts@)
    &&& c.restart_policy == Some(config.restart_policy)
}

/// A container that was just created for a claw has not drifted from it, so
/// that ensuring the claw again leaves it alone.
pub proof fn law_created_container_is_in_step(
    config: ContainerConfig,
    spec: ClawSpec,
    c: Container,
)
    requires
        materializes(config, spec),
        reports(c, config),
    ensures
        in_step(c, spec),
{
}

/// A container is in step with a claw exactly where it is what would be created for
/// the claw now: it has that image, that environment in whatever order, those
/// mounts and that restart policy.
pub proof fn law_container_in_step_is_as_it_would_be_created(
    config: ContainerConfig,
    spec: ClawSpec,
    c: Container,
)
    requires
        materializes(config, spec),
    ensures
        in_step(c, spec) <==> {
            &&& c.settings matches Some(s) && text::opt_text(s.image) == Some(config.image@)
                && env_of(s).to_multiset() == text::texts(config.env@).to_multiset()
            &&& mounts_view(c.mounts@) == mounts_view(config.mounts@)
            &&& c.restart_policy == Some(config.restart_policy)
        },
{
}

/// Of a container and of the container that would be created for a claw: the first
/// has drifted exactly where it lacks the second's image, environment, mounts or
/// restart policy. One entry more, less or changed in the environment is drift.
pub proof fn law_drift_is_a_difference_from_what_would_be_created(
    spec: ClawSpec,
    config: ContainerConfig,
    c: Container,
    drifted: bool,
)
    requires
        call_ensures(DockerDriver::build_config, (&spec,), config),
        call_ensures(DockerDriver::spec_drifted, (&c, &spec), drifted),
    ensures
        !drifted <==> (c.settings matches Some(s) && {
            &&& s.image matches Some(image) && image@ == config.image@
            &&& match s.env {
                Some(env) => text::texts(env@).to_multiset() == text::texts(
                    config.env@,
                ).to_multiset(),
                None => config.env@.len() == 0,
            }
            &&& c.mounts@.len() == config.mounts@.len()
            &&& forall|i: int|
                0 <= i < config.mounts@.len() ==> {
                    let m = #[trigger] c.mounts@[i];
                    &&& m.target@ == config.mounts@[i].target@
                    &&& m.source@ == config.mounts@[i].source@
                    &&& m.kind == config.mounts@[i].kind
                    &&& m.read_only == config.mounts@[i].read_only
                }
            &&& c.restart_policy == Some(config.restart_policy)
        }),
{
    broadcast use vstd::seq_lib::group_to_multiset_ensures;

    let got = mounts_view(c.mounts@);
    let want = mounts_view(config.mounts@);
    if got == want {
        assert(c.mounts@.len() == got.len() && config.mounts@.len() == want.len());
        assert forall|i: int| 0 <= i < config.mounts@.len() implies (#[trigger] c.mounts@[i])@
            == config.mounts@[i]@ by {
            assert(got[i] == want[i]);
        }
    } else if c.mounts@.len() == config.mounts@.len() && forall|i: int|
        0 <= i < config.mounts@.len() ==> (#[trigger] c.mounts@[i])@ == config.mounts@[i]@ {
        assert(got =~= want);
    }
    if let Some(s) = c.settings {
        if s.env is None {
            let env = text::texts(config.env@);
            assert(Seq::<Seq<char>>::empty().to_multiset().len() == 0);
            if config.env@.len() == 0 {
                assert(env =~= Seq::empty());
            } else {
                assert(env.to_multiset().len() == env.len());
            }
        }
    }
}

/// The environment of a claw's container: first every variable of the claw itself,
/// each as `NAME=value`, then, in the order of the file, every variable of its file
/// that the claw does not set itself, and nothing else.
pub proof fn law_environment_is_the_claws_then_the_files(spec: ClawSpec)
    ensures
        container_env(spec).len() >= spec.env.keys().len(),
        forall|i: int|
            0 <= i < spec.env.keys().len() ==> #[trigger] container_env(spec)[i]
                == spec.env.keys()[i] + "="@ + spec.env.values()[i]@,
        exists|at: Seq<int>|
            #![trigger at.len()]
            {
                &&& container_env(spec).len() == spec.env.keys().len() + at.len()
                &&& forall|i: int, j: int| 0 <= i < j < at.len() ==> at[i] < at[j]
                &&& forall|j: int|
                    0 <= j < spec.file_env.keys().len() ==> (!spec.env@.dom().contains(
                        #[trigger] spec.file_env.keys()[j],
                    ) <==> at.contains(j))
                &&& forall|i: int|
                    0 <= i < at.len() ==> {
                        &&& 0 <= #[trigger] at[i] < spec.file_env.keys().len()
                        &&& container_env(spec)[spec.env.keys().len() + i]
                            == spec.file_env.keys()[at[i]] + "="@ + spec.file_env.values()[at[i]]@
                    }
            },
{
    let n = spec.file_env.keys().len() as int;
    let at = lemma_further_places(spec.file_env, spec.env, n);
    let own = env_entries(spec.env);
    let further = further_entries(spec.file_env, spec.env, n);
    assert(container_env(spec) == own + further);
    assert(own.len() == spec.env.keys().len());
    assert forall|i: int| 0 <= i < at.len() implies {
        &&& 0 <= #[trigger] at[i] < n
        &&& container_env(spec)[own.len() + i] == spec.file_env.keys()[at[i]] + "="@
            + spec.file_env.values()[at[i]]@
    } by {
        assert(container_env(spec)[own.len() + i] == further[i]);
    }
    assert(at.len() == further.len());
}

proof fn lemma_further_places(vars: KeyMap<String>, env: KeyMap<String>, n: int) -> (at: Seq<int>)
    requires
        0 <= n <= vars.keys().len(),
    ensures
        further_entries(vars, env, n).len() == at.len(),
        forall|i: int, j: int| 0 <= i < j < at.len() ==> at[i] < at[j],
        forall|i: int|
            0 <= i < at.len() ==> 0 <= #[trigger] at[i] < n && further_entries(vars, env, n)[i]
                == vars.keys()[at[i]] + "="@ + vars.values()[at[i]]@,
        forall|j: int|
            0 <= j < n ==> (!env@.dom().contains(#[trigger] vars.keys()[j]) <==> at.contains(j)),
    decreases n,
{
    if n == 0 {
        Seq::empty()
    } else {
        let front = lemma_further_places(vars, env, n - 1);
        if env@.dom().contains(vars.keys()[n - 1]) {
            front
        } else {
            let at = front.push(n - 1);
            assert forall|j: int| 0 <= j < n implies (!env@.dom().contains(
                #[trigger] vars.keys()[j],
            ) <==> at.contains(j)) by {
                if j == n - 1 {
                    assert(at[front.len() as int] == j);
                } else if front.contains(j) {
                    let k = front.index_of(j);
                    assert(at[k] == j);
                } else if at.contains(j) {
                    let k = at.index_of(j);
                    assert(front[k] == j);
                }
            }
            at
        }
    }
}

/// The variables that a claw sets itself reach its container with the value that it
/// gives them.
pub proof fn law_own_variables_reach_the_container(spec: ClawSpec, k: Seq<char>)
    requires
        spec.env@.dom().contains(k),
    ensures
        container_env(spec).contains(k + "="@ + spec.env@[k]@),
{
    law_environment_is_the_claws_then_the_files(spec);
    let i = spec.env.place(k);
    assert(spec.env.keys().contains(k));
    assert(spec.env.keys()[i] == k);
    assert(container_env(spec)[i] == k + "="@ + spec.env@[k]@);
}

/// The container that is created for a claw has the claw's image, limits, network,
/// ports, log settings and labels; its two mounts are the claw's volume and, within
/// it, the claw's configuration, both writable; and it is checked every half a
/// minute by the doctor.
pub proof fn law_created_container_is_what_the_claw_asks_for(
    spec: ClawSpec,
    config: ContainerConfig,
)
    requires
        call_ensures(DockerDriver::build_config, (&spec,), config),
    ensures
        config.image@ == spec.image@,
        text::texts(config.env@) == container_env(spec),
        config.memory == spec.mem_limit_bytes,
        config.nano_cpus == spec.cpu_limit,
        config.network@ == spec.network@,
        config.ports@ == spec.published_ports@,
        config.mounts@.len() == 2,
        config.mounts@[0].source@ == spec.data_volume@ && config.mounts@[0].kind
            == MountKind::Volume && config.mounts@[0].target@ == "/zeroclaw-data"@,
        config.mounts@[1].source@ == spec.config_dir@ && config.mounts@[1].kind == MountKind::Bind
            && config.mounts@[1].target@ == "/zeroclaw-data/config"@,
        !config.mounts@[0].read_only && !config.mounts@[1].read_only,
        config.log_driver@ == "json-file"@,
        wire::text_map(config.log_options@) == map![
            "max-size"@ => spec.log.max_size@,
            "max-file"@ => text::decimal_text(spec.log.max_file as nat),
        ],
        wire::text_map(config.labels@) == map![
            "com.zeroclaw-fleet.managed"@ => "true"@,
            "com.zeroclaw-fleet.claw"@ => spec.name@,
        ],
        config.healthcheck.interval == 30_000_000_000,
        config.healthcheck.timeout == 10_000_000_000,
        config.healthcheck.retries == 3,
        config.healthcheck.start_period == 30_000_000_000,
        text::texts(config.healthcheck.test@) == seq!["CMD"@, "zeroclaw"@, "doctor"@],
        spec.restart@ == "always"@ ==> config.restart_policy == RestartPolicyName::Always,
        spec.restart@ == "on-failure"@ ==> config.restart_policy == RestartPolicyName::OnFailure,
        spec.restart@ == "no"@ || spec.restart@ == ""@ ==> config.restart_policy
            == RestartPolicyName::No,
        spec.restart@ != "always"@ && spec.restart@ != "on-failure"@ && spec.restart@ != "no"@
            && spec.restart@ != ""@ ==> config.restart_policy == RestartPolicyName::UnlessStopped,
{
    let got = mounts_view(config.mounts@);
    assert(got.len() == 2);
    assert(config.mounts@[0]@ == got[0]);
    assert(config.mounts@[1]@ == got[1]);
    lemma_policies_differ();
}

proof fn lemma_policies_differ()
    ensures
        "always"@ != "on-failure"@,
        "always"@ != "no"@,
        "always"@ != ""@,
        "always"@ != "unless-stopped"@,
        "on-failure"@ != "no"@,
        "on-failure"@ != ""@,
        "on-failure"@ != "unless-stopped"@,
        "unless-stopped"@ != "no"@,
        "unless-stopped"@ != ""@,
{
    reveal_strlit("always");
    reveal_strlit("on-failure");
    reveal_strlit("unless-stopped");
    reveal_strlit("no");
    reveal_strlit("");
    assert("always"@.len() == 6 && "on-failure"@.len() == 10 && "unless-stopped"@.len() == 14
        && "no"@.len() == 2 && ""@.len() == 0);
}

/// A claw is healthy, starting or unhealthy only while its container runs and is not
/// paused; then its check decides, and a claw without a check counts as healthy.
pub proof fn law_health_needs_a_running_container(state: Option<ContainerState>)
    ensures
        health_of(state) == ClawHealth::Missing <==> state is None,
        health_of(state) == ClawHealth::Stopped <==> (state matches Some(s) && (s.running != Some(
            true,
        ) || s.paused == Some(true))),
        state matches Some(s) && s.running == Some(true) && s.paused != Some(true) ==> {
            let h = state->0.health;
            &&& health_of(state) == ClawHealth::Starting <==> h == Some(HealthStatus::Starting)
            &&& health_of(state) == ClawHealth::Unhealthy <==> h == Some(HealthStatus::Unhealthy)
            &&& health_of(state) == ClawHealth::Healthy <==> h is None || h == Some(
                HealthStatus::Healthy,
            ) || h == Some(HealthStatus::Unchecked)
        },
{
}

/// A status tells of the container that was found: its health, its resolved image,
/// when it was started, and the first twelve characters of its identifier.
pub proof fn law_status_tells_of_the_container(name: &str, c: Container, r: ClawStatus)
    requires
        call_ensures(DockerDriver::status, (name, Some(&c)), r),
    ensures
        r.name@ == name@,
        r.health == health_of(c.state),
        r.image == c.image,
        c.state matches Some(s) ==> r.started_at == s.started_at,
        c.id is None ==> r.container_id is None,
        c.id matches Some(id) ==> (r.container_id matches Some(short) && short@.is_prefix_of(id@)
            && (short@.len() == 12 || short@.len() < 12 && short@ == id@)),
{
}

/// Every order of a plan that ensures a claw is about the claw's own container; a
/// container is stopped within half a minute, and what is created is what the claw
/// asks for. What a failed step is reported under names the container too.
pub proof fn law_orders_are_about_the_claws_container(
    existing: Option<&Container>,
    spec: ClawSpec,
    r: (Vec<Step>, EnsureOutcome),
    i: int,
)
    requires
        call_ensures(DockerDriver::ensure, (existing, &spec), r),
        0 <= i < r.0@.len(),
    ensures
        match r.0@[i].order {
            Order::Create { container, config } => {
                &&& container@ == "claw-"@ + spec.name@
                &&& materializes(config, spec)
                &&& text::opt_text(r.0@[i].task) == Some(
                    (if existing is None {
                        "create container "@
                    } else {
                        "recreate container "@
                    }) + ("claw-"@ + spec.name@),
                )
            },
            Order::Start { container } => {
                &&& container@ == "claw-"@ + spec.name@
                &&& text::opt_text(r.0@[i].task) == Some(
                    (match r.1 {
                        EnsureOutcome::Created => "start container "@,
                        EnsureOutcome::Recreated => "start recreated container "@,
                        EnsureOutcome::Unchanged => "start existing container "@,
                    }) + ("claw-"@ + spec.name@),
                )
            },
            Order::Unpause { container } => {
                &&& container@ == "claw-"@ + spec.name@
                &&& text::opt_text(r.0@[i].task) == Some(
                    "unpause existing container "@ + ("claw-"@ + spec.name@),
                )
            },
            Order::Stop { container, grace_secs } => {
                &&& container@ == "claw-"@ + spec.name@
                &&& grace_secs == 30
                &&& r.0@[i].task is None
            },
            Order::Remove { container } => {
                &&& container@ == "claw-"@ + spec.name@
                &&& r.0@[i].task is None
            },
            Order::RemoveVolume { .. } => false,
        },
        r.1 == EnsureOutcome::Recreated <==> (existing matches Some(c) && !in_step(*c, spec)),
{
}

/// What starts, stops, removes or purges a claw gives orders about the claw's own
/// container, and about no volume but the one that is to be purged.
pub proof fn law_lifecycle_orders_are_about_the_claw(
    existing: Option<&Container>,
    name: &str,
    data_volume: &str,
    started: Vec<Step>,
    stopped: Vec<Step>,
    restarted: Vec<Step>,
    removed: Vec<Step>,
    purged: Vec<Step>,
)
    requires
        call_ensures(DockerDriver::start, (existing, name), started),
        call_ensures(DockerDriver::stop, (name,), stopped),
        call_ensures(DockerDriver::restart, (name,), restarted),
        call_ensures(DockerDriver::remove, (existing, name), removed),
        call_ensures(DockerDriver::purge, (existing, name, data_volume), purged),
    ensures
        forall|i: int|
            0 <= i < started@.len() ==> concerns(
                (#[trigger] started@[i]).order,
                "claw-"@ + name@,
                data_volume@,
            ) && text::opt_text(started@[i].task) == Some("start "@ + ("claw-"@ + name@)),
        forall|i: int|
            0 <= i < stopped@.len() ==> concerns(
                (#[trigger] stopped@[i]).order,
                "claw-"@ + name@,
                data_volume@,
            ) && text::opt_text(stopped@[i].task) == Some("stop "@ + ("claw-"@ + name@)),
        forall|i: int|
            0 <= i < restarted@.len() ==> concerns(
                (#[trigger] restarted@[i]).order,
                "claw-"@ + name@,
                data_volume@,
            ),
        restarted@.len() == 2 && text::opt_text(restarted@[0].task) == Some(
            "stop "@ + ("claw-"@ + name@),
        ) && text::opt_text(restarted@[1].task) == Some("start "@ + ("claw-"@ + name@)),
        forall|i: int|
            0 <= i < removed@.len() ==> concerns(
                (#[trigger] removed@[i]).order,
                "claw-"@ + name@,
                data_volume@,
            ) && !(removed@[i].order is RemoveVolume) && text::opt_text(removed@[i].task) == (
            if removed@[i].order is Remove {
                Some("remove "@ + ("claw-"@ + name@))
            } else {
                None
            }),
        forall|i: int|
            0 <= i < purged@.len() ==> concerns(
                (#[trigger] purged@[i]).order,
                "claw-"@ + name@,
                data_volume@,
            ),
        purged@.len() == removed@.len() + 1 && text::opt_text(purged@.last().task) == Some(
            "remove volume "@ + data_volume@,
        ),
{
    assert forall|i: int| 0 <= i < purged@.len() implies concerns(
        (#[trigger] purged@[i]).order,
        "claw-"@ + name@,
        data_volume@,
    ) by {
        if i < purged@.len() - 1 {
            assert(purged@.drop_last()[i] == purged@[i]);
        }
    }
}

/// An order is about one container, or about one volume, and stops within half a
/// minute.
pub open spec fn concerns(order: Order, named: Seq<char>, data_volume: Seq<char>) -> bool {
    match order {
        Order::Create { container, .. } => container@ == named,
        Order::Start { container } => container@ == named,
        Order::Unpause { container } => container@ == named,
        Order::Stop { container, grace_secs } => container@ == named && grace_secs == 30,
        Order::Remove { container } => container@ == named,
        Order::RemoveVolume { volume } => volume@ == data_volume,
    }
}

/// A container that is in step is left alone where it runs and is not paused, let go on
/// where it is paused while running, and started in every other state; so is one that is
/// to be started, whether in step or not.
pub proof fn law_standing_container_is_set_going(
    c: Container,
    spec: ClawSpec,
    name: &str,
    r: (Vec<Step>, EnsureOutcome),
    started: Vec<Step>,
)
    requires
        in_step(c, spec),
        call_ensures(DockerDriver::ensure, (Some(&c), &spec), r),
        call_ensures(DockerDriver::start, (Some(&c), name), started),
    ensures
        ({
            let running = c.state matches Some(s) && s.running == Some(true);
            let paused = c.state matches Some(s) && s.paused == Some(true);
            &&& running && !paused ==> r.0@.len() == 0
            &&& running && paused ==> r.0@.len() == 1 && r.0@[0].order is Unpause
            &&& !running ==> r.0@.len() == 1 && r.0@[0].order is Start
            &&& started@.len() == 1
            &&& running && paused ==> started@[0].order is Unpause
            &&& !(running && paused) ==> started@[0].order is Start
        }),
{
}

/// A container that is missing is created and then started; one that has drifted is
/// stopped and removed first, and what fails there does not hold the plan up. A claw
/// without a container is started all the same, which the daemon then refuses.
pub proof fn law_container_is_made_before_it_is_started(
    existing: Option<&Container>,
    spec: ClawSpec,
    r: (Vec<Step>, EnsureOutcome),
    name: &str,
    started: Vec<Step>,
)
    requires
        call_ensures(DockerDriver::ensure, (existing, &spec), r),
        call_ensures(DockerDriver::start, (None::<&Container>, name), started),
    ensures
        existing is None ==> r.1 == EnsureOutcome::Created && r.0@.len() == 2
            && r.0@[0].order is Create && r.0@[1].order is Start,
        existing matches Some(c) && !in_step(*c, spec) ==> r.1 == EnsureOutcome::Recreated
            && r.0@.len() == 4 && r.0@[0].order is Stop && r.0@[1].order is Remove
            && r.0@[2].order is Create && r.0@[3].order is Start && r.0@[0].task is None
            && r.0@[1].task is None && r.0@[2].task is Some && r.0@[3].task is Some,
        started@.len() == 1 && started@[0].order is Start,
{
}

/// What is said of a mount is what its fields hold, and a list of mounts says it of each,
/// in order.
pub proof fn law_mounts_are_seen_as_they_are(mounts: Seq<Mount>, i: int)
    requires
        0 <= i < mounts.len(),
    ensures
        mounts_view(mounts).len() == mounts.len(),
        mounts_view(mounts)[i].target == mounts[i].target@,
        mounts_view(mounts)[i].source == mounts[i].source@,
        mounts_view(mounts)[i].kind == mounts[i].kind,
        mounts_view(mounts)[i].read_only == mounts[i].read_only,
{
}

} // verus!
