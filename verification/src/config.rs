//! Machine-local configuration: the global daemon settings and one project's
//! own settings.
//!
//! [`GlobalConfig`] is one per daemon, and holds the project registry: a
//! pointer to every project that the daemon manages. [`ProjectConfig`] is one
//! per registered repo.

use vstd::prelude::*;

use crate::failure::IoError;
use crate::maps::TextMap;
use crate::paths::join;
use crate::time::Duration;

verus! {

/// Errors reading or writing a config file.
#[derive(Debug)]
#[non_exhaustive]
pub enum ConfigError {
    /// The config file could not be read.
    Read {
        /// The path that could not be read.
        path: String,
        /// The underlying I/O failure.
        source: IoError,
    },
    /// The config file could not be written.
    Write {
        /// The path that could not be written.
        path: String,
        /// The underlying I/O failure.
        source: IoError,
    },
    /// The config file's contents are not valid YAML for its shape.
    Parse {
        /// The path whose contents failed to parse.
        path: String,
        /// The parser's own description.
        message: String,
    },
    /// A config value could not be serialized.
    Serialize {
        /// The path the value was being prepared for.
        path: String,
        /// The serializer's own description.
        message: String,
    },
    /// A project's weight is zero.
    InvalidWeight {
        /// The path of the config file that holds it.
        path: String,
    },
    /// The operator's home directory could not be determined.
    HomeDirUnavailable,
}

/// The contents of a [`ConfigError`].
pub enum ConfigErrorView {
    Read { path: Seq<char>, source: crate::failure::IoErrorView },
    Write { path: Seq<char>, source: crate::failure::IoErrorView },
    Parse { path: Seq<char>, message: Seq<char> },
    Serialize { path: Seq<char>, message: Seq<char> },
    InvalidWeight { path: Seq<char> },
    HomeDirUnavailable,
}

impl View for ConfigError {
    type V = ConfigErrorView;

    open spec fn view(&self) -> ConfigErrorView {
        match *self {
            ConfigError::Read { path, source } => ConfigErrorView::Read {
                path: path@,
                source: source@,
            },
            ConfigError::Write { path, source } => ConfigErrorView::Write {
                path: path@,
                source: source@,
            },
            ConfigError::Parse { path, message } => ConfigErrorView::Parse {
                path: path@,
                message: message@,
            },
            ConfigError::Serialize { path, message } => ConfigErrorView::Serialize {
                path: path@,
                message: message@,
            },
            ConfigError::InvalidWeight { path } => ConfigErrorView::InvalidWeight { path: path@ },
            ConfigError::HomeDirUnavailable => ConfigErrorView::HomeDirUnavailable,
        }
    }
}

/// Whether an error says that there is no such file.
pub open spec fn is_absent(error: ConfigErrorView) -> bool {
    match error {
        ConfigErrorView::Read { source, .. } => source.kind is NotFound,
        _ => false,
    }
}

/// One entry in the project registry: a project's name and where it lives.
#[derive(Debug, Eq, PartialEq)]
pub struct ProjectPointer {
    /// The project handle.
    pub name: String,
    /// Absolute path to the project's container directory.
    pub project_dir: String,
}

/// The contents of a [`ProjectPointer`].
pub struct ProjectPointerView {
    pub name: Seq<char>,
    pub project_dir: Seq<char>,
}

impl View for ProjectPointer {
    type V = ProjectPointerView;

    open spec fn view(&self) -> ProjectPointerView {
        ProjectPointerView { name: self.name@, project_dir: self.project_dir@ }
    }
}

impl Clone for ProjectPointer {
    fn clone(&self) -> (copy: Self)
        ensures
            copy@ == self@,
    {
        ProjectPointer { name: self.name.clone(), project_dir: self.project_dir.clone() }
    }
}

/// Local `git`/`gh` binary locations.
#[derive(Debug, Eq, PartialEq)]
pub struct Binaries {
    /// The `git` binary: a bare name, or an absolute path.
    pub git: String,
    /// The `gh` binary: a bare name, or an absolute path.
    pub gh: String,
}

impl Default for Binaries {
    fn default() -> (binaries: Binaries)
        ensures
            binaries.git@ == "git"@,
            binaries.gh@ == "gh"@,
    {
        Binaries { git: "git".to_string(), gh: "gh".to_string() }
    }
}

/// A single spawn-harness launch template.
#[derive(Debug, Eq, PartialEq)]
pub struct HarnessConfig {
    /// The argv to run, with `{prompt}`/`{spawn_token}`/`{worktree}`
    /// placeholders.
    pub command: Vec<String>,
}

impl View for HarnessConfig {
    type V = Seq<Seq<char>>;

    open spec fn view(&self) -> Seq<Seq<char>> {
        crate::text::texts(self.command@)
    }
}

/// The harness registry: which headless agent CLI runs a phase, and how.
#[derive(Debug)]
pub struct HarnessesConfig {
    /// The harness name used unless overridden.
    pub default: String,
    /// Every configured harness, by name.
    pub harnesses: TextMap<HarnessConfig>,
}

/// Global spawn limits.
#[derive(Clone, Copy, Debug, Eq, PartialEq, Structural)]
pub struct Limits {
    /// Spawn cap across all registered projects on this machine.
    pub max_concurrent_agents: u32,
}

/// Work-claim heartbeat and reclaim tuning.
#[derive(Clone, Copy, Debug, Eq, PartialEq, Structural)]
pub struct ClaimConfig {
    /// Stale-claim reclaim window.
    pub heartbeat_ttl: Duration,
    /// How often the owning instance refreshes its claim label.
    pub heartbeat_interval: Duration,
}

/// How a freed spawn slot is shared between projects.
#[derive(Clone, Copy, Debug, Eq, PartialEq, Structural)]
pub enum CrossProjectMode {
    /// Projects take turns, by weight.
    FairShare,
    /// Every project's issues compete in one ranking.
    GlobalPriorityPool,
}

impl Default for CrossProjectMode {
    fn default() -> (mode: CrossProjectMode)
        ensures
            mode == CrossProjectMode::FairShare,
    {
        CrossProjectMode::FairShare
    }
}

/// A socket address to listen on.
#[derive(Clone, Copy, Debug, Eq, PartialEq)]
pub enum ListenAddr {
    /// An IPv4 address and port.
    V4 {
        /// The address, most significant byte first.
        octets: [u8; 4],
        /// The port.
        port: u16,
    },
    /// An IPv6 address and port.
    V6 {
        /// The address, most significant group first.
        segments: [u16; 8],
        /// The port.
        port: u16,
    },
}

/// Whether an address is only reachable from this machine: `127.0.0.0/8`, or
/// `::1`.
pub open spec fn is_loopback_addr(addr: ListenAddr) -> bool {
    match addr {
        ListenAddr::V4 { octets, .. } => octets@[0] == 127,
        ListenAddr::V6 { segments, .. } => segments@ == seq![
            0u16,
            0u16,
            0u16,
            0u16,
            0u16,
            0u16,
            0u16,
            1u16,
        ],
    }
}

impl ListenAddr {
    /// Whether the address is only reachable from this machine.
    pub fn is_loopback(&self) -> (loopback: bool)
        ensures
            loopback == is_loopback_addr(*self),
    {
        match self {
            ListenAddr::V4 { octets, .. } => octets[0] == 127,
            ListenAddr::V6 { segments, .. } => {
                let loopback = segments[0] == 0 && segments[1] == 0 && segments[2] == 0
                    && segments[3] == 0 && segments[4] == 0 && segments[5] == 0 && segments[6] == 0
                    && segments[7] == 1;
                proof {
                    let one = seq![0u16, 0u16, 0u16, 0u16, 0u16, 0u16, 0u16, 1u16];
                    if loopback {
                        assert(segments@ =~= one);
                    } else if segments@ == one {
                        assert(segments@[0] == 0 && segments@[1] == 0 && segments@[2] == 0
                            && segments@[3] == 0 && segments@[4] == 0 && segments@[5] == 0
                            && segments@[6] == 0 && segments@[7] == 1);
                    }
                }
                loopback
            },
        }
    }
}

/// The machine-global daemon config.
#[derive(Debug)]
pub struct GlobalConfig {
    /// Loopback bind address.
    pub listen: ListenAddr,
    /// This machine's daemon id; `None` until the daemon first runs.
    pub instance_id: Option<String>,
    /// Local `git`/`gh` binary locations.
    pub binaries: Binaries,
    /// The harness registry.
    pub harnesses: HarnessesConfig,
    /// Global spawn limits.
    pub limits: Limits,
    /// How a freed spawn slot is shared between projects.
    pub cross_project_mode: CrossProjectMode,
    /// Work-claim heartbeat and reclaim tuning.
    pub claim: ClaimConfig,
    /// Default per-phase deadline.
    pub phase_timeout: Duration,
    /// The project registry.
    pub projects: Vec<ProjectPointer>,
}

/// Per-project `gh` scoping.
#[derive(Debug, Eq, PartialEq)]
pub struct GhConfig {
    /// The GitHub host.
    pub host: String,
    /// The `gh`-authenticated account to use for this project.
    pub account: String,
}

/// The contents of a [`GhConfig`].
pub struct GhConfigView {
    pub host: Seq<char>,
    pub account: Seq<char>,
}

impl View for GhConfig {
    type V = GhConfigView;

    open spec fn view(&self) -> GhConfigView {
        GhConfigView { host: self.host@, account: self.account@ }
    }
}

/// The contents of an optional [`GhConfig`].
pub open spec fn gh_view(gh: Option<GhConfig>) -> Option<GhConfigView> {
    match gh {
        Some(gh) => Some(gh@),
        None => None,
    }
}

/// How a project's merges are serialized.
#[derive(Clone, Copy, Debug, Eq, PartialEq, Structural)]
pub enum MergeMode {
    /// GitHub's native merge queue is enabled on the default branch.
    Native,
    /// The native queue is off; the server serializes merges itself.
    Serialized,
}

/// A single registered project's own settings.
#[derive(Debug, Eq, PartialEq)]
pub struct ProjectConfig {
    /// The project handle.
    pub name: String,
    /// The GitHub repo slug (`owner/repo`).
    pub repo: String,
    /// The project's container directory.
    pub project_dir: String,
    /// The primary checkout: `<project_dir>/<default_branch>`.
    pub local_path: String,
    /// The repo's default branch.
    pub default_branch: String,
    /// Native merge queue, or the server's serialized fallback.
    pub merge_mode: MergeMode,
    /// Per-project `gh` host and account, where `gh` serves several.
    pub gh: Option<GhConfig>,
    /// Optional per-project harness override.
    pub harness: Option<String>,
    /// Optional share of the spawn slots, relative to other projects.
    pub weight: Option<u32>,
    /// The shared context index location for this repo.
    pub index_path: String,
    /// The shared memory store id for this repo.
    pub memory_scope: String,
}

/// The contents of a [`ProjectConfig`].
pub struct ProjectConfigView {
    pub name: Seq<char>,
    pub repo: Seq<char>,
    pub project_dir: Seq<char>,
    pub local_path: Seq<char>,
    pub default_branch: Seq<char>,
    pub merge_mode: MergeMode,
    pub gh: Option<GhConfigView>,
    pub harness: Option<Seq<char>>,
    pub weight: Option<u32>,
    pub index_path: Seq<char>,
    pub memory_scope: Seq<char>,
}

impl View for ProjectConfig {
    type V = ProjectConfigView;

    open spec fn view(&self) -> ProjectConfigView {
        ProjectConfigView {
            name: self.name@,
            repo: self.repo@,
            project_dir: self.project_dir@,
            local_path: self.local_path@,
            default_branch: self.default_branch@,
            merge_mode: self.merge_mode,
            gh: gh_view(self.gh),
            harness: crate::text::text_view(self.harness),
            weight: self.weight,
            index_path: self.index_path@,
            memory_scope: self.memory_scope@,
        }
    }
}

/// The host of a project's issues, where it is not the default one.
pub open spec fn host_of(project: ProjectConfigView) -> Option<Seq<char>> {
    match project.gh {
        Some(gh) => Some(gh.host),
        None => None,
    }
}

impl ProjectConfig {
    /// The host of the project's issues, where it is not the default one.
    pub fn host(&self) -> (host: Option<&str>)
        ensures
            match host {
                Some(host) => host_of(self@) == Some(host@),
                None => host_of(self@) is None,
            },
    {
        match &self.gh {
            Some(gh) => Some(gh.host.as_str()),
            None => None,
        }
    }
}

/// Where the global config lives below the operator's home directory.
pub open spec fn global_path(home: Seq<char>) -> Seq<char> {
    crate::paths::joined(
        crate::paths::joined(crate::paths::joined(home, ".config"@), "spec-flow"@),
        "config.yaml"@,
    )
}

/// The path to the machine-global daemon config,
/// `<home>/.config/spec-flow/config.yaml`.
pub fn global_config_path(home: Option<&str>) -> (path: Result<String, ConfigError>)
    ensures
        match home {
            Some(home) => path matches Ok(path) && path@ == global_path(home@),
            None => path matches Err(error) && error@ == ConfigErrorView::HomeDirUnavailable,
        },
{
    match home {
        Some(home) => {
            let base = join(home, ".config");
            let dir = join(base.as_str(), "spec-flow");
            Ok(join(dir.as_str(), "config.yaml"))
        },
        None => Err(ConfigError::HomeDirUnavailable),
    }
}

/// The path to a registered project's own config file,
/// `<project_dir>/config.yaml`.
pub fn project_config_path(project_dir: &str) -> (path: String)
    ensures
        path@ == crate::paths::joined(project_dir@, "config.yaml"@),
{
    join(project_dir, "config.yaml")
}

/// What taking in a project config that was read from `path` comes to.
pub open spec fn taken_in(path: Seq<char>, config: ProjectConfigView) -> Result<
    ProjectConfigView,
    ConfigErrorView,
> {
    if config.weight == Some(0u32) {
        Err(ConfigErrorView::InvalidWeight { path })
    } else {
        Ok(config)
    }
}

/// Accepts a project config that was read from `path`, unless its weight is
/// zero: a project with no share would never be scheduled.
pub fn check_project_config(path: &str, config: ProjectConfig) -> (checked: Result<
    ProjectConfig,
    ConfigError,
>)
    ensures
        taken_in(path@, config@) == match checked {
            Ok(accepted) => Ok::<ProjectConfigView, ConfigErrorView>(accepted@),
            Err(error) => Err::<ProjectConfigView, ConfigErrorView>(error@),
        },
        match checked {
            Ok(accepted) => config.weight != Some(0u32) && accepted@ == config@,
            Err(error) => config.weight == Some(0u32) && error@
                == (ConfigErrorView::InvalidWeight { path: path@ }),
        },
{
    match config.weight {
        Some(0) => Err(ConfigError::InvalidWeight { path: path.to_string() }),
        _ => Ok(config),
    }
}

/// Addresses that only this machine reaches: every IPv4 address that begins
/// with 127, and the one IPv6 address `::1`; the port makes no difference.
pub proof fn loopback_is_127_or_one(
    octets: [u8; 4],
    segments: [u16; 8],
    port: u16,
    other: u16,
)
    ensures
        is_loopback_addr(ListenAddr::V4 { octets, port }) <==> octets@[0] == 127,
        is_loopback_addr(ListenAddr::V6 { segments, port }) <==> segments@[7] == 1 && forall|i: int|
            0 <= i < 7 ==> #[trigger] segments@[i] == 0,
        is_loopback_addr(ListenAddr::V4 { octets, port }) == is_loopback_addr(
            ListenAddr::V4 { octets, port: other },
        ),
{
    let one = seq![0u16, 0u16, 0u16, 0u16, 0u16, 0u16, 0u16, 1u16];
    if segments@ == one {
        assert forall|i: int| 0 <= i < 7 implies #[trigger] segments@[i] == 0 by {
            assert(one[i] == 0);
        }
        assert(one[7] == 1);
    }
    if segments@[7] == 1 && forall|i: int| 0 <= i < 7 ==> #[trigger] segments@[i] == 0 {
        assert(segments@ =~= one);
    }
}

/// The global config stands at a fixed place below the home directory.
pub proof fn global_config_stands_below_home(home: Seq<char>)
    requires
        home.len() > 0,
        home.last() != '/',
    ensures
        global_path(home) == home + "/.config/spec-flow/config.yaml"@,
        global_path(home.push('/')) == global_path(home),
{
    reveal_strlit("/");
    reveal_strlit(".config");
    reveal_strlit("spec-flow");
    reveal_strlit("config.yaml");
    reveal_strlit("/.config/spec-flow/config.yaml");
    let base = crate::paths::joined(home, ".config"@);
    assert(base =~= home + "/.config"@) by {
        reveal_strlit("/.config");
    }
    assert(crate::paths::joined(home.push('/'), ".config"@) =~= base);
    assert(base.last() == 'g');
    let dir = crate::paths::joined(base, "spec-flow"@);
    assert(dir == base + "/"@ + "spec-flow"@);
    assert(dir.last() == 'w');
    assert(global_path(home) =~= home + "/.config/spec-flow/config.yaml"@);
}

/// Only a file that does not exist counts as absent: a config that cannot be
/// read otherwise, parsed or accepted is there.
pub proof fn only_a_missing_file_is_absent(
    path: Seq<char>,
    source: crate::failure::IoErrorView,
    message: Seq<char>,
)
    ensures
        is_absent(ConfigErrorView::Read { path, source }) <==> source.kind is NotFound,
        !is_absent(ConfigErrorView::Write { path, source }),
        !is_absent(ConfigErrorView::Parse { path, message }),
        !is_absent(ConfigErrorView::Serialize { path, message }),
        !is_absent(ConfigErrorView::InvalidWeight { path }),
        !is_absent(ConfigErrorView::HomeDirUnavailable),
{
}

/// A project's issues are on the host that its config names, and on the default
/// one where it names none.
pub proof fn the_config_names_the_host(project: ProjectConfigView, gh: GhConfigView)
    ensures
        project.gh == Some(gh) ==> host_of(project) == Some(gh.host),
        project.gh is None ==> host_of(project) is None,
{
}

/// A config is taken in as it stands unless it gives its project no share at
/// all.
pub proof fn a_share_of_nothing_is_refused(path: Seq<char>, config: ProjectConfigView, weight: u32)
    ensures
        config.weight is None ==> taken_in(path, config) == Ok::<
            ProjectConfigView,
            ConfigErrorView,
        >(config),
        config.weight == Some(weight) && weight > 0 ==> taken_in(path, config) == Ok::<
            ProjectConfigView,
            ConfigErrorView,
        >(config),
        config.weight == Some(0u32) ==> taken_in(path, config) == Err::<
            ProjectConfigView,
            ConfigErrorView,
        >(ConfigErrorView::InvalidWeight { path }),
{
}

} // verus!
