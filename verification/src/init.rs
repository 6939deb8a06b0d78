//! `spec-flow init`: what makes a repo one that this daemon manages.
//!
//! The steps alternate with work on the file system, which is the caller's:
//!
//! 1. [`probe_repo`] asks `git` and `gh` about the checkout;
//! 2. the caller resolves the checkout and the project directory to canonical
//!    paths, and [`locate_project`] holds them to the required layout;
//! 3. the caller reads the project's config file and the global one, as far
//!    as they exist, and [`plan_init`] says what to write:
//!    [`resolve_project_config`] settles the project's config,
//!    [`load_or_default_global_config`] supplies a first global config,
//!    [`register_project`] adds the project to it, and
//!    [`crate::scaffold::scaffold_files`] names the files of the repo;
//! 4. the caller carries the plan out, step by step (see
//!    [`crate::installation`]): it writes the project's config, the global
//!    config, and each file of the repo that does not exist, and
//!    [`provision_labels`] creates the labels that the workflow needs.
//!
//! Nothing is written before a config has been settled, so that a rejected
//! `init` leaves everything as it was. Running it again brings the config and
//! the registry row up to date.

use vstd::prelude::*;

use crate::config::{
    project_config_path, Binaries, ClaimConfig, ConfigError, ConfigErrorView, CrossProjectMode,
    GhConfig, GlobalConfig, HarnessConfig, HarnessesConfig, Limits, ListenAddr, MergeMode,
    ProjectConfig, ProjectConfigView, ProjectPointer, ProjectPointerView,
};
use crate::failure::{IoError, IoErrorKind, IoErrorView};
use crate::maps::TextMap;
use crate::paths::{file_name, join, parent, paths_equal};
use crate::registry::{add_project, find_project, AddOutcome};
use crate::scaffold::{
    instructions_dir, scaffold_files, workflow_path, ScaffoldError, ScaffoldErrorView,
    ScaffoldFile,
};
use crate::text::chars_of;
use crate::time::Duration;
use crate::vcs::{Vcs, VcsCall, VcsError, VcsErrorView};

verus! {

/// Options of `init`.
#[derive(Debug, Eq, PartialEq)]
pub struct InitOptions {
    /// The GitHub repo slug to use in place of the detected one.
    pub repo: Option<String>,
    /// The project's container directory, in place of the checkout's parent.
    pub project_dir: Option<String>,
}

impl Default for InitOptions {
    fn default() -> (options: InitOptions)
        ensures
            options.repo is None,
            options.project_dir is None,
    {
        InitOptions { repo: None, project_dir: None }
    }
}

/// Errors from `init`.
#[derive(Debug)]
#[non_exhaustive]
pub enum InitError {
    /// A config file could not be loaded or saved.
    Config(ConfigError),
    /// A `git`/`gh` call failed.
    Vcs(VcsError),
    /// A scaffolding file could not be written.
    Scaffold(ScaffoldError),
    /// The workflow file could not be read back.
    ReadWorkflow {
        /// The workflow file.
        path: String,
        /// The underlying I/O failure.
        source: IoError,
    },
    /// The workflow file does not parse.
    Workflow {
        /// The workflow file.
        path: String,
        /// The parser's own description.
        message: String,
    },
    /// The current working directory could not be read.
    CurrentDir {
        /// The underlying I/O failure.
        source: IoError,
    },
    /// The checkout has no parent to be the project's container.
    NoProjectDir {
        /// The checkout.
        repo_dir: String,
    },
    /// The project directory has no final component to name the project after.
    NoProjectName {
        /// The project directory.
        project_dir: String,
    },
    /// The checkout is not `<project_dir>/<default_branch>`.
    CheckoutNotSiblingOfDefaultBranch {
        /// The checkout.
        repo_dir: String,
        /// The project directory, in canonical form.
        project_dir: String,
        /// The repo's default branch.
        default_branch: String,
    },
    /// A path could not be resolved to its canonical form.
    UnresolvablePath {
        /// The path.
        path: String,
        /// The underlying I/O failure.
        source: IoError,
    },
}

/// The contents of an [`InitError`].
pub enum InitErrorView {
    Config(ConfigErrorView),
    Vcs(VcsErrorView),
    Scaffold(ScaffoldErrorView),
    ReadWorkflow { path: Seq<char>, source: IoErrorView },
    Workflow { path: Seq<char>, message: Seq<char> },
    CurrentDir { source: IoErrorView },
    NoProjectDir { repo_dir: Seq<char> },
    NoProjectName { project_dir: Seq<char> },
    CheckoutNotSiblingOfDefaultBranch {
        repo_dir: Seq<char>,
        project_dir: Seq<char>,
        default_branch: Seq<char>,
    },
    UnresolvablePath { path: Seq<char>, source: IoErrorView },
}

impl View for InitError {
    type V = InitErrorView;

    open spec fn view(&self) -> InitErrorView {
        match *self {
            InitError::Config(error) => InitErrorView::Config(error@),
            InitError::Vcs(error) => InitErrorView::Vcs(error@),
            InitError::Scaffold(error) => InitErrorView::Scaffold(error@),
            InitError::ReadWorkflow { path, source } => InitErrorView::ReadWorkflow {
                path: path@,
                source: source@,
            },
            InitError::Workflow { path, message } => InitErrorView::Workflow {
                path: path@,
                message: message@,
            },
            InitError::CurrentDir { source } => InitErrorView::CurrentDir { source: source@ },
            InitError::NoProjectDir { repo_dir } => InitErrorView::NoProjectDir {
                repo_dir: repo_dir@,
            },
            InitError::NoProjectName { project_dir } => InitErrorView::NoProjectName {
                project_dir: project_dir@,
            },
            InitError::CheckoutNotSiblingOfDefaultBranch {
                repo_dir,
                project_dir,
                default_branch,
            } => InitErrorView::CheckoutNotSiblingOfDefaultBranch {
                repo_dir: repo_dir@,
                project_dir: project_dir@,
                default_branch: default_branch@,
            },
            InitError::UnresolvablePath { path, source } => InitErrorView::UnresolvablePath {
                path: path@,
                source: source@,
            },
        }
    }
}

/// The contents of what a step gave back.
pub open spec fn init_outcome<T: View>(result: Result<T, InitError>) -> Result<
    T::V,
    InitErrorView,
> {
    match result {
        Ok(value) => Ok(value@),
        Err(error) => Err(error@),
    }
}

/// What `git` and `gh` say of a checkout, and the project directory before it
/// is resolved.
#[derive(Debug, Eq, PartialEq)]
pub struct Probe {
    /// The GitHub repo slug.
    pub repo: String,
    /// The repo's default branch.
    pub default_branch: String,
    /// Native merge queue, or the server's serialized fallback.
    pub merge_mode: MergeMode,
    /// The project's container directory, as given or derived.
    pub project_dir: String,
}

/// The contents of a [`Probe`].
pub struct ProbeView {
    pub repo: Seq<char>,
    pub default_branch: Seq<char>,
    pub merge_mode: MergeMode,
    pub project_dir: Seq<char>,
}

impl View for Probe {
    type V = ProbeView;

    open spec fn view(&self) -> ProbeView {
        ProbeView {
            repo: self.repo@,
            default_branch: self.default_branch@,
            merge_mode: self.merge_mode,
            project_dir: self.project_dir@,
        }
    }
}

/// The project directory of a checkout: as given, or else the checkout's
/// parent.
pub open spec fn container_of(given: Option<Seq<char>>, repo_dir: Seq<char>) -> Option<Seq<char>> {
    match given {
        Some(given) => Some(given),
        None => crate::paths::parent_of(repo_dir),
    }
}

/// What asking about a repo whose slug is known comes to, given the calls from
/// position `from` on.
pub open spec fn known_repo_run(
    calls: Seq<VcsCall>,
    from: int,
    repo_dir: Seq<char>,
    given_dir: Option<Seq<char>>,
    repo: Seq<char>,
) -> Option<(Result<ProbeView, InitErrorView>, int)> {
    match crate::vcs::ready_run(calls, from, repo) {
        None => None,
        Some((Err(error), end)) => Some((Err(InitErrorView::Vcs(error)), end)),
        Some((Ok(_), end)) => if !(0 <= end < calls.len()) {
            None
        } else if let VcsCall::DetectDefaultBranch { repo_dir: asked, result } = calls[end] {
            if asked != repo_dir {
                None
            } else {
                match result {
                    Err(error) => Some((Err(InitErrorView::Vcs(error)), end + 1)),
                    Ok(branch) => if end + 1 >= calls.len() {
                        None
                    } else if let VcsCall::MergeQueueEnabled {
                        repo: asked,
                        default_branch,
                        result,
                    } = calls[end + 1] {
                        if asked != repo || default_branch != branch {
                            None
                        } else {
                            match result {
                                Err(error) => Some((Err(InitErrorView::Vcs(error)), end + 2)),
                                Ok(enabled) => Some(
                                    (
                                        match container_of(given_dir, repo_dir) {
                                            None => Err(InitErrorView::NoProjectDir { repo_dir }),
                                            Some(project_dir) => Ok(
                                                ProbeView {
                                                    repo,
                                                    default_branch: branch,
                                                    merge_mode: merge_mode_of(enabled),
                                                    project_dir,
                                                },
                                            ),
                                        },
                                        end + 2,
                                    ),
                                ),
                            }
                        }
                    } else {
                        None
                    },
                }
            }
        } else {
            None
        },
    }
}

/// What [`probe_repo`] comes to, given the calls from position `from` on: its
/// result, and the position after the last call made. `None` where those are
/// other calls.
pub open spec fn probe_run(
    calls: Seq<VcsCall>,
    from: int,
    given_repo: Option<Seq<char>>,
    given_dir: Option<Seq<char>>,
    repo_dir: Seq<char>,
) -> Option<(Result<ProbeView, InitErrorView>, int)> {
    match given_repo {
        Some(repo) => known_repo_run(calls, from, repo_dir, given_dir, repo),
        None => if !(0 <= from < calls.len()) {
            None
        } else if let VcsCall::DetectRepoSlug { repo_dir: asked, result } = calls[from] {
            if asked != repo_dir {
                None
            } else {
                match result {
                    Err(error) => Some((Err(InitErrorView::Vcs(error)), from + 1)),
                    Ok(repo) => known_repo_run(calls, from + 1, repo_dir, given_dir, repo),
                }
            }
        } else {
            None
        },
    }
}

/// How a project's merges are serialized, given whether the native queue is
/// on.
pub open spec fn merge_mode_of(enabled: bool) -> MergeMode {
    if enabled {
        MergeMode::Native
    } else {
        MergeMode::Serialized
    }
}

/// Whether the repo runs GitHub's native merge queue or the server's own
/// serialized merges. A repo without the native queue is no failure.
pub fn detect_merge_mode<V: Vcs>(vcs: &mut V, repo: &str, default_branch: &str) -> (mode: Result<
    MergeMode,
    VcsError,
>)
    ensures
        crate::vcs::leads(*old(vcs), *final(vcs)),
        final(vcs).history().len() == old(vcs).history().len() + 1,
        old(vcs).history().is_prefix_of(final(vcs).history()),
        final(vcs).history().last() matches VcsCall::MergeQueueEnabled {
            repo: asked,
            default_branch: branch,
            result,
        } && asked == repo@ && branch == default_branch@ && match (mode, result) {
            (Ok(mode), Ok(enabled)) => mode == merge_mode_of(enabled),
            (Err(error), Err(cause)) => error@ == cause,
            _ => false,
        },
{
    let ghost entry = *vcs;
    let enabled = vcs.merge_queue_enabled(repo, default_branch);
    proof {
        crate::vcs::leads_by_one(entry, *vcs);
    }
    match enabled {
        Ok(true) => Ok(MergeMode::Native),
        Ok(false) => Ok(MergeMode::Serialized),
        Err(error) => Err(error),
    }
}

/// Asks `git` and `gh` for everything that the project's config records of
/// its repo, and derives its directory.
///
/// The slug is the given one or else detected; `git`, `gh` and its
/// authentication for that repo are checked before anything else is asked.
pub fn probe_repo<V: Vcs>(vcs: &mut V, options: &InitOptions, repo_dir: &str) -> (probe: Result<
    Probe,
    InitError,
>)
    ensures
        crate::vcs::leads(*old(vcs), *final(vcs)),
        old(vcs).history().is_prefix_of(final(vcs).history()),
        probe_run(
            final(vcs).history(),
            old(vcs).history().len() as int,
            crate::text::text_view(options.repo),
            crate::text::text_view(options.project_dir),
            repo_dir@,
        ) == Some((init_outcome(probe), final(vcs).history().len() as int)),
{
    let ghost entry = *vcs;
    proof {
        crate::vcs::leads_nowhere(entry);
    }
    let repo = match &options.repo {
        Some(repo) => repo.clone(),
        None => {
            let detected = vcs.detect_repo_slug(repo_dir);
            proof {
                crate::vcs::leads_by_one(entry, *vcs);
            }
            match detected {
                Ok(repo) => repo,
                Err(error) => return Err(InitError::Vcs(error)),
            }
        },
    };
    let ghost at = *vcs;
    let ghost asked = vcs.history();
    let readiness = vcs.ensure_ready(repo.as_str());
    proof {
        crate::vcs::leads_further(entry, at, *vcs);
    }
    if let Err(error) = readiness {
        proof {
            prefix_holds_calls(asked, vcs.history());
        }
        return Err(InitError::Vcs(error));
    }
    let ghost at = *vcs;
    let ghost ready = vcs.history();
    let detected = vcs.detect_default_branch(repo_dir);
    proof {
        crate::vcs::leads_on(entry, at, *vcs);
    }
    let default_branch = match detected {
        Ok(branch) => branch,
        Err(error) => {
            proof {
                prefix_holds_calls(asked, vcs.history());
                ready_run_extends(ready, vcs.history(), asked.len() as int, repo@);
            }
            return Err(InitError::Vcs(error));
        },
    };
    let ghost at = *vcs;
    let mode = detect_merge_mode(vcs, repo.as_str(), default_branch.as_str());
    proof {
        crate::vcs::leads_further(entry, at, *vcs);
        prefix_holds_calls(ready, vcs.history());
        prefix_holds_calls(asked, vcs.history());
        prefix_holds_calls(ready.push(vcs.history()[ready.len() as int]), vcs.history());
        ready_run_extends(ready, vcs.history(), asked.len() as int, repo@);
    }
    let merge_mode = match mode {
        Ok(mode) => mode,
        Err(error) => return Err(InitError::Vcs(error)),
    };
    let project_dir = match &options.project_dir {
        Some(project_dir) => project_dir.clone(),
        None => match parent(repo_dir) {
            Some(project_dir) => project_dir.to_string(),
            None => return Err(InitError::NoProjectDir { repo_dir: repo_dir.to_string() }),
        },
    };
    Ok(Probe { repo, default_branch, merge_mode, project_dir })
}

/// A longer record holds the same calls.
proof fn prefix_holds_calls(calls: Seq<VcsCall>, more: Seq<VcsCall>)
    requires
        calls.is_prefix_of(more),
    ensures
        forall|i: int| 0 <= i < calls.len() ==> #[trigger] more[i] == calls[i],
{
    assert forall|i: int| 0 <= i < calls.len() implies #[trigger] more[i] == calls[i] by {
        assert(more.subrange(0, calls.len() as int)[i] == more[i]);
    }
}

/// Calls made later do not change what the readiness check came to.
proof fn ready_run_extends(calls: Seq<VcsCall>, more: Seq<VcsCall>, from: int, repo: Seq<char>)
    requires
        calls.is_prefix_of(more),
        0 <= from,
        crate::vcs::ready_run(calls, from, repo) is Some,
    ensures
        crate::vcs::ready_run(more, from, repo) == crate::vcs::ready_run(calls, from, repo),
{
    prefix_holds_calls(calls, more);
}

/// A project's place on disk, held to the required layout.
#[derive(Debug, Eq, PartialEq)]
pub struct Located {
    /// The project handle: the final component of its directory.
    pub name: String,
    /// The project's container directory, in canonical form.
    pub project_dir: String,
}

/// The contents of a [`Located`].
pub struct LocatedView {
    pub name: Seq<char>,
    pub project_dir: Seq<char>,
}

impl View for Located {
    type V = LocatedView;

    open spec fn view(&self) -> LocatedView {
        LocatedView { name: self.name@, project_dir: self.project_dir@ }
    }
}

/// Where a project is, given what its checkout and its directory resolve to.
pub open spec fn located(
    probe: ProbeView,
    repo_dir: Seq<char>,
    checkout: Result<Seq<char>, IoErrorView>,
    container: Result<Seq<char>, IoErrorView>,
) -> Result<LocatedView, InitErrorView> {
    match (checkout, container) {
        (Err(source), _) => Err(InitErrorView::UnresolvablePath { path: repo_dir, source }),
        (_, Err(source)) => Err(
            InitErrorView::UnresolvablePath { path: probe.project_dir, source },
        ),
        (Ok(checkout), Ok(project_dir)) => if !crate::paths::same_path(
            crate::paths::joined(project_dir, probe.default_branch),
            checkout,
        ) {
            Err(
                InitErrorView::CheckoutNotSiblingOfDefaultBranch {
                    repo_dir,
                    project_dir,
                    default_branch: probe.default_branch,
                },
            )
        } else {
            match crate::paths::file_name_of(project_dir) {
                None => Err(InitErrorView::NoProjectName { project_dir }),
                Some(name) => Ok(LocatedView { name, project_dir }),
            }
        },
    }
}

/// The contents of a resolved path, or of the failure to resolve it.
pub open spec fn resolved_view(resolved: Result<String, IoError>) -> Result<
    Seq<char>,
    IoErrorView,
> {
    match resolved {
        Ok(path) => Ok(path@),
        Err(error) => Err(error@),
    }
}

/// Holds a checkout to the layout `<project_dir>/<default_branch>`, and names
/// the project after its directory.
///
/// `checkout` and `container` are what `repo_dir` and the probed project
/// directory resolve to: canonical paths, so that a relative or symlinked
/// spelling of the right place is accepted.
pub fn locate_project(
    probe: &Probe,
    repo_dir: &str,
    checkout: Result<String, IoError>,
    container: Result<String, IoError>,
) -> (place: Result<Located, InitError>)
    ensures
        init_outcome(place) == located(
            probe@,
            repo_dir@,
            resolved_view(checkout),
            resolved_view(container),
        ),
{
    let checkout = match checkout {
        Ok(checkout) => checkout,
        Err(source) => {
            return Err(InitError::UnresolvablePath { path: repo_dir.to_string(), source });
        },
    };
    let project_dir = match container {
        Ok(project_dir) => project_dir,
        Err(source) => {
            return Err(InitError::UnresolvablePath { path: probe.project_dir.clone(), source });
        },
    };
    let expected = join(project_dir.as_str(), probe.default_branch.as_str());
    if !paths_equal(expected.as_str(), checkout.as_str()) {
        return Err(
            InitError::CheckoutNotSiblingOfDefaultBranch {
                repo_dir: repo_dir.to_string(),
                project_dir,
                default_branch: probe.default_branch.clone(),
            },
        );
    }
    match file_name(project_dir.as_str()) {
        Some(name) => Ok(Located { name, project_dir }),
        None => Err(InitError::NoProjectName { project_dir }),
    }
}

/// What an operator adds to a project's config by hand, and detection cannot
/// produce again.
#[derive(Debug, Eq, PartialEq)]
pub struct ExistingOverrides {
    /// The `gh` host and account.
    pub gh: Option<GhConfig>,
    /// The harness override.
    pub harness: Option<String>,
    /// The share of the spawn slots.
    pub weight: Option<u32>,
}

/// The contents of a config that was read, or of the failure to read it.
pub open spec fn loaded_view(loaded: Result<ProjectConfig, ConfigError>) -> Result<
    ProjectConfigView,
    ConfigErrorView,
> {
    match loaded {
        Ok(config) => Ok(config@),
        Err(error) => Err(error@),
    }
}

/// What to carry forward from a project's existing config.
///
/// A file that does not exist yet has nothing to carry forward. One that
/// exists and cannot be read is an error: it is about to be overwritten, and
/// what it holds would be lost.
pub fn existing_overrides(loaded: Result<ProjectConfig, ConfigError>) -> (overrides: Result<
    ExistingOverrides,
    ConfigError,
>)
    ensures
        match loaded_view(loaded) {
            Ok(config) => overrides matches Ok(kept) && crate::config::gh_view(kept.gh) == config.gh
                && crate::text::text_view(kept.harness) == config.harness && kept.weight
                == config.weight,
            Err(cause) => if crate::config::is_absent(cause) {
                overrides matches Ok(kept) && kept.gh is None && kept.harness is None
                    && kept.weight is None
            } else {
                overrides matches Err(error) && error@ == cause
            },
        },
{
    match loaded {
        Ok(config) => Ok(
            ExistingOverrides { gh: config.gh, harness: config.harness, weight: config.weight },
        ),
        Err(error) => if reads_nothing(&error) {
            Ok(ExistingOverrides { gh: None, harness: None, weight: None })
        } else {
            Err(error)
        },
    }
}

/// Whether an error says that there is no such file.
fn reads_nothing(error: &ConfigError) -> (absent: bool)
    ensures
        absent == crate::config::is_absent(error@),
{
    match error {
        ConfigError::Read { source, .. } => match source.kind {
            IoErrorKind::NotFound => true,
            _ => false,
        },
        _ => false,
    }
}

/// The memory scope of a repo: its slug, with `-` in place of every `/`.
pub open spec fn memory_scope_of(repo: Seq<char>) -> Seq<char> {
    repo.map_values(|c: char| if c == '/' { '-' } else { c })
}

/// The memory scope of a repo.
pub fn memory_scope(repo: &str) -> (scope: String)
    ensures
        scope@ == memory_scope_of(repo@),
{
    let chars = chars_of(repo);
    let mut scope = String::new();
    let mut i: usize = 0;
    while i < chars.len()
        invariant
            i <= chars@.len(),
            chars@ == repo@,
            scope@ == memory_scope_of(repo@.take(i as int)),
        decreases chars@.len() - i,
    {
        proof {
            assert(memory_scope_of(repo@.take(i + 1)) =~= memory_scope_of(
                repo@.take(i as int),
            ).push(if repo@[i as int] == '/' { '-' } else { repo@[i as int] }));
        }
        let ghost before = scope@;
        if chars[i] == '/' {
            scope.append("-");
            proof {
                reveal_strlit("-");
                assert(scope@ =~= before.push('-'));
            }
        } else {
            scope.append(repo.substring_char(i, i + 1));
            assert(scope@ =~= before.push(repo@[i as int]));
        }
        i += 1;
    }
    assert(repo@.take(i as int) =~= repo@);
    scope
}

/// The config of a located project. What `git` and `gh` say replaces what was
/// recorded; what only an operator can add is carried forward.
pub open spec fn project_config_of(
    probe: ProbeView,
    place: LocatedView,
    existing: Option<ProjectConfigView>,
) -> ProjectConfigView {
    ProjectConfigView {
        name: place.name,
        repo: probe.repo,
        project_dir: place.project_dir,
        local_path: crate::paths::joined(place.project_dir, probe.default_branch),
        default_branch: probe.default_branch,
        merge_mode: probe.merge_mode,
        gh: match existing {
            Some(config) => config.gh,
            None => None,
        },
        harness: match existing {
            Some(config) => config.harness,
            None => None,
        },
        weight: match existing {
            Some(config) => config.weight,
            None => None,
        },
        index_path: crate::paths::joined(place.project_dir, "index"@),
        memory_scope: memory_scope_of(probe.repo),
    }
}

/// What settling a project's config comes to, given the outcome of reading the
/// one that it has. A file that exists and cannot be read is an error.
pub open spec fn settled_config(
    probe: ProbeView,
    place: LocatedView,
    loaded: Result<ProjectConfigView, ConfigErrorView>,
) -> Result<ProjectConfigView, InitErrorView> {
    match loaded {
        Ok(existing) => Ok(project_config_of(probe, place, Some(existing))),
        Err(cause) => if crate::config::is_absent(cause) {
            Ok(project_config_of(probe, place, None))
        } else {
            Err(InitErrorView::Config(cause))
        },
    }
}

/// Settles a project's config, given the outcome of reading the one that it
/// has.
pub fn resolve_project_config(
    probe: Probe,
    place: Located,
    loaded: Result<ProjectConfig, ConfigError>,
) -> (config: Result<ProjectConfig, InitError>)
    ensures
        init_outcome(config) == settled_config(probe@, place@, loaded_view(loaded)),
{
    let overrides = match existing_overrides(loaded) {
        Ok(overrides) => overrides,
        Err(error) => return Err(InitError::Config(error)),
    };
    let local_path = join(place.project_dir.as_str(), probe.default_branch.as_str());
    let index_path = join(place.project_dir.as_str(), "index");
    let memory_scope = memory_scope(probe.repo.as_str());
    Ok(
        ProjectConfig {
            name: place.name,
            repo: probe.repo,
            project_dir: place.project_dir,
            local_path,
            default_branch: probe.default_branch,
            merge_mode: probe.merge_mode,
            gh: overrides.gh,
            harness: overrides.harness,
            weight: overrides.weight,
            index_path,
            memory_scope,
        },
    )
}

/// The commands of several harnesses, by name.
pub open spec fn commands_of(harnesses: Map<Seq<char>, HarnessConfig>) -> Map<
    Seq<char>,
    Seq<Seq<char>>,
> {
    harnesses.map_values(|harness: HarnessConfig| harness@)
}

/// The commands that a fresh global config starts with: those of `assistant`,
/// `codex` and `opencode`.
pub open spec fn shipped_commands(assistant: Seq<char>) -> Map<Seq<char>, Seq<Seq<char>>> {
    Map::empty().insert(assistant, seq![assistant, "-p"@, "{prompt}"@]).insert(
        "codex"@,
        seq!["codex"@, "exec"@, "{prompt}"@],
    ).insert("opencode"@, seq!["opencode"@, "run"@, "{prompt}"@])
}

/// Whether `config` is the fresh global config: loopback only, no instance id
/// yet, the shipped harnesses with `assistant` as the default, and no projects.
pub open spec fn is_default_global(config: GlobalConfig, assistant: Seq<char>) -> bool {
    &&& config.listen == (ListenAddr::V4 { octets: [127u8, 0, 0, 1], port: 7420 })
    &&& config.instance_id is None
    &&& config.binaries.git@ == "git"@
    &&& config.binaries.gh@ == "gh"@
    &&& config.harnesses.default@ == assistant
    &&& commands_of(config.harnesses.harnesses@) == shipped_commands(assistant)
    &&& config.limits.max_concurrent_agents == 3
    &&& config.cross_project_mode == CrossProjectMode::FairShare
    &&& config.claim.heartbeat_ttl == (Duration { secs: 3600, nanos: 0 })
    &&& config.claim.heartbeat_interval == (Duration { secs: 300, nanos: 0 })
    &&& config.phase_timeout == (Duration { secs: 2700, nanos: 0 })
    &&& config.projects@.len() == 0
}

/// A harness that passes the prompt after `flag`.
fn prompted(program: &str, flag: &str) -> (harness: HarnessConfig)
    ensures
        harness@ == seq![program@, flag@, "{prompt}"@],
{
    let mut command: Vec<String> = Vec::new();
    command.push(program.to_string());
    command.push(flag.to_string());
    command.push("{prompt}".to_string());
    let harness = HarnessConfig { command };
    assert(harness@ =~= seq![program@, flag@, "{prompt}"@]);
    harness
}

/// The harnesses that a fresh global config starts with: `assistant`, which is
/// the default, `codex` and `opencode`.
pub fn default_harnesses(assistant: &str) -> (config: HarnessesConfig)
    ensures
        config.default@ == assistant@,
        commands_of(config.harnesses@) == shipped_commands(assistant@),
{
    let mut harnesses: TextMap<HarnessConfig> = TextMap::new();
    harnesses.insert(assistant, prompted(assistant, "-p"));
    harnesses.insert("codex", prompted("codex", "exec"));
    harnesses.insert("opencode", prompted("opencode", "run"));
    assert(commands_of(harnesses@) =~= shipped_commands(assistant@));
    HarnessesConfig { default: assistant.to_string(), harnesses }
}

/// The global config to start from, with an empty project registry and the
/// shipped harnesses, of which `assistant` is the default.
pub fn default_global_config(assistant: &str) -> (config: GlobalConfig)
    ensures
        is_default_global(config, assistant@),
{
    GlobalConfig {
        listen: ListenAddr::V4 { octets: [127, 0, 0, 1], port: 7420 },
        instance_id: None,
        binaries: Binaries::default(),
        harnesses: default_harnesses(assistant),
        limits: Limits { max_concurrent_agents: 3 },
        cross_project_mode: CrossProjectMode::default(),
        claim: ClaimConfig {
            heartbeat_ttl: Duration::from_secs(60 * 60),
            heartbeat_interval: Duration::from_secs(5 * 60),
        },
        phase_timeout: Duration::from_secs(45 * 60),
        projects: Vec::new(),
    }
}

/// The global config to register a project in, given the outcome of reading
/// it: a fresh one where there is no file yet. Any other failure is an error.
pub fn load_or_default_global_config(
    loaded: Result<GlobalConfig, ConfigError>,
    assistant: &str,
) -> (config: Result<GlobalConfig, ConfigError>)
    ensures
        match loaded {
            Ok(existing) => config matches Ok(config) && config == existing,
            Err(cause) => if crate::config::is_absent(cause@) {
                config matches Ok(config) && is_default_global(config, assistant@)
            } else {
                config matches Err(error) && error@ == cause@
            },
        },
{
    match loaded {
        Ok(config) => Ok(config),
        Err(error) => if reads_nothing(&error) {
            Ok(default_global_config(assistant))
        } else {
            Err(error)
        },
    }
}

/// The directory that `name` stood for before it was registered for
/// `project_dir`, where that is another one.
pub open spec fn repointed_from(
    before: Seq<ProjectPointerView>,
    name: Seq<char>,
    project_dir: Seq<char>,
    previous: Option<Seq<char>>,
) -> bool {
    match previous {
        Some(previous) => exists|at: int| #[trigger]
            crate::registry::is_first_named(before, name, at) && before[at].project_dir
                == previous && !crate::paths::same_path(previous, project_dir),
        None => forall|at: int| #[trigger]
            crate::registry::is_first_named(before, name, at) ==> crate::paths::same_path(
                before[at].project_dir,
                project_dir,
            ),
    }
}

/// Registers a project under its name, and returns the directory that this
/// name stood for before, where that was another one: two containers can share
/// a name, and the earlier one is no longer registered then.
pub fn register_project(global: &mut GlobalConfig, project: &ProjectConfig) -> (previous: Option<
    String,
>)
    ensures
        exists|outcome: AddOutcome|
            crate::registry::is_registered(
                crate::registry::pointers(old(global).projects@),
                crate::registry::pointers(final(global).projects@),
                ProjectPointerView { name: project.name@, project_dir: project.project_dir@ },
                outcome,
            ),
        *final(global) == (GlobalConfig { projects: final(global).projects, ..*old(global) }),
        repointed_from(
            crate::registry::pointers(old(global).projects@),
            project.name@,
            project.project_dir@,
            crate::text::text_view(previous),
        ),
{
    let ghost before = crate::registry::pointers(global.projects@);
    let previous = match find_project(global, project.name.as_str()) {
        Some(pointer) => {
            let ghost found = choose|at: int| #[trigger]
                crate::registry::is_first_named(before, project.name@, at)
                    && global.projects@[at] == *pointer;
            proof {
                assert(before[found] == pointer@);
                assert forall|at: int| #[trigger]
                    crate::registry::is_first_named(before, project.name@, at) implies at
                    == found by {
                    if at < found {
                        assert(before[at].name != project.name@);
                    }
                    if found < at {
                        assert(before[found].name != project.name@);
                    }
                }
            }
            if paths_equal(pointer.project_dir.as_str(), project.project_dir.as_str()) {
                None
            } else {
                Some(pointer.project_dir.clone())
            }
        },
        None => None,
    };
    let outcome = add_project(
        global,
        ProjectPointer { name: project.name.clone(), project_dir: project.project_dir.clone() },
    );
    assert(crate::registry::is_registered(
        before,
        crate::registry::pointers(global.projects@),
        ProjectPointerView { name: project.name@, project_dir: project.project_dir@ },
        outcome,
    ));
    previous
}

/// What creating labels in turn comes to, given the calls from position `from`
/// on: success or the first error, and the position after the last call made.
/// `None` where those are other calls.
pub open spec fn provision_run(
    calls: Seq<VcsCall>,
    from: int,
    repo: Seq<char>,
    labels: Seq<Seq<char>>,
) -> Option<(Result<(), VcsErrorView>, int)>
    decreases labels.len(),
{
    if labels.len() == 0 {
        Some((Ok(()), from))
    } else if !(0 <= from < calls.len()) {
        None
    } else if let VcsCall::EnsureLabel { repo: asked, label, result } = calls[from] {
        if asked != repo || label != labels[0] {
            None
        } else {
            match result {
                Err(error) => Some((Err(error), from + 1)),
                Ok(_) => provision_run(calls, from + 1, repo, labels.skip(1)),
            }
        }
    } else {
        None
    }
}

/// A first label that was created leaves the others to create.
proof fn provision_run_steps(
    calls: Seq<VcsCall>,
    from: int,
    repo: Seq<char>,
    labels: Seq<Seq<char>>,
    upto: int,
)
    requires
        0 <= from <= from + upto <= calls.len(),
        0 <= upto <= labels.len(),
        forall|k: int|
            0 <= k < upto ==> (#[trigger] labels[k] == labels[k] && calls[from + k]
                == (VcsCall::EnsureLabel { repo, label: labels[k], result: Ok(()) })),
    ensures
        provision_run(calls, from, repo, labels) == provision_run(
            calls,
            from + upto,
            repo,
            labels.skip(upto),
        ),
    decreases upto,
{
    if upto == 0 {
        assert(labels.skip(0) =~= labels);
    } else {
        assert(labels[0] == labels[0]);
        let rest = labels.skip(1);
        assert forall|k: int| 0 <= k < upto - 1 implies (#[trigger] rest[k] == rest[k] && calls[from
            + 1 + k] == (VcsCall::EnsureLabel { repo, label: rest[k], result: Ok(()) })) by {
            assert(labels[k + 1] == rest[k]);
            assert(calls[from + (k + 1)] == calls[from + 1 + k]);
        }
        provision_run_steps(calls, from + 1, repo, rest, upto - 1);
        assert(rest.skip(upto - 1) =~= labels.skip(upto));
    }
}

/// Creates every label that a project's workflow needs, up to the first
/// failure, so that each later label write has somewhere to land.
pub fn provision_labels<V: Vcs>(vcs: &mut V, repo: &str, labels: &Vec<String>) -> (result: Result<
    (),
    VcsError,
>)
    ensures
        crate::vcs::leads(*old(vcs), *final(vcs)),
        old(vcs).history().is_prefix_of(final(vcs).history()),
        provision_run(
            final(vcs).history(),
            old(vcs).history().len() as int,
            repo@,
            crate::text::texts(labels@),
        ) == Some((crate::vcs::outcome(result), final(vcs).history().len() as int)),
{
    let ghost entry = *vcs;
    let ghost start = vcs.history();
    let ghost wanted = crate::text::texts(labels@);
    let mut i: usize = 0;
    proof {
        crate::vcs::leads_nowhere(entry);
    }
    while i < labels.len()
        invariant
            i <= labels@.len(),
            start == old(vcs).history(),
            entry == *old(vcs),
            crate::vcs::leads(entry, *vcs),
            wanted == crate::text::texts(labels@),
            start.is_prefix_of(vcs.history()),
            vcs.history().len() == start.len() + i,
            forall|k: int|
                0 <= k < i ==> (#[trigger] wanted[k] == wanted[k] && vcs.history()[start.len() + k]
                    == (VcsCall::EnsureLabel { repo: repo@, label: wanted[k], result: Ok(()) })),
        decreases labels@.len() - i,
    {
        let ghost at = *vcs;
        let ghost before = vcs.history();
        let result = vcs.ensure_label(repo, labels[i].as_str());
        proof {
            crate::vcs::leads_on(entry, at, *vcs);
            assert(wanted[i as int] == labels@[i as int]@);
            assert(vcs.history().subrange(0, start.len() as int) =~= before.subrange(
                0,
                start.len() as int,
            ));
            assert forall|k: int| 0 <= k < i implies (#[trigger] wanted[k] == wanted[k]
                && vcs.history()[start.len() + k] == (VcsCall::EnsureLabel {
                repo: repo@,
                label: wanted[k],
                result: Ok(()),
            })) by {
                assert(before[start.len() + k] == vcs.history()[start.len() + k]);
            }
        }
        if let Err(error) = result {
            proof {
                provision_run_steps(
                    vcs.history(),
                    start.len() as int,
                    repo@,
                    wanted,
                    i as int,
                );
                assert(wanted.skip(i as int)[0] == wanted[i as int]);
            }
            return Err(error);
        }
        assert(vcs.history()[start.len() + i] == (VcsCall::EnsureLabel {
            repo: repo@,
            label: wanted[i as int],
            result: Ok(()),
        }));
        i += 1;
    }
    proof {
        provision_run_steps(vcs.history(), start.len() as int, repo@, wanted, i as int);
    }
    Ok(())
}

/// Probing a repo only asks: whatever comes of it, nothing has changed.
pub proof fn probing_changes_nothing(
    calls: Seq<VcsCall>,
    from: int,
    given_repo: Option<Seq<char>>,
    given_dir: Option<Seq<char>>,
    repo_dir: Seq<char>,
)
    requires
        0 <= from,
        probe_run(calls, from, given_repo, given_dir, repo_dir) is Some,
    ensures
        crate::vcs::all_read(
            calls,
            from,
            (probe_run(calls, from, given_repo, given_dir, repo_dir)->0).1,
        ),
{
}

/// The checkout that a config records is the checkout that it was made for.
pub proof fn recorded_checkout_is_the_checkout(
    probe: ProbeView,
    repo_dir: Seq<char>,
    checkout: Seq<char>,
    container: Seq<char>,
    existing: Option<ProjectConfigView>,
)
    requires
        located(probe, repo_dir, Ok(checkout), Ok(container)) is Ok,
    ensures
        crate::paths::same_path(
            project_config_of(
                probe,
                located(probe, repo_dir, Ok(checkout), Ok(container))->Ok_0,
                existing,
            ).local_path,
            checkout,
        ),
{
}

/// Settling a config again, on the config that it settled before, changes
/// nothing.
pub proof fn settling_twice_is_once(
    probe: ProbeView,
    place: LocatedView,
    existing: Option<ProjectConfigView>,
)
    ensures
        project_config_of(probe, place, Some(project_config_of(probe, place, existing)))
            == project_config_of(probe, place, existing),
{
}

/// What an operator added to a project's config by hand is still there after
/// `init` is run again, whatever `git` and `gh` say by then.
pub proof fn overrides_are_carried_forward(
    probe: ProbeView,
    place: LocatedView,
    existing: ProjectConfigView,
)
    ensures
        project_config_of(probe, place, Some(existing)).gh == existing.gh,
        project_config_of(probe, place, Some(existing)).harness == existing.harness,
        project_config_of(probe, place, Some(existing)).weight == existing.weight,
{
}

/// What is left to do once a project is located and both config files have been
/// read: what to write where, in this order.
#[derive(Debug)]
pub struct InitPlan {
    /// Where the project's config is written.
    pub project_path: String,
    /// The project's config.
    pub config: ProjectConfig,
    /// The global config to write with the project registered, and the
    /// directory that the project's name stood for before, where that was
    /// another one; or why there is none to write.
    pub global: Result<(GlobalConfig, Option<String>), ConfigError>,
    /// The directory to create for the instruction files.
    pub instructions_dir: String,
    /// The files to create, each unless it exists.
    pub files: Vec<ScaffoldFile>,
    /// Where the workflow is read back from.
    pub workflow_path: String,
}

/// Whether `found` is the global config that a project is to be registered in,
/// given the outcome of reading it.
pub open spec fn is_found(
    global: Result<GlobalConfig, ConfigError>,
    assistant: Seq<char>,
    found: GlobalConfig,
) -> bool {
    match global {
        Ok(existing) => found == existing,
        Err(cause) => crate::config::is_absent(cause@) && is_default_global(found, assistant),
    }
}

/// Whether `written` is `found` with a project registered.
pub open spec fn is_joined(
    found: GlobalConfig,
    written: GlobalConfig,
    row: ProjectPointerView,
) -> bool {
    &&& exists|outcome: AddOutcome| #[trigger]
        crate::registry::is_registered(
            crate::registry::pointers(found.projects@),
            crate::registry::pointers(written.projects@),
            row,
            outcome,
        )
    &&& written == (GlobalConfig { projects: written.projects, ..found })
}

/// Whether `plan` is what is left to do for a located project, given the
/// outcomes of reading its config file and the global one.
pub open spec fn is_plan(
    probe: ProbeView,
    place: LocatedView,
    repo_dir: Seq<char>,
    loaded: Result<ProjectConfigView, ConfigErrorView>,
    global: Result<GlobalConfig, ConfigError>,
    assistant: Seq<char>,
    plan: InitPlan,
) -> bool {
    &&& settled_config(probe, place, loaded) == Ok::<ProjectConfigView, InitErrorView>(plan.config@)
    &&& plan.project_path@ == crate::paths::joined(place.project_dir, "config.yaml"@)
    &&& match plan.global {
        Ok((written, previous)) => exists|found: GlobalConfig|
            {
                &&& #[trigger] is_found(global, assistant, found)
                &&& is_joined(found, written, row_of(plan.config@))
                &&& repointed_from(
                    crate::registry::pointers(found.projects@),
                    place.name,
                    place.project_dir,
                    crate::text::text_view(previous),
                )
            },
        Err(error) => global matches Err(cause) && !crate::config::is_absent(cause@) && error@
            == cause@,
    }
    &&& plan.instructions_dir@ == crate::scaffold::instructions_dir_of(repo_dir)
    &&& crate::scaffold::files_view(plan.files@) == crate::scaffold::files_of(repo_dir)
    &&& plan.workflow_path@ == crate::scaffold::workflow_path_of(repo_dir)
}

/// Plans the writes of `init` for a located project, given the outcomes of
/// reading its config file and the global one.
///
/// A project config that cannot be read is an error before anything is written.
/// A global config that cannot be read is one only after the project's config
/// is written.
pub fn plan_init(
    probe: Probe,
    place: Located,
    repo_dir: &str,
    loaded: Result<ProjectConfig, ConfigError>,
    global: Result<GlobalConfig, ConfigError>,
    assistant: &str,
) -> (plan: Result<InitPlan, InitError>)
    ensures
        match plan {
            Err(error) => settled_config(probe@, place@, loaded_view(loaded)) == Err::<
                ProjectConfigView,
                InitErrorView,
            >(error@),
            Ok(plan) => is_plan(
                probe@,
                place@,
                repo_dir@,
                loaded_view(loaded),
                global,
                assistant@,
                plan,
            ),
        },
{
    let project_path = project_config_path(place.project_dir.as_str());
    let config = match resolve_project_config(probe, place, loaded) {
        Ok(config) => config,
        Err(error) => return Err(error),
    };
    let ghost read = global;
    let global = match load_or_default_global_config(global, assistant) {
        Ok(found) => {
            let ghost start = found;
            let mut written = found;
            let previous = register_project(&mut written, &config);
            proof {
                assert(is_found(read, assistant@, start));
                assert(is_joined(start, written, row_of(config@)));
            }
            Ok((written, previous))
        },
        Err(error) => Err(error),
    };
    Ok(
        InitPlan {
            project_path,
            config,
            global,
            instructions_dir: instructions_dir(repo_dir),
            files: scaffold_files(repo_dir),
            workflow_path: workflow_path(repo_dir),
        },
    )
}

/// The registry row of a project.
pub open spec fn row_of(config: ProjectConfigView) -> ProjectPointerView {
    ProjectPointerView { name: config.name, project_dir: config.project_dir }
}

/// A probe that succeeds has asked, of the checkout and its repo, whether the
/// machine is ready, what the default branch is, and whether that branch has the
/// native merge queue; and it reports what came back.
pub proof fn probe_reports_what_was_asked(
    calls: Seq<VcsCall>,
    from: int,
    repo: Seq<char>,
    given_dir: Option<Seq<char>>,
    repo_dir: Seq<char>,
    probe: ProbeView,
    end: int,
)
    requires
        0 <= from,
        probe_run(calls, from, Some(repo), given_dir, repo_dir) == Some(
            (Ok::<ProbeView, InitErrorView>(probe), end),
        ),
    ensures
        end == from + 5 <= calls.len(),
        crate::vcs::ready_run(calls, from, repo) == Some((Ok::<(), VcsErrorView>(()), from + 3)),
        calls[from + 3] == (VcsCall::DetectDefaultBranch {
            repo_dir,
            result: Ok(probe.default_branch),
        }),
        calls[from + 4] matches VcsCall::MergeQueueEnabled { repo: asked, default_branch, result }
            && asked == repo && default_branch == probe.default_branch && (result matches Ok(enabled)
            && (enabled <==> probe.merge_mode is Native)),
        probe.repo == repo,
        given_dir is Some ==> probe.project_dir == given_dir->0,
        given_dir is None ==> crate::paths::parent_of(repo_dir) == Some(probe.project_dir),
{
}

/// A slug that was not given is asked for first, and the rest is the same as
/// with a slug that was given.
pub proof fn a_slug_is_detected_first(
    calls: Seq<VcsCall>,
    from: int,
    given_dir: Option<Seq<char>>,
    repo_dir: Seq<char>,
    repo: Seq<char>,
    error: VcsErrorView,
)
    requires
        0 <= from < calls.len(),
    ensures
        calls[from] == (VcsCall::DetectRepoSlug { repo_dir, result: Ok(repo) }) ==> probe_run(
            calls,
            from,
            None,
            given_dir,
            repo_dir,
        ) == probe_run(calls, from + 1, Some(repo), given_dir, repo_dir),
        calls[from] == (VcsCall::DetectRepoSlug { repo_dir, result: Err(error) }) ==> probe_run(
            calls,
            from,
            None,
            given_dir,
            repo_dir,
        ) == Some((Err::<ProbeView, InitErrorView>(InitErrorView::Vcs(error)), from + 1)),
        probe_run(calls, from, None, given_dir, repo_dir) is Some ==> (
        calls[from] matches VcsCall::DetectRepoSlug { repo_dir: asked, .. } && asked == repo_dir),
{
}

/// A project stands where its checkout is its directory's entry named after the
/// default branch, and has its directory's name. A checkout elsewhere is
/// refused.
pub proof fn projects_are_located_by_their_layout(
    probe: ProbeView,
    repo_dir: Seq<char>,
    above: Seq<char>,
    name: Seq<char>,
    elsewhere: Seq<char>,
)
    requires
        above.len() > 0,
        above.last() != '/',
        crate::paths::is_plain_name(name),
        name != ".."@,
        crate::paths::is_plain_name(probe.default_branch),
    ensures
        ({
            let container = above + "/"@ + name;
            let checkout = container + "/"@ + probe.default_branch;
            &&& located(probe, repo_dir, Ok(checkout), Ok(container)) == Ok::<
                LocatedView,
                InitErrorView,
            >(LocatedView { name, project_dir: container })
            &&& !crate::paths::same_path(checkout, elsewhere) ==> located(
                probe,
                repo_dir,
                Ok(elsewhere),
                Ok(container),
            ) == Err::<LocatedView, InitErrorView>(
                InitErrorView::CheckoutNotSiblingOfDefaultBranch {
                    repo_dir,
                    project_dir: container,
                    default_branch: probe.default_branch,
                },
            )
        }),
{
    reveal_strlit("/");
    let container = above + "/"@ + name;
    assert(name.contains(name[0]));
    assert(name.contains(name.last()));
    crate::paths::what_is_joined_is_below(above, name, Seq::empty());
    assert(container.last() == name.last());
    crate::paths::what_is_joined_is_below(container, probe.default_branch, Seq::empty());
}

/// A path that does not resolve is told as it was given, the checkout first.
pub proof fn unresolved_paths_are_told(
    probe: ProbeView,
    repo_dir: Seq<char>,
    checkout: Result<Seq<char>, IoErrorView>,
    container: Result<Seq<char>, IoErrorView>,
    source: IoErrorView,
)
    ensures
        located(probe, repo_dir, Err(source), container) == Err::<LocatedView, InitErrorView>(
            InitErrorView::UnresolvablePath { path: repo_dir, source },
        ),
        checkout is Ok ==> located(probe, repo_dir, checkout, Err(source)) == Err::<
            LocatedView,
            InitErrorView,
        >(InitErrorView::UnresolvablePath { path: probe.project_dir, source }),
{
}

/// A project's config records what was probed and where the project stands: its
/// checkout and its index are entries of its directory, and its memory scope is
/// the slug with every `/` made a `-`.
pub proof fn config_records_probe_and_place(
    probe: ProbeView,
    place: LocatedView,
    existing: Option<ProjectConfigView>,
    i: int,
)
    requires
        place.project_dir.len() > 0,
        place.project_dir.last() != '/',
        probe.default_branch.len() > 0,
        probe.default_branch[0] != '/',
    ensures
        ({
            let config = project_config_of(probe, place, existing);
            &&& config.name == place.name
            &&& config.repo == probe.repo
            &&& config.project_dir == place.project_dir
            &&& config.default_branch == probe.default_branch
            &&& config.merge_mode == probe.merge_mode
            &&& config.local_path == place.project_dir + "/"@ + probe.default_branch
            &&& config.index_path == place.project_dir + "/index"@
            &&& config.memory_scope.len() == probe.repo.len()
            &&& 0 <= i < probe.repo.len() ==> config.memory_scope[i] == if probe.repo[i] == '/' {
                '-'
            } else {
                probe.repo[i]
            }
            &&& existing is None ==> config.gh is None && config.harness is None && config.weight
                is None
        }),
{
    reveal_strlit("/");
    reveal_strlit("index");
    reveal_strlit("/index");
    let config = project_config_of(probe, place, existing);
    assert(config.index_path =~= place.project_dir + "/index"@);
}

/// A fresh global config listens on this machine alone; a claim outlives twelve
/// of its heartbeats, and a phase less than a claim; and the default harness is
/// one of those that it ships.
pub proof fn fresh_config_is_local_and_consistent(config: GlobalConfig, assistant: Seq<char>)
    requires
        is_default_global(config, assistant),
    ensures
        crate::config::is_loopback_addr(config.listen),
        config.listen matches ListenAddr::V4 { octets, port } && octets@ == seq![127u8, 0, 0, 1]
            && port == 7420,
        config.claim.heartbeat_ttl.total_nanos() == 12
            * config.claim.heartbeat_interval.total_nanos(),
        config.claim.heartbeat_interval.total_nanos() == 300 * 1_000_000_000,
        4 * config.phase_timeout.total_nanos() == 3 * config.claim.heartbeat_ttl.total_nanos(),
        config.limits.max_concurrent_agents == 3,
        config.cross_project_mode is FairShare,
        config.instance_id is None,
        config.projects@.len() == 0,
        commands_of(config.harnesses.harnesses@).contains_key(config.harnesses.default@),
        config.binaries.git@ == "git"@ && config.binaries.gh@ == "gh"@,
{
}

/// The shipped harnesses are run as their programs are: each hands the whole
/// prompt over as its last argument.
pub proof fn shipped_harnesses_pass_the_prompt(
    assistant: Seq<char>,
    prompt: Seq<char>,
    token: Seq<char>,
    worktree: Seq<char>,
    name: Seq<char>,
)
    requires
        assistant != "codex"@,
        assistant != "opencode"@,
    ensures
        shipped_commands(assistant).contains_key(name) <==> name == assistant || name == "codex"@
            || name == "opencode"@,
        shipped_commands(assistant)[assistant] == seq![assistant, "-p"@, "{prompt}"@],
        shipped_commands(assistant)["codex"@] == seq!["codex"@, "exec"@, "{prompt}"@],
        shipped_commands(assistant)["opencode"@] == seq!["opencode"@, "run"@, "{prompt}"@],
        shipped_commands(assistant).contains_key(name)
            ==> crate::spawner::template::spawn_argv(
            shipped_commands(assistant)[name],
            prompt,
            token,
            worktree,
        ).last() == prompt,
{
    reveal_strlit("codex");
    reveal_strlit("opencode");
    assert("codex"@.len() != "opencode"@.len());
    let values = crate::spawner::template::spawn_values(prompt, token, worktree);
    crate::spawner::template::prompt_is_passed_on_whole(prompt, token, worktree, Seq::empty());
    assert("{prompt}"@ + Seq::<char>::empty() =~= "{prompt}"@);
    assert(prompt + crate::spawner::template::substituted(Seq::empty(), values) =~= prompt);
}

/// Labels that were all provisioned were each made sure of in the repo, once and
/// in order; the first that fails ends it with its error.
pub proof fn labels_are_provisioned_in_order(
    calls: Seq<VcsCall>,
    from: int,
    repo: Seq<char>,
    labels: Seq<Seq<char>>,
    result: Result<(), VcsErrorView>,
    end: int,
)
    requires
        0 <= from <= calls.len(),
        provision_run(calls, from, repo, labels) == Some((result, end)),
    ensures
        from <= end <= calls.len(),
        end - from <= labels.len(),
        forall|k: int|
            from <= k < end ==> ((#[trigger] calls[k]) matches VcsCall::EnsureLabel {
                repo: asked,
                label,
                result: answer,
            } && asked == repo && label == labels[k - from] && (answer is Ok || (k == end - 1
                && answer == result))),
        result is Ok ==> end - from == labels.len(),
        result is Err ==> end > from && (calls[end - 1] matches VcsCall::EnsureLabel {
            result: answer,
            ..
        } && answer == result),
    decreases labels.len(),
{
    if labels.len() > 0 {
        let rest = labels.skip(1);
        if let VcsCall::EnsureLabel { repo: asked, label, result: Ok(_) } = calls[from] {
            labels_are_provisioned_in_order(calls, from + 1, repo, rest, result, end);
            assert forall|k: int| from < k < end implies rest[k - (from + 1)]
                == #[trigger] labels[k - from] by {}
        }
    }
}

} // verus!
