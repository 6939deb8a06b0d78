//! Carrying out what `init` planned.
//!
//! The caller does the reading and writing. [`next_step`] says what is due next
//! from what came of the steps before, which an [`InitProgress`] records, and
//! [`settle_init`] says what the run comes to.

use vstd::prelude::*;

use crate::config::{
    ConfigError, ConfigErrorView, GlobalConfig, ProjectConfigView, ProjectPointerView,
};
use crate::failure::{IoError, IoErrorView};
use crate::init::{InitError, InitErrorView, InitPlan, LocatedView, ProbeView};
use crate::registry::AddOutcome;
use crate::scaffold::{
    file_step, settle_files, FileAttempt, FileAttemptView, FileStep, ScaffoldError,
    ScaffoldErrorView, ScaffoldFileView,
};
use crate::vcs::{VcsError, VcsErrorView};

verus! {

/// Why a workflow file could not be taken in.
#[derive(Debug)]
pub enum WorkflowFailure {
    /// It could not be read.
    Unreadable(IoError),
    /// It does not parse; the parser's own description.
    Malformed(String),
}

/// The contents of a [`WorkflowFailure`].
pub enum WorkflowFailureView {
    Unreadable(IoErrorView),
    Malformed(Seq<char>),
}

impl View for WorkflowFailure {
    type V = WorkflowFailureView;

    open spec fn view(&self) -> WorkflowFailureView {
        match *self {
            WorkflowFailure::Unreadable(source) => WorkflowFailureView::Unreadable(source@),
            WorkflowFailure::Malformed(message) => WorkflowFailureView::Malformed(message@),
        }
    }
}

/// What came of the steps of `init` so far; `None` for one that was not tried.
#[derive(Debug)]
pub struct InitProgress {
    /// Writing the project's config.
    pub project: Option<Result<(), ConfigError>>,
    /// Writing the global config.
    pub global: Option<Result<(), ConfigError>>,
    /// Creating the directory of the instruction files.
    pub directory: Option<Result<(), IoError>>,
    /// Creating the files, as far as that was tried.
    pub files: Vec<FileAttempt>,
    /// Reading the workflow back: the labels that it needs.
    pub workflow: Option<Result<Vec<String>, WorkflowFailure>>,
    /// Creating those labels.
    pub labels: Option<Result<(), VcsError>>,
}

/// The contents of an [`InitProgress`].
pub struct InitProgressView {
    pub project: Option<Result<(), ConfigErrorView>>,
    pub global: Option<Result<(), ConfigErrorView>>,
    pub directory: Option<Result<(), IoErrorView>>,
    pub files: Seq<FileAttemptView>,
    pub workflow: Option<Result<Seq<Seq<char>>, WorkflowFailureView>>,
    pub labels: Option<Result<(), VcsErrorView>>,
}

/// The contents of what came of a write, if it was tried.
pub open spec fn saved(outcome: Option<Result<(), ConfigError>>) -> Option<
    Result<(), ConfigErrorView>,
> {
    match outcome {
        None => None,
        Some(Ok(_)) => Some(Ok(())),
        Some(Err(error)) => Some(Err(error@)),
    }
}

impl View for InitProgress {
    type V = InitProgressView;

    open spec fn view(&self) -> InitProgressView {
        InitProgressView {
            project: saved(self.project),
            global: saved(self.global),
            directory: match self.directory {
                None => None,
                Some(outcome) => Some(crate::scaffold::attempt_view(outcome)),
            },
            files: crate::scaffold::attempts_view(self.files@),
            workflow: match self.workflow {
                None => None,
                Some(Ok(labels)) => Some(Ok(crate::text::texts(labels@))),
                Some(Err(failure)) => Some(Err(failure@)),
            },
            labels: match self.labels {
                None => None,
                Some(outcome) => Some(crate::vcs::outcome(outcome)),
            },
        }
    }
}

impl InitProgress {
    /// Nothing has been tried.
    pub fn new() -> (progress: InitProgress)
        ensures
            progress@ == (InitProgressView {
                project: None,
                global: None,
                directory: None,
                files: Seq::empty(),
                workflow: None,
                labels: None,
            }),
    {
        let progress = InitProgress {
            project: None,
            global: None,
            directory: None,
            files: Vec::new(),
            workflow: None,
            labels: None,
        };
        assert(progress@.files =~= Seq::empty());
        progress
    }
}

/// What `init` has to do next.
#[derive(Clone, Copy, Debug, Eq, PartialEq, Structural)]
pub enum InitStep {
    /// Write the project's config.
    SaveProject,
    /// Write the global config.
    SaveGlobal,
    /// Create the directory of the instruction files.
    CreateDirectory,
    /// Create the file at this position as a new one.
    CreateFile(usize),
    /// Write the contents of the file at this position, which is new.
    WriteFile(usize),
    /// Read the workflow back.
    ReadWorkflow,
    /// Create the labels that the workflow needs.
    CreateLabels,
    /// Nothing: a step failed, or every one is done.
    Finish,
}

/// Why a plan has no global config to write.
pub open spec fn unreadable_global(plan: InitPlan) -> Option<ConfigErrorView> {
    match plan.global {
        Ok(_) => None,
        Err(error) => Some(error@),
    }
}

/// What is due next, from what came of the steps before: each step once the one
/// before it succeeded. `unreadable` is why there is no global config to write,
/// which is found out after the project's config is written.
pub open spec fn step_due(
    unreadable: Option<ConfigErrorView>,
    files: Seq<ScaffoldFileView>,
    progress: InitProgressView,
) -> InitStep {
    match progress.project {
        None => InitStep::SaveProject,
        Some(Err(_)) => InitStep::Finish,
        Some(Ok(_)) => if unreadable is Some {
            InitStep::Finish
        } else {
            match progress.global {
                None => InitStep::SaveGlobal,
                Some(Err(_)) => InitStep::Finish,
                Some(Ok(_)) => match progress.directory {
                    None => InitStep::CreateDirectory,
                    Some(Err(_)) => InitStep::Finish,
                    Some(Ok(_)) => match crate::scaffold::next_file_step(
                        files,
                        progress.files,
                        0,
                    ) {
                        FileStep::Create(at) => InitStep::CreateFile(at),
                        FileStep::Write(at) => InitStep::WriteFile(at),
                        FileStep::Failed => InitStep::Finish,
                        FileStep::Complete => match progress.workflow {
                            None => InitStep::ReadWorkflow,
                            Some(Err(_)) => InitStep::Finish,
                            Some(Ok(_)) => match progress.labels {
                                None => InitStep::CreateLabels,
                                Some(_) => InitStep::Finish,
                            },
                        },
                    },
                },
            }
        },
    }
}

/// What carrying out a plan comes to so far: the error of the first step that
/// failed, if one did.
pub open spec fn carried_out(
    unreadable: Option<ConfigErrorView>,
    repo_dir: Seq<char>,
    progress: InitProgressView,
) -> Result<(), InitErrorView> {
    let files = crate::scaffold::files_of(repo_dir);
    match progress.project {
        None => Ok(()),
        Some(Err(error)) => Err(InitErrorView::Config(error)),
        Some(Ok(_)) => match unreadable {
            Some(error) => Err(InitErrorView::Config(error)),
            None => match progress.global {
                None => Ok(()),
                Some(Err(error)) => Err(InitErrorView::Config(error)),
                Some(Ok(_)) => match progress.directory {
                    None => Ok(()),
                    Some(Err(source)) => Err(
                        InitErrorView::Scaffold(
                            ScaffoldErrorView::Write {
                                path: crate::scaffold::instructions_dir_of(repo_dir),
                                source,
                            },
                        ),
                    ),
                    Some(Ok(_)) => match crate::scaffold::settled_files(files, progress.files, 0) {
                        Err(error) => Err(InitErrorView::Scaffold(error)),
                        Ok(_) => if !(crate::scaffold::next_file_step(files, progress.files, 0)
                            is Complete) {
                            Ok(())
                        } else {
                            labelled(crate::scaffold::workflow_path_of(repo_dir), progress)
                        },
                    },
                },
            },
        },
    }
}

/// What reading the workflow back and creating its labels comes to so far.
pub open spec fn labelled(workflow_path: Seq<char>, progress: InitProgressView) -> Result<
    (),
    InitErrorView,
> {
    match progress.workflow {
        None => Ok(()),
        Some(Err(WorkflowFailureView::Unreadable(source))) => Err(
            InitErrorView::ReadWorkflow { path: workflow_path, source },
        ),
        Some(Err(WorkflowFailureView::Malformed(message))) => Err(
            InitErrorView::Workflow { path: workflow_path, message },
        ),
        Some(Ok(_)) => match progress.labels {
            Some(Err(error)) => Err(InitErrorView::Vcs(error)),
            _ => Ok(()),
        },
    }
}

/// Says what `init` has to do next.
pub fn next_step(plan: &InitPlan, progress: &InitProgress) -> (step: InitStep)
    ensures
        step == step_due(
            unreadable_global(*plan),
            crate::scaffold::files_view(plan.files@),
            progress@,
        ),
{
    match &progress.project {
        None => return InitStep::SaveProject,
        Some(Err(_)) => return InitStep::Finish,
        Some(Ok(_)) => {},
    }
    if plan.global.is_err() {
        return InitStep::Finish;
    }
    match &progress.global {
        None => return InitStep::SaveGlobal,
        Some(Err(_)) => return InitStep::Finish,
        Some(Ok(_)) => {},
    }
    match &progress.directory {
        None => return InitStep::CreateDirectory,
        Some(Err(_)) => return InitStep::Finish,
        Some(Ok(_)) => {},
    }
    match file_step(&plan.files, &progress.files) {
        FileStep::Create(at) => return InitStep::CreateFile(at),
        FileStep::Write(at) => return InitStep::WriteFile(at),
        FileStep::Failed => return InitStep::Finish,
        FileStep::Complete => {},
    }
    match &progress.workflow {
        None => InitStep::ReadWorkflow,
        Some(Err(_)) => InitStep::Finish,
        Some(Ok(_)) => match &progress.labels {
            None => InitStep::CreateLabels,
            Some(_) => InitStep::Finish,
        },
    }
}

/// What a run of `init` comes to, given what each of its steps was answered:
/// the first error, if there is one. `loaded` and `global` are the outcomes of
/// reading the two config files, and `progress` is what came of carrying out
/// the plan.
pub open spec fn init_result(
    probe: Result<ProbeView, InitErrorView>,
    repo_dir: Seq<char>,
    checkout: Result<Seq<char>, IoErrorView>,
    container: Result<Seq<char>, IoErrorView>,
    loaded: Result<ProjectConfigView, ConfigErrorView>,
    global: Result<GlobalConfig, ConfigError>,
    progress: InitProgressView,
) -> Result<(), InitErrorView> {
    match probe {
        Err(error) => Err(error),
        Ok(probe) => match crate::init::located(probe, repo_dir, checkout, container) {
            Err(error) => Err(error),
            Ok(place) => match crate::init::settled_config(probe, place, loaded) {
                Err(error) => Err(error),
                Ok(_) => carried_out(
                    match global {
                        Err(cause) if !crate::config::is_absent(cause@) => Some(cause@),
                        _ => None,
                    },
                    repo_dir,
                    progress,
                ),
            },
        },
    }
}

/// Whether `plan` is one for the repo at `repo_dir`.
pub open spec fn is_plan_for(plan: InitPlan, repo_dir: Seq<char>) -> bool {
    &&& plan.instructions_dir@ == crate::scaffold::instructions_dir_of(repo_dir)
    &&& crate::scaffold::files_view(plan.files@) == crate::scaffold::files_of(repo_dir)
    &&& plan.workflow_path@ == crate::scaffold::workflow_path_of(repo_dir)
}

/// Settles a run of `init`: the error of the first step that failed, if one
/// did.
pub fn settle_init(plan: InitPlan, progress: InitProgress) -> (result: Result<(), InitError>)
    ensures
        forall|repo_dir: Seq<char>| #[trigger]
            is_plan_for(plan, repo_dir) ==> crate::init::init_outcome(result) == carried_out(
                unreadable_global(plan),
                repo_dir,
                progress@,
            ),
        forall|
            probe: ProbeView,
            place: LocatedView,
            repo_dir: Seq<char>,
            checkout: Seq<char>,
            container: Seq<char>,
            loaded: Result<ProjectConfigView, ConfigErrorView>,
            global: Result<GlobalConfig, ConfigError>,
            assistant: Seq<char>,
        |
            #![trigger
                crate::init::located(probe, repo_dir, Ok(checkout), Ok(container)),
                crate::init::is_plan(probe, place, repo_dir, loaded, global, assistant, plan)
            ]
            crate::init::located(probe, repo_dir, Ok(checkout), Ok(container)) == Ok::<
                LocatedView,
                InitErrorView,
            >(place) && crate::init::is_plan(
                probe,
                place,
                repo_dir,
                loaded,
                global,
                assistant,
                plan,
            ) ==> crate::init::init_outcome(result) == init_result(
                Ok(probe),
                repo_dir,
                Ok(checkout),
                Ok(container),
                loaded,
                global,
                progress@,
            ),
{
    let InitPlan { global, instructions_dir, files, workflow_path, .. } = plan;
    let InitProgress {
        project: project_saved,
        global: global_saved,
        directory,
        files: attempts,
        workflow,
        labels,
    } = progress;
    match project_saved {
        None => return Ok(()),
        Some(Err(error)) => return Err(InitError::Config(error)),
        Some(Ok(_)) => {},
    }
    if let Err(error) = global {
        return Err(InitError::Config(error));
    }
    match global_saved {
        None => return Ok(()),
        Some(Err(error)) => return Err(InitError::Config(error)),
        Some(Ok(_)) => {},
    }
    match directory {
        None => return Ok(()),
        Some(Err(source)) => return Err(
            InitError::Scaffold(ScaffoldError::Write { path: instructions_dir, source }),
        ),
        Some(Ok(_)) => {},
    }
    let complete = match file_step(&files, &attempts) {
        FileStep::Complete => true,
        _ => false,
    };
    if let Err(error) = settle_files(&files, attempts) {
        return Err(InitError::Scaffold(error));
    }
    if !complete {
        return Ok(());
    }
    match workflow {
        None => Ok(()),
        Some(Err(WorkflowFailure::Unreadable(source))) => Err(
            InitError::ReadWorkflow { path: workflow_path, source },
        ),
        Some(Err(WorkflowFailure::Malformed(message))) => Err(
            InitError::Workflow { path: workflow_path, message },
        ),
        Some(Ok(_)) => match labels {
            Some(Err(error)) => Err(InitError::Vcs(error)),
            _ => Ok(()),
        },
    }
}

/// Whether every step of `init` succeeded.
pub open spec fn is_done(
    unreadable: Option<ConfigErrorView>,
    files: Seq<ScaffoldFileView>,
    progress: InitProgressView,
) -> bool {
    &&& progress.project matches Some(Ok(_))
    &&& unreadable is None
    &&& progress.global matches Some(Ok(_))
    &&& progress.directory matches Some(Ok(_))
    &&& crate::scaffold::are_settled(files, progress.files)
    &&& progress.workflow matches Some(Ok(_))
    &&& progress.labels matches Some(Ok(_))
}

/// `init` takes no step after one that failed, and reports success only where
/// every step succeeded: it is at its end exactly where it has an error to
/// report or all is done.
pub proof fn init_ends_at_its_first_failure(
    unreadable: Option<ConfigErrorView>,
    repo_dir: Seq<char>,
    progress: InitProgressView,
)
    ensures
        step_due(unreadable, crate::scaffold::files_of(repo_dir), progress) is Finish <==> (
        carried_out(unreadable, repo_dir, progress) is Err || is_done(
            unreadable,
            crate::scaffold::files_of(repo_dir),
            progress,
        )),
        is_done(unreadable, crate::scaffold::files_of(repo_dir), progress) ==> carried_out(
            unreadable,
            repo_dir,
            progress,
        ) is Ok,
{
    crate::scaffold::creating_files_stops_at_a_failure(
        crate::scaffold::files_of(repo_dir),
        progress.files,
    );
}

/// What `init` finds on a machine, and what it leaves there.
#[verifier::ext_equal]
pub struct Installation {
    /// The project's config file, if there is one.
    pub project: Option<ProjectConfigView>,
    /// The registry of the global config; empty where there is no such file.
    pub registry: Seq<ProjectPointerView>,
    /// The contents of the repo's files, by path.
    pub files: Map<Seq<char>, Seq<char>>,
}

/// Whether a run of `init` for a located project leaves `after` where it found
/// `before`: the settled config is written, the project registered, and every
/// scaffolding file created that was missing.
pub open spec fn is_installed(
    probe: ProbeView,
    place: LocatedView,
    repo_dir: Seq<char>,
    before: Installation,
    after: Installation,
) -> bool {
    let config = crate::init::project_config_of(probe, place, before.project);
    &&& after.project == Some(config)
    &&& exists|outcome: AddOutcome| #[trigger]
        crate::registry::is_registered(before.registry, after.registry, crate::init::row_of(config), outcome)
    &&& after.files == crate::scaffold::scaffolded(
        before.files,
        crate::scaffold::files_of(repo_dir),
    )
}

/// Whether what reading the two config files gave is what an installation holds.
pub open spec fn is_read_from(
    installation: Installation,
    loaded: Result<ProjectConfigView, ConfigErrorView>,
    global: Result<GlobalConfig, ConfigError>,
) -> bool {
    &&& installation.project == match loaded {
        Ok(config) => Some(config),
        Err(_) => None,
    }
    &&& installation.registry == match global {
        Ok(global) => crate::registry::pointers(global.projects@),
        Err(_) => Seq::empty(),
    }
}

/// Whether every write of a plan has been carried out.
pub open spec fn is_carried_out(plan: InitPlan, before: Installation, after: Installation) -> bool {
    &&& after.project == Some(plan.config@)
    &&& plan.global matches Ok((written, _)) && after.registry == crate::registry::pointers(
        written.projects@,
    )
    &&& after.files == crate::scaffold::scaffolded(
        before.files,
        crate::scaffold::files_view(plan.files@),
    )
}

/// Carrying out what [`plan_init`] plans is a run of `init`.
pub proof fn plan_installs(
    probe: ProbeView,
    place: LocatedView,
    repo_dir: Seq<char>,
    loaded: Result<ProjectConfigView, ConfigErrorView>,
    global: Result<GlobalConfig, ConfigError>,
    assistant: Seq<char>,
    plan: InitPlan,
    before: Installation,
    after: Installation,
)
    requires
        crate::init::is_plan(probe, place, repo_dir, loaded, global, assistant, plan),
        is_read_from(before, loaded, global),
        is_carried_out(plan, before, after),
    ensures
        is_installed(probe, place, repo_dir, before, after),
{
    let written = (plan.global->Ok_0).0;
    let found = choose|found: GlobalConfig|
        {
            &&& #[trigger] crate::init::is_found(global, assistant, found)
            &&& crate::init::is_joined(found, written, crate::init::row_of(plan.config@))
        };
    assert(crate::registry::pointers(found.projects@) =~= before.registry);
}

/// Whether an operator has edited no more than is theirs to edit: what the
/// project's config holds beyond what detection says, and what stands in the
/// files of the repo.
pub open spec fn is_edited(before: Installation, after: Installation) -> bool {
    &&& before.project is Some
    &&& after.project is Some
    &&& after.project->0 == (ProjectConfigView {
        gh: (after.project->0).gh,
        harness: (after.project->0).harness,
        weight: (after.project->0).weight,
        ..before.project->0
    })
    &&& after.registry == before.registry
    &&& before.files.dom().subset_of(after.files.dom())
}

/// Running `init` again changes nothing and succeeds.
///
/// After a run for a located project, and after whatever edits an operator made
/// to the project's config and to the files of the repo, a second run on the
/// same answers leaves everything as the operator left it: the config with its
/// edits, every file, and a registry with exactly one row of the project's
/// name, whose directory has not moved. It succeeds where both configs can be
/// written, the workflow still parses and the labels can be created. A registry
/// in which the project's own name stands twice before the first run, which
/// `init` never writes, is left out.
pub proof fn second_init_changes_nothing(
    probe: ProbeView,
    repo_dir: Seq<char>,
    checkout: Seq<char>,
    container: Seq<char>,
    before: Installation,
    first: Installation,
    edited: Installation,
    second: Installation,
    global: Result<GlobalConfig, ConfigError>,
    progress: InitProgressView,
)
    requires
        crate::init::located(probe, repo_dir, Ok(checkout), Ok(container)) is Ok,
        ({
            let place = crate::init::located(probe, repo_dir, Ok(checkout), Ok(container))->Ok_0;
            &&& crate::registry::is_named_once_at_most(before.registry, place.name)
            &&& is_installed(probe, place, repo_dir, before, first)
            &&& is_edited(first, edited)
            &&& is_installed(probe, place, repo_dir, edited, second)
        }),
        global matches Ok(found) && crate::registry::pointers(found.projects@) == edited.registry,
        progress.project matches Some(Ok(_)),
        progress.global matches Some(Ok(_)),
        progress.directory matches Some(Ok(_)),
        crate::scaffold::are_answers(
            edited.files,
            crate::scaffold::files_of(repo_dir),
            progress.files,
        ),
        progress.workflow matches Some(Ok(_)),
        progress.labels matches Some(Ok(_)),
    ensures
        second == edited,
        init_result(
            Ok(probe),
            repo_dir,
            Ok(checkout),
            Ok(container),
            Ok(edited.project->0),
            global,
            progress,
        ) == Ok::<(), InitErrorView>(()),
        step_due(None, crate::scaffold::files_of(repo_dir), progress) is Finish,
        ({
            let row = crate::init::row_of(edited.project->0);
            &&& exists|at: int| #[trigger]
                crate::registry::is_first_named(second.registry, row.name, at)
                    && second.registry[at] == row && forall|other: int|
                    0 <= other < second.registry.len() && other != at ==> (
                    #[trigger] second.registry[other]).name != row.name
            &&& crate::init::repointed_from(edited.registry, row.name, row.project_dir, None)
        }),
{
    let place = crate::init::located(probe, repo_dir, Ok(checkout), Ok(container))->Ok_0;
    let files = crate::scaffold::files_of(repo_dir);
    let row = crate::init::row_of(crate::init::project_config_of(probe, place, before.project));
    let one = choose|outcome: AddOutcome| #[trigger]
        crate::registry::is_registered(before.registry, first.registry, row, outcome);
    let two = choose|outcome: AddOutcome| #[trigger]
        crate::registry::is_registered(edited.registry, second.registry, row, outcome);
    crate::registry::registering_twice_is_once(
        before.registry,
        first.registry,
        second.registry,
        row,
        one,
        two,
    );
    crate::registry::registering_keeps_a_name_single(before.registry, first.registry, row, one);
    crate::registry::registered_is_found(before.registry, first.registry, row, one);
    let at = choose|at: int| #[trigger]
        crate::registry::is_first_named(first.registry, row.name, at) && first.registry[at] == row;
    assert forall|other: int| 0 <= other < first.registry.len() && other != at implies (
    #[trigger] first.registry[other]).name != row.name by {
        if other < at {
            assert(first.registry[other].name != first.registry[at].name);
        } else {
            assert(first.registry[at].name != first.registry[other].name);
        }
    }
    assert(crate::init::repointed_from(edited.registry, row.name, row.project_dir, None)) by {
        assert forall|other: int| #[trigger]
            crate::registry::is_first_named(edited.registry, row.name, other) implies other
            == at by {}
    }
    crate::scaffold::scaffolding_is_complete(before.files, files);
    crate::scaffold::scaffolding_keeps_what_exists(edited.files, files);
    crate::scaffold::nothing_missing_nothing_fails(edited.files, files, progress.files);
    assert(second.files =~= edited.files);
    assert(second =~= edited);
}

/// `init` takes its steps in one order: the project's config, the global config,
/// the directory, the files, the workflow, and the labels, each once all before
/// it succeeded.
pub proof fn init_takes_its_steps_in_order(
    unreadable: Option<ConfigErrorView>,
    files: Seq<ScaffoldFileView>,
    progress: InitProgressView,
)
    ensures
        ({
            let step = step_due(unreadable, files, progress);
            let configured = (progress.project matches Some(Ok(_))) && unreadable is None;
            let registered = configured && (progress.global matches Some(Ok(_)));
            let prepared = registered && (progress.directory matches Some(Ok(_)));
            let scaffolded = prepared && crate::scaffold::are_settled(files, progress.files);
            let read = scaffolded && (progress.workflow matches Some(Ok(_)));
            &&& step is SaveProject <==> progress.project is None
            &&& step is SaveGlobal <==> configured && progress.global is None
            &&& step is CreateDirectory <==> registered && progress.directory is None
            &&& step is CreateFile || step is WriteFile ==> prepared && !scaffolded
            &&& step is ReadWorkflow <==> scaffolded && progress.workflow is None
            &&& step is CreateLabels <==> read && progress.labels is None
            &&& prepared ==> match crate::scaffold::next_file_step(files, progress.files, 0) {
                FileStep::Create(at) => step == InitStep::CreateFile(at),
                FileStep::Write(at) => step == InitStep::WriteFile(at),
                FileStep::Failed => step == InitStep::Finish,
                FileStep::Complete => scaffolded,
            }
        }),
{
    crate::scaffold::creating_files_stops_at_a_failure(files, progress.files);
}

/// A run of `init` is answered with the error of the step that failed, and each
/// error says where: of the two config files, the directory, the files, the
/// workflow, or the labels.
pub proof fn the_failed_step_is_reported(
    unreadable: Option<ConfigErrorView>,
    repo_dir: Seq<char>,
    progress: InitProgressView,
    config: ConfigErrorView,
    source: IoErrorView,
    vcs: VcsErrorView,
    message: Seq<char>,
)
    requires
        repo_dir.len() > 0,
        repo_dir.last() != '/',
    ensures
        ({
            let result = carried_out(unreadable, repo_dir, progress);
            let files = crate::scaffold::files_of(repo_dir);
            let saved = progress.project matches Some(Ok(_));
            let registered = saved && unreadable is None && (progress.global matches Some(Ok(_)));
            let scaffolded = registered && (progress.directory matches Some(Ok(_)))
                && crate::scaffold::are_settled(files, progress.files);
            let read = scaffolded && (progress.workflow matches Some(Ok(_)));
            let path = repo_dir + "/.spec-flow/workflow.yaml"@;
            &&& progress.project == Some(Err::<(), ConfigErrorView>(config)) ==> result == Err::<
                (),
                InitErrorView,
            >(InitErrorView::Config(config))
            &&& saved && unreadable == Some(config) ==> result == Err::<(), InitErrorView>(
                InitErrorView::Config(config),
            )
            &&& saved && unreadable is None && progress.global == Some(
                Err::<(), ConfigErrorView>(config),
            ) ==> result == Err::<(), InitErrorView>(InitErrorView::Config(config))
            &&& registered && progress.directory == Some(Err::<(), IoErrorView>(source)) ==> result
                == Err::<(), InitErrorView>(
                InitErrorView::Scaffold(
                    ScaffoldErrorView::Write {
                        path: repo_dir + "/.spec-flow/instructions"@,
                        source,
                    },
                ),
            )
            &&& scaffolded && progress.workflow == Some(
                Err::<Seq<Seq<char>>, WorkflowFailureView>(WorkflowFailureView::Unreadable(source)),
            ) ==> result == Err::<(), InitErrorView>(InitErrorView::ReadWorkflow { path, source })
            &&& scaffolded && progress.workflow == Some(
                Err::<Seq<Seq<char>>, WorkflowFailureView>(WorkflowFailureView::Malformed(message)),
            ) ==> result == Err::<(), InitErrorView>(InitErrorView::Workflow { path, message })
            &&& read && progress.labels == Some(Err::<(), VcsErrorView>(vcs)) ==> result == Err::<
                (),
                InitErrorView,
            >(InitErrorView::Vcs(vcs))
        }),
{
    let files = crate::scaffold::files_of(repo_dir);
    crate::scaffold::creating_files_stops_at_a_failure(files, progress.files);
    reveal_strlit("setup");
    crate::scaffold::scaffolding_stands_in_its_own_directory(repo_dir, ("setup", ""));
}

/// A run of `init` that finds an error before it writes reports that error,
/// whatever would have come of the writes.
pub proof fn nothing_counts_after_an_early_error(
    probe: ProbeView,
    repo_dir: Seq<char>,
    checkout: Result<Seq<char>, IoErrorView>,
    container: Result<Seq<char>, IoErrorView>,
    loaded: Result<ProjectConfigView, ConfigErrorView>,
    global: Result<GlobalConfig, ConfigError>,
    progress: InitProgressView,
    error: InitErrorView,
)
    ensures
        init_result(Err(error), repo_dir, checkout, container, loaded, global, progress) == Err::<
            (),
            InitErrorView,
        >(error),
        crate::init::located(probe, repo_dir, checkout, container) == Err::<
            LocatedView,
            InitErrorView,
        >(error) ==> init_result(
            Ok(probe),
            repo_dir,
            checkout,
            container,
            loaded,
            global,
            progress,
        ) == Err::<(), InitErrorView>(error),
        crate::init::located(probe, repo_dir, checkout, container) is Ok && (loaded matches Err(cause)
            && !(cause matches ConfigErrorView::Read { source, .. } && source.kind is NotFound))
            ==> init_result(Ok(probe), repo_dir, checkout, container, loaded, global, progress)
            == Err::<(), InitErrorView>(InitErrorView::Config(loaded->Err_0)),
{
}

} // verus!
