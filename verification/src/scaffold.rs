//! The committed `.spec-flow/` files that `spec-flow init` puts into a repo.
//!
//! There are two kinds, both shared by the team and checked in:
//! `workflow.yaml`, the whole delivery pipeline as plain text to edit, and
//! `instructions/<point>.md`, one file per point at which the daemon composes
//! a prompt.
//!
//! Scaffolding is never destructive: a file that exists already is left
//! exactly as it is. Each file is opened so that creating it and checking that
//! it is new are one step, and [`settle_creation`] says what the outcome of
//! that step means.

use vstd::prelude::*;

use crate::failure::{IoError, IoErrorKind, IoErrorView};
use crate::paths::join;

verus! {

/// Errors writing the `.spec-flow/` scaffolding.
#[derive(Debug)]
#[non_exhaustive]
pub enum ScaffoldError {
    /// A scaffolded file, or a directory that holds one, could not be created.
    Write {
        /// The path that could not be written.
        path: String,
        /// The underlying I/O failure.
        source: IoError,
    },
}

/// The contents of a [`ScaffoldError`].
pub enum ScaffoldErrorView {
    Write { path: Seq<char>, source: IoErrorView },
}

impl View for ScaffoldError {
    type V = ScaffoldErrorView;

    open spec fn view(&self) -> ScaffoldErrorView {
        match *self {
            ScaffoldError::Write { path, source } => ScaffoldErrorView::Write {
                path: path@,
                source: source@,
            },
        }
    }
}

/// The default `.spec-flow/workflow.yaml`.
///
/// Who plays a lens of the panel without a skill of its own is called an
/// assessor throughout: the roles `assessor`, `test-rigor-assessor` and
/// `observability-assessor`, and the outside party of an external lens. A repo
/// with roles of other names writes those in its own copy.
pub const DEFAULT_WORKFLOW_YAML: &'static str = r#"labels:
  priority: [P0, P1, P2, P3]
  status:   [product-spec, conflict-check, architecture, test-plan, ready, implement, review, done]
  gate_prefix:     "gate:"        # gate:<phase> = this phase needs a human on this issue (§4.3)
  approval_prefix: "approved:"    # approved:<phase>
  owner_prefix:    "owner:"       # owner:<instance> + heartbeat (§8.2)

roborev:
  enabled: true
  mode: gate            # gate = hard `requires` · advisory = surfaced only. Omit block → off.

spec:                          # spec tooling used to AUTO-WRITE the spec in the worktree at implement (§7.2 ph.6)
  tool: openspec               # openspec | specs_dir | <custom> — CONFIGURABLE; default OpenSpec (detected by init)
  openspec: {enabled: true}    # when tool=openspec: explore+propose in the worktree
  specs_dir: specs/            # when tool=specs_dir: a spec file under this dir
  optional: true               # allow a PER-ISSUE spec skip via the label below (§7.2 ph.6, §10.2)
  skip_label: "spec:skip"      # present on the issue → implement does branch + PR only, no spec authored;
                               # the server posts a comment recording the skip (audit trail, §2.3)

# Review lenses (spec-flow's 5-lens panel, §2.6); run in parallel each round, all must approve.
# A lens is INTERNAL (server spawns it) or EXTERNAL (a configured outside assessor posts its verdict
# on the issue/PR; the server reads it via `gh` — §7.4). The fix loop waits for ALL of them.
review_panel:
  - {lens: spec,             role: assessor}
  - {lens: code-review,      skill: code-review}
  - {lens: security-review,  skill: security-review}
  - {lens: test-rigor,       role: test-rigor-assessor}
  - {lens: observability,    role: observability-assessor}
  # - {lens: external-audit, type: external, source: "review-comment"}   # external assessor (§7.4)

fix_loop: {max_rounds: 3, on_exhausted: escalate, on_decision_finding: escalate}   # §7.1, §7.2 phase 6

# gate: none | human | auto  (§2.3b). Config sets the DEFAULT; the orchestrator stamps gate:<phase>
# labels for each `human` phase at issue creation; the operator adds/removes them per issue (§4.3).
phases:
  - {id: product-spec,   action: {type: agent, role: product-manager, interactive: true}, artifact: {kind: issue}, gate: human, approval_label: "approved:product-spec", status_label: product-spec}
  - {id: conflict-check, action: {type: agent, role: spec-conflict},  artifact: {kind: issue_comment, title: "Spec conflict check"}, gate: none, on_conflict: escalate, status_label: conflict-check}
  - {id: architecture,   action: {type: agent, role: architect},      artifact: {kind: issue_comment, title: "Architecture + trade-offs"}, gate: human, approval_label: "approved:architecture", status_label: architecture}
  - {id: test-plan,      action: {type: agent, role: test-planner},   artifact: {kind: issue_comment, title: "Test plan"}, gate: human, approval_label: "approved:test-plan", status_label: test-plan}
  # No standalone spec phase: the approved issue IS the contract (§7.2 ph.5). When product-spec +
  # architecture + test-plan are all approved, the server marks the issue `status:ready` for handoff.
  - {id: implement,      action: {type: server_then_agent, op: start_implement, spec_tool: openspec, role: developer, panel: review_panel, fix_loop: fix_loop, then: build-engineer}, requires: ["approved:product-spec", "approved:architecture", "approved:test-plan"], gate: none, status_label: implement}
  - {id: review,         action: {type: server, op: merge_queue},     requires: [{ci: green}, {roborev: clean}, deps_merged], gate: human, approval_label: "approved:merge", status_label: review}
  - {id: finalize,       action: {type: server, op: finalize},        gate: none, status_label: done}

out_of_band:
  # trigger: auto (poller/GitHub event fires it) | operator (explicit tool call only). Both are always
  # callable explicitly via sync_ci()/address() (§6); `trigger` sets the DEFAULT auto-behavior.
  - {id: sync-ci, action: {type: server, op: sync_ci},      reenters: implement, trigger: auto}      # red CI → flag tests
  - {id: address, action: {type: agent,  role: developer},  reenters: review,    trigger: operator}   # PR review comments
"#;

/// Every instruction point, with the one-line purpose that its seeded file
/// records.
pub const INSTRUCTION_POINTS: [(&'static str, &'static str); 19] = [
    ("setup", "one-time project setup for a spawned agent"),
    ("groom", "the interactive product-spec dialogue (§7.2 ph.1)"),
    ("conflict-check", "checking a product spec for conflicts (ph.2)"),
    ("architecture", "proposing architecture options (ph.3)"),
    ("test-plan", "writing the test plan (ph.4)"),
    ("start-implement", "kicking off implement in a worktree (§10.2)"),
    ("write-spec", "auto-writing the spec into the worktree (ph.6)"),
    ("develop-plan", "posting the development plan (§10.2)"),
    ("implement", "implementing the issue test-first (ph.6)"),
    ("review:spec", "the spec review lens (§2.6)"),
    ("review:code-review", "the code-review lens (§2.6)"),
    ("review:security-review", "the security-review lens (§2.6)"),
    ("review:test-rigor", "the test-rigor lens (§2.6)"),
    ("review:observability", "the observability lens (§2.6)"),
    ("fix", "the bounded fix loop (§7.1)"),
    ("sync-ci", "guarding tests a red CI run flagged (§7.2)"),
    ("address", "resolving PR review comments (§7.2)"),
    ("merge", "the merge gate (§8.1)"),
    ("finalize", "spec sync and cleanup after merge (ph.8)"),
];

/// What a seeded instruction file says before it names its point.
pub const SEED_POINT: &'static str = "# `";

/// What it says between its point and its purpose.
pub const SEED_PURPOSE: &'static str = "` instructions\n\nInjection point for ";

/// What it says after its purpose.
pub const SEED_REST: &'static str = " (spec §9.1).\n\n**Placeholder.** The built-in base template for \
                                 this point is authored with the instruction composer (spec §14 \
                                 step 6); until then this file only reserves the override \
                                 hook.\n\nText here is appended to the base template. To supersede \
                                 the base entirely, make `<!-- mode: replace -->` the first line \
                                 of this file (spec §9.2).\n";

/// The seed text of one instruction point's file.
pub open spec fn seed_text(point: Seq<char>, purpose: Seq<char>) -> Seq<char> {
    SEED_POINT@ + point + SEED_PURPOSE@ + purpose + SEED_REST@
}

/// The seed text of one instruction point's file: it names the point, says
/// what it is for, and how to override it.
pub fn instruction_placeholder(point: &str, purpose: &str) -> (text: String)
    ensures
        text@ == seed_text(point@, purpose@),
{
    SEED_POINT.to_string().concat(point).concat(SEED_PURPOSE).concat(purpose).concat(SEED_REST)
}

/// A file to create unless it exists.
#[derive(Debug, Eq, PartialEq)]
pub struct ScaffoldFile {
    /// Where it goes.
    pub path: String,
    /// What it holds when it is new.
    pub contents: String,
}

/// The contents of a [`ScaffoldFile`].
pub struct ScaffoldFileView {
    pub path: Seq<char>,
    pub contents: Seq<char>,
}

impl View for ScaffoldFile {
    type V = ScaffoldFileView;

    open spec fn view(&self) -> ScaffoldFileView {
        ScaffoldFileView { path: self.path@, contents: self.contents@ }
    }
}

/// Where a repo's scaffolding lives.
pub open spec fn spec_flow_dir_of(repo_dir: Seq<char>) -> Seq<char> {
    crate::paths::joined(repo_dir, ".spec-flow"@)
}

/// Where a repo's workflow file lives.
pub open spec fn workflow_path_of(repo_dir: Seq<char>) -> Seq<char> {
    crate::paths::joined(spec_flow_dir_of(repo_dir), "workflow.yaml"@)
}

/// Where a repo's instruction files live.
pub open spec fn instructions_dir_of(repo_dir: Seq<char>) -> Seq<char> {
    crate::paths::joined(spec_flow_dir_of(repo_dir), "instructions"@)
}

/// The file of one instruction point.
pub open spec fn instruction_file(
    repo_dir: Seq<char>,
    point: (&'static str, &'static str),
) -> ScaffoldFileView {
    ScaffoldFileView {
        path: crate::paths::joined(instructions_dir_of(repo_dir), point.0@ + ".md"@),
        contents: seed_text(point.0@, point.1@),
    }
}

/// The files that a repo is given: the default workflow, and then one file per
/// instruction point.
pub open spec fn files_of(repo_dir: Seq<char>) -> Seq<ScaffoldFileView> {
    seq![
        ScaffoldFileView {
            path: workflow_path_of(repo_dir),
            contents: DEFAULT_WORKFLOW_YAML@,
        },
    ] + INSTRUCTION_POINTS@.map_values(
        |point: (&'static str, &'static str)| instruction_file(repo_dir, point),
    )
}

/// The contents of several files.
pub open spec fn files_view(files: Seq<ScaffoldFile>) -> Seq<ScaffoldFileView> {
    files.map_values(|file: ScaffoldFile| file@)
}

/// The path to a repo's committed workflow file.
pub fn workflow_path(repo_dir: &str) -> (path: String)
    ensures
        path@ == workflow_path_of(repo_dir@),
{
    let dir = join(repo_dir, ".spec-flow");
    join(dir.as_str(), "workflow.yaml")
}

/// The directory of a repo's instruction files; it has to exist before they
/// can be created.
pub fn instructions_dir(repo_dir: &str) -> (path: String)
    ensures
        path@ == instructions_dir_of(repo_dir@),
{
    let dir = join(repo_dir, ".spec-flow");
    join(dir.as_str(), "instructions")
}

/// The files to create in a repo, in order, each unless it exists.
pub fn scaffold_files(repo_dir: &str) -> (files: Vec<ScaffoldFile>)
    ensures
        files_view(files@) == files_of(repo_dir@),
{
    let dir = instructions_dir(repo_dir);
    let mut files: Vec<ScaffoldFile> = Vec::new();
    files.push(
        ScaffoldFile {
            path: workflow_path(repo_dir),
            contents: DEFAULT_WORKFLOW_YAML.to_string(),
        },
    );
    let points = INSTRUCTION_POINTS;
    let mut i: usize = 0;
    while i < 19
        invariant
            i <= 19,
            points == INSTRUCTION_POINTS,
            dir@ == instructions_dir_of(repo_dir@),
            files@.len() == i + 1,
            files@[0]@ == (ScaffoldFileView {
                path: workflow_path_of(repo_dir@),
                contents: DEFAULT_WORKFLOW_YAML@,
            }),
            forall|k: int|
                1 <= k <= i ==> (#[trigger] files@[k])@ == instruction_file(
                    repo_dir@,
                    INSTRUCTION_POINTS@[k - 1],
                ),
        decreases 19 - i,
    {
        let (point, purpose) = points[i];
        let name = point.to_string().concat(".md");
        files.push(
            ScaffoldFile {
                path: join(dir.as_str(), name.as_str()),
                contents: instruction_placeholder(point, purpose),
            },
        );
        i += 1;
    }
    assert(files_view(files@) =~= files_of(repo_dir@));
    files
}

/// What became of a file that was to be created.
#[derive(Clone, Copy, Debug, Eq, PartialEq, Structural)]
pub enum Creation {
    /// It is new and empty; its contents are to be written.
    Created,
    /// It was there already and stays as it is.
    Kept,
}

/// The contents of an attempt.
pub open spec fn attempt_view(attempt: Result<(), IoError>) -> Result<(), IoErrorView> {
    match attempt {
        Ok(_) => Ok(()),
        Err(error) => Err(error@),
    }
}

/// What the attempt to create `path` as a new file comes to.
pub open spec fn creation_of(path: Seq<char>, attempt: Result<(), IoErrorView>) -> Result<
    Creation,
    ScaffoldErrorView,
> {
    match attempt {
        Ok(_) => Ok(Creation::Created),
        Err(source) => if source.kind is AlreadyExists {
            Ok(Creation::Kept)
        } else {
            Err(ScaffoldErrorView::Write { path, source })
        },
    }
}

/// Settles the attempt to create `path` as a new file. One that exists already
/// is kept; every other failure is an error.
pub fn settle_creation(path: &str, attempt: Result<(), IoError>) -> (creation: Result<
    Creation,
    ScaffoldError,
>)
    ensures
        match creation {
            Ok(creation) => creation_of(path@, attempt_view(attempt)) == Ok::<
                Creation,
                ScaffoldErrorView,
            >(creation),
            Err(error) => creation_of(path@, attempt_view(attempt)) == Err::<
                Creation,
                ScaffoldErrorView,
            >(error@),
        },
{
    match attempt {
        Ok(_) => Ok(Creation::Created),
        Err(source) => match source.kind {
            IoErrorKind::AlreadyExists => Ok(Creation::Kept),
            _ => Err(ScaffoldError::Write { path: path.to_string(), source }),
        },
    }
}

/// What the files of a repo hold once each of `files` has been created that was
/// missing.
pub open spec fn scaffolded(
    disk: Map<Seq<char>, Seq<char>>,
    files: Seq<ScaffoldFileView>,
) -> Map<Seq<char>, Seq<char>>
    decreases files.len(),
{
    if files.len() == 0 {
        disk
    } else {
        let earlier = scaffolded(disk, files.drop_last());
        if earlier.contains_key(files.last().path) {
            earlier
        } else {
            earlier.insert(files.last().path, files.last().contents)
        }
    }
}

/// How far creating one file has got.
#[derive(Debug)]
pub struct FileAttempt {
    /// The outcome of creating it as a new one.
    pub created: Result<(), IoError>,
    /// The outcome of writing its contents, once that was tried.
    pub written: Option<Result<(), IoError>>,
}

/// The contents of a [`FileAttempt`].
pub struct FileAttemptView {
    pub created: Result<(), IoErrorView>,
    pub written: Option<Result<(), IoErrorView>>,
}

impl View for FileAttempt {
    type V = FileAttemptView;

    open spec fn view(&self) -> FileAttemptView {
        FileAttemptView {
            created: attempt_view(self.created),
            written: match self.written {
                Some(written) => Some(attempt_view(written)),
                None => None,
            },
        }
    }
}

/// The contents of several attempts.
pub open spec fn attempts_view(attempts: Seq<FileAttempt>) -> Seq<FileAttemptView> {
    attempts.map_values(|attempt: FileAttempt| attempt@)
}

/// What creating a file comes to: whether it is there now, with `false` where
/// its contents are still to be written.
pub open spec fn settled_file(path: Seq<char>, attempt: FileAttemptView) -> Result<
    bool,
    ScaffoldErrorView,
> {
    match creation_of(path, attempt.created) {
        Err(error) => Err(error),
        Ok(Creation::Kept) => Ok(true),
        Ok(Creation::Created) => match attempt.written {
            None => Ok(false),
            Some(Ok(_)) => Ok(true),
            Some(Err(source)) => Err(ScaffoldErrorView::Write { path, source }),
        },
    }
}

/// What creating the files from position `at` on comes to so far: the first
/// failure, if there is one.
pub open spec fn settled_files(
    files: Seq<ScaffoldFileView>,
    attempts: Seq<FileAttemptView>,
    at: int,
) -> Result<(), ScaffoldErrorView>
    decreases files.len() - at,
{
    if !(0 <= at < files.len() && at < attempts.len()) {
        Ok(())
    } else {
        match settled_file(files[at].path, attempts[at]) {
            Err(error) => Err(error),
            Ok(true) => settled_files(files, attempts, at + 1),
            Ok(false) => Ok(()),
        }
    }
}

/// What is to be done next about a repo's files.
#[derive(Clone, Copy, Debug, Eq, PartialEq, Structural)]
pub enum FileStep {
    /// Create the file at this position as a new one.
    Create(usize),
    /// Write the contents of the file at this position, which is new.
    Write(usize),
    /// Nothing: a file could not be created.
    Failed,
    /// Nothing: every file is there.
    Complete,
}

/// What is to be done next about the files from position `at` on.
pub open spec fn next_file_step(
    files: Seq<ScaffoldFileView>,
    attempts: Seq<FileAttemptView>,
    at: int,
) -> FileStep
    decreases files.len() - at,
{
    if !(0 <= at < files.len()) {
        FileStep::Complete
    } else if at >= attempts.len() {
        FileStep::Create(at as usize)
    } else {
        match settled_file(files[at].path, attempts[at]) {
            Err(_) => FileStep::Failed,
            Ok(true) => next_file_step(files, attempts, at + 1),
            Ok(false) => FileStep::Write(at as usize),
        }
    }
}

/// Says what is to be done next about a repo's files.
pub fn file_step(files: &Vec<ScaffoldFile>, attempts: &Vec<FileAttempt>) -> (step: FileStep)
    ensures
        step == next_file_step(files_view(files@), attempts_view(attempts@), 0),
{
    let ghost all = files_view(files@);
    let ghost tried = attempts_view(attempts@);
    let mut i: usize = 0;
    while i < files.len()
        invariant
            i <= files@.len(),
            all == files_view(files@),
            tried == attempts_view(attempts@),
            next_file_step(all, tried, 0) == next_file_step(all, tried, i as int),
        decreases files@.len() - i,
    {
        if i >= attempts.len() {
            return FileStep::Create(i);
        }
        assert(all[i as int] == files@[i as int]@);
        assert(tried[i as int] == attempts@[i as int]@);
        match &attempts[i].created {
            Ok(_) => match &attempts[i].written {
                None => return FileStep::Write(i),
                Some(Err(_)) => return FileStep::Failed,
                Some(Ok(_)) => {},
            },
            Err(error) => match error.kind {
                IoErrorKind::AlreadyExists => {},
                _ => return FileStep::Failed,
            },
        }
        i += 1;
    }
    FileStep::Complete
}

/// Settles the creation of a repo's files so far: the first failure, if there
/// is one.
pub fn settle_files(files: &Vec<ScaffoldFile>, attempts: Vec<FileAttempt>) -> (result: Result<
    (),
    ScaffoldError,
>)
    ensures
        match result {
            Ok(_) => settled_files(files_view(files@), attempts_view(attempts@), 0) is Ok,
            Err(error) => settled_files(files_view(files@), attempts_view(attempts@), 0) == Err::<
                (),
                ScaffoldErrorView,
            >(error@),
        },
{
    let ghost all = files_view(files@);
    let ghost tried = attempts_view(attempts@);
    let mut i: usize = 0;
    let mut left = attempts;
    assert(tried.skip(0) =~= tried);
    while i < files.len() && left.len() > 0
        invariant
            i <= files@.len(),
            i + left@.len() == tried.len(),
            all == files_view(files@),
            tried == attempts_view(attempts@),
            attempts_view(left@) == tried.skip(i as int),
            settled_files(all, tried, 0) == settled_files(all, tried, i as int),
        decreases left@.len(),
    {
        let ghost before = left@;
        let attempt = left.remove(0);
        proof {
            assert(attempts_view(before)[0] == attempt@);
            assert(tried[i as int] == attempt@);
            assert(all[i as int] == files@[i as int]@);
            assert(attempts_view(left@) =~= attempts_view(before).skip(1));
            assert(tried.skip(i as int).skip(1) =~= tried.skip(i + 1));
        }
        let path = files[i].path.as_str();
        match settle_creation(path, attempt.created) {
            Err(error) => return Err(error),
            Ok(Creation::Kept) => {},
            Ok(Creation::Created) => match attempt.written {
                None => return Ok(()),
                Some(Ok(_)) => {},
                Some(Err(source)) => return Err(
                    ScaffoldError::Write { path: path.to_string(), source },
                ),
            },
        }
        i += 1;
    }
    Ok(())
}

/// Whether every one of the files is there.
pub open spec fn are_settled(
    files: Seq<ScaffoldFileView>,
    attempts: Seq<FileAttemptView>,
) -> bool {
    &&& files.len() <= attempts.len()
    &&& forall|i: int|
        0 <= i < files.len() ==> settled_file((#[trigger] files[i]).path, attempts[i]) == Ok::<
            bool,
            ScaffoldErrorView,
        >(true)
}

/// Creating files stops at the first failure, and otherwise goes on until every
/// one of them is there.
pub proof fn creating_files_stops_at_a_failure(
    files: Seq<ScaffoldFileView>,
    attempts: Seq<FileAttemptView>,
)
    ensures
        next_file_step(files, attempts, 0) is Failed <==> settled_files(files, attempts, 0) is Err,
        next_file_step(files, attempts, 0) is Complete <==> are_settled(files, attempts),
{
    creating_the_rest(files, attempts, 0);
}

/// The same of the files from position `at` on.
proof fn creating_the_rest(
    files: Seq<ScaffoldFileView>,
    attempts: Seq<FileAttemptView>,
    at: int,
)
    requires
        0 <= at <= files.len(),
        at <= attempts.len(),
        forall|i: int|
            0 <= i < at ==> settled_file((#[trigger] files[i]).path, attempts[i]) == Ok::<
                bool,
                ScaffoldErrorView,
            >(true),
    ensures
        next_file_step(files, attempts, at) is Failed <==> settled_files(files, attempts, at)
            is Err,
        next_file_step(files, attempts, at) is Complete <==> are_settled(files, attempts),
    decreases files.len() - at,
{
    if at < files.len() && at < attempts.len() {
        if settled_file(files[at].path, attempts[at]) == Ok::<bool, ScaffoldErrorView>(true) {
            creating_the_rest(files, attempts, at + 1);
        }
    }
}

/// Whether an attempt was refused because the file exists.
pub open spec fn says_it_exists(attempt: FileAttemptView) -> bool {
    attempt.created matches Err(error) && error.kind is AlreadyExists
}

/// Whether `attempts` is how a disk answers the attempts to create `files` as
/// new ones: one that exists is refused for that reason.
pub open spec fn are_answers(
    disk: Map<Seq<char>, Seq<char>>,
    files: Seq<ScaffoldFileView>,
    attempts: Seq<FileAttemptView>,
) -> bool {
    &&& attempts.len() == files.len()
    &&& forall|i: int|
        0 <= i < files.len() && disk.contains_key((#[trigger] files[i]).path) ==> says_it_exists(
            attempts[i],
        )
}

/// Scaffolding leaves every file that exists as it is, and adds nothing but the
/// given ones.
pub proof fn scaffolding_keeps_what_exists(
    disk: Map<Seq<char>, Seq<char>>,
    files: Seq<ScaffoldFileView>,
)
    ensures
        forall|path: Seq<char>| #[trigger]
            disk.contains_key(path) ==> scaffolded(disk, files).contains_key(path) && scaffolded(
                disk,
                files,
            )[path] == disk[path],
        (forall|i: int| 0 <= i < files.len() ==> disk.contains_key((#[trigger] files[i]).path))
            ==> scaffolded(disk, files) == disk,
    decreases files.len(),
{
    if files.len() > 0 {
        let rest = files.drop_last();
        scaffolding_keeps_what_exists(disk, rest);
        if forall|i: int| 0 <= i < files.len() ==> disk.contains_key((#[trigger] files[i]).path) {
            assert forall|i: int| 0 <= i < rest.len() implies disk.contains_key(
                (#[trigger] rest[i]).path,
            ) by {
                assert(rest[i] == files[i]);
            }
            assert(disk.contains_key(files[files.len() - 1].path));
        }
    }
}

/// After scaffolding every one of the files exists.
pub proof fn scaffolding_is_complete(
    disk: Map<Seq<char>, Seq<char>>,
    files: Seq<ScaffoldFileView>,
)
    ensures
        forall|i: int|
            0 <= i < files.len() ==> scaffolded(disk, files).contains_key(
                (#[trigger] files[i]).path,
            ),
    decreases files.len(),
{
    if files.len() > 0 {
        let rest = files.drop_last();
        scaffolding_is_complete(disk, rest);
        assert forall|i: int| 0 <= i < files.len() implies scaffolded(disk, files).contains_key(
            (#[trigger] files[i]).path,
        ) by {
            if i < rest.len() {
                assert(rest[i] == files[i]);
            }
        }
    }
}

/// Where every file exists already, creating them is no failure.
pub proof fn nothing_missing_nothing_fails(
    disk: Map<Seq<char>, Seq<char>>,
    files: Seq<ScaffoldFileView>,
    attempts: Seq<FileAttemptView>,
)
    requires
        are_answers(disk, files, attempts),
        forall|i: int| 0 <= i < files.len() ==> disk.contains_key((#[trigger] files[i]).path),
    ensures
        settled_files(files, attempts, 0) is Ok,
        next_file_step(files, attempts, 0) is Complete,
{
    assert forall|i: int| 0 <= i < files.len() implies settled_file(
        (#[trigger] files[i]).path,
        attempts[i],
    ) == Ok::<bool, ScaffoldErrorView>(true) by {
        assert(disk.contains_key(files[i].path));
        assert(says_it_exists(attempts[i]));
    }
    creating_files_stops_at_a_failure(files, attempts);
}

/// A repo's scaffolding stands in its `.spec-flow` directory: the workflow, and
/// the instruction files in a directory of their own, each named after its
/// point.
pub proof fn scaffolding_stands_in_its_own_directory(
    repo_dir: Seq<char>,
    point: (&'static str, &'static str),
)
    requires
        repo_dir.len() > 0,
        repo_dir.last() != '/',
        point.0@.len() > 0,
        point.0@[0] != '/',
    ensures
        workflow_path_of(repo_dir) == repo_dir + "/.spec-flow/workflow.yaml"@,
        instructions_dir_of(repo_dir) == repo_dir + "/.spec-flow/instructions"@,
        instruction_file(repo_dir, point).path == repo_dir + "/.spec-flow/instructions/"@ + point.0@
            + ".md"@,
{
    reveal_strlit("/");
    reveal_strlit(".md");
    reveal_strlit(".spec-flow");
    reveal_strlit("workflow.yaml");
    reveal_strlit("instructions");
    reveal_strlit("/.spec-flow/workflow.yaml");
    reveal_strlit("/.spec-flow/instructions");
    reveal_strlit("/.spec-flow/instructions/");
    let dir = spec_flow_dir_of(repo_dir);
    assert(dir == repo_dir + "/"@ + ".spec-flow"@);
    assert(dir.last() == 'w');
    assert(workflow_path_of(repo_dir) =~= repo_dir + "/.spec-flow/workflow.yaml"@);
    assert(instructions_dir_of(repo_dir) =~= repo_dir + "/.spec-flow/instructions"@);
    assert(instructions_dir_of(repo_dir).last() == 's');
    assert((point.0@ + ".md"@)[0] == point.0@[0]);
    assert(instruction_file(repo_dir, point).path =~= repo_dir + "/.spec-flow/instructions/"@
        + point.0@ + ".md"@);
}

/// A seeded file names its point and its purpose, and tells how to add to the
/// base template and how to replace it.
pub proof fn seeded_files_tell_how_to_override(point: Seq<char>, purpose: Seq<char>)
    ensures
        seed_text(point, purpose) == "# `"@ + point
            + "` instructions\n\nInjection point for "@ + purpose
            + " (spec §9.1).\n\n**Placeholder.** The built-in base template for this point is authored with the instruction composer (spec §14 step 6); until then this file only reserves the override hook.\n\nText here is appended to the base template. To supersede the base entirely, make `<!-- mode: replace -->` the first line of this file (spec §9.2).\n"@,
{
}

/// A new file is created, one that exists is kept, and any other failure to
/// create it is told with its path.
pub proof fn only_existing_files_are_kept(path: Seq<char>, source: IoErrorView)
    ensures
        creation_of(path, Ok(())) == Ok::<Creation, ScaffoldErrorView>(Creation::Created),
        source.kind is AlreadyExists ==> creation_of(path, Err(source)) == Ok::<
            Creation,
            ScaffoldErrorView,
        >(Creation::Kept),
        !(source.kind is AlreadyExists) ==> creation_of(path, Err(source)) == Err::<
            Creation,
            ScaffoldErrorView,
        >(ScaffoldErrorView::Write { path, source }),
{
}

/// A file is there once it is known to exist or its contents are written; one
/// that is new and unwritten is not, and one that cannot be written never is.
pub proof fn new_files_are_there_once_written(path: Seq<char>, source: IoErrorView)
    ensures
        settled_file(path, FileAttemptView { created: Ok(()), written: None }) == Ok::<
            bool,
            ScaffoldErrorView,
        >(false),
        settled_file(path, FileAttemptView { created: Ok(()), written: Some(Ok(())) }) == Ok::<
            bool,
            ScaffoldErrorView,
        >(true),
        settled_file(path, FileAttemptView { created: Ok(()), written: Some(Err(source)) }) == Err::<
            bool,
            ScaffoldErrorView,
        >(ScaffoldErrorView::Write { path, source }),
        source.kind is AlreadyExists ==> settled_file(
            path,
            FileAttemptView { created: Err(source), written: None },
        ) == Ok::<bool, ScaffoldErrorView>(true),
        !(source.kind is AlreadyExists) ==> settled_file(
            path,
            FileAttemptView { created: Err(source), written: None },
        ) == Err::<bool, ScaffoldErrorView>(ScaffoldErrorView::Write { path, source }),
{
}

/// Files are created one after the other: where all that were tried are there,
/// the next one is created; and one that is new is written before any other is
/// tried.
pub proof fn files_are_created_in_turn(
    files: Seq<ScaffoldFileView>,
    attempts: Seq<FileAttemptView>,
    at: int,
)
    requires
        0 <= at <= attempts.len() <= files.len() <= usize::MAX,
        forall|k: int|
            at <= k < attempts.len() ==> settled_file(
                (#[trigger] files[k]).path,
                attempts[k],
            ) == Ok::<bool, ScaffoldErrorView>(true),
    ensures
        next_file_step(files, attempts, at) == if attempts.len() == files.len() {
            FileStep::Complete
        } else {
            FileStep::Create(attempts.len() as usize)
        },
        attempts.len() < files.len() ==> next_file_step(
            files,
            attempts.push(FileAttemptView { created: Ok(()), written: None }),
            at,
        ) == FileStep::Write(attempts.len() as usize),
    decreases attempts.len() - at,
{
    let more = attempts.push(FileAttemptView { created: Ok(()), written: None });
    if at < attempts.len() {
        assert(settled_file(files[at].path, attempts[at]) == Ok::<bool, ScaffoldErrorView>(true));
        assert(more[at] == attempts[at]);
        files_are_created_in_turn(files, attempts, at + 1);
    } else if attempts.len() < files.len() {
        assert(more[at] == (FileAttemptView { created: Ok(()), written: None }));
    }
}

/// The points that can be overridden, in the order in which their files are
/// created.
pub proof fn every_point_has_its_file(repo_dir: Seq<char>)
    ensures
        INSTRUCTION_POINTS@.map_values(|point: (&'static str, &'static str)| point.0@) == seq![
            "setup"@,
            "groom"@,
            "conflict-check"@,
            "architecture"@,
            "test-plan"@,
            "start-implement"@,
            "write-spec"@,
            "develop-plan"@,
            "implement"@,
            "review:spec"@,
            "review:code-review"@,
            "review:security-review"@,
            "review:test-rigor"@,
            "review:observability"@,
            "fix"@,
            "sync-ci"@,
            "address"@,
            "merge"@,
            "finalize"@,
        ],
        files_of(repo_dir).len() == 20,
        files_of(repo_dir)[0].path == workflow_path_of(repo_dir),
        forall|i: int|
            0 <= i < 19 ==> files_of(repo_dir)[i + 1] == instruction_file(
                repo_dir,
                #[trigger] INSTRUCTION_POINTS@[i],
            ),
{
    let names = INSTRUCTION_POINTS@.map_values(|point: (&'static str, &'static str)| point.0@);
    assert(INSTRUCTION_POINTS@.len() == 19);
    assert(names[0] == "setup"@);
    assert(names[18] == "finalize"@);
}

} // verus!
