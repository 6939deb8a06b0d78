//! Adding a project.

use spec_flow::config::{
    check_project_config, project_config_path, ConfigError, CrossProjectMode, GhConfig,
    GlobalConfig, ListenAddr, MergeMode, ProjectConfig, ProjectPointer,
};
use spec_flow::failure::{IoError, IoErrorKind};
use spec_flow::init::{
    default_global_config, existing_overrides, load_or_default_global_config, locate_project,
    memory_scope, plan_init, probe_repo, provision_labels, register_project,
    resolve_project_config, InitError, InitOptions, InitPlan, Probe,
};
use spec_flow::installation::{
    next_step, settle_init, InitProgress, InitStep, WorkflowFailure,
};
use spec_flow::scaffold::{FileAttempt, ScaffoldError};
use spec_flow::time::Duration;
use spec_flow::vcs::fake::FakeVcs;
use spec_flow::vcs::VcsError;

const REPO: &str = "owner/repo-a";
const REPO_DIR: &str = "/root/repo-a/main";

fn absent(path: &str) -> ConfigError {
    ConfigError::Read {
        path: path.to_string(),
        source: IoError { kind: IoErrorKind::NotFound, message: "absent".to_string() },
    }
}

/// A fake that answers for `repo_dir`: authenticated, on `main`, with the
/// native merge queue on.
fn seeded_vcs(repo_dir: &str, repo: &str) -> FakeVcs {
    let mut vcs = FakeVcs::new();
    vcs.authenticated.insert(repo, ());
    vcs.repo_slugs.insert(repo_dir, repo.to_string());
    vcs.default_branches.insert(repo_dir, "main".to_string());
    vcs.merge_queue_enabled_repos.insert(repo, ());
    vcs
}

/// What is on disk: the one project config, if there is one.
struct Disk {
    project_config: Result<ProjectConfig, ConfigError>,
}

/// The config that `init` settles on, where every path resolves to itself but
/// for `..`, which resolves to its parent, and what was never created.
fn settle(
    vcs: &mut FakeVcs,
    options: &InitOptions,
    repo_dir: &str,
    disk: Disk,
) -> Result<ProjectConfig, InitError> {
    let probe = probe_repo(vcs, options, repo_dir)?;
    let resolve = |path: &str| {
        if path.contains("never-created") {
            Err(IoError { kind: IoErrorKind::NotFound, message: String::new() })
        } else if let Some(below) = path.strip_suffix("/..") {
            Ok(below.rsplit_once('/').unwrap().0.to_string())
        } else {
            Ok(path.to_string())
        }
    };
    let place = locate_project(&probe, repo_dir, resolve(repo_dir), resolve(&probe.project_dir))?;
    resolve_project_config(probe, place, disk.project_config)
}

fn fresh() -> Disk {
    Disk { project_config: Err(absent("/root/repo-a/config.yaml")) }
}

fn init(vcs: &mut FakeVcs) -> Result<ProjectConfig, InitError> {
    settle(vcs, &InitOptions::default(), REPO_DIR, fresh())
}

#[test]
fn writes_a_project_config_from_the_detected_repo_state() {
    let mut vcs = seeded_vcs(REPO_DIR, REPO);

    assert_eq!(
        init(&mut vcs).unwrap(),
        ProjectConfig {
            name: "repo-a".to_string(),
            repo: REPO.to_string(),
            project_dir: "/root/repo-a".to_string(),
            local_path: "/root/repo-a/main".to_string(),
            default_branch: "main".to_string(),
            merge_mode: MergeMode::Native,
            gh: None,
            harness: None,
            index_path: "/root/repo-a/index".to_string(),
            memory_scope: "owner-repo-a".to_string(),
            weight: None,
        }
    );
}

#[test]
fn registers_the_project_in_a_fresh_global_config() {
    let mut vcs = seeded_vcs(REPO_DIR, REPO);
    let config = init(&mut vcs).unwrap();
    let mut global =
        load_or_default_global_config(Err(absent("/config.yaml")), "agent").unwrap();

    let previous = register_project(&mut global, &config);

    assert_eq!(previous, None);
    assert_eq!(
        global.projects,
        vec![ProjectPointer {
            name: "repo-a".to_string(),
            project_dir: "/root/repo-a".to_string(),
        }]
    );
}

#[test]
fn re_running_init_keeps_one_registry_row_and_the_same_config() {
    let mut vcs = seeded_vcs(REPO_DIR, REPO);
    let first = init(&mut vcs).unwrap();
    let mut global = default_global_config("agent");
    register_project(&mut global, &first);

    let written = init(&mut vcs).unwrap();
    let second =
        settle(&mut vcs, &InitOptions::default(), REPO_DIR, Disk { project_config: Ok(written) })
            .unwrap();

    assert_eq!(register_project(&mut global, &second), None);
    assert_eq!(global.projects.len(), 1);
    assert_eq!(second, first);
}

#[test]
fn records_serialized_merge_mode_when_the_queue_is_off() {
    let mut vcs = seeded_vcs(REPO_DIR, REPO);
    vcs.merge_queue_enabled_repos.remove(REPO);

    assert_eq!(init(&mut vcs).unwrap().merge_mode, MergeMode::Serialized);
}

#[test]
fn fails_when_gh_is_not_authenticated_for_the_repo() {
    let mut vcs = seeded_vcs(REPO_DIR, REPO);
    vcs.authenticated.remove(REPO);

    assert!(matches!(
        init(&mut vcs),
        Err(InitError::Vcs(VcsError::NotAuthenticated { .. }))
    ));
}

#[test]
fn fails_when_the_checkout_is_not_named_for_the_default_branch() {
    let repo_dir = "/root/repo-a/repo-a";
    let mut vcs = seeded_vcs(repo_dir, REPO);

    let error = settle(&mut vcs, &InitOptions::default(), repo_dir, fresh()).unwrap_err();

    assert!(matches!(
        error,
        InitError::CheckoutNotSiblingOfDefaultBranch { project_dir, default_branch, .. }
            if project_dir == "/root/repo-a" && default_branch == "main"
    ));
}

#[test]
fn fails_when_project_dir_override_does_not_actually_contain_the_checkout() {
    let mut vcs = seeded_vcs(REPO_DIR, REPO);
    let options =
        InitOptions { repo: None, project_dir: Some("/root/somewhere-else".to_string()) };

    let error = settle(&mut vcs, &options, REPO_DIR, fresh()).unwrap_err();

    assert!(matches!(error, InitError::CheckoutNotSiblingOfDefaultBranch { .. }));
}

#[test]
fn fails_when_project_dir_override_does_not_exist() {
    let mut vcs = seeded_vcs(REPO_DIR, REPO);
    let options = InitOptions { repo: None, project_dir: Some("/root/never-created".to_string()) };

    let error = settle(&mut vcs, &options, REPO_DIR, fresh()).unwrap_err();

    assert!(matches!(
        error,
        InitError::UnresolvablePath { path, .. } if path == "/root/never-created"
    ));
}

#[test]
fn accepts_a_relative_project_dir_override_that_resolves_to_the_true_parent() {
    let mut vcs = seeded_vcs(REPO_DIR, REPO);
    let options = InitOptions { repo: None, project_dir: Some("/root/repo-a/main/..".to_string()) };

    let config = settle(&mut vcs, &options, REPO_DIR, fresh()).unwrap();

    assert_eq!(config.project_dir, "/root/repo-a");
}

#[test]
fn repointing_a_project_name_to_a_different_directory_still_succeeds() {
    let mut global = default_global_config("agent");
    let mut work_vcs = seeded_vcs("/root/work/repo-a/main", "owner/work-repo-a");
    let work =
        settle(&mut work_vcs, &InitOptions::default(), "/root/work/repo-a/main", fresh()).unwrap();
    register_project(&mut global, &work);
    let mut oss_vcs = seeded_vcs("/root/oss/repo-a/main", "owner/oss-repo-a");
    let oss =
        settle(&mut oss_vcs, &InitOptions::default(), "/root/oss/repo-a/main", fresh()).unwrap();

    let previous = register_project(&mut global, &oss);

    assert_eq!(previous.as_deref(), Some("/root/work/repo-a"));
    assert_eq!(global.projects.len(), 1);
    assert_eq!(global.projects[0].project_dir, "/root/oss/repo-a");
}

#[test]
fn honors_the_repo_override_instead_of_detecting() {
    let mut vcs = seeded_vcs(REPO_DIR, REPO);
    vcs.repo_slugs.remove(REPO_DIR);
    vcs.authenticated.insert("owner/other", ());
    let options = InitOptions { repo: Some("owner/other".to_string()), project_dir: None };

    let config = settle(&mut vcs, &options, REPO_DIR, fresh()).unwrap();

    assert_eq!(config.repo, "owner/other");
}

#[test]
fn re_running_init_preserves_hand_added_gh_harness_and_weight_overrides() {
    let mut vcs = seeded_vcs(REPO_DIR, REPO);
    let mut edited = init(&mut vcs).unwrap();
    edited.gh =
        Some(GhConfig { host: "github.example.com".to_string(), account: "me".to_string() });
    edited.harness = Some("codex".to_string());
    edited.weight = Some(5);

    let reloaded =
        settle(&mut vcs, &InitOptions::default(), REPO_DIR, Disk { project_config: Ok(edited) })
            .unwrap();

    assert_eq!(
        reloaded.gh,
        Some(GhConfig { host: "github.example.com".to_string(), account: "me".to_string() })
    );
    assert_eq!(reloaded.harness.as_deref(), Some("codex"));
    assert_eq!(reloaded.weight, Some(5));
}

#[test]
fn re_running_init_over_an_unparseable_existing_config_fails_loudly() {
    let mut vcs = seeded_vcs(REPO_DIR, REPO);
    let unparseable = ConfigError::Parse {
        path: "/root/repo-a/config.yaml".to_string(),
        message: "did not find expected ',' or ']'".to_string(),
    };

    assert!(matches!(
        settle(
            &mut vcs,
            &InitOptions::default(),
            REPO_DIR,
            Disk { project_config: Err(unparseable) }
        ),
        Err(InitError::Config(ConfigError::Parse { .. }))
    ));
}

#[test]
fn re_running_init_over_an_existing_zero_weight_fails_loudly() {
    let mut vcs = seeded_vcs(REPO_DIR, REPO);
    let mut edited = init(&mut vcs).unwrap();
    edited.weight = Some(0);
    let loaded = check_project_config(&project_config_path("/root/repo-a"), edited);

    assert!(matches!(
        settle(&mut vcs, &InitOptions::default(), REPO_DIR, Disk { project_config: loaded }),
        Err(InitError::Config(ConfigError::InvalidWeight { .. }))
    ));
}

#[test]
fn a_checkout_at_the_root_has_no_project_directory() {
    let mut vcs = seeded_vcs("/", REPO);

    assert!(matches!(
        settle(&mut vcs, &InitOptions::default(), "/", fresh()),
        Err(InitError::NoProjectDir { repo_dir }) if repo_dir == "/"
    ));
}

#[test]
fn a_project_directory_without_a_name_is_refused() {
    let mut vcs = seeded_vcs("/main", REPO);

    assert!(matches!(
        settle(&mut vcs, &InitOptions::default(), "/main", fresh()),
        Err(InitError::NoProjectName { project_dir }) if project_dir == "/"
    ));
}

#[test]
fn an_unreadable_config_is_not_taken_for_an_absent_one() {
    let denied = ConfigError::Read {
        path: "/p".to_string(),
        source: IoError { kind: IoErrorKind::Other, message: "denied".to_string() },
    };
    assert!(existing_overrides(Err(denied)).is_err());
    let none = existing_overrides(Err(absent("/p"))).unwrap();
    assert_eq!((none.gh, none.harness, none.weight), (None, None, None));
}

#[test]
fn a_global_config_that_cannot_be_read_is_an_error() {
    let denied = ConfigError::Read {
        path: "/p".to_string(),
        source: IoError { kind: IoErrorKind::Other, message: "denied".to_string() },
    };

    assert!(load_or_default_global_config(Err(denied), "agent").is_err());
}

#[test]
fn the_fresh_global_config_is_loopback_only_and_empty() {
    let config: GlobalConfig = default_global_config("agent");

    assert_eq!(config.listen, ListenAddr::V4 { octets: [127, 0, 0, 1], port: 7420 });
    assert_eq!(config.instance_id, None);
    assert_eq!(config.harnesses.default, "agent");
    assert_eq!(
        config.harnesses.harnesses.get("agent").unwrap().command,
        ["agent", "-p", "{prompt}"]
    );
    assert_eq!(
        config.harnesses.harnesses.get("codex").unwrap().command,
        ["codex", "exec", "{prompt}"]
    );
    assert_eq!(
        config.harnesses.harnesses.get("opencode").unwrap().command,
        ["opencode", "run", "{prompt}"]
    );
    assert!(!config.harnesses.harnesses.contains_key("other"));
    assert_eq!(config.limits.max_concurrent_agents, 3);
    assert_eq!(config.cross_project_mode, CrossProjectMode::FairShare);
    assert_eq!(config.claim.heartbeat_ttl, Duration::from_secs(3600));
    assert_eq!(config.claim.heartbeat_interval, Duration::from_secs(300));
    assert_eq!(config.phase_timeout, Duration::from_secs(2700));
    assert!(config.projects.is_empty());
}

#[test]
fn memory_scopes_hold_no_slash() {
    assert_eq!(memory_scope("owner/repo-a"), "owner-repo-a");
    assert_eq!(memory_scope("a/b/c"), "a-b-c");
    assert_eq!(memory_scope(""), "");
}

#[test]
fn every_label_is_provisioned_once_in_order() {
    let mut vcs = FakeVcs::new();
    let labels = ["status:ready", "gate:review", "spec:skip"].map(str::to_string).to_vec();

    provision_labels(&mut vcs, REPO, &labels).unwrap();

    assert_eq!(vcs.labels_ensured.get(REPO).unwrap(), &labels);
}

#[test]
fn a_second_run_plans_what_is_there_already() {
    let mut vcs = seeded_vcs(REPO_DIR, REPO);
    let options = InitOptions::default();
    let locate = |probe: &Probe| {
        locate_project(
            probe,
            REPO_DIR,
            Ok(REPO_DIR.to_string()),
            Ok("/root/repo-a".to_string()),
        )
        .unwrap()
    };
    let probe = probe_repo(&mut vcs, &options, REPO_DIR).unwrap();
    let place = locate(&probe);
    let first = plan_init(
        probe,
        place,
        REPO_DIR,
        Err(absent("/root/repo-a/config.yaml")),
        Err(absent("/config.yaml")),
        "agent",
    )
    .unwrap();
    assert_eq!(first.project_path, "/root/repo-a/config.yaml");
    assert_eq!(first.workflow_path, "/root/repo-a/main/.spec-flow/workflow.yaml");
    assert_eq!(first.instructions_dir, "/root/repo-a/main/.spec-flow/instructions");
    assert_eq!(first.files.len(), 20);
    let (global, previous) = first.global.unwrap();
    assert_eq!(previous, None);
    let mut edited = first.config;
    edited.weight = Some(5);

    let probe = probe_repo(&mut vcs, &options, REPO_DIR).unwrap();
    let place = locate(&probe);
    let second = plan_init(probe, place, REPO_DIR, Ok(edited), Ok(global), "agent").unwrap();

    assert_eq!(second.config.weight, Some(5));
    assert_eq!(second.config.name, "repo-a");
    let (global, previous) = second.global.unwrap();
    assert_eq!(previous, None);
    assert_eq!(global.projects.len(), 1);
    assert_eq!(global.projects[0].project_dir, "/root/repo-a");
}

#[test]
fn an_unreadable_global_config_still_leaves_a_project_config_to_write() {
    let mut vcs = seeded_vcs(REPO_DIR, REPO);
    let probe = probe_repo(&mut vcs, &InitOptions::default(), REPO_DIR).unwrap();
    let place = locate_project(
        &probe,
        REPO_DIR,
        Ok(REPO_DIR.to_string()),
        Ok("/root/repo-a".to_string()),
    )
    .unwrap();
    let malformed = ConfigError::Parse { path: "/g".to_string(), message: "no".to_string() };

    let plan = plan_init(
        probe,
        place,
        REPO_DIR,
        Err(absent("/root/repo-a/config.yaml")),
        Err(malformed),
        "agent",
    )
    .unwrap();

    assert_eq!(plan.config.repo, REPO);
    assert!(matches!(plan.global, Err(ConfigError::Parse { .. })));
}

fn plan_for_repo_a() -> InitPlan {
    let mut vcs = seeded_vcs(REPO_DIR, REPO);
    let probe = probe_repo(&mut vcs, &InitOptions::default(), REPO_DIR).unwrap();
    let place = locate_project(
        &probe,
        REPO_DIR,
        Ok(REPO_DIR.to_string()),
        Ok("/root/repo-a".to_string()),
    )
    .unwrap();
    let loaded = Err(absent("/root/repo-a/config.yaml"));
    plan_init(probe, place, REPO_DIR, loaded, Err(absent("/config.yaml")), "agent").unwrap()
}

fn other(message: &str) -> IoError {
    IoError { kind: IoErrorKind::Other, message: message.to_string() }
}

/// Takes each step that is due, with success, until `until` is due.
fn carried_out(plan: &InitPlan, until: InitStep) -> InitProgress {
    let mut progress = InitProgress::new();
    loop {
        let step = next_step(plan, &progress);
        if step == until {
            return progress;
        }
        match step {
            InitStep::SaveProject => progress.project = Some(Ok(())),
            InitStep::SaveGlobal => progress.global = Some(Ok(())),
            InitStep::CreateDirectory => progress.directory = Some(Ok(())),
            InitStep::CreateFile(_) => {
                progress.files.push(FileAttempt { created: Ok(()), written: None });
            }
            InitStep::WriteFile(at) => progress.files[at].written = Some(Ok(())),
            InitStep::ReadWorkflow => progress.workflow = Some(Ok(vec!["P1".to_string()])),
            InitStep::CreateLabels => progress.labels = Some(Ok(())),
            InitStep::Finish => panic!("the run ended before {until:?}"),
        }
    }
}

#[test]
fn a_run_takes_its_steps_in_order_and_succeeds() {
    let plan = plan_for_repo_a();

    let mut progress = carried_out(&plan, InitStep::SaveGlobal);
    assert!(matches!(progress.project, Some(Ok(()))));
    progress.global = Some(Ok(()));
    assert_eq!(next_step(&plan, &progress), InitStep::CreateDirectory);
    progress.directory = Some(Ok(()));
    assert_eq!(next_step(&plan, &progress), InitStep::CreateFile(0));
    progress.files.push(FileAttempt { created: Ok(()), written: None });
    assert_eq!(next_step(&plan, &progress), InitStep::WriteFile(0));

    let progress = carried_out(&plan, InitStep::Finish);
    assert_eq!(progress.files.len(), 20);
    assert!(settle_init(plan, progress).is_ok());
}

#[test]
fn a_second_run_finds_every_file_and_succeeds() {
    let plan = plan_for_repo_a();
    let mut progress = carried_out(&plan, InitStep::CreateFile(0));
    for at in 0..20 {
        assert_eq!(next_step(&plan, &progress), InitStep::CreateFile(at));
        let exists = IoError { kind: IoErrorKind::AlreadyExists, message: String::new() };
        progress.files.push(FileAttempt { created: Err(exists), written: None });
    }
    assert_eq!(next_step(&plan, &progress), InitStep::ReadWorkflow);
    progress.workflow = Some(Ok(vec![]));
    progress.labels = Some(Ok(()));

    assert_eq!(next_step(&plan, &progress), InitStep::Finish);
    assert!(settle_init(plan, progress).is_ok());
}

#[test]
fn a_run_ends_where_a_config_cannot_be_written() {
    let denied =
        || ConfigError::Write { path: "/c".to_string(), source: other("denied") };
    let plan = plan_for_repo_a();
    let mut progress = InitProgress::new();
    progress.project = Some(Err(denied()));
    assert_eq!(next_step(&plan, &progress), InitStep::Finish);
    assert!(matches!(
        settle_init(plan, progress),
        Err(InitError::Config(ConfigError::Write { .. }))
    ));

    let plan = plan_for_repo_a();
    let mut progress = carried_out(&plan, InitStep::SaveGlobal);
    progress.global = Some(Err(denied()));
    assert_eq!(next_step(&plan, &progress), InitStep::Finish);
    assert!(matches!(
        settle_init(plan, progress),
        Err(InitError::Config(ConfigError::Write { .. }))
    ));
}

#[test]
fn a_run_ends_where_the_global_config_cannot_be_read_once_the_projects_is_written() {
    let mut plan = plan_for_repo_a();
    plan.global =
        Err(ConfigError::Parse { path: "/g".to_string(), message: "no".to_string() });
    let mut progress = InitProgress::new();
    assert_eq!(next_step(&plan, &progress), InitStep::SaveProject);
    progress.project = Some(Ok(()));

    assert_eq!(next_step(&plan, &progress), InitStep::Finish);
    assert!(matches!(
        settle_init(plan, progress),
        Err(InitError::Config(ConfigError::Parse { .. }))
    ));
}

#[test]
fn a_run_ends_where_a_file_cannot_be_made() {
    let plan = plan_for_repo_a();
    let mut progress = carried_out(&plan, InitStep::CreateDirectory);
    progress.directory = Some(Err(other("full")));
    assert_eq!(next_step(&plan, &progress), InitStep::Finish);
    assert!(matches!(
        settle_init(plan, progress),
        Err(InitError::Scaffold(ScaffoldError::Write { path, .. }))
            if path == "/root/repo-a/main/.spec-flow/instructions"
    ));

    let plan = plan_for_repo_a();
    let mut progress = carried_out(&plan, InitStep::CreateFile(0));
    progress.files.push(FileAttempt { created: Err(other("full")), written: None });
    assert_eq!(next_step(&plan, &progress), InitStep::Finish);
    assert!(matches!(
        settle_init(plan, progress),
        Err(InitError::Scaffold(ScaffoldError::Write { path, source }))
            if path == "/root/repo-a/main/.spec-flow/workflow.yaml" && source.message == "full"
    ));

    let plan = plan_for_repo_a();
    let mut progress = carried_out(&plan, InitStep::WriteFile(1));
    progress.files[1].written = Some(Err(other("full")));
    assert_eq!(next_step(&plan, &progress), InitStep::Finish);
    assert!(matches!(
        settle_init(plan, progress),
        Err(InitError::Scaffold(ScaffoldError::Write { path, .. }))
            if path == "/root/repo-a/main/.spec-flow/instructions/setup.md"
    ));
}

#[test]
fn a_run_ends_where_the_workflow_or_its_labels_fail() {
    let plan = plan_for_repo_a();
    let mut progress = carried_out(&plan, InitStep::ReadWorkflow);
    progress.workflow = Some(Err(WorkflowFailure::Unreadable(other("gone"))));
    assert_eq!(next_step(&plan, &progress), InitStep::Finish);
    assert!(matches!(
        settle_init(plan, progress),
        Err(InitError::ReadWorkflow { path, source })
            if path == "/root/repo-a/main/.spec-flow/workflow.yaml" && source.message == "gone"
    ));

    let plan = plan_for_repo_a();
    let mut progress = carried_out(&plan, InitStep::ReadWorkflow);
    progress.workflow = Some(Err(WorkflowFailure::Malformed("line 1".to_string())));
    assert!(matches!(
        settle_init(plan, progress),
        Err(InitError::Workflow { message, .. }) if message == "line 1"
    ));

    let plan = plan_for_repo_a();
    let mut progress = carried_out(&plan, InitStep::CreateLabels);
    progress.labels =
        Some(Err(VcsError::BinaryNotFound { binary: "gh".to_string() }));
    assert_eq!(next_step(&plan, &progress), InitStep::Finish);
    assert!(matches!(
        settle_init(plan, progress),
        Err(InitError::Vcs(VcsError::BinaryNotFound { .. }))
    ));
}
