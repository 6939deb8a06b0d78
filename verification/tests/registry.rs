//! The list of projects that a daemon manages.

use spec_flow::config::{
    Binaries, ClaimConfig, CrossProjectMode, GlobalConfig, HarnessesConfig, Limits, ListenAddr,
    ProjectPointer,
};
use spec_flow::maps::TextMap;
use spec_flow::registry::{
    add_project, find_project, find_project_containing, list_projects, remove_project, AddOutcome,
};
use spec_flow::time::Duration;

fn empty_config() -> GlobalConfig {
    GlobalConfig {
        listen: ListenAddr::V4 { octets: [127, 0, 0, 1], port: 7420 },
        instance_id: None,
        binaries: Binaries::default(),
        harnesses: HarnessesConfig {
            default: "agent".to_string(),
            harnesses: TextMap::new(),
        },
        limits: Limits { max_concurrent_agents: 3 },
        cross_project_mode: CrossProjectMode::FairShare,
        claim: ClaimConfig {
            heartbeat_ttl: Duration::from_secs(3600),
            heartbeat_interval: Duration::from_secs(300),
        },
        phase_timeout: Duration::from_secs(45 * 60),
        projects: Vec::new(),
    }
}

#[test]
fn add_project_appends_when_new() {
    let mut config = empty_config();

    let outcome = add_project(
        &mut config,
        ProjectPointer {
            name: "repo-a".to_string(),
            project_dir: "/abs/repo-a".to_string(),
        },
    );

    assert_eq!(outcome, AddOutcome::Added);
    assert_eq!(list_projects(&config).len(), 1);
}

#[test]
fn add_project_is_idempotent_on_name() {
    let mut config = empty_config();
    add_project(
        &mut config,
        ProjectPointer {
            name: "repo-a".to_string(),
            project_dir: "/abs/repo-a".to_string(),
        },
    );

    let outcome = add_project(
        &mut config,
        ProjectPointer {
            name: "repo-a".to_string(),
            project_dir: "/abs/repo-a-moved".to_string(),
        },
    );

    assert_eq!(outcome, AddOutcome::Updated);
    assert_eq!(list_projects(&config).len(), 1);
    assert_eq!(
        find_project(&config, "repo-a").unwrap().project_dir,
        "/abs/repo-a-moved"
    );
}

#[test]
fn remove_project_drops_matching_row() {
    let mut config = empty_config();
    add_project(
        &mut config,
        ProjectPointer {
            name: "repo-a".to_string(),
            project_dir: "/abs/repo-a".to_string(),
        },
    );

    assert!(remove_project(&mut config, "repo-a"));
    assert!(list_projects(&config).is_empty());
    assert!(!remove_project(&mut config, "repo-a"));
}

#[test]
fn find_project_containing_matches_a_descendant_path() {
    let mut config = empty_config();
    add_project(
        &mut config,
        ProjectPointer {
            name: "repo-a".to_string(),
            project_dir: "/abs/repo-a".to_string(),
        },
    );

    let found = find_project_containing(
        &config,
        "/abs/repo-a/issue-42-widget",
    );

    assert_eq!(found.map(|p| p.name.as_str()), Some("repo-a"));
}

fn pointer(name: &str, project_dir: &str) -> ProjectPointer {
    ProjectPointer { name: name.to_string(), project_dir: project_dir.to_string() }
}

#[test]
fn registering_twice_changes_nothing_the_second_time() {
    let mut config = empty_config();
    add_project(&mut config, pointer("a", "/abs/a"));
    add_project(&mut config, pointer("b", "/abs/b"));

    assert_eq!(add_project(&mut config, pointer("a", "/abs/a")), AddOutcome::Updated);

    assert_eq!(list_projects(&config), [pointer("a", "/abs/a"), pointer("b", "/abs/b")]);
}

#[test]
fn removing_a_project_keeps_the_others_in_order() {
    let mut config = empty_config();
    for name in ["a", "b", "c"] {
        add_project(&mut config, pointer(name, "/abs"));
    }

    assert!(remove_project(&mut config, "b"));

    assert_eq!(list_projects(&config), [pointer("a", "/abs"), pointer("c", "/abs")]);
    assert!(find_project(&config, "b").is_none());
}

#[test]
fn a_directory_with_the_same_beginning_is_not_contained() {
    let mut config = empty_config();
    add_project(&mut config, pointer("a", "/abs/repo-a"));

    assert!(find_project_containing(&config, "/abs/repo-a-moved/main").is_none());
    assert!(find_project_containing(&config, "/abs").is_none());
    assert!(find_project_containing(&config, "/abs/repo-a").is_some());
    assert!(find_project_containing(&config, "/abs/./repo-a//main").is_some());
}

#[test]
fn the_first_of_several_containing_projects_is_found() {
    let mut config = empty_config();
    add_project(&mut config, pointer("outer", "/abs"));
    add_project(&mut config, pointer("inner", "/abs/inner"));

    let found = find_project_containing(&config, "/abs/inner/main");

    assert_eq!(found.map(|p| p.name.as_str()), Some("outer"));
}
