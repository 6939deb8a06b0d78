//! What to launch for a phase, and what is running.

use spec_flow::config::HarnessConfig;
use spec_flow::failure::{IoError, IoErrorKind};
use spec_flow::spawner::template::interpolate_command;
use spec_flow::spawner::{
    ExitStatus, Poll, ProcessSpawner, SpawnError, SpawnKey, SpawnToken,
};
use spec_flow::time::Timestamp;

fn harness(command: &[&str]) -> HarnessConfig {
    HarnessConfig {
        command: command.iter().map(|s| s.to_string()).collect(),
    }
}

#[test]
fn substitutes_every_placeholder_in_every_argument() {
    let harness = harness(&["agent", "-p", "{prompt}"]);
    let token = SpawnToken::generate(4242, 1_700_000_000_000_000_000, 7);

    let argv = interpolate_command(
        &harness,
        "do the thing",
        &token,
        "/repo-a/issue-42-widget",
    )
    .unwrap();

    assert_eq!(
        argv,
        vec![
            "agent".to_string(),
            "-p".to_string(),
            "do the thing".to_string(),
        ]
    );
}

#[test]
fn substitutes_spawn_token_and_worktree_placeholders() {
    let harness = harness(&[
        "codex",
        "--cwd",
        "{worktree}",
        "--token",
        "{spawn_token}",
        "{prompt}",
    ]);
    let token = SpawnToken::generate(4242, 1_700_000_000_000_000_000, 7);

    let argv = interpolate_command(
        &harness,
        "prompt text",
        &token,
        "/repo-a/issue-42-widget",
    )
    .unwrap();

    assert_eq!(
        argv,
        vec![
            "codex".to_string(),
            "--cwd".to_string(),
            "/repo-a/issue-42-widget".to_string(),
            "--token".to_string(),
            token.as_str().to_string(),
            "prompt text".to_string(),
        ]
    );
}

#[test]
fn substitutes_a_placeholder_appearing_twice_in_one_argument() {
    let harness = harness(&["{prompt} / {prompt}"]);
    let token = SpawnToken::generate(4242, 1_700_000_000_000_000_000, 7);

    let argv = interpolate_command(
        &harness,
        "echo",
        &token,
        "/repo-a/issue-1",
    )
    .unwrap();

    assert_eq!(argv, vec!["echo / echo".to_string()]);
}

#[test]
fn leaves_arguments_without_placeholders_untouched() {
    let harness = harness(&["agent", "--dangerously-skip-permissions"]);
    let token = SpawnToken::generate(4242, 1_700_000_000_000_000_000, 7);

    let argv = interpolate_command(
        &harness,
        "prompt",
        &token,
        "/repo-a/issue-1",
    )
    .unwrap();

    assert_eq!(
        argv,
        vec![
            "agent".to_string(),
            "--dangerously-skip-permissions".to_string(),
        ]
    );
}

#[test]
fn empty_command_template_is_an_error() {
    let harness = HarnessConfig { command: Vec::new() };
    let token = SpawnToken::generate(4242, 1_700_000_000_000_000_000, 7);

    let error = interpolate_command(
        &harness,
        "prompt",
        &token,
        "/repo-a/issue-1",
    )
    .unwrap_err();

    assert!(matches!(error, SpawnError::EmptyCommand));
}

#[test]
fn a_placeholders_own_literal_text_in_another_values_substitution_is_not_re_substituted()
 {
    let harness = harness(&["{prompt}", "{worktree}", "{spawn_token}"]);
    let token = SpawnToken::generate(4242, 1_700_000_000_000_000_000, 7);
    let prompt =
        "quoting {worktree} and {spawn_token} and even {prompt} itself";

    let argv = interpolate_command(
        &harness,
        prompt,
        &token,
        "/repo-a/issue-1",
    )
    .unwrap();

    assert_eq!(
        argv,
        vec![
            prompt.to_string(),
            "/repo-a/issue-1".to_string(),
            token.as_str().to_string(),
        ]
    );
}

#[test]
fn worktree_path_is_rendered_as_a_plain_string() {
    let harness = harness(&["{worktree}"]);
    let token = SpawnToken::generate(4242, 1_700_000_000_000_000_000, 7);
    let worktree = "/abs/repo-a/issue-7-cache";

    let argv =
        interpolate_command(&harness, "p", &token, worktree).unwrap();

    assert_eq!(argv, vec!["/abs/repo-a/issue-7-cache".to_string()]);
}

fn sh_harness(script: &str) -> HarnessConfig {
    HarnessConfig {
        command: vec![
            "sh".to_string(),
            "-c".to_string(),
            script.to_string(),
        ],
    }
}

fn key(sub_id: Option<&str>) -> SpawnKey {
    SpawnKey {
        project: "repo-a".to_string(),
        issue_number: 42,
        phase: "implement".to_string(),
        sub_id: sub_id.map(str::to_string),
    }
}

fn launch(
    spawner: &mut ProcessSpawner,
    key: SpawnKey,
    harness: &HarnessConfig,
    outcome: Result<(), IoError>,
) -> Result<SpawnToken, SpawnError> {
    let token = SpawnToken::generate(4242, 1_700_000_000_000_000_000, 7);
    let launch = spawner.try_spawn(key, harness, "prompt", token, "/repo-a/issue-42")?;
    spawner.finish_spawn(launch, Timestamp::from_unix_secs(100).unwrap(), outcome)
}

fn exited(code: i32) -> Poll {
    Poll::Exited(ExitStatus { code: Some(code) })
}

#[test]
fn spawn_token_generate_produces_distinct_tokens() {
    let first = SpawnToken::generate(4242, 1_700_000_000_000_000_000, 0);
    let second = SpawnToken::generate(4242, 1_700_000_000_000_000_000, 1);

    assert_ne!(first, second);
}

#[test]
fn try_spawn_tracks_a_live_entry_for_its_key() {
    let mut spawner = ProcessSpawner::new();
    let key = key(None);

    let token = launch(&mut spawner, key.clone(), &sh_harness("sleep 1"), Ok(()))
        .unwrap();

    assert!(spawner.is_running(&key));
    let entry = spawner.get(&key).unwrap();
    assert_eq!(entry.spawn_token, token);
    assert_eq!(entry.worktree_cwd, "/repo-a/issue-42");
}

#[test]
fn try_spawn_refuses_a_second_spawn_for_a_still_live_key() {
    let mut spawner = ProcessSpawner::new();
    let key = key(None);

    launch(&mut spawner, key.clone(), &sh_harness("sleep 1"), Ok(()))
        .unwrap();

    let error = launch(&mut spawner, key.clone(), &sh_harness("sleep 1"), Ok(()))
        .unwrap_err();

    assert!(matches!(error, SpawnError::AlreadyRunning { .. }));
    assert_eq!(spawner.len(), 1);
}

#[test]
fn distinct_sub_ids_are_independent_keys_and_may_both_spawn() {
    let mut spawner = ProcessSpawner::new();

    launch(&mut spawner, key(Some("spec-lens")), &sh_harness("sleep 1"), Ok(()))
        .unwrap();
    launch(&mut spawner, key(Some("security-lens")), &sh_harness("sleep 1"), Ok(()))
        .unwrap();

    assert_eq!(spawner.len(), 2);
}

#[test]
fn reap_finished_reports_the_real_exit_status_and_stops_tracking() {
    let mut spawner = ProcessSpawner::new();
    let key = key(None);

    launch(&mut spawner, key.clone(), &sh_harness("sleep 0.05 && exit 3"), Ok(()))
        .unwrap();

    let finished = spawner.reap_finished(&vec![(key.clone(), exited(3))]);

    assert_eq!(finished.len(), 1);
    assert_eq!(finished[0].0, key);
    assert_eq!(finished[0].1.code, Some(3));
    assert!(!spawner.is_running(&key));
    assert!(spawner.is_empty());
}

#[test]
fn reap_finished_leaves_a_still_running_process_tracked() {
    let mut spawner = ProcessSpawner::new();
    let key = key(None);

    launch(&mut spawner, key.clone(), &sh_harness("sleep 1"), Ok(()))
        .unwrap();

    let finished = spawner.reap_finished(&vec![(key.clone(), Poll::Running)]);

    assert!(finished.is_empty());
    assert!(spawner.is_running(&key));
}

#[test]
fn reaping_a_finished_process_allows_respawning_its_key() {
    let mut spawner = ProcessSpawner::new();
    let key = key(None);

    launch(&mut spawner, key.clone(), &sh_harness("exit 0"), Ok(()))
        .unwrap();
    spawner.reap_finished(&vec![(key.clone(), exited(0))]);

    let result = launch(&mut spawner, key.clone(), &sh_harness("sleep 1"), Ok(()));

    assert!(result.is_ok());
}

#[test]
fn try_spawn_reports_an_empty_harness_command_as_an_error() {
    let mut spawner = ProcessSpawner::new();

    let error = launch(&mut spawner, key(None), &HarnessConfig { command: Vec::new() }, Ok(()))
        .unwrap_err();

    assert!(matches!(error, SpawnError::EmptyCommand));
    assert!(spawner.is_empty());
}

#[test]
fn try_spawn_reports_a_missing_binary_as_a_spawn_error() {
    let mut spawner = ProcessSpawner::new();
    let harness = HarnessConfig {
        command: vec![
            "definitely-not-a-real-binary".to_string(),
            "{prompt}".to_string(),
        ],
    };

    let missing = IoError { kind: IoErrorKind::NotFound, message: "no such file".to_string() };
    let error = launch(&mut spawner, key(None), &harness, Err(missing))
        .unwrap_err();

    assert!(matches!(error, SpawnError::Spawn { .. }));
}

#[test]
fn a_failed_launch_leaves_nothing_tracked() {
    let mut spawner = ProcessSpawner::new();
    let refused = IoError { kind: IoErrorKind::Other, message: "refused".to_string() };

    let error = launch(&mut spawner, key(None), &sh_harness("exit 0"), Err(refused)).unwrap_err();

    assert!(matches!(error, SpawnError::Spawn { program, source }
        if program == "sh" && source.message == "refused"));
    assert!(spawner.is_empty());
    assert!(launch(&mut spawner, key(None), &sh_harness("exit 0"), Ok(())).is_ok());
}

#[test]
fn a_process_whose_status_cannot_be_read_stays_tracked() {
    let mut spawner = ProcessSpawner::new();
    launch(&mut spawner, key(Some("a")), &sh_harness(""), Ok(())).unwrap();
    launch(&mut spawner, key(Some("b")), &sh_harness(""), Ok(())).unwrap();
    launch(&mut spawner, key(Some("c")), &sh_harness(""), Ok(())).unwrap();

    let killed = Poll::Exited(ExitStatus { code: None });
    let finished = spawner.reap_finished(&vec![
        (key(Some("a")), Poll::Unreadable),
        (key(Some("c")), killed),
        (key(Some("d")), exited(1)),
    ]);

    assert_eq!(finished, vec![(key(Some("c")), ExitStatus { code: None })]);
    assert_eq!(spawner.len(), 2);
    assert!(spawner.is_running(&key(Some("a"))));
    assert!(spawner.is_running(&key(Some("b"))));
    assert!(spawner.get(&key(Some("c"))).is_none());
}

#[test]
fn an_already_running_key_is_refused_before_an_empty_command() {
    let mut spawner = ProcessSpawner::new();
    launch(&mut spawner, key(None), &sh_harness(""), Ok(())).unwrap();

    let error =
        launch(&mut spawner, key(None), &HarnessConfig { command: Vec::new() }, Ok(())).unwrap_err();

    assert!(matches!(error, SpawnError::AlreadyRunning { key: refused } if refused == key(None)));
}

#[test]
fn tokens_are_hexadecimal_parts() {
    assert_eq!(SpawnToken::generate(0, 0, 0).as_str(), "0-0-0");
    assert_eq!(SpawnToken::generate(255, 4096, 10).as_str(), "ff-1000-a");
    assert_eq!(
        SpawnToken::generate(u32::MAX, u128::MAX, u64::MAX).as_str(),
        "ffffffff-ffffffffffffffffffffffffffffffff-ffffffffffffffff"
    );
}

#[test]
fn an_overlapping_brace_does_not_hide_a_placeholder() {
    let harness = harness(&["{{prompt}}", "{prompt", "prompt}"]);
    let token = SpawnToken::generate(1, 2, 3);

    let argv = interpolate_command(&harness, "p", &token, "/w").unwrap();

    assert_eq!(argv, vec!["{p}", "{prompt", "prompt}"]);
}
