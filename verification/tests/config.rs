//! Where config files live, and what is refused in them.

use spec_flow::config::{
    check_project_config, global_config_path, project_config_path, Binaries, ConfigError,
    GhConfig, ListenAddr, MergeMode, ProjectConfig,
};

fn sample_project_config(weight: Option<u32>) -> ProjectConfig {
    ProjectConfig {
        name: "repo-a".to_string(),
        repo: "owner/repo-a".to_string(),
        project_dir: "/abs/path/to/repo-a".to_string(),
        local_path: "/abs/path/to/repo-a/main".to_string(),
        default_branch: "main".to_string(),
        merge_mode: MergeMode::Native,
        gh: Some(GhConfig { host: "github.com".to_string(), account: "me".to_string() }),
        harness: Some("codex".to_string()),
        weight,
        index_path: "/abs/path/to/repo-a/index".to_string(),
        memory_scope: "owner-repo-a".to_string(),
    }
}

#[test]
fn project_config_path_is_project_dir_slash_config_yaml() {
    let project_dir = "/abs/path/to/repo-a";
    assert_eq!(project_config_path(project_dir), "/abs/path/to/repo-a/config.yaml");
}

#[test]
fn the_global_config_is_below_the_home_directory() {
    assert_eq!(global_config_path(Some("/home/me")).unwrap(), "/home/me/.config/spec-flow/config.yaml");
    assert!(matches!(global_config_path(None), Err(ConfigError::HomeDirUnavailable)));
}

#[test]
fn a_zero_weight_is_refused() {
    let path = "/abs/path/to/repo-a/config.yaml";

    assert!(matches!(
        check_project_config(path, sample_project_config(Some(0))),
        Err(ConfigError::InvalidWeight { path: at }) if at == path
    ));
    for weight in [None, Some(1), Some(u32::MAX)] {
        let config = check_project_config(path, sample_project_config(weight)).unwrap();
        assert_eq!(config, sample_project_config(weight));
    }
}

#[test]
fn binaries_default_to_their_bare_names() {
    assert_eq!(
        Binaries::default(),
        Binaries { git: "git".to_string(), gh: "gh".to_string() }
    );
}

#[test]
fn a_loopback_address_is_127_slash_8_or_one() {
    for (octets, loopback) in [
        ([127, 0, 0, 1], true),
        ([127, 255, 255, 255], true),
        ([128, 0, 0, 1], false),
        ([0, 0, 0, 127], false),
    ] {
        assert_eq!(ListenAddr::V4 { octets, port: 0 }.is_loopback(), loopback);
    }
    for (segments, loopback) in [
        ([0, 0, 0, 0, 0, 0, 0, 1], true),
        ([0; 8], false),
        ([0, 0, 0, 0, 0, 0xffff, 0x7f00, 1], false),
    ] {
        assert_eq!(ListenAddr::V6 { segments, port: 0 }.is_loopback(), loopback);
    }
}
