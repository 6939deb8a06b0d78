//! The files that a repo is given.

use spec_flow::failure::{IoError, IoErrorKind};
use spec_flow::scaffold::{
    instruction_placeholder, instructions_dir, scaffold_files, settle_creation, workflow_path,
    Creation, ScaffoldError, DEFAULT_WORKFLOW_YAML, INSTRUCTION_POINTS,
};
use spec_flow::workflow::{label_vocabulary, PhaseLabels, WorkflowLabels};

#[test]
fn default_workflow_yaml_is_valid_yaml() {
    let parsed: serde_yaml::Value =
        serde_yaml::from_str(DEFAULT_WORKFLOW_YAML).unwrap();

    let mapping = parsed.as_mapping().unwrap();
    for key in ["labels", "roborev", "spec", "review_panel", "phases"] {
        assert!(
            mapping.contains_key(serde_yaml::Value::from(key)),
            "default workflow is missing the `{key}` block"
        );
    }
}

#[test]
fn instruction_points_are_unique() {
    let mut names: Vec<&str> =
        INSTRUCTION_POINTS.iter().map(|(point, _)| *point).collect();
    let total = names.len();
    names.sort_unstable();
    names.dedup();

    assert_eq!(names.len(), total);
}

#[test]
fn scaffolds_the_default_workflow_when_absent() {
    let files = scaffold_files("/projects/repo-a/main");

    assert_eq!(files[0].path, "/projects/repo-a/main/.spec-flow/workflow.yaml");
    assert_eq!(files[0].path, workflow_path("/projects/repo-a/main"));
    assert_eq!(files[0].contents, DEFAULT_WORKFLOW_YAML);
}

#[test]
fn materializes_every_instruction_point() {
    let files = scaffold_files("/repo");

    assert_eq!(files.len(), INSTRUCTION_POINTS.len() + 1);
    for ((point, purpose), file) in INSTRUCTION_POINTS.iter().zip(&files[1..]) {
        assert_eq!(file.path, format!("{}/{}.md", instructions_dir("/repo"), point));
        assert_eq!(file.contents, instruction_placeholder(point, purpose));
        assert!(
            file.contents.contains(point),
            "instruction file for `{point}` does not name its point"
        );
    }
}

#[test]
fn a_seeded_instruction_file_says_how_to_override_it() {
    let text = instruction_placeholder("fix", "the fix loop");

    assert!(text.starts_with("# `fix` instructions\n\nInjection point for the fix loop ("));
    assert!(text.contains("`<!-- mode: replace -->`"));
    assert!(text.ends_with("\n"));
}

#[test]
fn never_clobbers_an_edited_workflow() {
    let exists = IoError { kind: IoErrorKind::AlreadyExists, message: String::new() };

    assert_eq!(settle_creation("/repo/.spec-flow/workflow.yaml", Err(exists)).unwrap(), Creation::Kept);
}

#[test]
fn a_new_file_is_written_and_any_other_failure_reported() {
    assert_eq!(settle_creation("/f", Ok(())).unwrap(), Creation::Created);
    let denied = IoError { kind: IoErrorKind::Other, message: "denied".to_string() };
    assert!(matches!(
        settle_creation("/f", Err(denied)),
        Err(ScaffoldError::Write { path, source }) if path == "/f" && source.message == "denied"
    ));
}

#[test]
fn every_label_of_a_workflow_is_listed() {
    let labels = WorkflowLabels {
        statuses: ["ready", "done"].map(str::to_string).to_vec(),
        gate_prefix: "gate:".to_string(),
        phases: vec![
            PhaseLabels {
                id: "design".to_string(),
                status: Some("design".to_string()),
                approval_label: Some("approved:design".to_string()),
            },
            PhaseLabels { id: "finalize".to_string(), status: None, approval_label: None },
        ],
        skip_label: "spec:skip".to_string(),
    };

    assert_eq!(
        label_vocabulary(&labels),
        [
            "status:ready",
            "status:done",
            "gate:design",
            "approved:design",
            "gate:finalize",
            "spec:skip",
        ]
    );
}
