//! Composing an agent's prompt.

use spec_flow::failure::{IoError, IoErrorKind};
use spec_flow::instructions::{
    compose, instruction_override_path, interpolate, read_instruction_override, InstructionError,
    VAR_BRANCH, VAR_DEFAULT_BRANCH, VAR_ISSUE_NUMBER, VAR_SPECS_DIR, VAR_WORKTREE_PATH,
};
use spec_flow::maps::TextMap;

fn vars(pairs: &[(&str, &str)]) -> TextMap<String> {
    let mut variables = TextMap::new();
    for (name, value) in pairs {
        variables.insert(name, value.to_string());
    }
    variables
}

#[test]
fn compose_without_override_returns_interpolated_base() {
    let base = "Hello {name}.";

    let result = compose(base, None, &vars(&[("name", "world")]));

    assert_eq!(result, "Hello world.");
}

#[test]
fn compose_append_mode_appends_override_after_base_by_default() {
    let base = "BASE {issue_number}";
    let override_text = "EXTRA {branch}";

    let result = compose(
        base,
        Some(override_text),
        &vars(&[(VAR_ISSUE_NUMBER, "42"), (VAR_BRANCH, "feature/x")]),
    );

    assert_eq!(result, "BASE 42\n\nEXTRA feature/x");
}

#[test]
fn compose_replace_mode_supersedes_base_entirely() {
    let base = "BASE TEXT should not appear";
    let override_text = "<!-- mode: replace -->\nNEW {issue_number} TEXT";

    let result = compose(
        base,
        Some(override_text),
        &vars(&[(VAR_ISSUE_NUMBER, "7")]),
    );

    assert_eq!(result, "NEW 7 TEXT");
}

#[test]
fn interpolate_substitutes_all_five_known_variable_names() {
    let text = format!(
        "{{{}}} {{{}}} {{{}}} {{{}}} {{{}}}",
        VAR_ISSUE_NUMBER, VAR_WORKTREE_PATH, VAR_BRANCH, VAR_SPECS_DIR, VAR_DEFAULT_BRANCH
    );
    let variables = vars(&[
        (VAR_ISSUE_NUMBER, "42"),
        (VAR_WORKTREE_PATH, "/repo/issue-42"),
        (VAR_BRANCH, "issue-42-widget"),
        (VAR_SPECS_DIR, "specs/"),
        (VAR_DEFAULT_BRANCH, "main"),
    ]);

    let result = interpolate(&text, &variables);

    assert_eq!(result, "42 /repo/issue-42 issue-42-widget specs/ main");
}

#[test]
fn compose_replace_mode_tolerates_whitespace_around_the_directive() {
    let override_text = "   <!-- mode: replace -->   \nNEW TEXT";

    let result = compose("BASE", Some(override_text), &TextMap::new());

    assert_eq!(result, "NEW TEXT");
}

#[test]
fn compose_replace_mode_handles_a_crlf_directive_line() {
    let override_text = "<!-- mode: replace -->\r\nNEW TEXT";

    let result = compose("BASE", Some(override_text), &TextMap::new());

    assert_eq!(result, "NEW TEXT");
}

#[test]
fn compose_replace_mode_tolerates_a_leading_utf8_bom() {
    let override_text = "\u{feff}<!-- mode: replace -->\nNEW TEXT";

    let result = compose("BASE", Some(override_text), &TextMap::new());

    assert_eq!(result, "NEW TEXT");
}

#[test]
fn compose_treats_a_near_miss_directive_as_plain_append_text() {
    let override_text = "<!-- mode: Replace -->\nBODY";

    let result = compose("BASE", Some(override_text), &TextMap::new());

    assert_eq!(result, "BASE\n\n<!-- mode: Replace -->\nBODY");
}

#[test]
fn compose_does_not_form_a_placeholder_across_the_base_override_boundary()
{
    let base = "prefix {";
    let override_text = "name} suffix";

    let result = compose(
        base,
        Some(override_text),
        &vars(&[("name", "SHOULD_NOT_APPEAR")]),
    );

    assert_eq!(result, "prefix {\n\nname} suffix");
    assert!(!result.contains("SHOULD_NOT_APPEAR"));
}

#[test]
fn interpolate_substitutes_a_present_variable() {
    let result =
        interpolate("id={issue_number}", &vars(&[("issue_number", "9")]));

    assert_eq!(result, "id=9");
}

#[test]
fn interpolate_leaves_an_unmatched_placeholder_as_literal_text() {
    let result =
        interpolate("see {architecture_decision}", &TextMap::new());

    assert_eq!(result, "see {architecture_decision}");
}

#[test]
fn interpolate_substitutes_a_variable_appearing_twice() {
    let result = interpolate("{x}-{x}", &vars(&[("x", "Y")]));

    assert_eq!(result, "Y-Y");
}

#[test]
fn interpolate_does_not_rescan_a_substituted_values_own_placeholder_text()
{
    let result = interpolate("{a}", &vars(&[("a", "{b}"), ("b", "REAL")]));

    assert_eq!(result, "{b}");
}

#[test]
fn interpolate_treats_an_unclosed_brace_as_literal_text() {
    let result =
        interpolate("{issue_number", &vars(&[("issue_number", "9")]));

    assert_eq!(result, "{issue_number");
}


fn failure(kind: IoErrorKind) -> IoError {
    IoError { kind, message: "no".to_string() }
}

#[test]
fn read_instruction_override_returns_none_when_absent() {
    let path = instruction_override_path("/repo", "groom");

    let result = read_instruction_override(&path, Err(failure(IoErrorKind::NotFound))).unwrap();

    assert_eq!(result, None);
}

#[test]
fn read_instruction_override_returns_contents_when_present() {
    let path = instruction_override_path("/repo", "groom");

    let result = read_instruction_override(&path, Ok("custom text".to_string())).unwrap();

    assert_eq!(result, Some("custom text".to_string()));
}

#[test]
fn read_instruction_override_propagates_non_not_found_errors() {
    let path = instruction_override_path("/repo", "groom");

    let error = read_instruction_override(&path, Err(failure(IoErrorKind::Other))).unwrap_err();

    assert!(matches!(error, InstructionError::Read { .. }));
}

#[test]
fn an_override_lives_beside_the_workflow_file() {
    assert_eq!(
        instruction_override_path("/repo", "sync-ci"),
        "/repo/.spec-flow/instructions/sync-ci.md"
    );
}

#[test]
fn an_empty_placeholder_name_is_looked_up_like_any_other() {
    assert_eq!(interpolate("a{}b", &TextMap::new()), "a{}b");
    assert_eq!(interpolate("a{}b", &vars(&[("", "X")])), "aXb");
}

#[test]
fn a_directive_alone_replaces_the_base_with_nothing() {
    assert_eq!(compose("BASE", Some("<!-- mode: replace -->"), &TextMap::new()), "");
}
