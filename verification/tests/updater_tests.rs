use env_coach::codegen::{
    extract_code_blocks, extract_java_class_name, extract_language_from_line,
    guess_filename_for_language, get_primary_language,
};
use env_coach::config::{BacklogItem, ItemType, Priority, Project, Status};
use env_coach::docs::{changelog_with_task, readme_with_task};
use env_coach::updater::{AutoUpdater, UpdateContext, UpdateOutcome};

fn create_test_project() -> Project {
    Project::new(
        "TestProject".to_string(),
        "A test project".to_string(),
        None,
        vec![],
    )
}

#[test]
fn test_process_llm_requirement_analysis_valid_json() {
    let project = create_test_project();
    let mut updater = AutoUpdater::new(project);
    let llm_response_json = r#"{"user_stories": [{"title": "Login","story": "As a user...","priority": "High","effort": 3,"acceptance_criteria": ["AC1"]},{"title": "Signup","story": "As a new user...","priority": "Critical","effort": 5,"acceptance_criteria": ["AC1"]}]}"#;
    updater
        .process_llm_response(llm_response_json, UpdateContext::RequirementAnalysis, false, false)
        .unwrap();
    let updated_project = updater.get_project();
    assert_eq!(updated_project.backlog.len(), 2);
    let story1 = updated_project.backlog.get(0).unwrap();
    assert_eq!(story1.id, "US-001");
    assert_eq!(story1.title, "Login");
    assert_eq!(story1.priority, Priority::High);
    assert_eq!(story1.status, Status::Todo);
    assert_eq!(story1.item_type, ItemType::UserStory);
    let story2 = updated_project.backlog.get(1).unwrap();
    assert_eq!(story2.id, "US-002");
    assert_eq!(story2.title, "Signup");
    assert_eq!(story2.priority, Priority::Critical);
}

#[test]
fn test_process_llm_requirement_analysis_empty_stories_array() {
    let project = create_test_project();
    let mut updater = AutoUpdater::new(project);
    let llm_response_json = r#"{ "user_stories": [] }"#;
    updater
        .process_llm_response(llm_response_json, UpdateContext::RequirementAnalysis, false, false)
        .unwrap();
    assert_eq!(updater.get_project().backlog.len(), 0);
}

#[test]
fn test_process_llm_requirement_analysis_malformed_json_fallback() {
    let project1 = create_test_project();
    let mut updater1 = AutoUpdater::new(project1);
    let llm_response_malformed_json = r#"{ "user_stories": [ { "title": "Test" ... ] }"#;
    updater1
        .process_llm_response(
            llm_response_malformed_json,
            UpdateContext::RequirementAnalysis,
            false,
            false,
        )
        .unwrap();
    assert_eq!(updater1.get_project().backlog.len(), 0);

    let project2 = create_test_project();
    let mut updater2 = AutoUpdater::new(project2);
    let llm_response_text_with_story = "Some text. As a user, I want a feature. More text.";
    updater2
        .process_llm_response(
            llm_response_text_with_story,
            UpdateContext::RequirementAnalysis,
            false,
            false,
        )
        .unwrap();
    assert_eq!(updater2.get_project().backlog.len(), 1);
}

#[test]
fn test_assist_task_json_with_only_general_advice_no_fallback() {
    let project = create_test_project();
    let mut updater = AutoUpdater::new(project);
    let task_id = "US-789".to_string();
    let llm_response_json_advice_only = r#"{"suggestions": [{"type": "general_advice","content": "Refactor auth."}],"overall_summary": "Advice."}"#;
    let result = updater.process_llm_response(
        llm_response_json_advice_only,
        UpdateContext::CodeGeneration(task_id),
        false,
        false,
    );
    assert!(result.is_ok(), "Processing JSON with only advice failed");
}

#[test]
fn test_requirement_analysis_reads_full_stories() {
    let project = create_test_project();
    let mut updater = AutoUpdater::new(project);

    let llm_response = r#"
    {
        "user_stories": [
            {
                "title": "User Interface",
                "story": "As a user, I want an interactive command line interface so that I can play the game",
                "priority": "high",
                "effort": 3,
                "acceptance_criteria": [
                    "Display game board clearly",
                    "Accept user input for moves",
                    "Show game status"
                ]
            },
            {
                "title": "Game Logic",
                "story": "As a user, I want the game to detect wins and draws so that I know when the game ends",
                "priority": "medium",
                "effort": 5,
                "acceptance_criteria": [
                    "Detect win conditions",
                    "Detect draw conditions",
                    "Display game results"
                ]
            }
        ]
    }
    "#;

    let result =
        updater.process_llm_response(llm_response, UpdateContext::RequirementAnalysis, false, false);
    assert!(result.is_ok());

    let updated_project = updater.get_project();
    assert_eq!(updated_project.backlog.len(), 2);

    let first_story = &updated_project.backlog[0];
    assert_eq!(first_story.title, "User Interface");
    assert_eq!(first_story.id, "US-001");
    assert!(matches!(first_story.priority, Priority::Medium)); // unknown lowercase label falls back
    assert_eq!(first_story.effort, 3);
    assert_eq!(first_story.acceptance_criteria.len(), 3);
}

#[test]
fn test_text_user_story_extraction() {
    let project = create_test_project();
    let mut updater = AutoUpdater::new(project);

    let llm_response = r#"
        Here are the user stories for your requirement:

        User Interface
        As a user, I want an interactive command line interface so that I can play the game.

        Game Logic
        As a user, I want the game to detect wins and draws so that I know when the game ends.
        "#;

    let result =
        updater.process_llm_response(llm_response, UpdateContext::RequirementAnalysis, false, false);
    assert!(result.is_ok());

    let updated_project = updater.get_project();
    assert_eq!(updated_project.backlog.len(), 2);

    let first_story = &updated_project.backlog[0];
    assert_eq!(first_story.title, "User Interface");
    assert!(first_story
        .story
        .contains("As a user, I want an interactive command line interface"));
}

#[test]
fn test_code_block_extraction() {
    let project = create_test_project();

    let llm_response = r#"
Here's the implementation:

```rust
fn main() {
    println!("Hello, world!");
}
```

And here's a test:

```rust
#[cfg(test)]
mod tests {
    #[test]
    fn test_example() {
        assert_eq!(2 + 2, 4);
    }
}
```
"#;

    let code_blocks = extract_code_blocks(&project.meta, llm_response);
    assert_eq!(code_blocks.len(), 2);

    let (filename1, code1) = &code_blocks[0];
    assert_eq!(filename1, "src/main.rs");
    assert!(code1.contains("fn main()"));

    let (filename2, code2) = &code_blocks[1];
    assert_eq!(filename2, "src/tests.rs");
    assert!(code2.contains("#[cfg(test)]"));
}

#[test]
fn test_filename_guessing() {
    let project = create_test_project();

    // Test main.rs detection
    let main_code = "fn main() { println!(); }";
    assert_eq!(
        guess_filename_for_language(&project.meta, main_code, "rust", 0),
        "src/main.rs"
    );

    // Test test file detection
    let test_code = "#[cfg(test)] mod tests { }";
    assert_eq!(
        guess_filename_for_language(&project.meta, test_code, "rust", 0),
        "src/tests.rs"
    );

    // Test struct detection
    let struct_code = "pub struct Game { }";
    assert_eq!(
        guess_filename_for_language(&project.meta, struct_code, "rust", 0),
        "src/lib_0.rs"
    );
}

fn sample_task() -> BacklogItem {
    BacklogItem {
        id: "US-001".to_string(),
        item_type: ItemType::UserStory,
        title: "User Interface".to_string(),
        story: "As a user, I want a CLI interface".to_string(),
        acceptance_criteria: vec!["Working CLI".to_string()],
        priority: Priority::Medium,
        effort: 3,
        status: Status::Done,
        created: 0,
        sprint: None,
        dependencies: Vec::new(),
    }
}

#[test]
fn test_documentation_update() {
    let task = sample_task();
    let result = readme_with_task(None, "Test Project", &task);
    println!("README update test completed: {:?}", result.is_some());
}

#[test]
fn test_readme_update_inserts_under_features_and_deduplicates() {
    let task = sample_task();
    let updated = readme_with_task(None, "Test Project", &task).unwrap();
    assert_eq!(
        updated,
        "# Test Project\n\n## Features\n- ✅ User Interface (US-001)\n\n"
    );
    // a second pass sees the identifier and leaves the file alone
    assert!(readme_with_task(Some(updated.as_str()), "Test Project", &task).is_none());

    let without_heading = "just notes\n";
    let appended = readme_with_task(Some(without_heading), "Test Project", &task).unwrap();
    assert_eq!(
        appended,
        "just notes\n\n## Features\n- ✅ User Interface (US-001)\n"
    );
}

#[test]
fn test_changelog_update_prepends_entry_and_deduplicates() {
    let task = sample_task();
    let ts: i64 = 1704067200; // 2024-01-01 in Unix seconds
    let updated = changelog_with_task(None, &task, ts).unwrap();
    assert_eq!(
        updated,
        "# Changelog\n## 2024-01-01 - User Interface\n- Completed: As a user, I want a CLI interface (US-001)\n\n\n"
    );
    assert!(changelog_with_task(Some(updated.as_str()), &task, ts).is_none());
}

#[test]
fn test_language_line_extraction() {
    assert_eq!(extract_language_from_line("```rust"), Some("rust".to_string()));
    assert_eq!(extract_language_from_line("``` PYTHON  "), Some("python".to_string()));
    assert_eq!(extract_language_from_line("```"), None);
    assert_eq!(extract_language_from_line("plain text"), None);
}

#[test]
fn test_java_class_name_extraction() {
    let code = "package x;\npublic class GameBoard {\n}";
    assert_eq!(extract_java_class_name(code), Some("GameBoard".to_string()));
    assert_eq!(extract_java_class_name("int x = 1;"), None);
}

#[test]
fn test_primary_language_falls_back_to_rust() {
    let mut project = create_test_project();
    assert_eq!(get_primary_language(&project.meta), "rust");
    project.meta.tech_stack = vec!["docker".to_string(), "nodejs".to_string()];
    assert_eq!(get_primary_language(&project.meta), "javascript");
}

#[test]
fn test_code_generation_plan_collects_suggestions() {
    let project = create_test_project();
    let mut updater = AutoUpdater::new(project);
    let response = r#"{
        "suggestions": [
            { "type": "cargo_dependency", "dependency_lines": ["serde = \"1.0\""], "notes": "why" },
            { "type": "source_code", "target_file": "src/a.rs", "action": "create", "content": "x" },
            { "type": "general_advice", "content": "tip", "notes": "extra" }
        ],
        "overall_summary": "sum"
    }"#;
    let outcome = updater
        .process_llm_response(response, UpdateContext::CodeGeneration("US-1".to_string()), true, true)
        .unwrap();
    match outcome {
        UpdateOutcome::CodeGen(plan) => {
            assert_eq!(plan.overall_summary.as_deref(), Some("sum"));
            assert_eq!(plan.cargo_deps_to_add, vec!["serde = \"1.0\""]);
            assert_eq!(plan.source_suggestions.len(), 1);
            assert_eq!(plan.source_suggestions[0].target_file, "src/a.rs");
            assert_eq!(
                plan.general_advice,
                vec!["Cargo dep notes: why", "tip", "Advice notes: extra"]
            );
            assert!(plan.fallback_blocks.is_none());
        },
        _ => panic!("expected a code generation plan"),
    }
}

#[test]
fn test_code_generation_falls_back_to_raw_blocks() {
    let project = create_test_project();
    let mut updater = AutoUpdater::new(project);
    let response = "```rust\nfn example_func_fallback() {}\n```";
    let outcome = updater
        .process_llm_response(response, UpdateContext::CodeGeneration("US-456".to_string()), false, false)
        .unwrap();
    match outcome {
        UpdateOutcome::CodeGen(plan) => {
            let blocks = plan.fallback_blocks.unwrap();
            assert_eq!(blocks.len(), 1);
            assert!(blocks[0].0.contains("generated_"));
            assert!(blocks[0].1.contains("fn example_func_fallback()"));
        },
        _ => panic!("expected a code generation plan"),
    }
}
