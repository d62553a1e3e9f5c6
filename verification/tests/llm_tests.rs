use env_coach::config::Priority;
use env_coach::ollama::ChatRequest;
use env_coach::llm::{
    convert_llm_story_to_backlog_item, parse_assist_task_response, parse_single_suggestion,
    parse_sprint_plan_response, parse_user_story_response, LlmSingleSuggestion, LlmUserStory,
    SuggestionAction,
};

#[test]
fn test_parse_valid_assist_task_response() {
    let json_str = r#"
    {
        "suggestions": [
            {
                "type": "cargo_dependency",
                "dependency_lines": ["serde = \"1.0\""],
                "notes": "For serialization"
            },
            {
                "type": "source_code",
                "target_file": "src/main.rs",
                "action": "create",
                "content": "fn main() {}",
                "notes": "Main function"
            },
            {
                "type": "general_advice",
                "content": "Remember to test.",
                "notes": "Testing is important"
            }
        ],
        "overall_summary": "Added serde, created main.rs, advised testing."
    }
    "#;
    let response = parse_assist_task_response(json_str).unwrap();
    assert_eq!(response.suggestions.len(), 3);
    assert_eq!(
        response.overall_summary.as_deref(),
        Some("Added serde, created main.rs, advised testing.")
    );

    // Check first suggestion (CargoDependency)
    if let LlmSingleSuggestion::CargoDependency(dep_sugg) = &response.suggestions[0] {
        assert_eq!(dep_sugg.dependency_lines, vec!["serde = \"1.0\""]);
        assert_eq!(dep_sugg.notes.as_deref(), Some("For serialization"));
    } else {
        panic!("Expected CargoDependency suggestion first.");
    }

    // Check second suggestion (SourceCode)
    if let LlmSingleSuggestion::SourceCode(code_sugg) = &response.suggestions[1] {
        assert_eq!(code_sugg.target_file, "src/main.rs");
        assert_eq!(code_sugg.action, SuggestionAction::Create);
        assert_eq!(code_sugg.content, "fn main() {}");
        assert_eq!(code_sugg.notes.as_deref(), Some("Main function"));
    } else {
        panic!("Expected SourceCode suggestion second.");
    }

    // Check third suggestion (GeneralAdvice)
    if let LlmSingleSuggestion::GeneralAdvice(advice_sugg) = &response.suggestions[2] {
        assert_eq!(advice_sugg.content, "Remember to test.");
        assert_eq!(advice_sugg.notes.as_deref(), Some("Testing is important"));
    } else {
        panic!("Expected GeneralAdvice suggestion third.");
    }
}

#[test]
fn test_parse_assist_task_response_empty_suggestions() {
    let json_str = r#"
    {
        "suggestions": [],
        "overall_summary": "No specific suggestions."
    }
    "#;
    let response = parse_assist_task_response(json_str).unwrap();
    assert!(response.suggestions.is_empty());
    assert_eq!(response.overall_summary.as_deref(), Some("No specific suggestions."));
}

#[test]
fn test_parse_assist_task_response_malformed_json() {
    let json_str = r#"
    {
        "suggestions": [
            {"type": "cargo_dependency", "dependency_lines": ["serde = \"1.0\""],
        ], // Malformed: missing closing brace for suggestion, trailing comma
        "overall_summary": "..."
    }
    "#;
    assert!(parse_assist_task_response(json_str).is_err());
}

#[test]
fn test_parse_assist_task_response_missing_suggestions_field() {
    let json_str = r#"
    {
        "overall_summary": "Missing suggestions field."
    }
    "#;
    // This should fail because "suggestions" is required
    assert!(parse_assist_task_response(json_str).is_err());
}

#[test]
fn test_parse_assist_task_response_unknown_suggestion_type() {
    let json_str = r#"
    {
        "suggestions": [
            {
                "type": "unknown_type",
                "data": "some data"
            }
        ]
    }
    "#;
    // an unknown tag is not a variant of the suggestion shape
    assert!(parse_assist_task_response(json_str).is_err());
}

#[test]
fn test_parse_source_code_suggestion_all_fields() {
    let json_str = r#"
    {
        "type": "source_code",
        "target_file": "src/module.rs",
        "action": "replace_function",
        "content": "fn new_func() {}",
        "function_name": "old_func",
        "import_statement": "use std::collections::HashMap;",
        "notes": "Complete replacement"
    }
    "#;
    let suggestion = parse_single_suggestion(json_str).unwrap();
    if let LlmSingleSuggestion::SourceCode(sugg) = suggestion {
        assert_eq!(sugg.target_file, "src/module.rs");
        assert_eq!(sugg.action, SuggestionAction::ReplaceFunction);
        assert_eq!(sugg.content, "fn new_func() {}");
        assert_eq!(sugg.function_name.as_deref(), Some("old_func"));
        assert_eq!(
            sugg.import_statement.as_deref(),
            Some("use std::collections::HashMap;")
        );
        assert_eq!(sugg.notes.as_deref(), Some("Complete replacement"));
    } else {
        panic!("Not a SourceCode suggestion");
    }
}

#[test]
fn test_parse_source_code_suggestion_minimal_fields() {
    let json_str = r#"
    {
        "type": "source_code",
        "target_file": "src/minimal.rs",
        "action": "create"
    }
    "#;
    // content falls back to empty, the other fields are optional
    let suggestion = parse_single_suggestion(json_str).unwrap();
    if let LlmSingleSuggestion::SourceCode(sugg) = suggestion {
        assert_eq!(sugg.target_file, "src/minimal.rs");
        assert_eq!(sugg.action, SuggestionAction::Create);
        assert_eq!(sugg.content, ""); // Default for String
        assert!(sugg.function_name.is_none());
        assert!(sugg.import_statement.is_none());
        assert!(sugg.notes.is_none());
    } else {
        panic!("Not a SourceCode suggestion");
    }
}

#[test]
fn test_convert_llm_story_priority_mapping() {
    let prio_map = vec![
        ("High", Priority::High),
        ("Critical", Priority::Critical),
        ("Medium", Priority::Medium),
        ("Low", Priority::Low),
        ("Unknown", Priority::Medium),
    ];
    for (p_str, p_enum) in prio_map {
        let llm_story = LlmUserStory {
            title: "T".to_string(),
            story: "S".to_string(),
            priority: p_str.to_string(),
            effort: 1,
            acceptance_criteria: vec![],
        };
        let item = convert_llm_story_to_backlog_item(llm_story, "ID".to_string()).unwrap();
        assert_eq!(item.priority, p_enum);
    }
}

#[test]
fn test_parse_llm_sprint_plan_response_valid() {
    let json_str = r#"
    {
      "suggested_story_ids": ["US-001", "US-003"],
      "reasoning": "These stories align with the goal."
    }
    "#;
    let parsed = parse_sprint_plan_response(json_str).unwrap();
    assert_eq!(parsed.suggested_story_ids, vec!["US-001", "US-003"]);
    assert_eq!(parsed.reasoning, "These stories align with the goal.");
}

#[test]
fn test_parse_llm_sprint_plan_response_missing_reasoning() {
    let json_str = r#"
    {
      "suggested_story_ids": ["US-002"]
    }
    "#;
    let parsed = parse_sprint_plan_response(json_str).unwrap();
    assert_eq!(parsed.suggested_story_ids, vec!["US-002"]);
    assert_eq!(parsed.reasoning, ""); // Should default to empty string
}

#[test]
fn test_parse_llm_sprint_plan_response_empty_ids() {
    let json_str = r#"
    {
      "suggested_story_ids": [],
      "reasoning": "Nothing fits."
    }
    "#;
    let parsed = parse_sprint_plan_response(json_str).unwrap();
    assert!(parsed.suggested_story_ids.is_empty());
    assert_eq!(parsed.reasoning, "Nothing fits.");
}

#[test]
#[should_panic] // Expecting this to fail parsing if suggested_story_ids is missing
fn test_parse_llm_sprint_plan_response_missing_ids_field() {
    let json_str = r#"
    {
      "reasoning": "This is invalid."
    }
    "#;
    // suggested_story_ids is required, so the parse is rejected
    let _parsed = parse_sprint_plan_response(json_str).unwrap();
}

#[test]
fn test_parse_user_story_response_requires_all_fields() {
    let good = r#"{"user_stories": [{"title": "A", "story": "B", "priority": "High", "effort": 2, "acceptance_criteria": ["x"]}]}"#;
    let resp = parse_user_story_response(good).unwrap();
    assert_eq!(resp.user_stories.len(), 1);
    assert_eq!(resp.user_stories[0].title, "A");
    assert_eq!(resp.user_stories[0].effort, 2);

    let missing_effort = r#"{"user_stories": [{"title": "A", "story": "B", "priority": "High", "acceptance_criteria": []}]}"#;
    assert!(parse_user_story_response(missing_effort).is_err());

    let fractional_effort = r#"{"user_stories": [{"title": "A", "story": "B", "priority": "High", "effort": 2.5, "acceptance_criteria": []}]}"#;
    assert!(parse_user_story_response(fractional_effort).is_err());

    let not_json = "just some prose";
    assert!(parse_user_story_response(not_json).is_err());
}

#[test]
fn test_null_and_absent_notes_read_as_none() {
    let with_null = r#"{"type": "general_advice", "content": "c", "notes": null}"#;
    match parse_single_suggestion(with_null).unwrap() {
        LlmSingleSuggestion::GeneralAdvice(a) => {
            assert_eq!(a.content, "c");
            assert!(a.notes.is_none());
        },
        _ => panic!("wrong variant"),
    }
    let wrong_type_notes = r#"{"type": "general_advice", "content": "c", "notes": 3}"#;
    assert!(parse_single_suggestion(wrong_type_notes).is_none());
}

#[test]
fn test_chat_request_for_prompt_single_user_turn() {
    let req = ChatRequest::for_prompt("deepseek-coder:6.7b", "hello");
    assert_eq!(req.model, "deepseek-coder:6.7b");
    assert!(!req.stream);
    assert_eq!(req.messages.len(), 1);
    assert_eq!(req.messages[0].role, "user");
    assert_eq!(req.messages[0].content, "hello");
}
