use env_coach::config::{
    choose_description, prd_of, value_source, ConfigSource, Prd,
    resolve_llm_config, FinalLlmConfig, PartialLlmConfig, Project, ProjectMeta, ValidationError,
    DEFAULT_LLM_HOST, DEFAULT_LLM_MODEL, DEFAULT_LLM_PORT, DEFAULT_LLM_TIMEOUT_MS,
    format_sprint_id, format_story_id, generate_initial_tags, priority_label, Priority,
};

#[test]
fn test_resolve_llm_config_all_defaults() {
    let resolved = resolve_llm_config(None, None);
    assert_eq!(resolved.model, DEFAULT_LLM_MODEL);
    assert_eq!(resolved.host, DEFAULT_LLM_HOST);
    assert_eq!(resolved.port, DEFAULT_LLM_PORT);
    assert_eq!(resolved.timeout_ms, DEFAULT_LLM_TIMEOUT_MS);
}

#[test]
fn test_resolve_llm_config_global_overrides_defaults() {
    let global_partial = PartialLlmConfig {
        model: Some("global-model".to_string()),
        host: Some("global-host".to_string()),
        port: Some(1234),
        timeout_ms: Some(50000),
    };
    let resolved = resolve_llm_config(Some(&global_partial), None);
    assert_eq!(resolved.model, "global-model");
    assert_eq!(resolved.host, "global-host");
    assert_eq!(resolved.port, 1234);
    assert_eq!(resolved.timeout_ms, 50000);
}

#[test]
fn test_resolve_llm_config_project_overrides_global_and_defaults() {
    let global_partial = PartialLlmConfig {
        model: Some("global-model".to_string()),
        host: Some("global-host".to_string()),
        port: Some(1234),
        timeout_ms: Some(50000),
    };
    let project_partial = PartialLlmConfig {
        model: Some("project-model".to_string()),
        host: None, // Project uses global host
        port: Some(5678),
        timeout_ms: None, // Project uses global timeout
    };
    let resolved = resolve_llm_config(Some(&global_partial), Some(&project_partial));
    assert_eq!(resolved.model, "project-model");
    assert_eq!(resolved.host, "global-host"); // From global
    assert_eq!(resolved.port, 5678); // From project
    assert_eq!(resolved.timeout_ms, 50000); // From global
}

#[test]
fn test_resolve_llm_config_project_overrides_only_some_defaults() {
    let project_partial = PartialLlmConfig {
        model: Some("project-model".to_string()),
        host: None,
        port: None,
        timeout_ms: Some(10000),
    };
    let resolved = resolve_llm_config(None, Some(&project_partial));
    assert_eq!(resolved.model, "project-model");
    assert_eq!(resolved.host, DEFAULT_LLM_HOST); // Default
    assert_eq!(resolved.port, DEFAULT_LLM_PORT); // Default
    assert_eq!(resolved.timeout_ms, 10000); // Project
}

#[test]
fn test_project_load_project_and_simulated_global() {
    let global_partial = PartialLlmConfig {
        model: Some("global-model".to_string()),
        host: Some("global-host".to_string()),
        port: Some(1111),
        timeout_ms: Some(10000),
    };

    let project_meta_llm = Some(PartialLlmConfig {
        model: Some("project-model".to_string()),
        port: Some(2222),
        ..Default::default()
    });

    let resolved = resolve_llm_config(Some(&global_partial), project_meta_llm.as_ref());
    assert_eq!(resolved.model, "project-model"); // Project overrides global
    assert_eq!(resolved.host, "global-host"); // Global (project didn't specify)
    assert_eq!(resolved.port, 2222); // Project overrides global
    assert_eq!(resolved.timeout_ms, 10000); // Global (project didn't specify)
}

#[test]
fn test_project_new_uses_global_or_defaults() {
    // Case 1: No global config
    let project1 = Project::new("test1".to_string(), "desc1".to_string(), None, vec![]);
    assert_eq!(project1.resolved_llm_config.model, DEFAULT_LLM_MODEL);
    assert_eq!(project1.meta.llm, None); // Project specific overrides are None initially

    // Case 2: With global config
    let global_partial = PartialLlmConfig {
        model: Some("global-model-for-new".to_string()),
        ..Default::default()
    };
    let project2 = Project::new(
        "test2".to_string(),
        "desc2".to_string(),
        Some(&global_partial),
        vec![],
    );
    assert_eq!(project2.resolved_llm_config.model, "global-model-for-new");
    assert_eq!(project2.meta.llm, None);
}

fn sample_project() -> Project {
    Project {
        meta: ProjectMeta {
            name: "ValidProject".to_string(),
            description: "".to_string(),
            created: 0,
            tech_stack: vec![],
            tags: vec![],
            llm: None,
            prd: None,
        },
        backlog: vec![],
        sprints: vec![],
        current_sprint: None,
        resolved_llm_config: FinalLlmConfig {
            model: "model".to_string(),
            host: "host".to_string(),
            port: 123,
            timeout_ms: 100,
        },
    }
}

#[test]
fn test_project_validate_valid() {
    let project = sample_project();
    assert!(project.validate().is_ok());
}

#[test]
fn test_project_validate_invalid_llm() {
    let mut project = sample_project();

    project.resolved_llm_config.model = "".to_string();
    assert!(project.validate().is_err(), "Empty model should fail validation");
    project.resolved_llm_config.model = "model".to_string(); // Reset

    project.resolved_llm_config.host = "".to_string();
    assert!(project.validate().is_err(), "Empty host should fail validation");
    project.resolved_llm_config.host = "host".to_string(); // Reset

    project.resolved_llm_config.port = 0;
    assert!(project.validate().is_err(), "Port 0 should fail validation");
}

#[test]
fn test_validate_error_kinds() {
    let mut project = sample_project();
    project.meta.name = "".to_string();
    assert_eq!(project.validate(), Err(ValidationError::EmptyName));
    project.meta.name = "p".to_string();
    project.resolved_llm_config.model = "".to_string();
    assert_eq!(project.validate(), Err(ValidationError::EmptyModel));
    project.resolved_llm_config.model = "m".to_string();
    project.resolved_llm_config.port = 0;
    assert_eq!(project.validate(), Err(ValidationError::ZeroPort));
}

#[test]
fn test_base_url_formats_host_and_port() {
    let cfg = FinalLlmConfig {
        model: "m".to_string(),
        timeout_ms: 1,
        host: "localhost".to_string(),
        port: 11434,
    };
    assert_eq!(cfg.base_url(), "http://localhost:11434");
}

#[test]
fn test_identifier_formatting_pads_to_three_places() {
    assert_eq!(format_story_id(1), "US-001");
    assert_eq!(format_story_id(42), "US-042");
    assert_eq!(format_story_id(117), "US-117");
    assert_eq!(format_story_id(1234), "US-1234");
    assert_eq!(format_sprint_id(3), "S-003");
}

#[test]
fn test_initial_tags_from_name_and_stack() {
    let tags = generate_initial_tags("my-api-server", &vec!["rust".to_string()]);
    assert_eq!(tags, vec!["backend", "systems", "env-coach"]);

    let plain = generate_initial_tags("plain", &vec![]);
    assert_eq!(plain, vec!["development", "env-coach"]);

    let web = generate_initial_tags(
        "WebGameBot",
        &vec!["nodejs".to_string(), "docker".to_string()],
    );
    assert_eq!(
        web,
        vec!["frontend", "game", "automation", "javascript", "containerization", "env-coach"]
    );
}

#[test]
fn test_tech_stack_description_prefers_known_entries() {
    let mut project = sample_project();
    project.meta.tech_stack = vec!["docker".to_string(), "rust".to_string()];
    assert_eq!(project.get_tech_stack_description(), "Rust project with modern tooling");
    project.meta.tech_stack = vec!["docker".to_string(), "git".to_string()];
    assert_eq!(
        project.get_tech_stack_description(),
        "Multi-technology project (docker, git)"
    );
}

#[test]
fn test_tags_display_joins_or_says_none() {
    let mut project = sample_project();
    assert_eq!(project.get_tags_display(), "none");
    project.meta.tags = vec!["cli".to_string(), "env-coach".to_string()];
    assert_eq!(project.get_tags_display(), "cli, env-coach");
}

#[test]
fn test_priority_labels() {
    assert_eq!(priority_label(Priority::Critical), "Critical");
    assert_eq!(priority_label(Priority::Low), "Low");
}

#[test]
fn test_value_source_prefers_project_then_global() {
    assert_eq!(value_source(Some("m"), Some("g"), "d", "m"), ConfigSource::Project);
    assert_eq!(value_source(None, Some("g"), "d", "g"), ConfigSource::Global);
    assert_eq!(value_source(None, None, "d", "d"), ConfigSource::Default);
    assert_eq!(value_source(None, None, "d", "x"), ConfigSource::Unknown);
}

#[test]
fn test_choose_description_file_beats_flag_beats_default() {
    // a nonblank file wins over the flag
    assert_eq!(
        choose_description(
            Some("Description from file (should win).\n"),
            Some("Direct description from flag.".to_string()),
            "DescFilePrecedence",
        ),
        "Description from file (should win)."
    );
    // a blank file falls back to the flag
    assert_eq!(
        choose_description(Some("   \n"), Some("Fallback for empty file.".to_string()), "P"),
        "Fallback for empty file."
    );
    // no file, no flag: the default names the project
    assert_eq!(
        choose_description(None, None, "MetricsOnly"),
        "AI-assisted development project for MetricsOnly"
    );
}

#[test]
fn test_prd_capture() {
    let both = prd_of(
        Some("The main problem is testing this feature.".to_string()),
        vec!["Metric1".to_string(), "Metric2".to_string()],
    )
    .unwrap();
    assert_eq!(both.problem, "The main problem is testing this feature.");
    assert_eq!(both.success_metrics, vec!["Metric1", "Metric2"]);

    let problem_only = prd_of(Some("Only a problem statement.".to_string()), vec![]).unwrap();
    assert_eq!(problem_only.problem, "Only a problem statement.");
    assert!(problem_only.success_metrics.is_empty());

    let metrics_only = prd_of(None, vec!["Metric A".to_string()]).unwrap();
    assert!(metrics_only.problem.is_empty());
    assert_eq!(metrics_only.success_metrics, vec!["Metric A"]);

    assert_eq!(prd_of(None, vec![]), None);
}
