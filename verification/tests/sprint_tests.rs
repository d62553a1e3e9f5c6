use env_coach::config::{BacklogItem, ItemType, Priority, Project, SprintStatus, Status};
use env_coach::sprint::{
    commit_sprint_plan, format_backlog_for_prompt, parse_manual_selection, progress_percent,
    select_confirmed_ids, sort_dedup_ids, total_points_of,
};
use env_coach::tasks::{
    classify_approval_answer, classify_plan_answer, complete_task_update, start_task_update,
    answer_is_yes, ApprovalAnswer, PlanAnswer,
};

fn create_sample_backlog_item(
    id: &str,
    title: &str,
    story: &str,
    priority: Priority,
    effort: u32,
    status: Status,
) -> BacklogItem {
    BacklogItem {
        id: id.to_string(),
        title: title.to_string(),
        story: story.to_string(),
        priority,
        effort,
        status,
        item_type: ItemType::UserStory,
        acceptance_criteria: vec!["AC1".to_string()],
        created: 1704067200,
        sprint: None,
        dependencies: vec![],
    }
}

#[test]
fn test_format_backlog_for_prompt_filters_and_formats() {
    let backlog = vec![
        create_sample_backlog_item(
            "US-001",
            "Login Feature",
            "User wants to log in.",
            Priority::High,
            5,
            Status::Todo,
        ),
        create_sample_backlog_item(
            "US-002",
            "Logout Feature",
            "User wants to log out securely from their current session.",
            Priority::Medium,
            3,
            Status::Done,
        ),
        create_sample_backlog_item(
            "US-003",
            "Profile Page",
            "User wants to see their profile.",
            Priority::Low,
            2,
            Status::Todo,
        ),
    ];
    let formatted_string = format_backlog_for_prompt(&backlog);

    assert!(formatted_string.contains("ID: US-001"));
    assert!(formatted_string.contains("Title: Login Feature"));
    assert!(formatted_string.contains("Priority: High"));
    assert!(formatted_string.contains("Effort: 5 points"));
    assert!(formatted_string.contains("Story: User wants to log in....")); // Truncated if long enough

    assert!(!formatted_string.contains("ID: US-002")); // Should be filtered out (Status::Done)

    assert!(formatted_string.contains("ID: US-003"));
    assert!(formatted_string.contains("Title: Profile Page"));
    assert!(formatted_string.contains("Priority: Low"));
    assert!(formatted_string.contains("Effort: 2 points"));

    let long_story = "This is a very long story description that definitely exceeds one hundred characters to ensure that the truncation logic is properly applied and tested correctly.";
    let backlog_long_story = vec![create_sample_backlog_item(
        "US-004",
        "Long Story",
        long_story,
        Priority::High,
        5,
        Status::Todo,
    )];
    let formatted_long_story = format_backlog_for_prompt(&backlog_long_story);
    let expected_truncated_story =
        format!("Story: {}...", long_story.chars().take(100).collect::<String>());
    assert!(formatted_long_story.contains(&expected_truncated_story));
}

#[test]
fn test_format_backlog_for_prompt_empty() {
    let backlog: Vec<BacklogItem> = vec![];
    let formatted_string = format_backlog_for_prompt(&backlog);
    assert!(formatted_string.is_empty());
}

#[test]
fn test_format_backlog_for_prompt_no_todo_items() {
    let backlog = vec![
        create_sample_backlog_item(
            "US-001",
            "Login Feature",
            "User wants to log in.",
            Priority::High,
            5,
            Status::Done,
        ),
        create_sample_backlog_item(
            "US-002",
            "Logout Feature",
            "User wants to log out.",
            Priority::Medium,
            3,
            Status::InProgress,
        ),
    ];
    let formatted_string = format_backlog_for_prompt(&backlog);
    assert!(formatted_string.is_empty());
}

fn project_with_backlog() -> Project {
    let mut project = Project::new("P".to_string(), "D".to_string(), None, vec![]);
    project.backlog.push(create_sample_backlog_item(
        "US-001",
        "Auth Login",
        "User login",
        Priority::Critical,
        5,
        Status::Todo,
    ));
    project.backlog.push(create_sample_backlog_item(
        "US-002",
        "Auth Register",
        "User register",
        Priority::High,
        8,
        Status::Todo,
    ));
    project.backlog.push(create_sample_backlog_item(
        "US-003",
        "View Dashboard",
        "User dashboard",
        Priority::Medium,
        3,
        Status::Todo,
    ));
    project.backlog.push(create_sample_backlog_item(
        "US-004",
        "Old Feature",
        "Done story",
        Priority::Low,
        2,
        Status::Done,
    ));
    project
}

#[test]
fn test_select_confirmed_ids_keeps_only_todo_matches() {
    let project = project_with_backlog();
    let suggested = vec![
        "US-001".to_string(),
        "US-004".to_string(),
        "US-999".to_string(),
        "US-002".to_string(),
    ];
    let confirmed = select_confirmed_ids(&suggested, &project);
    assert_eq!(confirmed, vec!["US-001", "US-002"]);
}

#[test]
fn test_parse_manual_selection_mixes_indices_and_ids() {
    let todo_ids = vec!["US-001".to_string(), "US-002".to_string(), "US-003".to_string()];
    let picked = parse_manual_selection("1,US-003,2,US-003, ,nope,9", &todo_ids);
    assert_eq!(picked, vec!["US-001", "US-002", "US-003"]);
}

#[test]
fn test_sort_dedup_ids_orders_and_removes_duplicates() {
    let ids = vec![
        "US-010".to_string(),
        "US-002".to_string(),
        "US-010".to_string(),
        "US-001".to_string(),
    ];
    let sorted = sort_dedup_ids(&ids);
    assert_eq!(sorted, vec!["US-001", "US-002", "US-010"]);
}

#[test]
fn test_total_points_and_commit_sprint_plan() {
    let mut project = project_with_backlog();
    let confirmed = vec!["US-001".to_string(), "US-002".to_string()];
    let total = total_points_of(&project, &confirmed).unwrap();
    assert_eq!(total, 13);

    let now: i64 = 1704067200;
    let sid = commit_sprint_plan(&mut project, "Implement auth features".to_string(), 7, confirmed, now);
    assert_eq!(sid, "S-001");
    assert_eq!(project.sprints.len(), 1);
    let sprint = &project.sprints[0];
    assert_eq!(sprint.goal, "Implement auth features");
    assert_eq!(sprint.status, SprintStatus::Planning);
    assert_eq!(sprint.total_points, 13);
    assert_eq!(sprint.stories, vec!["US-001", "US-002"]);
    assert_eq!(sprint.end_date, now + 7 * 86400);

    let us001 = project.backlog.iter().find(|i| i.id == "US-001").unwrap();
    assert_eq!(us001.sprint.as_deref(), Some("S-001"));
    let us003 = project.backlog.iter().find(|i| i.id == "US-003").unwrap();
    assert!(us003.sprint.is_none());
}

#[test]
fn test_task_workflow_updates_status_and_sprint_progress() {
    let mut project = project_with_backlog();
    let confirmed = vec!["US-001".to_string()];
    commit_sprint_plan(&mut project, "Goal".to_string(), 7, confirmed, 0);

    assert!(start_task_update(&mut project, "US-001"));
    assert_eq!(project.backlog[0].status, Status::InProgress);

    assert!(complete_task_update(&mut project, "US-001"));
    assert_eq!(project.backlog[0].status, Status::Done);
    assert_eq!(project.sprints[0].completed_points, 5);

    assert!(!start_task_update(&mut project, "US-404"));
}

#[test]
fn test_progress_percent() {
    assert_eq!(progress_percent(5, 13), 38);
    assert_eq!(progress_percent(0, 0), 0);
    assert_eq!(progress_percent(13, 13), 100);
}

#[test]
fn test_answer_classification() {
    assert!(answer_is_yes("  YES \n"));
    assert!(!answer_is_yes("nope"));
    assert_eq!(classify_approval_answer("y"), ApprovalAnswer::Yes);
    assert_eq!(classify_approval_answer(" No "), ApprovalAnswer::No);
    assert_eq!(classify_approval_answer("d"), ApprovalAnswer::Details);
    assert_eq!(classify_approval_answer("skip_all_code"), ApprovalAnswer::SkipAll);
    assert_eq!(classify_approval_answer("maybe"), ApprovalAnswer::Invalid);
    assert_eq!(classify_plan_answer("manual"), PlanAnswer::Manual);
    assert_eq!(classify_plan_answer(""), PlanAnswer::Skip);
}
