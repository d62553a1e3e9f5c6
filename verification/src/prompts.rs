//! Filling prompt templates: replacing each placeholder in the stored
//! template text with the project's and the task's details, exactly in
//! the order the assistant performs it.

use vstd::prelude::*;
use vstd::string::*;
use crate::config::{BacklogItem, Project};
use crate::codegen::{get_primary_language, spec_primary_language};
use crate::text::{
    spec_digits, spec_join, spec_replace, str_replace, u128_to_string, views_of, join_strings,
};

verus! {

/// The acceptance criteria as prompt lines: each one indented with a
/// dash, joined by newlines.
pub open spec fn spec_criteria_block(criteria: Seq<Seq<char>>) -> Seq<char> {
    spec_join(criteria.map_values(|c: Seq<char>| "  - "@ + c), "\n"@)
}

pub fn criteria_block(criteria: &Vec<String>) -> (r: String)
    ensures
        r@ == spec_criteria_block(views_of(criteria@)),
{
    let n = criteria.len();
    let mut parts: Vec<String> = Vec::new();
    let mut i: usize = 0;
    while i < n
        invariant
            n == criteria@.len(),
            i <= n,
            views_of(parts@) =~= views_of(criteria@).take(i as int).map_values(
                |c: Seq<char>| "  - "@ + c,
            ),
        decreases n - i,
    {
        let mut s = "  - ".to_owned();
        s.append(criteria[i].as_str());
        parts.push(s);
        proof {
            assert(views_of(parts@) =~= views_of(parts@.drop_last()).push(parts@.last()@));
            assert(views_of(criteria@).take(i + 1) =~= views_of(criteria@).take(i as int).push(
                views_of(criteria@)[i as int],
            ));
            assert(views_of(criteria@).take(i + 1).map_values(|c: Seq<char>| "  - "@ + c)
                =~= views_of(criteria@).take(i as int).map_values(
                |c: Seq<char>| "  - "@ + c,
            ).push("  - "@ + views_of(criteria@)[i as int]));
        }
        i += 1;
    }
    proof {
        assert(views_of(criteria@).take(n as int) =~= views_of(criteria@));
    }
    join_strings(&parts, "\n")
}

/// The sprint-planner prompt filled in, replacement by replacement, in
/// the order the assistant makes them.
pub open spec fn spec_filled_sprint_prompt(
    template: Seq<char>,
    goal: Seq<char>,
    days: u32,
    summary: Seq<char>,
) -> Seq<char> {
    let s1 = spec_replace(template, "{{sprint_goal}}"@, goal);
    let s2 = spec_replace(s1, "{{#if sprint_duration_days}}"@, Seq::empty());
    let s3 = spec_replace(s2, "{{/if}}"@, Seq::empty());
    let s4 = spec_replace(s3, "{{sprint_duration_days}}"@, spec_digits(days as nat));
    let s5 = spec_replace(s4, "{{#if target_capacity_points}}"@, Seq::empty());
    let s6 = spec_replace(s5, "{{/if}}"@, Seq::empty());
    let s7 = spec_replace(s6, "{{target_capacity_points}}"@, Seq::empty());
    let s8 = spec_replace(s7, "{{#each backlog_items}}"@, Seq::empty());
    let s9 = spec_replace(s8, "{{/each}}"@, Seq::empty());
    spec_replace(
        s9,
        "- **ID:** {{this.id}}\n  - **Title:** {{this.title}}\n  {{#if this.story_summary}}\n  - **Summary:** {{this.story_summary}}\n  {{/if}}\n  - **Priority:** {{this.priority}}\n  - **Effort:** {{this.effort}} points"@,
        summary,
    )
}

pub fn fill_sprint_prompt(template: &str, goal: &str, days: u32, summary: &str) -> (r: String)
    ensures
        r@ == spec_filled_sprint_prompt(template@, goal@, days, summary@),
{
    proof {
        reveal_strlit("");
        reveal_strlit("{{sprint_goal}}");
        reveal_strlit("{{#if sprint_duration_days}}");
        reveal_strlit("{{/if}}");
        reveal_strlit("{{sprint_duration_days}}");
        reveal_strlit("{{#if target_capacity_points}}");
        reveal_strlit("{{target_capacity_points}}");
        reveal_strlit("{{#each backlog_items}}");
        reveal_strlit("{{/each}}");
        reveal_strlit(
            "- **ID:** {{this.id}}\n  - **Title:** {{this.title}}\n  {{#if this.story_summary}}\n  - **Summary:** {{this.story_summary}}\n  {{/if}}\n  - **Priority:** {{this.priority}}\n  - **Effort:** {{this.effort}} points",
        );
    }
    let d = u128_to_string(days as u128);
    let s1 = str_replace(template, "{{sprint_goal}}", goal);
    proof {
        assert(s1@ == spec_replace(template@, "{{sprint_goal}}"@, goal@));
    }
    let s2 = str_replace(s1.as_str(), "{{#if sprint_duration_days}}", "");
    proof {
        assert(""@ =~= Seq::<char>::empty());
        assert(s2@ == spec_replace(s1@, "{{#if sprint_duration_days}}"@, Seq::empty()));
    }
    let s3 = str_replace(s2.as_str(), "{{/if}}", "");
    let s4 = str_replace(s3.as_str(), "{{sprint_duration_days}}", d.as_str());
    let s5 = str_replace(s4.as_str(), "{{#if target_capacity_points}}", "");
    let s6 = str_replace(s5.as_str(), "{{/if}}", "");
    let s7 = str_replace(s6.as_str(), "{{target_capacity_points}}", "");
    let s8 = str_replace(s7.as_str(), "{{#each backlog_items}}", "");
    let s9 = str_replace(s8.as_str(), "{{/each}}", "");
    str_replace(
        s9.as_str(),
        "- **ID:** {{this.id}}\n  - **Title:** {{this.title}}\n  {{#if this.story_summary}}\n  - **Summary:** {{this.story_summary}}\n  {{/if}}\n  - **Priority:** {{this.priority}}\n  - **Effort:** {{this.effort}} points",
        summary,
    )
}

/// The task-assistant prompt filled with the project context, the task's
/// details and the user's question, replacement by replacement.
pub open spec fn spec_filled_task_prompt(
    template: Seq<char>,
    project: Project,
    task: BacklogItem,
    tags_display: Seq<char>,
    user_query: Seq<char>,
) -> Seq<char> {
    let s1 = spec_replace(template, "{{project_name}}"@, project.meta.name@);
    let s2 = spec_replace(s1, "{{project_description}}"@, project.meta.description@);
    let s3 = spec_replace(
        s2,
        "{{tech_stack}}"@,
        spec_join(views_of(project.meta.tech_stack@), ", "@),
    );
    let s4 = spec_replace(
        s3,
        "{{primary_language}}"@,
        spec_primary_language(views_of(project.meta.tech_stack@)),
    );
    let s5 = spec_replace(s4, "{{tags}}"@, tags_display);
    let s6 = spec_replace(s5, "{{task_id}}"@, task.id@);
    let s7 = spec_replace(s6, "{{task_title}}"@, task.title@);
    let s8 = spec_replace(s7, "{{task_story}}"@, task.story@);
    let s9 = spec_replace(s8, "{{#each task_acceptance_criteria}}"@, Seq::empty());
    let s10 = spec_replace(s9, "{{/each}}"@, Seq::empty());
    let s11 = spec_replace(
        s10,
        "  - {{this}}"@,
        spec_criteria_block(views_of(task.acceptance_criteria@)),
    );
    spec_replace(s11, "{{user_prompt}}"@, user_query)
}

pub fn fill_task_prompt(
    template: &str,
    project: &Project,
    task: &BacklogItem,
    user_query: &str,
) -> (r: String)
    ensures
        r@ == spec_filled_task_prompt(
            template@,
            *project,
            *task,
            if views_of(project.meta.tags@).len() == 0 {
                "none"@
            } else {
                spec_join(views_of(project.meta.tags@), ", "@)
            },
            user_query@,
        ),
{
    proof {
        reveal_strlit("");
        assert(""@ =~= Seq::<char>::empty());
        reveal_strlit("{{project_name}}");
        reveal_strlit("{{project_description}}");
        reveal_strlit("{{tech_stack}}");
        reveal_strlit("{{primary_language}}");
        reveal_strlit("{{tags}}");
        reveal_strlit("{{task_id}}");
        reveal_strlit("{{task_title}}");
        reveal_strlit("{{task_story}}");
        reveal_strlit("{{#each task_acceptance_criteria}}");
        reveal_strlit("{{/each}}");
        reveal_strlit("  - {{this}}");
        reveal_strlit("{{user_prompt}}");
    }
    let tech = join_strings(&project.meta.tech_stack, ", ");
    let primary = get_primary_language(&project.meta);
    let tags = project.get_tags_display();
    let ac = criteria_block(&task.acceptance_criteria);
    let s1 = str_replace(template, "{{project_name}}", project.meta.name.as_str());
    let s2 = str_replace(s1.as_str(), "{{project_description}}", project.meta.description.as_str());
    let s3 = str_replace(s2.as_str(), "{{tech_stack}}", tech.as_str());
    let s4 = str_replace(s3.as_str(), "{{primary_language}}", primary.as_str());
    let s5 = str_replace(s4.as_str(), "{{tags}}", tags.as_str());
    let s6 = str_replace(s5.as_str(), "{{task_id}}", task.id.as_str());
    let s7 = str_replace(s6.as_str(), "{{task_title}}", task.title.as_str());
    let s8 = str_replace(s7.as_str(), "{{task_story}}", task.story.as_str());
    let s9 = str_replace(s8.as_str(), "{{#each task_acceptance_criteria}}", "");
    let s10 = str_replace(s9.as_str(), "{{/each}}", "");
    let s11 = str_replace(s10.as_str(), "  - {{this}}", ac.as_str());
    str_replace(s11.as_str(), "{{user_prompt}}", user_query)
}

/// The requirement-analysis prompt assembled around the project context
/// and the requirement under analysis.
pub open spec fn spec_requirement_prompt(
    name: Seq<char>,
    description: Seq<char>,
    tech: Seq<char>,
    pl: Seq<char>,
    tags: Seq<char>,
    requirement: Seq<char>,
) -> Seq<char> {
    "You are a software engineering expert analyzing requirements for a "@ + pl
        + " project.\n\nPROJECT CONTEXT:\n- Project: "@ + name + "\n- Description: "@
        + description + "\n- Tech Stack: "@ + tech + "\n- Primary Language: "@ + pl + "\n- Tags: "@
        + tags + "\n\nREQUIREMENT TO ANALYZE: \""@ + requirement
        + "\"\n\nPlease respond with a JSON object containing user stories specifically tailored for this "@
        + pl
        + " project:\n\n{\n  \"user_stories\": [\n    {\n      \"title\": \"Brief descriptive title\",\n      \"story\": \"As a user, I want ... so that ...\",\n      \"priority\": \"high|medium|low\",\n      \"effort\": 3,\n      \"acceptance_criteria\": [\n        \"Specific testable criterion considering "@
        + pl + " implementation\",\n        \"Technical criterion relevant to "@ + tech
        + "\",\n        \"User-facing criterion for the feature\"\n      ]\n    }\n  ]\n}\n\nFocus on:\n1. Breaking down the requirement into "@
        + pl + "-appropriate user stories\n2. Writing acceptance criteria that consider "@ + pl
        + " implementation details\n3. Estimating effort appropriately for "@ + pl
        + " development (1-8 points)\n4. Prioritizing based on user value and technical dependencies in "@
        + pl + "\n5. Technical considerations specific to the tech stack: "@ + tech
        + "\n\nGenerate 2-5 user stories that comprehensively cover the requirement for a "@ + pl
        + " project.\nReturn only valid JSON."@
}

/// Builds the requirement-analysis prompt, as [`spec_requirement_prompt`]
/// states it over the project's details.
pub fn build_requirement_prompt(project: &Project, requirement: &str) -> (r: String)
    ensures
        r@ == spec_requirement_prompt(
            project.meta.name@,
            project.meta.description@,
            spec_join(views_of(project.meta.tech_stack@), ", "@),
            spec_requirement_language(views_of(project.meta.tech_stack@)),
            if views_of(project.meta.tags@).len() == 0 {
                "none"@
            } else {
                spec_join(views_of(project.meta.tags@), ", "@)
            },
            requirement@,
        ),
{
    let tech = join_strings(&project.meta.tech_stack, ", ");
    let pl = requirement_primary_language(&project.meta.tech_stack);
    let tags = project.get_tags_display();
    let mut s = "You are a software engineering expert analyzing requirements for a ".to_owned();
    s.append(pl.as_str());
    s.append(" project.\n\nPROJECT CONTEXT:\n- Project: ");
    s.append(project.meta.name.as_str());
    s.append("\n- Description: ");
    s.append(project.meta.description.as_str());
    s.append("\n- Tech Stack: ");
    s.append(tech.as_str());
    s.append("\n- Primary Language: ");
    s.append(pl.as_str());
    s.append("\n- Tags: ");
    s.append(tags.as_str());
    s.append("\n\nREQUIREMENT TO ANALYZE: \"");
    s.append(requirement);
    s.append(
        "\"\n\nPlease respond with a JSON object containing user stories specifically tailored for this ",
    );
    s.append(pl.as_str());
    s.append(
        " project:\n\n{\n  \"user_stories\": [\n    {\n      \"title\": \"Brief descriptive title\",\n      \"story\": \"As a user, I want ... so that ...\",\n      \"priority\": \"high|medium|low\",\n      \"effort\": 3,\n      \"acceptance_criteria\": [\n        \"Specific testable criterion considering ",
    );
    s.append(pl.as_str());
    s.append(" implementation\",\n        \"Technical criterion relevant to ");
    s.append(tech.as_str());
    s.append(
        "\",\n        \"User-facing criterion for the feature\"\n      ]\n    }\n  ]\n}\n\nFocus on:\n1. Breaking down the requirement into ",
    );
    s.append(pl.as_str());
    s.append("-appropriate user stories\n2. Writing acceptance criteria that consider ");
    s.append(pl.as_str());
    s.append(" implementation details\n3. Estimating effort appropriately for ");
    s.append(pl.as_str());
    s.append(
        " development (1-8 points)\n4. Prioritizing based on user value and technical dependencies in ",
    );
    s.append(pl.as_str());
    s.append("\n5. Technical considerations specific to the tech stack: ");
    s.append(tech.as_str());
    s.append("\n\nGenerate 2-5 user stories that comprehensively cover the requirement for a ");
    s.append(pl.as_str());
    s.append(" project.\nReturn only valid JSON.");
    proof {
        assert(s@ =~= spec_requirement_prompt(
            project.meta.name@,
            project.meta.description@,
            spec_join(views_of(project.meta.tech_stack@), ", "@),
            spec_requirement_language(views_of(project.meta.tech_stack@)),
            if views_of(project.meta.tags@).len() == 0 {
                "none"@
            } else {
                spec_join(views_of(project.meta.tags@), ", "@)
            },
            requirement@,
        ));
    }
    s
}

/// The capitalised language name used in the requirement-analysis prompt.
pub open spec fn spec_requirement_language(st: Seq<Seq<char>>) -> Seq<char>
    decreases st.len(),
{
    if st.len() == 0 {
        "Rust"@
    } else if st[0] == "rust"@ {
        "Rust"@
    } else if st[0] == "nodejs"@ {
        "JavaScript/Node.js"@
    } else if st[0] == "python"@ {
        "Python"@
    } else if st[0] == "go"@ {
        "Go"@
    } else if st[0] == "java"@ {
        "Java"@
    } else {
        spec_requirement_language(st.drop_first())
    }
}

pub fn requirement_primary_language(tech_stack: &Vec<String>) -> (r: String)
    ensures
        r@ == spec_requirement_language(views_of(tech_stack@)),
{
    let n = tech_stack.len();
    let ghost sv = views_of(tech_stack@);
    let mut i: usize = 0;
    proof {
        assert(sv.skip(0) =~= sv);
    }
    while i < n
        invariant
            n == tech_stack@.len(),
            sv == views_of(tech_stack@),
            i <= n,
            spec_requirement_language(sv) == spec_requirement_language(sv.skip(i as int)),
        decreases n - i,
    {
        let ghost rest = sv.skip(i as int);
        proof {
            assert(rest[0] == sv[i as int]);
            assert(rest.drop_first() =~= sv.skip(i + 1));
        }
        let tech = tech_stack[i].as_str();
        if crate::text::str_eq(tech, "rust") {
            return "Rust".to_owned();
        } else if crate::text::str_eq(tech, "nodejs") {
            return "JavaScript/Node.js".to_owned();
        } else if crate::text::str_eq(tech, "python") {
            return "Python".to_owned();
        } else if crate::text::str_eq(tech, "go") {
            return "Go".to_owned();
        } else if crate::text::str_eq(tech, "java") {
            return "Java".to_owned();
        }
        i += 1;
    }
    proof {
        assert(sv.skip(n as int).len() == 0);
    }
    "Rust".to_owned()
}

} // verus!
