//! The built-in text templates: prompt scaffolding for the three LLM
//! roles, the README skeleton, and the ignore-file additions.

use vstd::prelude::*;
use crate::clock::{date_string, date_string_of, now_unix};

verus! {

pub struct Templates;

/// The project file skeleton for a given name and creation date.
pub open spec fn spec_project_json_template(name: Seq<char>, date: Seq<char>) -> Seq<char> {
    "{\n  \"meta\": {\n    \"name\": \""@ + name
        + "\",\n    \"created\": \""@ + date
        + "\",\n    \"version\": \"0.1.0\",\n    \"llm\": {\n      \"host\": \"localhost\",\n      \"port\": 11434,\n      \"model\": \"deepseek-coder:6.7b\",\n      \"timeout_ms\": 30000\n    }\n  },\n  \"prd\": null,\n  \"backlog\": [],\n  \"sprints\": [],\n  \"current_sprint\": null,\n  \"releases\": []\n}"@
}

impl Templates {
    /// The project file skeleton, dated with today's date.
    pub fn project_json_template(project_name: &str) -> (r: String)
        ensures
            exists|ts: int| r@ == spec_project_json_template(project_name@, date_string_of(ts)),
    {
        let ts = now_unix();
        let date = date_string(ts);
        let mut s = "{\n  \"meta\": {\n    \"name\": \"".to_owned();
        s.append(project_name);
        s.append("\",\n    \"created\": \"");
        s.append(date.as_str());
        s.append(
            "\",\n    \"version\": \"0.1.0\",\n    \"llm\": {\n      \"host\": \"localhost\",\n      \"port\": 11434,\n      \"model\": \"deepseek-coder:6.7b\",\n      \"timeout_ms\": 30000\n    }\n  },\n  \"prd\": null,\n  \"backlog\": [],\n  \"sprints\": [],\n  \"current_sprint\": null,\n  \"releases\": []\n}",
        );
        proof {
            assert(s@ =~= spec_project_json_template(project_name@, date_string_of(ts as int)));
        }
        s
    }

    pub fn requirements_analyst_prompt() -> &'static str {
        "You are a skilled requirements analyst for software projects.\n\nTASK: Transform the following natural language description into structured project requirements.\n\nUSER INPUT: \"{input}\"\n\nPlease respond with a JSON object containing:\n1. \"problem\": A clear, one-paragraph problem statement\n2. \"solution\": High-level solution approach  \n3. \"success_metrics\": Array of 3-5 measurable success criteria\n4. \"constraints\": Array of technical/business constraints\n5. \"user_stories\": Array of user stories\n\nEach user story should have:\n- \"title\": Short descriptive title\n- \"story\": \"As a [user] I want [goal] so that [benefit]\"\n- \"acceptance_criteria\": Array of testable conditions\n- \"priority\": \"high\", \"medium\", or \"low\"\n- \"effort\": Estimate 1-8 story points\n\nKeep stories focused and implementable. Aim for 2-5 user stories.\nReturn only valid JSON."
    }

    pub fn code_reviewer_prompt() -> &'static str {
        "You are an experienced Rust engineer assessing code.\n\nREQUIREMENTS: {requirements}\n\nCODE TO ASSESS:\n```rust\n{code}\n```\n\nPlease assess the code focusing on:\n1. Correctness and adherence to requirements\n2. Rust best practices and idioms\n3. Error handling\n4. Code organization and readability\n5. Performance considerations\n\nRespond with:\n- Overall quality score (1-10)\n- Specific strengths\n- Specific areas for improvement\n- Suggested fixes (if any)\n\nBe constructive and specific in your feedback."
    }

    pub fn task_assistant_prompt() -> &'static str {
        "You are a Rust development assistant.\n\nTASK: {task_description}\n\nACCEPTANCE CRITERIA:\n{acceptance_criteria}\n\nPlease help with implementation by providing:\n1. Suggested approach and architecture\n2. Key Rust crates/dependencies needed\n3. Code skeleton with proper error handling\n4. Unit test examples\n5. Implementation tips specific to Rust\n\nFocus on practical, working code that follows Rust best practices."
    }

    pub fn gitignore_additions() -> &'static str {
        "\n# env-coach\n.env-coach/cache/\n.env-coach/logs/\n"
    }

    /// The README written for a fresh project, headed by its name.
    pub fn readme_template(project_name: &str) -> (r: String)
        ensures
            r@ == "# "@ + project_name@ + spec_readme_body(),
    {
        let mut s = "# ".to_owned();
        s.append(project_name);
        s.append(README_BODY);
        proof {
            assert(s@ =~= "# "@ + project_name@ + spec_readme_body());
        }
        s
    }

    pub fn default_requirements_analyst_prompt_content() -> String {
        "You are a software engineering expert analyzing requirements for a project.\n\nPROJECT CONTEXT:\n- Project Name: {{project_name}}\n- Description: {{project_description}}\n- Tech Stack: {{tech_stack}}\n- Primary Language: {{primary_language}}\n- Tags: {{tags}}\n\nREQUIREMENT TO ANALYZE: \"{{requirement}}\"\n\nPlease respond with a JSON object containing a single key \"user_stories\".\nThe value of \"user_stories\" should be an array of JSON objects, where each object represents a user story.\nEach user story object must have the following fields:\n- \"title\": A brief, descriptive title for the user story.\n- \"story\": The user story in the format \"As a [user type], I want [goal] so that [reason/benefit]\".\n- \"priority\": The priority of the user story. Valid values are \"Critical\", \"High\", \"Medium\", \"Low\".\n- \"effort\": An estimated effort for the user story, as an integer (e.g., 1, 2, 3, 5, 8).\n- \"acceptance_criteria\": An array of strings, where each string is a specific, testable acceptance criterion.\n\nFocus on:\n1. Breaking down the requirement into appropriate user stories.\n2. Writing clear and concise acceptance criteria.\n3. Estimating effort and assigning priority based on typical software development projects.\n4. Tailoring acceptance criteria to be actionable and testable, considering the project's tech stack if relevant.\n\nGenerate 2-5 user stories that comprehensively cover the requirement.\nReturn *only* the valid JSON object, starting with `{` and ending with `}`. Do not put any other text or explanations outside the JSON structure.\n\nExample of a single user story object:\n{\n  \"title\": \"User Login Feature\",\n  \"story\": \"As a registered user, I want to log in to the application so that I can access my personalized content.\",\n  \"priority\": \"High\",\n  \"effort\": 3,\n  \"acceptance_criteria\": [\n    \"User can enter credentials (username/password).\",\n    \"System validates credentials against stored user data.\",\n    \"Successful login redirects to the user dashboard.\",\n    \"Failed login shows an appropriate error message.\"\n  ]\n}\n".to_owned()
    }

    pub fn default_sprint_planner_prompt_content() -> String {
        "You are an expert Agile Sprint Planner. Your task is to help select user stories from the project backlog that best fit the given sprint goal and constraints.\n\n**Sprint Goal:**\n{{sprint_goal}}\n\n{{#if sprint_duration_days}}\n**Sprint Duration:** {{sprint_duration_days}} days\n{{/if}}\n\n{{#if target_capacity_points}}\n**Target Capacity (Story Points):** {{target_capacity_points}}\n{{/if}}\n\n**Project Backlog (User Stories):**\nThe following user stories are available in the backlog. Each item is listed with its ID, Title, Priority, and Effort (in story points).\n\n{{#each backlog_items}}\n- **ID:** {{this.id}}\n  - **Title:** {{this.title}}\n  {{#if this.story_summary}}\n  - **Summary:** {{this.story_summary}}\n  {{/if}}\n  - **Priority:** {{this.priority}}\n  - **Effort:** {{this.effort}} points\n{{/each}}\n\n**Instructions:**\n\n1.  **Analyze the Sprint Goal:** Understand the primary objective for this sprint.\n2.  **Review Backlog Items:** Evaluate each user story's relevance to the sprint goal.\n3.  **Consider Constraints:**\n    *   Prioritize higher priority items (Critical > High > Medium > Low).\n    *   If target capacity is provided, try to select stories whose total effort is close to this capacity without significantly exceeding it.\n    *   If sprint duration is provided, consider what can realistically be achieved.\n4.  **Selection:** Choose a set of user story IDs that form a cohesive and achievable plan for the sprint, directly contributing to the sprint goal.\n5.  **Output:** Respond with a JSON object containing a single key: `\"suggested_story_ids\"`. The value should be an array of strings, where each string is the ID of a suggested user story.\n    Optionally, you can add a `\"reasoning\"` field with a brief explanation for your selection.\n\n**Example Output Format:**\n```json\n{\n  \"suggested_story_ids\": [\n    \"US-001\",\n    \"US-003\",\n    \"US-008\"\n  ],\n  \"reasoning\": \"Selected stories directly address the core aspects of the sprint goal 'Implement User Authentication'. US-001 is critical, and US-003 and US-008 are high-priority supporting features with a combined effort that fits the typical capacity.\"\n}\n```\n\nReturn *only* the valid JSON object. Do not put any other text or explanations outside the JSON structure.\nIf no stories seem appropriate or fit the capacity, return an empty array for `suggested_story_ids`.\n".to_owned()
    }

    pub fn default_task_assistant_prompt_content() -> String {
        "You are an expert pair programmer and software development assistant, specializing in {{primary_language}}.\nYour goal is to provide actionable suggestions, with code, dependency updates, and file modifications, to help implement a given task.\n\n**Project Context:**\n- Project Name: {{project_name}}\n- Description: {{project_description}}\n- Tech Stack: {{tech_stack}}\n- Primary Language: {{primary_language}}\n- Tags: {{tags}}\n\n**Current Task Details:**\n- Task ID: {{task_id}}\n- Title: {{task_title}}\n- Story: {{task_story}}\n- Acceptance Criteria:\n{{#each task_acceptance_criteria}}\n  - {{this}}\n{{/each}}\n\n**User's Specific Request/Question (if any):**\n{{user_prompt}}\n\n**Instructions:**\n\nProvide your assistance as a single JSON object. The root object should have a key \"suggestions\" which is an array of suggestion objects. Each suggestion object must have a \"type\" field and other fields relevant to its type.\n\n**Suggestion Types and Formats:**\n\n1.  **`cargo_dependency`**: For adding dependencies to `Cargo.toml`.\n    -   `type`: \"cargo_dependency\"\n    -   `dependency_lines`: Array of strings. Each string is a complete line to be added under `[dependencies]` in `Cargo.toml` (e.g., \"serde = { version = \\\"1.0\\\", features = [\\\"derive\\\"] }\").\n    -   `notes` (optional): Brief explanation.\n\n2.  **`source_code`**: For providing source code for new or existing files.\n    -   `type`: \"source_code\"\n    -   `target_file`: String. The full suggested path for the file from the project root (e.g., \"src/main.rs\", \"src/module/new_feature.rs\").\n    -   `action`: String. One of:\n        -   `create`: Create a new file with the provided content. Should only be used if the file doesn't exist.\n        -   `replace`: Replace the entire content of an existing file. Use with caution.\n        -   `append_to_file`: Add the content to the end of an existing file.\n        -   `replace_function`: Replace an entire existing function. Requires `function_name`.\n        -   `append_to_function`: Add content inside an existing function. Requires `function_name`. (Less common, use carefully).\n        -   `add_import`: Add an import statement. Requires `import_statement`.\n    -   `content` (optional for some actions like `add_import`): String. The actual source code or text to use.\n    -   `function_name` (optional): String. The name of the target function for actions like `replace_function` or `append_to_function`.\n    -   `import_statement` (optional): String. The full import line (e.g., \"use crate::my_module::MyStruct;\").\n    -   `notes` (optional): Brief explanation about this code or modification.\n\n3.  **`general_advice`**: For textual explanations, architectural suggestions, best practices, or steps the user should take manually.\n    -   `type`: \"general_advice\"\n    -   `content`: String. The textual advice.\n    -   `notes` (optional): Brief explanation.\n\n**Example JSON Output Structure:**\n```json\n{\n  \"suggestions\": [\n    {\n      \"type\": \"cargo_dependency\",\n      \"dependency_lines\": [\n        \"clap = { version = \\\"4.0\\\", features = [\\\"derive\\\"] }\"\n      ],\n      \"notes\": \"Clap is used for command-line argument parsing.\"\n    },\n    {\n      \"type\": \"source_code\",\n      \"target_file\": \"src/main.rs\",\n      \"action\": \"replace\",\n      \"content\": \"fn main() {\\n    println!(\\\"Hello, new world!\\\");\\n}\",\n      \"notes\": \"Updated main function to reflect new requirements.\"\n    },\n    {\n      \"type\": \"source_code\",\n      \"target_file\": \"src/utils.rs\",\n      \"action\": \"create\",\n      \"content\": \"pub fn helper_function() -> bool {\\n    true\\n}\",\n      \"notes\": \"A new utility module.\"\n    },\n    {\n      \"type\": \"general_advice\",\n      \"content\": \"Remember to run `cargo fmt` and `cargo clippy` after these changes. Consider adding more unit tests for the new utility functions.\",\n      \"notes\": \"Good practices to follow.\"\n    }\n  ],\n  \"overall_summary\": \"Provided dependencies for CLI parsing, updated main.rs, created a new utils.rs, and gave some general advice.\"\n}\n```\n\n**Guidelines for your response:**\n-   Ensure the output is **only the valid JSON object** as described. Do not add any introductory text, apologies, or sign-offs outside the JSON structure.\n-   If suggesting code for {{primary_language}}, ensure it is idiomatic and follows best practices for that language.\n-   Be specific with file paths and actions. If modifying an existing file, try to be precise (e.g., suggest replacing a specific function if possible, rather than the whole file, unless necessary).\n-   If the user's request is unclear or too broad for a direct code solution, provide `general_advice` on how to approach it or break it down.\n-   Provide complete and runnable code examples where applicable.\n".to_owned()
    }
}

/// The fixed body of the generated README, after the project name.
pub open spec fn spec_readme_body() -> Seq<char> {
    README_BODY@
}

pub const README_BODY: &'static str = "\n\nThis project uses [env-coach](https://github.com/your-repo/env-coach) for AI-assisted development.\n\n## Quick Start\n\n```bash\n# Initialize env-coach in your project (uses current directory name)\nenv-coach init\n\n# Or specify a custom name\nenv-coach init \"MyProject\"\n\n# Check project status and LLM connectivity\nenv-coach status\n\n# Add requirements in natural language\nenv-coach add-requirement \"I want to build a REST API for user management\"\n\n# View and manage backlog\nenv-coach list-backlog\n\n# Work with user stories\nenv-coach add-story --title \"User Authentication\" --description \"Login system\"\nenv-coach list-stories\n\n# Plan sprints (coming soon)\nenv-coach plan-sprint --goal \"MVP development\"\n\n# Start development workflow\nenv-coach start-task <task-id>\nenv-coach assist-task <task-id>  # Get AI help\nenv-coach complete-task <task-id>\n\n# Send custom prompts to AI\nenv-coach llm-cycle --prompt \"How do I implement JWT authentication in Rust?\"\n```\n\n## Project Structure\n\n- `project.json` - Project configuration and backlog\n- `.env-coach/` - env-coach specific files (cache, logs)\n- `README.md` - This file\n- `.gitignore` - Git ignore rules (with env-coach entries)\n\n## Commands Overview\n\n| Command | Description |\n|---------|-------------|\n| `env-coach init` | Initialize project (uses current directory) |\n| `env-coach status` | Show project status and LLM connectivity |\n| `env-coach add-requirement \"...\"` | Convert natural language to user stories |\n| `env-coach list-backlog` | View all backlog items |\n| `env-coach list-stories` | View user stories only |\n| `env-coach start-task <id>` | Start working on a task |\n| `env-coach assist-task <id>` | Get AI assistance for a task |\n| `env-coach complete-task <id>` | Mark task as completed |\n| `env-coach llm-cycle --prompt \"...\"` | Send custom prompt to AI |\n\n## LLM Configuration\n\nenv-coach uses Ollama by default. Make sure you have:\n\n1. [Ollama installed](https://ollama.ai)\n2. Ollama running: `ollama serve`\n3. Model downloaded: `ollama pull deepseek-coder:6.7b`\n\nThe LLM configuration is stored in `project.json` and can be customized.\n\n## Development Workflow\n\n1. **Initialize**: `env-coach init`\n2. **Add Requirements**: `env-coach add-requirement \"feature description\"`\n3. **Review Backlog**: `env-coach list-backlog`\n4. **Start Task**: `env-coach start-task US-001`\n5. **Get Help**: `env-coach assist-task US-001`\n6. **Complete**: `env-coach complete-task US-001`\n7. **Repeat**: Continue with next tasks\n\nGenerated by env-coach v0.1.0\n";

} // verus!
