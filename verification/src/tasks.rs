//! Task workflow transitions: starting a task, completing it, and folding
//! the completed effort into its sprint's progress.

use vstd::prelude::*;
use crate::config::{BacklogItem, Project, Sprint, Status};
use crate::text::{lower_seq, spec_trim, str_eq, str_trim, string_eq, ascii_lowercase};

verus! {

/// Marks the named task `InProgress`.  Returns whether it was found; when
/// it was, exactly the first item with that identifier changes, and only
/// its status.
pub fn start_task_update(project: &mut Project, id: &str) -> (found: bool)
    ensures
        final(project).meta == old(project).meta,
        final(project).sprints == old(project).sprints,
        final(project).current_sprint == old(project).current_sprint,
        final(project).resolved_llm_config == old(project).resolved_llm_config,
        final(project).backlog@.len() == old(project).backlog@.len(),
        found <==> exists|k: int|
            0 <= k < old(project).backlog@.len() && #[trigger] old(project).backlog@[k].id@ == id@,
        found ==> exists|k: int|
            {
                &&& 0 <= k < old(project).backlog@.len()
                &&& #[trigger] old(project).backlog@[k].id@ == id@
                &&& (forall|j: int| 0 <= j < k ==> old(project).backlog@[j].id@ != id@)
                &&& (forall|j: int|
                    0 <= j < old(project).backlog@.len() && j != k ==> final(project).backlog@[j]
                        == old(project).backlog@[j])
                &&& final(project).backlog@[k].status == Status::InProgress
                &&& final(project).backlog@[k].id == old(project).backlog@[k].id
                &&& final(project).backlog@[k].item_type == old(project).backlog@[k].item_type
                &&& final(project).backlog@[k].title == old(project).backlog@[k].title
                &&& final(project).backlog@[k].story == old(project).backlog@[k].story
                &&& final(project).backlog@[k].acceptance_criteria == old(
                    project,
                ).backlog@[k].acceptance_criteria
                &&& final(project).backlog@[k].priority == old(project).backlog@[k].priority
                &&& final(project).backlog@[k].effort == old(project).backlog@[k].effort
                &&& final(project).backlog@[k].created == old(project).backlog@[k].created
                &&& final(project).backlog@[k].sprint == old(project).backlog@[k].sprint
                &&& final(project).backlog@[k].dependencies == old(
                    project,
                ).backlog@[k].dependencies
            },
        !found ==> final(project).backlog == old(project).backlog,
{
    let idx = match project.get_backlog_item_index(id) {
        Some(i) => i,
        None => {
            return false;
        },
    };
    project.backlog[idx].status = Status::InProgress;
    true
}

/// A sprint with the task's effort folded into its completed points, and
/// nothing else changed.
pub open spec fn sprint_credited(oldspr: Sprint, newspr: Sprint, effort: u32) -> bool {
    &&& newspr.completed_points == oldspr.completed_points + effort
    &&& newspr.id == oldspr.id
    &&& newspr.goal == oldspr.goal
    &&& newspr.start_date == oldspr.start_date
    &&& newspr.end_date == oldspr.end_date
    &&& newspr.status == oldspr.status
    &&& newspr.total_points == oldspr.total_points
    &&& newspr.tasks == oldspr.tasks
    &&& newspr.stories == oldspr.stories
    &&& newspr.planned_velocity == oldspr.planned_velocity
    &&& newspr.actual_velocity == oldspr.actual_velocity
}

/// A backlog item marked `Done`, otherwise unchanged.
pub open spec fn item_done(olditem: BacklogItem, newitem: BacklogItem) -> bool {
    &&& newitem.status == Status::Done
    &&& newitem.id == olditem.id
    &&& newitem.item_type == olditem.item_type
    &&& newitem.title == olditem.title
    &&& newitem.story == olditem.story
    &&& newitem.acceptance_criteria == olditem.acceptance_criteria
    &&& newitem.priority == olditem.priority
    &&& newitem.effort == olditem.effort
    &&& newitem.created == olditem.created
    &&& newitem.sprint == olditem.sprint
    &&& newitem.dependencies == olditem.dependencies
}

/// Marks the first task with the given identifier `Done` and adds its
/// effort to the completed points of the first sprint it names, when that
/// sprint exists.  Returns whether the task was found.
pub fn complete_task_update(project: &mut Project, id: &str) -> (found: bool)
    requires
        forall|s: int, k: int|
            0 <= s < old(project).sprints@.len() && 0 <= k < old(project).backlog@.len()
                ==> (#[trigger] old(project).sprints@[s].completed_points) + (#[trigger] old(
                project,
            ).backlog@[k].effort) <= u32::MAX,
    ensures
        final(project).meta == old(project).meta,
        final(project).current_sprint == old(project).current_sprint,
        final(project).resolved_llm_config == old(project).resolved_llm_config,
        final(project).backlog@.len() == old(project).backlog@.len(),
        found <==> exists|k: int|
            0 <= k < old(project).backlog@.len() && #[trigger] old(project).backlog@[k].id@ == id@,
        !found ==> final(project).backlog == old(project).backlog && final(project).sprints == old(
            project,
        ).sprints,
        found ==> exists|k: int|
            {
                &&& 0 <= k < old(project).backlog@.len()
                &&& #[trigger] old(project).backlog@[k].id@ == id@
                &&& (forall|j: int| 0 <= j < k ==> old(project).backlog@[j].id@ != id@)
                &&& (forall|j: int|
                    0 <= j < old(project).backlog@.len() && j != k ==> final(project).backlog@[j]
                        == old(project).backlog@[j])
                &&& item_done(old(project).backlog@[k], final(project).backlog@[k])
                &&& ({
                    let it = old(project).backlog@[k];
                    match it.sprint {
                        Some(sid) => {
                            if exists|s: int|
                                0 <= s < old(project).sprints@.len() && #[trigger] old(
                                    project,
                                ).sprints@[s].id@ == sid@ {
                                exists|s: int|
                                    {
                                        &&& 0 <= s < old(project).sprints@.len()
                                        &&& #[trigger] old(project).sprints@[s].id@ == sid@
                                        &&& (forall|t: int|
                                            0 <= t < s ==> old(project).sprints@[t].id@ != sid@)
                                        &&& (forall|t: int|
                                            0 <= t < old(project).sprints@.len() && t != s
                                                ==> final(project).sprints@[t] == old(
                                                project,
                                            ).sprints@[t])
                                        &&& final(project).sprints@.len() == old(
                                            project,
                                        ).sprints@.len()
                                        &&& sprint_credited(
                                            old(project).sprints@[s],
                                            final(project).sprints@[s],
                                            it.effort,
                                        )
                                    }
                            } else {
                                final(project).sprints == old(project).sprints
                            }
                        },
                        None => final(project).sprints == old(project).sprints,
                    }
                })
            },
{
    let idx = match project.get_backlog_item_index(id) {
        Some(i) => i,
        None => {
            return false;
        },
    };
    project.backlog[idx].status = Status::Done;
    let effort = project.backlog[idx].effort;
    let sprint_id: Option<String> = match &project.backlog[idx].sprint {
        Some(s) => Some(s.clone()),
        None => None,
    };
    let ghost b1 = project.backlog@;
    if let Some(sid) = sprint_id {
        let n = project.sprints.len();
        let mut s: usize = 0;
        while s < n
            invariant
                n == project.sprints@.len(),
                s <= n,
                project.sprints == old(project).sprints,
                project.meta == old(project).meta,
                project.current_sprint == old(project).current_sprint,
                project.resolved_llm_config == old(project).resolved_llm_config,
                project.backlog@ == b1,
                b1.len() == old(project).backlog@.len(),
                0 <= idx < old(project).backlog@.len(),
                old(project).backlog@[idx as int].id@ == id@,
                forall|j: int| 0 <= j < idx ==> old(project).backlog@[j].id@ != id@,
                forall|j: int|
                    0 <= j < old(project).backlog@.len() && j != idx ==> b1[j] == old(
                        project,
                    ).backlog@[j],
                item_done(old(project).backlog@[idx as int], b1[idx as int]),
                old(project).backlog@[idx as int].sprint matches Some(ss) && ss@ == sid@,
                effort == old(project).backlog@[idx as int].effort,
                forall|t: int|
                    0 <= t < s ==> old(project).sprints@[t].id@ != sid@,
                forall|t: int|
                    0 <= t < n ==> (#[trigger] project.sprints@[t].completed_points) + effort
                        <= u32::MAX,
            decreases n - s,
        {
            if str_eq(project.sprints[s].id.as_str(), sid.as_str()) {
                let cur = project.sprints[s].completed_points;
                project.sprints[s].completed_points = cur + effort;
                return true;
            }
            s += 1;
        }
    }
    true
}

use crate::config::{spec_story_id, format_story_id, ItemType, Priority};
use crate::text::{matches_at, str_starts_with, views_of};
use crate::clock::now_unix;

/// The story sentence stored for a manually added story: the description
/// itself when it already reads as a story, otherwise wrapped in the
/// standard phrasing.
pub open spec fn spec_manual_story_text(description: Seq<char>) -> Seq<char> {
    if matches_at(description, "As a"@, 0) || matches_at(description, "As an"@, 0) {
        description
    } else {
        "As a user, I want "@ + description + " so that I can achieve my goals."@
    }
}

/// Adds a manually written story to the backlog under the next sequential
/// story identifier, counting user stories.  Returns the identifier.
pub fn add_manual_story_update(project: &mut Project, title: String, description: String) -> (sid:
    String)
    ensures
        final(project).meta == old(project).meta,
        final(project).sprints == old(project).sprints,
        final(project).current_sprint == old(project).current_sprint,
        final(project).resolved_llm_config == old(project).resolved_llm_config,
        sid@ == spec_story_id(
            (old(project).backlog@.filter(
                |it: BacklogItem| it.item_type == ItemType::UserStory,
            ).len() + 1) as nat,
        ),
        final(project).backlog@.len() == old(project).backlog@.len() + 1,
        forall|j: int|
            0 <= j < old(project).backlog@.len() ==> final(project).backlog@[j] == old(
                project,
            ).backlog@[j],
        ({
            let item = final(project).backlog@.last();
            &&& item.id@ == sid@
            &&& item.item_type == ItemType::UserStory
            &&& item.title == title
            &&& item.story@ == spec_manual_story_text(description@)
            &&& views_of(item.acceptance_criteria@) == seq![
                "Define clear acceptance criteria"@,
                "Write unit tests"@,
                "Update documentation"@,
            ]
            &&& item.priority == Priority::Medium
            &&& item.effort == 3
            &&& item.status == Status::Todo
            &&& item.sprint is None
            &&& item.dependencies@.len() == 0
        }),
{
    let count = project.count_user_stories();
    let story_num: u128 = count as u128 + 1;
    let story_id = format_story_id(story_num);
    let story_text: String = if str_starts_with(description.as_str(), "As a") || str_starts_with(
        description.as_str(),
        "As an",
    ) {
        description
    } else {
        let mut s = "As a user, I want ".to_owned();
        s.append(description.as_str());
        s.append(" so that I can achieve my goals.");
        proof {
            assert(s@ =~= "As a user, I want "@ + description@
                + " so that I can achieve my goals."@);
        }
        s
    };
    let mut criteria: Vec<String> = Vec::new();
    criteria.push("Define clear acceptance criteria".to_owned());
    criteria.push("Write unit tests".to_owned());
    criteria.push("Update documentation".to_owned());
    proof {
        assert(views_of(criteria@) =~= seq![
            "Define clear acceptance criteria"@,
            "Write unit tests"@,
            "Update documentation"@,
        ]);
    }
    let item = BacklogItem {
        id: story_id.clone(),
        item_type: ItemType::UserStory,
        title,
        story: story_text,
        acceptance_criteria: criteria,
        priority: Priority::Medium,
        effort: 3,
        status: Status::Todo,
        created: now_unix(),
        sprint: None,
        dependencies: Vec::new(),
    };
    project.backlog.push(item);
    story_id
}

/// How a yes/no answer reads once trimmed and lowercased.
pub open spec fn spec_is_yes(answer: Seq<char>) -> bool {
    lower_seq(spec_trim(answer)) == "yes"@ || lower_seq(spec_trim(answer)) == "y"@
}

/// Whether a dependency-approval answer accepts, as the assistant reads
/// it: `yes` or `y`, in any case, surrounding whitespace ignored.
pub fn answer_is_yes(answer: &str) -> (r: bool)
    ensures
        r == spec_is_yes(answer@),
{
    let t = str_trim(answer);
    let lowered = ascii_lowercase(t);
    string_eq(&lowered, "yes") || string_eq(&lowered, "y")
}

/// What a per-change approval answer asks for.
#[derive(Debug, Clone, Copy, PartialEq, Eq, Structural)]
pub enum ApprovalAnswer {
    Yes,
    No,
    Details,
    SkipAll,
    Invalid,
}

/// The reading of a per-change approval answer.
pub open spec fn spec_approval_answer(answer: Seq<char>) -> ApprovalAnswer {
    let t = lower_seq(spec_trim(answer));
    if t == "yes"@ || t == "y"@ {
        ApprovalAnswer::Yes
    } else if t == "no"@ || t == "n"@ {
        ApprovalAnswer::No
    } else if t == "details"@ || t == "d"@ {
        ApprovalAnswer::Details
    } else if t == "skip_all_code"@ || t == "s"@ {
        ApprovalAnswer::SkipAll
    } else {
        ApprovalAnswer::Invalid
    }
}

/// Classifies a per-change approval answer, as [`spec_approval_answer`]
/// states.
pub fn classify_approval_answer(answer: &str) -> (r: ApprovalAnswer)
    ensures
        r == spec_approval_answer(answer@),
{
    let t = str_trim(answer);
    let lowered = ascii_lowercase(t);
    if string_eq(&lowered, "yes") || string_eq(&lowered, "y") {
        ApprovalAnswer::Yes
    } else if string_eq(&lowered, "no") || string_eq(&lowered, "n") {
        ApprovalAnswer::No
    } else if string_eq(&lowered, "details") || string_eq(&lowered, "d") {
        ApprovalAnswer::Details
    } else if string_eq(&lowered, "skip_all_code") || string_eq(&lowered, "s") {
        ApprovalAnswer::SkipAll
    } else {
        ApprovalAnswer::Invalid
    }
}

/// What the answer to a sprint-plan suggestion asks for.
#[derive(Debug, Clone, Copy, PartialEq, Eq, Structural)]
pub enum PlanAnswer {
    Accept,
    Manual,
    Skip,
}

/// The reading of a sprint-plan answer: `yes`/`y` accepts, `manual`/`m`
/// asks for manual selection, anything else skips the suggestions.
pub open spec fn spec_plan_answer(answer: Seq<char>) -> PlanAnswer {
    let t = lower_seq(spec_trim(answer));
    if t == "yes"@ || t == "y"@ {
        PlanAnswer::Accept
    } else if t == "manual"@ || t == "m"@ {
        PlanAnswer::Manual
    } else {
        PlanAnswer::Skip
    }
}

pub fn classify_plan_answer(answer: &str) -> (r: PlanAnswer)
    ensures
        r == spec_plan_answer(answer@),
{
    let t = str_trim(answer);
    let lowered = ascii_lowercase(t);
    if string_eq(&lowered, "yes") || string_eq(&lowered, "y") {
        PlanAnswer::Accept
    } else if string_eq(&lowered, "manual") || string_eq(&lowered, "m") {
        PlanAnswer::Manual
    } else {
        PlanAnswer::Skip
    }
}

} // verus!
