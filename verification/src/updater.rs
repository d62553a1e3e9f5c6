//! The auto-updater: given an LLM response and the context it was asked
//! in, updates the in-memory project and computes the plan of outside
//! actions (files to touch, dependencies to add) that the caller carries
//! out.

use vstd::prelude::*;
use crate::config::{format_story_id, spec_story_id, BacklogItem, ItemType, Project, Status};
use crate::codegen::{extract_code_blocks, spec_code_blocks};
use crate::llm::{
    opt_string_view, parse_assist_task_response, parse_user_story_response, spec_parse_assist,
    spec_parse_user_stories, spec_priority_of, LlmParseError, LlmSingleSuggestion,
    LlmSourceCodeSuggestion, SourceCodeSuggestionView, SuggestionView, UserStoryView,
    convert_llm_story_to_backlog_item,
};
use crate::text::{spec_lines, views_of};
use crate::text_utils::{
    extract_stories_from_text, extracted_story_ok, kth_story_index, story_count_upto, us_count,
};

verus! {

/// What an LLM response is meant to update.
#[derive(Debug)]
pub enum UpdateContext {
    RequirementAnalysis,
    TaskCompletion(String),
    CodeGeneration(String),
    Documentation,
}

/// Holds the project while responses are folded into it.  Its view is
/// the project it holds.
pub struct AutoUpdater {
    project: Project,
}

impl View for AutoUpdater {
    type V = Project;

    closed spec fn view(&self) -> Project {
        self.project
    }
}

fn clone_string_vec(v: &Vec<String>) -> (r: Vec<String>)
    ensures
        r@ == v@,
{
    let n = v.len();
    let mut out: Vec<String> = Vec::new();
    let mut i: usize = 0;
    while i < n
        invariant
            n == v@.len(),
            i <= n,
            out@.len() == i,
            forall|j: int| 0 <= j < i ==> out@[j] == v@[j],
        decreases n - i,
    {
        out.push(v[i].clone());
        i += 1;
    }
    proof {
        assert(out@ =~= v@);
    }
    out
}

fn clone_opt_string(v: &Option<String>) -> (r: Option<String>)
    ensures
        r == v,
{
    match v {
        Some(s) => Some(s.clone()),
        None => None,
    }
}

fn clone_story(s: &crate::llm::LlmUserStory) -> (r: crate::llm::LlmUserStory)
    ensures
        r@ == s@,
        r.priority == s.priority,
{
    crate::llm::LlmUserStory {
        title: s.title.clone(),
        story: s.story.clone(),
        priority: s.priority.clone(),
        effort: s.effort,
        acceptance_criteria: clone_string_vec(&s.acceptance_criteria),
    }
}

fn clone_source_suggestion(s: &LlmSourceCodeSuggestion) -> (r: LlmSourceCodeSuggestion)
    ensures
        r@ == s@,
{
    LlmSourceCodeSuggestion {
        target_file: s.target_file.clone(),
        action: s.action,
        content: s.content.clone(),
        function_name: clone_opt_string(&s.function_name),
        import_statement: clone_opt_string(&s.import_statement),
        notes: clone_opt_string(&s.notes),
    }
}

/// The computed plan for a code-generation response: what the caller
/// should offer to apply.  When the response was not structured JSON, the
/// fenced code blocks found in the raw text stand in `fallback_blocks`
/// instead.
pub struct CodeGenPlan {
    pub overall_summary: Option<String>,
    pub cargo_deps_to_add: Vec<String>,
    pub source_suggestions: Vec<LlmSourceCodeSuggestion>,
    pub general_advice: Vec<String>,
    pub fallback_blocks: Option<Vec<(String, String)>>,
}

/// What processing a response amounts to.
pub enum UpdateOutcome {
    /// Requirement analysis: how many stories were added to the backlog.
    StoriesAdded(usize),
    /// Task completion: the documentation for the named task should be
    /// refreshed on disk.
    DocsForTask(String),
    /// Code generation: the plan of suggested changes.
    CodeGen(CodeGenPlan),
    /// The documentation context asks for nothing else.
    DocumentationOnly,
}

/// The dependency lines proposed across all suggestions, in order.
pub open spec fn spec_deps_of(sugs: Seq<SuggestionView>) -> Seq<Seq<char>>
    decreases sugs.len(),
{
    if sugs.len() == 0 {
        Seq::empty()
    } else {
        (match sugs[0] {
            SuggestionView::CargoDependency(c) => c.dependency_lines,
            _ => Seq::empty(),
        }) + spec_deps_of(sugs.drop_first())
    }
}

/// The source-code suggestions, in order.
pub open spec fn spec_code_of(sugs: Seq<SuggestionView>) -> Seq<SourceCodeSuggestionView>
    decreases sugs.len(),
{
    if sugs.len() == 0 {
        Seq::empty()
    } else {
        (match sugs[0] {
            SuggestionView::SourceCode(c) => seq![c],
            _ => Seq::empty(),
        }) + spec_code_of(sugs.drop_first())
    }
}

/// The advice texts gathered along the way: dependency notes, advice
/// bodies, and advice notes, each labelled as the assistant prints them.
pub open spec fn spec_advice_of(sugs: Seq<SuggestionView>) -> Seq<Seq<char>>
    decreases sugs.len(),
{
    if sugs.len() == 0 {
        Seq::empty()
    } else {
        (match sugs[0] {
            SuggestionView::CargoDependency(c) => match c.notes {
                Some(n) => seq!["Cargo dep notes: "@ + n],
                None => Seq::empty(),
            },
            SuggestionView::SourceCode(_) => Seq::empty(),
            SuggestionView::GeneralAdvice(a) => seq![a.content] + (match a.notes {
                Some(n) => seq!["Advice notes: "@ + n],
                None => Seq::empty(),
            }),
        }) + spec_advice_of(sugs.drop_first())
    }
}

/// What a correct plan for a code-generation response looks like.
pub open spec fn code_gen_plan_ok(
    response: Seq<char>,
    stack: Seq<Seq<char>>,
    plan: CodeGenPlan,
) -> bool {
    match spec_parse_assist(response) {
        Ok(resp) => {
            &&& opt_string_view(plan.overall_summary) == resp.overall_summary
            &&& views_of(plan.cargo_deps_to_add@) == spec_deps_of(resp.suggestions)
            &&& plan.source_suggestions@.map_values(|s: LlmSourceCodeSuggestion| s@)
                == spec_code_of(resp.suggestions)
            &&& views_of(plan.general_advice@) == spec_advice_of(resp.suggestions)
            &&& plan.fallback_blocks is None
        },
        Err(_) => {
            &&& plan.overall_summary is None
            &&& plan.cargo_deps_to_add@.len() == 0
            &&& plan.source_suggestions@.len() == 0
            &&& plan.general_advice@.len() == 0
            &&& match plan.fallback_blocks {
                Some(b) => b@.map_values(|p: (String, String)| (p.0@, p.1@)) == spec_code_blocks(
                    stack,
                    response,
                ),
                None => false,
            }
        },
    }
}

/// What the analysis appends for the `k`-th proposed story, with `c0` the
/// count of `US-` items before the call.
pub open spec fn analyzed_story_ok(
    stories: Seq<UserStoryView>,
    c0: nat,
    k: int,
    item: BacklogItem,
) -> bool {
    &&& item.id@ == spec_story_id((c0 + 1 + k) as nat)
    &&& item.item_type == ItemType::UserStory
    &&& item.title@ == stories[k].title
    &&& item.story@ == stories[k].story
    &&& views_of(item.acceptance_criteria@) == stories[k].acceptance_criteria
    &&& item.priority == spec_priority_of(stories[k].priority)
    &&& item.effort == stories[k].effort
    &&& item.status == Status::Todo
    &&& item.sprint is None
    &&& item.dependencies@.len() == 0
}

/// How a requirement-analysis response changes the project: stories from a
/// well-formed response are appended in order with sequential identifiers;
/// any other response falls back to line-by-line extraction from the text.
pub open spec fn requirement_analysis_ok(
    response: Seq<char>,
    oldp: Project,
    newp: Project,
    added: nat,
) -> bool {
    &&& newp.meta == oldp.meta
    &&& newp.sprints == oldp.sprints
    &&& newp.current_sprint == oldp.current_sprint
    &&& newp.resolved_llm_config == oldp.resolved_llm_config
    &&& newp.backlog@.len() == oldp.backlog@.len() + added
    &&& forall|j: int| 0 <= j < oldp.backlog@.len() ==> newp.backlog@[j] == oldp.backlog@[j]
    &&& match spec_parse_user_stories(response) {
        Ok(stories) => {
            &&& added == stories.len()
            &&& forall|k: int|
                0 <= k < added ==> analyzed_story_ok(
                    stories,
                    us_count(oldp.backlog@),
                    k,
                    #[trigger] newp.backlog@[oldp.backlog@.len() + k],
                )
        },
        Err(_) => {
            &&& added == story_count_upto(spec_lines(response), spec_lines(response).len() as int)
            &&& forall|k: int|
                0 <= k < added ==> extracted_story_ok(
                    spec_lines(response),
                    us_count(oldp.backlog@),
                    k as nat,
                    kth_story_index(spec_lines(response), 0, k as nat),
                    #[trigger] newp.backlog@[oldp.backlog@.len() + k],
                )
        },
    }
}

impl AutoUpdater {
    pub fn new(project: Project) -> (r: AutoUpdater)
        ensures
            r@ == project,
    {
        AutoUpdater { project }
    }

    /// The project as updated so far.
    pub fn get_project(&self) -> (r: &Project)
        ensures
            *r == self@,
    {
        &self.project
    }

    /// Gives the project back, updates and all.
    pub fn into_project(self) -> (r: Project)
        ensures
            r == self@,
    {
        self.project
    }

    fn update_project_from_requirement_analysis(&mut self, llm_response: &str) -> (added: usize)
        ensures
            requirement_analysis_ok(
                llm_response@,
                old(self).project,
                final(self).project,
                added as nat,
            ),
    {
        match parse_user_story_response(llm_response) {
            Ok(resp) => {
                let ghost stories = resp.user_stories@.map_values(|st: crate::llm::LlmUserStory| st@);
                let count0 = self.project.count_us_items();
                let ghost c0 = us_count(old(self).project.backlog@);
                proof {
                    assert(count0 == c0);
                }
                let n = resp.user_stories.len();
                let ghost oldbacklog = old(self).project.backlog@;
                let ghost oldproject = old(self).project;
                let mut added: usize = 0;
                while added < n
                    invariant
                        n == resp.user_stories@.len(),
                        stories == resp.user_stories@.map_values(
                            |st: crate::llm::LlmUserStory| st@,
                        ),
                        count0 == c0,
                        added <= n,
                        oldproject == old(self).project,
                        oldbacklog == oldproject.backlog@,
                        self.project.meta == oldproject.meta,
                        self.project.sprints == oldproject.sprints,
                        self.project.current_sprint == oldproject.current_sprint,
                        self.project.resolved_llm_config == oldproject.resolved_llm_config,
                        self.project.backlog@.len() == oldbacklog.len() + added,
                        forall|j: int|
                            0 <= j < oldbacklog.len() ==> self.project.backlog@[j] == oldbacklog[j],
                        forall|k: int|
                            0 <= k < added ==> analyzed_story_ok(
                                stories,
                                c0,
                                k,
                                #[trigger] self.project.backlog@[oldbacklog.len() + k],
                            ),
                    decreases n - added,
                {
                    let story = clone_story(&resp.user_stories[added]);
                    proof {
                        assert(story@ == stories[added as int]);
                    }
                    let story_num: u128 = count0 as u128 + 1 + added as u128;
                    let story_id = format_story_id(story_num);
                    match convert_llm_story_to_backlog_item(story, story_id) {
                        Some(item) => {
                            proof {
                                assert(analyzed_story_ok(stories, c0, added as int, item));
                            }
                            self.project.backlog.push(item);
                        },
                        None => {
                            proof {
                                assert(false);
                            }
                        },
                    }
                    added += 1;
                }
                added
            },
            Err(_) => extract_stories_from_text(&mut self.project, llm_response),
        }
    }

    fn plan_code_generation(&self, llm_response: &str) -> (plan: CodeGenPlan)
        ensures
            code_gen_plan_ok(
                llm_response@,
                views_of(self.project.meta.tech_stack@),
                plan,
            ),
    {
        match parse_assist_task_response(llm_response) {
            Ok(resp) => {
                let ghost sugs = resp.suggestions@.map_values(|s: LlmSingleSuggestion| s@);
                let n = resp.suggestions.len();
                let mut deps: Vec<String> = Vec::new();
                let mut code: Vec<LlmSourceCodeSuggestion> = Vec::new();
                let mut advice: Vec<String> = Vec::new();
                let mut i: usize = 0;
                proof {
                    assert(sugs.skip(0) =~= sugs);
                    assert(views_of(deps@) + spec_deps_of(sugs) =~= spec_deps_of(sugs));
                    assert(code@.map_values(|s: LlmSourceCodeSuggestion| s@) + spec_code_of(sugs)
                        =~= spec_code_of(sugs));
                    assert(views_of(advice@) + spec_advice_of(sugs) =~= spec_advice_of(sugs));
                }
                while i < n
                    invariant
                        n == resp.suggestions@.len(),
                        sugs == resp.suggestions@.map_values(|s: LlmSingleSuggestion| s@),
                        i <= n,
                        views_of(deps@) + spec_deps_of(sugs.skip(i as int)) =~= spec_deps_of(sugs),
                        code@.map_values(|s: LlmSourceCodeSuggestion| s@) + spec_code_of(
                            sugs.skip(i as int),
                        ) =~= spec_code_of(sugs),
                        views_of(advice@) + spec_advice_of(sugs.skip(i as int)) =~= spec_advice_of(
                            sugs,
                        ),
                    decreases n - i,
                {
                    let ghost rest = sugs.skip(i as int);
                    proof {
                        assert(rest[0] == sugs[i as int]);
                        assert(rest.drop_first() =~= sugs.skip(i + 1));
                    }
                    match &resp.suggestions[i] {
                        LlmSingleSuggestion::CargoDependency(c) => {
                            let ghost olddeps = views_of(deps@);
                            let m = c.dependency_lines.len();
                            let mut j: usize = 0;
                            while j < m
                                invariant
                                    m == c.dependency_lines@.len(),
                                    j <= m,
                                    views_of(deps@) =~= olddeps + views_of(
                                        c.dependency_lines@,
                                    ).take(j as int),
                                decreases m - j,
                            {
                                let ghost prevdeps = views_of(deps@);
                                deps.push(c.dependency_lines[j].clone());
                                proof {
                                    assert(views_of(deps@) =~= prevdeps.push(
                                        c.dependency_lines@[j as int]@,
                                    ));
                                    assert(views_of(c.dependency_lines@).take(j + 1)
                                        =~= views_of(c.dependency_lines@).take(j as int).push(
                                        c.dependency_lines@[j as int]@,
                                    ));
                                    assert(views_of(deps@) =~= olddeps + views_of(
                                        c.dependency_lines@,
                                    ).take(j + 1));
                                }
                                j += 1;
                            }
                            proof {
                                assert(views_of(c.dependency_lines@).take(m as int) =~= views_of(
                                    c.dependency_lines@,
                                ));
                                assert(rest[0] matches SuggestionView::CargoDependency(cv)
                                    && cv.dependency_lines == views_of(c.dependency_lines@));
                            }
                            match &c.notes {
                                Some(nt) => {
                                    let mut s = "Cargo dep notes: ".to_owned();
                                    s.append(nt.as_str());
                                    advice.push(s);
                                    proof {
                                        assert(views_of(advice@) =~= views_of(
                                            advice@.drop_last(),
                                        ).push(advice@.last()@));
                                        assert(advice@.last()@ =~= "Cargo dep notes: "@ + nt@);
                                    }
                                },
                                None => {},
                            }
                            proof {
                                assert(views_of(deps@) + spec_deps_of(sugs.skip(i + 1))
                                    =~= spec_deps_of(sugs));
                                assert(code@.map_values(|s: LlmSourceCodeSuggestion| s@)
                                    + spec_code_of(sugs.skip(i + 1)) =~= spec_code_of(sugs));
                                assert(views_of(advice@) + spec_advice_of(sugs.skip(i + 1))
                                    =~= spec_advice_of(sugs));
                            }
                        },
                        LlmSingleSuggestion::SourceCode(sc) => {
                            code.push(clone_source_suggestion(sc));
                            proof {
                                let m = code@.map_values(|s: LlmSourceCodeSuggestion| s@);
                                assert(m =~= code@.drop_last().map_values(
                                    |s: LlmSourceCodeSuggestion| s@,
                                ).push(code@.last()@));
                                assert(views_of(deps@) + spec_deps_of(sugs.skip(i + 1))
                                    =~= spec_deps_of(sugs));
                                assert(m + spec_code_of(sugs.skip(i + 1)) =~= spec_code_of(sugs));
                                assert(views_of(advice@) + spec_advice_of(sugs.skip(i + 1))
                                    =~= spec_advice_of(sugs));
                            }
                        },
                        LlmSingleSuggestion::GeneralAdvice(a) => {
                            advice.push(a.content.clone());
                            proof {
                                assert(views_of(advice@) =~= views_of(advice@.drop_last()).push(
                                    advice@.last()@,
                                ));
                            }
                            match &a.notes {
                                Some(nt) => {
                                    let mut s = "Advice notes: ".to_owned();
                                    s.append(nt.as_str());
                                    advice.push(s);
                                    proof {
                                        assert(views_of(advice@) =~= views_of(
                                            advice@.drop_last(),
                                        ).push(advice@.last()@));
                                        assert(advice@.last()@ =~= "Advice notes: "@ + nt@);
                                    }
                                },
                                None => {},
                            }
                            proof {
                                assert(views_of(deps@) + spec_deps_of(sugs.skip(i + 1))
                                    =~= spec_deps_of(sugs));
                                assert(code@.map_values(|s: LlmSourceCodeSuggestion| s@)
                                    + spec_code_of(sugs.skip(i + 1)) =~= spec_code_of(sugs));
                                assert(views_of(advice@) + spec_advice_of(sugs.skip(i + 1))
                                    =~= spec_advice_of(sugs));
                            }
                        },
                    }
                    i += 1;
                }
                proof {
                    assert(sugs.skip(n as int).len() == 0);
                    assert(views_of(deps@) =~= spec_deps_of(sugs));
                    assert(code@.map_values(|s: LlmSourceCodeSuggestion| s@) =~= spec_code_of(
                        sugs,
                    ));
                    assert(views_of(advice@) =~= spec_advice_of(sugs));
                }
                CodeGenPlan {
                    overall_summary: resp.overall_summary,
                    cargo_deps_to_add: deps,
                    source_suggestions: code,
                    general_advice: advice,
                    fallback_blocks: None,
                }
            },
            Err(_) => {
                let blocks = extract_code_blocks(&self.project.meta, llm_response);
                CodeGenPlan {
                    overall_summary: None,
                    cargo_deps_to_add: Vec::new(),
                    source_suggestions: Vec::new(),
                    general_advice: Vec::new(),
                    fallback_blocks: Some(blocks),
                }
            },
        }
    }

    /// Folds a response into the project according to its context and says
    /// what remains for the caller to carry out.  The approval flags take
    /// no part in what is computed here; the caller applies them when it
    /// carries the plan out.
    pub fn process_llm_response(
        &mut self,
        llm_response: &str,
        context: UpdateContext,
        auto_approve_deps: bool,
        auto_approve_code: bool,
    ) -> (r: Result<UpdateOutcome, LlmParseError>)
        ensures
            r is Ok,
            context is RequirementAnalysis ==> match r {
                Ok(UpdateOutcome::StoriesAdded(n)) => requirement_analysis_ok(
                    llm_response@,
                    old(self)@,
                    final(self)@,
                    n as nat,
                ),
                _ => false,
            },
            context matches UpdateContext::TaskCompletion(tid) ==> (*final(self) == *old(self)
                && match r {
                Ok(UpdateOutcome::DocsForTask(rid)) => rid@ == tid@,
                _ => false,
            }),
            context is CodeGeneration ==> *final(self) == *old(self) && match r {
                Ok(UpdateOutcome::CodeGen(plan)) => code_gen_plan_ok(
                    llm_response@,
                    views_of(old(self)@.meta.tech_stack@),
                    plan,
                ),
                _ => false,
            },
            context is Documentation ==> *final(self) == *old(self) && match r {
                Ok(UpdateOutcome::DocumentationOnly) => true,
                _ => false,
            },
    {
        let _ = auto_approve_deps;
        let _ = auto_approve_code;
        match context {
            UpdateContext::RequirementAnalysis => {
                let added = self.update_project_from_requirement_analysis(llm_response);
                Ok(UpdateOutcome::StoriesAdded(added))
            },
            UpdateContext::TaskCompletion(task_id) => Ok(UpdateOutcome::DocsForTask(task_id)),
            UpdateContext::CodeGeneration(_task_id) => {
                let plan = self.plan_code_generation(llm_response);
                Ok(UpdateOutcome::CodeGen(plan))
            },
            UpdateContext::Documentation => Ok(UpdateOutcome::DocumentationOnly),
        }
    }
}

} // verus!
