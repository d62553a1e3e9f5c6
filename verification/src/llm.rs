//! Typed interpretation of LLM responses.  The JSON grammar is handled by
//! [`crate::json`]; everything here reads the parsed tree and either yields
//! the typed value a response denotes or rejects it, exactly as stated by
//! the spec functions.

use vstd::prelude::*;
use crate::json::{json_doc, parse_json_text, spec_get, JsonValue};
use crate::text::{str_eq, views_of};
use crate::config::{BacklogItem, ItemType, Priority, Status};
use crate::clock::now_unix;

verus! {

// ---------------------------------------------------------------------------
// The typed shapes of the three responses the assistant understands.
// ---------------------------------------------------------------------------

/// A user story as the LLM proposes it.
#[derive(Debug, Clone)]
pub struct LlmUserStory {
    pub title: String,
    pub story: String,
    pub priority: String,
    pub effort: u32,
    pub acceptance_criteria: Vec<String>,
}

/// The response to a requirement analysis: a list of proposed stories.
#[derive(Debug)]
pub struct LlmUserStoryResponse {
    pub user_stories: Vec<LlmUserStory>,
}

/// What a source-code suggestion asks to be done with its content.
#[derive(Debug, Clone, Copy, PartialEq, Eq, Structural)]
pub enum SuggestionAction {
    Create,
    Replace,
    AppendToFile,
    ReplaceFunction,
    AppendToFunction,
    AddImport,
}

#[derive(Debug, Clone)]
pub struct LlmSourceCodeSuggestion {
    pub target_file: String,
    pub action: SuggestionAction,
    pub content: String,
    pub function_name: Option<String>,
    pub import_statement: Option<String>,
    pub notes: Option<String>,
}

#[derive(Debug, Clone)]
pub struct LlmCargoDependencySuggestion {
    pub dependency_lines: Vec<String>,
    pub notes: Option<String>,
}

#[derive(Debug, Clone)]
pub struct LlmGeneralAdviceSuggestion {
    pub content: String,
    pub notes: Option<String>,
}

/// One tagged suggestion from an assist-task response.
#[derive(Debug, Clone)]
pub enum LlmSingleSuggestion {
    CargoDependency(LlmCargoDependencySuggestion),
    SourceCode(LlmSourceCodeSuggestion),
    GeneralAdvice(LlmGeneralAdviceSuggestion),
}

/// The response to an assist-task request.
#[derive(Debug)]
pub struct LlmAssistTaskResponse {
    pub suggestions: Vec<LlmSingleSuggestion>,
    pub overall_summary: Option<String>,
}

/// The response to a sprint-planning request.
#[derive(Debug)]
pub struct LlmSprintPlanResponse {
    pub suggested_story_ids: Vec<String>,
    pub reasoning: String,
}

/// Why a response was rejected: not JSON at all, or JSON of the wrong
/// shape.
#[derive(Debug, Clone, Copy, PartialEq, Eq, Structural)]
pub enum LlmParseError {
    InvalidJson,
    UnexpectedShape,
}

// ---------------------------------------------------------------------------
// Views: the mathematical values of the typed shapes.
// ---------------------------------------------------------------------------

pub struct UserStoryView {
    pub title: Seq<char>,
    pub story: Seq<char>,
    pub priority: Seq<char>,
    pub effort: u32,
    pub acceptance_criteria: Seq<Seq<char>>,
}

pub struct SourceCodeSuggestionView {
    pub target_file: Seq<char>,
    pub action: SuggestionAction,
    pub content: Seq<char>,
    pub function_name: Option<Seq<char>>,
    pub import_statement: Option<Seq<char>>,
    pub notes: Option<Seq<char>>,
}

pub struct CargoDependencySuggestionView {
    pub dependency_lines: Seq<Seq<char>>,
    pub notes: Option<Seq<char>>,
}

pub struct GeneralAdviceSuggestionView {
    pub content: Seq<char>,
    pub notes: Option<Seq<char>>,
}

pub enum SuggestionView {
    CargoDependency(CargoDependencySuggestionView),
    SourceCode(SourceCodeSuggestionView),
    GeneralAdvice(GeneralAdviceSuggestionView),
}

pub struct AssistTaskResponseView {
    pub suggestions: Seq<SuggestionView>,
    pub overall_summary: Option<Seq<char>>,
}

pub struct SprintPlanView {
    pub suggested_story_ids: Seq<Seq<char>>,
    pub reasoning: Seq<char>,
}

pub open spec fn opt_string_view(o: Option<String>) -> Option<Seq<char>> {
    match o {
        Some(s) => Some(s@),
        None => None,
    }
}

impl View for LlmUserStory {
    type V = UserStoryView;

    open spec fn view(&self) -> UserStoryView {
        UserStoryView {
            title: self.title@,
            story: self.story@,
            priority: self.priority@,
            effort: self.effort,
            acceptance_criteria: views_of(self.acceptance_criteria@),
        }
    }
}

impl View for LlmSourceCodeSuggestion {
    type V = SourceCodeSuggestionView;

    open spec fn view(&self) -> SourceCodeSuggestionView {
        SourceCodeSuggestionView {
            target_file: self.target_file@,
            action: self.action,
            content: self.content@,
            function_name: opt_string_view(self.function_name),
            import_statement: opt_string_view(self.import_statement),
            notes: opt_string_view(self.notes),
        }
    }
}

impl View for LlmCargoDependencySuggestion {
    type V = CargoDependencySuggestionView;

    open spec fn view(&self) -> CargoDependencySuggestionView {
        CargoDependencySuggestionView {
            dependency_lines: views_of(self.dependency_lines@),
            notes: opt_string_view(self.notes),
        }
    }
}

impl View for LlmGeneralAdviceSuggestion {
    type V = GeneralAdviceSuggestionView;

    open spec fn view(&self) -> GeneralAdviceSuggestionView {
        GeneralAdviceSuggestionView {
            content: self.content@,
            notes: opt_string_view(self.notes),
        }
    }
}

impl View for LlmSingleSuggestion {
    type V = SuggestionView;

    open spec fn view(&self) -> SuggestionView {
        match self {
            LlmSingleSuggestion::CargoDependency(x) => SuggestionView::CargoDependency(x@),
            LlmSingleSuggestion::SourceCode(x) => SuggestionView::SourceCode(x@),
            LlmSingleSuggestion::GeneralAdvice(x) => SuggestionView::GeneralAdvice(x@),
        }
    }
}

impl View for LlmAssistTaskResponse {
    type V = AssistTaskResponseView;

    open spec fn view(&self) -> AssistTaskResponseView {
        AssistTaskResponseView {
            suggestions: self.suggestions@.map_values(|s: LlmSingleSuggestion| s@),
            overall_summary: opt_string_view(self.overall_summary),
        }
    }
}

impl View for LlmSprintPlanResponse {
    type V = SprintPlanView;

    open spec fn view(&self) -> SprintPlanView {
        SprintPlanView {
            suggested_story_ids: views_of(self.suggested_story_ids@),
            reasoning: self.reasoning@,
        }
    }
}

// ---------------------------------------------------------------------------
// Reading single members out of a JSON object, with the same acceptance
// rules as the typed deserialization they stand for.
// ---------------------------------------------------------------------------

/// A required string member.
pub open spec fn str_field(v: JsonValue, key: Seq<char>) -> Option<Seq<char>> {
    match spec_get(v, key) {
        Some(JsonValue::Str(s)) => Some(s@),
        _ => None,
    }
}

/// A string member that defaults to empty when absent; any present value
/// must still be a string.
pub open spec fn str_field_defaulted(v: JsonValue, key: Seq<char>) -> Option<Seq<char>> {
    match spec_get(v, key) {
        Some(JsonValue::Str(s)) => Some(s@),
        None => Some(Seq::empty()),
        Some(_) => None,
    }
}

/// An optional string member: absent or null is accepted as nothing.
pub open spec fn opt_str_field(v: JsonValue, key: Seq<char>) -> Option<Option<Seq<char>>> {
    match spec_get(v, key) {
        None => Some(None),
        Some(JsonValue::Null) => Some(None),
        Some(JsonValue::Str(s)) => Some(Some(s@)),
        Some(_) => None,
    }
}

/// A required unsigned member that must fit in 32 bits.
pub open spec fn u32_field(v: JsonValue, key: Seq<char>) -> Option<u32> {
    match spec_get(v, key) {
        Some(JsonValue::Num(n)) => if n <= u32::MAX {
            Some(n as u32)
        } else {
            None
        },
        _ => None,
    }
}

fn get_str_field(v: &JsonValue, key: &str) -> (r: Option<String>)
    ensures
        match r {
            Some(s) => str_field(*v, key@) == Some(s@),
            None => str_field(*v, key@) is None,
        },
{
    match v.get(key) {
        Some(x) => match x {
            JsonValue::Str(s) => Some(s.clone()),
            _ => None,
        },
        None => None,
    }
}

fn get_str_field_defaulted(v: &JsonValue, key: &str) -> (r: Option<String>)
    ensures
        match r {
            Some(s) => str_field_defaulted(*v, key@) == Some(s@),
            None => str_field_defaulted(*v, key@) is None,
        },
{
    match v.get(key) {
        Some(x) => match x {
            JsonValue::Str(s) => Some(s.clone()),
            _ => None,
        },
        None => Some(String::new()),
    }
}

fn get_opt_str_field(v: &JsonValue, key: &str) -> (r: Option<Option<String>>)
    ensures
        match r {
            Some(s) => opt_str_field(*v, key@) == Some(opt_string_view(s)),
            None => opt_str_field(*v, key@) is None,
        },
{
    match v.get(key) {
        Some(x) => match x {
            JsonValue::Str(s) => Some(Some(s.clone())),
            JsonValue::Null => Some(None),
            _ => None,
        },
        None => Some(None),
    }
}

fn get_u32_field(v: &JsonValue, key: &str) -> (r: Option<u32>)
    ensures
        r == u32_field(*v, key@),
{
    match v.get(key) {
        Some(x) => match x {
            JsonValue::Num(n) => {
                let n = *n;
                if n <= 0xffff_ffff {
                    Some(n as u32)
                } else {
                    None
                }
            },
            _ => None,
        },
        None => None,
    }
}

// ---------------------------------------------------------------------------
// Arrays of parsed elements.
// ---------------------------------------------------------------------------

/// Element-wise interpretation of an array: every element must be accepted.
pub open spec fn spec_map_parse<X>(
    items: Seq<JsonValue>,
    f: spec_fn(JsonValue) -> Option<X>,
) -> Option<Seq<X>>
    decreases items.len(),
{
    if items.len() == 0 {
        Some(Seq::empty())
    } else {
        match (f(items[0]), spec_map_parse(items.drop_first(), f)) {
            (Some(h), Some(t)) => Some(seq![h] + t),
            _ => None,
        }
    }
}

proof fn lemma_map_parse_all<X>(items: Seq<JsonValue>, f: spec_fn(JsonValue) -> Option<X>, vs: Seq<X>)
    requires
        items.len() == vs.len(),
        forall|j: int| 0 <= j < items.len() ==> f(#[trigger] items[j]) == Some(vs[j]),
    ensures
        spec_map_parse(items, f) == Some(vs),
    decreases items.len(),
{
    if items.len() > 0 {
        lemma_map_parse_all(items.drop_first(), f, vs.drop_first());
        assert(f(items[0]) == Some(vs[0]));
        assert(seq![vs[0]] + vs.drop_first() =~= vs);
    } else {
        assert(vs =~= Seq::<X>::empty());
    }
}

proof fn lemma_map_parse_none<X>(items: Seq<JsonValue>, f: spec_fn(JsonValue) -> Option<X>, k: int)
    requires
        0 <= k < items.len(),
        f(items[k]) is None,
    ensures
        spec_map_parse(items, f) is None,
    decreases items.len(),
{
    if items.len() > 0 && !(f(items[0]) is None) {
        lemma_map_parse_none(items.drop_first(), f, k - 1);
    }
}

/// A string as an array element.
pub open spec fn as_str_of(v: JsonValue) -> Option<Seq<char>> {
    match v {
        JsonValue::Str(s) => Some(s@),
        _ => None,
    }
}

/// A required member holding an array of strings.
pub open spec fn str_array_field(v: JsonValue, key: Seq<char>) -> Option<Seq<Seq<char>>> {
    match spec_get(v, key) {
        Some(JsonValue::Arr(items)) => spec_map_parse(items@, |x: JsonValue| as_str_of(x)),
        _ => None,
    }
}

fn strings_of_array(items: &Vec<JsonValue>) -> (r: Option<Vec<String>>)
    ensures
        match r {
            Some(out) => spec_map_parse(items@, |x: JsonValue| as_str_of(x)) == Some(
                views_of(out@),
            ),
            None => spec_map_parse(items@, |x: JsonValue| as_str_of(x)) is None,
        },
{
    let n = items.len();
    let mut out: Vec<String> = Vec::new();
    let mut i: usize = 0;
    while i < n
        invariant
            n == items@.len(),
            i <= n,
            out@.len() == i,
            forall|j: int| 0 <= j < i ==> as_str_of(#[trigger] items@[j]) == Some(out@[j]@),
        decreases n - i,
    {
        match &items[i] {
            JsonValue::Str(s) => {
                out.push(s.clone());
            },
            _ => {
                proof {
                    lemma_map_parse_none(items@, |x: JsonValue| as_str_of(x), i as int);
                }
                return None;
            },
        }
        i += 1;
    }
    proof {
        assert(views_of(out@).len() == items@.len());
        assert(forall|j: int|
            0 <= j < items@.len() ==> as_str_of(#[trigger] items@[j]) == Some(views_of(out@)[j]));
        lemma_map_parse_all(items@, |x: JsonValue| as_str_of(x), views_of(out@));
    }
    Some(out)
}

fn get_str_array_field(v: &JsonValue, key: &str) -> (r: Option<Vec<String>>)
    ensures
        match r {
            Some(out) => str_array_field(*v, key@) == Some(views_of(out@)),
            None => str_array_field(*v, key@) is None,
        },
{
    match v.get(key) {
        Some(x) => match x {
            JsonValue::Arr(items) => strings_of_array(items),
            _ => None,
        },
        None => None,
    }
}

// ---------------------------------------------------------------------------
// User stories.
// ---------------------------------------------------------------------------

/// What a JSON object must hold to be a user story: the four required
/// members and the list of acceptance criteria.
pub open spec fn spec_story_of(v: JsonValue) -> Option<UserStoryView> {
    match (
        str_field(v, "title"@),
        str_field(v, "story"@),
        str_field(v, "priority"@),
        u32_field(v, "effort"@),
        str_array_field(v, "acceptance_criteria"@),
    ) {
        (Some(t), Some(s), Some(p), Some(e), Some(ac)) => Some(
            UserStoryView { title: t, story: s, priority: p, effort: e, acceptance_criteria: ac },
        ),
        _ => None,
    }
}

fn story_of(v: &JsonValue) -> (r: Option<LlmUserStory>)
    ensures
        match r {
            Some(s) => spec_story_of(*v) == Some(s@),
            None => spec_story_of(*v) is None,
        },
{
    let title = match get_str_field(v, "title") {
        Some(x) => x,
        None => {
            return None;
        },
    };
    let story = match get_str_field(v, "story") {
        Some(x) => x,
        None => {
            return None;
        },
    };
    let priority = match get_str_field(v, "priority") {
        Some(x) => x,
        None => {
            return None;
        },
    };
    let effort = match get_u32_field(v, "effort") {
        Some(x) => x,
        None => {
            return None;
        },
    };
    let acceptance_criteria = match get_str_array_field(v, "acceptance_criteria") {
        Some(x) => x,
        None => {
            return None;
        },
    };
    Some(LlmUserStory { title, story, priority, effort, acceptance_criteria })
}

/// The whole requirement-analysis response: an object whose `user_stories`
/// member is an array of user stories.
pub open spec fn spec_story_response_of(v: JsonValue) -> Option<Seq<UserStoryView>> {
    match spec_get(v, "user_stories"@) {
        Some(JsonValue::Arr(items)) => spec_map_parse(items@, |x: JsonValue| spec_story_of(x)),
        _ => None,
    }
}

/// What [`parse_user_story_response`] yields for a given text.
pub open spec fn spec_parse_user_stories(s: Seq<char>) -> Result<Seq<UserStoryView>, LlmParseError> {
    match json_doc(s) {
        None => Err(LlmParseError::InvalidJson),
        Some(v) => match spec_story_response_of(v) {
            Some(r) => Ok(r),
            None => Err(LlmParseError::UnexpectedShape),
        },
    }
}

/// Interprets a requirement-analysis response.
pub fn parse_user_story_response(s: &str) -> (r: Result<LlmUserStoryResponse, LlmParseError>)
    ensures
        match r {
            Ok(resp) => spec_parse_user_stories(s@) == Ok::<_, LlmParseError>(
                resp.user_stories@.map_values(|st: LlmUserStory| st@),
            ),
            Err(e) => spec_parse_user_stories(s@) == Err::<Seq<UserStoryView>, _>(e),
        },
{
    let doc = match parse_json_text(s) {
        Some(v) => v,
        None => {
            return Err(LlmParseError::InvalidJson);
        },
    };
    let items = match doc.get("user_stories") {
        Some(x) => match x {
            JsonValue::Arr(items) => items,
            _ => {
                proof {
                    assert(json_doc(s@) == Some(doc));
                    assert(spec_get(doc, "user_stories"@) == Some(*x));
                    assert(spec_story_response_of(doc) is None);
                }
                return Err(LlmParseError::UnexpectedShape);
            },
        },
        None => {
            proof {
                assert(json_doc(s@) == Some(doc));
                assert(spec_get(doc, "user_stories"@) is None);
                assert(spec_story_response_of(doc) is None);
            }
            return Err(LlmParseError::UnexpectedShape);
        },
    };
    let n = items.len();
    let mut out: Vec<LlmUserStory> = Vec::new();
    let mut i: usize = 0;
    while i < n
        invariant
            json_doc(s@) == Some(doc),
            spec_get(doc, "user_stories"@) == Some(JsonValue::Arr(*items)),
            n == items@.len(),
            i <= n,
            out@.len() == i,
            forall|j: int|
                0 <= j < i ==> spec_story_of(#[trigger] items@[j]) == Some(
                    out@.map_values(|st: LlmUserStory| st@)[j],
                ),
        decreases n - i,
    {
        match story_of(&items[i]) {
            Some(st) => {
                out.push(st);
                proof {
                    let m = out@.map_values(|st: LlmUserStory| st@);
                    assert(forall|j: int| 0 <= j < i ==> m[j] == out@.drop_last().map_values(
                        |st: LlmUserStory| st@,
                    )[j]);
                }
            },
            None => {
                proof {
                    lemma_map_parse_none(items@, |x: JsonValue| spec_story_of(x), i as int);
                }
                return Err(LlmParseError::UnexpectedShape);
            },
        }
        i += 1;
    }
    proof {
        let m = out@.map_values(|st: LlmUserStory| st@);
        lemma_map_parse_all(items@, |x: JsonValue| spec_story_of(x), m);
    }
    Ok(LlmUserStoryResponse { user_stories: out })
}

// ---------------------------------------------------------------------------
// Converting a proposed story into a backlog item.
// ---------------------------------------------------------------------------

/// The priority denoted by the LLM's priority string; anything unknown
/// falls back to `Medium`.
pub open spec fn spec_priority_of(s: Seq<char>) -> Priority {
    if s == "Critical"@ {
        Priority::Critical
    } else if s == "High"@ {
        Priority::High
    } else if s == "Medium"@ {
        Priority::Medium
    } else if s == "Low"@ {
        Priority::Low
    } else {
        Priority::Medium
    }
}

pub fn priority_of(s: &str) -> (r: Priority)
    ensures
        r == spec_priority_of(s@),
{
    if str_eq(s, "Critical") {
        Priority::Critical
    } else if str_eq(s, "High") {
        Priority::High
    } else if str_eq(s, "Medium") {
        Priority::Medium
    } else if str_eq(s, "Low") {
        Priority::Low
    } else {
        Priority::Medium
    }
}

/// Turns a proposed story into a `Todo` backlog item under the given
/// identifier.  Never fails; the creation time is the clock's business.
pub fn convert_llm_story_to_backlog_item(llm_story: LlmUserStory, id: String) -> (r: Option<
    BacklogItem,
>)
    ensures
        match r {
            Some(b) => b.id@ == id@ && b.item_type == ItemType::UserStory && b.title@
                == llm_story.title@ && b.story@ == llm_story.story@ && views_of(
                b.acceptance_criteria@,
            ) == views_of(llm_story.acceptance_criteria@) && b.priority == spec_priority_of(
                llm_story.priority@,
            ) && b.effort == llm_story.effort && b.status == Status::Todo && b.sprint is None
                && b.dependencies@.len() == 0,
            None => false,
        },
{
    let priority = priority_of(llm_story.priority.as_str());
    Some(
        BacklogItem {
            id,
            item_type: ItemType::UserStory,
            title: llm_story.title,
            story: llm_story.story,
            acceptance_criteria: llm_story.acceptance_criteria,
            priority,
            effort: llm_story.effort,
            status: Status::Todo,
            created: now_unix(),
            sprint: None,
            dependencies: Vec::new(),
        },
    )
}

// ---------------------------------------------------------------------------
// Assist-task suggestions.
// ---------------------------------------------------------------------------

/// The action denoted by its snake_case name.
pub open spec fn spec_action_of(s: Seq<char>) -> Option<SuggestionAction> {
    if s == "create"@ {
        Some(SuggestionAction::Create)
    } else if s == "replace"@ {
        Some(SuggestionAction::Replace)
    } else if s == "append_to_file"@ {
        Some(SuggestionAction::AppendToFile)
    } else if s == "replace_function"@ {
        Some(SuggestionAction::ReplaceFunction)
    } else if s == "append_to_function"@ {
        Some(SuggestionAction::AppendToFunction)
    } else if s == "add_import"@ {
        Some(SuggestionAction::AddImport)
    } else {
        None
    }
}

fn action_of(s: &str) -> (r: Option<SuggestionAction>)
    ensures
        r == spec_action_of(s@),
{
    if str_eq(s, "create") {
        Some(SuggestionAction::Create)
    } else if str_eq(s, "replace") {
        Some(SuggestionAction::Replace)
    } else if str_eq(s, "append_to_file") {
        Some(SuggestionAction::AppendToFile)
    } else if str_eq(s, "replace_function") {
        Some(SuggestionAction::ReplaceFunction)
    } else if str_eq(s, "append_to_function") {
        Some(SuggestionAction::AppendToFunction)
    } else if str_eq(s, "add_import") {
        Some(SuggestionAction::AddImport)
    } else {
        None
    }
}

/// The required `action` member of a source-code suggestion.
pub open spec fn action_field(v: JsonValue) -> Option<SuggestionAction> {
    match str_field(v, "action"@) {
        Some(s) => spec_action_of(s),
        None => None,
    }
}

pub open spec fn spec_source_code_of(v: JsonValue) -> Option<SourceCodeSuggestionView> {
    match (
        str_field(v, "target_file"@),
        action_field(v),
        str_field_defaulted(v, "content"@),
        opt_str_field(v, "function_name"@),
        opt_str_field(v, "import_statement"@),
        opt_str_field(v, "notes"@),
    ) {
        (Some(tf), Some(a), Some(c), Some(fnm), Some(imp), Some(nt)) => Some(
            SourceCodeSuggestionView {
                target_file: tf,
                action: a,
                content: c,
                function_name: fnm,
                import_statement: imp,
                notes: nt,
            },
        ),
        _ => None,
    }
}

fn source_code_of(v: &JsonValue) -> (r: Option<LlmSourceCodeSuggestion>)
    ensures
        match r {
            Some(s) => spec_source_code_of(*v) == Some(s@),
            None => spec_source_code_of(*v) is None,
        },
{
    let target_file = match get_str_field(v, "target_file") {
        Some(x) => x,
        None => {
            return None;
        },
    };
    let action_name = match get_str_field(v, "action") {
        Some(x) => x,
        None => {
            return None;
        },
    };
    let action = match action_of(action_name.as_str()) {
        Some(x) => x,
        None => {
            return None;
        },
    };
    let content = match get_str_field_defaulted(v, "content") {
        Some(x) => x,
        None => {
            return None;
        },
    };
    let function_name = match get_opt_str_field(v, "function_name") {
        Some(x) => x,
        None => {
            return None;
        },
    };
    let import_statement = match get_opt_str_field(v, "import_statement") {
        Some(x) => x,
        None => {
            return None;
        },
    };
    let notes = match get_opt_str_field(v, "notes") {
        Some(x) => x,
        None => {
            return None;
        },
    };
    Some(
        LlmSourceCodeSuggestion {
            target_file,
            action,
            content,
            function_name,
            import_statement,
            notes,
        },
    )
}

pub open spec fn spec_cargo_dep_of(v: JsonValue) -> Option<CargoDependencySuggestionView> {
    match (str_array_field(v, "dependency_lines"@), opt_str_field(v, "notes"@)) {
        (Some(dl), Some(nt)) => Some(
            CargoDependencySuggestionView { dependency_lines: dl, notes: nt },
        ),
        _ => None,
    }
}

fn cargo_dep_of(v: &JsonValue) -> (r: Option<LlmCargoDependencySuggestion>)
    ensures
        match r {
            Some(s) => spec_cargo_dep_of(*v) == Some(s@),
            None => spec_cargo_dep_of(*v) is None,
        },
{
    let dependency_lines = match get_str_array_field(v, "dependency_lines") {
        Some(x) => x,
        None => {
            return None;
        },
    };
    let notes = match get_opt_str_field(v, "notes") {
        Some(x) => x,
        None => {
            return None;
        },
    };
    Some(LlmCargoDependencySuggestion { dependency_lines, notes })
}

pub open spec fn spec_general_advice_of(v: JsonValue) -> Option<GeneralAdviceSuggestionView> {
    match (str_field(v, "content"@), opt_str_field(v, "notes"@)) {
        (Some(c), Some(nt)) => Some(GeneralAdviceSuggestionView { content: c, notes: nt }),
        _ => None,
    }
}

fn general_advice_of(v: &JsonValue) -> (r: Option<LlmGeneralAdviceSuggestion>)
    ensures
        match r {
            Some(s) => spec_general_advice_of(*v) == Some(s@),
            None => spec_general_advice_of(*v) is None,
        },
{
    let content = match get_str_field(v, "content") {
        Some(x) => x,
        None => {
            return None;
        },
    };
    let notes = match get_opt_str_field(v, "notes") {
        Some(x) => x,
        None => {
            return None;
        },
    };
    Some(LlmGeneralAdviceSuggestion { content, notes })
}

/// A tagged suggestion: the `type` member picks the variant, whose members
/// come from the same object.
pub open spec fn spec_suggestion_of(v: JsonValue) -> Option<SuggestionView> {
    match str_field(v, "type"@) {
        Some(t) => if t == "cargo_dependency"@ {
            match spec_cargo_dep_of(v) {
                Some(x) => Some(SuggestionView::CargoDependency(x)),
                None => None,
            }
        } else if t == "source_code"@ {
            match spec_source_code_of(v) {
                Some(x) => Some(SuggestionView::SourceCode(x)),
                None => None,
            }
        } else if t == "general_advice"@ {
            match spec_general_advice_of(v) {
                Some(x) => Some(SuggestionView::GeneralAdvice(x)),
                None => None,
            }
        } else {
            None
        },
        None => None,
    }
}

fn suggestion_of(v: &JsonValue) -> (r: Option<LlmSingleSuggestion>)
    ensures
        match r {
            Some(s) => spec_suggestion_of(*v) == Some(s@),
            None => spec_suggestion_of(*v) is None,
        },
{
    let tag = match get_str_field(v, "type") {
        Some(x) => x,
        None => {
            return None;
        },
    };
    if str_eq(tag.as_str(), "cargo_dependency") {
        match cargo_dep_of(v) {
            Some(x) => Some(LlmSingleSuggestion::CargoDependency(x)),
            None => None,
        }
    } else if str_eq(tag.as_str(), "source_code") {
        match source_code_of(v) {
            Some(x) => Some(LlmSingleSuggestion::SourceCode(x)),
            None => None,
        }
    } else if str_eq(tag.as_str(), "general_advice") {
        match general_advice_of(v) {
            Some(x) => Some(LlmSingleSuggestion::GeneralAdvice(x)),
            None => None,
        }
    } else {
        None
    }
}

/// What [`parse_single_suggestion`] yields for a given text: the one
/// tagged suggestion the text denotes.
pub open spec fn spec_parse_single_suggestion(s: Seq<char>) -> Option<SuggestionView> {
    match json_doc(s) {
        None => None,
        Some(v) => spec_suggestion_of(v),
    }
}

/// Interprets a single tagged suggestion on its own.
pub fn parse_single_suggestion(s: &str) -> (r: Option<LlmSingleSuggestion>)
    ensures
        match r {
            Some(sg) => spec_parse_single_suggestion(s@) == Some(sg@),
            None => spec_parse_single_suggestion(s@) is None,
        },
{
    match parse_json_text(s) {
        Some(v) => suggestion_of(&v),
        None => None,
    }
}

/// The whole assist-task response: a required `suggestions` array and an
/// optional summary.
pub open spec fn spec_assist_response_of(v: JsonValue) -> Option<AssistTaskResponseView> {
    match (
        match spec_get(v, "suggestions"@) {
            Some(JsonValue::Arr(items)) => spec_map_parse(
                items@,
                |x: JsonValue| spec_suggestion_of(x),
            ),
            _ => None,
        },
        opt_str_field(v, "overall_summary"@),
    ) {
        (Some(sg), Some(os)) => Some(
            AssistTaskResponseView { suggestions: sg, overall_summary: os },
        ),
        _ => None,
    }
}

/// What [`parse_assist_task_response`] yields for a given text.
pub open spec fn spec_parse_assist(s: Seq<char>) -> Result<
    AssistTaskResponseView,
    LlmParseError,
> {
    match json_doc(s) {
        None => Err(LlmParseError::InvalidJson),
        Some(v) => match spec_assist_response_of(v) {
            Some(r) => Ok(r),
            None => Err(LlmParseError::UnexpectedShape),
        },
    }
}

/// Interprets an assist-task response.
pub fn parse_assist_task_response(s: &str) -> (r: Result<LlmAssistTaskResponse, LlmParseError>)
    ensures
        match r {
            Ok(resp) => spec_parse_assist(s@) == Ok::<_, LlmParseError>(resp@),
            Err(e) => spec_parse_assist(s@) == Err::<AssistTaskResponseView, _>(e),
        },
{
    let doc = match parse_json_text(s) {
        Some(v) => v,
        None => {
            return Err(LlmParseError::InvalidJson);
        },
    };
    let overall_summary = match get_opt_str_field(&doc, "overall_summary") {
        Some(x) => x,
        None => {
            return Err(LlmParseError::UnexpectedShape);
        },
    };
    let items = match doc.get("suggestions") {
        Some(x) => match x {
            JsonValue::Arr(items) => items,
            _ => {
                return Err(LlmParseError::UnexpectedShape);
            },
        },
        None => {
            return Err(LlmParseError::UnexpectedShape);
        },
    };
    let n = items.len();
    let mut out: Vec<LlmSingleSuggestion> = Vec::new();
    let mut i: usize = 0;
    while i < n
        invariant
            json_doc(s@) == Some(doc),
            spec_get(doc, "suggestions"@) == Some(JsonValue::Arr(*items)),
            n == items@.len(),
            i <= n,
            out@.len() == i,
            forall|j: int|
                0 <= j < i ==> spec_suggestion_of(#[trigger] items@[j]) == Some(
                    out@.map_values(|s: LlmSingleSuggestion| s@)[j],
                ),
        decreases n - i,
    {
        match suggestion_of(&items[i]) {
            Some(sg) => {
                out.push(sg);
                proof {
                    let m = out@.map_values(|s: LlmSingleSuggestion| s@);
                    assert(forall|j: int| 0 <= j < i ==> m[j] == out@.drop_last().map_values(
                        |s: LlmSingleSuggestion| s@,
                    )[j]);
                }
            },
            None => {
                proof {
                    lemma_map_parse_none(items@, |x: JsonValue| spec_suggestion_of(x), i as int);
                }
                return Err(LlmParseError::UnexpectedShape);
            },
        }
        i += 1;
    }
    proof {
        let m = out@.map_values(|s: LlmSingleSuggestion| s@);
        lemma_map_parse_all(items@, |x: JsonValue| spec_suggestion_of(x), m);
    }
    Ok(LlmAssistTaskResponse { suggestions: out, overall_summary })
}

// ---------------------------------------------------------------------------
// Sprint plans.
// ---------------------------------------------------------------------------

/// The sprint-plan response: required story identifiers, reasoning
/// defaulting to empty.
pub open spec fn spec_sprint_plan_of(v: JsonValue) -> Option<SprintPlanView> {
    match (str_array_field(v, "suggested_story_ids"@), str_field_defaulted(v, "reasoning"@)) {
        (Some(ids), Some(re)) => Some(SprintPlanView { suggested_story_ids: ids, reasoning: re }),
        _ => None,
    }
}

/// What [`parse_sprint_plan_response`] yields for a given text.
pub open spec fn spec_parse_sprint_plan(s: Seq<char>) -> Result<SprintPlanView, LlmParseError> {
    match json_doc(s) {
        None => Err(LlmParseError::InvalidJson),
        Some(v) => match spec_sprint_plan_of(v) {
            Some(r) => Ok(r),
            None => Err(LlmParseError::UnexpectedShape),
        },
    }
}

/// Interprets a sprint-planning response.
pub fn parse_sprint_plan_response(s: &str) -> (r: Result<LlmSprintPlanResponse, LlmParseError>)
    ensures
        match r {
            Ok(resp) => spec_parse_sprint_plan(s@) == Ok::<_, LlmParseError>(resp@),
            Err(e) => spec_parse_sprint_plan(s@) == Err::<SprintPlanView, _>(e),
        },
{
    let doc = match parse_json_text(s) {
        Some(v) => v,
        None => {
            return Err(LlmParseError::InvalidJson);
        },
    };
    let suggested_story_ids = match get_str_array_field(&doc, "suggested_story_ids") {
        Some(x) => x,
        None => {
            return Err(LlmParseError::UnexpectedShape);
        },
    };
    let reasoning = match get_str_field_defaulted(&doc, "reasoning") {
        Some(x) => x,
        None => {
            return Err(LlmParseError::UnexpectedShape);
        },
    };
    Ok(LlmSprintPlanResponse { suggested_story_ids, reasoning })
}

} // verus!
