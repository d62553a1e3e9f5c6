//! Project data model: backlog items, sprints, project metadata, and the
//! layered resolution of the LLM endpoint configuration (project overrides
//! beat global settings, which beat built-in defaults).

use vstd::prelude::*;
use crate::text::{
    lower_seq, matches_at, spec_contains, spec_digits, spec_join, spec_padded3, spec_trim,
    str_contains, str_eq, str_starts_with, str_trim, u128_to_string, views_of, ascii_lowercase,
    join_strings, padded3, vec_contains_string,
};
use crate::clock::now_unix;

verus! {

pub const DEFAULT_LLM_MODEL: &'static str = "deepseek-coder:6.7b";

pub const DEFAULT_LLM_TIMEOUT_MS: u64 = 180000;

pub const DEFAULT_LLM_HOST: &'static str = "localhost";

pub const DEFAULT_LLM_PORT: u16 = 11434;

/// LLM settings as they appear in a configuration file: every field
/// optional, so that a layer may override only part of the lower layers.
#[derive(Debug, Clone, PartialEq, Default)]
pub struct PartialLlmConfig {
    pub model: Option<String>,
    pub timeout_ms: Option<u64>,
    pub host: Option<String>,
    pub port: Option<u16>,
}

/// The fully resolved LLM configuration, with defaults applied wherever no
/// layer chose a value.
#[derive(Debug, Clone)]
pub struct FinalLlmConfig {
    pub model: String,
    pub timeout_ms: u64,
    pub host: String,
    pub port: u16,
}

/// Global configuration, merged underneath any project-level overrides.
#[derive(Debug, Clone, Default)]
pub struct GlobalConfig {
    pub llm: Option<PartialLlmConfig>,
}

pub open spec fn opt_model(c: Option<&PartialLlmConfig>) -> Option<String> {
    match c {
        Some(k) => k.model,
        None => None,
    }
}

pub open spec fn opt_timeout(c: Option<&PartialLlmConfig>) -> Option<u64> {
    match c {
        Some(k) => k.timeout_ms,
        None => None,
    }
}

pub open spec fn opt_host(c: Option<&PartialLlmConfig>) -> Option<String> {
    match c {
        Some(k) => k.host,
        None => None,
    }
}

pub open spec fn opt_port(c: Option<&PartialLlmConfig>) -> Option<u16> {
    match c {
        Some(k) => k.port,
        None => None,
    }
}

pub open spec fn layered_str(p: Option<String>, g: Option<String>, d: Seq<char>) -> Seq<char> {
    match p {
        Some(m) => m@,
        None => match g {
            Some(m) => m@,
            None => d,
        },
    }
}

pub open spec fn layered_u64(p: Option<u64>, g: Option<u64>, d: u64) -> u64 {
    match p {
        Some(m) => m,
        None => match g {
            Some(m) => m,
            None => d,
        },
    }
}

pub open spec fn layered_u16(p: Option<u16>, g: Option<u16>, d: u16) -> u16 {
    match p {
        Some(m) => m,
        None => match g {
            Some(m) => m,
            None => d,
        },
    }
}

/// What the resolved configuration must be, given the global and project
/// layers: the project layer wins, then the global layer, then defaults.
pub open spec fn resolved_ok(
    global_cfg: Option<&PartialLlmConfig>,
    project_cfg: Option<&PartialLlmConfig>,
    r: FinalLlmConfig,
) -> bool {
    &&& r.model@ == layered_str(opt_model(project_cfg), opt_model(global_cfg), DEFAULT_LLM_MODEL@)
    &&& r.timeout_ms == layered_u64(
        opt_timeout(project_cfg),
        opt_timeout(global_cfg),
        DEFAULT_LLM_TIMEOUT_MS,
    )
    &&& r.host@ == layered_str(opt_host(project_cfg), opt_host(global_cfg), DEFAULT_LLM_HOST@)
    &&& r.port == layered_u16(opt_port(project_cfg), opt_port(global_cfg), DEFAULT_LLM_PORT)
}

fn pick_string(p: Option<&PartialLlmConfig>, g: Option<&PartialLlmConfig>, field_is_model: bool, d: &str) -> (r: String)
    ensures
        r@ == layered_str(
            if field_is_model {
                opt_model(p)
            } else {
                opt_host(p)
            },
            if field_is_model {
                opt_model(g)
            } else {
                opt_host(g)
            },
            d@,
        ),
{
    if let Some(c) = p {
        if field_is_model {
            if let Some(m) = &c.model {
                return m.clone();
            }
        } else {
            if let Some(m) = &c.host {
                return m.clone();
            }
        }
    }
    if let Some(c) = g {
        if field_is_model {
            if let Some(m) = &c.model {
                return m.clone();
            }
        } else {
            if let Some(m) = &c.host {
                return m.clone();
            }
        }
    }
    d.to_owned()
}

pub fn resolve_llm_config(
    global_cfg: Option<&PartialLlmConfig>,
    project_cfg: Option<&PartialLlmConfig>,
) -> (r: FinalLlmConfig)
    ensures
        resolved_ok(global_cfg, project_cfg, r),
{
    let model = pick_string(project_cfg, global_cfg, true, DEFAULT_LLM_MODEL);
    let host = pick_string(project_cfg, global_cfg, false, DEFAULT_LLM_HOST);
    let timeout_ms: u64 = {
        let p = match project_cfg {
            Some(c) => c.timeout_ms,
            None => None,
        };
        let g = match global_cfg {
            Some(c) => c.timeout_ms,
            None => None,
        };
        match p {
            Some(t) => t,
            None => match g {
                Some(t) => t,
                None => DEFAULT_LLM_TIMEOUT_MS,
            },
        }
    };
    let port: u16 = {
        let p = match project_cfg {
            Some(c) => c.port,
            None => None,
        };
        let g = match global_cfg {
            Some(c) => c.port,
            None => None,
        };
        match p {
            Some(t) => t,
            None => match g {
                Some(t) => t,
                None => DEFAULT_LLM_PORT,
            },
        }
    };
    FinalLlmConfig { model, timeout_ms, host, port }
}

impl Default for FinalLlmConfig {
    /// The configuration with no layer present at all.
    fn default() -> (r: Self)
        ensures
            resolved_ok(None, None, r),
    {
        resolve_llm_config(None, None)
    }
}

pub open spec fn spec_base_url(host: Seq<char>, port: u16) -> Seq<char> {
    "http://"@ + host + ":"@ + spec_digits(port as nat)
}

impl FinalLlmConfig {
    /// The `http://host:port` base URL of the configured endpoint.
    pub fn base_url(&self) -> (r: String)
        ensures
            r@ == spec_base_url(self.host@, self.port),
    {
        let mut s = "http://".to_owned();
        s.append(self.host.as_str());
        s.append(":");
        let p = u128_to_string(self.port as u128);
        s.append(p.as_str());
        proof {
            assert(s@ =~= spec_base_url(self.host@, self.port));
        }
        s
    }
}

#[derive(Debug, Clone, Copy, PartialEq, Eq, Structural)]
pub enum ItemType {
    UserStory,
    Bug,
    Epic,
    Task,
}

#[derive(Debug, Clone, Copy, PartialEq, Eq, Structural)]
pub enum Priority {
    Critical,
    High,
    Medium,
    Low,
}

#[derive(Debug, Clone, Copy, PartialEq, Eq, Structural)]
pub enum Status {
    Todo,
    InProgress,
    Review,
    Done,
}

#[derive(Debug, Clone, Copy, PartialEq, Eq, Structural)]
pub enum SprintStatus {
    Planning,
    Active,
    Review,
    Completed,
    Complete,
}

/// A unit of work in the backlog.  `created` is a Unix timestamp.
#[derive(Debug, Clone)]
pub struct BacklogItem {
    pub id: String,
    pub item_type: ItemType,
    pub title: String,
    pub story: String,
    pub acceptance_criteria: Vec<String>,
    pub priority: Priority,
    pub effort: u32,
    pub status: Status,
    pub created: i64,
    pub sprint: Option<String>,
    pub dependencies: Vec<String>,
}

/// A time-boxed collection of backlog items.  Dates are Unix timestamps.
#[derive(Debug, Clone)]
pub struct Sprint {
    pub id: String,
    pub goal: String,
    pub start_date: i64,
    pub end_date: i64,
    pub status: SprintStatus,
    pub total_points: u32,
    pub completed_points: u32,
    pub tasks: Vec<String>,
    pub stories: Vec<String>,
    pub planned_velocity: u8,
    pub actual_velocity: u8,
}

/// The requirement details a project can be initialized with: a problem
/// statement and the metrics that would show success.
#[derive(Debug, Clone, PartialEq)]
pub struct Prd {
    pub problem: String,
    pub success_metrics: Vec<String>,
}

/// Project metadata as persisted in the project file.  `llm` holds the
/// project-level overrides only; the resolved configuration lives on
/// [`Project`].
#[derive(Debug, Clone)]
pub struct ProjectMeta {
    pub name: String,
    pub description: String,
    pub created: i64,
    pub tech_stack: Vec<String>,
    pub tags: Vec<String>,
    pub llm: Option<PartialLlmConfig>,
    pub prd: Option<Prd>,
}

#[derive(Debug, Clone)]
pub struct Project {
    pub meta: ProjectMeta,
    pub backlog: Vec<BacklogItem>,
    pub sprints: Vec<Sprint>,
    pub current_sprint: Option<String>,
    pub resolved_llm_config: FinalLlmConfig,
}

/// The description a fresh project gets: the description file's content,
/// trimmed, when it is nonblank; else the flag's text; else a default
/// naming the project.
pub open spec fn spec_chosen_description(
    file: Option<Seq<char>>,
    flag: Option<Seq<char>>,
    name: Seq<char>,
) -> Seq<char> {
    let fallback = match flag {
        Some(d) => d,
        None => "AI-assisted development project for "@ + name,
    };
    match file {
        Some(c) => if spec_trim(c).len() > 0 {
            spec_trim(c)
        } else {
            fallback
        },
        None => fallback,
    }
}

/// Picks the project description at initialization, as
/// [`spec_chosen_description`] states: file beats flag beats default.
pub fn choose_description(file: Option<&str>, flag: Option<String>, name: &str) -> (r: String)
    ensures
        r@ == spec_chosen_description(
            match file {
                Some(c) => Some(c@),
                None => None,
            },
            match flag {
                Some(d) => Some(d@),
                None => None,
            },
            name@,
        ),
{
    if let Some(c) = file {
        let t = str_trim(c);
        if t.unicode_len() > 0 {
            return t.to_owned();
        }
    }
    match flag {
        Some(d) => d,
        None => {
            let mut s = "AI-assisted development project for ".to_owned();
            s.append(name);
            proof {
                assert(s@ =~= "AI-assisted development project for "@ + name@);
            }
            s
        },
    }
}

/// The requirement details recorded at initialization: present exactly
/// when a problem statement or at least one success metric was given, with
/// an absent problem stored as the empty statement.
pub fn prd_of(problem: Option<String>, metrics: Vec<String>) -> (r: Option<Prd>)
    ensures
        r is Some <==> problem is Some || metrics@.len() > 0,
        r matches Some(prd) ==> prd.problem@ == (match problem {
            Some(p) => p@,
            None => Seq::<char>::empty(),
        }) && prd.success_metrics == metrics,
{
    let has_metrics = metrics.len() > 0;
    match problem {
        Some(p) => Some(Prd { problem: p, success_metrics: metrics }),
        None => {
            if has_metrics {
                Some(Prd { problem: String::new(), success_metrics: metrics })
            } else {
                None
            }
        },
    }
}

/// Which layer supplied a resolved configuration value.
#[derive(Debug, Clone, Copy, PartialEq, Eq, Structural)]
pub enum ConfigSource {
    Project,
    Global,
    Default,
    Unknown,
}

/// The layer a resolved value is credited to: the project override when it
/// matches, else the global setting when it matches, else the built-in
/// default, and `Unknown` when none of them does.
pub open spec fn spec_value_source(
    p: Option<Seq<char>>,
    g: Option<Seq<char>>,
    d: Seq<char>,
    actual: Seq<char>,
) -> ConfigSource {
    if p matches Some(v) && v == actual {
        ConfigSource::Project
    } else if g matches Some(v) && v == actual {
        ConfigSource::Global
    } else if actual == d {
        ConfigSource::Default
    } else {
        ConfigSource::Unknown
    }
}

pub fn value_source(p: Option<&str>, g: Option<&str>, d: &str, actual: &str) -> (r: ConfigSource)
    ensures
        r == spec_value_source(
            match p {
                Some(v) => Some(v@),
                None => None,
            },
            match g {
                Some(v) => Some(v@),
                None => None,
            },
            d@,
            actual@,
        ),
{
    if let Some(v) = p {
        if str_eq(v, actual) {
            return ConfigSource::Project;
        }
    }
    if let Some(v) = g {
        if str_eq(v, actual) {
            return ConfigSource::Global;
        }
    }
    if str_eq(actual, d) {
        ConfigSource::Default
    } else {
        ConfigSource::Unknown
    }
}

pub fn status_eq(a: Status, b: Status) -> (r: bool)
    ensures
        r == (a == b),
{
    match (a, b) {
        (Status::Todo, Status::Todo) => true,
        (Status::InProgress, Status::InProgress) => true,
        (Status::Review, Status::Review) => true,
        (Status::Done, Status::Done) => true,
        _ => false,
    }
}

pub open spec fn spec_priority_label(p: Priority) -> Seq<char> {
    match p {
        Priority::Critical => "Critical"@,
        Priority::High => "High"@,
        Priority::Medium => "Medium"@,
        Priority::Low => "Low"@,
    }
}

pub fn priority_label(p: Priority) -> (r: &'static str)
    ensures
        r@ == spec_priority_label(p),
{
    match p {
        Priority::Critical => "Critical",
        Priority::High => "High",
        Priority::Medium => "Medium",
        Priority::Low => "Low",
    }
}

/// The sequential story identifier `US-` followed by `n`, zero-padded to
/// three places.
pub open spec fn spec_story_id(n: nat) -> Seq<char> {
    "US-"@ + spec_padded3(n)
}

pub fn format_story_id(n: u128) -> (r: String)
    ensures
        r@ == spec_story_id(n as nat),
{
    let mut s = "US-".to_owned();
    let p = padded3(n);
    s.append(p.as_str());
    proof {
        assert(s@ =~= spec_story_id(n as nat));
    }
    s
}

/// The sequential sprint identifier `S-` followed by `n`, zero-padded to
/// three places.
pub open spec fn spec_sprint_id(n: nat) -> Seq<char> {
    "S-"@ + spec_padded3(n)
}

pub fn format_sprint_id(n: u128) -> (r: String)
    ensures
        r@ == spec_sprint_id(n as nat),
{
    let mut s = "S-".to_owned();
    let p = padded3(n);
    s.append(p.as_str());
    proof {
        assert(s@ =~= spec_sprint_id(n as nat));
    }
    s
}

pub open spec fn tag_if(b: bool, t: Seq<char>) -> Seq<Seq<char>> {
    if b {
        seq![t]
    } else {
        Seq::<Seq<char>>::empty()
    }
}

/// The tags suggested by the project name and detected technology stack,
/// before defaults.
#[verifier::opaque]
pub open spec fn spec_base_tags(name: Seq<char>, st: Seq<Seq<char>>) -> Seq<Seq<char>> {
    let n = lower_seq(name);
    tag_if(spec_contains(n, "api"@) || spec_contains(n, "server"@), "backend"@) + tag_if(
        spec_contains(n, "web"@) || spec_contains(n, "frontend"@) || spec_contains(n, "ui"@),
        "frontend"@,
    ) + tag_if(spec_contains(n, "cli"@) || spec_contains(n, "tool"@), "cli"@) + tag_if(
        spec_contains(n, "game"@),
        "game"@,
    ) + tag_if(spec_contains(n, "bot"@), "automation"@) + tag_if(
        spec_contains(n, "lib"@) || spec_contains(n, "crate"@),
        "library"@,
    ) + tag_if(st.contains("rust"@), "systems"@) + tag_if(st.contains("nodejs"@), "javascript"@)
        + tag_if(st.contains("docker"@), "containerization"@)
}

/// The initial tags of a project: the suggested tags, or `development` when
/// none apply, always followed by `env-coach`.
pub open spec fn spec_initial_tags(name: Seq<char>, st: Seq<Seq<char>>) -> Seq<Seq<char>> {
    (if spec_base_tags(name, st).len() == 0 {
        seq!["development"@]
    } else {
        spec_base_tags(name, st)
    }) + seq!["env-coach"@]
}

fn push_tag_if(tags: &mut Vec<String>, cond: bool, tag: &str)
    ensures
        views_of(final(tags)@) == views_of(old(tags)@) + tag_if(cond, tag@),
{
    if cond {
        tags.push(tag.to_owned());
        proof {
            assert(views_of(tags@) =~= views_of(tags@.drop_last()).push(tags@.last()@));
            assert(views_of(tags@) =~= views_of(old(tags)@) + tag_if(cond, tag@));
        }
    } else {
        proof {
            assert(views_of(tags@) =~= views_of(old(tags)@) + tag_if(cond, tag@));
        }
    }
}

proof fn lemma_empty_concat(s: Seq<Seq<char>>)
    ensures
        Seq::<Seq<char>>::empty() + s == s,
{
    assert(Seq::<Seq<char>>::empty() + s =~= s);
}

#[verifier::rlimit(100)]
pub fn generate_initial_tags(name: &str, tech_stack: &Vec<String>) -> (r: Vec<String>)
    ensures
        views_of(r@) == spec_initial_tags(name@, views_of(tech_stack@)),
{
    let lowered = ascii_lowercase(name);
    let ghost n = lower_seq(name@);
    let ghost st = views_of(tech_stack@);
    let c1 = str_contains(lowered.as_str(), "api") || str_contains(lowered.as_str(), "server");
    let c2 = str_contains(lowered.as_str(), "web") || str_contains(lowered.as_str(), "frontend")
        || str_contains(lowered.as_str(), "ui");
    let c3 = str_contains(lowered.as_str(), "cli") || str_contains(lowered.as_str(), "tool");
    let c4 = str_contains(lowered.as_str(), "game");
    let c5 = str_contains(lowered.as_str(), "bot");
    let c6 = str_contains(lowered.as_str(), "lib") || str_contains(lowered.as_str(), "crate");
    let c7 = vec_contains_string(tech_stack, "rust");
    let c8 = vec_contains_string(tech_stack, "nodejs");
    let c9 = vec_contains_string(tech_stack, "docker");
    let mut tags: Vec<String> = Vec::new();
    proof {
        assert(views_of(tags@) =~= Seq::<Seq<char>>::empty());
    }
    push_tag_if(&mut tags, c1, "backend");
    push_tag_if(&mut tags, c2, "frontend");
    push_tag_if(&mut tags, c3, "cli");
    push_tag_if(&mut tags, c4, "game");
    push_tag_if(&mut tags, c5, "automation");
    push_tag_if(&mut tags, c6, "library");
    push_tag_if(&mut tags, c7, "systems");
    push_tag_if(&mut tags, c8, "javascript");
    push_tag_if(&mut tags, c9, "containerization");
    proof {
        reveal(spec_base_tags);
        lemma_empty_concat(tag_if(c1, "backend"@));
        assert(views_of(tags@) == spec_base_tags(name@, st));
    }
    if tags.len() == 0 {
        tags.push("development".to_owned());
        proof {
            assert(views_of(tags@) =~= seq!["development"@]);
        }
    }
    tags.push("env-coach".to_owned());
    proof {
        assert(views_of(tags@) =~= views_of(tags@.drop_last()).push(tags@.last()@));
        assert(views_of(tags@) =~= spec_initial_tags(name@, st));
    }
    tags
}

#[derive(Debug, Clone, Copy, PartialEq, Eq, Structural)]
pub enum ValidationError {
    EmptyName,
    EmptyModel,
    EmptyHost,
    ZeroPort,
}

impl Project {
    /// A fresh project: empty backlog, tags derived from the name and the
    /// detected technology stack, LLM settings resolved from the global
    /// layer alone.
    pub fn new(
        name: String,
        description: String,
        global_llm_config: Option<&PartialLlmConfig>,
        tech_stack: Vec<String>,
    ) -> (r: Project)
        ensures
            r.meta.name == name,
            r.meta.description == description,
            r.meta.tech_stack == tech_stack,
            views_of(r.meta.tags@) == spec_initial_tags(name@, views_of(tech_stack@)),
            r.meta.llm is None,
            r.meta.prd is None,
            r.backlog@.len() == 0,
            r.sprints@.len() == 0,
            r.current_sprint is None,
            resolved_ok(global_llm_config, None, r.resolved_llm_config),
    {
        let resolved_llm_config = resolve_llm_config(global_llm_config, None);
        let tags = generate_initial_tags(name.as_str(), &tech_stack);
        Project {
            meta: ProjectMeta {
                name,
                description,
                created: now_unix(),
                tech_stack,
                tags,
                llm: None,
                prd: None,
            },
            backlog: Vec::new(),
            sprints: Vec::new(),
            current_sprint: None,
            resolved_llm_config,
        }
    }

    /// The resolved LLM configuration for runtime use.
    pub fn llm(&self) -> (r: &FinalLlmConfig)
        ensures
            *r == self.resolved_llm_config,
    {
        &self.resolved_llm_config
    }

    /// A project is usable when its name and the resolved model and host
    /// are nonempty and the port is nonzero; the first failing check names
    /// the error.
    pub fn validate(&self) -> (r: Result<(), ValidationError>)
        ensures
            r is Ok <==> self.meta.name@.len() > 0 && self.resolved_llm_config.model@.len() > 0
                && self.resolved_llm_config.host@.len() > 0 && self.resolved_llm_config.port != 0,
            r == Err::<(), ValidationError>(ValidationError::EmptyName) <==> self.meta.name@.len()
                == 0,
            r == Err::<(), ValidationError>(ValidationError::EmptyModel) <==> self.meta.name@.len()
                > 0 && self.resolved_llm_config.model@.len() == 0,
            r == Err::<(), ValidationError>(ValidationError::EmptyHost) <==> self.meta.name@.len()
                > 0 && self.resolved_llm_config.model@.len() > 0
                && self.resolved_llm_config.host@.len() == 0,
            r == Err::<(), ValidationError>(ValidationError::ZeroPort) <==> self.meta.name@.len()
                > 0 && self.resolved_llm_config.model@.len() > 0
                && self.resolved_llm_config.host@.len() > 0 && self.resolved_llm_config.port == 0,
    {
        if self.meta.name.as_str().unicode_len() == 0 {
            return Err(ValidationError::EmptyName);
        }
        if self.resolved_llm_config.model.as_str().unicode_len() == 0 {
            return Err(ValidationError::EmptyModel);
        }
        if self.resolved_llm_config.host.as_str().unicode_len() == 0 {
            return Err(ValidationError::EmptyHost);
        }
        if self.resolved_llm_config.port == 0 {
            return Err(ValidationError::ZeroPort);
        }
        Ok(())
    }

    pub fn add_backlog_item(&mut self, item: BacklogItem)
        ensures
            final(self).backlog@ == old(self).backlog@.push(item),
            final(self).meta == old(self).meta,
            final(self).sprints == old(self).sprints,
            final(self).current_sprint == old(self).current_sprint,
            final(self).resolved_llm_config == old(self).resolved_llm_config,
    {
        self.backlog.push(item);
    }

    pub fn add_sprint(&mut self, sprint: Sprint)
        ensures
            final(self).sprints@ == old(self).sprints@.push(sprint),
            final(self).meta == old(self).meta,
            final(self).backlog == old(self).backlog,
            final(self).current_sprint == old(self).current_sprint,
            final(self).resolved_llm_config == old(self).resolved_llm_config,
    {
        self.sprints.push(sprint);
    }

    /// The position of the first backlog item with the given identifier.
    pub fn get_backlog_item_index(&self, id: &str) -> (r: Option<usize>)
        ensures
            match r {
                Some(k) => 0 <= k < self.backlog@.len() && self.backlog@[k as int].id@ == id@
                    && forall|j: int| 0 <= j < k ==> self.backlog@[j].id@ != id@,
                None => forall|j: int|
                    0 <= j < self.backlog@.len() ==> self.backlog@[j].id@ != id@,
            },
    {
        let n = self.backlog.len();
        let mut i: usize = 0;
        while i < n
            invariant
                n == self.backlog@.len(),
                i <= n,
                forall|j: int| 0 <= j < i ==> self.backlog@[j].id@ != id@,
            decreases n - i,
        {
            if str_eq(self.backlog[i].id.as_str(), id) {
                return Some(i);
            }
            i += 1;
        }
        None
    }

    /// The first backlog item with the given identifier.
    pub fn get_backlog_item(&self, id: &str) -> (r: Option<&BacklogItem>)
        ensures
            match r {
                Some(item) => exists|k: int|
                    0 <= k < self.backlog@.len() && #[trigger] self.backlog@[k].id@ == id@ && *item
                        == self.backlog@[k] && forall|j: int|
                        0 <= j < k ==> self.backlog@[j].id@ != id@,
                None => forall|j: int|
                    0 <= j < self.backlog@.len() ==> self.backlog@[j].id@ != id@,
            },
    {
        match self.get_backlog_item_index(id) {
            Some(i) => Some(&self.backlog[i]),
            None => None,
        }
    }

    /// The position of the first sprint whose status is `Active`.
    pub fn get_active_sprint_index(&self) -> (r: Option<usize>)
        ensures
            match r {
                Some(k) => 0 <= k < self.sprints@.len() && self.sprints@[k as int].status
                    == SprintStatus::Active && forall|j: int|
                    0 <= j < k ==> self.sprints@[j].status != SprintStatus::Active,
                None => forall|j: int|
                    0 <= j < self.sprints@.len() ==> self.sprints@[j].status
                        != SprintStatus::Active,
            },
    {
        let n = self.sprints.len();
        let mut i: usize = 0;
        while i < n
            invariant
                n == self.sprints@.len(),
                i <= n,
                forall|j: int| 0 <= j < i ==> self.sprints@[j].status != SprintStatus::Active,
            decreases n - i,
        {
            if matches!(self.sprints[i].status, SprintStatus::Active) {
                return Some(i);
            }
            i += 1;
        }
        None
    }

    /// The first sprint whose status is `Active`.
    pub fn get_active_sprint(&self) -> (r: Option<&Sprint>)
        ensures
            match r {
                Some(s) => exists|k: int|
                    0 <= k < self.sprints@.len() && #[trigger] self.sprints@[k].status
                        == SprintStatus::Active && *s == self.sprints@[k] && forall|j: int|
                        0 <= j < k ==> self.sprints@[j].status != SprintStatus::Active,
                None => forall|j: int|
                    0 <= j < self.sprints@.len() ==> self.sprints@[j].status
                        != SprintStatus::Active,
            },
    {
        match self.get_active_sprint_index() {
            Some(i) => Some(&self.sprints[i]),
            None => None,
        }
    }

    /// All backlog items that are user stories, in backlog order.
    pub fn get_user_stories(&self) -> (r: Vec<&BacklogItem>)
        ensures
            r@.map_values(|x: &BacklogItem| *x) == self.backlog@.filter(
                |it: BacklogItem| it.item_type == ItemType::UserStory,
            ),
    {
        let mut out: Vec<&BacklogItem> = Vec::new();
        let n = self.backlog.len();
        let mut i: usize = 0;
        let ghost pred = |it: BacklogItem| it.item_type == ItemType::UserStory;
        while i < n
            invariant
                n == self.backlog@.len(),
                i <= n,
                out@.map_values(|x: &BacklogItem| *x) =~= self.backlog@.take(i as int).filter(
                    |it: BacklogItem| it.item_type == ItemType::UserStory,
                ),
            decreases n - i,
        {
            proof {
                reveal(Seq::filter);
                assert(self.backlog@.take(i + 1).drop_last() =~= self.backlog@.take(i as int));
                assert(self.backlog@.take(i + 1).last() == self.backlog@[i as int]);
            }
            if matches!(self.backlog[i].item_type, ItemType::UserStory) {
                out.push(&self.backlog[i]);
                proof {
                    assert(out@.map_values(|x: &BacklogItem| *x) =~= out@.drop_last().map_values(
                        |x: &BacklogItem| *x,
                    ).push(self.backlog@[i as int]));
                }
            }
            i += 1;
        }
        proof {
            assert(self.backlog@.take(n as int) =~= self.backlog@);
        }
        out
    }

    /// All backlog items whose status is `Todo`, in backlog order.
    pub fn get_todo_items(&self) -> (r: Vec<&BacklogItem>)
        ensures
            r@.map_values(|x: &BacklogItem| *x) == self.backlog@.filter(
                |it: BacklogItem| it.status == Status::Todo,
            ),
    {
        let mut out: Vec<&BacklogItem> = Vec::new();
        let n = self.backlog.len();
        let mut i: usize = 0;
        while i < n
            invariant
                n == self.backlog@.len(),
                i <= n,
                out@.map_values(|x: &BacklogItem| *x) =~= self.backlog@.take(i as int).filter(
                    |it: BacklogItem| it.status == Status::Todo,
                ),
            decreases n - i,
        {
            proof {
                reveal(Seq::filter);
                assert(self.backlog@.take(i + 1).drop_last() =~= self.backlog@.take(i as int));
                assert(self.backlog@.take(i + 1).last() == self.backlog@[i as int]);
            }
            if matches!(self.backlog[i].status, Status::Todo) {
                out.push(&self.backlog[i]);
                proof {
                    assert(out@.map_values(|x: &BacklogItem| *x) =~= out@.drop_last().map_values(
                        |x: &BacklogItem| *x,
                    ).push(self.backlog@[i as int]));
                }
            }
            i += 1;
        }
        proof {
            assert(self.backlog@.take(n as int) =~= self.backlog@);
        }
        out
    }

    /// All backlog items whose status is `Done`, in backlog order.
    pub fn get_completed_items(&self) -> (r: Vec<&BacklogItem>)
        ensures
            r@.map_values(|x: &BacklogItem| *x) == self.backlog@.filter(
                |it: BacklogItem| it.status == Status::Done,
            ),
    {
        let mut out: Vec<&BacklogItem> = Vec::new();
        let n = self.backlog.len();
        let mut i: usize = 0;
        while i < n
            invariant
                n == self.backlog@.len(),
                i <= n,
                out@.map_values(|x: &BacklogItem| *x) =~= self.backlog@.take(i as int).filter(
                    |it: BacklogItem| it.status == Status::Done,
                ),
            decreases n - i,
        {
            proof {
                reveal(Seq::filter);
                assert(self.backlog@.take(i + 1).drop_last() =~= self.backlog@.take(i as int));
                assert(self.backlog@.take(i + 1).last() == self.backlog@[i as int]);
            }
            if matches!(self.backlog[i].status, Status::Done) {
                out.push(&self.backlog[i]);
                proof {
                    assert(out@.map_values(|x: &BacklogItem| *x) =~= out@.drop_last().map_values(
                        |x: &BacklogItem| *x,
                    ).push(self.backlog@[i as int]));
                }
            }
            i += 1;
        }
        proof {
            assert(self.backlog@.take(n as int) =~= self.backlog@);
        }
        out
    }

    /// How many backlog items carry a `US-` identifier.
    pub fn count_us_items(&self) -> (r: usize)
        ensures
            r == self.backlog@.filter(|it: BacklogItem| matches_at(it.id@, "US-"@, 0)).len(),
    {
        let mut count: usize = 0;
        let n = self.backlog.len();
        let mut i: usize = 0;
        while i < n
            invariant
                n == self.backlog@.len(),
                i <= n,
                count == self.backlog@.take(i as int).filter(
                    |it: BacklogItem| matches_at(it.id@, "US-"@, 0),
                ).len(),
                count <= i,
            decreases n - i,
        {
            proof {
                reveal(Seq::filter);
                assert(self.backlog@.take(i + 1).drop_last() =~= self.backlog@.take(i as int));
                assert(self.backlog@.take(i + 1).last() == self.backlog@[i as int]);
                self.backlog@.take(i as int).lemma_filter_len(
                    |it: BacklogItem| matches_at(it.id@, "US-"@, 0),
                );
            }
            if str_starts_with(self.backlog[i].id.as_str(), "US-") {
                count += 1;
            }
            i += 1;
        }
        proof {
            assert(self.backlog@.take(n as int) =~= self.backlog@);
        }
        count
    }

    /// How many backlog items are user stories.
    pub fn count_user_stories(&self) -> (r: usize)
        ensures
            r == self.backlog@.filter(|it: BacklogItem| it.item_type == ItemType::UserStory).len(),
    {
        let mut count: usize = 0;
        let n = self.backlog.len();
        let mut i: usize = 0;
        while i < n
            invariant
                n == self.backlog@.len(),
                i <= n,
                count == self.backlog@.take(i as int).filter(
                    |it: BacklogItem| it.item_type == ItemType::UserStory,
                ).len(),
                count <= i,
            decreases n - i,
        {
            proof {
                reveal(Seq::filter);
                assert(self.backlog@.take(i + 1).drop_last() =~= self.backlog@.take(i as int));
                assert(self.backlog@.take(i + 1).last() == self.backlog@[i as int]);
                self.backlog@.take(i as int).lemma_filter_len(
                    |it: BacklogItem| it.item_type == ItemType::UserStory,
                );
            }
            if matches!(self.backlog[i].item_type, ItemType::UserStory) {
                count += 1;
            }
            i += 1;
        }
        proof {
            assert(self.backlog@.take(n as int) =~= self.backlog@);
        }
        count
    }

    /// How many backlog items carry the given status.
    pub fn count_by_status(&self, status: Status) -> (r: usize)
        ensures
            r == self.backlog@.filter(|it: BacklogItem| it.status == status).len(),
    {
        let mut count: usize = 0;
        let n = self.backlog.len();
        let mut i: usize = 0;
        while i < n
            invariant
                n == self.backlog@.len(),
                i <= n,
                count == self.backlog@.take(i as int).filter(
                    |it: BacklogItem| it.status == status,
                ).len(),
                count <= i,
            decreases n - i,
        {
            proof {
                reveal(Seq::filter);
                assert(self.backlog@.take(i + 1).drop_last() =~= self.backlog@.take(i as int));
                assert(self.backlog@.take(i + 1).last() == self.backlog@[i as int]);
                self.backlog@.take(i as int).lemma_filter_len(
                    |it: BacklogItem| it.status == status,
                );
            }
            if status_eq(self.backlog[i].status, status) {
                count += 1;
            }
            i += 1;
        }
        proof {
            assert(self.backlog@.take(n as int) =~= self.backlog@);
        }
        count
    }

    /// A reader-friendly one-line description of the technology stack.
    pub fn get_tech_stack_description(&self) -> (r: String)
        ensures
            r@ == spec_tech_stack_description(views_of(self.meta.tech_stack@)),
    {
        let st = &self.meta.tech_stack;
        if vec_contains_string(st, "rust") {
            "Rust project with modern tooling".to_owned()
        } else if vec_contains_string(st, "nodejs") {
            "Node.js/JavaScript project".to_owned()
        } else if vec_contains_string(st, "python") {
            "Python project".to_owned()
        } else if vec_contains_string(st, "go") {
            "Go project".to_owned()
        } else if vec_contains_string(st, "java") {
            "Java project".to_owned()
        } else {
            let mut s = "Multi-technology project (".to_owned();
            let joined = join_strings(st, ", ");
            s.append(joined.as_str());
            s.append(")");
            proof {
                assert(s@ =~= "Multi-technology project ("@ + spec_join(
                    views_of(self.meta.tech_stack@),
                    ", "@,
                ) + ")"@);
            }
            s
        }
    }

    /// The tags joined with `", "`, or `none` when there are no tags.
    pub fn get_tags_display(&self) -> (r: String)
        ensures
            r@ == if views_of(self.meta.tags@).len() == 0 {
                "none"@
            } else {
                spec_join(views_of(self.meta.tags@), ", "@)
            },
    {
        if self.meta.tags.len() == 0 {
            "none".to_owned()
        } else {
            join_strings(&self.meta.tags, ", ")
        }
    }
}

/// The one-line stack description: the first well-known technology wins,
/// otherwise the stack is listed verbatim.
pub open spec fn spec_tech_stack_description(st: Seq<Seq<char>>) -> Seq<char> {
    if st.contains("rust"@) {
        "Rust project with modern tooling"@
    } else if st.contains("nodejs"@) {
        "Node.js/JavaScript project"@
    } else if st.contains("python"@) {
        "Python project"@
    } else if st.contains("go"@) {
        "Go project"@
    } else if st.contains("java"@) {
        "Java project"@
    } else {
        "Multi-technology project ("@ + spec_join(st, ", "@) + ")"@
    }
}

} // verus!
