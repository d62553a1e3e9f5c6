//! Pulling user stories out of free-form text: finding lines that read
//! like stories, and choosing a title from the surrounding context.

use vstd::prelude::*;
use vstd::string::*;
use crate::config::{
    spec_story_id, format_story_id, BacklogItem, ItemType, Priority, Project, Status,
};
use crate::text::{
    lower_seq, matches_at, spec_contains, spec_digits, spec_lines, spec_trim, split_lines,
    str_contains, str_starts_with, str_trim, u128_to_string, views_of, ascii_lowercase,
};
use crate::clock::now_unix;

verus! {

/// A line that can serve as a story title: nonempty once trimmed, not a
/// story sentence itself, no heading or fence marker, and under a hundred
/// characters.
pub open spec fn good_title_line(l: Seq<char>) -> bool {
    let t = spec_trim(l);
    &&& t.len() > 0
    &&& !spec_contains(lower_seq(t), "as a user"@)
    &&& !matches_at(t, "##"@, 0)
    &&& !matches_at(t, "```"@, 0)
    &&& t.len() < 100
}

/// Scanning backwards from line `i`, the first line fit to be a title.
pub open spec fn spec_title_scan(lines: Seq<Seq<char>>, i: int) -> Option<Seq<char>>
    decreases i,
{
    if i <= 0 {
        None
    } else if good_title_line(lines[i - 1]) {
        Some(spec_trim(lines[i - 1]))
    } else {
        spec_title_scan(lines, i - 1)
    }
}

/// The title for a story found at line `idx`: the nearest preceding line
/// fit to be a title, or a generated placeholder naming the line.
pub open spec fn spec_title_from_context(lines: Seq<Seq<char>>, idx: int) -> Seq<char> {
    match spec_title_scan(lines, idx) {
        Some(t) => t,
        None => "Generated Title for Story near line "@ + spec_digits((idx + 1) as nat),
    }
}

fn good_title_line_exec(l: &str) -> (r: bool)
    ensures
        r == good_title_line(l@),
{
    let t = str_trim(l);
    let tlen = t.unicode_len();
    if tlen == 0 || tlen >= 100 {
        return false;
    }
    let lowered = ascii_lowercase(t);
    !str_contains(lowered.as_str(), "as a user") && !str_starts_with(t, "##") && !str_starts_with(
        t,
        "```",
    )
}

/// Picks a title for a story found at `current_index`, as
/// [`spec_title_from_context`] states.
pub fn extract_title_from_context(lines: &Vec<String>, current_index: usize) -> (r: String)
    requires
        current_index <= lines@.len(),
        current_index < usize::MAX,
    ensures
        r@ == spec_title_from_context(views_of(lines@), current_index as int),
{
    let ghost lv = views_of(lines@);
    let mut i: usize = current_index;
    while i > 0
        invariant
            lv == views_of(lines@),
            i <= current_index <= lines@.len(),
            spec_title_scan(lv, current_index as int) == spec_title_scan(lv, i as int),
        decreases i,
    {
        proof {
            assert(lv[i - 1] == lines@[i - 1]@);
        }
        if good_title_line_exec(lines[i - 1].as_str()) {
            let t = str_trim(lines[i - 1].as_str());
            return t.to_owned();
        }
        i -= 1;
    }
    let mut s = "Generated Title for Story near line ".to_owned();
    let d = u128_to_string(current_index as u128 + 1);
    s.append(d.as_str());
    proof {
        assert(s@ =~= "Generated Title for Story near line "@ + spec_digits(
            (current_index + 1) as nat,
        ));
    }
    s
}

/// A line that reads like a user story: it mentions being a user, speaks
/// of a user story, or carries a story identifier.
pub open spec fn story_line(l: Seq<char>) -> bool {
    ||| spec_contains(lower_seq(l), "as a user"@)
    ||| spec_contains(lower_seq(l), "user story"@)
    ||| spec_contains(l, "US-"@)
}

fn story_line_exec(l: &str) -> (r: bool)
    ensures
        r == story_line(l@),
{
    let lowered = ascii_lowercase(l);
    str_contains(lowered.as_str(), "as a user") || str_contains(lowered.as_str(), "user story")
        || str_contains(l, "US-")
}

/// How many of the first `i` lines read like stories.
pub open spec fn story_count_upto(lines: Seq<Seq<char>>, i: int) -> nat
    decreases i,
{
    if i <= 0 {
        0
    } else {
        story_count_upto(lines, i - 1) + if story_line(lines[i - 1]) {
            1nat
        } else {
            0nat
        }
    }
}

/// The line index of the `k`-th story line at or after line `i`, or the
/// line count when there is none.
pub open spec fn kth_story_index(lines: Seq<Seq<char>>, i: int, k: nat) -> int
    decreases lines.len() - i,
{
    if i < 0 || i >= lines.len() {
        lines.len() as int
    } else if story_line(lines[i]) {
        if k == 0 {
            i
        } else {
            kth_story_index(lines, i + 1, (k - 1) as nat)
        }
    } else {
        kth_story_index(lines, i + 1, k)
    }
}

/// What the fallback extraction appends for the `k`-th story line, found
/// at line `idx`, when `c0` backlog items carried a `US-` identifier
/// before the call.  The identifier counts both the items appended so far
/// and the running tally, as the extraction recounts after each push.
pub open spec fn extracted_story_ok(
    lines: Seq<Seq<char>>,
    c0: nat,
    k: nat,
    idx: int,
    item: BacklogItem,
) -> bool {
    &&& item.id@ == spec_story_id(c0 + 2 * k + 1)
    &&& item.item_type == ItemType::UserStory
    &&& item.title@ == spec_title_from_context(lines, idx)
    &&& item.story@ == spec_trim(lines[idx])
    &&& views_of(item.acceptance_criteria@) == seq![
        "Define specific acceptance criteria"@,
        "Implement the feature"@,
        "Write tests and documentation"@,
    ]
    &&& item.priority == Priority::Medium
    &&& item.effort == 3
    &&& item.status == Status::Todo
    &&& item.sprint is None
    &&& item.dependencies@.len() == 0
}

/// The number of backlog items carrying a `US-` identifier.
pub open spec fn us_count(backlog: Seq<BacklogItem>) -> nat {
    backlog.filter(|it: BacklogItem| matches_at(it.id@, "US-"@, 0)).len()
}

proof fn lemma_story_id_prefixed(n: nat)
    ensures
        matches_at(spec_story_id(n), "US-"@, 0),
{
    reveal_strlit("US-");
    assert(spec_story_id(n).subrange(0, 3) =~= "US-"@);
}

/// Scans the text line by line and appends a `Todo` story for every line
/// that reads like one, numbering each from the running count of `US-`
/// items.  Returns how many stories it found.
pub fn extract_stories_from_text(project: &mut Project, text: &str) -> (found: usize)
    ensures
        final(project).meta == old(project).meta,
        final(project).sprints == old(project).sprints,
        final(project).current_sprint == old(project).current_sprint,
        final(project).resolved_llm_config == old(project).resolved_llm_config,
        found == story_count_upto(spec_lines(text@), spec_lines(text@).len() as int),
        final(project).backlog@.len() == old(project).backlog@.len() + found,
        forall|j: int|
            0 <= j < old(project).backlog@.len() ==> final(project).backlog@[j] == old(
                project,
            ).backlog@[j],
        forall|k: int|
            0 <= k < found ==> extracted_story_ok(
                spec_lines(text@),
                us_count(old(project).backlog@),
                k as nat,
                kth_story_index(spec_lines(text@), 0, k as nat),
                #[trigger] final(project).backlog@[old(project).backlog@.len() + k],
            ),
{
    let ghost lv = spec_lines(text@);
    let ghost c0 = us_count(old(project).backlog@);
    let ghost oldbacklog = old(project).backlog@;
    let ghost oldmeta = project.meta;
    let ghost oldsprints = project.sprints;
    let ghost oldcurrent = project.current_sprint;
    let ghost oldresolved = project.resolved_llm_config;
    let lines = split_lines(text);
    let n = lines.len();
    let mut found: usize = 0;
    let mut i: usize = 0;
    while i < n
        invariant
            lv == spec_lines(text@),
            views_of(lines@) == lv,
            n == lines@.len(),
            i <= n,
            found <= i,
            found == story_count_upto(lv, i as int),
            us_count(project.backlog@) == c0 + found,
            project.meta == oldmeta,
            project.sprints == oldsprints,
            project.current_sprint == oldcurrent,
            project.resolved_llm_config == oldresolved,
            project.backlog@.len() == oldbacklog.len() + found,
            forall|j: int| 0 <= j < oldbacklog.len() ==> project.backlog@[j] == oldbacklog[j],
            forall|k: int|
                0 <= k < found ==> extracted_story_ok(
                    lv,
                    c0,
                    k as nat,
                    kth_story_index(lv, 0, k as nat),
                    #[trigger] project.backlog@[oldbacklog.len() + k],
                ),
            forall|m: nat|
                kth_story_index(lv, 0, (found + m) as nat) == #[trigger] kth_story_index(
                    lv,
                    i as int,
                    m,
                ),
        decreases n - i,
    {
        proof {
            assert(lv[i as int] == lines@[i as int]@);
        }
        if story_line_exec(lines[i].as_str()) {
            let count = project.count_us_items();
            proof {
                assert(count == c0 + found);
            }
            let story_num: u128 = count as u128 + 1 + found as u128;
            let story_id = format_story_id(story_num);
            let title = extract_title_from_context(&lines, i);
            let trimmed = str_trim(lines[i].as_str());
            let story_text = trimmed.to_owned();
            let mut criteria: Vec<String> = Vec::new();
            criteria.push("Define specific acceptance criteria".to_owned());
            criteria.push("Implement the feature".to_owned());
            criteria.push("Write tests and documentation".to_owned());
            proof {
                assert(views_of(criteria@) =~= seq![
                    "Define specific acceptance criteria"@,
                    "Implement the feature"@,
                    "Write tests and documentation"@,
                ]);
            }
            let item = BacklogItem {
                id: story_id,
                item_type: ItemType::UserStory,
                title,
                story: story_text,
                acceptance_criteria: criteria,
                priority: Priority::Medium,
                effort: 3,
                status: Status::Todo,
                created: now_unix(),
                sprint: None,
                dependencies: Vec::new(),
            };
            proof {
                assert(item.id@ == spec_story_id((c0 + 2 * found + 1) as nat));
                assert(kth_story_index(lv, i as int, 0) == i as int);
                assert(kth_story_index(lv, 0, found as nat) == i as int);
                assert(item.title@ == spec_title_from_context(lv, i as int));
                assert(extracted_story_ok(
                    lv,
                    c0,
                    found as nat,
                    kth_story_index(lv, 0, found as nat),
                    item,
                ));
            }
            let ghost prevb = project.backlog@;
            project.backlog.push(item);
            proof {
                reveal(Seq::filter);
                lemma_story_id_prefixed((c0 + 2 * found + 1) as nat);
                assert(project.backlog@.drop_last() =~= prevb);
                assert(matches_at(project.backlog@.last().id@, "US-"@, 0));
                assert(us_count(project.backlog@) == c0 + found + 1);
            }
            found += 1;
            proof {
                assert(story_count_upto(lv, i + 1) == story_count_upto(lv, i as int) + 1);
                assert forall|m: nat|
                    kth_story_index(lv, 0, (found + m) as nat) == #[trigger] kth_story_index(
                        lv,
                        i + 1,
                        m,
                    ) by {
                    assert(kth_story_index(lv, i as int, (m + 1) as nat) == kth_story_index(
                        lv,
                        i + 1,
                        m,
                    ));
                    assert(kth_story_index(lv, 0, (found + m) as nat) == kth_story_index(
                        lv,
                        i as int,
                        (m + 1) as nat,
                    ));
                }
            }
        } else {
            proof {
                assert(story_count_upto(lv, i + 1) == story_count_upto(lv, i as int));
                assert forall|m: nat|
                    kth_story_index(lv, 0, (found + m) as nat) == #[trigger] kth_story_index(
                        lv,
                        i + 1,
                        m,
                    ) by {
                    assert(kth_story_index(lv, i as int, m) == kth_story_index(lv, i + 1, m));
                }
            }
        }
        i += 1;
    }
    found
}

} // verus!
