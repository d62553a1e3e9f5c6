//! Documentation upkeep: folding a completed task into the README feature
//! list and the changelog, once per task.  Both computations are
//! idempotent: a document that already names the task's identifier is left
//! alone.

use vstd::prelude::*;
use vstd::string::*;
use crate::clock::{date_string, date_string_of};
use crate::config::{BacklogItem, Project};
use crate::text::{matches_at, spec_contains, spec_find, str_contains, str_find_first};

verus! {

/// The feature bullet recorded for a completed task.
pub open spec fn spec_feature_line(task: BacklogItem) -> Seq<char> {
    "- ✅ "@ + task.title@ + " ("@ + task.id@ + ")\n"@
}

/// The README skeleton used when none exists yet.
pub open spec fn spec_default_readme(project_name: Seq<char>) -> Seq<char> {
    "# "@ + project_name + "\n\n## Features\n\n"@
}

/// The first newline at or after position `from`.
pub open spec fn find_nl_from(content: Seq<char>, from: int) -> Option<int>
    decreases content.len() - from,
{
    if from < 0 || from >= content.len() {
        None
    } else if content[from] == '\n' {
        Some(from)
    } else {
        find_nl_from(content, from + 1)
    }
}

/// The README after recording a completed task: the bullet goes right
/// under the `## Features` heading, or a fresh heading is appended; a
/// README that already names the task is left untouched (`None`).
pub open spec fn spec_readme_with_task(
    existing: Option<Seq<char>>,
    project_name: Seq<char>,
    task: BacklogItem,
) -> Option<Seq<char>> {
    let content = match existing {
        Some(c) => c,
        None => spec_default_readme(project_name),
    };
    if spec_contains(content, task.id@) {
        None
    } else {
        match spec_find(content, "## Features"@, 0) {
            Some(fpos) => {
                let ins = match find_nl_from(content, fpos) {
                    Some(nl) => nl + 1,
                    None => fpos + 1,
                };
                Some(content.take(ins) + spec_feature_line(task) + content.skip(ins))
            },
            None => Some(content + "\n## Features\n"@ + spec_feature_line(task)),
        }
    }
}

fn feature_line(task: &BacklogItem) -> (r: String)
    ensures
        r@ == spec_feature_line(*task),
{
    let mut s = "- ✅ ".to_owned();
    s.append(task.title.as_str());
    s.append(" (");
    s.append(task.id.as_str());
    s.append(")\n");
    proof {
        assert(s@ =~= spec_feature_line(*task));
    }
    s
}

fn find_nl_exec(content: &str, from: usize) -> (r: Option<usize>)
    requires
        from <= content@.len(),
    ensures
        match r {
            Some(i) => find_nl_from(content@, from as int) == Some(i as int),
            None => find_nl_from(content@, from as int) is None,
        },
{
    let len = content.unicode_len();
    let mut i: usize = from;
    while i < len
        invariant
            len == content@.len(),
            from <= i <= len,
            find_nl_from(content@, from as int) == find_nl_from(content@, i as int),
        decreases len - i,
    {
        if content.get_char(i) == '\n' {
            return Some(i);
        }
        i += 1;
    }
    None
}

/// Computes the README update for a completed task, as
/// [`spec_readme_with_task`] states it.
pub fn readme_with_task(existing: Option<&str>, project_name: &str, task: &BacklogItem) -> (r:
    Option<String>)
    ensures
        match r {
            Some(s) => spec_readme_with_task(
                match existing {
                    Some(e) => Some(e@),
                    None => None,
                },
                project_name@,
                *task,
            ) == Some(s@),
            None => spec_readme_with_task(
                match existing {
                    Some(e) => Some(e@),
                    None => None,
                },
                project_name@,
                *task,
            ) is None,
        },
{
    let content: String = match existing {
        Some(e) => e.to_owned(),
        None => {
            let mut s = "# ".to_owned();
            s.append(project_name);
            s.append("\n\n## Features\n\n");
            proof {
                assert(s@ =~= spec_default_readme(project_name@));
            }
            s
        },
    };
    if str_contains(content.as_str(), task.id.as_str()) {
        return None;
    }
    let line = feature_line(task);
    let len = content.as_str().unicode_len();
    match str_find_first(content.as_str(), "## Features") {
        Some(fpos) => {
            proof {
                reveal_strlit("## Features");
                assert(matches_at(content@, "## Features"@, fpos as int));
                assert(fpos + 11 <= content@.len());
            }
            let ins = match find_nl_exec(content.as_str(), fpos) {
                Some(nl) => {
                    proof {
                        lemma_nl_in_range(content@, fpos as int);
                    }
                    nl + 1
                },
                None => fpos + 1,
            };
            let head = content.as_str().substring_char(0, ins);
            let tail = content.as_str().substring_char(ins, len);
            let mut s = head.to_owned();
            s.append(line.as_str());
            s.append(tail);
            proof {
                assert(head@ =~= content@.take(ins as int));
                assert(tail@ =~= content@.skip(ins as int));
                assert(s@ =~= content@.take(ins as int) + spec_feature_line(*task)
                    + content@.skip(ins as int));
            }
            Some(s)
        },
        None => {
            let mut s = content;
            s.append("\n## Features\n");
            s.append(line.as_str());
            proof {
                assert(s@ =~= match existing {
                    Some(e) => e@,
                    None => spec_default_readme(project_name@),
                } + "\n## Features\n"@ + spec_feature_line(*task));
            }
            Some(s)
        },
    }
}

proof fn lemma_nl_in_range(content: Seq<char>, from: int)
    requires
        0 <= from,
        find_nl_from(content, from) is Some,
    ensures
        from <= find_nl_from(content, from).unwrap() < content.len(),
    decreases content.len() - from,
{
    if from < content.len() && content[from] != '\n' {
        lemma_nl_in_range(content, from + 1);
    }
}

/// The changelog entry recorded for a completed task on a given date.
pub open spec fn spec_changelog_entry(task: BacklogItem, date: Seq<char>) -> Seq<char> {
    "## "@ + date + " - "@ + task.title@ + "\n- Completed: "@ + task.story@ + " ("@ + task.id@
        + ")\n\n"@
}

/// The changelog after recording a completed task: the entry goes right
/// after the heading line, or at the end when the document has no
/// newline; a changelog that already names the task is left untouched.
pub open spec fn spec_changelog_with_task(
    existing: Option<Seq<char>>,
    task: BacklogItem,
    ts: int,
) -> Option<Seq<char>> {
    let content = match existing {
        Some(c) => c,
        None => "# Changelog\n\n"@,
    };
    let entry = spec_changelog_entry(task, date_string_of(ts));
    if spec_contains(content, task.id@) {
        None
    } else {
        match find_nl_from(content, 0) {
            Some(nl) => Some(content.take(nl + 1) + entry + content.skip(nl + 1)),
            None => Some(content + entry),
        }
    }
}

fn changelog_entry(task: &BacklogItem, ts: i64) -> (r: String)
    ensures
        r@ == spec_changelog_entry(*task, date_string_of(ts as int)),
{
    let date = date_string(ts);
    let mut s = "## ".to_owned();
    s.append(date.as_str());
    s.append(" - ");
    s.append(task.title.as_str());
    s.append("\n- Completed: ");
    s.append(task.story.as_str());
    s.append(" (");
    s.append(task.id.as_str());
    s.append(")\n\n");
    proof {
        assert(s@ =~= spec_changelog_entry(*task, date_string_of(ts as int)));
    }
    s
}

/// Computes the changelog update for a completed task, as
/// [`spec_changelog_with_task`] states it; `now_ts` dates the entry.
pub fn changelog_with_task(existing: Option<&str>, task: &BacklogItem, now_ts: i64) -> (r:
    Option<String>)
    ensures
        match r {
            Some(s) => spec_changelog_with_task(
                match existing {
                    Some(e) => Some(e@),
                    None => None,
                },
                *task,
                now_ts as int,
            ) == Some(s@),
            None => spec_changelog_with_task(
                match existing {
                    Some(e) => Some(e@),
                    None => None,
                },
                *task,
                now_ts as int,
            ) is None,
        },
{
    let content: String = match existing {
        Some(e) => e.to_owned(),
        None => "# Changelog\n\n".to_owned(),
    };
    if str_contains(content.as_str(), task.id.as_str()) {
        return None;
    }
    let entry = changelog_entry(task, now_ts);
    let len = content.as_str().unicode_len();
    match find_nl_exec(content.as_str(), 0) {
        Some(nl) => {
            proof {
                lemma_nl_in_range(content@, 0);
            }
            let ins = nl + 1;
            let head = content.as_str().substring_char(0, ins);
            let tail = content.as_str().substring_char(ins, len);
            let mut s = head.to_owned();
            s.append(entry.as_str());
            s.append(tail);
            proof {
                assert(head@ =~= content@.take(ins as int));
                assert(tail@ =~= content@.skip(ins as int));
                assert(s@ =~= content@.take(ins as int) + spec_changelog_entry(
                    *task,
                    date_string_of(now_ts as int),
                ) + content@.skip(ins as int));
            }
            Some(s)
        },
        None => {
            let mut s = content;
            s.append(entry.as_str());
            Some(s)
        },
    }
}

/// Recording a task in the README is idempotent: the document the update
/// yields names the task's identifier, so recording the same task again
/// leaves the document alone.
pub proof fn lemma_readme_update_idempotent(
    existing: Option<Seq<char>>,
    project_name: Seq<char>,
    task: BacklogItem,
    updated: Seq<char>,
)
    requires
        spec_readme_with_task(existing, project_name, task) == Some(updated),
    ensures
        spec_readme_with_task(Some(updated), project_name, task) is None,
{
    let fl = spec_feature_line(task);
    let off = "- ✅ "@.len() + task.title@.len() + " ("@.len();
    assert(fl.subrange(off as int, (off + task.id@.len()) as int) =~= task.id@);
    assert(forall|k: int|
        0 <= k < task.id@.len() ==> #[trigger] fl[off + k] == fl.subrange(
            off as int,
            (off + task.id@.len()) as int,
        )[k]);
    assert(off + task.id@.len() <= fl.len());
    let content = match existing {
        Some(c) => c,
        None => spec_default_readme(project_name),
    };
    match spec_find(content, "## Features"@, 0) {
        Some(fpos) => {
            let ins = match find_nl_from(content, fpos) {
                Some(nl) => nl + 1,
                None => fpos + 1,
            };
            if 0 <= fpos < content.len() {
                lemma_find_in_range(content, "## Features"@, 0, fpos);
            }
            assert(updated == content.take(ins) + fl + content.skip(ins));
            assert(matches_at(updated, task.id@, (ins + off) as int)) by {
                reveal_strlit("## Features");
                lemma_find_in_range(content, "## Features"@, 0, fpos);
                if find_nl_from(content, fpos) is Some {
                    lemma_nl_in_range(content, fpos);
                }
                assert(0 <= ins <= content.len());
                assert(updated.len() == content.len() + fl.len());
                assert(forall|k: int|
                    0 <= k < task.id@.len() ==> #[trigger] updated[ins + off + k] == fl[off + k]);
                assert(updated.subrange((ins + off) as int, (ins + off + task.id@.len()) as int) =~= task.id@);
            }
        },
        None => {
            assert(updated == content + "\n## Features\n"@ + fl);
            let pos = content.len() + "\n## Features\n"@.len() + off;
            assert(matches_at(updated, task.id@, pos as int)) by {
                assert(updated.subrange(pos as int, (pos + task.id@.len()) as int) =~= task.id@);
            }
        },
    }
}

proof fn lemma_find_in_range(hay: Seq<char>, needle: Seq<char>, from: int, i: int)
    requires
        spec_find(hay, needle, from) == Some(i),
        from >= 0,
    ensures
        from <= i && i + needle.len() <= hay.len(),
    decreases hay.len() + 1 - from,
{
    if !(from < 0 || from + needle.len() > hay.len()) && !matches_at(hay, needle, from) {
        lemma_find_in_range(hay, needle, from + 1, i);
    }
}

/// Recording a task in the changelog is idempotent: the document the
/// update yields names the task's identifier, so recording the same task
/// again, on any later day, leaves the document alone.
pub proof fn lemma_changelog_update_idempotent(
    existing: Option<Seq<char>>,
    task: BacklogItem,
    ts: int,
    updated: Seq<char>,
    ts2: int,
)
    requires
        spec_changelog_with_task(existing, task, ts) == Some(updated),
    ensures
        spec_changelog_with_task(Some(updated), task, ts2) is None,
{
    let entry = spec_changelog_entry(task, date_string_of(ts));
    let off = "## "@.len() + date_string_of(ts).len() + " - "@.len() + task.title@.len()
        + "\n- Completed: "@.len() + task.story@.len() + " ("@.len();
    assert(entry.subrange(off as int, (off + task.id@.len()) as int) =~= task.id@);
    assert(forall|k: int|
        0 <= k < task.id@.len() ==> #[trigger] entry[off + k] == entry.subrange(
            off as int,
            (off + task.id@.len()) as int,
        )[k]);
    assert(off + task.id@.len() <= entry.len());
    let content = match existing {
        Some(c) => c,
        None => "# Changelog\n\n"@,
    };
    match find_nl_from(content, 0) {
        Some(nl) => {
            lemma_nl_in_range(content, 0);
            assert(updated == content.take(nl + 1) + entry + content.skip(nl + 1));
            assert(matches_at(updated, task.id@, (nl + 1 + off) as int)) by {
                assert(updated.len() == content.len() + entry.len());
                assert(forall|k: int|
                    0 <= k < task.id@.len() ==> #[trigger] updated[nl + 1 + off + k] == entry[off
                        + k]);
                assert(updated.subrange((nl + 1 + off) as int, (nl + 1 + off + task.id@.len()) as int) =~= task.id@);
            }
        },
        None => {
            assert(updated == content + entry);
            let pos = content.len() + off;
            assert(matches_at(updated, task.id@, pos as int)) by {
                assert(updated.subrange(pos as int, (pos + task.id@.len()) as int) =~= task.id@);
            }
        },
    }
}

/// The documentation refresh for a completed task: the new README and
/// changelog contents (either may be `None` when already up to date), or
/// `None` when no backlog item carries the identifier.
pub fn update_docs_for_task_completion(
    project: &Project,
    task_id: &str,
    readme: Option<&str>,
    changelog: Option<&str>,
    now_ts: i64,
) -> (r: Option<(Option<String>, Option<String>)>)
    ensures
        match r {
            Some(_) => exists|k: int|
                0 <= k < project.backlog@.len() && #[trigger] project.backlog@[k].id@ == task_id@,
            None => forall|j: int|
                0 <= j < project.backlog@.len() ==> project.backlog@[j].id@ != task_id@,
        },
        match r {
            Some((rm, cl)) => exists|k: int|
                0 <= k < project.backlog@.len() && #[trigger] project.backlog@[k].id@ == task_id@
                    && (match rm {
                    Some(s) => spec_readme_with_task(
                        match readme {
                            Some(e) => Some(e@),
                            None => None,
                        },
                        project.meta.name@,
                        project.backlog@[k],
                    ) == Some(s@),
                    None => spec_readme_with_task(
                        match readme {
                            Some(e) => Some(e@),
                            None => None,
                        },
                        project.meta.name@,
                        project.backlog@[k],
                    ) is None,
                }) && (match cl {
                    Some(s) => spec_changelog_with_task(
                        match changelog {
                            Some(e) => Some(e@),
                            None => None,
                        },
                        project.backlog@[k],
                        now_ts as int,
                    ) == Some(s@),
                    None => spec_changelog_with_task(
                        match changelog {
                            Some(e) => Some(e@),
                            None => None,
                        },
                        project.backlog@[k],
                        now_ts as int,
                    ) is None,
                }),
            None => true,
        },
{
    match project.get_backlog_item(task_id) {
        Some(task) => {
            let rm = readme_with_task(readme, project.meta.name.as_str(), task);
            let cl = changelog_with_task(changelog, task, now_ts);
            Some((rm, cl))
        },
        None => None,
    }
}

} // verus!
