//! Sprint planning: summarising the backlog for the planner prompt,
//! vetting the planner's suggestions, reading a manual selection, and
//! committing the planned sprint to the project.

use vstd::prelude::*;
use vstd::string::*;
use crate::config::{
    format_sprint_id, priority_label, spec_priority_label, spec_sprint_id, BacklogItem, Project,
    Sprint, SprintStatus, Status,
};
use crate::text::{
    parse_usize, spec_digits, spec_join, spec_parse_usize, spec_split, spec_trim, split_on_char,
    str_eq, str_trim, string_eq, u128_to_string, views_of, join_strings, prefix_chars,
};

verus! {

/// The one-item summary placed in the planner prompt: identifier, title,
/// priority, effort, and the first hundred characters of the story.
pub open spec fn spec_item_summary(it: BacklogItem) -> Seq<char> {
    "- ID: "@ + it.id@ + "\n  - Title: "@ + it.title@ + "\n  - Priority: "@ + spec_priority_label(
        it.priority,
    ) + "\n  - Effort: "@ + spec_digits(it.effort as nat) + " points\n  - Story: "@
        + it.story@.take(
        if it.story@.len() <= 100 {
            it.story@.len() as int
        } else {
            100
        },
    ) + "..."@
}

/// The planner's view of the backlog: every `Todo` item summarised, one
/// block per item, joined by single newlines.
pub open spec fn spec_backlog_summary(backlog: Seq<BacklogItem>) -> Seq<char> {
    spec_join(
        backlog.filter(|it: BacklogItem| it.status == Status::Todo).map_values(
            |it: BacklogItem| spec_item_summary(it),
        ),
        "\n"@,
    )
}

fn item_summary(it: &BacklogItem) -> (r: String)
    ensures
        r@ == spec_item_summary(*it),
{
    let mut s = "- ID: ".to_owned();
    s.append(it.id.as_str());
    s.append("\n  - Title: ");
    s.append(it.title.as_str());
    s.append("\n  - Priority: ");
    s.append(priority_label(it.priority));
    s.append("\n  - Effort: ");
    let e = u128_to_string(it.effort as u128);
    s.append(e.as_str());
    s.append(" points\n  - Story: ");
    let p = prefix_chars(it.story.as_str(), 100);
    s.append(p.as_str());
    s.append("...");
    proof {
        assert(s@ =~= spec_item_summary(*it));
    }
    s
}

/// Builds the planner's backlog summary, as [`spec_backlog_summary`]
/// states it.
pub fn format_backlog_for_prompt(backlog: &Vec<BacklogItem>) -> (r: String)
    ensures
        r@ == spec_backlog_summary(backlog@),
{
    let n = backlog.len();
    let mut parts: Vec<String> = Vec::new();
    let mut i: usize = 0;
    while i < n
        invariant
            n == backlog@.len(),
            i <= n,
            views_of(parts@) =~= backlog@.take(i as int).filter(
                |it: BacklogItem| it.status == Status::Todo,
            ).map_values(|it: BacklogItem| spec_item_summary(it)),
        decreases n - i,
    {
        proof {
            reveal(Seq::filter);
            assert(backlog@.take(i + 1).drop_last() =~= backlog@.take(i as int));
            assert(backlog@.take(i + 1).last() == backlog@[i as int]);
        }
        if matches!(backlog[i].status, Status::Todo) {
            let s = item_summary(&backlog[i]);
            parts.push(s);
            proof {
                assert(views_of(parts@) =~= views_of(parts@.drop_last()).push(parts@.last()@));
                assert(backlog@.take(i + 1).filter(|it: BacklogItem| it.status == Status::Todo)
                    =~= backlog@.take(i as int).filter(
                    |it: BacklogItem| it.status == Status::Todo,
                ).push(backlog@[i as int]));
                assert(backlog@.take(i as int).filter(
                    |it: BacklogItem| it.status == Status::Todo,
                ).push(backlog@[i as int]).map_values(|it: BacklogItem| spec_item_summary(it))
                    =~= backlog@.take(i as int).filter(
                    |it: BacklogItem| it.status == Status::Todo,
                ).map_values(|it: BacklogItem| spec_item_summary(it)).push(
                    spec_item_summary(backlog@[i as int]),
                ));
                assert(views_of(parts@) =~= backlog@.take(i + 1).filter(
                    |it: BacklogItem| it.status == Status::Todo,
                ).map_values(|it: BacklogItem| spec_item_summary(it)));
            }
        } else {
            proof {
                assert(views_of(parts@) =~= backlog@.take(i + 1).filter(
                    |it: BacklogItem| it.status == Status::Todo,
                ).map_values(|it: BacklogItem| spec_item_summary(it)));
            }
        }
        i += 1;
    }
    proof {
        assert(backlog@.take(n as int) =~= backlog@);
    }
    join_strings(&parts, "\n")
}

/// Whether some backlog item carries this identifier and is still `Todo`.
pub open spec fn spec_has_todo(backlog: Seq<BacklogItem>, id: Seq<char>) -> bool {
    exists|k: int|
        0 <= k < backlog.len() && #[trigger] backlog[k].id@ == id && backlog[k].status
            == Status::Todo
}

fn has_todo_item(project: &Project, id: &str) -> (r: bool)
    ensures
        r == spec_has_todo(project.backlog@, id@),
{
    let n = project.backlog.len();
    let mut i: usize = 0;
    while i < n
        invariant
            n == project.backlog@.len(),
            i <= n,
            forall|k: int|
                0 <= k < i ==> !(#[trigger] project.backlog@[k].id@ == id@
                    && project.backlog@[k].status == Status::Todo),
        decreases n - i,
    {
        if str_eq(project.backlog[i].id.as_str(), id) && matches!(
            project.backlog[i].status,
            Status::Todo,
        ) {
            return true;
        }
        i += 1;
    }
    false
}

/// The planner's suggestions kept: those that name a `Todo` backlog item,
/// in their suggested order.
pub open spec fn spec_confirmed_ids(
    suggested: Seq<Seq<char>>,
    backlog: Seq<BacklogItem>,
) -> Seq<Seq<char>> {
    suggested.filter(|id: Seq<char>| spec_has_todo(backlog, id))
}

pub fn select_confirmed_ids(suggested: &Vec<String>, project: &Project) -> (r: Vec<String>)
    ensures
        views_of(r@) == spec_confirmed_ids(views_of(suggested@), project.backlog@),
{
    let n = suggested.len();
    let mut out: Vec<String> = Vec::new();
    let mut i: usize = 0;
    while i < n
        invariant
            n == suggested@.len(),
            i <= n,
            views_of(out@) =~= views_of(suggested@).take(i as int).filter(
                |id: Seq<char>| spec_has_todo(project.backlog@, id),
            ),
        decreases n - i,
    {
        proof {
            reveal(Seq::filter);
            assert(views_of(suggested@).take(i + 1).drop_last() =~= views_of(suggested@).take(
                i as int,
            ));
            assert(views_of(suggested@).take(i + 1).last() == suggested@[i as int]@);
        }
        if has_todo_item(project, suggested[i].as_str()) {
            out.push(suggested[i].clone());
            proof {
                assert(views_of(out@) =~= views_of(out@.drop_last()).push(out@.last()@));
                assert(views_of(out@) =~= views_of(suggested@).take(i + 1).filter(
                    |id: Seq<char>| spec_has_todo(project.backlog@, id),
                ));
            }
        } else {
            proof {
                assert(views_of(out@) =~= views_of(suggested@).take(i + 1).filter(
                    |id: Seq<char>| spec_has_todo(project.backlog@, id),
                ));
            }
        }
        i += 1;
    }
    proof {
        assert(views_of(suggested@).take(n as int) =~= views_of(suggested@));
    }
    out
}

/// Strict lexicographic order on character sequences, by code point; this
/// is the order in which identifiers are listed.
pub open spec fn lex_lt(a: Seq<char>, b: Seq<char>) -> bool
    decreases a.len(),
{
    b.len() > 0 && (a.len() == 0 || (a[0] as int) < (b[0] as int) || (a[0] == b[0] && lex_lt(
        a.drop_first(),
        b.drop_first(),
    )))
}

proof fn lemma_lex_trichotomy(a: Seq<char>, b: Seq<char>)
    ensures
        a == b || lex_lt(a, b) || lex_lt(b, a),
    decreases a.len(),
{
    if a.len() == 0 && b.len() == 0 {
        assert(a =~= b);
    } else if a.len() > 0 && b.len() > 0 && a[0] == b[0] {
        lemma_lex_trichotomy(a.drop_first(), b.drop_first());
        if a.drop_first() == b.drop_first() {
            assert(a.len() == b.len());
            assert(forall|i: int| 1 <= i < a.len() ==> #[trigger] a[i] == a.drop_first()[i - 1]);
            assert(forall|i: int| 1 <= i < b.len() ==> #[trigger] b[i] == b.drop_first()[i - 1]);
            assert(a =~= b);
        }
    }
}

proof fn lemma_lex_trans(a: Seq<char>, b: Seq<char>, c: Seq<char>)
    requires
        lex_lt(a, b),
        lex_lt(b, c),
    ensures
        lex_lt(a, c),
    decreases a.len(),
{
    if a.len() > 0 && b.len() > 0 && c.len() > 0 && a[0] == b[0] && b[0] == c[0] {
        lemma_lex_trans(a.drop_first(), b.drop_first(), c.drop_first());
    }
}

pub fn str_lt(a: &str, b: &str) -> (r: bool)
    ensures
        r == lex_lt(a@, b@),
    decreases a@.len(),
{
    let alen = a.unicode_len();
    let blen = b.unicode_len();
    if blen == 0 {
        return false;
    }
    if alen == 0 {
        return true;
    }
    let ca = a.get_char(0);
    let cb = b.get_char(0);
    if (ca as u32) < (cb as u32) {
        return true;
    }
    if ca != cb {
        proof {
            assert(!((a@[0] as int) < (b@[0] as int)));
        }
        return false;
    }
    let ta = a.substring_char(1, alen);
    let tb = b.substring_char(1, blen);
    proof {
        assert(ta@ =~= a@.drop_first());
        assert(tb@ =~= b@.drop_first());
    }
    str_lt(ta, tb)
}

/// A strictly ascending list: sorted with no duplicates.
pub open spec fn strictly_sorted(v: Seq<Seq<char>>) -> bool {
    forall|i: int| 0 <= i < v.len() - 1 ==> lex_lt(#[trigger] v[i], v[i + 1])
}

proof fn lemma_sorted_pairwise(v: Seq<Seq<char>>, i: int, j: int)
    requires
        strictly_sorted(v),
        0 <= i < j < v.len(),
    ensures
        lex_lt(v[i], v[j]),
    decreases j - i,
{
    if i + 1 < j {
        lemma_sorted_pairwise(v, i + 1, j);
        lemma_lex_trans(v[i], v[i + 1], v[j]);
    }
}

proof fn lemma_lex_irrefl(a: Seq<char>)
    ensures
        !lex_lt(a, a),
    decreases a.len(),
{
    if a.len() > 0 {
        lemma_lex_irrefl(a.drop_first());
    }
}

/// An ordered identifier list is determined by its members: two strictly
/// ascending lists holding the same identifiers are the same list.  In
/// particular, any two selections that pick the same identifiers are
/// listed identically.
pub proof fn lemma_selection_deterministic(a: Seq<Seq<char>>, b: Seq<Seq<char>>)
    requires
        strictly_sorted(a),
        strictly_sorted(b),
        forall|s: Seq<char>| a.contains(s) <==> b.contains(s),
    ensures
        a == b,
    decreases a.len(),
{
    if a.len() == 0 {
        if b.len() > 0 {
            assert(b.contains(b[0]));
            assert(a.contains(b[0]));
        }
        assert(a =~= b);
    } else {
        assert(a.contains(a[0]));
        assert(b.contains(a[0]));
        let i = choose|i: int| 0 <= i < b.len() && b[i] == a[0];
        assert(b.contains(b[0]));
        assert(a.contains(b[0]));
        let j = choose|j: int| 0 <= j < a.len() && a[j] == b[0];
        if i > 0 && j > 0 {
            lemma_sorted_pairwise(b, 0, i);
            lemma_sorted_pairwise(a, 0, j);
            lemma_lex_trans(a[0], b[0], a[0]);
            lemma_lex_irrefl(a[0]);
            assert(false);
        }
        assert(a[0] == b[0]);
        let at = a.drop_first();
        let bt = b.drop_first();
        assert(strictly_sorted(at)) by {
            assert(forall|k: int|
                0 <= k < at.len() - 1 ==> #[trigger] at[k] == a[k + 1] && at[k + 1] == a[k + 2]);
        }
        assert(strictly_sorted(bt)) by {
            assert(forall|k: int|
                0 <= k < bt.len() - 1 ==> #[trigger] bt[k] == b[k + 1] && bt[k + 1] == b[k + 2]);
        }
        assert forall|s: Seq<char>| at.contains(s) implies bt.contains(s) by {
            let t = choose|t: int| 0 <= t < at.len() && at[t] == s;
            assert(a[t + 1] == s);
            assert(a.contains(s));
            assert(b.contains(s));
            let k = choose|k: int| 0 <= k < b.len() && b[k] == s;
            if k == 0 {
                lemma_sorted_pairwise(a, 0, t + 1);
                lemma_lex_irrefl(a[0]);
                assert(false);
            }
            assert(bt[k - 1] == s);
            assert(bt.contains(s));
        }
        assert forall|s: Seq<char>| bt.contains(s) implies at.contains(s) by {
            let t = choose|t: int| 0 <= t < bt.len() && bt[t] == s;
            assert(b[t + 1] == s);
            assert(b.contains(s));
            assert(a.contains(s));
            let k = choose|k: int| 0 <= k < a.len() && a[k] == s;
            if k == 0 {
                lemma_sorted_pairwise(b, 0, t + 1);
                lemma_lex_irrefl(b[0]);
                assert(false);
            }
            assert(at[k - 1] == s);
            assert(at.contains(s));
        }
        lemma_selection_deterministic(at, bt);
        assert(a =~= b) by {
            assert(forall|k: int| 1 <= k < a.len() ==> #[trigger] a[k] == at[k - 1]);
            assert(forall|k: int| 1 <= k < b.len() ==> #[trigger] b[k] == bt[k - 1]);
        }
    }
}

/// Sorts identifiers and removes duplicates: the result is strictly
/// ascending and holds exactly the identifiers of the input.
pub fn sort_dedup_ids(v: &Vec<String>) -> (r: Vec<String>)
    ensures
        strictly_sorted(views_of(r@)),
        forall|s: Seq<char>| views_of(r@).contains(s) <==> views_of(v@).contains(s),
{
    let n = v.len();
    let mut out: Vec<String> = Vec::new();
    let mut i: usize = 0;
    while i < n
        invariant
            n == v@.len(),
            i <= n,
            strictly_sorted(views_of(out@)),
            forall|s: Seq<char>|
                views_of(out@).contains(s) <==> views_of(v@).take(i as int).contains(s),
        decreases n - i,
    {
        let s = &v[i];
        let m = out.len();
        let mut j: usize = 0;
        while j < m && str_lt(out[j].as_str(), s.as_str())
            invariant
                m == out@.len(),
                j <= m,
                forall|k: int| 0 <= k < j ==> lex_lt(views_of(out@)[k], s@),
            decreases m - j,
        {
            proof {
                assert(views_of(out@)[j as int] == out@[j as int]@);
            }
            j += 1;
        }
        let ghost ov = views_of(out@);
        let ghost tv = views_of(v@);
        if j < m && string_eq(&out[j], s.as_str()) {
            // already present: sortedness and membership unchanged
            proof {
                assert(ov.contains(s@)) by {
                    assert(ov[j as int] == s@);
                }
                assert(forall|x: Seq<char>|
                    views_of(out@).contains(x) <==> tv.take(i + 1).contains(x)) by {
                    assert(tv.take(i + 1) =~= tv.take(i as int).push(tv[i as int]));
                    assert(tv[i as int] == s@);
                    assert forall|x: Seq<char>| tv.take(i + 1).contains(x) implies views_of(
                        out@,
                    ).contains(x) by {
                        let w = choose|w: int|
                            0 <= w < tv.take(i + 1).len() && #[trigger] tv.take(i + 1)[w] == x;
                        if w < i {
                            assert(tv.take(i as int)[w] == x);
                            assert(tv.take(i as int).contains(x));
                        } else {
                            assert(x == s@);
                        }
                    }
                    assert forall|x: Seq<char>| views_of(out@).contains(x) implies tv.take(
                        i + 1,
                    ).contains(x) by {
                        assert(tv.take(i as int).contains(x));
                        let w = choose|w: int|
                            0 <= w < tv.take(i as int).len() && #[trigger] tv.take(i as int)[w]
                                == x;
                        assert(tv.take(i + 1)[w] == x);
                    }
                }
            }
        } else {
            proof {
                if j < m {
                    lemma_lex_trichotomy(ov[j as int], s@);
                    assert(lex_lt(s@, ov[j as int]));
                }
            }
            out.insert(j, s.clone());
            proof {
                let nv = views_of(out@);
                assert(nv =~= ov.insert(j as int, s@)) by {
                    assert(out@ == out@);
                    assert(nv.len() == ov.len() + 1);
                    assert(forall|k: int| 0 <= k < j ==> nv[k] == ov[k]);
                    assert(nv[j as int] == s@);
                    assert(forall|k: int| j < k < nv.len() ==> nv[k] == ov[k - 1]);
                }
                assert(strictly_sorted(nv)) by {
                    assert forall|k: int| 0 <= k < nv.len() - 1 implies lex_lt(
                        #[trigger] nv[k],
                        nv[k + 1],
                    ) by {
                        if k + 1 < j {
                            assert(lex_lt(ov[k], ov[k + 1]));
                        } else if k + 1 == j {
                            assert(lex_lt(ov[k], s@));
                        } else if k == j {
                            assert(lex_lt(s@, ov[j as int]));
                        } else {
                            assert(lex_lt(ov[k - 1], ov[k]));
                        }
                    }
                }
                let tv2 = views_of(v@);
                assert(forall|x: Seq<char>| nv.contains(x) <==> tv2.take(i + 1).contains(x)) by {
                    assert(tv2.take(i + 1) =~= tv2.take(i as int).push(tv2[i as int]));
                    assert(tv2[i as int] == s@);
                    assert forall|x: Seq<char>| nv.contains(x) implies tv2.take(i + 1).contains(
                        x,
                    ) by {
                        let w = choose|w: int| 0 <= w < nv.len() && nv[w] == x;
                        if w == j {
                            assert(tv2.take(i + 1)[i as int] == x);
                        } else {
                            assert(ov.contains(x)) by {
                                if w < j {
                                    assert(ov[w] == x);
                                } else {
                                    assert(ov[w - 1] == x);
                                }
                            }
                            assert(tv2.take(i as int).contains(x));
                            let u = choose|u: int|
                                0 <= u < tv2.take(i as int).len() && #[trigger] tv2.take(
                                    i as int,
                                )[u] == x;
                            assert(tv2.take(i + 1)[u] == x);
                        }
                    }
                    assert forall|x: Seq<char>| tv2.take(i + 1).contains(x) implies nv.contains(
                        x,
                    ) by {
                        let w = choose|w: int|
                            0 <= w < tv2.take(i + 1).len() && #[trigger] tv2.take(i + 1)[w] == x;
                        if w < i {
                            assert(tv2.take(i as int)[w] == x);
                            assert(tv2.take(i as int).contains(x));
                            assert(ov.contains(x));
                            let u = choose|u: int| 0 <= u < ov.len() && ov[u] == x;
                            if u < j {
                                assert(nv[u] == x);
                            } else {
                                assert(nv[u + 1] == x);
                            }
                        } else {
                            assert(x == s@);
                            assert(nv[j as int] == x);
                        }
                    }
                }
            }
        }
        i += 1;
    }
    proof {
        assert(views_of(v@).take(n as int) =~= views_of(v@));
    }
    out
}

/// One entry of a manual selection: a 1-based position into the `Todo`
/// list, or a literal identifier found there; anything else is dropped.
pub open spec fn spec_selection_entry(t: Seq<char>, todo_ids: Seq<Seq<char>>) -> Seq<Seq<char>> {
    if t.len() == 0 {
        Seq::empty()
    } else {
        match spec_parse_usize(t) {
            Some(n) => if 1 <= n <= todo_ids.len() {
                seq![todo_ids[n - 1]]
            } else {
                Seq::empty()
            },
            None => if todo_ids.contains(t) {
                seq![t]
            } else {
                Seq::empty()
            },
        }
    }
}

/// The identifiers picked by a comma-separated manual selection, before
/// ordering and deduplication.
pub open spec fn spec_selection_raw(
    parts: Seq<Seq<char>>,
    todo_ids: Seq<Seq<char>>,
) -> Seq<Seq<char>>
    decreases parts.len(),
{
    if parts.len() == 0 {
        Seq::empty()
    } else {
        spec_selection_entry(spec_trim(parts[0]), todo_ids) + spec_selection_raw(
            parts.drop_first(),
            todo_ids,
        )
    }
}

/// What a manual selection denotes: the picked identifiers, in ascending
/// order without duplicates.
pub fn parse_manual_selection(input: &str, todo_ids: &Vec<String>) -> (r: Vec<String>)
    ensures
        strictly_sorted(views_of(r@)),
        forall|s: Seq<char>|
            views_of(r@).contains(s) <==> spec_selection_raw(
                spec_split(spec_trim(input@), ','),
                views_of(todo_ids@),
            ).contains(s),
{
    let trimmed = str_trim(input);
    let parts = split_on_char(trimmed, ',');
    let ghost pv = spec_split(spec_trim(input@), ',');
    let ghost ids = views_of(todo_ids@);
    let n = parts.len();
    let mut picked: Vec<String> = Vec::new();
    let mut i: usize = 0;
    proof {
        assert(pv.skip(0) =~= pv);
    }
    while i < n
        invariant
            views_of(parts@) == pv,
            ids == views_of(todo_ids@),
            n == parts@.len(),
            i <= n,
            views_of(picked@) + spec_selection_raw(pv.skip(i as int), ids) =~= spec_selection_raw(
                pv,
                ids,
            ),
        decreases n - i,
    {
        let ghost rest = pv.skip(i as int);
        proof {
            assert(rest[0] == pv[i as int]);
            assert(rest.drop_first() =~= pv.skip(i + 1));
        }
        let t = str_trim(parts[i].as_str());
        proof {
            assert(t@ == spec_trim(pv[i as int]));
        }
        let tlen = t.unicode_len();
        if tlen > 0 {
            match parse_usize(t) {
                Some(num) => {
                    if 1 <= num && num <= todo_ids.len() {
                        picked.push(todo_ids[num - 1].clone());
                        proof {
                            assert(views_of(picked@) =~= views_of(picked@.drop_last()).push(
                                picked@.last()@,
                            ));
                            assert(picked@.last()@ == ids[num - 1]);
                            assert(views_of(picked@) + spec_selection_raw(pv.skip(i + 1), ids)
                                =~= spec_selection_raw(pv, ids));
                        }
                    } else {
                        proof {
                            assert(views_of(picked@) + spec_selection_raw(pv.skip(i + 1), ids)
                                =~= spec_selection_raw(pv, ids));
                        }
                    }
                },
                None => {
                    let mut found = false;
                    let m = todo_ids.len();
                    let mut j: usize = 0;
                    while j < m
                        invariant
                            m == todo_ids@.len(),
                            ids == views_of(todo_ids@),
                            j <= m,
                            found <==> exists|k: int| 0 <= k < j && #[trigger] ids[k] == t@,
                        decreases m - j,
                    {
                        if !found && string_eq(&todo_ids[j], t) {
                            found = true;
                            proof {
                                assert(ids[j as int] == t@);
                            }
                        } else {
                            proof {
                                assert(ids[j as int] == todo_ids@[j as int]@);
                            }
                        }
                        j += 1;
                    }
                    proof {
                        if found {
                            assert(ids.contains(t@));
                        } else {
                            if ids.contains(t@) {
                                let k = choose|k: int| 0 <= k < ids.len() && ids[k] == t@;
                                assert(false);
                            }
                        }
                    }
                    if found {
                        picked.push(t.to_owned());
                        proof {
                            assert(views_of(picked@) =~= views_of(picked@.drop_last()).push(
                                picked@.last()@,
                            ));
                            assert(views_of(picked@) + spec_selection_raw(pv.skip(i + 1), ids)
                                =~= spec_selection_raw(pv, ids));
                        }
                    } else {
                        proof {
                            assert(views_of(picked@) + spec_selection_raw(pv.skip(i + 1), ids)
                                =~= spec_selection_raw(pv, ids));
                        }
                    }
                },
            }
        } else {
            proof {
                assert(views_of(picked@) + spec_selection_raw(pv.skip(i + 1), ids)
                    =~= spec_selection_raw(pv, ids));
            }
        }
        i += 1;
    }
    proof {
        assert(pv.skip(n as int).len() == 0);
        assert(views_of(picked@) =~= spec_selection_raw(pv, ids));
    }
    sort_dedup_ids(&picked)
}

/// The effort of the first backlog item with this identifier, zero when
/// there is none.
pub open spec fn spec_effort_of(backlog: Seq<BacklogItem>, id: Seq<char>) -> int
    decreases backlog.len(),
{
    if backlog.len() == 0 {
        0
    } else if backlog[0].id@ == id {
        backlog[0].effort as int
    } else {
        spec_effort_of(backlog.drop_first(), id)
    }
}

/// The summed effort of the named items.
pub open spec fn spec_total_points(backlog: Seq<BacklogItem>, ids: Seq<Seq<char>>) -> int
    decreases ids.len(),
{
    if ids.len() == 0 {
        0
    } else {
        spec_effort_of(backlog, ids[0]) + spec_total_points(backlog, ids.drop_first())
    }
}

fn effort_of(project: &Project, id: &str) -> (r: u32)
    ensures
        r as int == spec_effort_of(project.backlog@, id@),
{
    let n = project.backlog.len();
    let mut i: usize = 0;
    proof {
        assert(project.backlog@.skip(0) =~= project.backlog@);
    }
    while i < n
        invariant
            n == project.backlog@.len(),
            i <= n,
            spec_effort_of(project.backlog@, id@) == spec_effort_of(
                project.backlog@.skip(i as int),
                id@,
            ),
        decreases n - i,
    {
        let ghost rest = project.backlog@.skip(i as int);
        proof {
            assert(rest[0] == project.backlog@[i as int]);
            assert(rest.drop_first() =~= project.backlog@.skip(i + 1));
        }
        if str_eq(project.backlog[i].id.as_str(), id) {
            return project.backlog[i].effort;
        }
        i += 1;
    }
    0
}

/// Sums the effort of the named items; `None` when the sum does not fit.
pub fn total_points_of(project: &Project, ids: &Vec<String>) -> (r: Option<u32>)
    ensures
        match r {
            Some(v) => v as int == spec_total_points(project.backlog@, views_of(ids@)),
            None => spec_total_points(project.backlog@, views_of(ids@)) > u32::MAX,
        },
{
    let ghost iv = views_of(ids@);
    let n = ids.len();
    let mut sum: u32 = 0;
    let mut i: usize = 0;
    proof {
        assert(iv.skip(0) =~= iv);
        lemma_total_points_nonneg(project.backlog@, iv);
    }
    while i < n
        invariant
            iv == views_of(ids@),
            n == ids@.len(),
            i <= n,
            sum as int + spec_total_points(project.backlog@, iv.skip(i as int))
                == spec_total_points(project.backlog@, iv),
        decreases n - i,
    {
        let ghost rest = iv.skip(i as int);
        proof {
            assert(rest[0] == iv[i as int]);
            assert(rest.drop_first() =~= iv.skip(i + 1));
            lemma_total_points_nonneg(project.backlog@, iv.skip(i + 1));
            lemma_effort_nonneg(project.backlog@, iv[i as int]);
        }
        let e = effort_of(project, ids[i].as_str());
        if sum > u32::MAX - e {
            return None;
        }
        sum = sum + e;
        i += 1;
    }
    proof {
        assert(iv.skip(n as int).len() == 0);
    }
    Some(sum)
}

proof fn lemma_effort_nonneg(backlog: Seq<BacklogItem>, id: Seq<char>)
    ensures
        spec_effort_of(backlog, id) >= 0,
    decreases backlog.len(),
{
    if backlog.len() > 0 && backlog[0].id@ != id {
        lemma_effort_nonneg(backlog.drop_first(), id);
    }
}

proof fn lemma_total_points_nonneg(backlog: Seq<BacklogItem>, ids: Seq<Seq<char>>)
    ensures
        spec_total_points(backlog, ids) >= 0,
    decreases ids.len(),
{
    if ids.len() > 0 {
        lemma_effort_nonneg(backlog, ids[0]);
        lemma_total_points_nonneg(backlog, ids.drop_first());
    }
}

/// The planned sprint committed for the chosen identifiers: a `Planning`
/// sprint appended under the next sequential identifier, the named `Todo`
/// items tagged with it.
pub fn commit_sprint_plan(
    project: &mut Project,
    goal: String,
    days: u32,
    confirmed: Vec<String>,
    now_ts: i64,
) -> (sid: String)
    requires
        spec_total_points(old(project).backlog@, views_of(confirmed@)) <= u32::MAX,
        now_ts + days * 86400 <= i64::MAX,
    ensures
        final(project).meta == old(project).meta,
        final(project).current_sprint == old(project).current_sprint,
        final(project).resolved_llm_config == old(project).resolved_llm_config,
        sid@ == spec_sprint_id((old(project).sprints@.len() + 1) as nat),
        final(project).sprints@.len() == old(project).sprints@.len() + 1,
        forall|j: int|
            0 <= j < old(project).sprints@.len() ==> final(project).sprints@[j] == old(
                project,
            ).sprints@[j],
        ({
            let s = final(project).sprints@.last();
            &&& s.id@ == sid@
            &&& s.goal == goal
            &&& s.start_date == now_ts
            &&& s.end_date == now_ts + days * 86400
            &&& s.status == SprintStatus::Planning
            &&& s.total_points as int == spec_total_points(
                old(project).backlog@,
                views_of(confirmed@),
            )
            &&& s.completed_points == 0
            &&& views_of(s.tasks@) == views_of(confirmed@)
            &&& views_of(s.stories@) == views_of(confirmed@)
            &&& s.planned_velocity == 0
            &&& s.actual_velocity == 0
        }),
        final(project).backlog@.len() == old(project).backlog@.len(),
        forall|j: int|
            0 <= j < old(project).backlog@.len() ==> {
                let it = old(project).backlog@[j];
                let nit = #[trigger] final(project).backlog@[j];
                if views_of(confirmed@).contains(it.id@) {
                    &&& nit.id == it.id
                    &&& nit.item_type == it.item_type
                    &&& nit.title == it.title
                    &&& nit.story == it.story
                    &&& nit.acceptance_criteria == it.acceptance_criteria
                    &&& nit.priority == it.priority
                    &&& nit.effort == it.effort
                    &&& nit.status == it.status
                    &&& nit.created == it.created
                    &&& nit.sprint matches Some(s) && s@ == sid@
                    &&& nit.dependencies == it.dependencies
                } else {
                    nit == it
                }
            },
{
    let ghost oldbacklog = old(project).backlog@;
    let ghost cv = views_of(confirmed@);
    let total = match total_points_of(project, &confirmed) {
        Some(v) => v,
        None => {
            proof {
                assert(false);
            }
            0
        },
    };
    let sprint_num: u128 = project.sprints.len() as u128 + 1;
    let sid = format_sprint_id(sprint_num);
    let tasks = clone_ids(&confirmed);
    let stories = clone_ids(&confirmed);
    let sprint = Sprint {
        id: sid.clone(),
        goal,
        start_date: now_ts,
        end_date: now_ts + (days as i64) * 86400,
        status: SprintStatus::Planning,
        total_points: total,
        completed_points: 0,
        tasks,
        stories,
        planned_velocity: 0,
        actual_velocity: 0,
    };
    let ghost spr = sprint;
    project.sprints.push(sprint);
    let n = project.backlog.len();
    let mut i: usize = 0;
    while i < n
        invariant
            n == project.backlog@.len(),
            n == oldbacklog.len(),
            i <= n,
            cv == views_of(confirmed@),
            project.meta == old(project).meta,
            project.current_sprint == old(project).current_sprint,
            project.resolved_llm_config == old(project).resolved_llm_config,
            project.sprints@ == old(project).sprints@.push(spr),
            forall|j: int| i <= j < n ==> #[trigger] project.backlog@[j] == oldbacklog[j],
            forall|j: int|
                0 <= j < i ==> {
                    let it = oldbacklog[j];
                    let nit = #[trigger] project.backlog@[j];
                    if cv.contains(it.id@) {
                        &&& nit.id == it.id
                        &&& nit.item_type == it.item_type
                        &&& nit.title == it.title
                        &&& nit.story == it.story
                        &&& nit.acceptance_criteria == it.acceptance_criteria
                        &&& nit.priority == it.priority
                        &&& nit.effort == it.effort
                        &&& nit.status == it.status
                        &&& nit.created == it.created
                        &&& nit.sprint matches Some(s) && s@ == sid@
                        &&& nit.dependencies == it.dependencies
                    } else {
                        nit == it
                    }
                },
        decreases n - i,
    {
        let present = contains_id(&confirmed, project.backlog[i].id.as_str());
        if present {
            project.backlog[i].sprint = Some(sid.clone());
        }
        i += 1;
    }
    sid
}

fn clone_ids(v: &Vec<String>) -> (r: Vec<String>)
    ensures
        views_of(r@) == views_of(v@),
{
    let n = v.len();
    let mut out: Vec<String> = Vec::new();
    let mut i: usize = 0;
    while i < n
        invariant
            n == v@.len(),
            i <= n,
            out@.len() == i,
            forall|j: int| 0 <= j < i ==> out@[j] == v@[j],
        decreases n - i,
    {
        out.push(v[i].clone());
        i += 1;
    }
    proof {
        assert(views_of(out@) =~= views_of(v@));
    }
    out
}

fn contains_id(v: &Vec<String>, id: &str) -> (r: bool)
    ensures
        r == views_of(v@).contains(id@),
{
    crate::text::vec_contains_string(v, id)
}

/// Completion as a whole percentage: a hundred times the completed points,
/// divided by the total, zero when nothing is planned.
pub fn progress_percent(completed: u32, total: u32) -> (r: u32)
    requires
        completed * 100 <= u32::MAX,
    ensures
        r == if total > 0 {
            (completed * 100) as int / total as int
        } else {
            0
        },
{
    if total > 0 {
        (completed * 100) / total
    } else {
        0
    }
}

} // verus!
