//! Reading code out of an LLM's prose: fenced code blocks, their language
//! tags, and the file names the generated code should land in.

use vstd::prelude::*;
use crate::config::ProjectMeta;
use crate::text::{
    ascii_lowercase, is_space_char, lower_seq, matches_at, spec_contains, spec_lines, spec_trim,
    split_lines, str_contains, str_trim, u128_to_string, spec_digits, views_of,
};
use vstd::string::*;

verus! {

/// A line opens a fenced code block when it starts with three backticks.
pub open spec fn opens_fence(l: Seq<char>) -> bool {
    l.len() >= 3 && l[0] == '`' && l[1] == '`' && l[2] == '`'
}

/// The backtick fences stripped off the front of a line, three at a time.
pub open spec fn strip_ticks(s: Seq<char>) -> Seq<char>
    decreases s.len(),
{
    if opens_fence(s) {
        strip_ticks(s.skip(3))
    } else {
        s
    }
}

/// The language tag of a fence-opening line: what is left after the
/// backticks, trimmed and lowercased, when that is nonempty.
pub open spec fn spec_extract_language(l: Seq<char>) -> Option<Seq<char>> {
    if opens_fence(l) {
        let lang = lower_seq(spec_trim(strip_ticks(l)));
        if lang.len() > 0 {
            Some(lang)
        } else {
            None
        }
    } else {
        None
    }
}

fn opens_fence_exec(l: &str) -> (r: bool)
    ensures
        r == opens_fence(l@),
{
    let n = l.unicode_len();
    n >= 3 && l.get_char(0) == '`' && l.get_char(1) == '`' && l.get_char(2) == '`'
}

/// The language tag of a line, as [`spec_extract_language`] states it.
pub fn extract_language_from_line(line: &str) -> (r: Option<String>)
    ensures
        match r {
            Some(s) => spec_extract_language(line@) == Some(s@),
            None => spec_extract_language(line@) is None,
        },
{
    if !opens_fence_exec(line) {
        return None;
    }
    let len = line.unicode_len();
    let mut i: usize = 0;
    proof {
        assert(line@.skip(0) =~= line@);
    }
    while len - i >= 3 && line.get_char(i) == '`' && line.get_char(i + 1) == '`' && line.get_char(
        i + 2,
    ) == '`'
        invariant
            len == line@.len(),
            i <= len,
            strip_ticks(line@) == strip_ticks(line@.skip(i as int)),
        decreases len - i,
    {
        proof {
            let rest = line@.skip(i as int);
            assert(rest[0] == line@[i as int]);
            assert(rest[1] == line@[i + 1]);
            assert(rest[2] == line@[i + 2]);
            assert(opens_fence(rest));
            assert(rest.skip(3) =~= line@.skip(i + 3));
        }
        i += 3;
    }
    proof {
        let rest = line@.skip(i as int);
        assert(!opens_fence(rest)) by {
            if rest.len() >= 3 {
                assert(rest[0] == line@[i as int]);
                assert(rest[1] == line@[i + 1]);
                assert(rest[2] == line@[i + 2]);
            }
        }
        assert(strip_ticks(rest) == rest);
    }
    let stripped = line.substring_char(i, len);
    proof {
        assert(stripped@ =~= line@.skip(i as int));
    }
    let trimmed = str_trim(stripped);
    let lang = ascii_lowercase(trimmed);
    if lang.as_str().unicode_len() > 0 {
        Some(lang)
    } else {
        None
    }
}

/// All trailing `'{'` characters removed.
pub open spec fn strip_trailing_braces(s: Seq<char>) -> Seq<char>
    decreases s.len(),
{
    if s.len() > 0 && s.last() == '{' {
        strip_trailing_braces(s.drop_last())
    } else {
        s
    }
}

/// The whitespace-separated tokens of a line.
pub open spec fn spec_tokens_acc(s: Seq<char>, cur: Seq<char>) -> Seq<Seq<char>>
    decreases s.len(),
{
    if s.len() == 0 {
        if cur.len() > 0 {
            seq![cur]
        } else {
            Seq::empty()
        }
    } else if is_space_char(s[0]) {
        (if cur.len() > 0 {
            seq![cur]
        } else {
            Seq::empty()
        }) + spec_tokens_acc(s.drop_first(), Seq::empty())
    } else {
        spec_tokens_acc(s.drop_first(), cur.push(s[0]))
    }
}

pub open spec fn spec_tokens(s: Seq<char>) -> Seq<Seq<char>> {
    spec_tokens_acc(s, Seq::empty())
}

fn tokens_of(s: &str) -> (r: Vec<String>)
    ensures
        views_of(r@) == spec_tokens(s@),
{
    let len = s.unicode_len();
    let mut out: Vec<String> = Vec::new();
    let mut cur: String = String::new();
    let mut i: usize = 0;
    proof {
        assert(s@.skip(0) =~= s@);
    }
    while i < len
        invariant
            len == s@.len(),
            i <= len,
            views_of(out@) + spec_tokens_acc(s@.skip(i as int), cur@) =~= spec_tokens(s@),
        decreases len - i,
    {
        let ghost rest = s@.skip(i as int);
        proof {
            assert(rest[0] == s@[i as int]);
            assert(rest.drop_first() =~= s@.skip(i + 1));
        }
        let c = s.get_char(i);
        let sp = c == ' ' || c == '\t' || c == '\n' || c == '\r' || c == '\u{000B}' || c
            == '\u{000C}';
        assert(sp == is_space_char(s@[i as int]));
        let ghost oldviews = views_of(out@);
        let ghost oldcur = cur@;
        if sp {
            proof {
                assert(spec_tokens_acc(rest, oldcur) == (if oldcur.len() > 0 {
                    seq![oldcur]
                } else {
                    Seq::<Seq<char>>::empty()
                }) + spec_tokens_acc(rest.drop_first(), Seq::empty()));
            }
            if cur.as_str().unicode_len() > 0 {
                out.push(cur);
                cur = String::new();
                proof {
                    assert(views_of(out@) =~= oldviews.push(oldcur));
                    assert(oldviews.push(oldcur) =~= oldviews + seq![oldcur]);
                    assert(views_of(out@) + spec_tokens_acc(s@.skip(i + 1), cur@) =~= spec_tokens(
                        s@,
                    ));
                }
            } else {
                proof {
                    assert(oldcur =~= Seq::<char>::empty());
                    assert((if oldcur.len() > 0 {
                        seq![oldcur]
                    } else {
                        Seq::<Seq<char>>::empty()
                    }) + spec_tokens_acc(rest.drop_first(), Seq::empty()) =~= spec_tokens_acc(
                        rest.drop_first(),
                        Seq::empty(),
                    ));
                    assert(views_of(out@) + spec_tokens_acc(s@.skip(i + 1), cur@) =~= spec_tokens(
                        s@,
                    ));
                }
            }
        } else {
            crate::text::push_char(&mut cur, c);
            proof {
                assert(spec_tokens_acc(rest, oldcur) == spec_tokens_acc(
                    rest.drop_first(),
                    oldcur.push(rest[0]),
                ));
                assert(cur@ == oldcur.push(rest[0]));
                assert(views_of(out@) + spec_tokens_acc(s@.skip(i + 1), cur@) =~= spec_tokens(s@));
            }
        }
        i += 1;
    }
    proof {
        assert(s@.skip(len as int).len() == 0);
    }
    if cur.as_str().unicode_len() > 0 {
        out.push(cur);
        proof {
            assert(views_of(out@) =~= views_of(out@.drop_last()).push(out@.last()@));
            assert(views_of(out@) =~= spec_tokens(s@));
        }
    } else {
        proof {
            assert(views_of(out@) =~= spec_tokens(s@));
        }
    }
    out
}

/// Whether a trimmed line declares a Java class.
pub open spec fn declares_class(t: Seq<char>) -> bool {
    matches_at(t, "public class "@, 0) || matches_at(t, "class "@, 0)
}

/// The class name on a declaring line: the third whitespace-separated
/// token, with trailing braces removed, if there is a third token.
pub open spec fn class_name_on(t: Seq<char>) -> Option<Seq<char>> {
    if spec_tokens(t).len() >= 3 {
        Some(strip_trailing_braces(spec_tokens(t)[2]))
    } else {
        None
    }
}

/// The Java class name found in a piece of code: from the first line that
/// declares a class and has a third token.
pub open spec fn spec_java_class_name_from(lines: Seq<Seq<char>>, i: int) -> Option<Seq<char>>
    decreases lines.len() - i,
{
    if i < 0 || i >= lines.len() {
        None
    } else if declares_class(spec_trim(lines[i])) && class_name_on(spec_trim(lines[i])) is Some {
        class_name_on(spec_trim(lines[i]))
    } else {
        spec_java_class_name_from(lines, i + 1)
    }
}

pub open spec fn spec_java_class_name(code: Seq<char>) -> Option<Seq<char>> {
    spec_java_class_name_from(spec_lines(code), 0)
}

fn strip_trailing_braces_exec(s: &str) -> (r: String)
    ensures
        r@ == strip_trailing_braces(s@),
{
    let len = s.unicode_len();
    let mut end: usize = len;
    proof {
        assert(s@.take(len as int) =~= s@);
    }
    while end > 0 && s.get_char(end - 1) == '{'
        invariant
            len == s@.len(),
            end <= len,
            strip_trailing_braces(s@) == strip_trailing_braces(s@.take(end as int)),
        decreases end,
    {
        proof {
            let t = s@.take(end as int);
            assert(t.last() == s@[end - 1]);
            assert(t.drop_last() =~= s@.take(end - 1));
        }
        end -= 1;
    }
    proof {
        let t = s@.take(end as int);
        if end > 0 {
            assert(t.last() == s@[end - 1]);
        }
        assert(strip_trailing_braces(t) == t);
    }
    let r = s.substring_char(0, end);
    proof {
        assert(r@ =~= s@.take(end as int));
    }
    r.to_owned()
}

/// Finds a Java class name in the code, as [`spec_java_class_name`] states.
pub fn extract_java_class_name(code: &str) -> (r: Option<String>)
    ensures
        match r {
            Some(s) => spec_java_class_name(code@) == Some(s@),
            None => spec_java_class_name(code@) is None,
        },
{
    let lines = split_lines(code);
    let n = lines.len();
    let mut i: usize = 0;
    while i < n
        invariant
            n == lines@.len(),
            views_of(lines@) == spec_lines(code@),
            i <= n,
            spec_java_class_name(code@) == spec_java_class_name_from(spec_lines(code@), i as int),
        decreases n - i,
    {
        let t = str_trim(lines[i].as_str());
        proof {
            assert(t@ == spec_trim(spec_lines(code@)[i as int]));
        }
        let declares = crate::text::str_starts_with(t, "public class ") || crate::text::str_starts_with(
            t,
            "class ",
        );
        if declares {
            let toks = tokens_of(t);
            if toks.len() >= 3 {
                let name = strip_trailing_braces_exec(toks[2].as_str());
                proof {
                    assert(views_of(toks@)[2] == spec_tokens(t@)[2]);
                    assert(name@ == strip_trailing_braces(spec_tokens(t@)[2]));
                }
                return Some(name);
            }
        }
        i += 1;
    }
    None
}

/// The project's primary programming language: the first recognized entry
/// of the technology stack, `rust` when none is recognized.
pub open spec fn spec_primary_language(st: Seq<Seq<char>>) -> Seq<char>
    decreases st.len(),
{
    if st.len() == 0 {
        "rust"@
    } else if st[0] == "rust"@ {
        "rust"@
    } else if st[0] == "nodejs"@ {
        "javascript"@
    } else if st[0] == "python"@ {
        "python"@
    } else if st[0] == "go"@ {
        "go"@
    } else if st[0] == "java"@ {
        "java"@
    } else {
        spec_primary_language(st.drop_first())
    }
}

/// The file extension that goes with a primary language.
pub open spec fn spec_extension_of(pl: Seq<char>) -> Seq<char> {
    if pl == "rust"@ {
        "rs"@
    } else if pl == "javascript"@ {
        "js"@
    } else if pl == "python"@ {
        "py"@
    } else if pl == "go"@ {
        "go"@
    } else if pl == "java"@ {
        "java"@
    } else {
        "txt"@
    }
}

/// Where a generated piece of code should land, judged from its language
/// tag, a few textual hints, and its position among the blocks found.
pub open spec fn spec_guess_filename(
    st: Seq<Seq<char>>,
    code: Seq<char>,
    lang: Seq<char>,
    index: nat,
) -> Seq<char> {
    let d = spec_digits(index);
    if lang == "rust"@ {
        if spec_contains(code, "fn main()"@) {
            "src/main.rs"@
        } else if spec_contains(code, "#[cfg(test)]"@) || spec_contains(code, "mod tests"@) {
            "src/tests.rs"@
        } else if spec_contains(code, "pub struct"@) || spec_contains(code, "pub enum"@) {
            "src/lib_"@ + d + ".rs"@
        } else if spec_contains(code, "impl "@) {
            "src/module_"@ + d + ".rs"@
        } else {
            "src/generated_"@ + d + ".rs"@
        }
    } else if lang == "javascript"@ || lang == "js"@ {
        if spec_contains(code, "module.exports"@) || spec_contains(code, "export"@) {
            "src/module_"@ + d + ".js"@
        } else {
            "src/generated_"@ + d + ".js"@
        }
    } else if lang == "python"@ || lang == "py"@ {
        if spec_contains(code, "if __name__ == \"__main__\""@) {
            "main.py"@
        } else if spec_contains(code, "class "@) {
            "src/class_"@ + d + ".py"@
        } else {
            "src/module_"@ + d + ".py"@
        }
    } else if lang == "go"@ {
        if spec_contains(code, "func main()"@) {
            "main.go"@
        } else {
            "src/module_"@ + d + ".go"@
        }
    } else if lang == "java"@ {
        match spec_java_class_name(code) {
            Some(cn) => "src/"@ + cn + ".java"@,
            None => "src/Generated_"@ + d + ".java"@,
        }
    } else {
        "src/generated_"@ + d + "."@ + spec_extension_of(spec_primary_language(st))
    }
}

fn indexed_name(prefix: &str, index: u128, suffix: &str) -> (r: String)
    ensures
        r@ == prefix@ + spec_digits(index as nat) + suffix@,
{
    let mut s = prefix.to_owned();
    let d = u128_to_string(index);
    s.append(d.as_str());
    s.append(suffix);
    proof {
        assert(s@ =~= prefix@ + spec_digits(index as nat) + suffix@);
    }
    s
}

/// Picks the file name for a generated block, as [`spec_guess_filename`]
/// states.
#[verifier::rlimit(60)]
pub fn guess_filename_for_language(
    project_meta: &ProjectMeta,
    code: &str,
    language: &str,
    index: usize,
) -> (r: String)
    ensures
        r@ == spec_guess_filename(
            views_of(project_meta.tech_stack@),
            code@,
            language@,
            index as nat,
        ),
{
    let idx = index as u128;
    if crate::text::str_eq(language, "rust") {
        if str_contains(code, "fn main()") {
            "src/main.rs".to_owned()
        } else if str_contains(code, "#[cfg(test)]") || str_contains(code, "mod tests") {
            "src/tests.rs".to_owned()
        } else if str_contains(code, "pub struct") || str_contains(code, "pub enum") {
            indexed_name("src/lib_", idx, ".rs")
        } else if str_contains(code, "impl ") {
            indexed_name("src/module_", idx, ".rs")
        } else {
            indexed_name("src/generated_", idx, ".rs")
        }
    } else if crate::text::str_eq(language, "javascript") || crate::text::str_eq(language, "js") {
        if str_contains(code, "module.exports") || str_contains(code, "export") {
            indexed_name("src/module_", idx, ".js")
        } else {
            indexed_name("src/generated_", idx, ".js")
        }
    } else if crate::text::str_eq(language, "python") || crate::text::str_eq(language, "py") {
        if str_contains(code, "if __name__ == \"__main__\"") {
            "main.py".to_owned()
        } else if str_contains(code, "class ") {
            indexed_name("src/class_", idx, ".py")
        } else {
            indexed_name("src/module_", idx, ".py")
        }
    } else if crate::text::str_eq(language, "go") {
        if str_contains(code, "func main()") {
            "main.go".to_owned()
        } else {
            indexed_name("src/module_", idx, ".go")
        }
    } else if crate::text::str_eq(language, "java") {
        match extract_java_class_name(code) {
            Some(cn) => {
                let mut s = "src/".to_owned();
                s.append(cn.as_str());
                s.append(".java");
                proof {
                    assert(s@ =~= "src/"@ + cn@ + ".java"@);
                }
                s
            },
            None => indexed_name("src/Generated_", idx, ".java"),
        }
    } else {
        let pl = get_primary_language(project_meta);
        let ext: &str = if crate::text::str_eq(pl.as_str(), "rust") {
            "rs"
        } else if crate::text::str_eq(pl.as_str(), "javascript") {
            "js"
        } else if crate::text::str_eq(pl.as_str(), "python") {
            "py"
        } else if crate::text::str_eq(pl.as_str(), "go") {
            "go"
        } else if crate::text::str_eq(pl.as_str(), "java") {
            "java"
        } else {
            "txt"
        };
        let mut s = indexed_name("src/generated_", idx, ".");
        s.append(ext);
        proof {
            assert(s@ =~= "src/generated_"@ + spec_digits(idx as nat) + "."@ + ext@);
        }
        s
    }
}

/// The text of the lines `a..b`, each followed by a newline.
pub open spec fn spec_block_code(lines: Seq<Seq<char>>, a: int, b: int) -> Seq<char>
    decreases b - a,
{
    if a >= b {
        Seq::empty()
    } else {
        lines[a] + seq!['\n'] + spec_block_code(lines, a + 1, b)
    }
}

proof fn lemma_block_code_snoc(lines: Seq<Seq<char>>, a: int, b: int)
    requires
        0 <= a <= b < lines.len(),
    ensures
        spec_block_code(lines, a, b + 1) == spec_block_code(lines, a, b) + lines[b] + seq!['\n'],
    decreases b - a,
{
    if a < b {
        lemma_block_code_snoc(lines, a + 1, b);
        assert(spec_block_code(lines, a, b + 1) =~= spec_block_code(lines, a, b) + lines[b]
            + seq!['\n']);
    } else {
        assert(spec_block_code(lines, a + 1, a + 1) == Seq::<char>::empty());
        assert(spec_block_code(lines, a, a + 1) =~= Seq::<char>::empty() + lines[a] + seq!['\n']);
    }
}

/// The first line at or after `j` that opens a fence, or the line count.
pub open spec fn spec_fence_end(lines: Seq<Seq<char>>, j: int) -> int
    decreases lines.len() - j,
{
    if j < 0 || j >= lines.len() {
        lines.len() as int
    } else if opens_fence(lines[j]) {
        j
    } else {
        spec_fence_end(lines, j + 1)
    }
}

proof fn lemma_fence_end_at(lines: Seq<Seq<char>>, start: int, j: int)
    requires
        0 <= start <= j <= lines.len(),
        forall|m: int| start <= m < j ==> !opens_fence(lines[m]),
        j == lines.len() || opens_fence(lines[j]),
    ensures
        spec_fence_end(lines, start) == j,
    decreases j - start,
{
    if start < j {
        lemma_fence_end_at(lines, start + 1, j);
    }
}

/// The fenced code blocks of a text, paired with their guessed file names,
/// scanning from line `i` with `k` blocks already taken.
pub open spec fn spec_blocks_from(
    st: Seq<Seq<char>>,
    lines: Seq<Seq<char>>,
    i: int,
    k: nat,
) -> Seq<(Seq<char>, Seq<char>)>
    decreases lines.len() - i,
{
    if i < 0 || i >= lines.len() {
        Seq::empty()
    } else {
        match spec_extract_language(lines[i]) {
            None => spec_blocks_from(st, lines, i + 1, k),
            Some(lang) => {
                let j0 = spec_fence_end(lines, i + 1);
                let j = if j0 < i + 1 {
                    i + 1
                } else {
                    j0
                };
                let code = spec_block_code(lines, i + 1, j);
                let next = if j + 1 < lines.len() {
                    j + 1
                } else {
                    lines.len() as int
                };
                if spec_trim(code).len() > 0 {
                    seq![(spec_guess_filename(st, code, lang, k), code)] + spec_blocks_from(
                        st,
                        lines,
                        next,
                        k + 1,
                    )
                } else {
                    spec_blocks_from(st, lines, next, k)
                }
            },
        }
    }
}

proof fn lemma_fence_end_bounds(lines: Seq<Seq<char>>, j: int)
    requires
        0 <= j <= lines.len(),
    ensures
        j <= spec_fence_end(lines, j) <= lines.len(),
    decreases lines.len() - j,
{
    if j < lines.len() && !opens_fence(lines[j]) {
        lemma_fence_end_bounds(lines, j + 1);
    }
}

/// What [`extract_code_blocks`] yields for a text.
pub open spec fn spec_code_blocks(st: Seq<Seq<char>>, text: Seq<char>) -> Seq<
    (Seq<char>, Seq<char>),
> {
    spec_blocks_from(st, spec_lines(text), 0, 0)
}

/// Walks the text's lines and collects every fenced block whose trimmed
/// content is nonempty, naming each with [`guess_filename_for_language`].
pub fn extract_code_blocks(project_meta: &ProjectMeta, text: &str) -> (r: Vec<(String, String)>)
    ensures
        r@.map_values(|p: (String, String)| (p.0@, p.1@)) == spec_code_blocks(
            views_of(project_meta.tech_stack@),
            text@,
        ),
{
    let ghost st = views_of(project_meta.tech_stack@);
    let lines = split_lines(text);
    let ghost lv = spec_lines(text@);
    let n = lines.len();
    let mut out: Vec<(String, String)> = Vec::new();
    let mut i: usize = 0;
    let mut k: usize = 0;
    proof {
        assert(out@.map_values(|p: (String, String)| (p.0@, p.1@)) =~= Seq::<
            (Seq<char>, Seq<char>),
        >::empty());
    }
    while i < n
        invariant
            n == lines@.len(),
            views_of(lines@) == lv,
            lv == spec_lines(text@),
            st == views_of(project_meta.tech_stack@),
            i <= n,
            k <= i,
            out@.map_values(|p: (String, String)| (p.0@, p.1@)) + spec_blocks_from(
                st,
                lv,
                i as int,
                k as nat,
            ) =~= spec_code_blocks(st, text@),
        decreases n - i,
    {
        proof {
            assert(lv[i as int] == lines@[i as int]@);
        }
        match extract_language_from_line(lines[i].as_str()) {
            None => {
                i += 1;
            },
            Some(lang) => {
                let mut j: usize = i + 1;
                let mut code = String::new();
                while j < n && !opens_fence_exec(lines[j].as_str())
                    invariant
                        n == lines@.len(),
                        views_of(lines@) == lv,
                        i < j <= n,
                        forall|m: int| i + 1 <= m < j ==> !opens_fence(lv[m]),
                        code@ == spec_block_code(lv, i + 1, j as int),
                    decreases n - j,
                {
                    proof {
                        assert(lv[j as int] == lines@[j as int]@);
                    }
                    code.append(lines[j].as_str());
                    crate::text::push_char(&mut code, '\n');
                    proof {
                        lemma_block_code_snoc(lv, i + 1, j as int);
                        assert(code@ =~= spec_block_code(lv, i + 1, j + 1));
                    }
                    j += 1;
                }
                proof {
                    assert(j == n || opens_fence(lv[j as int]));
                    lemma_fence_end_at(lv, i + 1, j as int);
                }
                let trimmed = str_trim(code.as_str());
                let ghost oldout = out@.map_values(|p: (String, String)| (p.0@, p.1@));
                if trimmed.unicode_len() > 0 {
                    let filename = guess_filename_for_language(
                        project_meta,
                        code.as_str(),
                        lang.as_str(),
                        k,
                    );
                    out.push((filename, code));
                    k += 1;
                    proof {
                        let m = out@.map_values(|p: (String, String)| (p.0@, p.1@));
                        assert(m =~= oldout.push(
                            (out@.last().0@, out@.last().1@),
                        ));
                        assert(m + spec_blocks_from(
                            st,
                            lv,
                            if j + 1 < n {
                                j + 1
                            } else {
                                n as int
                            },
                            k as nat,
                        ) =~= spec_code_blocks(st, text@));
                    }
                } else {
                    proof {
                        assert(oldout + spec_blocks_from(
                            st,
                            lv,
                            if j + 1 < n {
                                j + 1
                            } else {
                                n as int
                            },
                            k as nat,
                        ) =~= spec_code_blocks(st, text@));
                    }
                }
                if j < n {
                    i = j + 1;
                } else {
                    i = n;
                }
            },
        }
    }
    out
}

pub fn get_primary_language(project_meta: &ProjectMeta) -> (r: String)
    ensures
        r@ == spec_primary_language(views_of(project_meta.tech_stack@)),
{
    let st = &project_meta.tech_stack;
    let n = st.len();
    let ghost sv = views_of(st@);
    let mut i: usize = 0;
    proof {
        assert(sv.skip(0) =~= sv);
    }
    while i < n
        invariant
            n == st@.len(),
            sv == views_of(project_meta.tech_stack@),
            sv == views_of(st@),
            i <= n,
            spec_primary_language(sv) == spec_primary_language(sv.skip(i as int)),
        decreases n - i,
    {
        let ghost rest = sv.skip(i as int);
        proof {
            assert(rest[0] == sv[i as int]);
            assert(rest.drop_first() =~= sv.skip(i + 1));
        }
        let tech = st[i].as_str();
        if crate::text::str_eq(tech, "rust") {
            return "rust".to_owned();
        } else if crate::text::str_eq(tech, "nodejs") {
            return "javascript".to_owned();
        } else if crate::text::str_eq(tech, "python") {
            return "python".to_owned();
        } else if crate::text::str_eq(tech, "go") {
            return "go".to_owned();
        } else if crate::text::str_eq(tech, "java") {
            return "java".to_owned();
        }
        i += 1;
    }
    proof {
        assert(sv.skip(n as int).len() == 0);
    }
    "rust".to_owned()
}

} // verus!
