//! Adding proposed dependency lines to a Cargo manifest, idempotently:
//! lines whose key is already present are skipped, malformed lines are
//! reported, and the manifest text itself is handled by the TOML editor
//! behind a small trusted surface.

use vstd::prelude::*;
use vstd::string::*;
use crate::text::{
    matches_at, spec_find, spec_trim, str_find_first, str_trim, views_of,
};

verus! {

#[verifier::external_type_specification]
#[verifier::external_body]
pub struct ExDocumentMut(toml_edit::DocumentMut);

/// Whether a text parses as a TOML document.  A function of the text
/// alone.
pub uninterp spec fn toml_manifest_ok(s: Seq<char>) -> bool;

/// Whether, in a parsed manifest, the `dependencies` entry is absent or a
/// table, so that a dependencies table can be worked with.
pub uninterp spec fn toml_deps_usable(s: Seq<char>) -> bool;

/// The dependency keys of the manifest text's `[dependencies]` table.
pub uninterp spec fn toml_dep_keys_of(s: Seq<char>) -> Set<Seq<char>>;

/// The dependency keys held by an opened document.
pub uninterp spec fn toml_dep_keys(d: toml_edit::DocumentMut) -> Set<Seq<char>>;

/// The rendered value text under each dependency key of the manifest
/// text.
pub uninterp spec fn toml_dep_values_of(s: Seq<char>) -> Map<Seq<char>, Seq<char>>;

/// The rendered value text under each dependency key of an opened
/// document.
pub uninterp spec fn toml_dep_values(d: toml_edit::DocumentMut) -> Map<Seq<char>, Seq<char>>;

/// Whether an opened document has a `[dependencies]` table to insert
/// into.
pub uninterp spec fn toml_deps_present(d: toml_edit::DocumentMut) -> bool;

/// Whether a text is a well-formed TOML value, tried as `key = value`.  A
/// function of the text alone.
pub uninterp spec fn toml_value_ok(s: Seq<char>) -> bool;

/// Why a manifest could not be updated.
#[derive(Debug, Clone, Copy, PartialEq, Eq, Structural)]
pub enum DepError {
    ManifestNotParsed,
    DependenciesNotATable,
}

/// Relies on `DocumentMut::from_str`, `Table::entry`, `Entry::or_insert`
/// and `Item::as_table_mut`: parses the manifest and makes sure a
/// `[dependencies]` table exists, which leaves the dependency keys as the
/// text had them.
#[verifier::external_body]
fn open_cargo_deps(s: &str) -> (r: Result<toml_edit::DocumentMut, DepError>)
    ensures
        match r {
            Ok(d) => toml_manifest_ok(s@) && toml_deps_usable(s@) && toml_dep_keys(d)
                == toml_dep_keys_of(s@) && toml_dep_values(d) == toml_dep_values_of(s@)
                && toml_deps_present(d),
            Err(DepError::ManifestNotParsed) => !toml_manifest_ok(s@),
            Err(DepError::DependenciesNotATable) => toml_manifest_ok(s@) && !toml_deps_usable(
                s@,
            ),
        },
{
    let mut doc = match s.parse::<toml_edit::DocumentMut>() {
        Ok(d) => d,
        Err(_) => return Err(DepError::ManifestNotParsed),
    };
    if doc.entry("dependencies").or_insert(toml_edit::table()).as_table_mut().is_some() {
        Ok(doc)
    } else {
        Err(DepError::DependenciesNotATable)
    }
}

/// Relies on `Table::contains_key` on the `dependencies` table.
#[verifier::external_body]
fn deps_contains_key(d: &toml_edit::DocumentMut, key: &str) -> (r: bool)
    ensures
        r == toml_dep_keys(*d).contains(key@),
{
    match d.get("dependencies").and_then(|it| it.as_table()) {
        Some(t) => t.contains_key(key),
        None => false,
    }
}

/// Relies on `DocumentMut::from_str` on a one-line `temp_key = value`
/// document: whether the value text is well-formed TOML.
#[verifier::external_body]
fn toml_value_parses(value_src: &str) -> (r: bool)
    ensures
        r == toml_value_ok(value_src@),
{
    match format!("temp_key = {}", value_src).parse::<toml_edit::DocumentMut>() {
        Ok(d) => d.get("temp_key").is_some(),
        Err(_) => false,
    }
}

/// Relies on `Table::insert` with the item parsed out of a one-line
/// document: adds the key with the parsed value.
#[verifier::external_body]
fn insert_dep_item(d: &mut toml_edit::DocumentMut, key: &str, value_src: &str) -> (ok: bool)
    requires
        toml_deps_present(*old(d)),
        toml_value_ok(value_src@),
    ensures
        ok,
        toml_dep_keys(*final(d)) == toml_dep_keys(*old(d)).insert(key@),
        forall|k: Seq<char>|
            toml_dep_keys(*old(d)).contains(k) && k != key@ ==> #[trigger] toml_dep_values(
                *final(d),
            )[k] == toml_dep_values(*old(d))[k],
        toml_deps_present(*final(d)),
{
    let item = format!("temp_key = {}", value_src)
        .parse::<toml_edit::DocumentMut>()
        .ok()
        .and_then(|dummy| dummy.get("temp_key").cloned());
    match (item, d.get_mut("dependencies").and_then(|it| it.as_table_mut())) {
        (Some(i), Some(t)) => {
            t.insert(key, i);
            true
        },
        _ => false,
    }
}

/// Relies on `Table::insert` with `toml_edit::value`: adds the key with a
/// plain string value.
#[verifier::external_body]
fn insert_dep_string(d: &mut toml_edit::DocumentMut, key: &str, value: &str) -> (ok: bool)
    requires
        toml_deps_present(*old(d)),
    ensures
        ok,
        toml_dep_keys(*final(d)) == toml_dep_keys(*old(d)).insert(key@),
        forall|k: Seq<char>|
            toml_dep_keys(*old(d)).contains(k) && k != key@ ==> #[trigger] toml_dep_values(
                *final(d),
            )[k] == toml_dep_values(*old(d))[k],
        toml_deps_present(*final(d)),
{
    match d.get_mut("dependencies").and_then(|it| it.as_table_mut()) {
        Some(t) => {
            t.insert(key, toml_edit::value(value));
            true
        },
        None => false,
    }
}

/// Relies on `Display for DocumentMut`: the rendering is lossless, so
/// the text parses back to the same document — it is a well-formed
/// manifest whose dependency table holds exactly the document's keys.
#[verifier::external_body]
fn doc_to_string(d: &toml_edit::DocumentMut) -> (r: String)
    requires
        toml_deps_present(*d),
    ensures
        toml_manifest_ok(r@),
        toml_deps_usable(r@),
        toml_dep_keys_of(r@) == toml_dep_keys(*d),
        toml_dep_values_of(r@) == toml_dep_values(*d),
{
    d.to_string()
}

/// All leading and trailing double quotes removed, as the fallback path
/// stores a quoted value.
pub open spec fn strip_quotes(v: Seq<char>) -> Seq<char>
    decreases v.len(),
{
    if v.len() > 0 && v[0] == '"' {
        strip_quotes(v.drop_first())
    } else if v.len() > 0 && v.last() == '"' {
        strip_quotes(v.drop_last())
    } else {
        v
    }
}

fn strip_quotes_exec(v: &str) -> (r: String)
    ensures
        r@ == strip_quotes(v@),
{
    let len = v.unicode_len();
    let mut start: usize = 0;
    let mut end: usize = len;
    proof {
        assert(v@.subrange(0, len as int) =~= v@);
    }
    while start < end && v.get_char(start) == '"'
        invariant
            len == v@.len(),
            start <= end <= len,
            strip_quotes(v@) == strip_quotes(v@.subrange(start as int, end as int)),
        decreases end - start,
    {
        proof {
            let t = v@.subrange(start as int, end as int);
            assert(t[0] == v@[start as int]);
            assert(t.drop_first() =~= v@.subrange(start + 1, end as int));
        }
        start += 1;
    }
    while start < end && v.get_char(end - 1) == '"'
        invariant
            len == v@.len(),
            start <= end <= len,
            strip_quotes(v@) == strip_quotes(v@.subrange(start as int, end as int)),
            start < end ==> v@[start as int] != '"',
        decreases end,
    {
        proof {
            let t = v@.subrange(start as int, end as int);
            assert(t.last() == v@[end - 1]);
            if t[0] == '"' {
                assert(false);
            }
            assert(t.drop_last() =~= v@.subrange(start as int, end - 1));
        }
        end -= 1;
    }
    proof {
        let t = v@.subrange(start as int, end as int);
        if t.len() > 0 {
            assert(t[0] == v@[start as int]);
            assert(t.last() == v@[end - 1]);
        }
        assert(strip_quotes(t) == t);
    }
    let r = v.substring_char(start, end);
    proof {
        assert(r@ =~= v@.subrange(start as int, end as int));
    }
    r.to_owned()
}

/// How one proposed line is treated, given the keys already present.
pub enum DepLineClass {
    Blank,
    Malformed,
    Existing(Seq<char>),
    AddedValue(Seq<char>, Seq<char>),
    AddedQuoted(Seq<char>, Seq<char>),
    Invalid,
}

/// Classifies one line: trim it; drop blanks and comments; split at the
/// first `=` into a key and a value; skip keys already present; accept
/// well-formed TOML values, and quoted values as plain strings.
pub open spec fn spec_dep_line_class(l: Seq<char>, keys: Set<Seq<char>>) -> DepLineClass {
    let t = spec_trim(l);
    if t.len() == 0 || t[0] == '#' {
        DepLineClass::Blank
    } else {
        match spec_find(t, "="@, 0) {
            None => DepLineClass::Malformed,
            Some(p) => {
                let key = spec_trim(t.take(p));
                let value = spec_trim(t.skip(p + 1));
                if keys.contains(key) {
                    DepLineClass::Existing(key)
                } else if toml_value_ok(value) {
                    DepLineClass::AddedValue(key, value)
                } else if value.len() > 0 && value[0] == '"' && value.last() == '"' {
                    DepLineClass::AddedQuoted(key, strip_quotes(value))
                } else {
                    DepLineClass::Invalid
                }
            },
        }
    }
}

/// The outcome of working through the lines against an initial key set.
pub struct DepPlanView {
    pub keys: Set<Seq<char>>,
    pub added: Seq<Seq<char>>,
    pub existing: Seq<Seq<char>>,
    pub malformed: Seq<Seq<char>>,
    pub invalid: Seq<Seq<char>>,
}

/// Works through the lines in order, each against the keys as grown so
/// far: `added` lists the lines taken, `existing` the keys already
/// present, `malformed` the lines without `=`, `invalid` the values that
/// neither parse nor read as quoted strings.
pub open spec fn spec_dep_plan(lines: Seq<Seq<char>>, keys: Set<Seq<char>>) -> DepPlanView
    decreases lines.len(),
{
    if lines.len() == 0 {
        DepPlanView {
            keys,
            added: Seq::empty(),
            existing: Seq::empty(),
            malformed: Seq::empty(),
            invalid: Seq::empty(),
        }
    } else {
        let l = lines[0];
        match spec_dep_line_class(l, keys) {
            DepLineClass::Blank => spec_dep_plan(lines.drop_first(), keys),
            DepLineClass::Malformed => {
                let rest = spec_dep_plan(lines.drop_first(), keys);
                DepPlanView { malformed: seq![l] + rest.malformed, ..rest }
            },
            DepLineClass::Existing(key) => {
                let rest = spec_dep_plan(lines.drop_first(), keys);
                DepPlanView { existing: seq![key] + rest.existing, ..rest }
            },
            DepLineClass::AddedValue(key, _value) => {
                let rest = spec_dep_plan(lines.drop_first(), keys.insert(key));
                DepPlanView { added: seq![spec_trim(l)] + rest.added, ..rest }
            },
            DepLineClass::AddedQuoted(key, _value) => {
                let rest = spec_dep_plan(lines.drop_first(), keys.insert(key));
                DepPlanView { added: seq![spec_trim(l)] + rest.added, ..rest }
            },
            DepLineClass::Invalid => {
                let rest = spec_dep_plan(lines.drop_first(), keys);
                DepPlanView { invalid: seq![spec_trim(l)] + rest.invalid, ..rest }
            },
        }
    }
}

proof fn lemma_plan_keys_monotone(lines: Seq<Seq<char>>, keys: Set<Seq<char>>)
    ensures
        keys.subset_of(spec_dep_plan(lines, keys).keys),
    decreases lines.len(),
{
    if lines.len() > 0 {
        match spec_dep_line_class(lines[0], keys) {
            DepLineClass::AddedValue(key, _v) => {
                lemma_plan_keys_monotone(lines.drop_first(), keys.insert(key));
            },
            DepLineClass::AddedQuoted(key, _v) => {
                lemma_plan_keys_monotone(lines.drop_first(), keys.insert(key));
            },
            _ => {
                lemma_plan_keys_monotone(lines.drop_first(), keys);
            },
        }
    }
}

proof fn lemma_dep_plan_rerun(lines: Seq<Seq<char>>, keys: Set<Seq<char>>, keys2: Set<Seq<char>>)
    requires
        spec_dep_plan(lines, keys).keys.subset_of(keys2),
    ensures
        spec_dep_plan(lines, keys2).added.len() == 0,
    decreases lines.len(),
{
    if lines.len() > 0 {
        lemma_plan_keys_monotone(lines, keys);
        let l = lines[0];
        match spec_dep_line_class(l, keys) {
            DepLineClass::AddedValue(key, _v) => {
                lemma_plan_keys_monotone(lines.drop_first(), keys.insert(key));
                assert(keys2.contains(key));
                assert(spec_dep_line_class(l, keys2) == DepLineClass::Existing(key));
                lemma_dep_plan_rerun(lines.drop_first(), keys.insert(key), keys2);
            },
            DepLineClass::AddedQuoted(key, _v) => {
                lemma_plan_keys_monotone(lines.drop_first(), keys.insert(key));
                assert(keys2.contains(key));
                assert(spec_dep_line_class(l, keys2) == DepLineClass::Existing(key));
                lemma_dep_plan_rerun(lines.drop_first(), keys.insert(key), keys2);
            },
            DepLineClass::Existing(key) => {
                assert(keys2.contains(key));
                assert(spec_dep_line_class(l, keys2) == DepLineClass::Existing(key));
                lemma_dep_plan_rerun(lines.drop_first(), keys, keys2);
            },
            DepLineClass::Invalid => {
                assert(!(spec_dep_line_class(l, keys2) is AddedValue));
                assert(!(spec_dep_line_class(l, keys2) is AddedQuoted));
                lemma_dep_plan_rerun(lines.drop_first(), keys, keys2);
            },
            _ => {
                lemma_dep_plan_rerun(lines.drop_first(), keys, keys2);
            },
        }
    }
}

/// Working through the same lines a second time, against the keys the
/// first pass left behind, adds nothing: the merge is idempotent.
pub proof fn lemma_dep_merge_idempotent(lines: Seq<Seq<char>>, keys: Set<Seq<char>>)
    ensures
        spec_dep_plan(lines, spec_dep_plan(lines, keys).keys).added.len() == 0,
{
    lemma_dep_plan_rerun(lines, keys, spec_dep_plan(lines, keys).keys);
}

/// A manifest the merge wrote back is settled: its dependency keys are the
/// plan's keys, so running the same lines over it adds nothing, nothing is
/// written, and the file stays byte-identical.
pub proof fn lemma_updated_manifest_settled(
    lines: Seq<Seq<char>>,
    original: Seq<char>,
    updated: Seq<char>,
)
    requires
        toml_dep_keys_of(updated) == spec_dep_plan(lines, toml_dep_keys_of(original)).keys,
    ensures
        spec_dep_plan(lines, toml_dep_keys_of(updated)).added.len() == 0,
{
    lemma_dep_merge_idempotent(lines, toml_dep_keys_of(original));
}

/// What updating the manifest reports back.
#[derive(Debug)]
pub struct DepUpdateOutcome {
    /// The manifest to write back, present exactly when something was
    /// added.
    pub updated_manifest: Option<String>,
    /// The trimmed lines that were added.
    pub added: Vec<String>,
    /// The keys that were already present.
    pub skipped_existing: Vec<String>,
    /// The lines without a `key = value` shape.
    pub skipped_malformed: Vec<String>,
    /// The trimmed lines whose value could not be used.
    pub skipped_invalid: Vec<String>,
}

/// Adds the proposed dependency lines to the manifest text, as
/// [`spec_dep_plan`] over the manifest's initial keys states it.
pub fn add_cargo_dependencies(cargo_toml: &str, dependency_lines: &Vec<String>) -> (r: Result<
    DepUpdateOutcome,
    DepError,
>)
    ensures
        r matches Err(DepError::ManifestNotParsed) <==> !toml_manifest_ok(cargo_toml@),
        r matches Err(DepError::DependenciesNotATable) <==> toml_manifest_ok(cargo_toml@)
            && !toml_deps_usable(cargo_toml@),
        match r {
            Ok(out) => {
                let plan = spec_dep_plan(
                    views_of(dependency_lines@),
                    toml_dep_keys_of(cargo_toml@),
                );
                &&& views_of(out.added@) == plan.added
                &&& views_of(out.skipped_existing@) == plan.existing
                &&& views_of(out.skipped_malformed@) == plan.malformed
                &&& views_of(out.skipped_invalid@) == plan.invalid
                &&& (out.updated_manifest is Some <==> plan.added.len() > 0)
                &&& match out.updated_manifest {
                    Some(m) => toml_manifest_ok(m@) && toml_deps_usable(m@) && toml_dep_keys_of(
                        m@,
                    ) == plan.keys && forall|k: Seq<char>|
                        #[trigger] toml_dep_keys_of(cargo_toml@).contains(k)
                            ==> toml_dep_values_of(m@)[k] == toml_dep_values_of(cargo_toml@)[k],
                    None => true,
                }
            },
            Err(_) => true,
        },
{
    let mut doc = match open_cargo_deps(cargo_toml) {
        Ok(d) => d,
        Err(e) => {
            return Err(e);
        },
    };
    let ghost lv = views_of(dependency_lines@);
    let ghost k0 = toml_dep_keys_of(cargo_toml@);
    let n = dependency_lines.len();
    let mut added: Vec<String> = Vec::new();
    let mut existing: Vec<String> = Vec::new();
    let mut malformed: Vec<String> = Vec::new();
    let mut invalid: Vec<String> = Vec::new();
    let mut i: usize = 0;
    proof {
        assert(lv.skip(0) =~= lv);
    }
    while i < n
        invariant
            lv == views_of(dependency_lines@),
            n == dependency_lines@.len(),
            i <= n,
            toml_deps_present(doc),
            k0.subset_of(toml_dep_keys(doc)),
            forall|k: Seq<char>|
                #[trigger] k0.contains(k) ==> toml_dep_values(doc)[k] == toml_dep_values_of(
                    cargo_toml@,
                )[k],
            ({
                let full = spec_dep_plan(lv, k0);
                let rest = spec_dep_plan(lv.skip(i as int), toml_dep_keys(doc));
                &&& views_of(added@) + rest.added =~= full.added
                &&& views_of(existing@) + rest.existing =~= full.existing
                &&& views_of(malformed@) + rest.malformed =~= full.malformed
                &&& views_of(invalid@) + rest.invalid =~= full.invalid
                &&& rest.keys == full.keys
            }),
        decreases n - i,
    {
        let ghost restl = lv.skip(i as int);
        proof {
            assert(restl[0] == lv[i as int]);
            assert(restl.drop_first() =~= lv.skip(i + 1));
        }
        let line = &dependency_lines[i];
        let t = str_trim(line.as_str());
        proof {
            assert(t@ == spec_trim(lv[i as int]));
        }
        let tlen = t.unicode_len();
        if tlen == 0 || t.get_char(0) == '#' {
            proof {
                assert(spec_dep_line_class(restl[0], toml_dep_keys(doc)) is Blank);
            }
        } else {
            match str_find_first(t, "=") {
                None => {
                    malformed.push(line.clone());
                    proof {
                        assert(spec_dep_line_class(restl[0], toml_dep_keys(doc)) is Malformed);
                        assert(views_of(malformed@) =~= views_of(malformed@.drop_last()).push(
                            malformed@.last()@,
                        ));
                    }
                },
                Some(p) => {
                    proof {
                        reveal_strlit("=");
                        assert(matches_at(t@, "="@, p as int));
                        assert(p + 1 <= t@.len());
                    }
                    let key_part = t.substring_char(0, p);
                    let value_part = t.substring_char(p + 1, tlen);
                    proof {
                        assert(key_part@ =~= t@.take(p as int));
                        assert(value_part@ =~= t@.skip(p + 1));
                    }
                    let key = str_trim(key_part);
                    let value = str_trim(value_part);
                    let vlen = value.unicode_len();
                    if deps_contains_key(&doc, key) {
                        existing.push(key.to_owned());
                        proof {
                            assert(spec_dep_line_class(restl[0], toml_dep_keys(doc))
                                == DepLineClass::Existing(key@));
                            assert(views_of(existing@) =~= views_of(existing@.drop_last()).push(
                                existing@.last()@,
                            ));
                        }
                    } else if toml_value_parses(value) {
                        let ghost prevkeys = toml_dep_keys(doc);
                        insert_dep_item(&mut doc, key, value);
                        added.push(t.to_owned());
                        proof {
                            assert(spec_dep_line_class(restl[0], prevkeys)
                                == DepLineClass::AddedValue(key@, value@));
                            assert(views_of(added@) =~= views_of(added@.drop_last()).push(
                                added@.last()@,
                            ));
                        }
                    } else if vlen > 0 && value.get_char(0) == '"' && value.get_char(vlen - 1)
                        == '"' {
                        let ghost prevkeys = toml_dep_keys(doc);
                        let simple = strip_quotes_exec(value);
                        insert_dep_string(&mut doc, key, simple.as_str());
                        added.push(t.to_owned());
                        proof {
                            assert(spec_dep_line_class(restl[0], prevkeys)
                                == DepLineClass::AddedQuoted(key@, strip_quotes(value@)));
                            assert(views_of(added@) =~= views_of(added@.drop_last()).push(
                                added@.last()@,
                            ));
                        }
                    } else {
                        invalid.push(t.to_owned());
                        proof {
                            assert(spec_dep_line_class(restl[0], toml_dep_keys(doc))
                                is Invalid);
                            assert(views_of(invalid@) =~= views_of(invalid@.drop_last()).push(
                                invalid@.last()@,
                            ));
                        }
                    }
                },
            }
        }
        i += 1;
    }
    proof {
        assert(lv.skip(n as int).len() == 0);
    }
    let updated_manifest = if added.len() > 0 {
        Some(doc_to_string(&doc))
    } else {
        None
    };
    Ok(
        DepUpdateOutcome {
            updated_manifest,
            added,
            skipped_existing: existing,
            skipped_malformed: malformed,
            skipped_invalid: invalid,
        },
    )
}

} // verus!
