//! Manifest synthesis. Manifests are JSON documents. The synthesis path
//! reads and writes them through named, text-level results — whether text
//! parses, which script entries it declares, and how the template renders
//! with its scripts member replaced — so the contracts tie success and the
//! merged rows to the manifest text itself. Synthesis replaces exactly the
//! scripts member of the template; every other member passes through
//! unmodified. The dependency helpers carry a parsed document as an opaque
//! `serde_json::Value`.

use vstd::prelude::*;
use crate::WorkspaceError;
use crate::scan::{RelPath, slash_join_spec};
use crate::scripts::{
    ScriptTable, distinct_keys, lemma_distinct_take, merged_entries_spec, pair_views, views_of,
};
use crate::aggregate::{
    aggregate_dev_spec, aggregate_watch_spec, build_aggregate_script, build_watch_script,
    contains_name, watch_parts_spec,
};

verus! {

use vstd::string::StringExecFns;

#[verifier::external_type_specification]
#[verifier::external_body]
pub struct ExValue(serde_json::Value);

#[verifier::external_type_specification]
#[verifier::external_body]
pub struct ExJsonError(serde_json::Error);

/// Whether the text parses as a well-formed JSON document. Parsing is
/// deterministic in the text, so this is a function of the text alone; what
/// it is on given characters no contract says.
pub uninterp spec fn manifest_wf(s: Seq<char>) -> bool;

/// The string-valued members of the object under `field` of the document
/// the text parses to, as the extractor hands them out (sorted key order,
/// a non-string value reading as empty, an absent or non-object member as
/// no entries). A function of the text and field alone; its value on given
/// characters no contract says, and nothing is relied on for ill-formed
/// text.
pub uninterp spec fn manifest_member_entries(s: Seq<char>, field: Seq<char>) -> Seq<
    (Seq<char>, Seq<char>),
>;

/// The pretty-printed rendering of the document the text parses to, with
/// its `field` member replaced by an object holding one string member per
/// row. Deterministic in the text, field and rows; its value on given
/// arguments no contract says.
pub uninterp spec fn replaced_member_rendering(
    s: Seq<char>,
    field: Seq<char>,
    rows: Seq<(Seq<char>, Seq<char>)>,
) -> Seq<char>;

/// Relies on serde_json::from_str: parses a JSON document, succeeding
/// exactly when the text is well-formed (`manifest_wf`).
#[verifier::external_body]
fn parse_value(s: &str) -> (r: Result<serde_json::Value, serde_json::Error>)
    ensures
        r is Ok <==> manifest_wf(s@),
{
    serde_json::from_str(s)
}

/// Relies on serde_json::from_str, Value::get, as_object and as_str:
/// parses the text and hands out the string-valued members of the object
/// under `field` (`manifest_member_entries`), failing exactly when the
/// text is ill-formed.
#[verifier::external_body]
fn member_entries_of_text(s: &str, field: &str) -> (r: Result<
    Vec<(String, String)>,
    serde_json::Error,
>)
    ensures
        r is Ok <==> manifest_wf(s@),
        r matches Ok(v) ==> pair_views(v@) == manifest_member_entries(s@, field@),
{
    let doc: serde_json::Value = serde_json::from_str(s)?;
    Ok(match doc.get(field).and_then(|f| f.as_object()) {
        Some(m) => m
            .iter()
            .map(|(k, val)| (k.clone(), String::from(val.as_str().unwrap_or(""))))
            .collect(),
        None => Vec::new(),
    })
}

/// Relies on serde_json::from_str, Value::as_object_mut, Map::insert,
/// Map::from_iter, Value::String, Value::Object and to_string_pretty:
/// parses the template text, sets its `field` member to an object holding
/// one string member per row, and pretty-prints the result
/// (`replaced_member_rendering`). Fails exactly when the text is
/// ill-formed: printing a Value itself cannot fail.
#[verifier::external_body]
fn render_with_member_rows(s: &str, field: &str, rows: &Vec<(String, String)>) -> (r: Result<
    String,
    serde_json::Error,
>)
    ensures
        r is Ok <==> manifest_wf(s@),
        r matches Ok(out) ==> out@ == replaced_member_rendering(s@, field@, pair_views(rows@)),
{
    let mut doc: serde_json::Value = serde_json::from_str(s)?;
    let obj: serde_json::Map<String, serde_json::Value> = rows
        .iter()
        .map(|r| (r.0.clone(), serde_json::Value::String(r.1.clone())))
        .collect();
    if let Some(m) = doc.as_object_mut() {
        m.insert(String::from(field), serde_json::Value::Object(obj));
    }
    serde_json::to_string_pretty(&doc)
}

/// Relies on serde_json::Value::get, as_object and as_str: hands out the
/// members of the object under `field` whose values are strings, in sorted
/// key order; a non-string value reads as empty. An absent or non-object
/// `field` member yields no entries.
#[verifier::external_body]
fn string_entries_of(v: &serde_json::Value, field: &str) -> Vec<(String, String)> {
    match v.get(field).and_then(|f| f.as_object()) {
        Some(m) => m
            .iter()
            .map(|(k, val)| (k.clone(), String::from(val.as_str().unwrap_or(""))))
            .collect(),
        None => Vec::new(),
    }
}

/// Relies on serde_json::Value::get and as_str: the string under
/// `outer.inner`, if the document has one.
#[verifier::external_body]
fn nested_string_of(v: &serde_json::Value, outer: &str, inner: &str) -> Option<String> {
    v.get(outer).and_then(|o| o.get(inner)).and_then(|k| k.as_str()).map(String::from)
}

/// Relies on serde_json::Value::clone, Value::as_object_mut, Map::insert,
/// Map::from_iter, Value::String and Value::Object: the document with its
/// `field` member set to an object holding one string member per row. Only
/// an object document gains the member; anything else is left as it is.
#[verifier::external_body]
fn with_string_object(
    doc: &serde_json::Value,
    field: &str,
    rows: &Vec<(String, String)>,
) -> serde_json::Value {
    let mut copy = doc.clone();
    let obj: serde_json::Map<String, serde_json::Value> = rows
        .iter()
        .map(|r| (r.0.clone(), serde_json::Value::String(r.1.clone())))
        .collect();
    if let Some(m) = copy.as_object_mut() {
        m.insert(String::from(field), serde_json::Value::Object(obj));
    }
    copy
}

/// Relies on serde_json::to_string_pretty: renders the document.
#[verifier::external_body]
fn to_pretty(v: &serde_json::Value) -> Result<String, serde_json::Error> {
    serde_json::to_string_pretty(v)
}

/// Parses a manifest document: succeeds exactly on well-formed text,
/// surfacing ill-formed content as a parse error of the library.
pub fn parse_manifest(content: &str) -> (r: Result<serde_json::Value, WorkspaceError>)
    ensures
        r is Ok <==> manifest_wf(content@),
        r is Err ==> r matches Err(WorkspaceError::ManifestParseError),
{
    match parse_value(content) {
        Ok(v) => Ok(v),
        Err(_) => Err(WorkspaceError::ManifestParseError),
    }
}

/// The `(name, command)` script entries the manifest text declares: exactly
/// the string-valued members of its scripts object, an absent member
/// reading as no entries. Succeeds exactly on well-formed text.
pub fn script_entries(content: &str) -> (r: Result<Vec<(String, String)>, WorkspaceError>)
    ensures
        r is Ok <==> manifest_wf(content@),
        r matches Ok(v) ==> pair_views(v@) == manifest_member_entries(content@, "scripts"@),
        r is Err ==> r matches Err(WorkspaceError::ManifestParseError),
{
    match member_entries_of_text(content, "scripts") {
        Ok(v) => Ok(v),
        Err(_) => Err(WorkspaceError::ManifestParseError),
    }
}

/// The document's `project.kind` marker, if it carries one.
pub fn kind_marker_of(doc: &serde_json::Value) -> Option<String> {
    nested_string_of(doc, "project", "kind")
}

/// The `(package, requirement)` entries of the manifest's dependency
/// object — the dev dependencies when `dev` is set; absent objects read
/// as no entries.
pub fn dependency_entries(doc: &serde_json::Value, dev: bool) -> Vec<(String, String)> {
    if dev {
        string_entries_of(doc, "devDependencies")
    } else {
        string_entries_of(doc, "dependencies")
    }
}

/// The document with its dependency object — the dev one when `dev` is
/// set — replaced by the given entries.
pub fn with_dependency_entries(
    doc: &serde_json::Value,
    dev: bool,
    entries: &Vec<(String, String)>,
) -> serde_json::Value {
    if dev {
        with_string_object(doc, "devDependencies", entries)
    } else {
        with_string_object(doc, "dependencies", entries)
    }
}

/// Renders a manifest document as pretty-printed JSON.
pub fn render_document(doc: &serde_json::Value) -> Result<String, WorkspaceError> {
    match to_pretty(doc) {
        Ok(s) => Ok(s),
        Err(_) => Err(WorkspaceError::ManifestParseError),
    }
}

/// One discovered sub-project, reduced to what aggregation reads: its
/// derived name, its directory relative to the workspace root, and its
/// declared scripts.
pub struct SubProject {
    /// The name derived from the sub-project's directory.
    pub name: String,
    /// The sub-project's directory, relative to the workspace root.
    pub dir: String,
    /// The `(name, command)` script entries of its manifest.
    pub scripts: Vec<(String, String)>,
}

/// The namespaced table rows one sub-project contributes.
pub open spec fn sub_rows(s: SubProject) -> Seq<(Seq<char>, Seq<char>)> {
    merged_entries_spec(s.name@, s.dir@, pair_views(s.scripts@))
}

/// The rows a list of sub-projects contributes, in discovery order.
pub open spec fn all_rows(subs: Seq<SubProject>) -> Seq<(Seq<char>, Seq<char>)>
    decreases subs.len(),
{
    if subs.len() == 0 {
        Seq::empty()
    } else {
        all_rows(subs.drop_last()) + sub_rows(subs.last())
    }
}

/// The sub-projects' names, in discovery order.
pub open spec fn sub_names(subs: Seq<SubProject>) -> Seq<Seq<char>> {
    subs.map_values(|s: SubProject| s.name@)
}

/// Whether the sub-project declares a script named `key`.
pub open spec fn has_script_spec(s: SubProject, key: Seq<char>) -> bool {
    exists|i: int| 0 <= i < s.scripts@.len() && s.scripts@[i].0@ == key
}

/// The names of the sub-projects that declare a `test:watch` script, in
/// discovery order.
pub open spec fn watch_names_spec(subs: Seq<SubProject>) -> Seq<Seq<char>>
    decreases subs.len(),
{
    if subs.len() == 0 {
        Seq::empty()
    } else {
        watch_names_spec(subs.drop_last()) + (if has_script_spec(subs.last(), "test:watch"@) {
            seq![subs.last().name@]
        } else {
            Seq::<Seq<char>>::empty()
        })
    }
}

/// Whether the synthesized table carries a test-watch aggregate row: it
/// does exactly when some non-excluded app declares a `test:watch` script.
pub open spec fn has_watch_row(apps: Seq<SubProject>, exclude: Seq<Seq<char>>) -> bool {
    watch_parts_spec(watch_names_spec(apps), exclude).len() != 0
}

/// The full synthesized root script table: every app's rows, then every
/// library's rows, then the aggregate dev row, then — when some app
/// qualifies — the aggregate test-watch row.
pub open spec fn synth_rows(
    apps: Seq<SubProject>,
    libs: Seq<SubProject>,
    exclude: Seq<Seq<char>>,
) -> Seq<(Seq<char>, Seq<char>)> {
    all_rows(apps) + all_rows(libs) + seq![("dev"@, aggregate_dev_spec(sub_names(apps), exclude))]
        + (if has_watch_row(apps, exclude) {
        seq![("test:watch"@, aggregate_watch_spec(watch_names_spec(apps), exclude))]
    } else {
        Seq::<(Seq<char>, Seq<char>)>::empty()
    })
}

/// Splitting a sub-project list splits its rows.
pub proof fn lemma_all_rows_concat(xs: Seq<SubProject>, ys: Seq<SubProject>)
    ensures
        all_rows(xs + ys) == all_rows(xs) + all_rows(ys),
    decreases ys.len(),
{
    if ys.len() == 0 {
        assert(xs + ys =~= xs);
        assert(all_rows(xs) + all_rows(ys) =~= all_rows(xs));
    } else {
        lemma_all_rows_concat(xs, ys.drop_last());
        assert((xs + ys).drop_last() =~= xs + ys.drop_last());
        assert((xs + ys).last() == ys.last());
        assert(all_rows(xs) + (all_rows(ys.drop_last()) + sub_rows(ys.last()))
            =~= (all_rows(xs) + all_rows(ys.drop_last())) + sub_rows(ys.last()));
    }
}

/// Whether the sub-project declares a script named `key`.
pub fn has_script_key(s: &SubProject, key: &String) -> (r: bool)
    ensures
        r == has_script_spec(*s, key@),
{
    let mut i: usize = 0;
    while i < s.scripts.len()
        invariant
            i <= s.scripts@.len(),
            forall|j: int| 0 <= j < i ==> s.scripts@[j].0@ != key@,
        decreases s.scripts@.len() - i,
    {
        if s.scripts[i].0.eq(key) {
            return true;
        }
        i += 1;
    }
    false
}

/// Merges one sub-project manifest into the table, as the aggregation pass
/// does for each discovered sub-project. `content` is the manifest file's
/// text, or nothing when the file is absent — absence is a skip, not an
/// error. The namespace prefix is `prefix`; commands are rewritten into the
/// manifest path's parent directory. Ill-formed content fails the pass, a
/// manifest path with no parent component is a structural error — and only
/// such a path ever raises that error — and a key collision is surfaced;
/// the table is never left half-merged.
pub fn merge_scripts(
    table: &mut ScriptTable,
    manifest_path: &RelPath,
    prefix: &String,
    content: Option<&String>,
) -> (r: Result<(), WorkspaceError>)
    requires
        old(table).well_formed(),
    ensures
        final(table).well_formed(),
        content is None ==> r is Ok && final(table)@ == old(table)@,
        content is Some && manifest_path@.len() < 2 ==> (r matches Err(
            WorkspaceError::InvalidManifestPath,
        )),
        r matches Err(WorkspaceError::InvalidManifestPath) ==> content is Some
            && manifest_path@.len() < 2,
        content matches Some(c) ==> manifest_path@.len() >= 2 ==> {
            let rows = merged_entries_spec(
                prefix@,
                slash_join_spec(manifest_path@.drop_last()),
                manifest_member_entries(c@, "scripts"@),
            );
            &&& (r is Ok <==> manifest_wf(c@) && distinct_keys(old(table)@ + rows))
            &&& (r is Ok ==> final(table)@ == old(table)@ + rows)
            &&& (!manifest_wf(c@) ==> r matches Err(WorkspaceError::ManifestParseError))
        },
        r is Ok ==> final(table)@.take(old(table)@.len() as int) == old(table)@,
        r is Err ==> final(table)@ == old(table)@,
{
    let content_str = match content {
        None => {
            return Ok(());
        },
        Some(c) => c,
    };
    let parent = match manifest_path.parent() {
        Ok(p) => p,
        Err(e) => {
            return Err(e);
        },
    };
    let pairs = match script_entries(content_str.as_str()) {
        Ok(v) => v,
        Err(e) => {
            return Err(e);
        },
    };
    let dir = parent.joined();
    let ghost prior = table@;
    match table.merge_pairs(prefix, &dir, &pairs) {
        Ok(()) => {
            proof {
                assert(table@.take(prior.len() as int) =~= prior);
            }
            Ok(())
        },
        Err(e) => Err(e),
    }
}

/// The watch aggregate has no sub-commands exactly when every name that
/// declares a watch script is excluded.
pub proof fn lemma_watch_parts_empty(names: Seq<Seq<char>>, exclude: Seq<Seq<char>>)
    ensures
        (watch_parts_spec(names, exclude).len() == 0) <==> (forall|i: int|
            0 <= i < names.len() ==> exclude.contains(#[trigger] names[i])),
    decreases names.len(),
{
    if names.len() > 0 {
        lemma_watch_parts_empty(names.drop_last(), exclude);
        if watch_parts_spec(names, exclude).len() == 0 {
            assert(watch_parts_spec(names.drop_last(), exclude).len() == 0);
            assert(exclude.contains(names.last()));
            assert forall|i: int| 0 <= i < names.len() implies exclude.contains(
                #[trigger] names[i],
            ) by {
                if i < names.len() - 1 {
                    assert(names.drop_last()[i] == names[i]);
                } else {
                    assert(names[i] == names.last());
                }
            }
        }
        if forall|i: int| 0 <= i < names.len() ==> exclude.contains(#[trigger] names[i]) {
            assert forall|i: int| 0 <= i < names.drop_last().len() implies exclude.contains(
                #[trigger] names.drop_last()[i],
            ) by {
                assert(names.drop_last()[i] == names[i]);
            }
            assert(exclude.contains(names[names.len() - 1]));
            assert(exclude.contains(names.last()));
        }
    }
}

/// Whether some name escapes the exclusion list.
fn any_non_excluded(names: &Vec<String>, exclude: &Vec<String>) -> (r: bool)
    ensures
        r == !(forall|i: int|
            0 <= i < views_of(names@).len() ==> views_of(exclude@).contains(
                #[trigger] views_of(names@)[i],
            )),
{
    let mut i: usize = 0;
    while i < names.len()
        invariant
            i <= names@.len(),
            forall|j: int| 0 <= j < i ==> views_of(exclude@).contains(#[trigger] views_of(names@)[j]),
        decreases names@.len() - i,
    {
        if !contains_name(exclude, &names[i]) {
            proof {
                assert(views_of(names@)[i as int] == names@[i as int]@);
            }
            return true;
        }
        proof {
            assert(views_of(names@)[i as int] == names@[i as int]@);
        }
        i += 1;
    }
    false
}

/// The rows of the first `n` apps stand unchanged at the front of the
/// synthesized table.
proof fn lemma_synth_prefix_apps(
    apps: Seq<SubProject>,
    libs: Seq<SubProject>,
    excl: Seq<Seq<char>>,
    n: int,
)
    requires
        0 <= n <= apps.len(),
    ensures
        all_rows(apps.take(n)).len() <= synth_rows(apps, libs, excl).len(),
        synth_rows(apps, libs, excl).take(all_rows(apps.take(n)).len() as int) == all_rows(
            apps.take(n),
        ),
{
    let pre = all_rows(apps.take(n));
    lemma_all_rows_concat(apps.take(n), apps.skip(n));
    assert(apps.take(n) + apps.skip(n) =~= apps);
    assert(all_rows(apps) == pre + all_rows(apps.skip(n)));
    assert(synth_rows(apps, libs, excl).take(pre.len() as int) =~= pre);
}

/// The rows of all apps and the first `n` libraries stand unchanged at the
/// front of the synthesized table.
proof fn lemma_synth_prefix_libs(
    apps: Seq<SubProject>,
    libs: Seq<SubProject>,
    excl: Seq<Seq<char>>,
    n: int,
)
    requires
        0 <= n <= libs.len(),
    ensures
        (all_rows(apps) + all_rows(libs.take(n))).len() <= synth_rows(apps, libs, excl).len(),
        synth_rows(apps, libs, excl).take((all_rows(apps) + all_rows(libs.take(n))).len() as int)
            == all_rows(apps) + all_rows(libs.take(n)),
{
    let pre = all_rows(apps) + all_rows(libs.take(n));
    lemma_all_rows_concat(libs.take(n), libs.skip(n));
    assert(libs.take(n) + libs.skip(n) =~= libs);
    assert(all_rows(libs) == all_rows(libs.take(n)) + all_rows(libs.skip(n)));
    assert(synth_rows(apps, libs, excl).take(pre.len() as int) =~= pre);
}

/// Builds the synthesized root script table: merges every app's scripts,
/// then every library's, then adds the aggregate dev script and — when a
/// non-excluded app declares a `test:watch` script — the aggregate
/// test-watch script. Succeeds exactly when all resulting keys are
/// distinct; a collision is surfaced as a duplicate-key error.
pub fn synthesize_table(
    apps: &Vec<SubProject>,
    libs: &Vec<SubProject>,
    exclude: &Vec<String>,
) -> (r: Result<ScriptTable, WorkspaceError>)
    ensures
        r is Ok <==> distinct_keys(synth_rows(apps@, libs@, views_of(exclude@))),
        r matches Ok(t) ==> t@ == synth_rows(apps@, libs@, views_of(exclude@)) && t.well_formed(),
        r is Err ==> r matches Err(WorkspaceError::DuplicateScriptKey(_)),
{
    let ghost excl = views_of(exclude@);
    let ghost target = synth_rows(apps@, libs@, excl);
    let mut table = ScriptTable::new();
    proof {
        assert(all_rows(apps@.take(0)) =~= Seq::<(Seq<char>, Seq<char>)>::empty());
    }
    let mut i: usize = 0;
    while i < apps.len()
        invariant
            i <= apps@.len(),
            excl == views_of(exclude@),
            target == synth_rows(apps@, libs@, excl),
            table.well_formed(),
            table@ == all_rows(apps@.take(i as int)),
        decreases apps@.len() - i,
    {
        proof {
            assert(apps@.take(i + 1).drop_last() =~= apps@.take(i as int));
            assert(apps@.take(i + 1).last() == apps@[i as int]);
        }
        let ghost before = table@;
        match table.merge_pairs(&apps[i].name, &apps[i].dir, &apps[i].scripts) {
            Ok(()) => {},
            Err(e) => {
                proof {
                    let pre = all_rows(apps@.take(i + 1));
                    assert(pre == before + sub_rows(apps@[i as int]));
                    lemma_synth_prefix_apps(apps@, libs@, excl, i + 1);
                    if distinct_keys(target) {
                        lemma_distinct_take(target, pre.len() as int);
                    }
                }
                return Err(e);
            },
        }
        i += 1;
    }
    proof {
        assert(apps@.take(apps@.len() as int) =~= apps@);
        assert(all_rows(libs@.take(0)) =~= Seq::<(Seq<char>, Seq<char>)>::empty());
        assert(table@ + all_rows(libs@.take(0)) =~= table@);
    }
    let mut j: usize = 0;
    while j < libs.len()
        invariant
            j <= libs@.len(),
            excl == views_of(exclude@),
            target == synth_rows(apps@, libs@, excl),
            table.well_formed(),
            table@ == all_rows(apps@) + all_rows(libs@.take(j as int)),
        decreases libs@.len() - j,
    {
        proof {
            assert(libs@.take(j + 1).drop_last() =~= libs@.take(j as int));
            assert(libs@.take(j + 1).last() == libs@[j as int]);
        }
        let ghost before = table@;
        match table.merge_pairs(&libs[j].name, &libs[j].dir, &libs[j].scripts) {
            Ok(()) => {
                proof {
                    assert(table@ =~= all_rows(apps@) + all_rows(libs@.take(j + 1)));
                }
            },
            Err(e) => {
                proof {
                    let pre = all_rows(apps@) + all_rows(libs@.take(j + 1));
                    assert(all_rows(libs@.take(j + 1))
                        == all_rows(libs@.take(j as int)) + sub_rows(libs@[j as int]));
                    assert(pre =~= before + sub_rows(libs@[j as int]));
                    lemma_synth_prefix_libs(apps@, libs@, excl, j + 1);
                    if distinct_keys(target) {
                        lemma_distinct_take(target, pre.len() as int);
                    }
                }
                return Err(e);
            },
        }
        j += 1;
    }
    proof {
        assert(libs@.take(libs@.len() as int) =~= libs@);
    }
    let mut app_names: Vec<String> = Vec::new();
    let mut k: usize = 0;
    while k < apps.len()
        invariant
            k <= apps@.len(),
            views_of(app_names@) == sub_names(apps@).take(k as int),
        decreases apps@.len() - k,
    {
        let ghost prior = app_names@;
        app_names.push(apps[k].name.clone());
        proof {
            assert(sub_names(apps@)[k as int] == apps@[k as int].name@);
            assert(views_of(app_names@) =~= views_of(prior).push(apps@[k as int].name@));
            assert(views_of(app_names@) =~= sub_names(apps@).take(k + 1));
        }
        k += 1;
    }
    proof {
        assert(sub_names(apps@).take(sub_names(apps@).len() as int) =~= sub_names(apps@));
    }
    let dev_value = build_aggregate_script(&app_names, exclude);
    let ghost prev = table@;
    let ghost dev_row = ("dev"@, aggregate_dev_spec(sub_names(apps@), excl));
    proof {
        lemma_synth_prefix_libs(apps@, libs@, excl, libs@.len() as int);
        assert(target.take(prev.len() as int) == prev);
        assert(target[prev.len() as int] == dev_row);
    }
    match table.insert(String::from_str("dev"), dev_value) {
        Ok(()) => {},
        Err(e) => {
            proof {
                if distinct_keys(target) {
                    let d = choose|d: int| 0 <= d < prev.len() && prev[d].0 == "dev"@;
                    assert(target[d] == target.take(prev.len() as int)[d]);
                    assert(target[d].0 == target[prev.len() as int].0);
                }
            }
            return Err(e);
        },
    }
    proof {
        assert(table@ =~= prev + seq![dev_row]);
    }
    let watch_key = String::from_str("test:watch");
    let mut watch_names: Vec<String> = Vec::new();
    proof {
        assert(views_of(watch_names@) =~= watch_names_spec(apps@.take(0)));
    }
    let mut m: usize = 0;
    while m < apps.len()
        invariant
            m <= apps@.len(),
            watch_key@ == "test:watch"@,
            views_of(watch_names@) == watch_names_spec(apps@.take(m as int)),
        decreases apps@.len() - m,
    {
        proof {
            assert(apps@.take(m + 1).drop_last() =~= apps@.take(m as int));
            assert(apps@.take(m + 1).last() == apps@[m as int]);
        }
        if has_script_key(&apps[m], &watch_key) {
            let ghost prior = watch_names@;
            watch_names.push(apps[m].name.clone());
            proof {
                assert(views_of(watch_names@) =~= views_of(prior).push(apps@[m as int].name@));
                assert(views_of(watch_names@) =~= watch_names_spec(apps@.take(m + 1)));
            }
        } else {
            proof {
                assert(watch_names_spec(apps@.take(m + 1))
                    =~= watch_names_spec(apps@.take(m as int)));
            }
        }
        m += 1;
    }
    proof {
        assert(apps@.take(apps@.len() as int) =~= apps@);
    }
    let ghost prev2 = table@;
    let ghost watch_row = ("test:watch"@, aggregate_watch_spec(watch_names_spec(apps@), excl));
    proof {
        lemma_watch_parts_empty(watch_names_spec(apps@), excl);
    }
    if any_non_excluded(&watch_names, exclude) {
        proof {
            assert(has_watch_row(apps@, excl));
            assert(target =~= prev2.push(watch_row));
        }
        let watch_value = build_watch_script(&watch_names, exclude);
        match table.insert(watch_key, watch_value) {
            Ok(()) => {
                proof {
                    assert(table@ =~= target);
                }
                Ok(table)
            },
            Err(e) => {
                proof {
                    if distinct_keys(target) {
                        let d = choose|d: int|
                            0 <= d < prev2.len() && prev2[d].0 == "test:watch"@;
                        assert(target[d] == prev2[d]);
                        assert(target[prev2.len() as int] == watch_row);
                    }
                }
                Err(e)
            },
        }
    } else {
        proof {
            assert(!has_watch_row(apps@, excl));
            assert(table@ =~= target);
        }
        Ok(table)
    }
}

/// The synthesized root manifest: the template text together with the
/// script table that replaces the template's scripts member.
#[derive(Debug)]
pub struct RootManifest {
    /// The template manifest's text; every member but `scripts` passes
    /// through to the rendering.
    pub template: String,
    /// The synthesized script table.
    pub scripts: ScriptTable,
}

/// Synthesizes the root manifest from the template manifest's file content
/// and the discovered sub-projects. An absent template is fatal; so is
/// ill-formed template text; otherwise synthesis succeeds exactly when the
/// synthesized keys are distinct, and the template text passes through
/// unchanged.
pub fn synthesize(
    template_content: Option<&String>,
    apps: &Vec<SubProject>,
    libs: &Vec<SubProject>,
    exclude: &Vec<String>,
) -> (r: Result<RootManifest, WorkspaceError>)
    ensures
        template_content is None <==> r matches Err(WorkspaceError::TemplateMissing),
        template_content matches Some(c) ==> {
            &&& (r is Ok <==> manifest_wf(c@) && distinct_keys(
                synth_rows(apps@, libs@, views_of(exclude@)),
            ))
            &&& (r matches Ok(m) ==> m.template@ == c@ && m.scripts@ == synth_rows(
                apps@,
                libs@,
                views_of(exclude@),
            ) && m.scripts.well_formed())
            &&& (!manifest_wf(c@) ==> r matches Err(WorkspaceError::ManifestParseError))
        },
{
    let content = match template_content {
        None => {
            return Err(WorkspaceError::TemplateMissing);
        },
        Some(c) => c,
    };
    match parse_manifest(content.as_str()) {
        Ok(_) => {},
        Err(e) => {
            return Err(e);
        },
    }
    let scripts = match synthesize_table(apps, libs, exclude) {
        Ok(t) => t,
        Err(e) => {
            return Err(e);
        },
    };
    Ok(RootManifest { template: content.clone(), scripts })
}

impl RootManifest {
    /// Renders the manifest as pretty-printed JSON: exactly the template
    /// text's document with its scripts member replaced by the table's
    /// rows. A synthesized manifest's template is well-formed, so its
    /// rendering always succeeds.
    pub fn render(&self) -> (r: Result<String, WorkspaceError>)
        ensures
            r is Ok <==> manifest_wf(self.template@),
            r matches Ok(out) ==> out@ == replaced_member_rendering(
                self.template@,
                "scripts"@,
                self.scripts@,
            ),
            r is Err ==> r matches Err(WorkspaceError::ManifestParseError),
    {
        match render_with_member_rows(self.template.as_str(), "scripts", self.scripts.rows_vec()) {
            Ok(s) => Ok(s),
            Err(_) => Err(WorkspaceError::ManifestParseError),
        }
    }
}

/// A workspace with zero sub-projects synthesizes the aggregate-only
/// table — one dev row and nothing else — and synthesis always succeeds
/// there: together with the template passing through unchanged, repeated
/// synthesis reproduces the template up to that one member.
pub proof fn lemma_synth_empty_workspace(exclude: Seq<Seq<char>>)
    ensures
        synth_rows(Seq::<SubProject>::empty(), Seq::<SubProject>::empty(), exclude) == seq![
            ("dev"@, aggregate_dev_spec(Seq::<Seq<char>>::empty(), exclude)),
        ],
        distinct_keys(synth_rows(Seq::<SubProject>::empty(), Seq::<SubProject>::empty(), exclude)),
{
    let apps = Seq::<SubProject>::empty();
    assert(all_rows(apps) == Seq::<(Seq<char>, Seq<char>)>::empty());
    assert(sub_names(apps) =~= Seq::<Seq<char>>::empty());
    assert(watch_names_spec(apps) == Seq::<Seq<char>>::empty());
    assert(watch_parts_spec(watch_names_spec(apps), exclude).len() == 0);
    assert(!has_watch_row(apps, exclude));
    assert(synth_rows(apps, apps, exclude) =~= seq![
        ("dev"@, aggregate_dev_spec(Seq::<Seq<char>>::empty(), exclude)),
    ]);
}

/// Synthesis is a pure function of the template text, the discovered
/// sub-projects and the exclusion list: synthesizing again with unchanged
/// inputs yields the identical script table, and the two manifests render
/// to byte-identical text.
pub proof fn lemma_synthesis_repeatable(
    t1: Seq<(Seq<char>, Seq<char>)>,
    t2: Seq<(Seq<char>, Seq<char>)>,
    template: Seq<char>,
    apps: Seq<SubProject>,
    libs: Seq<SubProject>,
    exclude: Seq<Seq<char>>,
)
    requires
        t1 == synth_rows(apps, libs, exclude),
        t2 == synth_rows(apps, libs, exclude),
    ensures
        t1 == t2,
        replaced_member_rendering(template, "scripts"@, t1) == replaced_member_rendering(
            template,
            "scripts"@,
            t2,
        ),
{
}

} // verus!
