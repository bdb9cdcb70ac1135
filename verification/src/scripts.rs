//! Namespaced script tables: every script of a sub-project is renamed to
//! `{project}:{script}` and its command rewritten to change into the
//! sub-project's directory first. Keys must stay unique across the whole
//! table; a collision is a configuration error and is surfaced, never
//! silently overwritten.

use vstd::prelude::*;
use crate::WorkspaceError;

verus! {

use vstd::string::StringExecFns;

/// View of a sequence of owned strings.
pub open spec fn views_of(v: Seq<String>) -> Seq<Seq<char>> {
    v.map_values(|s: String| s@)
}

/// View of a sequence of (key, value) string pairs.
pub open spec fn pair_views(ps: Seq<(String, String)>) -> Seq<(Seq<char>, Seq<char>)> {
    ps.map_values(|p: (String, String)| (p.0@, p.1@))
}

/// The namespaced key `{prefix}:{name}`.
pub open spec fn namespaced_spec(prefix: Seq<char>, name: Seq<char>) -> Seq<char> {
    prefix + ":"@ + name
}

/// The rewritten command `cd {dir} && {cmd}`.
pub open spec fn rewritten_spec(dir: Seq<char>, cmd: Seq<char>) -> Seq<char> {
    "cd "@ + dir + " && "@ + cmd
}

/// The table rows that merging one sub-project's scripts produces: one row
/// per script, key namespaced by `prefix`, command rewritten into `dir`.
pub open spec fn merged_entries_spec(
    prefix: Seq<char>,
    dir: Seq<char>,
    scripts: Seq<(Seq<char>, Seq<char>)>,
) -> Seq<(Seq<char>, Seq<char>)> {
    scripts.map_values(|p: (Seq<char>, Seq<char>)| (namespaced_spec(prefix, p.0), rewritten_spec(dir, p.1)))
}

/// Some row of `t` has key `k`.
pub open spec fn table_has_key(t: Seq<(Seq<char>, Seq<char>)>, k: Seq<char>) -> bool {
    exists|i: int| 0 <= i < t.len() && t[i].0 == k
}

/// No two rows of `t` share a key.
pub open spec fn distinct_keys(t: Seq<(Seq<char>, Seq<char>)>) -> bool {
    forall|i: int, j: int| 0 <= i < j < t.len() ==> t[i].0 != t[j].0
}

/// Key uniqueness restricts to any front part of a table.
pub proof fn lemma_distinct_take(t: Seq<(Seq<char>, Seq<char>)>, n: int)
    requires
        0 <= n <= t.len(),
        distinct_keys(t),
    ensures
        distinct_keys(t.take(n)),
{
    assert forall|i: int, j: int| 0 <= i < j < n implies t.take(n)[i].0 != t.take(n)[j].0 by {
        assert(t.take(n)[i] == t[i]);
        assert(t.take(n)[j] == t[j]);
    }
}

/// Merging produces exactly one table row per script key of the manifest,
/// each in its place: nothing is dropped, doubled or reordered.
pub proof fn lemma_one_row_per_script(
    prefix: Seq<char>,
    dir: Seq<char>,
    scripts: Seq<(Seq<char>, Seq<char>)>,
)
    ensures
        merged_entries_spec(prefix, dir, scripts).len() == scripts.len(),
        forall|i: int|
            0 <= i < scripts.len() ==> #[trigger] merged_entries_spec(prefix, dir, scripts)[i]
                == (namespaced_spec(prefix, scripts[i].0), rewritten_spec(dir, scripts[i].1)),
{
}

/// A manifest whose script keys are pairwise distinct merges into rows
/// whose namespaced keys are pairwise distinct.
pub proof fn lemma_distinct_scripts_distinct_rows(
    prefix: Seq<char>,
    dir: Seq<char>,
    scripts: Seq<(Seq<char>, Seq<char>)>,
)
    requires
        forall|i: int, j: int| 0 <= i < j < scripts.len() ==> scripts[i].0 != scripts[j].0,
    ensures
        distinct_keys(merged_entries_spec(prefix, dir, scripts)),
{
    let merged = merged_entries_spec(prefix, dir, scripts);
    assert forall|i: int, j: int| 0 <= i < j < merged.len() implies merged[i].0 != merged[j].0 by {
        assert(merged[i].0 == namespaced_spec(prefix, scripts[i].0));
        assert(merged[j].0 == namespaced_spec(prefix, scripts[j].0));
        if merged[i].0 == merged[j].0 {
            lemma_namespaced_injective(prefix, scripts[i].0, scripts[j].0);
        }
    }
}

/// Under one namespace prefix, distinct script names always yield distinct
/// namespaced keys: each script of a sub-project owns exactly one row.
pub proof fn lemma_namespaced_injective(prefix: Seq<char>, x: Seq<char>, y: Seq<char>)
    requires
        namespaced_spec(prefix, x) == namespaced_spec(prefix, y),
    ensures
        x == y,
{
    reveal_strlit(":");
    let sx = namespaced_spec(prefix, x);
    let sy = namespaced_spec(prefix, y);
    assert(sx.len() == prefix.len() + 1 + x.len());
    assert(sy.len() == prefix.len() + 1 + y.len());
    assert(x.len() == y.len());
    assert forall|i: int| 0 <= i < x.len() implies x[i] == y[i] by {
        assert(sx[prefix.len() + 1 + i] == x[i]);
        assert(sy[prefix.len() + 1 + i] == y[i]);
    }
    assert(x =~= y);
}

/// Two sub-projects whose directory names differ can never produce the same
/// namespaced key, provided the names themselves hold no `:` separator.
pub proof fn lemma_distinct_prefixes_no_collision(
    a: Seq<char>,
    x: Seq<char>,
    b: Seq<char>,
    y: Seq<char>,
)
    requires
        !a.contains(':'),
        !b.contains(':'),
        a != b,
    ensures
        namespaced_spec(a, x) != namespaced_spec(b, y),
{
    reveal_strlit(":");
    if namespaced_spec(a, x) == namespaced_spec(b, y) {
        let s = namespaced_spec(a, x);
        if a.len() == b.len() {
            assert forall|i: int| 0 <= i < a.len() implies a[i] == b[i] by {
                assert(s[i] == a[i]);
                assert(s[i] == b[i]);
            }
            assert(a =~= b);
        } else if a.len() < b.len() {
            assert(s[a.len() as int] == ':');
            assert(s[a.len() as int] == b[a.len() as int]);
            assert(0 <= a.len() < b.len() && b[a.len() as int] == ':');
        } else {
            assert(s[b.len() as int] == ':');
            assert(s[b.len() as int] == a[b.len() as int]);
            assert(0 <= b.len() < a.len() && a[b.len() as int] == ':');
        }
    }
}

/// The rows merged for two sub-projects with different, `:`-free directory
/// names are key-disjoint, whatever scripts either of them declares.
pub proof fn lemma_merged_tables_disjoint(
    a: Seq<char>,
    da: Seq<char>,
    ps: Seq<(Seq<char>, Seq<char>)>,
    b: Seq<char>,
    db: Seq<char>,
    qs: Seq<(Seq<char>, Seq<char>)>,
)
    requires
        !a.contains(':'),
        !b.contains(':'),
        a != b,
    ensures
        forall|i: int, j: int|
            0 <= i < ps.len() && 0 <= j < qs.len()
                ==> merged_entries_spec(a, da, ps)[i].0 != merged_entries_spec(b, db, qs)[j].0,
{
    assert forall|i: int, j: int| 0 <= i < ps.len() && 0 <= j < qs.len()
        implies merged_entries_spec(a, da, ps)[i].0 != merged_entries_spec(b, db, qs)[j].0
    by {
        assert(merged_entries_spec(a, da, ps)[i].0 == namespaced_spec(a, ps[i].0));
        assert(merged_entries_spec(b, db, qs)[j].0 == namespaced_spec(b, qs[j].0));
        lemma_distinct_prefixes_no_collision(a, ps[i].0, b, qs[j].0);
    }
}

/// Builds the namespaced key `{prefix}:{name}`.
pub fn namespace_key(prefix: &str, name: &str) -> (r: String)
    ensures
        r@ == namespaced_spec(prefix@, name@),
{
    let mut s = String::from_str(prefix);
    s.append(":");
    s.append(name);
    s
}

/// Builds the rewritten command `cd {dir} && {cmd}`.
pub fn rewrite_command(dir: &str, cmd: &str) -> (r: String)
    ensures
        r@ == rewritten_spec(dir@, cmd@),
{
    let mut s = String::from_str("cd ");
    s.append(dir);
    s.append(" && ");
    s.append(cmd);
    s
}

/// The root script table: an ordered list of (key, command) rows whose keys
/// are pairwise distinct.
#[derive(Debug)]
pub struct ScriptTable {
    entries: Vec<(String, String)>,
}

impl View for ScriptTable {
    type V = Seq<(Seq<char>, Seq<char>)>;

    closed spec fn view(&self) -> Seq<(Seq<char>, Seq<char>)> {
        pair_views(self.entries@)
    }
}

impl ScriptTable {
    /// The key-uniqueness invariant.
    pub open spec fn well_formed(&self) -> bool {
        distinct_keys(self@)
    }

    /// An empty table.
    pub fn new() -> (r: ScriptTable)
        ensures
            r@ == Seq::<(Seq<char>, Seq<char>)>::empty(),
            r.well_formed(),
    {
        let r = ScriptTable { entries: Vec::new() };
        proof {
            assert(r@ =~= Seq::<(Seq<char>, Seq<char>)>::empty());
        }
        r
    }

    /// How many rows the table holds.
    pub fn len(&self) -> (r: usize)
        ensures
            r == self@.len(),
    {
        self.entries.len()
    }

    /// The row at `i`, as a (key, command) pair.
    pub fn row(&self, i: usize) -> (r: (String, String))
        requires
            i < self@.len(),
        ensures
            (r.0@, r.1@) == self@[i as int],
    {
        let p = &self.entries[i];
        (p.0.clone(), p.1.clone())
    }

    /// The table's rows, for rendering.
    pub fn rows_vec(&self) -> (r: &Vec<(String, String)>)
        ensures
            pair_views(r@) == self@,
    {
        &self.entries
    }

    /// Whether some row already uses key `k`.
    pub fn contains_key(&self, k: &String) -> (r: bool)
        ensures
            r == table_has_key(self@, k@),
    {
        let mut i: usize = 0;
        while i < self.entries.len()
            invariant
                i <= self.entries@.len(),
                forall|j: int| 0 <= j < i ==> self@[j].0 != k@,
            decreases self.entries@.len() - i,
        {
            if self.entries[i].0.eq(k) {
                assert(self@[i as int].0 == k@);
                return true;
            }
            i += 1;
        }
        false
    }

    /// Appends one row, refusing a key the table already holds.
    pub fn insert(&mut self, key: String, value: String) -> (r: Result<(), WorkspaceError>)
        requires
            old(self).well_formed(),
        ensures
            final(self).well_formed(),
            r is Ok ==> !table_has_key(old(self)@, key@) && final(self)@ == old(self)@.push((key@, value@)),
            r is Err ==> table_has_key(old(self)@, key@) && final(self)@ == old(self)@
                && (r matches Err(WorkspaceError::DuplicateScriptKey(k)) && k@ == key@),
    {
        if self.contains_key(&key) {
            return Err(WorkspaceError::DuplicateScriptKey(key));
        }
        let ghost prior = self@;
        self.entries.push((key, value));
        proof {
            assert(self@ =~= prior.push((self.entries@.last().0@, self.entries@.last().1@)));
        }
        Ok(())
    }

    /// Merges one sub-project's scripts into the table: for each `(name,
    /// command)` pair, inserts `{prefix}:{name}` mapped to `cd {dir} &&
    /// {command}`. Succeeds exactly when none of the new keys collides with
    /// the table or with another new key; on failure the table is unchanged.
    pub fn merge_pairs(
        &mut self,
        prefix: &String,
        dir: &String,
        scripts: &Vec<(String, String)>,
    ) -> (r: Result<(), WorkspaceError>)
        requires
            old(self).well_formed(),
        ensures
            final(self).well_formed(),
            r is Ok <==> distinct_keys(old(self)@ + merged_entries_spec(prefix@, dir@, pair_views(scripts@))),
            r is Ok ==> final(self)@ == old(self)@ + merged_entries_spec(prefix@, dir@, pair_views(scripts@)),
            r is Err ==> final(self)@ == old(self)@ && r matches Err(WorkspaceError::DuplicateScriptKey(_)),
    {
        let ghost orig = old(self)@;
        let ghost incoming = merged_entries_spec(prefix@, dir@, pair_views(scripts@));
        let ghost full = orig + incoming;
        let mut staged: Vec<(String, String)> = Vec::new();
        proof {
            assert(full.take(orig.len() as int) =~= orig);
            assert(pair_views(staged@) =~= incoming.take(0));
        }
        let mut i: usize = 0;
        while i < scripts.len()
            invariant
                i <= scripts@.len(),
                incoming == merged_entries_spec(prefix@, dir@, pair_views(scripts@)),
                orig == old(self)@,
                full == orig + incoming,
                incoming.len() == scripts@.len(),
                self == old(self),
                self.well_formed(),
                staged@.len() == i,
                pair_views(staged@) == incoming.take(i as int),
                distinct_keys(full.take(orig.len() + i)),
            decreases scripts@.len() - i,
        {
            let key = namespace_key(prefix.as_str(), scripts[i].0.as_str());
            let value = rewrite_command(dir.as_str(), scripts[i].1.as_str());
            assert((key@, value@) == incoming[i as int]);
            assert(full[orig.len() + i] == incoming[i as int]);
            if self.contains_key(&key) {
                assert(!distinct_keys(full)) by {
                    let j = choose|j: int| 0 <= j < orig.len() && orig[j].0 == key@;
                    assert(full[j] == orig[j]);
                    assert(full[j].0 == full[orig.len() + i].0);
                }
                return Err(WorkspaceError::DuplicateScriptKey(key));
            }
            let mut k: usize = 0;
            while k < staged.len()
                invariant
                    k <= staged@.len(),
                    staged@.len() == i,
                    i < incoming.len(),
                    pair_views(staged@) == incoming.take(i as int),
                    key@ == incoming[i as int].0,
                    orig == old(self)@,
                    incoming == merged_entries_spec(prefix@, dir@, pair_views(scripts@)),
                    full == orig + incoming,
                    self == old(self),
                    self.well_formed(),
                    forall|j: int| 0 <= j < k ==> staged@[j].0@ != key@,
                decreases staged@.len() - k,
            {
                if staged[k].0.eq(&key) {
                    assert(!distinct_keys(full)) by {
                        assert(full[orig.len() + k] == incoming[k as int]);
                        assert(incoming.take(i as int)[k as int] == incoming[k as int]);
                        assert(pair_views(staged@)[k as int] == (staged@[k as int].0@, staged@[k as int].1@));
                        assert(full[orig.len() + k].0 == key@);
                        assert(full[orig.len() + i].0 == key@);
                    }
                    return Err(WorkspaceError::DuplicateScriptKey(key));
                }
                k += 1;
            }
            let ghost staged_prior = staged@;
            staged.push((key, value));
            proof {
                assert(pair_views(staged@) =~= incoming.take(i + 1)) by {
                    assert forall|j: int| 0 <= j < i + 1
                        implies pair_views(staged@)[j] == incoming.take(i + 1)[j]
                    by {
                        if j < i {
                            assert(pair_views(staged_prior)[j] == incoming.take(i as int)[j]);
                            assert(staged@[j] == staged_prior[j]);
                        } else {
                            assert(staged@[j] == (staged@.last()));
                        }
                    }
                }
                assert forall|a: int, b: int| 0 <= a < b < orig.len() + i + 1
                    implies full[a].0 != full[b].0
                by {
                    if b == orig.len() + i {
                        assert(full[b] == incoming[i as int]);
                        assert(full[b].0 == key@);
                        if a < orig.len() {
                            assert(full[a] == orig[a]);
                            assert(!table_has_key(orig, key@));
                        } else {
                            let j = a - orig.len();
                            assert(full[a] == incoming[j]);
                            assert(incoming.take(i as int)[j] == incoming[j]);
                            assert(pair_views(staged_prior)[j] == (staged_prior[j].0@, staged_prior[j].1@));
                            assert(staged_prior[j].0@ != key@);
                        }
                    } else {
                        assert(full.take(orig.len() + i)[a] == full[a]);
                        assert(full.take(orig.len() + i)[b] == full[b]);
                    }
                }
            }
            i += 1;
        }
        proof {
            assert(incoming.take(incoming.len() as int) =~= incoming);
            assert(full.take((orig.len() + incoming.len()) as int) =~= full);
            assert(distinct_keys(full));
        }
        let ghost prior = self@;
        let mut j: usize = 0;
        proof {
            assert(prior + incoming.take(0) =~= prior);
        }
        while j < staged.len()
            invariant
                j <= staged@.len(),
                pair_views(staged@) == incoming,
                incoming.len() == staged@.len(),
                prior == old(self)@,
                full == prior + incoming,
                distinct_keys(full),
                self@ == prior + incoming.take(j as int),
            decreases staged@.len() - j,
        {
            let k2 = staged[j].0.clone();
            let v2 = staged[j].1.clone();
            let ghost before = self@;
            self.entries.push((k2, v2));
            proof {
                assert(pair_views(staged@)[j as int] == (staged@[j as int].0@, staged@[j as int].1@));
                assert(self@ =~= before.push((staged@[j as int].0@, staged@[j as int].1@)));
                assert(self@ =~= prior + incoming.take(j + 1));
            }
            j += 1;
        }
        proof {
            assert(incoming.take(staged@.len() as int) =~= incoming);
            assert(self@ =~= full);
        }
        Ok(())
    }
}

} // verus!
