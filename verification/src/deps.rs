//! Dependency table updates: adding a package to a manifest's dependency
//! or dev-dependency object. The requirement string is the fetched version
//! under a caret; an existing entry for the package is overwritten in
//! place, a new one is appended.

use vstd::prelude::*;
use crate::scripts::pair_views;

verus! {

use vstd::string::StringExecFns;

/// The version requirement `^{version}`.
pub open spec fn caret_spec(version: Seq<char>) -> Seq<char> {
    "^"@ + version
}

/// Builds the `^{version}` requirement string.
pub fn caret_version(version: &str) -> (r: String)
    ensures
        r@ == caret_spec(version@),
{
    let mut s = String::from_str("^");
    s.append(version);
    s
}

/// The entry list after setting `key` to `value`: the first entry holding
/// `key` is overwritten in place, and a missing key is appended at the end.
pub open spec fn upsert_spec(
    es: Seq<(Seq<char>, Seq<char>)>,
    key: Seq<char>,
    value: Seq<char>,
) -> Seq<(Seq<char>, Seq<char>)>
    decreases es.len(),
{
    if es.len() == 0 {
        seq![(key, value)]
    } else if es.first().0 == key {
        seq![(key, value)] + es.drop_first()
    } else {
        seq![es.first()] + upsert_spec(es.drop_first(), key, value)
    }
}

/// When `key` first occurs at `f`, the upsert overwrites exactly that
/// entry and leaves everything else in place.
pub proof fn lemma_upsert_found(
    es: Seq<(Seq<char>, Seq<char>)>,
    key: Seq<char>,
    value: Seq<char>,
    f: int,
)
    requires
        0 <= f < es.len(),
        es[f].0 == key,
        forall|j: int| 0 <= j < f ==> es[j].0 != key,
    ensures
        upsert_spec(es, key, value) == es.update(f, (key, value)),
    decreases es.len(),
{
    if f == 0 {
        assert(es.first().0 == key);
        assert(seq![(key, value)] + es.drop_first() =~= es.update(0, (key, value)));
    } else {
        assert(es.first().0 == es[0].0);
        assert(es.first().0 != key);
        let tail = es.drop_first();
        assert forall|j: int| 0 <= j < f - 1 implies tail[j].0 != key by {
            assert(tail[j] == es[j + 1]);
        }
        assert(tail[f - 1] == es[f]);
        lemma_upsert_found(tail, key, value, f - 1);
        assert(seq![es.first()] + tail.update(f - 1, (key, value)) =~= es.update(f, (key, value)));
    }
}

/// When `key` is absent, the upsert appends the new entry at the end.
pub proof fn lemma_upsert_absent(es: Seq<(Seq<char>, Seq<char>)>, key: Seq<char>, value: Seq<char>)
    requires
        forall|j: int| 0 <= j < es.len() ==> es[j].0 != key,
    ensures
        upsert_spec(es, key, value) == es.push((key, value)),
    decreases es.len(),
{
    if es.len() == 0 {
        assert(seq![(key, value)] =~= es.push((key, value)));
    } else {
        assert(es.first().0 == es[0].0);
        let tail = es.drop_first();
        assert forall|j: int| 0 <= j < tail.len() implies tail[j].0 != key by {
            assert(tail[j] == es[j + 1]);
        }
        lemma_upsert_absent(tail, key, value);
        assert(seq![es.first()] + tail.push((key, value)) =~= es.push((key, value)));
    }
}

/// Sets `key` to `value` in a dependency entry list: overwrites the first
/// entry already holding `key`, or appends a new entry.
pub fn upsert_entry(entries: &mut Vec<(String, String)>, key: &String, value: &String)
    ensures
        pair_views(final(entries)@) == upsert_spec(pair_views(old(entries)@), key@, value@),
{
    let ghost es = pair_views(old(entries)@);
    let mut i: usize = 0;
    while i < entries.len()
        invariant
            i <= entries@.len(),
            entries@ == old(entries)@,
            es == pair_views(old(entries)@),
            forall|j: int| 0 <= j < i ==> es[j].0 != key@,
        decreases entries@.len() - i,
    {
        proof {
            assert(es[i as int] == (entries@[i as int].0@, entries@[i as int].1@));
        }
        if entries[i].0.eq(key) {
            entries[i] = (key.clone(), value.clone());
            proof {
                lemma_upsert_found(es, key@, value@, i as int);
                assert(pair_views(entries@) =~= es.update(i as int, (key@, value@)));
            }
            return ;
        }
        i += 1;
    }
    entries.push((key.clone(), value.clone()));
    proof {
        lemma_upsert_absent(es, key@, value@);
        assert(pair_views(entries@) =~= es.push((key@, value@)));
    }
}

} // verus!
