//! Artifact cleanup decisions. The teardown walks a directory tree
//! depth-first, removes every subtree named after the dependency cache
//! directory, and descends into every other child. Here the tree snapshot
//! is a set of directory paths; cleaning keeps exactly the paths that do
//! not pass through an artifact directory. Deleting is idempotent: a
//! second pass finds nothing left to remove, and absence is not an error.

use vstd::prelude::*;
use crate::scan::RelPath;

verus! {

use vstd::string::StringExecFns;

/// Whether some segment of the path equals `seg`.
pub open spec fn has_segment(p: Seq<Seq<char>>, seg: Seq<char>) -> bool {
    exists|i: int| 0 <= i < p.len() && p[i] == seg
}

/// The snapshot after the delete pass: the paths that survive are exactly
/// those that do not pass through a directory named `seg`.
pub open spec fn cleaned_spec(ps: Seq<Seq<Seq<char>>>, seg: Seq<char>) -> Seq<Seq<Seq<char>>>
    decreases ps.len(),
{
    if ps.len() == 0 {
        Seq::empty()
    } else {
        cleaned_spec(ps.drop_last(), seg) + (if has_segment(ps.last(), seg) {
            Seq::<Seq<Seq<char>>>::empty()
        } else {
            seq![ps.last()]
        })
    }
}

/// The views of a sequence of paths.
pub open spec fn path_views(ps: Seq<RelPath>) -> Seq<Seq<Seq<char>>> {
    ps.map_values(|p: RelPath| p@)
}

/// The conventional name of the build-artifact directory.
pub fn artifact_dir_name() -> (r: String)
    ensures
        r@ == "node_modules"@,
{
    String::from_str("node_modules")
}

/// Whether the cleanup recursion descends into a child directory: it
/// descends everywhere but into the artifact directory itself.
pub fn should_descend(name: &String, artifact: &String) -> (r: bool)
    ensures
        r == (name@ != artifact@),
{
    !name.eq(artifact)
}

/// Whether the path passes through a directory named `seg`.
pub fn path_has_segment(p: &RelPath, seg: &String) -> (r: bool)
    ensures
        r == has_segment(p@, seg@),
{
    let mut i: usize = 0;
    while i < p.segments.len()
        invariant
            i <= p.segments@.len(),
            forall|j: int| 0 <= j < i ==> p.segments@[j]@ != seg@,
        decreases p.segments@.len() - i,
    {
        if p.segments[i].eq(seg) {
            proof {
                assert(p@[i as int] == p.segments@[i as int]@);
            }
            return true;
        }
        i += 1;
    }
    proof {
        assert forall|j: int| 0 <= j < p@.len() implies p@[j] != seg@ by {
            assert(p@[j] == p.segments@[j]@);
        }
    }
    false
}

/// Applies the delete decision to a snapshot of directory paths: keeps
/// exactly the paths that do not pass through an artifact directory.
pub fn clean_snapshot(paths: &Vec<RelPath>, artifact: &String) -> (r: Vec<RelPath>)
    ensures
        path_views(r@) == cleaned_spec(path_views(paths@), artifact@),
{
    let ghost ps = path_views(paths@);
    let mut r: Vec<RelPath> = Vec::new();
    proof {
        assert(path_views(r@) =~= cleaned_spec(ps.take(0), artifact@));
    }
    let mut i: usize = 0;
    while i < paths.len()
        invariant
            i <= paths@.len(),
            ps == path_views(paths@),
            path_views(r@) == cleaned_spec(ps.take(i as int), artifact@),
        decreases paths@.len() - i,
    {
        proof {
            assert(ps.take(i + 1).drop_last() =~= ps.take(i as int));
            assert(ps.take(i + 1).last() == ps[i as int]);
            assert(ps[i as int] == paths@[i as int]@);
        }
        if !path_has_segment(&paths[i], artifact) {
            let mut segments: Vec<String> = Vec::new();
            let mut k: usize = 0;
            while k < paths[i].segments.len()
                invariant
                    i < paths@.len(),
                    k <= paths@[i as int].segments@.len(),
                    crate::scripts::views_of(segments@)
                        == paths@[i as int]@.take(k as int),
                decreases paths@[i as int].segments@.len() - k,
            {
                let ghost prior = segments@;
                segments.push(paths[i].segments[k].clone());
                proof {
                    assert(crate::scripts::views_of(segments@)
                        =~= crate::scripts::views_of(prior).push(paths@[i as int].segments@[k as int]@));
                    assert(crate::scripts::views_of(segments@)
                        =~= paths@[i as int]@.take(k + 1));
                }
                k += 1;
            }
            let copy = RelPath { segments };
            proof {
                assert(paths@[i as int]@.take(paths@[i as int]@.len() as int) =~= paths@[i as int]@);
                assert(copy@ == paths@[i as int]@);
            }
            let ghost prior_r = r@;
            r.push(copy);
            proof {
                assert(path_views(r@) =~= path_views(prior_r).push(ps[i as int]));
                assert(path_views(r@) =~= cleaned_spec(ps.take(i + 1), artifact@));
            }
        } else {
            proof {
                assert(cleaned_spec(ps.take(i + 1), artifact@)
                    =~= cleaned_spec(ps.take(i as int), artifact@));
            }
        }
        i += 1;
    }
    proof {
        assert(ps.take(ps.len() as int) =~= ps);
    }
    r
}

/// After the delete pass, no surviving path passes through an artifact
/// directory: everything there was to delete has been deleted.
pub proof fn lemma_clean_removes_all(ps: Seq<Seq<Seq<char>>>, seg: Seq<char>)
    ensures
        forall|i: int|
            0 <= i < cleaned_spec(ps, seg).len() ==> !has_segment(
                #[trigger] cleaned_spec(ps, seg)[i],
                seg,
            ),
    decreases ps.len(),
{
    if ps.len() > 0 {
        lemma_clean_removes_all(ps.drop_last(), seg);
        let rec = cleaned_spec(ps.drop_last(), seg);
        let whole = cleaned_spec(ps, seg);
        assert forall|i: int| 0 <= i < whole.len() implies !has_segment(#[trigger] whole[i], seg) by {
            if i < rec.len() {
                assert(whole[i] == rec[i]);
            } else {
                assert(!has_segment(ps.last(), seg));
                assert(whole[i] == ps.last());
            }
        }
    }
}

/// Cleaning a snapshot in which nothing passes through an artifact
/// directory changes nothing.
pub proof fn lemma_clean_noop(ps: Seq<Seq<Seq<char>>>, seg: Seq<char>)
    requires
        forall|i: int| 0 <= i < ps.len() ==> !has_segment(#[trigger] ps[i], seg),
    ensures
        cleaned_spec(ps, seg) == ps,
    decreases ps.len(),
{
    if ps.len() > 0 {
        assert(ps[ps.len() - 1] == ps.last());
        lemma_clean_noop(ps.drop_last(), seg);
        assert(cleaned_spec(ps, seg) =~= ps.drop_last() + seq![ps.last()]);
        assert(ps.drop_last() + seq![ps.last()] =~= ps);
    }
}

/// Deleting artifact directories is idempotent: running the delete pass a
/// second time removes nothing and reports no missing target.
pub proof fn lemma_clean_idempotent(ps: Seq<Seq<Seq<char>>>, seg: Seq<char>)
    ensures
        cleaned_spec(cleaned_spec(ps, seg), seg) == cleaned_spec(ps, seg),
{
    lemma_clean_removes_all(ps, seg);
    lemma_clean_noop(cleaned_spec(ps, seg), seg);
}

} // verus!
