//! Workspace scanning decisions. The filesystem itself is read outside the
//! library; what comes in are plain directory listings (name, directory
//! flag, manifest flag) and sentinel flags for the ancestor chain. Relative
//! paths are modeled as segment lists, so path arithmetic needs no string
//! parsing.

use vstd::prelude::*;
use crate::WorkspaceError;
use crate::scripts::views_of;

verus! {

use vstd::string::StringExecFns;

/// What the scanner learns about one immediate child of a collection
/// directory.
pub struct DirEntryInfo {
    /// The child's file name.
    pub name: String,
    /// Whether the child is itself a directory.
    pub is_dir: bool,
    /// Whether the child holds a manifest file.
    pub has_manifest: bool,
}

/// The names of the qualifying sub-projects among `entries`, in listing
/// order: a child qualifies when it is a directory holding a manifest.
pub open spec fn qualifying_names_spec(entries: Seq<DirEntryInfo>) -> Seq<Seq<char>>
    decreases entries.len(),
{
    if entries.len() == 0 {
        Seq::empty()
    } else {
        qualifying_names_spec(entries.drop_last()) + (if entries.last().is_dir
            && entries.last().has_manifest {
            seq![entries.last().name@]
        } else {
            Seq::<Seq<char>>::empty()
        })
    }
}

/// Filters a collection directory's listing down to the sub-project names:
/// directories that hold a manifest qualify; everything else is silently
/// skipped. An absent collection directory is handed in as an empty listing
/// and yields an empty result.
pub fn discover_subprojects(entries: &Vec<DirEntryInfo>) -> (r: Vec<String>)
    ensures
        views_of(r@) == qualifying_names_spec(entries@),
{
    let mut r: Vec<String> = Vec::new();
    proof {
        assert(views_of(r@) =~= qualifying_names_spec(entries@.take(0)));
    }
    let mut i: usize = 0;
    while i < entries.len()
        invariant
            i <= entries@.len(),
            views_of(r@) == qualifying_names_spec(entries@.take(i as int)),
        decreases entries@.len() - i,
    {
        proof {
            assert(entries@.take(i + 1).drop_last() =~= entries@.take(i as int));
            assert(entries@.take(i + 1).last() == entries@[i as int]);
        }
        if entries[i].is_dir && entries[i].has_manifest {
            let ghost prior = r@;
            r.push(entries[i].name.clone());
            proof {
                assert(views_of(r@) =~= views_of(prior).push(entries@[i as int].name@));
                assert(views_of(r@) =~= qualifying_names_spec(entries@.take(i + 1)));
            }
        } else {
            proof {
                assert(qualifying_names_spec(entries@.take(i + 1))
                    =~= qualifying_names_spec(entries@.take(i as int)));
            }
        }
        i += 1;
    }
    proof {
        assert(entries@.take(entries@.len() as int) =~= entries@);
    }
    r
}

/// Finds the workspace root along the ancestor chain: `flags[i]` says
/// whether the i-th ancestor (starting at the current directory itself)
/// holds the sentinel template file. The first flagged ancestor wins;
/// when none is flagged the root cannot be found.
pub fn find_root_index(flags: &Vec<bool>) -> (r: Result<usize, WorkspaceError>)
    ensures
        r is Ok <==> exists|j: int| 0 <= j < flags@.len() && flags@[j],
        r matches Ok(i) ==> 0 <= i < flags@.len() && flags@[i as int]
            && (forall|j: int| 0 <= j < i ==> !flags@[j]),
        r is Err ==> r matches Err(WorkspaceError::RootNotFound),
{
    let mut i: usize = 0;
    while i < flags.len()
        invariant
            i <= flags@.len(),
            forall|j: int| 0 <= j < i ==> !flags@[j],
        decreases flags@.len() - i,
    {
        if flags[i] {
            return Ok(i);
        }
        i += 1;
    }
    Err(WorkspaceError::RootNotFound)
}

/// A relative path, kept as its segments; `joined` renders it with `/`
/// separators.
#[derive(Debug)]
pub struct RelPath {
    /// The path's segments, top directory first.
    pub segments: Vec<String>,
}

/// The `/`-joined rendering of a segment sequence.
pub open spec fn slash_join_spec(segs: Seq<Seq<char>>) -> Seq<char>
    decreases segs.len(),
{
    if segs.len() == 0 {
        Seq::empty()
    } else if segs.len() == 1 {
        segs[0]
    } else {
        slash_join_spec(segs.drop_last()) + "/"@ + segs.last()
    }
}

impl RelPath {
    /// The view: the segments as character sequences.
    pub open spec fn view(&self) -> Seq<Seq<char>> {
        views_of(self.segments@)
    }

    /// The path `{collection}/{name}`: a sub-project's directory.
    pub fn subproject_dir(collection: &str, name: &str) -> (r: RelPath)
        ensures
            r@ =~= seq![collection@, name@],
    {
        let mut segments: Vec<String> = Vec::new();
        segments.push(String::from_str(collection));
        segments.push(String::from_str(name));
        RelPath { segments }
    }

    /// The path `{collection}/{name}/{manifest}`: a sub-project's manifest.
    pub fn subproject_manifest(collection: &str, name: &str, manifest: &str) -> (r: RelPath)
        ensures
            r@ =~= seq![collection@, name@, manifest@],
    {
        let mut segments: Vec<String> = Vec::new();
        segments.push(String::from_str(collection));
        segments.push(String::from_str(name));
        segments.push(String::from_str(manifest));
        RelPath { segments }
    }

    /// The path without its last segment. A path of fewer than two segments
    /// has no parent component, which callers treat as a structural error.
    pub fn parent(&self) -> (r: Result<RelPath, WorkspaceError>)
        ensures
            r is Ok <==> self@.len() >= 2,
            r matches Ok(p) ==> p@ == self@.drop_last(),
            r is Err ==> r matches Err(WorkspaceError::InvalidManifestPath),
    {
        if self.segments.len() < 2 {
            return Err(WorkspaceError::InvalidManifestPath);
        }
        let mut segments: Vec<String> = Vec::new();
        let mut i: usize = 0;
        while i < self.segments.len() - 1
            invariant
                self@.len() >= 2,
                i <= self@.len() - 1,
                views_of(segments@) == self@.take(i as int),
            decreases self.segments@.len() - 1 - i,
        {
            let ghost prior = segments@;
            segments.push(self.segments[i].clone());
            proof {
                assert(views_of(segments@) =~= views_of(prior).push(self.segments@[i as int]@));
                assert(views_of(segments@) =~= self@.take(i + 1));
            }
            i += 1;
        }
        proof {
            assert(self@.take(self@.len() - 1) =~= self@.drop_last());
        }
        Ok(RelPath { segments })
    }

    /// Renders the path with `/` separators.
    pub fn joined(&self) -> (r: String)
        ensures
            r@ == slash_join_spec(self@),
    {
        let mut s = String::new();
        if self.segments.len() == 0 {
            return s;
        }
        s.append(self.segments[0].as_str());
        proof {
            assert(self@.take(1) =~= seq![self@[0]]);
            assert(slash_join_spec(self@.take(1)) == self@[0]);
            assert(s@ =~= slash_join_spec(self@.take(1)));
        }
        let mut i: usize = 1;
        while i < self.segments.len()
            invariant
                1 <= i <= self@.len(),
                s@ == slash_join_spec(self@.take(i as int)),
            decreases self.segments@.len() - i,
        {
            s.append("/");
            s.append(self.segments[i].as_str());
            proof {
                let t = self@.take(i + 1);
                assert(t.drop_last() =~= self@.take(i as int));
                assert(t.last() == self@[i as int]);
                assert(slash_join_spec(t) == slash_join_spec(self@.take(i as int)) + "/"@ + self@[i as int]);
            }
            i += 1;
        }
        proof {
            assert(self@.take(self@.len() as int) =~= self@);
        }
        s
    }
}

} // verus!
