//! The workspace: the nearest directory at or above a start directory that
//! holds a repository boundary marker, and the registry of repositories.
use vstd::prelude::*;
use crate::package::FileError;
use crate::path::{parent_dir, parent_of};
use crate::registry::{EntryState, Registry};

verus! {

/// The `k`-th directory up from `p` (`p` itself for 0), if there is one.
pub open spec fn ancestor(p: Seq<char>, k: nat) -> Option<Seq<char>>
    decreases k,
{
    if k == 0 {
        Some(p)
    } else {
        match ancestor(p, (k - 1) as nat) {
            Some(q) => parent_of(q),
            None => None,
        }
    }
}

proof fn lemma_no_ancestor_beyond(p: Seq<char>, k: nat, j: nat)
    requires
        ancestor(p, k) is None,
        k <= j,
    ensures
        ancestor(p, j) is None,
    decreases j - k,
{
    if k < j {
        lemma_no_ancestor_beyond(p, k, (j - 1) as nat);
    }
}

/// `marker` answered `answer` for a directory whose path is `d`.
pub open spec fn answered<F: Fn(String) -> bool>(marker: F, d: Seq<char>, answer: bool) -> bool {
    exists|s: String| s@ == d && #[trigger] marker.ensures((s,), answer)
}

/// The `j`-th directory up from `p` exists and `marker` said no for it.
pub open spec fn refused_at<F: Fn(String) -> bool>(marker: F, p: Seq<char>, j: nat) -> bool {
    match ancestor(p, j) {
        Some(d) => answered(marker, d, false),
        None => false,
    }
}

/// There is no `j`-th directory up from `p`, or `marker` said no for it.
pub open spec fn no_marker_at<F: Fn(String) -> bool>(marker: F, p: Seq<char>, j: nat) -> bool {
    match ancestor(p, j) {
        Some(d) => answered(marker, d, false),
        None => true,
    }
}

/// The root of a workspace, and its registry of repositories.
#[derive(Debug)]
pub struct Workspace {
    pub path: String,
    pub registry: Registry,
}

impl Workspace {
    /// Walks up from `start_dir`, the start included, to the first directory
    /// for which `has_marker` answers yes (it holds a module or repository
    /// boundary file); fails with `NotFound` where none up to the root does.
    /// The main repository, `@@`, is registered and not yet evaluated.
    pub fn new<F: Fn(String) -> bool>(start_dir: &str, has_marker: F) -> (r: Result<
        Workspace,
        FileError,
    >)
        requires
            forall|d: String| has_marker.requires((d,)),
        ensures
            match r {
                Ok(ws) => (exists|k: nat|
                    #[trigger] ancestor(start_dir@, k) == Some(ws.path@) && (forall|j: nat|
                        j < k ==> #[trigger] refused_at(has_marker, start_dir@, j))) && answered(
                    has_marker,
                    ws.path@,
                    true,
                )
                    && ws.registry.entry(Seq::empty()) == Some(EntryState::Pending)
                    && forall|n: Seq<char>| n != Seq::<char>::empty() ==> #[trigger] ws.registry.entry(n) is None,
                Err(e) => e == FileError::NotFound && forall|j: nat| #[trigger]
                    no_marker_at(has_marker, start_dir@, j),
            },
    {
        let mut cur = start_dir.to_owned();
        let ghost mut k: nat = 0;
        loop
            invariant
                forall|d: String| has_marker.requires((d,)),
                ancestor(start_dir@, k) == Some(cur@),
                forall|j: nat| j < k ==> #[trigger] refused_at(has_marker, start_dir@, j),
            decreases cur@.len(),
        {
            let probe = cur.clone();
            if has_marker(probe) {
                let mut registry = Registry::new();
                registry.register("");
                proof {
                    reveal_strlit("");
                    assert(""@ =~= Seq::<char>::empty());
                    assert(answered(has_marker, cur@, true));
                    assert(registry.entry(Seq::empty()) == Some(EntryState::Pending));
                    assert(forall|n: Seq<char>|
                        n != Seq::<char>::empty() ==> #[trigger] registry.entry(n) is None);
                    assert(ancestor(start_dir@, k) == Some(cur@));
                }
                return Ok(Workspace { path: cur, registry });
            }
            assert(answered(has_marker, cur@, false));
            match parent_dir(cur.as_str()) {
                Some(p) => {
                    proof {
                        assert(ancestor(start_dir@, k + 1) == Some(p@));
                        assert(refused_at(has_marker, start_dir@, k));
                        k = k + 1;
                    }
                    cur = p;
                },
                None => {
                    proof {
                        assert(ancestor(start_dir@, k + 1) is None);
                        assert forall|j: nat| #[trigger]
                            no_marker_at(has_marker, start_dir@, j) by {
                            if j > k {
                                lemma_no_ancestor_beyond(start_dir@, k + 1, j);
                            } else if j < k {
                                assert(refused_at(has_marker, start_dir@, j));
                            }
                        }
                    }
                    return Err(FileError::NotFound);
                },
            }
        }
    }

    pub fn path(&self) -> (r: &str)
        ensures
            r@ == self.path@,
    {
        self.path.as_str()
    }
}

} // verus!
