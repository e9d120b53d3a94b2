//! Repositories: where their files live, and how the names that a
//! repository uses for its dependencies map to canonical names.
use vstd::prelude::*;
use crate::bzlmod::Module;
use crate::label::{str_eq, CanonicalRepo, RepoRef};
use crate::module::BazelDep;
use crate::package::{find_package, has_name, FileError, Package};
use crate::path::{join_path, joined};

verus! {

/// A file of the local filesystem, named by its path.
#[derive(Clone, Debug)]
pub struct TokioFile {
    path: String,
}

impl TokioFile {
    pub closed spec fn spec_path(&self) -> Seq<char> {
        self.path@
    }

    pub fn new(path: String) -> (r: TokioFile)
        ensures
            r.spec_path() == path@,
    {
        TokioFile { path }
    }

    pub fn path(&self) -> (r: &str)
        ensures
            r@ == self.spec_path(),
    {
        self.path.as_str()
    }
}

/// The files of a repository under a root directory of the local filesystem.
#[derive(Clone, Debug)]
pub struct TokioRepository {
    root: String,
}

impl TokioRepository {
    pub closed spec fn spec_root(&self) -> Seq<char> {
        self.root@
    }

    pub fn new(root: String) -> (r: TokioRepository)
        ensures
            r.spec_root() == root@,
    {
        TokioRepository { root }
    }

    pub fn root(&self) -> (r: &str)
        ensures
            r@ == self.spec_root(),
    {
        self.root.as_str()
    }

    /// The file at `path`, relative to the root.
    pub fn read_file(&self, path: &str) -> (r: TokioFile)
        ensures
            r.spec_path() == joined(self.spec_root(), path@),
    {
        TokioFile::new(join_path(self.root.as_str(), path))
    }

    /// Where the directory `path`, relative to the root, lies.
    pub fn dir_path(&self, path: &str) -> (r: String)
        ensures
            r@ == joined(self.spec_root(), path@),
    {
        join_path(self.root.as_str(), path)
    }
}

/// The canonical name of a dependency: its name and version joined by `+`,
/// which the name may not hold (`bazel_dep` refuses such a name).
pub open spec fn canonical_dep_name(name: Seq<char>, version: Seq<char>) -> Seq<char> {
    name + seq!['+'] + version
}

/// Distinct dependencies get distinct canonical names, as long as their
/// module names hold no `+`.
pub proof fn lemma_canonical_names_unique(
    n1: Seq<char>,
    v1: Seq<char>,
    n2: Seq<char>,
    v2: Seq<char>,
)
    requires
        !n1.contains('+'),
        !n2.contains('+'),
        canonical_dep_name(n1, v1) == canonical_dep_name(n2, v2),
    ensures
        n1 == n2,
        v1 == v2,
{
    let c = canonical_dep_name(n1, v1);
    if n1.len() < n2.len() {
        assert(c[n1.len() as int] == '+');
        assert(canonical_dep_name(n2, v2)[n1.len() as int] == n2[n1.len() as int]);
        assert(n2.contains('+'));
    } else if n2.len() < n1.len() {
        assert(canonical_dep_name(n2, v2)[n2.len() as int] == '+');
        assert(c[n2.len() as int] == n1[n2.len() as int]);
        assert(n1.contains('+'));
    }
    assert(n1 =~= c.subrange(0, n1.len() as int));
    assert(n2 =~= canonical_dep_name(n2, v2).subrange(0, n2.len() as int));
    assert(v1 =~= c.subrange(n1.len() as int + 1, c.len() as int));
    assert(v2 =~= canonical_dep_name(n2, v2).subrange(n2.len() as int + 1, c.len() as int));
}

pub fn canonical_repo_name(dep: &BazelDep) -> (r: CanonicalRepo)
    ensures
        r@ == canonical_dep_name(dep.name@, dep.version@),
{
    proof {
        reveal_strlit("+");
    }
    let mut out = dep.name.clone();
    out.append("+");
    out.append(dep.version.as_str());
    CanonicalRepo::new(out.as_str())
}

/// The canonical name that `deps` give the apparent name `k`: the last
/// dependency declared under it counts.
pub open spec fn deps_lookup(deps: Seq<BazelDep>, k: Seq<char>) -> Option<Seq<char>>
    decreases deps.len(),
{
    if deps.len() == 0 {
        None
    } else if deps.last().repo_name@ == k {
        Some(canonical_dep_name(deps.last().name@, deps.last().version@))
    } else {
        deps_lookup(deps.drop_last(), k)
    }
}

/// The canonical name that a table of (apparent, canonical) pairs gives
/// `k`: the last pair for it counts.
pub open spec fn table_lookup(m: Seq<(String, CanonicalRepo)>, k: Seq<char>) -> Option<Seq<char>>
    decreases m.len(),
{
    if m.len() == 0 {
        None
    } else if m.last().0@ == k {
        Some(m.last().1@)
    } else {
        table_lookup(m.drop_last(), k)
    }
}

/// A resolved repository: its canonical name, the name it calls itself,
/// and the canonical names of the dependencies it names.
#[derive(Debug)]
pub struct Repository {
    canonical_name: CanonicalRepo,
    repo_name: String,
    mapping: Vec<(String, CanonicalRepo)>,
}

impl Repository {
    pub closed spec fn spec_canonical_name(&self) -> Seq<char> {
        self.canonical_name@
    }

    pub closed spec fn spec_repo_name(&self) -> Seq<char> {
        self.repo_name@
    }

    /// The canonical name that this repository's mapping gives `k`.
    pub closed spec fn resolves(&self, k: Seq<char>) -> Option<Seq<char>> {
        table_lookup(self.mapping@, k)
    }

    /// The repository `canonical_name` whose module is `module`: it calls
    /// itself by the module's repository name and maps each dependency's
    /// repository name to the dependency's canonical name.
    pub fn from_module(canonical_name: CanonicalRepo, module: &Module) -> (r: Repository)
        ensures
            r.spec_canonical_name() == canonical_name@,
            r.spec_repo_name() == module.repo_name@,
            forall|k: Seq<char>| #[trigger]
                r.resolves(k) == deps_lookup(module.bazel_deps@, k),
    {
        let deps = &module.bazel_deps;
        let mut mapping: Vec<(String, CanonicalRepo)> = Vec::new();
        let mut i: usize = 0;
        while i < deps.len()
            invariant
                i <= deps@.len(),
                deps == &module.bazel_deps,
                forall|k: Seq<char>| #[trigger]
                    table_lookup(mapping@, k) == deps_lookup(deps@.subrange(0, i as int), k),
            decreases deps@.len() - i,
        {
            let ghost before = mapping@;
            let dep = &deps[i];
            let key = dep.repo_name.clone();
            let value = canonical_repo_name(dep);
            mapping.push((key, value));
            assert forall|k: Seq<char>| #[trigger]
                table_lookup(mapping@, k) == deps_lookup(deps@.subrange(0, i + 1), k) by {
                assert(mapping@.drop_last() =~= before);
                assert(deps@.subrange(0, i + 1).drop_last() =~= deps@.subrange(0, i as int));
                assert(deps@.subrange(0, i + 1).last() == deps@[i as int]);
                assert(mapping@.last().0@ == deps@[i as int].repo_name@);
                assert(table_lookup(before, k) == deps_lookup(deps@.subrange(0, i as int), k));
            }
            i += 1;
        }
        assert(deps@.subrange(0, deps@.len() as int) =~= deps@);
        Repository { canonical_name, repo_name: module.repo_name.clone(), mapping }
    }

    pub fn canonical_name(&self) -> (r: &CanonicalRepo)
        ensures
            r@ == self.spec_canonical_name(),
    {
        &self.canonical_name
    }

    /// The apparent name the repository calls itself.
    pub fn repo_name(&self) -> (r: &str)
        ensures
            r@ == self.spec_repo_name(),
    {
        self.repo_name.as_str()
    }

    /// The canonical name of the repository that this one calls `apparent`;
    /// `None` where it names no such dependency.
    pub fn lookup(&self, apparent: &str) -> (r: Option<CanonicalRepo>)
        ensures
            match self.resolves(apparent@) {
                Some(c) => r is Some && r.unwrap()@ == c,
                None => r is None,
            },
    {
        let mut j = self.mapping.len();
        assert(self.mapping@.subrange(0, j as int) =~= self.mapping@);
        while j > 0
            invariant
                j <= self.mapping@.len(),
                table_lookup(self.mapping@, apparent@) == table_lookup(
                    self.mapping@.subrange(0, j as int),
                    apparent@,
                ),
            decreases j,
        {
            let ghost pre = self.mapping@.subrange(0, j as int);
            assert(pre.drop_last() =~= self.mapping@.subrange(0, j - 1));
            if str_eq(self.mapping[j - 1].0.as_str(), apparent) {
                return Some(self.mapping[j - 1].1.duplicate());
            }
            j -= 1;
        }
        None
    }

    /// The package at `path`, given the names in its directory.
    pub fn read_package(&self, path: &str, entries: &Vec<String>) -> (r: Result<Package, FileError>)
        ensures
            ({
                let plain = has_name(entries@, "BUILD"@);
                let bazel = has_name(entries@, "BUILD.bazel"@);
                &&& plain && bazel ==> r == Err::<Package, FileError>(FileError::AlreadyExists)
                &&& !plain && !bazel ==> r == Err::<Package, FileError>(FileError::NotFound)
                &&& plain && !bazel ==> r is Ok && r.unwrap().path@ == path@
                    && r.unwrap().build_file@ == joined(path@, "BUILD"@)
                &&& bazel && !plain ==> r is Ok && r.unwrap().path@ == path@
                    && r.unwrap().build_file@ == joined(path@, "BUILD.bazel"@)
            }),
    {
        find_package(path, entries)
    }
}

} // verus!
