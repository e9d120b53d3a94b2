//! The merged result of a module file, and the bookkeeping of merging the
//! files that it includes.
use vstd::prelude::*;
use crate::module::{BazelDep, ModuleBuilder, ModuleError};
use crate::path::{joined, join_path, parent_dir, parent_of};

verus! {

/// A module file with its included files merged in.
#[derive(Debug)]
pub struct Module {
    pub name: String,
    pub version: String,
    pub repo_name: String,
    pub bazel_deps: Vec<BazelDep>,
    pub archive_overrides: Vec<String>,
    pub git_overrides: Vec<String>,
    pub local_path_overrides: Vec<String>,
    pub single_version_overrides: Vec<String>,
    pub multiple_version_overrides: Vec<String>,
}

/// The module a finished builder stands for: it needs a name and a version;
/// the repository name defaults to the module name where none or an empty
/// one was given.
pub open spec fn module_from(b: ModuleBuilder) -> Result<Module, ModuleError> {
    match b.name {
        None => Err(ModuleError::MissingName),
        Some(name) => match b.version {
            None => Err(ModuleError::MissingVersion),
            Some(version) => Ok(
                Module {
                    name,
                    version,
                    repo_name: match b.repo_name {
                        Some(r) => if r@.len() > 0 {
                            r
                        } else {
                            name
                        },
                        None => name,
                    },
                    bazel_deps: b.bazel_deps,
                    archive_overrides: b.archive_overrides,
                    git_overrides: b.git_overrides,
                    local_path_overrides: b.local_path_overrides,
                    single_version_overrides: b.single_version_overrides,
                    multiple_version_overrides: b.multiple_version_overrides,
                },
            ),
        },
    }
}

impl Module {
    /// The module of a finished builder; fails where `module()` gave no
    /// name or no version.
    pub fn try_from(value: ModuleBuilder) -> (r: Result<Module, ModuleError>)
        ensures
            r == module_from(value),
    {
        let ModuleBuilder {
            name,
            version,
            repo_name,
            bazel_deps,
            archive_overrides,
            git_overrides,
            local_path_overrides,
            single_version_overrides,
            multiple_version_overrides,
            ..
        } = value;
        let name = match name {
            Some(n) => n,
            None => return Err(ModuleError::MissingName),
        };
        let version = match version {
            Some(v) => v,
            None => return Err(ModuleError::MissingVersion),
        };
        let repo_name = match repo_name {
            Some(r) => if r.as_str().unicode_len() > 0 {
                r
            } else {
                name.clone()
            },
            None => name.clone(),
        };
        Ok(
            Module {
                name,
                version,
                repo_name,
                bazel_deps,
                archive_overrides,
                git_overrides,
                local_path_overrides,
                single_version_overrides,
                multiple_version_overrides,
            },
        )
    }
}

/// Merging one module file with the files it includes, in whatever order
/// they are taken from the queue. The caller evaluates each file that
/// `next_include` names and hands the result to `add_include`.
#[derive(Debug)]
pub struct ModuleEvaluation {
    dir: String,
    merged: ModuleBuilder,
    pending: Vec<String>,
}

impl ModuleEvaluation {
    /// The directory against which included paths are resolved.
    pub closed spec fn dir(&self) -> Seq<char> {
        self.dir@
    }

    /// What has been merged so far.
    pub closed spec fn merged(&self) -> ModuleBuilder {
        self.merged
    }

    /// Included files not evaluated yet; the last is taken first.
    pub closed spec fn pending(&self) -> Seq<String> {
        self.pending@
    }

    /// Starts from the builder of the entry file at `entry_path`.
    pub fn new(entry_path: &str, entry: ModuleBuilder) -> (r: ModuleEvaluation)
        ensures
            r.merged() == entry,
            r.pending() == entry.includes@,
            r.dir() == match parent_of(entry_path@) {
                Some(d) => d,
                None => Seq::empty(),
            },
    {
        let dir = match parent_dir(entry_path) {
            Some(d) => d,
            None => String::new(),
        };
        let pending = entry.includes.clone();
        assert(pending@ =~= entry.includes@);
        ModuleEvaluation { dir, merged: entry, pending }
    }

    /// The path of the next file to evaluate, resolved against the entry
    /// file's directory, or `None` when all are done.
    pub fn next_include(&mut self) -> (r: Option<String>)
        ensures
            final(self).merged() == old(self).merged(),
            final(self).dir() == old(self).dir(),
            old(self).pending().len() == 0 ==> r is None && final(self).pending() == old(
                self,
            ).pending(),
            old(self).pending().len() > 0 ==> (r matches Some(p) && p@ == joined(
                old(self).dir(),
                old(self).pending().last()@,
            )) && final(self).pending() == old(self).pending().drop_last(),
    {
        match self.pending.pop() {
            Some(rel) => Some(join_path(self.dir.as_str(), rel.as_str())),
            None => None,
        }
    }

    /// Merges the builder of an included file; the files it includes in
    /// turn join the queue.
    pub fn add_include(&mut self, sub: ModuleBuilder)
        ensures
            final(self).dir() == old(self).dir(),
            final(self).pending() == old(self).pending() + sub.includes@,
            final(self).merged().same_identity(&old(self).merged()),
            old(self).merged().appended(&sub, &final(self).merged()),
    {
        let more = sub.includes.clone();
        assert(more@ =~= sub.includes@);
        let mut more = more;
        self.pending.append(&mut more);
        self.merged.merge(sub);
    }

    /// The merged module.
    pub fn finish(self) -> (r: Result<Module, ModuleError>)
        ensures
            r == module_from(self.merged()),
    {
        Module::try_from(self.merged)
    }
}

} // verus!
