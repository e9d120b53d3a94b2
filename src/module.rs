//! The builder that the module-file evaluator fills, one declaration at a
//! time, and the rules on which declarations a module may make.
use vstd::prelude::*;

verus! {

/// Settings that change which declarations are accepted.
#[derive(Debug)]
pub struct Configuration {
    pub ignore_dev_dependency: bool,
}

impl Configuration {
    pub fn new() -> (r: Configuration)
        ensures
            !r.ignore_dev_dependency,
    {
        Configuration { ignore_dev_dependency: false }
    }
}

/// A dependency on another module.
#[derive(Clone, Debug, PartialEq, Eq)]
pub struct BazelDep {
    pub name: String,
    pub version: String,
    /// The apparent name under which the dependency is seen; defaults to `name`.
    pub repo_name: String,
}

/// The override declarations, each recorded by module name.
#[derive(Clone, Copy, Debug, PartialEq, Eq, Structural)]
pub enum Override {
    Archive,
    Git,
    LocalPath,
    SingleVersion,
    MultipleVersion,
}

/// Declarations whose semantics this crate does not carry out.
#[derive(Clone, Copy, Debug, PartialEq, Eq, Structural)]
pub enum Extension {
    UseExtension,
    UseRepo,
    UseRepoRule,
    InjectRepo,
    OverrideRepo,
    RegisterToolchains,
    RegisterExecutionPlatforms,
}

/// Why a module's configuration was refused.
#[derive(Clone, Debug, PartialEq, Eq)]
pub enum ModuleError {
    /// `module()` was called a second time.
    ModuleDeclaredTwice,
    /// `repo()` was called a second time.
    RepoDeclaredTwice,
    /// `module()` never gave a name.
    MissingName,
    /// `module()` never gave a version.
    MissingVersion,
    /// A dependency whose module name holds `+`, which separates the name
    /// from the version in canonical repository names.
    InvalidDependencyName,
    /// An override outside the root module.
    OverrideOutsideRoot(Override),
    /// A declaration that applies here and is not carried out.
    Unimplemented(Extension),
}

pub open spec fn override_name(o: Override) -> Seq<char> {
    match o {
        Override::Archive => "archive_override"@,
        Override::Git => "git_override"@,
        Override::LocalPath => "local_path_override"@,
        Override::SingleVersion => "single_version_override"@,
        Override::MultipleVersion => "multiple_version_override"@,
    }
}

pub open spec fn extension_name(e: Extension) -> Seq<char> {
    match e {
        Extension::UseExtension => "use_extension"@,
        Extension::UseRepo => "use_repo"@,
        Extension::UseRepoRule => "use_repo_rule"@,
        Extension::InjectRepo => "inject_repo"@,
        Extension::OverrideRepo => "override_repo"@,
        Extension::RegisterToolchains => "register_toolchains"@,
        Extension::RegisterExecutionPlatforms => "register_execution_platforms"@,
    }
}

pub open spec fn module_error_text(e: ModuleError) -> Seq<char> {
    match e {
        ModuleError::ModuleDeclaredTwice => "module() can only be called once"@,
        ModuleError::RepoDeclaredTwice => "repo() can only be called once"@,
        ModuleError::MissingName => "Module name is required"@,
        ModuleError::MissingVersion => "Module version is required"@,
        ModuleError::InvalidDependencyName => "bazel_dep() name may not contain '+'"@,
        ModuleError::OverrideOutsideRoot(o) => override_name(o)
            + "() may only be called from the root module"@,
        ModuleError::Unimplemented(x) => extension_name(x) + "() is not implemented"@,
    }
}

impl Override {
    pub fn name(&self) -> (r: String)
        ensures
            r@ == override_name(*self),
    {
        match self {
            Override::Archive => "archive_override".to_owned(),
            Override::Git => "git_override".to_owned(),
            Override::LocalPath => "local_path_override".to_owned(),
            Override::SingleVersion => "single_version_override".to_owned(),
            Override::MultipleVersion => "multiple_version_override".to_owned(),
        }
    }
}

impl Extension {
    pub fn name(&self) -> (r: String)
        ensures
            r@ == extension_name(*self),
    {
        match self {
            Extension::UseExtension => "use_extension".to_owned(),
            Extension::UseRepo => "use_repo".to_owned(),
            Extension::UseRepoRule => "use_repo_rule".to_owned(),
            Extension::InjectRepo => "inject_repo".to_owned(),
            Extension::OverrideRepo => "override_repo".to_owned(),
            Extension::RegisterToolchains => "register_toolchains".to_owned(),
            Extension::RegisterExecutionPlatforms => "register_execution_platforms".to_owned(),
        }
    }
}

impl ModuleError {
    /// The message shown to the user.
    pub fn to_string(&self) -> (r: String)
        ensures
            r@ == module_error_text(*self),
    {
        match self {
            ModuleError::ModuleDeclaredTwice => "module() can only be called once".to_owned(),
            ModuleError::RepoDeclaredTwice => "repo() can only be called once".to_owned(),
            ModuleError::MissingName => "Module name is required".to_owned(),
            ModuleError::MissingVersion => "Module version is required".to_owned(),
            ModuleError::InvalidDependencyName => "bazel_dep() name may not contain '+'".to_owned(),
            ModuleError::OverrideOutsideRoot(o) => {
                let mut out = o.name();
                out.append("() may only be called from the root module");
                out
            },
            ModuleError::Unimplemented(x) => {
                let mut out = x.name();
                out.append("() is not implemented");
                out
            },
        }
    }
}

/// What one module file (and the files it includes) declared so far.
#[derive(Debug)]
pub struct ModuleBuilder {
    pub is_root_module: bool,
    pub ignore_dev_dependency: bool,
    pub name: Option<String>,
    pub version: Option<String>,
    pub repo_name: Option<String>,
    pub bazel_deps: Vec<BazelDep>,
    pub archive_overrides: Vec<String>,
    pub git_overrides: Vec<String>,
    pub local_path_overrides: Vec<String>,
    pub single_version_overrides: Vec<String>,
    pub multiple_version_overrides: Vec<String>,
    pub includes: Vec<String>,
}

fn has_plus(s: &str) -> (r: bool)
    ensures
        r == s@.contains('+'),
{
    let n = s.unicode_len();
    let mut i: usize = 0;
    while i < n
        invariant
            n == s@.len(),
            i <= n,
            forall|j: int| 0 <= j < i ==> s@[j] != '+',
        decreases n - i,
    {
        if s.get_char(i) == '+' {
            assert(s@[i as int] == '+');
            return true;
        }
        i += 1;
    }
    false
}

/// A dependency declared with `dev_dependency` is kept by the root module,
/// and by any module while development dependencies are not ignored.
pub open spec fn records_dependency(b: ModuleBuilder, dev_dependency: bool) -> bool {
    b.is_root_module || !dev_dependency || !b.ignore_dev_dependency
}

/// Whether a declaration of `x` applies to this module (and so must be
/// carried out) rather than being ignored.
pub open spec fn extension_applies(b: ModuleBuilder, x: Extension, dev_dependency: bool) -> bool {
    match x {
        Extension::UseExtension | Extension::RegisterToolchains
        | Extension::RegisterExecutionPlatforms => records_dependency(b, dev_dependency),
        Extension::InjectRepo | Extension::OverrideRepo => b.is_root_module
            && !b.ignore_dev_dependency,
        Extension::UseRepo | Extension::UseRepoRule => true,
    }
}

impl ModuleBuilder {
    pub open spec fn is_empty(&self) -> bool {
        &&& self.name is None
        &&& self.version is None
        &&& self.repo_name is None
        &&& self.bazel_deps@.len() == 0
        &&& self.archive_overrides@.len() == 0
        &&& self.git_overrides@.len() == 0
        &&& self.local_path_overrides@.len() == 0
        &&& self.single_version_overrides@.len() == 0
        &&& self.multiple_version_overrides@.len() == 0
        &&& self.includes@.len() == 0
    }

    /// `self` and `other` agree on everything that `merge` does not touch.
    pub open spec fn same_identity(&self, other: &ModuleBuilder) -> bool {
        &&& self.is_root_module == other.is_root_module
        &&& self.ignore_dev_dependency == other.ignore_dev_dependency
        &&& self.name == other.name
        &&& self.version == other.version
        &&& self.repo_name == other.repo_name
    }

    /// The lists of `self` followed by those of `other`.
    pub open spec fn appended(&self, other: &ModuleBuilder, r: &ModuleBuilder) -> bool {
        &&& r.bazel_deps@ == self.bazel_deps@ + other.bazel_deps@
        &&& r.archive_overrides@ == self.archive_overrides@ + other.archive_overrides@
        &&& r.git_overrides@ == self.git_overrides@ + other.git_overrides@
        &&& r.local_path_overrides@ == self.local_path_overrides@ + other.local_path_overrides@
        &&& r.single_version_overrides@ == self.single_version_overrides@
            + other.single_version_overrides@
        &&& r.multiple_version_overrides@ == self.multiple_version_overrides@
            + other.multiple_version_overrides@
        &&& r.includes@ == self.includes@ + other.includes@
    }

    /// An empty builder for a module that is or is not the root module.
    pub fn new(is_root_module: bool) -> (r: ModuleBuilder)
        ensures
            r.is_empty(),
            r.is_root_module == is_root_module,
            !r.ignore_dev_dependency,
    {
        ModuleBuilder {
            is_root_module,
            ignore_dev_dependency: false,
            name: None,
            version: None,
            repo_name: None,
            bazel_deps: Vec::new(),
            archive_overrides: Vec::new(),
            git_overrides: Vec::new(),
            local_path_overrides: Vec::new(),
            single_version_overrides: Vec::new(),
            multiple_version_overrides: Vec::new(),
            includes: Vec::new(),
        }
    }

    /// Appends every declaration list of `other` to this one; the module's
    /// identity and flags stay as they are.
    pub fn merge(&mut self, other: ModuleBuilder)
        ensures
            final(self).same_identity(old(self)),
            old(self).appended(&other, final(self)),
    {
        let ModuleBuilder {
            bazel_deps: mut deps,
            archive_overrides: mut archive,
            git_overrides: mut git,
            local_path_overrides: mut local,
            single_version_overrides: mut single,
            multiple_version_overrides: mut multiple,
            includes: mut includes,
            ..
        } = other;
        self.bazel_deps.append(&mut deps);
        self.archive_overrides.append(&mut archive);
        self.git_overrides.append(&mut git);
        self.local_path_overrides.append(&mut local);
        self.single_version_overrides.append(&mut single);
        self.multiple_version_overrides.append(&mut multiple);
        self.includes.append(&mut includes);
    }

    /// `module(name, version, repo_name)`: declares the module's identity,
    /// at most once.
    pub fn declare_module(&mut self, name: String, version: String, repo_name: Option<String>) -> (r:
        Result<(), ModuleError>)
        ensures
            old(self).name is Some ==> r == Err::<(), ModuleError>(ModuleError::ModuleDeclaredTwice)
                && *final(self) == *old(self),
            old(self).name is None ==> r is Ok && *final(self) == (ModuleBuilder {
                name: Some(name),
                version: Some(version),
                repo_name: repo_name,
                ..*old(self)
            }),
    {
        if self.name.is_some() {
            return Err(ModuleError::ModuleDeclaredTwice);
        }
        self.name = Some(name);
        self.version = Some(version);
        self.repo_name = repo_name;
        Ok(())
    }

    /// `bazel_dep(name, version, repo_name, dev_dependency)`: refuses a name
    /// holding `+`; otherwise records the dependency where
    /// `records_dependency` holds, under `repo_name` or, where that is absent
    /// or empty, under its own name.
    pub fn bazel_dep(
        &mut self,
        name: String,
        version: String,
        repo_name: Option<String>,
        dev_dependency: bool,
    ) -> (r: Result<(), ModuleError>)
        ensures
            name@.contains('+') ==> r == Err::<(), ModuleError>(
                ModuleError::InvalidDependencyName,
            ) && *final(self) == *old(self),
            !name@.contains('+') ==> r is Ok,
            !name@.contains('+') && records_dependency(*old(self), dev_dependency) ==> *final(self)
                == (ModuleBuilder { bazel_deps: final(self).bazel_deps, ..*old(self) })
                && final(self).bazel_deps@ == old(self).bazel_deps@.push(
                BazelDep {
                    name: name,
                    version: version,
                    repo_name: match repo_name {
                        Some(r) => if r@.len() > 0 {
                            r
                        } else {
                            name
                        },
                        None => name,
                    },
                },
            ),
            !records_dependency(*old(self), dev_dependency) ==> *final(self) == *old(self),
    {
        if has_plus(name.as_str()) {
            return Err(ModuleError::InvalidDependencyName);
        }
        if self.is_root_module || !dev_dependency || !self.ignore_dev_dependency {
            let repo_name = match repo_name {
                Some(r) => if r.as_str().unicode_len() > 0 {
                    r
                } else {
                    name.clone()
                },
                None => name.clone(),
            };
            self.bazel_deps.push(BazelDep { name, version, repo_name });
        }
        Ok(())
    }

    /// Another file whose declarations join this module, as named by the
    /// configuration statement of that name.
    pub fn add_include(&mut self, label: String)
        ensures
            *final(self) == (ModuleBuilder { includes: final(self).includes, ..*old(self) }),
            final(self).includes@ == old(self).includes@.push(label),
    {
        self.includes.push(label);
    }

    /// An override of `module_name`, which only the root module may make.
    pub fn add_override(&mut self, kind: Override, module_name: String) -> (r: Result<
        (),
        ModuleError,
    >)
        ensures
            !old(self).is_root_module ==> r == Err::<(), ModuleError>(
                ModuleError::OverrideOutsideRoot(kind),
            ) && *final(self) == *old(self),
            old(self).is_root_module ==> r is Ok && match kind {
                Override::Archive => *final(self) == (ModuleBuilder {
                    archive_overrides: final(self).archive_overrides,
                    ..*old(self)
                }) && final(self).archive_overrides@ == old(self).archive_overrides@.push(
                    module_name,
                ),
                Override::Git => *final(self) == (ModuleBuilder {
                    git_overrides: final(self).git_overrides,
                    ..*old(self)
                }) && final(self).git_overrides@ == old(self).git_overrides@.push(module_name),
                Override::LocalPath => *final(self) == (ModuleBuilder {
                    local_path_overrides: final(self).local_path_overrides,
                    ..*old(self)
                }) && final(self).local_path_overrides@ == old(self).local_path_overrides@.push(
                    module_name,
                ),
                Override::SingleVersion => *final(self) == (ModuleBuilder {
                    single_version_overrides: final(self).single_version_overrides,
                    ..*old(self)
                }) && final(self).single_version_overrides@
                    == old(self).single_version_overrides@.push(module_name),
                Override::MultipleVersion => *final(self) == (ModuleBuilder {
                    multiple_version_overrides: final(self).multiple_version_overrides,
                    ..*old(self)
                }) && final(self).multiple_version_overrides@
                    == old(self).multiple_version_overrides@.push(module_name),
            },
    {
        if !self.is_root_module {
            return Err(ModuleError::OverrideOutsideRoot(kind));
        }
        match kind {
            Override::Archive => self.archive_overrides.push(module_name),
            Override::Git => self.git_overrides.push(module_name),
            Override::LocalPath => self.local_path_overrides.push(module_name),
            Override::SingleVersion => self.single_version_overrides.push(module_name),
            Override::MultipleVersion => self.multiple_version_overrides.push(module_name),
        }
        Ok(())
    }

    /// A declaration that this crate does not carry out: ignored where it
    /// does not apply to this module, refused loudly where it does.
    pub fn extension(&self, x: Extension, dev_dependency: bool) -> (r: Result<(), ModuleError>)
        ensures
            extension_applies(*self, x, dev_dependency) ==> r == Err::<(), ModuleError>(
                ModuleError::Unimplemented(x),
            ),
            !extension_applies(*self, x, dev_dependency) ==> r is Ok,
    {
        let applies = match x {
            Extension::UseExtension | Extension::RegisterToolchains
            | Extension::RegisterExecutionPlatforms => self.is_root_module || !dev_dependency
                || !self.ignore_dev_dependency,
            Extension::InjectRepo | Extension::OverrideRepo => self.is_root_module
                && !self.ignore_dev_dependency,
            Extension::UseRepo | Extension::UseRepoRule => true,
        };
        if applies {
            Err(ModuleError::Unimplemented(x))
        } else {
            Ok(())
        }
    }
}

/// The declaration lists of two builders are equal.
pub open spec fn same_lists(x: ModuleBuilder, y: ModuleBuilder) -> bool {
    &&& x.bazel_deps@ == y.bazel_deps@
    &&& x.archive_overrides@ == y.archive_overrides@
    &&& x.git_overrides@ == y.git_overrides@
    &&& x.local_path_overrides@ == y.local_path_overrides@
    &&& x.single_version_overrides@ == y.single_version_overrides@
    &&& x.multiple_version_overrides@ == y.multiple_version_overrides@
    &&& x.includes@ == y.includes@
}

/// Merging is associative: merging `c` into the merge of `a` and `b` gives
/// the same declarations as merging the merge of `b` and `c` into `a`.
pub proof fn lemma_merge_associative(
    a: ModuleBuilder,
    b: ModuleBuilder,
    c: ModuleBuilder,
    ab: ModuleBuilder,
    ab_c: ModuleBuilder,
    bc: ModuleBuilder,
    a_bc: ModuleBuilder,
)
    requires
        a.appended(&b, &ab),
        ab.appended(&c, &ab_c),
        b.appended(&c, &bc),
        a.appended(&bc, &a_bc),
    ensures
        same_lists(ab_c, a_bc),
{
    assert(ab_c.bazel_deps@ =~= a_bc.bazel_deps@);
    assert(ab_c.archive_overrides@ =~= a_bc.archive_overrides@);
    assert(ab_c.git_overrides@ =~= a_bc.git_overrides@);
    assert(ab_c.local_path_overrides@ =~= a_bc.local_path_overrides@);
    assert(ab_c.single_version_overrides@ =~= a_bc.single_version_overrides@);
    assert(ab_c.multiple_version_overrides@ =~= a_bc.multiple_version_overrides@);
    assert(ab_c.includes@ =~= a_bc.includes@);
}

/// The state handed to the evaluator of one module file.
#[derive(Debug)]
pub struct ModuleExtra {
    builder: ModuleBuilder,
}

impl ModuleExtra {
    pub closed spec fn spec_builder(&self) -> ModuleBuilder {
        self.builder
    }

    /// For a module that is not the root module.
    pub fn new() -> (r: ModuleExtra)
        ensures
            r.spec_builder().is_empty(),
            !r.spec_builder().is_root_module,
            !r.spec_builder().ignore_dev_dependency,
    {
        ModuleExtra { builder: ModuleBuilder::new(false) }
    }

    /// For the root module.
    pub fn new_root() -> (r: ModuleExtra)
        ensures
            r.spec_builder().is_empty(),
            r.spec_builder().is_root_module,
            !r.spec_builder().ignore_dev_dependency,
    {
        ModuleExtra { builder: ModuleBuilder::new(true) }
    }

    pub fn with_ignore_dev_dependency(self, ignore_dev_dependency: bool) -> (r: ModuleExtra)
        ensures
            r.spec_builder() == (ModuleBuilder { ignore_dev_dependency, ..self.spec_builder() }),
    {
        let mut builder = self.builder;
        builder.ignore_dev_dependency = ignore_dev_dependency;
        ModuleExtra { builder }
    }

    pub fn builder(&self) -> (r: &ModuleBuilder)
        ensures
            *r == self.spec_builder(),
    {
        &self.builder
    }

    pub fn into_inner(self) -> (r: ModuleBuilder)
        ensures
            r == self.spec_builder(),
    {
        self.builder
    }
}

/// What a repository boundary file declared.
#[derive(Debug)]
pub struct RepoBuilder {
    pub default_metadata: Option<Vec<(String, String)>>,
    pub ignore_directories: Vec<String>,
}

impl RepoBuilder {
    /// `repo(**kwargs)`: the repository's default metadata, at most once.
    pub fn declare_repo(&mut self, metadata: Vec<(String, String)>) -> (r: Result<(), ModuleError>)
        ensures
            old(self).default_metadata is Some ==> r == Err::<(), ModuleError>(
                ModuleError::RepoDeclaredTwice,
            ) && *final(self) == *old(self),
            old(self).default_metadata is None ==> r is Ok && *final(self) == (RepoBuilder {
                default_metadata: Some(metadata),
                ..*old(self)
            }),
    {
        if self.default_metadata.is_some() {
            return Err(ModuleError::RepoDeclaredTwice);
        }
        self.default_metadata = Some(metadata);
        Ok(())
    }

    /// `ignore_directories(dirs)`: appends to the ignored directories.
    pub fn ignore_directories(&mut self, dirs: Vec<String>)
        ensures
            final(self).default_metadata == old(self).default_metadata,
            final(self).ignore_directories@ == old(self).ignore_directories@ + dirs@,
    {
        let mut dirs = dirs;
        self.ignore_directories.append(&mut dirs);
    }
}

/// The state handed to the evaluator of a repository boundary file.
#[derive(Debug)]
pub struct RepoExtra {
    builder: RepoBuilder,
}

impl RepoExtra {
    pub closed spec fn spec_builder(&self) -> RepoBuilder {
        self.builder
    }

    pub fn new() -> (r: RepoExtra)
        ensures
            r.spec_builder().default_metadata is None,
            r.spec_builder().ignore_directories@.len() == 0,
    {
        RepoExtra { builder: RepoBuilder { default_metadata: None, ignore_directories: Vec::new() } }
    }

    pub fn builder(&self) -> (r: &RepoBuilder)
        ensures
            *r == self.spec_builder(),
    {
        &self.builder
    }

    pub fn into_inner(self) -> (r: RepoBuilder)
        ensures
            r == self.spec_builder(),
    {
        self.builder
    }
}

} // verus!
