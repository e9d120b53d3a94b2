use razel::bzlmod::{Module, ModuleEvaluation};
use razel::label::RepoRef;
use razel::module::{
    Configuration, Extension, ModuleBuilder, ModuleError, ModuleExtra, Override, RepoExtra,
};
use razel::package::{build_file_name, find_package, FileError, InMemoryFileStore};
use razel::path::{join_path, parent_dir};
use razel::registry::{EntryState, Outcome, Registry};
use razel::repo::{canonical_repo_name, Repository, TokioFile, TokioRepository};
use razel::shared_error::{EvalError, SharedError};
use razel::workspace::Workspace;
use std::sync::Arc;

fn names(v: &[&str]) -> Vec<String> {
    v.iter().map(|s| s.to_string()).collect()
}

fn root_module_m() -> Module {
    let mut b = ModuleExtra::new_root().into_inner();
    b.declare_module("m".to_string(), "1.0".to_string(), None).unwrap();
    b.bazel_dep("dep".to_string(), "2.0".to_string(), Some("d".to_string()), false).unwrap();
    Module::try_from(b).unwrap()
}

#[test]
fn end_to_end_main_repository() {
    let module = root_module_m();
    assert_eq!(module.name, "m");
    assert_eq!(module.version, "1.0");
    assert_eq!(module.repo_name, "m");
    let ws = Workspace::new("/w/sub", |d: String| d == "/w").unwrap();
    assert_eq!(ws.path(), "/w");
    assert!(matches!(ws.registry.get(""), Some(EntryState::Pending)));
    let main = Repository::from_module(razel::label::main_repo(), &module);
    assert_eq!(main.canonical_name().to_string(), "@@");
    assert_eq!(main.repo_name(), "m");
    assert_eq!(main.lookup("d").unwrap().to_string(), "@@dep+2.0");
    assert_eq!(main.lookup("dep"), None);
}

#[test]
fn module_declared_twice_is_refused() {
    let mut b = ModuleBuilder::new(true);
    assert!(b.declare_module("a".to_string(), "1".to_string(), None).is_ok());
    let e = b.declare_module("b".to_string(), "2".to_string(), None).unwrap_err();
    assert_eq!(e, ModuleError::ModuleDeclaredTwice);
    assert_eq!(e.to_string(), "module() can only be called once");
    assert_eq!(b.name.as_deref(), Some("a"));
}

#[test]
fn module_needs_name_and_version() {
    let b = ModuleBuilder::new(true);
    assert_eq!(Module::try_from(b).unwrap_err(), ModuleError::MissingName);
    let mut b = ModuleBuilder::new(true);
    b.name = Some("x".to_string());
    let e = Module::try_from(b).unwrap_err();
    assert_eq!(e, ModuleError::MissingVersion);
    assert_eq!(e.to_string(), "Module version is required");
}

#[test]
fn repo_name_given_or_defaulted() {
    let mut b = ModuleBuilder::new(false);
    b.declare_module("x".to_string(), "3".to_string(), Some("y".to_string())).unwrap();
    assert_eq!(Module::try_from(b).unwrap().repo_name, "y");
}

#[test]
fn dev_dependencies_follow_root_and_ignore_flags() {
    let mut root = ModuleExtra::new_root().with_ignore_dev_dependency(true).into_inner();
    root.bazel_dep("a".to_string(), "1".to_string(), None, true).unwrap();
    assert_eq!(root.bazel_deps.len(), 1);
    assert_eq!(root.bazel_deps[0].repo_name, "a");

    let mut other = ModuleExtra::new().with_ignore_dev_dependency(true).into_inner();
    other.bazel_dep("a".to_string(), "1".to_string(), None, true).unwrap();
    assert_eq!(other.bazel_deps.len(), 0);
    other.bazel_dep("b".to_string(), "1".to_string(), None, false).unwrap();
    assert_eq!(other.bazel_deps.len(), 1);

    let mut kept = ModuleExtra::new().into_inner();
    kept.bazel_dep("a".to_string(), "1".to_string(), None, true).unwrap();
    assert_eq!(kept.bazel_deps.len(), 1);
    assert!(!Configuration::new().ignore_dev_dependency);
}

#[test]
fn overrides_only_in_root_module() {
    let mut root = ModuleBuilder::new(true);
    assert!(root.add_override(Override::Git, "g".to_string()).is_ok());
    assert!(root.add_override(Override::SingleVersion, "s".to_string()).is_ok());
    assert_eq!(root.git_overrides, names(&["g"]));
    assert_eq!(root.single_version_overrides, names(&["s"]));
    let mut other = ModuleBuilder::new(false);
    let e = other.add_override(Override::Archive, "a".to_string()).unwrap_err();
    assert_eq!(e, ModuleError::OverrideOutsideRoot(Override::Archive));
    assert_eq!(e.to_string(), "archive_override() may only be called from the root module");
    assert!(other.archive_overrides.is_empty());
}

#[test]
fn extension_statements_fail_loudly_where_they_apply() {
    let root = ModuleBuilder::new(true);
    let e = root.extension(Extension::UseExtension, false).unwrap_err();
    assert_eq!(e.to_string(), "use_extension() is not implemented");
    assert!(root.extension(Extension::UseRepo, false).is_err());
    let other = ModuleExtra::new().with_ignore_dev_dependency(true).into_inner();
    assert!(other.extension(Extension::RegisterToolchains, true).is_ok());
    assert!(other.extension(Extension::InjectRepo, false).is_ok());
    assert!(other.extension(Extension::RegisterToolchains, false).is_err());
}

#[test]
fn merge_appends_lists_and_keeps_identity() {
    let mut a = ModuleBuilder::new(true);
    a.declare_module("a".to_string(), "1".to_string(), None).unwrap();
    a.bazel_dep("x".to_string(), "1".to_string(), None, false).unwrap();
    a.add_include("one.MODULE.bazel".to_string());
    let mut b = ModuleBuilder::new(true);
    b.declare_module("b".to_string(), "2".to_string(), None).unwrap();
    b.bazel_dep("y".to_string(), "2".to_string(), None, false).unwrap();
    b.add_include("two.MODULE.bazel".to_string());
    a.merge(b);
    assert_eq!(a.name.as_deref(), Some("a"));
    assert_eq!(a.bazel_deps.len(), 2);
    assert_eq!(a.bazel_deps[1].name, "y");
    assert_eq!(a.includes, names(&["one.MODULE.bazel", "two.MODULE.bazel"]));
}

#[test]
fn includes_are_resolved_and_merged() {
    let mut entry = ModuleBuilder::new(true);
    entry.declare_module("m".to_string(), "1".to_string(), None).unwrap();
    entry.add_include("a.MODULE.bazel".to_string());
    let mut ev = ModuleEvaluation::new("/w/MODULE.bazel", entry);
    assert_eq!(ev.next_include().as_deref(), Some("/w/a.MODULE.bazel"));
    let mut sub = ModuleBuilder::new(true);
    sub.bazel_dep("z".to_string(), "9".to_string(), None, false).unwrap();
    sub.add_include("sub/b.MODULE.bazel".to_string());
    ev.add_include(sub);
    assert_eq!(ev.next_include().as_deref(), Some("/w/sub/b.MODULE.bazel"));
    ev.add_include(ModuleBuilder::new(true));
    assert_eq!(ev.next_include(), None);
    let m = ev.finish().unwrap();
    assert_eq!(m.bazel_deps.len(), 1);
    assert_eq!(m.bazel_deps[0].name, "z");
}

#[test]
fn package_resolution_policy() {
    assert_eq!(
        build_file_name(&names(&["BUILD", "BUILD.bazel", "x"])),
        Err(FileError::AlreadyExists)
    );
    assert_eq!(build_file_name(&names(&["x", "y"])), Err(FileError::NotFound));
    assert_eq!(build_file_name(&names(&["BUILD"])).unwrap(), "BUILD");
    let p = find_package("my/pkg", &names(&["src", "BUILD.bazel"])).unwrap();
    assert_eq!(p.path, "my/pkg");
    assert_eq!(p.build_file, "my/pkg/BUILD.bazel");
    let repo = Repository::from_module(razel::label::main_repo(), &root_module_m());
    assert_eq!(repo.read_package("", &names(&[])), Err(FileError::NotFound));
    assert_eq!(repo.read_package("", &names(&["BUILD"])).unwrap().build_file, "BUILD");
}

#[test]
fn in_memory_store_reads_files_and_directories() {
    let store = InMemoryFileStore::new(vec![
        ("a/b.txt".to_string(), b"hello".to_vec()),
        ("a/c/d.txt".to_string(), vec![]),
        ("a/c/e.txt".to_string(), vec![1]),
        ("top".to_string(), vec![2, 3]),
    ]);
    let f = store.read_file("a/b.txt").unwrap();
    assert_eq!(f.open(), b"hello".to_vec());
    assert_eq!(f.size(), 5);
    assert!(matches!(store.read_file("nope"), Err(FileError::NotFound)));
    assert_eq!(store.read_dir("a"), names(&["b.txt", "c"]));
    assert_eq!(store.read_dir("a/"), names(&["b.txt", "c"]));
    assert_eq!(store.read_dir(""), names(&["a", "top"]));
    assert!(store.read_dir("missing").is_empty());
}

#[test]
fn single_evaluation_per_canonical_name() {
    let mut reg = Registry::new();
    let outcomes: Vec<Outcome> = (0..4).map(|_| reg.request("dep+2.0")).collect();
    assert_eq!(outcomes, vec![Outcome::Start, Outcome::Wait, Outcome::Wait, Outcome::Wait]);
    let err = SharedError::from(EvalError::NotFound("MODULE.bazel".to_string()));
    reg.complete("dep+2.0", Err(err));
    assert_eq!(reg.request("dep+2.0"), Outcome::Failed);
    assert_eq!(reg.request("dep+2.0"), Outcome::Failed);
    let a = match reg.get("dep+2.0") {
        Some(EntryState::Failed(e)) => e.clone(),
        _ => panic!("expected a failure"),
    };
    let b = match reg.get("dep+2.0") {
        Some(EntryState::Failed(e)) => e.clone(),
        _ => panic!("expected a failure"),
    };
    assert!(Arc::ptr_eq(&a.0, &b.0));
    assert_eq!(a.to_string(), "not found: MODULE.bazel");
}

#[test]
fn registered_names_start_once() {
    let mut reg = Registry::new();
    assert!(reg.register("x"));
    assert!(!reg.register("x"));
    assert_eq!(reg.request("x"), Outcome::Start);
    assert_eq!(reg.request("x"), Outcome::Wait);
    let repo = Arc::new(Repository::from_module(razel::label::main_repo(), &root_module_m()));
    reg.complete("x", Ok(repo.clone()));
    assert_eq!(reg.request("x"), Outcome::Ready);
    match reg.get("x") {
        Some(EntryState::Resolved(r)) => assert!(Arc::ptr_eq(r, &repo)),
        _ => panic!("expected a repository"),
    }
    assert!(reg.get("y").is_none());
}

#[test]
fn workspace_walks_up_or_fails() {
    let ws = Workspace::new("a/b/c", |d: String| d == "a/b").unwrap();
    assert_eq!(ws.path(), "a/b");
    let ws = Workspace::new("a/b", |d: String| d.is_empty()).unwrap();
    assert_eq!(ws.path(), "");
    assert_eq!(Workspace::new("/x/y", |_| false).unwrap_err(), FileError::NotFound);
}

#[test]
fn paths_and_names() {
    assert_eq!(parent_dir("/a/b").as_deref(), Some("/a"));
    assert_eq!(parent_dir("/a").as_deref(), Some("/"));
    assert_eq!(parent_dir("/"), None);
    assert_eq!(parent_dir("a").as_deref(), Some(""));
    assert_eq!(parent_dir(""), None);
    assert_eq!(join_path("a", "b"), "a/b");
    assert_eq!(join_path("a/", "b"), "a/b");
    assert_eq!(join_path("", "b"), "b");
    assert_eq!(join_path("a", "/b"), "/b");
    let dep = razel::module::BazelDep {
        name: "rules_cc".to_string(),
        version: "0.1.1".to_string(),
        repo_name: "cc".to_string(),
    };
    assert_eq!(canonical_repo_name(&dep).as_str(), "rules_cc+0.1.1");
    let repo = TokioRepository::new("/root".to_string());
    assert_eq!(repo.read_file("x/y").path(), "/root/x/y");
    assert_eq!(repo.dir_path("x"), "/root/x");
    assert_eq!(TokioFile::new("f".to_string()).path(), "f");
}

#[test]
fn repo_declared_once() {
    let extra = RepoExtra::new();
    let mut b = extra.into_inner();
    assert!(b.declare_repo(vec![("k".to_string(), "v".to_string())]).is_ok());
    assert_eq!(
        b.declare_repo(vec![]).unwrap_err().to_string(),
        "repo() can only be called once"
    );
    b.ignore_directories(names(&["x", "y"]));
    assert_eq!(b.ignore_directories, names(&["x", "y"]));
}

#[test]
fn later_entries_win_for_equal_keys() {
    let store = InMemoryFileStore::new(vec![
        ("f".to_string(), vec![1]),
        ("f".to_string(), vec![2, 2]),
    ]);
    assert_eq!(store.read_file("f").unwrap().open(), vec![2, 2]);
    assert_eq!(store.read_dir(""), names(&["f"]));

    let mut b = ModuleBuilder::new(true);
    b.declare_module("m".to_string(), "1".to_string(), None).unwrap();
    b.bazel_dep("one".to_string(), "1".to_string(), Some("x".to_string()), false).unwrap();
    b.bazel_dep("two".to_string(), "2".to_string(), Some("x".to_string()), false).unwrap();
    let repo = Repository::from_module(razel::label::main_repo(), &Module::try_from(b).unwrap());
    assert_eq!(repo.lookup("x").unwrap().as_str(), "two+2");
    assert_eq!(repo.lookup("one"), None);
}

#[test]
fn evaluation_error_messages() {
    let e = SharedError::from(EvalError::Module(ModuleError::MissingName));
    assert_eq!(e.to_string(), "Module name is required");
    let c = e.clone();
    assert!(Arc::ptr_eq(&e.0, &c.0));
    assert_eq!(EvalError::Config("bad syntax".to_string()).to_string(), "bad syntax");
    assert_eq!(EvalError::Io("denied".to_string()).to_string(), "denied");
    assert_eq!(
        ModuleError::Unimplemented(Extension::UseRepoRule).to_string(),
        "use_repo_rule() is not implemented"
    );
}

#[test]
fn empty_repo_names_default_to_module_names() {
    let mut b = ModuleBuilder::new(true);
    b.declare_module("m".to_string(), "1".to_string(), Some(String::new())).unwrap();
    b.bazel_dep("dep".to_string(), "2".to_string(), Some(String::new()), false).unwrap();
    let m = Module::try_from(b).unwrap();
    assert_eq!(m.repo_name, "m");
    assert_eq!(m.bazel_deps[0].repo_name, "dep");
}

#[test]
fn dependency_names_may_not_hold_plus() {
    let mut b = ModuleBuilder::new(true);
    let e = b
        .bazel_dep("a+b".to_string(), "1".to_string(), None, false)
        .unwrap_err();
    assert_eq!(e, ModuleError::InvalidDependencyName);
    assert_eq!(e.to_string(), "bazel_dep() name may not contain '+'");
    assert!(b.bazel_deps.is_empty());
    assert!(b.bazel_dep("a".to_string(), "1+b".to_string(), None, false).is_ok());
}

#[test]
fn dependencies_are_registered_once_and_not_started() {
    let mut b = ModuleBuilder::new(true);
    b.declare_module("m".to_string(), "1".to_string(), None).unwrap();
    b.bazel_dep("x".to_string(), "1".to_string(), None, false).unwrap();
    b.bazel_dep("y".to_string(), "2".to_string(), None, false).unwrap();
    let module = Module::try_from(b).unwrap();
    let mut reg = Registry::new();
    assert_eq!(reg.request("y+2"), Outcome::Start);
    reg.register_dependencies(&module);
    assert!(matches!(reg.get("x+1"), Some(EntryState::Pending)));
    assert!(matches!(reg.get("y+2"), Some(EntryState::Evaluating)));
    assert!(reg.get("m").is_none());
    assert_eq!(reg.request("x+1"), Outcome::Start);
}
