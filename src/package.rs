//! Packages, the choice of a package's build file, and a file store held
//! in memory.
use vstd::prelude::*;
use crate::label::{chars_of, str_eq};
use crate::path::{join_path, joined};

verus! {

/// A missing file or directory, kept apart from other failures so that
/// callers can fall back; or two files where one is allowed.
#[derive(Clone, Copy, Debug, PartialEq, Eq, Structural)]
pub enum FileError {
    NotFound,
    AlreadyExists,
}

/// A directory with exactly one build file.
#[derive(Clone, Debug, PartialEq, Eq)]
pub struct Package {
    pub path: String,
    pub build_file: String,
}

impl Package {
    pub fn new(path: String, build_file: String) -> (r: Package)
        ensures
            r.path == path,
            r.build_file == build_file,
    {
        Package { path, build_file }
    }
}

pub open spec fn has_name(entries: Seq<String>, name: Seq<char>) -> bool {
    exists|i: int| 0 <= i < entries.len() && #[trigger] entries[i]@ == name
}

fn contains_name(entries: &Vec<String>, name: &str) -> (r: bool)
    ensures
        r == has_name(entries@, name@),
{
    let mut i: usize = 0;
    while i < entries.len()
        invariant
            i <= entries.len(),
            forall|j: int| 0 <= j < i ==> entries@[j]@ != name@,
        decreases entries.len() - i,
    {
        if str_eq(entries[i].as_str(), name) {
            return true;
        }
        i += 1;
    }
    false
}

/// The build file of a directory listed by `entries`: `BUILD` or
/// `BUILD.bazel`, exactly one of them.
pub fn build_file_name(entries: &Vec<String>) -> (r: Result<String, FileError>)
    ensures
        ({
            let plain = has_name(entries@, "BUILD"@);
            let bazel = has_name(entries@, "BUILD.bazel"@);
            &&& plain && bazel ==> r == Err::<String, FileError>(FileError::AlreadyExists)
            &&& !plain && !bazel ==> r == Err::<String, FileError>(FileError::NotFound)
            &&& plain && !bazel ==> r is Ok && r.unwrap()@ == "BUILD"@
            &&& bazel && !plain ==> r is Ok && r.unwrap()@ == "BUILD.bazel"@
        }),
{
    let plain = contains_name(entries, "BUILD");
    let bazel = contains_name(entries, "BUILD.bazel");
    if plain && bazel {
        Err(FileError::AlreadyExists)
    } else if plain {
        Ok("BUILD".to_owned())
    } else if bazel {
        Ok("BUILD.bazel".to_owned())
    } else {
        Err(FileError::NotFound)
    }
}

/// The package at `path`, whose directory lists `entries`.
pub fn find_package(path: &str, entries: &Vec<String>) -> (r: Result<Package, FileError>)
    ensures
        ({
            let plain = has_name(entries@, "BUILD"@);
            let bazel = has_name(entries@, "BUILD.bazel"@);
            &&& plain && bazel ==> r == Err::<Package, FileError>(FileError::AlreadyExists)
            &&& !plain && !bazel ==> r == Err::<Package, FileError>(FileError::NotFound)
            &&& plain && !bazel ==> r is Ok && r.unwrap().path@ == path@
                && r.unwrap().build_file@ == joined(path@, "BUILD"@)
            &&& bazel && !plain ==> r is Ok && r.unwrap().path@ == path@
                && r.unwrap().build_file@ == joined(path@, "BUILD.bazel"@)
        }),
{
    match build_file_name(entries) {
        Ok(name) => Ok(Package::new(path.to_owned(), join_path(path, name.as_str()))),
        Err(e) => Err(e),
    }
}

/// The first `/` at or after `i`, or the end of `s`.
pub open spec fn slash_at_or_after(s: Seq<char>, i: int) -> int
    decreases s.len() - i,
{
    if 0 <= i < s.len() && s[i] != '/' {
        slash_at_or_after(s, i + 1)
    } else {
        i
    }
}

/// What paths under `dir` start with: `dir/`, or nothing for the root.
pub open spec fn dir_prefix(dir: Seq<char>) -> Seq<char> {
    if dir.len() == 0 || dir.last() == '/' {
        dir
    } else {
        dir + seq!['/']
    }
}

/// The child of `dir` through which `path` lies: its first segment after
/// the directory's prefix.
pub open spec fn child_of(path: Seq<char>, dir: Seq<char>) -> Option<Seq<char>> {
    let pre = dir_prefix(dir);
    if pre.len() <= path.len() && path.subrange(0, pre.len() as int) == pre {
        let rest = path.subrange(pre.len() as int, path.len() as int);
        Some(rest.subrange(0, slash_at_or_after(rest, 0)))
    } else {
        None
    }
}

/// The content of a file held in memory.
#[derive(Clone, Debug)]
pub struct InMemoryFile {
    content: Vec<u8>,
}

impl InMemoryFile {
    pub closed spec fn content(&self) -> Seq<u8> {
        self.content@
    }

    pub fn new(content: Vec<u8>) -> (r: InMemoryFile)
        ensures
            r.content() == content@,
    {
        InMemoryFile { content }
    }

    /// The bytes of the file.
    pub fn open(&self) -> (r: Vec<u8>)
        ensures
            r@ == self.content(),
    {
        let r = self.content.clone();
        assert(r@ =~= self.content@);
        r
    }

    /// The size of the file in bytes.
    pub fn size(&self) -> (r: usize)
        ensures
            r == self.content().len(),
    {
        self.content.len()
    }
}

/// The file stored under `path`: the last entry that names it.
pub open spec fn stored_file(files: Seq<(String, Vec<u8>)>, path: Seq<char>) -> Option<Seq<u8>>
    decreases files.len(),
{
    if files.len() == 0 {
        None
    } else if files.last().0@ == path {
        Some(files.last().1@)
    } else {
        stored_file(files.drop_last(), path)
    }
}

/// A file store over an explicit list of paths and contents.
#[derive(Clone, Debug)]
pub struct InMemoryFileStore {
    files: Vec<(String, Vec<u8>)>,
}

impl InMemoryFileStore {
    pub closed spec fn files(&self) -> Seq<(String, Vec<u8>)> {
        self.files@
    }

    /// A store of `files`; where a path comes twice, the later entry counts.
    pub fn new(files: Vec<(String, Vec<u8>)>) -> (r: InMemoryFileStore)
        ensures
            r.files() == files@,
    {
        InMemoryFileStore { files }
    }

    /// The file at `path`, or `NotFound`.
    pub fn read_file(&self, path: &str) -> (r: Result<InMemoryFile, FileError>)
        ensures
            match stored_file(self.files(), path@) {
                Some(c) => r is Ok && r.unwrap().content() == c,
                None => r == Err::<InMemoryFile, FileError>(FileError::NotFound),
            },
    {
        let mut j = self.files.len();
        assert(self.files@.subrange(0, j as int) =~= self.files@);
        while j > 0
            invariant
                j <= self.files@.len(),
                stored_file(self.files@, path@) == stored_file(self.files@.subrange(0, j as int), path@),
            decreases j,
        {
            let ghost pre = self.files@.subrange(0, j as int);
            assert(pre.drop_last() =~= self.files@.subrange(0, j - 1));
            if str_eq(self.files[j - 1].0.as_str(), path) {
                let content = self.files[j - 1].1.clone();
                assert(content@ =~= self.files@[j - 1].1@);
                return Ok(InMemoryFile::new(content));
            }
            j -= 1;
        }
        Err(FileError::NotFound)
    }

    /// The names directly under `dir`, each once: empty, not an error, for
    /// a directory that does not exist.
    pub fn read_dir(&self, dir: &str) -> (r: Vec<String>)
        ensures
            forall|c: Seq<char>| #[trigger]
                has_name(r@, c) <==> is_child(self.files(), self.files().len() as int, dir@, c),
            forall|a: int, b: int| 0 <= a < b < r@.len() ==> r@[a]@ != r@[b]@,
    {
        let pre = dir_prefix_exec(dir);
        let pc = chars_of(pre.as_str());
        let mut out: Vec<String> = Vec::new();
        let mut i: usize = 0;
        while i < self.files.len()
            invariant
                i <= self.files@.len(),
                pc@ == dir_prefix(dir@),
                forall|c: Seq<char>| #[trigger]
                    has_name(out@, c) <==> is_child(self.files@, i as int, dir@, c),
                forall|a: int, b: int| 0 <= a < b < out@.len() ==> out@[a]@ != out@[b]@,
            decreases self.files@.len() - i,
        {
            let path = self.files[i].0.as_str();
            let child = child_in(path, &pc, dir);
            let ghost old_out = out@;
            match child {
                Some(c) => {
                    let known = position_of(&out, c.as_str());
                    if known.is_none() {
                        out.push(c);
                        assert forall|x: Seq<char>| #[trigger]
                            has_name(out@, x) <==> is_child(self.files@, i + 1, dir@, x) by {
                            if has_name(out@, x) {
                                let j = choose|j: int| 0 <= j < out@.len() && #[trigger] out@[j]@ == x;
                                if j < old_out.len() {
                                    assert(old_out[j]@ == x);
                                    assert(has_name(old_out, x));
                                } else {
                                    assert(child_of(self.files@[i as int].0@, dir@) == Some(x));
                                }
                            }
                            if is_child(self.files@, i + 1, dir@, x) {
                                let k = choose|k: int|
                                    0 <= k < i + 1 && child_of(#[trigger] self.files@[k].0@, dir@)
                                        == Some(x);
                                if k == i {
                                    assert(out@[old_out.len() as int]@ == x);
                                } else {
                                    assert(is_child(self.files@, i as int, dir@, x));
                                    assert(has_name(old_out, x));
                                    let j = choose|j: int|
                                        0 <= j < old_out.len() && #[trigger] old_out[j]@ == x;
                                    assert(out@[j]@ == x);
                                }
                            }
                        }
                    } else {
                        assert forall|x: Seq<char>| #[trigger]
                            has_name(out@, x) <==> is_child(self.files@, i + 1, dir@, x) by {
                            if has_name(out@, x) {
                                assert(is_child(self.files@, i as int, dir@, x));
                            }
                            if is_child(self.files@, i + 1, dir@, x) {
                                let k = choose|k: int|
                                    0 <= k < i + 1 && child_of(#[trigger] self.files@[k].0@, dir@)
                                        == Some(x);
                                if k == i {
                                    let j = known.unwrap() as int;
                                    assert(out@[j]@ == x);
                                } else {
                                    assert(is_child(self.files@, i as int, dir@, x));
                                }
                            }
                        }
                    }
                },
                None => {
                    assert forall|x: Seq<char>| #[trigger]
                        has_name(out@, x) <==> is_child(self.files@, i + 1, dir@, x) by {
                        if has_name(out@, x) {
                            assert(is_child(self.files@, i as int, dir@, x));
                        }
                        if is_child(self.files@, i + 1, dir@, x) {
                            let k = choose|k: int|
                                0 <= k < i + 1 && child_of(#[trigger] self.files@[k].0@, dir@)
                                    == Some(x);
                            assert(k != i);
                            assert(is_child(self.files@, i as int, dir@, x));
                        }
                    }
                },
            }
            i += 1;
        }
        out
    }
}

/// Some path among the first `n` stored ones lies under `dir` through `c`.
pub open spec fn is_child(files: Seq<(String, Vec<u8>)>, n: int, dir: Seq<char>, c: Seq<char>) -> bool {
    exists|k: int| 0 <= k < n && child_of(#[trigger] files[k].0@, dir) == Some(c)
}

fn dir_prefix_exec(dir: &str) -> (r: String)
    ensures
        r@ == dir_prefix(dir@),
{
    proof {
        reveal_strlit("/");
    }
    let n = dir.unicode_len();
    if n == 0 || dir.get_char(n - 1) == '/' {
        dir.to_owned()
    } else {
        let mut out = dir.to_owned();
        out.append("/");
        out
    }
}

/// Where `name` stands in `v`, if it does.
fn position_of(v: &Vec<String>, name: &str) -> (r: Option<usize>)
    ensures
        r matches Some(j) ==> j < v@.len() && v@[j as int]@ == name@,
        r is None ==> forall|j: int| 0 <= j < v@.len() ==> v@[j]@ != name@,
{
    let mut i: usize = 0;
    while i < v.len()
        invariant
            i <= v.len(),
            forall|j: int| 0 <= j < i ==> v@[j]@ != name@,
        decreases v.len() - i,
    {
        if str_eq(v[i].as_str(), name) {
            return Some(i);
        }
        i += 1;
    }
    None
}

/// `child_of(path, dir)`, given the characters of `dir`'s prefix.
fn child_in(path: &str, pc: &Vec<char>, dir: &str) -> (r: Option<String>)
    requires
        pc@ == dir_prefix(dir@),
    ensures
        match child_of(path@, dir@) {
            Some(c) => r is Some && r.unwrap()@ == c,
            None => r is None,
        },
{
    let cs = chars_of(path);
    let m = pc.len();
    if m > cs.len() {
        return None;
    }
    let mut k: usize = 0;
    while k < m
        invariant
            k <= m <= cs.len(),
            m == pc@.len(),
            cs@ == path@,
            pc@ == dir_prefix(dir@),
            forall|q: int| 0 <= q < k ==> cs@[q] == pc@[q],
        decreases m - k,
    {
        if cs[k] != pc[k] {
            assert(path@.subrange(0, m as int)[k as int] != pc@[k as int]);
            assert(path@.subrange(0, m as int) != dir_prefix(dir@));
            return None;
        }
        k += 1;
    }
    assert(cs@.subrange(0, m as int) =~= pc@);
    let ghost rest = cs@.subrange(m as int, cs@.len() as int);
    let mut e = m;
    while e < cs.len() && cs[e] != '/'
        invariant
            m <= e <= cs.len(),
            rest == cs@.subrange(m as int, cs@.len() as int),
            slash_at_or_after(rest, 0) == slash_at_or_after(rest, e - m),
        decreases cs.len() - e,
    {
        assert(rest[e - m] == cs@[e as int]);
        e += 1;
    }
    assert(e < cs.len() ==> rest[e - m] == cs@[e as int]);
    assert(rest.subrange(0, e - m) =~= path@.subrange(m as int, e as int));
    Some(path.substring_char(m, e).to_owned())
}

} // verus!
