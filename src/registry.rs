//! The registry of repositories by canonical name: each is evaluated at
//! most once, however many requests for it arrive and in whatever order.
use vstd::prelude::*;
use std::sync::Arc;
use crate::label::str_eq;
use crate::bzlmod::Module;
use crate::repo::{canonical_dep_name, canonical_repo_name, Repository};
use crate::shared_error::SharedError;

verus! {

/// Where the evaluation of one canonical name stands.
#[derive(Clone, Copy, Debug, PartialEq, Eq, Structural)]
pub enum Phase {
    /// Registered; its evaluation has not started.
    Pending,
    Evaluating,
    Resolved,
    Failed,
}

/// A registry entry: its phase, with the result once there is one.
#[derive(Clone, Debug)]
pub enum EntryState {
    Pending,
    Evaluating,
    Resolved(Arc<Repository>),
    Failed(SharedError),
}

pub open spec fn phase_of(e: EntryState) -> Phase {
    match e {
        EntryState::Pending => Phase::Pending,
        EntryState::Evaluating => Phase::Evaluating,
        EntryState::Resolved(_) => Phase::Resolved,
        EntryState::Failed(_) => Phase::Failed,
    }
}

/// What a requester is told to do.
#[derive(Clone, Copy, Debug, PartialEq, Eq, Structural)]
pub enum Outcome {
    /// Run the evaluation: nobody else does.
    Start,
    /// Wait for the evaluation that another requester runs.
    Wait,
    /// The repository is there.
    Ready,
    /// The evaluation failed; its error is there.
    Failed,
}

/// A name is fresh while nobody has started its evaluation.
pub open spec fn is_fresh(p: Option<Phase>) -> bool {
    p is None || p == Some(Phase::Pending)
}

pub open spec fn request_outcome(p: Option<Phase>) -> Outcome {
    match p {
        None => Outcome::Start,
        Some(Phase::Pending) => Outcome::Start,
        Some(Phase::Evaluating) => Outcome::Wait,
        Some(Phase::Resolved) => Outcome::Ready,
        Some(Phase::Failed) => Outcome::Failed,
    }
}

pub open spec fn after_request(p: Option<Phase>) -> Option<Phase> {
    if is_fresh(p) {
        Some(Phase::Evaluating)
    } else {
        p
    }
}

/// The latest entry for `k`.
pub open spec fn entry_lookup(m: Seq<(String, EntryState)>, k: Seq<char>) -> Option<EntryState>
    decreases m.len(),
{
    if m.len() == 0 {
        None
    } else if m.last().0@ == k {
        Some(m.last().1)
    } else {
        entry_lookup(m.drop_last(), k)
    }
}

/// The registry; an entry, once there, is never removed, and a finished
/// evaluation is never run again.
#[derive(Debug)]
pub struct Registry {
    entries: Vec<(String, EntryState)>,
}

impl Registry {
    /// The entry for `k`.
    pub closed spec fn entry(&self, k: Seq<char>) -> Option<EntryState> {
        entry_lookup(self.entries@, k)
    }

    pub open spec fn phase(&self, k: Seq<char>) -> Option<Phase> {
        match self.entry(k) {
            Some(e) => Some(phase_of(e)),
            None => None,
        }
    }

    pub fn new() -> (r: Registry)
        ensures
            forall|k: Seq<char>| #[trigger] r.entry(k) is None,
    {
        Registry { entries: Vec::new() }
    }

    fn put(&mut self, name: &str, state: EntryState)
        ensures
            final(self).entry(name@) == Some(state),
            forall|k: Seq<char>| k != name@ ==> #[trigger] final(self).entry(k) == old(self).entry(k),
    {
        let ghost before = self.entries@;
        self.entries.push((name.to_owned(), state));
        assert(self.entries@.drop_last() =~= before);
    }

    /// The entry for `name`: the same value for every caller until the
    /// entry changes.
    pub fn get(&self, name: &str) -> (r: Option<&EntryState>)
        ensures
            match self.entry(name@) {
                Some(e) => r is Some && *r.unwrap() == e,
                None => r is None,
            },
    {
        let mut j = self.entries.len();
        assert(self.entries@.subrange(0, j as int) =~= self.entries@);
        while j > 0
            invariant
                j <= self.entries@.len(),
                entry_lookup(self.entries@, name@) == entry_lookup(
                    self.entries@.subrange(0, j as int),
                    name@,
                ),
            decreases j,
        {
            let ghost pre = self.entries@.subrange(0, j as int);
            assert(pre.drop_last() =~= self.entries@.subrange(0, j - 1));
            if str_eq(self.entries[j - 1].0.as_str(), name) {
                return Some(&self.entries[j - 1].1);
            }
            j -= 1;
        }
        None
    }

    /// Registers `name` without starting its evaluation, unless it is
    /// already there; says whether it was new.
    pub fn register(&mut self, name: &str) -> (r: bool)
        ensures
            r == (old(self).entry(name@) is None),
            r ==> final(self).entry(name@) == Some(EntryState::Pending),
            !r ==> final(self).entry(name@) == old(self).entry(name@),
            forall|k: Seq<char>| k != name@ ==> #[trigger] final(self).entry(k) == old(self).entry(k),
    {
        if self.get(name).is_none() {
            self.put(name, EntryState::Pending);
            true
        } else {
            false
        }
    }

    /// Registers the canonical name of every dependency of `module` that is
    /// not registered yet, without starting any evaluation; every other
    /// entry stays as it was.
    pub fn register_dependencies(&mut self, module: &Module)
        ensures
            forall|k: Seq<char>| #[trigger]
                is_dependency_name(module.bazel_deps@, k) ==> final(self).entry(k) == if old(
                    self,
                ).entry(k) is None {
                    Some(EntryState::Pending)
                } else {
                    old(self).entry(k)
                },
            forall|k: Seq<char>|
                !is_dependency_name(module.bazel_deps@, k) ==> #[trigger] final(self).entry(k)
                    == old(self).entry(k),
    {
        let deps = &module.bazel_deps;
        let mut i: usize = 0;
        while i < deps.len()
            invariant
                i <= deps@.len(),
                deps == &module.bazel_deps,
                forall|k: Seq<char>| #[trigger]
                    is_dependency_name(deps@.subrange(0, i as int), k) ==> self.entry(k) == if old(
                        self,
                    ).entry(k) is None {
                        Some(EntryState::Pending)
                    } else {
                        old(self).entry(k)
                    },
                forall|k: Seq<char>|
                    !is_dependency_name(deps@.subrange(0, i as int), k) ==> #[trigger] self.entry(
                        k,
                    ) == old(self).entry(k),
            decreases deps@.len() - i,
        {
            let name = canonical_repo_name(&deps[i]);
            let ghost before = *self;
            self.register(name.as_str());
            let ghost pre = deps@.subrange(0, i as int);
            let ghost post = deps@.subrange(0, i + 1);
            assert forall|k: Seq<char>| #[trigger]
                is_dependency_name(post, k) <==> (is_dependency_name(pre, k) || k == name@) by {
                if is_dependency_name(post, k) {
                    let j = choose|j: int|
                        0 <= j < post.len() && canonical_dep_name(
                            #[trigger] post[j].name@,
                            post[j].version@,
                        ) == k;
                    if j < i {
                        assert(pre[j] == post[j]);
                    }
                }
                if is_dependency_name(pre, k) {
                    let j = choose|j: int|
                        0 <= j < pre.len() && canonical_dep_name(
                            #[trigger] pre[j].name@,
                            pre[j].version@,
                        ) == k;
                    assert(post[j] == pre[j]);
                }
                if k == name@ {
                    assert(post[i as int] == deps@[i as int]);
                }
            }
            i += 1;
        }
        assert(deps@.subrange(0, deps@.len() as int) =~= deps@);
    }

    /// A request for `name`, checked and recorded in one step: the first
    /// request of a fresh name is told to start the evaluation, later ones
    /// to wait for it or to take its result.
    pub fn request(&mut self, name: &str) -> (r: Outcome)
        ensures
            r == request_outcome(old(self).phase(name@)),
            final(self).phase(name@) == after_request(old(self).phase(name@)),
            !is_fresh(old(self).phase(name@)) ==> final(self).entry(name@) == old(self).entry(
                name@,
            ),
            forall|k: Seq<char>| k != name@ ==> #[trigger] final(self).entry(k) == old(self).entry(k),
    {
        let outcome = match self.get(name) {
            None => Outcome::Start,
            Some(EntryState::Pending) => Outcome::Start,
            Some(EntryState::Evaluating) => Outcome::Wait,
            Some(EntryState::Resolved(_)) => Outcome::Ready,
            Some(EntryState::Failed(_)) => Outcome::Failed,
        };
        if outcome == Outcome::Start {
            self.put(name, EntryState::Evaluating);
        }
        outcome
    }

    /// Publishes the result of the evaluation of `name`.
    pub fn complete(&mut self, name: &str, outcome: Result<Arc<Repository>, SharedError>)
        requires
            old(self).phase(name@) == Some(Phase::Evaluating),
        ensures
            final(self).entry(name@) == Some(
                match outcome {
                    Ok(repo) => EntryState::Resolved(repo),
                    Err(e) => EntryState::Failed(e),
                },
            ),
            forall|k: Seq<char>| k != name@ ==> #[trigger] final(self).entry(k) == old(self).entry(k),
    {
        let state = match outcome {
            Ok(repo) => EntryState::Resolved(repo),
            Err(e) => EntryState::Failed(e),
        };
        self.put(name, state);
    }
}

/// `k` is the canonical name of one of `deps`.
pub open spec fn is_dependency_name(deps: Seq<crate::module::BazelDep>, k: Seq<char>) -> bool {
    exists|j: int|
        0 <= j < deps.len() && canonical_dep_name(#[trigger] deps[j].name@, deps[j].version@) == k
}

/// What can happen to one canonical name.
pub enum Event {
    Register,
    Request,
    Resolve,
    Fail,
}

/// The phase after `e`; completing applies only to a running evaluation.
pub open spec fn phase_step(p: Option<Phase>, e: Event) -> Option<Phase> {
    match e {
        Event::Register => if p is None {
            Some(Phase::Pending)
        } else {
            p
        },
        Event::Request => after_request(p),
        Event::Resolve => if p == Some(Phase::Evaluating) {
            Some(Phase::Resolved)
        } else {
            p
        },
        Event::Fail => if p == Some(Phase::Evaluating) {
            Some(Phase::Failed)
        } else {
            p
        },
    }
}

/// How many requests among `events` are told to start the evaluation.
pub open spec fn starts(p: Option<Phase>, events: Seq<Event>) -> nat
    decreases events.len(),
{
    if events.len() == 0 {
        0
    } else {
        (if events[0] is Request && request_outcome(p) == Outcome::Start {
            1nat
        } else {
            0nat
        }) + starts(phase_step(p, events[0]), events.drop_first())
    }
}

pub open spec fn has_request(events: Seq<Event>) -> bool {
    exists|i: int| 0 <= i < events.len() && #[trigger] events[i] is Request
}

/// Whatever requests, registrations and completions reach one canonical
/// name, and in whatever order, its evaluation is started once if the name
/// was fresh and is requested at all, and never otherwise.
pub proof fn lemma_single_evaluation(p: Option<Phase>, events: Seq<Event>)
    ensures
        starts(p, events) == if is_fresh(p) && has_request(events) {
            1nat
        } else {
            0nat
        },
    decreases events.len(),
{
    if events.len() > 0 {
        let rest = events.drop_first();
        let q = phase_step(p, events[0]);
        lemma_single_evaluation(q, rest);
        if has_request(rest) {
            let i = choose|i: int| 0 <= i < rest.len() && #[trigger] rest[i] is Request;
            assert(events[i + 1] is Request);
        }
        if !(events[0] is Request) && has_request(events) {
            let i = choose|i: int| 0 <= i < events.len() && #[trigger] events[i] is Request;
            assert(rest[i - 1] is Request);
        }
        if events[0] is Request {
            assert(has_request(events));
        }
    }
}

/// A finished evaluation stays finished: whatever happens to the name
/// afterwards, its phase is unchanged and no request starts it again, so
/// every requester is handed the one published result.
pub proof fn lemma_finished_is_permanent(p: Option<Phase>, events: Seq<Event>)
    requires
        p == Some(Phase::Resolved) || p == Some(Phase::Failed),
    ensures
        phase_after(p, events) == p,
        starts(p, events) == 0,
    decreases events.len(),
{
    lemma_single_evaluation(p, events);
    if events.len() > 0 {
        lemma_finished_is_permanent(phase_step(p, events[0]), events.drop_first());
    }
}

/// The phase after all of `events`.
pub open spec fn phase_after(p: Option<Phase>, events: Seq<Event>) -> Option<Phase>
    decreases events.len(),
{
    if events.len() == 0 {
        p
    } else {
        phase_after(phase_step(p, events[0]), events.drop_first())
    }
}

} // verus!
