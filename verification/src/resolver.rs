//! The walk over a release's dependencies: which package to look up next,
//! and what becomes of each answer.
//!
//! The walk itself transfers nothing. It hands out one lookup at a time; the
//! caller submits the lookup's query and records the outcome.

use vstd::prelude::*;
use vstd::string::*;
use crate::error::Error;
use crate::query::{parsed, Query, QueryView};
use crate::release::{Dependency, Release};
use crate::version::VersionReq;

verus! {

/// How far below a package its dependencies are still followed.
#[derive(Debug, Clone, Copy, PartialEq, Eq, Structural)]
pub enum Depth {
    /// Dependencies are followed wherever they lead.
    Infinite,
    /// The count of levels left, the package itself included: at one, the
    /// package is resolved and its dependencies are not followed.
    Restricted(usize),
}

impl Depth {
    /// Whether the dependencies of a package resolved at this depth are
    /// followed.
    pub open spec fn permits_expansion(self) -> bool {
        match self {
            Depth::Infinite => true,
            Depth::Restricted(levels) => levels > 1,
        }
    }

    /// The depth at which the dependencies of a package resolved at this
    /// depth are resolved: one level less, where levels are counted and any
    /// is left.
    pub open spec fn descended(self) -> Depth {
        match self {
            Depth::Infinite => Depth::Infinite,
            Depth::Restricted(levels) => if levels > 0 {
                Depth::Restricted((levels - 1) as usize)
            } else {
                Depth::Restricted(0)
            },
        }
    }

    /// The depth at which a root is resolved under a limit on the number of
    /// levels of dependencies below it.
    pub open spec fn under_limit(max_depth: Option<usize>) -> Depth {
        match max_depth {
            Some(levels) => if levels < usize::MAX {
                Depth::Restricted((levels + 1) as usize)
            } else {
                Depth::Infinite
            },
            None => Depth::Infinite,
        }
    }

    /// The depth at which a root is resolved: without a limit, infinite; with
    /// a limit of `n`, the root and `n` levels of dependencies below it. A
    /// limit that no count of levels can exceed is no limit.
    pub fn limit(max_depth: Option<usize>) -> (depth: Depth)
        ensures
            depth == Self::under_limit(max_depth),
    {
        match max_depth {
            Some(levels) => if levels < usize::MAX {
                Depth::Restricted(levels + 1)
            } else {
                Depth::Infinite
            },
            None => Depth::Infinite,
        }
    }

    /// Whether the dependencies of a package resolved at this depth are
    /// followed.
    pub fn expands(self) -> (yes: bool)
        ensures
            yes == self.permits_expansion(),
    {
        match self {
            Depth::Infinite => true,
            Depth::Restricted(levels) => levels > 1,
        }
    }

    /// One level further down.
    pub fn descend(self) -> (below: Depth)
        ensures
            below == self.descended(),
    {
        match self {
            Depth::Infinite => Depth::Infinite,
            Depth::Restricted(levels) => if levels > 0 {
                Depth::Restricted(levels - 1)
            } else {
                Depth::Restricted(0)
            },
        }
    }
}

/// A dependency that waits to be looked up, for contracts.
pub struct TaskView {
    /// The name under which the dependency is looked up
    pub name: Seq<char>,
    /// The requirement on its version, as written
    pub req: Seq<char>,
    /// The depth at which it is resolved
    pub depth: Depth,
}

impl TaskView {
    /// The task of looking up a dependency at a depth.
    pub open spec fn of(dependency: Dependency, depth: Depth) -> TaskView {
        TaskView { name: dependency.lookup_name(), req: dependency.req@, depth }
    }

    /// The query text of the task: the name, an `@`, the requirement.
    pub open spec fn package(self) -> Seq<char> {
        self.name + seq!['@'] + self.req
    }
}

/// The tasks for the dependencies of a release, the first dependency last:
/// pushed in this order on a stack, the first dependency is on top.
pub open spec fn tasks_for(deps: Seq<Dependency>, depth: Depth) -> Seq<TaskView> {
    Seq::new(deps.len(), |i: int| TaskView::of(deps[deps.len() - 1 - i], depth))
}

/// Whether one of the releases answers the name and the requirement.
pub open spec fn answered(resolved: Seq<Release>, name: Seq<char>, requirement: Seq<char>) -> bool {
    exists|i: int| 0 <= i < resolved.len() && (#[trigger] resolved[i]).answers(name, requirement)
}

/// What a `Resolver` is, for contracts.
pub struct ResolverView {
    /// Whether the dependencies of a resolved release are followed
    pub recursive: bool,
    /// Whether a package that could not be had is passed over
    pub ignore_missing: bool,
    /// The index to ask in place of the default one
    pub index: Option<Seq<char>>,
    /// The releases resolved so far, in the order in which they were visited
    pub resolved: Seq<Release>,
    /// The dependencies that wait, the next one last
    pub pending: Seq<TaskView>,
}

impl ResolverView {
    /// The state before anything was resolved.
    pub open spec fn fresh(recursive: bool, ignore_missing: bool, index: Option<Seq<char>>) -> ResolverView {
        ResolverView { recursive, ignore_missing, index, resolved: seq![], pending: seq![] }
    }

    /// Whether the resolved releases already answer a task.
    pub open spec fn guards(self, task: TaskView) -> bool {
        answered(self.resolved, task.name, task.req)
    }

    /// The state without its next task.
    pub open spec fn without_next(self) -> ResolverView {
        ResolverView { pending: self.pending.drop_last(), ..self }
    }

    /// The state once every next task that is already answered is dropped:
    /// either nothing waits any more, or the next task is not answered yet.
    pub open spec fn settled(self) -> ResolverView
        decreases self.pending.len(),
    {
        if self.pending.len() > 0 && self.guards(self.pending.last()) {
            self.without_next().settled()
        } else {
            self
        }
    }

    /// The state once a release found at a depth is recorded: the release
    /// joins the resolved ones, and where dependencies are followed at that
    /// depth, its dependencies wait one level further down, the first one
    /// next.
    pub open spec fn recorded(self, depth: Depth, release: Release) -> ResolverView {
        ResolverView {
            resolved: self.resolved.push(release),
            pending: if self.recursive && depth.permits_expansion() {
                self.pending + tasks_for(release.deps@, depth.descended())
            } else {
                self.pending
            },
            ..self
        }
    }

    /// The query that a query text stands for in this state: the text as
    /// parsed, asked of this state's index. `None` where the text is
    /// malformed.
    pub open spec fn query_for(self, package: Seq<char>) -> Option<QueryView> {
        match parsed(package) {
            Some(query) => Some(QueryView { custom_index: self.index, ..query }),
            None => None,
        }
    }
}

/// A package to look up: the query to submit, and what to record its outcome
/// under.
#[derive(Debug)]
pub struct Lookup {
    /// The query text, `name` or `name@requirement`
    pub package: String,
    /// The depth at which the package is resolved
    pub depth: Depth,
    /// The query to submit
    pub query: Query,
}

struct Task {
    name: String,
    req: VersionReq,
    depth: Depth,
}

impl View for Task {
    type V = TaskView;

    closed spec fn view(&self) -> TaskView {
        TaskView { name: self.name@, req: self.req@, depth: self.depth }
    }
}

spec fn task_views(tasks: Seq<Task>) -> Seq<TaskView> {
    Seq::new(tasks.len(), |i: int| tasks[i]@)
}

/// The state of a resolution: the releases resolved so far, and the
/// dependencies that still wait to be looked up.
pub struct Resolver {
    recursive: bool,
    ignore_missing: bool,
    index: Option<String>,
    resolved: Vec<Release>,
    pending: Vec<Task>,
}

impl View for Resolver {
    type V = ResolverView;

    closed spec fn view(&self) -> ResolverView {
        ResolverView {
            recursive: self.recursive,
            ignore_missing: self.ignore_missing,
            index: match self.index {
                Some(index) => Some(index@),
                None => None,
            },
            resolved: self.resolved@,
            pending: task_views(self.pending@),
        }
    }
}

impl Resolver {
    /// A resolution that has resolved nothing yet.
    pub fn new(recursive: bool, ignore_missing: bool, index: Option<&str>) -> (resolver: Resolver)
        ensures
            resolver@ == ResolverView::fresh(
                recursive,
                ignore_missing,
                match index {
                    Some(index) => Some(index@),
                    None => None,
                },
            ),
    {
        let resolver = Resolver {
            recursive,
            ignore_missing,
            index: match index {
                Some(index) => Some(index.to_owned()),
                None => None,
            },
            resolved: Vec::new(),
            pending: Vec::new(),
        };
        assert(resolver@.pending =~= seq![]);
        resolver
    }

    /// The releases resolved so far, in the order in which they were visited.
    pub fn resolved(&self) -> (resolved: &Vec<Release>)
        ensures
            resolved@ == self@.resolved,
    {
        &self.resolved
    }

    /// Give up the state for the releases resolved.
    pub fn into_resolved(self) -> (resolved: Vec<Release>)
        ensures
            resolved@ == self@.resolved,
    {
        self.resolved
    }

    fn lookup(&self, package: String, depth: Depth) -> (r: Result<Lookup, Error>)
        ensures
            match r {
                Ok(lookup) => {
                    &&& lookup.package@ == package@
                    &&& lookup.depth == depth
                    &&& self@.query_for(package@) == Some(lookup.query@)
                },
                Err(error) => self@.query_for(package@) is None && error is InvalidVersion,
            },
    {
        match Query::from_str(package.as_str()) {
            Ok(query) => {
                let query = match &self.index {
                    Some(index) => query.with_index(index.as_str()),
                    None => query,
                };
                Ok(Lookup { package, depth, query })
            },
            Err(error) => Err(error),
        }
    }

    /// The lookup for a root: the query that the text stands for, asked of
    /// this resolution's index. A malformed text is `InvalidVersion`, whether
    /// or not missing packages are ignored. The state does not change.
    pub fn begin(&self, package: &str, depth: Depth) -> (r: Result<Lookup, Error>)
        ensures
            match r {
                Ok(lookup) => {
                    &&& lookup.package@ == package@
                    &&& lookup.depth == depth
                    &&& self@.query_for(package@) == Some(lookup.query@)
                },
                Err(error) => self@.query_for(package@) is None && error is InvalidVersion,
            },
    {
        self.lookup(package.to_owned(), depth)
    }

    /// Whether the releases resolved so far answer the name and the
    /// requirement.
    fn is_answered(&self, name: &str, requirement: &VersionReq) -> (yes: bool)
        ensures
            yes == answered(self@.resolved, name@, requirement@),
    {
        let mut i: usize = 0;
        while i < self.resolved.len()
            invariant
                i <= self.resolved@.len(),
                forall|j: int| 0 <= j < i ==> !(#[trigger] self.resolved@[j]).answers(name@, requirement@),
            decreases self.resolved@.len() - i,
        {
            if self.resolved[i].is_answer_to(name, requirement) {
                return true;
            }
            i += 1;
        }
        false
    }

    /// The next lookup, if any is left.
    ///
    /// Waiting dependencies that the resolved releases already answer are
    /// dropped: this is what keeps a cycle of dependencies from being walked
    /// for ever. The first one that is not answered leaves the waiting ones
    /// and becomes the lookup `name@requirement`; should that text be
    /// malformed, the error is `InvalidVersion`. With nothing left the answer
    /// is `None`. The resolved releases do not change.
    pub fn next(&mut self) -> (r: Result<Option<Lookup>, Error>)
        ensures
            old(self)@.settled().pending.len() == 0 ==> {
                &&& r matches Ok(None)
                &&& final(self)@ == old(self)@.settled()
            },
            old(self)@.settled().pending.len() > 0 ==> {
                let task = old(self)@.settled().pending.last();
                &&& final(self)@ == old(self)@.settled().without_next()
                &&& match r {
                    Ok(Some(lookup)) => {
                        &&& lookup.package@ == task.package()
                        &&& lookup.depth == task.depth
                        &&& old(self)@.query_for(task.package()) == Some(lookup.query@)
                    },
                    Ok(None) => false,
                    Err(error) => {
                        &&& old(self)@.query_for(task.package()) is None
                        &&& error is InvalidVersion
                    },
                }
            },
    {
        while self.pending.len() > 0
            invariant
                self@.settled() == old(self)@.settled(),
                self@.index == old(self)@.index,
            decreases self.pending@.len(),
        {
            let ghost before = self@;
            match self.pending.pop() {
                Some(task) => {
                    assert(task@ == before.pending.last());
                    assert(self@ =~= before.without_next()) by {
                        assert(self@.pending =~= before.pending.drop_last());
                    }
                    if !self.is_answered(task.name.as_str(), &task.req) {
                        assert(!before.guards(before.pending.last()));
                        assert(before.settled() == before);
                        let mut package = task.name;
                        proof {
                            reveal_strlit("@");
                        }
                        package.append("@");
                        package.append(task.req.as_str());
                        assert(package@ =~= task@.package());
                        return match self.lookup(package, task.depth) {
                            Ok(lookup) => Ok(Some(lookup)),
                            Err(error) => Err(error),
                        };
                    }
                    assert(before.guards(before.pending.last()));
                    assert(before.settled() == before.without_next().settled());
                },
                None => {},
            }
        }
        assert(self@.pending.len() == 0);
        assert(self@.settled() == self@);
        Ok(None)
    }

    /// Record the outcome of a lookup made at a depth.
    ///
    /// A release that was found joins the resolved ones, and where
    /// dependencies are followed and the depth allows it, its dependencies
    /// wait one level further down, in their listed order. Where nothing was
    /// found, or the lookup failed, and missing packages are ignored, nothing
    /// changes and nothing fails. Otherwise nothing found is `NotFound` with
    /// the lookup's text, a failed lookup fails with its own error, and the
    /// state stays as it was.
    pub fn record(&mut self, package: &str, depth: Depth, outcome: Result<Option<Release>, Error>) -> (r:
        Result<(), Error>)
        ensures
            match outcome {
                Ok(Some(release)) => r is Ok && final(self)@ == old(self)@.recorded(depth, release),
                Ok(None) => {
                    &&& final(self)@ == old(self)@
                    &&& old(self)@.ignore_missing ==> r is Ok
                    &&& !old(self)@.ignore_missing ==> {
                        &&& r matches Err(Error::NotFound(missing))
                        &&& missing@ == package@
                    }
                },
                Err(error) => {
                    &&& final(self)@ == old(self)@
                    &&& old(self)@.ignore_missing ==> r is Ok
                    &&& !old(self)@.ignore_missing ==> r == Err::<(), Error>(error)
                },
            },
    {
        let release = match outcome {
            Ok(Some(release)) => release,
            Ok(None) => {
                if self.ignore_missing {
                    return Ok(());
                }
                return Err(Error::NotFound(package.to_owned()));
            },
            Err(error) => {
                if self.ignore_missing {
                    return Ok(());
                }
                return Err(error);
            },
        };
        if self.recursive && depth.expands() {
            let below = depth.descend();
            let ghost waiting = self@.pending;
            let ghost tasks = tasks_for(release.deps@, below);
            let mut left: usize = release.deps.len();
            while left > 0
                invariant
                    left <= release.deps@.len(),
                    tasks == tasks_for(release.deps@, below),
                    self@ == (ResolverView {
                        pending: waiting + tasks.subrange(0, release.deps@.len() - left),
                        ..old(self)@
                    }),
                decreases left,
            {
                left -= 1;
                let ghost before = self@.pending;
                let dependency = &release.deps[left];
                let task = Task {
                    name: dependency.effective_name().to_owned(),
                    req: dependency.req.clone(),
                    depth: below,
                };
                assert(task@ == tasks[release.deps@.len() - 1 - left]);
                self.pending.push(task);
                assert(self@.pending =~= before.push(task@));
                assert(self@.pending =~= waiting + tasks.subrange(0, release.deps@.len() - left));
            }
            assert(tasks.subrange(0, release.deps@.len() as int) =~= tasks);
        }
        self.resolved.push(release);
        Ok(())
    }
}

/// Dropping answered tasks changes nothing but the waiting tasks, leaves no
/// more of them than there were, and stops at a task that is not answered:
/// no lookup is ever handed out for a dependency that a resolved release
/// answers.
pub proof fn lemma_settled_stops_at_unanswered(state: ResolverView)
    ensures
        state.settled().resolved == state.resolved,
        state.settled().recursive == state.recursive,
        state.settled().ignore_missing == state.ignore_missing,
        state.settled().index == state.index,
        state.settled().pending.len() <= state.pending.len(),
        state.settled().pending == state.pending.subrange(0, state.settled().pending.len() as int),
        state.settled().pending.len() > 0 ==> !state.settled().guards(state.settled().pending.last()),
        forall|i: int|
            state.settled().pending.len() <= i < state.pending.len() ==> state.guards(
                #[trigger] state.pending[i],
            ),
    decreases state.pending.len(),
{
    if state.pending.len() > 0 && state.guards(state.pending.last()) {
        let rest = state.without_next();
        lemma_settled_stops_at_unanswered(rest);
        assert(rest.settled().pending =~= state.pending.subrange(
            0,
            state.settled().pending.len() as int,
        ));
        assert forall|i: int| state.settled().pending.len() <= i < state.pending.len() implies state.guards(
            #[trigger] state.pending[i],
        ) by {
            if i < rest.pending.len() {
                assert(rest.guards(rest.pending[i]));
            }
        }
    } else {
        assert(state.pending =~= state.pending.subrange(0, state.pending.len() as int));
    }
}

/// A release, once recorded, answers every dependency on it from then on:
/// whatever is recorded later, a task that it answers stays answered.
pub proof fn lemma_recorded_release_guards(
    state: ResolverView,
    depth: Depth,
    release: Release,
    task: TaskView,
)
    requires
        release.answers(task.name, task.req) || state.guards(task),
    ensures
        state.recorded(depth, release).guards(task),
{
    let after = state.recorded(depth, release);
    if release.answers(task.name, task.req) {
        assert(after.resolved[state.resolved.len() as int] == release);
    } else {
        let i = choose|i: int|
            0 <= i < state.resolved.len() && (#[trigger] state.resolved[i]).answers(
                task.name,
                task.req,
            );
        assert(after.resolved[i] == state.resolved[i]);
    }
}

/// The depth bounds the walk: a release recorded where the depth allows no
/// expansion, or where dependencies are not followed at all, adds no waiting
/// task; otherwise it adds one task for each of its dependencies, each one
/// level further down.
pub proof fn lemma_depth_bounds_expansion(state: ResolverView, depth: Depth, release: Release)
    ensures
        !(state.recursive && depth.permits_expansion()) ==> state.recorded(depth, release).pending
            == state.pending,
        state.recursive && depth.permits_expansion() ==> {
            let after = state.recorded(depth, release);
            &&& after.pending.len() == state.pending.len() + release.deps@.len()
            &&& after.pending.subrange(0, state.pending.len() as int) == state.pending
            &&& forall|i: int|
                state.pending.len() <= i < after.pending.len() ==> (#[trigger] after.pending[i]).depth
                    == depth.descended()
        },
        depth == Depth::Restricted(1) ==> !depth.permits_expansion(),
        match depth {
            Depth::Restricted(levels) => levels > 1 ==> depth.descended() == Depth::Restricted(
                (levels - 1) as usize,
            ),
            Depth::Infinite => depth.descended() == Depth::Infinite,
        },
{
    if state.recursive && depth.permits_expansion() {
        let after = state.recorded(depth, release);
        assert(after.pending.subrange(0, state.pending.len() as int) =~= state.pending);
    }
}

/// No release is resolved twice for a dependency: where a dependency is not
/// answered yet, the release that answers it has a name and version that no
/// resolved release has.
pub proof fn lemma_answer_to_unanswered_is_new(state: ResolverView, task: TaskView, release: Release)
    requires
        !state.guards(task),
        release.answers(task.name, task.req),
    ensures
        forall|i: int|
            0 <= i < state.resolved.len() ==> !((#[trigger] state.resolved[i]).name@ == release.name@
                && state.resolved[i].vers@ == release.vers@),
{
    assert forall|i: int| 0 <= i < state.resolved.len() implies !((#[trigger] state.resolved[i]).name@
        == release.name@ && state.resolved[i].vers@ == release.vers@) by {
        if state.resolved[i].name@ == release.name@ && state.resolved[i].vers@ == release.vers@ {
            assert(state.resolved[i].answers(task.name, task.req));
        }
    }
}

/// Two releases that depend on each other are each resolved once, and the
/// walk ends: with `first` recorded, its dependency is looked up; with
/// `second` recorded as the answer, the dependency of `second` on `first` is
/// already answered, and nothing is left to look up.
pub proof fn lemma_cycle_resolves_each_once(
    fresh: ResolverView,
    depth: Depth,
    first: Release,
    second: Release,
)
    requires
        fresh.recursive,
        fresh.resolved.len() == 0,
        fresh.pending.len() == 0,
        depth.permits_expansion(),
        first.deps@.len() == 1,
        second.deps@.len() == 1,
        second.answers(first.deps@[0].lookup_name(), first.deps@[0].req@),
        first.answers(second.deps@[0].lookup_name(), second.deps@[0].req@),
        !first.answers(first.deps@[0].lookup_name(), first.deps@[0].req@),
    ensures
        ({
            let asked = fresh.recorded(depth, first).settled();
            let done = asked.without_next().recorded(asked.pending.last().depth, second).settled();
            &&& asked.pending == seq![TaskView::of(first.deps@[0], depth.descended())]
            &&& done.pending.len() == 0
            &&& done.resolved == seq![first, second]
        }),
{
    let one = fresh.recorded(depth, first);
    let task = TaskView::of(first.deps@[0], depth.descended());
    assert(one.pending =~= seq![task]);
    assert(one.resolved =~= seq![first]);
    assert(!one.guards(task)) by {
        if one.guards(task) {
            let i = choose|i: int|
                0 <= i < one.resolved.len() && (#[trigger] one.resolved[i]).answers(
                    task.name,
                    task.req,
                );
            assert(one.resolved[i] == first);
        }
    }
    assert(one.settled() == one);
    let two = one.without_next().recorded(task.depth, second);
    assert(one.without_next().pending =~= seq![]);
    assert(two.resolved =~= seq![first, second]);
    if fresh.recursive && task.depth.permits_expansion() {
        let back = TaskView::of(second.deps@[0], task.depth.descended());
        assert(two.pending =~= seq![back]);
        assert(two.resolved[0].answers(back.name, back.req));
        assert(two.guards(back));
        assert(two.without_next().pending =~= seq![]);
        assert(two.without_next().settled() == two.without_next());
        assert(two.settled() == two.without_next());
    } else {
        assert(two.pending =~= seq![]);
        assert(two.settled() == two);
    }
}

/// Under a limit of one level, a root and the dependency it names are
/// resolved, and what that dependency depends on is not looked up.
pub proof fn lemma_limit_of_one_level(fresh: ResolverView, root: Release, below: Release)
    requires
        fresh.recursive,
        fresh.resolved.len() == 0,
        fresh.pending.len() == 0,
        root.deps@.len() == 1,
        !root.answers(root.deps@[0].lookup_name(), root.deps@[0].req@),
    ensures
        ({
            let depth = Depth::under_limit(Some(1));
            let asked = fresh.recorded(depth, root).settled();
            let done = asked.without_next().recorded(asked.pending.last().depth, below).settled();
            &&& asked.pending == seq![TaskView::of(root.deps@[0], Depth::Restricted(1))]
            &&& done.pending.len() == 0
            &&& done.resolved == seq![root, below]
        }),
{
    let depth = Depth::under_limit(Some(1));
    assert(depth == Depth::Restricted(2));
    let one = fresh.recorded(depth, root);
    let task = TaskView::of(root.deps@[0], Depth::Restricted(1));
    assert(one.pending =~= seq![task]);
    assert(one.resolved =~= seq![root]);
    assert(!one.guards(task)) by {
        if one.guards(task) {
            let i = choose|i: int|
                0 <= i < one.resolved.len() && (#[trigger] one.resolved[i]).answers(
                    task.name,
                    task.req,
                );
            assert(one.resolved[i] == root);
        }
    }
    assert(one.settled() == one);
    let two = one.without_next().recorded(task.depth, below);
    assert(two.pending =~= seq![]);
    assert(two.resolved =~= seq![root, below]);
    assert(two.settled() == two);
}

} // verus!
