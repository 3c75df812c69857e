//! The build of a plan, package by package.
//!
//! The orchestrator decides; it runs nothing. It says which step is due for
//! which package and whether that step runs elevated, takes the word of how
//! the step went, and keeps the results. Fetching, reviewing and building
//! never run elevated: only the installation does.

use vstd::prelude::*;

pub mod report;
pub mod summary;

pub use report::{event_of, needs_build, StepReport, MISSING_DEPENDENCY_CODE};
pub use summary::{exit_code, packages_ending, summarize, Ending, Summary};

use crate::resolve::graph::{rows, Link};

verus! {

/// A step in the build of one package.
#[derive(Debug, Clone, Copy, PartialEq, Eq, Structural)]
pub enum Step {
    /// Clone the build files, or update the clone.
    Fetch,
    /// Show the build files for acceptance.
    Review,
    /// Build the package.
    Build,
    /// Install what was built.
    Install,
}

/// Why the build of a package failed.
#[derive(Debug, Clone, Copy, PartialEq, Eq, Structural)]
pub enum FailureReason {
    /// The AUR could not be reached.
    NetworkError,
    /// The local clone has changes that an update would overwrite.
    LocalChanges,
    /// The build found that a declared dependency is not installed.
    MissingDependency,
    /// The user interrupted the build.
    Interrupted,
    /// The rights to install were refused.
    PrivilegeDenied,
    /// A program that was run ended with an error.
    SubprocessFailure,
}

/// How the build of a package ended.
#[derive(Debug, Clone, Copy, PartialEq, Eq, Structural)]
pub enum Outcome {
    /// The package was built and installed.
    Built,
    /// A step failed.
    Failed(FailureReason),
    /// The package was not built: it was declined, or something it needs was not built.
    Skipped,
}

/// How the build of one package of the plan ended.
#[derive(Debug, Clone, Copy, PartialEq, Eq, Structural)]
pub struct BuildResult {
    /// The package, by its place in the list of AUR packages.
    pub node: usize,
    /// How its build ended.
    pub outcome: Outcome,
}

/// How a step went.
#[derive(Debug, Clone, Copy, PartialEq, Eq, Structural)]
pub enum Event {
    /// The step was done.
    Succeeded,
    /// The user declined the package.
    Rejected,
    /// The step failed.
    Failed(FailureReason),
}

/// What is to be done next.
#[derive(Debug, Clone, Copy, PartialEq, Eq, Structural)]
pub struct Action {
    /// The package, by its place in the list of AUR packages.
    pub node: usize,
    /// The step that is due.
    pub step: Step,
    /// Whether the step runs with elevated rights.
    pub elevated: bool,
}

/// The build of a plan as far as it has come.
///
/// At every moment the results are those of the first packages of the plan,
/// every package that could not be built when its turn came was skipped, and
/// the package that is due can be built.
#[derive(Debug)]
pub struct Orchestrator {
    graph: Vec<Vec<Link>>,
    plan: Vec<usize>,
    review: bool,
    results: Vec<BuildResult>,
    step: Step,
    halted: bool,
}

/// Only the installation runs elevated.
pub open spec fn runs_elevated(step: Step) -> bool {
    step == Step::Install
}

/// The step that follows a step that was done, if the package is not finished with it.
pub open spec fn step_after(step: Step, review: bool) -> Option<Step> {
    match step {
        Step::Fetch => if review {
            Some(Step::Review)
        } else {
            Some(Step::Build)
        },
        Step::Review => Some(Step::Build),
        Step::Build => Some(Step::Install),
        Step::Install => None,
    }
}

/// Among the results, the package was built.
pub open spec fn built(results: Seq<BuildResult>, node: usize) -> bool {
    exists|i: int|
        0 <= i < results.len() && (#[trigger] results[i]).node == node && results[i].outcome
            == Outcome::Built
}

/// The link is not satisfied by what was built so far.
pub open spec fn link_unmet(results: Seq<BuildResult>, link: Link) -> bool {
    match link {
        Link::Repo | Link::VirtualProvided => false,
        Link::Missing => true,
        Link::Aur(child) => !built(results, child),
    }
}

/// The package cannot be built after these results: something that it needs was not built.
pub open spec fn blocked(g: Seq<Seq<Link>>, results: Seq<BuildResult>, node: usize) -> bool {
    node >= g.len() || exists|k: int|
        0 <= k < g[node as int].len() && link_unmet(results, #[trigger] g[node as int][k])
}

/// The results with a `Skipped` added for each package that comes next in
/// the plan and cannot be built, up to the first that can.
pub open spec fn skip_blocked(
    g: Seq<Seq<Link>>,
    plan: Seq<usize>,
    halted: bool,
    results: Seq<BuildResult>,
) -> Seq<BuildResult>
    decreases plan.len() - results.len(),
{
    if results.len() < plan.len() && (halted || blocked(g, results, plan[results.len() as int])) {
        skip_blocked(
            g,
            plan,
            halted,
            results.push(
                BuildResult { node: plan[results.len() as int], outcome: Outcome::Skipped },
            ),
        )
    } else {
        results
    }
}

/// The results are those of the first packages of the plan, and each package
/// that could not be built when its turn came was skipped.
pub open spec fn consistent(g: Seq<Seq<Link>>, plan: Seq<usize>, results: Seq<BuildResult>) -> bool {
    &&& results.len() <= plan.len()
    &&& forall|i: int|
        0 <= i < results.len() ==> {
            &&& (#[trigger] results[i]).node == plan[i]
            &&& blocked(g, results.subrange(0, i), plan[i]) ==> results[i].outcome
                == Outcome::Skipped
        }
}

/// The package that comes next, if there is one, can be built.
pub open spec fn ready(
    g: Seq<Seq<Link>>,
    plan: Seq<usize>,
    halted: bool,
    results: Seq<BuildResult>,
) -> bool {
    results.len() < plan.len() ==> !halted && !blocked(g, results, plan[results.len() as int])
}

/// Adding the result of a package that could be built keeps the results consistent.
pub proof fn lemma_record_consistent(
    g: Seq<Seq<Link>>,
    plan: Seq<usize>,
    results: Seq<BuildResult>,
    outcome: Outcome,
)
    requires
        consistent(g, plan, results),
        results.len() < plan.len(),
        outcome == Outcome::Skipped || !blocked(g, results, plan[results.len() as int]),
    ensures
        consistent(
            g,
            plan,
            results.push(BuildResult { node: plan[results.len() as int], outcome }),
        ),
{
    let more = results.push(BuildResult { node: plan[results.len() as int], outcome });
    assert forall|i: int| 0 <= i < more.len() implies {
        &&& (#[trigger] more[i]).node == plan[i]
        &&& blocked(g, more.subrange(0, i), plan[i]) ==> more[i].outcome == Outcome::Skipped
    } by {
        if i < results.len() {
            assert(more[i] == results[i]);
            assert(more.subrange(0, i) =~= results.subrange(0, i));
        } else {
            assert(more.subrange(0, i) =~= results);
        }
    }
}

/// Skipping what cannot be built keeps the results consistent, keeps what
/// they held, and ends at a package that can be built or at the end of the plan.
pub proof fn lemma_skip_blocked(
    g: Seq<Seq<Link>>,
    plan: Seq<usize>,
    halted: bool,
    results: Seq<BuildResult>,
)
    requires
        consistent(g, plan, results),
    ensures
        consistent(g, plan, skip_blocked(g, plan, halted, results)),
        ready(g, plan, halted, skip_blocked(g, plan, halted, results)),
        results.len() <= skip_blocked(g, plan, halted, results).len(),
        skip_blocked(g, plan, halted, results).subrange(0, results.len() as int) == results,
    decreases plan.len() - results.len(),
{
    if results.len() < plan.len() && (halted || blocked(g, results, plan[results.len() as int])) {
        let more = results.push(
            BuildResult { node: plan[results.len() as int], outcome: Outcome::Skipped },
        );
        lemma_record_consistent(g, plan, results, Outcome::Skipped);
        lemma_skip_blocked(g, plan, halted, more);
        let all = skip_blocked(g, plan, halted, more);
        assert(all.subrange(0, results.len() as int) =~= all.subrange(
            0,
            more.len() as int,
        ).subrange(0, results.len() as int));
        assert(more.subrange(0, results.len() as int) =~= results);
    } else {
        assert(results.subrange(0, results.len() as int) =~= results);
    }
}

/// A package that needs one whose build did not succeed is skipped: no
/// package is built on a dependency that failed or was skipped.
pub proof fn lemma_failure_skips_dependents(
    g: Seq<Seq<Link>>,
    plan: Seq<usize>,
    results: Seq<BuildResult>,
    i: int,
    j: int,
    k: int,
)
    requires
        consistent(g, plan, results),
        plan.no_duplicates(),
        0 <= i < results.len(),
        0 <= j < results.len(),
        plan[i] < g.len(),
        0 <= k < g[plan[i] as int].len(),
        g[plan[i] as int][k] == Link::Aur(plan[j]),
        results[j].outcome != Outcome::Built,
    ensures
        results[i].outcome == Outcome::Skipped,
{
    let before = results.subrange(0, i);
    if built(before, plan[j]) {
        let m = choose|m: int|
            0 <= m < before.len() && (#[trigger] before[m]).node == plan[j] && before[m].outcome
                == Outcome::Built;
        assert(before[m] == results[m]);
        assert(results[m].node == plan[m]);
        assert(m == j);
    }
    assert(link_unmet(before, g[plan[i] as int][k]));
    assert(blocked(g, before, plan[i]));
}

/// A package is only ever built after all the AUR packages that it depends on were built.
pub proof fn lemma_built_on_built(
    g: Seq<Seq<Link>>,
    plan: Seq<usize>,
    results: Seq<BuildResult>,
    i: int,
    k: int,
)
    requires
        consistent(g, plan, results),
        0 <= i < results.len(),
        results[i].outcome == Outcome::Built,
        plan[i] < g.len(),
        0 <= k < g[plan[i] as int].len(),
    ensures
        g[plan[i] as int][k] matches Link::Aur(child) ==> built(results.subrange(0, i), child),
        g[plan[i] as int][k] != Link::Missing,
{
    assert(!blocked(g, results.subrange(0, i), plan[i]));
    assert(!link_unmet(results.subrange(0, i), g[plan[i] as int][k]));
}

/// Whether the package was built, by the results.
pub fn was_built(results: &Vec<BuildResult>, node: usize) -> (found: bool)
    ensures
        found == built(results@, node),
{
    let mut i: usize = 0;
    while i < results.len()
        invariant
            i <= results.len(),
            forall|j: int|
                0 <= j < i ==> !((#[trigger] results@[j]).node == node && results@[j].outcome
                    == Outcome::Built),
        decreases results.len() - i,
    {
        if results[i].node == node && results[i].outcome == Outcome::Built {
            return true;
        }
        i += 1;
    }
    false
}

/// Whether something that the package needs was not built.
pub fn is_blocked(graph: &Vec<Vec<Link>>, results: &Vec<BuildResult>, node: usize) -> (stuck: bool)
    ensures
        stuck == blocked(rows(graph@), results@, node),
{
    if node >= graph.len() {
        return true;
    }
    let links = &graph[node];
    assert(rows(graph@)[node as int] == links@);
    let mut k: usize = 0;
    while k < links.len()
        invariant
            k <= links.len(),
            node < graph.len(),
            rows(graph@)[node as int] == links@,
            forall|n: int| 0 <= n < k ==> !link_unmet(results@, #[trigger] links@[n]),
        decreases links.len() - k,
    {
        let unmet = match links[k] {
            Link::Repo | Link::VirtualProvided => false,
            Link::Missing => true,
            Link::Aur(child) => !was_built(results, child),
        };
        if unmet {
            return true;
        }
        k += 1;
    }
    false
}

impl Step {
    /// Whether the step runs with elevated rights: only the installation does.
    pub fn is_elevated(self) -> (elevated: bool)
        ensures
            elevated == runs_elevated(self),
            self == Step::Build ==> !elevated,
    {
        self == Step::Install
    }

    /// The step that follows this one when it was done; none after the installation.
    pub fn next(self, review: bool) -> (following: Option<Step>)
        ensures
            following == step_after(self, review),
    {
        match self {
            Step::Fetch => if review {
                Some(Step::Review)
            } else {
                Some(Step::Build)
            },
            Step::Review => Some(Step::Build),
            Step::Build => Some(Step::Install),
            Step::Install => None,
        }
    }
}

/// Adds a `Skipped` for each package that comes next and cannot be built.
fn settle(graph: &Vec<Vec<Link>>, plan: &Vec<usize>, halted: bool, results: &mut Vec<BuildResult>)
    requires
        consistent(rows(graph@), plan@, old(results)@),
    ensures
        final(results)@ == skip_blocked(rows(graph@), plan@, halted, old(results)@),
        consistent(rows(graph@), plan@, final(results)@),
        ready(rows(graph@), plan@, halted, final(results)@),
{
    proof {
        lemma_skip_blocked(rows(graph@), plan@, halted, results@);
    }
    while results.len() < plan.len() && (halted || is_blocked(graph, results, plan[results.len()]))
        invariant
            skip_blocked(rows(graph@), plan@, halted, results@) == skip_blocked(
                rows(graph@),
                plan@,
                halted,
                old(results)@,
            ),
        decreases plan.len() - results.len(),
    {
        let node = plan[results.len()];
        results.push(BuildResult { node, outcome: Outcome::Skipped });
    }
}

impl Orchestrator {
    #[verifier::type_invariant]
    spec fn sound(&self) -> bool {
        &&& consistent(rows(self.graph@), self.plan@, self.results@)
        &&& ready(rows(self.graph@), self.plan@, self.halted, self.results@)
    }

    /// For each AUR package, where each of its dependencies is found.
    pub closed spec fn links(&self) -> Seq<Seq<Link>> {
        rows(self.graph@)
    }

    /// The packages to build, in order.
    pub closed spec fn planned(&self) -> Seq<usize> {
        self.plan@
    }

    /// Whether each package is shown for acceptance before it is built.
    pub closed spec fn reviews(&self) -> bool {
        self.review
    }

    /// The results so far, one for each package of the plan that is settled.
    pub closed spec fn recorded(&self) -> Seq<BuildResult> {
        self.results@
    }

    /// The step that is due for the first package without a result.
    pub closed spec fn due_step(&self) -> Step {
        self.step
    }

    /// Whether the rights to install were refused, so that nothing more is built.
    pub closed spec fn stopped(&self) -> bool {
        self.halted
    }

    /// What is due: the step of the first package without a result.
    pub open spec fn due(&self) -> Option<Action> {
        if self.recorded().len() < self.planned().len() {
            Some(
                Action {
                    node: self.planned()[self.recorded().len() as int],
                    step: self.due_step(),
                    elevated: runs_elevated(self.due_step()),
                },
            )
        } else {
            None
        }
    }

    /// The results after the word of how the due step went.
    pub open spec fn results_after(&self, event: Event) -> Seq<BuildResult> {
        if self.recorded().len() >= self.planned().len() {
            self.recorded()
        } else {
            let node = self.planned()[self.recorded().len() as int];
            match event {
                Event::Succeeded => match step_after(self.due_step(), self.reviews()) {
                    Some(_) => self.recorded(),
                    None => skip_blocked(
                        self.links(),
                        self.planned(),
                        self.stopped(),
                        self.recorded().push(BuildResult { node, outcome: Outcome::Built }),
                    ),
                },
                Event::Rejected => skip_blocked(
                    self.links(),
                    self.planned(),
                    self.stopped(),
                    self.recorded().push(BuildResult { node, outcome: Outcome::Skipped }),
                ),
                Event::Failed(reason) => skip_blocked(
                    self.links(),
                    self.planned(),
                    self.stopped() || reason == FailureReason::PrivilegeDenied,
                    self.recorded().push(BuildResult { node, outcome: Outcome::Failed(reason) }),
                ),
            }
        }
    }

    /// The step that is due after the word of how the due step went.
    pub open spec fn step_after_event(&self, event: Event) -> Step {
        if self.recorded().len() >= self.planned().len() {
            self.due_step()
        } else {
            match event {
                Event::Succeeded => match step_after(self.due_step(), self.reviews()) {
                    Some(following) => following,
                    None => Step::Fetch,
                },
                _ => Step::Fetch,
            }
        }
    }

    /// Whether the build is stopped after the word of how the due step went.
    pub open spec fn stopped_after(&self, event: Event) -> bool {
        if self.recorded().len() >= self.planned().len() {
            self.stopped()
        } else {
            match event {
                Event::Failed(reason) => self.stopped() || reason == FailureReason::PrivilegeDenied,
                _ => self.stopped(),
            }
        }
    }

    /// The build of a plan before its first step. Packages at the head of
    /// the plan that cannot be built are skipped at once.
    pub fn new(graph: Vec<Vec<Link>>, plan: Vec<usize>, review: bool) -> (state: Orchestrator)
        ensures
            state.links() == rows(graph@),
            state.planned() == plan@,
            state.reviews() == review,
            state.due_step() == Step::Fetch,
            !state.stopped(),
            state.recorded() == skip_blocked(rows(graph@), plan@, false, Seq::empty()),
    {
        let mut results: Vec<BuildResult> = Vec::new();
        settle(&graph, &plan, false, &mut results);
        Orchestrator { graph, plan, review, results, step: Step::Fetch, halted: false }
    }

    /// The results so far. They are those of the first packages of the plan,
    /// each package that could not be built when its turn came is skipped,
    /// and the package that is due can be built.
    pub fn results(&self) -> (results: &Vec<BuildResult>)
        ensures
            results@ == self.recorded(),
            consistent(self.links(), self.planned(), results@),
            ready(self.links(), self.planned(), self.stopped(), results@),
    {
        proof {
            use_type_invariant(self);
        }
        &self.results
    }

    /// Whether the rights to install were refused, so that nothing more is built.
    pub fn is_halted(&self) -> (halted: bool)
        ensures
            halted == self.stopped(),
    {
        self.halted
    }

    /// What is to be done next, or nothing when every package has its result.
    pub fn action(&self) -> (next: Option<Action>)
        ensures
            next == self.due(),
            next matches Some(a) ==> a.elevated == (a.step == Step::Install),
    {
        if self.results.len() < self.plan.len() {
            Some(
                Action {
                    node: self.plan[self.results.len()],
                    step: self.step,
                    elevated: self.step.is_elevated(),
                },
            )
        } else {
            None
        }
    }

    /// Whether every package of the plan has its result.
    pub fn is_finished(&self) -> (finished: bool)
        ensures
            finished == (self.recorded().len() >= self.planned().len()),
    {
        self.results.len() >= self.plan.len()
    }

    /// Takes the word of how the due step went.
    ///
    /// A step that was done leads to the next, the installation to the result
    /// `Built`. A failure ends the package as `Failed`, a rejection as
    /// `Skipped`. Then every package that comes next and needs one that was
    /// not built is skipped. When the rights to install are refused, all that
    /// is left is skipped. With nothing due, nothing changes.
    pub fn handle(&mut self, event: Event)
        ensures
            final(self).links() == old(self).links(),
            final(self).planned() == old(self).planned(),
            final(self).reviews() == old(self).reviews(),
            final(self).recorded() == old(self).results_after(event),
            final(self).due_step() == old(self).step_after_event(event),
            final(self).stopped() == old(self).stopped_after(event),
    {
        proof {
            use_type_invariant(&*self);
        }
        if self.results.len() >= self.plan.len() {
            return ;
        }
        let node = self.plan[self.results.len()];
        let mut halted = self.halted;
        let outcome = match event {
            Event::Succeeded => match self.step.next(self.review) {
                Some(following) => {
                    self.step = following;
                    return ;
                },
                None => Outcome::Built,
            },
            Event::Rejected => Outcome::Skipped,
            Event::Failed(reason) => {
                if reason == FailureReason::PrivilegeDenied {
                    halted = true;
                }
                Outcome::Failed(reason)
            },
        };
        proof {
            lemma_record_consistent(rows(self.graph@), self.plan@, self.results@, outcome);
        }
        let mut results = self.results.clone();
        assert(results@ =~= self.results@);
        results.push(BuildResult { node, outcome });
        settle(&self.graph, &self.plan, halted, &mut results);
        proof {
            if halted {
                assert(results@.len() >= self.plan@.len());
            }
        }
        self.results = results;
        self.halted = halted;
        self.step = Step::Fetch;
    }
}

} // verus!
