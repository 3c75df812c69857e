use aura_pm::orchestrator::{
    exit_code, is_blocked, packages_ending, summarize, was_built, Action, BuildResult, Ending, Event,
    FailureReason, Orchestrator, Outcome, Step, Summary,
};
use aura_pm::resolve::graph::Link;
use aura_pm::resolve::plan::{resolve, PackageTarget};
use aura_pm::resolve::universe::{PackageMetadata, RepoPackage, Universe};
use aura_pm::version::Version;

fn aur(name: &str, depends: &[&str]) -> PackageMetadata {
    PackageMetadata {
        name: name.to_string(),
        version: Version::new(vec![1]),
        depends: depends.iter().map(|d| d.to_string()).collect(),
        optional_depends: Vec::new(),
        provides: Vec::new(),
        conflicts: Vec::new(),
    }
}

fn chain() -> (Vec<Vec<Link>>, Vec<usize>) {
    let universe = Universe::new(
        vec![RepoPackage { name: "C".to_string(), provides: Vec::new() }],
        vec![aur("A", &["B"]), aur("B", &["C"])],
    );
    let r = resolve(&universe, &vec![PackageTarget::new("A".to_string(), None)], false);
    (universe.link_graph(false), r.plan)
}

fn act(node: usize, step: Step) -> Option<Action> {
    Some(Action { node, step, elevated: step == Step::Install })
}

fn result(node: usize, outcome: Outcome) -> BuildResult {
    BuildResult { node, outcome }
}

#[test]
fn failed_fetch_of_a_dependency_skips_the_dependent() {
    let (graph, plan) = chain();
    assert_eq!(plan, vec![1, 0]);
    let mut state = Orchestrator::new(graph, plan, false);
    assert_eq!(state.action(), act(1, Step::Fetch));
    state.handle(Event::Failed(FailureReason::LocalChanges));
    assert_eq!(state.action(), None);
    assert!(state.is_finished());
    assert_eq!(
        *state.results(),
        vec![result(1, Outcome::Failed(FailureReason::LocalChanges)), result(0, Outcome::Skipped)]
    );
    assert_eq!(exit_code(state.results()), 1);
}

#[test]
fn a_plan_runs_through_all_steps() {
    let (graph, plan) = chain();
    let mut state = Orchestrator::new(graph, plan, false);
    let mut seen: Vec<Action> = Vec::new();
    while let Some(action) = state.action() {
        seen.push(action);
        state.handle(Event::Succeeded);
    }
    let expected: Vec<Action> = [
        (1, Step::Fetch),
        (1, Step::Build),
        (1, Step::Install),
        (0, Step::Fetch),
        (0, Step::Build),
        (0, Step::Install),
    ]
    .iter()
    .map(|(n, s)| act(*n, *s).unwrap())
    .collect();
    assert_eq!(seen, expected);
    assert_eq!(*state.results(), vec![result(1, Outcome::Built), result(0, Outcome::Built)]);
    assert_eq!(exit_code(state.results()), 0);
}

#[test]
fn review_comes_between_fetch_and_build() {
    let (graph, plan) = chain();
    let mut state = Orchestrator::new(graph, plan, true);
    state.handle(Event::Succeeded);
    assert_eq!(state.action(), act(1, Step::Review));
    state.handle(Event::Succeeded);
    assert_eq!(state.action(), act(1, Step::Build));
}

#[test]
fn rejecting_a_review_skips_the_package_and_its_dependents() {
    let (graph, plan) = chain();
    let mut state = Orchestrator::new(graph, plan, true);
    state.handle(Event::Succeeded);
    state.handle(Event::Rejected);
    assert_eq!(*state.results(), vec![result(1, Outcome::Skipped), result(0, Outcome::Skipped)]);
    assert_eq!(state.action(), None);
}

#[test]
fn only_install_runs_elevated() {
    assert!(!Step::Fetch.is_elevated());
    assert!(!Step::Review.is_elevated());
    assert!(!Step::Build.is_elevated());
    assert!(Step::Install.is_elevated());
    let (graph, plan) = chain();
    let mut state = Orchestrator::new(graph, plan, true);
    while let Some(action) = state.action() {
        assert_eq!(action.elevated, action.step == Step::Install);
        state.handle(Event::Succeeded);
    }
}

#[test]
fn steps_follow_each_other() {
    assert_eq!(Step::Fetch.next(false), Some(Step::Build));
    assert_eq!(Step::Fetch.next(true), Some(Step::Review));
    assert_eq!(Step::Review.next(false), Some(Step::Build));
    assert_eq!(Step::Build.next(true), Some(Step::Install));
    assert_eq!(Step::Install.next(false), None);
}

#[test]
fn a_failure_leaves_independent_packages_alone() {
    let graph = vec![vec![], vec![], vec![Link::Aur(0)], vec![Link::Aur(1), Link::Repo]];
    let mut state = Orchestrator::new(graph, vec![0, 1, 2, 3], false);
    state.handle(Event::Succeeded);
    state.handle(Event::Failed(FailureReason::MissingDependency));
    assert_eq!(state.action(), act(1, Step::Fetch));
    state.handle(Event::Succeeded);
    state.handle(Event::Succeeded);
    state.handle(Event::Succeeded);
    assert_eq!(state.action(), act(3, Step::Fetch));
    state.handle(Event::Succeeded);
    state.handle(Event::Failed(FailureReason::Interrupted));
    assert_eq!(
        *state.results(),
        vec![
            result(0, Outcome::Failed(FailureReason::MissingDependency)),
            result(1, Outcome::Built),
            result(2, Outcome::Skipped),
            result(3, Outcome::Failed(FailureReason::Interrupted)),
        ]
    );
    assert_eq!(
        summarize(state.results()),
        Summary { succeeded: vec![1], failed: vec![0, 3], skipped: vec![2] }
    );
    assert_eq!(exit_code(state.results()), 1);
}

#[test]
fn skips_cascade_through_the_plan() {
    let graph = vec![vec![], vec![Link::Aur(0)], vec![Link::Aur(1)], vec![Link::Aur(2)]];
    let mut state = Orchestrator::new(graph, vec![0, 1, 2, 3], false);
    state.handle(Event::Succeeded);
    state.handle(Event::Failed(FailureReason::SubprocessFailure));
    assert_eq!(
        *state.results(),
        vec![
            result(0, Outcome::Failed(FailureReason::SubprocessFailure)),
            result(1, Outcome::Skipped),
            result(2, Outcome::Skipped),
            result(3, Outcome::Skipped),
        ]
    );
}

#[test]
fn refused_rights_end_the_whole_build() {
    let graph = vec![vec![], vec![], vec![]];
    let mut state = Orchestrator::new(graph, vec![0, 1, 2], false);
    state.handle(Event::Succeeded);
    state.handle(Event::Succeeded);
    assert_eq!(state.action(), act(0, Step::Install));
    state.handle(Event::Failed(FailureReason::PrivilegeDenied));
    assert!(state.is_halted());
    assert_eq!(state.action(), None);
    assert_eq!(
        *state.results(),
        vec![
            result(0, Outcome::Failed(FailureReason::PrivilegeDenied)),
            result(1, Outcome::Skipped),
            result(2, Outcome::Skipped),
        ]
    );
}

#[test]
fn a_plan_with_a_missing_dependency_is_skipped_from_the_start() {
    let graph = vec![vec![Link::Missing], vec![]];
    let state = Orchestrator::new(graph, vec![0, 1], false);
    assert_eq!(*state.results(), vec![result(0, Outcome::Skipped)]);
    assert_eq!(state.action(), act(1, Step::Fetch));
}

#[test]
fn a_node_outside_the_graph_is_skipped() {
    let state = Orchestrator::new(vec![vec![]], vec![4], false);
    assert_eq!(*state.results(), vec![result(4, Outcome::Skipped)]);
    assert!(state.is_finished());
}

#[test]
fn an_empty_plan_is_finished() {
    let mut state = Orchestrator::new(Vec::new(), Vec::new(), true);
    assert!(state.is_finished());
    assert_eq!(state.action(), None);
    state.handle(Event::Succeeded);
    assert_eq!(*state.results(), Vec::new());
    assert_eq!(exit_code(state.results()), 0);
}

#[test]
fn blocked_means_an_unbuilt_dependency() {
    let graph = vec![vec![Link::Aur(1), Link::Repo], vec![]];
    let built = vec![result(1, Outcome::Built)];
    let failed = vec![result(1, Outcome::Failed(FailureReason::NetworkError))];
    assert!(!is_blocked(&graph, &built, 0));
    assert!(is_blocked(&graph, &failed, 0));
    assert!(is_blocked(&graph, &Vec::new(), 0));
    assert!(!is_blocked(&graph, &Vec::new(), 1));
    assert!(is_blocked(&graph, &built, 2));
    assert!(was_built(&built, 1));
    assert!(!was_built(&failed, 1));
    assert!(!was_built(&built, 0));
}

#[test]
fn summary_lists_each_package_once() {
    let results = vec![
        result(5, Outcome::Skipped),
        result(3, Outcome::Built),
        result(9, Outcome::Failed(FailureReason::NetworkError)),
        result(1, Outcome::Built),
    ];
    assert_eq!(packages_ending(&results, Ending::Built), vec![3, 1]);
    assert_eq!(packages_ending(&results, Ending::Failed), vec![9]);
    assert_eq!(packages_ending(&results, Ending::Skipped), vec![5]);
    assert_eq!(Outcome::Failed(FailureReason::Interrupted).kind(), Ending::Failed);
    assert_eq!(Outcome::Built.kind(), Ending::Built);
    assert_eq!(Outcome::Skipped.kind(), Ending::Skipped);
    assert_eq!(exit_code(&vec![result(0, Outcome::Skipped)]), 1);
    assert_eq!(exit_code(&vec![result(0, Outcome::Built), result(1, Outcome::Built)]), 0);
}
