use aura_pm::orchestrator::{event_of, needs_build, Event, FailureReason, Step, StepReport, MISSING_DEPENDENCY_CODE};
use aura_pm::package::{InstalledPackage, PackageId};
use aura_pm::resolve::universe::{PackageMetadata, Universe};
use aura_pm::retry::Backoff;
use aura_pm::text::{has_ending, is_version_controlled};
use aura_pm::version::Version;

fn report(code: Option<i32>) -> StepReport {
    StepReport { declined: false, privilege_denied: false, local_changes: false, unreachable: false, exit_code: code }
}

#[test]
fn exit_code_zero_is_success() {
    for step in [Step::Fetch, Step::Review, Step::Build, Step::Install] {
        assert_eq!(event_of(step, &report(Some(0))), Event::Succeeded);
    }
}

#[test]
fn other_exit_codes_are_failures_of_the_program() {
    assert_eq!(event_of(Step::Fetch, &report(Some(1))), Event::Failed(FailureReason::SubprocessFailure));
    assert_eq!(event_of(Step::Install, &report(Some(8))), Event::Failed(FailureReason::SubprocessFailure));
    assert_eq!(event_of(Step::Build, &report(Some(-1))), Event::Failed(FailureReason::SubprocessFailure));
}

#[test]
fn a_build_tells_of_a_missing_dependency() {
    assert_eq!(MISSING_DEPENDENCY_CODE, 8);
    assert_eq!(event_of(Step::Build, &report(Some(8))), Event::Failed(FailureReason::MissingDependency));
}

#[test]
fn a_signal_is_an_interruption() {
    assert_eq!(event_of(Step::Build, &report(None)), Event::Failed(FailureReason::Interrupted));
}

#[test]
fn local_changes_and_network_fail_the_fetch_only() {
    let changed = StepReport { local_changes: true, ..report(Some(1)) };
    assert_eq!(event_of(Step::Fetch, &changed), Event::Failed(FailureReason::LocalChanges));
    assert_eq!(event_of(Step::Build, &changed), Event::Failed(FailureReason::SubprocessFailure));
    let offline = StepReport { unreachable: true, ..report(Some(128)) };
    assert_eq!(event_of(Step::Fetch, &offline), Event::Failed(FailureReason::NetworkError));
    assert_eq!(event_of(Step::Install, &offline), Event::Failed(FailureReason::SubprocessFailure));
    let both = StepReport { local_changes: true, unreachable: true, ..report(Some(1)) };
    assert_eq!(event_of(Step::Fetch, &both), Event::Failed(FailureReason::LocalChanges));
}

#[test]
fn declining_and_refused_rights_come_first() {
    let declined = StepReport { declined: true, privilege_denied: true, ..report(Some(0)) };
    assert_eq!(event_of(Step::Review, &declined), Event::Rejected);
    let refused = StepReport { privilege_denied: true, local_changes: true, ..report(Some(0)) };
    assert_eq!(event_of(Step::Install, &refused), Event::Failed(FailureReason::PrivilegeDenied));
    assert_eq!(event_of(Step::Fetch, &refused), Event::Failed(FailureReason::PrivilegeDenied));
}

#[test]
fn version_controlled_packages_are_rebuilt_when_forced() {
    assert!(needs_build(true, false, false));
    assert!(needs_build(true, true, true));
    assert!(!needs_build(false, false, false));
    assert!(!needs_build(false, true, false));
    assert!(!needs_build(false, false, true));
    assert!(needs_build(false, true, true));
}

#[test]
fn endings_are_told() {
    assert!(has_ending("neovim-git", "-git"));
    assert!(has_ending("-git", "-git"));
    assert!(!has_ending("git", "-git"));
    assert!(!has_ending("neovim-git-bin", "-git"));
    assert!(has_ending("anything", ""));
    assert!(has_ending("", ""));
    assert!(!has_ending("", "x"));
}

#[test]
fn version_controlled_names_are_told() {
    assert!(is_version_controlled("neovim-git"));
    assert!(is_version_controlled("tool-svn"));
    assert!(is_version_controlled("tool-hg"));
    assert!(is_version_controlled("tool-bzr"));
    assert!(!is_version_controlled("neovim"));
    assert!(!is_version_controlled("git"));
    assert!(!is_version_controlled("legit"));
}

fn aur(name: &str, numbers: &[u64]) -> PackageMetadata {
    PackageMetadata {
        name: name.to_string(),
        version: Version::new(numbers.to_vec()),
        depends: Vec::new(),
        optional_depends: Vec::new(),
        provides: Vec::new(),
        conflicts: Vec::new(),
    }
}

fn installed(name: &str, numbers: &[u64]) -> InstalledPackage {
    InstalledPackage::new(PackageId::new(name.to_string(), Version::new(numbers.to_vec())), true, Vec::new())
}

#[test]
fn outdated_are_those_behind_the_aur() {
    let universe = Universe::new(
        Vec::new(),
        vec![aur("old", &[2, 0]), aur("same", &[1, 0]), aur("ahead", &[1, 0]), aur("tool-git", &[1, 0])],
    );
    let system = vec![
        installed("old", &[1, 9]),
        installed("same", &[1, 0]),
        installed("ahead", &[1, 1]),
        installed("tool-git", &[1, 0]),
        installed("native", &[1, 0]),
    ];
    assert_eq!(universe.outdated(&system, false), vec![0]);
    assert_eq!(universe.outdated(&system, true), vec![0, 3]);
    assert_eq!(universe.outdated(&Vec::new(), true), Vec::<usize>::new());
}

#[test]
fn waits_double_up_to_the_longest() {
    let policy = Backoff { retries: 5, first_wait: 500, longest_wait: 3000 };
    assert_eq!(policy.wait(0), None);
    assert_eq!(policy.wait(1), Some(500));
    assert_eq!(policy.wait(2), Some(1000));
    assert_eq!(policy.wait(3), Some(2000));
    assert_eq!(policy.wait(4), Some(3000));
    assert_eq!(policy.wait(5), Some(3000));
    assert_eq!(policy.wait(6), None);
}

#[test]
fn waits_do_not_overflow() {
    let policy = Backoff { retries: u32::MAX, first_wait: u64::MAX / 2 + 1, longest_wait: u64::MAX };
    assert_eq!(policy.wait(1), Some(u64::MAX / 2 + 1));
    assert_eq!(policy.wait(2), Some(u64::MAX));
    assert_eq!(policy.wait(200), Some(u64::MAX));
    let small = Backoff { retries: 100, first_wait: 1, longest_wait: u64::MAX };
    assert_eq!(small.wait(64), Some(1u64 << 63));
    assert_eq!(small.wait(65), Some(u64::MAX));
    let slow = Backoff { retries: 3, first_wait: 10, longest_wait: 5 };
    assert_eq!(slow.wait(1), Some(5));
    let none = Backoff { retries: 0, first_wait: 10, longest_wait: 50 };
    assert_eq!(none.wait(1), None);
    let zero = Backoff { retries: 4, first_wait: 0, longest_wait: 50 };
    assert_eq!(zero.wait(4), Some(0));
}
