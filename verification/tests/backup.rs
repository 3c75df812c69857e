use aura_pm::backup::{backup, clean_snapshots, explicitly_installed, is_installed, restore, RestorePlan, Snapshot};
use aura_pm::cache::CacheEntry;
use aura_pm::package::{InstalledPackage, PackageId};
use aura_pm::version::Version;

fn id(name: &str, numbers: &[u64]) -> PackageId {
    PackageId::new(name.to_string(), Version::new(numbers.to_vec()))
}

fn installed(name: &str, numbers: &[u64], explicit: bool) -> InstalledPackage {
    InstalledPackage::new(id(name, numbers), explicit, Vec::new())
}

fn tarball(name: &str, numbers: &[u64]) -> CacheEntry {
    CacheEntry::new(name.to_string(), Version::new(numbers.to_vec()), format!("/var/cache/{}", name), true)
}

fn system() -> Vec<InstalledPackage> {
    vec![
        installed("firefox", &[120, 0], true),
        installed("glibc", &[2, 39], false),
        installed("vim", &[9, 1], true),
    ]
}

#[test]
fn backup_captures_the_explicit_packages() {
    let snapshot = backup(1700000000, &system());
    assert_eq!(snapshot.timestamp, 1700000000);
    assert_eq!(snapshot.explicitly_installed, vec![id("firefox", &[120, 0]), id("vim", &[9, 1])]);
}

#[test]
fn backup_of_an_empty_system_is_empty() {
    let snapshot = backup(7, &Vec::new());
    assert_eq!(snapshot, Snapshot { timestamp: 7, explicitly_installed: Vec::new() });
}

#[test]
fn explicitly_installed_keeps_the_order() {
    let found = explicitly_installed(&system());
    assert_eq!(found, vec![id("firefox", &[120, 0]), id("vim", &[9, 1])]);
}

#[test]
fn restore_right_after_backup_asks_nothing() {
    let sys = system();
    let snapshot = backup(1, &sys);
    let plan = restore(&snapshot, &sys, true);
    assert_eq!(plan, RestorePlan { install: Vec::new(), remove: Vec::new() });
    assert!(plan.is_empty());
    assert!(restore(&snapshot, &sys, false).is_empty());
}

#[test]
fn restore_installs_what_is_missing() {
    let snapshot = backup(1, &system());
    let now = vec![installed("glibc", &[2, 39], false), installed("vim", &[9, 1], true)];
    let plan = restore(&snapshot, &now, true);
    assert_eq!(plan.install, vec![id("firefox", &[120, 0])]);
    assert_eq!(plan.remove, Vec::new());
    assert!(!plan.is_empty());
}

#[test]
fn restore_removes_extras_only_when_asked() {
    let snapshot = backup(1, &system());
    let mut now = system();
    now.push(installed("htop", &[3, 3], true));
    now.push(installed("ncurses", &[6, 4], false));
    let with = restore(&snapshot, &now, true);
    assert_eq!(with.install, Vec::new());
    assert_eq!(with.remove, vec![id("htop", &[3, 3])]);
    let without = restore(&snapshot, &now, false);
    assert_eq!(without, RestorePlan { install: Vec::new(), remove: Vec::new() });
}

#[test]
fn restore_tells_versions_apart() {
    let snapshot = backup(1, &system());
    let now = vec![
        installed("firefox", &[121, 0], true),
        installed("glibc", &[2, 39], false),
        installed("vim", &[9, 1], true),
    ];
    let plan = restore(&snapshot, &now, true);
    assert_eq!(plan.install, vec![id("firefox", &[120, 0])]);
    assert_eq!(plan.remove, vec![id("firefox", &[121, 0])]);
}

#[test]
fn a_package_installed_as_dependency_is_not_missing() {
    let snapshot = Snapshot { timestamp: 1, explicitly_installed: vec![id("glibc", &[2, 39])] };
    let plan = restore(&snapshot, &system(), false);
    assert_eq!(plan.install, Vec::new());
}

#[test]
fn is_installed_looks_at_name_and_version() {
    let sys = system();
    assert!(is_installed(&sys, &id("glibc", &[2, 39])));
    assert!(!is_installed(&sys, &id("glibc", &[2, 40])));
    assert!(!is_installed(&sys, &id("emacs", &[2, 39])));
}

#[test]
fn package_is_in_list() {
    let list = vec![id("a", &[1]), id("b", &[2])];
    assert!(id("b", &[2]).is_in(&list));
    assert!(!id("b", &[1]).is_in(&list));
    assert!(id("a", &[1]).is_same_as(&id("a", &[1])));
    assert!(!id("a", &[1]).is_same_as(&id("a", &[1, 0])));
}

#[test]
fn snapshots_with_lost_tarballs_are_stale() {
    let cache = vec![tarball("firefox", &[120, 0]), tarball("vim", &[9, 1])];
    let whole = Snapshot { timestamp: 10, explicitly_installed: vec![id("firefox", &[120, 0]), id("vim", &[9, 1])] };
    let lost = Snapshot { timestamp: 20, explicitly_installed: vec![id("firefox", &[119, 0]), id("vim", &[9, 1])] };
    let empty = Snapshot { timestamp: 30, explicitly_installed: Vec::new() };
    let gone = Snapshot { timestamp: 40, explicitly_installed: vec![id("htop", &[3])] };
    assert!(whole.is_fully_cached(&cache));
    assert!(!lost.is_fully_cached(&cache));
    assert!(empty.is_fully_cached(&cache));
    let stale = clean_snapshots(&vec![whole, lost, empty, gone], &cache);
    assert_eq!(stale, vec![20, 40]);
}

#[test]
fn every_snapshot_with_packages_is_stale_with_an_empty_cache() {
    let one = Snapshot { timestamp: 1, explicitly_installed: vec![id("a", &[1])] };
    let none = Snapshot { timestamp: 2, explicitly_installed: Vec::new() };
    assert_eq!(clean_snapshots(&vec![one, none], &Vec::new()), vec![1]);
}
