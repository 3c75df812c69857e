use aura_pm::backup::Snapshot;
use aura_pm::cache::{clean, clean_unsaved, is_cached, CacheEntry};
use aura_pm::package::PackageId;
use aura_pm::version::Version;

fn tarball(name: &str, numbers: &[u64]) -> CacheEntry {
    CacheEntry::new(
        name.to_string(),
        Version::new(numbers.to_vec()),
        format!("/var/cache/pacman/pkg/{}-{:?}.pkg.tar.zst", name, numbers),
        true,
    )
}

fn id(name: &str, numbers: &[u64]) -> PackageId {
    PackageId::new(name.to_string(), Version::new(numbers.to_vec()))
}

fn cache() -> Vec<CacheEntry> {
    vec![
        tarball("linux", &[6, 1]),
        tarball("vim", &[9, 0]),
        tarball("linux", &[6, 3]),
        tarball("linux", &[6, 2]),
        tarball("vim", &[9, 1]),
        tarball("htop", &[3, 3]),
        tarball("linux", &[5, 19]),
    ]
}

fn kept(cache: &Vec<CacheEntry>, swept: &Vec<usize>, name: &str) -> Vec<Vec<u64>> {
    let mut versions: Vec<Vec<u64>> = cache
        .iter()
        .enumerate()
        .filter(|(i, e)| !swept.contains(i) && e.package_name == name)
        .map(|(_, e)| e.version.numbers.clone())
        .collect();
    versions.sort();
    versions
}

#[test]
fn clean_keeps_the_latest_two() {
    let cache = cache();
    let swept = clean(&cache, 2);
    assert_eq!(swept, vec![0, 6]);
    assert_eq!(kept(&cache, &swept, "linux"), vec![vec![6, 2], vec![6, 3]]);
    assert_eq!(kept(&cache, &swept, "vim"), vec![vec![9, 0], vec![9, 1]]);
    assert_eq!(kept(&cache, &swept, "htop"), vec![vec![3, 3]]);
}

#[test]
fn clean_keeps_the_latest_one() {
    let cache = cache();
    let swept = clean(&cache, 1);
    assert_eq!(swept, vec![0, 1, 3, 6]);
    assert_eq!(kept(&cache, &swept, "linux"), vec![vec![6, 3]]);
    assert_eq!(kept(&cache, &swept, "vim"), vec![vec![9, 1]]);
}

#[test]
fn clean_with_zero_deletes_all() {
    let cache = cache();
    assert_eq!(clean(&cache, 0), vec![0, 1, 2, 3, 4, 5, 6]);
}

#[test]
fn clean_with_more_than_available_deletes_nothing() {
    let cache = cache();
    assert_eq!(clean(&cache, 4), Vec::<usize>::new());
    assert_eq!(clean(&cache, usize::MAX), Vec::<usize>::new());
}

#[test]
fn clean_leaves_min_of_keep_and_available() {
    let cache = cache();
    let available = [("linux", 4usize), ("vim", 2), ("htop", 1)];
    for keep in 0..6usize {
        let swept = clean(&cache, keep);
        for (name, count) in available {
            assert_eq!(kept(&cache, &swept, name).len(), keep.min(count));
        }
    }
}

#[test]
fn clean_of_an_empty_cache_is_empty() {
    assert_eq!(clean(&Vec::new(), 3), Vec::<usize>::new());
}

#[test]
fn clean_unsaved_deletes_what_no_snapshot_names() {
    let cache = cache();
    let snapshots = vec![
        Snapshot { timestamp: 1, explicitly_installed: vec![id("linux", &[6, 1]), id("vim", &[9, 1])] },
        Snapshot { timestamp: 2, explicitly_installed: vec![id("linux", &[6, 3]), id("emacs", &[29])] },
    ];
    assert_eq!(clean_unsaved(&cache, &snapshots), vec![1, 3, 5, 6]);
}

#[test]
fn clean_unsaved_without_snapshots_deletes_all() {
    let cache = cache();
    assert_eq!(clean_unsaved(&cache, &Vec::new()), vec![0, 1, 2, 3, 4, 5, 6]);
}

#[test]
fn is_saved_needs_the_same_version() {
    let snapshots = vec![Snapshot { timestamp: 1, explicitly_installed: vec![id("vim", &[9, 1])] }];
    assert!(tarball("vim", &[9, 1]).is_saved(&snapshots));
    assert!(!tarball("vim", &[9, 0]).is_saved(&snapshots));
}

#[test]
fn is_cached_looks_at_name_and_version() {
    let cache = cache();
    assert!(is_cached(&cache, &id("htop", &[3, 3])));
    assert!(!is_cached(&cache, &id("htop", &[3, 4])));
    assert!(!is_cached(&cache, &id("top", &[3, 3])));
}
