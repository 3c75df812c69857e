use aura_pm::orphans::{abandon, adopt, orphans};
use aura_pm::package::{contains_name, position_of_name, InstalledPackage, PackageId};
use aura_pm::version::Version;

fn package(name: &str, explicit: bool, depends: &[&str]) -> InstalledPackage {
    InstalledPackage::new(
        PackageId::new(name.to_string(), Version::new(vec![1])),
        explicit,
        depends.iter().map(|d| d.to_string()).collect(),
    )
}

fn system() -> Vec<InstalledPackage> {
    vec![
        package("app", true, &["lib"]),
        package("lib", false, &["base"]),
        package("base", false, &[]),
        package("old-tool", false, &["old-lib"]),
        package("old-lib", false, &["old-base", "base"]),
        package("old-base", false, &[]),
        package("editor", true, &[]),
    ]
}

#[test]
fn orphans_are_unneeded_dependencies() {
    assert_eq!(orphans(&system()), vec![3]);
}

#[test]
fn explicit_packages_are_never_orphans() {
    let sys = vec![package("a", true, &[]), package("b", true, &[])];
    assert_eq!(orphans(&sys), Vec::<usize>::new());
    assert_eq!(abandon(&sys), Vec::<usize>::new());
}

#[test]
fn abandon_follows_the_chain() {
    assert_eq!(abandon(&system()), vec![3, 4, 5]);
}

#[test]
fn abandon_keeps_what_is_still_needed() {
    let removed = abandon(&system());
    assert!(!removed.contains(&1));
    assert!(!removed.contains(&2));
}

#[test]
fn abandon_reaches_a_fixed_point() {
    let sys = system();
    let removed = abandon(&sys);
    let rest: Vec<InstalledPackage> = sys
        .into_iter()
        .enumerate()
        .filter(|(i, _)| !removed.contains(i))
        .map(|(_, p)| p)
        .collect();
    assert_eq!(orphans(&rest), Vec::<usize>::new());
    assert_eq!(abandon(&rest), Vec::<usize>::new());
}

#[test]
fn abandon_gives_the_same_set_in_any_order_of_the_list() {
    let sys = system();
    let mut names: Vec<String> = abandon(&sys).iter().map(|i| sys[*i].id.name.clone()).collect();
    names.sort();
    let mut reversed = system();
    reversed.reverse();
    let mut other: Vec<String> =
        abandon(&reversed).iter().map(|i| reversed[*i].id.name.clone()).collect();
    other.sort();
    assert_eq!(names, other);
    assert_eq!(names, vec!["old-base", "old-lib", "old-tool"]);
}

#[test]
fn removing_orphans_one_by_one_ends_where_abandon_does() {
    let sys = system();
    let expected: Vec<String> = {
        let removed = abandon(&sys);
        sys.iter().enumerate().filter(|(i, _)| !removed.contains(i)).map(|(_, p)| p.id.name.clone()).collect()
    };
    for pick_last in [false, true] {
        let mut rest = system();
        loop {
            let found = orphans(&rest);
            if found.is_empty() {
                break;
            }
            let at = if pick_last { found[found.len() - 1] } else { found[0] };
            rest.remove(at);
        }
        let names: Vec<String> = rest.iter().map(|p| p.id.name.clone()).collect();
        assert_eq!(names, expected);
    }
}

#[test]
fn dependency_cycles_of_unneeded_packages_stay() {
    let sys = vec![package("x", false, &["y"]), package("y", false, &["x"])];
    assert_eq!(orphans(&sys), Vec::<usize>::new());
    assert_eq!(abandon(&sys), Vec::<usize>::new());
}

#[test]
fn a_package_is_not_its_own_dependent() {
    let sys = vec![package("selfish", false, &["selfish"])];
    assert_eq!(orphans(&sys), vec![0]);
    assert_eq!(abandon(&sys), vec![0]);
}

#[test]
fn adopt_marks_packages_explicit() {
    let mut sys = system();
    adopt(&mut sys, &vec!["old-tool".to_string(), "nothing".to_string()]);
    assert!(sys[3].explicit);
    assert!(!sys[4].explicit);
    assert!(sys[0].explicit);
    assert_eq!(sys.len(), 7);
    assert_eq!(sys[3].id.name, "old-tool");
    assert_eq!(sys[3].depends, vec!["old-lib".to_string()]);
    assert_eq!(orphans(&sys), Vec::<usize>::new());
    assert_eq!(abandon(&sys), Vec::<usize>::new());
}

#[test]
fn adopt_of_nothing_changes_nothing() {
    let mut sys = system();
    adopt(&mut sys, &Vec::new());
    assert_eq!(sys, system());
}

#[test]
fn names_are_found_by_their_text() {
    let names = vec!["a".to_string(), "b".to_string(), "a".to_string()];
    assert!(contains_name(&names, &"b".to_string()));
    assert!(!contains_name(&names, &"c".to_string()));
    assert_eq!(position_of_name(&names, &"a".to_string()), Some(0));
    assert_eq!(position_of_name(&names, &"b".to_string()), Some(1));
    assert_eq!(position_of_name(&names, &"".to_string()), None);
}
