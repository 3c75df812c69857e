use aura_pm::resolve::graph::{build_order, holds, Fault, Link};
use aura_pm::resolve::plan::{dependency_edges, error_of, resolve, Fate, PackageTarget, ResolveError};
use aura_pm::resolve::universe::{Lookup, PackageMetadata, RepoPackage, Universe};
use aura_pm::version::{Constraint, Relation, Version};

fn aur(name: &str, depends: &[&str]) -> PackageMetadata {
    PackageMetadata {
        name: name.to_string(),
        version: Version::new(vec![1, 0]),
        depends: depends.iter().map(|d| d.to_string()).collect(),
        optional_depends: Vec::new(),
        provides: Vec::new(),
        conflicts: Vec::new(),
    }
}

fn repo(name: &str, provides: &[&str]) -> RepoPackage {
    RepoPackage { name: name.to_string(), provides: provides.iter().map(|d| d.to_string()).collect() }
}

fn target(name: &str) -> PackageTarget {
    PackageTarget::new(name.to_string(), None)
}

fn names(universe: &Universe, plan: &Vec<usize>) -> Vec<String> {
    plan.iter().map(|i| universe.name_at(*i).unwrap()).collect()
}

#[test]
fn chain_of_two_aur_packages_on_a_repo_package() {
    let universe = Universe::new(vec![repo("C", &[])], vec![aur("A", &["B"]), aur("B", &["C"])]);
    let r = resolve(&universe, &vec![target("A")], false);
    assert_eq!(r.fates, vec![Fate::Build { root: 0 }]);
    assert_eq!(names(&universe, &r.plan), vec!["B", "A"]);
}

#[test]
fn repo_targets_are_left_to_the_package_manager() {
    let universe = Universe::new(vec![repo("C", &["c-virtual"])], vec![aur("A", &[])]);
    let r = resolve(&universe, &vec![target("C"), target("c-virtual")], false);
    assert_eq!(r.fates, vec![Fate::Repo, Fate::VirtualProvided]);
    assert_eq!(r.plan, Vec::<usize>::new());
}

#[test]
fn self_dependency_is_cyclic_and_sibling_resolves() {
    let universe = Universe::new(Vec::new(), vec![aur("loop", &["loop"]), aur("fine", &[])]);
    let r = resolve(&universe, &vec![target("loop"), target("fine")], false);
    assert_eq!(r.fates, vec![Fate::CyclicDependency { at: 0 }, Fate::Build { root: 1 }]);
    assert_eq!(names(&universe, &r.plan), vec!["fine"]);
}

#[test]
fn mutual_dependency_is_cyclic_and_sibling_resolves() {
    let universe = Universe::new(
        vec![repo("glibc", &[])],
        vec![aur("ping", &["glibc", "pong"]), aur("pong", &["ping"]), aur("fine", &["glibc"])],
    );
    let r = resolve(&universe, &vec![target("fine"), target("ping"), target("pong")], false);
    assert_eq!(
        r.fates,
        vec![Fate::Build { root: 2 }, Fate::CyclicDependency { at: 0 }, Fate::CyclicDependency { at: 1 }]
    );
    assert_eq!(names(&universe, &r.plan), vec!["fine"]);
    assert_eq!(
        error_of(&universe, &target("ping"), r.fates[1]),
        Some(ResolveError::CyclicDependency("ping".to_string()))
    );
}

#[test]
fn cycle_below_the_target_blames_the_package_on_it() {
    let universe = Universe::new(Vec::new(), vec![aur("top", &["a"]), aur("a", &["b"]), aur("b", &["a"])]);
    let r = resolve(&universe, &vec![target("top")], false);
    assert_eq!(r.fates, vec![Fate::CyclicDependency { at: 1 }]);
    assert_eq!(r.plan, Vec::<usize>::new());
}

#[test]
fn unknown_target_does_not_stop_the_others() {
    let universe = Universe::new(vec![repo("C", &[])], vec![aur("A", &["C"])]);
    let r = resolve(&universe, &vec![target("nowhere"), target("A")], false);
    assert_eq!(r.fates, vec![Fate::UnknownPackage, Fate::Build { root: 0 }]);
    assert_eq!(r.plan, vec![0]);
    assert_eq!(
        error_of(&universe, &target("nowhere"), r.fates[0]),
        Some(ResolveError::UnknownPackage("nowhere".to_string()))
    );
    assert_eq!(error_of(&universe, &target("A"), r.fates[1]), None);
}

#[test]
fn unknown_dependency_is_named() {
    let universe = Universe::new(Vec::new(), vec![aur("A", &["B"]), aur("B", &["ghost"])]);
    let r = resolve(&universe, &vec![target("A")], false);
    assert_eq!(r.fates, vec![Fate::UnknownDependency { package: 1, dependency: 0 }]);
    assert_eq!(r.plan, Vec::<usize>::new());
    assert_eq!(
        error_of(&universe, &target("A"), r.fates[0]),
        Some(ResolveError::UnknownPackage("ghost".to_string()))
    );
}

#[test]
fn shared_dependencies_are_built_once() {
    let universe = Universe::new(
        Vec::new(),
        vec![aur("A", &["shared", "B"]), aur("B", &["shared"]), aur("shared", &[]), aur("D", &["B"])],
    );
    let r = resolve(&universe, &vec![target("A"), target("D")], false);
    assert_eq!(r.fates, vec![Fate::Build { root: 0 }, Fate::Build { root: 3 }]);
    assert_eq!(names(&universe, &r.plan), vec!["shared", "B", "A", "D"]);
}

#[test]
fn the_same_target_twice_is_built_once() {
    let universe = Universe::new(Vec::new(), vec![aur("A", &[])]);
    let r = resolve(&universe, &vec![target("A"), target("A")], false);
    assert_eq!(r.fates, vec![Fate::Build { root: 0 }, Fate::Build { root: 0 }]);
    assert_eq!(r.plan, vec![0]);
}

#[test]
fn independent_packages_come_in_order_of_discovery() {
    let universe = Universe::new(Vec::new(), vec![aur("z", &[]), aur("y", &[]), aur("top", &["y", "z"])]);
    let r = resolve(&universe, &vec![target("top")], false);
    assert_eq!(names(&universe, &r.plan), vec!["y", "z", "top"]);
}

#[test]
fn plan_has_no_forward_references() {
    let universe = Universe::new(
        vec![repo("glibc", &[])],
        vec![
            aur("a", &["b", "c", "glibc"]),
            aur("b", &["d"]),
            aur("c", &["d", "e"]),
            aur("d", &["glibc"]),
            aur("e", &["b"]),
            aur("f", &["a", "e"]),
        ],
    );
    let r = resolve(&universe, &vec![target("f"), target("c")], false);
    let graph = universe.link_graph(false);
    for (at, node) in r.plan.iter().enumerate() {
        for link in &graph[*node] {
            if let Link::Aur(child) = link {
                let before = r.plan.iter().position(|n| n == child).unwrap();
                assert!(before < at);
            }
        }
    }
    assert_eq!(names(&universe, &r.plan), vec!["d", "b", "e", "c", "a", "f"]);
}

#[test]
fn repo_wins_over_aur_unless_forced() {
    let universe = Universe::new(vec![repo("both", &[])], vec![aur("both", &[])]);
    assert_eq!(universe.classify(&"both".to_string(), false), Link::Repo);
    assert_eq!(universe.classify(&"both".to_string(), true), Link::Aur(0));
    assert_eq!(resolve(&universe, &vec![target("both")], false).fates, vec![Fate::Repo]);
    let forced = resolve(&universe, &vec![target("both")], true);
    assert_eq!(forced.fates, vec![Fate::Build { root: 0 }]);
    assert_eq!(forced.plan, vec![0]);
}

#[test]
fn classify_tells_the_sources_apart() {
    let universe = Universe::new(vec![repo("jre", &["java-runtime"])], vec![aur("tool", &[]), aur("tool", &["x"])]);
    assert_eq!(universe.classify(&"jre".to_string(), false), Link::Repo);
    assert_eq!(universe.classify(&"java-runtime".to_string(), false), Link::VirtualProvided);
    assert_eq!(universe.classify(&"java-runtime".to_string(), true), Link::VirtualProvided);
    assert_eq!(universe.classify(&"tool".to_string(), false), Link::Aur(0));
    assert_eq!(universe.classify(&"nothing".to_string(), false), Link::Missing);
    assert!(universe.is_in_repo(&"jre".to_string()));
    assert!(!universe.is_in_repo(&"java-runtime".to_string()));
    assert!(universe.is_provided_by_repo(&"java-runtime".to_string()));
    assert_eq!(universe.find_in_aur(&"tool".to_string()), Some(0));
    assert_eq!(universe.find_in_aur(&"jre".to_string()), None);
}

#[test]
fn link_graph_has_a_row_for_each_aur_package() {
    let universe = Universe::new(
        vec![repo("C", &["virt"])],
        vec![aur("A", &["B", "C", "virt", "ghost"]), aur("B", &[])],
    );
    let graph = universe.link_graph(false);
    assert_eq!(
        graph,
        vec![vec![Link::Aur(1), Link::Repo, Link::VirtualProvided, Link::Missing], vec![]]
    );
}

#[test]
fn version_constraint_of_a_target_is_checked_against_the_aur() {
    let universe = Universe::new(Vec::new(), vec![aur("A", &[])]);
    let wants_newer = PackageTarget::new(
        "A".to_string(),
        Some(Constraint { relation: Relation::GreaterOrEqual, version: Version::new(vec![2]) }),
    );
    let wants_this = PackageTarget::new(
        "A".to_string(),
        Some(Constraint { relation: Relation::GreaterOrEqual, version: Version::new(vec![1]) }),
    );
    let r = resolve(&universe, &vec![wants_newer, wants_this], false);
    assert_eq!(r.fates, vec![Fate::UnknownPackage, Fate::Build { root: 0 }]);
    assert_eq!(r.plan, vec![0]);
}

#[test]
fn build_order_on_a_graph() {
    let graph = vec![
        vec![Link::Aur(1), Link::Repo, Link::Aur(2)],
        vec![Link::Aur(2)],
        vec![Link::VirtualProvided],
        vec![Link::Aur(3)],
        vec![Link::Aur(9)],
        vec![Link::Repo, Link::Missing],
    ];
    assert_eq!(build_order(&graph, 0), Ok(vec![2, 1, 0]));
    assert_eq!(build_order(&graph, 2), Ok(vec![2]));
    assert_eq!(build_order(&graph, 3), Err(Fault::Cycle { at: 3 }));
    assert_eq!(build_order(&graph, 4), Err(Fault::Unknown { package: 4, dependency: 0 }));
    assert_eq!(build_order(&graph, 5), Err(Fault::Unknown { package: 5, dependency: 1 }));
}

#[test]
fn build_order_of_a_root_outside_the_graph_fails() {
    let graph = vec![vec![Link::Repo]];
    assert_eq!(build_order(&graph, 1), Err(Fault::NoSuchPackage { package: 1 }));
    assert_eq!(build_order(&Vec::new(), 0), Err(Fault::NoSuchPackage { package: 0 }));
}

#[test]
fn build_order_walks_a_long_chain() {
    let n = 200usize;
    let mut graph: Vec<Vec<Link>> = Vec::new();
    for i in 0..n {
        graph.push(if i + 1 < n { vec![Link::Aur(i + 1)] } else { vec![] });
    }
    let order = build_order(&graph, 0).unwrap();
    let expected: Vec<usize> = (0..n).rev().collect();
    assert_eq!(order, expected);
}

#[test]
fn holds_finds_a_node() {
    assert!(holds(&vec![3, 1, 2], 1));
    assert!(!holds(&vec![3, 1, 2], 0));
    assert!(!holds(&Vec::new(), 0));
}

#[test]
fn lookup_answers_what_it_can() {
    let universe = Universe::new(Vec::new(), vec![aur("A", &[]), aur("B", &[])]);
    let asked = vec!["B".to_string(), "ghost".to_string(), "A".to_string(), "other".to_string()];
    assert_eq!(universe.lookup(&asked), Lookup { found: vec![1, 0], not_found: vec![1, 3] });
    assert_eq!(universe.lookup(&Vec::new()), Lookup { found: vec![], not_found: vec![] });
}

#[test]
fn name_at_is_none_past_the_end() {
    let universe = Universe::new(Vec::new(), vec![aur("A", &[])]);
    assert_eq!(universe.name_at(0), Some("A".to_string()));
    assert_eq!(universe.name_at(1), None);
}

#[test]
fn dependency_edges_list_aur_links() {
    let universe = Universe::new(vec![repo("C", &[])], vec![aur("A", &["B", "C"]), aur("B", &["C"]), aur("D", &["A", "B"])]);
    let graph = universe.link_graph(false);
    assert_eq!(dependency_edges(&graph, &vec![1, 0, 2]), vec![(0, 1), (2, 0), (2, 1)]);
    assert_eq!(dependency_edges(&graph, &vec![7]), Vec::<(usize, usize)>::new());
}

#[test]
fn error_of_falls_back_to_the_target() {
    let universe = Universe::new(Vec::new(), vec![aur("A", &[])]);
    assert_eq!(
        error_of(&universe, &target("T"), Fate::CyclicDependency { at: 5 }),
        Some(ResolveError::CyclicDependency("T".to_string()))
    );
    assert_eq!(
        error_of(&universe, &target("T"), Fate::UnknownDependency { package: 0, dependency: 3 }),
        Some(ResolveError::UnknownPackage("T".to_string()))
    );
    assert_eq!(error_of(&universe, &target("T"), Fate::Repo), None);
    assert_eq!(error_of(&universe, &target("T"), Fate::VirtualProvided), None);
}
