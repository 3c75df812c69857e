//! Resolution of the requested packages: the fate of each target and the one
//! build plan for all that can be built.

use vstd::prelude::*;
use crate::package::{contains_name, texts};
use crate::resolve::graph::{build_order, holds, order_from, rows, Fault, Link};
use crate::resolve::laws::{
    begins_with,
    buildable,
    countable,
    lemma_order_sound,
    lemma_ready_in_longer,
    link_met,
    order_sound,
    ready_at,
};
use crate::resolve::universe::{is_first_named, lemma_aur_place, in_aur, Universe};
use crate::text::{
    dependency_name,
    dependency_name_in,
    find_operator,
    has_operator,
    numbers_in,
    operator_place,
};
use crate::version::{Constraint, Relation, Version};
use vstd::string::StrSliceExecFns;

verus! {

/// A package that was asked for, with the version that is wanted of it.
#[derive(Debug, PartialEq, Eq)]
pub struct PackageTarget {
    /// The name of the package.
    pub name: String,
    /// What its version has to meet, if anything.
    pub constraint: Option<Constraint>,
}

/// What becomes of a target.
#[derive(Debug, Clone, Copy, PartialEq, Eq, Structural)]
pub enum Fate {
    /// The repositories have it: the package manager installs it.
    Repo,
    /// A package of the repositories provides it: the package manager installs that.
    VirtualProvided,
    /// The AUR package at place `root` is built, after all that it needs.
    Build { root: usize },
    /// Neither source has the target in a version that is wanted.
    UnknownPackage,
    /// The dependency at place `dependency` of the AUR package `package` is found nowhere.
    UnknownDependency { package: usize, dependency: usize },
    /// The AUR package `at`, which the target needs, needs itself.
    CyclicDependency { at: usize },
}

/// The outcome of a resolution.
#[derive(Debug, PartialEq, Eq)]
pub struct Resolution {
    /// The fate of each target, in the order of the targets.
    pub fates: Vec<Fate>,
    /// The AUR packages to build, by their places, each after those it depends on.
    pub plan: Vec<usize>,
}

/// `plan`, and after it those nodes of `order` that it lacks, in their order.
pub open spec fn merged(plan: Seq<usize>, order: Seq<usize>) -> Seq<usize>
    decreases order.len(),
{
    if order.len() == 0 {
        plan
    } else {
        let before = merged(plan, order.drop_last());
        if before.contains(order.last()) {
            before
        } else {
            before.push(order.last())
        }
    }
}

impl PackageTarget {
    /// Whether a version is one that the target wants.
    pub open spec fn admits(&self, version: Seq<u64>) -> bool {
        match self.constraint {
            Some(constraint) => constraint.admits(version),
            None => true,
        }
    }

    /// The relation that a demand on a version begins with at place `at`:
    /// `<`, `<=`, `>`, `>=` or `=`.
    pub open spec fn relation_at(s: Seq<char>, at: int) -> Relation {
        let or_equal = at + 1 < s.len() && s[at + 1] == '=';
        if s[at] == '<' {
            if or_equal {
                Relation::LessOrEqual
            } else {
                Relation::Less
            }
        } else if s[at] == '>' {
            if or_equal {
                Relation::GreaterOrEqual
            } else {
                Relation::Greater
            }
        } else {
            Relation::Equal
        }
    }

    /// Reads a target as it is given on the command line: a name, or a name
    /// with a demand on the version, such as `glibc>=2.39`.
    pub fn parse(text: &str) -> (target: PackageTarget)
        ensures
            target.name@ == dependency_name_in(text@),
            match target.constraint {
                Some(constraint) => {
                    &&& has_operator(text@)
                    &&& constraint.relation == PackageTarget::relation_at(
                        text@,
                        operator_place(text@),
                    )
                    &&& constraint.version@ == numbers_in(
                        text@.subrange(operator_place(text@) + 1, text@.len() as int),
                    )
                },
                None => !has_operator(text@),
            },
    {
        let name = dependency_name(text);
        match find_operator(text) {
            Some(at) => {
                let n = text.unicode_len();
                let first = text.get_char(at);
                let or_equal = at + 1 < n && text.get_char(at + 1) == '=';
                let relation = if first == '<' {
                    if or_equal {
                        Relation::LessOrEqual
                    } else {
                        Relation::Less
                    }
                } else if first == '>' {
                    if or_equal {
                        Relation::GreaterOrEqual
                    } else {
                        Relation::Greater
                    }
                } else {
                    Relation::Equal
                };
                let version = Version::parse(text.substring_char(at + 1, n));
                PackageTarget { name, constraint: Some(Constraint { relation, version }) }
            },
            None => PackageTarget { name, constraint: None },
        }
    }

    /// A target of the given name and constraint.
    pub fn new(name: String, constraint: Option<Constraint>) -> (target: PackageTarget)
        ensures
            target.name == name,
            target.constraint == constraint,
    {
        PackageTarget { name, constraint }
    }
}

/// What becomes of a target: a target that the repositories have is left to
/// the package manager; one that only the AUR has is built if the AUR has it
/// in a wanted version and it has a build order.
pub open spec fn fate_of(universe: Universe, force_aur: bool, target: PackageTarget) -> Fate {
    match universe.link_for(target.name@, force_aur) {
        Link::Repo => Fate::Repo,
        Link::VirtualProvided => Fate::VirtualProvided,
        Link::Missing => Fate::UnknownPackage,
        Link::Aur(root) => if !target.admits(universe.aur@[root as int].version@) {
            Fate::UnknownPackage
        } else {
            match order_from(universe.links(force_aur), root) {
                Ok(_) => Fate::Build { root },
                Err(Fault::Cycle { at }) => Fate::CyclicDependency { at },
                Err(Fault::Unknown { package, dependency }) => Fate::UnknownDependency {
                    package,
                    dependency,
                },
                Err(Fault::NoSuchPackage { .. }) => Fate::UnknownPackage,
            }
        },
    }
}

/// The build plan of a list of targets: the build orders of the targets that
/// are built, merged in the order of the targets.
pub open spec fn plan_of(universe: Universe, force_aur: bool, targets: Seq<PackageTarget>) -> Seq<usize>
    decreases targets.len(),
{
    if targets.len() == 0 {
        Seq::empty()
    } else {
        let before = plan_of(universe, force_aur, targets.drop_last());
        match fate_of(universe, force_aur, targets.last()) {
            Fate::Build { root } => merged(
                before,
                order_from(universe.links(force_aur), root)->Ok_0,
            ),
            _ => before,
        }
    }
}

/// The links of a universe can be counted.
pub proof fn lemma_links_countable(universe: Universe, force_aur: bool)
    ensures
        countable(universe.links(force_aur)),
{
    assert forall|i: int| 0 <= i < universe.links(force_aur).len() implies (
    #[trigger] universe.links(force_aur)[i]).len() <= usize::MAX by {
        assert(universe.aur@[i].depends@.len() == universe.aur@[i].depends.len());
    }
}

/// A prefix of an order without forward references has none either.
proof fn lemma_buildable_prefix(g: Seq<Seq<Link>>, order: Seq<usize>)
    requires
        buildable(g, order),
        order.len() > 0,
    ensures
        buildable(g, order.drop_last()),
{
    let front = order.drop_last();
    assert forall|i: int| 0 <= i < front.len() implies #[trigger] ready_at(g, front, i) by {
        assert(ready_at(g, order, i));
        assert forall|k: int| 0 <= k < g[front[i] as int].len() implies link_met(
            g,
            front,
            i,
            #[trigger] g[front[i] as int][k],
        ) by {
            let link = g[order[i] as int][k];
            assert(link_met(g, order, i, link));
            if let Link::Aur(child) = link {
                let j = choose|j: int| 0 <= j < i && #[trigger] order[j] == child;
                assert(front[j] == child);
            }
        }
    }
}

/// Merging an order into a plan keeps the plan at the front, adds exactly the
/// nodes of the order that the plan lacked, repeats none, and leaves no
/// forward reference.
pub proof fn lemma_merged(g: Seq<Seq<Link>>, plan: Seq<usize>, order: Seq<usize>)
    requires
        buildable(g, plan),
        plan.no_duplicates(),
        buildable(g, order),
    ensures
        begins_with(merged(plan, order), plan),
        buildable(g, merged(plan, order)),
        merged(plan, order).no_duplicates(),
        forall|x: usize|
            merged(plan, order).contains(x) <==> plan.contains(x) || order.contains(x),
    decreases order.len(),
{
    if order.len() > 0 {
        let front = order.drop_last();
        let last = order.last();
        lemma_buildable_prefix(g, order);
        lemma_merged(g, plan, front);
        let before = merged(plan, front);
        let all = merged(plan, order);
        assert forall|x: usize| order.contains(x) <==> front.contains(x) || x == last by {
            if order.contains(x) {
                let i = choose|i: int| 0 <= i < order.len() && order[i] == x;
                if i < front.len() {
                    assert(front[i] == x);
                }
            }
            if front.contains(x) {
                let i = choose|i: int| 0 <= i < front.len() && front[i] == x;
                assert(order[i] == x);
            }
            assert(order[order.len() - 1] == last);
        }
        if !before.contains(last) {
            assert(all == before.push(last));
            assert(begins_with(all, before));
            assert(all[before.len() as int] == last);
            assert forall|x: usize| all.contains(x) <==> before.contains(x) || x == last by {
                if all.contains(x) {
                    let i = choose|i: int| 0 <= i < all.len() && all[i] == x;
                    if i < before.len() {
                        assert(before[i] == x);
                    }
                }
                if before.contains(x) {
                    let i = choose|i: int| 0 <= i < before.len() && before[i] == x;
                    assert(all[i] == x);
                }
            }
            assert(all.no_duplicates()) by {
                assert forall|i: int, j: int|
                    0 <= i < all.len() && 0 <= j < all.len() && i != j implies all[i]
                    != all[j] by {
                    if i < before.len() && j < before.len() {
                        assert(all[i] == before[i] && all[j] == before[j]);
                    } else if i < before.len() {
                        assert(before[i] == all[i]);
                        assert(before.contains(all[i]));
                    } else {
                        assert(before[j] == all[j]);
                        assert(before.contains(all[j]));
                    }
                }
            }
            assert(buildable(g, all)) by {
                assert forall|i: int| 0 <= i < all.len() implies #[trigger] ready_at(
                    g,
                    all,
                    i,
                ) by {
                    if i < before.len() {
                        assert(ready_at(g, before, i));
                        lemma_ready_in_longer(g, all, before, i);
                    } else {
                        let at = order.len() - 1;
                        assert(ready_at(g, order, at));
                        assert forall|k: int| 0 <= k < g[last as int].len() implies link_met(
                            g,
                            all,
                            i,
                            #[trigger] g[last as int][k],
                        ) by {
                            let link = g[last as int][k];
                            assert(link_met(g, order, at, link));
                            if let Link::Aur(child) = link {
                                let j = choose|j: int| 0 <= j < at && #[trigger] order[j] == child;
                                assert(front[j] == child);
                                assert(front.contains(child));
                                assert(before.contains(child));
                                let m = choose|m: int| 0 <= m < before.len() && before[m] == child;
                                assert(all[m] == child);
                            }
                        }
                    }
                }
            }
        }
    }
}

/// The build plan of any list of targets has no forward reference: every
/// package stands once, after the AUR packages that it depends on, and none
/// of its dependencies is missing.
pub proof fn lemma_plan_buildable(universe: Universe, force_aur: bool, targets: Seq<PackageTarget>)
    ensures
        buildable(universe.links(force_aur), plan_of(universe, force_aur, targets)),
        plan_of(universe, force_aur, targets).no_duplicates(),
    decreases targets.len(),
{
    let g = universe.links(force_aur);
    if targets.len() > 0 {
        lemma_plan_buildable(universe, force_aur, targets.drop_last());
        lemma_built_target(universe, force_aur, targets.last());
        if let Fate::Build { root } = fate_of(universe, force_aur, targets.last()) {
            lemma_merged(
                g,
                plan_of(universe, force_aur, targets.drop_last()),
                order_from(g, root)->Ok_0,
            );
        }
    }
}

/// A target that is built has a sound build order, rooted at the first AUR
/// package of its name.
pub proof fn lemma_built_target(universe: Universe, force_aur: bool, target: PackageTarget)
    ensures
        fate_of(universe, force_aur, target) matches Fate::Build { root } ==> {
            &&& is_first_named(universe.aur@, target.name@, root as int)
            &&& order_from(universe.links(force_aur), root) is Ok
            &&& order_sound(
                universe.links(force_aur),
                root,
                order_from(universe.links(force_aur), root),
            )
        },
{
    if let Fate::Build { root } = fate_of(universe, force_aur, target) {
        assert(in_aur(universe.aur@, target.name@));
        lemma_aur_place(universe.aur, target.name@);
        lemma_links_countable(universe, force_aur);
        lemma_order_sound(universe.links(force_aur), root);
    }
}

/// The plan holds the whole build order of every target that is built: what
/// one target needs is built whatever becomes of the others.
pub proof fn lemma_plan_holds_built_targets(
    universe: Universe,
    force_aur: bool,
    targets: Seq<PackageTarget>,
    t: int,
    x: usize,
)
    requires
        0 <= t < targets.len(),
        fate_of(universe, force_aur, targets[t]) matches Fate::Build { root } && order_from(
            universe.links(force_aur),
            root,
        )->Ok_0.contains(x),
    ensures
        plan_of(universe, force_aur, targets).contains(x),
    decreases targets.len(),
{
    let g = universe.links(force_aur);
    let front = targets.drop_last();
    lemma_plan_buildable(universe, force_aur, front);
    lemma_built_target(universe, force_aur, targets.last());
    let before = plan_of(universe, force_aur, front);
    if let Fate::Build { root } = fate_of(universe, force_aur, targets.last()) {
        lemma_merged(g, before, order_from(g, root)->Ok_0);
    }
    if t < targets.len() - 1 {
        assert(front[t] == targets[t]);
        lemma_plan_holds_built_targets(universe, force_aur, front, t, x);
    }
}

/// Adds to `plan` those nodes of `order` that it lacks, in their order.
fn merge_into(plan: &mut Vec<usize>, order: &Vec<usize>)
    ensures
        final(plan)@ == merged(old(plan)@, order@),
{
    let mut i: usize = 0;
    assert(order@.subrange(0, 0) =~= Seq::empty());
    while i < order.len()
        invariant
            i <= order.len(),
            plan@ == merged(old(plan)@, order@.subrange(0, i as int)),
        decreases order.len() - i,
    {
        assert(order@.subrange(0, i + 1).drop_last() =~= order@.subrange(0, i as int));
        if !holds(plan, order[i]) {
            plan.push(order[i]);
        }
        i += 1;
    }
    assert(order@.subrange(0, i as int) =~= order@);
}

/// Resolves the targets against what is known of the two sources.
///
/// Each target gets its fate by itself, whatever becomes of the others. The
/// plan holds the AUR packages to build for the targets that can be built.
pub fn resolve(universe: &Universe, targets: &Vec<PackageTarget>, force_aur: bool) -> (r: Resolution)
    ensures
        r.fates@.len() == targets@.len(),
        forall|t: int|
            0 <= t < targets@.len() ==> #[trigger] r.fates@[t] == fate_of(
                *universe,
                force_aur,
                targets@[t],
            ),
        r.plan@ == plan_of(*universe, force_aur, targets@),
        buildable(universe.links(force_aur), r.plan@),
        r.plan@.no_duplicates(),
{
    proof {
        lemma_plan_buildable(*universe, force_aur, targets@);
    }
    let graph = universe.link_graph(force_aur);
    let mut fates: Vec<Fate> = Vec::new();
    let mut plan: Vec<usize> = Vec::new();
    let mut t: usize = 0;
    assert(targets@.subrange(0, 0) =~= Seq::empty());
    while t < targets.len()
        invariant
            t <= targets.len(),
            rows(graph@) == universe.links(force_aur),
            fates@.len() == t,
            forall|n: int|
                0 <= n < t ==> #[trigger] fates@[n] == fate_of(*universe, force_aur, targets@[n]),
            plan@ == plan_of(*universe, force_aur, targets@.subrange(0, t as int)),
        decreases targets.len() - t,
    {
        assert(targets@.subrange(0, t + 1).drop_last() =~= targets@.subrange(0, t as int));
        let target = &targets[t];
        let fate = match universe.classify(&target.name, force_aur) {
            Link::Repo => Fate::Repo,
            Link::VirtualProvided => Fate::VirtualProvided,
            Link::Missing => Fate::UnknownPackage,
            Link::Aur(root) => {
                assert(graph@.len() == rows(graph@).len());
                let wanted = match &target.constraint {
                    Some(constraint) => constraint.accepts(&universe.aur[root].version),
                    None => true,
                };
                if !wanted {
                    Fate::UnknownPackage
                } else {
                    match build_order(&graph, root) {
                        Ok(order) => {
                            merge_into(&mut plan, &order);
                            Fate::Build { root }
                        },
                        Err(Fault::Cycle { at }) => Fate::CyclicDependency { at },
                        Err(Fault::Unknown { package, dependency }) => Fate::UnknownDependency {
                            package,
                            dependency,
                        },
                        Err(Fault::NoSuchPackage { .. }) => Fate::UnknownPackage,
                    }
                }
            },
        };
        fates.push(fate);
        t += 1;
    }
    assert(targets@.subrange(0, t as int) =~= targets@);
    Resolution { fates, plan }
}

/// Why a target cannot be resolved.
#[derive(Debug, PartialEq, Eq)]
pub enum ResolveError {
    /// Neither source has a package of this name.
    UnknownPackage(String),
    /// The package of this name needs itself.
    CyclicDependency(String),
}

/// The name that the fate of a target blames: the missing dependency, the
/// package on the cycle, or else the target itself.
pub open spec fn blamed(universe: Universe, target: PackageTarget, fate: Fate) -> Seq<char> {
    match fate {
        Fate::UnknownDependency { package, dependency } => if package < universe.aur@.len()
            && dependency < universe.aur@[package as int].depends@.len() {
            universe.aur@[package as int].depends@[dependency as int]@
        } else {
            target.name@
        },
        Fate::CyclicDependency { at } => if at < universe.aur@.len() {
            universe.aur@[at as int].name@
        } else {
            target.name@
        },
        _ => target.name@,
    }
}

/// The error to report for a target, if its fate is one: an unknown package,
/// by the name that is missing, or a cyclic dependency, by the name of the
/// package that needs itself.
pub fn error_of(universe: &Universe, target: &PackageTarget, fate: Fate) -> (error: Option<
    ResolveError,
>)
    ensures
        match fate {
            Fate::Repo | Fate::VirtualProvided | Fate::Build { .. } => error is None,
            Fate::UnknownPackage | Fate::UnknownDependency { .. } => error matches Some(
                ResolveError::UnknownPackage(name),
            ) && name@ == blamed(*universe, *target, fate),
            Fate::CyclicDependency { .. } => error matches Some(
                ResolveError::CyclicDependency(name),
            ) && name@ == blamed(*universe, *target, fate),
        },
{
    match fate {
        Fate::Repo | Fate::VirtualProvided | Fate::Build { .. } => None,
        Fate::UnknownPackage => Some(ResolveError::UnknownPackage(target.name.clone())),
        Fate::UnknownDependency { package, dependency } => {
            if package < universe.aur.len() && dependency < universe.aur[package].depends.len() {
                Some(
                    ResolveError::UnknownPackage(
                        universe.aur[package].depends[dependency].clone(),
                    ),
                )
            } else {
                Some(ResolveError::UnknownPackage(target.name.clone()))
            }
        },
        Fate::CyclicDependency { at } => {
            if at < universe.aur.len() {
                Some(ResolveError::CyclicDependency(universe.aur[at].name.clone()))
            } else {
                Some(ResolveError::CyclicDependency(target.name.clone()))
            }
        },
    }
}

/// The name that a fate leaves unknown: the name that it blames, where it
/// is the fate of a package or a dependency that neither source is known to have.
pub open spec fn unknown_name(universe: Universe, target: PackageTarget, fate: Fate) -> Option<
    Seq<char>,
> {
    match fate {
        Fate::UnknownPackage | Fate::UnknownDependency { .. } => Some(
            blamed(universe, target, fate),
        ),
        _ => None,
    }
}

/// The names that the first `n` targets leave unknown and that were not
/// asked for, each once, in the order of the targets.
pub open spec fn still_unknown_before(
    universe: Universe,
    targets: Seq<PackageTarget>,
    fates: Seq<Fate>,
    asked: Seq<Seq<char>>,
    n: int,
) -> Seq<Seq<char>>
    decreases n,
{
    if n <= 0 {
        Seq::empty()
    } else {
        let before = still_unknown_before(universe, targets, fates, asked, n - 1);
        match unknown_name(universe, targets[n - 1], fates[n - 1]) {
            Some(name) => if asked.contains(name) || before.contains(name) {
                before
            } else {
                before.push(name)
            },
            None => before,
        }
    }
}

/// The names that the targets leave unknown and that were not asked for,
/// each once, in the order of the targets. Targets without a fate and fates
/// without a target are passed over.
pub open spec fn still_unknown(
    universe: Universe,
    targets: Seq<PackageTarget>,
    fates: Seq<Fate>,
    asked: Seq<Seq<char>>,
) -> Seq<Seq<char>> {
    still_unknown_before(
        universe,
        targets,
        fates,
        asked,
        if targets.len() <= fates.len() {
            targets.len() as int
        } else {
            fates.len() as int
        },
    )
}

/// No name is twice among those still unknown, and none of them was asked for.
pub proof fn lemma_still_unknown(
    universe: Universe,
    targets: Seq<PackageTarget>,
    fates: Seq<Fate>,
    asked: Seq<Seq<char>>,
    n: int,
)
    ensures
        still_unknown_before(universe, targets, fates, asked, n).no_duplicates(),
        forall|i: int|
            0 <= i < still_unknown_before(universe, targets, fates, asked, n).len()
                ==> !asked.contains(
                #[trigger] still_unknown_before(universe, targets, fates, asked, n)[i],
            ),
    decreases n,
{
    if n > 0 {
        lemma_still_unknown(universe, targets, fates, asked, n - 1);
        let before = still_unknown_before(universe, targets, fates, asked, n - 1);
        let all = still_unknown_before(universe, targets, fates, asked, n);
        if all.len() > before.len() {
            let name = unknown_name(universe, targets[n - 1], fates[n - 1])->0;
            assert(all == before.push(name));
            assert forall|i: int, j: int|
                0 <= i < all.len() && 0 <= j < all.len() && i != j implies all[i] != all[j] by {
                if i < before.len() && j < before.len() {
                    assert(all[i] == before[i] && all[j] == before[j]);
                } else if i < before.len() {
                    assert(before[i] == all[i]);
                } else {
                    assert(before[j] == all[j]);
                }
            }
            assert forall|i: int| 0 <= i < all.len() implies !asked.contains(#[trigger] all[i]) by {
                if i < before.len() {
                    assert(all[i] == before[i]);
                }
            }
        }
    }
}

/// The names to ask the two sources for next: those that the fates of the
/// targets leave unknown and that were not asked for yet, each once, in the
/// order of the targets. When there is none, all that can be known is known.
pub fn names_to_ask(
    universe: &Universe,
    targets: &Vec<PackageTarget>,
    fates: &Vec<Fate>,
    asked: &Vec<String>,
) -> (wanted: Vec<String>)
    ensures
        texts(wanted@) == still_unknown(*universe, targets@, fates@, texts(asked@)),
        texts(wanted@).no_duplicates(),
        forall|i: int| 0 <= i < wanted@.len() ==> !texts(asked@).contains(#[trigger] wanted@[i]@),
{
    let n = if targets.len() <= fates.len() {
        targets.len()
    } else {
        fates.len()
    };
    let mut wanted: Vec<String> = Vec::new();
    let mut i: usize = 0;
    assert(texts(wanted@) =~= Seq::empty());
    while i < n
        invariant
            i <= n,
            n <= targets.len(),
            n <= fates.len(),
            texts(wanted@) == still_unknown_before(
                *universe,
                targets@,
                fates@,
                texts(asked@),
                i as int,
            ),
        decreases n - i,
    {
        if let Some(ResolveError::UnknownPackage(name)) = error_of(universe, &targets[i], fates[i]) {
            if !contains_name(asked, &name) && !contains_name(&wanted, &name) {
                let ghost before = texts(wanted@);
                wanted.push(name);
                assert(texts(wanted@) =~= before.push(name@));
            }
        }
        i += 1;
    }
    proof {
        lemma_still_unknown(*universe, targets@, fates@, texts(asked@), n as int);
        assert forall|i: int| 0 <= i < wanted@.len() implies !texts(asked@).contains(
            #[trigger] wanted@[i]@,
        ) by {
            assert(texts(wanted@)[i] == wanted@[i]@);
        }
    }
    wanted
}

/// Whether the AUR is asked for a name: when the repositories do not have
/// it, and, where the AUR is forced, also when they do.
pub fn asks_aur(in_repo: bool, force_aur: bool) -> (ask: bool)
    ensures
        ask == (!in_repo || force_aur),
{
    !in_repo || force_aur
}

/// The links from node `node` to AUR packages among its first `k` links, each
/// as the pair of the node and the package it leads to.
pub open spec fn edges_from(g: Seq<Seq<Link>>, node: usize, k: int) -> Seq<(usize, usize)>
    decreases k,
{
    if k <= 0 {
        Seq::empty()
    } else {
        match g[node as int][k - 1] {
            Link::Aur(child) => edges_from(g, node, k - 1).push((node, child)),
            _ => edges_from(g, node, k - 1),
        }
    }
}

/// The links to AUR packages of the first `n` of the given nodes. A node that
/// the graph does not have has none.
pub open spec fn edges_of(g: Seq<Seq<Link>>, nodes: Seq<usize>, n: int) -> Seq<(usize, usize)>
    decreases n,
{
    if n <= 0 {
        Seq::empty()
    } else if nodes[n - 1] < g.len() {
        edges_of(g, nodes, n - 1) + edges_from(
            g,
            nodes[n - 1],
            g[nodes[n - 1] as int].len() as int,
        )
    } else {
        edges_of(g, nodes, n - 1)
    }
}

/// The edges of the dependency graph among AUR packages, for drawing it: for
/// each of the given nodes, in their order, a pair for each AUR package that
/// it depends on, in the order of declaration.
pub fn dependency_edges(graph: &Vec<Vec<Link>>, nodes: &Vec<usize>) -> (edges: Vec<(usize, usize)>)
    ensures
        edges@ == edges_of(rows(graph@), nodes@, nodes@.len() as int),
{
    let mut edges: Vec<(usize, usize)> = Vec::new();
    let ghost g = rows(graph@);
    let mut n: usize = 0;
    while n < nodes.len()
        invariant
            n <= nodes.len(),
            g == rows(graph@),
            edges@ == edges_of(g, nodes@, n as int),
        decreases nodes.len() - n,
    {
        let node = nodes[n];
        if node < graph.len() {
            let links = &graph[node];
            let ghost before = edges@;
            let mut k: usize = 0;
            assert(g[node as int] == links@);
            while k < links.len()
                invariant
                    k <= links.len(),
                    node < graph.len(),
                    g == rows(graph@),
                    g[node as int] == links@,
                    edges@ == before + edges_from(g, node, k as int),
                decreases links.len() - k,
            {
                if let Link::Aur(child) = links[k] {
                    edges.push((node, child));
                    assert(edges@ =~= before + edges_from(g, node, k + 1));
                }
                k += 1;
            }
        }
        n += 1;
    }
    edges
}

/// What becomes of a target does not depend on the other targets: the
/// resolution of a list gives each target the fate that it has alone, and
/// the plan for a target that is built alone is its build order.
pub proof fn lemma_single_target(universe: Universe, force_aur: bool, target: PackageTarget)
    ensures
        plan_of(universe, force_aur, seq![target]) == match fate_of(universe, force_aur, target) {
            Fate::Build { root } => order_from(universe.links(force_aur), root)->Ok_0,
            _ => Seq::empty(),
        },
{
    let targets = seq![target];
    assert(targets.drop_last() =~= Seq::empty());
    assert(targets.last() == target);
    let none = plan_of(universe, force_aur, targets.drop_last());
    assert(none =~= Seq::empty());
    lemma_built_target(universe, force_aur, target);
    if let Fate::Build { root } = fate_of(universe, force_aur, target) {
        let order = order_from(universe.links(force_aur), root)->Ok_0;
        lemma_merged_into_nothing(order);
    }
}

/// Merging an order without repetitions into an empty plan gives the order.
proof fn lemma_merged_into_nothing(order: Seq<usize>)
    requires
        order.no_duplicates(),
    ensures
        merged(Seq::empty(), order) == order,
    decreases order.len(),
{
    if order.len() > 0 {
        let front = order.drop_last();
        lemma_merged_into_nothing(front);
        if front.contains(order.last()) {
            let i = choose|i: int| 0 <= i < front.len() && front[i] == order.last();
            assert(order[i] == order[order.len() - 1]);
        }
        assert(front.push(order.last()) =~= order);
    } else {
        assert(order =~= Seq::empty());
    }
}

} // verus!
