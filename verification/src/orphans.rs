//! Orphans: installed packages that nobody asked for and nothing needs any more.
//!
//! Packages are spoken of by their place in the list of installed packages, a
//! set of installed packages being a set of places.

use vstd::prelude::*;
use crate::package::{contains_name, texts, InstalledPackage};

verus! {

/// Package `j` declares that it depends on package `i`.
pub open spec fn requires_package(system: Seq<InstalledPackage>, j: int, i: int) -> bool {
    texts(system[j].depends@).contains(system[i].id.name@)
}

/// Another package among `live` depends on package `i`.
pub open spec fn has_dependent_in(system: Seq<InstalledPackage>, live: Set<int>, i: int) -> bool {
    exists|j: int|
        #[trigger] live.contains(j) && 0 <= j < system.len() && j != i && requires_package(
            system,
            j,
            i,
        )
}

/// Package `i` is an orphan among `live`: it is there, it was not explicitly
/// installed, and nothing else there depends on it.
pub open spec fn orphan_in(system: Seq<InstalledPackage>, live: Set<int>, i: int) -> bool {
    &&& 0 <= i < system.len()
    &&& live.contains(i)
    &&& !system[i].explicit
    &&& !has_dependent_in(system, live, i)
}

/// All installed packages.
pub open spec fn everything(system: Seq<InstalledPackage>) -> Set<int> {
    Set::new(|i: int| 0 <= i < system.len())
}

/// `live` is a set of installed packages without an orphan.
pub open spec fn settled(system: Seq<InstalledPackage>, live: Set<int>) -> bool {
    forall|i: int| #[trigger]
        live.contains(i) ==> 0 <= i < system.len() && !orphan_in(system, live, i)
}

/// Package `i` belongs to some set of installed packages without an orphan.
pub open spec fn survives(system: Seq<InstalledPackage>, i: int) -> bool {
    exists|live: Set<int>| #[trigger] settled(system, live) && live.contains(i)
}

/// The packages that are left when orphans are removed until there is none.
pub open spec fn survivors(system: Seq<InstalledPackage>) -> Set<int> {
    Set::new(|i: int| survives(system, i))
}

/// The survivors are themselves a set without an orphan, and so the largest one.
pub proof fn lemma_survivors_settled(system: Seq<InstalledPackage>)
    ensures
        settled(system, survivors(system)),
{
    let all = survivors(system);
    assert forall|i: int| #[trigger] all.contains(i) implies 0 <= i < system.len() && !orphan_in(
        system,
        all,
        i,
    ) by {
        let live = choose|live: Set<int>| #[trigger] settled(system, live) && live.contains(i);
        assert(live.contains(i));
        if !system[i].explicit {
            assert(has_dependent_in(system, live, i));
            let j = choose|j: int|
                #[trigger] live.contains(j) && 0 <= j < system.len() && j != i && requires_package(
                    system,
                    j,
                    i,
                );
            assert(survives(system, j));
            assert(all.contains(j));
        }
    }
}

/// Among the survivors there is no orphan.
pub proof fn lemma_survivors_orphan_free(system: Seq<InstalledPackage>)
    ensures
        orphan_free(system, survivors(system)),
{
    lemma_survivors_settled(system);
}

/// An orphan among a set that holds all survivors is no survivor.
pub proof fn lemma_orphan_does_not_survive(system: Seq<InstalledPackage>, live: Set<int>, i: int)
    requires
        forall|k: int| survives(system, k) ==> live.contains(k),
        orphan_in(system, live, i),
    ensures
        !survives(system, i),
{
    if survives(system, i) {
        let kept = choose|kept: Set<int>| #[trigger] settled(system, kept) && kept.contains(i);
        assert(kept.contains(i));
        assert(has_dependent_in(system, kept, i));
        let j = choose|j: int|
            #[trigger] kept.contains(j) && 0 <= j < system.len() && j != i && requires_package(
                system,
                j,
                i,
            );
        assert(survives(system, j));
        assert(live.contains(j));
    }
}

/// An explicitly installed package is never removed as an orphan.
pub proof fn lemma_explicit_survives(system: Seq<InstalledPackage>, i: int)
    requires
        0 <= i < system.len(),
        system[i].explicit,
    ensures
        survives(system, i),
{
    let alone = Set::<int>::empty().insert(i);
    assert(settled(system, alone));
    assert(alone.contains(i));
}

/// Removing the packages of `run` one after the other from `live` removes an
/// orphan of what is left at each step.
pub open spec fn removes_orphans(system: Seq<InstalledPackage>, live: Set<int>, run: Seq<int>) -> bool
    decreases run.len(),
{
    run.len() == 0 || (orphan_in(system, live, run[0]) && removes_orphans(
        system,
        live.remove(run[0]),
        run.drop_first(),
    ))
}

/// What is left of `live` when the packages of `run` are removed.
pub open spec fn left_after(live: Set<int>, run: Seq<int>) -> Set<int>
    decreases run.len(),
{
    if run.len() == 0 {
        live
    } else {
        left_after(live.remove(run[0]), run.drop_first())
    }
}

/// No package among `live` is an orphan.
pub open spec fn orphan_free(system: Seq<InstalledPackage>, live: Set<int>) -> bool {
    forall|i: int| !orphan_in(system, live, i)
}

/// Removing orphans one by one never removes a survivor, and leaves a part of
/// what was there.
proof fn lemma_run_keeps_survivors(system: Seq<InstalledPackage>, live: Set<int>, run: Seq<int>)
    requires
        forall|k: int| survives(system, k) ==> live.contains(k),
        forall|k: int| live.contains(k) ==> 0 <= k < system.len(),
        removes_orphans(system, live, run),
    ensures
        forall|k: int| survives(system, k) ==> left_after(live, run).contains(k),
        forall|k: int| left_after(live, run).contains(k) ==> 0 <= k < system.len(),
    decreases run.len(),
{
    if run.len() > 0 {
        let rest = live.remove(run[0]);
        lemma_orphan_does_not_survive(system, live, run[0]);
        assert forall|k: int| rest.contains(k) implies 0 <= k < system.len() by {
            assert(live.contains(k));
        }
        lemma_run_keeps_survivors(system, rest, run.drop_first());
        assert(left_after(live, run) == left_after(rest, run.drop_first()));
    }
}

/// However the orphans are picked, removing them one by one until none is
/// left ends with the same packages: the survivors.
pub proof fn lemma_removal_order_is_immaterial(system: Seq<InstalledPackage>, run: Seq<int>)
    requires
        removes_orphans(system, everything(system), run),
        orphan_free(system, left_after(everything(system), run)),
    ensures
        left_after(everything(system), run) == survivors(system),
{
    let rest = left_after(everything(system), run);
    assert forall|k: int| survives(system, k) implies everything(system).contains(k) by {
        let live = choose|live: Set<int>| #[trigger] settled(system, live) && live.contains(k);
        assert(live.contains(k));
    }
    lemma_run_keeps_survivors(system, everything(system), run);
    assert(settled(system, rest));
    assert forall|k: int| rest.contains(k) implies survives(system, k) by {
        assert(settled(system, rest) && rest.contains(k));
    }
    assert(rest =~= survivors(system));
}

/// Two ways of removing orphans until none is left end with the same packages.
pub proof fn lemma_abandon_confluent(system: Seq<InstalledPackage>, one: Seq<int>, other: Seq<int>)
    requires
        removes_orphans(system, everything(system), one),
        orphan_free(system, left_after(everything(system), one)),
        removes_orphans(system, everything(system), other),
        orphan_free(system, left_after(everything(system), other)),
    ensures
        left_after(everything(system), one) == left_after(everything(system), other),
{
    lemma_removal_order_is_immaterial(system, one);
    lemma_removal_order_is_immaterial(system, other);
}

/// The packages that a list of marks keeps.
pub open spec fn marked(alive: Seq<bool>) -> Set<int> {
    Set::new(|i: int| 0 <= i < alive.len() && alive[i])
}

/// How many packages a list of marks keeps.
pub open spec fn count_marked(alive: Seq<bool>) -> nat
    decreases alive.len(),
{
    if alive.len() == 0 {
        0
    } else if alive.last() {
        count_marked(alive.drop_last()) + 1
    } else {
        count_marked(alive.drop_last())
    }
}

proof fn lemma_count_after_unmark(alive: Seq<bool>, i: int)
    requires
        0 <= i < alive.len(),
        alive[i],
    ensures
        count_marked(alive.update(i, false)) + 1 == count_marked(alive),
    decreases alive.len(),
{
    let cleared = alive.update(i, false);
    if i == alive.len() - 1 {
        assert(cleared.drop_last() =~= alive.drop_last());
    } else {
        assert(cleared.drop_last() =~= alive.drop_last().update(i, false));
        lemma_count_after_unmark(alive.drop_last(), i);
    }
}

/// The orphans among the first `n` installed packages, in rising order.
pub open spec fn orphans_before(system: Seq<InstalledPackage>, n: nat) -> Seq<usize>
    decreases n,
{
    if n == 0 {
        Seq::empty()
    } else if orphan_in(system, everything(system), n - 1) {
        orphans_before(system, (n - 1) as nat).push((n - 1) as usize)
    } else {
        orphans_before(system, (n - 1) as nat)
    }
}

/// Those of the first `n` installed packages that do not survive, in rising order.
pub open spec fn doomed_before(system: Seq<InstalledPackage>, n: nat) -> Seq<usize>
    decreases n,
{
    if n == 0 {
        Seq::empty()
    } else if survives(system, n - 1) {
        doomed_before(system, (n - 1) as nat)
    } else {
        doomed_before(system, (n - 1) as nat).push((n - 1) as usize)
    }
}

/// The list of the doomed holds exactly the places below `n` of the packages
/// that do not survive.
pub proof fn lemma_doomed_are_those_that_do_not_survive(system: Seq<InstalledPackage>, n: nat, i: usize)
    requires
        n <= usize::MAX,
    ensures
        doomed_before(system, n).contains(i) <==> i < n && !survives(system, i as int),
    decreases n,
{
    if n > 0 {
        let before = doomed_before(system, (n - 1) as nat);
        lemma_doomed_are_those_that_do_not_survive(system, (n - 1) as nat, i);
        if !survives(system, n - 1) {
            let all = before.push((n - 1) as usize);
            assert(all[before.len() as int] == (n - 1) as usize);
            if before.contains(i) {
                let k = choose|k: int| 0 <= k < before.len() && before[k] == i;
                assert(all[k] == i);
            }
            if all.contains(i) {
                let k = choose|k: int| 0 <= k < all.len() && all[k] == i;
                if k < before.len() {
                    assert(before[k] == i);
                }
            }
        }
    }
}

/// The list of orphans holds exactly the places below `n` of the packages
/// that are orphans among all that is installed.
pub proof fn lemma_orphans_listed(system: Seq<InstalledPackage>, n: nat, i: usize)
    requires
        n <= usize::MAX,
    ensures
        orphans_before(system, n).contains(i) <==> i < n && orphan_in(
            system,
            everything(system),
            i as int,
        ),
    decreases n,
{
    if n > 0 {
        let before = orphans_before(system, (n - 1) as nat);
        lemma_orphans_listed(system, (n - 1) as nat, i);
        if orphan_in(system, everything(system), n - 1) {
            let all = before.push((n - 1) as usize);
            assert(all[before.len() as int] == (n - 1) as usize);
            if before.contains(i) {
                let k = choose|k: int| 0 <= k < before.len() && before[k] == i;
                assert(all[k] == i);
            }
            if all.contains(i) {
                let k = choose|k: int| 0 <= k < all.len() && all[k] == i;
                if k < before.len() {
                    assert(before[k] == i);
                }
            }
        }
    }
}

/// Whether another package that is still marked depends on package `i`.
fn has_dependent(system: &Vec<InstalledPackage>, alive: &Vec<bool>, i: usize) -> (found: bool)
    requires
        alive.len() == system.len(),
        i < system.len(),
    ensures
        found == has_dependent_in(system@, marked(alive@), i as int),
{
    let mut j: usize = 0;
    while j < system.len()
        invariant
            j <= system.len(),
            alive.len() == system.len(),
            i < system.len(),
            forall|k: int|
                0 <= k < j && #[trigger] alive[k] && k != i ==> !requires_package(
                    system@,
                    k,
                    i as int,
                ),
        decreases system.len() - j,
    {
        if alive[j] && j != i && contains_name(&system[j].depends, &system[i].id.name) {
            assert(marked(alive@).contains(j as int));
            return true;
        }
        j += 1;
    }
    false
}

/// As many marks as there are packages, all set.
fn all_marked(n: usize) -> (alive: Vec<bool>)
    ensures
        alive.len() == n,
        forall|i: int| 0 <= i < n ==> alive[i],
        count_marked(alive@) == n,
{
    let mut alive: Vec<bool> = Vec::new();
    while alive.len() < n
        invariant
            alive.len() <= n,
            forall|i: int| 0 <= i < alive.len() ==> alive[i],
            count_marked(alive@) == alive.len(),
        decreases n - alive.len(),
    {
        let ghost before = alive@;
        alive.push(true);
        assert(alive@.drop_last() =~= before);
    }
    alive
}

/// The packages that are orphans now: not explicitly installed, and no
/// installed package depends on them. Given by their places, in rising order.
pub fn orphans(system: &Vec<InstalledPackage>) -> (found: Vec<usize>)
    ensures
        found@ == orphans_before(system@, system@.len()),
        forall|i: usize| #[trigger]
            found@.contains(i) <==> i < system@.len() && orphan_in(
                system@,
                everything(system@),
                i as int,
            ),
{
    let alive = all_marked(system.len());
    assert(marked(alive@) =~= everything(system@));
    let mut found: Vec<usize> = Vec::new();
    let mut i: usize = 0;
    while i < system.len()
        invariant
            i <= system.len(),
            alive.len() == system.len(),
            marked(alive@) == everything(system@),
            found@ == orphans_before(system@, i as nat),
        decreases system.len() - i,
    {
        if !system[i].explicit && !has_dependent(system, &alive, i) {
            found.push(i);
        }
        i += 1;
    }
    proof {
        assert forall|i: usize| #[trigger]
            found@.contains(i) <==> i < system@.len() && orphan_in(
                system@,
                everything(system@),
                i as int,
            ) by {
            assert(system@.len() == system.len());
            lemma_orphans_listed(system@, system@.len(), i);
        }
    }
    found
}

/// The packages to remove so that no orphan is left: the orphans, then what
/// their removal orphans, and so on. Given by their places, in rising order.
pub fn abandon(system: &Vec<InstalledPackage>) -> (removed: Vec<usize>)
    ensures
        removed@ == doomed_before(system@, system@.len()),
        forall|i: usize| #[trigger]
            removed@.contains(i) <==> i < system@.len() && !survives(system@, i as int),
        orphan_free(system@, survivors(system@)),
{
    let n = system.len();
    let mut alive = all_marked(n);
    let mut left: usize = n;
    let mut changed = true;
    proof {
        assert forall|k: int| survives(system@, k) implies 0 <= k < n && alive[k] by {
            let live = choose|live: Set<int>| #[trigger]
                settled(system@, live) && live.contains(k);
            assert(live.contains(k));
        }
    }
    while changed
        invariant
            n == system.len(),
            alive.len() == n,
            left == count_marked(alive@),
            forall|k: int| survives(system@, k) ==> 0 <= k < n && alive[k],
            !changed ==> settled(system@, marked(alive@)),
        decreases left, if changed { 1int } else { 0int },
    {
        changed = false;
        let ghost left_at_start = left;
        let mut i: usize = 0;
        while i < n
            invariant
                i <= n,
                n == system.len(),
                alive.len() == n,
                left == count_marked(alive@),
                left <= left_at_start,
                changed ==> left < left_at_start,
                forall|k: int| survives(system@, k) ==> 0 <= k < n && alive[k],
                !changed ==> forall|k: int| 0 <= k < i ==> !orphan_in(system@, marked(alive@), k),
            decreases n - i,
        {
            if alive[i] && !system[i].explicit && !has_dependent(system, &alive, i) {
                proof {
                    assert(marked(alive@).contains(i as int));
                    assert(orphan_in(system@, marked(alive@), i as int));
                    assert forall|k: int| survives(system@, k) implies marked(alive@).contains(
                        k,
                    ) by {}
                    lemma_orphan_does_not_survive(system@, marked(alive@), i as int);
                    lemma_count_after_unmark(alive@, i as int);
                }
                alive.set(i, false);
                left = left - 1;
                changed = true;
            }
            i += 1;
        }
    }
    proof {
        assert forall|k: int| 0 <= k < n && alive[k] implies survives(system@, k) by {
            assert(marked(alive@).contains(k));
        }
    }
    let mut removed: Vec<usize> = Vec::new();
    let mut i: usize = 0;
    while i < n
        invariant
            i <= n,
            n == system.len(),
            alive.len() == n,
            forall|k: int| 0 <= k < n ==> (alive[k] <==> survives(system@, k)),
            removed@ == doomed_before(system@, i as nat),
        decreases n - i,
    {
        if !alive[i] {
            removed.push(i);
        }
        i += 1;
    }
    proof {
        assert forall|i: usize| #[trigger]
            removed@.contains(i) <==> i < system@.len() && !survives(system@, i as int) by {
            lemma_doomed_are_those_that_do_not_survive(system@, system@.len(), i);
        }
        lemma_survivors_orphan_free(system@);
    }
    removed
}

/// Marks the installed packages of the given names as explicitly installed,
/// so that they are never orphans. Nothing else changes.
pub fn adopt(system: &mut Vec<InstalledPackage>, names: &Vec<String>)
    ensures
        final(system)@.len() == old(system)@.len(),
        forall|i: int|
            0 <= i < old(system)@.len() ==> {
                &&& (#[trigger] final(system)@[i]).id == old(system)@[i].id
                &&& final(system)@[i].depends == old(system)@[i].depends
                &&& final(system)@[i].explicit == (old(system)@[i].explicit || texts(
                    names@,
                ).contains(old(system)@[i].id.name@))
            },
{
    let mut i: usize = 0;
    while i < system.len()
        invariant
            i <= system.len(),
            system@.len() == old(system)@.len(),
            forall|k: int|
                0 <= k < system@.len() ==> {
                    &&& (#[trigger] system@[k]).id == old(system)@[k].id
                    &&& system@[k].depends == old(system)@[k].depends
                },
            forall|k: int|
                0 <= k < i ==> (#[trigger] system@[k]).explicit == (old(system)@[k].explicit
                    || texts(names@).contains(old(system)@[k].id.name@)),
            forall|k: int|
                i <= k < system@.len() ==> (#[trigger] system@[k]).explicit == old(
                    system,
                )@[k].explicit,
        decreases system.len() - i,
    {
        if contains_name(names, &system[i].id.name) {
            system[i].explicit = true;
        }
        i += 1;
    }
}

} // verus!
