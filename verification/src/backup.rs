//! Snapshots of the explicitly installed packages, and the plan that brings a
//! system back to one.

use vstd::prelude::*;
use crate::cache::{cached_identities, is_cached, CacheEntry};
use crate::package::{identities, InstalledPackage, PackageId};

verus! {

/// The explicitly installed packages at one moment.
#[derive(Debug, PartialEq, Eq)]
pub struct Snapshot {
    /// When the snapshot was taken, in seconds since the epoch.
    pub timestamp: u64,
    /// The packages that were explicitly installed then.
    pub explicitly_installed: Vec<PackageId>,
}

/// What has to change for a system to match a snapshot. Nothing here is
/// applied: the plan is shown for confirmation.
#[derive(Debug, PartialEq, Eq)]
pub struct RestorePlan {
    /// Packages of the snapshot that the system lacks.
    pub install: Vec<PackageId>,
    /// Packages explicitly installed since the snapshot.
    pub remove: Vec<PackageId>,
}

/// The names and versions of all installed packages.
pub open spec fn installed_identities(system: Seq<InstalledPackage>) -> Seq<(Seq<char>, Seq<u64>)> {
    system.map_values(|p: InstalledPackage| p.id@)
}

/// The names and versions of the explicitly installed packages, in the order of the system's list.
pub open spec fn explicit_identities(system: Seq<InstalledPackage>) -> Seq<(Seq<char>, Seq<u64>)>
    decreases system.len(),
{
    if system.len() == 0 {
        Seq::empty()
    } else if system.last().explicit {
        explicit_identities(system.drop_last()).push(system.last().id@)
    } else {
        explicit_identities(system.drop_last())
    }
}

/// The items of `a` that are not in `b`, in the order of `a`.
pub open spec fn without<T>(a: Seq<T>, b: Seq<T>) -> Seq<T>
    decreases a.len(),
{
    if a.len() == 0 {
        Seq::empty()
    } else if b.contains(a.last()) {
        without(a.drop_last(), b)
    } else {
        without(a.drop_last(), b).push(a.last())
    }
}

/// An item is in `without(a, b)` exactly if it is in `a` and not in `b`.
pub proof fn lemma_without_contains<T>(a: Seq<T>, b: Seq<T>, x: T)
    ensures
        without(a, b).contains(x) <==> a.contains(x) && !b.contains(x),
    decreases a.len(),
{
    if a.len() > 0 {
        let front = a.drop_last();
        lemma_without_contains(front, b, x);
        let rest = without(front, b);
        if a.contains(x) {
            let i = choose|i: int| 0 <= i < a.len() && a[i] == x;
            if i < front.len() {
                assert(front[i] == x);
            }
        }
        if front.contains(x) {
            let i = choose|i: int| 0 <= i < front.len() && front[i] == x;
            assert(a[i] == x);
        }
        assert(a[a.len() - 1] == a.last());
        if !b.contains(a.last()) {
            let kept = rest.push(a.last());
            assert(kept[rest.len() as int] == a.last());
            if rest.contains(x) {
                let i = choose|i: int| 0 <= i < rest.len() && rest[i] == x;
                assert(kept[i] == x);
            }
            if kept.contains(x) {
                let i = choose|i: int| 0 <= i < kept.len() && kept[i] == x;
                if i < rest.len() {
                    assert(rest[i] == x);
                }
            }
        }
    }
}

/// Nothing is left of a list from which all its items are taken away.
pub proof fn lemma_without_superset_is_empty<T>(a: Seq<T>, b: Seq<T>)
    requires
        forall|i: int| 0 <= i < a.len() ==> b.contains(#[trigger] a[i]),
    ensures
        without(a, b) == Seq::<T>::empty(),
    decreases a.len(),
{
    if a.len() > 0 {
        assert(b.contains(a[a.len() - 1]));
        lemma_without_superset_is_empty(a.drop_last(), b);
    }
}

/// Every explicitly installed package is an installed package.
pub proof fn lemma_explicit_are_installed(system: Seq<InstalledPackage>)
    ensures
        forall|i: int|
            0 <= i < explicit_identities(system).len() ==> installed_identities(system).contains(
                #[trigger] explicit_identities(system)[i],
            ),
    decreases system.len(),
{
    if system.len() > 0 {
        let front = system.drop_last();
        lemma_explicit_are_installed(front);
        let all = installed_identities(system);
        assert forall|i: int| 0 <= i < explicit_identities(system).len() implies all.contains(
            #[trigger] explicit_identities(system)[i],
        ) by {
            let x = explicit_identities(system)[i];
            if i < explicit_identities(front).len() {
                assert(x == explicit_identities(front)[i]);
                let j = choose|j: int|
                    0 <= j < front.len() && installed_identities(front)[j] == x;
                assert(all[j] == x);
            } else {
                assert(all[system.len() - 1] == x);
            }
        }
    }
}

impl RestorePlan {
    /// The plan asks for no change.
    pub open spec fn asks_nothing(&self) -> bool {
        self.install@.len() == 0 && self.remove@.len() == 0
    }

    /// Whether the plan asks for no change.
    pub fn is_empty(&self) -> (empty: bool)
        ensures
            empty == self.asks_nothing(),
    {
        self.install.len() == 0 && self.remove.len() == 0
    }
}

/// Whether a package, in that version, is installed.
pub fn is_installed(system: &Vec<InstalledPackage>, package: &PackageId) -> (found: bool)
    ensures
        found == installed_identities(system@).contains(package@),
{
    let mut i: usize = 0;
    while i < system.len()
        invariant
            i <= system.len(),
            forall|j: int| 0 <= j < i ==> system[j].id@ != package@,
        decreases system.len() - i,
    {
        if package.is_same_as(&system[i].id) {
            assert(installed_identities(system@)[i as int] == package@);
            return true;
        }
        i += 1;
    }
    false
}

/// The explicitly installed packages of a system, in the order of its list.
pub fn explicitly_installed(system: &Vec<InstalledPackage>) -> (packages: Vec<PackageId>)
    ensures
        identities(packages@) == explicit_identities(system@),
{
    let mut packages: Vec<PackageId> = Vec::new();
    let mut i: usize = 0;
    assert(system@.subrange(0, 0) =~= Seq::empty());
    assert(identities(packages@) =~= Seq::empty());
    while i < system.len()
        invariant
            i <= system.len(),
            identities(packages@) == explicit_identities(system@.subrange(0, i as int)),
        decreases system.len() - i,
    {
        let ghost before = identities(packages@);
        assert(system@.subrange(0, i + 1).drop_last() =~= system@.subrange(0, i as int));
        if system[i].explicit {
            packages.push(system[i].id.clone());
            assert(identities(packages@) =~= before.push(system[i as int].id@));
        }
        i += 1;
    }
    assert(system@.subrange(0, i as int) =~= system@);
    packages
}

/// Takes a snapshot: the explicitly installed packages of the system as it is.
pub fn backup(timestamp: u64, system: &Vec<InstalledPackage>) -> (snapshot: Snapshot)
    ensures
        snapshot.timestamp == timestamp,
        identities(snapshot.explicitly_installed@) == explicit_identities(system@),
{
    Snapshot { timestamp, explicitly_installed: explicitly_installed(system) }
}

/// The plan that brings the system to a snapshot: install what the snapshot
/// names and the system lacks, and, if asked, remove what was explicitly
/// installed since.
pub fn restore(snapshot: &Snapshot, system: &Vec<InstalledPackage>, remove_extras: bool) -> (plan:
    RestorePlan)
    ensures
        identities(plan.install@) == without(
            identities(snapshot.explicitly_installed@),
            installed_identities(system@),
        ),
        identities(plan.remove@) == if remove_extras {
            without(explicit_identities(system@), identities(snapshot.explicitly_installed@))
        } else {
            Seq::empty()
        },
        forall|x: (Seq<char>, Seq<u64>)| #[trigger]
            identities(plan.install@).contains(x) <==> identities(
                snapshot.explicitly_installed@,
            ).contains(x) && !installed_identities(system@).contains(x),
        remove_extras ==> forall|x: (Seq<char>, Seq<u64>)| #[trigger]
            identities(plan.remove@).contains(x) <==> explicit_identities(system@).contains(x)
                && !identities(snapshot.explicitly_installed@).contains(x),
{
    let wanted = &snapshot.explicitly_installed;
    let mut install: Vec<PackageId> = Vec::new();
    let mut i: usize = 0;
    assert(wanted@.subrange(0, 0) =~= Seq::empty());
    assert(identities(wanted@.subrange(0, 0)) =~= Seq::empty());
    assert(identities(install@) =~= Seq::empty());
    while i < wanted.len()
        invariant
            i <= wanted.len(),
            identities(install@) == without(
                identities(wanted@.subrange(0, i as int)),
                installed_identities(system@),
            ),
        decreases wanted.len() - i,
    {
        let ghost before = identities(install@);
        assert(identities(wanted@.subrange(0, i + 1)).drop_last() =~= identities(
            wanted@.subrange(0, i as int),
        ));
        assert(identities(wanted@.subrange(0, i + 1)).last() == wanted[i as int]@);
        if !is_installed(system, &wanted[i]) {
            install.push(wanted[i].clone());
            assert(identities(install@) =~= before.push(wanted[i as int]@));
        }
        i += 1;
    }
    assert(wanted@.subrange(0, i as int) =~= wanted@);
    let mut remove: Vec<PackageId> = Vec::new();
    assert(identities(remove@) =~= Seq::empty());
    if remove_extras {
        let explicit = explicitly_installed(system);
        let mut k: usize = 0;
        assert(identities(explicit@).subrange(0, 0) =~= Seq::empty());
        while k < explicit.len()
            invariant
                k <= explicit.len(),
                identities(remove@) == without(
                    identities(explicit@).subrange(0, k as int),
                    identities(wanted@),
                ),
            decreases explicit.len() - k,
        {
            let ghost before = identities(remove@);
            assert(identities(explicit@).subrange(0, k + 1).drop_last() =~= identities(
                explicit@,
            ).subrange(0, k as int));
            if !explicit[k].is_in(wanted) {
                remove.push(explicit[k].clone());
                assert(identities(remove@) =~= before.push(explicit[k as int]@));
            }
            k += 1;
        }
        assert(identities(explicit@).subrange(0, k as int) =~= identities(explicit@));
    }
    proof {
        assert forall|x: (Seq<char>, Seq<u64>)| #[trigger]
            identities(install@).contains(x) <==> identities(wanted@).contains(x)
                && !installed_identities(system@).contains(x) by {
            lemma_without_contains(identities(wanted@), installed_identities(system@), x);
        }
        if remove_extras {
            assert forall|x: (Seq<char>, Seq<u64>)| #[trigger]
                identities(remove@).contains(x) <==> explicit_identities(system@).contains(x)
                    && !identities(wanted@).contains(x) by {
                lemma_without_contains(explicit_identities(system@), identities(wanted@), x);
            }
        }
    }
    RestorePlan { install, remove }
}

/// A snapshot taken of a system asks nothing of that system: restoring it at
/// once neither installs nor removes.
pub proof fn lemma_restore_after_backup_asks_nothing(system: Seq<InstalledPackage>)
    ensures
        without(explicit_identities(system), installed_identities(system)) == Seq::<
            (Seq<char>, Seq<u64>),
        >::empty(),
        without(explicit_identities(system), explicit_identities(system)) == Seq::<
            (Seq<char>, Seq<u64>),
        >::empty(),
{
    lemma_explicit_are_installed(system);
    lemma_without_superset_is_empty(explicit_identities(system), installed_identities(system));
    lemma_without_superset_is_empty(explicit_identities(system), explicit_identities(system));
}

/// Whether the cache holds the tarball of every package of a snapshot.
pub open spec fn fully_cached(snapshot: Snapshot, cache: Seq<CacheEntry>) -> bool {
    forall|i: int|
        0 <= i < snapshot.explicitly_installed@.len() ==> cached_identities(cache).contains(
            #[trigger] snapshot.explicitly_installed@[i]@,
        )
}

/// The timestamps of the snapshots that name a tarball which the cache lacks, in the order of the list.
pub open spec fn stale_timestamps(snapshots: Seq<Snapshot>, cache: Seq<CacheEntry>) -> Seq<u64>
    decreases snapshots.len(),
{
    if snapshots.len() == 0 {
        Seq::empty()
    } else if fully_cached(snapshots.last(), cache) {
        stale_timestamps(snapshots.drop_last(), cache)
    } else {
        stale_timestamps(snapshots.drop_last(), cache).push(snapshots.last().timestamp)
    }
}

impl Snapshot {
    /// Whether the cache holds the tarball of every package of the snapshot.
    pub fn is_fully_cached(&self, cache: &Vec<CacheEntry>) -> (covered: bool)
        ensures
            covered == fully_cached(*self, cache@),
    {
        let mut i: usize = 0;
        while i < self.explicitly_installed.len()
            invariant
                i <= self.explicitly_installed.len(),
                forall|j: int|
                    0 <= j < i ==> cached_identities(cache@).contains(
                        #[trigger] self.explicitly_installed@[j]@,
                    ),
            decreases self.explicitly_installed.len() - i,
        {
            if !is_cached(cache, &self.explicitly_installed[i]) {
                return false;
            }
            i += 1;
        }
        true
    }
}

/// The snapshots to delete because the cache no longer holds all their
/// tarballs, by their timestamps.
pub fn clean_snapshots(snapshots: &Vec<Snapshot>, cache: &Vec<CacheEntry>) -> (stale: Vec<u64>)
    ensures
        stale@ == stale_timestamps(snapshots@, cache@),
{
    let mut stale: Vec<u64> = Vec::new();
    let mut i: usize = 0;
    assert(snapshots@.subrange(0, 0) =~= Seq::empty());
    while i < snapshots.len()
        invariant
            i <= snapshots.len(),
            stale@ == stale_timestamps(snapshots@.subrange(0, i as int), cache@),
        decreases snapshots.len() - i,
    {
        assert(snapshots@.subrange(0, i + 1).drop_last() =~= snapshots@.subrange(0, i as int));
        if !snapshots[i].is_fully_cached(cache) {
            stale.push(snapshots[i].timestamp);
        }
        i += 1;
    }
    assert(snapshots@.subrange(0, i as int) =~= snapshots@);
    stale
}

} // verus!
