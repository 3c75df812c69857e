//! What is known of the two package sources, and where a name is found in them.

use vstd::prelude::*;
use crate::package::{contains_name, texts, InstalledPackage};
use crate::text::{is_version_controlled, version_controlled};
use crate::resolve::graph::{rows, Link};
use crate::version::{precedes, Version};

verus! {

/// What the AUR tells of one of its packages.
#[derive(Debug, PartialEq, Eq)]
pub struct PackageMetadata {
    /// The name of the package.
    pub name: String,
    /// The version that the AUR offers.
    pub version: Version,
    /// The names of the packages that it needs to be built and to run.
    pub depends: Vec<String>,
    /// The names of the packages that it can make use of.
    pub optional_depends: Vec<String>,
    /// The names that it provides besides its own.
    pub provides: Vec<String>,
    /// The names of the packages that it cannot be installed with.
    pub conflicts: Vec<String>,
}

/// A package of the official repositories.
#[derive(Debug, PartialEq, Eq)]
pub struct RepoPackage {
    /// The name of the package.
    pub name: String,
    /// The names that it provides besides its own.
    pub provides: Vec<String>,
}

/// The packages that a resolution can draw on.
#[derive(Debug, PartialEq, Eq)]
pub struct Universe {
    /// The packages of the official repositories.
    pub repo: Vec<RepoPackage>,
    /// The packages of the AUR whose metadata was looked up.
    pub aur: Vec<PackageMetadata>,
}

/// The repositories have a package of that name.
pub open spec fn in_repo(repo: Seq<RepoPackage>, name: Seq<char>) -> bool {
    exists|i: int| 0 <= i < repo.len() && (#[trigger] repo[i]).name@ == name
}

/// A package of the repositories provides that name.
pub open spec fn provided_by_repo(repo: Seq<RepoPackage>, name: Seq<char>) -> bool {
    exists|i: int| 0 <= i < repo.len() && texts((#[trigger] repo[i]).provides@).contains(name)
}

/// The AUR has a package of that name.
pub open spec fn in_aur(aur: Seq<PackageMetadata>, name: Seq<char>) -> bool {
    exists|i: int| 0 <= i < aur.len() && (#[trigger] aur[i]).name@ == name
}

/// Place `i` is the first of the AUR list that holds a package of that name.
pub open spec fn is_first_named(aur: Seq<PackageMetadata>, name: Seq<char>, i: int) -> bool {
    &&& 0 <= i < aur.len()
    &&& aur[i].name@ == name
    &&& forall|j: int| 0 <= j < i ==> (#[trigger] aur[j]).name@ != name
}

/// The first place of the AUR list that holds a package of that name.
pub open spec fn aur_place(aur: Seq<PackageMetadata>, name: Seq<char>) -> usize {
    choose|i: usize| is_first_named(aur, name, i as int)
}

/// A name that the AUR has, it has at a first place.
pub proof fn lemma_aur_place(aur: Vec<PackageMetadata>, name: Seq<char>)
    requires
        in_aur(aur@, name),
    ensures
        is_first_named(aur@, name, aur_place(aur@, name) as int),
{
    let i = choose|i: int| 0 <= i < aur@.len() && (#[trigger] aur@[i]).name@ == name;
    lemma_first_before(aur, name, i);
}

proof fn lemma_first_before(aur: Vec<PackageMetadata>, name: Seq<char>, i: int)
    requires
        0 <= i < aur@.len(),
        aur@[i].name@ == name,
    ensures
        exists|f: usize| is_first_named(aur@, name, f as int),
    decreases i,
{
    if exists|j: int| 0 <= j < i && (#[trigger] aur@[j]).name@ == name {
        let j = choose|j: int| 0 <= j < i && (#[trigger] aur@[j]).name@ == name;
        lemma_first_before(aur, name, j);
    } else {
        assert(aur@.len() == aur.len());
        assert(is_first_named(aur@, name, (i as usize) as int));
    }
}

/// The installed package is behind the AUR: the AUR has a package of its
/// name in a newer version, or, where a rebuild of version-controlled
/// packages is forced, has it at all and the package is one of them.
pub open spec fn behind(
    aur: Seq<PackageMetadata>,
    package: InstalledPackage,
    force_rebuild: bool,
) -> bool {
    in_aur(aur, package.id.name@) && (precedes(
        package.id.version@,
        aur[aur_place(aur, package.id.name@) as int].version@,
    ) || (force_rebuild && version_controlled(package.id.name@)))
}

/// The places, among the first `n` installed packages, of those that are behind the AUR.
pub open spec fn outdated_before(
    aur: Seq<PackageMetadata>,
    system: Seq<InstalledPackage>,
    force_rebuild: bool,
    n: int,
) -> Seq<usize>
    decreases n,
{
    if n <= 0 {
        Seq::empty()
    } else if behind(aur, system[n - 1], force_rebuild) {
        outdated_before(aur, system, force_rebuild, n - 1).push((n - 1) as usize)
    } else {
        outdated_before(aur, system, force_rebuild, n - 1)
    }
}

/// The answer to a lookup of names in the AUR: the packages that were found,
/// and the names that were not.
#[derive(Debug, PartialEq, Eq)]
pub struct Lookup {
    /// The places in the AUR list of the packages found, in the order of the names.
    pub found: Vec<usize>,
    /// The places in the list of names of those that the AUR lacks, in rising order.
    pub not_found: Vec<usize>,
}

/// The places in the AUR list of the first `n` names that the AUR has.
pub open spec fn found_places(aur: Seq<PackageMetadata>, names: Seq<String>, n: int) -> Seq<usize>
    decreases n,
{
    if n <= 0 {
        Seq::empty()
    } else if in_aur(aur, names[n - 1]@) {
        found_places(aur, names, n - 1).push(aur_place(aur, names[n - 1]@))
    } else {
        found_places(aur, names, n - 1)
    }
}

/// The places, among the first `n` names, of those that the AUR lacks.
pub open spec fn lacking_places(aur: Seq<PackageMetadata>, names: Seq<String>, n: int) -> Seq<usize>
    decreases n,
{
    if n <= 0 {
        Seq::empty()
    } else if in_aur(aur, names[n - 1]@) {
        lacking_places(aur, names, n - 1)
    } else {
        lacking_places(aur, names, n - 1).push((n - 1) as usize)
    }
}

impl Universe {
    /// Where a name is found. The repositories come first, by name and then by
    /// what they provide, and then the AUR; with `force_aur` the AUR comes first.
    pub open spec fn link_for(&self, name: Seq<char>, force_aur: bool) -> Link {
        if force_aur && in_aur(self.aur@, name) {
            Link::Aur(aur_place(self.aur@, name))
        } else if in_repo(self.repo@, name) {
            Link::Repo
        } else if provided_by_repo(self.repo@, name) {
            Link::VirtualProvided
        } else if in_aur(self.aur@, name) {
            Link::Aur(aur_place(self.aur@, name))
        } else {
            Link::Missing
        }
    }

    /// For each AUR package, where each of its dependencies is found.
    pub open spec fn links(&self, force_aur: bool) -> Seq<Seq<Link>> {
        Seq::new(
            self.aur@.len(),
            |i: int|
                Seq::new(
                    self.aur@[i].depends@.len(),
                    |k: int| self.link_for(self.aur@[i].depends@[k]@, force_aur),
                ),
        )
    }

    /// The universe of the given packages.
    pub fn new(repo: Vec<RepoPackage>, aur: Vec<PackageMetadata>) -> (universe: Universe)
        ensures
            universe.repo == repo,
            universe.aur == aur,
    {
        Universe { repo, aur }
    }

    /// The first place of the AUR list that holds a package of that name.
    pub fn find_in_aur(&self, name: &String) -> (place: Option<usize>)
        ensures
            match place {
                Some(i) => is_first_named(self.aur@, name@, i as int) && i == aur_place(
                    self.aur@,
                    name@,
                ),
                None => !in_aur(self.aur@, name@),
            },
    {
        let mut i: usize = 0;
        while i < self.aur.len()
            invariant
                i <= self.aur.len(),
                forall|j: int| 0 <= j < i ==> (#[trigger] self.aur@[j]).name@ != name@,
            decreases self.aur.len() - i,
        {
            if self.aur[i].name == *name {
                assert(is_first_named(self.aur@, name@, i as int));
                let ghost other = aur_place(self.aur@, name@);
                assert(is_first_named(self.aur@, name@, other as int));
                return Some(i);
            }
            i += 1;
        }
        None
    }

    /// Looks names up in the AUR metadata. A name that the AUR lacks does
    /// not fail the lookup: it is reported, and the others are answered.
    pub fn lookup(&self, names: &Vec<String>) -> (answer: Lookup)
        ensures
            answer.found@ == found_places(self.aur@, names@, names@.len() as int),
            answer.not_found@ == lacking_places(self.aur@, names@, names@.len() as int),
    {
        let mut found: Vec<usize> = Vec::new();
        let mut not_found: Vec<usize> = Vec::new();
        let mut n: usize = 0;
        while n < names.len()
            invariant
                n <= names.len(),
                found@ == found_places(self.aur@, names@, n as int),
                not_found@ == lacking_places(self.aur@, names@, n as int),
            decreases names.len() - n,
        {
            match self.find_in_aur(&names[n]) {
                Some(place) => {
                    assert(in_aur(self.aur@, names@[n as int]@));
                    found.push(place);
                },
                None => {
                    not_found.push(n);
                },
            }
            n += 1;
        }
        Lookup { found, not_found }
    }

    /// The installed packages to upgrade from the AUR, by their places in
    /// the list, in rising order: those of which the AUR has a newer version,
    /// and, where a rebuild is forced, the version-controlled ones that the
    /// AUR has.
    pub fn outdated(&self, system: &Vec<InstalledPackage>, force_rebuild: bool) -> (places: Vec<usize>)
        ensures
            places@ == outdated_before(self.aur@, system@, force_rebuild, system@.len() as int),
    {
        let mut places: Vec<usize> = Vec::new();
        let mut n: usize = 0;
        while n < system.len()
            invariant
                n <= system.len(),
                places@ == outdated_before(self.aur@, system@, force_rebuild, n as int),
            decreases system.len() - n,
        {
            let package = &system[n];
            let is_behind = match self.find_in_aur(&package.id.name) {
                Some(place) => {
                    assert(in_aur(self.aur@, package.id.name@));
                    self.aur[place].version.is_newer_than(&package.id.version) || (force_rebuild
                        && is_version_controlled(package.id.name.as_str()))
                },
                None => false,
            };
            if is_behind {
                places.push(n);
            }
            n += 1;
        }
        places
    }

    /// The name of the AUR package at a place, if there is one.
    pub fn name_at(&self, place: usize) -> (name: Option<String>)
        ensures
            match name {
                Some(text) => place < self.aur@.len() && text@ == self.aur@[place as int].name@,
                None => place >= self.aur@.len(),
            },
    {
        if place < self.aur.len() {
            Some(self.aur[place].name.clone())
        } else {
            None
        }
    }

    /// Whether the repositories have a package of that name.
    pub fn is_in_repo(&self, name: &String) -> (found: bool)
        ensures
            found == in_repo(self.repo@, name@),
    {
        let mut i: usize = 0;
        while i < self.repo.len()
            invariant
                i <= self.repo.len(),
                forall|j: int| 0 <= j < i ==> (#[trigger] self.repo@[j]).name@ != name@,
            decreases self.repo.len() - i,
        {
            if self.repo[i].name == *name {
                return true;
            }
            i += 1;
        }
        false
    }

    /// Whether a package of the repositories provides that name.
    pub fn is_provided_by_repo(&self, name: &String) -> (found: bool)
        ensures
            found == provided_by_repo(self.repo@, name@),
    {
        let mut i: usize = 0;
        while i < self.repo.len()
            invariant
                i <= self.repo.len(),
                forall|j: int|
                    0 <= j < i ==> !texts((#[trigger] self.repo@[j]).provides@).contains(name@),
            decreases self.repo.len() - i,
        {
            if contains_name(&self.repo[i].provides, name) {
                return true;
            }
            i += 1;
        }
        false
    }

    /// Where a name is found: in the repositories, among what they provide, in
    /// the AUR, or nowhere. With `force_aur` the AUR is asked first.
    pub fn classify(&self, name: &String, force_aur: bool) -> (link: Link)
        ensures
            link == self.link_for(name@, force_aur),
            link matches Link::Aur(i) ==> is_first_named(self.aur@, name@, i as int),
    {
        if force_aur {
            if let Some(i) = self.find_in_aur(name) {
                return Link::Aur(i);
            }
        }
        if self.is_in_repo(name) {
            Link::Repo
        } else if self.is_provided_by_repo(name) {
            Link::VirtualProvided
        } else {
            match self.find_in_aur(name) {
                Some(i) => Link::Aur(i),
                None => Link::Missing,
            }
        }
    }

    /// The graph of the AUR packages: for each, where each of its dependencies is found.
    pub fn link_graph(&self, force_aur: bool) -> (graph: Vec<Vec<Link>>)
        ensures
            rows(graph@) == self.links(force_aur),
    {
        let mut graph: Vec<Vec<Link>> = Vec::new();
        let mut i: usize = 0;
        while i < self.aur.len()
            invariant
                i <= self.aur.len(),
                graph.len() == i,
                forall|j: int| 0 <= j < i ==> (#[trigger] graph@[j])@ == self.links(force_aur)[j],
            decreases self.aur.len() - i,
        {
            let depends = &self.aur[i].depends;
            let mut row: Vec<Link> = Vec::new();
            let mut k: usize = 0;
            while k < depends.len()
                invariant
                    k <= depends.len(),
                    row.len() == k,
                    forall|n: int|
                        0 <= n < k ==> #[trigger] row@[n] == self.link_for(depends@[n]@, force_aur),
                decreases depends.len() - k,
            {
                row.push(self.classify(&depends[k], force_aur));
                k += 1;
            }
            assert(row@ =~= self.links(force_aur)[i as int]);
            graph.push(row);
            i += 1;
        }
        assert(rows(graph@) =~= self.links(force_aur));
        graph
    }
}

} // verus!
