//! Packages as they are named and told apart: by name, and by name and version.

use vstd::prelude::*;
use crate::text::{numbers_in, words, words_in};
use crate::version::Version;

verus! {

/// The texts of a list of strings.
pub open spec fn texts(names: Seq<String>) -> Seq<Seq<char>> {
    names.map_values(|s: String| s@)
}

/// Whether a name is in a list of names.
pub fn contains_name(names: &Vec<String>, name: &String) -> (found: bool)
    ensures
        found == texts(names@).contains(name@),
{
    let place = position_of_name(names, name);
    proof {
        if let Some(i) = place {
            assert(texts(names@)[i as int] == name@);
        }
    }
    place.is_some()
}

/// The first place of a name in a list of names.
pub fn position_of_name(names: &Vec<String>, name: &String) -> (place: Option<usize>)
    ensures
        match place {
            Some(i) => i < names.len() && names[i as int]@ == name@ && forall|j: int|
                0 <= j < i ==> names[j]@ != name@,
            None => !texts(names@).contains(name@),
        },
{
    let mut i: usize = 0;
    while i < names.len()
        invariant
            i <= names.len(),
            forall|j: int| 0 <= j < i ==> names[j]@ != name@,
        decreases names.len() - i,
    {
        if names[i] == *name {
            return Some(i);
        }
        i += 1;
    }
    None
}

/// A package in one of its versions.
#[derive(Debug, PartialEq, Eq)]
pub struct PackageId {
    /// The name of the package.
    pub name: String,
    /// The version of the package.
    pub version: Version,
}

impl View for PackageId {
    type V = (Seq<char>, Seq<u64>);

    open spec fn view(&self) -> (Seq<char>, Seq<u64>) {
        (self.name@, self.version@)
    }
}

impl Clone for PackageId {
    fn clone(&self) -> (copy: Self)
        ensures
            copy@ == self@,
    {
        PackageId { name: self.name.clone(), version: self.version.clone() }
    }
}

/// The names and versions of a list of packages.
pub open spec fn identities(packages: Seq<PackageId>) -> Seq<(Seq<char>, Seq<u64>)> {
    packages.map_values(|p: PackageId| p@)
}

impl PackageId {
    /// A package of the given name and version.
    pub fn new(name: String, version: Version) -> (id: PackageId)
        ensures
            id@ == (name@, version@),
    {
        PackageId { name, version }
    }

    /// The package that a line of two words names, such as `vim 9.1-2`.
    pub open spec fn parsed(line: Seq<char>) -> Option<(Seq<char>, Seq<u64>)> {
        let found = words_in(line);
        if found.len() == 2 {
            Some((found[0], numbers_in(found[1])))
        } else {
            None
        }
    }

    /// Reads a package from a line that holds its name and its version, as
    /// the package manager lists what is installed. A line of fewer or more
    /// than two words names no package.
    pub fn parse(line: &str) -> (id: Option<PackageId>)
        ensures
            match id {
                Some(package) => PackageId::parsed(line@) == Some(package@),
                None => PackageId::parsed(line@) is None,
            },
    {
        let found = words(line);
        if found.len() == 2 {
            assert(texts(found@)[0] == found@[0]@);
            assert(texts(found@)[1] == found@[1]@);
            let version = Version::parse(found[1].as_str());
            let name = found[0].clone();
            Some(PackageId { name, version })
        } else {
            None
        }
    }

    /// Whether two packages have one name and one version.
    pub fn is_same_as(&self, other: &PackageId) -> (same: bool)
        ensures
            same == (self@ == other@),
    {
        self.name == other.name && self.version.is_same_as(&other.version)
    }

    /// Whether the package, in this version, is in a list.
    pub fn is_in(&self, packages: &Vec<PackageId>) -> (found: bool)
        ensures
            found == identities(packages@).contains(self@),
    {
        let mut i: usize = 0;
        while i < packages.len()
            invariant
                i <= packages.len(),
                forall|j: int| 0 <= j < i ==> packages[j]@ != self@,
            decreases packages.len() - i,
        {
            if self.is_same_as(&packages[i]) {
                assert(identities(packages@)[i as int] == self@);
                return true;
            }
            i += 1;
        }
        false
    }
}

/// A package as the package manager reports it installed.
#[derive(Debug, PartialEq, Eq)]
pub struct InstalledPackage {
    /// The name and the version that is installed.
    pub id: PackageId,
    /// Whether the user asked for the package, rather than a dependency pulling it in.
    pub explicit: bool,
    /// The names of the packages that this one declares it depends on.
    pub depends: Vec<String>,
}

impl InstalledPackage {
    /// An installed package.
    pub fn new(id: PackageId, explicit: bool, depends: Vec<String>) -> (package: InstalledPackage)
        ensures
            package.id == id,
            package.explicit == explicit,
            package.depends == depends,
    {
        InstalledPackage { id, explicit, depends }
    }
}

} // verus!
