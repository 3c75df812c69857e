//! The cache of package tarballs and what is kept of it.

use vstd::prelude::*;

pub mod laws;

use crate::cache::laws::{
    available,
    distinct_tarballs,
    kept,
    lemma_clean_keeps_count,
    lemma_clean_keeps_most_recent,
    lemma_swept_are_those_that_do_not_stay,
};
use crate::backup::Snapshot;
use crate::package::{identities, PackageId};
use crate::text::{chars_of, find_last, last_place, numbers_in};
use crate::version::{precedes, Version};
use vstd::string::StrSliceExecFns;

verus! {

/// One tarball of the cache.
#[derive(Debug, PartialEq, Eq)]
pub struct CacheEntry {
    /// The name of the package that the tarball holds.
    pub package_name: String,
    /// The version of the package that the tarball holds.
    pub version: Version,
    /// Where the tarball lies.
    pub file_path: String,
    /// Whether the tarball passed its integrity check.
    pub valid: bool,
}

impl CacheEntry {
    /// The name and the version of the package that the tarball holds.
    pub open spec fn identity(&self) -> (Seq<char>, Seq<u64>) {
        (self.package_name@, self.version@)
    }
}

/// The names and versions of the tarballs of a cache.
pub open spec fn cached_identities(cache: Seq<CacheEntry>) -> Seq<(Seq<char>, Seq<u64>)> {
    cache.map_values(|e: CacheEntry| e.identity())
}

/// Whether the cache holds a tarball of the package in that version.
pub fn is_cached(cache: &Vec<CacheEntry>, package: &PackageId) -> (found: bool)
    ensures
        found == cached_identities(cache@).contains(package@),
{
    let mut i: usize = 0;
    while i < cache.len()
        invariant
            i <= cache.len(),
            forall|j: int| 0 <= j < i ==> cache[j].identity() != package@,
        decreases cache.len() - i,
    {
        if cache[i].package_name == package.name && cache[i].version.is_same_as(&package.version) {
            assert(cached_identities(cache@)[i as int] == package@);
            return true;
        }
        i += 1;
    }
    false
}

/// Tarball `j` holds a newer version of the package that tarball `i` holds.
pub open spec fn outranks(cache: Seq<CacheEntry>, j: int, i: int) -> bool {
    &&& cache[j].package_name@ == cache[i].package_name@
    &&& precedes(cache[i].version@, cache[j].version@)
}

/// How many of the first `n` tarballs hold a newer version of the package that tarball `i` holds.
pub open spec fn newer_count(cache: Seq<CacheEntry>, i: int, n: int) -> nat
    decreases n,
{
    if n <= 0 {
        0
    } else if outranks(cache, n - 1, i) {
        newer_count(cache, i, n - 1) + 1
    } else {
        newer_count(cache, i, n - 1)
    }
}

/// How many tarballs hold a newer version of the package that tarball `i` holds.
pub open spec fn rank(cache: Seq<CacheEntry>, i: int) -> nat {
    newer_count(cache, i, cache.len() as int)
}

/// Tarball `i` stays when the `keep` latest versions of each package are
/// kept: fewer than `keep` tarballs hold a newer version of its package.
pub open spec fn stays(cache: Seq<CacheEntry>, keep: nat, i: int) -> bool {
    rank(cache, i) < keep
}

/// Those of the first `n` tarballs that do not stay, by their places, in rising order.
pub open spec fn swept_before(cache: Seq<CacheEntry>, keep: nat, n: nat) -> Seq<usize>
    decreases n,
{
    if n == 0 {
        Seq::empty()
    } else if stays(cache, keep, n - 1) {
        swept_before(cache, keep, (n - 1) as nat)
    } else {
        swept_before(cache, keep, (n - 1) as nat).push((n - 1) as usize)
    }
}

/// How many tarballs hold a newer version of the package that tarball `i`
/// holds, counted up to `limit`: at `limit` the count stops.
fn count_newer(cache: &Vec<CacheEntry>, i: usize, limit: usize) -> (count: usize)
    requires
        i < cache.len(),
    ensures
        count == if rank(cache@, i as int) < limit {
            rank(cache@, i as int)
        } else {
            limit as nat
        },
{
    let mut count: usize = 0;
    let mut j: usize = 0;
    while j < cache.len() && count < limit
        invariant
            i < cache.len(),
            j <= cache.len(),
            count <= limit,
            count == newer_count(cache@, i as int, j as int),
        decreases cache.len() - j,
    {
        if cache[j].package_name == cache[i].package_name && cache[j].version.is_newer_than(
            &cache[i].version,
        ) {
            count += 1;
        }
        j += 1;
    }
    proof {
        lemma_newer_count_grows(cache@, i as int, j as int, cache@.len() as int);
    }
    count
}

/// The count of newer versions does not fall as more tarballs are counted.
pub proof fn lemma_newer_count_grows(cache: Seq<CacheEntry>, i: int, m: int, n: int)
    requires
        m <= n,
    ensures
        newer_count(cache, i, m) <= newer_count(cache, i, n),
    decreases n - m,
{
    if m < n {
        lemma_newer_count_grows(cache, i, m, n - 1);
    }
}

/// The tarballs to delete so that of each package the `keep_latest` latest
/// versions stay, by their places, in rising order. With 0 all are deleted.
pub fn clean(cache: &Vec<CacheEntry>, keep_latest: usize) -> (swept: Vec<usize>)
    ensures
        swept@ == swept_before(cache@, keep_latest as nat, cache@.len()),
        forall|i: usize| #[trigger]
            swept@.contains(i) <==> i < cache@.len() && !stays(cache@, keep_latest as nat, i as int),
        forall|i: int, j: int|
            0 <= i < cache@.len() && 0 <= j < cache@.len() && cache@[i].package_name@
                == cache@[j].package_name@ && stays(cache@, keep_latest as nat, i) && !stays(
                cache@,
                keep_latest as nat,
                j,
            ) ==> precedes(cache@[j].version@, cache@[i].version@),
        distinct_tarballs(cache@) ==> forall|name: Seq<char>|
            (#[trigger] kept(cache@, name, keep_latest as nat)).len() == if keep_latest
                <= available(cache@, name).len() {
                keep_latest as nat
            } else {
                available(cache@, name).len()
            },
{
    let mut swept: Vec<usize> = Vec::new();
    let mut i: usize = 0;
    while i < cache.len()
        invariant
            i <= cache.len(),
            swept@ == swept_before(cache@, keep_latest as nat, i as nat),
        decreases cache.len() - i,
    {
        if count_newer(cache, i, keep_latest) >= keep_latest {
            swept.push(i);
        }
        i += 1;
    }
    proof {
        let keep = keep_latest as nat;
        assert forall|i: usize| #[trigger]
            swept@.contains(i) <==> i < cache@.len() && !stays(cache@, keep, i as int) by {
            assert(cache@.len() == cache.len());
            lemma_swept_are_those_that_do_not_stay(cache@, keep, cache@.len(), i);
        }
        assert forall|i: int, j: int|
            0 <= i < cache@.len() && 0 <= j < cache@.len() && cache@[i].package_name@
                == cache@[j].package_name@ && stays(cache@, keep, i) && !stays(
                cache@,
                keep,
                j,
            ) implies precedes(cache@[j].version@, cache@[i].version@) by {
            lemma_clean_keeps_most_recent(cache@, keep, i, j);
        }
        if distinct_tarballs(cache@) {
            assert forall|name: Seq<char>|
                (#[trigger] kept(cache@, name, keep)).len() == if keep <= available(
                    cache@,
                    name,
                ).len() {
                    keep
                } else {
                    available(cache@, name).len()
                } by {
                lemma_clean_keeps_count(cache@, name, keep);
            }
        }
    }
    swept
}

/// Some snapshot names the package in that version.
pub open spec fn saved(snapshots: Seq<Snapshot>, identity: (Seq<char>, Seq<u64>)) -> bool {
    exists|s: int|
        0 <= s < snapshots.len() && identities(
            (#[trigger] snapshots[s]).explicitly_installed@,
        ).contains(identity)
}

/// Those of the first `n` tarballs that no snapshot names, by their places, in rising order.
pub open spec fn unsaved_before(cache: Seq<CacheEntry>, snapshots: Seq<Snapshot>, n: nat) -> Seq<
    usize,
>
    decreases n,
{
    if n == 0 {
        Seq::empty()
    } else if saved(snapshots, cache[n - 1].identity()) {
        unsaved_before(cache, snapshots, (n - 1) as nat)
    } else {
        unsaved_before(cache, snapshots, (n - 1) as nat).push((n - 1) as usize)
    }
}

/// The name of a file: what stands after the last `/` of its path.
pub open spec fn file_name(path: Seq<char>) -> Seq<char> {
    path.subrange(last_place(path, '/', path.len() as int) + 1, path.len() as int)
}

/// The package and the version that the name of a tarball tells, such as
/// `vim-9.1.0-2-x86_64.pkg.tar.zst`: the name stands before the third `-`
/// from the end, the version between that and the last.
pub open spec fn tarball_identity(file: Seq<char>) -> Option<(Seq<char>, Seq<u64>)> {
    let arch = last_place(file, '-', file.len() as int);
    let release = last_place(file, '-', arch);
    let version = last_place(file, '-', release);
    if version > 0 {
        Some((file.subrange(0, version), numbers_in(file.subrange(version + 1, arch))))
    } else {
        None
    }
}

impl CacheEntry {
    /// The tarball at a path, if the name of the file tells a package and a version.
    pub fn from_path(path: String, valid: bool) -> (entry: Option<CacheEntry>)
        ensures
            match entry {
                Some(e) => {
                    &&& tarball_identity(file_name(path@)) == Some(e.identity())
                    &&& e.file_path == path
                    &&& e.valid == valid
                },
                None => tarball_identity(file_name(path@)) is None,
            },
    {
        let whole = chars_of(path.as_str());
        let begin: usize = match find_last(&whole, '/', whole.len()) {
            Some(slash) => slash + 1,
            None => 0,
        };
        let file = path.as_str().substring_char(begin, whole.len());
        let chars = chars_of(file);
        let arch = match find_last(&chars, '-', chars.len()) {
            Some(at) => at,
            None => {
                return None;
            },
        };
        let release = match find_last(&chars, '-', arch) {
            Some(at) => at,
            None => {
                return None;
            },
        };
        let version = match find_last(&chars, '-', release) {
            Some(at) => at,
            None => {
                return None;
            },
        };
        if version == 0 {
            return None;
        }
        let package_name = file.substring_char(0, version).to_owned();
        let found = Version::parse(file.substring_char(version + 1, arch));
        Some(CacheEntry { package_name, version: found, file_path: path, valid })
    }

    /// A tarball of the cache.
    pub fn new(package_name: String, version: Version, file_path: String, valid: bool) -> (entry:
        CacheEntry)
        ensures
            entry.package_name == package_name,
            entry.version == version,
            entry.file_path == file_path,
            entry.valid == valid,
    {
        CacheEntry { package_name, version, file_path, valid }
    }

    /// Whether some snapshot names the package of the tarball in its version.
    pub fn is_saved(&self, snapshots: &Vec<Snapshot>) -> (found: bool)
        ensures
            found == saved(snapshots@, self.identity()),
    {
        let mut s: usize = 0;
        while s < snapshots.len()
            invariant
                s <= snapshots.len(),
                forall|t: int|
                    0 <= t < s ==> !identities(
                        (#[trigger] snapshots@[t]).explicitly_installed@,
                    ).contains(self.identity()),
            decreases snapshots.len() - s,
        {
            let packages = &snapshots[s].explicitly_installed;
            let mut k: usize = 0;
            while k < packages.len()
                invariant
                    k <= packages.len(),
                    s < snapshots.len(),
                    packages@ == snapshots@[s as int].explicitly_installed@,
                    forall|n: int| 0 <= n < k ==> (#[trigger] packages@[n])@ != self.identity(),
                decreases packages.len() - k,
            {
                if packages[k].name == self.package_name && packages[k].version.is_same_as(
                    &self.version,
                ) {
                    assert(identities(packages@)[k as int] == self.identity());
                    return true;
                }
                k += 1;
            }
            s += 1;
        }
        false
    }
}

/// The tarballs to delete because no snapshot names their package in their
/// version, by their places, in rising order.
pub fn clean_unsaved(cache: &Vec<CacheEntry>, snapshots: &Vec<Snapshot>) -> (swept: Vec<usize>)
    ensures
        swept@ == unsaved_before(cache@, snapshots@, cache@.len()),
{
    let mut swept: Vec<usize> = Vec::new();
    let mut i: usize = 0;
    while i < cache.len()
        invariant
            i <= cache.len(),
            swept@ == unsaved_before(cache@, snapshots@, i as nat),
        decreases cache.len() - i,
    {
        if !cache[i].is_saved(snapshots) {
            swept.push(i);
        }
        i += 1;
    }
    swept
}

} // verus!
