//! What cleaning the cache keeps: of each package the latest versions, as
//! many as were asked for or as there are.

use vstd::prelude::*;
use crate::cache::{newer_count, outranks, rank, stays, swept_before, CacheEntry};
use crate::counting::lemma_distinct_fit;
use crate::version::{
    lemma_precedes_asymmetric,
    lemma_precedes_total,
    lemma_precedes_transitive,
    precedes,
};

verus! {

/// No two tarballs hold the same version of the same package.
pub open spec fn distinct_tarballs(cache: Seq<CacheEntry>) -> bool {
    forall|i: int, j: int|
        0 <= i < j < cache.len() ==> (#[trigger] cache[i]).identity() != (
        #[trigger] cache[j]).identity()
}

/// The places, among the first `n`, of the tarballs of package `name` that
/// `wanted` holds of, in rising order.
pub open spec fn places_where(
    cache: Seq<CacheEntry>,
    name: Seq<char>,
    wanted: spec_fn(int) -> bool,
    n: int,
) -> Seq<int>
    decreases n,
{
    if n <= 0 {
        Seq::empty()
    } else if cache[n - 1].package_name@ == name && wanted(n - 1) {
        places_where(cache, name, wanted, n - 1).push(n - 1)
    } else {
        places_where(cache, name, wanted, n - 1)
    }
}

/// The places of the tarballs of package `name`.
pub open spec fn available(cache: Seq<CacheEntry>, name: Seq<char>) -> Seq<int> {
    places_where(cache, name, |i: int| true, cache.len() as int)
}

/// The places of the tarballs of package `name` that stay when the `keep`
/// latest versions are kept.
pub open spec fn kept(cache: Seq<CacheEntry>, name: Seq<char>, keep: nat) -> Seq<int> {
    places_where(cache, name, |i: int| stays(cache, keep, i), cache.len() as int)
}

/// The places of the tarballs of package `name` that are deleted when the
/// `keep` latest versions are kept.
pub open spec fn swept(cache: Seq<CacheEntry>, name: Seq<char>, keep: nat) -> Seq<int> {
    places_where(cache, name, |i: int| !stays(cache, keep, i), cache.len() as int)
}

/// What a list of places holds: places below `n` of tarballs of the package
/// that `wanted` holds of, each once, in rising order.
proof fn lemma_places(cache: Seq<CacheEntry>, name: Seq<char>, wanted: spec_fn(int) -> bool, n: int)
    ensures
        forall|p: int|
            0 <= p < places_where(cache, name, wanted, n).len() ==> {
                let i = #[trigger] places_where(cache, name, wanted, n)[p];
                0 <= i < n && cache[i].package_name@ == name && wanted(i)
            },
        places_where(cache, name, wanted, n).no_duplicates(),
    decreases n,
{
    if n > 0 {
        lemma_places(cache, name, wanted, n - 1);
        let before = places_where(cache, name, wanted, n - 1);
        let all = places_where(cache, name, wanted, n);
        if cache[n - 1].package_name@ == name && wanted(n - 1) {
            assert forall|p: int| 0 <= p < all.len() implies {
                let i = #[trigger] all[p];
                0 <= i < n && cache[i].package_name@ == name && wanted(i)
            } by {
                if p < before.len() {
                    assert(all[p] == before[p]);
                }
            }
            assert forall|p: int, q: int|
                0 <= p < all.len() && 0 <= q < all.len() && p != q implies all[p] != all[q] by {
                if p < before.len() {
                    assert(all[p] == before[p]);
                }
                if q < before.len() {
                    assert(all[q] == before[q]);
                }
            }
        }
    }
}

/// Each tarball of a package is in one of two lists: that of the places that
/// `wanted` holds of, or that of the others.
proof fn lemma_places_split(
    cache: Seq<CacheEntry>,
    name: Seq<char>,
    wanted: spec_fn(int) -> bool,
    n: int,
)
    ensures
        places_where(cache, name, wanted, n).len() + places_where(
            cache,
            name,
            |i: int| !wanted(i),
            n,
        ).len() == places_where(cache, name, |i: int| true, n).len(),
    decreases n,
{
    if n > 0 {
        lemma_places_split(cache, name, wanted, n - 1);
    }
}

/// A tarball that holds no older version than another of the same package has
/// no more newer versions above it.
pub proof fn lemma_rank_monotone(cache: Seq<CacheEntry>, i: int, j: int, n: int)
    requires
        cache[i].package_name@ == cache[j].package_name@,
        cache[i].version@ == cache[j].version@ || precedes(cache[i].version@, cache[j].version@),
    ensures
        newer_count(cache, j, n) <= newer_count(cache, i, n),
    decreases n,
{
    if n > 0 {
        lemma_rank_monotone(cache, i, j, n - 1);
        if outranks(cache, n - 1, j) {
            if cache[i].version@ != cache[j].version@ {
                lemma_precedes_transitive(
                    cache[i].version@,
                    cache[j].version@,
                    cache[n - 1].version@,
                );
            }
            assert(outranks(cache, n - 1, i));
        }
    }
}

/// A tarball that holds a newer version than another of the same package has
/// fewer newer versions above it, once it is counted itself.
pub proof fn lemma_rank_strict(cache: Seq<CacheEntry>, i: int, j: int, n: int)
    requires
        0 <= j < n,
        cache[i].package_name@ == cache[j].package_name@,
        precedes(cache[i].version@, cache[j].version@),
    ensures
        newer_count(cache, j, n) < newer_count(cache, i, n),
    decreases n,
{
    if n == j + 1 {
        lemma_rank_monotone(cache, i, j, j);
        assert(outranks(cache, j, i));
        if precedes(cache[j].version@, cache[j].version@) {
            lemma_precedes_asymmetric(cache[j].version@, cache[j].version@);
        }
        assert(!outranks(cache, j, j));
    } else {
        lemma_rank_strict(cache, i, j, n - 1);
        if outranks(cache, n - 1, j) {
            lemma_precedes_transitive(cache[i].version@, cache[j].version@, cache[n - 1].version@);
            assert(outranks(cache, n - 1, i));
        }
    }
}

/// A tarball has fewer newer versions above it than its package has tarballs.
proof fn lemma_rank_bound(cache: Seq<CacheEntry>, i: int, n: int)
    requires
        0 <= i < cache.len(),
        0 <= n <= cache.len(),
    ensures
        newer_count(cache, i, n) + (if i < n {
            1int
        } else {
            0int
        }) <= places_where(cache, cache[i].package_name@, |k: int| true, n).len(),
    decreases n,
{
    if n > 0 {
        lemma_rank_bound(cache, i, n - 1);
        if outranks(cache, n - 1, i) {
            if n - 1 == i {
                lemma_precedes_asymmetric(cache[i].version@, cache[i].version@);
            }
        }
    }
}

/// Two tarballs of one package that hold different versions have different
/// numbers of newer versions above them.
proof fn lemma_ranks_differ(cache: Seq<CacheEntry>, i: int, j: int)
    requires
        0 <= i < cache.len(),
        0 <= j < cache.len(),
        cache[i].package_name@ == cache[j].package_name@,
        cache[i].version@ != cache[j].version@,
    ensures
        rank(cache, i) != rank(cache, j),
{
    lemma_precedes_total(cache[i].version@, cache[j].version@);
    if precedes(cache[i].version@, cache[j].version@) {
        lemma_rank_strict(cache, i, j, cache.len() as int);
    } else {
        lemma_rank_strict(cache, j, i, cache.len() as int);
    }
}

/// Where tarballs differ in name or version, those of one package at
/// different places have different ranks.
proof fn lemma_ranks_of_places_distinct(
    cache: Seq<CacheEntry>,
    name: Seq<char>,
    places: Seq<int>,
    shift: int,
)
    requires
        distinct_tarballs(cache),
        places.no_duplicates(),
        forall|p: int|
            0 <= p < places.len() ==> 0 <= #[trigger] places[p] < cache.len()
                && cache[places[p]].package_name@ == name,
    ensures
        places.map_values(|i: int| rank(cache, i) - shift).no_duplicates(),
{
    let ranks = places.map_values(|i: int| rank(cache, i) - shift);
    assert forall|p: int, q: int|
        0 <= p < ranks.len() && 0 <= q < ranks.len() && p != q implies ranks[p] != ranks[q] by {
        let i = places[p];
        let j = places[q];
        assert(i != j);
        if i < j {
            assert(cache[i].identity() != cache[j].identity());
        } else {
            assert(cache[j].identity() != cache[i].identity());
        }
        lemma_ranks_differ(cache, i, j);
    }
}

/// Cleaning leaves of each package as many versions as were asked for, or
/// all where there are fewer.
pub proof fn lemma_clean_keeps_count(cache: Seq<CacheEntry>, name: Seq<char>, keep: nat)
    requires
        distinct_tarballs(cache),
    ensures
        kept(cache, name, keep).len() == if keep <= available(cache, name).len() {
            keep
        } else {
            available(cache, name).len()
        },
{
    let n = cache.len() as int;
    let stay = |i: int| stays(cache, keep, i);
    let go = |i: int| !stays(cache, keep, i);
    let all = available(cache, name);
    let k = kept(cache, name, keep);
    let s = swept(cache, name, keep);
    lemma_places_split(cache, name, stay, n);
    assert(places_where(cache, name, |i: int| !stay(i), n) =~= s) by {
        lemma_same_places(cache, name, |i: int| !stay(i), go, n);
    }
    assert(k.len() + s.len() == all.len());
    lemma_places(cache, name, stay, n);
    lemma_places(cache, name, go, n);
    let m = all.len() as int;
    // the ranks of what stays are distinct numbers below `keep`
    lemma_ranks_of_places_distinct(cache, name, k, 0);
    let k_ranks = k.map_values(|i: int| rank(cache, i) - 0);
    assert forall|p: int| 0 <= p < k_ranks.len() implies 0 <= #[trigger] k_ranks[p] < keep by {
        assert(stay(k[p]));
    }
    lemma_distinct_fit(k_ranks, keep as int);
    // the ranks of what goes are distinct numbers from `keep` up to the number of tarballs
    lemma_ranks_of_places_distinct(cache, name, s, keep as int);
    let s_ranks = s.map_values(|i: int| rank(cache, i) - keep as int);
    assert forall|p: int| 0 <= p < s_ranks.len() implies 0 <= #[trigger] s_ranks[p] < m - keep by {
        assert(go(s[p]));
        lemma_rank_bound(cache, s[p], n);
    }
    lemma_distinct_fit(s_ranks, m - keep);
}

/// Two conditions that hold of the same places give the same list of places.
proof fn lemma_same_places(
    cache: Seq<CacheEntry>,
    name: Seq<char>,
    one: spec_fn(int) -> bool,
    other: spec_fn(int) -> bool,
    n: int,
)
    requires
        forall|i: int| #[trigger] one(i) == other(i),
    ensures
        places_where(cache, name, one, n) == places_where(cache, name, other, n),
    decreases n,
{
    if n > 0 {
        lemma_same_places(cache, name, one, other, n - 1);
    }
}

/// Cleaning keeps the most recent: a version that stays is newer than every
/// version of the same package that goes.
pub proof fn lemma_clean_keeps_most_recent(cache: Seq<CacheEntry>, keep: nat, i: int, j: int)
    requires
        0 <= i < cache.len(),
        0 <= j < cache.len(),
        cache[i].package_name@ == cache[j].package_name@,
        stays(cache, keep, i),
        !stays(cache, keep, j),
    ensures
        precedes(cache[j].version@, cache[i].version@),
{
    lemma_precedes_total(cache[i].version@, cache[j].version@);
    if !precedes(cache[j].version@, cache[i].version@) {
        lemma_rank_monotone(cache, i, j, cache.len() as int);
    }
}

/// The list of what is deleted holds exactly the places below `n` of the
/// tarballs that do not stay.
pub proof fn lemma_swept_are_those_that_do_not_stay(cache: Seq<CacheEntry>, keep: nat, n: nat, i: usize)
    requires
        n <= usize::MAX,
    ensures
        swept_before(cache, keep, n).contains(i) <==> i < n && !stays(cache, keep, i as int),
    decreases n,
{
    if n > 0 {
        let before = swept_before(cache, keep, (n - 1) as nat);
        lemma_swept_are_those_that_do_not_stay(cache, keep, (n - 1) as nat, i);
        if !stays(cache, keep, n - 1) {
            let all = before.push((n - 1) as usize);
            assert(all[before.len() as int] == (n - 1) as usize);
            if before.contains(i) {
                let k = choose|k: int| 0 <= k < before.len() && before[k] == i;
                assert(all[k] == i);
            }
            if all.contains(i) {
                let k = choose|k: int| 0 <= k < all.len() && all[k] == i;
                if k < before.len() {
                    assert(before[k] == i);
                }
            }
        }
    }
}

/// With nothing to keep, nothing stays.
pub proof fn lemma_clean_all(cache: Seq<CacheEntry>, i: int)
    ensures
        !stays(cache, 0, i),
{
}

} // verus!
