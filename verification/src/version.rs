//! Package versions and their order.
//!
//! A version is the sequence of its numbers, `1.12.3-2` being `[1, 12, 3, 2]`.
//! Letters and other signs only part the numbers, so two texts with the same
//! numbers are one version. Versions are ordered as words are in a
//! dictionary: by the first number in which they differ, a version that is
//! the beginning of another coming first.

use vstd::prelude::*;
use crate::text::{numbers, numbers_in};

verus! {

/// The version of a package.
#[derive(Debug, PartialEq, Eq)]
pub struct Version {
    /// The numbers of the version, the most significant first.
    pub numbers: Vec<u64>,
}

/// How one version stands to another.
#[derive(Debug, Clone, Copy, PartialEq, Eq, Structural)]
pub enum Recency {
    /// The version came out before the other.
    Older,
    /// The two versions are one.
    Same,
    /// The version came out after the other.
    Newer,
}

/// The two sequences agree in their first `k` places.
pub open spec fn agree_until(a: Seq<u64>, b: Seq<u64>, k: int) -> bool {
    &&& 0 <= k <= a.len()
    &&& k <= b.len()
    &&& forall|i: int| 0 <= i < k ==> a[i] == b[i]
}

/// `a` and `b` part ways at place `k`, and `a` is the lesser there: it ends
/// while `b` goes on, or its number is the smaller one.
pub open spec fn lesser_at(a: Seq<u64>, b: Seq<u64>, k: int) -> bool {
    &&& agree_until(a, b, k)
    &&& k < b.len()
    &&& k < a.len() ==> a[k] < b[k]
}

/// `a` comes strictly before `b` in dictionary order.
pub open spec fn precedes(a: Seq<u64>, b: Seq<u64>) -> bool {
    exists|k: int| lesser_at(a, b, k)
}

/// A place at which two sequences can part ways is unique, and so is the
/// direction: no sequence comes before itself or before one that comes before it.
pub proof fn lemma_precedes_asymmetric(a: Seq<u64>, b: Seq<u64>)
    requires
        precedes(a, b),
    ensures
        a != b,
        !precedes(b, a),
{
    let k = choose|k: int| lesser_at(a, b, k);
    assert(lesser_at(a, b, k));
    if a == b {
        assert(k < a.len());
        assert(a[k] < b[k]);
    }
    if precedes(b, a) {
        let j = choose|j: int| lesser_at(b, a, j);
        assert(lesser_at(b, a, j));
        if j < k {
            assert(a[j] == b[j]);
        } else if k < j {
            assert(b[k] == a[k]);
        }
    }
}

/// Of two different sequences one comes before the other.
pub proof fn lemma_precedes_total(a: Seq<u64>, b: Seq<u64>)
    ensures
        a == b || precedes(a, b) || precedes(b, a),
{
    lemma_first_difference(a, b, 0);
}

/// From a place up to which two sequences agree, either they are equal or a
/// later place parts them.
proof fn lemma_first_difference(a: Seq<u64>, b: Seq<u64>, k: int)
    requires
        agree_until(a, b, k),
    ensures
        a == b || precedes(a, b) || precedes(b, a),
    decreases a.len() - k,
{
    if k == a.len() {
        if k == b.len() {
            assert(a =~= b);
        } else {
            assert(lesser_at(a, b, k));
        }
    } else if k == b.len() {
        assert(lesser_at(b, a, k));
    } else if a[k] < b[k] {
        assert(lesser_at(a, b, k));
    } else if b[k] < a[k] {
        assert(lesser_at(b, a, k));
    } else {
        lemma_first_difference(a, b, k + 1);
    }
}

/// What comes before a sequence comes before all that it comes before.
pub proof fn lemma_precedes_transitive(a: Seq<u64>, b: Seq<u64>, c: Seq<u64>)
    requires
        precedes(a, b),
        precedes(b, c),
    ensures
        precedes(a, c),
{
    let j = choose|j: int| lesser_at(a, b, j);
    let k = choose|k: int| lesser_at(b, c, k);
    assert(lesser_at(a, b, j));
    assert(lesser_at(b, c, k));
    if j <= k {
        assert(lesser_at(a, c, j));
    } else {
        assert(lesser_at(a, c, k));
    }
}

impl View for Version {
    type V = Seq<u64>;

    open spec fn view(&self) -> Seq<u64> {
        self.numbers@
    }
}

impl Clone for Version {
    fn clone(&self) -> (copy: Self)
        ensures
            copy@ == self@,
    {
        Version { numbers: self.numbers.clone() }
    }
}

impl Version {
    /// How `this` stands to `that` in the order of versions.
    pub open spec fn recency(this: Seq<u64>, that: Seq<u64>) -> Recency {
        if this == that {
            Recency::Same
        } else if precedes(this, that) {
            Recency::Older
        } else {
            Recency::Newer
        }
    }

    /// A version of the given numbers.
    pub fn new(numbers: Vec<u64>) -> (version: Version)
        ensures
            version@ == numbers@,
    {
        Version { numbers }
    }

    /// The version that a text such as `1.12.3-2` names: the numbers in it.
    pub fn parse(text: &str) -> (version: Version)
        ensures
            version@ == numbers_in(text@),
    {
        Version { numbers: numbers(text) }
    }

    /// Compares two versions by the first number in which they differ.
    pub fn compare(&self, other: &Version) -> (r: Recency)
        ensures
            r == Version::recency(self@, other@),
            r == Recency::Newer <==> precedes(other@, self@),
    {
        let mut i: usize = 0;
        while i < self.numbers.len() && i < other.numbers.len() && self.numbers[i]
            == other.numbers[i]
            invariant
                agree_until(self@, other@, i as int),
            decreases self.numbers.len() - i,
        {
            i += 1;
        }
        proof {
            lemma_precedes_total(self@, other@);
            if precedes(self@, other@) {
                lemma_precedes_asymmetric(self@, other@);
            }
            if precedes(other@, self@) {
                lemma_precedes_asymmetric(other@, self@);
            }
        }
        if i == self.numbers.len() {
            if i == other.numbers.len() {
                assert(self@ =~= other@);
                Recency::Same
            } else {
                assert(lesser_at(self@, other@, i as int));
                Recency::Older
            }
        } else if i == other.numbers.len() {
            assert(lesser_at(other@, self@, i as int));
            Recency::Newer
        } else if self.numbers[i] < other.numbers[i] {
            assert(lesser_at(self@, other@, i as int));
            Recency::Older
        } else {
            assert(lesser_at(other@, self@, i as int));
            Recency::Newer
        }
    }

    /// Whether this version came out after the other.
    pub fn is_newer_than(&self, other: &Version) -> (newer: bool)
        ensures
            newer == precedes(other@, self@),
    {
        self.compare(other) == Recency::Newer
    }

    /// Whether the two versions are one.
    pub fn is_same_as(&self, other: &Version) -> (same: bool)
        ensures
            same == (self@ == other@),
    {
        self.compare(other) == Recency::Same
    }
}

/// How a version has to stand to the version that a constraint names.
#[derive(Debug, Clone, Copy, PartialEq, Eq, Structural)]
pub enum Relation {
    /// `<`: older than the named version.
    Less,
    /// `<=`: the named version or an older one.
    LessOrEqual,
    /// `=`: the named version.
    Equal,
    /// `>=`: the named version or a newer one.
    GreaterOrEqual,
    /// `>`: newer than the named version.
    Greater,
}

/// A demand on the version of a package, such as `>= 1.2`.
#[derive(Debug, PartialEq, Eq)]
pub struct Constraint {
    /// How the version has to stand to `version`.
    pub relation: Relation,
    /// The version that the constraint names.
    pub version: Version,
}

impl Constraint {
    /// Whether `candidate` meets the constraint.
    pub open spec fn admits(&self, candidate: Seq<u64>) -> bool {
        match self.relation {
            Relation::Less => precedes(candidate, self.version@),
            Relation::LessOrEqual => candidate == self.version@ || precedes(candidate, self.version@),
            Relation::Equal => candidate == self.version@,
            Relation::GreaterOrEqual => candidate == self.version@ || precedes(
                self.version@,
                candidate,
            ),
            Relation::Greater => precedes(self.version@, candidate),
        }
    }

    /// Whether a version meets the constraint.
    pub fn accepts(&self, candidate: &Version) -> (met: bool)
        ensures
            met == self.admits(candidate@),
    {
        let r = candidate.compare(&self.version);
        proof {
            if precedes(candidate@, self.version@) {
                lemma_precedes_asymmetric(candidate@, self.version@);
            }
        }
        match self.relation {
            Relation::Less => r == Recency::Older,
            Relation::LessOrEqual => r == Recency::Older || r == Recency::Same,
            Relation::Equal => r == Recency::Same,
            Relation::GreaterOrEqual => r == Recency::Newer || r == Recency::Same,
            Relation::Greater => r == Recency::Newer,
        }
    }
}

} // verus!
