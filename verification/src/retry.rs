//! How often and how soon a query of the AUR is tried again when the AUR
//! could not be reached.

use vstd::prelude::*;

verus! {

/// The policy of retries: a bounded number of them, each after twice the
/// wait of the one before, up to a longest wait.
#[derive(Debug, Clone, Copy, PartialEq, Eq, Structural)]
pub struct Backoff {
    /// How many times a query is tried again at most.
    pub retries: u32,
    /// The wait before the first retry, in milliseconds.
    pub first_wait: u64,
    /// The longest wait before a retry, in milliseconds.
    pub longest_wait: u64,
}

/// Two to the power of `n`.
pub open spec fn pow2(n: nat) -> nat
    decreases n,
{
    if n == 0 {
        1
    } else {
        2 * pow2((n - 1) as nat)
    }
}

/// The lesser of two numbers.
pub open spec fn lesser(a: nat, b: nat) -> nat {
    if a <= b {
        a
    } else {
        b
    }
}

impl Backoff {
    /// The wait before the retry that follows `failures` failed tries: the
    /// first wait doubled for each failure after the first, but no more than
    /// the longest wait. None when the retries are used up: then the query
    /// has failed for good.
    pub open spec fn wait_after(self, failures: u32) -> Option<u64> {
        if failures == 0 || failures > self.retries {
            None
        } else {
            Some(
                lesser(
                    self.first_wait as nat * pow2((failures - 1) as nat),
                    self.longest_wait as nat,
                ) as u64,
            )
        }
    }

    /// The wait, in milliseconds, before a query that has failed `failures`
    /// times is tried again; none when it is not tried again.
    pub fn wait(&self, failures: u32) -> (wait: Option<u64>)
        ensures
            wait == self.wait_after(failures),
    {
        if failures == 0 || failures > self.retries {
            return None;
        }
        let mut wait: u64 = self.first_wait;
        let mut doubled: u32 = 1;
        assert(self.first_wait as nat * pow2(0) == self.first_wait as nat) by {
            assert(pow2(0) == 1);
        }
        while doubled < failures && wait < self.longest_wait
            invariant
                1 <= doubled <= failures,
                lesser(wait as nat, self.longest_wait as nat) == lesser(
                    self.first_wait as nat * pow2((doubled - 1) as nat),
                    self.longest_wait as nat,
                ),
                wait < self.longest_wait ==> wait == self.first_wait as nat * pow2(
                    (doubled - 1) as nat,
                ),
            decreases failures - doubled,
        {
            proof {
                lemma_product_doubles(self.first_wait as nat, (doubled - 1) as nat);
            }
            wait = if wait > self.longest_wait / 2 {
                self.longest_wait
            } else {
                wait * 2
            };
            doubled += 1;
        }
        proof {
            if doubled < failures {
                lemma_product_grows(self.first_wait as nat, (doubled - 1) as nat, (failures - 1) as nat);
            }
        }
        if wait > self.longest_wait {
            Some(self.longest_wait)
        } else {
            Some(wait)
        }
    }
}

/// A number times a power of two doubles with the exponent.
proof fn lemma_product_doubles(a: nat, n: nat)
    ensures
        a * pow2(n + 1) == 2 * (a * pow2(n)),
{
    assert(pow2(n + 1) == 2 * pow2(n));
    assert(a * (2 * pow2(n)) == 2 * (a * pow2(n))) by (nonlinear_arith);
}

/// A number times a power of two does not fall as the exponent grows.
proof fn lemma_product_grows(a: nat, m: nat, n: nat)
    requires
        m <= n,
    ensures
        a * pow2(m) <= a * pow2(n),
    decreases n - m,
{
    if m < n {
        lemma_product_grows(a, m, (n - 1) as nat);
        lemma_product_doubles(a, (n - 1) as nat);
    }
}

} // verus!
