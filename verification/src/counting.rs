//! Counting by pigeonholes.

use vstd::prelude::*;

verus! {

/// Distinct numbers from 0 up to, but not including, `n` are at most `n`.
pub proof fn lemma_distinct_fit(s: Seq<int>, n: int)
    requires
        s.no_duplicates(),
        forall|i: int| 0 <= i < s.len() ==> 0 <= #[trigger] s[i] < n,
    ensures
        s.len() == 0 || s.len() <= n,
    decreases s.len(),
{
    if s.len() > 0 {
        assert(0 <= s[0] < n);
        let top = n - 1;
        if exists|i: int| 0 <= i < s.len() && s[i] == top {
            let i = choose|i: int| 0 <= i < s.len() && s[i] == top;
            let t = s.remove(i);
            assert forall|j: int| 0 <= j < t.len() implies 0 <= #[trigger] t[j] < n - 1 by {
                if j < i {
                    assert(t[j] == s[j]);
                } else {
                    assert(t[j] == s[j + 1]);
                }
            }
            assert(t.no_duplicates()) by {
                assert forall|j: int, k: int|
                    0 <= j < t.len() && 0 <= k < t.len() && j != k implies t[j] != t[k] by {
                    let jj = if j < i {
                        j
                    } else {
                        j + 1
                    };
                    let kk = if k < i {
                        k
                    } else {
                        k + 1
                    };
                    assert(t[j] == s[jj]);
                    assert(t[k] == s[kk]);
                }
            }
            lemma_distinct_fit(t, n - 1);
        } else {
            let t = s.drop_last();
            assert forall|j: int| 0 <= j < t.len() implies 0 <= #[trigger] t[j] < n - 1 by {
                assert(t[j] == s[j]);
                assert(0 <= s[j] < n);
            }
            assert(t.no_duplicates()) by {
                assert forall|j: int, k: int|
                    0 <= j < t.len() && 0 <= k < t.len() && j != k implies t[j] != t[k] by {
                    assert(t[j] == s[j]);
                    assert(t[k] == s[k]);
                }
            }
            lemma_distinct_fit(t, n - 1);
            assert(0 <= s[s.len() - 1] < n);
        }
    }
}

} // verus!
