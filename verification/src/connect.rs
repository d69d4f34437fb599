//! The tunnel target grammar. A `CONNECT` request must name a socket address
//! `host:port`: the part before the last colon is a nonempty host free of
//! `/`, and the part after it is a nonempty run of decimal digits.
use vstd::prelude::*;

verus! {

/// `t` splits as `host:port` at position `i`: a colon stands at `i`, the host
/// before it is nonempty and holds no `/`, and the port after it is nonempty
/// and all decimal digits.
pub open spec fn splits_as_authority_at(t: Seq<u8>, i: int) -> bool {
    &&& 1 <= i
    &&& i + 1 < t.len()
    &&& t[i] == 58
    &&& (forall|k: int| 0 <= k < i ==> t[k] != 47)
    &&& (forall|k: int| i < k < t.len() ==> 48 <= #[trigger] t[k] <= 57)
}

/// `t` is a usable tunnel target.
pub open spec fn is_connect_target(t: Seq<u8>) -> bool {
    exists|i: int| splits_as_authority_at(t, i)
}

/// Only the last colon of `t` can be a split position.
proof fn lemma_split_is_last_colon(t: Seq<u8>, last: int)
    requires
        0 <= last < t.len(),
        t[last] == 58,
        forall|m: int| last < m < t.len() ==> t[m] != 58,
    ensures
        forall|i: int| splits_as_authority_at(t, i) ==> i == last,
{
    assert forall|i: int| splits_as_authority_at(t, i) implies i == last by {
        if i < last {
            assert(48 <= t[last] <= 57);
            assert(false);
        }
        if i > last {
            assert(t[i] == 58);
            assert(false);
        }
    }
}

/// Decide whether `t` is a tunnel target of the form `host:port`.
pub fn connect_target_ok(t: &Vec<u8>) -> (r: bool)
    ensures
        r == is_connect_target(t@),
{
    // Find the last colon.
    let mut last: usize = t.len();
    let mut k: usize = 0;
    while k < t.len()
        invariant
            k <= t@.len(),
            last <= t@.len(),
            last == t@.len() ==> forall|m: int| 0 <= m < k ==> t@[m] != 58,
            last < t@.len() ==> last < k && t@[last as int] == 58 && forall|m: int|
                last < m < k ==> t@[m] != 58,
        decreases t@.len() - k,
    {
        if t[k] == 58 {
            last = k;
        }
        k = k + 1;
    }
    if last == t.len() {
        proof {
            assert(!is_connect_target(t@)) by {
                if is_connect_target(t@) {
                    let i = choose|i: int| splits_as_authority_at(t@, i);
                    assert(t@[i] == 58);
                    assert(false);
                }
            }
        }
        return false;
    }
    proof {
        lemma_split_is_last_colon(t@, last as int);
    }
    // The host must be nonempty and the port must be nonempty.
    if last == 0 || last + 1 >= t.len() {
        return false;
    }
    // The host must hold no '/'.
    let mut m: usize = 0;
    while m < last
        invariant
            1 <= last,
            last + 1 < t@.len(),
            t@[last as int] == 58,
            forall|j: int| last < j < t@.len() ==> t@[j] != 58,
            m <= last,
            forall|j: int| 0 <= j < m ==> t@[j] != 47,
        decreases last - m,
    {
        if t[m] == 47 {
            proof {
                lemma_split_is_last_colon(t@, last as int);
                assert(!splits_as_authority_at(t@, last as int));
            }
            return false;
        }
        m = m + 1;
    }
    // The port must be all decimal digits.
    let mut p: usize = last + 1;
    while p < t.len()
        invariant
            1 <= last,
            last + 1 < t@.len(),
            t@[last as int] == 58,
            forall|j: int| last < j < t@.len() ==> t@[j] != 58,
            forall|j: int| 0 <= j < last ==> t@[j] != 47,
            last + 1 <= p <= t@.len(),
            forall|j: int| last < j < p ==> 48 <= #[trigger] t@[j] <= 57,
        decreases t@.len() - p,
    {
        if t[p] < 48 || t[p] > 57 {
            proof {
                lemma_split_is_last_colon(t@, last as int);
                assert(!splits_as_authority_at(t@, last as int));
            }
            return false;
        }
        p = p + 1;
    }
    proof {
        assert(splits_as_authority_at(t@, last as int));
    }
    true
}

} // verus!
