//! Byte-string utilities shared by the proxy core: substring search,
//! first-occurrence search, decimal rendering, and concatenation.
use vstd::prelude::*;

verus! {

/// `needle` occurs contiguously somewhere inside `hay`.
pub open spec fn is_substring_of(needle: Seq<u8>, hay: Seq<u8>) -> bool {
    exists|i: int|
        0 <= i && i + needle.len() <= hay.len() && #[trigger] hay.subrange(i, i + needle.len())
            == needle
}

/// A witness index makes the substring relation hold.
pub proof fn lemma_substring_at(needle: Seq<u8>, hay: Seq<u8>, i: int)
    requires
        0 <= i,
        i + needle.len() <= hay.len(),
        hay.subrange(i, i + needle.len()) == needle,
    ensures
        is_substring_of(needle, hay),
{
}

/// The middle part of a three-way concatenation is always a substring of the whole.
pub proof fn lemma_substring_of_concat(a: Seq<u8>, b: Seq<u8>, c: Seq<u8>)
    ensures
        is_substring_of(b, a + b + c),
{
    let whole = a + b + c;
    assert(whole.subrange(a.len() as int, a.len() + b.len() as int) =~= b);
    lemma_substring_at(b, whole, a.len() as int);
}

/// Whether `hay` matches `needle` starting at position `i`.
fn matches_at(hay: &Vec<u8>, needle: &Vec<u8>, i: usize) -> (r: bool)
    requires
        i + needle@.len() <= hay@.len(),
        hay@.len() <= usize::MAX,
    ensures
        r == (hay@.subrange(i as int, i + needle@.len()) == needle@),
{
    let mut j: usize = 0;
    while j < needle.len()
        invariant
            i + needle@.len() <= hay@.len(),
            hay@.len() <= usize::MAX,
            j <= needle@.len(),
            forall|k: int| 0 <= k < j ==> hay@[i + k] == needle@[k],
        decreases needle@.len() - j,
    {
        if hay[i + j] != needle[j] {
            proof {
                assert(hay@.subrange(i as int, i + needle@.len())[j as int] != needle@[j as int]);
            }
            return false;
        }
        j = j + 1;
    }
    proof {
        assert(hay@.subrange(i as int, i + needle@.len()) =~= needle@);
    }
    true
}

/// Substring search, the executable form of `is_substring_of`.
pub fn contains_bytes(hay: &Vec<u8>, needle: &Vec<u8>) -> (r: bool)
    ensures
        r == is_substring_of(needle@, hay@),
{
    if needle.len() > hay.len() {
        return false;
    }
    if needle.len() == 0 {
        proof {
            assert(hay@.subrange(0, 0) =~= needle@);
            lemma_substring_at(needle@, hay@, 0);
        }
        return true;
    }
    let bound = hay.len() - needle.len();
    let mut i: usize = 0;
    while i <= bound
        invariant
            needle@.len() >= 1,
            bound == hay@.len() - needle@.len(),
            hay@.len() <= usize::MAX,
            bound < usize::MAX,
            i <= bound + 1,
            forall|k: int|
                0 <= k < i ==> #[trigger] hay@.subrange(k, k + needle@.len()) != needle@,
        decreases bound + 1 - i,
    {
        if matches_at(hay, needle, i) {
            proof {
                lemma_substring_at(needle@, hay@, i as int);
            }
            return true;
        }
        i = i + 1;
    }
    false
}

/// Two byte vectors hold the same bytes.
pub fn bytes_eq(a: &Vec<u8>, b: &Vec<u8>) -> (r: bool)
    ensures
        r == (a@ == b@),
{
    if a.len() != b.len() {
        return false;
    }
    let mut i: usize = 0;
    while i < a.len()
        invariant
            a@.len() == b@.len(),
            i <= a@.len(),
            forall|k: int| 0 <= k < i ==> a@[k] == b@[k],
        decreases a@.len() - i,
    {
        if a[i] != b[i] {
            return false;
        }
        i = i + 1;
    }
    proof {
        assert(a@ =~= b@);
    }
    true
}

/// The least index at which byte `b` occurs in `s`, or `s.len()` if it never does.
pub open spec fn find_first(s: Seq<u8>, b: u8) -> int
    decreases s.len(),
{
    if s.len() == 0 {
        0
    } else if s[0] == b {
        0
    } else {
        1 + find_first(s.subrange(1, s.len() as int), b)
    }
}

/// `find_first` is a position in `0 ..= s.len()`, no earlier position holds `b`,
/// and the position itself holds `b` unless it is `s.len()`.
pub proof fn lemma_find_first(s: Seq<u8>, b: u8)
    ensures
        0 <= find_first(s, b) <= s.len(),
        forall|k: int| 0 <= k < find_first(s, b) ==> s[k] != b,
        find_first(s, b) < s.len() ==> s[find_first(s, b)] == b,
    decreases s.len(),
{
    if s.len() > 0 && s[0] != b {
        let t = s.subrange(1, s.len() as int);
        lemma_find_first(t, b);
        assert forall|k: int| 0 <= k < find_first(s, b) implies s[k] != b by {
            if k > 0 {
                assert(s[k] == t[k - 1]);
            }
        }
    }
}

/// Any position that no earlier position precedes with `b`, and that holds `b`
/// or is the end, is `find_first`.
pub proof fn lemma_find_first_unique(s: Seq<u8>, b: u8, j: int)
    requires
        0 <= j <= s.len(),
        forall|k: int| 0 <= k < j ==> s[k] != b,
        j < s.len() ==> s[j] == b,
    ensures
        find_first(s, b) == j,
    decreases s.len(),
{
    if s.len() == 0 {
    } else if s[0] == b {
    } else {
        let t = s.subrange(1, s.len() as int);
        assert forall|k: int| 0 <= k < j - 1 implies t[k] != b by {
            assert(t[k] == s[k + 1]);
        }
        assert(j - 1 < t.len() ==> t[j - 1] == b);
        lemma_find_first_unique(t, b, j - 1);
    }
}

/// Search for the first occurrence of `b` in `s` at or after `start`;
/// the answer is `s.len()` if there is none.
pub fn find_from(s: &Vec<u8>, start: usize, b: u8) -> (r: usize)
    requires
        start <= s@.len(),
    ensures
        start <= r <= s@.len(),
        forall|m: int| start <= m < r ==> s@[m] != b,
        r < s@.len() ==> s@[r as int] == b,
{
    let mut j: usize = start;
    while j < s.len()
        invariant
            start <= j <= s@.len(),
            forall|m: int| start <= m < j ==> s@[m] != b,
        decreases s@.len() - j,
    {
        if s[j] == b {
            return j;
        }
        j = j + 1;
    }
    j
}

/// Executable search for the first occurrence of `b` in `s`.
pub fn find_first_byte(s: &Vec<u8>, b: u8) -> (r: usize)
    ensures
        r == find_first(s@, b),
{
    let r = find_from(s, 0, b);
    proof {
        lemma_find_first_unique(s@, b, r as int);
    }
    r
}

/// The views of a sequence of byte vectors.
pub open spec fn views_of(vs: Seq<Vec<u8>>) -> Seq<Seq<u8>> {
    vs.map_values(|v: Vec<u8>| v@)
}

/// `views_of` commutes with `push`.
pub proof fn lemma_views_of_push(vs: Seq<Vec<u8>>, v: Vec<u8>)
    ensures
        views_of(vs.push(v)) =~= views_of(vs).push(v@),
{
}

/// Copy of the bytes of `s` in positions `a ..= b - 1`.
pub fn copy_range(s: &Vec<u8>, a: usize, b: usize) -> (r: Vec<u8>)
    requires
        a <= b <= s@.len(),
    ensures
        r@ == s@.subrange(a as int, b as int),
{
    let mut r: Vec<u8> = Vec::new();
    let mut i: usize = a;
    while i < b
        invariant
            a <= i <= b <= s@.len(),
            r@ == s@.subrange(a as int, i as int),
        decreases b - i,
    {
        r.push(s[i]);
        proof {
            assert(r@ =~= s@.subrange(a as int, i + 1));
        }
        i = i + 1;
    }
    r
}

/// Append all of `src` to `dst`.
pub fn push_all(dst: &mut Vec<u8>, src: &Vec<u8>)
    ensures
        final(dst)@ == old(dst)@ + src@,
{
    let ghost orig = dst@;
    let mut i: usize = 0;
    while i < src.len()
        invariant
            i <= src@.len(),
            dst@ == orig + src@.subrange(0, i as int),
        decreases src@.len() - i,
    {
        dst.push(src[i]);
        proof {
            assert(dst@ =~= orig + src@.subrange(0, i + 1));
        }
        i = i + 1;
    }
    proof {
        assert(dst@ =~= orig + src@);
    }
}

/// The decimal digits of `n`, most significant first.
pub open spec fn decimal_of(n: nat) -> Seq<u8>
    decreases n,
{
    if n < 10 {
        seq![(48 + n) as u8]
    } else {
        decimal_of(n / 10).push((48 + n % 10) as u8)
    }
}

/// Render `n` in decimal.
pub fn u64_decimal(n: u64) -> (r: Vec<u8>)
    ensures
        r@ == decimal_of(n as nat),
    decreases n,
{
    if n < 10 {
        let mut r: Vec<u8> = Vec::new();
        r.push(48 + (n as u8));
        proof {
            assert(r@ =~= decimal_of(n as nat));
        }
        r
    } else {
        let mut r = u64_decimal(n / 10);
        r.push(48 + ((n % 10) as u8));
        proof {
            assert(r@ =~= decimal_of(n as nat));
        }
        r
    }
}

} // verus!
