//! Searching and comparing byte sequences.
use vstd::prelude::*;

verus! {

/// The index of the first `b` in `s`, or `s.len()` where `s` holds none.
pub open spec fn first_pos(s: Seq<u8>, b: u8) -> int
    decreases s.len(),
{
    if s.len() == 0 {
        0
    } else if s[0] == b {
        0
    } else {
        1 + first_pos(s.drop_first(), b)
    }
}

/// What characterizes `first_pos`: every byte before it differs from `b`, and
/// it is `b` where it is inside `s`.
pub open spec fn is_first_pos(s: Seq<u8>, b: u8, i: int) -> bool {
    &&& 0 <= i <= s.len()
    &&& forall|j: int| 0 <= j < i ==> s[j] != b
    &&& i < s.len() ==> s[i] == b
}

/// `first_pos` is the one index with the characterizing property.
pub proof fn lemma_first_pos(s: Seq<u8>, b: u8)
    ensures
        is_first_pos(s, b, first_pos(s, b)),
        forall|i: int| is_first_pos(s, b, i) ==> i == first_pos(s, b),
    decreases s.len(),
{
    if s.len() > 0 && s[0] != b {
        lemma_first_pos(s.drop_first(), b);
        let k = first_pos(s.drop_first(), b);
        assert forall|j: int| 0 <= j < k + 1 implies s[j] != b by {
            if j > 0 {
                assert(s[j] == s.drop_first()[j - 1]);
            }
        }
        assert forall|i: int| is_first_pos(s, b, i) implies i == first_pos(s, b) by {
            if i != k + 1 {
                assert(is_first_pos(s.drop_first(), b, i - 1)) by {
                    assert forall|j: int| 0 <= j < i - 1 implies s.drop_first()[j] != b by {
                        assert(s.drop_first()[j] == s[j + 1]);
                    }
                    if i - 1 < s.drop_first().len() {
                        assert(s.drop_first()[i - 1] == s[i]);
                    }
                }
            }
        }
    }
}

/// A byte found where every earlier byte differs is the first.
pub proof fn lemma_first_pos_at(s: Seq<u8>, b: u8, i: int)
    requires
        is_first_pos(s, b, i),
    ensures
        first_pos(s, b) == i,
{
    lemma_first_pos(s, b);
}

/// The first `b` of `a + b_seq` where `a` holds no `b` lies after `a`.
pub proof fn lemma_first_pos_after(a: Seq<u8>, rest: Seq<u8>, b: u8)
    requires
        forall|j: int| 0 <= j < a.len() ==> a[j] != b,
    ensures
        first_pos(a + rest, b) == a.len() + first_pos(rest, b),
{
    lemma_first_pos(rest, b);
    let k = first_pos(rest, b);
    let s = a + rest;
    assert forall|j: int| 0 <= j < a.len() + k implies s[j] != b by {
        if j >= a.len() {
            assert(s[j] == rest[j - a.len()]);
        }
    }
    if a.len() + k < s.len() {
        assert(s[a.len() + k] == rest[k]);
    }
    lemma_first_pos_at(s, b, a.len() + k);
}

/// The index of the first `b` in `s`, or `s.len()` where there is none.
pub fn find_byte(s: &[u8], b: u8) -> (i: usize)
    ensures
        i as int == first_pos(s@, b),
        i <= s@.len(),
{
    let mut i: usize = 0;
    while i < s.len()
        invariant
            i <= s@.len(),
            forall|j: int| 0 <= j < i ==> s@[j] != b,
        decreases s.len() - i,
    {
        if s[i] == b {
            proof {
                lemma_first_pos_at(s@, b, i as int);
            }
            return i;
        }
        i = i + 1;
    }
    proof {
        lemma_first_pos_at(s@, b, i as int);
    }
    i
}

/// Whether two byte slices hold the same bytes.
pub fn slice_eq(a: &[u8], b: &[u8]) -> (r: bool)
    ensures
        r == (a@ == b@),
{
    if a.len() != b.len() {
        return false;
    }
    let mut i: usize = 0;
    while i < a.len()
        invariant
            a@.len() == b@.len(),
            i <= a@.len(),
            forall|j: int| 0 <= j < i ==> a@[j] == b@[j],
        decreases a.len() - i,
    {
        if a[i] != b[i] {
            return false;
        }
        i = i + 1;
    }
    assert(a@ =~= b@);
    true
}

/// A copy of `s[from..to]`.
pub fn copy_range(s: &[u8], from: usize, to: usize) -> (v: Vec<u8>)
    requires
        from <= to <= s@.len(),
    ensures
        v@ == s@.subrange(from as int, to as int),
{
    let mut v: Vec<u8> = Vec::new();
    let mut i = from;
    while i < to
        invariant
            from <= i <= to <= s@.len(),
            v@ == s@.subrange(from as int, i as int),
        decreases to - i,
    {
        v.push(s[i]);
        i = i + 1;
        assert(v@ =~= s@.subrange(from as int, i as int));
    }
    v
}

/// The bytes that `f` gives for each element of `s`, one after the other.
pub open spec fn concat_map<A>(s: Seq<A>, f: spec_fn(A) -> Seq<u8>) -> Seq<u8>
    decreases s.len(),
{
    if s.len() == 0 {
        Seq::<u8>::empty()
    } else {
        concat_map(s.drop_last(), f) + f(s.last())
    }
}

/// The bytes of the first `k` elements are those of the first `k - 1`, then
/// those of element `k - 1`; and the bytes of a prefix are no longer than
/// those of the whole.
pub proof fn lemma_concat_map_prefix<A>(s: Seq<A>, f: spec_fn(A) -> Seq<u8>, k: int)
    requires
        0 < k <= s.len(),
    ensures
        concat_map(s.take(k), f) == concat_map(s.take(k - 1), f) + f(s[k - 1]),
        concat_map(s.take(k), f).len() <= concat_map(s, f).len(),
    decreases s.len() - k,
{
    assert(s.take(k).drop_last() =~= s.take(k - 1));
    if k < s.len() {
        lemma_concat_map_prefix(s, f, k + 1);
    } else {
        assert(s.take(k) =~= s);
    }
}

} // verus!
