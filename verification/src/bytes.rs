use vstd::prelude::*;

verus! {

/// Index of the first occurrence of byte `b` in `s`, if any.
pub open spec fn find_byte(s: Seq<u8>, b: u8) -> Option<int>
    decreases s.len(),
{
    if s.len() == 0 {
        None
    } else if s[0] == b {
        Some(0)
    } else {
        match find_byte(s.drop_first(), b) {
            Some(i) => Some(i + 1),
            None => None,
        }
    }
}

/// `b` occurs nowhere in `s`.
pub open spec fn no_byte(s: Seq<u8>, b: u8) -> bool {
    forall|i: int| 0 <= i < s.len() ==> s[i] != b
}

/// `find_byte` returns the least index holding `b`, or `None` exactly when `b` is absent.
pub proof fn lemma_find_byte(s: Seq<u8>, b: u8)
    ensures
        match find_byte(s, b) {
            Some(i) => 0 <= i < s.len() && s[i] == b && (forall|j: int| 0 <= j < i ==> s[j] != b),
            None => no_byte(s, b),
        },
    decreases s.len(),
{
    if s.len() > 0 && s[0] != b {
        lemma_find_byte(s.drop_first(), b);
        assert(forall|j: int| 1 <= j < s.len() ==> s[j] == s.drop_first()[j - 1]);
    }
}

/// A sequence free of `b` stays free of `b` after appending another such sequence.
pub proof fn lemma_no_byte_append(a: Seq<u8>, c: Seq<u8>, b: u8)
    requires
        no_byte(a, b),
        no_byte(c, b),
    ensures
        no_byte(a + c, b),
{
    assert forall|i: int| 0 <= i < (a + c).len() implies (a + c)[i] != b by {
        if i < a.len() {
            assert((a + c)[i] == a[i]);
        } else {
            assert((a + c)[i] == c[i - a.len()]);
        }
    }
}

/// When `b` is absent from `s`, `find_byte` reports `None`.
pub proof fn lemma_no_byte_find(s: Seq<u8>, b: u8)
    requires
        no_byte(s, b),
    ensures
        find_byte(s, b) == None::<int>,
{
    lemma_find_byte(s, b);
    if find_byte(s, b) is Some {
        let i = find_byte(s, b)->Some_0;
        assert(s[i] == b);
    }
}

/// The first occurrence of `b` in `a + t` is at `a.len()` when `a` is free of `b`
/// and `t` starts with `b`.
pub proof fn lemma_find_byte_append(a: Seq<u8>, t: Seq<u8>, b: u8)
    requires
        no_byte(a, b),
        t.len() > 0,
        t[0] == b,
    ensures
        find_byte(a + t, b) == Some(a.len() as int),
    decreases a.len(),
{
    if a.len() == 0 {
        assert(a + t =~= t);
    } else {
        assert((a + t).drop_first() =~= a.drop_first() + t);
        assert(forall|j: int| 0 <= j < a.drop_first().len() ==> a.drop_first()[j] == a[j + 1]);
        lemma_find_byte_append(a.drop_first(), t, b);
    }
}

/// Scan for the first occurrence of `b` in `v`.
pub fn scan_byte(v: &Vec<u8>, b: u8) -> (r: Option<usize>)
    ensures
        match r {
            Some(i) => find_byte(v@, b) == Some(i as int),
            None => find_byte(v@, b) == None::<int>,
        },
{
    let mut i: usize = 0;
    while i < v.len()
        invariant
            i <= v@.len(),
            forall|j: int| 0 <= j < i ==> v@[j] != b,
        decreases v@.len() - i,
    {
        if v[i] == b {
            proof {
                lemma_find_byte(v@, b);
                if find_byte(v@, b) is None {
                    assert(v@[i as int] != b);
                }
                let f = find_byte(v@, b)->Some_0;
                if f < i {
                    assert(v@[f] != b);
                }
                if f > i {
                    assert(v@[i as int] != b);
                }
            }
            return Some(i);
        }
        i += 1;
    }
    proof {
        lemma_no_byte_find(v@, b);
    }
    None
}

/// Copy of `v[start..end]`.
pub fn subvec(v: &Vec<u8>, start: usize, end: usize) -> (r: Vec<u8>)
    requires
        start <= end <= v@.len(),
    ensures
        r@ == v@.subrange(start as int, end as int),
{
    let mut r: Vec<u8> = Vec::new();
    let mut i: usize = start;
    while i < end
        invariant
            start <= i <= end <= v@.len(),
            r@ == v@.subrange(start as int, i as int),
        decreases end - i,
    {
        r.push(v[i]);
        proof {
            assert(r@ =~= v@.subrange(start as int, i + 1 as int));
        }
        i += 1;
    }
    r
}

/// Whether `v[start..end]` equals `k`.
pub fn vec_range_eq(v: &Vec<u8>, start: usize, end: usize, k: &Vec<u8>) -> (r: bool)
    requires
        start <= end <= v@.len(),
    ensures
        r == (v@.subrange(start as int, end as int) == k@),
{
    if end - start != k.len() {
        proof {
            assert(v@.subrange(start as int, end as int).len() == end - start);
        }
        return false;
    }
    let mut i: usize = 0;
    while i < k.len()
        invariant
            i <= k@.len(),
            start + k@.len() == end,
            end <= v@.len(),
            forall|j: int| 0 <= j < i ==> v@[start + j] == k@[j],
        decreases k@.len() - i,
    {
        if v[start + i] != k[i] {
            proof {
                assert(v@.subrange(start as int, end as int)[i as int] == v@[start + i]);
            }
            return false;
        }
        i += 1;
    }
    proof {
        assert(v@.subrange(start as int, end as int) =~= k@);
    }
    true
}

/// Append a copy of every byte of `src` to `dst`.
pub fn append_bytes(dst: &mut Vec<u8>, src: &Vec<u8>)
    ensures
        final(dst)@ == old(dst)@ + src@,
{
    let mut i: usize = 0;
    while i < src.len()
        invariant
            i <= src@.len(),
            dst@ == old(dst)@ + src@.subrange(0, i as int),
        decreases src@.len() - i,
    {
        dst.push(src[i]);
        proof {
            assert(old(dst)@ + src@.subrange(0, i as int) + seq![src@[i as int]] =~= old(
                dst,
            )@ + src@.subrange(0, i + 1 as int));
        }
        i += 1;
    }
    proof {
        assert(src@.subrange(0, src@.len() as int) =~= src@);
    }
}

} // verus!
