use vstd::prelude::*;

verus! {

/// ASCII decimal digit.
pub open spec fn is_digit(b: u8) -> bool {
    48 <= b <= 57
}

pub open spec fn all_digits(s: Seq<u8>) -> bool {
    forall|i: int| 0 <= i < s.len() ==> is_digit(s[i])
}

/// Numeric value of a sequence of decimal digits (most significant first).
pub open spec fn digits_val(s: Seq<u8>) -> nat
    decreases s.len(),
{
    if s.len() == 0 {
        0
    } else {
        (digits_val(s.drop_last()) * 10 + (s.last() - 48)) as nat
    }
}

/// Canonical decimal digits of `n`, without leading zeros.
pub open spec fn u16_digits(n: u16) -> Seq<u8>
    decreases n,
{
    if n < 10 {
        seq![(48 + n) as u8]
    } else {
        u16_digits((n / 10) as u16).push((48 + n % 10) as u8)
    }
}

/// A decimal scalar: one to five digits whose value fits in `u16`.
pub open spec fn spec_parse_u16(s: Seq<u8>) -> Option<u16> {
    if 1 <= s.len() <= 5 && all_digits(s) && digits_val(s) <= 65535 {
        Some(digits_val(s) as u16)
    } else {
        None
    }
}

/// A digit string of at most five digits stays under one hundred thousand.
pub proof fn lemma_digits_val_bound(s: Seq<u8>)
    requires
        all_digits(s),
        s.len() <= 5,
    ensures
        digits_val(s) < (if s.len() == 0 {
            1nat
        } else if s.len() == 1 {
            10nat
        } else if s.len() == 2 {
            100nat
        } else if s.len() == 3 {
            1000nat
        } else if s.len() == 4 {
            10000nat
        } else {
            100000nat
        }),
    decreases s.len(),
{
    if s.len() > 0 {
        assert(forall|i: int| 0 <= i < s.drop_last().len() ==> s.drop_last()[i] == s[i]);
        lemma_digits_val_bound(s.drop_last());
        assert(is_digit(s.last()));
    }
}

/// `u16_digits(n)` has between one and five digits.
pub proof fn lemma_u16_digits_len(n: u16)
    ensures
        u16_digits(n).len() == (if n < 10 {
            1int
        } else if n < 100 {
            2int
        } else if n < 1000 {
            3int
        } else if n < 10000 {
            4int
        } else {
            5int
        }),
    decreases n,
{
    if n >= 10 {
        lemma_u16_digits_len((n / 10) as u16);
    }
}

/// The canonical digits of `n` are digits, short, and evaluate back to `n`:
/// printing then parsing a port number is the identity.
pub proof fn lemma_u16_digits(n: u16)
    ensures
        all_digits(u16_digits(n)),
        1 <= u16_digits(n).len() <= 5,
        digits_val(u16_digits(n)) == n,
        spec_parse_u16(u16_digits(n)) == Some(n),
    decreases n,
{
    lemma_u16_digits_len(n);
    if n < 10 {
        assert(digits_val(Seq::<u8>::empty()) == 0);
        assert(seq![(48 + n) as u8].drop_last() =~= Seq::<u8>::empty());
        assert(seq![(48 + n) as u8].last() == (48 + n) as u8);
        assert(digits_val(u16_digits(n)) == n);
    } else {
        lemma_u16_digits((n / 10) as u16);
        let p = u16_digits((n / 10) as u16);
        let w = p.push((48 + n % 10) as u8);
        assert(u16_digits(n) == w);
        assert(w.drop_last() =~= p);
        assert(w.last() == (48 + n % 10) as u8);
        assert(w.last() - 48 == n % 10);
        assert(digits_val(w) == (digits_val(p) * 10 + (w.last() - 48)) as nat);
        assert(digits_val(p) == n / 10);
        assert((n / 10) * 10 + n % 10 == n) by (nonlinear_arith);
        assert(digits_val(w) == n);
        assert(forall|i: int| 0 <= i < p.len() ==> w[i] == p[i]);
        assert(all_digits(w));
    }
}

/// Render `n` as canonical decimal digits.
pub fn fmt_u16(n: u16) -> (r: Vec<u8>)
    ensures
        r@ == u16_digits(n),
    decreases n,
{
    if n < 10 {
        let mut r: Vec<u8> = Vec::new();
        r.push(48 + n as u8);
        proof {
            assert(r@ =~= u16_digits(n));
        }
        r
    } else {
        let mut r = fmt_u16(n / 10);
        r.push(48 + (n % 10) as u8);
        r
    }
}

/// Parse a whole byte string as a decimal `u16`.
pub fn parse_u16(v: &Vec<u8>) -> (r: Option<u16>)
    ensures
        r == spec_parse_u16(v@),
{
    if v.len() < 1 || v.len() > 5 {
        return None;
    }
    let mut acc: u32 = 0;
    let mut i: usize = 0;
    while i < v.len()
        invariant
            i <= v@.len() <= 5,
            acc == digits_val(v@.subrange(0, i as int)),
            forall|j: int| 0 <= j < i ==> is_digit(v@[j]),
        decreases v@.len() - i,
    {
        let b = v[i];
        if b < 48 || b > 57 {
            proof {
                assert(!all_digits(v@));
            }
            return None;
        }
        proof {
            let pre = v@.subrange(0, i as int);
            let cur = v@.subrange(0, i + 1 as int);
            assert(forall|j: int| 0 <= j < pre.len() ==> pre[j] == v@[j]);
            lemma_digits_val_bound(pre);
            assert(cur.drop_last() =~= pre);
            assert(cur.last() == v@[i as int]);
        }
        acc = acc * 10 + (b - 48) as u32;
        i += 1;
    }
    proof {
        assert(v@.subrange(0, v@.len() as int) =~= v@);
    }
    if acc > 65535 {
        return None;
    }
    Some(acc as u16)
}

} // verus!
