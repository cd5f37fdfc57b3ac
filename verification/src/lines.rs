use vstd::prelude::*;
use crate::bytes::no_byte;

verus! {

/// Newline byte.
pub open spec fn nl() -> u8 {
    10
}

/// Join lines into one text, each line followed by a newline.
pub open spec fn join_lines(ls: Seq<Seq<u8>>) -> Seq<u8>
    decreases ls.len(),
{
    if ls.len() == 0 {
        Seq::empty()
    } else {
        ls[0] + seq![nl()] + join_lines(ls.drop_first())
    }
}

/// Split a text into lines at newline bytes; a trailing newline ends the last
/// line, a missing one is tolerated. `cur` is the partial line already read.
pub open spec fn split_rec(t: Seq<u8>, cur: Seq<u8>) -> Seq<Seq<u8>>
    decreases t.len(),
{
    if t.len() == 0 {
        if cur.len() == 0 {
            Seq::empty()
        } else {
            seq![cur]
        }
    } else if t[0] == nl() {
        seq![cur] + split_rec(t.drop_first(), Seq::empty())
    } else {
        split_rec(t.drop_first(), cur.push(t[0]))
    }
}

/// The lines of a text.
pub open spec fn lines_of(t: Seq<u8>) -> Seq<Seq<u8>> {
    split_rec(t, Seq::empty())
}

pub open spec fn all_newline_free(ls: Seq<Seq<u8>>) -> bool {
    forall|i: int| 0 <= i < ls.len() ==> no_byte(#[trigger] ls[i], nl())
}

/// The views of a vector of byte vectors.
pub open spec fn views(vs: Seq<Vec<u8>>) -> Seq<Seq<u8>> {
    Seq::new(vs.len(), |i: int| vs[i]@)
}

/// Splitting `cur + l` followed by a newline and a remainder yields `cur + l`
/// as one line, provided `l` holds no newline.
proof fn lemma_split_line(l: Seq<u8>, rest: Seq<u8>, cur: Seq<u8>)
    requires
        no_byte(l, nl()),
    ensures
        split_rec(l + seq![nl()] + rest, cur) == seq![cur + l] + split_rec(rest, Seq::empty()),
    decreases l.len(),
{
    let t = l + seq![nl()] + rest;
    if l.len() == 0 {
        assert(t =~= seq![nl()] + rest);
        assert(t[0] == nl());
        assert(t.drop_first() =~= rest);
        assert(cur + l =~= cur);
    } else {
        assert(t[0] == l[0]);
        assert(t.drop_first() =~= l.drop_first() + seq![nl()] + rest);
        assert(forall|j: int| 0 <= j < l.drop_first().len() ==> l.drop_first()[j] == l[j + 1]);
        lemma_split_line(l.drop_first(), rest, cur.push(l[0]));
        assert(cur.push(l[0]) + l.drop_first() =~= cur + l);
    }
}

/// Splitting undoes joining, for newline-free lines.
pub proof fn lemma_split_join(ls: Seq<Seq<u8>>)
    requires
        all_newline_free(ls),
    ensures
        lines_of(join_lines(ls)) == ls,
    decreases ls.len(),
{
    if ls.len() == 0 {
    } else {
        lemma_split_line(ls[0], join_lines(ls.drop_first()), Seq::empty());
        assert(Seq::<u8>::empty() + ls[0] =~= ls[0]);
        assert(forall|j: int| 0 <= j < ls.drop_first().len() ==> ls.drop_first()[j] == ls[j + 1]);
        lemma_split_join(ls.drop_first());
        assert(seq![ls[0]] + ls.drop_first() =~= ls);
    }
}

/// Every line a split yields is newline-free.
pub proof fn lemma_lines_newline_free(t: Seq<u8>, cur: Seq<u8>)
    requires
        no_byte(cur, nl()),
    ensures
        all_newline_free(split_rec(t, cur)),
    decreases t.len(),
{
    if t.len() == 0 {
    } else if t[0] == nl() {
        lemma_lines_newline_free(t.drop_first(), Seq::empty());
        let r = seq![cur] + split_rec(t.drop_first(), Seq::empty());
        assert(forall|i: int| 1 <= i < r.len() ==> r[i] == split_rec(t.drop_first(), Seq::empty())[i - 1]);
    } else {
        assert(forall|j: int| 0 <= j < cur.push(t[0]).len() ==> cur.push(t[0])[j] != nl());
        lemma_lines_newline_free(t.drop_first(), cur.push(t[0]));
    }
}

/// Appending one more line to a joined text.
pub proof fn lemma_join_push(ls: Seq<Seq<u8>>, l: Seq<u8>)
    ensures
        join_lines(ls.push(l)) == join_lines(ls) + l + seq![nl()],
    decreases ls.len(),
{
    if ls.len() == 0 {
        assert(ls.push(l)[0] == l);
        assert(ls.push(l).drop_first() =~= Seq::<Seq<u8>>::empty());
        assert(join_lines(ls.push(l)) == l + seq![nl()] + join_lines(Seq::<Seq<u8>>::empty()));
        assert(l + seq![nl()] + Seq::<u8>::empty() =~= Seq::<u8>::empty() + l + seq![nl()]);
    } else {
        assert(ls.push(l)[0] == ls[0]);
        assert(ls.push(l).drop_first() =~= ls.drop_first().push(l));
        lemma_join_push(ls.drop_first(), l);
        assert(ls[0] + seq![nl()] + (join_lines(ls.drop_first()) + l + seq![nl()]) =~= (ls[0]
            + seq![nl()] + join_lines(ls.drop_first())) + l + seq![nl()]);
    }
}

/// Joining distributes over concatenation of line sequences.
pub proof fn lemma_join_append(a: Seq<Seq<u8>>, b: Seq<Seq<u8>>)
    ensures
        join_lines(a + b) == join_lines(a) + join_lines(b),
    decreases a.len(),
{
    if a.len() == 0 {
        assert(a + b =~= b);
        assert(Seq::<u8>::empty() + join_lines(b) =~= join_lines(b));
    } else {
        assert((a + b)[0] == a[0]);
        assert((a + b).drop_first() =~= a.drop_first() + b);
        lemma_join_append(a.drop_first(), b);
        assert(a[0] + seq![nl()] + (join_lines(a.drop_first()) + join_lines(b)) =~= (a[0]
            + seq![nl()] + join_lines(a.drop_first())) + join_lines(b));
    }
}

/// Split a text into its lines.
pub fn split_lines(t: &Vec<u8>) -> (r: Vec<Vec<u8>>)
    ensures
        views(r@) == lines_of(t@),
        all_newline_free(views(r@)),
{
    let mut out: Vec<Vec<u8>> = Vec::new();
    let mut cur: Vec<u8> = Vec::new();
    let mut i: usize = 0;
    proof {
        assert(t@.skip(0) =~= t@);
        assert(views(out@) + split_rec(t@, cur@) =~= split_rec(t@, cur@));
    }
    while i < t.len()
        invariant
            i <= t@.len(),
            no_byte(cur@, nl()),
            lines_of(t@) == views(out@) + split_rec(t@.skip(i as int), cur@),
            all_newline_free(views(out@)),
        decreases t@.len() - i,
    {
        let ghost pre_out = views(out@);
        let b = t[i];
        proof {
            assert(t@.skip(i as int)[0] == t@[i as int]);
            assert(t@.skip(i as int).drop_first() =~= t@.skip(i + 1 as int));
        }
        if b == 10 {
            let done = cur;
            cur = Vec::new();
            out.push(done);
            proof {
                assert(views(out@) =~= pre_out.push(done@));
                assert(pre_out + (seq![done@] + split_rec(t@.skip(i + 1 as int), Seq::empty()))
                    =~= pre_out.push(done@) + split_rec(t@.skip(i + 1 as int), Seq::empty()));
                assert(forall|k: int| 0 <= k < views(out@).len() ==> no_byte(
                    #[trigger] views(out@)[k],
                    nl(),
                ));
            }
        } else {
            cur.push(b);
        }
        i += 1;
    }
    proof {
        assert(t@.skip(t@.len() as int) =~= Seq::<u8>::empty());
    }
    if cur.len() > 0 {
        let ghost pre_out = views(out@);
        let ghost c = cur@;
        out.push(cur);
        proof {
            assert(views(out@) =~= pre_out.push(c));
            assert(pre_out + seq![c] =~= pre_out.push(c));
            assert(forall|k: int| 0 <= k < views(out@).len() ==> no_byte(
                #[trigger] views(out@)[k],
                nl(),
            ));
        }
    } else {
        proof {
            assert(views(out@) + Seq::<Seq<u8>>::empty() =~= views(out@));
        }
    }
    out
}

/// Append one line and a newline to a byte buffer.
pub fn push_line(dst: &mut Vec<u8>, line: &Vec<u8>)
    ensures
        final(dst)@ == old(dst)@ + line@ + seq![nl()],
{
    crate::bytes::append_bytes(dst, line);
    dst.push(10);
}

} // verus!
