//! Small sequence helpers shared by the per-frame systems: filters over
//! sequences, a positional filter by liveness flags, element counting, and
//! the lemmas that let loops build these element by element.

use vstd::prelude::*;

verus! {

/// The subsequence of `s` whose elements satisfy `p`, in order.
pub open spec fn seq_keep<A>(s: Seq<A>, p: spec_fn(A) -> bool) -> Seq<A>
    decreases s.len(),
{
    if s.len() == 0 {
        Seq::empty()
    } else {
        let r = seq_keep(s.drop_last(), p);
        if p(s.last()) {
            r.push(s.last())
        } else {
            r
        }
    }
}

/// One step of building `seq_keep` from a growing prefix.
pub proof fn lemma_seq_keep_step<A>(s: Seq<A>, p: spec_fn(A) -> bool, i: int)
    requires
        0 <= i < s.len(),
    ensures
        seq_keep(s.take(i + 1), p) == if p(s[i]) {
            seq_keep(s.take(i), p).push(s[i])
        } else {
            seq_keep(s.take(i), p)
        },
{
    assert(s.take(i + 1).drop_last() =~= s.take(i));
    assert(s.take(i + 1).last() == s[i]);
}

/// The element at position `k` of `seq_keep` is an element of `s` that
/// satisfies `p`.
pub proof fn lemma_seq_keep_elem<A>(s: Seq<A>, p: spec_fn(A) -> bool, k: int) -> (j: int)
    requires
        0 <= k < seq_keep(s, p).len(),
    ensures
        0 <= j < s.len(),
        seq_keep(s, p)[k] == s[j],
        p(s[j]),
    decreases s.len(),
{
    let r = seq_keep(s.drop_last(), p);
    if p(s.last()) && k == r.len() {
        assert(seq_keep(s, p)[k] == s[s.len() - 1]);
        s.len() - 1
    } else {
        let j = lemma_seq_keep_elem(s.drop_last(), p, k);
        assert(s.drop_last()[j] == s[j]);
        assert(seq_keep(s, p)[k] == r[k]);
        j
    }
}

/// The subsequence of `s` at the positions whose flag is set, in order.
pub open spec fn keep_flagged<A>(s: Seq<A>, f: Seq<bool>) -> Seq<A>
    decreases s.len(),
{
    if s.len() == 0 {
        Seq::empty()
    } else {
        let r = keep_flagged(s.drop_last(), f.drop_last());
        if s.len() <= f.len() && f[s.len() - 1] {
            r.push(s.last())
        } else {
            r
        }
    }
}

/// One step of building `keep_flagged` from a growing prefix.
pub proof fn lemma_keep_flagged_step<A>(s: Seq<A>, f: Seq<bool>, i: int)
    requires
        0 <= i < s.len(),
        s.len() == f.len(),
    ensures
        keep_flagged(s.take(i + 1), f.take(i + 1)) == if f[i] {
            keep_flagged(s.take(i), f.take(i)).push(s[i])
        } else {
            keep_flagged(s.take(i), f.take(i))
        },
{
    assert(s.take(i + 1).drop_last() =~= s.take(i));
    assert(f.take(i + 1).drop_last() =~= f.take(i));
    assert(s.take(i + 1).last() == s[i]);
}

/// The element at position `k` of `keep_flagged` comes from a flagged
/// position of `s`.
pub proof fn lemma_keep_flagged_elem<A>(s: Seq<A>, f: Seq<bool>, k: int) -> (j: int)
    requires
        s.len() == f.len(),
        0 <= k < keep_flagged(s, f).len(),
    ensures
        0 <= j < s.len(),
        keep_flagged(s, f)[k] == s[j],
        f[j],
    decreases s.len(),
{
    let r = keep_flagged(s.drop_last(), f.drop_last());
    if s.len() <= f.len() && f[s.len() - 1] && k == r.len() {
        assert(keep_flagged(s, f)[k] == s[s.len() - 1]);
        s.len() - 1
    } else {
        let j = lemma_keep_flagged_elem(s.drop_last(), f.drop_last(), k);
        assert(s.drop_last()[j] == s[j]);
        assert(f.drop_last()[j] == f[j]);
        assert(keep_flagged(s, f)[k] == r[k]);
        j
    }
}

/// `keep_flagged` keeps everything when every flag is set.
pub proof fn lemma_keep_flagged_all<A>(s: Seq<A>, f: Seq<bool>)
    requires
        s.len() == f.len(),
        forall|i: int| 0 <= i < f.len() ==> #[trigger] f[i],
    ensures
        keep_flagged(s, f) == s,
    decreases s.len(),
{
    if s.len() > 0 {
        assert(forall|i: int|
            0 <= i < f.drop_last().len() ==> #[trigger] f.drop_last()[i]);
        lemma_keep_flagged_all(s.drop_last(), f.drop_last());
        assert(f[s.len() - 1]);
        assert(keep_flagged(s, f) =~= s);
    } else {
        assert(keep_flagged(s, f) =~= s);
    }
}

/// How many elements of `s` satisfy `p`.
pub open spec fn count_matching<A>(s: Seq<A>, p: spec_fn(A) -> bool) -> int
    decreases s.len(),
{
    if s.len() == 0 {
        0
    } else {
        count_matching(s.drop_last(), p) + if p(s.last()) { 1int } else { 0int }
    }
}

/// Counting never goes negative.
pub proof fn lemma_count_nonneg<A>(s: Seq<A>, p: spec_fn(A) -> bool)
    ensures
        0 <= count_matching(s, p),
    decreases s.len(),
{
    if s.len() > 0 {
        lemma_count_nonneg(s.drop_last(), p);
    }
}

/// A sequence with no matching element counts zero.
pub proof fn lemma_count_zero<A>(s: Seq<A>, p: spec_fn(A) -> bool)
    requires
        forall|i: int| 0 <= i < s.len() ==> !p(#[trigger] s[i]),
    ensures
        count_matching(s, p) == 0,
    decreases s.len(),
{
    if s.len() > 0 {
        assert(forall|i: int| 0 <= i < s.drop_last().len() ==> !p(#[trigger] s.drop_last()[i]));
        lemma_count_zero(s.drop_last(), p);
    }
}

/// A matching element makes the count positive.
pub proof fn lemma_count_pos<A>(s: Seq<A>, p: spec_fn(A) -> bool, i: int)
    requires
        0 <= i < s.len(),
        p(s[i]),
    ensures
        count_matching(s, p) >= 1,
    decreases s.len(),
{
    lemma_count_nonneg(s.drop_last(), p);
    if i < s.len() - 1 {
        assert(s.drop_last()[i] == s[i]);
        lemma_count_pos(s.drop_last(), p, i);
    }
}

/// Two distinct matching positions make the count at least two.
pub proof fn lemma_count_two<A>(s: Seq<A>, p: spec_fn(A) -> bool, i: int, j: int)
    requires
        0 <= i < s.len(),
        0 <= j < s.len(),
        i != j,
        p(s[i]),
        p(s[j]),
    ensures
        count_matching(s, p) >= 2,
    decreases s.len(),
{
    let a = if i < j { i } else { j };
    let b = if i < j { j } else { i };
    if b == s.len() - 1 {
        assert(s.drop_last()[a] == s[a]);
        lemma_count_pos(s.drop_last(), p, a);
        assert(p(s.last()));
    } else {
        assert(s.drop_last()[a] == s[a]);
        assert(s.drop_last()[b] == s[b]);
        lemma_count_two(s.drop_last(), p, a, b);
    }
}

/// Counts agree on sequences whose elements match `p` at the same positions.
pub proof fn lemma_count_congruent<A>(s: Seq<A>, t: Seq<A>, p: spec_fn(A) -> bool)
    requires
        s.len() == t.len(),
        forall|i: int| 0 <= i < s.len() ==> (p(#[trigger] s[i]) <==> p(#[trigger] t[i])),
    ensures
        count_matching(s, p) == count_matching(t, p),
    decreases s.len(),
{
    if s.len() > 0 {
        assert(forall|i: int|
            0 <= i < s.drop_last().len() ==> (p(#[trigger] s.drop_last()[i]) <==> p(
                t.drop_last()[i],
            )));
        lemma_count_congruent(s.drop_last(), t.drop_last(), p);
        assert(p(s.last()) <==> p(t[s.len() - 1]));
    }
}

/// Counting distributes over concatenation.
pub proof fn lemma_count_add<A>(a: Seq<A>, b: Seq<A>, p: spec_fn(A) -> bool)
    ensures
        count_matching(a + b, p) == count_matching(a, p) + count_matching(b, p),
    decreases b.len(),
{
    if b.len() == 0 {
        assert(a + b =~= a);
    } else {
        assert((a + b).drop_last() =~= a + b.drop_last());
        assert((a + b).last() == b.last());
        lemma_count_add(a, b.drop_last(), p);
    }
}

/// Dropping elements can only lower the count.
pub proof fn lemma_count_keep_flagged_le<A>(s: Seq<A>, f: Seq<bool>, p: spec_fn(A) -> bool)
    requires
        s.len() == f.len(),
    ensures
        count_matching(keep_flagged(s, f), p) <= count_matching(s, p),
    decreases s.len(),
{
    if s.len() == 0 {
    } else {
        lemma_count_keep_flagged_le(s.drop_last(), f.drop_last(), p);
        lemma_count_nonneg(keep_flagged(s.drop_last(), f.drop_last()), p);
        if s.len() <= f.len() && f[s.len() - 1] {
            assert(keep_flagged(s, f) == keep_flagged(s.drop_last(), f.drop_last()).push(s.last()));
            assert(keep_flagged(s, f).drop_last() =~= keep_flagged(s.drop_last(), f.drop_last()));
            assert(keep_flagged(s, f).last() == s.last());
        }
    }
}

/// No element matching `p` survives when every matching position is unflagged.
pub proof fn lemma_count_keep_flagged_zero<A>(s: Seq<A>, f: Seq<bool>, p: spec_fn(A) -> bool)
    requires
        s.len() == f.len(),
        forall|i: int| 0 <= i < s.len() && p(#[trigger] s[i]) ==> !f[i],
    ensures
        count_matching(keep_flagged(s, f), p) == 0,
{
    let kept = keep_flagged(s, f);
    assert forall|k: int| 0 <= k < kept.len() implies !p(#[trigger] kept[k]) by {
        let j = lemma_keep_flagged_elem(s, f, k);
        assert(!(p(s[j]) && f[j]));
    }
    lemma_count_zero(kept, p);
}

/// `seq_keep` analogue of the counting bound.
pub proof fn lemma_count_seq_keep_le<A>(s: Seq<A>, q: spec_fn(A) -> bool, p: spec_fn(A) -> bool)
    ensures
        count_matching(seq_keep(s, q), p) <= count_matching(s, p),
    decreases s.len(),
{
    if s.len() > 0 {
        lemma_count_seq_keep_le(s.drop_last(), q, p);
        lemma_count_nonneg(seq_keep(s.drop_last(), q), p);
        if q(s.last()) {
            assert(seq_keep(s, q).drop_last() =~= seq_keep(s.drop_last(), q));
            assert(seq_keep(s, q).last() == s.last());
        }
    }
}

} // verus!
