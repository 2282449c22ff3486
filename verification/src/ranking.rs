//! Stable ranking: values reordered by a strict weak order, ties kept in
//! their original order.
use vstd::prelude::*;

verus! {

/// A value ordered by a strict weak order.
pub trait Ranked: Sized {
    /// Whether `self` ranks strictly before `other`.
    spec fn rank_before(&self, other: &Self) -> bool;

    proof fn lemma_rank_irreflexive(a: Self)
        ensures
            !a.rank_before(&a),
    ;

    proof fn lemma_rank_transitive(a: Self, b: Self, c: Self)
        requires
            a.rank_before(&b),
            b.rank_before(&c),
        ensures
            a.rank_before(&c),
    ;

    /// Tied values rank the same against every other value.
    proof fn lemma_rank_tied(a: Self, b: Self, c: Self)
        requires
            !a.rank_before(&b),
            !b.rank_before(&a),
        ensures
            a.rank_before(&c) == b.rank_before(&c),
            c.rank_before(&a) == c.rank_before(&b),
    ;

    fn goes_before(&self, other: &Self) -> (r: bool)
        ensures
            r == self.rank_before(other),
    ;
}

/// `perm` lists every index below `n` exactly once.
pub open spec fn index_permutation(perm: Seq<int>, n: int) -> bool {
    &&& perm.len() == n
    &&& forall|i: int| 0 <= i < n ==> 0 <= #[trigger] perm[i] < n
    &&& forall|i: int, j: int| 0 <= i < n && 0 <= j < n && i != j ==> #[trigger] perm[i] != #[trigger] perm[j]
}

/// `a`, taken from input position `ia`, comes before `b`, taken from input
/// position `ib`: it ranks strictly before, or the two tie and `a` came first.
pub open spec fn ranked_pair<T: Ranked>(a: T, ia: int, b: T, ib: int) -> bool {
    a.rank_before(&b) || (!b.rank_before(&a) && ia < ib)
}

/// `output` holds the values of `input` reordered by rank, tied values in
/// their input order.
pub open spec fn stable_rank<T: Ranked>(input: Seq<T>, output: Seq<T>) -> bool {
    exists|perm: Seq<int>| #[trigger]
        index_permutation(perm, input.len() as int) && output.len() == input.len() && (forall|i: int|
            0 <= i < output.len() ==> output[i] == input[#[trigger] perm[i]]) && (forall|i: int, j: int|
            0 <= i < j < output.len() ==> ranked_pair(
                #[trigger] output[i],
                perm[i],
                #[trigger] output[j],
                perm[j],
            ))
}

/// Reorders `input` by rank, keeping tied values in their input order.
pub fn rank_stably<T: Ranked>(input: Vec<T>) -> (output: Vec<T>)
    ensures
        stable_rank(input@, output@),
{
    let ghost orig = input@;
    let ghost n = input@.len() as int;
    let mut rest = input;
    let mut out: Vec<T> = Vec::new();
    let ghost mut perm: Seq<int> = Seq::empty();
    while rest.len() > 0
        invariant
            n == orig.len(),
            rest@.len() <= n,
            forall|i: int| 0 <= i < rest@.len() ==> #[trigger] rest@[i] == orig[i],
            out@.len() == n - rest@.len(),
            perm.len() == out@.len(),
            forall|i: int| 0 <= i < perm.len() ==> rest@.len() <= #[trigger] perm[i] < n,
            forall|i: int, j: int|
                0 <= i < perm.len() && 0 <= j < perm.len() && i != j ==> #[trigger] perm[i]
                    != #[trigger] perm[j],
            forall|i: int| 0 <= i < out@.len() ==> #[trigger] out@[i] == orig[perm[i]],
            forall|i: int, j: int|
                0 <= i < j < out@.len() ==> ranked_pair(
                    #[trigger] out@[i],
                    perm[i],
                    #[trigger] out@[j],
                    perm[j],
                ),
        decreases rest.len(),
    {
        let k = rest.len() - 1;
        let x = rest.pop().unwrap();
        assert(x == orig[k as int]);
        // First position whose value does not rank strictly before `x`.
        let mut p: usize = 0;
        while p < out.len() && out[p].goes_before(&x)
            invariant
                p <= out@.len(),
                forall|q: int| 0 <= q < p ==> (#[trigger] out@[q]).rank_before(&x),
            decreases out.len() - p,
        {
            p = p + 1;
        }
        let ghost old_out = out@;
        let ghost old_perm = perm;
        proof {
            if p < old_out.len() {
                assert(!old_out[p as int].rank_before(&x));
                assert forall|q: int| p <= q < old_out.len() implies !(#[trigger] old_out[q]).rank_before(
                    &x,
                ) by {
                    if q > p {
                        assert(ranked_pair(old_out[p as int], old_perm[p as int], old_out[q], old_perm[q]));
                        if old_out[p as int].rank_before(&old_out[q]) {
                            if old_out[q].rank_before(&x) {
                                T::lemma_rank_transitive(old_out[p as int], old_out[q], x);
                            }
                        } else {
                            T::lemma_rank_tied(old_out[p as int], old_out[q], x);
                        }
                    }
                }
            }
        }
        out.insert(p, x);
        proof {
            perm = old_perm.insert(p as int, k as int);
            assert forall|i: int, j: int| 0 <= i < j < out@.len() implies ranked_pair(
                #[trigger] out@[i],
                perm[i],
                #[trigger] out@[j],
                perm[j],
            ) by {
                if i < p && j < p {
                    assert(ranked_pair(old_out[i], old_perm[i], old_out[j], old_perm[j]));
                } else if i < p && j == p {
                    assert(old_out[i].rank_before(&x));
                } else if i < p && j > p {
                    assert(ranked_pair(old_out[i], old_perm[i], old_out[j - 1], old_perm[j - 1]));
                } else if i == p {
                    assert(!old_out[j - 1].rank_before(&x));
                    assert(perm[j] == old_perm[j - 1]);
                } else {
                    assert(ranked_pair(old_out[i - 1], old_perm[i - 1], old_out[j - 1], old_perm[j - 1]));
                }
            }
            assert forall|i: int, j: int|
                0 <= i < perm.len() && 0 <= j < perm.len() && i != j implies #[trigger] perm[i]
                != #[trigger] perm[j] by {
                if i != p && j != p {
                    let oi = if i < p { i } else { i - 1 };
                    let oj = if j < p { j } else { j - 1 };
                    assert(old_perm[oi] != old_perm[oj]);
                }
            }
        }
    }
    proof {
        assert(index_permutation(perm, n));
    }
    out
}


/// A permutation of the indices below `n` reaches every such index.
pub proof fn lemma_permutation_onto(perm: Seq<int>, n: int, j: int)
    requires
        index_permutation(perm, n),
        0 <= j < n,
    ensures
        exists|p: int| 0 <= p < n && perm[p] == j,
{
    assert(perm.no_duplicates()) by {
        assert forall|a: int, b: int| 0 <= a < perm.len() && 0 <= b < perm.len() && a != b implies perm[a] != perm[b] by {
            assert(perm[a] != perm[b]);
        }
    }
    perm.unique_seq_to_set();
    vstd::set_lib::lemma_int_range(0, n);
    let range = vstd::set_lib::set_int_range(0, n);
    assert(perm.to_set().subset_of(range)) by {
        assert forall|x: int| perm.to_set().contains(x) implies range.contains(x) by {
            let p = choose|p: int| 0 <= p < perm.len() && perm[p] == x;
            assert(0 <= perm[p] < n);
        }
    }
    vstd::seq_lib::seq_to_set_is_finite(perm);
    vstd::set_lib::lemma_subset_equality(perm.to_set(), range);
    assert(range.contains(j));
    assert(perm.to_set().contains(j));
}

/// A stable ranking holds exactly the input's values: each output value is
/// some input value, and each input value appears in the output.
pub proof fn lemma_stable_rank_members<T: Ranked>(input: Seq<T>, output: Seq<T>)
    requires
        stable_rank(input, output),
    ensures
        output.len() == input.len(),
        forall|j: int| 0 <= j < output.len() ==> input.contains(#[trigger] output[j]),
        forall|p: int| 0 <= p < input.len() ==> output.contains(#[trigger] input[p]),
{
    let n = input.len() as int;
    let perm = choose|perm: Seq<int>| #[trigger]
        index_permutation(perm, n) && output.len() == input.len() && (forall|i: int|
            0 <= i < output.len() ==> output[i] == input[#[trigger] perm[i]]) && (forall|i: int, j: int|
            0 <= i < j < output.len() ==> ranked_pair(
                #[trigger] output[i],
                perm[i],
                #[trigger] output[j],
                perm[j],
            ));
    assert forall|j: int| 0 <= j < output.len() implies input.contains(#[trigger] output[j]) by {
        assert(output[j] == input[perm[j]]);
    }
    assert forall|p: int| 0 <= p < input.len() implies output.contains(#[trigger] input[p]) by {
        lemma_permutation_onto(perm, n, p);
        let j = choose|j: int| 0 <= j < n && perm[j] == p;
        assert(output[j] == input[perm[j]]);
    }
}

/// Index `a` goes before index `b` in a stable ranking of `input`: it ranks
/// strictly before, or the two tie and `a` comes first.
pub open spec fn index_before<T: Ranked>(input: Seq<T>, a: int, b: int) -> bool {
    ranked_pair(input[a], a, input[b], b)
}

/// Going before is a strict total order on the indices of the input.
proof fn lemma_index_before_order<T: Ranked>(input: Seq<T>, a: int, b: int, c: int)
    ensures
        !index_before(input, a, a),
        index_before(input, a, b) ==> !index_before(input, b, a),
        a != b ==> index_before(input, a, b) || index_before(input, b, a),
        index_before(input, a, b) && index_before(input, b, c) ==> index_before(input, a, c),
{
    T::lemma_rank_irreflexive(input[a]);
    if input[a].rank_before(&input[b]) && input[b].rank_before(&input[a]) {
        T::lemma_rank_transitive(input[a], input[b], input[a]);
    }
    if index_before(input, a, b) && index_before(input, b, c) {
        if input[a].rank_before(&input[b]) && input[b].rank_before(&input[c]) {
            T::lemma_rank_transitive(input[a], input[b], input[c]);
        } else if input[a].rank_before(&input[b]) {
            T::lemma_rank_tied(input[b], input[c], input[a]);
        } else if input[b].rank_before(&input[c]) {
            T::lemma_rank_tied(input[a], input[b], input[c]);
        } else {
            T::lemma_rank_tied(input[a], input[b], input[c]);
        }
    }
}

/// In a stable ranking, the position of input index `a` is the number of
/// indices that go before it.
proof fn lemma_stable_rank_position<T: Ranked>(input: Seq<T>, perm: Seq<int>, p: int)
    requires
        index_permutation(perm, input.len() as int),
        forall|i: int, j: int|
            0 <= i < j < input.len() ==> #[trigger] index_before(input, perm[i], perm[j]),
        0 <= p < input.len(),
    ensures
        Set::new(|b: int| 0 <= b < input.len() && index_before(input, b, perm[p])).len() == p,
{
    let n = input.len() as int;
    let a = perm[p];
    let front = perm.subrange(0, p);
    let before = Set::new(|b: int| 0 <= b < n && index_before(input, b, a));
    assert forall|b: int| before.contains(b) <==> front.to_set().contains(b) by {
        if before.contains(b) {
            lemma_permutation_onto(perm, n, b);
            let q = choose|q: int| 0 <= q < n && perm[q] == b;
            lemma_index_before_order(input, b, a, b);
            if q > p {
                assert(index_before(input, perm[p], perm[q]));
            }
            assert(q != p);
            assert(front[q] == b);
        }
        if front.to_set().contains(b) {
            let q = choose|q: int| 0 <= q < front.len() && front[q] == b;
            assert(perm[q] == b);
            assert(index_before(input, perm[q], perm[p]));
        }
    }
    assert(before =~= front.to_set());
    assert(front.no_duplicates()) by {
        assert forall|i: int, j: int| 0 <= i < front.len() && 0 <= j < front.len() && i != j implies front[i]
            != front[j] by {
            assert(perm[i] != perm[j]);
        }
    }
    front.unique_seq_to_set();
}

/// Two stable rankings of inputs that rank alike, index by index, take
/// their values from the same input positions.
pub proof fn lemma_stable_ranks_align<T: Ranked>(in1: Seq<T>, out1: Seq<T>, in2: Seq<T>, out2: Seq<T>)
    requires
        stable_rank(in1, out1),
        stable_rank(in2, out2),
        in1.len() == in2.len(),
        forall|a: int, b: int|
            0 <= a < in1.len() && 0 <= b < in1.len() ==> #[trigger] in1[a].rank_before(&in1[b])
                == in2[a].rank_before(&in2[b]),
    ensures
        out1.len() == out2.len(),
        forall|k: int| 0 <= k < out1.len() ==> #[trigger] aligned_at(in1, out1, in2, out2, k),
{
    let n = in1.len() as int;
    let p1 = choose|perm: Seq<int>| #[trigger]
        index_permutation(perm, n) && out1.len() == n && (forall|i: int|
            0 <= i < out1.len() ==> out1[i] == in1[#[trigger] perm[i]]) && (forall|i: int, j: int|
            0 <= i < j < out1.len() ==> ranked_pair(#[trigger] out1[i], perm[i], #[trigger] out1[j], perm[j]));
    let p2 = choose|perm: Seq<int>| #[trigger]
        index_permutation(perm, n) && out2.len() == n && (forall|i: int|
            0 <= i < out2.len() ==> out2[i] == in2[#[trigger] perm[i]]) && (forall|i: int, j: int|
            0 <= i < j < out2.len() ==> ranked_pair(#[trigger] out2[i], perm[i], #[trigger] out2[j], perm[j]));
    assert forall|a: int, b: int| 0 <= a < n && 0 <= b < n implies #[trigger] index_before(in1, a, b)
        == index_before(in2, a, b) by {
        assert(in1[a].rank_before(&in1[b]) == in2[a].rank_before(&in2[b]));
        assert(in1[b].rank_before(&in1[a]) == in2[b].rank_before(&in2[a]));
    }
    assert forall|i: int, j: int| 0 <= i < j < n implies #[trigger] index_before(in1, p1[i], p1[j]) by {
        assert(ranked_pair(out1[i], p1[i], out1[j], p1[j]));
        assert(out1[i] == in1[p1[i]] && out1[j] == in1[p1[j]]);
    }
    assert forall|i: int, j: int| 0 <= i < j < n implies #[trigger] index_before(in1, p2[i], p2[j]) by {
        assert(ranked_pair(out2[i], p2[i], out2[j], p2[j]));
        assert(out2[i] == in2[p2[i]] && out2[j] == in2[p2[j]]);
        assert(index_before(in2, p2[i], p2[j]));
    }
    assert forall|k: int| 0 <= k < out1.len() implies #[trigger] aligned_at(in1, out1, in2, out2, k) by {
        let a = p1[k];
        lemma_permutation_onto(p2, n, a);
        let q = choose|q: int| 0 <= q < n && p2[q] == a;
        lemma_stable_rank_position(in1, p1, k);
        lemma_stable_rank_position(in1, p2, q);
        assert(q == k);
        assert(out1[k] == in1[a] && out2[k] == in2[a]);
    }
}

/// Position `k` of both rankings holds the values of one input position.
pub open spec fn aligned_at<T>(in1: Seq<T>, out1: Seq<T>, in2: Seq<T>, out2: Seq<T>, k: int) -> bool {
    exists|a: int| 0 <= a < in1.len() && out1[k] == #[trigger] in1[a] && out2[k] == in2[a]
}

} // verus!
