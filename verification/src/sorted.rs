//! Collections kept strictly sorted by a text key, with no key twice.
use vstd::prelude::*;

use crate::text::{compare_text, lemma_text_lt_irreflexive, lemma_text_lt_transitive, lemma_text_lt_asymmetric, text_lt, TextOrder};

verus! {

/// A value identified and ordered by a text key.
pub trait Keyed: Sized {
    spec fn key_view(&self) -> Seq<char>;

    fn key(&self) -> (r: &str)
        ensures
            r@ == self.key_view(),
    ;
}

impl Keyed for String {
    open spec fn key_view(&self) -> Seq<char> {
        self@
    }

    fn key(&self) -> (r: &str) {
        self.as_str()
    }
}

/// The keys of a sequence of keyed values, in order.
pub open spec fn keys_of<T: Keyed>(s: Seq<T>) -> Seq<Seq<char>> {
    s.map_values(|x: T| x.key_view())
}

/// Every key sorts strictly before every later key.
pub open spec fn strictly_sorted(s: Seq<Seq<char>>) -> bool {
    forall|i: int, j: int| 0 <= i < j < s.len() ==> text_lt(#[trigger] s[i], #[trigger] s[j])
}

/// A sorted sequence of texts holds no text twice.
pub proof fn lemma_strictly_sorted_no_duplicates(s: Seq<Seq<char>>)
    requires
        strictly_sorted(s),
    ensures
        s.no_duplicates(),
{
    assert forall|i: int, j: int| 0 <= i < s.len() && 0 <= j < s.len() && i != j implies s[i]
        != s[j] by {
        if i < j {
            lemma_text_lt_irreflexive(s[i]);
        } else {
            lemma_text_lt_irreflexive(s[j]);
        }
    }
}

/// Two strictly sorted sequences with the same elements are equal.
pub proof fn lemma_strictly_sorted_unique(a: Seq<Seq<char>>, b: Seq<Seq<char>>)
    requires
        strictly_sorted(a),
        strictly_sorted(b),
        a.to_set() == b.to_set(),
    ensures
        a == b,
    decreases a.len() + b.len(),
{
    if a.len() == 0 {
        if b.len() > 0 {
            assert(b.to_set().contains(b[0]));
        }
        assert(a =~= b);
    } else if b.len() == 0 {
        assert(a.to_set().contains(a[0]));
    } else {
        // Both first elements are the least element of the shared set.
        assert(a.to_set().contains(a[0]));
        assert(b.to_set().contains(b[0]));
        assert(b.contains(a[0]));
        assert(a.contains(b[0]));
        let ia = choose|i: int| 0 <= i < a.len() && a[i] == b[0];
        let ib = choose|i: int| 0 <= i < b.len() && b[i] == a[0];
        if ia > 0 && ib > 0 {
            assert(text_lt(a[0], a[ia]));
            assert(text_lt(b[0], b[ib]));
            lemma_text_lt_asymmetric(a[0], b[0]);
        }
        if a[0] != b[0] {
            if ia == 0 {
                assert(a[0] == b[0]);
            } else {
                assert(b[ib] == a[0]);
                lemma_text_lt_irreflexive(b[0]);
            }
        }
        assert(a[0] == b[0]);
        let at = a.drop_first();
        let bt = b.drop_first();
        assert forall|x: Seq<char>| at.to_set().contains(x) implies bt.to_set().contains(x) by {
            let i = choose|i: int| 0 <= i < at.len() && at[i] == x;
            assert(a[i + 1] == x);
            assert(a.to_set().contains(x));
            assert(b.contains(x));
            let j = choose|j: int| 0 <= j < b.len() && b[j] == x;
            if j == 0 {
                assert(text_lt(a[0], a[i + 1]));
                lemma_text_lt_irreflexive(a[0]);
            }
            assert(bt[j - 1] == x);
        }
        assert forall|x: Seq<char>| bt.to_set().contains(x) implies at.to_set().contains(x) by {
            let i = choose|i: int| 0 <= i < bt.len() && bt[i] == x;
            assert(b[i + 1] == x);
            assert(b.to_set().contains(x));
            assert(a.contains(x));
            let j = choose|j: int| 0 <= j < a.len() && a[j] == x;
            if j == 0 {
                assert(text_lt(b[0], b[i + 1]));
                lemma_text_lt_irreflexive(b[0]);
            }
            assert(at[j - 1] == x);
        }
        assert(at.to_set() =~= bt.to_set());
        lemma_strictly_sorted_unique(at, bt);
        assert(a =~= seq![a[0]] + at);
        assert(b =~= seq![b[0]] + bt);
    }
}

/// Inserts `x` into a key-sorted vector unless its key is already present.
/// Returns whether it was inserted.
pub fn insert_unique<T: Keyed>(r: &mut Vec<T>, x: T) -> (inserted: bool)
    requires
        strictly_sorted(keys_of(old(r)@)),
    ensures
        strictly_sorted(keys_of(final(r)@)),
        keys_of(final(r)@).to_set() == keys_of(old(r)@).to_set().insert(x.key_view()),
        inserted == !keys_of(old(r)@).contains(x.key_view()),
        inserted ==> final(r)@.len() == old(r)@.len() + 1,
        !inserted ==> final(r)@ == old(r)@,
        forall|i: int| 0 <= i < final(r)@.len() ==> #[trigger] final(r)@[i] == x || old(r)@.contains(
            final(r)@[i],
        ),
{
    let ghost old_r = r@;
    let ghost ks = keys_of(old_r);
    let mut i: usize = 0;
    let mut stop = false;
    while i < r.len() && !stop
        invariant
            r@ == old_r,
            ks == keys_of(old_r),
            strictly_sorted(ks),
            i <= r.len(),
            forall|j: int| 0 <= j < i ==> text_lt(#[trigger] ks[j], x.key_view()),
            stop ==> i < r.len() && text_lt(x.key_view(), ks[i as int]),
        decreases r.len() - i, (if stop { 0int } else { 1int }),
    {
        let o = compare_text(r[i].key(), x.key());
        match o {
            TextOrder::Less => {
                i = i + 1;
            },
            TextOrder::Equal => {
                assert(ks[i as int] == x.key_view());
                assert(ks.contains(x.key_view()));
                assert(ks.to_set().insert(x.key_view()) =~= ks.to_set());
                return false;
            },
            TextOrder::Greater => {
                stop = true;
            },
        }
    }
    proof {
        // `x` sorts strictly before every key from position `i` on.
        assert forall|j: int| i <= j < ks.len() implies text_lt(x.key_view(), #[trigger] ks[j]) by {
            if j > i {
                lemma_text_lt_transitive(x.key_view(), ks[i as int], ks[j]);
            }
        }
        assert forall|j: int| 0 <= j < ks.len() implies #[trigger] ks[j] != x.key_view() by {
            if j < i {
                lemma_text_lt_irreflexive(x.key_view());
            } else {
                lemma_text_lt_irreflexive(x.key_view());
            }
        }
    }
    let ghost xk = x.key_view();
    r.insert(i, x);
    proof {
        let nk = keys_of(r@);
        assert(nk =~= ks.insert(i as int, xk));
        assert forall|a: int, b: int| 0 <= a < b < nk.len() implies text_lt(
            #[trigger] nk[a],
            #[trigger] nk[b],
        ) by {
            if b < i {
            } else if a < i && b == i {
            } else if a < i && b > i {
                lemma_text_lt_transitive(nk[a], xk, nk[b]);
            } else if a == i {
            } else {
                assert(nk[a] == ks[a - 1]);
                assert(nk[b] == ks[b - 1]);
            }
        }
        assert(nk.to_set() =~= ks.to_set().insert(xk)) by {
            assert forall|y: Seq<char>| nk.to_set().contains(y) implies ks.to_set().insert(
                xk,
            ).contains(y) by {
                let p = choose|p: int| 0 <= p < nk.len() && nk[p] == y;
                if p < i {
                    assert(ks[p] == y);
                } else if p > i {
                    assert(ks[p - 1] == y);
                }
            }
            assert forall|y: Seq<char>| ks.to_set().insert(xk).contains(y) implies nk.to_set().contains(
                y,
            ) by {
                if y == xk {
                    assert(nk[i as int] == y);
                } else {
                    let p = choose|p: int| 0 <= p < ks.len() && ks[p] == y;
                    if p < i {
                        assert(nk[p] == y);
                    } else {
                        assert(nk[p + 1] == y);
                    }
                }
            }
        }
        assert forall|q: int| 0 <= q < r@.len() implies #[trigger] r@[q] == x || old_r.contains(
            r@[q],
        ) by {
            if q < i {
                assert(r@[q] == old_r[q]);
            } else if q > i {
                assert(r@[q] == old_r[q - 1]);
            }
        }
        assert(!ks.contains(xk));
    }
    true
}

/// Puts `x` into a key-sorted vector, replacing the value with the same key
/// when there is one.
pub fn insert_or_replace<T: Keyed>(r: &mut Vec<T>, x: T)
    requires
        strictly_sorted(keys_of(old(r)@)),
    ensures
        strictly_sorted(keys_of(final(r)@)),
        keys_of(final(r)@).to_set() == keys_of(old(r)@).to_set().insert(x.key_view()),
        final(r)@.contains(x),
        forall|i: int|
            0 <= i < final(r)@.len() && #[trigger] final(r)@[i] != x ==> old(r)@.contains(final(r)@[i])
                && final(r)@[i].key_view() != x.key_view(),
        forall|i: int|
            0 <= i < old(r)@.len() && #[trigger] old(r)@[i].key_view() != x.key_view()
                ==> final(r)@.contains(old(r)@[i]),
{
    let ghost old_r = r@;
    let ghost ks = keys_of(old_r);
    let mut i: usize = 0;
    let mut found = false;
    let mut stop = false;
    while i < r.len() && !found && !stop
        invariant
            stop ==> !found && i < r.len() && text_lt(x.key_view(), ks[i as int]),
            r@ == old_r,
            ks == keys_of(old_r),
            strictly_sorted(ks),
            i <= r.len(),
            forall|j: int| 0 <= j < i ==> text_lt(#[trigger] ks[j], x.key_view()),
            found ==> i < r.len() && ks[i as int] == x.key_view(),
        decreases r.len() - i, (if found || stop { 0int } else { 1int }),
    {
        let o = compare_text(r[i].key(), x.key());
        match o {
            TextOrder::Less => {
                i = i + 1;
            },
            TextOrder::Equal => {
                found = true;
            },
            TextOrder::Greater => {
                stop = true;
            },
        }
    }
    if found {
        let ghost xk = x.key_view();
        r[i] = x;
        proof {
            assert(keys_of(r@) =~= ks.update(i as int, xk));
            assert(keys_of(r@) =~= ks);
            assert(ks.to_set().insert(xk) =~= ks.to_set()) by {
                assert(ks.contains(xk));
            }
            assert(r@[i as int] == x);
            assert forall|q: int|
                0 <= q < r@.len() && #[trigger] r@[q] != x implies old_r.contains(r@[q])
                && r@[q].key_view() != x.key_view() by {
                assert(q != i);
                assert(r@[q] == old_r[q]);
                lemma_text_lt_irreflexive(xk);
                if q < i {
                    assert(text_lt(ks[q], xk));
                } else {
                    assert(text_lt(ks[i as int], ks[q]));
                }
            }
            assert forall|q: int|
                0 <= q < old_r.len() && #[trigger] old_r[q].key_view() != x.key_view() implies r@.contains(
                old_r[q],
            ) by {
                assert(q != i);
                assert(r@[q] == old_r[q]);
            }
        }
    } else {
        proof {
            assert forall|j: int| 0 <= j < ks.len() implies #[trigger] ks[j] != x.key_view() by {
                lemma_text_lt_irreflexive(x.key_view());
                if j >= i && j > i {
                    lemma_text_lt_transitive(x.key_view(), ks[i as int], ks[j]);
                }
            }
            assert(!ks.contains(x.key_view()));
        }
        insert_unique(r, x);
        proof {
            assert(r@.contains(x)) by {
                if !r@.contains(x) {
                    assert(keys_of(r@).to_set().contains(x.key_view()));
                    let p = choose|p: int| 0 <= p < keys_of(r@).len() && keys_of(r@)[p] == x.key_view();
                    assert(r@[p] == x || old_r.contains(r@[p]));
                    let q = choose|q: int| 0 <= q < old_r.len() && old_r[q] == r@[p];
                    assert(ks[q] == x.key_view());
                    assert(ks.contains(x.key_view()));
                    assert(false);
                }
            }
            assert forall|q: int|
                0 <= q < r@.len() && #[trigger] r@[q] != x implies old_r.contains(r@[q])
                && r@[q].key_view() != x.key_view() by {
                assert(old_r.contains(r@[q]));
                let p = choose|p: int| 0 <= p < old_r.len() && old_r[p] == r@[q];
                assert(ks[p] == r@[q].key_view());
            }
            assert forall|q: int|
                0 <= q < old_r.len() && #[trigger] old_r[q].key_view() != x.key_view() implies r@.contains(
                old_r[q],
            ) by {
                assert(keys_of(r@).to_set().contains(ks[q]));
                let p = choose|p: int| 0 <= p < keys_of(r@).len() && keys_of(r@)[p] == ks[q];
                if r@[p] != x {
                    let m = choose|m: int| 0 <= m < old_r.len() && old_r[m] == r@[p];
                    assert(ks[m] == ks[q]);
                    if m != q {
                        if m < q {
                            lemma_text_lt_irreflexive(ks[m]);
                            assert(text_lt(ks[m], ks[q]));
                        } else {
                            lemma_text_lt_irreflexive(ks[q]);
                            assert(text_lt(ks[q], ks[m]));
                        }
                    }
                }
            }
        }
    }
}

/// Sorts values by key and drops every later value whose key repeats.
pub fn sorted_unique<T: Keyed>(v: Vec<T>) -> (r: Vec<T>)
    ensures
        strictly_sorted(keys_of(r@)),
        keys_of(r@).to_set() == keys_of(v@).to_set(),
        forall|i: int| 0 <= i < r@.len() ==> v@.contains(#[trigger] r@[i]),
{
    let ghost orig = v@;
    let mut v = v;
    let mut r: Vec<T> = Vec::new();
    while v.len() > 0
        invariant
            strictly_sorted(keys_of(r@)),
            orig.len() >= v@.len(),
            forall|i: int| 0 <= i < v@.len() ==> #[trigger] v@[i] == orig[i],
            keys_of(r@).to_set() == keys_of(orig.subrange(v@.len() as int, orig.len() as int)).to_set(),
            forall|i: int| 0 <= i < r@.len() ==> orig.contains(#[trigger] r@[i]),
        decreases v.len(),
    {
        let ghost n = v@.len();
        let x = v.pop().unwrap();
        assert(x == orig[n - 1]);
        let ghost old_r = r@;
        insert_unique(&mut r, x);
        proof {
            let tail_old = orig.subrange(n as int, orig.len() as int);
            let tail_new = orig.subrange(n - 1, orig.len() as int);
            assert(keys_of(tail_new) =~= seq![x.key_view()] + keys_of(tail_old));
            assert(keys_of(tail_new).to_set() =~= keys_of(tail_old).to_set().insert(x.key_view()))
                by {
                assert forall|y: Seq<char>| keys_of(tail_new).to_set().contains(y) implies keys_of(
                    tail_old,
                ).to_set().insert(x.key_view()).contains(y) by {
                    let p = choose|p: int|
                        0 <= p < keys_of(tail_new).len() && keys_of(tail_new)[p] == y;
                    if p > 0 {
                        assert(keys_of(tail_old)[p - 1] == y);
                    }
                }
                assert forall|y: Seq<char>| keys_of(tail_old).to_set().insert(
                    x.key_view(),
                ).contains(y) implies keys_of(tail_new).to_set().contains(y) by {
                    if y == x.key_view() {
                        assert(keys_of(tail_new)[0] == y);
                    } else {
                        let p = choose|p: int|
                            0 <= p < keys_of(tail_old).len() && keys_of(tail_old)[p] == y;
                        assert(keys_of(tail_new)[p + 1] == y);
                    }
                }
            }
            assert forall|i: int| 0 <= i < r@.len() implies orig.contains(#[trigger] r@[i]) by {
                if r@[i] == x {
                    assert(orig[n - 1] == x);
                } else {
                    assert(old_r.contains(r@[i]));
                    let p = choose|p: int| 0 <= p < old_r.len() && old_r[p] == r@[i];
                    assert(orig.contains(old_r[p]));
                }
            }
        }
    }
    assert(orig.subrange(0, orig.len() as int) =~= orig);
    r
}

} // verus!

verus! {

/// Appending an element adds it to the set of elements.
pub proof fn lemma_push_to_set<A>(s: Seq<A>, x: A)
    ensures
        s.push(x).to_set() == s.to_set().insert(x),
{
    assert forall|y: A| s.push(x).to_set().contains(y) <==> s.to_set().insert(x).contains(y) by {
        if s.push(x).contains(y) {
            let i = choose|i: int| 0 <= i < s.push(x).len() && s.push(x)[i] == y;
            if i < s.len() {
                assert(s[i] == y);
            }
        }
        if s.contains(y) {
            let i = choose|i: int| 0 <= i < s.len() && s[i] == y;
            assert(s.push(x)[i] == y);
        }
        if y == x {
            assert(s.push(x)[s.len() as int] == y);
        }
    }
    assert(s.push(x).to_set() =~= s.to_set().insert(x));
}

/// The keys of the first element belong to the key set.
pub proof fn lemma_keys_contains<T: Keyed>(s: Seq<T>, i: int)
    requires
        0 <= i < s.len(),
    ensures
        keys_of(s)[i] == s[i].key_view(),
        keys_of(s).contains(s[i].key_view()),
        keys_of(s).to_set().contains(s[i].key_view()),
{
    assert(keys_of(s)[i] == s[i].key_view());
}


/// The position of the value with key `key`, when there is one.
pub fn position_of<T: Keyed>(v: &[T], key: &str) -> (r: Option<usize>)
    ensures
        r matches Some(i) ==> i < v@.len() && v@[i as int].key_view() == key@,
        r is None ==> !keys_of(v@).contains(key@),
{
    let mut i: usize = 0;
    while i < v.len()
        invariant
            i <= v@.len(),
            forall|j: int| 0 <= j < i ==> (#[trigger] v@[j]).key_view() != key@,
        decreases v.len() - i,
    {
        if crate::text::text_eq(v[i].key(), key) {
            return Some(i);
        }
        i = i + 1;
    }
    proof {
        if keys_of(v@).contains(key@) {
            let j = choose|j: int| 0 <= j < keys_of(v@).len() && keys_of(v@)[j] == key@;
            assert(v@[j].key_view() == key@);
        }
    }
    None
}

/// Whether some value has key `key`.
pub fn contains_key<T: Keyed>(v: &[T], key: &str) -> (r: bool)
    ensures
        r == keys_of(v@).contains(key@),
{
    match position_of(v, key) {
        Some(i) => {
            proof {
                lemma_keys_contains(v@, i as int);
            }
            true
        },
        None => false,
    }
}

/// The strictly sorted sequence holding exactly the texts of `set`.
pub open spec fn sorted_texts(set: Set<Seq<char>>) -> Seq<Seq<char>> {
    choose|s: Seq<Seq<char>>| strictly_sorted(s) && s.to_set() == set
}

/// A strictly sorted sequence is the sorted sequence of its own texts.
pub proof fn lemma_sorted_texts(s: Seq<Seq<char>>)
    requires
        strictly_sorted(s),
    ensures
        sorted_texts(s.to_set()) == s,
{
    let t = sorted_texts(s.to_set());
    assert(strictly_sorted(t) && t.to_set() == s.to_set());
    lemma_strictly_sorted_unique(t, s);
}

/// Distinct keys sit at distinct positions of a strictly sorted sequence.
pub proof fn lemma_sorted_key_position<T: Keyed>(s: Seq<T>, i: int, j: int)
    requires
        strictly_sorted(keys_of(s)),
        0 <= i < s.len(),
        0 <= j < s.len(),
        s[i].key_view() == s[j].key_view(),
    ensures
        i == j,
{
    if i != j {
        lemma_strictly_sorted_no_duplicates(keys_of(s));
        assert(keys_of(s)[i] == keys_of(s)[j]);
    }
}


/// Whether the keys are strictly sorted, checked neighbour by neighbour.
pub fn is_strictly_sorted<T: Keyed>(v: &[T]) -> (r: bool)
    ensures
        r == strictly_sorted(keys_of(v@)),
{
    let mut i: usize = 1;
    if v.len() == 0 {
        return true;
    }
    while i < v.len()
        invariant
            1 <= i <= v@.len(),
            strictly_sorted(keys_of(v@.subrange(0, i as int))),
        decreases v.len() - i,
    {
        let ghost ks = keys_of(v@);
        match crate::text::compare_text(v[i - 1].key(), v[i].key()) {
            crate::text::TextOrder::Less => {
                proof {
                    let pre = keys_of(v@.subrange(0, i as int));
                    let post = keys_of(v@.subrange(0, i + 1));
                    assert forall|p: int, q: int| 0 <= p < q < post.len() implies crate::text::text_lt(
                        #[trigger] post[p],
                        #[trigger] post[q],
                    ) by {
                        assert(post[p] == ks[p]);
                        assert(post[q] == ks[q]);
                        if q < i {
                            assert(pre[p] == ks[p] && pre[q] == ks[q]);
                        } else if p < i - 1 {
                            assert(pre[p] == ks[p] && pre[i - 1] == ks[i - 1]);
                            lemma_text_lt_transitive(ks[p], ks[i - 1], ks[q]);
                        }
                    }
                }
            },
            _ => {
                proof {
                    assert(!crate::text::text_lt(ks[i - 1], ks[i as int]));
                }
                return false;
            },
        }
        i = i + 1;
    }
    assert(v@.subrange(0, v@.len() as int) =~= v@);
    true
}

} // verus!
