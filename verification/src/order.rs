//! The canonical order.  Member records are deduplicated and displayed in
//! lexicographic order over their full field tuples; this module defines
//! that order on character sequences and optional character sequences,
//! proves it a strict total order, and provides the sorted-insertion
//! machinery every set in the model is built on.
use vstd::prelude::*;

use vstd::relations::{sorted_by, strict_total_ordering};

verus! {

/// Lexicographic order on character sequences: compare code points left to
/// right; a strict prefix comes first.
pub open spec fn str_lt(a: Seq<char>, b: Seq<char>) -> bool
    decreases a.len(),
{
    if b.len() == 0 {
        false
    } else if a.len() == 0 {
        true
    } else if a[0] != b[0] {
        (a[0] as int) < (b[0] as int)
    } else {
        str_lt(a.drop_first(), b.drop_first())
    }
}

/// An absent value comes before any present one; two present values
/// compare by [`str_lt`].
pub open spec fn opt_str_lt(a: Option<Seq<char>>, b: Option<Seq<char>>) -> bool {
    match (a, b) {
        (Option::None, Option::Some(_)) => true,
        (Option::Some(x), Option::Some(y)) => str_lt(x, y),
        _ => false,
    }
}

/// Asymmetry and connectedness of [`str_lt`] on one pair.
pub proof fn lemma_str_lt_conn(a: Seq<char>, b: Seq<char>)
    ensures
        str_lt(a, b) ==> !str_lt(b, a),
        !str_lt(a, b) && !str_lt(b, a) ==> a == b,
    decreases a.len(),
{
    if a.len() > 0 && b.len() > 0 && a[0] == b[0] {
        lemma_str_lt_conn(a.drop_first(), b.drop_first());
        if !str_lt(a, b) && !str_lt(b, a) {
            assert(a.drop_first() == b.drop_first());
            assert(a.len() == b.len());
            assert forall|i: int| 0 <= i < a.len() implies a[i] == b[i] by {
                if i > 0 {
                    assert(a[i] == a.drop_first()[i - 1]);
                    assert(b[i] == b.drop_first()[i - 1]);
                }
            }
            assert(a =~= b);
        }
    } else if a.len() == 0 && b.len() == 0 {
        assert(a =~= b);
    }
}

/// Transitivity of [`str_lt`].
pub proof fn lemma_str_lt_trans(a: Seq<char>, b: Seq<char>, c: Seq<char>)
    requires
        str_lt(a, b),
        str_lt(b, c),
    ensures
        str_lt(a, c),
    decreases a.len(),
{
    if a.len() > 0 && b.len() > 0 && c.len() > 0 {
        if a[0] == b[0] && b[0] == c[0] {
            lemma_str_lt_trans(a.drop_first(), b.drop_first(), c.drop_first());
        }
    }
}

/// The order as a single value, so that every use names one function.
pub open spec fn str_lt_f() -> spec_fn(Seq<char>, Seq<char>) -> bool {
    |a: Seq<char>, b: Seq<char>| str_lt(a, b)
}

/// [`str_lt`] is a strict total order.
pub proof fn lemma_str_lt_strict_total()
    ensures
        strict_total_ordering(str_lt_f()),
{
    let r = str_lt_f();
    assert forall|x: Seq<char>| #[trigger] r(x, x) == false by {
        lemma_str_lt_conn(x, x);
    }
    assert forall|x: Seq<char>, y: Seq<char>| #[trigger] r(x, y) && #[trigger] r(y, x) implies x
        == y by {
        lemma_str_lt_conn(x, y);
    }
    assert forall|x: Seq<char>, y: Seq<char>, z: Seq<char>|
        #[trigger] r(x, y) && #[trigger] r(y, z) implies r(x, z) by {
        lemma_str_lt_trans(x, y, z);
    }
    assert forall|x: Seq<char>, y: Seq<char>| x != y implies #[trigger] r(x, y) || #[trigger] r(
        y,
        x,
    ) by {
        lemma_str_lt_conn(x, y);
    }
}

/// Asymmetry and connectedness of [`opt_str_lt`] on one pair.
pub proof fn lemma_opt_str_lt_conn(a: Option<Seq<char>>, b: Option<Seq<char>>)
    ensures
        opt_str_lt(a, b) ==> !opt_str_lt(b, a),
        !opt_str_lt(a, b) && !opt_str_lt(b, a) ==> a == b,
{
    match (a, b) {
        (Option::Some(x), Option::Some(y)) => {
            lemma_str_lt_conn(x, y);
        },
        _ => {},
    }
}

/// Transitivity of [`opt_str_lt`].
pub proof fn lemma_opt_str_lt_trans(
    a: Option<Seq<char>>,
    b: Option<Seq<char>>,
    c: Option<Seq<char>>,
)
    requires
        opt_str_lt(a, b),
        opt_str_lt(b, c),
    ensures
        opt_str_lt(a, c),
{
    match (a, b, c) {
        (Option::Some(x), Option::Some(y), Option::Some(z)) => {
            lemma_str_lt_trans(x, y, z);
        },
        _ => {},
    }
}

/// Insertion into a sorted duplicate-free sequence: the element goes in
/// front of the first entry it precedes, and vanishes if it is already
/// present.
pub open spec fn sorted_ins<A>(s: Seq<A>, x: A, lt: spec_fn(A, A) -> bool) -> Seq<A>
    decreases s.len(),
{
    if s.len() == 0 {
        seq![x]
    } else if lt(x, s[0]) {
        seq![x] + s
    } else if x == s[0] {
        s
    } else {
        seq![s[0]] + sorted_ins(s.drop_first(), x, lt)
    }
}

/// A subsequence of a sorted sequence is sorted.
pub proof fn lemma_sorted_subrange<A>(s: Seq<A>, lt: spec_fn(A, A) -> bool, i: int, j: int)
    requires
        sorted_by(s, lt),
        0 <= i <= j <= s.len(),
    ensures
        sorted_by(s.subrange(i, j), lt),
{
    let sub = s.subrange(i, j);
    assert forall|p: int, q: int| 0 <= p < q < sub.len() implies #[trigger] lt(
        sub[p],
        sub[q],
    ) by {
        assert(sub[p] == s[i + p]);
        assert(sub[q] == s[i + q]);
    }
}

/// What insertion guarantees: the result is sorted and holds exactly the
/// old contents plus the new element.
pub proof fn lemma_sorted_ins<A>(s: Seq<A>, x: A, lt: spec_fn(A, A) -> bool)
    requires
        strict_total_ordering(lt),
        sorted_by(s, lt),
    ensures
        sorted_by(sorted_ins(s, x, lt), lt),
        sorted_ins(s, x, lt).to_set() == s.to_set().insert(x),
        sorted_ins(s, x, lt).len() <= s.len() + 1,
        s.len() <= sorted_ins(s, x, lt).len(),
    decreases s.len(),
{
    let r = sorted_ins(s, x, lt);
    if s.len() == 0 {
        assert(r =~= seq![x]);
        assert(r.to_set() =~= s.to_set().insert(x)) by {
            assert(r.contains(x)) by {
                assert(r[0] == x);
            }
            assert forall|e: A| #[trigger] r.contains(e) implies e == x by {
                let i = choose|i: int| 0 <= i < r.len() && r[i] == e;
            }
        }
    } else if lt(x, s[0]) {
        assert(r =~= seq![x] + s);
        assert forall|p: int, q: int| 0 <= p < q < r.len() implies #[trigger] lt(r[p], r[q]) by {
            if p == 0 {
                assert(r[q] == s[q - 1]);
                if q > 1 {
                    assert(lt(s[0], s[q - 1]));
                }
            } else {
                assert(r[p] == s[p - 1] && r[q] == s[q - 1]);
            }
        }
        assert(r.to_set() =~= s.to_set().insert(x)) by {
            assert forall|e: A| #[trigger] r.contains(e) implies s.contains(e) || e == x by {
                let i = choose|i: int| 0 <= i < r.len() && r[i] == e;
                if i > 0 {
                    assert(s[i - 1] == e);
                }
            }
            assert forall|e: A| s.contains(e) implies #[trigger] r.contains(e) by {
                let i = choose|i: int| 0 <= i < s.len() && s[i] == e;
                assert(r[i + 1] == e);
            }
            assert(r.contains(x)) by {
                assert(r[0] == x);
            }
        }
    } else if x == s[0] {
        assert(r == s);
        assert(r.to_set() =~= s.to_set().insert(x)) by {
            assert(s.contains(x)) by {
                assert(s[0] == x);
            }
        }
    } else {
        // x is neither before nor equal to the head, so the head precedes it.
        assert(lt(s[0], x));
        let tail = s.drop_first();
        lemma_sorted_subrange(s, lt, 1, s.len() as int);
        lemma_sorted_ins(tail, x, lt);
        let rest = sorted_ins(tail, x, lt);
        assert(r =~= seq![s[0]] + rest);
        assert forall|e: A| rest.contains(e) implies lt(s[0], e) by {
            assert(rest.to_set().contains(e));
            if tail.contains(e) {
                let i = choose|i: int| 0 <= i < tail.len() && tail[i] == e;
                assert(s[i + 1] == e);
                assert(lt(s[0], s[i + 1]));
            }
        }
        assert forall|p: int, q: int| 0 <= p < q < r.len() implies #[trigger] lt(r[p], r[q]) by {
            if p == 0 {
                assert(r[q] == rest[q - 1]);
                assert(rest.contains(rest[q - 1]));
            } else {
                assert(r[p] == rest[p - 1] && r[q] == rest[q - 1]);
            }
        }
        assert(r.to_set() =~= s.to_set().insert(x)) by {
            assert forall|e: A| #[trigger] r.contains(e) implies s.contains(e) || e == x by {
                let i = choose|i: int| 0 <= i < r.len() && r[i] == e;
                if i == 0 {
                    assert(s[0] == e);
                } else {
                    assert(rest[i - 1] == e);
                    assert(rest.to_set().contains(e));
                    if tail.contains(e) {
                        let j = choose|j: int| 0 <= j < tail.len() && tail[j] == e;
                        assert(s[j + 1] == e);
                    }
                }
            }
            assert forall|e: A| s.contains(e) || e == x implies #[trigger] r.contains(e) by {
                if e == x {
                    assert(rest.to_set().contains(x));
                    let j = choose|j: int| 0 <= j < rest.len() && rest[j] == e;
                    assert(r[j + 1] == e);
                } else {
                    let i = choose|i: int| 0 <= i < s.len() && s[i] == e;
                    if i == 0 {
                        assert(r[0] == e);
                    } else {
                        assert(tail[i - 1] == e);
                        assert(tail.to_set().contains(e));
                        assert(rest.to_set().contains(e));
                        let j = choose|j: int| 0 <= j < rest.len() && rest[j] == e;
                        assert(r[j + 1] == e);
                    }
                }
            }
        }
    }
}

/// A property that holds of every entry and of the new element holds of
/// every entry after insertion, which also keeps the sequence sorted.
pub proof fn lemma_sorted_ins_all<A>(s: Seq<A>, x: A, lt: spec_fn(A, A) -> bool, p: spec_fn(A) -> bool)
    requires
        strict_total_ordering(lt),
        sorted_by(s, lt),
        forall|i: int| 0 <= i < s.len() ==> p(#[trigger] s[i]),
        p(x),
    ensures
        sorted_by(sorted_ins(s, x, lt), lt),
        forall|i: int|
            0 <= i < sorted_ins(s, x, lt).len() ==> p(#[trigger] sorted_ins(s, x, lt)[i]),
{
    lemma_sorted_ins(s, x, lt);
    let r = sorted_ins(s, x, lt);
    assert forall|i: int| 0 <= i < r.len() implies p(#[trigger] r[i]) by {
        assert(r.contains(r[i]));
        assert(r.to_set().contains(r[i]));
        assert(s.to_set().insert(x).contains(r[i]));
        if r[i] != x {
            assert(s.to_set().contains(r[i]));
            assert(s.contains(r[i]));
            let k = choose|k: int| 0 <= k < s.len() && s[k] == r[i];
            assert(p(s[k]));
        }
    }
}

/// Scanning past a prefix whose entries all precede the new element leaves
/// the insertion to the remainder.
pub proof fn lemma_sorted_ins_split<A>(s: Seq<A>, x: A, lt: spec_fn(A, A) -> bool, i: int)
    requires
        strict_total_ordering(lt),
        0 <= i <= s.len(),
        forall|k: int| 0 <= k < i ==> #[trigger] lt(s[k], x),
    ensures
        sorted_ins(s, x, lt) == s.subrange(0, i) + sorted_ins(
            s.subrange(i, s.len() as int),
            x,
            lt,
        ),
    decreases i,
{
    if i == 0 {
        assert(s.subrange(0, s.len() as int) =~= s);
        assert(sorted_ins(s, x, lt) =~= s.subrange(0, 0) + sorted_ins(s, x, lt));
    } else {
        assert(lt(s[0], x));
        assert(x != s[0]);
        assert(!lt(x, s[0]));
        let tail = s.drop_first();
        assert(forall|k: int| 0 <= k < i - 1 ==> #[trigger] lt(tail[k], x));
        lemma_sorted_ins_split(tail, x, lt, i - 1);
        assert(tail.subrange(0, i - 1) =~= s.subrange(1, i));
        assert(tail.subrange(i - 1, tail.len() as int) =~= s.subrange(i, s.len() as int));
        assert(sorted_ins(s, x, lt) =~= s.subrange(0, i) + sorted_ins(
            s.subrange(i, s.len() as int),
            x,
            lt,
        )) by {
            assert(sorted_ins(s, x, lt) == seq![s[0]] + sorted_ins(tail, x, lt));
            assert(sorted_ins(tail, x, lt) == s.subrange(1, i) + sorted_ins(
                s.subrange(i, s.len() as int),
                x,
                lt,
            ));
        }
    }
}

/// A sorted duplicate-free sequence is determined by its set of elements:
/// two of them with the same contents are the same sequence.  This is what
/// makes the rendered order independent of the order members were found in.
pub proof fn lemma_sorted_same_set<A>(s1: Seq<A>, s2: Seq<A>, lt: spec_fn(A, A) -> bool)
    requires
        strict_total_ordering(lt),
        sorted_by(s1, lt),
        sorted_by(s2, lt),
        s1.to_set() == s2.to_set(),
    ensures
        s1 == s2,
    decreases s1.len(),
{
    if s1.len() == 0 {
        if s2.len() > 0 {
            assert(s2.contains(s2[0]));
            assert(s1.to_set().contains(s2[0]));
            assert(false);
        }
        assert(s1 =~= s2);
    } else {
        if s2.len() == 0 {
            assert(s1.contains(s1[0]));
            assert(s2.to_set().contains(s1[0]));
            assert(false);
        }
        // The heads are equal: each head is in the other sequence, and a
        // strictly later position would contradict asymmetry.
        assert(s1.contains(s1[0]));
        assert(s2.to_set().contains(s1[0]));
        let j = choose|j: int| 0 <= j < s2.len() && s2[j] == s1[0];
        assert(s2.contains(s2[0]));
        assert(s1.to_set().contains(s2[0]));
        let i = choose|i: int| 0 <= i < s1.len() && s1[i] == s2[0];
        if i > 0 && j > 0 {
            assert(lt(s1[0], s1[i]));
            assert(lt(s2[0], s2[j]));
            assert(false);
        }
        assert(s1[0] == s2[0]);
        let t1 = s1.drop_first();
        let t2 = s2.drop_first();
        lemma_sorted_subrange(s1, lt, 1, s1.len() as int);
        lemma_sorted_subrange(s2, lt, 1, s2.len() as int);
        assert(t1.to_set() =~= s1.to_set().remove(s1[0])) by {
            lemma_tail_set(s1, lt);
        }
        assert(t2.to_set() =~= s2.to_set().remove(s2[0])) by {
            lemma_tail_set(s2, lt);
        }
        lemma_sorted_same_set(t1, t2, lt);
        assert(s1.len() == s2.len());
        assert forall|k: int| 0 <= k < s1.len() implies s1[k] == s2[k] by {
            if k > 0 {
                assert(s1[k] == t1[k - 1]);
                assert(s2[k] == t2[k - 1]);
            }
        }
        assert(s1 =~= s2);
    }
}

/// The contents of a sorted sequence's tail are its contents without the
/// head.
proof fn lemma_tail_set<A>(s: Seq<A>, lt: spec_fn(A, A) -> bool)
    requires
        strict_total_ordering(lt),
        sorted_by(s, lt),
        s.len() > 0,
    ensures
        s.drop_first().to_set() == s.to_set().remove(s[0]),
{
    let t = s.drop_first();
    assert forall|e: A| #[trigger] t.contains(e) implies s.contains(e) && e != s[0] by {
        let k = choose|k: int| 0 <= k < t.len() && t[k] == e;
        assert(s[k + 1] == e);
        assert(lt(s[0], s[k + 1]));
    }
    assert forall|e: A| s.contains(e) && e != s[0] implies #[trigger] t.contains(e) by {
        let k = choose|k: int| 0 <= k < s.len() && s[k] == e;
        assert(t[k - 1] == e);
    }
    assert(t.to_set() =~= s.to_set().remove(s[0]));
}

} // verus!
