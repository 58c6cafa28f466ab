//! Orders used by the WIP engine's ordered sets and maps: code-point
//! lexicographic order on strings (the order `String`'s `Ord` gives, since
//! UTF-8 preserves code-point order) and strictly sorted sequences under it.
use vstd::prelude::*;

use crate::text::{chars_of, eq_text, owned};
use crate::wip::model::strs;

verus! {

/// Code-point lexicographic "less than" on character sequences.
pub open spec fn lex_lt(a: Seq<char>, b: Seq<char>) -> bool
    decreases a.len(),
{
    if b.len() == 0 {
        false
    } else if a.len() == 0 {
        true
    } else if a[0] < b[0] {
        true
    } else if a[0] == b[0] {
        lex_lt(a.drop_first(), b.drop_first())
    } else {
        false
    }
}

pub proof fn lemma_lex_irrefl(a: Seq<char>)
    ensures
        !lex_lt(a, a),
    decreases a.len(),
{
    if a.len() > 0 {
        lemma_lex_irrefl(a.drop_first());
    }
}

pub proof fn lemma_lex_trans(a: Seq<char>, b: Seq<char>, c: Seq<char>)
    requires
        lex_lt(a, b),
        lex_lt(b, c),
    ensures
        lex_lt(a, c),
    decreases a.len(),
{
    if a.len() > 0 && a[0] == b[0] && b[0] == c[0] {
        lemma_lex_trans(a.drop_first(), b.drop_first(), c.drop_first());
    }
}

pub proof fn lemma_lex_total(a: Seq<char>, b: Seq<char>)
    requires
        a != b,
    ensures
        lex_lt(a, b) || lex_lt(b, a),
    decreases a.len(),
{
    if a.len() == 0 || b.len() == 0 {
        if a.len() == 0 && b.len() == 0 {
            assert(a =~= b);
        }
    } else if a[0] == b[0] {
        let ta = a.drop_first();
        let tb = b.drop_first();
        if ta != tb {
            lemma_lex_total(ta, tb);
        } else {
            assert(ta.len() == tb.len());
            assert(a =~= b) by {
                assert forall|i: int| 0 <= i < a.len() implies a[i] == b[i] by {
                    if i > 0 {
                        assert(a[i] == ta[i - 1]);
                        assert(b[i] == tb[i - 1]);
                    }
                }
            }
        }
    } else {
        assert(a[0] < b[0] || b[0] < a[0]);
    }
}

/// A strict total order: irreflexive, transitive and total.
pub open spec fn strict_total<T>(lt: spec_fn(T, T) -> bool) -> bool {
    &&& forall|a: T| !#[trigger] lt(a, a)
    &&& forall|a: T, b: T, c: T| #[trigger] lt(a, b) && #[trigger] lt(b, c) ==> lt(a, c)
    &&& forall|a: T, b: T| a != b ==> #[trigger] lt(a, b) || lt(b, a)
}

/// The string order as a value.
pub open spec fn str_order() -> spec_fn(Seq<char>, Seq<char>) -> bool {
    |a: Seq<char>, b: Seq<char>| lex_lt(a, b)
}

pub proof fn lemma_str_order()
    ensures
        strict_total(str_order()),
{
    assert forall|a: Seq<char>| !#[trigger] str_order()(a, a) by {
        lemma_lex_irrefl(a);
    }
    assert forall|a: Seq<char>, b: Seq<char>, c: Seq<char>|
        #[trigger] str_order()(a, b) && #[trigger] str_order()(b, c) implies str_order()(a, c) by {
        lemma_lex_trans(a, b, c);
    }
    assert forall|a: Seq<char>, b: Seq<char>| a != b implies #[trigger] str_order()(a, b) || str_order()(
        b,
        a,
    ) by {
        lemma_lex_total(a, b);
    }
}

/// `q` is strictly increasing under `lt` (so it also holds no element twice).
pub open spec fn sorted_by<T>(q: Seq<T>, lt: spec_fn(T, T) -> bool) -> bool {
    forall|i: int, j: int| 0 <= i < j < q.len() ==> lt(#[trigger] q[i], #[trigger] q[j])
}

/// `q` lists exactly the values that satisfy `p`.
pub open spec fn lists<T>(q: Seq<T>, p: spec_fn(T) -> bool) -> bool {
    forall|x: T| q.contains(x) <==> #[trigger] p(x)
}

/// The strictly increasing listing of the values satisfying `p`.
pub open spec fn sorted_listing<T>(p: spec_fn(T) -> bool, lt: spec_fn(T, T) -> bool) -> Seq<T> {
    choose|q: Seq<T>| sorted_by(q, lt) && lists(q, p)
}

/// Two strictly increasing sequences with the same elements are equal.
pub proof fn lemma_sorted_unique<T>(q1: Seq<T>, q2: Seq<T>, lt: spec_fn(T, T) -> bool)
    requires
        strict_total(lt),
        sorted_by(q1, lt),
        sorted_by(q2, lt),
        forall|x: T| q1.contains(x) <==> q2.contains(x),
    ensures
        q1 == q2,
    decreases q1.len(),
{
    if q1.len() == 0 {
        if q2.len() > 0 {
            assert(q2.contains(q2[0]));
        }
        assert(q1 =~= q2);
    } else {
        assert(q1.contains(q1[0]));
        let j = choose|j: int| 0 <= j < q2.len() && q2[j] == q1[0];
        assert(q2.contains(q2[0]));
        let i = choose|i: int| 0 <= i < q1.len() && q1[i] == q2[0];
        if j > 0 {
            assert(lt(q2[0], q2[j]));
            if i > 0 {
                assert(lt(q1[0], q1[i]));
            }
        }
        assert(q1[0] == q2[0]);
        let t1 = q1.drop_first();
        let t2 = q2.drop_first();
        assert forall|x: T| t1.contains(x) <==> t2.contains(x) by {
            if t1.contains(x) {
                let k = choose|k: int| 0 <= k < t1.len() && t1[k] == x;
                assert(q1[k + 1] == x);
                assert(lt(q1[0], q1[k + 1]));
                assert(q1.contains(x));
                let m = choose|m: int| 0 <= m < q2.len() && q2[m] == x;
                assert(m != 0);
                assert(t2[m - 1] == x);
            }
            if t2.contains(x) {
                let k = choose|k: int| 0 <= k < t2.len() && t2[k] == x;
                assert(q2[k + 1] == x);
                assert(lt(q2[0], q2[k + 1]));
                assert(q2.contains(x));
                let m = choose|m: int| 0 <= m < q1.len() && q1[m] == x;
                assert(m != 0);
                assert(t1[m - 1] == x);
            }
        }
        assert(sorted_by(t1, lt)) by {
            assert forall|a: int, b: int| 0 <= a < b < t1.len() implies lt(#[trigger] t1[a], #[trigger] t1[b]) by {
                assert(t1[a] == q1[a + 1] && t1[b] == q1[b + 1]);
            }
        }
        assert(sorted_by(t2, lt)) by {
            assert forall|a: int, b: int| 0 <= a < b < t2.len() implies lt(#[trigger] t2[a], #[trigger] t2[b]) by {
                assert(t2[a] == q2[a + 1] && t2[b] == q2[b + 1]);
            }
        }
        lemma_sorted_unique(t1, t2, lt);
        assert(q1 =~= q2) by {
            assert forall|k: int| 0 <= k < q1.len() implies q1[k] == q2[k] by {
                if k > 0 {
                    assert(q1[k] == t1[k - 1]);
                    assert(q2[k] == t2[k - 1]);
                }
            }
        }
    }
}

/// A strictly increasing listing of `p` is the one `sorted_listing` names.
pub proof fn lemma_sorted_listing<T>(q: Seq<T>, p: spec_fn(T) -> bool, lt: spec_fn(T, T) -> bool)
    requires
        strict_total(lt),
        sorted_by(q, lt),
        lists(q, p),
    ensures
        sorted_listing(p, lt) == q,
{
    let c = sorted_listing(p, lt);
    assert(sorted_by(c, lt) && lists(c, p));
    assert forall|x: T| c.contains(x) <==> q.contains(x) by {
        assert(c.contains(x) <==> p(x));
        assert(q.contains(x) <==> p(x));
    }
    lemma_sorted_unique(c, q, lt);
}

/// Inserting `x` between the elements below it and those above it keeps `q` sorted.
pub proof fn lemma_insert_sorted<T>(q: Seq<T>, pos: int, x: T, lt: spec_fn(T, T) -> bool)
    requires
        sorted_by(q, lt),
        0 <= pos <= q.len(),
        forall|i: int| 0 <= i < pos ==> lt(#[trigger] q[i], x),
        forall|i: int| pos <= i < q.len() ==> lt(x, #[trigger] q[i]),
    ensures
        sorted_by(q.insert(pos, x), lt),
        forall|y: T| #[trigger] q.insert(pos, x).contains(y) <==> (q.contains(y) || y == x),
{
    let r = q.insert(pos, x);
    assert forall|i: int, j: int| 0 <= i < j < r.len() implies lt(#[trigger] r[i], #[trigger] r[j]) by {
        if j < pos {
            assert(r[i] == q[i] && r[j] == q[j]);
        } else if j == pos {
            assert(r[i] == q[i]);
        } else if i < pos {
            assert(r[i] == q[i] && r[j] == q[j - 1]);
        } else if i == pos {
            assert(r[j] == q[j - 1]);
        } else {
            assert(r[i] == q[i - 1] && r[j] == q[j - 1]);
        }
    }
    assert forall|y: T| #[trigger] r.contains(y) <==> (q.contains(y) || y == x) by {
        if r.contains(y) {
            let k = choose|k: int| 0 <= k < r.len() && r[k] == y;
            if k < pos {
                assert(q[k] == y);
            } else if k > pos {
                assert(q[k - 1] == y);
            }
        }
        if q.contains(y) {
            let k = choose|k: int| 0 <= k < q.len() && q[k] == y;
            if k < pos {
                assert(r[k] == y);
            } else {
                assert(r[k + 1] == y);
            }
        }
        if y == x {
            assert(r[pos] == y);
        }
    }
}

/// `pos` splits `q` into the elements below `x` and those above it.
pub open spec fn place_of<T>(q: Seq<T>, x: T, lt: spec_fn(T, T) -> bool, pos: int) -> bool {
    &&& 0 <= pos <= q.len()
    &&& forall|i: int| 0 <= i < pos ==> lt(#[trigger] q[i], x)
    &&& forall|i: int| pos <= i < q.len() ==> lt(x, #[trigger] q[i])
}

/// A value missing from a strictly increasing list has a place in it: the
/// elements before the place are below it, those from the place on above it.
pub proof fn lemma_insert_place<T>(q: Seq<T>, x: T, lt: spec_fn(T, T) -> bool)
    requires
        strict_total(lt),
        sorted_by(q, lt),
        !q.contains(x),
    ensures
        exists|pos: int| #[trigger] place_of(q, x, lt, pos),
    decreases q.len(),
{
    if q.len() == 0 {
        assert(place_of(q, x, lt, 0));
    } else {
        let init = q.drop_last();
        assert(sorted_by(init, lt)) by {
            assert forall|i: int, j: int| 0 <= i < j < init.len() implies lt(#[trigger] init[i], #[trigger] init[j]) by {
                assert(init[i] == q[i] && init[j] == q[j]);
            }
        }
        assert(!init.contains(x)) by {
            if init.contains(x) {
                let k = choose|k: int| 0 <= k < init.len() && init[k] == x;
                assert(q[k] == x);
            }
        }
        lemma_insert_place(init, x, lt);
        let p = choose|pos: int| #[trigger] place_of(init, x, lt, pos);
        let last = q[q.len() - 1];
        assert(last != x) by {
            assert(q.contains(last));
        }
        if lt(last, x) {
            assert forall|i: int| 0 <= i < q.len() implies lt(#[trigger] q[i], x) by {
                if i < q.len() - 1 {
                    assert(lt(q[i], last));
                }
            }
            assert(place_of(q, x, lt, q.len() as int));
        } else {
            assert(lt(x, last));
            assert forall|i: int| 0 <= i < p implies lt(#[trigger] q[i], x) by {
                assert(q[i] == init[i]);
            }
            assert forall|i: int| p <= i < q.len() implies lt(x, #[trigger] q[i]) by {
                if i < q.len() - 1 {
                    assert(q[i] == init[i]);
                }
            }
            assert(place_of(q, x, lt, p));
        }
    }
}

/// The elements of any finite sequence have a strictly increasing listing.
pub proof fn lemma_listing_exists<T>(xs: Seq<T>, lt: spec_fn(T, T) -> bool)
    requires
        strict_total(lt),
    ensures
        exists|q: Seq<T>| sorted_by(q, lt) && forall|x: T| #[trigger] q.contains(x) <==> xs.contains(x),
    decreases xs.len(),
{
    if xs.len() == 0 {
        let q = Seq::<T>::empty();
        assert(sorted_by(q, lt));
        assert forall|x: T| #[trigger] q.contains(x) <==> xs.contains(x) by {}
    } else {
        let init = xs.drop_last();
        let x = xs.last();
        lemma_listing_exists(init, lt);
        let q = choose|q: Seq<T>| sorted_by(q, lt) && forall|y: T| #[trigger] q.contains(y) <==> init.contains(y);
        assert forall|y: T| xs.contains(y) <==> (init.contains(y) || y == x) by {
            if xs.contains(y) {
                let k = choose|k: int| 0 <= k < xs.len() && xs[k] == y;
                if k < xs.len() - 1 {
                    assert(init[k] == y);
                }
            }
            if init.contains(y) {
                let k = choose|k: int| 0 <= k < init.len() && init[k] == y;
                assert(xs[k] == y);
            }
            if y == x {
                assert(xs[xs.len() - 1] == y);
            }
        }
        if q.contains(x) {
            assert forall|y: T| #[trigger] q.contains(y) <==> xs.contains(y) by {}
        } else {
            lemma_insert_place(q, x, lt);
            let pos = choose|pos: int| #[trigger] place_of(q, x, lt, pos);
            lemma_insert_sorted(q, pos, x, lt);
            let r = q.insert(pos, x);
            assert forall|y: T| #[trigger] r.contains(y) <==> xs.contains(y) by {}
        }
    }
}

/// Adds `s` to a strictly increasing list of strings, unless it is already there.
pub fn insert_sorted(v: &mut Vec<String>, s: &str)
    requires
        sorted_by(strs(old(v)@), str_order()),
    ensures
        sorted_by(strs(final(v)@), str_order()),
        forall|x: Seq<char>| #[trigger] strs(final(v)@).contains(x) <==> (strs(old(v)@).contains(x) || x == s@),
{
    let ghost q = strs(v@);
    let mut i: usize = 0;
    while i < v.len() && str_lt(v[i].as_str(), s)
        invariant
            i <= v@.len(),
            q == strs(v@),
            forall|j: int| 0 <= j < i ==> lex_lt(#[trigger] q[j], s@),
        decreases v@.len() - i,
    {
        i = i + 1;
    }
    if i < v.len() && eq_text(v[i].as_str(), s) {
        assert(q[i as int] == s@);
        assert forall|x: Seq<char>| #[trigger] q.contains(x) <==> (q.contains(x) || x == s@) by {
            if x == s@ {
                assert(q.contains(x));
            }
        }
        return;
    }
    proof {
        assert forall|j: int| i <= j < q.len() implies lex_lt(s@, #[trigger] q[j]) by {
            lemma_lex_total(s@, q[i as int]);
            if j > i {
                assert(str_order()(q[i as int], q[j]));
                lemma_lex_trans(s@, q[i as int], q[j]);
            }
        }
        assert forall|j: int| 0 <= j < i implies str_order()(#[trigger] q[j], s@) by {
        }
        assert forall|j: int| i <= j < q.len() implies str_order()(s@, #[trigger] q[j]) by {
        }
        lemma_insert_sorted(q, i as int, s@, str_order());
    }
    v.insert(i, owned(s));
    proof {
        assert(strs(v@) =~= q.insert(i as int, s@));
    }
}

/// `lex_lt(a@, b@)`: `a < b` for strings.
pub fn str_lt(a: &str, b: &str) -> (r: bool)
    ensures
        r == lex_lt(a@, b@),
{
    let x = chars_of(a);
    let y = chars_of(b);
    let mut i: usize = 0;
    assert(x@.skip(0) =~= x@ && y@.skip(0) =~= y@);
    assert(x@.take(0) =~= y@.take(0));
    while i < x.len() && i < y.len() && x[i] == y[i]
        invariant
            i <= x@.len(),
            i <= y@.len(),
            x@ == a@,
            y@ == b@,
            x@.take(i as int) == y@.take(i as int),
            lex_lt(a@, b@) == lex_lt(x@.skip(i as int), y@.skip(i as int)),
        decreases x@.len() - i,
    {
        let ghost xs = x@.skip(i as int);
        let ghost ys = y@.skip(i as int);
        assert(xs.drop_first() =~= x@.skip(i + 1));
        assert(ys.drop_first() =~= y@.skip(i + 1));
        assert(x@.take(i + 1) =~= x@.take(i as int).push(x@[i as int]));
        assert(y@.take(i + 1) =~= y@.take(i as int).push(y@[i as int]));
        i = i + 1;
    }
    let ghost xs = x@.skip(i as int);
    let ghost ys = y@.skip(i as int);
    if i == y.len() {
        assert(ys.len() == 0);
        false
    } else if i == x.len() {
        assert(xs.len() == 0);
        true
    } else {
        assert(xs[0] == x@[i as int] && ys[0] == y@[i as int]);
        x[i] < y[i]
    }
}

} // verus!
