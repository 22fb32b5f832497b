//! Sequences of tab ids in least-recently-used order, and the facts about
//! removing ids from them that the pool relies on.
use vstd::prelude::*;

verus! {

/// `s` with every id of `r` taken out, the order of the others kept.
pub open spec fn without(s: Seq<i32>, r: Set<i32>) -> Seq<i32>
    decreases s.len(),
{
    if s.len() == 0 {
        Seq::empty()
    } else {
        let rest = without(s.drop_last(), r);
        if r.contains(s.last()) {
            rest
        } else {
            rest.push(s.last())
        }
    }
}

/// In `s`, `a` turns up before `b` has turned up at all: `a` was used
/// less recently than `b`.
pub open spec fn used_before(s: Seq<i32>, a: i32, b: i32) -> bool {
    exists|i: int| 0 <= i < s.len() && s[i] == a && !(#[trigger] s.take(i)).contains(b)
}

/// An id stays in `without(s, r)` exactly when it was in `s` and not in `r`.
pub proof fn lemma_without_contains(s: Seq<i32>, r: Set<i32>, x: i32)
    ensures
        without(s, r).contains(x) <==> (s.contains(x) && !r.contains(x)),
    decreases s.len(),
{
    if s.len() > 0 {
        let d = s.drop_last();
        lemma_without_contains(d, r, x);
        let w = without(d, r);
        if s.contains(x) && !r.contains(x) {
            let i = choose|i: int| 0 <= i < s.len() && s[i] == x;
            if i < s.len() - 1 {
                assert(d[i] == x);
                let j = choose|j: int| 0 <= j < w.len() && w[j] == x;
                if !r.contains(s.last()) {
                    assert(w.push(s.last())[j] == x);
                }
            } else {
                assert(w.push(s.last())[w.len() as int] == x);
            }
        }
        if without(s, r).contains(x) {
            let j = choose|j: int| 0 <= j < without(s, r).len() && without(s, r)[j] == x;
            if !r.contains(s.last()) && j == w.len() {
                assert(s[s.len() - 1] == x);
            } else {
                assert(w[j] == x);
                let k = choose|k: int| 0 <= k < d.len() && d[k] == x;
                assert(s[k] == x);
            }
        }
    }
}

/// Nothing is taken out by an empty set.
pub proof fn lemma_without_empty(s: Seq<i32>)
    ensures
        without(s, Set::empty()) == s,
    decreases s.len(),
{
    if s.len() > 0 {
        lemma_without_empty(s.drop_last());
        assert(s.drop_last().push(s.last()) =~= s);
    }
}

/// Taking out `r1` and then `r2` is taking out both at once.
pub proof fn lemma_without_without(s: Seq<i32>, r1: Set<i32>, r2: Set<i32>)
    ensures
        without(without(s, r1), r2) == without(s, r1.union(r2)),
    decreases s.len(),
{
    if s.len() > 0 {
        let d = s.drop_last();
        lemma_without_without(d, r1, r2);
        let w = without(d, r1);
        if !r1.contains(s.last()) {
            assert(w.push(s.last()).drop_last() =~= w);
        }
    }
}

/// One more element of `s` extends `without` by that element, unless it is taken out.
pub proof fn lemma_without_take_next(s: Seq<i32>, r: Set<i32>, j: int)
    requires
        0 <= j < s.len(),
    ensures
        without(s.take(j + 1), r) == if r.contains(s[j]) {
            without(s.take(j), r)
        } else {
            without(s.take(j), r).push(s[j])
        },
{
    assert(s.take(j + 1).drop_last() =~= s.take(j));
}

/// The order of use survives taking ids out, for an id that is not taken out.
pub proof fn lemma_used_before_without(s: Seq<i32>, r: Set<i32>, a: i32, b: i32)
    requires
        used_before(without(s, r), a, b),
        !r.contains(b),
    ensures
        used_before(s, a, b),
    decreases s.len(),
{
    let t = without(s, r);
    let i = choose|i: int| 0 <= i < t.len() && t[i] == a && !(#[trigger] t.take(i)).contains(b);
    let d = s.drop_last();
    let w = without(d, r);
    if i < w.len() {
        assert(w.take(i) =~= t.take(i));
        assert(used_before(w, a, b));
        lemma_used_before_without(d, r, a, b);
        let k = choose|k: int| 0 <= k < d.len() && d[k] == a && !(#[trigger] d.take(k)).contains(b);
        assert(d.take(k) =~= s.take(k));
        assert(s[k] == a);
    } else {
        // `a` is the last element of `s`, kept by `without`
        assert(!r.contains(s.last()));
        assert(t.take(i) =~= w);
        lemma_without_contains(d, r, b);
        assert(s.take(s.len() - 1) =~= d);
        assert(s[s.len() - 1] == a);
    }
}

/// The set holding the id of `o`, if any.
pub open spec fn option_set(o: Option<i32>) -> Set<i32> {
    match o {
        Some(x) => set![x],
        None => Set::empty(),
    }
}

/// Taking ids out keeps a sequence free of repeats.
pub proof fn lemma_without_no_duplicates(s: Seq<i32>, r: Set<i32>)
    requires
        s.no_duplicates(),
    ensures
        without(s, r).no_duplicates(),
    decreases s.len(),
{
    if s.len() > 0 {
        let d = s.drop_last();
        assert(d.no_duplicates());
        lemma_without_no_duplicates(d, r);
        lemma_without_contains(d, r, s.last());
        assert(!d.contains(s.last())) by {
            if d.contains(s.last()) {
                let i = choose|i: int| 0 <= i < d.len() && d[i] == s.last();
                assert(s[i] == s[s.len() - 1]);
            }
        }
    }
}

/// `ids` without `x`, when there is one.
pub fn ids_without(ids: &Vec<i32>, x: Option<i32>) -> (r: Vec<i32>)
    ensures
        r@ == without(ids@, option_set(x)),
{
    let mut r: Vec<i32> = Vec::new();
    let n = ids.len();
    let mut j: usize = 0;
    while j < n
        invariant
            n == ids@.len(),
            j <= n,
            r@ == without(ids@.take(j as int), option_set(x)),
        decreases n - j,
    {
        let id = ids[j];
        proof {
            lemma_without_take_next(ids@, option_set(x), j as int);
        }
        let skip = match x {
            Some(a) => a == id,
            None => false,
        };
        if !skip {
            r.push(id);
        }
        j += 1;
    }
    assert(ids@.take(n as int) =~= ids@);
    r
}

} // verus!
