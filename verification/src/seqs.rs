//! Sequence combinators used to state what the response readers return.
use vstd::prelude::*;

verus! {

/// The first `n` elements of `s`, or all of them when there are fewer.
pub open spec fn take_at_most<T>(s: Seq<T>, n: nat) -> Seq<T> {
    if s.len() <= n {
        s
    } else {
        s.take(n as int)
    }
}

pub proof fn lemma_take_at_most_push<T>(a: Seq<T>, x: Seq<T>, n: nat)
    requires
        x.len() <= 1,
    ensures
        take_at_most(a + x, n) == (if take_at_most(a, n).len() < n {
            take_at_most(a, n) + x
        } else {
            take_at_most(a, n)
        }),
{
    if a.len() >= n {
        assert((a + x).take(n as int) =~= a.take(n as int));
    } else if a.len() + x.len() > n {
        assert((a + x).take(n as int) =~= a + x);
    }
}

pub proof fn lemma_take_at_most_full<T>(a: Seq<T>, b: Seq<T>, n: nat)
    requires
        take_at_most(a, n).len() >= n,
    ensures
        take_at_most(a + b, n) == take_at_most(a, n),
{
    assert((a + b).take(n as int) =~= a.take(n as int));
}

/// `f` applied to every element, the results concatenated.
pub open spec fn flat_map<A, B>(s: Seq<A>, f: spec_fn(A) -> Seq<B>) -> Seq<B>
    decreases s.len(),
{
    if s.len() == 0 {
        Seq::empty()
    } else {
        flat_map(s.drop_last(), f) + f(s.last())
    }
}

pub proof fn lemma_flat_map_step<A, B>(s: Seq<A>, f: spec_fn(A) -> Seq<B>, i: int)
    requires
        0 <= i < s.len(),
    ensures
        flat_map(s.take(i + 1), f) == flat_map(s.take(i), f) + f(s[i]),
{
    assert(s.take(i + 1).drop_last() =~= s.take(i));
    assert(s.take(i + 1).last() == s[i]);
}

/// What holds of everything each element maps to holds of the whole result.
pub proof fn lemma_flat_map_forall<A, B>(s: Seq<A>, f: spec_fn(A) -> Seq<B>, p: spec_fn(B) -> bool)
    requires
        forall|i: int, k: int| 0 <= i < s.len() && 0 <= k < f(s[i]).len() ==> p(#[trigger] f(s[i])[k]),
    ensures
        forall|k: int| 0 <= k < flat_map(s, f).len() ==> p(#[trigger] flat_map(s, f)[k]),
    decreases s.len(),
{
    if s.len() > 0 {
        let d = s.drop_last();
        assert forall|i: int, k: int| 0 <= i < d.len() && 0 <= k < f(d[i]).len() implies p(#[trigger] f(d[i])[k]) by {
            assert(d[i] == s[i]);
        }
        lemma_flat_map_forall(d, f, p);
        let a = flat_map(d, f);
        let b = f(s.last());
        assert forall|k: int| 0 <= k < flat_map(s, f).len() implies p(#[trigger] flat_map(s, f)[k]) by {
            if k < a.len() {
                assert(flat_map(s, f)[k] == a[k]);
            } else {
                assert(flat_map(s, f)[k] == b[k - a.len()]);
                assert(s.last() == s[s.len() - 1]);
            }
        }
    }
}

/// What holds of every element holds of the first `n`.
pub proof fn lemma_take_at_most_forall<T>(s: Seq<T>, n: nat, p: spec_fn(T) -> bool)
    requires
        forall|k: int| 0 <= k < s.len() ==> p(#[trigger] s[k]),
    ensures
        forall|k: int| 0 <= k < take_at_most(s, n).len() ==> p(#[trigger] take_at_most(s, n)[k]),
{
    assert forall|k: int| 0 <= k < take_at_most(s, n).len() implies p(#[trigger] take_at_most(s, n)[k]) by {
        assert(take_at_most(s, n)[k] == s[k]);
    }
}

pub proof fn lemma_flat_map_all<A, B>(s: Seq<A>, f: spec_fn(A) -> Seq<B>)
    ensures
        flat_map(s.take(s.len() as int), f) == flat_map(s, f),
        flat_map(s.take(0), f) == Seq::<B>::empty(),
{
    assert(s.take(s.len() as int) =~= s);
    assert(s.take(0).len() == 0);
}

pub proof fn lemma_flat_map_cons<A, B>(s: Seq<A>, f: spec_fn(A) -> Seq<B>)
    requires
        s.len() > 0,
    ensures
        flat_map(s, f) == f(s[0]) + flat_map(s.drop_first(), f),
    decreases s.len(),
{
    if s.len() == 1 {
        assert(s.drop_last().len() == 0);
        assert(s.drop_first().len() == 0);
        assert(flat_map(s.drop_last(), f) == Seq::<B>::empty());
        assert(flat_map(s.drop_first(), f) == Seq::<B>::empty());
        assert(s.last() == s[0]);
        assert(Seq::<B>::empty() + f(s[0]) =~= f(s[0]) + Seq::<B>::empty());
    } else {
        lemma_flat_map_cons(s.drop_last(), f);
        assert(s.drop_last().drop_first() =~= s.drop_first().drop_last());
        assert(s.drop_first().last() == s.last());
        assert(s.drop_last()[0] == s[0]);
        assert(f(s[0]) + flat_map(s.drop_first().drop_last(), f) + f(s.last()) =~= f(s[0]) + (
        flat_map(s.drop_first().drop_last(), f) + f(s.last())));
    }
}

pub proof fn lemma_flat_map_split<A, B>(s: Seq<A>, f: spec_fn(A) -> Seq<B>, i: int)
    requires
        0 <= i <= s.len(),
    ensures
        flat_map(s, f) == flat_map(s.take(i), f) + flat_map(s.skip(i), f),
    decreases s.len() - i,
{
    if i == s.len() {
        assert(s.take(i) =~= s);
        assert(s.skip(i).len() == 0);
        assert(flat_map(s, f) + Seq::<B>::empty() =~= flat_map(s, f));
    } else {
        lemma_flat_map_split(s, f, i + 1);
        lemma_flat_map_step(s, f, i);
        lemma_flat_map_cons(s.skip(i), f);
        assert(s.skip(i).drop_first() =~= s.skip(i + 1));
        assert(s.skip(i)[0] == s[i]);
        assert(flat_map(s.take(i), f) + f(s[i]) + flat_map(s.skip(i + 1), f) =~= flat_map(
            s.take(i),
            f,
        ) + (f(s[i]) + flat_map(s.skip(i + 1), f)));
    }
}

/// Every element that an element of `s` maps to occurs in the result, after
/// what the earlier elements map to.
pub proof fn lemma_flat_map_contains<A, B>(s: Seq<A>, f: spec_fn(A) -> Seq<B>, a: int, k: int)
    requires
        0 <= a < s.len(),
        0 <= k < f(s[a]).len(),
    ensures
        flat_map(s.take(a), f).len() + k < flat_map(s, f).len(),
        flat_map(s, f)[flat_map(s.take(a), f).len() + k] == f(s[a])[k],
{
    lemma_flat_map_split(s, f, a);
    lemma_flat_map_cons(s.skip(a), f);
    assert(s.skip(a)[0] == s[a]);
    let pre = flat_map(s.take(a), f);
    let whole = flat_map(s, f);
    assert(whole == pre + (f(s[a]) + flat_map(s.skip(a).drop_first(), f)));
    assert(whole[pre.len() + k] == f(s[a])[k]);
}

/// After `a` has reached `n` elements, what follows it no longer matters.
pub proof fn lemma_take_at_most_flat_rest<A, B>(
    prefix: Seq<B>,
    s: Seq<A>,
    f: spec_fn(A) -> Seq<B>,
    i: int,
    n: nat,
)
    requires
        0 <= i <= s.len(),
        take_at_most(prefix + flat_map(s.take(i), f), n).len() >= n,
    ensures
        take_at_most(prefix + flat_map(s, f), n) == take_at_most(prefix + flat_map(s.take(i), f), n),
{
    lemma_flat_map_split(s, f, i);
    lemma_take_at_most_full(prefix + flat_map(s.take(i), f), flat_map(s.skip(i), f), n);
    assert(prefix + flat_map(s, f) =~= prefix + flat_map(s.take(i), f) + flat_map(s.skip(i), f));
}

/// The last element for which `f` gives something, mapped by `f`.
pub open spec fn last_some<A, B>(s: Seq<A>, f: spec_fn(A) -> Option<B>) -> Option<B>
    decreases s.len(),
{
    if s.len() == 0 {
        None
    } else {
        match f(s.last()) {
            Some(b) => Some(b),
            None => last_some(s.drop_last(), f),
        }
    }
}

pub proof fn lemma_last_some_step<A, B>(s: Seq<A>, f: spec_fn(A) -> Option<B>, i: int)
    requires
        0 <= i < s.len(),
    ensures
        last_some(s.take(i + 1), f) == (match f(s[i]) {
            Some(b) => Some(b),
            None => last_some(s.take(i), f),
        }),
{
    assert(s.take(i + 1).drop_last() =~= s.take(i));
    assert(s.take(i + 1).last() == s[i]);
}

/// The first element for which `f` gives something, mapped by `f`.
pub open spec fn first_some<A, B>(s: Seq<A>, f: spec_fn(A) -> Option<B>) -> Option<B>
    decreases s.len(),
{
    if s.len() == 0 {
        None
    } else {
        match f(s[0]) {
            Some(b) => Some(b),
            None => first_some(s.drop_first(), f),
        }
    }
}

pub proof fn lemma_first_some_skip<A, B>(s: Seq<A>, f: spec_fn(A) -> Option<B>, i: int)
    requires
        0 <= i < s.len(),
    ensures
        first_some(s.skip(i), f) == (match f(s[i]) {
            Some(b) => Some(b),
            None => first_some(s.skip(i + 1), f),
        }),
{
    assert(s.skip(i)[0] == s[i]);
    assert(s.skip(i).drop_first() =~= s.skip(i + 1));
}

/// The result of `last_some` is what `f` gives for the last element for which
/// it gives something.
pub proof fn lemma_last_some_spec<A, B>(s: Seq<A>, f: spec_fn(A) -> Option<B>)
    ensures
        last_some(s, f) matches Some(x) ==> exists|b: int| 0 <= b < s.len() && #[trigger] f(s[b]) == Some(x)
            && forall|c: int| b < c < s.len() ==> (#[trigger] f(s[c])) is None,
        last_some(s, f) is None ==> forall|c: int| 0 <= c < s.len() ==> (#[trigger] f(s[c])) is None,
    decreases s.len(),
{
    if s.len() > 0 {
        let d = s.drop_last();
        lemma_last_some_spec(d, f);
        let l = s.len() - 1;
        assert(s.last() == s[l]);
        assert forall|c: int| 0 <= c < d.len() implies #[trigger] d[c] == s[c] by {}
        match f(s[l]) {
            Some(x) => {
                assert(f(s[l]) == Some(x));
            },
            None => {
                match last_some(d, f) {
                    Some(x) => {
                        let b = choose|b: int| 0 <= b < d.len() && #[trigger] f(d[b]) == Some(x)
                            && forall|c: int| b < c < d.len() ==> (#[trigger] f(d[c])) is None;
                        assert(f(s[b]) == Some(x));
                        assert forall|c: int| b < c < s.len() implies (#[trigger] f(s[c])) is None by {
                            if c < d.len() {
                                assert(f(d[c]) is None);
                            }
                        }
                    },
                    None => {
                        assert forall|c: int| 0 <= c < s.len() implies (#[trigger] f(s[c])) is None by {
                            if c < d.len() {
                                assert(f(d[c]) is None);
                            }
                        }
                    },
                }
            },
        }
    }
}

} // verus!
