use vstd::prelude::*;

verus! {

/// Neither of `a` and `b` comes before the other.
pub open spec fn tied<T>(before: spec_fn(T, T) -> bool, a: T, b: T) -> bool {
    !before(a, b) && !before(b, a)
}

/// Whether an item is tied with `x`.
pub open spec fn tied_with<T>(before: spec_fn(T, T) -> bool, x: T) -> spec_fn(T) -> bool {
    |y: T| tied(before, y, x)
}

/// `before` is a strict weak order: it is irreflexive and transitive, and
/// being tied is transitive too. These are its consequences, one by one.
pub open spec fn is_strict_weak_order<T>(before: spec_fn(T, T) -> bool) -> bool {
    &&& forall|a: T| !#[trigger] before(a, a)
    &&& forall|a: T, b: T| #[trigger] before(a, b) ==> !before(b, a)
    &&& forall|a: T, b: T, c: T|
        #![trigger before(a, b), before(c, b), before(a, c)]
        before(a, b) && !before(c, b) ==> before(a, c)
    &&& forall|a: T, b: T, c: T|
        #![trigger before(b, a), before(b, c), before(a, c)]
        !before(b, a) && before(b, c) ==> before(a, c)
    &&& forall|a: T, b: T, c: T|
        #![trigger before(b, a), before(c, b), before(c, a)]
        !before(b, a) && !before(c, b) ==> !before(c, a)
}

/// The facts of a strict weak order, for three given items.
pub proof fn lemma_order_facts<T>(before: spec_fn(T, T) -> bool, a: T, b: T, c: T)
    requires
        is_strict_weak_order(before),
    ensures
        !before(a, a),
        before(a, b) ==> !before(b, a),
        before(a, b) && !before(c, b) ==> before(a, c),
        !before(b, a) && before(b, c) ==> before(a, c),
        !before(b, a) && !before(c, b) ==> !before(c, a),
{
}

/// No item of `s` comes before one that precedes it.
pub open spec fn sorted_by<T>(before: spec_fn(T, T) -> bool, s: Seq<T>) -> bool {
    forall|i: int, j: int| 0 <= i < j < s.len() ==> !before(#[trigger] s[j], #[trigger] s[i])
}

/// The items of `s` tied with `x`, in the order in which `s` has them.
pub open spec fn class_of<T>(before: spec_fn(T, T) -> bool, s: Seq<T>, x: T) -> Seq<T> {
    s.filter(tied_with(before, x))
}

/// `sorted` holds the items of `given` in the order `before`, tied items in
/// the order `given` had them: the result of a stable sort.
pub open spec fn is_stable_sort_of<T>(
    before: spec_fn(T, T) -> bool,
    sorted: Seq<T>,
    given: Seq<T>,
) -> bool {
    &&& sorted.len() == given.len()
    &&& sorted_by(before, sorted)
    &&& forall|x: T| #[trigger] class_of(before, sorted, x) == class_of(before, given, x)
}

pub proof fn lemma_filter_none<T>(s: Seq<T>, pred: spec_fn(T) -> bool)
    requires
        forall|i: int| 0 <= i < s.len() ==> !pred(#[trigger] s[i]),
    ensures
        s.filter(pred) == Seq::<T>::empty(),
    decreases s.len(),
{
    reveal(Seq::filter);
    if s.len() > 0 {
        lemma_filter_none(s.drop_last(), pred);
    }
}

pub proof fn lemma_filter_single<T>(x: T, pred: spec_fn(T) -> bool)
    ensures
        seq![x].filter(pred) == (if pred(x) {
            seq![x]
        } else {
            Seq::empty()
        }),
{
    reveal(Seq::filter);
    assert(seq![x].drop_last() =~= Seq::<T>::empty());
    assert(Seq::<T>::empty().filter(pred) =~= Seq::<T>::empty());
    assert(seq![x].last() == x);
    if pred(x) {
        assert(seq![x].filter(pred) =~= Seq::<T>::empty().push(x));
    }
}

/// The items in the order `before`, tied items keeping their order: a stable
/// insertion sort, where `lt` computes `before`.
pub fn stable_sort<T>(
    given: Vec<T>,
    Ghost(before): Ghost<spec_fn(T, T) -> bool>,
    lt: impl Fn(&T, &T) -> bool,
) -> (sorted: Vec<T>)
    requires
        is_strict_weak_order(before),
        forall|a: &T, b: &T| #[trigger] lt.requires((a, b)),
        forall|a: &T, b: &T, r: bool| lt.ensures((a, b), r) ==> r == before(*a, *b),
    ensures
        is_stable_sort_of(before, sorted@, given@),
{
    let ghost s = given@;
    let mut rest = given;
    let mut out: Vec<T> = Vec::new();
    proof {
        assert(s.skip(s.len() as int) =~= Seq::<T>::empty());
        assert(s.take(s.len() as int) =~= s);
    }
    while rest.len() > 0
        invariant
            is_strict_weak_order(before),
            forall|a: &T, b: &T| #[trigger] lt.requires((a, b)),
            forall|a: &T, b: &T, r: bool| lt.ensures((a, b), r) ==> r == before(*a, *b),
            rest@ == s.take(rest@.len() as int),
            rest@.len() <= s.len(),
            out@.len() + rest@.len() == s.len(),
            sorted_by(before, out@),
            forall|c: T|
                #[trigger] class_of(before, out@, c) == class_of(
                    before,
                    s.skip(rest@.len() as int),
                    c,
                ),
        decreases rest.len(),
    {
        let ghost m = rest@.len() as int;
        let ghost old_out = out@;
        let x = rest.pop().unwrap();
        proof {
            assert(x == s[m - 1]);
            assert(rest@ =~= s.take(m - 1));
            assert(s.skip(m - 1) =~= seq![x] + s.skip(m));
        }
        let mut p: usize = 0;
        while p < out.len() && lt(&out[p], &x)
            invariant
                forall|a: &T, b: &T| #[trigger] lt.requires((a, b)),
                forall|a: &T, b: &T, r: bool| lt.ensures((a, b), r) ==> r == before(*a, *b),
                out@ == old_out,
                p <= out@.len(),
                forall|k: int| 0 <= k < p ==> before(#[trigger] out@[k], x),
            decreases out.len() - p,
        {
            p = p + 1;
        }
        proof {
            assert forall|k: int| p <= k < old_out.len() implies !before(#[trigger] old_out[k], x) by {
                lemma_order_facts(before, old_out[p as int], old_out[k], x);
            }
        }
        out.insert(p, x);
        proof {
            let new_out = out@;
            assert(new_out =~= old_out.take(p as int) + seq![x] + old_out.skip(p as int));
            assert(old_out =~= old_out.take(p as int) + old_out.skip(p as int));
            assert forall|i: int, j: int| 0 <= i < j < new_out.len() implies !before(
                #[trigger] new_out[j],
                #[trigger] new_out[i],
            ) by {
                if j < p {
                } else if j == p {
                    lemma_order_facts(before, new_out[i], x, x);
                } else if i == p {
                } else if i < p {
                    assert(new_out[j] == old_out[j - 1]);
                } else {
                    assert(new_out[j] == old_out[j - 1]);
                    assert(new_out[i] == old_out[i - 1]);
                }
            }
            assert forall|c: T| #[trigger]
                class_of(before, new_out, c) == class_of(before, s.skip(m - 1), c) by {
                let pred = tied_with(before, c);
                let front = old_out.take(p as int);
                let back = old_out.skip(p as int);
                Seq::filter_distributes_over_add(front + seq![x], back, pred);
                Seq::filter_distributes_over_add(front, seq![x], pred);
                Seq::filter_distributes_over_add(front, back, pred);
                Seq::filter_distributes_over_add(seq![x], s.skip(m), pred);
                lemma_filter_single(x, pred);
                assert(class_of(before, old_out, c) == class_of(before, s.skip(m), c));
                if pred(x) {
                    assert forall|i: int| 0 <= i < front.len() implies !pred(#[trigger] front[i]) by {
                        lemma_order_facts(before, front[i], x, c);
                        lemma_order_facts(before, c, x, front[i]);
                    }
                    lemma_filter_none(front, pred);
                    assert(front.filter(pred) + back.filter(pred) =~= back.filter(pred));
                    assert(class_of(before, new_out, c) =~= seq![x] + back.filter(pred));
                } else {
                    assert(class_of(before, new_out, c) =~= front.filter(pred) + back.filter(pred));
                }
            }
        }
    }
    proof {
        assert(s.skip(0) =~= s);
    }
    out
}

proof fn lemma_class_prepend<T>(before: spec_fn(T, T) -> bool, s: Seq<T>, x: T)
    requires
        s.len() > 0,
    ensures
        class_of(before, s, x) == (if tied(before, s[0], x) {
            seq![s[0]]
        } else {
            Seq::empty()
        }) + class_of(before, s.drop_first(), x),
{
    assert(s =~= seq![s[0]] + s.drop_first());
    s.drop_first().lemma_filter_prepend(s[0], tied_with(before, x));
}

proof fn lemma_in_class<T>(before: spec_fn(T, T) -> bool, s: Seq<T>, i: int)
    requires
        is_strict_weak_order(before),
        0 <= i < s.len(),
    ensures
        class_of(before, s, s[i]).contains(s[i]),
{
    lemma_order_facts(before, s[i], s[i], s[i]);
    s.lemma_filter_contains(tied_with(before, s[i]), i);
}

/// Two sequences in the order `before` whose tied items come in the same
/// order are the same: a stable sort has one result.
pub proof fn law_stable_sort_is_unique<T>(before: spec_fn(T, T) -> bool, s1: Seq<T>, s2: Seq<T>)
    requires
        is_strict_weak_order(before),
        sorted_by(before, s1),
        sorted_by(before, s2),
        forall|x: T| #[trigger] class_of(before, s1, x) == class_of(before, s2, x),
    ensures
        s1 == s2,
    decreases s1.len(),
{
    if s1.len() == 0 || s2.len() == 0 {
        if s1.len() > 0 {
            lemma_in_class(before, s1, 0);
            assert(class_of(before, s1, s1[0]) == class_of(before, s2, s1[0]));
            assert(class_of(before, s2, s1[0]) =~= Seq::<T>::empty()) by {
                reveal(Seq::filter);
            }
        }
        if s2.len() > 0 {
            lemma_in_class(before, s2, 0);
            assert(class_of(before, s1, s2[0]) == class_of(before, s2, s2[0]));
            assert(class_of(before, s1, s2[0]) =~= Seq::<T>::empty()) by {
                reveal(Seq::filter);
            }
        }
        assert(s1 =~= s2);
    } else {
        let a = s1[0];
        let b = s2[0];
        // Neither head comes before the other.
        lemma_in_class(before, s1, 0);
        lemma_in_class(before, s2, 0);
        assert(class_of(before, s1, a) == class_of(before, s2, a));
        assert(class_of(before, s1, b) == class_of(before, s2, b));
        s2.lemma_filter_contains_rev(tied_with(before, a), a);
        s1.lemma_filter_contains_rev(tied_with(before, b), b);
        let k2 = choose|k: int| 0 <= k < s2.len() && s2[k] == a;
        let k1 = choose|k: int| 0 <= k < s1.len() && s1[k] == b;
        assert(!before(a, b)) by {
            if k2 > 0 {
                assert(!before(s2[k2], s2[0]));
            }
            lemma_order_facts(before, a, a, a);
        }
        assert(!before(b, a)) by {
            if k1 > 0 {
                assert(!before(s1[k1], s1[0]));
            }
            lemma_order_facts(before, b, b, b);
        }
        // So both classes of `a` start with the heads.
        lemma_class_prepend(before, s1, a);
        lemma_class_prepend(before, s2, a);
        lemma_order_facts(before, a, a, a);
        assert(class_of(before, s1, a)[0] == a);
        assert(class_of(before, s2, a)[0] == b);
        assert(a == b);
        assert forall|x: T| #[trigger]
            class_of(before, s1.drop_first(), x) == class_of(before, s2.drop_first(), x) by {
            lemma_class_prepend(before, s1, x);
            lemma_class_prepend(before, s2, x);
            if tied(before, a, x) {
                assert(class_of(before, s1.drop_first(), x) =~= class_of(before, s1, x).drop_first());
                assert(class_of(before, s2.drop_first(), x) =~= class_of(before, s2, x).drop_first());
            } else {
                assert(class_of(before, s1.drop_first(), x) =~= class_of(before, s1, x));
                assert(class_of(before, s2.drop_first(), x) =~= class_of(before, s2, x));
            }
        }
        assert forall|i: int, j: int| 0 <= i < j < s1.drop_first().len() implies !before(
            #[trigger] s1.drop_first()[j],
            #[trigger] s1.drop_first()[i],
        ) by {
            assert(s1.drop_first()[j] == s1[j + 1]);
            assert(s1.drop_first()[i] == s1[i + 1]);
        }
        assert forall|i: int, j: int| 0 <= i < j < s2.drop_first().len() implies !before(
            #[trigger] s2.drop_first()[j],
            #[trigger] s2.drop_first()[i],
        ) by {
            assert(s2.drop_first()[j] == s2[j + 1]);
            assert(s2.drop_first()[i] == s2[i + 1]);
        }
        law_stable_sort_is_unique(before, s1.drop_first(), s2.drop_first());
        assert(s1 =~= seq![a] + s1.drop_first());
        assert(s2 =~= seq![b] + s2.drop_first());
    }
}

/// A stable sort loses no item and invents none.
pub proof fn law_stable_sort_keeps_the_items<T>(
    before: spec_fn(T, T) -> bool,
    sorted: Seq<T>,
    given: Seq<T>,
    x: T,
)
    requires
        is_strict_weak_order(before),
        forall|y: T| #[trigger] class_of(before, sorted, y) == class_of(before, given, y),
    ensures
        sorted.contains(x) <==> given.contains(x),
{
    if given.contains(x) {
        let i = choose|i: int| 0 <= i < given.len() && given[i] == x;
        lemma_in_class(before, given, i);
        assert(class_of(before, sorted, x).contains(x));
        sorted.lemma_filter_contains_rev(tied_with(before, x), x);
    }
    if sorted.contains(x) {
        let i = choose|i: int| 0 <= i < sorted.len() && sorted[i] == x;
        lemma_in_class(before, sorted, i);
        assert(class_of(before, given, x).contains(x));
        given.lemma_filter_contains_rev(tied_with(before, x), x);
    }
}

/// `f` lists, in rising order, exactly the positions of the items of `s` that
/// `pred` holds of.
pub open spec fn lists_positions<A>(f: Seq<int>, s: Seq<A>, pred: spec_fn(A) -> bool) -> bool {
    &&& forall|k: int| 0 <= k < f.len() ==> 0 <= #[trigger] f[k] < s.len() && pred(s[f[k]])
    &&& forall|k: int, l: int| 0 <= k < l < f.len() ==> #[trigger] f[k] < #[trigger] f[l]
    &&& forall|i: int|
        0 <= i < s.len() && pred(#[trigger] s[i]) ==> exists|k: int| 0 <= k < f.len() && f[k] == i
}

/// What `filter` keeps are the items at the positions that `pred` holds of,
/// in their order.
pub proof fn lemma_filter_positions<A>(s: Seq<A>, pred: spec_fn(A) -> bool) -> (f: Seq<int>)
    ensures
        lists_positions(f, s, pred),
        f.len() == s.filter(pred).len(),
        forall|k: int| 0 <= k < f.len() ==> #[trigger] s.filter(pred)[k] == s[f[k]],
    decreases s.len(),
{
    reveal(Seq::filter);
    if s.len() == 0 {
        Seq::empty()
    } else {
        let prev = s.drop_last();
        let g = lemma_filter_positions(prev, pred);
        let n = s.len() - 1;
        if pred(s.last()) {
            let f = g.push(n);
            assert forall|i: int| 0 <= i < s.len() && pred(#[trigger] s[i]) implies exists|k: int|
                0 <= k < f.len() && f[k] == i by {
                if i == n {
                    assert(f[f.len() - 1] == i);
                } else {
                    assert(prev[i] == s[i]);
                    let k = choose|k: int| 0 <= k < g.len() && g[k] == i;
                    assert(f[k] == i);
                }
            }
            assert forall|k: int| 0 <= k < f.len() implies #[trigger] s.filter(pred)[k] == s[f[k]] by {
                if k < g.len() {
                    assert(prev.filter(pred)[k] == prev[g[k]]);
                }
            }
            f
        } else {
            assert forall|i: int| 0 <= i < s.len() && pred(#[trigger] s[i]) implies exists|k: int|
                0 <= k < g.len() && g[k] == i by {
                assert(i != n);
                assert(prev[i] == s[i]);
            }
            assert forall|k: int| 0 <= k < g.len() implies #[trigger] s.filter(pred)[k] == s[g[k]] by {
                assert(prev.filter(pred)[k] == prev[g[k]]);
            }
            g
        }
    }
}

} // verus!
