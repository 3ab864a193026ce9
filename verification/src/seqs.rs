//! First matches and stable sorting.

use vstd::prelude::*;

verus! {

/// Whether `i` is the first place at which `p` holds.
pub open spec fn is_first<A>(s: Seq<A>, p: spec_fn(A) -> bool, i: int) -> bool {
    &&& 0 <= i < s.len()
    &&& p(s[i])
    &&& forall|j: int| 0 <= j < i ==> !p(#[trigger] s[j])
}

/// The first place at which `p` holds, if there is one.
pub open spec fn first_where<A>(s: Seq<A>, p: spec_fn(A) -> bool) -> Option<int> {
    if exists|i: int| is_first(s, p, i) {
        Some(choose|i: int| is_first(s, p, i))
    } else {
        None
    }
}

/// The first place is the one found.
pub proof fn lemma_first<A>(s: Seq<A>, p: spec_fn(A) -> bool, i: int)
    requires
        is_first(s, p, i),
    ensures
        first_where(s, p) == Some(i),
{
    let c = choose|i: int| is_first(s, p, i);
    assert(is_first(s, p, c));
    if c < i {
        assert(!p(s[c]));
    }
    if i < c {
        assert(!p(s[i]));
    }
}

/// What [`first_where`] finds.
pub proof fn lemma_first_where<A>(s: Seq<A>, p: spec_fn(A) -> bool)
    ensures
        match first_where(s, p) {
            Some(i) => is_first(s, p, i),
            None => forall|i: int| 0 <= i < s.len() ==> !p(#[trigger] s[i]),
        },
{
    if first_where(s, p) is None {
        assert forall|i: int| 0 <= i < s.len() implies !p(#[trigger] s[i]) by {
            if p(s[i]) {
                lemma_some_first(s, p, i);
            }
        }
    }
}

proof fn lemma_some_first<A>(s: Seq<A>, p: spec_fn(A) -> bool, i: int)
    requires
        0 <= i < s.len(),
        p(s[i]),
    ensures
        exists|j: int| is_first(s, p, j),
    decreases i,
{
    if exists|k: int| 0 <= k < i && p(#[trigger] s[k]) {
        let k = choose|k: int| 0 <= k < i && p(#[trigger] s[k]);
        lemma_some_first(s, p, k);
    } else {
        assert(is_first(s, p, i));
    }
}

/// Nothing is found where `p` holds nowhere.
pub proof fn lemma_no_first<A>(s: Seq<A>, p: spec_fn(A) -> bool)
    requires
        forall|i: int| 0 <= i < s.len() ==> !p(#[trigger] s[i]),
    ensures
        first_where(s, p) is None,
{
}

/// `x` put into `s` from the back, before what is greater and behind the rest.
pub open spec fn place<A>(s: Seq<A>, x: A, less: spec_fn(A, A) -> bool) -> Seq<A>
    decreases s.len(),
{
    if s.len() > 0 && less(x, s.last()) {
        place(s.drop_last(), x, less).push(s.last())
    } else {
        s.push(x)
    }
}

/// `s` in order, equals in the order in which they stood.
pub open spec fn sorted<A>(s: Seq<A>, less: spec_fn(A, A) -> bool) -> Seq<A>
    decreases s.len(),
{
    if s.len() == 0 {
        s
    } else {
        place(sorted(s.drop_last(), less), s.last(), less)
    }
}

/// Whether no item is less than one before it.
pub open spec fn in_order<A>(s: Seq<A>, less: spec_fn(A, A) -> bool) -> bool {
    forall|i: int, j: int| 0 <= i < j < s.len() ==> !less(#[trigger] s[j], #[trigger] s[i])
}

/// What sorting needs of an order: an item that is not less than a second, which is not
/// less than a third, is not less than the third; and of two items at most one is less.
pub open spec fn orders<A>(less: spec_fn(A, A) -> bool) -> bool {
    &&& forall|a: A, b: A| #[trigger] less(a, b) ==> !less(b, a)
    &&& forall|a: A, b: A, c: A| !#[trigger] less(a, b) && !#[trigger] less(b, c) ==> !less(a, c)
}

proof fn lemma_place<A>(s: Seq<A>, x: A, less: spec_fn(A, A) -> bool)
    requires
        orders(less),
        in_order(s, less),
    ensures
        in_order(place(s, x, less), less),
        place(s, x, less).len() == s.len() + 1,
        place(s, x, less).to_multiset() == s.to_multiset().insert(x),
        forall|i: int|
            0 <= i < place(s, x, less).len() ==> (#[trigger] place(s, x, less)[i]) == x || s.contains(
                place(s, x, less)[i],
            ),
    decreases s.len(),
{
    broadcast use vstd::seq_lib::to_multiset_build;

    if s.len() > 0 && less(x, s.last()) {
        let rest = s.drop_last();
        let placed = place(rest, x, less);
        assert(in_order(rest, less)) by {
            assert forall|i: int, j: int| 0 <= i < j < rest.len() implies !less(#[trigger] rest[j], #[trigger] rest[i]) by {
                assert(!less(s[j], s[i]));
            }
        }
        lemma_place(rest, x, less);
        let r = placed.push(s.last());
        assert(s =~= rest.push(s.last()));
        assert forall|i: int| 0 <= i < r.len() implies (#[trigger] r[i]) == x || s.contains(r[i]) by {
            if i < placed.len() {
                assert(placed[i] == x || rest.contains(placed[i]));
                if rest.contains(placed[i]) {
                    let k = rest.index_of(placed[i]);
                    assert(s[k] == r[i]);
                }
            } else {
                assert(s[s.len() - 1] == r[i]);
            }
        }
        assert forall|i: int, j: int| 0 <= i < j < r.len() implies !less(#[trigger] r[j], #[trigger] r[i]) by {
            if j < placed.len() {
                assert(!less(placed[j], placed[i]));
            } else {
                assert(placed[i] == x || rest.contains(placed[i]));
                if rest.contains(placed[i]) {
                    let k = rest.index_of(placed[i]);
                    assert(s[k] == r[i]);
                    assert(!less(s[s.len() - 1], s[k]));
                }
            }
        }
        assert(rest.to_multiset().insert(x).insert(s.last()) =~= rest.to_multiset().insert(s.last()).insert(x));
    } else {
        let r = s.push(x);
        assert forall|i: int, j: int| 0 <= i < j < r.len() implies !less(#[trigger] r[j], #[trigger] r[i]) by {
            if j < s.len() {
                assert(!less(s[j], s[i]));
            } else {
                assert(!less(x, s.last()));
                if i < s.len() - 1 {
                    assert(!less(s[s.len() - 1], s[i]));
                }
            }
        }
        assert forall|i: int| 0 <= i < r.len() implies (#[trigger] r[i]) == x || s.contains(r[i]) by {
            if i < s.len() {
                assert(s[i] == r[i]);
            }
        }
    }
}

/// Sorting puts the items in order and neither loses nor adds any.
pub proof fn law_sorting_orders<A>(s: Seq<A>, less: spec_fn(A, A) -> bool)
    requires
        orders(less),
    ensures
        in_order(sorted(s, less), less),
        sorted(s, less).to_multiset() == s.to_multiset(),
        sorted(s, less).len() == s.len(),
    decreases s.len(),
{
    broadcast use vstd::seq_lib::to_multiset_build;

    if s.len() > 0 {
        law_sorting_orders(s.drop_last(), less);
        lemma_place(sorted(s.drop_last(), less), s.last(), less);
        assert(s =~= s.drop_last().push(s.last()));
    }
}

/// Sorting leaves alone what is in order: equals stay as they stood.
pub proof fn law_what_is_in_order_stays<A>(s: Seq<A>, less: spec_fn(A, A) -> bool)
    requires
        in_order(s, less),
    ensures
        sorted(s, less) == s,
    decreases s.len(),
{
    if s.len() > 0 {
        let rest = s.drop_last();
        assert forall|i: int, j: int| 0 <= i < j < rest.len() implies !less(#[trigger] rest[j], #[trigger] rest[i]) by {
            assert(!less(s[j], s[i]));
        }
        law_what_is_in_order_stays(rest, less);
        if rest.len() > 0 {
            assert(!less(s[s.len() - 1], s[s.len() - 2]));
        }
        assert(rest.push(s.last()) =~= s);
    }
}

proof fn lemma_place_at<A>(s: Seq<A>, x: A, less: spec_fn(A, A) -> bool, k: int)
    requires
        0 <= k <= s.len(),
        forall|i: int| k <= i < s.len() ==> less(x, #[trigger] s[i]),
        k > 0 ==> !less(x, s[k - 1]),
    ensures
        place(s, x, less) == s.insert(k, x),
    decreases s.len(),
{
    if k < s.len() {
        assert(less(x, s[s.len() - 1]));
        let rest = s.drop_last();
        assert forall|i: int| k <= i < rest.len() implies less(x, #[trigger] rest[i]) by {
            assert(less(x, s[i]));
        }
        lemma_place_at(rest, x, less, k);
        assert(rest.insert(k, x).push(s.last()) =~= s.insert(k, x));
    } else {
        assert(s.push(x) =~= s.insert(k, x));
    }
}

/// Put items in order, equals in the order in which they stood. `is_less` is told by
/// `less` on the models of the items.
pub fn sort<T: DeepView, F: Fn(&T, &T) -> bool>(
    items: Vec<T>,
    is_less: F,
    Ghost(less): Ghost<spec_fn(<T as DeepView>::V, <T as DeepView>::V) -> bool>,
) -> (r: Vec<T>)
    requires
        forall|a: &T, b: &T| #[trigger] is_less.requires((a, b)),
        forall|a: &T, b: &T, c: bool| #[trigger]
            is_less.ensures((a, b), c) ==> c == less(a.deep_view(), b.deep_view()),
    ensures
        r.deep_view() == sorted(items.deep_view(), less),
{
    let mut rest = items;
    let mut out: Vec<T> = Vec::new();
    let ghost all = items.deep_view();
    let ghost mut done: int = 0;
    assert(rest.deep_view() =~= all.skip(0));
    assert(out.deep_view() =~= sorted(all.take(0), less));
    while rest.len() > 0
        invariant
            forall|a: &T, b: &T| #[trigger] is_less.requires((a, b)),
            forall|a: &T, b: &T, c: bool| #[trigger]
                is_less.ensures((a, b), c) ==> c == less(a.deep_view(), b.deep_view()),
            0 <= done <= all.len(),
            rest.deep_view() == all.skip(done),
            out.deep_view() == sorted(all.take(done), less),
        decreases rest.len(),
    {
        let ghost before = rest.deep_view();
        assert(before.len() == rest.len());
        let x = rest.remove(0);
        proof {
            assert(x.deep_view() == before[0]);
            assert(before[0] == all[done]);
            assert forall|i: int| 0 <= i < rest.len() implies rest.deep_view()[i] == #[trigger] all.skip(done + 1)[i] by {
                assert(rest.deep_view()[i] == before[i + 1]);
                assert(before[i + 1] == all[done + 1 + i]);
            }
            assert(rest.deep_view() =~= all.skip(done + 1));
        }
        let ghost model = x.deep_view();
        let ghost placed = out.deep_view();
        let mut k: usize = out.len();
        while k > 0 && is_less(&x, &out[k - 1])
            invariant
                forall|a: &T, b: &T| #[trigger] is_less.requires((a, b)),
                forall|a: &T, b: &T, c: bool| #[trigger]
                    is_less.ensures((a, b), c) ==> c == less(a.deep_view(), b.deep_view()),
                k <= out.len(),
                placed == out.deep_view(),
                x.deep_view() == model,
                forall|i: int| k <= i < out.len() ==> less(model, #[trigger] placed[i]),
            ensures
                k > 0 ==> !less(model, placed[k - 1]),
            decreases k,
        {
            k -= 1;
        }
        proof {
            lemma_place_at(placed, model, less, k as int);
        }
        out.insert(k, x);
        proof {
            assert(out.deep_view() =~= placed.insert(k as int, model));
            assert(all.take(done + 1).drop_last() =~= all.take(done));
            done = done + 1;
        }
    }
    assert(all.take(done) =~= all);
    out
}

/// Changing one item of a list changes the list of models at that place alone.
pub proof fn lemma_deep_update<T: DeepView>(v: Vec<T>, i: int)
    requires
        0 <= i < v.len(),
    ensures
        forall|w: Vec<T>, x: T|
            w@ == #[trigger] v@.update(i, x) ==> #[trigger] w.deep_view() == v.deep_view().update(i, x.deep_view()),
{
    assert forall|w: Vec<T>, x: T|
        w@ == #[trigger] v@.update(i, x) implies #[trigger] w.deep_view() == v.deep_view().update(i, x.deep_view()) by {
        assert(w.deep_view() =~= v.deep_view().update(i, x.deep_view()));
    }
}

} // verus!
