use vstd::prelude::*;
use crate::text::{chars_of, str_eq, texts};

verus! {

// ---------------------------------------------------------------------------
// Order of texts

/// `a` comes before `b`: by the first character in which they differ, a text before its
/// own continuations.
pub open spec fn before(a: Seq<char>, b: Seq<char>) -> bool
    decreases a.len(),
{
    if b.len() == 0 {
        false
    } else if a.len() == 0 {
        true
    } else if a[0] != b[0] {
        a[0] < b[0]
    } else {
        before(a.drop_first(), b.drop_first())
    }
}

/// No text comes before itself.
pub proof fn before_irreflexive(a: Seq<char>)
    ensures
        !before(a, a),
    decreases a.len(),
{
    if a.len() > 0 {
        before_irreflexive(a.drop_first());
    }
}

/// The order of texts is transitive.
pub proof fn before_transitive(a: Seq<char>, b: Seq<char>, c: Seq<char>)
    requires
        before(a, b),
        before(b, c),
    ensures
        before(a, c),
    decreases a.len(),
{
    if a.len() > 0 && a[0] == b[0] && b[0] == c[0] {
        before_transitive(a.drop_first(), b.drop_first(), c.drop_first());
    }
}

/// Of two different texts one comes before the other.
pub proof fn before_total(a: Seq<char>, b: Seq<char>)
    ensures
        before(a, b) || before(b, a) || a == b,
    decreases a.len(),
{
    if a.len() > 0 && b.len() > 0 {
        if a[0] == b[0] {
            before_total(a.drop_first(), b.drop_first());
            if a.drop_first() == b.drop_first() {
                assert(a =~= seq![a[0]] + a.drop_first());
                assert(b =~= seq![b[0]] + b.drop_first());
            }
        }
    } else if a.len() == 0 && b.len() == 0 {
        assert(a =~= b);
    }
}

fn less_from(a: &Vec<char>, b: &Vec<char>, i: usize) -> (r: bool)
    requires
        i <= a@.len(),
        i <= b@.len(),
    ensures
        r == before(a@.skip(i as int), b@.skip(i as int)),
    decreases a@.len() - i,
{
    if i == b.len() {
        false
    } else if i == a.len() {
        true
    } else if a[i] != b[i] {
        a[i] < b[i]
    } else {
        assert(a@.skip(i as int).drop_first() =~= a@.skip(i + 1));
        assert(b@.skip(i as int).drop_first() =~= b@.skip(i + 1));
        less_from(a, b, i + 1)
    }
}

/// Whether `a` comes before `b`.
pub fn less(a: &str, b: &str) -> (r: bool)
    ensures
        r == before(a@, b@),
{
    let av = chars_of(a);
    let bv = chars_of(b);
    assert(av@.skip(0) =~= a@);
    assert(bv@.skip(0) =~= b@);
    less_from(&av, &bv, 0)
}

/// Whether `item` is one of `list`.
pub fn listed(list: &Vec<String>, item: &str) -> (r: bool)
    ensures
        r == texts(list@).contains(item@),
{
    let mut i: usize = 0;
    while i < list.len()
        invariant
            i <= list@.len(),
            forall|j: int| 0 <= j < i ==> texts(list@)[j] != item@,
        decreases list@.len() - i,
    {
        if str_eq(list[i].as_str(), item) {
            assert(texts(list@)[i as int] == item@);
            return true;
        }
        i = i + 1;
    }
    false
}

// ---------------------------------------------------------------------------
// Stable sorting

/// The items by their views.
pub open spec fn views<T: View>(s: Seq<T>) -> Seq<T::V> {
    Seq::new(s.len(), |i: int| s[i]@)
}

/// `t` with `x` put in behind every item that `x` is not ahead of, counting from the end.
pub open spec fn inserted<V>(t: Seq<V>, x: V, ahead: spec_fn(V, V) -> bool) -> Seq<V>
    decreases t.len(),
{
    if t.len() > 0 && ahead(x, t.last()) {
        inserted(t.drop_last(), x, ahead).push(t.last())
    } else {
        t.push(x)
    }
}

/// `s` sorted by `ahead`, items that are not ahead of one another in their first order.
pub open spec fn sorted<V>(s: Seq<V>, ahead: spec_fn(V, V) -> bool) -> Seq<V>
    decreases s.len(),
{
    if s.len() == 0 {
        s
    } else {
        inserted(sorted(s.drop_last(), ahead), s.last(), ahead)
    }
}

/// `ahead` never holds both ways, and what is not ahead carries over from neighbour to
/// neighbour.
pub open spec fn weak_order<V>(ahead: spec_fn(V, V) -> bool) -> bool {
    &&& forall|a: V, b: V| #[trigger] ahead(a, b) ==> !ahead(b, a)
    &&& forall|a: V, b: V, c: V|
        !#[trigger] ahead(b, a) && !#[trigger] ahead(c, b) ==> !ahead(c, a)
}

/// No item has one behind it that is ahead of it.
pub open spec fn in_order<V>(s: Seq<V>, ahead: spec_fn(V, V) -> bool) -> bool {
    forall|i: int, j: int| 0 <= i < j < s.len() ==> !ahead(#[trigger] s[j], #[trigger] s[i])
}

pub proof fn inserted_multiset<V>(t: Seq<V>, x: V, ahead: spec_fn(V, V) -> bool)
    ensures
        inserted(t, x, ahead).to_multiset() == t.to_multiset().insert(x),
        inserted(t, x, ahead).len() == t.len() + 1,
    decreases t.len(),
{
    broadcast use vstd::seq_lib::group_to_multiset_ensures;

    if t.len() > 0 && ahead(x, t.last()) {
        inserted_multiset(t.drop_last(), x, ahead);
        assert(t =~= t.drop_last().push(t.last()));
        assert(t.to_multiset() =~= t.drop_last().to_multiset().insert(t.last()));
        assert(inserted(t, x, ahead).to_multiset() =~= t.to_multiset().insert(x));
    }
}

/// Sorting keeps every item as often as it occurred.
pub proof fn sorted_keeps_items<V>(s: Seq<V>, ahead: spec_fn(V, V) -> bool)
    ensures
        sorted(s, ahead).to_multiset() == s.to_multiset(),
        sorted(s, ahead).len() == s.len(),
    decreases s.len(),
{
    broadcast use vstd::seq_lib::group_to_multiset_ensures;

    if s.len() > 0 {
        sorted_keeps_items(s.drop_last(), ahead);
        inserted_multiset(sorted(s.drop_last(), ahead), s.last(), ahead);
        assert(s =~= s.drop_last().push(s.last()));
    }
}

proof fn inserted_bounded<V>(t: Seq<V>, x: V, y: V, ahead: spec_fn(V, V) -> bool)
    requires
        forall|i: int| 0 <= i < t.len() ==> !ahead(y, #[trigger] t[i]),
        !ahead(y, x),
    ensures
        forall|i: int|
            0 <= i < inserted(t, x, ahead).len() ==> !ahead(
                y,
                #[trigger] inserted(t, x, ahead)[i],
            ),
    decreases t.len(),
{
    if t.len() > 0 && ahead(x, t.last()) {
        let init = t.drop_last();
        assert forall|i: int| 0 <= i < init.len() implies !ahead(y, #[trigger] init[i]) by {
            assert(init[i] == t[i]);
        }
        inserted_bounded(init, x, y, ahead);
        let ri = inserted(init, x, ahead);
        let r = inserted(t, x, ahead);
        assert forall|i: int| 0 <= i < r.len() implies !ahead(y, #[trigger] r[i]) by {
            if i < ri.len() {
                assert(r[i] == ri[i]);
            } else {
                assert(r[i] == t[t.len() - 1]);
            }
        }
    }
}

proof fn inserted_in_order<V>(t: Seq<V>, x: V, ahead: spec_fn(V, V) -> bool)
    requires
        weak_order(ahead),
        in_order(t, ahead),
    ensures
        in_order(inserted(t, x, ahead), ahead),
    decreases t.len(),
{
    let r = inserted(t, x, ahead);
    if t.len() > 0 && ahead(x, t.last()) {
        let init = t.drop_last();
        let y = t.last();
        assert forall|i: int, j: int| 0 <= i < j < init.len() implies !ahead(
            #[trigger] init[j],
            #[trigger] init[i],
        ) by {
            assert(init[i] == t[i]);
            assert(init[j] == t[j]);
        }
        inserted_in_order(init, x, ahead);
        assert forall|i: int| 0 <= i < init.len() implies !ahead(y, #[trigger] init[i]) by {
            assert(init[i] == t[i]);
            assert(y == t[t.len() - 1]);
        }
        inserted_bounded(init, x, y, ahead);
        let ri = inserted(init, x, ahead);
        assert forall|i: int, j: int| 0 <= i < j < r.len() implies !ahead(
            #[trigger] r[j],
            #[trigger] r[i],
        ) by {
            assert(r[i] == ri[i]);
            if j < r.len() - 1 {
                assert(r[j] == ri[j]);
            }
        }
    } else {
        assert forall|i: int, j: int| 0 <= i < j < r.len() implies !ahead(
            #[trigger] r[j],
            #[trigger] r[i],
        ) by {
            assert(r[i] == t[i]);
            if j == r.len() - 1 {
                let l = t[t.len() - 1];
                assert(!ahead(x, l));
                if i < t.len() - 1 {
                    assert(!ahead(l, t[i]));
                }
            } else {
                assert(r[j] == t[j]);
            }
        }
    }
}

/// What was sorted by a weak order is in that order.
pub proof fn sorted_in_order<V>(s: Seq<V>, ahead: spec_fn(V, V) -> bool)
    requires
        weak_order(ahead),
    ensures
        in_order(sorted(s, ahead), ahead),
    decreases s.len(),
{
    if s.len() > 0 {
        sorted_in_order(s.drop_last(), ahead);
        inserted_in_order(sorted(s.drop_last(), ahead), s.last(), ahead);
    }
}

proof fn inserted_filter<V>(
    t: Seq<V>,
    x: V,
    ahead: spec_fn(V, V) -> bool,
    alike: spec_fn(V) -> bool,
)
    requires
        forall|a: V, b: V| alike(a) && alike(b) ==> !#[trigger] ahead(a, b),
    ensures
        inserted(t, x, ahead).filter(alike) == t.push(x).filter(alike),
    decreases t.len(),
{
    reveal(Seq::filter);
    if t.len() > 0 && ahead(x, t.last()) {
        let init = t.drop_last();
        let l = t.last();
        inserted_filter(init, x, ahead, alike);
        let r = inserted(t, x, ahead);
        assert(r.drop_last() =~= inserted(init, x, ahead));
        assert(r.last() == l);
        assert(init.push(x).drop_last() =~= init);
        assert(t.push(x).drop_last() =~= t);
        assert(!(alike(x) && alike(l)));
        let kept = init.filter(alike);
        assert(t.filter(alike) == if alike(l) {
            kept.push(l)
        } else {
            kept
        });
        assert(init.push(x).filter(alike) == if alike(x) {
            kept.push(x)
        } else {
            kept
        });
    }
}

/// Sorting leaves items of which none is ahead of another in the order they came in.
pub proof fn sorted_stable<V>(
    s: Seq<V>,
    ahead: spec_fn(V, V) -> bool,
    alike: spec_fn(V) -> bool,
)
    requires
        forall|a: V, b: V| alike(a) && alike(b) ==> !#[trigger] ahead(a, b),
    ensures
        sorted(s, ahead).filter(alike) == s.filter(alike),
    decreases s.len(),
{
    reveal(Seq::filter);
    if s.len() > 0 {
        let init = s.drop_last();
        sorted_stable(init, ahead, alike);
        inserted_filter(sorted(init, ahead), s.last(), ahead, alike);
        let p = sorted(init, ahead).push(s.last());
        assert(p.drop_last() =~= sorted(init, ahead));
    }
}

proof fn views_take_push<T: View>(s: Seq<T>, i: int)
    requires
        0 <= i < s.len(),
    ensures
        views(s).take(i + 1).drop_last() == views(s).take(i),
        views(s).take(i + 1).last() == s[i]@,
{
    assert(views(s).take(i + 1).drop_last() =~= views(s).take(i));
}

/// Where `x` goes into `t`: behind every item that `x` is not ahead of.
fn find_slot<T: View, F: Fn(&T, &T) -> bool>(
    t: &Vec<T>,
    x: &T,
    f: &F,
    Ghost(ahead): Ghost<spec_fn(T::V, T::V) -> bool>,
) -> (r: usize)
    requires
        forall|a: &T, b: &T| f.requires((a, b)),
        forall|a: &T, b: &T, r: bool| #[trigger]
            f.ensures((a, b), r) ==> r == ahead(a@, b@),
        weak_order(ahead),
        in_order(views(t@), ahead),
    ensures
        r <= t@.len(),
        forall|i: int| r <= i < t@.len() ==> ahead(x@, #[trigger] views(t@)[i]),
        r > 0 ==> !ahead(x@, views(t@)[r - 1]),
{
    let ghost s = views(t@);
    let mut lo: usize = 0;
    let mut hi: usize = t.len();
    while lo < hi
        invariant
            forall|a: &T, b: &T| f.requires((a, b)),
            forall|a: &T, b: &T, r: bool| #[trigger]
                f.ensures((a, b), r) ==> r == ahead(a@, b@),
            weak_order(ahead),
            s == views(t@),
            in_order(s, ahead),
            lo <= hi <= t@.len(),
            forall|i: int| hi <= i < s.len() ==> ahead(x@, #[trigger] s[i]),
            lo > 0 ==> !ahead(x@, s[lo - 1]),
        decreases hi - lo,
    {
        let mid: usize = lo + (hi - lo) / 2;
        let here = f(x, &t[mid]);
        if here {
            proof {
                assert(s[mid as int] == t@[mid as int]@);
                assert forall|i: int| mid <= i < s.len() implies ahead(x@, #[trigger] s[i]) by {
                    if i > mid {
                        assert(!ahead(s[i], s[mid as int]));
                    }
                }
            }
            hi = mid;
        } else {
            assert(s[mid as int] == t@[mid as int]@);
            lo = mid + 1;
        }
    }
    lo
}

proof fn inserted_at<V>(t: Seq<V>, x: V, ahead: spec_fn(V, V) -> bool, k: int)
    requires
        0 <= k <= t.len(),
        forall|i: int| k <= i < t.len() ==> ahead(x, #[trigger] t[i]),
        k > 0 ==> !ahead(x, t[k - 1]),
    ensures
        inserted(t, x, ahead) == t.insert(k, x),
    decreases t.len(),
{
    if k == t.len() {
        assert(inserted(t, x, ahead) =~= t.insert(k, x));
    } else {
        let init = t.drop_last();
        assert(ahead(x, t[t.len() - 1]));
        assert forall|i: int| k <= i < init.len() implies ahead(x, #[trigger] init[i]) by {
            assert(init[i] == t[i]);
        }
        inserted_at(init, x, ahead, k);
        assert(inserted(t, x, ahead) =~= t.insert(k, x));
    }
}

/// Sorts `items` by `f`, which decides `ahead`; items that are not ahead of one another
/// stay in their order.
pub(crate) fn stable_sort<T: View, F: Fn(&T, &T) -> bool>(
    items: Vec<T>,
    f: F,
    Ghost(ahead): Ghost<spec_fn(T::V, T::V) -> bool>,
) -> (r: Vec<T>)
    requires
        forall|a: &T, b: &T| f.requires((a, b)),
        forall|a: &T, b: &T, r: bool| #[trigger]
            f.ensures((a, b), r) ==> r == ahead(a@, b@),
        weak_order(ahead),
    ensures
        views(r@) == sorted(views(items@), ahead),
{
    let ghost all = items@;
    let n: usize = items.len();
    let mut rest = reversed(items);
    let mut out: Vec<T> = Vec::new();
    let mut i: usize = 0;
    assert(views(out@) =~= sorted(views(all).take(0), ahead));
    while i < n
        invariant
            forall|a: &T, b: &T| f.requires((a, b)),
            forall|a: &T, b: &T, r: bool| #[trigger]
                f.ensures((a, b), r) ==> r == ahead(a@, b@),
            weak_order(ahead),
            i <= n,
            n == all.len(),
            rest@ == all.skip(i as int).reverse(),
            views(out@) == sorted(views(all).take(i as int), ahead),
        decreases n - i,
    {
        assert(rest@.len() == n - i);
        let x = match rest.pop() {
            Some(x) => x,
            None => {
                assert(false);
                return out;
            },
        };
        proof {
            views_take_push(all, i as int);
            assert(x == all[i as int]);
            assert(rest@ =~= all.skip(i + 1).reverse());
            sorted_in_order(views(all).take(i as int), ahead);
        }
        let k: usize = find_slot(&out, &x, &f, Ghost(ahead));
        proof {
            inserted_at(views(out@), x@, ahead, k as int);
            assert(views(out@.insert(k as int, x)) =~= views(out@).insert(k as int, x@));
        }
        out.insert(k, x);
        i = i + 1;
    }
    assert(views(all).take(n as int) =~= views(all));
    out
}

fn reversed<T>(items: Vec<T>) -> (r: Vec<T>)
    ensures
        r@ == items@.reverse(),
{
    let ghost all = items@;
    let mut rest = items;
    let mut out: Vec<T> = Vec::new();
    while rest.len() > 0
        invariant
            rest@.len() + out@.len() == all.len(),
            rest@ == all.take(rest@.len() as int),
            out@ == all.skip(rest@.len() as int).reverse(),
        decreases rest@.len(),
    {
        if let Some(x) = rest.pop() {
            assert(x == all[rest@.len() as int]);
            assert(rest@ =~= all.take(rest@.len() as int));
            out.push(x);
            assert(out@ =~= all.skip(rest@.len() as int).reverse());
        }
    }
    assert(all.skip(0) =~= all);
    out
}

/// What does not come before carries over from text to text.
pub proof fn before_weak(a: Seq<char>, b: Seq<char>, c: Seq<char>)
    ensures
        before(a, b) ==> !before(b, a),
        !before(b, a) && !before(c, b) ==> !before(c, a),
        !before(a, b) && !before(b, a) ==> a == b,
{
    before_irreflexive(a);
    before_total(a, b);
    before_total(b, c);
    before_total(a, c);
    if before(a, b) && before(b, a) {
        before_transitive(a, b, a);
    }
    if !before(b, a) && !before(c, b) && before(c, a) {
        if before(a, b) {
            before_transitive(c, a, b);
        }
    }
}

} // verus!
