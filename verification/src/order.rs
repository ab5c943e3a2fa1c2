//! Stable sorting.

use vstd::prelude::*;
use vstd::seq_lib::*;

verus! {

/// `s` with `x` put behind everything that it does not have to stand before.
pub open spec fn placed<T>(s: Seq<T>, x: T, before: spec_fn(T, T) -> bool) -> Seq<T>
    decreases s.len(),
{
    if s.len() > 0 && before(x, s.last()) {
        placed(s.drop_last(), x, before).push(s.last())
    } else {
        s.push(x)
    }
}

/// `s` in order: each element in its turn behind everything that it does not
/// have to stand before.
pub open spec fn in_order<T>(s: Seq<T>, before: spec_fn(T, T) -> bool) -> Seq<T>
    decreases s.len(),
{
    if s.len() == 0 {
        s
    } else {
        placed(in_order(s.drop_last(), before), s.last(), before)
    }
}

/// Placing an element is inserting it at the end of those it stays behind.
pub proof fn lemma_placed<T>(s: Seq<T>, x: T, before: spec_fn(T, T) -> bool, at: int)
    requires
        0 <= at <= s.len(),
        forall|i: int| at <= i < s.len() ==> before(x, #[trigger] s[i]),
        at > 0 ==> !before(x, s[at - 1]),
    ensures
        placed(s, x, before) == s.insert(at, x),
    decreases s.len(),
{
    if at == s.len() {
        assert(s.insert(at, x) =~= s.push(x));
    } else {
        assert(before(x, s[s.len() - 1]));
        let rest = s.drop_last();
        assert forall|i: int| at <= i < rest.len() implies before(x, #[trigger] rest[i]) by {
            assert(rest[i] == s[i]);
        }
        lemma_placed(rest, x, before, at);
        assert(s.insert(at, x) =~= rest.insert(at, x).push(s.last()));
    }
}

/// Whether `before` orders by a key: no two elements stand before each other, and
/// what stands before one of two elements that need no order stands before both.
pub open spec fn orders<T>(before: spec_fn(T, T) -> bool) -> bool {
    &&& forall|a: T, b: T| #[trigger] before(a, b) ==> !before(b, a)
    &&& forall|a: T, b: T, c: T| #[trigger]
        before(a, b) && !#[trigger] before(c, b) ==> before(a, c)
}

/// Whether nothing has to stand before something that it stands behind.
pub open spec fn ordered<T>(s: Seq<T>, before: spec_fn(T, T) -> bool) -> bool {
    forall|i: int, j: int| 0 <= i < j < s.len() ==> !before(#[trigger] s[j], #[trigger] s[i])
}

/// The elements with a property.
pub open spec fn those<T>(s: Seq<T>, property: spec_fn(T) -> bool) -> Seq<T>
    decreases s.len(),
{
    if s.len() == 0 {
        s
    } else if property(s.last()) {
        those(s.drop_last(), property).push(s.last())
    } else {
        those(s.drop_last(), property)
    }
}

proof fn lemma_placed_ordered<T>(s: Seq<T>, x: T, before: spec_fn(T, T) -> bool)
    requires
        orders(before),
        ordered(s, before),
    ensures
        ordered(placed(s, x, before), before),
        placed(s, x, before).len() == s.len() + 1,
        forall|i: int|
            0 <= i < s.len() + 1 ==> #[trigger] placed(s, x, before)[i] == x || s.contains(
                placed(s, x, before)[i],
            ),
    decreases s.len(),
{
    let r = placed(s, x, before);
    if s.len() > 0 && before(x, s.last()) {
        let rest = s.drop_last();
        assert forall|i: int, j: int| 0 <= i < j < rest.len() implies !before(
            #[trigger] rest[j],
            #[trigger] rest[i],
        ) by {
            assert(rest[i] == s[i] && rest[j] == s[j]);
        }
        lemma_placed_ordered(rest, x, before);
        let q = placed(rest, x, before);
        let last = s.last();
        assert forall|i: int| 0 <= i < q.len() implies !before(last, #[trigger] q[i]) by {
            if q[i] == x {
                assert(before(x, last));
            } else {
                let k = choose|k: int| 0 <= k < rest.len() && rest[k] == q[i];
                assert(s[k] == q[i]);
                assert(!before(s[s.len() - 1], s[k]));
            }
        }
        assert forall|i: int, j: int| 0 <= i < j < r.len() implies !before(
            #[trigger] r[j],
            #[trigger] r[i],
        ) by {
            if j < q.len() {
                assert(r[i] == q[i] && r[j] == q[j]);
            } else {
                assert(r[i] == q[i]);
                assert(r[j] == last);
            }
        }
        assert forall|i: int| 0 <= i < s.len() + 1 implies #[trigger] r[i] == x || s.contains(
            r[i],
        ) by {
            if i < q.len() {
                if q[i] != x {
                    let k = choose|k: int| 0 <= k < rest.len() && rest[k] == q[i];
                    assert(s[k] == q[i]);
                }
            } else {
                assert(s[s.len() - 1] == r[i]);
            }
        }
    } else {
        assert forall|i: int, j: int| 0 <= i < j < r.len() implies !before(
            #[trigger] r[j],
            #[trigger] r[i],
        ) by {
            if j == s.len() {
                assert(r[j] == x);
                let last = s.last();
                assert(!before(x, last));
                if before(x, s[i]) {
                    assert(i < s.len() - 1);
                    assert(!before(s[s.len() - 1], s[i]));
                    assert(before(x, s[i]) && !before(last, s[i]));
                    assert(before(x, last));
                }
            } else {
                assert(r[i] == s[i] && r[j] == s[j]);
            }
        }
        assert forall|i: int| 0 <= i < s.len() + 1 implies #[trigger] r[i] == x || s.contains(
            r[i],
        ) by {
            if i < s.len() {
                assert(s[i] == r[i]);
            }
        }
    }
}

proof fn lemma_those_placed<T>(
    s: Seq<T>,
    x: T,
    before: spec_fn(T, T) -> bool,
    property: spec_fn(T) -> bool,
)
    requires
        forall|a: T| property(x) && #[trigger] property(a) ==> !before(x, a),
    ensures
        those(placed(s, x, before), property) == if property(x) {
            those(s, property).push(x)
        } else {
            those(s, property)
        },
    decreases s.len(),
{
    let r = placed(s, x, before);
    if s.len() > 0 && before(x, s.last()) {
        let rest = s.drop_last();
        lemma_those_placed(rest, x, before, property);
        assert(r.drop_last() =~= placed(rest, x, before));
        assert(r.last() == s.last());
        assert(property(x) ==> !property(s.last()));
    } else {
        assert(r.drop_last() =~= s);
        assert(r.last() == x);
    }
}

proof fn lemma_in_order_ordered<T>(s: Seq<T>, before: spec_fn(T, T) -> bool)
    requires
        orders(before),
    ensures
        ordered(in_order(s, before), before),
        in_order(s, before).len() == s.len(),
    decreases s.len(),
{
    if s.len() > 0 {
        lemma_in_order_ordered(s.drop_last(), before);
        lemma_placed_ordered(in_order(s.drop_last(), before), s.last(), before);
    }
}

/// What is put in order is ordered, keeps its length, and is stable: of the
/// elements with a property that none of them has to stand before another of,
/// all are kept, in the order they came in.
pub proof fn order_is_stable<T>(
    s: Seq<T>,
    before: spec_fn(T, T) -> bool,
    property: spec_fn(T) -> bool,
)
    requires
        orders(before),
        forall|a: T, b: T| #[trigger] property(a) && #[trigger] property(b) ==> !before(a, b),
    ensures
        ordered(in_order(s, before), before),
        in_order(s, before).len() == s.len(),
        those(in_order(s, before), property) == those(s, property),
    decreases s.len(),
{
    lemma_in_order_ordered(s, before);
    if s.len() > 0 {
        order_is_stable(s.drop_last(), before, property);
        lemma_those_placed(in_order(s.drop_last(), before), s.last(), before, property);
    }
}

proof fn lemma_those_have_it<T>(s: Seq<T>, property: spec_fn(T) -> bool)
    ensures
        forall|i: int|
            0 <= i < those(s, property).len() ==> property(#[trigger] those(s, property)[i]),
    decreases s.len(),
{
    if s.len() > 0 {
        lemma_those_have_it(s.drop_last(), property);
        let rest = those(s.drop_last(), property);
        let all = those(s, property);
        assert forall|i: int| 0 <= i < all.len() implies property(#[trigger] all[i]) by {
            if i < rest.len() {
                assert(all[i] == rest[i]);
            }
        }
    }
}

proof fn lemma_placed_elements<T>(
    s: Seq<T>,
    x: T,
    before: spec_fn(T, T) -> bool,
    property: spec_fn(T) -> bool,
)
    requires
        property(x),
        forall|i: int| 0 <= i < s.len() ==> property(#[trigger] s[i]),
    ensures
        forall|i: int|
            0 <= i < placed(s, x, before).len() ==> property(#[trigger] placed(s, x, before)[i]),
    decreases s.len(),
{
    if s.len() > 0 && before(x, s.last()) {
        let rest = s.drop_last();
        assert forall|i: int| 0 <= i < rest.len() implies property(#[trigger] rest[i]) by {
            assert(rest[i] == s[i]);
        }
        lemma_placed_elements(rest, x, before, property);
        let q = placed(rest, x, before);
        let all = placed(s, x, before);
        assert forall|i: int| 0 <= i < all.len() implies property(#[trigger] all[i]) by {
            if i < q.len() {
                assert(all[i] == q[i]);
            } else {
                assert(property(s[s.len() - 1]));
            }
        }
    } else {
        let all = s.push(x);
        assert forall|i: int| 0 <= i < all.len() implies property(#[trigger] all[i]) by {
            if i < s.len() {
                assert(all[i] == s[i]);
            }
        }
    }
}

proof fn lemma_in_order_elements<T>(
    s: Seq<T>,
    before: spec_fn(T, T) -> bool,
    property: spec_fn(T) -> bool,
)
    requires
        forall|i: int| 0 <= i < s.len() ==> property(#[trigger] s[i]),
    ensures
        forall|i: int|
            0 <= i < in_order(s, before).len() ==> property(#[trigger] in_order(s, before)[i]),
    decreases s.len(),
{
    if s.len() > 0 {
        let rest = s.drop_last();
        assert forall|i: int| 0 <= i < rest.len() implies property(#[trigger] rest[i]) by {
            assert(rest[i] == s[i]);
        }
        lemma_in_order_elements(rest, before, property);
        assert(property(s[s.len() - 1]));
        lemma_placed_elements(in_order(rest, before), s.last(), before, property);
    }
}

/// What was picked by a property still has it when it is in order.
pub proof fn ordering_keeps_the_property<T>(
    s: Seq<T>,
    property: spec_fn(T) -> bool,
    before: spec_fn(T, T) -> bool,
)
    ensures
        forall|i: int|
            0 <= i < in_order(those(s, property), before).len() ==> property(
                #[trigger] in_order(those(s, property), before)[i],
            ),
{
    lemma_those_have_it(s, property);
    lemma_in_order_elements(those(s, property), before, property);
}

} // verus!
