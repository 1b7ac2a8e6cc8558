//! Orders on strings and on the graph's records, and a stable sort by them.

use vstd::prelude::*;
use vstd::utf8::encode_utf8;

verus! {

broadcast use vstd::seq_lib::group_to_multiset_ensures;

/// Lexicographic order of byte strings: negative, zero or positive as `a`
/// sorts before, together with, or after `b`.
pub open spec fn lex_order(a: Seq<u8>, b: Seq<u8>) -> int
    decreases a.len(),
{
    if a.len() == 0 {
        if b.len() == 0 {
            0
        } else {
            -1
        }
    } else if b.len() == 0 {
        1
    } else if a[0] < b[0] {
        -1
    } else if a[0] > b[0] {
        1
    } else {
        lex_order(a.drop_first(), b.drop_first())
    }
}

/// The order of Rust's `str`: lexicographic on the UTF-8 bytes.
pub open spec fn text_order(a: Seq<char>, b: Seq<char>) -> int {
    lex_order(encode_utf8(a), encode_utf8(b))
}

/// The order of two unsigned integers, as -1, 0 or 1.
pub open spec fn number_order(a: int, b: int) -> int {
    if a < b {
        -1
    } else if a > b {
        1
    } else {
        0
    }
}

/// `lex_order` is -1, 0 or 1; it is zero exactly on equal strings, and it is
/// antisymmetric.
pub proof fn lemma_lex_order_basics(a: Seq<u8>, b: Seq<u8>)
    ensures
        -1 <= lex_order(a, b) <= 1,
        lex_order(a, b) == 0 <==> a == b,
        lex_order(a, b) == -lex_order(b, a),
    decreases a.len(),
{
    if a.len() > 0 && b.len() > 0 {
        lemma_lex_order_basics(a.drop_first(), b.drop_first());
        if a[0] == b[0] && a.drop_first() == b.drop_first() {
            assert(a =~= seq![a[0]] + a.drop_first());
            assert(b =~= seq![b[0]] + b.drop_first());
        }
        if a == b {
            assert(a.drop_first() == b.drop_first());
        }
    } else if a.len() == 0 && b.len() == 0 {
        assert(a =~= b);
    }
}

/// `lex_order` is transitive, strictly where either step is strict.
pub proof fn lemma_lex_order_transitive(a: Seq<u8>, b: Seq<u8>, c: Seq<u8>)
    requires
        lex_order(a, b) <= 0,
        lex_order(b, c) <= 0,
    ensures
        lex_order(a, c) <= 0,
        lex_order(a, b) < 0 || lex_order(b, c) < 0 ==> lex_order(a, c) < 0,
    decreases a.len(),
{
    lemma_lex_order_basics(a, b);
    lemma_lex_order_basics(b, c);
    lemma_lex_order_basics(a, c);
    if a.len() > 0 && b.len() > 0 && c.len() > 0 {
        if a[0] == b[0] && b[0] == c[0] {
            lemma_lex_order_transitive(a.drop_first(), b.drop_first(), c.drop_first());
        }
    }
}

/// `text_order` is zero exactly on equal strings, antisymmetric and transitive.
pub proof fn lemma_text_order(a: Seq<char>, b: Seq<char>, c: Seq<char>)
    ensures
        -1 <= text_order(a, b) <= 1,
        text_order(a, b) == 0 <==> a == b,
        text_order(a, b) == -text_order(b, a),
        text_order(a, b) <= 0 && text_order(b, c) <= 0 ==> text_order(a, c) <= 0,
        text_order(a, b) < 0 && text_order(b, c) <= 0 ==> text_order(a, c) < 0,
        text_order(a, b) <= 0 && text_order(b, c) < 0 ==> text_order(a, c) < 0,
{
    lemma_lex_order_basics(encode_utf8(a), encode_utf8(b));
    if encode_utf8(a) == encode_utf8(b) {
        vstd::utf8::encode_utf8_decode_utf8(a);
        vstd::utf8::encode_utf8_decode_utf8(b);
    }
    if text_order(a, b) <= 0 && text_order(b, c) <= 0 {
        lemma_lex_order_transitive(encode_utf8(a), encode_utf8(b), encode_utf8(c));
    }
}

/// Compares two strings as Rust's `str` order does.
pub fn compare_text(a: &str, b: &str) -> (r: i8)
    ensures
        r == text_order(a@, b@),
{
    let x = a.as_bytes();
    let y = b.as_bytes();
    let mut i: usize = 0;
    assert(x@.skip(0) =~= x@);
    assert(y@.skip(0) =~= y@);
    while i < x.len() && i < y.len()
        invariant
            x@ == encode_utf8(a@),
            y@ == encode_utf8(b@),
            i <= x.len(),
            i <= y.len(),
            lex_order(x@, y@) == lex_order(x@.skip(i as int), y@.skip(i as int)),
        decreases x.len() - i,
    {
        if x[i] < y[i] {
            return -1;
        }
        if x[i] > y[i] {
            return 1;
        }
        assert(x@.skip(i as int).drop_first() =~= x@.skip(i + 1));
        assert(y@.skip(i as int).drop_first() =~= y@.skip(i + 1));
        i = i + 1;
    }
    if x.len() == y.len() {
        0
    } else if i == x.len() {
        -1
    } else {
        1
    }
}

/// Compares two numbers.
pub fn compare_number(a: usize, b: usize) -> (r: i8)
    ensures
        r == number_order(a as int, b as int),
{
    if a < b {
        -1
    } else if a > b {
        1
    } else {
        0
    }
}

/// A type whose values are sorted by a total preorder.
pub trait Ranked: Sized {
    /// `self` may sort before `other`, or together with it.
    spec fn rank_le(self, other: Self) -> bool;

    proof fn lemma_rank_total(a: Self, b: Self)
        ensures
            a.rank_le(b) || b.rank_le(a),
    ;

    proof fn lemma_rank_transitive(a: Self, b: Self, c: Self)
        requires
            a.rank_le(b),
            b.rank_le(c),
        ensures
            a.rank_le(c),
    ;

    fn ranks_no_later(&self, other: &Self) -> (r: bool)
        ensures
            r == self.rank_le(*other),
    ;
}

/// Inserts index `i` into the sorted list of indices `order`, after every
/// index whose item ranks no later than item `i`.
pub open spec fn insert_ranked<T: Ranked>(items: Seq<T>, order: Seq<usize>, i: usize) -> Seq<usize>
    decreases order.len(),
{
    if order.len() == 0 {
        seq![i]
    } else if items[order.last() as int].rank_le(items[i as int]) {
        order.push(i)
    } else {
        insert_ranked(items, order.drop_last(), i).push(order.last())
    }
}

/// The stable sort of the first `n` items, as a list of their indices.
pub open spec fn ranked_order<T: Ranked>(items: Seq<T>, n: nat) -> Seq<usize>
    decreases n,
{
    if n == 0 {
        seq![]
    } else {
        insert_ranked(items, ranked_order(items, (n - 1) as nat), (n - 1) as usize)
    }
}

/// The items in their stable sorted order.
pub open spec fn sorted_items<T: Ranked>(items: Seq<T>) -> Seq<T> {
    ranked_order(items, items.len()).map_values(|k: usize| items[k as int])
}

/// The ranking of a type, as a closure on its values.
pub open spec fn rank_le_fn<T: Ranked>() -> spec_fn(T, T) -> bool {
    |a: T, b: T| a.rank_le(b)
}

/// A type's ranking is a total preorder.
pub proof fn lemma_rank_total_preorder<T: Ranked>()
    ensures
        is_total_preorder(rank_le_fn::<T>()),
{
    assert forall|a: T, b: T| #[trigger] rank_le_fn::<T>()(a, b) || rank_le_fn::<T>()(b, a) by {
        T::lemma_rank_total(a, b);
    }
    assert forall|a: T, b: T, c: T|
        #[trigger] rank_le_fn::<T>()(a, b) && #[trigger] rank_le_fn::<T>()(b, c) implies rank_le_fn::<T>()(a, c) by {
        T::lemma_rank_transitive(a, b, c);
    }
}

/// The items of the sorted order of the first `m` items rank in order.
pub proof fn lemma_ranked_order_sorted<T: Ranked>(items: Seq<T>, m: nat)
    requires
        m <= items.len() <= usize::MAX,
    ensures
        forall|a: int, b: int|
            0 <= a < b < m ==> #[trigger] items[ranked_order(items, m)[a] as int].rank_le(
                #[trigger] items[ranked_order(items, m)[b] as int],
            ),
{
    let le = rank_le_fn::<T>();
    let v = |x: T| x;
    assert forall|a: T, b: T| #[trigger] a.rank_le(b) == le(v(a), v(b)) by {}
    lemma_ranked_order_views(items, v, le, m);
    lemma_rank_total_preorder::<T>();
    lemma_sort_by_sorted(items.map_values(v).take(m as int), le);
    lemma_ranked_order_len(items, m);
    let o = ranked_order(items, m);
    let g = |k: usize| v(items[k as int]);
    assert forall|a: int, b: int| 0 <= a < b < m implies #[trigger] items[o[a] as int].rank_le(
        #[trigger] items[o[b] as int],
    ) by {
        assert(o.map_values(g)[a] == items[o[a] as int]);
        assert(o.map_values(g)[b] == items[o[b] as int]);
        assert(le(o.map_values(g)[a], o.map_values(g)[b]));
    }
}

/// Where the indices of `order` whose items rank no later than item `i`
/// are exactly the first `p`, inserting `i` puts it at position `p`.
pub proof fn lemma_insert_ranked_at<T: Ranked>(items: Seq<T>, order: Seq<usize>, i: usize, p: int)
    requires
        0 <= p <= order.len(),
        forall|q: int| 0 <= q < p ==> #[trigger] items[order[q] as int].rank_le(items[i as int]),
        forall|q: int| p <= q < order.len() ==> !#[trigger] items[order[q] as int].rank_le(items[i as int]),
    ensures
        insert_ranked(items, order, i) == order.insert(p, i),
    decreases order.len(),
{
    if order.len() == 0 {
        assert(order.insert(p, i) =~= seq![i]);
    } else if items[order.last() as int].rank_le(items[i as int]) {
        assert(p == order.len());
        assert(order.insert(p, i) =~= order.push(i));
    } else {
        let d = order.drop_last();
        assert(p < order.len());
        assert forall|q: int| 0 <= q < p implies #[trigger] items[d[q] as int].rank_le(items[i as int]) by {
            assert(d[q] == order[q]);
        }
        assert forall|q: int| p <= q < d.len() implies !#[trigger] items[d[q] as int].rank_le(items[i as int]) by {
            assert(d[q] == order[q]);
        }
        lemma_insert_ranked_at(items, d, i, p);
        assert(d.insert(p, i).push(order.last()) =~= order.insert(p, i));
    }
}

/// The stable sort of `items`, as the list of their indices in sorted order.
pub fn rank_order<T: Ranked>(items: &Vec<T>) -> (order: Vec<usize>)
    ensures
        order@ == ranked_order(items@, items@.len()),
{
    let n = items.len();
    let mut order: Vec<usize> = Vec::new();
    let mut i: usize = 0;
    while i < n
        invariant
            n == items@.len(),
            i <= n,
            order@ == ranked_order(items@, i as nat),
        decreases n - i,
    {
        proof {
            lemma_ranked_order_len(items@, i as nat);
            lemma_ranked_order_sorted(items@, i as nat);
        }
        let mut lo: usize = 0;
        let mut hi: usize = i;
        while lo < hi
            invariant
                n == items@.len(),
                i < n,
                lo <= hi <= i,
                order@ == ranked_order(items@, i as nat),
                order@.len() == i,
                forall|k: int| 0 <= k < i ==> order@[k] < i,
                forall|a: int, b: int|
                    0 <= a < b < i ==> #[trigger] items@[order@[a] as int].rank_le(#[trigger] items@[order@[b] as int]),
                forall|q: int| 0 <= q < lo ==> #[trigger] items@[order@[q] as int].rank_le(items@[i as int]),
                forall|q: int| hi <= q < i ==> !#[trigger] items@[order@[q] as int].rank_le(items@[i as int]),
            decreases hi - lo,
        {
            let mid = lo + (hi - lo) / 2;
            if items[order[mid]].ranks_no_later(&items[i]) {
                proof {
                    assert forall|q: int| 0 <= q < mid + 1 implies #[trigger] items@[order@[q] as int].rank_le(
                        items@[i as int],
                    ) by {
                        if q < mid {
                            assert(items@[order@[q] as int].rank_le(items@[order@[mid as int] as int]));
                            T::lemma_rank_transitive(
                                items@[order@[q] as int],
                                items@[order@[mid as int] as int],
                                items@[i as int],
                            );
                        }
                    }
                }
                lo = mid + 1;
            } else {
                proof {
                    assert forall|q: int| mid <= q < i implies !#[trigger] items@[order@[q] as int].rank_le(
                        items@[i as int],
                    ) by {
                        if q > mid && items@[order@[q] as int].rank_le(items@[i as int]) {
                            assert(items@[order@[mid as int] as int].rank_le(items@[order@[q] as int]));
                            T::lemma_rank_transitive(
                                items@[order@[mid as int] as int],
                                items@[order@[q] as int],
                                items@[i as int],
                            );
                        }
                    }
                }
                hi = mid;
            }
        }
        proof {
            lemma_insert_ranked_at(items@, order@, i, lo as int);
        }
        order.insert(lo, i);
        i = i + 1;
    }
    order
}

/// The sorted order of `n` items has `n` entries, all below `n`.
pub proof fn lemma_ranked_order_len<T: Ranked>(items: Seq<T>, n: nat)
    ensures
        ranked_order(items, n).len() == n,
        forall|k: int| 0 <= k < n ==> ranked_order(items, n)[k] < n,
    decreases n,
{
    if n > 0 {
        lemma_ranked_order_len(items, (n - 1) as nat);
        lemma_insert_ranked_bounded(items, ranked_order(items, (n - 1) as nat), (n - 1) as usize, n);
    }
}

/// Inserting an index below `bound` into indices below `bound` keeps them all
/// below `bound`, and adds one entry.
pub proof fn lemma_insert_ranked_bounded<T: Ranked>(items: Seq<T>, order: Seq<usize>, i: usize, bound: nat)
    requires
        i < bound,
        forall|k: int| 0 <= k < order.len() ==> order[k] < bound,
    ensures
        insert_ranked(items, order, i).len() == order.len() + 1,
        forall|k: int| 0 <= k < order.len() + 1 ==> insert_ranked(items, order, i)[k] < bound,
    decreases order.len(),
{
    if order.len() > 0 {
        lemma_insert_ranked_bounded(items, order.drop_last(), i, bound);
    }
}

/// Inserts `x` into the sorted list `s`, after every element that may sort
/// before it or together with it.
pub open spec fn insert_by<A>(s: Seq<A>, x: A, le: spec_fn(A, A) -> bool) -> Seq<A>
    decreases s.len(),
{
    if s.len() == 0 {
        seq![x]
    } else if le(s.last(), x) {
        s.push(x)
    } else {
        insert_by(s.drop_last(), x, le).push(s.last())
    }
}

/// The stable insertion sort of `s` by the preorder `le`.
pub open spec fn sort_by<A>(s: Seq<A>, le: spec_fn(A, A) -> bool) -> Seq<A>
    decreases s.len(),
{
    if s.len() == 0 {
        s
    } else {
        insert_by(sort_by(s.drop_last(), le), s.last(), le)
    }
}

/// Where an order ranks items by their views alone, sorting the items and
/// taking their views is sorting the views.
pub proof fn lemma_sorted_items_views<T: Ranked, A>(
    items: Seq<T>,
    v: spec_fn(T) -> A,
    le: spec_fn(A, A) -> bool,
)
    requires
        forall|a: T, b: T| #[trigger] a.rank_le(b) == le(v(a), v(b)),
        items.len() <= usize::MAX,
    ensures
        sorted_items(items).map_values(v) == sort_by(items.map_values(v), le),
{
    lemma_ranked_order_views(items, v, le, items.len());
    lemma_ranked_order_len(items, items.len());
    assert(items.map_values(v).take(items.len() as int) =~= items.map_values(v));
    assert(sorted_items(items).map_values(v) =~= ranked_order(items, items.len()).map_values(
        |k: usize| v(items[k as int]),
    ));
}

proof fn lemma_ranked_order_views<T: Ranked, A>(
    items: Seq<T>,
    v: spec_fn(T) -> A,
    le: spec_fn(A, A) -> bool,
    m: nat,
)
    requires
        forall|a: T, b: T| #[trigger] a.rank_le(b) == le(v(a), v(b)),
        m <= items.len() <= usize::MAX,
    ensures
        ranked_order(items, m).map_values(|k: usize| v(items[k as int])) == sort_by(
            items.map_values(v).take(m as int),
            le,
        ),
    decreases m,
{
    let g = |k: usize| v(items[k as int]);
    if m == 0 {
        assert(items.map_values(v).take(0) =~= Seq::<A>::empty());
        assert(ranked_order(items, 0).map_values(g) =~= Seq::<A>::empty());
    } else {
        lemma_ranked_order_views(items, v, le, (m - 1) as nat);
        lemma_ranked_order_len(items, (m - 1) as nat);
        let s = items.map_values(v).take(m as int);
        assert(s.drop_last() =~= items.map_values(v).take(m - 1));
        assert(s.last() == g((m - 1) as usize));
        lemma_insert_ranked_views(items, v, le, ranked_order(items, (m - 1) as nat), (m - 1) as usize);
    }
}

proof fn lemma_insert_ranked_views<T: Ranked, A>(
    items: Seq<T>,
    v: spec_fn(T) -> A,
    le: spec_fn(A, A) -> bool,
    order: Seq<usize>,
    i: usize,
)
    requires
        forall|a: T, b: T| #[trigger] a.rank_le(b) == le(v(a), v(b)),
    ensures
        insert_ranked(items, order, i).map_values(|k: usize| v(items[k as int])) == insert_by(
            order.map_values(|k: usize| v(items[k as int])),
            v(items[i as int]),
            le,
        ),
    decreases order.len(),
{
    let g = |k: usize| v(items[k as int]);
    let gs = order.map_values(g);
    if order.len() == 0 {
        assert(insert_ranked(items, order, i).map_values(g) =~= seq![g(i)]);
    } else {
        assert(gs.last() == g(order.last()));
        assert(gs.drop_last() =~= order.drop_last().map_values(g));
        assert(items[order.last() as int].rank_le(items[i as int]) == le(gs.last(), g(i)));
        if items[order.last() as int].rank_le(items[i as int]) {
            assert(order.push(i).map_values(g) =~= gs.push(g(i)));
        } else {
            lemma_insert_ranked_views(items, v, le, order.drop_last(), i);
            assert(insert_ranked(items, order.drop_last(), i).push(order.last()).map_values(g)
                =~= insert_ranked(items, order.drop_last(), i).map_values(g).push(g(order.last())));
        }
    }
}

/// `le` is a total preorder: any two values compare, and it is transitive.
pub open spec fn is_total_preorder<A>(le: spec_fn(A, A) -> bool) -> bool {
    &&& forall|a: A, b: A| #[trigger] le(a, b) || le(b, a)
    &&& forall|a: A, b: A, c: A| #[trigger] le(a, b) && #[trigger] le(b, c) ==> le(a, c)
}

/// Every element of `s` may sort before or with every later one.
pub open spec fn sorted_by_le<A>(s: Seq<A>, le: spec_fn(A, A) -> bool) -> bool {
    forall|i: int, j: int| 0 <= i < j < s.len() ==> #[trigger] le(s[i], s[j])
}

/// Inserting into a sorted list keeps it sorted and adds the element.
pub proof fn lemma_insert_by_sorted<A>(s: Seq<A>, x: A, le: spec_fn(A, A) -> bool)
    requires
        is_total_preorder(le),
        sorted_by_le(s, le),
    ensures
        sorted_by_le(insert_by(s, x, le), le),
        insert_by(s, x, le).to_multiset() == s.to_multiset().insert(x),
    decreases s.len(),
{
    if s.len() == 0 {
        assert(seq![x] =~= Seq::<A>::empty().push(x));
    } else if le(s.last(), x) {
        let r = s.push(x);
        assert forall|i: int, j: int| 0 <= i < j < r.len() implies #[trigger] le(r[i], r[j]) by {
            if j == s.len() {
                if i < s.len() - 1 {
                    assert(le(s[i], s[s.len() - 1]));
                }
            } else {
                assert(le(s[i], s[j]));
            }
        }
    } else {
        let d = s.drop_last();
        assert(sorted_by_le(d, le)) by {
            assert forall|i: int, j: int| 0 <= i < j < d.len() implies #[trigger] le(d[i], d[j]) by {
                assert(le(s[i], s[j]));
            }
        }
        lemma_insert_by_sorted(d, x, le);
        let r = insert_by(d, x, le);
        let out = r.push(s.last());
        assert(le(x, s.last()));
        assert forall|i: int, j: int| 0 <= i < j < out.len() implies #[trigger] le(out[i], out[j]) by {
            if j == r.len() {
                assert(r.to_multiset().count(r[i]) > 0);
                assert(r.contains(r[i]));
                if r[i] != x {
                    assert(d.to_multiset().count(r[i]) > 0);
                    assert(d.contains(r[i]));
                    let k = choose|k: int| 0 <= k < d.len() && d[k] == r[i];
                    assert(le(s[k], s[s.len() - 1]));
                }
            } else {
                assert(le(r[i], r[j]));
            }
        }
        assert(s =~= d.push(s.last()));
        assert(out.to_multiset() =~= r.to_multiset().insert(s.last()));
        assert(s.to_multiset() =~= d.to_multiset().insert(s.last()));
    }
}

/// The insertion sort by a total preorder is sorted and is a permutation of
/// its input.
pub proof fn lemma_sort_by_sorted<A>(s: Seq<A>, le: spec_fn(A, A) -> bool)
    requires
        is_total_preorder(le),
    ensures
        sorted_by_le(sort_by(s, le), le),
        sort_by(s, le).to_multiset() == s.to_multiset(),
        sort_by(s, le).len() == s.len(),
    decreases s.len(),
{
    if s.len() > 0 {
        lemma_sort_by_sorted(s.drop_last(), le);
        lemma_insert_by_sorted(sort_by(s.drop_last(), le), s.last(), le);
        assert(s =~= s.drop_last().push(s.last()));
        assert(s.to_multiset() =~= s.drop_last().to_multiset().insert(s.last()));
    }
    assert(sort_by(s, le).to_multiset().len() == sort_by(s, le).len());
    assert(s.to_multiset().len() == s.len());
}

/// Two lists sorted by a total preorder, holding the same elements, are
/// equal where the preorder tells apart any two of their elements.
pub proof fn lemma_sorted_unique<A>(x: Seq<A>, y: Seq<A>, le: spec_fn(A, A) -> bool)
    requires
        is_total_preorder(le),
        sorted_by_le(x, le),
        sorted_by_le(y, le),
        x.to_multiset() == y.to_multiset(),
        forall|a: A, b: A| x.contains(a) && x.contains(b) && #[trigger] le(a, b) && #[trigger] le(b, a) ==> a == b,
    ensures
        x == y,
    decreases x.len(),
{
    assert(x.len() == x.to_multiset().len());
    assert(y.len() == y.to_multiset().len());
    if x.len() == 0 {
        assert(x =~= y);
    } else {
        assert(y.to_multiset().count(y[0]) > 0);
        assert(x.contains(y[0]));
        let k = choose|k: int| 0 <= k < x.len() && x[k] == y[0];
        assert(le(x[0], y[0])) by {
            if k > 0 {
                assert(le(x[0], x[k]));
            } else {
                assert(le(x[0], x[0]) || le(x[0], x[0]));
            }
        }
        assert(x.to_multiset().count(x[0]) > 0);
        assert(y.contains(x[0]));
        let m = choose|m: int| 0 <= m < y.len() && y[m] == x[0];
        assert(le(y[0], x[0])) by {
            if m > 0 {
                assert(le(y[0], y[m]));
            } else {
                assert(le(y[0], y[0]) || le(y[0], y[0]));
            }
        }
        assert(x.contains(x[0]));
        assert(x[0] == y[0]);
        let dx = x.drop_first();
        let dy = y.drop_first();
        assert(x.remove(0) =~= dx);
        assert(y.remove(0) =~= dy);
        assert(dx.to_multiset() == x.to_multiset().remove(x[0]));
        assert(dy.to_multiset() == y.to_multiset().remove(y[0]));
        assert(sorted_by_le(dx, le)) by {
            assert forall|i: int, j: int| 0 <= i < j < dx.len() implies #[trigger] le(dx[i], dx[j]) by {
                assert(le(x[i + 1], x[j + 1]));
            }
        }
        assert(sorted_by_le(dy, le)) by {
            assert forall|i: int, j: int| 0 <= i < j < dy.len() implies #[trigger] le(dy[i], dy[j]) by {
                assert(le(y[i + 1], y[j + 1]));
            }
        }
        assert forall|a: A, b: A| dx.contains(a) && dx.contains(b) && #[trigger] le(a, b) && #[trigger] le(b, a) implies a == b by {
            let i = choose|i: int| 0 <= i < dx.len() && dx[i] == a;
            let j = choose|j: int| 0 <= j < dx.len() && dx[j] == b;
            assert(x[i + 1] == a);
            assert(x[j + 1] == b);
        }
        lemma_sorted_unique(dx, dy, le);
        assert forall|i: int| 0 <= i < x.len() implies x[i] == y[i] by {
            if i > 0 {
                assert(x[i] == dx[i - 1]);
                assert(y[i] == dy[i - 1]);
            }
        }
        assert(x =~= y);
    }
}

/// Indices in `order` whose items rank together keep their order.
pub open spec fn stable_indices<T: Ranked>(items: Seq<T>, order: Seq<usize>) -> bool {
    forall|a: int, b: int|
        0 <= a < b < order.len() && #[trigger] items[order[a] as int].rank_le(items[order[b] as int])
            && #[trigger] items[order[b] as int].rank_le(items[order[a] as int]) ==> order[a] < order[b]
}

/// Inserting holds only the indices inserted into and the one inserted.
proof fn lemma_insert_ranked_members<T: Ranked>(items: Seq<T>, order: Seq<usize>, i: usize)
    ensures
        forall|k: int|
            0 <= k < insert_ranked(items, order, i).len() ==> #[trigger] insert_ranked(items, order, i)[k] == i
                || order.contains(insert_ranked(items, order, i)[k]),
    decreases order.len(),
{
    if order.len() > 0 && !items[order.last() as int].rank_le(items[i as int]) {
        let d = order.drop_last();
        lemma_insert_ranked_members(items, d, i);
        let r = insert_ranked(items, d, i);
        assert forall|k: int|
            0 <= k < insert_ranked(items, order, i).len() implies #[trigger] insert_ranked(items, order, i)[k] == i
                || order.contains(insert_ranked(items, order, i)[k]) by {
            if k < r.len() {
                if r[k] != i {
                    let m = choose|m: int| 0 <= m < d.len() && d[m] == r[k];
                    assert(order[m] == r[k]);
                }
            } else {
                assert(order[order.len() - 1] == order.last());
            }
        }
    } else if order.len() > 0 {
        assert forall|k: int|
            0 <= k < insert_ranked(items, order, i).len() implies #[trigger] insert_ranked(items, order, i)[k] == i
                || order.contains(insert_ranked(items, order, i)[k]) by {
            if k < order.len() {
                assert(order.push(i)[k] == order[k]);
            }
        }
    }
}

proof fn lemma_insert_ranked_stable<T: Ranked>(items: Seq<T>, order: Seq<usize>, i: usize)
    requires
        stable_indices(items, order),
        forall|k: int| 0 <= k < order.len() ==> order[k] < i,
    ensures
        stable_indices(items, insert_ranked(items, order, i)),
    decreases order.len(),
{
    let r = insert_ranked(items, order, i);
    if order.len() == 0 {
    } else if items[order.last() as int].rank_le(items[i as int]) {
        assert forall|a: int, b: int|
            0 <= a < b < r.len() && #[trigger] items[r[a] as int].rank_le(items[r[b] as int])
                && #[trigger] items[r[b] as int].rank_le(items[r[a] as int]) implies r[a] < r[b] by {
            assert(r[a] == order[a]);
            if b < order.len() {
                assert(r[b] == order[b]);
            }
        }
    } else {
        let d = order.drop_last();
        let last = order.last();
        assert(stable_indices(items, d)) by {
            assert forall|a: int, b: int|
                0 <= a < b < d.len() && #[trigger] items[d[a] as int].rank_le(items[d[b] as int])
                    && #[trigger] items[d[b] as int].rank_le(items[d[a] as int]) implies d[a] < d[b] by {
                assert(d[a] == order[a] && d[b] == order[b]);
            }
        }
        lemma_insert_ranked_stable(items, d, i);
        lemma_insert_ranked_members(items, d, i);
        let rd = insert_ranked(items, d, i);
        assert(r == rd.push(last));
        assert forall|a: int, b: int|
            0 <= a < b < r.len() && #[trigger] items[r[a] as int].rank_le(items[r[b] as int])
                && #[trigger] items[r[b] as int].rank_le(items[r[a] as int]) implies r[a] < r[b] by {
            if b < rd.len() {
                assert(r[a] == rd[a] && r[b] == rd[b]);
            } else {
                assert(r[b] == last);
                assert(r[a] == rd[a]);
                assert(rd[a] == i || d.contains(rd[a]));
                if rd[a] != i {
                    let m = choose|m: int| 0 <= m < d.len() && d[m] == rd[a];
                    assert(order[m] == rd[a]);
                    assert(last == order[order.len() - 1]);
                }
            }
        }
    }
}

/// The sort keeps items that rank together in their order.
pub proof fn lemma_ranked_order_stable<T: Ranked>(items: Seq<T>, n: nat)
    requires
        n <= usize::MAX,
    ensures
        stable_indices(items, ranked_order(items, n)),
    decreases n,
{
    if n > 0 {
        lemma_ranked_order_stable(items, (n - 1) as nat);
        lemma_ranked_order_len(items, (n - 1) as nat);
        lemma_insert_ranked_stable(items, ranked_order(items, (n - 1) as nat), (n - 1) as usize);
    }
}

} // verus!
