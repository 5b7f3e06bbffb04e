//! The order of names, and sorting by it.

use vstd::prelude::*;

use crate::text;

verus! {

/// Whether `a` stands before `b` in the dictionary order of their characters.
pub open spec fn name_before(a: Seq<char>, b: Seq<char>) -> bool
    decreases a.len(),
{
    if b.len() == 0 {
        false
    } else if a.len() == 0 {
        true
    } else if a[0] == b[0] {
        name_before(a.drop_first(), b.drop_first())
    } else {
        a[0] < b[0]
    }
}

/// Whether the item at index `a` belongs before the one at index `b` when items with these
/// names are sorted: by name, and where the names are the same, as they came.
pub open spec fn belongs_before(names: Seq<Seq<char>>, a: int, b: int) -> bool {
    name_before(names[a], names[b]) || (names[a] == names[b] && a < b)
}

/// Whether `order` lists the indices of `names` as a stable sort by name does.
pub open spec fn sorts(names: Seq<Seq<char>>, order: Seq<int>) -> bool {
    &&& order.len() == names.len()
    &&& forall|i: int| 0 <= i < order.len() ==> 0 <= #[trigger] order[i] < names.len()
    &&& order.no_duplicates()
    &&& forall|i: int, j: int|
        0 <= i < j < order.len() ==> belongs_before(names, #[trigger] order[i], #[trigger] order[j])
}

/// No name stands before itself.
pub proof fn lemma_name_before_irreflexive(a: Seq<char>)
    ensures
        !name_before(a, a),
    decreases a.len(),
{
    if a.len() > 0 {
        lemma_name_before_irreflexive(a.drop_first());
    }
}

/// Of two different names one stands before the other.
pub proof fn lemma_name_before_total(a: Seq<char>, b: Seq<char>)
    ensures
        name_before(a, b) || name_before(b, a) || a == b,
    decreases a.len(),
{
    if a.len() == 0 && b.len() == 0 {
        assert(a =~= b);
    } else if a.len() > 0 && b.len() > 0 && a[0] == b[0] {
        lemma_name_before_total(a.drop_first(), b.drop_first());
        if a.drop_first() == b.drop_first() {
            assert(a =~= seq![a[0]] + a.drop_first());
            assert(b =~= seq![b[0]] + b.drop_first());
        }
    }
}

/// The order of names is transitive.
pub proof fn lemma_name_before_transitive(a: Seq<char>, b: Seq<char>, c: Seq<char>)
    requires
        name_before(a, b),
        name_before(b, c),
    ensures
        name_before(a, c),
    decreases a.len(),
{
    if a.len() > 0 && a[0] == b[0] && b[0] == c[0] {
        lemma_name_before_transitive(a.drop_first(), b.drop_first(), c.drop_first());
    }
}

/// Whether the name `a` stands before the name `b`.
pub fn is_before(a: &str, b: &str) -> (r: bool)
    ensures
        r == name_before(a@, b@),
{
    let x = text::chars_of(a);
    let y = text::chars_of(b);
    let mut i: usize = 0;
    assert(x@.skip(0) =~= x@);
    assert(y@.skip(0) =~= y@);
    while i < x.len() && i < y.len()
        invariant
            x@ == a@,
            y@ == b@,
            i <= x@.len(),
            i <= y@.len(),
            name_before(x@, y@) == name_before(x@.skip(i as int), y@.skip(i as int)),
        decreases x@.len() - i,
    {
        if x[i] != y[i] {
            return x[i] < y[i];
        }
        assert(x@.skip(i as int).drop_first() =~= x@.skip(i + 1));
        assert(y@.skip(i as int).drop_first() =~= y@.skip(i + 1));
        i += 1;
    }
    i < y.len()
}

/// Every index occurs in a sorting order.
pub proof fn lemma_order_covers(names: Seq<Seq<char>>, order: Seq<int>, k: int)
    requires
        sorts(names, order),
        0 <= k < names.len(),
    ensures
        order.contains(k),
{
    let all = vstd::set_lib::set_int_range(0, names.len() as int);
    vstd::set_lib::lemma_int_range(0, names.len() as int);
    order.unique_seq_to_set();
    assert(order.to_set().subset_of(all));
    vstd::set_lib::lemma_subset_equality(order.to_set(), all);
    assert(all.contains(k));
    assert(order.to_set().contains(k));
}

/// There is only one way to sort: two orders that sort the same names are the same.
pub proof fn law_sorting_is_unique(names: Seq<Seq<char>>, a: Seq<int>, b: Seq<int>)
    requires
        sorts(names, a),
        sorts(names, b),
    ensures
        a == b,
{
    assert forall|i: int| 0 <= i < a.len() implies a[i] == b[i] by {
        lemma_same_from_start(names, a, b, i);
    }
    assert(a =~= b);
}

/// Two sorting orders agree at the index `i`.
proof fn lemma_same_from_start(names: Seq<Seq<char>>, a: Seq<int>, b: Seq<int>, i: int)
    requires
        sorts(names, a),
        sorts(names, b),
        0 <= i < a.len(),
    ensures
        a[i] == b[i],
    decreases i,
{
    assert forall|j: int| 0 <= j < i implies a[j] == b[j] by {
        lemma_same_from_start(names, a, b, j);
    }
    lemma_order_covers(names, a, b[i]);
    lemma_order_covers(names, b, a[i]);
    let p = choose|p: int| 0 <= p < a.len() && a[p] == b[i];
    let q = choose|q: int| 0 <= q < b.len() && b[q] == a[i];
    if a[i] != b[i] {
        assert(p > i);
        assert(q > i);
        assert(belongs_before(names, a[i], a[p]));
        assert(belongs_before(names, b[i], b[q]));
        lemma_name_before_irreflexive(names[a[i]]);
        if name_before(names[a[i]], names[b[i]]) && name_before(names[b[i]], names[a[i]]) {
            lemma_name_before_transitive(names[a[i]], names[b[i]], names[a[i]]);
        }
    }
}

/// Putting the next index where its name belongs keeps the order sorting.
pub proof fn lemma_insert_sorts(names: Seq<Seq<char>>, name: Seq<char>, order: Seq<int>, k: int)
    requires
        sorts(names, order),
        0 <= k <= order.len(),
        k > 0 ==> !name_before(name, names[order[k - 1]]),
        forall|j: int| k <= j < order.len() ==> name_before(name, names[#[trigger] order[j]]),
    ensures
        sorts(names.push(name), order.insert(k, names.len() as int)),
{
    let more = names.push(name);
    let next = order.insert(k, names.len() as int);
    let n = names.len() as int;
    order.insert_ensures(k, n);
    assert forall|j: int| 0 <= j < k implies belongs_before(more, #[trigger] order[j], n) by {
        let last = order[k - 1];
        lemma_name_before_total(name, names[last]);
        if j < k - 1 {
            assert(belongs_before(names, order[j], last));
            if name_before(names[order[j]], names[last]) && name_before(names[last], name) {
                lemma_name_before_transitive(names[order[j]], names[last], name);
            }
        }
    }
    assert forall|i: int| 0 <= i < next.len() implies 0 <= #[trigger] next[i] < more.len() by {
        if i < k {
            assert(next[i] == order[i]);
        } else if i > k {
            assert(next[i] == order[i - 1]);
        }
    }
    assert forall|i: int, j: int| 0 <= i < j < next.len() implies belongs_before(
        more,
        #[trigger] next[i],
        #[trigger] next[j],
    ) by {
        let a = if i < k { i } else { i - 1 };
        let b = if j < k { j } else { j - 1 };
        if i == k {
            assert(next[j] == order[b]);
        } else if j == k {
            assert(next[i] == order[a]);
        } else {
            assert(next[i] == order[a] && next[j] == order[b]);
            assert(belongs_before(names, order[a], order[b]));
        }
    }
    assert(next.no_duplicates()) by {
        assert forall|i: int, j: int|
            0 <= i < next.len() && 0 <= j < next.len() && i != j implies next[i] != next[j] by {
            let a = if i < k { i } else { i - 1 };
            let b = if j < k { j } else { j - 1 };
            if i != k {
                assert(next[i] == order[a]);
            }
            if j != k {
                assert(next[j] == order[b]);
            }
        }
    }
}

/// A sequence in a sorting order holds the same items as before.
pub proof fn lemma_reordered<A>(names: Seq<Seq<char>>, from: Seq<A>, to: Seq<A>, order: Seq<int>)
    requires
        sorts(names, order),
        from.len() == names.len(),
        to.len() == names.len(),
        forall|i: int| 0 <= i < to.len() ==> #[trigger] to[i] == from[order[i]],
    ensures
        to.to_multiset() == from.to_multiset(),
{
    lemma_same_items(from, to, order);
}

/// A sequence that takes each item of another once holds the same items.
proof fn lemma_same_items<A>(from: Seq<A>, to: Seq<A>, order: Seq<int>)
    requires
        order.len() == from.len(),
        to.len() == from.len(),
        order.no_duplicates(),
        forall|i: int| 0 <= i < order.len() ==> 0 <= #[trigger] order[i] < from.len(),
        forall|i: int| 0 <= i < to.len() ==> #[trigger] to[i] == from[order[i]],
    ensures
        to.to_multiset() == from.to_multiset(),
    decreases from.len(),
{
    broadcast use vstd::seq_lib::group_to_multiset_ensures;

    if from.len() == 0 {
        assert(from =~= to);
    } else {
        let k = order.last();
        let from_less = from.remove(k);
        let to_less = to.drop_last();
        let order_less = Seq::new(
            (order.len() - 1) as nat,
            |i: int| if order[i] > k { order[i] - 1 } else { order[i] },
        );
        assert forall|i: int| 0 <= i < order_less.len() implies 0 <= #[trigger] order_less[i]
            < from_less.len() by {
            assert(order[i] != order[order.len() - 1]);
        }
        assert forall|i: int| 0 <= i < to_less.len() implies #[trigger] to_less[i]
            == from_less[order_less[i]] by {
            assert(order[i] != order[order.len() - 1]);
            assert(to[i] == from[order[i]]);
        }
        assert(order_less.no_duplicates()) by {
            assert forall|i: int, j: int|
                0 <= i < order_less.len() && 0 <= j < order_less.len() && i != j implies
                order_less[i] != order_less[j] by {
                assert(order[i] != order[j]);
                assert(order[i] != order[order.len() - 1]);
                assert(order[j] != order[order.len() - 1]);
            }
        }
        lemma_same_items(from_less, to_less, order_less);
        assert(to =~= to_less.push(to.last()));
        assert(to.last() == from[k]);
        assert(from_less.insert(k, from[k]) =~= from);
    }
}

} // verus!
