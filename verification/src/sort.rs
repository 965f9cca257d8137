//! Sorting by key. Items with equal keys keep their order.
use vstd::prelude::*;

verus! {

/// Whether place `i` comes before place `j`: by key, and by place where the keys are equal.
pub open spec fn comes_before(keys: Seq<i128>, i: usize, j: usize) -> bool {
    keys[i as int] < keys[j as int] || (keys[i as int] == keys[j as int] && i < j)
}

/// Whether each place of the list comes before the places behind it.
pub open spec fn in_order(keys: Seq<i128>, order: Seq<usize>) -> bool {
    forall|a: int, b: int|
        0 <= a < b < order.len() ==> comes_before(keys, #[trigger] order[a], #[trigger] order[b])
}

/// Whether `order` names every place of `keys` once, by key, and by place where keys are equal.
/// There is one such list for each list of keys.
pub open spec fn is_stable_order(keys: Seq<i128>, order: Seq<usize>) -> bool {
    &&& order.len() == keys.len()
    &&& forall|a: int| 0 <= a < order.len() ==> #[trigger] order[a] < keys.len()
    &&& in_order(keys, order)
}

/// Whether the list holds exactly the places `lo..hi`.
spec fn holds_range(order: Seq<usize>, lo: int, hi: int) -> bool {
    &&& order.len() == hi - lo
    &&& forall|a: int| 0 <= a < order.len() ==> lo <= #[trigger] order[a] < hi
}

fn goes_first(keys: &Vec<i128>, i: usize, j: usize) -> (r: bool)
    requires
        i < keys.len(),
        j < keys.len(),
    ensures
        r == comes_before(keys@, i, j),
{
    keys[i] < keys[j] || (keys[i] == keys[j] && i < j)
}

fn merge(keys: &Vec<i128>, a: &Vec<usize>, b: &Vec<usize>, Ghost(lo): Ghost<int>, Ghost(mid): Ghost<int>, Ghost(hi): Ghost<int>) -> (r: Vec<usize>)
    requires
        0 <= lo <= mid <= hi <= keys.len(),
        holds_range(a@, lo, mid),
        holds_range(b@, mid, hi),
        in_order(keys@, a@),
        in_order(keys@, b@),
    ensures
        holds_range(r@, lo, hi),
        in_order(keys@, r@),
{
    let mut r: Vec<usize> = Vec::new();
    let mut i: usize = 0;
    let mut j: usize = 0;
    while i < a.len() || j < b.len()
        invariant
            i <= a.len(),
            j <= b.len(),
            r.len() == i + j,
            0 <= lo <= mid <= hi <= keys.len(),
            holds_range(a@, lo, mid),
            holds_range(b@, mid, hi),
            in_order(keys@, a@),
            in_order(keys@, b@),
            in_order(keys@, r@),
            forall|k: int| 0 <= k < r.len() ==> lo <= #[trigger] r@[k] < hi,
            forall|k: int, x: int|
                0 <= k < r.len() && i <= x < a.len() ==> comes_before(
                    keys@,
                    #[trigger] r@[k],
                    #[trigger] a@[x],
                ),
            forall|k: int, x: int|
                0 <= k < r.len() && j <= x < b.len() ==> comes_before(
                    keys@,
                    #[trigger] r@[k],
                    #[trigger] b@[x],
                ),
        decreases a.len() - i + b.len() - j,
    {
        let from_a: bool = if i < a.len() && j < b.len() {
            goes_first(keys, a[i], b[j])
        } else {
            i < a.len()
        };
        if from_a {
            let next: usize = a[i];
            proof {
                assert(forall|x: int| j <= x < b.len() ==> comes_before(keys@, next, #[trigger] b@[x]));
            }
            r.push(next);
            i = i + 1;
        } else {
            let next: usize = b[j];
            proof {
                assert(forall|x: int| i <= x < a.len() ==> comes_before(keys@, next, #[trigger] a@[x]));
            }
            r.push(next);
            j = j + 1;
        }
    }
    r
}

fn sorted_range(keys: &Vec<i128>, lo: usize, hi: usize) -> (r: Vec<usize>)
    requires
        lo <= hi <= keys.len(),
    ensures
        holds_range(r@, lo as int, hi as int),
        in_order(keys@, r@),
    decreases hi - lo,
{
    if hi - lo == 0 {
        Vec::new()
    } else if hi - lo == 1 {
        let mut r: Vec<usize> = Vec::new();
        r.push(lo);
        r
    } else {
        let mid: usize = lo + (hi - lo) / 2;
        let a = sorted_range(keys, lo, mid);
        let b = sorted_range(keys, mid, hi);
        merge(keys, &a, &b, Ghost(lo as int), Ghost(mid as int), Ghost(hi as int))
    }
}

/// A stable order names every place of the keys.
pub proof fn stable_order_names_every_place(keys: Seq<i128>, order: Seq<usize>, place: usize)
    requires
        is_stable_order(keys, order),
        place < keys.len(),
    ensures
        order.contains(place),
{
    let places = order.map_values(|p: usize| p as int);
    assert(places.no_duplicates()) by {
        assert forall|a: int, b: int| 0 <= a < places.len() && 0 <= b < places.len() && a != b implies places[a]
            != places[b] by {
            if a < b {
                assert(comes_before(keys, order[a], order[b]));
            } else {
                assert(comes_before(keys, order[b], order[a]));
            }
        }
    }
    places.unique_seq_to_set();
    let range = vstd::set_lib::set_int_range(0, keys.len() as int);
    vstd::set_lib::lemma_int_range(0, keys.len() as int);
    assert(places.to_set().subset_of(range)) by {
        assert forall|x: int| places.to_set().contains(x) implies range.contains(x) by {
            let a = choose|a: int| 0 <= a < places.len() && places[a] == x;
            assert(order[a] < keys.len());
        }
    }
    vstd::set_lib::lemma_subset_equality(places.to_set(), range);
    assert(places.to_set().contains(place as int));
    let a = choose|a: int| 0 <= a < places.len() && places[a] == place as int;
    assert(order[a] == place);
}

/// Two stable orders of the same keys agree up to any length.
proof fn stable_orders_agree(keys: Seq<i128>, a: Seq<usize>, b: Seq<usize>, n: int)
    requires
        is_stable_order(keys, a),
        is_stable_order(keys, b),
        0 <= n <= keys.len(),
    ensures
        forall|k: int| 0 <= k < n ==> a[k] == b[k],
    decreases n,
{
    if n > 0 {
        stable_orders_agree(keys, a, b, n - 1);
        let i = n - 1;
        if a[i] != b[i] {
            assert(a[i] < keys.len() && b[i] < keys.len());
            stable_order_names_every_place(keys, b, a[i]);
            stable_order_names_every_place(keys, a, b[i]);
            let j = choose|j: int| 0 <= j < b.len() && b[j] == a[i];
            let k = choose|k: int| 0 <= k < a.len() && a[k] == b[i];
            if j < i {
                assert(a[j] == a[i]);
                assert(comes_before(keys, a[j], a[i]));
            }
            if k < i {
                assert(b[k] == b[i]);
                assert(comes_before(keys, b[k], b[i]));
            }
            assert(comes_before(keys, b[i], b[j]));
            assert(comes_before(keys, a[i], a[k]));
        }
    }
}

/// There is one stable order of the keys.
pub proof fn stable_order_is_unique(keys: Seq<i128>, a: Seq<usize>, b: Seq<usize>)
    requires
        is_stable_order(keys, a),
        is_stable_order(keys, b),
    ensures
        a == b,
{
    stable_orders_agree(keys, a, b, keys.len() as int);
    assert(a =~= b);
}

/// The ordered places with one more where it belongs.
pub open spec fn placed(keys: Seq<i128>, order: Seq<usize>, place: usize) -> Seq<usize>
    decreases order.len(),
{
    if order.len() == 0 {
        seq![place]
    } else if comes_before(keys, order.last(), place) {
        order.push(place)
    } else {
        placed(keys, order.drop_last(), place).push(order.last())
    }
}

/// The stable order of the keys.
pub open spec fn stable_order_of(keys: Seq<i128>) -> Seq<usize>
    decreases keys.len(),
{
    if keys.len() == 0 {
        Seq::empty()
    } else {
        placed(keys, stable_order_of(keys.drop_last()), (keys.len() - 1) as usize)
    }
}

proof fn placing_keeps_order(keys: Seq<i128>, order: Seq<usize>, place: usize)
    requires
        in_order(keys, order),
        forall|a: int| 0 <= a < order.len() ==> #[trigger] order[a] < place,
    ensures
        placed(keys, order, place).len() == order.len() + 1,
        in_order(keys, placed(keys, order, place)),
        forall|a: int|
            0 <= a < order.len() + 1 ==> (order.contains(#[trigger] placed(keys, order, place)[a])
                || placed(keys, order, place)[a] == place),
    decreases order.len(),
{
    let r = placed(keys, order, place);
    if order.len() == 0 {
    } else if comes_before(keys, order.last(), place) {
        assert forall|a: int| 0 <= a < order.len() implies comes_before(keys, #[trigger] order[a], place) by {
            if a < order.len() - 1 {
                assert(comes_before(keys, order[a], order[order.len() - 1]));
            }
        }
        assert forall|a: int| 0 <= a < r.len() implies order.contains(#[trigger] r[a]) || r[a] == place by {
            if a < order.len() {
                assert(r[a] == order[a]);
            }
        }
    } else {
        let front = order.drop_last();
        assert(in_order(keys, front)) by {
            assert forall|a: int, b: int| 0 <= a < b < front.len() implies comes_before(
                keys,
                #[trigger] front[a],
                #[trigger] front[b],
            ) by {
                assert(comes_before(keys, order[a], order[b]));
            }
        }
        assert forall|a: int| 0 <= a < front.len() implies #[trigger] front[a] < place by {
            assert(order[a] < place);
        }
        placing_keeps_order(keys, front, place);
        let inner = placed(keys, front, place);
        assert(order[order.len() - 1] < place);
        assert forall|a: int| 0 <= a < inner.len() implies comes_before(
            keys,
            #[trigger] inner[a],
            order.last(),
        ) by {
            if front.contains(inner[a]) {
                let k = choose|k: int| 0 <= k < front.len() && front[k] == inner[a];
                assert(comes_before(keys, order[k], order[order.len() - 1]));
            }
        }
        assert(r == inner.push(order.last()));
        assert forall|a: int| 0 <= a < r.len() implies order.contains(#[trigger] r[a]) || r[a] == place by {
            if a < inner.len() {
                assert(r[a] == inner[a]);
                if front.contains(inner[a]) {
                    let k = choose|k: int| 0 <= k < front.len() && front[k] == inner[a];
                    assert(order[k] == r[a]);
                }
            } else {
                assert(r[a] == order[order.len() - 1]);
            }
        }
    }
}

/// Every list of keys has a stable order.
pub proof fn stable_order_exists(keys: Seq<i128>)
    requires
        keys.len() <= usize::MAX,
    ensures
        is_stable_order(keys, stable_order_of(keys)),
    decreases keys.len(),
{
    if keys.len() > 0 {
        let front = keys.drop_last();
        stable_order_exists(front);
        let order = stable_order_of(front);
        let place = (keys.len() - 1) as usize;
        assert(in_order(keys, order)) by {
            assert forall|a: int, b: int| 0 <= a < b < order.len() implies comes_before(
                keys,
                #[trigger] order[a],
                #[trigger] order[b],
            ) by {
                assert(order[a] < front.len() && order[b] < front.len());
                assert(comes_before(front, order[a], order[b]));
            }
        }
        placing_keeps_order(keys, order, place);
        let r = stable_order_of(keys);
        assert forall|a: int| 0 <= a < r.len() implies #[trigger] r[a] < keys.len() by {
            assert(r[a] == placed(keys, order, place)[a]);
            if order.contains(r[a]) {
                let k = choose|k: int| 0 <= k < order.len() && order[k] == r[a];
                assert(order[k] < front.len());
            }
        }
    }
}

/// The items in the stable order of their keys.
pub open spec fn ordered<T>(items: Seq<T>, keys: Seq<i128>) -> Seq<T> {
    stable_order_of(keys).map_values(|p: usize| items[p as int])
}

/// The places of `keys`, sorted by key. Places with equal keys keep their order.
pub fn stable_order(keys: &Vec<i128>) -> (r: Vec<usize>)
    ensures
        is_stable_order(keys@, r@),
        r@ == stable_order_of(keys@),
{
    let r = sorted_range(keys, 0, keys.len());
    proof {
        stable_order_exists(keys@);
        stable_order_is_unique(keys@, r@, stable_order_of(keys@));
    }
    r
}

/// A stable order goes up: no place stands before one with a lesser key, and of two places with
/// equal keys the one that came first stays first. No place is named twice.
pub proof fn stable_orders_ascend(keys: Seq<i128>, order: Seq<usize>, a: int, b: int)
    requires
        is_stable_order(keys, order),
        0 <= a < b < order.len(),
    ensures
        order[a] < keys.len(),
        order[b] < keys.len(),
        keys[order[a] as int] <= keys[order[b] as int],
        keys[order[a] as int] == keys[order[b] as int] ==> order[a] < order[b],
        order[a] != order[b],
        order.len() == keys.len(),
{
    assert(comes_before(keys, order[a], order[b]));
}

} // verus!
