//! Sorting by a key, the largest first, with equals left in their order.

use vstd::prelude::*;

verus! {

/// A key by which frame formats are put in order: the area, then the codec, then the rate, which
/// is a fraction.
#[derive(Debug, Clone, Copy, PartialEq, Eq, Structural)]
pub struct SortKey {
    pub area: u64,
    pub is_mjpeg: bool,
    pub rate_num: u32,
    pub rate_den: u32,
}

/// The numerator of a rate; one without a denominator counts as zero.
pub open spec fn numerator(num: u32, den: u32) -> int {
    if den == 0 {
        0
    } else {
        num as int
    }
}

/// The denominator of a rate.
pub open spec fn denominator(den: u32) -> int {
    if den == 0 {
        1
    } else {
        den as int
    }
}

/// Whether the rate `a_num / a_den` is above the rate `b_num / b_den`, as fractions.
pub open spec fn is_faster(a_num: u32, a_den: u32, b_num: u32, b_den: u32) -> bool {
    numerator(a_num, a_den) * denominator(b_den) > numerator(b_num, b_den) * denominator(a_den)
}

/// Whether `a` is put before `b` on account of the keys alone.
pub open spec fn is_larger(a: SortKey, b: SortKey) -> bool {
    ||| a.area > b.area
    ||| a.area == b.area && a.is_mjpeg && !b.is_mjpeg
    ||| a.area == b.area && a.is_mjpeg == b.is_mjpeg && is_faster(
        a.rate_num,
        a.rate_den,
        b.rate_num,
        b.rate_den,
    )
}

/// Whether the item at `i` is put before the item at `j`: its key is larger, or it came first
/// with a key that is as large.
pub open spec fn goes_before(keys: Seq<SortKey>, i: int, j: int) -> bool {
    is_larger(keys[i], keys[j]) || (!is_larger(keys[j], keys[i]) && i < j)
}

/// Whether `order` lists every position of `keys` once, the larger keys first and equal keys
/// as they came.
pub open spec fn is_sorted_order(keys: Seq<SortKey>, order: Seq<int>) -> bool {
    &&& order.len() == keys.len()
    &&& forall|a: int| 0 <= a < order.len() ==> 0 <= #[trigger] order[a] < keys.len()
    &&& forall|a: int, b: int|
        0 <= a < b < order.len() ==> goes_before(keys, #[trigger] order[a], #[trigger] order[b])
}

/// Positions as mathematical integers.
pub open spec fn positions(order: Seq<usize>) -> Seq<int> {
    order.map_values(|i: usize| i as int)
}

/// The items of `items` in the order that `order` lists.
pub open spec fn reordered<T>(items: Seq<T>, order: Seq<int>) -> Seq<T> {
    Seq::new(order.len(), |a: int| items[order[a]])
}

fn faster(a_num: u32, a_den: u32, b_num: u32, b_den: u32) -> (yes: bool)
    ensures
        yes == is_faster(a_num, a_den, b_num, b_den),
{
    let (an, ad): (u64, u64) = if a_den == 0 {
        (0, 1)
    } else {
        (a_num as u64, a_den as u64)
    };
    let (bn, bd): (u64, u64) = if b_den == 0 {
        (0, 1)
    } else {
        (b_num as u64, b_den as u64)
    };
    proof {
        lemma_product_fits(an, bd);
        lemma_product_fits(bn, ad);
    }
    an * bd > bn * ad
}

proof fn lemma_product_fits(x: u64, y: u64)
    requires
        x <= 0xFFFF_FFFF,
        y <= 0xFFFF_FFFF,
    ensures
        0 <= x * y <= u64::MAX,
{
    assert(0 <= x * y <= 0xFFFF_FFFF * 0xFFFF_FFFF) by (nonlinear_arith)
        requires
            0 <= x <= 0xFFFF_FFFF,
            0 <= y <= 0xFFFF_FFFF,
    ;
}

fn larger(a: SortKey, b: SortKey) -> (yes: bool)
    ensures
        yes == is_larger(a, b),
{
    a.area > b.area || (a.area == b.area && ((a.is_mjpeg && !b.is_mjpeg) || (a.is_mjpeg
        == b.is_mjpeg && faster(a.rate_num, a.rate_den, b.rate_num, b.rate_den))))
}

/// What is larger than `b` is larger than everything that is not larger than `b`.
proof fn lemma_larger_than_the_rest(a: SortKey, b: SortKey, c: SortKey)
    requires
        is_larger(a, b),
        !is_larger(c, b),
    ensures
        is_larger(a, c),
{
    if a.area == b.area && b.area == c.area && a.is_mjpeg == b.is_mjpeg && b.is_mjpeg
        == c.is_mjpeg {
        let (an, ad) = (numerator(a.rate_num, a.rate_den), denominator(a.rate_den));
        let (bn, bd) = (numerator(b.rate_num, b.rate_den), denominator(b.rate_den));
        let (cn, cd) = (numerator(c.rate_num, c.rate_den), denominator(c.rate_den));
        assert(an * cd > cn * ad) by (nonlinear_arith)
            requires
                an * bd > bn * ad,
                cn * bd <= bn * cd,
                ad > 0,
                bd > 0,
                cd > 0,
        {
            assert((an * bd) * cd > (bn * ad) * cd);
            assert((cn * bd) * ad <= (bn * cd) * ad);
            assert((an * cd) * bd > (cn * ad) * bd);
        }
    }
}

/// Lists the positions of `keys` in their sorted order.
pub fn sorted_order(keys: &Vec<SortKey>) -> (order: Vec<usize>)
    ensures
        is_sorted_order(keys@, positions(order@)),
{
    let mut order: Vec<usize> = Vec::new();
    let mut n: usize = 0;
    while n < keys.len()
        invariant
            n <= keys@.len(),
            order@.len() == n,
            forall|a: int| 0 <= a < n ==> #[trigger] order@[a] < n,
            forall|a: int, b: int|
                0 <= a < b < n ==> goes_before(
                    keys@,
                    #[trigger] order@[a] as int,
                    #[trigger] order@[b] as int,
                ),
        decreases keys@.len() - n,
    {
        let mut at: usize = 0;
        while at < order.len() && !larger(keys[n], keys[order[at]])
            invariant
                n < keys@.len(),
                order@.len() == n,
                at <= n,
                forall|a: int| 0 <= a < n ==> #[trigger] order@[a] < n,
                forall|a: int|
                    0 <= a < at ==> !is_larger(
                        keys@[n as int],
                        keys@[#[trigger] order@[a] as int],
                    ),
            decreases n - at,
        {
            at += 1;
        }
        let ghost before = order@;
        order.insert(at, n);
        proof {
            assert forall|a: int, b: int| 0 <= a < b < order@.len() implies goes_before(
                keys@,
                #[trigger] order@[a] as int,
                #[trigger] order@[b] as int,
            ) by {
                let old_a = if a < at {
                    a
                } else {
                    a - 1
                };
                let old_b = if b < at {
                    b
                } else {
                    b - 1
                };
                if a == at {
                    assert(before[old_b] < n);
                    if old_b > at {
                        assert(goes_before(keys@, before[at as int] as int, before[old_b] as int));
                        lemma_larger_than_the_rest(
                            keys@[n as int],
                            keys@[before[at as int] as int],
                            keys@[before[old_b] as int],
                        );
                    }
                } else if b == at {
                    assert(before[old_a] < n);
                } else {
                    assert(goes_before(keys@, before[old_a] as int, before[old_b] as int));
                }
            }
        }
        n += 1;
    }
    assert forall|a: int, b: int| 0 <= a < b < order@.len() implies goes_before(
        keys@,
        #[trigger] positions(order@)[a],
        #[trigger] positions(order@)[b],
    ) by {
        assert(goes_before(keys@, order@[a] as int, order@[b] as int));
    }
    order
}

/// A sorted order lists no position twice.
pub proof fn lemma_order_is_injective(keys: Seq<SortKey>, order: Seq<int>)
    requires
        is_sorted_order(keys, order),
    ensures
        order.no_duplicates(),
{
    assert forall|a: int, b: int| 0 <= a < order.len() && 0 <= b < order.len() && a
        != b implies order[a] != order[b] by {
        if a < b {
            assert(goes_before(keys, order[a], order[b]));
        } else {
            assert(goes_before(keys, order[b], order[a]));
        }
    }
}

/// A sorted order lists every position.
pub proof fn lemma_order_is_surjective(keys: Seq<SortKey>, order: Seq<int>, i: int)
    requires
        is_sorted_order(keys, order),
        0 <= i < keys.len(),
    ensures
        order.contains(i),
{
    lemma_order_is_injective(keys, order);
    let all = vstd::set_lib::set_int_range(0, keys.len() as int);
    vstd::set_lib::lemma_int_range(0, keys.len() as int);
    order.unique_seq_to_set();
    assert(order.to_set().subset_of(all)) by {
        assert forall|v: int| order.to_set().contains(v) implies all.contains(v) by {
            let a = choose|a: int| 0 <= a < order.len() && order[a] == v;
            assert(0 <= order[a] < keys.len());
        }
    }
    vstd::set_lib::lemma_subset_equality(order.to_set(), all);
    assert(all.contains(i));
    assert(order.to_set().contains(i));
}

/// There is only one sorted order.
pub proof fn sorted_order_is_unique(keys: Seq<SortKey>, a: Seq<int>, b: Seq<int>)
    requires
        is_sorted_order(keys, a),
        is_sorted_order(keys, b),
    ensures
        a == b,
{
    lemma_order_is_injective(keys, a);
    lemma_order_is_injective(keys, b);
    assert forall|n: int| 0 <= n < a.len() implies a[n] == b[n] by {
        lemma_orders_agree(keys, a, b, n);
    }
    assert(a =~= b);
}

proof fn lemma_orders_agree(keys: Seq<SortKey>, a: Seq<int>, b: Seq<int>, n: int)
    requires
        is_sorted_order(keys, a),
        is_sorted_order(keys, b),
        a.no_duplicates(),
        b.no_duplicates(),
        0 <= n < keys.len(),
    ensures
        forall|k: int| 0 <= k <= n ==> #[trigger] a[k] == b[k],
    decreases n,
{
    if n > 0 {
        lemma_orders_agree(keys, a, b, n - 1);
    }
    if a[n] != b[n] {
        lemma_order_is_surjective(keys, b, a[n]);
        lemma_order_is_surjective(keys, a, b[n]);
        let i = b.index_of(a[n]);
        let j = a.index_of(b[n]);
        if i < n {
            assert(a[i] == b[i]);
        }
        if j < n {
            assert(a[j] == b[j]);
        }
        assert(goes_before(keys, b[n], b[i]));
        assert(goes_before(keys, a[n], a[j]));
    }
}

/// A sorted order lists every position once: the larger area first, then MJPEG, then the higher
/// rate, and equals as they came. Rates are compared as fractions; one without a denominator is
/// as slow as one of zero.
pub proof fn a_sorted_order_lists_the_largest_first(keys: Seq<SortKey>, order: Seq<int>)
    requires
        is_sorted_order(keys, order),
    ensures
        order.len() == keys.len(),
        forall|i: int| 0 <= i < keys.len() ==> #[trigger] order.contains(i),
        forall|a: int, b: int|
            0 <= a < b < order.len() ==> {
                let (i, j) = (#[trigger] order[a], #[trigger] order[b]);
                let (k, l) = (keys[i], keys[j]);
                let (kn, kd) = if k.rate_den == 0 {
                    (0, 1)
                } else {
                    (k.rate_num as int, k.rate_den as int)
                };
                let (ln, ld) = if l.rate_den == 0 {
                    (0, 1)
                } else {
                    (l.rate_num as int, l.rate_den as int)
                };
                &&& i != j
                &&& k.area >= l.area
                &&& k.area == l.area ==> (l.is_mjpeg ==> k.is_mjpeg)
                &&& k.area == l.area && k.is_mjpeg == l.is_mjpeg ==> kn * ld >= ln * kd
                &&& k.area == l.area && k.is_mjpeg == l.is_mjpeg && kn * ld == ln * kd ==> i < j
            },
{
    lemma_order_is_injective(keys, order);
    assert forall|i: int| 0 <= i < keys.len() implies #[trigger] order.contains(i) by {
        lemma_order_is_surjective(keys, order, i);
    }
    assert forall|a: int, b: int| 0 <= a < b < order.len() implies goes_before(
        keys,
        #[trigger] order[a],
        #[trigger] order[b],
    ) by {}
}

/// The items of a list are put where the order has them.
pub proof fn items_follow_their_order<T>(items: Seq<T>, order: Seq<int>, a: int)
    requires
        0 <= a < order.len(),
    ensures
        reordered(items, order).len() == order.len(),
        reordered(items, order)[a] == items[order[a]],
{
}

/// Positions are compared by their numbers.
pub proof fn positions_are_seen_by_their_numbers(order: Seq<usize>, a: int)
    requires
        0 <= a < order.len(),
    ensures
        positions(order).len() == order.len(),
        positions(order)[a] == order[a],
{
}

}
