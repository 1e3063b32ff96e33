//! The four precomputed lookup tables that drive hand evaluation.
//!
//! The tables are read-only data supplied by the caller: two tables indexed
//! by the 13-bit rank-presence mask (one valid for flush hands, one for
//! hands of five pairwise distinct ranks) and a parallel pair of arrays
//! (ascending prime-product keys and their strength values) for the
//! remaining hand shapes. Their construction is an offline step; this
//! module states the invariants the evaluator relies on and checks them
//! when a `Tables` value is assembled.

use vstd::prelude::*;

use crate::card::prime_of_order;

verus! {

/// The number of distinct hand strength levels; also the weakest level.
pub const MAX_HAND_RANK: u32 = 7462;

/// The rank-presence mask made by five rank orders.
pub open spec fn mask_of(o0: u32, o1: u32, o2: u32, o3: u32, o4: u32) -> u32 {
    (1u32 << o0) | (1u32 << o1) | (1u32 << o2) | (1u32 << o3) | (1u32 << o4)
}

/// The prime product of five rank orders, as an unbounded integer.
pub open spec fn rank_prod(o0: u32, o1: u32, o2: u32, o3: u32, o4: u32) -> int {
    prime_of_order(o0) * prime_of_order(o1) * prime_of_order(o2) * prime_of_order(o3)
        * prime_of_order(o4)
}

/// Five rank orders are pairwise distinct.
pub open spec fn pairwise_distinct(o0: u32, o1: u32, o2: u32, o3: u32, o4: u32) -> bool {
    o0 != o1 && o0 != o2 && o0 != o3 && o0 != o4 && o1 != o2 && o1 != o3 && o1 != o4 && o2 != o3
        && o2 != o4 && o3 != o4
}

/// Five rank orders are all the same.
pub open spec fn all_equal(o0: u32, o1: u32, o2: u32, o3: u32, o4: u32) -> bool {
    o0 == o1 && o1 == o2 && o2 == o3 && o3 == o4
}

/// The product table is sorted strictly ascending.
pub open spec fn products_sorted(p: Seq<u32>) -> bool {
    forall|i: int, j: int| 0 <= i < j < p.len() ==> p[i] < p[j]
}

/// A key occurs in the product table.
pub open spec fn contains_product(p: Seq<u32>, q: int) -> bool {
    exists|i: int| 0 <= i < p.len() && p[i] == q
}

/// The immutable lookup tables, as the evaluator consumes them.
pub struct Tables {
    /// Strength by rank-presence mask, valid for flush hands; 0 elsewhere.
    pub flushes: Vec<u16>,
    /// Strength by rank-presence mask, valid for hands of five pairwise
    /// distinct ranks (straights and no-pair hands); 0 elsewhere.
    pub uniques: Vec<u16>,
    /// Ascending prime-product keys, one per distinct hand shape with a
    /// repeated rank (pairs through quads).
    pub products: Vec<u32>,
    /// Strength values parallel to `products`.
    pub values: Vec<u16>,
}

/// What the tables must hold for one combination of five rank orders: a
/// combination of pairwise distinct ranks has in-range entries in both
/// mask-indexed tables, and any combination with a repeated rank, short of
/// five equal ones, has its prime product in the key table.
pub open spec fn orders_ok(t: Tables, o0: u32, o1: u32, o2: u32, o3: u32, o4: u32) -> bool {
    if pairwise_distinct(o0, o1, o2, o3, o4) {
        &&& 1 <= t.flushes@[mask_of(o0, o1, o2, o3, o4) as int] <= MAX_HAND_RANK
        &&& 1 <= t.uniques@[mask_of(o0, o1, o2, o3, o4) as int] <= MAX_HAND_RANK
    } else if !all_equal(o0, o1, o2, o3, o4) {
        contains_product(t.products@, rank_prod(o0, o1, o2, o3, o4))
    } else {
        true
    }
}

impl Tables {
    /// The tables' dimensions, ordering and value ranges.
    pub open spec fn wf_shape(self) -> bool {
        &&& self.flushes@.len() == 8192
        &&& self.uniques@.len() == 8192
        &&& self.products@.len() == 4888
        &&& self.values@.len() == 4888
        &&& products_sorted(self.products@)
        &&& forall|i: int| 0 <= i < 4888 ==> 1 <= #[trigger] self.values@[i] <= MAX_HAND_RANK
        &&& forall|m: int| 0 <= m < 8192 ==> #[trigger] self.flushes@[m] <= MAX_HAND_RANK
        &&& forall|m: int| 0 <= m < 8192 ==> #[trigger] self.uniques@[m] <= MAX_HAND_RANK
    }

    /// The tables cover every combination of five rank orders.
    pub open spec fn wf_orders(self) -> bool {
        forall|o0: u32, o1: u32, o2: u32, o3: u32, o4: u32|
            o0 < 13 && o1 < 13 && o2 < 13 && o3 < 13 && o4 < 13 ==> #[trigger] orders_ok(
                self,
                o0,
                o1,
                o2,
                o3,
                o4,
            )
    }

    /// Well-formed tables: the data contract the evaluator requires.
    pub open spec fn wf(self) -> bool {
        self.wf_shape() && self.wf_orders()
    }

    /// Assembles tables from the four raw arrays, checking every stated
    /// invariant. Returns the tables exactly when the data is well-formed,
    /// and nothing otherwise.
    pub fn new(flushes: Vec<u16>, uniques: Vec<u16>, products: Vec<u32>, values: Vec<u16>) -> (r:
        Option<Tables>)
        ensures
            match r {
                Some(t) => {
                    &&& t.wf()
                    &&& t.flushes@ == flushes@
                    &&& t.uniques@ == uniques@
                    &&& t.products@ == products@
                    &&& t.values@ == values@
                },
                None => !(Tables { flushes, uniques, products, values }).wf(),
            },
    {
        let t = Tables { flushes, uniques, products, values };
        if t.flushes.len() != 8192 || t.uniques.len() != 8192 || t.products.len() != 4888
            || t.values.len() != 4888 {
            return None;
        }
        if !check_sorted(&t.products) {
            return None;
        }
        if !check_value_range(&t.values) {
            return None;
        }
        if !check_caps(&t.flushes) {
            return None;
        }
        if !check_caps(&t.uniques) {
            return None;
        }
        if !check_orders(&t) {
            return None;
        }
        Some(t)
    }
}

/// Exact-match binary search in the strictly ascending key table.
pub fn search_products(products: &Vec<u32>, q: u32) -> (r: Option<usize>)
    requires
        products_sorted(products@),
    ensures
        match r {
            Some(i) => i < products@.len() && products@[i as int] == q,
            None => !contains_product(products@, q as int),
        },
{
    let mut low: usize = 0;
    let mut high: usize = products.len();
    while low < high
        invariant
            products_sorted(products@),
            low <= high <= products@.len(),
            forall|k: int| 0 <= k < low ==> products@[k] < q,
            forall|k: int| high <= k < products@.len() ==> products@[k] > q,
        decreases high - low,
    {
        let mid = low + (high - low) / 2;
        let key = products[mid];
        if q < key {
            high = mid;
        } else if q > key {
            low = mid + 1;
        } else {
            return Some(mid);
        }
    }
    None
}

fn check_sorted(products: &Vec<u32>) -> (r: bool)
    ensures
        r == products_sorted(products@),
{
    let n = products.len();
    let mut i: usize = 1;
    while i < n
        invariant
            n == products@.len(),
            1 <= i,
            forall|a: int, b: int| 0 <= a < b < i ==> products@[a] < products@[b],
        decreases n - i,
    {
        if products[i - 1] >= products[i] {
            return false;
        }
        i += 1;
    }
    true
}

fn check_value_range(values: &Vec<u16>) -> (r: bool)
    ensures
        r == forall|i: int| 0 <= i < values@.len() ==> 1 <= #[trigger] values@[i] <= MAX_HAND_RANK,
{
    let n = values.len();
    let mut i: usize = 0;
    while i < n
        invariant
            n == values@.len(),
            forall|k: int| 0 <= k < i ==> 1 <= #[trigger] values@[k] <= MAX_HAND_RANK,
        decreases n - i,
    {
        let v = values[i];
        if v < 1 || v > 7462 {
            return false;
        }
        i += 1;
    }
    true
}

fn check_caps(entries: &Vec<u16>) -> (r: bool)
    ensures
        r == forall|m: int| 0 <= m < entries@.len() ==> #[trigger] entries@[m] <= MAX_HAND_RANK,
{
    let n = entries.len();
    let mut i: usize = 0;
    while i < n
        invariant
            n == entries@.len(),
            forall|k: int| 0 <= k < i ==> #[trigger] entries@[k] <= MAX_HAND_RANK,
        decreases n - i,
    {
        if entries[i] > 7462 {
            return false;
        }
        i += 1;
    }
    true
}

/// The prime encoding of a rank order.
fn order_prime(o: u32) -> (p: u32)
    requires
        o < 13,
    ensures
        p == prime_of_order(o),
        2 <= p <= 41,
{
    if o == 0 {
        2
    } else if o == 1 {
        3
    } else if o == 2 {
        5
    } else if o == 3 {
        7
    } else if o == 4 {
        11
    } else if o == 5 {
        13
    } else if o == 6 {
        17
    } else if o == 7 {
        19
    } else if o == 8 {
        23
    } else if o == 9 {
        29
    } else if o == 10 {
        31
    } else if o == 11 {
        37
    } else {
        41
    }
}

fn check_one(t: &Tables, o0: u32, o1: u32, o2: u32, o3: u32, o4: u32) -> (r: bool)
    requires
        t.wf_shape(),
        o0 < 13 && o1 < 13 && o2 < 13 && o3 < 13 && o4 < 13,
    ensures
        r == orders_ok(*t, o0, o1, o2, o3, o4),
{
    let distinct = o0 != o1 && o0 != o2 && o0 != o3 && o0 != o4 && o1 != o2 && o1 != o3 && o1 != o4
        && o2 != o3 && o2 != o4 && o3 != o4;
    if distinct {
        proof {
            assert(((1u32 << o0) | (1u32 << o1) | (1u32 << o2) | (1u32 << o3) | (1u32 << o4))
                < 8192) by (bit_vector)
                requires
                    o0 < 13 && o1 < 13 && o2 < 13 && o3 < 13 && o4 < 13,
            ;
        }
        let m = ((1u32 << o0) | (1u32 << o1) | (1u32 << o2) | (1u32 << o3) | (1u32 << o4)) as usize;
        let f = t.flushes[m];
        let u = t.uniques[m];
        1 <= f && f <= 7462 && 1 <= u && u <= 7462
    } else if !(o0 == o1 && o1 == o2 && o2 == o3 && o3 == o4) {
        let p0 = order_prime(o0);
        let p1 = order_prime(o1);
        let p2 = order_prime(o2);
        let p3 = order_prime(o3);
        let p4 = order_prime(o4);
        proof {
            assert(p0 * p1 <= 41 * 41) by (nonlinear_arith)
                requires
                    p0 <= 41 && p1 <= 41,
            ;
            assert(p0 * p1 * p2 <= 41 * 41 * 41) by (nonlinear_arith)
                requires
                    p0 * p1 <= 41 * 41 && p2 <= 41,
            ;
            assert(p0 * p1 * p2 * p3 <= 41 * 41 * 41 * 41) by (nonlinear_arith)
                requires
                    p0 * p1 * p2 <= 41 * 41 * 41 && p3 <= 41,
            ;
            assert(p0 * p1 * p2 * p3 * p4 <= 41 * 41 * 41 * 41 * 41) by (nonlinear_arith)
                requires
                    p0 * p1 * p2 * p3 <= 41 * 41 * 41 * 41 && p4 <= 41,
            ;
        }
        let q = p0 * p1 * p2 * p3 * p4;
        search_products(&t.products, q).is_some()
    } else {
        true
    }
}

fn check_orders(t: &Tables) -> (r: bool)
    requires
        t.wf_shape(),
    ensures
        r == t.wf_orders(),
{
    let mut o0: u32 = 0;
    while o0 < 13
        invariant
            t.wf_shape(),
            o0 <= 13,
            forall|a0: u32, a1: u32, a2: u32, a3: u32, a4: u32|
                a0 < o0 && a1 < 13 && a2 < 13 && a3 < 13 && a4 < 13 ==> #[trigger] orders_ok(
                    *t,
                    a0,
                    a1,
                    a2,
                    a3,
                    a4,
                ),
        decreases 13 - o0,
    {
        let mut o1: u32 = 0;
        while o1 < 13
            invariant
                t.wf_shape(),
                o0 < 13,
                o1 <= 13,
                forall|a1: u32, a2: u32, a3: u32, a4: u32|
                    a1 < o1 && a2 < 13 && a3 < 13 && a4 < 13 ==> #[trigger] orders_ok(
                        *t,
                        o0,
                        a1,
                        a2,
                        a3,
                        a4,
                    ),
            decreases 13 - o1,
        {
            let mut o2: u32 = 0;
            while o2 < 13
                invariant
                    t.wf_shape(),
                    o0 < 13,
                    o1 < 13,
                    o2 <= 13,
                    forall|a2: u32, a3: u32, a4: u32|
                        a2 < o2 && a3 < 13 && a4 < 13 ==> #[trigger] orders_ok(
                            *t,
                            o0,
                            o1,
                            a2,
                            a3,
                            a4,
                        ),
                decreases 13 - o2,
            {
                let mut o3: u32 = 0;
                while o3 < 13
                    invariant
                        t.wf_shape(),
                        o0 < 13,
                        o1 < 13,
                        o2 < 13,
                        o3 <= 13,
                        forall|a3: u32, a4: u32|
                            a3 < o3 && a4 < 13 ==> #[trigger] orders_ok(*t, o0, o1, o2, a3, a4),
                    decreases 13 - o3,
                {
                    let mut o4: u32 = 0;
                    while o4 < 13
                        invariant
                            t.wf_shape(),
                            o0 < 13,
                            o1 < 13,
                            o2 < 13,
                            o3 < 13,
                            o4 <= 13,
                            forall|a4: u32|
                                a4 < o4 ==> #[trigger] orders_ok(*t, o0, o1, o2, o3, a4),
                        decreases 13 - o4,
                    {
                        if !check_one(t, o0, o1, o2, o3, o4) {
                            return false;
                        }
                        o4 += 1;
                    }
                    o3 += 1;
                }
                o2 += 1;
            }
            o1 += 1;
        }
        o0 += 1;
    }
    true
}

} // verus!
