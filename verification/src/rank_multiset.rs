//! The evaluator's inputs as functions of the rank multiset.
//!
//! The rank-presence mask and the prime product of a hand depend only on
//! the multiset of its five rank orders, and the prime product determines
//! that multiset: the laws of this module state strength equality across
//! suit permutations and the absence of prime-product collisions.

use vstd::prelude::*;

use vstd::seq_lib::{commutative_foldr, lemma_fold_right_permutation};

use crate::card::{order_field, prime_of_order};
use crate::hand::{lemma_hand_len, Hand};
use crate::hand_rank::{
    hand_flush, lemma_card_fields, spec_eval_hand, spec_mask, spec_prime_product,
};
use crate::tables::Tables;

verus! {

/// The rank orders of a sequence of packed card integers.
pub open spec fn orders_of(cards: Seq<u32>) -> Seq<u32> {
    cards.map_values(|c: u32| order_field(c))
}

/// One step of OR-ing one-hot rank bits into a mask.
pub open spec fn mask_step() -> spec_fn(u32, u32) -> u32 {
    |o: u32, acc: u32| (1u32 << o) | acc
}

/// The rank-presence mask of a sequence of rank orders.
pub open spec fn mask_fold(orders: Seq<u32>) -> u32 {
    orders.fold_right(mask_step(), 0u32)
}

/// One step of multiplying rank primes into a product.
pub open spec fn prime_step() -> spec_fn(u32, int) -> int {
    |o: u32, acc: int| prime_of_order(o) * acc
}

/// The prime product of a sequence of rank orders, unbounded.
pub open spec fn prod_fold(orders: Seq<u32>) -> int {
    orders.fold_right(prime_step(), 1)
}

proof fn lemma_mask_step_commutes()
    ensures
        commutative_foldr(mask_step()),
{
    let f = mask_step();
    assert forall|x: u32, y: u32, v: u32| #[trigger] f(x, f(y, v)) == f(y, f(x, v)) by {
        assert((1u32 << x) | ((1u32 << y) | v) == (1u32 << y) | ((1u32 << x) | v)) by (bit_vector);
    }
}

proof fn lemma_prime_step_commutes()
    ensures
        commutative_foldr(prime_step()),
{
    let f = prime_step();
    assert forall|x: u32, y: u32, v: int| #[trigger] f(x, f(y, v)) == f(y, f(x, v)) by {
        let a = prime_of_order(x);
        let b = prime_of_order(y);
        assert(a * (b * v) == b * (a * v)) by (nonlinear_arith);
    }
}

proof fn lemma_mask_fold5(s: Seq<u32>)
    requires
        s.len() == 5,
    ensures
        mask_fold(s) == ((1u32 << s[0]) | (1u32 << s[1]) | (1u32 << s[2]) | (1u32 << s[3]) | (
        1u32 << s[4])),
{
    let f = mask_step();
    let s4 = s.drop_last();
    let s3 = s4.drop_last();
    let s2 = s3.drop_last();
    let s1 = s2.drop_last();
    let s0 = s1.drop_last();
    assert(s.fold_right(f, 0u32) == s4.fold_right(f, f(s[4], 0u32)));
    assert(s4.fold_right(f, f(s[4], 0u32)) == s3.fold_right(f, f(s[3], f(s[4], 0u32))));
    assert(s3.fold_right(f, f(s[3], f(s[4], 0u32))) == s2.fold_right(
        f,
        f(s[2], f(s[3], f(s[4], 0u32))),
    ));
    assert(s2.fold_right(f, f(s[2], f(s[3], f(s[4], 0u32)))) == s1.fold_right(
        f,
        f(s[1], f(s[2], f(s[3], f(s[4], 0u32)))),
    ));
    assert(s1.fold_right(f, f(s[1], f(s[2], f(s[3], f(s[4], 0u32))))) == s0.fold_right(
        f,
        f(s[0], f(s[1], f(s[2], f(s[3], f(s[4], 0u32))))),
    ));
    assert(s0.len() == 0);
    let a = s[0];
    let b = s[1];
    let c = s[2];
    let d = s[3];
    let e = s[4];
    assert(((1u32 << a) | ((1u32 << b) | ((1u32 << c) | ((1u32 << d) | ((1u32 << e) | 0u32)))))
        == ((1u32 << a) | (1u32 << b) | (1u32 << c) | (1u32 << d) | (1u32 << e))) by (bit_vector);
}

proof fn lemma_prod_fold5(s: Seq<u32>)
    requires
        s.len() == 5,
    ensures
        prod_fold(s) == prime_of_order(s[0]) * prime_of_order(s[1]) * prime_of_order(s[2])
            * prime_of_order(s[3]) * prime_of_order(s[4]),
{
    let f = prime_step();
    let s4 = s.drop_last();
    let s3 = s4.drop_last();
    let s2 = s3.drop_last();
    let s1 = s2.drop_last();
    let s0 = s1.drop_last();
    assert(s.fold_right(f, 1int) == s4.fold_right(f, f(s[4], 1int)));
    assert(s4.fold_right(f, f(s[4], 1int)) == s3.fold_right(f, f(s[3], f(s[4], 1int))));
    assert(s3.fold_right(f, f(s[3], f(s[4], 1int))) == s2.fold_right(
        f,
        f(s[2], f(s[3], f(s[4], 1int))),
    ));
    assert(s2.fold_right(f, f(s[2], f(s[3], f(s[4], 1int)))) == s1.fold_right(
        f,
        f(s[1], f(s[2], f(s[3], f(s[4], 1int)))),
    ));
    assert(s1.fold_right(f, f(s[1], f(s[2], f(s[3], f(s[4], 1int))))) == s0.fold_right(
        f,
        f(s[0], f(s[1], f(s[2], f(s[3], f(s[4], 1int))))),
    ));
    assert(s0.len() == 0);
    let a = prime_of_order(s[0]);
    let b = prime_of_order(s[1]);
    let c = prime_of_order(s[2]);
    let d = prime_of_order(s[3]);
    let e = prime_of_order(s[4]);
    assert(a * (b * (c * (d * (e * 1)))) == a * b * c * d * e) by (nonlinear_arith);
}

/// Strength equality invariant: two well-formed hands with one rank
/// multiset and one flush status evaluate to one numeric strength under any
/// tables, whatever suits realize them.
pub proof fn lemma_eval_by_rank_multiset(t: Tables, h1: Hand, h2: Hand)
    requires
        h1.all_valid(),
        h2.all_valid(),
        orders_of(h1@).to_multiset() == orders_of(h2@).to_multiset(),
        hand_flush(h1) == hand_flush(h2),
    ensures
        spec_eval_hand(t, h1) == spec_eval_hand(t, h2),
{
    lemma_hand_len(h1);
    lemma_hand_len(h2);
    let c0 = h1@[0];
    let c1 = h1@[1];
    let c2 = h1@[2];
    let c3 = h1@[3];
    let c4 = h1@[4];
    let d0 = h2@[0];
    let d1 = h2@[1];
    let d2 = h2@[2];
    let d3 = h2@[3];
    let d4 = h2@[4];
    lemma_card_fields(c0);
    lemma_card_fields(c1);
    lemma_card_fields(c2);
    lemma_card_fields(c3);
    lemma_card_fields(c4);
    lemma_card_fields(d0);
    lemma_card_fields(d1);
    lemma_card_fields(d2);
    lemma_card_fields(d3);
    lemma_card_fields(d4);
    let or1 = orders_of(h1@);
    let or2 = orders_of(h2@);
    assert(or1.len() == 5 && or1[0] == order_field(c0) && or1[1] == order_field(c1) && or1[2]
        == order_field(c2) && or1[3] == order_field(c3) && or1[4] == order_field(c4));
    assert(or2.len() == 5 && or2[0] == order_field(d0) && or2[1] == order_field(d1) && or2[2]
        == order_field(d2) && or2[3] == order_field(d3) && or2[4] == order_field(d4));

    // The rank-presence masks agree: each is the fold of one-hot rank bits
    // over multiset-equal order sequences.
    let o0 = or1[0];
    let o1 = or1[1];
    let o2 = or1[2];
    let o3 = or1[3];
    let o4 = or1[4];
    assert(spec_mask(c0, c1, c2, c3, c4) == ((1u32 << o0) | (1u32 << o1) | (1u32 << o2) | (1u32
        << o3) | (1u32 << o4))) by (bit_vector)
        requires
            c0 >> 16u32 == (1u32 << o0),
            c1 >> 16u32 == (1u32 << o1),
            c2 >> 16u32 == (1u32 << o2),
            c3 >> 16u32 == (1u32 << o3),
            c4 >> 16u32 == (1u32 << o4),
    ;
    let p0 = or2[0];
    let p1 = or2[1];
    let p2 = or2[2];
    let p3 = or2[3];
    let p4 = or2[4];
    assert(spec_mask(d0, d1, d2, d3, d4) == ((1u32 << p0) | (1u32 << p1) | (1u32 << p2) | (1u32
        << p3) | (1u32 << p4))) by (bit_vector)
        requires
            d0 >> 16u32 == (1u32 << p0),
            d1 >> 16u32 == (1u32 << p1),
            d2 >> 16u32 == (1u32 << p2),
            d3 >> 16u32 == (1u32 << p3),
            d4 >> 16u32 == (1u32 << p4),
    ;
    lemma_mask_fold5(or1);
    lemma_mask_fold5(or2);
    lemma_mask_step_commutes();
    lemma_fold_right_permutation(or1, or2, mask_step(), 0u32);
    assert(spec_mask(c0, c1, c2, c3, c4) == spec_mask(d0, d1, d2, d3, d4));

    // The prime products agree the same way.
    lemma_prod_fold5(or1);
    lemma_prod_fold5(or2);
    lemma_prime_step_commutes();
    lemma_fold_right_permutation(or1, or2, prime_step(), 1int);
    assert(spec_prime_product(c0, c1, c2, c3, c4) == spec_prime_product(d0, d1, d2, d3, d4));
}

/// The values the prime encoding takes.
spec fn is_rank_prime(p: u32) -> bool {
    p == 2 || p == 3 || p == 5 || p == 7 || p == 11 || p == 13 || p == 17 || p == 19 || p == 23
        || p == 29 || p == 31 || p == 37 || p == 41
}

proof fn lemma_prod_fold_last(s: Seq<u32>)
    requires
        s.len() > 0,
    ensures
        prod_fold(s) == prime_of_order(s.last()) * prod_fold(s.drop_last()),
{
    let f = prime_step();
    lemma_prime_step_commutes();
    assert(s.fold_right(f, 1int) == s.drop_last().fold_right(f, f(s.last(), 1int)));
    s.drop_last().lemma_fold_right_commute_one(s.last(), f, 1int);
    assert(f(s.last(), prod_fold(s.drop_last())) == prime_of_order(s.last()) * prod_fold(
        s.drop_last(),
    ));
}

proof fn lemma_prod_fold_bounds(s: Seq<u32>)
    ensures
        prod_fold(s) >= 1,
        s.len() > 0 ==> prod_fold(s) >= 2,
    decreases s.len(),
{
    if s.len() == 0 {
        assert(prod_fold(s) == 1);
    } else {
        lemma_prod_fold_last(s);
        lemma_prod_fold_bounds(s.drop_last());
        let p = prime_of_order(s.last());
        let r = prod_fold(s.drop_last());
        assert(p >= 2);
        assert(p * r >= 2) by (nonlinear_arith)
            requires
                p >= 2 && r >= 1,
        ;
    }
}

/// Euclid's lemma for the thirteen rank primes: a rank prime dividing a
/// product of two nonnegative integers divides one of them. The finite core
/// is a bit-vector check over the residues.
proof fn lemma_euclid(p: u32, a: int, b: int)
    requires
        is_rank_prime(p),
        a >= 0,
        b >= 0,
        (a * b) % (p as int) == 0,
    ensures
        a % (p as int) == 0 || b % (p as int) == 0,
{
    let m = p as int;
    vstd::arithmetic::div_mod::lemma_mul_mod_noop_general(a, b, m);
    let ra = a % m;
    let rb = b % m;
    assert(0 <= ra < m && 0 <= rb < m);
    if ra != 0 && rb != 0 {
        let va = ra as u16;
        let vb = rb as u16;
        let pv = p as u16;
        assert(((va * vb) as u16) % pv != 0) by (bit_vector)
            requires
                1 <= va < pv && 1 <= vb < pv,
                pv == 2 || pv == 3 || pv == 5 || pv == 7 || pv == 11 || pv == 13 || pv == 17 || pv
                    == 19 || pv == 23 || pv == 29 || pv == 31 || pv == 37 || pv == 41,
        ;
        assert(ra * rb < 1681) by (nonlinear_arith)
            requires
                0 <= ra < 41 && 0 <= rb < 41,
        ;
        assert((va * vb) as u16 == ra * rb);
        assert((ra * rb) % m == 0);
        assert(false);
    }
}

/// A rank prime dividing a product of rank primes is one of its factors.
proof fn lemma_prime_in_orders(p: u32, s: Seq<u32>)
    requires
        is_rank_prime(p),
        prod_fold(s) % (p as int) == 0,
    ensures
        exists|j: int| 0 <= j < s.len() && prime_of_order(#[trigger] s[j]) == p,
    decreases s.len(),
{
    if s.len() == 0 {
        assert(prod_fold(s) == 1);
        assert(1int % (p as int) == 1);
        assert(false);
    } else {
        lemma_prod_fold_last(s);
        let q = prime_of_order(s.last());
        let r = prod_fold(s.drop_last());
        lemma_prod_fold_bounds(s.drop_last());
        assert(is_rank_prime(q));
        lemma_euclid(p, q as int, r);
        if (q as int) % (p as int) == 0 {
            let qv = q as u16;
            let pv = p as u16;
            assert(qv == pv) by (bit_vector)
                requires
                    qv % pv == 0,
                    pv == 2 || pv == 3 || pv == 5 || pv == 7 || pv == 11 || pv == 13 || pv == 17
                        || pv == 19 || pv == 23 || pv == 29 || pv == 31 || pv == 37 || pv == 41,
                    qv == 2 || qv == 3 || qv == 5 || qv == 7 || qv == 11 || qv == 13 || qv == 17
                        || qv == 19 || qv == 23 || qv == 29 || qv == 31 || qv == 37 || qv == 41,
            ;
            assert(q == p);
            assert(prime_of_order(s[s.len() - 1]) == p);
        } else {
            lemma_prime_in_orders(p, s.drop_last());
            let j = choose|j: int|
                0 <= j < s.drop_last().len() && prime_of_order(#[trigger] s.drop_last()[j]) == p;
            assert(prime_of_order(s[j]) == p);
        }
    }
}

proof fn lemma_prod_fold_remove(s: Seq<u32>, j: int)
    requires
        0 <= j < s.len(),
    ensures
        prod_fold(s) == prime_of_order(s[j]) * prod_fold(s.remove(j)),
{
    broadcast use vstd::seq_lib::group_to_multiset_ensures;
    broadcast use vstd::multiset::group_multiset_axioms;

    let x = s[j];
    let rest = s.remove(j);
    assert(rest.push(x).to_multiset() == rest.to_multiset().insert(x));
    assert(rest.to_multiset() == s.to_multiset().remove(x));
    assert(s.contains(x));
    assert(s.to_multiset().count(x) > 0);
    assert(s.to_multiset().remove(x).insert(x) =~= s.to_multiset());
    lemma_prime_step_commutes();
    lemma_fold_right_permutation(s, rest.push(x), prime_step(), 1int);
    assert(rest.push(x).drop_last() =~= rest);
    assert(rest.push(x).last() == x);
    lemma_prod_fold_last(rest.push(x));
}

/// Uniqueness of prime products: two sequences of rank orders with one
/// prime product carry one multiset of orders. So two distinct rank
/// multisets of five cards — in particular the repeated-rank shapes that
/// the product path of the evaluator must tell apart — never collide on
/// their prime product.
pub proof fn lemma_prime_product_injective(s1: Seq<u32>, s2: Seq<u32>)
    requires
        forall|i: int| 0 <= i < s1.len() ==> #[trigger] s1[i] < 13,
        forall|i: int| 0 <= i < s2.len() ==> #[trigger] s2[i] < 13,
        prod_fold(s1) == prod_fold(s2),
    ensures
        s1.to_multiset() == s2.to_multiset(),
    decreases s1.len(),
{
    broadcast use vstd::seq_lib::group_to_multiset_ensures;
    broadcast use vstd::multiset::group_multiset_axioms;

    if s1.len() == 0 {
        if s2.len() > 0 {
            lemma_prod_fold_bounds(s2);
            assert(prod_fold(s1) == 1);
            assert(false);
        }
        assert(s1.to_multiset() =~= s2.to_multiset());
    } else {
        let o = s1.last();
        let p = prime_of_order(o);
        lemma_prod_fold_last(s1);
        lemma_prod_fold_bounds(s1.drop_last());
        assert(is_rank_prime(p));
        vstd::arithmetic::div_mod::lemma_mod_multiples_basic(prod_fold(s1.drop_last()), p as int);
        assert(prod_fold(s1.drop_last()) * (p as int) == (p as int) * prod_fold(s1.drop_last()));
        assert(prod_fold(s2) % (p as int) == 0);
        lemma_prime_in_orders(p, s2);
        let j = choose|j: int| 0 <= j < s2.len() && prime_of_order(#[trigger] s2[j]) == p;
        assert(s2[j] == o);
        lemma_prod_fold_remove(s2, j);
        vstd::arithmetic::mul::lemma_mul_equality_converse(
            p as int,
            prod_fold(s1.drop_last()),
            prod_fold(s2.remove(j)),
        );
        assert forall|i: int| 0 <= i < s1.drop_last().len() implies #[trigger] s1.drop_last()[i]
            < 13 by {
            assert(s1.drop_last()[i] == s1[i]);
        }
        assert forall|i: int| 0 <= i < s2.remove(j).len() implies #[trigger] s2.remove(j)[i]
            < 13 by {
            if i < j {
                assert(s2.remove(j)[i] == s2[i]);
            } else {
                assert(s2.remove(j)[i] == s2[i + 1]);
            }
        }
        lemma_prime_product_injective(s1.drop_last(), s2.remove(j));
        assert(s1.drop_last() =~= s1.remove(s1.len() - 1));
        assert(s1.drop_last().to_multiset() == s1.to_multiset().remove(o));
        assert(s2.remove(j).to_multiset() == s2.to_multiset().remove(o));
        assert(s1.to_multiset().count(o) > 0);
        assert(s2.to_multiset().count(o) > 0);
        assert(s1.to_multiset().remove(o).insert(o) =~= s1.to_multiset());
        assert(s2.to_multiset().remove(o).insert(o) =~= s2.to_multiset());
        assert(s1.to_multiset() =~= s2.to_multiset());
    }
}

} // verus!
