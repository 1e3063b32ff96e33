//! The hand rank evaluator: five packed cards to a strength value and
//! category.
//!
//! The numeric strength is an integer in [1, 7462]; 1 is the unique best
//! hand and smaller means stronger. The category (high card through
//! straight flush) is derived from the numeric value by fixed,
//! non-overlapping ranges and never set independently.

use vstd::prelude::*;

use crate::card::{
    order_field, prime_field, prime_of_order, spec_order, spec_rank_of, spec_suit_bits,
    spec_suit_of, suit_field, valid_card, lemma_card_round_trip,
};
use crate::hand::Hand;
use crate::tables::{
    all_equal, contains_product, mask_of, orders_ok, pairwise_distinct, products_sorted, rank_prod,
    Tables, MAX_HAND_RANK,
};

verus! {

/// An integer strength level in [1, 7462]; 1 is the best hand, 7462 the
/// worst, strictly smaller is strictly stronger.
pub type NumericHandRank = u32;

/// A hand category paired with its numeric strength value. The category is
/// fully determined by the value.
#[derive(Copy, Clone, PartialEq, Eq, Structural, Debug)]
pub enum HandRank {
    HighCard(NumericHandRank),
    OnePair(NumericHandRank),
    TwoPair(NumericHandRank),
    ThreeOfAKind(NumericHandRank),
    Straight(NumericHandRank),
    Flush(NumericHandRank),
    FullHouse(NumericHandRank),
    FourOfAKind(NumericHandRank),
    StraightFlush(NumericHandRank),
}

/// The category a numeric strength value falls in, by the fixed ranges:
/// 1-10 straight flush, 11-166 four of a kind, 167-322 full house,
/// 323-1599 flush, 1600-1609 straight, 1610-2467 three of a kind,
/// 2468-3325 two pair, 3326-6185 one pair, above 6185 high card.
pub open spec fn spec_classify(i: NumericHandRank) -> HandRank {
    if i > 6185 {
        HandRank::HighCard(i)
    } else if i > 3325 {
        HandRank::OnePair(i)
    } else if i > 2467 {
        HandRank::TwoPair(i)
    } else if i > 1609 {
        HandRank::ThreeOfAKind(i)
    } else if i > 1599 {
        HandRank::Straight(i)
    } else if i > 322 {
        HandRank::Flush(i)
    } else if i > 166 {
        HandRank::FullHouse(i)
    } else if i > 10 {
        HandRank::FourOfAKind(i)
    } else {
        HandRank::StraightFlush(i)
    }
}

/// All five cards share a suit bit.
pub open spec fn spec_is_flush(c0: u32, c1: u32, c2: u32, c3: u32, c4: u32) -> bool {
    c0 & c1 & c2 & c3 & c4 & 0xF000 != 0
}

/// The 13-bit rank-presence mask of five packed cards.
pub open spec fn spec_mask(c0: u32, c1: u32, c2: u32, c3: u32, c4: u32) -> u32 {
    (c0 | c1 | c2 | c3 | c4) >> 16u32
}

/// The product of the five prime bytes, as an unbounded integer.
pub open spec fn spec_prime_product(c0: u32, c1: u32, c2: u32, c3: u32, c4: u32) -> int {
    prime_field(c0) * prime_field(c1) * prime_field(c2) * prime_field(c3) * prime_field(c4)
}

/// All five cards carry the same rank order.
pub open spec fn spec_all_same_rank(c0: u32, c1: u32, c2: u32, c3: u32, c4: u32) -> bool {
    all_equal(order_field(c0), order_field(c1), order_field(c2), order_field(c3), order_field(c4))
}

/// The index of a key in the product table.
pub open spec fn product_index(p: Seq<u32>, q: int) -> int {
    choose|i: int| 0 <= i < p.len() && p[i] == q
}

/// The numeric strength of five packed cards under the given tables: the
/// flush table entry at the rank-presence mask for flush hands, the
/// distinct-rank table entry when it is nonzero, and otherwise the value
/// paired with the hand's prime product in the key table.
pub open spec fn spec_eval(t: Tables, c0: u32, c1: u32, c2: u32, c3: u32, c4: u32) -> u32 {
    if spec_is_flush(c0, c1, c2, c3, c4) {
        t.flushes@[spec_mask(c0, c1, c2, c3, c4) as int] as u32
    } else if t.uniques@[spec_mask(c0, c1, c2, c3, c4) as int] != 0 {
        t.uniques@[spec_mask(c0, c1, c2, c3, c4) as int] as u32
    } else {
        t.values@[product_index(t.products@, spec_prime_product(c0, c1, c2, c3, c4))] as u32
    }
}

/// The numeric strength of a hand.
pub open spec fn spec_eval_hand(t: Tables, h: Hand) -> u32 {
    spec_eval(t, h@[0], h@[1], h@[2], h@[3], h@[4])
}

/// The hand is a flush.
pub open spec fn hand_flush(h: Hand) -> bool {
    spec_is_flush(h@[0], h@[1], h@[2], h@[3], h@[4])
}

/// All five cards of the hand carry one rank.
pub open spec fn hand_same_rank(h: Hand) -> bool {
    spec_all_same_rank(h@[0], h@[1], h@[2], h@[3], h@[4])
}

/// The fields a well-formed card's packed integer decomposes into.
pub proof fn lemma_card_fields(c: u32)
    requires
        valid_card(c),
    ensures
        order_field(c) == spec_order(spec_rank_of(c)),
        order_field(c) <= 12,
        c >> 16u32 == (1u32 << order_field(c)),
        prime_field(c) == prime_of_order(order_field(c)),
        2 <= prime_field(c) <= 41,
        suit_field(c) == spec_suit_bits(spec_suit_of(c)),
        suit_field(c) == 0x1000 || suit_field(c) == 0x2000 || suit_field(c) == 0x4000
            || suit_field(c) == 0x8000,
{
    let r = spec_rank_of(c);
    let s = spec_suit_of(c);
    lemma_card_round_trip(r, s);
    assert(prime_of_order(spec_order(r)) <= 41);
}

/// Two well-formed cards with one rank order and one suit bit are one card.
proof fn lemma_same_fields_same_card(c1: u32, c2: u32)
    requires
        valid_card(c1),
        valid_card(c2),
        order_field(c1) == order_field(c2),
        suit_field(c1) == suit_field(c2),
    ensures
        c1 == c2,
{
}

/// In a strictly ascending table the index of a key is unique.
proof fn lemma_product_index_unique(p: Seq<u32>, q: int, i: int)
    requires
        products_sorted(p),
        0 <= i < p.len(),
        p[i] == q,
    ensures
        product_index(p, q) == i,
{
    assert(contains_product(p, q));
    let j = product_index(p, q);
    assert(0 <= j < p.len() && p[j] == q);
}

impl HandRank {
    /// The numeric strength value the category carries.
    pub open spec fn spec_numeric(self) -> NumericHandRank {
        match self {
            HandRank::HighCard(i) => i,
            HandRank::OnePair(i) => i,
            HandRank::TwoPair(i) => i,
            HandRank::ThreeOfAKind(i) => i,
            HandRank::Straight(i) => i,
            HandRank::Flush(i) => i,
            HandRank::FullHouse(i) => i,
            HandRank::FourOfAKind(i) => i,
            HandRank::StraightFlush(i) => i,
        }
    }

    /// The numeric strength value.
    pub fn numeric(&self) -> (r: NumericHandRank)
        ensures
            r == self.spec_numeric(),
    {
        match *self {
            HandRank::HighCard(i) => i,
            HandRank::OnePair(i) => i,
            HandRank::TwoPair(i) => i,
            HandRank::ThreeOfAKind(i) => i,
            HandRank::Straight(i) => i,
            HandRank::Flush(i) => i,
            HandRank::FullHouse(i) => i,
            HandRank::FourOfAKind(i) => i,
            HandRank::StraightFlush(i) => i,
        }
    }

    /// Tags a numeric strength value with the category its value lies in.
    pub fn of_numeric(i: NumericHandRank) -> (r: HandRank)
        ensures
            r == spec_classify(i),
            r.spec_numeric() == i,
    {
        if i > 6185 {
            HandRank::HighCard(i)
        } else if i > 3325 {
            HandRank::OnePair(i)
        } else if i > 2467 {
            HandRank::TwoPair(i)
        } else if i > 1609 {
            HandRank::ThreeOfAKind(i)
        } else if i > 1599 {
            HandRank::Straight(i)
        } else if i > 322 {
            HandRank::Flush(i)
        } else if i > 166 {
            HandRank::FullHouse(i)
        } else if i > 10 {
            HandRank::FourOfAKind(i)
        } else {
            HandRank::StraightFlush(i)
        }
    }

    /// All five cards of the hand share a suit bit.
    pub fn all_same_suit(hand: &Hand) -> (r: bool)
        ensures
            r == hand_flush(*hand),
    {
        let cards = hand.cards();
        let card0 = cards[0].as_int();
        let card1 = cards[1].as_int();
        let card2 = cards[2].as_int();
        let card3 = cards[3].as_int();
        let card4 = cards[4].as_int();

        card0 & card1 & card2 & card3 & card4 & 0xF000 != 0
    }

    /// Exact-match binary search for a prime-product key; the key must be
    /// present, as it is for every product the evaluator can reach under
    /// well-formed tables (a miss would mean corrupted tables).
    pub fn find_value_index(tables: &Tables, q: u32) -> (r: usize)
        requires
            products_sorted(tables.products@),
            contains_product(tables.products@, q as int),
        ensures
            r < tables.products@.len(),
            tables.products@[r as int] == q,
            r == product_index(tables.products@, q as int),
    {
        let found = crate::tables::search_products(&tables.products, q);
        match found {
            Some(i) => {
                proof {
                    lemma_product_index_unique(tables.products@, q as int, i as int);
                }
                i
            },
            None => vstd::pervasive::unreached(),
        }
    }

    /// Evaluates five cards to their category and numeric strength.
    ///
    /// The tables must be well-formed and each card well-formed; a hand of
    /// five equal ranks in differing suits is left out, as no table covers
    /// it (it cannot be dealt from one deck). The strength lies in
    /// [1, 7462] for every non-flush hand and for every hand of five
    /// pairwise distinct cards.
    pub fn compute(tables: &Tables, hand: &Hand) -> (r: HandRank)
        requires
            tables.wf(),
            hand.all_valid(),
            hand_flush(*hand) || !hand_same_rank(*hand),
        ensures
            r == spec_classify(spec_eval_hand(*tables, *hand)),
            r.spec_numeric() == spec_eval_hand(*tables, *hand),
            !hand_flush(*hand) ==> 1 <= r.spec_numeric() <= MAX_HAND_RANK,
            hand.distinct_cards() ==> 1 <= r.spec_numeric() <= MAX_HAND_RANK,
    {
        let cards = hand.cards();
        let card0 = cards[0].as_int();
        let card1 = cards[1].as_int();
        let card2 = cards[2].as_int();
        let card3 = cards[3].as_int();
        let card4 = cards[4].as_int();

        let ghost o0 = order_field(card0);
        let ghost o1 = order_field(card1);
        let ghost o2 = order_field(card2);
        let ghost o3 = order_field(card3);
        let ghost o4 = order_field(card4);

        proof {
            lemma_card_fields(card0);
            lemma_card_fields(card1);
            lemma_card_fields(card2);
            lemma_card_fields(card3);
            lemma_card_fields(card4);
            assert(((card0 | card1 | card2 | card3 | card4) >> 16u32) == mask_of(o0, o1, o2, o3, o4)
                && ((card0 | card1 | card2 | card3 | card4) >> 16u32) < 8192) by (bit_vector)
                requires
                    card0 >> 16u32 == (1u32 << o0),
                    card1 >> 16u32 == (1u32 << o1),
                    card2 >> 16u32 == (1u32 << o2),
                    card3 >> 16u32 == (1u32 << o3),
                    card4 >> 16u32 == (1u32 << o4),
                    o0 <= 12 && o1 <= 12 && o2 <= 12 && o3 <= 12 && o4 <= 12,
            ;
        }
        let lookup_index = ((card0 | card1 | card2 | card3 | card4) >> 16) as usize;

        if Self::all_same_suit(hand) {
            proof {
                if hand.distinct_cards() {
                    lemma_flush_distinct_orders(*hand, card0, card1, card2, card3, card4);
                    assert(orders_ok(*tables, o0, o1, o2, o3, o4));
                }
            }
            Self::of_numeric(tables.flushes[lookup_index] as NumericHandRank)
        } else {
            let unique_rank = tables.uniques[lookup_index] as NumericHandRank;

            if unique_rank != 0 {
                Self::of_numeric(unique_rank)
            } else {
                proof {
                    assert(orders_ok(*tables, o0, o1, o2, o3, o4));
                    assert(!pairwise_distinct(o0, o1, o2, o3, o4));
                    assert(!all_equal(o0, o1, o2, o3, o4));
                    lemma_prime_product_bounds(card0, card1, card2, card3, card4);
                }
                let q = (card0 & 0xFF) * (card1 & 0xFF) * (card2 & 0xFF) * (card3 & 0xFF) * (card4
                    & 0xFF);
                proof {
                    assert(q == rank_prod(o0, o1, o2, o3, o4));
                    assert(contains_product(tables.products@, q as int));
                }
                let index = Self::find_value_index(tables, q);
                Self::of_numeric(tables.values[index] as NumericHandRank)
            }
        }
    }
}

/// How strong a category is as such: high card 0 up to straight flush 8.
pub open spec fn category_level(r: HandRank) -> int {
    match r {
        HandRank::HighCard(_) => 0,
        HandRank::OnePair(_) => 1,
        HandRank::TwoPair(_) => 2,
        HandRank::ThreeOfAKind(_) => 3,
        HandRank::Straight(_) => 4,
        HandRank::Flush(_) => 5,
        HandRank::FullHouse(_) => 6,
        HandRank::FourOfAKind(_) => 7,
        HandRank::StraightFlush(_) => 8,
    }
}

/// Category boundaries: a numeric value's category always matches the fixed
/// ranges, each direction, so no value lies in two categories; and
/// classification keeps the value.
pub proof fn lemma_category_ranges(n: NumericHandRank)
    ensures
        spec_classify(n) is StraightFlush <==> n <= 10,
        spec_classify(n) is FourOfAKind <==> 11 <= n <= 166,
        spec_classify(n) is FullHouse <==> 167 <= n <= 322,
        spec_classify(n) is Flush <==> 323 <= n <= 1599,
        spec_classify(n) is Straight <==> 1600 <= n <= 1609,
        spec_classify(n) is ThreeOfAKind <==> 1610 <= n <= 2467,
        spec_classify(n) is TwoPair <==> 2468 <= n <= 3325,
        spec_classify(n) is OnePair <==> 3326 <= n <= 6185,
        spec_classify(n) is HighCard <==> n > 6185,
        spec_classify(n).spec_numeric() == n,
{
}

/// Strength ordering between categories: a numeric value in a strictly
/// stronger category is strictly smaller, whatever the two values are.
pub proof fn lemma_stronger_category(n1: NumericHandRank, n2: NumericHandRank)
    requires
        category_level(spec_classify(n1)) > category_level(spec_classify(n2)),
    ensures
        n1 < n2,
{
}

/// Strength ordering among straight flushes, straights and one-pair hands:
/// any straight flush value beats any straight value, any straight value
/// beats any one-pair value, and so, transitively, any straight flush value
/// beats any one-pair value.
pub proof fn lemma_strength_ordering(nsf: NumericHandRank, ns: NumericHandRank, np: NumericHandRank)
    requires
        spec_classify(nsf) is StraightFlush,
        spec_classify(ns) is Straight,
        spec_classify(np) is OnePair,
    ensures
        nsf < ns,
        ns < np,
        nsf < np,
{
    lemma_stronger_category(nsf, ns);
    lemma_stronger_category(ns, np);
    lemma_stronger_category(nsf, np);
}

/// Staged overflow bounds for the product of five prime bytes.
proof fn lemma_prime_product_bounds(c0: u32, c1: u32, c2: u32, c3: u32, c4: u32)
    requires
        prime_field(c0) <= 41,
        prime_field(c1) <= 41,
        prime_field(c2) <= 41,
        prime_field(c3) <= 41,
        prime_field(c4) <= 41,
    ensures
        prime_field(c0) * prime_field(c1) <= 41 * 41,
        prime_field(c0) * prime_field(c1) * prime_field(c2) <= 41 * 41 * 41,
        prime_field(c0) * prime_field(c1) * prime_field(c2) * prime_field(c3) <= 41 * 41 * 41 * 41,
        spec_prime_product(c0, c1, c2, c3, c4) <= 41 * 41 * 41 * 41 * 41,
{
    let p0 = prime_field(c0);
    let p1 = prime_field(c1);
    let p2 = prime_field(c2);
    let p3 = prime_field(c3);
    let p4 = prime_field(c4);
    assert(p0 * p1 <= 41 * 41 && p0 * p1 * p2 <= 41 * 41 * 41 && p0 * p1 * p2 * p3 <= 41 * 41 * 41
        * 41 && p0 * p1 * p2 * p3 * p4 <= 41 * 41 * 41 * 41 * 41) by (nonlinear_arith)
        requires
            p0 <= 41 && p1 <= 41 && p2 <= 41 && p3 <= 41 && p4 <= 41,
            p0 >= 0 && p1 >= 0 && p2 >= 0 && p3 >= 0 && p4 >= 0,
    ;
}

/// In a flush of five pairwise distinct cards the five rank orders are
/// pairwise distinct: equal suit bits force any two equal orders to be one
/// card.
proof fn lemma_flush_distinct_orders(h: Hand, c0: u32, c1: u32, c2: u32, c3: u32, c4: u32)
    requires
        h.all_valid(),
        h.distinct_cards(),
        c0 == h@[0] && c1 == h@[1] && c2 == h@[2] && c3 == h@[3] && c4 == h@[4],
        spec_is_flush(c0, c1, c2, c3, c4),
    ensures
        pairwise_distinct(
            order_field(c0),
            order_field(c1),
            order_field(c2),
            order_field(c3),
            order_field(c4),
        ),
{
    lemma_card_fields(c0);
    lemma_card_fields(c1);
    lemma_card_fields(c2);
    lemma_card_fields(c3);
    lemma_card_fields(c4);
    let s0 = suit_field(c0);
    let s1 = suit_field(c1);
    let s2 = suit_field(c2);
    let s3 = suit_field(c3);
    let s4 = suit_field(c4);
    assert(s0 == s1 && s1 == s2 && s2 == s3 && s3 == s4) by (bit_vector)
        requires
            c0 & c1 & c2 & c3 & c4 & 0xF000 != 0,
            s0 == c0 & 0xF000 && s1 == c1 & 0xF000 && s2 == c2 & 0xF000 && s3 == c3 & 0xF000 && s4
                == c4 & 0xF000,
            (s0 == 0x1000 || s0 == 0x2000 || s0 == 0x4000 || s0 == 0x8000),
            (s1 == 0x1000 || s1 == 0x2000 || s1 == 0x4000 || s1 == 0x8000),
            (s2 == 0x1000 || s2 == 0x2000 || s2 == 0x4000 || s2 == 0x8000),
            (s3 == 0x1000 || s3 == 0x2000 || s3 == 0x4000 || s3 == 0x8000),
            (s4 == 0x1000 || s4 == 0x2000 || s4 == 0x4000 || s4 == 0x8000),
    ;
    assert(c0 != c1 && c0 != c2 && c0 != c3 && c0 != c4 && c1 != c2 && c1 != c3 && c1 != c4 && c2
        != c3 && c2 != c4 && c3 != c4);
    if order_field(c0) == order_field(c1) {
        lemma_same_fields_same_card(c0, c1);
    }
    if order_field(c0) == order_field(c2) {
        lemma_same_fields_same_card(c0, c2);
    }
    if order_field(c0) == order_field(c3) {
        lemma_same_fields_same_card(c0, c3);
    }
    if order_field(c0) == order_field(c4) {
        lemma_same_fields_same_card(c0, c4);
    }
    if order_field(c1) == order_field(c2) {
        lemma_same_fields_same_card(c1, c2);
    }
    if order_field(c1) == order_field(c3) {
        lemma_same_fields_same_card(c1, c3);
    }
    if order_field(c1) == order_field(c4) {
        lemma_same_fields_same_card(c1, c4);
    }
    if order_field(c2) == order_field(c3) {
        lemma_same_fields_same_card(c2, c3);
    }
    if order_field(c2) == order_field(c4) {
        lemma_same_fields_same_card(c2, c4);
    }
    if order_field(c3) == order_field(c4) {
        lemma_same_fields_same_card(c3, c4);
    }
}

} // verus!
