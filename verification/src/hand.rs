//! Hands: an ordered collection of exactly five cards, with comparison
//! operations built on the evaluator.
//!
//! Hands are totally ordered by numeric strength, inverted: a smaller
//! numeric value is the stronger hand and compares as greater, so that
//! picking a maximum selects the winning hand. Two hands of equal numeric
//! strength are equal in strength whatever their exact cards.

use vstd::prelude::*;

use crate::card::{valid_card, Card};
use crate::hand_rank::{hand_flush, hand_same_rank, spec_classify, spec_eval_hand, HandRank};
use crate::tables::{Tables, MAX_HAND_RANK};

verus! {

/// Five cards, in the order given; no legality constraint (such as all
/// cards being distinct) is enforced on construction.
#[derive(Copy, Clone, Debug)]
pub struct Hand([Card; 5]);

impl View for Hand {
    type V = Seq<u32>;

    closed spec fn view(&self) -> Seq<u32> {
        Seq::new(5, |i: int| self.0@[i]@)
    }
}

/// A hand's view always holds exactly five packed integers.
pub proof fn lemma_hand_len(h: Hand)
    ensures
        h@.len() == 5,
{
}

impl Hand {
    /// Every card of the hand is well-formed.
    pub open spec fn all_valid(self) -> bool {
        forall|i: int| 0 <= i < 5 ==> valid_card(#[trigger] self@[i])
    }

    /// No two cards of the hand are one card.
    pub open spec fn distinct_cards(self) -> bool {
        forall|i: int, j: int| 0 <= i < j < 5 ==> self@[i] != self@[j]
    }

    /// Wraps five cards.
    pub fn new(cards: [Card; 5]) -> (h: Hand)
        ensures
            forall|i: int| 0 <= i < 5 ==> h@[i] == #[trigger] cards@[i]@,
            h@.len() == 5,
    {
        Hand(cards)
    }

    /// The five cards, in their given order.
    pub fn cards(&self) -> (r: &[Card; 5])
        ensures
            forall|i: int| 0 <= i < 5 ==> #[trigger] r@[i]@ == self@[i],
    {
        &self.0
    }

    /// Evaluates the hand to its category and numeric strength.
    pub fn rank(&self, tables: &Tables) -> (r: HandRank)
        requires
            tables.wf(),
            self.all_valid(),
            hand_flush(*self) || !hand_same_rank(*self),
        ensures
            r == spec_classify(spec_eval_hand(*tables, *self)),
            r.spec_numeric() == spec_eval_hand(*tables, *self),
            !hand_flush(*self) ==> 1 <= r.spec_numeric() <= MAX_HAND_RANK,
            self.distinct_cards() ==> 1 <= r.spec_numeric() <= MAX_HAND_RANK,
    {
        HandRank::compute(tables, self)
    }

    /// Whether this hand beats the other: true exactly when this hand's
    /// numeric strength is the smaller one (smaller is stronger, so the
    /// stronger hand compares greater).
    pub fn stronger_than(&self, other: &Hand, tables: &Tables) -> (r: bool)
        requires
            tables.wf(),
            self.all_valid(),
            other.all_valid(),
            hand_flush(*self) || !hand_same_rank(*self),
            hand_flush(*other) || !hand_same_rank(*other),
        ensures
            r == (spec_eval_hand(*tables, *self) < spec_eval_hand(*tables, *other)),
    {
        self.rank(tables).numeric() < other.rank(tables).numeric()
    }

    /// Whether the two hands are of equal strength: true exactly when their
    /// numeric strengths are equal, regardless of the cards' identities.
    pub fn same_strength(&self, other: &Hand, tables: &Tables) -> (r: bool)
        requires
            tables.wf(),
            self.all_valid(),
            other.all_valid(),
            hand_flush(*self) || !hand_same_rank(*self),
            hand_flush(*other) || !hand_same_rank(*other),
        ensures
            r == (spec_eval_hand(*tables, *self) == spec_eval_hand(*tables, *other)),
    {
        self.rank(tables).numeric() == other.rank(tables).numeric()
    }
}

} // verus!
