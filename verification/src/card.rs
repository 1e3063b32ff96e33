//! Cards: a rank and suit packed into one integer.
//!
//! The packed layout (bit 0 is the least significant bit):
//! bits 0-7 hold the rank's prime encoding, bits 8-11 its order encoding,
//! bits 12-15 a one-hot suit bit, and bits 16-28 a one-hot rank-presence
//! bit at position `16 + order`. The layout lets bitwise OR and AND across
//! five cards yield the rank-presence mask and the flush test directly.

use vstd::prelude::*;

verus! {

/// The thirteen card ranks.
#[derive(Copy, Clone, PartialEq, Eq, Structural, Debug)]
pub enum Rank {
    Ace,
    King,
    Queen,
    Jack,
    Ten,
    Nine,
    Eight,
    Seven,
    Six,
    Five,
    Four,
    Three,
    Two,
}

/// The four suits.
#[derive(Copy, Clone, PartialEq, Eq, Structural, Debug)]
pub enum Suit {
    Hearts,
    Diamonds,
    Spades,
    Clubs,
}

/// Order encoding of a rank: 0 (Two) through 12 (Ace), used both as a bit
/// position and as a 4-bit field.
pub open spec fn spec_order(r: Rank) -> u32 {
    match r {
        Rank::Ace => 12,
        Rank::King => 11,
        Rank::Queen => 10,
        Rank::Jack => 9,
        Rank::Ten => 8,
        Rank::Nine => 7,
        Rank::Eight => 6,
        Rank::Seven => 5,
        Rank::Six => 4,
        Rank::Five => 3,
        Rank::Four => 2,
        Rank::Three => 1,
        Rank::Two => 0,
    }
}

/// The prime encoding, by order: an injective map of the thirteen orders to
/// the first thirteen primes, so that the product of five primes identifies
/// the multiset of ranks.
pub open spec fn prime_of_order(o: u32) -> u32 {
    if o == 0 {
        2
    } else if o == 1 {
        3
    } else if o == 2 {
        5
    } else if o == 3 {
        7
    } else if o == 4 {
        11
    } else if o == 5 {
        13
    } else if o == 6 {
        17
    } else if o == 7 {
        19
    } else if o == 8 {
        23
    } else if o == 9 {
        29
    } else if o == 10 {
        31
    } else if o == 11 {
        37
    } else {
        41
    }
}

/// Prime encoding of a rank.
pub open spec fn spec_prime(r: Rank) -> u32 {
    prime_of_order(spec_order(r))
}

/// The one-hot suit bit within the nibble at bits 12-15.
pub open spec fn spec_suit_bits(s: Suit) -> u32 {
    match s {
        Suit::Spades => 0x1000,
        Suit::Hearts => 0x2000,
        Suit::Diamonds => 0x4000,
        Suit::Clubs => 0x8000,
    }
}

/// The packed integer for a rank and suit.
pub open spec fn spec_pack(r: Rank, s: Suit) -> u32 {
    (1u32 << ((16 + spec_order(r)) as u32)) | (spec_order(r) << 8u32) | spec_suit_bits(s)
        | spec_prime(r)
}

/// The 4-bit order field of a packed integer.
pub open spec fn order_field(c: u32) -> u32 {
    (c >> 8u32) & 0xF
}

/// The suit nibble of a packed integer.
pub open spec fn suit_field(c: u32) -> u32 {
    c & 0xF000
}

/// The prime byte of a packed integer.
pub open spec fn prime_field(c: u32) -> u32 {
    c & 0xFF
}

/// The rank-presence bits of a packed integer.
pub open spec fn presence_field(c: u32) -> u32 {
    c >> 16u32
}

/// The rank whose order encoding is `o` (orders above 12 decode arbitrarily
/// to Ace; a well-formed card never carries one).
pub open spec fn rank_of_order(o: u32) -> Rank {
    if o == 0 {
        Rank::Two
    } else if o == 1 {
        Rank::Three
    } else if o == 2 {
        Rank::Four
    } else if o == 3 {
        Rank::Five
    } else if o == 4 {
        Rank::Six
    } else if o == 5 {
        Rank::Seven
    } else if o == 6 {
        Rank::Eight
    } else if o == 7 {
        Rank::Nine
    } else if o == 8 {
        Rank::Ten
    } else if o == 9 {
        Rank::Jack
    } else if o == 10 {
        Rank::Queen
    } else if o == 11 {
        Rank::King
    } else {
        Rank::Ace
    }
}

/// The suit whose one-hot bit is `b` (other values decode arbitrarily to
/// Clubs; a well-formed card never carries one).
pub open spec fn suit_of_bits(b: u32) -> Suit {
    if b == 0x1000 {
        Suit::Spades
    } else if b == 0x2000 {
        Suit::Hearts
    } else if b == 0x4000 {
        Suit::Diamonds
    } else {
        Suit::Clubs
    }
}

/// The rank a packed integer decodes to.
pub open spec fn spec_rank_of(c: u32) -> Rank {
    rank_of_order(order_field(c))
}

/// The suit a packed integer decodes to.
pub open spec fn spec_suit_of(c: u32) -> Suit {
    suit_of_bits(suit_field(c))
}

/// A packed integer is a well-formed card exactly when it is the packing of
/// the rank and suit its own fields decode to: one suit bit and one presence
/// bit set, and the prime field matching the order field.
pub open spec fn valid_card(c: u32) -> bool {
    c == spec_pack(spec_rank_of(c), spec_suit_of(c))
}

/// A playing card, packed into a single integer.
#[derive(Copy, Clone, PartialEq, Eq, Structural, Debug)]
pub struct Card(u32);

impl View for Card {
    type V = u32;

    closed spec fn view(&self) -> u32 {
        self.0
    }
}

/// Round trip: the packed form of any rank and suit decodes back to them
/// exactly, field by field, and is a well-formed card.
pub proof fn lemma_card_round_trip(r: Rank, s: Suit)
    ensures
        order_field(spec_pack(r, s)) == spec_order(r),
        suit_field(spec_pack(r, s)) == spec_suit_bits(s),
        prime_field(spec_pack(r, s)) == spec_prime(r),
        presence_field(spec_pack(r, s)) == (1u32 << spec_order(r)),
        spec_rank_of(spec_pack(r, s)) == r,
        spec_suit_of(spec_pack(r, s)) == s,
        valid_card(spec_pack(r, s)),
{
    let o = spec_order(r);
    let p = spec_prime(r);
    let sb = spec_suit_bits(s);
    assert(o <= 12);
    assert(2 <= p && p <= 41);
    assert(sb == 0x1000 || sb == 0x2000 || sb == 0x4000 || sb == 0x8000);
    assert((((1u32 << ((16 + o) as u32)) | (o << 8u32) | sb | p) >> 8u32) & 0xF == o
        && (((1u32 << ((16 + o) as u32)) | (o << 8u32) | sb | p) & 0xF000) == sb
        && (((1u32 << ((16 + o) as u32)) | (o << 8u32) | sb | p) & 0xFF) == p
        && (((1u32 << ((16 + o) as u32)) | (o << 8u32) | sb | p) >> 16u32) == (1u32 << o))
        by (bit_vector)
        requires
            o <= 12,
            2 <= p && p <= 41,
            sb == 0x1000 || sb == 0x2000 || sb == 0x4000 || sb == 0x8000,
    ;
    assert(rank_of_order(o) == r);
    assert(suit_of_bits(sb) == s);
}

impl Rank {
    /// The rank's prime encoding: deuce 2, trey 3, four 5, ..., ace 41.
    pub fn prime_encoding(&self) -> (p: u32)
        ensures
            p == spec_prime(*self),
    {
        match *self {
            Rank::Ace => 41,
            Rank::King => 37,
            Rank::Queen => 31,
            Rank::Jack => 29,
            Rank::Ten => 23,
            Rank::Nine => 19,
            Rank::Eight => 17,
            Rank::Seven => 13,
            Rank::Six => 11,
            Rank::Five => 7,
            Rank::Four => 5,
            Rank::Three => 3,
            Rank::Two => 2,
        }
    }

    /// The rank's order encoding: deuce 0, trey 1, ..., ace 12.
    pub fn order_encoding(&self) -> (o: u32)
        ensures
            o == spec_order(*self),
            o <= 12,
    {
        match *self {
            Rank::Ace => 12,
            Rank::King => 11,
            Rank::Queen => 10,
            Rank::Jack => 9,
            Rank::Ten => 8,
            Rank::Nine => 7,
            Rank::Eight => 6,
            Rank::Seven => 5,
            Rank::Six => 4,
            Rank::Five => 3,
            Rank::Four => 2,
            Rank::Three => 1,
            Rank::Two => 0,
        }
    }
}

impl Card {
    /// Packs a rank and suit pair into the packed bit representation.
    pub fn new(rank: Rank, suit: Suit) -> (c: Card)
        ensures
            c@ == spec_pack(rank, suit),
            valid_card(c@),
    {
        let prime = rank.prime_encoding();
        let order = rank.order_encoding();
        let base = 1u32 << (16 + order);

        let suit_bits: u32 = match suit {
            Suit::Spades => 0x1000,
            Suit::Hearts => 0x2000,
            Suit::Diamonds => 0x4000,
            Suit::Clubs => 0x8000,
        };

        proof {
            lemma_card_round_trip(rank, suit);
        }
        Card(base | (order << 8u32) | suit_bits | prime)
    }

    /// The raw packed representation.
    pub fn as_int(&self) -> (r: u32)
        ensures
            r == self@,
    {
        self.0
    }

    /// Extracts the suit from the packed integer. Only well-formed cards
    /// carry a decodable suit bit; a value with zero or several suit bits
    /// set would signal a construction fault upstream.
    pub fn suit(&self) -> (s: Suit)
        requires
            valid_card(self@),
        ensures
            s == spec_suit_of(self@),
    {
        proof {
            lemma_card_round_trip(spec_rank_of(self@), spec_suit_of(self@));
        }
        let bits = self.0 & 0xF000;

        match bits {
            0x1000 => Suit::Spades,
            0x2000 => Suit::Hearts,
            0x4000 => Suit::Diamonds,
            0x8000 => Suit::Clubs,
            _ => vstd::pervasive::unreached(),
        }
    }

    /// Extracts the rank from the packed integer. Only well-formed cards
    /// carry a decodable order field.
    pub fn rank(&self) -> (r: Rank)
        requires
            valid_card(self@),
        ensures
            r == spec_rank_of(self@),
    {
        proof {
            lemma_card_round_trip(spec_rank_of(self@), spec_suit_of(self@));
        }
        let bits = (self.0 >> 8u32) & 0xF;

        match bits {
            0 => Rank::Two,
            1 => Rank::Three,
            2 => Rank::Four,
            3 => Rank::Five,
            4 => Rank::Six,
            5 => Rank::Seven,
            6 => Rank::Eight,
            7 => Rank::Nine,
            8 => Rank::Ten,
            9 => Rank::Jack,
            10 => Rank::Queen,
            11 => Rank::King,
            12 => Rank::Ace,
            _ => vstd::pervasive::unreached(),
        }
    }
}

impl From<u32> for Card {
    /// Wraps a raw packed integer; well-formedness is not checked here, as
    /// the evaluator and the accessors state it where they need it.
    fn from(v: u32) -> (c: Card) {
        Card(v)
    }
}

impl vstd::std_specs::convert::FromSpecImpl<u32> for Card {
    open spec fn obeys_from_spec() -> bool {
        true
    }

    closed spec fn from_spec(v: u32) -> Card {
        Card(v)
    }
}

} // verus!
