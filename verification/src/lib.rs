//! A five-card poker hand evaluator.
//!
//! A card packs its rank and suit into one integer so that bitwise
//! combinations of five cards drive a table-based evaluation: every hand
//! maps to one of 7462 distinct strength levels (1 is best) and to one of
//! nine categories, high card through straight flush. The four lookup
//! tables are precomputed read-only data supplied by the caller and checked
//! for well-formedness on construction; the evaluator's contracts state the
//! strength each hand receives and that it always lies in range.

pub mod card;
pub mod hand;
pub mod hand_rank;
pub mod rank_multiset;
pub mod tables;
