//! The valuation of a hand: which suit it would play as trump, whether it
//! may bid at all, and the highest value it may bid.
//!
//! Everything here is a specification over the cards of a hand, read
//! through the numbers of [`crate::hand`]. `CardHolder::evaluate` computes it.

use crate::card::{Card, Rank, Suit};
use crate::hand::{
    ace_count, copies, holds, jack_count, lemma_numbers_permutation, plain_count, plain_points,
};
use vstd::prelude::*;

verus! {

/// The larger of two numbers.
pub open spec fn larger(a: nat, b: nat) -> nat {
    if a >= b {
        a
    } else {
        b
    }
}

/// The most plain cards that the hand holds of any one suit.
pub open spec fn max_plain_count(cards: Seq<Card>) -> nat {
    larger(
        larger(plain_count(cards, Suit::Clubs), plain_count(cards, Suit::Spades)),
        larger(plain_count(cards, Suit::Hearts), plain_count(cards, Suit::Diamonds)),
    )
}

/// Number of trumps with the longest suit as trump: the Jacks and that suit.
pub open spec fn trump_count(cards: Seq<Card>) -> nat {
    jack_count(cards) + max_plain_count(cards)
}

/// Number of Aces of `suit` in the hand.
pub open spec fn suit_aces(cards: Seq<Card>, suit: Suit) -> nat {
    copies(cards, suit, Rank::Ace)
}

/// Number of Aces in the hand that are not of `suit`.
pub open spec fn side_aces(cards: Seq<Card>, suit: Suit) -> int {
    ace_count(cards) - suit_aces(cards, suit)
}

/// Whether `suit` may be trump: it is one of the longest suits, and with
/// only five trumps it holds ten points or comes with more than two Jacks.
pub open spec fn is_candidate(cards: Seq<Card>, suit: Suit) -> bool {
    &&& plain_count(cards, suit) == max_plain_count(cards)
    &&& (trump_count(cards) > 5 || plain_points(cards, suit) >= 10 || jack_count(cards) > 2)
}

/// The choice after looking at `suit`, where `kept` was the choice before:
/// a candidate replaces none, and replaces a suit that holds more Aces.
pub open spec fn prefer(cards: Seq<Card>, kept: Option<Suit>, suit: Suit) -> Option<Suit> {
    if !is_candidate(cards, suit) {
        kept
    } else {
        match kept {
            None => Some(suit),
            Some(earlier) => if suit_aces(cards, suit) < suit_aces(cards, earlier) {
                Some(suit)
            } else {
                kept
            },
        }
    }
}

/// The choice after looking at the first `n` suits in their fixed order.
pub open spec fn candidate_among(cards: Seq<Card>, n: int) -> Option<Suit>
    decreases n,
{
    if n <= 0 {
        None
    } else {
        prefer(cards, candidate_among(cards, n - 1), Suit::at(n - 1))
    }
}

/// The candidate that is chosen: looking at Clubs, Spades, Hearts, Diamonds
/// in turn, the first candidate is kept until a later one holds fewer Aces.
pub open spec fn chosen_candidate(cards: Seq<Card>) -> Option<Suit> {
    candidate_among(cards, 4)
}

/// The trump suit with which the hand may bid, `None` where it must pass.
///
/// A hand passes with fewer than five trumps, with five trumps and no Ace,
/// without a candidate suit, and with five trumps and no Ace beside the
/// chosen suit.
pub open spec fn trump_suit(cards: Seq<Card>) -> Option<Suit> {
    if trump_count(cards) < 5 {
        None
    } else if trump_count(cards) == 5 && ace_count(cards) == 0 {
        None
    } else {
        match chosen_candidate(cards) {
            None => None,
            Some(suit) => if trump_count(cards) == 5 && side_aces(cards, suit) == 0 {
                None
            } else {
                Some(suit)
            },
        }
    }
}

/// The factor that the three highest Jacks give: with the Jack of Clubs the
/// number of Jacks held in a row from it, without it minus the number of
/// Jacks missing in a row from it.
pub open spec fn jack_run(clubs: bool, spades: bool, hearts: bool) -> int {
    if clubs {
        if spades {
            if hearts {
                3
            } else {
                2
            }
        } else {
            1
        }
    } else if !spades {
        if !hearts {
            -3
        } else {
            -2
        }
    } else {
        -1
    }
}

/// The Jack factor of a hand: -4 without any Jack, 4 with four Jacks, else
/// what the Jacks of Clubs, Spades and Hearts give.
pub open spec fn jack_factor(cards: Seq<Card>) -> int {
    if jack_count(cards) == 0 {
        -4
    } else if jack_count(cards) == 4 {
        4
    } else {
        jack_run(
            holds(cards, Suit::Clubs, Rank::Jack),
            holds(cards, Suit::Spades, Rank::Jack),
            holds(cards, Suit::Hearts, Rank::Jack),
        )
    }
}

/// What the trump suit's base value is multiplied with: one more than the
/// size of the Jack factor.
pub open spec fn multiplier(cards: Seq<Card>) -> int {
    if jack_factor(cards) >= 0 {
        jack_factor(cards) + 1
    } else {
        1 - jack_factor(cards)
    }
}

/// The highest value the hand may bid; 0 where it must pass.
pub open spec fn bid_value(cards: Seq<Card>) -> int {
    match trump_suit(cards) {
        None => 0,
        Some(suit) => suit.weight() * multiplier(cards),
    }
}

/// The suit shown as trump after looking at `suit`, where `kept` was shown
/// before: the longer of the two, with the same length the one with more
/// points, and `kept` where they are level.
pub open spec fn longer_suit(cards: Seq<Card>, kept: Suit, suit: Suit) -> Suit {
    if plain_count(cards, suit) > plain_count(cards, kept) || (plain_count(cards, suit)
        == plain_count(cards, kept) && plain_points(cards, suit) > plain_points(cards, kept)) {
        suit
    } else {
        kept
    }
}

/// The suit that is shown as the trump suit of a hand: its longest suit,
/// among several the one with the most points, among those the first of
/// Clubs, Spades, Hearts, Diamonds. Whether the hand may bid plays no part.
pub open spec fn longest_suit(cards: Seq<Card>) -> Suit {
    longer_suit(
        cards,
        longer_suit(cards, longer_suit(cards, Suit::Clubs, Suit::Spades), Suit::Hearts),
        Suit::Diamonds,
    )
}

/// What the valuation says of a hand.
#[derive(Debug, Clone, Copy, PartialEq, Eq)]
pub struct Valuation {
    /// Whether the hand may bid.
    pub eligible: bool,
    /// The trump suit it would play; `None` where it must pass.
    pub trump_suit: Option<Suit>,
    /// The highest value it may bid; 0 where it must pass.
    pub bid_value: u16,
}

/// The valuation of a hand.
pub open spec fn valuation(cards: Seq<Card>) -> Valuation {
    Valuation {
        eligible: trump_suit(cards) is Some,
        trump_suit: trump_suit(cards),
        bid_value: bid_value(cards) as u16,
    }
}

/// A hand with fewer than five trumps, Jacks and longest suit together,
/// must pass: it has no trump suit and its bid value is 0.
pub proof fn lemma_few_trumps_pass(cards: Seq<Card>)
    requires
        trump_count(cards) < 5,
    ensures
        !valuation(cards).eligible,
        valuation(cards).bid_value == 0,
        trump_suit(cards) is None,
        bid_value(cards) == 0,
{
}

/// With exactly four Jacks the Jack factor is 4, whatever else the hand holds.
pub proof fn lemma_four_jacks_factor(cards: Seq<Card>)
    requires
        jack_count(cards) == 4,
    ensures
        jack_factor(cards) == 4,
{
}

/// Without a Jack the Jack factor is -4.
pub proof fn lemma_no_jack_factor(cards: Seq<Card>)
    requires
        jack_count(cards) == 0,
    ensures
        jack_factor(cards) == -4,
{
}

/// The Jack factor is one of -4 to -1 and 1 to 4, so the multiplier lies
/// between 2 and 5.
pub proof fn lemma_multiplier_range(cards: Seq<Card>)
    ensures
        -4 <= jack_factor(cards) <= 4,
        jack_factor(cards) != 0,
        2 <= multiplier(cards) <= 5,
{
}

/// The bid value is never negative. Where the hand may bid, it is the trump
/// suit's base value (9, 10, 11 or 12) times a multiplier of at least 1,
/// which makes at least 18; where it must pass, it is 0. Either way it fits
/// the 16 bits it is returned in.
pub proof fn lemma_bid_is_weight_multiple(cards: Seq<Card>)
    ensures
        0 <= bid_value(cards) <= 60,
        valuation(cards).bid_value == bid_value(cards),
        match trump_suit(cards) {
            Some(suit) => {
                &&& 9 <= suit.weight() <= 12
                &&& multiplier(cards) >= 1
                &&& bid_value(cards) == suit.weight() * multiplier(cards)
                &&& bid_value(cards) % suit.weight() == 0
                &&& bid_value(cards) >= 18
            },
            None => bid_value(cards) == 0,
        },
{
    lemma_multiplier_range(cards);
    match trump_suit(cards) {
        Some(suit) => {
            let w = suit.weight();
            let m = multiplier(cards);
            assert(18 <= w * m <= 60 && (w * m) % w == 0) by (nonlinear_arith)
                requires
                    9 <= w <= 12,
                    2 <= m <= 5,
            ;
        },
        None => {},
    }
}

/// The chosen candidate is a candidate, no candidate holds fewer Aces, and
/// of the candidates with as few Aces it is the first in the order Clubs,
/// Spades, Hearts, Diamonds. None is chosen only where no suit is a
/// candidate.
pub proof fn lemma_chosen_candidate(cards: Seq<Card>, other: Suit)
    ensures
        match chosen_candidate(cards) {
            Some(suit) => {
                &&& is_candidate(cards, suit)
                &&& is_candidate(cards, other) ==> suit_aces(cards, suit) <= suit_aces(
                    cards,
                    other,
                )
                &&& is_candidate(cards, other) && suit_aces(cards, suit) == suit_aces(cards, other)
                    ==> suit.index() <= other.index()
            },
            None => !is_candidate(cards, other),
        },
{
    reveal_with_fuel(candidate_among, 5);
    assert(Suit::at(0) == Suit::Clubs && Suit::at(1) == Suit::Spades && Suit::at(2) == Suit::Hearts
        && Suit::at(3) == Suit::Diamonds);
}

/// In a hand that holds no card twice, the Jack factor counts the Jacks in
/// a row from the Jack of Clubs down: with the Jack of Clubs those held,
/// without it those missing. The Jacks in a row stand in the order Clubs,
/// Spades, Hearts, Diamonds, and the row ends at the first Jack that
/// breaks it.
pub proof fn lemma_jack_factor_counts_a_row(cards: Seq<Card>, suit: Suit)
    requires
        cards.no_duplicates(),
    ensures
        jack_factor(cards) > 0 ==> holds(cards, Suit::Clubs, Rank::Jack),
        jack_factor(cards) < 0 ==> !holds(cards, Suit::Clubs, Rank::Jack),
        suit.index() < jack_factor(cards) ==> holds(cards, suit, Rank::Jack),
        suit.index() < -jack_factor(cards) ==> !holds(cards, suit, Rank::Jack),
        0 < jack_factor(cards) == suit.index() ==> !holds(cards, suit, Rank::Jack),
        0 < -jack_factor(cards) == suit.index() ==> holds(cards, suit, Rank::Jack),
{
    lemma_jacks_of_a_hand(cards);
}

/// A hand that holds no card twice holds as many Jacks as it holds of the
/// four Jacks.
pub proof fn lemma_jacks_of_a_hand(cards: Seq<Card>)
    requires
        cards.no_duplicates(),
    ensures
        jack_count(cards) == held(cards, Suit::Clubs) + held(cards, Suit::Spades) + held(
            cards,
            Suit::Hearts,
        ) + held(cards, Suit::Diamonds),
    decreases cards.len(),
{
    if cards.len() > 0 {
        let front = cards.drop_last();
        let last = cards.last();
        assert forall|i: int, j: int| 0 <= i < front.len() && 0 <= j < front.len() && i
            != j implies front[i] != front[j] by {
            assert(front[i] == cards[i] && front[j] == cards[j]);
        }
        lemma_jacks_of_a_hand(front);
        assert forall|suit: Suit| #[trigger]
            holds(cards, suit, Rank::Jack) <==> holds(front, suit, Rank::Jack) || last == (Card {
                suit,
                rank: Rank::Jack,
            }) by {
            let jack = Card { suit, rank: Rank::Jack };
            if front.contains(jack) {
                let at = choose|at: int| 0 <= at < front.len() && front[at] == jack;
                assert(cards[at] == jack);
            }
            if last == jack {
                assert(cards[cards.len() - 1] == jack);
            }
            if cards.contains(jack) {
                let at = choose|at: int| 0 <= at < cards.len() && cards[at] == jack;
                if at < front.len() {
                    assert(front[at] == jack);
                }
            }
        }
        assert forall|suit: Suit| last == (Card { suit, rank: Rank::Jack }) implies !holds(
            front,
            suit,
            Rank::Jack,
        ) by {
            if front.contains(last) {
                let at = choose|at: int| 0 <= at < front.len() && front[at] == last;
                assert(cards[at] == cards[cards.len() - 1]);
            }
        }
    }
}

/// 1 where the hand holds the Jack of `suit`, else 0.
pub open spec fn held(cards: Seq<Card>, suit: Suit) -> nat {
    if holds(cards, suit, Rank::Jack) {
        1
    } else {
        0
    }
}

/// The suit shown as trump is a longest suit; no other longest suit has more
/// points; and of the longest suits with as many points it is the first.
pub proof fn lemma_longest_suit(cards: Seq<Card>, other: Suit)
    ensures
        plain_count(cards, longest_suit(cards)) == max_plain_count(cards),
        plain_count(cards, other) <= plain_count(cards, longest_suit(cards)),
        plain_count(cards, other) == max_plain_count(cards) ==> plain_points(cards, other)
            <= plain_points(cards, longest_suit(cards)),
        plain_count(cards, other) == max_plain_count(cards) && plain_points(cards, other)
            == plain_points(cards, longest_suit(cards)) ==> longest_suit(cards).index()
            <= other.index(),
{
}

/// The valuation of a hand does not depend on the order of its cards.
pub proof fn lemma_valuation_permutation(a: Seq<Card>, b: Seq<Card>)
    requires
        a.to_multiset() == b.to_multiset(),
    ensures
        trump_suit(a) == trump_suit(b),
        jack_factor(a) == jack_factor(b),
        bid_value(a) == bid_value(b),
        valuation(a) == valuation(b),
        longest_suit(a) == longest_suit(b),
{
    lemma_numbers_permutation(a, b);
    assert(max_plain_count(a) == max_plain_count(b));
    assert forall|suit: Suit| is_candidate(a, suit) == is_candidate(b, suit) by {}
    assert forall|n: int| 0 <= n <= 4 implies candidate_among(a, n) == candidate_among(b, n) by {
        lemma_candidate_among_permutation(a, b, n);
    }
}

/// The choice among the first suits does not depend on the order of the cards.
proof fn lemma_candidate_among_permutation(a: Seq<Card>, b: Seq<Card>, n: int)
    requires
        a.to_multiset() == b.to_multiset(),
    ensures
        candidate_among(a, n) == candidate_among(b, n),
    decreases n,
{
    lemma_numbers_permutation(a, b);
    if n > 0 {
        lemma_candidate_among_permutation(a, b, n - 1);
    }
}

} // verus!
