//! What a hand of cards holds, as numbers: how many cards of a rank or a
//! suit, how many points, which Jacks.
//!
//! A hand is a `Seq<Card>`. Every number here is a sum over its cards, so it
//! is the same for any two hands that hold the same cards in another order.

use crate::card::{Card, Rank, Suit};
use vstd::prelude::*;

verus! {

/// The sum of `weight` over the cards of a hand.
pub open spec fn tally(cards: Seq<Card>, weight: spec_fn(Card) -> nat) -> nat
    decreases cards.len(),
{
    if cards.len() == 0 {
        0
    } else {
        tally(cards.drop_last(), weight) + weight(cards.last())
    }
}

/// Number of cards of `rank` in the hand.
pub open spec fn rank_count(cards: Seq<Card>, rank: Rank) -> nat {
    tally(cards, |card: Card| if card.rank == rank { 1nat } else { 0nat })
}

/// Number of Jacks in the hand.
pub open spec fn jack_count(cards: Seq<Card>) -> nat {
    rank_count(cards, Rank::Jack)
}

/// Number of Aces in the hand.
pub open spec fn ace_count(cards: Seq<Card>) -> nat {
    rank_count(cards, Rank::Ace)
}

/// Number of cards of `suit` in the hand, Jacks left out.
pub open spec fn plain_count(cards: Seq<Card>, suit: Suit) -> nat {
    tally(cards, |card: Card| if card.is_plain_of(suit) { 1nat } else { 0nat })
}

/// Points of the cards of `suit` in the hand, Jacks left out.
pub open spec fn plain_points(cards: Seq<Card>, suit: Suit) -> nat {
    tally(cards, |card: Card| if card.is_plain_of(suit) { card.spec_points() as nat } else { 0nat })
}

/// Number of times the hand holds the card of `suit` and `rank`.
pub open spec fn copies(cards: Seq<Card>, suit: Suit, rank: Rank) -> nat {
    tally(cards, |card: Card| if card.suit == suit && card.rank == rank { 1nat } else { 0nat })
}

/// Points of all cards of the hand.
pub open spec fn total_points(cards: Seq<Card>) -> nat {
    tally(cards, |card: Card| card.spec_points() as nat)
}

/// Whether the hand holds the card of `suit` and `rank`.
pub open spec fn holds(cards: Seq<Card>, suit: Suit, rank: Rank) -> bool {
    cards.contains(Card { suit, rank })
}

/// What the numbers of the first `n + 1` cards of a hand are, from those of
/// the first `n` and the card at `n`.
pub proof fn lemma_take_next(cards: Seq<Card>, n: int)
    requires
        0 <= n < cards.len(),
    ensures
        forall|rank: Rank| #[trigger]
            rank_count(cards.take(n + 1), rank) == rank_count(cards.take(n), rank) + (if cards[n].rank
                == rank {
                1nat
            } else {
                0nat
            }),
        forall|suit: Suit| #[trigger]
            plain_count(cards.take(n + 1), suit) == plain_count(cards.take(n), suit) + (
            if cards[n].is_plain_of(suit) {
                1nat
            } else {
                0nat
            }),
        forall|suit: Suit| #[trigger]
            plain_points(cards.take(n + 1), suit) == plain_points(cards.take(n), suit) + (
            if cards[n].is_plain_of(suit) {
                cards[n].spec_points() as nat
            } else {
                0nat
            }),
        forall|suit: Suit, rank: Rank| #[trigger]
            copies(cards.take(n + 1), suit, rank) == copies(cards.take(n), suit, rank) + (
            if cards[n].suit == suit && cards[n].rank == rank {
                1nat
            } else {
                0nat
            }),
        forall|suit: Suit, rank: Rank| #[trigger]
            holds(cards.take(n + 1), suit, rank) <==> holds(cards.take(n), suit, rank) || cards[n]
                == (Card { suit, rank }),
        total_points(cards.take(n + 1)) == total_points(cards.take(n)) + cards[n].spec_points(),
{
    let longer = cards.take(n + 1);
    let shorter = cards.take(n);
    assert(longer.drop_last() =~= shorter);
    assert(longer.last() == cards[n]);
    assert forall|suit: Suit, rank: Rank| #[trigger]
        holds(longer, suit, rank) <==> holds(shorter, suit, rank) || cards[n] == (Card {
            suit,
            rank,
        }) by {
        let card = Card { suit, rank };
        if shorter.contains(card) {
            let at = choose|at: int| 0 <= at < shorter.len() && shorter[at] == card;
            assert(longer[at] == card);
        }
        if cards[n] == card {
            assert(longer[n] == card);
        }
        if longer.contains(card) {
            let at = choose|at: int| 0 <= at < longer.len() && longer[at] == card;
            if at < n {
                assert(shorter[at] == card);
            }
        }
    }
}

/// The numbers of a hand without cards: all are 0, and it holds no card.
pub proof fn lemma_no_cards(cards: Seq<Card>)
    requires
        cards.len() == 0,
    ensures
        forall|rank: Rank| #[trigger] rank_count(cards, rank) == 0,
        forall|suit: Suit| #[trigger] plain_count(cards, suit) == 0,
        forall|suit: Suit| #[trigger] plain_points(cards, suit) == 0,
        forall|suit: Suit, rank: Rank| #[trigger] copies(cards, suit, rank) == 0,
        forall|suit: Suit, rank: Rank| !#[trigger] holds(cards, suit, rank),
        total_points(cards) == 0,
{
}

/// Taking one card out of a hand lowers a tally by the weight of that card.
pub proof fn lemma_tally_remove(cards: Seq<Card>, at: int, weight: spec_fn(Card) -> nat)
    requires
        0 <= at < cards.len(),
    ensures
        tally(cards, weight) == tally(cards.remove(at), weight) + weight(cards[at]),
    decreases cards.len(),
{
    if at == cards.len() - 1 {
        assert(cards.remove(at) =~= cards.drop_last());
    } else {
        lemma_tally_remove(cards.drop_last(), at, weight);
        assert(cards.remove(at).drop_last() =~= cards.drop_last().remove(at));
    }
}

/// A tally over two hands laid together is the sum of the tallies.
pub proof fn lemma_tally_add(first: Seq<Card>, second: Seq<Card>, weight: spec_fn(Card) -> nat)
    ensures
        tally(first + second, weight) == tally(first, weight) + tally(second, weight),
    decreases second.len(),
{
    if second.len() == 0 {
        assert(first + second =~= first);
    } else {
        lemma_tally_add(first, second.drop_last(), weight);
        assert((first + second).drop_last() =~= first + second.drop_last());
    }
}

/// Two hands that hold the same cards, in whatever order, have the same tally.
pub proof fn lemma_tally_permutation(a: Seq<Card>, b: Seq<Card>, weight: spec_fn(Card) -> nat)
    requires
        a.to_multiset() == b.to_multiset(),
    ensures
        tally(a, weight) == tally(b, weight),
    decreases a.len(),
{
    broadcast use vstd::seq_lib::group_to_multiset_ensures;

    assert(a.to_multiset().len() == a.len());
    assert(b.to_multiset().len() == b.len());
    if a.len() > 0 {
        let last = a.last();
        assert(a.to_multiset().count(last) > 0);
        let at = choose|at: int| 0 <= at < b.len() && b[at] == last;
        assert(a.drop_last() =~= a.remove(a.len() - 1));
        assert(a.drop_last().to_multiset() =~= b.remove(at).to_multiset());
        lemma_tally_permutation(a.drop_last(), b.remove(at), weight);
        lemma_tally_remove(b, at, weight);
    }
}

/// The numbers of a hand do not depend on the order of its cards.
pub proof fn lemma_numbers_permutation(a: Seq<Card>, b: Seq<Card>)
    requires
        a.to_multiset() == b.to_multiset(),
    ensures
        a.len() == b.len(),
        forall|rank: Rank| #[trigger] rank_count(a, rank) == rank_count(b, rank),
        forall|suit: Suit| #[trigger] plain_count(a, suit) == plain_count(b, suit),
        forall|suit: Suit| #[trigger] plain_points(a, suit) == plain_points(b, suit),
        forall|suit: Suit, rank: Rank| #[trigger] copies(a, suit, rank) == copies(b, suit, rank),
        forall|suit: Suit, rank: Rank| #[trigger] holds(a, suit, rank) == holds(b, suit, rank),
        total_points(a) == total_points(b),
{
    broadcast use vstd::seq_lib::group_to_multiset_ensures;

    assert(a.to_multiset().len() == a.len());
    assert(b.to_multiset().len() == b.len());
    assert forall|rank: Rank| #[trigger] rank_count(a, rank) == rank_count(b, rank) by {
        lemma_tally_permutation(a, b, |card: Card| if card.rank == rank { 1nat } else { 0nat });
    }
    assert forall|suit: Suit| #[trigger] plain_count(a, suit) == plain_count(b, suit) by {
        lemma_tally_permutation(
            a,
            b,
            |card: Card| if card.is_plain_of(suit) { 1nat } else { 0nat },
        );
    }
    assert forall|suit: Suit| #[trigger] plain_points(a, suit) == plain_points(b, suit) by {
        lemma_tally_permutation(
            a,
            b,
            |card: Card| if card.is_plain_of(suit) { card.spec_points() as nat } else { 0nat },
        );
    }
    assert forall|suit: Suit, rank: Rank| #[trigger]
        copies(a, suit, rank) == copies(b, suit, rank) by {
        lemma_tally_permutation(
            a,
            b,
            |card: Card| if card.suit == suit && card.rank == rank { 1nat } else { 0nat },
        );
    }
    assert forall|suit: Suit, rank: Rank| #[trigger]
        holds(a, suit, rank) == holds(b, suit, rank) by {
        lemma_holds_permutation(a, b, suit, rank);
    }
    lemma_tally_permutation(a, b, |card: Card| card.spec_points() as nat);
}

/// Holding a card does not depend on the order of the hand.
pub proof fn lemma_holds_permutation(a: Seq<Card>, b: Seq<Card>, suit: Suit, rank: Rank)
    requires
        a.to_multiset() == b.to_multiset(),
    ensures
        holds(a, suit, rank) == holds(b, suit, rank),
{
    broadcast use vstd::seq_lib::group_to_multiset_ensures;

    let card = Card { suit, rank };
    assert(a.contains(card) <==> a.to_multiset().count(card) > 0);
    assert(b.contains(card) <==> b.to_multiset().count(card) > 0);
}

/// A count of cards is the length of the hand filtered by what is counted.
pub proof fn lemma_count_is_filter_len(cards: Seq<Card>, counted: spec_fn(Card) -> bool)
    ensures
        tally(cards, |card: Card| if counted(card) { 1nat } else { 0nat }) == cards.filter(
            counted,
        ).len(),
    decreases cards.len(),
{
    let weight = |card: Card| if counted(card) { 1nat } else { 0nat };
    if cards.len() == 0 {
        assert(cards.filter(counted).len() == 0);
    } else {
        lemma_count_is_filter_len(cards.drop_last(), counted);
        assert(cards =~= cards.drop_last().push(cards.last()));
        cards.drop_last().lemma_filter_len_push(counted, cards.last());
    }
}

/// Every card of a hand is a Jack or a plain card of exactly one suit.
pub proof fn lemma_counts_partition(cards: Seq<Card>)
    ensures
        jack_count(cards) + plain_count(cards, Suit::Clubs) + plain_count(cards, Suit::Spades)
            + plain_count(cards, Suit::Hearts) + plain_count(cards, Suit::Diamonds)
            == cards.len(),
    decreases cards.len(),
{
    if cards.len() > 0 {
        lemma_counts_partition(cards.drop_last());
    }
}

/// No card is worth more than eleven points.
pub proof fn lemma_plain_points_bound(cards: Seq<Card>, suit: Suit)
    ensures
        plain_points(cards, suit) <= 11 * plain_count(cards, suit),
    decreases cards.len(),
{
    if cards.len() > 0 {
        lemma_plain_points_bound(cards.drop_last(), suit);
    }
}

/// No card is worth more than eleven points.
pub proof fn lemma_total_points_bound(cards: Seq<Card>)
    ensures
        total_points(cards) <= 11 * cards.len(),
    decreases cards.len(),
{
    if cards.len() > 0 {
        lemma_total_points_bound(cards.drop_last());
    }
}

/// A hand holds no more Aces of a suit than Aces, and no more than plain
/// cards of that suit.
pub proof fn lemma_suit_aces_bound(cards: Seq<Card>, suit: Suit)
    ensures
        copies(cards, suit, Rank::Ace) <= ace_count(cards),
        copies(cards, suit, Rank::Ace) <= plain_count(cards, suit),
    decreases cards.len(),
{
    if cards.len() > 0 {
        lemma_suit_aces_bound(cards.drop_last(), suit);
    }
}

} // verus!
