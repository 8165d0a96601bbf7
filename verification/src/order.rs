//! The order in which a hand is laid out for display, and the sort that
//! brings a hand into it.
//!
//! The Jacks come first, from Clubs to Diamonds. Then the suits follow from
//! Clubs to Diamonds, each from its Ace down: Ace, Ten, King, Queen, Nine,
//! Eight, Seven.

use crate::card::{Card, Rank};
use vstd::prelude::*;
use vstd::relations::{sorted_by, total_ordering};

verus! {

/// How high a rank stands within its suit when a hand is laid out.
pub open spec fn rank_order(rank: Rank) -> int {
    match rank {
        Rank::Jack => 9,
        Rank::Ace => 8,
        Rank::Ten => 7,
        Rank::King => 6,
        Rank::Queen => 5,
        Rank::Nine => 3,
        Rank::Eight => 2,
        Rank::Seven => 1,
    }
}

/// The place of a card in the display order: the lower, the further left.
/// No two cards share a place.
pub open spec fn display_position(card: Card) -> int {
    if card.rank == Rank::Jack {
        card.suit.index()
    } else {
        4 + 8 * card.suit.index() + (8 - rank_order(card.rank))
    }
}

/// The display order as a relation: `a` is `b` or stands left of it.
pub open spec fn display_leq() -> spec_fn(Card, Card) -> bool {
    |a: Card, b: Card| display_position(a) <= display_position(b)
}

/// Whether a hand is laid out in display order.
pub open spec fn display_sorted(cards: Seq<Card>) -> bool {
    forall|i: int, j: int|
        0 <= i < j < cards.len() ==> display_position(#[trigger] cards[i]) <= display_position(
            #[trigger] cards[j],
        )
}

/// The display order is a total order on the cards.
pub proof fn lemma_display_order_total()
    ensures
        total_ordering(display_leq()),
{
    let leq = display_leq();
    assert forall|a: Card, b: Card| #[trigger] leq(a, b) && #[trigger] leq(b, a) implies a
        == b by {
        lemma_display_position_injective(a, b);
    }
}

/// Two cards at the same place of the display order are the same card.
pub proof fn lemma_display_position_injective(a: Card, b: Card)
    requires
        display_position(a) == display_position(b),
    ensures
        a == b,
{
}

/// A hand has one display order only: two hands of the same cards that are
/// both laid out in display order are equal. With it, the hand in display
/// order is `sort_by` of vstd, applied to the hand and the display order.
pub proof fn lemma_display_sorted_unique(a: Seq<Card>, b: Seq<Card>)
    requires
        display_sorted(a),
        display_sorted(b),
        a.to_multiset() == b.to_multiset(),
    ensures
        a == b,
        a == b.sort_by(display_leq()),
{
    lemma_display_order_total();
    assert(sorted_by(a, display_leq()));
    assert(sorted_by(b, display_leq()));
    vstd::seq_lib::lemma_sorted_unique(a, b, display_leq());
    b.lemma_sort_by_ensures(display_leq());
    vstd::seq_lib::lemma_sorted_unique(a, b.sort_by(display_leq()), display_leq());
}

/// Two cards of a hand that change places leave the hand's cards as they are.
proof fn lemma_swap_keeps_cards(cards: Seq<Card>, i: int, j: int)
    requires
        0 <= i < cards.len(),
        0 <= j < cards.len(),
    ensures
        cards.update(i, cards[j]).update(j, cards[i]).to_multiset() == cards.to_multiset(),
{
    broadcast use vstd::multiset::group_multiset_axioms;

    let middle = cards.update(i, cards[j]);
    vstd::seq_lib::to_multiset_update(cards, i, cards[j]);
    vstd::seq_lib::to_multiset_update(middle, j, cards[i]);
    vstd::seq_lib::to_multiset_contains(cards, cards[i]);
    vstd::seq_lib::to_multiset_contains(cards, cards[j]);
    assert(cards.to_multiset().count(cards[i]) > 0);
    assert(cards.to_multiset().count(cards[j]) > 0);
    assert(middle.update(j, cards[i]).to_multiset() =~= cards.to_multiset());
}

/// The place of a card in the display order.
pub fn position_of(card: &Card) -> (position: usize)
    ensures
        position == display_position(*card),
{
    let suit = card.suit_value();
    match card.rank() {
        Rank::Jack => suit,
        Rank::Ace => 4 + 8 * suit,
        Rank::Ten => 5 + 8 * suit,
        Rank::King => 6 + 8 * suit,
        Rank::Queen => 7 + 8 * suit,
        Rank::Nine => 9 + 8 * suit,
        Rank::Eight => 10 + 8 * suit,
        Rank::Seven => 11 + 8 * suit,
    }
}

/// Brings the cards into display order, by insertion: each card in turn
/// moves left past the cards that stand right of it in the display order.
pub fn sort_for_display(cards: &mut Vec<Card>)
    ensures
        final(cards)@.to_multiset() == old(cards)@.to_multiset(),
        display_sorted(final(cards)@),
{
    let n = cards.len();
    let mut i: usize = 0;
    while i < n
        invariant
            i <= n,
            cards.len() == n,
            cards@.to_multiset() == old(cards)@.to_multiset(),
            forall|a: int, b: int|
                0 <= a < b < i ==> display_position(#[trigger] cards@[a]) <= display_position(
                    #[trigger] cards@[b],
                ),
        decreases n - i,
    {
        let mut j: usize = i;
        while j > 0 && position_of(&cards[j - 1]) > position_of(&cards[j])
            invariant
                j <= i < n,
                cards.len() == n,
                cards@.to_multiset() == old(cards)@.to_multiset(),
                forall|a: int, b: int|
                    0 <= a < b <= i && a != j && b != j ==> display_position(
                        #[trigger] cards@[a],
                    ) <= display_position(#[trigger] cards@[b]),
                forall|b: int|
                    j < b <= i ==> display_position(cards@[j as int]) <= display_position(
                        #[trigger] cards@[b],
                    ),
            decreases j,
        {
            let ghost before = cards@;
            let left = cards[j - 1];
            let right = cards[j];
            cards.set(j - 1, right);
            cards.set(j, left);
            proof {
                lemma_swap_keeps_cards(before, j - 1, j as int);
            }
            j -= 1;
        }
        i += 1;
    }
}

} // verus!
