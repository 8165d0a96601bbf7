//! The [`Deck`] of 32 cards: made in order or shuffled, and dealt to three
//! players and the Skat.

use crate::card::{Card, Rank, Suit};
use crate::cardholder::CardHolder;
use crate::order::display_sorted;
use rand::rngs::ThreadRng;
use rand::seq::SliceRandom;
use vstd::multiset::Multiset;
use vstd::prelude::*;
use vstd::string::*;

verus! {

/// The generator of `rand` that belongs to the running thread. Nothing is
/// known of the numbers it gives.
#[verifier::external_type_specification]
#[verifier::external_body]
pub struct ExThreadRng(rand::rngs::ThreadRng);

/// `rand::rng` hands out the generator of the running thread. Nothing is
/// claimed of it.
pub assume_specification[ rand::rng ]() -> (generator: ThreadRng);

/// Calls `shuffle` of `rand::seq::SliceRandom` on the cards, with the given
/// generator. `rand` swaps elements of the slice among themselves, so the
/// cards afterwards are the cards before, in some order; which order is not
/// stated, as it depends on the generator.
#[verifier::external_body]
fn shuffle_cards(cards: &mut Vec<Card>, generator: &mut ThreadRng)
    ensures
        final(cards)@.to_multiset() == old(cards)@.to_multiset(),
{
    cards.shuffle(generator);
}

/// The 32 cards in the order of a new deck: suit by suit from Clubs to
/// Diamonds, each from the Seven up to the Ace.
pub open spec fn standard_deck() -> Seq<Card> {
    Seq::new(32, |i: int| Card { suit: Suit::at(i / 8), rank: Rank::at(i % 8) })
}

/// Whether the cards are one full deck: each of the 32 cards once, in
/// whatever order.
pub open spec fn is_full_deck(cards: Seq<Card>) -> bool {
    cards.to_multiset() == standard_deck().to_multiset()
}

/// The place of a card in a new deck.
pub open spec fn deck_position(card: Card) -> int {
    8 * card.suit.index() + card.rank.index()
}

/// A new deck holds every card, each at its place and nowhere else.
pub proof fn lemma_standard_deck()
    ensures
        standard_deck().len() == 32,
        standard_deck().no_duplicates(),
        forall|card: Card|
            0 <= #[trigger] deck_position(card) < 32 && standard_deck()[deck_position(card)]
                == card,
{
    assert forall|i: int, j: int|
        0 <= i < 32 && 0 <= j < 32 && i != j implies standard_deck()[i] != standard_deck()[j] by {
        assert(deck_position(standard_deck()[i]) == i);
        assert(deck_position(standard_deck()[j]) == j);
    }
}

/// Cards are one full deck exactly when they are 32 and no two are equal.
pub proof fn lemma_full_deck_iff(cards: Seq<Card>)
    ensures
        is_full_deck(cards) <==> cards.len() == 32 && cards.no_duplicates(),
{
    broadcast use vstd::seq_lib::group_to_multiset_ensures;

    let deck = standard_deck();
    lemma_standard_deck();
    deck.lemma_multiset_has_no_duplicates();
    assert(deck.to_multiset().len() == deck.len());
    assert(cards.to_multiset().len() == cards.len());
    if is_full_deck(cards) {
        cards.lemma_multiset_has_no_duplicates_conv();
    }
    if cards.len() == 32 && cards.no_duplicates() {
        cards.lemma_multiset_has_no_duplicates();
        cards.unique_seq_to_set();
        deck.unique_seq_to_set();
        assert forall|card: Card| cards.to_set().contains(card) implies deck.to_set().contains(
            card,
        ) by {
            assert(deck[deck_position(card)] == card);
        }
        vstd::set_lib::lemma_subset_equality(cards.to_set(), deck.to_set());
        assert forall|card: Card|
            cards.to_multiset().count(card) == deck.to_multiset().count(card) by {
            assert(deck[deck_position(card)] == card);
            assert(deck.to_set().contains(card));
            assert(cards.to_set().contains(card));
            assert(cards.contains(card));
            assert(deck.contains(card));
        }
        assert(cards.to_multiset() =~= deck.to_multiset());
    }
}

/// Why cards are not one full deck.
#[derive(Debug, Clone, Copy, PartialEq, Eq, Structural)]
pub enum DealError {
    /// The cards are not 32.
    WrongCardCount,
    /// The cards are 32, and this card is among them twice: the first card
    /// in their order that stands there a second time.
    DuplicateCard(Card),
}

impl DealError {
    /// What the error says.
    pub open spec fn text(self) -> Seq<char> {
        match self {
            DealError::WrongCardCount => "a deal needs exactly 32 cards"@,
            DealError::DuplicateCard(card) => "a deal holds a card twice: "@ + card.text(),
        }
    }

    /// The error as it is displayed.
    pub fn to_string(&self) -> (text: String)
        ensures
            text@ == self.text(),
    {
        broadcast use vstd::string::group_string_axioms;

        match self {
            DealError::WrongCardCount => "a deal needs exactly 32 cards".to_string(),
            DealError::DuplicateCard(card) => {
                let mut text = "a deal holds a card twice: ".to_string();
                text.append(card.to_string().as_str());
                text
            },
        }
    }
}

/// The first card of a row that stands in the row before itself, if any.
pub open spec fn first_duplicate(cards: Seq<Card>) -> Option<Card>
    decreases cards.len(),
{
    if cards.len() == 0 {
        None
    } else {
        match first_duplicate(cards.drop_last()) {
            Some(card) => Some(card),
            None => if cards.drop_last().contains(cards.last()) {
                Some(cards.last())
            } else {
                None
            },
        }
    }
}

/// Whether cards are one full deck, and if not, why not.
pub open spec fn deck_validity(cards: Seq<Card>) -> Result<(), DealError> {
    if cards.len() != 32 {
        Err(DealError::WrongCardCount)
    } else {
        match first_duplicate(cards) {
            Some(card) => Err(DealError::DuplicateCard(card)),
            None => Ok(()),
        }
    }
}

/// A row of cards has a first duplicate exactly when two of its cards are
/// equal; the first duplicate is then a card of the row.
pub proof fn lemma_first_duplicate(cards: Seq<Card>)
    ensures
        first_duplicate(cards) is None <==> cards.no_duplicates(),
        first_duplicate(cards) matches Some(card) ==> cards.contains(card),
    decreases cards.len(),
{
    if cards.len() > 0 {
        let front = cards.drop_last();
        lemma_first_duplicate(front);
        if let Some(card) = first_duplicate(front) {
            let at = choose|at: int| 0 <= at < front.len() && front[at] == card;
            assert(cards[at] == card);
            let (i, j) = choose|i: int, j: int|
                0 <= i < front.len() && 0 <= j < front.len() && i != j && front[i] == front[j];
            assert(cards[i] == cards[j]);
        } else if front.contains(cards.last()) {
            let at = choose|at: int| 0 <= at < front.len() && front[at] == cards.last();
            assert(cards[at] == cards[cards.len() - 1]);
        } else {
            assert forall|i: int, j: int|
                0 <= i < cards.len() && 0 <= j < cards.len() && i != j implies cards[i]
                != cards[j] by {
                if i < front.len() && j < front.len() {
                    assert(front[i] != front[j]);
                } else if i < front.len() {
                    assert(front[i] == cards[i]);
                } else {
                    assert(front[j] == cards[j]);
                }
            }
        }
    }
}

/// Exactly the full decks are valid: cards that miss one of the 32 or hold
/// one twice are not.
pub proof fn lemma_deck_validity(cards: Seq<Card>)
    ensures
        deck_validity(cards) is Ok <==> is_full_deck(cards),
{
    lemma_first_duplicate(cards);
    lemma_full_deck_iff(cards);
}

/// Tells whether the cards are one full deck: 32 cards, none of them twice.
#[verifier::loop_isolation(false)]
pub fn validate_deck(cards: &Vec<Card>) -> (valid: Result<(), DealError>)
    ensures
        valid == deck_validity(cards@),
        valid is Ok <==> is_full_deck(cards@),
{
    proof {
        lemma_deck_validity(cards@);
    }
    if cards.len() != 32 {
        return Err(DealError::WrongCardCount);
    }
    for i in 0..32usize
        invariant
            cards@.len() == 32,
            first_duplicate(cards@.take(i as int)) is None,
    {
        assert(cards@.take(i + 1).drop_last() =~= cards@.take(i as int));
        let card = cards[i];
        for j in 0..i
            invariant
                i < 32,
                cards@.len() == 32,
                card == cards@[i as int],
                forall|k: int| 0 <= k < j ==> cards@[k] != card,
        {
            if cards[j] == card {
                assert(cards@.take(i as int)[j as int] == card);
                assert(cards@.take(i + 1).last() == card);
                proof {
                    lemma_duplicate_stays(cards@, i + 1);
                }
                return Err(DealError::DuplicateCard(card));
            }
        }
        assert(!cards@.take(i as int).contains(card));
    }
    assert(cards@.take(32) =~= cards@);
    Ok(())
}

/// A duplicate found among the first cards of a row is the first duplicate
/// of the whole row.
proof fn lemma_duplicate_stays(cards: Seq<Card>, n: int)
    requires
        0 <= n <= cards.len(),
        first_duplicate(cards.take(n)) is Some,
    ensures
        first_duplicate(cards) == first_duplicate(cards.take(n)),
    decreases cards.len() - n,
{
    if n < cards.len() {
        assert(cards.take(n + 1).drop_last() =~= cards.take(n));
        lemma_duplicate_stays(cards, n + 1);
    } else {
        assert(cards.take(n) =~= cards);
    }
}

/// The turn, counted from 0, at which a player gets the `k`-th card: the
/// players get three cards each in turn, then the Skat gets two, then the
/// players get four each and at last three each.
pub open spec fn deal_turn(player: int, k: int) -> int {
    if k < 3 {
        3 * k + player
    } else if k < 7 {
        11 + 3 * (k - 3) + player
    } else {
        23 + 3 * (k - 7) + player
    }
}

/// The ten cards that a player gets from a deck of 32, in the order in which
/// they are dealt. The cards are taken from the end of the deck.
pub open spec fn dealt_hand(deck: Seq<Card>, player: int) -> Seq<Card> {
    Seq::new(10, |k: int| deck[31 - deal_turn(player, k)])
}

/// The two cards that the Skat gets from a deck of 32: those of the turns 9
/// and 10.
pub open spec fn dealt_skat(deck: Seq<Card>) -> Seq<Card> {
    seq![deck[22], deck[21]]
}

/// The deck contains the 32 cards of the game.
/// It is used to create all cards and deal them to the players.
/// After dealing the cards the deck is gone as the cards are moved to the players.
#[derive(Debug)]
pub struct Deck {
    cards: Vec<Card>,
}

impl View for Deck {
    type V = Seq<Card>;

    /// The cards of the deck, the next one to be dealt last.
    closed spec fn view(&self) -> Seq<Card> {
        self.cards@
    }
}

impl Deck {
    /// Creates a deck with 32 sorted/shuffled playing cards.
    pub fn new(shuffled: bool) -> (deck: Deck)
        ensures
            is_full_deck(deck@),
            deck@.len() == 32,
            !shuffled ==> deck@ == standard_deck(),
    {
        let suits = [Suit::Clubs, Suit::Spades, Suit::Hearts, Suit::Diamonds];
        let ranks = [
            Rank::Seven,
            Rank::Eight,
            Rank::Nine,
            Rank::Jack,
            Rank::Queen,
            Rank::King,
            Rank::Ten,
            Rank::Ace,
        ];
        let mut cards: Vec<Card> = Vec::new();
        for s in 0..4usize
            invariant
                cards@ =~= standard_deck().take(8 * s),
                forall|i: int| 0 <= i < 4 ==> suits[i] == Suit::at(i),
                forall|i: int| 0 <= i < 8 ==> ranks[i] == Rank::at(i),
        {
            for r in 0..8usize
                invariant
                    s < 4,
                    cards@ =~= standard_deck().take(8 * s + r),
                    forall|i: int| 0 <= i < 4 ==> suits[i] == Suit::at(i),
                    forall|i: int| 0 <= i < 8 ==> ranks[i] == Rank::at(i),
            {
                cards.push(Card::new(suits[s], ranks[r]));
            }
        }
        assert(cards@ =~= standard_deck());
        let mut deck = Deck { cards };
        if shuffled {
            deck.shuffle();
        }
        deck
    }

    /// Returns the cards of this deck.
    pub fn cards(&self) -> (cards: &[Card])
        ensures
            cards@ == self@,
    {
        self.cards.as_slice()
    }

    /// Brings the cards of the deck into a random order.
    pub fn shuffle(&mut self)
        ensures
            final(self)@.to_multiset() == old(self)@.to_multiset(),
            final(self)@.len() == old(self)@.len(),
    {
        broadcast use vstd::seq_lib::group_to_multiset_ensures;

        let mut generator = rand::rng();
        shuffle_cards(&mut self.cards, &mut generator);
        assert(self.cards@.to_multiset().len() == self.cards@.len());
        assert(old(self).cards@.to_multiset().len() == old(self).cards@.len());
    }
    /// Deals the cards to the players and the Skat. After this the deck is
    /// gone as the cards are moved to the [CardHolder]s.
    ///
    /// The cards leave the deck from its end: three to each player in turn,
    /// two to the Skat, four to each player, three to each player. The
    /// first player's hand is laid out in display order; the others stay as
    /// they were dealt.
    pub fn deal(&mut self) -> (dealt: (CardHolder, CardHolder, CardHolder, CardHolder))
        requires
            old(self)@.len() == 32,
        ensures
            final(self)@.len() == 0,
            dealt.0@.to_multiset() == dealt_hand(old(self)@, 0).to_multiset(),
            display_sorted(dealt.0@),
            dealt.1@ == dealt_hand(old(self)@, 1),
            dealt.2@ == dealt_hand(old(self)@, 2),
            dealt.3@ == dealt_skat(old(self)@),
            (dealt.0@ + dealt.1@ + dealt.2@ + dealt.3@).to_multiset() == old(self)@.to_multiset(),
            dealt.0.spec_name() == "Player 1"@,
            dealt.1.spec_name() == "Player 2"@,
            dealt.2.spec_name() == "Player 3"@,
            dealt.3.spec_name() == "Skat"@,
            dealt.0.is_new() && dealt.1.is_new() && dealt.2.is_new() && dealt.3.is_new(),
    {
        broadcast use vstd::seq_lib::group_to_multiset_ensures;
        broadcast use vstd::multiset::group_multiset_axioms;

        let ghost deck = self.cards@;
        let mut cards_player1: Vec<Card> = Vec::new();
        let mut cards_player2: Vec<Card> = Vec::new();
        let mut cards_player3: Vec<Card> = Vec::new();
        let mut cards_skat: Vec<Card> = Vec::new();

        for round in 0..3usize
            invariant
                deck.len() == 32,
                self.cards@ =~= deck.take(32 - 3 * round),
                cards_player1@ =~= dealt_hand(deck, 0).take(round as int),
                cards_player2@ =~= dealt_hand(deck, 1).take(round as int),
                cards_player3@ =~= dealt_hand(deck, 2).take(round as int),
                cards_skat@ =~= Seq::<Card>::empty(),
                piles(self.cards@, cards_player1@, cards_player2@, cards_player3@, cards_skat@)
                    == deck.to_multiset(),
        {
            deal_card(&mut self.cards, &mut cards_player1);
            assert(piles(
                self.cards@,
                cards_player1@,
                cards_player2@,
                cards_player3@,
                cards_skat@,
            ) =~= deck.to_multiset());
            deal_card(&mut self.cards, &mut cards_player2);
            assert(piles(
                self.cards@,
                cards_player1@,
                cards_player2@,
                cards_player3@,
                cards_skat@,
            ) =~= deck.to_multiset());
            deal_card(&mut self.cards, &mut cards_player3);
            assert(piles(
                self.cards@,
                cards_player1@,
                cards_player2@,
                cards_player3@,
                cards_skat@,
            ) =~= deck.to_multiset());
        }
        for turn in 0..2usize
            invariant
                deck.len() == 32,
                self.cards@ =~= deck.take(23 - turn),
                cards_player1@ =~= dealt_hand(deck, 0).take(3),
                cards_player2@ =~= dealt_hand(deck, 1).take(3),
                cards_player3@ =~= dealt_hand(deck, 2).take(3),
                cards_skat@ =~= dealt_skat(deck).take(turn as int),
                piles(self.cards@, cards_player1@, cards_player2@, cards_player3@, cards_skat@)
                    == deck.to_multiset(),
        {
            deal_card(&mut self.cards, &mut cards_skat);
            assert(piles(
                self.cards@,
                cards_player1@,
                cards_player2@,
                cards_player3@,
                cards_skat@,
            ) =~= deck.to_multiset());
        }
        for round in 0..4usize
            invariant
                deck.len() == 32,
                self.cards@ =~= deck.take(21 - 3 * round),
                cards_player1@ =~= dealt_hand(deck, 0).take(3 + round),
                cards_player2@ =~= dealt_hand(deck, 1).take(3 + round),
                cards_player3@ =~= dealt_hand(deck, 2).take(3 + round),
                cards_skat@ =~= dealt_skat(deck),
                piles(self.cards@, cards_player1@, cards_player2@, cards_player3@, cards_skat@)
                    == deck.to_multiset(),
        {
            deal_card(&mut self.cards, &mut cards_player1);
            assert(piles(
                self.cards@,
                cards_player1@,
                cards_player2@,
                cards_player3@,
                cards_skat@,
            ) =~= deck.to_multiset());
            deal_card(&mut self.cards, &mut cards_player2);
            assert(piles(
                self.cards@,
                cards_player1@,
                cards_player2@,
                cards_player3@,
                cards_skat@,
            ) =~= deck.to_multiset());
            deal_card(&mut self.cards, &mut cards_player3);
            assert(piles(
                self.cards@,
                cards_player1@,
                cards_player2@,
                cards_player3@,
                cards_skat@,
            ) =~= deck.to_multiset());
        }
        for round in 0..3usize
            invariant
                deck.len() == 32,
                self.cards@ =~= deck.take(9 - 3 * round),
                cards_player1@ =~= dealt_hand(deck, 0).take(7 + round),
                cards_player2@ =~= dealt_hand(deck, 1).take(7 + round),
                cards_player3@ =~= dealt_hand(deck, 2).take(7 + round),
                cards_skat@ =~= dealt_skat(deck),
                piles(self.cards@, cards_player1@, cards_player2@, cards_player3@, cards_skat@)
                    == deck.to_multiset(),
        {
            deal_card(&mut self.cards, &mut cards_player1);
            assert(piles(
                self.cards@,
                cards_player1@,
                cards_player2@,
                cards_player3@,
                cards_skat@,
            ) =~= deck.to_multiset());
            deal_card(&mut self.cards, &mut cards_player2);
            assert(piles(
                self.cards@,
                cards_player1@,
                cards_player2@,
                cards_player3@,
                cards_skat@,
            ) =~= deck.to_multiset());
            deal_card(&mut self.cards, &mut cards_player3);
            assert(piles(
                self.cards@,
                cards_player1@,
                cards_player2@,
                cards_player3@,
                cards_skat@,
            ) =~= deck.to_multiset());
        }
        assert(cards_player1@ =~= dealt_hand(deck, 0));
        assert(cards_player2@ =~= dealt_hand(deck, 1));
        assert(cards_player3@ =~= dealt_hand(deck, 2));

        let mut player1 = CardHolder::new("Player 1", cards_player1);
        player1.sort_cards();
        let player2 = CardHolder::new("Player 2", cards_player2);
        let player3 = CardHolder::new("Player 3", cards_player3);
        let skat = CardHolder::new("Skat", cards_skat);
        proof {
            lemma_piles_together(self.cards@, player1@, player2@, player3@, skat@);
        }
        (player1, player2, player3, skat)
    }
}

/// The cards of the deck and of the four piles dealt from it, all together.
pub open spec fn piles(
    deck: Seq<Card>,
    first: Seq<Card>,
    second: Seq<Card>,
    third: Seq<Card>,
    skat: Seq<Card>,
) -> Multiset<Card> {
    deck.to_multiset().add(first.to_multiset()).add(second.to_multiset()).add(
        third.to_multiset(),
    ).add(skat.to_multiset())
}

/// Once the deck is empty, the four piles laid one behind the other hold
/// what deck and piles held all together.
proof fn lemma_piles_together(
    deck: Seq<Card>,
    first: Seq<Card>,
    second: Seq<Card>,
    third: Seq<Card>,
    skat: Seq<Card>,
)
    requires
        deck.len() == 0,
    ensures
        (first + second + third + skat).to_multiset() == piles(deck, first, second, third, skat),
{
    broadcast use vstd::seq_lib::group_to_multiset_ensures;
    broadcast use vstd::multiset::group_multiset_axioms;

    vstd::seq_lib::lemma_multiset_commutative(first, second);
    vstd::seq_lib::lemma_multiset_commutative(first + second, third);
    vstd::seq_lib::lemma_multiset_commutative(first + second + third, skat);
    assert(deck.to_multiset().len() == 0);
    assert(deck.to_multiset() =~= Multiset::empty());
    assert((first + second + third + skat).to_multiset() =~= piles(
        deck,
        first,
        second,
        third,
        skat,
    ));
}

/// Moves the last card of the deck to the end of a pile.
fn deal_card(deck: &mut Vec<Card>, pile: &mut Vec<Card>)
    requires
        old(deck)@.len() > 0,
    ensures
        final(deck)@ == old(deck)@.drop_last(),
        final(pile)@ == old(pile)@.push(old(deck)@.last()),
        old(deck)@.to_multiset() == final(deck)@.to_multiset().insert(old(deck)@.last()),
        final(pile)@.to_multiset() == old(pile)@.to_multiset().insert(old(deck)@.last()),
{
    broadcast use vstd::seq_lib::group_to_multiset_ensures;
    broadcast use vstd::multiset::group_multiset_axioms;

    let card = deck.pop().unwrap();
    pile.push(card);
    assert(old(deck)@ =~= deck@.push(card));
}

} // verus!
