//! A [`CardHolder`]: a player's hand or the Skat.

use crate::bidding::{
    bid_value, candidate_among, jack_factor, lemma_bid_is_weight_multiple,
    lemma_valuation_permutation, longest_suit, max_plain_count, trump_suit, valuation, Valuation,
};
use crate::card::{cards_of_names, cards_text, Card, Rank, Suit};
use crate::game::GameType;
use crate::hand::{
    ace_count, copies, holds, jack_count, lemma_counts_partition, lemma_no_cards,
    lemma_numbers_permutation, lemma_suit_aces_bound, lemma_take_next, lemma_tally_add,
    plain_count, plain_points, rank_count, total_points,
};
use crate::order::{display_sorted, sort_for_display};
use vstd::string::*;
use vstd::prelude::*;

verus! {

broadcast use vstd::string::group_string_axioms;

/// A CardHolder is either a Player or the Skat. It can hold any number of cards.
///
/// Its cards do not change once it is made, but for their order. The highest
/// bid is worked out when it is first asked for, and kept.
#[derive(Debug)]
pub struct CardHolder {
    name: String,
    cards: Vec<Card>,
    /// The number of jacks contained in the cards.
    num_jacks: usize,
    /// Which of the Jacks of Clubs, Spades, Hearts, Diamonds the cards hold.
    has_jacks: [bool; 4],
    /// What the holder has bid so far.
    pub reizen_current: u16,
    /// The highest bid of the cards, once it is worked out.
    reizen_max: Option<u16>,
    game_type: GameType,
}

/// A number of points as a `usize` can hold it: itself, or the largest `usize`.
pub open spec fn capped(points: nat) -> usize {
    if points <= usize::MAX {
        points as usize
    } else {
        usize::MAX
    }
}

impl View for CardHolder {
    type V = Seq<Card>;

    /// The cards, in the order in which they are held.
    closed spec fn view(&self) -> Seq<Card> {
        self.cards@
    }
}

impl CardHolder {
    /// The holder's name.
    pub closed spec fn spec_name(&self) -> Seq<char> {
        self.name@
    }

    /// What the holder has bid so far: the field `reizen_current`.
    pub closed spec fn current_bid(&self) -> u16 {
        self.reizen_current
    }

    /// The highest bid that the holder has worked out and kept, if any.
    pub closed spec fn cached_bid(&self) -> Option<u16> {
        self.reizen_max
    }

    /// The game that the holder announces.
    pub closed spec fn spec_game_type(&self) -> GameType {
        self.game_type
    }

    /// What holds of every holder that this library hands out: the Jacks it
    /// has noted are those of its cards, a bid it has kept is the bid value
    /// of its cards, and the game it announces is that of their valuation,
    /// none before the bid is worked out.
    pub closed spec fn wf(&self) -> bool {
        &&& self.num_jacks == jack_count(self.cards@)
        &&& forall|s: int|
            0 <= s < 4 ==> #[trigger] self.has_jacks[s] == holds(
                self.cards@,
                Suit::at(s),
                Rank::Jack,
            )
        &&& match self.reizen_max {
            Some(value) => {
                &&& value == bid_value(self.cards@)
                &&& self.game_type == GameType::announced(trump_suit(self.cards@))
            },
            None => self.game_type == GameType::NoGame,
        }
    }

    /// A holder of `cards` under `name`, which has bid nothing and announced
    /// no game.
    pub fn new(name: &str, cards: Vec<Card>) -> (holder: CardHolder)
        ensures
            holder.wf(),
            holder@ == cards@,
            holder.spec_name() == name@,
            holder.current_bid() == 0,
            holder.cached_bid() is None,
            holder.spec_game_type() == GameType::NoGame,
    {
        let mut has_jacks: [bool; 4] = [false; 4];
        let mut num_jacks: usize = 0;
        proof {
            lemma_no_cards(cards@.take(0));
        }
        for i in 0..cards.len()
            invariant
                num_jacks == jack_count(cards@.take(i as int)),
                forall|s: int|
                    0 <= s < 4 ==> #[trigger] has_jacks[s] == holds(
                        cards@.take(i as int),
                        Suit::at(s),
                        Rank::Jack,
                    ),
        {
            proof {
                lemma_take_next(cards@, i as int);
                lemma_counts_partition(cards@.take(i as int));
            }
            let card = &cards[i];
            if card.rank() == Rank::Jack {
                num_jacks += 1;
                has_jacks[card.suit_value()] = true;
            }
        }
        assert(cards@.take(cards.len() as int) =~= cards@);
        CardHolder {
            name: name.to_string(),
            cards,
            num_jacks,
            has_jacks,
            reizen_current: 0,
            reizen_max: None,
            game_type: GameType::NoGame,
        }
    }

    /// The cards, in the order in which they are held.
    pub fn cards(&self) -> (cards: &[Card])
        ensures
            cards@ == self@,
    {
        self.cards.as_slice()
    }

    /// Notes what the holder has bid so far.
    pub(crate) fn set_reizen_current(&mut self, bid: u16)
        ensures
            final(self).current_bid() == bid,
            final(self)@ == old(self)@,
            final(self).spec_name() == old(self).spec_name(),
            final(self).cached_bid() == old(self).cached_bid(),
            final(self).spec_game_type() == old(self).spec_game_type(),
            old(self).wf() ==> final(self).wf(),
    {
        self.reizen_current = bid;
    }

    /// The game that the holder announces: none until its highest bid is
    /// worked out, then the game of its valuation.
    pub fn game_type(&self) -> (game_type: &GameType)
        ensures
            *game_type == self.spec_game_type(),
    {
        &self.game_type
    }

    /// Checks if the CardHolder has a specific card in his hand.
    pub fn holds_card(&self, suit: Suit, rank: Rank) -> (held: bool)
        ensures
            held == holds(self@, suit, rank),
    {
        for i in 0..self.cards.len()
            invariant
                !holds(self.cards@.take(i as int), suit, rank),
        {
            proof {
                lemma_take_next(self.cards@, i as int);
            }
            let card = &self.cards[i];
            if card.rank() == rank && card.suit() == suit {
                assert(self.cards@[i as int] == (Card { suit, rank }));
                return true;
            }
        }
        assert(self.cards@.take(self.cards.len() as int) =~= self.cards@);
        false
    }

    /// Number of cards of that rank.
    pub fn num_cards_rank(&self, rank: Rank) -> (count: usize)
        ensures
            count == rank_count(self@, rank),
    {
        let mut count: usize = 0;
        proof {
            lemma_no_cards(self.cards@.take(0));
        }
        for i in 0..self.cards.len()
            invariant
                count == rank_count(self.cards@.take(i as int), rank),
                count <= i,
        {
            proof {
                lemma_take_next(self.cards@, i as int);
            }
            if self.cards[i].rank() == rank {
                count += 1;
            }
        }
        assert(self.cards@.take(self.cards.len() as int) =~= self.cards@);
        count
    }

    /// Number of cards of that suit without jacks.
    pub fn num_cards_suit(&self, suit: Suit) -> (count: usize)
        ensures
            count == plain_count(self@, suit),
    {
        let mut count: usize = 0;
        proof {
            lemma_no_cards(self.cards@.take(0));
        }
        for i in 0..self.cards.len()
            invariant
                count == plain_count(self.cards@.take(i as int), suit),
                count <= i,
        {
            proof {
                lemma_take_next(self.cards@, i as int);
            }
            let card = &self.cards[i];
            if card.rank() != Rank::Jack && card.suit() == suit {
                count += 1;
            }
        }
        assert(self.cards@.take(self.cards.len() as int) =~= self.cards@);
        count
    }

    /// Number of cards of all suits without jacks: Clubs, Spades, Hearts, Diamonds.
    pub fn num_cards_all_suits(&self) -> (counts: (usize, usize, usize, usize))
        ensures
            counts.0 == plain_count(self@, Suit::Clubs),
            counts.1 == plain_count(self@, Suit::Spades),
            counts.2 == plain_count(self@, Suit::Hearts),
            counts.3 == plain_count(self@, Suit::Diamonds),
    {
        let mut clubs: usize = 0;
        let mut spades: usize = 0;
        let mut hearts: usize = 0;
        let mut diamonds: usize = 0;
        proof {
            lemma_no_cards(self.cards@.take(0));
        }
        for i in 0..self.cards.len()
            invariant
                clubs == plain_count(self.cards@.take(i as int), Suit::Clubs),
                spades == plain_count(self.cards@.take(i as int), Suit::Spades),
                hearts == plain_count(self.cards@.take(i as int), Suit::Hearts),
                diamonds == plain_count(self.cards@.take(i as int), Suit::Diamonds),
                clubs + spades + hearts + diamonds <= i,
        {
            proof {
                lemma_take_next(self.cards@, i as int);
            }
            let card = &self.cards[i];
            if card.rank() != Rank::Jack {
                match card.suit() {
                    Suit::Clubs => clubs += 1,
                    Suit::Spades => spades += 1,
                    Suit::Hearts => hearts += 1,
                    Suit::Diamonds => diamonds += 1,
                }
            }
        }
        assert(self.cards@.take(self.cards.len() as int) =~= self.cards@);
        (clubs, spades, hearts, diamonds)
    }

    /// Number of Jacks among the cards.
    pub fn num_jacks(&self) -> (count: usize)
        requires
            self.wf(),
        ensures
            count == jack_count(self@),
    {
        self.num_jacks
    }

    /// Whether the holder has bid nothing, kept no bid and announced no
    /// game, and is as this library hands holders out.
    pub open spec fn is_new(&self) -> bool {
        &&& self.wf()
        &&& self.current_bid() == 0
        &&& self.cached_bid() is None
        &&& self.spec_game_type() == GameType::NoGame
    }

    /// The same cards under the same name, with the same bid so far: what
    /// working out the highest bid leaves as it is.
    pub open spec fn same_hand(&self, other: &CardHolder) -> bool {
        &&& self@ == other@
        &&& self.spec_name() == other.spec_name()
        &&& self.current_bid() == other.current_bid()
    }

    /// For each suit, the number of its plain cards and their points, in
    /// one pass over the cards.
    fn suit_statistics(&self) -> (stats: ([usize; 4], [usize; 4]))
        ensures
            forall|s: int| 0 <= s < 4 ==> #[trigger] stats.0[s] == plain_count(self@, Suit::at(s)),
            forall|s: int|
                0 <= s < 4 ==> #[trigger] stats.1[s] == capped(plain_points(self@, Suit::at(s))),
    {
        let mut suit_card_count: [usize; 4] = [0; 4];
        let mut suit_card_points: [usize; 4] = [0; 4];
        proof {
            lemma_no_cards(self.cards@.take(0));
        }
        for i in 0..self.cards.len()
            invariant
                forall|s: int|
                    0 <= s < 4 ==> #[trigger] suit_card_count[s] == plain_count(
                        self.cards@.take(i as int),
                        Suit::at(s),
                    ),
                forall|s: int|
                    0 <= s < 4 ==> #[trigger] suit_card_points[s] == capped(
                        plain_points(self.cards@.take(i as int), Suit::at(s)),
                    ),
        {
            proof {
                lemma_take_next(self.cards@, i as int);
                lemma_counts_partition(self.cards@.take(i as int));
            }
            let card = &self.cards[i];
            if card.rank() != Rank::Jack {
                let suit_id = card.suit_value();
                suit_card_count[suit_id] += 1;
                suit_card_points[suit_id] = suit_card_points[suit_id].saturating_add(card.points());
            }
        }
        assert(self.cards@.take(self.cards.len() as int) =~= self.cards@);
        (suit_card_count, suit_card_points)
    }

    /// The number of Aces, and for each suit the number of its Aces.
    fn ace_statistics(&self) -> (stats: (usize, [usize; 4]))
        ensures
            stats.0 == ace_count(self@),
            forall|s: int|
                0 <= s < 4 ==> #[trigger] stats.1[s] == copies(self@, Suit::at(s), Rank::Ace),
    {
        let mut aces_count: usize = 0;
        let mut aces: [usize; 4] = [0; 4];
        proof {
            lemma_no_cards(self.cards@.take(0));
        }
        for i in 0..self.cards.len()
            invariant
                aces_count == ace_count(self.cards@.take(i as int)),
                aces_count <= i,
                forall|s: int|
                    0 <= s < 4 ==> #[trigger] aces[s] == copies(
                        self.cards@.take(i as int),
                        Suit::at(s),
                        Rank::Ace,
                    ),
        {
            proof {
                lemma_take_next(self.cards@, i as int);
                lemma_suit_aces_bound(self.cards@.take(i as int), Suit::Clubs);
                lemma_suit_aces_bound(self.cards@.take(i as int), Suit::Spades);
                lemma_suit_aces_bound(self.cards@.take(i as int), Suit::Hearts);
                lemma_suit_aces_bound(self.cards@.take(i as int), Suit::Diamonds);
            }
            let card = &self.cards[i];
            if card.rank() == Rank::Ace {
                aces_count += 1;
                let suit_id = card.suit_value();
                aces[suit_id] += 1;
            }
        }
        assert(self.cards@.take(self.cards.len() as int) =~= self.cards@);
        (aces_count, aces)
    }

    /// Whether the cards hold the Jack of `suit`.
    pub fn has_jack(&self, suit: Suit) -> (held: bool)
        requires
            self.wf(),
        ensures
            held == holds(self@, suit, Rank::Jack),
    {
        self.has_jacks[suit.to_usize()]
    }

    /// Points of the cards of all suits without jacks: Clubs, Spades,
    /// Hearts, Diamonds.
    pub fn points_all_suits(&self) -> (points: (usize, usize, usize, usize))
        requires
            forall|suit: Suit| plain_points(self@, suit) <= usize::MAX,
        ensures
            points.0 == plain_points(self@, Suit::Clubs),
            points.1 == plain_points(self@, Suit::Spades),
            points.2 == plain_points(self@, Suit::Hearts),
            points.3 == plain_points(self@, Suit::Diamonds),
    {
        let (_, suit_card_points) = self.suit_statistics();
        assert(Suit::at(0) == Suit::Clubs && Suit::at(1) == Suit::Spades && Suit::at(2)
            == Suit::Hearts && Suit::at(3) == Suit::Diamonds);
        (suit_card_points[0], suit_card_points[1], suit_card_points[2], suit_card_points[3])
    }

    /// Calc Factor with or without jacks.
    ///
    /// A positive number if the Jack of Clubs is held, else a negative
    /// number, e.g. 'without two' is -2.
    pub fn reiz_factor(&self) -> (factor: i16)
        requires
            self.wf(),
        ensures
            factor == jack_factor(self@),
    {
        assert(Suit::at(0) == Suit::Clubs && Suit::at(1) == Suit::Spades && Suit::at(2)
            == Suit::Hearts);
        if self.num_jacks == 0 {
            -4
        } else if self.num_jacks == 4 {
            4
        } else if self.has_jacks[0] {
            if self.has_jacks[1] {
                if self.has_jacks[2] {
                    3
                } else {
                    2
                }
            } else {
                1
            }
        } else if !self.has_jacks[1] {
            if !self.has_jacks[2] {
                -3
            } else {
                -2
            }
        } else {
            -1
        }
    }

    /// The valuation of the cards: whether the holder may bid, with which
    /// trump suit, and how high. Nothing is kept.
    #[verifier::loop_isolation(false)]
    pub fn evaluate(&self) -> (result: Valuation)
        requires
            self.wf(),
        ensures
            result == valuation(self@),
    {
        let pass = Valuation { eligible: false, trump_suit: None, bid_value: 0 };
        let (suit_card_count, suit_card_points) = self.suit_statistics();
        assert(Suit::at(0) == Suit::Clubs && Suit::at(1) == Suit::Spades && Suit::at(2)
            == Suit::Hearts && Suit::at(3) == Suit::Diamonds);
        let mut max_count: usize = suit_card_count[0];
        if suit_card_count[1] > max_count {
            max_count = suit_card_count[1];
        }
        if suit_card_count[2] > max_count {
            max_count = suit_card_count[2];
        }
        if suit_card_count[3] > max_count {
            max_count = suit_card_count[3];
        }
        assert(max_count == max_plain_count(self@));
        proof {
            lemma_counts_partition(self@);
            lemma_bid_is_weight_multiple(self@);
            assert(self@.len() == self.cards.len());
        }
        // At least five trumps are needed.
        let trump_count = self.num_jacks + max_count;
        if trump_count < 5 {
            return pass;
        }
        let (aces_count, aces) = self.ace_statistics();
        if trump_count == 5 && aces_count == 0 {
            return pass;
        }
        let mut chosen: Option<Suit> = None;
        for i in 0..4usize
            invariant
                chosen == candidate_among(self@, i as int),
        {
            let suit = Suit::from_usize(i);
            if suit_card_count[i] == max_count && (trump_count > 5 || suit_card_points[i] >= 10
                || self.num_jacks > 2) {
                match chosen {
                    None => {
                        chosen = Some(suit);
                    },
                    Some(kept) => {
                        // A suit without its Ace is the better trump suit.
                        if aces[i] < aces[kept.to_usize()] {
                            chosen = Some(suit);
                        }
                    },
                }
            }
        }
        match chosen {
            None => pass,
            Some(suit) => {
                proof {
                    lemma_suit_aces_bound(self@, suit);
                }
                if trump_count == 5 && aces_count - aces[suit.to_usize()] == 0 {
                    pass
                } else {
                    let jack_factor = self.reiz_factor();
                    let factor = if jack_factor < 0 {
                        1 - jack_factor
                    } else {
                        jack_factor + 1
                    };
                    let suit_reiz_factor = suit.suit_reiz_factor();
                    assert(0 <= suit_reiz_factor * factor <= 60) by (nonlinear_arith)
                        requires
                            9 <= suit_reiz_factor <= 12,
                            2 <= factor <= 5,
                    ;
                    Valuation {
                        eligible: true,
                        trump_suit: Some(suit),
                        bid_value: (suit_reiz_factor * factor) as u16,
                    }
                }
            },
        }
    }

    /// Works out the highest bid of the cards and keeps it, with the game
    /// that it announces. 0 means that the holder passes.
    pub fn reizen_v1(&mut self) -> (bid: u16)
        requires
            old(self).wf(),
        ensures
            final(self).wf(),
            final(self).same_hand(old(self)),
            bid == bid_value(old(self)@),
            final(self).cached_bid() == Some(bid),
            final(self).spec_game_type() == GameType::announced(trump_suit(old(self)@)),
    {
        let result = self.evaluate();
        if let Some(suit) = result.trump_suit {
            self.game_type = GameType::from_suit(suit);
        }
        self.reizen_max = Some(result.bid_value);
        proof {
            lemma_bid_is_weight_multiple(self@);
        }
        result.bid_value
    }

    /// The highest bid of the cards; 0 means that the holder passes. It is
    /// worked out at the first call and kept: a later call changes nothing
    /// and returns the same.
    pub fn reizen_max(&mut self) -> (bid: u16)
        requires
            old(self).wf(),
        ensures
            final(self).wf(),
            final(self).same_hand(old(self)),
            bid == bid_value(old(self)@),
            final(self).cached_bid() == Some(bid),
            final(self).spec_game_type() == GameType::announced(trump_suit(old(self)@)),
            old(self).cached_bid() is Some ==> *final(self) == *old(self),
    {
        match self.reizen_max {
            Some(bid) => bid,
            None => self.reizen_v1(),
        }
    }
    /// This merges a players hand with the skat, so in total 12 cards:
    /// a new holder under the player's name, with the player's cards first.
    pub fn new_with_skat(player: &CardHolder, skat: &CardHolder) -> (holder: CardHolder)
        ensures
            holder.wf(),
            holder@ == player@ + skat@,
            holder.spec_name() == player.spec_name(),
            holder.current_bid() == 0,
            holder.cached_bid() is None,
            holder.spec_game_type() == GameType::NoGame,
    {
        let mut cards = player.cards.clone();
        cards.extend_from_slice(skat.cards.as_slice());
        assert(cards@ =~= player.cards@ + skat.cards@);
        CardHolder::new(player.name.as_str(), cards)
    }

    /// The points of all cards together.
    pub fn cards_total_points(&self) -> (points: u16)
        requires
            total_points(self@) <= u16::MAX,
        ensures
            points == total_points(self@),
    {
        let mut points: u16 = 0;
        proof {
            lemma_no_cards(self.cards@.take(0));
        }
        for i in 0..self.cards.len()
            invariant
                points == total_points(self.cards@.take(i as int)),
                total_points(self.cards@) <= u16::MAX,
        {
            proof {
                lemma_take_next(self.cards@, i as int);
                lemma_tally_add(
                    self.cards@.take(i + 1),
                    self.cards@.skip(i + 1),
                    |card: Card| card.spec_points() as nat,
                );
                assert(self.cards@.take(i + 1) + self.cards@.skip(i + 1) =~= self.cards@);
            }
            points += self.cards[i].rank().points();
        }
        assert(self.cards@.take(self.cards.len() as int) =~= self.cards@);
        points
    }

    /// Lays the cards out in display order: the Jacks first, then suit by
    /// suit, each from the Ace down. What the holder has worked out stays.
    pub fn sort_cards(&mut self)
        requires
            old(self).wf(),
        ensures
            final(self).wf(),
            final(self)@.to_multiset() == old(self)@.to_multiset(),
            display_sorted(final(self)@),
            valuation(final(self)@) == valuation(old(self)@),
            bid_value(final(self)@) == bid_value(old(self)@),
            final(self).spec_name() == old(self).spec_name(),
            final(self).current_bid() == old(self).current_bid(),
            final(self).cached_bid() == old(self).cached_bid(),
            final(self).spec_game_type() == old(self).spec_game_type(),
    {
        sort_for_display(&mut self.cards);
        proof {
            lemma_numbers_permutation(old(self).cards@, self.cards@);
            lemma_valuation_permutation(old(self).cards@, self.cards@);
        }
    }

    /// Finds the suit to show as trump, with the number of its plain cards
    /// and their points. It is the suit with the most plain cards; if
    /// several have as many, the one of them with the most points; if still
    /// the same, the first of Clubs, Spades, Hearts, Diamonds.
    pub fn trump_suit_cards(&self) -> (trump: (Suit, usize, usize))
        requires
            forall|suit: Suit| plain_points(self@, suit) <= usize::MAX,
        ensures
            trump.0 == longest_suit(self@),
            trump.1 == plain_count(self@, trump.0),
            trump.1 == max_plain_count(self@),
            trump.2 == plain_points(self@, trump.0),
    {
        let (suit_card_count, suit_card_points) = self.suit_statistics();
        assert(Suit::at(0) == Suit::Clubs && Suit::at(1) == Suit::Spades && Suit::at(2)
            == Suit::Hearts && Suit::at(3) == Suit::Diamonds);
        assert(forall|s: int|
            0 <= s < 4 ==> #[trigger] suit_card_points[s] == plain_points(self@, Suit::at(s)));
        let mut max_suit: usize = 0;
        if suit_card_count[1] > suit_card_count[max_suit] || (suit_card_count[1]
            == suit_card_count[max_suit] && suit_card_points[1] > suit_card_points[max_suit]) {
            max_suit = 1;
        }
        if suit_card_count[2] > suit_card_count[max_suit] || (suit_card_count[2]
            == suit_card_count[max_suit] && suit_card_points[2] > suit_card_points[max_suit]) {
            max_suit = 2;
        }
        if suit_card_count[3] > suit_card_count[max_suit] || (suit_card_count[3]
            == suit_card_count[max_suit] && suit_card_points[3] > suit_card_points[max_suit]) {
            max_suit = 3;
        }
        let suit = Suit::from_usize(max_suit);
        (suit, suit_card_count[max_suit], suit_card_points[max_suit])
    }

    /// The names of the cards in the order in which they are held, with a
    /// comma and a blank between one and the next.
    pub fn cards_to_string(&self) -> (text: String)
        ensures
            text@ == cards_text(self@),
    {
        let mut text = String::new();
        for i in 0..self.cards.len()
            invariant
                text@ == cards_text(self.cards@.take(i as int)),
        {
            assert(self.cards@.take(i + 1).drop_last() =~= self.cards@.take(i as int));
            if i > 0 {
                text.append(", ");
            }
            text.append(self.cards[i].to_string().as_str());
        }
        assert(self.cards@.take(self.cards.len() as int) =~= self.cards@);
        text
    }

    /// The holder as it is displayed: the name, a colon, and the cards in
    /// square brackets.
    pub fn to_string(&self) -> (text: String)
        ensures
            text@ == self.spec_name() + ": ["@ + cards_text(self@) + "]"@,
    {
        let mut text = self.name.clone();
        text.append(": [");
        text.append(self.cards_to_string().as_str());
        text.append("]");
        text
    }
}

/// Allows input like "KB" for the Jack of Clubs: a name for the holder and
/// the names of its cards.
impl<'a> TryFrom<(&'a str, &'a Vec<&'a str>)> for CardHolder {
    type Error = String;

    fn try_from(tuple: (&'a str, &'a Vec<&'a str>)) -> (parsed: Result<Self, String>)
        ensures
            match cards_of_names(tuple.1@) {
                Ok(cards) => {
                    &&& parsed matches Ok(holder)
                    &&& holder.wf()
                    &&& holder@ == cards
                    &&& holder.spec_name() == tuple.0@
                    &&& holder.current_bid() == 0
                    &&& holder.cached_bid() is None
                    &&& holder.spec_game_type() == GameType::NoGame
                },
                Err(message) => parsed is Err && parsed->Err_0@ == message,
            },
    {
        let mut cards: Vec<Card> = Vec::new();
        for i in 0..tuple.1.len()
            invariant
                cards_of_names(tuple.1@.take(i as int)) == Ok::<Seq<Card>, Seq<char>>(cards@),
        {
            assert(tuple.1@.take(i + 1).drop_last() =~= tuple.1@.take(i as int));
            match Card::try_from(tuple.1[i]) {
                Ok(card) => {
                    cards.push(card);
                },
                Err(message) => {
                    proof {
                        lemma_first_bad_name(tuple.1@, i as int);
                    }
                    return Err(message);
                },
            }
        }
        assert(tuple.1@.take(tuple.1.len() as int) =~= tuple.1@);
        Ok(Self::new(tuple.0, cards))
    }
}

impl<'a> vstd::std_specs::convert::TryFromSpecImpl<(&'a str, &'a Vec<&'a str>)> for CardHolder {
    /// The error is a `String`, of which a specification can only state the
    /// text: the contract stands on `try_from` itself.
    open spec fn obeys_try_from_spec() -> bool {
        false
    }

    open spec fn try_from_spec(tuple: (&'a str, &'a Vec<&'a str>)) -> Result<Self, String> {
        Err(arbitrary())
    }
}

/// Where the first names of a row stand for cards and the next one does
/// not, the whole row fails with the error of that name.
proof fn lemma_first_bad_name(names: Seq<&str>, at: int)
    requires
        0 <= at < names.len(),
        cards_of_names(names.take(at)) is Ok,
        cards_of_names(names.take(at + 1)) is Err,
    ensures
        cards_of_names(names) == cards_of_names(names.take(at + 1)),
{
    lemma_bad_name_stays(names, at + 1);
}

/// Where the first names of a row fail, the whole row fails with the same error.
proof fn lemma_bad_name_stays(names: Seq<&str>, n: int)
    requires
        0 <= n <= names.len(),
        cards_of_names(names.take(n)) is Err,
    ensures
        cards_of_names(names) == cards_of_names(names.take(n)),
    decreases names.len() - n,
{
    if n < names.len() {
        assert(names.take(n + 1).drop_last() =~= names.take(n));
        lemma_bad_name_stays(names, n + 1);
    } else {
        assert(names.take(n) =~= names);
    }
}

} // verus!
