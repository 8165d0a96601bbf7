//! One game of three players and the Skat, and the game that a player announces.

use crate::bidding::{bid_value, lemma_bid_is_weight_multiple, trump_suit};
use crate::card::{Card, Suit};
use crate::cardholder::CardHolder;
use crate::deck::{
    dealt_hand, deck_validity, is_full_deck, lemma_deck_validity, validate_deck, DealError, Deck,
};
use crate::hand::jack_count;
use crate::order::display_sorted;
use vstd::prelude::*;

verus! {

/// The Skat-game a player announced.
#[derive(Debug, Clone, Copy, PartialEq, Eq, Structural)]
pub enum GameType {
    Grand,
    Clubs,
    Spades,
    Hearts,
    Diamonds,
    Null,
    Ramsch,
    /// No game is announced: the default.
    NoGame,
}

impl Default for GameType {
    fn default() -> (game_type: GameType)
        ensures
            game_type == GameType::NoGame,
    {
        GameType::NoGame
    }
}

impl GameType {
    /// The suit game with `suit` as trump.
    pub open spec fn of_suit(suit: Suit) -> GameType {
        match suit {
            Suit::Clubs => GameType::Clubs,
            Suit::Spades => GameType::Spades,
            Suit::Hearts => GameType::Hearts,
            Suit::Diamonds => GameType::Diamonds,
        }
    }

    /// The game that a hand announces with the trump suit of its valuation:
    /// the suit game, or none where it must pass.
    pub open spec fn announced(trump_suit: Option<Suit>) -> GameType {
        match trump_suit {
            Some(suit) => GameType::of_suit(suit),
            None => GameType::NoGame,
        }
    }

    /// The name of the game.
    pub open spec fn name_text(self) -> Seq<char> {
        match self {
            GameType::Grand => "Grand"@,
            GameType::Clubs => "Clubs"@,
            GameType::Spades => "Spades"@,
            GameType::Hearts => "Hearts"@,
            GameType::Diamonds => "Diamonds"@,
            GameType::Null => "Null"@,
            GameType::Ramsch => "Ramsch"@,
            GameType::NoGame => "None"@,
        }
    }

    /// The suit game with `suit` as trump.
    pub fn from_suit(suit: Suit) -> (game_type: GameType)
        ensures
            game_type == GameType::of_suit(suit),
    {
        match suit {
            Suit::Clubs => GameType::Clubs,
            Suit::Spades => GameType::Spades,
            Suit::Hearts => GameType::Hearts,
            Suit::Diamonds => GameType::Diamonds,
        }
    }

    /// The game as it is displayed: its name.
    pub fn to_string(&self) -> (text: String)
        ensures
            text@ == self.name_text(),
    {
        broadcast use vstd::string::group_string_axioms;

        match self {
            GameType::Grand => "Grand".to_string(),
            GameType::Clubs => "Clubs".to_string(),
            GameType::Spades => "Spades".to_string(),
            GameType::Hearts => "Hearts".to_string(),
            GameType::Diamonds => "Diamonds".to_string(),
            GameType::Null => "Null".to_string(),
            GameType::Ramsch => "Ramsch".to_string(),
            GameType::NoGame => "None".to_string(),
        }
    }
}

/// The seat of the player who acts next after the player at `seat`.
pub open spec fn next_seat(seat: int) -> int {
    if seat == 2 {
        0
    } else {
        seat + 1
    }
}

/// The later of two bidders wins only with the higher bid.
pub open spec fn higher_bidder(bids: Seq<int>, earlier: int, later: int) -> int {
    if bids[later] > bids[earlier] {
        later
    } else {
        earlier
    }
}

/// The seat of the player who plays, given the highest bid of each seat:
/// the highest bidder, of several the one who acts first, and nobody where
/// all pass.
pub open spec fn highest_bidder(vorhand: int, bids: Seq<int>) -> Option<int> {
    let mittelhand = next_seat(vorhand);
    let hinterhand = next_seat(mittelhand);
    let best = higher_bidder(bids, higher_bidder(bids, vorhand, mittelhand), hinterhand);
    if bids[best] == 0 {
        None
    } else {
        Some(best)
    }
}

/// The place in the order of acting of the player at `seat`: 0 for the
/// first to act.
pub open spec fn turn_of_seat(vorhand: int, seat: int) -> int {
    if seat >= vorhand {
        seat - vorhand
    } else {
        seat - vorhand + 3
    }
}

/// The player who plays has bid more than 0 and no less than any other
/// player, and acts before every other player who bids as much. Nobody
/// plays only where nobody bids more than 0.
pub proof fn lemma_highest_bidder(vorhand: int, bids: Seq<int>, other: int)
    requires
        0 <= vorhand < 3,
        bids.len() == 3,
        0 <= other < 3,
        forall|seat: int| 0 <= seat < 3 ==> bids[seat] >= 0,
    ensures
        match highest_bidder(vorhand, bids) {
            Some(winner) => {
                &&& 0 <= winner < 3
                &&& bids[winner] > 0
                &&& bids[other] <= bids[winner]
                &&& bids[other] == bids[winner] ==> turn_of_seat(vorhand, winner) <= turn_of_seat(
                    vorhand,
                    other,
                )
            },
            None => bids[other] == 0,
        },
{
}

/// This is the structure for one game with 3 players and the Skat.
/// A new game creates a game and deals the cards to the players.
#[derive(Debug)]
pub struct Game {
    player: [CardHolder; 3],
    skat: CardHolder,
    /// The seat of the player who acts first.
    pub vorhand: usize,
    /// The seat of the player who plays, once the bidding has found one.
    pub player_playing: Option<usize>,
}

impl Game {
    /// The three players by seat.
    pub closed spec fn players(&self) -> Seq<CardHolder> {
        self.player@
    }

    /// The Skat.
    pub closed spec fn spec_skat(&self) -> CardHolder {
        self.skat
    }

    /// The seat of the player who acts first: the field `vorhand`.
    pub closed spec fn spec_vorhand(&self) -> usize {
        self.vorhand
    }

    /// The seat of the player who plays: the field `player_playing`.
    pub closed spec fn spec_player_playing(&self) -> Option<usize> {
        self.player_playing
    }

    /// All cards of the game: those of the three players by seat, then the Skat's.
    pub open spec fn all_cards(&self) -> Seq<Card> {
        self.players()[0]@ + self.players()[1]@ + self.players()[2]@ + self.spec_skat()@
    }

    /// The highest bid of each player's cards, by seat.
    pub open spec fn bids(&self) -> Seq<int> {
        seq![
            bid_value(self.players()[0]@),
            bid_value(self.players()[1]@),
            bid_value(self.players()[2]@),
        ]
    }

    /// What holds of every game that this library hands out: there are
    /// three players, and they and the Skat are as the library hands
    /// holders out.
    pub open spec fn wf(&self) -> bool {
        &&& self.players().len() == 3
        &&& self.players()[0].wf()
        &&& self.players()[1].wf()
        &&& self.players()[2].wf()
        &&& self.spec_skat().wf()
    }

    /// Whether the players and the Skat hold one full deck between them.
    pub open spec fn is_complete(&self) -> bool {
        is_full_deck(self.all_cards())
    }

    /// Creates a new game.
    /// A card deck is created, shuffled and the cards are dealt to the players.
    pub fn new(vorhand: usize) -> (game: Game)
        ensures
            game.wf(),
            game.is_complete(),
            game.spec_vorhand() == vorhand,
            game.spec_player_playing() is None,
            game.players()[0]@.len() == 10,
            game.players()[1]@.len() == 10,
            game.players()[2]@.len() == 10,
            game.spec_skat()@.len() == 2,
            display_sorted(game.players()[0]@),
            game.players()[0].is_new() && game.players()[1].is_new() && game.players()[2].is_new()
                && game.spec_skat().is_new(),
    {
        broadcast use vstd::seq_lib::group_to_multiset_ensures;

        let mut deck = Deck::new(true);
        let ghost shuffled = deck@;
        let (player1, player2, player3, skat) = deck.deal();
        assert(player1@.to_multiset().len() == player1@.len());
        assert(dealt_hand(shuffled, 0).to_multiset().len() == 10);
        Game { player: [player1, player2, player3], skat, vorhand, player_playing: None }
    }

    /// Creates a game of hands that are dealt already, the players' in the
    /// order of their seats. Together with the Skat they must hold one full
    /// deck: 32 cards, none of them twice.
    pub fn new_defined(
        player1: CardHolder,
        player2: CardHolder,
        player3: CardHolder,
        skat: CardHolder,
        vorhand: usize,
    ) -> (made: Result<Game, DealError>)
        requires
            player1.wf(),
            player2.wf(),
            player3.wf(),
            skat.wf(),
        ensures
            made is Ok <==> is_full_deck(player1@ + player2@ + player3@ + skat@),
            match deck_validity(player1@ + player2@ + player3@ + skat@) {
                Ok(_) => {
                    &&& made matches Ok(game)
                    &&& game.wf()
                    &&& game.is_complete()
                    &&& game.players() == seq![player1, player2, player3]
                    &&& game.spec_skat() == skat
                    &&& game.spec_vorhand() == vorhand
                    &&& game.spec_player_playing() is None
                },
                Err(error) => made matches Err(found) && found == error,
            },
    {
        let ghost all = player1@ + player2@ + player3@ + skat@;
        proof {
            lemma_deck_validity(all);
        }
        let limit: usize = 32;
        if player1.cards().len() > limit || player2.cards().len() > limit || player3.cards().len()
            > limit || skat.cards().len() > limit {
            return Err(DealError::WrongCardCount);
        }
        let mut cards: Vec<Card> = Vec::new();
        cards.extend_from_slice(player1.cards());
        cards.extend_from_slice(player2.cards());
        cards.extend_from_slice(player3.cards());
        cards.extend_from_slice(skat.cards());
        assert(cards@ =~= all);
        match validate_deck(&cards) {
            Ok(_) => {
                let game = Game {
                    player: [player1, player2, player3],
                    skat,
                    vorhand,
                    player_playing: None,
                };
                assert(game.players() =~= seq![player1, player2, player3]);
                Ok(game)
            },
            Err(error) => Err(error),
        }
    }
    /// What the bidding leaves of a player: the cards and the name stay, the
    /// highest bid is worked out and kept with the game it announces, and
    /// the player who plays has bid that value.
    pub open spec fn after_bidding(before: CardHolder, after: CardHolder, plays: bool) -> bool {
        &&& after.wf()
        &&& after@ == before@
        &&& after.spec_name() == before.spec_name()
        &&& after.cached_bid() == Some(bid_value(before@) as u16)
        &&& after.spec_game_type() == GameType::announced(trump_suit(before@))
        &&& after.current_bid() == if plays {
            bid_value(before@) as u16
        } else {
            before.current_bid()
        }
    }

    /// Has each player work out and keep the highest bid of the cards, and
    /// returns the bids by seat.
    fn work_out_bids(&mut self) -> (bids: [u16; 3])
        requires
            old(self).wf(),
        ensures
            final(self).wf(),
            forall|seat: int| 0 <= seat < 3 ==> #[trigger] bids[seat] == old(self).bids()[seat],
            forall|seat: int|
                0 <= seat < 3 ==> Game::after_bidding(
                    #[trigger] old(self).players()[seat],
                    final(self).players()[seat],
                    false,
                ),
            final(self).spec_skat() == old(self).spec_skat(),
            final(self).spec_vorhand() == old(self).spec_vorhand(),
            final(self).spec_player_playing() == old(self).spec_player_playing(),
    {
        proof {
            lemma_bid_is_weight_multiple(self.player@[0]@);
            lemma_bid_is_weight_multiple(self.player@[1]@);
            lemma_bid_is_weight_multiple(self.player@[2]@);
        }
        let first = self.player[0].reizen_max();
        let second = self.player[1].reizen_max();
        let third = self.player[2].reizen_max();
        [first, second, third]
    }

    /// Return the player who did the highest reizen.
    ///
    /// Each player's highest bid is worked out. The later of two players
    /// wins only with the higher bid, so of equal bids the one of the
    /// player who acts first wins. Where all pass, nobody plays and
    /// `player_playing` stays as it is; else the winner's seat is noted
    /// there, and the winner has bid the highest bid of the cards.
    pub fn reizen(&mut self) -> (winner: Option<usize>)
        requires
            old(self).wf(),
            old(self).spec_vorhand() < 3,
        ensures
            final(self).wf(),
            match highest_bidder(old(self).spec_vorhand() as int, old(self).bids()) {
                Some(seat) => winner == Some(seat as usize) && final(self).spec_player_playing()
                    == winner,
                None => winner is None && final(self).spec_player_playing() == old(
                    self,
                ).spec_player_playing(),
            },
            forall|seat: int|
                0 <= seat < 3 ==> Game::after_bidding(
                    #[trigger] old(self).players()[seat],
                    final(self).players()[seat],
                    winner == Some(seat as usize),
                ),
            final(self).spec_skat() == old(self).spec_skat(),
            final(self).spec_vorhand() == old(self).spec_vorhand(),
            final(self).all_cards() == old(self).all_cards(),
    {
        let (mittelhand, hinterhand): (usize, usize) = match self.vorhand {
            0 => (1, 2),
            1 => (2, 0),
            _ => (0, 1),
        };
        let bids = self.work_out_bids();
        let mut player = self.vorhand;
        if bids[mittelhand] > bids[player] {
            player = mittelhand;
        }
        if bids[hinterhand] > bids[player] {
            player = hinterhand;
        }
        if bids[player] == 0 {
            return None;
        }
        self.player[player].set_reizen_current(bids[player]);
        self.player_playing = Some(player);
        Some(player)
    }
    /// The seat of the player with the most Jacks; of several, the first seat.
    pub open spec fn most_jacks_seat(&self) -> int {
        let jacks = |seat: int| jack_count(self.players()[seat]@);
        let first = if jacks(1) > jacks(0) {
            1
        } else {
            0
        };
        if jacks(2) > jacks(first) {
            2
        } else {
            first
        }
    }

    /// Identify the player with the most jacks. Whether the player may bid
    /// plays no part.
    pub fn reizen_simple(&self) -> (holder: &CardHolder)
        requires
            self.wf(),
        ensures
            *holder == self.players()[self.most_jacks_seat()],
    {
        let mut player = &self.player[0];
        if self.player[1].num_jacks() > self.player[0].num_jacks() {
            player = &self.player[1];
        }
        if self.player[2].num_jacks() > player.num_jacks() {
            player = &self.player[2];
        }
        player
    }

    /// Whether some player holds four Jacks.
    pub open spec fn four_jacks_in_hand(&self) -> bool {
        exists|seat: int| 0 <= seat < 3 && jack_count(#[trigger] self.players()[seat]@) == 4
    }

    /// Whether some player holds four Jacks together with the Skat.
    pub open spec fn four_jacks_with_skat(&self) -> bool {
        exists|seat: int|
            0 <= seat < 3 && jack_count(#[trigger] self.players()[seat]@) + jack_count(
                self.spec_skat()@,
            ) == 4
    }

    /// Return true if any player has 4 jacks: without the skat, and with
    /// the skat. With the skat is looked at only where no player has them
    /// without it and the Skat holds a Jack.
    pub fn play_with_4_jacks(&self) -> (found: (bool, bool))
        requires
            self.wf(),
        ensures
            found.0 == self.four_jacks_in_hand(),
            found.1 == (!self.four_jacks_in_hand() && jack_count(self.spec_skat()@) != 0
                && self.four_jacks_with_skat()),
    {
        let skat_jacks = self.skat.num_jacks();
        let mut without_skat = false;
        let mut with_skat = false;
        for seat in 0..3usize
            invariant
                self.wf(),
                skat_jacks == jack_count(self.spec_skat()@),
                without_skat == exists|s: int|
                    0 <= s < seat && jack_count(#[trigger] self.players()[s]@) == 4,
                with_skat == exists|s: int|
                    0 <= s < seat && jack_count(#[trigger] self.players()[s]@) + jack_count(
                        self.spec_skat()@,
                    ) == 4,
        {
            let jacks = self.player[seat].num_jacks();
            if jacks == 4 {
                without_skat = true;
            }
            if jacks <= 4 && skat_jacks == 4 - jacks {
                with_skat = true;
            }
        }
        if without_skat || skat_jacks == 0 {
            return (without_skat, false);
        }
        (without_skat, with_skat)
    }

    /// Sorts the cards for each card holder for better display.
    pub fn sort_cards(&mut self)
        requires
            old(self).wf(),
        ensures
            final(self).wf(),
            forall|seat: int|
                0 <= seat < 3 ==> Game::laid_out(
                    #[trigger] old(self).players()[seat],
                    final(self).players()[seat],
                ),
            Game::laid_out(old(self).spec_skat(), final(self).spec_skat()),
            final(self).spec_vorhand() == old(self).spec_vorhand(),
            final(self).spec_player_playing() == old(self).spec_player_playing(),
            final(self).all_cards().to_multiset() == old(self).all_cards().to_multiset(),
            final(self).bids() == old(self).bids(),
    {
        self.player[0].sort_cards();
        self.player[1].sort_cards();
        self.player[2].sort_cards();
        self.skat.sort_cards();
        proof {
            lemma_all_cards_permutation(*old(self), *self);
        }
    }

    /// What laying out the cards leaves of a holder: the same cards in
    /// display order, and all else as it was.
    pub open spec fn laid_out(before: CardHolder, after: CardHolder) -> bool {
        &&& after.wf()
        &&& after@.to_multiset() == before@.to_multiset()
        &&& display_sorted(after@)
        &&& bid_value(after@) == bid_value(before@)
        &&& after.spec_name() == before.spec_name()
        &&& after.current_bid() == before.current_bid()
        &&& after.cached_bid() == before.cached_bid()
        &&& after.spec_game_type() == before.spec_game_type()
    }

    /// The three players by seat.
    pub fn player(&self) -> (players: &[CardHolder; 3])
        ensures
            players@ == self.players(),
    {
        &self.player
    }

    /// The player at seat `id`.
    pub fn player_id(&self, id: usize) -> (holder: &CardHolder)
        requires
            id < 3,
        ensures
            *holder == self.players()[id as int],
    {
        &self.player[id]
    }

    /// The player at seat `id`, to be changed.
    pub fn player_id_as_mut(&mut self, id: usize) -> (holder: &mut CardHolder)
        requires
            id < 3,
        ensures
            *holder == old(self).players()[id as int],
            final(self).players() == old(self).players().update(id as int, *final(holder)),
            final(self).spec_skat() == old(self).spec_skat(),
            final(self).spec_vorhand() == old(self).spec_vorhand(),
            final(self).spec_player_playing() == old(self).spec_player_playing(),
    {
        &mut self.player[id]
    }

    /// The Skat.
    pub fn skat(&self) -> (holder: &CardHolder)
        ensures
            *holder == self.spec_skat(),
    {
        &self.skat
    }
}

/// Where each holder of a game keeps its cards but for their order, the
/// game keeps its cards but for their order.
proof fn lemma_all_cards_permutation(before: Game, after: Game)
    requires
        before.players().len() == 3,
        after.players().len() == 3,
        forall|seat: int|
            0 <= seat < 3 ==> (#[trigger] after.players()[seat])@.to_multiset()
                == before.players()[seat]@.to_multiset(),
        after.spec_skat()@.to_multiset() == before.spec_skat()@.to_multiset(),
    ensures
        after.all_cards().to_multiset() == before.all_cards().to_multiset(),
{
    let a = after.players();
    let b = before.players();
    vstd::seq_lib::lemma_multiset_commutative(a[0]@, a[1]@);
    vstd::seq_lib::lemma_multiset_commutative(a[0]@ + a[1]@, a[2]@);
    vstd::seq_lib::lemma_multiset_commutative(a[0]@ + a[1]@ + a[2]@, after.spec_skat()@);
    vstd::seq_lib::lemma_multiset_commutative(b[0]@, b[1]@);
    vstd::seq_lib::lemma_multiset_commutative(b[0]@ + b[1]@, b[2]@);
    vstd::seq_lib::lemma_multiset_commutative(b[0]@ + b[1]@ + b[2]@, before.spec_skat()@);
    assert(a[0]@.to_multiset() == b[0]@.to_multiset());
    assert(a[1]@.to_multiset() == b[1]@.to_multiset());
    assert(a[2]@.to_multiset() == b[2]@.to_multiset());
}

} // verus!
