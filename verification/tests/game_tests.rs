use skat_deal::card::{Card, Rank, Suit};
use skat_deal::cardholder::CardHolder;
use skat_deal::deck::{validate_deck, DealError};
use skat_deal::game::{Game, GameType};

fn holder(name: &str, names: &str) -> CardHolder {
    let names: Vec<&str> = names.split_whitespace().collect();
    CardHolder::try_from((name, &names)).unwrap()
}

fn game(first: &str, second: &str, third: &str, skat: &str, vorhand: usize) -> Game {
    Game::new_defined(
        holder("A", first),
        holder("B", second),
        holder("C", third),
        holder("Skat", skat),
        vorhand,
    )
    .unwrap()
}

// Highest bids 18, 0 and 20.
const HAND_18: &str = "CB PD CD C8 CA P7 HD KB K8 CZ";
const HAND_0: &str = "PA C9 C7 CK H8 PK K9 KK KZ HK";
const HAND_20: &str = "H9 PZ HZ P9 H7 HB KA HA PB K7";
const SKAT_18_0_20: &str = "P8 KD";

// Highest bids 24, 24 and 0.
const HAND_24_WITH: &str = "HB KZ KK HK K9 HD CD P7 CB KB";
const HAND_24_WITHOUT: &str = "C9 HA KA H8 PB KD K8 PD PK K7";
const HAND_0_B: &str = "C8 H9 PZ P8 CA CZ HZ C7 H7 PA";
const SKAT_24_24_0: &str = "P9 CK";

// All three pass.
const PASS_1: &str = "KA HA KK HK P8 CA PA H7 CD P7";
const PASS_2: &str = "HZ PB CK KB H9 P9 C7 PD K7 KD";
const PASS_3: &str = "K9 HD H8 KZ PK CB CZ C8 K8 PZ";
const PASS_SKAT: &str = "C9 HB";

#[test]
fn highest_bidder_plays() {
    let mut game = game(HAND_18, HAND_0, HAND_20, SKAT_18_0_20, 1);
    assert_eq!(game.player_playing, None);
    assert_eq!(game.reizen(), Some(2));
    assert_eq!(game.player_playing, Some(2));
    assert_eq!(game.player_id(2).reizen_current, 20);
    assert_eq!(*game.player_id(2).game_type(), GameType::Hearts);
    // The others have worked out their bids and bid nothing.
    assert_eq!(game.player_id(0).reizen_current, 0);
    assert_eq!(game.player_id(1).reizen_current, 0);
    assert_eq!(*game.player_id(0).game_type(), GameType::Diamonds);
    assert_eq!(*game.player_id(1).game_type(), GameType::NoGame);
    assert_eq!(game.player_id_as_mut(0).reizen_max(), 18);
    assert_eq!(game.player_id_as_mut(1).reizen_max(), 0);
    assert_eq!(game.player_id_as_mut(2).reizen_max(), 20);
    assert_eq!(game.vorhand, 1);
}

#[test]
fn highest_bidder_plays_whoever_acts_first() {
    for vorhand in 0..3 {
        let mut game = game(HAND_18, HAND_0, HAND_20, SKAT_18_0_20, vorhand);
        assert_eq!(game.reizen(), Some(2));
        let mut game = game_of_seats(HAND_20, HAND_18, HAND_0, vorhand);
        assert_eq!(game.reizen(), Some(0));
        let mut game = game_of_seats(HAND_0, HAND_20, HAND_18, vorhand);
        assert_eq!(game.reizen(), Some(1));
    }
}

fn game_of_seats(first: &str, second: &str, third: &str, vorhand: usize) -> Game {
    game(first, second, third, SKAT_18_0_20, vorhand)
}

#[test]
fn of_equal_bids_the_earlier_player_wins() {
    // Seats 0 and 1 both bid 24.
    let mut first = game(HAND_24_WITH, HAND_24_WITHOUT, HAND_0_B, SKAT_24_24_0, 0);
    assert_eq!(first.reizen(), Some(0));
    assert_eq!(first.player_id(0).reizen_current, 24);
    assert_eq!(first.player_id(1).reizen_current, 0);
    let mut second = game(HAND_24_WITH, HAND_24_WITHOUT, HAND_0_B, SKAT_24_24_0, 1);
    assert_eq!(second.reizen(), Some(1));
    assert_eq!(second.player_id(1).reizen_current, 24);
    assert_eq!(second.player_id(0).reizen_current, 0);
    // With seat 2 first to act, seat 0 acts before seat 1.
    let mut third = game(HAND_24_WITH, HAND_24_WITHOUT, HAND_0_B, SKAT_24_24_0, 2);
    assert_eq!(third.reizen(), Some(0));
    assert_eq!(third.player_playing, Some(0));
}

#[test]
fn of_equal_bids_the_earlier_player_wins_in_other_seats() {
    // Seats 1 and 2 both bid 24.
    let mut game_0 = game(HAND_0_B, HAND_24_WITH, HAND_24_WITHOUT, SKAT_24_24_0, 0);
    assert_eq!(game_0.reizen(), Some(1));
    let mut game_2 = game(HAND_0_B, HAND_24_WITH, HAND_24_WITHOUT, SKAT_24_24_0, 2);
    assert_eq!(game_2.reizen(), Some(2));
    // Seats 0 and 2 both bid 24.
    let mut game_1 = game(HAND_24_WITH, HAND_0_B, HAND_24_WITHOUT, SKAT_24_24_0, 1);
    assert_eq!(game_1.reizen(), Some(2));
    let mut game_0 = game(HAND_24_WITH, HAND_0_B, HAND_24_WITHOUT, SKAT_24_24_0, 0);
    assert_eq!(game_0.reizen(), Some(0));
}

#[test]
fn nobody_plays_where_all_pass() {
    let mut game = game(PASS_1, PASS_2, PASS_3, PASS_SKAT, 0);
    assert_eq!(game.reizen(), None);
    assert_eq!(game.player_playing, None);
    for seat in 0..3 {
        assert_eq!(game.player_id(seat).reizen_current, 0);
        assert_eq!(*game.player_id(seat).game_type(), GameType::NoGame);
    }
}

#[test]
fn bidding_twice_gives_the_same() {
    let mut game = game(HAND_18, HAND_0, HAND_20, SKAT_18_0_20, 0);
    assert_eq!(game.reizen(), Some(2));
    assert_eq!(game.reizen(), Some(2));
    assert_eq!(game.player_playing, Some(2));
    assert_eq!(game.player_id(2).reizen_current, 20);
}

#[test]
fn game_of_a_full_deck_is_made() {
    let made = Game::new_defined(
        holder("A", HAND_18),
        holder("B", HAND_0),
        holder("C", HAND_20),
        holder("Skat", SKAT_18_0_20),
        2,
    );
    let game = made.unwrap();
    assert_eq!(game.vorhand, 2);
    assert_eq!(game.player_playing, None);
    assert_eq!(game.player()[0].to_string(), "A: [CB, PD, CD, C8, CA, P7, HD, KB, K8, CZ]");
    assert_eq!(game.player_id(1).to_string(), "B: [PA, C9, C7, CK, H8, PK, K9, KK, KZ, HK]");
    assert_eq!(game.player_id(2).to_string(), "C: [H9, PZ, HZ, P9, H7, HB, KA, HA, PB, K7]");
    assert_eq!(game.skat().to_string(), "Skat: [P8, KD]");
}

#[test]
fn game_with_a_card_missing_is_refused() {
    let made = Game::new_defined(
        holder("A", HAND_18),
        holder("B", HAND_0),
        holder("C", HAND_20),
        holder("Skat", "P8"),
        0,
    );
    assert_eq!(made.err(), Some(DealError::WrongCardCount));
    let made = Game::new_defined(
        holder("A", "CB PD CD C8 CA P7 HD KB K8"),
        holder("B", HAND_0),
        holder("C", HAND_20),
        holder("Skat", SKAT_18_0_20),
        0,
    );
    assert_eq!(made.err(), Some(DealError::WrongCardCount));
}

#[test]
fn game_with_a_card_too_many_is_refused() {
    let made = Game::new_defined(
        holder("A", HAND_18),
        holder("B", HAND_0),
        holder("C", HAND_20),
        holder("Skat", "P8 KD KD"),
        0,
    );
    assert_eq!(made.err(), Some(DealError::WrongCardCount));
    let many = "K7 K8 K9 KB KD KK KZ KA P7 P8 P9 PB PD PK PZ PA H7 H8 H9 HB HD HK HZ HA C7 C8 \
                C9 CB CD CK CZ CA K7";
    let made = Game::new_defined(
        holder("A", many),
        holder("B", ""),
        holder("C", ""),
        holder("Skat", ""),
        0,
    );
    assert_eq!(made.err(), Some(DealError::WrongCardCount));
}

#[test]
fn game_with_a_card_twice_is_refused() {
    // The Queen of Clubs of the Skat is replaced by the Eight of Spades, which it holds already.
    let made = Game::new_defined(
        holder("A", HAND_18),
        holder("B", HAND_0),
        holder("C", HAND_20),
        holder("Skat", "P8 P8"),
        0,
    );
    assert_eq!(
        made.err(),
        Some(DealError::DuplicateCard(Card::new(Suit::Spades, Rank::Eight)))
    );
    // The second player holds the first player's Jack of Clubs in place of the Ace of Spades.
    let made = Game::new_defined(
        holder("A", HAND_18),
        holder("B", "KB C9 C7 CK H8 PK K9 KK KZ HK"),
        holder("C", HAND_20),
        holder("Skat", SKAT_18_0_20),
        0,
    );
    assert_eq!(made.err(), Some(DealError::DuplicateCard(Card::new(Suit::Clubs, Rank::Jack))));
}

#[test]
fn new_game_deals_a_full_deck() {
    for vorhand in 0..3 {
        let game = Game::new(vorhand);
        assert_eq!(game.vorhand, vorhand);
        assert_eq!(game.player_playing, None);
        let mut all: Vec<Card> = Vec::new();
        for seat in 0..3 {
            assert_eq!(game.player_id(seat).cards().len(), 10);
            assert_eq!(game.player_id(seat).reizen_current, 0);
            all.extend_from_slice(game.player_id(seat).cards());
        }
        assert_eq!(game.skat().cards().len(), 2);
        all.extend_from_slice(game.skat().cards());
        assert_eq!(validate_deck(&all), Ok(()));
        let jacks: usize =
            game.player().iter().map(|player| player.num_jacks()).sum::<usize>()
                + game.skat().num_jacks();
        assert_eq!(jacks, 4);
    }
}

#[test]
fn new_game_can_be_bid() {
    let mut game = Game::new(1);
    let bids: Vec<u16> = (0..3).map(|seat| game.player_id_as_mut(seat).reizen_max()).collect();
    let winner = game.reizen();
    let highest = *bids.iter().max().unwrap();
    match winner {
        Some(seat) => {
            assert_eq!(bids[seat], highest);
            assert!(highest >= 18);
            assert_eq!(game.player_id(seat).reizen_current, highest);
            assert_eq!(game.player_playing, Some(seat));
        }
        None => assert_eq!(highest, 0),
    }
}

#[test]
fn player_with_the_most_jacks() {
    let game = game(HAND_18, HAND_0, HAND_20, SKAT_18_0_20, 0);
    // Two Jacks each at the seats 0 and 2: the first of them.
    assert_eq!(game.reizen_simple().to_string(), game.player_id(0).to_string());
    let game = game_of_seats(HAND_0, HAND_18, HAND_20, 0);
    assert_eq!(game.reizen_simple().to_string(), game.player_id(1).to_string());
    let game = self::game(HAND_0_B, HAND_24_WITHOUT, HAND_24_WITH, SKAT_24_24_0, 0);
    // One Jack at seat 1, three at seat 2.
    assert_eq!(game.reizen_simple().to_string(), game.player_id(2).to_string());
    let game = self::game(PASS_3, PASS_1, PASS_2, PASS_SKAT, 0);
    // Seat 0 has one Jack, seat 1 none, seat 2 two.
    assert_eq!(game.reizen_simple().to_string(), game.player_id(2).to_string());
}

const FOUR_JACKS: &str = "KB PB HB CB K7 K8 K9 KD KK KZ";
const NO_JACKS_1: &str = "KA P7 P8 P9 PD PK PZ PA H7 H8";
const NO_JACKS_2: &str = "H9 HD HK HZ HA C7 C8 C9 CD CK";

#[test]
fn four_jacks_in_one_hand() {
    let game = game(NO_JACKS_1, FOUR_JACKS, NO_JACKS_2, "CZ CA", 0);
    assert_eq!(game.play_with_4_jacks(), (true, false));
}

#[test]
fn four_jacks_with_the_skat() {
    let game = game("KB PB HB CZ K7 K8 K9 KD KK KZ", NO_JACKS_1, NO_JACKS_2, "CB CA", 0);
    assert_eq!(game.play_with_4_jacks(), (false, true));
    let game = self::game(NO_JACKS_1, NO_JACKS_2, "KB PB CA CZ K7 K8 K9 KD KK KZ", "CB HB", 0);
    assert_eq!(game.play_with_4_jacks(), (false, true));
}

#[test]
fn four_jacks_nowhere() {
    // The Jacks are spread over the players.
    let game = game(HAND_18, HAND_0, HAND_20, SKAT_18_0_20, 0);
    assert_eq!(game.play_with_4_jacks(), (false, false));
    // One Jack in the Skat, the others in two hands.
    let game = self::game(PASS_1, PASS_2, PASS_3, PASS_SKAT, 0);
    assert_eq!(game.play_with_4_jacks(), (false, false));
    // Three Jacks in one hand, the fourth in another: the Skat holds none.
    let game = self::game(
        "KB PB HB CZ K7 K8 K9 KD KK KZ",
        "CB P7 P8 P9 PD PK PZ PA H7 H8",
        NO_JACKS_2,
        "KA CA",
        0,
    );
    assert_eq!(game.play_with_4_jacks(), (false, false));
}

#[test]
fn sorting_a_game_sorts_every_holder() {
    let mut game = game(HAND_18, HAND_0, HAND_20, SKAT_18_0_20, 0);
    game.sort_cards();
    assert_eq!(game.player_id(0).cards_to_string(), "KB, CB, K8, PD, P7, HD, CA, CZ, CD, C8");
    assert_eq!(game.player_id(1).cards_to_string(), "KZ, KK, K9, PA, PK, HK, H8, CK, C9, C7");
    assert_eq!(game.player_id(2).cards_to_string(), "PB, HB, KA, K7, PZ, P9, HA, HZ, H9, H7");
    assert_eq!(game.skat().cards_to_string(), "KD, P8");
    assert_eq!(game.reizen(), Some(2));
}

#[test]
fn player_can_be_changed_in_place() {
    let mut game = game(HAND_18, HAND_0, HAND_20, SKAT_18_0_20, 0);
    game.player_id_as_mut(1).reizen_current = 23;
    game.player_id_as_mut(2).sort_cards();
    assert_eq!(game.player_id(1).reizen_current, 23);
    assert_eq!(game.player_id(0).reizen_current, 0);
    assert_eq!(game.player_id(2).cards_to_string(), "PB, HB, KA, K7, PZ, P9, HA, HZ, H9, H7");
    assert_eq!(game.player_id(0).cards_to_string(), "CB, PD, CD, C8, CA, P7, HD, KB, K8, CZ");
}

#[test]
fn game_types() {
    assert_eq!(GameType::default(), GameType::NoGame);
    assert_eq!(GameType::from_suit(Suit::Clubs), GameType::Clubs);
    assert_eq!(GameType::from_suit(Suit::Spades), GameType::Spades);
    assert_eq!(GameType::from_suit(Suit::Hearts), GameType::Hearts);
    assert_eq!(GameType::from_suit(Suit::Diamonds), GameType::Diamonds);
    let names: Vec<String> = [
        GameType::Grand,
        GameType::Clubs,
        GameType::Spades,
        GameType::Hearts,
        GameType::Diamonds,
        GameType::Null,
        GameType::Ramsch,
        GameType::NoGame,
    ]
    .iter()
    .map(|game_type| game_type.to_string())
    .collect();
    assert_eq!(
        names,
        vec!["Grand", "Clubs", "Spades", "Hearts", "Diamonds", "Null", "Ramsch", "None"]
    );
}
