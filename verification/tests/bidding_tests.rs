use skat_deal::bidding::Valuation;
use skat_deal::card::{Card, Rank, Suit, UNKNOWN_RANK_SYMBOL};
use skat_deal::cardholder::CardHolder;
use skat_deal::game::GameType;

fn hand(names: &str) -> CardHolder {
    let names: Vec<&str> = names.split_whitespace().collect();
    CardHolder::try_from(("Hand", &names)).unwrap()
}

fn pass() -> Valuation {
    Valuation { eligible: false, trump_suit: None, bid_value: 0 }
}

fn bid(trump: Suit, value: u16) -> Valuation {
    Valuation { eligible: true, trump_suit: Some(trump), bid_value: value }
}

#[test]
fn four_jacks_and_three_clubs_bid_sixty() {
    let mut holder = hand("KB PB HB CB KK KZ KA");
    assert_eq!(holder.num_jacks(), 4);
    assert_eq!(holder.reiz_factor(), 4);
    assert_eq!(holder.evaluate(), bid(Suit::Clubs, 60));
    assert_eq!(holder.reizen_v1(), 60);
    assert_eq!(*holder.game_type(), GameType::Clubs);
}

#[test]
fn five_diamonds_with_their_ace_alone_pass() {
    let mut holder = hand("CA CZ CK CD C9");
    assert_eq!(holder.num_jacks(), 0);
    assert_eq!(holder.evaluate(), pass());
    assert_eq!(holder.reizen_max(), 0);
    assert_eq!(*holder.game_type(), GameType::NoGame);
}

#[test]
fn five_diamonds_with_an_ace_beside_them_bid() {
    let mut holder = hand("CA CZ CK CD C9 PA");
    assert_eq!(holder.reiz_factor(), -4);
    assert_eq!(holder.evaluate(), bid(Suit::Diamonds, 45));
    assert_eq!(holder.reizen_max(), 45);
    assert_eq!(*holder.game_type(), GameType::Diamonds);
}

#[test]
fn fewer_than_five_trumps_pass() {
    assert_eq!(hand("KB PB K7 K8").evaluate(), pass());
    assert_eq!(hand("KB PB HB CB").evaluate(), pass());
    assert_eq!(hand("KA KZ KK KD").evaluate(), pass());
    assert_eq!(hand("KB KA PZ HK CD C7 H8 P9").evaluate(), pass());
    let mut holder = hand("KB PB K7 K8");
    assert_eq!(holder.reizen_v1(), 0);
}

#[test]
fn empty_hand_passes() {
    let mut holder = CardHolder::new("Nobody", Vec::new());
    assert_eq!(holder.num_jacks(), 0);
    assert_eq!(holder.reiz_factor(), -4);
    assert_eq!(holder.evaluate(), pass());
    assert_eq!(holder.reizen_max(), 0);
    assert_eq!(holder.cards_total_points(), 0);
    assert_eq!(holder.trump_suit_cards(), (Suit::Clubs, 0, 0));
    assert_eq!(holder.cards_to_string(), "");
}

#[test]
fn five_trumps_need_ten_points_or_three_jacks() {
    // Five trumps, the suit holds 3 points, one Jack: no suit is a candidate.
    assert_eq!(hand("KB K7 K8 K9 KD HA").evaluate(), pass());
    // The Ten lifts the suit to 10 points.
    assert_eq!(hand("KB K7 K8 K9 KZ HA").evaluate(), bid(Suit::Clubs, 24));
    // Three Jacks make up for a suit without points.
    assert_eq!(hand("KB PB HB K7 K8 HA").evaluate(), bid(Suit::Clubs, 48));
    // Spades with 7 points and no Jack, then with 14.
    assert_eq!(hand("P7 P8 P9 PD PK KA").evaluate(), pass());
    assert_eq!(hand("P7 P8 P9 PZ PK KA").evaluate(), bid(Suit::Spades, 55));
}

#[test]
fn five_trumps_need_an_ace_beside_the_trump_suit() {
    // No Ace at all.
    assert_eq!(hand("KB K7 K8 K9 KZ").evaluate(), pass());
    // The only Ace is a trump.
    assert_eq!(hand("KB KA K8 K9 KZ").evaluate(), pass());
    // An Ace beside the trump suit.
    assert_eq!(hand("KB KA K8 K9 KZ HA").evaluate(), bid(Suit::Clubs, 24));
    // Two Aces of the trump suit are no Ace beside it.
    assert_eq!(hand("CA CA CZ CK CD").evaluate(), pass());
}

#[test]
fn six_trumps_need_no_ace() {
    assert_eq!(hand("K7 K8 K9 KD KK KZ").evaluate(), bid(Suit::Clubs, 60));
    assert_eq!(hand("PB HB H7 H8 H9 HD HK").evaluate(), bid(Suit::Hearts, 20));
}

#[test]
fn of_two_longest_suits_the_one_with_fewer_aces_is_trump() {
    // Both hold an Ace: the first stays.
    assert_eq!(hand("KB PB KA KZ KK PA PZ PK").evaluate(), bid(Suit::Clubs, 36));
    // Only the later one holds an Ace: the first stays.
    assert_eq!(hand("KB PB KZ KK KD PA PZ PK").evaluate(), bid(Suit::Clubs, 36));
    // Only the first one holds an Ace: the later one is chosen.
    assert_eq!(hand("KB PB KA KZ KK PZ PK PD").evaluate(), bid(Suit::Spades, 33));
    // Neither holds an Ace: the first stays.
    assert_eq!(hand("H7 H8 H9 C7 C8 C9 HB CB PB KB").evaluate(), bid(Suit::Hearts, 50));
}

#[test]
fn clubs_can_be_trump() {
    let mut holder = hand("KB KA KZ KK KD K9 K8");
    assert_eq!(holder.evaluate(), bid(Suit::Clubs, 24));
    assert_eq!(holder.reizen_v1(), 24);
    assert_eq!(*holder.game_type(), GameType::Clubs);
}

#[test]
fn jack_factor_with_jacks_from_the_top() {
    assert_eq!(hand("KB").reiz_factor(), 1);
    assert_eq!(hand("KB HB").reiz_factor(), 1);
    assert_eq!(hand("KB CB").reiz_factor(), 1);
    assert_eq!(hand("KB HB CB").reiz_factor(), 1);
    assert_eq!(hand("KB PB").reiz_factor(), 2);
    assert_eq!(hand("KB PB CB").reiz_factor(), 2);
    assert_eq!(hand("KB PB HB").reiz_factor(), 3);
    assert_eq!(hand("KB PB HB CB").reiz_factor(), 4);
}

#[test]
fn jack_factor_without_jacks_from_the_top() {
    assert_eq!(hand("PB").reiz_factor(), -1);
    assert_eq!(hand("PB HB").reiz_factor(), -1);
    assert_eq!(hand("PB CB").reiz_factor(), -1);
    assert_eq!(hand("PB HB CB").reiz_factor(), -1);
    assert_eq!(hand("HB").reiz_factor(), -2);
    assert_eq!(hand("HB CB").reiz_factor(), -2);
    assert_eq!(hand("CB").reiz_factor(), -3);
    assert_eq!(hand("KA PA HA CA").reiz_factor(), -4);
}

#[test]
fn jack_factor_does_not_depend_on_the_other_cards() {
    assert_eq!(hand("KB PB HB CB").reiz_factor(), 4);
    assert_eq!(hand("K7 KB P8 PB H9 HB CA CB HZ HK").reiz_factor(), 4);
    assert_eq!(hand("K7 P8 H9 CA HZ HK").reiz_factor(), -4);
    assert_eq!(hand("CA").reiz_factor(), -4);
}

#[test]
fn bids_without_jacks_from_the_top() {
    assert_eq!(hand("HB H7 H8 H9 HD HK CA").evaluate(), bid(Suit::Hearts, 30));
    assert_eq!(hand("CB C7 C8 C9 CD CK HA").evaluate(), bid(Suit::Diamonds, 36));
}

#[test]
fn bid_is_a_multiple_of_the_trump_suits_weight() {
    let hands = [
        "KB PB HB CB KK KZ KA",
        "CA CZ CK CD C9 PA",
        "KB PB KA KZ KK PZ PK PD",
        "PB HB H7 H8 H9 HD HK",
        "KB PB K7 K8",
        "P7 P8 P9 PZ PK KA",
    ];
    for names in hands {
        let valuation = hand(names).evaluate();
        match valuation.trump_suit {
            Some(suit) => {
                assert!(valuation.eligible);
                let weight = suit.suit_reiz_factor() as u16;
                assert_eq!(valuation.bid_value % weight, 0);
                assert!(valuation.bid_value / weight >= 1);
                assert!(valuation.bid_value / weight <= 5);
            }
            None => {
                assert!(!valuation.eligible);
                assert_eq!(valuation.bid_value, 0);
            }
        }
    }
}

#[test]
fn highest_bid_is_the_same_at_every_call() {
    let mut holder = hand("KB PB KA KZ KK PZ PK PD");
    assert_eq!(*holder.game_type(), GameType::NoGame);
    let first = holder.reizen_max();
    let kept = *holder.game_type();
    let second = holder.reizen_max();
    let third = holder.reizen_v1();
    assert_eq!(first, 33);
    assert_eq!(second, 33);
    assert_eq!(third, 33);
    assert_eq!(kept, GameType::Spades);
    assert_eq!(*holder.game_type(), GameType::Spades);
    assert_eq!(holder.reizen_current, 0);
    assert_eq!(holder.cards_to_string(), "KB, PB, KA, KZ, KK, PZ, PK, PD");
}

#[test]
fn bid_does_not_depend_on_the_order_of_the_cards() {
    let mut dealt = hand("PD KB PZ KA PB KK PK KZ");
    let mut sorted = hand("PD KB PZ KA PB KK PK KZ");
    sorted.sort_cards();
    assert_eq!(dealt.evaluate(), sorted.evaluate());
    assert_eq!(dealt.reizen_max(), 33);
    assert_eq!(sorted.reizen_max(), 33);
}

#[test]
fn new_holder_has_bid_nothing() {
    let holder = CardHolder::new("Anna", vec![Card::new(Suit::Hearts, Rank::Ten)]);
    assert_eq!(holder.reizen_current, 0);
    assert_eq!(*holder.game_type(), GameType::NoGame);
    assert_eq!(holder.cards(), &[Card::new(Suit::Hearts, Rank::Ten)]);
    assert_eq!(holder.to_string(), "Anna: [HZ]");
}

#[test]
fn holder_from_names() {
    let names = vec!["KB", "CQ", "HT"];
    let holder = CardHolder::try_from(("Bert", &names)).unwrap();
    assert_eq!(
        holder.cards(),
        &[
            Card::new(Suit::Clubs, Rank::Jack),
            Card::new(Suit::Diamonds, Rank::Queen),
            Card::new(Suit::Hearts, Rank::Ten),
        ]
    );
    assert_eq!(holder.to_string(), "Bert: [KB, CD, HZ]");
}

#[test]
fn holder_from_names_fails_at_the_first_bad_name() {
    let names = vec!["KB", "K1", "XB", "toolong"];
    let failed = CardHolder::try_from(("Bert", &names));
    assert_eq!(failed.err(), Some(UNKNOWN_RANK_SYMBOL.to_string()));
    let names = vec!["KB", "KBB", "K1"];
    let failed = CardHolder::try_from(("Bert", &names));
    assert_eq!(failed.err(), Some("Need two symbols".to_string()));
}

#[test]
fn counts_of_a_hand() {
    let holder = hand("KB PB K7 KA P8 HZ HK HA CB C9");
    assert_eq!(holder.num_jacks(), 3);
    assert_eq!(holder.num_cards_rank(Rank::Jack), 3);
    assert_eq!(holder.num_cards_rank(Rank::Ace), 2);
    assert_eq!(holder.num_cards_rank(Rank::Queen), 0);
    assert_eq!(holder.num_cards_suit(Suit::Clubs), 2);
    assert_eq!(holder.num_cards_suit(Suit::Spades), 1);
    assert_eq!(holder.num_cards_suit(Suit::Hearts), 3);
    assert_eq!(holder.num_cards_suit(Suit::Diamonds), 1);
    assert_eq!(holder.num_cards_all_suits(), (2, 1, 3, 1));
    assert_eq!(holder.cards_total_points(), 6 + 11 + 10 + 4 + 11);
}

#[test]
fn holds_card_looks_at_suit_and_rank() {
    let holder = hand("KB PA H7");
    assert!(holder.holds_card(Suit::Clubs, Rank::Jack));
    assert!(holder.holds_card(Suit::Spades, Rank::Ace));
    assert!(holder.holds_card(Suit::Hearts, Rank::Seven));
    assert!(!holder.holds_card(Suit::Clubs, Rank::Ace));
    assert!(!holder.holds_card(Suit::Spades, Rank::Jack));
    assert!(!holder.holds_card(Suit::Diamonds, Rank::Seven));
}

#[test]
fn total_points_of_all_cards() {
    let names = "K7 K8 K9 KB KD KK KZ KA P7 P8 P9 PB PD PK PZ PA H7 H8 H9 HB HD HK HZ HA C7 C8 \
                 C9 CB CD CK CZ CA";
    assert_eq!(hand(names).cards_total_points(), 120);
    assert_eq!(hand("KB PB HB CB").cards_total_points(), 8);
}

#[test]
fn shown_trump_suit_is_the_longest() {
    assert_eq!(hand("KB K7 P7 P8 H9").trump_suit_cards(), (Suit::Spades, 2, 0));
    assert_eq!(hand("CA CZ C7 KB HA").trump_suit_cards(), (Suit::Diamonds, 3, 21));
    // Jacks count for no suit.
    assert_eq!(hand("KB PB HB CB H7").trump_suit_cards(), (Suit::Hearts, 1, 0));
}

#[test]
fn shown_trump_suit_of_equal_length_has_more_points() {
    assert_eq!(hand("K7 K8 PD P9 HA H7 CZ").trump_suit_cards(), (Suit::Hearts, 2, 11));
    assert_eq!(hand("KK K8 PD P9").trump_suit_cards(), (Suit::Clubs, 2, 4));
    // Level in length and points: the first suit.
    assert_eq!(hand("P7 P8 C9 C8").trump_suit_cards(), (Suit::Spades, 2, 0));
    assert_eq!(hand("CK HK").trump_suit_cards(), (Suit::Hearts, 1, 4));
}

#[test]
fn hand_with_skat_holds_both() {
    let player = hand("KB PB K7");
    let skat = hand("HB CA");
    let mut both = CardHolder::new_with_skat(&player, &skat);
    assert_eq!(both.cards_to_string(), "KB, PB, K7, HB, CA");
    assert_eq!(both.to_string(), "Hand: [KB, PB, K7, HB, CA]");
    assert_eq!(both.num_jacks(), 3);
    assert_eq!(both.reiz_factor(), 3);
    assert_eq!(both.reizen_current, 0);
    assert_eq!(*both.game_type(), GameType::NoGame);
    assert_eq!(both.reizen_max(), 0);
    assert_eq!(player.cards().len(), 3);
    assert_eq!(skat.cards().len(), 2);
}

#[test]
fn sorted_hand_is_in_display_order() {
    let mut holder = hand("H7 CA KB C7 PZ HB KA K9 PD CB KD PB HA KZ");
    holder.sort_cards();
    assert_eq!(
        holder.cards_to_string(),
        "KB, PB, HB, CB, KA, KZ, KD, K9, PZ, PD, HA, H7, CA, C7"
    );
}

#[test]
fn sorted_suit_runs_from_the_ace_down() {
    let mut holder = hand("P7 P8 P9 PD PK PZ PA PB");
    holder.sort_cards();
    assert_eq!(holder.cards_to_string(), "PB, PA, PZ, PK, PD, P9, P8, P7");
}

#[test]
fn sorting_keeps_what_was_worked_out() {
    let mut holder = hand("K7 PB H8 H7 HD HB HK H9");
    assert_eq!(holder.reizen_max(), 20);
    holder.reizen_current = 18;
    holder.sort_cards();
    assert_eq!(holder.cards_to_string(), "PB, HB, K7, HK, HD, H9, H8, H7");
    assert_eq!(holder.reizen_current, 18);
    assert_eq!(*holder.game_type(), GameType::Hearts);
    assert_eq!(holder.reizen_max(), 20);
    assert_eq!(holder.num_jacks(), 2);
}

#[test]
fn sorting_keeps_equal_cards() {
    let mut holder = hand("H7 KB H7 KB CA");
    holder.sort_cards();
    assert_eq!(holder.cards_to_string(), "KB, KB, H7, H7, CA");
}

#[test]
fn jacks_of_a_hand() {
    let holder = hand("KB HB K7 PA");
    assert!(holder.has_jack(Suit::Clubs));
    assert!(!holder.has_jack(Suit::Spades));
    assert!(holder.has_jack(Suit::Hearts));
    assert!(!holder.has_jack(Suit::Diamonds));
}

#[test]
fn points_of_the_suits_leave_the_jacks_out() {
    let holder = hand("KB PB K7 KA P8 HZ HK HA CB C9 CD");
    assert_eq!(holder.points_all_suits(), (11, 0, 25, 3));
    assert_eq!(hand("KB PB HB CB").points_all_suits(), (0, 0, 0, 0));
}
