//! The playing [`Card`], its [`Suit`] and its [`Rank`].

use vstd::prelude::*;
use vstd::string::*;

verus! {

broadcast use vstd::string::group_string_axioms;

/// The four colours of the game, in bidding order from the highest.
#[derive(Debug, Clone, Copy, PartialEq, Eq, Hash, Structural)]
pub enum Suit {
    Clubs,
    Spades,
    Hearts,
    Diamonds,
}

/// What `Suit::try_from` answers to a character that names no suit.
pub const UNKNOWN_SUIT_SYMBOL: &'static str =
    "Unknown symbol: use K = Club, P = Spades, H = Hearts, C = Diamonds";

impl Suit {
    /// Position of the suit in the fixed order Clubs, Spades, Hearts, Diamonds.
    pub open spec fn index(self) -> int {
        match self {
            Suit::Clubs => 0,
            Suit::Spades => 1,
            Suit::Hearts => 2,
            Suit::Diamonds => 3,
        }
    }

    /// The suit at a position of the fixed order; Diamonds past its end.
    pub open spec fn at(index: int) -> Suit {
        if index == 0 {
            Suit::Clubs
        } else if index == 1 {
            Suit::Spades
        } else if index == 2 {
            Suit::Hearts
        } else {
            Suit::Diamonds
        }
    }

    /// Base value of a suit game with this suit as trump: 12, 11, 10, 9.
    pub open spec fn weight(self) -> int {
        12 - self.index()
    }

    /// The English name of the suit.
    pub open spec fn name_text(self) -> Seq<char> {
        match self {
            Suit::Clubs => "Clubs"@,
            Suit::Spades => "Spades"@,
            Suit::Hearts => "Hearts"@,
            Suit::Diamonds => "Diamonds"@,
        }
    }

    /// The letter that stands for the suit in a card's two-letter name.
    pub open spec fn symbol(self) -> char {
        match self {
            Suit::Clubs => 'K',
            Suit::Spades => 'P',
            Suit::Hearts => 'H',
            Suit::Diamonds => 'C',
        }
    }

    /// Base value of a suit game with this suit as trump.
    pub fn suit_reiz_factor(&self) -> (factor: i16)
        ensures
            factor == self.weight(),
    {
        match self {
            Suit::Clubs => 12,
            Suit::Spades => 11,
            Suit::Hearts => 10,
            Suit::Diamonds => 9,
        }
    }

    pub fn suit_name(&self) -> (name: String)
        ensures
            name@ == self.name_text(),
    {
        match self {
            Suit::Clubs => "Clubs".to_string(),
            Suit::Spades => "Spades".to_string(),
            Suit::Hearts => "Hearts".to_string(),
            Suit::Diamonds => "Diamonds".to_string(),
        }
    }

    /// The suit at position `value` of the fixed order.
    pub fn from_usize(value: usize) -> (suit: Suit)
        requires
            value < 4,
        ensures
            suit == Suit::at(value as int),
            suit.index() == value,
    {
        match value {
            0 => Suit::Clubs,
            1 => Suit::Spades,
            2 => Suit::Hearts,
            _ => Suit::Diamonds,
        }
    }

    /// Position of the suit in the fixed order, for indexing per-suit tables.
    pub fn to_usize(&self) -> (value: usize)
        ensures
            value == self.index(),
    {
        match self {
            Suit::Clubs => 0,
            Suit::Spades => 1,
            Suit::Hearts => 2,
            Suit::Diamonds => 3,
        }
    }

    /// The suit's letter as a one-character string.
    pub fn symbol_str(&self) -> (text: &'static str)
        ensures
            text@ == seq![self.symbol()],
    {
        proof {
            reveal_strlit("K");
            reveal_strlit("P");
            reveal_strlit("H");
            reveal_strlit("C");
        }
        match self {
            Suit::Clubs => "K",
            Suit::Spades => "P",
            Suit::Hearts => "H",
            Suit::Diamonds => "C",
        }
    }

    /// The suit as it is displayed: its letter.
    pub fn to_string(&self) -> (text: String)
        ensures
            text@ == seq![self.symbol()],
    {
        self.symbol_str().to_string()
    }
}

/// The suit that a letter names: `K`, `P`, `H` and `C` for Clubs, Spades,
/// Hearts and Diamonds.
pub open spec fn suit_of_symbol(symbol: char) -> Option<Suit> {
    if symbol == 'K' {
        Some(Suit::Clubs)
    } else if symbol == 'P' {
        Some(Suit::Spades)
    } else if symbol == 'H' {
        Some(Suit::Hearts)
    } else if symbol == 'C' {
        Some(Suit::Diamonds)
    } else {
        None
    }
}

impl TryFrom<char> for Suit {
    type Error = String;

    fn try_from(suit_char: char) -> (parsed: Result<Self, String>)
        ensures
            match suit_of_symbol(suit_char) {
                Some(suit) => parsed == Ok::<Suit, String>(suit),
                None => parsed is Err && parsed->Err_0@ == UNKNOWN_SUIT_SYMBOL@,
            },
    {
        match suit_char {
            'K' => Ok(Self::Clubs),
            'P' => Ok(Self::Spades),
            'H' => Ok(Self::Hearts),
            'C' => Ok(Self::Diamonds),
            _ => Err(UNKNOWN_SUIT_SYMBOL.to_string()),
        }
    }
}

impl vstd::std_specs::convert::TryFromSpecImpl<char> for Suit {
    /// The error is a `String`, of which a specification can only state the
    /// text: the contract stands on `try_from` itself.
    open spec fn obeys_try_from_spec() -> bool {
        false
    }

    open spec fn try_from_spec(suit_char: char) -> Result<Self, String> {
        match suit_of_symbol(suit_char) {
            Some(suit) => Ok(suit),
            None => Err(arbitrary()),
        }
    }
}

/// The eight ranks of a suit, from the lowest.
#[derive(Debug, Clone, Copy, PartialEq, Eq, Hash, Structural)]
pub enum Rank {
    Seven,
    Eight,
    Nine,
    Jack,
    Queen,
    King,
    Ten,
    Ace,
}

/// What `Rank::try_from` answers to a character that names no rank.
pub const UNKNOWN_RANK_SYMBOL: &'static str =
    "Unknown symbol: use 7,8,9, Z/T = ten, B/J = Jack, D/Q = Queen, K = King, A = Ace";

impl Rank {
    /// Position of the rank in the order Seven, Eight, Nine, Jack, Queen,
    /// King, Ten, Ace.
    pub open spec fn index(self) -> int {
        match self {
            Rank::Seven => 0,
            Rank::Eight => 1,
            Rank::Nine => 2,
            Rank::Jack => 3,
            Rank::Queen => 4,
            Rank::King => 5,
            Rank::Ten => 6,
            Rank::Ace => 7,
        }
    }

    /// The rank at a position of that order; Ace past its end.
    pub open spec fn at(index: int) -> Rank {
        if index == 0 {
            Rank::Seven
        } else if index == 1 {
            Rank::Eight
        } else if index == 2 {
            Rank::Nine
        } else if index == 3 {
            Rank::Jack
        } else if index == 4 {
            Rank::Queen
        } else if index == 5 {
            Rank::King
        } else if index == 6 {
            Rank::Ten
        } else {
            Rank::Ace
        }
    }

    /// Card points of the rank when the tricks are counted.
    pub open spec fn spec_points(&self) -> u16 {
        match self {
            Rank::Seven => 0,
            Rank::Eight => 0,
            Rank::Nine => 0,
            Rank::Jack => 2,
            Rank::Queen => 3,
            Rank::King => 4,
            Rank::Ten => 10,
            Rank::Ace => 11,
        }
    }

    /// The letter or digit that stands for the rank in a card's name.
    pub open spec fn symbol(self) -> char {
        match self {
            Rank::Seven => '7',
            Rank::Eight => '8',
            Rank::Nine => '9',
            Rank::Jack => 'B',
            Rank::Queen => 'D',
            Rank::King => 'K',
            Rank::Ten => 'Z',
            Rank::Ace => 'A',
        }
    }

    /// Points when counting the results of the game.
    #[verifier::when_used_as_spec(spec_points)]
    pub fn points(&self) -> (points: u16)
        ensures
            points == self.spec_points(),
    {
        match self {
            Self::Seven => 0,
            Self::Eight => 0,
            Self::Nine => 0,
            Self::Jack => 2,
            Self::Queen => 3,
            Self::King => 4,
            Self::Ten => 10,
            Self::Ace => 11,
        }
    }

    /// The rank's symbol as a one-character string.
    pub fn symbol_str(&self) -> (text: &'static str)
        ensures
            text@ == seq![self.symbol()],
    {
        proof {
            reveal_strlit("7");
            reveal_strlit("8");
            reveal_strlit("9");
            reveal_strlit("B");
            reveal_strlit("D");
            reveal_strlit("K");
            reveal_strlit("Z");
            reveal_strlit("A");
        }
        match self {
            Self::Seven => "7",
            Self::Eight => "8",
            Self::Nine => "9",
            Self::Jack => "B",
            Self::Queen => "D",
            Self::King => "K",
            Self::Ten => "Z",
            Self::Ace => "A",
        }
    }

    /// The rank as it is displayed: its symbol.
    pub fn to_string(&self) -> (text: String)
        ensures
            text@ == seq![self.symbol()],
    {
        self.symbol_str().to_string()
    }
}

/// The rank that a symbol names. Jack, Queen and Ten each have a German and
/// an English letter: `B`/`J`, `D`/`Q`, `Z`/`T`.
pub open spec fn rank_of_symbol(symbol: char) -> Option<Rank> {
    if symbol == '7' {
        Some(Rank::Seven)
    } else if symbol == '8' {
        Some(Rank::Eight)
    } else if symbol == '9' {
        Some(Rank::Nine)
    } else if symbol == 'B' || symbol == 'J' {
        Some(Rank::Jack)
    } else if symbol == 'D' || symbol == 'Q' {
        Some(Rank::Queen)
    } else if symbol == 'K' {
        Some(Rank::King)
    } else if symbol == 'Z' || symbol == 'T' {
        Some(Rank::Ten)
    } else if symbol == 'A' {
        Some(Rank::Ace)
    } else {
        None
    }
}

impl TryFrom<char> for Rank {
    type Error = String;

    fn try_from(rank_char: char) -> (parsed: Result<Self, String>)
        ensures
            match rank_of_symbol(rank_char) {
                Some(rank) => parsed == Ok::<Rank, String>(rank),
                None => parsed is Err && parsed->Err_0@ == UNKNOWN_RANK_SYMBOL@,
            },
    {
        match rank_char {
            '7' => Ok(Self::Seven),
            '8' => Ok(Self::Eight),
            '9' => Ok(Self::Nine),
            'B' => Ok(Self::Jack),
            'J' => Ok(Self::Jack),
            'D' => Ok(Self::Queen),
            'Q' => Ok(Self::Queen),
            'K' => Ok(Self::King),
            'Z' => Ok(Self::Ten),
            'T' => Ok(Self::Ten),
            'A' => Ok(Self::Ace),
            _ => Err(UNKNOWN_RANK_SYMBOL.to_string()),
        }
    }
}

impl vstd::std_specs::convert::TryFromSpecImpl<char> for Rank {
    /// The error is a `String`, of which a specification can only state the
    /// text: the contract stands on `try_from` itself.
    open spec fn obeys_try_from_spec() -> bool {
        false
    }

    open spec fn try_from_spec(rank_char: char) -> Result<Self, String> {
        match rank_of_symbol(rank_char) {
            Some(rank) => Ok(rank),
            None => Err(arbitrary()),
        }
    }
}

/// Single card of the game: a suit and a rank. Its points follow from the rank.
#[derive(Debug, Clone, Copy, PartialEq, Eq, Hash, Structural)]
pub struct Card {
    pub suit: Suit,
    pub rank: Rank,
}

/// What `Card::try_from` answers to a name that is not two bytes long.
pub const NEED_TWO_SYMBOLS: &'static str = "Need two symbols";

impl Card {
    /// Card points of the card, those of its rank.
    pub open spec fn spec_points(&self) -> usize {
        self.rank.spec_points() as usize
    }

    /// Whether the card is a Jack: a trump in every suit game.
    pub open spec fn is_jack(self) -> bool {
        self.rank == Rank::Jack
    }

    /// Whether the card counts as a plain card of `suit`: of that suit, and no Jack.
    pub open spec fn is_plain_of(self, suit: Suit) -> bool {
        self.rank != Rank::Jack && self.suit == suit
    }

    /// The two characters that name the card: suit first, then rank.
    pub open spec fn text(self) -> Seq<char> {
        seq![self.suit.symbol(), self.rank.symbol()]
    }

    pub fn new(suit: Suit, rank: Rank) -> (card: Card)
        ensures
            card == (Card { suit, rank }),
    {
        Card { suit, rank }
    }

    /// High Cards: Jack, Ace, Ten, King.
    /// Low Cards: Queen, Nine, Eight, Seven.
    pub fn is_high_card(&self) -> (high: bool)
        ensures
            high <==> self.rank == Rank::Jack || self.rank == Rank::King || self.rank == Rank::Ten
                || self.rank == Rank::Ace,
    {
        match self.rank {
            Rank::Seven => false,
            Rank::Eight => false,
            Rank::Nine => false,
            Rank::Jack => true,
            Rank::Queen => false,
            Rank::King => true,
            Rank::Ten => true,
            Rank::Ace => true,
        }
    }

    pub fn suit(&self) -> (suit: Suit)
        ensures
            suit == self.suit,
    {
        self.suit
    }

    /// Returns a value between 0 and 3 (0 = Clubs, 1 = Spades, 2 = Hearts, 3 = Diamonds).
    pub fn suit_value(&self) -> (value: usize)
        ensures
            value == self.suit.index(),
    {
        self.suit.to_usize()
    }

    pub fn rank(&self) -> (rank: Rank)
        ensures
            rank == self.rank,
    {
        self.rank
    }

    #[verifier::when_used_as_spec(spec_points)]
    pub fn points(&self) -> (points: usize)
        ensures
            points == self.spec_points(),
    {
        self.rank.points() as usize
    }

    /// The card as it is displayed: the suit's letter, then the rank's symbol.
    pub fn to_string(&self) -> (text: String)
        ensures
            text@ == self.text(),
    {
        let mut text = self.suit.symbol_str().to_string();
        text.append(self.rank.symbol_str());
        text
    }
}

/// The text that shows a row of cards: their names, with a comma and a
/// blank between one and the next.
pub open spec fn cards_text(cards: Seq<Card>) -> Seq<char>
    decreases cards.len(),
{
    if cards.len() == 0 {
        Seq::empty()
    } else if cards.len() == 1 {
        cards[0].text()
    } else {
        cards_text(cards.drop_last()) + ", "@ + cards.last().text()
    }
}

/// The cards that a row of names stands for, or the text of the error for
/// the first name that stands for none.
pub open spec fn cards_of_names(names: Seq<&str>) -> Result<Seq<Card>, Seq<char>>
    decreases names.len(),
{
    if names.len() == 0 {
        Ok(Seq::empty())
    } else {
        match cards_of_names(names.drop_last()) {
            Err(message) => Err(message),
            Ok(cards) => match card_of_name(names.last().spec_bytes()) {
                Err(message) => Err(message),
                Ok(card) => Ok(cards.push(card)),
            },
        }
    }
}

/// The card that a name of two bytes stands for, or the text of the error:
/// the first byte names the suit, the second the rank.
pub open spec fn card_of_name(name: Seq<u8>) -> Result<Card, Seq<char>> {
    if name.len() != 2 {
        Err(NEED_TWO_SYMBOLS@)
    } else {
        match suit_of_symbol(name[0] as char) {
            None => Err(UNKNOWN_SUIT_SYMBOL@),
            Some(suit) => match rank_of_symbol(name[1] as char) {
                None => Err(UNKNOWN_RANK_SYMBOL@),
                Some(rank) => Ok(Card { suit, rank }),
            },
        }
    }
}

/// Allows input like "KB" for the Jack of Clubs.
impl TryFrom<&str> for Card {
    type Error = String;

    fn try_from(card_named: &str) -> (parsed: Result<Self, String>)
        ensures
            match card_of_name(card_named.spec_bytes()) {
                Ok(card) => parsed == Ok::<Card, String>(card),
                Err(message) => parsed is Err && parsed->Err_0@ == message,
            },
    {
        if card_named.len() != 2 {
            return Err(NEED_TWO_SYMBOLS.to_string());
        }
        let bytes = card_named.as_bytes();
        let suit = match Suit::try_from(bytes[0] as char) {
            Ok(suit) => suit,
            Err(message) => { return Err(message); },
        };
        let rank = match Rank::try_from(bytes[1] as char) {
            Ok(rank) => rank,
            Err(message) => { return Err(message); },
        };
        Ok(Card::new(suit, rank))
    }
}

impl vstd::std_specs::convert::TryFromSpecImpl<&str> for Card {
    /// The error is a `String`, of which a specification can only state the
    /// text: the contract stands on `try_from` itself.
    open spec fn obeys_try_from_spec() -> bool {
        false
    }

    open spec fn try_from_spec(card_named: &str) -> Result<Self, String> {
        match card_of_name(card_named.spec_bytes()) {
            Ok(card) => Ok(card),
            Err(_) => Err(arbitrary()),
        }
    }
}

} // verus!
