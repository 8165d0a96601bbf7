//! A single deal of the card game Skat: the cards, the hands of the three
//! players and the Skat, and the highest value each hand may bid.

pub mod bidding;
pub mod card;
pub mod cardholder;
pub mod deck;
pub mod game;
pub mod hand;
pub mod order;
