//! A seated player.

use crate::card::Card;
use crate::model::PlayerView;
use vstd::prelude::*;

verus! {

/// A player of the match: an identifier, the cards in hand, the prediction
/// of the current round and the tricks won in it.
#[derive(Debug)]
pub struct Player {
    pub id: String,
    pub hand: Vec<Card>,
    pub prediction: Option<u8>,
    pub tricks_won: u8,
}

impl View for Player {
    type V = PlayerView;

    open spec fn view(&self) -> PlayerView {
        PlayerView {
            id: self.id@,
            hand: self.hand@,
            prediction: self.prediction,
            tricks_won: self.tricks_won as nat,
        }
    }
}

impl Player {
    /// A player with an empty hand, no prediction and no trick.
    pub fn new(id: String) -> (player: Player)
        ensures
            player@ == PlayerView::fresh(id@),
    {
        Player { id, hand: Vec::new(), prediction: None, tricks_won: 0 }
    }
}

} // verus!
