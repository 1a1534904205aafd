//! What the hub takes in and what it sends out: the actions of a player and
//! the events that answer them.

use crate::card::Card;
use crate::error::GameError;
use crate::game::{results_view, trick_view};
use crate::model::PlayView;
use crate::text::str_eq;
use vstd::prelude::*;

verus! {

/// A request of a player, already decoded.
#[derive(Debug, Clone, Copy, PartialEq, Eq, Structural)]
pub enum Action {
    /// Deal the first round.
    StartMatch,
    /// Play a card from the hand.
    PlayCard(Card),
    /// Declare the number of tricks to win in this round.
    MakePrediction(u8),
    /// Resolve the trick on the table.
    EndTrick,
    /// Go on to the next round.
    NextRound,
}

/// What the hub tells the players.
#[derive(Debug, PartialEq, Eq)]
pub enum Event {
    Welcome {
        player_id: String,
        round_number: usize,
        starting_cards: usize,
        hand: Vec<Card>,
        players: Vec<String>,
        turn: Vec<(String, Card)>,
    },
    PlayerJoined { id: String },
    PlayerLeft { id: String },
    GameStarted,
    RoundStarted { round_number: usize, starting_cards: usize },
    CardPlayed { player_id: String, card: Card },
    HandUpdated { player_id: String, hand: Vec<Card> },
    PredictionMade { player_id: String, prediction: u8 },
    TurnEnded { winner_id: String, standings: Vec<(String, u8)> },
    RoundEnded { results: Vec<(String, bool)> },
    GameOver { results: Vec<(String, bool)> },
    Error { error: GameError },
}

/// An event with the players it goes to, as they were seated when the event
/// arose.
#[derive(Debug, PartialEq, Eq)]
pub struct Outgoing {
    pub recipients: Vec<String>,
    pub event: Event,
}

/// An event as a mathematical value.
pub enum EventView {
    Welcome {
        player_id: Seq<char>,
        round_number: nat,
        starting_cards: nat,
        hand: Seq<Card>,
        players: Seq<Seq<char>>,
        turn: Seq<PlayView>,
    },
    PlayerJoined { id: Seq<char> },
    PlayerLeft { id: Seq<char> },
    GameStarted,
    RoundStarted { round_number: nat, starting_cards: nat },
    CardPlayed { player_id: Seq<char>, card: Card },
    HandUpdated { player_id: Seq<char>, hand: Seq<Card> },
    PredictionMade { player_id: Seq<char>, prediction: u8 },
    TurnEnded { winner_id: Seq<char>, standings: Seq<(Seq<char>, nat)> },
    RoundEnded { results: Seq<(Seq<char>, bool)> },
    GameOver { results: Seq<(Seq<char>, bool)> },
    Error { error: GameError },
}

/// An addressed event as a mathematical value.
pub struct OutgoingView {
    pub recipients: Seq<Seq<char>>,
    pub event: EventView,
}

/// A list of identifiers as mathematical values.
pub open spec fn names_view(names: Seq<String>) -> Seq<Seq<char>> {
    Seq::new(names.len(), |i: int| names[i]@)
}

/// A list of standings as mathematical values.
pub open spec fn standings_view(standings: Seq<(String, u8)>) -> Seq<(Seq<char>, nat)> {
    Seq::new(standings.len(), |i: int| (standings[i].0@, standings[i].1 as nat))
}

/// A list of addressed events as mathematical values.
pub open spec fn outgoing_view(outgoing: Seq<Outgoing>) -> Seq<OutgoingView> {
    Seq::new(outgoing.len(), |i: int| outgoing[i]@)
}

impl View for Event {
    type V = EventView;

    open spec fn view(&self) -> EventView {
        match *self {
            Event::Welcome { player_id, round_number, starting_cards, hand, players, turn } => {
                EventView::Welcome {
                    player_id: player_id@,
                    round_number: round_number as nat,
                    starting_cards: starting_cards as nat,
                    hand: hand@,
                    players: names_view(players@),
                    turn: trick_view(turn@),
                }
            },
            Event::PlayerJoined { id } => EventView::PlayerJoined { id: id@ },
            Event::PlayerLeft { id } => EventView::PlayerLeft { id: id@ },
            Event::GameStarted => EventView::GameStarted,
            Event::RoundStarted { round_number, starting_cards } => EventView::RoundStarted {
                round_number: round_number as nat,
                starting_cards: starting_cards as nat,
            },
            Event::CardPlayed { player_id, card } => EventView::CardPlayed {
                player_id: player_id@,
                card,
            },
            Event::HandUpdated { player_id, hand } => EventView::HandUpdated {
                player_id: player_id@,
                hand: hand@,
            },
            Event::PredictionMade { player_id, prediction } => EventView::PredictionMade {
                player_id: player_id@,
                prediction,
            },
            Event::TurnEnded { winner_id, standings } => EventView::TurnEnded {
                winner_id: winner_id@,
                standings: standings_view(standings@),
            },
            Event::RoundEnded { results } => EventView::RoundEnded {
                results: results_view(results@),
            },
            Event::GameOver { results } => EventView::GameOver { results: results_view(results@) },
            Event::Error { error } => EventView::Error { error },
        }
    }
}

impl View for Outgoing {
    type V = OutgoingView;

    open spec fn view(&self) -> OutgoingView {
        OutgoingView { recipients: names_view(self.recipients@), event: self.event@ }
    }
}

impl EventView {
    /// The name under which an event goes over the wire.
    pub open spec fn name(self) -> Seq<char> {
        match self {
            EventView::Welcome { .. } => "welcome"@,
            EventView::PlayerJoined { .. } => "player_joined"@,
            EventView::PlayerLeft { .. } => "player_left"@,
            EventView::GameStarted => "game_started"@,
            EventView::RoundStarted { .. } => "round_started"@,
            EventView::CardPlayed { .. } => "card_played"@,
            EventView::HandUpdated { .. } => "hand_updated"@,
            EventView::PredictionMade { .. } => "prediction_made"@,
            EventView::TurnEnded { .. } => "turn_ended"@,
            EventView::RoundEnded { .. } => "round_ended"@,
            EventView::GameOver { .. } => "game_over"@,
            EventView::Error { .. } => "error"@,
        }
    }
}

impl Event {
    /// The name under which the event goes over the wire.
    pub fn name(&self) -> (name: String)
        ensures
            name@ == self@.name(),
    {
        let name: &str = match self {
            Event::Welcome { .. } => "welcome",
            Event::PlayerJoined { .. } => "player_joined",
            Event::PlayerLeft { .. } => "player_left",
            Event::GameStarted => "game_started",
            Event::RoundStarted { .. } => "round_started",
            Event::CardPlayed { .. } => "card_played",
            Event::HandUpdated { .. } => "hand_updated",
            Event::PredictionMade { .. } => "prediction_made",
            Event::TurnEnded { .. } => "turn_ended",
            Event::RoundEnded { .. } => "round_ended",
            Event::GameOver { .. } => "game_over",
            Event::Error { .. } => "error",
        };
        name.to_owned()
    }
}

/// The action that a request names, if it names one. A card or a
/// prediction that the action does not need is passed over; one that it
/// needs and does not get leaves no action. A prediction counts by its
/// lowest eight bits.
pub open spec fn decoded(name: Seq<char>, card: Option<Card>, prediction: Option<u64>) -> Option<
    Action,
> {
    if name == "start_match"@ {
        Some(Action::StartMatch)
    } else if name == "play_card"@ {
        match card {
            Some(card) => Some(Action::PlayCard(card)),
            None => None,
        }
    } else if name == "make_prediction"@ {
        match prediction {
            Some(value) => Some(Action::MakePrediction((value % 256) as u8)),
            None => None,
        }
    } else if name == "end_trick"@ {
        Some(Action::EndTrick)
    } else if name == "next_round"@ {
        Some(Action::NextRound)
    } else {
        None
    }
}

/// Reads the action out of the parts of a request.
pub fn decode_action(name: &str, card: Option<Card>, prediction: Option<u64>) -> (action: Option<
    Action,
>)
    ensures
        action == decoded(name@, card, prediction),
{
    if str_eq(name, "start_match") {
        Some(Action::StartMatch)
    } else if str_eq(name, "play_card") {
        match card {
            Some(card) => Some(Action::PlayCard(card)),
            None => None,
        }
    } else if str_eq(name, "make_prediction") {
        match prediction {
            Some(value) => Some(Action::MakePrediction((value % 256) as u8)),
            None => None,
        }
    } else if str_eq(name, "end_trick") {
        Some(Action::EndTrick)
    } else if str_eq(name, "next_round") {
        Some(Action::NextRound)
    } else {
        None
    }
}

} // verus!
