//! The match as a mathematical value: what each operation of the engine
//! makes of it, when it is refused, and the invariant that every operation
//! keeps.

use crate::card::{Card, Suit};
use crate::deck::{dealt_hand, hand_size, is_complete_deck, undealt};
use crate::error::GameError;
use crate::sums::total;
use vstd::prelude::*;

verus! {

/// A seated player.
pub struct PlayerView {
    pub id: Seq<char>,
    pub hand: Seq<Card>,
    pub prediction: Option<u8>,
    pub tricks_won: nat,
}

/// A card on the table with the identifier of the player who played it.
pub type PlayView = (Seq<char>, Card);

/// The match.
pub struct GameView {
    /// The players in seating order.
    pub players: Seq<PlayerView>,
    /// The current round, counted from 1.
    pub round_number: nat,
    /// The size of the hands of the first round.
    pub starting_cards: nat,
    /// The cards that were not dealt.
    pub deck: Seq<Card>,
    /// The trick in progress, in the order of play.
    pub trick: Seq<PlayView>,
    /// The suit of the first card of the trick in progress.
    pub leading_suit: Option<Suit>,
    /// Whether the first round has been dealt.
    pub started: bool,
}

/// Where the match stands. Dealing happens within the start of the match
/// and within the step to the next round, so no match is ever seen in it.
/// What an operation accepts depends on whether the match has started,
/// whether it is over and, for the step to the next round, whether the
/// round is; it does not depend on who has declared a prediction.
#[derive(Debug, Clone, Copy, PartialEq, Eq, Hash, Structural)]
pub enum Phase {
    /// Players take their seats; no round has been dealt.
    Forming,
    /// A round is dealt and some player has yet to declare a prediction.
    Predicting,
    /// Every player has declared and cards are still to be played.
    Playing,
    /// Every hand is empty.
    RoundEnd,
    /// The last round has been played. Nothing is accepted any more.
    Finished,
}

impl PlayerView {
    /// A player who has just taken a seat.
    pub open spec fn fresh(id: Seq<char>) -> PlayerView {
        PlayerView { id, hand: Seq::empty(), prediction: None, tricks_won: 0 }
    }

    /// What the player adds to the declared total: the declared number of
    /// tricks, and nothing where none is declared.
    pub open spec fn predicted(self) -> nat {
        match self.prediction {
            Some(value) => value as nat,
            None => 0,
        }
    }

    /// Whether the player declared a prediction and won exactly as many
    /// tricks. A player who declared nothing has not succeeded.
    pub open spec fn succeeded(self) -> bool {
        self.prediction matches Some(value) && value == self.tricks_won
    }
}

/// The suit that leads a trick: that of its first card.
pub open spec fn lead_of(trick: Seq<PlayView>) -> Option<Suit> {
    if trick.len() == 0 {
        None
    } else {
        Some(trick[0].1.suit)
    }
}

/// The place in the trick of the card that wins it. The cards are taken in
/// the order of play; a card takes over only where it wins over the best
/// card before it, so of cards that do not win over each other the one
/// played first stays.
pub open spec fn winning_play(trick: Seq<PlayView>, leading_suit: Suit) -> int
    decreases trick.len(),
{
    if trick.len() <= 1 {
        0
    } else {
        let best = winning_play(trick.drop_last(), leading_suit);
        if trick.last().1.spec_beats_custom(trick[best].1, leading_suit) {
            trick.len() - 1
        } else {
            best
        }
    }
}

/// The trick without the cards of one player.
pub open spec fn without_player(trick: Seq<PlayView>, id: Seq<char>) -> Seq<PlayView>
    decreases trick.len(),
{
    if trick.len() == 0 {
        trick
    } else if trick.last().0 == id {
        without_player(trick.drop_last(), id)
    } else {
        without_player(trick.drop_last(), id).push(trick.last())
    }
}

/// For each player 1 if a prediction is declared, else 0.
pub open spec fn declared_flags(players: Seq<PlayerView>) -> Seq<nat> {
    Seq::new(
        players.len(),
        |i: int|
            if players[i].prediction is Some {
                1nat
            } else {
                0nat
            },
    )
}

/// For each player the declared number of tricks, 0 where none is declared.
pub open spec fn declared_values(players: Seq<PlayerView>) -> Seq<nat> {
    Seq::new(players.len(), |i: int| players[i].predicted())
}

/// For each player the number of tricks won.
pub open spec fn trick_counts(players: Seq<PlayerView>) -> Seq<nat> {
    Seq::new(players.len(), |i: int| players[i].tricks_won)
}

/// For each player the number of cards in hand.
pub open spec fn hand_counts(players: Seq<PlayerView>) -> Seq<nat> {
    Seq::new(players.len(), |i: int| players[i].hand.len())
}

impl GameView {
    /// Whether a player with this identifier is seated.
    pub open spec fn has_player(self, id: Seq<char>) -> bool {
        exists|i: int| 0 <= i < self.players.len() && (#[trigger] self.players[i]).id == id
    }

    /// The seat of the player with this identifier.
    pub open spec fn seat(self, id: Seq<char>) -> int {
        choose|i: int| 0 <= i < self.players.len() && (#[trigger] self.players[i]).id == id
    }

    /// Whether the last round has been played.
    pub open spec fn is_over(self) -> bool {
        self.round_number > self.starting_cards
    }

    /// Whether every hand is empty.
    pub open spec fn round_over(self) -> bool {
        forall|i: int| 0 <= i < self.players.len() ==> (#[trigger] self.players[i]).hand.len() == 0
    }

    /// The number of players who have declared a prediction.
    pub open spec fn declared_count(self) -> nat {
        total(declared_flags(self.players))
    }

    /// The sum of the declared predictions.
    pub open spec fn declared_sum(self) -> nat {
        total(declared_values(self.players))
    }

    /// The number of tricks won in this round.
    pub open spec fn total_tricks(self) -> nat {
        total(trick_counts(self.players))
    }

    /// The number of cards in the players' hands.
    pub open spec fn cards_in_hands(self) -> nat {
        total(hand_counts(self.players))
    }

    /// The size of the hands that this round is dealt with.
    pub open spec fn round_hand_size(self) -> int {
        hand_size(self.starting_cards as int, self.round_number as int)
    }

    /// Where the match stands.
    pub open spec fn phase(self) -> Phase {
        if self.is_over() {
            Phase::Finished
        } else if !self.started {
            Phase::Forming
        } else if self.round_over() {
            Phase::RoundEnd
        } else if self.declared_count() < self.players.len() {
            Phase::Predicting
        } else {
            Phase::Playing
        }
    }

    /// Whether player `i` holds a card at place `a` of the hand.
    pub open spec fn holds(self, i: int, a: int) -> bool {
        0 <= i < self.players.len() && 0 <= a < self.players[i].hand.len()
    }

    /// Whether some player holds the card.
    pub open spec fn in_hands(self, card: Card) -> bool {
        exists|i: int, a: int| self.holds(i, a) && #[trigger] self.players[i].hand[a] == card
    }

    /// Whether the card lies on the table.
    pub open spec fn on_table(self, card: Card) -> bool {
        exists|k: int| 0 <= k < self.trick.len() && (#[trigger] self.trick[k]).1 == card
    }

    /// No two seated players share an identifier.
    pub open spec fn ids_unique(self) -> bool {
        forall|i: int, j: int|
            0 <= i < self.players.len() && 0 <= j < self.players.len() && i != j ==> (
            #[trigger] self.players[i]).id != (#[trigger] self.players[j]).id
    }

    /// Every card on the table was played by a seated player.
    pub open spec fn trick_seated(self) -> bool {
        forall|k: int| 0 <= k < self.trick.len() ==> self.has_player((#[trigger] self.trick[k]).0)
    }

    /// No card is in two places: the hands, the trick and the deck hold
    /// cards that all differ.
    pub open spec fn cards_distinct(self) -> bool {
        &&& forall|i: int, a: int, j: int, b: int|
            #![trigger self.players[i].hand[a], self.players[j].hand[b]]
            self.holds(i, a) && self.holds(j, b) && (i != j || a != b) ==> self.players[i].hand[a]
                != self.players[j].hand[b]
        &&& forall|i: int, a: int, k: int|
            #![trigger self.players[i].hand[a], self.trick[k]]
            self.holds(i, a) && 0 <= k < self.trick.len() ==> self.players[i].hand[a]
                != self.trick[k].1
        &&& forall|k: int, l: int|
            #![trigger self.trick[k], self.trick[l]]
            0 <= k < self.trick.len() && 0 <= l < self.trick.len() && k != l ==> self.trick[k].1
                != self.trick[l].1
        &&& forall|i: int, a: int, d: int|
            #![trigger self.players[i].hand[a], self.deck[d]]
            self.holds(i, a) && 0 <= d < self.deck.len() ==> self.players[i].hand[a]
                != self.deck[d]
        &&& forall|k: int, d: int|
            #![trigger self.trick[k], self.deck[d]]
            0 <= k < self.trick.len() && 0 <= d < self.deck.len() ==> self.trick[k].1
                != self.deck[d]
        &&& self.deck.no_duplicates()
    }

    /// The invariant of the match.
    pub open spec fn wf(self) -> bool {
        &&& self.ids_unique()
        &&& self.leading_suit == lead_of(self.trick)
        &&& 1 <= self.round_number <= self.starting_cards + 1
        &&& !self.started ==> self.round_number == 1
        &&& self.started ==> self.starting_cards <= 40 && self.players.len() * self.starting_cards
            <= 40
        &&& self.trick_seated()
        &&& self.cards_distinct()
        &&& self.total_tricks() + self.cards_in_hands() + self.trick.len() + self.deck.len() <= 40
        &&& !self.started || self.is_over() ==> self.trick.len() == 0 && self.round_over()
    }

    // Taking a seat

    /// Why a player cannot take a seat, if so.
    pub open spec fn join_error(self, id: Seq<char>) -> Option<GameError> {
        if self.is_over() {
            Some(GameError::MatchAlreadyOver)
        } else if self.started {
            Some(GameError::MatchAlreadyStarted)
        } else if self.has_player(id) {
            Some(GameError::DuplicatePlayer)
        } else {
            None
        }
    }

    /// The match after a player has taken the last seat.
    pub open spec fn joined(self, id: Seq<char>) -> GameView {
        GameView { players: self.players.push(PlayerView::fresh(id)), ..self }
    }

    // Leaving

    /// Why a player cannot ask to leave, if so.
    pub open spec fn leave_error(self, id: Seq<char>) -> Option<GameError> {
        if self.is_over() {
            Some(GameError::MatchAlreadyOver)
        } else {
            None
        }
    }

    /// The match without a player: the seat is gone and so are the cards
    /// that the player had on the table. Without such a player the match
    /// stays as it is.
    pub open spec fn left(self, id: Seq<char>) -> GameView {
        if self.has_player(id) {
            let trick = without_player(self.trick, id);
            GameView {
                players: self.players.remove(self.seat(id)),
                trick,
                leading_suit: lead_of(trick),
                ..self
            }
        } else {
            self
        }
    }

    // Dealing

    /// The match after `deck` has been dealt for round `round_number`: each
    /// player holds a new hand, no prediction and no trick, and the table is
    /// empty.
    pub open spec fn dealt(self, deck: Seq<Card>, round_number: nat) -> GameView {
        let size = hand_size(self.starting_cards as int, round_number as int);
        let seats = self.players.len() as int;
        GameView {
            players: Seq::new(
                self.players.len(),
                |i: int|
                    PlayerView {
                        id: self.players[i].id,
                        hand: dealt_hand(deck, seats, size, i),
                        prediction: None,
                        tricks_won: 0,
                    },
            ),
            round_number,
            starting_cards: self.starting_cards,
            deck: undealt(deck, seats, size),
            trick: Seq::empty(),
            leading_suit: None,
            started: true,
        }
    }

    /// Why the current round cannot be dealt again from the match's own
    /// deck, if so.
    pub open spec fn redeal_error(self) -> Option<GameError> {
        if !self.started {
            Some(GameError::MatchNotStarted)
        } else if self.is_over() {
            Some(GameError::MatchAlreadyOver)
        } else if self.deck.len() < self.players.len() * self.round_hand_size() {
            Some(GameError::NotEnoughCards)
        } else {
            None
        }
    }

    /// The match after the current round has been dealt again from the
    /// match's own deck.
    pub open spec fn redealt(self) -> GameView {
        self.dealt(self.deck, self.round_number)
    }

    /// Why the match cannot start with `deck`, if so.
    pub open spec fn start_error(self, deck: Seq<Card>) -> Option<GameError> {
        if self.is_over() {
            Some(GameError::MatchAlreadyOver)
        } else if self.started {
            Some(GameError::MatchAlreadyStarted)
        } else if self.players.len() == 0 {
            Some(GameError::NoPlayers)
        } else if !is_complete_deck(deck) {
            Some(GameError::InvalidDeck)
        } else if deck.len() < self.players.len() * self.starting_cards {
            Some(GameError::NotEnoughCards)
        } else {
            None
        }
    }

    /// The match after its start with `deck`: the first round is dealt.
    pub open spec fn started_with(self, deck: Seq<Card>) -> GameView {
        self.dealt(deck, 1)
    }

    /// Whether the current round is the last one of the match.
    pub open spec fn is_last_round(self) -> bool {
        self.round_number >= self.starting_cards
    }

    /// Why the match cannot go on to the next round with `deck`, if so. The
    /// deck counts only where a round follows that is dealt from it.
    pub open spec fn advance_error(self, deck: Seq<Card>) -> Option<GameError> {
        if !self.started {
            Some(GameError::MatchNotStarted)
        } else if self.is_over() {
            Some(GameError::MatchAlreadyOver)
        } else if !self.round_over() {
            Some(GameError::RoundNotOver)
        } else if !self.is_last_round() && !is_complete_deck(deck) {
            Some(GameError::InvalidDeck)
        } else {
            None
        }
    }

    /// The match after its end: the round number has passed
    /// `starting_cards` and the table is empty. Nothing is dealt, and the
    /// players keep their predictions and their tricks.
    pub open spec fn ended(self) -> GameView {
        GameView {
            round_number: self.round_number + 1,
            trick: Seq::empty(),
            leading_suit: None,
            ..self
        }
    }

    /// The match after the step to the next round with `deck`: after the
    /// last round the match has ended, after any other the next round is
    /// dealt.
    pub open spec fn advanced_with(self, deck: Seq<Card>) -> GameView {
        if self.is_last_round() {
            self.ended()
        } else {
            self.dealt(deck, self.round_number + 1)
        }
    }

    // Predicting

    /// Whether `value` is the one prediction that is closed to the last
    /// player to declare: the one that brings the declared total to the
    /// number of cards in that player's hand.
    pub open spec fn closes_total(self, id: Seq<char>, value: u8) -> bool {
        &&& self.declared_count() + 1 == self.players.len()
        &&& self.declared_sum() + value == self.players[self.seat(id)].hand.len()
    }

    /// Why a prediction cannot be declared, if so.
    pub open spec fn predict_error(self, id: Seq<char>, value: u8) -> Option<GameError> {
        if !self.started {
            Some(GameError::MatchNotStarted)
        } else if self.is_over() {
            Some(GameError::MatchAlreadyOver)
        } else if !self.has_player(id) {
            Some(GameError::UnknownPlayer)
        } else if self.closes_total(id, value) {
            Some(GameError::InvalidPrediction)
        } else {
            None
        }
    }

    /// The match after a player has declared a prediction.
    pub open spec fn predicted(self, id: Seq<char>, value: u8) -> GameView {
        let seat = self.seat(id);
        GameView {
            players: self.players.update(
                seat,
                PlayerView { prediction: Some(value), ..self.players[seat] },
            ),
            ..self
        }
    }

    // Playing

    /// Why a card cannot be played, if so.
    pub open spec fn play_error(self, id: Seq<char>, card: Card) -> Option<GameError> {
        if !self.started {
            Some(GameError::MatchNotStarted)
        } else if self.is_over() {
            Some(GameError::MatchAlreadyOver)
        } else if !self.has_player(id) {
            Some(GameError::UnknownPlayer)
        } else if !self.players[self.seat(id)].hand.contains(card) {
            Some(GameError::CardNotInHand)
        } else {
            None
        }
    }

    /// The match after a player has played a card: it has left the hand and
    /// lies last on the table, and it leads the trick if it is the first.
    pub open spec fn played(self, id: Seq<char>, card: Card) -> GameView {
        let seat = self.seat(id);
        let hand = self.players[seat].hand;
        let trick = self.trick.push((id, card));
        GameView {
            players: self.players.update(
                seat,
                PlayerView { hand: hand.remove(hand.index_of(card)), ..self.players[seat] },
            ),
            trick,
            leading_suit: lead_of(trick),
            ..self
        }
    }

    // Resolving

    /// The identifier of the player who wins the trick on the table.
    pub open spec fn trick_winner(self) -> Seq<char> {
        self.trick[winning_play(self.trick, self.trick[0].1.suit)].0
    }

    /// The match after the trick on the table has been resolved: its winner
    /// has one trick more and the table is empty. With an empty table the
    /// match stays as it is.
    pub open spec fn resolved(self) -> GameView {
        if self.trick.len() == 0 {
            self
        } else {
            let seat = self.seat(self.trick_winner());
            GameView {
                players: self.players.update(
                    seat,
                    PlayerView {
                        tricks_won: self.players[seat].tricks_won + 1,
                        ..self.players[seat]
                    },
                ),
                trick: Seq::empty(),
                leading_suit: None,
                ..self
            }
        }
    }

    /// For each player, in seating order, the identifier and whether the
    /// prediction came true.
    pub open spec fn round_results(self) -> Seq<(Seq<char>, bool)> {
        Seq::new(self.players.len(), |i: int| (self.players[i].id, self.players[i].succeeded()))
    }
}

} // verus!
