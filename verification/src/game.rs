//! The match engine: the one authoritative state of a match and the
//! operations that change it.

use crate::card::{Card, Suit};
use crate::deck::{
    deal_cards, dealt_hand, is_complete, is_complete_deck, undealt, DECK_SIZE,
};
use crate::error::GameError;
use crate::model::{
    declared_flags, declared_values, hand_counts, trick_counts, winning_play, without_player,
    GameView, Phase, PlayView, PlayerView,
};
use crate::player::Player;
use crate::sums::total;
use crate::text::str_eq;
use crate::upkeep::{
    lemma_advanced_wf, lemma_joined_wf, lemma_left_wf, lemma_played_wf, lemma_predicted_wf,
    lemma_redealt_wf, lemma_resolved_wf, lemma_seat, lemma_started_wf, lemma_trick_winner,
};
use vstd::prelude::*;

verus! {

/// The state of a match. It changes only through the operations below,
/// each of which keeps the invariant [`GameView::wf`].
#[derive(Debug)]
pub struct GameState {
    players: Vec<Player>,
    round_number: usize,
    starting_cards: usize,
    deck: Vec<Card>,
    current_turn_cards: Vec<(String, Card)>,
    leading_suit: Option<Suit>,
    started: bool,
}

/// The players of a list as mathematical values.
pub open spec fn players_view(players: Seq<Player>) -> Seq<PlayerView> {
    Seq::new(players.len(), |i: int| players[i]@)
}

/// The cards on the table as mathematical values.
pub open spec fn trick_view(trick: Seq<(String, Card)>) -> Seq<PlayView> {
    Seq::new(trick.len(), |k: int| (trick[k].0@, trick[k].1))
}

/// The results of a round as mathematical values.
pub open spec fn results_view(results: Seq<(String, bool)>) -> Seq<(Seq<char>, bool)> {
    Seq::new(results.len(), |i: int| (results[i].0@, results[i].1))
}

/// What an operation returns: the error, if there is one.
pub open spec fn outcome(error: Option<GameError>) -> Result<(), GameError> {
    match error {
        Some(error) => Err(error),
        None => Ok(()),
    }
}

impl View for GameState {
    type V = GameView;

    closed spec fn view(&self) -> GameView {
        GameView {
            players: players_view(self.players@),
            round_number: self.round_number as nat,
            starting_cards: self.starting_cards as nat,
            deck: self.deck@,
            trick: trick_view(self.current_turn_cards@),
            leading_suit: self.leading_suit,
            started: self.started,
        }
    }
}

impl GameState {
    /// The invariant of the match, on the state.
    pub open spec fn wf(&self) -> bool {
        self@.wf()
    }

    /// A match in which nobody is seated yet, with a shuffled deck. The
    /// first argument is the number of seats to make room for; room is made
    /// for at most forty, as many players as the deck can ever serve.
    pub fn new_game(num_players: usize, starting_cards: usize) -> (game: GameState)
        ensures
            game.wf(),
            game@.players.len() == 0,
            game@.round_number == 1,
            game@.starting_cards == starting_cards,
            is_complete_deck(game@.deck),
            game@.trick.len() == 0,
            game@.leading_suit is None,
            !game@.started,
    {
        let seats = if num_players <= DECK_SIZE {
            num_players
        } else {
            DECK_SIZE
        };
        let game = GameState {
            players: Vec::with_capacity(seats),
            round_number: 1,
            starting_cards,
            deck: Card::shuffle_deck(),
            current_turn_cards: Vec::new(),
            leading_suit: None,
            started: false,
        };
        game
    }

    /// The players in seating order.
    pub fn players(&self) -> (players: &Vec<Player>)
        ensures
            players_view(players@) == self@.players,
    {
        &self.players
    }

    /// The current round, counted from 1.
    pub fn round_number(&self) -> (round_number: usize)
        ensures
            round_number == self@.round_number,
    {
        self.round_number
    }

    /// The size of the hands of the first round.
    pub fn starting_cards(&self) -> (starting_cards: usize)
        ensures
            starting_cards == self@.starting_cards,
    {
        self.starting_cards
    }

    /// The cards that were not dealt.
    pub fn deck(&self) -> (deck: &Vec<Card>)
        ensures
            deck@ == self@.deck,
    {
        &self.deck
    }

    /// The trick in progress, in the order of play.
    pub fn current_turn_cards(&self) -> (trick: &Vec<(String, Card)>)
        ensures
            trick_view(trick@) == self@.trick,
    {
        &self.current_turn_cards
    }

    /// The suit of the first card of the trick in progress.
    pub fn leading_suit(&self) -> (leading_suit: Option<Suit>)
        ensures
            leading_suit == self@.leading_suit,
    {
        self.leading_suit
    }

    /// Whether the first round has been dealt.
    pub fn is_started(&self) -> (started: bool)
        ensures
            started == self@.started,
    {
        self.started
    }

    /// Whether every hand is empty.
    pub fn is_round_over(&self) -> (over: bool)
        ensures
            over == self@.round_over(),
    {
        let mut i: usize = 0;
        while i < self.players.len()
            invariant
                i <= self.players@.len(),
                forall|j: int| 0 <= j < i ==> (#[trigger] self@.players[j]).hand.len() == 0,
            decreases self.players@.len() - i,
        {
            if self.players[i].hand.len() != 0 {
                assert(self@.players[i as int].hand.len() != 0);
                return false;
            }
            i += 1;
        }
        true
    }

    /// Whether the last round has been played.
    pub fn is_game_over(&self) -> (over: bool)
        ensures
            over == self@.is_over(),
            over == (self@.round_number > self@.starting_cards),
    {
        self.round_number > self.starting_cards
    }

    /// The first seat of a player with this identifier; where identifiers
    /// are unique, the only one.
    pub fn player_index(&self, player_id: &str) -> (seat: Option<usize>)
        ensures
            seat is Some <==> self@.has_player(player_id@),
            seat matches Some(i) ==> {
                &&& i < self@.players.len()
                &&& self@.players[i as int].id == player_id@
                &&& forall|j: int| 0 <= j < i ==> (#[trigger] self@.players[j]).id != player_id@
                &&& self@.ids_unique() ==> i == self@.seat(player_id@)
            },
    {
        let mut i: usize = 0;
        while i < self.players.len()
            invariant
                i <= self.players@.len(),
                forall|j: int| 0 <= j < i ==> (#[trigger] self@.players[j]).id != player_id@,
            decreases self.players@.len() - i,
        {
            if str_eq(self.players[i].id.as_str(), player_id) {
                proof {
                    if self@.ids_unique() {
                        lemma_seat(self@, i as int);
                    }
                }
                return Some(i);
            }
            i += 1;
        }
        None
    }

    /// Seats a player. Whatever the given player holds, the one seated has
    /// an empty hand, no prediction and no trick. Seats are taken only
    /// before the match starts, and an identifier only once.
    pub fn add_player(&mut self, player: Player) -> (result: Result<(), GameError>)
        requires
            old(self).wf(),
        ensures
            final(self).wf(),
            result == outcome(old(self)@.join_error(player.id@)),
            final(self)@ == if result is Ok {
                old(self)@.joined(player.id@)
            } else {
                old(self)@
            },
    {
        if self.is_game_over() {
            return Err(GameError::MatchAlreadyOver);
        }
        if self.started {
            return Err(GameError::MatchAlreadyStarted);
        }
        if self.player_index(player.id.as_str()).is_some() {
            return Err(GameError::DuplicatePlayer);
        }
        let ghost id = player.id@;
        self.players.push(Player::new(player.id));
        proof {
            lemma_joined_wf(old(self)@, id);
            assert(self@.players =~= old(self)@.players.push(PlayerView::fresh(id)));
        }
        Ok(())
    }

    /// Lets a player leave: the player is unseated as
    /// [`GameState::unseat_player`] does it. Nobody leaves a match that is
    /// over.
    pub fn remove_player(&mut self, player_id: &str) -> (result: Result<(), GameError>)
        requires
            old(self).wf(),
        ensures
            final(self).wf(),
            result == outcome(old(self)@.leave_error(player_id@)),
            final(self)@ == if result is Ok {
                old(self)@.left(player_id@)
            } else {
                old(self)@
            },
    {
        if self.is_game_over() {
            return Err(GameError::MatchAlreadyOver);
        }
        self.unseat_player(player_id);
        Ok(())
    }

    /// Takes a player's seat away, whatever the state of the match, and the
    /// player's cards off the table. Without such a player nothing changes.
    /// This is the cleanup after a connection that is gone.
    pub fn unseat_player(&mut self, player_id: &str)
        requires
            old(self).wf(),
        ensures
            final(self).wf(),
            final(self)@ == old(self)@.left(player_id@),
    {
        let seat = match self.player_index(player_id) {
            Some(seat) => seat,
            None => {
                return ;
            },
        };
        self.players.remove(seat);
        let mut kept: Vec<(String, Card)> = Vec::new();
        let mut k: usize = 0;
        while k < self.current_turn_cards.len()
            invariant
                k <= self.current_turn_cards@.len(),
                self.current_turn_cards@ == old(self).current_turn_cards@,
                trick_view(kept@) == without_player(
                    trick_view(self.current_turn_cards@).take(k as int),
                    player_id@,
                ),
            decreases self.current_turn_cards@.len() - k,
        {
            let ghost table = trick_view(self.current_turn_cards@);
            assert(table.take(k + 1).drop_last() =~= table.take(k as int));
            if !str_eq(self.current_turn_cards[k].0.as_str(), player_id) {
                kept.push((self.current_turn_cards[k].0.clone(), self.current_turn_cards[k].1));
            }
            k += 1;
        }
        assert(trick_view(self.current_turn_cards@).take(k as int) =~= trick_view(
            self.current_turn_cards@,
        ));
        self.leading_suit = if kept.len() == 0 {
            None
        } else {
            Some(kept[0].1.suit)
        };
        self.current_turn_cards = kept;
        proof {
            lemma_left_wf(old(self)@, player_id@);
            assert(self@.players =~= old(self)@.players.remove(seat as int));
        }
    }

    /// Hands each player `size` cards from the match's deck and clears
    /// predictions, tricks and table.
    fn deal(&mut self, size: usize)
        requires
            size == old(self)@.round_hand_size(),
            old(self)@.players.len() * size <= old(self)@.deck.len(),
        ensures
            final(self)@ == old(self)@.dealt(old(self)@.deck, old(self)@.round_number),
    {
        let seats = self.players.len();
        let ghost before = self@;
        match deal_cards(&mut self.deck, seats, size) {
            Ok(mut hands) => {
                let ghost dealt = hands@;
                let mut i: usize = seats;
                while i > 0
                    invariant
                        i <= seats,
                        seats == self.players@.len(),
                        seats == before.players.len(),
                        hands@ == dealt.take(i as int),
                        dealt.len() == seats,
                        forall|j: int|
                            0 <= j < seats ==> (#[trigger] dealt[j])@ == dealt_hand(
                                before.deck,
                                seats as int,
                                size as int,
                                j,
                            ),
                        forall|j: int|
                            0 <= j < i ==> (#[trigger] self.players@[j])@ == before.players[j],
                        forall|j: int|
                            i <= j < seats ==> (#[trigger] self.players@[j])@ == (PlayerView {
                                id: before.players[j].id,
                                hand: dealt[j]@,
                                prediction: None,
                                tricks_won: 0,
                            }),
                        self.deck@ == undealt(before.deck, seats as int, size as int),
                        self.round_number == before.round_number,
                        self.starting_cards == before.starting_cards,
                    decreases i,
                {
                    i -= 1;
                    let hand = hands.pop().unwrap();
                    self.players[i].hand = hand;
                    self.players[i].prediction = None;
                    self.players[i].tricks_won = 0;
                }
            },
            // The deck holds the cards that the deal takes, so it cannot fail.
            Err(_) => {},
        }
        self.current_turn_cards.clear();
        self.leading_suit = None;
        self.started = true;
        proof {
            let after = before.dealt(before.deck, before.round_number);
            assert(self@.players =~= after.players);
            assert(self@.trick =~= after.trick);
        }
    }

    /// Deals the current round again from the match's own deck: each
    /// player's hand is replaced, predictions and tricks are cleared, and so
    /// is the table. A deck that holds too few cards is left as it is.
    pub fn deal_round(&mut self) -> (result: Result<(), GameError>)
        requires
            old(self).wf(),
        ensures
            final(self).wf(),
            result == outcome(old(self)@.redeal_error()),
            final(self)@ == if result is Ok {
                old(self)@.redealt()
            } else {
                old(self)@
            },
            result is Ok ==> final(self)@.cards_in_hands() == old(self)@.round_hand_size() * old(
                self,
            )@.players.len(),
    {
        if !self.started {
            return Err(GameError::MatchNotStarted);
        }
        if self.is_game_over() {
            return Err(GameError::MatchAlreadyOver);
        }
        let size = self.starting_cards - (self.round_number - 1);
        if !self.has_cards_for(size) {
            return Err(GameError::NotEnoughCards);
        }
        proof {
            lemma_redealt_wf(self@);
        }
        self.deal(size);
        Ok(())
    }

    /// Whether the deck holds `size` cards for each seated player.
    fn has_cards_for(&self, size: usize) -> (enough: bool)
        ensures
            enough == (self@.players.len() * size <= self@.deck.len()),
    {
        let seats = self.players.len();
        assert(seats * size <= u128::MAX) by (nonlinear_arith)
            requires
                seats <= u64::MAX,
                size <= u64::MAX,
        ;
        (seats as u128) * (size as u128) <= self.deck.len() as u128
    }

    /// Starts the match with the given deck: the round is the first, and
    /// each player is dealt `starting_cards` cards from the end of the deck.
    /// It takes a match that has not started, a seated player, and a deck of
    /// the forty cards that holds enough for all.
    pub fn start_game_with(&mut self, deck: Vec<Card>) -> (result: Result<(), GameError>)
        requires
            old(self).wf(),
        ensures
            final(self).wf(),
            result == outcome(old(self)@.start_error(deck@)),
            final(self)@ == if result is Ok {
                old(self)@.started_with(deck@)
            } else {
                old(self)@
            },
            result is Ok ==> final(self)@.cards_in_hands() == old(self)@.starting_cards * old(
                self,
            )@.players.len(),
    {
        if self.is_game_over() {
            return Err(GameError::MatchAlreadyOver);
        }
        if self.started {
            return Err(GameError::MatchAlreadyStarted);
        }
        if self.players.len() == 0 {
            return Err(GameError::NoPlayers);
        }
        if !is_complete(&deck) {
            return Err(GameError::InvalidDeck);
        }
        let seats = self.players.len();
        assert(seats * self.starting_cards <= u128::MAX) by (nonlinear_arith)
            requires
                seats <= u64::MAX,
                self.starting_cards <= u64::MAX,
        ;
        if (seats as u128) * (self.starting_cards as u128) > DECK_SIZE as u128 {
            return Err(GameError::NotEnoughCards);
        }
        proof {
            lemma_started_wf(self@, deck@);
        }
        self.deck = deck;
        self.deal(self.starting_cards);
        Ok(())
    }

    /// Starts the match with a freshly shuffled deck. What
    /// [`GameState::start_game_with`] makes of the match and of that deck is
    /// what this makes of it.
    pub fn start_game(&mut self) -> (result: Result<(), GameError>)
        requires
            old(self).wf(),
        ensures
            final(self).wf(),
            exists|deck: Seq<Card>|
                {
                    &&& is_complete_deck(deck)
                    &&& result == outcome(old(self)@.start_error(deck))
                    &&& final(self)@ == if result is Ok {
                        old(self)@.started_with(deck)
                    } else {
                        old(self)@
                    }
                },
            result is Ok ==> final(self)@.cards_in_hands() == old(self)@.starting_cards * old(
                self,
            )@.players.len(),
    {
        let deck = Card::shuffle_deck();
        let ghost cards = deck@;
        let result = self.start_game_with(deck);
        assert(is_complete_deck(cards) && result == outcome(old(self)@.start_error(cards)));
        result
    }

    /// Goes on to the next round with the given deck: the round number
    /// grows by one and each player is dealt one card fewer than in the
    /// round before. After the last round nothing is dealt: the match is
    /// over, the table is cleared, and the players keep their predictions
    /// and tricks. It takes a match that has started and is not over, a
    /// round that is, and, where a round follows, a deck of the forty cards.
    pub fn next_round_with(&mut self, deck: Vec<Card>) -> (result: Result<(), GameError>)
        requires
            old(self).wf(),
        ensures
            final(self).wf(),
            result == outcome(old(self)@.advance_error(deck@)),
            final(self)@ == if result is Ok {
                old(self)@.advanced_with(deck@)
            } else {
                old(self)@
            },
            result is Ok ==> final(self)@.cards_in_hands() == (old(self)@.round_hand_size() - 1)
                * old(self)@.players.len(),
    {
        if !self.started {
            return Err(GameError::MatchNotStarted);
        }
        if self.is_game_over() {
            return Err(GameError::MatchAlreadyOver);
        }
        if !self.is_round_over() {
            return Err(GameError::RoundNotOver);
        }
        if self.round_number >= self.starting_cards {
            proof {
                lemma_advanced_wf(self@, deck@);
            }
            self.round_number = self.round_number + 1;
            self.current_turn_cards.clear();
            self.leading_suit = None;
            assert(self@.trick =~= old(self)@.ended().trick);
            return Ok(());
        }
        if !is_complete(&deck) {
            return Err(GameError::InvalidDeck);
        }
        proof {
            lemma_advanced_wf(self@, deck@);
            let size = self@.round_hand_size() - 1;
            assert(self@.players.len() * size <= self@.players.len() * self@.starting_cards)
                by (nonlinear_arith)
                requires
                    0 <= size <= self@.starting_cards,
            ;
        }
        let size = self.starting_cards - self.round_number;
        self.round_number = self.round_number + 1;
        self.deck = deck;
        self.deal(size);
        Ok(())
    }

    /// Goes on to the next round with a freshly shuffled deck. What
    /// [`GameState::next_round_with`] makes of the match and of that deck is
    /// what this makes of it.
    pub fn next_round(&mut self) -> (result: Result<(), GameError>)
        requires
            old(self).wf(),
        ensures
            final(self).wf(),
            exists|deck: Seq<Card>|
                {
                    &&& is_complete_deck(deck)
                    &&& result == outcome(old(self)@.advance_error(deck))
                    &&& final(self)@ == if result is Ok {
                        old(self)@.advanced_with(deck)
                    } else {
                        old(self)@
                    }
                },
            old(self)@.is_over() ==> result == Err::<(), GameError>(GameError::MatchAlreadyOver)
                || result == Err::<(), GameError>(GameError::MatchNotStarted),
    {
        let deck = Card::shuffle_deck();
        let ghost cards = deck@;
        let result = self.next_round_with(deck);
        assert(is_complete_deck(cards) && result == outcome(old(self)@.advance_error(cards)));
        result
    }

    /// The number of players who have declared a prediction, and the sum of
    /// what they declared.
    fn declared(&self) -> (found: (usize, u128))
        ensures
            found.0 == self@.declared_count(),
            found.1 == self@.declared_sum(),
            found.0 <= self@.players.len(),
            found.1 <= 255 * self@.players.len(),
    {
        let ghost flags = declared_flags(self@.players);
        let ghost values = declared_values(self@.players);
        let mut count: usize = 0;
        let mut sum: u128 = 0;
        let mut i: usize = 0;
        while i < self.players.len()
            invariant
                i <= self.players@.len(),
                flags == declared_flags(self@.players),
                values == declared_values(self@.players),
                count == total(flags.take(i as int)),
                sum == total(values.take(i as int)),
                count <= i,
                sum <= 255 * i,
            decreases self.players@.len() - i,
        {
            proof {
                assert(flags.take(i + 1).drop_last() =~= flags.take(i as int));
                assert(values.take(i + 1).drop_last() =~= values.take(i as int));
            }
            match self.players[i].prediction {
                Some(value) => {
                    count += 1;
                    sum += value as u128;
                },
                None => {},
            }
            i += 1;
        }
        proof {
            assert(flags.take(i as int) =~= flags);
            assert(values.take(i as int) =~= values);
        }
        (count, sum)
    }

    /// Declares a player's prediction for the round. The last player to
    /// declare may not bring the declared total to the number of cards in
    /// hand; any other prediction is recorded, also in place of an earlier
    /// one.
    pub fn make_prediction(&mut self, player_id: &str, prediction: u8) -> (result: Result<
        (),
        GameError,
    >)
        requires
            old(self).wf(),
        ensures
            final(self).wf(),
            result == outcome(old(self)@.predict_error(player_id@, prediction)),
            final(self)@ == if result is Ok {
                old(self)@.predicted(player_id@, prediction)
            } else {
                old(self)@
            },
    {
        if !self.started {
            return Err(GameError::MatchNotStarted);
        }
        if self.is_game_over() {
            return Err(GameError::MatchAlreadyOver);
        }
        let seat = match self.player_index(player_id) {
            Some(seat) => seat,
            None => {
                return Err(GameError::UnknownPlayer);
            },
        };
        let (count, sum) = self.declared();
        let cards_in_hand = self.players[seat].hand.len();
        if count == self.players.len() - 1 && sum + prediction as u128 == cards_in_hand as u128 {
            return Err(GameError::InvalidPrediction);
        }
        self.players[seat].prediction = Some(prediction);
        proof {
            lemma_predicted_wf(old(self)@, player_id@, prediction);
            assert(self@.players =~= old(self)@.predicted(player_id@, prediction).players);
        }
        Ok(())
    }

    /// Plays a card from a player's hand onto the table. The first card of
    /// a trick sets the leading suit.
    pub fn play_card(&mut self, player_id: &str, card: Card) -> (result: Result<(), GameError>)
        requires
            old(self).wf(),
        ensures
            final(self).wf(),
            result == outcome(old(self)@.play_error(player_id@, card)),
            final(self)@ == if result is Ok {
                old(self)@.played(player_id@, card)
            } else {
                old(self)@
            },
    {
        if !self.started {
            return Err(GameError::MatchNotStarted);
        }
        if self.is_game_over() {
            return Err(GameError::MatchAlreadyOver);
        }
        let seat = match self.player_index(player_id) {
            Some(seat) => seat,
            None => {
                return Err(GameError::UnknownPlayer);
            },
        };
        let place = match position_of(&self.players[seat].hand, &card) {
            Some(place) => place,
            None => {
                return Err(GameError::CardNotInHand);
            },
        };
        proof {
            lemma_played_wf(self@, player_id@, card);
            assert(self@.holds(seat as int, place as int));
            assert(self@.players[seat as int].hand.index_of(card) == place);
        }
        let played_card = self.players[seat].hand.remove(place);
        if self.leading_suit.is_none() {
            self.leading_suit = Some(played_card.suit);
        }
        let ghost table = trick_view(self.current_turn_cards@);
        self.current_turn_cards.push((self.players[seat].id.clone(), played_card));
        proof {
            let after = old(self)@.played(player_id@, card);
            assert(trick_view(self.current_turn_cards@) =~= table.push((player_id@, card)));
            assert(self@.players =~= after.players);
        }
        Ok(())
    }

    /// Resolves the trick on the table: the winner, found as
    /// [`winning_play`] says, has one trick more, and the table is cleared.
    /// Returns the winner's identifier, or nothing where the table is empty.
    pub fn end_turn(&mut self) -> (winner: Option<String>)
        requires
            old(self).wf(),
        ensures
            final(self).wf(),
            final(self)@ == old(self)@.resolved(),
            winner is Some <==> old(self)@.trick.len() > 0,
            winner matches Some(id) ==> id@ == old(self)@.trick_winner(),
    {
        if self.current_turn_cards.is_empty() {
            return None;
        }
        let leading = match self.leading_suit {
            Some(leading) => leading,
            None => {
                return None;
            },
        };
        let ghost table = trick_view(self.current_turn_cards@);
        let mut best_index: usize = 0;
        let mut i: usize = 1;
        while i < self.current_turn_cards.len()
            invariant
                1 <= i <= self.current_turn_cards@.len(),
                table == trick_view(self.current_turn_cards@),
                best_index == winning_play(table.take(i as int), leading),
                best_index < i,
            decreases self.current_turn_cards@.len() - i,
        {
            proof {
                assert(table.take(i + 1).drop_last() =~= table.take(i as int));
            }
            if self.current_turn_cards[i].1.beats_custom(
                &self.current_turn_cards[best_index].1,
                &leading,
            ) {
                best_index = i;
            }
            i += 1;
        }
        proof {
            assert(table.take(i as int) =~= table);
            lemma_trick_winner(self@);
            lemma_resolved_wf(self@);
        }
        let winner_id = self.current_turn_cards[best_index].0.clone();
        match self.player_index(winner_id.as_str()) {
            Some(seat) => {
                self.players[seat].tricks_won += 1;
            },
            None => {},
        }
        self.current_turn_cards.clear();
        self.leading_suit = None;
        proof {
            let after = old(self)@.resolved();
            assert(self@.players =~= after.players);
            assert(self@.trick =~= after.trick);
        }
        Some(winner_id)
    }

    /// For each player, in seating order, the identifier and whether the
    /// player declared a prediction and won exactly as many tricks. A
    /// player who declared nothing has not succeeded. The match stays as it
    /// is.
    pub fn end_round(&self) -> (results: Vec<(String, bool)>)
        ensures
            results_view(results@) == self@.round_results(),
    {
        let mut results: Vec<(String, bool)> = Vec::new();
        let mut i: usize = 0;
        while i < self.players.len()
            invariant
                i <= self.players@.len(),
                results@.len() == i,
                forall|j: int|
                    0 <= j < i ==> (#[trigger] results@[j]).0@ == self@.players[j].id
                        && results@[j].1 == self@.players[j].succeeded(),
            decreases self.players@.len() - i,
        {
            let player = &self.players[i];
            let success = match player.prediction {
                Some(value) => value == player.tricks_won,
                None => false,
            };
            results.push((player.id.clone(), success));
            i += 1;
        }
        results
    }

    /// Where the match stands.
    pub fn phase(&self) -> (phase: Phase)
        ensures
            phase == self@.phase(),
    {
        if self.is_game_over() {
            Phase::Finished
        } else if !self.started {
            Phase::Forming
        } else if self.is_round_over() {
            Phase::RoundEnd
        } else if self.declared().0 < self.players.len() {
            Phase::Predicting
        } else {
            Phase::Playing
        }
    }
}

/// The first place of a card in a hand.
pub fn position_of(hand: &Vec<Card>, card: &Card) -> (place: Option<usize>)
    ensures
        place is Some <==> hand@.contains(*card),
        place matches Some(at) ==> at < hand@.len() && hand@[at as int] == *card && forall|
            j: int,
        | 0 <= j < at ==> hand@[j] != *card,
{
    let mut i: usize = 0;
    while i < hand.len()
        invariant
            i <= hand@.len(),
            forall|j: int| 0 <= j < i ==> hand@[j] != *card,
        decreases hand@.len() - i,
    {
        if hand[i] == *card {
            return Some(i);
        }
        i += 1;
    }
    None
}

} // verus!
