//! The decisions of the connection hub: what a connection, an action or a
//! disconnection makes of the match, and which events go to whom. The hub
//! that owns the connections performs the sending.

use crate::card::Card;
use crate::deck::is_complete_deck;
use crate::error::GameError;
use crate::events::{
    names_view, outgoing_view, standings_view, Action, Event, EventView, Outgoing, OutgoingView,
};
use crate::game::{players_view, trick_view, GameState};
use crate::identity::fresh_player_id;
use crate::model::GameView;
use crate::player::Player;
use vstd::prelude::*;

verus! {

/// What the hub makes of a request: the match afterwards and the events to
/// send, in their order.
pub struct Reaction {
    pub game: GameView,
    pub events: Seq<OutgoingView>,
}

/// The identifiers of the seated players, in seating order.
pub open spec fn ids(game: GameView) -> Seq<Seq<char>> {
    Seq::new(game.players.len(), |i: int| game.players[i].id)
}

/// For each seated player the identifier and the tricks won in this round.
pub open spec fn standings(game: GameView) -> Seq<(Seq<char>, nat)> {
    Seq::new(game.players.len(), |i: int| (game.players[i].id, game.players[i].tricks_won))
}

/// An event for every seated player. Where nobody is seated nothing is
/// sent.
pub open spec fn to_all(game: GameView, event: EventView) -> Seq<OutgoingView> {
    if game.players.len() == 0 {
        Seq::empty()
    } else {
        seq![OutgoingView { recipients: ids(game), event }]
    }
}

/// An event for one player. To a player who is not seated nothing is sent.
pub open spec fn to_one(game: GameView, id: Seq<char>, event: EventView) -> Seq<OutgoingView> {
    if game.has_player(id) {
        seq![OutgoingView { recipients: seq![id], event }]
    } else {
        Seq::empty()
    }
}

/// The event that tells a player the cards in hand.
pub open spec fn hand_of(game: GameView, id: Seq<char>) -> EventView {
    EventView::HandUpdated { player_id: id, hand: game.players[game.seat(id)].hand }
}

/// The hand of the player at a seat, addressed to that player.
pub open spec fn hand_update(game: GameView, seat: int) -> OutgoingView {
    OutgoingView {
        recipients: seq![game.players[seat].id],
        event: EventView::HandUpdated {
            player_id: game.players[seat].id,
            hand: game.players[seat].hand,
        },
    }
}

/// The events that open a round: its number for all, then for each player
/// the new hand.
pub open spec fn round_start(game: GameView) -> Seq<OutgoingView> {
    to_all(
        game,
        EventView::RoundStarted {
            round_number: game.round_number,
            starting_cards: game.starting_cards,
        },
    ) + Seq::new(game.players.len(), |i: int| hand_update(game, i))
}

/// The step to the next round on behalf of a player. A refusal goes to that
/// player alone. After the last round the match ends without a deal and
/// the results of that round are the final ones; otherwise the next round
/// is dealt and opens.
pub open spec fn advance(game: GameView, id: Seq<char>, deck: Seq<Card>) -> Reaction {
    match game.advance_error(deck) {
        Some(error) => Reaction { game, events: to_one(game, id, EventView::Error { error }) },
        None => {
            let next = game.advanced_with(deck);
            Reaction {
                game: next,
                events: if next.is_over() {
                    to_all(next, EventView::GameOver { results: game.round_results() })
                } else {
                    round_start(next)
                },
            }
        },
    }
}

/// The trick on the table is resolved and all learn the winner and the
/// standings. If that empties the hands, all learn the results of the
/// round, and the match goes on as [`advance`] says. An empty table leaves
/// everything as it is.
pub open spec fn finalize(game: GameView, id: Seq<char>, deck: Seq<Card>) -> Reaction {
    if game.trick.len() == 0 {
        Reaction { game, events: Seq::empty() }
    } else {
        let resolved = game.resolved();
        let ended = to_all(
            resolved,
            EventView::TurnEnded {
                winner_id: game.trick_winner(),
                standings: standings(resolved),
            },
        );
        if resolved.round_over() {
            let next = advance(resolved, id, deck);
            Reaction {
                game: next.game,
                events: ended + to_all(
                    resolved,
                    EventView::RoundEnded { results: resolved.round_results() },
                ) + next.events,
            }
        } else {
            Reaction { game: resolved, events: ended }
        }
    }
}

/// Whether the table holds as many cards as players are seated, and at
/// least one.
pub open spec fn trick_full(game: GameView) -> bool {
    game.players.len() > 0 && game.trick.len() == game.players.len()
}

/// A full trick is resolved as [`finalize`] says; any other is left alone.
pub open spec fn finish_if_ready(game: GameView, id: Seq<char>, deck: Seq<Card>) -> Reaction {
    if trick_full(game) {
        finalize(game, id, deck)
    } else {
        Reaction { game, events: Seq::empty() }
    }
}

/// Why a player cannot have the trick resolved, if so.
pub open spec fn end_trick_error(game: GameView) -> Option<GameError> {
    if !game.started {
        Some(GameError::MatchNotStarted)
    } else if game.is_over() {
        Some(GameError::MatchAlreadyOver)
    } else if game.trick.len() != game.players.len() {
        Some(GameError::TrickNotFull)
    } else {
        None
    }
}

/// A refusal: the match stays as it is and the player alone learns why.
pub open spec fn refused(game: GameView, id: Seq<char>, error: GameError) -> Reaction {
    Reaction { game, events: to_one(game, id, EventView::Error { error }) }
}

/// What the hub makes of a player's action, `deck` being the shuffled deck
/// for a deal that the action leads to.
pub open spec fn react(game: GameView, id: Seq<char>, action: Action, deck: Seq<Card>) -> Reaction {
    match action {
        Action::StartMatch => match game.start_error(deck) {
            Some(error) => refused(game, id, error),
            None => {
                let started = game.started_with(deck);
                Reaction {
                    game: started,
                    events: to_all(started, EventView::GameStarted) + round_start(started),
                }
            },
        },
        Action::PlayCard(card) => match game.play_error(id, card) {
            Some(error) => refused(game, id, error),
            None => {
                let played = game.played(id, card);
                let rest = finish_if_ready(played, id, deck);
                Reaction {
                    game: rest.game,
                    events: to_all(played, EventView::CardPlayed { player_id: id, card }) + to_one(
                        played,
                        id,
                        hand_of(played, id),
                    ) + rest.events,
                }
            },
        },
        Action::MakePrediction(prediction) => match game.predict_error(id, prediction) {
            Some(error) => refused(game, id, error),
            None => {
                let predicted = game.predicted(id, prediction);
                Reaction {
                    game: predicted,
                    events: to_all(
                        predicted,
                        EventView::PredictionMade { player_id: id, prediction },
                    ),
                }
            },
        },
        Action::EndTrick => match end_trick_error(game) {
            Some(error) => refused(game, id, error),
            None => finalize(game, id, deck),
        },
        Action::NextRound => advance(game, id, deck),
    }
}

/// What the hub makes of a new connection that may take a seat: the player
/// is seated and welcomed with the state of the match, then all learn of
/// the new player.
pub open spec fn connected(game: GameView, id: Seq<char>) -> Reaction {
    let joined = game.joined(id);
    Reaction {
        game: joined,
        events: to_one(
            joined,
            id,
            EventView::Welcome {
                player_id: id,
                round_number: joined.round_number,
                starting_cards: joined.starting_cards,
                hand: joined.players[joined.seat(id)].hand,
                players: ids(joined),
                turn: joined.trick,
            },
        ) + to_all(joined, EventView::PlayerJoined { id }),
    }
}

/// What the hub makes of a closed connection, whatever the state of the
/// match: the player's seat is taken away and those who stay learn of it.
pub open spec fn disconnected(game: GameView, id: Seq<char>) -> Reaction {
    let after = game.left(id);
    Reaction { game: after, events: to_all(after, EventView::PlayerLeft { id }) }
}

/// The identifiers of the seated players, in seating order.
pub fn player_ids(game: &GameState) -> (names: Vec<String>)
    ensures
        names_view(names@) == ids(game@),
{
    let players = game.players();
    let mut names: Vec<String> = Vec::new();
    let mut i: usize = 0;
    while i < players.len()
        invariant
            i <= players@.len(),
            players_view(players@) == game@.players,
            names@.len() == i,
            forall|j: int| 0 <= j < i ==> (#[trigger] names@[j])@ == game@.players[j].id,
        decreases players@.len() - i,
    {
        names.push(players[i].id.clone());
        i += 1;
    }
    names
}

/// For each seated player the identifier and the tricks won in this round.
pub fn current_standings(game: &GameState) -> (table: Vec<(String, u8)>)
    ensures
        standings_view(table@) == standings(game@),
{
    let players = game.players();
    let mut table: Vec<(String, u8)> = Vec::new();
    let mut i: usize = 0;
    while i < players.len()
        invariant
            i <= players@.len(),
            players_view(players@) == game@.players,
            table@.len() == i,
            forall|j: int|
                0 <= j < i ==> (#[trigger] table@[j]).0@ == game@.players[j].id && table@[j].1
                    == game@.players[j].tricks_won,
        decreases players@.len() - i,
    {
        table.push((players[i].id.clone(), players[i].tricks_won));
        i += 1;
    }
    table
}

/// The cards on the table with the players who played them.
pub fn current_trick(game: &GameState) -> (table: Vec<(String, Card)>)
    ensures
        trick_view(table@) == game@.trick,
{
    let trick = game.current_turn_cards();
    let mut table: Vec<(String, Card)> = Vec::new();
    let mut k: usize = 0;
    while k < trick.len()
        invariant
            k <= trick@.len(),
            trick_view(trick@) == game@.trick,
            table@.len() == k,
            forall|j: int|
                0 <= j < k ==> (#[trigger] table@[j]).0@ == trick@[j].0@ && table@[j].1
                    == trick@[j].1,
        decreases trick@.len() - k,
    {
        table.push((trick[k].0.clone(), trick[k].1));
        k += 1;
    }
    table
}

impl GameState {
    /// Addresses an event to every seated player.
    pub fn broadcast(&self, event: Event) -> (out: Vec<Outgoing>)
        ensures
            outgoing_view(out@) == to_all(self@, event@),
    {
        let mut out: Vec<Outgoing> = Vec::new();
        let recipients = player_ids(self);
        assert(ids(self@).len() == self@.players.len());
        if recipients.len() != 0 {
            out.push(Outgoing { recipients, event });
        }
        out
    }
}

/// Addresses an event to one player, if that player is seated.
pub fn send_to_player(game: &GameState, player_id: &str, event: Event) -> (out: Vec<Outgoing>)
    ensures
        outgoing_view(out@) == to_one(game@, player_id@, event@),
{
    let mut out: Vec<Outgoing> = Vec::new();
    match game.player_index(player_id) {
        Some(seat) => {
            let players = game.players();
            let mut recipients: Vec<String> = Vec::new();
            recipients.push(players[seat].id.clone());
            assert(names_view(recipients@) =~= seq![player_id@]);
            out.push(Outgoing { recipients, event });
        },
        None => {},
    }
    out
}

/// Addresses to one player the cards that the player holds, if that player
/// is seated. The invariant of the match makes the player's seat the only
/// one under that identifier.
pub fn send_player_hand(game: &GameState, player_id: &str) -> (out: Vec<Outgoing>)
    requires
        game.wf(),
    ensures
        outgoing_view(out@) == to_one(game@, player_id@, hand_of(game@, player_id@)),
{
    match game.player_index(player_id) {
        Some(seat) => {
            let players = game.players();
            let event = Event::HandUpdated {
                player_id: players[seat].id.clone(),
                hand: players[seat].hand.clone(),
            };
            send_to_player(game, player_id, event)
        },
        None => Vec::new(),
    }
}

/// The events that open the current round: its number for all, then for
/// each player the cards in hand.
pub fn broadcast_round_start(game: &GameState) -> (out: Vec<Outgoing>)
    ensures
        outgoing_view(out@) == round_start(game@),
{
    let mut out = game.broadcast(
        Event::RoundStarted {
            round_number: game.round_number(),
            starting_cards: game.starting_cards(),
        },
    );
    let ghost head = outgoing_view(out@);
    let players = game.players();
    let mut i: usize = 0;
    while i < players.len()
        invariant
            i <= players@.len(),
            players_view(players@) == game@.players,
            players@.len() == game@.players.len(),
            outgoing_view(out@) == head + Seq::new(i as nat, |j: int| hand_update(game@, j)),
        decreases players@.len() - i,
    {
        let mut recipients: Vec<String> = Vec::new();
        recipients.push(players[i].id.clone());
        let update = Outgoing {
            recipients,
            event: Event::HandUpdated {
                player_id: players[i].id.clone(),
                hand: players[i].hand.clone(),
            },
        };
        assert(update@ == hand_update(game@, i as int)) by {
            assert(names_view(update.recipients@) =~= seq![game@.players[i as int].id]);
        }
        let ghost before = outgoing_view(out@);
        out.push(update);
        assert(outgoing_view(out@) =~= before.push(hand_update(game@, i as int)));
        i += 1;
    }
    out
}

/// The number of seated players.
pub fn seat_count(game: &GameState) -> (seats: usize)
    ensures
        seats == game@.players.len(),
{
    let players = game.players();
    players.len()
}

/// The number of cards on the table.
pub fn table_count(game: &GameState) -> (cards: usize)
    ensures
        cards == game@.trick.len(),
{
    let trick = game.current_turn_cards();
    trick.len()
}

/// Appends a list of events to another.
fn extend(out: &mut Vec<Outgoing>, more: Vec<Outgoing>)
    ensures
        outgoing_view(final(out)@) == outgoing_view(old(out)@) + outgoing_view(more@),
{
    let mut more = more;
    out.append(&mut more);
}

/// Goes on to the next round with the given deck on behalf of a player, as
/// [`advance`] says.
pub fn advance_round_with(game: &mut GameState, player_id: &str, deck: Vec<Card>) -> (out: Vec<
    Outgoing,
>)
    requires
        old(game).wf(),
    ensures
        final(game).wf(),
        final(game)@ == advance(old(game)@, player_id@, deck@).game,
        outgoing_view(out@) == advance(old(game)@, player_id@, deck@).events,
{
    let results = game.end_round();
    match game.next_round_with(deck) {
        Ok(()) => {
            if game.is_game_over() {
                game.broadcast(Event::GameOver { results })
            } else {
                broadcast_round_start(game)
            }
        },
        Err(error) => send_to_player(game, player_id, Event::Error { error }),
    }
}

/// Resolves the trick on the table and goes on from there, as [`finalize`]
/// says.
pub fn finalize_turn(game: &mut GameState, player_id: &str, deck: Vec<Card>) -> (out: Vec<
    Outgoing,
>)
    requires
        old(game).wf(),
    ensures
        final(game).wf(),
        final(game)@ == finalize(old(game)@, player_id@, deck@).game,
        outgoing_view(out@) == finalize(old(game)@, player_id@, deck@).events,
{
    let mut out: Vec<Outgoing> = Vec::new();
    match game.end_turn() {
        Some(winner_id) => {
            let table = current_standings(game);
            extend(&mut out, game.broadcast(Event::TurnEnded { winner_id, standings: table }));
            if game.is_round_over() {
                let results = game.end_round();
                extend(&mut out, game.broadcast(Event::RoundEnded { results }));
                extend(&mut out, advance_round_with(game, player_id, deck));
            }
        },
        None => {},
    }
    out
}

/// Resolves the trick if it is full, as [`finish_if_ready`] says.
pub fn finish_turn_if_ready(game: &mut GameState, player_id: &str, deck: Vec<Card>) -> (out: Vec<
    Outgoing,
>)
    requires
        old(game).wf(),
    ensures
        final(game).wf(),
        final(game)@ == finish_if_ready(old(game)@, player_id@, deck@).game,
        outgoing_view(out@) == finish_if_ready(old(game)@, player_id@, deck@).events,
{
    let seats = seat_count(game);
    let cards = table_count(game);
    if seats != 0 && cards == seats {
        finalize_turn(game, player_id, deck)
    } else {
        Vec::new()
    }
}

/// Carries out a player's action with the given deck, as [`react`] says.
/// The deck is used where the action leads to a deal.
pub fn handle_action_with(
    game: &mut GameState,
    player_id: &str,
    action: Action,
    deck: Vec<Card>,
) -> (out: Vec<Outgoing>)
    requires
        old(game).wf(),
    ensures
        final(game).wf(),
        final(game)@ == react(old(game)@, player_id@, action, deck@).game,
        outgoing_view(out@) == react(old(game)@, player_id@, action, deck@).events,
{
    match action {
        Action::StartMatch => match game.start_game_with(deck) {
            Ok(()) => {
                let mut out = game.broadcast(Event::GameStarted);
                extend(&mut out, broadcast_round_start(game));
                out
            },
            Err(error) => send_to_player(game, player_id, Event::Error { error }),
        },
        Action::PlayCard(card) => match game.play_card(player_id, card) {
            Ok(()) => {
                let seat = game.player_index(player_id);
                let mut out: Vec<Outgoing> = Vec::new();
                match seat {
                    Some(seat) => {
                        let players = game.players();
                        let played = Event::CardPlayed {
                            player_id: players[seat].id.clone(),
                            card,
                        };
                        extend(&mut out, game.broadcast(played));
                    },
                    None => {},
                }
                extend(&mut out, send_player_hand(game, player_id));
                extend(&mut out, finish_turn_if_ready(game, player_id, deck));
                out
            },
            Err(error) => send_to_player(game, player_id, Event::Error { error }),
        },
        Action::MakePrediction(prediction) => match game.make_prediction(player_id, prediction) {
            Ok(()) => {
                let mut out: Vec<Outgoing> = Vec::new();
                match game.player_index(player_id) {
                    Some(seat) => {
                        let players = game.players();
                        let made = Event::PredictionMade {
                            player_id: players[seat].id.clone(),
                            prediction,
                        };
                        extend(&mut out, game.broadcast(made));
                    },
                    None => {},
                }
                proof {
                    let predicted = old(game)@.predicted(player_id@, prediction);
                    assert(predicted.has_player(player_id@)) by {
                        let s = old(game)@.seat(player_id@);
                        assert(predicted.players[s].id == player_id@);
                    }
                }
                out
            },
            Err(error) => send_to_player(game, player_id, Event::Error { error }),
        },
        Action::EndTrick => {
            if !game.is_started() {
                send_to_player(game, player_id, Event::Error { error: GameError::MatchNotStarted })
            } else if game.is_game_over() {
                send_to_player(
                    game,
                    player_id,
                    Event::Error { error: GameError::MatchAlreadyOver },
                )
            } else if table_count(game) != seat_count(game) {
                send_to_player(game, player_id, Event::Error { error: GameError::TrickNotFull })
            } else {
                finalize_turn(game, player_id, deck)
            }
        },
        Action::NextRound => advance_round_with(game, player_id, deck),
    }
}

/// Carries out a player's action. Where it leads to a deal, the deck is
/// freshly shuffled; what [`handle_action_with`] makes of the match, the
/// action and that deck is what this makes of them.
pub fn handle_action(game: &mut GameState, player_id: &str, action: Action) -> (out: Vec<Outgoing>)
    requires
        old(game).wf(),
    ensures
        final(game).wf(),
        exists|deck: Seq<Card>|
            {
                &&& is_complete_deck(deck)
                &&& final(game)@ == react(old(game)@, player_id@, action, deck).game
                &&& outgoing_view(out@) == react(old(game)@, player_id@, action, deck).events
            },
{
    let deck = Card::shuffle_deck();
    let ghost cards = deck@;
    let out = handle_action_with(game, player_id, action, deck);
    assert(is_complete_deck(cards) && game@ == react(old(game)@, player_id@, action, cards).game);
    out
}

/// Seats the player of a new connection under the given identifier. Where
/// the seat is refused the match stays as it is; otherwise the player is
/// welcomed and announced as [`connected`] says.
pub fn connect_as(game: &mut GameState, player_id: String) -> (out: Result<Vec<Outgoing>, GameError>)
    requires
        old(game).wf(),
    ensures
        final(game).wf(),
        match old(game)@.join_error(player_id@) {
            Some(error) => out == Err::<Vec<Outgoing>, GameError>(error) && final(game)@ == old(
                game,
            )@,
            None => out is Ok && final(game)@ == connected(old(game)@, player_id@).game
                && outgoing_view(out->Ok_0@) == connected(old(game)@, player_id@).events,
        },
{
    let name = player_id.clone();
    let announced = player_id.clone();
    match game.add_player(Player::new(player_id)) {
        Ok(()) => {
            let seat = game.player_index(name.as_str());
            let hand = match seat {
                Some(seat) => {
                    let players = game.players();
                    players[seat].hand.clone()
                },
                None => Vec::new(),
            };
            let welcome = Event::Welcome {
                player_id: name.clone(),
                round_number: game.round_number(),
                starting_cards: game.starting_cards(),
                hand,
                players: player_ids(game),
                turn: current_trick(game),
            };
            let mut out = send_to_player(game, name.as_str(), welcome);
            extend(&mut out, game.broadcast(Event::PlayerJoined { id: announced }));
            Ok(out)
        },
        Err(error) => Err(error),
    }
}

/// Seats the player of a new connection under a freshly drawn identifier
/// of 36 characters and returns it with the events. What
/// [`connect_as`] makes of the match and of that identifier is what this
/// makes of them.
pub fn connect(game: &mut GameState) -> (out: Result<(String, Vec<Outgoing>), GameError>)
    requires
        old(game).wf(),
    ensures
        final(game).wf(),
        match out {
            Ok((id, events)) => {
                &&& id@.len() == 36
                &&& old(game)@.join_error(id@) is None
                &&& final(game)@ == connected(old(game)@, id@).game
                &&& outgoing_view(events@) == connected(old(game)@, id@).events
            },
            Err(error) => {
                &&& final(game)@ == old(game)@
                &&& exists|id: Seq<char>|
                    id.len() == 36 && old(game)@.join_error(id) == Some(error)
            },
        },
{
    let player_id = fresh_player_id();
    let name = player_id.clone();
    match connect_as(game, player_id) {
        Ok(events) => Ok((name, events)),
        Err(error) => Err(error),
    }
}

/// Unseats the player of a closed connection and tells those who stay, as
/// [`disconnected`] says.
pub fn disconnect(game: &mut GameState, player_id: &str) -> (out: Vec<Outgoing>)
    requires
        old(game).wf(),
    ensures
        final(game).wf(),
        final(game)@ == disconnected(old(game)@, player_id@).game,
        outgoing_view(out@) == disconnected(old(game)@, player_id@).events,
{
    game.unseat_player(player_id);
    game.broadcast(Event::PlayerLeft { id: player_id.to_owned() })
}

} // verus!
