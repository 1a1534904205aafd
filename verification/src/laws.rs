//! What holds of the hub across requests: it keeps the invariant of the
//! match, the last trick of the last round ends the match, a match that is
//! over stays over, and a trick is resolved exactly once, by the play that
//! completes it.

use crate::card::Card;
use crate::events::{Action, EventView, OutgoingView};
use crate::hub::{
    advance, connected, disconnected, finalize, finish_if_ready, hand_of, react, standings,
    to_all, to_one, Reaction,
};
use crate::model::{GameView, PlayView};
use crate::upkeep::{
    lemma_advanced_wf, lemma_joined_wf, lemma_left_wf, lemma_played_wf, lemma_predicted_wf,
    lemma_resolved_wf, lemma_started_wf, lemma_trick_winner,
};
use vstd::prelude::*;

verus! {

/// The number of events of a list that tell of a resolved trick.
pub open spec fn tricks_announced(events: Seq<OutgoingView>) -> nat
    decreases events.len(),
{
    if events.len() == 0 {
        0
    } else {
        tricks_announced(events.drop_last()) + if events.last().event is TurnEnded {
            1nat
        } else {
            0nat
        }
    }
}

/// What the hub makes of a run of card plays, each with the deck for the
/// deal that it may lead to: the match after the last of them and all the
/// events in their order.
pub open spec fn play_all(game: GameView, plays: Seq<PlayView>, decks: Seq<Seq<Card>>) -> Reaction
    decreases plays.len(),
{
    if plays.len() == 0 {
        Reaction { game, events: Seq::empty() }
    } else {
        let before = play_all(game, plays.drop_last(), decks);
        let last = react(
            before.game,
            plays.last().0,
            Action::PlayCard(plays.last().1),
            decks[plays.len() - 1],
        );
        Reaction { game: last.game, events: before.events + last.events }
    }
}

/// Events of two lists in a row tell of as many resolved tricks as the two
/// lists together.
pub proof fn lemma_announced_add(a: Seq<OutgoingView>, b: Seq<OutgoingView>)
    ensures
        tricks_announced(a + b) == tricks_announced(a) + tricks_announced(b),
    decreases b.len(),
{
    if b.len() == 0 {
    } else {
        lemma_announced_add(a, b.drop_last());
        assert((a + b).drop_last() =~= a + b.drop_last());
    }
}

/// A list of events none of which tells of a resolved trick counts none.
pub proof fn lemma_announced_none(events: Seq<OutgoingView>)
    requires
        forall|i: int| 0 <= i < events.len() ==> !((#[trigger] events[i]).event is TurnEnded),
    ensures
        tricks_announced(events) == 0,
    decreases events.len(),
{
    if events.len() > 0 {
        lemma_announced_none(events.drop_last());
    }
}

/// The step to the next round tells of no resolved trick.
pub proof fn lemma_advance_announces_none(game: GameView, id: Seq<char>, deck: Seq<Card>)
    ensures
        tricks_announced(advance(game, id, deck).events) == 0,
{
    lemma_announced_none(advance(game, id, deck).events);
}

/// Resolving a trick that holds a card, with somebody seated, tells of it
/// exactly once.
pub proof fn lemma_finalize_announces_once(game: GameView, id: Seq<char>, deck: Seq<Card>)
    requires
        game.wf(),
        game.trick.len() > 0,
    ensures
        tricks_announced(finalize(game, id, deck).events) == 1,
{
    lemma_trick_winner(game);
    let resolved = game.resolved();
    let ended = to_all(
        resolved,
        EventView::TurnEnded {
            winner_id: game.trick_winner(),
            standings: standings(resolved),
        },
    );
    assert(ended.drop_last() =~= Seq::<OutgoingView>::empty());
    assert(tricks_announced(Seq::<OutgoingView>::empty()) == 0);
    if resolved.round_over() {
        let results = to_all(
            resolved,
            EventView::RoundEnded { results: resolved.round_results() },
        );
        let next = advance(resolved, id, deck);
        lemma_announced_none(results);
        lemma_advance_announces_none(resolved, id, deck);
        lemma_announced_add(ended, results);
        lemma_announced_add(ended + results, next.events);
    }
}

/// An accepted play tells of a resolved trick exactly when it brings the
/// table to one card for each seated player, and then once. A play that
/// does not lays the card on the table and changes nothing else.
pub proof fn lemma_play_announces(game: GameView, id: Seq<char>, card: Card, deck: Seq<Card>)
    requires
        game.wf(),
        game.play_error(id, card) is None,
    ensures
        tricks_announced(react(game, id, Action::PlayCard(card), deck).events) == if game.trick.len()
            + 1 == game.players.len() {
            1nat
        } else {
            0nat
        },
        game.trick.len() + 1 != game.players.len() ==> react(
            game,
            id,
            Action::PlayCard(card),
            deck,
        ).game == game.played(id, card),
{
    let played = game.played(id, card);
    let rest = finish_if_ready(played, id, deck);
    let told = to_all(played, EventView::CardPlayed { player_id: id, card });
    let hand = to_one(played, id, hand_of(played, id));
    lemma_announced_none(told);
    lemma_announced_none(hand);
    lemma_announced_add(told, hand);
    lemma_announced_add(told + hand, rest.events);
    if played.trick.len() == played.players.len() {
        lemma_played_wf(game, id, card);
        lemma_finalize_announces_once(played, id, deck);
    }
}

/// Resolving a trick gives exactly one player exactly one trick more and
/// changes no other player.
pub proof fn lemma_one_winner(game: GameView)
    requires
        game.wf(),
        game.trick.len() > 0,
    ensures
        exists|winner: int|
            {
                &&& 0 <= winner < game.players.len()
                &&& game.resolved().players.len() == game.players.len()
                &&& #[trigger] game.resolved().players[winner].tricks_won
                    == game.players[winner].tricks_won + 1
                &&& forall|other: int|
                    0 <= other < game.players.len() && other != winner
                        ==> #[trigger] game.resolved().players[other] == game.players[other]
            },
{
    lemma_trick_winner(game);
    let winner = game.seat(game.trick_winner());
    assert(game.resolved().players[winner].tricks_won == game.players[winner].tricks_won + 1);
}

/// As many accepted plays as players are seated, onto an empty table and in
/// whatever order the players come, lead to exactly one resolved trick:
/// none of the plays before the last tells of one, the last does so once,
/// and the trick it completes holds one card for each seat.
pub proof fn lemma_full_trick_resolves_once(
    game: GameView,
    plays: Seq<PlayView>,
    decks: Seq<Seq<Card>>,
)
    requires
        game.wf(),
        game.trick.len() == 0,
        plays.len() == game.players.len(),
        plays.len() > 0,
        forall|k: int|
            0 <= k < plays.len() ==> play_all(game, #[trigger] plays.take(k), decks).game.play_error(
                plays[k].0,
                plays[k].1,
            ) is None,
    ensures
        tricks_announced(play_all(game, plays, decks).events) == 1,
        forall|k: int|
            0 <= k < plays.len() ==> tricks_announced(
                play_all(game, #[trigger] plays.take(k), decks).events,
            ) == 0,
        play_all(game, plays.drop_last(), decks).game.played(
            plays.last().0,
            plays.last().1,
        ).trick.len() == game.players.len(),
{
    let seats = plays.len() as int;
    assert forall|k: int| 0 <= k < seats implies tricks_announced(
        play_all(game, #[trigger] plays.take(k), decks).events,
    ) == 0 by {
        lemma_partial_trick(game, plays, decks, k);
    }
    lemma_partial_trick(game, plays, decks, seats - 1);
    let before = play_all(game, plays.drop_last(), decks);
    lemma_play_announces(before.game, plays.last().0, plays.last().1, decks[seats - 1]);
    let last = react(
        before.game,
        plays.last().0,
        Action::PlayCard(plays.last().1),
        decks[seats - 1],
    );
    lemma_announced_add(before.events, last.events);
}

/// Fewer accepted plays than players are seated, onto an empty table, leave
/// the cards on the table, one for each play, and tell of no resolved trick.
pub proof fn lemma_partial_trick(
    game: GameView,
    plays: Seq<PlayView>,
    decks: Seq<Seq<Card>>,
    k: int,
)
    requires
        game.wf(),
        game.trick.len() == 0,
        0 <= k < game.players.len(),
        k <= plays.len(),
        forall|j: int|
            0 <= j < k ==> play_all(game, #[trigger] plays.take(j), decks).game.play_error(
                plays[j].0,
                plays[j].1,
            ) is None,
    ensures
        play_all(game, plays.take(k), decks).game.wf(),
        play_all(game, plays.take(k), decks).game.trick.len() == k,
        play_all(game, plays.take(k), decks).game.players.len() == game.players.len(),
        tricks_announced(play_all(game, plays.take(k), decks).events) == 0,
    decreases k,
{
    if k > 0 {
        lemma_partial_trick(game, plays, decks, k - 1);
        let run = plays.take(k);
        assert(run.drop_last() =~= plays.take(k - 1));
        let before = play_all(game, plays.take(k - 1), decks);
        let last = react(before.game, run.last().0, Action::PlayCard(run.last().1), decks[k - 1]);
        lemma_play_announces(before.game, run.last().0, run.last().1, decks[k - 1]);
        lemma_played_wf(before.game, run.last().0, run.last().1);
        lemma_announced_add(before.events, last.events);
    } else {
    }
}

/// The step to the next round keeps the invariant of the match.
pub proof fn lemma_advance_keeps_invariant(game: GameView, id: Seq<char>, deck: Seq<Card>)
    requires
        game.wf(),
    ensures
        advance(game, id, deck).game.wf(),
{
    if game.advance_error(deck) is None {
        lemma_advanced_wf(game, deck);
    }
}

/// Resolving the trick, with what follows from it, keeps the invariant of
/// the match.
pub proof fn lemma_finalize_keeps_invariant(game: GameView, id: Seq<char>, deck: Seq<Card>)
    requires
        game.wf(),
    ensures
        finalize(game, id, deck).game.wf(),
{
    lemma_resolved_wf(game);
    lemma_advance_keeps_invariant(game.resolved(), id, deck);
}

/// Whatever a player asks for and whoever comes or goes, the hub keeps the
/// invariant of the match.
pub proof fn lemma_hub_keeps_invariant(
    game: GameView,
    id: Seq<char>,
    action: Action,
    deck: Seq<Card>,
)
    requires
        game.wf(),
    ensures
        react(game, id, action, deck).game.wf(),
        game.join_error(id) is None ==> connected(game, id).game.wf(),
        disconnected(game, id).game.wf(),
{
    match action {
        Action::StartMatch => {
            if game.start_error(deck) is None {
                lemma_started_wf(game, deck);
            }
        },
        Action::PlayCard(card) => {
            if game.play_error(id, card) is None {
                lemma_played_wf(game, id, card);
                lemma_finalize_keeps_invariant(game.played(id, card), id, deck);
            }
        },
        Action::MakePrediction(prediction) => {
            if game.predict_error(id, prediction) is None {
                lemma_predicted_wf(game, id, prediction);
            }
        },
        Action::EndTrick => {
            lemma_finalize_keeps_invariant(game, id, deck);
        },
        Action::NextRound => {
            lemma_advance_keeps_invariant(game, id, deck);
        },
    }
    if game.join_error(id) is None {
        lemma_joined_wf(game, id);
    }
    lemma_left_wf(game, id);
}

/// The last trick of the last round ends the match without a deal. All
/// learn of the trick, then of the round's results, then of the same
/// results as the final ones; the players keep their predictions and the
/// tricks they have won, and the match is over.
pub proof fn lemma_last_trick_ends_the_match(game: GameView, id: Seq<char>, deck: Seq<Card>)
    requires
        game.wf(),
        game.started,
        game.trick.len() > 0,
        game.round_number == game.starting_cards,
        game.resolved().round_over(),
    ensures
        finalize(game, id, deck).game == game.resolved().ended(),
        finalize(game, id, deck).game.is_over(),
        finalize(game, id, deck).game.players == game.resolved().players,
        finalize(game, id, deck).events == to_all(
            game.resolved(),
            EventView::TurnEnded {
                winner_id: game.trick_winner(),
                standings: standings(game.resolved()),
            },
        ) + to_all(
            game.resolved(),
            EventView::RoundEnded { results: game.resolved().round_results() },
        ) + to_all(
            game.resolved().ended(),
            EventView::GameOver { results: game.resolved().round_results() },
        ),
{
    lemma_trick_winner(game);
}

/// A match that is over stays over. No request changes it and nobody
/// joins or asks to leave. A connection that goes takes its player's seat
/// with it and changes nothing else.
pub proof fn lemma_over_is_final(game: GameView, id: Seq<char>, action: Action, deck: Seq<Card>)
    requires
        game.wf(),
        game.is_over(),
    ensures
        react(game, id, action, deck).game == game,
        game.join_error(id) is Some,
        game.leave_error(id) is Some,
        disconnected(game, id).game.is_over(),
        disconnected(game, id).game == (GameView {
            players: disconnected(game, id).game.players,
            ..game
        }),
{
    assert(game.trick =~= Seq::empty());
}

} // verus!
