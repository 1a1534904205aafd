//! Every operation of the engine keeps the invariant of the match.

use crate::card::{Card, Suit};
use crate::deck::{hand_size, lemma_deal_place, lemma_deal_places_differ};
use crate::model::{
    hand_counts, trick_counts, winning_play, without_player, GameView, PlayView,
};
use crate::sums::{
    lemma_total_bounds, lemma_total_constant, lemma_total_push, lemma_total_remove,
    lemma_total_update,
};
use vstd::prelude::*;

verus! {

/// Where identifiers are unique, the seat of a player's identifier is the
/// player's own.
pub proof fn lemma_seat(game: GameView, i: int)
    requires
        game.ids_unique(),
        0 <= i < game.players.len(),
    ensures
        game.has_player(game.players[i].id),
        game.seat(game.players[i].id) == i,
{
    let s = game.seat(game.players[i].id);
    assert(0 <= s < game.players.len() && game.players[s].id == game.players[i].id);
}

/// The winning card of a trick that holds a card is one of its cards. No
/// later card wins over it, and unless it is the first it wins over the
/// best of the cards before it.
pub proof fn lemma_winning_play(trick: Seq<PlayView>, leading_suit: Suit)
    requires
        trick.len() > 0,
    ensures
        0 <= winning_play(trick, leading_suit) < trick.len(),
        forall|k: int|
            winning_play(trick, leading_suit) < k < trick.len() ==> !(#[trigger] trick[k]).1.spec_beats_custom(
                trick[winning_play(trick, leading_suit)].1,
                leading_suit,
            ),
        winning_play(trick, leading_suit) > 0 ==> trick[winning_play(
            trick,
            leading_suit,
        )].1.spec_beats_custom(
            trick[winning_play(trick.take(winning_play(trick, leading_suit)), leading_suit)].1,
            leading_suit,
        ),
    decreases trick.len(),
{
    if trick.len() > 1 {
        let rest = trick.drop_last();
        lemma_winning_play(rest, leading_suit);
        let best = winning_play(rest, leading_suit);
        let w = winning_play(trick, leading_suit);
        if w == best {
            assert(rest.take(w) =~= trick.take(w));
            if w > 0 {
                lemma_winning_play(rest.take(w), leading_suit);
            }
            assert forall|k: int| w < k < trick.len() implies !(#[trigger] trick[k]).1.spec_beats_custom(
                trick[w].1,
                leading_suit,
            ) by {
                if k < trick.len() - 1 {
                    assert(rest[k] == trick[k]);
                }
            }
        }
    }
}

/// A trick of which no later card wins over the first is won by the first.
pub proof fn lemma_first_card_stays(trick: Seq<PlayView>, leading_suit: Suit)
    requires
        forall|k: int|
            1 <= k < trick.len() ==> !(#[trigger] trick[k]).1.spec_beats_custom(
                trick[0].1,
                leading_suit,
            ),
    ensures
        winning_play(trick, leading_suit) == 0,
    decreases trick.len(),
{
    if trick.len() > 1 {
        let rest = trick.drop_last();
        lemma_first_card_stays(rest, leading_suit);
    }
}

/// What is left of a trick without one player's cards: each card that is
/// left was on the table and belongs to another player, and cards that all
/// differed still do.
pub proof fn lemma_without_player(trick: Seq<PlayView>, id: Seq<char>)
    ensures
        without_player(trick, id).len() <= trick.len(),
        forall|k: int|
            0 <= k < without_player(trick, id).len() ==> (#[trigger] without_player(trick, id)[k]).0
                != id && trick.contains(without_player(trick, id)[k]),
        forall|m: int|
            0 <= m < trick.len() && (#[trigger] trick[m]).0 != id ==> without_player(
                trick,
                id,
            ).contains(trick[m]),
        (forall|k: int, l: int|
            #![trigger trick[k], trick[l]]
            0 <= k < trick.len() && 0 <= l < trick.len() && k != l ==> trick[k].1 != trick[l].1)
            ==> (forall|k: int, l: int|
            #![trigger without_player(trick, id)[k], without_player(trick, id)[l]]
            0 <= k < without_player(trick, id).len() && 0 <= l < without_player(trick, id).len()
                && k != l ==> without_player(trick, id)[k].1 != without_player(trick, id)[l].1),
    decreases trick.len(),
{
    if trick.len() > 0 {
        let rest = trick.drop_last();
        let kept = without_player(rest, id);
        let out = without_player(trick, id);
        lemma_without_player(rest, id);
        assert forall|m: int| 0 <= m < trick.len() && (#[trigger] trick[m]).0 != id implies out.contains(
            trick[m],
        ) by {
            if m < rest.len() {
                let k = choose|k: int| 0 <= k < kept.len() && kept[k] == rest[m];
                assert(out[k] == trick[m]);
            } else {
                assert(out[out.len() - 1] == trick[m]);
            }
        }
    }
}

/// Taking a seat keeps the invariant.
pub proof fn lemma_joined_wf(game: GameView, id: Seq<char>)
    requires
        game.wf(),
        game.join_error(id) is None,
    ensures
        game.joined(id).wf(),
{
    let after = game.joined(id);
    assert(trick_counts(after.players) =~= trick_counts(game.players).push(0));
    assert(hand_counts(after.players) =~= hand_counts(game.players).push(0));
    lemma_total_push(trick_counts(game.players), 0);
    lemma_total_push(hand_counts(game.players), 0);
}

/// Taking a player's seat away keeps the invariant, whatever the state of
/// the match.
pub proof fn lemma_left_wf(game: GameView, id: Seq<char>)
    requires
        game.wf(),
    ensures
        game.left(id).wf(),
{
    if game.has_player(id) {
        let after = game.left(id);
        let s = game.seat(id);
        lemma_without_player(game.trick, id);
        game.players.remove_ensures(s);
        assert(after.trick_seated()) by {
            assert forall|k: int| 0 <= k < after.trick.len() implies after.has_player(
                (#[trigger] after.trick[k]).0,
            ) by {
                let entry = after.trick[k];
                let t = game.seat(entry.0);
                let t1 = if t < s {
                    t
                } else {
                    t - 1
                };
                assert(after.players[t1] == game.players[t]);
            }
        }
        assert(trick_counts(after.players) =~= trick_counts(game.players).remove(s));
        assert(hand_counts(after.players) =~= hand_counts(game.players).remove(s));
        lemma_total_remove(trick_counts(game.players), s);
        lemma_total_remove(hand_counts(game.players), s);
        assert(after.players.len() * after.starting_cards <= game.players.len()
            * game.starting_cards) by (nonlinear_arith)
            requires
                after.players.len() <= game.players.len(),
                after.starting_cards == game.starting_cards,
        ;
    }
}

/// A deal from a deck of different cards that holds enough of them sets up
/// a round that meets the invariant, with hands of the round's size.
pub proof fn lemma_dealt_wf(game: GameView, deck: Seq<Card>, round_number: nat)
    requires
        game.ids_unique(),
        deck.no_duplicates(),
        deck.len() <= 40,
        1 <= round_number <= game.starting_cards + 1,
        game.starting_cards <= 40,
        game.players.len() * game.starting_cards <= 40,
        game.players.len() * hand_size(game.starting_cards as int, round_number as int)
            <= deck.len(),
    ensures
        game.dealt(deck, round_number).wf(),
        forall|i: int|
            0 <= i < game.players.len() ==> (#[trigger] game.dealt(
                deck,
                round_number,
            ).players[i]).hand.len() == hand_size(game.starting_cards as int, round_number as int),
        game.dealt(deck, round_number).cards_in_hands() == hand_size(
            game.starting_cards as int,
            round_number as int,
        ) * game.players.len(),
{
    let after = game.dealt(deck, round_number);
    let size = hand_size(game.starting_cards as int, round_number as int);
    let n = game.players.len() as int;
    lemma_total_constant(trick_counts(after.players), 0);
    lemma_total_constant(hand_counts(after.players), size as nat);
    assert(after.cards_distinct()) by {
        assert forall|i: int, a: int, j: int, b: int|
            #![trigger after.players[i].hand[a], after.players[j].hand[b]]
            after.holds(i, a) && after.holds(j, b) && (i != j || a != b) implies after.players[i].hand[a]
            != after.players[j].hand[b] by {
            lemma_deal_place(n, size, i, a);
            lemma_deal_place(n, size, j, b);
            lemma_deal_places_differ(n, i, a, j, b);
        }
        assert forall|i: int, a: int, d: int|
            #![trigger after.players[i].hand[a], after.deck[d]]
            after.holds(i, a) && 0 <= d < after.deck.len() implies after.players[i].hand[a]
            != after.deck[d] by {
            lemma_deal_place(n, size, i, a);
        }
    }
}

/// Declaring a prediction keeps the invariant.
pub proof fn lemma_predicted_wf(game: GameView, id: Seq<char>, value: u8)
    requires
        game.wf(),
        game.predict_error(id, value) is None,
    ensures
        game.predicted(id, value).wf(),
{
    let after = game.predicted(id, value);
    assert(trick_counts(after.players) =~= trick_counts(game.players));
    assert(hand_counts(after.players) =~= hand_counts(game.players));
    assert(after.trick_seated()) by {
        assert forall|k: int| 0 <= k < after.trick.len() implies after.has_player(
            (#[trigger] after.trick[k]).0,
        ) by {
            let t = game.seat(game.trick[k].0);
            assert(after.players[t].id == game.players[t].id);
        }
    }
}

/// Playing a card keeps the invariant, and takes one card from the hands.
pub proof fn lemma_played_wf(game: GameView, id: Seq<char>, card: Card)
    requires
        game.wf(),
        game.play_error(id, card) is None,
    ensures
        game.played(id, card).wf(),
        game.played(id, card).cards_in_hands() + 1 == game.cards_in_hands(),
        game.played(id, card).total_tricks() == game.total_tricks(),
{
    let after = game.played(id, card);
    let s = game.seat(id);
    let hand = game.players[s].hand;
    let at = hand.index_of(card);
    hand.remove_ensures(at);
    assert(trick_counts(after.players) =~= trick_counts(game.players));
    assert(hand_counts(after.players) =~= hand_counts(game.players).update(
        s,
        (hand.len() - 1) as nat,
    ));
    lemma_total_update(hand_counts(game.players), s, (hand.len() - 1) as nat);
    assert(after.trick_seated()) by {
        assert forall|k: int| 0 <= k < after.trick.len() implies after.has_player(
            (#[trigger] after.trick[k]).0,
        ) by {
            if k < game.trick.len() {
                let t = game.seat(game.trick[k].0);
                assert(after.players[t].id == game.players[t].id);
            } else {
                assert(after.players[s].id == id);
            }
        }
    }
}

/// A card that is played has left every hand and lies on the table, and no
/// hand holds a card that it did not hold before.
pub proof fn lemma_played_card_leaves_hands(game: GameView, id: Seq<char>, card: Card)
    requires
        game.wf(),
        game.play_error(id, card) is None,
    ensures
        !game.played(id, card).in_hands(card),
        game.played(id, card).on_table(card),
        forall|other: Card| game.played(id, card).in_hands(other) ==> game.in_hands(other),
{
    let after = game.played(id, card);
    let s = game.seat(id);
    let hand = game.players[s].hand;
    let at = hand.index_of(card);
    hand.remove_ensures(at);
    lemma_played_wf(game, id, card);
    assert(after.trick[after.trick.len() - 1].1 == card);
    if after.in_hands(card) {
        let (i, a) = choose|i: int, a: int|
            after.holds(i, a) && #[trigger] after.players[i].hand[a] == card;
        assert(after.players[i].hand[a] != after.trick[after.trick.len() - 1].1);
    }
    assert forall|other: Card| after.in_hands(other) implies game.in_hands(other) by {
        let (i, a) = choose|i: int, a: int|
            after.holds(i, a) && #[trigger] after.players[i].hand[a] == other;
        let before = if i == s && a >= at {
            a + 1
        } else {
            a
        };
        assert(game.holds(i, before) && game.players[i].hand[before] == other);
    }
}

/// The cards of a resolved trick are gone: they are in no hand, not on the
/// table and not in the deck, and no hand has changed.
pub proof fn lemma_resolved_cards_are_gone(game: GameView, card: Card)
    requires
        game.wf(),
        game.on_table(card),
    ensures
        !game.resolved().in_hands(card),
        !game.resolved().on_table(card),
        !game.resolved().deck.contains(card),
        forall|other: Card| game.resolved().in_hands(other) <==> game.in_hands(other),
{
    let after = game.resolved();
    lemma_trick_winner(game);
    let k = choose|k: int| 0 <= k < game.trick.len() && (#[trigger] game.trick[k]).1 == card;
    assert forall|i: int, a: int| after.holds(i, a) == game.holds(i, a) && (after.holds(i, a)
        ==> after.players[i].hand[a] == game.players[i].hand[a]) by {}
    if after.in_hands(card) {
        let (i, a) = choose|i: int, a: int|
            after.holds(i, a) && #[trigger] after.players[i].hand[a] == card;
        assert(game.players[i].hand[a] != game.trick[k].1);
    }
    if after.deck.contains(card) {
        let d = choose|d: int| 0 <= d < game.deck.len() && game.deck[d] == card;
        assert(game.trick[k].1 != game.deck[d]);
    }
    assert forall|other: Card| after.in_hands(other) <==> game.in_hands(other) by {
        if after.in_hands(other) {
            let (i, a) = choose|i: int, a: int|
                after.holds(i, a) && #[trigger] after.players[i].hand[a] == other;
            assert(game.holds(i, a) && game.players[i].hand[a] == other);
        }
        if game.in_hands(other) {
            let (i, a) = choose|i: int, a: int|
                game.holds(i, a) && #[trigger] game.players[i].hand[a] == other;
            assert(after.holds(i, a) && after.players[i].hand[a] == other);
        }
    }
}

/// The winner of a trick on the table is seated and has won fewer than
/// forty tricks.
pub proof fn lemma_trick_winner(game: GameView)
    requires
        game.wf(),
        game.trick.len() > 0,
    ensures
        game.has_player(game.trick_winner()),
        0 <= game.seat(game.trick_winner()) < game.players.len(),
        game.players[game.seat(game.trick_winner())].id == game.trick_winner(),
        game.players[game.seat(game.trick_winner())].tricks_won < 40,
{
    lemma_winning_play(game.trick, game.trick[0].1.suit);
    lemma_total_bounds(trick_counts(game.players), game.seat(game.trick_winner()));
}

/// Resolving the trick keeps the invariant.
pub proof fn lemma_resolved_wf(game: GameView)
    requires
        game.wf(),
    ensures
        game.resolved().wf(),
        game.trick.len() > 0 ==> game.resolved().total_tricks() == game.total_tricks() + 1,
        game.resolved().cards_in_hands() == game.cards_in_hands(),
{
    if game.trick.len() > 0 {
        let after = game.resolved();
        lemma_trick_winner(game);
        let s = game.seat(game.trick_winner());
        assert(trick_counts(after.players) =~= trick_counts(game.players).update(
            s,
            game.players[s].tricks_won + 1,
        ));
        lemma_total_update(trick_counts(game.players), s, game.players[s].tricks_won + 1);
        assert(hand_counts(after.players) =~= hand_counts(game.players));
    }
}

/// The start of the match sets up a first round that meets the invariant,
/// with hands of `starting_cards` cards.
pub proof fn lemma_started_wf(game: GameView, deck: Seq<Card>)
    requires
        game.wf(),
        game.start_error(deck) is None,
    ensures
        game.started_with(deck).wf(),
        game.started_with(deck).cards_in_hands() == game.starting_cards * game.players.len(),
{
    assert(game.starting_cards <= game.players.len() * game.starting_cards) by (nonlinear_arith)
        requires
            game.players.len() >= 1,
    ;
    lemma_dealt_wf(game, deck, 1);
}

/// The step to the next round keeps the invariant. It sets up a round with
/// hands one card smaller than in the round before; after the last round
/// it ends the match, with empty hands and with every player's prediction
/// and tricks as they were.
pub proof fn lemma_advanced_wf(game: GameView, deck: Seq<Card>)
    requires
        game.wf(),
        game.advance_error(deck) is None,
    ensures
        game.advanced_with(deck).wf(),
        game.advanced_with(deck).cards_in_hands() == (game.round_hand_size() - 1)
            * game.players.len(),
        game.is_last_round() ==> game.advanced_with(deck).is_over() && game.advanced_with(
            deck,
        ).players == game.players,
        !game.is_last_round() ==> !game.advanced_with(deck).is_over(),
{
    let size = game.round_hand_size() - 1;
    if game.is_last_round() {
        lemma_total_constant(hand_counts(game.players), 0);
        assert(size * game.players.len() == 0) by (nonlinear_arith)
            requires
                size == 0,
        ;
    } else {
        assert(game.players.len() * size <= game.players.len() * game.starting_cards)
            by (nonlinear_arith)
            requires
                0 <= size <= game.starting_cards,
        ;
        lemma_dealt_wf(game, deck, game.round_number + 1);
    }
}

/// A second deal of the current round from the match's own deck keeps the
/// invariant.
pub proof fn lemma_redealt_wf(game: GameView)
    requires
        game.wf(),
        game.redeal_error() is None,
    ensures
        game.redealt().wf(),
        game.redealt().cards_in_hands() == game.round_hand_size() * game.players.len(),
{
    lemma_dealt_wf(game, game.deck, game.round_number);
}

} // verus!
