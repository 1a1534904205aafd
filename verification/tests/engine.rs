use bisca::card::{Card, Suit, Value};
use bisca::deck::{build_deck, is_complete};
use bisca::error::GameError;
use bisca::game::{position_of, GameState};
use bisca::model::Phase;
use bisca::player::Player;

fn card(suit: Suit, value: Value) -> Card {
    Card { suit, value }
}

/// A full deck from whose end the given cards are dealt first, in order.
fn deck_dealing(first: &[Card]) -> Vec<Card> {
    let mut deck: Vec<Card> = build_deck().into_iter().filter(|c| !first.contains(c)).collect();
    deck.extend(first.iter().rev().copied());
    assert!(is_complete(&deck));
    deck
}

fn seated(names: &[&str], starting_cards: usize) -> GameState {
    let mut game = GameState::new_game(names.len(), starting_cards);
    for name in names {
        assert_eq!(game.add_player(Player::new(name.to_string())), Ok(()));
    }
    game
}

fn hand(game: &GameState, seat: usize) -> Vec<Card> {
    game.players()[seat].hand.clone()
}

fn all_cards(game: &GameState) -> Vec<Card> {
    let mut cards = game.deck().clone();
    for player in game.players() {
        cards.extend(player.hand.iter().copied());
    }
    cards.extend(game.current_turn_cards().iter().map(|(_, c)| *c));
    cards
}

fn no_duplicates(cards: &[Card]) -> bool {
    (0..cards.len()).all(|i| (0..i).all(|j| cards[i] != cards[j]))
}

#[test]
fn new_match_is_forming_with_a_full_deck() {
    let game = GameState::new_game(3, 5);
    assert!(game.players().is_empty());
    assert_eq!(game.round_number(), 1);
    assert_eq!(game.starting_cards(), 5);
    assert!(is_complete(game.deck()));
    assert!(game.current_turn_cards().is_empty());
    assert_eq!(game.leading_suit(), None);
    assert!(!game.is_started());
    assert!(!game.is_game_over());
    assert_eq!(game.phase(), Phase::Forming);
    let huge = GameState::new_game(usize::MAX, 5);
    assert!(huge.players().is_empty());
}

#[test]
fn new_player_is_fresh() {
    let player = Player::new("anna".to_string());
    assert_eq!(player.id, "anna");
    assert!(player.hand.is_empty());
    assert_eq!(player.prediction, None);
    assert_eq!(player.tricks_won, 0);
}

#[test]
fn join_seats_players_in_order() {
    let game = seated(&["anna", "bruno", "carla"], 5);
    let ids: Vec<&str> = game.players().iter().map(|p| p.id.as_str()).collect();
    assert_eq!(ids, vec!["anna", "bruno", "carla"]);
    assert_eq!(game.player_index("bruno"), Some(1));
    assert_eq!(game.player_index("dario"), None);
}

#[test]
fn join_refuses_a_seated_identifier() {
    let mut game = seated(&["anna"], 5);
    assert_eq!(game.add_player(Player::new("anna".to_string())), Err(GameError::DuplicatePlayer));
    assert_eq!(game.players().len(), 1);
}

#[test]
fn join_seats_a_fresh_player_whatever_is_given() {
    let mut game = GameState::new_game(1, 5);
    let loaded = Player {
        id: "anna".to_string(),
        hand: vec![card(Suit::Denari, Value::Asso)],
        prediction: Some(3),
        tricks_won: 7,
    };
    assert_eq!(game.add_player(loaded), Ok(()));
    assert!(game.players()[0].hand.is_empty());
    assert_eq!(game.players()[0].prediction, None);
    assert_eq!(game.players()[0].tricks_won, 0);
}

#[test]
fn join_is_refused_once_the_match_has_started() {
    let mut game = seated(&["anna", "bruno"], 5);
    assert_eq!(game.start_game(), Ok(()));
    assert_eq!(
        game.add_player(Player::new("carla".to_string())),
        Err(GameError::MatchAlreadyStarted)
    );
    assert_eq!(game.players().len(), 2);
}

#[test]
fn start_needs_a_player() {
    let mut game = GameState::new_game(0, 5);
    assert_eq!(game.start_game(), Err(GameError::NoPlayers));
    assert!(!game.is_started());
    assert_eq!(game.phase(), Phase::Forming);
}

#[test]
fn start_deals_the_first_round() {
    let mut game = seated(&["anna", "bruno", "carla"], 5);
    assert_eq!(game.start_game_with(build_deck()), Ok(()));
    assert!(game.is_started());
    assert_eq!(game.round_number(), 1);
    assert_eq!(game.phase(), Phase::Predicting);
    let deck = build_deck();
    for seat in 0..3 {
        let expected: Vec<Card> = (0..5).map(|turn| deck[39 - (turn * 3 + seat)]).collect();
        assert_eq!(hand(&game, seat), expected);
        assert_eq!(game.players()[seat].prediction, None);
        assert_eq!(game.players()[seat].tricks_won, 0);
    }
    assert_eq!(game.deck(), &deck[..25].to_vec());
    assert!(is_complete(&all_cards(&game)));
}

#[test]
fn start_twice_is_refused() {
    let mut game = seated(&["anna"], 5);
    assert_eq!(game.start_game(), Ok(()));
    let before = hand(&game, 0);
    assert_eq!(game.start_game(), Err(GameError::MatchAlreadyStarted));
    assert_eq!(game.start_game_with(build_deck()), Err(GameError::MatchAlreadyStarted));
    assert_eq!(hand(&game, 0), before);
}

#[test]
fn start_refuses_a_deck_that_is_not_the_forty_cards() {
    let mut game = seated(&["anna"], 5);
    let mut deck = build_deck();
    deck[0] = deck[1];
    assert_eq!(game.start_game_with(deck), Err(GameError::InvalidDeck));
    let mut short = build_deck();
    short.pop();
    assert_eq!(game.start_game_with(short), Err(GameError::InvalidDeck));
    assert!(!game.is_started());
    assert!(game.players()[0].hand.is_empty());
}

#[test]
fn start_fails_loudly_when_the_deck_cannot_serve_all() {
    let mut game = seated(&["a", "b", "c", "d", "e", "f", "g", "h", "i"], 5);
    assert_eq!(game.start_game(), Err(GameError::NotEnoughCards));
    assert!(!game.is_started());
    assert!(game.players().iter().all(|p| p.hand.is_empty()));
    assert_eq!(game.deck().len(), 40);
    let mut exact = seated(&["a", "b", "c", "d", "e", "f", "g", "h"], 5);
    assert_eq!(exact.start_game(), Ok(()));
    assert!(exact.deck().is_empty());
}

#[test]
fn hands_total_matches_round_after_every_deal() {
    let mut game = seated(&["anna", "bruno", "carla"], 4);
    assert_eq!(game.start_game(), Ok(()));
    for round in 1..=4usize {
        assert_eq!(game.round_number(), round);
        let total: usize = game.players().iter().map(|p| p.hand.len()).sum();
        assert_eq!(total, (4 - (round - 1)) * 3);
        assert!(game.players().iter().all(|p| p.hand.len() == 4 - (round - 1)));
        assert!(is_complete(&all_cards(&game)));
        while !game.is_round_over() {
            for seat in 0..3 {
                let id = game.players()[seat].id.clone();
                let c = game.players()[seat].hand[0];
                assert_eq!(game.play_card(&id, c), Ok(()));
            }
            assert!(no_duplicates(&all_cards(&game)));
            assert!(game.end_turn().is_some());
        }
        assert_eq!(game.next_round(), Ok(()));
    }
    assert!(game.is_game_over());
    assert_eq!(game.round_number(), 5);
    assert!(game.players().iter().all(|p| p.hand.is_empty()));
}

#[test]
fn last_player_may_not_close_the_total() {
    let mut game = seated(&["anna", "bruno", "carla"], 5);
    assert_eq!(game.start_game(), Ok(()));
    assert_eq!(game.make_prediction("anna", 2), Ok(()));
    assert_eq!(game.make_prediction("bruno", 1), Ok(()));
    assert_eq!(game.phase(), Phase::Predicting);
    assert_eq!(game.make_prediction("carla", 2), Err(GameError::InvalidPrediction));
    assert_eq!(game.players()[2].prediction, None);
    assert_eq!(game.make_prediction("carla", 3), Ok(()));
    assert_eq!(game.players()[0].prediction, Some(2));
    assert_eq!(game.players()[1].prediction, Some(1));
    assert_eq!(game.players()[2].prediction, Some(3));
    assert_eq!(game.phase(), Phase::Playing);
}

#[test]
fn earlier_players_may_predict_anything() {
    let mut game = seated(&["anna", "bruno", "carla"], 5);
    assert_eq!(game.start_game(), Ok(()));
    assert_eq!(game.make_prediction("anna", 5), Ok(()));
    assert_eq!(game.make_prediction("bruno", 0), Ok(()));
    assert_eq!(game.make_prediction("carla", 0), Err(GameError::InvalidPrediction));
    assert_eq!(game.make_prediction("carla", 255), Ok(()));
}

#[test]
fn single_player_may_not_predict_the_hand_size() {
    let mut game = seated(&["anna"], 3);
    assert_eq!(game.start_game(), Ok(()));
    assert_eq!(game.make_prediction("anna", 3), Err(GameError::InvalidPrediction));
    assert_eq!(game.make_prediction("anna", 2), Ok(()));
}

#[test]
fn prediction_of_an_unknown_player_is_refused() {
    let mut game = seated(&["anna"], 3);
    assert_eq!(game.make_prediction("anna", 1), Err(GameError::MatchNotStarted));
    assert_eq!(game.start_game(), Ok(()));
    assert_eq!(game.make_prediction("zeno", 1), Err(GameError::UnknownPlayer));
}

#[test]
fn play_moves_the_card_to_the_table() {
    let mut game = seated(&["anna", "bruno"], 3);
    assert_eq!(game.start_game_with(build_deck()), Ok(()));
    let before = hand(&game, 0);
    let played = before[1];
    assert_eq!(position_of(&before, &played), Some(1));
    assert_eq!(game.play_card("anna", played), Ok(()));
    assert_eq!(hand(&game, 0), vec![before[0], before[2]]);
    assert_eq!(game.current_turn_cards(), &vec![("anna".to_string(), played)]);
    assert_eq!(game.leading_suit(), Some(played.suit));
    assert_eq!(hand(&game, 1).len(), 3);
}

#[test]
fn first_card_sets_the_leading_suit() {
    let first = card(Suit::Spade, Value::Tre);
    let second = card(Suit::Denari, Value::Asso);
    let mut game = seated(&["anna", "bruno"], 1);
    assert_eq!(game.start_game_with(deck_dealing(&[first, second])), Ok(()));
    assert_eq!(game.leading_suit(), None);
    assert_eq!(game.play_card("anna", first), Ok(()));
    assert_eq!(game.leading_suit(), Some(Suit::Spade));
    assert_eq!(game.play_card("bruno", second), Ok(()));
    assert_eq!(game.leading_suit(), Some(Suit::Spade));
    assert_eq!(game.end_turn(), Some("bruno".to_string()));
    assert_eq!(game.leading_suit(), None);
}

#[test]
fn play_is_refused_with_the_reason() {
    let mut game = seated(&["anna", "bruno"], 2);
    let c = card(Suit::Denari, Value::Asso);
    assert_eq!(game.play_card("anna", c), Err(GameError::MatchNotStarted));
    assert_eq!(game.start_game_with(build_deck()), Ok(()));
    assert_eq!(game.play_card("zeno", c), Err(GameError::UnknownPlayer));
    assert_eq!(game.play_card("anna", c), Err(GameError::CardNotInHand));
    let bruno_card = hand(&game, 1)[0];
    assert_eq!(game.play_card("anna", bruno_card), Err(GameError::CardNotInHand));
    assert!(game.current_turn_cards().is_empty());
    assert_eq!(hand(&game, 0).len(), 2);
    assert_eq!(position_of(&hand(&game, 0), &c), None);
}

#[test]
fn played_card_cannot_be_played_again() {
    let mut game = seated(&["anna", "bruno"], 2);
    assert_eq!(game.start_game(), Ok(()));
    let c = hand(&game, 0)[0];
    assert_eq!(game.play_card("anna", c), Ok(()));
    assert_eq!(game.play_card("anna", c), Err(GameError::CardNotInHand));
    assert_eq!(game.play_card("bruno", c), Err(GameError::CardNotInHand));
}

#[test]
fn empty_trick_has_no_winner() {
    let mut game = seated(&["anna", "bruno"], 2);
    assert_eq!(game.end_turn(), None);
    assert_eq!(game.start_game(), Ok(()));
    assert_eq!(game.end_turn(), None);
    assert!(game.players().iter().all(|p| p.tricks_won == 0));
}

#[test]
fn higher_rank_of_the_led_suit_wins_the_trick() {
    let due = card(Suit::Denari, Value::Due);
    let re = card(Suit::Denari, Value::Re);
    let mut game = seated(&["anna", "bruno"], 1);
    assert_eq!(game.start_game_with(deck_dealing(&[due, re])), Ok(()));
    assert_eq!(hand(&game, 0), vec![due]);
    assert_eq!(hand(&game, 1), vec![re]);
    assert_eq!(game.play_card("anna", due), Ok(()));
    assert_eq!(game.play_card("bruno", re), Ok(()));
    assert_eq!(game.leading_suit(), Some(Suit::Denari));
    assert_eq!(game.end_turn(), Some("bruno".to_string()));
    assert_eq!(game.players()[0].tricks_won, 0);
    assert_eq!(game.players()[1].tricks_won, 1);
    assert!(game.current_turn_cards().is_empty());
    assert_eq!(game.leading_suit(), None);
}

#[test]
fn first_played_card_keeps_the_trick_when_no_other_beats_it() {
    let re = card(Suit::Denari, Value::Re);
    let due = card(Suit::Denari, Value::Due);
    let asso = card(Suit::Bastoni, Value::Asso);
    let mut game = seated(&["anna", "bruno", "carla"], 1);
    assert_eq!(game.start_game_with(deck_dealing(&[re, due, asso])), Ok(()));
    assert_eq!(game.play_card("anna", re), Ok(()));
    assert_eq!(game.play_card("bruno", due), Ok(()));
    assert_eq!(game.play_card("carla", asso), Ok(()));
    assert_eq!(game.end_turn(), Some("anna".to_string()));
    assert_eq!(game.players()[0].tricks_won, 1);
    assert_eq!(game.players()[1].tricks_won, 0);
    assert_eq!(game.players()[2].tricks_won, 0);
}

#[test]
fn stronger_suit_takes_the_trick_from_a_higher_rank() {
    let asso = card(Suit::Bastoni, Value::Asso);
    let due = card(Suit::Denari, Value::Due);
    let led = card(Suit::Coppe, Value::Tre);
    let mut game = seated(&["anna", "bruno", "carla"], 1);
    assert_eq!(game.start_game_with(deck_dealing(&[led, asso, due])), Ok(()));
    assert_eq!(game.play_card("anna", led), Ok(()));
    assert_eq!(game.play_card("bruno", asso), Ok(()));
    assert_eq!(game.play_card("carla", due), Ok(()));
    assert_eq!(game.end_turn(), Some("carla".to_string()));
}

#[test]
fn round_is_over_when_every_hand_is_empty() {
    let mut game = seated(&["anna", "bruno"], 1);
    assert!(game.is_round_over());
    assert_eq!(game.start_game(), Ok(()));
    assert!(!game.is_round_over());
    let a = hand(&game, 0)[0];
    let b = hand(&game, 1)[0];
    assert_eq!(game.play_card("anna", a), Ok(()));
    assert!(!game.is_round_over());
    assert_eq!(game.play_card("bruno", b), Ok(()));
    assert!(game.is_round_over());
    assert_eq!(game.phase(), Phase::RoundEnd);
}

#[test]
fn round_results_compare_prediction_with_tricks() {
    let cards = [
        card(Suit::Denari, Value::Asso),
        card(Suit::Coppe, Value::Due),
        card(Suit::Spade, Value::Due),
        card(Suit::Denari, Value::Re),
        card(Suit::Coppe, Value::Tre),
        card(Suit::Spade, Value::Tre),
    ];
    let mut game = seated(&["anna", "bruno", "carla"], 2);
    assert_eq!(game.start_game_with(deck_dealing(&cards)), Ok(()));
    assert_eq!(game.make_prediction("anna", 2), Ok(()));
    assert_eq!(game.make_prediction("bruno", 0), Ok(()));
    assert_eq!(game.make_prediction("carla", 1), Ok(()));
    for turn in 0..2 {
        assert_eq!(game.play_card("anna", cards[turn * 3]), Ok(()));
        assert_eq!(game.play_card("bruno", cards[turn * 3 + 1]), Ok(()));
        assert_eq!(game.play_card("carla", cards[turn * 3 + 2]), Ok(()));
        assert_eq!(game.end_turn(), Some("anna".to_string()));
    }
    assert_eq!(game.players()[0].tricks_won, 2);
    assert_eq!(
        game.end_round(),
        vec![
            ("anna".to_string(), true),
            ("bruno".to_string(), true),
            ("carla".to_string(), false),
        ]
    );
    assert_eq!(game.players()[0].prediction, Some(2));
    assert_eq!(game.players()[0].tricks_won, 2);
}

#[test]
fn missing_prediction_is_no_success() {
    let mut game = seated(&["anna", "bruno"], 1);
    assert_eq!(game.start_game(), Ok(()));
    assert_eq!(
        game.end_round(),
        vec![("anna".to_string(), false), ("bruno".to_string(), false)]
    );
    let a = hand(&game, 0)[0];
    let b = hand(&game, 1)[0];
    assert_eq!(game.play_card("anna", a), Ok(()));
    assert_eq!(game.play_card("bruno", b), Ok(()));
    assert!(game.end_turn().is_some());
    assert_eq!(
        game.end_round(),
        vec![("anna".to_string(), false), ("bruno".to_string(), false)]
    );
}

#[test]
fn prediction_of_no_trick_succeeds_without_a_trick() {
    let mut game = seated(&["anna"], 2);
    assert_eq!(game.start_game(), Ok(()));
    assert_eq!(game.end_round(), vec![("anna".to_string(), false)]);
    assert_eq!(game.make_prediction("anna", 0), Ok(()));
    assert_eq!(game.end_round(), vec![("anna".to_string(), true)]);
    let a = hand(&game, 0)[0];
    assert_eq!(game.play_card("anna", a), Ok(()));
    assert_eq!(game.end_turn(), Some("anna".to_string()));
    assert_eq!(game.end_round(), vec![("anna".to_string(), false)]);
}

#[test]
fn next_round_deals_smaller_hands_and_clears_the_round() {
    let mut game = seated(&["anna", "bruno"], 2);
    assert_eq!(game.start_game(), Ok(()));
    assert_eq!(game.make_prediction("anna", 1), Ok(()));
    assert_eq!(game.next_round(), Err(GameError::RoundNotOver));
    assert_eq!(game.round_number(), 1);
    for _ in 0..2 {
        let a = hand(&game, 0)[0];
        let b = hand(&game, 1)[0];
        assert_eq!(game.play_card("anna", a), Ok(()));
        assert_eq!(game.play_card("bruno", b), Ok(()));
        assert!(game.end_turn().is_some());
    }
    assert_eq!(game.next_round_with(build_deck()), Ok(()));
    assert_eq!(game.round_number(), 2);
    assert_eq!(hand(&game, 0), vec![card(Suit::Bastoni, Value::Due)]);
    assert_eq!(hand(&game, 1), vec![card(Suit::Bastoni, Value::Quattro)]);
    assert_eq!(game.deck().len(), 38);
    assert!(game.players().iter().all(|p| p.prediction.is_none() && p.tricks_won == 0));
    assert!(game.current_turn_cards().is_empty());
    assert_eq!(game.leading_suit(), None);
}

#[test]
fn next_round_refuses_a_bad_deck_and_an_unstarted_match() {
    let mut game = seated(&["anna"], 2);
    assert_eq!(game.next_round(), Err(GameError::MatchNotStarted));
    assert_eq!(game.start_game(), Ok(()));
    for _ in 0..2 {
        let a = hand(&game, 0)[0];
        assert_eq!(game.play_card("anna", a), Ok(()));
        assert!(game.end_turn().is_some());
    }
    assert_eq!(game.next_round_with(Vec::new()), Err(GameError::InvalidDeck));
    assert_eq!(game.round_number(), 1);
    assert_eq!(game.next_round_with(build_deck()), Ok(()));
    let a = hand(&game, 0)[0];
    assert_eq!(game.play_card("anna", a), Ok(()));
    assert!(game.end_turn().is_some());
    assert_eq!(game.next_round_with(Vec::new()), Ok(()));
    assert!(game.is_game_over());
}

#[test]
fn end_of_the_match_deals_nothing_and_keeps_the_players() {
    let mut game = seated(&["anna", "bruno"], 1);
    assert_eq!(game.start_game_with(build_deck()), Ok(()));
    assert_eq!(game.make_prediction("anna", 1), Ok(()));
    assert_eq!(game.make_prediction("bruno", 1), Ok(()));
    let a = hand(&game, 0)[0];
    let b = hand(&game, 1)[0];
    assert_eq!(game.play_card("anna", a), Ok(()));
    assert_eq!(game.play_card("bruno", b), Ok(()));
    let winner = game.end_turn().unwrap();
    let deck_before = game.deck().clone();
    let results = game.end_round();
    assert_eq!(game.next_round(), Ok(()));
    assert!(game.is_game_over());
    assert_eq!(game.round_number(), 2);
    assert_eq!(game.deck(), &deck_before);
    assert_eq!(game.end_round(), results);
    for player in game.players() {
        assert!(player.hand.is_empty());
        assert_eq!(player.prediction, Some(1));
        assert_eq!(player.tricks_won, if player.id == winner { 1 } else { 0 });
    }
    assert!(game.current_turn_cards().is_empty());
    assert_eq!(game.leading_suit(), None);
}

#[test]
fn cleanup_unseats_whatever_the_state() {
    let mut game = seated(&["anna", "bruno"], 1);
    game.unseat_player("zeno");
    assert_eq!(game.players().len(), 2);
    assert_eq!(game.start_game(), Ok(()));
    let a = hand(&game, 0)[0];
    let b = hand(&game, 1)[0];
    assert_eq!(game.play_card("anna", a), Ok(()));
    assert_eq!(game.play_card("bruno", b), Ok(()));
    assert!(game.end_turn().is_some());
    assert_eq!(game.next_round(), Ok(()));
    assert!(game.is_game_over());
    assert_eq!(game.remove_player("anna"), Err(GameError::MatchAlreadyOver));
    assert_eq!(game.players().len(), 2);
    game.unseat_player("anna");
    let ids: Vec<&str> = game.players().iter().map(|p| p.id.as_str()).collect();
    assert_eq!(ids, vec!["bruno"]);
    assert!(game.is_game_over());
    assert_eq!(game.round_number(), 2);
}

#[test]
fn match_is_over_exactly_after_the_last_round() {
    let mut game = seated(&["anna"], 2);
    assert_eq!(game.start_game(), Ok(()));
    for round in 1..=2usize {
        assert_eq!(game.round_number(), round);
        assert!(!game.is_game_over());
        while !game.is_round_over() {
            let a = hand(&game, 0)[0];
            assert_eq!(game.play_card("anna", a), Ok(()));
            assert!(game.end_turn().is_some());
        }
        assert_eq!(game.next_round(), Ok(()));
    }
    assert_eq!(game.round_number(), 3);
    assert!(game.round_number() > game.starting_cards());
    assert!(game.is_game_over());
    assert_eq!(game.phase(), Phase::Finished);
}

#[test]
fn finished_match_rejects_everything() {
    let mut game = seated(&["anna"], 1);
    assert_eq!(game.start_game(), Ok(()));
    let a = hand(&game, 0)[0];
    assert_eq!(game.play_card("anna", a), Ok(()));
    assert!(game.end_turn().is_some());
    assert_eq!(game.next_round(), Ok(()));
    assert!(game.is_game_over());
    assert_eq!(game.next_round(), Err(GameError::MatchAlreadyOver));
    assert_eq!(game.next_round_with(build_deck()), Err(GameError::MatchAlreadyOver));
    assert_eq!(game.start_game(), Err(GameError::MatchAlreadyOver));
    assert_eq!(game.deal_round(), Err(GameError::MatchAlreadyOver));
    assert_eq!(game.play_card("anna", a), Err(GameError::MatchAlreadyOver));
    assert_eq!(game.make_prediction("anna", 0), Err(GameError::MatchAlreadyOver));
    assert_eq!(game.add_player(Player::new("bruno".to_string())), Err(GameError::MatchAlreadyOver));
    assert_eq!(game.remove_player("anna"), Err(GameError::MatchAlreadyOver));
    assert_eq!(game.end_turn(), None);
    assert_eq!(game.round_number(), 2);
    assert_eq!(game.players().len(), 1);
    assert_eq!(game.players()[0].tricks_won, 1);
}

#[test]
fn match_without_rounds_is_over_from_the_start() {
    let mut game = GameState::new_game(2, 0);
    assert!(game.is_game_over());
    assert_eq!(game.add_player(Player::new("anna".to_string())), Err(GameError::MatchAlreadyOver));
}

#[test]
fn leaving_frees_the_seat_and_the_table() {
    let mut game = seated(&["anna", "bruno", "carla"], 2);
    assert_eq!(game.start_game(), Ok(()));
    let a = hand(&game, 0)[0];
    let b = hand(&game, 1)[0];
    assert_eq!(game.play_card("anna", a), Ok(()));
    assert_eq!(game.play_card("bruno", b), Ok(()));
    assert_eq!(game.remove_player("anna"), Ok(()));
    let ids: Vec<&str> = game.players().iter().map(|p| p.id.as_str()).collect();
    assert_eq!(ids, vec!["bruno", "carla"]);
    assert_eq!(game.current_turn_cards(), &vec![("bruno".to_string(), b)]);
    assert_eq!(game.leading_suit(), Some(b.suit));
    assert_eq!(game.remove_player("bruno"), Ok(()));
    assert!(game.current_turn_cards().is_empty());
    assert_eq!(game.leading_suit(), None);
    assert_eq!(game.remove_player("zeno"), Ok(()));
    assert_eq!(game.players().len(), 1);
}

#[test]
fn empty_match_stays_alive() {
    let mut game = seated(&["anna"], 2);
    assert_eq!(game.start_game(), Ok(()));
    assert_eq!(game.remove_player("anna"), Ok(()));
    assert!(game.players().is_empty());
    assert!(!game.is_game_over());
    assert!(game.is_started());
    assert_eq!(game.end_turn(), None);
    assert!(game.end_round().is_empty());
    assert_eq!(game.play_card("anna", card(Suit::Denari, Value::Due)), Err(GameError::UnknownPlayer));
}

#[test]
fn second_deal_of_a_round_takes_from_what_is_left() {
    let mut game = seated(&["anna", "bruno"], 3);
    assert_eq!(game.deal_round(), Err(GameError::MatchNotStarted));
    assert_eq!(game.start_game_with(build_deck()), Ok(()));
    assert_eq!(game.make_prediction("anna", 1), Ok(()));
    let first = hand(&game, 0);
    assert_eq!(game.deal_round(), Ok(()));
    assert_eq!(game.deck().len(), 28);
    assert_eq!(hand(&game, 0).len(), 3);
    assert!(hand(&game, 0).iter().all(|c| !first.contains(c)));
    assert_eq!(game.players()[0].prediction, None);
    assert!(no_duplicates(&all_cards(&game)));
}

#[test]
fn second_deal_fails_loudly_on_a_drained_deck() {
    let mut game = seated(&["a", "b", "c", "d", "e", "f", "g"], 5);
    assert_eq!(game.start_game(), Ok(()));
    assert_eq!(game.deck().len(), 5);
    let before = hand(&game, 0);
    assert_eq!(game.deal_round(), Err(GameError::NotEnoughCards));
    assert_eq!(game.deck().len(), 5);
    assert_eq!(hand(&game, 0), before);
}

#[test]
fn every_error_has_its_sentence() {
    assert_eq!(GameError::DuplicatePlayer.message(), "Giocatore gia presente");
    assert_eq!(GameError::UnknownPlayer.message(), "Giocatore inesistente");
    assert_eq!(
        GameError::CardNotInHand.message(),
        "Carta non trovata nella mano del giocatore"
    );
    assert_eq!(
        GameError::InvalidPrediction.message(),
        "Ultimo giocatore non puo completare la somma esatta"
    );
    assert_eq!(GameError::TrickNotFull.message(), "Turno non ancora completo");
    assert_eq!(GameError::RoundNotOver.message(), "Il round corrente non e terminato");
    assert_eq!(GameError::MatchAlreadyOver.message(), "La partita e gia terminata");
    assert_eq!(GameError::MatchNotStarted.message(), "La partita non e ancora iniziata");
    assert_eq!(GameError::MatchAlreadyStarted.message(), "La partita e gia iniziata");
    assert_eq!(GameError::NoPlayers.message(), "Nessun giocatore in partita");
    assert_eq!(GameError::NotEnoughCards.message(), "Carte insufficienti nel mazzo");
    assert_eq!(GameError::InvalidDeck.message(), "Mazzo non valido");
}
