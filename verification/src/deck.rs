//! The forty-card deck: its fixed order, its shuffle, and the deal of a
//! round.

use crate::card::{Card, Suit, Value};
use crate::error::GameError;
use crate::shuffle::shuffle_cards;
use crate::sums::{lemma_total_constant, total};
use vstd::prelude::*;

verus! {

/// The number of cards of the deck.
pub const DECK_SIZE: usize = 40;

/// The suits in the order in which the deck is built.
pub open spec fn suit_at(i: int) -> Suit {
    if i == 0 {
        Suit::Denari
    } else if i == 1 {
        Suit::Coppe
    } else if i == 2 {
        Suit::Spade
    } else {
        Suit::Bastoni
    }
}

/// The ranks in the order in which each suit of the deck is built.
pub open spec fn value_at(i: int) -> Value {
    if i == 0 {
        Value::Asso
    } else if i == 1 {
        Value::Tre
    } else if i == 2 {
        Value::Re
    } else if i == 3 {
        Value::Cavallo
    } else if i == 4 {
        Value::Fante
    } else if i == 5 {
        Value::Sette
    } else if i == 6 {
        Value::Sei
    } else if i == 7 {
        Value::Cinque
    } else if i == 8 {
        Value::Quattro
    } else {
        Value::Due
    }
}

/// Where a suit stands in [`suit_at`].
pub open spec fn suit_index(suit: Suit) -> int {
    match suit {
        Suit::Denari => 0,
        Suit::Coppe => 1,
        Suit::Spade => 2,
        Suit::Bastoni => 3,
    }
}

/// Where a rank stands in [`value_at`].
pub open spec fn value_index(value: Value) -> int {
    match value {
        Value::Asso => 0,
        Value::Tre => 1,
        Value::Re => 2,
        Value::Cavallo => 3,
        Value::Fante => 4,
        Value::Sette => 5,
        Value::Sei => 6,
        Value::Cinque => 7,
        Value::Quattro => 8,
        Value::Due => 9,
    }
}

/// Where a card stands in the unshuffled deck.
pub open spec fn deck_position(card: Card) -> int {
    suit_index(card.suit) * 10 + value_index(card.value)
}

/// The unshuffled deck: suit after suit, each with its ten ranks.
pub open spec fn full_deck() -> Seq<Card> {
    Seq::new(40, |i: int| Card { suit: suit_at(i / 10), value: value_at(i % 10) })
}

/// A deck of forty cards of which no two are equal.
pub open spec fn is_complete_deck(cards: Seq<Card>) -> bool {
    cards.len() == 40 && cards.no_duplicates()
}

/// The unshuffled deck holds every card, each at its own position and
/// nowhere else.
pub proof fn lemma_full_deck_holds_each_card_once()
    ensures
        full_deck().len() == 40,
        forall|card: Card|
            0 <= #[trigger] deck_position(card) < 40 && full_deck()[deck_position(card)] == card,
        forall|i: int| 0 <= i < 40 ==> deck_position(#[trigger] full_deck()[i]) == i,
        forall|card: Card| full_deck().contains(card),
        is_complete_deck(full_deck()),
{
    assert forall|card: Card| full_deck().contains(card) by {
        assert(full_deck()[deck_position(card)] == card);
    }
}

/// The suit at a place of the building order.
fn suit_of_index(i: usize) -> (suit: Suit)
    requires
        i < 4,
    ensures
        suit == suit_at(i as int),
{
    if i == 0 {
        Suit::Denari
    } else if i == 1 {
        Suit::Coppe
    } else if i == 2 {
        Suit::Spade
    } else {
        Suit::Bastoni
    }
}

/// The rank at a place of the building order.
fn value_of_index(i: usize) -> (value: Value)
    requires
        i < 10,
    ensures
        value == value_at(i as int),
{
    if i == 0 {
        Value::Asso
    } else if i == 1 {
        Value::Tre
    } else if i == 2 {
        Value::Re
    } else if i == 3 {
        Value::Cavallo
    } else if i == 4 {
        Value::Fante
    } else if i == 5 {
        Value::Sette
    } else if i == 6 {
        Value::Sei
    } else if i == 7 {
        Value::Cinque
    } else if i == 8 {
        Value::Quattro
    } else {
        Value::Due
    }
}

/// The forty cards in their fixed order.
pub fn build_deck() -> (deck: Vec<Card>)
    ensures
        deck@ == full_deck(),
{
    let mut deck: Vec<Card> = Vec::new();
    let mut s: usize = 0;
    while s < 4
        invariant
            s <= 4,
            deck@.len() == s * 10,
            forall|i: int| 0 <= i < deck@.len() ==> deck@[i] == full_deck()[i],
        decreases 4 - s,
    {
        let suit = suit_of_index(s);
        let mut v: usize = 0;
        while v < 10
            invariant
                s < 4,
                v <= 10,
                suit == suit_at(s as int),
                deck@.len() == s * 10 + v,
                forall|i: int| 0 <= i < deck@.len() ==> deck@[i] == full_deck()[i],
            decreases 10 - v,
        {
            let value = value_of_index(v);
            deck.push(Card { suit, value });
            v += 1;
        }
        s += 1;
    }
    deck
}

/// Whether a deck holds forty cards of which no two are equal.
pub fn is_complete(deck: &Vec<Card>) -> (complete: bool)
    ensures
        complete == is_complete_deck(deck@),
{
    if deck.len() != DECK_SIZE {
        return false;
    }
    let mut i: usize = 0;
    while i < deck.len()
        invariant
            deck@.len() == 40,
            i <= deck@.len(),
            forall|a: int, b: int| 0 <= a < i && 0 <= b < deck@.len() && a != b ==> deck@[a] != deck@[b],
        decreases deck@.len() - i,
    {
        let mut j: usize = 0;
        while j < deck.len()
            invariant
                deck@.len() == 40,
                i < deck@.len(),
                j <= deck@.len(),
                forall|a: int, b: int|
                    0 <= a < i && 0 <= b < deck@.len() && a != b ==> deck@[a] != deck@[b],
                forall|b: int| 0 <= b < j && b != i ==> deck@[i as int] != deck@[b],
            decreases deck@.len() - j,
        {
            if j != i && deck[i] == deck[j] {
                return false;
            }
            j += 1;
        }
        i += 1;
    }
    true
}

impl Card {
    /// A freshly built deck in random order: the forty cards, each once.
    pub fn shuffle_deck() -> (deck: Vec<Card>)
        ensures
            deck@.to_multiset() == full_deck().to_multiset(),
            is_complete_deck(deck@),
    {
        let mut deck = build_deck();
        let mut rng = rand::thread_rng();
        shuffle_cards(&mut deck, &mut rng);
        proof {
            lemma_full_deck_holds_each_card_once();
            lemma_same_cards_complete(deck@);
        }
        deck
    }
}

/// A sequence that holds the cards of the unshuffled deck, each as often as
/// the deck does, is a complete deck.
pub proof fn lemma_same_cards_complete(cards: Seq<Card>)
    requires
        cards.to_multiset() == full_deck().to_multiset(),
    ensures
        is_complete_deck(cards),
{
    lemma_full_deck_holds_each_card_once();
    cards.to_multiset_ensures();
    full_deck().to_multiset_ensures();
    full_deck().lemma_multiset_has_no_duplicates();
    cards.lemma_multiset_has_no_duplicates_conv();
}

/// A complete deck holds the cards of the unshuffled deck, each once: forty
/// cards that all differ leave none of the forty out.
pub proof fn lemma_complete_same_cards(cards: Seq<Card>)
    requires
        is_complete_deck(cards),
    ensures
        cards.to_multiset() == full_deck().to_multiset(),
        forall|card: Card| cards.contains(card),
{
    lemma_full_deck_holds_each_card_once();
    let full = full_deck();
    vstd::seq_lib::seq_to_set_is_finite(cards);
    vstd::seq_lib::seq_to_set_is_finite(full);
    cards.unique_seq_to_set();
    full.unique_seq_to_set();
    vstd::set_lib::lemma_subset_equality(cards.to_set(), full.to_set());
    cards.to_multiset_ensures();
    full.to_multiset_ensures();
    cards.lemma_multiset_has_no_duplicates();
    full.lemma_multiset_has_no_duplicates();
    assert forall|card: Card| cards.contains(card) by {
        assert(cards.to_set().contains(card));
    }
}

/// The number of cards that each player gets in a round: one fewer with each
/// round.
pub open spec fn hand_size(starting_cards: int, round_number: int) -> int {
    starting_cards - (round_number - 1)
}

/// The card that a player gets at a turn of the deal. The deal takes cards
/// from the end of the deck, one for each player in seating order, turn
/// after turn.
pub open spec fn dealt_card(deck: Seq<Card>, num_players: int, player: int, turn: int) -> Card {
    deck[deck.len() - 1 - (turn * num_players + player)]
}

/// The hand that a player holds after the deal, in the order in which the
/// cards came.
pub open spec fn dealt_hand(
    deck: Seq<Card>,
    num_players: int,
    cards_per_player: int,
    player: int,
) -> Seq<Card> {
    Seq::new(cards_per_player as nat, |turn: int| dealt_card(deck, num_players, player, turn))
}

/// What is left of the deck after the deal.
pub open spec fn undealt(deck: Seq<Card>, num_players: int, cards_per_player: int) -> Seq<Card> {
    deck.take(deck.len() - num_players * cards_per_player)
}

/// The sizes of a list of hands.
pub open spec fn hand_sizes(hands: Seq<Seq<Card>>) -> Seq<nat> {
    Seq::new(hands.len(), |p: int| hands[p].len())
}

/// The number of cards in a list of hands.
pub open spec fn total_cards(hands: Seq<Seq<Card>>) -> nat {
    total(hand_sizes(hands))
}

/// The hands of a list of vectors.
pub open spec fn hands_of(hands: Seq<Vec<Card>>) -> Seq<Seq<Card>> {
    Seq::new(hands.len(), |p: int| hands[p]@)
}

/// Hands of one size hold that size times their number of cards.
pub proof fn lemma_total_of_equal_hands(hands: Seq<Seq<Card>>, size: nat)
    requires
        forall|p: int| 0 <= p < hands.len() ==> (#[trigger] hands[p]).len() == size,
    ensures
        total_cards(hands) == size * hands.len(),
{
    lemma_total_constant(hand_sizes(hands), size);
}

/// A place of the deal lies within the cards that the deal takes.
pub proof fn lemma_deal_place(num_players: int, cards_per_player: int, player: int, turn: int)
    requires
        0 <= player < num_players,
        0 <= turn < cards_per_player,
    ensures
        0 <= turn * num_players + player < num_players * cards_per_player,
        0 <= turn * num_players <= num_players * cards_per_player,
{
    assert(turn * num_players + num_players <= num_players * cards_per_player)
        by (nonlinear_arith)
        requires
            0 <= num_players,
            turn + 1 <= cards_per_player,
    ;
}

/// Two turns of the deal never take the same place of the deck.
pub proof fn lemma_deal_places_differ(num_players: int, p: int, k: int, q: int, l: int)
    requires
        0 <= p < num_players,
        0 <= q < num_players,
        0 <= k,
        0 <= l,
        p != q || k != l,
    ensures
        k * num_players + p != l * num_players + q,
{
    if k < l {
        assert(l * num_players >= k * num_players + num_players) by (nonlinear_arith)
            requires
                k + 1 <= l,
                0 <= num_players,
        ;
    } else if l < k {
        assert(k * num_players >= l * num_players + num_players) by (nonlinear_arith)
            requires
                l + 1 <= k,
                0 <= num_players,
        ;
    }
}

/// Deals `cards_per_player` cards to each of `num_players` players from the
/// end of the deck, one card to each player in seating order, turn after
/// turn. A deck with too few cards is left as it is.
pub fn deal_cards(deck: &mut Vec<Card>, num_players: usize, cards_per_player: usize) -> (dealt:
    Result<Vec<Vec<Card>>, GameError>)
    ensures
        dealt is Err <==> old(deck)@.len() < num_players * cards_per_player,
        dealt matches Err(error) ==> error == GameError::NotEnoughCards && final(deck)@ == old(
            deck,
        )@,
        dealt matches Ok(hands) ==> {
            &&& hands@.len() == num_players
            &&& forall|p: int|
                0 <= p < num_players ==> (#[trigger] hands@[p])@ == dealt_hand(
                    old(deck)@,
                    num_players as int,
                    cards_per_player as int,
                    p,
                )
            &&& forall|p: int|
                0 <= p < num_players ==> (#[trigger] hands@[p])@.len() == cards_per_player
            &&& final(deck)@ == undealt(old(deck)@, num_players as int, cards_per_player as int)
            &&& final(deck)@.len() == old(deck)@.len() - num_players * cards_per_player
            &&& total_cards(hands_of(hands@)) == cards_per_player * num_players
        },
{
    let len = deck.len();
    assert(num_players * cards_per_player <= u128::MAX) by (nonlinear_arith)
        requires
            num_players <= u64::MAX,
            cards_per_player <= u64::MAX,
    ;
    let needed: u128 = (num_players as u128) * (cards_per_player as u128);
    if (len as u128) < needed {
        return Err(GameError::NotEnoughCards);
    }
    let taken: usize = needed as usize;
    let mut hands: Vec<Vec<Card>> = Vec::new();
    let mut p: usize = 0;
    while p < num_players
        invariant
            p <= num_players,
            len == deck@.len(),
            deck@ == old(deck)@,
            taken == num_players * cards_per_player,
            taken <= len,
            hands@.len() == p,
            forall|q: int|
                0 <= q < p ==> (#[trigger] hands@[q])@ == dealt_hand(
                    deck@,
                    num_players as int,
                    cards_per_player as int,
                    q,
                ),
        decreases num_players - p,
    {
        let mut hand: Vec<Card> = Vec::new();
        let mut k: usize = 0;
        while k < cards_per_player
            invariant
                p < num_players,
                k <= cards_per_player,
                len == deck@.len(),
                taken == num_players * cards_per_player,
                taken <= len,
                hand@.len() == k,
                forall|j: int|
                    0 <= j < k ==> #[trigger] hand@[j] == dealt_card(
                        deck@,
                        num_players as int,
                        p as int,
                        j,
                    ),
            decreases cards_per_player - k,
        {
            proof {
                lemma_deal_place(num_players as int, cards_per_player as int, p as int, k as int);
            }
            let place = k * num_players + p;
            hand.push(deck[len - 1 - place]);
            k += 1;
        }
        hands.push(hand);
        p += 1;
    }
    deck.truncate(len - taken);
    proof {
        lemma_total_of_equal_hands(hands_of(hands@), cards_per_player as nat);
    }
    Ok(hands)
}

/// Why a round cannot be dealt, if so. No round has the number 0. In round
/// `starting_cards + 1` the hands are empty; a later round has no hand
/// size. Any other round fails only on a deck that holds too few cards.
pub open spec fn deal_round_error(
    cards: nat,
    num_players: nat,
    round_number: nat,
    starting_cards: nat,
) -> Option<GameError> {
    if round_number == 0 {
        Some(GameError::MatchNotStarted)
    } else if round_number > starting_cards + 1 {
        Some(GameError::MatchAlreadyOver)
    } else if cards < num_players * hand_size(starting_cards as int, round_number as int) {
        Some(GameError::NotEnoughCards)
    } else {
        None
    }
}

/// Deals a round: each player gets `starting_cards - (round_number - 1)`
/// cards, as [`deal_cards`] hands them out. It fails exactly where
/// [`deal_round_error`] names an error, and then leaves the deck as it is.
pub fn deal_round(
    deck: &mut Vec<Card>,
    num_players: usize,
    round_number: usize,
    starting_cards: usize,
) -> (dealt: Result<Vec<Vec<Card>>, GameError>)
    ensures
        dealt is Err <==> deal_round_error(
            old(deck)@.len(),
            num_players as nat,
            round_number as nat,
            starting_cards as nat,
        ) is Some,
        dealt matches Err(error) ==> final(deck)@ == old(deck)@ && deal_round_error(
            old(deck)@.len(),
            num_players as nat,
            round_number as nat,
            starting_cards as nat,
        ) == Some(error),
        dealt matches Ok(hands) ==> {
            let size = hand_size(starting_cards as int, round_number as int);
            &&& hands@.len() == num_players
            &&& forall|p: int|
                0 <= p < num_players ==> (#[trigger] hands@[p])@ == dealt_hand(
                    old(deck)@,
                    num_players as int,
                    size,
                    p,
                )
            &&& forall|p: int| 0 <= p < num_players ==> (#[trigger] hands@[p])@.len() == size
            &&& final(deck)@ == undealt(old(deck)@, num_players as int, size)
            &&& final(deck)@.len() == old(deck)@.len() - size * num_players
            &&& total_cards(hands_of(hands@)) == size * num_players
        },
{
    if round_number == 0 {
        return Err(GameError::MatchNotStarted);
    }
    if round_number - 1 > starting_cards {
        return Err(GameError::MatchAlreadyOver);
    }
    let cards_per_player = starting_cards - (round_number - 1);
    let dealt = deal_cards(deck, num_players, cards_per_player);
    proof {
        assert(cards_per_player * num_players == num_players * cards_per_player)
            by (nonlinear_arith);
    }
    dealt
}

} // verus!
