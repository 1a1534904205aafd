//! Suits, ranks and cards, and the two rules that decide which of two cards
//! wins.

use vstd::prelude::*;

verus! {

/// The four suits of the Italian deck.
#[derive(Debug, Clone, Copy, PartialEq, Eq, Hash, Structural)]
pub enum Suit {
    Denari,
    Coppe,
    Spade,
    Bastoni,
}

/// The ten ranks of a suit, listed from the lowest to the highest.
#[derive(Debug, Clone, Copy, PartialEq, Eq, Hash, PartialOrd, Ord, Structural)]
pub enum Value {
    Due,
    Tre,
    Quattro,
    Cinque,
    Sei,
    Sette,
    Fante,
    Cavallo,
    Re,
    Asso,
}

/// A playing card: a suit and a rank.
#[derive(Debug, Clone, Copy, PartialEq, Eq, Hash, Structural)]
pub struct Card {
    pub suit: Suit,
    pub value: Value,
}

/// The fixed strength of a suit: Denari is the strongest, Bastoni the weakest.
pub open spec fn strength(suit: Suit) -> int {
    match suit {
        Suit::Denari => 4,
        Suit::Coppe => 3,
        Suit::Spade => 2,
        Suit::Bastoni => 1,
    }
}

/// The number by which ranks are ordered, from 2 for Due to 11 for Asso.
pub open spec fn rank(value: Value) -> int {
    match value {
        Value::Due => 2,
        Value::Tre => 3,
        Value::Quattro => 4,
        Value::Cinque => 5,
        Value::Sei => 6,
        Value::Sette => 7,
        Value::Fante => 8,
        Value::Cavallo => 9,
        Value::Re => 10,
        Value::Asso => 11,
    }
}

/// The strength of a suit as a number from 1 to 4.
pub fn suit_strength(suit: &Suit) -> (s: u8)
    ensures
        s == strength(*suit),
{
    match suit {
        Suit::Denari => 4,
        Suit::Coppe => 3,
        Suit::Spade => 2,
        Suit::Bastoni => 1,
    }
}

impl Value {
    /// The number by which this rank is ordered.
    pub fn rank(&self) -> (r: u8)
        ensures
            r == rank(*self),
    {
        match self {
            Value::Due => 2,
            Value::Tre => 3,
            Value::Quattro => 4,
            Value::Cinque => 5,
            Value::Sei => 6,
            Value::Sette => 7,
            Value::Fante => 8,
            Value::Cavallo => 9,
            Value::Re => 10,
            Value::Asso => 11,
        }
    }
}

impl Card {
    /// The suit-strength rule: `self` wins over `other` when its suit is
    /// stronger, or when the suits are equal and its rank is higher, or when
    /// it follows the leading suit and `other` does not.
    pub open spec fn spec_beats_custom(self, other: Card, leading_suit: Suit) -> bool {
        ||| strength(self.suit) > strength(other.suit)
        ||| (self.suit == other.suit && rank(self.value) > rank(other.value))
        ||| (self.suit == leading_suit && other.suit != leading_suit)
    }

    /// The trump rule: `self` wins over `other` when it alone is a trump, or
    /// when the suits are equal and its rank is higher.
    pub open spec fn spec_beats(self, other: Card, trump_suit: Suit) -> bool {
        ||| (self.suit == trump_suit && other.suit != trump_suit)
        ||| (self.suit == other.suit && rank(self.value) > rank(other.value))
    }

    /// Whether `self` wins over `other` by the suit-strength rule.
    pub fn beats_custom(&self, other: &Card, leading_suit: &Suit) -> (b: bool)
        ensures
            b == self.spec_beats_custom(*other, *leading_suit),
    {
        if suit_strength(&self.suit) > suit_strength(&other.suit) {
            return true;
        }
        if self.suit == other.suit {
            return self.value.rank() > other.value.rank();
        }
        if self.suit == *leading_suit && other.suit != *leading_suit {
            return true;
        }
        false
    }

    /// Whether `self` wins over `other` by the trump rule.
    pub fn beats(&self, other: &Card, trump_suit: &Suit) -> (b: bool)
        ensures
            b == self.spec_beats(*other, *trump_suit),
    {
        if self.suit == *trump_suit && other.suit != *trump_suit {
            return true;
        }
        if other.suit == *trump_suit && self.suit != *trump_suit {
            return false;
        }
        if self.suit == other.suit {
            self.value.rank() > other.value.rank()
        } else {
            false
        }
    }
}

/// Two suits of equal strength are the same suit.
pub proof fn lemma_strength_injective(a: Suit, b: Suit)
    ensures
        strength(a) == strength(b) <==> a == b,
        1 <= strength(a) <= 4,
{
}

/// Two ranks with the same number are the same rank.
pub proof fn lemma_rank_injective(a: Value, b: Value)
    ensures
        rank(a) == rank(b) <==> a == b,
        2 <= rank(a) <= 11,
{
}

/// No card wins over itself by the suit-strength rule.
pub proof fn lemma_beats_custom_irreflexive(a: Card, leading_suit: Suit)
    ensures
        !a.spec_beats_custom(a, leading_suit),
{
}

/// Two cards never win over each other by the suit-strength rule, unless
/// their suits differ and the weaker of the two suits is the leading one:
/// there the stronger suit wins by strength and the weaker by following.
pub proof fn lemma_beats_custom_antisymmetric(a: Card, b: Card, leading_suit: Suit)
    requires
        !(strength(a.suit) < strength(b.suit) && a.suit == leading_suit),
        !(strength(b.suit) < strength(a.suit) && b.suit == leading_suit),
    ensures
        !(a.spec_beats_custom(b, leading_suit) && b.spec_beats_custom(a, leading_suit)),
{
}

/// The inputs that the antisymmetry law leaves out are exactly those on which
/// both cards win over each other.
pub proof fn lemma_beats_custom_mutual(a: Card, b: Card, leading_suit: Suit)
    ensures
        (a.spec_beats_custom(b, leading_suit) && b.spec_beats_custom(a, leading_suit)) <==> (
        (strength(a.suit) < strength(b.suit) && a.suit == leading_suit) || (strength(b.suit)
            < strength(a.suit) && b.suit == leading_suit)),
{
}

/// Of two different cards at least one wins over the other: the
/// suit-strength rule leaves no tie.
pub proof fn lemma_beats_custom_total(a: Card, b: Card, leading_suit: Suit)
    requires
        a != b,
    ensures
        a.spec_beats_custom(b, leading_suit) || b.spec_beats_custom(a, leading_suit),
{
    lemma_strength_injective(a.suit, b.suit);
    lemma_rank_injective(a.value, b.value);
}

/// A card of a stronger suit wins whatever suit led and whatever the ranks.
pub proof fn lemma_stronger_suit_dominates(a: Card, b: Card, leading_suit: Suit)
    requires
        strength(a.suit) > strength(b.suit),
    ensures
        a.spec_beats_custom(b, leading_suit),
{
}

/// By the trump rule no card wins over itself and no two cards win over each
/// other.
pub proof fn lemma_beats_antisymmetric(a: Card, b: Card, trump_suit: Suit)
    ensures
        !a.spec_beats(a, trump_suit),
        !(a.spec_beats(b, trump_suit) && b.spec_beats(a, trump_suit)),
{
}

} // verus!
