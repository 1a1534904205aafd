//! The failures that the match reports to a caller.

use vstd::prelude::*;

verus! {

/// Why an operation on the match was refused. A refused operation leaves
/// the match as it was.
#[derive(Debug, Clone, Copy, PartialEq, Eq, Hash, Structural)]
pub enum GameError {
    /// A player with this identifier is already seated.
    DuplicatePlayer,
    /// No seated player has this identifier.
    UnknownPlayer,
    /// The player does not hold the card.
    CardNotInHand,
    /// The last player to declare would bring the declared total to the
    /// number of cards dealt.
    InvalidPrediction,
    /// The trick does not yet hold one card for each seated player.
    TrickNotFull,
    /// Some player still holds cards.
    RoundNotOver,
    /// The last round has been played.
    MatchAlreadyOver,
    /// No round has been dealt yet.
    MatchNotStarted,
    /// The first round has already been dealt.
    MatchAlreadyStarted,
    /// Nobody is seated.
    NoPlayers,
    /// The deck holds fewer cards than the deal needs.
    NotEnoughCards,
    /// The deck is not the forty cards, each once.
    InvalidDeck,
}

impl GameError {
    /// The text of [`GameError::message`].
    pub open spec fn spec_message(self) -> Seq<char> {
        match self {
            GameError::DuplicatePlayer => "Giocatore gia presente"@,
            GameError::UnknownPlayer => "Giocatore inesistente"@,
            GameError::CardNotInHand => "Carta non trovata nella mano del giocatore"@,
            GameError::InvalidPrediction => "Ultimo giocatore non puo completare la somma esatta"@,
            GameError::TrickNotFull => "Turno non ancora completo"@,
            GameError::RoundNotOver => "Il round corrente non e terminato"@,
            GameError::MatchAlreadyOver => "La partita e gia terminata"@,
            GameError::MatchNotStarted => "La partita non e ancora iniziata"@,
            GameError::MatchAlreadyStarted => "La partita e gia iniziata"@,
            GameError::NoPlayers => "Nessun giocatore in partita"@,
            GameError::NotEnoughCards => "Carte insufficienti nel mazzo"@,
            GameError::InvalidDeck => "Mazzo non valido"@,
        }
    }

    /// The sentence shown to the player whose request was refused.
    pub fn message(&self) -> (text: String)
        ensures
            text@ == self.spec_message(),
    {
        let text: &str = match self {
            GameError::DuplicatePlayer => "Giocatore gia presente",
            GameError::UnknownPlayer => "Giocatore inesistente",
            GameError::CardNotInHand => "Carta non trovata nella mano del giocatore",
            GameError::InvalidPrediction => "Ultimo giocatore non puo completare la somma esatta",
            GameError::TrickNotFull => "Turno non ancora completo",
            GameError::RoundNotOver => "Il round corrente non e terminato",
            GameError::MatchAlreadyOver => "La partita e gia terminata",
            GameError::MatchNotStarted => "La partita non e ancora iniziata",
            GameError::MatchAlreadyStarted => "La partita e gia iniziata",
            GameError::NoPlayers => "Nessun giocatore in partita",
            GameError::NotEnoughCards => "Carte insufficienti nel mazzo",
            GameError::InvalidDeck => "Mazzo non valido",
        };
        text.to_owned()
    }
}

} // verus!
