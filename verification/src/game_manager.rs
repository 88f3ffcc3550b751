use vstd::prelude::*;

use crate::bank::Bank;
use crate::board::Board;
use crate::development_card::DevDeck;
use crate::player::Player;

verus! {

/// The phases of a turn.
#[allow(dead_code)]
enum GamePhase {
    Setup,
    Roll,
    Trade,
    Build,
}

/// The state of a game in progress.
#[allow(dead_code)]
pub struct Game {
    players: Vec<Player>,
    current_player: usize,
    board: Board,
    dev_deck: DevDeck,
    bank: Bank,
    phase: GamePhase,
    turn_number: u32,
}

} // verus!
