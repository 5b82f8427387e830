//! The win check that follows every resolution, and what is reported of a
//! game when it starts and when it ends.

use vstd::prelude::*;

use crate::model::{
    Game, GameView, PlayerId, Slot, PHASE_OVER, ROLE_MAFIA, TEAM_MAFIA, TEAM_TOWN,
};
use crate::seats::{
    is_living, is_living_town, lemma_seat_ids_push, living_all, living_town, seat_ids,
};

verus! {

/// How many town seats are alive.
pub open spec fn town_alive(slots: Seq<Slot>) -> nat {
    living_town(slots).len()
}

/// How many Mafia seats are alive.
pub open spec fn mafia_alive(slots: Seq<Slot>) -> nat {
    (living_all(slots).len() - living_town(slots).len()) as nat
}

/// The team that has won, if any: the town once no Mafia is alive, the
/// Mafia once it is at least as numerous as the living town.
pub open spec fn verdict(slots: Seq<Slot>) -> Option<u32> {
    if mafia_alive(slots) == 0 {
        Some(TEAM_TOWN)
    } else if mafia_alive(slots) >= town_alive(slots) {
        Some(TEAM_MAFIA)
    } else {
        None
    }
}

/// The game after the win check: over, with its winner, if a team has won;
/// unchanged otherwise.
pub open spec fn settled(g: GameView) -> GameView {
    match verdict(g.slots) {
        Some(team) => GameView { winner: Some(team), phase: PHASE_OVER, ..g },
        None => g,
    }
}

/// Counts the living seats of both teams and ends the game if one of them
/// has won.
pub fn settle_winner(game: &mut Game)
    requires
        old(game).slots@.len() == 8,
    ensures
        final(game)@ == settled(old(game)@),
{
    let mut mafia: u32 = 0;
    let mut town: u32 = 0;
    proof {
        reveal(Seq::filter);
        assert(seat_ids(0).filter(is_living(game@.slots)) =~= Seq::<u32>::empty());
        assert(seat_ids(0).filter(is_living_town(game@.slots)) =~= Seq::<u32>::empty());
    }
    let mut i: u32 = 0;
    while i < 8
        invariant
            i <= 8,
            game.slots@.len() == 8,
            game@ == old(game)@,
            town == seat_ids(i as nat).filter(is_living_town(game@.slots)).len(),
            mafia + town == seat_ids(i as nat).filter(is_living(game@.slots)).len(),
            mafia + town <= i,
        decreases 8 - i,
    {
        proof {
            lemma_seat_ids_push(i as nat);
            seat_ids(i as nat).lemma_filter_push(i, is_living(game@.slots));
            seat_ids(i as nat).lemma_filter_push(i, is_living_town(game@.slots));
        }
        let s: Slot = game.slots[i as usize];
        if s.alive {
            if s.role == ROLE_MAFIA {
                mafia += 1;
            } else {
                town += 1;
            }
        }
        i += 1;
    }
    if mafia == 0 {
        game.winner = Some(TEAM_TOWN);
        game.phase = PHASE_OVER;
    } else if mafia >= town {
        game.winner = Some(TEAM_MAFIA);
        game.phase = PHASE_OVER;
    }
}

/// What is reported when a game starts: the two participants and their
/// stakes. A game is reported as the creator against the creator, each side
/// staking the wager.
#[derive(Clone, Copy, Debug, PartialEq, Eq)]
pub struct StartReport {
    pub player1: PlayerId,
    pub player2: PlayerId,
    pub player1_points: i128,
    pub player2_points: i128,
}

/// The report of the start of a game that has begun.
pub fn start_report(game: &Game) -> (report: StartReport)
    ensures
        report == (StartReport {
            player1: game.creator,
            player2: game.creator,
            player1_points: game.wager,
            player2_points: game.wager,
        }),
{
    StartReport {
        player1: game.creator,
        player2: game.creator,
        player1_points: game.wager,
        player2_points: game.wager,
    }
}

/// What is reported when a game ends: whether the town has won. While
/// nobody has won there is nothing to report.
pub fn town_won(game: &Game) -> (report: Option<bool>)
    ensures
        report == match game.winner {
            Some(w) => Some(w == TEAM_TOWN),
            None => None,
        },
{
    match game.winner {
        Some(w) => Some(w == TEAM_TOWN),
        None => None,
    }
}

} // verus!
