//! What each operation returns, as a mathematical statement: for every game
//! and every argument, either the game that the operation leaves or the
//! error with which it refuses. Beginning and resolving take numbers from the
//! host's generator: for each there is the request that says which numbers,
//! and the outcome given the numbers. The errors are listed in the order in which
//! the checks are made, so each error is returned exactly where its check is
//! the first to fail.

use vstd::prelude::*;

use crate::day::day_outcome;
use crate::encoding::{commitment_of, phase_seed_of};
use crate::model::{
    is_full_cast, is_idle, roles_of, DrawRequest, DrawRequestView, Game, GameView, MafiaError,
    PlayerId, Slot, MAX_PLAYERS, PASS_TARGET, PHASE_DAY, PHASE_LOBBY, PHASE_NIGHT_COMMIT,
    PHASE_NIGHT_REVEAL, ROLE_MAFIA, ROLE_SHERIFF, ROLE_VILLAGER,
};
use crate::night::night_outcome;
use crate::roles::{begun, shuffle_bounds};
use crate::seats::ai_bounds;
use crate::verdict::settled;

verus! {

/// A loaded game as a mathematical value.
pub open spec fn loaded_view(loaded: Option<Game>) -> Option<GameView> {
    match loaded {
        Some(g) => Some(g@),
        None => None,
    }
}

/// The result of an operation as a mathematical value.
pub open spec fn result_view(r: Result<Game, MafiaError>) -> Result<GameView, MafiaError> {
    match r {
        Ok(g) => Ok(g@),
        Err(e) => Err(e),
    }
}

/// A loaded game is one that an earlier operation returned.
pub open spec fn loaded_wf(loaded: Option<Game>) -> bool {
    loaded matches Some(g) ==> g.wf()
}

/// A seat at the start of a game: alive, without a role, with nothing
/// pending.
pub open spec fn fresh_seat(addr: Option<PlayerId>) -> Slot {
    Slot { addr, role: 0, alive: true, action: None, submitted: false, commitment: None }
}

/// A new game: the creator in seat 0, seven seats for the engine, in the
/// lobby.
pub open spec fn created(creator: PlayerId, wager: i128) -> GameView {
    GameView {
        creator,
        slots: Seq::new(
            8,
            |i: int|
                fresh_seat(
                    if i == 0 {
                        Some(creator)
                    } else {
                        None
                    },
                ),
        ),
        human_count: 1,
        phase: PHASE_LOBBY,
        day: 0,
        winner: None,
        last_killed: None,
        last_saved: false,
        last_investigated: None,
        invest_is_mafia: false,
        last_voted_out: None,
        wager,
    }
}

/// Creating a session: refused where the session has a game already.
pub open spec fn create_outcome(exists: bool, creator: PlayerId, wager: i128) -> Result<
    GameView,
    MafiaError,
> {
    if exists {
        Err(MafiaError::SessionExists)
    } else {
        Ok(created(creator, wager))
    }
}

/// The first seat, from `from` on, that `player` occupies.
pub open spec fn seat_of_from(slots: Seq<Slot>, player: PlayerId, from: int) -> Option<u32>
    decreases slots.len() - from,
{
    if from < 0 || from >= slots.len() {
        None
    } else if slots[from].addr == Some(player) {
        Some(from as u32)
    } else {
        seat_of_from(slots, player, from + 1)
    }
}

/// The seat that `player` occupies.
pub open spec fn seat_of(slots: Seq<Slot>, player: PlayerId) -> Option<u32> {
    seat_of_from(slots, player, 0)
}

/// Joining: in the lobby, while a seat is free, a player who has no seat yet
/// takes the lowest seat that no human occupies.
pub open spec fn join_outcome(loaded: Option<GameView>, player: PlayerId) -> Result<
    GameView,
    MafiaError,
> {
    match loaded {
        None => Err(MafiaError::GameNotFound),
        Some(g) => if g.phase != PHASE_LOBBY {
            Err(MafiaError::WrongPhase)
        } else if g.human_count >= MAX_PLAYERS {
            Err(MafiaError::GameFull)
        } else if seat_of(g.slots, player) is Some {
            Err(MafiaError::AlreadyJoined)
        } else {
            Ok(
                GameView {
                    slots: g.slots.update(
                        g.human_count as int,
                        Slot { addr: Some(player), ..g.slots[g.human_count as int] },
                    ),
                    human_count: (g.human_count + 1) as u32,
                    ..g
                },
            )
        },
    }
}

/// Why the roles cannot be dealt, if they cannot: only the creator may
/// begin, and only in the lobby.
pub open spec fn begin_refusal(loaded: Option<GameView>, caller: PlayerId) -> Option<MafiaError> {
    match loaded {
        None => Some(MafiaError::GameNotFound),
        Some(g) => if g.creator != caller {
            Some(MafiaError::NotCreator)
        } else if g.phase != PHASE_LOBBY {
            Some(MafiaError::WrongPhase)
        } else {
            None
        },
    }
}

/// What beginning asks of the generator: the seven numbers of the shuffle,
/// from the seed of the session at day 0, phase 0.
pub open spec fn begin_request_of(
    loaded: Option<GameView>,
    session_id: u32,
    caller: PlayerId,
) -> Result<DrawRequestView, MafiaError> {
    match begin_refusal(loaded, caller) {
        Some(e) => Err(e),
        None => Ok(
            DrawRequestView { seed: phase_seed_of(session_id, 0, 0), bounds: shuffle_bounds() },
        ),
    }
}

/// Beginning, given the numbers that the generator gave: the roles are
/// dealt and the first night opens.
pub open spec fn begin_outcome(loaded: Option<GameView>, caller: PlayerId, draws: Seq<u64>) -> Result<
    GameView,
    MafiaError,
> {
    match begin_refusal(loaded, caller) {
        Some(e) => Err(e),
        None => Ok(begun(loaded->0, draws)),
    }
}

/// The seat from which `player` may act in `phase`, or why not. The checks
/// are made in this order: the game exists, it is in the phase, it has no
/// winner, the player has a seat, the seat is alive, the seat has not acted.
pub open spec fn acting_seat_of(loaded: Option<GameView>, phase: u32, player: PlayerId) -> Result<
    u32,
    MafiaError,
> {
    match loaded {
        None => Err(MafiaError::GameNotFound),
        Some(g) => if g.phase != phase {
            Err(MafiaError::WrongPhase)
        } else if g.winner is Some {
            Err(MafiaError::GameAlreadyOver)
        } else {
            match seat_of(g.slots, player) {
                None => Err(MafiaError::NotInGame),
                Some(i) => if !g.slots[i as int].alive {
                    Err(MafiaError::NotAlive)
                } else if g.slots[i as int].submitted {
                    Err(MafiaError::AlreadyActed)
                } else {
                    Ok(i)
                },
            }
        },
    }
}

/// Every living human seat has acted.
pub open spec fn all_humans_acted(slots: Seq<Slot>) -> bool {
    forall|i: int|
        0 <= i < slots.len() && (#[trigger] slots[i]).addr is Some && slots[i].alive
            ==> slots[i].submitted
}

/// The seats as the reveal sub-phase opens: every seat may act again, the
/// commitments stay.
pub open spec fn reopened(slots: Seq<Slot>) -> Seq<Slot> {
    Seq::new(slots.len(), |i: int| Slot { submitted: false, ..slots[i] })
}

/// Committing: the seat's commitment is on record and the seat has acted.
/// If every living human seat has then acted, the reveal sub-phase opens.
pub open spec fn commit_outcome(
    loaded: Option<GameView>,
    player: PlayerId,
    commitment: [u8; 32],
) -> Result<GameView, MafiaError> {
    match acting_seat_of(loaded, PHASE_NIGHT_COMMIT, player) {
        Err(e) => Err(e),
        Ok(i) => {
            let g = loaded->0;
            let marked = g.slots.update(
                i as int,
                Slot { commitment: Some(commitment), submitted: true, ..g.slots[i as int] },
            );
            if all_humans_acted(marked) {
                Ok(GameView { phase: PHASE_NIGHT_REVEAL, slots: reopened(marked), ..g })
            } else {
                Ok(GameView { slots: marked, ..g })
            }
        },
    }
}

/// What a submitted target means for the seat `seat`. The pass value is no
/// target. A Villager has no night action: at night its target is a pass
/// whatever it is. Any other target must name a living seat and, at night,
/// not the acting seat itself if that seat is Mafia or Sheriff.
pub open spec fn checked_target(slots: Seq<Slot>, seat: int, target: u32, night: bool) -> Result<
    Option<u32>,
    MafiaError,
> {
    if target == PASS_TARGET {
        Ok(None)
    } else if night && slots[seat].role == ROLE_VILLAGER {
        Ok(None)
    } else if target >= MAX_PLAYERS {
        Err(MafiaError::InvalidTarget)
    } else if !slots[target as int].alive {
        Err(MafiaError::InvalidTarget)
    } else if night && target == seat && (slots[seat].role == ROLE_MAFIA || slots[seat].role
        == ROLE_SHERIFF) {
        Err(MafiaError::InvalidTarget)
    } else {
        Ok(Some(target))
    }
}

/// The game with the action of seat `seat` on record.
pub open spec fn acted(g: GameView, seat: int, action: Option<u32>) -> GameView {
    GameView { slots: g.slots.update(seat, Slot { action, submitted: true, ..g.slots[seat] }), ..g }
}

/// A reveal, given the digest of what is revealed: refused as long as the
/// seat has no commitment or the digest is not the commitment; then the
/// target is checked and recorded as the seat's action.
pub open spec fn reveal_outcome_with(
    loaded: Option<GameView>,
    player: PlayerId,
    target: u32,
    digest: Seq<u8>,
) -> Result<GameView, MafiaError> {
    match acting_seat_of(loaded, PHASE_NIGHT_REVEAL, player) {
        Err(e) => Err(e),
        Ok(i) => {
            let g = loaded->0;
            match g.slots[i as int].commitment {
                None => Err(MafiaError::NoCommitment),
                Some(stored) => if digest != stored@ {
                    Err(MafiaError::InvalidReveal)
                } else {
                    match checked_target(g.slots, i as int, target, true) {
                        Err(e) => Err(e),
                        Ok(action) => Ok(acted(g, i as int, action)),
                    }
                },
            }
        },
    }
}

/// Revealing a target and a nonce: a reveal of their commitment.
pub open spec fn reveal_outcome(
    loaded: Option<GameView>,
    player: PlayerId,
    target: u32,
    nonce: u64,
) -> Result<GameView, MafiaError> {
    reveal_outcome_with(loaded, player, target, commitment_of(target, nonce))
}

/// Voting by day: the target is checked and recorded as the seat's vote.
pub open spec fn vote_outcome(loaded: Option<GameView>, player: PlayerId, target: u32) -> Result<
    GameView,
    MafiaError,
> {
    match acting_seat_of(loaded, PHASE_DAY, player) {
        Err(e) => Err(e),
        Ok(i) => {
            let g = loaded->0;
            match checked_target(g.slots, i as int, target, false) {
                Err(e) => Err(e),
                Ok(action) => Ok(acted(g, i as int, action)),
            }
        },
    }
}

/// The game after a resolution, given the numbers that the generator gave:
/// the night gives way to the day, the day to the next night and the next
/// day number, and then the win check is made.
pub open spec fn advanced(g: GameView, draws: Seq<u64>) -> GameView {
    if g.phase == PHASE_NIGHT_REVEAL {
        settled(GameView { phase: PHASE_DAY, ..night_outcome(g, draws) })
    } else {
        settled(
            GameView {
                phase: PHASE_NIGHT_COMMIT,
                day: (g.day + 1) as u32,
                ..day_outcome(g, draws)
            },
        )
    }
}

/// The bounds of the numbers that the resolution of `g` takes.
pub open spec fn resolve_bounds(g: GameView) -> Seq<u64> {
    ai_bounds(g.slots, g.phase == PHASE_NIGHT_REVEAL, 8)
}

/// The game `after` is the first night of the lobby `g`: day 1 of the commit
/// sub-phase with nobody the winner; creator, wager and the number of humans
/// as they were; every seat with its occupant, alive and with nothing
/// pending; and the full cast on the seats.
pub open spec fn first_night_of(g: GameView, after: GameView) -> bool {
    &&& after.phase == PHASE_NIGHT_COMMIT
    &&& after.day == 1
    &&& after.winner is None
    &&& after.creator == g.creator
    &&& after.wager == g.wager
    &&& after.human_count == g.human_count
    &&& after.slots.len() == 8
    &&& is_full_cast(roles_of(after.slots))
    &&& forall|i: int|
        0 <= i < 8 ==> (#[trigger] after.slots[i]).addr == g.slots[i].addr && is_idle(
            after.slots[i],
        )
}

/// Why the game cannot be resolved, if it cannot: only the reveal sub-phase
/// and the day are resolved, and only while nobody has won.
pub open spec fn resolve_refusal(loaded: Option<GameView>) -> Option<MafiaError> {
    match loaded {
        None => Some(MafiaError::GameNotFound),
        Some(g) => if g.phase != PHASE_NIGHT_REVEAL && g.phase != PHASE_DAY {
            Some(MafiaError::WrongPhase)
        } else if g.winner is Some {
            Some(MafiaError::GameAlreadyOver)
        } else {
            None
        },
    }
}

/// What resolving asks of the generator: one number for each seat that the
/// engine plays and that has a candidate, from the seed of the session, the
/// day and the phase.
pub open spec fn resolve_request_of(loaded: Option<GameView>, session_id: u32) -> Result<
    DrawRequestView,
    MafiaError,
> {
    match resolve_refusal(loaded) {
        Some(e) => Err(e),
        None => Ok(
            DrawRequestView {
                seed: phase_seed_of(session_id, loaded->0.day, loaded->0.phase),
                bounds: resolve_bounds(loaded->0),
            },
        ),
    }
}

/// Resolving, given the numbers that the generator gave.
pub open spec fn resolve_outcome(loaded: Option<GameView>, draws: Seq<u64>) -> Result<
    GameView,
    MafiaError,
> {
    match resolve_refusal(loaded) {
        Some(e) => Err(e),
        None => Ok(advanced(loaded->0, draws)),
    }
}

/// What a resolution carries over from the game `g` to the game `after`:
/// the creator, the wager and the number of humans; for every seat its
/// occupant and its role; and life, except that at most one living seat
/// dies. No dead seat lives again.
pub open spec fn carried_over(g: GameView, after: GameView) -> bool {
    &&& after.slots.len() == 8
    &&& after.creator == g.creator
    &&& after.human_count == g.human_count
    &&& after.wager == g.wager
    &&& forall|i: int|
        0 <= i < 8 ==> {
            &&& (#[trigger] after.slots[i]).addr == g.slots[i].addr
            &&& after.slots[i].role == g.slots[i].role
            &&& after.slots[i].alive ==> g.slots[i].alive
        }
    &&& forall|i: int, j: int|
        0 <= i < 8 && 0 <= j < 8 && (#[trigger] after.slots[i]).alive != g.slots[i].alive && (
        #[trigger] after.slots[j]).alive != g.slots[j].alive ==> i == j
}

/// The request of an operation as a mathematical value.
pub open spec fn request_view(r: Result<DrawRequest, MafiaError>) -> Result<
    DrawRequestView,
    MafiaError,
> {
    match r {
        Ok(q) => Ok(q@),
        Err(e) => Err(e),
    }
}

/// The seat found is a seat of the player, and no seat is found only where
/// the player has none.
pub proof fn lemma_seat_of_from(slots: Seq<Slot>, player: PlayerId, from: int)
    requires
        0 <= from,
        slots.len() <= u32::MAX,
    ensures
        match seat_of_from(slots, player, from) {
            Some(i) => from <= i < slots.len() && slots[i as int].addr == Some(player),
            None => forall|j: int| from <= j < slots.len() ==> slots[j].addr != Some(player),
        },
    decreases slots.len() - from,
{
    if from < slots.len() && slots[from].addr != Some(player) {
        lemma_seat_of_from(slots, player, from + 1);
    }
}

} // verus!
