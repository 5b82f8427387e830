//! The operations of a session: create, join, begin, commit, reveal, vote and
//! resolve. Each takes the game as it was loaded, or `None` where the session
//! has none, and returns the game to store. An error returns no game, so
//! nothing is stored and the session stays as it was.
//!
//! Beginning and resolving take numbers from the host's generator, which
//! only a running contract invocation has. Each is done in two steps: the
//! request says with which seed and below which bounds the numbers are to be
//! drawn, and the operation takes the numbers drawn.

use vstd::prelude::*;

use crate::day::resolve_day;
use crate::encoding::{compute_commitment, phase_seed};
use crate::laws::{lemma_begin_opens_first_night, lemma_resolution_keeps_seats};
use crate::model::{
    lemma_targets_kept, lemma_wf_kept, living_seat, roles_of, same_digest, same_player, DrawRequest,
    Game, GameView, MafiaError, PlayerId, Slot, MAX_PLAYERS, PASS_TARGET, PHASE_DAY, PHASE_LOBBY,
    PHASE_NIGHT_COMMIT, PHASE_NIGHT_REVEAL, PHASE_OVER, ROLE_MAFIA, ROLE_SHERIFF, ROLE_VILLAGER,
};
use crate::night::resolve_night;
use crate::outcomes::{
    acted, acting_seat_of, advanced, all_humans_acted, begin_outcome, begin_refusal,
    begin_request_of, carried_over, checked_target, commit_outcome, create_outcome, created,
    first_night_of, fresh_seat, join_outcome, loaded_view, loaded_wf, reopened, request_view,
    resolve_bounds, resolve_outcome, resolve_refusal, resolve_request_of, result_view,
    reveal_outcome, reveal_outcome_with, seat_of, seat_of_from, vote_outcome,
};
use crate::roles::{deal_roles, shuffle_bounds, shuffle_plan};
use crate::seats::{draws_fit, plan_draws};
use crate::verdict::{settle_winner, verdict};

verus! {

/// The operations of the game. It holds no state of its own: the game
/// travels through the arguments and the results.
pub struct MafiaDuelContract;

/// The seat that the player occupies, if any: the first, should there be
/// several.
pub fn find_human_slot(game: &Game, player: &PlayerId) -> (seat: Option<u32>)
    requires
        game.slots@.len() == 8,
    ensures
        seat == seat_of(game@.slots, *player),
        seat matches Some(i) ==> i < 8 && game@.slots[i as int].addr == Some(*player),
{
    let mut i: u32 = 0;
    while i < 8
        invariant
            i <= 8,
            game.slots@.len() == 8,
            seat_of(game@.slots, *player) == seat_of_from(game@.slots, *player, i as int),
        decreases 8 - i,
    {
        match game.slots[i as usize].addr {
            Some(a) => {
                if same_player(&a, player) {
                    return Some(i);
                }
            },
            None => {},
        }
        i += 1;
    }
    None
}

/// Whether every living human seat has acted in the current sub-phase.
pub fn all_alive_humans_submitted(game: &Game) -> (all: bool)
    requires
        game.slots@.len() == 8,
    ensures
        all == all_humans_acted(game@.slots),
{
    let mut i: usize = 0;
    while i < 8
        invariant
            i <= 8,
            game.slots@.len() == 8,
            forall|j: int|
                0 <= j < i && (#[trigger] game@.slots[j]).addr is Some && game@.slots[j].alive
                    ==> game@.slots[j].submitted,
        decreases 8 - i,
    {
        let s: Slot = game.slots[i];
        if s.addr.is_some() && s.alive && !s.submitted {
            return false;
        }
        i += 1;
    }
    true
}

/// The seat from which the player may act in the phase, or the reason why
/// the player may not.
pub fn acting_seat(loaded: &Option<Game>, phase: u32, player: &PlayerId) -> (seat: Result<
    u32,
    MafiaError,
>)
    requires
        loaded_wf(*loaded),
    ensures
        seat == acting_seat_of(loaded_view(*loaded), phase, *player),
        seat matches Ok(i) ==> i < 8 && loaded is Some,
{
    match loaded {
        None => Err(MafiaError::GameNotFound),
        Some(game) => {
            if game.phase != phase {
                return Err(MafiaError::WrongPhase);
            }
            if game.winner.is_some() {
                return Err(MafiaError::GameAlreadyOver);
            }
            match find_human_slot(game, player) {
                None => Err(MafiaError::NotInGame),
                Some(idx) => {
                    let s: Slot = game.slots[idx as usize];
                    if !s.alive {
                        Err(MafiaError::NotAlive)
                    } else if s.submitted {
                        Err(MafiaError::AlreadyActed)
                    } else {
                        Ok(idx)
                    }
                },
            }
        },
    }
}

/// Checks a submitted target for the seat `seat`. The pass value, and at
/// night any target of a Villager, is no target.
pub fn check_target(game: &Game, seat: u32, target: u32, night: bool) -> (action: Result<
    Option<u32>,
    MafiaError,
>)
    requires
        game.slots@.len() == 8,
        seat < 8,
    ensures
        action == checked_target(game@.slots, seat as int, target, night),
        action matches Ok(Some(t)) ==> living_seat(game@.slots, t),
{
    if target == PASS_TARGET {
        return Ok(None);
    }
    let role: u32 = game.slots[seat as usize].role;
    if night && role == ROLE_VILLAGER {
        return Ok(None);
    }
    if target >= MAX_PLAYERS {
        return Err(MafiaError::InvalidTarget);
    }
    if !game.slots[target as usize].alive {
        return Err(MafiaError::InvalidTarget);
    }
    if night && target == seat && (role == ROLE_MAFIA || role == ROLE_SHERIFF) {
        return Err(MafiaError::InvalidTarget);
    }
    Ok(Some(target))
}

/// Puts the action of a seat on record.
fn record_action(game: &mut Game, seat: u32, action: Option<u32>)
    requires
        old(game).wf(),
        old(game).phase != PHASE_LOBBY,
        seat < 8,
        action matches Some(t) ==> living_seat(old(game)@.slots, t),
    ensures
        final(game)@ == acted(old(game)@, seat as int, action),
        final(game).wf(),
{
    let ghost before = game@;
    game.slots[seat as usize].action = action;
    game.slots[seat as usize].submitted = true;
    proof {
        assert(game@.slots =~= acted(before, seat as int, action).slots);
        lemma_targets_kept(before.slots, game@.slots);
        lemma_wf_kept(before, game@);
    }
}

/// Resolves the current phase with the numbers in `draws`, moves to the
/// next phase and makes the win check.
pub fn resolve_with_draws(env: &soroban_sdk::Env, game: &mut Game, draws: &Vec<u64>)
    requires
        old(game).wf(),
        old(game).phase == PHASE_NIGHT_REVEAL || old(game).phase == PHASE_DAY,
        old(game).phase == PHASE_DAY ==> old(game).day < u32::MAX,
        draws_fit(resolve_bounds(old(game)@), draws@),
    ensures
        final(game)@ == advanced(old(game)@, draws@),
        final(game).wf(),
        carried_over(old(game)@, final(game)@),
        verdict(final(game)@.slots) matches Some(team) ==> final(game).winner == Some(team)
            && final(game).phase == PHASE_OVER,
{
    proof {
        lemma_resolution_keeps_seats(game@, draws@);
    }
    if game.phase == PHASE_NIGHT_REVEAL {
        resolve_night(env, game, draws);
        game.phase = PHASE_DAY;
    } else {
        resolve_day(env, game, draws);
        game.phase = PHASE_NIGHT_COMMIT;
        game.day += 1;
    }
    settle_winner(game);
}

impl MafiaDuelContract {
    /// Opens a session. `exists` says whether the session already has a
    /// game.
    pub fn create_game(exists: bool, creator: PlayerId, wager: i128) -> (r: Result<
        Game,
        MafiaError,
    >)
        ensures
            result_view(r) == create_outcome(exists, creator, wager),
            r matches Ok(g) ==> g.wf(),
    {
        if exists {
            return Err(MafiaError::SessionExists);
        }
        let mut slots: Vec<Slot> = Vec::new();
        slots.push(
            Slot {
                addr: Some(creator),
                role: 0,
                alive: true,
                action: None,
                submitted: false,
                commitment: None,
            },
        );
        let mut i: u32 = 1;
        while i < 8
            invariant
                1 <= i <= 8,
                slots@.len() == i,
                slots@[0] == fresh_seat(Some(creator)),
                forall|j: int| 1 <= j < i ==> slots@[j] == fresh_seat(None),
            decreases 8 - i,
        {
            slots.push(
                Slot {
                    addr: None,
                    role: 0,
                    alive: true,
                    action: None,
                    submitted: false,
                    commitment: None,
                },
            );
            i += 1;
        }
        let game = Game {
            creator,
            slots,
            human_count: 1,
            phase: PHASE_LOBBY,
            day: 0,
            winner: None,
            last_killed: None,
            last_saved: false,
            last_investigated: None,
            invest_is_mafia: false,
            last_voted_out: None,
            wager,
        };
        assert(game@.slots =~= created(creator, wager).slots);
        Ok(game)
    }

    /// Seats a player in the lowest seat that no human occupies.
    pub fn join_game(loaded: Option<Game>, player: PlayerId) -> (r: Result<Game, MafiaError>)
        requires
            loaded_wf(loaded),
        ensures
            result_view(r) == join_outcome(loaded_view(loaded), player),
            r matches Ok(g) ==> g.wf(),
    {
        let mut game: Game = match loaded {
            None => {
                return Err(MafiaError::GameNotFound);
            },
            Some(g) => g,
        };
        if game.phase != PHASE_LOBBY {
            return Err(MafiaError::WrongPhase);
        }
        if game.human_count >= MAX_PLAYERS {
            return Err(MafiaError::GameFull);
        }
        if find_human_slot(&game, &player).is_some() {
            return Err(MafiaError::AlreadyJoined);
        }
        let ghost before = game@;
        let slot_idx: u32 = game.human_count;
        game.slots[slot_idx as usize].addr = Some(player);
        game.human_count += 1;
        proof {
            assert(roles_of(game@.slots) =~= roles_of(before.slots));
            lemma_targets_kept(before.slots, game@.slots);
            assert forall|k: int| 0 <= k < 8 implies ((#[trigger] game@.slots[k]).addr is Some <==> k
                < game@.human_count) by {
                if k != slot_idx {
                    assert(game@.slots[k].addr == before.slots[k].addr);
                }
            }
        }
        Ok(game)
    }

    /// What beginning the game needs from the generator, or why the game
    /// cannot begin. Only the creator may begin, and only in the lobby.
    pub fn begin_request(
        env: &soroban_sdk::Env,
        loaded: &Option<Game>,
        session_id: u32,
        caller: &PlayerId,
    ) -> (r: Result<DrawRequest, MafiaError>)
        requires
            loaded_wf(*loaded),
        ensures
            request_view(r) == begin_request_of(loaded_view(*loaded), session_id, *caller),
            r matches Ok(q) ==> forall|k: int| 0 <= k < q.bounds@.len() ==> q.bounds@[k] > 0,
    {
        match loaded {
            None => Err(MafiaError::GameNotFound),
            Some(game) => {
                if !same_player(&game.creator, caller) {
                    return Err(MafiaError::NotCreator);
                }
                if game.phase != PHASE_LOBBY {
                    return Err(MafiaError::WrongPhase);
                }
                Ok(DrawRequest { seed: phase_seed(env, session_id, 0, 0), bounds: shuffle_plan() })
            },
        }
    }

    /// Deals the roles with the numbers that the generator gave to the
    /// request of `begin_request`, and opens the first night.
    pub fn begin_game(loaded: Option<Game>, caller: PlayerId, draws: &Vec<u64>) -> (r: Result<
        Game,
        MafiaError,
    >)
        requires
            loaded_wf(loaded),
            begin_refusal(loaded_view(loaded), caller) is None ==> draws_fit(
                shuffle_bounds(),
                draws@,
            ),
        ensures
            result_view(r) == begin_outcome(loaded_view(loaded), caller, draws@),
            r matches Ok(g) ==> g.wf() && first_night_of(loaded->0@, g@),
    {
        let mut game: Game = match loaded {
            None => {
                return Err(MafiaError::GameNotFound);
            },
            Some(g) => g,
        };
        if !same_player(&game.creator, &caller) {
            return Err(MafiaError::NotCreator);
        }
        if game.phase != PHASE_LOBBY {
            return Err(MafiaError::WrongPhase);
        }
        proof {
            lemma_begin_opens_first_night(game@, caller, draws@);
        }
        deal_roles(&mut game, draws);
        Ok(game)
    }

    /// Records a commitment for the player's seat. When the last living
    /// human has committed, the reveal sub-phase opens.
    pub fn submit_commitment(loaded: Option<Game>, player: PlayerId, commitment: [u8; 32]) -> (r:
        Result<Game, MafiaError>)
        requires
            loaded_wf(loaded),
        ensures
            result_view(r) == commit_outcome(loaded_view(loaded), player, commitment),
            r matches Ok(g) ==> g.wf(),
    {
        let idx: u32 = match acting_seat(&loaded, PHASE_NIGHT_COMMIT, &player) {
            Err(e) => {
                return Err(e);
            },
            Ok(i) => i,
        };
        let mut game: Game = match loaded {
            None => {
                return Err(MafiaError::GameNotFound);
            },
            Some(g) => g,
        };
        let ghost before = game@;
        game.slots[idx as usize].commitment = Some(commitment);
        game.slots[idx as usize].submitted = true;
        let ghost marked = game@.slots;
        proof {
            assert(marked =~= before.slots.update(
                idx as int,
                Slot { commitment: Some(commitment), submitted: true, ..before.slots[idx as int] },
            ));
        }
        if all_alive_humans_submitted(&game) {
            game.phase = PHASE_NIGHT_REVEAL;
            let mut i: usize = 0;
            while i < 8
                invariant
                    i <= 8,
                    marked.len() == 8,
                    game.slots@.len() == 8,
                    game@ == (GameView {
                        slots: game@.slots,
                        phase: PHASE_NIGHT_REVEAL,
                        ..before
                    }),
                    forall|j: int| 0 <= j < i ==> game.slots@[j] == reopened(marked)[j],
                    forall|j: int| i <= j < 8 ==> game.slots@[j] == marked[j],
                decreases 8 - i,
            {
                game.slots[i].submitted = false;
                i += 1;
            }
            assert(game@.slots =~= reopened(marked));
        }
        proof {
            lemma_targets_kept(before.slots, game@.slots);
            lemma_wf_kept(before, game@);
        }
        Ok(game)
    }

    /// Opens the player's commitment, given the digest of the target and
    /// nonce that the player reveals. The digest must be the commitment on
    /// record; the target is then checked and recorded as the seat's
    /// action, which for a Villager is always a pass. A refused reveal may
    /// be tried again.
    pub fn reveal_with_digest(
        loaded: Option<Game>,
        player: PlayerId,
        target: u32,
        digest: &[u8; 32],
    ) -> (r: Result<Game, MafiaError>)
        requires
            loaded_wf(loaded),
        ensures
            result_view(r) == reveal_outcome_with(loaded_view(loaded), player, target, digest@),
            r matches Ok(g) ==> g.wf(),
    {
        let idx: u32 = match acting_seat(&loaded, PHASE_NIGHT_REVEAL, &player) {
            Err(e) => {
                return Err(e);
            },
            Ok(i) => i,
        };
        let mut game: Game = match loaded {
            None => {
                return Err(MafiaError::GameNotFound);
            },
            Some(g) => g,
        };
        let stored: [u8; 32] = match game.slots[idx as usize].commitment {
            None => {
                return Err(MafiaError::NoCommitment);
            },
            Some(c) => c,
        };
        if !same_digest(digest, &stored) {
            return Err(MafiaError::InvalidReveal);
        }
        let action: Option<u32> = match check_target(&game, idx, target, true) {
            Err(e) => {
                return Err(e);
            },
            Ok(a) => a,
        };
        record_action(&mut game, idx, action);
        Ok(game)
    }

    /// Opens the player's commitment with the target and the nonce that it
    /// was made from.
    pub fn reveal_action(
        env: &soroban_sdk::Env,
        loaded: Option<Game>,
        player: PlayerId,
        target: u32,
        nonce: u64,
    ) -> (r: Result<Game, MafiaError>)
        requires
            loaded_wf(loaded),
        ensures
            result_view(r) == reveal_outcome(loaded_view(loaded), player, target, nonce),
            r matches Ok(g) ==> g.wf(),
    {
        let computed: [u8; 32] = compute_commitment(env, target, nonce);
        Self::reveal_with_digest(loaded, player, target, &computed)
    }

    /// Records the player's vote of the day.
    pub fn submit_action(loaded: Option<Game>, player: PlayerId, target: u32) -> (r: Result<
        Game,
        MafiaError,
    >)
        requires
            loaded_wf(loaded),
        ensures
            result_view(r) == vote_outcome(loaded_view(loaded), player, target),
            r matches Ok(g) ==> g.wf(),
    {
        let idx: u32 = match acting_seat(&loaded, PHASE_DAY, &player) {
            Err(e) => {
                return Err(e);
            },
            Ok(i) => i,
        };
        let mut game: Game = match loaded {
            None => {
                return Err(MafiaError::GameNotFound);
            },
            Some(g) => g,
        };
        let action: Option<u32> = match check_target(&game, idx, target, false) {
            Err(e) => {
                return Err(e);
            },
            Ok(a) => a,
        };
        record_action(&mut game, idx, action);
        Ok(game)
    }

    /// What resolving needs from the generator, or why the game cannot be
    /// resolved. Only the reveal sub-phase and the day are resolved, and
    /// only while nobody has won.
    pub fn resolve_request(env: &soroban_sdk::Env, loaded: &Option<Game>, session_id: u32) -> (r:
        Result<DrawRequest, MafiaError>)
        requires
            loaded_wf(*loaded),
        ensures
            request_view(r) == resolve_request_of(loaded_view(*loaded), session_id),
            r matches Ok(q) ==> forall|k: int| 0 <= k < q.bounds@.len() ==> q.bounds@[k] > 0,
    {
        match loaded {
            None => Err(MafiaError::GameNotFound),
            Some(game) => {
                if game.phase != PHASE_NIGHT_REVEAL && game.phase != PHASE_DAY {
                    return Err(MafiaError::WrongPhase);
                }
                if game.winner.is_some() {
                    return Err(MafiaError::GameAlreadyOver);
                }
                Ok(
                    DrawRequest {
                        seed: phase_seed(env, session_id, game.day, game.phase),
                        bounds: plan_draws(env, game, game.phase == PHASE_NIGHT_REVEAL),
                    },
                )
            },
        }
    }

    /// Resolves the night or the day with the numbers that the generator
    /// gave to the request of `resolve_request`: the engine plays its seats,
    /// the outcome is applied, the phase advances and the win check is made.
    pub fn resolve(env: &soroban_sdk::Env, loaded: Option<Game>, draws: &Vec<u64>) -> (r: Result<
        Game,
        MafiaError,
    >)
        requires
            loaded_wf(loaded),
            resolve_refusal(loaded_view(loaded)) is None ==> {
                &&& draws_fit(resolve_bounds(loaded->0@), draws@)
                &&& loaded->0.phase == PHASE_DAY ==> loaded->0.day < u32::MAX
            },
        ensures
            result_view(r) == resolve_outcome(loaded_view(loaded), draws@),
            r matches Ok(g) ==> {
                &&& g.wf()
                &&& carried_over(loaded->0@, g@)
                &&& verdict(g@.slots) matches Some(team) ==> g.winner == Some(team) && g.phase
                    == PHASE_OVER
            },
    {
        let mut game: Game = match loaded {
            None => {
                return Err(MafiaError::GameNotFound);
            },
            Some(g) => g,
        };
        if game.phase != PHASE_NIGHT_REVEAL && game.phase != PHASE_DAY {
            return Err(MafiaError::WrongPhase);
        }
        if game.winner.is_some() {
            return Err(MafiaError::GameAlreadyOver);
        }
        resolve_with_draws(env, &mut game, draws);
        Ok(game)
    }
}

} // verus!
