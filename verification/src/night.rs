//! Night resolution: one kill, one protection, one investigation.

use vstd::prelude::*;

use crate::laws::lemma_night_kills_unless_saved;
use crate::model::{
    all_cleared, killed, lemma_wf_kept, living_seat, targets_alive, Game, GameView, Slot,
    PHASE_LOBBY, ROLE_DOCTOR, ROLE_MAFIA, ROLE_SHERIFF,
};
use crate::seats::{
    ai_bounds, ai_filled, clear_transient, draws_fit, fill_ai_seats, lemma_filled_targets_alive,
};

verus! {

/// The seat is alive, has the role and has chosen a target.
pub open spec fn acts_as(s: Slot, role: u32) -> bool {
    s.alive && s.role == role && s.action is Some
}

/// The target of the first seat, from seat `from` on, that acts in the role.
pub open spec fn first_target_from(slots: Seq<Slot>, role: u32, from: int) -> Option<u32>
    decreases slots.len() - from,
{
    if from < 0 || from >= slots.len() {
        None
    } else if acts_as(slots[from], role) {
        slots[from].action
    } else {
        first_target_from(slots, role, from + 1)
    }
}

/// The target of the first seat that acts in the role: later seats with the
/// same role have no say.
pub open spec fn first_target(slots: Seq<Slot>, role: u32) -> Option<u32> {
    first_target_from(slots, role, 0)
}

/// The kill goes through: somebody was targeted and the Doctor protected
/// somebody else, or nobody.
pub open spec fn kill_lands(kill: Option<u32>, save: Option<u32>) -> bool {
    kill is Some && save != kill
}

/// The game after the night, given the numbers that the generator gave.
pub open spec fn night_outcome(g: GameView, draws: Seq<u64>) -> GameView {
    let filled = ai_filled(g.slots, true, draws);
    let kill = first_target(filled, ROLE_MAFIA);
    let save = first_target(filled, ROLE_DOCTOR);
    let probe = first_target(filled, ROLE_SHERIFF);
    let after = if kill_lands(kill, save) {
        filled.update(kill->0 as int, killed(filled[kill->0 as int]))
    } else {
        filled
    };
    GameView {
        slots: all_cleared(after),
        last_killed: kill,
        last_saved: kill is Some && save == kill,
        last_voted_out: None,
        last_investigated: probe,
        invest_is_mafia: probe is Some && filled[probe->0 as int].role == ROLE_MAFIA,
        ..g
    }
}

/// Seat `i` is the first seat, from `from` on, that acts in the role.
pub open spec fn is_first_actor(slots: Seq<Slot>, role: u32, from: int, i: int) -> bool {
    &&& from <= i < slots.len()
    &&& acts_as(slots[i], role)
    &&& forall|j: int| from <= j < i ==> !acts_as(#[trigger] slots[j], role)
}

/// The first target is the target of the first seat that acts in the role,
/// and there is none exactly if no seat acts in the role.
pub proof fn lemma_first_target_is_first_actors(slots: Seq<Slot>, role: u32, from: int)
    requires
        0 <= from,
    ensures
        first_target_from(slots, role, from) is Some ==> exists|i: int|
            #[trigger] is_first_actor(slots, role, from, i) && slots[i].action
                == first_target_from(slots, role, from),
        first_target_from(slots, role, from) is None ==> forall|i: int|
            from <= i < slots.len() ==> !acts_as(#[trigger] slots[i], role),
    decreases slots.len() - from,
{
    if from < slots.len() {
        if acts_as(slots[from], role) {
            assert(is_first_actor(slots, role, from, from));
        } else {
            lemma_first_target_is_first_actors(slots, role, from + 1);
            if first_target_from(slots, role, from) is Some {
                let i = choose|i: int|
                    #[trigger] is_first_actor(slots, role, from + 1, i) && slots[i].action
                        == first_target_from(slots, role, from + 1);
                assert(is_first_actor(slots, role, from, i));
            }
        }
    }
}

/// A target of the first acting seat is a target on record, so it names a
/// living seat.
pub proof fn lemma_first_target_alive(slots: Seq<Slot>, role: u32, from: int)
    requires
        targets_alive(slots),
        0 <= from,
    ensures
        first_target_from(slots, role, from) matches Some(t) ==> living_seat(slots, t),
    decreases slots.len() - from,
{
    if from < slots.len() && !acts_as(slots[from], role) {
        lemma_first_target_alive(slots, role, from + 1);
    }
}

/// The target of the first living seat with the role that has chosen one.
pub fn acting_target(game: &Game, role: u32) -> (target: Option<u32>)
    requires
        game.slots@.len() == 8,
    ensures
        target == first_target(game@.slots, role),
{
    let mut i: usize = 0;
    while i < 8
        invariant
            i <= 8,
            game.slots@.len() == 8,
            first_target(game@.slots, role) == first_target_from(game@.slots, role, i as int),
        decreases 8 - i,
    {
        let s: Slot = game.slots[i];
        if s.alive && s.role == role {
            match s.action {
                Some(t) => {
                    return Some(t);
                },
                None => {},
            }
        }
        i += 1;
    }
    None
}

/// Resolves the night. The engine first plays its seats with the numbers in
/// `draws`. Then the first acting Mafia seat names the victim, the first
/// acting Doctor the protected seat and the first acting Sheriff the seat
/// investigated. The victim, a living seat, dies unless it is the protected
/// seat: it is alive after the night exactly if the rescue is on record. The
/// night's summary is recorded, the day's summary is emptied, and every
/// seat's sub-phase fields are emptied.
pub fn resolve_night(env: &soroban_sdk::Env, game: &mut Game, draws: &Vec<u64>)
    requires
        old(game).wf(),
        old(game).phase != PHASE_LOBBY,
        draws_fit(ai_bounds(old(game)@.slots, true, 8), draws@),
    ensures
        final(game)@ == night_outcome(old(game)@, draws@),
        final(game).wf(),
        final(game).last_killed matches Some(k) ==> living_seat(old(game)@.slots, k)
            && final(game).last_saved == final(game)@.slots[k as int].alive,
        final(game).last_killed is None ==> !final(game).last_saved,
{
    let ghost before = game@;
    proof {
        lemma_night_kills_unless_saved(before, draws@);
    }
    fill_ai_seats(env, game, true, draws);
    let ghost filled = game@.slots;
    proof {
        lemma_filled_targets_alive(before.slots, true, draws@);
        lemma_first_target_alive(filled, ROLE_MAFIA, 0);
        lemma_first_target_alive(filled, ROLE_SHERIFF, 0);
    }
    let kill_target: Option<u32> = acting_target(game, ROLE_MAFIA);
    let save_target: Option<u32> = acting_target(game, ROLE_DOCTOR);
    let invest_target: Option<u32> = acting_target(game, ROLE_SHERIFF);
    let invest_is_mafia: bool = match invest_target {
        Some(t) => game.slots[t as usize].role == ROLE_MAFIA,
        None => false,
    };
    game.last_killed = kill_target;
    game.last_saved = false;
    game.last_voted_out = None;
    game.last_investigated = invest_target;
    game.invest_is_mafia = invest_is_mafia;
    match kill_target {
        Some(ki) => {
            let protected: bool = match save_target {
                Some(si) => si == ki,
                None => false,
            };
            if protected {
                game.last_saved = true;
            } else {
                game.slots[ki as usize].alive = false;
            }
        },
        None => {},
    }
    clear_transient(game);
    proof {
        let out = night_outcome(before, draws@);
        assert(game@.slots =~= out.slots);
        assert(game@ == out);
        lemma_wf_kept(before, game@);
    }
}

} // verus!
