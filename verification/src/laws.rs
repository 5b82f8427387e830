//! What holds of the game whatever the players and the generator do.

use vstd::prelude::*;

use crate::day::{day_outcome, leads, tally};
use crate::encoding::{
    be32, be64, commit_preimage, commitment_of, lemma_be32_injective, lemma_be64_injective,
    seed_preimage,
};
use crate::model::{
    cleared, is_full_cast, is_idle, killed, living_seat, role_template, roles_of, GameView,
    MafiaError, PlayerId, Slot, PASS_TARGET, PHASE_DAY, PHASE_LOBBY, PHASE_NIGHT_COMMIT,
    PHASE_NIGHT_REVEAL, PHASE_OVER, ROLE_DOCTOR, ROLE_MAFIA, ROLE_SHERIFF, ROLE_VILLAGER,
    TEAM_MAFIA, TEAM_TOWN,
};
use crate::night::{
    first_target, first_target_from, kill_lands, lemma_first_target_alive, night_outcome,
};
use crate::outcomes::{
    acting_seat_of, advanced, begin_outcome, begin_request_of, carried_over, checked_target,
    commit_outcome, first_night_of, join_outcome, lemma_seat_of_from, resolve_outcome,
    resolve_request_of, reveal_outcome, reveal_outcome_with, seat_of_from, vote_outcome,
};
use crate::roles::{
    begun, dealt_roles, lemma_shuffle_keeps_cast, lemma_template_is_full_cast, shuffle_bounds,
};
use crate::seats::{
    ai_bounds, ai_choice, ai_controlled, ai_filled, candidates, cursor_at, draws_fit, is_living,
    is_living_town, lemma_bounds_follow_cursor, lemma_candidates_are_alive,
    lemma_filled_targets_alive, living_all, living_town, seat_draws, seat_ids,
};
use crate::verdict::{mafia_alive, settled, town_alive, verdict};

verus! {

/// Once the roles are dealt there are eight seats, and among them two
/// Mafia, one Doctor, one Sheriff and four Villagers, however the shuffle
/// fell.
pub proof fn lemma_begun_has_full_cast(g: GameView, draws: Seq<u64>)
    requires
        draws_fit(shuffle_bounds(), draws),
    ensures
        begun(g, draws).slots.len() == 8,
        is_full_cast(roles_of(begun(g, draws).slots)),
{
    lemma_template_is_full_cast();
    lemma_shuffle_keeps_cast(role_template(), draws, 7);
    assert(roles_of(begun(g, draws).slots) =~= dealt_roles(draws));
}

/// A player who joins takes the lowest seat that no human occupies, and
/// nobody else moves.
pub proof fn lemma_join_takes_lowest_free_seat(g: GameView, player: PlayerId)
    requires
        g.wf(),
        join_outcome(Some(g), player) is Ok,
    ensures
        ({
            let after = join_outcome(Some(g), player)->Ok_0;
            let seat = g.human_count as int;
            &&& 0 <= seat < 8
            &&& g.slots[seat].addr is None
            &&& forall|i: int| 0 <= i < seat ==> (#[trigger] g.slots[i]).addr is Some
            &&& after.slots[seat].addr == Some(player)
            &&& forall|i: int| 0 <= i < 8 && i != seat ==> #[trigger] after.slots[i] == g.slots[i]
            &&& after.human_count == g.human_count + 1
        }),
{
}

/// Who sits where, in which role, and who is alive are the same in two rows
/// of seats.
pub open spec fn same_table(before: Seq<Slot>, after: Seq<Slot>) -> bool {
    &&& after.len() == before.len()
    &&& forall|i: int|
        0 <= i < before.len() ==> {
            &&& (#[trigger] after[i]).addr == before[i].addr
            &&& after[i].role == before[i].role
            &&& after[i].alive == before[i].alive
        }
}

/// Seats that stay in their roles keep the cast.
pub proof fn lemma_same_table_same_cast(before: Seq<Slot>, after: Seq<Slot>)
    requires
        same_table(before, after),
    ensures
        roles_of(after) == roles_of(before),
        is_full_cast(roles_of(before)) ==> is_full_cast(roles_of(after)),
{
    assert(roles_of(after) =~= roles_of(before));
}

/// No commit, reveal or vote changes the role of a seat, its occupant, or
/// whether it is alive.
pub proof fn lemma_actions_keep_seats(
    g: GameView,
    player: PlayerId,
    commitment: [u8; 32],
    target: u32,
    digest: Seq<u8>,
)
    requires
        g.wf(),
    ensures
        commit_outcome(Some(g), player, commitment) matches Ok(after) ==> same_table(
            g.slots,
            after.slots,
        ),
        reveal_outcome_with(Some(g), player, target, digest) matches Ok(after) ==> same_table(
            g.slots,
            after.slots,
        ),
        vote_outcome(Some(g), player, target) matches Ok(after) ==> same_table(
            g.slots,
            after.slots,
        ),
{
    lemma_seat_of_from(g.slots, player, 0);
}

/// No resolution changes the role of any seat or who sits where, brings a
/// dead seat back to life, or takes the life of more than one seat; and a
/// resolution whose seats show a winner ends the game for that team.
pub proof fn lemma_resolution_keeps_seats(g: GameView, draws: Seq<u64>)
    requires
        g.wf(),
        g.phase == PHASE_NIGHT_REVEAL || g.phase == PHASE_DAY,
        draws_fit(ai_bounds(g.slots, g.phase == PHASE_NIGHT_REVEAL, 8), draws),
    ensures
        carried_over(g, advanced(g, draws)),
        roles_of(advanced(g, draws).slots) == roles_of(g.slots),
        verdict(advanced(g, draws).slots) matches Some(team) ==> advanced(g, draws).winner == Some(
            team,
        ) && advanced(g, draws).phase == PHASE_OVER,
{
    let night = g.phase == PHASE_NIGHT_REVEAL;
    let filled = ai_filled(g.slots, night, draws);
    let out = advanced(g, draws);
    lemma_filled_targets_alive(g.slots, night, draws);
    if night {
        lemma_first_target_alive(filled, ROLE_MAFIA, 0);
        assert(out.slots == night_outcome(g, draws).slots);
    } else {
        let counts = tally(filled);
        if exists|i: int| leads(filled, counts, i) {
            let e = choose|i: int| leads(filled, counts, i);
            assert(leads(filled, counts, e));
        }
        assert(out.slots == day_outcome(g, draws).slots);
    }
    assert forall|i: int| 0 <= i < 8 implies (#[trigger] out.slots[i]).addr == g.slots[i].addr
        && out.slots[i].role == g.slots[i].role && (out.slots[i].alive ==> g.slots[i].alive) by {
        assert(filled[i].addr == g.slots[i].addr);
    }
    assert forall|i: int, j: int|
        0 <= i < 8 && 0 <= j < 8 && (#[trigger] out.slots[i]).alive != g.slots[i].alive && (
        #[trigger] out.slots[j]).alive != g.slots[j].alive implies i == j by {
        assert(filled[i].alive == g.slots[i].alive);
        assert(filled[j].alive == g.slots[j].alive);
    }
    assert(roles_of(out.slots) =~= roles_of(g.slots));
}

/// Distinct phases have distinct seed material: the material determines
/// session, day and phase.
pub proof fn lemma_seed_material_is_injective(
    session: u32,
    day: u32,
    phase: u32,
    other_session: u32,
    other_day: u32,
    other_phase: u32,
)
    requires
        seed_preimage(session, day, phase) == seed_preimage(other_session, other_day, other_phase),
    ensures
        session == other_session,
        day == other_day,
        phase == other_phase,
{
    let a = seed_preimage(session, day, phase);
    let b = seed_preimage(other_session, other_day, other_phase);
    assert(be32(session) =~= a.subrange(0, 4));
    assert(be32(other_session) =~= b.subrange(0, 4));
    assert(be32(day) =~= a.subrange(4, 8));
    assert(be32(other_day) =~= b.subrange(4, 8));
    assert(be32(phase) =~= a.subrange(8, 12));
    assert(be32(other_phase) =~= b.subrange(8, 12));
    lemma_be32_injective(session, other_session);
    lemma_be32_injective(day, other_day);
    lemma_be32_injective(phase, other_phase);
}

/// Replaying a resolution reproduces it. Two games with the same seats in
/// the same phase of the same day of one session ask the generator for the
/// same numbers from the same seed; and given the same numbers, the engine
/// makes the same choices and the resolution leaves the same seats, the same
/// summaries and the same winner. Nothing else of the game enters.
pub proof fn lemma_replay_is_deterministic(
    a: GameView,
    b: GameView,
    session_id: u32,
    draws: Seq<u64>,
)
    requires
        a.slots == b.slots,
        a.day == b.day,
        a.phase == b.phase,
        a.winner == b.winner,
    ensures
        resolve_request_of(Some(a), session_id) == resolve_request_of(Some(b), session_id),
        ({
            let night = a.phase == PHASE_NIGHT_REVEAL;
            let x = advanced(a, draws);
            let y = advanced(b, draws);
            &&& ai_filled(a.slots, night, draws) == ai_filled(b.slots, night, draws)
            &&& x.slots == y.slots
            &&& x.phase == y.phase
            &&& x.day == y.day
            &&& x.winner == y.winner
            &&& x.last_killed == y.last_killed
            &&& x.last_saved == y.last_saved
            &&& x.last_investigated == y.last_investigated
            &&& x.invest_is_mafia == y.invest_is_mafia
            &&& x.last_voted_out == y.last_voted_out
        }),
{
}

/// Beginning opens the first night and changes nothing but the roles. From
/// a lobby the creator gets day 1 of the commit sub-phase with nobody the
/// winner; every seat keeps its occupant, is alive and has nothing pending;
/// the seats hold the full cast; creator, wager and the number of humans
/// stay.
pub proof fn lemma_begin_opens_first_night(g: GameView, caller: PlayerId, draws: Seq<u64>)
    requires
        g.wf(),
        g.phase == PHASE_LOBBY,
        caller == g.creator,
        draws_fit(shuffle_bounds(), draws),
    ensures
        begin_outcome(Some(g), caller, draws) is Ok,
        first_night_of(g, begin_outcome(Some(g), caller, draws)->Ok_0),
{
    lemma_begun_has_full_cast(g, draws);
    assert forall|i: int| 0 <= i < 8 implies is_idle(#[trigger] begun(g, draws).slots[i]) by {
        assert(is_idle(g.slots[i]));
    }
}

/// A target and a nonce are determined by what is hashed into their
/// commitment: two openings that differ in the target or in the nonce are
/// hashed from different bytes.
pub proof fn lemma_opening_is_injective(
    target: u32,
    nonce: u64,
    other_target: u32,
    other_nonce: u64,
)
    requires
        commit_preimage(target, nonce) == commit_preimage(other_target, other_nonce),
    ensures
        target == other_target,
        nonce == other_nonce,
{
    let a = commit_preimage(target, nonce);
    let b = commit_preimage(other_target, other_nonce);
    assert(be32(target) =~= a.subrange(0, 4));
    assert(be32(other_target) =~= b.subrange(0, 4));
    assert(be64(nonce) =~= a.subrange(4, 12));
    assert(be64(other_nonce) =~= b.subrange(4, 12));
    lemma_be32_injective(target, other_target);
    lemma_be64_injective(nonce, other_nonce);
}

/// A seat that may act and has committed opens its commitment exactly with
/// a target and a nonce whose digest is the commitment: any other pair is
/// refused as an invalid reveal, whatever the target, and a matching pair
/// is refused only for its target.
pub proof fn lemma_reveal_needs_matching_digest(
    g: GameView,
    player: PlayerId,
    target: u32,
    nonce: u64,
)
    requires
        g.wf(),
        acting_seat_of(Some(g), PHASE_NIGHT_REVEAL, player) is Ok,
        g.slots[acting_seat_of(Some(g), PHASE_NIGHT_REVEAL, player)->Ok_0 as int].commitment
            is Some,
    ensures
        ({
            let seat = acting_seat_of(Some(g), PHASE_NIGHT_REVEAL, player)->Ok_0 as int;
            let stored = g.slots[seat].commitment->0@;
            let r = reveal_outcome(Some(g), player, target, nonce);
            &&& commitment_of(target, nonce) != stored <==> r == Err::<GameView, MafiaError>(
                MafiaError::InvalidReveal,
            )
            &&& r is Ok <==> commitment_of(target, nonce) == stored && checked_target(
                g.slots,
                seat,
                target,
                true,
            ) is Ok
        }),
{
}

/// A changed opening is refused. Where a seat has committed to a target and
/// a nonce, a reveal that differs from them in the target or in the nonce,
/// be it by one bit, is hashed from other bytes and is refused as an invalid
/// reveal. The one exception, which the digest cannot rule out, is a second
/// pair with the same digest.
pub proof fn lemma_changed_opening_is_refused(
    g: GameView,
    player: PlayerId,
    target: u32,
    nonce: u64,
    other_target: u32,
    other_nonce: u64,
)
    requires
        g.wf(),
        acting_seat_of(Some(g), PHASE_NIGHT_REVEAL, player) is Ok,
        g.slots[acting_seat_of(Some(g), PHASE_NIGHT_REVEAL, player)->Ok_0 as int].commitment
            matches Some(stored) && stored@ == commitment_of(target, nonce),
        other_target != target || other_nonce != nonce,
        commitment_of(other_target, other_nonce) != commitment_of(target, nonce),
    ensures
        commit_preimage(other_target, other_nonce) != commit_preimage(target, nonce),
        reveal_outcome(Some(g), player, other_target, other_nonce) == Err::<GameView, MafiaError>(
            MafiaError::InvalidReveal,
        ),
{
    if commit_preimage(other_target, other_nonce) == commit_preimage(target, nonce) {
        lemma_opening_is_injective(target, nonce, other_target, other_nonce);
    }
}

/// Who sits where depends on the occupants alone.
pub proof fn lemma_seat_of_follows_occupants(
    a: Seq<Slot>,
    b: Seq<Slot>,
    player: PlayerId,
    from: int,
)
    requires
        a.len() == b.len(),
        forall|i: int| 0 <= i < a.len() ==> a[i].addr == b[i].addr,
    ensures
        seat_of_from(a, player, from) == seat_of_from(b, player, from),
    decreases a.len() - from,
{
    if 0 <= from < a.len() && a[from].addr != Some(player) {
        lemma_seat_of_follows_occupants(a, b, player, from + 1);
    }
}

/// A seat reveals at most once in a night: after an accepted reveal, every
/// further reveal from the same player is refused as already acted.
pub proof fn lemma_second_reveal_is_refused(
    g: GameView,
    player: PlayerId,
    target: u32,
    digest: Seq<u8>,
    target2: u32,
    digest2: Seq<u8>,
)
    requires
        g.wf(),
        reveal_outcome_with(Some(g), player, target, digest) is Ok,
    ensures
        reveal_outcome_with(
            Some(reveal_outcome_with(Some(g), player, target, digest)->Ok_0),
            player,
            target2,
            digest2,
        ) == Err::<GameView, MafiaError>(MafiaError::AlreadyActed),
{
    let after = reveal_outcome_with(Some(g), player, target, digest)->Ok_0;
    lemma_seat_of_from(g.slots, player, 0);
    lemma_seat_of_follows_occupants(g.slots, after.slots, player, 0);
}

/// A seat votes at most once in a day: after an accepted vote, every
/// further vote from the same player is refused as already acted.
pub proof fn lemma_second_vote_is_refused(
    g: GameView,
    player: PlayerId,
    target: u32,
    target2: u32,
)
    requires
        g.wf(),
        vote_outcome(Some(g), player, target) is Ok,
    ensures
        vote_outcome(Some(vote_outcome(Some(g), player, target)->Ok_0), player, target2) == Err::<
            GameView,
            MafiaError,
        >(MafiaError::AlreadyActed),
{
    let after = vote_outcome(Some(g), player, target)->Ok_0;
    lemma_seat_of_from(g.slots, player, 0);
    lemma_seat_of_follows_occupants(g.slots, after.slots, player, 0);
}

/// A seat commits at most once in a night: after an accepted commitment,
/// every further commitment from the same player is refused. It is refused
/// as already acted while the commit sub-phase lasts, and as out of phase
/// once the accepted commitment, being the last one awaited, has opened the
/// reveal sub-phase.
pub proof fn lemma_second_commit_is_refused(
    g: GameView,
    player: PlayerId,
    commitment: [u8; 32],
    commitment2: [u8; 32],
)
    requires
        g.wf(),
        commit_outcome(Some(g), player, commitment) is Ok,
    ensures
        ({
            let after = commit_outcome(Some(g), player, commitment)->Ok_0;
            let again = commit_outcome(Some(after), player, commitment2);
            if after.phase == PHASE_NIGHT_COMMIT {
                again == Err::<GameView, MafiaError>(MafiaError::AlreadyActed)
            } else {
                again == Err::<GameView, MafiaError>(MafiaError::WrongPhase)
            }
        }),
{
    let after = commit_outcome(Some(g), player, commitment)->Ok_0;
    lemma_seat_of_from(g.slots, player, 0);
    lemma_seat_of_follows_occupants(g.slots, after.slots, player, 0);
}

/// The night's one kill. The Mafia's target is a living seat. If it is the
/// seat that the Doctor protected, it is alive after the night and the
/// rescue is on record. If it is not protected, it is dead after the night
/// and no rescue is on record. Every other seat is alive after the night
/// exactly if it was before.
pub proof fn lemma_night_kills_unless_saved(g: GameView, draws: Seq<u64>)
    requires
        g.wf(),
        draws_fit(ai_bounds(g.slots, true, 8), draws),
    ensures
        ({
            let filled = ai_filled(g.slots, true, draws);
            let kill = first_target(filled, ROLE_MAFIA);
            let save = first_target(filled, ROLE_DOCTOR);
            let out = night_outcome(g, draws);
            &&& out.last_killed == kill
            &&& kill matches Some(k) ==> living_seat(g.slots, k)
            &&& (kill is Some && kill == save) ==> out.last_saved && out.slots[kill->0 as int].alive
            &&& (kill is Some && kill != save) ==> !out.last_saved && !out.slots[kill->0
                as int].alive
            &&& kill is None ==> !out.last_saved
            &&& forall|i: int|
                0 <= i < 8 && kill != Some(i as u32) ==> (#[trigger] out.slots[i]).alive
                    == g.slots[i].alive
        }),
{
    let filled = ai_filled(g.slots, true, draws);
    lemma_filled_targets_alive(g.slots, true, draws);
    lemma_first_target_alive(filled, ROLE_MAFIA, 0);
    let kill = first_target(filled, ROLE_MAFIA);
    if let Some(k) = kill {
        assert(filled[k as int].alive == g.slots[k as int].alive);
    }
}

/// The day's one elimination: the seat voted out is alive before the day
/// and dead after it, it has a vote, no living seat has more votes, and no
/// living seat before it has as many. Without a vote for a living seat
/// nobody is voted out. Every other seat is alive after the day exactly if
/// it was before.
pub proof fn lemma_day_elects_first_leader(g: GameView, draws: Seq<u64>)
    requires
        g.wf(),
        draws_fit(ai_bounds(g.slots, false, 8), draws),
    ensures
        ({
            let filled = ai_filled(g.slots, false, draws);
            let counts = tally(filled);
            let out = day_outcome(g, draws);
            &&& out.last_voted_out matches Some(e) ==> {
                &&& leads(filled, counts, e as int)
                &&& g.slots[e as int].alive
                &&& !out.slots[e as int].alive
            }
            &&& out.last_voted_out is None ==> forall|i: int|
                0 <= i < 8 && g.slots[i].alive ==> #[trigger] counts[i] == 0
            &&& forall|i: int|
                0 <= i < 8 && out.last_voted_out != Some(i as u32) ==> (#[trigger] out.slots[i]).alive
                    == g.slots[i].alive
        }),
{
    let filled = ai_filled(g.slots, false, draws);
    let counts = tally(filled);
    if exists|i: int| leads(filled, counts, i) {
        let e = choose|i: int| leads(filled, counts, i);
        assert(leads(filled, counts, e));
    } else {
        assert forall|i: int| 0 <= i < 8 && g.slots[i].alive implies #[trigger] counts[i] == 0 by {
            if counts[i] > 0 {
                assert(filled[i].alive);
                lemma_some_leader(filled, counts, i);
            }
        }
    }
}

/// Where a living seat has a vote, some seat leads.
pub proof fn lemma_some_leader(slots: Seq<Slot>, counts: Seq<u32>, i: int)
    requires
        0 <= i < 8,
        slots[i].alive,
        counts[i] > 0,
    ensures
        exists|e: int| leads(slots, counts, e),
{
    lemma_leader_upto(slots, counts, 8);
}

/// Among the first `n` seats, if a living one has a vote, one of them has
/// the most votes of the living and is the first to have them.
proof fn lemma_leader_upto(slots: Seq<Slot>, counts: Seq<u32>, n: int)
    requires
        0 <= n <= 8,
    ensures
        (forall|j: int| 0 <= j < n && slots[j].alive ==> counts[j] == 0) || exists|e: int|
            {
                &&& 0 <= e < n
                &&& slots[e].alive
                &&& counts[e] > 0
                &&& forall|j: int| 0 <= j < e && slots[j].alive ==> counts[j] < counts[e]
                &&& forall|j: int| e < j < n && slots[j].alive ==> counts[j] <= counts[e]
            },
        n == 8 ==> ((forall|j: int| 0 <= j < 8 && slots[j].alive ==> counts[j] == 0) || exists|
            e: int,
        |
            leads(slots, counts, e)),
    decreases n,
{
    if n > 0 {
        lemma_leader_upto(slots, counts, n - 1);
        let last = n - 1;
        if forall|j: int| 0 <= j < last && slots[j].alive ==> counts[j] == 0 {
            if slots[last].alive && counts[last] > 0 {
                assert({
                    &&& 0 <= last < n
                    &&& slots[last].alive
                    &&& counts[last] > 0
                    &&& forall|j: int| 0 <= j < last && slots[j].alive ==> counts[j] < counts[last]
                    &&& forall|j: int| last < j < n && slots[j].alive ==> counts[j] <= counts[last]
                });
            }
        } else {
            let e = choose|e: int|
                {
                    &&& 0 <= e < last
                    &&& slots[e].alive
                    &&& counts[e] > 0
                    &&& forall|j: int| 0 <= j < e && slots[j].alive ==> counts[j] < counts[e]
                    &&& forall|j: int| e < j < last && slots[j].alive ==> counts[j] <= counts[e]
                };
            if slots[last].alive && counts[last] > counts[e] {
                assert({
                    &&& 0 <= last < n
                    &&& slots[last].alive
                    &&& counts[last] > 0
                    &&& forall|j: int| 0 <= j < last && slots[j].alive ==> counts[j] < counts[last]
                    &&& forall|j: int| last < j < n && slots[j].alive ==> counts[j] <= counts[last]
                });
            } else {
                assert({
                    &&& 0 <= e < n
                    &&& slots[e].alive
                    &&& counts[e] > 0
                    &&& forall|j: int| 0 <= j < e && slots[j].alive ==> counts[j] < counts[e]
                    &&& forall|j: int| e < j < n && slots[j].alive ==> counts[j] <= counts[e]
                });
            }
        }
        if n == 8 {
            if !(forall|j: int| 0 <= j < 8 && slots[j].alive ==> counts[j] == 0) {
                let e = choose|e: int|
                    {
                        &&& 0 <= e < n
                        &&& slots[e].alive
                        &&& counts[e] > 0
                        &&& forall|j: int| 0 <= j < e && slots[j].alive ==> counts[j] < counts[e]
                        &&& forall|j: int| e < j < n && slots[j].alive ==> counts[j] <= counts[e]
                    };
                assert(leads(slots, counts, e));
            }
        }
    }
}

/// The win check. With no Mafia alive the town has won. With a Mafia seat
/// alive and the living Mafia at least as many as the living town, the
/// Mafia has won: one living Mafia against one living town seat is enough.
/// Otherwise the game goes on. A game that is won is over.
pub proof fn lemma_win_check(g: GameView)
    ensures
        mafia_alive(g.slots) == 0 ==> settled(g).winner == Some(TEAM_TOWN) && settled(g).phase
            == PHASE_OVER,
        mafia_alive(g.slots) >= 1 && mafia_alive(g.slots) >= town_alive(g.slots) ==> settled(
            g,
        ).winner == Some(TEAM_MAFIA) && settled(g).phase == PHASE_OVER,
        mafia_alive(g.slots) >= 1 && mafia_alive(g.slots) < town_alive(g.slots) ==> settled(g)
            == g,
        settled(g).slots == g.slots,
{
}

/// The win check follows every resolution at once, after a night as after
/// a day: whenever the seats that a resolution leaves hold a living Mafia
/// seat and no more living town seats than living Mafia seats, the
/// resolution itself ends the game for the Mafia.
pub proof fn lemma_resolution_ends_won_game(g: GameView, draws: Seq<u64>)
    ensures
        ({
            let out = advanced(g, draws);
            &&& mafia_alive(out.slots) == 0 ==> out.winner == Some(TEAM_TOWN) && out.phase
                == PHASE_OVER
            &&& mafia_alive(out.slots) >= 1 && mafia_alive(out.slots) >= town_alive(out.slots)
                ==> out.winner == Some(TEAM_MAFIA) && out.phase == PHASE_OVER
        }),
{
}

/// The rule for targets. The pass value is always accepted and means no
/// target. At night a Villager's target is accepted and means no target,
/// whatever it is. For every other seat, and for every seat by day, a
/// target is refused unless it names a living seat; at night a Mafia or
/// Sheriff seat that names itself is refused; a Doctor may name itself, and
/// by day any seat may.
pub proof fn lemma_target_rule(slots: Seq<Slot>, seat: int, target: u32, night: bool)
    requires
        slots.len() == 8,
        0 <= seat < 8,
    ensures
        target == PASS_TARGET ==> checked_target(slots, seat, target, night) == Ok::<
            Option<u32>,
            MafiaError,
        >(None),
        night && slots[seat].role == ROLE_VILLAGER ==> checked_target(slots, seat, target, night)
            == Ok::<Option<u32>, MafiaError>(None),
        !(night && slots[seat].role == ROLE_VILLAGER) && target != PASS_TARGET && (target >= 8
            || !slots[target as int].alive) ==> checked_target(slots, seat, target, night) == Err::<
            Option<u32>,
            MafiaError,
        >(MafiaError::InvalidTarget),
        night && target == seat && (slots[seat].role == ROLE_MAFIA || slots[seat].role
            == ROLE_SHERIFF) ==> checked_target(slots, seat, target, night) == Err::<
            Option<u32>,
            MafiaError,
        >(MafiaError::InvalidTarget),
        target == seat && slots[seat].alive && (!night || slots[seat].role == ROLE_DOCTOR)
            ==> checked_target(slots, seat, target, night) == Ok::<Option<u32>, MafiaError>(
            Some(target),
        ),
        checked_target(slots, seat, target, night) matches Ok(Some(t)) ==> t == target && t < 8
            && slots[t as int].alive && !(night && slots[seat].role == ROLE_VILLAGER),
{
}

/// A Villager's reveal records a pass. Once the digest is the commitment, a
/// Villager seat's reveal is accepted whatever the target, be it a living
/// seat, a dead one, the seat itself or no seat at all, and leaves no target
/// on record; the seat has then acted.
pub proof fn lemma_villager_reveal_records_a_pass(
    g: GameView,
    player: PlayerId,
    target: u32,
    nonce: u64,
)
    requires
        g.wf(),
        acting_seat_of(Some(g), PHASE_NIGHT_REVEAL, player) is Ok,
        ({
            let seat = acting_seat_of(Some(g), PHASE_NIGHT_REVEAL, player)->Ok_0 as int;
            &&& g.slots[seat].role == ROLE_VILLAGER
            &&& g.slots[seat].commitment matches Some(stored) && stored@ == commitment_of(
                target,
                nonce,
            )
        }),
    ensures
        ({
            let seat = acting_seat_of(Some(g), PHASE_NIGHT_REVEAL, player)->Ok_0 as int;
            let r = reveal_outcome(Some(g), player, target, nonce);
            &&& r is Ok
            &&& r->Ok_0.slots[seat].action is None
            &&& r->Ok_0.slots[seat].submitted
            &&& r->Ok_0.slots == g.slots.update(
                seat,
                Slot { action: None, submitted: true, ..g.slots[seat] },
            )
        }),
{
    lemma_seat_of_from(g.slots, player, 0);
}

/// The engine plays by the rules. For a seat it controls it passes only
/// when there is nobody to choose; otherwise it names a living seat: for a
/// Mafia seat one that is not Mafia, for a Sheriff seat and for a vote of the
/// day one other than the seat itself. A seat it does not control keeps what
/// its human did or did not do.
pub proof fn lemma_engine_choices_are_legal(
    slots: Seq<Slot>,
    night: bool,
    draws: Seq<u64>,
    i: int,
)
    requires
        slots.len() == 8,
        0 <= i < 8,
        draws_fit(ai_bounds(slots, night, 8), draws),
    ensures
        !ai_controlled(slots[i]) ==> ai_filled(slots, night, draws)[i] == slots[i],
        ai_controlled(slots[i]) ==> ai_filled(slots, night, draws)[i].submitted && ai_filled(
            slots,
            night,
            draws,
        )[i].action == ai_choice(slots, night, draws, i),
        ai_choice(slots, night, draws, i) is None <==> candidates(slots, night, i).len() == 0,
        ai_controlled(slots[i]) ==> (ai_choice(slots, night, draws, i) matches Some(t) ==> {
            &&& t < 8
            &&& slots[t as int].alive
            &&& night && slots[i].role == ROLE_MAFIA ==> slots[t as int].role != ROLE_MAFIA
            &&& !night || slots[i].role == ROLE_SHERIFF ==> t != i
        }),
{
    let c = candidates(slots, night, i);
    if ai_controlled(slots[i]) && c.len() > 0 {
        lemma_bounds_follow_cursor(slots, night, 8);
        assert(seat_draws(slots, night, i));
        let k = cursor_at(slots, night, i) as int;
        assert(draws[k] < ai_bounds(slots, night, 8)[k]);
        lemma_candidates_are_alive(slots, night, i, draws[k] as int);
    }
}

/// A Villager has no night action in the resolution either: the night
/// reads the targets of Mafia, Doctor and Sheriff only, so whatever a seat
/// of another role has on record, the night ends the same.
pub proof fn lemma_villager_target_is_a_pass(
    g: GameView,
    draws: Seq<u64>,
    seat: int,
    target: Option<u32>,
)
    requires
        g.wf(),
        draws_fit(ai_bounds(g.slots, true, 8), draws),
        0 <= seat < 8,
        g.slots[seat].role != ROLE_MAFIA,
        g.slots[seat].role != ROLE_DOCTOR,
        g.slots[seat].role != ROLE_SHERIFF,
    ensures
        night_outcome(
            GameView {
                slots: g.slots.update(seat, Slot { action: target, ..g.slots[seat] }),
                ..g
            },
            draws,
        ) == night_outcome(g, draws),
{
    let other = g.slots.update(seat, Slot { action: target, ..g.slots[seat] });
    let h = GameView { slots: other, ..g };
    lemma_filter_agrees(seat_ids(8), is_living(other), is_living(g.slots));
    lemma_filter_agrees(seat_ids(8), is_living_town(other), is_living_town(g.slots));
    assert forall|i: int| 0 <= i <= 8 implies cursor_at(other, true, i) == cursor_at(
        g.slots,
        true,
        i,
    ) by {
        lemma_cursor_follows_seats(g.slots, other, true, i);
    }
    let a = ai_filled(g.slots, true, draws);
    let b = ai_filled(other, true, draws);
    assert forall|i: int| 0 <= i < 8 implies cleared(#[trigger] a[i]) == cleared(b[i]) && a[i].role
        == b[i].role && a[i].alive == b[i].alive && (i != seat ==> a[i] == b[i]) by {
        assert(candidates(other, true, i) == candidates(g.slots, true, i));
    }
    lemma_first_target_skips(a, b, ROLE_MAFIA, seat, 0);
    lemma_first_target_skips(a, b, ROLE_DOCTOR, seat, 0);
    lemma_first_target_skips(a, b, ROLE_SHERIFF, seat, 0);
    let kill = first_target(a, ROLE_MAFIA);
    let save = first_target(a, ROLE_DOCTOR);
    lemma_filled_targets_alive(g.slots, true, draws);
    lemma_first_target_alive(a, ROLE_MAFIA, 0);
    lemma_first_target_alive(a, ROLE_SHERIFF, 0);
    let x = night_outcome(g, draws);
    let y = night_outcome(h, draws);
    assert(x.slots.len() == 8 && y.slots.len() == 8);
    assert forall|i: int| 0 <= i < 8 implies x.slots[i] == y.slots[i] by {
        if kill_lands(kill, save) && kill->0 == i {
            assert(cleared(killed(a[i])) == cleared(killed(b[i])));
        } else {
            assert(cleared(a[i]) == cleared(b[i]));
        }
    }
    assert(x.slots =~= y.slots);
}

/// Two tests that agree on every item of a list select the same items.
proof fn lemma_filter_agrees(list: Seq<u32>, p: spec_fn(u32) -> bool, q: spec_fn(u32) -> bool)
    requires
        forall|k: int| 0 <= k < list.len() ==> p(list[k]) == q(list[k]),
    ensures
        list.filter(p) == list.filter(q),
    decreases list.len(),
{
    reveal(Seq::filter);
    if list.len() > 0 {
        lemma_filter_agrees(list.drop_last(), p, q);
    }
}

/// The cursor depends on who is controlled and who has candidates, not on
/// the targets on record.
proof fn lemma_cursor_follows_seats(a: Seq<Slot>, b: Seq<Slot>, night: bool, n: int)
    requires
        a.len() == b.len(),
        living_all(a) == living_all(b),
        living_town(a) == living_town(b),
        forall|i: int|
            0 <= i < a.len() ==> a[i].role == b[i].role && a[i].alive == b[i].alive
                && a[i].submitted == b[i].submitted && a[i].addr == b[i].addr,
        0 <= n <= a.len(),
    ensures
        cursor_at(a, night, n) == cursor_at(b, night, n),
    decreases n,
{
    if n > 0 {
        lemma_cursor_follows_seats(a, b, night, n - 1);
        assert(candidates(a, night, n - 1) == candidates(b, night, n - 1));
    }
}

/// Two rows of seats that agree but for one seat which does not act in the
/// role have the same first target.
proof fn lemma_first_target_skips(a: Seq<Slot>, b: Seq<Slot>, role: u32, seat: int, from: int)
    requires
        a.len() == b.len(),
        0 <= seat < a.len(),
        0 <= from,
        a[seat].role != role,
        b[seat].role != role,
        forall|i: int| 0 <= i < a.len() && i != seat ==> a[i] == b[i],
    ensures
        first_target_from(a, role, from) == first_target_from(b, role, from),
    decreases a.len() - from,
{
    if from < a.len() {
        lemma_first_target_skips(a, b, role, seat, from + 1);
    }
}

/// A finished game stays as it is: in the last phase every operation is
/// refused.
pub proof fn lemma_over_is_terminal(
    g: GameView,
    session_id: u32,
    player: PlayerId,
    commitment: [u8; 32],
    target: u32,
    digest: Seq<u8>,
    draws: Seq<u64>,
)
    requires
        g.phase == PHASE_OVER,
    ensures
        join_outcome(Some(g), player) is Err,
        begin_request_of(Some(g), session_id, player) is Err,
        begin_outcome(Some(g), player, draws) is Err,
        commit_outcome(Some(g), player, commitment) is Err,
        reveal_outcome_with(Some(g), player, target, digest) is Err,
        vote_outcome(Some(g), player, target) is Err,
        resolve_request_of(Some(g), session_id) is Err,
        resolve_outcome(Some(g), draws) is Err,
{
}

/// The cycle of phases. A commitment leaves the game in the commit
/// sub-phase or, if it was the last one awaited, opens the reveal. A reveal
/// and a vote leave the phase as it is. A resolution that finds a winner
/// ends the game; otherwise the night gives way to the day of the same
/// number, and the day to the commit sub-phase of the next.
pub proof fn lemma_phase_cycle(
    g: GameView,
    player: PlayerId,
    commitment: [u8; 32],
    target: u32,
    digest: Seq<u8>,
    draws: Seq<u64>,
)
    requires
        g.wf(),
        g.day < u32::MAX,
        g.winner is None,
    ensures
        commit_outcome(Some(g), player, commitment) matches Ok(after) ==> after.phase
            == PHASE_NIGHT_COMMIT || after.phase == PHASE_NIGHT_REVEAL,
        reveal_outcome_with(Some(g), player, target, digest) matches Ok(after) ==> after.phase
            == PHASE_NIGHT_REVEAL,
        vote_outcome(Some(g), player, target) matches Ok(after) ==> after.phase == PHASE_DAY,
        advanced(g, draws).winner is Some ==> advanced(g, draws).phase == PHASE_OVER,
        advanced(g, draws).winner is None ==> {
            if g.phase == PHASE_NIGHT_REVEAL {
                advanced(g, draws).phase == PHASE_DAY && advanced(g, draws).day == g.day
            } else {
                advanced(g, draws).phase == PHASE_NIGHT_COMMIT && advanced(g, draws).day == g.day
                    + 1
            }
        },
{
}

} // verus!
