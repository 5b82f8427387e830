//! Day resolution: the votes are counted and at most one seat is voted out.

use vstd::prelude::*;

use crate::model::{all_cleared, killed, lemma_wf_kept, Game, GameView, Slot, PHASE_LOBBY};
use crate::seats::{
    ai_bounds, ai_filled, clear_transient, draws_fit, fill_ai_seats, lemma_filled_targets_alive,
};

verus! {

/// How many of the first `n` seats are alive and vote for `target`.
pub open spec fn votes_for(slots: Seq<Slot>, target: u32, n: int) -> nat
    decreases n,
{
    if n <= 0 {
        0
    } else {
        votes_for(slots, target, n - 1) + if slots[n - 1].alive && slots[n - 1].action == Some(
            target,
        ) {
            1nat
        } else {
            0nat
        }
    }
}

/// The votes that each seat received.
pub open spec fn tally(slots: Seq<Slot>) -> Seq<u32> {
    Seq::new(8, |t: int| votes_for(slots, t as u32, 8) as u32)
}

/// Seat `i` is voted out: it is alive, it has a vote, every living seat
/// before it has fewer votes, and no living seat after it has more. Of
/// several seats with the most votes this is the first.
pub open spec fn leads(slots: Seq<Slot>, counts: Seq<u32>, i: int) -> bool {
    &&& 0 <= i < 8
    &&& slots[i].alive
    &&& counts[i] > 0
    &&& forall|j: int| 0 <= j < i && slots[j].alive ==> counts[j] < counts[i]
    &&& forall|j: int| i < j < 8 && slots[j].alive ==> counts[j] <= counts[i]
}

/// The seat that is voted out, if any living seat has a vote.
pub open spec fn elected(slots: Seq<Slot>, counts: Seq<u32>) -> Option<u32> {
    if exists|i: int| leads(slots, counts, i) {
        Some((choose|i: int| leads(slots, counts, i)) as u32)
    } else {
        None
    }
}

/// The game after the day, given the numbers that the generator gave.
pub open spec fn day_outcome(g: GameView, draws: Seq<u64>) -> GameView {
    let filled = ai_filled(g.slots, false, draws);
    let out = elected(filled, tally(filled));
    let after = if out is Some {
        filled.update(out->0 as int, killed(filled[out->0 as int]))
    } else {
        filled
    };
    GameView {
        slots: all_cleared(after),
        last_voted_out: out,
        last_killed: None,
        last_saved: false,
        last_investigated: None,
        invest_is_mafia: false,
        ..g
    }
}

/// At most one seat is voted out.
pub proof fn lemma_leader_is_unique(slots: Seq<Slot>, counts: Seq<u32>, i: int, j: int)
    requires
        leads(slots, counts, i),
        leads(slots, counts, j),
    ensures
        i == j,
{
}

/// Counts, for every seat, the living seats that vote for it.
pub fn tally_votes(game: &Game) -> (counts: [u32; 8])
    requires
        game.wf(),
    ensures
        counts@ == tally(game@.slots),
{
    let mut counts: [u32; 8] = [0u32;8];
    let mut i: usize = 0;
    while i < 8
        invariant
            i <= 8,
            game.wf(),
            forall|t: int| 0 <= t < 8 ==> counts@[t] == votes_for(game@.slots, t as u32, i as int),
            forall|t: int| 0 <= t < 8 ==> counts@[t] <= i,
        decreases 8 - i,
    {
        let s: Slot = game.slots[i];
        if s.alive {
            match s.action {
                Some(t) => {
                    assert(t < 8);
                    counts[t as usize] += 1;
                },
                None => {},
            }
        }
        i += 1;
    }
    assert(counts@ =~= tally(game@.slots));
    counts
}

/// The seat that is voted out on these counts: the first living seat with
/// the most votes, or nobody if no living seat has a vote.
pub fn elect(game: &Game, counts: &[u32; 8]) -> (out: Option<u32>)
    requires
        game.slots@.len() == 8,
    ensures
        out == elected(game@.slots, counts@),
        out matches Some(e) ==> leads(game@.slots, counts@, e as int),
        out is None ==> forall|i: int| 0 <= i < 8 && game@.slots[i].alive ==> counts@[i] == 0,
{
    let mut max_v: u32 = 0;
    let mut elim: Option<u32> = None;
    let mut i: usize = 0;
    while i < 8
        invariant
            i <= 8,
            game.slots@.len() == 8,
            elim is None ==> max_v == 0,
            forall|j: int| 0 <= j < i && game@.slots[j].alive ==> counts@[j] <= max_v,
            elim matches Some(e) ==> {
                &&& e < i
                &&& game@.slots[e as int].alive
                &&& counts@[e as int] == max_v
                &&& max_v > 0
                &&& forall|j: int| 0 <= j < e && game@.slots[j].alive ==> counts@[j] < max_v
            },
        decreases 8 - i,
    {
        let s: Slot = game.slots[i];
        if s.alive && counts[i] > max_v {
            max_v = counts[i];
            elim = Some(i as u32);
        }
        i += 1;
    }
    proof {
        match elim {
            Some(e) => {
                assert(leads(game@.slots, counts@, e as int));
                let c = choose|i: int| leads(game@.slots, counts@, i);
                lemma_leader_is_unique(game@.slots, counts@, e as int, c);
            },
            None => {
                assert forall|i: int| !leads(game@.slots, counts@, i) by {
                    if 0 <= i < 8 && game@.slots[i].alive {
                        assert(counts@[i] <= max_v);
                    }
                }
            },
        }
    }
    elim
}

/// Resolves the day. The engine first votes for its seats with the numbers
/// in `draws`. The votes of the living seats are counted, and the first
/// living seat with the most votes is voted out; with no vote cast, nobody
/// is. The day's summary is recorded, the night's summary is emptied, and
/// every seat's sub-phase fields are emptied.
pub fn resolve_day(env: &soroban_sdk::Env, game: &mut Game, draws: &Vec<u64>)
    requires
        old(game).wf(),
        old(game).phase != PHASE_LOBBY,
        draws_fit(ai_bounds(old(game)@.slots, false, 8), draws@),
    ensures
        final(game)@ == day_outcome(old(game)@, draws@),
        final(game).wf(),
{
    let ghost before = game@;
    fill_ai_seats(env, game, false, draws);
    proof {
        lemma_filled_targets_alive(before.slots, false, draws@);
        lemma_wf_kept(before, game@);
    }
    let counts: [u32; 8] = tally_votes(game);
    let elim: Option<u32> = elect(game, &counts);
    game.last_voted_out = elim;
    game.last_killed = None;
    game.last_saved = false;
    game.last_investigated = None;
    game.invest_is_mafia = false;
    match elim {
        Some(ei) => {
            game.slots[ei as usize].alive = false;
        },
        None => {},
    }
    clear_transient(game);
    proof {
        let out = day_outcome(before, draws@);
        assert(game@.slots =~= out.slots);
        assert(game@ == out);
        lemma_wf_kept(before, game@);
    }
}

} // verus!
