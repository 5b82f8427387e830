//! Dealing the roles: the fixed cast is shuffled over the eight seats.

use vstd::prelude::*;

use crate::model::{
    is_full_cast, lemma_targets_kept, role_count, role_template, roles_of, Game, GameView, Slot,
    PHASE_NIGHT_COMMIT, ROLE_DOCTOR, ROLE_MAFIA, ROLE_SHERIFF, ROLE_VILLAGER,
};
use crate::seats::draws_fit;

verus! {

/// `s` with the items at `i` and `j` exchanged.
pub open spec fn swapped(s: Seq<u32>, i: int, j: int) -> Seq<u32> {
    s.update(i, s[j]).update(j, s[i])
}

/// `roles` after the first `steps` exchanges of the shuffle: the exchange
/// number `k`, counted from one, is between position `8 - k` and the
/// position that the `k`-th number names.
pub open spec fn shuffled(roles: Seq<u32>, draws: Seq<u64>, steps: int) -> Seq<u32>
    decreases steps,
{
    if steps <= 0 {
        roles
    } else {
        swapped(shuffled(roles, draws, steps - 1), 8 - steps, draws[steps - 1] as int)
    }
}

/// The bounds of the seven numbers of a shuffle: position `i`, from 7 down
/// to 1, is exchanged with a position in `0..=i`.
pub open spec fn shuffle_bounds() -> Seq<u64> {
    seq![8u64, 7u64, 6u64, 5u64, 4u64, 3u64, 2u64]
}

/// The role of each seat, given the seven numbers of the shuffle.
pub open spec fn dealt_roles(draws: Seq<u64>) -> Seq<u32> {
    shuffled(role_template(), draws, 7)
}

/// The game once the roles are dealt: the first night begins.
pub open spec fn begun(g: GameView, draws: Seq<u64>) -> GameView {
    GameView {
        slots: Seq::new(8, |i: int| Slot { role: dealt_roles(draws)[i], ..g.slots[i] }),
        phase: PHASE_NIGHT_COMMIT,
        day: 1,
        ..g
    }
}

/// Replacing one role changes the counts by that role alone.
pub proof fn lemma_count_update(roles: Seq<u32>, role: u32, n: int, i: int, x: u32)
    requires
        0 <= i < roles.len(),
        0 <= n <= roles.len(),
    ensures
        role_count(roles.update(i, x), role, n) == role_count(roles, role, n) + (if i < n && x
            == role {
            1int
        } else {
            0int
        }) - (if i < n && roles[i] == role {
            1int
        } else {
            0int
        }),
    decreases n,
{
    if n > 0 {
        lemma_count_update(roles, role, n - 1, i, x);
    }
}

/// An exchange keeps the number of seats of every role.
pub proof fn lemma_swap_keeps_counts(roles: Seq<u32>, role: u32, i: int, j: int)
    requires
        0 <= i < roles.len(),
        0 <= j < roles.len(),
    ensures
        role_count(swapped(roles, i, j), role, roles.len() as int) == role_count(
            roles,
            role,
            roles.len() as int,
        ),
        swapped(roles, i, j).len() == roles.len(),
{
    let n = roles.len() as int;
    lemma_count_update(roles, role, n, i, roles[j]);
    lemma_count_update(roles.update(i, roles[j]), role, n, j, roles[i]);
}

/// The fixed cast is a full cast.
pub proof fn lemma_template_is_full_cast()
    ensures
        is_full_cast(role_template()),
{
    reveal_with_fuel(role_count, 9);
}

/// However the numbers fall, the shuffle deals the full cast.
pub proof fn lemma_shuffle_keeps_cast(roles: Seq<u32>, draws: Seq<u64>, steps: int)
    requires
        is_full_cast(roles),
        draws_fit(shuffle_bounds(), draws),
        0 <= steps <= 7,
    ensures
        is_full_cast(shuffled(roles, draws, steps)),
    decreases steps,
{
    if steps > 0 {
        lemma_shuffle_keeps_cast(roles, draws, steps - 1);
        let prev = shuffled(roles, draws, steps - 1);
        let i = 8 - steps;
        let j = draws[steps - 1] as int;
        assert(draws[steps - 1] < shuffle_bounds()[steps - 1]);
        assert(shuffle_bounds()[steps - 1] == 9 - steps);
        lemma_swap_keeps_counts(prev, ROLE_MAFIA, i, j);
        lemma_swap_keeps_counts(prev, ROLE_DOCTOR, i, j);
        lemma_swap_keeps_counts(prev, ROLE_SHERIFF, i, j);
        lemma_swap_keeps_counts(prev, ROLE_VILLAGER, i, j);
    }
}

/// The bounds of the seven numbers that a shuffle takes.
pub fn shuffle_plan() -> (bounds: Vec<u64>)
    ensures
        bounds@ == shuffle_bounds(),
        forall|k: int| 0 <= k < bounds@.len() ==> bounds@[k] > 0,
{
    let mut bounds: Vec<u64> = Vec::new();
    let mut n: u64 = 8;
    while n >= 2
        invariant
            1 <= n <= 8,
            bounds@ == shuffle_bounds().take(8 - n),
        decreases n,
    {
        bounds.push(n);
        assert(bounds@ =~= shuffle_bounds().take(8 - (n - 1)));
        n -= 1;
    }
    assert(shuffle_bounds().take(7) =~= shuffle_bounds());
    bounds
}

/// Shuffles the fixed cast: for `i` from 7 down to 1, the role at `i` is
/// exchanged with the role at the position that the next number names.
pub fn shuffle_roles(draws: &Vec<u64>) -> (roles: [u32; 8])
    requires
        draws_fit(shuffle_bounds(), draws@),
    ensures
        roles@ == dealt_roles(draws@),
        is_full_cast(roles@),
{
    let mut roles: [u32; 8] = [
        ROLE_MAFIA,
        ROLE_MAFIA,
        ROLE_DOCTOR,
        ROLE_SHERIFF,
        ROLE_VILLAGER,
        ROLE_VILLAGER,
        ROLE_VILLAGER,
        ROLE_VILLAGER,
    ];
    assert(roles@ =~= role_template());
    let mut step: usize = 0;
    while step < 7
        invariant
            step <= 7,
            draws_fit(shuffle_bounds(), draws@),
            roles@ == shuffled(role_template(), draws@, step as int),
        decreases 7 - step,
    {
        let i: usize = 7 - step;
        assert(draws@[step as int] < shuffle_bounds()[step as int]);
        let j: usize = draws[step] as usize;
        let held: u32 = roles[i];
        roles[i] = roles[j];
        roles[j] = held;
        assert(roles@ =~= shuffled(role_template(), draws@, step + 1));
        step += 1;
    }
    proof {
        lemma_template_is_full_cast();
        lemma_shuffle_keeps_cast(role_template(), draws@, 7);
    }
    roles
}

/// Deals the shuffled cast onto the seats, seat `k` getting the `k`-th
/// role, and opens the first night.
pub fn deal_roles(game: &mut Game, draws: &Vec<u64>)
    requires
        old(game).wf(),
        draws_fit(shuffle_bounds(), draws@),
    ensures
        final(game)@ == begun(old(game)@, draws@),
        final(game).wf(),
        is_full_cast(roles_of(final(game)@.slots)),
{
    let ghost before = game@;
    let roles: [u32; 8] = shuffle_roles(draws);
    let mut i: usize = 0;
    while i < 8
        invariant
            i <= 8,
            before.slots.len() == 8,
            game.slots@.len() == 8,
            game@ == (GameView { slots: game@.slots, ..before }),
            forall|j: int|
                0 <= j < i ==> game.slots@[j] == (Slot { role: roles@[j], ..before.slots[j] }),
            forall|j: int| i <= j < 8 ==> game.slots@[j] == before.slots[j],
        decreases 8 - i,
    {
        game.slots[i].role = roles[i];
        i += 1;
    }
    game.phase = PHASE_NIGHT_COMMIT;
    game.day = 1;
    proof {
        assert(game@.slots =~= begun(before, draws@).slots);
        assert(roles_of(game@.slots) =~= roles@);
        assert forall|k: int| 0 <= k < 8 implies ((#[trigger] game@.slots[k]).addr is Some <==> k
            < game@.human_count) by {
            assert(game@.slots[k].addr == before.slots[k].addr);
        }
        lemma_targets_kept(before.slots, game@.slots);
    }
}

} // verus!
