//! Who is alive, whom a seat may target, and the engine's play for the
//! seats that no human occupies.
//!
//! The generator is consulted once per resolution, for all the numbers that
//! the resolution needs, by the contract function that runs the engine. The
//! functions here say which numbers are needed (`plan_draws`) and what the
//! engine does with them (`fill_ai_seats`).

use vstd::prelude::*;

use crate::host::{count_seats, new_seat_list, push_seat, seat_at, SeatList};
use crate::model::{
    all_cleared, cleared, lemma_targets_kept, living_seat, roles_of, targets_alive, Game, GameView,
    Slot, ROLE_DOCTOR, ROLE_MAFIA, ROLE_SHERIFF,
};

verus! {

/// The seat indices `0, 1, .., n - 1`.
pub open spec fn seat_ids(n: nat) -> Seq<u32> {
    Seq::new(n, |i: int| i as u32)
}

/// The test "seat `i` is alive".
pub open spec fn is_living(slots: Seq<Slot>) -> spec_fn(u32) -> bool {
    |i: u32| slots[i as int].alive
}

/// The test "seat `i` is alive and not Mafia".
pub open spec fn is_living_town(slots: Seq<Slot>) -> spec_fn(u32) -> bool {
    |i: u32| slots[i as int].alive && slots[i as int].role != ROLE_MAFIA
}

/// The test "not the seat `seat`".
pub open spec fn is_not(seat: u32) -> spec_fn(u32) -> bool {
    |v: u32| v != seat
}

/// The living seats, in seat order.
pub open spec fn living_all(slots: Seq<Slot>) -> Seq<u32> {
    seat_ids(slots.len()).filter(is_living(slots))
}

/// The living seats that are not Mafia, in seat order.
pub open spec fn living_town(slots: Seq<Slot>) -> Seq<u32> {
    seat_ids(slots.len()).filter(is_living_town(slots))
}

/// `list` with every occurrence of `seat` left out.
pub open spec fn without(list: Seq<u32>, seat: u32) -> Seq<u32> {
    list.filter(is_not(seat))
}

/// The seats among which the engine chooses for seat `i`: at night by the
/// seat's role, by day every living seat but `i` itself.
pub open spec fn candidates(slots: Seq<Slot>, night: bool, i: int) -> Seq<u32> {
    if !night {
        without(living_all(slots), i as u32)
    } else if slots[i].role == ROLE_MAFIA {
        living_town(slots)
    } else if slots[i].role == ROLE_DOCTOR {
        living_all(slots)
    } else if slots[i].role == ROLE_SHERIFF {
        without(living_all(slots), i as u32)
    } else {
        Seq::empty()
    }
}

/// The engine plays for a seat that is alive, has no human in it and has not
/// acted yet.
pub open spec fn ai_controlled(s: Slot) -> bool {
    s.alive && !s.submitted && s.addr is None
}

/// Seat `i` takes a number from the generator: the engine plays for it and
/// it has somebody to choose.
pub open spec fn seat_draws(slots: Seq<Slot>, night: bool, i: int) -> bool {
    ai_controlled(slots[i]) && candidates(slots, night, i).len() > 0
}

/// How many numbers the seats before `i` take.
pub open spec fn cursor_at(slots: Seq<Slot>, night: bool, i: int) -> nat
    decreases i,
{
    if i <= 0 {
        0
    } else {
        cursor_at(slots, night, i - 1) + if seat_draws(slots, night, i - 1) {
            1nat
        } else {
            0nat
        }
    }
}

/// The bound of each number that the first `n` seats take, in seat order: a
/// seat that chooses among `c` candidates takes a number below `c`.
pub open spec fn ai_bounds(slots: Seq<Slot>, night: bool, n: int) -> Seq<u64>
    decreases n,
{
    if n <= 0 {
        Seq::empty()
    } else if seat_draws(slots, night, n - 1) {
        ai_bounds(slots, night, n - 1).push(candidates(slots, night, n - 1).len() as u64)
    } else {
        ai_bounds(slots, night, n - 1)
    }
}

/// There is one number for each bound, and it lies below the bound.
pub open spec fn draws_fit(bounds: Seq<u64>, draws: Seq<u64>) -> bool {
    &&& draws.len() == bounds.len()
    &&& forall|k: int| 0 <= k < bounds.len() ==> draws[k] < bounds[k]
}

/// The item that the number at `cursor` selects, or `None` from an empty
/// list (which takes no number).
pub open spec fn picked(items: Seq<u32>, draws: Seq<u64>, cursor: int) -> Option<u32> {
    if items.len() == 0 {
        None
    } else {
        Some(items[draws[cursor] as int])
    }
}

/// What the engine chooses for seat `i`.
pub open spec fn ai_choice(slots: Seq<Slot>, night: bool, draws: Seq<u64>, i: int) -> Option<u32> {
    picked(candidates(slots, night, i), draws, cursor_at(slots, night, i) as int)
}

/// The seats after the engine has played: every seat it controls has its
/// choice recorded and counts as having acted; the others are untouched.
pub open spec fn ai_filled(slots: Seq<Slot>, night: bool, draws: Seq<u64>) -> Seq<Slot> {
    Seq::new(
        slots.len(),
        |i: int|
            if ai_controlled(slots[i]) {
                Slot { action: ai_choice(slots, night, draws, i), submitted: true, ..slots[i] }
            } else {
                slots[i]
            },
    )
}

/// Every listed seat exists.
pub open spec fn all_seats(list: Seq<u32>, n: nat) -> bool {
    forall|k: int| 0 <= k < list.len() ==> list[k] < n
}

/// The first `n + 1` seat indices are the first `n` and then `n`.
pub proof fn lemma_seat_ids_push(n: nat)
    requires
        n < u32::MAX,
    ensures
        seat_ids(n + 1) == seat_ids(n).push(n as u32),
{
    assert(seat_ids(n + 1) =~= seat_ids(n).push(n as u32));
}

/// A filtered list of seats holds only seats of the list it was taken from.
pub proof fn lemma_filter_keeps_seats(list: Seq<u32>, pred: spec_fn(u32) -> bool, n: nat)
    requires
        all_seats(list, n),
    ensures
        all_seats(list.filter(pred), n),
        list.filter(pred).len() <= list.len(),
{
    list.lemma_filter_len(pred);
    let out = list.filter(pred);
    assert forall|k: int| 0 <= k < out.len() implies out[k] < n by {
        assert(out.contains(out[k]));
        list.lemma_filter_contains_rev(pred, out[k]);
    }
}

/// The living seats, and any selection of them, are seats of the game.
pub proof fn lemma_candidates_are_seats(slots: Seq<Slot>, night: bool, i: int)
    requires
        slots.len() == 8,
    ensures
        all_seats(living_all(slots), 8),
        all_seats(living_town(slots), 8),
        all_seats(candidates(slots, night, i), 8),
        living_all(slots).len() <= 8,
        living_town(slots).len() <= 8,
        candidates(slots, night, i).len() <= 8,
{
    assert(all_seats(seat_ids(8), 8));
    lemma_filter_keeps_seats(seat_ids(8), is_living(slots), 8);
    lemma_filter_keeps_seats(seat_ids(8), is_living_town(slots), 8);
    lemma_filter_keeps_seats(living_all(slots), is_not(i as u32), 8);
}

/// The numbers taken by the first `n` seats are as many as the cursor says,
/// and the number of a seat before `n` has that seat's bound.
pub proof fn lemma_bounds_follow_cursor(slots: Seq<Slot>, night: bool, n: int)
    requires
        0 <= n,
    ensures
        ai_bounds(slots, night, n).len() == cursor_at(slots, night, n),
        forall|i: int|
            0 <= i < n && seat_draws(slots, night, i) ==> {
                &&& cursor_at(slots, night, i) < ai_bounds(slots, night, n).len()
                &&& ai_bounds(slots, night, n)[cursor_at(slots, night, i) as int] == candidates(
                    slots,
                    night,
                    i,
                ).len() as u64
            },
    decreases n,
{
    if n > 0 {
        lemma_bounds_follow_cursor(slots, night, n - 1);
    }
}

/// The living seats and the living town seats, each in seat order.
pub fn living_lists(env: &soroban_sdk::Env, game: &Game) -> (lists: (
    SeatList,
    SeatList,
))
    requires
        game.slots@.len() == 8,
    ensures
        lists.0@ == living_all(game@.slots),
        lists.1@ == living_town(game@.slots),
{
    let mut all = new_seat_list(env);
    let mut town = new_seat_list(env);
    proof {
        reveal(Seq::filter);
        assert(seat_ids(0).filter(is_living(game@.slots)) =~= Seq::<u32>::empty());
        assert(seat_ids(0).filter(is_living_town(game@.slots)) =~= Seq::<u32>::empty());
    }
    let mut i: u32 = 0;
    while i < 8
        invariant
            i <= 8,
            game.slots@.len() == 8,
            all@ == seat_ids(i as nat).filter(is_living(game@.slots)),
            town@ == seat_ids(i as nat).filter(is_living_town(game@.slots)),
            all@.len() <= i,
            town@.len() <= i,
        decreases 8 - i,
    {
        proof {
            lemma_seat_ids_push(i as nat);
            seat_ids(i as nat).lemma_filter_push(i, is_living(game@.slots));
            seat_ids(i as nat).lemma_filter_push(i, is_living_town(game@.slots));
        }
        let s: Slot = game.slots[i as usize];
        if s.alive {
            push_seat(&mut all, i);
            if s.role != ROLE_MAFIA {
                push_seat(&mut town, i);
            }
        }
        i += 1;
    }
    (all, town)
}

/// A copy of `list` without `exclude`.
pub fn excluding(env: &soroban_sdk::Env, list: &SeatList, exclude: u32) -> (out:
    SeatList)
    ensures
        out@ == without(list@, exclude),
{
    let mut filtered = new_seat_list(env);
    let n: u32 = count_seats(list);
    proof {
        reveal(Seq::filter);
        assert(list@.take(0).filter(is_not(exclude)) =~= Seq::<u32>::empty());
    }
    let mut i: u32 = 0;
    while i < n
        invariant
            i <= n,
            n == list@.len(),
            filtered@ == list@.take(i as int).filter(is_not(exclude)),
            filtered@.len() <= i,
        decreases n - i,
    {
        proof {
            let items = list@;
            assert(items.take(i + 1) =~= items.take(i as int).push(items[i as int]));
            items.take(i as int).lemma_filter_push(items[i as int], is_not(exclude));
        }
        match seat_at(list, i) {
            Some(v) => {
                if v != exclude {
                    push_seat(&mut filtered, v);
                }
            },
            None => {},
        }
        i += 1;
    }
    proof {
        assert(list@.take(n as int) =~= list@);
    }
    filtered
}

/// Picks from `list` by the next number: nothing from an empty list, which
/// leaves the cursor where it is.
pub fn pick_random(list: &SeatList, draws: &Vec<u64>, cursor: &mut usize) -> (choice:
    Option<u32>)
    requires
        list@.len() > 0 ==> *old(cursor) < draws@.len() && draws@[*old(cursor) as int]
            < list@.len(),
    ensures
        choice == picked(list@, draws@, *old(cursor) as int),
        *final(cursor) == *old(cursor) + if list@.len() > 0 {
            1int
        } else {
            0int
        },
{
    if count_seats(list) == 0 {
        return None;
    }
    let idx: u32 = draws[*cursor] as u32;
    assert(*cursor < draws.len());
    *cursor = *cursor + 1;
    seat_at(list, idx)
}

/// Picks from `list` without `exclude` by the next number.
pub fn pick_excluding(
    env: &soroban_sdk::Env,
    list: &SeatList,
    exclude: u32,
    draws: &Vec<u64>,
    cursor: &mut usize,
) -> (choice: Option<u32>)
    requires
        without(list@, exclude).len() > 0 ==> *old(cursor) < draws@.len()
            && draws@[*old(cursor) as int] < without(list@, exclude).len(),
    ensures
        choice == picked(without(list@, exclude), draws@, *old(cursor) as int),
        *final(cursor) == *old(cursor) + if without(list@, exclude).len() > 0 {
            1int
        } else {
            0int
        },
{
    let filtered = excluding(env, list, exclude);
    pick_random(&filtered, draws, cursor)
}

/// Whether there is one number for each bound, each below its bound.
pub fn fits(bounds: &Vec<u64>, draws: &Vec<u64>) -> (ok: bool)
    ensures
        ok == draws_fit(bounds@, draws@),
{
    if draws.len() != bounds.len() {
        return false;
    }
    let n: usize = bounds.len();
    let mut k: usize = 0;
    while k < n
        invariant
            k <= n,
            n == bounds@.len(),
            n == draws@.len(),
            forall|j: int| 0 <= j < k ==> draws@[j] < bounds@[j],
        decreases n - k,
    {
        if draws[k] >= bounds[k] {
            return false;
        }
        k += 1;
    }
    true
}

/// How many seats the engine chooses among for seat `seat`, whose role is
/// `role`.
pub fn candidate_count(
    env: &soroban_sdk::Env,
    all: &SeatList,
    town: &SeatList,
    night: bool,
    role: u32,
    seat: u32,
) -> (n: u32)
    ensures
        n == if !night {
            without(all@, seat).len()
        } else if role == ROLE_MAFIA {
            town@.len()
        } else if role == ROLE_DOCTOR {
            all@.len()
        } else if role == ROLE_SHERIFF {
            without(all@, seat).len()
        } else {
            0nat
        },
{
    if !night {
        count_seats(&excluding(env, all, seat))
    } else if role == ROLE_MAFIA {
        count_seats(town)
    } else if role == ROLE_DOCTOR {
        count_seats(all)
    } else if role == ROLE_SHERIFF {
        count_seats(&excluding(env, all, seat))
    } else {
        0
    }
}

/// The bounds of the numbers that one resolution takes from the generator:
/// one for each seat that the engine plays and that has a candidate, in
/// seat order.
pub fn plan_draws(env: &soroban_sdk::Env, game: &Game, night: bool) -> (bounds: Vec<u64>)
    requires
        game.slots@.len() == 8,
    ensures
        bounds@ == ai_bounds(game@.slots, night, 8),
        forall|k: int| 0 <= k < bounds@.len() ==> bounds@[k] > 0,
{
    let lists = living_lists(env, game);
    let all = lists.0;
    let town = lists.1;
    let mut bounds: Vec<u64> = Vec::new();
    let mut i: u32 = 0;
    while i < 8
        invariant
            i <= 8,
            game.slots@.len() == 8,
            all@ == living_all(game@.slots),
            town@ == living_town(game@.slots),
            bounds@ == ai_bounds(game@.slots, night, i as int),
            forall|k: int| 0 <= k < bounds@.len() ==> bounds@[k] > 0,
        decreases 8 - i,
    {
        let s: Slot = game.slots[i as usize];
        if s.alive && !s.submitted && s.addr.is_none() {
            let n: u32 = candidate_count(env, &all, &town, night, s.role, i);
            if n > 0 {
                bounds.push(n as u64);
            }
        }
        i += 1;
    }
    bounds
}

/// Plays every seat that the engine controls, in seat order, taking the
/// numbers in `draws` one after another. Seats with a human in them are
/// left as they are, whether the human has acted or not.
pub fn fill_ai_seats(env: &soroban_sdk::Env, game: &mut Game, night: bool, draws: &Vec<u64>)
    requires
        old(game).slots@.len() == 8,
        draws_fit(ai_bounds(old(game)@.slots, night, 8), draws@),
    ensures
        final(game)@ == (GameView {
            slots: ai_filled(old(game)@.slots, night, draws@),
            ..old(game)@
        }),
{
    let ghost before = game@;
    let lists = living_lists(env, game);
    let all = lists.0;
    let town = lists.1;
    let mut cursor: usize = 0;
    let mut i: u32 = 0;
    proof {
        lemma_bounds_follow_cursor(before.slots, night, 8);
    }
    while i < 8
        invariant
            i <= 8,
            before.slots.len() == 8,
            game.slots@.len() == 8,
            game@ == (GameView { slots: game@.slots, ..before }),
            draws_fit(ai_bounds(before.slots, night, 8), draws@),
            ai_bounds(before.slots, night, 8).len() == cursor_at(before.slots, night, 8),
            forall|j: int|
                0 <= j < 8 && seat_draws(before.slots, night, j) ==> {
                    &&& cursor_at(before.slots, night, j) < ai_bounds(before.slots, night, 8).len()
                    &&& ai_bounds(before.slots, night, 8)[cursor_at(before.slots, night, j) as int]
                        == candidates(before.slots, night, j).len() as u64
                },
            all@ == living_all(before.slots),
            town@ == living_town(before.slots),
            cursor == cursor_at(before.slots, night, i as int),
            forall|j: int|
                0 <= j < i ==> game.slots@[j] == ai_filled(before.slots, night, draws@)[j],
            forall|j: int| i <= j < 8 ==> game.slots@[j] == before.slots[j],
        decreases 8 - i,
    {
        let s: Slot = game.slots[i as usize];
        proof {
            lemma_candidates_are_seats(before.slots, night, i as int);
        }
        if s.alive && !s.submitted && s.addr.is_none() {
            proof {
                assert(s == before.slots[i as int]);
                if candidates(before.slots, night, i as int).len() > 0 {
                    assert(seat_draws(before.slots, night, i as int));
                    let bounds = ai_bounds(before.slots, night, 8);
                    assert(draws@[cursor as int] < bounds[cursor as int]);
                }
            }
            let action: Option<u32> = if !night {
                pick_excluding(env, &all, i, draws, &mut cursor)
            } else if s.role == ROLE_MAFIA {
                pick_random(&town, draws, &mut cursor)
            } else if s.role == ROLE_DOCTOR {
                pick_random(&all, draws, &mut cursor)
            } else if s.role == ROLE_SHERIFF {
                pick_excluding(env, &all, i, draws, &mut cursor)
            } else {
                None
            };
            game.slots[i as usize].action = action;
            game.slots[i as usize].submitted = true;
        }
        i += 1;
    }
    proof {
        assert(game@.slots =~= ai_filled(before.slots, night, draws@));
    }
}

/// Every candidate is a living seat.
pub proof fn lemma_candidates_are_alive(slots: Seq<Slot>, night: bool, i: int, k: int)
    requires
        slots.len() == 8,
        0 <= k < candidates(slots, night, i).len(),
    ensures
        living_seat(slots, candidates(slots, night, i)[k]),
        !night || slots[i].role == ROLE_SHERIFF ==> candidates(slots, night, i)[k] != i,
        night && slots[i].role == ROLE_MAFIA ==> slots[candidates(slots, night, i)[k] as int].role
            != ROLE_MAFIA,
{
    let c = candidates(slots, night, i);
    let all = living_all(slots);
    lemma_candidates_are_seats(slots, night, i);
    if !night || slots[i].role == ROLE_SHERIFF {
        all.lemma_filter_pred(is_not(i as u32), k);
        assert(c.contains(c[k]));
        all.lemma_filter_contains_rev(is_not(i as u32), c[k]);
        let at = choose|at: int| 0 <= at < all.len() && all[at] == c[k];
        seat_ids(8).lemma_filter_pred(is_living(slots), at);
    } else if slots[i].role == ROLE_MAFIA {
        seat_ids(8).lemma_filter_pred(is_living_town(slots), k);
    } else {
        seat_ids(8).lemma_filter_pred(is_living(slots), k);
    }
}

/// The engine only ever chooses living seats.
pub proof fn lemma_filled_targets_alive(slots: Seq<Slot>, night: bool, draws: Seq<u64>)
    requires
        slots.len() == 8,
        targets_alive(slots),
        draws_fit(ai_bounds(slots, night, 8), draws),
    ensures
        targets_alive(ai_filled(slots, night, draws)),
        ai_filled(slots, night, draws).len() == 8,
        roles_of(ai_filled(slots, night, draws)) == roles_of(slots),
{
    let filled = ai_filled(slots, night, draws);
    lemma_bounds_follow_cursor(slots, night, 8);
    assert forall|i: int| 0 <= i < 8 implies ((#[trigger] filled[i]).action matches Some(t)
        ==> filled[i].action == slots[i].action || living_seat(slots, t)) by {
        if ai_controlled(slots[i]) {
            let c = candidates(slots, night, i);
            if c.len() > 0 {
                assert(seat_draws(slots, night, i));
                let k = cursor_at(slots, night, i) as int;
                assert(draws[k] < ai_bounds(slots, night, 8)[k]);
                lemma_candidates_are_seats(slots, night, i);
                lemma_candidates_are_alive(slots, night, i, draws[k] as int);
            }
        } else {
            assert(filled[i] == slots[i]);
        }
    }
    lemma_targets_kept(slots, filled);
    assert(roles_of(filled) =~= roles_of(slots));
}

/// Empties the sub-phase fields of every seat, living or dead, human or not.
pub fn clear_transient(game: &mut Game)
    requires
        old(game).slots@.len() == 8,
    ensures
        final(game)@ == (GameView { slots: all_cleared(old(game)@.slots), ..old(game)@ }),
{
    let ghost before = game@;
    let mut i: usize = 0;
    while i < 8
        invariant
            i <= 8,
            before.slots.len() == 8,
            game.slots@.len() == 8,
            game@ == (GameView { slots: game@.slots, ..before }),
            forall|j: int| 0 <= j < i ==> game.slots@[j] == cleared(before.slots[j]),
            forall|j: int| i <= j < 8 ==> game.slots@[j] == before.slots[j],
        decreases 8 - i,
    {
        game.slots[i].action = None;
        game.slots[i].submitted = false;
        game.slots[i].commitment = None;
        i += 1;
    }
    proof {
        assert(game@.slots =~= all_cleared(before.slots));
    }
}

} // verus!
