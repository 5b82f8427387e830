use mafia_duel::contract::resolve_with_draws;
use mafia_duel::encoding::compute_commitment;
use mafia_duel::model::{
    PASS_TARGET, PHASE_DAY, PHASE_LOBBY, PHASE_NIGHT_COMMIT, PHASE_NIGHT_REVEAL, PHASE_OVER,
    TEAM_MAFIA, TEAM_TOWN,
};
use mafia_duel::encoding::phase_seed;
use mafia_duel::model::DrawRequest;
use mafia_duel::seats::{fits, plan_draws};
use mafia_duel::verdict::{settle_winner, start_report, town_won, StartReport};
use mafia_duel::{Game, MafiaDuelContract, MafiaError, PlayerId, Slot};
use soroban_sdk::testutils::{Address as _, EnvTestConfig};
use soroban_sdk::{Address, Bytes, Env};

const CAST: [u32; 8] = [0, 3, 1, 0, 1, 1, 1, 2];

fn player(tag: u8) -> PlayerId {
    PlayerId { strkey: [tag; 56] }
}

fn in_invocation<T>(f: impl FnOnce(&Env) -> T) -> T {
    let env = Env::new_with_config(EnvTestConfig { capture_snapshot_at_drop: false });
    let admin = Address::generate(&env);
    let id = env.register_stellar_asset_contract_v2(admin).address();
    env.as_contract(&id, || f(&env))
}

fn draw(env: &Env, request: &DrawRequest) -> Vec<u64> {
    let prng = env.prng();
    prng.seed(Bytes::from_array(env, &request.seed));
    request.bounds.iter().map(|n| prng.gen_range::<u64>(0..*n)).collect()
}

fn begin(
    env: &Env,
    loaded: Option<Game>,
    session: u32,
    caller: PlayerId,
) -> Result<Game, MafiaError> {
    let request = MafiaDuelContract::begin_request(env, &loaded, session, &caller)?;
    let draws = draw(env, &request);
    assert!(fits(&request.bounds, &draws));
    MafiaDuelContract::begin_game(loaded, caller, &draws)
}

fn resolve(env: &Env, loaded: Option<Game>, session: u32) -> Result<Game, MafiaError> {
    let request = MafiaDuelContract::resolve_request(env, &loaded, session)?;
    let draws = draw(env, &request);
    assert!(fits(&request.bounds, &draws));
    MafiaDuelContract::resolve(env, loaded, &draws)
}

fn table(roles: [u32; 8], humans: u32, phase: u32) -> Game {
    let mut slots: Vec<Slot> = Vec::new();
    for seat in 0..8u32 {
        slots.push(Slot {
            addr: if seat < humans { Some(player(seat as u8)) } else { None },
            role: roles[seat as usize],
            alive: true,
            action: None,
            submitted: false,
            commitment: None,
        });
    }
    Game {
        creator: player(0),
        slots,
        human_count: humans,
        phase,
        day: 1,
        winner: None,
        last_killed: None,
        last_saved: false,
        last_investigated: None,
        invest_is_mafia: false,
        last_voted_out: None,
        wager: 100,
    }
}

fn alive(game: &Game) -> Vec<bool> {
    game.slots.iter().map(|s| s.alive).collect()
}

/// Creates a session with one human, begins it and takes the human through
/// commit and reveal of `target`.
fn night_of_one_human(env: &Env, session: u32, target: u32, nonce: u64) -> Game {
    let game = MafiaDuelContract::create_game(false, player(0), 100).unwrap();
    let game = begin(env, Some(game), session, player(0)).unwrap();
    let digest = compute_commitment(env, target, nonce);
    let game = MafiaDuelContract::submit_commitment(Some(game), player(0), digest).unwrap();
    MafiaDuelContract::reveal_action(env, Some(game), player(0), target, nonce).unwrap()
}

#[test]
fn settle_winner_for_the_town_when_no_mafia_lives() {
    let mut game = table(CAST, 1, PHASE_DAY);
    game.slots[0].alive = false;
    game.slots[3].alive = false;
    settle_winner(&mut game);
    assert_eq!(game.winner, Some(TEAM_TOWN));
    assert_eq!(game.phase, PHASE_OVER);
}

#[test]
fn settle_winner_for_the_mafia_at_parity() {
    // One Mafia and one town seat alive.
    let mut game = table(CAST, 1, PHASE_DAY);
    for seat in [1usize, 2, 3, 4, 5, 6] {
        game.slots[seat].alive = false;
    }
    settle_winner(&mut game);
    assert_eq!(game.winner, Some(TEAM_MAFIA));
    assert_eq!(game.phase, PHASE_OVER);

    // Two Mafia against two town seats.
    let mut game = table(CAST, 1, PHASE_NIGHT_COMMIT);
    for seat in [1usize, 2, 4, 5] {
        game.slots[seat].alive = false;
    }
    settle_winner(&mut game);
    assert_eq!(game.winner, Some(TEAM_MAFIA));
    assert_eq!(game.phase, PHASE_OVER);
}

#[test]
fn town_won_reports_the_winner_only() {
    let mut game = table(CAST, 1, PHASE_DAY);
    assert_eq!(town_won(&game), None);
    game.winner = Some(TEAM_TOWN);
    assert_eq!(town_won(&game), Some(true));
    game.winner = Some(TEAM_MAFIA);
    assert_eq!(town_won(&game), Some(false));
}

#[test]
fn start_report_names_the_creator_and_the_wager_twice() {
    let mut game = table(CAST, 3, PHASE_NIGHT_COMMIT);
    game.creator = player(9);
    game.wager = 250;
    assert_eq!(
        start_report(&game),
        StartReport {
            player1: player(9),
            player2: player(9),
            player1_points: 250,
            player2_points: 250
        }
    );
}

#[test]
fn settle_winner_lets_the_game_go_on() {
    // Two Mafia against three town seats.
    let mut game = table(CAST, 1, PHASE_DAY);
    for seat in [1usize, 2, 4] {
        game.slots[seat].alive = false;
    }
    let before = game.clone();
    settle_winner(&mut game);
    assert_eq!(game, before);

    let mut game = table(CAST, 1, PHASE_NIGHT_COMMIT);
    let before = game.clone();
    settle_winner(&mut game);
    assert_eq!(game, before);
}

#[test]
fn mafia_wins_in_the_middle_of_the_night() {
    in_invocation(|env| {
        // One Mafia, two town seats: the night's kill brings parity.
        let mut game = table(CAST, 8, PHASE_NIGHT_REVEAL);
        for seat in [1usize, 2, 3, 4, 5] {
            game.slots[seat].alive = false;
        }
        game.slots[0].action = Some(6);
        game.slots[0].submitted = true;
        resolve_with_draws(env, &mut game, &vec![]);
        assert_eq!(alive(&game), vec![true, false, false, false, false, false, false, true]);
        assert_eq!(game.last_killed, Some(6));
        assert_eq!(game.winner, Some(TEAM_MAFIA));
        assert_eq!(game.phase, PHASE_OVER);
        assert_eq!(game.day, 1);
    });
}

#[test]
fn town_wins_when_the_last_mafia_is_voted_out() {
    in_invocation(|env| {
        let mut game = table(CAST, 8, PHASE_DAY);
        game.slots[0].alive = false;
        for seat in [1usize, 2, 4] {
            game.slots[seat].action = Some(3);
            game.slots[seat].submitted = true;
        }
        resolve_with_draws(env, &mut game, &vec![]);
        assert_eq!(game.last_voted_out, Some(3));
        assert_eq!(game.winner, Some(TEAM_TOWN));
        assert_eq!(game.phase, PHASE_OVER);
        assert_eq!(game.day, 2);
    });
}

#[test]
fn resolve_with_draws_moves_from_night_to_day_to_night() {
    in_invocation(|env| {
        let mut game = table(CAST, 8, PHASE_NIGHT_REVEAL);
        game.slots[0].action = Some(2);
        game.slots[0].submitted = true;
        resolve_with_draws(env, &mut game, &vec![]);
        assert_eq!(game.phase, PHASE_DAY);
        assert_eq!(game.day, 1);
        assert_eq!(game.winner, None);
        assert!(!game.slots[2].alive);
        game.slots[4].action = Some(5);
        game.slots[4].submitted = true;
        resolve_with_draws(env, &mut game, &vec![]);
        assert_eq!(game.phase, PHASE_NIGHT_COMMIT);
        assert_eq!(game.day, 2);
        assert_eq!(game.last_voted_out, Some(5));
        assert_eq!(game.last_killed, None);
        assert_eq!(game.winner, None);
        assert!(game.check_wf());
    });
}

#[test]
fn resolve_refusals() {
    in_invocation(|env| {
        assert_eq!(resolve(env, None, 1), Err(MafiaError::GameNotFound));
        assert_eq!(
            MafiaDuelContract::resolve(env, None, &vec![]),
            Err(MafiaError::GameNotFound)
        );
        let lobby = MafiaDuelContract::create_game(false, player(0), 1).unwrap();
        assert_eq!(lobby.phase, PHASE_LOBBY);
        assert_eq!(resolve(env, Some(lobby), 1), Err(MafiaError::WrongPhase));
        let game = table(CAST, 1, PHASE_NIGHT_COMMIT);
        assert_eq!(resolve(env, Some(game), 1), Err(MafiaError::WrongPhase));
        let mut game = table(CAST, 1, PHASE_OVER);
        game.winner = Some(TEAM_TOWN);
        assert_eq!(resolve(env, Some(game), 1), Err(MafiaError::WrongPhase));
        let mut game = table(CAST, 1, PHASE_DAY);
        game.winner = Some(TEAM_TOWN);
        assert_eq!(
            resolve(env, Some(game), 1),
            Err(MafiaError::GameAlreadyOver)
        );
    });
}

#[test]
fn resolve_request_asks_for_the_numbers_of_the_phase() {
    in_invocation(|env| {
        let mut game = table(CAST, 1, PHASE_NIGHT_REVEAL);
        game.day = 3;
        let request = MafiaDuelContract::resolve_request(env, &Some(game.clone()), 9).unwrap();
        assert_eq!(request.seed, phase_seed(env, 9, 3, PHASE_NIGHT_REVEAL));
        assert_eq!(request.bounds, vec![7, 6, 8]);
        game.phase = PHASE_DAY;
        let request = MafiaDuelContract::resolve_request(env, &Some(game.clone()), 9).unwrap();
        assert_eq!(request.seed, phase_seed(env, 9, 3, PHASE_DAY));
        assert_eq!(request.bounds, vec![7, 7, 7, 7, 7, 7, 7]);
        assert_eq!(
            MafiaDuelContract::resolve_request(env, &None, 9),
            Err(MafiaError::GameNotFound)
        );
        game.phase = PHASE_NIGHT_COMMIT;
        assert_eq!(
            MafiaDuelContract::resolve_request(env, &Some(game.clone()), 9),
            Err(MafiaError::WrongPhase)
        );
        game.phase = PHASE_DAY;
        game.winner = Some(TEAM_TOWN);
        assert_eq!(
            MafiaDuelContract::resolve_request(env, &Some(game), 9),
            Err(MafiaError::GameAlreadyOver)
        );
    });
}

#[test]
fn resolve_of_a_won_day_is_refused_at_any_day_number() {
    in_invocation(|env| {
        let mut game = table(CAST, 1, PHASE_DAY);
        game.day = u32::MAX;
        game.winner = Some(TEAM_MAFIA);
        assert_eq!(
            MafiaDuelContract::resolve(env, Some(game), &vec![]),
            Err(MafiaError::GameAlreadyOver)
        );
    });
}

#[test]
fn resolve_takes_at_most_one_life_and_keeps_the_table() {
    in_invocation(|env| {
        let mut game = table(CAST, 2, PHASE_NIGHT_REVEAL);
        game.slots[0].action = Some(4);
        game.slots[0].submitted = true;
        game.slots[6].alive = false;
        for session in 0..20u32 {
            let night = resolve(env, Some(game.clone()), session).unwrap();
            let day = resolve(env, Some(night.clone()), session).unwrap();
            for (before, after) in [(&game, &night), (&night, &day)] {
                assert_eq!(after.slots.len(), 8);
                assert_eq!(after.creator, before.creator);
                assert_eq!(after.human_count, before.human_count);
                assert_eq!(after.wager, before.wager);
                let mut deaths = 0;
                for seat in 0..8 {
                    assert_eq!(after.slots[seat].role, before.slots[seat].role);
                    assert_eq!(after.slots[seat].addr, before.slots[seat].addr);
                    assert!(before.slots[seat].alive || !after.slots[seat].alive);
                    if before.slots[seat].alive && !after.slots[seat].alive {
                        deaths += 1;
                    }
                }
                assert!(deaths <= 1);
            }
        }
    });
}

#[test]
fn a_finished_game_refuses_every_operation() {
    in_invocation(|env| {
        let mut game = table(CAST, 8, PHASE_NIGHT_REVEAL);
        for seat in [1usize, 2, 3, 4, 5] {
            game.slots[seat].alive = false;
        }
        game.slots[0].action = Some(6);
        game.slots[0].submitted = true;
        let over = resolve(env, Some(game), 3).unwrap();
        assert_eq!(over.phase, PHASE_OVER);
        assert_eq!(over.winner, Some(TEAM_MAFIA));
        assert_eq!(
            resolve(env, Some(over.clone()), 3),
            Err(MafiaError::WrongPhase)
        );
        assert_eq!(
            MafiaDuelContract::submit_action(Some(over.clone()), player(0), 7),
            Err(MafiaError::WrongPhase)
        );
        assert_eq!(
            MafiaDuelContract::submit_commitment(Some(over.clone()), player(0), [0u8; 32]),
            Err(MafiaError::WrongPhase)
        );
        assert_eq!(
            MafiaDuelContract::reveal_action(env, Some(over.clone()), player(0), 7, 1),
            Err(MafiaError::WrongPhase)
        );
        assert_eq!(
            MafiaDuelContract::join_game(Some(over.clone()), player(5)),
            Err(MafiaError::WrongPhase)
        );
        assert_eq!(
            begin(env, Some(over), 3, player(0)),
            Err(MafiaError::WrongPhase)
        );
    });
}

#[test]
fn one_human_mafia_kills_a_town_seat() {
    in_invocation(|env| {
        // In session 2 the creator's seat is Mafia and seat 2 is a Villager.
        let game = MafiaDuelContract::create_game(false, player(0), 100).unwrap();
        let game = begin(env, Some(game), 2, player(0)).unwrap();
        let roles: Vec<u32> = game.slots.iter().map(|s| s.role).collect();
        assert_eq!(roles, vec![0, 3, 1, 0, 1, 1, 1, 2]);
        for seat in 1..8 {
            assert_eq!(game.slots[seat].addr, None);
        }
        let digest = compute_commitment(env, 2, 99);
        let game = MafiaDuelContract::submit_commitment(Some(game), player(0), digest).unwrap();
        assert_eq!(game.phase, PHASE_NIGHT_REVEAL);
        let game = MafiaDuelContract::reveal_action(env, Some(game), player(0), 2, 99).unwrap();
        assert_eq!(plan_draws(env, &game, true), vec![7, 6, 8]);
        let game = resolve(env, Some(game), 2).unwrap();
        assert_eq!(game.phase, PHASE_DAY);
        assert_eq!(game.day, 1);
        assert_eq!(game.last_killed, Some(2));
        // The played Doctor protected seat 1, so seat 2 is dead.
        assert!(!game.last_saved);
        assert_eq!(alive(&game), vec![true, true, false, true, true, true, true, true]);
        assert_eq!(game.last_investigated, Some(2));
        assert!(!game.invest_is_mafia);
        assert_eq!(game.last_voted_out, None);
        assert_eq!(game.winner, None);
        assert_eq!(game.wager, 100);
        assert!(game.slots.iter().all(|s| {
            s.action.is_none() && !s.submitted && s.commitment.is_none()
        }));

        // The day that follows: the human abstains by not voting.
        assert_eq!(plan_draws(env, &game, false), vec![6, 6, 6, 6, 6, 6]);
        let game = resolve(env, Some(game), 2).unwrap();
        assert_eq!(game.phase, PHASE_NIGHT_COMMIT);
        assert_eq!(game.day, 2);
        assert_eq!(game.last_voted_out, Some(4));
        assert_eq!(alive(&game), vec![true, true, false, true, false, true, true, true]);
        assert_eq!(game.last_killed, None);
        assert_eq!(game.winner, None);
    });
}

#[test]
fn resolve_plays_the_numbers_of_the_seeded_generator() {
    in_invocation(|env| {
        // Session 7: the human in seat 0 is a Villager and passes.
        let game = night_of_one_human(env, 7, PASS_TARGET, 5);
        let roles: Vec<u32> = game.slots.iter().map(|s| s.role).collect();
        assert_eq!(roles, vec![1, 3, 2, 0, 1, 0, 1, 1]);
        assert_eq!(plan_draws(env, &game, true), vec![7, 8, 6, 6]);
        let mut by_hand = game.clone();
        resolve_with_draws(env, &mut by_hand, &vec![4, 5, 5, 5]);
        let game = resolve(env, Some(game), 7).unwrap();
        assert_eq!(game, by_hand);
        assert_eq!(game.last_killed, Some(7));
        assert!(!game.last_saved);
        assert_eq!(game.last_investigated, Some(5));
        assert!(game.invest_is_mafia);
        assert_eq!(alive(&game), vec![true, true, true, true, true, true, true, false]);
        assert_eq!(game.phase, PHASE_DAY);

        assert_eq!(plan_draws(env, &game, false), vec![6, 6, 6, 6, 6, 6]);
        let mut by_hand = game.clone();
        resolve_with_draws(env, &mut by_hand, &vec![5, 4, 5, 2, 1, 4]);
        let game = resolve(env, Some(game), 7).unwrap();
        assert_eq!(game, by_hand);
        assert_eq!(game.last_voted_out, Some(6));
        assert_eq!(game.day, 2);
        assert_eq!(game.phase, PHASE_NIGHT_COMMIT);
    });
}

#[test]
fn resolve_is_replayable() {
    let first = in_invocation(|env| {
        let game = night_of_one_human(env, 13, PASS_TARGET, 1);
        let day = resolve(env, Some(game), 13).unwrap();
        let night = resolve(env, Some(day.clone()), 13).unwrap();
        (day, night)
    });
    let second = in_invocation(|env| {
        // Other numbers drawn beforehand do not matter: the generator is reseeded.
        let _ = begin(
            env,
            Some(MafiaDuelContract::create_game(false, player(3), 0).unwrap()),
            99,
            player(3),
        );
        let game = night_of_one_human(env, 13, PASS_TARGET, 1);
        let day = resolve(env, Some(game), 13).unwrap();
        let night = resolve(env, Some(day.clone()), 13).unwrap();
        (day, night)
    });
    assert_eq!(first, second);
}

#[test]
fn resolve_depends_on_the_session_only_through_the_seed() {
    in_invocation(|env| {
        // The same seats resolved under two sessions: the engine's choices may differ,
        // everything else agrees.
        let mut game = table(CAST, 1, PHASE_NIGHT_REVEAL);
        game.slots[0].submitted = true;
        let a = resolve(env, Some(game.clone()), 1).unwrap();
        let b = resolve(env, Some(game.clone()), 1).unwrap();
        assert_eq!(a, b);
        let mut differs = false;
        for session in 2..12u32 {
            let c = resolve(env, Some(game.clone()), session).unwrap();
            assert_eq!(c.phase, a.phase);
            assert_eq!(c.day, a.day);
            if c != a {
                differs = true;
            }
        }
        assert!(differs);
    });
}

#[test]
fn roles_and_seats_last_the_whole_game() {
    in_invocation(|env| {
        let mut game = night_of_one_human(env, 21, PASS_TARGET, 1);
        let roles: Vec<u32> = game.slots.iter().map(|s| s.role).collect();
        let mut living = alive(&game);
        let mut rounds: u32 = 0;
        while game.winner.is_none() && rounds < 40 {
            game = match game.phase {
                PHASE_NIGHT_COMMIT => {
                    if game.slots[0].alive {
                        let digest = compute_commitment(env, PASS_TARGET, 1);
                        let g = MafiaDuelContract::submit_commitment(Some(game), player(0), digest)
                            .unwrap();
                        MafiaDuelContract::reveal_action(env, Some(g), player(0), PASS_TARGET, 1)
                            .unwrap()
                    } else {
                        // With no living human nobody can commit, and only a commitment
                        // opens the reveal: the test opens it by hand.
                        let mut g = game;
                        g.phase = PHASE_NIGHT_REVEAL;
                        g
                    }
                }
                _ => resolve(env, Some(game), 21).unwrap(),
            };
            assert!(game.check_wf());
            assert_eq!(game.slots.len(), 8);
            assert_eq!(game.slots.iter().map(|s| s.role).collect::<Vec<u32>>(), roles);
            let now = alive(&game);
            for seat in 0..8 {
                assert!(living[seat] || !now[seat]);
            }
            living = now;
            rounds += 1;
        }
        assert!(game.winner.is_some());
        assert_eq!(game.phase, PHASE_OVER);
    });
}
