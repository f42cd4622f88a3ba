//! The per-game state machine: counts, walks, strikeouts, home runs, hits,
//! steals, half-inning transitions and the game-over determination.

use simx::id::{GameId, PlayerId, TeamId};
use simx::{
    AwayHome, Database, Game, GameTeam, Inning, PitchOutcome, Player, Rng, Sim, Team, TickEvent,
};

fn mk_player(id: u128, name: &str) -> Player {
    Player {
        id: PlayerId(id),
        name: name.to_string(),
        thwackability: 0,
        moxie: 0,
        divinity: 0,
        musclitude: 0,
        patheticism: 0,
        buoyancy: 0,
        base_thirst: 0,
        laserlikeness: 0,
        ground_friction: 0,
        continuation: 0,
        indulgence: 0,
        martyrdom: 0,
        tragicness: 0,
        shakespearianism: 0,
        suppression: 0,
        unthwackability: 0,
        coldness: 0,
        overpowerment: 0,
        ruthlessness: 0,
        omniscience: 0,
        tenaciousness: 0,
        watchfulness: 0,
        anticapitalism: 0,
        chasiness: 0,
        pressurization: 0,
        cinnamon: 0,
        soul: 5,
        peanut_allergy: false,
        fate: 0,
        blood: 0,
        coffee: 0,
    }
}

fn mk_team(id: u128, location: &str, nickname: &str, lineup: Vec<u128>, rotation: Vec<u128>) -> Team {
    Team {
        id: TeamId(id),
        location: location.to_string(),
        nickname: nickname.to_string(),
        lineup: lineup.into_iter().map(PlayerId).collect(),
        rotation: rotation.into_iter().map(PlayerId).collect(),
        shadows: Vec::new(),
        rotation_slot: 0,
    }
}

fn mk_game(inning: Inning) -> Game {
    Game {
        id: GameId(1),
        winner: None,
        last_update: String::new(),
        teams: AwayHome {
            away: GameTeam {
                id: TeamId(1),
                runs: 0,
                runs_by_inning: Vec::new(),
                pitcher: None,
                lineup_slot: 0,
            },
            home: GameTeam {
                id: TeamId(2),
                runs: 0,
                runs_by_inning: Vec::new(),
                pitcher: None,
                lineup_slot: 0,
            },
        },
        inning,
        at_bat: None,
        balls: 0,
        strikes: 0,
        outs: 0,
        baserunners: Vec::new(),
    }
}

/// A store holding two teams and a handful of players for handler tests.
fn mk_db() -> Database {
    let mut db = Database::new();
    for (id, name) in [
        (11, "Alice Arm"),
        (12, "Bob Bat"),
        (13, "Cara Catch"),
        (21, "Dan Dash"),
        (22, "Eve East"),
        (23, "Fay Field"),
    ] {
        db.players.insert(id, mk_player(id, name));
    }
    db.teams.insert(1, mk_team(1, "Away", "Avocados", vec![11, 12], vec![13]));
    db.teams.insert(2, mk_team(2, "Home", "Hippos", vec![21, 22], vec![23]));
    db
}

#[test]
fn three_outs_zero_the_half_inning() {
    let mut game = mk_game(Inning::Top(4));
    game.balls = 2;
    game.strikes = 1;
    game.outs = 2;
    game.at_bat = Some(PlayerId(11));
    game.baserunners.push((PlayerId(12), 1));
    game.baserunners.push((PlayerId(21), 3));
    game.handle_out();
    assert_eq!(game.balls, 0);
    assert_eq!(game.strikes, 0);
    assert_eq!(game.outs, 0);
    assert_eq!(game.at_bat, None);
    assert!(game.baserunners.is_empty());
    assert_eq!(game.inning, Inning::Mid(4));
    assert_eq!(game.teams.away.lineup_slot, 1);
    assert_eq!(game.teams.home.lineup_slot, 0);
}

#[test]
fn early_outs_only_count() {
    let mut game = mk_game(Inning::Bottom(2));
    game.baserunners.push((PlayerId(12), 2));
    game.handle_out();
    assert_eq!(game.outs, 1);
    assert_eq!(game.inning, Inning::Bottom(2));
    assert_eq!(game.baserunners.len(), 1);
}

#[test]
fn walk_with_bases_loaded_scores_exactly_one() {
    let mut game = mk_game(Inning::Top(1));
    game.balls = 3;
    game.baserunners = vec![(PlayerId(11), 1), (PlayerId(12), 2), (PlayerId(21), 3)];
    let batter = mk_player(22, "Walky");
    let msg = game.handle_ball(&batter);
    assert_eq!(msg, "Walky draws a walk.");
    assert_eq!(game.teams.away.runs, 1);
    assert_eq!(
        game.baserunners,
        vec![(PlayerId(11), 2), (PlayerId(12), 3), (PlayerId(22), 1)]
    );
    assert_eq!(game.balls, 0);
    assert_eq!(game.strikes, 0);
    assert_eq!(game.at_bat, None);
    assert_eq!(game.teams.away.lineup_slot, 1);
}

#[test]
fn walk_does_not_force_runner_behind_a_gap() {
    let mut game = mk_game(Inning::Top(1));
    game.balls = 3;
    game.baserunners = vec![(PlayerId(11), 2)];
    let batter = mk_player(22, "Patient");
    game.handle_ball(&batter);
    assert_eq!(game.teams.away.runs, 0);
    assert_eq!(game.baserunners, vec![(PlayerId(11), 2), (PlayerId(22), 1)]);
}

#[test]
fn early_ball_updates_count() {
    let mut game = mk_game(Inning::Top(1));
    game.strikes = 2;
    let batter = mk_player(22, "Taker");
    let msg = game.handle_ball(&batter);
    assert_eq!(msg, "Ball. 1-2");
    assert_eq!(game.balls, 1);
}

#[test]
fn home_run_with_runners_scores_them_all_plus_batter() {
    let mut game = mk_game(Inning::Bottom(5));
    game.baserunners = vec![(PlayerId(21), 1), (PlayerId(22), 3)];
    let batter = mk_player(23, "Slugger");
    let msg = game.handle_home_run(&batter);
    assert_eq!(msg, "Slugger hits a 3-run home run!");
    assert_eq!(game.teams.home.runs, 3);
    assert!(game.baserunners.is_empty());
}

#[test]
fn solo_home_run_message_differs() {
    let mut game = mk_game(Inning::Top(5));
    let batter = mk_player(11, "Solo");
    let msg = game.handle_home_run(&batter);
    assert_eq!(msg, "Solo hits a solo home run!");
    assert_eq!(game.teams.away.runs, 1);
}

#[test]
fn strike_updates_count_then_strikes_out() {
    let mut game = mk_game(Inning::Top(1));
    let batter = mk_player(11, "Whiffer");
    assert_eq!(game.handle_strike(&batter, "looking"), "Strike, looking. 0-1");
    assert_eq!(game.handle_strike(&batter, "swinging"), "Strike, swinging. 0-2");
    game.at_bat = Some(batter.id);
    let msg = game.handle_strike(&batter, "swinging");
    assert_eq!(msg, "Whiffer strikes out swinging.");
    assert_eq!(game.outs, 1);
    assert_eq!(game.balls, 0);
    assert_eq!(game.strikes, 0);
    assert_eq!(game.at_bat, None);
    assert_eq!(game.teams.away.lineup_slot, 1);
}

#[test]
fn third_out_strikeout_advances_the_cursor_once() {
    let mut game = mk_game(Inning::Top(7));
    game.strikes = 2;
    game.outs = 2;
    game.teams.away.lineup_slot = 4;
    let batter = mk_player(11, "Caught Looking");
    let msg = game.handle_strike(&batter, "looking");
    assert_eq!(msg, "Caught Looking strikes out looking.");
    assert_eq!(game.inning, Inning::Mid(7));
    assert_eq!(game.teams.away.lineup_slot, 5);
    assert_eq!(game.outs, 0);
    assert_eq!(game.balls, 0);
    assert_eq!(game.strikes, 0);
    assert_eq!(game.at_bat, None);
}

#[test]
fn foul_ball_caps_strikes_below_strikeout() {
    let db = mk_db();
    let batter = mk_player(11, "Fouler");
    let mut game = mk_game(Inning::Top(1));
    game.balls = 1;
    assert_eq!(game.apply_pitch(&db, &batter, PitchOutcome::Foul), "Foul Ball. 1-1");
    game.strikes = 2;
    assert_eq!(game.apply_pitch(&db, &batter, PitchOutcome::Foul), "Foul Ball. 1-2");
    assert_eq!(game.strikes, 2);
}

#[test]
fn fielded_out_names_the_defender_and_keeps_state() {
    let db = mk_db();
    let batter = mk_player(11, "Hitter");
    let mut game = mk_game(Inning::Top(1));
    game.balls = 2;
    let before = game.clone();
    let msg = game.apply_pitch(
        &db,
        &batter,
        PitchOutcome::Fielded { fielder: PlayerId(21), flyout: true },
    );
    assert_eq!(msg, "Hitter hit a flyout to Dan Dash.");
    assert_eq!(game, before);
    let msg = game.apply_pitch(
        &db,
        &batter,
        PitchOutcome::Fielded { fielder: PlayerId(22), flyout: false },
    );
    assert_eq!(msg, "Hitter hit a ground out to Eve East.");
}

#[test]
fn single_advances_each_runner_one_base() {
    let db = mk_db();
    let batter = mk_player(11, "Contact");
    let mut game = mk_game(Inning::Top(1));
    game.baserunners = vec![(PlayerId(12), 1), (PlayerId(21), 3)];
    let msg = game.apply_pitch(&db, &batter, PitchOutcome::Hit { bases: 1 });
    assert_eq!(msg, "Contact hits a Single! Dan Dash scores!");
    assert_eq!(game.teams.away.runs, 1);
    assert_eq!(game.baserunners, vec![(PlayerId(12), 2)]);
}

#[test]
fn triple_scores_everyone_from_second_on() {
    let db = mk_db();
    let batter = mk_player(11, "Speed");
    let mut game = mk_game(Inning::Top(1));
    game.baserunners = vec![(PlayerId(12), 1), (PlayerId(21), 2)];
    let msg = game.apply_pitch(&db, &batter, PitchOutcome::Hit { bases: 3 });
    assert_eq!(msg, "Speed hits a Triple! Bob Bat scores! Dan Dash scores!");
    assert_eq!(game.teams.away.runs, 2);
    assert!(game.baserunners.is_empty());
}

#[test]
fn game_over_mid_ninth_home_leading() {
    let mut db = mk_db();
    let mut game = mk_game(Inning::Mid(9));
    game.teams.away.runs = 3;
    game.teams.home.runs = 5;
    let msg = game.handle_game_over(&mut db).expect("game should be over");
    assert_eq!(msg, "Game over. Avocados 3, Hippos 5");
    assert_eq!(game.winner, Some(TeamId(2)));
    assert_eq!(db.teams.get(1).unwrap().rotation_slot, 1);
    assert_eq!(db.teams.get(2).unwrap().rotation_slot, 1);
}

#[test]
fn game_over_end_ninth_away_leading() {
    let mut db = mk_db();
    let mut game = mk_game(Inning::End(10));
    game.teams.away.runs = 7;
    game.teams.home.runs = 2;
    let msg = game.handle_game_over(&mut db).expect("game should be over");
    assert_eq!(msg, "Game over. Avocados 7, Hippos 2");
    assert_eq!(game.winner, Some(TeamId(1)));
}

#[test]
fn game_not_over_mid_inning_with_away_leading() {
    let mut db = mk_db();
    let mut game = mk_game(Inning::Mid(9));
    game.teams.away.runs = 4;
    game.teams.home.runs = 2;
    assert!(game.handle_game_over(&mut db).is_none());
    assert_eq!(game.winner, None);
}

#[test]
fn game_not_over_before_the_ninth() {
    let mut db = mk_db();
    let mut game = mk_game(Inning::End(8));
    game.teams.home.runs = 9;
    assert!(game.handle_game_over(&mut db).is_none());
}

#[test]
fn first_tick_plays_ball() {
    let mut db = mk_db();
    let mut rng = Rng::seeded(1, 2);
    let mut game = mk_game(Inning::Top(0));
    assert!(game.tick_ready(&db));
    match game.pre_pitch(&mut rng, &mut db) {
        TickEvent::Update(msg) => assert_eq!(msg, "Play ball!"),
        TickEvent::Pitch { .. } => panic!("expected an update"),
    }
    assert_eq!(game.inning, Inning::Top(1));
}

#[test]
fn transitional_tick_announces_next_half() {
    let mut db = mk_db();
    let mut rng = Rng::seeded(1, 2);
    let mut game = mk_game(Inning::Mid(2));
    match game.pre_pitch(&mut rng, &mut db) {
        TickEvent::Update(msg) => assert_eq!(msg, "Bottom of 2, Home Hippos batting."),
        TickEvent::Pitch { .. } => panic!("expected an update"),
    }
    assert_eq!(game.inning, Inning::Bottom(2));
}

#[test]
fn new_batter_is_announced_then_pitch_proceeds() {
    let mut db = mk_db();
    let mut rng = Rng::seeded(3, 4);
    let mut game = mk_game(Inning::Top(1));
    match game.pre_pitch(&mut rng, &mut db) {
        TickEvent::Update(msg) => assert_eq!(msg, "Alice Arm batting for the Avocados."),
        TickEvent::Pitch { .. } => panic!("expected the announcement"),
    }
    assert_eq!(game.at_bat, Some(PlayerId(11)));
    assert_eq!(game.teams.home.pitcher, Some(PlayerId(23)));
    match game.pre_pitch(&mut rng, &mut db) {
        TickEvent::Update(msg) => panic!("expected a pitch, got: {}", msg),
        TickEvent::Pitch { pitcher, batter } => {
            assert_eq!(pitcher, PlayerId(23));
            assert_eq!(batter, PlayerId(11));
        },
    }
}

#[test]
fn empty_rotation_generates_a_pitching_machine() {
    let mut db = mk_db();
    db.take_team(TeamId(2));
    db.teams.insert(2, mk_team(2, "Home", "Hippos", vec![21, 22], vec![]));
    let mut rng = Rng::seeded(9, 9);
    let mut game = mk_game(Inning::Top(1));
    assert!(game.tick_ready(&db));
    game.pre_pitch(&mut rng, &mut db);
    let machine = game.teams.home.pitcher.expect("pitcher resolved");
    let generated = db.players.get(machine.0).expect("machine stored");
    assert_eq!(generated.name, "Pitching Machine");
    assert!((2..10).contains(&generated.soul));
    assert!(generated.fate < 100);
    assert!(generated.blood < 13);
    assert!(generated.coffee < 13);
    assert!(generated.thwackability < (1u64 << 52));
    let home = db.teams.get(2).unwrap();
    assert_eq!(home.rotation, vec![machine]);
    assert_eq!(home.rotation_slot, 0);
}

#[test]
fn steal_follows_the_placeholder_thresholds() {
    let raw_bound: u64 = 1 << 52;
    for seed in 0..200u64 {
        let mut db = mk_db();
        let mut rng = Rng::seeded(seed, seed.wrapping_mul(7919));
        let mut mirror = Rng::seeded(seed, seed.wrapping_mul(7919));
        let mut game = mk_game(Inning::Top(1));
        game.baserunners = vec![(PlayerId(12), 1)];
        let before = game.clone();

        // mirror the draw order: one defender pick, then the runner's rolls
        let _fielder_pick = mirror.next_raw();
        let attempt = mirror.next_raw();
        let expect_attempt = 50 * attempt < raw_bound;
        let expect_success = expect_attempt && 2 * mirror.next_raw() < raw_bound;

        let result = game.handle_steal(&mut rng, &db);
        if !expect_attempt {
            assert!(result.is_none());
            assert_eq!(game, before);
        } else if expect_success {
            assert_eq!(result.unwrap(), "Bob Bat steals second base!");
            assert_eq!(game.baserunners, vec![(PlayerId(12), 2)]);
            assert_eq!(game.outs, 0);
        } else {
            assert_eq!(result.unwrap(), "Bob Bat gets caught stealing second base.");
            assert!(game.baserunners.is_empty());
            assert_eq!(game.outs, 1);
        }
        assert_eq!(rng.to_state(), mirror.to_state());
    }
}

#[test]
fn blocked_runner_cannot_steal() {
    let db = mk_db();
    // the runner on first is blocked by the runner on second, and second by
    // third; only the runner on third can try for home
    for seed in 0..50u64 {
        let mut rng = Rng::seeded(seed, 1);
        let mut game = mk_game(Inning::Top(1));
        game.baserunners = vec![(PlayerId(11), 1), (PlayerId(12), 2), (PlayerId(21), 3)];
        if let Some(msg) = game.handle_steal(&mut rng, &db) {
            assert!(msg.starts_with("Dan Dash"));
        } else {
            assert_eq!(game.baserunners.len(), 3);
        }
    }
}

#[test]
fn tick_ready_rejects_out_of_range_state() {
    let db = mk_db();
    let mut game = mk_game(Inning::Top(1));
    assert!(game.tick_ready(&db));
    game.balls = 4;
    assert!(!game.tick_ready(&db));
    game.balls = 0;
    game.winner = Some(TeamId(1));
    assert!(!game.tick_ready(&db));
    game.winner = None;
    game.baserunners.push((PlayerId(99), 1));
    assert!(!game.tick_ready(&db));
}

#[test]
fn whole_innings_play_out_by_strikeouts() {
    let mut db = mk_db();
    let mut rng = Rng::seeded(42, 43);
    let mut game = mk_game(Inning::Top(0));
    game.pre_pitch(&mut rng, &mut db);
    assert_eq!(game.inning, Inning::Top(1));
    let mut strikeouts = 0;
    while game.inning == Inning::Top(1) {
        match game.pre_pitch(&mut rng, &mut db) {
            TickEvent::Update(_) => {},
            TickEvent::Pitch { batter, .. } => {
                let batter_player = db.players.get(batter.0).unwrap().clone();
                game.apply_pitch(&db, &batter_player, PitchOutcome::StrikeSwinging);
                if game.strikes == 0 {
                    strikeouts += 1;
                }
            },
        }
    }
    assert_eq!(game.inning, Inning::Mid(1));
    assert_eq!(game.outs, 0);
    assert!(game.baserunners.is_empty());
    assert_eq!(strikeouts, 3);
}
