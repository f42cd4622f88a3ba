//! The smaller pieces: the inning cycle, side selection, text rendering and
//! fresh-game construction.

use simx::id::{PlayerId, TeamId};
use simx::{base_name, dec_u64, AwayHome, Game, Inning, Team, TeamSelect};

#[test]
fn inning_cycle_advances_one_phase_at_a_time() {
    let mut inning = Inning::default();
    assert_eq!(inning, Inning::Top(0));
    inning = Inning::Top(3);
    inning.advance();
    assert_eq!(inning, Inning::Mid(3));
    inning.advance();
    assert_eq!(inning, Inning::Bottom(3));
    inning.advance();
    assert_eq!(inning, Inning::End(3));
    inning.advance();
    assert_eq!(inning, Inning::Top(4));
}

#[test]
fn inning_words_and_numbers() {
    assert_eq!(Inning::Top(1).word(), "Top");
    assert_eq!(Inning::Mid(2).word(), "Mid");
    assert_eq!(Inning::Bottom(3).word(), "Bottom");
    assert_eq!(Inning::End(4).word(), "End");
    assert_eq!(Inning::End(4).number(), 4);
}

#[test]
fn batting_and_fielding_sides_are_opposite() {
    for inning in [Inning::Top(1), Inning::Mid(1)] {
        assert!(matches!(inning.batting(), TeamSelect::Away));
        assert!(matches!(inning.fielding(), TeamSelect::Home));
    }
    for inning in [Inning::Bottom(1), Inning::End(1)] {
        assert!(matches!(inning.batting(), TeamSelect::Home));
        assert!(matches!(inning.fielding(), TeamSelect::Away));
    }
}

#[test]
fn away_home_selection_and_mapping() {
    let mut pair = AwayHome { away: 10u32, home: 20u32 };
    assert_eq!(*pair.select(TeamSelect::Away), 10);
    assert_eq!(*pair.select(TeamSelect::Home), 20);
    *pair.select_mut(TeamSelect::Home) = 25;
    assert_eq!(pair.home, 25);
    let doubled = pair.map(|n| n * 2);
    assert_eq!(doubled.away, 20);
    assert_eq!(doubled.home, 50);
}

#[test]
fn away_home_transpose() {
    let both = AwayHome { away: Some(1u8), home: Some(2u8) };
    let transposed = both.transpose().unwrap();
    assert_eq!(transposed.away, 1);
    assert_eq!(transposed.home, 2);
    let missing = AwayHome { away: Some(1u8), home: None };
    assert!(missing.transpose().is_none());
}

#[test]
fn base_names_are_rendered_in_english() {
    assert_eq!(base_name(1, 4), "first base");
    assert_eq!(base_name(2, 4), "second base");
    assert_eq!(base_name(3, 4), "third base");
    assert_eq!(base_name(4, 4), "home");
    assert_eq!(base_name(4, 5), "fourth base");
    assert_eq!(base_name(5, 6), "5th base");
    assert_eq!(base_name(11, 20), "11th base");
    assert_eq!(base_name(21, 30), "21st base");
    assert_eq!(base_name(22, 30), "22nd base");
    assert_eq!(base_name(23, 30), "23rd base");
    assert_eq!(base_name(111, 200), "111th base");
}

#[test]
fn decimal_rendering() {
    assert_eq!(dec_u64(0), "0");
    assert_eq!(dec_u64(7), "7");
    assert_eq!(dec_u64(10), "10");
    assert_eq!(dec_u64(12345), "12345");
    assert_eq!(dec_u64(u64::MAX), "18446744073709551615");
}

#[test]
fn team_name_joins_location_and_nickname() {
    let team = Team {
        id: TeamId(1),
        location: "New York".to_string(),
        nickname: "Millennials".to_string(),
        lineup: Vec::new(),
        rotation: Vec::new(),
        shadows: Vec::new(),
        rotation_slot: 0,
    };
    assert_eq!(team.name(), "New York Millennials");
}

#[test]
fn fresh_game_is_blank_and_unstarted() {
    let game = Game::new(AwayHome { away: TeamId(1), home: TeamId(2) });
    assert_ne!(game.id.0, 0);
    assert!(!game.is_finished());
    assert_eq!(game.inning, Inning::Top(0));
    assert_eq!(game.teams.away.id, TeamId(1));
    assert_eq!(game.teams.home.id, TeamId(2));
    assert_eq!(game.teams.away.runs, 0);
    assert_eq!(game.balls, 0);
    assert_eq!(game.at_bat, None);
    assert!(game.baserunners.is_empty());
}

#[test]
fn bases_occupied_lists_runner_bases_in_order() {
    let mut game = Game::new(AwayHome { away: TeamId(1), home: TeamId(2) });
    game.baserunners = vec![(PlayerId(5), 2), (PlayerId(6), 1), (PlayerId(7), 3)];
    assert_eq!(game.bases_occupied(), vec![2, 1, 3]);
}

#[test]
fn add_team_rejects_nil_id() {
    let mut sim = simx::Sim::new();
    let team = Team {
        id: TeamId(0),
        location: "Nil".to_string(),
        nickname: "Nowhere".to_string(),
        lineup: Vec::new(),
        rotation: Vec::new(),
        shadows: Vec::new(),
        rotation_slot: 0,
    };
    assert!(matches!(sim.add_team(team), Err(simx::DatabaseError::NilId)));
}
