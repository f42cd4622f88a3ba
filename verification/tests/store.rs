//! Store consistency: nil identifiers, key/identifier agreement, roster
//! duplicates and dangling references are all reported, and valid entities
//! commit.

use simx::id::{PlayerId, TeamId};
use simx::{Database, DatabaseError, Player, Sim, Team};

fn plain_player(id: u128, name: &str) -> Player {
    Player {
        id: PlayerId(id),
        name: name.to_string(),
        thwackability: 0,
        moxie: 0,
        divinity: 0,
        musclitude: 0,
        patheticism: 0,
        buoyancy: 0,
        base_thirst: 0,
        laserlikeness: 0,
        ground_friction: 0,
        continuation: 0,
        indulgence: 0,
        martyrdom: 0,
        tragicness: 0,
        shakespearianism: 0,
        suppression: 0,
        unthwackability: 0,
        coldness: 0,
        overpowerment: 0,
        ruthlessness: 0,
        omniscience: 0,
        tenaciousness: 0,
        watchfulness: 0,
        anticapitalism: 0,
        chasiness: 0,
        pressurization: 0,
        cinnamon: 0,
        soul: 5,
        peanut_allergy: false,
        fate: 0,
        blood: 0,
        coffee: 0,
    }
}

fn plain_team(id: u128, lineup: Vec<u128>, rotation: Vec<u128>) -> Team {
    Team {
        id: TeamId(id),
        location: "Test".to_string(),
        nickname: "Crabs".to_string(),
        lineup: lineup.into_iter().map(PlayerId).collect(),
        rotation: rotation.into_iter().map(PlayerId).collect(),
        shadows: Vec::new(),
        rotation_slot: 0,
    }
}

#[test]
fn add_player_rejects_nil_id() {
    let mut sim = Sim::new();
    let result = sim.add_player(plain_player(0, "Nil"));
    assert!(matches!(result, Err(DatabaseError::NilId)));
    assert_eq!(sim.players().len(), 0);
}

#[test]
fn add_player_commits_valid_player() {
    let mut sim = Sim::new();
    assert!(sim.add_player(plain_player(7, "Seven")).is_ok());
    assert_eq!(sim.players().len(), 1);
}

#[test]
fn add_team_rejects_dangling_reference() {
    let mut sim = Sim::new();
    let result = sim.add_team(plain_team(1, vec![99], vec![]));
    assert!(matches!(result, Err(DatabaseError::BadReference { kind: "player", id: 99 })));
    assert_eq!(sim.teams().len(), 0);
}

#[test]
fn add_team_rejects_duplicate_roster_member() {
    let mut sim = Sim::new();
    sim.add_player(plain_player(5, "Dupe")).unwrap();
    let result = sim.add_team(plain_team(1, vec![5], vec![5]));
    assert!(matches!(result, Err(DatabaseError::DuplicatePlayer { player: PlayerId(5) })));
}

#[test]
fn add_team_commits_valid_team() {
    let mut sim = Sim::new();
    sim.add_player(plain_player(5, "Ok")).unwrap();
    sim.add_player(plain_player(6, "Arm")).unwrap();
    assert!(sim.add_team(plain_team(1, vec![5], vec![6])).is_ok());
    assert_eq!(sim.teams().len(), 1);
}

#[test]
fn check_consistency_accepts_valid_store() {
    let mut db = Database::new();
    db.players.insert(5, plain_player(5, "Ok"));
    db.teams.insert(1, plain_team(1, vec![5], vec![]));
    assert!(db.check_consistency().is_ok());
}

#[test]
fn check_consistency_reports_nil_id() {
    let mut db = Database::new();
    db.players.insert(0, plain_player(0, "Nil"));
    let report = db.check_consistency();
    assert!(report.is_err());
    assert!(report.unwrap_err().contains("object ID is nil"));
}

#[test]
fn check_consistency_reports_key_mismatch() {
    let mut db = Database::new();
    db.players.insert(123, plain_player(456, "Miskeyed"));
    let report = db.check_consistency();
    assert!(report.is_err());
    assert!(report.unwrap_err().contains("keyed with"));
}

#[test]
fn check_consistency_reports_every_problem() {
    let mut db = Database::new();
    db.players.insert(0, plain_player(0, "Nil"));
    db.teams.insert(9, plain_team(9, vec![5, 5], vec![]));
    let report = db.check_consistency().unwrap_err();
    assert!(report.contains("object ID is nil"));
    assert!(report.contains("reference to nonexistent player"));
    assert!(report.contains("is on the roster multiple times"));
}

#[test]
fn check_consistency_reports_dangling_game_references() {
    let mut sim = Sim::new();
    sim.add_player(plain_player(5, "Only")).unwrap();
    sim.add_team(plain_team(1, vec![5], vec![])).unwrap();
    sim.add_team(plain_team(2, vec![], vec![])).unwrap();
    let game = simx::Game::new(simx::AwayHome { away: TeamId(1), home: TeamId(2) });
    assert!(sim.start_day(simx::Date::default(), vec![game]).is_ok());
    assert!(sim.database.check_consistency().is_ok());

    let mut bad = simx::Game::new(simx::AwayHome { away: TeamId(1), home: TeamId(3) });
    bad.baserunners.push((PlayerId(77), 1));
    let result = sim.start_day(simx::Date::default(), vec![bad]);
    assert!(matches!(result, Err(DatabaseError::BadReference { .. })));
}

#[test]
fn start_day_returns_previous_day() {
    let mut sim = Sim::new();
    sim.add_team(plain_team(1, vec![], vec![])).unwrap();
    sim.add_team(plain_team(2, vec![], vec![])).unwrap();
    let game = simx::Game::new(simx::AwayHome { away: TeamId(1), home: TeamId(2) });
    let first_day = simx::Date { season: 1, day: 3 };
    let (old_date, old_games) = sim.start_day(first_day, vec![game]).unwrap();
    assert_eq!(old_date, simx::Date::default());
    assert!(old_games.is_empty());

    let next = simx::Game::new(simx::AwayHome { away: TeamId(2), home: TeamId(1) });
    let (prev_date, prev_games) = sim
        .start_day(simx::Date { season: 1, day: 4 }, vec![next])
        .unwrap();
    assert_eq!(prev_date, first_day);
    assert_eq!(prev_games.len(), 1);
}

#[test]
fn id_string_is_canonical() {
    assert_eq!(
        simx::id::id_string(0xa1a2a3a4b1b2c1c2d1d2d3d4d5d6d7d8),
        "a1a2a3a4-b1b2-c1c2-d1d2-d3d4d5d6d7d8"
    );
    assert_eq!(simx::id::id_string(0), "00000000-0000-0000-0000-000000000000");
}
