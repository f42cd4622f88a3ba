//! Core of a turn-based baseball simulation: a seedable, serializable
//! pseudorandom generator with an exact reproducible output sequence, an
//! in-memory entity store with referential-integrity invariants, and the
//! per-game state machine that resolves one play event per invocation.

mod database;
mod game;
pub mod id;
mod player;
mod rng;
mod sim;
mod team;
mod util;

pub use crate::database::{Database, DatabaseError, IdMap};
pub use crate::game::{AwayHome, Game, GameTeam, Inning, TeamSelect};
pub use crate::player::Player;
pub use crate::rng::{Rng, RngState};
pub use crate::sim::{PitchOutcome, RosterChoice, TickEvent};
pub use crate::sim::{BALLS_NEEDED, HOME_BASE, OUTS_NEEDED, STRIKES_NEEDED};
pub use crate::team::Team;
pub use crate::util::{base_name, dec_u64, Date};

use vstd::prelude::*;

verus! {

/// The whole simulation: the shared generator and the entity store. One
/// call to the driver's advance operation resolves exactly one event per
/// unfinished game.
pub struct Sim {
    pub rng: Rng,
    pub database: Database,
}

impl Sim {
    /// Representation invariant of the generator and the store's maps.
    pub open spec fn wf(&self) -> bool {
        self.rng.wf() && self.database.wf()
    }

    /// An empty simulation with an entropy-seeded generator.
    pub fn new() -> (r: Sim)
        ensures
            r.wf(),
            r.database.teams.entries_seq() == Seq::<(u128, Team)>::empty(),
            r.database.players.entries_seq() == Seq::<(u128, Player)>::empty(),
            r.database.games_today@ == Seq::<Game>::empty(),
    {
        Sim { rng: Rng::new(), database: Database::new() }
    }

    /// All players, keyed by identifier.
    pub fn players(&self) -> (r: &IdMap<Player>)
        ensures
            r == &self.database.players,
    {
        &self.database.players
    }

    /// All teams, keyed by identifier.
    pub fn teams(&self) -> (r: &IdMap<Team>)
        ensures
            r == &self.database.teams,
    {
        &self.database.teams
    }

    /// The games being played today.
    pub fn games_today(&self) -> (r: &Vec<Game>)
        ensures
            r == &self.database.games_today,
    {
        &self.database.games_today
    }

    /// Add a player to the store. Fails, leaving the store unchanged,
    /// exactly when the player's identifier is nil; otherwise the player is
    /// stored under its identifier.
    pub fn add_player(&mut self, player: Player) -> (r: Result<(), DatabaseError>)
        requires
            old(self).wf(),
        ensures
            final (self).wf(),
            r is Ok <==> player.id.0 != 0,
            r matches Err(e) ==> e == DatabaseError::NilId && *final (self) == *old(self),
            r is Ok ==> {
                &&& final (self).database.players.spec_has_key(player.id.0)
                &&& final (self).database.players.spec_get(player.id.0) == player
                &&& forall|k: u128|
                    k != player.id.0 ==> final (self).database.players.spec_has_key(k) == old(
                        self,
                    ).database.players.spec_has_key(k)
                &&& forall|k: u128|
                    k != player.id.0 && old(self).database.players.spec_has_key(k) ==> final (self).database.players.spec_get(k) == old(self).database.players.spec_get(k)
                &&& final (self).database.teams == old(self).database.teams
                &&& final (self).database.games_today == old(self).database.games_today
                &&& final (self).database.date == old(self).database.date
                &&& final (self).rng == old(self).rng
            },
    {
        if player.id.0 == 0 {
            return Err(DatabaseError::NilId);
        }
        let key = player.id.0;
        self.database.players.insert(key, player);
        Ok(())
    }

    /// Add a team to the store. Fails, leaving the store unchanged, exactly
    /// when the team is invalid against the current store (nil identifier,
    /// dangling roster reference, duplicate roster member); otherwise the
    /// team is stored under its identifier.
    pub fn add_team(&mut self, team: Team) -> (r: Result<(), DatabaseError>)
        requires
            old(self).wf(),
        ensures
            final (self).wf(),
            r is Ok <==> team.ok_spec(&old(self).database),
            r is Err ==> *final (self) == *old(self),
            team.id.0 == 0 ==> (r matches Err(e) && e == DatabaseError::NilId),
            r matches Err(e) ==> team.problem_valid(&old(self).database, e),
            r is Ok ==> {
                &&& final (self).database.teams.spec_has_key(team.id.0)
                &&& final (self).database.teams.spec_get(team.id.0) == team
                &&& forall|k: u128|
                    k != team.id.0 ==> final (self).database.teams.spec_has_key(k) == old(
                        self,
                    ).database.teams.spec_has_key(k)
                &&& forall|k: u128|
                    k != team.id.0 && old(self).database.teams.spec_has_key(k) ==> final (self).database.teams.spec_get(k) == old(self).database.teams.spec_get(k)
                &&& final (self).database.players == old(self).database.players
                &&& final (self).database.games_today == old(self).database.games_today
                &&& final (self).database.date == old(self).database.date
                &&& final (self).rng == old(self).rng
            },
    {
        let errors = team.problems(&self.database);
        if errors.len() > 0 {
            return Err(errors[0]);
        }
        let key = team.id.0;
        self.database.teams.insert(key, team);
        Ok(())
    }

    /// Start a new day of games: validate every incoming game against the
    /// current store, then atomically swap in the new date and game set,
    /// returning the displaced previous values for the caller to archive.
    /// Fails, leaving the store unchanged, exactly when some incoming game
    /// is invalid.
    pub fn start_day(&mut self, date: Date, games: Vec<Game>) -> (r: Result<
        (Date, Vec<Game>),
        DatabaseError,
    >)
        requires
            old(self).wf(),
        ensures
            final (self).wf(),
            r is Ok <==> (forall|i: int|
                0 <= i < games@.len() ==> (#[trigger] games@[i]).ok_spec(&old(self).database)),
            r is Err ==> *final (self) == *old(self),
            r matches Err(e) ==> (exists|i: int|
                {
                    &&& 0 <= i < games@.len()
                    &&& (forall|j: int|
                        0 <= j < i ==> (#[trigger] games@[j]).ok_spec(&old(self).database))
                    &&& !(#[trigger] games@[i]).ok_spec(&old(self).database)
                    &&& games@[i].problem_valid(&old(self).database, e)
                }),
            r matches Ok(v) ==> {
                &&& v.0 == old(self).database.date
                &&& v.1@ == old(self).database.games_today@
                &&& final (self).database.date == date
                &&& final (self).database.games_today@ == games@
                &&& final (self).database.teams == old(self).database.teams
                &&& final (self).database.players == old(self).database.players
                &&& final (self).rng == old(self).rng
            },
    {
        let mut i: usize = 0;
        while i < games.len()
            invariant
                i <= games@.len(),
                forall|j: int| 0 <= j < i ==> (#[trigger] games@[j]).ok_spec(&self.database),
                *self == *old(self),
                self.wf(),
            decreases games@.len() - i,
        {
            let errors = games[i].problems(&self.database);
            if errors.len() > 0 {
                proof {
                    assert(!games@[i as int].ok_spec(&old(self).database) && games@[
                        i as int
                    ].problem_valid(&old(self).database, errors@[0]));
                }
                return Err(errors[0]);
            }
            i += 1;
        }
        let old_date = self.database.date;
        self.database.date = date;
        let mut displaced = games;
        core::mem::swap(&mut self.database.games_today, &mut displaced);
        Ok((old_date, displaced))
    }
}

} // verus!
