//! Per-game state: the two team slots, the inning cycle, the count, and the
//! occupied bases.

use crate::database::Database;
use crate::database::DatabaseError;
use crate::id::GameId;
use crate::id::PlayerId;
use crate::id::TeamId;
use vstd::prelude::*;

verus! {

/// Which of a game's two sides is meant.
#[derive(Debug, Clone, Copy, PartialEq, Eq, Structural)]
pub enum TeamSelect {
    Away,
    Home,
}

/// A pair of per-side values, the away side first.
#[derive(Debug, Clone, PartialEq)]
pub struct AwayHome<T> {
    pub away: T,
    pub home: T,
}

impl<T> AwayHome<T> {
    /// The side a selector names.
    pub open spec fn spec_select(&self, select: TeamSelect) -> T {
        match select {
            TeamSelect::Away => self.away,
            TeamSelect::Home => self.home,
        }
    }

    /// Borrow the selected side.
    pub fn select(&self, select: TeamSelect) -> (r: &T)
        ensures
            *r == self.spec_select(select),
    {
        match select {
            TeamSelect::Away => &self.away,
            TeamSelect::Home => &self.home,
        }
    }

    /// Mutably borrow the selected side; the other side is untouched.
    pub fn select_mut(&mut self, select: TeamSelect) -> (r: &mut T)
        ensures
            *r == old(self).spec_select(select),
            select == TeamSelect::Away ==> final (self).away == *final (r) && final (self).home
                == old(self).home,
            select == TeamSelect::Home ==> final (self).home == *final (r) && final (self).away
                == old(self).away,
    {
        match select {
            TeamSelect::Away => &mut self.away,
            TeamSelect::Home => &mut self.home,
        }
    }

    /// Apply `op` to both sides.
    pub fn map<U, F: Fn(T) -> U>(self, op: F) -> (r: AwayHome<U>)
        requires
            op.requires((self.away,)),
            op.requires((self.home,)),
        ensures
            op.ensures((self.away,), r.away),
            op.ensures((self.home,), r.home),
    {
        AwayHome { away: op(self.away), home: op(self.home) }
    }
}

impl<T> AwayHome<Option<T>> {
    /// Both sides, if both are present.
    pub fn transpose(self) -> (r: Option<AwayHome<T>>)
        ensures
            r is Some <==> (self.away is Some && self.home is Some),
            r matches Some(v) ==> self.away == Some(v.away) && self.home == Some(v.home),
    {
        match (self.away, self.home) {
            (Some(away), Some(home)) => Some(AwayHome { away, home }),
            _ => None,
        }
    }
}

/// The four-phase inning cycle. Top and Bottom are the playable
/// half-innings; Mid and End are transitional phases whose only action is to
/// hand the bat to the other team. A fresh game sits at the sentinel
/// `Top(0)` until its first tick.
#[derive(Debug, Clone, Copy, PartialEq, Eq, Structural, PartialOrd, Ord)]
pub enum Inning {
    Top(usize),
    Mid(usize),
    Bottom(usize),
    End(usize),
}

/// The phase that follows `i` in the cycle Top -> Mid -> Bottom -> End ->
/// next Top.
pub open spec fn spec_inning_advance(i: Inning) -> Inning {
    match i {
        Inning::Top(n) => Inning::Mid(n),
        Inning::Mid(n) => Inning::Bottom(n),
        Inning::Bottom(n) => Inning::End(n),
        Inning::End(n) => Inning::Top((n + 1) as usize),
    }
}

impl Inning {
    /// Move to the next phase of the cycle.
    pub fn advance(&mut self)
        requires
            (*old(self)) matches Inning::End(n) ==> n < usize::MAX,
        ensures
            *final (self) == spec_inning_advance(*old(self)),
    {
        *self = match *self {
            Inning::Top(n) => Inning::Mid(n),
            Inning::Mid(n) => Inning::Bottom(n),
            Inning::Bottom(n) => Inning::End(n),
            Inning::End(n) => Inning::Top(n + 1),
        };
    }

    /// The phase's name.
    pub open spec fn spec_word(self) -> Seq<char> {
        match self {
            Inning::Top(_) => "Top"@,
            Inning::Mid(_) => "Mid"@,
            Inning::Bottom(_) => "Bottom"@,
            Inning::End(_) => "End"@,
        }
    }

    /// The phase's name.
    pub fn word(self) -> (r: &'static str)
        ensures
            r@ == self.spec_word(),
    {
        match self {
            Inning::Top(_) => "Top",
            Inning::Mid(_) => "Mid",
            Inning::Bottom(_) => "Bottom",
            Inning::End(_) => "End",
        }
    }

    /// The inning number.
    pub open spec fn spec_number(self) -> usize {
        match self {
            Inning::Top(n) | Inning::Mid(n) | Inning::Bottom(n) | Inning::End(n) => n,
        }
    }

    /// The inning number.
    pub fn number(self) -> (r: usize)
        ensures
            r == self.spec_number(),
    {
        match self {
            Inning::Top(n) | Inning::Mid(n) | Inning::Bottom(n) | Inning::End(n) => n,
        }
    }

    /// The side at bat: away during Top/Mid, home during Bottom/End.
    pub open spec fn spec_batting(self) -> TeamSelect {
        match self {
            Inning::Top(_) | Inning::Mid(_) => TeamSelect::Away,
            Inning::Bottom(_) | Inning::End(_) => TeamSelect::Home,
        }
    }

    /// The side at bat: away during Top/Mid, home during Bottom/End.
    pub fn batting(self) -> (r: TeamSelect)
        ensures
            r == self.spec_batting(),
    {
        match self {
            Inning::Top(_) | Inning::Mid(_) => TeamSelect::Away,
            Inning::Bottom(_) | Inning::End(_) => TeamSelect::Home,
        }
    }

    /// The side in the field: the opposite of the batting side.
    pub open spec fn spec_fielding(self) -> TeamSelect {
        match self {
            Inning::Top(_) | Inning::Mid(_) => TeamSelect::Home,
            Inning::Bottom(_) | Inning::End(_) => TeamSelect::Away,
        }
    }

    /// The side in the field: the opposite of the batting side.
    pub fn fielding(self) -> (r: TeamSelect)
        ensures
            r == self.spec_fielding(),
    {
        match self {
            Inning::Top(_) | Inning::Mid(_) => TeamSelect::Home,
            Inning::Bottom(_) | Inning::End(_) => TeamSelect::Away,
        }
    }
}

impl Default for Inning {
    /// The sentinel pre-game phase.
    fn default() -> (r: Inning)
        ensures
            r == Inning::Top(0usize),
    {
        Inning::Top(0)
    }
}

/// One side's in-game record: team, run totals, current pitcher and the
/// lineup cursor.
#[derive(Debug, Clone, PartialEq)]
pub struct GameTeam {
    pub id: TeamId,
    pub runs: u16,
    pub runs_by_inning: Vec<u16>,
    pub pitcher: Option<PlayerId>,
    pub lineup_slot: usize,
}

impl GameTeam {
    /// A fresh side for the given team, with empty tallies.
    pub fn new(id: TeamId) -> (r: GameTeam)
        ensures
            r.id == id,
            r.runs == 0,
            r.runs_by_inning@ == Seq::<u16>::empty(),
            r.pitcher is None,
            r.lineup_slot == 0,
    {
        GameTeam { id, runs: 0, runs_by_inning: Vec::new(), pitcher: None, lineup_slot: 0 }
    }
}

/// The full state of one game; terminal once `winner` is set.
#[derive(Debug, Clone, PartialEq)]
pub struct Game {
    pub id: GameId,
    pub winner: Option<TeamId>,
    pub last_update: String,
    pub teams: AwayHome<GameTeam>,
    pub inning: Inning,
    pub at_bat: Option<PlayerId>,
    pub balls: u8,
    pub strikes: u8,
    pub outs: u8,
    pub baserunners: Vec<(PlayerId, u8)>,
}

impl Game {
    /// A fresh, not yet started game between the two teams.
    pub fn new(teams: AwayHome<TeamId>) -> (r: Game)
        ensures
            r.id.0 != 0,
            r.winner is None,
            r.last_update@ == Seq::<char>::empty(),
            r.teams.away.id == teams.away,
            r.teams.home.id == teams.home,
            r.teams.away.runs == 0 && r.teams.home.runs == 0,
            r.teams.away.runs_by_inning@ == Seq::<u16>::empty(),
            r.teams.home.runs_by_inning@ == Seq::<u16>::empty(),
            r.teams.away.pitcher is None && r.teams.home.pitcher is None,
            r.teams.away.lineup_slot == 0 && r.teams.home.lineup_slot == 0,
            r.inning == Inning::Top(0usize),
            r.at_bat is None,
            r.balls == 0 && r.strikes == 0 && r.outs == 0,
            r.baserunners@ == Seq::<(PlayerId, u8)>::empty(),
    {
        Game {
            id: GameId::new(),
            winner: None,
            last_update: String::new(),
            teams: AwayHome { away: GameTeam::new(teams.away), home: GameTeam::new(teams.home) },
            inning: Inning::Top(0),
            at_bat: None,
            balls: 0,
            strikes: 0,
            outs: 0,
            baserunners: Vec::new(),
        }
    }

    /// A game is finished exactly when its winner has been decided.
    pub fn is_finished(&self) -> (r: bool)
        ensures
            r == (self.winner is Some),
    {
        match self.winner {
            Some(_) => true,
            None => false,
        }
    }

    /// Whether some runner stands on base `base`.
    pub open spec fn spec_base_occupied(&self, base: u8) -> bool {
        exists|i: int| 0 <= i < self.baserunners@.len() && self.baserunners@[i].1 == base
    }

    /// The occupied base numbers, one entry per runner, in runner order.
    pub fn bases_occupied(&self) -> (r: Vec<u8>)
        ensures
            r@.len() == self.baserunners@.len(),
            forall|i: int| 0 <= i < r@.len() ==> r@[i] == self.baserunners@[i].1,
    {
        let mut bases: Vec<u8> = Vec::new();
        let mut i: usize = 0;
        while i < self.baserunners.len()
            invariant
                i <= self.baserunners@.len(),
                bases@.len() == i as int,
                forall|j: int| 0 <= j < i ==> bases@[j] == self.baserunners@[j].1,
            decreases self.baserunners@.len() - i,
        {
            bases.push(self.baserunners[i].1);
            i += 1;
        }
        bases
    }

    /// Local validity against a store: the identifier is not nil, the winner
    /// (if any) and both sides' teams exist, and the batter, every
    /// baserunner and both sides' pitchers (where set) exist.
    pub open spec fn ok_spec(&self, database: &Database) -> bool {
        &&& self.id.0 != 0
        &&& (self.winner matches Some(w) ==> database.teams.spec_has_key(w.0))
        &&& database.teams.spec_has_key(self.teams.away.id.0)
        &&& database.teams.spec_has_key(self.teams.home.id.0)
        &&& (self.at_bat matches Some(p) ==> database.players.spec_has_key(p.0))
        &&& forall|i: int|
            0 <= i < self.baserunners@.len() ==> database.players.spec_has_key(
                self.baserunners@[i].0.0,
            )
        &&& (self.teams.away.pitcher matches Some(p) ==> database.players.spec_has_key(p.0))
        &&& (self.teams.home.pitcher matches Some(p) ==> database.players.spec_has_key(p.0))
    }

    /// Whether a reported failure names a genuine violation of this game
    /// against the store, with the offending identifier: a nil identifier,
    /// a referenced team the store does not hold, or a referenced player
    /// (batter, baserunner or pitcher) the store does not hold.
    pub open spec fn problem_valid(&self, database: &Database, e: DatabaseError) -> bool {
        match e {
            DatabaseError::NilId => self.id.0 == 0,
            DatabaseError::BadReference { kind, id } => {
                ||| {
                    &&& kind@ == "team"@
                    &&& !database.teams.spec_has_key(id)
                    &&& (self.winner == Some(TeamId(id)) || self.teams.away.id.0 == id
                        || self.teams.home.id.0 == id)
                }
                ||| {
                    &&& kind@ == "player"@
                    &&& !database.players.spec_has_key(id)
                    &&& (self.at_bat == Some(PlayerId(id)) || (exists|i: int|
                        0 <= i < self.baserunners@.len() && (#[trigger] self.baserunners@[i]).0.0
                            == id) || self.teams.away.pitcher == Some(PlayerId(id))
                        || self.teams.home.pitcher == Some(PlayerId(id)))
                }
            },
            DatabaseError::DuplicatePlayer { .. } => false,
        }
    }

    /// Every validation failure of this game against the store. Returns an
    /// empty list exactly when the game is valid, and every returned failure
    /// names a genuine violation.
    pub fn problems(&self, database: &Database) -> (r: Vec<DatabaseError>)
        ensures
            r@.len() == 0 <==> self.ok_spec(database),
            forall|k: int| 0 <= k < r@.len() ==> self.problem_valid(database, #[trigger] r@[k]),
    {
        let mut problems: Vec<DatabaseError> = Vec::new();
        if self.id.0 == 0 {
            problems.push(DatabaseError::NilId);
        }
        if let Some(w) = self.winner {
            if !database.teams.contains(w.0) {
                problems.push(DatabaseError::BadReference { kind: "team", id: w.0 });
            }
        }
        if !database.teams.contains(self.teams.away.id.0) {
            problems.push(DatabaseError::BadReference { kind: "team", id: self.teams.away.id.0 });
        }
        if !database.teams.contains(self.teams.home.id.0) {
            problems.push(DatabaseError::BadReference { kind: "team", id: self.teams.home.id.0 });
        }
        if let Some(p) = self.at_bat {
            if !database.players.contains(p.0) {
                problems.push(DatabaseError::BadReference { kind: "player", id: p.0 });
            }
        }
        let ghost before = problems@.len() as int;
        let ghost prefix_ok = {
            &&& self.id.0 != 0
            &&& (self.winner matches Some(w) ==> database.teams.spec_has_key(w.0))
            &&& database.teams.spec_has_key(self.teams.away.id.0)
            &&& database.teams.spec_has_key(self.teams.home.id.0)
            &&& (self.at_bat matches Some(p) ==> database.players.spec_has_key(p.0))
        };
        proof {
            assert(problems@.len() == 0 <==> prefix_ok);
        }
        let mut i: usize = 0;
        while i < self.baserunners.len()
            invariant
                i <= self.baserunners@.len(),
                forall|k: int|
                    0 <= k < problems@.len() ==> self.problem_valid(
                        database,
                        #[trigger] problems@[k],
                    ),
                problems@.len() == 0 <==> (prefix_ok && forall|j: int|
                    0 <= j < i ==> database.players.spec_has_key(self.baserunners@[j].0.0)),
            decreases self.baserunners@.len() - i,
        {
            let p = self.baserunners[i].0;
            if !database.players.contains(p.0) {
                proof {
                    assert(self.baserunners@[i as int].0.0 == p.0);
                }
                problems.push(DatabaseError::BadReference { kind: "player", id: p.0 });
            }
            i += 1;
        }
        if let Some(p) = self.teams.away.pitcher {
            if !database.players.contains(p.0) {
                problems.push(DatabaseError::BadReference { kind: "player", id: p.0 });
            }
        }
        if let Some(p) = self.teams.home.pitcher {
            if !database.players.contains(p.0) {
                problems.push(DatabaseError::BadReference { kind: "player", id: p.0 });
            }
        }
        problems
    }
}

} // verus!
