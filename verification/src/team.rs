//! Teams: names and the three ordered player rosters, plus the rotation
//! cursor that persists across games.

use crate::database::Database;
use crate::database::DatabaseError;
use crate::id::PlayerId;
use crate::id::TeamId;
use vstd::prelude::*;
use vstd::string::StringExecFns;

verus! {

/// A team: location and nickname, the batting lineup, the pitching rotation,
/// the inert shadows roster, and the rotation cursor.
#[derive(Debug, Clone, PartialEq)]
pub struct Team {
    pub id: TeamId,
    pub location: String,
    pub nickname: String,
    pub lineup: Vec<PlayerId>,
    pub rotation: Vec<PlayerId>,
    pub shadows: Vec<PlayerId>,
    pub rotation_slot: usize,
}

impl Team {
    /// Every roster member, lineup first, then rotation, then shadows.
    pub open spec fn roster(&self) -> Seq<PlayerId> {
        self.lineup@ + self.rotation@ + self.shadows@
    }

    /// Local validity against a store: the identifier is not nil, every
    /// roster member exists among the store's players, and no player appears
    /// twice across the three rosters.
    pub open spec fn ok_spec(&self, database: &Database) -> bool {
        &&& self.id.0 != 0
        &&& forall|i: int|
            0 <= i < self.roster().len() ==> database.players.spec_has_key(self.roster()[i].0)
        &&& forall|i: int, j: int|
            0 <= i < j < self.roster().len() ==> self.roster()[i] != self.roster()[j]
    }

    /// The team's full display name.
    pub fn name(&self) -> (r: String)
        ensures
            r@ == self.location@ + " "@ + self.nickname@,
    {
        let mut s = self.location.clone();
        s.append(" ");
        s.append(self.nickname.as_str());
        s
    }

    /// Whether a reported failure names a genuine violation of this team
    /// against the store, with the offending identifier: a nil identifier,
    /// a rostered player the store does not hold, or a player rostered more
    /// than once.
    pub open spec fn problem_valid(&self, database: &Database, e: DatabaseError) -> bool {
        match e {
            DatabaseError::NilId => self.id.0 == 0,
            DatabaseError::BadReference { kind, id } => {
                &&& kind@ == "player"@
                &&& (exists|i: int|
                    0 <= i < self.roster().len() && (#[trigger] self.roster()[i]).0 == id)
                &&& !database.players.spec_has_key(id)
            },
            DatabaseError::DuplicatePlayer { player } => exists|i: int, j: int|
                0 <= i < j < self.roster().len() && (#[trigger] self.roster()[i]) == player && (
                #[trigger] self.roster()[j]) == player,
        }
    }

    /// Every validation failure of this team against the store: a nil
    /// identifier, a roster member the store does not hold, a player rostered
    /// twice. Returns an empty list exactly when the team is valid, and every
    /// returned failure names a genuine violation.
    pub fn problems(&self, database: &Database) -> (r: Vec<DatabaseError>)
        ensures
            r@.len() == 0 <==> self.ok_spec(database),
            self.id.0 == 0 ==> r@.len() > 0 && r@[0] == DatabaseError::NilId,
            forall|k: int| 0 <= k < r@.len() ==> self.problem_valid(database, #[trigger] r@[k]),
    {
        let mut problems: Vec<DatabaseError> = Vec::new();
        if self.id.0 == 0 {
            problems.push(DatabaseError::NilId);
        }
        let mut combined: Vec<PlayerId> = Vec::new();
        let mut i: usize = 0;
        while i < self.lineup.len()
            invariant
                i <= self.lineup@.len(),
                combined@ == self.lineup@.take(i as int),
            decreases self.lineup@.len() - i,
        {
            combined.push(self.lineup[i]);
            i += 1;
        }
        let mut i: usize = 0;
        while i < self.rotation.len()
            invariant
                i <= self.rotation@.len(),
                combined@ == self.lineup@ + self.rotation@.take(i as int),
            decreases self.rotation@.len() - i,
        {
            proof {
                assert(self.lineup@ + self.rotation@.take(i as int + 1) =~= (self.lineup@
                    + self.rotation@.take(i as int)).push(self.rotation@[i as int]));
            }
            combined.push(self.rotation[i]);
            i += 1;
        }
        let mut i: usize = 0;
        while i < self.shadows.len()
            invariant
                i <= self.shadows@.len(),
                combined@ == self.lineup@ + self.rotation@ + self.shadows@.take(i as int),
            decreases self.shadows@.len() - i,
        {
            proof {
                assert(self.lineup@ + self.rotation@ + self.shadows@.take(i as int + 1)
                    =~= (self.lineup@ + self.rotation@ + self.shadows@.take(i as int)).push(
                    self.shadows@[i as int],
                ));
            }
            combined.push(self.shadows[i]);
            i += 1;
        }
        proof {
            assert(self.lineup@ + self.rotation@.take(self.rotation@.len() as int) =~= self.lineup@
                + self.rotation@);
            assert(self.lineup@ + self.rotation@ + self.shadows@.take(self.shadows@.len() as int)
                =~= self.roster());
            assert(self.lineup@.take(self.lineup@.len() as int) =~= self.lineup@);
        }
        let n = combined.len();
        let mut i: usize = 0;
        while i < n
            invariant
                i <= n,
                n == combined@.len(),
                combined@ == self.roster(),
                self.id.0 == 0 ==> problems@.len() > 0 && problems@[0] == DatabaseError::NilId,
                forall|k: int|
                    0 <= k < problems@.len() ==> self.problem_valid(
                        database,
                        #[trigger] problems@[k],
                    ),
                problems@.len() == 0 <==> {
                    &&& self.id.0 != 0
                    &&& forall|a: int|
                        0 <= a < i ==> database.players.spec_has_key(combined@[a].0)
                    &&& forall|a: int, b: int|
                        0 <= a < i && a < b < n ==> combined@[a] != combined@[b]
                },
            decreases n - i,
        {
            let p = combined[i];
            let mut seen = false;
            let mut j: usize = 0;
            while j < i
                invariant
                    j <= i,
                    i < n,
                    n == combined@.len(),
                    p == combined@[i as int],
                    seen <==> (exists|a: int| 0 <= a < j && combined@[a] == p),
                decreases i - j,
            {
                if combined[j] == p {
                    seen = true;
                }
                j += 1;
            }
            if !seen {
                if !database.players.contains(p.0) {
                    proof {
                        assert(self.roster()[i as int].0 == p.0);
                    }
                    problems.push(DatabaseError::BadReference { kind: "player", id: p.0 });
                }
                let mut dup = false;
                let mut j: usize = i + 1;
                while j < n
                    invariant
                        i < j <= n,
                        n == combined@.len(),
                        p == combined@[i as int],
                        dup <==> (exists|b: int| i < b < j && combined@[b] == p),
                    decreases n - j,
                {
                    if combined[j] == p {
                        dup = true;
                    }
                    j += 1;
                }
                if dup {
                    proof {
                        let b = choose|b: int| i < b < n && combined@[b] == p;
                        assert(self.roster()[i as int] == p && self.roster()[b] == p);
                    }
                    problems.push(DatabaseError::DuplicatePlayer { player: p });
                }
            }
            i += 1;
        }
        problems
    }
}

} // verus!
