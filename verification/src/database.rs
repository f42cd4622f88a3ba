//! The in-memory entity store: maps from identifier to team and player, the
//! games being played today, and the referential-integrity invariants that
//! are checked after every mutation.

use crate::game::Game;
use crate::id::id_string;
use crate::id::PlayerId;
use crate::player::Player;
use crate::team::Team;
use crate::util::Date;
use vstd::prelude::*;
use vstd::string::StringExecFns;

verus! {

/// A validation failure found while checking an entity against the store.
#[derive(Debug, Clone, Copy, PartialEq)]
pub enum DatabaseError {
    /// The entity's own identifier is the reserved all-zero value.
    NilId,
    /// The entity refers to an identifier of the named kind that the store
    /// does not hold.
    BadReference { kind: &'static str, id: u128 },
    /// A player appears more than once across a team's three rosters.
    DuplicatePlayer { player: PlayerId },
}

impl DatabaseError {
    /// A human-readable description of the failure.
    pub fn message(&self) -> String {
        match self {
            DatabaseError::NilId => String::from_str("object ID is nil"),
            DatabaseError::BadReference { kind, id } => {
                let mut s = String::from_str("reference to nonexistent ");
                s.append(kind);
                s.append(" ");
                let rendered = id_string(*id);
                s.append(rendered.as_str());
                s
            },
            DatabaseError::DuplicatePlayer { player } => {
                let mut s = String::from_str("player ");
                let rendered = id_string(player.0);
                s.append(rendered.as_str());
                s.append(" is on the roster multiple times");
                s
            },
        }
    }
}

/// No key occurs twice among the entries.
pub open spec fn seq_unique_keys<V>(s: Seq<(u128, V)>) -> bool {
    forall|i: int, j: int| 0 <= i < j < s.len() ==> s[i].0 != s[j].0
}

/// Whether some entry carries key `k`.
pub open spec fn seq_has_key<V>(s: Seq<(u128, V)>, k: u128) -> bool {
    exists|i: int| 0 <= i < s.len() && s[i].0 == k
}

/// The index of the entry with key `k` (meaningful only when present).
pub open spec fn seq_key_index<V>(s: Seq<(u128, V)>, k: u128) -> int {
    choose|i: int| 0 <= i < s.len() && s[i].0 == k
}

/// The value stored under key `k` (meaningful only when present).
pub open spec fn seq_key_value<V>(s: Seq<(u128, V)>, k: u128) -> V {
    s[seq_key_index(s, k)].1
}

/// With distinct keys, a position holding key `k` is the position
/// `seq_key_index` denotes.
proof fn lemma_key_index_is<V>(s: Seq<(u128, V)>, k: u128, i: int)
    requires
        seq_unique_keys(s),
        0 <= i < s.len(),
        s[i].0 == k,
    ensures
        seq_has_key(s, k),
        seq_key_index(s, k) == i,
        seq_key_value(s, k) == s[i].1,
{
    assert(seq_has_key(s, k));
    let j = seq_key_index(s, k);
    assert(0 <= j < s.len() && s[j].0 == k);
}

/// Two entry sequences of equal length and pointwise equal keys hold the
/// same key set.
proof fn lemma_same_keys_same_key_set<V>(s1: Seq<(u128, V)>, s2: Seq<(u128, V)>)
    requires
        s1.len() == s2.len(),
        forall|i: int| 0 <= i < s1.len() ==> s1[i].0 == s2[i].0,
    ensures
        forall|k: u128| seq_has_key(s1, k) == seq_has_key(s2, k),
{
    assert forall|k: u128| seq_has_key(s1, k) == seq_has_key(s2, k) by {
        if seq_has_key(s1, k) {
            let i = seq_key_index(s1, k);
            assert(0 <= i < s1.len() && s1[i].0 == k);
            assert(s2[i].0 == k);
        }
        if seq_has_key(s2, k) {
            let i = seq_key_index(s2, k);
            assert(0 <= i < s2.len() && s2[i].0 == k);
            assert(s1[i].0 == k);
        }
    }
}

/// A map from 128-bit identifier to value, held as a vector of entries with
/// pairwise distinct keys, in insertion order.
pub struct IdMap<V> {
    entries: Vec<(u128, V)>,
}

impl<V> IdMap<V> {
    /// The entries as a sequence, in iteration order.
    pub closed spec fn entries_seq(&self) -> Seq<(u128, V)> {
        self.entries@
    }

    /// Representation invariant: no key occurs twice. Established by the
    /// constructor and preserved by every operation.
    pub open spec fn wf(&self) -> bool {
        seq_unique_keys(self.entries_seq())
    }

    /// Whether some entry carries key `k`.
    pub open spec fn spec_has_key(&self, k: u128) -> bool {
        seq_has_key(self.entries_seq(), k)
    }

    /// The index of the entry with key `k` (meaningful only when present).
    pub open spec fn spec_index_of(&self, k: u128) -> int {
        seq_key_index(self.entries_seq(), k)
    }

    /// The value stored under key `k` (meaningful only when present).
    pub open spec fn spec_get(&self, k: u128) -> V {
        seq_key_value(self.entries_seq(), k)
    }

    /// An empty map.
    pub fn new() -> (r: IdMap<V>)
        ensures
            r.entries_seq() == Seq::<(u128, V)>::empty(),
            r.wf(),
    {
        IdMap { entries: Vec::new() }
    }

    /// The number of entries.
    pub fn len(&self) -> (r: usize)
        ensures
            r == self.entries_seq().len(),
    {
        self.entries.len()
    }

    /// Borrow the entry at position `i` in iteration order.
    pub fn entry_at(&self, i: usize) -> (r: &(u128, V))
        requires
            i < self.entries_seq().len(),
        ensures
            *r == self.entries_seq()[i as int],
    {
        &self.entries[i]
    }

    /// Whether the map holds key `k`.
    pub fn contains(&self, k: u128) -> (r: bool)
        ensures
            r == self.spec_has_key(k),
    {
        let mut i: usize = 0;
        while i < self.entries.len()
            invariant
                i <= self.entries@.len(),
                forall|j: int| 0 <= j < i ==> self.entries@[j].0 != k,
            decreases self.entries@.len() - i,
        {
            if self.entries[i].0 == k {
                proof {
                    assert(self.entries_seq()[i as int].0 == k);
                }
                return true;
            }
            i += 1;
        }
        false
    }

    /// Borrow the value under key `k`, if present.
    pub fn get(&self, k: u128) -> (r: Option<&V>)
        requires
            self.wf(),
        ensures
            r is Some <==> self.spec_has_key(k),
            r matches Some(v) ==> *v == self.spec_get(k),
    {
        let mut i: usize = 0;
        while i < self.entries.len()
            invariant
                i <= self.entries@.len(),
                forall|j: int| 0 <= j < i ==> self.entries@[j].0 != k,
                self.wf(),
            decreases self.entries@.len() - i,
        {
            if self.entries[i].0 == k {
                proof {
                    lemma_key_index_is(self.entries_seq(), k, i as int);
                }
                return Some(&self.entries[i].1);
            }
            i += 1;
        }
        None
    }

    /// Store `v` under key `k`: replace in place when the key is present,
    /// append otherwise.
    pub fn insert(&mut self, k: u128, v: V)
        requires
            old(self).wf(),
        ensures
            final (self).wf(),
            old(self).spec_has_key(k) ==> final (self).entries_seq() == old(
                self,
            ).entries_seq().update(old(self).spec_index_of(k), (k, v)),
            !old(self).spec_has_key(k) ==> final (self).entries_seq() == old(
                self,
            ).entries_seq().push((k, v)),
            final (self).spec_has_key(k),
            final (self).spec_get(k) == v,
            forall|k2: u128|
                k2 != k ==> final (self).spec_has_key(k2) == old(self).spec_has_key(k2),
            forall|k2: u128|
                k2 != k && old(self).spec_has_key(k2) ==> final (self).spec_get(k2) == old(
                    self,
                ).spec_get(k2),
    {
        let ghost orig = self.entries@;
        let mut i: usize = 0;
        while i < self.entries.len()
            invariant
                i <= self.entries@.len(),
                forall|j: int| 0 <= j < i ==> self.entries@[j].0 != k,
                self.wf(),
                self.entries@ == orig,
                orig == old(self).entries_seq(),
            decreases self.entries@.len() - i,
        {
            if self.entries[i].0 == k {
                let ghost pos = i as int;
                let _old_entry = self.entries.remove(i);
                self.entries.insert(i, (k, v));
                proof {
                    let cur = self.entries@;
                    assert(cur =~= orig.update(pos, (k, v)));
                    assert(orig[pos].0 == k);
                    lemma_key_index_is(orig, k, pos);
                    assert forall|a: int| 0 <= a < cur.len() implies cur[a].0 == orig[a].0 by {}
                    assert(seq_unique_keys(cur));
                    lemma_same_keys_same_key_set(orig, cur);
                    lemma_key_index_is(cur, k, pos);
                    assert forall|k2: u128| k2 != k && seq_has_key(orig, k2) implies seq_key_value(
                        cur,
                        k2,
                    ) == seq_key_value(orig, k2) by {
                        let j = seq_key_index(orig, k2);
                        assert(0 <= j < orig.len() && orig[j].0 == k2);
                        lemma_key_index_is(orig, k2, j);
                        assert(j != pos);
                        assert(cur[j] == orig[j]);
                        lemma_key_index_is(cur, k2, j);
                    }
                }
                return ;
            }
            i += 1;
        }
        self.entries.push((k, v));
        proof {
            let cur = self.entries@;
            let n = orig.len() as int;
            assert(cur =~= orig.push((k, v)));
            assert(forall|j: int| 0 <= j < n ==> orig[j].0 != k);
            assert(!seq_has_key(orig, k)) by {
                if seq_has_key(orig, k) {
                    let j = seq_key_index(orig, k);
                    assert(0 <= j < orig.len() && orig[j].0 == k);
                }
            }
            assert(seq_unique_keys(cur));
            lemma_key_index_is(cur, k, n);
            assert forall|k2: u128| k2 != k implies seq_has_key(cur, k2) == seq_has_key(
                orig,
                k2,
            ) by {
                if seq_has_key(orig, k2) {
                    let j = seq_key_index(orig, k2);
                    assert(0 <= j < orig.len() && orig[j].0 == k2);
                    assert(cur[j].0 == k2);
                }
                if seq_has_key(cur, k2) {
                    let j = seq_key_index(cur, k2);
                    assert(0 <= j < cur.len() && cur[j].0 == k2);
                    assert(j < n);
                    assert(orig[j].0 == k2);
                }
            }
            assert forall|k2: u128| k2 != k && seq_has_key(orig, k2) implies seq_key_value(cur, k2)
                == seq_key_value(orig, k2) by {
                let j = seq_key_index(orig, k2);
                assert(0 <= j < orig.len() && orig[j].0 == k2);
                lemma_key_index_is(orig, k2, j);
                assert(cur[j] == orig[j]);
                lemma_key_index_is(cur, k2, j);
            }
        }
    }

    /// Remove and return the value under key `k`, if present.
    pub fn remove(&mut self, k: u128) -> (r: Option<V>)
        requires
            old(self).wf(),
        ensures
            final (self).wf(),
            r is Some <==> old(self).spec_has_key(k),
            r matches Some(v) ==> v == old(self).spec_get(k) && final (self).entries_seq() == old(
                self,
            ).entries_seq().remove(old(self).spec_index_of(k)),
            r is None ==> final (self).entries_seq() == old(self).entries_seq(),
            !final (self).spec_has_key(k),
            forall|k2: u128|
                k2 != k ==> final (self).spec_has_key(k2) == old(self).spec_has_key(k2),
            forall|k2: u128|
                k2 != k && old(self).spec_has_key(k2) ==> final (self).spec_get(k2) == old(
                    self,
                ).spec_get(k2),
    {
        let ghost orig = self.entries@;
        let mut i: usize = 0;
        while i < self.entries.len()
            invariant
                i <= self.entries@.len(),
                forall|j: int| 0 <= j < i ==> self.entries@[j].0 != k,
                self.wf(),
                self.entries@ == orig,
                orig == old(self).entries_seq(),
            decreases self.entries@.len() - i,
        {
            if self.entries[i].0 == k {
                let ghost pos = i as int;
                proof {
                    lemma_key_index_is(orig, k, pos);
                }
                let entry = self.entries.remove(i);
                proof {
                    let cur = self.entries@;
                    assert(cur =~= orig.remove(pos));
                    assert forall|a: int| 0 <= a < cur.len() implies cur[a] == (if a < pos {
                        orig[a]
                    } else {
                        orig[a + 1]
                    }) by {}
                    assert(seq_unique_keys(cur));
                    assert forall|k2: u128| k2 != k && seq_has_key(orig, k2) implies seq_has_key(
                        cur,
                        k2,
                    ) && seq_key_value(cur, k2) == seq_key_value(orig, k2) by {
                        let j = seq_key_index(orig, k2);
                        assert(0 <= j < orig.len() && orig[j].0 == k2);
                        lemma_key_index_is(orig, k2, j);
                        assert(j != pos);
                        let j2: int = if j < pos {
                            j
                        } else {
                            j - 1
                        };
                        assert(cur[j2] == orig[j]);
                        lemma_key_index_is(cur, k2, j2);
                    }
                    assert forall|k2: u128| seq_has_key(cur, k2) implies k2 != k && seq_has_key(
                        orig,
                        k2,
                    ) by {
                        let j = seq_key_index(cur, k2);
                        assert(0 <= j < cur.len() && cur[j].0 == k2);
                        let j2: int = if j < pos {
                            j
                        } else {
                            j + 1
                        };
                        assert(orig[j2].0 == k2);
                        assert(j2 != pos);
                        assert(orig[pos].0 == k);
                    }
                }
                return Some(entry.1);
            }
            i += 1;
        }
        None
    }
}

/// The entity store: the in-simulation date, all teams and players keyed by
/// identifier, and today's games.
pub struct Database {
    pub date: Date,
    pub teams: IdMap<Team>,
    pub players: IdMap<Player>,
    pub games_today: Vec<Game>,
}

impl Database {
    /// Representation invariant of the two entity maps.
    pub open spec fn wf(&self) -> bool {
        self.teams.wf() && self.players.wf()
    }

    /// An empty store at the default date.
    pub fn new() -> (r: Database)
        ensures
            r.wf(),
            r.teams.entries_seq() == Seq::<(u128, Team)>::empty(),
            r.players.entries_seq() == Seq::<(u128, Player)>::empty(),
            r.games_today@ == Seq::<Game>::empty(),
            r.date == (Date { season: 0, day: 0 }),
    {
        Database {
            date: Date { season: 0, day: 0 },
            teams: IdMap::new(),
            players: IdMap::new(),
            games_today: Vec::new(),
        }
    }

    /// The store's global invariants, checked after every mutation:
    /// no entity's identifier is nil, every map key equals the mapped
    /// entity's own identifier, every team's rosters resolve without
    /// duplicates, and every game's team and player references resolve.
    pub open spec fn consistent(&self) -> bool {
        &&& forall|i: int|
            0 <= i < self.teams.entries_seq().len() ==> (#[trigger] self.teams.entries_seq()[
                i
            ]).1.id.0 == self.teams.entries_seq()[i].0
        &&& forall|i: int|
            0 <= i < self.players.entries_seq().len() ==> (#[trigger] self.players.entries_seq()[
                i
            ]).1.id.0 == self.players.entries_seq()[i].0
        &&& forall|i: int|
            0 <= i < self.teams.entries_seq().len() ==> (#[trigger] self.teams.entries_seq()[
                i
            ]).1.ok_spec(self)
        &&& forall|i: int|
            0 <= i < self.players.entries_seq().len() ==> (#[trigger] self.players.entries_seq()[
                i
            ]).1.id.0 != 0
        &&& forall|i: int|
            0 <= i < self.games_today@.len() ==> (#[trigger] self.games_today@[i]).ok_spec(self)
    }

    /// Run every global invariant and report every violation found, one line
    /// per problem. Returns `Ok` exactly when the store is consistent.
    pub fn check_consistency(&self) -> (r: Result<(), String>)
        ensures
            r is Ok <==> self.consistent(),
    {
        let mut problems: Vec<String> = Vec::new();
        let mut i: usize = 0;
        while i < self.teams.len()
            invariant
                i <= self.teams.entries_seq().len(),
                problems@.len() == 0 <==> (forall|j: int|
                    0 <= j < i ==> (#[trigger] self.teams.entries_seq()[j]).1.id.0
                        == self.teams.entries_seq()[j].0),
            decreases self.teams.entries_seq().len() - i,
        {
            let entry = self.teams.entry_at(i);
            if entry.1.id.0 != entry.0 {
                problems.push(key_mismatch_line("team", entry.1.id.0, entry.0));
            }
            i += 1;
        }
        let ghost teams_keyed_ok = forall|j: int|
            0 <= j < self.teams.entries_seq().len() ==> (#[trigger] self.teams.entries_seq()[
                j
            ]).1.id.0 == self.teams.entries_seq()[j].0;
        let mut i: usize = 0;
        while i < self.players.len()
            invariant
                i <= self.players.entries_seq().len(),
                problems@.len() == 0 <==> (teams_keyed_ok && (forall|j: int|
                    0 <= j < i ==> (#[trigger] self.players.entries_seq()[j]).1.id.0
                        == self.players.entries_seq()[j].0)),
            decreases self.players.entries_seq().len() - i,
        {
            let entry = self.players.entry_at(i);
            if entry.1.id.0 != entry.0 {
                problems.push(key_mismatch_line("player", entry.1.id.0, entry.0));
            }
            i += 1;
        }
        let ghost players_keyed_ok = forall|j: int|
            0 <= j < self.players.entries_seq().len() ==> (#[trigger] self.players.entries_seq()[
                j
            ]).1.id.0 == self.players.entries_seq()[j].0;
        let ghost keys_ok = teams_keyed_ok && players_keyed_ok;
        let mut i: usize = 0;
        while i < self.teams.len()
            invariant
                i <= self.teams.entries_seq().len(),
                problems@.len() == 0 <==> (keys_ok && (forall|j: int|
                    0 <= j < i ==> (#[trigger] self.teams.entries_seq()[j]).1.ok_spec(self))),
            decreases self.teams.entries_seq().len() - i,
        {
            let entry = self.teams.entry_at(i);
            let errors = entry.1.problems(self);
            let ghost base = problems@.len() as int;
            let mut j: usize = 0;
            while j < errors.len()
                invariant
                    j <= errors@.len(),
                    problems@.len() == base + j,
                decreases errors@.len() - j,
            {
                problems.push(entity_problem_line("team", entry.1.id.0, &errors[j]));
                j += 1;
            }
            i += 1;
        }
        let ghost teams_ok = forall|j: int|
            0 <= j < self.teams.entries_seq().len() ==> (#[trigger] self.teams.entries_seq()[
                j
            ]).1.ok_spec(self);
        let mut i: usize = 0;
        while i < self.players.len()
            invariant
                i <= self.players.entries_seq().len(),
                problems@.len() == 0 <==> (keys_ok && teams_ok && (forall|j: int|
                    0 <= j < i ==> (#[trigger] self.players.entries_seq()[j]).1.id.0 != 0)),
            decreases self.players.entries_seq().len() - i,
        {
            let entry = self.players.entry_at(i);
            let errors = entry.1.problems(self);
            let ghost base = problems@.len() as int;
            let mut j: usize = 0;
            while j < errors.len()
                invariant
                    j <= errors@.len(),
                    problems@.len() == base + j,
                decreases errors@.len() - j,
            {
                problems.push(entity_problem_line("player", entry.1.id.0, &errors[j]));
                j += 1;
            }
            i += 1;
        }
        let ghost players_ok = forall|j: int|
            0 <= j < self.players.entries_seq().len() ==> (#[trigger] self.players.entries_seq()[
                j
            ]).1.id.0 != 0;
        let mut i: usize = 0;
        while i < self.games_today.len()
            invariant
                i <= self.games_today@.len(),
                problems@.len() == 0 <==> (keys_ok && teams_ok && players_ok && (forall|j: int|
                    0 <= j < i ==> (#[trigger] self.games_today@[j]).ok_spec(self))),
            decreases self.games_today@.len() - i,
        {
            let game = &self.games_today[i];
            let errors = game.problems(self);
            let ghost base = problems@.len() as int;
            let mut j: usize = 0;
            while j < errors.len()
                invariant
                    j <= errors@.len(),
                    problems@.len() == base + j,
                decreases errors@.len() - j,
            {
                problems.push(entity_problem_line("game", game.id.0, &errors[j]));
                j += 1;
            }
            i += 1;
        }
        if problems.len() == 0 {
            Ok(())
        } else {
            let mut joined = String::new();
            let mut i: usize = 0;
            while i < problems.len()
                decreases problems@.len() - i,
            {
                if i > 0 {
                    joined.append("\n");
                }
                joined.append(problems[i].as_str());
                i += 1;
            }
            Err(joined)
        }
    }

    /// Borrow the player an identifier refers to. The caller must have
    /// validated the reference: looking up a dangling identifier is a defect,
    /// not a runtime condition, so this accessor is contractually infallible.
    pub fn player(&self, id: PlayerId) -> (r: &Player)
        requires
            self.wf(),
            self.players.spec_has_key(id.0),
        ensures
            *r == self.players.spec_get(id.0),
    {
        let looked_up = self.players.get(id.0);
        match looked_up {
            Some(p) => p,
            None => {
                proof {
                    assert(false);
                }
                unreached()
            },
        }
    }

    /// Remove and return the stored team with this identifier, for a
    /// modify-and-put-back update.
    pub fn take_team(&mut self, id: crate::id::TeamId) -> (r: Team)
        requires
            old(self).wf(),
            old(self).teams.spec_has_key(id.0),
        ensures
            final (self).wf(),
            r == old(self).teams.spec_get(id.0),
            !final (self).teams.spec_has_key(id.0),
            forall|k: u128|
                k != id.0 ==> final (self).teams.spec_has_key(k) == old(self).teams.spec_has_key(
                    k,
                ),
            forall|k: u128|
                k != id.0 && old(self).teams.spec_has_key(k) ==> final (self).teams.spec_get(k)
                    == old(self).teams.spec_get(k),
            final (self).players == old(self).players,
            final (self).games_today == old(self).games_today,
            final (self).date == old(self).date,
    {
        let taken = self.teams.remove(id.0);
        match taken {
            Some(t) => t,
            None => {
                proof {
                    assert(false);
                }
                unreached()
            },
        }
    }

    /// Store a team under its own identifier; the entry moves to the end of
    /// the iteration order.
    pub fn put_team(&mut self, team: Team)
        requires
            old(self).wf(),
        ensures
            final (self).wf(),
            final (self).teams.spec_has_key(team.id.0),
            final (self).teams.spec_get(team.id.0) == team,
            forall|k: u128|
                k != team.id.0 ==> final (self).teams.spec_has_key(k) == old(
                    self,
                ).teams.spec_has_key(k),
            forall|k: u128|
                k != team.id.0 && old(self).teams.spec_has_key(k) ==> final (self).teams.spec_get(
                    k,
                ) == old(self).teams.spec_get(k),
            final (self).players == old(self).players,
            final (self).games_today == old(self).games_today,
            final (self).date == old(self).date,
    {
        let key = team.id.0;
        self.teams.insert(key, team);
    }

    /// Borrow the team an identifier refers to; see [`Database::player`] for
    /// the contract's shape.
    pub fn team(&self, id: crate::id::TeamId) -> (r: &Team)
        requires
            self.wf(),
            self.teams.spec_has_key(id.0),
        ensures
            *r == self.teams.spec_get(id.0),
    {
        let looked_up = self.teams.get(id.0);
        match looked_up {
            Some(t) => t,
            None => {
                proof {
                    assert(false);
                }
                unreached()
            },
        }
    }
}

/// One diagnostic line for an entity stored under the wrong key.
fn key_mismatch_line(kind: &str, entity_id: u128, key: u128) -> String {
    let mut line = String::from_str("- ");
    line.append(kind);
    line.append(" ");
    let rendered = id_string(entity_id);
    line.append(rendered.as_str());
    line.append(": keyed with ");
    let rendered_key = id_string(key);
    line.append(rendered_key.as_str());
    line
}

/// One diagnostic line for a validation failure of an entity.
fn entity_problem_line(kind: &str, entity_id: u128, error: &DatabaseError) -> String {
    let mut line = String::from_str("- ");
    line.append(kind);
    line.append(" ");
    let rendered = id_string(entity_id);
    line.append(rendered.as_str());
    line.append(": ");
    let message = error.message();
    line.append(message.as_str());
    line
}

} // verus!
