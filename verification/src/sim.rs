//! The per-game state machine: one play event per invocation, mutating the
//! count, outs, baserunners, score and inning, and emitting one
//! human-readable update per event.
//!
//! Which pitch outcome occurs is decided by the statistical outcome model
//! from fresh generator draws; the handlers here take the decided outcome
//! and perform the state transition it calls for.

use crate::database::Database;
use crate::game::spec_inning_advance;
use crate::game::Inning;
use crate::game::AwayHome;
use crate::game::Game;
use crate::game::GameTeam;
use crate::game::TeamSelect;
use crate::id::PlayerId;
use crate::id::TeamId;
use crate::player::lemma_generate_advances;
use crate::player::spec_generate;
use crate::player::Player;
use crate::rng::spec_advance;
use crate::rng::pick_index_spec;
use crate::rng::spec_draw;
use crate::rng::Rng;
use crate::rng::RngModel;
use crate::rng::RAW_BOUND;
use crate::team::Team;
use crate::util::dec_spec;
use crate::util::dec_u64;
use vstd::prelude::*;
use vstd::string::StringExecFns;

verus! {

/// Balls that complete a walk.
pub const BALLS_NEEDED: u8 = 4;

/// Strikes that complete a strikeout.
pub const STRIKES_NEEDED: u8 = 3;

/// Outs that end a half-inning.
pub const OUTS_NEEDED: u8 = 3;

/// The base whose occupation scores a run.
pub const HOME_BASE: u8 = 4;

/// The pair of sides with the batting side's lineup cursor advanced by one.
pub open spec fn spec_bump_slot(teams: AwayHome<GameTeam>, side: TeamSelect) -> AwayHome<
    GameTeam,
> {
    match side {
        TeamSelect::Away => AwayHome {
            away: GameTeam { lineup_slot: (teams.away.lineup_slot + 1) as usize, ..teams.away },
            home: teams.home,
        },
        TeamSelect::Home => AwayHome {
            away: teams.away,
            home: GameTeam { lineup_slot: (teams.home.lineup_slot + 1) as usize, ..teams.home },
        },
    }
}

/// The pair of sides with `k` runs added to the given side's total.
pub open spec fn spec_add_runs(teams: AwayHome<GameTeam>, side: TeamSelect, k: int) -> AwayHome<
    GameTeam,
> {
    match side {
        TeamSelect::Away => AwayHome {
            away: GameTeam { runs: (teams.away.runs + k) as u16, ..teams.away },
            home: teams.home,
        },
        TeamSelect::Home => AwayHome {
            away: teams.away,
            home: GameTeam { runs: (teams.home.runs + k) as u16, ..teams.home },
        },
    }
}

/// Whether some runner in `brs` stands on base `b`.
pub open spec fn spec_base_in(brs: Seq<(PlayerId, u8)>, b: int) -> bool {
    exists|i: int| 0 <= i < brs.len() && brs[i].1 == b
}

/// Whether a runner on `base` is forced forward by a walk: every base below
/// it down to first is occupied, leaving no gap to fall back into.
pub open spec fn spec_forced(brs: Seq<(PlayerId, u8)>, base: u8) -> bool {
    forall|b: int| 1 <= b < base ==> spec_base_in(brs, b)
}

/// The base a runner ends on after a walk (occupancy judged against the
/// pre-walk runner list).
pub open spec fn spec_walk_base(brs: Seq<(PlayerId, u8)>, e: (PlayerId, u8)) -> int {
    if spec_forced(brs, e.1) {
        e.1 + 1
    } else {
        e.1 as int
    }
}

/// The runners still on base after a walk resolves the first `n` entries of
/// `brs`, in original order; runners reaching home are dropped (they score).
pub open spec fn spec_walk_kept(brs: Seq<(PlayerId, u8)>, n: int) -> Seq<(PlayerId, u8)>
    decreases n,
{
    if n <= 0 {
        Seq::empty()
    } else {
        let rest = spec_walk_kept(brs, n - 1);
        let e = brs[n - 1];
        if spec_walk_base(brs, e) >= HOME_BASE {
            rest
        } else {
            rest.push((e.0, spec_walk_base(brs, e) as u8))
        }
    }
}

/// Runs scored when a walk resolves the first `n` entries of `brs`.
pub open spec fn spec_walk_runs(brs: Seq<(PlayerId, u8)>, n: int) -> int
    decreases n,
{
    if n <= 0 {
        0
    } else {
        spec_walk_runs(brs, n - 1) + (if spec_walk_base(brs, brs[n - 1]) >= HOME_BASE {
            1int
        } else {
            0int
        })
    }
}

/// The runners still on base after a hit worth `bases` bases advances the
/// first `n` entries of `brs`; runners reaching home are dropped.
pub open spec fn spec_hit_kept(brs: Seq<(PlayerId, u8)>, bases: u8, n: int) -> Seq<(PlayerId, u8)>
    decreases n,
{
    if n <= 0 {
        Seq::empty()
    } else {
        let rest = spec_hit_kept(brs, bases, n - 1);
        let e = brs[n - 1];
        if e.1 + bases >= HOME_BASE {
            rest
        } else {
            rest.push((e.0, (e.1 + bases) as u8))
        }
    }
}

/// Runs scored when a hit worth `bases` bases advances the first `n`
/// entries of `brs`.
pub open spec fn spec_hit_runs(brs: Seq<(PlayerId, u8)>, bases: u8, n: int) -> int
    decreases n,
{
    if n <= 0 {
        0
    } else {
        spec_hit_runs(brs, bases, n - 1) + (if brs[n - 1].1 + bases >= HOME_BASE {
            1int
        } else {
            0int
        })
    }
}

/// Scored runs never outnumber the runners resolved.
proof fn lemma_walk_runs_bound(brs: Seq<(PlayerId, u8)>, n: int)
    requires
        n <= brs.len(),
    ensures
        0 <= spec_walk_runs(brs, n) <= (if n >= 0 {
            n
        } else {
            0
        }),
    decreases n,
{
    if n > 0 {
        lemma_walk_runs_bound(brs, n - 1);
    }
}

/// Scored runs never outnumber the runners resolved.
proof fn lemma_hit_runs_bound(brs: Seq<(PlayerId, u8)>, bases: u8, n: int)
    requires
        n <= brs.len(),
    ensures
        0 <= spec_hit_runs(brs, bases, n) <= (if n >= 0 {
            n
        } else {
            0
        }),
    decreases n,
{
    if n > 0 {
        lemma_hit_runs_bound(brs, bases, n - 1);
    }
}

impl Game {
    /// Machine-limit bounds on the live event state: the count sits below
    /// its thresholds, runs and lineup cursors have room for one event's
    /// increments, the inning number can advance, and every runner stands on
    /// a base an event's advancement keeps within range.
    pub open spec fn counts_ok(&self) -> bool {
        &&& self.balls < BALLS_NEEDED
        &&& self.strikes < STRIKES_NEEDED
        &&& self.outs < OUTS_NEEDED
        &&& self.teams.away.runs + self.baserunners@.len() + 1 <= u16::MAX
        &&& self.teams.home.runs + self.baserunners@.len() + 1 <= u16::MAX
        &&& self.teams.away.lineup_slot + 2 <= usize::MAX
        &&& self.teams.home.lineup_slot + 2 <= usize::MAX
        &&& self.inning.spec_number() < usize::MAX
        &&& forall|i: int|
            0 <= i < self.baserunners@.len() ==> 1 <= (#[trigger] self.baserunners@[i]).1 <= 250
    }

    /// Register one out. The third out of a half-inning resets the count
    /// and the outs, clears the bases, sends the next batter up, and
    /// advances the inning by exactly one phase; an earlier out only
    /// increments the tally.
    pub fn handle_out(&mut self)
        requires
            old(self).outs < OUTS_NEEDED,
            old(self).teams.away.lineup_slot < usize::MAX,
            old(self).teams.home.lineup_slot < usize::MAX,
            old(self).inning.spec_number() < usize::MAX,
        ensures
            old(self).outs + 1 < OUTS_NEEDED ==> *final (self) == (Game {
                outs: (old(self).outs + 1) as u8,
                ..*old(self)
            }),
            old(self).outs + 1 == OUTS_NEEDED ==> final (self).baserunners@.len() == 0 && *final (self) == (Game {
                balls: 0,
                strikes: 0,
                outs: 0,
                at_bat: None,
                baserunners: final (self).baserunners,
                inning: spec_inning_advance(old(self).inning),
                teams: spec_bump_slot(old(self).teams, old(self).inning.spec_batting()),
                ..*old(self)
            }),
    {
        self.outs += 1;
        if self.outs >= OUTS_NEEDED {
            self.balls = 0;
            self.strikes = 0;
            self.outs = 0;
            self.at_bat = None;
            let side = self.inning.batting();
            let slot = self.teams.select_mut(side);
            slot.lineup_slot += 1;
            self.baserunners = Vec::new();
            self.inning.advance();
        }
    }

    /// Score a home run: clear the bases and credit the batting side one run
    /// per cleared runner plus one for the batter. The message reads "solo"
    /// exactly when one run scores, and gives the run count otherwise.
    pub fn handle_home_run(&mut self, batter: &Player) -> (msg: String)
        requires
            old(self).counts_ok(),
        ensures
            final (self).baserunners@.len() == 0,
            *final (self) == (Game {
                baserunners: final (self).baserunners,
                teams: spec_add_runs(
                    old(self).teams,
                    old(self).inning.spec_batting(),
                    old(self).baserunners@.len() + 1int,
                ),
                ..*old(self)
            }),
            old(self).baserunners@.len() == 0 ==> msg@ == batter.name@ + " hits a solo home run!"@,
            old(self).baserunners@.len() > 0 ==> msg@ == batter.name@ + " hits a "@ + dec_spec(
                old(self).baserunners@.len() + 1int,
            ) + "-run home run!"@,
    {
        let cleared = self.baserunners.len();
        self.baserunners = Vec::new();
        let runs: u16 = (cleared + 1) as u16;
        let side = self.inning.batting();
        let team = self.teams.select_mut(side);
        team.runs += runs;
        let mut msg = batter.name.clone();
        if runs == 1 {
            msg.append(" hits a solo home run!");
        } else {
            msg.append(" hits a ");
            let count = dec_u64(runs as u64);
            msg.append(count.as_str());
            msg.append("-run home run!");
        }
        msg
    }

    /// Decide whether the game is over and, if so, set the winner (exactly
    /// once), advance both teams' rotation cursors for their next start, and
    /// emit the final score line.
    pub fn handle_game_over(&mut self, database: &mut Database) -> (r: Option<String>)
        requires
            old(database).wf(),
            old(self).winner is None,
            old(database).teams.spec_has_key(old(self).teams.away.id.0),
            old(database).teams.spec_has_key(old(self).teams.home.id.0),
            old(database).teams.spec_get(old(self).teams.away.id.0).rotation_slot + 2
                <= usize::MAX,
            old(database).teams.spec_get(old(self).teams.home.id.0).rotation_slot + 2
                <= usize::MAX,
            old(database).teams.spec_get(old(self).teams.away.id.0).id == old(self).teams.away.id,
            old(database).teams.spec_get(old(self).teams.home.id.0).id == old(self).teams.home.id,
        ensures
            final (database).wf(),
            spec_game_over_winner(*old(self)) is None ==> *final (self) == *old(self) && *final (database) == *old(database) && r is None,
            spec_game_over_winner(*old(self)) matches Some(sel) ==> {
                &&& *final (self) == (Game {
                    winner: Some(old(self).teams.spec_select(sel).id),
                    ..*old(self)
                })
                &&& r matches Some(m) && m@ == "Game over. "@ + old(database).teams.spec_get(
                    old(self).teams.away.id.0,
                ).nickname@ + " "@ + dec_spec(old(self).teams.away.runs as int) + ", "@ + old(database).teams.spec_get(old(self).teams.home.id.0).nickname@ + " "@ + dec_spec(
                    old(self).teams.home.runs as int,
                )
                &&& final (database).players == old(database).players
                &&& final (database).games_today == old(database).games_today
                &&& final (database).date == old(database).date
                &&& forall|k: u128|
                    final (database).teams.spec_has_key(k) == old(database).teams.spec_has_key(k)
                &&& forall|k: u128|
                    k != old(self).teams.away.id.0 && k != old(self).teams.home.id.0 && old(database).teams.spec_has_key(k) ==> final (database).teams.spec_get(k) == old(database).teams.spec_get(k)
                &&& old(self).teams.away.id.0 != old(self).teams.home.id.0 ==> final (database).teams.spec_get(old(self).teams.away.id.0) == (Team {
                    rotation_slot: (old(database).teams.spec_get(
                        old(self).teams.away.id.0,
                    ).rotation_slot + 1) as usize,
                    ..old(database).teams.spec_get(old(self).teams.away.id.0)
                }) && final (database).teams.spec_get(old(self).teams.home.id.0) == (Team {
                    rotation_slot: (old(database).teams.spec_get(
                        old(self).teams.home.id.0,
                    ).rotation_slot + 1) as usize,
                    ..old(database).teams.spec_get(old(self).teams.home.id.0)
                })
                &&& old(self).teams.away.id.0 == old(self).teams.home.id.0 ==> final (database).teams.spec_get(old(self).teams.away.id.0) == (Team {
                    rotation_slot: (old(database).teams.spec_get(
                        old(self).teams.away.id.0,
                    ).rotation_slot + 2) as usize,
                    ..old(database).teams.spec_get(old(self).teams.away.id.0)
                })
            },
    {
        let over = match self.inning {
            Inning::Mid(n) => {
                if n >= 9 && self.teams.away.runs < self.teams.home.runs {
                    Some(TeamSelect::Home)
                } else {
                    None
                }
            },
            Inning::End(n) => {
                if n >= 9 && self.teams.away.runs < self.teams.home.runs {
                    Some(TeamSelect::Home)
                } else if n >= 9 && self.teams.away.runs > self.teams.home.runs {
                    Some(TeamSelect::Away)
                } else {
                    None
                }
            },
            _ => None,
        };
        let sel = match over {
            Some(sel) => sel,
            None => {
                return None;
            },
        };
        self.winner = Some(self.teams.select(sel).id);
        let away_nickname = database.team(self.teams.away.id).nickname.clone();
        let home_nickname = database.team(self.teams.home.id).nickname.clone();
        let mut bumped = database.take_team(self.teams.away.id);
        bumped.rotation_slot += 1;
        database.put_team(bumped);
        let mut bumped = database.take_team(self.teams.home.id);
        bumped.rotation_slot += 1;
        database.put_team(bumped);
        let mut msg = String::from_str("Game over. ");
        msg.append(away_nickname.as_str());
        msg.append(" ");
        let away_runs = dec_u64(self.teams.away.runs as u64);
        msg.append(away_runs.as_str());
        msg.append(", ");
        msg.append(home_nickname.as_str());
        msg.append(" ");
        let home_runs = dec_u64(self.teams.home.runs as u64);
        msg.append(home_runs.as_str());
        Some(msg)
    }

    /// Choose the defender on the play: a uniform pick over the fielding
    /// team's lineup, consuming exactly one draw.
    pub fn pick_fielder(&self, rng: &mut Rng, database: &Database) -> (r: PlayerId)
        requires
            old(rng).wf(),
            database.wf(),
            database.teams.spec_has_key(
                self.teams.spec_select(self.inning.spec_fielding()).id.0,
            ),
            database.teams.spec_get(
                self.teams.spec_select(self.inning.spec_fielding()).id.0,
            ).lineup@.len() > 0,
        ensures
            final (rng).wf(),
            final (rng)@ == spec_draw(old(rng)@).1,
            ({
                let lineup = database.teams.spec_get(
                    self.teams.spec_select(self.inning.spec_fielding()).id.0,
                ).lineup@;
                r == lineup[pick_index_spec(spec_draw(old(rng)@).0, lineup.len())]
            }),
    {
        let team_id = self.teams.select(self.inning.fielding()).id;
        let team = database.team(team_id);
        let picked = rng.pick(&team.lineup);
        match picked {
            Some(p) => p,
            None => {
                proof {
                    assert(false);
                }
                unreached()
            },
        }
    }

    /// Apply a decided pitch outcome to the plate appearance: update the
    /// count (walking or striking out the batter at its thresholds), record
    /// a fielded out's description, or resolve the batted ball, and emit the
    /// event's update line.
    #[verifier::rlimit(100)]
    pub fn apply_pitch(
        &mut self,
        database: &Database,
        batter: &Player,
        outcome: PitchOutcome,
    ) -> (msg: String)
        requires
            old(self).counts_ok(),
            old(self).inning is Top || old(self).inning is Bottom,
            database.wf(),
            forall|i: int|
                0 <= i < old(self).baserunners@.len() ==> database.players.spec_has_key(
                    (#[trigger] old(self).baserunners@[i]).0.0,
                ),
            outcome matches PitchOutcome::Fielded { fielder, flyout } ==> database.players.spec_has_key(fielder.0),
            outcome matches PitchOutcome::Hit { bases } ==> 1 <= bases <= 4,
        ensures
            outcome == PitchOutcome::Ball && old(self).balls + 1 < BALLS_NEEDED ==> *final (self)
                == (Game { balls: (old(self).balls + 1) as u8, ..*old(self) }) && msg@ == "Ball. "@
                + dec_spec(old(self).balls + 1) + "-"@ + dec_spec(old(self).strikes as int),
            outcome == PitchOutcome::Ball && old(self).balls + 1 == BALLS_NEEDED ==> final (self).baserunners@ == spec_walk_kept(
                old(self).baserunners@,
                old(self).baserunners@.len() as int,
            ).push((batter.id, 1u8)) && *final (self) == (Game {
                balls: 0,
                strikes: 0,
                at_bat: None,
                baserunners: final (self).baserunners,
                teams: spec_bump_slot(
                    spec_add_runs(
                        old(self).teams,
                        old(self).inning.spec_batting(),
                        spec_walk_runs(old(self).baserunners@, old(self).baserunners@.len() as int),
                    ),
                    old(self).inning.spec_batting(),
                ),
                ..*old(self)
            }) && msg@ == batter.name@ + " draws a walk."@,
            (outcome == PitchOutcome::StrikeLooking || outcome == PitchOutcome::StrikeSwinging)
                && old(self).strikes + 1 < STRIKES_NEEDED ==> *final (self) == (Game {
                strikes: (old(self).strikes + 1) as u8,
                ..*old(self)
            }) && msg@ == "Strike, "@ + (if outcome == PitchOutcome::StrikeLooking {
                "looking"@
            } else {
                "swinging"@
            }) + ". "@ + dec_spec(old(self).balls as int) + "-"@ + dec_spec(old(self).strikes + 1),
            (outcome == PitchOutcome::StrikeLooking || outcome == PitchOutcome::StrikeSwinging)
                && old(self).strikes + 1 == STRIKES_NEEDED ==> msg@ == batter.name@
                + " strikes out "@ + (if outcome == PitchOutcome::StrikeLooking {
                "looking"@
            } else {
                "swinging"@
            }) + "."@,
            (outcome == PitchOutcome::StrikeLooking || outcome == PitchOutcome::StrikeSwinging)
                && old(self).strikes + 1 == STRIKES_NEEDED && old(self).outs + 1 < OUTS_NEEDED
                ==> *final (self) == (Game {
                balls: 0,
                strikes: 0,
                outs: (old(self).outs + 1) as u8,
                at_bat: None,
                teams: spec_bump_slot(old(self).teams, old(self).inning.spec_batting()),
                ..*old(self)
            }),
            (outcome == PitchOutcome::StrikeLooking || outcome == PitchOutcome::StrikeSwinging)
                && old(self).strikes + 1 == STRIKES_NEEDED && old(self).outs + 1 == OUTS_NEEDED
                ==> final (self).baserunners@.len() == 0 && *final (self) == (Game {
                balls: 0,
                strikes: 0,
                outs: 0,
                at_bat: None,
                baserunners: final (self).baserunners,
                inning: spec_inning_advance(old(self).inning),
                teams: spec_bump_slot(old(self).teams, old(self).inning.spec_batting()),
                ..*old(self)
            }),
            outcome == PitchOutcome::Foul ==> *final (self) == (Game {
                strikes: (if old(self).strikes + 1 < STRIKES_NEEDED {
                    (old(self).strikes + 1) as u8
                } else {
                    (STRIKES_NEEDED - 1) as u8
                }),
                ..*old(self)
            }) && msg@ == "Foul Ball. "@ + dec_spec(old(self).balls as int) + "-"@ + dec_spec(
                if old(self).strikes + 1 < STRIKES_NEEDED {
                    old(self).strikes + 1
                } else {
                    STRIKES_NEEDED - 1
                },
            ),
            outcome matches PitchOutcome::Fielded { fielder, flyout } ==> *final (self) == *old(
                self,
            ) && msg@ == batter.name@ + " hit a "@ + (if flyout {
                "flyout"@
            } else {
                "ground out"@
            }) + " to "@ + database.players.spec_get(fielder.0).name@ + "."@,
            outcome == PitchOutcome::HomeRun ==> final (self).baserunners@.len() == 0 && *final (self) == (Game {
                baserunners: final (self).baserunners,
                teams: spec_add_runs(
                    old(self).teams,
                    old(self).inning.spec_batting(),
                    old(self).baserunners@.len() + 1int,
                ),
                ..*old(self)
            }),
            outcome == PitchOutcome::HomeRun && old(self).baserunners@.len() == 0 ==> msg@
                == batter.name@ + " hits a solo home run!"@,
            outcome == PitchOutcome::HomeRun && old(self).baserunners@.len() > 0 ==> msg@
                == batter.name@ + " hits a "@ + dec_spec(old(self).baserunners@.len() + 1int)
                + "-run home run!"@,
            outcome matches PitchOutcome::Hit { bases } ==> final (self).baserunners@
                == spec_hit_kept(
                old(self).baserunners@,
                bases,
                old(self).baserunners@.len() as int,
            ) && *final (self) == (Game {
                baserunners: final (self).baserunners,
                teams: spec_add_runs(
                    old(self).teams,
                    old(self).inning.spec_batting(),
                    spec_hit_runs(old(self).baserunners@, bases, old(self).baserunners@.len() as int),
                ),
                ..*old(self)
            }) && msg@ == spec_hit_lead(batter.name@, bases) + spec_hit_scores_suffix(
                old(self).baserunners@,
                bases,
                database,
                old(self).baserunners@.len() as int,
            ),
    {
        match outcome {
            PitchOutcome::Ball => self.handle_ball(batter),
            PitchOutcome::StrikeLooking => self.handle_strike(batter, "looking"),
            PitchOutcome::StrikeSwinging => self.handle_strike(batter, "swinging"),
            PitchOutcome::Foul => {
                if self.strikes + 1 < STRIKES_NEEDED {
                    self.strikes = self.strikes + 1;
                } else {
                    self.strikes = STRIKES_NEEDED - 1;
                }
                let mut msg = String::from_str("Foul Ball. ");
                let b = dec_u64(self.balls as u64);
                msg.append(b.as_str());
                msg.append("-");
                let s = dec_u64(self.strikes as u64);
                msg.append(s.as_str());
                msg
            },
            PitchOutcome::Fielded { fielder, flyout } => {
                let mut msg = batter.name.clone();
                msg.append(" hit a ");
                if flyout {
                    msg.append("flyout");
                } else {
                    msg.append("ground out");
                }
                msg.append(" to ");
                let fielder_name = database.player(fielder).name.clone();
                msg.append(fielder_name.as_str());
                msg.append(".");
                msg
            },
            PitchOutcome::HomeRun => self.handle_home_run(batter),
            PitchOutcome::Hit { bases } => self.handle_base_hit(batter, database, bases),
        }
    }

    /// Whether this game can be ticked against the store: the game is not
    /// over, its event state sits within machine limits, both teams resolve
    /// (stored under their own identifiers, with rosters whose members the
    /// store holds and whose cursors have headroom), every live player
    /// reference resolves, and during a playable half-inning the fielding
    /// lineup is non-empty so a defender can be drawn.
    pub open spec fn spec_tick_ready(&self, database: &Database) -> bool {
        &&& self.counts_ok()
        &&& self.winner is None
        &&& database.teams.spec_has_key(self.teams.away.id.0)
        &&& database.teams.spec_has_key(self.teams.home.id.0)
        &&& database.teams.spec_get(self.teams.away.id.0).id == self.teams.away.id
        &&& database.teams.spec_get(self.teams.home.id.0).id == self.teams.home.id
        &&& database.teams.spec_get(self.teams.away.id.0).rotation_slot + 2 <= usize::MAX
        &&& database.teams.spec_get(self.teams.home.id.0).rotation_slot + 2 <= usize::MAX
        &&& spec_rosters_listed(database, database.teams.spec_get(self.teams.away.id.0))
        &&& spec_rosters_listed(database, database.teams.spec_get(self.teams.home.id.0))
        &&& forall|i: int|
            0 <= i < self.baserunners@.len() ==> database.players.spec_has_key(
                (#[trigger] self.baserunners@[i]).0.0,
            )
        &&& (self.at_bat matches Some(p) ==> database.players.spec_has_key(p.0))
        &&& ((self.inning is Top && self.inning.spec_number() > 0) || self.inning is Bottom)
            ==> database.teams.spec_get(
            self.teams.spec_select(self.inning.spec_fielding()).id.0,
        ).lineup@.len() > 0
    }

    /// Decide [`Game::spec_tick_ready`] for this game and store. The
    /// driver checks this before resolving an event; a game that is not
    /// ready indicates a defect upstream, not a recoverable condition.
    pub fn tick_ready(&self, database: &Database) -> (r: bool)
        requires
            database.wf(),
        ensures
            r == self.spec_tick_ready(database),
    {
        if !(self.balls < BALLS_NEEDED && self.strikes < STRIKES_NEEDED && self.outs
            < OUTS_NEEDED) {
            return false;
        }
        if self.is_finished() {
            return false;
        }
        let n_runners = self.baserunners.len();
        if n_runners > u16::MAX as usize {
            return false;
        }
        if (self.teams.away.runs as u32) + (n_runners as u32) + 1 > (u16::MAX as u32) {
            return false;
        }
        if (self.teams.home.runs as u32) + (n_runners as u32) + 1 > (u16::MAX as u32) {
            return false;
        }
        if self.teams.away.lineup_slot > usize::MAX - 2 {
            return false;
        }
        if self.teams.home.lineup_slot > usize::MAX - 2 {
            return false;
        }
        if self.inning.number() >= usize::MAX {
            return false;
        }
        let mut i: usize = 0;
        while i < self.baserunners.len()
            invariant
                i <= self.baserunners@.len(),
                forall|j: int| 0 <= j < i ==> 1 <= (#[trigger] self.baserunners@[j]).1 <= 250,
            decreases self.baserunners@.len() - i,
        {
            let base = self.baserunners[i].1;
            if !(1 <= base && base <= 250) {
                return false;
            }
            i += 1;
        }
        let away = match database.teams.get(self.teams.away.id.0) {
            Some(t) => t,
            None => {
                return false;
            },
        };
        if !(away.id == self.teams.away.id) {
            return false;
        }
        if away.rotation_slot > usize::MAX - 2 {
            return false;
        }
        if !rosters_listed(database, away) {
            return false;
        }
        let home = match database.teams.get(self.teams.home.id.0) {
            Some(t) => t,
            None => {
                return false;
            },
        };
        if !(home.id == self.teams.home.id) {
            return false;
        }
        if home.rotation_slot > usize::MAX - 2 {
            return false;
        }
        if !rosters_listed(database, home) {
            return false;
        }
        let mut i: usize = 0;
        while i < self.baserunners.len()
            invariant
                i <= self.baserunners@.len(),
                forall|j: int|
                    0 <= j < i ==> database.players.spec_has_key(
                        (#[trigger] self.baserunners@[j]).0.0,
                    ),
            decreases self.baserunners@.len() - i,
        {
            if !database.players.contains(self.baserunners[i].0 .0) {
                return false;
            }
            i += 1;
        }
        if let Some(p) = self.at_bat {
            if !database.players.contains(p.0) {
                return false;
            }
        }
        let playable = match self.inning {
            Inning::Top(n) => n > 0,
            Inning::Bottom(_) => true,
            _ => false,
        };
        if playable {
            let fielding_team = match database.teams.get(
                self.teams.select(self.inning.fielding()).id.0,
            ) {
                Some(t) => t,
                None => {
                    proof {
                        assert(false);
                    }
                    unreached()
                },
            };
            if fielding_team.lineup.len() == 0 {
                return false;
            }
        }
        true
    }

    /// Resolve the current pitcher: reuse the fielding side's pitcher slot
    /// if it is occupied for this at-bat, otherwise pull from the team's
    /// rotation at its cursor (wrapping to the first entry on overrun, or
    /// generating a placeholder player when the rotation is empty) and
    /// persist the resolved position back to the team.
    #[verifier::rlimit(60)]
    pub fn get_pitcher(&mut self, rng: &mut Rng, database: &mut Database) -> (r: PlayerId)
        requires
            old(rng).wf(),
            old(database).wf(),
            old(database).teams.spec_has_key(
                old(self).teams.spec_select(old(self).inning.spec_fielding()).id.0,
            ),
            old(database).teams.spec_get(
                old(self).teams.spec_select(old(self).inning.spec_fielding()).id.0,
            ).id == old(self).teams.spec_select(old(self).inning.spec_fielding()).id,
        ensures
            final (rng).wf(),
            final (database).wf(),
            final (database).games_today == old(database).games_today,
            final (database).date == old(database).date,
            forall|k: u128|
                final (database).teams.spec_has_key(k) == old(database).teams.spec_has_key(k),
            forall|k: u128|
                old(database).players.spec_has_key(k) ==> final (database).players.spec_has_key(
                    k,
                ),
            forall|k: u128|
                k != r.0 && old(database).players.spec_has_key(k) ==> final (
                database).players.spec_get(k) == old(database).players.spec_get(k),
            *final (self) == (Game {
                teams: spec_set_pitcher(
                    old(self).teams,
                    old(self).inning.spec_fielding(),
                    r,
                ),
                ..*old(self)
            }),
            old(self).teams.spec_select(old(self).inning.spec_fielding()).pitcher matches Some(p)
                ==> r == p && *final (database) == *old(database) && *final (rng) == *old(rng),
            ({
                let fid = old(self).teams.spec_select(old(self).inning.spec_fielding()).id;
                let ot = old(database).teams.spec_get(fid.0);
                let rot = ot.rotation@;
                let slot = ot.rotation_slot;
                let nt = final (database).teams.spec_get(fid.0);
                old(self).teams.spec_select(old(self).inning.spec_fielding()).pitcher is None
                    ==> (forall|k: u128|
                    k != fid.0 && old(database).teams.spec_has_key(k) ==> final (
                    database).teams.spec_get(k) == old(database).teams.spec_get(k)) && if rot.len()
                    > 0 {
                    &&& r == (if slot < rot.len() {
                        rot[slot as int]
                    } else {
                        rot[0]
                    })
                    &&& *final (rng) == *old(rng)
                    &&& final (database).players == old(database).players
                    &&& nt == (Team { rotation_slot: nt.rotation_slot, ..ot })
                    &&& nt.rotation_slot < rot.len()
                    &&& rot[nt.rotation_slot as int] == r
                    &&& (forall|j: int| 0 <= j < nt.rotation_slot ==> rot[j] != r)
                } else {
                    &&& r.0 != 0
                    &&& final (rng)@ == spec_advance(old(rng)@, 32)
                    &&& (exists|nm: String|
                        (#[trigger] nm@) == "Pitching Machine"@ && ({
                            let (p, m2) = spec_generate(old(rng)@, r, nm);
                            &&& final (rng)@ == m2
                            &&& final (database).players.spec_has_key(r.0)
                            &&& final (database).players.spec_get(r.0) == p
                        }))
                    &&& nt == (Team {
                        rotation: nt.rotation,
                        rotation_slot: 0,
                        ..ot
                    })
                    &&& nt.rotation@ == rot.push(r)
                }
            }),
    {
        let side = self.inning.fielding();
        let current = self.teams.select(side).pitcher;
        if let Some(p) = current {
            return p;
        }
        let team_id = self.teams.select(side).id;
        let pos = database.team(team_id).rotation_slot;
        let resolved = next_in_roster(
            rng,
            database,
            team_id,
            RosterChoice::Rotation,
            pos,
            "Pitching Machine",
        );
        let player = resolved.0;
        let mut team_owned = database.take_team(team_id);
        team_owned.rotation_slot = resolved.1;
        database.put_team(team_owned);
        let slot = self.teams.select_mut(side);
        slot.pitcher = Some(player);
        player
    }

    /// Resolve the current batter: reuse the ongoing at-bat if one is under
    /// way, otherwise pull from the batting team's lineup at this game's
    /// lineup cursor (wrapping, or generating a placeholder player when the
    /// lineup is empty), persist the resolved position as the new cursor,
    /// and announce the new batter; the announcement ends the event.
    #[verifier::rlimit(60)]
    pub fn get_batter(&mut self, rng: &mut Rng, database: &mut Database) -> (r: (
        Option<String>,
        PlayerId,
    ))
        requires
            old(rng).wf(),
            old(database).wf(),
            old(database).teams.spec_has_key(
                old(self).teams.spec_select(old(self).inning.spec_batting()).id.0,
            ),
            old(database).teams.spec_get(
                old(self).teams.spec_select(old(self).inning.spec_batting()).id.0,
            ).id == old(self).teams.spec_select(old(self).inning.spec_batting()).id,
            forall|i: int|
                0 <= i < old(database).teams.spec_get(
                    old(self).teams.spec_select(old(self).inning.spec_batting()).id.0,
                ).lineup@.len() ==> old(database).players.spec_has_key(
                    (#[trigger] old(database).teams.spec_get(
                        old(self).teams.spec_select(old(self).inning.spec_batting()).id.0,
                    ).lineup@[i]).0,
                ),
            old(self).at_bat matches Some(p) ==> old(database).players.spec_has_key(p.0),
        ensures
            final (rng).wf(),
            final (database).wf(),
            final (database).games_today == old(database).games_today,
            final (database).date == old(database).date,
            forall|k: u128|
                final (database).teams.spec_has_key(k) == old(database).teams.spec_has_key(k),
            forall|k: u128|
                old(database).players.spec_has_key(k) ==> final (database).players.spec_has_key(
                    k,
                ),
            forall|k: u128|
                k != r.1.0 && old(database).players.spec_has_key(k) ==> final (
                database).players.spec_get(k) == old(database).players.spec_get(k),
            final (database).players.spec_has_key(r.1.0),
            old(self).at_bat matches Some(p) ==> r == (None::<String>, p) && *final (self) == *old(
                self,
            ) && *final (database) == *old(database) && *final (rng) == *old(rng),
            ({
                let bid = old(self).teams.spec_select(old(self).inning.spec_batting()).id;
                let ot = old(database).teams.spec_get(bid.0);
                let lineup = ot.lineup@;
                let slot = old(self).teams.spec_select(old(self).inning.spec_batting()).lineup_slot;
                let nt = final (database).teams.spec_get(bid.0);
                let ns = final (self).teams.spec_select(old(self).inning.spec_batting()).lineup_slot;
                old(self).at_bat is None ==> {
                    &&& *final (self) == (Game {
                        at_bat: Some(r.1),
                        teams: spec_set_slot(old(self).teams, old(self).inning.spec_batting(), ns),
                        ..*old(self)
                    })
                    &&& r.0 matches Some(m) && m@ == final (database).players.spec_get(
                        r.1.0,
                    ).name@ + " batting for the "@ + ot.nickname@ + "."@
                    &&& (forall|k: u128|
                        k != bid.0 && old(database).teams.spec_has_key(k) ==> final (
                        database).teams.spec_get(k) == old(database).teams.spec_get(k))
                    &&& if lineup.len() > 0 {
                        &&& r.1 == (if slot < lineup.len() {
                            lineup[slot as int]
                        } else {
                            lineup[0]
                        })
                        &&& *final (rng) == *old(rng)
                        &&& final (database).players == old(database).players
                        &&& *final (database) == *old(database)
                        &&& ns < lineup.len()
                        &&& lineup[ns as int] == r.1
                        &&& (forall|j: int| 0 <= j < ns ==> lineup[j] != r.1)
                    } else {
                        &&& r.1.0 != 0
                        &&& (exists|nm: String|
                            (#[trigger] nm@) == "Batting Machine"@ && ({
                                let (p, m2) = spec_generate(old(rng)@, r.1, nm);
                                &&& final (rng)@ == m2
                                &&& final (database).players.spec_get(r.1.0) == p
                            }))
                        &&& ns == 0
                        &&& nt == (Team { lineup: nt.lineup, ..ot })
                        &&& nt.lineup@ == lineup.push(r.1)
                    }
                }
            }),
    {
        let side = self.inning.batting();
        let current = self.at_bat;
        if let Some(p) = current {
            return (None, p);
        }
        let team_id = self.teams.select(side).id;
        let pos = self.teams.select(side).lineup_slot;
        let resolved = next_in_roster(
            rng,
            database,
            team_id,
            RosterChoice::Lineup,
            pos,
            "Batting Machine",
        );
        let player = resolved.0;
        let slot = self.teams.select_mut(side);
        slot.lineup_slot = resolved.1;
        self.at_bat = Some(player);
        let batter_name = database.player(player).name.clone();
        let nickname = database.team(team_id).nickname.clone();
        let mut msg = batter_name;
        msg.append(" batting for the ");
        msg.append(nickname.as_str());
        msg.append(".");
        (Some(msg), player)
    }

    /// Resolve everything of one tick that comes before a pitch outcome is
    /// needed: a game-over determination, the first tick's start-of-play,
    /// a transitional half-inning, the pitcher and batter (announcing a
    /// newly resolved batter, which ends the event), and a possible steal.
    /// The returned pitcher and batter feed the outcome model; its decided
    /// outcome is then applied with [`Game::apply_pitch`].
    #[verifier::rlimit(100)]
    pub fn pre_pitch(&mut self, rng: &mut Rng, database: &mut Database) -> (r: TickEvent)
        requires
            old(rng).wf(),
            old(database).wf(),
            old(self).spec_tick_ready(old(database)),
        ensures
            final (rng).wf(),
            final (database).wf(),
            final (database).games_today == old(database).games_today,
            final (database).date == old(database).date,
            forall|k: u128|
                final (database).teams.spec_has_key(k) == old(database).teams.spec_has_key(k),
            forall|k: u128|
                old(database).players.spec_has_key(k) ==> final (database).players.spec_has_key(
                    k,
                ),
            final (self).id == old(self).id,
            final (self).last_update == old(self).last_update,
            spec_game_over_winner(*old(self)) matches Some(sel) ==> r is Update && *final (self)
                == (Game { winner: Some(old(self).teams.spec_select(sel).id), ..*old(self) }),
            spec_game_over_winner(*old(self)) is None && old(self).inning == Inning::Top(0usize)
                ==> (r matches TickEvent::Update(m) && m@ == "Play ball!"@ && *final (self) == (
            Game { inning: Inning::Top(1usize), ..*old(self) }) && *final (database) == *old(
                database,
            ) && *final (rng) == *old(rng)),
            spec_game_over_winner(*old(self)) is None && (old(self).inning is Mid || old(
                self,
            ).inning is End) ==> ({
                let adv = spec_inning_advance(old(self).inning);
                let bteam = old(database).teams.spec_get(
                    old(self).teams.spec_select(adv.spec_batting()).id.0,
                );
                &&& r matches TickEvent::Update(m) && m@ == adv.spec_word() + " of "@ + dec_spec(
                    adv.spec_number() as int,
                ) + ", "@ + bteam.location@ + " "@ + bteam.nickname@ + " batting."@
                &&& *final (self) == (Game { inning: adv, ..*old(self) })
                &&& *final (database) == *old(database)
                &&& *final (rng) == *old(rng)
            }),
            spec_game_over_winner(*old(self)) is None && ((old(self).inning is Top && old(
                self,
            ).inning.spec_number() > 0) || old(self).inning is Bottom) ==> {
                &&& final (self).winner is None
                &&& final (self).teams.away.runs == old(self).teams.away.runs
                &&& final (self).teams.home.runs == old(self).teams.home.runs
                &&& (r matches TickEvent::Pitch { pitcher, batter } ==> {
                    &&& final (self).inning == old(self).inning
                    &&& final (self).at_bat == Some(batter)
                    &&& final (self).teams.spec_select(old(self).inning.spec_fielding()).pitcher
                        == Some(pitcher)
                    &&& final (database).players.spec_has_key(batter.0)
                    &&& final (self).baserunners@ == old(self).baserunners@
                    &&& final (self).balls == old(self).balls
                    &&& final (self).strikes == old(self).strikes
                    &&& final (self).outs == old(self).outs
                    &&& final (self).spec_tick_ready(final (database))
                })
                &&& (old(self).at_bat is None ==> (r matches TickEvent::Update(m) && final (self).at_bat matches Some(b) && m@ == final (database).players.spec_get(b.0).name@
                    + " batting for the "@ + old(database).teams.spec_get(
                    old(self).teams.spec_select(old(self).inning.spec_batting()).id.0,
                ).nickname@ + "."@ && final (self).baserunners@ == old(self).baserunners@
                    && final (self).balls == old(self).balls && final (self).strikes == old(
                    self,
                ).strikes && final (self).outs == old(self).outs && final (self).inning == old(
                    self,
                ).inning))
                &&& (old(self).at_bat matches Some(b) ==> ({
                    let ot = old(database).teams.spec_get(
                        old(self).teams.spec_select(old(self).inning.spec_fielding()).id.0,
                    );
                    let scan_start = if old(self).teams.spec_select(
                        old(self).inning.spec_fielding(),
                    ).pitcher is Some || ot.rotation@.len() > 0 {
                        old(rng)@
                    } else {
                        spec_advance(old(rng)@, 32)
                    };
                    let resolution = spec_steal_resolution(old(self).baserunners@, scan_start);
                    &&& final (rng)@ == resolution.1
                    &&& (resolution.0 is None ==> (r matches TickEvent::Pitch { pitcher, batter }
                        && batter == b))
                    &&& (resolution.0 matches Some(pair) ==> (r matches TickEvent::Update(m) && m@
                        == spec_steal_message(
                        old(self).baserunners@,
                        final (database),
                        pair.0,
                        pair.1,
                    )))
                }))
            },
    {
        if let Some(msg) = self.handle_game_over(database) {
            return TickEvent::Update(msg);
        }
        let pregame = match self.inning {
            Inning::Top(n) => n == 0,
            _ => false,
        };
        if pregame {
            self.inning = Inning::Top(1);
            return TickEvent::Update(String::from_str("Play ball!"));
        }
        let transitional = match self.inning {
            Inning::Mid(_) | Inning::End(_) => true,
            _ => false,
        };
        if transitional {
            self.inning.advance();
            let batting_id = self.teams.select(self.inning.batting()).id;
            let batting_name = database.team(batting_id).name();
            let mut msg = String::from_str(self.inning.word());
            msg.append(" of ");
            let number = dec_u64(self.inning.number() as u64);
            msg.append(number.as_str());
            msg.append(", ");
            msg.append(batting_name.as_str());
            msg.append(" batting.");
            return TickEvent::Update(msg);
        }
        self.resolve_plate(rng, database)
    }

    /// The playable-half-inning part of a tick: resolve the pitcher and the
    /// batter (a new batter's announcement ends the event), then a possible
    /// steal; otherwise hand back the matchup for pitch resolution.
    #[verifier::rlimit(100)]
    fn resolve_plate(&mut self, rng: &mut Rng, database: &mut Database) -> (r: TickEvent)
        requires
            old(rng).wf(),
            old(database).wf(),
            old(self).spec_tick_ready(old(database)),
            (old(self).inning is Top && old(self).inning.spec_number() > 0) || old(
                self,
            ).inning is Bottom,
        ensures
            final (rng).wf(),
            final (database).wf(),
            final (database).games_today == old(database).games_today,
            final (database).date == old(database).date,
            forall|k: u128|
                final (database).teams.spec_has_key(k) == old(database).teams.spec_has_key(k),
            forall|k: u128|
                old(database).players.spec_has_key(k) ==> final (database).players.spec_has_key(
                    k,
                ),
            final (self).id == old(self).id,
            final (self).last_update == old(self).last_update,
            final (self).winner is None,
            final (self).teams.away.runs == old(self).teams.away.runs,
            final (self).teams.home.runs == old(self).teams.home.runs,
            r matches TickEvent::Pitch { pitcher, batter } ==> {
                &&& final (self).inning == old(self).inning
                &&& final (self).at_bat == Some(batter)
                &&& final (self).teams.spec_select(old(self).inning.spec_fielding()).pitcher
                    == Some(pitcher)
                &&& final (database).players.spec_has_key(batter.0)
                &&& final (self).baserunners@ == old(self).baserunners@
                &&& final (self).balls == old(self).balls
                &&& final (self).strikes == old(self).strikes
                &&& final (self).outs == old(self).outs
                &&& final (self).spec_tick_ready(final (database))
            },
            old(self).at_bat is None ==> (r matches TickEvent::Update(m) && final (self).at_bat matches Some(b) && m@ == final (database).players.spec_get(b.0).name@
                + " batting for the "@ + old(database).teams.spec_get(
                old(self).teams.spec_select(old(self).inning.spec_batting()).id.0,
            ).nickname@ + "."@ && final (self).baserunners@ == old(self).baserunners@ && final (self).balls == old(self).balls && final (self).strikes == old(self).strikes && final (self).outs == old(self).outs && final (self).inning == old(self).inning),
            old(self).at_bat matches Some(b) ==> ({
                let ot = old(database).teams.spec_get(
                    old(self).teams.spec_select(old(self).inning.spec_fielding()).id.0,
                );
                let scan_start = if old(self).teams.spec_select(
                    old(self).inning.spec_fielding(),
                ).pitcher is Some || ot.rotation@.len() > 0 {
                    old(rng)@
                } else {
                    spec_advance(old(rng)@, 32)
                };
                let resolution = spec_steal_resolution(old(self).baserunners@, scan_start);
                &&& final (rng)@ == resolution.1
                &&& (resolution.0 is None ==> (r matches TickEvent::Pitch { pitcher, batter }
                    && batter == b))
                &&& (resolution.0 matches Some(pair) ==> (r matches TickEvent::Update(m) && m@
                    == spec_steal_message(old(self).baserunners@, final (database), pair.0, pair.1)))
            }),
    {
        let pitcher = self.get_pitcher(rng, database);
        proof {
            let bid = old(self).teams.spec_select(old(self).inning.spec_batting()).id;
            assert(database.teams.spec_get(bid.0).nickname == old(database).teams.spec_get(
                bid.0,
            ).nickname);
        }
        let resolved = self.get_batter(rng, database);
        let batter = resolved.1;
        if let Some(msg) = resolved.0 {
            return TickEvent::Update(msg);
        }
        if let Some(msg) = self.handle_steal(rng, database) {
            return TickEvent::Update(msg);
        }
        TickEvent::Pitch { pitcher, batter }
    }

    /// Resolve at most one steal attempt for this event. A defender is
    /// drawn first (and not otherwise used); [`spec_steal_resolution`] then
    /// fixes, as a function of the pre-event runner list and generator
    /// state, whether a steal resolves, which runner, whether it succeeds,
    /// and exactly which draws are consumed. Success advances the runner
    /// one base; a caught runner is removed and an out is registered.
    /// `None` means no steal was attempted: pitch resolution proceeds and
    /// the game is unchanged.
    #[verifier::rlimit(100)]
    pub fn handle_steal(&mut self, rng: &mut Rng, database: &Database) -> (r: Option<String>)
        requires
            old(rng).wf(),
            database.wf(),
            old(self).counts_ok(),
            database.teams.spec_has_key(
                old(self).teams.spec_select(old(self).inning.spec_fielding()).id.0,
            ),
            database.teams.spec_get(
                old(self).teams.spec_select(old(self).inning.spec_fielding()).id.0,
            ).lineup@.len() > 0,
            forall|i: int|
                0 <= i < old(self).baserunners@.len() ==> database.players.spec_has_key(
                    (#[trigger] old(self).baserunners@[i]).0.0,
                ),
        ensures
            final (rng).wf(),
            final (rng)@ == spec_steal_resolution(old(self).baserunners@, old(rng)@).1,
            spec_steal_resolution(old(self).baserunners@, old(rng)@).0 is None ==> r is None
                && *final (self) == *old(self),
            spec_steal_resolution(old(self).baserunners@, old(rng)@).0 matches Some(pair) ==> ({
                let i = pair.0;
                let success = pair.1;
                &&& 0 <= i < old(self).baserunners@.len()
                &&& !spec_base_in(old(self).baserunners@, old(self).baserunners@[i].1 + 1)
                &&& (r matches Some(m) && m@ == spec_steal_message(
                    old(self).baserunners@,
                    database,
                    i,
                    success,
                ))
                &&& (success ==> final (self).baserunners@ == old(self).baserunners@.update(
                    i,
                    (old(self).baserunners@[i].0, (old(self).baserunners@[i].1 + 1) as u8),
                ) && *final (self) == (Game {
                    baserunners: final (self).baserunners,
                    ..*old(self)
                }))
                &&& (!success && old(self).outs + 1 < OUTS_NEEDED ==> final (self).baserunners@
                    == old(self).baserunners@.remove(i) && *final (self) == (Game {
                    outs: (old(self).outs + 1) as u8,
                    baserunners: final (self).baserunners,
                    ..*old(self)
                }))
                &&& (!success && old(self).outs + 1 == OUTS_NEEDED ==> final (
                self).baserunners@.len() == 0 && *final (self) == (Game {
                    balls: 0,
                    strikes: 0,
                    outs: 0,
                    at_bat: None,
                    baserunners: final (self).baserunners,
                    inning: spec_inning_advance(old(self).inning),
                    teams: spec_bump_slot(old(self).teams, old(self).inning.spec_batting()),
                    ..*old(self)
                }))
            }),
    {
        let _fielder = self.pick_fielder(rng, database);
        let occupied = self.bases_occupied();
        let ghost orig = self.baserunners@;
        let mut idx: usize = 0;
        while idx < self.baserunners.len()
            invariant
                idx <= self.baserunners@.len(),
                *self == *old(self),
                orig == old(self).baserunners@,
                old(self).counts_ok(),
                database.wf(),
                rng.wf(),
                spec_steal_resolution(orig, old(rng)@) == spec_steal_scan(orig, rng@, idx as int),
                occupied@.len() == orig.len(),
                forall|j: int| 0 <= j < occupied@.len() ==> occupied@[j] == orig[j].1,
                forall|i: int|
                    0 <= i < orig.len() ==> database.players.spec_has_key((#[trigger] orig[i]).0.0),
            decreases self.baserunners@.len() - idx,
        {
            let (runner_id, base) = self.baserunners[idx];
            let next_base = base + 1;
            if !base_list_contains(&occupied, next_base) {
                proof {
                    assert(!spec_base_in(orig, next_base as int)) by {
                        if spec_base_in(orig, next_base as int) {
                            let w = choose|w: int|
                                0 <= w < orig.len() && orig[w].1 == next_base as int;
                            assert(occupied@[w] == next_base);
                        }
                    }
                }
                let ghost before_attempt = rng@;
                let attempt = rng.next_raw();
                if 50 * attempt < RAW_BOUND {
                    proof {
                        assert(spec_steal_scan(orig, before_attempt, idx as int).0 == Some(
                            (idx as int, spec_steal_succeeded(spec_draw(rng@).0)),
                        ));
                    }
                    let runner_name = database.player(runner_id).name.clone();
                    let next_base_name = crate::util::base_name(next_base, HOME_BASE);
                    let success = rng.next_raw();
                    if 2 * success < RAW_BOUND {
                        let entry = vstd::std_specs::vec::vec_index_mut(
                            &mut self.baserunners,
                            idx,
                        );
                        entry.1 = next_base;
                        let mut msg = runner_name;
                        msg.append(" steals ");
                        msg.append(next_base_name.as_str());
                        msg.append("!");
                        proof {
                            assert(msg@ =~= spec_steal_message(
                                orig,
                                database,
                                idx as int,
                                true,
                            ));
                        }
                        return Some(msg);
                    }
                    let mut msg = runner_name;
                    msg.append(" gets caught stealing ");
                    msg.append(next_base_name.as_str());
                    msg.append(".");
                    proof {
                        assert(msg@ =~= spec_steal_message(orig, database, idx as int, false));
                    }
                    self.baserunners.remove(idx);
                    self.handle_out();
                    return Some(msg);
                }
            }
            idx += 1;
        }
        None
    }

    /// Register a ball. The fourth ball is a walk: runners with no gap
    /// behind them down to first are forced one base forward (scoring from
    /// third), the batter takes first, the count resets and the next batter
    /// is sent up; an earlier ball only updates the count.
    pub fn handle_ball(&mut self, batter: &Player) -> (msg: String)
        requires
            old(self).counts_ok(),
        ensures
            old(self).balls + 1 < BALLS_NEEDED ==> *final (self) == (Game {
                balls: (old(self).balls + 1) as u8,
                ..*old(self)
            }) && msg@ == "Ball. "@ + dec_spec(old(self).balls + 1) + "-"@ + dec_spec(
                old(self).strikes as int,
            ),
            old(self).balls + 1 == BALLS_NEEDED ==> final (self).baserunners@
                == spec_walk_kept(old(self).baserunners@, old(self).baserunners@.len() as int).push(
                (batter.id, 1u8),
            ) && *final (self) == (Game {
                balls: 0,
                strikes: 0,
                at_bat: None,
                baserunners: final (self).baserunners,
                teams: spec_bump_slot(
                    spec_add_runs(
                        old(self).teams,
                        old(self).inning.spec_batting(),
                        spec_walk_runs(old(self).baserunners@, old(self).baserunners@.len() as int),
                    ),
                    old(self).inning.spec_batting(),
                ),
                ..*old(self)
            }) && msg@ == batter.name@ + " draws a walk."@,
    {
        self.balls += 1;
        if self.balls >= BALLS_NEEDED {
            let ghost orig = self.baserunners@;
            let side = self.inning.batting();
            let occupied = self.bases_occupied();
            let mut runners: Vec<(PlayerId, u8)> = Vec::new();
            core::mem::swap(&mut self.baserunners, &mut runners);
            proof {
                assert(spec_walk_kept(orig, 0) =~= Seq::<(PlayerId, u8)>::empty());
                assert(spec_add_runs(old(self).teams, side, 0) == old(self).teams);
            }
            let mut i: usize = 0;
            while i < runners.len()
                invariant
                    i <= runners@.len(),
                    runners@ == orig,
                    orig == old(self).baserunners@,
                    old(self).counts_ok(),
                    side == old(self).inning.spec_batting(),
                    occupied@.len() == orig.len(),
                    forall|j: int| 0 <= j < occupied@.len() ==> occupied@[j] == orig[j].1,
                    self.baserunners@ == spec_walk_kept(orig, i as int),
                    self.teams == spec_add_runs(
                        old(self).teams,
                        side,
                        spec_walk_runs(orig, i as int),
                    ),
                    self.id == old(self).id,
                    self.winner == old(self).winner,
                    self.last_update == old(self).last_update,
                    self.inning == old(self).inning,
                    self.at_bat == old(self).at_bat,
                    self.balls == old(self).balls + 1,
                    self.strikes == old(self).strikes,
                    self.outs == old(self).outs,
                decreases runners@.len() - i,
            {
                let (runner, base) = runners[i];
                let mut forced = true;
                let mut b: u8 = 1;
                while b < base
                    invariant
                        1 <= b <= base,
                        occupied@.len() == orig.len(),
                        forall|j: int| 0 <= j < occupied@.len() ==> occupied@[j] == orig[j].1,
                        forced <==> (forall|x: int| 1 <= x < b ==> spec_base_in(orig, x)),
                    decreases base - b,
                {
                    if !base_list_contains(&occupied, b) {
                        proof {
                            assert(!spec_base_in(orig, b as int)) by {
                                if spec_base_in(orig, b as int) {
                                    let w = choose|w: int|
                                        0 <= w < orig.len() && orig[w].1 == b as int;
                                    assert(occupied@[w] == b);
                                }
                            }
                        }
                        forced = false;
                    } else {
                        proof {
                            let w = choose|w: int| 0 <= w < occupied@.len() && occupied@[w] == b;
                            assert(orig[w].1 == b);
                            assert(spec_base_in(orig, b as int));
                        }
                    }
                    b += 1;
                }
                proof {
                    assert(forced == spec_forced(orig, base));
                    lemma_walk_runs_bound(orig, i as int);
                    lemma_walk_runs_bound(orig, i as int + 1);
                }
                let new_base: u8 = if forced {
                    base + 1
                } else {
                    base
                };
                if new_base >= HOME_BASE {
                    let team = self.teams.select_mut(side);
                    team.runs += 1;
                } else {
                    self.baserunners.push((runner, new_base));
                }
                i += 1;
            }
            self.baserunners.push((batter.id, 1));
            self.at_bat = None;
            let slot_side = self.inning.batting();
            let team = self.teams.select_mut(slot_side);
            team.lineup_slot += 1;
            self.balls = 0;
            self.strikes = 0;
            let mut msg = batter.name.clone();
            msg.append(" draws a walk.");
            msg
        } else {
            let mut msg = String::from_str("Ball. ");
            let b = dec_u64(self.balls as u64);
            msg.append(b.as_str());
            msg.append("-");
            let st = dec_u64(self.strikes as u64);
            msg.append(st.as_str());
            msg
        }
    }

    /// Advance every runner by the hit's worth in bases, scoring those who
    /// reach home; the batter's own placement is not modeled here, matching
    /// the event's scope.
    pub fn handle_base_hit(&mut self, batter: &Player, database: &Database, bases: u8) -> (msg:
        String)
        requires
            old(self).counts_ok(),
            database.wf(),
            1 <= bases <= 4,
            forall|i: int|
                0 <= i < old(self).baserunners@.len() ==> database.players.spec_has_key(
                    (#[trigger] old(self).baserunners@[i]).0.0,
                ),
        ensures
            final (self).baserunners@ == spec_hit_kept(
                old(self).baserunners@,
                bases,
                old(self).baserunners@.len() as int,
            ),
            *final (self) == (Game {
                baserunners: final (self).baserunners,
                teams: spec_add_runs(
                    old(self).teams,
                    old(self).inning.spec_batting(),
                    spec_hit_runs(
                        old(self).baserunners@,
                        bases,
                        old(self).baserunners@.len() as int,
                    ),
                ),
                ..*old(self)
            }),
            msg@ == spec_hit_lead(batter.name@, bases) + spec_hit_scores_suffix(
                old(self).baserunners@,
                bases,
                database,
                old(self).baserunners@.len() as int,
            ),
    {
        let ghost orig = self.baserunners@;
        let side = self.inning.batting();
        let mut msg = batter.name.clone();
        if bases == 1 {
            msg.append(" hits a Single!");
        } else if bases == 2 {
            msg.append(" hits a Double!");
        } else if bases == 3 {
            msg.append(" hits a Triple!");
        } else {
            msg.append(" hits a Quadruple!");
        }
        let mut runners: Vec<(PlayerId, u8)> = Vec::new();
        core::mem::swap(&mut self.baserunners, &mut runners);
        proof {
            assert(spec_hit_kept(orig, bases, 0) =~= Seq::<(PlayerId, u8)>::empty());
            assert(spec_add_runs(old(self).teams, side, 0) == old(self).teams);
            assert(spec_hit_scores_suffix(orig, bases, database, 0) =~= Seq::<char>::empty());
        }
        let mut i: usize = 0;
        while i < runners.len()
            invariant
                i <= runners@.len(),
                runners@ == orig,
                orig == old(self).baserunners@,
                old(self).counts_ok(),
                database.wf(),
                forall|j: int|
                    0 <= j < orig.len() ==> database.players.spec_has_key(
                        (#[trigger] orig[j]).0.0,
                    ),
                1 <= bases <= 4,
                side == old(self).inning.spec_batting(),
                self.baserunners@ == spec_hit_kept(orig, bases, i as int),
                self.teams == spec_add_runs(
                    old(self).teams,
                    side,
                    spec_hit_runs(orig, bases, i as int),
                ),
                msg@ == spec_hit_lead(batter.name@, bases) + spec_hit_scores_suffix(
                    orig,
                    bases,
                    database,
                    i as int,
                ),
                self.id == old(self).id,
                self.winner == old(self).winner,
                self.last_update == old(self).last_update,
                self.inning == old(self).inning,
                self.at_bat == old(self).at_bat,
                self.balls == old(self).balls,
                self.strikes == old(self).strikes,
                self.outs == old(self).outs,
            decreases runners@.len() - i,
        {
            let (runner, base) = runners[i];
            proof {
                lemma_hit_runs_bound(orig, bases, i as int);
                lemma_hit_runs_bound(orig, bases, i as int + 1);
            }
            let new_base: u8 = base + bases;
            if new_base >= HOME_BASE {
                let team = self.teams.select_mut(side);
                team.runs += 1;
                msg.append(" ");
                let scorer = database.player(runner);
                msg.append(scorer.name.as_str());
                msg.append(" scores!");
                proof {
                    assert(msg@ =~= spec_hit_lead(batter.name@, bases) + spec_hit_scores_suffix(
                        orig,
                        bases,
                        database,
                        i as int + 1,
                    ));
                }
            } else {
                self.baserunners.push((runner, new_base));
            }
            i += 1;
        }
        msg
    }

    /// Register a strike of the named kind ("looking" or "swinging"). The
    /// third strike is a strikeout: an out is registered, the count is
    /// reset, the at-bat is cleared, and the batting cursor advances exactly
    /// once — the plate appearance has ended — whether or not the out also
    /// ends the half-inning.
    pub fn handle_strike(&mut self, batter: &Player, kind: &'static str) -> (msg: String)
        requires
            old(self).counts_ok(),
            old(self).inning is Top || old(self).inning is Bottom,
        ensures
            old(self).strikes + 1 < STRIKES_NEEDED ==> *final (self) == (Game {
                strikes: (old(self).strikes + 1) as u8,
                ..*old(self)
            }) && msg@ == "Strike, "@ + kind@ + ". "@ + dec_spec(old(self).balls as int) + "-"@
                + dec_spec(old(self).strikes + 1),
            old(self).strikes + 1 == STRIKES_NEEDED ==> msg@ == batter.name@ + " strikes out "@
                + kind@ + "."@,
            old(self).strikes + 1 == STRIKES_NEEDED && old(self).outs + 1 < OUTS_NEEDED ==> *final (self) == (Game {
                balls: 0,
                strikes: 0,
                outs: (old(self).outs + 1) as u8,
                at_bat: None,
                teams: spec_bump_slot(old(self).teams, old(self).inning.spec_batting()),
                ..*old(self)
            }),
            old(self).strikes + 1 == STRIKES_NEEDED && old(self).outs + 1 == OUTS_NEEDED ==> final (self).baserunners@.len() == 0 && *final (self) == (Game {
                balls: 0,
                strikes: 0,
                outs: 0,
                at_bat: None,
                baserunners: final (self).baserunners,
                inning: spec_inning_advance(old(self).inning),
                teams: spec_bump_slot(old(self).teams, old(self).inning.spec_batting()),
                ..*old(self)
            }),
    {
        self.strikes += 1;
        if self.strikes >= STRIKES_NEEDED {
            let third_out = self.outs + 1 >= OUTS_NEEDED;
            self.handle_out();
            self.balls = 0;
            self.strikes = 0;
            self.at_bat = None;
            if !third_out {
                // on a third out the half-inning reset has already sent the
                // next batter up; an earlier out advances the cursor here
                let side = self.inning.batting();
                let slot = self.teams.select_mut(side);
                slot.lineup_slot += 1;
            }
            let mut msg = batter.name.clone();
            msg.append(" strikes out ");
            msg.append(kind);
            msg.append(".");
            msg
        } else {
            let mut msg = String::from_str("Strike, ");
            msg.append(kind);
            msg.append(". ");
            let b = dec_u64(self.balls as u64);
            msg.append(b.as_str());
            msg.append("-");
            let s = dec_u64(self.strikes as u64);
            msg.append(s.as_str());
            msg
        }
    }
}

/// The side that has won `g`, if the game is over: in the Mid or End phase
/// of the ninth inning or later with the away team trailing, the home team
/// has won; in the End phase with the away team leading, the away team has
/// won (checked only once the bottom half completes).
pub open spec fn spec_game_over_winner(g: Game) -> Option<TeamSelect> {
    if (g.inning is Mid || g.inning is End) && g.inning.spec_number() >= 9 && g.teams.away.runs
        < g.teams.home.runs {
        Some(TeamSelect::Home)
    } else if g.inning is End && g.inning.spec_number() >= 9 && g.teams.away.runs
        > g.teams.home.runs {
        Some(TeamSelect::Away)
    } else {
        None
    }
}

/// Which of a team's two active ordered rosters is being consulted.
#[derive(Debug, Clone, Copy, PartialEq, Eq, Structural)]
pub enum RosterChoice {
    Lineup,
    Rotation,
}

/// The chosen roster of a team.
pub open spec fn spec_roster(team: Team, which: RosterChoice) -> Seq<PlayerId> {
    match which {
        RosterChoice::Lineup => team.lineup@,
        RosterChoice::Rotation => team.rotation@,
    }
}

/// The pair of sides with the given side's current pitcher set.
pub open spec fn spec_set_pitcher(
    teams: AwayHome<GameTeam>,
    side: TeamSelect,
    p: PlayerId,
) -> AwayHome<GameTeam> {
    match side {
        TeamSelect::Away => AwayHome {
            away: GameTeam { pitcher: Some(p), ..teams.away },
            home: teams.home,
        },
        TeamSelect::Home => AwayHome {
            away: teams.away,
            home: GameTeam { pitcher: Some(p), ..teams.home },
        },
    }
}

/// The pair of sides with the given side's lineup cursor set.
pub open spec fn spec_set_slot(
    teams: AwayHome<GameTeam>,
    side: TeamSelect,
    slot: usize,
) -> AwayHome<GameTeam> {
    match side {
        TeamSelect::Away => AwayHome {
            away: GameTeam { lineup_slot: slot, ..teams.away },
            home: teams.home,
        },
        TeamSelect::Home => AwayHome {
            away: teams.away,
            home: GameTeam { lineup_slot: slot, ..teams.home },
        },
    }
}

/// Resolve the next player from a team's roster: the entry at the cursor
/// position, the first entry when the cursor has overrun, or a freshly
/// generated placeholder player (inserted into the store and appended to the
/// roster) when the roster is empty. Returns the player and the position of
/// its first occurrence in the roster, which the caller persists as the new
/// cursor.
#[verifier::rlimit(60)]
fn next_in_roster(
    rng: &mut Rng,
    database: &mut Database,
    team_id: TeamId,
    which: RosterChoice,
    pos: usize,
    placeholder: &'static str,
) -> (r: (PlayerId, usize))
    requires
        old(rng).wf(),
        old(database).wf(),
        old(database).teams.spec_has_key(team_id.0),
        old(database).teams.spec_get(team_id.0).id == team_id,
    ensures
        final (rng).wf(),
        final (database).wf(),
        final (database).games_today == old(database).games_today,
        final (database).date == old(database).date,
        forall|k: u128|
            final (database).teams.spec_has_key(k) == old(database).teams.spec_has_key(k),
        forall|k: u128|
            k != team_id.0 && old(database).teams.spec_has_key(k) ==> final (database).teams.spec_get(k) == old(database).teams.spec_get(k),
        forall|k: u128|
            k != r.0.0 && old(database).players.spec_has_key(k) ==> final (database).players.spec_has_key(k) && final (database).players.spec_get(k) == old(
                database,
            ).players.spec_get(k),
        forall|k: u128|
            old(database).players.spec_has_key(k) ==> final (database).players.spec_has_key(k),
        ({
            let team = old(database).teams.spec_get(team_id.0);
            let roster = spec_roster(team, which);
            if roster.len() > 0 {
                &&& *final (database) == *old(database)
                &&& *final (rng) == *old(rng)
                &&& r.0 == (if pos < roster.len() {
                    roster[pos as int]
                } else {
                    roster[0]
                })
                &&& r.1 < roster.len()
                &&& roster[r.1 as int] == r.0
                &&& (forall|j: int| 0 <= j < r.1 ==> roster[j] != r.0)
            } else {
                &&& r.1 == 0
                &&& r.0.0 != 0
                &&& final (rng)@ == spec_advance(old(rng)@, 32)
                &&& (exists|nm: String|
                    (#[trigger] nm@) == placeholder@ && ({
                        let (p, m2) = spec_generate(old(rng)@, r.0, nm);
                        &&& final (rng)@ == m2
                        &&& final (database).players.spec_has_key(r.0.0)
                        &&& final (database).players.spec_get(r.0.0) == p
                    }))
                &&& ({
                    let nt = final (database).teams.spec_get(team_id.0);
                    &&& spec_roster(nt, which) == roster.push(r.0)
                    &&& which == RosterChoice::Lineup ==> nt.rotation == team.rotation
                    &&& which == RosterChoice::Rotation ==> nt.lineup == team.lineup
                    &&& nt.id == team.id
                    &&& nt.location == team.location
                    &&& nt.nickname == team.nickname
                    &&& nt.shadows == team.shadows
                    &&& nt.rotation_slot == team.rotation_slot
                })
            }
        }),
{
    let ghost old_team = old(database).teams.spec_get(team_id.0);
    let ghost old_roster = spec_roster(old_team, which);
    let current: Option<PlayerId> = {
        let team = database.team(team_id);
        let roster: &Vec<PlayerId> = match which {
            RosterChoice::Lineup => &team.lineup,
            RosterChoice::Rotation => &team.rotation,
        };
        if pos < roster.len() {
            Some(roster[pos])
        } else if roster.len() > 0 {
            Some(roster[0])
        } else {
            None
        }
    };
    let player: PlayerId = match current {
        Some(p) => p,
        None => {
            let generated = Player::generate_with_name(rng, String::from_str(placeholder));
            let pid = generated.id;
            proof {
                lemma_generate_advances(old(rng)@, pid, generated.name);
            }
            database.players.insert(pid.0, generated);
            let mut team_owned = database.take_team(team_id);
            match which {
                RosterChoice::Lineup => team_owned.lineup.push(pid),
                RosterChoice::Rotation => team_owned.rotation.push(pid),
            }
            database.put_team(team_owned);
            pid
        },
    };
    let team = database.team(team_id);
    let roster: &Vec<PlayerId> = match which {
        RosterChoice::Lineup => &team.lineup,
        RosterChoice::Rotation => &team.rotation,
    };
    proof {
        if old_roster.len() > 0 {
            assert(roster@ == old_roster);
            if pos < old_roster.len() {
                assert(roster@[pos as int] == player);
            } else {
                assert(roster@[0] == player);
            }
        } else {
            assert(roster@[roster@.len() - 1] == player);
        }
    }
    let found = first_index_of(roster, player);
    (player, found)
}

/// The position of the first occurrence of `target` in `roster`.
fn first_index_of(roster: &Vec<PlayerId>, target: PlayerId) -> (i: usize)
    requires
        exists|j: int| 0 <= j < roster@.len() && roster@[j] == target,
    ensures
        i < roster@.len(),
        roster@[i as int] == target,
        forall|j: int| 0 <= j < i ==> roster@[j] != target,
{
    let mut i: usize = 0;
    while i < roster.len()
        invariant
            i <= roster@.len(),
            forall|j: int| 0 <= j < i ==> roster@[j] != target,
            exists|j: int| 0 <= j < roster@.len() && roster@[j] == target,
        decreases roster@.len() - i,
    {
        if roster[i] == target {
            return i;
        }
        i += 1;
    }
    proof {
        assert(false);
    }
    unreached()
}

/// Whether the store's players hold every member of both of the team's
/// active rosters, with headroom on the lineup cursor range.
pub open spec fn spec_rosters_listed(database: &Database, team: Team) -> bool {
    &&& team.lineup@.len() + 2 <= usize::MAX
    &&& team.rotation@.len() + 2 <= usize::MAX
    &&& forall|i: int|
        0 <= i < team.lineup@.len() ==> database.players.spec_has_key(
            (#[trigger] team.lineup@[i]).0,
        )
    &&& forall|i: int|
        0 <= i < team.rotation@.len() ==> database.players.spec_has_key(
            (#[trigger] team.rotation@[i]).0,
        )
}

/// Decide [`spec_rosters_listed`].
fn rosters_listed(database: &Database, team: &Team) -> (r: bool)
    ensures
        r == spec_rosters_listed(database, *team),
{
    if team.lineup.len() > usize::MAX - 2 {
        return false;
    }
    if team.rotation.len() > usize::MAX - 2 {
        return false;
    }
    let mut i: usize = 0;
    while i < team.lineup.len()
        invariant
            i <= team.lineup@.len(),
            forall|j: int|
                0 <= j < i ==> database.players.spec_has_key((#[trigger] team.lineup@[j]).0),
        decreases team.lineup@.len() - i,
    {
        if !database.players.contains(team.lineup[i].0) {
            return false;
        }
        i += 1;
    }
    let mut i: usize = 0;
    while i < team.rotation.len()
        invariant
            i <= team.rotation@.len(),
            forall|j: int|
                0 <= j < i ==> database.players.spec_has_key((#[trigger] team.rotation@[j]).0),
        decreases team.rotation@.len() - i,
    {
        if !database.players.contains(team.rotation[i].0) {
            return false;
        }
        i += 1;
    }
    true
}

/// What one tick resolved before (or instead of) a pitch: either a
/// completed event with its update line, or the resolved pitcher and batter
/// of a plate appearance whose pitch outcome is still to be decided.
#[derive(Debug)]
pub enum TickEvent {
    Update(String),
    Pitch { pitcher: PlayerId, batter: PlayerId },
}

/// A decided pitch outcome, as classified by the outcome model's rolls: a
/// taken ball or strike, a swinging strike, a foul, a batted ball fielded
/// for the out by the given defender (fly or ground), a home run, or a hit
/// worth the given number of bases.
#[derive(Debug, Clone, Copy, PartialEq, Eq, Structural)]
pub enum PitchOutcome {
    Ball,
    StrikeLooking,
    StrikeSwinging,
    Foul,
    Fielded { fielder: PlayerId, flyout: bool },
    HomeRun,
    Hit { bases: u8 },
}

/// Whether a draw falls below the steal-attempt threshold. The threshold is
/// a placeholder constant of 1/50 pending external calibration, compared
/// exactly: the draw stands for `raw / 2^52`.
pub open spec fn spec_steal_attempted(raw: u64) -> bool {
    50 * (raw as int) < RAW_BOUND as int
}

/// Whether a draw falls below the steal-success threshold, a placeholder
/// constant of 1/2 compared exactly.
pub open spec fn spec_steal_succeeded(raw: u64) -> bool {
    2 * (raw as int) < RAW_BOUND as int
}

/// The steal scan over the runners from position `i` on, with the generator
/// in state `m`: which runner resolves an attempt, if any, with its success
/// flag, and the generator state after the scan's draws. A runner whose next
/// base is occupied cannot run and consumes no draw; an unblocked runner
/// consumes one attempt draw, and the first whose draw clears the attempt
/// threshold consumes one further success draw and resolves the event.
pub open spec fn spec_steal_scan(brs: Seq<(PlayerId, u8)>, m: RngModel, i: int) -> (
    Option<(int, bool)>,
    RngModel,
)
    decreases brs.len() - i,
{
    if i < 0 || i >= brs.len() {
        (None, m)
    } else if spec_base_in(brs, brs[i].1 + 1) {
        spec_steal_scan(brs, m, i + 1)
    } else {
        let (attempt, m1) = spec_draw(m);
        if spec_steal_attempted(attempt) {
            let (success, m2) = spec_draw(m1);
            (Some((i, spec_steal_succeeded(success))), m2)
        } else {
            spec_steal_scan(brs, m1, i + 1)
        }
    }
}

/// The whole steal resolution of one event: one draw picks the (unused)
/// defender, then the runners are scanned in order.
pub open spec fn spec_steal_resolution(brs: Seq<(PlayerId, u8)>, m: RngModel) -> (
    Option<(int, bool)>,
    RngModel,
) {
    spec_steal_scan(brs, spec_draw(m).1, 0)
}

/// The update line of a resolved steal attempt by the runner at `i`.
pub open spec fn spec_steal_message(
    brs: Seq<(PlayerId, u8)>,
    database: &Database,
    i: int,
    success: bool,
) -> Seq<char> {
    let name = database.players.spec_get(brs[i].0.0).name@;
    let base = crate::util::base_name_spec((brs[i].1 + 1) as u8, HOME_BASE);
    if success {
        name + " steals "@ + base + "!"@
    } else {
        name + " gets caught stealing "@ + base + "."@
    }
}

/// The opening words of a base-hit update for a hit worth `bases` bases.
pub open spec fn spec_hit_lead(name: Seq<char>, bases: u8) -> Seq<char> {
    if bases == 1 {
        name + " hits a Single!"@
    } else if bases == 2 {
        name + " hits a Double!"@
    } else if bases == 3 {
        name + " hits a Triple!"@
    } else if bases == 4 {
        name + " hits a Quadruple!"@
    } else {
        name + " hits a "@ + dec_spec(bases as int) + "-base Hit!"@
    }
}

/// The " ... scores!" phrases appended for each of the first `n` runners of
/// `brs` that a hit worth `bases` bases sends home, in runner order.
pub open spec fn spec_hit_scores_suffix(
    brs: Seq<(PlayerId, u8)>,
    bases: u8,
    db: &Database,
    n: int,
) -> Seq<char>
    decreases n,
{
    if n <= 0 {
        Seq::<char>::empty()
    } else {
        spec_hit_scores_suffix(brs, bases, db, n - 1) + (if brs[n - 1].1 + bases >= HOME_BASE {
            " "@ + db.players.spec_get(brs[n - 1].0.0).name@ + " scores!"@
        } else {
            Seq::<char>::empty()
        })
    }
}

/// Whether `b` occurs in the list of base numbers.
fn base_list_contains(bases: &Vec<u8>, b: u8) -> (r: bool)
    ensures
        r == (exists|i: int| 0 <= i < bases@.len() && bases@[i] == b),
{
    let mut i: usize = 0;
    while i < bases.len()
        invariant
            i <= bases@.len(),
            forall|j: int| 0 <= j < i ==> bases@[j] != b,
        decreases bases@.len() - i,
    {
        if bases[i] == b {
            return true;
        }
        i += 1;
    }
    false
}

} // verus!
