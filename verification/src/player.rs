//! Players: identifier, display name, 26 continuous attributes, and a few
//! discrete attributes rolled once at generation time.
//!
//! A continuous attribute is held as a raw 52-bit word `w` drawn from the
//! generator and stands for the value `w / 2^52` in `[0, 1)`; consumers that
//! need the floating-point value perform that division themselves.

use crate::database::Database;
use crate::database::DatabaseError;
use crate::id::PlayerId;
use crate::rng::pick_index_spec;
use crate::rng::spec_advance;
use crate::rng::spec_draw;
use crate::rng::Rng;
use crate::rng::RngModel;
use vstd::prelude::*;

verus! {

/// A simulation entity with a primary key and per-play numeric inputs.
#[derive(Debug, Clone, PartialEq)]
pub struct Player {
    pub id: PlayerId,
    pub name: String,
    pub thwackability: u64,
    pub moxie: u64,
    pub divinity: u64,
    pub musclitude: u64,
    pub patheticism: u64,
    pub buoyancy: u64,
    pub base_thirst: u64,
    pub laserlikeness: u64,
    pub ground_friction: u64,
    pub continuation: u64,
    pub indulgence: u64,
    pub martyrdom: u64,
    pub tragicness: u64,
    pub shakespearianism: u64,
    pub suppression: u64,
    pub unthwackability: u64,
    pub coldness: u64,
    pub overpowerment: u64,
    pub ruthlessness: u64,
    pub omniscience: u64,
    pub tenaciousness: u64,
    pub watchfulness: u64,
    pub anticapitalism: u64,
    pub chasiness: u64,
    pub pressurization: u64,
    pub cinnamon: u64,
    pub soul: u16,
    pub peanut_allergy: bool,
    pub fate: u8,
    pub blood: u8,
    pub coffee: u8,
}

/// The player rolled from generator state `m` with the given identifier and
/// name, together with the generator state left behind: 26 attribute draws in
/// declaration order, then soul, peanut allergy, fate (whose trailing ritual
/// roll is drawn and discarded), blood and coffee.
pub open spec fn spec_generate(m: RngModel, id: PlayerId, name: String) -> (Player, RngModel) {
    let (w0, m0) = spec_draw(m);
    let (w1, m1) = spec_draw(m0);
    let (w2, m2) = spec_draw(m1);
    let (w3, m3) = spec_draw(m2);
    let (w4, m4) = spec_draw(m3);
    let (w5, m5) = spec_draw(m4);
    let (w6, m6) = spec_draw(m5);
    let (w7, m7) = spec_draw(m6);
    let (w8, m8) = spec_draw(m7);
    let (w9, m9) = spec_draw(m8);
    let (w10, m10) = spec_draw(m9);
    let (w11, m11) = spec_draw(m10);
    let (w12, m12) = spec_draw(m11);
    let (w13, m13) = spec_draw(m12);
    let (w14, m14) = spec_draw(m13);
    let (w15, m15) = spec_draw(m14);
    let (w16, m16) = spec_draw(m15);
    let (w17, m17) = spec_draw(m16);
    let (w18, m18) = spec_draw(m17);
    let (w19, m19) = spec_draw(m18);
    let (w20, m20) = spec_draw(m19);
    let (w21, m21) = spec_draw(m20);
    let (w22, m22) = spec_draw(m21);
    let (w23, m23) = spec_draw(m22);
    let (w24, m24) = spec_draw(m23);
    let (w25, m25) = spec_draw(m24);
    let (wsoul, msoul) = spec_draw(m25);
    let (wallergy, mallergy) = spec_draw(msoul);
    let (wfate, mfate) = spec_draw(mallergy);
    let (writual, mritual) = spec_draw(mfate);
    let (wblood, mblood) = spec_draw(mritual);
    let (wcoffee, mcoffee) = spec_draw(mblood);
    (
        Player {
            id,
            name,
            thwackability: w0,
            moxie: w1,
            divinity: w2,
            musclitude: w3,
            patheticism: w4,
            buoyancy: w5,
            base_thirst: w6,
            laserlikeness: w7,
            ground_friction: w8,
            continuation: w9,
            indulgence: w10,
            martyrdom: w11,
            tragicness: w12,
            shakespearianism: w13,
            suppression: w14,
            unthwackability: w15,
            coldness: w16,
            overpowerment: w17,
            ruthlessness: w18,
            omniscience: w19,
            tenaciousness: w20,
            watchfulness: w21,
            anticapitalism: w22,
            chasiness: w23,
            pressurization: w24,
            cinnamon: w25,
            soul: (2 + pick_index_spec(wsoul, 8)) as u16,
            peanut_allergy: pick_index_spec(wallergy, 2) == 0,
            fate: pick_index_spec(wfate, 100) as u8,
            blood: pick_index_spec(wblood, 13) as u8,
            coffee: pick_index_spec(wcoffee, 13) as u8,
        },
        mcoffee,
    )
}

/// Generation consumes exactly 32 draws, so the generator state it leaves
/// behind depends on the starting state alone, not on the identifier or the
/// name rolled into the player.
pub proof fn lemma_generate_advances(m: RngModel, id: PlayerId, name: String)
    ensures
        spec_generate(m, id, name).1 == spec_advance(m, 32),
{
    reveal_with_fuel(spec_advance, 33);
}

impl Player {
    /// Roll a brand-new player from the generator, with a fresh identifier
    /// and the given name. Deterministic but for the identifier: everything
    /// else is a function of the generator state alone.
    pub fn generate_with_name(rng: &mut Rng, name: String) -> (p: Player)
        requires
            old(rng).wf(),
        ensures
            final (rng).wf(),
            p.id.0 != 0,
            (p, final (rng)@) == spec_generate(old(rng)@, p.id, name),
    {
        let id = PlayerId::new();
        let thwackability = rng.next_raw();
        let moxie = rng.next_raw();
        let divinity = rng.next_raw();
        let musclitude = rng.next_raw();
        let patheticism = rng.next_raw();
        let buoyancy = rng.next_raw();
        let base_thirst = rng.next_raw();
        let laserlikeness = rng.next_raw();
        let ground_friction = rng.next_raw();
        let continuation = rng.next_raw();
        let indulgence = rng.next_raw();
        let martyrdom = rng.next_raw();
        let tragicness = rng.next_raw();
        let shakespearianism = rng.next_raw();
        let suppression = rng.next_raw();
        let unthwackability = rng.next_raw();
        let coldness = rng.next_raw();
        let overpowerment = rng.next_raw();
        let ruthlessness = rng.next_raw();
        let omniscience = rng.next_raw();
        let tenaciousness = rng.next_raw();
        let watchfulness = rng.next_raw();
        let anticapitalism = rng.next_raw();
        let chasiness = rng.next_raw();
        let pressurization = rng.next_raw();
        let cinnamon = rng.next_raw();
        let soul_slot = rng.pick_slot(8);
        let allergy_slot = rng.pick_slot(2);
        let fate_slot = rng.pick_slot(100);
        // the ritual is rolled right after fate but not yet chosen, so one
        // draw is consumed and discarded
        let _ritual = rng.next_raw();
        let blood_slot = rng.pick_slot(13);
        let coffee_slot = rng.pick_slot(13);
        Player {
            id,
            name,
            thwackability,
            moxie,
            divinity,
            musclitude,
            patheticism,
            buoyancy,
            base_thirst,
            laserlikeness,
            ground_friction,
            continuation,
            indulgence,
            martyrdom,
            tragicness,
            shakespearianism,
            suppression,
            unthwackability,
            coldness,
            overpowerment,
            ruthlessness,
            omniscience,
            tenaciousness,
            watchfulness,
            anticapitalism,
            chasiness,
            pressurization,
            cinnamon,
            soul: (soul_slot + 2) as u16,
            peanut_allergy: allergy_slot == 0,
            fate: fate_slot as u8,
            blood: blood_slot as u8,
            coffee: coffee_slot as u8,
        }
    }

    /// Local identity check: the only way a player by itself can be invalid
    /// is a nil identifier.
    pub fn problems(&self, _database: &Database) -> (r: Vec<DatabaseError>)
        ensures
            r@.len() == 0 <==> self.id.0 != 0,
            self.id.0 == 0 ==> r@ == seq![DatabaseError::NilId],
    {
        let mut problems: Vec<DatabaseError> = Vec::new();
        if self.id.0 == 0 {
            problems.push(DatabaseError::NilId);
        }
        problems
    }

}

} // verus!
