//! Typed 128-bit identifiers. The all-zero value is reserved and always
//! invalid ("nil"); fresh identifiers come from a version-4 UUID generator
//! and are therefore never nil. The canonical rendering is the usual
//! 8-4-4-4-12 lower-case hexadecimal form of the big-endian value.

use crate::util::hex_fixed_spec;
use crate::util::hex_fixed_u64;
use vstd::prelude::*;
use vstd::string::StringExecFns;

verus! {

/// Identifier of a [`crate::Player`].
#[derive(Debug, Clone, Copy, Default, PartialEq, Eq, Structural, PartialOrd, Ord, Hash)]
pub struct PlayerId(pub u128);

/// Identifier of a [`crate::Team`].
#[derive(Debug, Clone, Copy, Default, PartialEq, Eq, Structural, PartialOrd, Ord, Hash)]
pub struct TeamId(pub u128);

/// Identifier of a [`crate::Game`].
#[derive(Debug, Clone, Copy, Default, PartialEq, Eq, Structural, PartialOrd, Ord, Hash)]
pub struct GameId(pub u128);

impl PlayerId {
    /// A freshly generated, never-nil identifier.
    pub fn new() -> (r: PlayerId)
        ensures
            r.0 != 0,
    {
        PlayerId(fresh_id())
    }
}

impl TeamId {
    /// A freshly generated, never-nil identifier.
    pub fn new() -> (r: TeamId)
        ensures
            r.0 != 0,
    {
        TeamId(fresh_id())
    }
}

impl GameId {
    /// A freshly generated, never-nil identifier.
    pub fn new() -> (r: GameId)
        ensures
            r.0 != 0,
    {
        GameId(fresh_id())
    }
}

/// Canonical string of a 128-bit identifier: 32 hexadecimal digits of the
/// big-endian value, in groups of 8-4-4-4-12 separated by hyphens.
pub open spec fn id_string_spec(id: u128) -> Seq<char> {
    hex_fixed_spec(id as int / 0x1000000000000000000000000, 8) + "-"@ + hex_fixed_spec(
        (id as int / 0x100000000000000000000) % 0x10000,
        4,
    ) + "-"@ + hex_fixed_spec((id as int / 0x10000000000000000) % 0x10000, 4) + "-"@
        + hex_fixed_spec((id as int / 0x1000000000000) % 0x10000, 4) + "-"@ + hex_fixed_spec(
        id as int % 0x1000000000000,
        12,
    )
}

/// Render an identifier in its canonical hyphenated form.
pub fn id_string(id: u128) -> (s: String)
    ensures
        s@ == id_string_spec(id),
{
    let p1: u64 = (id / 0x1000000000000000000000000u128) as u64;
    let p2: u64 = ((id / 0x100000000000000000000u128) % 0x10000) as u64;
    let p3: u64 = ((id / 0x10000000000000000u128) % 0x10000) as u64;
    let p4: u64 = ((id / 0x1000000000000u128) % 0x10000) as u64;
    let p5: u64 = (id % 0x1000000000000u128) as u64;
    proof {
        assert(id as int / 0x1000000000000000000000000 < 0x100000000int) by (nonlinear_arith)
            requires
                id <= 0xFFFFFFFFFFFFFFFFFFFFFFFFFFFFFFFFu128,
        ;
    }
    let mut s = hex_fixed_u64(p1, 8);
    s.append("-");
    let g2 = hex_fixed_u64(p2, 4);
    s.append(g2.as_str());
    s.append("-");
    let g3 = hex_fixed_u64(p3, 4);
    s.append(g3.as_str());
    s.append("-");
    let g4 = hex_fixed_u64(p4, 4);
    s.append(g4.as_str());
    s.append("-");
    let g5 = hex_fixed_u64(p5, 12);
    s.append(g5.as_str());
    s
}

/// Relies on uuid::Uuid::new_v4 and uuid::Uuid::as_u128: a freshly generated
/// random UUID always carries the version-4 marker bits, so its 128-bit value
/// is never zero.
#[verifier::external_body]
fn fresh_id() -> (r: u128)
    ensures
        r != 0,
{
    uuid::Uuid::new_v4().as_u128()
}

} // verus!
