//! Canonical actor identities.
//!
//! A non-player actor's id is its catalog id shifted into bits 24..56 under
//! the reserved prefix `0xF13` in the top twelve bits; since the catalog id
//! has no bits above 32, the shift equals a left rotation by 24 of the
//! 64-bit value. A player's id is taken from the SHA-256 digest of the raw
//! name, kept below 2^60 so that it never meets a non-player id.

use vstd::prelude::*;

verus! {

#[derive(Clone, Copy, Debug, PartialEq, Eq, Structural)]
pub struct Unit {
    pub is_player: bool,
    pub is_self_damage: bool,
    pub is_mind_control: bool,
    pub unit_id: u64,
}

impl Default for Unit {
    /// A non-player actor with id 0.
    fn default() -> (r: Unit)
        ensures
            r == (Unit { is_player: false, is_self_damage: false, is_mind_control: false, unit_id: 0 }),
    {
        Unit { is_player: false, is_self_damage: false, is_mind_control: false, unit_id: 0 }
    }
}

/// The share of an instance's players that are in combat, as reported by a
/// telemetry channel.
#[derive(Clone, Copy, Debug, PartialEq, Eq, Structural)]
pub struct PlayersInCombat {
    pub unit: Unit,
    pub percentage: u32,
}

pub const NPC_UNIT_PREFIX: u64 = 0xF130000000000000;

pub const NPC_ID_SHIFT: u64 = 0x1000000;

pub const PLAYER_ID_BOUND: u64 = 0x1000000000000000;

pub open spec fn npc_unit_id_spec(npc_id: u32) -> u64 {
    (NPC_UNIT_PREFIX + npc_id * NPC_ID_SHIFT) as u64
}

/// The unit id of the non-player actor with catalog id `npc_id`.
pub fn npc_unit_id(npc_id: u32) -> (r: u64)
    ensures
        r == npc_unit_id_spec(npc_id),
        r as int == NPC_UNIT_PREFIX + npc_id * NPC_ID_SHIFT,
{
    assert(npc_id * NPC_ID_SHIFT <= 0xFFFFFFFF * 0x1000000) by (nonlinear_arith)
        requires
            npc_id <= 0xFFFFFFFF,
    ;
    NPC_UNIT_PREFIX + (npc_id as u64) * NPC_ID_SHIFT
}

/// Distinct catalog ids never give the same non-player unit id.
pub proof fn lemma_npc_unit_id_injective(a: u32, b: u32)
    requires
        a != b,
    ensures
        npc_unit_id_spec(a) != npc_unit_id_spec(b),
{
    assert(a * NPC_ID_SHIFT <= 0xFFFFFFFF * 0x1000000) by (nonlinear_arith)
        requires
            a <= 0xFFFFFFFF,
    ;
    assert(b * NPC_ID_SHIFT <= 0xFFFFFFFF * 0x1000000) by (nonlinear_arith)
        requires
            b <= 0xFFFFFFFF,
    ;
    assert(a * NPC_ID_SHIFT != b * NPC_ID_SHIFT) by (nonlinear_arith)
        requires
            a != b,
    ;
}

/// The SHA-256 digest of the UTF-8 bytes of a string.
pub uninterp spec fn sha256_of(s: Seq<char>) -> Seq<u8>;

/// Relies on sha2's `Sha256::digest`, applied to the UTF-8 bytes of `s`:
/// the digest depends on the text alone and is 32 bytes long.
#[verifier::external_body]
fn sha256_str(s: &str) -> (r: Vec<u8>)
    ensures
        r@ == sha256_of(s@),
        r@.len() == 32,
{
    <sha2::Sha256 as sha2::Digest>::digest(s.as_bytes()).to_vec()
}

/// The first eight bytes of a digest read big-endian, with the top four
/// bits cleared.
pub open spec fn digest_prefix_id(d: Seq<u8>) -> int {
    ((((((((d[0] % 16) as int * 256 + d[1]) * 256 + d[2]) * 256 + d[3]) * 256 + d[4]) * 256
        + d[5]) * 256 + d[6]) * 256 + d[7])
}

pub open spec fn player_unit_id_spec(name: Seq<char>) -> u64 {
    digest_prefix_id(sha256_of(name)) as u64
}

/// The unit id of the player whose raw name is `name`.
pub fn player_unit_id(name: &str) -> (r: u64)
    ensures
        r == player_unit_id_spec(name@),
        r < PLAYER_ID_BOUND,
{
    let d = sha256_str(name);
    unit_id_from_digest(&d)
}

/// The player id that a name digest gives: its first eight bytes read
/// big-endian, with the top four bits cleared.
pub fn unit_id_from_digest(d: &Vec<u8>) -> (r: u64)
    requires
        d@.len() >= 8,
    ensures
        r as int == digest_prefix_id(d@),
        r < PLAYER_ID_BOUND,
{
    let mut v: u64 = (d[0] % 16) as u64;
    v = v * 256 + d[1] as u64;
    v = v * 256 + d[2] as u64;
    v = v * 256 + d[3] as u64;
    v = v * 256 + d[4] as u64;
    v = v * 256 + d[5] as u64;
    v = v * 256 + d[6] as u64;
    v = v * 256 + d[7] as u64;
    v
}

/// Every player id lies below every non-player id.
pub proof fn lemma_player_ids_below_npc_ids(name: Seq<char>, npc_id: u32)
    ensures
        player_unit_id_spec(name) < npc_unit_id_spec(npc_id),
{
    let d = sha256_of(name);
    assert(0 <= digest_prefix_id(d) < PLAYER_ID_BOUND);
    assert(0 <= npc_id * NPC_ID_SHIFT <= 0xFFFFFFFF * 0x1000000) by (nonlinear_arith)
        requires
            0 <= npc_id <= 0xFFFFFFFF,
    ;
}

} // verus!
