//! The typed messages that the text-log grammar produces.

use vstd::prelude::*;
use crate::event::DamageComponent;
use crate::unit::Unit;

verus! {

/// Outcome flags of a hit; a message's hit mask is a union of them.
pub const HIT: u32 = 0x1;
pub const CRIT: u32 = 0x2;
pub const MISS: u32 = 0x4;
pub const FULL_ABSORB: u32 = 0x8;
pub const GLANCING: u32 = 0x10;
pub const CRUSHING: u32 = 0x20;
pub const FULL_BLOCK: u32 = 0x40;
pub const DODGE: u32 = 0x80;
pub const PARRY: u32 = 0x100;
pub const DEFLECT: u32 = 0x200;
pub const FULL_RESIST: u32 = 0x400;
pub const PARTIAL_RESIST: u32 = 0x800;
pub const PARTIAL_ABSORB: u32 = 0x1000;
pub const PARTIAL_BLOCK: u32 = 0x2000;
pub const EVADE: u32 = 0x4000;
pub const IMMUNE: u32 = 0x8000;
pub const REFLECT: u32 = 0x10000;

/// Magic school masks.
pub const SCHOOL_PHYSICAL: u8 = 0x1;
pub const SCHOOL_HOLY: u8 = 0x2;
pub const SCHOOL_FIRE: u8 = 0x4;
pub const SCHOOL_NATURE: u8 = 0x8;
pub const SCHOOL_FROST: u8 = 0x10;
pub const SCHOOL_SHADOW: u8 = 0x20;
pub const SCHOOL_ARCANE: u8 = 0x40;

#[derive(Clone, Copy, Debug, PartialEq, Eq, Structural)]
pub struct SpellCast {
    pub caster: Unit,
    pub target: Option<Unit>,
    pub spell_id: u32,
    pub hit_mask: u32,
}

#[derive(Clone, Debug)]
pub struct DamageDone {
    pub attacker: Unit,
    pub victim: Unit,
    pub spell_id: Option<u32>,
    pub spell_name: Option<String>,
    pub hit_mask: u32,
    pub blocked: u32,
    pub damage_over_time: bool,
    pub damage_components: Vec<DamageComponent>,
}

#[derive(Clone, Copy, Debug, PartialEq, Eq, Structural)]
pub struct HealDone {
    pub caster: Unit,
    pub target: Unit,
    pub spell_id: u32,
    pub total_heal: u32,
    pub effective_heal: u32,
    pub absorb: u32,
    pub hit_mask: u32,
}

#[derive(Clone, Copy, Debug, PartialEq, Eq, Structural)]
pub struct AuraApplication {
    pub caster: Unit,
    pub target: Unit,
    pub spell_id: u32,
    pub stack_amount: u32,
    pub delta: i8,
}

#[derive(Clone, Copy, Debug, PartialEq, Eq, Structural)]
pub struct Death {
    pub cause: Option<Unit>,
    pub victim: Unit,
}

#[derive(Clone, Copy, Debug, PartialEq, Eq, Structural)]
pub struct UnAura {
    pub un_aura_caster: Unit,
    pub target: Unit,
    pub aura_caster: Option<Unit>,
    pub un_aura_spell_id: u32,
    pub target_spell_id: u32,
    pub un_aura_amount: u8,
}

#[derive(Clone, Copy, Debug, PartialEq, Eq, Structural)]
pub struct Interrupt {
    pub target: Unit,
    pub interrupted_spell_id: u32,
}

#[derive(Clone, Copy, Debug, PartialEq, Eq, Structural)]
pub struct Loot {
    pub unit: Unit,
    pub item_id: u32,
    pub count: u32,
}

#[derive(Clone, Copy, Debug, PartialEq, Eq, Structural)]
pub struct InstanceMap {
    pub map_id: u32,
    pub instance_id: u32,
    pub map_difficulty: u8,
    pub unit: Unit,
}

#[derive(Clone, Copy, Debug, PartialEq, Eq, Structural)]
pub struct Summon {
    pub owner: Unit,
    pub unit: Unit,
}

#[derive(Clone, Debug)]
pub enum MessageType {
    SpellCastAttempt(SpellCast),
    SpellCast(SpellCast),
    SpellDamage(DamageDone),
    MeleeDamage(DamageDone),
    Heal(HealDone),
    AuraApplication(AuraApplication),
    Death(Death),
    Dispel(UnAura),
    Interrupt(Interrupt),
    Loot(Loot),
    InstanceMap(InstanceMap),
    Summon(Summon),
}

#[derive(Clone, Debug)]
pub struct Message {
    pub timestamp: u64,
    pub message_type: MessageType,
}

} // verus!
