//! The structured event vocabulary consumed by the attempt state machine.

use vstd::prelude::*;

verus! {

/// A non-player actor instance: its unit id, its catalog id, and the
/// character that controls it, if any.
#[derive(Clone, Copy, Debug, PartialEq, Eq, Structural)]
pub struct Creature {
    pub creature_id: u64,
    pub encounter_npc_id: u32,
    pub owner: Option<u32>,
}

#[derive(Clone, Copy, Debug, PartialEq, Eq, Structural)]
pub struct Player {
    pub character_id: u32,
}

#[derive(Clone, Copy, Debug, PartialEq, Eq, Structural)]
pub enum Actor {
    Creature(Creature),
    Player(Player),
}

#[derive(Clone, Copy, Debug, PartialEq, Eq, Structural)]
pub enum PowerType {
    Mana,
    Rage,
    Focus,
    Energy,
    Happiness,
    Health,
}

#[derive(Clone, Copy, Debug, PartialEq, Eq, Structural)]
pub struct DamageComponent {
    pub school_mask: u8,
    pub damage: u32,
    pub resisted_or_glanced: u32,
    pub absorbed: u32,
}

#[derive(Clone, Debug)]
pub enum EventType {
    CombatState { in_combat: bool },
    Death { murder: Option<Actor> },
    Power { power_type: PowerType, max_power: u32, current_power: u32 },
    SpellDamage { victim: Actor, components: Vec<DamageComponent> },
    MeleeDamage { victim: Actor, components: Vec<DamageComponent> },
    Heal { effective: u32 },
    Threat { threatened: Actor, amount: u32 },
    AuraApplication { spell_id: u32 },
    PercentPlayersInCombat { percentage: u32 },
    Loot { item_id: u32, amount: u32 },
}

#[derive(Clone, Debug)]
pub struct Event {
    pub id: u32,
    pub timestamp: u64,
    pub subject: Actor,
    pub event: EventType,
}

/// The character credited for what an actor does: a player itself, or the
/// controller of a pet or vehicle.
pub open spec fn owner_or_self(a: Actor) -> Option<u32> {
    match a {
        Actor::Player(p) => Some(p.character_id),
        Actor::Creature(c) => c.owner,
    }
}

pub fn get_owner_or_self(a: &Actor) -> (r: Option<u32>)
    ensures
        r == owner_or_self(*a),
{
    match a {
        Actor::Player(p) => Some(p.character_id),
        Actor::Creature(c) => c.owner,
    }
}

pub open spec fn add_sat(a: u32, b: u32) -> u32 {
    if a + b <= u32::MAX {
        (a + b) as u32
    } else {
        u32::MAX
    }
}

/// The damage of all components, saturating at `u32::MAX`.
pub open spec fn components_total(c: Seq<DamageComponent>) -> u32
    decreases c.len(),
{
    if c.len() == 0 {
        0
    } else {
        add_sat(components_total(c.drop_last()), c.last().damage)
    }
}

pub fn get_spell_components_total(c: &Vec<DamageComponent>) -> (r: u32)
    ensures
        r == components_total(c@),
{
    let mut total: u32 = 0;
    let mut i: usize = 0;
    while i < c.len()
        invariant
            i <= c@.len(),
            total == components_total(c@.subrange(0, i as int)),
        decreases c@.len() - i,
    {
        assert(c@.subrange(0, i + 1).drop_last() =~= c@.subrange(0, i as int));
        total = total.saturating_add(c[i].damage);
        i = i + 1;
    }
    assert(c@.subrange(0, c@.len() as int) =~= c@);
    total
}

} // verus!
