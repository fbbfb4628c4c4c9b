//! Read-only reference catalogs: abilities, non-player actors and the
//! actors that take part in each encounter.

use vstd::prelude::*;
use crate::search::{first_index, lemma_first_index_is, lemma_first_index_none};
use crate::text::{contains_seq, str_contains, str_eq};
use crate::unit::{npc_unit_id, npc_unit_id_spec};

verus! {

#[derive(Clone, Debug)]
pub struct Spell {
    pub id: u32,
    pub expansion_id: u8,
    pub name: String,
    pub subtext: String,
    pub cost: u16,
    pub cost_in_percent: u16,
    pub power_type: u8,
    pub cast_time: u32,
    pub school_mask: u16,
    pub dispel_type: u8,
    pub range_max: u32,
    pub cooldown: u32,
    pub duration: i32,
    pub icon: u16,
    pub description: String,
    pub aura: String,
}

/// Two catalog entries that agree on every field.
pub open spec fn same_spell(a: Spell, b: Spell) -> bool {
    &&& a.id == b.id
    &&& a.expansion_id == b.expansion_id
    &&& a.name@ == b.name@
    &&& a.subtext@ == b.subtext@
    &&& a.cost == b.cost
    &&& a.cost_in_percent == b.cost_in_percent
    &&& a.power_type == b.power_type
    &&& a.cast_time == b.cast_time
    &&& a.school_mask == b.school_mask
    &&& a.dispel_type == b.dispel_type
    &&& a.range_max == b.range_max
    &&& a.cooldown == b.cooldown
    &&& a.duration == b.duration
    &&& a.icon == b.icon
    &&& a.description@ == b.description@
    &&& a.aura@ == b.aura@
}

impl Spell {
    /// A field-by-field copy.
    pub fn duplicate(&self) -> (r: Spell)
        ensures
            same_spell(r, *self),
    {
        Spell {
            id: self.id,
            expansion_id: self.expansion_id,
            name: self.name.clone(),
            subtext: self.subtext.clone(),
            cost: self.cost,
            cost_in_percent: self.cost_in_percent,
            power_type: self.power_type,
            cast_time: self.cast_time,
            school_mask: self.school_mask,
            dispel_type: self.dispel_type,
            range_max: self.range_max,
            cooldown: self.cooldown,
            duration: self.duration,
            icon: self.icon,
            description: self.description.clone(),
            aura: self.aura.clone(),
        }
    }
}

/// A non-player actor of the catalog, by display name.
#[derive(Clone, Debug)]
pub struct Npc {
    pub id: u32,
    pub name: String,
}

/// How a non-player actor takes part in an encounter.
#[derive(Clone, Copy, Debug)]
pub struct EncounterNpc {
    pub npc_id: u32,
    pub encounter_id: u32,
    pub requires_death: bool,
    pub can_start_encounter: bool,
    pub is_pivot: bool,
    pub health_treshold: Option<u8>,
}

/// An item of the catalog, with its quality grade (5 and above: epic or
/// better).
#[derive(Clone, Copy, Debug)]
pub struct Item {
    pub id: u32,
    pub quality: u8,
}

/// A map of the catalog, by display name.
#[derive(Clone, Debug)]
pub struct MapInfo {
    pub id: u32,
    pub name: String,
}

#[derive(Debug)]
pub struct Data {
    /// One list of abilities per expansion; expansion `e` is at `e - 1`.
    pub spells: Vec<Vec<Spell>>,
    pub npcs: Vec<Npc>,
    pub encounter_npcs: Vec<EncounterNpc>,
    pub items: Vec<Item>,
    pub maps: Vec<MapInfo>,
}

pub open spec fn map_name_is(name: Seq<char>) -> spec_fn(MapInfo) -> bool {
    |m: MapInfo| m.name@ == name
}

pub open spec fn item_is(id: u32) -> spec_fn(Item) -> bool {
    |i: Item| i.id == id
}

pub open spec fn spell_id_is(id: u32) -> spec_fn(Spell) -> bool {
    |s: Spell| s.id == id
}

pub open spec fn spell_name_is(name: Seq<char>) -> spec_fn(Spell) -> bool {
    |s: Spell| s.name@ == name
}

pub open spec fn spell_name_holds(name: Seq<char>) -> spec_fn(Spell) -> bool {
    |s: Spell| contains_seq(s.name@, name)
}

pub open spec fn npc_name_is(name: Seq<char>) -> spec_fn(Npc) -> bool {
    |n: Npc| n.name@ == name
}

pub open spec fn encounter_npc_is(npc_id: u32) -> spec_fn(EncounterNpc) -> bool {
    |e: EncounterNpc| e.npc_id == npc_id
}

/// Where a name finds its ability: the first exact match, else the first
/// name that contains it.
pub open spec fn spell_index_by_name(spells: Seq<Spell>, name: Seq<char>) -> Option<int> {
    match first_index(spells, spell_name_is(name)) {
        Some(i) => Some(i),
        None => first_index(spells, spell_name_holds(name)),
    }
}

pub open spec fn required_death_npc(e: EncounterNpc, encounter_id: u32) -> bool {
    e.encounter_id == encounter_id && e.requires_death
}

/// The unit ids of the encounter's required actors: one per catalog entry,
/// in catalog order.
pub open spec fn required_ids_spec(ens: Seq<EncounterNpc>, encounter_id: u32) -> Seq<u64>
    decreases ens.len(),
{
    if ens.len() == 0 {
        seq![]
    } else if required_death_npc(ens.last(), encounter_id) {
        required_ids_spec(ens.drop_last(), encounter_id).push(npc_unit_id_spec(ens.last().npc_id))
    } else {
        required_ids_spec(ens.drop_last(), encounter_id)
    }
}

impl Data {
    /// The ability list of an expansion; expansion 0 has none.
    pub open spec fn spell_catalog(&self, expansion_id: u8) -> Option<Seq<Spell>> {
        if expansion_id == 0 || expansion_id > self.spells@.len() {
            None
        } else {
            Some(self.spells@[expansion_id - 1]@)
        }
    }

    /// The catalog id of the first non-player actor with this display name.
    pub open spec fn npc_id_by_name(&self, name: Seq<char>) -> Option<u32> {
        match first_index(self.npcs@, npc_name_is(name)) {
            Some(i) => Some(self.npcs@[i].id),
            None => None,
        }
    }

    pub open spec fn encounter_npc_spec(&self, npc_id: u32) -> Option<EncounterNpc> {
        match first_index(self.encounter_npcs@, encounter_npc_is(npc_id)) {
            Some(i) => Some(self.encounter_npcs@[i]),
            None => None,
        }
    }

    pub open spec fn has_pivot_spec(&self, encounter_id: u32) -> bool {
        exists|i: int|
            0 <= i < self.encounter_npcs@.len() && #[trigger] self.encounter_npcs@[i].is_pivot
                && self.encounter_npcs@[i].encounter_id == encounter_id
    }

    pub open spec fn item_spec(&self, item_id: u32) -> Option<Item> {
        match first_index(self.items@, item_is(item_id)) {
            Some(i) => Some(self.items@[i]),
            None => None,
        }
    }

    pub fn get_item(&self, item_id: u32) -> (r: Option<Item>)
        ensures
            r == self.item_spec(item_id),
    {
        let mut i: usize = 0;
        while i < self.items.len()
            invariant
                i <= self.items@.len(),
                forall|j: int| 0 <= j < i ==> !(#[trigger] item_is(item_id)(self.items@[j])),
            decreases self.items@.len() - i,
        {
            if self.items[i].id == item_id {
                proof {
                    lemma_first_index_is(self.items@, item_is(item_id), i as int);
                }
                return Some(self.items[i]);
            }
            i = i + 1;
        }
        proof {
            lemma_first_index_none(self.items@, item_is(item_id));
        }
        None
    }

    pub open spec fn map_id_by_name(&self, name: Seq<char>) -> Option<u32> {
        match first_index(self.maps@, map_name_is(name)) {
            Some(i) => Some(self.maps@[i].id),
            None => None,
        }
    }

    pub fn get_map_id_by_name(&self, name: &str) -> (r: Option<u32>)
        ensures
            r == self.map_id_by_name(name@),
    {
        let mut i: usize = 0;
        while i < self.maps.len()
            invariant
                i <= self.maps@.len(),
                forall|j: int| 0 <= j < i ==> !(#[trigger] map_name_is(name@)(self.maps@[j])),
            decreases self.maps@.len() - i,
        {
            if str_eq(self.maps[i].name.as_str(), name) {
                proof {
                    lemma_first_index_is(self.maps@, map_name_is(name@), i as int);
                }
                return Some(self.maps[i].id);
            }
            i = i + 1;
        }
        proof {
            lemma_first_index_none(self.maps@, map_name_is(name@));
        }
        None
    }

    pub fn get_npc_id_by_name(&self, name: &str) -> (r: Option<u32>)
        ensures
            r == self.npc_id_by_name(name@),
    {
        let mut i: usize = 0;
        while i < self.npcs.len()
            invariant
                i <= self.npcs@.len(),
                forall|j: int| 0 <= j < i ==> !(#[trigger] npc_name_is(name@)(self.npcs@[j])),
            decreases self.npcs@.len() - i,
        {
            if str_eq(self.npcs[i].name.as_str(), name) {
                proof {
                    lemma_first_index_is(self.npcs@, npc_name_is(name@), i as int);
                }
                return Some(self.npcs[i].id);
            }
            i = i + 1;
        }
        proof {
            lemma_first_index_none(self.npcs@, npc_name_is(name@));
        }
        None
    }
}

pub trait RetrieveSpell {
    fn get_spell(&self, expansion_id: u8, spell_id: u32) -> Option<Spell>;

    fn get_spell_by_name(&self, expansion_id: u8, spell_name: &String) -> Option<Spell>;
}

fn find_spell_by_id(spells: &Vec<Spell>, spell_id: u32) -> (r: Option<usize>)
    ensures
        match r {
            Some(i) => first_index(spells@, spell_id_is(spell_id)) == Some(i as int),
            None => first_index(spells@, spell_id_is(spell_id)) is None,
        },
{
    let mut i: usize = 0;
    while i < spells.len()
        invariant
            i <= spells@.len(),
            forall|j: int| 0 <= j < i ==> !(#[trigger] spell_id_is(spell_id)(spells@[j])),
        decreases spells@.len() - i,
    {
        if spells[i].id == spell_id {
            proof {
                lemma_first_index_is(spells@, spell_id_is(spell_id), i as int);
            }
            return Some(i);
        }
        i = i + 1;
    }
    proof {
        lemma_first_index_none(spells@, spell_id_is(spell_id));
    }
    None
}

fn find_spell_by_name(spells: &Vec<Spell>, name: &str) -> (r: Option<usize>)
    ensures
        match r {
            Some(i) => spell_index_by_name(spells@, name@) == Some(i as int),
            None => spell_index_by_name(spells@, name@) is None,
        },
{
    let mut i: usize = 0;
    while i < spells.len()
        invariant
            i <= spells@.len(),
            forall|j: int| 0 <= j < i ==> !(#[trigger] spell_name_is(name@)(spells@[j])),
        decreases spells@.len() - i,
    {
        if str_eq(spells[i].name.as_str(), name) {
            proof {
                lemma_first_index_is(spells@, spell_name_is(name@), i as int);
            }
            return Some(i);
        }
        i = i + 1;
    }
    proof {
        lemma_first_index_none(spells@, spell_name_is(name@));
    }
    let mut i: usize = 0;
    while i < spells.len()
        invariant
            i <= spells@.len(),
            first_index(spells@, spell_name_is(name@)) is None,
            forall|j: int| 0 <= j < i ==> !(#[trigger] spell_name_holds(name@)(spells@[j])),
        decreases spells@.len() - i,
    {
        if str_contains(spells[i].name.as_str(), name) {
            proof {
                lemma_first_index_is(spells@, spell_name_holds(name@), i as int);
            }
            return Some(i);
        }
        i = i + 1;
    }
    proof {
        lemma_first_index_none(spells@, spell_name_holds(name@));
    }
    None
}

impl RetrieveSpell for Data {
    fn get_spell(&self, expansion_id: u8, spell_id: u32) -> (r: Option<Spell>)
        ensures
            match self.spell_catalog(expansion_id) {
                None => r is None,
                Some(spells) => match first_index(spells, spell_id_is(spell_id)) {
                    None => r is None,
                    Some(i) => r is Some && same_spell(r->0, spells[i]),
                },
            },
    {
        if expansion_id == 0 || expansion_id as usize > self.spells.len() {
            return None;
        }
        let spells = &self.spells[expansion_id as usize - 1];
        match find_spell_by_id(spells, spell_id) {
            Some(i) => Some(spells[i].duplicate()),
            None => None,
        }
    }

    fn get_spell_by_name(&self, expansion_id: u8, spell_name: &String) -> (r: Option<Spell>)
        ensures
            match self.spell_catalog(expansion_id) {
                None => r is None,
                Some(spells) => match spell_index_by_name(spells, spell_name@) {
                    None => r is None,
                    Some(i) => r is Some && same_spell(r->0, spells[i]),
                },
            },
    {
        if expansion_id == 0 || expansion_id as usize > self.spells.len() {
            return None;
        }
        let spells = &self.spells[expansion_id as usize - 1];
        match find_spell_by_name(spells, spell_name.as_str()) {
            Some(i) => Some(spells[i].duplicate()),
            None => None,
        }
    }
}

pub trait RetrieveEncounterNpc {
    fn get_encounter_npc(&self, id: u32) -> Option<EncounterNpc>;

    fn get_all_encounter_npcs(&self) -> Vec<EncounterNpc>;

    fn get_required_death_creature_ids(&self, encounter_id: u32) -> Vec<u64>;

    fn encounter_has_pivot(&self, encounter_id: u32) -> bool;
}

impl RetrieveEncounterNpc for Data {
    fn get_encounter_npc(&self, id: u32) -> (r: Option<EncounterNpc>)
        ensures
            r == self.encounter_npc_spec(id),
    {
        let mut i: usize = 0;
        while i < self.encounter_npcs.len()
            invariant
                i <= self.encounter_npcs@.len(),
                forall|j: int|
                    0 <= j < i ==> !(#[trigger] encounter_npc_is(id)(self.encounter_npcs@[j])),
            decreases self.encounter_npcs@.len() - i,
        {
            if self.encounter_npcs[i].npc_id == id {
                proof {
                    lemma_first_index_is(self.encounter_npcs@, encounter_npc_is(id), i as int);
                }
                return Some(self.encounter_npcs[i]);
            }
            i = i + 1;
        }
        proof {
            lemma_first_index_none(self.encounter_npcs@, encounter_npc_is(id));
        }
        None
    }

    fn get_all_encounter_npcs(&self) -> (r: Vec<EncounterNpc>)
        ensures
            r@ == self.encounter_npcs@,
    {
        let mut r: Vec<EncounterNpc> = Vec::new();
        let mut i: usize = 0;
        while i < self.encounter_npcs.len()
            invariant
                i <= self.encounter_npcs@.len(),
                r@ == self.encounter_npcs@.subrange(0, i as int),
            decreases self.encounter_npcs@.len() - i,
        {
            r.push(self.encounter_npcs[i]);
            i = i + 1;
            assert(r@ =~= self.encounter_npcs@.subrange(0, i as int));
        }
        assert(r@ =~= self.encounter_npcs@);
        r
    }

    fn get_required_death_creature_ids(&self, encounter_id: u32) -> (r: Vec<u64>)
        ensures
            r@ == required_ids_spec(self.encounter_npcs@, encounter_id),
            forall|x: u64|
                r@.contains(x) <==> exists|i: int|
                    0 <= i < self.encounter_npcs@.len() && required_death_npc(
                        #[trigger] self.encounter_npcs@[i],
                        encounter_id,
                    ) && x == npc_unit_id_spec(self.encounter_npcs@[i].npc_id),
    {
        let mut r: Vec<u64> = Vec::new();
        let mut i: usize = 0;
        while i < self.encounter_npcs.len()
            invariant
                i <= self.encounter_npcs@.len(),
                r@ == required_ids_spec(self.encounter_npcs@.subrange(0, i as int), encounter_id),
                forall|x: u64|
                    r@.contains(x) <==> exists|k: int|
                        0 <= k < i && required_death_npc(
                            #[trigger] self.encounter_npcs@[k],
                            encounter_id,
                        ) && x == npc_unit_id_spec(self.encounter_npcs@[k].npc_id),
            decreases self.encounter_npcs@.len() - i,
        {
            let e = self.encounter_npcs[i];
            assert(self.encounter_npcs@.subrange(0, i + 1).drop_last() =~= self.encounter_npcs@.subrange(0, i as int));
            assert(self.encounter_npcs@.subrange(0, i + 1).last() == e);
            if e.encounter_id == encounter_id && e.requires_death {
                let id = npc_unit_id(e.npc_id);
                let ghost old_r = r@;
                r.push(id);
                assert forall|x: u64|
                    r@.contains(x) <==> exists|k: int|
                        0 <= k < i + 1 && required_death_npc(
                            #[trigger] self.encounter_npcs@[k],
                            encounter_id,
                        ) && x == npc_unit_id_spec(self.encounter_npcs@[k].npc_id) by {
                    if r@.contains(x) {
                        let j = choose|j: int| 0 <= j < r@.len() && r@[j] == x;
                        if j < old_r.len() {
                            assert(old_r[j] == x);
                            assert(old_r.contains(x));
                        }
                    }
                    if exists|k: int|
                        0 <= k < i + 1 && required_death_npc(
                            #[trigger] self.encounter_npcs@[k],
                            encounter_id,
                        ) && x == npc_unit_id_spec(self.encounter_npcs@[k].npc_id) {
                        let k = choose|k: int|
                            0 <= k < i + 1 && required_death_npc(
                                #[trigger] self.encounter_npcs@[k],
                                encounter_id,
                            ) && x == npc_unit_id_spec(self.encounter_npcs@[k].npc_id);
                        if k < i {
                            assert(old_r.contains(x));
                            let j = choose|j: int| 0 <= j < old_r.len() && old_r[j] == x;
                            assert(r@[j] == x);
                        } else {
                            assert(r@[old_r.len() as int] == x);
                        }
                    }
                }
            }
            i = i + 1;
        }
        assert(self.encounter_npcs@.subrange(0, i as int) =~= self.encounter_npcs@);
        r
    }

    fn encounter_has_pivot(&self, encounter_id: u32) -> (r: bool)
        ensures
            r == self.has_pivot_spec(encounter_id),
    {
        let mut i: usize = 0;
        while i < self.encounter_npcs.len()
            invariant
                i <= self.encounter_npcs@.len(),
                forall|j: int|
                    0 <= j < i ==> !(#[trigger] self.encounter_npcs@[j].is_pivot
                        && self.encounter_npcs@[j].encounter_id == encounter_id),
            decreases self.encounter_npcs@.len() - i,
        {
            if self.encounter_npcs[i].is_pivot && self.encounter_npcs[i].encounter_id == encounter_id {
                return true;
            }
            i = i + 1;
        }
        false
    }
}

} // verus!
