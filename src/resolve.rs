//! Session-scoped identity and ability resolution.
//!
//! Each session keeps a cache keyed by the raw text: an entry, once made,
//! is returned unchanged for the rest of the session.

use vstd::prelude::*;
use vstd::string::*;
use crate::data::{Data, RetrieveSpell, spell_index_by_name};
use crate::search::{first_index, lemma_first_index_is, lemma_first_index_none, lemma_first_index_push_new};
use crate::text::{contains_seq, str_contains, str_eq};
use crate::unit::{Unit, npc_unit_id, npc_unit_id_spec, player_unit_id, player_unit_id_spec};

verus! {

pub open spec fn unit_key_is(name: Seq<char>) -> spec_fn((Seq<char>, Unit)) -> bool {
    |e: (Seq<char>, Unit)| e.0 == name
}

pub open spec fn spell_key_is(name: Seq<char>) -> spec_fn((Seq<char>, Option<u32>)) -> bool {
    |e: (Seq<char>, Option<u32>)| e.0 == name
}

pub open spec fn unit_cache_view(c: Seq<(String, Unit)>) -> Seq<(Seq<char>, Unit)> {
    c.map_values(|e: (String, Unit)| (e.0@, e.1))
}

pub open spec fn spell_cache_view(c: Seq<(String, Option<u32>)>) -> Seq<(Seq<char>, Option<u32>)> {
    c.map_values(|e: (String, Option<u32>)| (e.0@, e.1))
}

/// What a raw actor reference denotes, before any cache is consulted.
pub open spec fn resolve_unit_spec(data: Data, name: Seq<char>) -> Option<Unit> {
    let self_damage = contains_seq(name, "self damage"@);
    if name == "Unknown"@ {
        None
    } else {
        match data.npc_id_by_name(name) {
            Some(id) => Some(
                Unit {
                    is_player: false,
                    unit_id: npc_unit_id_spec(id),
                    is_self_damage: self_damage,
                    is_mind_control: false,
                },
            ),
            None => if contains_seq(name, "'s "@) {
                None
            } else {
                Some(
                    Unit {
                        is_player: true,
                        unit_id: player_unit_id_spec(name),
                        is_self_damage: self_damage,
                        is_mind_control: !self_damage && contains_seq(name, "("@) && contains_seq(
                            name,
                            ")"@,
                        ),
                    },
                )
            },
        }
    }
}

/// One resolution of `name` against a session cache: the result and the
/// cache afterwards.
pub open spec fn unit_resolution(cache: Seq<(Seq<char>, Unit)>, data: Data, name: Seq<char>) -> (
    Option<Unit>,
    Seq<(Seq<char>, Unit)>,
) {
    if name == "Unknown"@ {
        (None, cache)
    } else {
        match first_index(cache, unit_key_is(name)) {
            Some(i) => (Some(cache[i].1), cache),
            None => match resolve_unit_spec(data, name) {
                Some(u) => (Some(u), cache.push((name, u))),
                None => (None, cache),
            },
        }
    }
}

/// The ability id that a name denotes in the first expansion's catalog.
pub open spec fn resolve_spell_spec(data: Data, name: Seq<char>) -> Option<u32> {
    match data.spell_catalog(1) {
        None => None,
        Some(spells) => match spell_index_by_name(spells, name) {
            Some(i) => Some(spells[i].id),
            None => None,
        },
    }
}

/// One cached lookup of an ability name: misses are cached too.
pub open spec fn spell_lookup(cache: Seq<(Seq<char>, Option<u32>)>, data: Data, name: Seq<char>) -> (
    Option<u32>,
    Seq<(Seq<char>, Option<u32>)>,
) {
    match first_index(cache, spell_key_is(name)) {
        Some(i) => (cache[i].1, cache),
        None => (resolve_spell_spec(data, name), cache.push((name, resolve_spell_spec(data, name)))),
    }
}

pub open spec fn spell_resolution(cache: Seq<(Seq<char>, Option<u32>)>, data: Data, name: Seq<char>) -> (
    Option<u32>,
    Seq<(Seq<char>, Option<u32>)>,
) {
    if name == "Unknown"@ {
        (None, cache)
    } else {
        spell_lookup(cache, data, name)
    }
}

/// Resolution of a periodic ability: the plain name first (exact, then
/// contained), then its "(dot)" variant.
pub open spec fn periodic_spell_resolution(
    cache: Seq<(Seq<char>, Option<u32>)>,
    data: Data,
    name: Seq<char>,
) -> (Option<u32>, Seq<(Seq<char>, Option<u32>)>) {
    if name == "Unknown"@ {
        (None, cache)
    } else {
        let (plain, after) = spell_lookup(cache, data, name);
        if plain is Some {
            (plain, after)
        } else {
            spell_lookup(after, data, name + " (dot)"@)
        }
    }
}

fn find_unit(cache: &Vec<(String, Unit)>, name: &str) -> (r: Option<usize>)
    ensures
        match r {
            Some(i) => first_index(unit_cache_view(cache@), unit_key_is(name@)) == Some(i as int),
            None => first_index(unit_cache_view(cache@), unit_key_is(name@)) is None,
        },
{
    let ghost v = unit_cache_view(cache@);
    let mut i: usize = 0;
    while i < cache.len()
        invariant
            i <= cache@.len(),
            v == unit_cache_view(cache@),
            forall|j: int| 0 <= j < i ==> !(#[trigger] unit_key_is(name@)(v[j])),
        decreases cache@.len() - i,
    {
        if str_eq(cache[i].0.as_str(), name) {
            proof {
                lemma_first_index_is(v, unit_key_is(name@), i as int);
            }
            return Some(i);
        }
        i = i + 1;
    }
    proof {
        lemma_first_index_none(v, unit_key_is(name@));
    }
    None
}

fn find_spell(cache: &Vec<(String, Option<u32>)>, name: &str) -> (r: Option<usize>)
    ensures
        match r {
            Some(i) => first_index(spell_cache_view(cache@), spell_key_is(name@)) == Some(i as int),
            None => first_index(spell_cache_view(cache@), spell_key_is(name@)) is None,
        },
{
    let ghost v = spell_cache_view(cache@);
    let mut i: usize = 0;
    while i < cache.len()
        invariant
            i <= cache@.len(),
            v == spell_cache_view(cache@),
            forall|j: int| 0 <= j < i ==> !(#[trigger] spell_key_is(name@)(v[j])),
        decreases cache@.len() - i,
    {
        if str_eq(cache[i].0.as_str(), name) {
            proof {
                lemma_first_index_is(v, spell_key_is(name@), i as int);
            }
            return Some(i);
        }
        i = i + 1;
    }
    proof {
        lemma_first_index_none(v, spell_key_is(name@));
    }
    None
}

/// Classifies a raw actor reference that no cache holds.
pub fn classify_unit(data: &Data, unit_name: &str) -> (r: Option<Unit>)
    ensures
        r == resolve_unit_spec(*data, unit_name@),
{
    if str_eq(unit_name, "Unknown") {
        return None;
    }
    let self_damage = str_contains(unit_name, "self damage");
    match data.get_npc_id_by_name(unit_name) {
        Some(id) => Some(
            Unit {
                is_player: false,
                unit_id: npc_unit_id(id),
                is_self_damage: self_damage,
                is_mind_control: false,
            },
        ),
        None => {
            if str_contains(unit_name, "'s ") {
                return None;
            }
            let mind_control = !self_damage && str_contains(unit_name, "(") && str_contains(
                unit_name,
                ")",
            );
            Some(
                Unit {
                    is_player: true,
                    unit_id: player_unit_id(unit_name),
                    is_self_damage: self_damage,
                    is_mind_control: mind_control,
                },
            )
        },
    }
}

/// Resolves a raw actor reference to its unit, `None` for the "Unknown"
/// placeholder or a reference that holds a possessive.
pub fn parse_unit(cache: &mut Vec<(String, Unit)>, data: &Data, unit_name: &str) -> (r: Option<Unit>)
    ensures
        (r, unit_cache_view(final(cache)@)) == unit_resolution(
            unit_cache_view(old(cache)@),
            *data,
            unit_name@,
        ),
{
    if str_eq(unit_name, "Unknown") {
        return None;
    }
    if let Some(i) = find_unit(cache, unit_name) {
        return Some(cache[i].1);
    }
    let unit = classify_unit(data, unit_name);
    if let Some(u) = unit {
        let ghost before = unit_cache_view(cache@);
        cache.push((unit_name.to_owned(), u));
        assert(unit_cache_view(cache@) =~= before.push((unit_name@, u)));
    }
    unit
}

fn cached_spell_lookup(cache: &mut Vec<(String, Option<u32>)>, data: &Data, name: &str) -> (r: Option<u32>)
    ensures
        (r, spell_cache_view(final(cache)@)) == spell_lookup(spell_cache_view(old(cache)@), *data, name@),
{
    if let Some(i) = find_spell(cache, name) {
        return cache[i].1;
    }
    let owned = name.to_owned();
    let found = data.get_spell_by_name(1, &owned);
    let spell_id = match found {
        Some(spell) => Some(spell.id),
        None => None,
    };
    let ghost before = spell_cache_view(cache@);
    cache.push((owned, spell_id));
    assert(spell_cache_view(cache@) =~= before.push((name@, spell_id)));
    spell_id
}

/// Resolves an ability name to its catalog id, `None` for "Unknown" or a
/// name that the catalog lacks.
pub fn parse_spell_args(cache: &mut Vec<(String, Option<u32>)>, data: &Data, spell_name: &str) -> (r:
    Option<u32>)
    ensures
        (r, spell_cache_view(final(cache)@)) == spell_resolution(
            spell_cache_view(old(cache)@),
            *data,
            spell_name@,
        ),
{
    if str_eq(spell_name, "Unknown") {
        return None;
    }
    cached_spell_lookup(cache, data, spell_name)
}

/// Resolves the name of a periodic ability: the plain name first, then its
/// "(dot)" variant.
pub fn parse_spell_args_periodic(
    cache: &mut Vec<(String, Option<u32>)>,
    data: &Data,
    spell_name: &str,
) -> (r: Option<u32>)
    ensures
        (r, spell_cache_view(final(cache)@)) == periodic_spell_resolution(
            spell_cache_view(old(cache)@),
            *data,
            spell_name@,
        ),
{
    if str_eq(spell_name, "Unknown") {
        return None;
    }
    let plain = cached_spell_lookup(cache, data, spell_name);
    if plain.is_some() {
        return plain;
    }
    let mut periodic = String::from_str(spell_name);
    periodic.append(" (dot)");
    cached_spell_lookup(cache, data, periodic.as_str())
}

/// Within one session, resolving the same raw reference a second time gives
/// the unit that the first resolution gave.
pub proof fn lemma_unit_resolution_repeatable(
    cache: Seq<(Seq<char>, Unit)>,
    data: Data,
    name: Seq<char>,
)
    ensures
        unit_resolution(unit_resolution(cache, data, name).1, data, name).0 == unit_resolution(
            cache,
            data,
            name,
        ).0,
{
    if name != "Unknown"@ {
        if first_index(cache, unit_key_is(name)) is None {
            if let Some(u) = resolve_unit_spec(data, name) {
                assert(unit_key_is(name)((name, u)));
                lemma_first_index_push_new(cache, unit_key_is(name), (name, u));
            }
        }
    }
}

} // verus!
