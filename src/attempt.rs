//! One attempt at an encounter, its abstract model, the ranking ledger it
//! carries, and the rules applied when it is committed.

use vstd::prelude::*;
use std::collections::HashSet;
use crate::event::add_sat;
use crate::search::{first_index, lemma_first_index_is, lemma_first_index_none};

verus! {

broadcast use vstd::std_specs::hash::group_hash_axioms;

/// Attempts this short (ms) or shorter are noise and never persisted.
pub const MIN_ATTEMPT_DURATION: u64 = 5000;

pub struct Attempt {
    pub encounter_id: u32,
    pub start_ts: u64,
    pub end_ts: u64,
    pub creatures_in_combat: HashSet<u64>,
    pub creatures_required_to_die: HashSet<u64>,
    pub pivot_creature: Option<u64>,
    pub pivot_is_finished: bool,
    pub encounter_has_pivot: bool,
    pub hard_mode_found_buffs: HashSet<u32>,
    pub hard_mode_npcs_died: HashSet<u32>,
    pub infight_player: HashSet<u32>,
    pub infight_vehicle: HashSet<u32>,
    pub last_creature_death: u64,
    pub ranking_damage: Vec<(u32, u32)>,
    pub ranking_heal: Vec<(u32, u32)>,
    pub ranking_threat: Vec<(u32, u32)>,
}

/// The abstract state of an attempt.
pub struct AttemptModel {
    pub encounter_id: u32,
    pub start_ts: u64,
    pub end_ts: u64,
    pub creatures_in_combat: Set<u64>,
    pub required: Set<u64>,
    pub pivot_creature: Option<u64>,
    pub pivot_is_finished: bool,
    pub encounter_has_pivot: bool,
    pub hard_mode_found_buffs: Set<u32>,
    pub hard_mode_npcs_died: Set<u32>,
    pub infight_player: Set<u32>,
    pub infight_vehicle: Set<u32>,
    pub last_creature_death: u64,
    pub ranking_damage: Seq<(u32, u32)>,
    pub ranking_heal: Seq<(u32, u32)>,
    pub ranking_threat: Seq<(u32, u32)>,
}

impl View for Attempt {
    type V = AttemptModel;

    open spec fn view(&self) -> AttemptModel {
        AttemptModel {
            encounter_id: self.encounter_id,
            start_ts: self.start_ts,
            end_ts: self.end_ts,
            creatures_in_combat: self.creatures_in_combat@,
            required: self.creatures_required_to_die@,
            pivot_creature: self.pivot_creature,
            pivot_is_finished: self.pivot_is_finished,
            encounter_has_pivot: self.encounter_has_pivot,
            hard_mode_found_buffs: self.hard_mode_found_buffs@,
            hard_mode_npcs_died: self.hard_mode_npcs_died@,
            infight_player: self.infight_player@,
            infight_vehicle: self.infight_vehicle@,
            last_creature_death: self.last_creature_death,
            ranking_damage: self.ranking_damage@,
            ranking_heal: self.ranking_heal@,
            ranking_threat: self.ranking_threat@,
        }
    }
}

/// A kill: every required actor died, and the pivot, if the encounter has
/// one, is finished.
pub open spec fn is_kill_spec(a: AttemptModel) -> bool {
    a.required.is_empty() && (!a.encounter_has_pivot || a.pivot_is_finished)
}

pub open spec fn new_attempt_model(encounter_id: u32, start_ts: u64, has_pivot: bool) -> AttemptModel {
    AttemptModel {
        encounter_id,
        start_ts,
        end_ts: start_ts,
        creatures_in_combat: Set::empty(),
        required: Set::empty(),
        pivot_creature: None,
        pivot_is_finished: false,
        encounter_has_pivot: has_pivot,
        hard_mode_found_buffs: Set::empty(),
        hard_mode_npcs_died: Set::empty(),
        infight_player: Set::empty(),
        infight_vehicle: Set::empty(),
        last_creature_death: 0,
        ranking_damage: seq![],
        ranking_heal: seq![],
        ranking_threat: seq![],
    }
}

pub open spec fn row_of(who: u32) -> spec_fn((u32, u32)) -> bool {
    |e: (u32, u32)| e.0 == who
}

/// Credits `amount` to `who` in a per-character ledger: an existing row
/// grows (saturating), else a row is appended.
pub open spec fn credit(rows: Seq<(u32, u32)>, who: u32, amount: u32) -> Seq<(u32, u32)> {
    match first_index(rows, row_of(who)) {
        Some(i) => rows.update(i, (who, add_sat(rows[i].1, amount))),
        None => rows.push((who, amount)),
    }
}

pub fn credit_row(rows: &mut Vec<(u32, u32)>, who: u32, amount: u32)
    ensures
        final(rows)@ == credit(old(rows)@, who, amount),
{
    let mut i: usize = 0;
    while i < rows.len()
        invariant
            i <= rows@.len(),
            rows@ == old(rows)@,
            forall|j: int| 0 <= j < i ==> !(#[trigger] row_of(who)(rows@[j])),
        decreases rows@.len() - i,
    {
        if rows[i].0 == who {
            proof {
                lemma_first_index_is(rows@, row_of(who), i as int);
            }
            let total = rows[i].1.saturating_add(amount);
            rows.set(i, (who, total));
            return;
        }
        i = i + 1;
    }
    proof {
        lemma_first_index_none(rows@, row_of(who));
    }
    rows.push((who, amount));
}

impl Attempt {
    pub fn new(encounter_id: u32, start_ts: u64, encounter_has_pivot: bool) -> (r: Attempt)
        ensures
            r@ == new_attempt_model(encounter_id, start_ts, encounter_has_pivot),
    {
        let r = Attempt {
            encounter_id,
            start_ts,
            end_ts: start_ts,
            creatures_in_combat: HashSet::new(),
            creatures_required_to_die: HashSet::new(),
            pivot_creature: None,
            pivot_is_finished: false,
            encounter_has_pivot,
            hard_mode_found_buffs: HashSet::new(),
            hard_mode_npcs_died: HashSet::new(),
            infight_player: HashSet::new(),
            infight_vehicle: HashSet::new(),
            last_creature_death: 0,
            ranking_damage: Vec::new(),
            ranking_heal: Vec::new(),
            ranking_threat: Vec::new(),
        };
        assert(r@.ranking_damage =~= seq![]);
        assert(r@.ranking_heal =~= seq![]);
        assert(r@.ranking_threat =~= seq![]);
        r
    }

    pub fn is_kill(&self) -> (r: bool)
        ensures
            r == is_kill_spec(self@),
    {
        self.creatures_required_to_die.is_empty() && (!self.encounter_has_pivot
            || self.pivot_is_finished)
    }
}

/// What is persisted of a committed attempt: the encounter id after
/// hard-mode reclassification, its span, whether it was a kill, and, for a
/// kill only, the three per-character ranking tables.
pub struct AttemptRecord {
    pub encounter_id: u32,
    pub start_ts: u64,
    pub end_ts: u64,
    pub is_kill: bool,
    pub ranking_damage: Vec<(u32, u32)>,
    pub ranking_heal: Vec<(u32, u32)>,
    pub ranking_threat: Vec<(u32, u32)>,
}

/// The alternate encounter id under which a hard-mode attempt is persisted.
pub open spec fn hard_mode_id_spec(a: AttemptModel) -> Option<u32> {
    let buffs = a.hard_mode_found_buffs.len();
    if a.encounter_id == 114 {
        if buffs == 1 {
            Some(146u32)
        } else if buffs == 2 {
            Some(147u32)
        } else if buffs == 3 {
            Some(148u32)
        } else if buffs == 4 {
            Some(149u32)
        } else {
            None
        }
    } else if a.encounter_id == 122 {
        let knocks = buffs + a.hard_mode_npcs_died.len();
        if knocks == 1 {
            Some(152u32)
        } else if knocks == 2 {
            Some(153u32)
        } else if knocks == 3 {
            Some(154u32)
        } else {
            None
        }
    } else if a.encounter_id == 121 {
        if buffs > 0 {
            Some(156u32)
        } else {
            None
        }
    } else if a.encounter_id == 123 {
        if buffs > 0 {
            Some(155u32)
        } else {
            None
        }
    } else if a.encounter_id == 124 {
        if a.start_ts <= a.end_ts && a.end_ts - a.start_ts <= 122000 {
            Some(162u32)
        } else {
            None
        }
    } else if a.encounter_id == 125 {
        if buffs > 0 {
            Some(157u32)
        } else {
            None
        }
    } else if a.encounter_id == 126 {
        if buffs == 3 {
            Some(158u32)
        } else if buffs == 2 {
            Some(159u32)
        } else if buffs == 1 {
            Some(160u32)
        } else if buffs == 0 {
            Some(161u32)
        } else {
            None
        }
    } else {
        None
    }
}

pub fn hard_mode_encounter_id(a: &Attempt) -> (r: Option<u32>)
    ensures
        r == hard_mode_id_spec(a@),
{
    let buffs = a.hard_mode_found_buffs.len();
    if a.encounter_id == 114 {
        if buffs == 1 {
            Some(146)
        } else if buffs == 2 {
            Some(147)
        } else if buffs == 3 {
            Some(148)
        } else if buffs == 4 {
            Some(149)
        } else {
            None
        }
    } else if a.encounter_id == 122 {
        let died = a.hard_mode_npcs_died.len();
        if buffs <= 3 && died <= 3 && buffs + died == 1 {
            Some(152)
        } else if buffs <= 3 && died <= 3 && buffs + died == 2 {
            Some(153)
        } else if buffs <= 3 && died <= 3 && buffs + died == 3 {
            Some(154)
        } else {
            None
        }
    } else if a.encounter_id == 121 {
        if buffs > 0 {
            Some(156)
        } else {
            None
        }
    } else if a.encounter_id == 123 {
        if buffs > 0 {
            Some(155)
        } else {
            None
        }
    } else if a.encounter_id == 124 {
        if a.start_ts <= a.end_ts && a.end_ts - a.start_ts <= 122000 {
            Some(162)
        } else {
            None
        }
    } else if a.encounter_id == 125 {
        if buffs > 0 {
            Some(157)
        } else {
            None
        }
    } else if a.encounter_id == 126 {
        if buffs == 3 {
            Some(158)
        } else if buffs == 2 {
            Some(159)
        } else if buffs == 1 {
            Some(160)
        } else if buffs == 0 {
            Some(161)
        } else {
            None
        }
    } else {
        None
    }
}

/// Whether a closed attempt is noise: it ends before it starts or lasts
/// 5 s or less.
pub open spec fn is_noise(start_ts: u64, end_ts: u64) -> bool {
    end_ts < start_ts || end_ts - start_ts <= MIN_ATTEMPT_DURATION
}

pub struct RecordModel {
    pub encounter_id: u32,
    pub start_ts: u64,
    pub end_ts: u64,
    pub is_kill: bool,
    pub ranking_damage: Seq<(u32, u32)>,
    pub ranking_heal: Seq<(u32, u32)>,
    pub ranking_threat: Seq<(u32, u32)>,
}

impl View for AttemptRecord {
    type V = RecordModel;

    open spec fn view(&self) -> RecordModel {
        RecordModel {
            encounter_id: self.encounter_id,
            start_ts: self.start_ts,
            end_ts: self.end_ts,
            is_kill: self.is_kill,
            ranking_damage: self.ranking_damage@,
            ranking_heal: self.ranking_heal@,
            ranking_threat: self.ranking_threat@,
        }
    }
}

/// What committing a closed attempt persists: nothing for noise; else the
/// attempt under its hard-mode id (or its own), with the ranking tables of
/// a kill and none for any other attempt.
pub open spec fn commit_spec(a: AttemptModel) -> Option<RecordModel> {
    if is_noise(a.start_ts, a.end_ts) {
        None
    } else {
        let kill = is_kill_spec(a);
        Some(
            RecordModel {
                encounter_id: match hard_mode_id_spec(a) {
                    Some(h) => h,
                    None => a.encounter_id,
                },
                start_ts: a.start_ts,
                end_ts: a.end_ts,
                is_kill: kill,
                ranking_damage: if kill {
                    a.ranking_damage
                } else {
                    seq![]
                },
                ranking_heal: if kill {
                    a.ranking_heal
                } else {
                    seq![]
                },
                ranking_threat: if kill {
                    a.ranking_threat
                } else {
                    seq![]
                },
            },
        )
    }
}

/// Commits a closed attempt (see `commit_spec`).
pub fn commit_attempt(attempt: Attempt) -> (r: Option<AttemptRecord>)
    ensures
        is_noise(attempt.start_ts, attempt.end_ts) <==> r is None,
        match r {
            None => commit_spec(attempt@) is None,
            Some(rec) => commit_spec(attempt@) == Some(rec@),
        },
{
    if attempt.end_ts < attempt.start_ts || attempt.end_ts - attempt.start_ts <= MIN_ATTEMPT_DURATION {
        return None;
    }
    let encounter_id = match hard_mode_encounter_id(&attempt) {
        Some(h) => h,
        None => attempt.encounter_id,
    };
    let is_kill = attempt.is_kill();
    if is_kill {
        Some(
            AttemptRecord {
                encounter_id,
                start_ts: attempt.start_ts,
                end_ts: attempt.end_ts,
                is_kill,
                ranking_damage: attempt.ranking_damage,
                ranking_heal: attempt.ranking_heal,
                ranking_threat: attempt.ranking_threat,
            },
        )
    } else {
        let r = AttemptRecord {
            encounter_id,
            start_ts: attempt.start_ts,
            end_ts: attempt.end_ts,
            is_kill,
            ranking_damage: Vec::new(),
            ranking_heal: Vec::new(),
            ranking_threat: Vec::new(),
        };
        assert(r.ranking_damage@ =~= seq![]);
        assert(r.ranking_heal@ =~= seq![]);
        assert(r.ranking_threat@ =~= seq![]);
        Some(r)
    }
}

} // verus!
