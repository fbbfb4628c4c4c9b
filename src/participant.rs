//! Per-actor profile accumulated over a parsing session: presence windows,
//! observed specialization and the damage-credit ledger used for effective
//! healing.

use vstd::prelude::*;
use vstd::string::*;
use crate::text::str_eq;

verus! {

/// Activity gaps longer than this (ms) close the current presence window.
pub const PARTICIPATION_TIMEOUT: u64 = 300000;

/// How long (ms) a closed presence window extends past the last activity.
pub const PARTICIPATION_TAIL: u64 = 30000;

/// How far (ms) before a respec marker the previous talents are recorded.
pub const RESPEC_LEAD: u64 = 1000;

pub type GearSlot = Option<(u32, Option<u32>, Option<Vec<Option<u32>>>)>;

#[derive(Debug)]
pub struct Participant {
    pub id: u64,
    pub is_player: bool,
    pub is_self_damage: bool,
    pub is_mind_control: bool,
    pub name: String,
    pub hero_class_id: Option<u8>,
    pub gender_id: Option<bool>,
    pub race_id: Option<u8>,
    pub guild_args: Option<(String, String, u8)>,
    pub talents: Vec<(u64, Option<String>)>,
    pub last_seen_talents: String,
    pub server: Option<(u32, String)>,
    pub gear_setups: Option<Vec<(u64, Vec<GearSlot>)>>,
    pub active_intervals: Vec<(u64, u64)>,
    pub available_effective_heal: u32,
    pub first_seen: u64,
    pub last_seen: u64,
    pub last_brainwash: u64,
}

pub open spec fn talents_view(t: Seq<(u64, Option<String>)>) -> Seq<(u64, Option<Seq<char>>)> {
    t.map_values(
        |e: (u64, Option<String>)|
            (
                e.0,
                match e.1 {
                    Some(s) => Some(s@),
                    None => None,
                },
            ),
    )
}

/// The end of a presence window closed after the last activity at `t`.
pub open spec fn window_close(t: u64) -> u64 {
    if t + PARTICIPATION_TAIL <= u64::MAX {
        (t + PARTICIPATION_TAIL) as u64
    } else {
        u64::MAX
    }
}

/// The talents recorded when `talent` is observed at `ts`, given the last
/// seen talents and the time of a pending respec marker (0 for none).
pub open spec fn talent_entries(last: Seq<char>, brainwash: u64, ts: u64, talent: Seq<char>) -> Seq<
    (u64, Option<Seq<char>>),
> {
    if last == talent {
        seq![]
    } else if brainwash > 0 {
        let shifted = if brainwash >= RESPEC_LEAD {
            (brainwash - RESPEC_LEAD) as u64
        } else {
            0u64
        };
        if last.len() > 0 {
            seq![(shifted, Some(last)), (brainwash, Some(talent))]
        } else {
            seq![(brainwash, Some(talent))]
        }
    } else {
        seq![(ts, Some(talent))]
    }
}

/// The fields that neither presence, ledger nor talents touch.
pub open spec fn same_identity(a: Participant, b: Participant) -> bool {
    &&& a.id == b.id
    &&& a.is_player == b.is_player
    &&& a.is_self_damage == b.is_self_damage
    &&& a.is_mind_control == b.is_mind_control
    &&& a.name == b.name
    &&& a.hero_class_id == b.hero_class_id
    &&& a.gender_id == b.gender_id
    &&& a.race_id == b.race_id
    &&& a.guild_args == b.guild_args
    &&& a.server == b.server
    &&& a.gear_setups == b.gear_setups
    &&& a.first_seen == b.first_seen
}

/// `b` is `a` with only its talent history (talents, last seen talents and
/// the pending respec marker) changed.
pub open spec fn same_but_talents(a: Participant, b: Participant) -> bool {
    &&& same_identity(a, b)
    &&& a.active_intervals == b.active_intervals
    &&& a.available_effective_heal == b.available_effective_heal
    &&& a.last_seen == b.last_seen
}

/// `b` is `a` with only its presence (intervals and last seen) changed.
pub open spec fn same_but_presence(a: Participant, b: Participant) -> bool {
    &&& same_identity(a, b)
    &&& a.talents == b.talents
    &&& a.last_seen_talents == b.last_seen_talents
    &&& a.last_brainwash == b.last_brainwash
    &&& a.available_effective_heal == b.available_effective_heal
}

/// What recording `talent` at `ts` does to a participant.
pub open spec fn talents_recorded(a: Participant, b: Participant, ts: u64, talent: Seq<char>) -> bool {
    if a.last_seen_talents@ == talent {
        b == a
    } else {
        &&& same_but_talents(a, b)
        &&& talents_view(b.talents@) == talents_view(a.talents@) + talent_entries(
            a.last_seen_talents@,
            a.last_brainwash,
            ts,
            talent,
        )
        &&& b.last_seen_talents@ == talent
        &&& b.last_brainwash == 0
    }
}

impl Participant {
    /// The damage credit that healing can still consume.
    pub open spec fn ledger(&self) -> u32 {
        self.available_effective_heal
    }

    pub open spec fn wf(&self) -> bool {
        self.active_intervals@.len() >= 1
    }

    pub fn new(
        id: u64,
        is_player: bool,
        is_self_damage: bool,
        is_mind_control: bool,
        name: String,
        last_seen: u64,
    ) -> (r: Participant)
        ensures
            r.wf(),
            r.id == id,
            r.is_player == is_player,
            r.is_self_damage == is_self_damage,
            r.is_mind_control == is_mind_control,
            r.name@ == name@,
            r.hero_class_id is None,
            r.gender_id is None,
            r.race_id is None,
            r.guild_args is None,
            r.server is None,
            r.gear_setups is None,
            r.talents@.len() == 0,
            r.last_seen_talents@.len() == 0,
            r.active_intervals@ == seq![(last_seen, last_seen)],
            r.ledger() == 0,
            r.first_seen == last_seen,
            r.last_seen == last_seen,
            r.last_brainwash == 0,
    {
        Participant {
            id,
            is_player,
            is_self_damage,
            is_mind_control,
            hero_class_id: None,
            gender_id: None,
            race_id: None,
            name,
            server: None,
            gear_setups: None,
            active_intervals: vec![(last_seen, last_seen)],
            first_seen: last_seen,
            last_seen,
            guild_args: None,
            available_effective_heal: 0,
            talents: Vec::new(),
            last_seen_talents: String::new(),
            last_brainwash: 0,
        }
    }

    /// The damage credit that healing can still consume.
    pub fn available_effective_heal(&self) -> (r: u32)
        ensures
            r == self.ledger(),
    {
        self.available_effective_heal
    }

    /// Records the talents observed at `timestamp` when they differ from the
    /// last seen ones. After a respec marker the change is dated at the
    /// marker, and the previous talents are recorded one second before it.
    pub fn record_talents(&mut self, timestamp: u64, talent_string: &str)
        ensures
            talents_recorded(*old(self), *final(self), timestamp, talent_string@),
    {
        if !str_eq(self.last_seen_talents.as_str(), talent_string) {
            let ghost before = talents_view(self.talents@);
            proof {
                reveal_strlit("");
            }
            if self.last_brainwash > 0 {
                let brainwash = self.last_brainwash;
                if !str_eq(self.last_seen_talents.as_str(), "") {
                    let shifted = if brainwash >= RESPEC_LEAD {
                        brainwash - RESPEC_LEAD
                    } else {
                        0
                    };
                    assert(old(self).last_seen_talents@.len() > 0) by {
                        if old(self).last_seen_talents@.len() == 0 {
                            assert(old(self).last_seen_talents@ =~= ""@);
                        }
                    }
                    let previous = self.last_seen_talents.clone();
                    self.talents.push((shifted, Some(previous)));
                    self.talents.push((brainwash, Some(String::from_str(talent_string))));
                    assert(talents_view(self.talents@) =~= before + seq![
                        (shifted, Some(old(self).last_seen_talents@)),
                        (brainwash, Some(talent_string@)),
                    ]);
                } else {
                    self.talents.push((brainwash, Some(String::from_str(talent_string))));
                    assert(talents_view(self.talents@) =~= before + seq![
                        (brainwash, Some(talent_string@)),
                    ]);
                }
                self.last_brainwash = 0;
            } else {
                self.talents.push((timestamp, Some(String::from_str(talent_string))));
                assert(talents_view(self.talents@) =~= before + seq![(timestamp, Some(talent_string@))]);
            }
            self.last_seen_talents = String::from_str(talent_string);
        } else {
            assert(talents_view(self.talents@) =~= talents_view(self.talents@) + seq![]);
        }
    }

    /// Extends presence to `now`: within the timeout the current window
    /// grows; after a longer gap it is closed 30 s after the last activity
    /// and a new window opens at `now`. A `now` not after the last activity
    /// changes nothing.
    pub fn add_participation_point(&mut self, now: u64)
        requires
            old(self).wf(),
        ensures
            final(self).wf(),
            ({
                let iv = old(self).active_intervals@;
                let last = iv.len() - 1;
                if now <= old(self).last_seen {
                    final(self).active_intervals@ == iv && final(self).last_seen == old(
                        self,
                    ).last_seen
                } else if now - old(self).last_seen <= PARTICIPATION_TIMEOUT {
                    final(self).active_intervals@ == iv.update(last, (iv[last].0, now))
                        && final(self).last_seen == now
                } else {
                    final(self).active_intervals@ == iv.update(
                        last,
                        (iv[last].0, window_close(old(self).last_seen)),
                    ).push((now, now)) && final(self).last_seen == now
                }
            }),
            same_but_presence(*old(self), *final(self)),
            now <= old(self).last_seen ==> *final(self) == *old(self),
    {
        if now > self.last_seen {
            let last = self.active_intervals.len() - 1;
            let start = self.active_intervals[last].0;
            if now - self.last_seen <= PARTICIPATION_TIMEOUT {
                self.active_intervals.set(last, (start, now));
            } else {
                let close = self.last_seen.saturating_add(PARTICIPATION_TAIL);
                self.active_intervals.set(last, (start, close));
                self.active_intervals.push((now, now));
            }
            self.last_seen = now;
        }
    }

    /// Credits damage taken to the ledger (saturating at `u32::MAX`).
    pub fn attribute_damage(&mut self, damage: u32)
        ensures
            *final(self) == (Participant {
                available_effective_heal: if old(self).ledger() + damage <= u32::MAX {
                    (old(self).ledger() + damage) as u32
                } else {
                    u32::MAX
                },
                ..*old(self)
            }),
    {
        self.available_effective_heal = self.available_effective_heal.saturating_add(damage);
    }

    /// Consumes up to `heal` of the ledger and returns the amount consumed:
    /// the effective part of the heal.
    pub fn attribute_heal(&mut self, heal: u32) -> (r: u32)
        ensures
            r == if heal > old(self).ledger() {
                old(self).ledger()
            } else {
                heal
            },
            *final(self) == (Participant { available_effective_heal: (old(self).ledger() - r) as u32, ..*old(self) }),
    {
        let effective_heal;
        if heal > self.available_effective_heal {
            effective_heal = self.available_effective_heal;
            self.available_effective_heal = 0;
        } else {
            self.available_effective_heal = self.available_effective_heal - heal;
            effective_heal = heal;
        }
        effective_heal
    }

    pub fn get_unique_bucket_id(&self) -> (r: u64)
        ensures
            r == self.id,
    {
        self.id
    }
}

} // verus!
