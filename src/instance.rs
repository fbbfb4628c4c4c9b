//! The in-memory table of instance metadata and the speed-run and
//! speed-kill caches derived from ranked attempts.

use vstd::prelude::*;
use vstd::string::*;
use crate::ranking::{InstanceMeta, PrivacyType, is_public_spec, meta_is};
use crate::search::{first_index, lemma_first_index_is, lemma_first_index_none};

verus! {

#[derive(Clone, Debug)]
pub struct SpeedRun {
    pub instance_meta_id: u32,
    pub map_id: u16,
    pub guild_id: u32,
    pub guild_name: String,
    pub server_id: u32,
    pub duration: u64,
    pub difficulty_id: u8,
    pub season_index: u8,
}

#[derive(Clone, Debug)]
pub struct SpeedKill {
    pub instance_meta_id: u32,
    pub attempt_id: u32,
    pub encounter_id: u32,
    pub guild_id: u32,
    pub guild_name: String,
    pub server_id: u32,
    pub duration: u64,
    pub difficulty_id: u8,
    pub season_index: u8,
}

/// A ranked kill attempt of an instance.
#[derive(Clone, Copy, Debug, PartialEq, Eq, Structural)]
pub struct InstanceAttempt {
    pub attempt_id: u32,
    pub encounter_id: u32,
    pub start_ts: u64,
    pub end_ts: u64,
    pub rankable: bool,
    pub difficulty_id: u8,
    pub season_index: u8,
}

/// The kill attempts of an instance, with the guild that the instance's
/// participants belong to when one was found.
pub struct InstanceKills {
    pub instance_meta_id: u32,
    pub attempts: Vec<InstanceAttempt>,
    pub guild: Option<(u32, String)>,
}

pub const PUG_GUILD_NAME: &'static str = "Pug Raid";

pub type SpeedKillView = (u32, u32, u32, u32, Seq<char>, u32, u64, u8, u8);

pub open spec fn speed_kill_view(k: SpeedKill) -> SpeedKillView {
    (k.instance_meta_id, k.attempt_id, k.encounter_id, k.guild_id, k.guild_name@, k.server_id, k.duration, k.difficulty_id, k.season_index)
}

pub open spec fn span(start: u64, end: u64) -> u64 {
    if end >= start {
        (end - start) as u64
    } else {
        0
    }
}

pub open spec fn guild_of(k: InstanceKills) -> (u32, Seq<char>) {
    match k.guild {
        Some(g) => (g.0, g.1@),
        None => (0, PUG_GUILD_NAME@),
    }
}

/// The attempt ids already holding a speed kill.
pub open spec fn has_kill(kills: Seq<SpeedKill>, attempt_id: u32) -> bool {
    exists|i: int| 0 <= i < kills.len() && #[trigger] kills[i].attempt_id == attempt_id
}

/// The speed kills that one instance adds: its rankable attempts without a
/// speed kill yet, in order.
pub open spec fn instance_speed_kills(
    known: Seq<SpeedKill>,
    server_id: u32,
    k: InstanceKills,
    attempts: Seq<InstanceAttempt>,
) -> Seq<SpeedKillView>
    decreases attempts.len(),
{
    if attempts.len() == 0 {
        seq![]
    } else {
        let prev = instance_speed_kills(known, server_id, k, attempts.drop_last());
        let a = attempts.last();
        if a.rankable && !has_kill(known, a.attempt_id) {
            prev.push(
                (
                    k.instance_meta_id,
                    a.attempt_id,
                    a.encounter_id,
                    guild_of(k).0,
                    guild_of(k).1,
                    server_id,
                    span(a.start_ts, a.end_ts),
                    a.difficulty_id,
                    a.season_index,
                ),
            )
        } else {
            prev
        }
    }
}

/// The speed kills of the public instances among `ks`, instance by
/// instance.
pub open spec fn speed_kills_spec(metas: Seq<InstanceMeta>, known: Seq<SpeedKill>, ks: Seq<InstanceKills>) -> Seq<
    SpeedKillView,
>
    decreases ks.len(),
{
    if ks.len() == 0 {
        seq![]
    } else {
        let prev = speed_kills_spec(metas, known, ks.drop_last());
        let k = ks.last();
        if is_public_spec(metas, k.instance_meta_id) {
            let i = first_index(metas, meta_is(k.instance_meta_id))->0;
            prev + instance_speed_kills(known, metas[i].server_id, k, k.attempts@)
        } else {
            prev
        }
    }
}

/// The encounters that a full run of a map kills.
pub open spec fn map_encounters_spec(map_id: u16) -> Option<Seq<u32>> {
    if map_id == 409 {
        Some(seq![80u32, 1, 2, 81, 82, 4, 5, 6, 7, 8, 9, 10])
    } else if map_id == 249 {
        Some(seq![11u32])
    } else if map_id == 309 {
        Some(seq![12u32, 13, 14, 15, 17, 19, 20, 21])
    } else if map_id == 469 {
        Some(seq![22u32, 23, 24, 25, 26, 27, 28, 29])
    } else if map_id == 509 {
        Some(seq![30u32, 31, 32, 33, 34, 35])
    } else if map_id == 531 {
        Some(seq![36u32, 37, 38, 39, 40, 41, 42, 163, 164, 165])
    } else if map_id == 533 {
        Some(seq![43u32, 44, 45, 46, 47, 48, 49, 50, 51, 52, 53, 54, 55, 56, 57])
    } else if map_id == 532 {
        Some(seq![201u32, 202, 203, 204, 205])
    } else if map_id == 565 {
        Some(seq![69u32, 70])
    } else if map_id == 544 {
        Some(seq![71u32])
    } else if map_id == 550 {
        Some(seq![72u32, 73, 74, 75])
    } else if map_id == 548 {
        Some(seq![76u32, 78, 79, 80, 81])
    } else if map_id == 568 {
        Some(seq![82u32, 83, 84, 85, 86, 87])
    } else if map_id == 534 {
        Some(seq![88u32, 89, 90, 91, 92])
    } else if map_id == 564 {
        Some(seq![93u32, 94, 95, 96, 97, 98, 99, 100, 101])
    } else if map_id == 580 {
        Some(seq![103u32, 104, 105, 106, 107])
    } else if map_id == 615 {
        Some(seq![108u32])
    } else if map_id == 616 {
        Some(seq![109u32])
    } else if map_id == 624 {
        Some(seq![110u32, 111, 112, 113])
    } else if map_id == 603 {
        Some(seq![114u32, 115, 116, 117, 118, 119, 120, 121, 122, 123, 124, 125, 126])
    } else if map_id == 649 {
        Some(seq![128u32, 129, 130, 131, 132])
    } else if map_id == 631 {
        Some(seq![133u32, 134, 136, 137, 138, 139, 140, 141, 143, 144])
    } else if map_id == 724 {
        Some(seq![145u32])
    } else if map_id == 807 {
        Some(seq![200u32])
    } else if map_id == 814 {
        Some(seq![206u32, 207, 208, 209, 210, 211, 212, 213, 214])
    } else {
        None
    }
}

pub fn map_encounters(map_id: u16) -> (r: Option<Vec<u32>>)
    ensures
        match r {
            Some(v) => map_encounters_spec(map_id) == Some(v@),
            None => map_encounters_spec(map_id) is None,
        },
{
    if map_id == 409 {
        Some(vec![80, 1, 2, 81, 82, 4, 5, 6, 7, 8, 9, 10])
    } else if map_id == 249 {
        Some(vec![11])
    } else if map_id == 309 {
        Some(vec![12, 13, 14, 15, 17, 19, 20, 21])
    } else if map_id == 469 {
        Some(vec![22, 23, 24, 25, 26, 27, 28, 29])
    } else if map_id == 509 {
        Some(vec![30, 31, 32, 33, 34, 35])
    } else if map_id == 531 {
        Some(vec![36, 37, 38, 39, 40, 41, 42, 163, 164, 165])
    } else if map_id == 533 {
        Some(vec![43, 44, 45, 46, 47, 48, 49, 50, 51, 52, 53, 54, 55, 56, 57])
    } else if map_id == 532 {
        Some(vec![201, 202, 203, 204, 205])
    } else if map_id == 565 {
        Some(vec![69, 70])
    } else if map_id == 544 {
        Some(vec![71])
    } else if map_id == 550 {
        Some(vec![72, 73, 74, 75])
    } else if map_id == 548 {
        Some(vec![76, 78, 79, 80, 81])
    } else if map_id == 568 {
        Some(vec![82, 83, 84, 85, 86, 87])
    } else if map_id == 534 {
        Some(vec![88, 89, 90, 91, 92])
    } else if map_id == 564 {
        Some(vec![93, 94, 95, 96, 97, 98, 99, 100, 101])
    } else if map_id == 580 {
        Some(vec![103, 104, 105, 106, 107])
    } else if map_id == 615 {
        Some(vec![108])
    } else if map_id == 616 {
        Some(vec![109])
    } else if map_id == 624 {
        Some(vec![110, 111, 112, 113])
    } else if map_id == 603 {
        Some(vec![114, 115, 116, 117, 118, 119, 120, 121, 122, 123, 124, 125, 126])
    } else if map_id == 649 {
        Some(vec![128, 129, 130, 131, 132])
    } else if map_id == 631 {
        Some(vec![133, 134, 136, 137, 138, 139, 140, 141, 143, 144])
    } else if map_id == 724 {
        Some(vec![145])
    } else if map_id == 807 {
        Some(vec![200])
    } else if map_id == 814 {
        Some(vec![206, 207, 208, 209, 210, 211, 212, 213, 214])
    } else {
        None
    }
}

pub type SpeedRunView = (u32, u16, u32, Seq<char>, u32, u64, u8, u8);

pub open spec fn speed_run_view(r: SpeedRun) -> SpeedRunView {
    (r.instance_meta_id, r.map_id, r.guild_id, r.guild_name@, r.server_id, r.duration, r.difficulty_id, r.season_index)
}

pub open spec fn has_run(runs: Seq<SpeedRun>, id: u32) -> bool {
    exists|i: int| 0 <= i < runs.len() && #[trigger] runs[i].instance_meta_id == id
}

pub open spec fn min_start(a: Seq<InstanceAttempt>) -> u64
    decreases a.len(),
{
    if a.len() <= 1 {
        if a.len() == 0 { 0 } else { a[0].start_ts }
    } else {
        let m = min_start(a.drop_last());
        if a.last().start_ts < m { a.last().start_ts } else { m }
    }
}

pub open spec fn max_end(a: Seq<InstanceAttempt>) -> u64
    decreases a.len(),
{
    if a.len() <= 1 {
        if a.len() == 0 { 0 } else { a[0].end_ts }
    } else {
        let m = max_end(a.drop_last());
        if a.last().end_ts > m { a.last().end_ts } else { m }
    }
}

/// Every encounter of the map has a rankable kill among the attempts.
pub open spec fn kills_all(encounters: Seq<u32>, a: Seq<InstanceAttempt>) -> bool {
    forall|e: int| 0 <= e < encounters.len() ==> killed(a, #[trigger] encounters[e])
}

/// Some rankable attempt killed the encounter.
pub open spec fn killed(a: Seq<InstanceAttempt>, encounter_id: u32) -> bool {
    exists|i: int| 0 <= i < a.len() && #[trigger] a[i].encounter_id == encounter_id && a[i].rankable
}

pub open spec fn same_difficulty(a: Seq<InstanceAttempt>) -> bool {
    forall|i: int| 0 <= i < a.len() ==> #[trigger] a[i].difficulty_id == a[0].difficulty_id
}

/// The speed run of an instance: public, not yet recorded, every encounter
/// of its map killed, all at one difficulty; it spans from the first start
/// to the last end.
pub open spec fn speed_run_of(metas: Seq<InstanceMeta>, known: Seq<SpeedRun>, k: InstanceKills) -> Option<SpeedRunView> {
    let a = k.attempts@;
    if has_run(known, k.instance_meta_id) || a.len() == 0 || !is_public_spec(metas, k.instance_meta_id) {
        None
    } else {
        let m = metas[first_index(metas, meta_is(k.instance_meta_id))->0];
        match map_encounters_spec(m.map_id) {
            None => None,
            Some(es) => if kills_all(es, a) && same_difficulty(a) {
                Some(
                    (
                        k.instance_meta_id,
                        m.map_id,
                        guild_of(k).0,
                        guild_of(k).1,
                        m.server_id,
                        span(min_start(a), max_end(a)),
                        a[0].difficulty_id,
                        a[0].season_index,
                    ),
                )
            } else {
                None
            },
        }
    }
}

pub open spec fn speed_runs_spec(metas: Seq<InstanceMeta>, known: Seq<SpeedRun>, ks: Seq<InstanceKills>) -> Seq<SpeedRunView>
    decreases ks.len(),
{
    if ks.len() == 0 {
        seq![]
    } else {
        match speed_run_of(metas, known, ks.last()) {
            Some(r) => speed_runs_spec(metas, known, ks.drop_last()).push(r),
            None => speed_runs_spec(metas, known, ks.drop_last()),
        }
    }
}

pub struct Instance {
    /// The id below which metadata is loaded, and the loaded metadata.
    pub instance_metas: (u32, Vec<InstanceMeta>),
    pub speed_runs: Vec<SpeedRun>,
    pub speed_kills: Vec<SpeedKill>,
}

/// `s` without the entries of instance `id`.
pub open spec fn without_meta(s: Seq<InstanceMeta>, id: u32) -> Seq<InstanceMeta>
    decreases s.len(),
{
    if s.len() == 0 {
        seq![]
    } else if s.last().instance_meta_id == id {
        without_meta(s.drop_last(), id)
    } else {
        without_meta(s.drop_last(), id).push(s.last())
    }
}

pub open spec fn run_of_instance(id: u32) -> spec_fn(SpeedRun) -> bool {
    |r: SpeedRun| r.instance_meta_id == id
}

pub open spec fn kill_of_attempt(id: u32) -> spec_fn(SpeedKill) -> bool {
    |k: SpeedKill| k.attempt_id == id
}

/// `s` without its element at the first position that satisfies `p`.
pub open spec fn without_first<A>(s: Seq<A>, p: spec_fn(A) -> bool) -> Seq<A> {
    match first_index(s, p) {
        Some(i) => s.remove(i),
        None => s,
    }
}

fn has_kill_exec(kills: &Vec<SpeedKill>, n: usize, attempt_id: u32) -> (r: bool)
    requires
        n <= kills@.len(),
    ensures
        r == has_kill(kills@.subrange(0, n as int), attempt_id),
{
    let mut i: usize = 0;
    while i < n
        invariant
            n <= kills@.len(),
            i <= n,
            forall|j: int| 0 <= j < i ==> #[trigger] kills@[j].attempt_id != attempt_id,
        decreases n - i,
    {
        if kills[i].attempt_id == attempt_id {
            assert(kills@.subrange(0, n as int)[i as int].attempt_id == attempt_id);
            return true;
        }
        i = i + 1;
    }
    assert forall|j: int| 0 <= j < n implies #[trigger] kills@.subrange(0, n as int)[j].attempt_id != attempt_id by {
        assert(kills@.subrange(0, n as int)[j] == kills@[j]);
    }
    false
}

fn meta_server(metas: &Vec<InstanceMeta>, id: u32) -> (r: Option<u32>)
    ensures
        match r {
            Some(s) => is_public_spec(metas@, id) && s == metas@[first_index(metas@, meta_is(id))->0].server_id,
            None => !is_public_spec(metas@, id),
        },
{
    let mut i: usize = 0;
    while i < metas.len()
        invariant
            i <= metas@.len(),
            forall|j: int| 0 <= j < i ==> !(#[trigger] meta_is(id)(metas@[j])),
        decreases metas@.len() - i,
    {
        if metas[i].instance_meta_id == id {
            proof {
                lemma_first_index_is(metas@, meta_is(id), i as int);
            }
            if metas[i].privacy_type == PrivacyType::Public {
                return Some(metas[i].server_id);
            }
            return None;
        }
        i = i + 1;
    }
    proof {
        lemma_first_index_none(metas@, meta_is(id));
    }
    None
}

fn has_run_exec(runs: &Vec<SpeedRun>, n: usize, id: u32) -> (r: bool)
    requires
        n <= runs@.len(),
    ensures
        r == has_run(runs@.subrange(0, n as int), id),
{
    let mut i: usize = 0;
    while i < n
        invariant
            n <= runs@.len(),
            i <= n,
            forall|j: int| 0 <= j < i ==> #[trigger] runs@[j].instance_meta_id != id,
        decreases n - i,
    {
        if runs[i].instance_meta_id == id {
            assert(runs@.subrange(0, n as int)[i as int].instance_meta_id == id);
            return true;
        }
        i = i + 1;
    }
    assert forall|j: int| 0 <= j < n implies #[trigger] runs@.subrange(0, n as int)[j].instance_meta_id != id by {
        assert(runs@.subrange(0, n as int)[j] == runs@[j]);
    }
    false
}

fn public_meta(metas: &Vec<InstanceMeta>, id: u32) -> (r: Option<(u16, u32)>)
    ensures
        match r {
            Some(v) => is_public_spec(metas@, id) && v.0 == metas@[first_index(metas@, meta_is(id))->0].map_id
                && v.1 == metas@[first_index(metas@, meta_is(id))->0].server_id,
            None => !is_public_spec(metas@, id),
        },
{
    let mut i: usize = 0;
    while i < metas.len()
        invariant
            i <= metas@.len(),
            forall|j: int| 0 <= j < i ==> !(#[trigger] meta_is(id)(metas@[j])),
        decreases metas@.len() - i,
    {
        if metas[i].instance_meta_id == id {
            proof {
                lemma_first_index_is(metas@, meta_is(id), i as int);
            }
            if metas[i].privacy_type == PrivacyType::Public {
                return Some((metas[i].map_id, metas[i].server_id));
            }
            return None;
        }
        i = i + 1;
    }
    proof {
        lemma_first_index_none(metas@, meta_is(id));
    }
    None
}

fn span_of(a: &Vec<InstanceAttempt>) -> (r: (u64, u64))
    requires
        a@.len() > 0,
    ensures
        r == (min_start(a@), max_end(a@)),
{
    let mut lo = a[0].start_ts;
    let mut hi = a[0].end_ts;
    let mut i: usize = 1;
    assert(a@.subrange(0, 1).len() == 1);
    assert(a@.subrange(0, 1)[0] == a@[0]);
    while i < a.len()
        invariant
            1 <= i <= a@.len(),
            lo == min_start(a@.subrange(0, i as int)),
            hi == max_end(a@.subrange(0, i as int)),
        decreases a@.len() - i,
    {
        assert(a@.subrange(0, i + 1).drop_last() =~= a@.subrange(0, i as int));
        assert(a@.subrange(0, i + 1).last() == a@[i as int]);
        if a[i].start_ts < lo {
            lo = a[i].start_ts;
        }
        if a[i].end_ts > hi {
            hi = a[i].end_ts;
        }
        i = i + 1;
    }
    assert(a@.subrange(0, i as int) =~= a@);
    (lo, hi)
}

fn kills_all_exec(es: &Vec<u32>, a: &Vec<InstanceAttempt>) -> (r: bool)
    ensures
        r == kills_all(es@, a@),
{
    let mut e: usize = 0;
    while e < es.len()
        invariant
            e <= es@.len(),
            forall|x: int| 0 <= x < e ==> killed(a@, #[trigger] es@[x]),
        decreases es@.len() - e,
    {
        let mut found = false;
        let mut i: usize = 0;
        while i < a.len()
            invariant
                i <= a@.len(),
                e < es@.len(),
                !found ==> forall|j: int| 0 <= j < i ==> !(#[trigger] a@[j].encounter_id == es@[e as int] && a@[j].rankable),
                found ==> exists|j: int| 0 <= j < a@.len() && #[trigger] a@[j].encounter_id == es@[e as int] && a@[j].rankable,
            decreases a@.len() - i,
        {
            if a[i].encounter_id == es[e] && a[i].rankable {
                found = true;
            }
            i = i + 1;
        }
        if !found {
            assert(!killed(a@, es@[e as int]));
            return false;
        }
        e = e + 1;
    }
    true
}

fn same_difficulty_exec(a: &Vec<InstanceAttempt>) -> (r: bool)
    requires
        a@.len() > 0,
    ensures
        r == same_difficulty(a@),
{
    let mut i: usize = 0;
    while i < a.len()
        invariant
            i <= a@.len(),
            a@.len() > 0,
            forall|j: int| 0 <= j < i ==> #[trigger] a@[j].difficulty_id == a@[0].difficulty_id,
        decreases a@.len() - i,
    {
        if a[i].difficulty_id != a[0].difficulty_id {
            return false;
        }
        i = i + 1;
    }
    true
}

impl Instance {

    /// Records the speed run of every public instance that killed all the
    /// encounters of its map at one difficulty and has none yet.
    pub fn calculate_speed_runs(&mut self, kills: &Vec<InstanceKills>)
        ensures
            final(self).speed_runs@.map_values(|r: SpeedRun| speed_run_view(r)) == old(self).speed_runs@.map_values(
                |r: SpeedRun| speed_run_view(r),
            ) + speed_runs_spec(old(self).instance_metas.1@, old(self).speed_runs@, kills@),
            final(self).speed_kills@ == old(self).speed_kills@,
            final(self).instance_metas.1@ == old(self).instance_metas.1@,
    {
        let n = self.speed_runs.len();
        let ghost known = self.speed_runs@;
        let ghost start = known.map_values(|r: SpeedRun| speed_run_view(r));
        let mut j: usize = 0;
        assert(start + speed_runs_spec(self.instance_metas.1@, known, kills@.subrange(0, 0)) =~= start);
        while j < kills.len()
            invariant
                j <= kills@.len(),
                n == known.len(),
                self.speed_runs@.len() >= n,
                self.speed_runs@.subrange(0, n as int) == known,
                self.speed_kills@ == old(self).speed_kills@,
                self.instance_metas.1@ == old(self).instance_metas.1@,
                self.speed_runs@.map_values(|r: SpeedRun| speed_run_view(r)) == start + speed_runs_spec(
                    self.instance_metas.1@,
                    known,
                    kills@.subrange(0, j as int),
                ),
            decreases kills@.len() - j,
        {
            let k = &kills[j];
            assert(kills@.subrange(0, j + 1).drop_last() =~= kills@.subrange(0, j as int));
            assert(kills@.subrange(0, j + 1).last() == *k);
            let ghost before = self.speed_runs@;
            let ghost bv = before.map_values(|r: SpeedRun| speed_run_view(r));
            let ghost expected = speed_run_of(self.instance_metas.1@, known, *k);
            let mut pushed = false;
            if !has_run_exec(&self.speed_runs, n, k.instance_meta_id) && k.attempts.len() > 0 {
                if let Some((map_id, server_id)) = public_meta(&self.instance_metas.1, k.instance_meta_id) {
                    if let Some(es) = map_encounters(map_id) {
                        if kills_all_exec(&es, &k.attempts) && same_difficulty_exec(&k.attempts) {
                            let (lo, hi) = span_of(&k.attempts);
                            let (guild_id, guild_name) = match &k.guild {
                                Some(g) => (g.0, g.1.clone()),
                                None => (0, String::from_str(PUG_GUILD_NAME)),
                            };
                            let run = SpeedRun {
                                instance_meta_id: k.instance_meta_id,
                                map_id,
                                guild_id,
                                guild_name,
                                server_id,
                                duration: if hi >= lo { hi - lo } else { 0 },
                                difficulty_id: k.attempts[0].difficulty_id,
                                season_index: k.attempts[0].season_index,
                            };
                            assert(expected == Some(speed_run_view(run)));
                            self.speed_runs.push(run);
                            assert(self.speed_runs@.subrange(0, n as int) =~= before.subrange(0, n as int));
                            assert(self.speed_runs@.map_values(|r: SpeedRun| speed_run_view(r)) =~= bv.push(speed_run_view(run)));
                            pushed = true;
                        }
                    }
                }
            }
            if !pushed {
                assert(expected is None);
            }
            j = j + 1;
        }
        assert(kills@.subrange(0, j as int) =~= kills@);
    }

    /// Adds a speed kill for every rankable attempt of a public instance
    /// that has none yet.
    pub fn calculate_speed_kills(&mut self, kills: &Vec<InstanceKills>)
        ensures
            final(self).speed_kills@.map_values(|k: SpeedKill| speed_kill_view(k)) == old(self).speed_kills@.map_values(
                |k: SpeedKill| speed_kill_view(k),
            ) + speed_kills_spec(old(self).instance_metas.1@, old(self).speed_kills@, kills@),
            final(self).speed_runs@ == old(self).speed_runs@,
            final(self).instance_metas.1@ == old(self).instance_metas.1@,
    {
        let n = self.speed_kills.len();
        let ghost known = self.speed_kills@;
        let ghost start = known.map_values(|k: SpeedKill| speed_kill_view(k));
        let mut j: usize = 0;
        assert(start + speed_kills_spec(self.instance_metas.1@, known, kills@.subrange(0, 0)) =~= start);
        while j < kills.len()
            invariant
                j <= kills@.len(),
                n == known.len(),
                self.speed_kills@.len() >= n,
                self.speed_kills@.subrange(0, n as int) == known,
                self.speed_runs@ == old(self).speed_runs@,
                self.instance_metas.1@ == old(self).instance_metas.1@,
                self.speed_kills@.map_values(|k: SpeedKill| speed_kill_view(k)) == start + speed_kills_spec(
                    self.instance_metas.1@,
                    known,
                    kills@.subrange(0, j as int),
                ),
            decreases kills@.len() - j,
        {
            let k = &kills[j];
            assert(kills@.subrange(0, j + 1).drop_last() =~= kills@.subrange(0, j as int));
            assert(kills@.subrange(0, j + 1).last() == *k);
            if let Some(server_id) = meta_server(&self.instance_metas.1, k.instance_meta_id) {
                let (guild_id, guild_name) = match &k.guild {
                    Some(g) => (g.0, g.1.clone()),
                    None => (0, String::from_str(PUG_GUILD_NAME)),
                };
                let ghost base = self.speed_kills@.map_values(|k: SpeedKill| speed_kill_view(k));
                let mut a: usize = 0;
                assert(base + instance_speed_kills(known, server_id, *k, k.attempts@.subrange(0, 0)) =~= base);
                while a < k.attempts.len()
                    invariant
                        a <= k.attempts@.len(),
                        n == known.len(),
                        self.speed_kills@.len() >= n,
                        self.speed_kills@.subrange(0, n as int) == known,
                        self.speed_runs@ == old(self).speed_runs@,
                        self.instance_metas.1@ == old(self).instance_metas.1@,
                        (guild_id, guild_name@) == guild_of(*k),
                        self.speed_kills@.map_values(|k: SpeedKill| speed_kill_view(k)) == base + instance_speed_kills(
                            known,
                            server_id,
                            *k,
                            k.attempts@.subrange(0, a as int),
                        ),
                    decreases k.attempts@.len() - a,
                {
                    let at = k.attempts[a];
                    assert(k.attempts@.subrange(0, a + 1).drop_last() =~= k.attempts@.subrange(0, a as int));
                    assert(k.attempts@.subrange(0, a + 1).last() == at);
                    if at.rankable && !has_kill_exec(&self.speed_kills, n, at.attempt_id) {
                        let duration = if at.end_ts >= at.start_ts { at.end_ts - at.start_ts } else { 0 };
                        let sk = SpeedKill {
                            instance_meta_id: k.instance_meta_id,
                            attempt_id: at.attempt_id,
                            encounter_id: at.encounter_id,
                            guild_id,
                            guild_name: guild_name.clone(),
                            server_id,
                            duration,
                            difficulty_id: at.difficulty_id,
                            season_index: at.season_index,
                        };
                        let ghost before = self.speed_kills@;
                        self.speed_kills.push(sk);
                        assert(self.speed_kills@.subrange(0, n as int) =~= before.subrange(0, n as int));
                        assert(self.speed_kills@.map_values(|k: SpeedKill| speed_kill_view(k)) =~= before.map_values(
                            |k: SpeedKill| speed_kill_view(k),
                        ).push(speed_kill_view(sk)));
                    }
                    a = a + 1;
                }
                assert(k.attempts@.subrange(0, a as int) =~= k.attempts@);
            }
            j = j + 1;
        }
        assert(kills@.subrange(0, j as int) =~= kills@);
    }

    pub fn new() -> (r: Instance)
        ensures
            r.instance_metas.0 == 0,
            r.instance_metas.1@.len() == 0,
            r.speed_runs@.len() == 0,
            r.speed_kills@.len() == 0,
    {
        Instance { instance_metas: (0, Vec::new()), speed_runs: Vec::new(), speed_kills: Vec::new() }
    }

    /// Forgets the metadata of an instance.
    pub fn delete_instance_meta(&mut self, instance_meta_id: u32)
        ensures
            final(self).instance_metas.1@ == without_meta(old(self).instance_metas.1@, instance_meta_id),
            final(self).instance_metas.0 == old(self).instance_metas.0,
            final(self).speed_runs@ == old(self).speed_runs@,
            final(self).speed_kills@ == old(self).speed_kills@,
    {
        let ghost orig = self.instance_metas.1@;
        let mut i: usize = 0;
        let ghost mut k: int = 0;
        assert(without_meta(orig.subrange(0, 0), instance_meta_id) =~= seq![]);
        while i < self.instance_metas.1.len()
            invariant
                0 <= i <= k <= orig.len(),
                self.instance_metas.1@.len() == i + (orig.len() - k),
                self.instance_metas.1@.subrange(0, i as int) == without_meta(orig.subrange(0, k), instance_meta_id),
                self.instance_metas.1@.subrange(i as int, self.instance_metas.1@.len() as int) == orig.subrange(
                    k,
                    orig.len() as int,
                ),
                self.instance_metas.0 == old(self).instance_metas.0,
                self.speed_runs@ == old(self).speed_runs@,
                self.speed_kills@ == old(self).speed_kills@,
            decreases orig.len() - k,
        {
            let ghost cur = self.instance_metas.1@;
            assert(orig.subrange(0, k + 1).drop_last() =~= orig.subrange(0, k));
            assert(cur.subrange(i as int, cur.len() as int)[0] == cur[i as int]);
            assert(orig[k] == cur[i as int]);
            assert(orig.subrange(0, k + 1).last() == orig[k]);
            assert(orig.subrange(k + 1, orig.len() as int) =~= orig.subrange(k, orig.len() as int).subrange(1, orig.len() - k));
            assert(cur.subrange(i + 1, cur.len() as int) =~= cur.subrange(i as int, cur.len() as int).subrange(1, cur.len() - i));
            if self.instance_metas.1[i].instance_meta_id == instance_meta_id {
                self.instance_metas.1.remove(i);
                assert(self.instance_metas.1@.subrange(0, i as int) =~= cur.subrange(0, i as int));
                assert(self.instance_metas.1@.subrange(i as int, self.instance_metas.1@.len() as int) =~= cur.subrange(i + 1, cur.len() as int));
            } else {
                assert(cur.subrange(0, i + 1) =~= cur.subrange(0, i as int).push(cur[i as int]));
                i = i + 1;
            }
            proof {
                k = k + 1;
            }
        }
        assert(orig.subrange(0, k) =~= orig);
        assert(self.instance_metas.1@ =~= self.instance_metas.1@.subrange(0, i as int));
    }
}

#[derive(Clone, Copy, Debug, PartialEq, Eq, Structural)]
pub enum InstanceFailure {
    InvalidInput,
}

/// Drops the cached speed run of an instance and the cached speed kill of
/// an attempt once that attempt is no longer ranked. `instance_meta_id` is
/// the instance that storage holds for the attempt; none means the attempt
/// is unknown.
pub trait UnrankAttempt {
    fn unrank_attempt(&mut self, instance_meta_id: Option<u32>, attempt_id: u32) -> Result<(), InstanceFailure>;
}

fn find_run(runs: &Vec<SpeedRun>, instance_meta_id: u32) -> (r: Option<usize>)
    ensures
        match r {
            Some(i) => first_index(runs@, run_of_instance(instance_meta_id)) == Some(i as int),
            None => first_index(runs@, run_of_instance(instance_meta_id)) is None,
        },
{
    let mut i: usize = 0;
    while i < runs.len()
        invariant
            i <= runs@.len(),
            forall|j: int| 0 <= j < i ==> !(#[trigger] run_of_instance(instance_meta_id)(runs@[j])),
        decreases runs@.len() - i,
    {
        if runs[i].instance_meta_id == instance_meta_id {
            proof {
                lemma_first_index_is(runs@, run_of_instance(instance_meta_id), i as int);
            }
            return Some(i);
        }
        i = i + 1;
    }
    proof {
        lemma_first_index_none(runs@, run_of_instance(instance_meta_id));
    }
    None
}

fn find_kill(kills: &Vec<SpeedKill>, attempt_id: u32) -> (r: Option<usize>)
    ensures
        match r {
            Some(i) => first_index(kills@, kill_of_attempt(attempt_id)) == Some(i as int),
            None => first_index(kills@, kill_of_attempt(attempt_id)) is None,
        },
{
    let mut i: usize = 0;
    while i < kills.len()
        invariant
            i <= kills@.len(),
            forall|j: int| 0 <= j < i ==> !(#[trigger] kill_of_attempt(attempt_id)(kills@[j])),
        decreases kills@.len() - i,
    {
        if kills[i].attempt_id == attempt_id {
            proof {
                lemma_first_index_is(kills@, kill_of_attempt(attempt_id), i as int);
            }
            return Some(i);
        }
        i = i + 1;
    }
    proof {
        lemma_first_index_none(kills@, kill_of_attempt(attempt_id));
    }
    None
}

impl UnrankAttempt for Instance {
    fn unrank_attempt(&mut self, instance_meta_id: Option<u32>, attempt_id: u32) -> (r: Result<(), InstanceFailure>)
        ensures
            match instance_meta_id {
                None => r == Err::<(), InstanceFailure>(InstanceFailure::InvalidInput)
                    && final(self).speed_runs@ == old(self).speed_runs@
                    && final(self).speed_kills@ == old(self).speed_kills@,
                Some(id) => r is Ok
                    && final(self).speed_runs@ == without_first(old(self).speed_runs@, run_of_instance(id))
                    && final(self).speed_kills@ == without_first(old(self).speed_kills@, kill_of_attempt(attempt_id)),
            },
            final(self).instance_metas.1@ == old(self).instance_metas.1@,
    {
        let instance_meta_id = match instance_meta_id {
            Some(id) => id,
            None => return Err(InstanceFailure::InvalidInput),
        };
        if let Some(i) = find_run(&self.speed_runs, instance_meta_id) {
            self.speed_runs.remove(i);
        }
        if let Some(i) = find_kill(&self.speed_kills, attempt_id) {
            self.speed_kills.remove(i);
        }
        Ok(())
    }
}

} // verus!
