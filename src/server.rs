//! One periodic pass over the buffered events of every tracked instance:
//! attempts are detected and committed, epic loot is collected, and the
//! progress watermark of each instance is reported. Persisting what the
//! pass returns is left to the caller.

use vstd::prelude::*;
use crate::attempt::{AttemptModel, AttemptRecord, RecordModel, commit_attempt, commit_spec};
use crate::data::Data;
use crate::event::{Actor, Event, EventType};
use crate::tracker::{
    InstanceAttempts,
    TrackerModel,
    event_step,
    lemma_event_step_keeps_unique,
    models_of,
    unique_encounters,
};

verus! {

/// Items of this quality or better are recorded when looted.
pub const EPIC_QUALITY: u8 = 5;

/// The events of an instance that are buffered for the next pass, and the
/// state of its attempts.
pub struct InstanceBuffer {
    pub instance_id: u32,
    pub instance_meta_id: u32,
    pub committed_events: Vec<Event>,
    /// The id of the last event received for the instance.
    pub committed_events_count: u32,
    pub attempts: InstanceAttempts,
}

pub struct Server {
    pub server_id: u32,
    pub expansion_id: u8,
    pub instances: Vec<InstanceBuffer>,
}

pub struct LootRecord {
    pub instance_meta_id: u32,
    pub character_id: u32,
    pub item_id: u32,
    pub looted_ts: u64,
    pub amount: u32,
}

/// The watermark of an instance: its last event id and end time.
pub struct ProgressRecord {
    pub instance_meta_id: u32,
    pub last_event_id: u32,
    pub end_ts: u64,
}

/// Everything a pass hands to storage.
pub struct PostProcessing {
    pub attempts: Vec<(u32, AttemptRecord)>,
    pub loot: Vec<LootRecord>,
    pub progress: Vec<ProgressRecord>,
    /// The events of each instance, in the order received, drained from
    /// the buffers.
    pub events: Vec<(u32, Vec<Event>)>,
}

/// The state machine run over the first `k` events of a buffer: the state
/// afterwards and every attempt closed on the way, in order.
pub open spec fn run_events(m: TrackerModel, data: Data, events: Seq<Event>, k: int) -> (
    TrackerModel,
    Seq<AttemptModel>,
)
    decreases k,
{
    if k <= 0 {
        (m, seq![])
    } else {
        let (m1, c1) = run_events(m, data, events, k - 1);
        let (m2, c2) = event_step(m1, data, events, k - 1);
        (m2, c1 + c2)
    }
}

/// The records that committing closed attempts in order persists.
pub open spec fn commit_all(s: Seq<AttemptModel>) -> Seq<RecordModel>
    decreases s.len(),
{
    if s.len() == 0 {
        seq![]
    } else {
        match commit_spec(s.last()) {
            Some(r) => commit_all(s.drop_last()).push(r),
            None => commit_all(s.drop_last()),
        }
    }
}

pub open spec fn records_of(v: Seq<AttemptRecord>) -> Seq<RecordModel> {
    v.map_values(|r: AttemptRecord| r@)
}

/// For every sequence of events, every prefix leaves at most one active
/// attempt per encounter.
pub proof fn lemma_one_active_attempt_per_encounter(m: TrackerModel, data: Data, events: Seq<Event>, k: int)
    requires
        unique_encounters(m.active),
        0 <= k <= events.len(),
    ensures
        unique_encounters(run_events(m, data, events, k).0.active),
    decreases k,
{
    if k > 0 {
        lemma_one_active_attempt_per_encounter(m, data, events, k - 1);
        lemma_event_step_keeps_unique(run_events(m, data, events, k - 1).0, data, events, k - 1);
    }
}

proof fn lemma_commit_all_append(a: Seq<AttemptModel>, b: Seq<AttemptModel>)
    ensures
        commit_all(a + b) == commit_all(a) + commit_all(b),
    decreases b.len(),
{
    if b.len() == 0 {
        assert(a + b =~= a);
        assert(commit_all(a) + commit_all(b) =~= commit_all(a));
    } else {
        lemma_commit_all_append(a, b.drop_last());
        assert((a + b).drop_last() =~= a + b.drop_last());
        assert((a + b).last() == b.last());
        match commit_spec(b.last()) {
            Some(r) => {
                assert(commit_all(a) + commit_all(b.drop_last()).push(r) =~= (commit_all(a) + commit_all(
                    b.drop_last(),
                )).push(r));
            },
            None => {},
        }
    }
}

/// A loot event of a player for an item of epic quality or better.
pub open spec fn loot_of(data: Data, meta: u32, e: Event) -> Option<(u32, u32, u32, u64, u32)> {
    match e.event {
        EventType::Loot { item_id, amount } => match e.subject {
            Actor::Player(p) => match data.item_spec(item_id) {
                Some(item) => if item.quality >= EPIC_QUALITY {
                    Some((meta, p.character_id, item_id, e.timestamp, amount))
                } else {
                    None
                },
                None => None,
            },
            _ => None,
        },
        _ => None,
    }
}

pub open spec fn loot_rows(data: Data, meta: u32, events: Seq<Event>) -> Seq<(u32, u32, u32, u64, u32)>
    decreases events.len(),
{
    if events.len() == 0 {
        seq![]
    } else {
        match loot_of(data, meta, events.last()) {
            Some(r) => loot_rows(data, meta, events.drop_last()).push(r),
            None => loot_rows(data, meta, events.drop_last()),
        }
    }
}

pub open spec fn loot_view(v: Seq<LootRecord>) -> Seq<(u32, u32, u32, u64, u32)> {
    v.map_values(|l: LootRecord| (l.instance_meta_id, l.character_id, l.item_id, l.looted_ts, l.amount))
}

impl InstanceBuffer {
    /// Runs the state machine over the buffered events and commits every
    /// attempt that closes, in order.
    pub fn extract_attempts(&mut self, data: &Data) -> (r: Vec<AttemptRecord>)
        requires
            old(self).attempts.wf(),
        ensures
            final(self).attempts.wf(),
            final(self).attempts@ == run_events(
                old(self).attempts@,
                *data,
                old(self).committed_events@,
                old(self).committed_events@.len() as int,
            ).0,
            records_of(r@) == commit_all(
                run_events(
                    old(self).attempts@,
                    *data,
                    old(self).committed_events@,
                    old(self).committed_events@.len() as int,
                ).1,
            ),
            final(self).committed_events@ == old(self).committed_events@,
            final(self).instance_meta_id == old(self).instance_meta_id,
            final(self).committed_events_count == old(self).committed_events_count,
    {
        let ghost m0 = self.attempts@;
        let mut records: Vec<AttemptRecord> = Vec::new();
        let mut k: usize = 0;
        assert(records_of(records@) =~= seq![]);
        while k < self.committed_events.len()
            invariant
                k <= self.committed_events@.len(),
                self.committed_events@ == old(self).committed_events@,
                self.instance_meta_id == old(self).instance_meta_id,
                self.committed_events_count == old(self).committed_events_count,
                self.attempts.wf(),
                self.attempts@ == run_events(m0, *data, self.committed_events@, k as int).0,
                records_of(records@) == commit_all(run_events(m0, *data, self.committed_events@, k as int).1),
            decreases self.committed_events@.len() - k,
        {
            let ghost prev = run_events(m0, *data, self.committed_events@, k as int);
            let mut closed = self.attempts.process_event(data, &self.committed_events, k);
            let ghost step = models_of(closed@);
            let ghost rs = records_of(records@);
            let ghost mut j: int = 0;
            assert(step.subrange(0, 0) =~= seq![]);
            assert(rs + commit_all(step.subrange(0, 0)) =~= rs);
            while closed.len() > 0
                invariant
                    0 <= j <= step.len(),
                    models_of(closed@) == step.subrange(j, step.len() as int),
                    records_of(records@) == rs + commit_all(step.subrange(0, j)),
                decreases closed@.len(),
            {
                let ghost cl = closed@;
                assert(models_of(cl).len() == cl.len());
                let a = closed.remove(0);
                assert(closed@ == cl.remove(0));
                assert(a@ == models_of(cl)[0]);
                assert(models_of(cl)[0] == step.subrange(j, step.len() as int)[0]);
                assert(models_of(closed@) =~= models_of(cl).subrange(1, models_of(cl).len() as int));
                assert(models_of(closed@) =~= step.subrange(j + 1, step.len() as int));
                assert(a@ == step[j]);
                assert(step.subrange(0, j + 1).drop_last() =~= step.subrange(0, j));
                let ghost before_push = records_of(records@);
                match commit_attempt(a) {
                    Some(rec) => {
                        records.push(rec);
                        assert(records_of(records@) =~= before_push.push(rec@));
                        assert(rs + commit_all(step.subrange(0, j)).push(rec@) =~= (rs + commit_all(step.subrange(0, j))).push(rec@));
                    },
                    None => {},
                }
                proof {
                    j = j + 1;
                }
            }
            assert(step.subrange(0, j) =~= step);
            proof {
                lemma_commit_all_append(prev.1, step);
            }
            k = k + 1;
        }
        records
    }

    /// The epic-or-better loot of players among the buffered events.
    pub fn extract_loot(&self, data: &Data) -> (r: Vec<LootRecord>)
        ensures
            loot_view(r@) == loot_rows(*data, self.instance_meta_id, self.committed_events@),
    {
        let mut rows: Vec<LootRecord> = Vec::new();
        let mut k: usize = 0;
        assert(loot_view(rows@) =~= seq![]);
        while k < self.committed_events.len()
            invariant
                k <= self.committed_events@.len(),
                loot_view(rows@) == loot_rows(*data, self.instance_meta_id, self.committed_events@.subrange(0, k as int)),
            decreases self.committed_events@.len() - k,
        {
            let e = &self.committed_events[k];
            assert(self.committed_events@.subrange(0, k + 1).drop_last() =~= self.committed_events@.subrange(0, k as int));
            assert(self.committed_events@.subrange(0, k + 1).last() == *e);
            let ghost before = loot_view(rows@);
            if let EventType::Loot { item_id, amount } = &e.event {
                if let Actor::Player(p) = &e.subject {
                    if let Some(item) = data.get_item(*item_id) {
                        if item.quality >= EPIC_QUALITY {
                            rows.push(
                                LootRecord {
                                    instance_meta_id: self.instance_meta_id,
                                    character_id: p.character_id,
                                    item_id: *item_id,
                                    looted_ts: e.timestamp,
                                    amount: *amount,
                                },
                            );
                            assert(loot_view(rows@) =~= before.push((self.instance_meta_id, p.character_id, *item_id, e.timestamp, *amount)));
                        }
                    }
                }
            }
            k = k + 1;
        }
        assert(self.committed_events@.subrange(0, k as int) =~= self.committed_events@);
        rows
    }
}

pub open spec fn server_wf(instances: Seq<InstanceBuffer>) -> bool {
    forall|i: int| 0 <= i < instances.len() ==> (#[trigger] instances[i]).attempts.wf()
}

pub open spec fn run_of(b: InstanceBuffer, data: Data) -> (TrackerModel, Seq<AttemptModel>) {
    run_events(b.attempts@, data, b.committed_events@, b.committed_events@.len() as int)
}

pub open spec fn tag(meta: u32, s: Seq<RecordModel>) -> Seq<(u32, RecordModel)> {
    s.map_values(|r: RecordModel| (meta, r))
}

/// The records of a pass over `instances`, each tagged with its instance.
pub open spec fn pass_records(instances: Seq<InstanceBuffer>, data: Data) -> Seq<(u32, RecordModel)>
    decreases instances.len(),
{
    if instances.len() == 0 {
        seq![]
    } else {
        let b = instances.last();
        pass_records(instances.drop_last(), data) + tag(b.instance_meta_id, commit_all(run_of(b, data).1))
    }
}

pub open spec fn pass_loot(instances: Seq<InstanceBuffer>, data: Data) -> Seq<(u32, u32, u32, u64, u32)>
    decreases instances.len(),
{
    if instances.len() == 0 {
        seq![]
    } else {
        let b = instances.last();
        pass_loot(instances.drop_last(), data) + loot_rows(data, b.instance_meta_id, b.committed_events@)
    }
}

pub open spec fn tagged_view(v: Seq<(u32, AttemptRecord)>) -> Seq<(u32, RecordModel)> {
    v.map_values(|e: (u32, AttemptRecord)| (e.0, e.1@))
}

fn push_tagged(out: &mut Vec<(u32, AttemptRecord)>, meta: u32, records: Vec<AttemptRecord>)
    ensures
        tagged_view(final(out)@) == tagged_view(old(out)@) + tag(meta, records_of(records@)),
{
    let mut records = records;
    let ghost orig = records_of(records@);
    let ghost start = tagged_view(out@);
    let ghost mut j: int = 0;
    assert(start + tag(meta, orig.subrange(0, 0)) =~= start);
    while records.len() > 0
        invariant
            0 <= j <= orig.len(),
            records_of(records@) == orig.subrange(j, orig.len() as int),
            tagged_view(out@) == start + tag(meta, orig.subrange(0, j)),
        decreases records@.len(),
    {
        let ghost rs = records@;
        assert(records_of(rs).len() == rs.len());
        let rec = records.remove(0);
        assert(rec@ == records_of(rs)[0]);
        assert(records_of(rs)[0] == orig.subrange(j, orig.len() as int)[0]);
        assert(records_of(records@) =~= records_of(rs).subrange(1, records_of(rs).len() as int));
        assert(records_of(records@) =~= orig.subrange(j + 1, orig.len() as int));
        let ghost before = tagged_view(out@);
        out.push((meta, rec));
        assert(tagged_view(out@) =~= before.push((meta, rec@)));
        assert(start + tag(meta, orig.subrange(0, j + 1)) =~= (start + tag(meta, orig.subrange(0, j))).push((meta, orig[j])));
        proof {
            j = j + 1;
        }
    }
    assert(orig.subrange(0, j) =~= orig);
}

fn append_loot(out: &mut Vec<LootRecord>, rows: Vec<LootRecord>)
    ensures
        loot_view(final(out)@) == loot_view(old(out)@) + loot_view(rows@),
{
    let ghost added = rows@;
    let mut rows = rows;
    let ghost before = loot_view(out@);
    out.append(&mut rows);
    assert(loot_view(out@) =~= before + loot_view(added));
}

impl Server {
    pub open spec fn wf(&self) -> bool {
        server_wf(self.instances@)
    }

    /// One pass: for each instance in order, the records of the attempts
    /// that its buffered events close, its epic loot and its watermark; every
    /// buffer is drained into the result.
    pub fn perform_post_processing(&mut self, data: &Data) -> (r: PostProcessing)
        requires
            old(self).wf(),
        ensures
            final(self).wf(),
            final(self).instances@.len() == old(self).instances@.len(),
            tagged_view(r.attempts@) == pass_records(old(self).instances@, *data),
            loot_view(r.loot@) == pass_loot(old(self).instances@, *data),
            r.events@.len() == old(self).instances@.len(),
            forall|i: int|
                0 <= i < old(self).instances@.len() ==> {
                    let b = #[trigger] old(self).instances@[i];
                    &&& final(self).instances@[i].attempts@ == run_of(b, *data).0
                    &&& final(self).instances@[i].committed_events@.len() == 0
                    &&& final(self).instances@[i].instance_meta_id == b.instance_meta_id
                    &&& r.events@[i].0 == b.instance_meta_id
                    &&& r.events@[i].1@ == b.committed_events@
                },
    {
        let mut out = PostProcessing { attempts: Vec::new(), loot: Vec::new(), progress: Vec::new(), events: Vec::new() };
        let ghost orig = self.instances@;
        assert(tagged_view(out.attempts@) =~= seq![]);
        assert(loot_view(out.loot@) =~= seq![]);
        assert(orig.subrange(0, 0) =~= seq![]);
        let mut i: usize = 0;
        while i < self.instances.len()
            invariant
                i <= self.instances@.len(),
                self.instances@.len() == orig.len(),
                out.events@.len() == i,
                tagged_view(out.attempts@) == pass_records(orig.subrange(0, i as int), *data),
                loot_view(out.loot@) == pass_loot(orig.subrange(0, i as int), *data),
                forall|j: int| i <= j < orig.len() ==> #[trigger] self.instances@[j] == orig[j],
                forall|j: int| 0 <= j < orig.len() ==> (#[trigger] self.instances@[j]).attempts.wf(),
                forall|j: int|
                    0 <= j < i ==> {
                        let b = #[trigger] orig[j];
                        &&& self.instances@[j].attempts@ == run_of(b, *data).0
                        &&& self.instances@[j].committed_events@.len() == 0
                        &&& self.instances@[j].instance_meta_id == b.instance_meta_id
                        &&& out.events@[j].0 == b.instance_meta_id
                        &&& out.events@[j].1@ == b.committed_events@
                    },
            decreases orig.len() - i,
        {
            let ghost b = orig[i as int];
            assert(self.instances@[i as int] == b);
            assert(orig.subrange(0, i + 1).drop_last() =~= orig.subrange(0, i as int));
            assert(orig.subrange(0, i + 1).last() == b);
            let ghost prev_instances = self.instances@;
            let records = self.instances[i].extract_attempts(data);
            let meta = self.instances[i].instance_meta_id;
            push_tagged(&mut out.attempts, meta, records);
            let loot = self.instances[i].extract_loot(data);
            append_loot(&mut out.loot, loot);
            let n = self.instances[i].committed_events.len();
            if n > 0 {
                let end_ts = self.instances[i].committed_events[n - 1].timestamp;
                out.progress.push(
                    ProgressRecord {
                        instance_meta_id: meta,
                        last_event_id: self.instances[i].committed_events_count,
                        end_ts,
                    },
                );
            }
            let mut drained: Vec<Event> = Vec::new();
            std::mem::swap(&mut drained, &mut self.instances[i].committed_events);
            out.events.push((meta, drained));
            assert forall|j: int| 0 <= j < orig.len() && j != i implies #[trigger] self.instances@[j] == prev_instances[j] by {}
            i = i + 1;
        }
        assert(orig.subrange(0, i as int) =~= orig);
        out
    }
}

} // verus!
