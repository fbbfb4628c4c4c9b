//! Ranking rows as read back for export, the season they fall in, and the
//! grouping of public rankings by encounter and character.

use vstd::prelude::*;
use vstd::string::*;
use crate::search::{first_index, lemma_first_index_is, lemma_first_index_none};

verus! {

/// The first weekly reset of the first ranked season (ms since the epoch).
pub const SEASON_EPOCH_MS: u64 = 1731470400000;

pub const WEEK_MS: u64 = 604800000;

/// The weekly period that a start time falls in, counted from 1 at the
/// season epoch (0 before it), kept in a byte as the persisted column is.
pub open spec fn season_index_spec(ts: u64) -> u8 {
    if ts < SEASON_EPOCH_MS {
        0
    } else {
        ((1 + (ts - SEASON_EPOCH_MS) / WEEK_MS as int) % 256) as u8
    }
}

pub fn calculate_season_index(ts: u64) -> (r: u8)
    ensures
        r == season_index_spec(ts),
{
    if ts < SEASON_EPOCH_MS {
        return 0;
    }
    let weeks = (ts - SEASON_EPOCH_MS) / WEEK_MS;
    ((1 + weeks) % 256) as u8
}

#[derive(Clone, Copy, Debug, PartialEq, Eq, Structural)]
pub struct RankingResultMeta {
    pub instance_meta_id: u32,
    pub attempt_id: u32,
    pub amount: u32,
    pub duration: u64,
    pub difficulty_id: u8,
    pub character_spec: u8,
    pub season_index: u8,
}

#[derive(Clone, Debug)]
pub struct RankingResult {
    pub id: u32,
    pub encounter_id: u32,
    pub server_id: u32,
    pub character_id: u32,
    pub character_name: String,
    pub hero_class_id: u8,
    pub instance_meta_id: u32,
    pub attempt_id: u32,
    pub amount: u32,
    pub duration: u64,
    pub difficulty_id: u8,
    pub character_spec: u8,
    pub season_index: u8,
    pub ranking_result: RankingResultMeta,
}

#[derive(Clone, Debug)]
pub struct RankingCharacterMeta {
    pub server_id: u32,
    pub hero_class_id: u8,
    pub name: String,
}

#[derive(Clone, Copy, Debug, PartialEq, Eq, Structural)]
pub enum PrivacyType {
    Public,
    Group(u32),
    Private,
}

#[derive(Clone, Debug)]
pub struct InstanceMeta {
    pub instance_meta_id: u32,
    pub server_id: u32,
    pub start_ts: u64,
    pub end_ts: Option<u64>,
    pub expired: Option<u64>,
    pub map_id: u16,
    pub participants: Vec<u32>,
    pub map_difficulty: Option<u8>,
    pub uploaded_user: u32,
    pub upload_id: u32,
    pub privacy_type: PrivacyType,
    pub updated_specs: bool,
}

pub open spec fn meta_is(id: u32) -> spec_fn(InstanceMeta) -> bool {
    |m: InstanceMeta| m.instance_meta_id == id
}

/// The instance of a result is known and public.
pub open spec fn is_public_spec(metas: Seq<InstanceMeta>, id: u32) -> bool {
    match first_index(metas, meta_is(id)) {
        Some(i) => metas[i].privacy_type == PrivacyType::Public,
        None => false,
    }
}

pub fn is_public(metas: &Vec<InstanceMeta>, id: u32) -> (r: bool)
    ensures
        r == is_public_spec(metas@, id),
{
    let mut i: usize = 0;
    while i < metas.len()
        invariant
            i <= metas@.len(),
            forall|j: int| 0 <= j < i ==> !(#[trigger] meta_is(id)(metas@[j])),
        decreases metas@.len() - i,
    {
        if metas[i].instance_meta_id == id {
            proof {
                lemma_first_index_is(metas@, meta_is(id), i as int);
            }
            return metas[i].privacy_type == PrivacyType::Public;
        }
        i = i + 1;
    }
    proof {
        lemma_first_index_none(metas@, meta_is(id));
    }
    false
}

pub type CharacterView = (u32, u8, Seq<char>);

pub type CharacterRankings = (u32, CharacterView, Seq<RankingResultMeta>);

pub type EncounterRankings = (u32, Seq<CharacterRankings>);

pub open spec fn character_of(r: RankingResult) -> CharacterView {
    (r.server_id, r.hero_class_id, r.character_name@)
}

pub open spec fn character_is(id: u32) -> spec_fn(CharacterRankings) -> bool {
    |c: CharacterRankings| c.0 == id
}

pub open spec fn encounter_group_is(id: u32) -> spec_fn(EncounterRankings) -> bool {
    |g: EncounterRankings| g.0 == id
}

/// Adds a result to its character's list, opening the list on first sight.
pub open spec fn add_to_character(cs: Seq<CharacterRankings>, r: RankingResult) -> Seq<CharacterRankings> {
    match first_index(cs, character_is(r.character_id)) {
        Some(j) => cs.update(j, (cs[j].0, cs[j].1, cs[j].2.push(r.ranking_result))),
        None => cs.push((r.character_id, character_of(r), seq![r.ranking_result])),
    }
}

/// Adds a result to its encounter's group, opening the group on first sight.
pub open spec fn add_to_export(gs: Seq<EncounterRankings>, r: RankingResult) -> Seq<EncounterRankings> {
    match first_index(gs, encounter_group_is(r.encounter_id)) {
        Some(i) => gs.update(i, (gs[i].0, add_to_character(gs[i].1, r))),
        None => gs.push((r.encounter_id, seq![(r.character_id, character_of(r), seq![r.ranking_result])])),
    }
}

/// The public results grouped by encounter, then by character, each in
/// order of first appearance, each list keeping the order of the input.
pub open spec fn export_spec(metas: Seq<InstanceMeta>, rs: Seq<RankingResult>) -> Seq<EncounterRankings>
    decreases rs.len(),
{
    if rs.len() == 0 {
        seq![]
    } else {
        let prev = export_spec(metas, rs.drop_last());
        if is_public_spec(metas, rs.last().ranking_result.instance_meta_id) {
            add_to_export(prev, rs.last())
        } else {
            prev
        }
    }
}

pub type CharacterExport = (u32, RankingCharacterMeta, Vec<RankingResultMeta>);

pub open spec fn character_view(c: CharacterExport) -> CharacterRankings {
    (c.0, (c.1.server_id, c.1.hero_class_id, c.1.name@), c.2@)
}

pub open spec fn group_view(g: (u32, Vec<CharacterExport>)) -> EncounterRankings {
    (g.0, g.1@.map_values(|c: CharacterExport| character_view(c)))
}

pub open spec fn export_view(v: Seq<(u32, Vec<CharacterExport>)>) -> Seq<EncounterRankings> {
    v.map_values(|g: (u32, Vec<CharacterExport>)| group_view(g))
}

fn character_meta(r: &RankingResult) -> (m: RankingCharacterMeta)
    ensures
        (m.server_id, m.hero_class_id, m.name@) == character_of(*r),
{
    RankingCharacterMeta { server_id: r.server_id, hero_class_id: r.hero_class_id, name: r.character_name.clone() }
}

fn add_character(cs: &mut Vec<CharacterExport>, r: &RankingResult)
    ensures
        final(cs)@.map_values(|c: CharacterExport| character_view(c)) == add_to_character(
            old(cs)@.map_values(|c: CharacterExport| character_view(c)),
            *r,
        ),
{
    let ghost v = cs@.map_values(|c: CharacterExport| character_view(c));
    let mut j: usize = 0;
    while j < cs.len()
        invariant
            j <= cs@.len(),
            cs@ == old(cs)@,
            v == cs@.map_values(|c: CharacterExport| character_view(c)),
            forall|k: int| 0 <= k < j ==> !(#[trigger] character_is(r.character_id)(v[k])),
        decreases cs@.len() - j,
    {
        if cs[j].0 == r.character_id {
            proof {
                lemma_first_index_is(v, character_is(r.character_id), j as int);
            }
            let ghost before = cs@;
            cs[j].2.push(r.ranking_result);
            assert(cs@.map_values(|c: CharacterExport| character_view(c)) =~= v.update(
                j as int,
                (v[j as int].0, v[j as int].1, v[j as int].2.push(r.ranking_result)),
            ));
            return;
        }
        j = j + 1;
    }
    proof {
        lemma_first_index_none(v, character_is(r.character_id));
    }
    let meta = character_meta(r);
    let mut list: Vec<RankingResultMeta> = Vec::new();
    list.push(r.ranking_result);
    cs.push((r.character_id, meta, list));
    assert(cs@.map_values(|c: CharacterExport| character_view(c)) =~= v.push(
        (r.character_id, character_of(*r), seq![r.ranking_result]),
    ));
}

fn find_group(out: &Vec<(u32, Vec<CharacterExport>)>, encounter_id: u32) -> (r: Option<usize>)
    ensures
        match r {
            Some(i) => first_index(export_view(out@), encounter_group_is(encounter_id)) == Some(i as int),
            None => first_index(export_view(out@), encounter_group_is(encounter_id)) is None,
        },
{
    let ghost v = export_view(out@);
    let mut i: usize = 0;
    while i < out.len()
        invariant
            i <= out@.len(),
            v == export_view(out@),
            forall|j: int| 0 <= j < i ==> !(#[trigger] encounter_group_is(encounter_id)(v[j])),
        decreases out@.len() - i,
    {
        if out[i].0 == encounter_id {
            proof {
                lemma_first_index_is(v, encounter_group_is(encounter_id), i as int);
            }
            return Some(i);
        }
        i = i + 1;
    }
    proof {
        lemma_first_index_none(v, encounter_group_is(encounter_id));
    }
    None
}

/// Groups the results of public instances by encounter and character (see
/// `export_spec`); a result of an unknown or non-public instance is left
/// out, and so is every group left empty.
pub fn create_ranking_export(instance_metas: &Vec<InstanceMeta>, rankings: &Vec<RankingResult>) -> (r: Vec<
    (u32, Vec<CharacterExport>),
>)
    ensures
        export_view(r@) == export_spec(instance_metas@, rankings@),
{
    let mut out: Vec<(u32, Vec<CharacterExport>)> = Vec::new();
    let mut k: usize = 0;
    assert(export_view(out@) =~= seq![]);
    while k < rankings.len()
        invariant
            k <= rankings@.len(),
            export_view(out@) == export_spec(instance_metas@, rankings@.subrange(0, k as int)),
        decreases rankings@.len() - k,
    {
        let r = &rankings[k];
        assert(rankings@.subrange(0, k + 1).drop_last() =~= rankings@.subrange(0, k as int));
        assert(rankings@.subrange(0, k + 1).last() == *r);
        if is_public(instance_metas, r.ranking_result.instance_meta_id) {
            let ghost v = export_view(out@);
            let found = find_group(&out, r.encounter_id);
            match found {
                Some(i) => {
                    add_character(&mut out[i].1, r);
                    assert(export_view(out@) =~= v.update(i as int, (v[i as int].0, add_to_character(v[i as int].1, *r))));
                },
                None => {
                    let meta = character_meta(r);
                    let mut list: Vec<RankingResultMeta> = Vec::new();
                    list.push(r.ranking_result);
                    let mut cs: Vec<CharacterExport> = Vec::new();
                    cs.push((r.character_id, meta, list));
                    assert(cs@.map_values(|c: CharacterExport| character_view(c)) =~= seq![
                        (r.character_id, character_of(*r), seq![r.ranking_result]),
                    ]);
                    out.push((r.encounter_id, cs));
                    assert(export_view(out@) =~= v.push(
                        (r.encounter_id, seq![(r.character_id, character_of(*r), seq![r.ranking_result])]),
                    ));
                },
            }
        }
        k = k + 1;
    }
    assert(rankings@.subrange(0, k as int) =~= rankings@);
    out
}

/// `a` ranks below `b` by amount per duration, compared exactly.
pub open spec fn rate_below(a: RankingResultMeta, b: RankingResultMeta) -> bool {
    a.amount * b.duration < b.amount * a.duration
}

pub open spec fn zero_ranking() -> RankingResultMeta {
    RankingResultMeta {
        instance_meta_id: 0,
        attempt_id: 0,
        amount: 0,
        duration: 1,
        difficulty_id: 0,
        character_spec: 0,
        season_index: 0,
    }
}

/// The result with the highest rate; the first among equals, and a zero
/// result for an empty list.
pub open spec fn best_spec(s: Seq<RankingResultMeta>) -> RankingResultMeta
    decreases s.len(),
{
    if s.len() == 0 {
        zero_ranking()
    } else {
        let best = best_spec(s.drop_last());
        if rate_below(best, s.last()) {
            s.last()
        } else {
            best
        }
    }
}

pub fn helper_get_best_ranking(ranking: Vec<RankingResultMeta>) -> (r: RankingResultMeta)
    ensures
        r == best_spec(ranking@),
{
    let mut best = RankingResultMeta {
        instance_meta_id: 0,
        attempt_id: 0,
        amount: 0,
        duration: 1,
        difficulty_id: 0,
        character_spec: 0,
        season_index: 0,
    };
    let mut k: usize = 0;
    while k < ranking.len()
        invariant
            k <= ranking@.len(),
            best == best_spec(ranking@.subrange(0, k as int)),
        decreases ranking@.len() - k,
    {
        let c = ranking[k];
        assert(ranking@.subrange(0, k + 1).drop_last() =~= ranking@.subrange(0, k as int));
        assert((best.amount as u128) * (c.duration as u128) <= 0xFFFFFFFFu128 * 0xFFFFFFFFFFFFFFFFu128)
            by (nonlinear_arith)
            requires
                best.amount <= 0xFFFFFFFFu32,
                c.duration <= 0xFFFFFFFFFFFFFFFFu64,
        ;
        assert((c.amount as u128) * (best.duration as u128) <= 0xFFFFFFFFu128 * 0xFFFFFFFFFFFFFFFFu128)
            by (nonlinear_arith)
            requires
                c.amount <= 0xFFFFFFFFu32,
                best.duration <= 0xFFFFFFFFFFFFFFFFu64,
        ;
        let lhs = (best.amount as u128) * (c.duration as u128);
        let rhs = (c.amount as u128) * (best.duration as u128);
        if lhs < rhs {
            best = c;
        }
        k = k + 1;
    }
    assert(ranking@.subrange(0, k as int) =~= ranking@);
    best
}

/// The outcome that a stored winner code stands for: none for 0, a win for
/// 1, a loss otherwise.
pub fn to_winner(code: u8) -> (r: Option<bool>)
    ensures
        r == if code == 0 {
            None
        } else {
            Some(code == 1)
        },
{
    if code == 0 {
        None
    } else if code == 1 {
        Some(true)
    } else {
        Some(false)
    }
}

/// A ranking row as stored, before its character is looked up.
#[derive(Clone, Copy, Debug, PartialEq, Eq, Structural)]
pub struct StoredRanking {
    pub id: u32,
    pub character_id: u32,
    pub encounter_id: u32,
    pub attempt_id: u32,
    pub amount: u32,
    pub duration: u64,
    pub instance_meta_id: u32,
    pub difficulty_id: u8,
    pub start_ts: u64,
    pub server_id: u32,
}

/// What is known of a character at the time of an attempt: its class, its
/// name and its specialization (1 to 3, 0 when unknown).
#[derive(Clone, Debug)]
pub struct CharacterMoment {
    pub hero_class_id: u8,
    pub character_name: String,
    pub character_spec: u8,
}

/// Class ids that are not ranked: unknown, and the placeholder class.
pub open spec fn unranked_class(c: u8) -> bool {
    c == 0 || c == 12
}

pub type RankingView = (u32, u32, u32, u32, Seq<char>, u8, RankingResultMeta);

pub open spec fn ranking_view(r: RankingResult) -> RankingView {
    (r.id, r.encounter_id, r.server_id, r.character_id, r.character_name@, r.hero_class_id, r.ranking_result)
}

/// The ranking result of a stored row and its character: none for a
/// character of unknown class.
pub open spec fn ranked_spec(row: StoredRanking, moment: Option<CharacterMoment>) -> Option<RankingView> {
    match moment {
        None => None,
        Some(m) => if unranked_class(m.hero_class_id) {
            None
        } else {
            Some(
                (
                    row.id,
                    row.encounter_id,
                    row.server_id,
                    row.character_id,
                    m.character_name@,
                    m.hero_class_id,
                    RankingResultMeta {
                        instance_meta_id: row.instance_meta_id,
                        attempt_id: row.attempt_id,
                        amount: row.amount,
                        duration: row.duration,
                        difficulty_id: row.difficulty_id,
                        character_spec: m.character_spec,
                        season_index: season_index_spec(row.start_ts),
                    },
                ),
            )
        },
    }
}

pub open spec fn ranked_rows_spec(rows: Seq<(StoredRanking, Option<CharacterMoment>)>) -> Seq<RankingView>
    decreases rows.len(),
{
    if rows.len() == 0 {
        seq![]
    } else {
        match ranked_spec(rows.last().0, rows.last().1) {
            Some(v) => ranked_rows_spec(rows.drop_last()).push(v),
            None => ranked_rows_spec(rows.drop_last()),
        }
    }
}

/// The ranking results of stored rows, in order, leaving out characters of
/// unknown class; each falls in the season of its attempt's start.
pub fn ranking_results(rows: &Vec<(StoredRanking, Option<CharacterMoment>)>) -> (r: Vec<RankingResult>)
    ensures
        r@.map_values(|x: RankingResult| ranking_view(x)) == ranked_rows_spec(rows@),
{
    let mut out: Vec<RankingResult> = Vec::new();
    let mut k: usize = 0;
    assert(out@.map_values(|x: RankingResult| ranking_view(x)) =~= ranked_rows_spec(rows@.subrange(0, 0)));
    while k < rows.len()
        invariant
            k <= rows@.len(),
            out@.map_values(|x: RankingResult| ranking_view(x)) == ranked_rows_spec(rows@.subrange(0, k as int)),
        decreases rows@.len() - k,
    {
        assert(rows@.subrange(0, k + 1).drop_last() =~= rows@.subrange(0, k as int));
        assert(rows@.subrange(0, k + 1).last() == rows@[k as int]);
        let row = rows[k].0;
        if let Some(m) = &rows[k].1 {
            if !(m.hero_class_id == 0 || m.hero_class_id == 12) {
                let season_index = calculate_season_index(row.start_ts);
                let meta = RankingResultMeta {
                    instance_meta_id: row.instance_meta_id,
                    attempt_id: row.attempt_id,
                    amount: row.amount,
                    duration: row.duration,
                    difficulty_id: row.difficulty_id,
                    character_spec: m.character_spec,
                    season_index,
                };
                let result = RankingResult {
                    id: row.id,
                    encounter_id: row.encounter_id,
                    server_id: row.server_id,
                    character_id: row.character_id,
                    character_name: m.character_name.clone(),
                    hero_class_id: m.hero_class_id,
                    instance_meta_id: row.instance_meta_id,
                    attempt_id: row.attempt_id,
                    amount: row.amount,
                    duration: row.duration,
                    difficulty_id: row.difficulty_id,
                    character_spec: m.character_spec,
                    season_index,
                    ranking_result: meta,
                };
                let ghost before = out@.map_values(|x: RankingResult| ranking_view(x));
                out.push(result);
                assert(out@.map_values(|x: RankingResult| ranking_view(x)) =~= before.push(ranking_view(result)));
            }
        }
        k = k + 1;
    }
    assert(rows@.subrange(0, k as int) =~= rows@);
    out
}

pub const RANKING_COLUMNS: &'static str = "SELECT id, encounter_id, server_id, character_id, character_name, hero_class_id, instance_meta_id, attempt_id, amount, duration, difficulty_id, character_spec, season_index FROM ";

pub const SEASON_CONDITION: &'static str = "season_index = :season";

pub const SERVER_CONDITION: &'static str = "server_id = :server_id";

/// The query that reads the ranking rows of a table, narrowed to a season
/// and a server when they are given.
pub open spec fn ranking_query_spec(table_name: Seq<char>, season: bool, server: bool) -> Seq<char> {
    let base = RANKING_COLUMNS@ + table_name;
    if season && server {
        base + " WHERE "@ + SEASON_CONDITION@ + " AND "@ + SERVER_CONDITION@
    } else if season {
        base + " WHERE "@ + SEASON_CONDITION@
    } else if server {
        base + " WHERE "@ + SERVER_CONDITION@
    } else {
        base
    }
}

/// Builds the query of `ranking_query_spec`; the season and server values
/// are bound as the `:season` and `:server_id` parameters.
pub fn ranking_query(table_name: &str, season: Option<u8>, server_id: Option<u32>) -> (r: String)
    ensures
        r@ == ranking_query_spec(table_name@, season is Some, server_id is Some),
{
    let mut query = String::from_str(RANKING_COLUMNS);
    query.append(table_name);
    if season.is_some() && server_id.is_some() {
        query.append(" WHERE ");
        query.append(SEASON_CONDITION);
        query.append(" AND ");
        query.append(SERVER_CONDITION);
    } else if season.is_some() {
        query.append(" WHERE ");
        query.append(SEASON_CONDITION);
    } else if server_id.is_some() {
        query.append(" WHERE ");
        query.append(SERVER_CONDITION);
    }
    query
}

} // verus!
