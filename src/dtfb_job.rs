use vstd::prelude::*;
use crate::background::{BackgroundOperationProgress, ProgressView};
use crate::fetcher::{batch_views, copy_ids, batches_bounded, flatten, plan_batches};
use crate::job::{ImageFetch, found_images, logged, log_text, profiles_stored, sort_images, store_profiles};
use crate::national::{DtfbPlayerInfo, apply_dtfb_player, dtfb_applied, first_occurrences, unique_ids};
use crate::store::{DatabaseRef, Player, PlayerImage, PlayerView};
use crate::ingest::{absent_of, missing_ids};
use crate::text::{decimal, decimal_text};

verus! {

/// The international ids the national records point to, in order.
pub open spec fn itsf_ids_of(infos: Seq<DtfbPlayerInfo>) -> Seq<i32> {
    infos.map_values(|i: DtfbPlayerInfo| i.itsf_id)
}

/// The store after merging each national record in order.
pub open spec fn infos_applied(m: Map<i32, PlayerView>, infos: Seq<DtfbPlayerInfo>) -> Map<i32, PlayerView>
    decreases infos.len(),
{
    if infos.len() == 0 {
        m
    } else {
        let i = infos.last();
        dtfb_applied(
            infos_applied(m, infos.drop_last()),
            i.itsf_id,
            i.dtfb_id,
            i.championship_results@,
            i.national_rankings@,
            i.teams@,
        )
    }
}

pub fn apply_dtfb_players(store: &mut DatabaseRef, infos: &Vec<DtfbPlayerInfo>)
    requires
        old(store).wf(),
    ensures
        final(store).wf(),
        final(store)@ == infos_applied(old(store)@, infos@),
{
    let mut i: usize = 0;
    while i < infos.len()
        invariant
            store.wf(),
            i <= infos@.len(),
            store@ == infos_applied(old(store)@, infos@.take(i as int)),
        decreases infos@.len() - i,
    {
        apply_dtfb_player(store, &infos[i]);
        i = i + 1;
        assert(infos@.take(i as int).drop_last() =~= infos@.take(i - 1));
    }
    assert(infos@.take(i as int) =~= infos@);
}

pub open spec fn dtfb_start_message() -> Seq<char> {
    "[DTFB] starting download of DTFB rankings"@
}

pub open spec fn season_failed_message(season: i32, e: Seq<char>) -> Seq<char> {
    "[DTFB] Failed to download the rankings of season "@ + decimal(season as int) + ": "@ + e
}

pub open spec fn ranking_failed_message(ranking_id: i32, e: Seq<char>) -> Seq<char> {
    "[DTFB] Failed to download ranking "@ + decimal(ranking_id as int) + ": "@ + e
}

pub open spec fn dtfb_count_message(n: int) -> Seq<char> {
    "[DTFB] Downloading "@ + decimal(n) + " players"@
}

pub open spec fn dtfb_player_ok_message(i: DtfbPlayerInfo) -> Seq<char> {
    "[DTFB] .. downloaded player info for DTFB="@ + decimal(i.dtfb_id as int) + ", ITSF="@ + decimal(i.itsf_id as int)
}

pub open spec fn dtfb_player_failed_message(e: Seq<char>) -> Seq<char> {
    "[DTFB] Failed to download player: "@ + e
}

fn text_with_number(prefix: &str, n: i128, middle: &str, e: &str) -> (r: String)
    requires
        -(u64::MAX as int) <= n <= u64::MAX,
    ensures
        r@ == prefix@ + decimal(n as int) + middle@ + e@,
{
    let mut s = String::from_str(prefix);
    let num = decimal_text(n);
    s.append(num.as_str());
    s.append(middle);
    s.append(e);
    s
}

#[derive(Debug, Clone, Copy, PartialEq, Eq, Structural)]
pub enum DtfbPhase {
    AwaitSeason,
    AwaitRankingPlayers,
    AwaitDtfbProfiles,
    AwaitPlayers,
    Finished,
}

/// What the runner has to fetch next for a national ingestion.
#[derive(Debug)]
pub enum DtfbStep {
    FetchSeasonRankings { season: i32 },
    FetchRankingPlayers { ranking_id: i32, count: usize },
    FetchDtfbProfiles { ids: Vec<i32> },
    FetchPlayers { ids: Vec<i32> },
    Finished,
}

pub struct DtfbView {
    pub seasons: Seq<i32>,
    pub max_rank: usize,
    pub batch_limit: usize,
    pub season_index: int,
    pub ranking_ids: Seq<i32>,
    pub ranking_index: int,
    pub collected: Seq<i32>,
    pub batches: Seq<Seq<i32>>,
    pub batch_index: int,
    pub infos: Seq<DtfbPlayerInfo>,
    pub phase: DtfbPhase,
}

/// The part of the invariant that holds between phases too.
pub open spec fn base_wf(v: DtfbView) -> bool {
    &&& v.batch_limit > 0
    &&& 0 <= v.season_index <= v.seasons.len()
    &&& 0 <= v.ranking_index <= v.ranking_ids.len()
}

pub open spec fn dtfb_wf(v: DtfbView) -> bool {
    &&& base_wf(v)
    &&& v.phase == DtfbPhase::AwaitSeason ==> v.season_index < v.seasons.len()
    &&& v.phase == DtfbPhase::AwaitRankingPlayers ==> v.season_index < v.seasons.len() && v.ranking_index
        < v.ranking_ids.len()
    &&& (v.phase == DtfbPhase::AwaitDtfbProfiles || v.phase == DtfbPhase::AwaitPlayers) ==> {
        &&& 0 <= v.batch_index < v.batches.len()
        &&& batches_bounded(v.batches, v.batch_limit as nat)
    }
}

/// The parts of the job that only collecting changes.
pub open spec fn same_plan(a: DtfbView, b: DtfbView) -> bool {
    &&& b.seasons == a.seasons
    &&& b.max_rank == a.max_rank
    &&& b.batch_limit == a.batch_limit
    &&& b.season_index == a.season_index
    &&& b.ranking_ids == a.ranking_ids
    &&& b.ranking_index == a.ranking_index
    &&& b.collected == a.collected
}

/// The job's end: every national record merged, progress forced to (max, max).
pub open spec fn wound_up(
    v0: DtfbView,
    v1: DtfbView,
    m0: Map<i32, PlayerView>,
    m1: Map<i32, PlayerView>,
    p0: ProgressView,
    p1: ProgressView,
) -> bool {
    &&& v1.phase == DtfbPhase::Finished
    &&& v1.infos == v0.infos
    &&& m1 == infos_applied(m0, v0.infos)
    &&& logged(p0, p1, seq!["[DTFB] done"@])
    &&& p1.progress == p0.max
    &&& p1.max == p0.max
}

/// The national records a batch delivered, in order.
pub open spec fn ok_infos(results: Seq<Result<DtfbPlayerInfo, String>>) -> Seq<DtfbPlayerInfo>
    decreases results.len(),
{
    if results.len() == 0 {
        Seq::empty()
    } else {
        let rest = ok_infos(results.drop_first());
        match results[0] {
            Ok(i) => seq![i] + rest,
            Err(_) => rest,
        }
    }
}

/// One log line per national record result, in order.
pub open spec fn dtfb_profile_messages(results: Seq<Result<DtfbPlayerInfo, String>>) -> Seq<Seq<char>>
    decreases results.len(),
{
    if results.len() == 0 {
        Seq::empty()
    } else {
        let line = match results[0] {
            Ok(i) => dtfb_player_ok_message(i),
            Err(e) => dtfb_player_failed_message(e@),
        };
        seq![line] + dtfb_profile_messages(results.drop_first())
    }
}

/// After the national records are in: the international players the store
/// lacks are fetched in batches, or, with none lacking, the job ends.
pub open spec fn players_entered(
    v0: DtfbView,
    v1: DtfbView,
    m0: Map<i32, PlayerView>,
    m1: Map<i32, PlayerView>,
    p0: ProgressView,
    p1: ProgressView,
) -> bool {
    let missing = first_occurrences(absent_of(m0, itsf_ids_of(v0.infos)));
    if missing.len() > 0 {
        &&& v1.phase == DtfbPhase::AwaitPlayers
        &&& flatten(v1.batches) == missing
        &&& missing.no_duplicates()
        &&& v1.batch_index == 0
        &&& v1.infos == v0.infos
        &&& m1 == m0
        &&& logged(p0, p1, Seq::empty())
    } else {
        wound_up(v0, v1, m0, m1, p0, p1)
    }
}

/// Once collecting is over: the distinct national ids are fetched in
/// batches, or, with none collected, the job moves on with no records.
pub open spec fn profiles_entered(
    v0: DtfbView,
    v1: DtfbView,
    m0: Map<i32, PlayerView>,
    m1: Map<i32, PlayerView>,
    p0: ProgressView,
    p1: ProgressView,
) -> bool {
    if v0.collected.len() > 0 {
        &&& v1.phase == DtfbPhase::AwaitDtfbProfiles
        &&& flatten(v1.batches) == first_occurrences(v0.collected)
        &&& v1.batch_index == 0
        &&& v1.infos == Seq::<DtfbPlayerInfo>::empty()
        &&& m1 == m0
        &&& logged(p0, p1, seq![dtfb_count_message(flatten(v1.batches).len() as int)])
    } else {
        &&& v1.infos == Seq::<DtfbPlayerInfo>::empty()
        &&& players_entered(DtfbView { infos: Seq::empty(), ..v0 }, v1, m0, m1, p0, p1)
    }
}

/// After a season or a ranking list is done: on to the next ranking list of
/// the season, else the next season, else the end of collecting.
pub open spec fn collection_moved(
    v0: DtfbView,
    v1: DtfbView,
    m0: Map<i32, PlayerView>,
    m1: Map<i32, PlayerView>,
    p0: ProgressView,
    p1: ProgressView,
) -> bool {
    if v0.ranking_index < v0.ranking_ids.len() {
        &&& v1 == (DtfbView { phase: DtfbPhase::AwaitRankingPlayers, ..v0 })
        &&& m1 == m0
        &&& p1 == p0
    } else if v0.season_index + 1 < v0.seasons.len() {
        &&& v1 == (DtfbView {
            season_index: v0.season_index + 1,
            ranking_ids: Seq::empty(),
            ranking_index: 0,
            phase: DtfbPhase::AwaitSeason,
            ..v0
        })
        &&& m1 == m0
        &&& p1 == p0
    } else {
        profiles_entered(v0, v1, m0, m1, p0, p1)
    }
}

/// Ingestion from the national federation: collect the players listed in
/// each season's rankings, fetch their national records in bounded batches,
/// fetch the international profiles the store lacks, then merge the records.
/// A failed season or ranking fetch is logged and skipped.
pub struct DtfbJob {
    seasons: Vec<i32>,
    max_rank: usize,
    batch_limit: usize,
    season_index: usize,
    ranking_ids: Vec<i32>,
    ranking_index: usize,
    collected: Vec<i32>,
    batches: Vec<Vec<i32>>,
    batch_index: usize,
    infos: Vec<DtfbPlayerInfo>,
    phase: DtfbPhase,
}

impl View for DtfbJob {
    type V = DtfbView;

    closed spec fn view(&self) -> DtfbView {
        DtfbView {
            seasons: self.seasons@,
            max_rank: self.max_rank,
            batch_limit: self.batch_limit,
            season_index: self.season_index as int,
            ranking_ids: self.ranking_ids@,
            ranking_index: self.ranking_index as int,
            collected: self.collected@,
            batches: batch_views(self.batches@),
            batch_index: self.batch_index as int,
            infos: self.infos@,
            phase: self.phase,
        }
    }
}

impl DtfbJob {
    pub open spec fn wf(&self) -> bool {
        dtfb_wf(self@)
    }

    pub fn is_finished(&self) -> (r: bool)
        ensures
            r == (self@.phase == DtfbPhase::Finished),
    {
        self.phase == DtfbPhase::Finished
    }

    /// Merges the records, logs the end and forces the progress to (max, max).
    fn wind_up(&mut self, store: &mut DatabaseRef, progress: &mut BackgroundOperationProgress)
        requires
            base_wf(old(self)@),
            old(store).wf(),
        ensures
            final(self).wf(),
            final(store).wf(),
            wound_up(old(self)@, final(self)@, old(store)@, final(store)@, old(progress)@, final(progress)@),
            same_plan(old(self)@, final(self)@),
    {
        apply_dtfb_players(store, &self.infos);
        let ghost p0 = progress@;
        proof {
            reveal_strlit("[DTFB] done");
        }
        progress.log(String::from_str("[DTFB] done"));
        assert(log_text(progress@.log) =~= log_text(p0.log) + seq!["[DTFB] done"@]);
        let (_, max) = progress.get_progress();
        progress.set_progress(max, max);
        self.phase = DtfbPhase::Finished;
    }

    fn enter_players(&mut self, store: &mut DatabaseRef, progress: &mut BackgroundOperationProgress)
        requires
            base_wf(old(self)@),
            old(store).wf(),
        ensures
            final(self).wf(),
            final(store).wf(),
            players_entered(old(self)@, final(self)@, old(store)@, final(store)@, old(progress)@, final(progress)@),
            same_plan(old(self)@, final(self)@),
    {
        let mut itsf_ids: Vec<i32> = Vec::new();
        let mut i: usize = 0;
        while i < self.infos.len()
            invariant
                i <= self.infos@.len(),
                itsf_ids@ == itsf_ids_of(self.infos@.take(i as int)),
            decreases self.infos@.len() - i,
        {
            itsf_ids.push(self.infos[i].itsf_id);
            i = i + 1;
            assert(itsf_ids@ =~= itsf_ids_of(self.infos@.take(i as int)));
        }
        assert(self.infos@.take(i as int) =~= self.infos@);
        let absent = missing_ids(store, &itsf_ids);
        let missing = unique_ids(&absent);
        if missing.len() > 0 {
            let batches = plan_batches(&missing, self.batch_limit);
            proof {
                if batches@.len() == 0 {
                    assert(batch_views(batches@) =~= Seq::<Seq<i32>>::empty());
                }
            }
            self.batches = batches;
            self.batch_index = 0;
            self.phase = DtfbPhase::AwaitPlayers;
            assert(log_text(progress@.log) =~= log_text(progress@.log) + Seq::<Seq<char>>::empty());
        } else {
            self.wind_up(store, progress);
        }
    }

    fn enter_profiles(&mut self, store: &mut DatabaseRef, progress: &mut BackgroundOperationProgress)
        requires
            base_wf(old(self)@),
            old(store).wf(),
        ensures
            final(self).wf(),
            final(store).wf(),
            profiles_entered(old(self)@, final(self)@, old(store)@, final(store)@, old(progress)@, final(progress)@),
            same_plan(old(self)@, final(self)@),
    {
        self.infos = Vec::new();
        if self.collected.len() > 0 {
            let ids = unique_ids(&self.collected);
            let batches = plan_batches(&ids, self.batch_limit);
            proof {
                if batches@.len() == 0 {
                    assert(batch_views(batches@) =~= Seq::<Seq<i32>>::empty());
                    assert(ids@ =~= Seq::<i32>::empty());
                    assert(self.collected@.contains(self.collected@[0]));
                }
            }
            let ghost p0 = progress@;
            proof {
                reveal_strlit("");
                assert(""@ =~= Seq::<char>::empty());
            }
            progress.log(text_with_number("[DTFB] Downloading ", ids.len() as i128, " players", ""));
            assert(log_text(progress@.log) =~= log_text(p0.log) + seq![dtfb_count_message(ids@.len() as int)]);
            self.batches = batches;
            self.batch_index = 0;
            self.phase = DtfbPhase::AwaitDtfbProfiles;
        } else {
            self.enter_players(store, progress);
        }
    }

    /// Moves on after the current ranking list or season.
    fn move_on(&mut self, store: &mut DatabaseRef, progress: &mut BackgroundOperationProgress)
        requires
            base_wf(old(self)@),
            old(store).wf(),
            old(self)@.season_index < old(self)@.seasons.len(),
        ensures
            final(self).wf(),
            final(store).wf(),
            collection_moved(old(self)@, final(self)@, old(store)@, final(store)@, old(progress)@, final(progress)@),
            final(self)@.seasons == old(self)@.seasons,
            final(self)@.batch_limit == old(self)@.batch_limit,
    {
        let ns = self.seasons.len();
        assert(self.season_index < ns);
        if self.ranking_index < self.ranking_ids.len() {
            self.phase = DtfbPhase::AwaitRankingPlayers;
        } else if self.season_index + 1 < self.seasons.len() {
            self.season_index = self.season_index + 1;
            self.ranking_ids = Vec::new();
            self.ranking_index = 0;
            self.phase = DtfbPhase::AwaitSeason;
            assert(self@ =~= (DtfbView {
                season_index: old(self)@.season_index + 1,
                ranking_ids: Seq::empty(),
                ranking_index: 0,
                phase: DtfbPhase::AwaitSeason,
                ..old(self)@
            }));
        } else {
            self.enter_profiles(store, progress);
        }
    }

    /// A national ingestion over `seasons`, asking for up to `max_rank`
    /// places per ranking list and fetching at most `batch_limit` records at a time.
    pub fn new(
        seasons: Vec<i32>,
        max_rank: usize,
        batch_limit: usize,
        store: &mut DatabaseRef,
        progress: &mut BackgroundOperationProgress,
    ) -> (r: Self)
        requires
            batch_limit > 0,
            old(store).wf(),
        ensures
            r.wf(),
            final(store).wf(),
            r@.seasons == seasons@,
            r@.max_rank == max_rank,
            r@.batch_limit == batch_limit,
            r@.season_index == 0,
            r@.ranking_ids == Seq::<i32>::empty(),
            r@.ranking_index == 0,
            r@.collected == Seq::<i32>::empty(),
            r@.infos == Seq::<DtfbPlayerInfo>::empty(),
            final(store)@ == old(store)@,
            seasons@.len() > 0 ==> {
                &&& r@.phase == DtfbPhase::AwaitSeason
                &&& logged(old(progress)@, final(progress)@, seq![dtfb_start_message()])
                &&& final(progress)@.progress == old(progress)@.progress
                &&& final(progress)@.max == old(progress)@.max
            },
            seasons@.len() == 0 ==> {
                &&& r@.phase == DtfbPhase::Finished
                &&& logged(old(progress)@, final(progress)@, seq![dtfb_start_message(), "[DTFB] done"@])
                &&& final(progress)@.progress == old(progress)@.max
                &&& final(progress)@.max == old(progress)@.max
            },
    {
        let ghost p0 = progress@;
        progress.log(String::from_str("[DTFB] starting download of DTFB rankings"));
        let ghost p1 = progress@;
        assert(log_text(p1.log) =~= log_text(p0.log) + seq![dtfb_start_message()]);
        let mut r = DtfbJob {
            seasons,
            max_rank,
            batch_limit,
            season_index: 0,
            ranking_ids: Vec::new(),
            ranking_index: 0,
            collected: Vec::new(),
            batches: Vec::new(),
            batch_index: 0,
            infos: Vec::new(),
            phase: DtfbPhase::Finished,
        };
        if r.seasons.len() > 0 {
            r.phase = DtfbPhase::AwaitSeason;
        } else {
            let ghost v0 = r@;
            r.enter_profiles(store, progress);
            proof {
                assert(infos_applied(old(store)@, Seq::<DtfbPlayerInfo>::empty()) == old(store)@);
                assert(itsf_ids_of(Seq::<DtfbPlayerInfo>::empty()) =~= Seq::<i32>::empty());
                assert(absent_of(old(store)@, Seq::<i32>::empty()) =~= Seq::<i32>::empty());
                assert(first_occurrences(Seq::<i32>::empty()) =~= Seq::<i32>::empty());
                assert(DtfbView { infos: Seq::empty(), ..v0 } == v0);
                assert(log_text(progress@.log) =~= log_text(p0.log) + seq![dtfb_start_message(), "[DTFB] done"@]);
            }
        }
        r
    }

    /// The fetch the runner has to perform next.
    pub fn next_step(&self) -> (r: DtfbStep)
        requires
            self.wf(),
        ensures
            match self@.phase {
                DtfbPhase::AwaitSeason => r == (DtfbStep::FetchSeasonRankings { season: self@.seasons[self@.season_index] }),
                DtfbPhase::AwaitRankingPlayers => r == (DtfbStep::FetchRankingPlayers {
                    ranking_id: self@.ranking_ids[self@.ranking_index],
                    count: self@.max_rank,
                }),
                DtfbPhase::AwaitDtfbProfiles => match r {
                    DtfbStep::FetchDtfbProfiles { ids } => {
                        &&& ids@ == self@.batches[self@.batch_index]
                        &&& 0 < ids@.len() <= self@.batch_limit
                    },
                    _ => false,
                },
                DtfbPhase::AwaitPlayers => match r {
                    DtfbStep::FetchPlayers { ids } => {
                        &&& ids@ == self@.batches[self@.batch_index]
                        &&& 0 < ids@.len() <= self@.batch_limit
                    },
                    _ => false,
                },
                DtfbPhase::Finished => r is Finished,
            },
    {
        match self.phase {
            DtfbPhase::AwaitSeason => DtfbStep::FetchSeasonRankings { season: self.seasons[self.season_index] },
            DtfbPhase::AwaitRankingPlayers => DtfbStep::FetchRankingPlayers {
                ranking_id: self.ranking_ids[self.ranking_index],
                count: self.max_rank,
            },
            DtfbPhase::AwaitDtfbProfiles => DtfbStep::FetchDtfbProfiles { ids: copy_ids(&self.batches[self.batch_index]) },
            DtfbPhase::AwaitPlayers => DtfbStep::FetchPlayers { ids: copy_ids(&self.batches[self.batch_index]) },
            DtfbPhase::Finished => DtfbStep::Finished,
        }
    }

    /// Takes the ranking lists published for the current season. A failed
    /// fetch is logged and the season skipped.
    pub fn season_fetched(
        &mut self,
        store: &mut DatabaseRef,
        progress: &mut BackgroundOperationProgress,
        result: Result<Vec<i32>, String>,
    )
        requires
            old(self).wf(),
            old(self)@.phase == DtfbPhase::AwaitSeason,
            old(store).wf(),
        ensures
            final(self).wf(),
            final(store).wf(),
            final(self)@.seasons == old(self)@.seasons,
            ({
                let v = old(self)@;
                match result {
                    Ok(ids) => collection_moved(
                        DtfbView { ranking_ids: ids@, ranking_index: 0, ..v },
                        final(self)@,
                        old(store)@,
                        final(store)@,
                        old(progress)@,
                        final(progress)@,
                    ),
                    Err(e) => exists|pm: ProgressView| #[trigger] logged(old(progress)@, pm, seq![season_failed_message(v.seasons[v.season_index], e@)])
                        && pm.progress == old(progress)@.progress && pm.max == old(progress)@.max
                        && collection_moved(
                        DtfbView { ranking_ids: Seq::empty(), ranking_index: 0, ..v },
                        final(self)@,
                        old(store)@,
                        final(store)@,
                        pm,
                        final(progress)@,
                    ),
                }
            }),
    {
        match result {
            Ok(ids) => {
                self.ranking_ids = ids;
                self.ranking_index = 0;
                self.move_on(store, progress);
            },
            Err(e) => {
                let season = self.seasons[self.season_index];
                let ghost p0 = progress@;
                progress.log(text_with_number("[DTFB] Failed to download the rankings of season ", season as i128, ": ", e.as_str()));
                let ghost pm = progress@;
                assert(log_text(pm.log) =~= log_text(p0.log) + seq![season_failed_message(season, e@)]);
                self.ranking_ids = Vec::new();
                self.ranking_index = 0;
                assert(self@ =~= (DtfbView { ranking_ids: Seq::empty(), ranking_index: 0, ..old(self)@ }));
                self.move_on(store, progress);
                assert(logged(old(progress)@, pm, seq![season_failed_message(season, e@)]));
            },
        }
    }

    /// Takes the national ids listed in the current ranking list. A failed
    /// fetch is logged and the list skipped.
    pub fn ranking_players_fetched(
        &mut self,
        store: &mut DatabaseRef,
        progress: &mut BackgroundOperationProgress,
        result: Result<Vec<i32>, String>,
    )
        requires
            old(self).wf(),
            old(self)@.phase == DtfbPhase::AwaitRankingPlayers,
            old(store).wf(),
        ensures
            final(self).wf(),
            final(store).wf(),
            final(self)@.seasons == old(self)@.seasons,
            ({
                let v = old(self)@;
                match result {
                    Ok(ids) => collection_moved(
                        DtfbView { collected: v.collected + ids@, ranking_index: v.ranking_index + 1, ..v },
                        final(self)@,
                        old(store)@,
                        final(store)@,
                        old(progress)@,
                        final(progress)@,
                    ),
                    Err(e) => exists|pm: ProgressView| #[trigger] logged(old(progress)@, pm, seq![ranking_failed_message(v.ranking_ids[v.ranking_index], e@)])
                        && pm.progress == old(progress)@.progress && pm.max == old(progress)@.max
                        && collection_moved(
                        DtfbView { ranking_index: v.ranking_index + 1, ..v },
                        final(self)@,
                        old(store)@,
                        final(store)@,
                        pm,
                        final(progress)@,
                    ),
                }
            }),
    {
        let n = self.ranking_ids.len();
        assert(self.ranking_index < n);
        match result {
            Ok(ids) => {
                let ghost given = ids@;
                let mut ids = ids;
                self.collected.append(&mut ids);
                self.ranking_index = self.ranking_index + 1;
                assert(self@ =~= (DtfbView {
                    collected: old(self)@.collected + given,
                    ranking_index: old(self)@.ranking_index + 1,
                    ..old(self)@
                }));
                self.move_on(store, progress);
            },
            Err(e) => {
                let ranking_id = self.ranking_ids[self.ranking_index];
                let ghost p0 = progress@;
                progress.log(text_with_number("[DTFB] Failed to download ranking ", ranking_id as i128, ": ", e.as_str()));
                let ghost pm = progress@;
                assert(log_text(pm.log) =~= log_text(p0.log) + seq![ranking_failed_message(ranking_id, e@)]);
                self.ranking_index = self.ranking_index + 1;
                assert(self@ =~= (DtfbView { ranking_index: old(self)@.ranking_index + 1, ..old(self)@ }));
                self.move_on(store, progress);
                assert(logged(old(progress)@, pm, seq![ranking_failed_message(ranking_id, e@)]));
            },
        }
    }

    /// Takes the national records of the current batch, one result per
    /// requested id; failures are logged and skipped. After the last batch
    /// the international players the store lacks are planned.
    pub fn dtfb_profiles_fetched(
        &mut self,
        store: &mut DatabaseRef,
        progress: &mut BackgroundOperationProgress,
        results: Vec<Result<DtfbPlayerInfo, String>>,
    )
        requires
            old(self).wf(),
            old(self)@.phase == DtfbPhase::AwaitDtfbProfiles,
            old(store).wf(),
            results@.len() == old(self)@.batches[old(self)@.batch_index].len(),
        ensures
            final(self).wf(),
            final(store).wf(),
            final(self)@.seasons == old(self)@.seasons,
            ({
                let v = old(self)@;
                let v1 = DtfbView { infos: v.infos + ok_infos(results@), batch_index: v.batch_index + 1, ..v };
                let msgs = dtfb_profile_messages(results@);
                if v.batch_index + 1 < v.batches.len() {
                    &&& final(self)@ == v1
                    &&& final(store)@ == old(store)@
                    &&& logged(old(progress)@, final(progress)@, msgs)
                    &&& final(progress)@.progress == old(progress)@.progress
                    &&& final(progress)@.max == old(progress)@.max
                } else {
                    exists|pm: ProgressView| #[trigger] logged(old(progress)@, pm, msgs)
                        && pm.progress == old(progress)@.progress && pm.max == old(progress)@.max
                        && players_entered(v1, final(self)@, old(store)@, final(store)@, pm, final(progress)@)
                }
            }),
    {
        let mut results = results;
        let ghost all = results@;
        let ghost p0 = progress@;
        assert(self.infos@ + ok_infos(results@) =~= old(self)@.infos + ok_infos(all));
        assert(log_text(progress@.log) + dtfb_profile_messages(results@) =~= log_text(p0.log) + dtfb_profile_messages(all));
        while results.len() > 0
            invariant
                self@ == (DtfbView { infos: self@.infos, ..old(self)@ }),
                self@.infos + ok_infos(results@) == old(self)@.infos + ok_infos(all),
                log_text(progress@.log) + dtfb_profile_messages(results@) == log_text(p0.log) + dtfb_profile_messages(all),
                progress@.title == p0.title,
                progress@.progress == p0.progress,
                progress@.max == p0.max,
            decreases results@.len(),
        {
            let ghost before = results@;
            let ghost log_before = progress@.log;
            let ghost infos_before = self.infos@;
            let r = results.remove(0);
            assert(results@ =~= before.drop_first());
            match r {
                Ok(info) => {
                    let line = text_with_number("[DTFB] .. downloaded player info for DTFB=", info.dtfb_id as i128, ", ITSF=", decimal_text(info.itsf_id as i128).as_str());
                    progress.log(line);
                    self.infos.push(info);
                    assert(self.infos@ + ok_infos(results@) =~= infos_before + ok_infos(before));
                },
                Err(e) => {
                    let mut line = String::from_str("[DTFB] Failed to download player: ");
                    line.append(e.as_str());
                    progress.log(line);
                },
            }
            assert(log_text(progress@.log) =~= log_text(log_before).push(progress@.log.last()@));
            assert(log_text(progress@.log) + dtfb_profile_messages(results@) =~= log_text(log_before) + dtfb_profile_messages(before));
        }
        assert(self.infos@ =~= self.infos@ + ok_infos(results@));
        assert(log_text(progress@.log) =~= log_text(progress@.log) + dtfb_profile_messages(results@));
        let nb = self.batches.len();
        assert(self.batch_index < nb);
        self.batch_index = self.batch_index + 1;
        if self.batch_index < nb {
            assert(self@ =~= (DtfbView { infos: old(self)@.infos + ok_infos(all), batch_index: old(self)@.batch_index + 1, ..old(self)@ }));
        } else {
            let ghost pm = progress@;
            assert(self@ =~= (DtfbView { infos: old(self)@.infos + ok_infos(all), batch_index: old(self)@.batch_index + 1, ..old(self)@ }));
            self.enter_players(store, progress);
            assert(logged(p0, pm, dtfb_profile_messages(all)));
        }
    }

    /// Takes the international profiles and photos of the current batch, as
    /// an ingestion of rankings does. After the last batch the national
    /// records are merged and the job ends.
    pub fn players_fetched(
        &mut self,
        store: &mut DatabaseRef,
        progress: &mut BackgroundOperationProgress,
        profiles: Vec<Result<Player, String>>,
        images: Vec<ImageFetch>,
    ) -> (r: Vec<PlayerImage>)
        requires
            old(self).wf(),
            old(self)@.phase == DtfbPhase::AwaitPlayers,
            old(store).wf(),
            profiles@.len() == old(self)@.batches[old(self)@.batch_index].len(),
            crate::job::profiles_well_formed(profiles@),
            images@.len() == old(self)@.batches[old(self)@.batch_index].len(),
        ensures
            final(self).wf(),
            final(store).wf(),
            r@ == found_images(images@),
            ({
                let v = old(self)@;
                let stored = profiles_stored(old(store)@, profiles@);
                let msgs = crate::job::profile_messages(profiles@) + crate::job::image_messages(images@);
                if v.batch_index + 1 < v.batches.len() {
                    &&& final(self)@ == (DtfbView { batch_index: v.batch_index + 1, ..v })
                    &&& final(store)@ == stored
                    &&& logged(old(progress)@, final(progress)@, msgs)
                    &&& final(progress)@.progress == old(progress)@.progress
                    &&& final(progress)@.max == old(progress)@.max
                } else {
                    exists|pm: ProgressView| #[trigger] logged(old(progress)@, pm, msgs)
                        && pm.progress == old(progress)@.progress && pm.max == old(progress)@.max
                        && wound_up(v, final(self)@, stored, final(store)@, pm, final(progress)@)
                }
            }),
    {
        let ghost p0 = progress@;
        store_profiles(store, progress, profiles);
        let found = sort_images(progress, images);
        let ghost pm = progress@;
        assert(log_text(pm.log) =~= log_text(p0.log) + (crate::job::profile_messages(profiles@) + crate::job::image_messages(images@)));
        let nb = self.batches.len();
        assert(self.batch_index < nb);
        if self.batch_index + 1 < nb {
            self.batch_index = self.batch_index + 1;
            assert(self@ =~= (DtfbView { batch_index: old(self)@.batch_index + 1, ..old(self)@ }));
        } else {
            self.wind_up(store, progress);
            assert(logged(p0, pm, crate::job::profile_messages(profiles@) + crate::job::image_messages(images@)));
        }
        found
    }
}

} // verus!
