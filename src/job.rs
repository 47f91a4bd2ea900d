use vstd::prelude::*;
use crate::background::{BackgroundOperationProgress, ProgressView};
use crate::fetcher::{batch_views, copy_ids, batches_bounded, flatten, lemma_flatten_take_len, lemma_flatten_take_step, plan_batches};
use crate::ingest::{RankingUnit, absent_of, apply_unit_rankings, listed_ids, missing_players, rankings_applied};
use crate::national::first_occurrences;
use crate::itsf::{ranking_category_label, ranking_class_label};
use crate::store::{DatabaseRef, Player, PlayerImage, PlayerView, entries_unique};
use crate::text::{decimal, decimal_text};

verus! {

/// The outcome of fetching one player's photo: found, absent (a valid, empty
/// result), or failed.
#[derive(Debug)]
pub enum ImageFetch {
    Found(PlayerImage),
    NotFound,
    Failed(String),
}

pub open spec fn log_text(log: Seq<String>) -> Seq<Seq<char>> {
    log.map_values(|s: String| s@)
}

/// `after` is `before` with `msgs` appended to the log; title and numbers kept.
pub open spec fn logged(before: ProgressView, after: ProgressView, msgs: Seq<Seq<char>>) -> bool {
    &&& after.title == before.title
    &&& log_text(after.log) == log_text(before.log) + msgs
}

pub open spec fn unit_label(u: RankingUnit) -> Seq<char> {
    decimal(u.year as int) + ", "@ + ranking_category_label(u.category) + ", "@ + ranking_class_label(u.class)
}

pub open spec fn unit_start_message(u: RankingUnit) -> Seq<char> {
    "[ITSF] Scraping ITSF rankings for "@ + unit_label(u)
}

pub open spec fn unit_failed_message(u: RankingUnit, e: Seq<char>) -> Seq<char> {
    "[ITSF] Failed to download ITSF rankings for "@ + unit_label(u) + ": "@ + e
}

pub open spec fn missing_message(n: int) -> Seq<char> {
    "[ITSF] Downloading "@ + decimal(n) + " ITSF player profiles"@
}

pub open spec fn player_ok_message(p: PlayerView) -> Seq<char> {
    "[ITSF] .. downloaded player info for ID="@ + decimal(p.itsf_id as int) + ": "@ + p.first_name + " "@ + p.last_name
}

pub open spec fn player_failed_message(e: Seq<char>) -> Seq<char> {
    "[ITSF] Failed to download player: "@ + e
}

pub open spec fn image_failed_message(e: Seq<char>) -> Seq<char> {
    "[ITSF] Failed to download player image: "@ + e
}

pub open spec fn done_message() -> Seq<char> {
    "[ITSF] Done"@
}

fn append_text(s: &mut String, t: &str)
    ensures
        final(s)@ == old(s)@ + t@,
{
    s.append(t);
}

fn unit_label_text(u: RankingUnit) -> (r: String)
    ensures
        r@ == unit_label(u),
{
    let mut s = decimal_text(u.year as i128);
    append_text(&mut s, ", ");
    append_text(&mut s, u.category.label());
    append_text(&mut s, ", ");
    append_text(&mut s, u.class.label());
    s
}

fn unit_start_text(u: RankingUnit) -> (r: String)
    ensures
        r@ == unit_start_message(u),
{
    let mut s = String::from_str("[ITSF] Scraping ITSF rankings for ");
    let label = unit_label_text(u);
    append_text(&mut s, label.as_str());
    s
}

fn unit_failed_text(u: RankingUnit, e: &String) -> (r: String)
    ensures
        r@ == unit_failed_message(u, e@),
{
    let mut s = String::from_str("[ITSF] Failed to download ITSF rankings for ");
    let label = unit_label_text(u);
    append_text(&mut s, label.as_str());
    append_text(&mut s, ": ");
    append_text(&mut s, e.as_str());
    s
}

fn missing_text(n: usize) -> (r: String)
    ensures
        r@ == missing_message(n as int),
{
    let mut s = String::from_str("[ITSF] Downloading ");
    let count = decimal_text(n as i128);
    append_text(&mut s, count.as_str());
    append_text(&mut s, " ITSF player profiles");
    s
}

fn player_ok_text(p: &Player) -> (r: String)
    ensures
        r@ == player_ok_message(p@),
{
    let mut s = String::from_str("[ITSF] .. downloaded player info for ID=");
    let id = decimal_text(p.itsf_id as i128);
    append_text(&mut s, id.as_str());
    append_text(&mut s, ": ");
    append_text(&mut s, p.first_name.as_str());
    append_text(&mut s, " ");
    append_text(&mut s, p.last_name.as_str());
    s
}

fn player_failed_text(e: &String) -> (r: String)
    ensures
        r@ == player_failed_message(e@),
{
    let mut s = String::from_str("[ITSF] Failed to download player: ");
    append_text(&mut s, e.as_str());
    s
}

fn image_failed_text(e: &String) -> (r: String)
    ensures
        r@ == image_failed_message(e@),
{
    let mut s = String::from_str("[ITSF] Failed to download player image: ");
    append_text(&mut s, e.as_str());
    s
}

/// The players a profile batch stores: each fetched profile is upserted whole,
/// in order; failed fetches leave the store as it is.
pub open spec fn profiles_stored(m: Map<i32, PlayerView>, profiles: Seq<Result<Player, String>>) -> Map<i32, PlayerView>
    decreases profiles.len(),
{
    if profiles.len() == 0 {
        m
    } else {
        let next = match profiles[0] {
            Ok(p) => m.insert(p.itsf_id, p@),
            Err(_) => m,
        };
        profiles_stored(next, profiles.drop_first())
    }
}

/// One log line per profile result, in order.
pub open spec fn profile_messages(profiles: Seq<Result<Player, String>>) -> Seq<Seq<char>>
    decreases profiles.len(),
{
    if profiles.len() == 0 {
        Seq::empty()
    } else {
        let line = match profiles[0] {
            Ok(p) => player_ok_message(p@),
            Err(e) => player_failed_message(e@),
        };
        seq![line] + profile_messages(profiles.drop_first())
    }
}

/// One log line per failed image fetch; found and absent images log nothing.
pub open spec fn image_messages(images: Seq<ImageFetch>) -> Seq<Seq<char>>
    decreases images.len(),
{
    if images.len() == 0 {
        Seq::empty()
    } else {
        let rest = image_messages(images.drop_first());
        match images[0] {
            ImageFetch::Failed(e) => seq![image_failed_message(e@)] + rest,
            _ => rest,
        }
    }
}

/// The images to store, in order: those that were found.
pub open spec fn found_images(images: Seq<ImageFetch>) -> Seq<PlayerImage>
    decreases images.len(),
{
    if images.len() == 0 {
        Seq::empty()
    } else {
        let rest = found_images(images.drop_first());
        match images[0] {
            ImageFetch::Found(img) => seq![img] + rest,
            _ => rest,
        }
    }
}

/// A photo that is not found counts as a valid empty result: dropping it from
/// a batch's image results changes neither the images handed back for
/// storing nor the log lines, wherever it stands in the batch.
pub proof fn lemma_not_found_is_silent(images: Seq<ImageFetch>, k: int)
    requires
        0 <= k < images.len(),
        images[k] is NotFound,
    ensures
        found_images(images) == found_images(images.remove(k)),
        image_messages(images) == image_messages(images.remove(k)),
    decreases images.len(),
{
    if k == 0 {
        assert(images.remove(0) =~= images.drop_first());
    } else {
        let t = images.drop_first();
        lemma_not_found_is_silent(t, k - 1);
        assert(images.remove(k).drop_first() =~= t.remove(k - 1));
        assert(images.remove(k)[0] == images[0]);
    }
}

/// Every fetched profile keeps at most one entry per key, as the store requires.
pub open spec fn profiles_well_formed(profiles: Seq<Result<Player, String>>) -> bool {
    forall|i: int| 0 <= i < profiles.len() ==> match #[trigger] profiles[i] {
        Ok(p) => entries_unique(p@),
        Err(_) => true,
    }
}

/// Stores each fetched profile and logs one line per profile result.
pub fn store_profiles(
    store: &mut DatabaseRef,
    progress: &mut BackgroundOperationProgress,
    profiles: Vec<Result<Player, String>>,
)
    requires
        old(store).wf(),
        profiles_well_formed(profiles@),
    ensures
        final(store).wf(),
        final(store)@ == profiles_stored(old(store)@, profiles@),
        logged(old(progress)@, final(progress)@, profile_messages(profiles@)),
        final(progress)@.progress == old(progress)@.progress,
        final(progress)@.max == old(progress)@.max,
{
    let mut profiles = profiles;
    let ghost all = profiles@;
    assert(log_text(progress@.log) + profile_messages(profiles@) =~= log_text(old(progress)@.log) + profile_messages(all));
    while profiles.len() > 0
        invariant
            store.wf(),
            profiles_well_formed(profiles@),
            profiles_stored(store@, profiles@) == profiles_stored(old(store)@, all),
            log_text(progress@.log) + profile_messages(profiles@) == log_text(old(progress)@.log) + profile_messages(all),
            progress@.title == old(progress)@.title,
            progress@.progress == old(progress)@.progress,
            progress@.max == old(progress)@.max,
        decreases profiles@.len(),
    {
        let ghost before = profiles@;
        let ghost log_before = progress@.log;
        let r = profiles.remove(0);
        assert(profiles@ =~= before.drop_first());
        assert(before[0] == r);
        assert(profiles_well_formed(profiles@)) by {
            assert forall|i: int| 0 <= i < profiles@.len() implies match #[trigger] profiles@[i] {
                Ok(p) => entries_unique(p@),
                Err(_) => true,
            } by {
                assert(profiles@[i] == before[i + 1]);
            }
        }
        match r {
            Ok(p) => {
                let line = player_ok_text(&p);
                progress.log(line);
                store.add_player(p);
            },
            Err(e) => {
                let line = player_failed_text(&e);
                progress.log(line);
            },
        }
        assert(log_text(progress@.log) =~= log_text(log_before).push(progress@.log.last()@));
        assert(log_text(progress@.log) + profile_messages(profiles@) =~= log_text(log_before) + profile_messages(before));
    }
    assert(log_text(progress@.log) =~= log_text(progress@.log) + profile_messages(profiles@));
}

/// Logs one line per failed image fetch and hands back the images that were found.
pub fn sort_images(progress: &mut BackgroundOperationProgress, images: Vec<ImageFetch>) -> (r: Vec<PlayerImage>)
    ensures
        r@ == found_images(images@),
        logged(old(progress)@, final(progress)@, image_messages(images@)),
        final(progress)@.progress == old(progress)@.progress,
        final(progress)@.max == old(progress)@.max,
{
    let mut images = images;
    let ghost all = images@;
    let mut found: Vec<PlayerImage> = Vec::new();
    assert(log_text(progress@.log) + image_messages(images@) =~= log_text(old(progress)@.log) + image_messages(all));
    while images.len() > 0
        invariant
            found@ + found_images(images@) == found_images(all),
            log_text(progress@.log) + image_messages(images@) == log_text(old(progress)@.log) + image_messages(all),
            progress@.title == old(progress)@.title,
            progress@.progress == old(progress)@.progress,
            progress@.max == old(progress)@.max,
        decreases images@.len(),
    {
        let ghost before = images@;
        let ghost log_before = progress@.log;
        let ghost found_before = found@;
        let r = images.remove(0);
        assert(images@ =~= before.drop_first());
        match r {
            ImageFetch::Found(img) => {
                found.push(img);
                assert(found@ + found_images(images@) =~= found_before + found_images(before));
            },
            ImageFetch::NotFound => {},
            ImageFetch::Failed(e) => {
                let line = image_failed_text(&e);
                progress.log(line);
                assert(log_text(progress@.log) =~= log_text(log_before).push(progress@.log.last()@));
                assert(log_text(progress@.log) + image_messages(images@) =~= log_text(log_before) + image_messages(before));
            },
        }
    }
    assert(found@ =~= found@ + found_images(images@));
    assert(log_text(progress@.log) =~= log_text(progress@.log) + image_messages(images@));
    found
}

#[derive(Debug, Clone, Copy, PartialEq, Eq, Structural)]
pub enum IngestPhase {
    AwaitRanking,
    AwaitPlayers,
    Finished,
}

/// What the runner has to fetch next.
#[derive(Debug)]
pub enum IngestStep {
    FetchRanking { unit: RankingUnit, count: usize },
    FetchPlayers { ids: Vec<i32> },
    Finished,
}

pub struct IngestView {
    pub units: Seq<RankingUnit>,
    pub max_rank: usize,
    pub batch_limit: usize,
    pub unit_index: int,
    pub phase: IngestPhase,
    pub list: Seq<(i32, i32)>,
    pub batches: Seq<Seq<i32>>,
    pub batch_index: int,
    pub processed: int,
}

pub open spec fn job_wf(v: IngestView) -> bool {
    &&& v.batch_limit > 0
    &&& 0 <= v.unit_index <= v.units.len()
    &&& (v.phase == IngestPhase::Finished) == (v.unit_index == v.units.len())
    &&& v.phase == IngestPhase::AwaitPlayers ==> {
        &&& 0 <= v.batch_index < v.batches.len()
        &&& batches_bounded(v.batches, v.batch_limit as nat)
        &&& v.processed == flatten(v.batches.take(v.batch_index)).len()
        &&& flatten(v.batches).len() <= usize::MAX
    }
}

/// The job moved past its current unit.
pub open spec fn advanced(v: IngestView) -> IngestView {
    IngestView {
        unit_index: v.unit_index + 1,
        phase: if v.unit_index + 1 == v.units.len() {
            IngestPhase::Finished
        } else {
            IngestPhase::AwaitRanking
        },
        list: Seq::empty(),
        batches: Seq::empty(),
        batch_index: 0,
        processed: 0,
        ..v
    }
}

/// The progress numbers once the job is in state `v`: forced to (max, max)
/// when it has finished, as they were otherwise.
pub open spec fn settled(before: ProgressView, after: ProgressView, v: IngestView) -> bool {
    if v.phase == IngestPhase::Finished {
        after.progress == before.max && after.max == before.max
    } else {
        after.progress == before.progress && after.max == before.max
    }
}

pub open spec fn plus_one(n: nat) -> nat {
    if n < usize::MAX {
        n + 1
    } else {
        n
    }
}

/// Ingestion of a list of ranking units: fetch each unit's list, fetch the
/// profiles and photos of the players the store lacks in bounded batches,
/// then upsert one entry per listed player. The runner performs the fetches
/// that `next_step` names and hands the outcomes back.
pub struct IngestJob {
    units: Vec<RankingUnit>,
    max_rank: usize,
    batch_limit: usize,
    unit_index: usize,
    phase: IngestPhase,
    list: Vec<(i32, i32)>,
    batches: Vec<Vec<i32>>,
    batch_index: usize,
    processed: usize,
}

impl View for IngestJob {
    type V = IngestView;

    closed spec fn view(&self) -> IngestView {
        IngestView {
            units: self.units@,
            max_rank: self.max_rank,
            batch_limit: self.batch_limit,
            unit_index: self.unit_index as int,
            phase: self.phase,
            list: self.list@,
            batches: batch_views(self.batches@),
            batch_index: self.batch_index as int,
            processed: self.processed as int,
        }
    }
}

impl IngestJob {
    pub open spec fn wf(&self) -> bool {
        job_wf(self@)
    }

    /// A job over `units`, asking for up to `max_rank` places per list and
    /// fetching at most `batch_limit` players at a time. A job with no units
    /// is finished at once.
    pub fn new(
        units: Vec<RankingUnit>,
        max_rank: usize,
        batch_limit: usize,
        progress: &mut BackgroundOperationProgress,
    ) -> (r: Self)
        requires
            batch_limit > 0,
        ensures
            r.wf(),
            r@.units == units@,
            r@.max_rank == max_rank,
            r@.batch_limit == batch_limit,
            r@.unit_index == 0,
            r@.phase == if units@.len() == 0 {
                IngestPhase::Finished
            } else {
                IngestPhase::AwaitRanking
            },
            r@.list == Seq::<(i32, i32)>::empty(),
            r@.batches == Seq::<Seq<i32>>::empty(),
            r@.batch_index == 0,
            r@.processed == 0,
            logged(old(progress)@, final(progress)@, Seq::empty()),
            settled(old(progress)@, final(progress)@, r@),
    {
        let phase = if units.len() == 0 {
            IngestPhase::Finished
        } else {
            IngestPhase::AwaitRanking
        };
        let r = IngestJob {
            units,
            max_rank,
            batch_limit,
            unit_index: 0,
            phase,
            list: Vec::new(),
            batches: Vec::new(),
            batch_index: 0,
            processed: 0,
        };
        assert(batch_views(r.batches@) =~= Seq::<Seq<i32>>::empty());
        if phase == IngestPhase::Finished {
            let (_, max) = progress.get_progress();
            progress.set_progress(max, max);
        }
        assert(log_text(progress@.log) =~= log_text(old(progress)@.log) + Seq::<Seq<char>>::empty());
        r
    }

    pub fn is_finished(&self) -> (r: bool)
        ensures
            r == (self@.phase == IngestPhase::Finished),
    {
        self.phase == IngestPhase::Finished
    }

    /// The fetch the runner has to perform next.
    pub fn next_step(&self) -> (r: IngestStep)
        requires
            self.wf(),
        ensures
            match self@.phase {
                IngestPhase::AwaitRanking => r == (IngestStep::FetchRanking {
                    unit: self@.units[self@.unit_index],
                    count: self@.max_rank,
                }),
                IngestPhase::AwaitPlayers => match r {
                    IngestStep::FetchPlayers { ids } => {
                        &&& ids@ == self@.batches[self@.batch_index]
                        &&& 0 < ids@.len() <= self@.batch_limit
                    },
                    _ => false,
                },
                IngestPhase::Finished => r is Finished,
            },
    {
        match self.phase {
            IngestPhase::AwaitRanking => IngestStep::FetchRanking {
                unit: self.units[self.unit_index],
                count: self.max_rank,
            },
            IngestPhase::AwaitPlayers => IngestStep::FetchPlayers { ids: copy_ids(&self.batches[self.batch_index]) },
            IngestPhase::Finished => IngestStep::Finished,
        }
    }

    /// Takes the outcome of the ranking-list fetch for the current unit. A
    /// failed fetch is logged and only this unit is skipped. Otherwise the
    /// players the store lacks are planned into batches; when there are none,
    /// the unit's entries are upserted at once.
    pub fn ranking_fetched(
        &mut self,
        store: &mut DatabaseRef,
        progress: &mut BackgroundOperationProgress,
        result: Result<Vec<(i32, i32)>, String>,
    )
        requires
            old(self).wf(),
            old(self)@.phase == IngestPhase::AwaitRanking,
            old(store).wf(),
        ensures
            final(self).wf(),
            final(store).wf(),
            ({
                let v = old(self)@;
                let u = v.units[v.unit_index];
                match result {
                    Err(e) => {
                        &&& final(store)@ == old(store)@
                        &&& final(self)@ == advanced(v)
                        &&& logged(old(progress)@, final(progress)@, seq![unit_start_message(u), unit_failed_message(u, e@)])
                        &&& settled(old(progress)@, final(progress)@, final(self)@)
                    },
                    Ok(list) => {
                        let missing = first_occurrences(absent_of(old(store)@, listed_ids(list@)));
                        if missing.len() == 0 {
                            &&& final(store)@ == rankings_applied(old(store)@, u, list@)
                            &&& final(self)@ == advanced(v)
                            &&& logged(old(progress)@, final(progress)@, seq![unit_start_message(u)])
                            &&& settled(old(progress)@, final(progress)@, final(self)@)
                        } else {
                            &&& final(store)@ == old(store)@
                            &&& final(self)@.units == v.units
                            &&& final(self)@.max_rank == v.max_rank
                            &&& final(self)@.batch_limit == v.batch_limit
                            &&& final(self)@.unit_index == v.unit_index
                            &&& final(self)@.phase == IngestPhase::AwaitPlayers
                            &&& final(self)@.list == list@
                            &&& flatten(final(self)@.batches) == missing
                            &&& missing.no_duplicates()
                            &&& final(self)@.batches.len() == (missing.len() + v.batch_limit - 1) / v.batch_limit as int
                            &&& final(self)@.batch_index == 0
                            &&& final(self)@.processed == 0
                            &&& logged(
                                old(progress)@,
                                final(progress)@,
                                seq![unit_start_message(u), missing_message(missing.len() as int)],
                            )
                            &&& final(progress)@.progress == 0
                            &&& final(progress)@.max as nat == plus_one(missing.len())
                        }
                    },
                }
            }),
    {
        let unit = self.units[self.unit_index];
        let ghost p0 = progress@;
        progress.log(unit_start_text(unit));
        let ghost p1 = progress@;
        assert(log_text(p1.log) =~= log_text(p0.log) + seq![unit_start_message(unit)]);
        match result {
            Err(e) => {
                progress.log(unit_failed_text(unit, &e));
                let ghost p2 = progress@;
                assert(log_text(p2.log) =~= log_text(p0.log) + seq![unit_start_message(unit), unit_failed_message(unit, e@)]);
                self.advance(progress);
                assert(log_text(progress@.log) =~= log_text(p2.log) + Seq::<Seq<char>>::empty());
            },
            Ok(list) => {
                let missing = missing_players(store, &list);
                if missing.len() == 0 {
                    apply_unit_rankings(store, unit, &list);
                    self.advance(progress);
                    assert(log_text(progress@.log) =~= log_text(p1.log) + Seq::<Seq<char>>::empty());
                } else {
                    let batches = plan_batches(&missing, self.batch_limit);
                    let nb = batches.len();
                    proof {
                        if nb == 0 {
                            assert(batch_views(batches@) =~= Seq::<Seq<i32>>::empty());
                        }
                    }
                    progress.log(missing_text(missing.len()));
                    let ghost p2 = progress@;
                    assert(log_text(p2.log) =~= log_text(p0.log) + seq![unit_start_message(unit), missing_message(missing@.len() as int)]);
                    let n = missing.len();
                    let total = if n < usize::MAX { n + 1 } else { n };
                    progress.set_progress(0, total);
                    self.list = list;
                    self.batches = batches;
                    self.batch_index = 0;
                    self.processed = 0;
                    self.phase = IngestPhase::AwaitPlayers;
                    assert(self@.batches.take(0) =~= Seq::<Seq<i32>>::empty());
                }
            },
        }
    }

    /// Takes the outcomes of the current batch: one profile result and one
    /// image result per requested id. Profiles are stored, failures logged and
    /// skipped, and the found images handed back for storing. After the last
    /// batch the unit's entries are upserted and the job moves on.
    pub fn players_fetched(
        &mut self,
        store: &mut DatabaseRef,
        progress: &mut BackgroundOperationProgress,
        profiles: Vec<Result<Player, String>>,
        images: Vec<ImageFetch>,
    ) -> (r: Vec<PlayerImage>)
        requires
            old(self).wf(),
            old(self)@.phase == IngestPhase::AwaitPlayers,
            old(store).wf(),
            profiles@.len() == old(self)@.batches[old(self)@.batch_index].len(),
            profiles_well_formed(profiles@),
            images@.len() == old(self)@.batches[old(self)@.batch_index].len(),
        ensures
            final(self).wf(),
            final(store).wf(),
            r@ == found_images(images@),
            ({
                let v = old(self)@;
                let u = v.units[v.unit_index];
                let stored = profiles_stored(old(store)@, profiles@);
                let msgs = profile_messages(profiles@) + image_messages(images@);
                let done = v.batch_index + 1;
                let processed = flatten(v.batches.take(done)).len() as int;
                let max = old(progress)@.max;
                if done < v.batches.len() {
                    &&& final(store)@ == stored
                    &&& final(self)@ == (IngestView { batch_index: done, processed, ..v })
                    &&& logged(old(progress)@, final(progress)@, msgs)
                    &&& final(progress)@.progress == processed
                    &&& final(progress)@.max == max
                } else {
                    &&& final(store)@ == rankings_applied(stored, u, v.list)
                    &&& final(self)@ == advanced(v)
                    &&& logged(old(progress)@, final(progress)@, msgs.push(done_message()))
                    &&& final(progress)@.max == max
                    &&& final(progress)@.progress == if final(self)@.phase == IngestPhase::Finished {
                        max as int
                    } else {
                        processed
                    }
                }
            }),
    {
        let ghost p0 = progress@;
        store_profiles(store, progress, profiles);
        let ghost p1 = progress@;
        let found = sort_images(progress, images);
        let ghost p2 = progress@;
        assert(log_text(p2.log) =~= log_text(p0.log) + (profile_messages(profiles@) + image_messages(images@)));
        let nb = self.batches.len();
        assert(self.batch_index < nb);
        let done = self.batch_index + 1;
        let bl = self.batches[self.batch_index].len();
        proof {
            lemma_flatten_take_step(self@.batches, self@.batch_index);
            lemma_flatten_take_len(self@.batches, done as int);
        }
        let processed = self.processed + bl;
        let (_, max) = progress.get_progress();
        progress.set_progress(processed, max);
        if done < nb {
            self.batch_index = done;
            self.processed = processed;
            assert(self@ =~= (IngestView {
                batch_index: done as int,
                processed: flatten(old(self)@.batches.take(done as int)).len() as int,
                ..old(self)@
            }));
        } else {
            let unit = self.units[self.unit_index];
            apply_unit_rankings(store, unit, &self.list);
            proof {
                reveal_strlit("[ITSF] Done");
            }
            let ghost p2b = progress@;
            progress.log(String::from_str("[ITSF] Done"));
            let ghost p3 = progress@;
            assert(log_text(p3.log) =~= log_text(p2b.log).push(done_message()));
            assert(log_text(p3.log) =~= log_text(p0.log) + (profile_messages(profiles@) + image_messages(images@)).push(done_message()));
            self.advance(progress);
            assert(log_text(progress@.log) =~= log_text(p3.log) + Seq::<Seq<char>>::empty());
        }
        found
    }

    /// Moves past the current unit; after the last one, forces the progress to (max, max).
    fn advance(&mut self, progress: &mut BackgroundOperationProgress)
        requires
            old(self).wf(),
            old(self)@.phase != IngestPhase::Finished,
        ensures
            final(self).wf(),
            final(self)@ == advanced(old(self)@),
            logged(old(progress)@, final(progress)@, Seq::empty()),
            settled(old(progress)@, final(progress)@, final(self)@),
    {
        let n = self.units.len();
        assert(self.unit_index < n);
        self.unit_index = self.unit_index + 1;
        self.list = Vec::new();
        self.batches = Vec::new();
        self.batch_index = 0;
        self.processed = 0;
        if self.unit_index == self.units.len() {
            self.phase = IngestPhase::Finished;
            let (_, max) = progress.get_progress();
            progress.set_progress(max, max);
        } else {
            self.phase = IngestPhase::AwaitRanking;
        }
        assert(batch_views(self.batches@) =~= Seq::<Seq<i32>>::empty());
        assert(self@ =~= advanced(old(self)@));
        assert(log_text(progress@.log) =~= log_text(old(progress)@.log) + Seq::<Seq<char>>::empty());
    }
}

} // verus!
