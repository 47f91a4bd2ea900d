use foosdb::background::BackgroundOperationProgress;
use foosdb::fetcher::plan_batches;
use foosdb::ingest::{apply_unit_rankings, missing_players, ranking_units, RankingUnit};
use foosdb::itsf::{PlayerCategory, RankingCategory, RankingClass};
use foosdb::job::{ImageFetch, IngestJob, IngestStep};
use foosdb::store::{DatabaseRef, Player, PlayerImage};
use foosdb::supervisor::{job_status, AlreadyRunning, JobKind, JobSupervisor};

fn player(id: i32, first: &str, last: &str) -> Player {
    Player {
        itsf_id: id,
        first_name: first.to_string(),
        last_name: last.to_string(),
        birth_year: 1985,
        country_code: Some("FRA".to_string()),
        category: PlayerCategory::Men,
        itsf_rankings: Vec::new(),
        dtfb_id: None,
        dtfb_national_rankings: Vec::new(),
        dtfb_championship_results: Vec::new(),
        dtfb_league_teams: Vec::new(),
        comments: Vec::new(),
    }
}

fn image(id: i32) -> PlayerImage {
    PlayerImage { itsf_id: id, image_data: vec![1, 2, 3], image_format: "jpg".to_string() }
}

fn unit(year: i32) -> RankingUnit {
    RankingUnit { year, category: RankingCategory::Open, class: RankingClass::Singles }
}

fn fetch_ids(step: IngestStep) -> Vec<i32> {
    match step {
        IngestStep::FetchPlayers { ids } => ids,
        other => panic!("expected a player fetch, got {:?}", other),
    }
}

#[test]
fn unknown_player_fetched_known_refreshed() {
    let mut db = DatabaseRef::new();
    db.add_player(player(2, "Known", "Player"));
    let mut progress = BackgroundOperationProgress::new("ITSF Rankings Download", 1);
    let mut job = IngestJob::new(vec![unit(2022)], 100, 5, &mut progress);
    match job.next_step() {
        IngestStep::FetchRanking { unit: u, count } => {
            assert_eq!(u, unit(2022));
            assert_eq!(count, 100);
        }
        other => panic!("unexpected step {:?}", other),
    }
    job.ranking_fetched(&mut db, &mut progress, Ok(vec![(1, 1), (2, 2)]));
    let ids = fetch_ids(job.next_step());
    assert_eq!(ids, vec![1]);
    let images = job.players_fetched(&mut db, &mut progress, vec![Ok(player(1, "New", "Player"))], vec![ImageFetch::Found(image(1))]);
    assert_eq!(images.len(), 1);
    assert_eq!(images[0].itsf_id, 1);
    assert!(job.is_finished());
    assert!(matches!(job.next_step(), IngestStep::Finished));
    let p1 = db.get_player(1).unwrap();
    let p2 = db.get_player(2).unwrap();
    assert_eq!(p1.itsf_rankings.len(), 1);
    assert_eq!(p1.itsf_rankings[0].place, 1);
    assert_eq!(p2.itsf_rankings.len(), 1);
    assert_eq!(p2.itsf_rankings[0].place, 2);
    let (current, max) = progress.get_progress();
    assert_eq!(current, max);
    assert!(progress.has_finished());
    let log = progress.get_log();
    assert_eq!(log[0], "[ITSF] Scraping ITSF rankings for 2022, Open, Singles");
    assert_eq!(log[1], "[ITSF] Downloading 1 ITSF player profiles");
    assert_eq!(log[2], "[ITSF] .. downloaded player info for ID=1: New Player");
    assert_eq!(log[3], "[ITSF] Done");
}

#[test]
fn image_not_found_is_not_a_failure() {
    let mut db = DatabaseRef::new();
    let mut progress = BackgroundOperationProgress::new("ITSF Rankings Download", 1);
    let mut job = IngestJob::new(vec![unit(2021)], 100, 5, &mut progress);
    job.ranking_fetched(&mut db, &mut progress, Ok(vec![(1, 10), (2, 11)]));
    let ids = fetch_ids(job.next_step());
    assert_eq!(ids, vec![10, 11]);
    let images = job.players_fetched(
        &mut db,
        &mut progress,
        vec![Ok(player(10, "A", "B")), Ok(player(11, "C", "D"))],
        vec![ImageFetch::NotFound, ImageFetch::Found(image(11))],
    );
    assert_eq!(images.len(), 1);
    assert_eq!(images[0].itsf_id, 11);
    assert!(db.get_player(11).is_some());
    assert!(progress.get_log().iter().all(|l| !l.contains("image")));
}

#[test]
fn image_failure_is_logged_and_skipped() {
    let mut db = DatabaseRef::new();
    let mut progress = BackgroundOperationProgress::new("ITSF Rankings Download", 1);
    let mut job = IngestJob::new(vec![unit(2021)], 100, 5, &mut progress);
    job.ranking_fetched(&mut db, &mut progress, Ok(vec![(1, 10), (2, 11)]));
    let images = job.players_fetched(
        &mut db,
        &mut progress,
        vec![Err("timeout".to_string()), Ok(player(11, "C", "D"))],
        vec![ImageFetch::Failed("reset".to_string()), ImageFetch::Found(image(11))],
    );
    assert_eq!(images.len(), 1);
    assert!(db.get_player(10).is_none());
    assert_eq!(db.get_player(11).unwrap().itsf_rankings[0].place, 2);
    let log = progress.get_log();
    assert!(log.contains(&"[ITSF] Failed to download player: timeout".to_string()));
    assert!(log.contains(&"[ITSF] Failed to download player image: reset".to_string()));
    assert!(job.is_finished());
}

#[test]
fn failed_unit_is_skipped() {
    let mut db = DatabaseRef::new();
    db.add_player(player(5, "E", "F"));
    let mut progress = BackgroundOperationProgress::new("ITSF Rankings Download", 1);
    let mut job = IngestJob::new(vec![unit(2020), unit(2021)], 100, 5, &mut progress);
    job.ranking_fetched(&mut db, &mut progress, Err("connection refused".to_string()));
    assert!(!job.is_finished());
    assert!(progress.get_log().contains(&"[ITSF] Failed to download ITSF rankings for 2020, Open, Singles: connection refused".to_string()));
    match job.next_step() {
        IngestStep::FetchRanking { unit: u, .. } => assert_eq!(u, unit(2021)),
        other => panic!("unexpected step {:?}", other),
    }
    job.ranking_fetched(&mut db, &mut progress, Ok(vec![(4, 5)]));
    assert!(job.is_finished());
    assert!(progress.has_finished());
    assert_eq!(db.get_player(5).unwrap().itsf_rankings[0].year, 2021);
}

#[test]
fn all_units_failing_still_finishes() {
    let mut db = DatabaseRef::new();
    let mut progress = BackgroundOperationProgress::new("ITSF Rankings Download", 1);
    let mut job = IngestJob::new(vec![unit(2020)], 100, 5, &mut progress);
    job.ranking_fetched(&mut db, &mut progress, Err("boom".to_string()));
    assert!(job.is_finished());
    assert_eq!(progress.get_progress(), (1, 1));
}

#[test]
fn empty_job_is_finished_at_once() {
    let mut progress = BackgroundOperationProgress::new("ITSF Rankings Download", 1);
    let job = IngestJob::new(Vec::new(), 100, 5, &mut progress);
    assert!(job.is_finished());
    assert!(progress.has_finished());
}

#[test]
fn same_unit_twice_keeps_one_entry_per_key() {
    let mut db = DatabaseRef::new();
    db.add_player(player(1, "A", "B"));
    db.add_player(player(2, "C", "D"));
    let list = vec![(1, 1), (2, 2)];
    apply_unit_rankings(&mut db, unit(2022), &list);
    apply_unit_rankings(&mut db, unit(2022), &list);
    assert_eq!(db.get_player(1).unwrap().itsf_rankings.len(), 1);
    assert_eq!(db.get_player(2).unwrap().itsf_rankings.len(), 1);
    let mut progress = BackgroundOperationProgress::new("ITSF Rankings Download", 1);
    let mut job = IngestJob::new(vec![unit(2022), unit(2022)], 100, 5, &mut progress);
    job.ranking_fetched(&mut db, &mut progress, Ok(list.clone()));
    job.ranking_fetched(&mut db, &mut progress, Ok(list));
    assert!(job.is_finished());
    assert_eq!(db.get_player(1).unwrap().itsf_rankings.len(), 1);
    assert_eq!(db.get_player(2).unwrap().itsf_rankings[0].place, 2);
}

#[test]
fn batches_are_bounded_and_cover_every_item() {
    let items: Vec<i32> = (1..=12).collect();
    let batches = plan_batches(&items, 5);
    let sizes: Vec<usize> = batches.iter().map(|b| b.len()).collect();
    assert_eq!(sizes, vec![5, 5, 2]);
    let flat: Vec<i32> = batches.concat();
    assert_eq!(flat, items);
    assert!(plan_batches(&Vec::new(), 3).is_empty());
    assert_eq!(plan_batches(&vec![4, 5], 1), vec![vec![4], vec![5]]);
}

#[test]
fn every_missing_player_gets_a_result() {
    let mut db = DatabaseRef::new();
    let mut progress = BackgroundOperationProgress::new("ITSF Rankings Download", 1);
    let mut job = IngestJob::new(vec![unit(2019)], 100, 2, &mut progress);
    let list: Vec<(i32, i32)> = (1..=5).map(|i| (i, 100 + i)).collect();
    job.ranking_fetched(&mut db, &mut progress, Ok(list));
    assert_eq!(progress.get_progress(), (0, 6));
    let mut seen = Vec::new();
    let mut batches = 0;
    while !job.is_finished() {
        let ids = fetch_ids(job.next_step());
        assert!(ids.len() <= 2);
        batches += 1;
        let profiles: Vec<Result<Player, String>> = ids
            .iter()
            .map(|&id| if id % 2 == 0 { Err(format!("no profile {}", id)) } else { Ok(player(id, "X", "Y")) })
            .collect();
        let images: Vec<ImageFetch> = ids.iter().map(|_| ImageFetch::NotFound).collect();
        seen.extend(ids);
        job.players_fetched(&mut db, &mut progress, profiles, images);
        if !job.is_finished() {
            assert_eq!(progress.get_progress(), (seen.len(), 6));
        }
    }
    assert_eq!(seen, vec![101, 102, 103, 104, 105]);
    assert_eq!(batches, 3);
    assert_eq!(progress.get_progress(), (6, 6));
    let mut ids = db.get_player_ids();
    ids.sort();
    assert_eq!(ids, vec![101, 103, 105]);
}

#[test]
fn missing_players_in_list_order() {
    let mut db = DatabaseRef::new();
    db.add_player(player(2, "A", "B"));
    assert_eq!(missing_players(&db, &vec![(1, 3), (2, 2), (3, 1)]), vec![3, 1]);
    assert_eq!(missing_players(&db, &vec![(1, 7), (2, 7), (3, 2), (4, 8), (5, 7)]), vec![7, 8]);
}

#[test]
fn id_listed_twice_is_fetched_once() {
    let mut db = DatabaseRef::new();
    let mut progress = BackgroundOperationProgress::new("ITSF Rankings Download", 1);
    let mut job = IngestJob::new(vec![unit(2022)], 100, 5, &mut progress);
    job.ranking_fetched(&mut db, &mut progress, Ok(vec![(1, 7), (2, 7)]));
    assert_eq!(fetch_ids(job.next_step()), vec![7]);
    assert_eq!(progress.get_progress(), (0, 2));
    job.players_fetched(&mut db, &mut progress, vec![Ok(player(7, "A", "B"))], vec![ImageFetch::NotFound]);
    assert!(job.is_finished());
    let p = db.get_player(7).unwrap();
    assert_eq!(p.itsf_rankings.len(), 1);
    assert_eq!(p.itsf_rankings[0].place, 2);
}

#[test]
fn units_are_the_outer_product() {
    let units = ranking_units(
        &vec![2021, 2022],
        &vec![RankingCategory::Open, RankingCategory::Women],
        &vec![RankingClass::Singles, RankingClass::Doubles, RankingClass::Combined],
    );
    assert_eq!(units.len(), 12);
    assert_eq!(units[0], RankingUnit { year: 2021, category: RankingCategory::Open, class: RankingClass::Singles });
    assert_eq!(units[4], RankingUnit { year: 2021, category: RankingCategory::Women, class: RankingClass::Doubles });
    assert_eq!(units[11], RankingUnit { year: 2022, category: RankingCategory::Women, class: RankingClass::Combined });
}

#[test]
fn second_start_is_refused_until_finish() {
    let mut sup = JobSupervisor::new();
    let id = sup.start_job(JobKind::ItsfRankings).unwrap();
    assert_eq!(sup.start_job(JobKind::ItsfRankings), Err(AlreadyRunning { kind: JobKind::ItsfRankings }));
    assert!(sup.is_running(JobKind::ItsfRankings));
    assert!(!sup.is_running(JobKind::DtfbRankings));
    let other = sup.start_job(JobKind::DtfbRankings).unwrap();
    assert_ne!(other, id);
    sup.finish_job(JobKind::ItsfRankings, id + 100);
    assert!(sup.is_running(JobKind::ItsfRankings));
    sup.finish_job(JobKind::ItsfRankings, id);
    assert!(!sup.is_running(JobKind::ItsfRankings));
    assert!(sup.start_job(JobKind::ItsfRankings).is_ok());
}

#[test]
fn progress_tracker_basics() {
    let mut p = BackgroundOperationProgress::new("Title", 3);
    assert_eq!(p.get_title(), "Title");
    assert_eq!(p.get_progress(), (0, 3));
    assert!(!p.has_finished());
    p.set_progress(2, 5);
    assert_eq!(p.get_progress(), (2, 5));
    p.log("one".to_string());
    p.log("two".to_string());
    let copy = p.get_log();
    p.log("three".to_string());
    assert_eq!(copy, vec!["one".to_string(), "two".to_string()]);
    p.set_progress(5, 5);
    assert!(p.has_finished());
}

#[test]
fn status_shows_log_only_while_running() {
    let mut sup = JobSupervisor::new();
    let mut progress = BackgroundOperationProgress::new("ITSF Rankings Download", 1);
    progress.log("started".to_string());
    let idle = job_status(&sup, JobKind::ItsfRankings, Some(&progress));
    assert!(!idle.running);
    assert!(idle.log.is_empty());
    let id = sup.start_job(JobKind::ItsfRankings).unwrap();
    let busy = job_status(&sup, JobKind::ItsfRankings, Some(&progress));
    assert!(busy.running);
    assert_eq!(busy.log, vec!["started".to_string()]);
    assert!(!job_status(&sup, JobKind::ItsfRankings, None).running);
    sup.finish_job(JobKind::ItsfRankings, id);
    assert!(!job_status(&sup, JobKind::ItsfRankings, Some(&progress)).running);
}
