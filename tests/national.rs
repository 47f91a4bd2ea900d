use foosdb::background::BackgroundOperationProgress;
use foosdb::dtfb::ChampionshipCategory;
use foosdb::dtfb_job::{DtfbJob, DtfbStep};
use foosdb::itsf::PlayerCategory;
use foosdb::job::ImageFetch;
use foosdb::national::{DtfbNationalRanking, DtfbPlayerInfo};
use foosdb::request::parse_year;
use foosdb::store::{DatabaseRef, Player};

fn player(id: i32) -> Player {
    Player {
        itsf_id: id,
        first_name: "First".to_string(),
        last_name: "Last".to_string(),
        birth_year: 2000,
        country_code: None,
        category: PlayerCategory::Women,
        itsf_rankings: Vec::new(),
        dtfb_id: None,
        dtfb_national_rankings: Vec::new(),
        dtfb_championship_results: Vec::new(),
        dtfb_league_teams: Vec::new(),
        comments: Vec::new(),
    }
}

fn info(dtfb_id: i32, itsf_id: i32) -> DtfbPlayerInfo {
    DtfbPlayerInfo {
        dtfb_id,
        itsf_id,
        championship_results: Vec::new(),
        national_rankings: vec![DtfbNationalRanking { year: 2022, place: dtfb_id, category: ChampionshipCategory::Women }],
        teams: vec![(2022, "Team".to_string())],
    }
}

fn batch(step: DtfbStep) -> Vec<i32> {
    match step {
        DtfbStep::FetchDtfbProfiles { ids } => ids,
        DtfbStep::FetchPlayers { ids } => ids,
        other => panic!("unexpected step {:?}", other),
    }
}

#[test]
fn national_ingestion_runs_through() {
    let mut db = DatabaseRef::new();
    db.add_player(player(100));
    let mut progress = BackgroundOperationProgress::new("DTFB Rankings Download", 1);
    let mut job = DtfbJob::new(vec![2021, 2022], 50, 5, &mut db, &mut progress);
    assert!(matches!(job.next_step(), DtfbStep::FetchSeasonRankings { season: 2021 }));
    job.season_fetched(&mut db, &mut progress, Err("offline".to_string()));
    assert!(matches!(job.next_step(), DtfbStep::FetchSeasonRankings { season: 2022 }));
    job.season_fetched(&mut db, &mut progress, Ok(vec![7, 8]));
    assert!(matches!(job.next_step(), DtfbStep::FetchRankingPlayers { ranking_id: 7, count: 50 }));
    job.ranking_players_fetched(&mut db, &mut progress, Ok(vec![1, 2]));
    assert!(matches!(job.next_step(), DtfbStep::FetchRankingPlayers { ranking_id: 8, .. }));
    job.ranking_players_fetched(&mut db, &mut progress, Ok(vec![2, 3]));
    let ids = batch(job.next_step());
    assert_eq!(ids, vec![1, 2, 3]);
    job.dtfb_profiles_fetched(&mut db, &mut progress, vec![Ok(info(1, 100)), Ok(info(2, 200)), Err("bad json".to_string())]);
    let ids = batch(job.next_step());
    assert_eq!(ids, vec![200]);
    let images = job.players_fetched(&mut db, &mut progress, vec![Ok(player(200))], vec![ImageFetch::NotFound]);
    assert!(images.is_empty());
    assert!(job.is_finished());
    assert!(progress.has_finished());
    assert_eq!(db.get_player(100).unwrap().dtfb_id, Some(1));
    assert_eq!(db.get_player(200).unwrap().dtfb_national_rankings[0].place, 2);
    let log = progress.get_log();
    assert!(log.contains(&"[DTFB] Failed to download the rankings of season 2021: offline".to_string()));
    assert!(log.contains(&"[DTFB] Downloading 3 players".to_string()));
    assert!(log.contains(&"[DTFB] .. downloaded player info for DTFB=2, ITSF=200".to_string()));
    assert!(log.contains(&"[DTFB] Failed to download player: bad json".to_string()));
    assert_eq!(log.last().unwrap(), "[DTFB] done");
}

#[test]
fn national_ingestion_without_seasons() {
    let mut db = DatabaseRef::new();
    let mut progress = BackgroundOperationProgress::new("DTFB Rankings Download", 1);
    let job = DtfbJob::new(Vec::new(), 50, 5, &mut db, &mut progress);
    assert!(job.is_finished());
    assert!(progress.has_finished());
    assert_eq!(progress.get_progress(), (1, 1));
    assert_eq!(progress.get_log(), vec!["[DTFB] starting download of DTFB rankings".to_string(), "[DTFB] done".to_string()]);
}

#[test]
fn failed_ranking_list_is_skipped() {
    let mut db = DatabaseRef::new();
    db.add_player(player(100));
    let mut progress = BackgroundOperationProgress::new("DTFB Rankings Download", 1);
    let mut job = DtfbJob::new(vec![2022], 50, 5, &mut db, &mut progress);
    job.season_fetched(&mut db, &mut progress, Ok(vec![7, 8]));
    job.ranking_players_fetched(&mut db, &mut progress, Err("timeout".to_string()));
    job.ranking_players_fetched(&mut db, &mut progress, Ok(vec![4]));
    assert_eq!(batch(job.next_step()), vec![4]);
    job.dtfb_profiles_fetched(&mut db, &mut progress, vec![Ok(info(4, 100))]);
    assert!(job.is_finished());
    assert_eq!(db.get_player(100).unwrap().dtfb_id, Some(4));
    assert!(progress.get_log().contains(&"[DTFB] Failed to download ranking 7: timeout".to_string()));
}

#[test]
fn year_parameter() {
    assert_eq!(parse_year(None, 2024), Some(2024));
    assert_eq!(parse_year(Some("2015"), 2024), Some(2015));
    assert_eq!(parse_year(Some("2010"), 2024), Some(2010));
    assert_eq!(parse_year(Some("2009"), 2024), None);
    assert_eq!(parse_year(Some("2025"), 2024), None);
    assert_eq!(parse_year(Some("20x5"), 2024), None);
    assert_eq!(parse_year(Some(""), 2024), None);
    assert_eq!(parse_year(Some("+2015"), 2024), Some(2015));
    assert_eq!(parse_year(Some(" 2015"), 2024), None);
    assert_eq!(parse_year(Some("99999999999"), 2024), None);
}
