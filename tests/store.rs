use foosdb::dtfb::{ChampionshipCategory, ChampionshipClass, NationalChampionshipResult, NationalRanking};
use foosdb::itsf::{PlayerCategory, Ranking, RankingCategory, RankingClass};
use foosdb::national::{apply_dtfb_player, unique_ids, DtfbChampionshipResult, DtfbNationalRanking, DtfbPlayerInfo};
use foosdb::store::{has_unique_keys, DatabaseRef, Player};

fn player(id: i32, first: &str, last: &str) -> Player {
    Player {
        itsf_id: id,
        first_name: first.to_string(),
        last_name: last.to_string(),
        birth_year: 1990,
        country_code: Some("GER".to_string()),
        category: PlayerCategory::Men,
        itsf_rankings: Vec::new(),
        dtfb_id: None,
        dtfb_national_rankings: Vec::new(),
        dtfb_championship_results: Vec::new(),
        dtfb_league_teams: Vec::new(),
        comments: Vec::new(),
    }
}

fn ranking(year: i32, place: i32, category: RankingCategory, class: RankingClass) -> Ranking {
    Ranking { year, place, category, class }
}

#[test]
fn upsert_same_key_keeps_latest_place() {
    let mut db = DatabaseRef::new();
    db.add_player(player(7, "Anna", "Muster"));
    db.add_player_itsf_ranking(7, ranking(2022, 5, RankingCategory::Open, RankingClass::Singles));
    db.add_player_itsf_ranking(7, ranking(2022, 3, RankingCategory::Open, RankingClass::Singles));
    let p = db.get_player(7).unwrap();
    assert_eq!(p.itsf_rankings.len(), 1);
    assert_eq!(p.itsf_rankings[0].place, 3);
}

#[test]
fn upsert_other_key_appends() {
    let mut db = DatabaseRef::new();
    db.add_player(player(7, "Anna", "Muster"));
    db.add_player_itsf_ranking(7, ranking(2022, 5, RankingCategory::Open, RankingClass::Singles));
    db.add_player_itsf_ranking(7, ranking(2022, 9, RankingCategory::Open, RankingClass::Doubles));
    db.add_player_itsf_ranking(7, ranking(2021, 2, RankingCategory::Open, RankingClass::Singles));
    db.add_player_itsf_ranking(7, ranking(2022, 1, RankingCategory::Open, RankingClass::Singles));
    let p = db.get_player(7).unwrap();
    let places: Vec<i32> = p.itsf_rankings.iter().map(|r| r.place).collect();
    assert_eq!(places, vec![9, 2, 1]);
}

#[test]
fn upsert_for_unknown_player_does_nothing() {
    let mut db = DatabaseRef::new();
    db.add_player_itsf_ranking(8, ranking(2022, 5, RankingCategory::Open, RankingClass::Singles));
    assert!(db.get_player(8).is_none());
    assert!(db.get_player_ids().is_empty());
}

#[test]
fn add_player_replaces_whole_record() {
    let mut db = DatabaseRef::new();
    db.add_player(player(7, "Anna", "Muster"));
    db.add_player(player(9, "Ben", "Beispiel"));
    db.add_player(player(7, "Anne", "Muster"));
    assert_eq!(db.get_player(7).unwrap().first_name, "Anne");
    let mut ids = db.get_player_ids();
    ids.sort();
    assert_eq!(ids, vec![7, 9]);
}

#[test]
fn dtfb_fields_upsert_by_key() {
    let mut db = DatabaseRef::new();
    db.add_player(player(7, "Anna", "Muster"));
    db.set_player_dtfb_id(7, 1234);
    let r = NationalChampionshipResult { year: 2020, place: 4, category: ChampionshipCategory::Women, class: ChampionshipClass::Singles };
    db.add_player_dtfb_championship_result(7, r);
    db.add_player_dtfb_championship_result(7, NationalChampionshipResult { place: 2, ..r });
    db.add_player_dtfb_championship_result(7, NationalChampionshipResult { class: ChampionshipClass::Doubles, ..r });
    let n = NationalRanking { year: 2020, place: 10, category: ChampionshipCategory::Women };
    db.add_player_dtfb_ranking(7, n);
    db.add_player_dtfb_ranking(7, NationalRanking { place: 8, ..n });
    db.add_player_dtfb_team(7, 2020, "Kicker A".to_string());
    db.add_player_dtfb_team(7, 2020, "Kicker B".to_string());
    db.add_player_dtfb_team(7, 2021, "Kicker C".to_string());
    let p = db.get_player(7).unwrap();
    assert_eq!(p.dtfb_id, Some(1234));
    assert_eq!(p.dtfb_championship_results.len(), 2);
    assert_eq!(p.dtfb_championship_results[0].place, 2);
    assert_eq!(p.dtfb_championship_results[0].class, ChampionshipClass::Singles);
    assert_eq!(p.dtfb_championship_results[1].place, 4);
    assert_eq!(p.dtfb_championship_results[1].class, ChampionshipClass::Doubles);
    assert_eq!(p.dtfb_national_rankings.len(), 1);
    assert_eq!(p.dtfb_national_rankings[0].place, 8);
    let teams: Vec<(i32, String)> = p.dtfb_league_teams.iter().map(|t| (t.year, t.name.clone())).collect();
    assert_eq!(teams, vec![(2020, "Kicker B".to_string()), (2021, "Kicker C".to_string())]);
}

#[test]
fn comments_are_kept_in_time_order() {
    let mut db = DatabaseRef::new();
    db.add_player(player(7, "Anna", "Muster"));
    db.add_player_comment(7, "second".to_string(), 200);
    db.add_player_comment(7, "first".to_string(), 100);
    db.add_player_comment(7, "third".to_string(), 200);
    let p = db.get_player(7).unwrap();
    let texts: Vec<&str> = p.comments.iter().map(|c| c.text.as_str()).collect();
    assert_eq!(texts, vec!["first", "second", "third"]);
}

#[test]
fn ranking_matches_by_key_only() {
    let a = ranking(2022, 1, RankingCategory::Open, RankingClass::Singles);
    assert!(a.matches(&ranking(2022, 9, RankingCategory::Open, RankingClass::Singles)));
    assert!(!a.matches(&ranking(2021, 1, RankingCategory::Open, RankingClass::Singles)));
    assert!(!a.matches(&ranking(2022, 1, RankingCategory::Women, RankingClass::Singles)));
    assert!(!a.matches(&ranking(2022, 1, RankingCategory::Open, RankingClass::Combined)));
    let n = NationalRanking { year: 2020, place: 1, category: ChampionshipCategory::Men };
    assert!(n.matches(&NationalRanking { place: 3, ..n }));
    assert!(!n.matches(&NationalRanking { category: ChampionshipCategory::Senior, ..n }));
}

#[test]
fn apply_national_record() {
    let mut db = DatabaseRef::new();
    db.add_player(player(7, "Anna", "Muster"));
    let info = DtfbPlayerInfo {
        dtfb_id: 55,
        itsf_id: 7,
        championship_results: vec![DtfbChampionshipResult { year: 2019, place: 3, category: ChampionshipCategory::Junior, class: ChampionshipClass::Doubles }],
        national_rankings: vec![
            DtfbNationalRanking { year: 2019, place: 12, category: ChampionshipCategory::Junior },
            DtfbNationalRanking { year: 2019, place: 11, category: ChampionshipCategory::Junior },
        ],
        teams: vec![(2019, "Team X".to_string())],
    };
    apply_dtfb_player(&mut db, &info);
    let p = db.get_player(7).unwrap();
    assert_eq!(p.dtfb_id, Some(55));
    assert_eq!(p.dtfb_championship_results.len(), 1);
    assert_eq!(p.dtfb_national_rankings.len(), 1);
    assert_eq!(p.dtfb_national_rankings[0].place, 11);
    assert_eq!(p.dtfb_league_teams[0].name, "Team X");
}

#[test]
fn unique_ids_keeps_first_occurrences() {
    assert_eq!(unique_ids(&vec![3, 1, 3, 2, 1]), vec![3, 1, 2]);
    assert!(unique_ids(&vec![]).is_empty());
}

#[test]
fn records_with_repeated_keys_are_detected() {
    let mut p = player(7, "Anna", "Muster");
    assert!(has_unique_keys(&p));
    p.itsf_rankings.push(ranking(2022, 5, RankingCategory::Open, RankingClass::Singles));
    p.itsf_rankings.push(ranking(2022, 6, RankingCategory::Open, RankingClass::Doubles));
    assert!(has_unique_keys(&p));
    p.itsf_rankings.push(ranking(2022, 9, RankingCategory::Open, RankingClass::Singles));
    assert!(!has_unique_keys(&p));
}
