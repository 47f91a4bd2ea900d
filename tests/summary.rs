use foosdb::dtfb::{ChampionshipCategory, NationalRanking, NationalTeam};
use foosdb::itsf::{PlayerCategory, Ranking, RankingCategory, RankingClass};
use foosdb::store::{Player, PlayerComment};
use foosdb::summary::{drop_combined, sort_newest_first, summarize_player};

fn ranking(year: i32, place: i32, class: RankingClass) -> Ranking {
    Ranking { year, place, category: RankingCategory::Open, class }
}

#[test]
fn newest_season_first_is_stable() {
    let sorted = sort_newest_first(vec![
        ranking(2019, 1, RankingClass::Singles),
        ranking(2021, 2, RankingClass::Singles),
        ranking(2019, 3, RankingClass::Doubles),
        ranking(2021, 4, RankingClass::Doubles),
        ranking(2020, 5, RankingClass::Singles),
    ]);
    let places: Vec<i32> = sorted.iter().map(|r| r.place).collect();
    assert_eq!(places, vec![2, 4, 5, 1, 3]);
    assert!(sort_newest_first(Vec::<Ranking>::new()).is_empty());
}

#[test]
fn combined_class_is_left_out() {
    let kept = drop_combined(vec![
        ranking(2019, 1, RankingClass::Combined),
        ranking(2019, 2, RankingClass::Singles),
        ranking(2020, 3, RankingClass::Combined),
        ranking(2020, 4, RankingClass::Doubles),
    ]);
    let places: Vec<i32> = kept.iter().map(|r| r.place).collect();
    assert_eq!(places, vec![2, 4]);
}

#[test]
fn player_page() {
    let player = Player {
        itsf_id: 4711,
        first_name: "Max".to_string(),
        last_name: "Muster".to_string(),
        birth_year: 1980,
        country_code: None,
        category: PlayerCategory::SeniorMale,
        itsf_rankings: vec![ranking(2018, 9, RankingClass::Singles), ranking(2020, 3, RankingClass::Combined), ranking(2022, 1, RankingClass::Doubles)],
        dtfb_id: Some(12),
        dtfb_national_rankings: vec![
            NationalRanking { year: 2017, place: 5, category: ChampionshipCategory::Senior },
            NationalRanking { year: 2019, place: 2, category: ChampionshipCategory::Senior },
        ],
        dtfb_championship_results: Vec::new(),
        dtfb_league_teams: vec![NationalTeam { year: 2015, name: "A".to_string() }, NationalTeam { year: 2016, name: "B".to_string() }],
        comments: vec![
            PlayerComment { timestamp: 1, text: "old".to_string() },
            PlayerComment { timestamp: 2, text: "new".to_string() },
        ],
    };
    let page = summarize_player(player);
    assert_eq!(page.first_name, "Max");
    assert_eq!(page.country_code, "");
    assert_eq!(page.image_url, "/image/4711.jpg");
    let years: Vec<i32> = page.itsf_rankings.iter().map(|r| r.year).collect();
    assert_eq!(years, vec![2022, 2018]);
    assert_eq!(page.dtfb_rankings[0].year, 2019);
    assert_eq!(page.dtfl_teams[0].name, "B");
    assert_eq!(page.comment, "new");
}

#[test]
fn player_page_without_comments() {
    let player = Player {
        itsf_id: -3,
        first_name: String::new(),
        last_name: String::new(),
        birth_year: 0,
        country_code: Some("ESP".to_string()),
        category: PlayerCategory::Women,
        itsf_rankings: Vec::new(),
        dtfb_id: None,
        dtfb_national_rankings: Vec::new(),
        dtfb_championship_results: Vec::new(),
        dtfb_league_teams: Vec::new(),
        comments: Vec::new(),
    };
    let page = summarize_player(player);
    assert_eq!(page.comment, "");
    assert_eq!(page.country_code, "ESP");
    assert_eq!(page.image_url, "/image/-3.jpg");
}
