use foosdb::itsf::PlayerCategory;
use foosdb::models;
use foosdb::text::{is_uppercase, to_normalcase};

#[test]
fn category_labels_parse() {
    assert_eq!(PlayerCategory::try_from_str("JUNIOR FEMALE"), Ok(PlayerCategory::JuniorFemale));
    assert_eq!(PlayerCategory::try_from_str("MEN"), Ok(PlayerCategory::Men));
    assert_eq!(PlayerCategory::try_from_str("men"), Err("invalid category: 'men'".to_string()));
    assert_eq!(PlayerCategory::SeniorMale.to_str(), "SENIOR MALE");
    assert_eq!(models::PlayerCategory::try_from_str("WOMEN"), Ok(models::PlayerCategory::Women));
    assert_eq!(models::PlayerCategory::try_from_str(""), Err("invalid category: ''".to_string()));
    assert_eq!(models::PlayerCategory::JuniorMale.to_str(), "JUNIOR MALE");
}

#[test]
fn category_codes() {
    assert_eq!(models::PlayerCategory::SeniorFemale.to_code(), 5);
    assert_eq!(models::PlayerCategory::try_from_code(1), Some(models::PlayerCategory::Women));
    assert_eq!(models::PlayerCategory::try_from_code(6), None);
    assert_eq!(models::ItsfRankingCategory::Junior.to_str(), "junior");
    assert_eq!(models::ItsfRankingClass::Combined.to_str(), "combined");
}

#[test]
fn upper_case_words() {
    assert!(is_uppercase("MUSTERMANN"));
    assert!(is_uppercase("O'NEIL-2"));
    assert!(!is_uppercase("Max"));
    assert!(is_uppercase(""));
}

#[test]
fn normal_case_words() {
    assert_eq!(to_normalcase("MUSTERMANN"), "Mustermann");
    assert_eq!(to_normalcase("ÖZİL"), "Özi\u{307}l");
    assert_eq!(to_normalcase("X"), "X");
    assert_eq!(to_normalcase(""), "");
}
