use vstd::prelude::*;
use crate::itsf::{category_label, category_of_label};
use crate::text::{concat3, str_equals};

verus! {

/// Player category as stored in the relational schema, as an integer code.
#[derive(Debug, Clone, Copy, PartialEq, Eq, Structural)]
pub enum PlayerCategory {
    Men,
    Women,
    JuniorMale,
    JuniorFemale,
    SeniorMale,
    SeniorFemale,
}

/// The category's integer code: its position in declaration order.
pub open spec fn category_code(c: PlayerCategory) -> i32 {
    match c {
        PlayerCategory::Men => 0,
        PlayerCategory::Women => 1,
        PlayerCategory::JuniorMale => 2,
        PlayerCategory::JuniorFemale => 3,
        PlayerCategory::SeniorMale => 4,
        PlayerCategory::SeniorFemale => 5,
    }
}

/// The same category in the federation data model.
pub open spec fn as_itsf(c: PlayerCategory) -> crate::itsf::PlayerCategory {
    match c {
        PlayerCategory::Men => crate::itsf::PlayerCategory::Men,
        PlayerCategory::Women => crate::itsf::PlayerCategory::Women,
        PlayerCategory::JuniorMale => crate::itsf::PlayerCategory::JuniorMale,
        PlayerCategory::JuniorFemale => crate::itsf::PlayerCategory::JuniorFemale,
        PlayerCategory::SeniorMale => crate::itsf::PlayerCategory::SeniorMale,
        PlayerCategory::SeniorFemale => crate::itsf::PlayerCategory::SeniorFemale,
    }
}

impl PlayerCategory {
    /// Parses a category label; anything but the six labels is an error naming the input.
    pub fn try_from_str(category: &str) -> (r: Result<PlayerCategory, String>)
        ensures
            match r {
                Ok(c) => category_of_label(category@) == Some(as_itsf(c)),
                Err(e) => category_of_label(category@).is_none()
                    && e@ == "invalid category: '"@ + category@ + "'"@,
            },
    {
        if str_equals(category, "MEN") {
            Ok(PlayerCategory::Men)
        } else if str_equals(category, "WOMEN") {
            Ok(PlayerCategory::Women)
        } else if str_equals(category, "JUNIOR MALE") {
            Ok(PlayerCategory::JuniorMale)
        } else if str_equals(category, "JUNIOR FEMALE") {
            Ok(PlayerCategory::JuniorFemale)
        } else if str_equals(category, "SENIOR MALE") {
            Ok(PlayerCategory::SeniorMale)
        } else if str_equals(category, "SENIOR FEMALE") {
            Ok(PlayerCategory::SeniorFemale)
        } else {
            Err(concat3("invalid category: '", category, "'"))
        }
    }

    pub fn to_str(&self) -> (r: &'static str)
        ensures
            r@ == category_label(as_itsf(*self)),
    {
        match *self {
            PlayerCategory::Men => "MEN",
            PlayerCategory::Women => "WOMEN",
            PlayerCategory::JuniorMale => "JUNIOR MALE",
            PlayerCategory::JuniorFemale => "JUNIOR FEMALE",
            PlayerCategory::SeniorMale => "SENIOR MALE",
            PlayerCategory::SeniorFemale => "SENIOR FEMALE",
        }
    }

    pub fn to_code(&self) -> (r: i32)
        ensures
            r == category_code(*self),
    {
        match *self {
            PlayerCategory::Men => 0,
            PlayerCategory::Women => 1,
            PlayerCategory::JuniorMale => 2,
            PlayerCategory::JuniorFemale => 3,
            PlayerCategory::SeniorMale => 4,
            PlayerCategory::SeniorFemale => 5,
        }
    }

    /// The category with integer code `code`, if there is one.
    pub fn try_from_code(code: i32) -> (r: Option<PlayerCategory>)
        ensures
            match r {
                Some(c) => category_code(c) == code,
                None => !(0 <= code < 6),
            },
    {
        if code == 0 {
            Some(PlayerCategory::Men)
        } else if code == 1 {
            Some(PlayerCategory::Women)
        } else if code == 2 {
            Some(PlayerCategory::JuniorMale)
        } else if code == 3 {
            Some(PlayerCategory::JuniorFemale)
        } else if code == 4 {
            Some(PlayerCategory::SeniorMale)
        } else if code == 5 {
            Some(PlayerCategory::SeniorFemale)
        } else {
            None
        }
    }
}

#[derive(Debug, Clone, Copy, PartialEq, Eq, Structural)]
pub enum ItsfRankingCategory {
    Open,
    Women,
    Junior,
    Senior,
}

impl ItsfRankingCategory {
    pub fn to_str(&self) -> (r: &'static str)
        ensures
            r@ == match *self {
                ItsfRankingCategory::Open => "open"@,
                ItsfRankingCategory::Women => "women"@,
                ItsfRankingCategory::Junior => "junior"@,
                ItsfRankingCategory::Senior => "senior"@,
            },
    {
        match *self {
            ItsfRankingCategory::Open => "open",
            ItsfRankingCategory::Women => "women",
            ItsfRankingCategory::Junior => "junior",
            ItsfRankingCategory::Senior => "senior",
        }
    }
}

#[derive(Debug, Clone, Copy, PartialEq, Eq, Structural)]
pub enum ItsfRankingClass {
    Singles,
    Doubles,
    Combined,
}

impl ItsfRankingClass {
    pub fn to_str(&self) -> (r: &'static str)
        ensures
            r@ == match *self {
                ItsfRankingClass::Singles => "singles"@,
                ItsfRankingClass::Doubles => "doubles"@,
                ItsfRankingClass::Combined => "combined"@,
            },
    {
        match *self {
            ItsfRankingClass::Singles => "singles",
            ItsfRankingClass::Doubles => "doubles",
            ItsfRankingClass::Combined => "combined",
        }
    }
}

/// A player row of the relational schema.
#[derive(Debug)]
pub struct Player {
    pub itsf_id: i32,
    pub first_name: String,
    pub last_name: String,
    pub dtfb_license: Option<String>,
    pub birth_year: i32,
    pub country_code: Option<String>,
    pub category: i32,
}

/// A player photo row of the relational schema.
#[derive(Debug)]
pub struct PlayerImage {
    pub itsf_id: i32,
    pub image_data: Vec<u8>,
    pub image_format: Option<String>,
}

/// One place of one stored ranking list.
#[derive(Debug, Clone, Copy, PartialEq, Eq, Structural)]
pub struct ItsfRankingEntry {
    pub itsf_ranking_id: i32,
    pub place: i32,
    pub player_itsf_id: i32,
}

/// A place in a ranking list, with the player's license number as text.
#[derive(Debug)]
pub struct Placement {
    pub place: u32,
    pub lic: String,
}

} // verus!
