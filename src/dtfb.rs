use vstd::prelude::*;
use crate::entry::KeyedEntry;

verus! {

/// Category of a national championship or national ranking.
#[derive(Debug, Clone, Copy, PartialEq, Eq, Structural)]
pub enum ChampionshipCategory {
    Men,
    Women,
    Junior,
    Senior,
}

#[derive(Debug, Clone, Copy, PartialEq, Eq, Structural)]
pub enum ChampionshipClass {
    Singles,
    Doubles,
}

/// A placement at a national championship. Its key is (year, category, class).
#[derive(Debug, Clone, Copy, PartialEq, Eq, Structural)]
pub struct NationalChampionshipResult {
    pub year: i32,
    pub place: i32,
    pub category: ChampionshipCategory,
    pub class: ChampionshipClass,
}

impl NationalChampionshipResult {
    pub open spec fn same_key_as(self, other: NationalChampionshipResult) -> bool {
        self.year == other.year && self.category == other.category && self.class == other.class
    }

    pub fn matches(&self, other_ranking: &Self) -> (r: bool)
        ensures
            r == self.same_key_as(*other_ranking),
    {
        self.year == other_ranking.year && self.category == other_ranking.category
            && self.class == other_ranking.class
    }
}

impl KeyedEntry for NationalChampionshipResult {
    open spec fn same_key(&self, other: &Self) -> bool {
        self.same_key_as(*other)
    }

    fn key_matches(&self, other: &Self) -> (r: bool) {
        self.matches(other)
    }

    proof fn lemma_same_key_symmetric(&self, other: &Self) {
    }
}

/// A place in a national ranking list. Its key is (year, category).
#[derive(Debug, Clone, Copy, PartialEq, Eq, Structural)]
pub struct NationalRanking {
    pub year: i32,
    pub place: i32,
    pub category: ChampionshipCategory,
}

impl NationalRanking {
    pub open spec fn same_key_as(self, other: NationalRanking) -> bool {
        self.year == other.year && self.category == other.category
    }

    pub fn matches(&self, other_ranking: &Self) -> (r: bool)
        ensures
            r == self.same_key_as(*other_ranking),
    {
        self.year == other_ranking.year && self.category == other_ranking.category
    }
}

impl KeyedEntry for NationalRanking {
    open spec fn same_key(&self, other: &Self) -> bool {
        self.same_key_as(*other)
    }

    fn key_matches(&self, other: &Self) -> (r: bool) {
        self.matches(other)
    }

    proof fn lemma_same_key_symmetric(&self, other: &Self) {
    }
}

/// The league team a player played for in one season. Its key is the year.
#[derive(Debug)]
pub struct NationalTeam {
    pub year: i32,
    pub name: String,
}

impl Clone for NationalTeam {
    fn clone(&self) -> (r: Self)
        ensures
            r == *self,
    {
        NationalTeam { year: self.year, name: self.name.clone() }
    }
}

impl KeyedEntry for NationalTeam {
    open spec fn same_key(&self, other: &Self) -> bool {
        self.year == other.year
    }

    fn key_matches(&self, other: &Self) -> (r: bool) {
        self.year == other.year
    }

    proof fn lemma_same_key_symmetric(&self, other: &Self) {
    }
}

} // verus!
