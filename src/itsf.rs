use vstd::prelude::*;
use crate::entry::{KeyedEntry, upserted, without_key};
use crate::text::{concat3, str_equals};

verus! {

/// Category under which the international federation lists a player.
#[derive(Debug, Clone, Copy, PartialEq, Eq, Structural)]
pub enum PlayerCategory {
    Men,
    Women,
    JuniorMale,
    JuniorFemale,
    SeniorMale,
    SeniorFemale,
}

/// The label the federation's profile pages use for each category.
pub open spec fn category_label(c: PlayerCategory) -> Seq<char> {
    match c {
        PlayerCategory::Men => "MEN"@,
        PlayerCategory::Women => "WOMEN"@,
        PlayerCategory::JuniorMale => "JUNIOR MALE"@,
        PlayerCategory::JuniorFemale => "JUNIOR FEMALE"@,
        PlayerCategory::SeniorMale => "SENIOR MALE"@,
        PlayerCategory::SeniorFemale => "SENIOR FEMALE"@,
    }
}

/// The category whose label is exactly `s`, if any.
pub open spec fn category_of_label(s: Seq<char>) -> Option<PlayerCategory> {
    if s == "MEN"@ {
        Some(PlayerCategory::Men)
    } else if s == "WOMEN"@ {
        Some(PlayerCategory::Women)
    } else if s == "JUNIOR MALE"@ {
        Some(PlayerCategory::JuniorMale)
    } else if s == "JUNIOR FEMALE"@ {
        Some(PlayerCategory::JuniorFemale)
    } else if s == "SENIOR MALE"@ {
        Some(PlayerCategory::SeniorMale)
    } else if s == "SENIOR FEMALE"@ {
        Some(PlayerCategory::SeniorFemale)
    } else {
        None
    }
}

impl PlayerCategory {
    /// Parses a category label; anything but the six labels is an error naming the input.
    pub fn try_from_str(category: &str) -> (r: Result<Self, String>)
        ensures
            match r {
                Ok(c) => category_of_label(category@) == Some(c),
                Err(e) => category_of_label(category@).is_none()
                    && e@ == "invalid category: '"@ + category@ + "'"@,
            },
    {
        if str_equals(category, "MEN") {
            Ok(PlayerCategory::Men)
        } else if str_equals(category, "WOMEN") {
            Ok(PlayerCategory::Women)
        } else if str_equals(category, "JUNIOR MALE") {
            Ok(PlayerCategory::JuniorMale)
        } else if str_equals(category, "JUNIOR FEMALE") {
            Ok(PlayerCategory::JuniorFemale)
        } else if str_equals(category, "SENIOR MALE") {
            Ok(PlayerCategory::SeniorMale)
        } else if str_equals(category, "SENIOR FEMALE") {
            Ok(PlayerCategory::SeniorFemale)
        } else {
            Err(concat3("invalid category: '", category, "'"))
        }
    }

    pub fn to_str(&self) -> (r: &'static str)
        ensures
            r@ == category_label(*self),
    {
        match *self {
            PlayerCategory::Men => "MEN",
            PlayerCategory::Women => "WOMEN",
            PlayerCategory::JuniorMale => "JUNIOR MALE",
            PlayerCategory::JuniorFemale => "JUNIOR FEMALE",
            PlayerCategory::SeniorMale => "SENIOR MALE",
            PlayerCategory::SeniorFemale => "SENIOR FEMALE",
        }
    }
}

/// Every label parses back to its own category.
pub proof fn lemma_category_label_round_trip(c: PlayerCategory)
    ensures
        category_of_label(category_label(c)) == Some(c),
{
    reveal_strlit("MEN");
    reveal_strlit("WOMEN");
    reveal_strlit("JUNIOR MALE");
    reveal_strlit("JUNIOR FEMALE");
    reveal_strlit("SENIOR MALE");
    reveal_strlit("SENIOR FEMALE");
    assert("MEN"@.len() == 3 && "WOMEN"@.len() == 5);
    assert("JUNIOR MALE"@.len() == 11 && "SENIOR MALE"@.len() == 11);
    assert("JUNIOR FEMALE"@.len() == 13 && "SENIOR FEMALE"@.len() == 13);
    assert("JUNIOR MALE"@[0] != "SENIOR MALE"@[0]);
    assert("JUNIOR FEMALE"@[0] != "SENIOR FEMALE"@[0]);
}

#[derive(Debug, Clone, Copy, PartialEq, Eq, Structural)]
pub enum RankingCategory {
    Open,
    Women,
    Junior,
    Senior,
}

#[derive(Debug, Clone, Copy, PartialEq, Eq, Structural)]
pub enum RankingClass {
    Singles,
    Doubles,
    Combined,
}

pub open spec fn ranking_category_label(c: RankingCategory) -> Seq<char> {
    match c {
        RankingCategory::Open => "Open"@,
        RankingCategory::Women => "Women"@,
        RankingCategory::Junior => "Junior"@,
        RankingCategory::Senior => "Senior"@,
    }
}

pub open spec fn ranking_class_label(c: RankingClass) -> Seq<char> {
    match c {
        RankingClass::Singles => "Singles"@,
        RankingClass::Doubles => "Doubles"@,
        RankingClass::Combined => "Combined"@,
    }
}

impl RankingCategory {
    pub fn label(&self) -> (r: &'static str)
        ensures
            r@ == ranking_category_label(*self),
    {
        match *self {
            RankingCategory::Open => "Open",
            RankingCategory::Women => "Women",
            RankingCategory::Junior => "Junior",
            RankingCategory::Senior => "Senior",
        }
    }
}

impl RankingClass {
    pub fn label(&self) -> (r: &'static str)
        ensures
            r@ == ranking_class_label(*self),
    {
        match *self {
            RankingClass::Singles => "Singles",
            RankingClass::Doubles => "Doubles",
            RankingClass::Combined => "Combined",
        }
    }
}

/// One placement of a player in an international ranking list.
/// Its key is (year, category, class).
#[derive(Debug, Clone, Copy, PartialEq, Eq, Structural)]
pub struct Ranking {
    pub year: i32,
    pub place: i32,
    pub category: RankingCategory,
    pub class: RankingClass,
}

impl Ranking {
    pub open spec fn same_key_as(self, other: Ranking) -> bool {
        self.year == other.year && self.category == other.category && self.class == other.class
    }

    pub fn matches(&self, other_ranking: &Self) -> (r: bool)
        ensures
            r == self.same_key_as(*other_ranking),
    {
        self.year == other_ranking.year && self.category == other_ranking.category
            && self.class == other_ranking.class
    }
}

impl KeyedEntry for Ranking {
    open spec fn same_key(&self, other: &Self) -> bool {
        self.same_key_as(*other)
    }

    fn key_matches(&self, other: &Self) -> (r: bool) {
        self.matches(other)
    }

    proof fn lemma_same_key_symmetric(&self, other: &Self) {
    }
}

/// No entry left by `without_key` shares `e`'s key.
proof fn lemma_without_key_drops_key(s: Seq<Ranking>, e: Ranking)
    ensures
        forall|i: int| 0 <= i < without_key(s, e).len() ==> !(#[trigger] without_key(s, e)[i]).same_key_as(e),
    decreases s.len(),
{
    if s.len() > 0 {
        lemma_without_key_drops_key(s.drop_first(), e);
        let rest = without_key(s.drop_first(), e);
        if !e.same_key(&s[0]) {
            assert forall|i: int| 0 <= i < without_key(s, e).len() implies !(#[trigger] without_key(s, e)[i]).same_key_as(e) by {
                if i > 0 {
                    assert(without_key(s, e)[i] == rest[i - 1]);
                }
            }
        }
    }
}

/// After an upsert the new entry is the only one with its key, and it is last.
pub proof fn lemma_upsert_single_entry_per_key(s: Seq<Ranking>, e: Ranking)
    ensures
        upserted(s, e).last() == e,
        forall|i: int| 0 <= i < upserted(s, e).len() - 1 ==> !(#[trigger] upserted(s, e)[i]).same_key_as(e),
{
    lemma_without_key_drops_key(s, e);
    assert forall|i: int| 0 <= i < upserted(s, e).len() - 1 implies !(#[trigger] upserted(s, e)[i]).same_key_as(e) by {
        assert(upserted(s, e)[i] == without_key(s, e)[i]);
    }
}

/// Upserting two entries with the same key, one after the other, leaves exactly
/// one entry with that key: the later one, with its place.
pub proof fn lemma_latest_upsert_wins(s: Seq<Ranking>, first: Ranking, second: Ranking)
    requires
        first.same_key_as(second),
    ensures
        upserted(upserted(s, first), second).last() == second,
        forall|i: int| 0 <= i < upserted(upserted(s, first), second).len() ==>
            (#[trigger] upserted(upserted(s, first), second)[i]).same_key_as(second)
                ==> i == upserted(upserted(s, first), second).len() - 1,
{
    lemma_upsert_single_entry_per_key(upserted(s, first), second);
}

proof fn lemma_without_key_push(s: Seq<Ranking>, a: Ranking, e: Ranking)
    ensures
        without_key(s.push(a), e) == if e.same_key_as(a) {
            without_key(s, e)
        } else {
            without_key(s, e).push(a)
        },
    decreases s.len(),
{
    if s.len() == 0 {
        assert(s.push(a).drop_first() =~= s);
        assert(seq![a] + Seq::<Ranking>::empty() =~= Seq::<Ranking>::empty().push(a));
    } else {
        assert(s.push(a).drop_first() =~= s.drop_first().push(a));
        lemma_without_key_push(s.drop_first(), a, e);
        if e.same_key_as(a) {
        } else {
            assert(seq![s[0]] + without_key(s.drop_first(), e).push(a) =~= (seq![s[0]] + without_key(s.drop_first(), e)).push(a));
        }
    }
}

proof fn lemma_without_key_same_key(s: Seq<Ranking>, e1: Ranking, e2: Ranking)
    requires
        e1.same_key_as(e2),
    ensures
        without_key(s, e1) == without_key(s, e2),
    decreases s.len(),
{
    if s.len() > 0 {
        lemma_without_key_same_key(s.drop_first(), e1, e2);
    }
}

proof fn lemma_without_key_idempotent(s: Seq<Ranking>, e: Ranking)
    ensures
        without_key(without_key(s, e), e) == without_key(s, e),
    decreases s.len(),
{
    if s.len() > 0 {
        lemma_without_key_idempotent(s.drop_first(), e);
        if !e.same_key_as(s[0]) {
            let w = without_key(s, e);
            assert(w[0] == s[0]);
            assert(w.drop_first() =~= without_key(s.drop_first(), e));
        }
    }
}

/// An upsert replaces the effect of an earlier upsert with the same key.
pub proof fn lemma_upsert_absorbs(s: Seq<Ranking>, first: Ranking, second: Ranking)
    requires
        first.same_key_as(second),
    ensures
        upserted(upserted(s, first), second) == upserted(s, second),
{
    lemma_without_key_push(without_key(s, first), first, second);
    lemma_without_key_same_key(s, first, second);
    lemma_without_key_idempotent(s, second);
}

} // verus!
