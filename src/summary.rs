use vstd::prelude::*;
use crate::dtfb::{NationalChampionshipResult, NationalRanking, NationalTeam};
use crate::itsf::{Ranking, RankingClass};
use crate::store::{Player, PlayerComment};
use crate::text::{decimal, decimal_text};

verus! {

/// An entry that belongs to a season.
pub trait Seasonal: Sized {
    spec fn season(&self) -> i32;

    fn get_season(&self) -> (r: i32)
        ensures
            r == self.season(),
    ;
}

impl Seasonal for Ranking {
    open spec fn season(&self) -> i32 {
        self.year
    }

    fn get_season(&self) -> (r: i32) {
        self.year
    }
}

impl Seasonal for NationalRanking {
    open spec fn season(&self) -> i32 {
        self.year
    }

    fn get_season(&self) -> (r: i32) {
        self.year
    }
}

impl Seasonal for NationalChampionshipResult {
    open spec fn season(&self) -> i32 {
        self.year
    }

    fn get_season(&self) -> (r: i32) {
        self.year
    }
}

impl Seasonal for NationalTeam {
    open spec fn season(&self) -> i32 {
        self.year
    }

    fn get_season(&self) -> (r: i32) {
        self.year
    }
}

/// Where `x` goes in a list ordered newest season first: after every entry
/// of the same season or a later one.
pub open spec fn slot_newest_first<T: Seasonal>(s: Seq<T>, x: T) -> int
    decreases s.len(),
{
    if s.len() == 0 || s[0].season() < x.season() {
        0
    } else {
        1 + slot_newest_first(s.drop_first(), x)
    }
}

/// `s` ordered newest season first; entries of one season keep their order.
pub open spec fn newest_first<T: Seasonal>(s: Seq<T>) -> Seq<T>
    decreases s.len(),
{
    if s.len() == 0 {
        s
    } else {
        let sorted = newest_first(s.drop_last());
        sorted.insert(slot_newest_first(sorted, s.last()), s.last())
    }
}

proof fn lemma_slot_bounds<T: Seasonal>(s: Seq<T>, x: T)
    ensures
        0 <= slot_newest_first(s, x) <= s.len(),
    decreases s.len(),
{
    if s.len() > 0 && s[0].season() >= x.season() {
        lemma_slot_bounds(s.drop_first(), x);
    }
}

proof fn lemma_newest_first_len<T: Seasonal>(s: Seq<T>)
    ensures
        newest_first(s).len() == s.len(),
    decreases s.len(),
{
    if s.len() > 0 {
        lemma_newest_first_len(s.drop_last());
        lemma_slot_bounds(newest_first(s.drop_last()), s.last());
    }
}

/// No entry comes before one of a later season.
pub open spec fn is_newest_first<T: Seasonal>(s: Seq<T>) -> bool {
    forall|i: int, j: int| #![trigger s[i], s[j]] 0 <= i < j < s.len() ==> s[i].season() >= s[j].season()
}

proof fn lemma_slot_facts<T: Seasonal>(s: Seq<T>, x: T)
    requires
        is_newest_first(s),
    ensures
        forall|k: int| 0 <= k < slot_newest_first(s, x) ==> (#[trigger] s[k]).season() >= x.season(),
        forall|k: int| slot_newest_first(s, x) <= k < s.len() ==> (#[trigger] s[k]).season() < x.season(),
    decreases s.len(),
{
    lemma_slot_bounds(s, x);
    if s.len() > 0 && s[0].season() >= x.season() {
        let t = s.drop_first();
        assert(is_newest_first(t)) by {
            assert forall|i: int, j: int| #![trigger t[i], t[j]] 0 <= i < j < t.len() implies t[i].season() >= t[j].season() by {
                assert(t[i] == s[i + 1] && t[j] == s[j + 1]);
            }
        }
        lemma_slot_facts(t, x);
        assert forall|k: int| 0 <= k < slot_newest_first(s, x) implies (#[trigger] s[k]).season() >= x.season() by {
            if k > 0 {
                assert(s[k] == t[k - 1]);
            }
        }
        assert forall|k: int| slot_newest_first(s, x) <= k < s.len() implies (#[trigger] s[k]).season() < x.season() by {
            assert(s[k] == t[k - 1]);
        }
    } else if s.len() > 0 {
        assert forall|k: int| 0 <= k < s.len() implies (#[trigger] s[k]).season() < x.season() by {
            if k > 0 {
                assert(s[0].season() >= s[k].season());
            }
        }
    }
}

/// The stable order is newest season first and holds the same entries.
pub proof fn lemma_newest_first_sorted<T: Seasonal>(s: Seq<T>)
    ensures
        is_newest_first(newest_first(s)),
        newest_first(s).to_multiset() == s.to_multiset(),
    decreases s.len(),
{
    broadcast use vstd::seq_lib::to_multiset_insert, vstd::seq_lib::to_multiset_build;

    if s.len() == 0 {
    } else {
        let d = s.drop_last();
        let x = s.last();
        lemma_newest_first_sorted(d);
        let sorted = newest_first(d);
        let p = slot_newest_first(sorted, x);
        lemma_slot_facts(sorted, x);
        lemma_slot_bounds(sorted, x);
        let r = sorted.insert(p, x);
        assert forall|i: int, j: int| #![trigger r[i], r[j]] 0 <= i < j < r.len() implies r[i].season() >= r[j].season() by {
            if j < p {
                assert(r[i] == sorted[i] && r[j] == sorted[j]);
            } else if j == p {
                assert(r[i] == sorted[i]);
            } else if i < p {
                assert(r[i] == sorted[i] && r[j] == sorted[j - 1]);
            } else if i == p {
                assert(r[j] == sorted[j - 1]);
            } else {
                assert(r[i] == sorted[i - 1] && r[j] == sorted[j - 1]);
            }
        }
        assert(s =~= d.push(x));
    }
}

/// Orders a list newest season first, keeping the order within a season.
pub fn sort_newest_first<T: Seasonal>(list: Vec<T>) -> (r: Vec<T>)
    ensures
        r@ == newest_first(list@),
        is_newest_first(r@),
        r@.to_multiset() == list@.to_multiset(),
{
    proof {
        lemma_newest_first_sorted(list@);
    }
    let mut list = list;
    let ghost all = list@;
    let mut sorted: Vec<T> = Vec::new();
    let mut taken: usize = 0;
    let n = list.len();
    assert(all.take(0) =~= Seq::<T>::empty());
    assert(all.skip(0) =~= all);
    while list.len() > 0
        invariant
            all.len() == n,
            sorted@ == newest_first(all.take(taken as int)),
            list@ == all.skip(taken as int),
            taken <= all.len(),
        decreases list@.len(),
    {
        let x = list.remove(0);
        let ghost sx = sorted@;
        proof {
            lemma_newest_first_len(all.take(taken as int));
        }
        let mut p: usize = 0;
        assert(sx.skip(0) =~= sx);
        while p < sorted.len() && sorted[p].get_season() >= x.get_season()
            invariant
                sorted@ == sx,
                p <= sx.len(),
                slot_newest_first(sx, x) == p + slot_newest_first(sx.skip(p as int), x),
            decreases sx.len() - p,
        {
            assert(sx.skip(p as int).drop_first() =~= sx.skip(p + 1));
            p = p + 1;
        }
        proof {
            assert(slot_newest_first(sx.skip(p as int), x) == 0);
            assert(all.take(taken + 1).drop_last() =~= all.take(taken as int));
            assert(all.take(taken + 1).last() == x);
        }
        sorted.insert(p, x);
        taken = taken + 1;
        assert(list@ =~= all.skip(taken as int));
    }
    assert(all.take(taken as int) =~= all);
    sorted
}

/// The rankings without those of the combined class, order kept.
pub open spec fn without_combined(s: Seq<Ranking>) -> Seq<Ranking>
    decreases s.len(),
{
    if s.len() == 0 {
        s
    } else {
        let rest = without_combined(s.drop_first());
        if s[0].class == RankingClass::Combined {
            rest
        } else {
            seq![s[0]] + rest
        }
    }
}

pub fn drop_combined(list: Vec<Ranking>) -> (r: Vec<Ranking>)
    ensures
        r@ == without_combined(list@),
{
    let mut kept: Vec<Ranking> = Vec::new();
    let mut i: usize = 0;
    assert(list@.skip(0) =~= list@);
    while i < list.len()
        invariant
            i <= list@.len(),
            kept@ + without_combined(list@.skip(i as int)) == without_combined(list@),
        decreases list@.len() - i,
    {
        let ghost before = kept@;
        assert(list@.skip(i as int).drop_first() =~= list@.skip(i + 1));
        if list[i].class != RankingClass::Combined {
            kept.push(list[i]);
            assert(kept@ + without_combined(list@.skip(i + 1)) =~= before + without_combined(list@.skip(i as int)));
        }
        i = i + 1;
    }
    assert(without_combined(list@.skip(i as int)) =~= Seq::<Ranking>::empty());
    assert(kept@ =~= kept@ + Seq::<Ranking>::empty());
    kept
}

/// A player's record as the player page shows it.
#[derive(Debug)]
pub struct PlayerSummary {
    pub first_name: String,
    pub last_name: String,
    pub birth_year: i32,
    pub country_code: String,
    pub image_url: String,
    pub itsf_rankings: Vec<Ranking>,
    pub dtfb_rankings: Vec<NationalRanking>,
    pub dm_placements: Vec<NationalChampionshipResult>,
    pub dtfl_teams: Vec<NationalTeam>,
    pub comment: String,
}

pub open spec fn image_url_of(itsf_id: i32) -> Seq<char> {
    "/image/"@ + decimal(itsf_id as int) + ".jpg"@
}

/// The text of the latest comment, or nothing.
pub open spec fn latest_comment(comments: Seq<PlayerComment>) -> Seq<char> {
    if comments.len() == 0 {
        Seq::empty()
    } else {
        comments.last().text@
    }
}

/// The player page: combined-class rankings left out, every list newest
/// season first, a missing country code shown empty, and the latest comment.
pub fn summarize_player(player: Player) -> (r: PlayerSummary)
    ensures
        r.first_name@ == player.first_name@,
        r.last_name@ == player.last_name@,
        r.birth_year == player.birth_year,
        r.country_code@ == match player.country_code {
            Some(c) => c@,
            None => Seq::empty(),
        },
        r.image_url@ == image_url_of(player.itsf_id),
        r.itsf_rankings@ == newest_first(without_combined(player.itsf_rankings@)),
        r.dtfb_rankings@ == newest_first(player.dtfb_national_rankings@),
        r.dm_placements@ == newest_first(player.dtfb_championship_results@),
        r.dtfl_teams@ == newest_first(player.dtfb_league_teams@),
        r.comment@ == latest_comment(player.comments@),
{
    let mut image_url = String::from_str("/image/");
    let id = decimal_text(player.itsf_id as i128);
    image_url.append(id.as_str());
    image_url.append(".jpg");
    let comment = if player.comments.len() > 0 {
        player.comments[player.comments.len() - 1].text.clone()
    } else {
        String::new()
    };
    let country_code = match player.country_code {
        Some(c) => c,
        None => String::new(),
    };
    PlayerSummary {
        first_name: player.first_name,
        last_name: player.last_name,
        birth_year: player.birth_year,
        country_code,
        image_url,
        itsf_rankings: sort_newest_first(drop_combined(player.itsf_rankings)),
        dtfb_rankings: sort_newest_first(player.dtfb_national_rankings),
        dm_placements: sort_newest_first(player.dtfb_championship_results),
        dtfl_teams: sort_newest_first(player.dtfb_league_teams),
        comment,
    }
}

} // verus!
