use vstd::prelude::*;
use std::collections::HashSet;
use crate::dtfb::{ChampionshipCategory, ChampionshipClass, NationalChampionshipResult, NationalRanking, NationalTeam};
use crate::store::{
    DatabaseRef, PlayerView, update_player, with_championship_result, with_dtfb_id, with_national_ranking,
    with_team,
};

verus! {

broadcast use vstd::std_specs::hash::group_hash_axioms;

/// A national ranking place as the national federation reports it.
#[derive(Debug, Clone, Copy, PartialEq, Eq, Structural)]
pub struct DtfbNationalRanking {
    pub year: i32,
    pub place: i32,
    pub category: ChampionshipCategory,
}

/// A national championship placement as the national federation reports it.
#[derive(Debug, Clone, Copy, PartialEq, Eq, Structural)]
pub struct DtfbChampionshipResult {
    pub year: i32,
    pub place: i32,
    pub category: ChampionshipCategory,
    pub class: ChampionshipClass,
}

/// What the national federation knows of one player.
#[derive(Debug)]
pub struct DtfbPlayerInfo {
    pub dtfb_id: i32,
    pub itsf_id: i32,
    pub championship_results: Vec<DtfbChampionshipResult>,
    pub national_rankings: Vec<DtfbNationalRanking>,
    pub teams: Vec<(i32, String)>,
}

/// Each distinct id of `s` once, in order of first occurrence.
pub open spec fn first_occurrences(s: Seq<i32>) -> Seq<i32>
    decreases s.len(),
{
    if s.len() == 0 {
        s
    } else {
        let before = first_occurrences(s.drop_last());
        if before.contains(s.last()) {
            before
        } else {
            before.push(s.last())
        }
    }
}

/// Each distinct id of `ids` once, in order of first occurrence.
pub fn unique_ids(ids: &Vec<i32>) -> (r: Vec<i32>)
    ensures
        r@ == first_occurrences(ids@),
        r@.no_duplicates(),
        forall|x: i32| r@.contains(x) <==> ids@.contains(x),
{
    let mut seen: HashSet<i32> = HashSet::new();
    let mut r: Vec<i32> = Vec::new();
    let mut i: usize = 0;
    while i < ids.len()
        invariant
            i <= ids@.len(),
            r@ == first_occurrences(ids@.take(i as int)),
            r@.no_duplicates(),
            forall|x: i32| seen@.contains(x) <==> r@.contains(x),
            forall|x: i32| r@.contains(x) <==> ids@.take(i as int).contains(x),
        decreases ids@.len() - i,
    {
        let id = ids[i];
        let ghost before = r@;
        let ghost seen_before = seen@;
        if seen.insert(id) {
            r.push(id);
            proof {
                assert forall|a: int, b: int| 0 <= a < r@.len() && 0 <= b < r@.len() && a != b
                    implies r@[a] != r@[b] by {
                    if a < before.len() && b < before.len() {
                        assert(before[a] != before[b]);
                    } else if a < before.len() {
                        assert(before.contains(before[a]));
                    } else {
                        assert(before.contains(before[b]));
                    }
                }
            }
        }
        proof {
            assert forall|x: i32| r@.contains(x) <==> (before.contains(x) || x == id) by {
                if r@.contains(x) && x != id && r@ != before {
                    let k = choose|k: int| 0 <= k < r@.len() && r@[k] == x;
                    assert(before[k] == x);
                }
                if x == id && r@ != before {
                    assert(r@[before.len() as int] == id);
                }
                if before.contains(x) && r@ != before {
                    let k = choose|k: int| 0 <= k < before.len() && before[k] == x;
                    assert(r@[k] == x);
                }
            }
            if r@ == before {
                assert(seen_before.contains(id));
                assert(before.contains(id));
            }
            let t0 = ids@.take(i as int);
            let t1 = ids@.take(i + 1);
            assert forall|x: i32| t1.contains(x) <==> (t0.contains(x) || x == id) by {
                if t1.contains(x) && x != id {
                    let k = choose|k: int| 0 <= k < t1.len() && t1[k] == x;
                    assert(t0[k] == x);
                }
                if x == id {
                    assert(t1[i as int] == id);
                }
                if t0.contains(x) {
                    let k = choose|k: int| 0 <= k < t0.len() && t0[k] == x;
                    assert(t1[k] == x);
                }
            }
            assert forall|x: i32| r@.contains(x) <==> t1.contains(x) by {
                assert(before.contains(x) <==> t0.contains(x));
            }
            assert(t1.drop_last() =~= t0);
        }
        i = i + 1;
    }
    assert(ids@.take(ids@.len() as int) =~= ids@);
    r
}

pub open spec fn championship_entry(r: DtfbChampionshipResult) -> NationalChampionshipResult {
    NationalChampionshipResult { year: r.year, place: r.place, category: r.category, class: r.class }
}

pub open spec fn national_entry(r: DtfbNationalRanking) -> NationalRanking {
    NationalRanking { year: r.year, place: r.place, category: r.category }
}

pub open spec fn results_applied(m: Map<i32, PlayerView>, id: i32, s: Seq<DtfbChampionshipResult>) -> Map<i32, PlayerView>
    decreases s.len(),
{
    if s.len() == 0 {
        m
    } else {
        let before = results_applied(m, id, s.drop_last());
        update_player(before, id, with_championship_result(before[id], championship_entry(s.last())))
    }
}

pub open spec fn national_applied(m: Map<i32, PlayerView>, id: i32, s: Seq<DtfbNationalRanking>) -> Map<i32, PlayerView>
    decreases s.len(),
{
    if s.len() == 0 {
        m
    } else {
        let before = national_applied(m, id, s.drop_last());
        update_player(before, id, with_national_ranking(before[id], national_entry(s.last())))
    }
}

pub open spec fn teams_applied(m: Map<i32, PlayerView>, id: i32, s: Seq<(i32, String)>) -> Map<i32, PlayerView>
    decreases s.len(),
{
    if s.len() == 0 {
        m
    } else {
        let before = teams_applied(m, id, s.drop_last());
        update_player(before, id, with_team(before[id], NationalTeam { year: s.last().0, name: s.last().1 }))
    }
}

/// The store after merging one national record: the cross-reference id is
/// set, then each championship result, national ranking and league team is
/// upserted in order. A player without a record is passed over.
pub open spec fn dtfb_applied(
    m: Map<i32, PlayerView>,
    itsf_id: i32,
    dtfb_id: i32,
    results: Seq<DtfbChampionshipResult>,
    rankings: Seq<DtfbNationalRanking>,
    teams: Seq<(i32, String)>,
) -> Map<i32, PlayerView> {
    let m1 = update_player(m, itsf_id, with_dtfb_id(m[itsf_id], dtfb_id));
    teams_applied(national_applied(results_applied(m1, itsf_id, results), itsf_id, rankings), itsf_id, teams)
}

/// Merges what the national federation reports of one player into that
/// player's record.
pub fn apply_dtfb_player(store: &mut DatabaseRef, info: &DtfbPlayerInfo)
    requires
        old(store).wf(),
    ensures
        final(store).wf(),
        final(store)@ == dtfb_applied(
            old(store)@,
            info.itsf_id,
            info.dtfb_id,
            info.championship_results@,
            info.national_rankings@,
            info.teams@,
        ),
{
    let id = info.itsf_id;
    store.set_player_dtfb_id(id, info.dtfb_id);
    let ghost m1 = store@;
    let mut i: usize = 0;
    while i < info.championship_results.len()
        invariant
            store.wf(),
            i <= info.championship_results@.len(),
            store@ == results_applied(m1, id, info.championship_results@.take(i as int)),
        decreases info.championship_results@.len() - i,
    {
        let r = info.championship_results[i];
        store.add_player_dtfb_championship_result(
            id,
            NationalChampionshipResult { year: r.year, place: r.place, category: r.category, class: r.class },
        );
        i = i + 1;
        assert(info.championship_results@.take(i as int).drop_last() =~= info.championship_results@.take(i - 1));
    }
    assert(info.championship_results@.take(i as int) =~= info.championship_results@);
    let ghost m2 = store@;
    let mut j: usize = 0;
    while j < info.national_rankings.len()
        invariant
            store.wf(),
            j <= info.national_rankings@.len(),
            store@ == national_applied(m2, id, info.national_rankings@.take(j as int)),
        decreases info.national_rankings@.len() - j,
    {
        let r = info.national_rankings[j];
        store.add_player_dtfb_ranking(id, NationalRanking { year: r.year, place: r.place, category: r.category });
        j = j + 1;
        assert(info.national_rankings@.take(j as int).drop_last() =~= info.national_rankings@.take(j - 1));
    }
    assert(info.national_rankings@.take(j as int) =~= info.national_rankings@);
    let ghost m3 = store@;
    let mut k: usize = 0;
    while k < info.teams.len()
        invariant
            store.wf(),
            k <= info.teams@.len(),
            store@ == teams_applied(m3, id, info.teams@.take(k as int)),
        decreases info.teams@.len() - k,
    {
        let year = info.teams[k].0;
        let name = info.teams[k].1.clone();
        store.add_player_dtfb_team(id, year, name);
        k = k + 1;
        assert(info.teams@.take(k as int).drop_last() =~= info.teams@.take(k - 1));
    }
    assert(info.teams@.take(k as int) =~= info.teams@);
}

} // verus!
