use vstd::prelude::*;
use crate::itsf::{RankingCategory, RankingClass, Ranking, lemma_upsert_absorbs, lemma_upsert_single_entry_per_key};
use crate::national::{first_occurrences, unique_ids};
use crate::entry::lemma_upsert_keeps_keys_unique;
use crate::store::{DatabaseRef, PlayerView, entries_unique, update_player, with_itsf_ranking};

verus! {

/// One (year, category, class) combination, fetched and merged as a whole.
#[derive(Debug, Clone, Copy, PartialEq, Eq, Structural)]
pub struct RankingUnit {
    pub year: i32,
    pub category: RankingCategory,
    pub class: RankingClass,
}

/// The units of one year and category, one per class, in the order of `classes`.
pub open spec fn class_units(year: i32, category: RankingCategory, classes: Seq<RankingClass>) -> Seq<RankingUnit>
    decreases classes.len(),
{
    if classes.len() == 0 {
        Seq::empty()
    } else {
        class_units(year, category, classes.drop_last()).push(
            RankingUnit { year, category, class: classes.last() },
        )
    }
}

pub open spec fn year_units(year: i32, categories: Seq<RankingCategory>, classes: Seq<RankingClass>) -> Seq<RankingUnit>
    decreases categories.len(),
{
    if categories.len() == 0 {
        Seq::empty()
    } else {
        year_units(year, categories.drop_last(), classes) + class_units(year, categories.last(), classes)
    }
}

/// The outer product years x categories x classes, years outermost.
pub open spec fn all_units(years: Seq<i32>, categories: Seq<RankingCategory>, classes: Seq<RankingClass>) -> Seq<RankingUnit>
    decreases years.len(),
{
    if years.len() == 0 {
        Seq::empty()
    } else {
        all_units(years.drop_last(), categories, classes) + year_units(years.last(), categories, classes)
    }
}

/// Lists every (year, category, class) combination, years outermost and classes innermost.
pub fn ranking_units(years: &Vec<i32>, categories: &Vec<RankingCategory>, classes: &Vec<RankingClass>) -> (r: Vec<RankingUnit>)
    ensures
        r@ == all_units(years@, categories@, classes@),
{
    let mut r: Vec<RankingUnit> = Vec::new();
    let mut i: usize = 0;
    while i < years.len()
        invariant
            i <= years@.len(),
            r@ == all_units(years@.take(i as int), categories@, classes@),
        decreases years@.len() - i,
    {
        let year = years[i];
        let ghost before_year = r@;
        let mut j: usize = 0;
        while j < categories.len()
            invariant
                i < years@.len(),
                year == years@[i as int],
                j <= categories@.len(),
                r@ == before_year + year_units(year, categories@.take(j as int), classes@),
            decreases categories@.len() - j,
        {
            let category = categories[j];
            let ghost before_category = r@;
            let mut k: usize = 0;
            while k < classes.len()
                invariant
                    j < categories@.len(),
                    category == categories@[j as int],
                    k <= classes@.len(),
                    r@ == before_category + class_units(year, category, classes@.take(k as int)),
                decreases classes@.len() - k,
            {
                r.push(RankingUnit { year, category, class: classes[k] });
                k = k + 1;
                assert(classes@.take(k as int).drop_last() =~= classes@.take(k - 1));
                assert(r@ =~= before_category + class_units(year, category, classes@.take(k as int)));
            }
            j = j + 1;
            assert(categories@.take(j as int).drop_last() =~= categories@.take(j - 1));
            assert(classes@.take(classes@.len() as int) =~= classes@);
            assert(r@ =~= before_year + year_units(year, categories@.take(j as int), classes@));
        }
        i = i + 1;
        assert(years@.take(i as int).drop_last() =~= years@.take(i - 1));
        assert(categories@.take(categories@.len() as int) =~= categories@);
        assert(r@ =~= all_units(years@.take(i as int), categories@, classes@));
    }
    assert(years@.take(years@.len() as int) =~= years@);
    r
}

/// The player ids a ranking list names, in list order.
pub open spec fn listed_ids(list: Seq<(i32, i32)>) -> Seq<i32> {
    list.map_values(|e: (i32, i32)| e.1)
}

/// The ids of `ids` that have no record in `m`, in order.
pub open spec fn absent_of(m: Map<i32, PlayerView>, ids: Seq<i32>) -> Seq<i32>
    decreases ids.len(),
{
    if ids.len() == 0 {
        Seq::empty()
    } else if m.contains_key(ids.last()) {
        absent_of(m, ids.drop_last())
    } else {
        absent_of(m, ids.drop_last()).push(ids.last())
    }
}

proof fn lemma_absent_of_contains(m: Map<i32, PlayerView>, ids: Seq<i32>, x: i32)
    ensures
        absent_of(m, ids).contains(x) <==> (ids.contains(x) && !m.contains_key(x)),
    decreases ids.len(),
{
    if ids.len() > 0 {
        lemma_absent_of_contains(m, ids.drop_last(), x);
        let d = ids.drop_last();
        assert(ids =~= d.push(ids.last()));
        if ids.contains(x) && x != ids.last() {
            let k = choose|k: int| 0 <= k < ids.len() && ids[k] == x;
            assert(d[k] == x);
        }
        if d.contains(x) {
            let k = choose|k: int| 0 <= k < d.len() && d[k] == x;
            assert(ids[k] == x);
        }
        if absent_of(m, ids).contains(x) && !absent_of(m, d).contains(x) {
            let a = absent_of(m, d);
            let k = choose|k: int| 0 <= k < absent_of(m, ids).len() && absent_of(m, ids)[k] == x;
            if k < a.len() {
                assert(a[k] == x);
            }
        }
        if !m.contains_key(ids.last()) {
            assert(absent_of(m, ids).last() == ids.last());
            assert(absent_of(m, ids).contains(absent_of(m, ids).last()) || absent_of(m, ids).len() == 0);
            if absent_of(m, d).contains(x) {
                let a = absent_of(m, d);
                let k = choose|k: int| 0 <= k < a.len() && a[k] == x;
                assert(absent_of(m, ids)[k] == x);
            }
        }
        assert(ids.last() == ids[ids.len() - 1]);
    }
}

/// The ids of `ids` the store holds no record of, in order.
pub fn missing_ids(store: &DatabaseRef, ids: &Vec<i32>) -> (r: Vec<i32>)
    requires
        store.wf(),
    ensures
        r@ == absent_of(store@, ids@),
{
    let mut r: Vec<i32> = Vec::new();
    let mut i: usize = 0;
    while i < ids.len()
        invariant
            store.wf(),
            i <= ids@.len(),
            r@ == absent_of(store@, ids@.take(i as int)),
        decreases ids@.len() - i,
    {
        if !store.contains_player(ids[i]) {
            r.push(ids[i]);
        }
        i = i + 1;
        assert(ids@.take(i as int).drop_last() =~= ids@.take(i - 1));
    }
    assert(ids@.take(ids@.len() as int) =~= ids@);
    r
}

/// The players a ranking list names that the store lacks: each such id
/// once, in order of first mention.
pub fn missing_players(store: &DatabaseRef, list: &Vec<(i32, i32)>) -> (r: Vec<i32>)
    requires
        store.wf(),
    ensures
        r@ == first_occurrences(absent_of(store@, listed_ids(list@))),
        r@.no_duplicates(),
        forall|x: i32| r@.contains(x) <==> (listed_ids(list@).contains(x) && !store@.contains_key(x)),
{
    let mut ids: Vec<i32> = Vec::new();
    let mut i: usize = 0;
    while i < list.len()
        invariant
            i <= list@.len(),
            ids@ == listed_ids(list@.take(i as int)),
        decreases list@.len() - i,
    {
        ids.push(list[i].1);
        i = i + 1;
        assert(ids@ =~= listed_ids(list@.take(i as int)));
    }
    assert(list@.take(i as int) =~= list@);
    let absent = missing_ids(store, &ids);
    let r = unique_ids(&absent);
    proof {
        assert forall|x: i32| r@.contains(x) <==> (listed_ids(list@).contains(x) && !store@.contains_key(x)) by {
            lemma_absent_of_contains(store@, ids@, x);
        }
    }
    r
}

/// The entry a unit's list gives the player at `place`.
pub open spec fn unit_entry(u: RankingUnit, place: i32) -> Ranking {
    Ranking { year: u.year, place, category: u.category, class: u.class }
}

/// The store after upserting the unit's entry for every (place, id) pair, in list order.
pub open spec fn rankings_applied(m: Map<i32, PlayerView>, u: RankingUnit, list: Seq<(i32, i32)>) -> Map<i32, PlayerView>
    decreases list.len(),
{
    if list.len() == 0 {
        m
    } else {
        let before = rankings_applied(m, u, list.drop_last());
        let id = list.last().1;
        update_player(before, id, with_itsf_ranking(before[id], unit_entry(u, list.last().0)))
    }
}

/// Upserts one ranking entry per (place, id) pair of the unit's list, known
/// players and new ones alike; ids without a record are passed over.
pub fn apply_unit_rankings(store: &mut DatabaseRef, unit: RankingUnit, list: &Vec<(i32, i32)>)
    requires
        old(store).wf(),
    ensures
        final(store).wf(),
        final(store)@ == rankings_applied(old(store)@, unit, list@),
{
    let mut i: usize = 0;
    while i < list.len()
        invariant
            store.wf(),
            i <= list@.len(),
            store@ == rankings_applied(old(store)@, unit, list@.take(i as int)),
        decreases list@.len() - i,
    {
        let (place, id) = list[i];
        store.add_player_itsf_ranking(
            id,
            Ranking { year: unit.year, place, category: unit.category, class: unit.class },
        );
        i = i + 1;
        assert(list@.take(i as int).drop_last() =~= list@.take(i - 1));
    }
    assert(list@.take(list@.len() as int) =~= list@);
}

/// The place the list gives `id` last, if it names `id` at all.
pub open spec fn last_place(list: Seq<(i32, i32)>, id: i32) -> Option<i32>
    decreases list.len(),
{
    if list.len() == 0 {
        None
    } else if list.last().1 == id {
        Some(list.last().0)
    } else {
        last_place(list.drop_last(), id)
    }
}

proof fn lemma_with_ranking_absorbs(p: PlayerView, first: Ranking, second: Ranking)
    requires
        first.same_key_as(second),
    ensures
        with_itsf_ranking(with_itsf_ranking(p, first), second) == with_itsf_ranking(p, second),
{
    lemma_upsert_absorbs(p.itsf_rankings, first, second);
}

/// What applying a unit's list does to each record: a record the list names
/// gets the entry of its last place; the others stay as they are.
proof fn lemma_rankings_applied_shape(m: Map<i32, PlayerView>, u: RankingUnit, list: Seq<(i32, i32)>)
    ensures
        rankings_applied(m, u, list).dom() == m.dom(),
        forall|id: i32| #[trigger] m.contains_key(id) ==> rankings_applied(m, u, list)[id] == match last_place(list, id) {
            Some(place) => with_itsf_ranking(m[id], unit_entry(u, place)),
            None => m[id],
        },
    decreases list.len(),
{
    if list.len() > 0 {
        lemma_rankings_applied_shape(m, u, list.drop_last());
        let before = rankings_applied(m, u, list.drop_last());
        let j = list.last().1;
        assert forall|id: i32| #[trigger] m.contains_key(id) implies rankings_applied(m, u, list)[id] == match last_place(list, id) {
            Some(place) => with_itsf_ranking(m[id], unit_entry(u, place)),
            None => m[id],
        } by {
            if id == j {
                match last_place(list.drop_last(), id) {
                    Some(p0) => lemma_with_ranking_absorbs(m[id], unit_entry(u, p0), unit_entry(u, list.last().0)),
                    None => {},
                }
            }
        }
        if m.contains_key(j) {
            assert(rankings_applied(m, u, list).dom() =~= m.dom());
        }
    }
}

/// Applying the same unit's list a second time changes nothing, and afterwards
/// every record the list names holds exactly one entry with the unit's key:
/// the one of its last place.
pub proof fn lemma_unit_idempotent(m: Map<i32, PlayerView>, u: RankingUnit, list: Seq<(i32, i32)>)
    ensures
        rankings_applied(rankings_applied(m, u, list), u, list) == rankings_applied(m, u, list),
        forall|id: i32| #[trigger] m.contains_key(id) && last_place(list, id) is Some ==> {
            let place = last_place(list, id)->0;
            let rs = rankings_applied(m, u, list)[id].itsf_rankings;
            &&& rs.last() == unit_entry(u, place)
            &&& forall|i: int| 0 <= i < rs.len() - 1 ==> !(#[trigger] rs[i]).same_key_as(unit_entry(u, place))
        },
        rankings_applied(m, u, list).dom() == m.dom(),
        forall|id: i32| #[trigger] m.contains_key(id) && last_place(list, id) is None ==> rankings_applied(m, u, list)[id]
            == m[id],
        forall|id: i32| #[trigger] m.contains_key(id) && entries_unique(m[id]) ==> entries_unique(
            rankings_applied(m, u, list)[id],
        ),
{
    let once = rankings_applied(m, u, list);
    let twice = rankings_applied(once, u, list);
    lemma_rankings_applied_shape(m, u, list);
    lemma_rankings_applied_shape(once, u, list);
    assert forall|id: i32| #[trigger] once.contains_key(id) implies twice[id] == once[id] by {
        match last_place(list, id) {
            Some(place) => lemma_with_ranking_absorbs(m[id], unit_entry(u, place), unit_entry(u, place)),
            None => {},
        }
    }
    assert(twice =~= once);
    assert forall|id: i32| #[trigger] m.contains_key(id) && last_place(list, id) is Some implies {
        let place = last_place(list, id)->0;
        let rs = once[id].itsf_rankings;
        &&& rs.last() == unit_entry(u, place)
        &&& forall|i: int| 0 <= i < rs.len() - 1 ==> !(#[trigger] rs[i]).same_key_as(unit_entry(u, place))
    } by {
        lemma_upsert_single_entry_per_key(m[id].itsf_rankings, unit_entry(u, last_place(list, id)->0));
    }
    assert forall|id: i32| #[trigger] m.contains_key(id) && entries_unique(m[id]) implies entries_unique(once[id]) by {
        if last_place(list, id) is Some {
            lemma_upsert_keeps_keys_unique(m[id].itsf_rankings, unit_entry(u, last_place(list, id)->0));
        }
    }
}

} // verus!
