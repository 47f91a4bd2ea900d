use vstd::prelude::*;
use std::collections::HashMap;
use crate::dtfb::{NationalChampionshipResult, NationalRanking, NationalTeam};
use crate::entry::{KeyedEntry, keys_unique, lemma_upsert_keeps_keys_unique, upsert_entry, upserted};
use crate::itsf::{PlayerCategory, Ranking};

verus! {

broadcast use vstd::std_specs::hash::group_hash_axioms;

/// A timestamped free-form note on a player.
#[derive(Debug)]
pub struct PlayerComment {
    pub timestamp: u32,
    pub text: String,
}

impl Clone for PlayerComment {
    fn clone(&self) -> (r: Self)
        ensures
            r == *self,
    {
        PlayerComment { timestamp: self.timestamp, text: self.text.clone() }
    }
}

/// The canonical record of one player, keyed by the international license id.
#[derive(Debug)]
pub struct Player {
    pub itsf_id: i32,
    pub first_name: String,
    pub last_name: String,
    pub birth_year: i32,
    pub country_code: Option<String>,
    pub category: PlayerCategory,
    pub itsf_rankings: Vec<Ranking>,
    pub dtfb_id: Option<i32>,
    pub dtfb_national_rankings: Vec<NationalRanking>,
    pub dtfb_championship_results: Vec<NationalChampionshipResult>,
    pub dtfb_league_teams: Vec<NationalTeam>,
    pub comments: Vec<PlayerComment>,
}

/// The mathematical content of a [`Player`].
pub struct PlayerView {
    pub itsf_id: i32,
    pub first_name: Seq<char>,
    pub last_name: Seq<char>,
    pub birth_year: i32,
    pub country_code: Option<Seq<char>>,
    pub category: PlayerCategory,
    pub itsf_rankings: Seq<Ranking>,
    pub dtfb_id: Option<i32>,
    pub dtfb_national_rankings: Seq<NationalRanking>,
    pub dtfb_championship_results: Seq<NationalChampionshipResult>,
    pub dtfb_league_teams: Seq<NationalTeam>,
    pub comments: Seq<PlayerComment>,
}

impl View for Player {
    type V = PlayerView;

    open spec fn view(&self) -> PlayerView {
        PlayerView {
            itsf_id: self.itsf_id,
            first_name: self.first_name@,
            last_name: self.last_name@,
            birth_year: self.birth_year,
            country_code: match self.country_code {
                Some(c) => Some(c@),
                None => None,
            },
            category: self.category,
            itsf_rankings: self.itsf_rankings@,
            dtfb_id: self.dtfb_id,
            dtfb_national_rankings: self.dtfb_national_rankings@,
            dtfb_championship_results: self.dtfb_championship_results@,
            dtfb_league_teams: self.dtfb_league_teams@,
            comments: self.comments@,
        }
    }
}

impl Clone for Player {
    fn clone(&self) -> (r: Self)
        ensures
            r@ == self@,
    {
        let country_code = match &self.country_code {
            Some(c) => Some(c.clone()),
            None => None,
        };
        let r = Player {
            itsf_id: self.itsf_id,
            first_name: self.first_name.clone(),
            last_name: self.last_name.clone(),
            birth_year: self.birth_year,
            country_code,
            category: self.category,
            itsf_rankings: self.itsf_rankings.clone(),
            dtfb_id: self.dtfb_id,
            dtfb_national_rankings: self.dtfb_national_rankings.clone(),
            dtfb_championship_results: self.dtfb_championship_results.clone(),
            dtfb_league_teams: self.dtfb_league_teams.clone(),
            comments: self.comments.clone(),
        };
        assert(r.itsf_rankings@ =~= self.itsf_rankings@);
        assert(r.dtfb_national_rankings@ =~= self.dtfb_national_rankings@);
        assert(r.dtfb_championship_results@ =~= self.dtfb_championship_results@);
        assert(r.dtfb_league_teams@ =~= self.dtfb_league_teams@);
        assert(r.comments@ =~= self.comments@);
        r
    }
}

/// A player's photo as stored beside the record.
#[derive(Debug)]
pub struct PlayerImage {
    pub itsf_id: i32,
    pub image_data: Vec<u8>,
    pub image_format: String,
}

/// `m` with the record under `id` replaced by `p`; unchanged when no record is stored under `id`.
pub open spec fn update_player(m: Map<i32, PlayerView>, id: i32, p: PlayerView) -> Map<i32, PlayerView> {
    if m.contains_key(id) {
        m.insert(id, p)
    } else {
        m
    }
}

pub open spec fn with_itsf_ranking(p: PlayerView, r: Ranking) -> PlayerView {
    PlayerView { itsf_rankings: upserted(p.itsf_rankings, r), ..p }
}

pub open spec fn with_dtfb_id(p: PlayerView, dtfb_id: i32) -> PlayerView {
    PlayerView { dtfb_id: Some(dtfb_id), ..p }
}

pub open spec fn with_championship_result(p: PlayerView, r: NationalChampionshipResult) -> PlayerView {
    PlayerView { dtfb_championship_results: upserted(p.dtfb_championship_results, r), ..p }
}

pub open spec fn with_national_ranking(p: PlayerView, r: NationalRanking) -> PlayerView {
    PlayerView { dtfb_national_rankings: upserted(p.dtfb_national_rankings, r), ..p }
}

pub open spec fn with_team(p: PlayerView, t: NationalTeam) -> PlayerView {
    PlayerView { dtfb_league_teams: upserted(p.dtfb_league_teams, t), ..p }
}

/// Where a comment with timestamp `t` goes: after every comment that is not
/// later than `t`, counted from the end.
pub open spec fn comment_slot(s: Seq<PlayerComment>, t: u32) -> int
    decreases s.len(),
{
    if s.len() == 0 {
        0
    } else if s.last().timestamp > t {
        comment_slot(s.drop_last(), t)
    } else {
        s.len() as int
    }
}

/// No comment comes before an earlier one.
pub open spec fn in_time_order(s: Seq<PlayerComment>) -> bool {
    forall|i: int, j: int| #![trigger s[i], s[j]] 0 <= i < j < s.len() ==> s[i].timestamp <= s[j].timestamp
}

proof fn lemma_comment_slot_facts(s: Seq<PlayerComment>, t: u32)
    requires
        in_time_order(s),
    ensures
        0 <= comment_slot(s, t) <= s.len(),
        forall|k: int| 0 <= k < comment_slot(s, t) ==> (#[trigger] s[k]).timestamp <= t,
        forall|k: int| comment_slot(s, t) <= k < s.len() ==> (#[trigger] s[k]).timestamp > t,
    decreases s.len(),
{
    if s.len() > 0 {
        let d = s.drop_last();
        assert(in_time_order(d)) by {
            assert forall|i: int, j: int| #![trigger d[i], d[j]] 0 <= i < j < d.len() implies d[i].timestamp <= d[j].timestamp by {
                assert(d[i] == s[i] && d[j] == s[j]);
            }
        }
        lemma_comment_slot_facts(d, t);
        if s.last().timestamp > t {
            assert forall|k: int| 0 <= k < comment_slot(s, t) implies (#[trigger] s[k]).timestamp <= t by {
                assert(s[k] == d[k]);
            }
            assert forall|k: int| comment_slot(s, t) <= k < s.len() implies (#[trigger] s[k]).timestamp > t by {
                if k < d.len() {
                    assert(s[k] == d[k]);
                }
            }
        } else {
            assert forall|k: int| 0 <= k < s.len() implies (#[trigger] s[k]).timestamp <= t by {
                if k < s.len() - 1 {
                    assert(s[k].timestamp <= s[s.len() - 1].timestamp);
                }
            }
        }
    }
}

/// Adding a comment to comments in time order keeps them in time order,
/// and adds exactly that comment.
pub proof fn lemma_comment_keeps_time_order(s: Seq<PlayerComment>, c: PlayerComment)
    requires
        in_time_order(s),
    ensures
        in_time_order(s.insert(comment_slot(s, c.timestamp), c)),
        s.insert(comment_slot(s, c.timestamp), c).to_multiset() == s.to_multiset().insert(c),
{
    broadcast use vstd::seq_lib::to_multiset_insert;

    let p = comment_slot(s, c.timestamp);
    lemma_comment_slot_facts(s, c.timestamp);
    let r = s.insert(p, c);
    assert forall|i: int, j: int| #![trigger r[i], r[j]] 0 <= i < j < r.len() implies r[i].timestamp <= r[j].timestamp by {
        if j < p {
            assert(r[i] == s[i] && r[j] == s[j]);
        } else if j == p {
            assert(r[i] == s[i]);
        } else if i < p {
            assert(r[i] == s[i] && r[j] == s[j - 1]);
        } else if i == p {
            assert(r[j] == s[j - 1]);
        } else {
            assert(r[i] == s[i - 1] && r[j] == s[j - 1]);
        }
    }
}

pub open spec fn with_comment(p: PlayerView, c: PlayerComment) -> PlayerView {
    PlayerView { comments: p.comments.insert(comment_slot(p.comments, c.timestamp), c), ..p }
}

/// A player has at most one entry per key in each of its four entry lists.
pub open spec fn entries_unique(p: PlayerView) -> bool {
    &&& keys_unique(p.itsf_rankings)
    &&& keys_unique(p.dtfb_national_rankings)
    &&& keys_unique(p.dtfb_championship_results)
    &&& keys_unique(p.dtfb_league_teams)
}

/// Whether no two entries of `v` share a key.
pub fn keys_unique_in<T: KeyedEntry>(v: &Vec<T>) -> (r: bool)
    ensures
        r == keys_unique(v@),
{
    let mut i: usize = 0;
    while i < v.len()
        invariant
            i <= v@.len(),
            forall|a: int, b: int| #![trigger v@[a], v@[b]] 0 <= a < i && 0 <= b < v@.len() && a != b ==> !v@[a].same_key(&v@[b]),
        decreases v@.len() - i,
    {
        let mut j: usize = 0;
        while j < v.len()
            invariant
                i < v@.len(),
                j <= v@.len(),
                forall|a: int, b: int| #![trigger v@[a], v@[b]] 0 <= a < i && 0 <= b < v@.len() && a != b ==> !v@[a].same_key(&v@[b]),
                forall|b: int| 0 <= b < j && b != i ==> !v@[i as int].same_key(&#[trigger] v@[b]),
            decreases v@.len() - j,
        {
            if j != i && v[i].key_matches(&v[j]) {
                return false;
            }
            j = j + 1;
        }
        i = i + 1;
    }
    true
}

/// Whether the record keeps at most one entry per key in each list, as the
/// store requires of every record it takes.
pub fn has_unique_keys(p: &Player) -> (r: bool)
    ensures
        r == entries_unique(p@),
{
    keys_unique_in(&p.itsf_rankings) && keys_unique_in(&p.dtfb_national_rankings)
        && keys_unique_in(&p.dtfb_championship_results) && keys_unique_in(&p.dtfb_league_teams)
}

/// The player store: every record keyed by its international id.
pub struct DatabaseRef {
    players: HashMap<i32, Player>,
    ids: Vec<i32>,
}

impl View for DatabaseRef {
    type V = Map<i32, PlayerView>;

    closed spec fn view(&self) -> Map<i32, PlayerView> {
        self.players@.map_values(|p: Player| p@)
    }
}

impl DatabaseRef {
    /// Every record sits under its own id, and the id list names each stored id once.
    pub closed spec fn wf(&self) -> bool {
        &&& self.ids@.no_duplicates()
        &&& forall|id: i32| self.players@.contains_key(id) <==> self.ids@.contains(id)
        &&& forall|id: i32| #[trigger] self.players@.contains_key(id) ==> self.players@[id].itsf_id == id
            && entries_unique(self.players@[id]@)
    }

    /// Every stored record sits under its own id and has at most one entry
    /// per key in each of its lists.
    pub proof fn lemma_records_well_formed(&self)
        requires
            self.wf(),
        ensures
            forall|id: i32| #[trigger] self@.contains_key(id) ==> self@[id].itsf_id == id && entries_unique(self@[id]),
    {
        assert forall|id: i32| #[trigger] self@.contains_key(id) implies self@[id].itsf_id == id && entries_unique(self@[id]) by {
            assert(self.players@.contains_key(id));
        }
    }

    pub fn new() -> (r: Self)
        ensures
            r.wf(),
            r@ == Map::<i32, PlayerView>::empty(),
    {
        let r = DatabaseRef { players: HashMap::new(), ids: Vec::new() };
        assert(r@ =~= Map::<i32, PlayerView>::empty());
        r
    }

    pub fn contains_player(&self, itsf_id: i32) -> (r: bool)
        requires
            self.wf(),
        ensures
            r == self@.contains_key(itsf_id),
    {
        self.players.contains_key(&itsf_id)
    }

    pub fn get_player(&self, itsf_id: i32) -> (r: Option<Player>)
        requires
            self.wf(),
        ensures
            match r {
                Some(p) => self@.contains_key(itsf_id) && p@ == self@[itsf_id],
                None => !self@.contains_key(itsf_id),
            },
    {
        match self.players.get(&itsf_id) {
            Some(p) => Some(p.clone()),
            None => None,
        }
    }

    /// The stored ids, each once.
    pub fn get_player_ids(&self) -> (r: Vec<i32>)
        requires
            self.wf(),
        ensures
            r@.no_duplicates(),
            forall|id: i32| r@.contains(id) <==> self@.contains_key(id),
    {
        let mut r: Vec<i32> = Vec::new();
        let mut i: usize = 0;
        while i < self.ids.len()
            invariant
                i <= self.ids@.len(),
                r@ == self.ids@.take(i as int),
            decreases self.ids@.len() - i,
        {
            r.push(self.ids[i]);
            i = i + 1;
            assert(r@ =~= self.ids@.take(i as int));
        }
        assert(r@ =~= self.ids@);
        r
    }

    /// Inserts the whole record, replacing any record with the same id.
    pub fn add_player(&mut self, player: Player)
        requires
            old(self).wf(),
            entries_unique(player@),
        ensures
            final(self).wf(),
            final(self)@ == old(self)@.insert(player.itsf_id, player@),
    {
        let id = player.itsf_id;
        if !self.players.contains_key(&id) {
            let ghost before = self.ids@;
            self.ids.push(id);
            proof {
                assert(!before.contains(id));
                assert forall|i: int, j: int| 0 <= i < self.ids@.len() && 0 <= j < self.ids@.len() && i != j
                    implies self.ids@[i] != self.ids@[j] by {
                    if i < before.len() && j < before.len() {
                        assert(before[i] != before[j]);
                    } else if i < before.len() {
                        assert(before.contains(before[i]));
                    } else {
                        assert(before.contains(before[j]));
                    }
                }
                assert forall|x: i32| self.ids@.contains(x) <==> (before.contains(x) || x == id) by {
                    if self.ids@.contains(x) && x != id {
                        let k = choose|k: int| 0 <= k < self.ids@.len() && self.ids@[k] == x;
                        assert(before[k] == x);
                    }
                    if x == id {
                        assert(self.ids@[before.len() as int] == id);
                    }
                    if before.contains(x) {
                        let k = choose|k: int| 0 <= k < before.len() && before[k] == x;
                        assert(self.ids@[k] == x);
                    }
                }
            }
        }
        self.players.insert(id, player);
        assert(self@ =~= old(self)@.insert(id, player@));
        assert(self.ids@.no_duplicates());
        assert forall|x: i32| self.players@.contains_key(x) <==> self.ids@.contains(x) by {
            assert(old(self).players@.contains_key(x) <==> old(self).ids@.contains(x));
            if x == id {
                assert(self.players@.contains_key(x));
            }
        }
    }

    /// Takes the record under `itsf_id` out, to be put back by `restore`.
    fn take(&mut self, itsf_id: i32) -> (r: Option<Player>)
        requires
            old(self).wf(),
        ensures
            final(self).ids == old(self).ids,
            final(self).players@ == old(self).players@.remove(itsf_id),
            match r {
                Some(p) => old(self)@.contains_key(itsf_id) && p == old(self).players@[itsf_id],
                None => !old(self)@.contains_key(itsf_id) && final(self)@ == old(self)@,
            },
    {
        let r = self.players.remove(&itsf_id);
        proof {
            if r is None {
                assert(self.players@ =~= old(self).players@);
            }
        }
        r
    }

    /// Puts a record taken out by `take` back under its id.
    fn restore(&mut self, itsf_id: i32, player: Player)
        requires
            forall|id: i32| id != itsf_id ==> (old(self).players@.contains_key(id) <==> old(self).ids@.contains(id)),
            old(self).ids@.contains(itsf_id),
            !old(self).players@.contains_key(itsf_id),
            old(self).ids@.no_duplicates(),
            forall|id: i32| #[trigger] old(self).players@.contains_key(id) ==> old(self).players@[id].itsf_id == id
                && entries_unique(old(self).players@[id]@),
            player.itsf_id == itsf_id,
            entries_unique(player@),
        ensures
            final(self).wf(),
            final(self)@ == old(self)@.insert(itsf_id, player@),
    {
        self.players.insert(itsf_id, player);
        assert(self@ =~= old(self)@.insert(itsf_id, player@));
    }

    /// Replaces the player's entry for the ranking's (year, category, class), or appends it.
    pub fn add_player_itsf_ranking(&mut self, itsf_id: i32, ranking: Ranking)
        requires
            old(self).wf(),
        ensures
            final(self).wf(),
            final(self)@ == update_player(old(self)@, itsf_id, with_itsf_ranking(old(self)@[itsf_id], ranking)),
    {
        match self.take(itsf_id) {
            Some(mut p) => {
                let ghost before = p.itsf_rankings@;
                upsert_entry(&mut p.itsf_rankings, ranking);
                proof {
                    lemma_upsert_keeps_keys_unique(before, ranking);
                }
                self.restore(itsf_id, p);
                assert(p@ == with_itsf_ranking(old(self)@[itsf_id], ranking));
            },
            None => {},
        }
    }

    pub fn set_player_dtfb_id(&mut self, itsf_id: i32, dtfb_id: i32)
        requires
            old(self).wf(),
        ensures
            final(self).wf(),
            final(self)@ == update_player(old(self)@, itsf_id, with_dtfb_id(old(self)@[itsf_id], dtfb_id)),
    {
        match self.take(itsf_id) {
            Some(mut p) => {
                p.dtfb_id = Some(dtfb_id);
                self.restore(itsf_id, p);
                assert(p@ == with_dtfb_id(old(self)@[itsf_id], dtfb_id));
            },
            None => {},
        }
    }

    /// Replaces the player's result for the result's (year, category, class), or appends it.
    pub fn add_player_dtfb_championship_result(&mut self, itsf_id: i32, result: NationalChampionshipResult)
        requires
            old(self).wf(),
        ensures
            final(self).wf(),
            final(self)@ == update_player(old(self)@, itsf_id, with_championship_result(old(self)@[itsf_id], result)),
    {
        match self.take(itsf_id) {
            Some(mut p) => {
                let ghost before = p.dtfb_championship_results@;
                upsert_entry(&mut p.dtfb_championship_results, result);
                proof {
                    lemma_upsert_keeps_keys_unique(before, result);
                }
                self.restore(itsf_id, p);
                assert(p@ == with_championship_result(old(self)@[itsf_id], result));
            },
            None => {},
        }
    }

    /// Replaces the player's national ranking for the ranking's (year, category), or appends it.
    pub fn add_player_dtfb_ranking(&mut self, itsf_id: i32, ranking: NationalRanking)
        requires
            old(self).wf(),
        ensures
            final(self).wf(),
            final(self)@ == update_player(old(self)@, itsf_id, with_national_ranking(old(self)@[itsf_id], ranking)),
    {
        match self.take(itsf_id) {
            Some(mut p) => {
                let ghost before = p.dtfb_national_rankings@;
                upsert_entry(&mut p.dtfb_national_rankings, ranking);
                proof {
                    lemma_upsert_keeps_keys_unique(before, ranking);
                }
                self.restore(itsf_id, p);
                assert(p@ == with_national_ranking(old(self)@[itsf_id], ranking));
            },
            None => {},
        }
    }

    /// Replaces the player's league team for `year`, or appends it.
    pub fn add_player_dtfb_team(&mut self, itsf_id: i32, year: i32, name: String)
        requires
            old(self).wf(),
        ensures
            final(self).wf(),
            final(self)@ == update_player(
                old(self)@,
                itsf_id,
                with_team(old(self)@[itsf_id], NationalTeam { year, name }),
            ),
    {
        match self.take(itsf_id) {
            Some(mut p) => {
                let ghost before = p.dtfb_league_teams@;
                upsert_entry(&mut p.dtfb_league_teams, NationalTeam { year, name });
                proof {
                    lemma_upsert_keeps_keys_unique(before, NationalTeam { year, name });
                }
                self.restore(itsf_id, p);
                assert(p@ == with_team(old(self)@[itsf_id], NationalTeam { year, name }));
            },
            None => {},
        }
    }

    /// Adds a comment after every comment that is not later than it.
    pub fn add_player_comment(&mut self, itsf_id: i32, text: String, timestamp: u32)
        requires
            old(self).wf(),
        ensures
            final(self).wf(),
            final(self)@ == update_player(
                old(self)@,
                itsf_id,
                with_comment(old(self)@[itsf_id], PlayerComment { timestamp, text }),
            ),
    {
        match self.take(itsf_id) {
            Some(mut p) => {
                let ghost s = p.comments@;
                let mut i: usize = p.comments.len();
                assert(s.take(i as int) =~= s);
                while i > 0 && p.comments[i - 1].timestamp > timestamp
                    invariant
                        i <= s.len(),
                        p.comments@ == s,
                        comment_slot(s, timestamp) == comment_slot(s.take(i as int), timestamp),
                    decreases i,
                {
                    assert(s.take(i as int).drop_last() =~= s.take(i - 1));
                    i = i - 1;
                }
                proof {
                    if i > 0 {
                        assert(s.take(i as int).last() == s[i - 1]);
                    }
                    assert(comment_slot(s.take(i as int), timestamp) == i);
                }
                p.comments.insert(i, PlayerComment { timestamp, text });
                self.restore(itsf_id, p);
                assert(p@ == with_comment(old(self)@[itsf_id], PlayerComment { timestamp, text }));
            },
            None => {},
        }
    }
}

} // verus!