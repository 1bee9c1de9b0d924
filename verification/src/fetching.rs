//! What the store decides around its requests to AniList: which ids to ask
//! for, what to make of the answer, which anime need fresh airing times, and
//! which prequels are still missing.  The requests themselves are made by the
//! caller.

use vstd::prelude::*;
use crate::anime_data::{AnimeData, AnimeInfo, Edge};
use crate::maps::keys_of;
use crate::recognition::is_ordering;
use crate::text::str_eq;

verus! {

broadcast use {vstd::std_specs::hash::group_hash_axioms, vstd::seq_lib::group_seq_properties};

/// The id is not known to be missing from AniList.
pub open spec fn not_nonexistent(nonexistent: Set<i32>) -> spec_fn(i32) -> bool {
    |id: i32| !nonexistent.contains(id)
}

/// The store does not hold the anime.
pub open spec fn lacks_data(data: Map<i32, AnimeInfo>) -> spec_fn(i32) -> bool {
    |id: i32| !data.contains_key(id)
}

/// AniList answered with the anime.
pub open spec fn returned(fetched: Seq<AnimeInfo>, id: i32) -> bool {
    exists|k: int| 0 <= k < fetched.len() && #[trigger] fetched[k].id == id
}

/// AniList did not answer with the anime.
pub open spec fn not_returned(fetched: Seq<AnimeInfo>) -> spec_fn(i32) -> bool {
    |id: i32| !returned(fetched, id)
}

/// The id is not among `gone`.
pub open spec fn not_among(gone: Seq<i32>) -> spec_fn(i32) -> bool {
    |id: i32| !gone.contains(id)
}

/// The store after the anime of an answer are kept, one after the other.
pub open spec fn stored_all(data: Map<i32, AnimeInfo>, fetched: Seq<AnimeInfo>) -> Map<i32, AnimeInfo>
    decreases fetched.len(),
{
    if fetched.len() == 0 {
        data
    } else {
        stored_all(data, fetched.drop_last()).insert(fetched.last().id, fetched.last())
    }
}

/// The anime airs a new episode whose time has passed.
pub open spec fn airing_passed(data: Map<i32, AnimeInfo>, now: i32) -> spec_fn(i32) -> bool {
    |id: i32| data[id].next_airing_episode matches Some(n) && n.airing_at < now
}

/// The store holds the anime.
pub open spec fn held_by(data: Map<i32, AnimeInfo>) -> spec_fn(i32) -> bool {
    |id: i32| data.contains_key(id)
}

/// The anime the store holds for the ids.
pub open spec fn anime_for(data: Map<i32, AnimeInfo>, ids: Seq<i32>) -> Seq<AnimeInfo> {
    ids.map_values(|id: i32| data[id])
}

/// The anime of references.
pub open spec fn referenced(v: Seq<&AnimeInfo>) -> Seq<AnimeInfo> {
    v.map_values(|a: &AnimeInfo| *a)
}

/// The relations of an anime the store holds, or none.
pub open spec fn edges_of(data: Map<i32, AnimeInfo>, id: i32) -> Seq<Edge> {
    if data.contains_key(id) {
        data[id].relations.edges@
    } else {
        Seq::empty()
    }
}

/// The edge leads to a prequel the store does not hold (an anime, not a
/// manga, where `anime_only`).
pub open spec fn missing_prequel(data: Map<i32, AnimeInfo>, anime_only: bool) -> spec_fn(Edge) -> bool {
    |e: Edge| e.relation_type@ == "PREQUEL"@ && (!anime_only || e.node.media_type@ == "ANIME"@)
        && !data.contains_key(e.node.id)
}

/// The id an edge leads to.
pub open spec fn edge_target(e: Edge) -> i32 {
    e.node.id
}

/// The missing prequels of the anime of `ids`, in order; an id may come more
/// than once.
pub open spec fn prequels_over(data: Map<i32, AnimeInfo>, ids: Seq<i32>, anime_only: bool) -> Seq<i32>
    decreases ids.len(),
{
    if ids.len() == 0 {
        Seq::empty()
    } else {
        prequels_over(data, ids.drop_last(), anime_only) + edges_of(data, ids.last()).filter(
            missing_prequel(data, anime_only),
        ).map_values(|e: Edge| edge_target(e))
    }
}

/// A value stands in a filtered sequence exactly when it stands in the
/// sequence and passes.
proof fn lemma_filter_membership(s: Seq<i32>, p: spec_fn(i32) -> bool, x: i32)
    ensures
        s.filter(p).contains(x) <==> s.contains(x) && p(x),
{
    if s.filter(p).contains(x) {
        s.lemma_filter_contains_rev(p, x);
        let k = choose|k: int| 0 <= k < s.filter(p).len() && s.filter(p)[k] == x;
        s.lemma_filter_pred(p, k);
    }
    if s.contains(x) && p(x) {
        let k = choose|k: int| 0 <= k < s.len() && s[k] == x;
        s.lemma_filter_contains(p, k);
    }
}

/// What the steps of fetching keep of a list of ids: the ids not known to be
/// missing from AniList, the ids whose anime the store lacks, the ids AniList
/// did not answer with, the ids whose next episode's airing time has passed,
/// and the ids whose anime the store holds.
pub proof fn law_fetch_steps_keep(
    data: Map<i32, AnimeInfo>,
    nonexistent: Set<i32>,
    ids: Seq<i32>,
    fetched: Seq<AnimeInfo>,
    now: i32,
    x: i32,
)
    ensures
        ids.filter(not_nonexistent(nonexistent)).contains(x) <==> ids.contains(x) && !nonexistent.contains(x),
        ids.filter(lacks_data(data)).contains(x) <==> ids.contains(x) && !data.contains_key(x),
        ids.filter(not_returned(fetched)).contains(x) <==> ids.contains(x) && forall|k: int|
            0 <= k < fetched.len() ==> #[trigger] fetched[k].id != x,
        ids.filter(airing_passed(data, now)).contains(x) <==> ids.contains(x) && (
        data[x].next_airing_episode is Some && data[x].next_airing_episode->0.airing_at < now),
        ids.filter(held_by(data)).contains(x) <==> ids.contains(x) && data.contains_key(x),
{
    lemma_filter_membership(ids, not_nonexistent(nonexistent), x);
    lemma_filter_membership(ids, lacks_data(data), x);
    lemma_filter_membership(ids, not_returned(fetched), x);
    lemma_filter_membership(ids, airing_passed(data, now), x);
    lemma_filter_membership(ids, held_by(data), x);
}

/// Keeping AniList's answer keeps what the store held and adds each anime of
/// the answer under its id, the last of an id winning.
pub proof fn law_stored_all_adds_the_answer(data: Map<i32, AnimeInfo>, fetched: Seq<AnimeInfo>, x: i32)
    ensures
        stored_all(data, fetched).contains_key(x) <==> data.contains_key(x) || exists|k: int|
            0 <= k < fetched.len() && #[trigger] fetched[k].id == x,
        (forall|k: int| 0 <= k < fetched.len() ==> #[trigger] fetched[k].id != x) && data.contains_key(x)
            ==> stored_all(data, fetched)[x] == data[x],
        fetched.len() > 0 && fetched.last().id == x ==> stored_all(data, fetched)[x] == fetched.last(),
    decreases fetched.len(),
{
    if fetched.len() > 0 {
        let init = fetched.drop_last();
        law_stored_all_adds_the_answer(data, init, x);
        if exists|k: int| 0 <= k < fetched.len() && #[trigger] fetched[k].id == x {
            let k = choose|k: int| 0 <= k < fetched.len() && #[trigger] fetched[k].id == x;
            if k < fetched.len() - 1 {
                assert(init[k].id == x);
            }
        }
        if exists|k: int| 0 <= k < init.len() && #[trigger] init[k].id == x {
            let k = choose|k: int| 0 <= k < init.len() && #[trigger] init[k].id == x;
            assert(fetched[k].id == x);
        }
        if forall|k: int| 0 <= k < fetched.len() ==> #[trigger] fetched[k].id != x {
            assert forall|k: int| 0 <= k < init.len() implies #[trigger] init[k].id != x by {
                assert(fetched[k].id != x);
            }
        }
    }
}

/// Whether AniList answered with the anime.
fn was_returned(fetched: &Vec<AnimeInfo>, id: i32) -> (r: bool)
    ensures
        r == returned(fetched@, id),
{
    let mut k: usize = 0;
    while k < fetched.len()
        invariant
            0 <= k <= fetched.len(),
            forall|j: int| 0 <= j < k ==> fetched@[j].id != id,
        decreases fetched.len() - k,
    {
        if fetched[k].id == id {
            return true;
        }
        k = k + 1;
    }
    false
}

impl AnimeData {
    /// The ids not known to be missing from AniList, in order.
    pub fn valid_ids(&self, id_list: &Vec<i32>) -> (r: Vec<i32>)
        ensures
            r@ == id_list@.filter(not_nonexistent(self.nonexistent_ids@)),
    {
        let mut out: Vec<i32> = Vec::new();
        let ghost keep = not_nonexistent(self.nonexistent_ids@);
        let mut i: usize = 0;
        while i < id_list.len()
            invariant
                0 <= i <= id_list.len(),
                keep == not_nonexistent(self.nonexistent_ids@),
                out@ == id_list@.take(i as int).filter(keep),
            decreases id_list.len() - i,
        {
            proof {
                assert(id_list@.take(i + 1) =~= id_list@.take(i as int).push(id_list@[i as int]));
                id_list@.take(i as int).lemma_filter_push(id_list@[i as int], keep);
            }
            if !self.nonexistent_ids.contains(&id_list[i]) {
                out.push(id_list[i]);
            }
            i = i + 1;
        }
        assert(id_list@.take(id_list.len() as int) =~= id_list@);
        out
    }

    /// The ids whose anime the store does not hold, in order.
    pub fn missing_ids(&self, ids: &Vec<i32>) -> (r: Vec<i32>)
        ensures
            r@ == ids@.filter(lacks_data(self.data@)),
    {
        let mut out: Vec<i32> = Vec::new();
        let ghost keep = lacks_data(self.data@);
        let mut i: usize = 0;
        while i < ids.len()
            invariant
                0 <= i <= ids.len(),
                keep == lacks_data(self.data@),
                out@ == ids@.take(i as int).filter(keep),
            decreases ids.len() - i,
        {
            proof {
                assert(ids@.take(i + 1) =~= ids@.take(i as int).push(ids@[i as int]));
                ids@.take(i as int).lemma_filter_push(ids@[i as int], keep);
            }
            if !self.data.contains_key(&ids[i]) {
                out.push(ids[i]);
            }
            i = i + 1;
        }
        assert(ids@.take(ids.len() as int) =~= ids@);
        out
    }

    /// The asked-for ids that AniList did not answer with, in order; they are
    /// remembered as missing from AniList.
    pub fn find_missing_ids(&mut self, ids: &Vec<i32>, fetched: &Vec<AnimeInfo>) -> (r: Vec<i32>)
        ensures
            r@ == ids@.filter(not_returned(fetched@)),
            final(self).nonexistent_ids@ == old(self).nonexistent_ids@.union(r@.to_set()),
            final(self).data == old(self).data,
            final(self).needs_scan == old(self).needs_scan,
            final(self).anime_path == old(self).anime_path,
            final(self).known_files == old(self).known_files,
            final(self).new_anime == old(self).new_anime,
    {
        let mut missing: Vec<i32> = Vec::new();
        let ghost keep = not_returned(fetched@);
        let mut i: usize = 0;
        while i < ids.len()
            invariant
                0 <= i <= ids.len(),
                keep == not_returned(fetched@),
                missing@ == ids@.take(i as int).filter(keep),
            decreases ids.len() - i,
        {
            proof {
                assert(ids@.take(i + 1) =~= ids@.take(i as int).push(ids@[i as int]));
                ids@.take(i as int).lemma_filter_push(ids@[i as int], keep);
            }
            if !was_returned(fetched, ids[i]) {
                missing.push(ids[i]);
            }
            i = i + 1;
        }
        assert(ids@.take(ids.len() as int) =~= ids@);
        let mut k: usize = 0;
        while k < missing.len()
            invariant
                0 <= k <= missing.len(),
                self.nonexistent_ids@ == old(self).nonexistent_ids@.union(missing@.take(k as int).to_set()),
                self.data == old(self).data,
                self.needs_scan == old(self).needs_scan,
                self.anime_path == old(self).anime_path,
                self.known_files == old(self).known_files,
                self.new_anime == old(self).new_anime,
            decreases missing.len() - k,
        {
            self.nonexistent_ids.insert(missing[k]);
            proof {
                assert(missing@.take(k + 1) =~= missing@.take(k as int).push(missing@[k as int]));
                missing@.take(k as int).lemma_push_to_set_commute(missing@[k as int]);
            }
            k = k + 1;
            assert(self.nonexistent_ids@ =~= old(self).nonexistent_ids@.union(missing@.take(k as int).to_set()));
        }
        assert(missing@.take(k as int) =~= missing@);
        missing
    }

    /// Keeps every anime of AniList's answer, one after the other.
    pub fn store_all_fetched(&mut self, fetched: Vec<AnimeInfo>)
        ensures
            final(self).data@ == stored_all(old(self).data@, fetched@),
            final(self).new_anime == (old(self).new_anime || fetched@.len() > 0),
            final(self).nonexistent_ids == old(self).nonexistent_ids,
            final(self).needs_scan == old(self).needs_scan,
            final(self).anime_path == old(self).anime_path,
            final(self).known_files == old(self).known_files,
    {
        let ghost all = fetched@;
        assert(all.len() == fetched.len());
        let mut rest = fetched;
        let mut done: usize = 0;
        let ghost n: int = all.len() as int;
        assert(all.take(0) =~= Seq::<AnimeInfo>::empty());
        assert(all.skip(0) =~= all);
        while rest.len() > 0
            invariant
                all.len() == n,
                n <= usize::MAX,
                done + rest@.len() == n,
                rest@ == all.skip(done as int),
                self.data@ == stored_all(old(self).data@, all.take(done as int)),
                self.new_anime == (old(self).new_anime || done > 0),
                self.nonexistent_ids == old(self).nonexistent_ids,
                self.needs_scan == old(self).needs_scan,
                self.anime_path == old(self).anime_path,
                self.known_files == old(self).known_files,
            decreases rest.len(),
        {
            let ghost before = rest@;
            let anime = rest.remove(0);
            proof {
                assert(before[0] == all[done as int]);
                assert(all.take(done + 1).drop_last() =~= all.take(done as int));
                assert(rest@ =~= all.skip(done + 1));
            }
            self.store_fetched(anime);
            done = done + 1;
        }
        assert(all.take(n) =~= all);
    }

    /// Keeps AniList's answer to a request for the `missing` ids of `valid`:
    /// the ids it did not answer with are remembered as missing from AniList
    /// and taken out of `valid`, and the anime it answered with are kept.
    /// Gives back the ids it did not answer with.
    pub fn absorb_fetched(&mut self, valid: &mut Vec<i32>, missing: &Vec<i32>, fetched: Vec<AnimeInfo>) -> (gone: Vec<i32>)
        requires
            missing@ == old(valid)@.filter(lacks_data(old(self).data@)),
        ensures
            gone@ == missing@.filter(not_returned(fetched@)),
            final(valid)@ == old(valid)@.filter(not_among(gone@)),
            final(self).nonexistent_ids@ == old(self).nonexistent_ids@.union(gone@.to_set()),
            final(self).data@ == stored_all(old(self).data@, fetched@),
            final(self).new_anime == (old(self).new_anime || fetched@.len() > 0),
            final(self).needs_scan == old(self).needs_scan,
            final(self).anime_path == old(self).anime_path,
            final(self).known_files == old(self).known_files,
    {
        let gone = self.find_missing_ids(missing, &fetched);
        self.store_all_fetched(fetched);
        let mut kept: Vec<i32> = Vec::new();
        let ghost keep = not_among(gone@);
        let mut i: usize = 0;
        while i < valid.len()
            invariant
                0 <= i <= valid.len(),
                keep == not_among(gone@),
                kept@ == valid@.take(i as int).filter(keep),
            decreases valid.len() - i,
        {
            proof {
                assert(valid@.take(i + 1) =~= valid@.take(i as int).push(valid@[i as int]));
                valid@.take(i as int).lemma_filter_push(valid@[i as int], keep);
            }
            if !contains_id(&gone, valid[i]) {
                kept.push(valid[i]);
            }
            i = i + 1;
        }
        assert(valid@.take(valid.len() as int) =~= valid@);
        *valid = kept;
        gone
    }

    /// The ids (all held by the store) whose next episode's airing time has
    /// passed, in order.
    pub fn stale_airing_ids(&self, ids: &Vec<i32>, now: i32) -> (r: Vec<i32>)
        requires
            forall|k: int| 0 <= k < ids@.len() ==> self.data@.contains_key(#[trigger] ids@[k]),
        ensures
            r@ == ids@.filter(airing_passed(self.data@, now)),
    {
        let mut out: Vec<i32> = Vec::new();
        let mut i: usize = 0;
        let ghost keep = airing_passed(self.data@, now);
        while i < ids.len()
            invariant
                0 <= i <= ids.len(),
                keep == airing_passed(self.data@, now),
                forall|k: int| 0 <= k < ids@.len() ==> self.data@.contains_key(#[trigger] ids@[k]),
                out@ == ids@.take(i as int).filter(keep),
            decreases ids.len() - i,
        {
            proof {
                assert(ids@.take(i + 1) =~= ids@.take(i as int).push(ids@[i as int]));
                ids@.take(i as int).lemma_filter_push(ids@[i as int], keep);
            }
            let anime = self.data.get(&ids[i]).unwrap();
            let passed = match &anime.next_airing_episode {
                Some(n) => n.airing_at < now,
                None => false,
            };
            if passed {
                out.push(ids[i]);
            }
            i = i + 1;
        }
        assert(ids@.take(ids.len() as int) =~= ids@);
        out
    }

    /// The anime the store holds for the ids, in order; ids it does not hold
    /// are passed over.
    pub fn compile_list<'a>(&'a self, ids: &Vec<i32>) -> (r: Vec<&'a AnimeInfo>)
        ensures
            referenced(r@) == anime_for(self.data@, ids@.filter(held_by(self.data@))),
    {
        let mut out: Vec<&'a AnimeInfo> = Vec::new();
        let mut i: usize = 0;
        let ghost keep = held_by(self.data@);
        while i < ids.len()
            invariant
                0 <= i <= ids.len(),
                keep == held_by(self.data@),
                referenced(out@) == anime_for(self.data@, ids@.take(i as int).filter(keep)),
            decreases ids.len() - i,
        {
            proof {
                assert(ids@.take(i + 1) =~= ids@.take(i as int).push(ids@[i as int]));
                ids@.take(i as int).lemma_filter_push(ids@[i as int], keep);
            }
            let ghost before = out@;
            match self.data.get(&ids[i]) {
                Some(anime) => {
                    out.push(anime);
                    assert(referenced(out@) =~= referenced(before).push(*anime));
                    assert(anime_for(self.data@, ids@.take(i + 1).filter(keep)) =~= anime_for(
                        self.data@,
                        ids@.take(i as int).filter(keep),
                    ).push(self.data@[ids@[i as int]]));
                },
                None => {},
            }
            i = i + 1;
        }
        assert(ids@.take(ids.len() as int) =~= ids@);
        out
    }

    /// The missing prequels of one anime's relations, in order.
    fn prequels_of(&self, id: i32, anime_only: bool) -> (r: Vec<i32>)
        ensures
            r@ == edges_of(self.data@, id).filter(missing_prequel(self.data@, anime_only)).map_values(
                |e: Edge| edge_target(e),
            ),
    {
        let mut out: Vec<i32> = Vec::new();
        match self.data.get(&id) {
            None => {
                assert(out@ =~= edges_of(self.data@, id).filter(missing_prequel(self.data@, anime_only)).map_values(
                    |e: Edge| edge_target(e),
                ));
            },
            Some(anime) => {
                let edges = &anime.relations.edges;
                let ghost keep = missing_prequel(self.data@, anime_only);
                let mut j: usize = 0;
                while j < edges.len()
                    invariant
                        0 <= j <= edges.len(),
                        keep == missing_prequel(self.data@, anime_only),
                        out@ == edges@.take(j as int).filter(keep).map_values(|e: Edge| edge_target(e)),
                    decreases edges.len() - j,
                {
                    let e = &edges[j];
                    proof {
                        assert(edges@.take(j + 1) =~= edges@.take(j as int).push(*e));
                        edges@.take(j as int).lemma_filter_push(*e, keep);
                    }
                    let ghost before = out@;
                    if str_eq(e.relation_type.as_str(), "PREQUEL") && (!anime_only || str_eq(
                        e.node.media_type.as_str(),
                        "ANIME",
                    )) && !self.data.contains_key(&e.node.id) {
                        out.push(e.node.id);
                    }
                    assert(out@ =~= edges@.take(j + 1).filter(keep).map_values(|e: Edge| edge_target(e)));
                    j = j + 1;
                }
                assert(edges@.take(j as int) =~= edges@);
            },
        }
        out
    }

    /// The prequels (anime only) of every anime held that the store does not
    /// hold, the anime walked in the map's own order.
    pub fn missing_prequels(&self) -> (r: Vec<i32>)
        ensures
            exists|order: Seq<i32>| is_ordering(order, self.data@.dom()) && r@ == prequels_over(self.data@, order, true),
    {
        let order = keys_of(&self.data);
        let r = self.next_prequels_with(&order, true);
        proof {
            assert forall|k: int| 0 <= k < order@.len() implies self.data@.contains_key(#[trigger] order@[k]) by {
                assert(order@.to_set().contains(order@[k]));
            }
            assert(is_ordering(order@, self.data@.dom()));
        }
        r
    }

    /// The prequels, of any kind, of the anime of `ids` that the store does
    /// not hold, in order.
    pub fn next_prequels(&self, ids: &Vec<i32>) -> (r: Vec<i32>)
        ensures
            r@ == prequels_over(self.data@, ids@, false),
    {
        self.next_prequels_with(ids, false)
    }

    fn next_prequels_with(&self, ids: &Vec<i32>, anime_only: bool) -> (r: Vec<i32>)
        ensures
            r@ == prequels_over(self.data@, ids@, anime_only),
    {
        let mut out: Vec<i32> = Vec::new();
        let mut i: usize = 0;
        assert(ids@.take(0) =~= Seq::<i32>::empty());
        while i < ids.len()
            invariant
                0 <= i <= ids.len(),
                out@ == prequels_over(self.data@, ids@.take(i as int), anime_only),
            decreases ids.len() - i,
        {
            let more = self.prequels_of(ids[i], anime_only);
            let ghost before = out@;
            let mut j: usize = 0;
            while j < more.len()
                invariant
                    0 <= j <= more.len(),
                    out@ == before + more@.take(j as int),
                decreases more.len() - j,
            {
                out.push(more[j]);
                j = j + 1;
                assert(out@ =~= before + more@.take(j as int));
            }
            proof {
                assert(more@.take(j as int) =~= more@);
                assert(ids@.take(i + 1).drop_last() =~= ids@.take(i as int));
                assert(ids@.take(i + 1).last() == ids@[i as int]);
            }
            i = i + 1;
        }
        assert(ids@.take(ids.len() as int) =~= ids@);
        out
    }
}

/// Whether `id` is among `ids`.
fn contains_id(ids: &Vec<i32>, id: i32) -> (r: bool)
    ensures
        r == ids@.contains(id),
{
    let mut k: usize = 0;
    while k < ids.len()
        invariant
            0 <= k <= ids.len(),
            forall|j: int| 0 <= j < k ==> ids@[j] != id,
        decreases ids.len() - k,
    {
        if ids[k] == id {
            return true;
        }
        k = k + 1;
    }
    false
}

} // verus!
