//! Moving an episode to the season it belongs to: episode 27 of a 26-episode
//! series is episode 1 of its sequel.  The walk first goes back through the
//! TV prequels to the first season, then forward through the TV sequels,
//! taking off each season's episodes, until the episode falls in a season.

use vstd::prelude::*;
use std::collections::HashMap;
use crate::anime_data::{AnimeData, AnimeInfo, Edge};
use crate::text::str_eq;

verus! {

broadcast use vstd::std_specs::hash::group_hash_axioms;

/// The anime held under `id` is a TV series.
pub open spec fn is_tv(data: Map<i32, AnimeInfo>, id: i32) -> bool {
    data.contains_key(id) && (data[id].format matches Some(f) && f@ == "TV"@)
}

/// The TV prequel that the edges name last, if any; `None` where a prequel
/// held has no format, or a TV prequel no episode count.
pub open spec fn prequel_scan(data: Map<i32, AnimeInfo>, edges: Seq<Edge>) -> Option<Option<i32>>
    decreases edges.len(),
{
    if edges.len() == 0 {
        Some(None)
    } else {
        match prequel_scan(data, edges.drop_last()) {
            None => None,
            Some(found) => {
                let e = edges.last();
                if e.relation_type@ == "PREQUEL"@ && data.contains_key(e.node.id) {
                    match data[e.node.id].format {
                        None => None,
                        Some(f) => if f@ == "TV"@ {
                            if data[e.node.id].episodes is Some {
                                Some(Some(e.node.id))
                            } else {
                                None
                            }
                        } else {
                            Some(found)
                        },
                    }
                } else {
                    Some(found)
                }
            },
        }
    }
}

/// Going back through TV prequels from `id` to the first season, in at most
/// `fuel` steps; `None` where `prequel_scan` gives `None` on the way, or the
/// walk is longer.
pub open spec fn prequel_walk(data: Map<i32, AnimeInfo>, id: i32, fuel: nat) -> Option<i32>
    decreases fuel,
{
    match prequel_scan(data, data[id].relations.edges@) {
        None => None,
        Some(None) => Some(id),
        Some(Some(prev)) => if fuel == 0 {
            None
        } else {
            prequel_walk(data, prev, (fuel - 1) as nat)
        },
    }
}

/// The edge leads to a TV sequel that is held.
pub open spec fn leads_to_tv_sequel(data: Map<i32, AnimeInfo>, e: Edge) -> bool {
    e.relation_type@ == "SEQUEL"@ && is_tv(data, e.node.id)
}

/// The first TV sequel that the edges name.
pub open spec fn sequel_target(data: Map<i32, AnimeInfo>, edges: Seq<Edge>) -> Option<i32>
    decreases edges.len(),
{
    if edges.len() == 0 {
        None
    } else if leads_to_tv_sequel(data, edges[0]) {
        Some(edges[0].node.id)
    } else {
        sequel_target(data, edges.skip(1))
    }
}

/// Going forward through TV sequels while the episode lies past the season's
/// `episodes`, for at most `fuel` steps; the season and the episode within it.
/// `None` where the episode no longer fits an `i32`, or the walk is longer.
pub open spec fn sequel_walk(
    data: Map<i32, AnimeInfo>,
    id: i32,
    episode: i32,
    episodes: i32,
    fuel: nat,
) -> Option<(i32, i32)>
    decreases fuel,
{
    if episode <= episodes {
        Some((id, episode))
    } else {
        match sequel_target(data, data[id].relations.edges@) {
            None => Some((id, episode)),
            Some(next) => {
                let left = episode - episodes;
                if left < i32::MIN || left > i32::MAX {
                    None
                } else {
                    match data[next].episodes {
                        None => Some((next, left as i32)),
                        Some(n) => if fuel == 0 {
                            None
                        } else {
                            sequel_walk(data, next, left as i32, n, (fuel - 1) as nat)
                        },
                    }
                }
            },
        }
    }
}

/// The season and episode that episode `episode` of anime `id` belongs to.
/// An anime not held, with no known episode count, or an episode within the
/// count stays as it is.  The prequel walk takes at most as many steps as
/// there are anime held, and the sequel walk at most `episode` steps.
pub open spec fn sequel_replacement(data: Map<i32, AnimeInfo>, id: i32, episode: i32) -> Option<
    (i32, i32),
> {
    if !data.contains_key(id) || data[id].episodes is None {
        Some((id, episode))
    } else if episode <= data[id].episodes.unwrap() {
        Some((id, episode))
    } else {
        match prequel_walk(data, id, data.dom().len()) {
            None => None,
            Some(first) => sequel_walk(
                data,
                first,
                episode,
                data[first].episodes.unwrap(),
                if episode > 0 {
                    episode as nat
                } else {
                    0
                },
            ),
        }
    }
}

/// The episode and episode count after the fix for anime of one episode
/// (movies, specials), whose file names often hold other numbers.
pub open spec fn episode_fixed(data: Map<i32, AnimeInfo>, id: i32, episode: i32, length: i32) -> (
    i32,
    i32,
) {
    if data.contains_key(id) && data[id].episodes == Some(1i32) {
        (1, 1)
    } else {
        (episode, length)
    }
}

fn edge_is(edge: &Edge, relation: &str) -> (r: bool)
    ensures
        r == (edge.relation_type@ == relation@),
{
    str_eq(edge.relation_type.as_str(), relation)
}

fn format_is_tv(format: &Option<String>) -> (r: bool)
    ensures
        r == (format matches Some(f) && f@ == "TV"@),
{
    match format {
        Some(f) => str_eq(f.as_str(), "TV"),
        None => false,
    }
}

impl AnimeData {
    /// One round of the prequel loop over the edges of a held anime.
    fn scan_prequels(&self, edges: &Vec<Edge>) -> (r: Option<Option<i32>>)
        ensures
            r == prequel_scan(self.data@, edges@),
            r matches Some(Some(p)) ==> self.data@.contains_key(p) && self.data@[p].episodes is Some,
    {
        let mut found: Option<i32> = None;
        let mut i: usize = 0;
        while i < edges.len()
            invariant
                0 <= i <= edges.len(),
                prequel_scan(self.data@, edges@.take(i as int)) == Some(found),
                found matches Some(p) ==> self.data@.contains_key(p) && self.data@[p].episodes is Some,
            decreases edges.len() - i,
        {
            let e = &edges[i];
            assert(edges@.take(i + 1).drop_last() =~= edges@.take(i as int));
            assert(edges@.take(i + 1).last() == *e);
            if edge_is(e, "PREQUEL") {
                if let Some(prev) = self.data.get(&e.node.id) {
                    match &prev.format {
                        None => {
                            proof { lemma_prequel_scan_stops(self.data@, edges@, i + 1, edges@.len() as int); }
                            assert(edges@.take(edges@.len() as int) =~= edges@);
                            return None;
                        },
                        Some(_) => {
                            if format_is_tv(&prev.format) {
                                if prev.episodes.is_none() {
                                    proof { lemma_prequel_scan_stops(self.data@, edges@, i + 1, edges@.len() as int); }
                                    assert(edges@.take(edges@.len() as int) =~= edges@);
                                    return None;
                                }
                                found = Some(e.node.id);
                            }
                        },
                    }
                }
            }
            i = i + 1;
        }
        assert(edges@.take(edges.len() as int) =~= edges@);
        Some(found)
    }

    /// The first TV sequel that the edges of a held anime name.
    fn find_sequel(&self, edges: &Vec<Edge>) -> (r: Option<i32>)
        ensures
            r == sequel_target(self.data@, edges@),
            r matches Some(n) ==> self.data@.contains_key(n),
    {
        let mut i: usize = 0;
        assert(edges@.skip(0) =~= edges@);
        while i < edges.len()
            invariant
                0 <= i <= edges.len(),
                sequel_target(self.data@, edges@) == sequel_target(self.data@, edges@.skip(i as int)),
            decreases edges.len() - i,
        {
            let e = &edges[i];
            assert(edges@.skip(i as int)[0] == *e);
            let tv = match self.data.get(&e.node.id) {
                Some(next) => format_is_tv(&next.format),
                None => false,
            };
            if edge_is(e, "SEQUEL") && tv {
                return Some(e.node.id);
            }
            assert(edges@.skip(i as int).skip(1) =~= edges@.skip(i + 1));
            i = i + 1;
        }
        None
    }

    /// The season and episode that an episode of anime `media_id` belongs to
    /// (see `sequel_replacement`).
    pub fn replace_with_sequel(&self, media_id: i32, episode: i32) -> (r: Option<(i32, i32)>)
        ensures
            r == sequel_replacement(self.data@, media_id, episode),
    {
        let first_episodes = match self.data.get(&media_id) {
            None => return Some((media_id, episode)),
            Some(anime) => match anime.episodes {
                None => return Some((media_id, episode)),
                Some(n) => n,
            },
        };
        if episode <= first_episodes {
            return Some((media_id, episode));
        }
        // back to the first season
        let mut id = media_id;
        let mut fuel: usize = self.data.len();
        let ghost total = self.data@.dom().len();
        assert(fuel == total);
        loop
            invariant
                self.data@.contains_key(id),
                self.data@[id].episodes is Some,
                fuel <= total,
                prequel_walk(self.data@, media_id, total) == prequel_walk(self.data@, id, fuel as nat),
                total == self.data@.dom().len(),
                self.data@.contains_key(media_id),
                self.data@[media_id].episodes == Some(first_episodes),
                episode > first_episodes,
            ensures
                prequel_walk(self.data@, id, fuel as nat) == Some(id),
            decreases fuel,
        {
            let anime = self.data.get(&id).unwrap();
            match self.scan_prequels(&anime.relations.edges) {
                None => return None,
                Some(None) => break,
                Some(Some(prev)) => {
                    if fuel == 0 {
                        return None;
                    }
                    id = prev;
                    fuel = fuel - 1;
                },
            }
        }
        // forward through the sequels
        let mut episodes = self.data.get(&id).unwrap().episodes.unwrap();
        let mut current = episode;
        let mut steps: u64 = if episode > 0 { episode as u64 } else { 0 };
        let ghost first = id;
        assert(sequel_replacement(self.data@, media_id, episode) == sequel_walk(
            self.data@,
            id,
            current,
            episodes,
            steps as nat,
        ));
        loop
            invariant
                self.data@.contains_key(id),
                self.data@[id].episodes is Some,
                sequel_replacement(self.data@, media_id, episode) == sequel_walk(
                    self.data@,
                    id,
                    current,
                    episodes,
                    steps as nat,
                ),
            decreases steps,
        {
            if current <= episodes {
                return Some((id, current));
            }
            let anime = self.data.get(&id).unwrap();
            match self.find_sequel(&anime.relations.edges) {
                None => return Some((id, current)),
                Some(next) => {
                    let left: i64 = (current as i64) - (episodes as i64);
                    if left < -2147483648 || left > 2147483647 {
                        return None;
                    }
                    match self.data.get(&next).unwrap().episodes {
                        None => return Some((next, left as i32)),
                        Some(n) => {
                            if steps == 0 {
                                return None;
                            }
                            id = next;
                            current = left as i32;
                            episodes = n;
                            steps = steps - 1;
                        },
                    }
                },
            }
        }
    }

    /// The episode and episode count of a file of an anime of one episode is 1
    /// (see `episode_fixed`).
    pub fn episode_fix(&self, media_id: i32, episode: i32, length: i32) -> (r: (i32, i32))
        ensures
            r == episode_fixed(self.data@, media_id, episode, length),
    {
        match self.data.get(&media_id) {
            Some(anime) => match anime.episodes {
                Some(n) => if n == 1 {
                    (1, 1)
                } else {
                    (episode, length)
                },
                None => (episode, length),
            },
            None => (episode, length),
        }
    }
}

proof fn lemma_prequel_scan_stops(data: Map<i32, AnimeInfo>, edges: Seq<Edge>, i: int, j: int)
    requires
        0 <= i <= j <= edges.len(),
        prequel_scan(data, edges.take(i)) is None,
    ensures
        prequel_scan(data, edges.take(j)) is None,
    decreases j - i,
{
    if j > i {
        lemma_prequel_scan_stops(data, edges, i, j - 1);
        assert(edges.take(j).drop_last() =~= edges.take(j - 1));
    }
}

/// When every season held counts at least one episode, the walk forward from
/// a season through its sequels reaches the season of a positive episode
/// within as many steps as the episode's number: it never breaks off.
pub proof fn law_sequel_walk_completes(
    data: Map<i32, AnimeInfo>,
    id: i32,
    episode: i32,
    episodes: i32,
    fuel: nat,
)
    requires
        forall|k: i32| #[trigger] data.contains_key(k) ==> (data[k].episodes matches Some(n) ==> n >= 1),
        1 <= episodes,
        1 <= episode <= fuel,
    ensures
        sequel_walk(data, id, episode, episodes, fuel) is Some,
    decreases fuel,
{
    if episode > episodes {
        match sequel_target(data, data[id].relations.edges@) {
            None => {},
            Some(next) => {
                lemma_sequel_target_held(data, data[id].relations.edges@);
                assert(data.contains_key(next));
                match data[next].episodes {
                    None => {},
                    Some(n) => {
                        law_sequel_walk_completes(data, next, (episode - episodes) as i32, n, (fuel - 1) as nat);
                    },
                }
            },
        }
    }
}

/// Moving an episode forward through sequels only ever takes the earlier
/// seasons' episodes off it: the walk either stays on the season with the
/// episode as it was, or ends on an episode at least a whole season's count
/// lower.
pub proof fn law_sequel_walk_counts_down(
    data: Map<i32, AnimeInfo>,
    id: i32,
    episode: i32,
    episodes: i32,
    fuel: nat,
)
    requires
        forall|k: i32| #[trigger] data.contains_key(k) ==> (data[k].episodes matches Some(n) ==> n >= 1),
        1 <= episodes,
    ensures
        sequel_walk(data, id, episode, episodes, fuel) matches Some((n, e)) ==> (n == id && e == episode)
            || e <= episode - episodes,
    decreases fuel,
{
    if episode > episodes {
        match sequel_target(data, data[id].relations.edges@) {
            None => {},
            Some(next) => {
                lemma_sequel_target_held(data, data[id].relations.edges@);
                let left = episode - episodes;
                if i32::MIN <= left <= i32::MAX {
                    match data[next].episodes {
                        None => {},
                        Some(c) => {
                            if fuel > 0 {
                                law_sequel_walk_counts_down(data, next, left as i32, c, (fuel - 1) as nat);
                            }
                        },
                    }
                }
            },
        }
    }
}

/// An episode within the count of its anime, or of an anime whose count is
/// not known or that is not held, stays where it is; an anime of a single
/// episode always gives episode 1 of 1, and any other keeps the numbers.
pub proof fn law_episode_stays_within_its_season(data: Map<i32, AnimeInfo>, id: i32, episode: i32, length: i32)
    ensures
        (!data.contains_key(id) || data[id].episodes is None || episode <= data[id].episodes->0)
            ==> sequel_replacement(data, id, episode) == Some((id, episode)),
        data.contains_key(id) && data[id].episodes == Some(1i32) ==> episode_fixed(data, id, episode, length)
            == (1i32, 1i32),
        !(data.contains_key(id) && data[id].episodes == Some(1i32)) ==> episode_fixed(data, id, episode, length)
            == (episode, length),
{
}

/// The sequel the edges lead to is held.
proof fn lemma_sequel_target_held(data: Map<i32, AnimeInfo>, edges: Seq<Edge>)
    ensures
        sequel_target(data, edges) matches Some(next) ==> data.contains_key(next),
    decreases edges.len(),
{
    if edges.len() > 0 && !leads_to_tv_sequel(data, edges[0]) {
        lemma_sequel_target_held(data, edges.skip(1));
    }
}

} // verus!
