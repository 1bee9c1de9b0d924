//! Finding episode files: what a scan decides for each file it walks over,
//! and the bookkeeping around a scan.  Walking the folders is left to the
//! caller, which hands each file's path and extension to `scan_file`.

use vstd::prelude::*;
use std::collections::{HashMap, HashSet};
use crate::anime_data::{AnimeData, AnimePath, IdentifyView, Similarity, above_threshold, more_similar};
use crate::duplicate::Duplicate;
use crate::maps::keys_of;
use crate::foreign::{path_hash, regex_is_match, regex_matches};
use crate::identify::identified;
use crate::recognition::is_ordering;
use crate::text::{after_last, after_last_char, str_eq};

verus! {

broadcast use {vstd::std_specs::hash::group_hash_axioms, vstd::seq_lib::group_seq_properties};

/// Openings, endings, previews and menus: files that are not episodes.
pub const EXTRA_VIDEOS: &'static str = r"[ _\.][oO][pP]\d*([vV]\d)?[ _\.]|[ _\.]NCOP\d*([vV]\d)?[ _\.]|[ _\.]NCED\d*([vV]\d)?[ _\.]|[ _\.][eE][dD]\d*([vV]\d)?[ _\.]|[ _\.][sS]kit[ _\.]|[eE]nding|[oO]pening|[ _][pP][vV][ _]|[bB][dD] [mM][eE][nN][uU]";

/// The extension of a video file the program plays.
pub open spec fn video_extension(ext: Option<String>) -> bool {
    ext matches Some(e) && (e@ == "mkv"@ || e@ == "mp4"@ || e@ == "avi"@)
}

pub fn is_video_extension(ext: &Option<String>) -> (r: bool)
    ensures
        r == video_extension(*ext),
{
    match ext {
        Some(e) => str_eq(e.as_str(), "mkv") || str_eq(e.as_str(), "mp4") || str_eq(e.as_str(), "avi"),
        None => false,
    }
}

/// The file name of a path: what follows its last backslash.
pub open spec fn file_name_of(path: Seq<char>) -> Seq<char> {
    after_last(path, '\\')
}

/// The found episodes as maps.
pub open spec fn paths_view(m: Map<i32, HashMap<i32, AnimePath>>) -> Map<i32, Map<i32, AnimePath>> {
    m.map_values(|h: HashMap<i32, AnimePath>| h@)
}

/// The file counts as an episode: it names an anime, alike enough.
pub open spec fn counts_as_episode(found: Option<IdentifyView>) -> bool {
    found matches Some(v) && v.media_id != 0 && above_threshold(v.similarity)
}

/// The episodes found after a file: an episode file takes its place unless a
/// file already there is at least as alike.
pub open spec fn placed(
    paths: Map<i32, Map<i32, AnimePath>>,
    path: String,
    found: Option<IdentifyView>,
) -> Map<i32, Map<i32, AnimePath>> {
    match found {
        Some(v) => if counts_as_episode(found) {
            let inner = if paths.contains_key(v.media_id) {
                paths[v.media_id]
            } else {
                Map::empty()
            };
            let entry = AnimePath { path, similarity: v.similarity };
            let new_inner = if inner.contains_key(v.episode) && !more_similar(
                v.similarity,
                inner[v.episode].similarity,
            ) {
                inner
            } else {
                inner.insert(v.episode, entry)
            };
            paths.insert(v.media_id, new_inner)
        } else {
            paths
        },
        None => paths,
    }
}

/// What scanning the file at `path`, remembered under `hash`, does to the
/// store, with `found` telling whether it was an episode.  Extras are passed
/// over; other files are remembered; a file seen in an earlier scan is passed
/// over when `skip_files` is set; any other file is identified (among all
/// anime, or only `media_id`) and placed.
pub open spec fn scan_step(
    before: AnimeData,
    after: AnimeData,
    path: String,
    hash: u64,
    skip_files: bool,
    media_id: Option<i32>,
    known_files: Set<u64>,
    found: bool,
) -> bool {
    let name = file_name_of(path@);
    &&& after.data == before.data
    &&& after.nonexistent_ids == before.nonexistent_ids
    &&& after.needs_scan == before.needs_scan
    &&& after.new_anime == before.new_anime
    &&& if regex_matches(EXTRA_VIDEOS@, name) {
        &&& !found
        &&& after.anime_path == before.anime_path
        &&& after.known_files == before.known_files
    } else {
        &&& after.known_files@ == before.known_files@.insert(hash)
        &&& if skip_files && known_files.contains(hash) {
            !found && after.anime_path == before.anime_path
        } else {
            exists|order: Seq<i32>|
                is_ordering(order, before.data@.dom()) && {
                    let identity = identified(before.data@, order, name, media_id);
                    &&& found == counts_as_episode(identity)
                    &&& paths_view(after.anime_path@) == placed(
                        paths_view(before.anime_path@),
                        path,
                        identity,
                    )
                }
        }
    }
}

impl AnimeData {
    /// Puts a file found for an episode in its place (see `placed`).
    fn place_episode(&mut self, media_id: i32, episode: i32, path: String, similarity: Similarity)
        ensures
            media_id != 0 && above_threshold(similarity) ==> paths_view(final(self).anime_path@)
                == placed(
                paths_view(old(self).anime_path@),
                path,
                Some(
                    IdentifyView {
                        filename: Seq::empty(),
                        file_title: Seq::empty(),
                        media_id,
                        similarity,
                        media_title: Seq::empty(),
                        sub_group: Seq::empty(),
                        resolution: 0,
                        episode,
                        episode_length: 0,
                    },
                ),
            ),
            !(media_id != 0 && above_threshold(similarity)) ==> final(self).anime_path == old(self).anime_path,
            final(self).data == old(self).data,
            final(self).nonexistent_ids == old(self).nonexistent_ids,
            final(self).needs_scan == old(self).needs_scan,
            final(self).known_files == old(self).known_files,
            final(self).new_anime == old(self).new_anime,
    {
        if media_id == 0 || !similarity.above_threshold() {
            return;
        }
        let ghost before = paths_view(self.anime_path@);
        let mut media: HashMap<i32, AnimePath> = match self.anime_path.remove(&media_id) {
            Some(m) => m,
            None => HashMap::new(),
        };
        let ghost inner = media@;
        assert(inner == (if before.contains_key(media_id) {
            before[media_id]
        } else {
            Map::<i32, AnimePath>::empty()
        }));
        let replace = match media.get(&episode) {
            Some(existing) => similarity.exceeds(&existing.similarity),
            None => true,
        };
        if replace {
            media.insert(episode, AnimePath { path, similarity });
        }
        self.anime_path.insert(media_id, media);
        assert(paths_view(self.anime_path@) =~= before.insert(media_id, media@));
    }

    /// Scans one file remembered under `hash` (see `scan_step`); `true` when it
    /// is an episode of an anime.
    pub fn scan_hashed_file(
        &mut self,
        path: String,
        hash: u64,
        skip_files: bool,
        media_id: Option<i32>,
        known_files: &HashSet<u64>,
    ) -> (found: bool)
        ensures
            scan_step(*old(self), *final(self), path, hash, skip_files, media_id, known_files@, found),
    {
        let file_name = after_last_char(path.as_str(), '\\');
        if regex_is_match(EXTRA_VIDEOS, file_name.as_str()) {
            return false;
        }
        self.known_files.insert(hash);
        if skip_files && known_files.contains(&hash) {
            return false;
        }
        let ghost before = *self;
        let identity = self.identify_anime(file_name, media_id);
        match identity {
            Some(info) => {
                let counts = info.media_id != 0 && info.similarity.above_threshold();
                self.place_episode(info.media_id, info.episode, path, info.similarity);
                proof {
                    let order = choose|order: Seq<i32>|
                        is_ordering(order, before.data@.dom()) && identified(
                            before.data@,
                            order,
                            after_last(path@, '\\'),
                            media_id,
                        ) == Some(info@);
                    assert(is_ordering(order, before.data@.dom()));
                }
                counts
            },
            None => false,
        }
    }

    /// Scans one file the walk came upon: a video file is remembered under the
    /// hash of its path and scanned (see `scan_step`); any other is passed over.
    pub fn scan_file(
        &mut self,
        path: String,
        extension: Option<String>,
        skip_files: bool,
        media_id: Option<i32>,
        known_files: &HashSet<u64>,
    ) -> (found: bool)
        ensures
            !video_extension(extension) ==> !found && *final(self) == *old(self),
            video_extension(extension) ==> exists|hash: u64|
                scan_step(*old(self), *final(self), path, hash, skip_files, media_id, known_files@, found),
    {
        if !is_video_extension(&extension) {
            return false;
        }
        let hash = path_hash(path.as_str());
        self.scan_hashed_file(path, hash, skip_files, media_id, known_files)
    }

    /// Starts a scan of the folders: gives back the files known from earlier
    /// scans and forgets them, so that files gone missing drop out.  A full
    /// scan (no files skipped, every anime) makes the waiting single-anime
    /// scans needless.
    pub fn begin_scan(&mut self, skip_files: bool, media_id: Option<i32>) -> (known: HashSet<u64>)
        ensures
            known@ == old(self).known_files@,
            final(self).known_files@ == Set::<u64>::empty(),
            !skip_files && media_id is None ==> final(self).needs_scan@ == Seq::<i32>::empty(),
            !(!skip_files && media_id is None) ==> final(self).needs_scan == old(self).needs_scan,
            final(self).data == old(self).data,
            final(self).nonexistent_ids == old(self).nonexistent_ids,
            final(self).anime_path == old(self).anime_path,
            final(self).new_anime == old(self).new_anime,
    {
        if !skip_files && media_id.is_none() {
            self.needs_scan.clear();
        }
        let mut known: HashSet<u64> = HashSet::new();
        std::mem::swap(&mut known, &mut self.known_files);
        known
    }

    /// The anime waiting for a scan of their own, which stop waiting.
    pub fn take_ids_for_scanning(&mut self) -> (r: Vec<i32>)
        ensures
            r@ == old(self).needs_scan@,
            final(self).needs_scan@ == Seq::<i32>::empty(),
            final(self).data == old(self).data,
            final(self).nonexistent_ids == old(self).nonexistent_ids,
            final(self).anime_path == old(self).anime_path,
            final(self).known_files == old(self).known_files,
            final(self).new_anime == old(self).new_anime,
    {
        let mut taken: Vec<i32> = Vec::new();
        std::mem::swap(&mut taken, &mut self.needs_scan);
        taken
    }
}

/// The path is among the missing ones.
pub open spec fn path_missing(missing: Seq<String>, p: String) -> bool {
    exists|k: int| 0 <= k < missing.len() && #[trigger] missing[k]@ == p@
}

/// The episodes whose files are not missing.
pub open spec fn kept_episodes(inner: Map<i32, AnimePath>, missing: Seq<String>) -> Map<i32, AnimePath> {
    Map::new(
        |e: i32| inner.contains_key(e) && !path_missing(missing, inner[e].path),
        |e: i32| inner[e],
    )
}

/// The found episodes without the missing files, and only the anime that keep
/// an episode.
pub open spec fn without_missing(
    paths: Map<i32, Map<i32, AnimePath>>,
    missing: Seq<String>,
) -> Map<i32, Map<i32, AnimePath>> {
    Map::new(
        |id: i32| paths.contains_key(id) && kept_episodes(paths[id], missing).len() > 0,
        |id: i32| kept_episodes(paths[id], missing),
    )
}

fn is_missing(missing: &Vec<String>, p: &String) -> (r: bool)
    ensures
        r == path_missing(missing@, *p),
{
    let mut k: usize = 0;
    while k < missing.len()
        invariant
            0 <= k <= missing.len(),
            forall|j: int| 0 <= j < k ==> missing@[j]@ != p@,
        decreases missing.len() - k,
    {
        if str_eq(missing[k].as_str(), p.as_str()) {
            return true;
        }
        k = k + 1;
    }
    false
}

fn keep_found(inner: &HashMap<i32, AnimePath>, missing: &Vec<String>) -> (r: HashMap<i32, AnimePath>)
    ensures
        r@ == kept_episodes(inner@, missing@),
{
    let eps = keys_of(inner);
    let mut kept: HashMap<i32, AnimePath> = HashMap::new();
    let mut k: usize = 0;
    while k < eps.len()
        invariant
            0 <= k <= eps.len(),
            eps@.to_set() == inner@.dom(),
            kept@ == Map::new(
                |e: i32| eps@.take(k as int).contains(e) && inner@.contains_key(e) && !path_missing(
                    missing@,
                    inner@[e].path,
                ),
                |e: i32| inner@[e],
            ),
        decreases eps.len() - k,
    {
        let e = eps[k];
        assert(eps@.to_set().contains(e));
        let found = inner.get(&e).unwrap();
        let ghost prev = kept@;
        let gone = is_missing(missing, &found.path);
        if !gone {
            kept.insert(e, found.duplicate());
        }
        proof {
            assert(eps@.take(k + 1) =~= eps@.take(k as int).push(e));
            let t1 = eps@.take(k + 1);
            let t0 = eps@.take(k as int);
            assert forall|x: i32| #[trigger] t1.contains(x) == (t0.contains(x) || x == e) by {
                if t1.contains(x) && x != e {
                    let w = choose|w: int| 0 <= w < t1.len() && t1[w] == x;
                    assert(t0[w] == x);
                }
                if t0.contains(x) {
                    let w = choose|w: int| 0 <= w < t0.len() && t0[w] == x;
                    assert(t1[w] == x);
                }
                if x == e {
                    assert(t1[k as int] == x);
                }
            }
            assert(kept@ =~= Map::new(
                |x: i32| eps@.take(k + 1).contains(x) && inner@.contains_key(x) && !path_missing(
                    missing@,
                    inner@[x].path,
                ),
                |x: i32| inner@[x],
            ));
        }
        k = k + 1;
    }
    assert(eps@.take(k as int) =~= eps@);
    assert(kept@ =~= kept_episodes(inner@, missing@)) by {
        assert forall|x: i32| inner@.contains_key(x) implies eps@.contains(x) by {
            assert(eps@.to_set().contains(x));
        }
    }
    kept
}

impl AnimeData {
    /// Every path where an episode was found, each anime's in turn.
    pub fn all_episode_paths(&self) -> (r: Vec<String>)
        ensures
            forall|id: i32, e: i32|
                self.anime_path@.contains_key(id) && self.anime_path@[id]@.contains_key(e)
                    ==> r@.contains(#[trigger] self.anime_path@[id]@[e].path),
    {
        let ids = keys_of(&self.anime_path);
        let mut out: Vec<String> = Vec::new();
        let mut k: usize = 0;
        while k < ids.len()
            invariant
                0 <= k <= ids.len(),
                ids@.to_set() == self.anime_path@.dom(),
                forall|id: i32, e: i32|
                    ids@.take(k as int).contains(id) && self.anime_path@.contains_key(id)
                        && self.anime_path@[id]@.contains_key(e) ==> out@.contains(
                        #[trigger] self.anime_path@[id]@[e].path,
                    ),
            decreases ids.len() - k,
        {
            let id = ids[k];
            assert(ids@.to_set().contains(id));
            let inner = self.anime_path.get(&id).unwrap();
            let eps = keys_of(inner);
            let ghost start = out@;
            let mut j: usize = 0;
            while j < eps.len()
                invariant
                    0 <= j <= eps.len(),
                    eps@.to_set() == inner@.dom(),
                    forall|x: int| 0 <= x < start.len() ==> out@[x] == start[x],
                    start.len() <= out@.len(),
                    forall|e: i32|
                        eps@.take(j as int).contains(e) && inner@.contains_key(e) ==> out@.contains(
                            #[trigger] inner@[e].path,
                        ),
                decreases eps.len() - j,
            {
                let e = eps[j];
                assert(eps@.to_set().contains(e));
                let found = inner.get(&e).unwrap();
                let ghost prev = out@;
                out.push(found.path.clone());
                proof {
                    assert(eps@.take(j + 1) =~= eps@.take(j as int).push(e));
                    assert(out@[prev.len() as int] == inner@[e].path);
                    assert forall|x: i32|
                        eps@.take(j + 1).contains(x) && inner@.contains_key(x) implies out@.contains(
                        #[trigger] inner@[x].path,
                    ) by {
                        if x != e {
                            let t1 = eps@.take(j + 1);
                            let w0 = choose|w: int| 0 <= w < t1.len() && t1[w] == x;
                            assert(eps@.take(j as int)[w0] == x);
                            assert(prev.contains(inner@[x].path));
                            let w = choose|w: int| 0 <= w < prev.len() && prev[w] == inner@[x].path;
                            assert(out@[w] == prev[w]);
                        } else {
                            assert(out@[prev.len() as int] == inner@[x].path);
                        }
                    }
                }
                j = j + 1;
            }
            proof {
                assert(eps@.take(j as int) =~= eps@);
                assert(ids@.take(k + 1) =~= ids@.take(k as int).push(id));
                assert forall|x: i32, e: i32|
                    ids@.take(k + 1).contains(x) && self.anime_path@.contains_key(x)
                        && self.anime_path@[x]@.contains_key(e) implies out@.contains(
                        #[trigger] self.anime_path@[x]@[e].path,
                    ) by {
                    if x != id {
                        assert(ids@.take(k as int).contains(x));
                        assert(start.contains(self.anime_path@[x]@[e].path));
                        let w = choose|w: int| 0 <= w < start.len() && start[w] == self.anime_path@[x]@[e].path;
                        assert(out@[w] == start[w]);
                    } else {
                        assert(eps@.to_set().contains(e));
                    }
                }
            }
            k = k + 1;
        }
        proof {
            assert(ids@.take(k as int) =~= ids@);
            assert forall|id: i32, e: i32|
                self.anime_path@.contains_key(id) && self.anime_path@[id]@.contains_key(e)
                    implies out@.contains(#[trigger] self.anime_path@[id]@[e].path) by {
                assert(ids@.to_set().contains(id));
            }
        }
        out
    }

    /// Forgets the episodes whose files are missing, and the anime left
    /// without an episode.
    pub fn remove_missing_files(&mut self, missing: &Vec<String>)
        ensures
            paths_view(final(self).anime_path@) == without_missing(
                paths_view(old(self).anime_path@),
                missing@,
            ),
            final(self).data == old(self).data,
            final(self).nonexistent_ids == old(self).nonexistent_ids,
            final(self).needs_scan == old(self).needs_scan,
            final(self).known_files == old(self).known_files,
            final(self).new_anime == old(self).new_anime,
    {
        let ghost before = paths_view(self.anime_path@);
        let ids = keys_of(&self.anime_path);
        let mut kept_all: HashMap<i32, HashMap<i32, AnimePath>> = HashMap::new();
        let mut k: usize = 0;
        while k < ids.len()
            invariant
                0 <= k <= ids.len(),
                ids@.to_set() == self.anime_path@.dom(),
                ids@.no_duplicates(),
                before == paths_view(self.anime_path@),
                paths_view(kept_all@) == Map::new(
                    |id: i32| ids@.take(k as int).contains(id) && before.contains_key(id)
                        && kept_episodes(before[id], missing@).len() > 0,
                    |id: i32| kept_episodes(before[id], missing@),
                ),
            decreases ids.len() - k,
        {
            let id = ids[k];
            assert(ids@.to_set().contains(id));
            let inner = self.anime_path.get(&id).unwrap();
            let kept = keep_found(inner, missing);
            assert(inner@ == before[id]);
            let ghost prev = kept_all@;
            let ghost kept_view = kept@;
            if kept.len() > 0 {
                kept_all.insert(id, kept);
                assert(paths_view(kept_all@) =~= paths_view(prev).insert(id, kept_view));
            }
            proof {
                assert(before.contains_key(id));
                let t1 = ids@.take(k + 1);
                let t0 = ids@.take(k as int);
                assert forall|x: i32| #[trigger] t1.contains(x) == (t0.contains(x) || x == id) by {
                    if t1.contains(x) && x != id {
                        let w = choose|w: int| 0 <= w < t1.len() && t1[w] == x;
                        assert(t0[w] == x);
                    }
                    if t0.contains(x) {
                        let w = choose|w: int| 0 <= w < t0.len() && t0[w] == x;
                        assert(t1[w] == x);
                    }
                    if x == id {
                        assert(t1[k as int] == x);
                    }
                }
                assert(!t0.contains(id)) by {
                    if t0.contains(id) {
                        let w = choose|w: int| 0 <= w < t0.len() && t0[w] == id;
                        assert(ids@[w] == ids@[k as int]);
                    }
                }
                assert(paths_view(kept_all@) =~= Map::new(
                    |x: i32| t1.contains(x) && before.contains_key(x)
                        && kept_episodes(before[x], missing@).len() > 0,
                    |x: i32| kept_episodes(before[x], missing@),
                ));
            }
            k = k + 1;
        }
        proof {
            assert(ids@.take(k as int) =~= ids@);
            assert forall|x: i32| before.contains_key(x) implies ids@.contains(x) by {
                assert(ids@.to_set().contains(x));
            }
            assert(paths_view(kept_all@) =~= without_missing(before, missing@));
        }
        self.anime_path = kept_all;
    }
}

/// A file counts as an episode exactly when it names an anime (an id other
/// than 0) more than four fifths alike.  Such a file becomes its episode's
/// file unless a file already there is at least as alike; nothing else of the
/// found episodes changes, and a file that does not count changes nothing.
pub proof fn law_placed_changes_one_episode(
    paths: Map<i32, Map<i32, AnimePath>>,
    path: String,
    found: Option<IdentifyView>,
    id: i32,
    episode: i32,
)
    ensures
        counts_as_episode(found) <==> (found is Some && found->0.media_id != 0 && found->0.similarity.numerator
            * 5 > found->0.similarity.denominator * 4),
        !counts_as_episode(found) ==> placed(paths, path, found) == paths,
        counts_as_episode(found) ==> ({
            let v = found->0;
            let after = placed(paths, path, found);
            let had = paths.contains_key(v.media_id) && paths[v.media_id].contains_key(v.episode);
            &&& after[v.media_id][v.episode] == (if had && v.similarity.numerator
                * paths[v.media_id][v.episode].similarity.denominator <= paths[v.media_id][v.episode].similarity.numerator
                * v.similarity.denominator {
                paths[v.media_id][v.episode]
            } else {
                AnimePath { path, similarity: v.similarity }
            })
            &&& (id != v.media_id ==> after.contains_key(id) == paths.contains_key(id) && (paths.contains_key(id)
                ==> after[id] == paths[id]))
            &&& (episode != v.episode && paths.contains_key(v.media_id) ==> after[v.media_id].contains_key(episode)
                == paths[v.media_id].contains_key(episode) && (paths[v.media_id].contains_key(episode)
                ==> after[v.media_id][episode] == paths[v.media_id][episode]))
        }),
{
}

/// A scan never makes an episode's file less alike to its anime: where an
/// episode had a file before a file is placed, it has one after that is at
/// least as alike; and an episode file always has its place afterwards.
pub proof fn law_placed_never_worse(
    paths: Map<i32, Map<i32, AnimePath>>,
    path: String,
    found: Option<IdentifyView>,
    id: i32,
    episode: i32,
)
    ensures
        paths.contains_key(id) && paths[id].contains_key(episode) ==> {
            let after = placed(paths, path, found);
            &&& after.contains_key(id)
            &&& after[id].contains_key(episode)
            &&& !more_similar(paths[id][episode].similarity, after[id][episode].similarity)
        },
        counts_as_episode(found) ==> ({
            let v = found->0;
            let after = placed(paths, path, found);
            after.contains_key(v.media_id) && after[v.media_id].contains_key(v.episode)
        }),
{
}

} // verus!
