//! Following what the user watches in a media player, and the program's
//! periodic decisions.
//!
//! Each window title that names a video file is stripped of the player's
//! name and identified.  An episode that is the user's next one starts being
//! followed; once it has played for the update delay, the user's progress
//! moves on.  Times are whole seconds of a clock that only goes forward.

use vstd::prelude::*;
use std::collections::HashMap;
use crate::anime_data::{AnimeData, AnimeInfo};
use crate::constants::{ONE_HOUR, STARTUP_SCAN_DELAY};
use crate::duplicate::{duplicate_option, duplicate_vec};
use crate::foreign::{regex_is_match, regex_matches, regex_replace_first, regex_replaced_first};
use crate::maps::keys_of;
use crate::sorting::{consistent_on, insertion_sorted, mode_named, sorted_by};
use crate::ui_state::RefreshUI;
use crate::user_data::UserInfo;

verus! {

broadcast use {vstd::std_specs::hash::group_hash_axioms, vstd::seq_lib::group_to_multiset_ensures};

/// A window title that names a video file.
pub const VIDEO_FILES: &'static str = r"\.mkv|\.avi|\.mp4";

/// The names media players add to their window titles.
pub const VLC_SUFFIX: &'static str = r" - VLC media player";

pub const GOM_SUFFIX: &'static str = r" - GOM Player";

pub const ZOOM_SUFFIX: &'static str = r" - Zoom Player MAX";

pub const MPV_SUFFIX: &'static str = r" - mpv";

pub const POT_SUFFIX: &'static str = r" - PotPlayer";

/// An episode being watched.
#[derive(Debug)]
pub struct WatchingTracking {
    /// When it started playing.
    pub started: u64,
    /// It was seen playing since the last look.
    pub monitoring: bool,
    pub episode: i32,
    pub length: i32,
    pub title: String,
}

/// The episodes being watched, by anime.
pub struct Watching {
    pub tracking: HashMap<i32, WatchingTracking>,
}

/// The titles that name a video file, in order.
pub open spec fn video_title() -> spec_fn(String) -> bool {
    |t: String| regex_matches(VIDEO_FILES@, t@)
}

/// The title without the first mention of each media player, in turn.
pub open spec fn without_player(title: Seq<char>) -> Seq<char> {
    let a = regex_replaced_first(VLC_SUFFIX@, title, ""@);
    let b = regex_replaced_first(GOM_SUFFIX@, a, ""@);
    let c = regex_replaced_first(ZOOM_SUFFIX@, b, ""@);
    let d = regex_replaced_first(MPV_SUFFIX@, c, ""@);
    regex_replaced_first(POT_SUFFIX@, d, ""@)
}

/// The episode is the user's next one: past the progress and within the
/// episodes the file holds.
pub open spec fn next_episode(episode: i32, episode_length: i32, progress: i32) -> bool {
    episode > progress && episode <= progress + episode_length
}

/// Only an episode past the user's progress, and no further past it than the
/// file's episodes reach, is the next one: an episode at or below the
/// progress never is.
pub proof fn law_next_episode_is_past_progress(episode: i32, episode_length: i32, progress: i32)
    ensures
        next_episode(episode, episode_length, progress) ==> progress < episode,
        next_episode(episode, episode_length, progress) ==> episode - progress <= episode_length,
        episode <= progress ==> !next_episode(episode, episode_length, progress),
        progress < episode && episode - progress <= episode_length ==> next_episode(episode, episode_length, progress),
{
}

/// The titles kept are exactly those that name a video file, in their order:
/// a title stays when and only when it matches the video file pattern.
pub proof fn law_watched_titles_keep_video_files(titles: Seq<String>, t: String)
    ensures
        titles.filter(video_title()).contains(t) <==> titles.contains(t) && regex_matches(VIDEO_FILES@, t@),
        titles.filter(video_title()).len() <= titles.len(),
{
    let p = video_title();
    titles.lemma_filter_len(p);
    if titles.filter(p).contains(t) {
        titles.lemma_filter_contains_rev(p, t);
        let k = choose|k: int| 0 <= k < titles.filter(p).len() && titles.filter(p)[k] == t;
        titles.lemma_filter_pred(p, k);
    }
    if titles.contains(t) && p(t) {
        let k = choose|k: int| 0 <= k < titles.len() && titles[k] == t;
        titles.lemma_filter_contains(p, k);
    }
}

/// Seconds gone since `start`.
pub open spec fn elapsed(start: u64, now: u64) -> int {
    if now >= start {
        now - start
    } else {
        0
    }
}

/// The titles that name a video file.
pub fn watched_titles(titles: Vec<String>) -> (r: Vec<String>)
    ensures
        r@ == titles@.filter(video_title()),
{
    let mut out: Vec<String> = Vec::new();
    let mut i: usize = 0;
    while i < titles.len()
        invariant
            0 <= i <= titles.len(),
            out@ == titles@.take(i as int).filter(video_title()),
        decreases titles.len() - i,
    {
        proof {
            assert(titles@.take(i + 1) =~= titles@.take(i as int).push(titles@[i as int]));
            titles@.take(i as int).lemma_filter_push(titles@[i as int], video_title());
        }
        if regex_is_match(VIDEO_FILES, titles[i].as_str()) {
            out.push(titles[i].clone());
        }
        i = i + 1;
    }
    assert(titles@.take(titles.len() as int) =~= titles@);
    out
}

/// The title without the media players' names (see `without_player`).
pub fn strip_player(title: &str) -> (r: String)
    ensures
        r@ == without_player(title@),
{
    proof {
        reveal_strlit("");
    }
    let a = regex_replace_first(VLC_SUFFIX, title, "");
    let b = regex_replace_first(GOM_SUFFIX, a.as_str(), "");
    let c = regex_replace_first(ZOOM_SUFFIX, b.as_str(), "");
    let d = regex_replace_first(MPV_SUFFIX, c.as_str(), "");
    regex_replace_first(POT_SUFFIX, d.as_str(), "")
}

impl Watching {
    pub fn new() -> (r: Watching)
        ensures
            r.tracking@ == Map::<i32, WatchingTracking>::empty(),
    {
        Watching { tracking: HashMap::new() }
    }

    /// How many episodes are being watched.
    pub fn len(&self) -> (r: usize)
        ensures
            r == self.tracking@.len(),
    {
        self.tracking.len()
    }

    /// No episode has been seen playing yet in this look.
    pub fn reset_monitoring(&mut self)
        ensures
            final(self).tracking@.dom() == old(self).tracking@.dom(),
            forall|id: i32| #[trigger]
                final(self).tracking@.contains_key(id) ==> {
                    let t = final(self).tracking@[id];
                    let o = old(self).tracking@[id];
                    &&& !t.monitoring
                    &&& t.started == o.started && t.episode == o.episode && t.length == o.length
                    &&& t.title == o.title
                },
    {
        let ids = keys_of(&self.tracking);
        let ghost start = self.tracking@;
        let mut k: usize = 0;
        while k < ids.len()
            invariant
                0 <= k <= ids.len(),
                ids@.to_set() == start.dom(),
                ids@.no_duplicates(),
                self.tracking@.dom() == start.dom(),
                forall|id: i32| #[trigger]
                    self.tracking@.contains_key(id) ==> {
                        let t = self.tracking@[id];
                        let o = start[id];
                        &&& (ids@.take(k as int).contains(id) ==> !t.monitoring)
                        &&& (!ids@.take(k as int).contains(id) ==> t.monitoring == o.monitoring)
                        &&& t.started == o.started && t.episode == o.episode && t.length == o.length
                        &&& t.title == o.title
                    },
            decreases ids.len() - k,
        {
            let id = ids[k];
            assert(ids@.to_set().contains(id));
            let mut t = self.tracking.remove(&id).unwrap();
            t.monitoring = false;
            self.tracking.insert(id, t);
            proof {
                let t1 = ids@.take(k + 1);
                let t0 = ids@.take(k as int);
                assert forall|x: i32| #[trigger] t1.contains(x) == (t0.contains(x) || x == id) by {
                    if t1.contains(x) && x != id {
                        let w = choose|w: int| 0 <= w < t1.len() && t1[w] == x;
                        assert(t0[w] == x);
                    }
                    if t0.contains(x) {
                        let w = choose|w: int| 0 <= w < t0.len() && t0[w] == x;
                        assert(t1[w] == x);
                    }
                    if x == id {
                        assert(t1[k as int] == x);
                    }
                }
                assert(self.tracking@.dom() =~= start.dom());
            }
            k = k + 1;
        }
        assert(ids@.take(k as int) =~= ids@);
        proof {
            assert forall|id: i32| #[trigger] self.tracking@.contains_key(id) implies ids@.contains(id) by {
                assert(ids@.to_set().contains(id));
            }
        }
    }

    /// What a title identified as `episode` (holding `episode_length`
    /// episodes) of the anime `media_id` does, for a user whose progress on
    /// it is `progress`: an episode already followed stays followed when it is
    /// still the next one; another next episode, above 0, starts being
    /// followed now.
    pub fn observe(
        &mut self,
        media_id: i32,
        episode: i32,
        episode_length: i32,
        media_title: String,
        progress: i32,
        now: u64,
    )
        ensures
            old(self).tracking@.contains_key(media_id) ==> {
                let o = old(self).tracking@[media_id];
                if next_episode(episode, episode_length, progress) && o.episode == episode {
                    final(self).tracking@ == old(self).tracking@.insert(
                        media_id,
                        WatchingTracking { monitoring: true, ..o },
                    )
                } else {
                    final(self).tracking@ == old(self).tracking@
                }
            },
            !old(self).tracking@.contains_key(media_id) ==> {
                if next_episode(episode, episode_length, progress) && episode > 0 {
                    final(self).tracking@ == old(self).tracking@.insert(
                        media_id,
                        WatchingTracking {
                            started: now,
                            monitoring: true,
                            episode,
                            length: episode_length,
                            title: media_title,
                        },
                    )
                } else {
                    final(self).tracking@ == old(self).tracking@
                }
            },
            episode <= progress || episode > progress + episode_length ==> final(self).tracking@
                == old(self).tracking@,
            !old(self).tracking@.contains_key(media_id) && final(self).tracking@.contains_key(media_id) ==> {
                &&& progress < episode <= progress + episode_length
                &&& final(self).tracking@[media_id].episode == episode
                &&& final(self).tracking@[media_id].started == now
            },
            forall|id: i32|
                id != media_id ==> #[trigger] final(self).tracking@.contains_key(id) == old(self).tracking@.contains_key(id)
                    && (old(self).tracking@.contains_key(id) ==> final(self).tracking@[id] == old(self).tracking@[id]),
    {
        let next = episode as i64 > progress as i64 && episode as i64 <= progress as i64
            + episode_length as i64;
        match self.tracking.remove(&media_id) {
            Some(t) => {
                let mut t = t;
                if next && t.episode == episode {
                    t.monitoring = true;
                }
                self.tracking.insert(media_id, t);
                assert(self.tracking@ =~= (if next_episode(episode, episode_length, progress) && old(
                    self,
                ).tracking@[media_id].episode == episode {
                    old(self).tracking@.insert(
                        media_id,
                        WatchingTracking { monitoring: true, ..old(self).tracking@[media_id] },
                    )
                } else {
                    old(self).tracking@
                }));
            },
            None => {
                if next && episode > 0 {
                    self.tracking.insert(
                        media_id,
                        WatchingTracking {
                            started: now,
                            monitoring: true,
                            episode,
                            length: episode_length,
                            title: media_title,
                        },
                    );
                }
            },
        }
    }

    /// The episodes that have played for `delay` seconds by `now`, as (anime,
    /// episodes the file holds); they stop being followed.
    pub fn due_updates(&mut self, now: u64, delay: u64) -> (r: Vec<(i32, i32)>)
        ensures
            final(self).tracking@.dom() == old(self).tracking@.dom(),
            forall|id: i32| #[trigger]
                final(self).tracking@.contains_key(id) ==> {
                    let t = final(self).tracking@[id];
                    let o = old(self).tracking@[id];
                    &&& t.monitoring == (o.monitoring && elapsed(o.started, now) < delay)
                    &&& t.started == o.started && t.episode == o.episode && t.length == o.length
                    &&& t.title == o.title
                },
            r@.no_duplicates(),
            forall|p: (i32, i32)| #[trigger]
                r@.contains(p) <==> (old(self).tracking@.contains_key(p.0) && elapsed(
                    old(self).tracking@[p.0].started,
                    now,
                ) >= delay && p.1 == old(self).tracking@[p.0].length),
    {
        let ids = keys_of(&self.tracking);
        let ghost start = self.tracking@;
        let mut due: Vec<(i32, i32)> = Vec::new();
        let mut k: usize = 0;
        while k < ids.len()
            invariant
                0 <= k <= ids.len(),
                ids@.to_set() == start.dom(),
                ids@.no_duplicates(),
                self.tracking@.dom() == start.dom(),
                due@.no_duplicates(),
                forall|p: (i32, i32)| #[trigger]
                    due@.contains(p) <==> (ids@.take(k as int).contains(p.0) && elapsed(
                        start[p.0].started,
                        now,
                    ) >= delay && p.1 == start[p.0].length),
                forall|id: i32| #[trigger]
                    self.tracking@.contains_key(id) ==> {
                        let t = self.tracking@[id];
                        let o = start[id];
                        &&& (ids@.take(k as int).contains(id) ==> t.monitoring == (o.monitoring
                            && elapsed(o.started, now) < delay))
                        &&& (!ids@.take(k as int).contains(id) ==> t.monitoring == o.monitoring)
                        &&& t.started == o.started && t.episode == o.episode && t.length == o.length
                        &&& t.title == o.title
                    },
            decreases ids.len() - k,
        {
            let id = ids[k];
            assert(ids@.to_set().contains(id));
            let mut t = self.tracking.remove(&id).unwrap();
            let seconds: u64 = if now >= t.started { now - t.started } else { 0 };
            let ghost before_due = due@;
            let ghost t1 = ids@.take(k + 1);
            proof {
                let t0 = ids@.take(k as int);
                assert forall|x: i32| #[trigger] t1.contains(x) == (t0.contains(x) || x == id) by {
                    if t1.contains(x) && x != id {
                        let w = choose|w: int| 0 <= w < t1.len() && t1[w] == x;
                        assert(t0[w] == x);
                    }
                    if t0.contains(x) {
                        let w = choose|w: int| 0 <= w < t0.len() && t0[w] == x;
                        assert(t1[w] == x);
                    }
                    if x == id {
                        assert(t1[k as int] == x);
                    }
                }
                assert(!t0.contains(id)) by {
                    if t0.contains(id) {
                        let w = choose|w: int| 0 <= w < t0.len() && t0[w] == id;
                        assert(ids@[w] == ids@[k as int]);
                    }
                }
            }
            if seconds >= delay {
                t.monitoring = false;
                let length = t.length;
                due.push((id, length));
                proof {
                    assert forall|i: int, j: int|
                        0 <= i < j < due@.len() implies due@[i] != due@[j] by {
                        if j == due@.len() - 1 {
                            assert(before_due.contains(due@[i]));
                        }
                    }
                    assert forall|p: (i32, i32)| #[trigger]
                        due@.contains(p) <==> (t1.contains(p.0) && elapsed(start[p.0].started, now)
                            >= delay && p.1 == start[p.0].length) by {
                        if due@.contains(p) && p != (id, length) {
                            let w = choose|w: int| 0 <= w < due@.len() && due@[w] == p;
                            assert(before_due[w] == p);
                        }
                        if before_due.contains(p) {
                            let w = choose|w: int| 0 <= w < before_due.len() && before_due[w] == p;
                            assert(due@[w] == p);
                        }
                        if p == (id, length) {
                            assert(due@[due@.len() - 1] == p);
                        }
                    }
                }
            } else {
                proof {
                    assert forall|p: (i32, i32)| #[trigger]
                        due@.contains(p) <==> (t1.contains(p.0) && elapsed(start[p.0].started, now)
                            >= delay && p.1 == start[p.0].length) by {}
                }
            }
            self.tracking.insert(id, t);
            proof {
                assert(self.tracking@.dom() =~= start.dom());
            }
            k = k + 1;
        }
        proof {
            assert(ids@.take(k as int) =~= ids@);
            assert forall|id: i32| #[trigger] start.contains_key(id) implies ids@.contains(id) by {
                assert(ids@.to_set().contains(id));
            }
        }
        due
    }

    /// Stops following the episodes no longer seen playing.
    pub fn drop_unmonitored(&mut self)
        ensures
            final(self).tracking@ == old(self).tracking@.restrict(
                old(self).tracking@.dom().filter(|id: i32| old(self).tracking@[id].monitoring),
            ),
    {
        let ids = keys_of(&self.tracking);
        let ghost start = self.tracking@;
        let ghost kept = start.dom().filter(|id: i32| start[id].monitoring);
        let mut k: usize = 0;
        while k < ids.len()
            invariant
                0 <= k <= ids.len(),
                ids@.to_set() == start.dom(),
                ids@.no_duplicates(),
                kept == start.dom().filter(|id: i32| start[id].monitoring),
                self.tracking@ == start.restrict(
                    start.dom().filter(|id: i32| !ids@.take(k as int).contains(id) || start[id].monitoring),
                ),
            decreases ids.len() - k,
        {
            let id = ids[k];
            assert(ids@.to_set().contains(id));
            let monitoring = self.tracking.get(&id).unwrap().monitoring;
            if !monitoring {
                self.tracking.remove(&id);
            }
            proof {
                let t1 = ids@.take(k + 1);
                let t0 = ids@.take(k as int);
                assert forall|x: i32| #[trigger] t1.contains(x) == (t0.contains(x) || x == id) by {
                    if t1.contains(x) && x != id {
                        let w = choose|w: int| 0 <= w < t1.len() && t1[w] == x;
                        assert(t0[w] == x);
                    }
                    if t0.contains(x) {
                        let w = choose|w: int| 0 <= w < t0.len() && t0[w] == x;
                        assert(t1[w] == x);
                    }
                    if x == id {
                        assert(t1[k as int] == x);
                    }
                }
                assert(self.tracking@ =~= start.restrict(
                    start.dom().filter(|x: i32| !t1.contains(x) || start[x].monitoring),
                ));
            }
            k = k + 1;
        }
        proof {
            assert(ids@.take(k as int) =~= ids@);
            assert forall|x: i32| #[trigger] start.contains_key(x) implies ids@.contains(x) by {
                assert(ids@.to_set().contains(x));
            }
            assert(self.tracking@ =~= start.restrict(kept));
        }
    }
}

/// A scan of the folders is due an hour after the last one, or a short while
/// after startup when none has run yet.
pub open spec fn scan_is_due(elapsed_secs: u64, startup_scan_done: bool) -> bool {
    elapsed_secs > ONE_HOUR || (elapsed_secs >= STARTUP_SCAN_DELAY && !startup_scan_done)
}

pub fn scan_due(elapsed_secs: u64, startup_scan_done: bool) -> (r: bool)
    ensures
        r == scan_is_due(elapsed_secs, startup_scan_done),
{
    elapsed_secs > ONE_HOUR || (elapsed_secs >= STARTUP_SCAN_DELAY && !startup_scan_done)
}

impl RefreshUI {
    /// What the interface is told to draw again, with whether an episode is
    /// being followed; the list and the canvas count as drawn afterwards.
    pub fn take_for_display(&mut self, tracking_progress: bool) -> (r: RefreshUI)
        ensures
            r.anime_list == old(self).anime_list,
            r.tracking_progress == tracking_progress,
            r.canvas == old(self).canvas,
            r.no_internet == old(self).no_internet,
            r.scan_data.current_folder == old(self).scan_data.current_folder,
            r.scan_data.total_folders == old(self).scan_data.total_folders,
            r.scan_data.completed_chunks == old(self).scan_data.completed_chunks,
            r.scan_data.total_chunks == old(self).scan_data.total_chunks,
            r.errors@ == old(self).errors@,
            r.loading_dialog == old(self).loading_dialog,
            !final(self).anime_list,
            !final(self).canvas,
            final(self).tracking_progress == old(self).tracking_progress,
            final(self).no_internet == old(self).no_internet,
            final(self).scan_data.current_folder == old(self).scan_data.current_folder,
            final(self).scan_data.total_folders == old(self).scan_data.total_folders,
            final(self).scan_data.completed_chunks == old(self).scan_data.completed_chunks,
            final(self).scan_data.total_chunks == old(self).scan_data.total_chunks,
            final(self).errors == old(self).errors,
            final(self).loading_dialog == old(self).loading_dialog,
    {
        let r = RefreshUI {
            anime_list: self.anime_list,
            tracking_progress,
            canvas: self.canvas,
            no_internet: self.no_internet,
            scan_data: crate::ui_state::ScanData {
                current_folder: self.scan_data.current_folder,
                total_folders: self.scan_data.total_folders,
                completed_chunks: self.scan_data.completed_chunks,
                total_chunks: self.scan_data.total_chunks,
            },
            errors: duplicate_vec(&self.errors),
            loading_dialog: duplicate_option(&self.loading_dialog),
        };
        self.anime_list = false;
        self.canvas = false;
        r
    }
}

/// Each anime paired with the user's entry at the same place.
pub open spec fn zipped(anime: Seq<AnimeInfo>, users: Seq<UserInfo>) -> Seq<(AnimeInfo, UserInfo)> {
    Seq::new(anime.len(), |i: int| (anime[i], users[i]))
}

/// `arranged` is `combined` sorted in the mode the setting names (when the
/// mode orders the entries consistently), or `combined` itself when the
/// setting names no mode.
pub open spec fn arranged_from(
    combined: Seq<(AnimeInfo, UserInfo)>,
    setting: Seq<char>,
    arranged: Seq<(AnimeInfo, UserInfo)>,
) -> bool {
    &&& arranged.to_multiset() == combined.to_multiset()
    &&& match mode_named(setting) {
        Some(mode) => consistent_on(mode, combined) ==> sorted_by(mode, arranged),
        None => arranged == combined,
    }
}

/// `combined` sorted in the mode the setting names, or `combined` itself when
/// the setting names no mode.
pub open spec fn arranged_list(combined: Seq<(AnimeInfo, UserInfo)>, setting: Seq<char>) -> Seq<
    (AnimeInfo, UserInfo),
> {
    match mode_named(setting) {
        Some(mode) => insertion_sorted(mode, combined),
        None => combined,
    }
}

/// The list shown: `arranged_list`, back to front when not ascending.
pub open spec fn displayed_list(
    combined: Seq<(AnimeInfo, UserInfo)>,
    setting: Seq<char>,
    ascending: bool,
) -> Seq<(AnimeInfo, UserInfo)> {
    if ascending {
        arranged_list(combined, setting)
    } else {
        arranged_list(combined, setting).reverse()
    }
}

/// The same list asked for in descending and in ascending order comes out
/// back to front: each is the other reversed.
pub proof fn law_descending_reverses_ascending(combined: Seq<(AnimeInfo, UserInfo)>, setting: Seq<char>)
    ensures
        displayed_list(combined, setting, false) == displayed_list(combined, setting, true).reverse(),
        displayed_list(combined, setting, true) == displayed_list(combined, setting, false).reverse(),
{
    let a = arranged_list(combined, setting);
    assert(a.reverse().reverse() =~= a);
}

/// Pairs each anime with the user's entry at the same place.
pub fn combine_lists(anime: Vec<AnimeInfo>, users: Vec<UserInfo>) -> (r: Vec<(AnimeInfo, UserInfo)>)
    requires
        anime@.len() <= users@.len(),
    ensures
        r@ == zipped(anime@, users@),
{
    let ghost a0 = anime@;
    let ghost u0 = users@;
    let mut a = anime;
    let mut u = users;
    let mut out: Vec<(AnimeInfo, UserInfo)> = Vec::new();
    let ghost n: int = a0.len() as int;
    while a.len() > 0
        invariant
            a0.len() == n,
            a0.len() <= u0.len(),
            out@.len() + a@.len() == n,
            a@ == a0.skip(out@.len() as int),
            u@ == u0.skip(out@.len() as int),
            forall|i: int| 0 <= i < out@.len() ==> #[trigger] out@[i] == (a0[i], u0[i]),
        decreases a.len(),
    {
        let ghost k: int = out@.len() as int;
        let ghost ab = a@;
        let ghost ub = u@;
        let x = a.remove(0);
        let y = u.remove(0);
        proof {
            assert(ab[0] == a0[k]);
            assert(ub[0] == u0[k]);
            assert(a@ =~= a0.skip(k + 1));
            assert(u@ =~= u0.skip(k + 1));
        }
        out.push((x, y));
    }
    assert(out@ =~= zipped(a0, u0));
    out
}

/// `s` back to front.
pub fn reversed<T>(v: Vec<T>) -> (r: Vec<T>)
    ensures
        r@ == v@.reverse(),
{
    let ghost s = v@;
    let mut rest = v;
    let mut out: Vec<T> = Vec::new();
    while rest.len() > 0
        invariant
            s.len() == out@.len() + rest@.len(),
            rest@ == s.take(rest@.len() as int),
            out@ == s.skip(rest@.len() as int).reverse(),
        decreases rest.len(),
    {
        let ghost m: int = rest@.len() as int;
        let x = rest.pop().unwrap();
        proof {
            assert(x == s[m - 1]);
            assert(rest@ =~= s.take(m - 1));
        }
        out.push(x);
        assert(out@ =~= s.skip(m - 1).reverse());
    }
    assert(s.skip(0) =~= s);
    out
}

impl AnimeData {
    /// The user's list for display: each anime with the user's entry, sorted
    /// in the mode the setting names, and back to front when not ascending.
    pub fn arrange_list(&self, anime: Vec<AnimeInfo>, users: Vec<UserInfo>, sort: String, ascending: bool) -> (r: Vec<
        (AnimeInfo, UserInfo),
    >)
        requires
            anime@.len() <= users@.len(),
        ensures
            r@ == displayed_list(zipped(anime@, users@), sort@, ascending),
            arranged_from(zipped(anime@, users@), sort@, arranged_list(zipped(anime@, users@), sort@)),
    {
        let mut combined = combine_lists(anime, users);
        let ghost c = combined@;
        self.sort_list(&mut combined, Some(sort));
        let ghost arranged = combined@;
        let r = if ascending {
            combined
        } else {
            reversed(combined)
        };
        assert(arranged_from(c, sort@, arranged));
        r
    }
}

} // verus!
