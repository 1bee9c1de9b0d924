//! The user's entries for each anime and the lists they stand in.
//!
//! A user's list names one of the AniList statuses; entries being rewatched
//! (`REPEATING`) stand in the watching list (`CURRENT`).  The lists are kept as
//! (name, ids) pairs; `lists_well_formed` says that their names are distinct
//! and that an anime stands at most once over all of them, and every change
//! made here keeps it.

use vstd::prelude::*;
use std::collections::HashMap;
use core::cmp::Ordering;
use crate::dates::{date_order, order_of_dates};
use crate::duplicate::{Duplicate, duplicate_option};
use crate::foreign::local_today;
use crate::text::str_eq;

verus! {

broadcast use vstd::std_specs::hash::group_hash_axioms;

/// The user's entry for one anime.  The score is kept in tenths of a point
/// (AniList scores have at most one decimal), so `7.5` is `75`.
#[derive(Debug, Clone, Default)]
pub struct UserInfo {
    pub id: i32,
    pub media_id: i32,
    pub status: String,
    pub score_tenths: i32,
    pub progress: i32,
    pub started_at: Option<Date>,
    pub completed_at: Option<Date>,
    pub notes: Option<String>,
}

impl UserInfo {
    pub fn new() -> (r: UserInfo)
        ensures
            r.id == 0,
            r.media_id == 0,
            r.status@ == Seq::<char>::empty(),
            r.score_tenths == 0,
            r.progress == 0,
            r.started_at is None,
            r.completed_at is None,
            r.notes is None,
    {
        UserInfo {
            id: 0,
            media_id: 0,
            status: String::new(),
            score_tenths: 0,
            progress: 0,
            started_at: None,
            completed_at: None,
            notes: None,
        }
    }
}

impl Duplicate for UserInfo {
    fn duplicate(&self) -> (r: UserInfo) {
        UserInfo {
            id: self.id,
            media_id: self.media_id,
            status: self.status.clone(),
            score_tenths: self.score_tenths,
            progress: self.progress,
            started_at: self.started_at,
            completed_at: self.completed_at,
            notes: duplicate_option(&self.notes),
        }
    }
}

#[derive(Debug, Clone, Copy, Default, PartialEq, Eq, Structural)]
pub struct Date {
    pub year: Option<i32>,
    pub month: Option<i32>,
    pub day: Option<i32>,
}

impl Date {
    pub fn new() -> (r: Date)
        ensures
            r.year is None && r.month is None && r.day is None,
    {
        Date { year: None, month: None, day: None }
    }

    /// The order of two dates (see `dates::date_order`).
    pub fn cmp(&self, other: &Self) -> (r: Ordering)
        ensures
            r == date_order(self.year, self.month, self.day, other.year, other.month, other.day),
    {
        order_of_dates(self.year, self.month, self.day, other.year, other.month, other.day)
    }

    pub fn partial_cmp(&self, other: &Self) -> (r: Option<Ordering>)
        ensures
            r == Some(
                date_order(self.year, self.month, self.day, other.year, other.month, other.day),
            ),
    {
        Some(self.cmp(other))
    }
}

#[derive(Debug)]
pub struct TokenData {
    pub token_type: String,
    pub expires_in: i32,
    pub access_token: String,
    pub refresh_token: String,
}

impl TokenData {
    pub fn new() -> (r: TokenData)
        ensures
            r.token_type@ == Seq::<char>::empty(),
            r.expires_in == 0,
            r.access_token@ == Seq::<char>::empty(),
            r.refresh_token@ == Seq::<char>::empty(),
    {
        TokenData {
            token_type: String::new(),
            expires_in: 0,
            access_token: String::new(),
            refresh_token: String::new(),
        }
    }

    pub fn clear(&mut self)
        ensures
            final(self).token_type@ == Seq::<char>::empty(),
            final(self).expires_in == 0,
            final(self).access_token@ == Seq::<char>::empty(),
            final(self).refresh_token@ == Seq::<char>::empty(),
    {
        self.token_type = String::new();
        self.expires_in = 0;
        self.access_token = String::new();
        self.refresh_token = String::new();
    }
}

#[derive(Debug, Clone)]
pub struct UserSettings {
    pub username: String,
    pub title_language: String,
    pub show_adult: bool,
    pub folders: Vec<String>,
    pub update_delay: i32,
    pub score_format: Option<String>,
    pub highlight_color: String,
    pub current_tab: String,
    pub first_time_setup: bool,
    pub show_airing_time: Option<bool>,
    pub theme: Option<i32>,
    pub user_id: Option<i32>,
    pub updated_at: Option<u64>,
}

pub struct UserData {
    pub setting: UserSettings,
    pub token: TokenData,
    pub anime_user_data: HashMap<i32, UserInfo>,
    pub user_lists: Vec<(String, Vec<i32>)>,
    pub max_episodes: HashMap<i32, i32>,
}

/// The AniList statuses an entry may have.
pub open spec fn valid_status(s: Seq<char>) -> bool {
    s == "CURRENT"@ || s == "PLANNING"@ || s == "COMPLETED"@ || s == "DROPPED"@ || s == "PAUSED"@
        || s == "REPEATING"@
}

/// The names of the user's lists.
pub open spec fn valid_list(s: Seq<char>) -> bool {
    s == "CURRENT"@ || s == "PLANNING"@ || s == "COMPLETED"@ || s == "DROPPED"@ || s == "PAUSED"@
}

pub fn is_valid_status(s: &str) -> (r: bool)
    ensures
        r == valid_status(s@),
{
    str_eq(s, "CURRENT") || str_eq(s, "PLANNING") || str_eq(s, "COMPLETED") || str_eq(s, "DROPPED")
        || str_eq(s, "PAUSED") || str_eq(s, "REPEATING")
}

pub fn is_valid_list(s: &str) -> (r: bool)
    ensures
        r == valid_list(s@),
{
    str_eq(s, "CURRENT") || str_eq(s, "PLANNING") || str_eq(s, "COMPLETED") || str_eq(s, "DROPPED")
        || str_eq(s, "PAUSED")
}

/// The lists as (name, ids) pairs of sequences.
pub open spec fn lists_view(lists: Seq<(String, Vec<i32>)>) -> Seq<(Seq<char>, Seq<i32>)> {
    lists.map_values(|l: (String, Vec<i32>)| (l.0@, l.1@))
}

/// The status an entry had before, or the empty text for a new entry.
pub open spec fn status_before(entries: Map<i32, UserInfo>, media_id: i32) -> Seq<char> {
    if entries.contains_key(media_id) {
        entries[media_id].status@
    } else {
        Seq::empty()
    }
}

/// The progress an entry had before, or -1 for a new entry.
pub open spec fn progress_before(entries: Map<i32, UserInfo>, media_id: i32) -> int {
    if entries.contains_key(media_id) {
        entries[media_id].progress as int
    } else {
        -1
    }
}

/// A change of status moves the entry to another list, except between
/// watching and rewatching, which share a list.
pub open spec fn changes_list(old_status: Seq<char>, new_status: Seq<char>) -> bool {
    old_status != new_status && !((old_status == "CURRENT"@ && new_status == "REPEATING"@) || (
    old_status == "REPEATING"@ && new_status == "CURRENT"@))
}

/// The list that holds entries of a status.
pub open spec fn list_for(status: Seq<char>) -> Seq<char> {
    if status == "REPEATING"@ {
        "CURRENT"@
    } else {
        status
    }
}

/// Whether an id is other than `media_id`.
pub open spec fn other_than(media_id: i32) -> spec_fn(i32) -> bool {
    |x: i32| x != media_id
}

/// One list without `media_id`, with it at the end when the list is named `target`.
pub open spec fn relisted_one(l: (Seq<char>, Seq<i32>), media_id: i32, target: Seq<char>) -> (
    Seq<char>,
    Seq<i32>,
) {
    let kept = l.1.filter(other_than(media_id));
    if l.0 == target {
        (l.0, kept.push(media_id))
    } else {
        (l.0, kept)
    }
}

/// Every list without `media_id`, and the list named `target` with it at the end.
pub open spec fn relisted(lists: Seq<(Seq<char>, Seq<i32>)>, media_id: i32, target: Seq<char>) -> Seq<
    (Seq<char>, Seq<i32>),
> {
    lists.map_values(|l: (Seq<char>, Seq<i32>)| relisted_one(l, media_id, target))
}

/// The lists after an entry takes its status.
pub open spec fn lists_after(
    lists: Seq<(Seq<char>, Seq<i32>)>,
    entries: Map<i32, UserInfo>,
    data: UserInfo,
) -> Seq<(Seq<char>, Seq<i32>)> {
    if changes_list(status_before(entries, data.media_id), data.status@) {
        relisted(lists, data.media_id, list_for(data.status@))
    } else {
        lists
    }
}

/// A date the user left empty.
pub open spec fn blank_date(d: Date) -> bool {
    d.year is None && d.month is None && d.day is None
}

/// A date that a calendar has.
pub open spec fn calendar_day(d: Date) -> bool {
    d.year is Some && (d.month matches Some(m) && 1 <= m <= 12) && (d.day matches Some(x) && 1 <= x
        <= 31)
}

/// The entry as it is kept: a completed entry gets today as its completion
/// date when it has none, and its start date too when it was watched at once
/// (a single-episode anime, or no progress before); an entry started now gets
/// today as its start date.  Dates the user gave stay.
pub open spec fn entry_after(data: UserInfo, old_status: Seq<char>, old_progress: int, max_episodes: Option<i32>, today: Date) -> UserInfo {
    let first = if data.status@ == "COMPLETED"@ && old_status != "REPEATING"@ {
        let completed = match data.completed_at {
            None => Some(today),
            Some(c) => if blank_date(c) {
                Some(today)
            } else {
                data.completed_at
            },
        };
        let started = match data.started_at {
            Some(s) => if blank_date(s) && ((max_episodes matches Some(e) && e <= 1) || old_progress
                == 0) {
                completed
            } else {
                data.started_at
            },
            None => None,
        };
        UserInfo { completed_at: completed, started_at: started, ..data }
    } else {
        data
    };
    if first.status@ == "CURRENT"@ && first.progress > 0 && old_progress == 0 && (
    first.started_at matches Some(s) && blank_date(s)) {
        UserInfo { started_at: Some(today), ..first }
    } else {
        first
    }
}

/// Today's date from the machine's clock.
pub fn today() -> (r: Date)
    ensures
        calendar_day(r),
{
    let (year, month, day) = local_today();
    Date { year: Some(year), month: Some(month as i32), day: Some(day as i32) }
}

impl UserData {
    pub fn new() -> (r: UserData)
        ensures
            r.anime_user_data@ == Map::<i32, UserInfo>::empty(),
            r.user_lists@ == Seq::<(String, Vec<i32>)>::empty(),
            r.max_episodes@ == Map::<i32, i32>::empty(),
            r.setting.username@ == Seq::<char>::empty(),
            r.setting.folders@ == Seq::<String>::empty(),
            r.setting.first_time_setup,
            r.setting.updated_at is None,
            r.setting.user_id is None,
            r.token.access_token@ == Seq::<char>::empty(),
            r.token.refresh_token@ == Seq::<char>::empty(),
    {
        UserData {
            setting: UserSettings {
                username: String::new(),
                title_language: String::new(),
                show_adult: false,
                folders: Vec::new(),
                update_delay: 0,
                score_format: None,
                highlight_color: String::new(),
                current_tab: String::new(),
                first_time_setup: true,
                show_airing_time: Some(true),
                theme: Some(0),
                user_id: None,
                updated_at: None,
            },
            token: TokenData::new(),
            anime_user_data: HashMap::new(),
            user_lists: Vec::new(),
            max_episodes: HashMap::new(),
        }
    }

    /// Forgets the entries and the lists.
    pub fn clear(&mut self)
        ensures
            final(self).anime_user_data@ == Map::<i32, UserInfo>::empty(),
            final(self).user_lists@ == Seq::<(String, Vec<i32>)>::empty(),
            final(self).max_episodes == old(self).max_episodes,
            final(self).setting == old(self).setting,
            final(self).token == old(self).token,
    {
        self.anime_user_data.clear();
        self.user_lists = Vec::new();
    }

    /// The user's entry for an anime.
    pub fn get_user_data(&self, media_id: i32) -> (r: Result<UserInfo, &'static str>)
        ensures
            self.anime_user_data@.contains_key(media_id) ==> r == Ok::<UserInfo, &'static str>(
                self.anime_user_data@[media_id],
            ),
            !self.anime_user_data@.contains_key(media_id) ==> r == Err::<UserInfo, &'static str>(
                "data does not exist",
            ),
    {
        match self.anime_user_data.get(&media_id) {
            Some(data) => Ok(data.duplicate()),
            None => Err("data does not exist"),
        }
    }

    /// Moves an entry to the list of its status when its status changed (see
    /// `lists_after`).
    pub fn check_correct_list(&mut self, data: &UserInfo)
        ensures
            lists_view(final(self).user_lists@) == lists_after(
                lists_view(old(self).user_lists@),
                old(self).anime_user_data@,
                *data,
            ),
            final(self).anime_user_data == old(self).anime_user_data,
            final(self).max_episodes == old(self).max_episodes,
            final(self).setting == old(self).setting,
            final(self).token == old(self).token,
            lists_well_formed(lists_view(old(self).user_lists@)) ==> lists_well_formed(
                lists_view(final(self).user_lists@),
            ),
    {
        proof {
            if lists_well_formed(lists_view(self.user_lists@)) {
                law_lists_after_keeps_well_formed(lists_view(self.user_lists@), self.anime_user_data@, *data);
            }
        }
        let old_status = match self.anime_user_data.get(&data.media_id) {
            Some(old_data) => old_data.status.clone(),
            None => String::new(),
        };
        assert(old_status@ == status_before(self.anime_user_data@, data.media_id));
        let mut change_list = false;
        if !str_eq(old_status.as_str(), data.status.as_str()) {
            change_list = true;
            if (str_eq(old_status.as_str(), "CURRENT") && str_eq(data.status.as_str(), "REPEATING"))
                || (str_eq(old_status.as_str(), "REPEATING") && str_eq(data.status.as_str(), "CURRENT")) {
                change_list = false;
            }
        }
        if change_list {
            let target = if str_eq(data.status.as_str(), "REPEATING") {
                "CURRENT".to_string()
            } else {
                data.status.clone()
            };
            proof {
                reveal_strlit("CURRENT");
            }
            assert(target@ == list_for(data.status@));
            self.relist(data.media_id, target.as_str());
        }
    }

    /// Takes `media_id` out of every list and puts it at the end of the list
    /// named `target`.
    fn relist(&mut self, media_id: i32, target: &str)
        ensures
            lists_view(final(self).user_lists@) == relisted(
                lists_view(old(self).user_lists@),
                media_id,
                target@,
            ),
            final(self).anime_user_data == old(self).anime_user_data,
            final(self).max_episodes == old(self).max_episodes,
            final(self).setting == old(self).setting,
            final(self).token == old(self).token,
    {
        let ghost before = lists_view(self.user_lists@);
        let mut rest: Vec<(String, Vec<i32>)> = Vec::new();
        std::mem::swap(&mut rest, &mut self.user_lists);
        let mut done: Vec<(String, Vec<i32>)> = Vec::new();
        let ghost n = rest@.len();
        assert(lists_view(rest@) == before);
        while rest.len() > 0
            invariant
                done@.len() + rest@.len() == n,
                before.len() == n,
                lists_view(done@) == relisted(before.take(done@.len() as int), media_id, target@),
                lists_view(rest@) == before.skip(done@.len() as int),
                self.anime_user_data == old(self).anime_user_data,
                self.max_episodes == old(self).max_episodes,
                self.setting == old(self).setting,
                self.token == old(self).token,
            decreases rest.len(),
        {
            let ghost rest_before = rest@;
            let ghost k: int = done@.len() as int;
            let (name, ids) = rest.remove(0);
            proof {
                assert(lists_view(rest_before)[0] == (name@, ids@));
                assert(before.skip(k)[0] == before[k]);
                assert(lists_view(rest@) =~= lists_view(rest_before).skip(1));
                assert(before.skip(k).skip(1) =~= before.skip(k + 1));
            }
            let mut kept: Vec<i32> = Vec::new();
            let mut i: usize = 0;
            while i < ids.len()
                invariant
                    0 <= i <= ids.len(),
                    kept@ == ids@.take(i as int).filter(other_than(media_id)),
                decreases ids.len() - i,
            {
                proof {
                    assert(ids@.take(i + 1) =~= ids@.take(i as int).push(ids@[i as int]));
                    ids@.take(i as int).lemma_filter_push(ids@[i as int], other_than(media_id));
                }
                if ids[i] != media_id {
                    kept.push(ids[i]);
                }
                i = i + 1;
            }
            assert(ids@.take(ids.len() as int) =~= ids@);
            let ghost filtered = kept@;
            let same = str_eq(name.as_str(), target);
            if same {
                kept.push(media_id);
            }
            let ghost prev = done@;
            let ghost entry = (name@, kept@);
            proof {
                assert(before[k] == (name@, ids@));
                assert(relisted_one(before[k], media_id, target@) == entry);
                assert(before.take(k + 1) =~= before.take(k).push(before[k]));
                assert(relisted(before.take(k + 1), media_id, target@) =~= relisted(
                    before.take(k),
                    media_id,
                    target@,
                ).push(entry));
            }
            done.push((name, kept));
            assert(lists_view(done@) =~= lists_view(prev).push(entry));
        }
        assert(before.take(n as int) =~= before);
        self.user_lists = done;
    }

    /// Stores an entry on the day `today` (see `entry_after` and
    /// `lists_after`), and gives back the entry it replaced.  An entry whose
    /// status is none of AniList's is refused and nothing changes.
    pub fn set_user_data_on(
        &mut self,
        data: &mut UserInfo,
        max_episodes: Option<i32>,
        today: Date,
    ) -> (r: Result<Option<UserInfo>, &'static str>)
        ensures
            !valid_status(old(data).status@) ==> r == Err::<Option<UserInfo>, &'static str>(
                "invalid status",
            ) && *final(data) == *old(data)
                && final(self).anime_user_data == old(self).anime_user_data && final(self).user_lists == old(self).user_lists,
            valid_status(old(data).status@) ==> {
                &&& *final(data) == entry_after(
                    *old(data),
                    status_before(old(self).anime_user_data@, old(data).media_id),
                    progress_before(old(self).anime_user_data@, old(data).media_id),
                    max_episodes,
                    today,
                )
                &&& final(self).anime_user_data@ == old(self).anime_user_data@.insert(
                    old(data).media_id,
                    *final(data),
                )
                &&& lists_view(final(self).user_lists@) == lists_after(
                    lists_view(old(self).user_lists@),
                    old(self).anime_user_data@,
                    *old(data),
                )
                &&& r == Ok::<Option<UserInfo>, &'static str>(
                    if old(self).anime_user_data@.contains_key(old(data).media_id) {
                        Some(old(self).anime_user_data@[old(data).media_id])
                    } else {
                        None
                    },
                )
            },
            final(self).max_episodes == old(self).max_episodes,
            final(self).setting == old(self).setting,
            final(self).token == old(self).token,
            lists_well_formed(lists_view(old(self).user_lists@)) ==> lists_well_formed(
                lists_view(final(self).user_lists@),
            ),
    {
        if !is_valid_status(data.status.as_str()) {
            return Err("invalid status");
        }
        let old_status = match self.anime_user_data.get(&data.media_id) {
            Some(old_data) => old_data.status.clone(),
            None => String::new(),
        };
        let old_progress: i64 = match self.anime_user_data.get(&data.media_id) {
            Some(old_data) => old_data.progress as i64,
            None => -1,
        };
        self.check_correct_list(data);
        if str_eq(data.status.as_str(), "COMPLETED") && !str_eq(old_status.as_str(), "REPEATING") {
            let set_completed = match data.completed_at {
                None => true,
                Some(c) => c.day.is_none() && c.month.is_none() && c.year.is_none(),
            };
            if set_completed {
                data.completed_at = Some(today);
            }
            if let Some(s) = data.started_at {
                if s.day.is_none() && s.month.is_none() && s.year.is_none() {
                    if let Some(e) = max_episodes {
                        if e <= 1 {
                            data.started_at = data.completed_at;
                        }
                    }
                    if old_progress == 0 {
                        data.started_at = data.completed_at;
                    }
                }
            }
        }
        if str_eq(data.status.as_str(), "CURRENT") && data.progress > 0 && old_progress == 0 {
            if let Some(s) = data.started_at {
                if s.day.is_none() && s.month.is_none() && s.year.is_none() {
                    data.started_at = Some(today);
                }
            }
        }
        let old_data = self.anime_user_data.insert(data.media_id, data.duplicate());
        Ok(old_data)
    }

    /// Stores an entry on today's date (see `set_user_data_on`).
    pub fn set_user_data(&mut self, data: &mut UserInfo, max_episodes: Option<i32>) -> (r: Result<
        Option<UserInfo>,
        &'static str,
    >)
        ensures
            !valid_status(old(data).status@) ==> r == Err::<Option<UserInfo>, &'static str>(
                "invalid status",
            ) && *final(data) == *old(data)
                && final(self).anime_user_data == old(self).anime_user_data && final(self).user_lists == old(self).user_lists,
            valid_status(old(data).status@) ==> exists|day: Date|
                {
                    &&& calendar_day(day)
                    &&& *final(data) == entry_after(
                        *old(data),
                        status_before(old(self).anime_user_data@, old(data).media_id),
                        progress_before(old(self).anime_user_data@, old(data).media_id),
                        max_episodes,
                        day,
                    )
                },
            valid_status(old(data).status@) ==> {
                &&& final(self).anime_user_data@ == old(self).anime_user_data@.insert(
                    old(data).media_id,
                    *final(data),
                )
                &&& lists_view(final(self).user_lists@) == lists_after(
                    lists_view(old(self).user_lists@),
                    old(self).anime_user_data@,
                    *old(data),
                )
                &&& r == Ok::<Option<UserInfo>, &'static str>(
                    if old(self).anime_user_data@.contains_key(old(data).media_id) {
                        Some(old(self).anime_user_data@[old(data).media_id])
                    } else {
                        None
                    },
                )
            },
            final(self).max_episodes == old(self).max_episodes,
            final(self).setting == old(self).setting,
            final(self).token == old(self).token,
            lists_well_formed(lists_view(old(self).user_lists@)) ==> lists_well_formed(
                lists_view(final(self).user_lists@),
            ),
    {
        let day = today();
        self.set_user_data_on(data, max_episodes, day)
    }

    /// The ids on a list; an error for a name that `valid_list` refuses.  A
    /// list of a name it accepts must be present.
    pub fn get_list(&self, name: &String) -> (r: Result<Vec<i32>, &'static str>)
        requires
            valid_list(name@) ==> exists|k: int|
                0 <= k < self.user_lists@.len() && #[trigger] self.user_lists@[k].0@ == name@,
        ensures
            !valid_list(name@) ==> r == Err::<Vec<i32>, &'static str>("invalid list"),
            valid_list(name@) ==> (r matches Ok(ids) && exists|k: int|
                0 <= k < self.user_lists@.len() && self.user_lists@[k].0@ == name@ && ids@
                    == self.user_lists@[k].1@ && forall|j: int|
                    0 <= j < k ==> self.user_lists@[j].0@ != name@),
    {
        if !is_valid_list(name.as_str()) {
            return Err("invalid list");
        }
        let mut k: usize = 0;
        while k < self.user_lists.len()
            invariant
                0 <= k <= self.user_lists.len(),
                valid_list(name@),
                forall|j: int| 0 <= j < k ==> self.user_lists@[j].0@ != name@,
            decreases self.user_lists.len() - k,
        {
            if str_eq(self.user_lists[k].0.as_str(), name.as_str()) {
                let ids = &self.user_lists[k].1;
                let mut out: Vec<i32> = Vec::new();
                let mut i: usize = 0;
                while i < ids.len()
                    invariant
                        0 <= i <= ids.len(),
                        out@ == ids@.take(i as int),
                    decreases ids.len() - i,
                {
                    out.push(ids[i]);
                    i = i + 1;
                    assert(out@ =~= ids@.take(i as int));
                }
                assert(ids@.take(ids.len() as int) =~= ids@);
                return Ok(out);
            }
            k = k + 1;
        }
        Err("invalid list")
    }

    /// Adds one episode to the progress of an entry, stored on today's date as
    /// `set_user_data` does, while the progress is below the anime's episode
    /// count.  Nothing changes for an anime with no entry or no known count.
    pub fn increment_episode(&mut self, media_id: i32) -> (r: Result<bool, &'static str>)
        ensures
            r == Ok::<bool, &'static str>(true),
            final(self).max_episodes == old(self).max_episodes,
            final(self).setting == old(self).setting,
            final(self).token == old(self).token,
            lists_well_formed(lists_view(old(self).user_lists@)) ==> lists_well_formed(
                lists_view(final(self).user_lists@),
            ),
            !(old(self).anime_user_data@.contains_key(media_id) && old(self).max_episodes@.contains_key(media_id) && old(self).anime_user_data@[media_id].progress
                < old(self).max_episodes@[media_id]) ==> final(self).anime_user_data
                == old(self).anime_user_data && final(self).user_lists == old(self).user_lists,
            (old(self).anime_user_data@.contains_key(media_id) && old(self).max_episodes@.contains_key(media_id) && old(self).anime_user_data@[media_id].progress
                < old(self).max_episodes@[media_id]) ==> ({
                let before = old(self).anime_user_data@[media_id];
                let next = UserInfo { progress: (before.progress + 1) as i32, ..before };
                &&& !valid_status(before.status@) ==> final(self).anime_user_data == old(self).anime_user_data
                    && final(self).user_lists == old(self).user_lists
                &&& valid_status(before.status@) ==> {
                    &&& exists|day: Date|
                        {
                            &&& calendar_day(day)
                            &&& final(self).anime_user_data@ == old(self).anime_user_data@.insert(
                                next.media_id,
                                entry_after(
                                    next,
                                    status_before(old(self).anime_user_data@, next.media_id),
                                    progress_before(old(self).anime_user_data@, next.media_id),
                                    Some(old(self).max_episodes@[media_id]),
                                    day,
                                ),
                            )
                        }
                    &&& lists_view(final(self).user_lists@) == lists_after(
                        lists_view(old(self).user_lists@),
                        old(self).anime_user_data@,
                        next,
                    )
                }
            }),
    {
        let media = match self.anime_user_data.get(&media_id) {
            Some(m) => m.duplicate(),
            None => return Ok(true),
        };
        let episodes = match self.max_episodes.get(&media_id) {
            Some(e) => *e,
            None => return Ok(true),
        };
        if media.progress < episodes {
            let mut changed = media;
            changed.progress = changed.progress + 1;
            let _ = self.set_user_data(&mut changed, Some(episodes));
        }
        Ok(true)
    }

    /// Changes nothing and returns nothing.
    pub fn add_anime() {
    }

    /// Changes nothing and returns nothing.
    pub fn change_list() {
    }
}

/// The entries and the lists after AniList's updates are taken in, one after
/// the other.
pub open spec fn updates_applied(
    lists: Seq<(Seq<char>, Seq<i32>)>,
    entries: Map<i32, UserInfo>,
    updates: Seq<UserInfo>,
) -> (Seq<(Seq<char>, Seq<i32>)>, Map<i32, UserInfo>)
    decreases updates.len(),
{
    if updates.len() == 0 {
        (lists, entries)
    } else {
        let (l, e) = updates_applied(lists, entries, updates.drop_last());
        let u = updates.last();
        (lists_after(l, e, u), e.insert(u.media_id, u))
    }
}

/// A new entry for an anime put on a list.
pub fn entry_for_list(id: i32, list: String) -> (r: UserInfo)
    ensures
        r.id == 0,
        r.media_id == id,
        r.status == list,
        r.score_tenths == 0,
        r.progress == 0,
        r.started_at is None,
        r.completed_at is None,
        r.notes is None,
{
    let mut entry = UserInfo::new();
    entry.media_id = id;
    entry.status = list;
    entry
}

impl UserData {
    /// What to ask AniList for the user's changes: the user's name and the
    /// time of the last changes taken in, `None` when none were ever taken in;
    /// an error when there is no user.
    pub fn updates_request(&self) -> (r: Result<Option<(String, u64)>, &'static str>)
        ensures
            self.setting.username@.len() == 0 ==> r == Err::<Option<(String, u64)>, &'static str>(
                "No username",
            ),
            self.setting.username@.len() > 0 ==> r == Ok::<Option<(String, u64)>, &'static str>(
                match self.setting.updated_at {
                    Some(t) => Some((self.setting.username, t)),
                    None => None,
                },
            ),
    {
        if self.setting.username.unicode_len() == 0 {
            return Err("No username");
        }
        match self.setting.updated_at {
            Some(t) => Ok(Some((self.setting.username.clone(), t))),
            None => Ok(None),
        }
    }

    /// Takes in the user's changes made on AniList, one after the other, each
    /// moved to the list of its status (see `updates_applied`), and notes the
    /// time `now` as that of the last changes taken in.
    pub fn apply_updates(&mut self, updates: Vec<UserInfo>, now: u64)
        ensures
            (lists_view(final(self).user_lists@), final(self).anime_user_data@) == updates_applied(
                lists_view(old(self).user_lists@),
                old(self).anime_user_data@,
                updates@,
            ),
            final(self).setting == (UserSettings { updated_at: Some(now), ..old(self).setting }),
            final(self).token == old(self).token,
            final(self).max_episodes == old(self).max_episodes,
            lists_well_formed(lists_view(old(self).user_lists@)) ==> lists_well_formed(
                lists_view(final(self).user_lists@),
            ),
    {
        proof {
            if lists_well_formed(lists_view(self.user_lists@)) {
                law_updates_keep_lists_well_formed(lists_view(self.user_lists@), self.anime_user_data@, updates@);
            }
        }
        let ghost all = updates@;
        let ghost n: int = all.len() as int;
        let mut rest = updates;
        let mut done: usize = 0;
        assert(all.take(0) =~= Seq::<UserInfo>::empty());
        assert(all.skip(0) =~= all);
        assert(all.len() == rest.len());
        while rest.len() > 0
            invariant
                all.len() == n,
                n <= usize::MAX,
                done + rest@.len() == n,
                rest@ == all.skip(done as int),
                (lists_view(self.user_lists@), self.anime_user_data@) == updates_applied(
                    lists_view(old(self).user_lists@),
                    old(self).anime_user_data@,
                    all.take(done as int),
                ),
                self.max_episodes == old(self).max_episodes,
                self.setting == old(self).setting,
                self.token == old(self).token,
            decreases rest.len(),
        {
            let ghost before = rest@;
            let entry = rest.remove(0);
            proof {
                assert(before[0] == all[done as int]);
                assert(all.take(done + 1).drop_last() =~= all.take(done as int));
                assert(rest@ =~= all.skip(done + 1));
            }
            self.check_correct_list(&entry);
            let id = entry.media_id;
            self.anime_user_data.insert(id, entry);
            done = done + 1;
        }
        assert(all.take(n) =~= all);
        self.setting.updated_at = Some(now);
    }
}

/// The lists are well formed: their names are distinct, no list holds an
/// anime twice, and no anime stands in two lists.
pub open spec fn lists_well_formed(lists: Seq<(Seq<char>, Seq<i32>)>) -> bool {
    &&& forall|i: int, j: int| 0 <= i < j < lists.len() ==> #[trigger] lists[i].0 != #[trigger] lists[j].0
    &&& forall|i: int| 0 <= i < lists.len() ==> (#[trigger] lists[i]).1.no_duplicates()
    &&& forall|i: int, j: int, x: i32|
        #![trigger lists[i].1.contains(x), lists[j].1.contains(x)]
        0 <= i < lists.len() && 0 <= j < lists.len() && i != j && lists[i].1.contains(x)
            ==> !lists[j].1.contains(x)
}

/// Filtering keeps a sequence free of duplicates.
proof fn lemma_filter_no_duplicates(s: Seq<i32>, p: spec_fn(i32) -> bool)
    requires
        s.no_duplicates(),
    ensures
        s.filter(p).no_duplicates(),
    decreases s.len(),
{
    if s.len() > 0 {
        let init = s.drop_last();
        let last = s.last();
        lemma_filter_no_duplicates(init, p);
        assert(init.push(last) =~= s);
        init.lemma_filter_push(last, p);
        if p(last) {
            let f = init.filter(p);
            assert(!f.contains(last)) by {
                if f.contains(last) {
                    init.lemma_filter_contains_rev(p, last);
                    let k = choose|k: int| 0 <= k < init.len() && init[k] == last;
                    assert(s[k] == s[s.len() - 1]);
                }
            }
            assert forall|i: int, j: int|
                0 <= i < f.push(last).len() && 0 <= j < f.push(last).len() && i != j implies f.push(last)[i]
                != f.push(last)[j] by {
                if i == f.len() {
                    assert(f.contains(f[j]));
                } else if j == f.len() {
                    assert(f.contains(f[i]));
                }
            }
        }
    }
}

/// Moving an anime to the list named `target` keeps the lists well formed:
/// every anime still stands at most once over all the lists.
pub proof fn law_relisted_keeps_lists_well_formed(
    lists: Seq<(Seq<char>, Seq<i32>)>,
    media_id: i32,
    target: Seq<char>,
)
    requires
        lists_well_formed(lists),
    ensures
        lists_well_formed(relisted(lists, media_id, target)),
{
    let r = relisted(lists, media_id, target);
    assert forall|i: int| 0 <= i < r.len() implies (#[trigger] r[i]).1.no_duplicates() by {
        let kept = lists[i].1.filter(other_than(media_id));
        lemma_filter_no_duplicates(lists[i].1, other_than(media_id));
        if lists[i].0 == target {
            assert(!kept.contains(media_id)) by {
                if kept.contains(media_id) {
                    let j = choose|j: int| 0 <= j < kept.len() && kept[j] == media_id;
                    lists[i].1.lemma_filter_pred(other_than(media_id), j);
                }
            }
            assert forall|a: int, b: int|
                0 <= a < kept.push(media_id).len() && 0 <= b < kept.push(media_id).len() && a != b implies kept.push(
                media_id,
            )[a] != kept.push(media_id)[b] by {
                if a == kept.len() {
                    assert(kept.contains(kept[b]));
                } else if b == kept.len() {
                    assert(kept.contains(kept[a]));
                }
            }
        }
    }
    assert forall|i: int, j: int, x: i32|
        0 <= i < r.len() && 0 <= j < r.len() && i != j && r[i].1.contains(x) implies !r[j].1.contains(
        x,
    ) by {
        if r[j].1.contains(x) {
            if x == media_id {
                if lists[i].0 != target {
                    lists[i].1.filter(other_than(media_id)).lemma_filter_contains_rev(
                        other_than(media_id),
                        x,
                    );
                    let k = choose|k: int|
                        0 <= k < lists[i].1.filter(other_than(media_id)).len() && lists[i].1.filter(
                            other_than(media_id),
                        )[k] == x;
                    lists[i].1.lemma_filter_pred(other_than(media_id), k);
                }
                if lists[j].0 != target {
                    let k = choose|k: int|
                        0 <= k < lists[j].1.filter(other_than(media_id)).len() && lists[j].1.filter(
                            other_than(media_id),
                        )[k] == x;
                    lists[j].1.lemma_filter_pred(other_than(media_id), k);
                }
                if i < j {
                    assert(lists[i].0 != lists[j].0);
                } else {
                    assert(lists[j].0 != lists[i].0);
                }
            } else {
                let fi = lists[i].1.filter(other_than(media_id));
                let fj = lists[j].1.filter(other_than(media_id));
                assert(fi.contains(x)) by {
                    if lists[i].0 == target {
                        let k = choose|k: int| 0 <= k < fi.push(media_id).len() && fi.push(media_id)[k] == x;
                        assert(fi[k] == x);
                    }
                }
                assert(fj.contains(x)) by {
                    if lists[j].0 == target {
                        let k = choose|k: int| 0 <= k < fj.push(media_id).len() && fj.push(media_id)[k] == x;
                        assert(fj[k] == x);
                    }
                }
                lists[i].1.lemma_filter_contains_rev(other_than(media_id), x);
                lists[j].1.lemma_filter_contains_rev(other_than(media_id), x);
            }
        }
    }
}

/// Storing an entry keeps the lists well formed.
pub proof fn law_lists_after_keeps_well_formed(
    lists: Seq<(Seq<char>, Seq<i32>)>,
    entries: Map<i32, UserInfo>,
    data: UserInfo,
)
    requires
        lists_well_formed(lists),
    ensures
        lists_well_formed(lists_after(lists, entries, data)),
{
    if changes_list(status_before(entries, data.media_id), data.status@) {
        law_relisted_keeps_lists_well_formed(lists, data.media_id, list_for(data.status@));
    }
}

/// Taking in AniList's updates keeps the lists well formed.
pub proof fn law_updates_keep_lists_well_formed(
    lists: Seq<(Seq<char>, Seq<i32>)>,
    entries: Map<i32, UserInfo>,
    updates: Seq<UserInfo>,
)
    requires
        lists_well_formed(lists),
    ensures
        lists_well_formed(updates_applied(lists, entries, updates).0),
    decreases updates.len(),
{
    if updates.len() > 0 {
        law_updates_keep_lists_well_formed(lists, entries, updates.drop_last());
        let (l, e) = updates_applied(lists, entries, updates.drop_last());
        law_lists_after_keeps_well_formed(l, e, updates.last());
    }
}

/// Storing an entry changes none of what the user gave but two dates.  A
/// completed entry (not a rewatch completed) without a completion date gets
/// today's; its empty start date becomes that date too when the anime has at
/// most one episode or no progress was made before.  A watched entry moving
/// from no progress to some gets today as an empty start date.  A date the
/// user filled in stays, a missing start date stays missing, and entries of
/// any other status are kept as they are.
pub proof fn law_entry_after_sets_only_dates(
    data: UserInfo,
    old_status: Seq<char>,
    old_progress: int,
    max_episodes: Option<i32>,
    today: Date,
)
    ensures
        ({
            let r = entry_after(data, old_status, old_progress, max_episodes, today);
            &&& r.id == data.id && r.media_id == data.media_id && r.status == data.status
            &&& r.score_tenths == data.score_tenths && r.progress == data.progress && r.notes == data.notes
            &&& (data.status@ == "COMPLETED"@ && old_status != "REPEATING"@ && (match data.completed_at {
                None => true,
                Some(c) => c.year is None && c.month is None && c.day is None,
            })) ==> r.completed_at == Some(today)
            &&& (data.completed_at matches Some(c) && !(c.year is None && c.month is None && c.day is None))
                ==> r.completed_at == data.completed_at
            &&& (data.status@ != "COMPLETED"@ || old_status == "REPEATING"@) ==> r.completed_at
                == data.completed_at
            &&& data.started_at is None ==> r.started_at is None
            &&& (data.started_at matches Some(x) && !(x.year is None && x.month is None && x.day is None))
                ==> r.started_at == data.started_at
            &&& (data.status@ == "COMPLETED"@ && old_status != "REPEATING"@ && (data.started_at matches Some(x)
                && x.year is None && x.month is None && x.day is None) && ((max_episodes matches Some(e) && e <= 1)
                || old_progress == 0)) ==> r.started_at == r.completed_at
            &&& (data.status@ == "CURRENT"@ && data.progress > 0 && old_progress == 0 && (data.started_at matches Some(
                x,
            ) && x.year is None && x.month is None && x.day is None)) ==> r.started_at == Some(today)
            &&& (data.status@ != "COMPLETED"@ && data.status@ != "CURRENT"@) ==> r == data
        }),
{
    reveal_strlit("COMPLETED");
    reveal_strlit("CURRENT");
    assert("COMPLETED"@ != "CURRENT"@) by {
        assert("COMPLETED"@.len() != "CURRENT"@.len());
    }
}

/// Storing an entry whose status changed, other than between watching and
/// rewatching, takes its anime out of every list and puts it at the end of the
/// list of its status (`CURRENT` for a rewatch); the other anime of each list
/// stay, in order.  A status that did not change, or a change between
/// watching and rewatching, leaves the lists as they are.
pub proof fn law_lists_after_moves_to_the_status_list(
    lists: Seq<(Seq<char>, Seq<i32>)>,
    entries: Map<i32, UserInfo>,
    data: UserInfo,
    k: int,
)
    requires
        0 <= k < lists.len(),
    ensures
        ({
            let before = if entries.contains_key(data.media_id) {
                entries[data.media_id].status@
            } else {
                Seq::<char>::empty()
            };
            let after = lists_after(lists, entries, data);
            let swap = (before == "CURRENT"@ && data.status@ == "REPEATING"@) || (before == "REPEATING"@
                && data.status@ == "CURRENT"@);
            let target = if data.status@ == "REPEATING"@ { "CURRENT"@ } else { data.status@ };
            &&& (before == data.status@ || swap) ==> after == lists
            &&& !(before == data.status@ || swap) ==> {
                &&& after.len() == lists.len()
                &&& after[k].0 == lists[k].0
                &&& (after[k].1.contains(data.media_id) <==> lists[k].0 == target)
                &&& after[k].1.filter(|x: i32| x != data.media_id) == lists[k].1.filter(
                    |x: i32| x != data.media_id,
                )
                &&& lists[k].0 == target ==> after[k].1.last() == data.media_id
            }
        }),
{
    if changes_list(status_before(entries, data.media_id), data.status@) {
        law_relisted_in_one_list(lists, data.media_id, list_for(data.status@), k);
        assert(other_than(data.media_id) == (|x: i32| x != data.media_id));
    }
}

/// After an entry moves, its anime stands in the list named for its status
/// and in no other; every other anime stays where it was, in the same order.
pub proof fn law_relisted_in_one_list(
    lists: Seq<(Seq<char>, Seq<i32>)>,
    media_id: i32,
    target: Seq<char>,
    k: int,
)
    requires
        0 <= k < lists.len(),
    ensures
        relisted(lists, media_id, target)[k].0 == lists[k].0,
        relisted(lists, media_id, target)[k].1.contains(media_id) <==> lists[k].0 == target,
        relisted(lists, media_id, target)[k].1.filter(other_than(media_id)) == lists[k].1.filter(
            other_than(media_id),
        ),
{
    let kept = lists[k].1.filter(other_than(media_id));
    assert(!kept.contains(media_id)) by {
        if kept.contains(media_id) {
            let j = choose|j: int| 0 <= j < kept.len() && kept[j] == media_id;
            lists[k].1.lemma_filter_pred(other_than(media_id), j);
        }
    }
    assert(kept.filter(other_than(media_id)) =~= kept) by {
        lemma_filter_keeps_all(kept, other_than(media_id));
    }
    if lists[k].0 == target {
        assert(kept.push(media_id)[kept.len() as int] == media_id);
        kept.lemma_filter_push(media_id, other_than(media_id));
    }
}

/// Filtering a sequence whose members all pass changes nothing.
proof fn lemma_filter_keeps_all(s: Seq<i32>, p: spec_fn(i32) -> bool)
    requires
        forall|i: int| 0 <= i < s.len() ==> p(#[trigger] s[i]),
    ensures
        s.filter(p) == s,
    decreases s.len(),
{
    if s.len() > 0 {
        lemma_filter_keeps_all(s.drop_last(), p);
        assert(s.drop_last().push(s.last()) =~= s);
        s.drop_last().lemma_filter_push(s.last(), p);
    }
}

/// What is stored for an anime is what reading it gives back: after an
/// entry is stored, the user's entry for its anime is the stored entry.
pub proof fn law_entry_read_after_write(entries: Map<i32, UserInfo>, stored: UserInfo)
    ensures
        entries.insert(stored.media_id, stored).contains_key(stored.media_id),
        entries.insert(stored.media_id, stored)[stored.media_id] == stored,
        forall|other: i32|
            other != stored.media_id ==> #[trigger] entries.insert(stored.media_id, stored).contains_key(other)
                == entries.contains_key(other) && (entries.contains_key(other) ==> entries.insert(
                stored.media_id,
                stored,
            )[other] == entries[other]),
{
}

/// Adding an episode keeps the progress within the anime's episode count:
/// the entry stored has one episode more, no more than the count.
pub proof fn law_increment_within_count(
    entry: UserInfo,
    old_status: Seq<char>,
    old_progress: int,
    episodes: i32,
    today: Date,
)
    requires
        entry.progress < episodes,
    ensures
        entry_after(
            UserInfo { progress: (entry.progress + 1) as i32, ..entry },
            old_status,
            old_progress,
            Some(episodes),
            today,
        ).progress == entry.progress + 1,
        entry.progress + 1 <= episodes,
{
}

} // verus!
