//! Reading a file name: the title, resolution, release group and episode it
//! shows, the anime it belongs to, and the season the episode falls in.

use vstd::prelude::*;
use crate::anime_data::{AnimeData, AnimeInfo, IdentifyInfo, IdentifyView, zero_similarity};
use crate::foreign::{regex_capture, regex_group, regex_is_match, regex_matches, regex_replace_all, regex_replaced};
use crate::maps::keys_of;
use crate::recognition::{
    Best, CHECKSUM, EMPTY_BRACKETS, EXTENSION_CHECK, RESOLUTION, RESOLUTION2, SUB_GROUP,
    SUB_GROUP_BACKUP, TRAILING_EMPTY_SPACE, TitleMatch, VERSION, identify_number, is_ordering,
    media_search, numbered,
};
use crate::removal::{REMOVAL_WORD_COUNT, removal_word, removal_word_at};
use crate::sequels::{episode_fixed, sequel_replacement};
use crate::text::{
    char_count, contains_text, count_char, find_str, first_index, law_first_index_from_finds_the_first,
    occurs_at, parse_i32, parsed_i32, prefix_chars, replace_str,
    replaced,
};

verus! {

/// Underscores read as spaces, and so do dots where there are more than five.
pub open spec fn spaced(name: Seq<char>) -> Seq<char> {
    let t = replaced(name, "_"@, " "@);
    if char_count(t, '.') > 5 {
        replaced(t, "."@, " "@)
    } else {
        t
    }
}

/// The resolution in the first group of `pattern`'s first match and the title
/// without the matches; no resolution when the group does not read as a number.
pub open spec fn taken_resolution(pattern: Seq<char>, text: Seq<char>) -> (i32, Seq<char>) {
    match regex_group(pattern, text, 1) {
        Some(g) => match parsed_i32(g) {
            Some(v) => (v, regex_replaced(pattern, text, ""@)),
            None => (0, text),
        },
        None => (0, text),
    }
}

/// The resolution a title shows as `1080p`, or else as `1920x1080`.
pub open spec fn resolution_stage(text: Seq<char>) -> (i32, Seq<char>) {
    if regex_group(RESOLUTION@, text, 0) is Some {
        taken_resolution(RESOLUTION@, text)
    } else if regex_group(RESOLUTION2@, text, 0) is Some {
        taken_resolution(RESOLUTION2@, text)
    } else {
        (0, text)
    }
}

/// The resolution is read as written `1080p` when the title shows that form,
/// and as the height of `1920x1080` when it shows only that form; the number
/// read is the pattern's first group and the form is taken out of the title.
/// A title with neither form has resolution 0 and stays as it is.
pub proof fn law_resolution_read_from_either_form(t: Seq<char>)
    ensures
        forall|g: Seq<char>|
            regex_group(RESOLUTION@, t, 0) is Some && regex_group(RESOLUTION@, t, 1) == Some(g) && #[trigger] parsed_i32(g)
                is Some ==> resolution_stage(t) == (parsed_i32(g)->0, regex_replaced(RESOLUTION@, t, ""@)),
        forall|g: Seq<char>|
            regex_group(RESOLUTION@, t, 0) is None && regex_group(RESOLUTION2@, t, 0) is Some && regex_group(
                RESOLUTION2@,
                t,
                1,
            ) == Some(g) && #[trigger] parsed_i32(g) is Some ==> resolution_stage(t) == (parsed_i32(g)->0, regex_replaced(
                RESOLUTION2@,
                t,
                ""@,
            )),
        regex_group(RESOLUTION@, t, 0) is None && regex_group(RESOLUTION2@, t, 0) is None ==> resolution_stage(t) == (0i32, t),
        resolution_stage(t).0 != 0 ==> (regex_group(RESOLUTION@, t, 1) matches Some(g) && parsed_i32(g) == Some(
            resolution_stage(t).0,
        )) || (regex_group(RESOLUTION2@, t, 1) matches Some(g) && parsed_i32(g) == Some(resolution_stage(t).0)),
{
}

/// `text` without the first `k` words of `removal_word`.
pub open spec fn without_words(text: Seq<char>, k: int) -> Seq<char>
    decreases k,
{
    if k <= 0 {
        text
    } else {
        replaced(without_words(text, k - 1), removal_word(k - 1), Seq::empty())
    }
}

/// The resolution and the title left of a file name once the underscores,
/// checksums, resolution, release details, versions and empty brackets are out.
pub open spec fn title_stage(name: Seq<char>) -> (i32, Seq<char>) {
    let t = regex_replaced(CHECKSUM@, spaced(name), ""@);
    let (resolution, t2) = resolution_stage(t);
    let t3 = without_words(t2, REMOVAL_WORD_COUNT as int);
    (resolution, regex_replaced(EMPTY_BRACKETS@, regex_replaced(VERSION@, t3, ""@), ""@))
}

/// The title up to where the episode text begins, when an episode was found.
pub open spec fn cut_at_episode(text: Seq<char>, episode_text: Seq<char>, episode: i32) -> Seq<char> {
    if episode > 0 {
        match first_index(text, episode_text) {
            Some(i) => text.take(i),
            None => text,
        }
    } else {
        text
    }
}

/// The title is cut where the episode text first stands, when an episode
/// was found: what is left is the part of the title before it, and a title
/// without the episode text, or without an episode, stays whole.
pub proof fn law_cut_at_episode_keeps_what_comes_before(text: Seq<char>, episode_text: Seq<char>, episode: i32)
    ensures
        ({
            let r = cut_at_episode(text, episode_text, episode);
            &&& r.len() <= text.len()
            &&& text.take(r.len() as int) == r
            &&& episode > 0 && r.len() < text.len() ==> occurs_at(text, episode_text, r.len() as int)
            &&& episode > 0 && episode_text.len() > 0 ==> !contains_text(r, episode_text)
            &&& (episode <= 0 || !contains_text(text, episode_text)) ==> r == text
        }),
{
    law_first_index_from_finds_the_first(text, episode_text, 0);
    let r = cut_at_episode(text, episode_text, episode);
    if episode > 0 {
        if let Some(i) = first_index(text, episode_text) {
            assert(text.take(i).len() == i);
            assert(occurs_at(text, episode_text, i));
            assert(contains_text(text, episode_text));
            if contains_text(r, episode_text) {
                let j = choose|j: int| occurs_at(r, episode_text, j);
                assert(text.subrange(j, j + episode_text.len()) =~= r.subrange(j, j + episode_text.len()));
                assert(occurs_at(text, episode_text, j));
            }
        } else {
            if contains_text(text, episode_text) {
                let j = choose|j: int| occurs_at(text, episode_text, j);
                assert(!occurs_at(text, episode_text, j));
            }
        }
    }
    assert(text.take(text.len() as int) =~= text);
}

/// The release group is the first group of a leading `[group]` when the title
/// has one, the group is taken out of the title; otherwise it is the first
/// group of a trailing `-group`, taken out likewise.
pub proof fn law_sub_group_leading_first(text: Seq<char>)
    ensures
        regex_matches(SUB_GROUP@, text) ==> sub_group_stage(text).1 == regex_replaced(SUB_GROUP@, text, ""@)
            && (regex_group(SUB_GROUP@, text, 1) is Some ==> sub_group_stage(text).0 == regex_group(
            SUB_GROUP@,
            text,
            1,
        )->0),
        !regex_matches(SUB_GROUP@, text) ==> sub_group_stage(text).1 == regex_replaced(SUB_GROUP_BACKUP@, text, ""@)
            && (regex_group(SUB_GROUP_BACKUP@, text, 1) is Some ==> sub_group_stage(text).0 == regex_group(
            SUB_GROUP_BACKUP@,
            text,
            1,
        )->0),
{
}

/// The release group and the title without it: a leading `[group]`, or else a
/// trailing `-group`.
pub open spec fn sub_group_stage(text: Seq<char>) -> (Seq<char>, Seq<char>) {
    if regex_matches(SUB_GROUP@, text) {
        (
            match regex_group(SUB_GROUP@, text, 1) {
                Some(g) => g,
                None => Seq::empty(),
            },
            regex_replaced(SUB_GROUP@, text, ""@),
        )
    } else {
        (
            match regex_group(SUB_GROUP_BACKUP@, text, 1) {
                Some(g) => g,
                None => Seq::empty(),
            },
            regex_replaced(SUB_GROUP_BACKUP@, text, ""@),
        )
    }
}

/// The anime search for a file title: among all anime in `order`, or only
/// `only_compare` when it is held (0, "" and 0 when it is not).
pub open spec fn searched(
    data: Map<i32, AnimeInfo>,
    order: Seq<i32>,
    title: Seq<char>,
    only_compare: Option<i32>,
) -> Option<Best> {
    match only_compare {
        None => media_search(data, order, title),
        Some(id) => if data.contains_key(id) {
            media_search(data, seq![id], title)
        } else {
            Some((zero_similarity(), 0, Seq::empty()))
        },
    }
}

/// What a file name tells, with the anime weighed in `order`.  `None` for a
/// name that is not a video file, and for names that cannot be identified: a
/// number found that does not read as an `i32`, an empty anime title in the
/// quick pass, a season walk that breaks off (see `sequel_replacement`).
pub open spec fn identified(
    data: Map<i32, AnimeInfo>,
    order: Seq<i32>,
    name: Seq<char>,
    only_compare: Option<i32>,
) -> Option<IdentifyView> {
    if !regex_matches(EXTENSION_CHECK@, name) {
        None
    } else {
        let (resolution, t) = title_stage(name);
        match numbered(t) {
            None => None,
            Some((episode_text, episode, length)) => {
                let (sub_group, t2) = sub_group_stage(cut_at_episode(t, episode_text, episode));
                let title = regex_replaced(TRAILING_EMPTY_SPACE@, t2, ""@);
                match searched(data, order, title, only_compare) {
                    None => None,
                    Some(best) => match sequel_replacement(data, best.1, episode) {
                        None => None,
                        Some((id, ep)) => {
                            let fixed = episode_fixed(data, id, ep, length);
                            Some(
                                IdentifyView {
                                    filename: name,
                                    file_title: title,
                                    media_id: id,
                                    similarity: best.0,
                                    media_title: best.2,
                                    sub_group,
                                    resolution,
                                    episode: fixed.0,
                                    episode_length: fixed.1,
                                },
                            )
                        },
                    },
                }
            },
        }
    }
}

/// What is learned of a file name keeps the name itself, needs a video file,
/// takes the resolution the cleaned name shows, and numbers an anime of a
/// single episode as episode 1 of 1.
pub proof fn law_identified_fields(
    data: Map<i32, AnimeInfo>,
    order: Seq<i32>,
    name: Seq<char>,
    only_compare: Option<i32>,
)
    ensures
        identified(data, order, name, only_compare) matches Some(v) ==> {
            &&& v.filename == name
            &&& regex_matches(EXTENSION_CHECK@, name)
            &&& v.resolution == resolution_stage(regex_replaced(CHECKSUM@, spaced(name), ""@)).0
            &&& (data.contains_key(v.media_id) && data[v.media_id].episodes == Some(1i32)) ==> v.episode == 1
                && v.episode_length == 1
        },
        !regex_matches(EXTENSION_CHECK@, name) ==> identified(data, order, name, only_compare) is None,
{
}

/// Underscores to spaces, and dots too where there are more than five.
pub fn space_out(name: &str) -> (r: String)
    ensures
        r@ == spaced(name@),
{
    proof {
        reveal_strlit("_");
        reveal_strlit(" ");
        reveal_strlit(".");
    }
    let t = replace_str(name, "_", " ");
    if count_char(t.as_str(), '.') > 5 {
        replace_str(t.as_str(), ".", " ")
    } else {
        t
    }
}

fn take_resolution(pattern: &str, text: String) -> (r: (i32, String))
    ensures
        (r.0, r.1@) == taken_resolution(pattern@, text@),
{
    match regex_capture(pattern, text.as_str(), 1) {
        Some(g) => match parse_i32(g.as_str()) {
            Some(v) => (v, regex_replace_all(pattern, text.as_str(), "")),
            None => (0, text),
        },
        None => (0, text),
    }
}

/// The resolution and the title without it (see `resolution_stage`).
pub fn find_resolution(text: String) -> (r: (i32, String))
    ensures
        (r.0, r.1@) == resolution_stage(text@),
{
    if regex_capture(RESOLUTION, text.as_str(), 0).is_some() {
        take_resolution(RESOLUTION, text)
    } else if regex_capture(RESOLUTION2, text.as_str(), 0).is_some() {
        take_resolution(RESOLUTION2, text)
    } else {
        (0, text)
    }
}

/// The title without the words of `removal_word`.
pub fn remove_release_words(text: String) -> (r: String)
    ensures
        r@ == without_words(text@, REMOVAL_WORD_COUNT as int),
{
    let mut t = text;
    let mut k: usize = 0;
    proof {
        reveal_strlit("");
    }
    while k < REMOVAL_WORD_COUNT
        invariant
            0 <= k <= REMOVAL_WORD_COUNT,
            t@ == without_words(text@, k as int),
            ""@ == Seq::<char>::empty(),
        decreases REMOVAL_WORD_COUNT - k,
    {
        t = replace_str(t.as_str(), removal_word_at(k), "");
        k = k + 1;
    }
    t
}

/// The resolution and the cleaned title of a file name (see `title_stage`).
pub fn clean_title(name: &str) -> (r: (i32, String))
    ensures
        (r.0, r.1@) == title_stage(name@),
{
    let spaced_name = space_out(name);
    let t = regex_replace_all(CHECKSUM, spaced_name.as_str(), "");
    let (resolution, t2) = find_resolution(t);
    let t3 = remove_release_words(t2);
    let t4 = regex_replace_all(VERSION, t3.as_str(), "");
    (resolution, regex_replace_all(EMPTY_BRACKETS, t4.as_str(), ""))
}

/// The title up to the episode text (see `cut_at_episode`).
pub fn cut_episode(text: String, episode_text: &str, episode: i32) -> (r: String)
    ensures
        r@ == cut_at_episode(text@, episode_text@, episode),
{
    if episode > 0 {
        match find_str(text.as_str(), episode_text) {
            Some(i) => prefix_chars(text.as_str(), i),
            None => text,
        }
    } else {
        text
    }
}

/// The release group and the title without it (see `sub_group_stage`).
pub fn take_sub_group(text: &str) -> (r: (String, String))
    ensures
        (r.0@, r.1@) == sub_group_stage(text@),
{
    if regex_is_match(SUB_GROUP, text) {
        let group = match regex_capture(SUB_GROUP, text, 1) {
            Some(g) => g,
            None => String::new(),
        };
        (group, regex_replace_all(SUB_GROUP, text, ""))
    } else {
        let group = match regex_capture(SUB_GROUP_BACKUP, text, 1) {
            Some(g) => g,
            None => String::new(),
        };
        (group, regex_replace_all(SUB_GROUP_BACKUP, text, ""))
    }
}

impl AnimeData {
    fn search_for(&self, order: &Vec<i32>, title: &str, only_compare: Option<i32>) -> (r: Option<
        TitleMatch,
    >)
        requires
            forall|k: int| 0 <= k < order@.len() ==> self.data@.contains_key(#[trigger] order@[k]),
        ensures
            match r {
                Some(m) => searched(self.data@, order@, title@, only_compare) == Some(m@),
                None => searched(self.data@, order@, title@, only_compare) is None,
            },
    {
        match only_compare {
            None => self.search_titles(order, title),
            Some(id) => {
                if self.data.contains_key(&id) {
                    let mut one: Vec<i32> = Vec::new();
                    one.push(id);
                    assert(one@ =~= seq![id]);
                    self.search_titles(&one, title)
                } else {
                    Some(
                        TitleMatch {
                            similarity: crate::anime_data::Similarity::zero(),
                            media_id: 0,
                            title: String::new(),
                        },
                    )
                }
            },
        }
    }

    /// What a file name tells: its title, resolution, release group, episode
    /// and episode count, and the anime it belongs to, looked for among all
    /// anime held or only `media_id` (see `identified`).  The anime are weighed
    /// in the map's own order.
    pub fn identify_anime(&self, filename: String, media_id: Option<i32>) -> (r: Option<
        IdentifyInfo,
    >)
        ensures
            exists|order: Seq<i32>|
                is_ordering(order, self.data@.dom()) && match r {
                    Some(info) => identified(self.data@, order, filename@, media_id) == Some(info@),
                    None => identified(self.data@, order, filename@, media_id) is None,
                },
    {
        let order = keys_of(&self.data);
        assert forall|k: int| 0 <= k < order@.len() implies self.data@.contains_key(
            #[trigger] order@[k],
        ) by {
            assert(order@.to_set().contains(order@[k]));
        }
        assert(is_ordering(order@, self.data@.dom()));
        if !regex_is_match(EXTENSION_CHECK, filename.as_str()) {
            return None;
        }
        let (resolution, t) = clean_title(filename.as_str());
        let (episode_text, episode, length) = match identify_number(t.as_str()) {
            None => return None,
            Some(found) => found,
        };
        let t2 = cut_episode(t, episode_text.as_str(), episode);
        let (sub_group, t3) = take_sub_group(t2.as_str());
        let title = regex_replace_all(TRAILING_EMPTY_SPACE, t3.as_str(), "");
        let best = match self.search_for(&order, title.as_str(), media_id) {
            None => return None,
            Some(b) => b,
        };
        let (id, ep) = match self.replace_with_sequel(best.media_id, episode) {
            None => return None,
            Some(moved) => moved,
        };
        let (ep2, len2) = self.episode_fix(id, ep, length);
        let info = IdentifyInfo {
            filename,
            file_title: title,
            media_id: id,
            similarity: best.similarity,
            media_title: best.title,
            sub_group,
            resolution,
            episode: ep2,
            episode_length: len2,
        };
        Some(info)
    }
}

} // verus!
