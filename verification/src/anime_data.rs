//! The anime information that the program keeps, as AniList describes each
//! anime, and the store that holds it together with the episode files found
//! on disk.

use vstd::prelude::*;
use std::collections::{HashMap, HashSet};
use core::cmp::Ordering;
use crate::dates::{date_order, order_of_dates};
use crate::duplicate::{Duplicate, duplicate_option, duplicate_vec};
use crate::maps::keys_of;

verus! {

broadcast use vstd::std_specs::hash::group_hash_axioms;

#[derive(Debug, Clone, Default)]
pub struct AnimeInfo {
    pub average_score: Option<i32>,
    pub cover_image: CoverImage,
    pub description: Option<String>,
    pub duration: Option<i32>,
    pub episodes: Option<i32>,
    pub format: Option<String>,
    pub genres: Vec<String>,
    pub id: i32,
    pub is_adult: bool,
    pub popularity: i32,
    pub season: Option<String>,
    pub season_year: Option<i32>,
    pub start_date: AnilistDate,
    pub title: Title,
    pub trailer: Option<TrailerData>,
    pub media_type: String,
    pub relations: Relations,
    pub recommendations: Option<Recommendations>,
    pub tags: Vec<Tag>,
    pub trending: i32,
    pub studios: Studio,
    pub next_airing_episode: Option<NextAiringEpisode>,
    pub synonyms: Vec<String>,
}

#[derive(Debug, Clone, Default)]
pub struct CoverImage {
    pub large: String,
}

#[derive(Debug, Clone, Copy, Default, PartialEq, Eq, Structural)]
pub struct AnilistDate {
    pub year: Option<i32>,
    pub month: Option<i32>,
    pub day: Option<i32>,
}

#[derive(Debug, Clone, Default)]
pub struct Title {
    pub english: Option<String>,
    pub native: Option<String>,
    pub romaji: Option<String>,
    pub user_preferred: Option<String>,
    pub custom: Option<String>,
}

#[derive(Debug, Clone)]
pub struct TrailerData {
    pub id: String,
    pub site: String,
}

#[derive(Debug, Clone, Default)]
pub struct Relations {
    pub edges: Vec<Edge>,
}

#[derive(Debug, Clone)]
pub struct Edge {
    pub relation_type: String,
    pub node: Node,
}

#[derive(Debug, Clone)]
pub struct Node {
    pub id: i32,
    pub title: Title,
    pub cover_image: CoverImage,
    pub media_type: String,
}

#[derive(Debug, Clone, Default)]
pub struct Recommendations {
    pub nodes: Vec<RecNode>,
}

#[derive(Debug, Clone)]
pub struct RecNode {
    pub rating: i32,
    pub media_recommendation: Option<MediaRecommendation>,
}

#[derive(Debug, Clone)]
pub struct MediaRecommendation {
    pub id: i32,
    pub title: Title,
    pub cover_image: CoverImage,
    pub media_type: String,
}

#[derive(Debug, Clone, Default)]
pub struct Tag {
    pub name: String,
    pub is_general_spoiler: bool,
    pub is_media_spoiler: bool,
    pub description: String,
}

#[derive(Debug, Clone, Default)]
pub struct Studio {
    pub nodes: Vec<NodeName>,
}

#[derive(Debug, Clone, Default)]
pub struct NodeName {
    pub name: String,
    pub is_animation_studio: bool,
}

#[derive(Debug, Clone, Copy, Default, PartialEq, Eq, Structural)]
pub struct NextAiringEpisode {
    pub airing_at: i32,
    pub episode: i32,
}

/// How alike a file's title is to an anime's title: `numerator / denominator`,
/// a fraction between 0 and 1.  A normalised Levenshtein similarity is
/// `(longer length - distance) / longer length`; keeping it as a fraction makes
/// every comparison exact.
#[derive(Debug, Clone, Copy, Default, PartialEq, Eq, Structural)]
pub struct Similarity {
    pub numerator: u64,
    pub denominator: u64,
}

/// What was learned of a file name: the anime, the episode and the release details.
#[derive(Debug, Clone, Default)]
pub struct IdentifyInfo {
    pub filename: String,
    pub file_title: String,
    pub media_id: i32,
    pub similarity: Similarity,
    pub media_title: String,
    pub sub_group: String,
    pub resolution: i32,
    pub episode: i32,
    pub episode_length: i32,
}

/// An `IdentifyInfo` with its texts as character sequences.
pub struct IdentifyView {
    pub filename: Seq<char>,
    pub file_title: Seq<char>,
    pub media_id: i32,
    pub similarity: Similarity,
    pub media_title: Seq<char>,
    pub sub_group: Seq<char>,
    pub resolution: i32,
    pub episode: i32,
    pub episode_length: i32,
}

impl View for IdentifyInfo {
    type V = IdentifyView;

    open spec fn view(&self) -> IdentifyView {
        IdentifyView {
            filename: self.filename@,
            file_title: self.file_title@,
            media_id: self.media_id,
            similarity: self.similarity,
            media_title: self.media_title@,
            sub_group: self.sub_group@,
            resolution: self.resolution,
            episode: self.episode,
            episode_length: self.episode_length,
        }
    }
}

/// Where an episode was found, and how alike its file name was to the anime.
#[derive(Debug, Clone, Default)]
pub struct AnimePath {
    pub path: String,
    pub similarity: Similarity,
}

/// How strongly an anime is recommended.  Ratings are kept as whole numbers
/// scaled by the score format's denominator (see `recommend`).
#[derive(Debug, Clone, Copy, Default, PartialEq, Eq, Structural)]
pub struct RecommendTally {
    pub id: i32,
    pub rating: i128,
}

pub struct AnimeData {
    pub data: HashMap<i32, AnimeInfo>,
    pub nonexistent_ids: HashSet<i32>,
    pub needs_scan: Vec<i32>,
    pub anime_path: HashMap<i32, HashMap<i32, AnimePath>>,
    pub known_files: HashSet<u64>,
    pub new_anime: bool,
}

/// The similarity that nothing has yet reached.
pub open spec fn zero_similarity() -> Similarity {
    Similarity { numerator: 0, denominator: 1 }
}

/// `a` is more alike than `b`.
pub open spec fn more_similar(a: Similarity, b: Similarity) -> bool {
    a.numerator * b.denominator > b.numerator * a.denominator
}

impl Similarity {
    pub fn zero() -> (r: Similarity)
        ensures
            r == zero_similarity(),
    {
        Similarity { numerator: 0, denominator: 1 }
    }

    /// Whether `self` is more alike than `other`.
    pub fn exceeds(&self, other: &Similarity) -> (r: bool)
        ensures
            r == more_similar(*self, *other),
    {
        let a: u128 = self.numerator as u128;
        let b: u128 = other.denominator as u128;
        let c: u128 = other.numerator as u128;
        let d: u128 = self.denominator as u128;
        assert(a * b < 0x1_0000_0000_0000_0000_0000_0000_0000_0000) by (nonlinear_arith)
            requires a < 0x1_0000_0000_0000_0000, b < 0x1_0000_0000_0000_0000;
        assert(c * d < 0x1_0000_0000_0000_0000_0000_0000_0000_0000) by (nonlinear_arith)
            requires c < 0x1_0000_0000_0000_0000, d < 0x1_0000_0000_0000_0000;
        a * b > c * d
    }

    /// Whether `self` lies above the threshold `SIMILARITY_THRESHOLD_NUM / SIMILARITY_THRESHOLD_DEN`.
    pub fn above_threshold(&self) -> (r: bool)
        ensures
            r == above_threshold(*self),
    {
        (self.numerator as u128) * 5 > (self.denominator as u128) * 4
    }

    /// Whether `self` lies below the threshold.
    pub fn below_threshold(&self) -> (r: bool)
        ensures
            r == below_threshold(*self),
    {
        (self.numerator as u128) * 5 < (self.denominator as u128) * 4
    }
}

/// The similarity is above four fifths, the least similarity at which a file
/// counts as an episode of the anime.
pub open spec fn above_threshold(s: Similarity) -> bool {
    s.numerator * 5 > s.denominator * 4
}

/// The similarity is below four fifths.
pub open spec fn below_threshold(s: Similarity) -> bool {
    s.numerator * 5 < s.denominator * 4
}

impl AnilistDate {
    pub fn new() -> (r: AnilistDate)
        ensures
            r.year is None && r.month is None && r.day is None,
    {
        AnilistDate { year: None, month: None, day: None }
    }

    /// The order of two dates (see `dates::date_order`).
    pub fn cmp(&self, other: &Self) -> (r: Ordering)
        ensures
            r == date_order(self.year, self.month, self.day, other.year, other.month, other.day),
    {
        order_of_dates(self.year, self.month, self.day, other.year, other.month, other.day)
    }

    pub fn partial_cmp(&self, other: &Self) -> (r: Option<Ordering>)
        ensures
            r == Some(
                date_order(self.year, self.month, self.day, other.year, other.month, other.day),
            ),
    {
        Some(self.cmp(other))
    }
}

impl Duplicate for CoverImage {
    fn duplicate(&self) -> (r: CoverImage) {
        CoverImage { large: self.large.clone() }
    }
}

impl Duplicate for Title {
    fn duplicate(&self) -> (r: Title) {
        Title {
            english: duplicate_option(&self.english),
            native: duplicate_option(&self.native),
            romaji: duplicate_option(&self.romaji),
            user_preferred: duplicate_option(&self.user_preferred),
            custom: duplicate_option(&self.custom),
        }
    }
}

impl Duplicate for TrailerData {
    fn duplicate(&self) -> (r: TrailerData) {
        TrailerData { id: self.id.clone(), site: self.site.clone() }
    }
}

impl Duplicate for Node {
    fn duplicate(&self) -> (r: Node) {
        Node {
            id: self.id,
            title: self.title.duplicate(),
            cover_image: self.cover_image.duplicate(),
            media_type: self.media_type.clone(),
        }
    }
}

impl Duplicate for Edge {
    fn duplicate(&self) -> (r: Edge) {
        Edge { relation_type: self.relation_type.clone(), node: self.node.duplicate() }
    }
}


impl Duplicate for MediaRecommendation {
    fn duplicate(&self) -> (r: MediaRecommendation) {
        MediaRecommendation {
            id: self.id,
            title: self.title.duplicate(),
            cover_image: self.cover_image.duplicate(),
            media_type: self.media_type.clone(),
        }
    }
}

impl Duplicate for RecNode {
    fn duplicate(&self) -> (r: RecNode) {
        RecNode { rating: self.rating, media_recommendation: duplicate_option(&self.media_recommendation) }
    }
}


impl Duplicate for Tag {
    fn duplicate(&self) -> (r: Tag) {
        Tag {
            name: self.name.clone(),
            is_general_spoiler: self.is_general_spoiler,
            is_media_spoiler: self.is_media_spoiler,
            description: self.description.clone(),
        }
    }
}

impl Duplicate for NodeName {
    fn duplicate(&self) -> (r: NodeName) {
        NodeName { name: self.name.clone(), is_animation_studio: self.is_animation_studio }
    }
}



impl Duplicate for AnimePath {
    fn duplicate(&self) -> (r: AnimePath) {
        AnimePath { path: self.path.clone(), similarity: self.similarity }
    }
}

impl IdentifyInfo {
    pub fn new() -> (r: IdentifyInfo)
        ensures
            r.filename@ == Seq::<char>::empty(),
            r.file_title@ == Seq::<char>::empty(),
            r.media_id == 0,
            r.similarity == zero_similarity(),
            r.media_title@ == Seq::<char>::empty(),
            r.sub_group@ == Seq::<char>::empty(),
            r.resolution == 0,
            r.episode == 0,
            r.episode_length == 0,
    {
        IdentifyInfo {
            filename: String::new(),
            file_title: String::new(),
            media_id: 0,
            similarity: Similarity::zero(),
            media_title: String::new(),
            sub_group: String::new(),
            resolution: 0,
            episode: 0,
            episode_length: 0,
        }
    }
}

/// The answer the store gives about one anime before any request to AniList.
pub enum AnimeLookup<'a> {
    /// AniList has no anime with this id.
    Nonexistent,
    /// The store holds it.
    Cached(&'a AnimeInfo),
    /// It must be fetched.
    Missing,
}

impl AnimeData {
    pub fn new() -> (r: AnimeData)
        ensures
            r.data@ == Map::<i32, AnimeInfo>::empty(),
            r.nonexistent_ids@ == Set::<i32>::empty(),
            r.needs_scan@ == Seq::<i32>::empty(),
            r.anime_path@ == Map::<i32, HashMap<i32, AnimePath>>::empty(),
            r.known_files@ == Set::<u64>::empty(),
            !r.new_anime,
    {
        AnimeData {
            data: HashMap::new(),
            nonexistent_ids: HashSet::new(),
            needs_scan: Vec::new(),
            anime_path: HashMap::new(),
            known_files: HashSet::new(),
            new_anime: false,
        }
    }

    /// Forgets the anime information and the ids known not to exist.
    pub fn clear(&mut self)
        ensures
            final(self).data@ == Map::<i32, AnimeInfo>::empty(),
            final(self).nonexistent_ids@ == Set::<i32>::empty(),
            final(self).needs_scan == old(self).needs_scan,
            final(self).anime_path == old(self).anime_path,
            final(self).known_files == old(self).known_files,
            final(self).new_anime == old(self).new_anime,
    {
        self.data.clear();
        self.nonexistent_ids.clear();
    }

    pub fn contains_key(&self, media_id: i32) -> (r: bool)
        ensures
            r == self.data@.contains_key(media_id),
    {
        self.data.contains_key(&media_id)
    }

    /// What the store knows of an anime: it does not exist, it is held, or it
    /// must be fetched.
    pub fn lookup_anime<'a>(&'a self, media_id: i32) -> (r: AnimeLookup<'a>)
        ensures
            self.nonexistent_ids@.contains(media_id) ==> r is Nonexistent,
            !self.nonexistent_ids@.contains(media_id) && self.data@.contains_key(media_id) ==> (
            r matches AnimeLookup::Cached(a) && *a == self.data@[media_id]),
            !self.nonexistent_ids@.contains(media_id) && !self.data@.contains_key(media_id)
                ==> r is Missing,
    {
        if self.nonexistent_ids.contains(&media_id) {
            return AnimeLookup::Nonexistent;
        }
        match self.data.get(&media_id) {
            Some(anime) => AnimeLookup::Cached(anime),
            None => AnimeLookup::Missing,
        }
    }

    /// Keeps an anime fetched from AniList and notes that new anime arrived.
    pub fn store_fetched(&mut self, anime: AnimeInfo)
        ensures
            final(self).data@ == old(self).data@.insert(anime.id, anime),
            final(self).new_anime,
            final(self).nonexistent_ids == old(self).nonexistent_ids,
            final(self).needs_scan == old(self).needs_scan,
            final(self).anime_path == old(self).anime_path,
            final(self).known_files == old(self).known_files,
    {
        let id = anime.id;
        self.data.insert(id, anime);
        self.new_anime = true;
    }

    /// Replaces the information held on `media_id` with a fresh copy.
    pub fn store_updated(&mut self, media_id: i32, anime: AnimeInfo)
        ensures
            final(self).data@ == old(self).data@.insert(media_id, anime),
            final(self).new_anime == old(self).new_anime,
            final(self).nonexistent_ids == old(self).nonexistent_ids,
            final(self).needs_scan == old(self).needs_scan,
            final(self).anime_path == old(self).anime_path,
            final(self).known_files == old(self).known_files,
    {
        self.data.insert(media_id, anime);
    }

    /// Sets the user's own title for an anime, used when matching file names.
    pub fn set_custom_filename(&mut self, media_id: i32, filename: String) -> (r: Result<
        (),
        &'static str,
    >)
        ensures
            r is Err <==> !old(self).data@.contains_key(media_id),
            r is Err ==> r == Err::<(), &'static str>("Anime does not exist"),
            r is Err ==> final(self).data@ == old(self).data@,
            r is Ok ==> final(self).data@ == old(self).data@.insert(
                media_id,
                AnimeInfo {
                    title: Title { custom: Some(filename), ..old(self).data@[media_id].title },
                    ..old(self).data@[media_id]
                },
            ),
            final(self).nonexistent_ids == old(self).nonexistent_ids,
            final(self).needs_scan == old(self).needs_scan,
            final(self).anime_path == old(self).anime_path,
            final(self).known_files == old(self).known_files,
            final(self).new_anime == old(self).new_anime,
    {
        match self.data.remove(&media_id) {
            None => Err("Anime does not exist"),
            Some(anime) => {
                let mut changed = anime;
                changed.title.custom = Some(filename);
                self.data.insert(media_id, changed);
                assert(final(self).data@ =~= old(self).data@.insert(
                    media_id,
                    AnimeInfo {
                        title: Title { custom: Some(filename), ..old(self).data@[media_id].title },
                        ..old(self).data@[media_id]
                    },
                ));
                Ok(())
            },
        }
    }

    /// The user's own title for an anime, if one was set.
    pub fn get_custom_filename(&self, media_id: i32) -> (r: Option<String>)
        ensures
            r == (if self.data@.contains_key(media_id) {
                self.data@[media_id].title.custom
            } else {
                None
            }),
    {
        match self.data.get(&media_id) {
            Some(anime) => duplicate_option(&anime.title.custom),
            None => None,
        }
    }

    /// The number of episodes of every anime held.
    pub fn get_anime_episodes(&self) -> (r: HashMap<i32, Option<i32>>)
        ensures
            r@.dom() == self.data@.dom(),
            forall|id: i32| #[trigger]
                r@.contains_key(id) ==> r@[id] == self.data@[id].episodes,
    {
        let ids = keys_of(&self.data);
        let mut episodes: HashMap<i32, Option<i32>> = HashMap::new();
        let mut i: usize = 0;
        while i < ids.len()
            invariant
                0 <= i <= ids.len(),
                ids@.to_set() == self.data@.dom(),
                episodes@.dom() == ids@.take(i as int).to_set(),
                forall|id: i32| #[trigger]
                    episodes@.contains_key(id) ==> episodes@[id] == self.data@[id].episodes,
            decreases ids.len() - i,
        {
            let id = ids[i];
            assert(ids@.to_set().contains(id));
            let info = self.data.get(&id).unwrap();
            episodes.insert(id, info.episodes);
            i = i + 1;
            assert(episodes@.dom() =~= ids@.take(i as int).to_set()) by {
                assert(ids@.take(i as int) =~= ids@.take(i - 1).push(id));
                ids@.take(i - 1).lemma_push_to_set_commute(id);
            }
        }
        assert(ids@.take(ids.len() as int) =~= ids@);
        episodes
    }

    /// Marks an anime to be looked for at the next scan of the folders.
    pub fn add_id_for_scanning(&mut self, media_id: i32)
        ensures
            final(self).needs_scan@ == old(self).needs_scan@.push(media_id),
            final(self).data == old(self).data,
            final(self).nonexistent_ids == old(self).nonexistent_ids,
            final(self).anime_path == old(self).anime_path,
            final(self).known_files == old(self).known_files,
            final(self).new_anime == old(self).new_anime,
    {
        self.needs_scan.push(media_id);
    }

    /// The path of the file found for an episode, if one was found.
    pub fn episode_path(&self, anime_id: i32, episode: i32) -> (r: Option<String>)
        ensures
            r == (if self.anime_path@.contains_key(anime_id)
                && self.anime_path@[anime_id]@.contains_key(episode) {
                Some(self.anime_path@[anime_id]@[episode].path)
            } else {
                None
            }),
    {
        match self.anime_path.get(&anime_id) {
            Some(media) => match media.get(&episode) {
                Some(found) => Some(found.path.clone()),
                None => None,
            },
            None => None,
        }
    }

    /// The episodes of an anime that were found on disk, each once.
    pub fn get_existing_files(&self, anime_id: i32) -> (r: Vec<i32>)
        ensures
            r@.no_duplicates(),
            r@.to_set() == (if self.anime_path@.contains_key(anime_id) {
                self.anime_path@[anime_id]@.dom()
            } else {
                Set::<i32>::empty()
            }),
    {
        match self.anime_path.get(&anime_id) {
            Some(paths) => keys_of(paths),
            None => {
                let r: Vec<i32> = Vec::new();
                assert(r@.to_set() =~= Set::<i32>::empty());
                r
            },
        }
    }

    /// For every anime with files on disk, the episodes found, each once.
    pub fn get_existing_files_all_anime(&self) -> (r: HashMap<i32, Vec<i32>>)
        ensures
            r@.dom() == self.anime_path@.dom(),
            forall|id: i32| #[trigger]
                r@.contains_key(id) ==> r@[id]@.no_duplicates() && r@[id]@.to_set()
                    == self.anime_path@[id]@.dom(),
    {
        let ids = keys_of(&self.anime_path);
        let mut episodes_exist: HashMap<i32, Vec<i32>> = HashMap::new();
        let mut i: usize = 0;
        while i < ids.len()
            invariant
                0 <= i <= ids.len(),
                ids@.to_set() == self.anime_path@.dom(),
                episodes_exist@.dom() == ids@.take(i as int).to_set(),
                forall|id: i32| #[trigger]
                    episodes_exist@.contains_key(id) ==> episodes_exist@[id]@.no_duplicates()
                        && episodes_exist@[id]@.to_set() == self.anime_path@[id]@.dom(),
            decreases ids.len() - i,
        {
            let id = ids[i];
            assert(ids@.to_set().contains(id));
            let episodes = self.anime_path.get(&id).unwrap();
            let list = keys_of(episodes);
            episodes_exist.insert(id, list);
            i = i + 1;
            assert(episodes_exist@.dom() =~= ids@.take(i as int).to_set()) by {
                assert(ids@.take(i as int) =~= ids@.take(i - 1).push(id));
                ids@.take(i - 1).lemma_push_to_set_commute(id);
            }
        }
        assert(ids@.take(ids.len() as int) =~= ids@);
        episodes_exist
    }
}

/// The user's own title, once set for an anime the store holds, is what
/// reading it gives back.
pub proof fn law_custom_filename_read_after_write(data: Map<i32, AnimeInfo>, media_id: i32, filename: String)
    requires
        data.contains_key(media_id),
    ensures
        ({
            let after = data.insert(
                media_id,
                AnimeInfo { title: Title { custom: Some(filename), ..data[media_id].title }, ..data[media_id] },
            );
            &&& after.contains_key(media_id)
            &&& after[media_id].title.custom == Some(filename)
        }),
{
}

} // verus!
