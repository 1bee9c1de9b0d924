//! The data exchanged with AniList: the shapes of its answers, the field
//! names turned to snake case, and the parts of requests that the program
//! decides.

use vstd::prelude::*;
use std::collections::HashMap;
use core::cmp::Ordering;
use crate::dates::{date_order, order_of_dates};
use crate::text::{contains_text, replaced, contains_str, replace_str};

verus! {

broadcast use vstd::std_specs::hash::group_hash_axioms;

#[derive(Debug, Clone)]
pub struct TrailerData {
    pub id: String,
    pub site: String,
}

#[derive(Debug, Clone, Default)]
pub struct Title {
    pub english: Option<String>,
    pub native: Option<String>,
    pub romaji: Option<String>,
    pub user_preferred: Option<String>,
}

#[derive(Debug, Clone, Default)]
pub struct CoverImage {
    pub large: String,
}

#[derive(Debug, Clone, Copy, Default, PartialEq, Eq, Structural)]
pub struct AnilistDate {
    pub year: Option<i32>,
    pub month: Option<i32>,
    pub day: Option<i32>,
}

impl AnilistDate {
    pub fn new() -> (r: AnilistDate)
        ensures
            r.year is None && r.month is None && r.day is None,
    {
        AnilistDate { year: None, month: None, day: None }
    }

    /// The order of two dates (see `dates::date_order`).
    pub fn cmp(&self, other: &Self) -> (r: Ordering)
        ensures
            r == date_order(self.year, self.month, self.day, other.year, other.month, other.day),
    {
        order_of_dates(self.year, self.month, self.day, other.year, other.month, other.day)
    }

    pub fn partial_cmp(&self, other: &Self) -> (r: Option<Ordering>)
        ensures
            r == Some(
                date_order(self.year, self.month, self.day, other.year, other.month, other.day),
            ),
    {
        Some(self.cmp(other))
    }
}

#[derive(Debug, Clone)]
pub struct Node {
    pub id: i32,
    pub title: Title,
    pub cover_image: CoverImage,
    pub media_type: String,
}

#[derive(Debug, Clone)]
pub struct Edge {
    pub relation_type: String,
    pub node: Node,
}

#[derive(Debug, Clone, Default)]
pub struct Relations {
    pub edges: Vec<Edge>,
}

#[derive(Debug, Clone)]
pub struct MediaRecommendation {
    pub id: i32,
    pub title: Title,
    pub cover_image: CoverImage,
}

#[derive(Debug, Clone)]
pub struct RecNode {
    pub rating: i32,
    pub media_recommendation: Option<MediaRecommendation>,
}

#[derive(Debug, Clone, Default)]
pub struct Recommendations {
    pub nodes: Vec<RecNode>,
}

#[derive(Debug, Clone, Default)]
pub struct Tag {
    pub name: String,
    pub is_general_spoiler: bool,
    pub is_media_spoiler: bool,
    pub description: String,
}

#[derive(Debug, Clone, Default)]
pub struct AnimeInfo {
    pub average_score: Option<i32>,
    pub cover_image: CoverImage,
    pub description: Option<String>,
    pub duration: Option<i32>,
    pub episodes: Option<i32>,
    pub format: Option<String>,
    pub genres: Vec<String>,
    pub id: i32,
    pub is_adult: bool,
    pub popularity: i32,
    pub season: Option<String>,
    pub season_year: Option<i32>,
    pub start_date: AnilistDate,
    pub title: Title,
    pub trailer: Option<TrailerData>,
    pub media_type: String,
    pub relations: Relations,
    pub recommendations: Option<Recommendations>,
    pub tags: Vec<Tag>,
    pub trending: i32,
    pub studios: Studio,
    pub next_airing_episode: Option<NextAiringEpisode>,
}

#[derive(Debug, Clone, Copy, Default, PartialEq, Eq, Structural)]
pub struct NextAiringEpisode {
    pub airing_at: i32,
    pub episode: i32,
}

#[derive(Debug, Clone, Default)]
pub struct Studio {
    pub nodes: Vec<NodeName>,
}

#[derive(Debug, Clone, Default)]
pub struct NodeName {
    pub name: String,
    pub is_animation_studio: bool,
}

#[derive(Debug)]
pub struct Media {
    pub media: AnimeInfo,
}

#[derive(Debug)]
pub struct Data {
    pub data: Media,
}

#[derive(Debug)]
pub struct TokenData {
    pub token_type: String,
    pub expires_in: i32,
    pub access_token: String,
    pub refresh_token: String,
}

impl TokenData {
    pub fn new() -> (r: TokenData)
        ensures
            r.token_type@ == Seq::<char>::empty(),
            r.expires_in == 0,
            r.access_token@ == Seq::<char>::empty(),
            r.refresh_token@ == Seq::<char>::empty(),
    {
        TokenData {
            token_type: String::new(),
            expires_in: 0,
            access_token: String::new(),
            refresh_token: String::new(),
        }
    }

    pub fn clear(&mut self)
        ensures
            final(self).token_type@ == Seq::<char>::empty(),
            final(self).expires_in == 0,
            final(self).access_token@ == Seq::<char>::empty(),
            final(self).refresh_token@ == Seq::<char>::empty(),
    {
        self.token_type = String::new();
        self.expires_in = 0;
        self.access_token = String::new();
        self.refresh_token = String::new();
    }
}

#[derive(Debug, Clone)]
pub struct UserSettings {
    pub username: String,
    pub title_language: String,
    pub show_spoilers: bool,
    pub show_adult: bool,
    pub folders: Vec<String>,
    pub update_delay: i32,
    pub score_format: String,
    pub highlight_color: String,
    pub current_tab: String,
    pub first_time_setup: bool,
    pub show_airing_time: Option<bool>,
    pub theme: Option<i32>,
}

/// The settings of a user who has set nothing yet.
pub open spec fn fresh_settings(s: UserSettings) -> bool {
    &&& s.username@ == Seq::<char>::empty()
    &&& s.title_language@ == Seq::<char>::empty()
    &&& !s.show_spoilers
    &&& !s.show_adult
    &&& s.folders@ == Seq::<String>::empty()
    &&& s.update_delay == 0
    &&& s.score_format@ == Seq::<char>::empty()
    &&& s.highlight_color@ == Seq::<char>::empty()
    &&& s.current_tab@ == Seq::<char>::empty()
    &&& s.first_time_setup
    &&& s.show_airing_time == Some(true)
    &&& s.theme == Some(0i32)
}

impl UserSettings {
    pub fn new() -> (r: UserSettings)
        ensures
            fresh_settings(r),
    {
        UserSettings {
            username: String::new(),
            title_language: String::new(),
            show_spoilers: false,
            show_adult: false,
            folders: Vec::new(),
            update_delay: 0,
            score_format: String::new(),
            highlight_color: String::new(),
            current_tab: String::new(),
            first_time_setup: true,
            show_airing_time: Some(true),
            theme: Some(0),
        }
    }

    pub fn clear(&mut self)
        ensures
            fresh_settings(*final(self)),
    {
        self.username = String::new();
        self.title_language = String::new();
        self.show_spoilers = false;
        self.show_adult = false;
        self.folders = Vec::new();
        self.update_delay = 0;
        self.score_format = String::new();
        self.highlight_color = String::new();
        self.current_tab = String::new();
        self.first_time_setup = true;
        self.show_airing_time = Some(true);
        self.theme = Some(0);
    }
}

/// How many renamings `snake_case_rule` lists.
pub const SNAKE_CASE_RULE_COUNT: usize = 18;

/// The AniList field names and their snake-case forms, renamed in this order.
pub open spec fn snake_case_rule(k: int) -> (Seq<char>, Seq<char>) {
    if k == 0 {
        ("\"Media\""@, "\"media\""@)
    } else if k == 1 {
        ("averageScore"@, "average_score"@)
    } else if k == 2 {
        ("coverImage"@, "cover_image"@)
    } else if k == 3 {
        ("isAdult"@, "is_adult"@)
    } else if k == 4 {
        ("seasonYear"@, "season_year"@)
    } else if k == 5 {
        ("type"@, "media_type"@)
    } else if k == 6 {
        ("startDate"@, "start_date"@)
    } else if k == 7 {
        ("userPreferred"@, "user_preferred"@)
    } else if k == 8 {
        ("relationType"@, "relation_type"@)
    } else if k == 9 {
        ("mediaRecommendation"@, "media_recommendation"@)
    } else if k == 10 {
        ("isGeneralSpoiler"@, "is_general_spoiler"@)
    } else if k == 11 {
        ("isMediaSpoiler"@, "is_media_spoiler"@)
    } else if k == 12 {
        ("nextAiringEpisode"@, "next_airing_episode"@)
    } else if k == 13 {
        ("airingAt"@, "airing_at"@)
    } else if k == 14 {
        ("mediaId"@, "media_id"@)
    } else if k == 15 {
        ("startedAt"@, "started_at"@)
    } else if k == 16 {
        ("completedAt"@, "completed_at"@)
    } else if k == 17 {
        ("isAnimationStudio"@, "is_animation_studio"@)
    } else {
        (Seq::empty(), Seq::empty())
    }
}

fn snake_case_rule_at(k: usize) -> (r: (&'static str, &'static str))
    requires
        k < SNAKE_CASE_RULE_COUNT,
    ensures
        (r.0@, r.1@) == snake_case_rule(k as int),
        r.0@.len() > 0,
{
    if k == 0 {
        proof {
            reveal_strlit("\"Media\"");
        }
        ("\"Media\"", "\"media\"")
    } else if k == 1 {
        proof {
            reveal_strlit("averageScore");
        }
        ("averageScore", "average_score")
    } else if k == 2 {
        proof {
            reveal_strlit("coverImage");
        }
        ("coverImage", "cover_image")
    } else if k == 3 {
        proof {
            reveal_strlit("isAdult");
        }
        ("isAdult", "is_adult")
    } else if k == 4 {
        proof {
            reveal_strlit("seasonYear");
        }
        ("seasonYear", "season_year")
    } else if k == 5 {
        proof {
            reveal_strlit("type");
        }
        ("type", "media_type")
    } else if k == 6 {
        proof {
            reveal_strlit("startDate");
        }
        ("startDate", "start_date")
    } else if k == 7 {
        proof {
            reveal_strlit("userPreferred");
        }
        ("userPreferred", "user_preferred")
    } else if k == 8 {
        proof {
            reveal_strlit("relationType");
        }
        ("relationType", "relation_type")
    } else if k == 9 {
        proof {
            reveal_strlit("mediaRecommendation");
        }
        ("mediaRecommendation", "media_recommendation")
    } else if k == 10 {
        proof {
            reveal_strlit("isGeneralSpoiler");
        }
        ("isGeneralSpoiler", "is_general_spoiler")
    } else if k == 11 {
        proof {
            reveal_strlit("isMediaSpoiler");
        }
        ("isMediaSpoiler", "is_media_spoiler")
    } else if k == 12 {
        proof {
            reveal_strlit("nextAiringEpisode");
        }
        ("nextAiringEpisode", "next_airing_episode")
    } else if k == 13 {
        proof {
            reveal_strlit("airingAt");
        }
        ("airingAt", "airing_at")
    } else if k == 14 {
        proof {
            reveal_strlit("mediaId");
        }
        ("mediaId", "media_id")
    } else if k == 15 {
        proof {
            reveal_strlit("startedAt");
        }
        ("startedAt", "started_at")
    } else if k == 16 {
        proof {
            reveal_strlit("completedAt");
        }
        ("completedAt", "completed_at")
    } else {
        proof {
            reveal_strlit("isAnimationStudio");
        }
        ("isAnimationStudio", "is_animation_studio")
    }
}

/// `text` after the first `k` renamings of `snake_case_rule`.
pub open spec fn snake_cased_upto(text: Seq<char>, k: int) -> Seq<char>
    decreases k,
{
    if k <= 0 {
        text
    } else {
        let rule = snake_case_rule(k - 1);
        replaced(snake_cased_upto(text, k - 1), rule.0, rule.1)
    }
}

/// An AniList answer with its field names in the snake case of the program's types.
pub fn anilist_to_snake_case(anilist_json: String) -> (r: String)
    ensures
        r@ == snake_cased_upto(anilist_json@, SNAKE_CASE_RULE_COUNT as int),
{
    let mut text = anilist_json;
    let mut k: usize = 0;
    while k < SNAKE_CASE_RULE_COUNT
        invariant
            0 <= k <= SNAKE_CASE_RULE_COUNT,
            text@ == snake_cased_upto(anilist_json@, k as int),
        decreases SNAKE_CASE_RULE_COUNT - k,
    {
        let (from, to) = snake_case_rule_at(k);
        text = replace_str(text.as_str(), from, to);
        k = k + 1;
    }
    text
}

/// `x / y` rounded up.
pub fn ceiling_div(x: usize, y: usize) -> (r: usize)
    requires
        y > 0,
        x + y - 1 <= usize::MAX,
    ensures
        r == (x + y - 1) / y as int,
{
    let down = x / y;
    let up = (x + (y - 1)) / y;
    assert(down <= up) by (nonlinear_arith)
        requires
            down as int == x as int / y as int,
            up as int == (x + y - 1) as int / y as int,
            y > 0,
            x <= x + y - 1;
    if down >= up {
        down
    } else {
        up
    }
}

/// `x / y` rounded up is the least number of groups of `y` that hold `x`.
pub proof fn law_ceiling_div(x: nat, y: nat)
    requires
        y > 0,
    ensures
        ((x + y - 1) / y as int) * y >= x,
        ((x + y - 1) / y as int) * y < x + y,
{
    let q = (x + y - 1) / y as int;
    let r = (x + y - 1) % y as int;
    assert(q * y + r == x + y - 1 && 0 <= r < y) by (nonlinear_arith)
        requires
            y > 0,
            q == (x + y - 1) / y as int,
            r == (x + y - 1) % y as int;
}

/// How many ids AniList answers for in one page.
pub const IDS_PER_PAGE: usize = 50;

/// The pages of at most `IDS_PER_PAGE` ids in which a list of ids is asked
/// for, in order.
pub fn id_pages(ids: &Vec<i32>) -> (r: Vec<Vec<i32>>)
    requires
        ids@.len() + IDS_PER_PAGE - 1 <= usize::MAX,
    ensures
        r@.len() == (ids@.len() + IDS_PER_PAGE - 1) / IDS_PER_PAGE as int,
        forall|i: int| 0 <= i < r@.len() ==> #[trigger] r@[i]@ == page_of(ids@, i),
{
    let pages = ceiling_div(ids.len(), IDS_PER_PAGE);
    let mut out: Vec<Vec<i32>> = Vec::new();
    let mut i: usize = 0;
    while i < pages
        invariant
            0 <= i <= pages,
            pages == (ids@.len() + IDS_PER_PAGE - 1) / IDS_PER_PAGE as int,
            out@.len() == i,
            forall|p: int| 0 <= p < i ==> #[trigger] out@[p]@ == page_of(ids@, p),
        decreases pages - i,
    {
        assert(i * 50 < ids.len()) by (nonlinear_arith)
            requires
                i < pages,
                pages as int == (ids@.len() + 49) / 50;
        let start = i * 50;
        let end = if ids.len() - start < 50 { ids.len() } else { start + 50 };
        let mut page: Vec<i32> = Vec::new();
        let mut k = start;
        while k < end
            invariant
                start <= k <= end,
                end <= ids.len(),
                page@ == ids@.subrange(start as int, k as int),
            decreases end - k,
        {
            page.push(ids[k]);
            k = k + 1;
            assert(page@ =~= ids@.subrange(start as int, k as int));
        }
        out.push(page);
        assert((i + 1) * 50 == start + 50);
        i = i + 1;
    }
    out
}

/// The ids of the pages, one page after the other.
pub open spec fn joined(pages: Seq<Seq<i32>>) -> Seq<i32>
    decreases pages.len(),
{
    if pages.len() == 0 {
        Seq::empty()
    } else {
        joined(pages.drop_last()) + pages.last()
    }
}

/// The page `i` of the ids.
pub open spec fn page_of(ids: Seq<i32>, i: int) -> Seq<i32> {
    ids.subrange(
        i * IDS_PER_PAGE,
        if (i + 1) * IDS_PER_PAGE > ids.len() {
            ids.len() as int
        } else {
            (i + 1) * IDS_PER_PAGE
        },
    )
}

/// The pages asked for give back every id once, in order: the pages joined
/// are the ids.
pub proof fn law_pages_rejoin(ids: Seq<i32>, pages: Seq<Seq<i32>>)
    requires
        pages.len() == (ids.len() + IDS_PER_PAGE - 1) / IDS_PER_PAGE as int,
        forall|i: int| 0 <= i < pages.len() ==> #[trigger] pages[i] == page_of(ids, i),
    ensures
        joined(pages) == ids,
{
    lemma_pages_prefix(ids, pages, pages.len() as int);
    let n = pages.len() as int;
    assert(n * 50 >= ids.len() && (n == 0 || (n - 1) * 50 < ids.len())) by (nonlinear_arith)
        requires
            n == (ids.len() + 49) / 50,
            ids.len() >= 0;
    assert(ids.take(if n * 50 > ids.len() { ids.len() as int } else { n * 50 }) =~= ids);
    assert(pages.take(n) =~= pages);
}

/// The first `k` pages joined are the ids up to the end of page `k`.
proof fn lemma_pages_prefix(ids: Seq<i32>, pages: Seq<Seq<i32>>, k: int)
    requires
        pages.len() == (ids.len() + IDS_PER_PAGE - 1) / IDS_PER_PAGE as int,
        forall|i: int| 0 <= i < pages.len() ==> #[trigger] pages[i] == page_of(ids, i),
        0 <= k <= pages.len(),
    ensures
        joined(pages.take(k)) == ids.take(if k * 50 > ids.len() { ids.len() as int } else { k * 50 }),
    decreases k,
{
    if k == 0 {
        assert(pages.take(0) =~= Seq::<Seq<i32>>::empty());
        assert(ids.take(0) =~= Seq::<i32>::empty());
    } else {
        lemma_pages_prefix(ids, pages, k - 1);
        assert(pages.take(k).drop_last() =~= pages.take(k - 1));
        assert(pages.take(k).last() == pages[k - 1]);
        let n = pages.len() as int;
        assert((k - 1) * 50 < ids.len()) by (nonlinear_arith)
            requires
                n == (ids.len() + 49) / 50,
                1 <= k <= n;
        assert(ids.take((k - 1) * 50) + page_of(ids, k - 1) =~= ids.take(
            if k * 50 > ids.len() { ids.len() as int } else { k * 50 },
        ));
    }
}

/// The statuses asked for when a list is fetched: the list's own, and for the
/// watching list also the rewatching entries, which the program shows there.
pub fn list_statuses(status: &str) -> (r: Vec<String>)
    ensures
        status@ == "CURRENT"@ ==> r@.map_values(|s: String| s@) == seq![status@, "REPEATING"@],
        status@ != "CURRENT"@ ==> r@.map_values(|s: String| s@) == seq![status@],
{
    let mut out: Vec<String> = Vec::new();
    out.push(status.to_string());
    if crate::text::str_eq(status, "CURRENT") {
        out.push("REPEATING".to_string());
        assert(out@.map_values(|s: String| s@) =~= seq![status@, "REPEATING"@]);
    } else {
        assert(out@.map_values(|s: String| s@) =~= seq![status@]);
    }
    out
}

/// Keeps the studios that animated the anime, in order.
pub fn keep_animation_studios(studio: &mut Studio)
    ensures
        final(studio).nodes@ == old(studio).nodes@.filter(|n: NodeName| n.is_animation_studio),
{
    let mut kept: Vec<NodeName> = Vec::new();
    let mut i: usize = 0;
    while i < studio.nodes.len()
        invariant
            0 <= i <= studio.nodes.len(),
            *studio == *old(studio),
            kept@ == studio.nodes@.take(i as int).filter(|n: NodeName| n.is_animation_studio),
        decreases studio.nodes.len() - i,
    {
        let node = &studio.nodes[i];
        proof {
            assert(studio.nodes@.take(i + 1) =~= studio.nodes@.take(i as int).push(*node));
            studio.nodes@.take(i as int).lemma_filter_push(*node, |n: NodeName| n.is_animation_studio);
        }
        if node.is_animation_studio {
            kept.push(NodeName { name: node.name.clone(), is_animation_studio: node.is_animation_studio });
        }
        i = i + 1;
    }
    assert(studio.nodes@.take(studio.nodes.len() as int) =~= studio.nodes@);
    studio.nodes = kept;
}

/// An answer that reports an error names the field `"error"`.
pub fn is_error_response(response: &str) -> (r: bool)
    ensures
        r == contains_text(response@, "\"error\""@),
{
    contains_str(response, "\"error\"")
}

/// The token kept when the exchange of a code fails: the request as its type
/// and AniList's answer as its access token, for the user to see.
pub fn error_token(request: String, response: String) -> (r: TokenData)
    ensures
        r.token_type == request,
        r.expires_in == 0,
        r.access_token == response,
        r.refresh_token@ == Seq::<char>::empty(),
{
    TokenData { token_type: request, expires_in: 0, access_token: response, refresh_token: String::new() }
}

/// The variables a browse request names besides the page: each filter that
/// was given, in this order.
pub fn browse_filters(
    year: String,
    season: String,
    genre: String,
    format: String,
    search: String,
    order: String,
) -> (r: Vec<(&'static str, String)>)
    ensures
        r@.map_values(|p: (&'static str, String)| (p.0@, p.1@)) == seq![
            ("seasonYear"@, year@),
            ("season"@, season@),
            ("genres"@, genre@),
            ("format"@, format@),
            ("sort"@, order@),
            ("search"@, search@),
        ].filter(|p: (Seq<char>, Seq<char>)| p.1.len() > 0),
{
    let ghost all = seq![
        ("seasonYear"@, year@),
        ("season"@, season@),
        ("genres"@, genre@),
        ("format"@, format@),
        ("sort"@, order@),
        ("search"@, search@),
    ];
    let mut out: Vec<(&'static str, String)> = Vec::new();
    let mut candidates: Vec<(&'static str, String)> = Vec::new();
    candidates.push(("seasonYear", year));
    candidates.push(("season", season));
    candidates.push(("genres", genre));
    candidates.push(("format", format));
    candidates.push(("sort", order));
    candidates.push(("search", search));
    assert(candidates@.map_values(|p: (&'static str, String)| (p.0@, p.1@)) =~= all);
    let mut i: usize = 0;
    while candidates.len() > 0
        invariant
            i + candidates@.len() == 6,
            all.len() == 6,
            candidates@.map_values(|p: (&'static str, String)| (p.0@, p.1@)) == all.skip(i as int),
            out@.map_values(|p: (&'static str, String)| (p.0@, p.1@)) == all.take(i as int).filter(
                |p: (Seq<char>, Seq<char>)| p.1.len() > 0,
            ),
        decreases candidates.len(),
    {
        let ghost before = candidates@;
        let (name, value) = candidates.remove(0);
        proof {
            assert(before.map_values(|p: (&'static str, String)| (p.0@, p.1@))[0] == (name@, value@));
            assert(all.skip(i as int)[0] == all[i as int]);
            assert(all[i as int] == (name@, value@));
            assert(all.take(i + 1) =~= all.take(i as int).push(all[i as int]));
            all.take(i as int).lemma_filter_push(all[i as int], |p: (Seq<char>, Seq<char>)| p.1.len() > 0);
            assert(candidates@ =~= before.skip(1));
            assert(before.skip(1).map_values(|p: (&'static str, String)| (p.0@, p.1@)) =~= before.map_values(
                |p: (&'static str, String)| (p.0@, p.1@),
            ).skip(1));
            assert(all.skip(i as int).skip(1) =~= all.skip(i + 1));
            assert(candidates@.map_values(|p: (&'static str, String)| (p.0@, p.1@)) =~= all.skip(i + 1));
        }
        let keep = crate::text::chars_of(value.as_str()).len() > 0;
        if keep {
            let ghost prev = out@;
            out.push((name, value));
            assert(out@.map_values(|p: (&'static str, String)| (p.0@, p.1@)) =~= prev.map_values(
                |p: (&'static str, String)| (p.0@, p.1@),
            ).push((name@, value@)));
        }
        i = i + 1;
    }
    assert(all.take(6) =~= all);
    out
}

/// Updates the next airing episode of the anime held, from AniList's answer:
/// for each id answered, in order, the new next episode or none.
pub fn apply_airing_times(anime_data: &mut HashMap<i32, AnimeInfo>, updates: Vec<(i32, Option<NextAiringEpisode>)>)
    ensures
        final(anime_data)@ == airing_applied(old(anime_data)@, updates@),
{
    let mut i: usize = 0;
    while i < updates.len()
        invariant
            0 <= i <= updates.len(),
            anime_data@ == airing_applied(old(anime_data)@, updates@.take(i as int)),
        decreases updates.len() - i,
    {
        let (id, next) = updates[i];
        assert(updates@.take(i + 1).drop_last() =~= updates@.take(i as int));
        match anime_data.remove(&id) {
            Some(anime) => {
                let mut changed = anime;
                changed.next_airing_episode = next;
                anime_data.insert(id, changed);
            },
            None => {},
        }
        i = i + 1;
    }
    assert(updates@.take(updates.len() as int) =~= updates@);
}

/// The anime held after the airing updates, applied in order; an update of
/// an anime not held changes nothing.
pub open spec fn airing_applied(data: Map<i32, AnimeInfo>, updates: Seq<(i32, Option<NextAiringEpisode>)>) -> Map<
    i32,
    AnimeInfo,
>
    decreases updates.len(),
{
    if updates.len() == 0 {
        data
    } else {
        let before = airing_applied(data, updates.drop_last());
        let (id, next) = updates.last();
        if before.contains_key(id) {
            before.insert(id, AnimeInfo { next_airing_episode: next, ..before[id] })
        } else {
            before
        }
    }
}

/// Adds an anime of a fetched list to the list and to the anime held, unless
/// the list has it already.
pub fn add_list_entry(list: &mut Vec<i32>, anime_data: &mut HashMap<i32, AnimeInfo>, media: AnimeInfo)
    ensures
        old(list)@.contains(media.id) ==> final(list)@ == old(list)@,
        old(list)@.contains(media.id) ==> final(anime_data)@ == old(anime_data)@,
        !old(list)@.contains(media.id) ==> final(list)@ == old(list)@.push(media.id),
        !old(list)@.contains(media.id) ==> final(anime_data)@ == old(anime_data)@.insert(media.id, media),
{
    let id = media.id;
    let mut i: usize = 0;
    while i < list.len()
        invariant
            0 <= i <= list.len(),
            *list == *old(list),
            *anime_data == *old(anime_data),
            id == media.id,
            forall|k: int| 0 <= k < i ==> list@[k] != id,
        decreases list.len() - i,
    {
        if list[i] == id {
            assert(list@.contains(id)) by { assert(list@[i as int] == id); }
            return;
        }
        i = i + 1;
    }
    list.push(id);
    anime_data.insert(id, media);
}

/// The mutation that saves a list entry on AniList.
pub const ANIME_UPDATE_ENTRY: &'static str = "
mutation ($id: Int, $media_id: Int, $status: MediaListStatus, $score: Float, $progress: Int, $start_year: Int, $start_month: Int, $start_day: Int, $end_year: Int, $end_month: Int, $end_day: Int) { 
    SaveMediaListEntry (id: $id, mediaId: $media_id, status: $status, score: $score, progress: $progress, startedAt: {year: $start_year, month: $start_month, day: $start_day}, completedAt: {year: $end_year, month: $end_month, day: $end_day}) {
        id mediaId status score progress startedAt { year month day } completedAt { year month day }
    }
}";

pub const START_PARAMETERS: &'static str = ", $start_year: Int, $start_month: Int, $start_day: Int";

pub const START_ARGUMENT: &'static str = ", startedAt: {year: $start_year, month: $start_month, day: $start_day}";

pub const END_PARAMETERS: &'static str = ", $end_year: Int, $end_month: Int, $end_day: Int";

pub const END_ARGUMENT: &'static str = ", completedAt: {year: $end_year, month: $end_month, day: $end_day}";

/// The mutation for a list entry: the start and completion dates are left
/// out where the entry has none.
pub open spec fn entry_mutation_text(has_start: bool, has_end: bool) -> Seq<char> {
    let m = if has_start {
        ANIME_UPDATE_ENTRY@
    } else {
        replaced(replaced(ANIME_UPDATE_ENTRY@, START_PARAMETERS@, ""@), START_ARGUMENT@, ""@)
    };
    if has_end {
        m
    } else {
        replaced(replaced(m, END_PARAMETERS@, ""@), END_ARGUMENT@, ""@)
    }
}

pub fn entry_mutation(started_at: &Option<AnilistDate>, completed_at: &Option<AnilistDate>) -> (r: String)
    ensures
        r@ == entry_mutation_text(started_at is Some, completed_at is Some),
{
    proof {
        reveal_strlit("");
    }
    let mut mutation = ANIME_UPDATE_ENTRY.to_string();
    if started_at.is_none() {
        mutation = replace_str(mutation.as_str(), START_PARAMETERS, "");
        mutation = replace_str(mutation.as_str(), START_ARGUMENT, "");
    }
    if completed_at.is_none() {
        mutation = replace_str(mutation.as_str(), END_PARAMETERS, "");
        mutation = replace_str(mutation.as_str(), END_ARGUMENT, "");
    }
    mutation
}

/// The score format AniList names, without the quotes of its JSON form.
pub fn score_format_text(raw: &str) -> (r: String)
    ensures
        r@ == replaced(raw@, "\""@, ""@),
{
    proof {
        reveal_strlit("");
    }
    replace_str(raw, "\"", "")
}

} // verus!
