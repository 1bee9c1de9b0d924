use std::collections::{HashMap, HashSet};

use gekijou::anime_data::{
    AnimeData, AnimeInfo, AnimePath, CoverImage, MediaRecommendation, RecNode, Recommendations, Similarity, Title,
};
use gekijou::recognition::{identify_number, replace_special_vowels, similarity_of};
use gekijou::recommend::rating_scale_of;
use gekijou::rss_parser::{entries_of, identify_batch, rss_search_url, XmlItem};
use gekijou::scanning::is_video_extension;
use gekijou::sorting::{sort_mode, SortMode};
use gekijou::ui_state::{RefreshUI, ScanData};
use gekijou::user_data::{entry_for_list, Date, UserData, UserInfo};
use gekijou::watching::{combine_lists, reversed, scan_due, strip_player, watched_titles, Watching};

fn anime(id: i32, romaji: &str) -> AnimeInfo {
    AnimeInfo {
        id,
        title: Title { romaji: Some(romaji.to_string()), ..Default::default() },
        ..Default::default()
    }
}

fn recommending(id: i32, recs: &[(i32, i32)]) -> AnimeInfo {
    let mut a = anime(id, "x");
    a.recommendations = Some(Recommendations {
        nodes: recs
            .iter()
            .map(|(rating, target)| RecNode {
                rating: *rating,
                media_recommendation: Some(MediaRecommendation {
                    id: *target,
                    title: Title::default(),
                    cover_image: CoverImage::default(),
                    media_type: String::from("ANIME"),
                }),
            })
            .collect(),
    });
    a
}

#[test]
fn identify_number_finds_dash_episode() {
    let (text, episode, length) = identify_number("[Group] Show - 05 ").unwrap();
    assert_eq!(text, " - 05");
    assert_eq!(episode, 5);
    assert_eq!(length, 1);
}

#[test]
fn identify_number_finds_a_range() {
    let (_, episode, length) = identify_number("Show 01-12 ").unwrap();
    assert_eq!(episode, 1);
    assert_eq!(length, 12);
}

#[test]
fn special_vowels_become_plain() {
    assert_eq!(replace_special_vowels("pokémon"), "pokemon");
    assert_eq!(replace_special_vowels("æon"), "aeon");
}

#[test]
fn similarity_is_one_for_equal_texts() {
    let s = similarity_of("spy x family", "spy x family");
    assert_eq!(s.numerator, s.denominator);
    let t = similarity_of("abcd", "abce");
    assert_eq!((t.numerator, t.denominator), (3, 4));
    let e = similarity_of("", "");
    assert_eq!((e.numerator, e.denominator), (1, 1));
}

#[test]
fn similarity_threshold_is_four_fifths() {
    assert!(Similarity { numerator: 9, denominator: 10 }.above_threshold());
    assert!(!Similarity { numerator: 8, denominator: 10 }.above_threshold());
    assert!(Similarity { numerator: 3, denominator: 4 }.below_threshold());
    assert!(Similarity { numerator: 2, denominator: 3 }.exceeds(&Similarity { numerator: 3, denominator: 5 }));
}

#[test]
fn identify_anime_recognises_a_release() {
    let mut data = AnimeData::new();
    let mut show = anime(1, "Spy x Family");
    show.episodes = Some(12);
    data.store_fetched(show);
    data.store_fetched(anime(2, "Another Show"));
    let info = data
        .identify_anime(String::from("[SubsPlease] Spy x Family - 05 (1080p) [ABCDEF12].mkv"), None)
        .unwrap();
    assert_eq!(info.media_id, 1);
    assert_eq!(info.episode, 5);
    assert_eq!(info.episode_length, 1);
    assert_eq!(info.resolution, 1080);
    assert_eq!(info.sub_group, "SubsPlease");
    assert_eq!(info.file_title, "Spy x Family");
    assert_eq!(info.similarity.numerator, info.similarity.denominator);
}

#[test]
fn identify_anime_needs_a_video_file() {
    let data = AnimeData::new();
    assert!(data.identify_anime(String::from("notes.txt"), None).is_none());
}

#[test]
fn rating_scales_follow_the_score_format() {
    assert_eq!(rating_scale_of(&Some(String::from("POINT_100"))), 500);
    assert_eq!(rating_scale_of(&Some(String::from("POINT_10"))), 50);
    assert_eq!(rating_scale_of(&Some(String::from("POINT_10_DECIMAL"))), 50);
    assert_eq!(rating_scale_of(&Some(String::from("POINT_5"))), 25);
    assert_eq!(rating_scale_of(&Some(String::from("POINT_3"))), 10);
    assert_eq!(rating_scale_of(&None), 1);
}

#[test]
fn score_modifiers_match_the_formats() {
    let data = AnimeData::new();
    // 8 of 10 is 1.6, that is 80 / 50
    assert_eq!(data.score_to_rating_modifier(80, &Some(String::from("POINT_10"))), 80);
    // 3 of 3 is 2, that is 20 / 10
    assert_eq!(data.score_to_rating_modifier(30, &Some(String::from("POINT_3"))), 20);
    // no score is 1, the whole scale
    assert_eq!(data.score_to_rating_modifier(0, &Some(String::from("POINT_100"))), 500);
    assert_eq!(data.score_to_rating_modifier(70, &None), 1);
}

#[test]
fn tally_adds_ratings_times_modifiers() {
    let mut data = AnimeData::new();
    data.store_fetched(recommending(1, &[(10, 3), (5, 4)]));
    data.store_fetched(recommending(2, &[(7, 3), (9, 1)]));
    let mut scores = HashMap::new();
    scores.insert(1, 80);
    scores.insert(2, 0);
    let mut user = HashSet::new();
    user.insert(1);
    user.insert(2);
    let tally = data.tally_recommendations(&scores, &user, &Some(String::from("POINT_10")));
    let found: Vec<(i32, i128)> = tally.iter().map(|t| (t.id, t.rating)).collect();
    // anime 3: 10 * 80 + 7 * 50; anime 4: 5 * 80; anime 1 is the user's
    assert_eq!(found, vec![(3, 1150), (4, 400)]);
}

#[test]
fn recommendations_keep_the_best_first() {
    let mut data = AnimeData::new();
    data.store_fetched(recommending(1, &[(10, 3), (5, 4), (1, 5)]));
    let mut scores = HashMap::new();
    scores.insert(1, 0);
    let ids = data.recommendations(
        scores,
        HashSet::new(),
        None,
        String::from("user_recommended"),
        String::new(),
        0,
        0,
        String::new(),
    );
    assert_eq!(ids, vec![3, 4, 5]);
}

#[test]
fn recommendations_filter_by_year() {
    let mut data = AnimeData::new();
    data.store_fetched(recommending(1, &[(10, 3), (5, 4)]));
    let mut three = anime(3, "three");
    three.season_year = Some(2005);
    let mut four = anime(4, "four");
    four.season_year = Some(2015);
    data.store_fetched(three);
    data.store_fetched(four);
    let mut scores = HashMap::new();
    scores.insert(1, 0);
    let ids = data.recommendations(
        scores,
        HashSet::new(),
        None,
        String::from("user_recommended"),
        String::new(),
        2010,
        0,
        String::new(),
    );
    assert_eq!(ids, vec![4]);
}

#[test]
fn user_data_moves_entries_between_lists() {
    let mut user = UserData::new();
    user.user_lists.push((String::from("CURRENT"), vec![]));
    user.user_lists.push((String::from("COMPLETED"), vec![]));
    let mut entry = entry_for_list(7, String::from("CURRENT"));
    entry.started_at = Some(Date::new());
    assert!(user.set_user_data(&mut entry, Some(12)).unwrap().is_none());
    assert_eq!(user.get_list(&String::from("CURRENT")).unwrap(), vec![7]);
    let mut done = user.get_user_data(7).unwrap();
    done.status = String::from("COMPLETED");
    let previous = user.set_user_data(&mut done, Some(12)).unwrap().unwrap();
    assert_eq!(previous.status, "CURRENT");
    assert_eq!(user.get_list(&String::from("CURRENT")).unwrap(), Vec::<i32>::new());
    assert_eq!(user.get_list(&String::from("COMPLETED")).unwrap(), vec![7]);
    // a completed entry without a date gets today's
    assert!(user.get_user_data(7).unwrap().completed_at.unwrap().year.is_some());
}

#[test]
fn user_data_refuses_unknown_statuses() {
    let mut user = UserData::new();
    let mut entry = entry_for_list(7, String::from("WATCHING"));
    assert!(matches!(user.set_user_data(&mut entry, None), Err("invalid status")));
    assert!(user.get_user_data(7).is_err());
    assert_eq!(user.get_list(&String::from("REPEATING")), Err("invalid list"));
}

#[test]
fn rewatching_stays_in_the_watching_list() {
    let mut user = UserData::new();
    user.user_lists.push((String::from("CURRENT"), vec![]));
    let mut entry = entry_for_list(3, String::from("REPEATING"));
    user.set_user_data(&mut entry, None).unwrap();
    assert_eq!(user.get_list(&String::from("CURRENT")).unwrap(), vec![3]);
    let mut back = user.get_user_data(3).unwrap();
    back.status = String::from("CURRENT");
    user.set_user_data(&mut back, None).unwrap();
    assert_eq!(user.get_list(&String::from("CURRENT")).unwrap(), vec![3]);
}

#[test]
fn increment_episode_stops_at_the_count() {
    let mut user = UserData::new();
    user.max_episodes.insert(5, 2);
    let mut entry = entry_for_list(5, String::from("CURRENT"));
    entry.progress = 1;
    entry.started_at = Some(Date::new());
    user.set_user_data(&mut entry, Some(2)).unwrap();
    assert_eq!(user.increment_episode(5), Ok(true));
    assert_eq!(user.get_user_data(5).unwrap().progress, 2);
    assert_eq!(user.increment_episode(5), Ok(true));
    assert_eq!(user.get_user_data(5).unwrap().progress, 2);
}

#[test]
fn sort_modes_are_named_by_the_settings() {
    assert_eq!(sort_mode("Alphabetical_romaji"), Some(SortMode::AlphabeticalRomaji));
    assert_eq!(sort_mode("Score"), Some(SortMode::Score));
    assert_eq!(sort_mode("Nonsense"), None);
}

#[test]
fn sort_list_by_romaji_and_popularity() {
    let data = AnimeData::new();
    let mut list: Vec<(AnimeInfo, UserInfo)> = vec![
        (anime(1, "Charlie"), UserInfo::new()),
        (anime(2, "alpha"), UserInfo::new()),
        (anime(3, "Bravo"), UserInfo::new()),
    ];
    data.sort_list(&mut list, Some(String::from("Alphabetical_romaji")));
    let ids: Vec<i32> = list.iter().map(|e| e.0.id).collect();
    assert_eq!(ids, vec![2, 3, 1]);
    list[0].0.popularity = 50;
    list[1].0.popularity = 10;
    list[2].0.popularity = 30;
    data.sort_list(&mut list, Some(String::from("Popularity")));
    let ids: Vec<i32> = list.iter().map(|e| e.0.id).collect();
    assert_eq!(ids, vec![3, 1, 2]);
    data.sort_list(&mut list, None);
    let ids: Vec<i32> = list.iter().map(|e| e.0.id).collect();
    assert_eq!(ids, vec![3, 1, 2]);
}

#[test]
fn arrange_list_reverses_when_descending() {
    let data = AnimeData::new();
    let mut a = anime(1, "a");
    a.trending = 1;
    let mut b = anime(2, "b");
    b.trending = 2;
    let out = data.arrange_list(vec![a, b], vec![UserInfo::new(), UserInfo::new()], String::from("Trending"), false);
    let ids: Vec<i32> = out.iter().map(|e| e.0.id).collect();
    assert_eq!(ids, vec![2, 1]);
}

#[test]
fn combine_and_reverse() {
    let pairs = combine_lists(vec![anime(1, "a")], vec![UserInfo::new(), UserInfo::new()]);
    assert_eq!(pairs.len(), 1);
    assert_eq!(reversed(vec![1, 2, 3]), vec![3, 2, 1]);
}

#[test]
fn custom_filename_round_trip() {
    let mut data = AnimeData::new();
    assert_eq!(data.set_custom_filename(4, String::from("x")), Err("Anime does not exist"));
    data.store_fetched(anime(4, "Four"));
    assert_eq!(data.set_custom_filename(4, String::from("my title")), Ok(()));
    assert_eq!(data.get_custom_filename(4), Some(String::from("my title")));
    assert_eq!(data.get_custom_filename(5), None);
}

#[test]
fn scanning_places_the_most_alike_file() {
    let mut data = AnimeData::new();
    data.store_fetched(anime(1, "Spy x Family"));
    let known = HashSet::new();
    assert!(!data.scan_hashed_file(String::from("D:\\a\\Spy x Family - NCOP1 .mkv"), 1, false, None, &known));
    assert!(data.scan_hashed_file(String::from("D:\\a\\Spy x Family - 03.mkv"), 2, false, None, &known));
    assert_eq!(data.episode_path(1, 3), Some(String::from("D:\\a\\Spy x Family - 03.mkv")));
    assert_eq!(data.get_existing_files(1), vec![3]);
    assert!(data.known_files.contains(&2));
    // a file seen in an earlier scan is passed over when skipping
    let mut seen = HashSet::new();
    seen.insert(9);
    assert!(!data.scan_hashed_file(String::from("D:\\b\\Spy x Family - 04.mkv"), 9, true, None, &seen));
    assert_eq!(data.episode_path(1, 4), None);
}

#[test]
fn missing_files_are_forgotten() {
    let mut data = AnimeData::new();
    let mut episodes = HashMap::new();
    episodes.insert(1, AnimePath { path: String::from("a.mkv"), similarity: Similarity { numerator: 1, denominator: 1 } });
    episodes.insert(2, AnimePath { path: String::from("b.mkv"), similarity: Similarity { numerator: 1, denominator: 1 } });
    data.anime_path.insert(10, episodes);
    let mut lone = HashMap::new();
    lone.insert(1, AnimePath { path: String::from("c.mkv"), similarity: Similarity { numerator: 1, denominator: 1 } });
    data.anime_path.insert(11, lone);
    data.remove_missing_files(&vec![String::from("b.mkv"), String::from("c.mkv")]);
    assert_eq!(data.get_existing_files(10), vec![1]);
    assert!(!data.anime_path.contains_key(&11));
    let mut paths = data.all_episode_paths();
    paths.sort();
    assert_eq!(paths, vec![String::from("a.mkv")]);
}

#[test]
fn video_extensions() {
    assert!(is_video_extension(&Some(String::from("mkv"))));
    assert!(is_video_extension(&Some(String::from("avi"))));
    assert!(!is_video_extension(&Some(String::from("txt"))));
    assert!(!is_video_extension(&None));
}

#[test]
fn feed_events_become_listings() {
    let items = vec![
        XmlItem::Start(String::from("item")),
        XmlItem::Start(String::from("title")),
        XmlItem::Text(String::from("[Grp] Show - 01 [1080p].mkv")),
        XmlItem::End(String::from("title")),
        XmlItem::Start(String::from("downloads")),
        XmlItem::Text(String::from("123")),
        XmlItem::End(String::from("downloads")),
        XmlItem::Start(String::from("size")),
        XmlItem::Text(String::from("1.4 GiB")),
        XmlItem::End(String::from("size")),
        XmlItem::End(String::from("item")),
        XmlItem::Other,
    ];
    let entries = entries_of(items).unwrap();
    assert_eq!(entries.len(), 1);
    assert_eq!(entries[0].title, "[Grp] Show - 01 [1080p].mkv");
    assert_eq!(entries[0].downloads, 123);
    assert_eq!(entries[0].size_string, "1.4 GiB");
}

#[test]
fn feed_with_a_bad_download_count_is_refused() {
    let items = vec![
        XmlItem::Start(String::from("downloads")),
        XmlItem::Text(String::from("many")),
    ];
    assert!(entries_of(items).is_none());
}

#[test]
fn search_url_uses_the_romaji_title() {
    assert_eq!(
        rss_search_url(&anime(1, "Spy x Family")),
        Some(String::from("https://nyaa.si/?page=rss&q=Spy+x+Family&c=1_2&f=0"))
    );
    assert_eq!(rss_search_url(&AnimeInfo::default()), None);
}

#[test]
fn batches_are_told_apart() {
    assert!(identify_batch(&String::from("[G] Show (Batch)"), 1, 10));
    assert!(identify_batch(&String::from("[G] Show 01 ~ 12"), 1, 10));
    assert!(!identify_batch(&String::from("[G] Show - 05"), 5, 10));
    assert!(identify_batch(&String::from("[G] Show Season 2"), 3, 10));
    assert!(identify_batch(&String::from("[G] Show"), 0, 10));
    assert!(identify_batch(&String::from("[G] Show"), 2, 4 * 1024 * 1024));
}

#[test]
fn player_names_are_stripped_from_titles() {
    let titles = vec![String::from("Show - 01.mkv - VLC media player"), String::from("Notes.txt - Editor")];
    let videos = watched_titles(titles);
    assert_eq!(videos, vec![String::from("Show - 01.mkv - VLC media player")]);
    assert_eq!(strip_player(&videos[0]), "Show - 01.mkv");
}

#[test]
fn watching_follows_the_next_episode() {
    let mut w = Watching::new();
    w.observe(1, 4, 1, String::from("show"), 3, 100);
    assert_eq!(w.len(), 1);
    // not the next episode: nothing starts
    w.observe(2, 9, 1, String::from("other"), 3, 100);
    assert_eq!(w.len(), 1);
    w.reset_monitoring();
    w.observe(1, 4, 1, String::from("show"), 3, 150);
    assert!(w.due_updates(200, 300).is_empty());
    assert_eq!(w.due_updates(400, 300), vec![(1, 1)]);
    w.drop_unmonitored();
    assert_eq!(w.len(), 0);
}

#[test]
fn scans_run_hourly_and_after_startup() {
    assert!(!scan_due(10, false));
    assert!(scan_due(30, false));
    assert!(!scan_due(30, true));
    assert!(scan_due(3601, true));
}

#[test]
fn refresh_flags_are_taken_once() {
    let mut ui = RefreshUI::default();
    ui.anime_list = true;
    ui.canvas = true;
    ui.errors.push(String::from("no internet"));
    let shown = ui.take_for_display(true);
    assert!(shown.anime_list && shown.canvas && shown.tracking_progress);
    assert_eq!(shown.errors, vec![String::from("no internet")]);
    assert!(!ui.anime_list && !ui.canvas);
    ui.scan_data = ScanData { current_folder: 2, total_folders: 3, completed_chunks: 1, total_chunks: 9 };
    ui.clear();
    assert!(ui.errors.is_empty() && ui.loading_dialog.is_none());
    assert_eq!(ui.scan_data.total_folders, 0);
}

fn tv(id: i32, episodes: i32, sequel: Option<i32>) -> AnimeInfo {
    let mut a = anime(id, "season");
    a.format = Some(String::from("TV"));
    a.episodes = Some(episodes);
    if let Some(next) = sequel {
        a.relations.edges.push(gekijou::anime_data::Edge {
            relation_type: String::from("SEQUEL"),
            node: gekijou::anime_data::Node {
                id: next,
                title: Title::default(),
                cover_image: CoverImage::default(),
                media_type: String::from("ANIME"),
            },
        });
    }
    a
}

#[test]
fn episodes_past_a_season_move_to_its_sequel() {
    let mut data = AnimeData::new();
    data.store_fetched(tv(1, 12, Some(2)));
    data.store_fetched(tv(2, 12, None));
    assert_eq!(data.replace_with_sequel(1, 14), Some((2, 2)));
    assert_eq!(data.replace_with_sequel(1, 5), Some((1, 5)));
    assert_eq!(data.replace_with_sequel(9, 40), Some((9, 40)));
}

#[test]
fn single_episode_anime_are_episode_one() {
    let mut data = AnimeData::new();
    let mut movie = anime(3, "movie");
    movie.episodes = Some(1);
    data.store_fetched(movie);
    assert_eq!(data.episode_fix(3, 2019, 1), (1, 1));
    assert_eq!(data.episode_fix(4, 7, 1), (7, 1));
}

#[test]
fn sorting_keeps_equal_entries_in_order() {
    let data = AnimeData::new();
    let mut list: Vec<(AnimeInfo, UserInfo)> = vec![
        (anime(1, "a"), UserInfo::new()),
        (anime(2, "b"), UserInfo::new()),
        (anime(3, "c"), UserInfo::new()),
    ];
    list[0].0.trending = 5;
    list[1].0.trending = 1;
    list[2].0.trending = 5;
    data.sort_list(&mut list, Some(String::from("Trending")));
    let ids: Vec<i32> = list.iter().map(|e| e.0.id).collect();
    assert_eq!(ids, vec![2, 1, 3]);
}

#[test]
fn a_less_alike_file_does_not_replace_a_found_one() {
    let mut data = AnimeData::new();
    data.store_fetched(anime(1, "Spy x Family"));
    let known = HashSet::new();
    assert!(data.scan_hashed_file(String::from("D:\\Spy x Family - 03.mkv"), 1, false, None, &known));
    assert!(data.scan_hashed_file(String::from("D:\\Spy x Familyy - 03.mkv"), 2, false, None, &known));
    assert_eq!(data.episode_path(1, 3), Some(String::from("D:\\Spy x Family - 03.mkv")));
}

#[test]
fn feed_text_is_read_into_listings() {
    let feed = "<rss>\n<channel>\t<item><title>[G] Show - 01.mkv</title><downloads>5</downloads><size>300 MiB</size></item></channel></rss>";
    let entries = gekijou::rss_parser::read_feed(feed).unwrap();
    assert_eq!(entries.len(), 1);
    assert_eq!(entries[0].title, "[G] Show - 01.mkv");
    assert_eq!(entries[0].downloads, 5);
    assert_eq!(entries[0].size_string, "300 MiB");
    let mut derived = entries;
    gekijou::rss_parser::derive_titles(&mut derived);
    assert_eq!(derived[0].derived_values.title, "[G] Show - 01.mkv");
}

#[test]
fn waiting_scans_and_known_files_are_handed_over() {
    let mut data = AnimeData::new();
    data.add_id_for_scanning(4);
    data.add_id_for_scanning(9);
    data.known_files.insert(77);
    let known = data.begin_scan(true, None);
    assert!(known.contains(&77));
    assert!(data.known_files.is_empty());
    assert_eq!(data.take_ids_for_scanning(), vec![4, 9]);
    assert!(data.needs_scan.is_empty());
    data.add_id_for_scanning(5);
    data.begin_scan(false, None);
    assert!(data.needs_scan.is_empty());
}

#[test]
fn answers_from_anilist_are_taken_in() {
    let mut data = AnimeData::new();
    data.store_fetched(anime(1, "one"));
    data.nonexistent_ids.insert(5);
    let asked = vec![1, 2, 3, 5];
    let mut valid = data.valid_ids(&asked);
    assert_eq!(valid, vec![1, 2, 3]);
    let missing = data.missing_ids(&valid);
    assert_eq!(missing, vec![2, 3]);
    let gone = data.absorb_fetched(&mut valid, &missing, vec![anime(2, "two")]);
    assert_eq!(gone, vec![3]);
    assert_eq!(valid, vec![1, 2]);
    assert!(data.nonexistent_ids.contains(&3));
    assert!(data.contains_key(2));
    let list = data.compile_list(&valid);
    assert_eq!(list.iter().map(|a| a.id).collect::<Vec<_>>(), vec![1, 2]);
}

#[test]
fn prequels_missing_from_the_store() {
    let mut data = AnimeData::new();
    let mut second = anime(2, "second");
    second.relations.edges.push(gekijou::anime_data::Edge {
        relation_type: String::from("PREQUEL"),
        node: gekijou::anime_data::Node {
            id: 1,
            title: Title::default(),
            cover_image: CoverImage::default(),
            media_type: String::from("ANIME"),
        },
    });
    data.store_fetched(second);
    assert_eq!(data.missing_prequels(), vec![1]);
    assert_eq!(data.next_prequels(&vec![2, 7]), vec![1]);
    data.store_fetched(anime(1, "first"));
    assert!(data.missing_prequels().is_empty());
}

#[test]
fn identify_anime_reads_common_release_names() {
    let mut data = AnimeData::new();
    data.store_fetched(anime(10, "Shingeki no Kyojin"));
    data.store_fetched(anime(20, "Cowboy Bebop"));
    let mut movie = anime(30, "Your Name");
    movie.episodes = Some(1);
    data.store_fetched(movie);

    let a = data
        .identify_anime(String::from("[Erai-raws] Shingeki no Kyojin - 01 [1080p][Multiple Subtitle].mkv"), None)
        .unwrap();
    assert_eq!((a.media_id, a.episode, a.resolution), (10, 1, 1080));
    assert_eq!(a.sub_group, "Erai-raws");

    let b = data.identify_anime(String::from("Cowboy.Bebop.S01E05.1080p.BluRay.x264.mkv"), None).unwrap();
    assert_eq!((b.media_id, b.episode, b.resolution), (20, 5, 1080));
    assert_eq!(b.file_title, "Cowboy Bebop");

    let c = data.identify_anime(String::from("[Group] Your Name (2016) [1080p].mkv"), None).unwrap();
    assert_eq!((c.media_id, c.episode, c.episode_length), (30, 1, 1));
    assert_eq!(c.sub_group, "Group");
}

#[test]
fn identify_anime_can_look_at_one_anime_only() {
    let mut data = AnimeData::new();
    data.store_fetched(anime(10, "Shingeki no Kyojin"));
    data.store_fetched(anime(20, "Cowboy Bebop"));
    let only = data.identify_anime(String::from("[G] Cowboy Bebop - 02.mkv"), Some(10)).unwrap();
    assert_eq!(only.media_id, 10);
    assert!(!only.similarity.above_threshold());
    let missing = data.identify_anime(String::from("[G] Cowboy Bebop - 02.mkv"), Some(99)).unwrap();
    assert_eq!(missing.media_id, 0);
}

fn with_sequel(mut a: AnimeInfo, target: i32) -> AnimeInfo {
    a.relations.edges.push(gekijou::anime_data::Edge {
        relation_type: String::from("SEQUEL"),
        node: gekijou::anime_data::Node {
            id: target,
            title: Title::default(),
            cover_image: CoverImage::default(),
            media_type: String::from("ANIME"),
        },
    });
    a
}

#[test]
fn related_anime_take_the_best_modifier() {
    let mut data = AnimeData::new();
    data.store_fetched(with_sequel(anime(1, "one"), 5));
    data.store_fetched(with_sequel(anime(2, "two"), 5));
    data.store_fetched(recommending(5, &[(3, 9), (4, 9)]));
    let mut scores = HashMap::new();
    scores.insert(1, 80);
    scores.insert(2, 0);
    let mut user = HashSet::new();
    user.insert(1);
    user.insert(2);
    let related = data.related_recommendations(&scores, &user, &Some(String::from("POINT_10")), "SEQUEL");
    let found: Vec<(i32, i128)> = related.iter().map(|t| (t.id, t.rating)).collect();
    // ratings 3 + 4, times the larger modifier: 80 over 50 rather than 50 over 50
    assert_eq!(found, vec![(5, 560)]);
    let ids = data.recommendations(
        scores,
        user,
        Some(String::from("POINT_10")),
        String::from("SEQUEL"),
        String::new(),
        0,
        0,
        String::new(),
    );
    assert_eq!(ids, vec![5]);
}

#[test]
fn missing_entries_and_users_give_their_errors() {
    let mut user = UserData::new();
    assert_eq!(user.get_user_data(9).unwrap_err(), "data does not exist");
    assert_eq!(user.updates_request(), Err("No username"));
    user.setting.username = String::from("someone");
    assert_eq!(user.updates_request(), Ok(None));
    user.setting.updated_at = Some(1700000000);
    assert_eq!(user.updates_request(), Ok(Some((String::from("someone"), 1700000000))));
}

#[test]
fn storing_entries_leaves_settings_and_token() {
    let mut user = UserData::new();
    user.setting.username = String::from("someone");
    user.setting.folders.push(String::from("/videos"));
    user.token.access_token = String::from("abc");
    user.user_lists.push((String::from("CURRENT"), vec![]));
    let mut bad = entry_for_list(7, String::from("WATCHING"));
    assert_eq!(user.set_user_data(&mut bad, None).unwrap_err(), "invalid status");
    let mut good = entry_for_list(7, String::from("CURRENT"));
    user.set_user_data(&mut good, None).unwrap();
    user.increment_episode(7).unwrap();
    assert_eq!(user.setting.username, "someone");
    assert_eq!(user.setting.folders, vec![String::from("/videos")]);
    assert_eq!(user.token.access_token, "abc");
}

#[test]
fn an_anime_stands_in_one_list_after_moves() {
    let mut user = UserData::new();
    user.user_lists.push((String::from("CURRENT"), vec![1]));
    user.user_lists.push((String::from("COMPLETED"), vec![2]));
    user.user_lists.push((String::from("PAUSED"), vec![]));
    for status in ["CURRENT", "COMPLETED", "PAUSED", "REPEATING", "COMPLETED"] {
        let mut entry = entry_for_list(7, String::from(status));
        user.set_user_data(&mut entry, None).unwrap();
        let count: usize = user.user_lists.iter().map(|l| l.1.iter().filter(|x| **x == 7).count()).sum();
        assert_eq!(count, 1);
    }
    assert_eq!(user.get_list(&String::from("COMPLETED")).unwrap(), vec![2, 7]);
    assert_eq!(user.get_list(&String::from("CURRENT")).unwrap(), vec![1]);
}

#[test]
fn descending_list_is_the_ascending_one_reversed() {
    let data = AnimeData::new();
    let make = || {
        let mut a = anime(1, "Bravo");
        a.popularity = 5;
        let mut b = anime(2, "alpha");
        b.popularity = 5;
        let mut c = anime(3, "Charlie");
        c.popularity = 1;
        vec![a, b, c]
    };
    let users = || vec![UserInfo::new(), UserInfo::new(), UserInfo::new()];
    let up = data.arrange_list(make(), users(), String::from("Popularity"), true);
    let down = data.arrange_list(make(), users(), String::from("Popularity"), false);
    let up_ids: Vec<i32> = up.iter().map(|e| e.0.id).collect();
    let mut down_ids: Vec<i32> = down.iter().map(|e| e.0.id).collect();
    assert_eq!(up_ids, vec![3, 1, 2]);
    down_ids.reverse();
    assert_eq!(down_ids, up_ids);
}
