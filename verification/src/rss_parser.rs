//! Torrent listings read from an RSS feed.
//!
//! The feed is read as a run of XML events.  A start tag names the field
//! that the text after it fills; an end tag forgets that name, and the end of
//! an `item` closes the listing being read and starts the next.

use vstd::prelude::*;
use crate::anime_data::AnimeInfo;
use crate::foreign::{read_xml_items, regex_is_match, regex_matches, xml_items};
use crate::text::{chars_of, parse_i32, parsed_i32, replace_str, replaced, str_eq, string_of};

verus! {

/// One event of an XML document, as the listing reader needs it.
pub enum XmlItem {
    Start(String),
    Text(String),
    End(String),
    Other,
}

pub enum XmlItemView {
    Start(Seq<char>),
    Text(Seq<char>),
    End(Seq<char>),
    Other,
}

impl View for XmlItem {
    type V = XmlItemView;

    open spec fn view(&self) -> XmlItemView {
        match self {
            XmlItem::Start(s) => XmlItemView::Start(s@),
            XmlItem::Text(s) => XmlItemView::Text(s@),
            XmlItem::End(s) => XmlItemView::End(s@),
            XmlItem::Other => XmlItemView::Other,
        }
    }
}

/// What the program works out about a listing.
#[derive(Debug, Clone, Default)]
pub struct DerivedValues {
    pub episode: i32,
    pub length: i32,
    pub resolution: i32,
    pub sub_group: String,
    pub anime_id: i32,
    pub title: String,
    pub batch: bool,
}

/// One torrent of the feed.
#[derive(Debug, Clone, Default)]
pub struct RssEntry {
    pub title: String,
    pub link: String,
    pub guid: String,
    pub pub_date: String,
    pub downloads: i32,
    pub info_hash: String,
    pub category_id: String,
    pub size: i32,
    pub size_string: String,
    pub derived_values: DerivedValues,
}

pub struct DerivedView {
    pub episode: i32,
    pub length: i32,
    pub resolution: i32,
    pub sub_group: Seq<char>,
    pub anime_id: i32,
    pub title: Seq<char>,
    pub batch: bool,
}

pub struct RssEntryView {
    pub title: Seq<char>,
    pub link: Seq<char>,
    pub guid: Seq<char>,
    pub pub_date: Seq<char>,
    pub downloads: i32,
    pub info_hash: Seq<char>,
    pub category_id: Seq<char>,
    pub size: i32,
    pub size_string: Seq<char>,
    pub derived_values: DerivedView,
}

impl View for DerivedValues {
    type V = DerivedView;

    open spec fn view(&self) -> DerivedView {
        DerivedView {
            episode: self.episode,
            length: self.length,
            resolution: self.resolution,
            sub_group: self.sub_group@,
            anime_id: self.anime_id,
            title: self.title@,
            batch: self.batch,
        }
    }
}

impl View for RssEntry {
    type V = RssEntryView;

    open spec fn view(&self) -> RssEntryView {
        RssEntryView {
            title: self.title@,
            link: self.link@,
            guid: self.guid@,
            pub_date: self.pub_date@,
            downloads: self.downloads,
            info_hash: self.info_hash@,
            category_id: self.category_id@,
            size: self.size,
            size_string: self.size_string@,
            derived_values: self.derived_values@,
        }
    }
}

/// A listing with nothing read yet.
pub open spec fn blank_entry() -> RssEntryView {
    RssEntryView {
        title: Seq::empty(),
        link: Seq::empty(),
        guid: Seq::empty(),
        pub_date: Seq::empty(),
        downloads: 0,
        info_hash: Seq::empty(),
        category_id: Seq::empty(),
        size: 0,
        size_string: Seq::empty(),
        derived_values: DerivedView {
            episode: 0,
            length: 0,
            resolution: 0,
            sub_group: Seq::empty(),
            anime_id: 0,
            title: Seq::empty(),
            batch: false,
        },
    }
}

/// Where the reading of a feed stands: the listing being read, the listings
/// read, and the field that the next text fills.
pub struct FeedState {
    pub entry: RssEntryView,
    pub entries: Seq<RssEntryView>,
    pub element: Seq<char>,
}

/// The listing with the text put in the field `element` names; `None` when
/// the download count does not read as an `i32`.
pub open spec fn filled(e: RssEntryView, element: Seq<char>, text: Seq<char>) -> Option<RssEntryView> {
    if element == "title"@ {
        Some(RssEntryView { title: text, ..e })
    } else if element == "link"@ {
        Some(RssEntryView { link: text, ..e })
    } else if element == "guid"@ {
        Some(RssEntryView { guid: text, ..e })
    } else if element == "pubDate"@ {
        Some(RssEntryView { pub_date: text, ..e })
    } else if element == "downloads"@ {
        match parsed_i32(text) {
            Some(n) => Some(RssEntryView { downloads: n, ..e }),
            None => None,
        }
    } else if element == "infoHash"@ {
        Some(RssEntryView { info_hash: text, ..e })
    } else if element == "categoryId"@ {
        Some(RssEntryView { category_id: text, ..e })
    } else if element == "size"@ {
        Some(RssEntryView { size_string: text, ..e })
    } else {
        Some(e)
    }
}

/// The text of an element goes into the field of the same name and nowhere
/// else: `title`, `link`, `guid`, `pubDate`, `infoHash`, `categoryId` and
/// `size` (the size as written), and `downloads` read as a number; any other
/// element changes nothing.  Only a download count that does not read fails.
pub proof fn law_filled_puts_text_in_its_field(e: RssEntryView, element: Seq<char>, text: Seq<char>)
    ensures
        filled(e, element, text) is None <==> (element == "downloads"@ && parsed_i32(text) is None),
        filled(e, element, text) matches Some(r) ==> {
            &&& r.title == (if element == "title"@ { text } else { e.title })
            &&& r.link == (if element == "link"@ { text } else { e.link })
            &&& r.guid == (if element == "guid"@ { text } else { e.guid })
            &&& r.pub_date == (if element == "pubDate"@ { text } else { e.pub_date })
            &&& r.info_hash == (if element == "infoHash"@ { text } else { e.info_hash })
            &&& r.category_id == (if element == "categoryId"@ { text } else { e.category_id })
            &&& r.size_string == (if element == "size"@ { text } else { e.size_string })
            &&& r.downloads == (if element == "downloads"@ { parsed_i32(text)->0 } else { e.downloads })
            &&& r.size == e.size
            &&& r.derived_values == e.derived_values
        },
{
    reveal_strlit("title");
    reveal_strlit("link");
    reveal_strlit("guid");
    reveal_strlit("pubDate");
    reveal_strlit("downloads");
    reveal_strlit("infoHash");
    reveal_strlit("categoryId");
    reveal_strlit("size");
    let names = seq!["title"@, "link"@, "guid"@, "pubDate"@, "downloads"@, "infoHash"@, "categoryId"@, "size"@];
    assert forall|i: int, j: int| 0 <= i < j < names.len() implies names[i] != names[j] by {
        if names[i] == names[j] {
            assert(names[i].len() == names[j].len());
            assert(names[i][0] == names[j][0]);
            assert(names[i][1] == names[j][1]);
        }
    }
    assert("title"@ != "link"@ && "title"@ != "guid"@ && "title"@ != "pubDate"@ && "title"@ != "downloads"@);
    assert("title"@ != "infoHash"@ && "title"@ != "categoryId"@ && "title"@ != "size"@);
    assert("link"@ != "guid"@ && "link"@ != "pubDate"@ && "link"@ != "downloads"@ && "link"@ != "infoHash"@);
    assert("link"@ != "categoryId"@ && "link"@ != "size"@ && "guid"@ != "pubDate"@ && "guid"@ != "downloads"@);
    assert("guid"@ != "infoHash"@ && "guid"@ != "categoryId"@ && "guid"@ != "size"@);
    assert("pubDate"@ != "downloads"@ && "pubDate"@ != "infoHash"@ && "pubDate"@ != "categoryId"@);
    assert("pubDate"@ != "size"@ && "downloads"@ != "infoHash"@ && "downloads"@ != "categoryId"@);
    assert("downloads"@ != "size"@ && "infoHash"@ != "categoryId"@ && "infoHash"@ != "size"@);
    assert("categoryId"@ != "size"@);
}

/// In a feed, the text inside an element other than `downloads` lands in the
/// listing being read, in the field of the element's name, and the listings
/// already read stay as they were; the end of an `item` adds the listing
/// read to them and starts a blank one.
pub proof fn law_feed_text_lands_in_its_field(items: Seq<XmlItemView>, name: Seq<char>, text: Seq<char>)
    requires
        feed_read(items) is Some,
        name != "downloads"@,
    ensures
        ({
            let st = feed_read(items)->0;
            let after = items.push(XmlItemView::Start(name)).push(XmlItemView::Text(text));
            &&& feed_read(after) is Some
            &&& feed_read(after)->0.entries == st.entries
            &&& feed_read(after)->0.entry.title == (if name == "title"@ { text } else { st.entry.title })
            &&& feed_read(after)->0.entry.link == (if name == "link"@ { text } else { st.entry.link })
            &&& feed_read(after)->0.entry.guid == (if name == "guid"@ { text } else { st.entry.guid })
            &&& feed_read(after)->0.entry.pub_date == (if name == "pubDate"@ { text } else { st.entry.pub_date })
        }),
        ({
            let st = feed_read(items)->0;
            feed_read(items.push(XmlItemView::End("item"@))) == Some(
                FeedState { entry: blank_entry(), entries: st.entries.push(st.entry), element: Seq::empty() },
            )
        }),
{
    let st = feed_read(items)->0;
    let one = items.push(XmlItemView::Start(name));
    let after = one.push(XmlItemView::Text(text));
    assert(one.drop_last() =~= items);
    assert(after.drop_last() =~= one);
    assert(items.push(XmlItemView::End("item"@)).drop_last() =~= items);
    law_filled_puts_text_in_its_field(st.entry, name, text);
    assert(feed_read(one) == Some(FeedState { element: name, ..st }));
    assert(filled(st.entry, name, text) is Some);
    assert(feed_read(after) == Some(FeedState { entry: filled(st.entry, name, text)->0, element: name, ..st }));
}

/// One event read.
pub open spec fn feed_step(st: FeedState, item: XmlItemView) -> Option<FeedState> {
    match item {
        XmlItemView::Start(name) => Some(FeedState { element: name, ..st }),
        XmlItemView::Text(text) => match filled(st.entry, st.element, text) {
            Some(e) => Some(FeedState { entry: e, ..st }),
            None => None,
        },
        XmlItemView::End(name) => if name == "item"@ {
            Some(FeedState { entry: blank_entry(), entries: st.entries.push(st.entry), element: Seq::empty() })
        } else {
            Some(FeedState { element: Seq::empty(), ..st })
        },
        XmlItemView::Other => Some(st),
    }
}

/// The events read one after the other; `None` once a download count does
/// not read.
pub open spec fn feed_read(items: Seq<XmlItemView>) -> Option<FeedState>
    decreases items.len(),
{
    if items.len() == 0 {
        Some(FeedState { entry: blank_entry(), entries: Seq::empty(), element: Seq::empty() })
    } else {
        match feed_read(items.drop_last()) {
            Some(st) => feed_step(st, items.last()),
            None => None,
        }
    }
}

/// The views of the events.
pub open spec fn item_views(items: Seq<XmlItem>) -> Seq<XmlItemView> {
    items.map_values(|x: XmlItem| x@)
}

/// The views of the listings.
pub open spec fn entry_views(v: Seq<RssEntry>) -> Seq<RssEntryView> {
    v.map_values(|e: RssEntry| e@)
}

fn empty_entry() -> (r: RssEntry)
    ensures
        r@ == blank_entry(),
{
    RssEntry {
        title: String::new(),
        link: String::new(),
        guid: String::new(),
        pub_date: String::new(),
        downloads: 0,
        info_hash: String::new(),
        category_id: String::new(),
        size: 0,
        size_string: String::new(),
        derived_values: DerivedValues {
            episode: 0,
            length: 0,
            resolution: 0,
            sub_group: String::new(),
            anime_id: 0,
            title: String::new(),
            batch: false,
        },
    }
}

/// Puts the text in the field `element` names (see `filled`); `false`, with
/// the listing as it was, when the download count does not read.
fn fill(entry: &mut RssEntry, element: &str, text: String) -> (ok: bool)
    ensures
        ok == (filled(old(entry)@, element@, text@) is Some),
        ok ==> filled(old(entry)@, element@, text@) == Some(final(entry)@),
{
    if str_eq(element, "title") {
        entry.title = text;
    } else if str_eq(element, "link") {
        entry.link = text;
    } else if str_eq(element, "guid") {
        entry.guid = text;
    } else if str_eq(element, "pubDate") {
        entry.pub_date = text;
    } else if str_eq(element, "downloads") {
        match parse_i32(text.as_str()) {
            Some(n) => entry.downloads = n,
            None => return false,
        }
    } else if str_eq(element, "infoHash") {
        entry.info_hash = text;
    } else if str_eq(element, "categoryId") {
        entry.category_id = text;
    } else if str_eq(element, "size") {
        entry.size_string = text;
    }
    true
}

/// The listings of a feed's events (see `feed_read`); `None` when a download
/// count does not read as an `i32`.
pub fn entries_of(items: Vec<XmlItem>) -> (r: Option<Vec<RssEntry>>)
    ensures
        match r {
            Some(v) => feed_read(item_views(items@)) matches Some(st) && entry_views(v@)
                == st.entries,
            None => feed_read(item_views(items@)) is None,
        },
{
    let ghost all = item_views(items@);
    let mut entry = empty_entry();
    let mut entries: Vec<RssEntry> = Vec::new();
    let mut element = String::new();
    let mut rest = items;
    let ghost n: int = all.len() as int;
    assert(all.take(0) =~= Seq::<XmlItemView>::empty());
    assert(entry_views(entries@) =~= Seq::<RssEntryView>::empty());
    assert(all.skip(0) =~= all);
    while rest.len() > 0
        invariant
            all == item_views(items@),
            all.len() == n,
            rest@.len() <= n,
            item_views(rest@) == all.skip(n - rest@.len()),
            feed_read(all.take(n - rest@.len())) == Some(
                FeedState { entry: entry@, entries: entry_views(entries@), element: element@ },
            ),
        decreases rest.len(),
    {
        let ghost k: int = n - rest@.len();
        let ghost rest_before = rest@;
        let item = rest.remove(0);
        proof {
            assert(item_views(rest_before)[0] == item@);
            assert(all[k] == item@);
            assert(all.take(k + 1).drop_last() =~= all.take(k));
            assert(all.take(k + 1).last() == item@);
            assert(rest@ =~= rest_before.skip(1));
            assert forall|i: int| 0 <= i < rest@.len() implies #[trigger] item_views(rest@)[i] == all.skip(
                k + 1,
            )[i] by {
                assert(rest@[i] == rest_before[i + 1]);
                assert(item_views(rest_before)[i + 1] == all.skip(k)[i + 1]);
            }
            assert(item_views(rest@) =~= all.skip(k + 1));
        }
        match item {
            XmlItem::Start(name) => {
                element = name;
            },
            XmlItem::Text(text) => {
                if !fill(&mut entry, element.as_str(), text) {
                    proof {
                        lemma_feed_stays_broken(all, k + 1, n);
                        assert(all.take(n) =~= all);
                    }
                    return None;
                }
            },
            XmlItem::End(name) => {
                if str_eq(name.as_str(), "item") {
                    let done = entry;
                    let ghost before = entries@;
                    entries.push(done);
                    assert(entry_views(entries@) =~= entry_views(before).push(done@));
                    entry = empty_entry();
                }
                element = String::new();
            },
            XmlItem::Other => {},
        }
    }
    assert(all.take(n) =~= all);
    Some(entries)
}

/// Once a download count fails to read, the rest of the feed is not read.
proof fn lemma_feed_stays_broken(all: Seq<XmlItemView>, i: int, j: int)
    requires
        0 <= i <= j <= all.len(),
        feed_read(all.take(i)) is None,
    ensures
        feed_read(all.take(j)) is None,
    decreases j - i,
{
    if j > i {
        lemma_feed_stays_broken(all, i, j - 1);
        assert(all.take(j).drop_last() =~= all.take(j - 1));
    }
}

/// The listings of an RSS document (see `feed_read`), its events read by the
/// XML reader; `None` when a download count does not read as an `i32`.
pub fn parse_rss(doc: &str) -> (r: Option<Vec<RssEntry>>)
    ensures
        match r {
            Some(v) => feed_read(xml_items(doc@)) matches Some(st) && entry_views(v@) == st.entries,
            None => feed_read(xml_items(doc@)) is None,
        },
{
    let items = read_xml_items(doc);
    entries_of(items)
}

/// The feed's text without line breaks and tabs.
pub open spec fn flattened(response: Seq<char>) -> Seq<char> {
    replaced(replaced(response, "\n"@, ""@), "\t"@, ""@)
}

/// The listings of a feed as it came over the network: line breaks and tabs
/// are taken out before it is read (see `parse_rss`).
pub fn read_feed(response: &str) -> (r: Option<Vec<RssEntry>>)
    ensures
        match r {
            Some(v) => feed_read(xml_items(flattened(response@))) matches Some(st) && entry_views(v@)
                == st.entries,
            None => feed_read(xml_items(flattened(response@))) is None,
        },
{
    proof {
        reveal_strlit("\n");
        reveal_strlit("\t");
    }
    let one = replace_str(response, "\n", "");
    let two = replace_str(one.as_str(), "\t", "");
    parse_rss(two.as_str())
}

/// Each listing's derived title is its title.
pub fn derive_titles(entries: &mut Vec<RssEntry>)
    ensures
        final(entries)@.len() == old(entries)@.len(),
        forall|i: int|
            0 <= i < old(entries)@.len() ==> #[trigger] final(entries)@[i]@ == (RssEntryView {
                derived_values: DerivedView { title: old(entries)@[i].title@, ..old(entries)@[i]@.derived_values },
                ..old(entries)@[i]@
            }),
{
    let ghost start = entries@;
    let mut i: usize = 0;
    while i < entries.len()
        invariant
            0 <= i <= entries.len(),
            entries@.len() == start.len(),
            forall|k: int|
                0 <= k < i ==> #[trigger] entries@[k]@ == (RssEntryView {
                    derived_values: DerivedView { title: start[k].title@, ..start[k]@.derived_values },
                    ..start[k]@
                }),
            forall|k: int| i <= k < entries@.len() ==> #[trigger] entries@[k] == start[k],
        decreases entries.len() - i,
    {
        let mut e = entries.remove(i);
        let t = e.title.clone();
        e.derived_values.title = t;
        entries.insert(i, e);
        i = i + 1;
    }
}

/// The address of the feed that searches for an anime by its romaji title,
/// spaces written as `+`; `None` for an anime without one.
pub open spec fn search_address(anime: AnimeInfo) -> Option<Seq<char>> {
    match anime.title.romaji {
        Some(t) => Some(
            "https://nyaa.si/?page=rss&q="@ + replaced(t@, " "@, "+"@) + "&c=1_2&f=0"@,
        ),
        None => None,
    }
}

pub fn rss_search_url(anime: &AnimeInfo) -> (r: Option<String>)
    ensures
        match r {
            Some(u) => search_address(*anime) == Some(u@),
            None => search_address(*anime) is None,
        },
{
    match &anime.title.romaji {
        Some(t) => {
            proof {
                reveal_strlit(" ");
            }
            let search = replace_str(t.as_str(), " ", "+");
            let mut all = chars_of("https://nyaa.si/?page=rss&q=");
            let middle = chars_of(search.as_str());
            let tail = chars_of("&c=1_2&f=0");
            let ghost head = all@;
            let mut i: usize = 0;
            while i < middle.len()
                invariant
                    0 <= i <= middle.len(),
                    all@ == head + middle@.take(i as int),
                decreases middle.len() - i,
            {
                all.push(middle[i]);
                i = i + 1;
                assert(all@ =~= head + middle@.take(i as int));
            }
            let ghost with_middle = all@;
            let mut j: usize = 0;
            while j < tail.len()
                invariant
                    0 <= j <= tail.len(),
                    all@ == with_middle + tail@.take(j as int),
                decreases tail.len() - j,
            {
                all.push(tail[j]);
                j = j + 1;
                assert(all@ =~= with_middle + tail@.take(j as int));
            }
            assert(middle@.take(middle.len() as int) =~= middle@);
            assert(tail@.take(tail.len() as int) =~= tail@);
            Some(string_of(&all))
        },
        None => None,
    }
}

/// The regular expressions that tell a batch of episodes.
pub const BATCH_SEASON: &'static str = r"[Ss]eason ?\d+";

pub const BATCH_SEASON_SHORT: &'static str = r"[Ss] ?\d";

pub const BATCH_EPISODE_NUMBER: &'static str = r" - \d+";

pub const BATCH_SEASON_EPISODE: &'static str = r"[Ss] ?\d+[Ee]\d+";

pub const BATCH_EPISODE_RANGE: &'static str = r"0?1 ?[-~] ?\d+";

pub const BATCH_WORD: &'static str = r"[Bb]atch";

/// A listing is a batch of episodes: it says so or names a range of
/// episodes; otherwise, unless it names one episode after a dash, it names a
/// season (without an episode of it), has no episode number, or is larger
/// than 3 GiB (sizes are in KiB).
pub open spec fn is_batch(filename: Seq<char>, episode: i32, size: i32) -> bool {
    if regex_matches(BATCH_WORD@, filename) || regex_matches(BATCH_EPISODE_RANGE@, filename) {
        true
    } else if regex_matches(BATCH_EPISODE_NUMBER@, filename) {
        false
    } else {
        regex_matches(BATCH_SEASON@, filename) || (regex_matches(BATCH_SEASON_SHORT@, filename)
            && !regex_matches(BATCH_SEASON_EPISODE@, filename)) || episode == 0 || size > 3 * 1024
            * 1024
    }
}

/// A listing that says it is a batch, or names a range of episodes, is one;
/// otherwise one that names a single episode after a dash is not; and a
/// listing that names no season, has an episode number and is at most 3 GiB
/// (3 * 1024 * 1024 KiB) is not a batch, while a larger one or one without an
/// episode number is.
pub proof fn law_batches_told_apart(filename: Seq<char>, episode: i32, size: i32)
    ensures
        regex_matches(BATCH_WORD@, filename) || regex_matches(BATCH_EPISODE_RANGE@, filename) ==> is_batch(
            filename,
            episode,
            size,
        ),
        !regex_matches(BATCH_WORD@, filename) && !regex_matches(BATCH_EPISODE_RANGE@, filename)
            && regex_matches(BATCH_EPISODE_NUMBER@, filename) ==> !is_batch(filename, episode, size),
        !regex_matches(BATCH_WORD@, filename) && !regex_matches(BATCH_EPISODE_RANGE@, filename)
            && !regex_matches(BATCH_EPISODE_NUMBER@, filename) && !regex_matches(BATCH_SEASON@, filename)
            && !regex_matches(BATCH_SEASON_SHORT@, filename) ==> (is_batch(filename, episode, size) <==> (
        episode == 0 || size > 3145728)),
{
}

/// Whether a listing is a batch of episodes (see `is_batch`).
pub fn identify_batch(filename: &String, episode: i32, size: i32) -> (r: bool)
    ensures
        r == is_batch(filename@, episode, size),
{
    if regex_is_match(BATCH_WORD, filename.as_str()) {
        return true;
    }
    if regex_is_match(BATCH_EPISODE_RANGE, filename.as_str()) {
        return true;
    }
    if regex_is_match(BATCH_EPISODE_NUMBER, filename.as_str()) {
        return false;
    }
    if regex_is_match(BATCH_SEASON, filename.as_str()) {
        return true;
    }
    if regex_is_match(BATCH_SEASON_SHORT, filename.as_str()) && !regex_is_match(
        BATCH_SEASON_EPISODE,
        filename.as_str(),
    ) {
        return true;
    }
    if episode == 0 {
        return true;
    }
    if size > 3 * 1024 * 1024 {
        return true;
    }
    false
}

} // verus!
