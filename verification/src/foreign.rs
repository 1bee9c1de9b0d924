//! Calls into std that vstd leaves unspecified, and into the outside crates
//! that the library's logic relies on (`regex`, `strsim`, `chrono`, `xml`).
//! Each item here is trusted: its doc comment says what its contract claims of
//! the outside function, and nothing here is proved.
//!
//! The regular expressions are compiled where they are used.  A pattern that
//! does not compile counts as one that never matches; every pattern the
//! library passes is a constant of its own.

use vstd::prelude::*;
use chrono::Datelike;
use crate::rss_parser::{XmlItem, XmlItemView, item_views};

verus! {

/// Whether `regex::Regex::is_match` finds the pattern in the text.
pub uninterp spec fn regex_matches(pattern: Seq<char>, text: Seq<char>) -> bool;

/// What `regex::Regex::replace_all` makes of the text with the replacement.
pub uninterp spec fn regex_replaced(
    pattern: Seq<char>,
    text: Seq<char>,
    replacement: Seq<char>,
) -> Seq<char>;

/// What `regex::Regex::replace` makes of the text with the replacement: the
/// first match replaced.
pub uninterp spec fn regex_replaced_first(
    pattern: Seq<char>,
    text: Seq<char>,
    replacement: Seq<char>,
) -> Seq<char>;

/// The text of capture group `group` of the first match that
/// `regex::Regex::captures` finds; `None` when nothing matches or the group
/// took no part in the match.
pub uninterp spec fn regex_group(pattern: Seq<char>, text: Seq<char>, group: nat) -> Option<
    Seq<char>,
>;

/// The text of the last match that `regex::Regex::find_iter` yields.
pub uninterp spec fn regex_last_match(pattern: Seq<char>, text: Seq<char>) -> Option<Seq<char>>;

/// `strsim::levenshtein`: the Levenshtein distance of two texts, counted in characters.
pub uninterp spec fn edit_distance(a: Seq<char>, b: Seq<char>) -> nat;

/// What `str::to_lowercase` makes of a text (Unicode lower case).
pub uninterp spec fn unicode_lowercase(s: Seq<char>) -> Seq<char>;

/// The events that `xml::reader::EventReader` reads from a document, in order.
pub uninterp spec fn xml_items(doc: Seq<char>) -> Seq<XmlItemView>;

/// `String::push`: the string grows by the one character at its end.
#[verifier::external_body]
pub(crate) fn push_char(s: &mut String, c: char)
    ensures
        final(s)@ == old(s)@.push(c),
{
    s.push(c);
}

/// `str::to_lowercase`; the result is named, not stated.
#[verifier::external_body]
pub(crate) fn lowercase(s: &str) -> (r: String)
    ensures
        r@ == unicode_lowercase(s@),
{
    s.to_lowercase()
}

/// `regex::Regex::new` and then `Regex::is_match`: whether the pattern matches
/// anywhere in the text.  The result is named, not stated.
#[verifier::external_body]
pub(crate) fn regex_is_match(pattern: &str, text: &str) -> (r: bool)
    ensures
        r == regex_matches(pattern@, text@),
{
    match regex::Regex::new(pattern) {
        Ok(re) => re.is_match(text),
        Err(_) => false,
    }
}

/// `regex::Regex::new` and then `Regex::replace_all`: every non-overlapping
/// match replaced.  The result is named, not stated.
#[verifier::external_body]
pub(crate) fn regex_replace_all(pattern: &str, text: &str, replacement: &str) -> (r: String)
    ensures
        r@ == regex_replaced(pattern@, text@, replacement@),
{
    match regex::Regex::new(pattern) {
        Ok(re) => re.replace_all(text, replacement).to_string(),
        Err(_) => text.to_string(),
    }
}

/// `regex::Regex::new` and then `Regex::replace`: the first match replaced.
/// The result is named, not stated.
#[verifier::external_body]
pub(crate) fn regex_replace_first(pattern: &str, text: &str, replacement: &str) -> (r: String)
    ensures
        r@ == regex_replaced_first(pattern@, text@, replacement@),
{
    match regex::Regex::new(pattern) {
        Ok(re) => re.replace(text, replacement).to_string(),
        Err(_) => text.to_string(),
    }
}

/// `regex::Regex::new`, `Regex::captures` and `Captures::get`: the text of one
/// capture group of the first match.  The result is named, not stated.
#[verifier::external_body]
pub(crate) fn regex_capture(pattern: &str, text: &str, group: usize) -> (r: Option<String>)
    ensures
        match r {
            Some(g) => regex_group(pattern@, text@, group as nat) == Some(g@),
            None => regex_group(pattern@, text@, group as nat) is None,
        },
{
    match regex::Regex::new(pattern) {
        Ok(re) => match re.captures(text) {
            Some(caps) => match caps.get(group) {
                Some(m) => Some(m.as_str().to_string()),
                None => None,
            },
            None => None,
        },
        Err(_) => None,
    }
}

/// `regex::Regex::new`, then the last item of `Regex::find_iter`.  The result
/// is named, not stated.
#[verifier::external_body]
pub(crate) fn regex_find_last(pattern: &str, text: &str) -> (r: Option<String>)
    ensures
        match r {
            Some(m) => regex_last_match(pattern@, text@) == Some(m@),
            None => regex_last_match(pattern@, text@) is None,
        },
{
    match regex::Regex::new(pattern) {
        Ok(re) => match re.find_iter(text).last() {
            Some(m) => Some(m.as_str().to_string()),
            None => None,
        },
        Err(_) => None,
    }
}

/// `strsim::levenshtein`: the least number of single-character insertions,
/// deletions and substitutions that turn one text into the other.  The
/// distance is named; the contract adds what that definition plainly gives:
/// a text is at distance 0 from itself, and no two texts are further apart
/// than the longer one is long.
#[verifier::external_body]
pub(crate) fn levenshtein(a: &str, b: &str) -> (r: usize)
    ensures
        r == edit_distance(a@, b@),
        a@ == b@ ==> r == 0,
        r <= a@.len() || r <= b@.len(),
{
    strsim::levenshtein(a, b)
}

/// `BuildHasher::hash_one` with `std::collections::hash_map::DefaultHasher`:
/// the hash under which a scanned file's path is remembered.  std does not
/// promise the same hash across its releases, so nothing is stated of it.
#[verifier::external_body]
pub(crate) fn path_hash(path: &str) -> (r: u64) {
    std::hash::BuildHasher::hash_one(
        &std::hash::BuildHasherDefault::<std::collections::hash_map::DefaultHasher>::default(),
        path,
    )
}

/// `chrono::Local::now()` with its year, month and day: today's date on this
/// machine.  Of the outcome the contract states only what chrono documents for
/// every date: the month lies in 1..=12 and the day in 1..=31.
#[verifier::external_body]
pub(crate) fn local_today() -> (r: (i32, u32, u32))
    ensures
        1 <= r.1 <= 12,
        1 <= r.2 <= 31,
{
    let now = chrono::Local::now();
    (now.year(), now.month(), now.day())
}

/// The events of `xml::reader::EventReader` over a document, one item each:
/// the local name of a start or end tag, the text of a character run, and
/// `Other` for every other event and for a read error (after which the reader
/// yields nothing more).  The list is named, not stated.
#[verifier::external_body]
pub(crate) fn read_xml_items(doc: &str) -> (r: Vec<XmlItem>)
    ensures
        item_views(r@) == xml_items(doc@),
{
    let reader = xml::reader::EventReader::new(std::io::Cursor::new(doc.to_string()));
    let mut items = Vec::new();
    for event in reader {
        items.push(match event {
            Ok(xml::reader::XmlEvent::StartElement { name, .. }) => XmlItem::Start(name.local_name),
            Ok(xml::reader::XmlEvent::Characters(text)) => XmlItem::Text(text),
            Ok(xml::reader::XmlEvent::EndElement { name }) => XmlItem::End(name.local_name),
            _ => XmlItem::Other,
        });
    }
    items
}

} // verus!
