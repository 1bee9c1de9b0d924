//! Recognising episode files by name: the release details, the episode number
//! and the anime that a file name belongs to.
//!
//! The patterns are regular expressions run by the `regex` crate; what a match
//! gives is named in `foreign`, and the contracts here say exactly how the
//! library uses it.  Where a capture group that a pattern always fills is
//! reported missing, the library treats it as no match.

use vstd::prelude::*;
use std::collections::HashMap;
use crate::anime_data::{AnimeData, AnimeInfo, Similarity, below_threshold, more_similar, zero_similarity};
use crate::foreign::{
    edit_distance, levenshtein, regex_capture, regex_find_last, regex_group, regex_last_match,
    regex_replace_all, regex_replaced,
};
use crate::maps::keys_of;
use crate::text::{ascii_lowercase, chars_of, parse_i32, parsed_i32, to_ascii_lower};

verus! {

pub const EXTENSION_CHECK: &'static str = r"(.mkv)|(.mp4)|(.avi) ?$";

pub const CHECKSUM: &'static str = r"\[[0-9A-Fa-f]{6,8}\]|\([0-9A-Fa-f]{6,8}\)";

pub const RESOLUTION: &'static str = r"(\d{3,4})[pP]";

pub const RESOLUTION2: &'static str = r"\d{3,4} ?[xX] ?(\d{3,4})";

pub const VERSION: &'static str = r"[vV][1-9][^9]";

pub const EMPTY_BRACKETS: &'static str = r"(\[[ ,\-]*\])|(\([ ,\-]*\))";

pub const SUB_GROUP: &'static str = r"^\[([^\]]+)\] ?";

pub const SUB_GROUP_BACKUP: &'static str = r"-([^\-]+)$";

pub const TRAILING_EMPTY_SPACE: &'static str = r"[ \-\.]+$";

pub const EPISODE_RANGE: &'static str = r"[^sS](\d+)[&-](\d+)";

pub const EPISODE_DASH: &'static str = r" - (\d+)";

pub const EPISODE_WORD: &'static str = r" - Episode (\d+)";

pub const EPISODE_SEASON: &'static str = r"[sS]\d+[eE][pP]? ?(\d+)";

pub const EPISODE_SHORT: &'static str = r"[eE][pP]? ?(\d+)";

pub const EPISODE_ANY: &'static str = r"[^vsVS](\d+)";

/// The number patterns tried in turn, the most specific first.
pub open spec fn episode_patterns() -> Seq<Seq<char>> {
    seq![EPISODE_DASH@, EPISODE_WORD@, EPISODE_SEASON@, EPISODE_SHORT@, EPISODE_ANY@]
}

/// The last match of `pattern` in `text` and the number in its first group:
/// `Some(("", 0))` when nothing matches, `None` when the number does not read
/// as an `i32`.
pub open spec fn extracted_number(pattern: Seq<char>, text: Seq<char>) -> Option<(Seq<char>, i32)> {
    match regex_last_match(pattern, text) {
        None => Some((Seq::empty(), 0)),
        Some(m) => match regex_group(pattern, m, 1) {
            Some(g) => match parsed_i32(g) {
                Some(n) => Some((m, n)),
                None => None,
            },
            None => None,
        },
    }
}

/// The episode text, the first episode and the number of episodes of a range
/// such as `01-12`.
pub open spec fn episode_range(text: Seq<char>) -> Option<(Seq<char>, i32, i32)> {
    match (
        regex_group(EPISODE_RANGE@, text, 0),
        regex_group(EPISODE_RANGE@, text, 1),
        regex_group(EPISODE_RANGE@, text, 2),
    ) {
        (Some(all), Some(first), Some(last)) => match (parsed_i32(first), parsed_i32(last)) {
            (Some(a), Some(b)) => if i32::MIN <= 1 + b - a <= i32::MAX {
                Some((all, a, (1 + b - a) as i32))
            } else {
                None
            },
            _ => None,
        },
        _ => None,
    }
}

/// Trying the number patterns from index `k` on: the first that gives a
/// number other than 0, with one episode; `("", 0, 0)` when none does.
pub open spec fn numbered_from(text: Seq<char>, k: int) -> Option<(Seq<char>, i32, i32)>
    decreases episode_patterns().len() - k,
{
    if k < 0 || k >= episode_patterns().len() {
        Some((Seq::empty(), 0, 0))
    } else {
        match extracted_number(episode_patterns()[k], text) {
            None => None,
            Some((s, n)) => if n != 0 {
                Some((s, n, 1))
            } else {
                numbered_from(text, k + 1)
            },
        }
    }
}

/// The episode text, episode number and episode count that a title shows;
/// `None` where a number found does not read as an `i32`.
pub open spec fn numbered(text: Seq<char>) -> Option<(Seq<char>, i32, i32)> {
    if regex_group(EPISODE_RANGE@, text, 0) is Some {
        episode_range(text)
    } else {
        numbered_from(text, 0)
    }
}

/// A range such as `01-12` gives its first episode and the count from the
/// first to the last episode, both counted; otherwise the patterns are tried
/// in turn, ` - 12`, ` - Episode 12`, `S2E12`, `E12` and then any number not
/// after a `v` or an `s`, and the first to find a number other than 0 gives
/// that episode, alone; when none does, the title has no episode number.
pub proof fn law_episode_number_patterns_in_turn(t: Seq<char>)
    ensures
        episode_range(t) matches Some((s, a, c)) ==> {
            &&& regex_group(EPISODE_RANGE@, t, 0) == Some(s)
            &&& regex_group(EPISODE_RANGE@, t, 1) is Some
            &&& parsed_i32(regex_group(EPISODE_RANGE@, t, 1)->0) == Some(a)
            &&& regex_group(EPISODE_RANGE@, t, 2) is Some
            &&& parsed_i32(regex_group(EPISODE_RANGE@, t, 2)->0) is Some
            &&& parsed_i32(regex_group(EPISODE_RANGE@, t, 2)->0)->0 == a + c - 1
        },
        regex_group(EPISODE_RANGE@, t, 0) is Some ==> numbered(t) == episode_range(t),
        ({
            let d = extracted_number(EPISODE_DASH@, t);
            d is Some && d.unwrap().1 != 0 && regex_group(EPISODE_RANGE@, t, 0) is None ==> numbered(t) == Some(
                (d.unwrap().0, d.unwrap().1, 1i32),
            )
        }),
        ({
            let d = extracted_number(EPISODE_DASH@, t);
            let w = extracted_number(EPISODE_WORD@, t);
            d is Some && d.unwrap().1 == 0 && w is Some && w.unwrap().1 != 0 && regex_group(EPISODE_RANGE@, t, 0) is None
                ==> numbered(t) == Some((w.unwrap().0, w.unwrap().1, 1i32))
        }),
        (regex_group(EPISODE_RANGE@, t, 0) is None && forall|k: int|
            0 <= k < 5 ==> #[trigger] extracted_number(episode_patterns()[k], t) is Some && extracted_number(
                episode_patterns()[k],
                t,
            ).unwrap().1 == 0) ==> numbered(t) == Some((Seq::<char>::empty(), 0i32, 0i32)),
        regex_last_match(EPISODE_DASH@, t) is None ==> extracted_number(EPISODE_DASH@, t) == Some(
            (Seq::<char>::empty(), 0i32),
        ),
{
    assert(episode_patterns()[0] == EPISODE_DASH@);
    assert(episode_patterns()[1] == EPISODE_WORD@);
    if regex_group(EPISODE_RANGE@, t, 0) is None && forall|k: int|
        0 <= k < 5 ==> #[trigger] extracted_number(episode_patterns()[k], t) is Some && extracted_number(
            episode_patterns()[k],
            t,
        ).unwrap().1 == 0 {
        assert(extracted_number(episode_patterns()[0], t) is Some);
        assert(extracted_number(episode_patterns()[1], t) is Some);
        assert(extracted_number(episode_patterns()[2], t) is Some);
        assert(extracted_number(episode_patterns()[3], t) is Some);
        assert(extracted_number(episode_patterns()[4], t) is Some);
        assert(numbered_from(t, 5) == Some((Seq::<char>::empty(), 0i32, 0i32)));
        assert(numbered_from(t, 4) == Some((Seq::<char>::empty(), 0i32, 0i32)));
        assert(numbered_from(t, 3) == Some((Seq::<char>::empty(), 0i32, 0i32)));
        assert(numbered_from(t, 2) == Some((Seq::<char>::empty(), 0i32, 0i32)));
        assert(numbered_from(t, 1) == Some((Seq::<char>::empty(), 0i32, 0i32)));
    }
}

/// The last match of `pattern` in `text` and its number.
pub fn extract_number(pattern: &str, text: &str) -> (r: Option<(String, i32)>)
    ensures
        match r {
            Some((s, n)) => extracted_number(pattern@, text@) == Some((s@, n)),
            None => extracted_number(pattern@, text@) is None,
        },
{
    match regex_find_last(pattern, text) {
        None => Some((String::new(), 0)),
        Some(m) => match regex_capture(pattern, m.as_str(), 1) {
            Some(g) => match parse_i32(g.as_str()) {
                Some(n) => Some((m, n)),
                None => None,
            },
            None => None,
        },
    }
}

fn episode_pattern(k: usize) -> (r: &'static str)
    requires
        k < 5,
    ensures
        r@ == episode_patterns()[k as int],
{
    if k == 0 {
        EPISODE_DASH
    } else if k == 1 {
        EPISODE_WORD
    } else if k == 2 {
        EPISODE_SEASON
    } else if k == 3 {
        EPISODE_SHORT
    } else {
        EPISODE_ANY
    }
}

/// The episode text, the episode number and the number of episodes that a
/// file title shows: a range such as `01-12` first, then the patterns of
/// `episode_patterns` in turn.  `None` where a number found does not read as
/// an `i32`, or a range's length does not fit one.
pub fn identify_number(filename: &str) -> (r: Option<(String, i32, i32)>)
    ensures
        match r {
            Some((s, n, l)) => numbered(filename@) == Some((s@, n, l)),
            None => numbered(filename@) is None,
        },
{
    match regex_capture(EPISODE_RANGE, filename, 0) {
        Some(all) => {
            let first = regex_capture(EPISODE_RANGE, filename, 1);
            let last = regex_capture(EPISODE_RANGE, filename, 2);
            match (first, last) {
                (Some(f), Some(l)) => match (parse_i32(f.as_str()), parse_i32(l.as_str())) {
                    (Some(a), Some(b)) => {
                        let length: i64 = 1 + (b as i64) - (a as i64);
                        if length < -2147483648 || length > 2147483647 {
                            None
                        } else {
                            Some((all, a, length as i32))
                        }
                    },
                    _ => None,
                },
                _ => None,
            }
        },
        None => {
            let mut k: usize = 0;
            while k < 5
                invariant
                    0 <= k <= 5,
                    numbered(filename@) == numbered_from(filename@, k as int),
                    regex_group(EPISODE_RANGE@, filename@, 0) is None,
                decreases 5 - k,
            {
                match extract_number(episode_pattern(k), filename) {
                    None => return None,
                    Some((s, n)) => {
                        if n != 0 {
                            return Some((s, n, 1));
                        }
                    },
                }
                k = k + 1;
            }
            Some((String::new(), 0, 0))
        },
    }
}

pub const REPLACE_A: &'static str = r"À|Á|Â|Ã|Ä|Å|à|á|â|ã|ä|å";

pub const REPLACE_AE: &'static str = r"Æ|æ";

pub const REPLACE_B: &'static str = r"ß|Þ|þ";

pub const REPLACE_C: &'static str = r"Ç|ç";

pub const REPLACE_D: &'static str = r"Ð|ð";

pub const REPLACE_E: &'static str = r"È|É|Ê|Ë|è|é|ê|ë";

pub const REPLACE_I: &'static str = r"Ì|Í|Î|Ï|ì|í|î|ï";

pub const REPLACE_N: &'static str = r"Ñ|ñ";

pub const REPLACE_O: &'static str = r"Ò|Ó|Ô|Õ|Ö|Ø|ò|ó|ô|õ|ö|ø";

pub const REPLACE_U: &'static str = r"Ù|Ú|Û|Ü|ù|ú|û|ü";

pub const REPLACE_Y: &'static str = r"Ý|ý|ÿ";

pub const PRE_DASH: &'static str = r"([^-]*).*";

/// The accented letters and their plain forms, replaced in this order.
pub open spec fn vowel_rules() -> Seq<(Seq<char>, Seq<char>)> {
    seq![
        (REPLACE_A@, "a"@),
        (REPLACE_AE@, "ae"@),
        (REPLACE_C@, "c"@),
        (REPLACE_E@, "e"@),
        (REPLACE_I@, "i"@),
        (REPLACE_D@, "d"@),
        (REPLACE_N@, "n"@),
        (REPLACE_O@, "o"@),
        (REPLACE_U@, "u"@),
        (REPLACE_Y@, "y"@),
        (REPLACE_B@, "b"@),
    ]
}

/// `text` after the first `k` rules of `vowel_rules`.
pub open spec fn plain_vowels_upto(text: Seq<char>, k: int) -> Seq<char>
    decreases k,
{
    if k <= 0 || k > vowel_rules().len() {
        text
    } else {
        let rule = vowel_rules()[k - 1];
        regex_replaced(rule.0, plain_vowels_upto(text, k - 1), rule.1)
    }
}

/// `text` with accented letters replaced by plain ones, as few keyboards have them.
pub open spec fn plain_vowels(text: Seq<char>) -> Seq<char> {
    plain_vowels_upto(text, 11)
}

/// The form in which titles and file names are compared.
pub open spec fn normalized(text: Seq<char>) -> Seq<char> {
    plain_vowels(ascii_lowercase(text))
}

fn vowel_rule(k: usize) -> (r: (&'static str, &'static str))
    requires
        k < 11,
    ensures
        (r.0@, r.1@) == vowel_rules()[k as int],
{
    if k == 0 {
        (REPLACE_A, "a")
    } else if k == 1 {
        (REPLACE_AE, "ae")
    } else if k == 2 {
        (REPLACE_C, "c")
    } else if k == 3 {
        (REPLACE_E, "e")
    } else if k == 4 {
        (REPLACE_I, "i")
    } else if k == 5 {
        (REPLACE_D, "d")
    } else if k == 6 {
        (REPLACE_N, "n")
    } else if k == 7 {
        (REPLACE_O, "o")
    } else if k == 8 {
        (REPLACE_U, "u")
    } else if k == 9 {
        (REPLACE_Y, "y")
    } else {
        (REPLACE_B, "b")
    }
}

/// Replaces accented letters with plain ones.
pub fn replace_special_vowels(text: &str) -> (r: String)
    ensures
        r@ == plain_vowels(text@),
{
    let mut result = text.to_string();
    let mut k: usize = 0;
    assert(result@ == plain_vowels_upto(text@, 0));
    while k < 11
        invariant
            0 <= k <= 11,
            result@ == plain_vowels_upto(text@, k as int),
        decreases 11 - k,
    {
        let (pattern, replacement) = vowel_rule(k);
        result = regex_replace_all(pattern, result.as_str(), replacement);
        k = k + 1;
    }
    result
}

/// The form in which titles and file names are compared.
pub fn normalize(text: &str) -> (r: String)
    ensures
        r@ == normalized(text@),
{
    let lower = to_ascii_lower(text);
    replace_special_vowels(lower.as_str())
}

/// The normalised Levenshtein similarity of two texts:
/// `(longer length - distance) / longer length`, and 1 for two empty texts.
pub open spec fn similarity(a: Seq<char>, b: Seq<char>) -> Similarity {
    let m = if a.len() >= b.len() { a.len() } else { b.len() };
    if m == 0 {
        Similarity { numerator: 1, denominator: 1 }
    } else {
        Similarity { numerator: (m - edit_distance(a, b)) as u64, denominator: m as u64 }
    }
}

/// Similarity is the share of the longer text that needs no edit: over the
/// longer length, that length less the edit distance; two empty texts are
/// alike in full.  Against texts of the same longer length, the text at the
/// smaller edit distance is the more alike.
pub proof fn law_similarity_is_share_without_edits(a: Seq<char>, b: Seq<char>, c: Seq<char>)
    ensures
        a.len() == 0 && b.len() == 0 ==> similarity(a, b) == (Similarity { numerator: 1, denominator: 1 }),
        ({
            let m = if a.len() >= b.len() { a.len() } else { b.len() };
            (m > 0 && edit_distance(a, b) <= m && m <= 0xffff_ffff_ffff_ffff) ==> similarity(a, b).denominator == m
                && similarity(a, b).numerator + edit_distance(a, b) == m
        }),
        ({
            let m = if a.len() >= b.len() { a.len() } else { b.len() };
            (b.len() == c.len() && m > 0 && edit_distance(a, b) < edit_distance(a, c) && edit_distance(a, c) <= m
                && m <= 0xffff_ffff) ==> more_similar(similarity(a, b), similarity(a, c))
        }),
{
    let m = if a.len() >= b.len() { a.len() } else { b.len() };
    if b.len() == c.len() && m > 0 && edit_distance(a, b) < edit_distance(a, c) && edit_distance(a, c) <= m
        && m <= 0xffff_ffff {
        let x = (m - edit_distance(a, b)) as int;
        let y = (m - edit_distance(a, c)) as int;
        assert(x * m > y * m) by (nonlinear_arith)
            requires x > y, m > 0;
    }
}

/// The similarity of two texts: a fraction between 0 and 1, and exactly 1
/// for a text and itself.
pub fn similarity_of(a: &str, b: &str) -> (r: Similarity)
    ensures
        r == similarity(a@, b@),
        0 < r.denominator,
        r.numerator <= r.denominator,
        a@ == b@ ==> r.numerator == r.denominator,
{
    let la = chars_of(a).len();
    let lb = chars_of(b).len();
    let m = if la >= lb { la } else { lb };
    let d = levenshtein(a, b);
    if m == 0 {
        Similarity { numerator: 1, denominator: 1 }
    } else {
        Similarity { numerator: (m - d) as u64, denominator: m as u64 }
    }
}

/// The best match found so far: its similarity, the anime and the title.
pub type Best = (Similarity, i32, Seq<char>);

pub open spec fn title_list(o: Option<String>) -> Seq<Seq<char>> {
    match o {
        Some(t) => seq![t@],
        None => Seq::empty(),
    }
}

/// The titles of an anime that file names are compared with: English,
/// romaji, the user's own, then the synonyms, each normalised.
pub open spec fn compared_titles(a: AnimeInfo) -> Seq<Seq<char>> {
    (title_list(a.title.english) + title_list(a.title.romaji) + title_list(a.title.custom)
        + a.synonyms@.map_values(|s: String| s@)).map_values(|t: Seq<char>| normalized(t))
}

/// One title weighed against the best so far.  With `first`, titles that do
/// not begin with that character are passed over, and an empty title stops
/// the search (`None`).
pub open spec fn title_step(
    best: Best,
    id: i32,
    title: Seq<char>,
    name: Seq<char>,
    first: Option<char>,
) -> Option<Best> {
    match first {
        Some(c) => if title.len() == 0 {
            None
        } else if title[0] != c {
            Some(best)
        } else if crate::anime_data::more_similar(similarity(name, title), best.0) {
            Some((similarity(name, title), id, title))
        } else {
            Some(best)
        },
        None => if crate::anime_data::more_similar(similarity(name, title), best.0) {
            Some((similarity(name, title), id, title))
        } else {
            Some(best)
        },
    }
}

/// The titles of one anime weighed in turn.
pub open spec fn titles_fold(
    best: Best,
    id: i32,
    titles: Seq<Seq<char>>,
    name: Seq<char>,
    first: Option<char>,
) -> Option<Best>
    decreases titles.len(),
{
    if titles.len() == 0 {
        Some(best)
    } else {
        match titles_fold(best, id, titles.drop_last(), name, first) {
            None => None,
            Some(b) => title_step(b, id, titles.last(), name, first),
        }
    }
}

/// The anime of `order` weighed in turn.
pub open spec fn anime_fold(
    data: Map<i32, AnimeInfo>,
    order: Seq<i32>,
    best: Best,
    name: Seq<char>,
    first: Option<char>,
) -> Option<Best>
    decreases order.len(),
{
    if order.len() == 0 {
        Some(best)
    } else {
        match anime_fold(data, order.drop_last(), best, name, first) {
            None => None,
            Some(b) => titles_fold(b, order.last(), compared_titles(data[order.last()]), name, first),
        }
    }
}

/// One pass of comparing a file title with the anime of `order`; with `skip`,
/// only titles that begin as the file title does are compared.
pub open spec fn title_pass(
    data: Map<i32, AnimeInfo>,
    order: Seq<i32>,
    best: Best,
    file_title: Seq<char>,
    skip: bool,
) -> Option<Best> {
    if file_title.len() == 0 {
        Some(best)
    } else {
        anime_fold(
            data,
            order,
            best,
            normalized(file_title),
            if skip {
                Some(file_title[0])
            } else {
                None
            },
        )
    }
}

/// The search for the anime a file title belongs to: a quick pass over the
/// titles that begin alike, a full pass while the best is below the threshold,
/// then a full pass with the part before the first dash.  `None` where an
/// empty title stops the quick pass.
pub open spec fn media_search(data: Map<i32, AnimeInfo>, order: Seq<i32>, file_title: Seq<char>) -> Option<
    Best,
> {
    match title_pass(data, order, (zero_similarity(), 0, Seq::empty()), file_title, true) {
        None => None,
        Some(b1) => {
            let b2 = if below_threshold(b1.0) {
                title_pass(data, order, b1, file_title, false)
            } else {
                Some(b1)
            };
            match b2 {
                None => None,
                Some(b) => if below_threshold(b.0) {
                    match regex_group(PRE_DASH@, file_title, 1) {
                        Some(before_dash) => title_pass(data, order, b, before_dash, false),
                        None => Some(b),
                    }
                } else {
                    Some(b)
                },
            }
        },
    }
}

/// "No more alike than" between similarities is transitive.
proof fn lemma_alike_transitive(x: Similarity, y: Similarity, z: Similarity)
    requires
        y.denominator > 0,
        !more_similar(x, y),
        !more_similar(y, z),
    ensures
        !more_similar(x, z),
{
    let (xn, xd, yn, yd, zn, zd) = (
        x.numerator as int,
        x.denominator as int,
        y.numerator as int,
        y.denominator as int,
        z.numerator as int,
        z.denominator as int,
    );
    assert(xn * zd <= zn * xd) by (nonlinear_arith)
        requires
            xn >= 0,
            xd >= 0,
            yn >= 0,
            yd > 0,
            zn >= 0,
            zd >= 0,
            xn * yd <= yn * xd,
            yn * zd <= zn * yd;
}

/// The similarity of texts shorter than 2^64 characters has a positive
/// denominator.
proof fn lemma_similarity_denominator(a: Seq<char>, b: Seq<char>)
    requires
        a.len() < 0x1_0000_0000_0000_0000,
        b.len() < 0x1_0000_0000_0000_0000,
    ensures
        similarity(a, b).denominator > 0,
{
}

/// The titles compared are shorter than 2^64 characters.
pub open spec fn short_titles(data: Map<i32, AnimeInfo>, order: Seq<i32>) -> bool {
    forall|i: int, j: int|
        0 <= i < order.len() && 0 <= j < compared_titles(data[order[i]]).len() ==> (#[trigger] compared_titles(
            data[order[i]],
        )[j]).len() < 0x1_0000_0000_0000_0000
}

/// A full pass over the titles of one anime keeps the most alike.
proof fn lemma_titles_fold_best(best: Best, id: i32, titles: Seq<Seq<char>>, name: Seq<char>)
    requires
        best.0.denominator > 0,
        name.len() < 0x1_0000_0000_0000_0000,
        forall|j: int| 0 <= j < titles.len() ==> (#[trigger] titles[j]).len() < 0x1_0000_0000_0000_0000,
    ensures
        titles_fold(best, id, titles, name, None) matches Some(b) && b.0.denominator > 0 && !more_similar(
            best.0,
            b.0,
        ) && forall|j: int| 0 <= j < titles.len() ==> !more_similar(#[trigger] similarity(name, titles[j]), b.0),
    decreases titles.len(),
{
    if titles.len() > 0 {
        lemma_titles_fold_best(best, id, titles.drop_last(), name);
        let b = titles_fold(best, id, titles.drop_last(), name, None)->0;
        let t = titles.last();
        lemma_similarity_denominator(name, t);
        let after = titles_fold(best, id, titles, name, None)->0;
        if more_similar(similarity(name, t), b.0) {
            assert(after.0 == similarity(name, t));
            lemma_alike_transitive(best.0, b.0, after.0);
            assert forall|j: int| 0 <= j < titles.len() implies !more_similar(
                #[trigger] similarity(name, titles[j]),
                after.0,
            ) by {
                if j < titles.len() - 1 {
                    assert(titles[j] == titles.drop_last()[j]);
                    lemma_alike_transitive(similarity(name, titles[j]), b.0, after.0);
                }
            }
        } else {
            assert forall|j: int| 0 <= j < titles.len() implies !more_similar(
                #[trigger] similarity(name, titles[j]),
                after.0,
            ) by {
                if j < titles.len() - 1 {
                    assert(titles[j] == titles.drop_last()[j]);
                }
            }
        }
    }
}

/// A full pass (every title compared) ends with a match no less alike than
/// where it started, and no title of the anime weighed is more alike to the
/// file title than the match: the pass picks the most alike title.
pub proof fn law_full_pass_picks_most_similar(
    data: Map<i32, AnimeInfo>,
    order: Seq<i32>,
    best: Best,
    name: Seq<char>,
)
    requires
        best.0.denominator > 0,
        name.len() < 0x1_0000_0000_0000_0000,
        short_titles(data, order),
    ensures
        anime_fold(data, order, best, name, None) matches Some(b) && b.0.denominator > 0 && !more_similar(
            best.0,
            b.0,
        ) && forall|i: int, j: int|
            0 <= i < order.len() && 0 <= j < compared_titles(data[order[i]]).len() ==> !more_similar(
                #[trigger] similarity(name, compared_titles(data[order[i]])[j]),
                b.0,
            ),
    decreases order.len(),
{
    if order.len() > 0 {
        let rest = order.drop_last();
        assert(short_titles(data, rest)) by {
            assert forall|i: int, j: int|
                0 <= i < rest.len() && 0 <= j < compared_titles(data[rest[i]]).len() implies (
                #[trigger] compared_titles(data[rest[i]])[j]).len() < 0x1_0000_0000_0000_0000 by {
                assert(rest[i] == order[i]);
            }
        }
        law_full_pass_picks_most_similar(data, rest, best, name);
        let b = anime_fold(data, rest, best, name, None)->0;
        let k = order.last();
        let titles = compared_titles(data[k]);
        assert forall|j: int| 0 <= j < titles.len() implies (#[trigger] titles[j]).len()
            < 0x1_0000_0000_0000_0000 by {
            assert(order[order.len() - 1] == k);
        }
        lemma_titles_fold_best(b, k, titles, name);
        let after = anime_fold(data, order, best, name, None)->0;
        lemma_alike_transitive(best.0, b.0, after.0);
        assert forall|i: int, j: int|
            0 <= i < order.len() && 0 <= j < compared_titles(data[order[i]]).len() implies !more_similar(
            #[trigger] similarity(name, compared_titles(data[order[i]])[j]),
            after.0,
        ) by {
            if i < order.len() - 1 {
                assert(order[i] == rest[i]);
                lemma_alike_transitive(similarity(name, compared_titles(data[order[i]])[j]), b.0, after.0);
            } else {
                assert(order[i] == k);
            }
        }
    }
}

/// `order` lists the members of `ids`, each once.
pub open spec fn is_ordering(order: Seq<i32>, ids: Set<i32>) -> bool {
    order.no_duplicates() && order.to_set() == ids
}

/// The normalised titles of an anime.
pub fn titles_of(anime: &AnimeInfo) -> (r: Vec<String>)
    ensures
        r@.map_values(|s: String| s@) == compared_titles(*anime),
{
    let mut raw: Vec<String> = Vec::new();
    if let Some(t) = &anime.title.english {
        raw.push(t.clone());
    }
    if let Some(t) = &anime.title.romaji {
        raw.push(t.clone());
    }
    if let Some(t) = &anime.title.custom {
        raw.push(t.clone());
    }
    let ghost head = raw@.map_values(|s: String| s@);
    assert(head =~= title_list(anime.title.english) + title_list(anime.title.romaji) + title_list(
        anime.title.custom,
    ));
    let base = raw.len();
    let mut i: usize = 0;
    while i < anime.synonyms.len()
        invariant
            0 <= i <= anime.synonyms.len(),
            base <= 3,
            raw@.len() == base + i,
            raw@.map_values(|s: String| s@) == head + anime.synonyms@.take(i as int).map_values(
                |s: String| s@,
            ),
        decreases anime.synonyms.len() - i,
    {
        let ghost prev = raw@;
        let x = anime.synonyms[i].clone();
        raw.push(x);
        proof {
            let f = |s: String| s@;
            assert(raw@ == prev.push(x));
            assert(raw@.map_values(f) =~= prev.map_values(f).push(x@));
            assert(anime.synonyms@.take(i + 1) =~= anime.synonyms@.take(i as int).push(x));
            assert(anime.synonyms@.take(i + 1).map_values(f) =~= anime.synonyms@.take(
                i as int,
            ).map_values(f).push(x@));
            assert(raw@.map_values(f) =~= head + anime.synonyms@.take(i + 1).map_values(f));
        }
        i = i + 1;
    }
    assert(anime.synonyms@.take(anime.synonyms.len() as int) =~= anime.synonyms@);
    let ghost all = raw@.map_values(|s: String| s@);
    let mut out: Vec<String> = Vec::new();
    let mut k: usize = 0;
    while k < raw.len()
        invariant
            0 <= k <= raw.len(),
            all == raw@.map_values(|s: String| s@),
            out@.map_values(|s: String| s@) == all.take(k as int).map_values(
                |t: Seq<char>| normalized(t),
            ),
        decreases raw.len() - k,
    {
        let ghost prev = out@;
        let x = normalize(raw[k].as_str());
        out.push(x);
        proof {
            let f = |s: String| s@;
            let g = |t: Seq<char>| normalized(t);
            assert(all[k as int] == raw@[k as int]@);
            assert(out@.map_values(f) =~= prev.map_values(f).push(x@));
            assert(all.take(k + 1) =~= all.take(k as int).push(all[k as int]));
            assert(all.take(k + 1).map_values(g) =~= all.take(k as int).map_values(g).push(
                normalized(all[k as int]),
            ));
        }
        k = k + 1;
    }
    assert(all.take(raw.len() as int) =~= all);
    out
}

/// The best match so far, as the search keeps it.
pub struct TitleMatch {
    pub similarity: Similarity,
    pub media_id: i32,
    pub title: String,
}

impl View for TitleMatch {
    type V = Best;

    open spec fn view(&self) -> Best {
        (self.similarity, self.media_id, self.title@)
    }
}

/// Weighs the titles of one anime against the best so far; `false` where an
/// empty title stops the search.
fn compare_titles(
    titles: &Vec<String>,
    id: i32,
    name: &str,
    first: Option<char>,
    best: &mut TitleMatch,
) -> (ok: bool)
    ensures
        ok ==> titles_fold(old(best)@, id, titles@.map_values(|s: String| s@), name@, first)
            == Some(final(best)@),
        !ok ==> titles_fold(old(best)@, id, titles@.map_values(|s: String| s@), name@, first)
            is None,
{
    let ghost ts = titles@.map_values(|s: String| s@);
    let ghost start = best@;
    let mut i: usize = 0;
    while i < titles.len()
        invariant
            0 <= i <= titles.len(),
            ts == titles@.map_values(|s: String| s@),
            start == old(best)@,
            titles_fold(start, id, ts.take(i as int), name@, first) == Some(best@),
        decreases titles.len() - i,
    {
        let title = &titles[i];
        assert(ts.take(i + 1).drop_last() =~= ts.take(i as int));
        assert(ts.take(i + 1).last() == title@);
        let mut consider = true;
        if let Some(c) = first {
            let tv = chars_of(title.as_str());
            if tv.len() == 0 {
                assert(titles_fold(start, id, ts.take(i + 1), name@, first) is None);
                assert forall|j: int| i + 1 <= j <= ts.len() implies titles_fold(
                    start,
                    id,
                    ts.take(j),
                    name@,
                    first,
                ) is None by {
                    lemma_titles_fold_stops(start, id, ts, name@, first, i + 1, j);
                }
                assert(ts.take(ts.len() as int) =~= ts);
                return false;
            }
            if tv[0] != c {
                consider = false;
            }
        }
        if consider {
            let score = similarity_of(name, title.as_str());
            if score.exceeds(&best.similarity) {
                best.similarity = score;
                best.media_id = id;
                best.title = title.clone();
            }
        }
        i = i + 1;
    }
    assert(ts.take(titles.len() as int) =~= ts);
    true
}

proof fn lemma_titles_fold_stops(
    best: Best,
    id: i32,
    ts: Seq<Seq<char>>,
    name: Seq<char>,
    first: Option<char>,
    i: int,
    j: int,
)
    requires
        0 <= i <= j <= ts.len(),
        titles_fold(best, id, ts.take(i), name, first) is None,
    ensures
        titles_fold(best, id, ts.take(j), name, first) is None,
    decreases j - i,
{
    if j > i {
        lemma_titles_fold_stops(best, id, ts, name, first, i, j - 1);
        assert(ts.take(j).drop_last() =~= ts.take(j - 1));
    }
}

proof fn lemma_anime_fold_stops(
    data: Map<i32, AnimeInfo>,
    order: Seq<i32>,
    best: Best,
    name: Seq<char>,
    first: Option<char>,
    i: int,
    j: int,
)
    requires
        0 <= i <= j <= order.len(),
        anime_fold(data, order.take(i), best, name, first) is None,
    ensures
        anime_fold(data, order.take(j), best, name, first) is None,
    decreases j - i,
{
    if j > i {
        lemma_anime_fold_stops(data, order, best, name, first, i, j - 1);
        assert(order.take(j).drop_last() =~= order.take(j - 1));
    }
}

impl AnimeData {
    /// One pass over the anime of `order`; `false` where an empty title stops it.
    fn title_pass_exec(&self, order: &Vec<i32>, file_title: &str, skip: bool, best: &mut TitleMatch) -> (ok: bool)
        requires
            forall|k: int| 0 <= k < order@.len() ==> self.data@.contains_key(#[trigger] order@[k]),
        ensures
            ok ==> title_pass(self.data@, order@, old(best)@, file_title@, skip) == Some(final(best)@),
            !ok ==> title_pass(self.data@, order@, old(best)@, file_title@, skip) is None,
    {
        let fv = chars_of(file_title);
        if fv.len() == 0 {
            return true;
        }
        let name = normalize(file_title);
        let first: Option<char> = if skip { Some(fv[0]) } else { None };
        let ghost start = best@;
        let mut i: usize = 0;
        while i < order.len()
            invariant
                0 <= i <= order.len(),
                forall|k: int| 0 <= k < order@.len() ==> self.data@.contains_key(#[trigger] order@[k]),
                name@ == normalized(file_title@),
                start == old(best)@,
                first == (if skip { Some(file_title@[0]) } else { None::<char> }),
                fv@ == file_title@,
                fv@.len() > 0,
                anime_fold(self.data@, order@.take(i as int), start, name@, first) == Some(best@),
            decreases order.len() - i,
        {
            let id = order[i];
            assert(order@.take(i + 1).drop_last() =~= order@.take(i as int));
            assert(order@.take(i + 1).last() == id);
            let anime = self.data.get(&id).unwrap();
            let titles = titles_of(anime);
            if !compare_titles(&titles, id, name.as_str(), first, best) {
                proof {
                    lemma_anime_fold_stops(self.data@, order@, start, name@, first, i + 1, order@.len() as int);
                    assert(order@.take(order@.len() as int) =~= order@);
                }
                return false;
            }
            i = i + 1;
        }
        assert(order@.take(order.len() as int) =~= order@);
        true
    }

    /// The search of `media_search` over the anime of `order`.
    pub fn search_titles(&self, order: &Vec<i32>, file_title: &str) -> (r: Option<TitleMatch>)
        requires
            forall|k: int| 0 <= k < order@.len() ==> self.data@.contains_key(#[trigger] order@[k]),
        ensures
            match r {
                Some(m) => media_search(self.data@, order@, file_title@) == Some(m@),
                None => media_search(self.data@, order@, file_title@) is None,
            },
    {
        let mut best = TitleMatch { similarity: Similarity::zero(), media_id: 0, title: String::new() };
        if !self.title_pass_exec(order, file_title, true, &mut best) {
            return None;
        }
        if best.similarity.below_threshold() {
            if !self.title_pass_exec(order, file_title, false, &mut best) {
                return None;
            }
        }
        if best.similarity.below_threshold() {
            if let Some(before_dash) = regex_capture(PRE_DASH, file_title, 1) {
                if !self.title_pass_exec(order, before_dash.as_str(), false, &mut best) {
                    return None;
                }
            }
        }
        Some(best)
    }

    /// The anime that a file title most resembles, among all anime held or
    /// only `only_compare`: the anime's id, the title matched and the
    /// similarity, or 0, "" and 0 when none resembles it at all.  The anime are
    /// weighed in the map's own order, which the result may depend on where two
    /// titles are equally alike.  `None` where an anime weighed in the quick
    /// pass has an empty title.
    pub fn identify_media_id(&self, filename: &str, only_compare: Option<i32>) -> (r: Option<
        TitleMatch,
    >)
        ensures
            match only_compare {
                None => exists|order: Seq<i32>|
                    is_ordering(order, self.data@.dom()) && match r {
                        Some(m) => media_search(self.data@, order, filename@) == Some(m@),
                        None => media_search(self.data@, order, filename@) is None,
                    },
                Some(id) => if self.data@.contains_key(id) {
                    match r {
                        Some(m) => media_search(self.data@, seq![id], filename@) == Some(m@),
                        None => media_search(self.data@, seq![id], filename@) is None,
                    }
                } else {
                    r matches Some(m) && m@ == (zero_similarity(), 0i32, Seq::<char>::empty())
                },
            },
    {
        match only_compare {
            None => {
                let order = keys_of(&self.data);
                assert forall|k: int| 0 <= k < order@.len() implies self.data@.contains_key(
                    #[trigger] order@[k],
                ) by {
                    assert(order@.to_set().contains(order@[k]));
                }
                let r = self.search_titles(&order, filename);
                assert(is_ordering(order@, self.data@.dom()));
                r
            },
            Some(id) => {
                if self.data.contains_key(&id) {
                    let mut order: Vec<i32> = Vec::new();
                    order.push(id);
                    assert(order@ =~= seq![id]);
                    self.search_titles(&order, filename)
                } else {
                    Some(TitleMatch { similarity: Similarity::zero(), media_id: 0, title: String::new() })
                }
            },
        }
    }
}

} // verus!
