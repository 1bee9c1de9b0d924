//! Sorting the user's list of anime for display.
//!
//! Titles compare by their Unicode lower case, character by character; an
//! entry without the title sorts after one with it.  Scores, popularity and
//! trending compare as numbers, dates by `dates::date_order`, and a missing
//! score or date sorts first.  The sort is an insertion sort: each entry in
//! turn goes just after the last entry placed that does not sort after it
//! (`insertion_sorted`), so entries that compare equal keep their order.

use vstd::prelude::*;
use core::cmp::Ordering;
use crate::anime_data::{AnimeData, AnimeInfo};
use crate::user_data::{Date, UserInfo};
use crate::dates::{
    date_order, law_date_order_antisymmetric, law_date_order_transitive, order_of_dates, order_flips,
};
use crate::foreign::{lowercase, unicode_lowercase};
use crate::text::{chars_of, str_eq};

verus! {

broadcast use vstd::seq_lib::group_to_multiset_ensures;

/// The orders the list can be shown in.
#[derive(Debug, Clone, Copy, PartialEq, Eq, Structural)]
pub enum SortMode {
    AlphabeticalNative,
    AlphabeticalRomaji,
    AlphabeticalEnglish,
    Score,
    MyScore,
    Date,
    Popularity,
    Trending,
    Started,
    Completed,
}

/// The mode a setting names, if it names one.
pub open spec fn mode_named(name: Seq<char>) -> Option<SortMode> {
    if name == "Alphabetical_native"@ {
        Some(SortMode::AlphabeticalNative)
    } else if name == "Alphabetical_romaji"@ {
        Some(SortMode::AlphabeticalRomaji)
    } else if name == "Alphabetical_english"@ {
        Some(SortMode::AlphabeticalEnglish)
    } else if name == "Score"@ {
        Some(SortMode::Score)
    } else if name == "MyScore"@ {
        Some(SortMode::MyScore)
    } else if name == "Date"@ {
        Some(SortMode::Date)
    } else if name == "Popularity"@ {
        Some(SortMode::Popularity)
    } else if name == "Trending"@ {
        Some(SortMode::Trending)
    } else if name == "Started"@ {
        Some(SortMode::Started)
    } else if name == "Completed"@ {
        Some(SortMode::Completed)
    } else {
        None
    }
}

pub fn sort_mode(name: &str) -> (r: Option<SortMode>)
    ensures
        r == mode_named(name@),
{
    if str_eq(name, "Alphabetical_native") {
        Some(SortMode::AlphabeticalNative)
    } else if str_eq(name, "Alphabetical_romaji") {
        Some(SortMode::AlphabeticalRomaji)
    } else if str_eq(name, "Alphabetical_english") {
        Some(SortMode::AlphabeticalEnglish)
    } else if str_eq(name, "Score") {
        Some(SortMode::Score)
    } else if str_eq(name, "MyScore") {
        Some(SortMode::MyScore)
    } else if str_eq(name, "Date") {
        Some(SortMode::Date)
    } else if str_eq(name, "Popularity") {
        Some(SortMode::Popularity)
    } else if str_eq(name, "Trending") {
        Some(SortMode::Trending)
    } else if str_eq(name, "Started") {
        Some(SortMode::Started)
    } else if str_eq(name, "Completed") {
        Some(SortMode::Completed)
    } else {
        None
    }
}

/// The order of two numbers.
pub open spec fn number_order(a: i32, b: i32) -> Ordering {
    if a < b {
        Ordering::Less
    } else if a > b {
        Ordering::Greater
    } else {
        Ordering::Equal
    }
}

/// How two texts compare, character by character, a prefix first: -1 when
/// `a` comes first, 1 when `b` does, 0 when they are the same.
pub open spec fn text_rank(a: Seq<char>, b: Seq<char>) -> int
    decreases a.len(),
{
    if a.len() == 0 {
        if b.len() == 0 {
            0
        } else {
            -1
        }
    } else if b.len() == 0 {
        1
    } else if a[0] < b[0] {
        -1
    } else if a[0] > b[0] {
        1
    } else {
        text_rank(a.drop_first(), b.drop_first())
    }
}

/// The order a rank stands for.
pub open spec fn order_of_rank(r: int) -> Ordering {
    if r < 0 {
        Ordering::Less
    } else if r > 0 {
        Ordering::Greater
    } else {
        Ordering::Equal
    }
}

/// The order of two texts, character by character, a prefix first.
pub open spec fn text_order(a: Seq<char>, b: Seq<char>) -> Ordering {
    order_of_rank(text_rank(a, b))
}

/// The order of two titles: by lower case when both are there; an entry
/// without the title sorts after any other, even one without it too.
pub open spec fn title_order(a: Option<String>, b: Option<String>) -> Ordering {
    match a {
        Some(x) => match b {
            Some(y) => text_order(unicode_lowercase(x@), unicode_lowercase(y@)),
            None => Ordering::Less,
        },
        None => Ordering::Greater,
    }
}

/// A missing value sorts first.
pub open spec fn optional_number_order(a: Option<i32>, b: Option<i32>) -> Ordering {
    match (a, b) {
        (None, None) => Ordering::Equal,
        (None, Some(_)) => Ordering::Less,
        (Some(_), None) => Ordering::Greater,
        (Some(x), Some(y)) => number_order(x, y),
    }
}

/// A missing date sorts first.
pub open spec fn optional_date_order(a: Option<Date>, b: Option<Date>) -> Ordering {
    match (a, b) {
        (None, None) => Ordering::Equal,
        (None, Some(_)) => Ordering::Less,
        (Some(_), None) => Ordering::Greater,
        (Some(x), Some(y)) => date_order(x.year, x.month, x.day, y.year, y.month, y.day),
    }
}

/// The English title, or the romaji one where there is no English one.
pub open spec fn english_or_romaji(a: AnimeInfo) -> Option<String> {
    match a.title.english {
        Some(t) => Some(t),
        None => a.title.romaji,
    }
}

/// How two entries of the list compare in a mode.
pub open spec fn entry_order(mode: SortMode, a: (AnimeInfo, UserInfo), b: (AnimeInfo, UserInfo)) -> Ordering {
    match mode {
        SortMode::AlphabeticalNative => title_order(a.0.title.native, b.0.title.native),
        SortMode::AlphabeticalRomaji => title_order(a.0.title.romaji, b.0.title.romaji),
        SortMode::AlphabeticalEnglish => title_order(english_or_romaji(a.0), english_or_romaji(b.0)),
        SortMode::Score => optional_number_order(a.0.average_score, b.0.average_score),
        SortMode::MyScore => number_order(a.1.score_tenths, b.1.score_tenths),
        SortMode::Date => date_order(
            a.0.start_date.year,
            a.0.start_date.month,
            a.0.start_date.day,
            b.0.start_date.year,
            b.0.start_date.month,
            b.0.start_date.day,
        ),
        SortMode::Popularity => number_order(a.0.popularity, b.0.popularity),
        SortMode::Trending => number_order(a.0.trending, b.0.trending),
        SortMode::Started => optional_date_order(a.1.started_at, b.1.started_at),
        SortMode::Completed => optional_date_order(a.1.completed_at, b.1.completed_at),
    }
}

/// The entry `a` sorts after `b` in the mode.
pub open spec fn sorts_after(mode: SortMode, a: (AnimeInfo, UserInfo), b: (AnimeInfo, UserInfo)) -> bool {
    entry_order(mode, a, b) == Ordering::Greater
}

/// The entry `a` sorts before `b` in the mode.
pub open spec fn sorts_before(mode: SortMode, a: (AnimeInfo, UserInfo), b: (AnimeInfo, UserInfo)) -> bool {
    entry_order(mode, a, b) == Ordering::Less
}

/// The entries compare equal in the mode.
pub open spec fn ties(mode: SortMode, a: (AnimeInfo, UserInfo), b: (AnimeInfo, UserInfo)) -> bool {
    entry_order(mode, a, b) == Ordering::Equal
}

/// The mode orders the entries of `s` consistently: "does not sort after" is
/// transitive, and an entry sorts after another exactly when the other sorts
/// before it.
pub open spec fn consistent_on(mode: SortMode, s: Seq<(AnimeInfo, UserInfo)>) -> bool {
    &&& forall|a: (AnimeInfo, UserInfo), b: (AnimeInfo, UserInfo), c: (AnimeInfo, UserInfo)|
        #![trigger sorts_after(mode, a, b), sorts_after(mode, b, c)]
        s.contains(a) && s.contains(b) && s.contains(c) && !sorts_after(mode, a, b)
            && !sorts_after(mode, b, c) ==> !sorts_after(mode, a, c)
    &&& forall|a: (AnimeInfo, UserInfo), b: (AnimeInfo, UserInfo)|
        #![trigger sorts_after(mode, a, b)]
        s.contains(a) && s.contains(b) && sorts_after(mode, a, b) ==> sorts_before(mode, b, a)
}

/// `r` holds the entries of `whole` at the places `perm` gives, each once;
/// when the mode orders them consistently, entries that compare equal keep
/// their order.
pub open spec fn stable_placement(
    mode: SortMode,
    whole: Seq<(AnimeInfo, UserInfo)>,
    r: Seq<(AnimeInfo, UserInfo)>,
    perm: Seq<int>,
) -> bool {
    &&& perm.len() == r.len()
    &&& forall|k: int| 0 <= k < r.len() ==> 0 <= #[trigger] perm[k] < whole.len() && r[k] == whole[perm[k]]
    &&& forall|k1: int, k2: int| 0 <= k1 < r.len() && 0 <= k2 < r.len() && k1 != k2 ==> perm[k1] != perm[k2]
    &&& consistent_on(mode, whole) ==> forall|k1: int, k2: int|
        0 <= k1 < k2 < r.len() && #[trigger] ties(mode, r[k1], r[k2]) ==> perm[k1] < perm[k2]
}

/// No entry of `s` sorts after a later one.
pub open spec fn sorted_by(mode: SortMode, s: Seq<(AnimeInfo, UserInfo)>) -> bool {
    forall|i: int, j: int| 0 <= i < j < s.len() ==> !#[trigger] sorts_after(mode, s[i], s[j])
}

/// Where the insertion sort puts `x` among the first `j` entries of `out`:
/// just after the last of them that does not sort after `x`, or at the front.
pub open spec fn insert_position(
    mode: SortMode,
    out: Seq<(AnimeInfo, UserInfo)>,
    x: (AnimeInfo, UserInfo),
    j: int,
) -> int
    decreases j,
{
    if j > 0 && sorts_after(mode, out[j - 1], x) {
        insert_position(mode, out, x, j - 1)
    } else {
        j
    }
}

/// The entries of `s` as the insertion sort leaves them: each in turn put at
/// its `insert_position` among the entries placed before it.
pub open spec fn insertion_sorted(mode: SortMode, s: Seq<(AnimeInfo, UserInfo)>) -> Seq<(AnimeInfo, UserInfo)>
    decreases s.len(),
{
    if s.len() == 0 {
        Seq::empty()
    } else {
        let out = insertion_sorted(mode, s.drop_last());
        out.insert(insert_position(mode, out, s.last(), out.len() as int), s.last())
    }
}

/// How two texts compare, as `text_rank` gives it.
pub fn rank_text(a: &Vec<char>, b: &Vec<char>) -> (r: i8)
    ensures
        r == text_rank(a@, b@),
{
    let mut i: usize = 0;
    assert(a@.skip(0) =~= a@ && b@.skip(0) =~= b@);
    while i < a.len() && i < b.len()
        invariant
            0 <= i <= a.len(),
            i <= b.len(),
            text_rank(a@, b@) == text_rank(a@.skip(i as int), b@.skip(i as int)),
        decreases a.len() - i,
    {
        if a[i] < b[i] {
            return -1;
        }
        if a[i] > b[i] {
            return 1;
        }
        assert(a@.skip(i as int).drop_first() =~= a@.skip(i + 1));
        assert(b@.skip(i as int).drop_first() =~= b@.skip(i + 1));
        i = i + 1;
    }
    if i == a.len() {
        if i == b.len() {
            0
        } else {
            -1
        }
    } else {
        1
    }
}

/// The order of two texts, as `text_order` gives it.
pub fn compare_text(a: &Vec<char>, b: &Vec<char>) -> (r: Ordering)
    ensures
        r == text_order(a@, b@),
{
    let k = rank_text(a, b);
    if k < 0 {
        Ordering::Less
    } else if k > 0 {
        Ordering::Greater
    } else {
        Ordering::Equal
    }
}

/// The order of two titles, as `title_order` gives it.
pub fn order_titles(a: &Option<String>, b: &Option<String>) -> (r: Ordering)
    ensures
        r == title_order(*a, *b),
{
    match a {
        Some(x) => match b {
            Some(y) => {
                let lx = chars_of(lowercase(x.as_str()).as_str());
                let ly = chars_of(lowercase(y.as_str()).as_str());
                compare_text(&lx, &ly)
            },
            None => Ordering::Less,
        },
        None => Ordering::Greater,
    }
}

pub fn compare_numbers(a: i32, b: i32) -> (r: Ordering)
    ensures
        r == number_order(a, b),
{
    if a < b {
        Ordering::Less
    } else if a > b {
        Ordering::Greater
    } else {
        Ordering::Equal
    }
}

pub fn compare_optional_numbers(a: Option<i32>, b: Option<i32>) -> (r: Ordering)
    ensures
        r == optional_number_order(a, b),
{
    match (a, b) {
        (None, None) => Ordering::Equal,
        (None, Some(_)) => Ordering::Less,
        (Some(_), None) => Ordering::Greater,
        (Some(x), Some(y)) => compare_numbers(x, y),
    }
}

pub fn compare_optional_dates(a: Option<Date>, b: Option<Date>) -> (r: Ordering)
    ensures
        r == optional_date_order(a, b),
{
    match (a, b) {
        (None, None) => Ordering::Equal,
        (None, Some(_)) => Ordering::Less,
        (Some(_), None) => Ordering::Greater,
        (Some(x), Some(y)) => order_of_dates(x.year, x.month, x.day, y.year, y.month, y.day),
    }
}

fn english_title(a: &AnimeInfo) -> (r: Option<String>)
    ensures
        r == english_or_romaji(*a),
{
    match &a.title.english {
        Some(t) => Some(t.clone()),
        None => match &a.title.romaji {
            Some(t) => Some(t.clone()),
            None => None,
        },
    }
}

/// How two entries compare in a mode, as `entry_order` gives it.
pub fn compare_entries(mode: SortMode, a: &(AnimeInfo, UserInfo), b: &(AnimeInfo, UserInfo)) -> (r: Ordering)
    ensures
        r == entry_order(mode, *a, *b),
{
    match mode {
        SortMode::AlphabeticalNative => order_titles(&a.0.title.native, &b.0.title.native),
        SortMode::AlphabeticalRomaji => order_titles(&a.0.title.romaji, &b.0.title.romaji),
        SortMode::AlphabeticalEnglish => order_titles(&english_title(&a.0), &english_title(&b.0)),
        SortMode::Score => compare_optional_numbers(a.0.average_score, b.0.average_score),
        SortMode::MyScore => compare_numbers(a.1.score_tenths, b.1.score_tenths),
        SortMode::Date => order_of_dates(
            a.0.start_date.year,
            a.0.start_date.month,
            a.0.start_date.day,
            b.0.start_date.year,
            b.0.start_date.month,
            b.0.start_date.day,
        ),
        SortMode::Popularity => compare_numbers(a.0.popularity, b.0.popularity),
        SortMode::Trending => compare_numbers(a.0.trending, b.0.trending),
        SortMode::Started => compare_optional_dates(a.1.started_at, b.1.started_at),
        SortMode::Completed => compare_optional_dates(a.1.completed_at, b.1.completed_at),
    }
}

/// Whether the entry sorts after `x`.
fn goes_after(mode: SortMode, e: &(AnimeInfo, UserInfo), x: &(AnimeInfo, UserInfo)) -> (r: bool)
    ensures
        r == sorts_after(mode, *e, *x),
{
    match compare_entries(mode, e, x) {
        Ordering::Greater => true,
        _ => false,
    }
}

/// Insertion sort of the entries in a mode.
pub fn sort_entries(mode: SortMode, list: Vec<(AnimeInfo, UserInfo)>) -> (r: Vec<(AnimeInfo, UserInfo)>)
    ensures
        r@ == insertion_sorted(mode, list@),
        r@.to_multiset() == list@.to_multiset(),
        consistent_on(mode, list@) ==> sorted_by(mode, r@),
        exists|perm: Seq<int>| #[trigger] stable_placement(mode, list@, r@, perm),
{
    let ghost whole = list@;
    let ghost n: int = whole.len() as int;
    let mut rest = list;
    let mut out: Vec<(AnimeInfo, UserInfo)> = Vec::new();
    let ghost mut perm: Seq<int> = Seq::empty();
    assert(whole.skip(0) =~= whole);
    assert(whole.take(0) =~= Seq::<(AnimeInfo, UserInfo)>::empty());
    while rest.len() > 0
        invariant
            whole.len() == n,
            out@ == insertion_sorted(mode, whole.take(n - rest@.len())),
            rest@.len() <= n,
            rest@ == whole.skip(n - rest@.len()),
            out@.to_multiset().add(rest@.to_multiset()) == whole.to_multiset(),
            consistent_on(mode, whole) ==> sorted_by(mode, out@),
            stable_placement(mode, whole, out@, perm),
            forall|k: int| 0 <= k < out@.len() ==> #[trigger] perm[k] < n - rest@.len(),
        decreases rest.len(),
    {
        let ghost rest_before = rest@;
        let ghost c: int = n - rest@.len();
        let x = rest.remove(0);
        assert(rest_before.remove(0) == rest@);
        assert(x == whole[c]);
        assert(rest@ =~= whole.skip(c + 1));
        let mut j: usize = out.len();
        while j > 0 && goes_after(mode, &out[j - 1], &x)
            invariant
                0 <= j <= out.len(),
                insert_position(mode, out@, x, j as int) == insert_position(mode, out@, x, out@.len() as int),
                forall|k: int| j <= k < out.len() ==> #[trigger] sorts_after(mode, out@[k], x),
            decreases j,
        {
            j = j - 1;
        }
        let ghost out_before = out@;
        proof {
            assert(j == insert_position(mode, out_before, x, out_before.len() as int));
            assert(whole.take(c + 1).drop_last() =~= whole.take(c));
            assert(whole.take(c + 1).last() == x);
            assert(whole.contains(x)) by {
                vstd::seq_lib::to_multiset_contains(whole, x);
                assert(rest_before.to_multiset().count(x) > 0) by {
                    vstd::seq_lib::to_multiset_contains(rest_before, x);
                    assert(rest_before[0] == x);
                }
            }
            assert forall|k: int| 0 <= k < out_before.len() implies whole.contains(
                #[trigger] out_before[k],
            ) by {
                vstd::seq_lib::to_multiset_contains(out_before, out_before[k]);
                vstd::seq_lib::to_multiset_contains(whole, out_before[k]);
            }
        }
        out.insert(j, x);
        proof {
            assert(out@ == out_before.insert(j as int, x));
            if consistent_on(mode, whole) {
                lemma_insert_keeps_sorted(mode, whole, out_before, j as int, x);
            }
            let perm_before = perm;
            perm = perm.insert(j as int, c);
            assert forall|k: int| 0 <= k < out@.len() implies 0 <= #[trigger] perm[k] < whole.len()
                && out@[k] == whole[perm[k]] && perm[k] < c + 1 by {
                if k < j {
                    assert(perm[k] == perm_before[k] && out@[k] == out_before[k]);
                } else if k > j {
                    assert(perm[k] == perm_before[k - 1] && out@[k] == out_before[k - 1]);
                }
            }
            assert forall|k1: int, k2: int|
                0 <= k1 < out@.len() && 0 <= k2 < out@.len() && k1 != k2 implies perm[k1] != perm[k2] by {
                let a = if k1 < j { k1 } else { k1 - 1 };
                let b = if k2 < j { k2 } else { k2 - 1 };
                if k1 != j && k2 != j {
                    assert(perm[k1] == perm_before[a] && perm[k2] == perm_before[b]);
                } else if k1 == j {
                    assert(perm[k2] == perm_before[b]);
                } else {
                    assert(perm[k1] == perm_before[a]);
                }
            }
            if consistent_on(mode, whole) {
                assert forall|k1: int, k2: int|
                    0 <= k1 < k2 < out@.len() && #[trigger] ties(mode, out@[k1], out@[k2]) implies perm[k1]
                    < perm[k2] by {
                    if k1 < j && k2 < j {
                        assert(out@[k1] == out_before[k1] && out@[k2] == out_before[k2]);
                    } else if k1 > j {
                        assert(out@[k1] == out_before[k1 - 1] && out@[k2] == out_before[k2 - 1]);
                        assert(ties(mode, out_before[k1 - 1], out_before[k2 - 1]));
                    } else if k1 < j && k2 > j {
                        assert(out@[k1] == out_before[k1] && out@[k2] == out_before[k2 - 1]);
                        assert(ties(mode, out_before[k1], out_before[k2 - 1]));
                    } else if k1 < j && k2 == j {
                        assert(perm[k1] == perm_before[k1]);
                    } else {
                        assert(out@[k2] == out_before[k2 - 1]);
                        assert(sorts_after(mode, out_before[k2 - 1], x));
                        assert(whole.contains(out_before[k2 - 1]));
                        assert(sorts_before(mode, x, out_before[k2 - 1]));
                    }
                }
            }
            assert(stable_placement(mode, whole, out@, perm));
        }
    }
    assert(stable_placement(mode, whole, out@, perm));
    assert(whole.take(n) =~= whole);
    out
}

/// Putting `x` after every entry that does not sort after it, and before those
/// that do, keeps a sorted sequence sorted when the order is consistent on the
/// entries involved.
proof fn lemma_insert_keeps_sorted(
    mode: SortMode,
    whole: Seq<(AnimeInfo, UserInfo)>,
    s: Seq<(AnimeInfo, UserInfo)>,
    j: int,
    x: (AnimeInfo, UserInfo),
)
    requires
        consistent_on(mode, whole),
        whole.contains(x),
        forall|k: int| 0 <= k < s.len() ==> whole.contains(#[trigger] s[k]),
        sorted_by(mode, s),
        0 <= j <= s.len(),
        j > 0 ==> !sorts_after(mode, s[j - 1], x),
        forall|k: int| j <= k < s.len() ==> #[trigger] sorts_after(mode, s[k], x),
    ensures
        sorted_by(mode, s.insert(j, x)),
{
    let t = s.insert(j, x);
    assert forall|a: int, b: int| 0 <= a < b < t.len() implies !#[trigger] sorts_after(
        mode,
        t[a],
        t[b],
    ) by {
        if a < j && b < j {
            assert(t[a] == s[a] && t[b] == s[b]);
        } else if a > j && b > j {
            assert(t[a] == s[a - 1] && t[b] == s[b - 1]);
        } else if a < j && b == j {
            assert(t[a] == s[a] && t[b] == x);
            if a < j - 1 {
                assert(!sorts_after(mode, s[a], s[j - 1]));
                assert(whole.contains(s[a]) && whole.contains(s[j - 1]));
            }
        } else if a == j && b > j {
            assert(t[a] == x && t[b] == s[b - 1]);
            assert(sorts_after(mode, s[b - 1], x));
            assert(whole.contains(s[b - 1]));
        } else {
            assert(t[a] == s[a] && t[b] == s[b - 1]);
        }
    }
}

/// Sorting by a number (the average score, the user's score, popularity,
/// trending) always orders the entries consistently, so the list comes out
/// sorted whatever it holds.
pub proof fn law_number_modes_consistent(mode: SortMode, s: Seq<(AnimeInfo, UserInfo)>)
    requires
        mode == SortMode::Score || mode == SortMode::MyScore || mode == SortMode::Popularity || mode
            == SortMode::Trending,
    ensures
        consistent_on(mode, s),
{
}

/// In the number modes each entry is placed by one number: the user's own
/// score (`MyScore`), the anime's popularity or its trending, and the anime's
/// average score (`Score`), where an anime without one comes first.  Two
/// entries compare exactly as those numbers do, whatever else they hold.
pub proof fn law_number_modes_compare_their_numbers(a: (AnimeInfo, UserInfo), b: (AnimeInfo, UserInfo))
    ensures
        sorts_before(SortMode::MyScore, a, b) <==> a.1.score_tenths < b.1.score_tenths,
        sorts_after(SortMode::MyScore, a, b) <==> a.1.score_tenths > b.1.score_tenths,
        ties(SortMode::MyScore, a, b) <==> a.1.score_tenths == b.1.score_tenths,
        sorts_before(SortMode::Popularity, a, b) <==> a.0.popularity < b.0.popularity,
        sorts_after(SortMode::Popularity, a, b) <==> a.0.popularity > b.0.popularity,
        ties(SortMode::Popularity, a, b) <==> a.0.popularity == b.0.popularity,
        sorts_before(SortMode::Trending, a, b) <==> a.0.trending < b.0.trending,
        sorts_after(SortMode::Trending, a, b) <==> a.0.trending > b.0.trending,
        ties(SortMode::Trending, a, b) <==> a.0.trending == b.0.trending,
        sorts_before(SortMode::Score, a, b) <==> match (a.0.average_score, b.0.average_score) {
            (None, Some(_)) => true,
            (Some(x), Some(y)) => x < y,
            _ => false,
        },
        sorts_after(SortMode::Score, a, b) <==> sorts_before(SortMode::Score, b, a),
        ties(SortMode::Score, a, b) <==> a.0.average_score == b.0.average_score,
{
}

/// In a list sorted in a number mode the numbers never go down: the user's
/// scores in `MyScore`, popularity and trending in theirs, and in `Score` the
/// anime without an average score first, then the averages never going down.
pub proof fn law_sorted_number_modes_rise(mode: SortMode, s: Seq<(AnimeInfo, UserInfo)>, i: int, j: int)
    requires
        sorted_by(mode, s),
        0 <= i < j < s.len(),
    ensures
        mode == SortMode::MyScore ==> s[i].1.score_tenths <= s[j].1.score_tenths,
        mode == SortMode::Popularity ==> s[i].0.popularity <= s[j].0.popularity,
        mode == SortMode::Trending ==> s[i].0.trending <= s[j].0.trending,
        mode == SortMode::Score ==> match (s[i].0.average_score, s[j].0.average_score) {
            (Some(_), None) => false,
            (Some(x), Some(y)) => x <= y,
            _ => true,
        },
{
    assert(!sorts_after(mode, s[i], s[j]));
}

/// The date modes compare one date of each entry: the anime's start of airing
/// (`Date`), or when the user started (`Started`) or completed (`Completed`)
/// it, where an entry without that date comes first.
pub proof fn law_date_modes_compare_their_dates(a: (AnimeInfo, UserInfo), b: (AnimeInfo, UserInfo))
    ensures
        sorts_before(SortMode::Date, a, b) <==> date_order(
            a.0.start_date.year,
            a.0.start_date.month,
            a.0.start_date.day,
            b.0.start_date.year,
            b.0.start_date.month,
            b.0.start_date.day,
        ) == Ordering::Less,
        ties(SortMode::Date, a, b) <==> date_order(
            a.0.start_date.year,
            a.0.start_date.month,
            a.0.start_date.day,
            b.0.start_date.year,
            b.0.start_date.month,
            b.0.start_date.day,
        ) == Ordering::Equal,
        sorts_before(SortMode::Started, a, b) <==> match (a.1.started_at, b.1.started_at) {
            (None, Some(_)) => true,
            (Some(x), Some(y)) => date_order(x.year, x.month, x.day, y.year, y.month, y.day) == Ordering::Less,
            _ => false,
        },
        ties(SortMode::Started, a, b) <==> match (a.1.started_at, b.1.started_at) {
            (None, None) => true,
            (Some(x), Some(y)) => date_order(x.year, x.month, x.day, y.year, y.month, y.day) == Ordering::Equal,
            _ => false,
        },
        sorts_before(SortMode::Completed, a, b) <==> match (a.1.completed_at, b.1.completed_at) {
            (None, Some(_)) => true,
            (Some(x), Some(y)) => date_order(x.year, x.month, x.day, y.year, y.month, y.day) == Ordering::Less,
            _ => false,
        },
        ties(SortMode::Completed, a, b) <==> match (a.1.completed_at, b.1.completed_at) {
            (None, None) => true,
            (Some(x), Some(y)) => date_order(x.year, x.month, x.day, y.year, y.month, y.day) == Ordering::Equal,
            _ => false,
        },
{
}

/// The title modes compare the lower-case titles character by character (see
/// `law_text_rank_lexicographic`): the native title, the romaji one, or the
/// English one falling back on the romaji one.  An entry without the title
/// sorts after every entry, and never before one.
pub proof fn law_title_modes_compare_lower_case_titles(a: (AnimeInfo, UserInfo), b: (AnimeInfo, UserInfo))
    ensures
        sorts_before(SortMode::AlphabeticalNative, a, b) <==> match (a.0.title.native, b.0.title.native) {
            (Some(x), Some(y)) => text_rank(unicode_lowercase(x@), unicode_lowercase(y@)) < 0,
            (Some(_), None) => true,
            _ => false,
        },
        sorts_before(SortMode::AlphabeticalRomaji, a, b) <==> match (a.0.title.romaji, b.0.title.romaji) {
            (Some(x), Some(y)) => text_rank(unicode_lowercase(x@), unicode_lowercase(y@)) < 0,
            (Some(_), None) => true,
            _ => false,
        },
        sorts_before(SortMode::AlphabeticalEnglish, a, b) <==> match (english_or_romaji(a.0), english_or_romaji(b.0)) {
            (Some(x), Some(y)) => text_rank(unicode_lowercase(x@), unicode_lowercase(y@)) < 0,
            (Some(_), None) => true,
            _ => false,
        },
        ties(SortMode::AlphabeticalRomaji, a, b) <==> match (a.0.title.romaji, b.0.title.romaji) {
            (Some(x), Some(y)) => unicode_lowercase(x@) == unicode_lowercase(y@),
            _ => false,
        },
        english_or_romaji(a.0) == (if a.0.title.english is Some { a.0.title.english } else { a.0.title.romaji }),
{
    match (a.0.title.romaji, b.0.title.romaji) {
        (Some(x), Some(y)) => {
            law_text_rank_lexicographic(unicode_lowercase(x@), unicode_lowercase(y@));
        },
        _ => {},
    }
}

/// Texts compare character by character: `a` comes first exactly when it is
/// a proper prefix of `b` or, at the first place they differ, its character
/// is the smaller; they rank equal exactly when they are the same text.
pub proof fn law_text_rank_lexicographic(a: Seq<char>, b: Seq<char>)
    ensures
        text_rank(a, b) == 0 <==> a == b,
        text_rank(a, b) < 0 <==> ((a.len() < b.len() && b.take(a.len() as int) == a) || exists|k: int|
            0 <= k < a.len() && k < b.len() && a.take(k) == b.take(k) && #[trigger] a[k] < b[k]),
    decreases a.len(),
{
    if a.len() > 0 && b.len() > 0 {
        law_text_rank_lexicographic(a.drop_first(), b.drop_first());
        let (a1, b1) = (a.drop_first(), b.drop_first());
        if a[0] == b[0] {
            if a1 == b1 {
                assert(a =~= seq![a[0]] + a1);
                assert(b =~= seq![b[0]] + b1);
            }
            if a == b {
                assert(a1 =~= b1);
            }
            if text_rank(a1, b1) < 0 {
                if a1.len() < b1.len() && b1.take(a1.len() as int) == a1 {
                    assert(b.take(a.len() as int) =~= a) by {
                        assert forall|i: int| 0 <= i < a.len() implies b.take(a.len() as int)[i] == a[i] by {
                            if i > 0 {
                                assert(b1.take(a1.len() as int)[i - 1] == a1[i - 1]);
                            }
                        }
                    }
                } else {
                    let k = choose|k: int|
                        0 <= k < a1.len() && k < b1.len() && a1.take(k) == b1.take(k) && #[trigger] a1[k] < b1[k];
                    assert(a.take(k + 1) =~= b.take(k + 1)) by {
                        assert forall|i: int| 0 <= i < k + 1 implies #[trigger] a.take(k + 1)[i] == b.take(k + 1)[i] by {
                            if i > 0 {
                                assert(a1.take(k)[i - 1] == b1.take(k)[i - 1]);
                            }
                        }
                    }
                    assert(a[k + 1] < b[k + 1]);
                }
            }
            if (a.len() < b.len() && b.take(a.len() as int) == a) {
                assert(b1.take(a1.len() as int) =~= a1) by {
                    assert forall|i: int| 0 <= i < a1.len() implies b1.take(a1.len() as int)[i] == a1[i] by {
                        assert(b.take(a.len() as int)[i + 1] == a[i + 1]);
                    }
                }
            }
            if exists|k: int| 0 <= k < a.len() && k < b.len() && a.take(k) == b.take(k) && #[trigger] a[k] < b[k] {
                let k = choose|k: int| 0 <= k < a.len() && k < b.len() && a.take(k) == b.take(k) && #[trigger] a[k] < b[k];
                assert(k > 0);
                assert(a1.take(k - 1) =~= b1.take(k - 1)) by {
                    assert forall|i: int| 0 <= i < k - 1 implies #[trigger] a1.take(k - 1)[i] == b1.take(k - 1)[i] by {
                        assert(a.take(k)[i + 1] == b.take(k)[i + 1]);
                    }
                }
                assert(a1[k - 1] < b1[k - 1]);
            }
        } else {
            if a[0] < b[0] {
                assert(a.take(0) =~= b.take(0));
                assert(a[0] < b[0]);
            } else {
                if exists|k: int| 0 <= k < a.len() && k < b.len() && a.take(k) == b.take(k) && #[trigger] a[k] < b[k] {
                    let k = choose|k: int| 0 <= k < a.len() && k < b.len() && a.take(k) == b.take(k) && #[trigger] a[k] < b[k];
                    if k > 0 {
                        assert(a.take(k)[0] == b.take(k)[0]);
                    }
                }
                if a.len() < b.len() && b.take(a.len() as int) == a {
                    assert(b.take(a.len() as int)[0] == a[0]);
                }
            }
        }
    } else if a.len() == 0 && b.len() > 0 {
        assert(b.take(0) =~= a);
    } else if a.len() == 0 && b.len() == 0 {
        assert(a =~= b);
    }
}

/// How two texts compare seen from the other side.
proof fn lemma_text_rank_flips(a: Seq<char>, b: Seq<char>)
    ensures
        text_rank(a, b) == -text_rank(b, a),
        -1 <= text_rank(a, b) <= 1,
    decreases a.len(),
{
    if a.len() > 0 && b.len() > 0 && a[0] == b[0] {
        lemma_text_rank_flips(a.drop_first(), b.drop_first());
    }
}

/// "Comes no later" among texts is transitive.
proof fn lemma_text_rank_transitive(a: Seq<char>, b: Seq<char>, c: Seq<char>)
    requires
        text_rank(a, b) <= 0,
        text_rank(b, c) <= 0,
    ensures
        text_rank(a, c) <= 0,
    decreases a.len(),
{
    if a.len() > 0 && b.len() > 0 && c.len() > 0 && a[0] == b[0] && b[0] == c[0] {
        lemma_text_rank_transitive(a.drop_first(), b.drop_first(), c.drop_first());
    }
}

/// Sorting by a title orders the entries consistently when every entry has
/// that title (the English mode falls back on the romaji one).
pub proof fn law_title_modes_consistent(mode: SortMode, s: Seq<(AnimeInfo, UserInfo)>)
    requires
        mode == SortMode::AlphabeticalNative ==> forall|i: int| 0 <= i < s.len() ==> (#[trigger] s[i]).0.title.native is Some,
        mode == SortMode::AlphabeticalRomaji ==> forall|i: int| 0 <= i < s.len() ==> (#[trigger] s[i]).0.title.romaji is Some,
        mode == SortMode::AlphabeticalEnglish ==> forall|i: int| 0 <= i < s.len() ==> english_or_romaji((#[trigger] s[i]).0) is Some,
        mode == SortMode::AlphabeticalNative || mode == SortMode::AlphabeticalRomaji || mode
            == SortMode::AlphabeticalEnglish,
    ensures
        consistent_on(mode, s),
{
    assert forall|a: (AnimeInfo, UserInfo), b: (AnimeInfo, UserInfo), c: (AnimeInfo, UserInfo)|
        #![trigger sorts_after(mode, a, b), sorts_after(mode, b, c)]
        s.contains(a) && s.contains(b) && s.contains(c) && !sorts_after(mode, a, b)
            && !sorts_after(mode, b, c) implies !sorts_after(mode, a, c) by {
        let ia = choose|i: int| 0 <= i < s.len() && s[i] == a;
        let ib = choose|i: int| 0 <= i < s.len() && s[i] == b;
        let ic = choose|i: int| 0 <= i < s.len() && s[i] == c;
        let (ta, tb, tc) = title_texts(mode, s[ia], s[ib], s[ic]);
        lemma_text_rank_flips(ta, tb);
        lemma_text_rank_flips(tb, tc);
        lemma_text_rank_flips(ta, tc);
        lemma_text_rank_transitive(ta, tb, tc);
    }
    assert forall|a: (AnimeInfo, UserInfo), b: (AnimeInfo, UserInfo)|
        #![trigger sorts_after(mode, a, b)]
        s.contains(a) && s.contains(b) && sorts_after(mode, a, b) implies sorts_before(mode, b, a) by {
        let ia = choose|i: int| 0 <= i < s.len() && s[i] == a;
        let ib = choose|i: int| 0 <= i < s.len() && s[i] == b;
        let (ta, tb, _tc) = title_texts(mode, s[ia], s[ib], s[ib]);
        lemma_text_rank_flips(ta, tb);
    }
}

/// The lower-case titles the mode compares, for entries that have them.
proof fn title_texts(
    mode: SortMode,
    a: (AnimeInfo, UserInfo),
    b: (AnimeInfo, UserInfo),
    c: (AnimeInfo, UserInfo),
) -> (r: (Seq<char>, Seq<char>, Seq<char>))
    requires
        mode == SortMode::AlphabeticalNative ==> a.0.title.native is Some && b.0.title.native is Some
            && c.0.title.native is Some,
        mode == SortMode::AlphabeticalRomaji ==> a.0.title.romaji is Some && b.0.title.romaji is Some
            && c.0.title.romaji is Some,
        mode == SortMode::AlphabeticalEnglish ==> english_or_romaji(a.0) is Some && english_or_romaji(
            b.0,
        ) is Some && english_or_romaji(c.0) is Some,
        mode == SortMode::AlphabeticalNative || mode == SortMode::AlphabeticalRomaji || mode
            == SortMode::AlphabeticalEnglish,
    ensures
        entry_order(mode, a, b) == order_of_rank(text_rank(r.0, r.1)),
        entry_order(mode, b, c) == order_of_rank(text_rank(r.1, r.2)),
        entry_order(mode, a, c) == order_of_rank(text_rank(r.0, r.2)),
        entry_order(mode, b, a) == order_of_rank(text_rank(r.1, r.0)),
{
    let pick = |x: (AnimeInfo, UserInfo)|
        if mode == SortMode::AlphabeticalNative {
            x.0.title.native
        } else if mode == SortMode::AlphabeticalRomaji {
            x.0.title.romaji
        } else {
            english_or_romaji(x.0)
        };
    (
        unicode_lowercase(pick(a)->0@),
        unicode_lowercase(pick(b)->0@),
        unicode_lowercase(pick(c)->0@),
    )
}

/// The date the mode compares, where there is one.
pub open spec fn compared_date(mode: SortMode, e: (AnimeInfo, UserInfo)) -> Option<(Option<i32>, Option<i32>, Option<i32>)> {
    if mode == SortMode::Date {
        Some((e.0.start_date.year, e.0.start_date.month, e.0.start_date.day))
    } else if mode == SortMode::Started {
        match e.1.started_at {
            Some(d) => Some((d.year, d.month, d.day)),
            None => None,
        }
    } else {
        match e.1.completed_at {
            Some(d) => Some((d.year, d.month, d.day)),
            None => None,
        }
    }
}

/// Sorting by a date (the start of airing, or when the user started or
/// completed the anime) orders the entries consistently when swapping any two
/// of their dates flips the order (see `dates::order_flips`), as it does for
/// dates whose years differ or that know the same of their month and day.
pub proof fn law_date_modes_consistent(mode: SortMode, s: Seq<(AnimeInfo, UserInfo)>)
    requires
        mode == SortMode::Date || mode == SortMode::Started || mode == SortMode::Completed,
        forall|i: int, j: int|
            0 <= i < s.len() && 0 <= j < s.len() ==> match (#[trigger] compared_date(mode, s[i]), #[trigger] compared_date(mode, s[j])) {
                (Some(x), Some(y)) => order_flips(x.0, x.1, x.2, y.0, y.1, y.2),
                _ => true,
            },
    ensures
        consistent_on(mode, s),
{
    assert forall|a: (AnimeInfo, UserInfo), b: (AnimeInfo, UserInfo), c: (AnimeInfo, UserInfo)|
        #![trigger sorts_after(mode, a, b), sorts_after(mode, b, c)]
        s.contains(a) && s.contains(b) && s.contains(c) && !sorts_after(mode, a, b)
            && !sorts_after(mode, b, c) implies !sorts_after(mode, a, c) by {
        let ia = choose|i: int| 0 <= i < s.len() && s[i] == a;
        let ib = choose|i: int| 0 <= i < s.len() && s[i] == b;
        let ic = choose|i: int| 0 <= i < s.len() && s[i] == c;
        let da = compared_date(mode, s[ia]);
        let db = compared_date(mode, s[ib]);
        let dc = compared_date(mode, s[ic]);
        if da is Some && db is Some && dc is Some {
            law_date_order_transitive(da->0, db->0, dc->0);
        }
    }
    assert forall|a: (AnimeInfo, UserInfo), b: (AnimeInfo, UserInfo)|
        #![trigger sorts_after(mode, a, b)]
        s.contains(a) && s.contains(b) && sorts_after(mode, a, b) implies sorts_before(mode, b, a) by {
        let ia = choose|i: int| 0 <= i < s.len() && s[i] == a;
        let ib = choose|i: int| 0 <= i < s.len() && s[i] == b;
        let da = compared_date(mode, s[ia]);
        let db = compared_date(mode, s[ib]);
        if da is Some && db is Some {
            let x = da->0;
            let y = db->0;
            law_date_order_antisymmetric(x.0, x.1, x.2, y.0, y.1, y.2);
        }
    }
}

impl AnimeData {
    /// Sorts the user's list in the mode the setting names; a missing or
    /// unknown setting leaves the list as it is.
    pub fn sort_list(&self, anime_list: &mut Vec<(AnimeInfo, UserInfo)>, sorting: Option<String>)
        ensures
            final(anime_list)@.to_multiset() == old(anime_list)@.to_multiset(),
            match sorting {
                Some(name) => match mode_named(name@) {
                    Some(mode) => final(anime_list)@ == insertion_sorted(mode, old(anime_list)@) && (consistent_on(mode, old(anime_list)@) ==> sorted_by(
                        mode,
                        final(anime_list)@,
                    )) && exists|perm: Seq<int>|
                        #[trigger] stable_placement(mode, old(anime_list)@, final(anime_list)@, perm),
                    None => final(anime_list)@ == old(anime_list)@,
                },
                None => final(anime_list)@ == old(anime_list)@,
            },
            sorting matches Some(name) && mode_named(name@) == Some(SortMode::MyScore) ==> forall|i: int, j: int|
                0 <= i < j < final(anime_list)@.len() ==> #[trigger] final(anime_list)@[i].1.score_tenths
                    <= #[trigger] final(anime_list)@[j].1.score_tenths,
            sorting matches Some(name) && mode_named(name@) == Some(SortMode::Popularity) ==> forall|i: int, j: int|
                0 <= i < j < final(anime_list)@.len() ==> #[trigger] final(anime_list)@[i].0.popularity
                    <= #[trigger] final(anime_list)@[j].0.popularity,
            sorting matches Some(name) && mode_named(name@) == Some(SortMode::Trending) ==> forall|i: int, j: int|
                0 <= i < j < final(anime_list)@.len() ==> #[trigger] final(anime_list)@[i].0.trending
                    <= #[trigger] final(anime_list)@[j].0.trending,
    {
        if let Some(name) = sorting {
            if let Some(mode) = sort_mode(name.as_str()) {
                let mut taken: Vec<(AnimeInfo, UserInfo)> = Vec::new();
                std::mem::swap(&mut taken, anime_list);
                let ghost before = taken@;
                let sorted = sort_entries(mode, taken);
                proof {
                    law_number_modes_consistent(SortMode::MyScore, before);
                    law_number_modes_consistent(SortMode::Popularity, before);
                    law_number_modes_consistent(SortMode::Trending, before);
                    assert forall|i: int, j: int| 0 <= i < j < sorted@.len() implies (mode == SortMode::MyScore
                        ==> sorted@[i].1.score_tenths <= sorted@[j].1.score_tenths) && (mode == SortMode::Popularity
                        ==> sorted@[i].0.popularity <= sorted@[j].0.popularity) && (mode == SortMode::Trending
                        ==> sorted@[i].0.trending <= sorted@[j].0.trending) by {
                        if mode == SortMode::MyScore || mode == SortMode::Popularity || mode == SortMode::Trending {
                            law_sorted_number_modes_rise(mode, sorted@, i, j);
                        }
                    }
                }
                *anime_list = sorted;
            }
        }
    }
}

} // verus!
