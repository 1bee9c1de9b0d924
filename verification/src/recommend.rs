//! Recommending anime from the user's completed list.
//!
//! A user's score turns into a modifier, so that anime the user liked weigh
//! more than those the user disliked.  Scores are kept in tenths of a point and
//! a modifier is a whole number over the score format's scale: a score of 80 on
//! the hundred-point scale is `800 / 500`, that is 1.6.  All the modifiers of
//! one call share the scale, so ratings compare exactly.

use vstd::prelude::*;
use std::collections::{HashMap, HashSet};
use crate::anime_data::{AnimeData, AnimeInfo, Edge, RecNode, RecommendTally};
use crate::maps::keys_of;
use crate::text::str_eq;

verus! {

broadcast use {vstd::std_specs::hash::group_hash_axioms, vstd::seq_lib::group_to_multiset_ensures};

/// The format names a scale.
pub open spec fn format_is(format: Option<String>, name: Seq<char>) -> bool {
    format matches Some(f) && f@ == name
}

/// The scale of the modifiers in a score format.
pub open spec fn rating_scale(format: Option<String>) -> int {
    if format_is(format, "POINT_100"@) {
        500
    } else if format_is(format, "POINT_10_DECIMAL"@) || format_is(format, "POINT_10"@) {
        50
    } else if format_is(format, "POINT_5"@) {
        25
    } else if format_is(format, "POINT_3"@) {
        10
    } else {
        1
    }
}

/// The modifier of a score (in tenths), over `rating_scale(format)`: one
/// whole for an anime without a score or a format the program does not know;
/// the score over fifty on the hundred-point scale, over five on the ten-point
/// scales, over two and a half on the five-point scale, and less one on the
/// three-point scale.
pub open spec fn rating_modifier(score: i32, format: Option<String>) -> int {
    if score == 0 {
        rating_scale(format)
    } else if format_is(format, "POINT_100"@) || format_is(format, "POINT_10_DECIMAL"@)
        || format_is(format, "POINT_10"@) || format_is(format, "POINT_5"@) {
        score as int
    } else if format_is(format, "POINT_3"@) {
        score - 10
    } else {
        1
    }
}

/// A modifier over `rating_scale(format)` is the score's weight as a
/// fraction: a score in tenths `s` weighs `s / 10 / 50` on the hundred-point
/// scale, `s / 10 / 5` on the ten-point scales, `s / 10 / 2.5` on the
/// five-point scale and `s / 10 - 1` on the three-point scale; no score, or a
/// format not among these, weighs one.
pub proof fn law_rating_modifier_weighs_the_score(s: i32, format: Option<String>)
    ensures
        s == 0 ==> rating_modifier(s, format) == rating_scale(format),
        s != 0 && format_is(format, "POINT_100"@) ==> rating_modifier(s, format) * 500 == s * rating_scale(format),
        s != 0 && (format_is(format, "POINT_10_DECIMAL"@) || format_is(format, "POINT_10"@))
            ==> rating_modifier(s, format) * 50 == s * rating_scale(format),
        s != 0 && format_is(format, "POINT_5"@) ==> rating_modifier(s, format) * 25 == s * rating_scale(format),
        s != 0 && format_is(format, "POINT_3"@) ==> rating_modifier(s, format) * 10 == (s - 10) * rating_scale(
            format,
        ),
        !(format_is(format, "POINT_100"@) || format_is(format, "POINT_10_DECIMAL"@) || format_is(
            format,
            "POINT_10"@,
        ) || format_is(format, "POINT_5"@) || format_is(format, "POINT_3"@)) ==> rating_modifier(s, format)
            == 1 && rating_scale(format) == 1,
{
    reveal_strlit("POINT_100");
    reveal_strlit("POINT_10_DECIMAL");
    reveal_strlit("POINT_10");
    reveal_strlit("POINT_5");
    reveal_strlit("POINT_3");
    assert("POINT_100"@.len() == 9 && "POINT_10"@.len() == 8 && "POINT_10_DECIMAL"@.len() == 16);
    assert("POINT_5"@.len() == 7 && "POINT_3"@.len() == 7);
    assert("POINT_100"@ != "POINT_10_DECIMAL"@ && "POINT_100"@ != "POINT_10"@);
    assert("POINT_100"@ != "POINT_5"@ && "POINT_100"@ != "POINT_3"@);
    assert("POINT_10_DECIMAL"@ != "POINT_10"@ && "POINT_10_DECIMAL"@ != "POINT_5"@);
    assert("POINT_10_DECIMAL"@ != "POINT_3"@ && "POINT_10"@ != "POINT_5"@ && "POINT_10"@ != "POINT_3"@);
    assert("POINT_5"@ != "POINT_3"@) by {
        assert("POINT_5"@[6] != "POINT_3"@[6]);
    }
}

fn format_named(format: &Option<String>, name: &str) -> (r: bool)
    ensures
        r == format_is(*format, name@),
{
    match format {
        Some(f) => str_eq(f.as_str(), name),
        None => false,
    }
}

/// The scale of the modifiers, as `rating_scale` gives it.
pub fn rating_scale_of(format: &Option<String>) -> (r: i64)
    ensures
        r == rating_scale(*format),
{
    if format_named(format, "POINT_100") {
        500
    } else if format_named(format, "POINT_10_DECIMAL") || format_named(format, "POINT_10") {
        50
    } else if format_named(format, "POINT_5") {
        25
    } else if format_named(format, "POINT_3") {
        10
    } else {
        1
    }
}

/// The recommendations an anime of the store has, or none.
pub open spec fn anime_recommendations(data: Map<i32, AnimeInfo>, a: i32) -> Seq<RecNode> {
    if data.contains_key(a) {
        match data[a].recommendations {
            Some(r) => r.nodes@,
            None => Seq::empty(),
        }
    } else {
        Seq::empty()
    }
}

/// The node recommends the anime `id`.
pub open spec fn node_recommends(n: RecNode, id: i32) -> bool {
    n.media_recommendation matches Some(m) && m.id == id
}

/// What a node adds to the rating of `id`.
pub open spec fn node_share(n: RecNode, id: i32, modifier: int) -> int {
    if node_recommends(n, id) {
        n.rating * modifier
    } else {
        0
    }
}

/// What the nodes add to the rating of `id`.
pub open spec fn nodes_share(nodes: Seq<RecNode>, id: i32, modifier: int) -> int
    decreases nodes.len(),
{
    if nodes.len() == 0 {
        0
    } else {
        nodes_share(nodes.drop_last(), id, modifier) + node_share(nodes.last(), id, modifier)
    }
}

/// Some node recommends `id`.
pub open spec fn recommends_in(nodes: Seq<RecNode>, id: i32) -> bool
    decreases nodes.len(),
{
    nodes.len() > 0 && (recommends_in(nodes.drop_last(), id) || node_recommends(nodes.last(), id))
}

/// Some anime of `ks` recommends `id`.
pub open spec fn recommended_among(data: Map<i32, AnimeInfo>, ks: Seq<i32>, id: i32) -> bool
    decreases ks.len(),
{
    ks.len() > 0 && (recommended_among(data, ks.drop_last(), id) || recommends_in(
        anime_recommendations(data, ks.last()),
        id,
    ))
}

/// The rating of `id`: the sum, over the anime of `ks`, of every rating of a
/// recommendation of `id` times the modifier of the user's score of that anime.
pub open spec fn tally_over(
    data: Map<i32, AnimeInfo>,
    scores: Map<i32, i32>,
    format: Option<String>,
    ks: Seq<i32>,
    id: i32,
) -> int
    decreases ks.len(),
{
    if ks.len() == 0 {
        0
    } else {
        tally_over(data, scores, format, ks.drop_last(), id) + nodes_share(
            anime_recommendations(data, ks.last()),
            id,
            rating_modifier(scores[ks.last()], format),
        )
    }
}

/// No two entries have the same anime.
pub open spec fn distinct_ids(s: Seq<RecommendTally>) -> bool {
    forall|i: int, j: int| 0 <= i < s.len() && 0 <= j < s.len() && i != j ==> s[i].id != s[j].id
}

/// Highest rating first.
pub open spec fn rated_descending(s: Seq<RecommendTally>) -> bool {
    forall|i: int, j: int| 0 <= i < j < s.len() ==> s[i].rating >= s[j].rating
}

/// Some entry is about the anime `id`.
pub open spec fn lists_id(s: Seq<RecommendTally>, id: i32) -> bool {
    exists|i: int| 0 <= i < s.len() && s[i].id == id
}

/// `r` is the tally of the recommendations of the completed anime `ks`: each
/// anime recommended by one of them and not on the user's lists, once, with
/// its rating, highest first, at most a thousand of them; any left out rate
/// no higher than every one kept.
pub open spec fn tally_result(
    data: Map<i32, AnimeInfo>,
    scores: Map<i32, i32>,
    user_anime: Set<i32>,
    format: Option<String>,
    ks: Seq<i32>,
    r: Seq<RecommendTally>,
) -> bool {
    &&& forall|i: int|
        0 <= i < r.len() ==> recommended_among(data, ks, #[trigger] r[i].id) && !user_anime.contains(
            r[i].id,
        ) && r[i].rating == tally_over(data, scores, format, ks, r[i].id)
    &&& distinct_ids(r)
    &&& rated_descending(r)
    &&& r.len() <= 1000
    &&& forall|id: i32|
        recommended_among(data, ks, id) && !user_anime.contains(id) && !#[trigger] lists_id(r, id)
            ==> r.len() == 1000 && forall|i: int|
            0 <= i < r.len() ==> r[i].rating >= tally_over(data, scores, format, ks, id)
}

/// `r` is the tally of the recommendations of the completed anime, walked in
/// some order.
pub open spec fn is_tally(
    data: Map<i32, AnimeInfo>,
    scores: Map<i32, i32>,
    user_anime: Set<i32>,
    format: Option<String>,
    r: Seq<RecommendTally>,
) -> bool {
    exists|ks: Seq<i32>|
        ks.to_set() == scores.dom() && ks.no_duplicates() && #[trigger] tally_result(
            data,
            scores,
            user_anime,
            format,
            ks,
            r,
        )
}

/// Some edge of the mode leads to `id`.
pub open spec fn relates(edges: Seq<Edge>, mode: Seq<char>, id: i32) -> bool
    decreases edges.len(),
{
    edges.len() > 0 && (relates(edges.drop_last(), mode, id) || (edges.last().relation_type@ == mode
        && edges.last().node.id == id))
}

/// The larger of a modifier found before, if any, and a new one.
pub open spec fn larger(prev: Option<int>, m: int) -> Option<int> {
    match prev {
        None => Some(m),
        Some(p) => if m > p {
            Some(m)
        } else {
            Some(p)
        },
    }
}

/// The highest modifier of the completed anime of `ks` that relate to `id` in
/// the mode (a sequel, a prequel, ...), if any does.
pub open spec fn best_modifier(
    data: Map<i32, AnimeInfo>,
    scores: Map<i32, i32>,
    format: Option<String>,
    mode: Seq<char>,
    ks: Seq<i32>,
    id: i32,
) -> Option<int>
    decreases ks.len(),
{
    if ks.len() == 0 {
        None
    } else {
        let prev = best_modifier(data, scores, format, mode, ks.drop_last(), id);
        let a = ks.last();
        if data.contains_key(a) && relates(data[a].relations.edges@, mode, id) {
            larger(prev, rating_modifier(scores[a], format))
        } else {
            prev
        }
    }
}

/// The sum of the ratings of the nodes.
pub open spec fn rating_sum(nodes: Seq<RecNode>) -> int
    decreases nodes.len(),
{
    if nodes.len() == 0 {
        0
    } else {
        rating_sum(nodes.drop_last()) + nodes.last().rating
    }
}

/// The anime is one to rate by relation: a completed anime relates to it, the
/// user does not have it, and the store holds it with its recommendations.
pub open spec fn related_candidate(
    data: Map<i32, AnimeInfo>,
    scores: Map<i32, i32>,
    user_anime: Set<i32>,
    format: Option<String>,
    mode: Seq<char>,
    ks: Seq<i32>,
    id: i32,
) -> bool {
    &&& best_modifier(data, scores, format, mode, ks, id) is Some
    &&& !user_anime.contains(id)
    &&& data.contains_key(id)
    &&& data[id].recommendations is Some
}

/// `r` rates the anime related in the mode to the completed anime `ks`: each
/// candidate once, rated by the sum of its recommendation ratings times the
/// best modifier that led to it, highest first.
pub open spec fn related_result(
    data: Map<i32, AnimeInfo>,
    scores: Map<i32, i32>,
    user_anime: Set<i32>,
    format: Option<String>,
    mode: Seq<char>,
    ks: Seq<i32>,
    r: Seq<RecommendTally>,
) -> bool {
    &&& forall|i: int|
        0 <= i < r.len() ==> related_candidate(data, scores, user_anime, format, mode, ks, #[trigger] r[i].id)
            && r[i].rating == rating_sum(anime_recommendations(data, r[i].id)) * best_modifier(
            data,
            scores,
            format,
            mode,
            ks,
            r[i].id,
        )->0
    &&& distinct_ids(r)
    &&& rated_descending(r)
    &&& forall|id: i32|
        related_candidate(data, scores, user_anime, format, mode, ks, id) ==> #[trigger] lists_id(r, id)
}

/// `r` rates the related anime, the completed anime walked in some order.
pub open spec fn is_related(
    data: Map<i32, AnimeInfo>,
    scores: Map<i32, i32>,
    user_anime: Set<i32>,
    format: Option<String>,
    mode: Seq<char>,
    r: Seq<RecommendTally>,
) -> bool {
    exists|ks: Seq<i32>|
        ks.to_set() == scores.dom() && ks.no_duplicates() && #[trigger] related_result(
            data,
            scores,
            user_anime,
            format,
            mode,
            ks,
            r,
        )
}

/// Insertion sort by rating, highest first; entries of equal rating keep
/// their order.
pub fn sort_by_rating(v: Vec<RecommendTally>) -> (r: Vec<RecommendTally>)
    requires
        distinct_ids(v@),
    ensures
        r@.to_multiset() == v@.to_multiset(),
        rated_descending(r@),
        distinct_ids(r@),
{
    let mut out: Vec<RecommendTally> = Vec::new();
    let mut i: usize = 0;
    while i < v.len()
        invariant
            0 <= i <= v.len(),
            distinct_ids(v@),
            out@.to_multiset() == v@.take(i as int).to_multiset(),
            rated_descending(out@),
            forall|k: int| 0 <= k < out@.len() ==> exists|m: int| 0 <= m < i && #[trigger] out@[k] == v@[m],
            distinct_ids(out@),
        decreases v.len() - i,
    {
        let x = v[i];
        let mut j: usize = out.len();
        while j > 0 && out[j - 1].rating < x.rating
            invariant
                0 <= j <= out.len(),
                forall|k: int| j <= k < out.len() ==> #[trigger] out@[k].rating < x.rating,
            decreases j,
        {
            j = j - 1;
        }
        let ghost before = out@;
        proof {
            assert forall|k: int| 0 <= k < before.len() implies #[trigger] before[k].id != x.id by {
                let m = choose|m: int| 0 <= m < i && before[k] == v@[m];
                assert(v@[m].id != v@[i as int].id);
            }
        }
        out.insert(j, x);
        proof {
            assert(v@.take(i + 1) =~= v@.take(i as int).push(x));
            assert forall|k: int| 0 <= k < out@.len() implies exists|m: int|
                0 <= m < i + 1 && #[trigger] out@[k] == v@[m] by {
                if k < j {
                    assert(out@[k] == before[k]);
                } else if k == j {
                    assert(out@[k] == v@[i as int]);
                } else {
                    assert(out@[k] == before[k - 1]);
                }
            }
            assert forall|a: int, b: int| 0 <= a < b < out@.len() implies out@[a].rating
                >= out@[b].rating by {
                if b < j {
                } else if a > j {
                    assert(out@[a] == before[a - 1] && out@[b] == before[b - 1]);
                } else if b == j {
                    assert(out@[a] == before[a]);
                    assert(before[a].rating >= before[j - 1].rating);
                } else if a == j {
                    assert(out@[b] == before[b - 1]);
                } else {
                    assert(out@[a] == before[a] && out@[b] == before[b - 1]);
                }
            }
            assert forall|a: int, b: int|
                0 <= a < out@.len() && 0 <= b < out@.len() && a != b implies out@[a].id
                != out@[b].id by {
                if a != j && b != j {
                    let a0 = if a < j { a } else { a - 1 };
                    let b0 = if b < j { b } else { b - 1 };
                    assert(out@[a] == before[a0] && out@[b] == before[b0]);
                } else if a == j {
                    let b0 = if b < j { b } else { b - 1 };
                    assert(out@[b] == before[b0]);
                } else {
                    let a0 = if a < j { a } else { a - 1 };
                    assert(out@[a] == before[a0]);
                }
            }
        }
        i = i + 1;
    }
    assert(v@.take(v.len() as int) =~= v@);
    out
}

/// A term of a tally is below 2^63 in size.
proof fn lemma_term_bound(rating: i32, modifier: int)
    requires
        -0x8000_0000 - 10 <= modifier <= 0x8000_0000,
    ensures
        -0x8000_0000_0000_0000 <= rating * modifier <= 0x8000_0000_0000_0000,
{
    assert(-0x8000_0000_0000_0000 <= rating * modifier <= 0x8000_0000_0000_0000) by (nonlinear_arith)
        requires
            -0x8000_0000 <= rating <= 0x7fff_ffff,
            -0x8000_0000 - 10 <= modifier <= 0x8000_0000;
}

/// Nodes that do not recommend an anime add nothing to its rating.
proof fn lemma_unrecommended_share(nodes: Seq<RecNode>, id: i32, modifier: int)
    requires
        !recommends_in(nodes, id),
    ensures
        nodes_share(nodes, id, modifier) == 0,
    decreases nodes.len(),
{
    if nodes.len() > 0 {
        lemma_unrecommended_share(nodes.drop_last(), id, modifier);
    }
}

/// An anime that no completed anime recommends has no rating.
proof fn lemma_unrecommended_tally(
    data: Map<i32, AnimeInfo>,
    scores: Map<i32, i32>,
    format: Option<String>,
    ks: Seq<i32>,
    id: i32,
)
    requires
        !recommended_among(data, ks, id),
    ensures
        tally_over(data, scores, format, ks, id) == 0,
    decreases ks.len(),
{
    if ks.len() > 0 {
        lemma_unrecommended_tally(data, scores, format, ks.drop_last(), id);
        lemma_unrecommended_share(
            anime_recommendations(data, ks.last()),
            id,
            rating_modifier(scores[ks.last()], format),
        );
    }
}

/// The modifier of a score is at most a little more than an `i32` in size.
proof fn lemma_modifier_bound(score: i32, format: Option<String>)
    ensures
        -0x8000_0000 - 10 <= rating_modifier(score, format) <= 0x8000_0000,
{
}

impl AnimeData {
    /// The modifier of a score (in tenths), as `rating_modifier` gives it.
    pub fn score_to_rating_modifier(&self, score: i32, score_format: &Option<String>) -> (r: i64)
        ensures
            r == rating_modifier(score, *score_format),
    {
        if score == 0 {
            return rating_scale_of(score_format);
        }
        if format_named(score_format, "POINT_100") || format_named(score_format, "POINT_10_DECIMAL")
            || format_named(score_format, "POINT_10") || format_named(score_format, "POINT_5") {
            score as i64
        } else if format_named(score_format, "POINT_3") {
            score as i64 - 10
        } else {
            1
        }
    }

    /// Adds what the recommendations of one completed anime give each anime.
    fn tally_one(
        &self,
        total: &mut HashMap<i32, i128>,
        a: i32,
        modifier: i64,
        Ghost(before): Ghost<Seq<i32>>,
        Ghost(scores): Ghost<Map<i32, i32>>,
        Ghost(format): Ghost<Option<String>>,
    )
        requires
            before.len() < 0xffff_ffff,
            modifier == rating_modifier(scores[a], format),
            forall|b: i32| self.data@.contains_key(b) ==> anime_recommendations(self.data@, b).len()
                < 0xffff_ffff,
            forall|id: i32| #[trigger]
                old(total)@.contains_key(id) <==> recommended_among(self.data@, before, id),
            forall|id: i32| #[trigger]
                old(total)@.contains_key(id) ==> old(total)@[id] == tally_over(
                    self.data@,
                    scores,
                    format,
                    before,
                    id,
                ),
            forall|id: i32| #[trigger]
                old(total)@.contains_key(id) ==> -before.len() * 0x8000_0000_0000_0000_0000_0000
                    <= old(total)@[id] <= before.len() * 0x8000_0000_0000_0000_0000_0000,
        ensures
            forall|id: i32| #[trigger]
                final(total)@.contains_key(id) <==> recommended_among(self.data@, before.push(a), id),
            forall|id: i32| #[trigger]
                final(total)@.contains_key(id) ==> final(total)@[id] == tally_over(
                    self.data@,
                    scores,
                    format,
                    before.push(a),
                    id,
                ),
            forall|id: i32| #[trigger]
                final(total)@.contains_key(id) ==> -(before.len() + 1) * 0x8000_0000_0000_0000_0000_0000
                    <= final(total)@[id] <= (before.len() + 1) * 0x8000_0000_0000_0000_0000_0000,
    {
        let ghost after = before.push(a);
        let ghost nodes = anime_recommendations(self.data@, a);
        proof {
            assert(after.drop_last() =~= before);
            lemma_modifier_bound(scores[a], format);
        }
        let empty: Vec<RecNode> = Vec::new();
        let list: &Vec<RecNode> = match self.data.get(&a) {
            Some(entry) => match &entry.recommendations {
                Some(recs) => &recs.nodes,
                None => &empty,
            },
            None => &empty,
        };
        assert(list@ == nodes);
        let mut j: usize = 0;
        proof {
            assert(nodes.take(0) =~= Seq::<RecNode>::empty());
            assert forall|id: i32| !total@.contains_key(id) implies tally_over(
                self.data@,
                scores,
                format,
                before,
                id,
            ) == 0 by {
                lemma_unrecommended_tally(self.data@, scores, format, before, id);
            }
        }
        while j < list.len()
            invariant
                0 <= j <= list.len(),
                list@ == nodes,
                nodes.len() < 0xffff_ffff,
                before.len() < 0xffff_ffff,
                modifier == rating_modifier(scores[a], format),
                -0x8000_0000 - 10 <= modifier <= 0x8000_0000,
                forall|id: i32| #[trigger]
                    total@.contains_key(id) <==> (recommended_among(self.data@, before, id)
                        || recommends_in(nodes.take(j as int), id)),
                forall|id: i32|
                    #![trigger total@.contains_key(id)]
                    #![trigger tally_over(self.data@, scores, format, before, id)]
                    (if total@.contains_key(id) {
                        total@[id] as int
                    } else {
                        0
                    }) == tally_over(self.data@, scores, format, before, id) + nodes_share(
                        nodes.take(j as int),
                        id,
                        modifier as int,
                    ),
                forall|id: i32| #[trigger]
                    total@.contains_key(id) ==> -(before.len() * 0x8000_0000_0000_0000_0000_0000
                        + j * 0x8000_0000_0000_0000) <= total@[id] <= before.len()
                        * 0x8000_0000_0000_0000_0000_0000 + j * 0x8000_0000_0000_0000,
            decreases list.len() - j,
        {
            let node = &list[j];
            proof {
                assert(nodes.take(j + 1).drop_last() =~= nodes.take(j as int));
                assert(nodes.take(j + 1).last() == *node);
                lemma_term_bound(node.rating, modifier as int);
            }
            if let Some(m) = &node.media_recommendation {
                let id = m.id;
                let add: i128 = (node.rating as i128) * (modifier as i128);
                let ghost old_total = total@;
                match total.get(&id) {
                    Some(v) => {
                        let nv: i128 = *v + add;
                        total.insert(id, nv);
                    },
                    None => {
                        total.insert(id, add);
                    },
                }
                proof {
                    assert forall|x: i32| #[trigger]
                        total@.contains_key(x) <==> (recommended_among(self.data@, before, x)
                            || recommends_in(nodes.take(j + 1), x)) by {
                        if x != id {
                            assert(old_total.contains_key(x) == total@.contains_key(x));
                        }
                    }
                    assert forall|x: i32|
                        #![trigger total@.contains_key(x)]
                        #![trigger tally_over(self.data@, scores, format, before, x)]
                        (if total@.contains_key(x) {
                            total@[x] as int
                        } else {
                            0
                        }) == tally_over(self.data@, scores, format, before, x) + nodes_share(
                            nodes.take(j + 1),
                            x,
                            modifier as int,
                        ) by {
                        if x != id {
                            assert(old_total.contains_key(x) == total@.contains_key(x));
                            assert(old_total.contains_key(x) ==> old_total[x] == total@[x]);
                            assert(old_total.contains_key(x) ==> true);
                            assert((if old_total.contains_key(x) {
                                old_total[x] as int
                            } else {
                                0
                            }) == tally_over(self.data@, scores, format, before, x) + nodes_share(
                                nodes.take(j as int),
                                x,
                                modifier as int,
                            ));
                        } else {
                            assert((if old_total.contains_key(x) {
                                old_total[x] as int
                            } else {
                                0
                            }) == tally_over(self.data@, scores, format, before, x) + nodes_share(
                                nodes.take(j as int),
                                x,
                                modifier as int,
                            ));
                        }
                    }
                }
            } else {
                proof {
                    assert forall|x: i32| #[trigger]
                        total@.contains_key(x) <==> (recommended_among(self.data@, before, x)
                            || recommends_in(nodes.take(j + 1), x)) by {}
                    assert forall|x: i32|
                        #![trigger total@.contains_key(x)]
                        #![trigger tally_over(self.data@, scores, format, before, x)]
                        (if total@.contains_key(x) {
                            total@[x] as int
                        } else {
                            0
                        }) == tally_over(self.data@, scores, format, before, x) + nodes_share(
                            nodes.take(j + 1),
                            x,
                            modifier as int,
                        ) by {
                        assert((if total@.contains_key(x) {
                            total@[x] as int
                        } else {
                            0
                        }) == tally_over(self.data@, scores, format, before, x) + nodes_share(
                            nodes.take(j as int),
                            x,
                            modifier as int,
                        ));
                    }
                }
            }
            j = j + 1;
        }
        proof {
            assert(nodes.take(j as int) =~= nodes);
            assert forall|id: i32| #[trigger]
                total@.contains_key(id) <==> recommended_among(self.data@, after, id) by {}
            assert forall|id: i32| #[trigger]
                total@.contains_key(id) implies total@[id] == tally_over(
                    self.data@,
                    scores,
                    format,
                    after,
                    id,
                ) by {
                assert((if total@.contains_key(id) {
                    total@[id] as int
                } else {
                    0
                }) == tally_over(self.data@, scores, format, before, id) + nodes_share(
                    nodes.take(j as int),
                    id,
                    modifier as int,
                ));
            }
        }
    }

    /// The anime that the completed anime recommend, with their ratings
    /// (see `tally_result`).  The user's scores are in tenths.
    pub fn tally_recommendations(
        &self,
        completed_scores: &HashMap<i32, i32>,
        user_anime: &HashSet<i32>,
        score_format: &Option<String>,
    ) -> (r: Vec<RecommendTally>)
        requires
            completed_scores@.len() < 0xffff_ffff,
            forall|b: i32| self.data@.contains_key(b) ==> anime_recommendations(self.data@, b).len()
                < 0xffff_ffff,
        ensures
            is_tally(self.data@, completed_scores@, user_anime@, *score_format, r@),
    {
        let ks = keys_of(completed_scores);
        let ghost scores = completed_scores@;
        let ghost format = *score_format;
        let mut total: HashMap<i32, i128> = HashMap::new();
        let mut i: usize = 0;
        assert(ks@.take(0) =~= Seq::<i32>::empty());
        while i < ks.len()
            invariant
                0 <= i <= ks.len(),
                ks@.len() < 0xffff_ffff,
                ks@.to_set() == scores.dom(),
                scores == completed_scores@,
                format == *score_format,
                forall|b: i32| self.data@.contains_key(b) ==> anime_recommendations(self.data@, b).len()
                    < 0xffff_ffff,
                forall|id: i32| #[trigger]
                    total@.contains_key(id) <==> recommended_among(self.data@, ks@.take(i as int), id),
                forall|id: i32| #[trigger]
                    total@.contains_key(id) ==> total@[id] == tally_over(
                        self.data@,
                        scores,
                        format,
                        ks@.take(i as int),
                        id,
                    ),
                forall|id: i32| #[trigger]
                    total@.contains_key(id) ==> -i * 0x8000_0000_0000_0000_0000_0000 <= total@[id]
                        <= i * 0x8000_0000_0000_0000_0000_0000,
            decreases ks.len() - i,
        {
            let a = ks[i];
            assert(ks@.to_set().contains(a));
            let score = *completed_scores.get(&a).unwrap();
            let modifier = self.score_to_rating_modifier(score, score_format);
            self.tally_one(&mut total, a, modifier, Ghost(ks@.take(i as int)), Ghost(scores), Ghost(format));
            assert(ks@.take(i + 1) =~= ks@.take(i as int).push(a));
            i = i + 1;
        }
        assert(ks@.take(ks.len() as int) =~= ks@);
        let ids = keys_of(&total);
        let mut list: Vec<RecommendTally> = Vec::new();
        let mut k: usize = 0;
        while k < ids.len()
            invariant
                0 <= k <= ids.len(),
                ids@.to_set() == total@.dom(),
                ids@.no_duplicates(),
                forall|e: int|
                    0 <= e < list@.len() ==> total@.contains_key(#[trigger] list@[e].id)
                        && list@[e].rating == total@[list@[e].id] && !user_anime@.contains(list@[e].id),
                forall|e: int|
                    #![trigger list@[e]]
                    0 <= e < list@.len() ==> exists|m: int| 0 <= m < k && #[trigger] ids@[m] == list@[e].id,
                forall|m: int|
                    0 <= m < k && !user_anime@.contains(#[trigger] ids@[m]) ==> lists_id(list@, ids@[m]),
                distinct_ids(list@),
            decreases ids.len() - k,
        {
            let id = ids[k];
            assert(ids@.to_set().contains(id));
            if !user_anime.contains(&id) {
                let rating = *total.get(&id).unwrap();
                let ghost before = list@;
                proof {
                    assert forall|e: int| 0 <= e < before.len() implies before[e].id != id by {
                        let m = choose|m: int| 0 <= m < k && #[trigger] ids@[m] == before[e].id;
                        assert(ids@[m] != ids@[k as int]);
                    }
                }
                list.push(RecommendTally { id, rating });
                proof {
                    assert(list@[before.len() as int].id == id);
                    assert forall|m: int|
                        0 <= m < k + 1 && !user_anime@.contains(#[trigger] ids@[m]) implies lists_id(
                        list@,
                        ids@[m],
                    ) by {
                        if m < k {
                            let e = choose|e: int| 0 <= e < before.len() && before[e].id == ids@[m];
                            assert(list@[e] == before[e]);
                        } else {
                            assert(list@[before.len() as int].id == ids@[m]);
                        }
                    }
                    assert forall|e: int|
                        #![trigger list@[e]]
                        0 <= e < list@.len() implies exists|m: int|
                        0 <= m < k + 1 && #[trigger] ids@[m] == list@[e].id by {
                        if e < before.len() {
                            assert(list@[e] == before[e]);
                            let m = choose|m: int| 0 <= m < k && #[trigger] ids@[m] == before[e].id;
                            assert(ids@[m] == list@[e].id);
                        } else {
                            assert(ids@[k as int] == list@[e].id);
                        }
                    }
                }
            }
            k = k + 1;
        }
        let ghost list_view = list@;
        let mut sorted = sort_by_rating(list);
        let ghost full = sorted@;
        sorted.truncate(1000);
        proof {
            let r = sorted@;
            assert forall|e: int| 0 <= e < full.len() implies list_view.contains(#[trigger] full[e]) by {
                vstd::seq_lib::to_multiset_contains(full, full[e]);
                vstd::seq_lib::to_multiset_contains(list_view, full[e]);
            }
            assert forall|e: int| 0 <= e < r.len() implies r[e] == full[e] by {}
            assert forall|e: int|
                0 <= e < r.len() implies recommended_among(self.data@, ks@, #[trigger] r[e].id)
                && !user_anime@.contains(r[e].id) && r[e].rating == tally_over(
                self.data@,
                scores,
                format,
                ks@,
                r[e].id,
            ) by {
                assert(r[e] == full[e]);
                assert(list_view.contains(full[e]));
                let x = choose|x: int| 0 <= x < list_view.len() && list_view[x] == full[e];
                assert(total@.contains_key(list_view[x].id));
            }
            assert forall|id: i32|
                recommended_among(self.data@, ks@, id) && !user_anime@.contains(id)
                    && !#[trigger] lists_id(r, id) implies r.len() == 1000 && forall|e: int|
                0 <= e < r.len() ==> r[e].rating >= tally_over(
                    self.data@,
                    scores,
                    format,
                    ks@,
                    id,
                ) by {
                assert(total@.contains_key(id));
                assert(ids@.to_set().contains(id));
                let m = choose|m: int| 0 <= m < ids@.len() && ids@[m] == id;
                assert(lists_id(list_view, ids@[m]));
                let x = choose|x: int| 0 <= x < list_view.len() && list_view[x].id == id;
                assert(full.contains(list_view[x])) by {
                    vstd::seq_lib::to_multiset_contains(list_view, list_view[x]);
                    vstd::seq_lib::to_multiset_contains(full, list_view[x]);
                }
                let p = choose|p: int| 0 <= p < full.len() && full[p] == list_view[x];
                if full.len() <= 1000 {
                    assert(r[p].id == id);
                } else {
                    if p < 1000 {
                        assert(r[p].id == id);
                    }
                    assert forall|e: int| 0 <= e < r.len() implies r[e].rating >= tally_over(
                        self.data@,
                        scores,
                        format,
                        ks@,
                        id,
                    ) by {
                        assert(full[e].rating >= full[p].rating);
                    }
                }
            }
            assert(tally_result(self.data@, scores, user_anime@, format, ks@, r));
        }
        sorted
    }
}

/// The sum of the ratings of the nodes, as `rating_sum` gives it.
pub fn rating_total(nodes: &Vec<RecNode>) -> (r: i128)
    requires
        nodes@.len() < 0xffff_ffff,
    ensures
        r == rating_sum(nodes@),
        -0x8000_0000_0000_0000 <= r <= 0x8000_0000_0000_0000,
{
    let mut total: i128 = 0;
    let mut j: usize = 0;
    assert(nodes@.take(0) =~= Seq::<RecNode>::empty());
    while j < nodes.len()
        invariant
            0 <= j <= nodes.len(),
            nodes@.len() < 0xffff_ffff,
            total == rating_sum(nodes@.take(j as int)),
            -j * 0x8000_0000 <= total <= j * 0x8000_0000,
        decreases nodes.len() - j,
    {
        assert(nodes@.take(j + 1).drop_last() =~= nodes@.take(j as int));
        total = total + nodes[j].rating as i128;
        j = j + 1;
    }
    assert(nodes@.take(j as int) =~= nodes@);
    total
}

/// A rating sum times a modifier stays within 2^95 in size.
proof fn lemma_product_bound(sum: int, modifier: int)
    requires
        -0x8000_0000_0000_0000 <= sum <= 0x8000_0000_0000_0000,
        -0x8000_0000 - 10 <= modifier <= 0x8000_0000,
    ensures
        -0x1_0000_0000_0000_0000_0000_0000 <= sum * modifier <= 0x1_0000_0000_0000_0000_0000_0000,
{
    assert(-0x1_0000_0000_0000_0000_0000_0000 <= sum * modifier <= 0x1_0000_0000_0000_0000_0000_0000)
        by (nonlinear_arith)
        requires
            -0x8000_0000_0000_0000 <= sum <= 0x8000_0000_0000_0000,
            -0x8000_0000 - 10 <= modifier <= 0x8000_0000;
}

/// The best modifier as a map holds it.
pub open spec fn held(m: Map<i32, i64>, id: i32) -> Option<int> {
    if m.contains_key(id) {
        Some(m[id] as int)
    } else {
        None
    }
}

/// Two modifiers found, the larger kept.
pub open spec fn merged(prev: Option<int>, cur: Option<int>) -> Option<int> {
    match cur {
        None => prev,
        Some(m) => larger(prev, m),
    }
}

impl AnimeData {
    /// Keeps for each anime that `a` relates to in the mode the larger of the
    /// modifier held and `modifier`.
    fn relate_one(
        &self,
        best: &mut HashMap<i32, i64>,
        a: i32,
        modifier: i64,
        mode: &str,
        Ghost(before): Ghost<Seq<i32>>,
        Ghost(scores): Ghost<Map<i32, i32>>,
        Ghost(format): Ghost<Option<String>>,
    )
        requires
            modifier == rating_modifier(scores[a], format),
            forall|id: i32| #[trigger]
                held(old(best)@, id) == best_modifier(self.data@, scores, format, mode@, before, id),
        ensures
            forall|id: i32| #[trigger]
                held(final(best)@, id) == best_modifier(
                    self.data@,
                    scores,
                    format,
                    mode@,
                    before.push(a),
                    id,
                ),
    {
        let ghost after = before.push(a);
        assert(after.drop_last() =~= before);
        match self.data.get(&a) {
            None => {},
            Some(entry) => {
                let edges = &entry.relations.edges;
                let mut j: usize = 0;
                assert(edges@.take(0) =~= Seq::<Edge>::empty());
                while j < edges.len()
                    invariant
                        0 <= j <= edges.len(),
                        self.data@.contains_key(a),
                        edges@ == self.data@[a].relations.edges@,
                        forall|id: i32| #[trigger]
                            held(best@, id) == merged(
                                best_modifier(self.data@, scores, format, mode@, before, id),
                                if relates(edges@.take(j as int), mode@, id) {
                                    Some(modifier as int)
                                } else {
                                    None
                                },
                            ),
                    decreases edges.len() - j,
                {
                    let edge = &edges[j];
                    assert(edges@.take(j + 1).drop_last() =~= edges@.take(j as int));
                    assert(edges@.take(j + 1).last() == *edge);
                    if str_eq(edge.relation_type.as_str(), mode) {
                        let id = edge.node.id;
                        let ghost old_best = best@;
                        match best.get(&id) {
                            None => {
                                best.insert(id, modifier);
                            },
                            Some(p) => {
                                if modifier > *p {
                                    best.insert(id, modifier);
                                }
                            },
                        }
                        proof {
                            assert forall|x: i32| #[trigger]
                                held(best@, x) == merged(
                                    best_modifier(self.data@, scores, format, mode@, before, x),
                                    if relates(edges@.take(j + 1), mode@, x) {
                                        Some(modifier as int)
                                    } else {
                                        None
                                    },
                                ) by {
                                if x != id {
                                    assert(held(best@, x) == held(old_best, x));
                                } else {
                                    assert(held(old_best, x) == merged(
                                        best_modifier(self.data@, scores, format, mode@, before, x),
                                        if relates(edges@.take(j as int), mode@, x) {
                                            Some(modifier as int)
                                        } else {
                                            None
                                        },
                                    ));
                                }
                            }
                        }
                    } else {
                        proof {
                            assert forall|x: i32| #[trigger]
                                held(best@, x) == merged(
                                    best_modifier(self.data@, scores, format, mode@, before, x),
                                    if relates(edges@.take(j + 1), mode@, x) {
                                        Some(modifier as int)
                                    } else {
                                        None
                                    },
                                ) by {
                                assert(held(best@, x) == merged(
                                    best_modifier(self.data@, scores, format, mode@, before, x),
                                    if relates(edges@.take(j as int), mode@, x) {
                                        Some(modifier as int)
                                    } else {
                                        None
                                    },
                                ));
                            }
                        }
                    }
                    j = j + 1;
                }
                assert(edges@.take(j as int) =~= edges@);
            },
        }
    }
}

/// The best modifier is a modifier, so it is small.
proof fn lemma_best_modifier_bound(
    data: Map<i32, AnimeInfo>,
    scores: Map<i32, i32>,
    format: Option<String>,
    mode: Seq<char>,
    ks: Seq<i32>,
    id: i32,
)
    ensures
        best_modifier(data, scores, format, mode, ks, id) matches Some(m) ==> -0x8000_0000 - 10 <= m
            <= 0x8000_0000,
    decreases ks.len(),
{
    if ks.len() > 0 {
        lemma_best_modifier_bound(data, scores, format, mode, ks.drop_last(), id);
        lemma_modifier_bound(scores[ks.last()], format);
    }
}

impl AnimeData {
    /// The anime related in the mode to the completed anime, rated (see
    /// `related_result`).  The user's scores are in tenths.
    pub fn related_recommendations(
        &self,
        completed_scores: &HashMap<i32, i32>,
        user_anime: &HashSet<i32>,
        score_format: &Option<String>,
        mode: &str,
    ) -> (r: Vec<RecommendTally>)
        requires
            forall|b: i32| self.data@.contains_key(b) ==> anime_recommendations(self.data@, b).len()
                < 0xffff_ffff,
        ensures
            is_related(self.data@, completed_scores@, user_anime@, *score_format, mode@, r@),
    {
        let ks = keys_of(completed_scores);
        let ghost scores = completed_scores@;
        let ghost format = *score_format;
        let mut best: HashMap<i32, i64> = HashMap::new();
        let mut i: usize = 0;
        assert(ks@.take(0) =~= Seq::<i32>::empty());
        while i < ks.len()
            invariant
                0 <= i <= ks.len(),
                ks@.to_set() == scores.dom(),
                scores == completed_scores@,
                format == *score_format,
                forall|id: i32| #[trigger]
                    held(best@, id) == best_modifier(
                        self.data@,
                        scores,
                        format,
                        mode@,
                        ks@.take(i as int),
                        id,
                    ),
            decreases ks.len() - i,
        {
            let a = ks[i];
            assert(ks@.to_set().contains(a));
            let score = *completed_scores.get(&a).unwrap();
            let modifier = self.score_to_rating_modifier(score, score_format);
            self.relate_one(&mut best, a, modifier, mode, Ghost(ks@.take(i as int)), Ghost(scores), Ghost(format));
            assert(ks@.take(i + 1) =~= ks@.take(i as int).push(a));
            i = i + 1;
        }
        assert(ks@.take(ks.len() as int) =~= ks@);
        let ids = keys_of(&best);
        let mut list: Vec<RecommendTally> = Vec::new();
        let mut k: usize = 0;
        while k < ids.len()
            invariant
                0 <= k <= ids.len(),
                ids@.to_set() == best@.dom(),
                ids@.no_duplicates(),
                forall|b: i32| self.data@.contains_key(b) ==> anime_recommendations(self.data@, b).len()
                    < 0xffff_ffff,
                forall|id: i32| #[trigger]
                    held(best@, id) == best_modifier(self.data@, scores, format, mode@, ks@, id),
                forall|e: int|
                    0 <= e < list@.len() ==> related_candidate(
                        self.data@,
                        scores,
                        user_anime@,
                        format,
                        mode@,
                        ks@,
                        #[trigger] list@[e].id,
                    ) && list@[e].rating == rating_sum(anime_recommendations(self.data@, list@[e].id))
                        * best_modifier(self.data@, scores, format, mode@, ks@, list@[e].id)->0,
                forall|e: int|
                    #![trigger list@[e]]
                    0 <= e < list@.len() ==> exists|m: int| 0 <= m < k && #[trigger] ids@[m] == list@[e].id,
                forall|m: int|
                    0 <= m < k && related_candidate(
                        self.data@,
                        scores,
                        user_anime@,
                        format,
                        mode@,
                        ks@,
                        #[trigger] ids@[m],
                    ) ==> lists_id(list@, ids@[m]),
                distinct_ids(list@),
            decreases ids.len() - k,
        {
            let id = ids[k];
            assert(ids@.to_set().contains(id));
            if !user_anime.contains(&id) {
                match self.data.get(&id) {
                    None => {},
                    Some(anime) => match &anime.recommendations {
                        None => {},
                        Some(recs) => {
                            let modifier = *best.get(&id).unwrap();
                            proof {
                                assert(held(best@, id) == best_modifier(self.data@, scores, format, mode@, ks@, id));
                                lemma_best_modifier_bound(self.data@, scores, format, mode@, ks@, id);
                            }
                            let sum = rating_total(&recs.nodes);
                            proof {
                                lemma_product_bound(sum as int, modifier as int);
                            }
                            let rating: i128 = sum * (modifier as i128);
                            let ghost before = list@;
                            proof {
                                assert forall|e: int| 0 <= e < before.len() implies before[e].id != id by {
                                    let m = choose|m: int| 0 <= m < k && #[trigger] ids@[m] == before[e].id;
                                    assert(ids@[m] != ids@[k as int]);
                                }
                            }
                            list.push(RecommendTally { id, rating });
                            proof {
                                assert(list@[before.len() as int].id == id);
                                assert forall|m: int|
                                    0 <= m < k + 1 && related_candidate(
                                        self.data@,
                                        scores,
                                        user_anime@,
                                        format,
                                        mode@,
                                        ks@,
                                        #[trigger] ids@[m],
                                    ) implies lists_id(list@, ids@[m]) by {
                                    if m < k {
                                        let e = choose|e: int| 0 <= e < before.len() && before[e].id == ids@[m];
                                        assert(list@[e] == before[e]);
                                    } else {
                                        assert(list@[before.len() as int].id == ids@[m]);
                                    }
                                }
                                assert forall|e: int|
                                    #![trigger list@[e]]
                                    0 <= e < list@.len() implies exists|m: int|
                                    0 <= m < k + 1 && #[trigger] ids@[m] == list@[e].id by {
                                    if e < before.len() {
                                        assert(list@[e] == before[e]);
                                        let m = choose|m: int| 0 <= m < k && #[trigger] ids@[m] == before[e].id;
                                        assert(ids@[m] == list@[e].id);
                                    } else {
                                        assert(ids@[k as int] == list@[e].id);
                                    }
                                }
                            }
                        },
                    },
                }
            }
            k = k + 1;
        }
        let ghost list_view = list@;
        let sorted = sort_by_rating(list);
        proof {
            let r = sorted@;
            assert forall|e: int| 0 <= e < r.len() implies list_view.contains(#[trigger] r[e]) by {
                vstd::seq_lib::to_multiset_contains(r, r[e]);
                vstd::seq_lib::to_multiset_contains(list_view, r[e]);
            }
            assert forall|e: int|
                0 <= e < r.len() implies related_candidate(
                self.data@,
                scores,
                user_anime@,
                format,
                mode@,
                ks@,
                #[trigger] r[e].id,
            ) && r[e].rating == rating_sum(anime_recommendations(self.data@, r[e].id)) * best_modifier(
                self.data@,
                scores,
                format,
                mode@,
                ks@,
                r[e].id,
            )->0 by {
                assert(list_view.contains(r[e]));
                let x = choose|x: int| 0 <= x < list_view.len() && list_view[x] == r[e];
                assert(list_view[x] == r[e]);
            }
            assert forall|id: i32|
                related_candidate(
                    self.data@,
                    scores,
                    user_anime@,
                    format,
                    mode@,
                    ks@,
                    id,
                ) implies #[trigger] lists_id(r, id) by {
                assert(held(best@, id) == best_modifier(self.data@, scores, format, mode@, ks@, id));
                assert(ids@.to_set().contains(id));
                let m = choose|m: int| 0 <= m < ids@.len() && ids@[m] == id;
                assert(lists_id(list_view, ids@[m]));
                let x = choose|x: int| 0 <= x < list_view.len() && list_view[x].id == id;
                assert(r.contains(list_view[x])) by {
                    vstd::seq_lib::to_multiset_contains(list_view, list_view[x]);
                    vstd::seq_lib::to_multiset_contains(r, list_view[x]);
                }
                let p = choose|p: int| 0 <= p < r.len() && r[p] == list_view[x];
                assert(r[p].id == id);
            }
            assert(related_result(self.data@, scores, user_anime@, format, mode@, ks@, r));
        }
        sorted
    }
}

/// A completed anime relates to `id` in the mode exactly when one of its
/// edges is of the mode's relation type and leads to `id`.
pub proof fn law_relates_names_an_edge(edges: Seq<Edge>, mode: Seq<char>, id: i32)
    ensures
        relates(edges, mode, id) <==> exists|k: int|
            0 <= k < edges.len() && (#[trigger] edges[k]).relation_type@ == mode && edges[k].node.id == id,
    decreases edges.len(),
{
    if edges.len() > 0 {
        let init = edges.drop_last();
        law_relates_names_an_edge(init, mode, id);
        if exists|k: int| 0 <= k < init.len() && (#[trigger] init[k]).relation_type@ == mode && init[k].node.id == id {
            let k = choose|k: int| 0 <= k < init.len() && (#[trigger] init[k]).relation_type@ == mode && init[k].node.id == id;
            assert(edges[k] == init[k]);
        }
        if exists|k: int| 0 <= k < edges.len() && (#[trigger] edges[k]).relation_type@ == mode && edges[k].node.id == id {
            let k = choose|k: int| 0 <= k < edges.len() && (#[trigger] edges[k]).relation_type@ == mode && edges[k].node.id == id;
            if k < edges.len() - 1 {
                assert(init[k] == edges[k]);
            }
        }
    }
}

/// What the nodes of a completed anime add to the rating of `id` is the
/// modifier times the sum of the ratings of the nodes that recommend `id`.
pub proof fn law_nodes_share_is_modifier_times_ratings(nodes: Seq<RecNode>, id: i32, modifier: int)
    ensures
        nodes_share(nodes, id, modifier) == modifier * rating_sum(
            nodes.filter(|n: RecNode| n.media_recommendation is Some && n.media_recommendation->0.id == id),
        ),
    decreases nodes.len(),
{
    let p = |n: RecNode| n.media_recommendation is Some && n.media_recommendation->0.id == id;
    if nodes.len() == 0 {
        assert(nodes.filter(p) =~= Seq::<RecNode>::empty());
    } else {
        let init = nodes.drop_last();
        let last = nodes.last();
        law_nodes_share_is_modifier_times_ratings(init, id, modifier);
        assert(init.push(last) =~= nodes);
        init.lemma_filter_push(last, p);
        let b = rating_sum(init.filter(p));
        if p(last) {
            assert(init.filter(p).push(last).drop_last() =~= init.filter(p));
            assert(rating_sum(init.filter(p).push(last)) == b + last.rating);
            assert(modifier * (b + last.rating) == modifier * b + last.rating * modifier) by (nonlinear_arith);
        }
    }
}

/// The modifier an anime related in the mode is rated with is the largest
/// modifier among the completed anime of `ks` that the store holds and that
/// relate to it; there is one exactly when some such anime does.
pub proof fn law_best_modifier_is_the_largest(
    data: Map<i32, AnimeInfo>,
    scores: Map<i32, i32>,
    format: Option<String>,
    mode: Seq<char>,
    ks: Seq<i32>,
    id: i32,
)
    ensures
        best_modifier(data, scores, format, mode, ks, id) is Some <==> exists|k: int|
            0 <= k < ks.len() && data.contains_key(#[trigger] ks[k]) && relates(data[ks[k]].relations.edges@, mode, id),
        best_modifier(data, scores, format, mode, ks, id) matches Some(m) ==> {
            &&& exists|k: int|
                0 <= k < ks.len() && data.contains_key(#[trigger] ks[k]) && relates(data[ks[k]].relations.edges@, mode, id)
                    && m == rating_modifier(scores[ks[k]], format)
            &&& forall|k: int|
                0 <= k < ks.len() && data.contains_key(#[trigger] ks[k]) && relates(data[ks[k]].relations.edges@, mode, id)
                    ==> rating_modifier(scores[ks[k]], format) <= m
        },
    decreases ks.len(),
{
    if ks.len() > 0 {
        let init = ks.drop_last();
        law_best_modifier_is_the_largest(data, scores, format, mode, init, id);
        let n = ks.len() - 1;
        assert forall|k: int| 0 <= k < init.len() implies init[k] == ks[k] by {}
        if exists|k: int| 0 <= k < init.len() && data.contains_key(#[trigger] init[k]) && relates(data[init[k]].relations.edges@, mode, id) {
            let k = choose|k: int| 0 <= k < init.len() && data.contains_key(#[trigger] init[k]) && relates(data[init[k]].relations.edges@, mode, id);
            assert(ks[k] == init[k]);
        }
        if exists|k: int| 0 <= k < ks.len() && data.contains_key(#[trigger] ks[k]) && relates(data[ks[k]].relations.edges@, mode, id) {
            let k = choose|k: int| 0 <= k < ks.len() && data.contains_key(#[trigger] ks[k]) && relates(data[ks[k]].relations.edges@, mode, id);
            if k < n {
                assert(init[k] == ks[k]);
            }
        }
        match best_modifier(data, scores, format, mode, init, id) {
            Some(p) => {
                let k0 = choose|k: int|
                    0 <= k < init.len() && data.contains_key(#[trigger] init[k]) && relates(data[init[k]].relations.edges@, mode, id)
                        && p == rating_modifier(scores[init[k]], format);
                assert(ks[k0] == init[k0]);
                assert forall|k: int|
                    0 <= k < ks.len() && data.contains_key(#[trigger] ks[k]) && relates(data[ks[k]].relations.edges@, mode, id)
                        implies rating_modifier(scores[ks[k]], format) <= best_modifier(data, scores, format, mode, ks, id)->0 by {
                    if k < n {
                        assert(init[k] == ks[k]);
                    }
                }
            },
            None => {},
        }
    }
}

/// A completed anime recommends `id` exactly when one of its recommendation
/// nodes names the anime `id`.
pub proof fn law_recommends_in_names_a_node(nodes: Seq<RecNode>, id: i32)
    ensures
        recommends_in(nodes, id) <==> exists|k: int|
            0 <= k < nodes.len() && (#[trigger] nodes[k]).media_recommendation is Some
                && nodes[k].media_recommendation->0.id == id,
    decreases nodes.len(),
{
    if nodes.len() > 0 {
        let init = nodes.drop_last();
        law_recommends_in_names_a_node(init, id);
        if exists|k: int| 0 <= k < init.len() && (#[trigger] init[k]).media_recommendation is Some && init[k].media_recommendation->0.id == id {
            let k = choose|k: int| 0 <= k < init.len() && (#[trigger] init[k]).media_recommendation is Some && init[k].media_recommendation->0.id == id;
            assert(nodes[k] == init[k]);
        }
        if exists|k: int| 0 <= k < nodes.len() && (#[trigger] nodes[k]).media_recommendation is Some && nodes[k].media_recommendation->0.id == id {
            let k = choose|k: int| 0 <= k < nodes.len() && (#[trigger] nodes[k]).media_recommendation is Some && nodes[k].media_recommendation->0.id == id;
            if k < nodes.len() - 1 {
                assert(init[k] == nodes[k]);
            }
        }
    }
}

/// Some filter is in use.
pub open spec fn filters_on(genre: Seq<char>, year_min: i32, year_max: i32, format: Seq<char>) -> bool {
    genre.len() > 0 || year_min != 0 || year_max != 0 || format.len() > 0
}

/// The anime has the genre.
pub open spec fn has_genre(a: AnimeInfo, genre: Seq<char>) -> bool {
    exists|g: int| 0 <= g < a.genres@.len() && #[trigger] a.genres@[g]@ == genre
}

/// The anime meets every filter in use: it has the genre, it aired in a year
/// no earlier than the least year and no later than the greatest, and it has
/// the format.  A filter that is empty (or a year that is 0) is not in use.
pub open spec fn passes_filters(
    a: AnimeInfo,
    genre: Seq<char>,
    year_min: i32,
    year_max: i32,
    format: Seq<char>,
) -> bool {
    &&& genre.len() > 0 ==> has_genre(a, genre)
    &&& year_min != 0 ==> (a.season_year matches Some(y) && y >= year_min)
    &&& year_max != 0 ==> (a.season_year matches Some(y) && y <= year_max)
    &&& format.len() > 0 ==> (a.format matches Some(f) && f@ == format)
}

/// Whether an entry's anime meets the filters.
pub open spec fn passes_on(
    data: Map<i32, AnimeInfo>,
    genre: Seq<char>,
    year_min: i32,
    year_max: i32,
    format: Seq<char>,
) -> spec_fn(RecommendTally) -> bool {
    |e: RecommendTally| passes_filters(data[e.id], genre, year_min, year_max, format)
}

/// The entries whose anime meet the filters, or all of them when none is in use.
pub open spec fn filtered(
    data: Map<i32, AnimeInfo>,
    s: Seq<RecommendTally>,
    genre: Seq<char>,
    year_min: i32,
    year_max: i32,
    format: Seq<char>,
) -> Seq<RecommendTally> {
    if filters_on(genre, year_min, year_max, format) {
        s.filter(passes_on(data, genre, year_min, year_max, format))
    } else {
        s
    }
}

/// While a filter is in use, an entry stays exactly when it is one of the
/// entries given and its anime has the genre asked for, aired no earlier than
/// the least year and no later than the greatest, and has exactly the format
/// asked for (a filter that is empty, or a year that is 0, asks for nothing).
pub proof fn law_filtered_meet_the_filters(
    data: Map<i32, AnimeInfo>,
    s: Seq<RecommendTally>,
    genre: Seq<char>,
    year_min: i32,
    year_max: i32,
    format: Seq<char>,
    e: RecommendTally,
)
    requires
        filters_on(genre, year_min, year_max, format),
    ensures
        filtered(data, s, genre, year_min, year_max, format).contains(e) <==> {
            let a = data[e.id];
            &&& s.contains(e)
            &&& genre.len() > 0 ==> exists|g: int| 0 <= g < a.genres@.len() && #[trigger] a.genres@[g]@ == genre
            &&& year_min != 0 ==> (a.season_year is Some && a.season_year->0 >= year_min)
            &&& year_max != 0 ==> (a.season_year is Some && a.season_year->0 <= year_max)
            &&& format.len() > 0 ==> (a.format is Some && a.format->0@ == format)
        },
{
    let pred = passes_on(data, genre, year_min, year_max, format);
    let f = s.filter(pred);
    if f.contains(e) {
        s.lemma_filter_contains_rev(pred, e);
        let k = choose|k: int| 0 <= k < f.len() && f[k] == e;
        s.lemma_filter_pred(pred, k);
    }
    if s.contains(e) && pred(e) {
        let k = choose|k: int| 0 <= k < s.len() && s[k] == e;
        s.lemma_filter_contains(pred, k);
    }
}

/// The ids of the first `n` entries, or of all of them when there are fewer.
pub open spec fn first_ids(s: Seq<RecommendTally>, n: int) -> Seq<i32> {
    s.take(if s.len() < n {
        s.len() as int
    } else {
        n
    }).map_values(|e: RecommendTally| e.id)
}

/// Some completed anime recommends `id`.
pub open spec fn recommended_by_some(data: Map<i32, AnimeInfo>, scores: Map<i32, i32>, id: i32) -> bool {
    exists|a: i32| scores.contains_key(a) && #[trigger] recommends_in(anime_recommendations(data, a), id)
}

/// An anime recommended by one of `ks` is recommended by some completed anime.
proof fn lemma_recommended_by_some(
    data: Map<i32, AnimeInfo>,
    scores: Map<i32, i32>,
    ks: Seq<i32>,
    id: i32,
)
    requires
        ks.to_set() <= scores.dom(),
        recommended_among(data, ks, id),
    ensures
        recommended_by_some(data, scores, id),
    decreases ks.len(),
{
    assert(ks.to_set().contains(ks.last()));
    if recommended_among(data, ks.drop_last(), id) {
        assert(ks.drop_last().to_set() <= ks.to_set()) by {
            assert forall|x: i32| ks.drop_last().to_set().contains(x) implies ks.to_set().contains(x) by {
                let i = choose|i: int| 0 <= i < ks.drop_last().len() && ks.drop_last()[i] == x;
                assert(ks[i] == x);
            }
        }
        lemma_recommended_by_some(data, scores, ks.drop_last(), id);
    }
}

fn genre_of(anime: &AnimeInfo, genre: &str) -> (r: bool)
    ensures
        r == has_genre(*anime, genre@),
{
    let mut g: usize = 0;
    while g < anime.genres.len()
        invariant
            0 <= g <= anime.genres.len(),
            forall|x: int| 0 <= x < g ==> anime.genres@[x]@ != genre@,
        decreases anime.genres.len() - g,
    {
        if str_eq(anime.genres[g].as_str(), genre) {
            return true;
        }
        g = g + 1;
    }
    false
}

impl AnimeData {
    fn passes(&self, id: i32, genre: &str, year_min: i32, year_max: i32, format: &str) -> (r: bool)
        requires
            self.data@.contains_key(id),
        ensures
            r == passes_filters(self.data@[id], genre@, year_min, year_max, format@),
    {
        let anime = self.data.get(&id).unwrap();
        if genre.unicode_len() > 0 && !genre_of(anime, genre) {
            return false;
        }
        if year_min != 0 {
            match anime.season_year {
                Some(y) => {
                    if y < year_min {
                        return false;
                    }
                },
                None => return false,
            }
        }
        if year_max != 0 {
            match anime.season_year {
                Some(y) => {
                    if y > year_max {
                        return false;
                    }
                },
                None => return false,
            }
        }
        if format.unicode_len() > 0 {
            match &anime.format {
                Some(f) => {
                    if !str_eq(f.as_str(), format) {
                        return false;
                    }
                },
                None => return false,
            }
        }
        true
    }

    /// Keeps the entries whose anime meet the filters in use (see `filtered`).
    /// The store must hold every anime of the list when a filter is in use.
    pub fn filter_anime(
        &self,
        anime_list: &mut Vec<RecommendTally>,
        genre_filter: &str,
        year_min_filter: i32,
        year_max_filter: i32,
        format_filter: &str,
    )
        requires
            filters_on(genre_filter@, year_min_filter, year_max_filter, format_filter@) ==> forall|e: int|
                0 <= e < old(anime_list)@.len() ==> self.data@.contains_key(#[trigger] old(anime_list)@[e].id),
        ensures
            final(anime_list)@ == filtered(
                self.data@,
                old(anime_list)@,
                genre_filter@,
                year_min_filter,
                year_max_filter,
                format_filter@,
            ),
    {
        if genre_filter.unicode_len() > 0 || year_min_filter != 0 || year_max_filter != 0
            || format_filter.unicode_len() > 0 {
            let ghost pred = passes_on(self.data@, genre_filter@, year_min_filter, year_max_filter, format_filter@);
            let mut kept: Vec<RecommendTally> = Vec::new();
            let mut i: usize = 0;
            assert(anime_list@.take(0) =~= Seq::<RecommendTally>::empty());
            while i < anime_list.len()
                invariant
                    0 <= i <= anime_list.len(),
                    forall|e: int|
                        0 <= e < anime_list@.len() ==> self.data@.contains_key(#[trigger] anime_list@[e].id),
                    pred == passes_on(self.data@, genre_filter@, year_min_filter, year_max_filter, format_filter@),
                    kept@ == anime_list@.take(i as int).filter(pred),
                decreases anime_list.len() - i,
            {
                let e = anime_list[i];
                proof {
                    assert(anime_list@.take(i + 1) =~= anime_list@.take(i as int).push(e));
                    anime_list@.take(i as int).lemma_filter_push(e, pred);
                }
                if self.passes(e.id, genre_filter, year_min_filter, year_max_filter, format_filter) {
                    kept.push(e);
                }
                i = i + 1;
            }
            assert(anime_list@.take(anime_list.len() as int) =~= anime_list@);
            *anime_list = kept;
        }
    }

    /// At most a hundred recommended anime, best first: the tally of the
    /// completed anime's recommendations in the mode `user_recommended`, else
    /// the anime related to them in the mode (`SEQUEL`, `PREQUEL`, ...); then
    /// the filters in use.  The user's scores are in tenths.  When a filter is
    /// in use the store must hold every anime the completed anime recommend.
    pub fn recommendations(
        &self,
        completed_scores: HashMap<i32, i32>,
        user_anime: HashSet<i32>,
        score_format: Option<String>,
        mode: String,
        genre_filter: String,
        year_min_filter: i32,
        year_max_filter: i32,
        format_filter: String,
    ) -> (r: Vec<i32>)
        requires
            completed_scores@.len() < 0xffff_ffff,
            forall|b: i32| self.data@.contains_key(b) ==> anime_recommendations(self.data@, b).len()
                < 0xffff_ffff,
            filters_on(genre_filter@, year_min_filter, year_max_filter, format_filter@) && mode@
                == "user_recommended"@ ==> forall|id: i32|
                #[trigger] recommended_by_some(self.data@, completed_scores@, id) ==> self.data@.contains_key(id),
        ensures
            exists|t: Seq<RecommendTally>|
                #![trigger filtered(self.data@, t, genre_filter@, year_min_filter, year_max_filter, format_filter@)]
                {
                    &&& (if mode@ == "user_recommended"@ {
                        is_tally(self.data@, completed_scores@, user_anime@, score_format, t)
                    } else {
                        is_related(self.data@, completed_scores@, user_anime@, score_format, mode@, t)
                    })
                    &&& r@ == first_ids(
                        filtered(self.data@, t, genre_filter@, year_min_filter, year_max_filter, format_filter@),
                        100,
                    )
                },
            r@.len() <= 100,
            filters_on(genre_filter@, year_min_filter, year_max_filter, format_filter@) ==> forall|k: int|
                0 <= k < r@.len() ==> {
                    let a = self.data@[#[trigger] r@[k]];
                    &&& genre_filter@.len() > 0 ==> exists|g: int|
                        0 <= g < a.genres@.len() && #[trigger] a.genres@[g]@ == genre_filter@
                    &&& year_min_filter != 0 ==> (a.season_year is Some && a.season_year->0 >= year_min_filter)
                    &&& year_max_filter != 0 ==> (a.season_year is Some && a.season_year->0 <= year_max_filter)
                    &&& format_filter@.len() > 0 ==> (a.format is Some && a.format->0@ == format_filter@)
                },
    {
        let user_mode = str_eq(mode.as_str(), "user_recommended");
        let mut recommend_tally = if user_mode {
            self.tally_recommendations(&completed_scores, &user_anime, &score_format)
        } else {
            self.related_recommendations(&completed_scores, &user_anime, &score_format, mode.as_str())
        };
        let ghost t = recommend_tally@;
        proof {
            if filters_on(genre_filter@, year_min_filter, year_max_filter, format_filter@) {
                assert forall|e: int| 0 <= e < t.len() implies self.data@.contains_key(#[trigger] t[e].id) by {
                    if user_mode {
                        let ks = choose|ks: Seq<i32>|
                            ks.to_set() == completed_scores@.dom() && ks.no_duplicates() && #[trigger] tally_result(
                                self.data@,
                                completed_scores@,
                                user_anime@,
                                score_format,
                                ks,
                                t,
                            );
                        assert(recommended_among(self.data@, ks, t[e].id));
                        lemma_recommended_by_some(self.data@, completed_scores@, ks, t[e].id);
                    } else {
                        let ks = choose|ks: Seq<i32>|
                            ks.to_set() == completed_scores@.dom() && ks.no_duplicates() && #[trigger] related_result(
                                self.data@,
                                completed_scores@,
                                user_anime@,
                                score_format,
                                mode@,
                                ks,
                                t,
                            );
                        assert(related_candidate(
                            self.data@,
                            completed_scores@,
                            user_anime@,
                            score_format,
                            mode@,
                            ks,
                            t[e].id,
                        ));
                    }
                }
            }
        }
        self.filter_anime(
            &mut recommend_tally,
            genre_filter.as_str(),
            year_min_filter,
            year_max_filter,
            format_filter.as_str(),
        );
        recommend_tally.truncate(100);
        let ghost kept = recommend_tally@;
        let mut recommend_list: Vec<i32> = Vec::new();
        let mut i: usize = 0;
        while i < recommend_tally.len()
            invariant
                0 <= i <= recommend_tally.len(),
                recommend_list@ == recommend_tally@.take(i as int).map_values(|e: RecommendTally| e.id),
            decreases recommend_tally.len() - i,
        {
            recommend_list.push(recommend_tally[i].id);
            i = i + 1;
            assert(recommend_list@ =~= recommend_tally@.take(i as int).map_values(|e: RecommendTally| e.id));
        }
        proof {
            assert(recommend_tally@.take(recommend_tally.len() as int) =~= recommend_tally@);
            let f = filtered(self.data@, t, genre_filter@, year_min_filter, year_max_filter, format_filter@);
            assert(recommend_list@ =~= first_ids(f, 100));
            if user_mode {
                assert(is_tally(self.data@, completed_scores@, user_anime@, score_format, t));
            } else {
                assert(is_related(self.data@, completed_scores@, user_anime@, score_format, mode@, t));
            }
            assert(recommend_list@ == first_ids(f, 100));
            if filters_on(genre_filter@, year_min_filter, year_max_filter, format_filter@) {
                assert forall|k: int| 0 <= k < recommend_list@.len() implies {
                    let a = self.data@[#[trigger] recommend_list@[k]];
                    &&& genre_filter@.len() > 0 ==> exists|g: int|
                        0 <= g < a.genres@.len() && #[trigger] a.genres@[g]@ == genre_filter@
                    &&& year_min_filter != 0 ==> (a.season_year is Some && a.season_year->0 >= year_min_filter)
                    &&& year_max_filter != 0 ==> (a.season_year is Some && a.season_year->0 <= year_max_filter)
                    &&& format_filter@.len() > 0 ==> (a.format is Some && a.format->0@ == format_filter@)
                } by {
                    assert(f[k].id == recommend_list@[k]);
                    assert(f.contains(f[k]));
                    law_filtered_meet_the_filters(
                        self.data@,
                        t,
                        genre_filter@,
                        year_min_filter,
                        year_max_filter,
                        format_filter@,
                        f[k],
                    );
                }
            }
        }
        recommend_list
    }
}

/// Taking one anime out of a walk without repeats takes it out of the walk's
/// set and leaves no repeats.
proof fn lemma_remove_from_walk(ks: Seq<i32>, i: int)
    requires
        ks.no_duplicates(),
        0 <= i < ks.len(),
    ensures
        ks.remove(i).no_duplicates(),
        ks.remove(i).to_set() == ks.to_set().remove(ks[i]),
{
    let r = ks.remove(i);
    assert forall|a: int, b: int| 0 <= a < r.len() && 0 <= b < r.len() && a != b implies r[a] != r[b] by {
        let a0 = if a < i { a } else { a + 1 };
        let b0 = if b < i { b } else { b + 1 };
        assert(r[a] == ks[a0] && r[b] == ks[b0]);
    }
    assert forall|x: i32| #[trigger] r.to_set().contains(x) == ks.to_set().remove(ks[i]).contains(x) by {
        if r.to_set().contains(x) {
            let a = choose|a: int| 0 <= a < r.len() && r[a] == x;
            let a0 = if a < i { a } else { a + 1 };
            assert(ks[a0] == x);
            assert(ks.to_set().contains(x));
        }
        if ks.to_set().remove(ks[i]).contains(x) {
            let a0 = choose|a: int| 0 <= a < ks.len() && ks[a] == x;
            assert(a0 != i);
            let a = if a0 < i { a0 } else { a0 - 1 };
            assert(r[a] == x);
        }
    }
    assert(r.to_set() =~= ks.to_set().remove(ks[i]));
}

/// The tally over a walk is the tally without one of its anime plus what
/// that anime adds.
proof fn lemma_tally_split(
    data: Map<i32, AnimeInfo>,
    scores: Map<i32, i32>,
    format: Option<String>,
    ks: Seq<i32>,
    i: int,
    id: i32,
)
    requires
        0 <= i < ks.len(),
    ensures
        tally_over(data, scores, format, ks, id) == tally_over(data, scores, format, ks.remove(i), id)
            + nodes_share(anime_recommendations(data, ks[i]), id, rating_modifier(scores[ks[i]], format)),
    decreases ks.len(),
{
    if i == ks.len() - 1 {
        assert(ks.remove(i) =~= ks.drop_last());
    } else {
        lemma_tally_split(data, scores, format, ks.drop_last(), i, id);
        assert(ks.remove(i).drop_last() =~= ks.drop_last().remove(i));
        assert(ks.remove(i).last() == ks.last());
    }
}

/// The best modifier over a walk is the best of the walk without one of its
/// anime and what that anime gives.
proof fn lemma_best_split(
    data: Map<i32, AnimeInfo>,
    scores: Map<i32, i32>,
    format: Option<String>,
    mode: Seq<char>,
    ks: Seq<i32>,
    i: int,
    id: i32,
)
    requires
        0 <= i < ks.len(),
    ensures
        best_modifier(data, scores, format, mode, ks, id) == merged(
            best_modifier(data, scores, format, mode, ks.remove(i), id),
            if data.contains_key(ks[i]) && relates(data[ks[i]].relations.edges@, mode, id) {
                Some(rating_modifier(scores[ks[i]], format))
            } else {
                None
            },
        ),
    decreases ks.len(),
{
    if i == ks.len() - 1 {
        assert(ks.remove(i) =~= ks.drop_last());
    } else {
        lemma_best_split(data, scores, format, mode, ks.drop_last(), i, id);
        assert(ks.remove(i).drop_last() =~= ks.drop_last().remove(i));
        assert(ks.remove(i).last() == ks.last());
    }
}

/// The rating an anime gets from the completed anime does not depend on the
/// order in which they are walked: any two walks of the same anime, each
/// without repeats, give the same tally.
pub proof fn law_tally_order_free(
    data: Map<i32, AnimeInfo>,
    scores: Map<i32, i32>,
    format: Option<String>,
    ks1: Seq<i32>,
    ks2: Seq<i32>,
    id: i32,
)
    requires
        ks1.no_duplicates(),
        ks2.no_duplicates(),
        ks1.to_set() == ks2.to_set(),
    ensures
        tally_over(data, scores, format, ks1, id) == tally_over(data, scores, format, ks2, id),
    decreases ks1.len(),
{
    ks1.unique_seq_to_set();
    ks2.unique_seq_to_set();
    if ks1.len() > 0 {
        let x = ks1.last();
        assert(ks1.to_set().contains(x)) by {
            assert(ks1[ks1.len() - 1] == x);
        }
        let i = choose|i: int| 0 <= i < ks2.len() && ks2[i] == x;
        lemma_tally_split(data, scores, format, ks2, i, id);
        lemma_remove_from_walk(ks1, ks1.len() - 1);
        lemma_remove_from_walk(ks2, i);
        assert(ks1.remove(ks1.len() - 1) =~= ks1.drop_last());
        law_tally_order_free(data, scores, format, ks1.drop_last(), ks2.remove(i), id);
    }
}

/// The best modifier that leads to an anime does not depend on the order in
/// which the completed anime are walked.
pub proof fn law_best_modifier_order_free(
    data: Map<i32, AnimeInfo>,
    scores: Map<i32, i32>,
    format: Option<String>,
    mode: Seq<char>,
    ks1: Seq<i32>,
    ks2: Seq<i32>,
    id: i32,
)
    requires
        ks1.no_duplicates(),
        ks2.no_duplicates(),
        ks1.to_set() == ks2.to_set(),
    ensures
        best_modifier(data, scores, format, mode, ks1, id) == best_modifier(data, scores, format, mode, ks2, id),
    decreases ks1.len(),
{
    ks1.unique_seq_to_set();
    ks2.unique_seq_to_set();
    if ks1.len() > 0 {
        let x = ks1.last();
        assert(ks1.to_set().contains(x)) by {
            assert(ks1[ks1.len() - 1] == x);
        }
        let i = choose|i: int| 0 <= i < ks2.len() && ks2[i] == x;
        lemma_best_split(data, scores, format, mode, ks2, i, id);
        lemma_remove_from_walk(ks1, ks1.len() - 1);
        lemma_remove_from_walk(ks2, i);
        assert(ks1.remove(ks1.len() - 1) =~= ks1.drop_last());
        law_best_modifier_order_free(data, scores, format, mode, ks1.drop_last(), ks2.remove(i), id);
    }
}

/// An anime is recommended among a walk exactly when some anime of the walk
/// recommends it, whatever the order.
pub proof fn law_recommended_among(data: Map<i32, AnimeInfo>, ks: Seq<i32>, id: i32)
    ensures
        recommended_among(data, ks, id) <==> exists|j: int|
            0 <= j < ks.len() && #[trigger] recommends_in(anime_recommendations(data, ks[j]), id),
    decreases ks.len(),
{
    if ks.len() > 0 {
        law_recommended_among(data, ks.drop_last(), id);
        if recommended_among(data, ks, id) {
            if recommended_among(data, ks.drop_last(), id) {
                let j = choose|j: int|
                    0 <= j < ks.drop_last().len() && #[trigger] recommends_in(
                        anime_recommendations(data, ks.drop_last()[j]),
                        id,
                    );
                assert(ks[j] == ks.drop_last()[j]);
            } else {
                assert(recommends_in(anime_recommendations(data, ks[ks.len() - 1]), id));
            }
        }
        if exists|j: int| 0 <= j < ks.len() && #[trigger] recommends_in(anime_recommendations(data, ks[j]), id) {
            let j = choose|j: int| 0 <= j < ks.len() && #[trigger] recommends_in(anime_recommendations(data, ks[j]), id);
            if j < ks.len() - 1 {
                assert(ks.drop_last()[j] == ks[j]);
            }
        }
    }
}

} // verus!
