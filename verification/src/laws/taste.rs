//! Laws of taste: what ratings say of tags, and how mods are ranked and recommended by it.

use vstd::prelude::*;

#[allow(unused_imports)]
use crate::database::{
    has_tag, is_top, is_weights, lemma_listed, lemma_unlisted, likes, listed_weight, occurrences,
    positive, slugs, summary_text, weight_keys, weight_of, weight_tags, FeedbackView, PackView,
    Weight,
};
#[allow(unused_imports)]
use crate::json::{object_map, str_array, whole_float};
#[allow(unused_imports)]
use crate::modrinth::{nested_views, HitView};
#[allow(unused_imports)]
use crate::number::dec;
#[allow(unused_imports)]
use crate::order::{ascending, is_descending, lemma_permutation_is_onto};
#[allow(unused_imports)]
use crate::pipeline::{
    is_plan, is_ranking, plan_facets, rank_key, rank_keys, score_of, tastes, unrated, SearchPlan,
};
#[allow(unused_imports)]
use crate::text::views;
#[allow(unused_imports)]
use crate::tools::feedback::{
    gallery_of, icon_of, last_with_slug, profile_tree, recommend_count, recommendation,
    recommendations, weights_map, Pictures,
};

verus! {

/// Every category counts, wherever it stands: the score of two lists of categories is the sum of
/// their scores, that of one category is its weight, and that of none is zero.
pub proof fn lemma_score_adds_up(a: Seq<Seq<char>>, b: Seq<Seq<char>>, c: Seq<char>, w: Seq<Weight>)
    ensures
        score_of(a + b, w) == score_of(a, w) + score_of(b, w),
        score_of(seq![c], w) == listed_weight(w, c),
        score_of(Seq::empty(), w) == 0,
    decreases b.len(),
{
    if b.len() == 0 {
        assert(a + b =~= a);
    } else {
        lemma_score_adds_up(a, b.drop_last(), c, w);
        assert((a + b).drop_last() =~= a + b.drop_last());
        assert((a + b).last() == b.last());
    }
    assert(seq![c].drop_last() =~= Seq::<Seq<char>>::empty());
    assert(score_of(seq![c].drop_last(), w) == 0);
}

/// The weight of a tag is the one that stands with it in the list, and zero where it is not in
/// it.
pub proof fn lemma_weight_of_a_tag(w: Seq<Weight>, i: int, tag: Seq<char>)
    requires
        ascending(weight_tags(w)),
    ensures
        0 <= i < w.len() && w[i].0 == tag ==> listed_weight(w, tag) == w[i].1,
        (forall|k: int| 0 <= k < w.len() ==> (#[trigger] w[k]).0 != tag) ==> listed_weight(w, tag)
            == 0,
{
    lemma_listed(w);
    if forall|k: int| 0 <= k < w.len() ==> (#[trigger] w[k]).0 != tag {
        assert(!weight_tags(w).contains(tag)) by {
            if weight_tags(w).contains(tag) {
                let k = choose|k: int|
                    0 <= k < weight_tags(w).len() && weight_tags(w)[k] == tag;
                assert(w[k].0 == tag);
            }
        }
        lemma_unlisted(w, tag);
    }
}

/// A ranking shows each hit with its score. Among hits with the same score chance decides, by the
/// upper 53 bits of the draw, and then the number of downloads.
pub proof fn lemma_ties_in_a_ranking(
    r: Seq<(HitView, int)>,
    hits: Seq<HitView>,
    weights: Seq<Weight>,
    draws: Seq<u64>,
    i: int,
    j: int,
) -> (at: (int, int))
    requires
        is_ranking(r, hits, weights, draws),
        draws.len() == hits.len(),
        forall|k: int|
            0 <= k < hits.len() ==> i128::MIN <= score_of(
                (#[trigger] hits[k]).display_categories,
                weights,
            ) <= i128::MAX,
        0 <= i < j < r.len(),
    ensures
        0 <= at.0 < hits.len() && 0 <= at.1 < hits.len() && at.0 != at.1,
        r[i].0 == hits[at.0] && r[j].0 == hits[at.1],
        r[i].1 == score_of(r[i].0.display_categories, weights),
        r[j].1 == score_of(r[j].0.display_categories, weights),
        r[i].1 >= r[j].1,
        r[i].1 == r[j].1 ==> draws[at.0] / 2048 >= draws[at.1] / 2048,
        r[i].1 == r[j].1 && draws[at.0] / 2048 == draws[at.1] / 2048 ==> r[i].0.downloads
            >= r[j].0.downloads,
{
    let keys = rank_keys(hits, weights, draws);
    let order = choose|order: Seq<usize>| #[trigger]
        is_descending(keys, order) && r == Seq::new(
            hits.len(),
            |k: int|
                (
                    hits[order[k] as int],
                    score_of(hits[order[k] as int].display_categories, weights),
                ),
        );
    let a = order[i] as int;
    let b = order[j] as int;
    assert(crate::order::goes_before(keys, order[i], order[j]));
    assert(keys[a] == rank_key(hits[a], weights, draws[a]));
    assert(keys[b] == rank_key(hits[b], weights, draws[b]));
    let x = (draws[a] / 2048) as int;
    let y = (draws[b] / 2048) as int;
    assert(0 <= x < 0x20_0000_0000_0000 && 0 <= y < 0x20_0000_0000_0000);
    (a, b)
}

/// A like moves the weight of each tag of the mod up by one, any other verdict down by one, as
/// often as the tag stands with it; all other weights stay.
pub proof fn lemma_verdicts_move_weights(
    feedback: Seq<FeedbackView>,
    f: FeedbackView,
    tag: Seq<char>,
)
    ensures
        weight_of(Seq::empty(), tag) == 0,
        f.verdict == "like"@ ==> weight_of(feedback.push(f), tag) == weight_of(feedback, tag)
            + occurrences(f.tags, tag),
        f.verdict != "like"@ ==> weight_of(feedback.push(f), tag) == weight_of(feedback, tag)
            - occurrences(f.tags, tag),
{
    assert(feedback.push(f).drop_last() =~= feedback);
    let n = occurrences(f.tags, tag) as int;
    assert(1 * n == n && (-1) * n == -n) by (nonlinear_arith);
}

/// How often a tag stands in a list: each place counts once.
pub proof fn lemma_tags_are_counted(a: Seq<Seq<char>>, b: Seq<Seq<char>>, t: Seq<char>, tag: Seq<char>)
    ensures
        occurrences(a + b, tag) == occurrences(a, tag) + occurrences(b, tag),
        occurrences(seq![t], tag) == (if t == tag {
            1int
        } else {
            0
        }),
        occurrences(Seq::empty(), tag) == 0,
    decreases b.len(),
{
    if b.len() == 0 {
        assert(a + b =~= a);
    } else {
        lemma_tags_are_counted(a, b.drop_last(), t, tag);
        assert((a + b).drop_last() =~= a + b.drop_last());
    }
    assert(seq![t].drop_last() =~= Seq::<Seq<char>>::empty());
    assert(occurrences(seq![t].drop_last(), tag) == 0);
}

/// The weights of a database: each tag of each rating is listed once with its weight, and no
/// other tag is.
pub proof fn lemma_every_tag_is_weighed(
    w: Seq<Weight>,
    feedback: Seq<FeedbackView>,
    i: int,
    tag: Seq<char>,
)
    requires
        is_weights(w, feedback),
    ensures
        0 <= i < feedback.len() && feedback[i].tags.contains(tag) ==> exists|k: int|
            0 <= k < w.len() && (#[trigger] w[k]).0 == tag && w[k].1 == weight_of(feedback, tag),
        0 <= i < w.len() ==> exists|k: int|
            0 <= k < feedback.len() && (#[trigger] feedback[k]).tags.contains(w[i].0),
        0 <= i < w.len() ==> w[i].1 == weight_of(feedback, w[i].0),
        weight_tags(w).no_duplicates(),
        listed_weight(w, tag) == (if has_tag(feedback, tag) {
            weight_of(feedback, tag)
        } else {
            0
        }),
{
    crate::laws::values::lemma_ascending_is_distinct(weight_tags(w));
    if 0 <= i < feedback.len() && feedback[i].tags.contains(tag) {
        assert(has_tag(feedback, tag));
        assert(weight_tags(w).contains(tag));
        let k = choose|k: int| 0 <= k < weight_tags(w).len() && weight_tags(w)[k] == tag;
        assert(w[k].0 == tag);
    }
    if 0 <= i < w.len() {
        assert(weight_tags(w)[i] == w[i].0);
        assert(weight_tags(w).contains(w[i].0));
        assert(has_tag(feedback, w[i].0));
    }
    lemma_listed(w);
    if weight_tags(w).contains(tag) {
        let k = choose|k: int| 0 <= k < weight_tags(w).len() && weight_tags(w)[k] == tag;
        assert(w[k].0 == tag);
    } else {
        lemma_unlisted(w, tag);
    }
}

/// The favourite tags: at most as many as were asked for, all liked more than disliked, the
/// greatest weight first; and a tag with a weight above zero is left out only where so many have a
/// weight that is not less.
pub proof fn lemma_favourites(r: Seq<Seq<char>>, s: Seq<Weight>, n: nat, i: int, j: int, k: int)
    requires
        is_top(r, s, n),
        ascending(weight_tags(s)),
        forall|x: int| 0 <= x < s.len() ==> i128::MIN <= (#[trigger] s[x]).1 <= i128::MAX,
    ensures
        r.len() <= n,
        0 <= i < r.len() ==> listed_weight(s, r[i]) > 0,
        0 <= i < j < r.len() ==> listed_weight(s, r[i]) >= listed_weight(s, r[j]),
        0 <= i < j < r.len() ==> r[i] != r[j],
        0 <= k < s.len() && s[k].1 > 0 && r.len() < n ==> r.contains(s[k].0),
        0 <= k < s.len() && s[k].1 > 0 && !r.contains(s[k].0) && 0 <= i < r.len() ==> listed_weight(
            s,
            r[i],
        ) >= s[k].1,
{
    let p = positive(s);
    let keep = |w: Weight| w.1 > 0;
    let keys = weight_keys(p);
    let order = choose|order: Seq<usize>| #[trigger]
        is_descending(keys, order) && r == Seq::new(
            if n <= p.len() {
                n
            } else {
                p.len()
            },
            |x: int| p[order[x] as int].0,
        );
    lemma_listed(s);
    crate::laws::values::lemma_ascending_is_distinct(weight_tags(s));
    broadcast use vstd::seq_lib::group_filter_ensures;

    assert forall|x: int| 0 <= x < p.len() implies keep(#[trigger] p[x]) && s.contains(p[x])
        && listed_weight(s, p[x].0) == p[x].1 && i128::MIN <= p[x].1 <= i128::MAX by {
        assert(keep(p[x]));
        assert(p.contains(p[x]));
        s.lemma_filter_contains_rev(keep, p[x]);
        let y = choose|y: int| 0 <= y < s.len() && s[y] == p[x];
        assert(listed_weight(s, s[y].0) == s[y].1);
    }
    assert forall|x: int| 0 <= x < p.len() implies #[trigger] keys[x].0 == p[x].1 by {
        assert(listed_weight(s, p[x].0) == p[x].1);
    }
    if 0 <= i < r.len() {
        assert(r[i] == p[order[i] as int].0);
        assert(keep(p[order[i] as int]));
    }
    if 0 <= i < j < r.len() {
        assert(crate::order::goes_before(keys, order[i], order[j]));
        assert(r[j] == p[order[j] as int].0);
        assert(keys[order[i] as int].0 == p[order[i] as int].1);
        assert(keys[order[j] as int].0 == p[order[j] as int].1);
        lemma_positive_is_distinct(s);
        assert(order[i] != order[j]);
        assert(weight_tags(p)[order[i] as int] != weight_tags(p)[order[j] as int]);
    }
    if 0 <= k < s.len() && s[k].1 > 0 {
        s.lemma_filter_contains(keep, k);
        assert(p.contains(s[k]));
        let x = choose|x: int| 0 <= x < p.len() && p[x] == s[k];
        let m = lemma_permutation_is_onto(order, p.len(), x);
        if m < r.len() {
            assert(r[m] == s[k].0);
        } else if 0 <= i < r.len() {
            assert(crate::order::goes_before(keys, order[i], order[m]));
            assert(keys[order[i] as int].0 == p[order[i] as int].1);
            assert(keys[order[m] as int].0 == p[order[m] as int].1);
        }
    }
}

proof fn lemma_positive_is_distinct(s: Seq<Weight>)
    requires
        weight_tags(s).no_duplicates(),
    ensures
        weight_tags(positive(s)).no_duplicates(),
    decreases s.len(),
{
    reveal(Seq::filter);
    let keep = |w: Weight| w.1 > 0;
    broadcast use vstd::seq_lib::group_filter_ensures;

    if s.len() > 0 {
        let d = s.drop_last();
        assert(forall|x: int| 0 <= x < d.len() ==> weight_tags(d)[x] == weight_tags(s)[x]);
        lemma_positive_is_distinct(d);
        let p = positive(d);
        let q = positive(s);
        assert forall|x: int, y: int|
            0 <= x < q.len() && 0 <= y < q.len() && x != y implies weight_tags(q)[x] != weight_tags(
            q,
        )[y] by {
            if keep(s.last()) {
                assert(q =~= p.push(s.last()));
                if x < p.len() && y < p.len() {
                    assert(weight_tags(p)[x] != weight_tags(p)[y]);
                } else {
                    let z = if x < p.len() {
                        x
                    } else {
                        y
                    };
                    assert(p.contains(p[z]));
                    d.lemma_filter_contains_rev(keep, p[z]);
                    let u = choose|u: int| 0 <= u < d.len() && d[u] == p[z];
                    assert(weight_tags(s)[u] == p[z].0);
                    assert(weight_tags(s)[s.len() - 1] == s.last().0);
                }
            } else {
                assert(q =~= p);
                assert(weight_tags(p)[x] != weight_tags(p)[y]);
            }
        }
    } else {
        assert(positive(s) =~= Seq::<Weight>::empty());
    }
}

/// Likes are counted one by one.
pub proof fn lemma_likes_are_counted(a: Seq<FeedbackView>, b: Seq<FeedbackView>, f: FeedbackView)
    ensures
        likes(a + b) == likes(a) + likes(b),
        likes(seq![f]) == (if f.verdict == "like"@ {
            1int
        } else {
            0
        }),
        likes(Seq::empty()) == 0,
    decreases b.len(),
{
    if b.len() == 0 {
        assert(a + b =~= a);
    } else {
        lemma_likes_are_counted(a, b.drop_last(), f);
        assert((a + b).drop_last() =~= a + b.drop_last());
    }
    assert(seq![f].drop_last() =~= Seq::<FeedbackView>::empty());
    assert(likes(seq![f].drop_last()) == 0);
}

/// The summary names the number of ratings, of likes, of all others, and of packs.
pub proof fn lemma_summary(feedback: Seq<FeedbackView>, packs: nat, n: nat)
    requires
        likes(feedback) + n == feedback.len(),
    ensures
        summary_text(feedback, packs) == "反馈 "@ + dec(feedback.len()) + " 条（喜欢 "@ + dec(
            likes(feedback),
        ) + " / 不喜欢 "@ + dec(n) + "）| 组包 "@ + dec(packs) + " 次"@,
{
}

/// The tags of a taste are the categories of a mod that name no loader, in their order.
pub proof fn lemma_loaders_are_no_taste(a: Seq<Seq<char>>, c: Seq<char>, b: Seq<Seq<char>>)
    ensures
        tastes(a + b) == tastes(a) + tastes(b),
        tastes(seq![c]) == (if c == "fabric"@ || c == "forge"@ || c == "neoforge"@ || c == "quilt"@
            || c == "vanilla"@ {
            Seq::<Seq<char>>::empty()
        } else {
            seq![c]
        }),
{
    let keep = |x: Seq<char>| !crate::pipeline::is_loader_tag(x);
    Seq::filter_distributes_over_add(a, b, keep);
    broadcast use Seq::lemma_filter_push;

    assert(seq![c] =~= Seq::<Seq<char>>::empty().push(c));
    assert(Seq::<Seq<char>>::empty().filter(keep) =~= Seq::<Seq<char>>::empty()) by {
        reveal(Seq::filter);
    }
    if !keep(c) {
        assert(tastes(seq![c]) =~= Seq::<Seq<char>>::empty());
    } else {
        assert(tastes(seq![c]) =~= seq![c]);
    }
}

/// What is looked at for a recommendation: mods for the game version, for the loader where one is
/// named, and with one of the favourite tags where there are any; without favourites those with
/// most downloads, else those updated last; one of five pages of twenty.
pub proof fn lemma_what_is_looked_at(
    p: SearchPlan,
    game_version: Seq<char>,
    loader: Seq<char>,
    tags: Seq<Seq<char>>,
    draw: u32,
    i: int,
)
    requires
        is_plan(p, game_version, loader, tags, draw),
    ensures
        ({
            let f = nested_views(p.facets@);
            &&& f.contains(seq!["versions:"@ + game_version])
            &&& (loader.len() > 0 ==> f.contains(seq!["categories:"@ + loader]))
            &&& (tags.len() > 0 ==> f.last().len() == tags.len())
            &&& (0 <= i < tags.len() ==> f.last()[i] == "categories:"@ + tags[i])
            &&& f.len() == 1 + (if loader.len() > 0 {
                1int
            } else {
                0
            }) + (if tags.len() > 0 {
                1int
            } else {
                0
            })
        }),
        tags.len() == 0 ==> p.index@ == "downloads"@,
        tags.len() > 0 ==> p.index@ == "updated"@,
        p.offset == 20 * (draw % 5),
{
    let f = plan_facets(game_version, loader, tags);
    assert(f[0] == seq!["versions:"@ + game_version]);
    if loader.len() > 0 {
        assert(f[1] == seq!["categories:"@ + loader]);
    }
}

/// What the user has rated is left out, and all else is kept in its order.
pub proof fn lemma_rated_are_left_out(a: Seq<HitView>, h: HitView, b: Seq<HitView>, rated: Seq<Seq<char>>)
    ensures
        unrated(a + b, rated) == unrated(a, rated) + unrated(b, rated),
        unrated(seq![h], rated) == (if rated.contains(h.slug) {
            Seq::<HitView>::empty()
        } else {
            seq![h]
        }),
{
    let keep = |x: HitView| !rated.contains(x.slug);
    Seq::filter_distributes_over_add(a, b, keep);
    broadcast use Seq::lemma_filter_push;

    assert(seq![h] =~= Seq::<HitView>::empty().push(h));
    assert(Seq::<HitView>::empty().filter(keep) =~= Seq::<HitView>::empty()) by {
        reveal(Seq::filter);
    }
    if keep(h) {
        assert(unrated(seq![h], rated) =~= seq![h]);
    } else {
        assert(unrated(seq![h], rated) =~= Seq::<HitView>::empty());
    }
}

/// A rating is of the mod that it names.
pub proof fn lemma_rated_slugs(feedback: Seq<FeedbackView>, i: int)
    ensures
        slugs(feedback).len() == feedback.len(),
        0 <= i < feedback.len() ==> slugs(feedback)[i] == feedback[i].slug,
{
}

/// As many mods are recommended as were asked for, from 1 to 10; 5 where nothing was said. They
/// are the first of the ranking, in its order.
pub proof fn lemma_number_of_recommendations(
    n: u32,
    ranked: Seq<(HitView, int)>,
    m: nat,
    pictures: Seq<Pictures>,
    i: int,
)
    ensures
        recommend_count(None) == 5,
        1 <= n <= 10 ==> recommend_count(Some(n)) == n,
        n == 0 ==> recommend_count(Some(n)) == 1,
        n > 10 ==> recommend_count(Some(n)) == 10,
        recommendations(ranked, m, pictures).len() <= m,
        ranked.len() >= m ==> recommendations(ranked, m, pictures).len() == m,
        ranked.len() < m ==> recommendations(ranked, m, pictures).len() == ranked.len(),
        0 <= i < recommendations(ranked, m, pictures).len() ==> recommendations(
            ranked,
            m,
            pictures,
        )[i].str_at("slug"@) == Some(ranked[i].0.slug),
{
    if 0 <= i < recommendations(ranked, m, pictures).len() {
        lemma_recommendation_as_told(ranked[i].0, ranked[i].1, pictures);
    }
}

/// What is told of a recommended mod is what the catalogue said of it, its score, and where it
/// is.
pub proof fn lemma_recommendation_as_told(h: HitView, score: int, pictures: Seq<Pictures>)
    ensures
        ({
            let t = recommendation(h, score, pictures);
            &&& t.str_at("slug"@) == Some(h.slug)
            &&& t.str_at("title"@) == Some(h.title)
            &&& t.str_at("description"@) == Some(h.description)
            &&& t.u64_at("downloads"@) == Some(h.downloads)
            &&& t.get("categories"@) == Some(str_array(h.display_categories))
            &&& t.get("taste_score"@) == Some(whole_float(score))
            &&& t.str_at("icon_url"@) == Some(icon_of(pictures, h.slug))
            &&& t.str_at("url"@) == Some("https://modrinth.com/mod/"@ + h.slug)
            &&& t.get("gallery"@) == Some(str_array(gallery_of(pictures, h.slug)))
        }),
{
    reveal_with_fuel(object_map, 10);
    reveal_strlit("slug");
    reveal_strlit("title");
    reveal_strlit("description");
    reveal_strlit("downloads");
    reveal_strlit("categories");
    reveal_strlit("taste_score");
    reveal_strlit("icon_url");
    reveal_strlit("url");
    reveal_strlit("gallery");
    assert("slug"@.len() == 4 && "title"@.len() == 5 && "description"@.len() == 11
        && "downloads"@.len() == 9 && "categories"@.len() == 10 && "taste_score"@.len() == 11
        && "icon_url"@.len() == 8 && "url"@.len() == 3 && "gallery"@.len() == 7);
    assert("description"@[0] == 'd' && "taste_score"@[0] == 't');
}

/// The pictures of a mod are those of the last entry with its slug, at most three screenshots, in
/// their order; none where there is no such entry.
pub proof fn lemma_pictures_of_a_mod(s: Seq<Pictures>, slug: Seq<char>, k: int)
    ensures
        0 <= k < s.len() && s[k].slug@ == slug && (forall|j: int|
            k < j < s.len() ==> (#[trigger] s[j]).slug@ != slug) ==> icon_of(s, slug)
            == s[k].icon_url@ && {
            let g = views(s[k].gallery@);
            &&& gallery_of(s, slug).len() <= 3
            &&& (g.len() <= 3 ==> gallery_of(s, slug) == g)
            &&& (g.len() > 3 ==> gallery_of(s, slug) == g.take(3))
        },
        (forall|j: int| 0 <= j < s.len() ==> (#[trigger] s[j]).slug@ != slug) ==> icon_of(
            s,
            slug,
        ).len() == 0 && gallery_of(s, slug).len() == 0,
{
    lemma_last_with_slug(s, slug);
    if 0 <= k < s.len() && s[k].slug@ == slug && (forall|j: int|
        k < j < s.len() ==> (#[trigger] s[j]).slug@ != slug) {
        let m = last_with_slug(s, slug);
        if m > k {
            assert(s[m].slug@ != slug);
        }
        let g = views(s[k].gallery@);
        if g.len() <= 3 {
            assert(g.take(g.len() as int) =~= g);
        }
    }
    if forall|j: int| 0 <= j < s.len() ==> (#[trigger] s[j]).slug@ != slug {
        let m = last_with_slug(s, slug);
        if m >= 0 {
            assert(s[m].slug@ != slug);
        }
    }
}

proof fn lemma_last_with_slug(s: Seq<Pictures>, slug: Seq<char>)
    ensures
        -1 <= last_with_slug(s, slug) < s.len(),
        last_with_slug(s, slug) >= 0 ==> s[last_with_slug(s, slug)].slug@ == slug,
        forall|j: int| last_with_slug(s, slug) < j < s.len() ==> (#[trigger] s[j]).slug@ != slug,
    decreases s.len(),
{
    if s.len() > 0 && s.last().slug@ != slug {
        let d = s.drop_last();
        lemma_last_with_slug(d, slug);
        assert(forall|j: int| 0 <= j < d.len() ==> d[j] == s[j]);
    }
}

/// The profile tells the summary, the favourite tags, the weight of each tag, and the last three
/// packs, the last first.
pub proof fn lemma_profile(
    ratings: Seq<FeedbackView>,
    packs: Seq<PackView>,
    w: Seq<Weight>,
    top: Seq<Seq<char>>,
    i: int,
)
    requires
        weight_tags(w).no_duplicates(),
    ensures
        ({
            let t = profile_tree(ratings, packs, w, top);
            &&& t.str_at("summary"@) == Some(summary_text(ratings, packs.len()))
            &&& t.get("top_tags"@) == Some(str_array(top))
            &&& (t.get("taste_weights"@) matches Some(m) && (0 <= i < w.len() ==> m.get(w[i].0)
                == Some(whole_float(w[i].1))))
            &&& (t.array_at("recent_packs"@) matches Some(r) && {
                &&& r.len() <= 3 && r.len() <= packs.len()
                &&& (packs.len() >= 3 ==> r.len() == 3)
                &&& (packs.len() < 3 ==> r.len() == packs.len())
                &&& (0 <= i < r.len() ==> r[i].str_at("name"@) == Some(
                    packs[packs.len() - 1 - i].name,
                ) && r[i].get("mod_slugs"@) == Some(
                    str_array(packs[packs.len() - 1 - i].mod_slugs),
                ) && r[i].str_at("created_at"@) == Some(packs[packs.len() - 1 - i].created_at))
            })
        }),
{
    reveal_with_fuel(object_map, 5);
    reveal_strlit("summary");
    reveal_strlit("taste_weights");
    reveal_strlit("top_tags");
    reveal_strlit("recent_packs");
    reveal_strlit("name");
    reveal_strlit("mod_slugs");
    reveal_strlit("created_at");
    assert("summary"@.len() == 7 && "taste_weights"@.len() == 13 && "top_tags"@.len() == 8
        && "recent_packs"@.len() == 12);
    assert("name"@.len() == 4 && "mod_slugs"@.len() == 9 && "created_at"@.len() == 10);
    if 0 <= i < w.len() {
        lemma_weights_map(w, i);
    }
}

proof fn lemma_weights_map(w: Seq<Weight>, i: int)
    requires
        weight_tags(w).no_duplicates(),
        0 <= i < w.len(),
    ensures
        weights_map(w).dom().contains(w[i].0),
        weights_map(w)[w[i].0] == whole_float(w[i].1),
    decreases w.len(),
{
    if i < w.len() - 1 {
        let d = w.drop_last();
        assert(forall|x: int| 0 <= x < d.len() ==> weight_tags(d)[x] == weight_tags(w)[x]);
        lemma_weights_map(d, i);
        assert(weight_tags(w)[i] != weight_tags(w)[w.len() - 1]);
    }
}

} // verus!
