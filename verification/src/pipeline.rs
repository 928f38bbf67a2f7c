//! Finding mods: keywords, presets, taste and recommendations.

use vstd::prelude::*;
use vstd::string::StringExecFns;

use crate::database::UserDatabase;
#[allow(unused_imports)]
use crate::database::{
    is_top, is_weights, listed_weight, slugs, weight_views, FeedbackView, Weight,
};
#[allow(unused_imports)]
use crate::json::opt_view;
use crate::modrinth::Hit;
#[allow(unused_imports)]
use crate::modrinth::{hit_views, nested_views, HitView};
#[allow(unused_imports)]
use crate::number::{all_digits, dec};
use crate::number::u64_to_string;
use crate::order::descending;
#[allow(unused_imports)]
use crate::order::{is_descending, is_sorted_set, Key};
use crate::text::{
    char_is_digit, chars_of, contains, is_empty, join, list_contains, split, str_eq, to_lowercase,
    trim,
};
#[allow(unused_imports)]
use crate::text::{
    contains_spec, is_digit, join_spec, lemma_views_push, split_spec, trim_spec, unicode_lower,
    views,
};

verus! {

// ---------------------------------------------------------------------------
// Keywords
// ---------------------------------------------------------------------------

/// The Chinese keywords that have an English equivalent in the catalogue, with that equivalent.
/// Of several that occur in a query the first in this list counts.
pub open spec fn keyword_map() -> Seq<(Seq<char>, Seq<char>)> {
    seq![
        ("龙世界"@, "dragon"@),
        ("恶龙"@, "dragon"@),
        ("龙"@, "dragon"@),
        ("魔法世界"@, "magic"@),
        ("奇幻"@, "fantasy"@),
        ("魔法"@, "magic"@),
        ("法术"@, "spell"@),
        ("地牢"@, "dungeon"@),
        ("迷宫"@, "dungeon"@),
        ("城堡"@, "castle"@),
        ("中世纪"@, "medieval"@),
        ("探索"@, "exploration"@),
        ("冒险"@, "adventure"@),
        ("科技"@, "technology"@),
        ("工业"@, "industry"@),
        ("性能"@, "optimization"@),
        ("优化"@, "optimization"@),
        ("装饰"@, "decoration"@),
        ("家具"@, "furniture"@),
        ("建筑"@, "building"@),
        ("存储"@, "storage"@),
        ("食物"@, "food"@),
        ("魔物"@, "monster"@),
        ("空岛"@, "skyblock"@),
    ]
}

/// The equivalent of the first keyword that occurs in `s`.
pub open spec fn first_keyword(s: Seq<char>, map: Seq<(Seq<char>, Seq<char>)>) -> Option<Seq<char>>
    decreases map.len(),
{
    if map.len() == 0 {
        None
    } else if contains_spec(s, map[0].0) {
        Some(map[0].1)
    } else {
        first_keyword(s, map.drop_first())
    }
}

/// A query in lower case as the catalogue understands it: the equivalent of the first keyword
/// that occurs in it, or the query itself.
pub open spec fn translated_lower(s: Seq<char>) -> Seq<char> {
    if s.len() == 0 {
        s
    } else {
        match first_keyword(s, keyword_map()) {
            Some(en) => en,
            None => s,
        }
    }
}

/// A query as the catalogue understands it: trimmed and in lower case, or the equivalent of the
/// first keyword that occurs in it.
pub open spec fn translated(q: Seq<char>) -> Seq<char> {
    translated_lower(unicode_lower(trim_spec(q)))
}

fn keywords() -> (r: Vec<(&'static str, &'static str)>)
    ensures
        r@.len() == keyword_map().len(),
        forall|i: int|
            0 <= i < r@.len() ==> (#[trigger] r@[i]).0@ == keyword_map()[i].0 && r@[i].1@
                == keyword_map()[i].1,
{
    vec![
        ("龙世界", "dragon"),
        ("恶龙", "dragon"),
        ("龙", "dragon"),
        ("魔法世界", "magic"),
        ("奇幻", "fantasy"),
        ("魔法", "magic"),
        ("法术", "spell"),
        ("地牢", "dungeon"),
        ("迷宫", "dungeon"),
        ("城堡", "castle"),
        ("中世纪", "medieval"),
        ("探索", "exploration"),
        ("冒险", "adventure"),
        ("科技", "technology"),
        ("工业", "industry"),
        ("性能", "optimization"),
        ("优化", "optimization"),
        ("装饰", "decoration"),
        ("家具", "furniture"),
        ("建筑", "building"),
        ("存储", "storage"),
        ("食物", "food"),
        ("魔物", "monster"),
        ("空岛", "skyblock"),
    ]
}

/// Turns a query into one that the catalogue understands.
pub fn translate_keyword(q: &str) -> (r: String)
    ensures
        r@ == translated(q@),
{
    let t = trim(q);
    translate_lower(to_lowercase(t.as_str()))
}

/// Turns a query in lower case into one that the catalogue understands.
pub fn translate_lower(s: String) -> (r: String)
    ensures
        r@ == translated_lower(s@),
{
    if is_empty(s.as_str()) {
        return s;
    }
    let list = keywords();
    let ghost map = keyword_map();
    assert(map.skip(0) =~= map);
    for i in 0..list.len()
        invariant
            map == keyword_map(),
            list@.len() == map.len(),
            forall|i: int|
                0 <= i < list@.len() ==> (#[trigger] list@[i]).0@ == map[i].0 && list@[i].1@
                    == map[i].1,
            first_keyword(s@, map) == first_keyword(s@, map.skip(i as int)),
            s@.len() > 0,
    {
        assert(map.skip(i as int)[0] == map[i as int]);
        assert(map.skip(i as int).drop_first() =~= map.skip(i + 1));
        assert(list@[i as int].0@ == map[i as int].0);
        if contains(s.as_str(), list[i].0) {
            return list[i].1.to_string();
        }
    }
    s
}

// ---------------------------------------------------------------------------
// Versions, loaders and presets
// ---------------------------------------------------------------------------

/// Whether a text is a game version: one to four groups of digits, separated by dots.
pub open spec fn game_version_ok(s: Seq<char>) -> bool {
    let p = split_spec(s, '.');
    p.len() <= 4 && forall|i: int|
        0 <= i < p.len() ==> (#[trigger] p[i]).len() > 0 && all_digits(p[i])
}

fn is_number(s: &str) -> (r: bool)
    ensures
        r == (s@.len() > 0 && all_digits(s@)),
{
    let v = chars_of(s);
    if v.len() == 0 {
        return false;
    }
    for i in 0..v.len()
        invariant
            v@ == s@,
            forall|j: int| 0 <= j < i ==> is_digit(#[trigger] v@[j]),
    {
        if !char_is_digit(v[i]) {
            return false;
        }
    }
    true
}

/// Whether a text is a game version.
pub fn is_valid_game_version(s: &str) -> (r: bool)
    ensures
        r == game_version_ok(s@),
{
    let parts = split(s, '.');
    let ghost p = views(parts@);
    if parts.len() > 4 {
        return false;
    }
    for i in 0..parts.len()
        invariant
            p == views(parts@),
            p == split_spec(s@, '.'),
            forall|j: int| 0 <= j < i ==> (#[trigger] p[j]).len() > 0 && all_digits(p[j]),
    {
        assert(p[i as int] == parts@[i as int]@);
        if !is_number(parts[i].as_str()) {
            return false;
        }
    }
    true
}

/// Whether a text names a mod loader.
pub open spec fn loader_ok(s: Seq<char>) -> bool {
    s == "fabric"@ || s == "forge"@ || s == "neoforge"@ || s == "quilt"@
}

/// Whether a text names a mod loader.
pub fn is_valid_loader(s: &str) -> (r: bool)
    ensures
        r == loader_ok(s@),
{
    str_eq(s, "fabric") || str_eq(s, "forge") || str_eq(s, "neoforge") || str_eq(s, "quilt")
}

/// How many mods one search may return.
pub const MAX_SEARCH_LIMIT: u32 = 20;

/// The part of a preset that states the game version.
pub open spec fn version_part(gv: Option<Seq<char>>) -> Seq<Seq<char>> {
    match gv {
        Some(g) => if game_version_ok(trim_spec(g)) {
            seq!["Minecraft 版本 "@ + trim_spec(g)]
        } else {
            Seq::empty()
        },
        None => Seq::empty(),
    }
}

/// The part of a preset that states the loader.
pub open spec fn loader_part(loader: Option<Seq<char>>) -> Seq<Seq<char>> {
    match loader {
        Some(l) => if loader_ok(trim_spec(l)) {
            seq![trim_spec(l) + " 加载器"@]
        } else {
            Seq::empty()
        },
        None => Seq::empty(),
    }
}

/// The part of a preset that states the number of candidates.
pub open spec fn limit_part(limit: Option<u32>) -> Seq<Seq<char>> {
    match limit {
        Some(n) => if 1 <= n <= MAX_SEARCH_LIMIT {
            seq!["候选数量 "@ + dec(n as nat)]
        } else {
            Seq::empty()
        },
        None => Seq::empty(),
    }
}

/// What is put before a message to state a preset. Values that are not valid are left out;
/// nothing where none is valid.
pub open spec fn preset_text(
    gv: Option<Seq<char>>,
    loader: Option<Seq<char>>,
    limit: Option<u32>,
) -> Option<Seq<char>> {
    let parts = version_part(gv) + loader_part(loader) + limit_part(limit);
    if parts.len() == 0 {
        None
    } else {
        Some("[界面预设: "@ + join_spec(parts, " / "@) + "] "@)
    }
}

/// The view of an optional string slice.
pub open spec fn opt_slice(o: Option<&str>) -> Option<Seq<char>> {
    match o {
        Some(s) => Some(s@),
        None => None,
    }
}

/// What is put before a message to state a preset.
pub fn preset_prefix(gv: Option<&str>, loader: Option<&str>, limit: Option<u32>) -> (r: Option<
    String,
>)
    ensures
        opt_view(r) == preset_text(opt_slice(gv), opt_slice(loader), limit),
{
    let ghost vp = version_part(opt_slice(gv));
    let ghost lp = loader_part(opt_slice(loader));
    let ghost np = limit_part(limit);
    let mut parts: Vec<String> = Vec::new();
    match gv {
        Some(g) => {
            let g = trim(g);
            if !is_empty(g.as_str()) && is_valid_game_version(g.as_str()) {
                parts.push("Minecraft 版本 ".to_string().concat(g.as_str()));
            }
            proof {
                if g@.len() == 0 {
                    lemma_empty_is_no_version(g@);
                }
            }
        },
        None => {},
    }
    assert(views(parts@) =~= vp);
    match loader {
        Some(l) => {
            let l = trim(l);
            proof {
                lemma_empty_is_no_loader();
            }
            if !is_empty(l.as_str()) && is_valid_loader(l.as_str()) {
                parts.push(l.concat(" 加载器"));
            }
        },
        None => {},
    }
    assert(views(parts@) =~= vp + lp);
    match limit {
        Some(n) => if n >= 1 && n <= MAX_SEARCH_LIMIT {
            parts.push("候选数量 ".to_string().concat(u64_to_string(n as u64).as_str()));
        },
        None => {},
    }
    assert(views(parts@) =~= vp + lp + np);
    if parts.len() == 0 {
        None
    } else {
        Some("[界面预设: ".to_string().concat(join(&parts, " / ").as_str()).concat("] "))
    }
}

proof fn lemma_empty_is_no_version(s: Seq<char>)
    requires
        s.len() == 0,
    ensures
        !game_version_ok(s),
{
    let p = split_spec(s, '.');
    assert(p.len() == 1 && p[0].len() == 0);
}

proof fn lemma_empty_is_no_loader()
    ensures
        forall|s: Seq<char>| #[trigger] loader_ok(s) ==> s.len() > 0,
{
    reveal_strlit("fabric");
    reveal_strlit("forge");
    reveal_strlit("neoforge");
    reveal_strlit("quilt");
}

/// Whether a category names a loader rather than a taste.
pub open spec fn is_loader_tag(c: Seq<char>) -> bool {
    c == "fabric"@ || c == "forge"@ || c == "neoforge"@ || c == "quilt"@ || c == "vanilla"@
}

/// The categories that tell of a taste: all but the loaders, in their order.
pub open spec fn tastes(s: Seq<Seq<char>>) -> Seq<Seq<char>> {
    s.filter(|c: Seq<char>| !is_loader_tag(c))
}

/// The categories that tell of a taste.
pub fn taste_tags(categories: &[String]) -> (r: Vec<String>)
    ensures
        views(r@) == tastes(views(categories@)),
{
    let mut r: Vec<String> = Vec::new();
    let ghost all = views(categories@);
    let ghost keep = |c: Seq<char>| !is_loader_tag(c);
    proof {
        reveal(Seq::filter);
    }
    assert(views(r@) =~= all.take(0).filter(keep));
    for i in 0..categories.len()
        invariant
            all == views(categories@),
            keep == (|c: Seq<char>| !is_loader_tag(c)),
            views(r@) == all.take(i as int).filter(keep),
    {
        broadcast use Seq::lemma_filter_push;

        assert(all.take(i + 1) =~= all.take(i as int).push(all[i as int]));
        assert(all[i as int] == categories@[i as int]@);
        let c = categories[i].as_str();
        if !(is_valid_loader(c) || str_eq(c, "vanilla")) {
            let t = categories[i].clone();
            proof {
                lemma_views_push(r@, t);
            }
            r.push(t);
        }
    }
    assert(all.take(categories@.len() as int) =~= all);
    r
}

// ---------------------------------------------------------------------------
// Ranking
// ---------------------------------------------------------------------------

/// A hit with its score: how well it suits the taste of the user.
pub struct ScoredHit {
    pub hit: Hit,
    pub score: i128,
}

/// The views of a list of scored hits.
pub open spec fn scored_views(s: Seq<ScoredHit>) -> Seq<(HitView, int)> {
    s.map_values(|h: ScoredHit| (h.hit@, h.score as int))
}

/// The score of a mod: the weights of its categories, added up.
pub open spec fn score_of(categories: Seq<Seq<char>>, weights: Seq<Weight>) -> int
    decreases categories.len(),
{
    if categories.len() == 0 {
        0
    } else {
        score_of(categories.drop_last(), weights) + listed_weight(weights, categories.last())
    }
}

/// The sort key of a hit: its score; among equal scores chance decides, by the upper 53 bits of
/// the draw; then the number of downloads.
pub open spec fn rank_key(h: HitView, weights: Seq<Weight>, draw: u64) -> Key {
    (
        score_of(h.display_categories, weights) as i128,
        ((draw / 2048) * 0x1_0000_0000_0000_0000 + h.downloads) as i128,
    )
}

/// The sort keys of hits.
pub open spec fn rank_keys(hits: Seq<HitView>, weights: Seq<Weight>, draws: Seq<u64>) -> Seq<Key> {
    Seq::new(hits.len(), |i: int| rank_key(hits[i], weights, draws[i]))
}

/// Whether `r` are the hits with their scores, sorted by the given draws.
pub open spec fn is_ranking(
    r: Seq<(HitView, int)>,
    hits: Seq<HitView>,
    weights: Seq<Weight>,
    draws: Seq<u64>,
) -> bool {
    exists|order: Seq<usize>| #[trigger]
        is_descending(rank_keys(hits, weights, draws), order) && r == Seq::new(
            hits.len(),
            |i: int|
                (
                    hits[order[i] as int],
                    score_of(hits[order[i] as int].display_categories, weights),
                ),
        )
}

fn weight_at(weights: &Vec<(String, i64)>, tag: &str) -> (r: i64)
    ensures
        r == listed_weight(weight_views(weights@), tag@),
{
    let ghost all = weight_views(weights@);
    let mut n: usize = weights.len();
    assert(all.take(n as int) =~= all);
    while n > 0
        invariant
            n <= weights@.len(),
            all == weight_views(weights@),
            listed_weight(all, tag@) == listed_weight(all.take(n as int), tag@),
        decreases n,
    {
        assert(all.take(n as int).drop_last() =~= all.take(n - 1));
        assert(all.take(n as int).last() == all[n - 1]);
        if str_eq(weights[n - 1].0.as_str(), tag) {
            return weights[n - 1].1;
        }
        n -= 1;
    }
    0
}

fn score(categories: &Vec<String>, weights: &Vec<(String, i64)>) -> (r: i128)
    ensures
        r == score_of(views(categories@), weight_views(weights@)),
{
    let ghost all = views(categories@);
    let ghost w = weight_views(weights@);
    let mut total: i128 = 0;
    assert(all.take(0) =~= Seq::<Seq<char>>::empty());
    let n: usize = categories.len();
    for i in 0..n
        invariant
            n == categories@.len(),
            all == views(categories@),
            w == weight_views(weights@),
            total == score_of(all.take(i as int), w),
            -(i * 0x8000_0000_0000_0000) <= total <= i * 0x8000_0000_0000_0000,
    {
        assert(all.take(i + 1).drop_last() =~= all.take(i as int));
        assert(all[i as int] == categories@[i as int]@);
        total = total + weight_at(weights, categories[i].as_str()) as i128;
    }
    assert(all.take(n as int) =~= all);
    total
}

/// Sorts hits by taste, with the given draws to break ties.
pub fn rank_with(hits: Vec<Hit>, weights: &Vec<(String, i64)>, draws: &Vec<u64>) -> (r: Vec<
    ScoredHit,
>)
    requires
        draws@.len() == hits@.len(),
    ensures
        is_ranking(
            scored_views(r@),
            hit_views(hits@),
            weight_views(weights@),
            draws@,
        ),
{
    let ghost hv = hit_views(hits@);
    let ghost w = weight_views(weights@);
    let mut keys: Vec<Key> = Vec::new();
    let mut scores: Vec<i128> = Vec::new();
    for i in 0..hits.len()
        invariant
            draws@.len() == hits@.len(),
            hv == hit_views(hits@),
            w == weight_views(weights@),
            scores@.len() == i,
            forall|k: int|
                0 <= k < i ==> #[trigger] scores@[k] == score_of(hv[k].display_categories, w),
            keys@ == rank_keys(hv, w, draws@).take(i as int),
    {
        let s = score(&hits[i].display_categories, weights);
        let d: u64 = draws[i] / 2048;
        let tie: i128 = d as i128 * 0x1_0000_0000_0000_0000 + hits[i].downloads as i128;
        scores.push(s);
        keys.push((s, tie));
        assert(keys@ =~= rank_keys(hv, w, draws@).take(i + 1));
    }
    assert(rank_keys(hv, w, draws@).take(hits@.len() as int) =~= rank_keys(hv, w, draws@));
    let order = descending(&keys);
    let mut r: Vec<ScoredHit> = Vec::new();
    for i in 0..order.len()
        invariant
            order@.len() == hits@.len(),
            scores@.len() == hits@.len(),
            hv == hit_views(hits@),
            forall|k: int| 0 <= k < order@.len() ==> #[trigger] order@[k] < hits@.len(),
            forall|k: int|
                0 <= k < scores@.len() ==> #[trigger] scores@[k] == score_of(
                    hv[k].display_categories,
                    w,
                ),
            r@.len() == i,
            forall|k: int|
                0 <= k < i ==> (#[trigger] r@[k]).hit@ == hv[order@[k] as int] && r@[k].score
                    == score_of(hv[order@[k] as int].display_categories, w),
    {
        assert(order@[i as int] < hits@.len());
        let k = order[i];
        r.push(ScoredHit { hit: hits[k].clone(), score: scores[k] });
    }
    assert(scored_views(r@) =~= Seq::new(
        hv.len(),
        |i: int| (hv[order@[i] as int], score_of(hv[order@[i] as int].display_categories, w)),
    ));
    r
}

/// `rand::random::<u64>`: a number, of which nothing is said.
#[verifier::external_body]
fn random_u64() -> (r: u64) {
    rand::random::<u64>()
}

/// `rand::random::<u32>`: a number, of which nothing is said.
#[verifier::external_body]
fn random_u32() -> (r: u32) {
    rand::random::<u32>()
}

/// Whether `r` are the hits sorted by the taste that the ratings show, for some draws.
pub open spec fn is_by_taste(
    r: Seq<(HitView, int)>,
    hits: Seq<HitView>,
    ratings: Seq<FeedbackView>,
) -> bool {
    exists|w: Seq<Weight>, draws: Seq<u64>| #[trigger]
        is_ranking(r, hits, w, draws) && is_weights(w, ratings) && draws.len() == hits.len()
}

/// Sorts hits by the taste of the user. Among mods that suit alike chance decides.
pub fn rank(hits: Vec<Hit>, db: &UserDatabase) -> (r: Vec<ScoredHit>)
    requires
        db.is_countable(),
    ensures
        is_by_taste(scored_views(r@), hit_views(hits@), db.ratings()),
{
    let weights = db.tag_weights();
    let mut draws: Vec<u64> = Vec::new();
    for i in 0..hits.len()
        invariant
            draws@.len() == i,
    {
        draws.push(random_u64());
    }
    rank_with(hits, &weights, &draws)
}

/// However chance decides, a mod that suits better stands before one that suits less.
pub proof fn lemma_ranking_by_taste(
    r: Seq<(HitView, int)>,
    hits: Seq<HitView>,
    weights: Seq<Weight>,
    draws: Seq<u64>,
    i: int,
    j: int,
)
    requires
        is_ranking(r, hits, weights, draws),
        forall|k: int|
            0 <= k < hits.len() ==> i128::MIN <= score_of(
                (#[trigger] hits[k]).display_categories,
                weights,
            ) <= i128::MAX,
        0 <= i < j < r.len(),
    ensures
        r[i].1 >= r[j].1,
{
    let order = choose|order: Seq<usize>| #[trigger]
        is_descending(rank_keys(hits, weights, draws), order) && r == Seq::new(
            hits.len(),
            |i: int|
                (
                    hits[order[i] as int],
                    score_of(hits[order[i] as int].display_categories, weights),
                ),
        );
    assert(crate::order::goes_before(rank_keys(hits, weights, draws), order[i], order[j]));
}

/// A ranking holds every hit once and nothing else.
pub proof fn lemma_ranking_is_a_permutation(
    r: Seq<(HitView, int)>,
    hits: Seq<HitView>,
    weights: Seq<Weight>,
    draws: Seq<u64>,
) -> (order: Seq<usize>)
    requires
        is_ranking(r, hits, weights, draws),
    ensures
        crate::order::is_permutation(order, hits.len()),
        r.len() == hits.len(),
        forall|i: int| 0 <= i < r.len() ==> (#[trigger] r[i]).0 == hits[order[i] as int],
{
    choose|order: Seq<usize>| #[trigger]
        is_descending(rank_keys(hits, weights, draws), order) && r == Seq::new(
            hits.len(),
            |i: int|
                (
                    hits[order[i] as int],
                    score_of(hits[order[i] as int].display_categories, weights),
                ),
        )
}

// ---------------------------------------------------------------------------
// Recommendations
// ---------------------------------------------------------------------------

/// A search for mods that the user may like.
pub struct SearchPlan {
    pub facets: Vec<Vec<String>>,
    pub index: String,
    pub offset: u32,
}

/// How many candidates are asked for.
pub const CANDIDATES: u32 = 20;

/// The filters of such a search: the game version, the loader where there is one, and the
/// favourite tags where there are any.
pub open spec fn plan_facets(
    game_version: Seq<char>,
    loader: Seq<char>,
    tags: Seq<Seq<char>>,
) -> Seq<Seq<Seq<char>>> {
    let f0 = seq![seq!["versions:"@ + game_version]];
    let f1 = if loader.len() > 0 {
        f0.push(seq!["categories:"@ + loader])
    } else {
        f0
    };
    if tags.len() > 0 {
        f1.push(tags.map_values(|t: Seq<char>| "categories:"@ + t))
    } else {
        f1
    }
}

/// Whether a plan is the one for the favourite tags and a draw: without tags the mods with most
/// downloads are looked at, else those updated last; the draw picks one of five pages.
pub open spec fn is_plan(
    p: SearchPlan,
    game_version: Seq<char>,
    loader: Seq<char>,
    tags: Seq<Seq<char>>,
    draw: u32,
) -> bool {
    &&& nested_views(p.facets@) == plan_facets(game_version, loader, tags)
    &&& p.index@ == (if tags.len() == 0 {
        "downloads"@
    } else {
        "updated"@
    })
    &&& p.offset == (draw % 5) * 20
}

/// Plans a search for mods with the given favourite tags.
pub fn plan_with(game_version: &str, loader: &str, tags: &Vec<String>, draw: u32) -> (r: SearchPlan)
    ensures
        is_plan(r, game_version@, loader@, views(tags@), draw),
{
    let ghost tv = views(tags@);
    let mut facets: Vec<Vec<String>> = Vec::new();
    let mut first: Vec<String> = Vec::new();
    first.push("versions:".to_string().concat(game_version));
    assert(views(first@) =~= seq!["versions:"@ + game_version@]);
    facets.push(first);
    assert(nested_views(facets@) =~= seq![seq!["versions:"@ + game_version@]]);
    if !is_empty(loader) {
        let mut second: Vec<String> = Vec::new();
        second.push("categories:".to_string().concat(loader));
        assert(views(second@) =~= seq!["categories:"@ + loader@]);
        facets.push(second);
        assert(nested_views(facets@) =~= seq![seq!["versions:"@ + game_version@]].push(
            seq!["categories:"@ + loader@],
        ));
    }
    if tags.len() > 0 {
        let ghost before = nested_views(facets@);
        let mut third: Vec<String> = Vec::new();
        let ghost all = tv.map_values(|t: Seq<char>| "categories:"@ + t);
        for i in 0..tags.len()
            invariant
                tv == views(tags@),
                all == tv.map_values(|t: Seq<char>| "categories:"@ + t),
                views(third@) == all.take(i as int),
        {
            let t = "categories:".to_string().concat(tags[i].as_str());
            proof {
                lemma_views_push(third@, t);
            }
            third.push(t);
            assert(all.take(i + 1) =~= all.take(i as int).push(all[i as int]));
        }
        assert(all.take(tags@.len() as int) =~= all);
        facets.push(third);
        assert(nested_views(facets@) =~= before.push(all));
    }
    let index = if tags.len() == 0 {
        "downloads".to_string()
    } else {
        "updated".to_string()
    };
    SearchPlan { facets, index, offset: (draw % 5) * 20 }
}

/// Plans a search for mods that the user may like. Chance picks the page.
pub fn plan_recommendation(db: &UserDatabase, game_version: &str, loader: &str) -> (r: SearchPlan)
    requires
        db.is_countable(),
    ensures
        exists|w: Seq<Weight>, tags: Seq<Seq<char>>, draw: u32|
            is_weights(w, db.ratings()) && #[trigger] is_top(tags, w, 3) && #[trigger] is_plan(
                r,
                game_version@,
                loader@,
                tags,
                draw,
            ),
{
    let tags = db.top_tags(3);
    plan_with(game_version, loader, &tags, random_u32())
}

/// The hits that the user has not rated.
pub open spec fn unrated(hits: Seq<HitView>, rated: Seq<Seq<char>>) -> Seq<HitView> {
    hits.filter(|h: HitView| !rated.contains(h.slug))
}

/// The hits that the user has not rated.
pub fn fresh(hits: &Vec<Hit>, db: &UserDatabase) -> (r: Vec<Hit>)
    ensures
        hit_views(r@) == unrated(hit_views(hits@), slugs(db.ratings())),
{
    let rated = db.rated_slugs();
    let ghost all = hit_views(hits@);
    let ghost seen = slugs(db.ratings());
    let ghost keep = |h: HitView| !seen.contains(h.slug);
    let mut r: Vec<Hit> = Vec::new();
    proof {
        reveal(Seq::filter);
    }
    assert(hit_views(r@) =~= all.take(0).filter(keep));
    for i in 0..hits.len()
        invariant
            all == hit_views(hits@),
            keep == (|h: HitView| !seen.contains(h.slug)),
            is_sorted_set(views(rated@), seen),
            hit_views(r@) == all.take(i as int).filter(keep),
    {
        broadcast use Seq::lemma_filter_push;

        assert(all.take(i + 1) =~= all.take(i as int).push(all[i as int]));
        assert(all[i as int] == hits@[i as int]@);
        if !list_contains(&rated, hits[i].slug.as_str()) {
            let ghost was = hit_views(r@);
            r.push(hits[i].clone());
            assert(hit_views(r@) =~= was.push(all[i as int]));
        }
    }
    assert(all.take(hits@.len() as int) =~= all);
    r
}

/// Sorts the hits that the user has not rated by taste.
pub fn recommend(hits: &Vec<Hit>, db: &UserDatabase) -> (r: Result<Vec<ScoredHit>, String>)
    requires
        db.is_countable(),
    ensures
        match r {
            Ok(v) => {
                &&& unrated(hit_views(hits@), slugs(db.ratings())).len() > 0
                &&& is_by_taste(
                    scored_views(v@),
                    unrated(hit_views(hits@), slugs(db.ratings())),
                    db.ratings(),
                )
            },
            Err(e) => unrated(hit_views(hits@), slugs(db.ratings())).len() == 0 && e@
                == "没有新的可推荐 mod (数据库中已评价过所有候选), 稍后再试"@,
        },
{
    let list = fresh(hits, db);
    assert(hit_views(list@).len() == list@.len());
    if list.len() == 0 {
        return Err("没有新的可推荐 mod (数据库中已评价过所有候选), 稍后再试".to_string());
    }
    Ok(rank(list, db))
}

/// What is recommended is new to the user: each mod that is recommended was found, and the user
/// has not rated it; and each mod that was found and is not rated is recommended.
pub proof fn lemma_recommended_are_unrated(
    r: Seq<(HitView, int)>,
    hits: Seq<HitView>,
    ratings: Seq<FeedbackView>,
)
    requires
        is_by_taste(r, unrated(hits, slugs(ratings)), ratings),
    ensures
        forall|i: int|
            0 <= i < r.len() ==> hits.contains(#[trigger] r[i].0) && !slugs(ratings).contains(
                r[i].0.slug,
            ),
        forall|i: int|
            0 <= i < hits.len() && !slugs(ratings).contains((#[trigger] hits[i]).slug) ==> exists|
                j: int,
            | 0 <= j < r.len() && r[j].0 == hits[i],
{
    let rated = slugs(ratings);
    let keep = |h: HitView| !rated.contains(h.slug);
    let list = unrated(hits, rated);
    let (w, draws) = choose|w: Seq<Weight>, draws: Seq<u64>| #[trigger]
        is_ranking(r, list, w, draws) && is_weights(w, ratings) && draws.len() == list.len();
    let order = lemma_ranking_is_a_permutation(r, list, w, draws);
    broadcast use vstd::seq_lib::group_filter_ensures;

    assert forall|i: int| 0 <= i < r.len() implies hits.contains(#[trigger] r[i].0)
        && !rated.contains(r[i].0.slug) by {
        let k = order[i] as int;
        assert(r[i].0 == list[k]);
        assert(keep(list[k]));
        hits.lemma_filter_contains_rev(keep, list[k]);
    }
    assert forall|i: int|
        0 <= i < hits.len() && !rated.contains((#[trigger] hits[i]).slug) implies exists|j: int|
        0 <= j < r.len() && r[j].0 == hits[i] by {
        assert(list.contains(hits[i]));
        let k = choose|k: int| 0 <= k < list.len() && list[k] == hits[i];
        let j = crate::order::lemma_permutation_is_onto(order, list.len(), k);
        assert(r[j].0 == hits[i]);
    }
}

} // verus!
