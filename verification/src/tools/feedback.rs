//! `record_feedback`, `get_user_profile` and `recommend_new_mods`: the taste of the user.

use vstd::prelude::*;
use vstd::string::StringExecFns;

use crate::database::{FeedbackRecord, PackRecord, UserDatabase};
#[allow(unused_imports)]
use crate::database::{
    is_top, is_weights, pack_views, summary_text, weight_views, FeedbackView, PackView, Weight,
};
#[allow(unused_imports)]
use crate::json::{
    lemma_trees_push, object, pair_views, str_array, trees, whole_float, JsonNumber,
    JsonView,
};
use crate::json::{float_json, object_of, Json, Obj};
use crate::modrinth::Project;
#[allow(unused_imports)]
use crate::modrinth::HitView;
use crate::pipeline::{taste_tags, ScoredHit};
#[allow(unused_imports)]
use crate::pipeline::{scored_views, tastes};
#[allow(unused_imports)]
use crate::text::{lemma_views_push, views};
use crate::text::{clone_list, str_eq};

verus! {

// ---------------------------------------------------------------------------
// Ratings
// ---------------------------------------------------------------------------

/// What the model asks for.
pub struct FeedbackArgs {
    pub slug: String,
    pub verdict: String,
}

/// Refuses a verdict that is neither a like nor a dislike.
pub fn check_verdict(verdict: &str) -> (r: Result<(), String>)
    ensures
        match r {
            Ok(_) => verdict@ == "like"@ || verdict@ == "dislike"@,
            Err(e) => verdict@ != "like"@ && verdict@ != "dislike"@ && e@
                == "verdict 必须是 like 或 dislike"@,
        },
{
    if !str_eq(verdict, "like") && !str_eq(verdict, "dislike") {
        return Err("verdict 必须是 like 或 dislike".to_string());
    }
    Ok(())
}

/// The tags of a mod: those of its categories that tell of a taste; none where the mod is not
/// known.
pub fn tags_of(project: Option<&Project>) -> (r: Vec<String>)
    ensures
        views(r@) == (match project {
            Some(p) => tastes(views(p.categories@)),
            None => Seq::empty(),
        }),
{
    match project {
        Some(p) => taste_tags(p.categories.as_slice()),
        None => {
            let r: Vec<String> = Vec::new();
            assert(views(r@) =~= Seq::<Seq<char>>::empty());
            r
        },
    }
}

/// The record of a rating that was given in the conversation.
pub fn chat_record(a: &FeedbackArgs, tags: &Vec<String>, timestamp: &str) -> (r: FeedbackRecord)
    ensures
        r@ == (FeedbackView {
            slug: a.slug@,
            verdict: a.verdict@,
            tags: views(tags@),
            game_version: Seq::empty(),
            loader: Seq::empty(),
            source: "chat"@,
            timestamp: timestamp@,
        }),
{
    let r = FeedbackRecord {
        slug: a.slug.clone(),
        verdict: a.verdict.clone(),
        tags: clone_list(tags),
        game_version: String::new(),
        loader: String::new(),
        source: "chat".to_string(),
        timestamp: timestamp.to_string(),
    };
    assert(r@.game_version =~= Seq::<char>::empty());
    assert(r@.loader =~= Seq::<char>::empty());
    r
}

/// What the model is told of a rating.
pub fn feedback_report(a: &FeedbackArgs, tags: &Vec<String>, db_summary: &str) -> (r: Json)
    ensures
        r.tree() == object(
            seq![
                ("status"@, JsonView::Str("已记录"@)),
                ("slug"@, JsonView::Str(a.slug@)),
                ("verdict"@, JsonView::Str(a.verdict@)),
                ("tags"@, str_array(views(tags@))),
                ("db_summary"@, JsonView::Str(db_summary@)),
            ],
        ),
{
    let list = vec![
        ("status", Json::string("已记录")),
        ("slug", Json::string(a.slug.as_str())),
        ("verdict", Json::string(a.verdict.as_str())),
        ("tags", Json::strings(tags)),
        ("db_summary", Json::string(db_summary)),
    ];
    assert(pair_views(list@) =~= seq![
        ("status"@, JsonView::Str("已记录"@)),
        ("slug"@, JsonView::Str(a.slug@)),
        ("verdict"@, JsonView::Str(a.verdict@)),
        ("tags"@, str_array(views(tags@))),
        ("db_summary"@, JsonView::Str(db_summary@)),
    ]);
    object_of(list)
}

// ---------------------------------------------------------------------------
// The profile
// ---------------------------------------------------------------------------

/// The weights of tags as JSON.
pub open spec fn weights_map(s: Seq<Weight>) -> Map<Seq<char>, JsonView>
    decreases s.len(),
{
    if s.len() == 0 {
        Map::empty()
    } else {
        weights_map(s.drop_last()).insert(s.last().0, whole_float(s.last().1))
    }
}

/// The weights of tags as JSON.
pub fn weights_json(weights: &Vec<(String, i64)>) -> (r: Json)
    ensures
        r.tree() == JsonView::Object(weights_map(weight_views(weights@))),
{
    let ghost all = weight_views(weights@);
    let mut o = Obj::new();
    assert(all.take(0) =~= Seq::<Weight>::empty());
    for i in 0..weights.len()
        invariant
            all == weight_views(weights@),
            o.map() == weights_map(all.take(i as int)),
    {
        assert(all.take(i + 1).drop_last() =~= all.take(i as int));
        assert(all[i as int] == (weights@[i as int].0@, weights@[i as int].1 as int));
        o = o.with(weights[i].0.as_str(), float_json(weights[i].1 as i128));
    }
    assert(all.take(weights@.len() as int) =~= all);
    o.json()
}

/// A pack as JSON.
pub open spec fn pack_tree(p: PackView) -> JsonView {
    object(
        seq![
            ("name"@, JsonView::Str(p.name)),
            ("mod_slugs"@, str_array(p.mod_slugs)),
            ("created_at"@, JsonView::Str(p.created_at)),
        ],
    )
}

pub fn pack_json(p: &PackRecord) -> (r: Json)
    ensures
        r.tree() == pack_tree(p@),
{
    let list = vec![
        ("name", Json::string(p.name.as_str())),
        ("mod_slugs", Json::strings(&p.mod_slugs)),
        ("created_at", Json::string(p.created_at.as_str())),
    ];
    assert(pair_views(list@) =~= seq![
        ("name"@, JsonView::Str(p.name@)),
        ("mod_slugs"@, str_array(views(p.mod_slugs@))),
        ("created_at"@, JsonView::Str(p.created_at@)),
    ]);
    object_of(list)
}

/// The last packs, at most `n`, the last first.
pub open spec fn last_packs(packs: Seq<PackView>, n: nat) -> Seq<JsonView> {
    Seq::new(
        if packs.len() < n {
            packs.len()
        } else {
            n
        },
        |i: int| pack_tree(packs[packs.len() - 1 - i]),
    )
}

/// The last packs, at most `n`, the last first.
pub fn recent_packs(packs: &Vec<PackRecord>, n: usize) -> (r: Vec<Json>)
    ensures
        trees(r@) == last_packs(pack_views(packs@), n as nat),
{
    let ghost all = last_packs(pack_views(packs@), n as nat);
    let count: usize = if packs.len() < n {
        packs.len()
    } else {
        n
    };
    let mut r: Vec<Json> = Vec::new();
    for i in 0..count
        invariant
            all == last_packs(pack_views(packs@), n as nat),
            count == all.len(),
            count <= packs@.len(),
            trees(r@) == all.take(i as int),
    {
        let j = pack_json(&packs[packs.len() - 1 - i]);
        proof {
            lemma_trees_push(r@, j);
        }
        r.push(j);
        assert(all.take(i + 1) =~= all.take(i as int).push(all[i as int]));
    }
    assert(all.take(count as int) =~= all);
    r
}

/// The profile of the user, with the weights of tags and the favourite tags among them.
pub open spec fn profile_tree(
    ratings: Seq<FeedbackView>,
    packs: Seq<PackView>,
    weights: Seq<Weight>,
    top: Seq<Seq<char>>,
) -> JsonView {
    object(
        seq![
            ("summary"@, JsonView::Str(summary_text(ratings, packs.len()))),
            ("taste_weights"@, JsonView::Object(weights_map(weights))),
            ("top_tags"@, str_array(top)),
            ("recent_packs"@, JsonView::Array(last_packs(packs, 3))),
        ],
    )
}

/// Whether a value is the profile of the user.
pub open spec fn is_profile(t: JsonView, ratings: Seq<FeedbackView>, packs: Seq<PackView>) -> bool {
    exists|w: Seq<Weight>, top: Seq<Seq<char>>, v: Seq<Weight>|
        #![trigger profile_tree(ratings, packs, w, top), is_top(top, v, 5)]
        is_weights(w, ratings) && is_weights(v, ratings) && is_top(top, v, 5) && t == profile_tree(
            ratings,
            packs,
            w,
            top,
        )
}

/// The profile of the user.
pub fn profile(db: &UserDatabase) -> (r: Json)
    requires
        db.is_countable(),
    ensures
        is_profile(r.tree(), db.ratings(), pack_views(db.packs@)),
{
    let weights = db.tag_weights();
    let top = db.top_tags(5);
    let summary = db.summary();
    let recent = recent_packs(&db.packs, 3);
    let ghost w = weight_views(weights@);
    let ghost tv = views(top@);
    let ghost packs = pack_views(db.packs@);
    assert(packs.len() == db.packs@.len());
    let list = vec![
        ("summary", Json::string(summary.as_str())),
        ("taste_weights", weights_json(&weights)),
        ("top_tags", Json::strings(&top)),
        ("recent_packs", Json::Array(recent)),
    ];
    assert(pair_views(list@) =~= seq![
        ("summary"@, JsonView::Str(summary_text(db.ratings(), packs.len()))),
        ("taste_weights"@, JsonView::Object(weights_map(w))),
        ("top_tags"@, str_array(tv)),
        ("recent_packs"@, JsonView::Array(last_packs(packs, 3))),
    ]);
    let r = object_of(list);
    proof {
        let v = choose|s: Seq<Weight>| #[trigger]
            is_weights(s, db.ratings()) && is_top(views(top@), s, 5);
        assert(is_top(tv, v, 5));
        assert(r.tree() == profile_tree(db.ratings(), packs, w, tv));
    }
    r
}

// ---------------------------------------------------------------------------
// Recommendations
// ---------------------------------------------------------------------------

/// What the model asks for.
pub struct RecommendArgs {
    pub game_version: String,
    pub loader: String,
    pub count: Option<u32>,
}

/// How many mods are recommended: 5 where nothing is said, and from 1 to 10.
pub open spec fn recommend_count(count: Option<u32>) -> nat {
    match count {
        Some(n) => if n < 1 {
            1
        } else if n > 10 {
            10
        } else {
            n as nat
        },
        None => 5,
    }
}

/// How many mods are recommended.
pub fn take_count(count: Option<u32>) -> (r: usize)
    ensures
        r == recommend_count(count),
{
    match count {
        Some(n) => if n < 1 {
            1
        } else if n > 10 {
            10
        } else {
            n as usize
        },
        None => 5,
    }
}

/// The pictures of a mod: its icon and its screenshots.
pub struct Pictures {
    pub slug: String,
    pub icon_url: String,
    pub gallery: Vec<String>,
}

/// The position of the last entry with a slug, or -1.
pub open spec fn last_with_slug(s: Seq<Pictures>, slug: Seq<char>) -> int
    decreases s.len(),
{
    if s.len() == 0 {
        -1
    } else if s.last().slug@ == slug {
        s.len() - 1
    } else {
        last_with_slug(s.drop_last(), slug)
    }
}

/// The icon of a mod; empty where it is not known.
pub open spec fn icon_of(s: Seq<Pictures>, slug: Seq<char>) -> Seq<char> {
    let k = last_with_slug(s, slug);
    if k >= 0 {
        s[k].icon_url@
    } else {
        Seq::empty()
    }
}

/// At most three screenshots of a mod.
pub open spec fn gallery_of(s: Seq<Pictures>, slug: Seq<char>) -> Seq<Seq<char>> {
    let k = last_with_slug(s, slug);
    if k >= 0 {
        let g = views(s[k].gallery@);
        g.take(
            if g.len() < 3 {
                g.len() as int
            } else {
                3
            },
        )
    } else {
        Seq::empty()
    }
}

fn find_pictures(list: &Vec<Pictures>, slug: &str) -> (r: Option<usize>)
    ensures
        match r {
            Some(i) => i < list@.len() && i == last_with_slug(list@, slug@),
            None => last_with_slug(list@, slug@) == -1,
        },
{
    let mut n: usize = list.len();
    assert(list@.take(n as int) =~= list@);
    while n > 0
        invariant
            n <= list@.len(),
            last_with_slug(list@, slug@) == last_with_slug(list@.take(n as int), slug@),
        decreases n,
    {
        assert(list@.take(n as int).drop_last() =~= list@.take(n - 1));
        assert(list@.take(n as int).last() == list@[n - 1]);
        if str_eq(list[n - 1].slug.as_str(), slug) {
            return Some(n - 1);
        }
        n -= 1;
    }
    None
}

/// What the model is told of a recommended mod.
pub open spec fn recommendation(h: HitView, score: int, pictures: Seq<Pictures>) -> JsonView {
    object(
        seq![
            ("slug"@, JsonView::Str(h.slug)),
            ("title"@, JsonView::Str(h.title)),
            ("description"@, JsonView::Str(h.description)),
            ("downloads"@, JsonView::Number(JsonNumber::Unsigned(h.downloads))),
            ("categories"@, str_array(h.display_categories)),
            ("taste_score"@, whole_float(score)),
            ("icon_url"@, JsonView::Str(icon_of(pictures, h.slug))),
            ("url"@, JsonView::Str("https://modrinth.com/mod/"@ + h.slug)),
            ("gallery"@, str_array(gallery_of(pictures, h.slug))),
        ],
    )
}

fn recommendation_json(s: &ScoredHit, pictures: &Vec<Pictures>) -> (r: Json)
    ensures
        r.tree() == recommendation(s.hit@, s.score as int, pictures@),
{
    let h = &s.hit;
    let (icon, gallery): (String, Vec<String>) = match find_pictures(pictures, h.slug.as_str()) {
        Some(i) => {
            let g = &pictures[i].gallery;
            let n: usize = if g.len() < 3 {
                g.len()
            } else {
                3
            };
            let mut v: Vec<String> = Vec::new();
            for k in 0..n
                invariant
                    n <= g@.len(),
                    views(v@) == views(g@).take(k as int),
            {
                let x = g[k].clone();
                proof {
                    lemma_views_push(v@, x);
                }
                v.push(x);
                assert(views(g@).take(k + 1) =~= views(g@).take(k as int).push(views(g@)[k as int]));
            }
            (pictures[i].icon_url.clone(), v)
        },
        None => (String::new(), Vec::new()),
    };
    assert(views(gallery@) =~= gallery_of(pictures@, h.slug@));
    assert(icon@ =~= icon_of(pictures@, h.slug@));
    let url = "https://modrinth.com/mod/".to_string().concat(h.slug.as_str());
    let list = vec![
        ("slug", Json::string(h.slug.as_str())),
        ("title", Json::string(h.title.as_str())),
        ("description", Json::string(h.description.as_str())),
        ("downloads", Json::number(h.downloads)),
        ("categories", Json::strings(&h.display_categories)),
        ("taste_score", float_json(s.score)),
        ("icon_url", Json::string(icon.as_str())),
        ("url", Json::string(url.as_str())),
        ("gallery", Json::strings(&gallery)),
    ];
    let ghost v = h@;
    assert(pair_views(list@) =~= seq![
        ("slug"@, JsonView::Str(v.slug)),
        ("title"@, JsonView::Str(v.title)),
        ("description"@, JsonView::Str(v.description)),
        ("downloads"@, JsonView::Number(JsonNumber::Unsigned(v.downloads))),
        ("categories"@, str_array(v.display_categories)),
        ("taste_score"@, whole_float(s.score as int)),
        ("icon_url"@, JsonView::Str(icon_of(pictures@, v.slug))),
        ("url"@, JsonView::Str("https://modrinth.com/mod/"@ + v.slug)),
        ("gallery"@, str_array(gallery_of(pictures@, v.slug))),
    ]);
    object_of(list)
}

/// The first `n` recommended mods as the model is told of them.
pub open spec fn recommendations(
    ranked: Seq<(HitView, int)>,
    n: nat,
    pictures: Seq<Pictures>,
) -> Seq<JsonView> {
    Seq::new(
        if ranked.len() < n {
            ranked.len()
        } else {
            n
        },
        |i: int| recommendation(ranked[i].0, ranked[i].1, pictures),
    )
}

/// What the model is told of the recommended mods.
pub fn recommend_report(
    ranked: &Vec<ScoredHit>,
    count: Option<u32>,
    pictures: &Vec<Pictures>,
    db_summary: &str,
) -> (r: Json)
    ensures
        r.tree() == object(
            seq![
                (
                    "recommendations"@,
                    JsonView::Array(
                        recommendations(scored_views(ranked@), recommend_count(count), pictures@),
                    ),
                ),
                ("db_summary"@, JsonView::Str(db_summary@)),
            ],
        ),
{
    let n = take_count(count);
    let take: usize = if ranked.len() < n {
        ranked.len()
    } else {
        n
    };
    let ghost sv = scored_views(ranked@);
    let ghost all = recommendations(sv, n as nat, pictures@);
    let mut mods: Vec<Json> = Vec::new();
    for i in 0..take
        invariant
            sv == scored_views(ranked@),
            all == recommendations(sv, n as nat, pictures@),
            take == all.len(),
            take <= ranked@.len(),
            trees(mods@) == all.take(i as int),
    {
        let j = recommendation_json(&ranked[i], pictures);
        proof {
            lemma_trees_push(mods@, j);
        }
        mods.push(j);
        assert(all.take(i + 1) =~= all.take(i as int).push(all[i as int]));
    }
    assert(all.take(take as int) =~= all);
    let list = vec![
        ("recommendations", Json::Array(mods)),
        ("db_summary", Json::string(db_summary)),
    ];
    assert(pair_views(list@) =~= seq![
        ("recommendations"@, JsonView::Array(all)),
        ("db_summary"@, JsonView::Str(db_summary@)),
    ]);
    object_of(list)
}

} // verus!
