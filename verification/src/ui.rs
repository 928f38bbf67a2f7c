//! The web interface: what it answers, and what its requests mean.

use vstd::prelude::*;
use vstd::string::StringExecFns;

use crate::agent::{Agent, AgentEvent};
#[allow(unused_imports)]
use crate::agent::EventView;
use crate::config::{parse_url_scheme, Config};
#[allow(unused_imports)]
use crate::config::{flaw, scheme_view, url_scheme};
#[allow(unused_imports)]
use crate::database::{
    is_weights, pack_views, summary_text, weight_views, FeedbackView, PackView, Weight,
};
use crate::database::{FeedbackRecord, UserDatabase};
use crate::history::{sessions_dir, SessionInfo};
use crate::json::{copy_json, float_json, object_of, parse_json, render_json, Json, JsonNumber};
#[allow(unused_imports)]
use crate::json::{
    is_plain, json_compact, json_parsed, lemma_plain_object, lemma_trees_push, object, opt_view,
    pair_views, reads_as, str_array, trees, whole_float, JsonView,
};
use crate::llm::ToolDef;
#[allow(unused_imports)]
use crate::modrinth::HitView;
use crate::number::parse_u32;
#[allow(unused_imports)]
use crate::number::parse_unsigned;
use crate::order::{descending, descending_texts};
#[allow(unused_imports)]
use crate::order::{is_descending, is_descending_texts, is_permutation, Key};
use crate::pipeline::{preset_prefix, ScoredHit, MAX_SEARCH_LIMIT};
#[allow(unused_imports)]
use crate::pipeline::{opt_slice, preset_text, scored_views};
use crate::text::{
    byte_len_of, char_width, chars_of, clone_list, contains, contains_char, extension_is, is_empty,
    string_of, trim,
};
#[allow(unused_imports)]
use crate::text::{
    byte_len, contains_spec, has_extension, lemma_byte_len_append, lemma_byte_len_grows,
    lemma_byte_len_push, lemma_views_push, trim_spec, views,
};
use crate::tools::feedback::pack_json;
#[allow(unused_imports)]
use crate::tools::feedback::pack_tree;

verus! {

// ---------------------------------------------------------------------------
// Answers
// ---------------------------------------------------------------------------

/// An answer that says whether something was done, and a message.
pub open spec fn answer_tree(ok: bool, message: Seq<char>) -> JsonView {
    object(seq![("ok"@, JsonView::Bool(ok)), ("message"@, JsonView::Str(message))])
}

/// An answer that says whether something was done, and a message.
pub fn answer(ok: bool, message: &str) -> (r: Json)
    ensures
        r.tree() == answer_tree(ok, message@),
{
    let list = vec![("ok", Json::Bool(ok)), ("message", Json::string(message))];
    assert(pair_views(list@) =~= seq![
        ("ok"@, JsonView::Bool(ok)),
        ("message"@, JsonView::Str(message@)),
    ]);
    object_of(list)
}

/// That the server is there.
pub fn health(version: &str) -> (r: Json)
    ensures
        r.tree() == object(
            seq![("ok"@, JsonView::Bool(true)), ("version"@, JsonView::Str(version@))],
        ),
{
    let list = vec![("ok", Json::Bool(true)), ("version", Json::string(version))];
    assert(pair_views(list@) =~= seq![
        ("ok"@, JsonView::Bool(true)),
        ("version"@, JsonView::Str(version@)),
    ]);
    object_of(list)
}

/// A text, or null.
pub open spec fn text_or_null(o: Option<Seq<char>>) -> JsonView {
    match o {
        Some(s) => JsonView::Str(s),
        None => JsonView::Null,
    }
}

fn optional_text(o: &Option<String>) -> (r: Json)
    ensures
        r.tree() == text_or_null(opt_view(*o)),
{
    match o {
        Some(s) => Json::string(s.as_str()),
        None => Json::Null,
    }
}

/// A number, or null.
pub open spec fn number_or_null(o: Option<u64>) -> JsonView {
    match o {
        Some(n) => JsonView::Number(JsonNumber::Unsigned(n)),
        None => JsonView::Null,
    }
}

fn optional_number(o: Option<u64>) -> (r: Json)
    ensures
        r.tree() == number_or_null(o),
{
    match o {
        Some(n) => Json::number(n),
        None => Json::Null,
    }
}

/// What runs here, with the summary of the conversation's usage and its cost. No key is in it.
pub fn info(cfg: &Config, agent: &Agent, version: &str, usage_summary: &str, cost: &str) -> (r: Json)
    ensures
        r.tree() == object(
            seq![
                ("version"@, JsonView::Str(version@)),
                ("model"@, JsonView::Str(cfg.llm.model@)),
                ("base_url"@, JsonView::Str(cfg.llm.base_url@)),
                ("download_dir"@, JsonView::Str(cfg.output.download_dir@)),
                ("usage_summary"@, JsonView::Str(usage_summary@)),
                ("calls"@, JsonView::Number(JsonNumber::Unsigned(agent.calls))),
                (
                    "total_tokens"@,
                    JsonView::Number(JsonNumber::Unsigned(agent.usage.total_tokens)),
                ),
                ("cost"@, JsonView::Str(cost@)),
                ("session_file"@, text_or_null(opt_view(agent.session_file))),
            ],
        ),
{
    let list = vec![
        ("version", Json::string(version)),
        ("model", Json::string(cfg.llm.model.as_str())),
        ("base_url", Json::string(cfg.llm.base_url.as_str())),
        ("download_dir", Json::string(cfg.output.download_dir.as_str())),
        ("usage_summary", Json::string(usage_summary)),
        ("calls", Json::number(agent.calls)),
        ("total_tokens", Json::number(agent.usage.total_tokens)),
        ("cost", Json::string(cost)),
        ("session_file", optional_text(&agent.session_file)),
    ];
    assert(pair_views(list@) =~= seq![
        ("version"@, JsonView::Str(version@)),
        ("model"@, JsonView::Str(cfg.llm.model@)),
        ("base_url"@, JsonView::Str(cfg.llm.base_url@)),
        ("download_dir"@, JsonView::Str(cfg.output.download_dir@)),
        ("usage_summary"@, JsonView::Str(usage_summary@)),
        ("calls"@, JsonView::Number(JsonNumber::Unsigned(agent.calls))),
        ("total_tokens"@, JsonView::Number(JsonNumber::Unsigned(agent.usage.total_tokens))),
        ("cost"@, JsonView::Str(cost@)),
        ("session_file"@, text_or_null(opt_view(agent.session_file))),
    ]);
    object_of(list)
}

/// Name and description of a tool.
pub open spec fn tool_entry(d: ToolDef) -> JsonView {
    object(
        seq![
            ("name"@, JsonView::Str(d.function.name@)),
            ("description"@, JsonView::Str(d.function.description@)),
        ],
    )
}

/// The tools, by name and description.
pub fn tools(defs: &Vec<ToolDef>) -> (r: Json)
    ensures
        r.tree() == object(
            seq![
                (
                    "tools"@,
                    JsonView::Array(Seq::new(defs@.len(), |i: int| tool_entry(defs@[i]))),
                ),
            ],
        ),
{
    let ghost all = Seq::new(defs@.len(), |i: int| tool_entry(defs@[i]));
    let mut v: Vec<Json> = Vec::new();
    for i in 0..defs.len()
        invariant
            all == Seq::new(defs@.len(), |i: int| tool_entry(defs@[i])),
            trees(v@) == all.take(i as int),
    {
        let d = &defs[i].function;
        let list = vec![
            ("name", Json::string(d.name.as_str())),
            ("description", Json::string(d.description.as_str())),
        ];
        assert(pair_views(list@) =~= seq![
            ("name"@, JsonView::Str(d.name@)),
            ("description"@, JsonView::Str(d.description@)),
        ]);
        let j = object_of(list);
        proof {
            lemma_trees_push(v@, j);
        }
        v.push(j);
        assert(all.take(i + 1) =~= all.take(i as int).push(all[i as int]));
    }
    assert(all.take(defs@.len() as int) =~= all);
    let list = vec![("tools", Json::Array(v))];
    assert(pair_views(list@) =~= seq![("tools"@, JsonView::Array(all))]);
    object_of(list)
}

// ---------------------------------------------------------------------------
// The profile and the packs
// ---------------------------------------------------------------------------

/// The sort keys of weights by their distance from zero.
pub open spec fn strength_keys(s: Seq<Weight>) -> Seq<Key> {
    Seq::new(
        s.len(),
        |i: int|
            (
                if s[i].1 < 0 {
                    -s[i].1 as i128
                } else {
                    s[i].1 as i128
                },
                0i128,
            ),
    )
}

/// A tag with its weight.
pub open spec fn weight_entry(w: Weight) -> JsonView {
    object(seq![("tag"@, JsonView::Str(w.0)), ("weight"@, whole_float(w.1))])
}

/// The twelve first weights in the given order.
pub open spec fn strongest(s: Seq<Weight>, order: Seq<usize>) -> Seq<JsonView> {
    Seq::new(
        if s.len() < 12 {
            s.len()
        } else {
            12
        },
        |i: int| weight_entry(s[order[i] as int]),
    )
}

/// The profile of the user as the web interface shows it.
pub open spec fn shown_profile(
    ratings: Seq<FeedbackView>,
    packs: Seq<PackView>,
    weights: Seq<Weight>,
    order: Seq<usize>,
) -> JsonView {
    object(
        seq![
            ("summary"@, JsonView::Str(summary_text(ratings, packs.len()))),
            ("tag_weights"@, JsonView::Array(strongest(weights, order))),
            ("packs"@, JsonView::Array(Seq::new(packs.len(), |i: int| pack_tree(packs[i])))),
        ],
    )
}

/// Whether a value is the profile of the user, with the weights that are farthest from zero.
pub open spec fn is_shown_profile(
    t: JsonView,
    ratings: Seq<FeedbackView>,
    packs: Seq<PackView>,
) -> bool {
    exists|w: Seq<Weight>, order: Seq<usize>| #[trigger]
        shown_profile(ratings, packs, w, order) == t && is_weights(w, ratings) && is_descending(
            strength_keys(w),
            order,
        )
}

fn strength_order(weights: &Vec<(String, i64)>) -> (order: Vec<usize>)
    ensures
        is_descending(strength_keys(weight_views(weights@)), order@),
{
    let ghost all = strength_keys(weight_views(weights@));
    let mut keys: Vec<Key> = Vec::new();
    for i in 0..weights.len()
        invariant
            all == strength_keys(weight_views(weights@)),
            keys@ == all.take(i as int),
    {
        let w: i128 = weights[i].1 as i128;
        let k: i128 = if w < 0 {
            -w
        } else {
            w
        };
        assert(weight_views(weights@)[i as int].1 == w);
        keys.push((k, 0i128));
        assert(keys@ =~= all.take(i + 1));
    }
    assert(all.take(weights@.len() as int) =~= all);
    descending(&keys)
}

/// The profile of the user as the web interface shows it.
pub fn profile(db: &UserDatabase) -> (r: Json)
    requires
        db.is_countable(),
    ensures
        is_shown_profile(r.tree(), db.ratings(), pack_views(db.packs@)),
{
    let weights = db.tag_weights();
    let ghost w = weight_views(weights@);
    let order = strength_order(&weights);
    let ghost all = strongest(w, order@);
    let n: usize = if weights.len() < 12 {
        weights.len()
    } else {
        12
    };
    let mut top: Vec<Json> = Vec::new();
    for i in 0..n
        invariant
            w == weight_views(weights@),
            is_permutation(order@, weights@.len()),
            all == strongest(w, order@),
            n == all.len(),
            n <= weights@.len(),
            trees(top@) == all.take(i as int),
    {
        assert(order@[i as int] < weights@.len());
        let k = order[i];
        let list = vec![
            ("tag", Json::string(weights[k].0.as_str())),
            ("weight", float_json(weights[k].1 as i128)),
        ];
        assert(w[k as int] == (weights@[k as int].0@, weights@[k as int].1 as int));
        assert(pair_views(list@) =~= seq![
            ("tag"@, JsonView::Str(w[k as int].0)),
            ("weight"@, whole_float(w[k as int].1)),
        ]);
        let j = object_of(list);
        proof {
            lemma_trees_push(top@, j);
        }
        top.push(j);
        assert(all.take(i + 1) =~= all.take(i as int).push(all[i as int]));
    }
    assert(all.take(n as int) =~= all);
    let ghost packs = pack_views(db.packs@);
    assert(packs.len() == db.packs@.len());
    let ghost pack_trees = Seq::new(packs.len(), |i: int| pack_tree(packs[i]));
    let mut list_of_packs: Vec<Json> = Vec::new();
    for i in 0..db.packs.len()
        invariant
            packs == pack_views(db.packs@),
            packs.len() == db.packs@.len(),
            pack_trees == Seq::new(packs.len(), |i: int| pack_tree(packs[i])),
            trees(list_of_packs@) == pack_trees.take(i as int),
    {
        let j = pack_json(&db.packs[i]);
        proof {
            lemma_trees_push(list_of_packs@, j);
        }
        list_of_packs.push(j);
        assert(pack_trees.take(i + 1) =~= pack_trees.take(i as int).push(pack_trees[i as int]));
    }
    assert(pack_trees.take(packs.len() as int) =~= pack_trees);
    let summary = db.summary();
    let list = vec![
        ("summary", Json::string(summary.as_str())),
        ("tag_weights", Json::Array(top)),
        ("packs", Json::Array(list_of_packs)),
    ];
    assert(pair_views(list@) =~= seq![
        ("summary"@, JsonView::Str(summary_text(db.ratings(), packs.len()))),
        ("tag_weights"@, JsonView::Array(all)),
        ("packs"@, JsonView::Array(pack_trees)),
    ]);
    let r = object_of(list);
    assert(shown_profile(db.ratings(), packs, w, order@) == r.tree());
    r
}

/// A file in the directory of packs: its size, where it is known, and when it was changed.
pub struct PackFile {
    pub name: String,
    pub size: Option<u64>,
    pub modified: String,
}

/// A size in units of 1024 bytes, rounded down; zero where it is not known.
pub open spec fn kilobytes(size: Option<u64>) -> u64 {
    match size {
        Some(n) => n / 1024,
        None => 0,
    }
}

/// A pack in the list.
pub open spec fn pack_entry(f: PackFile) -> JsonView {
    object(
        seq![
            ("name"@, JsonView::Str(f.name@)),
            ("size_kb"@, JsonView::Number(JsonNumber::Unsigned(kilobytes(f.size)))),
            ("modified"@, JsonView::Str(f.modified@)),
        ],
    )
}

/// The files that are packs.
pub open spec fn packs_among(s: Seq<PackFile>) -> Seq<PackFile>
    decreases s.len(),
{
    if s.len() == 0 {
        s
    } else if has_extension(s.last().name@, "mrpack"@) {
        packs_among(s.drop_last()).push(s.last())
    } else {
        packs_among(s.drop_last())
    }
}

/// The list of packs in a directory, in the given order.
pub open spec fn packs_tree(dir: Seq<char>, s: Seq<PackFile>, order: Seq<usize>) -> JsonView {
    object(
        seq![
            ("dir"@, JsonView::Str(dir)),
            (
                "packs"@,
                JsonView::Array(Seq::new(s.len(), |i: int| pack_entry(s[order[i] as int]))),
            ),
        ],
    )
}

/// When files were changed.
pub open spec fn times(s: Seq<PackFile>) -> Seq<Seq<char>> {
    Seq::new(s.len(), |i: int| s[i].modified@)
}

/// Whether a value is the list of the packs in a directory, the last changed first.
pub open spec fn is_pack_list(t: JsonView, dir: Seq<char>, s: Seq<PackFile>) -> bool {
    exists|order: Seq<usize>| #[trigger]
        packs_tree(dir, packs_among(s), order) == t && is_descending_texts(
            times(packs_among(s)),
            order,
        )
}

fn pack_file_json(f: &PackFile) -> (r: Json)
    ensures
        r.tree() == pack_entry(*f),
{
    let kb: u64 = match f.size {
        Some(n) => n / 1024,
        None => 0,
    };
    let list = vec![
        ("name", Json::string(f.name.as_str())),
        ("size_kb", Json::number(kb)),
        ("modified", Json::string(f.modified.as_str())),
    ];
    assert(pair_views(list@) =~= seq![
        ("name"@, JsonView::Str(f.name@)),
        ("size_kb"@, JsonView::Number(JsonNumber::Unsigned(kilobytes(f.size)))),
        ("modified"@, JsonView::Str(f.modified@)),
    ]);
    object_of(list)
}

/// The list of the packs in a directory, the last changed first.
pub fn packs(dir: &str, files: &Vec<PackFile>) -> (r: Json)
    ensures
        is_pack_list(r.tree(), dir@, files@),
{
    let mut entries: Vec<Json> = Vec::new();
    let mut changed: Vec<String> = Vec::new();
    assert(files@.take(0) =~= Seq::<PackFile>::empty());
    for i in 0..files.len()
        invariant
            entries@.len() == packs_among(files@.take(i as int)).len(),
            forall|k: int|
                0 <= k < entries@.len() ==> (#[trigger] entries@[k]).tree() == pack_entry(
                    packs_among(files@.take(i as int))[k],
                ),
            views(changed@) == times(packs_among(files@.take(i as int))),
    {
        let ghost t = files@.take(i + 1);
        assert(t.drop_last() =~= files@.take(i as int));
        assert(t.last() == files@[i as int]);
        if extension_is(files[i].name.as_str(), "mrpack") {
            let c = files[i].modified.clone();
            proof {
                lemma_views_push(changed@, c);
            }
            entries.push(pack_file_json(&files[i]));
            changed.push(c);
            assert(views(changed@) =~= times(packs_among(t)));
        }
    }
    assert(files@.take(files@.len() as int) =~= files@);
    let ghost kept = packs_among(files@);
    let order = descending_texts(&changed);
    assert(views(changed@).len() == changed@.len());
    assert(times(kept).len() == kept.len());
    let ghost all = Seq::new(kept.len(), |i: int| pack_entry(kept[order@[i] as int]));
    let mut v: Vec<Json> = Vec::new();
    for i in 0..order.len()
        invariant
            entries@.len() == kept.len(),
            is_permutation(order@, kept.len()),
            forall|k: int|
                0 <= k < entries@.len() ==> (#[trigger] entries@[k]).tree() == pack_entry(kept[k]),
            all == Seq::new(kept.len(), |i: int| pack_entry(kept[order@[i] as int])),
            trees(v@) == all.take(i as int),
    {
        assert(order@[i as int] < kept.len());
        let j = copy_json(&entries[order[i]]);
        proof {
            lemma_trees_push(v@, j);
        }
        v.push(j);
        assert(all.take(i + 1) =~= all.take(i as int).push(all[i as int]));
    }
    assert(all.take(kept.len() as int) =~= all);
    let list = vec![("dir", Json::string(dir)), ("packs", Json::Array(v))];
    assert(pair_views(list@) =~= seq![
        ("dir"@, JsonView::Str(dir@)),
        ("packs"@, JsonView::Array(all)),
    ]);
    let r = object_of(list);
    assert(packs_tree(dir@, kept, order@) == r.tree());
    r
}

// ---------------------------------------------------------------------------
// Recommendations and ratings
// ---------------------------------------------------------------------------

/// What is to be recommended for.
pub struct RecommendParams {
    pub game_version: String,
    pub loader: String,
}

/// A recommended mod.
pub open spec fn recommended(h: HitView, score: int) -> JsonView {
    object(
        seq![
            ("slug"@, JsonView::Str(h.slug)),
            ("title"@, JsonView::Str(h.title)),
            ("description"@, JsonView::Str(h.description)),
            ("downloads"@, JsonView::Number(JsonNumber::Unsigned(h.downloads))),
            ("categories"@, str_array(h.display_categories)),
            ("taste_score"@, whole_float(score)),
        ],
    )
}

/// The five first of the ranked mods.
pub open spec fn first_five(ranked: Seq<(HitView, int)>) -> Seq<JsonView> {
    Seq::new(
        if ranked.len() < 5 {
            ranked.len()
        } else {
            5
        },
        |i: int| recommended(ranked[i].0, ranked[i].1),
    )
}

/// The answer with recommended mods, or with the reason why there are none.
pub open spec fn recommend_tree(
    ranked: Result<Seq<(HitView, int)>, Seq<char>>,
    db_summary: Seq<char>,
) -> JsonView {
    match ranked {
        Ok(s) => object(
            seq![
                ("ok"@, JsonView::Bool(true)),
                ("recommendations"@, JsonView::Array(first_five(s))),
                ("db_summary"@, JsonView::Str(db_summary)),
            ],
        ),
        Err(e) => object(
            seq![
                ("ok"@, JsonView::Bool(false)),
                ("message"@, JsonView::Str(e)),
                ("recommendations"@, JsonView::Array(Seq::empty())),
            ],
        ),
    }
}

/// The views of a ranking, or of the reason why there is none.
pub open spec fn ranking_view(r: Result<Vec<ScoredHit>, String>) -> Result<
    Seq<(HitView, int)>,
    Seq<char>,
> {
    match r {
        Ok(v) => Ok(scored_views(v@)),
        Err(e) => Err(e@),
    }
}

fn recommended_json(s: &ScoredHit) -> (r: Json)
    ensures
        r.tree() == recommended(s.hit@, s.score as int),
{
    let h = &s.hit;
    let list = vec![
        ("slug", Json::string(h.slug.as_str())),
        ("title", Json::string(h.title.as_str())),
        ("description", Json::string(h.description.as_str())),
        ("downloads", Json::number(h.downloads)),
        ("categories", Json::strings(&h.display_categories)),
        ("taste_score", float_json(s.score)),
    ];
    let ghost v = h@;
    assert(pair_views(list@) =~= seq![
        ("slug"@, JsonView::Str(v.slug)),
        ("title"@, JsonView::Str(v.title)),
        ("description"@, JsonView::Str(v.description)),
        ("downloads"@, JsonView::Number(JsonNumber::Unsigned(v.downloads))),
        ("categories"@, str_array(v.display_categories)),
        ("taste_score"@, whole_float(s.score as int)),
    ]);
    object_of(list)
}

/// The answer with recommended mods, or with the reason why there are none.
pub fn recommend(ranked: &Result<Vec<ScoredHit>, String>, db_summary: &str) -> (r: Json)
    ensures
        r.tree() == recommend_tree(ranking_view(*ranked), db_summary@),
{
    match ranked {
        Ok(hits) => {
            let ghost sv = scored_views(hits@);
            let ghost all = first_five(sv);
            assert(sv.len() == hits@.len());
            let n: usize = if hits.len() < 5 {
                hits.len()
            } else {
                5
            };
            let mut v: Vec<Json> = Vec::new();
            for i in 0..n
                invariant
                    sv == scored_views(hits@),
                    all == first_five(sv),
                    n == all.len(),
                    n <= hits@.len(),
                    trees(v@) == all.take(i as int),
            {
                let j = recommended_json(&hits[i]);
                proof {
                    lemma_trees_push(v@, j);
                }
                v.push(j);
                assert(all.take(i + 1) =~= all.take(i as int).push(all[i as int]));
            }
            assert(all.take(n as int) =~= all);
            let list = vec![
                ("ok", Json::Bool(true)),
                ("recommendations", Json::Array(v)),
                ("db_summary", Json::string(db_summary)),
            ];
            assert(pair_views(list@) =~= seq![
                ("ok"@, JsonView::Bool(true)),
                ("recommendations"@, JsonView::Array(all)),
                ("db_summary"@, JsonView::Str(db_summary@)),
            ]);
            object_of(list)
        },
        Err(e) => {
            let none: Vec<Json> = Vec::new();
            assert(trees(none@) =~= Seq::<JsonView>::empty());
            let list = vec![
                ("ok", Json::Bool(false)),
                ("message", Json::string(e.as_str())),
                ("recommendations", Json::Array(none)),
            ];
            assert(pair_views(list@) =~= seq![
                ("ok"@, JsonView::Bool(false)),
                ("message"@, JsonView::Str(e@)),
                ("recommendations"@, JsonView::Array(Seq::empty())),
            ]);
            object_of(list)
        },
    }
}

/// A rating that was given in the web interface.
pub struct FeedbackRequest {
    pub slug: String,
    pub verdict: String,
}

/// The record of a rating that was given in the web interface.
pub fn web_record(req: &FeedbackRequest, tags: &Vec<String>, timestamp: &str) -> (r: FeedbackRecord)
    ensures
        r@ == (FeedbackView {
            slug: req.slug@,
            verdict: req.verdict@,
            tags: views(tags@),
            game_version: Seq::empty(),
            loader: Seq::empty(),
            source: "web"@,
            timestamp: timestamp@,
        }),
{
    let r = FeedbackRecord {
        slug: req.slug.clone(),
        verdict: req.verdict.clone(),
        tags: clone_list(tags),
        game_version: String::new(),
        loader: String::new(),
        source: "web".to_string(),
        timestamp: timestamp.to_string(),
    };
    assert(r@.game_version =~= Seq::<char>::empty());
    assert(r@.loader =~= Seq::<char>::empty());
    r
}

/// The answer to a rating, where it could be stored or not.
pub fn feedback(req: &FeedbackRequest, saved: &Result<(), String>, db_summary: &str) -> (r: Json)
    ensures
        r.tree() == (match saved {
            Ok(_) => object(
                seq![
                    ("ok"@, JsonView::Bool(true)),
                    ("slug"@, JsonView::Str(req.slug@)),
                    ("verdict"@, JsonView::Str(req.verdict@)),
                    ("db_summary"@, JsonView::Str(db_summary@)),
                ],
            ),
            Err(e) => answer_tree(false, e@),
        }),
{
    match saved {
        Ok(_) => {
            let list = vec![
                ("ok", Json::Bool(true)),
                ("slug", Json::string(req.slug.as_str())),
                ("verdict", Json::string(req.verdict.as_str())),
                ("db_summary", Json::string(db_summary)),
            ];
            assert(pair_views(list@) =~= seq![
                ("ok"@, JsonView::Bool(true)),
                ("slug"@, JsonView::Str(req.slug@)),
                ("verdict"@, JsonView::Str(req.verdict@)),
                ("db_summary"@, JsonView::Str(db_summary@)),
            ]);
            object_of(list)
        },
        Err(e) => answer(false, e.as_str()),
    }
}

// ---------------------------------------------------------------------------
// The conversation
// ---------------------------------------------------------------------------

/// A message of the user, with what is chosen above the input line.
pub struct ChatRequest {
    pub text: String,
    pub game_version: Option<String>,
    pub loader: Option<String>,
    pub search_limit: Option<Json>,
}

/// The number of mods that a value asks for: a number or its text, from 1 to the limit. Anything
/// else asks for nothing.
pub open spec fn wanted(t: JsonView) -> Option<u32> {
    let n = match t {
        JsonView::Str(s) => match parse_unsigned(s, u32::MAX as nat) {
            Some(n) => n as int,
            None => 0,
        },
        _ => match t.as_u64() {
            Some(n) => n as int,
            None => 0,
        },
    };
    if 1 <= n <= MAX_SEARCH_LIMIT {
        Some(n as u32)
    } else {
        None
    }
}

/// The number of mods that a value asks for.
pub fn parse_limit(v: &Json) -> (r: Option<u32>)
    ensures
        r == wanted(v.tree()),
{
    let n: u64 = match v {
        Json::Str(s) => match parse_u32(s.as_str()) {
            Some(n) => n as u64,
            None => 0,
        },
        _ => match v.as_u64() {
            Some(n) => n,
            None => 0,
        },
    };
    if n >= 1 && n <= MAX_SEARCH_LIMIT as u64 {
        Some(n as u32)
    } else {
        None
    }
}

/// A message with a preset before it.
pub open spec fn with_preset(
    text: Seq<char>,
    gv: Option<Seq<char>>,
    loader: Option<Seq<char>>,
    limit: Option<u32>,
) -> Seq<char> {
    match preset_text(gv, loader, limit) {
        Some(p) => p + text,
        None => text,
    }
}

/// Puts a preset before a message. What is not valid in it is left out.
pub fn apply_preset(
    text: String,
    gv: &Option<String>,
    loader: &Option<String>,
    limit: Option<u32>,
) -> (r: String)
    ensures
        r@ == with_preset(text@, opt_view(*gv), opt_view(*loader), limit),
{
    let g: Option<&str> = match gv {
        Some(s) => Some(s.as_str()),
        None => None,
    };
    let l: Option<&str> = match loader {
        Some(s) => Some(s.as_str()),
        None => None,
    };
    assert(opt_slice(g) == opt_view(*gv));
    assert(opt_slice(l) == opt_view(*loader));
    match preset_prefix(g, l, limit) {
        Some(p) => p.concat(text.as_str()),
        None => text,
    }
}

impl ChatRequest {
    /// The message that the agent is given.
    pub fn message(self) -> (r: String)
        ensures
            r@ == with_preset(
                self.text@,
                opt_view(self.game_version),
                opt_view(self.loader),
                match self.search_limit {
                    Some(j) => wanted(j.tree()),
                    None => None,
                },
            ),
    {
        let limit: Option<u32> = match &self.search_limit {
            Some(j) => parse_limit(j),
            None => None,
        };
        apply_preset(self.text, &self.game_version, &self.loader, limit)
    }
}

/// The members of an event of a turn.
pub open spec fn event_members(ev: EventView) -> Seq<(Seq<char>, JsonView)> {
    match ev {
        EventView::ToolCall { name, args } => seq![
            ("type"@, JsonView::Str("tool_call"@)),
            ("name"@, JsonView::Str(name)),
            ("args"@, JsonView::Str(args)),
        ],
        EventView::ToolResult { name, ok } => seq![
            ("type"@, JsonView::Str("tool_result"@)),
            ("name"@, JsonView::Str(name)),
            ("ok"@, JsonView::Bool(ok)),
        ],
        EventView::Progress { text, current, total } => seq![
            ("type"@, JsonView::Str("progress"@)),
            ("text"@, JsonView::Str(text)),
            ("current"@, number_or_null(current)),
            ("total"@, number_or_null(total)),
        ],
        EventView::ReplyDelta { text } => seq![
            ("type"@, JsonView::Str("reply_delta"@)),
            ("text"@, JsonView::Str(text)),
        ],
        EventView::Reply { text } => seq![
            ("type"@, JsonView::Str("reply"@)),
            ("text"@, JsonView::Str(text)),
        ],
        EventView::LlmUsage { prompt_tokens, completion_tokens, total_tokens } => seq![
            ("type"@, JsonView::Str("llm_usage"@)),
            ("prompt_tokens"@, JsonView::Number(JsonNumber::Unsigned(prompt_tokens))),
            ("completion_tokens"@, JsonView::Number(JsonNumber::Unsigned(completion_tokens))),
            ("total_tokens"@, JsonView::Number(JsonNumber::Unsigned(total_tokens))),
        ],
    }
}

/// An event of a turn.
pub open spec fn event_tree(ev: EventView) -> JsonView {
    object(event_members(ev))
}

/// An event of a turn.
pub fn event_json(ev: &AgentEvent) -> (r: Json)
    ensures
        r.tree() == event_tree(ev@),
{
    match ev {
        AgentEvent::ToolCall { name, args } => {
            let list = vec![
                ("type", Json::string("tool_call")),
                ("name", Json::string(name.as_str())),
                ("args", Json::string(args.as_str())),
            ];
            assert(pair_views(list@) =~= seq![
                ("type"@, JsonView::Str("tool_call"@)),
                ("name"@, JsonView::Str(name@)),
                ("args"@, JsonView::Str(args@)),
            ]);
            object_of(list)
        },
        AgentEvent::ToolResult { name, ok } => {
            let list = vec![
                ("type", Json::string("tool_result")),
                ("name", Json::string(name.as_str())),
                ("ok", Json::Bool(*ok)),
            ];
            assert(pair_views(list@) =~= seq![
                ("type"@, JsonView::Str("tool_result"@)),
                ("name"@, JsonView::Str(name@)),
                ("ok"@, JsonView::Bool(*ok)),
            ]);
            object_of(list)
        },
        AgentEvent::Progress { text, current, total } => {
            let list = vec![
                ("type", Json::string("progress")),
                ("text", Json::string(text.as_str())),
                ("current", optional_number(*current)),
                ("total", optional_number(*total)),
            ];
            assert(pair_views(list@) =~= seq![
                ("type"@, JsonView::Str("progress"@)),
                ("text"@, JsonView::Str(text@)),
                ("current"@, number_or_null(*current)),
                ("total"@, number_or_null(*total)),
            ]);
            object_of(list)
        },
        AgentEvent::ReplyDelta { text } => {
            let list = vec![
                ("type", Json::string("reply_delta")),
                ("text", Json::string(text.as_str())),
            ];
            assert(pair_views(list@) =~= seq![
                ("type"@, JsonView::Str("reply_delta"@)),
                ("text"@, JsonView::Str(text@)),
            ]);
            object_of(list)
        },
        AgentEvent::Reply { text } => {
            let list = vec![("type", Json::string("reply")), ("text", Json::string(text.as_str()))];
            assert(pair_views(list@) =~= seq![
                ("type"@, JsonView::Str("reply"@)),
                ("text"@, JsonView::Str(text@)),
            ]);
            object_of(list)
        },
        AgentEvent::LlmUsage { prompt_tokens, completion_tokens, total_tokens } => {
            let list = vec![
                ("type", Json::string("llm_usage")),
                ("prompt_tokens", Json::number(*prompt_tokens)),
                ("completion_tokens", Json::number(*completion_tokens)),
                ("total_tokens", Json::number(*total_tokens)),
            ];
            assert(pair_views(list@) =~= seq![
                ("type"@, JsonView::Str("llm_usage"@)),
                ("prompt_tokens"@, JsonView::Number(JsonNumber::Unsigned(*prompt_tokens))),
                ("completion_tokens"@, JsonView::Number(JsonNumber::Unsigned(*completion_tokens))),
                ("total_tokens"@, JsonView::Number(JsonNumber::Unsigned(*total_tokens))),
            ]);
            object_of(list)
        },
    }
}

/// The members of the line that a turn has failed.
pub open spec fn error_members(message: Seq<char>) -> Seq<(Seq<char>, JsonView)> {
    seq![("type"@, JsonView::Str("error"@)), ("message"@, JsonView::Str(message))]
}

/// The members of the line that a turn is over.
pub open spec fn done_members(usage: Seq<char>, saved: Seq<char>) -> Seq<(Seq<char>, JsonView)> {
    seq![
        ("type"@, JsonView::Str("done"@)),
        ("usage"@, JsonView::Str(usage)),
        ("saved"@, JsonView::Str(saved)),
    ]
}

/// A line of the stream.
pub open spec fn line_of(t: JsonView) -> Seq<char> {
    json_compact(t) + "\n"@
}

/// Whether a text is one line that denotes a value.
pub open spec fn is_line(s: Seq<char>, t: JsonView) -> bool {
    &&& s.len() > 0
    &&& s.last() == '\n'
    &&& !s.drop_last().contains('\n')
    &&& reads_as(s.drop_last(), t)
}

fn line(j: &Json) -> (r: String)
    ensures
        r@ == line_of(j.tree()),
        is_plain(j.tree(), 100) ==> is_line(r@, j.tree()),
{
    let s = render_json(j);
    let r = s.clone().concat("\n");
    proof {
        reveal_strlit("\n");
        assert(r@.drop_last() =~= s@);
    }
    r
}

/// The line for an event of a turn: each event takes one line, from which it can be read back.
pub fn event_line(ev: &AgentEvent) -> (r: String)
    ensures
        r@ == line_of(event_tree(ev@)),
        is_line(r@, event_tree(ev@)),
{
    proof {
        lemma_event_is_plain(ev@);
    }
    line(&event_json(ev))
}

/// The line that a turn has failed.
pub fn error_line(message: &str) -> (r: String)
    ensures
        r@ == line_of(object(error_members(message@))),
        is_line(r@, object(error_members(message@))),
{
    let list = vec![("type", Json::string("error")), ("message", Json::string(message))];
    assert(pair_views(list@) =~= error_members(message@));
    proof {
        lemma_plain_object(error_members(message@), 99);
    }
    line(&object_of(list))
}

/// The line that a turn is over, with the usage so far and the file that the conversation was
/// saved to.
pub fn done_line(usage: &str, saved: &str) -> (r: String)
    ensures
        r@ == line_of(object(done_members(usage@, saved@))),
        is_line(r@, object(done_members(usage@, saved@))),
{
    let list = vec![
        ("type", Json::string("done")),
        ("usage", Json::string(usage)),
        ("saved", Json::string(saved)),
    ];
    assert(pair_views(list@) =~= done_members(usage@, saved@));
    proof {
        lemma_plain_object(done_members(usage@, saved@), 99);
    }
    line(&object_of(list))
}

/// An event holds nothing that would not be read back as it was written.
proof fn lemma_event_is_plain(ev: EventView)
    ensures
        is_plain(event_tree(ev), 100),
{
    lemma_plain_object(event_members(ev), 99);
}

// ---------------------------------------------------------------------------
// Saved conversations
// ---------------------------------------------------------------------------

/// The saved conversation that is to be loaded.
pub struct ImportRequest {
    pub name: String,
}

/// Whether a name stands for a file in the directory itself: it leads nowhere else.
pub open spec fn is_plain_name(name: Seq<char>) -> bool {
    !name.contains('/') && !name.contains('\\') && !contains_spec(name, ".."@)
}

/// The path of the saved conversation that is to be loaded. A name that could lead out of the
/// directory is refused.
pub fn import_path(data_dir: &str, req: &ImportRequest) -> (r: Result<String, String>)
    ensures
        match r {
            Ok(p) => is_plain_name(req.name@) && p@ == data_dir@ + "/sessions"@ + "/"@ + req.name@,
            Err(e) => !is_plain_name(req.name@) && e@ == "非法文件名"@,
        },
{
    let name = req.name.as_str();
    if contains_char(name, '/') || contains_char(name, '\\') || contains(name, "..") {
        return Err("非法文件名".to_string());
    }
    Ok(sessions_dir(data_dir).concat("/").concat(name))
}

/// A saved conversation in the list.
pub open spec fn session_entry(s: SessionInfo) -> JsonView {
    object(
        seq![
            ("name"@, JsonView::Str(s.name@)),
            ("size_kb"@, JsonView::Number(JsonNumber::Unsigned(s.size_kb))),
            ("modified"@, JsonView::Str(s.modified@)),
            ("valid"@, JsonView::Bool(s.valid)),
        ],
    )
}

/// The list of saved conversations.
pub fn sessions(data_dir: &str, list: &Vec<SessionInfo>) -> (r: Json)
    ensures
        r.tree() == object(
            seq![
                ("dir"@, JsonView::Str(data_dir@ + "/sessions"@)),
                (
                    "sessions"@,
                    JsonView::Array(Seq::new(list@.len(), |i: int| session_entry(list@[i]))),
                ),
            ],
        ),
{
    let ghost all = Seq::new(list@.len(), |i: int| session_entry(list@[i]));
    let mut v: Vec<Json> = Vec::new();
    for i in 0..list.len()
        invariant
            all == Seq::new(list@.len(), |i: int| session_entry(list@[i])),
            trees(v@) == all.take(i as int),
    {
        let s = &list[i];
        let fields = vec![
            ("name", Json::string(s.name.as_str())),
            ("size_kb", Json::number(s.size_kb)),
            ("modified", Json::string(s.modified.as_str())),
            ("valid", Json::Bool(s.valid)),
        ];
        assert(pair_views(fields@) =~= seq![
            ("name"@, JsonView::Str(s.name@)),
            ("size_kb"@, JsonView::Number(JsonNumber::Unsigned(s.size_kb))),
            ("modified"@, JsonView::Str(s.modified@)),
            ("valid"@, JsonView::Bool(s.valid)),
        ]);
        let j = object_of(fields);
        proof {
            lemma_trees_push(v@, j);
        }
        v.push(j);
        assert(all.take(i + 1) =~= all.take(i as int).push(all[i as int]));
    }
    assert(all.take(list@.len() as int) =~= all);
    let dir = sessions_dir(data_dir);
    let fields = vec![("dir", Json::string(dir.as_str())), ("sessions", Json::Array(v))];
    assert(pair_views(fields@) =~= seq![
        ("dir"@, JsonView::Str(data_dir@ + "/sessions"@)),
        ("sessions"@, JsonView::Array(all)),
    ]);
    object_of(fields)
}

/// The answer after a conversation was loaded: a message, and what is to be shown of it.
pub fn restored(message: &str, messages: Vec<Json>) -> (r: Json)
    ensures
        r.tree() == object(
            seq![
                ("ok"@, JsonView::Bool(true)),
                ("message"@, JsonView::Str(message@)),
                ("messages"@, JsonView::Array(trees(messages@))),
            ],
        ),
{
    let ghost shown = trees(messages@);
    let list = vec![
        ("ok", Json::Bool(true)),
        ("message", Json::string(message)),
        ("messages", Json::Array(messages)),
    ];
    assert(pair_views(list@) =~= seq![
        ("ok"@, JsonView::Bool(true)),
        ("message"@, JsonView::Str(message@)),
        ("messages"@, JsonView::Array(shown)),
    ]);
    object_of(list)
}

// ---------------------------------------------------------------------------
// Settings
// ---------------------------------------------------------------------------

/// Whether the last four bytes of a key begin at its `i`-th character.
pub open spec fn tail_begins(key: Seq<char>, i: int) -> bool {
    0 <= i <= key.len() && byte_len(key.take(i)) + 4 == byte_len(key)
}

/// Whether a key can be masked: it is short, or its last four bytes are whole characters.
pub open spec fn is_maskable(key: Seq<char>) -> bool {
    byte_len(key) <= 4 || exists|i: int| #[trigger] tail_begins(key, i)
}

/// Whether `r` is what is shown of a key: at most its last four bytes.
pub open spec fn is_mask(r: Seq<char>, key: Seq<char>) -> bool {
    if byte_len(key) > 4 {
        exists|i: int| #[trigger] tail_begins(key, i) && r == "***"@ + key.skip(i)
    } else if key.len() > 0 {
        r == "***"@
    } else {
        r.len() == 0
    }
}

fn find_tail(v: &Vec<char>, size: usize) -> (r: Option<usize>)
    requires
        size == byte_len(v@),
        size > 4,
    ensures
        match r {
            Some(i) => tail_begins(v@, i as int),
            None => forall|i: int| !#[trigger] tail_begins(v@, i),
        },
{
    let mut n: usize = 0;
    let mut before: usize = 0;
    assert(v@.take(0) =~= Seq::<char>::empty());
    assert(v@.take(v@.len() as int) =~= v@);
    while n < v.len() && before < size - 4
        invariant
            size == byte_len(v@),
            size > 4,
            n <= v@.len(),
            before == byte_len(v@.take(n as int)),
            before <= size,
            forall|k: int| 0 <= k < n ==> byte_len(#[trigger] v@.take(k)) < size - 4,
        decreases v@.len() - n,
    {
        proof {
            lemma_byte_len_push(v@.take(n as int), v@[n as int]);
            assert(v@.take(n + 1) =~= v@.take(n as int).push(v@[n as int]));
            lemma_byte_len_grows(v@, n + 1, v@.len() as int);
            assert(v@.take(v@.len() as int) =~= v@);
        }
        before = before + char_width(v[n]);
        n += 1;
    }
    if before == size - 4 {
        return Some(n);
    }
    proof {
        assert(v@.take(v@.len() as int) =~= v@);
        assert forall|i: int| !#[trigger] tail_begins(v@, i) by {
            if n <= i <= v@.len() {
                lemma_byte_len_grows(v@, n as int, i);
            }
        }
    }
    None
}

/// Whether a key can be masked.
pub fn can_mask(key: &str) -> (r: bool)
    ensures
        r == is_maskable(key@),
{
    let size = byte_len_of(key);
    if size <= 4 {
        return true;
    }
    match find_tail(&chars_of(key), size) {
        Some(_) => true,
        None => false,
    }
}

/// What is shown of a key.
pub fn mask_key(key: &str) -> (r: String)
    requires
        is_maskable(key@),
    ensures
        is_mask(r@, key@),
{
    let size = byte_len_of(key);
    if size > 4 {
        let v = chars_of(key);
        match find_tail(&v, size) {
            Some(i) => {
                let tail = string_of(&v, i, v.len());
                assert(tail@ =~= key@.skip(i as int));
                assert(tail_begins(key@, i as int));
                "***".to_string().concat(tail.as_str())
            },
            None => {
                assert(false);
                String::new()
            },
        }
    } else if !is_empty(key) {
        "***".to_string()
    } else {
        String::new()
    }
}

/// A key is not given away: of two keys that end in the same four bytes, each longer than that,
/// the same is shown.
pub proof fn lemma_mask_hides_the_rest(a: Seq<char>, b: Seq<char>, tail: Seq<char>, r: Seq<char>)
    requires
        byte_len(tail) == 4,
        a.len() > 0,
        b.len() > 0,
        is_mask(r, a + tail),
    ensures
        is_mask(r, b + tail),
{
    lemma_byte_len_append(a, tail);
    lemma_byte_len_append(b, tail);
    lemma_byte_len_grows(a, 0, a.len() as int);
    lemma_byte_len_grows(b, 0, b.len() as int);
    assert(a.take(a.len() as int) =~= a);
    assert(b.take(b.len() as int) =~= b);
    assert((a + tail).take(a.len() as int) =~= a);
    assert((b + tail).take(b.len() as int) =~= b);
    let i = choose|i: int| #[trigger]
        tail_begins(a + tail, i) && r == "***"@ + (a + tail).skip(i);
    if i < a.len() {
        lemma_byte_len_grows(a + tail, i, a.len() as int);
    } else if i > a.len() {
        lemma_byte_len_grows(a + tail, a.len() as int, i);
    }
    assert((a + tail).skip(a.len() as int) =~= tail);
    assert((b + tail).skip(b.len() as int) =~= tail);
    assert(tail_begins(b + tail, b.len() as int));
}

/// A price as a number. What is no number in JSON is null.
pub open spec fn price_tree(price: Seq<char>) -> JsonView {
    match json_parsed(price) {
        Ok(t) => t,
        Err(_) => JsonView::Null,
    }
}

fn price_json(price: &str) -> (r: Json)
    ensures
        r.tree() == price_tree(price@),
{
    match parse_json(price) {
        Ok(j) => j,
        Err(_) => Json::Null,
    }
}

/// A text, or an empty one.
pub open spec fn text_or_empty(o: Option<Seq<char>>) -> Seq<char> {
    match o {
        Some(s) => s,
        None => Seq::empty(),
    }
}

/// The settings that are shown, with what is shown of the key.
pub open spec fn settings_tree(cfg: Config, masked: Seq<char>) -> JsonView {
    object(
        seq![
            ("model"@, JsonView::Str(cfg.llm.model@)),
            ("base_url"@, JsonView::Str(cfg.llm.base_url@)),
            ("api_key_set"@, JsonView::Bool(cfg.llm.api_key@.len() > 0)),
            ("api_key_masked"@, JsonView::Str(masked)),
            ("context_length"@, JsonView::Number(JsonNumber::Unsigned(cfg.llm.context_length))),
            ("price_input_per_m"@, price_tree(cfg.llm.price_input_per_m@)),
            ("price_output_per_m"@, price_tree(cfg.llm.price_output_per_m@)),
            ("token_budget"@, JsonView::Number(JsonNumber::Unsigned(cfg.llm.token_budget))),
            (
                "max_tool_iterations"@,
                JsonView::Number(JsonNumber::Unsigned(cfg.llm.max_tool_iterations as u64)),
            ),
            ("thinking"@, JsonView::Str(text_or_empty(opt_view(cfg.llm.thinking)))),
            ("curseforge_enabled"@, JsonView::Bool(cfg.curseforge.enabled)),
        ],
    )
}

/// The settings. Of the key no more is shown than its mask.
pub fn settings(cfg: &Config) -> (r: Json)
    requires
        is_maskable(cfg.llm.api_key@),
    ensures
        exists|m: Seq<char>| #[trigger]
            is_mask(m, cfg.llm.api_key@) && r.tree() == settings_tree(*cfg, m),
{
    let masked = mask_key(cfg.llm.api_key.as_str());
    let thinking = match &cfg.llm.thinking {
        Some(t) => t.clone(),
        None => String::new(),
    };
    let list = vec![
        ("model", Json::string(cfg.llm.model.as_str())),
        ("base_url", Json::string(cfg.llm.base_url.as_str())),
        ("api_key_set", Json::Bool(!is_empty(cfg.llm.api_key.as_str()))),
        ("api_key_masked", Json::string(masked.as_str())),
        ("context_length", Json::number(cfg.llm.context_length)),
        ("price_input_per_m", price_json(cfg.llm.price_input_per_m.as_str())),
        ("price_output_per_m", price_json(cfg.llm.price_output_per_m.as_str())),
        ("token_budget", Json::number(cfg.llm.token_budget)),
        ("max_tool_iterations", Json::number(cfg.llm.max_tool_iterations as u64)),
        ("thinking", Json::string(thinking.as_str())),
        ("curseforge_enabled", Json::Bool(cfg.curseforge.enabled)),
    ];
    let ghost shown = text_or_empty(opt_view(cfg.llm.thinking));
    assert(thinking@ =~= shown);
    assert(pair_views(list@) =~= seq![
        ("model"@, JsonView::Str(cfg.llm.model@)),
        ("base_url"@, JsonView::Str(cfg.llm.base_url@)),
        ("api_key_set"@, JsonView::Bool(cfg.llm.api_key@.len() > 0)),
        ("api_key_masked"@, JsonView::Str(masked@)),
        ("context_length"@, JsonView::Number(JsonNumber::Unsigned(cfg.llm.context_length))),
        ("price_input_per_m"@, price_tree(cfg.llm.price_input_per_m@)),
        ("price_output_per_m"@, price_tree(cfg.llm.price_output_per_m@)),
        ("token_budget"@, JsonView::Number(JsonNumber::Unsigned(cfg.llm.token_budget))),
        (
            "max_tool_iterations"@,
            JsonView::Number(JsonNumber::Unsigned(cfg.llm.max_tool_iterations as u64)),
        ),
        ("thinking"@, JsonView::Str(shown)),
        ("curseforge_enabled"@, JsonView::Bool(cfg.curseforge.enabled)),
    ]);
    let r = object_of(list);
    assert(is_mask(masked@, cfg.llm.api_key@));
    assert(r.tree() == settings_tree(*cfg, masked@));
    r
}

/// Changes of settings. What is absent stays as it is; so does the key where the new one is
/// blank. A blank `thinking` clears it.
pub struct SettingsRequest {
    pub base_url: Option<String>,
    pub api_key: Option<String>,
    pub model: Option<String>,
    pub context_length: Option<u64>,
    pub price_input_per_m: Option<String>,
    pub price_output_per_m: Option<String>,
    pub token_budget: Option<u64>,
    pub max_tool_iterations: Option<u32>,
    pub thinking: Option<String>,
    pub curseforge_enabled: Option<bool>,
}

/// Whether a text is there and blank.
pub open spec fn is_blank(o: Option<String>) -> bool {
    o matches Some(s) && trim_spec(s@).len() == 0
}

/// What is missing in a request.
pub open spec fn missing(req: SettingsRequest) -> Option<Seq<char>> {
    if is_blank(req.model) {
        Some("模型"@ + "不能为空"@)
    } else if is_blank(req.base_url) {
        Some("API 地址"@ + "不能为空"@)
    } else {
        None
    }
}

/// A text after a change.
pub open spec fn changed_text(old: Seq<char>, new: Option<String>) -> Seq<char> {
    match new {
        Some(s) => trim_spec(s@),
        None => old,
    }
}

/// Whether `new` is what a request makes of the settings `cfg`.
pub open spec fn is_changed(new: Config, cfg: Config, req: SettingsRequest) -> bool {
    &&& new.llm.base_url@ == changed_text(cfg.llm.base_url@, req.base_url)
    &&& new.llm.api_key@ == (if is_blank(req.api_key) {
        cfg.llm.api_key@
    } else {
        changed_text(cfg.llm.api_key@, req.api_key)
    })
    &&& new.llm.model@ == changed_text(cfg.llm.model@, req.model)
    &&& new.llm.context_length == (match req.context_length {
        Some(n) => n,
        None => cfg.llm.context_length,
    })
    &&& new.llm.price_input_per_m@ == (match req.price_input_per_m {
        Some(s) => s@,
        None => cfg.llm.price_input_per_m@,
    })
    &&& new.llm.price_output_per_m@ == (match req.price_output_per_m {
        Some(s) => s@,
        None => cfg.llm.price_output_per_m@,
    })
    &&& new.llm.token_budget == (match req.token_budget {
        Some(n) => n,
        None => cfg.llm.token_budget,
    })
    &&& new.llm.max_tool_iterations == (match req.max_tool_iterations {
        Some(n) => n,
        None => cfg.llm.max_tool_iterations,
    })
    &&& opt_view(new.llm.thinking) == (match req.thinking {
        Some(s) => if trim_spec(s@).len() == 0 {
            None
        } else {
            Some(trim_spec(s@))
        },
        None => opt_view(cfg.llm.thinking),
    })
    &&& new.curseforge.enabled == (match req.curseforge_enabled {
        Some(b) => b,
        None => cfg.curseforge.enabled,
    })
    &&& new.output == cfg.output
    &&& new.database == cfg.database
    &&& new.ui == cfg.ui
}

fn is_blank_text(o: &Option<String>) -> (r: bool)
    ensures
        r == is_blank(*o),
{
    match o {
        Some(s) => is_empty(trim(s.as_str()).as_str()),
        None => false,
    }
}

/// Refuses a request with a blank model or address.
pub fn check_request(req: &SettingsRequest) -> (r: Result<(), String>)
    ensures
        match r {
            Ok(_) => missing(*req) is None,
            Err(e) => missing(*req) == Some(e@),
        },
{
    if is_blank_text(&req.model) {
        return Err("模型".to_string().concat("不能为空"));
    }
    if is_blank_text(&req.base_url) {
        return Err("API 地址".to_string().concat("不能为空"));
    }
    Ok(())
}

/// Makes the changes of a request.
pub fn apply_settings(cfg: Config, req: &SettingsRequest) -> (new: Config)
    ensures
        is_changed(new, cfg, *req),
{
    let mut new = cfg;
    if let Some(v) = &req.base_url {
        new.llm.base_url = trim(v.as_str());
    }
    if let Some(v) = &req.api_key {
        let key = trim(v.as_str());
        if !is_empty(key.as_str()) {
            new.llm.api_key = key;
        }
    }
    if let Some(v) = &req.model {
        new.llm.model = trim(v.as_str());
    }
    if let Some(v) = req.context_length {
        new.llm.context_length = v;
    }
    if let Some(v) = &req.price_input_per_m {
        new.llm.price_input_per_m = v.clone();
    }
    if let Some(v) = &req.price_output_per_m {
        new.llm.price_output_per_m = v.clone();
    }
    if let Some(v) = req.token_budget {
        new.llm.token_budget = v;
    }
    if let Some(v) = req.max_tool_iterations {
        new.llm.max_tool_iterations = v;
    }
    if let Some(v) = &req.thinking {
        let t = trim(v.as_str());
        new.llm.thinking = if is_empty(t.as_str()) {
            None
        } else {
            Some(t)
        };
    }
    if let Some(v) = req.curseforge_enabled {
        new.curseforge.enabled = v;
    }
    new
}

/// A request that says nothing changes nothing.
pub proof fn lemma_empty_request_changes_nothing(cfg: Config, req: SettingsRequest, new: Config)
    requires
        req.base_url is None,
        req.api_key is None,
        req.model is None,
        req.context_length is None,
        req.price_input_per_m is None,
        req.price_output_per_m is None,
        req.token_budget is None,
        req.max_tool_iterations is None,
        req.thinking is None,
        req.curseforge_enabled is None,
        is_changed(new, cfg, req),
    ensures
        missing(req) is None,
        same_settings(new, cfg),
{
}

/// Whether two settings are equal.
pub open spec fn same_settings(a: Config, b: Config) -> bool {
    &&& a.llm.base_url@ == b.llm.base_url@
    &&& a.llm.api_key@ == b.llm.api_key@
    &&& a.llm.model@ == b.llm.model@
    &&& a.llm.context_length == b.llm.context_length
    &&& a.llm.price_input_per_m@ == b.llm.price_input_per_m@
    &&& a.llm.price_output_per_m@ == b.llm.price_output_per_m@
    &&& a.llm.token_budget == b.llm.token_budget
    &&& a.llm.max_tool_iterations == b.llm.max_tool_iterations
    &&& opt_view(a.llm.thinking) == opt_view(b.llm.thinking)
    &&& a.curseforge.enabled == b.curseforge.enabled
    &&& a.output == b.output
    &&& a.database == b.database
    &&& a.ui == b.ui
}

/// Takes over changed settings, where the scheme of the service's address is the given one, or
/// says why not.
pub fn accept_settings(new: Config, scheme: &Result<String, String>) -> (r: Result<Config, String>)
    ensures
        match r {
            Ok(c) => c == new && flaw(new, scheme_view(*scheme)) is None,
            Err(e) => flaw(new, scheme_view(*scheme)) matches Some(f) && e@ == "设置未保存: "@ + f,
        },
{
    match new.validate_with(scheme) {
        Ok(_) => Ok(new),
        Err(e) => Err("设置未保存: ".to_string().concat(e.as_str())),
    }
}

/// Whether an update of settings went as it should: a request with something missing is refused
/// and so are settings with a flaw; otherwise the changed settings come back.
pub open spec fn is_updated(r: Result<Config, String>, cfg: Config, req: SettingsRequest) -> bool {
    match missing(req) {
        Some(m) => r matches Err(e) && e@ == m,
        None => exists|new: Config| #[trigger]
            is_changed(new, cfg, req) && (match flaw(new, url_scheme(new.llm.base_url@)) {
                Some(f) => r matches Err(e) && e@ == "设置未保存: "@ + f,
                None => r == Ok::<Config, String>(new),
            }),
    }
}

/// Changes settings, or says why not.
pub fn settings_update(cfg: Config, req: &SettingsRequest) -> (r: Result<Config, String>)
    ensures
        is_updated(r, cfg, *req),
{
    match check_request(req) {
        Err(e) => {
            return Err(e);
        },
        Ok(_) => {},
    }
    let new = apply_settings(cfg, req);
    assert(is_changed(new, cfg, *req));
    let scheme = parse_url_scheme(new.llm.base_url.as_str());
    accept_settings(new, &scheme)
}

/// The message after settings were changed: whether they could be written to the file, and
/// whether CurseForge was turned on or off.
pub open spec fn update_message(
    model: Seq<char>,
    saved: Result<(), String>,
    curseforge: Option<bool>,
    curseforge_saved: Result<(), String>,
) -> Seq<char> {
    (match saved {
        Ok(_) => "已保存, 当前模型: "@ + model,
        Err(e) => "运行时已生效, 但写入 config.toml 失败: "@ + e@,
    }) + (match curseforge {
        Some(on) => (if on {
            "; CurseForge 已开启"@
        } else {
            "; CurseForge 已关闭"@
        }) + (match curseforge_saved {
            Ok(_) => Seq::empty(),
            Err(e) => " (写回失败: "@ + e@ + ")"@,
        }),
        None => Seq::empty(),
    })
}

/// The answer after settings were changed.
pub fn updated(
    model: &str,
    saved: &Result<(), String>,
    curseforge: Option<bool>,
    curseforge_saved: &Result<(), String>,
) -> (r: Json)
    ensures
        r.tree() == object(
            seq![
                ("ok"@, JsonView::Bool(true)),
                (
                    "message"@,
                    JsonView::Str(update_message(model@, *saved, curseforge, *curseforge_saved)),
                ),
                ("model"@, JsonView::Str(model@)),
            ],
        ),
{
    let first = match saved {
        Ok(_) => "已保存, 当前模型: ".to_string().concat(model),
        Err(e) => "运行时已生效, 但写入 config.toml 失败: ".to_string().concat(e.as_str()),
    };
    let second = match curseforge {
        Some(on) => {
            let state = if on {
                "; CurseForge 已开启".to_string()
            } else {
                "; CurseForge 已关闭".to_string()
            };
            match curseforge_saved {
                Ok(_) => state,
                Err(e) => {
                    let tail = " (写回失败: ".to_string().concat(e.as_str()).concat(")");
                    state.concat(tail.as_str())
                },
            }
        },
        None => String::new(),
    };
    let message = first.concat(second.as_str());
    assert(message@ =~= update_message(model@, *saved, curseforge, *curseforge_saved));
    let list = vec![
        ("ok", Json::Bool(true)),
        ("message", Json::string(message.as_str())),
        ("model", Json::string(model)),
    ];
    assert(pair_views(list@) =~= seq![
        ("ok"@, JsonView::Bool(true)),
        ("message"@, JsonView::Str(message@)),
        ("model"@, JsonView::Str(model@)),
    ]);
    object_of(list)
}

} // verus!
