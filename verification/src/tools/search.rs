//! `search_mods`: a search in Modrinth, and by name in CurseForge where it finds nothing.

use vstd::prelude::*;
use vstd::string::StringExecFns;

use crate::curseforge::{slugify, CfProject};
#[allow(unused_imports)]
use crate::curseforge::slug_of;
#[allow(unused_imports)]
use crate::json::{
    lemma_trees_push, object, opt_view, pair_views, str_array, trees, JsonNumber, JsonView,
};
use crate::json::{object_of, Json};
use crate::modrinth::{Hit, SearchResponse};
#[allow(unused_imports)]
use crate::modrinth::{hit_views, nested_views, HitView};
use crate::pipeline::{translate_keyword, MAX_SEARCH_LIMIT};
#[allow(unused_imports)]
use crate::pipeline::translated;
#[allow(unused_imports)]
use crate::text::{all_ascii, lemma_views_push, trim_spec, views};
use crate::text::{chars_of, is_empty, trim};

verus! {

/// What the model asks for.
pub struct SearchArgs {
    pub query: String,
    pub game_version: Option<String>,
    pub loader: Option<String>,
    pub limit: Option<u32>,
}

/// A search to make, sorted by relevance.
pub struct ModSearch {
    pub query: String,
    pub facets: Option<Vec<Vec<String>>>,
    pub limit: u32,
}

/// The filters of a search: the game version and the loader, where they are given.
pub open spec fn search_facets(gv: Option<Seq<char>>, loader: Option<Seq<char>>) -> Seq<
    Seq<Seq<char>>,
> {
    let f = match gv {
        Some(g) => seq![seq!["versions:"@ + g]],
        None => Seq::empty(),
    };
    match loader {
        Some(l) => f.push(seq!["categories:"@ + l]),
        None => f,
    }
}

/// How many hits are asked for: 8 where nothing is said, and from 1 to the most that one search
/// may return.
pub open spec fn search_limit(limit: Option<u32>) -> u32 {
    match limit {
        Some(n) => if n < 1 {
            1
        } else if n > MAX_SEARCH_LIMIT {
            MAX_SEARCH_LIMIT
        } else {
            n
        },
        None => 8,
    }
}

/// The search that serves a request.
pub fn plan_search(a: &SearchArgs) -> (r: ModSearch)
    ensures
        r.query@ == translated(a.query@),
        r.limit == search_limit(a.limit),
        1 <= r.limit <= MAX_SEARCH_LIMIT,
        ({
            let f = search_facets(opt_view(a.game_version), opt_view(a.loader));
            match r.facets {
                Some(v) => f.len() > 0 && nested_views(v@) == f,
                None => f.len() == 0,
            }
        }),
{
    let mut facets: Vec<Vec<String>> = Vec::new();
    assert(nested_views(facets@) =~= Seq::<Seq<Seq<char>>>::empty());
    match &a.game_version {
        Some(g) => {
            let v = vec!["versions:".to_string().concat(g.as_str())];
            assert(views(v@) =~= seq!["versions:"@ + g@]);
            facets.push(v);
            assert(nested_views(facets@) =~= seq![seq!["versions:"@ + g@]]);
        },
        None => {},
    }
    match &a.loader {
        Some(l) => {
            let ghost before = nested_views(facets@);
            let v = vec!["categories:".to_string().concat(l.as_str())];
            assert(views(v@) =~= seq!["categories:"@ + l@]);
            facets.push(v);
            assert(nested_views(facets@) =~= before.push(seq!["categories:"@ + l@]));
        },
        None => {},
    }
    assert(nested_views(facets@) == search_facets(opt_view(a.game_version), opt_view(a.loader)));
    assert(nested_views(facets@).len() == facets@.len());
    let limit: u32 = match a.limit {
        Some(n) => if n < 1 {
            1
        } else if n > MAX_SEARCH_LIMIT {
            MAX_SEARCH_LIMIT
        } else {
            n
        },
        None => 8,
    };
    ModSearch {
        query: translate_keyword(a.query.as_str()),
        facets: if facets.len() == 0 {
            None
        } else {
            Some(facets)
        },
        limit,
    }
}

fn is_ascii_text(s: &str) -> (r: bool)
    ensures
        r == all_ascii(s@),
{
    let v = chars_of(s);
    for i in 0..v.len()
        invariant
            v@ == s@,
            forall|j: int| 0 <= j < i ==> v@[j] < '\u{80}',
    {
        if v[i] >= '\u{80}' {
            return false;
        }
    }
    true
}

/// The name under which CurseForge is asked, where Modrinth has found nothing.
pub open spec fn fallback_slug(query: Seq<char>, hits: nat, cf_enabled: bool) -> Option<Seq<char>> {
    if hits == 0 && cf_enabled && all_ascii(trim_spec(query)) && slug_of(query).len() > 0 {
        Some(slug_of(query))
    } else {
        None
    }
}

/// The name under which CurseForge is asked.
pub fn cf_fallback(query: &str, hits: usize, cf_enabled: bool) -> (r: Option<String>)
    ensures
        opt_view(r) == fallback_slug(query@, hits as nat, cf_enabled),
{
    if hits != 0 || !cf_enabled || !is_ascii_text(trim(query).as_str()) {
        return None;
    }
    let slug = slugify(query);
    if is_empty(slug.as_str()) {
        None
    } else {
        Some(slug)
    }
}

/// The last four game versions of a mod, the last first.
pub open spec fn recent(versions: Seq<Seq<char>>) -> Seq<Seq<char>> {
    Seq::new(
        if versions.len() < 4 {
            versions.len()
        } else {
            4
        },
        |i: int| versions[versions.len() - 1 - i],
    )
}

/// Picks the last four game versions of a mod.
pub(crate) fn recent_versions(versions: &Vec<String>) -> (r: Vec<String>)
    ensures
        views(r@) == recent(views(versions@)),
{
    let n: usize = if versions.len() < 4 {
        versions.len()
    } else {
        4
    };
    let mut r: Vec<String> = Vec::new();
    for i in 0..n
        invariant
            n <= versions@.len(),
            n == recent(views(versions@)).len(),
            views(r@) == recent(views(versions@)).take(i as int),
    {
        let v = versions[versions.len() - 1 - i].clone();
        proof {
            lemma_views_push(r@, v);
        }
        r.push(v);
        assert(recent(views(versions@)).take(i + 1) =~= recent(views(versions@)).take(
            i as int,
        ).push(recent(views(versions@))[i as int]));
    }
    assert(recent(views(versions@)).take(n as int) =~= recent(views(versions@)));
    r
}

/// What the model is told of a hit.
pub open spec fn hit_tree(h: HitView) -> JsonView {
    object(
        seq![
            ("slug"@, JsonView::Str(h.slug)),
            ("title"@, JsonView::Str(h.title)),
            ("author"@, JsonView::Str(h.author)),
            ("downloads"@, JsonView::Number(JsonNumber::Unsigned(h.downloads))),
            ("description"@, JsonView::Str(h.description)),
            ("categories"@, str_array(h.display_categories)),
            ("recent_game_versions"@, str_array(recent(h.versions))),
        ],
    )
}

fn hit_json(h: &Hit) -> (r: Json)
    ensures
        r.tree() == hit_tree(h@),
{
    let list = vec![
        ("slug", Json::string(h.slug.as_str())),
        ("title", Json::string(h.title.as_str())),
        ("author", Json::string(h.author.as_str())),
        ("downloads", Json::number(h.downloads)),
        ("description", Json::string(h.description.as_str())),
        ("categories", Json::strings(&h.display_categories)),
        ("recent_game_versions", Json::strings(&recent_versions(&h.versions))),
    ];
    let ghost v = h@;
    assert(pair_views(list@) =~= seq![
        ("slug"@, JsonView::Str(v.slug)),
        ("title"@, JsonView::Str(v.title)),
        ("author"@, JsonView::Str(v.author)),
        ("downloads"@, JsonView::Number(JsonNumber::Unsigned(v.downloads))),
        ("description"@, JsonView::Str(v.description)),
        ("categories"@, str_array(v.display_categories)),
        ("recent_game_versions"@, str_array(recent(v.versions))),
    ]);
    object_of(list)
}

/// What the model is told of a mod that only CurseForge has.
pub open spec fn cf_tree(slug: Seq<char>, p: CfProject) -> JsonView {
    object(
        seq![
            ("slug"@, JsonView::Str(slug)),
            ("source"@, JsonView::Str("curseforge"@)),
            ("title"@, JsonView::Str(p.title@)),
            ("description"@, JsonView::Str(p.summary@)),
            ("categories"@, str_array(views(p.categories@))),
            (
                "note"@,
                JsonView::Str("CurseForge 独占候选, 组包时用 build_modpack 的 cf_mods 参数"@),
            ),
        ],
    )
}

fn cf_json(slug: &str, p: &CfProject) -> (r: Json)
    ensures
        r.tree() == cf_tree(slug@, *p),
{
    let list = vec![
        ("slug", Json::string(slug)),
        ("source", Json::string("curseforge")),
        ("title", Json::string(p.title.as_str())),
        ("description", Json::string(p.summary.as_str())),
        ("categories", Json::strings(&p.categories)),
        ("note", Json::string("CurseForge 独占候选, 组包时用 build_modpack 的 cf_mods 参数")),
    ];
    assert(pair_views(list@) =~= seq![
        ("slug"@, JsonView::Str(slug@)),
        ("source"@, JsonView::Str("curseforge"@)),
        ("title"@, JsonView::Str(p.title@)),
        ("description"@, JsonView::Str(p.summary@)),
        ("categories"@, str_array(views(p.categories@))),
        ("note"@, JsonView::Str("CurseForge 独占候选, 组包时用 build_modpack 的 cf_mods 参数"@)),
    ]);
    object_of(list)
}

/// The mods that are reported: the hits, or the one that CurseForge has.
pub open spec fn found_trees(hits: Seq<HitView>, cf: Option<(Seq<char>, CfProject)>) -> Seq<
    JsonView,
> {
    let t = hits.map_values(|h: HitView| hit_tree(h));
    match cf {
        Some(p) => t.push(cf_tree(p.0, p.1)),
        None => t,
    }
}

/// The value of what CurseForge has found.
pub open spec fn cf_view(cf: Option<(&String, &CfProject)>) -> Option<(Seq<char>, CfProject)> {
    match cf {
        Some(p) => Some((p.0@, *p.1)),
        None => None,
    }
}

/// What the model is told of a search.
pub fn search_report(query_used: &str, resp: &SearchResponse, cf: Option<(&String, &CfProject)>) -> (
    r: Json)
    ensures
        r.tree() == object(
            seq![
                ("query_used"@, JsonView::Str(query_used@)),
                ("total_hits"@, JsonView::Number(JsonNumber::Unsigned(resp.total_hits as u64))),
                (
                    "mods"@,
                    JsonView::Array(
                        found_trees(hit_views(resp.hits@), cf_view(cf)),
                    ),
                ),
            ],
        ),
{
    let ghost hv = hit_views(resp.hits@);
    let ghost ht = hv.map_values(|h: HitView| hit_tree(h));
    let mut mods: Vec<Json> = Vec::new();
    for i in 0..resp.hits.len()
        invariant
            hv == hit_views(resp.hits@),
            ht == hv.map_values(|h: HitView| hit_tree(h)),
            trees(mods@) == ht.take(i as int),
    {
        let j = hit_json(&resp.hits[i]);
        proof {
            lemma_trees_push(mods@, j);
        }
        mods.push(j);
        assert(ht.take(i + 1) =~= ht.take(i as int).push(ht[i as int]));
    }
    assert(ht.take(resp.hits@.len() as int) =~= ht);
    match cf {
        Some(p) => {
            let j = cf_json(p.0.as_str(), p.1);
            proof {
                lemma_trees_push(mods@, j);
            }
            mods.push(j);
        },
        None => {},
    }
    let ghost mt = trees(mods@);
    assert(mt == found_trees(hv, cf_view(cf)));
    let list = vec![
        ("query_used", Json::string(query_used)),
        ("total_hits", Json::number(resp.total_hits as u64)),
        ("mods", Json::Array(mods)),
    ];
    assert(pair_views(list@) =~= seq![
        ("query_used"@, JsonView::Str(query_used@)),
        ("total_hits"@, JsonView::Number(JsonNumber::Unsigned(resp.total_hits as u64))),
        ("mods"@, JsonView::Array(mt)),
    ]);
    object_of(list)
}

} // verus!
