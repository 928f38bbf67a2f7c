//! The Modrinth catalogue: what it answers, and how it is asked.

use vstd::prelude::*;
use vstd::string::StringExecFns;

#[allow(unused_imports)]
use crate::json::{json_compact, lemma_trees_push, str_array, trees, JsonView};
use crate::json::{render_json, Json};
use crate::number::u64_to_string;
#[allow(unused_imports)]
use crate::number::dec;
use crate::text::clone_list;
#[allow(unused_imports)]
use crate::text::views;

verus! {

/// Where the catalogue is.
pub const API_BASE: &'static str = "https://api.modrinth.com/v2";

/// How the program names itself to the catalogue.
pub const USER_AGENT: &'static str = "RustAgent/0.1 (tsinghua rust course project)";

/// The answer to a search.
pub struct SearchResponse {
    pub total_hits: u32,
    pub hits: Vec<Hit>,
}

/// A mod that a search has found.
pub struct Hit {
    pub slug: String,
    pub title: String,
    pub description: String,
    pub author: String,
    pub downloads: u64,
    pub display_categories: Vec<String>,
    pub versions: Vec<String>,
}

/// A mod by itself.
pub struct Project {
    pub slug: String,
    pub client_side: String,
    pub server_side: String,
    pub categories: Vec<String>,
}

/// A release of a mod.
pub struct ModVersion {
    pub version_number: String,
    pub dependencies: Vec<Dependency>,
    pub files: Vec<VersionFile>,
}

/// What a release declares of another mod.
pub struct Dependency {
    pub dependency_type: String,
    pub project_id: Option<String>,
}

/// A file of a release.
pub struct VersionFile {
    pub filename: String,
    pub url: String,
    pub primary: bool,
    pub size: u64,
    pub hashes: Hashes,
}

/// The checksums of a file.
pub struct Hashes {
    pub sha1: String,
    pub sha512: String,
}

/// The mathematical value of a [`Hit`].
#[verifier::ext_equal]
pub struct HitView {
    pub slug: Seq<char>,
    pub title: Seq<char>,
    pub description: Seq<char>,
    pub author: Seq<char>,
    pub downloads: u64,
    pub display_categories: Seq<Seq<char>>,
    pub versions: Seq<Seq<char>>,
}

impl View for Hit {
    type V = HitView;

    open spec fn view(&self) -> HitView {
        HitView {
            slug: self.slug@,
            title: self.title@,
            description: self.description@,
            author: self.author@,
            downloads: self.downloads,
            display_categories: views(self.display_categories@),
            versions: views(self.versions@),
        }
    }
}

impl Clone for Hit {
    fn clone(&self) -> (r: Hit)
        ensures
            r@ == self@,
    {
        Hit {
            slug: self.slug.clone(),
            title: self.title.clone(),
            description: self.description.clone(),
            author: self.author.clone(),
            downloads: self.downloads,
            display_categories: clone_list(&self.display_categories),
            versions: clone_list(&self.versions),
        }
    }
}

/// The views of a list of hits.
pub open spec fn hit_views(s: Seq<Hit>) -> Seq<HitView> {
    s.map_values(|h: Hit| h@)
}

/// The views of a list of lists of strings.
pub open spec fn nested_views(s: Seq<Vec<String>>) -> Seq<Seq<Seq<char>>> {
    s.map_values(|v: Vec<String>| views(v@))
}

/// Search filters as the catalogue reads them: a list of alternatives each.
pub open spec fn facets_tree(s: Seq<Seq<Seq<char>>>) -> JsonView {
    JsonView::Array(s.map_values(|v: Seq<Seq<char>>| str_array(v)))
}

/// The views of a list of named values.
pub open spec fn param_views(s: Seq<(String, String)>) -> Seq<(Seq<char>, Seq<char>)> {
    s.map_values(|p: (String, String)| (p.0@, p.1@))
}

fn facets_json(facets: &Vec<Vec<String>>) -> (r: Json)
    ensures
        r.tree() == facets_tree(nested_views(facets@)),
{
    let mut items: Vec<Json> = Vec::new();
    let ghost all = nested_views(facets@).map_values(|v: Seq<Seq<char>>| str_array(v));
    for i in 0..facets.len()
        invariant
            all == nested_views(facets@).map_values(|v: Seq<Seq<char>>| str_array(v)),
            trees(items@) == all.take(i as int),
    {
        let j = Json::strings(&facets[i]);
        proof {
            lemma_trees_push(items@, j);
        }
        items.push(j);
        assert(all.take(i + 1) =~= all.take(i as int).push(all[i as int]));
    }
    assert(all.take(facets@.len() as int) =~= all);
    Json::Array(items)
}

/// The parameters of a search. One that begins with the first hit names no offset.
pub open spec fn search_query(
    query: Seq<char>,
    facets: Option<Seq<Seq<Seq<char>>>>,
    limit: u32,
    offset: u32,
    index: Seq<char>,
) -> Seq<(Seq<char>, Seq<char>)> {
    let first = seq![("query"@, query), ("limit"@, dec(limit as nat)), ("index"@, index)];
    let p = if offset > 0 {
        first.push(("offset"@, dec(offset as nat)))
    } else {
        first
    };
    match facets {
        Some(f) => p.push(("facets"@, json_compact(facets_tree(f)))),
        None => p,
    }
}

/// The parameters of a search.
pub fn search_params(
    query: &str,
    facets: Option<&Vec<Vec<String>>>,
    limit: u32,
    offset: u32,
    index: &str,
) -> (r: Vec<(String, String)>)
    ensures
        param_views(r@) == search_query(
            query@,
            match facets {
                Some(f) => Some(nested_views(f@)),
                None => None,
            },
            limit,
            offset,
            index@,
        ),
{
    let mut r: Vec<(String, String)> = Vec::new();
    r.push(("query".to_string(), query.to_string()));
    r.push(("limit".to_string(), u64_to_string(limit as u64)));
    r.push(("index".to_string(), index.to_string()));
    if offset > 0 {
        r.push(("offset".to_string(), u64_to_string(offset as u64)));
    }
    match facets {
        Some(f) => {
            r.push(("facets".to_string(), render_json(&facets_json(f))));
        },
        None => {},
    }
    assert(param_views(r@) =~= search_query(
        query@,
        match facets {
            Some(f) => Some(nested_views(f@)),
            None => None,
        },
        limit,
        offset,
        index@,
    ));
    r
}

/// The address of searches.
pub fn search_url() -> (r: String)
    ensures
        r@ == API_BASE@ + "/search"@,
{
    API_BASE.to_string().concat("/search")
}

/// The address of a mod.
pub fn project_url(slug: &str) -> (r: String)
    ensures
        r@ == API_BASE@ + "/project/"@ + slug@,
{
    API_BASE.to_string().concat("/project/").concat(slug)
}

/// The address of the releases of a mod.
pub fn versions_url(slug: &str) -> (r: String)
    ensures
        r@ == API_BASE@ + "/project/"@ + slug@ + "/version"@,
{
    API_BASE.to_string().concat("/project/").concat(slug).concat("/version")
}

/// The parameters that restrict releases to a game version and a loader.
pub fn versions_params(game_version: &str, loader: &str) -> (r: Vec<(String, String)>)
    ensures
        param_views(r@) == seq![
            ("game_versions"@, "[\""@ + game_version@ + "\"]"@),
            ("loaders"@, "[\""@ + loader@ + "\"]"@),
        ],
{
    let mut r: Vec<(String, String)> = Vec::new();
    r.push(
        ("game_versions".to_string(), "[\"".to_string().concat(game_version).concat("\"]")),
    );
    r.push(("loaders".to_string(), "[\"".to_string().concat(loader).concat("\"]")));
    assert(param_views(r@) =~= seq![
        ("game_versions"@, "[\""@ + game_version@ + "\"]"@),
        ("loaders"@, "[\""@ + loader@ + "\"]"@),
    ]);
    r
}

} // verus!
