//! Laws of searching: what the catalogue is asked, and what is told of what it found.

use vstd::prelude::*;

#[allow(unused_imports)]
use crate::curseforge::{is_slug_char, slug_of, slug_of_lower, CfProject};
#[allow(unused_imports)]
use crate::json::{json_compact, object_map, str_array, JsonView};
#[allow(unused_imports)]
use crate::laws::texts::{lemma_join_parts, lemma_words_of_parts};
#[allow(unused_imports)]
use crate::modrinth::{facets_tree, search_query, HitView};
#[allow(unused_imports)]
use crate::number::dec;
#[allow(unused_imports)]
use crate::pipeline::{first_keyword, keyword_map, translated};
#[allow(unused_imports)]
use crate::text::{
    contains_spec, is_whitespace, join_spec, trim_spec, unicode_lower, views, words_spec,
};
#[allow(unused_imports)]
use crate::tools::search::{
    cf_tree, fallback_slug, found_trees, hit_tree, recent, search_facets, search_limit,
};

verus! {

/// A search is filtered by exactly what was named: one filter for the game version, one for the
/// loader, and none for what was not named.
pub proof fn lemma_filters_of_a_search(gv: Option<Seq<char>>, loader: Option<Seq<char>>)
    ensures
        gv matches Some(g) ==> search_facets(gv, loader).contains(seq!["versions:"@ + g]),
        loader matches Some(l) ==> search_facets(gv, loader).contains(seq!["categories:"@ + l]),
        search_facets(gv, loader).len() == (if gv is Some {
            1int
        } else {
            0
        }) + (if loader is Some {
            1int
        } else {
            0
        }),
{
    let f = search_facets(gv, loader);
    match gv {
        Some(g) => {
            assert(f[0] == seq!["versions:"@ + g]);
        },
        None => {},
    }
    match loader {
        Some(l) => {
            assert(f[f.len() - 1] == seq!["categories:"@ + l]);
        },
        None => {},
    }
}

/// As many hits are asked for as were wanted, from 1 to 20; 8 where nothing was said.
pub proof fn lemma_number_of_hits(n: u32)
    ensures
        search_limit(None) == 8,
        1 <= n <= 20 ==> search_limit(Some(n)) == n,
        n == 0 ==> search_limit(Some(n)) == 1,
        n > 20 ==> search_limit(Some(n)) == 20,
{
}

/// What the catalogue is sent: each value under its name, the place to begin with only where it
/// is not the first, and the filters only where there are some.
pub proof fn lemma_values_of_a_search(
    query: Seq<char>,
    facets: Option<Seq<Seq<Seq<char>>>>,
    limit: u32,
    offset: u32,
    index: Seq<char>,
)
    ensures
        ({
            let p = search_query(query, facets, limit, offset, index);
            &&& p.contains(("query"@, query))
            &&& p.contains(("limit"@, dec(limit as nat)))
            &&& p.contains(("index"@, index))
            &&& (offset > 0 ==> p.contains(("offset"@, dec(offset as nat))))
            &&& (facets matches Some(f) ==> p.contains(("facets"@, json_compact(facets_tree(f)))))
            &&& p.len() == 3 + (if offset > 0 {
                1int
            } else {
                0
            }) + (if facets is Some {
                1int
            } else {
                0
            })
        }),
{
    let p = search_query(query, facets, limit, offset, index);
    assert(p[0] == ("query"@, query));
    assert(p[1] == ("limit"@, dec(limit as nat)));
    assert(p[2] == ("index"@, index));
    if offset > 0 {
        assert(p[3] == ("offset"@, dec(offset as nat)));
    }
    match facets {
        Some(f) => {
            assert(p[p.len() - 1] == ("facets"@, json_compact(facets_tree(f))));
        },
        None => {},
    }
}

/// Filters are sent as a list of lists of texts, each as it is.
pub proof fn lemma_filters_as_sent(s: Seq<Seq<Seq<char>>>, i: int, j: int)
    requires
        0 <= i < s.len(),
        0 <= j < s[i].len(),
    ensures
        facets_tree(s) matches JsonView::Array(all) && all.len() == s.len() && (
        all[i] matches JsonView::Array(one) && one.len() == s[i].len() && one[j] == JsonView::Str(
            s[i][j],
        )),
{
}

/// A query in which a keyword of the list occurs becomes the English word for it, for the first
/// keyword of the list that occurs; any other query stays as it is.
pub proof fn lemma_first_keyword_counts(s: Seq<char>, map: Seq<(Seq<char>, Seq<char>)>, i: int)
    ensures
        0 <= i < map.len() && contains_spec(s, map[i].0) && (forall|j: int|
            0 <= j < i ==> !contains_spec(s, (#[trigger] map[j]).0)) ==> first_keyword(s, map)
            == Some(map[i].1),
        (forall|j: int| 0 <= j < map.len() ==> !contains_spec(s, (#[trigger] map[j]).0))
            ==> first_keyword(s, map) is None,
    decreases map.len(),
{
    if map.len() > 0 {
        let m = map.drop_first();
        assert(forall|j: int| 0 <= j < m.len() ==> m[j] == map[j + 1]);
        lemma_first_keyword_counts(s, m, i - 1);
        if 0 <= i < map.len() && contains_spec(s, map[i].0) && (forall|j: int|
            0 <= j < i ==> !contains_spec(s, (#[trigger] map[j]).0)) {
            if i > 0 {
                assert(!contains_spec(s, map[0].0));
                assert(m[i - 1] == map[i]);
                assert forall|j: int| 0 <= j < i - 1 implies !contains_spec(
                    s,
                    (#[trigger] m[j]).0,
                ) by {
                    assert(m[j] == map[j + 1]);
                }
            }
        }
        if forall|j: int| 0 <= j < map.len() ==> !contains_spec(s, (#[trigger] map[j]).0) {
            assert(!contains_spec(s, map[0].0));
            assert forall|j: int| 0 <= j < m.len() implies !contains_spec(
                s,
                (#[trigger] m[j]).0,
            ) by {
                assert(m[j] == map[j + 1]);
            }
        }
    }
}

/// What is searched for: the English word for the first keyword that occurs in the query, in
/// lower case and trimmed, or that text itself.
pub proof fn lemma_query_is_translated(q: Seq<char>, i: int)
    ensures
        ({
            let s = unicode_lower(trim_spec(q));
            let map = keyword_map();
            &&& s.len() > 0 && 0 <= i < map.len() && contains_spec(s, map[i].0) && (forall|j: int|
                0 <= j < i ==> !contains_spec(s, (#[trigger] map[j]).0)) ==> translated(q)
                == map[i].1
            &&& (forall|j: int| 0 <= j < map.len() ==> !contains_spec(s, (#[trigger] map[j]).0))
                ==> translated(q) == s
            &&& s.len() == 0 ==> translated(q) == s
        }),
{
    lemma_first_keyword_counts(unicode_lower(trim_spec(q)), keyword_map(), i);
}

/// The keywords that are known, with their English words; a longer one stands before what it
/// begins or ends with.
pub proof fn lemma_known_keywords()
    ensures
        keyword_map().len() == 24,
        keyword_map()[0] == ("龙世界"@, "dragon"@),
        keyword_map()[1] == ("恶龙"@, "dragon"@),
        keyword_map()[2] == ("龙"@, "dragon"@),
        keyword_map()[3] == ("魔法世界"@, "magic"@),
        keyword_map()[4] == ("奇幻"@, "fantasy"@),
        keyword_map()[5] == ("魔法"@, "magic"@),
        keyword_map()[6] == ("法术"@, "spell"@),
        keyword_map()[7] == ("地牢"@, "dungeon"@),
        keyword_map()[8] == ("迷宫"@, "dungeon"@),
        keyword_map()[9] == ("城堡"@, "castle"@),
        keyword_map()[10] == ("中世纪"@, "medieval"@),
        keyword_map()[11] == ("探索"@, "exploration"@),
        keyword_map()[12] == ("冒险"@, "adventure"@),
        keyword_map()[13] == ("科技"@, "technology"@),
        keyword_map()[14] == ("工业"@, "industry"@),
        keyword_map()[15] == ("性能"@, "optimization"@),
        keyword_map()[16] == ("优化"@, "optimization"@),
        keyword_map()[17] == ("装饰"@, "decoration"@),
        keyword_map()[18] == ("家具"@, "furniture"@),
        keyword_map()[19] == ("建筑"@, "building"@),
        keyword_map()[20] == ("存储"@, "storage"@),
        keyword_map()[21] == ("食物"@, "food"@),
        keyword_map()[22] == ("魔物"@, "monster"@),
        keyword_map()[23] == ("空岛"@, "skyblock"@),
{
}

proof fn lemma_filter_keeps_all(s: Seq<char>, keep: spec_fn(char) -> bool)
    requires
        forall|i: int| 0 <= i < s.len() ==> keep(#[trigger] s[i]),
    ensures
        s.filter(keep) == s,
    decreases s.len(),
{
    reveal(Seq::filter);
    if s.len() > 0 {
        lemma_filter_keeps_all(s.drop_last(), keep);
        assert(s.drop_last().push(s.last()) =~= s);
    } else {
        assert(s.filter(keep) =~= s);
    }
}

/// A slug has a hyphen where white space stands between two words, and each word of ASCII letters,
/// digits and hyphens is in it as it is.
pub proof fn lemma_slug_of_words(a: Seq<char>, c: char, b: Seq<char>)
    requires
        is_whitespace(c),
        words_spec(a).len() > 0,
        words_spec(b).len() > 0,
    ensures
        slug_of_lower(a + seq![c] + b) == slug_of_lower(a) + seq!['-'] + slug_of_lower(b),
{
    reveal_strlit("-");
    let keep = |x: char| is_slug_char(x);
    lemma_words_of_parts(a, c, b);
    let wa = words_spec(a);
    let wb = words_spec(b);
    lemma_join_parts(wa, wb, "-"@);
    let ja = join_spec(wa, "-"@);
    let jb = join_spec(wb, "-"@);
    Seq::filter_distributes_over_add(ja, "-"@, keep);
    Seq::filter_distributes_over_add(ja + "-"@, jb, keep);
    assert("-"@ =~= seq!['-']);
    lemma_filter_keeps_all("-"@, keep);
}

/// The slug of one word holds its ASCII letters, digits and hyphens, and leaves out all else.
pub proof fn lemma_slug_of_word(w: Seq<char>, v: Seq<char>, c: char)
    requires
        forall|i: int| 0 <= i < w.len() ==> !is_whitespace(#[trigger] w[i]),
        forall|i: int| 0 <= i < v.len() ==> !is_whitespace(#[trigger] v[i]),
        !is_whitespace(c),
        w.len() > 0,
        v.len() > 0,
    ensures
        (forall|i: int|
            0 <= i < w.len() ==> {
                let x = #[trigger] w[i];
                'a' <= x <= 'z' || 'A' <= x <= 'Z' || '0' <= x <= '9' || x == '-'
            }) ==> slug_of_lower(w) == w,
        !('a' <= c <= 'z' || 'A' <= c <= 'Z' || '0' <= c <= '9' || c == '-') ==> slug_of_lower(
            w + seq![c] + v,
        ) == slug_of_lower(w) + slug_of_lower(v),
{
    let keep = |x: char| is_slug_char(x);
    lemma_words_of_parts(w, ' ', Seq::empty());
    lemma_words_of_parts(v, ' ', Seq::empty());
    lemma_join_parts(seq![w], Seq::empty(), "-"@);
    lemma_join_parts(seq![v], Seq::empty(), "-"@);
    if forall|i: int|
        0 <= i < w.len() ==> {
            let x = #[trigger] w[i];
            'a' <= x <= 'z' || 'A' <= x <= 'Z' || '0' <= x <= '9' || x == '-'
        } {
        assert(forall|i: int| 0 <= i < w.len() ==> keep(#[trigger] w[i]));
        lemma_filter_keeps_all(w, keep);
    }
    let s = w + seq![c] + v;
    assert forall|i: int| 0 <= i < s.len() implies !is_whitespace(#[trigger] s[i]) by {
        if i < w.len() {
            assert(s[i] == w[i]);
        } else if i > w.len() {
            assert(s[i] == v[i - w.len() - 1]);
        }
    }
    lemma_words_of_parts(s, ' ', Seq::empty());
    lemma_join_parts(seq![s], Seq::empty(), "-"@);
    if !keep(c) {
        Seq::filter_distributes_over_add(w, seq![c], keep);
        Seq::filter_distributes_over_add(w + seq![c], v, keep);
        broadcast use Seq::lemma_filter_push;

        assert(seq![c] =~= Seq::<char>::empty().push(c));
        assert(Seq::<char>::empty().filter(keep) =~= Seq::<char>::empty()) by {
            reveal(Seq::filter);
        }
        assert(w.filter(keep) + seq![c].filter(keep) =~= w.filter(keep));
    }
}

/// CurseForge is asked only where Modrinth has found nothing, it may be asked, and the query is
/// ASCII and leaves something for a name.
pub proof fn lemma_when_curseforge_is_asked(query: Seq<char>, hits: nat, enabled: bool, i: int)
    ensures
        hits > 0 ==> fallback_slug(query, hits, enabled) is None,
        !enabled ==> fallback_slug(query, hits, enabled) is None,
        0 <= i < trim_spec(query).len() && trim_spec(query)[i] as int >= 128 ==> fallback_slug(
            query,
            hits,
            enabled,
        ) is None,
        hits == 0 && enabled && (forall|k: int|
            0 <= k < trim_spec(query).len() ==> (#[trigger] trim_spec(query)[k] as int) < 128)
            && slug_of(query).len() > 0 ==> fallback_slug(query, hits, enabled) == Some(
            slug_of(query),
        ),
        fallback_slug(query, hits, enabled) matches Some(s) ==> s.len() > 0,
{
}

/// Of the game versions of a mod the last four are told, the last first; all where there are
/// fewer.
pub proof fn lemma_recent_versions(v: Seq<Seq<char>>, i: int)
    ensures
        recent(v).len() <= 4,
        recent(v).len() <= v.len(),
        v.len() >= 4 ==> recent(v).len() == 4,
        v.len() < 4 ==> recent(v).len() == v.len(),
        0 <= i < recent(v).len() ==> recent(v)[i] == v[v.len() - 1 - i],
{
}

/// What the model is told of a hit is what the catalogue said of it.
pub proof fn lemma_hit_as_told(h: HitView)
    ensures
        hit_tree(h).str_at("slug"@) == Some(h.slug),
        hit_tree(h).str_at("title"@) == Some(h.title),
        hit_tree(h).str_at("author"@) == Some(h.author),
        hit_tree(h).u64_at("downloads"@) == Some(h.downloads),
        hit_tree(h).str_at("description"@) == Some(h.description),
        hit_tree(h).get("categories"@) == Some(str_array(h.display_categories)),
        hit_tree(h).get("recent_game_versions"@) == Some(str_array(recent(h.versions))),
{
    reveal_with_fuel(object_map, 8);
    reveal_strlit("slug");
    reveal_strlit("title");
    reveal_strlit("author");
    reveal_strlit("downloads");
    reveal_strlit("description");
    reveal_strlit("categories");
    reveal_strlit("recent_game_versions");
    assert("slug"@.len() == 4 && "title"@.len() == 5 && "author"@.len() == 6 && "downloads"@.len()
        == 9 && "description"@.len() == 11 && "categories"@.len() == 10
        && "recent_game_versions"@.len() == 20);
}

/// What the model is told of a mod that only CurseForge has is marked as such.
pub proof fn lemma_curseforge_mod_as_told(slug: Seq<char>, p: CfProject)
    ensures
        cf_tree(slug, p).str_at("slug"@) == Some(slug),
        cf_tree(slug, p).str_at("source"@) == Some("curseforge"@),
        cf_tree(slug, p).str_at("title"@) == Some(p.title@),
        cf_tree(slug, p).str_at("description"@) == Some(p.summary@),
        cf_tree(slug, p).get("categories"@) == Some(str_array(views(p.categories@))),
{
    reveal_with_fuel(object_map, 7);
    reveal_strlit("slug");
    reveal_strlit("source");
    reveal_strlit("title");
    reveal_strlit("description");
    reveal_strlit("categories");
    reveal_strlit("note");
    assert("slug"@.len() == 4 && "source"@.len() == 6 && "title"@.len() == 5
        && "description"@.len() == 11 && "categories"@.len() == 10 && "note"@.len() == 4);
    assert("slug"@[0] == 's' && "note"@[0] == 'n');
}

/// Every hit is told, in the order of the catalogue, and behind them the mod that CurseForge has.
pub proof fn lemma_every_hit_is_told(
    hits: Seq<HitView>,
    cf: Option<(Seq<char>, CfProject)>,
    i: int,
)
    ensures
        found_trees(hits, cf).len() == hits.len() + (if cf is Some {
            1int
        } else {
            0
        }),
        0 <= i < hits.len() ==> found_trees(hits, cf)[i] == hit_tree(hits[i]),
        cf matches Some(p) ==> found_trees(hits, cf)[hits.len() as int] == cf_tree(p.0, p.1),
{
}

} // verus!
