use rustagent::database::{FeedbackRecord, PackRecord, TableRows, UserDatabase};
use rustagent::json::render_json;
use rustagent::modrinth::{Hit, Project};
use rustagent::pipeline::{
    fresh, is_valid_game_version, is_valid_loader, plan_recommendation, plan_with, preset_prefix,
    rank, rank_with, recommend, taste_tags, translate_keyword, translate_lower,
};
use rustagent::tools::feedback::{
    chat_record, check_verdict, feedback_report, profile, recent_packs, recommend_report, tags_of,
    take_count, weights_json, FeedbackArgs, Pictures,
};

fn strings(list: &[&str]) -> Vec<String> {
    list.iter().map(|s| s.to_string()).collect()
}

fn rating(slug: &str, verdict: &str, tags: &[&str]) -> FeedbackRecord {
    FeedbackRecord {
        slug: slug.to_string(),
        verdict: verdict.to_string(),
        tags: strings(tags),
        game_version: "1.21.1".to_string(),
        loader: "fabric".to_string(),
        source: "test".to_string(),
        timestamp: "now".to_string(),
    }
}

fn hit(slug: &str, downloads: u64, categories: &[&str]) -> Hit {
    Hit {
        slug: slug.to_string(),
        title: slug.to_uppercase(),
        description: "d".to_string(),
        author: "a".to_string(),
        downloads,
        display_categories: strings(categories),
        versions: strings(&["1.20", "1.20.1", "1.21", "1.21.1", "1.21.2"]),
    }
}

fn sample() -> UserDatabase {
    let mut db = UserDatabase::load("db", None);
    db.rate(rating("sodium", "like", &["optimization", "utility"]));
    db.rate(rating("lithium", "like", &["optimization"]));
    db.rate(rating("zombies", "dislike", &["mobs"]));
    db
}

#[test]
fn sqlite_round_trip_preserves_relations() {
    let mut db = UserDatabase::load("db", None);
    db.rate(FeedbackRecord {
        slug: "sodium".into(),
        verdict: "like".into(),
        tags: vec!["optimization".into()],
        game_version: "1.21.1".into(),
        loader: "fabric".into(),
        source: "test".into(),
        timestamp: "now".into(),
    });
    db.packs.push(PackRecord {
        name: "test-pack".into(),
        mod_slugs: vec!["sodium".into(), "fabric-api".into()],
        created_at: "now".into(),
    });
    let rows = db.save();
    let loaded = UserDatabase::load("db", Some(&rows));
    assert_eq!(loaded.feedback[0].tags, vec!["optimization"]);
    assert_eq!(loaded.packs[0].mod_slugs, vec!["sodium", "fabric-api"]);
    assert_eq!(loaded.feedback[0].slug, "sodium");
    assert_eq!(loaded.feedback[0].timestamp, "now");
    assert_eq!(loaded.packs[0].name, "test-pack");
}

#[test]
fn rows_are_numbered_and_related() {
    let mut db = sample();
    db.packs.push(PackRecord {
        name: "p".to_string(),
        mod_slugs: strings(&["a", "b"]),
        created_at: "t".to_string(),
    });
    let rows: TableRows = db.save();
    assert_eq!(rows.feedback.len(), 3);
    let id = rows.feedback[0].id;
    assert_eq!(rows.tags.iter().filter(|t| t.0 == id).count(), 2);
    assert_eq!(rows.mods.iter().map(|m| m.position).collect::<Vec<_>>(), vec![0, 1]);
    assert!(rows.mods.iter().all(|m| m.pack_id == rows.packs[0].id));
}

#[test]
fn a_mod_is_rated_again() {
    let mut db = sample();
    db.rate(rating("sodium", "dislike", &["optimization", "utility"]));
    let weights = db.tag_weights();
    let w = |t: &str| weights.iter().find(|p| p.0 == t).map(|p| p.1);
    assert_eq!(db.feedback.len(), 4);
    assert_eq!(w("optimization"), Some(1));
    assert_eq!(w("utility"), Some(0));
    assert_eq!(w("mobs"), Some(-1));
}

#[test]
fn weights_add_up() {
    let db = sample();
    let weights = db.tag_weights();
    let w = |t: &str| weights.iter().find(|p| p.0 == t).map(|p| p.1);
    assert_eq!(w("optimization"), Some(2));
    assert_eq!(w("utility"), Some(1));
    assert_eq!(w("mobs"), Some(-1));
    assert_eq!(w("magic"), None);
    assert_eq!(db.top_tags(1), vec!["optimization"]);
    assert_eq!(db.top_tags(5), vec!["optimization", "utility"]);
    assert_eq!(db.rated_slugs(), vec!["lithium", "sodium", "zombies"]);
    assert_eq!(db.summary(), "反馈 3 条（喜欢 2 / 不喜欢 1）| 组包 0 次");
}

#[test]
fn validates_versions_and_loaders() {
    assert!(is_valid_game_version("1.21.1"));
    assert!(!is_valid_game_version("1..21"));
    assert!(!is_valid_game_version("v1.21"));
    assert!(is_valid_loader("fabric"));
    assert!(!is_valid_loader("vanilla"));
}

#[test]
fn preset_prefix_filters_invalid_values() {
    assert_eq!(
        preset_prefix(Some("1.21.1"), Some("fabric"), Some(8)),
        Some("[界面预设: Minecraft 版本 1.21.1 / fabric 加载器 / 候选数量 8] ".into())
    );
    assert_eq!(preset_prefix(Some("bad"), Some("vanilla"), Some(0)), None);
}

#[test]
fn presets_keep_what_is_valid() {
    assert_eq!(
        preset_prefix(Some(" 1.20 "), None, Some(21)),
        Some("[界面预设: Minecraft 版本 1.20] ".into())
    );
    assert_eq!(preset_prefix(None, None, Some(20)), Some("[界面预设: 候选数量 20] ".into()));
    assert_eq!(preset_prefix(Some(""), Some(""), None), None);
}

#[test]
fn keywords_are_translated() {
    assert_eq!(translate_keyword(" 我要魔法世界 "), "magic");
    assert_eq!(translate_keyword("龙"), "dragon");
    assert_eq!(translate_keyword(" Sodium "), "sodium");
    assert_eq!(translate_keyword("ÄÖ"), "äö");
    assert_eq!(translate_keyword("  "), "");
    assert_eq!(translate_lower("大性能优化".to_string()), "optimization");
    assert_eq!(translate_lower("sodium extra".to_string()), "sodium extra");
    assert_eq!(translate_lower(String::new()), "");
}

#[test]
fn loaders_tell_no_taste() {
    assert_eq!(
        taste_tags(&strings(&["fabric", "magic", "vanilla", "neoforge", "storage"])),
        vec!["magic", "storage"]
    );
}

#[test]
fn better_suited_mods_stand_first() {
    let weights = vec![("magic".to_string(), 2), ("mobs".to_string(), -1)];
    let hits = vec![
        hit("a", 5, &["mobs"]),
        hit("b", 1, &["magic"]),
        hit("c", 9, &[]),
        hit("d", 1, &["magic", "mobs"]),
    ];
    let r = rank_with(hits, &weights, &vec![u64::MAX, 0, 0, 0]);
    let order: Vec<(&str, i128)> = r.iter().map(|s| (s.hit.slug.as_str(), s.score)).collect();
    assert_eq!(order, vec![("b", 2), ("d", 1), ("c", 0), ("a", -1)]);
}

#[test]
fn chance_breaks_ties_before_downloads() {
    let hits = || vec![hit("a", 100, &[]), hit("b", 1, &[]), hit("c", 50, &[])];
    let none: Vec<(String, i64)> = Vec::new();
    let slugs = |draws: Vec<u64>| -> Vec<String> {
        rank_with(hits(), &none, &draws).into_iter().map(|s| s.hit.slug).collect()
    };
    assert_eq!(slugs(vec![0, 1 << 40, 0]), vec!["b", "a", "c"]);
    assert_eq!(slugs(vec![0, 0, 0]), vec!["a", "c", "b"]);
    // draws that differ only in the lowest eleven bits are equal
    assert_eq!(slugs(vec![0, 2047, 0]), vec!["a", "c", "b"]);
}

#[test]
fn every_hit_is_ranked_once() {
    let hits: Vec<Hit> = (0..30).map(|i| hit(&format!("m{i}"), i, &[])).collect();
    let mut first: Vec<String> =
        rank(hits, &sample()).into_iter().map(|s| s.hit.slug).collect();
    let mut again: Vec<String> = (0..30).map(|i| format!("m{i}")).collect();
    // thirty mods that suit alike are drawn in the order of their listing with negligible odds
    assert_ne!(first, again);
    first.sort();
    again.sort();
    assert_eq!(first, again);
}

#[test]
fn recommendations_leave_out_what_was_rated() {
    let db = sample();
    let hits = vec![hit("sodium", 1, &["optimization"]), hit("iris", 1, &["optimization"])];
    let left: Vec<String> = fresh(&hits, &db).into_iter().map(|h| h.slug).collect();
    assert_eq!(left, vec!["iris"]);
    let r = match recommend(&hits, &db) {
        Ok(v) => v,
        Err(e) => panic!("{e}"),
    };
    assert_eq!((r.len(), r[0].score), (1, 2));
    match recommend(&vec![hit("sodium", 1, &[])], &db) {
        Ok(_) => panic!("nothing is left to recommend"),
        Err(e) => assert_eq!(e, "没有新的可推荐 mod (数据库中已评价过所有候选), 稍后再试"),
    }
}

#[test]
fn recommendations_are_searched_by_taste() {
    let p = plan_with("1.21.1", "fabric", &strings(&["magic", "mobs"]), 7);
    assert_eq!(
        p.facets,
        vec![
            vec!["versions:1.21.1"],
            vec!["categories:fabric"],
            vec!["categories:magic", "categories:mobs"]
        ]
    );
    assert_eq!((p.index.as_str(), p.offset), ("updated", 40));
    let p = plan_with("1.21.1", "", &Vec::new(), 0);
    assert_eq!(p.facets, vec![vec!["versions:1.21.1"]]);
    assert_eq!((p.index.as_str(), p.offset), ("downloads", 0));
    // chance picks one of five pages, and not always the same one
    let pages: Vec<u32> =
        (0..200).map(|_| plan_recommendation(&sample(), "1.21.1", "fabric").offset).collect();
    assert!(pages.iter().all(|o| [0, 20, 40, 60, 80].contains(o)));
    assert!(pages.iter().any(|o| *o != pages[0]));
}

#[test]
fn ratings_are_recorded_and_reported() {
    assert!(check_verdict("like").is_ok());
    assert_eq!(check_verdict("meh").unwrap_err(), "verdict 必须是 like 或 dislike");
    let project = Project {
        slug: "sodium".to_string(),
        client_side: "required".to_string(),
        server_side: "unsupported".to_string(),
        categories: strings(&["fabric", "optimization"]),
    };
    let tags = tags_of(Some(&project));
    assert_eq!(tags, vec!["optimization"]);
    assert!(tags_of(None).is_empty());
    let args = FeedbackArgs { slug: "sodium".to_string(), verdict: "like".to_string() };
    let record = chat_record(&args, &tags, "t");
    assert_eq!((record.source.as_str(), record.game_version.as_str()), ("chat", ""));
    assert_eq!(
        render_json(&feedback_report(&args, &tags, "s")),
        "{\"db_summary\":\"s\",\"slug\":\"sodium\",\"status\":\"已记录\",\"tags\":[\"optimization\"],\"verdict\":\"like\"}"
    );
}

#[test]
fn the_profile_tells_taste_and_packs() {
    let mut db = sample();
    for i in 0..4 {
        db.packs.push(PackRecord {
            name: format!("p{i}"),
            mod_slugs: strings(&["a"]),
            created_at: "t".to_string(),
        });
    }
    let recent: Vec<String> = recent_packs(&db.packs, 3).iter().map(render_json).collect();
    assert_eq!(recent.len(), 3);
    assert_eq!(recent[0], "{\"created_at\":\"t\",\"mod_slugs\":[\"a\"],\"name\":\"p3\"}");
    let text = render_json(&profile(&db));
    assert!(text.contains("\"taste_weights\":{\"mobs\":-1.0,\"optimization\":2.0,\"utility\":1.0}"));
    assert!(text.contains("\"top_tags\":[\"optimization\",\"utility\"]"));
    assert_eq!(render_json(&weights_json(&vec![("x".to_string(), -3)])), "{\"x\":-3.0}");
}

#[test]
fn recommended_mods_are_described() {
    assert_eq!((take_count(None), take_count(Some(0)), take_count(Some(99))), (5, 1, 10));
    let ranked = rank_with(
        vec![hit("iris", 7, &["magic"]), hit("dh", 6, &[])],
        &vec![("magic".to_string(), 3)],
        &vec![0, 0],
    );
    let pictures = vec![Pictures {
        slug: "iris".to_string(),
        icon_url: "http://i".to_string(),
        gallery: strings(&["1", "2", "3", "4"]),
    }];
    assert_eq!(
        render_json(&recommend_report(&ranked, Some(1), &pictures, "s")),
        "{\"db_summary\":\"s\",\"recommendations\":[{\"categories\":[\"magic\"],\"description\":\"d\",\"downloads\":7,\"gallery\":[\"1\",\"2\",\"3\"],\"icon_url\":\"http://i\",\"slug\":\"iris\",\"taste_score\":3.0,\"title\":\"IRIS\",\"url\":\"https://modrinth.com/mod/iris\"}]}"
    );
}
