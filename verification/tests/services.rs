use rustagent::archive::pack_bytes;
use rustagent::curseforge::{
    can_quote, cdn_url, check_length, download_report, env_from_file, file_meta, jar_name,
    loader_tag, lookup_url, on_lookup, read_depends, select_file, sidecar_name, slugify, slugify_lower,
    temp_name,
    CfFile, CfProject, FileFetch, LookupStep,
};
use rustagent::digest::{to_hex, Download};
use rustagent::json::{parse_json, render_json};
use rustagent::manifest::parse_toml;
use rustagent::modrinth::{
    project_url, search_params, search_url, versions_params, versions_url, Hit, SearchResponse,
};
use rustagent::sidecar::{sidecar_text, start_fetch, FetchStart};
use rustagent::tools::TOOL_INTERRUPTED;
use rustagent::tools::loader_meta::{
    answer_form, loader_dep_key, loader_source, no_neoforge, pick_fabric_version,
    pick_forge_version, pick_loader_version, pick_neoforge_version, pick_quilt_version,
    version_key, AnswerForm, LoaderAnswer, LoaderEntry,
};
use rustagent::tools::search::{cf_fallback, plan_search, search_report, SearchArgs};

fn strings(list: &[&str]) -> Vec<String> {
    list.iter().map(|s| s.to_string()).collect()
}

fn file(id: u64, kind: &str, versions: &[&str]) -> CfFile {
    CfFile {
        id,
        name: format!("f{id}.jar"),
        kind: kind.into(),
        filesize: 0,
        versions: versions.iter().map(|s| s.to_string()).collect(),
    }
}

#[test]
fn select_file_prefers_release_and_latest() {
    let files = vec![
        file(10, "beta", &["1.21.1", "Fabric", "Client"]),
        file(20, "release", &["1.21.1", "Fabric", "Client", "Server"]),
        file(30, "release", &["1.20.1", "Fabric"]),
        file(40, "release", &["1.21.1", "Forge"]),
    ];
    let sel = select_file(&files, "1.21.1", "fabric").unwrap();
    assert_eq!(sel.id, 20, "应选 1.21.1+Fabric 的 release");
    assert!(select_file(&files, "1.19.2", "fabric").is_none());
    assert!(select_file(&files, "1.21.1", "quilt").is_none());
}

#[test]
fn env_tags_map_to_mrpack_env() {
    let client_only = file(1, "release", &["1.21.1", "Fabric", "Client"]);
    assert_eq!(env_from_file(&client_only), ("required".into(), "unsupported".into()));
    let both = file(2, "release", &["1.21.1", "Fabric", "Client", "Server"]);
    assert_eq!(env_from_file(&both), ("required".into(), "required".into()));
}

#[test]
fn slugify_builds_cf_slug_from_query() {
    assert_eq!(slugify("The Twilight Forest"), "the-twilight-forest");
    assert_eq!(slugify(" 暮色森林 "), "", "中文应得到空串由调用方跳过");
}

#[test]
fn slugs_of_lower_case_text() {
    assert_eq!(slugify_lower("a  b!c-1"), "a-bc-1");
    assert_eq!(slugify_lower("äö"), "");
}

#[test]
fn cdn_url_derives_from_file_id() {
    assert_eq!(cdn_url(8749067, "a.jar"), "https://mediafilez.forgecdn.net/files/8749/67/a.jar");
    assert_eq!(cdn_url(8792636, "b.jar"), "https://mediafilez.forgecdn.net/files/8792/636/b.jar");
}

fn jar(entries: &[(&str, &str)]) -> Vec<u8> {
    let mut z = zip::ZipWriter::new(std::io::Cursor::new(Vec::new()));
    for (name, content) in entries {
        z.start_file(*name, zip::write::SimpleFileOptions::default()).unwrap();
        std::io::Write::write_all(&mut z, content.as_bytes()).unwrap();
    }
    z.finish().unwrap().into_inner()
}

#[test]
fn read_depends_parses_fabric_json_and_toml() {
    let fj = jar(&[(
        "fabric.mod.json",
        r#"{"depends": {"minecraft": "~1.21", "java": ">=17", "fabricloader": ">=0.16", "fabric-api": "*", "twilightforest": "*"}}"#,
    )]);
    let deps = read_depends(&fj).unwrap();
    assert_eq!(deps, vec!["fabric-api", "twilightforest"]);

    let tj = jar(&[(
        "META-INF/mods.toml",
        "modLoader=\"javafml\"\n[[dependencies.example]]\nmodId=\"forge\"\n[[dependencies.example]]\nmodId=\"geckolib3\"\n",
    )]);
    let deps = read_depends(&tj).unwrap();
    assert_eq!(deps, vec!["geckolib3"]);
}

#[test]
fn jars_without_dependencies() {
    assert_eq!(read_depends(&jar(&[("x", "y")])).unwrap(), Vec::<String>::new());
    assert_eq!(
        read_depends(&jar(&[("META-INF/mods.toml", "not = = toml")])).unwrap(),
        Vec::<String>::new()
    );
    assert!(read_depends(b"no archive").is_err());
    assert!(read_depends(&jar(&[("fabric.mod.json", "no json")])).is_err());
    assert!(parse_toml("a = 1\nb = \"x\"").is_some());
    assert!(parse_toml("= =").is_none());
}

#[test]
fn newer_files_and_server_files() {
    let files = vec![
        file(5, "release", &["1.21.1", "Forge", "Server"]),
        file(9, "release", &["1.21.1", "Forge", "Server"]),
        file(90, "alpha", &["1.21.1", "Forge"]),
    ];
    assert_eq!(select_file(&files, "1.21.1", "forge").unwrap().id, 9);
    assert_eq!(env_from_file(&files[0]), ("unsupported".into(), "required".into()));
    assert_eq!(env_from_file(&files[2]), ("required".into(), "required".into()));
    assert_eq!((loader_tag("neoforge"), loader_tag("quilt")), ("NeoForge", "Quilt"));
}

#[test]
fn lookups_are_repeated_while_the_service_asks_to_wait() {
    assert_eq!(lookup_url("jei"), "https://api.cfwidget.com/minecraft/mc-mods/jei");
    assert!(matches!(on_lookup("jei", 0, 200, "200 OK", "{}"), LookupStep::Parse));
    assert!(matches!(on_lookup("jei", 0, 202, "202 Accepted", "{}"), LookupStep::Retry));
    assert!(matches!(on_lookup("jei", 1, 429, "429 Too Many Requests", "{}"), LookupStep::Retry));
    match on_lookup("jei", 2, 202, "202 Accepted", "wait") {
        LookupStep::Fail(e) => assert_eq!(e, "cfwidget 查询 jei 失败 (202 Accepted: wait)"),
        _ => panic!("the last attempt is not repeated"),
    }
    let long = "x".repeat(200);
    match on_lookup("jei", 0, 404, "404 Not Found", &long) {
        LookupStep::Fail(e) => {
            assert_eq!(e, format!("cfwidget 查询 jei 失败 (404 Not Found: {})", "x".repeat(120)))
        }
        _ => panic!("a failure was expected"),
    }
    assert!(can_quote(&"你".repeat(50)));
    assert!(!can_quote(&format!("x{}", "你".repeat(50))));
}

#[test]
fn downloads_are_named_and_checked() {
    assert_eq!(sidecar_name(1, 2), "1-2.json");
    assert_eq!(jar_name(1, 2), "1-2.jar");
    assert_eq!(temp_name(2), ".tmp-2");
    assert_eq!(download_report("a.jar"), "正在下载 a.jar (CurseForge 直链)");
    assert!(check_length(0, Some(5)).is_ok());
    assert!(check_length(5, None).is_ok());
    assert!(check_length(5, Some(5)).is_ok());
    assert_eq!(
        check_length(5, Some(6)).unwrap_err(),
        "CDN 文件大小 Some(6) 与元数据 5 不符, 放弃下载"
    );
}

#[test]
fn checksums_of_downloads() {
    let mut d = Download::new();
    d.absorb(b"a");
    d.absorb(b"bc");
    assert_eq!(d.size, 3);
    let (sha1, sha512) = d.finish();
    assert_eq!(sha1, "a9993e364706816aba3e25717850c26c9cd0d89d");
    assert_eq!(
        sha512,
        "ddaf35a193617abacc417349ae20413112e6fa4e89a97ea20a9eeee64b55d39a2192992a274fc1a836ba3c23a3feebbd454d4423643ce80e2a9ac94fa54ca49f"
    );
    assert_eq!(to_hex(&vec![0, 255, 16]), "00ff10");
}

#[test]
fn a_finished_download_is_described() {
    let bytes = jar(&[("fabric.mod.json", "{\"depends\":{\"b\":\"*\",\"a\":\"*\"}}")]);
    let mut d = Download::new();
    d.absorb(&bytes);
    let m = file_meta(7, &file(8749067, "release", &[]), d, &bytes);
    assert_eq!((m.mod_id, m.file_id, m.size), (7, 8749067, bytes.len() as u64));
    assert_eq!(m.url, "https://mediafilez.forgecdn.net/files/8749/67/f8749067.jar");
    assert_eq!(m.depends, vec!["a", "b"]);
    assert_eq!((m.sha1.len(), m.sha512.len()), (40, 128));
    let mut d = Download::new();
    d.absorb(b"junk");
    assert!(file_meta(7, &file(1, "release", &[]), d, b"junk").depends.is_empty());
    assert!(pack_bytes("x").is_ok());
}

#[test]
fn a_file_is_fetched_in_parts() {
    let bytes = jar(&[("fabric.mod.json", "{\"depends\":{\"a\":\"*\"}}")]);
    let mut whole = FileFetch::new();
    assert!(whole.on_chunk(&bytes, false).is_ok());
    let mut parts = FileFetch::new();
    for part in bytes.chunks(7) {
        assert!(parts.on_chunk(part, false).is_ok());
    }
    assert_eq!(parts.size(), bytes.len() as u64);
    let f = file(8749067, "release", &[]);
    let (a, b) = (whole.finish(7, &f), parts.finish(7, &f));
    assert_eq!((a.sha1, a.sha512, a.size, a.depends), (b.sha1, b.sha512, b.size, b.depends));
    let mut stopped = FileFetch::new();
    assert_eq!(stopped.on_chunk(b"x", true).unwrap_err(), TOOL_INTERRUPTED);
}

#[test]
fn a_file_is_fetched_once() {
    let bytes = jar(&[("fabric.mod.json", "{\"depends\":{\"b\":\"*\",\"a\":\"*\"}}")]);
    let f = file(8749067, "release", &[]);
    match start_fetch(None, &f) {
        FetchStart::Download { url, report } => {
            assert_eq!(url, "https://mediafilez.forgecdn.net/files/8749/67/f8749067.jar");
            assert_eq!(report, "正在下载 f8749067.jar (CurseForge 直链)");
        }
        FetchStart::Known(_) => panic!("a download was expected"),
    }
    let mut fetch = FileFetch::new();
    assert!(fetch.on_chunk(&bytes, false).is_ok());
    let m = fetch.finish(7, &f);
    let kept = parse_json(&sidecar_text(&m)).unwrap();
    assert_eq!(kept.u64_at("mod_id"), Some(7));
    assert_eq!(kept.u64_at("file_id"), Some(8749067));
    assert_eq!(kept.u64_at("size"), Some(bytes.len() as u64));
    for (key, value) in [
        ("filename", &m.filename),
        ("url", &m.url),
        ("sha1", &m.sha1),
        ("sha512", &m.sha512),
    ] {
        assert_eq!(kept.str_at(key), Some(value));
    }
    assert_eq!(render_json(kept.get("depends").unwrap()), "[\"a\",\"b\"]");
    let (url, sha1) = (m.url.clone(), m.sha1.clone());
    match start_fetch(Some(m), &f) {
        FetchStart::Known(k) => assert_eq!((k.url, k.sha1), (url, sha1)),
        FetchStart::Download { .. } => panic!("the file was kept"),
    }
}

#[test]
fn loader_dep_key_maps_supported_rejects_unknown() {
    assert_eq!(loader_dep_key("fabric").unwrap(), "fabric-loader");
    assert_eq!(loader_dep_key("quilt").unwrap(), "quilt-loader");
    assert_eq!(loader_dep_key("forge").unwrap(), "forge");
    assert_eq!(loader_dep_key("neoforge").unwrap(), "neoforge");
    assert!(loader_dep_key("optifine").is_err());
}

#[test]
fn picks_neoforge_version_matching_mc() {
    let vs: Vec<String> = [
        "47.1.104",
        "20.4.237",
        "21.0.1",
        "21.1.9",
        "21.1.77",
        "21.2.0-beta.1",
    ]
    .iter()
    .map(|s| s.to_string())
    .collect();
    assert_eq!(pick_neoforge_version("1.21.1", &vs).unwrap(), "21.1.77");
    assert_eq!(pick_neoforge_version("1.20.1", &vs).unwrap(), "47.1.104");
    assert_eq!(pick_neoforge_version("1.19.2", &vs), None);
    assert_eq!(pick_neoforge_version("bad", &vs), None);
}

#[test]
fn picks_versions_of_the_other_loaders() {
    let e = |v: &str, stable: bool| LoaderEntry { version: v.to_string(), stable };
    assert_eq!(pick_fabric_version(&vec![e("0.17", false), e("0.16", true)]).unwrap(), "0.16");
    assert_eq!(pick_fabric_version(&Vec::new()).unwrap_err(), "fabric meta 无稳定版本");
    assert_eq!(
        pick_quilt_version(&strings(&["0.9.1", "0.10.0-beta.1", "0.9.12"])).unwrap(),
        "0.9.12"
    );
    assert_eq!(
        pick_quilt_version(&strings(&["0.10.0-beta.1"])).unwrap_err(),
        "quilt meta 无稳定版本"
    );
    let promos = vec![
        ("1.21.1-latest".to_string(), "52.1".to_string()),
        ("1.20.1-latest".to_string(), "47.4".to_string()),
        ("1.20.1-recommended".to_string(), "47.2".to_string()),
    ];
    assert_eq!(pick_forge_version("1.20.1", &promos).unwrap(), "47.2");
    assert_eq!(pick_forge_version("1.21.1", &promos).unwrap(), "52.1");
    assert_eq!(pick_forge_version("1.8", &promos).unwrap_err(), "forge 无 1.8 的可用版本");
    assert_eq!(no_neoforge("1.8"), "neoforge 无 1.8 的可用版本");
    assert_eq!(version_key("1.20.x"), vec![1, 20, 0]);
    assert_eq!(loader_source("fabric").unwrap(), "https://meta.fabricmc.net/v2/versions/loader");
    assert_eq!(loader_source("x").unwrap_err(), "不支持的加载器: x");
}

#[test]
fn addresses_of_modrinth() {
    assert_eq!(search_url(), "https://api.modrinth.com/v2/search");
    assert_eq!(project_url("x"), "https://api.modrinth.com/v2/project/x");
    assert_eq!(versions_url("x"), "https://api.modrinth.com/v2/project/x/version");
    assert_eq!(
        versions_params("1.21.1", "fabric"),
        vec![
            ("game_versions".to_string(), "[\"1.21.1\"]".to_string()),
            ("loaders".to_string(), "[\"fabric\"]".to_string())
        ]
    );
    let facets = vec![strings(&["a"]), strings(&["b", "c"])];
    assert_eq!(
        search_params("q", Some(&facets), 8, 20, "relevance"),
        vec![
            ("query".to_string(), "q".to_string()),
            ("limit".to_string(), "8".to_string()),
            ("index".to_string(), "relevance".to_string()),
            ("offset".to_string(), "20".to_string()),
            ("facets".to_string(), "[[\"a\"],[\"b\",\"c\"]]".to_string())
        ]
    );
    let names: Vec<String> =
        search_params("q", None, 8, 0, "relevance").into_iter().map(|p| p.0).collect();
    assert_eq!(names, vec!["query", "limit", "index"]);
}

#[test]
fn searches_are_planned_and_reported() {
    let a = SearchArgs {
        query: "性能优化".to_string(),
        game_version: Some("1.21.1".to_string()),
        loader: None,
        limit: Some(50),
    };
    let s = plan_search(&a);
    assert_eq!((s.query.as_str(), s.limit), ("optimization", 20));
    assert_eq!(s.facets, Some(vec![strings(&["versions:1.21.1"])]));
    let bare = SearchArgs { query: "x".to_string(), game_version: None, loader: None, limit: None };
    assert_eq!((plan_search(&bare).facets, plan_search(&bare).limit), (None, 8));

    assert_eq!(cf_fallback("Twilight Forest", 0, true).as_deref(), Some("twilight-forest"));
    assert_eq!(cf_fallback("Twilight Forest", 1, true), None);
    assert_eq!(cf_fallback("Twilight Forest", 0, false), None);
    assert_eq!(cf_fallback("暮色", 0, true), None);

    let resp = SearchResponse {
        total_hits: 1,
        hits: vec![Hit {
            slug: "s".to_string(),
            title: "S".to_string(),
            description: "d".to_string(),
            author: "a".to_string(),
            downloads: 3,
            display_categories: strings(&["c"]),
            versions: strings(&["1", "2", "3", "4", "5"]),
        }],
    };
    let cf = CfProject {
        id: 1,
        title: "T".to_string(),
        summary: "sum".to_string(),
        categories: Vec::new(),
        files: Vec::new(),
    };
    assert_eq!(
        render_json(&search_report("q", &resp, Some((&"tf".to_string(), &cf)))),
        "{\"mods\":[{\"author\":\"a\",\"categories\":[\"c\"],\"description\":\"d\",\"downloads\":3,\"recent_game_versions\":[\"5\",\"4\",\"3\",\"2\"],\"slug\":\"s\",\"title\":\"S\"},{\"categories\":[],\"description\":\"sum\",\"note\":\"CurseForge 独占候选, 组包时用 build_modpack 的 cf_mods 参数\",\"slug\":\"tf\",\"source\":\"curseforge\",\"title\":\"T\"}],\"query_used\":\"q\",\"total_hits\":1}"
    );
}

#[test]
fn each_loader_has_its_own_rule() {
    let entry = |v: &str, stable: bool| LoaderEntry { version: v.to_string(), stable };
    let entries = LoaderAnswer::Entries(vec![
        entry("0.9.0-beta.1", false),
        entry("0.8.0", true),
        entry("0.10.0", false),
    ]);
    let pick = |loader: &str, a: &LoaderAnswer| pick_loader_version(loader, "1.21.1", a);
    assert_eq!(pick("fabric", &entries).unwrap(), "0.8.0");
    assert_eq!(pick("quilt", &entries).unwrap(), "0.10.0");
    assert_eq!(pick("vanilla", &entries).unwrap_err(), "不支持的加载器: vanilla");
    let promos = LoaderAnswer::Promos(vec![
        ("1.21.1-latest".to_string(), "52.1".to_string()),
        ("1.21.1-recommended".to_string(), "52.0".to_string()),
    ]);
    assert_eq!(pick("forge", &promos).unwrap(), "52.0");
    assert_eq!(
        pick("forge", &LoaderAnswer::Promos(Vec::new())).unwrap_err(),
        "forge 无 1.21.1 的可用版本"
    );
    let versions = LoaderAnswer::Versions(strings(&["21.1.9", "21.1.10", "21.0.99"]));
    assert_eq!(pick("neoforge", &versions).unwrap(), "21.1.10");
    assert_eq!(
        pick("neoforge", &LoaderAnswer::Versions(Vec::new())).unwrap_err(),
        "neoforge 无 1.21.1 的可用版本"
    );
    assert!(matches!(answer_form("quilt"), Ok(AnswerForm::Entries)));
    assert!(answer_form("vanilla").is_err());
}
