use rustagent::agent::{Agent, AgentEvent};
use rustagent::cli::{
    auto_save_notice, banner, banner_lines, busy_hint, farewell, loaded_notice, new_notice, paint,
    prompt_text, read_args, read_command, saved_notice, stats, turn_notice, weight_line, TurnEnd,
    Command, Mode, Preset, ProgressPrinter, GREEN,
};
use rustagent::config::{
    data_dir_of, default_context_length, default_max_tool_iterations, default_ui_port,
    price_is_negative, save_curseforge, save_llm, Config, CurseforgeConfig, DatabaseConfig,
    LlmConfig, OutputConfig, UiConfig,
};
use rustagent::database::{FeedbackRecord, PackRecord, UserDatabase};
use rustagent::history::SessionInfo;
use rustagent::json::{parse_json, render_json, render_pretty, Json, JsonNumber};
use rustagent::modrinth::Hit;
use rustagent::pipeline::ScoredHit;
use rustagent::tools::{cache_dir_of, check_interrupt, find_tool, Tool, ToolRegistry};
use rustagent::ui;
use rustagent::ui::{
    ChatRequest, FeedbackRequest, ImportRequest, PackFile, SettingsRequest,
};

fn strings(list: &[&str]) -> Vec<String> {
    list.iter().map(|s| s.to_string()).collect()
}

fn llm() -> LlmConfig {
    LlmConfig {
        base_url: "http://y/v1".into(),
        api_key: "k2".into(),
        model: "b".into(),
        context_length: 999,
        price_input_per_m: "0.1".into(),
        price_output_per_m: "0.2".into(),
        token_budget: 5,
        max_tool_iterations: 7,
        thinking: Some("reasoning_effort=low".into()),
    }
}

fn config() -> Config {
    Config {
        llm: llm(),
        output: OutputConfig { download_dir: "./dl".to_string() },
        database: DatabaseConfig { path: None },
        ui: UiConfig { port: 1780 },
        curseforge: CurseforgeConfig { enabled: false },
    }
}

fn unchanged() -> SettingsRequest {
    SettingsRequest {
        base_url: None,
        api_key: None,
        model: None,
        context_length: None,
        price_input_per_m: None,
        price_output_per_m: None,
        token_budget: None,
        max_tool_iterations: None,
        thinking: None,
        curseforge_enabled: None,
    }
}

// ---------------------------------------------------------------------------
// Settings
// ---------------------------------------------------------------------------

#[test]
fn save_llm_updates_values_and_keeps_comments() {
    let text = "# 顶部注释\n[llm]\nmodel = \"a\" # 行内注释\napi_key = \"k\"\nbase_url = \"http://x/v1\"\n\n[output]\ndownload_dir = \"./dl\"\n";
    let cfg = llm();
    let text = save_llm("config.toml", text, &cfg).unwrap();
    assert!(text.contains("# 顶部注释"), "段外注释应保留");
    assert!(text.contains("# 行内注释"), "行内注释应保留");
    let read: toml::Table = text.parse().unwrap();
    let section = read["llm"].as_table().unwrap();
    assert_eq!(section["model"].as_str(), Some("b"));
    assert_eq!(section["context_length"].as_integer(), Some(999));
    assert_eq!(section["max_tool_iterations"].as_integer(), Some(7));
    assert_eq!(section["thinking"].as_str(), Some("reasoning_effort=low"));
    assert_eq!(section["price_input_per_m"].as_float(), Some(0.1));
    assert_eq!(section["token_budget"].as_integer(), Some(5));
    assert_eq!(read["output"].as_table().unwrap()["download_dir"].as_str(), Some("./dl"));

    // 清除 thinking -> 键应被移除
    let cfg = LlmConfig { thinking: None, ..cfg };
    let reloaded = save_llm("config.toml", &text, &cfg).unwrap();
    let read: toml::Table = reloaded.parse().unwrap();
    assert!(!read["llm"].as_table().unwrap().contains_key("thinking"));
}

#[test]
fn sections_are_made_or_refused() {
    let text = save_llm("c", "a = 1\n", &llm()).unwrap();
    let read: toml::Table = text.parse().unwrap();
    assert_eq!(read["a"].as_integer(), Some(1));
    assert_eq!(read["llm"].as_table().unwrap()["api_key"].as_str(), Some("k2"));
    assert_eq!(
        save_llm("c", "llm = 3\n", &llm()).unwrap_err(),
        "[llm] 段不是 TOML 表, 无法写回设置"
    );
    assert!(save_llm("c", "= =", &llm()).unwrap_err().starts_with("c 不是合法 TOML, 无法写回设置: "));
    let on = save_curseforge("c", "[curseforge]\nenabled = false # 开关\n", true).unwrap();
    assert_eq!(on, "[curseforge]\nenabled = true # 开关\n");
    assert!(save_curseforge("c", "", true).unwrap().contains("enabled = true"));
}

#[test]
fn comments_of_the_section_stay() {
    let text = "[a]\nx = [1, 2] # 数组\n\n# 段的注释\n[llm] # 段尾\n# 模型的注释\n  model = \"a\"\t# 行内\nextra = 1.5\n\n[llm.sub]\ny = 2\n# 文末\n";
    let saved = save_llm("c", text, &llm()).unwrap();
    assert!(saved.starts_with(
        "[a]\nx = [1, 2] # 数组\n\n# 段的注释\n[llm] # 段尾\n# 模型的注释\n  model = \"b\"\t# 行内\nextra = 1.5\n"
    ));
    assert!(saved.ends_with("\n[llm.sub]\ny = 2\n# 文末\n"));
    assert_eq!(
        save_curseforge("c", "# 甲\n[curseforge]\n# 乙\nenabled=true#丙\n# 丁", false).unwrap(),
        "# 甲\n[curseforge]\n# 乙\nenabled=false#丙\n# 丁"
    );
}

#[test]
fn what_was_saved_is_read() {
    let starts = [
        "",
        "# 只有注释",
        "llm.model = \"a\"\nllm.thinking.deep = 1\nother = 2024-01-01\n",
        "[z]\n[llm.sub]\nk = 1\n[z.y]\nk = nan\n",
        "[llm]\nmodel.x = 1\n[[llm.api_key]]\nb = 1\n[z]\nk = 'v'\n",
        "[llm]\r\nmodel = '''a\r\nb''' # x\r\n[z]\r\nk = 1\r\n",
    ];
    let texts = ["", "a'b\"c", "l1\nl2\r\n'''\"\"\"\\", "\u{0}\u{7f}\t", "'\"\"", "\n", "中文"];
    for start in starts {
        for t in texts {
            for price in ["0.0", "0.1", "1e300", "-0.0", "inf", "5e-324"] {
                let mut cfg = llm();
                cfg.model = t.to_string();
                cfg.api_key = t.to_string();
                cfg.thinking = Some(t.to_string());
                cfg.price_input_per_m = price.to_string();
                let saved = save_llm("c", start, &cfg).unwrap();
                let read: toml::Table = saved.parse().unwrap();
                let section = read["llm"].as_table().unwrap();
                for key in ["model", "api_key", "thinking"] {
                    assert_eq!(section[key].as_str(), Some(t), "{saved}");
                }
                let wanted: f64 = price.parse().unwrap();
                let got = section["price_input_per_m"].as_float().unwrap();
                assert_eq!(got.to_bits(), wanted.to_bits());
                let mut before: toml::Table = start.parse().unwrap();
                before.remove("llm");
                let mut after = read.clone();
                after.remove("llm");
                assert_eq!(format!("{before:?}"), format!("{after:?}"));
                if let Some(sub) = section.get("sub") {
                    assert_eq!(sub.as_table().unwrap()["k"].as_integer(), Some(1));
                }
            }
        }
    }
}

#[test]
fn settings_are_checked() {
    assert!(config().validate().is_ok());
    let fails = |change: fn(&mut Config)| {
        let mut c = config();
        change(&mut c);
        c.validate().unwrap_err()
    };
    assert!(fails(|c| c.llm.base_url = "nonsense".to_string())
        .starts_with("LLM base_url 不是有效 URL: nonsense: "));
    assert_eq!(
        fails(|c| c.llm.base_url = "ftp://x".to_string()),
        "LLM base_url 只支持 http 或 https"
    );
    assert_eq!(fails(|c| c.llm.context_length = 255), "context_length 不能小于 256");
    assert_eq!(fails(|c| c.llm.price_input_per_m = "-0.5".to_string()), "token 单价不能为负数");
    assert_eq!(fails(|c| c.llm.max_tool_iterations = 0), "max_tool_iterations 必须大于 0");
    let mut thinks = config();
    thinks.llm.thinking =
        Some("thinking={\"type\":\"enabled\",\"budget_tokens\":4096}, a=\"x,y\",auto".to_string());
    assert!(thinks.validate().is_ok());
    assert_eq!(
        fails(|c| c.llm.thinking = Some("nonsense".to_string())),
        "llm.thinking 应为 key=value (逗号分隔多组) 或 auto, 例如 enable_thinking=false"
    );
    assert_eq!(fails(|c| c.output.download_dir = " ".to_string()), "output.download_dir 不能为空");
    assert_eq!(
        config().validate_with(&Err("bad".to_string())).unwrap_err(),
        "LLM base_url 不是有效 URL: http://y/v1: bad"
    );
}

#[test]
fn prices_below_zero_are_told_from_zero() {
    for p in ["0.0", "-0.0", "1.5", "nan", "-nan", "inf", "-0e5", "0.25"] {
        assert!(!price_is_negative(p), "{p}");
    }
    for p in ["-0.5", "-1e-7", "-inf", "-10.0"] {
        assert!(price_is_negative(p), "{p}");
    }
}

#[test]
fn paths_of_the_data() {
    let mut c = config();
    assert_eq!(c.db_path(), "userdata/userdata.db");
    assert_eq!(c.data_dir(), "userdata");
    c.database.path = Some("some/where/my.db".to_string());
    assert_eq!(c.data_dir(), "some/where");
    c.database.path = Some("my.db".to_string());
    assert_eq!(c.data_dir(), ".");
    for (path, dir, cache) in [
        ("./userdata.json", ".", "./cf-cache"),
        ("../data/u.db", "../data", "../data/cf-cache"),
        ("a/../我的 数据.d/u", "a/../我的 数据.d", "a/../我的 数据.d/cf-cache"),
        ("/var/lib/u.db", "/var/lib", "/var/lib/cf-cache"),
        ("/u.db", "/", "/cf-cache"),
        ("", ".", "cf-cache"),
        ("/", ".", "cf-cache"),
        ("/.", ".", "cf-cache"),
        (".", ".", "cf-cache"),
        ("u/./", ".", "cf-cache"),
        ("a//b//u.db", "a//b", "a//b/cf-cache"),
        ("a///u.db", "a", "a/cf-cache"),
        ("a/./u.db/", "a", "a/cf-cache"),
        ("/./u.db", "/", "/cf-cache"),
        ("././u.db", ".", "./cf-cache"),
        ("a/..", "a", "a/cf-cache"),
    ] {
        c.database.path = Some(path.to_string());
        assert_eq!(c.data_dir(), dir);
        assert_eq!(ToolRegistry::new(false, "dl", path).cf_cache_dir(), cache);
    }
    assert_eq!(data_dir_of(None), ".");
    assert_eq!(cache_dir_of(Some("a b".to_string())), "a b/cf-cache");
    assert!(cache_dir_of(Some("C:".to_string())).starts_with("C:"));
    assert!(cache_dir_of(Some("C:\\x".to_string())).ends_with("cf-cache"));
    assert_eq!(ToolRegistry::new(false, "dl", "some/where/my.db").cf_cache_dir(), "some/where/cf-cache");
    assert_eq!(ToolRegistry::new(false, "dl", "my.db").cf_cache_dir(), "cf-cache");
    assert_eq!(default_context_length(), 32768);
    assert_eq!(default_max_tool_iterations(), 16);
    assert_eq!((default_ui_port(), UiConfig::default().port), (1780, 1780));
    assert!(DatabaseConfig::default().path.is_none());
}

#[test]
fn changes_of_settings() {
    let same = match ui::settings_update(config(), &unchanged()) {
        Ok(c) => c,
        Err(e) => panic!("{e}"),
    };
    assert_eq!(same.llm.model, "b");
    assert_eq!(same.llm.api_key, "k2");
    let mut req = unchanged();
    req.model = Some(" m2 ".to_string());
    req.api_key = Some("  ".to_string());
    req.thinking = Some(" ".to_string());
    req.token_budget = Some(9);
    req.price_input_per_m = Some("3.0".to_string());
    req.curseforge_enabled = Some(true);
    let c = match ui::settings_update(config(), &req) {
        Ok(c) => c,
        Err(e) => panic!("{e}"),
    };
    assert_eq!(c.llm.model, "m2");
    assert_eq!(c.llm.api_key, "k2");
    assert_eq!(c.llm.thinking, None);
    assert_eq!(c.llm.token_budget, 9);
    assert_eq!(c.llm.price_input_per_m, "3.0");
    assert!(c.curseforge.enabled);
    let fails = |req: SettingsRequest| match ui::settings_update(config(), &req) {
        Ok(_) => panic!("a refusal was expected"),
        Err(e) => e,
    };
    let mut req = unchanged();
    req.model = Some(" ".to_string());
    assert_eq!(fails(req), "模型不能为空");
    let mut req = unchanged();
    req.base_url = Some("".to_string());
    assert_eq!(fails(req), "API 地址不能为空");
    let mut req = unchanged();
    req.context_length = Some(1);
    assert_eq!(fails(req), "设置未保存: context_length 不能小于 256");
    match ui::accept_settings(config(), &Ok("ftp".to_string())) {
        Ok(_) => panic!("a refusal was expected"),
        Err(e) => assert_eq!(e, "设置未保存: LLM base_url 只支持 http 或 https"),
    }
}

#[test]
fn changed_settings_are_answered() {
    let text = |saved: Result<(), String>, cf: Option<bool>, cf_saved: Result<(), String>| {
        ui::updated("m", &saved, cf, &cf_saved).str_at("message").unwrap().clone()
    };
    assert_eq!(text(Ok(()), None, Ok(())), "已保存, 当前模型: m");
    assert_eq!(
        text(Err("e".to_string()), Some(true), Ok(())),
        "运行时已生效, 但写入 config.toml 失败: e; CurseForge 已开启"
    );
    assert_eq!(
        text(Ok(()), Some(false), Err("e".to_string())),
        "已保存, 当前模型: m; CurseForge 已关闭 (写回失败: e)"
    );
}

#[test]
fn keys_are_masked() {
    assert_eq!(ui::mask_key("sk-123456"), "***3456");
    assert_eq!(ui::mask_key("zz-993456"), "***3456");
    assert_eq!(ui::mask_key("1234"), "***");
    assert_eq!(ui::mask_key(""), "");
    assert!(ui::can_mask("你好abcd"));
    assert!(!ui::can_mask("abc你好"));
    let mut c = config();
    c.llm.api_key = "sk-secret-9876".to_string();
    let text = render_json(&ui::settings(&c));
    assert_eq!(
        text,
        "{\"api_key_masked\":\"***9876\",\"api_key_set\":true,\"base_url\":\"http://y/v1\",\"context_length\":999,\"curseforge_enabled\":false,\"max_tool_iterations\":7,\"model\":\"b\",\"price_input_per_m\":0.1,\"price_output_per_m\":0.2,\"thinking\":\"reasoning_effort=low\",\"token_budget\":5}"
    );
    assert!(!text.contains("secret"));
}

// ---------------------------------------------------------------------------
// The web interface
// ---------------------------------------------------------------------------

#[test]
fn messages_carry_their_preset() {
    let limit = |s: &str| ui::parse_limit(&parse_json(s).unwrap());
    assert_eq!(limit("8"), Some(8));
    assert_eq!(limit("\"8\""), Some(8));
    assert_eq!(limit("20"), Some(20));
    assert_eq!(limit("21"), None);
    assert_eq!(limit("0"), None);
    assert_eq!(limit("-1"), None);
    assert_eq!(limit("\"many\""), None);
    assert_eq!(limit("2.5"), None);
    assert_eq!(limit("null"), None);
    assert_eq!(ui::parse_limit(&Json::Number(JsonNumber::Negative(7))), Some(7));
    let req = ChatRequest {
        text: "hi".to_string(),
        game_version: Some("1.21.1".to_string()),
        loader: Some("vanilla".to_string()),
        search_limit: Some(parse_json("\"5\"").unwrap()),
    };
    assert_eq!(req.message(), "[界面预设: Minecraft 版本 1.21.1 / 候选数量 5] hi");
    assert_eq!(ui::apply_preset("hi".to_string(), &None, &None, None), "hi");
}

#[test]
fn events_take_one_line_each() {
    let line = |e: AgentEvent| ui::event_line(&e);
    assert_eq!(
        line(AgentEvent::ToolCall { name: "n".to_string(), args: "{\n}".to_string() }),
        "{\"args\":\"{\\n}\",\"name\":\"n\",\"type\":\"tool_call\"}\n"
    );
    assert_eq!(
        line(AgentEvent::ToolResult { name: "n".to_string(), ok: true }),
        "{\"name\":\"n\",\"ok\":true,\"type\":\"tool_result\"}\n"
    );
    assert_eq!(
        line(AgentEvent::Progress { text: "t".to_string(), current: Some(1), total: None }),
        "{\"current\":1,\"text\":\"t\",\"total\":null,\"type\":\"progress\"}\n"
    );
    assert_eq!(
        line(AgentEvent::ReplyDelta { text: "a\nb".to_string() }),
        "{\"text\":\"a\\nb\",\"type\":\"reply_delta\"}\n"
    );
    assert_eq!(
        line(AgentEvent::Reply { text: "x".to_string() }),
        "{\"text\":\"x\",\"type\":\"reply\"}\n"
    );
    assert_eq!(
        line(AgentEvent::LlmUsage { prompt_tokens: 1, completion_tokens: 2, total_tokens: 3 }),
        "{\"completion_tokens\":2,\"prompt_tokens\":1,\"total_tokens\":3,\"type\":\"llm_usage\"}\n"
    );
    assert_eq!(ui::error_line("e"), "{\"message\":\"e\",\"type\":\"error\"}\n");
    assert_eq!(ui::done_line("u", "s"), "{\"saved\":\"s\",\"type\":\"done\",\"usage\":\"u\"}\n");
}

#[test]
fn names_of_saved_conversations_stay_in_their_directory() {
    let path = |name: &str| ui::import_path("userdata", &ImportRequest { name: name.to_string() });
    assert_eq!(path("session-1.json").unwrap(), "userdata/sessions/session-1.json");
    for bad in ["../x", "a/b", "a\\b", "x..json"] {
        assert_eq!(path(bad).unwrap_err(), "非法文件名");
    }
}

#[test]
fn answers_of_the_web_interface() {
    assert_eq!(render_json(&ui::answer(true, "m")), "{\"message\":\"m\",\"ok\":true}");
    assert_eq!(render_json(&ui::health("1")), "{\"ok\":true,\"version\":\"1\"}");
    let agent = Agent::new(llm());
    assert_eq!(
        render_json(&ui::info(&config(), &agent, "1", "u", "0.0000")),
        "{\"base_url\":\"http://y/v1\",\"calls\":0,\"cost\":\"0.0000\",\"download_dir\":\"./dl\",\"model\":\"b\",\"session_file\":null,\"total_tokens\":0,\"usage_summary\":\"u\",\"version\":\"1\"}"
    );
    let tools = ui::tools(&ToolRegistry::defs());
    let names: Vec<String> = tools
        .array_at("tools")
        .unwrap()
        .iter()
        .map(|t| t.str_at("name").unwrap().clone())
        .collect();
    assert_eq!(
        names,
        vec![
            "search_mods",
            "build_modpack",
            "record_feedback",
            "get_user_profile",
            "recommend_new_mods",
            "repair_pack"
        ]
    );
    let sessions = vec![SessionInfo {
        name: "a.json".to_string(),
        size_kb: 3,
        modified: "t".to_string(),
        valid: true,
    }];
    assert_eq!(
        render_json(&ui::sessions("ud", &sessions)),
        "{\"dir\":\"ud/sessions\",\"sessions\":[{\"modified\":\"t\",\"name\":\"a.json\",\"size_kb\":3,\"valid\":true}]}"
    );
    assert_eq!(
        render_json(&ui::restored("m", vec![Json::Null])),
        "{\"message\":\"m\",\"messages\":[null],\"ok\":true}"
    );
}

#[test]
fn packs_are_listed_by_time() {
    let f = |name: &str, size: Option<u64>, modified: &str| PackFile {
        name: name.to_string(),
        size,
        modified: modified.to_string(),
    };
    let files = vec![
        f("old.mrpack", Some(2048), "2026-01-01 10:00"),
        f("notes.txt", Some(1), "2026-09-09 10:00"),
        f("new.mrpack", Some(1023), "2026-02-01 10:00"),
        f("same.mrpack", None, "2026-01-01 10:00"),
    ];
    assert_eq!(
        render_json(&ui::packs("dl", &files)),
        "{\"dir\":\"dl\",\"packs\":[{\"modified\":\"2026-02-01 10:00\",\"name\":\"new.mrpack\",\"size_kb\":0},{\"modified\":\"2026-01-01 10:00\",\"name\":\"old.mrpack\",\"size_kb\":2},{\"modified\":\"2026-01-01 10:00\",\"name\":\"same.mrpack\",\"size_kb\":0}]}"
    );
}

fn sample() -> UserDatabase {
    let mut db = UserDatabase::load("db", None);
    for (verdict, tags) in [
        ("like", &["magic", "mobs"][..]),
        ("dislike", &["mobs", "tech"][..]),
        ("dislike", &["tech"][..]),
    ] {
        db.rate(FeedbackRecord {
            slug: "s".to_string(),
            verdict: verdict.to_string(),
            tags: strings(tags),
            game_version: String::new(),
            loader: String::new(),
            source: "test".to_string(),
            timestamp: "t".to_string(),
        });
    }
    db
}

#[test]
fn the_profile_shows_strong_weights_first() {
    let mut db = sample();
    db.packs.push(PackRecord {
        name: "p".to_string(),
        mod_slugs: strings(&["a"]),
        created_at: "t".to_string(),
    });
    assert_eq!(
        render_json(&ui::profile(&db)),
        "{\"packs\":[{\"created_at\":\"t\",\"mod_slugs\":[\"a\"],\"name\":\"p\"}],\"summary\":\"反馈 3 条（喜欢 1 / 不喜欢 2）| 组包 1 次\",\"tag_weights\":[{\"tag\":\"tech\",\"weight\":-2.0},{\"tag\":\"magic\",\"weight\":1.0},{\"tag\":\"mobs\",\"weight\":0.0}]}"
    );
    assert_eq!(weight_line(&sample()), "口味权重: magic=+1  mobs=+0  tech=-2");
}

#[test]
fn recommendations_and_ratings_are_answered() {
    let hit = |slug: &str| ScoredHit {
        hit: Hit {
            slug: slug.to_string(),
            title: "T".to_string(),
            description: "d".to_string(),
            author: "a".to_string(),
            downloads: 2,
            display_categories: strings(&["c"]),
            versions: Vec::new(),
        },
        score: 4,
    };
    let ranked = Ok(vec![hit("a"), hit("b"), hit("c"), hit("d"), hit("e"), hit("f")]);
    let answer = ui::recommend(&ranked, "s");
    let list = answer.array_at("recommendations").unwrap();
    assert_eq!(list.len(), 5);
    assert_eq!(
        render_json(&list[0]),
        "{\"categories\":[\"c\"],\"description\":\"d\",\"downloads\":2,\"slug\":\"a\",\"taste_score\":4.0,\"title\":\"T\"}"
    );
    assert_eq!(
        render_json(&ui::recommend(&Err("e".to_string()), "s")),
        "{\"message\":\"e\",\"ok\":false,\"recommendations\":[]}"
    );
    let req = FeedbackRequest { slug: "a".to_string(), verdict: "like".to_string() };
    assert_eq!(ui::web_record(&req, &strings(&["x"]), "t").source, "web");
    assert_eq!(
        render_json(&ui::feedback(&req, &Ok(()), "s")),
        "{\"db_summary\":\"s\",\"ok\":true,\"slug\":\"a\",\"verdict\":\"like\"}"
    );
    assert_eq!(
        render_json(&ui::feedback(&req, &Err("e".to_string()), "s")),
        "{\"message\":\"e\",\"ok\":false}"
    );
}

// ---------------------------------------------------------------------------
// The terminal
// ---------------------------------------------------------------------------

#[test]
fn the_banner_is_a_box() {
    let lines = banner("0.2.0", "模型名").unwrap();
    assert_eq!(lines.len(), 6);
    let bare: Vec<String> = lines[..4]
        .iter()
        .map(|l| {
            l.replace("\x1b[96m", "")
                .replace("\x1b[1m", "")
                .replace("\x1b[2m", "")
                .replace("\x1b[0m", "")
        })
        .collect();
    let widths: Vec<usize> =
        bare.iter().map(|l| unicode_width::UnicodeWidthStr::width(l.as_str())).collect();
    assert!(widths.iter().all(|w| *w == widths[0]));
    assert!(bare[1].contains("RustAgent v0.2.0 · 测试版"));
    assert!(bare[2].contains("模型 模型名 · mod 数据来自 Modrinth"));
    assert_eq!(
        banner_lines("ab", "c", 2, 1)[..4],
        [
            "\x1b[96m╭────╮\x1b[0m",
            "\x1b[96m│\x1b[0m \x1b[1mab\x1b[0m \x1b[96m│\x1b[0m",
            "\x1b[96m│\x1b[0m \x1b[2mc\x1b[0m  \x1b[96m│\x1b[0m",
            "\x1b[96m╰────╯\x1b[0m",
        ]
    );
}

#[test]
fn prompts_are_coloured() {
    assert_eq!(paint(GREEN, "x"), "\x1b[32mx\x1b[0m");
    assert_eq!(prompt_text(None), "\x1b[1m❯\x1b[0m ");
    assert_eq!(
        prompt_text(Some(&"1.21.1".to_string())),
        "\x1b[2m[1.21.1]\x1b[0m \x1b[1m❯\x1b[0m "
    );
    assert_eq!(busy_hint(), "\x1b[2m  ✻ 处理中, Ctrl+C 可打断\x1b[0m");
}

#[test]
fn progress_is_overwritten() {
    let mut p = ProgressPrinter::new();
    assert_eq!(
        p.progress("t", Some(1), Some(4), 5),
        "  \x1b[33m⏳\x1b[0m ▰▰▰▰▰▱▱▱▱▱▱▱▱▱▱▱▱▱▱▱ 1/4 t"
    );
    assert_eq!(p.progress("u", None, None, 0), "\r\x1b[2K  \x1b[33m⏳\x1b[0m u");
    assert_eq!(p.line("x"), "\r\x1b[2Kx\n");
    assert_eq!(p.line("y"), "y\n");
    let mut streaming = false;
    assert_eq!(p.delta("a", &mut streaming), "\na");
    assert_eq!(p.delta("b", &mut streaming), "b");
    assert_eq!(p.reply_end("ab", streaming), "\n\n");
    assert_eq!(p.reply_end("ab", false), "\nab\n\n");
}

#[test]
fn events_are_shown() {
    let mut p = ProgressPrinter::new();
    let mut streaming = true;
    let call = AgentEvent::ToolCall { name: "n".to_string(), args: "x".repeat(80) };
    assert_eq!(
        p.event(&call, &mut streaming, 0),
        format!("  \x1b[2m⚙\x1b[0m \x1b[96mn\x1b[0m({})\n", "x".repeat(70))
    );
    assert!(!streaming);
    let ok = AgentEvent::ToolResult { name: "n".to_string(), ok: true };
    assert_eq!(p.event(&ok, &mut streaming, 0), "  \x1b[32m✓\x1b[0m \x1b[2mn\x1b[0m\n");
    let bad = AgentEvent::ToolResult { name: "n".to_string(), ok: false };
    assert_eq!(p.event(&bad, &mut streaming, 0), "  \x1b[31m✗\x1b[0m n\n");
    let reply = AgentEvent::Reply { text: "r".to_string() };
    assert_eq!(p.event(&reply, &mut streaming, 0), "\nr\n\n");
    let usage = AgentEvent::LlmUsage { prompt_tokens: 1, completion_tokens: 1, total_tokens: 2 };
    assert_eq!(p.event(&usage, &mut streaming, 0), "");
}

#[test]
fn commands_are_read() {
    assert!(matches!(read_command("  \n"), Command::Nothing));
    assert!(matches!(read_command("/quit\n"), Command::Quit));
    assert!(matches!(read_command(" /exit "), Command::Quit));
    assert!(matches!(read_command("/new"), Command::New));
    assert!(matches!(read_command("/save"), Command::Save));
    assert!(matches!(read_command("/load"), Command::Load));
    assert!(matches!(read_command("/stats"), Command::Stats));
    assert!(matches!(read_command("/set v=1  l=fabric"), Command::Preset(a) if a == ["v=1", "l=fabric"]));
    assert!(matches!(read_command("/set"), Command::Preset(a) if a.is_empty()));
    assert!(matches!(read_command(" hello there \n"), Command::Say(t) if t == "hello there"));
}

#[test]
fn presets_are_set() {
    let mut p = Preset::new();
    assert_eq!(p.tag(), None);
    let out = p.apply(&strings(&["版本=1.21.1", "l=fabric", "n=10"]));
    assert_eq!(out.len(), 1);
    assert!(!out[0].error);
    assert_eq!(
        out[0].text,
        "\x1b[32m✓ 当前预设:\x1b[0m \x1b[96m版本=1.21.1 加载器=fabric 数量=10\x1b[0m"
    );
    assert_eq!(p.tag().as_deref(), Some("1.21.1·fabric·×10"));
    let out = p.apply(&strings(&["v=x", "loader=vanilla", "数量=21", "q=1", "oops"]));
    let texts: Vec<String> = out
        .iter()
        .filter(|n| n.error)
        .map(|n| n.text.replace("\x1b[31m", "").replace("\x1b[0m", ""))
        .collect();
    assert_eq!(
        texts,
        vec![
            "✗ 无效版本 'x', 应类似 1.21.1",
            "✗ 无效加载器 '{val}', 可选: fabric / forge / neoforge / quilt",
            "✗ 数量需为 1-20 的整数 (单次对话上限 20)",
            "✗ 未知预设项 'q', 可选: 版本 / 加载器 / 数量",
            "✗ 格式: /set 版本=1.21.1 加载器=fabric 数量=10 (键: 版本/加载器/数量)",
        ]
    );
    assert_eq!(p.tag().as_deref(), Some("1.21.1·fabric·×10"));
    let mut q = Preset::new();
    let out = q.apply(&Vec::new());
    assert_eq!(out.len(), 2);
    assert_eq!(out[1].text, "当前预设: 无 (消息将原样发送)");
}

#[test]
fn arguments_of_the_program() {
    let mode = |list: &[&str]| read_args(&strings(list));
    assert!(matches!(mode(&["p"]), Ok(Mode::Chat)));
    assert!(matches!(mode(&["p", "selftest"]), Ok(Mode::Selftest)));
    assert!(matches!(mode(&["p", "ui", "x"]), Ok(Mode::Ui)));
    assert!(matches!(mode(&["p", "repair", "a", "b"]), Ok(Mode::Repair(s)) if s == "a b"));
    match mode(&["p", "repair"]) {
        Ok(_) => panic!("an error was expected"),
        Err(e) => assert_eq!(
            e,
            "未知子命令 'repair' (可用: selftest / ui / repair; 不带参数进入交互对话)"
        ),
    }
}

// ---------------------------------------------------------------------------
// Tools and JSON
// ---------------------------------------------------------------------------

#[test]
fn tools_are_found_by_name() {
    assert_eq!(find_tool("repair_pack"), Ok(Tool::RepairPack));
    assert_eq!(find_tool("x"), Err("未知工具: x".to_string()));
    for d in ToolRegistry::defs() {
        assert!(find_tool(&d.function.name).is_ok());
        assert_eq!(d.def_type, "function");
    }
    assert!(check_interrupt(false).is_ok());
    assert_eq!(check_interrupt(true).unwrap_err(), "用户已打断");
    let mut r = ToolRegistry::new(false, "dl", "db");
    r.set_cf(true);
    assert!(r.cf);
}

#[test]
fn json_is_read_and_written() {
    let text = "{\"b\":[1,-2,2.5,true,null],\"a\":\"x\\\"\\n\"}";
    let j = parse_json(text).unwrap();
    assert_eq!(render_json(&j), "{\"a\":\"x\\\"\\n\",\"b\":[1,-2,2.5,true,null]}");
    assert_eq!(render_pretty(&parse_json("{\"a\":[]}").unwrap()), "{\n  \"a\": []\n}");
    assert!(parse_json("{").is_err());
    assert_eq!(j.str_at("a").map(|s| s.as_str()), Some("x\"\n"));
    let twice = Json::Object(vec![
        ("k".to_string(), Json::number(1)),
        ("k".to_string(), Json::number(2)),
    ]);
    assert_eq!(twice.u64_at("k"), Some(2));
    assert_eq!(render_json(&twice), "{\"k\":2}");
    assert_eq!(render_json(&Json::Number(JsonNumber::Negative(5))), "5");
}

#[test]
fn the_prompt_says_what_was_done() {
    let ok = |s: &str| Ok::<String, String>(s.to_string());
    let err = |s: &str| Err::<String, String>(s.to_string());
    let n = saved_notice(&ok("s.json"));
    assert_eq!(
        (n.error, n.text.as_str()),
        (false, "\x1b[32m✓ 已保存\x1b[0m \x1b[2ms.json\x1b[0m")
    );
    let n = loaded_notice(&err("没有"));
    assert_eq!((n.error, n.text.as_str()), (true, "\x1b[31m✗ 没有\x1b[0m"));
    assert_eq!(new_notice(), "\x1b[32m✓ 已开启新会话\x1b[0m");
    assert!(auto_save_notice(&ok("")).is_none());
    assert_eq!(auto_save_notice(&ok("a")).unwrap().text, "\x1b[2m  ✓ 已自动保存 a\x1b[0m");
    assert_eq!(
        auto_save_notice(&err("e")).unwrap().text,
        "\x1b[31m✗ 自动保存失败: e\x1b[0m"
    );
    assert!(turn_notice(&TurnEnd::Done).is_none());
    assert_eq!(
        turn_notice(&TurnEnd::Failed("e".to_string())).unwrap().text,
        "\x1b[31m✗ e\x1b[0m"
    );
    assert!(turn_notice(&TurnEnd::Broken("e".to_string())).unwrap().error);
    let n = turn_notice(&TurnEnd::Interrupted).unwrap();
    assert_eq!((n.error, n.text.as_str()), (false, "\n\x1b[33m⏸ 已打断当前任务\x1b[0m"));
    let lines = stats(&sample(), "u");
    assert_eq!(lines[1], "口味权重: magic=+1  mobs=+0  tech=-2");
    assert_eq!(lines[2], "本次会话: u");
    assert_eq!(lines[0], format!("数据库: {}", sample().summary()));
    assert_eq!(farewell(&sample(), "u")[2], "本次会话用量: u");
}
