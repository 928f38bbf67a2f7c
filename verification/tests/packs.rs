use rustagent::archive::{pack_bytes, pack_index};
use rustagent::closure::{Closure, ClosureStep};
use rustagent::curseforge::{CfFile, CfFileMeta, CfProject};
use rustagent::json::{parse_json, render_json, Json};
use rustagent::modrinth::{Dependency, Hashes, Hit, ModVersion, Project, VersionFile};
use rustagent::number::{format_mb1, format_mb2};
use rustagent::sample;
use rustagent::sample::SamplePack;
use rustagent::selftest::{check_hits, check_index, check_pack, hit_line, output_path};
use rustagent::tools::build_pack::{
    cf_report, closure_done_report, closure_report, collect_report, loader_report, pack_file_name,
    pick_file, BuildArgs, PackBuild,
};
use rustagent::tools::build_run::{BuildRun, BuildStep};
use rustagent::tools::loader_meta::LoaderEntry;
use rustagent::tools::repair::{
    check_args, choose_release, choose_repair_file, find_pack, read_pack, read_target,
    resolve_pack_path, write_report, PackRepair, RepairArgs, RepairOutcome,
};
use rustagent::tools::TOOL_INTERRUPTED;

fn strings(list: &[&str]) -> Vec<String> {
    list.iter().map(|s| s.to_string()).collect()
}

fn file(name: &str, primary: bool, size: u64) -> VersionFile {
    VersionFile {
        filename: name.to_string(),
        url: format!("https://cdn/{name}"),
        primary,
        size,
        hashes: Hashes { sha1: "s1".to_string(), sha512: "s5".to_string() },
    }
}

fn release(number: &str, deps: &[(&str, Option<&str>)], files: Vec<VersionFile>) -> ModVersion {
    ModVersion {
        version_number: number.to_string(),
        dependencies: deps
            .iter()
            .map(|d| Dependency {
                dependency_type: d.0.to_string(),
                project_id: d.1.map(|s| s.to_string()),
            })
            .collect(),
        files,
    }
}

fn project(slug: &str) -> Project {
    Project {
        slug: slug.to_string(),
        client_side: "required".to_string(),
        server_side: "optional".to_string(),
        categories: Vec::new(),
    }
}

fn args(mods: &[&str], cf: &[&str]) -> BuildArgs {
    BuildArgs {
        name: "My Pack".to_string(),
        game_version: "1.21.1".to_string(),
        loader: "fabric".to_string(),
        mod_slugs: strings(mods),
        cf_mods: strings(cf),
    }
}

fn started(mods: &[&str], cf: &[&str]) -> PackBuild {
    match PackBuild::start(args(mods, cf)) {
        Ok(b) => b,
        Err(e) => panic!("{e}"),
    }
}

// ---------------------------------------------------------------------------
// Dependencies
// ---------------------------------------------------------------------------

#[test]
fn required_mods_are_added_once() {
    let mut c = Closure::new("1.21.1", "fabric", &strings(&["a", "b"]));
    assert_eq!(c.report().unwrap(), "依赖闭包第 1 轮: 检查 2 个 mod 的依赖");
    let mut asked: Vec<String> = Vec::new();
    loop {
        match c.step() {
            ClosureStep::Done => break,
            ClosureStep::Versions { slug } => {
                asked.push(slug.clone());
                let deps: &[(&str, Option<&str>)] = match slug.as_str() {
                    "a" => &[("required", Some("idc")), ("optional", Some("idx")), ("required", None)],
                    "b" => &[("required", Some("idc")), ("required", Some("ida"))],
                    "c" => &[("required", Some("idd"))],
                    _ => &[],
                };
                c.on_versions(Ok(vec![release("1", deps, Vec::new())]));
            }
            ClosureStep::Project { id } => {
                asked.push(id.clone());
                c.on_project(Ok(project(&id[2..])));
            }
        }
    }
    assert_eq!(c.all, vec!["a", "b", "c", "d"]);
    assert_eq!(c.auto_added, vec!["c", "d"]);
    assert!(c.conflicts.is_empty());
    assert_eq!(asked, vec!["a", "b", "idc", "ida", "c", "idd", "d"]);
}

#[test]
fn dependencies_that_cannot_be_found_are_conflicts() {
    let mut c = Closure::new("1.21.1", "fabric", &strings(&["a", "b", "e"]));
    c.on_versions(Err("timeout".to_string()));
    c.on_versions(Ok(Vec::new()));
    c.on_versions(Ok(vec![release("1", &[("required", Some("x"))], Vec::new())]));
    c.on_project(Err("404".to_string()));
    assert!(matches!(c.step(), ClosureStep::Done));
    assert_eq!(
        c.conflicts,
        vec!["a: 获取版本失败 (timeout)", "b: 没有 1.21.1/fabric 兼容版本", "依赖 x: 无法解析"]
    );
}

#[test]
fn the_search_for_dependencies_ends() {
    let mut c = Closure::new("1.21.1", "fabric", &strings(&["m0"]));
    let mut n = 0;
    let mut questions = 0;
    loop {
        match c.step() {
            ClosureStep::Done => break,
            ClosureStep::Versions { .. } => {
                n += 1;
                let id = format!("m{n}");
                let deps = [("required", Some(id.as_str()))];
                let some = if n <= 5 { &deps[..] } else { &[] };
                c.on_versions(Ok(vec![release("1", some, Vec::new())]));
            }
            ClosureStep::Project { id } => c.on_project(Ok(project(&id))),
        }
        questions += 1;
    }
    assert_eq!(questions, 11);
    assert_eq!(c.all, vec!["m0", "m1", "m2", "m3", "m4", "m5"]);
    assert_eq!(c.auto_added, vec!["m1", "m2", "m3", "m4", "m5"]);
    assert!(c.conflicts.is_empty());
}

// ---------------------------------------------------------------------------
// Building
// ---------------------------------------------------------------------------

#[test]
fn packs_are_refused_before_any_work() {
    let refused = |a: BuildArgs| match PackBuild::start(a) {
        Ok(_) => panic!("a refusal was expected"),
        Err(e) => e,
    };
    assert_eq!(refused(args(&[], &[])), "mod 列表为空");
    let many: Vec<String> = (0..101).map(|i| format!("m{i}")).collect();
    let names: Vec<&str> = many.iter().map(|s| s.as_str()).collect();
    assert_eq!(
        refused(args(&names, &[])),
        "所选 mod 101 个, 超出单包上限 100 (依赖自动补全与报错修复补入不计入) —— 为考虑轻量化, 敬请谅解"
    );
    let mut a = args(&["x"], &[]);
    a.loader = "optifine".to_string();
    assert_eq!(refused(a), "不支持的加载器: optifine (可选: fabric / forge / neoforge / quilt)");
    assert!(PackBuild::start(args(&names[..100], &[])).is_ok());
}

#[test]
fn the_main_file_is_taken() {
    assert_eq!(pick_file(&vec![file("a", false, 1), file("b", true, 1)]), Some(1));
    assert_eq!(pick_file(&vec![file("a", false, 1), file("b", false, 1)]), Some(0));
    assert_eq!(pick_file(&Vec::new()), None);
}

#[test]
fn a_pack_holds_what_was_added() {
    let mut b = started(&["sodium"], &["tf"]);
    b.on_closure(strings(&["sodium"]), Vec::new(), &Vec::new());
    assert!(b.claim("sodium"));
    let answer = Ok(vec![release("1.0", &[], vec![file("sodium.jar", true, 1048576)])]);
    let i = b.select("sodium", &answer).unwrap();
    let versions = match &answer {
        Ok(v) => v,
        Err(e) => panic!("{e}"),
    };
    b.add("sodium", &versions[0], i, Some(("required".to_string(), "optional".to_string())));
    let cf = CfFile {
        id: 8749067,
        name: "tf.jar".to_string(),
        kind: "release".to_string(),
        filesize: 10,
        versions: strings(&["1.21.1", "Fabric", "Client"]),
    };
    let meta = CfFileMeta {
        mod_id: 1,
        file_id: 8749067,
        filename: "tf.jar".to_string(),
        url: "https://cf/tf.jar".to_string(),
        sha1: "a".to_string(),
        sha512: "b".to_string(),
        size: 524288,
        depends: strings(&["fabric-api", "sodium", "tf", "fabric-api"]),
    };
    b.cf_add("tf", &meta, &cf);
    assert_eq!(b.next_cf_dep().as_deref(), Some("fabric-api"));
    b.on_cf_dep("fabric-api", true);
    assert_eq!(b.next_cf_dep(), None);
    assert_eq!(b.auto_added, vec!["fabric-api"]);
    assert!(!b.claim("sodium"));
    assert!(b.check_files().is_ok());
    let index = b.index("0.16.14");
    assert_eq!(
        render_json(&index),
        "{\"dependencies\":{\"fabric-loader\":\"0.16.14\",\"minecraft\":\"1.21.1\"},\"files\":[{\"downloads\":[\"https://cdn/sodium.jar\"],\"env\":{\"client\":\"required\",\"server\":\"optional\"},\"fileSize\":1048576,\"hashes\":{\"sha1\":\"s1\",\"sha512\":\"s5\"},\"path\":\"mods/sodium.jar\"},{\"downloads\":[\"https://cf/tf.jar\"],\"env\":{\"client\":\"required\",\"server\":\"unsupported\"},\"fileSize\":524288,\"hashes\":{\"sha1\":\"a\",\"sha512\":\"b\"},\"path\":\"mods/tf.jar\"}],\"formatVersion\":1,\"game\":\"minecraft\",\"name\":\"My Pack\",\"summary\":\"由 RustAgent 生成的整合包 (MC 1.21.1 / fabric)\",\"versionId\":\"rustagent-My Pack\"}"
    );
    let report = b.report("out.mrpack", "s");
    assert_eq!(report.u64_at("mod_count"), Some(2));
    assert_eq!(report.str_at("total_size_mb").map(|s| s.as_str()), Some("1.5"));
    assert_eq!(report.str_at("note").map(|s| s.as_str()), Some("存在冲突条目, 请向用户说明"));
    assert_eq!(b.record_slugs(), vec!["sodium", "fabric-api", "cf:tf"]);
    assert_eq!(output_path(&report).unwrap(), "out.mrpack");
}

#[test]
fn problems_of_a_pack_are_recorded() {
    let mut b = started(&["a"], &["c"]);
    assert!(b.cf_gate(true).is_ok());
    assert_eq!(
        b.cf_gate(false).unwrap_err(),
        "cf_mods 需要在 config.toml 的 [curseforge] 打开 enabled 后使用"
    );
    b.on_closure(strings(&["a"]), Vec::new(), &strings(&["p"]));
    b.cf_lookup_failed("c", "e1");
    b.cf_no_file("c");
    b.cf_fetch_failed("c", "e2");
    b.on_cf_dep("d", false);
    assert_eq!(b.select("a", &Err("e3".to_string())), None);
    assert_eq!(b.select("a", &Ok(Vec::new())), None);
    assert_eq!(b.select("a", &Ok(vec![release("1", &[], Vec::new())])), None);
    let issues: Vec<String> =
        b.conflicts.iter().map(|c| c.str_at("issue").unwrap().clone()).collect();
    assert_eq!(
        issues,
        vec![
            "p",
            "cfwidget 查询失败: e1",
            "CF 上没有 1.21.1 / fabric 的兼容文件",
            "CF 文件获取失败: e2",
            "CF mod 声明的前置在 Modrinth 无同名项目, 请提醒用户手动确认",
            "无法获取版本信息: e3",
            "没有 1.21.1 / fabric 的兼容版本",
            "兼容版本没有可下载文件",
        ]
    );
    let e = b.check_files().unwrap_err();
    assert!(e.starts_with("没有任何 mod 能解析出兼容版本, 组包中止. 详情: [{\"issue\":\"p\"}"));
}

#[test]
fn sizes_are_written_as_floats_are() {
    let mut sizes: Vec<u64> =
        vec![0, 1, 5243, 52428, 52429, 104858, 157286, 524288, 1048575, 1310720, 123456789];
    for bits in 50..64 {
        for off in [0u64, 1, 2, 3, 1023, 1024, 1025, 3072, 5_242_880, 99_999_999] {
            sizes.push((1 << bits) + off);
            sizes.push((1 << bits) - 1 - off);
        }
    }
    sizes.push(u64::MAX);
    for size in sizes {
        let mb = size as f64 / 1_048_576.0;
        assert_eq!(format_mb1(size), format!("{mb:.1}"));
        assert_eq!(format_mb2(size), format!("{mb:.2}"));
    }
}

#[test]
fn file_names_stay_in_their_directory() {
    assert_eq!(pack_file_name("a/b\\c:d*e"), "a-b-c-d-e.mrpack");
    assert_eq!(pack_file_name("我的包"), "我的包.mrpack");
}

#[test]
fn steps_are_reported() {
    assert_eq!(closure_report(3), "解析依赖闭包 (3 个 mod)");
    assert_eq!(closure_done_report(5, 2), "依赖闭包解析完成: 共 5 个 mod (自动补充前置 2 个)");
    assert_eq!(collect_report("a", 1, 4), "正在收集 mod a (1/4)");
    assert!(cf_report("a", 1, 4).contains("a"));
    assert!(loader_report("fabric").contains("fabric"));
    assert_eq!(write_report(7), "写入整合包文件 (共 7 个 mod)");
}

// ---------------------------------------------------------------------------
// Files of packs
// ---------------------------------------------------------------------------

#[test]
fn a_pack_reads_back_as_it_was_written() {
    let bytes = pack_bytes("{\"a\":\"包\"}").unwrap();
    assert_eq!(pack_index(&bytes).unwrap(), "{\"a\":\"包\"}");
    assert_ne!(bytes, "{\"a\":\"包\"}".as_bytes());
    assert!(pack_index(b"no archive").is_err());
    assert!(read_pack(&pack_bytes("no json").unwrap()).is_err());
}

#[test]
fn a_built_pack_passes_the_check_and_can_be_repaired() {
    let mut b = started(&["sodium"], &[]);
    let v = release("1.0", &[], vec![file("sodium.jar", true, 10)]);
    b.add("sodium", &v, 0, None);
    let bytes = b.pack_file("0.16.14").unwrap();
    assert!(check_pack(&bytes).is_ok());
    let index = read_pack(&bytes).unwrap();
    assert_eq!(render_json(&index), render_json(&b.index("0.16.14")));
    assert_eq!(read_target(&index).unwrap(), ("1.21.1".to_string(), "fabric"));

    let mut r = match PackRepair::start(index, strings(&["auto"]), strings(&["c"])) {
        Ok(r) => r,
        Err(e) => panic!("{e}"),
    };
    assert_eq!(r.existing, vec!["mods/sodium.jar"]);
    r.add("lithium", "2.0", &file("lithium.jar", true, 5), None);
    let once = render_json(&r.index());
    r.add("lithium", "2.0", &file("lithium.jar", true, 5), None);
    r.add("sodium", "1.0", &file("sodium.jar", true, 10), None);
    assert_eq!(render_json(&r.index()), once);
    assert_eq!(r.added.len(), 1);
    r.add_conflict("x", "无");
    assert_eq!(r.conflicts, vec!["c", "x: 无"]);
    let repaired = read_pack(&r.pack_file().unwrap()).unwrap();
    assert_eq!(render_json(&repaired), once);
    assert_eq!(repaired.array_at("files").unwrap().len(), 2);
    let report = r.report("p.mrpack");
    assert_eq!(report.u64_at("total_mods"), Some(2));
}

#[test]
fn packs_with_flaws_are_refused() {
    let bad = |s: &str| check_index(&parse_json(s).unwrap()).unwrap_err();
    assert_eq!(bad("{\"files\":[]}"), "schema 校验失败: dependencies 必须是对象");
    assert_eq!(bad("{\"dependencies\":[]}"), "schema 校验失败: dependencies 必须是对象");
    assert_eq!(bad("{\"dependencies\":{},\"files\":{}}"), "schema 校验失败: files 必须是数组");
    assert!(check_index(&parse_json("{\"dependencies\":{},\"files\":[]}").unwrap()).is_ok());
    assert!(check_pack(b"junk").is_err());
    assert_eq!(output_path(&Json::Null).unwrap_err(), "组包结果缺少 output_path");
    let target = |s: &str| read_target(&parse_json(s).unwrap());
    assert_eq!(target("{}").unwrap_err(), "索引缺少 dependencies 对象, 请重新组包");
    assert_eq!(target("{\"dependencies\":{}}").unwrap_err(), "索引缺少 minecraft 版本声明");
    assert_eq!(
        target("{\"dependencies\":{\"minecraft\":\"1.20\"}}").unwrap_err(),
        "索引未声明加载器, 请重新组包"
    );
    match PackRepair::start(Json::Null, Vec::new(), Vec::new()) {
        Ok(_) => panic!("an error was expected"),
        Err(e) => assert_eq!(e, "索引 files 异常"),
    }
}

#[test]
fn resolve_pack_exact_match_preferred() {
    let names = strings(&["MyPack.mrpack", "MyPack-old.mrpack"]);
    let p = resolve_pack_path("dir", &names, "MyPack", "mypack").unwrap();
    assert_eq!(p, "MyPack.mrpack");
}

#[test]
fn resolve_pack_fuzzy_single_match_ok() {
    let names = strings(&["adventure-pack.mrpack"]);
    let p = resolve_pack_path("dir", &names, "adventure", "adventure").unwrap();
    assert_eq!(p, "adventure-pack.mrpack");
}

#[test]
fn resolve_pack_ambiguous_fuzzy_errors() {
    let names = strings(&["test-pack.mrpack", "test-v2.mrpack"]);
    let msg = resolve_pack_path("dir", &names, "test", "test").unwrap_err();
    assert!(msg.contains("多个"), "应报多义错误, 实际: {msg}");
    assert!(msg.contains("test-pack"));
    assert!(msg.contains("test-v2"));
}

#[test]
fn resolve_pack_not_found_errors() {
    let names = strings(&["other.mrpack"]);
    let msg = resolve_pack_path("dir", &names, "missing", "missing").unwrap_err();
    assert!(msg.contains("找不到"));
}

#[test]
fn packs_are_found_whatever_their_case() {
    let names = strings(&["MyPack.mrpack", "other.txt", "ÄRGER.mrpack"]);
    assert_eq!(find_pack("d", &names, "MYPACK").unwrap(), "MyPack.mrpack");
    assert_eq!(find_pack("d", &names, "ärger").unwrap(), "ÄRGER.mrpack");
    assert!(find_pack("d", &names, "other").is_err());
}

#[test]
fn packs_are_found_by_the_name_they_were_built_with() {
    for name in ["a/b:c*d\\e", "v1.2", "Großes Paket"] {
        let names = vec!["x.mrpack".to_string(), pack_file_name(name)];
        assert_eq!(find_pack("d", &names, name).unwrap(), pack_file_name(name));
    }
    assert_eq!(
        find_pack("d", &Vec::new(), "a/b").unwrap_err(),
        "在 d 中找不到整合包 'a/b'"
    );
}

#[test]
fn repairs_need_arguments_and_releases() {
    let ok = RepairArgs { pack_name: "p".to_string(), add_slugs: strings(&["a"]) };
    assert!(check_args(&ok).is_ok());
    let none = RepairArgs { pack_name: "p".to_string(), add_slugs: Vec::new() };
    assert!(check_args(&none).is_err());
    assert_eq!(choose_repair_file("1.20", "forge", &Err("e".to_string())).unwrap_err(), "e");
    assert_eq!(
        choose_repair_file("1.20", "forge", &Ok(Vec::new())).unwrap_err(),
        "无 1.20/forge 兼容版本"
    );
    assert_eq!(
        choose_repair_file("1.20", "forge", &Ok(vec![release("1", &[], Vec::new())])).unwrap_err(),
        "兼容版本没有可下载文件"
    );
    let two = release("1", &[], vec![file("a", false, 1), file("b", true, 1)]);
    assert_eq!(choose_repair_file("1.20", "forge", &Ok(vec![two])), Ok(1));
}

// ---------------------------------------------------------------------------
// The small pack and the self-test
// ---------------------------------------------------------------------------

#[test]
fn the_small_pack_is_built() {
    let mut p = SamplePack::new();
    let line = p
        .add("sodium", &vec![release("0.6", &[], vec![file("x", false, 1), file("s.jar", true, 2)])])
        .unwrap();
    assert_eq!(line, "sodium -> 0.6 (s.jar)");
    assert_eq!(p.add("iris", &Vec::new()).unwrap_err(), "iris 没有 1.21.1/fabric 的版本");
    let bytes = p.pack_file("0.16.14").unwrap();
    assert!(check_pack(&bytes).is_ok());
    let index = read_pack(&bytes).unwrap();
    assert_eq!(index.str_at("versionId").map(|s| s.as_str()), Some("rustagent-test-1.21.1"));
    assert_eq!(
        index.get("dependencies").and_then(|d| d.str_at("fabric-loader")).map(|s| s.as_str()),
        Some("0.16.14")
    );
    assert_eq!(p.report(), "已生成 RustAgent-test.mrpack (1 个 mod)");
}

#[test]
fn the_loader_of_the_small_pack() {
    let e = |v: &str, stable: bool| LoaderEntry { version: v.to_string(), stable };
    assert_eq!(sample::loader_version(Some(&vec![e("2", false), e("1", true)])), "1");
    assert_eq!(sample::loader_version(Some(&vec![e("2", false)])), "0.16.14");
    assert_eq!(sample::loader_version(None), "0.16.14");
}

#[test]
fn hits_are_shown() {
    let h = Hit {
        slug: "s".to_string(),
        title: "T".to_string(),
        description: "D".to_string(),
        author: "A".to_string(),
        downloads: 12,
        display_categories: strings(&["x", "y"]),
        versions: strings(&["1", "2", "3", "4", "5"]),
    };
    assert_eq!(
        sample::hit_lines(&h),
        vec![
            "[T] s",
            "  作者: A | 下载量: 12",
            "  简介: D",
            "  分类: x, y",
            "  支持版本: 共5个, 最近: 5, 4, 3, 2",
            "---",
        ]
    );
    assert_eq!(hit_line(&h), "  - T (s) | 12 下载");
    assert!(check_hits(&vec![h]).is_ok());
    assert_eq!(check_hits(&Vec::new()).unwrap_err(), "搜索无结果, facets 过滤可能有问题");
}

#[test]
fn the_argument_of_the_small_program() {
    assert!(matches!(sample::read_task(Some(&"pack".to_string())), sample::Task::Pack));
    assert!(matches!(sample::read_task(None), sample::Task::Search(q) if q == "create"));
    assert!(matches!(sample::read_task(Some(&"x".to_string())), sample::Task::Search(q) if q == "x"));
}

// ---------------------------------------------------------------------------
// Building and repairing, step by step
// ---------------------------------------------------------------------------

fn cf_file(kind: &str, versions: &[&str]) -> CfFile {
    CfFile {
        id: 4_500_123,
        name: "tf.jar".to_string(),
        kind: kind.to_string(),
        filesize: 7,
        versions: strings(versions),
    }
}

fn cf_project(files: Vec<CfFile>) -> CfProject {
    CfProject {
        id: 1,
        title: "TF".to_string(),
        summary: String::new(),
        categories: Vec::new(),
        files,
    }
}

/// The work on a pack whose mods require nothing.
fn run_of(mods: &[&str], cf: &[&str]) -> BuildRun {
    let mut c = Closure::new("1.21.1", "fabric", &strings(mods));
    while let ClosureStep::Versions { .. } = c.step() {
        c.on_versions(Ok(vec![release("1.0", &[], Vec::new())]));
    }
    BuildRun::new(started(mods, cf), c)
}

fn next(run: &mut BuildRun) -> (Vec<String>, BuildStep) {
    let (updates, step) = run.step(false, true);
    (updates.into_iter().map(|u| u.text).collect(), step.unwrap())
}

#[test]
fn a_pack_is_built_step_by_step() {
    let mut run = run_of(&["sodium", "sodium", "bare"], &["tf", "gone"]);

    let (updates, step) = next(&mut run);
    assert_eq!(updates, vec!["解析 CF mod tf (1/2)"]);
    assert!(matches!(step, BuildStep::LookUp { slug } if slug == "tf"));
    assert!(run.to_fetch().is_none());
    run.on_lookup(Ok(cf_project(vec![
        cf_file("release", &["1.20.1", "Forge"]),
        cf_file("release", &["1.21.1", "Fabric"]),
    ])));
    assert!(matches!(next(&mut run).1, BuildStep::Fetch));
    assert_eq!(run.to_fetch().unwrap().1.versions[0], "1.21.1");
    run.on_fetch(&Ok(CfFileMeta {
        mod_id: 1,
        file_id: 4_500_123,
        filename: "tf.jar".to_string(),
        url: "u".to_string(),
        size: 7,
        sha1: "1".to_string(),
        sha512: "2".to_string(),
        depends: strings(&["fabric-api", "lost", "sodium"]),
    }));
    assert!(matches!(next(&mut run).1, BuildStep::LookUp { slug } if slug == "gone"));
    run.on_lookup(Err("404".to_string()));

    assert!(matches!(next(&mut run).1, BuildStep::FindMod { slug } if slug == "fabric-api"));
    run.on_mod(true);
    assert!(matches!(next(&mut run).1, BuildStep::FindMod { slug } if slug == "lost"));
    run.on_mod(false);

    let (updates, step) = next(&mut run);
    assert_eq!(updates, vec!["正在收集 mod sodium (1/4)"]);
    assert!(matches!(step, BuildStep::Versions { slug } if slug == "sodium"));
    run.on_versions(Ok(vec![release("1.0", &[], vec![file("sodium.jar", true, 10)])]));
    assert_eq!(run.next_size(), 10);
    assert!(matches!(next(&mut run).1, BuildStep::Sides { slug } if slug == "sodium"));
    run.on_sides(None);

    // The repetition is passed over.
    let (updates, step) = next(&mut run);
    assert_eq!(updates, vec!["正在收集 mod sodium (2/4)", "正在收集 mod bare (3/4)"]);
    assert!(matches!(step, BuildStep::Versions { slug } if slug == "bare"));
    run.on_versions(Ok(Vec::new()));
    assert!(matches!(next(&mut run).1, BuildStep::Versions { slug } if slug == "fabric-api"));
    run.on_versions(Err("down".to_string()));
    let (updates, step) = next(&mut run);
    assert_eq!(updates, vec!["获取 fabric loader 版本"]);
    assert!(matches!(step, BuildStep::LoaderVersion));

    // Two chosen from CurseForge, four to collect: two files, and the rest is reported.
    assert_eq!(run.pack.files.len(), 2);
    assert_eq!(run.pack.conflicts.len(), 5);
    assert_eq!(run.pack.auto_added, vec!["fabric-api"]);
    assert_eq!(run.pack.total_size, 17);
}

#[test]
fn the_work_on_a_pack_stops() {
    let mut run = run_of(&[], &["tf"]);
    let switched_off = run.step(false, false).1;
    match switched_off {
        Err(e) => assert!(e.contains("[curseforge]")),
        Ok(_) => panic!("an error was expected"),
    }
    assert_eq!(run.step(true, true).1.err(), Some(TOOL_INTERRUPTED.to_string()));
    assert!(run.step(true, true).0.is_empty());
    next(&mut run);
    run.on_lookup(Ok(cf_project(Vec::new())));
    match run.step(false, true).1 {
        Err(e) => {
            assert!(e.starts_with("没有任何 mod 能解析出兼容版本, 组包中止. 详情: "));
            assert!(e.contains("CF 上没有 1.21.1 / fabric 的兼容文件"));
        }
        Ok(_) => panic!("an error was expected"),
    }

    let mut run = run_of(&[], &["tf"]);
    next(&mut run);
    run.on_lookup(Ok(cf_project(vec![cf_file("beta", &["1.21.1", "Fabric"])])));
    run.on_fetch(&Err("timeout".to_string()));
    assert_eq!(
        render_json(&run.pack.conflicts[0]),
        "{\"issue\":\"CF 文件获取失败: timeout\",\"slug\":\"tf\"}"
    );
}

#[test]
fn answers_to_a_repair_are_taken_in_as_they_come() {
    let index = || parse_json("{\"name\":\"p\",\"files\":[{\"path\":\"mods/a.jar\"}]}").unwrap();
    let found = |slug: &str, name: &str| RepairOutcome::Mod {
        slug: slug.to_string(),
        version: release("2.0", &[], vec![file(name, true, 3)]),
        file: 0,
        env: Some(("required".to_string(), "unsupported".to_string())),
    };
    let missing = RepairOutcome::Conflict { slug: "c".to_string(), issue: "无".to_string() };
    let run = |outcomes: Vec<RepairOutcome>| {
        let mut r = match PackRepair::start(index(), Vec::new(), Vec::new()) {
            Ok(r) => r,
            Err(e) => panic!("{e}"),
        };
        let mut updates = Vec::new();
        for (i, o) in outcomes.iter().enumerate() {
            updates.push(r.take_one(o, i + 1, 4));
        }
        updates.push(r.ready());
        (r, updates)
    };
    let (r, updates) = run(vec![found("b", "b.jar"), missing, found("a", "a.jar")]);
    let texts: Vec<&str> = updates.iter().map(|u| u.text.as_str()).collect();
    assert_eq!(
        texts,
        vec![
            "正在收集 mod b (1/4)",
            "正在收集 mod c (2/4)",
            "正在收集 mod a (3/4)",
            "写入整合包文件 (共 2 个 mod)"
        ]
    );
    assert_eq!((updates[1].current, updates[1].total), (Some(2), Some(4)));
    assert_eq!((updates[3].current, updates[3].total), (Some(2), Some(2)));
    assert_eq!(r.existing, vec!["mods/a.jar", "mods/b.jar"]);
    assert_eq!(r.conflicts, vec!["c: 无"]);
    assert_eq!(r.added.len(), 1);

    let other = run(vec![found("d", "d.jar"), found("b", "b.jar")]).0;
    let turned = run(vec![found("b", "b.jar"), found("d", "d.jar")]).0;
    let sorted = |r: &PackRepair| {
        let mut p = r.existing.clone();
        p.sort();
        p
    };
    assert_eq!(sorted(&other), sorted(&turned));
}

#[test]
fn the_release_for_a_repair() {
    let two = vec![release("9", &[], vec![file("x", false, 1), file("y", true, 1)])];
    match choose_release("s", "1.20", "forge", Ok(two)) {
        Ok((version, k)) => {
            assert_eq!(version.version_number, "9");
            assert_eq!(k, 1);
        }
        Err(_) => panic!("a release was expected"),
    }
    match choose_release("s", "1.20", "forge", Ok(Vec::new())) {
        Err(RepairOutcome::Conflict { slug, issue }) => {
            assert_eq!(slug, "s");
            assert_eq!(issue, "无 1.20/forge 兼容版本");
        }
        _ => panic!("a conflict was expected"),
    }
}
