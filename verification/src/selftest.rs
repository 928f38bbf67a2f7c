//! The self-test: what is asked for, and how the answers are checked.

use vstd::prelude::*;
use vstd::string::StringExecFns;

use crate::json::Json;
#[allow(unused_imports)]
use crate::json::JsonView;
use crate::modrinth::Hit;
#[allow(unused_imports)]
use crate::number::dec;
use crate::number::u64_to_string;
#[allow(unused_imports)]
use crate::tools::build_pack::{holds_index, index_tree, pack_read, BuildArgs, FileView};
use crate::tools::repair::read_pack;

verus! {

/// The game version that is tried.
pub const GAME_VERSION: &'static str = "1.21.1";

/// The pack that is built.
pub const BUILD_ARGS: &'static str =
    "{\"name\":\"RustAgent-selftest\",\"game_version\":\"1.21.1\",\"loader\":\"fabric\",\"mod_slugs\":[\"sodium\",\"fabric-api\"]}";

/// A found mod.
pub fn hit_line(h: &Hit) -> (r: String)
    ensures
        r@ == "  - "@ + h.title@ + " ("@ + h.slug@ + ") | "@ + dec(h.downloads as nat) + " 下载"@,
{
    "  - ".to_string().concat(h.title.as_str()).concat(" (").concat(h.slug.as_str()).concat(
        ") | ",
    ).concat(u64_to_string(h.downloads).as_str()).concat(" 下载")
}

/// Refuses a search that has found nothing.
pub fn check_hits(hits: &Vec<Hit>) -> (r: Result<(), String>)
    ensures
        match r {
            Ok(_) => hits@.len() > 0,
            Err(e) => hits@.len() == 0 && e@ == "搜索无结果, facets 过滤可能有问题"@,
        },
{
    if hits.len() == 0 {
        return Err("搜索无结果, facets 过滤可能有问题".to_string());
    }
    Ok(())
}

/// Where a built pack was written to.
pub fn output_path(report: &Json) -> (r: Result<String, String>)
    ensures
        match r {
            Ok(p) => report.tree().str_at("output_path"@) == Some(p@),
            Err(e) => report.tree().str_at("output_path"@) is None && e@
                == "组包结果缺少 output_path"@,
        },
{
    match report.str_at("output_path") {
        Some(p) => Ok(p.clone()),
        None => Err("组包结果缺少 output_path".to_string()),
    }
}

/// What is wrong with the description of a pack.
pub open spec fn index_flaw(index: JsonView) -> Option<Seq<char>> {
    if !(index.get("dependencies"@) matches Some(d) && d is Object) {
        Some("schema 校验失败: dependencies 必须是对象"@)
    } else if index.array_at("files"@) is None {
        Some("schema 校验失败: files 必须是数组"@)
    } else {
        None
    }
}

/// Checks the description of a pack.
pub fn check_index(index: &Json) -> (r: Result<(), String>)
    ensures
        match r {
            Ok(_) => index_flaw(index.tree()) is None,
            Err(e) => index_flaw(index.tree()) == Some(e@),
        },
{
    let ok = match index.get("dependencies") {
        Some(d) => match d {
            Json::Object(_) => true,
            _ => false,
        },
        None => false,
    };
    if !ok {
        return Err("schema 校验失败: dependencies 必须是对象".to_string());
    }
    if index.array_at("files").is_none() {
        return Err("schema 校验失败: files 必须是数组".to_string());
    }
    Ok(())
}

/// Checks the file of a pack.
pub fn check_pack(bytes: &[u8]) -> (r: Result<(), String>)
    ensures
        is_checked(r, bytes@),
{
    match read_pack(bytes) {
        Ok(index) => check_index(&index),
        Err(e) => Err(e),
    }
}

/// Whether the file of a pack was checked: what cannot be read is refused, and so is a
/// description with a flaw.
pub open spec fn is_checked(r: Result<(), String>, bytes: Seq<u8>) -> bool {
    match pack_read(bytes) {
        Err(e) => r matches Err(f) && f@ == e,
        Ok(index) => match index_flaw(index) {
            Some(e) => r matches Err(f) && f@ == e,
            None => r is Ok,
        },
    }
}

/// A pack that was built passes the check.
pub proof fn lemma_built_pack_passes(
    a: BuildArgs,
    key: Seq<char>,
    loader_version: Seq<char>,
    files: Seq<FileView>,
    bytes: Seq<u8>,
    r: Result<(), String>,
)
    requires
        holds_index(bytes, index_tree(a, key, loader_version, files)),
        is_checked(r, bytes),
    ensures
        r is Ok,
{
    reveal_with_fuel(crate::json::object_map, 8);
    reveal_strlit("files");
    reveal_strlit("dependencies");
    assert("files"@.len() == 5 && "dependencies"@.len() == 12);
    assert(index_flaw(index_tree(a, key, loader_version, files)) is None);
}

} // verus!
