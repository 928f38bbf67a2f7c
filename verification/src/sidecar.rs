//! What is kept beside a file that was fetched from CurseForge, so that it is fetched only once.

use vstd::prelude::*;

use crate::curseforge::{cdn_url, download_report, CfFile, CfFileMeta};
#[allow(unused_imports)]
use crate::curseforge::cdn_address;
#[allow(unused_imports)]
use crate::json::{
    json_compact, json_parsed, lemma_plain_array, lemma_plain_object, object, object_map,
    pair_views, reads_as, str_array, str_items, JsonNumber, JsonView,
};
use crate::json::{object_of, render_json, Json};
#[allow(unused_imports)]
use crate::text::views;

verus! {

/// The mathematical value of a [`CfFileMeta`].
#[verifier::ext_equal]
pub struct MetaView {
    pub mod_id: u64,
    pub file_id: u64,
    pub filename: Seq<char>,
    pub url: Seq<char>,
    pub sha1: Seq<char>,
    pub sha512: Seq<char>,
    pub size: u64,
    pub depends: Seq<Seq<char>>,
}

impl View for CfFileMeta {
    type V = MetaView;

    open spec fn view(&self) -> MetaView {
        MetaView {
            mod_id: self.mod_id,
            file_id: self.file_id,
            filename: self.filename@,
            url: self.url@,
            sha1: self.sha1@,
            sha512: self.sha512@,
            size: self.size,
            depends: views(self.depends@),
        }
    }
}

/// The members of what is kept of a file.
pub open spec fn meta_members(m: MetaView) -> Seq<(Seq<char>, JsonView)> {
    seq![
        ("mod_id"@, JsonView::Number(JsonNumber::Unsigned(m.mod_id))),
        ("file_id"@, JsonView::Number(JsonNumber::Unsigned(m.file_id))),
        ("filename"@, JsonView::Str(m.filename)),
        ("url"@, JsonView::Str(m.url)),
        ("sha1"@, JsonView::Str(m.sha1)),
        ("sha512"@, JsonView::Str(m.sha512)),
        ("size"@, JsonView::Number(JsonNumber::Unsigned(m.size))),
        ("depends"@, str_array(m.depends)),
    ]
}

/// What is kept of a file.
pub open spec fn meta_tree(m: MetaView) -> JsonView {
    object(meta_members(m))
}

/// Whether a tree says all of a file, each part of it under its own name.
pub open spec fn says_all(t: JsonView, m: MetaView) -> bool {
    &&& t.u64_at("mod_id"@) == Some(m.mod_id)
    &&& t.u64_at("file_id"@) == Some(m.file_id)
    &&& t.str_at("filename"@) == Some(m.filename)
    &&& t.str_at("url"@) == Some(m.url)
    &&& t.str_at("sha1"@) == Some(m.sha1)
    &&& t.str_at("sha512"@) == Some(m.sha512)
    &&& t.u64_at("size"@) == Some(m.size)
    &&& t.get("depends"@) == Some(str_array(m.depends))
}

/// The text to keep beside a file.
pub fn sidecar_text(m: &CfFileMeta) -> (r: String)
    ensures
        r@ == json_compact(meta_tree(m@)),
        reads_as(r@, meta_tree(m@)),
{
    let list = vec![
        ("mod_id", Json::number(m.mod_id)),
        ("file_id", Json::number(m.file_id)),
        ("filename", Json::string(m.filename.as_str())),
        ("url", Json::string(m.url.as_str())),
        ("sha1", Json::string(m.sha1.as_str())),
        ("sha512", Json::string(m.sha512.as_str())),
        ("size", Json::number(m.size)),
        ("depends", Json::strings(&m.depends)),
    ];
    assert(pair_views(list@) =~= meta_members(m@));
    proof {
        lemma_plain_array(str_items(views(m.depends@)), 98);
        lemma_plain_object(meta_members(m@), 99);
    }
    render_json(&object_of(list))
}

/// How the fetching of a file begins.
pub enum FetchStart {
    /// It was fetched before; nothing is asked for.
    Known(CfFileMeta),
    /// It is to be downloaded from an address, with what to report before.
    Download { url: String, report: String },
}

/// Begins to fetch a file, where `kept` is what was kept beside it, if it can be read.
pub fn start_fetch(kept: Option<CfFileMeta>, file: &CfFile) -> (r: FetchStart)
    ensures
        match (r, kept) {
            (FetchStart::Known(m), Some(k)) => m == k,
            (FetchStart::Download { url, report }, None) => url@ == cdn_address(
                file.id,
                file.name@,
            ) && report@ == "正在下载 "@ + file.name@ + " (CurseForge 直链)"@,
            _ => false,
        },
{
    match kept {
        Some(m) => FetchStart::Known(m),
        None => FetchStart::Download {
            url: cdn_url(file.id, file.name.as_str()),
            report: download_report(file.name.as_str()),
        },
    }
}

/// Nothing of a file is lost in what is kept of it: the text is read as a tree that says all of
/// it, and of no other file.
pub proof fn lemma_sidecar_says_all(m: MetaView, text: Seq<char>)
    requires
        reads_as(text, meta_tree(m)),
    ensures
        json_parsed(text) matches Ok(t) && says_all(t, m) && forall|other: MetaView| #[trigger]
            says_all(t, other) ==> other == m,
{
    reveal_with_fuel(object_map, 9);
    reveal_strlit("mod_id");
    reveal_strlit("file_id");
    reveal_strlit("filename");
    reveal_strlit("url");
    reveal_strlit("sha1");
    reveal_strlit("sha512");
    reveal_strlit("size");
    reveal_strlit("depends");
    assert("mod_id"@.len() == 6 && "file_id"@.len() == 7 && "filename"@.len() == 8 && "url"@.len()
        == 3 && "sha1"@.len() == 4 && "sha512"@.len() == 6 && "size"@.len() == 4
        && "depends"@.len() == 7);
    assert("mod_id"@[0] == 'm' && "sha512"@[0] == 's' && "sha1"@[1] == 'h' && "size"@[1] == 'i'
        && "file_id"@[0] == 'f' && "depends"@[0] == 'd');
    let t = meta_tree(m);
    assert(says_all(t, m));
    assert forall|other: MetaView| #[trigger] says_all(t, other) implies other == m by {
        assert(str_items(other.depends) == str_items(m.depends));
        assert forall|i: int| 0 <= i < m.depends.len() implies other.depends[i] == m.depends[i] by {
            assert(str_items(other.depends)[i] == str_items(m.depends)[i]);
        }
        assert(other.depends.len() == str_items(other.depends).len());
        assert(other =~= m);
    }
}

} // verus!
