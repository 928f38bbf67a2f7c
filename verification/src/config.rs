//! Settings of the program.

use vstd::prelude::*;
use vstd::string::StringExecFns;

#[allow(unused_imports)]
use crate::json::opt_view;
use crate::settings_file::{
    bool_value, document_text_of, float_value, integer_value, open_section, parse_document,
    remove_key, set_keep_decor, text_value,
};
#[allow(unused_imports)]
use crate::settings_file::{
    bare, doc_outside, doc_section, document_text, float_bits, kept, reads_back, same_but,
    same_scalar, scalar_at, text_holds, text_outside, text_section, Entry, Scalar, Section,
};
use crate::llm::split_thinking_entries;
#[allow(unused_imports)]
use crate::llm::thinking_entries;
use crate::text::{chars_of, contains_char, eq_ignore_ascii_case, is_empty, str_eq, trim};
#[allow(unused_imports)]
use crate::text::{ascii_lower, lemma_rfind_char, rfind_char, trim_spec, views};

verus! {

/// Settings of the language model service. Prices are decimal texts as a TOML float is written,
/// in the currency unit per million tokens.
pub struct LlmConfig {
    pub base_url: String,
    pub api_key: String,
    pub model: String,
    pub context_length: u64,
    pub price_input_per_m: String,
    pub price_output_per_m: String,
    /// The number of tokens after which turns are refused; 0 for no limit.
    pub token_budget: u64,
    /// How often one turn may call the model.
    pub max_tool_iterations: u32,
    /// Extra request fields: `key=value` entries separated by commas, or `auto` for none. Commas
    /// within quotes or brackets do not separate.
    pub thinking: Option<String>,
}

/// Where packs are written to.
pub struct OutputConfig {
    pub download_dir: String,
}

/// Where the data of the user is kept.
pub struct DatabaseConfig {
    pub path: Option<String>,
}

/// Settings of the web interface.
pub struct UiConfig {
    pub port: u16,
}

/// Whether CurseForge is asked too.
pub struct CurseforgeConfig {
    pub enabled: bool,
}

/// All settings.
pub struct Config {
    pub llm: LlmConfig,
    pub output: OutputConfig,
    pub database: DatabaseConfig,
    pub ui: UiConfig,
    pub curseforge: CurseforgeConfig,
}

/// The context length where none is set.
pub fn default_context_length() -> (r: u64)
    ensures
        r == 32768,
{
    32768
}

/// How often one turn may call the model where nothing is set.
pub fn default_max_tool_iterations() -> (r: u32)
    ensures
        r == 16,
{
    16
}

/// The port of the web interface where none is set.
pub fn default_ui_port() -> (r: u16)
    ensures
        r == 1780,
{
    1780
}

impl Default for UiConfig {
    fn default() -> (r: UiConfig)
        ensures
            r.port == 1780,
    {
        UiConfig { port: default_ui_port() }
    }
}

impl Default for DatabaseConfig {
    fn default() -> (r: DatabaseConfig)
        ensures
            r.path is None,
    {
        DatabaseConfig { path: None }
    }
}

/// Whether a price is below zero: it has a minus sign and is neither zero nor undefined.
pub open spec fn is_negative(price: Seq<char>) -> bool {
    &&& price.len() > 0
    &&& price[0] == '-'
    &&& price == "-inf"@ || exists|i: int|
        1 <= i < price.len() && '1' <= #[trigger] price[i] <= '9' && !price.take(i).contains('e')
}

/// Whether a price is below zero.
pub fn price_is_negative(price: &str) -> (r: bool)
    ensures
        r == is_negative(price@),
{
    let v = chars_of(price);
    if v.len() == 0 || v[0] != '-' {
        return false;
    }
    if str_eq(price, "-inf") {
        return true;
    }
    let mut i: usize = 1;
    assert(v@.take(1) =~= seq!['-']);
    while i < v.len() && v[i] != 'e'
        invariant
            v@ == price@,
            1 <= i <= v@.len(),
            v@[0] == '-',
            !v@.take(i as int).contains('e'),
            forall|k: int| 1 <= k < i ==> !('1' <= #[trigger] v@[k] <= '9'),
        decreases v@.len() - i,
    {
        if '1' <= v[i] && v[i] <= '9' {
            return true;
        }
        let ghost longer = v@.take(i + 1);
        assert forall|k: int| 0 <= k < longer.len() implies #[trigger] longer[k] != 'e' by {
            if k < i {
                assert(v@.take(i as int)[k] == longer[k]);
                assert(v@.take(i as int).contains(longer[k]));
            }
        }
        i += 1;
    }
    proof {
        assert forall|k: int| 1 <= k < price@.len() && '1' <= #[trigger] price@[k] <= '9' implies
            price@.take(k).contains('e') by {
            assert(k > i);
            assert(price@.take(k)[i as int] == 'e');
        }
    }
    false
}

/// Whether an entry of a `thinking` setting is acceptable: blank, `auto`, or with a `=`.
pub open spec fn thinking_entry_ok(seg: Seq<char>) -> bool {
    let t = trim_spec(seg);
    t.len() == 0 || ascii_lower(t) == ascii_lower("auto"@) || t.contains('=')
}

/// Whether every entry of a `thinking` setting is acceptable. A comma within quotes or brackets
/// does not end an entry.
pub open spec fn thinking_ok(t: Seq<char>) -> bool {
    let p = thinking_entries(t);
    forall|i: int| 0 <= i < p.len() ==> thinking_entry_ok(#[trigger] p[i])
}

fn check_thinking(t: &str) -> (r: bool)
    ensures
        r == thinking_ok(t@),
{
    let parts = split_thinking_entries(t);
    let ghost p = views(parts@);
    for i in 0..parts.len()
        invariant
            p == views(parts@),
            p == thinking_entries(t@),
            forall|j: int| 0 <= j < i ==> thinking_entry_ok(#[trigger] p[j]),
    {
        assert(p[i as int] == parts@[i as int]@);
        let seg = trim(parts[i].as_str());
        let ok = is_empty(seg.as_str()) || eq_ignore_ascii_case(seg.as_str(), "auto")
            || contains_char(seg.as_str(), '=');
        if !ok {
            return false;
        }
    }
    true
}

/// What `Url::parse` makes of an address: its scheme, or the text of the error.
pub uninterp spec fn url_scheme(s: Seq<char>) -> Result<Seq<char>, Seq<char>>;

/// The view of a scheme or of the error.
pub open spec fn scheme_view(r: Result<String, String>) -> Result<Seq<char>, Seq<char>> {
    match r {
        Ok(s) => Ok(s@),
        Err(e) => Err(e@),
    }
}

/// `reqwest::Url::parse` and `Url::scheme`: the scheme of an address, or the error as text.
#[verifier::external_body]
pub(crate) fn parse_url_scheme(s: &str) -> (r: Result<String, String>)
    ensures
        scheme_view(r) == url_scheme(s@),
{
    reqwest::Url::parse(s).map(|u| u.scheme().to_string()).map_err(|e| e.to_string())
}

/// What is wrong with settings, where the scheme of the service's address is the given one.
pub open spec fn flaw(c: Config, scheme: Result<Seq<char>, Seq<char>>) -> Option<Seq<char>> {
    match scheme {
        Err(e) => Some("LLM base_url 不是有效 URL: "@ + c.llm.base_url@ + ": "@ + e),
        Ok(s) => if s != "http"@ && s != "https"@ {
            Some("LLM base_url 只支持 http 或 https"@)
        } else if c.llm.context_length < 256 {
            Some("context_length 不能小于 256"@)
        } else if is_negative(c.llm.price_input_per_m@) || is_negative(c.llm.price_output_per_m@) {
            Some("token 单价不能为负数"@)
        } else if c.llm.max_tool_iterations == 0 {
            Some("max_tool_iterations 必须大于 0"@)
        } else if c.llm.thinking matches Some(t) && !thinking_ok(t@) {
            Some(
                "llm.thinking 应为 key=value (逗号分隔多组) 或 auto, 例如 enable_thinking=false"@,
            )
        } else if trim_spec(c.output.download_dir@).len() == 0 {
            Some("output.download_dir 不能为空"@)
        } else {
            None
        },
    }
}

/// Whether a check has found exactly the given flaw.
pub open spec fn found(r: Result<(), String>, f: Option<Seq<char>>) -> bool {
    match r {
        Ok(_) => f is None,
        Err(e) => f == Some(e@),
    }
}

impl Config {
    /// The path of the database.
    pub fn db_path(&self) -> (r: String)
        ensures
            r@ == (match self.database.path {
                Some(p) => p@,
                None => "userdata/userdata.db"@,
            }),
    {
        match &self.database.path {
            Some(p) => p.clone(),
            None => "userdata/userdata.db".to_string(),
        }
    }

    /// Checks the settings, where the scheme of the service's address is the given one.
    pub fn validate_with(&self, scheme: &Result<String, String>) -> (r: Result<(), String>)
        ensures
            found(r, flaw(*self, scheme_view(*scheme))),
    {
        match scheme {
            Err(e) => {
                return Err(
                    "LLM base_url 不是有效 URL: ".to_string().concat(
                        self.llm.base_url.as_str(),
                    ).concat(": ").concat(e.as_str()),
                );
            },
            Ok(s) => if !str_eq(s.as_str(), "http") && !str_eq(s.as_str(), "https") {
                return Err("LLM base_url 只支持 http 或 https".to_string());
            },
        }
        if self.llm.context_length < 256 {
            return Err("context_length 不能小于 256".to_string());
        }
        if price_is_negative(self.llm.price_input_per_m.as_str()) || price_is_negative(
            self.llm.price_output_per_m.as_str(),
        ) {
            return Err("token 单价不能为负数".to_string());
        }
        if self.llm.max_tool_iterations == 0 {
            return Err("max_tool_iterations 必须大于 0".to_string());
        }
        match &self.llm.thinking {
            Some(t) => if !check_thinking(t.as_str()) {
                return Err(
                    "llm.thinking 应为 key=value (逗号分隔多组) 或 auto, 例如 enable_thinking=false".to_string(),
                );
            },
            None => {},
        }
        if is_empty(trim(self.output.download_dir.as_str()).as_str()) {
            return Err("output.download_dir 不能为空".to_string());
        }
        Ok(())
    }

    /// Checks the settings.
    pub fn validate(&self) -> (r: Result<(), String>)
        ensures
            found(r, flaw(*self, url_scheme(self.llm.base_url@))),
    {
        let scheme = parse_url_scheme(self.llm.base_url.as_str());
        self.validate_with(&scheme)
    }
}

/// The directory of a path; the current one where the path has none.
pub open spec fn dir_or_here(parent: Option<Seq<char>>) -> Seq<char> {
    match parent {
        Some(p) => if p.len() == 0 {
            "."@
        } else {
            p
        },
        None => "."@,
    }
}

/// The directory of the user's data, where `parent` is the directory part of the path of the
/// database.
pub fn data_dir_of(parent: Option<String>) -> (r: String)
    ensures
        r@ == dir_or_here(opt_view(parent)),
{
    match parent {
        Some(p) => if is_empty(p.as_str()) {
            ".".to_string()
        } else {
            p
        },
        None => ".".to_string(),
    }
}

/// Whether a path is read alike on every system: it has no backslash and no colon, and it does
/// not begin with two slashes.
pub open spec fn is_portable(s: Seq<char>) -> bool {
    &&& forall|i: int| 0 <= i < s.len() ==> #[trigger] s[i] != '\\' && s[i] != ':'
    &&& !(s.len() >= 2 && s[0] == '/' && s[1] == '/')
}

/// A path without the slashes and the parts `.` at its end, which say nothing there.
pub open spec fn without_tail(s: Seq<char>) -> Seq<char>
    decreases s.len(),
{
    let n = s.len() as int;
    if n > 1 && (s[n - 1] == '/' || (s[n - 1] == '.' && s[n - 2] == '/')) {
        without_tail(s.drop_last())
    } else {
        s
    }
}

/// The directory part of a path: what stands before its last part. The root and the empty path
/// have none.
pub open spec fn parent_of(s: Seq<char>) -> Option<Seq<char>> {
    let t = without_tail(s);
    let k = rfind_char(t, '/');
    if t.len() == 0 || t == seq!['/'] {
        None
    } else if k < 0 {
        Some(Seq::empty())
    } else {
        Some(without_tail(t.take(k + 1)))
    }
}

/// `std::path::Path::parent`: the path without its last part, where it has one. Slashes that are
/// repeated or stand at the end say nothing, and neither do parts `.` but for one at the
/// beginning. Backslashes, colons and two slashes at the beginning mean other things on other
/// systems; of paths with those nothing is said.
#[verifier::external_body]
pub(crate) fn parent_dir(path: &str) -> (r: Option<String>)
    ensures
        is_portable(path@) ==> opt_view(r) == parent_of(path@),
{
    std::path::Path::new(path).parent().map(|p| p.display().to_string())
}

impl Config {
    /// The directory of the user's data: the one that the database is in, and the current one
    /// where its path names no directory.
    pub fn data_dir(&self) -> (r: String)
        ensures
            self.database.path is None ==> r@ == "userdata"@,
            self.database.path matches Some(p) ==> (is_portable(p@) ==> r@ == dir_or_here(
                parent_of(p@),
            )),
    {
        let path = self.db_path();
        let parent = parent_dir(path.as_str());
        proof {
            lemma_default_path();
        }
        data_dir_of(parent)
    }
}

/// The directory of the database that is used where none is set.
proof fn lemma_default_path()
    ensures
        is_portable("userdata/userdata.db"@),
        parent_of("userdata/userdata.db"@) == Some("userdata"@),
        "userdata"@.len() > 0,
{
    reveal_strlit("userdata/userdata.db");
    reveal_strlit("userdata");
    reveal_with_fuel(without_tail, 2);
    let s = "userdata/userdata.db"@;
    lemma_rfind_char(s, '/');
    assert(s[8] == '/');
    assert(rfind_char(s, '/') == 8);
    assert(s.take(9).drop_last() =~= "userdata"@);
}

/// The directory part of a path is the beginning of it.
pub(crate) proof fn lemma_parent_is_prefix(s: Seq<char>)
    ensures
        parent_of(s) matches Some(p) ==> p.len() <= s.len() && p == s.take(p.len() as int),
        is_portable(s) ==> (parent_of(s) matches Some(p) ==> is_portable(p)),
{
    let t = without_tail(s);
    lemma_without_tail(s);
    let k = rfind_char(t, '/');
    lemma_rfind_char(t, '/');
    if k >= 0 {
        lemma_without_tail(t.take(k + 1));
    }
    if let Some(p) = parent_of(s) {
        assert(p =~= s.take(p.len() as int));
    }
}

proof fn lemma_without_tail(s: Seq<char>)
    ensures
        without_tail(s).len() <= s.len(),
        without_tail(s) == s.take(without_tail(s).len() as int),
    decreases s.len(),
{
    let n = s.len() as int;
    if n > 1 && (s[n - 1] == '/' || (s[n - 1] == '.' && s[n - 2] == '/')) {
        lemma_without_tail(s.drop_last());
    }
    assert(without_tail(s) =~= s.take(without_tail(s).len() as int));
}

/// Whether a path is read alike on every system.
pub(crate) fn check_portable(s: &str) -> (r: bool)
    ensures
        r == is_portable(s@),
{
    let v = chars_of(s);
    if v.len() >= 2 && v[0] == '/' && v[1] == '/' {
        return false;
    }
    for i in 0..v.len()
        invariant
            v@ == s@,
            forall|j: int| 0 <= j < i ==> #[trigger] s@[j] != '\\' && s@[j] != ':',
    {
        if v[i] == '\\' || v[i] == ':' {
            assert(s@[i as int] == v@[i as int]);
            return false;
        }
    }
    true
}

// ---------------------------------------------------------------------------
// Writing settings back
// ---------------------------------------------------------------------------

/// The entries of the section `llm` after the settings were written into it: each value takes
/// the place of the old one and keeps the comments around it; `thinking` goes where it is not
/// set; all other entries stay.
pub open spec fn llm_entries(m: Map<Seq<char>, Entry>, llm: LlmConfig) -> Map<Seq<char>, Entry> {
    let m1 = kept(m, "base_url"@, Scalar::Text(llm.base_url@));
    let m2 = kept(m1, "api_key"@, Scalar::Text(llm.api_key@));
    let m3 = kept(m2, "model"@, Scalar::Text(llm.model@));
    let m4 = kept(m3, "context_length"@, Scalar::Integer(llm.context_length as i64));
    let m5 = kept(m4, "price_input_per_m"@, Scalar::Float(float_bits(llm.price_input_per_m@)));
    let m6 = kept(m5, "price_output_per_m"@, Scalar::Float(float_bits(llm.price_output_per_m@)));
    let m7 = kept(m6, "token_budget"@, Scalar::Integer(llm.token_budget as i64));
    let m8 = kept(m7, "max_tool_iterations"@, Scalar::Integer(llm.max_tool_iterations as i64));
    match llm.thinking {
        Some(t) => kept(m8, "thinking"@, Scalar::Text(t@)),
        None => m8.remove("thinking"@),
    }
}

/// The settings of the service, written into a section: what surrounds its header stays, and a
/// section that does not exist yet is made.
pub open spec fn llm_section(s: Section, llm: LlmConfig) -> Section {
    match s {
        Section::Table(h, m) => Section::Table(h, llm_entries(m, llm)),
        _ => Section::Table(bare(), llm_entries(Map::empty(), llm)),
    }
}

/// Whether CurseForge is asked, written into a section in the same way.
pub open spec fn curseforge_section(s: Section, enabled: bool) -> Section {
    match s {
        Section::Table(h, m) => Section::Table(h, kept(m, "enabled"@, Scalar::Bool(enabled))),
        _ => Section::Table(bare(), kept(Map::empty(), "enabled"@, Scalar::Bool(enabled))),
    }
}

/// Whether `r` is the text of a document in which the section `name` is `section` and all else
/// is as in `text`, and reads as that document does.
pub open spec fn is_rewritten(
    r: Seq<char>,
    text: Seq<char>,
    name: Seq<char>,
    section: Section,
) -> bool {
    &&& exists|d: toml_edit::DocumentMut| #[trigger]
        document_text(d) == r && doc_section(d, name) == section && doc_outside(d, name)
            == text_outside(text, name)
    &&& text_holds(r, name, section)
    &&& forall|other: Seq<char>|
        other != name ==> #[trigger] text_holds(r, other, text_section(text, other)->Ok_0)
}

/// Writes the settings of the service into the text of a settings file.
pub fn save_llm(path: &str, text: &str, llm: &LlmConfig) -> (r: Result<String, String>)
    ensures
        match (r, text_section(text@, "llm"@)) {
            (Ok(t), Ok(s)) => !(s is NotATable) && is_rewritten(
                t@,
                text@,
                "llm"@,
                llm_section(s, *llm),
            ),
            (Err(e), Ok(s)) => s is NotATable && e@ == "[llm] 段不是 TOML 表, 无法写回设置"@,
            (Err(e), Err(x)) => e@ == path@ + " 不是合法 TOML, 无法写回设置: "@ + x,
            _ => false,
        },
{
    let mut doc = match parse_document(text) {
        Ok(d) => d,
        Err(e) => {
            return Err(
                path.to_string().concat(" 不是合法 TOML, 无法写回设置: ").concat(e.as_str()),
            );
        },
    };
    let ghost start = doc;
    proof {
        assert forall|name: Seq<char>| true implies #[trigger] doc_section(start, name)
            == text_section(text@, name)->Ok_0 by {
            assert(crate::settings_file::read_section(Ok(start), name) == text_section(
                text@,
                name,
            ));
        }
    }
    if !open_section(&mut doc, "llm") {
        return Err("[llm] 段不是 TOML 表, 无法写回设置".to_string());
    }
    set_keep_decor(&mut doc, "llm", "base_url", text_value(llm.base_url.as_str()));
    set_keep_decor(&mut doc, "llm", "api_key", text_value(llm.api_key.as_str()));
    set_keep_decor(&mut doc, "llm", "model", text_value(llm.model.as_str()));
    set_keep_decor(&mut doc, "llm", "context_length", integer_value(llm.context_length as i64));
    set_keep_decor(
        &mut doc,
        "llm",
        "price_input_per_m",
        float_value(llm.price_input_per_m.as_str()),
    );
    set_keep_decor(
        &mut doc,
        "llm",
        "price_output_per_m",
        float_value(llm.price_output_per_m.as_str()),
    );
    set_keep_decor(&mut doc, "llm", "token_budget", integer_value(llm.token_budget as i64));
    set_keep_decor(
        &mut doc,
        "llm",
        "max_tool_iterations",
        integer_value(llm.max_tool_iterations as i64),
    );
    match &llm.thinking {
        Some(t) => {
            set_keep_decor(&mut doc, "llm", "thinking", text_value(t.as_str()));
        },
        None => {
            remove_key(&mut doc, "llm", "thinking");
        },
    }
    let out = document_text_of(&doc);
    assert(document_text(doc) == out@);
    proof {
        lemma_is_rewritten(doc, start, text@, "llm"@);
    }
    Ok(out)
}

/// A document that was changed in one section alone, and reads back, is written as it should be.
proof fn lemma_is_rewritten(
    d: toml_edit::DocumentMut,
    start: toml_edit::DocumentMut,
    text: Seq<char>,
    name: Seq<char>,
)
    requires
        reads_back(d),
        same_but(d, start, name),
        doc_outside(start, name) == text_outside(text, name),
        forall|n: Seq<char>| #[trigger] doc_section(start, n) == text_section(text, n)->Ok_0,
    ensures
        is_rewritten(document_text(d), text, name, doc_section(d, name)),
{
    assert(text_holds(document_text(d), name, doc_section(d, name)));
    assert forall|other: Seq<char>| other != name implies #[trigger] text_holds(
        document_text(d),
        other,
        text_section(text, other)->Ok_0,
    ) by {
        assert(doc_section(d, other) == doc_section(start, other));
        assert(text_holds(document_text(d), other, doc_section(d, other)));
    }
}

/// Writes whether CurseForge is asked into the text of a settings file.
pub fn save_curseforge(path: &str, text: &str, enabled: bool) -> (r: Result<String, String>)
    ensures
        match (r, text_section(text@, "curseforge"@)) {
            (Ok(t), Ok(s)) => !(s is NotATable) && is_rewritten(
                t@,
                text@,
                "curseforge"@,
                curseforge_section(s, enabled),
            ),
            (Err(e), Ok(s)) => s is NotATable && e@
                == "[curseforge] 段不是 TOML 表, 无法写回设置"@,
            (Err(e), Err(x)) => e@ == path@ + " 不是合法 TOML, 无法写回设置: "@ + x,
            _ => false,
        },
{
    let mut doc = match parse_document(text) {
        Ok(d) => d,
        Err(e) => {
            return Err(
                path.to_string().concat(" 不是合法 TOML, 无法写回设置: ").concat(e.as_str()),
            );
        },
    };
    let ghost start = doc;
    proof {
        assert forall|name: Seq<char>| true implies #[trigger] doc_section(start, name)
            == text_section(text@, name)->Ok_0 by {
            assert(crate::settings_file::read_section(Ok(start), name) == text_section(
                text@,
                name,
            ));
        }
    }
    if !open_section(&mut doc, "curseforge") {
        return Err("[curseforge] 段不是 TOML 表, 无法写回设置".to_string());
    }
    set_keep_decor(&mut doc, "curseforge", "enabled", bool_value(enabled));
    let out = document_text_of(&doc);
    assert(document_text(doc) == out@);
    proof {
        lemma_is_rewritten(doc, start, text@, "curseforge"@);
    }
    Ok(out)
}

/// The value that a text holds at a key of a section, where it holds one.
pub open spec fn setting(text: Seq<char>, name: Seq<char>, key: Seq<char>) -> Option<Scalar> {
    match text_section(text, name) {
        Ok(s) => scalar_at(s, key),
        Err(_) => None,
    }
}

/// The keys that the settings of the service are kept under.
pub open spec fn is_llm_key(key: Seq<char>) -> bool {
    key == "base_url"@ || key == "api_key"@ || key == "model"@ || key == "context_length"@ || key
        == "price_input_per_m"@ || key == "price_output_per_m"@ || key == "token_budget"@ || key
        == "max_tool_iterations"@ || key == "thinking"@
}

/// What was saved is what the next start reads: each setting of the service comes back out of
/// the text that `save_llm` made, `thinking` is absent where it was not set, and every other
/// value of the file, in this section and in the others, is the one that stood there before.
pub proof fn lemma_saved_llm_reads_back(r: Seq<char>, text: Seq<char>, llm: LlmConfig)
    requires
        text_section(text, "llm"@) is Ok,
        is_rewritten(r, text, "llm"@, llm_section(text_section(text, "llm"@)->Ok_0, llm)),
    ensures
        setting(r, "llm"@, "base_url"@) == Some(Scalar::Text(llm.base_url@)),
        setting(r, "llm"@, "api_key"@) == Some(Scalar::Text(llm.api_key@)),
        setting(r, "llm"@, "model"@) == Some(Scalar::Text(llm.model@)),
        setting(r, "llm"@, "context_length"@) == Some(Scalar::Integer(llm.context_length as i64)),
        same_scalar(
            setting(r, "llm"@, "price_input_per_m"@),
            Some(Scalar::Float(float_bits(llm.price_input_per_m@))),
        ),
        same_scalar(
            setting(r, "llm"@, "price_output_per_m"@),
            Some(Scalar::Float(float_bits(llm.price_output_per_m@))),
        ),
        setting(r, "llm"@, "token_budget"@) == Some(Scalar::Integer(llm.token_budget as i64)),
        setting(r, "llm"@, "max_tool_iterations"@) == Some(
            Scalar::Integer(llm.max_tool_iterations as i64),
        ),
        setting(r, "llm"@, "thinking"@) == (match llm.thinking {
            Some(t) => Some(Scalar::Text(t@)),
            None => None,
        }),
        forall|key: Seq<char>|
            !is_llm_key(key) ==> same_scalar(
                #[trigger] setting(r, "llm"@, key),
                setting(text, "llm"@, key),
            ),
        forall|name: Seq<char>, key: Seq<char>|
            name != "llm"@ && text_section(text, name) is Ok ==> same_scalar(
                #[trigger] setting(r, name, key),
                setting(text, name, key),
            ),
{
    reveal_strlit("base_url");
    reveal_strlit("api_key");
    reveal_strlit("model");
    reveal_strlit("context_length");
    reveal_strlit("price_input_per_m");
    reveal_strlit("price_output_per_m");
    reveal_strlit("token_budget");
    reveal_strlit("max_tool_iterations");
    reveal_strlit("thinking");
    assert("base_url"@.len() == 8 && "api_key"@.len() == 7 && "model"@.len() == 5);
    assert("context_length"@.len() == 14 && "token_budget"@.len() == 12);
    assert("price_input_per_m"@.len() == 17 && "price_output_per_m"@.len() == 18);
    assert("max_tool_iterations"@.len() == 19 && "thinking"@.len() == 8);
    assert("base_url"@[0] == 'b' && "thinking"@[0] == 't');
    let s = llm_section(text_section(text, "llm"@)->Ok_0, llm);
    let t = text_section(r, "llm"@)->Ok_0;
    assert(text_holds(r, "llm"@, s));
    assert forall|key: Seq<char>| true implies same_scalar(
        #[trigger] setting(r, "llm"@, key),
        scalar_at(s, key),
    ) by {
        assert(same_scalar(scalar_at(t, key), scalar_at(s, key)));
    }
    assert forall|name: Seq<char>, key: Seq<char>|
        name != "llm"@ && text_section(text, name) is Ok implies same_scalar(
        #[trigger] setting(r, name, key),
        setting(text, name, key),
    ) by {
        let was = text_section(text, name)->Ok_0;
        assert(text_holds(r, name, was));
        assert(same_scalar(scalar_at(text_section(r, name)->Ok_0, key), scalar_at(was, key)));
    }
}

/// The same of `save_curseforge`.
pub proof fn lemma_saved_curseforge_reads_back(r: Seq<char>, text: Seq<char>, enabled: bool)
    requires
        text_section(text, "curseforge"@) is Ok,
        is_rewritten(
            r,
            text,
            "curseforge"@,
            curseforge_section(text_section(text, "curseforge"@)->Ok_0, enabled),
        ),
    ensures
        setting(r, "curseforge"@, "enabled"@) == Some(Scalar::Bool(enabled)),
        forall|key: Seq<char>|
            key != "enabled"@ ==> same_scalar(
                #[trigger] setting(r, "curseforge"@, key),
                setting(text, "curseforge"@, key),
            ),
        forall|name: Seq<char>, key: Seq<char>|
            name != "curseforge"@ && text_section(text, name) is Ok ==> same_scalar(
                #[trigger] setting(r, name, key),
                setting(text, name, key),
            ),
{
    let s = curseforge_section(text_section(text, "curseforge"@)->Ok_0, enabled);
    let t = text_section(r, "curseforge"@)->Ok_0;
    assert(text_holds(r, "curseforge"@, s));
    assert forall|key: Seq<char>| true implies same_scalar(
        #[trigger] setting(r, "curseforge"@, key),
        scalar_at(s, key),
    ) by {
        assert(same_scalar(scalar_at(t, key), scalar_at(s, key)));
    }
    assert forall|name: Seq<char>, key: Seq<char>|
        name != "curseforge"@ && text_section(text, name) is Ok implies same_scalar(
        #[trigger] setting(r, name, key),
        setting(text, name, key),
    ) by {
        let was = text_section(text, name)->Ok_0;
        assert(text_holds(r, name, was));
        assert(same_scalar(scalar_at(text_section(r, name)->Ok_0, key), scalar_at(was, key)));
    }
}

} // verus!
