//! The terminal: colours, the banner, progress, and the commands of the prompt.

use vstd::prelude::*;
use vstd::string::StringExecFns;

use crate::agent::{truncate, AgentEvent};
#[allow(unused_imports)]
use crate::agent::{is_cut, EventView};
use crate::database::UserDatabase;
#[allow(unused_imports)]
use crate::database::{is_weights, summary_text, weight_keys, weight_views, Weight};
#[allow(unused_imports)]
use crate::json::opt_view;
#[allow(unused_imports)]
use crate::number::{dec, parse_unsigned, signed_dec};
use crate::number::{i128_to_string, parse_u32, u64_to_string};
use crate::order::descending;
#[allow(unused_imports)]
use crate::order::{is_descending, Key};
use crate::pipeline::{is_valid_game_version, is_valid_loader, MAX_SEARCH_LIMIT};
#[allow(unused_imports)]
use crate::pipeline::{game_version_ok, loader_ok};
#[allow(unused_imports)]
use crate::text::{
    join_spec, lemma_views_push, repeat_spec, split_once_spec, starts_with_spec, trim_spec, views,
    words_spec,
};
use crate::text::{
    clone_list, is_empty, join, repeat, split_once, starts_with, str_eq, trim, words,
};

verus! {

/// The version of the program.
pub const VERSION: &'static str = "0.2.0";

pub const DIM: &'static str = "\x1b[2m";

pub const BOLD: &'static str = "\x1b[1m";

pub const ACCENT: &'static str = "\x1b[96m";

pub const GREEN: &'static str = "\x1b[32m";

pub const RED: &'static str = "\x1b[31m";

pub const YELLOW: &'static str = "\x1b[33m";

pub const RESET: &'static str = "\x1b[0m";

/// A text in a colour.
pub open spec fn painted(color: Seq<char>, s: Seq<char>) -> Seq<char> {
    color + s + RESET@
}

/// Puts a text in a colour.
pub fn paint(color: &str, s: &str) -> (r: String)
    ensures
        r@ == painted(color@, s@),
{
    color.to_string().concat(s).concat(RESET)
}

// ---------------------------------------------------------------------------
// The banner and the prompt
// ---------------------------------------------------------------------------

/// The number of columns that a text takes in a terminal.
pub uninterp spec fn columns(s: Seq<char>) -> usize;

/// `unicode_width::UnicodeWidthStr::width`: the number of columns that a text takes.
#[verifier::external_body]
fn display_width(s: &str) -> (r: usize)
    ensures
        r == columns(s@),
{
    unicode_width::UnicodeWidthStr::width(s)
}

/// The title of the banner.
pub open spec fn title_text(version: Seq<char>) -> Seq<char> {
    "RustAgent v"@ + version + " · 测试版"@
}

/// The line below the title of the banner.
pub open spec fn subtitle_text(model: Seq<char>) -> Seq<char> {
    "模型 "@ + model + " · mod 数据来自 Modrinth"@
}

/// A line of the box of the banner: the text, filled up to the inner width.
pub open spec fn box_line(color: Seq<char>, s: Seq<char>, width: nat, inner: nat) -> Seq<char> {
    painted(ACCENT@, "│"@) + " "@ + painted(color, s) + repeat_spec(' ', (inner - width) as nat)
        + " "@ + painted(ACCENT@, "│"@)
}

/// The banner, where title and subtitle take the given numbers of columns: a box that is wide
/// enough for both, and two lines of help.
pub open spec fn banner_text(title: Seq<char>, sub: Seq<char>, wt: nat, ws: nat) -> Seq<Seq<char>> {
    let inner = if wt >= ws {
        wt
    } else {
        ws
    };
    let rule = repeat_spec('─', inner + 2);
    seq![
        painted(ACCENT@, "╭"@ + rule + "╮"@),
        box_line(BOLD@, title, wt, inner),
        box_line(DIM@, sub, ws, inner),
        painted(ACCENT@, "╰"@ + rule + "╯"@),
        painted(
            DIM@,
            "  ⛏ /new 新会话  /save 保存  /load 加载  /set 预设  /stats 统计  /quit 退出"@,
        ),
        painted(
            DIM@,
            "  每轮对话自动保存 · Ctrl+C 打断当前任务 (不退出) · 示例: 我想要 1.21.1 fabric 的生存整合包"@,
        ),
    ]
}

fn make_box_line(color: &str, s: &str, width: usize, inner: usize) -> (r: String)
    requires
        width <= inner,
    ensures
        r@ == box_line(color@, s@, width as nat, inner as nat),
{
    paint(ACCENT, "│").concat(" ").concat(paint(color, s).as_str()).concat(
        repeat(' ', inner - width).as_str(),
    ).concat(" ").concat(paint(ACCENT, "│").as_str())
}

/// The lines of the banner, where title and subtitle take the given numbers of columns.
pub fn banner_lines(title: &str, sub: &str, wt: usize, ws: usize) -> (r: Vec<String>)
    requires
        wt + 2 <= usize::MAX,
        ws + 2 <= usize::MAX,
    ensures
        views(r@) == banner_text(title@, sub@, wt as nat, ws as nat),
{
    let inner: usize = if wt >= ws {
        wt
    } else {
        ws
    };
    let rule = repeat('─', inner + 2);
    let r = vec![
        paint(ACCENT, "╭".to_string().concat(rule.as_str()).concat("╮").as_str()),
        make_box_line(BOLD, title, wt, inner),
        make_box_line(DIM, sub, ws, inner),
        paint(ACCENT, "╰".to_string().concat(rule.as_str()).concat("╯").as_str()),
        paint(
            DIM,
            "  ⛏ /new 新会话  /save 保存  /load 加载  /set 预设  /stats 统计  /quit 退出",
        ),
        paint(
            DIM,
            "  每轮对话自动保存 · Ctrl+C 打断当前任务 (不退出) · 示例: 我想要 1.21.1 fabric 的生存整合包",
        ),
    ];
    assert(views(r@) =~= banner_text(title@, sub@, wt as nat, ws as nat));
    r
}

/// The lines of the banner. Nothing where the model's name is too wide for any terminal.
pub fn banner(version: &str, model: &str) -> (r: Option<Vec<String>>)
    ensures
        ({
            let t = title_text(version@);
            let s = subtitle_text(model@);
            match r {
                Some(v) => views(v@) == banner_text(t, s, columns(t) as nat, columns(s) as nat),
                None => columns(t) + 2 > usize::MAX || columns(s) + 2 > usize::MAX,
            }
        }),
{
    let title = "RustAgent v".to_string().concat(version).concat(" · 测试版");
    let sub = "模型 ".to_string().concat(model).concat(" · mod 数据来自 Modrinth");
    let wt = display_width(title.as_str());
    let ws = display_width(sub.as_str());
    if wt > usize::MAX - 2 || ws > usize::MAX - 2 {
        return None;
    }
    Some(banner_lines(title.as_str(), sub.as_str(), wt, ws))
}

/// The lines of the box are equally wide: whatever its text, a line is filled up to the same
/// number of columns as the rules above and below.
pub proof fn lemma_box_is_straight(width: nat, inner: nat)
    requires
        width <= inner,
    ensures
        1 + 1 + width + repeat_spec(' ', (inner - width) as nat).len() + 1 + 1 == 1 + repeat_spec(
            '─',
            inner + 2,
        ).len() + 1,
{
}

/// The prompt, with the preset where there is one.
pub fn prompt_text(preset_tag: Option<&String>) -> (r: String)
    ensures
        r@ == (match preset_tag {
            Some(t) => painted(DIM@, "["@ + t@ + "]"@) + " "@ + painted(BOLD@, "❯"@) + " "@,
            None => painted(BOLD@, "❯"@) + " "@,
        }),
{
    match preset_tag {
        Some(t) => paint(DIM, "[".to_string().concat(t.as_str()).concat("]").as_str()).concat(
            " ",
        ).concat(paint(BOLD, "❯").as_str()).concat(" "),
        None => paint(BOLD, "❯").concat(" "),
    }
}

/// What is shown when a turn begins.
pub fn busy_hint() -> (r: String)
    ensures
        r@ == painted(DIM@, "  ✻ 处理中, Ctrl+C 可打断"@),
{
    paint(DIM, "  ✻ 处理中, Ctrl+C 可打断")
}

// ---------------------------------------------------------------------------
// Progress
// ---------------------------------------------------------------------------

/// The number of segments of a progress bar.
pub const BAR_WIDTH: usize = 20;

/// What is written to the terminal while a turn runs. Progress stands in a line of its own,
/// which is overwritten until something else is written.
pub struct ProgressPrinter {
    pub active: bool,
}

/// What removes the progress line, where there is one.
pub open spec fn cleared(active: bool) -> Seq<char> {
    if active {
        "\r\x1b[2K"@
    } else {
        Seq::empty()
    }
}

/// A progress bar, where `filled` of its segments are filled. Nothing where it is not known how
/// much there is to do.
pub open spec fn bar(current: Option<u64>, total: Option<u64>, filled: nat) -> Seq<char> {
    match (current, total) {
        (Some(c), Some(t)) => if t > 0 {
            repeat_spec('▰', filled) + repeat_spec('▱', (BAR_WIDTH - filled) as nat) + " "@ + dec(
                c as nat,
            ) + "/"@ + dec(t as nat) + " "@
        } else {
            Seq::empty()
        },
        _ => Seq::empty(),
    }
}

impl ProgressPrinter {
    /// A printer that has written nothing.
    pub fn new() -> (r: ProgressPrinter)
        ensures
            !r.active,
    {
        ProgressPrinter { active: false }
    }

    fn clear(&mut self) -> (r: String)
        ensures
            r@ == cleared(old(self).active),
            !final(self).active,
    {
        let r = if self.active {
            "\r\x1b[2K".to_string()
        } else {
            String::new()
        };
        self.active = false;
        r
    }

    /// Progress, in place of the progress before.
    pub fn progress(
        &mut self,
        text: &str,
        current: Option<u64>,
        total: Option<u64>,
        filled: usize,
    ) -> (r: String)
        requires
            filled <= BAR_WIDTH,
        ensures
            final(self).active,
            r@ == cleared(old(self).active) + "  "@ + painted(YELLOW@, "⏳"@) + " "@ + bar(
                current,
                total,
                filled as nat,
            ) + text@,
    {
        let b = match (current, total) {
            (Some(c), Some(t)) => if t > 0 {
                repeat('▰', filled).concat(repeat('▱', BAR_WIDTH - filled).as_str()).concat(
                    " ",
                ).concat(u64_to_string(c).as_str()).concat("/").concat(
                    u64_to_string(t).as_str(),
                ).concat(" ")
            } else {
                String::new()
            },
            _ => String::new(),
        };
        let r = self.clear().concat("  ").concat(paint(YELLOW, "⏳").as_str()).concat(" ").concat(
            b.as_str(),
        ).concat(text);
        self.active = true;
        r
    }

    /// A line.
    pub fn line(&mut self, s: &str) -> (r: String)
        ensures
            !final(self).active,
            r@ == cleared(old(self).active) + s@ + "\n"@,
    {
        self.clear().concat(s).concat("\n")
    }

    /// A whole reply.
    pub fn text(&mut self, s: &str) -> (r: String)
        ensures
            !final(self).active,
            r@ == cleared(old(self).active) + "\n"@ + s@ + "\n\n"@,
    {
        self.clear().concat("\n").concat(s).concat("\n\n")
    }

    /// A piece of a reply. A blank line stands before the first one.
    pub fn delta(&mut self, s: &str, streaming: &mut bool) -> (r: String)
        ensures
            !final(self).active,
            *final(streaming),
            r@ == cleared(old(self).active) + (if *old(streaming) {
                Seq::empty()
            } else {
                "\n"@
            }) + s@,
    {
        let first = if *streaming {
            String::new()
        } else {
            "\n".to_string()
        };
        *streaming = true;
        self.clear().concat(first.as_str()).concat(s)
    }

    /// The end of a reply: nothing but line ends where it was written piece by piece, else all
    /// of it.
    pub fn reply_end(&mut self, full: &str, streaming: bool) -> (r: String)
        ensures
            r@ == (if streaming {
                "\n\n"@
            } else {
                cleared(old(self).active) + "\n"@ + full@ + "\n\n"@
            }),
            final(self).active == (streaming && old(self).active),
    {
        if streaming {
            "\n\n".to_string()
        } else {
            self.text(full)
        }
    }

    /// What is written for an event of a turn. Token counts are not shown.
    pub fn event(&mut self, ev: &AgentEvent, streaming: &mut bool, filled: usize) -> (r: String)
        requires
            filled <= BAR_WIDTH,
        ensures
            is_shown(r@, old(self).active, *old(streaming), ev@, filled as nat),
            final(self).active == active_after(old(self).active, *old(streaming), ev@),
            *final(streaming) == streaming_after(*old(streaming), ev@),
    {
        match ev {
            AgentEvent::ToolCall { name, args } => {
                *streaming = false;
                let cut = truncate(args.as_str(), 70);
                let s = "  ".to_string().concat(paint(DIM, "⚙").as_str()).concat(" ").concat(
                    paint(ACCENT, name.as_str()).as_str(),
                ).concat("(").concat(cut.as_str()).concat(")");
                let r = self.line(s.as_str());
                assert(is_cut(cut@, args@, 70));
                assert(is_call_line(r@, old(self).active, name@, args@));
                r
            },
            AgentEvent::ToolResult { name, ok } => {
                let s = if *ok {
                    "  ".to_string().concat(paint(GREEN, "✓").as_str()).concat(" ").concat(
                        paint(DIM, name.as_str()).as_str(),
                    )
                } else {
                    "  ".to_string().concat(paint(RED, "✗").as_str()).concat(" ").concat(
                        name.as_str(),
                    )
                };
                self.line(s.as_str())
            },
            AgentEvent::Progress { text, current, total } => self.progress(
                text.as_str(),
                *current,
                *total,
                filled,
            ),
            AgentEvent::ReplyDelta { text } => self.delta(text.as_str(), streaming),
            AgentEvent::Reply { text } => {
                let r = self.reply_end(text.as_str(), *streaming);
                *streaming = false;
                r
            },
            AgentEvent::LlmUsage { .. } => String::new(),
        }
    }
}

/// Whether progress is shown after an event.
pub open spec fn active_after(active: bool, streaming: bool, ev: EventView) -> bool {
    match ev {
        EventView::Progress { .. } => true,
        EventView::Reply { .. } => streaming && active,
        EventView::LlmUsage { .. } => active,
        _ => false,
    }
}

/// Whether a reply is being written piece by piece after an event.
pub open spec fn streaming_after(streaming: bool, ev: EventView) -> bool {
    match ev {
        EventView::ToolCall { .. } => false,
        EventView::Reply { .. } => false,
        EventView::ReplyDelta { .. } => true,
        _ => streaming,
    }
}

/// Whether `r` is what is written for a call of a tool: its name and the beginning of its
/// arguments.
pub open spec fn is_call_line(
    r: Seq<char>,
    active: bool,
    name: Seq<char>,
    args: Seq<char>,
) -> bool {
    exists|cut: Seq<char>| #[trigger]
        is_cut(cut, args, 70) && r == cleared(active) + ("  "@ + painted(DIM@, "⚙"@) + " "@
            + painted(ACCENT@, name) + "("@ + cut + ")"@) + "\n"@
}

/// Whether `r` is what is written for an event.
pub open spec fn is_shown(
    r: Seq<char>,
    active: bool,
    streaming: bool,
    ev: EventView,
    filled: nat,
) -> bool {
    match ev {
        EventView::ToolCall { name, args } => is_call_line(r, active, name, args),
        EventView::ToolResult { name, ok } => r == cleared(active) + (if ok {
            "  "@ + painted(GREEN@, "✓"@) + " "@ + painted(DIM@, name)
        } else {
            "  "@ + painted(RED@, "✗"@) + " "@ + name
        }) + "\n"@,
        EventView::Progress { text, current, total } => r == cleared(active) + "  "@ + painted(
            YELLOW@,
            "⏳"@,
        ) + " "@ + bar(current, total, filled) + text,
        EventView::ReplyDelta { text } => r == cleared(active) + (if streaming {
            Seq::empty()
        } else {
            "\n"@
        }) + text,
        EventView::Reply { text } => r == (if streaming {
            "\n\n"@
        } else {
            cleared(active) + "\n"@ + text + "\n\n"@
        }),
        EventView::LlmUsage { .. } => r.len() == 0,
    }
}

// ---------------------------------------------------------------------------
// Commands
// ---------------------------------------------------------------------------

/// How the program is started.
pub enum Mode {
    Chat,
    Selftest,
    Ui,
    /// With the arguments of the repair.
    Repair(String),
}

/// The mathematical value of a [`Mode`].
#[verifier::ext_equal]
pub enum ModeView {
    Chat,
    Selftest,
    Ui,
    Repair(Seq<char>),
}

impl View for Mode {
    type V = ModeView;

    open spec fn view(&self) -> ModeView {
        match *self {
            Mode::Chat => ModeView::Chat,
            Mode::Selftest => ModeView::Selftest,
            Mode::Ui => ModeView::Ui,
            Mode::Repair(s) => ModeView::Repair(s@),
        }
    }
}

/// What the arguments of the program mean; the first is its name.
pub open spec fn mode_of(args: Seq<Seq<char>>) -> Result<ModeView, Seq<char>> {
    if args.len() <= 1 {
        Ok(ModeView::Chat)
    } else if args[1] == "selftest"@ {
        Ok(ModeView::Selftest)
    } else if args[1] == "ui"@ {
        Ok(ModeView::Ui)
    } else if args.len() > 2 && args[1] == "repair"@ {
        Ok(ModeView::Repair(join_spec(args.skip(2), " "@)))
    } else {
        Err(
            "未知子命令 '"@ + args[1]
                + "' (可用: selftest / ui / repair; 不带参数进入交互对话)"@,
        )
    }
}

/// The view of a mode or of the error.
pub open spec fn mode_view(r: Result<Mode, String>) -> Result<ModeView, Seq<char>> {
    match r {
        Ok(m) => Ok(m@),
        Err(e) => Err(e@),
    }
}

/// Reads the arguments of the program; the first is its name.
pub fn read_args(args: &Vec<String>) -> (r: Result<Mode, String>)
    ensures
        mode_view(r) == mode_of(views(args@)),
{
    assert(views(args@).len() == args@.len());
    if args.len() <= 1 {
        return Ok(Mode::Chat);
    }
    assert(views(args@)[1] == args@[1]@);
    let name = args[1].as_str();
    if str_eq(name, "selftest") {
        return Ok(Mode::Selftest);
    }
    if str_eq(name, "ui") {
        return Ok(Mode::Ui);
    }
    if args.len() > 2 && str_eq(name, "repair") {
        let mut rest = clone_list(args);
        assert(views(rest@).len() == rest@.len());
        let tail = rest.split_off(2);
        assert(views(tail@) =~= views(args@).skip(2)) by {
            assert forall|i: int| 0 <= i < tail@.len() implies (#[trigger] tail@[i])@ == views(
                args@,
            )[i + 2] by {
                assert(views(args@)[i + 2] == args@[i + 2]@);
            }
        }
        return Ok(Mode::Repair(join(&tail, " ")));
    }
    Err(
        "未知子命令 '".to_string().concat(name).concat(
            "' (可用: selftest / ui / repair; 不带参数进入交互对话)",
        ),
    )
}

/// What the user has entered.
pub enum Command {
    Nothing,
    Quit,
    New,
    Save,
    Load,
    Stats,
    Preset(Vec<String>),
    Say(String),
}

/// The mathematical value of a [`Command`].
#[verifier::ext_equal]
pub enum CommandView {
    Nothing,
    Quit,
    New,
    Save,
    Load,
    Stats,
    Preset(Seq<Seq<char>>),
    Say(Seq<char>),
}

impl View for Command {
    type V = CommandView;

    open spec fn view(&self) -> CommandView {
        match *self {
            Command::Nothing => CommandView::Nothing,
            Command::Quit => CommandView::Quit,
            Command::New => CommandView::New,
            Command::Save => CommandView::Save,
            Command::Load => CommandView::Load,
            Command::Stats => CommandView::Stats,
            Command::Preset(v) => CommandView::Preset(views(v@)),
            Command::Say(s) => CommandView::Say(s@),
        }
    }
}

/// What a line means.
pub open spec fn command_of(line: Seq<char>) -> CommandView {
    let t = trim_spec(line);
    if t.len() == 0 {
        CommandView::Nothing
    } else if t == "/quit"@ || t == "/exit"@ {
        CommandView::Quit
    } else if t == "/new"@ {
        CommandView::New
    } else if t == "/save"@ {
        CommandView::Save
    } else if t == "/load"@ {
        CommandView::Load
    } else if t == "/stats"@ {
        CommandView::Stats
    } else if starts_with_spec(t, "/set"@) {
        CommandView::Preset(words_spec(t).skip(1))
    } else {
        CommandView::Say(t)
    }
}

proof fn lemma_has_word(s: Seq<char>)
    requires
        s.len() > 0,
        !crate::text::is_whitespace(s[0]),
    ensures
        words_spec(s).len() > 0,
    decreases s.len(),
{
    let keep = |w: Seq<char>| w.len() > 0;
    lemma_runs(s);
    let r = crate::text::runs(s);
    assert(r[0].len() > 0);
    assert(r =~= seq![r[0]] + r.skip(1));
    lemma_filter_keeps_first(r, keep);
}

proof fn lemma_filter_keeps_first(r: Seq<Seq<char>>, keep: spec_fn(Seq<char>) -> bool)
    requires
        r.len() > 0,
        keep(r[0]),
    ensures
        r.filter(keep).len() > 0,
    decreases r.len(),
{
    reveal(Seq::filter);
    if r.len() > 1 {
        lemma_filter_keeps_first(r.drop_last(), keep);
    } else {
        assert(r.drop_last().filter(keep) =~= Seq::<Seq<char>>::empty());
    }
}

proof fn lemma_runs(s: Seq<char>)
    ensures
        crate::text::runs(s).len() > 0,
        s.len() > 0 && !crate::text::is_whitespace(s[0]) ==> crate::text::runs(s)[0].len() > 0,
    decreases s.len(),
{
    if s.len() > 0 {
        lemma_runs(s.drop_last());
        if s.len() == 1 {
            assert(s.drop_last() =~= Seq::<char>::empty());
        }
    }
}

/// Reads a line of input.
pub fn read_command(line: &str) -> (r: Command)
    ensures
        r@ == command_of(line@),
{
    let t = trim(line);
    let s = t.as_str();
    if is_empty(s) {
        Command::Nothing
    } else if str_eq(s, "/quit") || str_eq(s, "/exit") {
        Command::Quit
    } else if str_eq(s, "/new") {
        Command::New
    } else if str_eq(s, "/save") {
        Command::Save
    } else if str_eq(s, "/load") {
        Command::Load
    } else if str_eq(s, "/stats") {
        Command::Stats
    } else if starts_with(s, "/set") {
        let mut all = words(s);
        proof {
            crate::text::lemma_trim_is_trimmed(line@);
            lemma_has_word(s@);
            assert(views(all@).len() == all@.len());
        }
        let args = all.split_off(1);
        assert(views(args@) =~= words_spec(s@).skip(1));
        Command::Preset(args)
    } else {
        Command::Say(t)
    }
}

/// What the user has chosen for all messages to come.
pub struct Preset {
    pub game_version: Option<String>,
    pub loader: Option<String>,
    pub limit: Option<u32>,
}

/// The mathematical value of a [`Preset`].
#[verifier::ext_equal]
pub struct PresetView {
    pub game_version: Option<Seq<char>>,
    pub loader: Option<Seq<char>>,
    pub limit: Option<u32>,
}

impl View for Preset {
    type V = PresetView;

    open spec fn view(&self) -> PresetView {
        PresetView {
            game_version: opt_view(self.game_version),
            loader: opt_view(self.loader),
            limit: self.limit,
        }
    }
}

/// A line to show, on the output for errors or not.
pub struct Notice {
    pub error: bool,
    pub text: String,
}

/// The views of a list of notices.
pub open spec fn notice_views(s: Seq<Notice>) -> Seq<(bool, Seq<char>)> {
    s.map_values(|n: Notice| (n.error, n.text@))
}

/// Which setting a key names.
pub enum PresetKey {
    GameVersion,
    Loader,
    Limit,
}

/// Which setting a key names, in Chinese, in English or by a letter.
pub open spec fn key_of(key: Seq<char>) -> Option<PresetKey> {
    if key == "版本"@ || key == "version"@ || key == "v"@ {
        Some(PresetKey::GameVersion)
    } else if key == "加载器"@ || key == "loader"@ || key == "l"@ {
        Some(PresetKey::Loader)
    } else if key == "数量"@ || key == "limit"@ || key == "n"@ {
        Some(PresetKey::Limit)
    } else {
        None
    }
}

/// The number that a text gives as a limit.
pub open spec fn limit_of(val: Seq<char>) -> Option<u32> {
    match parse_unsigned(val, u32::MAX as nat) {
        Some(n) => if 1 <= n <= MAX_SEARCH_LIMIT {
            Some(n as u32)
        } else {
            None
        },
        None => None,
    }
}

/// The effect of one argument of `/set`: the preset after it, and what is said where it is not
/// valid. A value that is not valid leaves the old one.
pub open spec fn set_one(p: PresetView, token: Seq<char>) -> (PresetView, Option<Seq<char>>) {
    match split_once_spec(token, '=') {
        None => (
            p,
            Some(
                "✗ 格式: /set 版本=1.21.1 加载器=fabric 数量=10 (键: 版本/加载器/数量)"@,
            ),
        ),
        Some(kv) => match key_of(kv.0) {
            Some(PresetKey::GameVersion) => if game_version_ok(kv.1) {
                (PresetView { game_version: Some(kv.1), ..p }, None)
            } else {
                (p, Some("✗ 无效版本 '"@ + kv.1 + "', 应类似 1.21.1"@))
            },
            Some(PresetKey::Loader) => if loader_ok(kv.1) {
                (PresetView { loader: Some(kv.1), ..p }, None)
            } else {
                (
                    p,
                    Some("✗ 无效加载器 '{val}', 可选: fabric / forge / neoforge / quilt"@),
                )
            },
            Some(PresetKey::Limit) => match limit_of(kv.1) {
                Some(n) => (PresetView { limit: Some(n), ..p }, None),
                None => (
                    p,
                    Some(
                        "✗ 数量需为 1-"@ + dec(MAX_SEARCH_LIMIT as nat)
                            + " 的整数 (单次对话上限 "@ + dec(MAX_SEARCH_LIMIT as nat) + ")"@,
                    ),
                ),
            },
            None => (
                p,
                Some("✗ 未知预设项 '"@ + kv.0 + "', 可选: 版本 / 加载器 / 数量"@),
            ),
        },
    }
}

/// An argument of `/set` that is refused changes nothing, and one that is accepted changes one
/// part of the preset.
pub proof fn lemma_refused_value_changes_nothing(p: PresetView, token: Seq<char>)
    ensures
        ({
            let (after, error) = set_one(p, token);
            if error is Some {
                after == p
            } else {
                ||| after.loader == p.loader && after.limit == p.limit
                ||| after.game_version == p.game_version && after.limit == p.limit
                ||| after.game_version == p.game_version && after.loader == p.loader
            }
        }),
{
}

/// The effect of the arguments of `/set`, one after the other.
pub open spec fn set_all(p: PresetView, tokens: Seq<Seq<char>>) -> (
    PresetView,
    Seq<(bool, Seq<char>)>,
)
    decreases tokens.len(),
{
    if tokens.len() == 0 {
        (p, Seq::empty())
    } else {
        let before = set_all(p, tokens.drop_last());
        let step = set_one(before.0, tokens.last());
        (
            step.0,
            match step.1 {
                Some(e) => before.1.push((true, painted(RED@, e))),
                None => before.1,
            },
        )
    }
}

/// What is shown first: how `/set` is used, where it has no arguments.
pub open spec fn usage_notices(tokens: Seq<Seq<char>>) -> Seq<(bool, Seq<char>)> {
    if tokens.len() == 0 {
        seq![
            (
                false,
                painted(
                    DIM@,
                    "用法: /set 版本=1.21.1 加载器=fabric 数量=10 (键: 版本/加载器/数量)"@,
                ),
            ),
        ]
    } else {
        Seq::empty()
    }
}

/// The parts of a preset, as they are shown.
pub open spec fn preset_parts(p: PresetView) -> Seq<Seq<char>> {
    let a = match p.game_version {
        Some(v) => seq!["版本="@ + v],
        None => Seq::empty(),
    };
    let b = match p.loader {
        Some(v) => a.push("加载器="@ + v),
        None => a,
    };
    match p.limit {
        Some(n) => b.push("数量="@ + dec(n as nat)),
        None => b,
    }
}

/// What is shown last: the preset.
pub open spec fn preset_status(p: PresetView) -> Seq<char> {
    if preset_parts(p).len() == 0 {
        "当前预设: 无 (消息将原样发送)"@
    } else {
        painted(GREEN@, "✓ 当前预设:"@) + " "@ + painted(
            ACCENT@,
            join_spec(preset_parts(p), " "@),
        )
    }
}

/// The parts of a preset, as the prompt shows them.
pub open spec fn tag_parts(p: PresetView) -> Seq<Seq<char>> {
    let a = match p.game_version {
        Some(v) => seq![v],
        None => Seq::empty(),
    };
    let b = match p.loader {
        Some(v) => a.push(v),
        None => a,
    };
    match p.limit {
        Some(n) => b.push("×"@ + dec(n as nat)),
        None => b,
    }
}

impl Preset {
    /// A preset in which nothing is chosen.
    pub fn new() -> (r: Preset)
        ensures
            r@ == (PresetView { game_version: None, loader: None, limit: None }),
    {
        Preset { game_version: None, loader: None, limit: None }
    }

    /// Takes in one argument of `/set`. Returns what is to be said where it is not valid.
    pub fn set(&mut self, token: &str) -> (r: Option<String>)
        ensures
            (final(self)@, opt_view(r)) == set_one(old(self)@, token@),
    {
        match split_once(token, '=') {
            None => Some(
                "✗ 格式: /set 版本=1.21.1 加载器=fabric 数量=10 (键: 版本/加载器/数量)".to_string(),
            ),
            Some(kv) => {
                let key = kv.0.as_str();
                let val = kv.1.as_str();
                if str_eq(key, "版本") || str_eq(key, "version") || str_eq(key, "v") {
                    if is_valid_game_version(val) {
                        self.game_version = Some(val.to_string());
                        None
                    } else {
                        Some(
                            "✗ 无效版本 '".to_string().concat(val).concat("', 应类似 1.21.1"),
                        )
                    }
                } else if str_eq(key, "加载器") || str_eq(key, "loader") || str_eq(key, "l") {
                    if is_valid_loader(val) {
                        self.loader = Some(val.to_string());
                        None
                    } else {
                        Some(
                            "✗ 无效加载器 '{val}', 可选: fabric / forge / neoforge / quilt".to_string(),
                        )
                    }
                } else if str_eq(key, "数量") || str_eq(key, "limit") || str_eq(key, "n") {
                    let n: u32 = match parse_u32(val) {
                        Some(n) => n,
                        None => 0,
                    };
                    if n >= 1 && n <= MAX_SEARCH_LIMIT {
                        self.limit = Some(n);
                        None
                    } else {
                        let max = u64_to_string(MAX_SEARCH_LIMIT as u64);
                        Some(
                            "✗ 数量需为 1-".to_string().concat(max.as_str()).concat(
                                " 的整数 (单次对话上限 ",
                            ).concat(max.as_str()).concat(")"),
                        )
                    }
                } else {
                    Some(
                        "✗ 未知预设项 '".to_string().concat(key).concat(
                            "', 可选: 版本 / 加载器 / 数量",
                        ),
                    )
                }
            },
        }
    }

    /// Carries out `/set`. Returns what is to be shown.
    pub fn apply(&mut self, tokens: &Vec<String>) -> (r: Vec<Notice>)
        ensures
            final(self)@ == set_all(old(self)@, views(tokens@)).0,
            notice_views(r@) == usage_notices(views(tokens@)) + set_all(
                old(self)@,
                views(tokens@),
            ).1.push((false, preset_status(final(self)@))),
    {
        let ghost start = self@;
        let ghost all = views(tokens@);
        let mut out: Vec<Notice> = Vec::new();
        if tokens.len() == 0 {
            out.push(
                Notice {
                    error: false,
                    text: paint(
                        DIM,
                        "用法: /set 版本=1.21.1 加载器=fabric 数量=10 (键: 版本/加载器/数量)",
                    ),
                },
            );
        }
        let ghost first = usage_notices(all);
        assert(all.take(0) =~= Seq::<Seq<char>>::empty());
        assert(all.len() == tokens@.len());
        assert(notice_views(out@) =~= first + set_all(start, all.take(0)).1);
        for i in 0..tokens.len()
            invariant
                all == views(tokens@),
                self@ == set_all(start, all.take(i as int)).0,
                notice_views(out@) == first + set_all(start, all.take(i as int)).1,
        {
            assert(all.take(i + 1).drop_last() =~= all.take(i as int));
            assert(all.take(i + 1).last() == tokens@[i as int]@);
            let ghost was = notice_views(out@);
            match self.set(tokens[i].as_str()) {
                Some(e) => {
                    let n = Notice { error: true, text: paint(RED, e.as_str()) };
                    out.push(n);
                    assert(notice_views(out@) =~= was.push((true, painted(RED@, e@))));
                    assert(notice_views(out@) =~= first + set_all(start, all.take(i + 1)).1);
                },
                None => {},
            }
        }
        assert(all.take(tokens@.len() as int) =~= all);
        let ghost was = notice_views(out@);
        let status = self.status();
        let ghost sv = status@;
        out.push(Notice { error: false, text: status });
        assert(notice_views(out@) =~= was.push((false, sv)));
        assert(notice_views(out@) =~= first + set_all(start, all).1.push((false, sv)));
        out
    }

    /// The line that shows the preset.
    pub fn status(&self) -> (r: String)
        ensures
            r@ == preset_status(self@),
    {
        let mut parts: Vec<String> = Vec::new();
        match &self.game_version {
            Some(v) => {
                parts.push("版本=".to_string().concat(v.as_str()));
            },
            None => {},
        }
        match &self.loader {
            Some(v) => {
                parts.push("加载器=".to_string().concat(v.as_str()));
            },
            None => {},
        }
        match self.limit {
            Some(n) => {
                parts.push("数量=".to_string().concat(u64_to_string(n as u64).as_str()));
            },
            None => {},
        }
        assert(views(parts@) =~= preset_parts(self@));
        assert(views(parts@).len() == parts@.len());
        if parts.len() == 0 {
            "当前预设: 无 (消息将原样发送)".to_string()
        } else {
            paint(GREEN, "✓ 当前预设:").concat(" ").concat(
                paint(ACCENT, join(&parts, " ").as_str()).as_str(),
            )
        }
    }

    /// The preset as the prompt shows it; nothing where nothing is chosen.
    pub fn tag(&self) -> (r: Option<String>)
        ensures
            opt_view(r) == (if tag_parts(self@).len() == 0 {
                None
            } else {
                Some(join_spec(tag_parts(self@), "·"@))
            }),
    {
        let mut parts: Vec<String> = Vec::new();
        match &self.game_version {
            Some(v) => {
                parts.push(v.clone());
            },
            None => {},
        }
        match &self.loader {
            Some(v) => {
                parts.push(v.clone());
            },
            None => {},
        }
        match self.limit {
            Some(n) => {
                parts.push("×".to_string().concat(u64_to_string(n as u64).as_str()));
            },
            None => {},
        }
        assert(views(parts@) =~= tag_parts(self@));
        assert(views(parts@).len() == parts@.len());
        if parts.len() == 0 {
            None
        } else {
            Some(join(&parts, "·"))
        }
    }
}

/// Whatever is set, a preset holds nothing but valid values.
pub open spec fn preset_ok(p: PresetView) -> bool {
    &&& p.game_version matches Some(v) ==> game_version_ok(v)
    &&& p.loader matches Some(v) ==> loader_ok(v)
    &&& p.limit matches Some(n) ==> 1 <= n <= MAX_SEARCH_LIMIT
}

/// `/set` never leaves a value that is not valid.
pub proof fn lemma_set_keeps_valid(p: PresetView, tokens: Seq<Seq<char>>)
    requires
        preset_ok(p),
    ensures
        preset_ok(set_all(p, tokens).0),
    decreases tokens.len(),
{
    if tokens.len() > 0 {
        lemma_set_keeps_valid(p, tokens.drop_last());
    }
}

// ---------------------------------------------------------------------------
// Statistics
// ---------------------------------------------------------------------------

/// A number with its sign.
pub open spec fn with_sign(n: int) -> Seq<char> {
    if n < 0 {
        signed_dec(n)
    } else {
        "+"@ + signed_dec(n)
    }
}

/// Tags with their weights, the greatest weight first.
pub open spec fn weight_items(s: Seq<Weight>, order: Seq<usize>, n: nat) -> Seq<Seq<char>> {
    Seq::new(
        if s.len() < n {
            s.len()
        } else {
            n
        },
        |i: int| s[order[i] as int].0 + "="@ + with_sign(s[order[i] as int].1),
    )
}

/// Whether `r` lists the eight greatest of the weights.
pub open spec fn is_weight_line(r: Seq<char>, s: Seq<Weight>) -> bool {
    exists|order: Seq<usize>| #[trigger]
        is_descending(weight_keys(s), order) && r == "口味权重: "@ + join_spec(
            weight_items(s, order, 8),
            "  "@,
        )
}

/// The line on the taste of the user.
pub fn weight_line(db: &UserDatabase) -> (r: String)
    requires
        db.is_countable(),
    ensures
        exists|s: Seq<Weight>| #[trigger] is_weights(s, db.ratings()) && is_weight_line(r@, s),
{
    let weights = db.tag_weights();
    let ghost s = weight_views(weights@);
    let mut keys: Vec<Key> = Vec::new();
    for i in 0..weights.len()
        invariant
            s == weight_views(weights@),
            keys@ == weight_keys(s).take(i as int),
    {
        keys.push((weights[i].1 as i128, 0i128));
        assert(keys@ =~= weight_keys(s).take(i + 1));
    }
    assert(weight_keys(s).take(weights@.len() as int) =~= weight_keys(s));
    let order = descending(&keys);
    let n: usize = if weights.len() < 8 {
        weights.len()
    } else {
        8
    };
    let mut parts: Vec<String> = Vec::new();
    let ghost all = weight_items(s, order@, 8);
    for i in 0..n
        invariant
            s == weight_views(weights@),
            all == weight_items(s, order@, 8),
            n == all.len(),
            n <= weights@.len(),
            order@.len() == weights@.len(),
            forall|k: int| 0 <= k < order@.len() ==> #[trigger] order@[k] < weights@.len(),
            views(parts@) == all.take(i as int),
    {
        assert(order@[i as int] < weights@.len());
        let k = order[i];
        let w = weights[k].1;
        let text = i128_to_string(w as i128);
        let signed = if w < 0 {
            text
        } else {
            "+".to_string().concat(text.as_str())
        };
        let item = weights[k].0.clone().concat("=").concat(signed.as_str());
        proof {
            lemma_views_push(parts@, item);
            assert(s[k as int] == (weights@[k as int].0@, w as int));
            assert(all[i as int] == item@);
        }
        parts.push(item);
        assert(all.take(i + 1) =~= all.take(i as int).push(all[i as int]));
    }
    assert(all.take(n as int) =~= all);
    let r = "口味权重: ".to_string().concat(join(&parts, "  ").as_str());
    assert(is_weight_line(r@, s));
    r
}

// ---------------------------------------------------------------------------
// What a command has done
// ---------------------------------------------------------------------------

/// What is shown where a file was written or read, or of the error.
pub open spec fn file_notice(done: Seq<char>, r: Result<String, String>) -> (bool, Seq<char>) {
    match r {
        Ok(path) => (false, painted(GREEN@, done) + " "@ + painted(DIM@, path@)),
        Err(e) => (true, painted(RED@, "✗ "@ + e@)),
    }
}

fn show_file(done: &str, r: &Result<String, String>) -> (n: Notice)
    ensures
        (n.error, n.text@) == file_notice(done@, *r),
{
    match r {
        Ok(path) => Notice {
            error: false,
            text: paint(GREEN, done).concat(" ").concat(paint(DIM, path.as_str()).as_str()),
        },
        Err(e) => Notice {
            error: true,
            text: paint(RED, "✗ ".to_string().concat(e.as_str()).as_str()),
        },
    }
}

/// What is shown after `/save`.
pub fn saved_notice(r: &Result<String, String>) -> (n: Notice)
    ensures
        (n.error, n.text@) == file_notice("✓ 已保存"@, *r),
{
    show_file("✓ 已保存", r)
}

/// What is shown after `/load`.
pub fn loaded_notice(r: &Result<String, String>) -> (n: Notice)
    ensures
        (n.error, n.text@) == file_notice("✓ 已加载"@, *r),
{
    show_file("✓ 已加载", r)
}

/// What is shown after `/new`.
pub fn new_notice() -> (r: String)
    ensures
        r@ == painted(GREEN@, "✓ 已开启新会话"@),
{
    paint(GREEN, "✓ 已开启新会话")
}

/// What is shown where the conversation was saved of itself; nothing where there was nothing
/// to save, which an empty path says.
pub fn auto_save_notice(r: &Result<String, String>) -> (n: Option<Notice>)
    ensures
        match (n, *r) {
            (Some(n), Ok(path)) => path@.len() > 0 && !n.error && n.text@ == painted(
                DIM@,
                "  ✓ 已自动保存 "@ + path@,
            ),
            (None, Ok(path)) => path@.len() == 0,
            (Some(n), Err(e)) => n.error && n.text@ == painted(RED@, "✗ 自动保存失败: "@ + e@),
            (None, Err(_)) => false,
        },
{
    match r {
        Ok(path) => if is_empty(path.as_str()) {
            None
        } else {
            let text = "  ✓ 已自动保存 ".to_string().concat(path.as_str());
            Some(Notice { error: false, text: paint(DIM, text.as_str()) })
        },
        Err(e) => {
            let text = "✗ 自动保存失败: ".to_string().concat(e.as_str());
            Some(Notice { error: true, text: paint(RED, text.as_str()) })
        },
    }
}

/// How a turn ended.
pub enum TurnEnd {
    Done,
    /// The turn gave up.
    Failed(String),
    /// The task that ran the turn broke off.
    Broken(String),
    /// The user stopped it.
    Interrupted,
}

/// What is shown at the end of a turn.
pub fn turn_notice(end: &TurnEnd) -> (n: Option<Notice>)
    ensures
        match (n, *end) {
            (None, TurnEnd::Done) => true,
            (Some(n), TurnEnd::Failed(e)) => n.error && n.text@ == painted(RED@, "✗ "@ + e@),
            (Some(n), TurnEnd::Broken(e)) => n.error && n.text@ == painted(
                RED@,
                "✗ 任务异常: "@ + e@,
            ),
            (Some(n), TurnEnd::Interrupted) => !n.error && n.text@ == "\n"@ + painted(
                YELLOW@,
                "⏸ 已打断当前任务"@,
            ),
            _ => false,
        },
{
    match end {
        TurnEnd::Done => None,
        TurnEnd::Failed(e) => {
            let text = "✗ ".to_string().concat(e.as_str());
            Some(Notice { error: true, text: paint(RED, text.as_str()) })
        },
        TurnEnd::Broken(e) => {
            let text = "✗ 任务异常: ".to_string().concat(e.as_str());
            Some(Notice { error: true, text: paint(RED, text.as_str()) })
        },
        TurnEnd::Interrupted => {
            let text = "\n".to_string().concat(paint(YELLOW, "⏸ 已打断当前任务").as_str());
            Some(Notice { error: false, text })
        },
    }
}

/// What is shown after `/stats`: the ratings, the taste, and the use of the model.
pub fn stats(db: &UserDatabase, usage: &str) -> (r: Vec<String>)
    requires
        db.is_countable(),
    ensures
        r@.len() == 3,
        r@[0]@ == "数据库: "@ + summary_text(db.ratings(), db.packs@.len()),
        exists|s: Seq<Weight>| #[trigger]
            is_weights(s, db.ratings()) && is_weight_line(r@[1]@, s),
        r@[2]@ == "本次会话: "@ + usage@,
{
    vec![
        "数据库: ".to_string().concat(db.summary().as_str()),
        weight_line(db),
        "本次会话: ".to_string().concat(usage),
    ]
}

/// What is shown at the end.
pub fn farewell(db: &UserDatabase, usage: &str) -> (r: Vec<String>)
    ensures
        views(r@) == seq![
            painted(DIM@, "── 会话结束 ──────────────────────"@),
            "数据库: "@ + summary_text(db.ratings(), db.packs@.len()),
            "本次会话用量: "@ + usage@,
        ],
{
    let r = vec![
        paint(DIM, "── 会话结束 ──────────────────────"),
        "数据库: ".to_string().concat(db.summary().as_str()),
        "本次会话用量: ".to_string().concat(usage),
    ];
    assert(views(r@) =~= seq![
        painted(DIM@, "── 会话结束 ──────────────────────"@),
        "数据库: "@ + summary_text(db.ratings(), db.packs@.len()),
        "本次会话用量: "@ + usage@,
    ]);
    r
}

} // verus!
