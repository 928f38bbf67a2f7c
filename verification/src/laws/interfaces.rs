//! Laws of the terminal and of the web interface: what lines and requests mean, and what is shown.

use vstd::prelude::*;

#[allow(unused_imports)]
use crate::agent::EventView;
#[allow(unused_imports)]
use crate::cli::{
    active_after, bar, cleared, command_of, is_shown, key_of, limit_of, mode_of, preset_parts,
    set_all, set_one, streaming_after, tag_parts, with_sign, CommandView, ModeView, PresetKey,
    PresetView,
};
#[allow(unused_imports)]
use crate::config::Config;
#[allow(unused_imports)]
use crate::database::Weight;
#[allow(unused_imports)]
use crate::json::{json_parsed, object_map, opt_view, str_array, whole_float, JsonNumber, JsonView};
#[allow(unused_imports)]
use crate::laws::texts::{
    lemma_cut_at_first, lemma_holds_in_between, lemma_join_parts, lemma_trim_takes_the_ends,
};
#[allow(unused_imports)]
use crate::llm::ToolDef;
#[allow(unused_imports)]
use crate::modrinth::HitView;
#[allow(unused_imports)]
use crate::number::{dec, parse_unsigned};
#[allow(unused_imports)]
use crate::order::{is_descending_texts, lex_lt};
#[allow(unused_imports)]
use crate::pipeline::{
    game_version_ok, limit_part, loader_ok, loader_part, preset_text, version_part,
};
#[allow(unused_imports)]
use crate::text::{
    byte_len, contains_spec, has_extension, is_whitespace, join_spec, split_spec, starts_with_spec,
    trim_spec, words_spec,
};
#[allow(unused_imports)]
use crate::tools::{tool_named, Tool};
#[allow(unused_imports)]
use crate::ui::{
    answer_tree, done_members, error_members, event_tree, first_five, is_changed, is_mask,
    is_pack_list, is_plain_name, missing, pack_entry, packs_among, packs_tree, recommend_tree,
    recommended, settings_tree, strength_keys, strongest, tail_begins, times, tool_entry,
    update_message, wanted, weight_entry, with_preset, PackFile, SettingsRequest,
};

verus! {

// ---------------------------------------------------------------------------
// The terminal
// ---------------------------------------------------------------------------

/// What the arguments of the program mean: without one it talks; `selftest` and `ui` do what they
/// say; `repair` takes all that follows as one text; anything else is refused.
pub proof fn lemma_arguments_of_the_program(args: Seq<Seq<char>>)
    ensures
        args.len() <= 1 ==> mode_of(args) == Ok::<ModeView, Seq<char>>(ModeView::Chat),
        args.len() > 1 && args[1] == "selftest"@ ==> mode_of(args) == Ok::<ModeView, Seq<char>>(
            ModeView::Selftest,
        ),
        args.len() > 1 && args[1] == "ui"@ ==> mode_of(args) == Ok::<ModeView, Seq<char>>(
            ModeView::Ui,
        ),
        args.len() > 2 && args[1] == "repair"@ ==> mode_of(args) == Ok::<ModeView, Seq<char>>(
            ModeView::Repair(join_spec(args.skip(2), seq![' '])),
        ),
        args.len() == 2 && args[1] == "repair"@ ==> mode_of(args) is Err,
        args.len() > 1 && args[1] != "selftest"@ && args[1] != "ui"@ && args[1] != "repair"@
            ==> mode_of(args) is Err,
{
    reveal_strlit("selftest");
    reveal_strlit("ui");
    reveal_strlit("repair");
    reveal_strlit(" ");
    assert(" "@ =~= seq![' ']);
    assert("selftest"@.len() == 8 && "ui"@.len() == 2 && "repair"@.len() == 6);
}

/// What a line of the user means, whatever blanks stand around it: a command where it is one,
/// `/set` with the words behind it, and otherwise something to say.
pub proof fn lemma_lines_of_the_user(a: Seq<char>, t: Seq<char>, b: Seq<char>)
    requires
        forall|i: int| 0 <= i < a.len() ==> is_whitespace(#[trigger] a[i]),
        forall|i: int| 0 <= i < b.len() ==> is_whitespace(#[trigger] b[i]),
        t.len() > 0 ==> !is_whitespace(t[0]) && !is_whitespace(t[t.len() - 1]),
    ensures
        ({
            let c = command_of(a + t + b);
            &&& (t.len() == 0 ==> c == CommandView::Nothing)
            &&& (t == "/quit"@ || t == "/exit"@ ==> c == CommandView::Quit)
            &&& (t == "/new"@ ==> c == CommandView::New)
            &&& (t == "/save"@ ==> c == CommandView::Save)
            &&& (t == "/load"@ ==> c == CommandView::Load)
            &&& (t == "/stats"@ ==> c == CommandView::Stats)
            &&& (t.len() > 0 && t[0] != '/' ==> c == CommandView::Say(t))
            &&& (starts_with_spec(t, "/set"@) ==> c == CommandView::Preset(words_spec(t).skip(1)))
        }),
{
    reveal_strlit("/quit");
    reveal_strlit("/exit");
    reveal_strlit("/new");
    reveal_strlit("/save");
    reveal_strlit("/load");
    reveal_strlit("/stats");
    reveal_strlit("/set");
    lemma_trim_takes_the_ends(a, t, b);
    assert("/quit"@[1] == 'q' && "/exit"@[1] == 'e' && "/new"@[1] == 'n' && "/save"@[2] == 'a'
        && "/load"@[1] == 'l' && "/stats"@[2] == 't' && "/set"@[2] == 'e');
    assert("/quit"@[0] == '/' && "/exit"@[0] == '/' && "/new"@[0] == '/' && "/save"@[0] == '/'
        && "/load"@[0] == '/' && "/stats"@[0] == '/' && "/set"@[0] == '/');
    assert("/save"@[1] == 's' && "/stats"@[1] == 's');
    if starts_with_spec(t, "/set"@) {
        assert(t.take(4)[0] == t[0] && t.take(4)[1] == t[1] && t.take(4)[2] == t[2]
            && t.take(4)[3] == t[3]);
        assert("/set"@[1] == 's' && "/set"@[3] == 't');
    }
}

/// The names of the settings of a preset: in Chinese, in English and by a letter.
pub proof fn lemma_names_of_presets(k: Seq<char>)
    ensures
        key_of(k) == Some(PresetKey::GameVersion) <==> k == "版本"@ || k == "version"@ || k == "v"@,
        key_of(k) == Some(PresetKey::Loader) <==> k == "加载器"@ || k == "loader"@ || k == "l"@,
        key_of(k) == Some(PresetKey::Limit) <==> k == "数量"@ || k == "limit"@ || k == "n"@,
{
    reveal_strlit("版本");
    reveal_strlit("version");
    reveal_strlit("v");
    reveal_strlit("加载器");
    reveal_strlit("loader");
    reveal_strlit("l");
    reveal_strlit("数量");
    reveal_strlit("limit");
    reveal_strlit("n");
    assert("版本"@[0] == '版' && "数量"@[0] == '数' && "v"@[0] == 'v' && "l"@[0] == 'l' && "n"@[0]
        == 'n');
    assert("版本"@.len() == 2 && "加载器"@.len() == 3 && "数量"@.len() == 2 && "version"@.len() == 7
        && "loader"@.len() == 6 && "limit"@.len() == 5);
}

/// `/set name=value` sets what it names where the value is valid, and leaves all else; a value
/// that is not valid changes nothing and is reported.
pub proof fn lemma_set_changes_what_it_names(p: PresetView, k: Seq<char>, v: Seq<char>)
    requires
        !k.contains('='),
    ensures
        ({
            let (q, e) = set_one(p, k + seq!['='] + v);
            &&& (key_of(k) == Some(PresetKey::GameVersion) && game_version_ok(v) ==> q
                == PresetView { game_version: Some(v), ..p } && e is None)
            &&& (key_of(k) == Some(PresetKey::GameVersion) && !game_version_ok(v) ==> q == p
                && e == Some("✗ 无效版本 '"@ + v + "', 应类似 1.21.1"@))
            &&& (key_of(k) == Some(PresetKey::Loader) && loader_ok(v) ==> q == PresetView {
                loader: Some(v),
                ..p
            } && e is None)
            &&& (key_of(k) == Some(PresetKey::Loader) && !loader_ok(v) ==> q == p && e == Some(
                "✗ 无效加载器 '{val}', 可选: fabric / forge / neoforge / quilt"@,
            ))
            &&& (key_of(k) == Some(PresetKey::Limit) && limit_of(v) is Some ==> q == PresetView {
                limit: limit_of(v),
                ..p
            } && e is None)
            &&& (key_of(k) == Some(PresetKey::Limit) && limit_of(v) is None ==> q == p && e == Some(
                "✗ 数量需为 1-"@ + dec(20) + " 的整数 (单次对话上限 "@ + dec(20) + ")"@,
            ))
            &&& (key_of(k) is None ==> q == p && e == Some(
                "✗ 未知预设项 '"@ + k + "', 可选: 版本 / 加载器 / 数量"@,
            ))
        }),
        set_one(p, k).0 == p && set_one(p, k).1 == Some(
            "✗ 格式: /set 版本=1.21.1 加载器=fabric 数量=10 (键: 版本/加载器/数量)"@,
        ),
{
    lemma_cut_at_first(k, v, '=');
}

/// The limit of a preset is a whole number from 1 to 20.
pub proof fn lemma_limits(v: Seq<char>, n: u32)
    ensures
        parse_unsigned(v, u32::MAX as nat) == Some(n as nat) && 1 <= n <= 20 ==> limit_of(v)
            == Some(n),
        parse_unsigned(v, u32::MAX as nat) is None ==> limit_of(v) is None,
        parse_unsigned(v, u32::MAX as nat) == Some(n as nat) && (n == 0 || n > 20) ==> limit_of(v)
            is None,
{
}

/// The arguments of `/set` take effect one after the other, and each that is refused is reported.
pub proof fn lemma_sets_in_order(p: PresetView, tokens: Seq<Seq<char>>, t: Seq<char>)
    ensures
        set_all(p, Seq::empty()).0 == p,
        set_all(p, Seq::empty()).1.len() == 0,
        set_all(p, tokens.push(t)).0 == set_one(set_all(p, tokens).0, t).0,
        set_one(set_all(p, tokens).0, t).1 is None ==> set_all(p, tokens.push(t)).1 == set_all(
            p,
            tokens,
        ).1,
        set_one(set_all(p, tokens).0, t).1 is Some ==> set_all(p, tokens.push(t)).1.len()
            == set_all(p, tokens).1.len() + 1 && set_all(p, tokens.push(t)).1.last().0,
{
    assert(tokens.push(t).drop_last() =~= tokens);
}

/// A game version has one to four groups of digits between its dots.
pub proof fn lemma_game_versions(a: Seq<char>, b: Seq<char>, c: Seq<char>)
    requires
        !a.contains('.'),
        !b.contains('.'),
        !c.contains('.'),
    ensures
        game_version_ok(a) <==> is_number_text(a),
        game_version_ok(a + seq!['.'] + b) <==> is_number_text(a) && is_number_text(b),
        game_version_ok(a + seq!['.'] + (b + seq!['.'] + c)) <==> is_number_text(a)
            && is_number_text(b) && is_number_text(c),
{
    crate::laws::texts::lemma_split_at_separator(a, b, '.');
    crate::laws::texts::lemma_split_at_separator(b, c, '.');
    crate::laws::texts::lemma_split_at_separator(c, c, '.');
    crate::laws::texts::lemma_split_at_separator(a, b + seq!['.'] + c, '.');
    let p1 = split_spec(a, '.');
    let p2 = split_spec(a + seq!['.'] + b, '.');
    let p3 = split_spec(a + seq!['.'] + (b + seq!['.'] + c), '.');
    assert(p2 =~= seq![a, b]);
    assert(p3 =~= seq![a, b, c]);
    assert(p1[0] == a && p2[0] == a && p2[1] == b && p3[0] == a && p3[1] == b && p3[2] == c);
    assert(is_number_text(a) <==> a.len() > 0 && crate::number::all_digits(a));
    assert(is_number_text(b) <==> b.len() > 0 && crate::number::all_digits(b));
    assert(is_number_text(c) <==> c.len() > 0 && crate::number::all_digits(c));
}

/// Whether a text holds digits, and at least one.
pub open spec fn is_number_text(s: Seq<char>) -> bool {
    s.len() > 0 && forall|i: int| 0 <= i < s.len() ==> '0' <= #[trigger] s[i] <= '9'
}

/// The loaders that there are.
pub proof fn lemma_loaders(s: Seq<char>)
    ensures
        loader_ok(s) <==> s == "fabric"@ || s == "forge"@ || s == "neoforge"@ || s == "quilt"@,
{
}

/// A preset is stated before a message: each value that is valid, in the order of version, loader
/// and number, and nothing where none is valid.
pub proof fn lemma_preset_is_stated(
    text: Seq<char>,
    gv: Seq<char>,
    loader: Seq<char>,
    n: u32,
)
    requires
        game_version_ok(trim_spec(gv)),
        loader_ok(trim_spec(loader)),
        1 <= n <= 20,
    ensures
        with_preset(text, Some(gv), Some(loader), Some(n)) == "[界面预设: "@ + ("Minecraft 版本 "@
            + trim_spec(gv)) + " / "@ + (trim_spec(loader) + " 加载器"@) + " / "@ + ("候选数量 "@
            + dec(n as nat)) + "] "@ + text,
        with_preset(text, Some(gv), None, None) == "[界面预设: "@ + ("Minecraft 版本 "@ + trim_spec(
            gv,
        )) + "] "@ + text,
        with_preset(text, None, Some(loader), None) == "[界面预设: "@ + (trim_spec(loader)
            + " 加载器"@) + "] "@ + text,
        with_preset(text, None, None, Some(n)) == "[界面预设: "@ + ("候选数量 "@ + dec(n as nat))
            + "] "@ + text,
        with_preset(text, None, None, None) == text,
{
    let a = "Minecraft 版本 "@ + trim_spec(gv);
    let b = trim_spec(loader) + " 加载器"@;
    let c = "候选数量 "@ + dec(n as nat);
    let e = Seq::<Seq<char>>::empty();
    assert(version_part(Some(gv)) + loader_part(Some(loader)) + limit_part(Some(n)) =~= seq![
        a,
        b,
        c,
    ]);
    assert(version_part(Some(gv)) + loader_part(None) + limit_part(None) =~= seq![a]);
    assert(version_part(None) + loader_part(Some(loader)) + limit_part(None) =~= seq![b]);
    assert(version_part(None) + loader_part(None) + limit_part(Some(n)) =~= seq![c]);
    assert(version_part(None) + loader_part(None) + limit_part(None) =~= e);
    lemma_join_parts(seq![a], seq![b], " / "@);
    lemma_join_parts(seq![a, b], seq![c], " / "@);
    assert(seq![a] + seq![b] =~= seq![a, b]);
    assert(seq![a, b] + seq![c] =~= seq![a, b, c]);
    lemma_join_parts(seq![a], e, " / "@);
    lemma_join_parts(seq![b], e, " / "@);
    lemma_join_parts(seq![c], e, " / "@);
    assert("[界面预设: "@ + (a + " / "@ + b + " / "@ + c) + "] "@ + text =~= "[界面预设: "@ + a
        + " / "@ + b + " / "@ + c + "] "@ + text);
}

/// A value of a preset that is not valid is left out.
pub proof fn lemma_invalid_presets_are_left_out(gv: Seq<char>, loader: Seq<char>, n: u32)
    ensures
        !game_version_ok(trim_spec(gv)) && !loader_ok(trim_spec(loader)) && (n == 0 || n > 20)
            ==> preset_text(Some(gv), Some(loader), Some(n)) is None,
        !game_version_ok(trim_spec(gv)) ==> preset_text(Some(gv), Some(loader), Some(n))
            == preset_text(None, Some(loader), Some(n)),
        !loader_ok(trim_spec(loader)) ==> preset_text(Some(gv), Some(loader), Some(n))
            == preset_text(Some(gv), None, Some(n)),
        n == 0 || n > 20 ==> preset_text(Some(gv), Some(loader), Some(n)) == preset_text(
            Some(gv),
            Some(loader),
            None,
        ),
{
}

/// What the web interface asks for as a number of mods: a number from 1 to 20, or its text.
pub proof fn lemma_wanted_number(n: u64, s: Seq<char>)
    ensures
        wanted(JsonView::Number(JsonNumber::Unsigned(n))) == (if 1 <= n <= 20 {
            Some(n as u32)
        } else {
            None
        }),
        parse_unsigned(s, u32::MAX as nat) == Some(n as nat) ==> wanted(JsonView::Str(s)) == (if 1
            <= n <= 20 {
            Some(n as u32)
        } else {
            None
        }),
        parse_unsigned(s, u32::MAX as nat) is None ==> wanted(JsonView::Str(s)) is None,
        wanted(JsonView::Null) is None,
{
}

/// The parts of a preset as they are shown: those that are set, in their order.
pub proof fn lemma_preset_as_shown(v: Seq<char>, l: Seq<char>, n: u32)
    ensures
        preset_parts(PresetView { game_version: Some(v), loader: Some(l), limit: Some(n) }) == seq![
            "版本="@ + v,
            "加载器="@ + l,
            "数量="@ + dec(n as nat),
        ],
        preset_parts(PresetView { game_version: None, loader: None, limit: None }).len() == 0,
        preset_parts(PresetView { game_version: None, loader: Some(l), limit: None }) == seq![
            "加载器="@ + l,
        ],
        preset_parts(PresetView { game_version: None, loader: None, limit: Some(n) }) == seq![
            "数量="@ + dec(n as nat),
        ],
        tag_parts(PresetView { game_version: Some(v), loader: Some(l), limit: Some(n) }) == seq![
            v,
            l,
            "×"@ + dec(n as nat),
        ],
        tag_parts(PresetView { game_version: None, loader: None, limit: None }).len() == 0,
{
    assert(preset_parts(PresetView { game_version: Some(v), loader: Some(l), limit: Some(n) })
        =~= seq!["版本="@ + v, "加载器="@ + l, "数量="@ + dec(n as nat)]);
    assert(preset_parts(PresetView { game_version: None, loader: Some(l), limit: None }) =~= seq![
        "加载器="@ + l,
    ]);
    assert(preset_parts(PresetView { game_version: None, loader: None, limit: Some(n) }) =~= seq![
        "数量="@ + dec(n as nat),
    ]);
    assert(tag_parts(PresetView { game_version: Some(v), loader: Some(l), limit: Some(n) })
        =~= seq![v, l, "×"@ + dec(n as nat)]);
}

/// A progress bar always has as many segments, of which the given number is filled, and names how
/// much is done of how much.
pub proof fn lemma_progress_bar(c: u64, t: u64, filled: nat, i: int)
    requires
        filled <= 20,
        t > 0,
    ensures
        ({
            let s = bar(Some(c), Some(t), filled);
            &&& s.len() == 20 + 1 + dec(c as nat).len() + 1 + dec(t as nat).len() + 1
            &&& (0 <= i < filled ==> s[i] == '▰')
            &&& (filled <= i < 20 ==> s[i] == '▱')
            &&& s.skip(20) == seq![' '] + dec(c as nat) + seq!['/'] + dec(t as nat) + seq![' ']
        }),
        bar(None, Some(t), filled).len() == 0,
        bar(Some(c), None, filled).len() == 0,
        bar(Some(c), Some(0), filled).len() == 0,
{
    reveal_strlit(" ");
    reveal_strlit("/");
    let s = bar(Some(c), Some(t), filled);
    assert(s.skip(20) =~= seq![' '] + dec(c as nat) + seq!['/'] + dec(t as nat) + seq![' ']);
}

/// A line of progress is there after a report and until something else is shown; a reply is being
/// written from its first piece to its end.
pub proof fn lemma_what_stands_in_the_terminal(active: bool, streaming: bool, ev: EventView)
    ensures
        ev is Progress ==> active_after(active, streaming, ev),
        ev is ToolCall || ev is ToolResult || ev is ReplyDelta ==> !active_after(
            active,
            streaming,
            ev,
        ),
        ev is ReplyDelta ==> streaming_after(streaming, ev),
        ev is Reply || ev is ToolCall ==> !streaming_after(streaming, ev),
        ev is Progress || ev is ToolResult || ev is LlmUsage ==> streaming_after(streaming, ev)
            == streaming,
        ev is LlmUsage ==> active_after(active, streaming, ev) == active,
        !active ==> cleared(active).len() == 0,
        active ==> cleared(active) == "\r\x1b[2K"@,
{
}

/// A reply is shown once: in full where no piece of it was shown, and only ended where it was.
pub proof fn lemma_reply_is_shown_once(r: Seq<char>, active: bool, text: Seq<char>, filled: nat)
    ensures
        is_shown(r, active, false, EventView::Reply { text }, filled) ==> r == cleared(active)
            + "\n"@ + text + "\n\n"@,
        is_shown(r, active, true, EventView::Reply { text }, filled) ==> r == "\n\n"@,
        is_shown(r, active, true, EventView::ReplyDelta { text }, filled) ==> r == cleared(active)
            + text,
        is_shown(r, active, false, EventView::ReplyDelta { text }, filled) ==> r == cleared(active)
            + "\n"@ + text,
{
    assert(cleared(active) + Seq::<char>::empty() + text =~= cleared(active) + text);
}

/// Weights are shown with their sign.
pub proof fn lemma_weights_with_sign(n: nat)
    ensures
        with_sign(n as int) == seq!['+'] + dec(n),
        n > 0 ==> with_sign(-(n as int)) == seq!['-'] + dec(n),
{
    reveal_strlit("+");
    assert("+"@ =~= seq!['+']);
}

/// The tools that there are, each by its name.
pub proof fn lemma_tools_by_name(name: Seq<char>)
    ensures
        tool_named("search_mods"@) == Some(Tool::SearchMods),
        tool_named("build_modpack"@) == Some(Tool::BuildModpack),
        tool_named("record_feedback"@) == Some(Tool::RecordFeedback),
        tool_named("get_user_profile"@) == Some(Tool::GetUserProfile),
        tool_named("recommend_new_mods"@) == Some(Tool::RecommendNewMods),
        tool_named("repair_pack"@) == Some(Tool::RepairPack),
        name != "search_mods"@ && name != "build_modpack"@ && name != "record_feedback"@ && name
            != "get_user_profile"@ && name != "recommend_new_mods"@ && name != "repair_pack"@
            ==> tool_named(name) is None,
{
    reveal_strlit("search_mods");
    reveal_strlit("build_modpack");
    reveal_strlit("record_feedback");
    reveal_strlit("get_user_profile");
    reveal_strlit("recommend_new_mods");
    reveal_strlit("repair_pack");
    assert("search_mods"@.len() == 11 && "build_modpack"@.len() == 13 && "record_feedback"@.len()
        == 15 && "get_user_profile"@.len() == 16 && "recommend_new_mods"@.len() == 18
        && "repair_pack"@.len() == 11);
    assert("search_mods"@[0] == 's' && "repair_pack"@[0] == 'r');
}

// ---------------------------------------------------------------------------
// The web interface
// ---------------------------------------------------------------------------

/// An answer says whether something was done, and holds the message.
pub proof fn lemma_answers_of_the_interface(ok: bool, m: Seq<char>)
    ensures
        answer_tree(ok, m).get("ok"@) == Some(JsonView::Bool(ok)),
        answer_tree(ok, m).str_at("message"@) == Some(m),
{
    reveal_with_fuel(object_map, 3);
    reveal_strlit("ok");
    reveal_strlit("message");
    assert("ok"@.len() == 2 && "message"@.len() == 7);
}

/// An event is sent with its sort and everything that it holds.
pub proof fn lemma_events_as_sent(ev: EventView)
    ensures
        ({
            let t = event_tree(ev);
            match ev {
                EventView::ToolCall { name, args } => t.str_at("type"@) == Some("tool_call"@)
                    && t.str_at("name"@) == Some(name) && t.str_at("args"@) == Some(args),
                EventView::ToolResult { name, ok } => t.str_at("type"@) == Some("tool_result"@)
                    && t.str_at("name"@) == Some(name) && t.get("ok"@) == Some(JsonView::Bool(ok)),
                EventView::Progress { text, current, total } => t.str_at("type"@) == Some(
                    "progress"@,
                ) && t.str_at("text"@) == Some(text) && t.u64_at("current"@) == current && t.u64_at(
                    "total"@,
                ) == total,
                EventView::ReplyDelta { text } => t.str_at("type"@) == Some("reply_delta"@)
                    && t.str_at("text"@) == Some(text),
                EventView::Reply { text } => t.str_at("type"@) == Some("reply"@) && t.str_at(
                    "text"@,
                ) == Some(text),
                EventView::LlmUsage { prompt_tokens, completion_tokens, total_tokens } => t.str_at(
                    "type"@,
                ) == Some("llm_usage"@) && t.u64_at("prompt_tokens"@) == Some(prompt_tokens)
                    && t.u64_at("completion_tokens"@) == Some(completion_tokens) && t.u64_at(
                    "total_tokens"@,
                ) == Some(total_tokens),
            }
        }),
{
    reveal_with_fuel(object_map, 5);
    reveal_strlit("type");
    reveal_strlit("name");
    reveal_strlit("args");
    reveal_strlit("ok");
    reveal_strlit("text");
    reveal_strlit("current");
    reveal_strlit("total");
    reveal_strlit("prompt_tokens");
    reveal_strlit("completion_tokens");
    reveal_strlit("total_tokens");
    assert("type"@[0] == 't' && "name"@[0] == 'n' && "args"@[0] == 'a' && "text"@[1] == 'e'
        && "type"@[1] == 'y');
    assert("type"@.len() == 4 && "name"@.len() == 4 && "args"@.len() == 4 && "ok"@.len() == 2
        && "text"@.len() == 4 && "current"@.len() == 7 && "total"@.len() == 5);
    assert("prompt_tokens"@.len() == 13 && "completion_tokens"@.len() == 17
        && "total_tokens"@.len() == 12);
}

/// A saved conversation is imported only by a name that leads nowhere else.
pub proof fn lemma_names_that_lead_elsewhere(a: Seq<char>, b: Seq<char>, n: Seq<char>)
    ensures
        !is_plain_name(a + seq!['/'] + b),
        !is_plain_name(a + seq!['\\'] + b),
        !is_plain_name(a + seq!['.', '.'] + b),
        !n.contains('/') && !n.contains('\\') && !n.contains('.') ==> is_plain_name(n),
{
    reveal_strlit("..");
    assert(".."@ =~= seq!['.', '.']);
    let s = a + seq!['/'] + b;
    assert(s[a.len() as int] == '/');
    let t = a + seq!['\\'] + b;
    assert(t[a.len() as int] == '\\');
    lemma_holds_in_between(a + seq!['.', '.'] + b, a, ".."@, b);
    if !n.contains('.') && contains_spec(n, ".."@) {
        lemma_holds_in_between(n, a, ".."@, b);
        let (x, y) = choose|x: Seq<char>, y: Seq<char>| #[trigger] (x + ".."@ + y) == n;
        assert(n[x.len() as int] == '.');
    }
}

/// A key is shown by its last four bytes at most, behind three stars; a short one by the stars
/// alone, and none by nothing.
pub proof fn lemma_key_as_shown(r: Seq<char>, a: Seq<char>, tail: Seq<char>)
    requires
        byte_len(tail) == 4,
        is_mask(r, a + tail),
    ensures
        a.len() > 0 ==> r == seq!['*', '*', '*'] + tail,
        a.len() == 0 ==> r == seq!['*', '*', '*'],
{
    reveal_strlit("***");
    assert("***"@ =~= seq!['*', '*', '*']);
    let key = a + tail;
    crate::text::lemma_byte_len_append(a, tail);
    crate::text::lemma_byte_len_grows(a, 0, a.len() as int);
    assert(a.take(a.len() as int) =~= a);
    if a.len() > 0 {
        let i = choose|i: int| #[trigger] tail_begins(key, i) && r == "***"@ + key.skip(i);
        assert(key.take(a.len() as int) =~= a);
        if i < a.len() {
            crate::text::lemma_byte_len_grows(key, i, a.len() as int);
        } else if i > a.len() {
            crate::text::lemma_byte_len_grows(key, a.len() as int, i);
        }
        assert(key.skip(a.len() as int) =~= tail);
    } else {
        assert(key =~= tail);
        if tail.len() == 0 {
            assert(tail =~= Seq::<char>::empty());
            assert(byte_len(tail) == 0) by {
                crate::text::lemma_byte_len_append(tail, tail);
                assert(tail + tail =~= tail);
            }
        }
    }
}

/// A request changes the settings that it names, each to what it says, and leaves the others; a
/// blank key leaves the key, and a blank `thinking` takes it away.
pub proof fn lemma_settings_that_are_named(new: Config, cfg: Config, req: SettingsRequest)
    requires
        is_changed(new, cfg, req),
    ensures
        req.model matches Some(s) ==> new.llm.model@ == trim_spec(s@),
        req.model is None ==> new.llm.model@ == cfg.llm.model@,
        req.base_url matches Some(s) ==> new.llm.base_url@ == trim_spec(s@),
        req.base_url is None ==> new.llm.base_url@ == cfg.llm.base_url@,
        req.api_key matches Some(s) ==> (trim_spec(s@).len() > 0 ==> new.llm.api_key@ == trim_spec(
            s@,
        )),
        req.api_key matches Some(s) ==> (trim_spec(s@).len() == 0 ==> new.llm.api_key@
            == cfg.llm.api_key@),
        req.api_key is None ==> new.llm.api_key@ == cfg.llm.api_key@,
        req.context_length matches Some(n) ==> new.llm.context_length == n,
        req.context_length is None ==> new.llm.context_length == cfg.llm.context_length,
        req.price_input_per_m matches Some(s) ==> new.llm.price_input_per_m@ == s@,
        req.price_input_per_m is None ==> new.llm.price_input_per_m@ == cfg.llm.price_input_per_m@,
        req.price_output_per_m matches Some(s) ==> new.llm.price_output_per_m@ == s@,
        req.price_output_per_m is None ==> new.llm.price_output_per_m@
            == cfg.llm.price_output_per_m@,
        req.token_budget matches Some(n) ==> new.llm.token_budget == n,
        req.token_budget is None ==> new.llm.token_budget == cfg.llm.token_budget,
        req.max_tool_iterations matches Some(n) ==> new.llm.max_tool_iterations == n,
        req.max_tool_iterations is None ==> new.llm.max_tool_iterations
            == cfg.llm.max_tool_iterations,
        req.thinking matches Some(s) ==> (trim_spec(s@).len() > 0 ==> opt_view(new.llm.thinking)
            == Some(trim_spec(s@))),
        req.thinking matches Some(s) ==> (trim_spec(s@).len() == 0 ==> new.llm.thinking is None),
        req.thinking is None ==> opt_view(new.llm.thinking) == opt_view(cfg.llm.thinking),
        req.curseforge_enabled matches Some(b) ==> new.curseforge.enabled == b,
        req.curseforge_enabled is None ==> new.curseforge.enabled == cfg.curseforge.enabled,
        new.output == cfg.output && new.database == cfg.database && new.ui == cfg.ui,
{
}

/// A request may not leave the model or the address blank.
pub proof fn lemma_what_may_not_be_blank(req: SettingsRequest)
    ensures
        req.model matches Some(s) ==> (trim_spec(s@).len() == 0 ==> missing(req) is Some),
        req.base_url matches Some(s) ==> (trim_spec(s@).len() == 0 ==> missing(req) is Some),
        missing(req) is Some ==> (req.model matches Some(s) && trim_spec(s@).len() == 0) || (
        req.base_url matches Some(s) && trim_spec(s@).len() == 0),
{
}

/// The settings are shown as they are, but for the key, of which only a part is shown.
pub proof fn lemma_settings_as_shown(cfg: Config, masked: Seq<char>)
    ensures
        ({
            let t = settings_tree(cfg, masked);
            &&& t.str_at("model"@) == Some(cfg.llm.model@)
            &&& t.str_at("base_url"@) == Some(cfg.llm.base_url@)
            &&& t.get("api_key_set"@) == Some(JsonView::Bool(cfg.llm.api_key@.len() > 0))
            &&& t.str_at("api_key_masked"@) == Some(masked)
            &&& t.u64_at("context_length"@) == Some(cfg.llm.context_length)
            &&& t.u64_at("token_budget"@) == Some(cfg.llm.token_budget)
            &&& t.u64_at("max_tool_iterations"@) == Some(cfg.llm.max_tool_iterations as u64)
            &&& (cfg.llm.thinking matches Some(s) ==> t.str_at("thinking"@) == Some(s@))
            &&& (cfg.llm.thinking is None ==> t.str_at("thinking"@) == Some(Seq::<char>::empty()))
            &&& t.get("curseforge_enabled"@) == Some(JsonView::Bool(cfg.curseforge.enabled))
            &&& (json_parsed(cfg.llm.price_input_per_m@) matches Ok(p) ==> t.get(
                "price_input_per_m"@,
            ) == Some(p))
            &&& (json_parsed(cfg.llm.price_output_per_m@) matches Ok(p) ==> t.get(
                "price_output_per_m"@,
            ) == Some(p))
        }),
{
    reveal_with_fuel(object_map, 12);
    reveal_strlit("model");
    reveal_strlit("base_url");
    reveal_strlit("api_key_set");
    reveal_strlit("api_key_masked");
    reveal_strlit("context_length");
    reveal_strlit("price_input_per_m");
    reveal_strlit("price_output_per_m");
    reveal_strlit("token_budget");
    reveal_strlit("max_tool_iterations");
    reveal_strlit("thinking");
    reveal_strlit("curseforge_enabled");
    assert("model"@.len() == 5 && "base_url"@.len() == 8 && "api_key_set"@.len() == 11
        && "api_key_masked"@.len() == 14 && "context_length"@.len() == 14
        && "price_input_per_m"@.len() == 17 && "price_output_per_m"@.len() == 18
        && "token_budget"@.len() == 12 && "max_tool_iterations"@.len() == 19 && "thinking"@.len()
        == 8 && "curseforge_enabled"@.len() == 18);
    assert("base_url"@[0] == 'b' && "thinking"@[0] == 't' && "api_key_masked"@[0] == 'a'
        && "context_length"@[0] == 'c' && "price_output_per_m"@[0] == 'p'
        && "curseforge_enabled"@[0] == 'c');
}

/// After settings were changed the user is told what was changed, and each failure to write it
/// down.
pub proof fn lemma_message_on_settings(model: Seq<char>, e: String, f: String)
    ensures
        update_message(model, Ok(()), None, Ok(())) == "已保存, 当前模型: "@ + model,
        update_message(model, Err(e), None, Ok(())) == "运行时已生效, 但写入 config.toml 失败: "@
            + e@,
        update_message(model, Ok(()), Some(true), Ok(())) == "已保存, 当前模型: "@ + model
            + "; CurseForge 已开启"@,
        update_message(model, Ok(()), Some(false), Ok(())) == "已保存, 当前模型: "@ + model
            + "; CurseForge 已关闭"@,
        update_message(model, Ok(()), Some(true), Err(f)) == "已保存, 当前模型: "@ + model
            + "; CurseForge 已开启"@ + " (写回失败: "@ + f@ + ")"@,
{
    let m = "已保存, 当前模型: "@ + model;
    let w = "运行时已生效, 但写入 config.toml 失败: "@ + e@;
    let z = Seq::<char>::empty();
    assert(m + z =~= m);
    assert(w + z =~= w);
    assert(m + ("; CurseForge 已开启"@ + z) =~= m + "; CurseForge 已开启"@);
    assert(m + ("; CurseForge 已关闭"@ + z) =~= m + "; CurseForge 已关闭"@);
    assert(m + ("; CurseForge 已开启"@ + (" (写回失败: "@ + f@ + ")"@)) =~= m
        + "; CurseForge 已开启"@ + " (写回失败: "@ + f@ + ")"@);
}

/// The list of packs holds the files with the extension `mrpack`, all of them and no others.
pub proof fn lemma_packs_among_files(a: Seq<PackFile>, f: PackFile, b: Seq<PackFile>)
    ensures
        packs_among(a + b) == packs_among(a) + packs_among(b),
        packs_among(seq![f]) == (if has_extension(f.name@, "mrpack"@) {
            seq![f]
        } else {
            Seq::<PackFile>::empty()
        }),
    decreases b.len(),
{
    if b.len() == 0 {
        assert(a + b =~= a);
        assert(packs_among(b) =~= Seq::<PackFile>::empty());
        assert(packs_among(a) + packs_among(b) =~= packs_among(a));
    } else {
        lemma_packs_among_files(a, f, b.drop_last());
        assert((a + b).drop_last() =~= a + b.drop_last());
        assert((a + b).last() == b.last());
        assert(packs_among(a + b) =~= packs_among(a) + packs_among(b));
    }
    assert(seq![f].drop_last() =~= Seq::<PackFile>::empty());
    assert(packs_among(seq![f].drop_last()) =~= Seq::<PackFile>::empty());
    assert(packs_among(seq![f]) =~= if has_extension(f.name@, "mrpack"@) {
        seq![f]
    } else {
        Seq::<PackFile>::empty()
    });
}

/// A pack is listed with its name, its size in units of 1024 bytes and when it was changed.
pub proof fn lemma_pack_in_the_list(f: PackFile, n: u64)
    ensures
        pack_entry(f).str_at("name"@) == Some(f.name@),
        pack_entry(f).str_at("modified"@) == Some(f.modified@),
        f.size == Some(n) ==> pack_entry(f).u64_at("size_kb"@) == Some((n / 1024) as u64),
        f.size is None ==> pack_entry(f).u64_at("size_kb"@) == Some(0u64),
{
    reveal_with_fuel(object_map, 4);
    reveal_strlit("name");
    reveal_strlit("size_kb");
    reveal_strlit("modified");
    assert("name"@.len() == 4 && "size_kb"@.len() == 7 && "modified"@.len() == 8);
}

/// The list of packs stands in the order in which they were changed, the last first.
pub proof fn lemma_order_of_packs(t: JsonView, dir: Seq<char>, s: Seq<PackFile>, i: int, j: int)
    requires
        is_pack_list(t, dir, s),
        0 <= i < j < packs_among(s).len(),
    ensures
        t.str_at("dir"@) == Some(dir),
        t.array_at("packs"@) matches Some(list) && list.len() == packs_among(s).len() && (
        list[i].str_at("modified"@) matches Some(x) && (list[j].str_at("modified"@) matches Some(y)
            && (x == y || lex_lt(y, x)))),
{
    reveal_with_fuel(object_map, 3);
    reveal_strlit("dir");
    reveal_strlit("packs");
    assert("dir"@.len() == 3 && "packs"@.len() == 5);
    let p = packs_among(s);
    let order = choose|order: Seq<usize>| #[trigger]
        packs_tree(dir, p, order) == t && is_descending_texts(times(p), order);
    assert(crate::order::text_goes_before(times(p), order[i], order[j]));
    lemma_pack_in_the_list(p[order[i] as int], 0);
    lemma_pack_in_the_list(p[order[j] as int], 0);
    assert(times(p)[order[i] as int] == p[order[i] as int].modified@);
    assert(times(p)[order[j] as int] == p[order[j] as int].modified@);
}

/// A mod is recommended with what the catalogue said of it and its score, and at most five are.
pub proof fn lemma_recommended_on_the_page(
    h: HitView,
    score: int,
    ranked: Seq<(HitView, int)>,
    i: int,
)
    ensures
        recommended(h, score).str_at("slug"@) == Some(h.slug),
        recommended(h, score).str_at("title"@) == Some(h.title),
        recommended(h, score).str_at("description"@) == Some(h.description),
        recommended(h, score).u64_at("downloads"@) == Some(h.downloads),
        recommended(h, score).get("categories"@) == Some(str_array(h.display_categories)),
        recommended(h, score).get("taste_score"@) == Some(whole_float(score)),
        ranked.len() >= 5 ==> first_five(ranked).len() == 5,
        ranked.len() < 5 ==> first_five(ranked).len() == ranked.len(),
        0 <= i < first_five(ranked).len() ==> first_five(ranked)[i] == recommended(
            ranked[i].0,
            ranked[i].1,
        ),
{
    reveal_with_fuel(object_map, 7);
    reveal_strlit("slug");
    reveal_strlit("title");
    reveal_strlit("description");
    reveal_strlit("downloads");
    reveal_strlit("categories");
    reveal_strlit("taste_score");
    assert("slug"@.len() == 4 && "title"@.len() == 5 && "description"@.len() == 11
        && "downloads"@.len() == 9 && "categories"@.len() == 10 && "taste_score"@.len() == 11);
    assert("description"@[0] == 'd' && "taste_score"@[0] == 't');
}

/// The answer with recommendations holds them, or the reason why there are none.
pub proof fn lemma_answer_with_recommendations(
    s: Seq<(HitView, int)>,
    e: Seq<char>,
    summary: Seq<char>,
)
    ensures
        recommend_tree(Ok(s), summary).get("ok"@) == Some(JsonView::Bool(true)),
        recommend_tree(Ok(s), summary).array_at("recommendations"@) == Some(first_five(s)),
        recommend_tree(Ok(s), summary).str_at("db_summary"@) == Some(summary),
        recommend_tree(Err(e), summary).get("ok"@) == Some(JsonView::Bool(false)),
        recommend_tree(Err(e), summary).str_at("message"@) == Some(e),
        recommend_tree(Err(e), summary).array_at("recommendations"@) matches Some(r) && r.len()
            == 0,
{
    reveal_with_fuel(object_map, 4);
    reveal_strlit("ok");
    reveal_strlit("recommendations");
    reveal_strlit("db_summary");
    reveal_strlit("message");
    assert("ok"@.len() == 2 && "recommendations"@.len() == 15 && "db_summary"@.len() == 10
        && "message"@.len() == 7);
}

/// The page shows the twelve tags whose weights are farthest from zero, each with its weight.
pub proof fn lemma_strongest_tags(s: Seq<Weight>, order: Seq<usize>, i: int, w: Weight)
    ensures
        s.len() >= 12 ==> strongest(s, order).len() == 12,
        s.len() < 12 ==> strongest(s, order).len() == s.len(),
        0 <= i < strongest(s, order).len() ==> strongest(s, order)[i] == weight_entry(
            s[order[i] as int],
        ),
        weight_entry(w).str_at("tag"@) == Some(w.0),
        weight_entry(w).get("weight"@) == Some(whole_float(w.1)),
        0 <= i < s.len() && i128::MIN < s[i].1 <= i128::MAX ==> strength_keys(s)[i].0 == (if s[i].1
            < 0 {
            -s[i].1
        } else {
            s[i].1
        }),
{
    reveal_with_fuel(object_map, 3);
    reveal_strlit("tag");
    reveal_strlit("weight");
    assert("tag"@.len() == 3 && "weight"@.len() == 6);
}

/// The lines that end a turn say what was used and where it was saved, or what went wrong.
pub proof fn lemma_lines_at_the_end(m: Seq<char>, usage: Seq<char>, saved: Seq<char>)
    ensures
        crate::json::object(error_members(m)).str_at("type"@) == Some("error"@),
        crate::json::object(error_members(m)).str_at("message"@) == Some(m),
        crate::json::object(done_members(usage, saved)).str_at("type"@) == Some("done"@),
        crate::json::object(done_members(usage, saved)).str_at("usage"@) == Some(usage),
        crate::json::object(done_members(usage, saved)).str_at("saved"@) == Some(saved),
{
    reveal_with_fuel(object_map, 4);
    reveal_strlit("type");
    reveal_strlit("message");
    reveal_strlit("usage");
    reveal_strlit("saved");
    assert("type"@.len() == 4 && "message"@.len() == 7 && "usage"@.len() == 5 && "saved"@.len()
        == 5);
    assert("usage"@[0] == 'u' && "saved"@[0] == 's');
}

/// The tools are listed with their names and descriptions.
pub proof fn lemma_tools_in_the_list(d: ToolDef)
    ensures
        tool_entry(d).str_at("name"@) == Some(d.function.name@),
        tool_entry(d).str_at("description"@) == Some(d.function.description@),
{
    reveal_with_fuel(object_map, 3);
    reveal_strlit("name");
    reveal_strlit("description");
    assert("name"@.len() == 4 && "description"@.len() == 11);
}

} // verus!
