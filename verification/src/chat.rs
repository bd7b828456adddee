//! The rows of the conversation: the messages so far and the reply that is
//! streaming in, wrapped to the width of the screen.
use vstd::prelude::*;
use crate::style::Look;
use crate::style::Run;
use crate::style::RunView;
use crate::style::Tone;
use crate::style::runs_view;
use crate::style::lines_view;
use crate::style::plain_look;
use crate::style::tone_look;
use crate::style::bold_look;
use crate::markdown::append_rows;
use crate::markdown::markdown_rows;
use crate::markdown::renderable;
use crate::markdown::render;
use crate::cards::prefix_upto;
use crate::cards::take_chars;
use crate::cards::preview_rows;
use crate::cards::preview_ok;
use crate::cards::preview_streaming_tool;
use crate::text::chars_of;
use crate::text::concat2;
use crate::text::has_prefix;
use crate::text::push_str;
use crate::text::starts_with_str;
use crate::text::string_views;
use crate::text::to_owned_string;
use crate::text::trim;
use crate::text::trim_str;
use crate::tui::is_meta_reply;
use crate::tui::looks_like_tool_json;
use crate::tui::meta_reply;
use crate::tui::sanitize_agent_text;
use crate::tui::sanitized;
use crate::tui::spinner;
use crate::tui::spinner_frames;
use crate::tui::tool_json_like;
use crate::wrap::wrap_text;
use crate::wrap::wrapped;
use crate::markdown::can_render;
use crate::cards::preview_can_draw;
use crate::cards::tool_start_rows;
use crate::cards::tool_end_rows;
use crate::cards::format_tool_start;
use crate::cards::format_tool_start_checked;
use crate::cards::format_tool_end;
use crate::cards::start_ok;
use crate::cards::end_ok;
use crate::cards::parsed_args;
use crate::tools::path_keys;
use crate::keys::SlashCommand;
use crate::keys::SlashView;
use crate::keys::UiState;
use crate::keys::UiView;
use crate::keys::Screen;
use crate::keys::help_text;
use crate::keys::unknown_command_text;
use crate::cards::or_default;
use crate::json::json_parse;
use crate::json::json_text;
use crate::json::parse_json;
use crate::json::to_json_text;
use crate::tools::first_str;
use crate::tools::key_views;
use crate::tools::get_str;
use crate::toolcall::ToolCallParser;
use crate::toolcall::parse_calls;
use crate::toolcall::call_views;
use crate::tui::tool_json_blob;
use crate::tui::extract_tool_json_blob;
use crate::text::decimal;
use crate::text::decimal_string;
use crate::text::str_eq;
use crate::text::push_char;
use crate::highlight::code_can_draw;
use crate::tui::lang_from_path;

verus! {

/// Who a line of the conversation comes from, which decides its look.
#[derive(Clone, Copy, Debug, PartialEq, Eq, Structural)]
pub enum ChatLineKind {
    User,
    Agent,
    Tool,
    ToolOk,
    ToolErr,
    System,
    Error,
}

/// The look of a kind of line.
pub open spec fn kind_look(kind: ChatLineKind) -> Look {
    match kind {
        ChatLineKind::User => bold_look(tone_look(Tone::White)),
        ChatLineKind::Agent => tone_look(Tone::Gray),
        ChatLineKind::Tool => tone_look(Tone::Cyan),
        ChatLineKind::ToolOk => tone_look(Tone::Green),
        ChatLineKind::ToolErr => tone_look(Tone::Red),
        ChatLineKind::System => tone_look(Tone::DarkGray),
        ChatLineKind::Error => bold_look(tone_look(Tone::Red)),
    }
}

/// The look of a kind of line (see `kind_look`).
pub fn kind_style(kind: &ChatLineKind) -> (r: Look)
    ensures
        r == kind_look(*kind),
{
    match kind {
        ChatLineKind::User => Look { fg: Tone::White, bold: true, italic: false },
        ChatLineKind::Agent => Look { fg: Tone::Gray, bold: false, italic: false },
        ChatLineKind::Tool => Look { fg: Tone::Cyan, bold: false, italic: false },
        ChatLineKind::ToolOk => Look { fg: Tone::Green, bold: false, italic: false },
        ChatLineKind::ToolErr => Look { fg: Tone::Red, bold: false, italic: false },
        ChatLineKind::System => Look { fg: Tone::DarkGray, bold: false, italic: false },
        ChatLineKind::Error => Look { fg: Tone::Red, bold: true, italic: false },
    }
}

/// What a line of the conversation holds: text, or rows already styled.
pub enum ChatContent {
    Text(String),
    Rich(Vec<Vec<Run>>),
}

/// A line of the conversation.
pub struct ChatLine {
    pub kind: ChatLineKind,
    pub content: ChatContent,
}

/// A conversation line's content as mathematical data.
pub ghost enum ContentView {
    Text(Seq<char>),
    Rich(Seq<Seq<RunView>>),
}

impl View for ChatLine {
    type V = (ChatLineKind, ContentView);

    open spec fn view(&self) -> (ChatLineKind, ContentView) {
        (
            self.kind,
            match &self.content {
                ChatContent::Text(t) => ContentView::Text(t@),
                ChatContent::Rich(rows) => ContentView::Rich(lines_view(rows@)),
            },
        )
    }
}

impl ChatLine {
    /// A line of text.
    pub fn text(s: String, kind: ChatLineKind) -> (r: ChatLine)
        ensures
            r@ == (kind, ContentView::Text(s@)),
    {
        ChatLine { kind, content: ChatContent::Text(s) }
    }

    /// A line of styled rows.
    pub fn rich(lines: Vec<Vec<Run>>, kind: ChatLineKind) -> (r: ChatLine)
        ensures
            r@ == (kind, ContentView::Rich(lines_view(lines@))),
    {
        ChatLine { kind, content: ChatContent::Rich(lines) }
    }
}

/// The text of a row, its runs put together.
pub open spec fn plain_text(runs: Seq<RunView>) -> Seq<char>
    decreases runs.len(),
{
    if runs.len() == 0 {
        Seq::empty()
    } else {
        plain_text(runs.drop_last()) + runs.last().0
    }
}

/// A row of a drawn box: its text starts with a box-drawing edge.
pub open spec fn card_line(runs: Seq<RunView>) -> bool {
    let p = plain_text(runs);
    has_prefix(p, "│"@) || has_prefix(p, "╭"@) || has_prefix(p, "╰"@) || has_prefix(p, "┌"@) || has_prefix(
        p,
        "└"@,
    )
}

/// A styled row fitted to a width, two columns kept free: kept as it is
/// when it fits; a box row cut short with an ellipsis; any other row
/// wrapped as plain text.
pub open spec fn rich_rows(runs: Seq<RunView>, width: nat) -> Seq<Seq<RunView>> {
    let p = plain_text(runs);
    let w: nat = if width >= 2 { (width - 2) as nat } else { 0 };
    if p.len() <= w {
        seq![runs]
    } else if card_line(runs) {
        seq![seq![(prefix_upto(p, if w >= 1 { (w - 1) as nat } else { 0 }) + "…"@, tone_look(Tone::DarkGray))]]
    } else {
        wrapped(p, w).map_values(|row: Seq<char>| seq![(row, plain_look())])
    }
}

/// The text of a row (see `plain_text`).
pub fn row_text(line: &Vec<Run>) -> (r: String)
    ensures
        r@ == plain_text(runs_view(line@)),
{
    let mut out = String::new();
    let mut i: usize = 0;
    while i < line.len()
        invariant
            i <= line.len(),
            out@ == plain_text(runs_view(line@).take(i as int)),
        decreases line.len() - i,
    {
        push_str(&mut out, line[i].text.as_str());
        assert(runs_view(line@).take(i + 1).drop_last() =~= runs_view(line@).take(i as int));
        i = i + 1;
    }
    assert(runs_view(line@).take(i as int) =~= runs_view(line@));
    out
}

/// A copy of a row.
pub fn copy_row(line: &Vec<Run>) -> (r: Vec<Run>)
    ensures
        runs_view(r@) == runs_view(line@),
{
    let mut out: Vec<Run> = Vec::new();
    let mut i: usize = 0;
    while i < line.len()
        invariant
            i <= line.len(),
            runs_view(out@) == runs_view(line@).take(i as int),
        decreases line.len() - i,
    {
        let r = Run::of(line[i].text.as_str(), line[i].look);
        let ghost before = runs_view(out@);
        out.push(r);
        assert(runs_view(out@) =~= before.push(r@));
        assert(runs_view(line@).take(i + 1) =~= runs_view(line@).take(i as int).push(line@[i as int]@));
        i = i + 1;
    }
    assert(runs_view(line@).take(i as int) =~= runs_view(line@));
    out
}

/// Whether a row is a row of a drawn box (see `card_line`).
pub fn is_card_line(line: &Vec<Run>) -> (r: bool)
    ensures
        r == card_line(runs_view(line@)),
{
    let plain = row_text(line);
    let p = plain.as_str();
    starts_with_str(p, "│") || starts_with_str(p, "╭") || starts_with_str(p, "╰") || starts_with_str(p, "┌")
        || starts_with_str(p, "└")
}

/// Rows of plain text, each one run with no look.
pub fn plain_rows(rows: &Vec<String>, look: Look) -> (r: Vec<Vec<Run>>)
    ensures
        lines_view(r@) == string_views(rows@).map_values(|row: Seq<char>| seq![(row, look)]),
{
    let ghost target = string_views(rows@).map_values(|row: Seq<char>| seq![(row, look)]);
    let mut out: Vec<Vec<Run>> = Vec::new();
    let mut i: usize = 0;
    while i < rows.len()
        invariant
            i <= rows.len(),
            target == string_views(rows@).map_values(|row: Seq<char>| seq![(row, look)]),
            lines_view(out@) == target.take(i as int),
        decreases rows.len() - i,
    {
        let mut row: Vec<Run> = Vec::new();
        row.push(Run::of(rows[i].as_str(), look));
        let ghost rv = runs_view(row@);
        assert(rv =~= seq![(rows@[i as int]@, look)]);
        let ghost before = lines_view(out@);
        out.push(row);
        assert(lines_view(out@) =~= before.push(rv));
        assert(target.take(i + 1) =~= target.take(i as int).push(target[i as int]));
        i = i + 1;
    }
    assert(target.take(i as int) =~= target);
    out
}

/// A styled row fitted to a width (see `rich_rows`).
pub fn wrap_rich_line(line: &Vec<Run>, width: usize) -> (r: Vec<Vec<Run>>)
    ensures
        lines_view(r@) == rich_rows(runs_view(line@), width as nat),
{
    let plain = row_text(line);
    let w = width.saturating_sub(2);
    let count = chars_of(plain.as_str()).len();
    if count <= w {
        let mut out: Vec<Vec<Run>> = Vec::new();
        let row = copy_row(line);
        let ghost rv = runs_view(row@);
        out.push(row);
        assert(lines_view(out@) =~= seq![rv]);
        return out;
    }
    if is_card_line(line) {
        let mut t = take_chars(plain.as_str(), w.saturating_sub(1));
        push_str(&mut t, "…");
        let mut row: Vec<Run> = Vec::new();
        let ghost tv = t@;
        row.push(Run::new(t, Look { fg: Tone::DarkGray, bold: false, italic: false }));
        let ghost rv = runs_view(row@);
        assert(rv =~= seq![(tv, tone_look(Tone::DarkGray))]);
        assert(tv == prefix_upto(plain@, if w >= 1 { (w - 1) as nat } else { 0 }) + "…"@);
        let mut out: Vec<Vec<Run>> = Vec::new();
        out.push(row);
        assert(lines_view(out@) =~= seq![rv]);
        return out;
    }
    let rows = wrap_text(plain.as_str(), w);
    plain_rows(&rows, Look { fg: Tone::Unset, bold: false, italic: false })
}

/// Markdown rows with a cursor run added to the last one, or as a row of
/// its own when there are none; with an empty cursor, the rows alone.
pub open spec fn with_cursor(rows: Seq<Seq<RunView>>, cursor: Seq<char>) -> Seq<Seq<RunView>> {
    if cursor.len() == 0 {
        rows
    } else if rows.len() > 0 {
        rows.update(rows.len() - 1, rows.last().push((cursor, plain_look())))
    } else {
        seq![seq![(cursor, plain_look())]]
    }
}

/// Appends Markdown rows with a cursor (see `with_cursor`).
pub fn push_markdown_with_cursor(out: &mut Vec<Vec<Run>>, text: &str, style: Look, width: usize, cursor: &str)
    requires
        renderable(text@),
    ensures
        lines_view(final(out)@) == lines_view(old(out)@) + with_cursor(
            markdown_rows(text@, style, width as nat),
            cursor@,
        ),
{
    let mut lines = render(text, style, width);
    if cursor.is_empty() {
        append_rows(out, lines);
        return;
    }
    let n = lines.len();
    if n > 0 {
        let ghost before = lines_view(lines@);
        let mut last = lines.pop().unwrap();
        assert(runs_view(last@) == before.last());
        assert(lines_view(lines@) =~= before.drop_last());
        let c = Run::of(cursor, Look { fg: Tone::Unset, bold: false, italic: false });
        let ghost lastv = runs_view(last@);
        last.push(c);
        assert(runs_view(last@) =~= lastv.push((cursor@, plain_look())));
        let ghost newlast = runs_view(last@);
        lines.push(last);
        assert(lines_view(lines@) =~= before.drop_last().push(newlast));
        assert(before.drop_last().push(newlast) =~= before.update(before.len() - 1, before.last().push((cursor@, plain_look()))));
        assert(lines_view(lines@) =~= before.update(before.len() - 1, before.last().push((cursor@, plain_look()))));
        append_rows(out, lines);
    } else {
        let mut row: Vec<Run> = Vec::new();
        row.push(Run::of(cursor, Look { fg: Tone::Unset, bold: false, italic: false }));
        let ghost rv = runs_view(row@);
        assert(rv =~= seq![(cursor@, plain_look())]);
        let mut rows: Vec<Vec<Run>> = Vec::new();
        rows.push(row);
        assert(lines_view(rows@) =~= seq![rv]);
        assert(lines_view(lines@) =~= Seq::<Seq<RunView>>::empty());
        append_rows(out, rows);
    }
}

} // verus!

verus! {

/// Styled rows, each fitted to a width (see `rich_rows`).
pub open spec fn flat_rich(rows: Seq<Seq<RunView>>, width: nat) -> Seq<Seq<RunView>>
    decreases rows.len(),
{
    if rows.len() == 0 {
        Seq::empty()
    } else {
        flat_rich(rows.drop_last(), width) + rich_rows(rows.last(), width)
    }
}

/// The frame of the spinner for a tick.
pub open spec fn spinner_at(tick: usize) -> Seq<char> {
    spinner_frames()[tick as int % 10]
}

/// The rows of the reply streaming in: none while nothing has come; the
/// card of a tool call it holds, with a spinner while the agent runs; a
/// note while a call is being prepared; else the reply as Markdown, with
/// a cursor while the agent runs, unless it only says the work is done.
pub open spec fn live_rows(live: Seq<char>, running: bool, tick: usize, width: nat) -> Seq<Seq<RunView>> {
    if live.len() == 0 {
        Seq::empty()
    } else {
        match preview_rows(live) {
            Some(rows) => flat_rich(rows, width) + (if running {
                seq![seq![(spinner_at(tick) + " streaming"@, tone_look(Tone::Magenta))]]
            } else {
                Seq::empty()
            }),
            None => {
                let clean = sanitized(live);
                if clean.len() == 0 && tool_json_like(live) {
                    seq![seq![(spinner_at(tick) + " preparing tool…"@, tone_look(Tone::Cyan))]]
                } else if clean.len() > 0 && !meta_reply(clean) {
                    with_cursor(
                        markdown_rows(clean, kind_look(ChatLineKind::Agent), width),
                        if running { "▌"@ } else { Seq::empty() },
                    )
                } else {
                    Seq::empty()
                }
            },
        }
    }
}

/// The streaming reply can be drawn.
pub open spec fn live_ok(live: Seq<char>) -> bool {
    live.len() == 0 || (preview_ok(live) && (preview_rows(live) is None ==> {
        let clean = sanitized(live);
        (clean.len() > 0 && !meta_reply(clean)) ==> renderable(clean)
    }))
}

/// The rows of one line of the conversation: the agent's text with tool
/// calls taken out, left out when empty or when it only says the work is
/// done; the user's and the agent's text as Markdown, other text wrapped;
/// styled rows each fitted to the width.
pub open spec fn message_rows(msg: (ChatLineKind, ContentView), width: nat) -> Seq<Seq<RunView>> {
    let kind = msg.0;
    match msg.1 {
        ContentView::Text(t) => {
            let display = if kind == ChatLineKind::Agent { sanitized(t) } else { t };
            if display.len() == 0 || (kind == ChatLineKind::Agent && meta_reply(display)) {
                Seq::empty()
            } else if kind == ChatLineKind::Agent || kind == ChatLineKind::User {
                markdown_rows(display, kind_look(kind), width)
            } else {
                wrapped(display, width).map_values(|row: Seq<char>| seq![(row, kind_look(kind))])
            }
        },
        ContentView::Rich(rows) => flat_rich(rows, width),
    }
}

/// A line of the conversation can be drawn.
pub open spec fn message_ok(msg: (ChatLineKind, ContentView)) -> bool {
    let kind = msg.0;
    match msg.1 {
        ContentView::Text(t) => {
            let display = if kind == ChatLineKind::Agent { sanitized(t) } else { t };
            (display.len() > 0 && !(kind == ChatLineKind::Agent && meta_reply(display)) && (kind
                == ChatLineKind::Agent || kind == ChatLineKind::User)) ==> renderable(display)
        },
        ContentView::Rich(rows) => true,
    }
}

/// The rows of several lines of the conversation, one after another.
pub open spec fn messages_rows(msgs: Seq<(ChatLineKind, ContentView)>, width: nat) -> Seq<Seq<RunView>>
    decreases msgs.len(),
{
    if msgs.len() == 0 {
        Seq::empty()
    } else {
        messages_rows(msgs.drop_last(), width) + message_rows(msgs.last(), width)
    }
}

/// The views of the lines of the conversation.
pub open spec fn chat_views(v: Seq<ChatLine>) -> Seq<(ChatLineKind, ContentView)> {
    v.map_values(|m: ChatLine| m@)
}

/// The rows of the whole conversation at a width, one column kept free:
/// the lines so far, then the reply streaming in.
pub open spec fn conversation_rows(
    msgs: Seq<(ChatLineKind, ContentView)>,
    live: Seq<char>,
    running: bool,
    tick: usize,
    width: nat,
) -> Seq<Seq<RunView>> {
    let w: nat = if width >= 1 { (width - 1) as nat } else { 0 };
    messages_rows(msgs, w) + live_rows(live, running, tick, w)
}

/// Every line of the conversation and the reply streaming in can be drawn.
pub open spec fn conversation_ok(msgs: Seq<(ChatLineKind, ContentView)>, live: Seq<char>) -> bool {
    live_ok(live) && forall|i: int| 0 <= i < msgs.len() ==> message_ok(#[trigger] msgs[i])
}

/// Appends styled rows, each fitted to a width.
fn push_rich_rows(out: &mut Vec<Vec<Run>>, rows: &Vec<Vec<Run>>, width: usize)
    ensures
        lines_view(final(out)@) == lines_view(old(out)@) + flat_rich(lines_view(rows@), width as nat),
{
    let ghost start = lines_view(out@);
    let ghost rv = lines_view(rows@);
    let mut i: usize = 0;
    assert(rv.take(0) =~= Seq::<Seq<RunView>>::empty());
    assert(start + flat_rich(rv.take(0), width as nat) =~= start);
    while i < rows.len()
        invariant
            i <= rows.len(),
            rv == lines_view(rows@),
            lines_view(out@) == start + flat_rich(rv.take(i as int), width as nat),
        decreases rows.len() - i,
    {
        let more = wrap_rich_line(&rows[i], width);
        append_rows(out, more);
        assert(rv.take(i + 1).drop_last() =~= rv.take(i as int));
        i = i + 1;
    }
    assert(rv.take(i as int) =~= rv);
}

/// One row of one run.
fn note_row(text: String, look: Look) -> (r: Vec<Vec<Run>>)
    ensures
        lines_view(r@) == seq![seq![(text@, look)]],
{
    let mut row: Vec<Run> = Vec::new();
    let ghost tv = text@;
    row.push(Run::new(text, look));
    let ghost rv = runs_view(row@);
    assert(rv =~= seq![(tv, look)]);
    let mut out: Vec<Vec<Run>> = Vec::new();
    out.push(row);
    assert(lines_view(out@) =~= seq![rv]);
    out
}

/// Appends the rows of the reply streaming in (see `live_rows`).
pub fn push_live_stream(out: &mut Vec<Vec<Run>>, live: &str, agent_running: bool, spinner_tick: usize, width: usize)
    requires
        live_ok(live@),
    ensures
        lines_view(final(out)@) == lines_view(old(out)@) + live_rows(live@, agent_running, spinner_tick, width as nat),
{
    proof {
        reveal_strlit("");
    }
    if live.is_empty() {
        assert(lines_view(out@) + Seq::<Seq<RunView>>::empty() =~= lines_view(out@));
        return;
    }
    match preview_streaming_tool(live) {
        Some(lines) => {
            push_rich_rows(out, &lines, width);
            if agent_running {
                let t = concat2(spinner(spinner_tick), " streaming");
                append_rows(out, note_row(t, Look { fg: Tone::Magenta, bold: false, italic: false }));
            } else {
                assert(lines_view(out@) + Seq::<Seq<RunView>>::empty() =~= lines_view(out@));
            }
            return;
        },
        None => {},
    }
    let clean = sanitize_agent_text(live);
    if clean.as_str().is_empty() && looks_like_tool_json(live) {
        let t = concat2(spinner(spinner_tick), " preparing tool…");
        append_rows(out, note_row(t, Look { fg: Tone::Cyan, bold: false, italic: false }));
        return;
    }
    if !clean.as_str().is_empty() && !is_meta_reply(clean.as_str()) {
        let cursor = if agent_running { "▌" } else { "" };
        push_markdown_with_cursor(out, clean.as_str(), Look { fg: Tone::Gray, bold: false, italic: false }, width, cursor);
        return;
    }
    assert(lines_view(out@) + Seq::<Seq<RunView>>::empty() =~= lines_view(out@));
}

/// Appends the rows of one line of the conversation (see `message_rows`).
fn push_message(out: &mut Vec<Vec<Run>>, msg: &ChatLine, width: usize)
    requires
        message_ok(msg@),
    ensures
        lines_view(final(out)@) == lines_view(old(out)@) + message_rows(msg@, width as nat),
{
    match &msg.content {
        ChatContent::Text(text) => {
            let display = if msg.kind == ChatLineKind::Agent {
                sanitize_agent_text(text.as_str())
            } else {
                to_owned_string(text.as_str())
            };
            if display.as_str().is_empty() || (msg.kind == ChatLineKind::Agent && is_meta_reply(display.as_str())) {
                assert(lines_view(out@) + Seq::<Seq<RunView>>::empty() =~= lines_view(out@));
                return;
            }
            let style = kind_style(&msg.kind);
            if msg.kind == ChatLineKind::Agent || msg.kind == ChatLineKind::User {
                let rows = render(display.as_str(), style, width);
                append_rows(out, rows);
            } else {
                let rows = wrap_text(display.as_str(), width);
                append_rows(out, plain_rows(&rows, style));
            }
        },
        ChatContent::Rich(rows) => {
            push_rich_rows(out, rows, width);
        },
    }
}

/// The rows of the whole conversation (see `conversation_rows`).
pub fn build_wrapped_rows(messages: &Vec<ChatLine>, live: &str, agent_running: bool, spinner_tick: usize, width: usize) -> (r: Vec<Vec<Run>>)
    requires
        conversation_ok(chat_views(messages@), live@),
    ensures
        lines_view(r@) == conversation_rows(chat_views(messages@), live@, agent_running, spinner_tick, width as nat),
{
    let inner_w = width.saturating_sub(1);
    let ghost mv = chat_views(messages@);
    let mut out: Vec<Vec<Run>> = Vec::new();
    let mut i: usize = 0;
    assert(lines_view(out@) =~= messages_rows(mv.take(0), inner_w as nat));
    while i < messages.len()
        invariant
            i <= messages.len(),
            mv == chat_views(messages@),
            conversation_ok(mv, live@),
            lines_view(out@) == messages_rows(mv.take(i as int), inner_w as nat),
        decreases messages.len() - i,
    {
        assert(mv[i as int] == messages@[i as int]@);
        assert(message_ok(mv[i as int]));
        push_message(&mut out, &messages[i], inner_w);
        assert(mv.take(i + 1).drop_last() =~= mv.take(i as int));
        i = i + 1;
    }
    assert(mv.take(i as int) =~= mv);
    push_live_stream(&mut out, live, agent_running, spinner_tick, inner_w);
    out
}

/// Whether the whole conversation can be drawn (see `conversation_ok`).
pub fn conversation_can_draw(messages: &Vec<ChatLine>, live: &str) -> (r: bool)
    ensures
        r == conversation_ok(chat_views(messages@), live@),
{
    let ghost mv = chat_views(messages@);
    let mut i: usize = 0;
    while i < messages.len()
        invariant
            i <= messages.len(),
            mv == chat_views(messages@),
            forall|k: int| 0 <= k < i ==> message_ok(#[trigger] mv[k]),
        decreases messages.len() - i,
    {
        assert(mv[i as int] == messages@[i as int]@);
        let msg = &messages[i];
        match &msg.content {
            ChatContent::Text(text) => {
                let display = if msg.kind == ChatLineKind::Agent {
                    sanitize_agent_text(text.as_str())
                } else {
                    to_owned_string(text.as_str())
                };
                if !display.as_str().is_empty() && !(msg.kind == ChatLineKind::Agent && is_meta_reply(display.as_str()))
                    && (msg.kind == ChatLineKind::Agent || msg.kind == ChatLineKind::User) {
                    if !can_render(display.as_str()) {
                        return false;
                    }
                }
            },
            ChatContent::Rich(_) => {},
        }
        i = i + 1;
    }
    if live.is_empty() {
        return true;
    }
    if !preview_can_draw(live) {
        return false;
    }
    match preview_streaming_tool(live) {
        Some(_) => true,
        None => {
            let clean = sanitize_agent_text(live);
            if !clean.as_str().is_empty() && !is_meta_reply(clean.as_str()) {
                can_render(clean.as_str())
            } else {
                true
            }
        },
    }
}

/// The rows of the whole conversation, or `None` where some part of it
/// could not be drawn (see `conversation_ok`).
pub fn build_wrapped_rows_checked(
    messages: &Vec<ChatLine>,
    live: &str,
    agent_running: bool,
    spinner_tick: usize,
    width: usize,
) -> (r: Option<Vec<Vec<Run>>>)
    ensures
        match r {
            Some(rows) => conversation_ok(chat_views(messages@), live@) && lines_view(rows@) == conversation_rows(
                chat_views(messages@),
                live@,
                agent_running,
                spinner_tick,
                width as nat,
            ),
            None => !conversation_ok(chat_views(messages@), live@),
        },
{
    if conversation_can_draw(messages, live) {
        Some(build_wrapped_rows(messages, live, agent_running, spinner_tick, width))
    } else {
        None
    }
}

} // verus!

verus! {

/// What the agent reports while it works, as the chat sees it.
pub enum ChatEvent {
    Thinking,
    AssistantDelta { text: String },
    AssistantClear,
    ToolStart { name: String, args: String },
    ToolEnd { name: String, output: String, duration_ms: u64, success: bool },
    RetrievalTrace,
    TokenUpdate { prompt: u32, completion: u32 },
    DiffPreview { path: String, old_content: String, new_content: String },
    TurnComplete { response: String },
    Error { message: String },
    IndexReady { symbols: usize, files: usize, duration_ms: u64 },
}

/// A file change waiting to be kept or reverted.
pub struct DiffOverlay {
    pub path: String,
    pub old_content: String,
    pub new_content: String,
}

/// The part of the chat screen that events change.
pub struct ChatState {
    pub messages: Vec<ChatLine>,
    pub live_assistant: String,
    pub last_file_path: Option<String>,
    pub stream_tool_persisted: bool,
    pub status_tokens: String,
    pub status_index: String,
    pub diff_overlay: Option<DiffOverlay>,
}

/// The chat state as mathematical data.
pub ghost struct ChatStateView {
    pub messages: Seq<(ChatLineKind, ContentView)>,
    pub live: Seq<char>,
    pub last_file_path: Option<Seq<char>>,
    pub persisted: bool,
    pub status_tokens: Seq<char>,
    pub status_index: Seq<char>,
    pub diff: Option<(Seq<char>, Seq<char>, Seq<char>)>,
}

impl View for ChatState {
    type V = ChatStateView;

    open spec fn view(&self) -> ChatStateView {
        ChatStateView {
            messages: chat_views(self.messages@),
            live: self.live_assistant@,
            last_file_path: match &self.last_file_path {
                Some(p) => Some(p@),
                None => None,
            },
            persisted: self.stream_tool_persisted,
            status_tokens: self.status_tokens@,
            status_index: self.status_index@,
            diff: match &self.diff_overlay {
                Some(d) => Some((d.path@, d.old_content@, d.new_content@)),
                None => None,
            },
        }
    }
}

/// The card kept when a streamed reply ends: its preview, or else the card
/// of the first complete call in its JSON.
pub open spec fn persisted_rows(live: Seq<char>) -> Option<Seq<Seq<RunView>>> {
    match preview_rows(live) {
        Some(r) => Some(r),
        None => match tool_json_blob(live) {
            None => None,
            Some(blob) => {
                let calls = parse_calls(blob);
                if calls.len() == 0 {
                    None
                } else {
                    let a = json_text(calls[0].arguments);
                    Some(tool_start_rows(calls[0].name, parsed_args(a), a))
                }
            },
        },
    }
}

/// The card kept when a streamed reply ends can be drawn.
pub open spec fn persist_ok(live: Seq<char>) -> bool {
    live.len() == 0 || (preview_ok(live) && (preview_rows(live) is None ==> match tool_json_blob(live) {
        None => true,
        Some(blob) => {
            let calls = parse_calls(blob);
            calls.len() > 0 ==> start_ok(calls[0].name, parsed_args(json_text(calls[0].arguments)))
        },
    }))
}

/// Keeping the card of a streamed reply, if it has one, as a tool line.
pub open spec fn after_persist(st: ChatStateView) -> ChatStateView {
    if st.live.len() == 0 {
        st
    } else {
        match persisted_rows(st.live) {
            Some(rows) => ChatStateView {
                messages: st.messages.push((ChatLineKind::Tool, ContentView::Rich(rows))),
                persisted: true,
                ..st
            },
            None => st,
        }
    }
}

/// The position of the last tool line before `i`.
pub open spec fn last_tool_before(msgs: Seq<(ChatLineKind, ContentView)>, i: int) -> Option<int>
    decreases i,
{
    if i <= 0 {
        None
    } else if msgs[i - 1].0 == ChatLineKind::Tool {
        Some(i - 1)
    } else {
        last_tool_before(msgs, i - 1)
    }
}

/// Showing a tool card: replacing the last tool line when the streamed
/// card was kept, else adding a tool line.
pub open spec fn after_upsert(st: ChatStateView, rows: Seq<Seq<RunView>>) -> ChatStateView {
    if st.persisted {
        let msgs = match last_tool_before(st.messages, st.messages.len() as int) {
            Some(k) => st.messages.update(k, (ChatLineKind::Tool, ContentView::Rich(rows))),
            None => st.messages.push((ChatLineKind::Tool, ContentView::Rich(rows))),
        };
        ChatStateView { messages: msgs, persisted: false, ..st }
    } else {
        ChatStateView { messages: st.messages.push((ChatLineKind::Tool, ContentView::Rich(rows))), ..st }
    }
}

/// The row that says a file was saved.
pub open spec fn saved_row(path: Seq<char>) -> Seq<RunView> {
    seq![("✓ "@, tone_look(Tone::Green)), ("saved "@ + path, tone_look(Tone::Green))]
}

/// What one event does to the chat: streamed text is added to the reply;
/// a cleared reply keeps its card; a tool that starts notes the file it
/// names and shows its card (a read shows none until it ends); a tool that
/// ends adds its result (a file written or patched successfully as a
/// saved line); token counts, index statistics, diffs and errors are shown.
pub open spec fn event_effect(st: ChatStateView, ev: ChatEvent) -> ChatStateView {
    match ev {
        ChatEvent::AssistantDelta { text } => ChatStateView { live: st.live + text@, ..st },
        ChatEvent::AssistantClear => ChatStateView { live: Seq::empty(), ..after_persist(st) },
        ChatEvent::ToolStart { name, args } => {
            let st1 = match json_parse(args@) {
                Some(v) => match first_str(v, path_keys()) {
                    Some(p) => ChatStateView { last_file_path: Some(p), ..st },
                    None => st,
                },
                None => st,
            };
            if name@ == "read_file"@ {
                st1
            } else {
                after_upsert(st1, tool_start_rows(name@, parsed_args(args@), args@))
            }
        },
        ChatEvent::ToolEnd { name, output, duration_ms, success } => {
            if name@ == "write_file"@ || name@ == "patch"@ {
                if success {
                    let path = or_default(st.last_file_path, "?"@);
                    ChatStateView {
                        messages: st.messages.push((ChatLineKind::ToolOk, ContentView::Rich(seq![saved_row(path)]))),
                        ..st
                    }
                } else {
                    ChatStateView {
                        messages: st.messages.push(
                            (
                                ChatLineKind::ToolErr,
                                ContentView::Rich(tool_end_rows(name@, output@, success, st.last_file_path)),
                            ),
                        ),
                        ..st
                    }
                }
            } else {
                let kind = if success { ChatLineKind::ToolOk } else { ChatLineKind::ToolErr };
                ChatStateView {
                    messages: st.messages.push(
                        (kind, ContentView::Rich(tool_end_rows(name@, output@, success, st.last_file_path))),
                    ),
                    ..st
                }
            }
        },
        ChatEvent::TokenUpdate { prompt, completion } => ChatStateView {
            status_tokens: "prompt:"@ + decimal(prompt as nat) + " compl:"@ + decimal(completion as nat),
            ..st
        },
        ChatEvent::DiffPreview { path, old_content, new_content } => ChatStateView {
            diff: Some((path@, old_content@, new_content@)),
            ..st
        },
        ChatEvent::IndexReady { symbols, files, duration_ms } => ChatStateView {
            status_index: decimal(symbols as nat) + " sym · "@ + decimal(files as nat) + " files · "@ + decimal(
                duration_ms as nat,
            ) + "ms"@,
            ..st
        },
        ChatEvent::Error { message } => ChatStateView {
            messages: st.messages.push((ChatLineKind::Error, ContentView::Text(message@))),
            ..st
        },
        _ => st,
    }
}

/// An event's cards can be drawn.
pub open spec fn event_ok(st: ChatStateView, ev: ChatEvent) -> bool {
    match ev {
        ChatEvent::AssistantClear => persist_ok(st.live),
        ChatEvent::ToolStart { name, args } => name@ != "read_file"@ ==> start_ok(name@, parsed_args(args@)),
        ChatEvent::ToolEnd { name, output, duration_ms, success } => end_ok(name@, output@, success, st.last_file_path),
        _ => true,
    }
}

} // verus!

verus! {

impl ChatState {
    /// No lines, no reply, nothing indexed yet.
    pub fn new() -> (r: ChatState)
        ensures
            r@.messages.len() == 0,
            r@.live.len() == 0,
            r@.last_file_path is None,
            !r@.persisted,
            r@.status_tokens.len() == 0,
            r@.status_index == "not indexed"@,
            r@.diff is None,
    {
        let r = ChatState {
            messages: Vec::new(),
            live_assistant: String::new(),
            last_file_path: None,
            stream_tool_persisted: false,
            status_tokens: String::new(),
            status_index: to_owned_string("not indexed"),
            diff_overlay: None,
        };
        assert(r@.messages =~= Seq::<(ChatLineKind, ContentView)>::empty());
        r
    }

    /// Keeps the card of the streamed reply, if it has one (see `after_persist`).
    pub fn persist_streaming_tool(&mut self)
        requires
            persist_ok(old(self)@.live),
        ensures
            final(self)@ == after_persist(old(self)@),
    {
        if self.live_assistant.as_str().is_empty() {
            return;
        }
        let lines = match preview_streaming_tool(self.live_assistant.as_str()) {
            Some(l) => Some(l),
            None => match extract_tool_json_blob(self.live_assistant.as_str()) {
                None => None,
                Some(blob) => {
                    let calls = ToolCallParser::parse(blob.as_str());
                    if calls.len() == 0 {
                        None
                    } else {
                        assert(call_views(calls@)[0] == calls@[0]@);
                        let a = to_json_text(&calls[0].arguments);
                        Some(format_tool_start(calls[0].name.as_str(), a.as_str()))
                    }
                },
            },
        };
        match lines {
            Some(rows) => {
                let ghost before = chat_views(self.messages@);
                let line = ChatLine::rich(rows, ChatLineKind::Tool);
                let ghost lv = line@;
                self.messages.push(line);
                assert(chat_views(self.messages@) =~= before.push(lv));
                self.stream_tool_persisted = true;
            },
            None => {},
        }
    }

    /// Shows a tool card (see `after_upsert`).
    pub fn upsert_tool_message(&mut self, lines: Vec<Vec<Run>>)
        ensures
            final(self)@ == after_upsert(old(self)@, lines_view(lines@)),
    {
        let ghost before = chat_views(self.messages@);
        let ghost rows = lines_view(lines@);
        if self.stream_tool_persisted {
            let mut k = self.messages.len();
            while k > 0 && self.messages[k - 1].kind != ChatLineKind::Tool
                invariant
                    k <= self.messages.len(),
                    before == chat_views(self.messages@),
                    last_tool_before(before, before.len() as int) == last_tool_before(before, k as int),
                decreases k,
            {
                assert(before[k - 1] == self.messages@[k - 1]@);
                k = k - 1;
            }
            if k > 0 {
                assert(before[k - 1] == self.messages@[k - 1]@);
                let line = ChatLine::rich(lines, ChatLineKind::Tool);
                let ghost lv = line@;
                self.messages.set(k - 1, line);
                assert(chat_views(self.messages@) =~= before.update(k - 1, lv));
            } else {
                let line = ChatLine::rich(lines, ChatLineKind::Tool);
                let ghost lv = line@;
                self.messages.push(line);
                assert(chat_views(self.messages@) =~= before.push(lv));
            }
            self.stream_tool_persisted = false;
        } else {
            let line = ChatLine::rich(lines, ChatLineKind::Tool);
            let ghost lv = line@;
            self.messages.push(line);
            assert(chat_views(self.messages@) =~= before.push(lv));
        }
    }

    /// Adds a line of the conversation.
    pub fn push_line(&mut self, line: ChatLine)
        ensures
            final(self)@ == (ChatStateView { messages: old(self)@.messages.push(line@), ..old(self)@ }),
    {
        let ghost before = chat_views(self.messages@);
        let ghost lv = line@;
        self.messages.push(line);
        assert(chat_views(self.messages@) =~= before.push(lv));
    }

    /// Applies one event (see `event_effect`).
    pub fn apply_event(&mut self, ev: ChatEvent)
        requires
            event_ok(old(self)@, ev),
        ensures
            final(self)@ == event_effect(old(self)@, ev),
    {
        match ev {
            ChatEvent::AssistantDelta { text } => {
                push_str(&mut self.live_assistant, text.as_str());
            },
            ChatEvent::AssistantClear => {
                self.persist_streaming_tool();
                self.live_assistant = String::new();
            },
            ChatEvent::ToolStart { name, args } => {
                match parse_json(args.as_str()) {
                    Some(parsed) => {
                        let path_k: [&str; 4] = ["path", "file_path", "filename", "file"];
                        let pk: &[&str] = &path_k;
                        assert(key_views(pk@) =~= path_keys());
                        match get_str(&parsed, pk) {
                            Some(p) => {
                                self.last_file_path = Some(to_owned_string(p));
                            },
                            None => {},
                        }
                    },
                    None => {},
                }
                if !str_eq(name.as_str(), "read_file") {
                    let lines = format_tool_start(name.as_str(), args.as_str());
                    self.upsert_tool_message(lines);
                }
            },
            ChatEvent::ToolEnd { name, output, duration_ms, success } => {
                let path: Option<&str> = match &self.last_file_path {
                    Some(p) => Some(p.as_str()),
                    None => None,
                };
                if str_eq(name.as_str(), "write_file") || str_eq(name.as_str(), "patch") {
                    if success {
                        let shown = match path {
                            Some(p) => p,
                            None => "?",
                        };
                        let mut row: Vec<Run> = Vec::new();
                        row.push(Run::of("✓ ", Look { fg: Tone::Green, bold: false, italic: false }));
                        row.push(Run::new(concat2("saved ", shown), Look { fg: Tone::Green, bold: false, italic: false }));
                        let ghost rv = runs_view(row@);
                        assert(rv =~= saved_row(or_default(old(self)@.last_file_path, "?"@)));
                        let mut rows: Vec<Vec<Run>> = Vec::new();
                        rows.push(row);
                        assert(lines_view(rows@) =~= seq![rv]);
                        self.push_line(ChatLine::rich(rows, ChatLineKind::ToolOk));
                    } else {
                        let lines = format_tool_end(name.as_str(), output.as_str(), success, path);
                        self.push_line(ChatLine::rich(lines, ChatLineKind::ToolErr));
                    }
                } else {
                    let kind = if success { ChatLineKind::ToolOk } else { ChatLineKind::ToolErr };
                    let lines = format_tool_end(name.as_str(), output.as_str(), success, path);
                    self.push_line(ChatLine::rich(lines, kind));
                }
            },
            ChatEvent::TokenUpdate { prompt, completion } => {
                let mut t = to_owned_string("prompt:");
                push_str(&mut t, decimal_string(prompt as u64).as_str());
                push_str(&mut t, " compl:");
                push_str(&mut t, decimal_string(completion as u64).as_str());
                self.status_tokens = t;
            },
            ChatEvent::DiffPreview { path, old_content, new_content } => {
                self.diff_overlay = Some(DiffOverlay { path, old_content, new_content });
            },
            ChatEvent::IndexReady { symbols, files, duration_ms } => {
                let mut t = decimal_string(symbols as u64);
                push_str(&mut t, " sym · ");
                push_str(&mut t, decimal_string(files as u64).as_str());
                push_str(&mut t, " files · ");
                push_str(&mut t, decimal_string(duration_ms).as_str());
                push_str(&mut t, "ms");
                self.status_index = t;
            },
            ChatEvent::Error { message } => {
                self.push_line(ChatLine::text(message, ChatLineKind::Error));
            },
            _ => {},
        }
    }
}

} // verus!

verus! {

/// Whether an event's cards can be drawn (see `event_ok`).
pub fn event_can_apply(state: &ChatState, ev: &ChatEvent) -> (r: bool)
    ensures
        r == event_ok(state@, *ev),
{
    match ev {
        ChatEvent::AssistantClear => {
            let live = state.live_assistant.as_str();
            if live.is_empty() {
                return true;
            }
            if !preview_can_draw(live) {
                return false;
            }
            match preview_streaming_tool(live) {
                Some(_) => true,
                None => match extract_tool_json_blob(live) {
                    None => true,
                    Some(blob) => {
                        let calls = ToolCallParser::parse(blob.as_str());
                        if calls.len() == 0 {
                            true
                        } else {
                            assert(call_views(calls@)[0] == calls@[0]@);
                            let a = to_json_text(&calls[0].arguments);
                            match format_tool_start_checked(calls[0].name.as_str(), a.as_str()) {
                                Some(_) => true,
                                None => false,
                            }
                        }
                    },
                },
            }
        },
        ChatEvent::ToolStart { name, args } => {
            if str_eq(name.as_str(), "read_file") {
                true
            } else {
                match format_tool_start_checked(name.as_str(), args.as_str()) {
                    Some(_) => true,
                    None => false,
                }
            }
        },
        ChatEvent::ToolEnd { name, output, duration_ms, success } => {
            if str_eq(name.as_str(), "read_file") && *success && !output.as_str().is_empty() {
                let lang = match &state.last_file_path {
                    Some(p) => lang_from_path(p.as_str()),
                    None => "text",
                };
                code_can_draw(output.as_str(), lang)
            } else {
                true
            }
        },
        _ => true,
    }
}

impl ChatState {
    /// Applies one event where its cards can be drawn; otherwise changes
    /// nothing and says so.
    pub fn apply_event_checked(&mut self, ev: ChatEvent) -> (r: bool)
        ensures
            r == event_ok(old(self)@, ev),
            r ==> final(self)@ == event_effect(old(self)@, ev),
            !r ==> final(self)@ == old(self)@,
    {
        if event_can_apply(self, &ev) {
            self.apply_event(ev);
            true
        } else {
            false
        }
    }
}

/// The text of the conversation for copying: each text line (the agent's
/// with tool calls taken out; empty ones left out) and each styled row on
/// a line of its own, then the reply streaming in.
pub open spec fn transcript_of(msgs: Seq<(ChatLineKind, ContentView)>, live: Seq<char>) -> Seq<char> {
    messages_text(msgs) + if live.len() > 0 { live + seq!['\n'] } else { Seq::empty() }
}

/// The text of the lines of the conversation, one after another.
pub open spec fn messages_text(msgs: Seq<(ChatLineKind, ContentView)>) -> Seq<char>
    decreases msgs.len(),
{
    if msgs.len() == 0 {
        Seq::empty()
    } else {
        messages_text(msgs.drop_last()) + message_text(msgs.last())
    }
}

/// The text of one line of the conversation.
pub open spec fn message_text(msg: (ChatLineKind, ContentView)) -> Seq<char> {
    match msg.1 {
        ContentView::Text(t) => {
            let text = if msg.0 == ChatLineKind::Agent { sanitized(t) } else { t };
            if text.len() == 0 { Seq::empty() } else { text + seq!['\n'] }
        },
        ContentView::Rich(rows) => rows_text(rows),
    }
}

/// Styled rows as text, each ended by a newline.
pub open spec fn rows_text(rows: Seq<Seq<RunView>>) -> Seq<char>
    decreases rows.len(),
{
    if rows.len() == 0 {
        Seq::empty()
    } else {
        rows_text(rows.drop_last()) + plain_text(rows.last()) + seq!['\n']
    }
}

/// Where a finished turn leaves the chat: the streamed reply's card is
/// kept and the reply cleared; then the answer, trimmed and with its tool
/// JSON taken out, is added as an agent line unless that leaves nothing or
/// only a remark that the work is done; a failed turn adds its error.
pub open spec fn after_turn(st: ChatStateView, result: Result<Seq<char>, Seq<char>>) -> ChatStateView {
    let cleared = ChatStateView { live: Seq::empty(), persisted: false, ..after_persist(st) };
    match result {
        Ok(resp) => {
            let text = sanitized(trim(resp));
            if text.len() > 0 && !meta_reply(text) {
                ChatStateView { messages: cleared.messages.push((ChatLineKind::Agent, ContentView::Text(text))), ..cleared }
            } else {
                cleared
            }
        },
        Err(e) => ChatStateView {
            messages: cleared.messages.push((ChatLineKind::Error, ContentView::Text("error: "@ + e))),
            ..cleared
        },
    }
}

/// A turn's result as texts.
pub open spec fn result_view(result: Result<String, String>) -> Result<Seq<char>, Seq<char>> {
    match result {
        Ok(s) => Ok(s@),
        Err(e) => Err(e@),
    }
}

impl ChatState {
    /// Closes a turn (see `after_turn`).
    pub fn finish_turn(&mut self, result: Result<String, String>)
        requires
            persist_ok(old(self)@.live),
        ensures
            final(self)@ == after_turn(old(self)@, result_view(result)),
    {
        self.persist_streaming_tool();
        self.live_assistant = String::new();
        self.stream_tool_persisted = false;
        match result {
            Ok(resp) => {
                let text = sanitize_agent_text(trim_str(resp.as_str()));
                if !text.as_str().is_empty() && !is_meta_reply(text.as_str()) {
                    self.push_line(ChatLine::text(text, ChatLineKind::Agent));
                }
            },
            Err(e) => {
                let line = concat2("error: ", e.as_str());
                self.push_line(ChatLine::text(line, ChatLineKind::Error));
            },
        }
    }

    /// Closes a turn where the streamed reply's card can be drawn, and says
    /// whether it could; otherwise changes nothing.
    pub fn finish_turn_checked(&mut self, result: Result<String, String>) -> (r: bool)
        ensures
            r == persist_ok(old(self)@.live),
            r ==> final(self)@ == after_turn(old(self)@, result_view(result)),
            !r ==> final(self)@ == old(self)@,
    {
        if event_can_apply(self, &ChatEvent::AssistantClear) {
            self.finish_turn(result);
            true
        } else {
            false
        }
    }
}

impl ChatState {
    /// The text of the conversation for copying (see `transcript_of`).
    pub fn transcript_plain(&self) -> (r: String)
        ensures
            r@ == transcript_of(self@.messages, self@.live),
    {
        let ghost mv = chat_views(self.messages@);
        let mut out = String::new();
        let mut i: usize = 0;
        while i < self.messages.len()
            invariant
                i <= self.messages.len(),
                mv == chat_views(self.messages@),
                out@ == messages_text(mv.take(i as int)),
            decreases self.messages.len() - i,
        {
            let msg = &self.messages[i];
            assert(mv[i as int] == msg@);
            let ghost before = out@;
            match &msg.content {
                ChatContent::Text(t) => {
                    let text = if msg.kind == ChatLineKind::Agent {
                        sanitize_agent_text(t.as_str())
                    } else {
                        to_owned_string(t.as_str())
                    };
                    if !text.as_str().is_empty() {
                        push_str(&mut out, text.as_str());
                        push_char(&mut out, '\n');
                    }
                    assert(out@ =~= before + message_text(mv[i as int]));
                },
                ChatContent::Rich(rows) => {
                    let ghost rv = lines_view(rows@);
                    let mut k: usize = 0;
                    assert(rv.take(0) =~= Seq::<Seq<RunView>>::empty());
                    assert(out@ =~= before + rows_text(rv.take(0)));
                    while k < rows.len()
                        invariant
                            k <= rows.len(),
                            rv == lines_view(rows@),
                            out@ == before + rows_text(rv.take(k as int)),
                        decreases rows.len() - k,
                    {
                        let t = row_text(&rows[k]);
                        push_str(&mut out, t.as_str());
                        push_char(&mut out, '\n');
                        assert(rv.take(k + 1).drop_last() =~= rv.take(k as int));
                        assert(out@ =~= before + rows_text(rv.take(k + 1)));
                        k = k + 1;
                    }
                    assert(rv.take(k as int) =~= rv);
                },
            }
            assert(mv.take(i + 1).drop_last() =~= mv.take(i as int));
            i = i + 1;
        }
        assert(mv.take(i as int) =~= mv);
        let ghost body = out@;
        if !self.live_assistant.as_str().is_empty() {
            push_str(&mut out, self.live_assistant.as_str());
            push_char(&mut out, '\n');
            assert(out@ =~= body + (self.live_assistant@ + seq!['\n']));
        } else {
            assert(out@ =~= body + Seq::<char>::empty());
        }
        out
    }
}

} // verus!

verus! {

/// Work that a slash command leaves to the program around the screens.
#[derive(Clone, Copy, Debug, PartialEq, Eq, Structural)]
pub enum SlashWork {
    Nothing,
    /// Copy the transcript.
    Copy,
    /// Rebuild the index, then report it (see `work_report`).
    Reindex,
    /// Undo the last edit, then report it (see `work_report`).
    Undo,
}

/// What a slash command does to the screens, and the work it leaves:
/// `/help` shows the command list, `/quit` quits, `/clear` empties the
/// chat, `/model` and `/provider` go to those lists, `/copy`, `/reindex`
/// and `/undo` are left to the program, an unknown command is reported.
pub open spec fn slash_effect(ui: UiView, chat: ChatStateView, cmd: SlashView) -> (UiView, ChatStateView, SlashWork) {
    match cmd {
        SlashView::Help => (
            ui,
            ChatStateView { messages: chat.messages.push((ChatLineKind::System, ContentView::Text(help_line()))), ..chat },
            SlashWork::Nothing,
        ),
        SlashView::Copy => (ui, chat, SlashWork::Copy),
        SlashView::Quit => (UiView { should_quit: true, ..ui }, chat, SlashWork::Nothing),
        SlashView::Clear => (ui, ChatStateView { messages: Seq::empty(), ..chat }, SlashWork::Nothing),
        SlashView::Model => (UiView { screen: Screen::ModelSelect, ..ui }, chat, SlashWork::Nothing),
        SlashView::Provider => (UiView { screen: Screen::ProviderSelect, ..ui }, chat, SlashWork::Nothing),
        SlashView::Reindex => (ui, chat, SlashWork::Reindex),
        SlashView::Undo => (ui, chat, SlashWork::Undo),
        SlashView::Unknown(c) => (
            ui,
            ChatStateView {
                messages: chat.messages.push((ChatLineKind::Error, ContentView::Text("unknown command: "@ + c))),
                ..chat
            },
            SlashWork::Nothing,
        ),
    }
}

/// The command list that `/help` shows.
pub open spec fn help_line() -> Seq<char> {
    "commands: /help /copy /model /provider /clear /reindex /undo /quit · ⌘C or Ctrl+Shift+C copies transcript"@
}

/// Runs a slash command on the screens (see `slash_effect`).
pub fn run_slash(ui: &mut UiState, chat: &mut ChatState, cmd: SlashCommand) -> (r: SlashWork)
    ensures
        (final(ui)@, final(chat)@, r) == slash_effect(old(ui)@, old(chat)@, cmd@),
{
    match cmd {
        SlashCommand::Help => {
            chat.push_line(ChatLine::text(to_owned_string(help_text()), ChatLineKind::System));
            SlashWork::Nothing
        },
        SlashCommand::Copy => SlashWork::Copy,
        SlashCommand::Quit => {
            ui.should_quit = true;
            SlashWork::Nothing
        },
        SlashCommand::Clear => {
            chat.messages = Vec::new();
            assert(chat_views(chat.messages@) =~= Seq::empty());
            SlashWork::Nothing
        },
        SlashCommand::Model => {
            ui.screen = Screen::ModelSelect;
            SlashWork::Nothing
        },
        SlashCommand::Provider => {
            ui.screen = Screen::ProviderSelect;
            SlashWork::Nothing
        },
        SlashCommand::Reindex => SlashWork::Reindex,
        SlashCommand::Undo => SlashWork::Undo,
        SlashCommand::Unknown(c) => {
            chat.push_line(ChatLine::text(unknown_command_text(c.as_str()), ChatLineKind::Error));
            SlashWork::Nothing
        },
    }
}

/// The line that reports work done for `/reindex` or `/undo`: `reindexed.`
/// or `undone.` when it succeeded, else the failure after `reindex: ` or
/// `undo: `; no line for other work.
pub open spec fn work_report(work: SlashWork, result: Result<(), Seq<char>>) -> Option<(ChatLineKind, Seq<char>)> {
    match (work, result) {
        (SlashWork::Reindex, Ok(_)) => Some((ChatLineKind::System, "reindexed."@)),
        (SlashWork::Reindex, Err(e)) => Some((ChatLineKind::Error, "reindex: "@ + e)),
        (SlashWork::Undo, Ok(_)) => Some((ChatLineKind::System, "undone."@)),
        (SlashWork::Undo, Err(e)) => Some((ChatLineKind::Error, "undo: "@ + e)),
        _ => None,
    }
}

impl ChatState {
    /// Reports the outcome of work a slash command left (see `work_report`).
    pub fn report_work(&mut self, work: SlashWork, result: Result<(), String>)
        ensures
            final(self)@ == match work_report(
                work,
                match result {
                    Ok(_) => Ok(()),
                    Err(e) => Err(e@),
                },
            ) {
                Some((k, t)) => ChatStateView { messages: old(self)@.messages.push((k, ContentView::Text(t))), ..old(self)@ },
                None => old(self)@,
            },
    {
        match (work, result) {
            (SlashWork::Reindex, Ok(_)) => self.push_line(ChatLine::text(to_owned_string("reindexed."), ChatLineKind::System)),
            (SlashWork::Reindex, Err(e)) => self.push_line(ChatLine::text(concat2("reindex: ", e.as_str()), ChatLineKind::Error)),
            (SlashWork::Undo, Ok(_)) => self.push_line(ChatLine::text(to_owned_string("undone."), ChatLineKind::System)),
            (SlashWork::Undo, Err(e)) => self.push_line(ChatLine::text(concat2("undo: ", e.as_str()), ChatLineKind::Error)),
            _ => {},
        }
    }
}

} // verus!
