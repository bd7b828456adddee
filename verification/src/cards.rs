//! The cards that show a tool call in the chat: what is being called with
//! which arguments, and what came back.
use vstd::prelude::*;
use crate::tools::path_keys;
use crate::tools::content_keys;
use crate::tools::old_keys;
use crate::tools::new_keys;
use crate::tools::command_keys;
use crate::style::Look;
use crate::style::Run;
use crate::style::RunView;
use crate::style::Tone;
use crate::style::runs_view;
use crate::style::lines_view;
use crate::style::plain_look;
use crate::style::tone_look;
use crate::style::bold_look;
use crate::highlight::code_lines;
use crate::highlight::code_ok;
use crate::highlight::code_line_spans;
use crate::markdown::lines_of;
use crate::markdown::text_lines;
use crate::markdown::spaces;
use crate::text::chars_of;
use crate::text::concat2;
use crate::text::decimal;
use crate::text::decimal_string;
use crate::text::push_str;
use crate::text::push_char;
use crate::text::str_eq;
use crate::text::string_from_chars;
use crate::text::string_from_range;
use crate::text::to_owned_string;
use crate::text::trim;
use crate::text::trim_str;
use crate::tui::lang_from_path;
use crate::tui::language_of_extension;
use crate::tui::path_extension;
use crate::wrap::char_views;
use crate::json::JsonValue;
use crate::json::JsonView;
use crate::json::json_parse;
use crate::json::json_text;
use crate::json::parse_json;
use crate::json::to_json_text;
use crate::tools::first_str;
use crate::tools::key_views;
use crate::tools::get_str;
use crate::text::join;
use crate::text::string_views;
use crate::text::join_strings;
use crate::text::contains;
use crate::text::str_contains;
use crate::json::json_get;
use crate::tui::tool_json_like;
use crate::tui::tool_json_blob;
use crate::tui::partial_field;
use crate::tui::looks_like_tool_json;
use crate::tui::extract_tool_json_blob;
use crate::tui::extract_partial_string_field;
use crate::toolcall::ToolCallParser;
use crate::toolcall::parse_calls;
use crate::toolcall::call_views;
use crate::highlight::code_can_draw;

verus! {

/// At most the first `n` characters of `s`.
pub open spec fn prefix_upto(s: Seq<char>, n: nat) -> Seq<char> {
    if s.len() <= n {
        s
    } else {
        s.take(n as int)
    }
}

/// At most the first `n` characters of a text.
pub fn take_chars(s: &str, n: usize) -> (r: String)
    ensures
        r@ == prefix_upto(s@, n as nat),
{
    let v = chars_of(s);
    if v.len() <= n {
        string_from_chars(&v)
    } else {
        let r = string_from_range(&v, 0, n);
        assert(v@.subrange(0, n as int) =~= v@.take(n as int));
        r
    }
}

/// The heading row of a card: a gear, the tool's name, and a detail.
pub open spec fn label_row(tool: Seq<char>, detail: Seq<char>) -> Seq<RunView> {
    seq![
        ("⚙ "@, tone_look(Tone::Cyan)),
        (tool, bold_look(tone_look(Tone::Cyan))),
        ("  "@ + detail, tone_look(Tone::Yellow)),
    ]
}

/// The heading row of a card (see `label_row`).
pub fn tool_label(tool: &str, detail: &str) -> (r: Vec<Run>)
    ensures
        runs_view(r@) == label_row(tool@, detail@),
{
    let mut row: Vec<Run> = Vec::new();
    row.push(Run::of("⚙ ", Look { fg: Tone::Cyan, bold: false, italic: false }));
    row.push(Run::of(tool, Look { fg: Tone::Cyan, bold: true, italic: false }));
    row.push(Run::new(concat2("  ", detail), Look { fg: Tone::Yellow, bold: false, italic: false }));
    assert(runs_view(row@) =~= label_row(tool@, detail@));
    row
}

/// A number right-aligned in three columns, then a space.
pub open spec fn line_number(n: nat) -> Seq<char> {
    let d = decimal(n);
    (if d.len() < 3 { spaces((3 - d.len()) as nat) + d } else { d }) + " "@
}

/// A number right-aligned in three columns, then a space (see `line_number`).
pub fn line_number_text(n: u64) -> (r: String)
    ensures
        r@ == line_number(n as nat),
{
    let d = decimal_string(n);
    let dv = chars_of(d.as_str());
    let mut out = String::new();
    if dv.len() < 3 {
        let pad = 3 - dv.len();
        let mut k: usize = 0;
        while k < pad
            invariant
                k <= pad,
                out@ == spaces(k as nat),
            decreases pad - k,
        {
            push_char(&mut out, ' ');
            assert(out@ =~= spaces((k + 1) as nat));
            k = k + 1;
        }
    } else {
        assert(out@ =~= Seq::<char>::empty());
    }
    let ghost padding = out@;
    push_str(&mut out, d.as_str());
    push_char(&mut out, ' ');
    proof {
        reveal_strlit(" ");
        if dv@.len() >= 3 {
            assert(padding =~= Seq::<char>::empty());
        }
        assert(out@ =~= line_number(n as nat));
    }
    out
}

/// The rows of code in a card: at most `max` highlighted rows, each after
/// its line number, and a note of how many more lines there are.
pub open spec fn code_rows(content: Seq<char>, lang: Seq<char>, max: nat) -> Seq<Seq<RunView>> {
    let hl = code_lines(content, lang);
    let k = if hl.len() < max { hl.len() } else { max };
    let shown = Seq::new(
        k,
        |i: int| seq![("  "@, plain_look()), (line_number((i + 1) as nat), tone_look(Tone::DarkGray))] + hl[i],
    );
    if hl.len() > max {
        shown.push(
            seq![("      … "@ + decimal((hl.len() - max) as nat) + " more lines"@, tone_look(Tone::DarkGray))],
        )
    } else {
        shown
    }
}

/// Appends the rows of code in a card (see `code_rows`).
pub fn push_code_lines(out: &mut Vec<Vec<Run>>, content: &str, lang: &str, max_lines: usize)
    requires
        code_ok(content@, lang@),
    ensures
        lines_view(final(out)@) == lines_view(old(out)@) + code_rows(content@, lang@, max_lines as nat),
{
    let highlighted = code_line_spans(content, lang);
    let ghost hl = lines_view(highlighted@);
    let total = highlighted.len();
    let k = if total < max_lines { total } else { max_lines };
    let ghost target = code_rows(content@, lang@, max_lines as nat);
    let ghost start = lines_view(out@);
    let mut i: usize = 0;
    while i < k
        invariant
            i <= k <= total == highlighted.len(),
            k == (if total < max_lines { total } else { max_lines }),
            hl == lines_view(highlighted@),
            hl == code_lines(content@, lang@),
            lines_view(out@) == start + Seq::new(
                i as nat,
                |j: int| seq![("  "@, plain_look()), (line_number((j + 1) as nat), tone_look(Tone::DarkGray))] + hl[j],
            ),
        decreases k - i,
    {
        let mut row: Vec<Run> = Vec::new();
        row.push(Run::of("  ", Look { fg: Tone::Unset, bold: false, italic: false }));
        let num = line_number_text((i + 1) as u64);
        row.push(Run::new(num, Look { fg: Tone::DarkGray, bold: false, italic: false }));
        let mut m: usize = 0;
        let ghost head = runs_view(row@);
        assert(((i + 1) as u64) as nat == (i + 1) as nat);
        assert(head =~= seq![("  "@, plain_look()), (line_number((i + 1) as nat), tone_look(Tone::DarkGray))]);
        assert(runs_view(highlighted@[i as int]@).take(0) =~= Seq::<RunView>::empty());
        assert(head + runs_view(highlighted@[i as int]@).take(0) =~= head);
        while m < highlighted[i].len()
            invariant
                i < highlighted.len(),
                m <= highlighted@[i as int].len(),
                runs_view(row@) == head + runs_view(highlighted@[i as int]@).take(m as int),
            decreases highlighted@[i as int].len() - m,
        {
            let r = Run::of(highlighted[i][m].text.as_str(), highlighted[i][m].look);
            let ghost before = runs_view(row@);
            row.push(r);
            assert(runs_view(row@) =~= before.push(r@));
            assert(runs_view(highlighted@[i as int]@).take(m + 1) =~= runs_view(highlighted@[i as int]@).take(
                m as int,
            ).push(highlighted@[i as int]@[m as int]@));
            m = m + 1;
        }
        assert(runs_view(highlighted@[i as int]@).take(m as int) =~= hl[i as int]);
        let ghost before = lines_view(out@);
        let ghost rowv = runs_view(row@);
        assert(rowv == head + hl[i as int]);
        out.push(row);
        assert(lines_view(out@) =~= before.push(rowv));
        assert(lines_view(out@) =~= start + Seq::new(
            (i + 1) as nat,
            |j: int| seq![("  "@, plain_look()), (line_number((j + 1) as nat), tone_look(Tone::DarkGray))] + hl[j],
        ));
        i = i + 1;
    }
    if total > max_lines {
        let more = decimal_string((total - max_lines) as u64);
        let mut note = to_owned_string("      … ");
        push_str(&mut note, more.as_str());
        push_str(&mut note, " more lines");
        assert(((total - max_lines) as u64) as nat == (hl.len() - max_lines) as nat);
        assert(note@ =~= "      … "@ + decimal((hl.len() - max_lines) as nat) + " more lines"@);
        let mut row: Vec<Run> = Vec::new();
        row.push(Run::new(note, Look { fg: Tone::DarkGray, bold: false, italic: false }));
        assert(runs_view(row@) =~= seq![("      … "@ + decimal((hl.len() - max_lines) as nat) + " more lines"@, tone_look(Tone::DarkGray))]);
        let ghost before = lines_view(out@);
        out.push(row);
        assert(lines_view(out@) =~= before.push(
            seq![("      … "@ + decimal((hl.len() - max_lines) as nat) + " more lines"@, tone_look(Tone::DarkGray))],
        ));
    }
    assert(lines_view(out@) =~= start + target);
}

} // verus!

verus! {

/// The smaller of two numbers.
pub open spec fn at_most(n: nat, max: nat) -> nat {
    if n < max {
        n
    } else {
        max
    }
}

/// At most `max` lines of a text, each as a row of two runs: `lead` in
/// `lead_look`, then the line in `body_look`.
pub open spec fn split_rows(text: Seq<char>, lead: Seq<char>, lead_look: Look, body_look: Look, max: nat) -> Seq<
    Seq<RunView>,
> {
    let ls = lines_of(text);
    Seq::new(at_most(ls.len(), max), |i: int| seq![(lead, lead_look), (ls[i], body_look)])
}

/// At most `max` lines of a text, each as a row of one run: `lead` and the line, in `look`.
pub open spec fn joined_rows(text: Seq<char>, lead: Seq<char>, look: Look, max: nat) -> Seq<Seq<RunView>> {
    let ls = lines_of(text);
    Seq::new(at_most(ls.len(), max), |i: int| seq![(lead + ls[i], look)])
}

/// Appends the rows of `split_rows`.
pub fn push_split_rows(out: &mut Vec<Vec<Run>>, text: &str, lead: &str, lead_look: Look, body_look: Look, max: usize)
    ensures
        lines_view(final(out)@) == lines_view(old(out)@) + split_rows(text@, lead@, lead_look, body_look, max as nat),
{
    let ls = text_lines(text);
    let ghost lv = char_views(ls@);
    let k = if ls.len() < max { ls.len() } else { max };
    let ghost start = lines_view(out@);
    let mut i: usize = 0;
    while i < k
        invariant
            i <= k <= ls.len(),
            lv == char_views(ls@),
            lv == lines_of(text@),
            lines_view(out@) == start + Seq::new(i as nat, |j: int| seq![(lead@, lead_look), (lv[j], body_look)]),
        decreases k - i,
    {
        let mut row: Vec<Run> = Vec::new();
        row.push(Run::of(lead, lead_look));
        row.push(Run::new(string_from_chars(&ls[i]), body_look));
        assert(runs_view(row@) =~= seq![(lead@, lead_look), (lv[i as int], body_look)]);
        let ghost before = lines_view(out@);
        let ghost rv = runs_view(row@);
        out.push(row);
        assert(lines_view(out@) =~= before.push(rv));
        assert(lines_view(out@) =~= start + Seq::new((i + 1) as nat, |j: int| seq![(lead@, lead_look), (lv[j], body_look)]));
        i = i + 1;
    }
    assert(lines_view(out@) =~= start + split_rows(text@, lead@, lead_look, body_look, max as nat));
}

/// Appends the rows of `joined_rows`.
pub fn push_joined_rows(out: &mut Vec<Vec<Run>>, text: &str, lead: &str, look: Look, max: usize)
    ensures
        lines_view(final(out)@) == lines_view(old(out)@) + joined_rows(text@, lead@, look, max as nat),
{
    let ls = text_lines(text);
    let ghost lv = char_views(ls@);
    let k = if ls.len() < max { ls.len() } else { max };
    let ghost start = lines_view(out@);
    let mut i: usize = 0;
    while i < k
        invariant
            i <= k <= ls.len(),
            lv == char_views(ls@),
            lv == lines_of(text@),
            lines_view(out@) == start + Seq::new(i as nat, |j: int| seq![(lead@ + lv[j], look)]),
        decreases k - i,
    {
        let mut t = to_owned_string(lead);
        let line = string_from_chars(&ls[i]);
        push_str(&mut t, line.as_str());
        let mut row: Vec<Run> = Vec::new();
        row.push(Run::new(t, look));
        assert(runs_view(row@) =~= seq![(lead@ + lv[i as int], look)]);
        let ghost before = lines_view(out@);
        let ghost rv = runs_view(row@);
        out.push(row);
        assert(lines_view(out@) =~= before.push(rv));
        assert(lines_view(out@) =~= start + Seq::new((i + 1) as nat, |j: int| seq![(lead@ + lv[j], look)]));
        i = i + 1;
    }
    assert(lines_view(out@) =~= start + joined_rows(text@, lead@, look, max as nat));
}

/// The mark for a result: a tick or a cross.
pub open spec fn result_mark(success: bool) -> Seq<char> {
    if success {
        "✓"@
    } else {
        "✗"@
    }
}

/// The colour for a result: green or red.
pub open spec fn result_tone(success: bool) -> Tone {
    if success {
        Tone::Green
    } else {
        Tone::Red
    }
}

/// The card after a tool ran: a file read as its numbered, highlighted
/// lines; a file written as a tick and the message; a shell command's
/// output, at most sixteen lines; anything else as one summary row.
pub open spec fn tool_end_rows(name: Seq<char>, output: Seq<char>, success: bool, file_path: Option<Seq<char>>) -> Seq<
    Seq<RunView>,
> {
    let mark = result_mark(success);
    let color = tone_look(result_tone(success));
    if name == "read_file"@ && success && output.len() > 0 {
        let lang = match file_path {
            Some(p) => language_of_extension(path_extension(p)),
            None => "text"@,
        };
        let shown = match file_path {
            Some(p) => p,
            None => "?"@,
        };
        seq![label_row("read_file"@, shown)] + code_rows(output, lang, 48)
    } else if name == "write_file"@ && success {
        seq![seq![(mark + " "@, color), (prefix_upto(output, 80), tone_look(Tone::Green))]]
    } else if name == "bash"@ && trim(output).len() > 0 {
        seq![seq![(mark + " bash"@, color)]] + split_rows(
            output,
            "  "@,
            plain_look(),
            tone_look(if success { Tone::Gray } else { Tone::Red }),
            16,
        )
    } else {
        seq![seq![(mark + " "@, color), (name, color), ("  "@ + prefix_upto(output, 240), tone_look(Tone::Gray))]]
    }
}

/// The language a read file's card colours its lines in: by the file's
/// extension, or plain text when no file is known.
pub open spec fn read_lang(file_path: Option<Seq<char>>) -> Seq<char> {
    match file_path {
        Some(p) => language_of_extension(path_extension(p)),
        None => "text"@,
    }
}

/// The code a read file's card shows can be coloured.
pub open spec fn end_ok(name: Seq<char>, output: Seq<char>, success: bool, file_path: Option<Seq<char>>) -> bool {
    (name == "read_file"@ && success && output.len() > 0) ==> code_ok(output, read_lang(file_path))
}

/// The card after a tool ran (see `tool_end_rows`).
pub fn format_tool_end(name: &str, output: &str, success: bool, file_path: Option<&str>) -> (r: Vec<Vec<Run>>)
    requires
        end_ok(name@, output@, success, match file_path {
            Some(p) => Some(p@),
            None => None,
        }),
    ensures
        lines_view(r@) == tool_end_rows(name@, output@, success, match file_path {
            Some(p) => Some(p@),
            None => None,
        }),
{
    let mark = if success { "✓" } else { "✗" };
    let color = Look { fg: if success { Tone::Green } else { Tone::Red }, bold: false, italic: false };
    let mut out: Vec<Vec<Run>> = Vec::new();
    if str_eq(name, "read_file") && success && !output.is_empty() {
        let lang = match file_path {
            Some(p) => lang_from_path(p),
            None => "text",
        };
        let shown = match file_path {
            Some(p) => p,
            None => "?",
        };
        out.push(tool_label("read_file", shown));
        let ghost head = lines_view(out@);
        push_code_lines(&mut out, output, lang, 48);
        return out;
    }
    if str_eq(name, "write_file") && success {
        let mut row: Vec<Run> = Vec::new();
        row.push(Run::new(concat2(mark, " "), color));
        row.push(Run::new(take_chars(output, 80), Look { fg: Tone::Green, bold: false, italic: false }));
        assert(runs_view(row@) =~= seq![(result_mark(success) + " "@, tone_look(result_tone(success))), (prefix_upto(output@, 80), tone_look(Tone::Green))]);
        let ghost rv = runs_view(row@);
        out.push(row);
        assert(lines_view(out@) =~= seq![rv]);
        assert(lines_view(out@) =~= tool_end_rows(name@, output@, success, match file_path {
            Some(p) => Some(p@),
            None => None,
        }));
        return out;
    }
    if str_eq(name, "bash") && !trim_str(output).is_empty() {
        let mut row: Vec<Run> = Vec::new();
        row.push(Run::new(concat2(mark, " bash"), color));
        assert(runs_view(row@) =~= seq![(result_mark(success) + " bash"@, tone_look(result_tone(success)))]);
        let ghost rv = runs_view(row@);
        out.push(row);
        let ghost head = lines_view(out@);
        assert(head =~= seq![rv]);
        assert(head =~= seq![seq![(result_mark(success) + " bash"@, tone_look(result_tone(success)))]]);
        push_split_rows(
            &mut out,
            output,
            "  ",
            Look { fg: Tone::Unset, bold: false, italic: false },
            Look { fg: if success { Tone::Gray } else { Tone::Red }, bold: false, italic: false },
            16,
        );
        return out;
    }
    let mut row: Vec<Run> = Vec::new();
    row.push(Run::new(concat2(mark, " "), color));
    row.push(Run::of(name, color));
    row.push(Run::new(concat2("  ", take_chars(output, 240).as_str()), Look { fg: Tone::Gray, bold: false, italic: false }));
    assert(runs_view(row@) =~= seq![(result_mark(success) + " "@, tone_look(result_tone(success))), (name@, tone_look(result_tone(success))), ("  "@ + prefix_upto(output@, 240), tone_look(Tone::Gray))]);
    let ghost rv = runs_view(row@);
    out.push(row);
    assert(lines_view(out@) =~= seq![rv]);
    assert(lines_view(out@) =~= tool_end_rows(name@, output@, success, match file_path {
        Some(p) => Some(p@),
        None => None,
    }));
    out
}

} // verus!

verus! {

/// The keys under which a search may hold its query.
pub open spec fn query_keys() -> Seq<Seq<char>> {
    seq!["query"@, "pattern"@, "name"@, "symbol"@, "search"@]
}

/// The text found, or a default.
pub open spec fn or_default(o: Option<Seq<char>>, d: Seq<char>) -> Seq<char> {
    match o {
        Some(s) => s,
        None => d,
    }
}

/// An argument's value for a summary: a string's first 60 characters,
/// else the first 60 characters of its JSON text.
pub open spec fn entry_snip(v: JsonView) -> Seq<char> {
    match v {
        JsonView::Str(s) => prefix_upto(s, 60),
        _ => prefix_upto(json_text(v), 60),
    }
}

/// The first three entries of an object as `key=value`, two spaces apart.
pub open spec fn object_summary(keys: Seq<Seq<char>>, values: Seq<JsonView>) -> Seq<char> {
    join(Seq::new(at_most(keys.len(), 3), |i: int| keys[i] + "="@ + entry_snip(values[i])), "  "@)
}

/// The card for a tool call that is about to run, from its name and its
/// arguments (`parsed`, read from the text `args`): a file to write with
/// its numbered, highlighted content; a patch with the old and new lines;
/// a file to read; a shell command's lines; a search's query; anything
/// else with a summary of its arguments.
pub open spec fn tool_start_rows(name: Seq<char>, parsed: JsonView, args: Seq<char>) -> Seq<Seq<RunView>> {
    let path = or_default(first_str(parsed, path_keys()), "?"@);
    if name == "write_file"@ {
        let content = or_default(first_str(parsed, content_keys()), ""@);
        seq![label_row("write_file"@, path)] + code_rows(content, language_of_extension(path_extension(path)), 32)
    } else if name == "patch"@ {
        let old = or_default(first_str(parsed, old_keys()), ""@);
        let new = or_default(first_str(parsed, new_keys()), ""@);
        seq![label_row("patch"@, path)] + joined_rows(old, "  - "@, tone_look(Tone::Red), 12) + joined_rows(
            new,
            "  + "@,
            tone_look(Tone::Green),
            12,
        )
    } else if name == "read_file"@ {
        seq![label_row("read_file"@, path)]
    } else if name == "bash"@ {
        let cmd = or_default(first_str(parsed, command_keys()), "?"@);
        seq![label_row("bash"@, ""@)] + split_rows(
            cmd,
            "  $ "@,
            tone_look(Tone::Yellow),
            tone_look(Tone::White),
            lines_of(cmd).len(),
        )
    } else if name == "search"@ || name == "symbol_lookup"@ {
        seq![label_row(name, or_default(first_str(parsed, query_keys()), "?"@))]
    } else {
        let summary = match parsed {
            JsonView::Object(ks, vs) => object_summary(ks, vs),
            _ => prefix_upto(args, 80),
        };
        seq![label_row(name, summary)]
    }
}

/// The content a card to write a file shows can be coloured, in the
/// language of the file's extension.
pub open spec fn start_ok(name: Seq<char>, parsed: JsonView) -> bool {
    name == "write_file"@ ==> code_ok(
        or_default(first_str(parsed, content_keys()), ""@),
        language_of_extension(path_extension(or_default(first_str(parsed, path_keys()), "?"@))),
    )
}

/// The arguments a text holds as JSON, or null when it is not JSON.
pub open spec fn parsed_args(args: Seq<char>) -> JsonView {
    match json_parse(args) {
        Some(v) => v,
        None => JsonView::Null,
    }
}

/// The text under the first of `keys`, or `default`.
fn arg_or<'a>(args: &'a JsonValue, keys: &[&str], default: &'a str) -> (r: &'a str)
    ensures
        r@ == or_default(first_str(args@, key_views(keys@)), default@),
{
    match get_str(args, keys) {
        Some(t) => t,
        None => default,
    }
}

/// The summary of an object's first three entries (see `object_summary`).
fn summarize_object(o: &Vec<(String, JsonValue)>) -> (r: String)
    ensures
        r@ == object_summary(
            Seq::new(o@.len(), |i: int| o@[i].0@),
            Seq::new(o@.len(), |i: int| if 0 <= i < o@.len() { o@[i].1@ } else { JsonView::Null }),
        ),
{
    let ghost ks = Seq::new(o@.len(), |i: int| o@[i].0@);
    let ghost vs = Seq::new(o@.len(), |i: int| if 0 <= i < o@.len() { o@[i].1@ } else { JsonView::Null });
    let k = if o.len() < 3 { o.len() } else { 3 };
    let mut parts: Vec<String> = Vec::new();
    let mut i: usize = 0;
    while i < k
        invariant
            i <= k <= o.len(),
            k == at_most(o@.len(), 3),
            ks == Seq::new(o@.len(), |i: int| o@[i].0@),
            vs == Seq::new(o@.len(), |i: int| if 0 <= i < o@.len() { o@[i].1@ } else { JsonView::Null }),
            string_views(parts@) == Seq::new(i as nat, |j: int| ks[j] + "="@ + entry_snip(vs[j])),
        decreases k - i,
    {
        let (key, value) = &o[i];
        let snip = match value.as_str() {
            Some(t) => take_chars(t, 60),
            None => {
                let full = to_json_text(value);
                take_chars(full.as_str(), 60)
            },
        };
        let mut part = to_owned_string(key.as_str());
        push_char(&mut part, '=');
        push_str(&mut part, snip.as_str());
        proof {
            reveal_strlit("=");
            assert(vs[i as int] == value@);
            assert(snip@ == entry_snip(vs[i as int]));
            assert(part@ =~= ks[i as int] + "="@ + entry_snip(vs[i as int]));
        }
        let ghost before = string_views(parts@);
        let ghost pv = part@;
        parts.push(part);
        assert(string_views(parts@) =~= before.push(pv));
        assert(string_views(parts@) =~= Seq::new((i + 1) as nat, |j: int| ks[j] + "="@ + entry_snip(vs[j])));
        i = i + 1;
    }
    join_strings(&parts, "  ")
}

/// The card for a tool call about to run (see `tool_start_rows`).
pub fn tool_start_lines(name: &str, parsed: &JsonValue, args: &str) -> (r: Vec<Vec<Run>>)
    requires
        start_ok(name@, parsed@),
    ensures
        lines_view(r@) == tool_start_rows(name@, parsed@, args@),
{
    let path_k: [&str; 4] = ["path", "file_path", "filename", "file"];
    let pk: &[&str] = &path_k;
    assert(key_views(pk@) =~= path_keys());
    let path = arg_or(parsed, pk, "?");
    let mut out: Vec<Vec<Run>> = Vec::new();
    if str_eq(name, "write_file") {
        let content_k: [&str; 4] = ["content", "contents", "text", "body"];
        let ck: &[&str] = &content_k;
        assert(key_views(ck@) =~= content_keys());
        let content = arg_or(parsed, ck, "");
        let lang = lang_from_path(path);
        out.push(tool_label("write_file", path));
        push_code_lines(&mut out, content, lang, 32);
        return out;
    }
    if str_eq(name, "patch") {
        let old_k: [&str; 4] = ["old_str", "old", "search", "original"];
        let ok: &[&str] = &old_k;
        assert(key_views(ok@) =~= old_keys());
        let new_k: [&str; 4] = ["new_str", "new", "replace", "replacement"];
        let nk: &[&str] = &new_k;
        assert(key_views(nk@) =~= new_keys());
        let old = arg_or(parsed, ok, "");
        let new = arg_or(parsed, nk, "");
        out.push(tool_label("patch", path));
        push_joined_rows(&mut out, old, "  - ", Look { fg: Tone::Red, bold: false, italic: false }, 12);
        push_joined_rows(&mut out, new, "  + ", Look { fg: Tone::Green, bold: false, italic: false }, 12);
        return out;
    }
    if str_eq(name, "read_file") {
        out.push(tool_label("read_file", path));
        return out;
    }
    if str_eq(name, "bash") {
        let cmd_k: [&str; 4] = ["command", "cmd", "script", "shell"];
        let mk: &[&str] = &cmd_k;
        assert(key_views(mk@) =~= command_keys());
        let cmd = arg_or(parsed, mk, "?");
        out.push(tool_label("bash", ""));
        let ls = text_lines(cmd);
        push_split_rows(
            &mut out,
            cmd,
            "  $ ",
            Look { fg: Tone::Yellow, bold: false, italic: false },
            Look { fg: Tone::White, bold: false, italic: false },
            ls.len(),
        );
        return out;
    }
    if str_eq(name, "search") || str_eq(name, "symbol_lookup") {
        let query_k: [&str; 5] = ["query", "pattern", "name", "symbol", "search"];
        let qk: &[&str] = &query_k;
        assert(key_views(qk@) =~= query_keys());
        let q = arg_or(parsed, qk, "?");
        out.push(tool_label(name, q));
        return out;
    }
    let summary = match parsed {
        JsonValue::Object(o) => {
            let s = summarize_object(o);
            proof {
                let ks = Seq::new(o@.len(), |i: int| o@[i].0@);
                let vs = Seq::new(o@.len(), |i: int| if 0 <= i < o@.len() { o@[i].1@ } else { JsonView::Null });
                match parsed@ {
                    JsonView::Object(a, b) => {
                        assert(a =~= ks);
                        assert(b =~= vs);
                    },
                    _ => {},
                }
            }
            s
        },
        _ => take_chars(args, 80),
    };
    let row = tool_label(name, summary.as_str());
    let ghost rv = runs_view(row@);
    out.push(row);
    assert(lines_view(out@) =~= seq![rv]);
    out
}

/// The card for a tool call about to run, from its arguments' text, read
/// as JSON (null when it is not JSON); see `tool_start_rows`.
pub fn format_tool_start(name: &str, args: &str) -> (r: Vec<Vec<Run>>)
    requires
        start_ok(name@, parsed_args(args@)),
    ensures
        lines_view(r@) == tool_start_rows(name@, parsed_args(args@), args@),
{
    let parsed = match parse_json(args) {
        Some(v) => v,
        None => JsonValue::Null,
    };
    tool_start_lines(name, &parsed, args)
}

/// The card for a tool call about to run, or `None` where the content of
/// a file to write cannot be coloured (see `start_ok`).
pub fn format_tool_start_checked(name: &str, args: &str) -> (r: Option<Vec<Vec<Run>>>)
    ensures
        match r {
            Some(rows) => start_ok(name@, parsed_args(args@)) && lines_view(rows@) == tool_start_rows(
                name@,
                parsed_args(args@),
                args@,
            ),
            None => !start_ok(name@, parsed_args(args@)),
        },
{
    let parsed = match parse_json(args) {
        Some(v) => v,
        None => JsonValue::Null,
    };
    if str_eq(name, "write_file") {
        let content_k: [&str; 4] = ["content", "contents", "text", "body"];
        let ck: &[&str] = &content_k;
        assert(key_views(ck@) =~= content_keys());
        let content = arg_or(&parsed, ck, "");
        let path_k: [&str; 4] = ["path", "file_path", "filename", "file"];
        let pk: &[&str] = &path_k;
        assert(key_views(pk@) =~= path_keys());
        let path = arg_or(&parsed, pk, "?");
        if !code_can_draw(content, lang_from_path(path)) {
            return None;
        }
    }
    Some(tool_start_lines(name, &parsed, args))
}

} // verus!

verus! {

/// The file a partly streamed call names, or `?`.
pub open spec fn partial_path(raw: Seq<char>) -> Seq<char> {
    match partial_field(raw, "path"@) {
        Some(p) => p,
        None => match partial_field(raw, "file_path"@) {
            Some(p) => p,
            None => or_default(partial_field(raw, "filename"@), "?"@),
        },
    }
}

/// The tool a partly streamed call seems to be for, by the first of its
/// names that the text mentions.
pub open spec fn guessed_tool(blob: Seq<char>) -> Option<Seq<char>> {
    if contains(blob, "write_file"@) {
        Some("write_file"@)
    } else if contains(blob, "patch"@) {
        Some("patch"@)
    } else if contains(blob, "read_file"@) {
        Some("read_file"@)
    } else if contains(blob, "bash"@) {
        Some("bash"@)
    } else {
        None
    }
}

/// The card for a partly streamed call: its heading, then what has come
/// of the content to write (a note while none has), of a patch's old and
/// new text (eight lines each), or of a command.
pub open spec fn guessed_rows(raw: Seq<char>, name: Seq<char>) -> Seq<Seq<RunView>> {
    let path = partial_path(raw);
    let body = if name == "write_file"@ {
        let content = or_default(partial_field(raw, "content"@), ""@);
        if content.len() == 0 {
            seq![seq![("  composing…"@, tone_look(Tone::DarkGray))]]
        } else {
            code_rows(content, language_of_extension(path_extension(path)), 48)
        }
    } else if name == "patch"@ {
        (match partial_field(raw, "old_str"@) {
            Some(o) => joined_rows(o, "  - "@, tone_look(Tone::Red), 8),
            None => Seq::empty(),
        }) + (match partial_field(raw, "new_str"@) {
            Some(n) => joined_rows(n, "  + "@, tone_look(Tone::Green), 8),
            None => Seq::empty(),
        })
    } else if name == "bash"@ {
        match partial_field(raw, "command"@) {
            Some(c) => split_rows(c, "  $ "@, tone_look(Tone::Yellow), tone_look(Tone::White), lines_of(c).len()),
            None => Seq::empty(),
        }
    } else {
        Seq::empty()
    };
    seq![label_row(name, path)] + body
}

/// The content a partly streamed file write shows can be coloured.
pub open spec fn guessed_ok(raw: Seq<char>, name: Seq<char>) -> bool {
    name == "write_file"@ ==> {
        let content = or_default(partial_field(raw, "content"@), ""@);
        content.len() > 0 ==> code_ok(content, language_of_extension(path_extension(partial_path(raw))))
    }
}

/// The tool name a JSON value gives under `name`, when it is a string.
pub open spec fn named_tool(v: JsonView) -> Option<Seq<char>> {
    match json_get(v, "name"@) {
        Some(JsonView::Str(n)) => Some(n),
        _ => None,
    }
}

/// The card shown while a reply that holds a tool call streams in: none
/// unless it looks like one; else from the first complete call in it; else
/// from its JSON when that parses and names the tool; else a partial card
/// for the tool it seems to be for.
pub open spec fn preview_rows(raw: Seq<char>) -> Option<Seq<Seq<RunView>>> {
    if !tool_json_like(raw) {
        None
    } else {
        match tool_json_blob(raw) {
            None => None,
            Some(blob) => {
                let calls = parse_calls(blob);
                if calls.len() > 0 {
                    let a = json_text(calls[0].arguments);
                    Some(tool_start_rows(calls[0].name, parsed_args(a), a))
                } else if json_parse(blob) is Some && named_tool(json_parse(blob)->0) is Some {
                    Some(tool_start_rows(named_tool(json_parse(blob)->0)->0, json_parse(blob)->0, blob))
                } else {
                    match guessed_tool(blob) {
                        None => None,
                        Some(name) => Some(guessed_rows(raw, name)),
                    }
                }
            },
        }
    }
}

/// The card `preview_rows` would show can be drawn: any code in it can be coloured.
pub open spec fn preview_ok(raw: Seq<char>) -> bool {
    if !tool_json_like(raw) {
        true
    } else {
        match tool_json_blob(raw) {
            None => true,
            Some(blob) => {
                let calls = parse_calls(blob);
                if calls.len() > 0 {
                    start_ok(calls[0].name, parsed_args(json_text(calls[0].arguments)))
                } else if json_parse(blob) is Some && named_tool(json_parse(blob)->0) is Some {
                    start_ok(named_tool(json_parse(blob)->0)->0, json_parse(blob)->0)
                } else {
                    match guessed_tool(blob) {
                        None => true,
                        Some(name) => guessed_ok(raw, name),
                    }
                }
            },
        }
    }
}

/// The file a partly streamed call names (see `partial_path`).
fn partial_path_of(raw: &str) -> (r: String)
    ensures
        r@ == partial_path(raw@),
{
    match extract_partial_string_field(raw, "path") {
        Some(p) => p,
        None => match extract_partial_string_field(raw, "file_path") {
            Some(p) => p,
            None => match extract_partial_string_field(raw, "filename") {
                Some(p) => p,
                None => to_owned_string("?"),
            },
        },
    }
}

/// The tool a partly streamed call seems to be for (see `guessed_tool`).
fn guess_tool(blob: &str) -> (r: Option<&'static str>)
    ensures
        match r {
            Some(n) => guessed_tool(blob@) == Some(n@),
            None => guessed_tool(blob@) is None,
        },
{
    if str_contains(blob, "write_file") {
        Some("write_file")
    } else if str_contains(blob, "patch") {
        Some("patch")
    } else if str_contains(blob, "read_file") {
        Some("read_file")
    } else if str_contains(blob, "bash") {
        Some("bash")
    } else {
        None
    }
}

/// The partial card (see `guessed_rows`).
fn guessed_lines(raw: &str, name: &str) -> (r: Vec<Vec<Run>>)
    requires
        guessed_ok(raw@, name@),
    ensures
        lines_view(r@) == guessed_rows(raw@, name@),
{
    proof {
        reveal_strlit("");
    }
    let path = partial_path_of(raw);
    let mut out: Vec<Vec<Run>> = Vec::new();
    let label = tool_label(name, path.as_str());
    let ghost lv0 = runs_view(label@);
    out.push(label);
    let ghost head = lines_view(out@);
    assert(head =~= seq![label_row(name@, partial_path(raw@))]);
    if str_eq(name, "write_file") {
        let content = match extract_partial_string_field(raw, "content") {
            Some(c) => c,
            None => String::new(),
        };
        let lang = lang_from_path(path.as_str());
        if content.as_str().is_empty() {
            let mut row: Vec<Run> = Vec::new();
            row.push(Run::of("  composing…", Look { fg: Tone::DarkGray, bold: false, italic: false }));
            let ghost rv = runs_view(row@);
            assert(rv =~= seq![("  composing…"@, tone_look(Tone::DarkGray))]);
            out.push(row);
            assert(lines_view(out@) =~= head.push(rv));
        } else {
            push_code_lines(&mut out, content.as_str(), lang, 48);
        }
    } else if str_eq(name, "patch") {
        let ghost h0 = lines_view(out@);
        match extract_partial_string_field(raw, "old_str") {
            Some(o) => push_joined_rows(&mut out, o.as_str(), "  - ", Look { fg: Tone::Red, bold: false, italic: false }, 8),
            None => {},
        }
        let ghost mid = lines_view(out@);
        match extract_partial_string_field(raw, "new_str") {
            Some(n) => push_joined_rows(&mut out, n.as_str(), "  + ", Look { fg: Tone::Green, bold: false, italic: false }, 8),
            None => {},
        }
    } else if str_eq(name, "bash") {
        match extract_partial_string_field(raw, "command") {
            Some(c) => {
                let ls = text_lines(c.as_str());
                push_split_rows(
                    &mut out,
                    c.as_str(),
                    "  $ ",
                    Look { fg: Tone::Yellow, bold: false, italic: false },
                    Look { fg: Tone::White, bold: false, italic: false },
                    ls.len(),
                );
            },
            None => {},
        }
    }
    assert(lines_view(out@) =~= guessed_rows(raw@, name@));
    out
}

/// The card shown while a reply streams in (see `preview_rows`).
pub fn preview_streaming_tool(raw: &str) -> (r: Option<Vec<Vec<Run>>>)
    requires
        preview_ok(raw@),
    ensures
        match r {
            Some(rows) => preview_rows(raw@) == Some(lines_view(rows@)),
            None => preview_rows(raw@) is None,
        },
{
    if !looks_like_tool_json(raw) {
        return None;
    }
    let blob = match extract_tool_json_blob(raw) {
        Some(b) => b,
        None => return None,
    };
    let calls = ToolCallParser::parse(blob.as_str());
    if calls.len() > 0 {
        assert(call_views(calls@)[0] == calls@[0]@);
        let a = to_json_text(&calls[0].arguments);
        return Some(format_tool_start(calls[0].name.as_str(), a.as_str()));
    }
    match parse_json(blob.as_str()) {
        Some(val) => {
            match val.get("name") {
                Some(n) => match n.as_str() {
                    Some(name) => {
                        return Some(format_tool_start(name, blob.as_str()));
                    },
                    None => {},
                },
                None => {},
            }
        },
        None => {},
    }
    match guess_tool(blob.as_str()) {
        None => None,
        Some(name) => Some(guessed_lines(raw, name)),
    }
}

/// Whether the card `preview_rows` would show can be drawn (see `preview_ok`).
pub fn preview_can_draw(raw: &str) -> (r: bool)
    ensures
        r == preview_ok(raw@),
{
    if !looks_like_tool_json(raw) {
        return true;
    }
    let blob = match extract_tool_json_blob(raw) {
        Some(b) => b,
        None => return true,
    };
    let calls = ToolCallParser::parse(blob.as_str());
    if calls.len() > 0 {
        assert(call_views(calls@)[0] == calls@[0]@);
        let a = to_json_text(&calls[0].arguments);
        return match format_tool_start_checked(calls[0].name.as_str(), a.as_str()) {
            Some(_) => true,
            None => false,
        };
    }
    match parse_json(blob.as_str()) {
        Some(val) => {
            match val.get("name") {
                Some(n) => match n.as_str() {
                    Some(name) => {
                        return match format_tool_start_checked(name, blob.as_str()) {
                            Some(_) => true,
                            None => false,
                        };
                    },
                    None => {},
                },
                None => {},
            }
        },
        None => {},
    }
    proof {
        assert(parse_calls(blob@).len() == 0);
        assert(!(json_parse(blob@) is Some && named_tool(json_parse(blob@)->0) is Some));
    }
    match guess_tool(blob.as_str()) {
        None => true,
        Some(name) => {
            if str_eq(name, "write_file") {
                match extract_partial_string_field(raw, "content") {
                    Some(c) => {
                        let path = partial_path_of(raw);
                        let ok = c.as_str().is_empty() || code_can_draw(c.as_str(), lang_from_path(path.as_str()));
                        assert(ok == guessed_ok(raw@, name@));
                        ok
                    },
                    None => {
                        proof {
                            reveal_strlit("");
                        }
                        assert(guessed_ok(raw@, name@));
                        true
                    },
                }
            } else {
                assert(guessed_ok(raw@, name@));
                true
            }
        },
    }
}

/// The card shown while a reply streams in, or `None` where it could not
/// be drawn (see `preview_ok`).
pub fn preview_streaming_tool_checked(raw: &str) -> (r: Option<Option<Vec<Vec<Run>>>>)
    ensures
        match r {
            Some(Some(rows)) => preview_ok(raw@) && preview_rows(raw@) == Some(lines_view(rows@)),
            Some(None) => preview_ok(raw@) && preview_rows(raw@) is None,
            None => !preview_ok(raw@),
        },
{
    if preview_can_draw(raw) {
        Some(preview_streaming_tool(raw))
    } else {
        None
    }
}

} // verus!
