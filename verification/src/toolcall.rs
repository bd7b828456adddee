//! Finds the tool calls that a model wrote into its reply: fenced ```json
//! blocks, `<tool_call>` tags, and, when neither occurs, bare JSON objects.
use vstd::prelude::*;
use crate::text::chars_of;
use crate::text::string_from_range;
use crate::text::find_chars;
use crate::text::trim_range;
use crate::text::trim_str;
use crate::text::strip_prefixes_range;
use crate::text::find_from;
use crate::text::trim;
use crate::text::strip_prefixes;
use crate::text::lemma_find_from_contains;
use crate::json::JsonValue;
use crate::json::JsonView;
use crate::json::json_get;
use crate::json::json_parse;
use crate::json::parse_json;
use crate::json::empty_object;
use crate::json::lemma_lookup_member;

verus! {

/// A tool call as data: the tool's name and its arguments.
pub ghost struct CallView {
    pub name: Seq<char>,
    pub arguments: JsonView,
}

/// A tool call found in a model's reply.
#[derive(Debug, PartialEq)]
pub struct ParsedToolCall {
    pub name: String,
    pub arguments: JsonValue,
}

impl View for ParsedToolCall {
    type V = CallView;

    open spec fn view(&self) -> CallView {
        CallView { name: self.name@, arguments: self.arguments@ }
    }
}

/// The views of a list of calls.
pub open spec fn call_views(v: Seq<ParsedToolCall>) -> Seq<CallView> {
    v.map_values(|c: ParsedToolCall| c@)
}

/// The keys under which a call may give its tool's name, in the order tried.
pub open spec fn name_keys() -> Seq<Seq<char>> {
    seq!["name"@, "tool"@, "tool_name"@, "function_name"@, "recipient_name"@]
}

/// The keys under which a call may give its arguments, in the order tried.
pub open spec fn argument_keys() -> Seq<Seq<char>> {
    seq!["arguments"@, "args"@, "parameters"@, "params"@, "input"@]
}

/// The value under the first of `keys` that `v` holds.
pub open spec fn first_present(v: JsonView, keys: Seq<Seq<char>>) -> Option<JsonView>
    decreases keys.len(),
{
    if keys.len() == 0 {
        None
    } else {
        match json_get(v, keys[0]) {
            Some(x) => Some(x),
            None => first_present(v, keys.drop_first()),
        }
    }
}

/// The tool name of a call object: the first name key's value, which must be
/// a string; trimmed, stripped of leading `functions.`, and not empty.
pub open spec fn call_name(v: JsonView) -> Option<Seq<char>> {
    match first_present(v, name_keys()) {
        Some(JsonView::Str(s)) => {
            let n = strip_prefixes(trim(s), "functions."@);
            if n.len() == 0 {
                None
            } else {
                Some(n)
            }
        },
        _ => None,
    }
}

/// The arguments of a call object: a string holding JSON is parsed (an empty
/// object where it does not parse), an object is kept, anything else or
/// nothing gives an empty object.
pub open spec fn call_arguments(v: JsonView) -> JsonView {
    match first_present(v, argument_keys()) {
        Some(JsonView::Str(s)) => match json_parse(trim(s)) {
            Some(p) => p,
            None => empty_object(),
        },
        Some(JsonView::Object(ks, vs)) => JsonView::Object(ks, vs),
        _ => empty_object(),
    }
}

/// The call that a JSON value describes. A `function` member that is an
/// object and describes a call wins; otherwise the value's own name and
/// arguments.
pub open spec fn extract_call(v: JsonView) -> Option<CallView>
    decreases v,
{
    let inner = match json_get(v, "function"@) {
        Some(f) => if f is Object {
            proof {
                lemma_lookup_member(v->Object_0, v->Object_1, "function"@);
                let i = choose|i: int| 0 <= i < v->Object_1.len() && #[trigger] v->Object_1[i] == f;
                assert(decreases_to!(v => v->Object_1));
                assert(decreases_to!(v->Object_1 => v->Object_1[i]));
            }
            extract_call(f)
        } else {
            None
        },
        None => None,
    };
    if inner is Some {
        inner
    } else {
        match call_name(v) {
            Some(n) => Some(CallView { name: n, arguments: call_arguments(v) }),
            None => None,
        }
    }
}

/// The calls that a piece of JSON text holds: one when it parses and
/// describes a call, none otherwise.
pub open spec fn calls_in(text: Seq<char>) -> Seq<CallView> {
    match json_parse(text) {
        Some(v) => match extract_call(v) {
            Some(c) => seq![c],
            None => Seq::empty(),
        },
        None => Seq::empty(),
    }
}

/// Calls in the blocks between `open` and `close` at or after `from`, in
/// order; with `skip_newline`, a newline right after `open` is not part of
/// the block. Each block's text is trimmed. A block without `close` ends the scan.
pub open spec fn delimited_calls(
    c: Seq<char>,
    open: Seq<char>,
    close: Seq<char>,
    skip_newline: bool,
    from: int,
) -> Seq<CallView>
    decreases c.len() + 1 - from,
{
    if from < 0 || from >= c.len() || open.len() == 0 {
        Seq::empty()
    } else {
        match find_from(c, open, from) {
            None => Seq::empty(),
            Some(p) => {
                let after = p + open.len();
                let start = if skip_newline && after < c.len() && c[after] == '\n' {
                    after + 1
                } else {
                    after
                };
                match find_from(c, close, start) {
                    None => Seq::empty(),
                    Some(q) => {
                        proof {
                            lemma_find_from_contains(c, open, from);
                            lemma_find_from_contains(c, close, start);
                        }
                        calls_in(trim(c.subrange(start, q))) + delimited_calls(
                            c,
                            open,
                            close,
                            skip_newline,
                            q + close.len(),
                        )
                    },
                }
            },
        }
    }
}

/// Where the `{` scanned from `j` is closed: braces inside JSON strings do not
/// count, and a backslash in a string escapes the next character.
pub open spec fn closing_brace(c: Seq<char>, j: int, depth: int, in_str: bool, escape: bool) -> Option<int>
    decreases c.len() - j,
{
    if j < 0 || j >= c.len() {
        None
    } else if escape {
        closing_brace(c, j + 1, depth, in_str, false)
    } else if in_str {
        if c[j] == '\\' {
            closing_brace(c, j + 1, depth, true, true)
        } else if c[j] == '"' {
            closing_brace(c, j + 1, depth, false, false)
        } else {
            closing_brace(c, j + 1, depth, true, false)
        }
    } else if c[j] == '"' {
        closing_brace(c, j + 1, depth, true, false)
    } else if c[j] == '{' {
        closing_brace(c, j + 1, depth + 1, false, false)
    } else if c[j] == '}' {
        if depth - 1 == 0 {
            Some(j)
        } else {
            closing_brace(c, j + 1, depth - 1, false, false)
        }
    } else {
        closing_brace(c, j + 1, depth, false, false)
    }
}

/// A closing position is at or after where the scan starts.
pub proof fn lemma_closing_brace_after(c: Seq<char>, j: int, depth: int, in_str: bool, escape: bool)
    ensures
        closing_brace(c, j, depth, in_str, escape) matches Some(k) ==> j <= k < c.len(),
    decreases c.len() - j,
{
    if 0 <= j < c.len() {
        lemma_closing_brace_after(c, j + 1, depth, in_str, false);
        lemma_closing_brace_after(c, j + 1, depth, true, true);
        lemma_closing_brace_after(c, j + 1, depth, false, false);
        lemma_closing_brace_after(c, j + 1, depth, true, false);
        lemma_closing_brace_after(c, j + 1, depth + 1, false, false);
        lemma_closing_brace_after(c, j + 1, depth - 1, false, false);
    }
}

/// Calls in the balanced `{ ... }` objects at or after `i`, left to right; an
/// object is skipped as a whole, an unbalanced `{` is passed over.
pub open spec fn inline_calls(c: Seq<char>, i: int) -> Seq<CallView>
    decreases c.len() - i,
{
    if i < 0 || i >= c.len() {
        Seq::empty()
    } else if c[i] == '{' {
        match closing_brace(c, i, 0, false, false) {
            Some(j) => {
                proof {
                    lemma_closing_brace_after(c, i, 0, false, false);
                }
                calls_in(c.subrange(i, j + 1)) + inline_calls(c, j + 1)
            },
            None => inline_calls(c, i + 1),
        }
    } else {
        inline_calls(c, i + 1)
    }
}

/// The calls in a reply: those in fenced ```json blocks, then those in
/// `<tool_call>` tags; when there are none, those in bare JSON objects.
pub open spec fn parse_calls(c: Seq<char>) -> Seq<CallView> {
    let found = delimited_calls(c, "```json"@, "```"@, true, 0) + delimited_calls(
        c,
        "<tool_call>"@,
        "</tool_call>"@,
        false,
        0,
    );
    if found.len() == 0 {
        inline_calls(c, 0)
    } else {
        found
    }
}

/// Extracts the tool calls that a model wrote as text.
pub struct ToolCallParser;

/// The value under the first of five keys that `obj` holds.
fn first_of<'a>(obj: &'a JsonValue, k1: &str, k2: &str, k3: &str, k4: &str, k5: &str) -> (r: Option<&'a JsonValue>)
    ensures
        match r {
            Some(x) => first_present(obj@, seq![k1@, k2@, k3@, k4@, k5@]) == Some(x@),
            None => first_present(obj@, seq![k1@, k2@, k3@, k4@, k5@]) is None,
        },
{
    let ghost keys = seq![k1@, k2@, k3@, k4@, k5@];
    assert(keys.drop_first() =~= seq![k2@, k3@, k4@, k5@]);
    assert(keys.drop_first().drop_first() =~= seq![k3@, k4@, k5@]);
    assert(keys.drop_first().drop_first().drop_first() =~= seq![k4@, k5@]);
    assert(keys.drop_first().drop_first().drop_first().drop_first() =~= seq![k5@]);
    assert(keys.drop_first().drop_first().drop_first().drop_first().drop_first() =~= Seq::<Seq<char>>::empty());
    reveal_with_fuel(first_present, 6);
    match obj.get(k1) {
        Some(x) => return Some(x),
        None => {},
    }
    match obj.get(k2) {
        Some(x) => return Some(x),
        None => {},
    }
    match obj.get(k3) {
        Some(x) => return Some(x),
        None => {},
    }
    match obj.get(k4) {
        Some(x) => return Some(x),
        None => {},
    }
    obj.get(k5)
}


/// Appending a call appends its view.
proof fn lemma_call_views_push(v: Seq<ParsedToolCall>, c: ParsedToolCall)
    ensures
        call_views(v.push(c)) == call_views(v).push(c@),
{
    assert(call_views(v.push(c)) =~= call_views(v).push(c@));
}

/// Collecting into a list: `prefix + (x + rest)` as `(prefix + x) + rest`.
proof fn lemma_append_assoc(a: Seq<CallView>, b: Seq<CallView>, c: Seq<CallView>)
    ensures
        a + (b + c) == (a + b) + c,
{
    assert(a + (b + c) =~= (a + b) + c);
}

impl ToolCallParser {
    /// The tool calls in a model's reply, in the order described by `parse_calls`.
    pub fn parse(content: &str) -> (r: Vec<ParsedToolCall>)
        ensures
            call_views(r@) == parse_calls(content@),
    {
        let chars = chars_of(content);
        let mut results: Vec<ParsedToolCall> = Vec::new();
        assert(call_views(results@) =~= Seq::<CallView>::empty());
        Self::parse_fenced(&chars, &mut results);
        Self::parse_xml_style(&chars, &mut results);
        if results.len() == 0 {
            proof {
                assert(call_views(results@).len() == 0);
            }
            Self::parse_inline(&chars, &mut results);
            assert(call_views(results@) =~= parse_calls(content@));
        } else {
            assert(call_views(results@) =~= parse_calls(content@));
        }
        results
    }

    /// The call that a JSON value describes (see `extract_call`).
    fn extract_tool_call(obj: &JsonValue) -> (r: Option<ParsedToolCall>)
        ensures
            match r {
                Some(c) => extract_call(obj@) == Some(c@),
                None => extract_call(obj@) is None,
            },
        decreases obj@,
    {
        if let Some(func) = obj.get("function") {
            if func.is_object() {
                proof {
                    lemma_lookup_member(obj@->Object_0, obj@->Object_1, "function"@);
                    let i = choose|i: int| 0 <= i < obj@->Object_1.len() && #[trigger] obj@->Object_1[i] == func@;
                    assert(decreases_to!(obj@ => obj@->Object_1));
                    assert(decreases_to!(obj@->Object_1 => obj@->Object_1[i]));
                }
                if let Some(tc) = Self::extract_tool_call(func) {
                    return Some(tc);
                }
            }
        }
        let name_val = match first_of(obj, "name", "tool", "tool_name", "function_name", "recipient_name") {
            Some(v) => v,
            None => return None,
        };
        let raw = match name_val.as_str() {
            Some(s) => s,
            None => return None,
        };
        let chars = chars_of(raw);
        let (a, b) = trim_range(&chars, 0, chars.len());
        assert(chars@.subrange(0, chars@.len() as int) =~= chars@);
        let prefix = chars_of("functions.");
        let a2 = strip_prefixes_range(&chars, a, b, &prefix);
        if a2 == b {
            return None;
        }
        let name = string_from_range(&chars, a2, b);
        let arguments = match first_of(obj, "arguments", "args", "parameters", "params", "input") {
            Some(JsonValue::Str(s)) => match parse_json(trim_str(s.as_str())) {
                Some(p) => p,
                None => JsonValue::new_object(),
            },
            Some(v) => if v.is_object() {
                v.deep_copy()
            } else {
                JsonValue::new_object()
            },
            None => JsonValue::new_object(),
        };
        Some(ParsedToolCall { name, arguments })
    }

    /// The call written as the JSON text `text`, if any.
    fn call_from_text(text: &str) -> (r: Option<ParsedToolCall>)
        ensures
            match r {
                Some(c) => calls_in(text@) == seq![c@],
                None => calls_in(text@) == Seq::<CallView>::empty(),
            },
    {
        match parse_json(text) {
            Some(v) => Self::extract_tool_call(&v),
            None => None,
        }
    }

    /// Appends the calls found in blocks between `open` and `close`.
    fn parse_delimited(
        content: &Vec<char>,
        open: &Vec<char>,
        close: &Vec<char>,
        skip_newline: bool,
        out: &mut Vec<ParsedToolCall>,
    )
        requires
            open@.len() > 0,
        ensures
            call_views(final(out)@) == call_views(old(out)@) + delimited_calls(
                content@,
                open@,
                close@,
                skip_newline,
                0,
            ),
    {
        let ghost c = content@;
        let ghost base = call_views(out@);
        let mut search_from: usize = 0;
        assert(base + delimited_calls(c, open@, close@, skip_newline, 0) =~= call_views(out@) + delimited_calls(c, open@, close@, skip_newline, 0));
        while search_from < content.len()
            invariant
                c == content@,
                base == call_views(old(out)@),
                open@.len() > 0,
                call_views(out@) + delimited_calls(c, open@, close@, skip_newline, search_from as int)
                    == base + delimited_calls(c, open@, close@, skip_newline, 0),
            decreases content.len() - search_from,
        {
            let open_pos = match find_chars(content, open, search_from) {
                Some(p) => p,
                None => {
                    assert(call_views(out@) + Seq::<CallView>::empty() =~= call_views(out@));
                    return;
                },
            };
            proof {
                lemma_find_from_contains(c, open@, search_from as int);
            }
            let after = open_pos + open.len();
            let start = if skip_newline && after < content.len() && content[after] == '\n' {
                after + 1
            } else {
                after
            };
            let close_pos = match find_chars(content, close, start) {
                Some(q) => q,
                None => {
                    assert(call_views(out@) + Seq::<CallView>::empty() =~= call_views(out@));
                    return;
                },
            };
            proof {
                lemma_find_from_contains(c, close@, start as int);
            }
            let (a, b) = trim_range(content, start, close_pos);
            let text = string_from_range(content, a, b);
            let ghost before = call_views(out@);
            let ghost rest = delimited_calls(c, open@, close@, skip_newline, close_pos + close@.len());
            let found = Self::call_from_text(text.as_str());
            match found {
                Some(tc) => {
                    proof {
                        lemma_call_views_push(out@, tc);
                        lemma_append_assoc(before, seq![tc@], rest);
                    }
                    out.push(tc);
                },
                None => {
                    assert(Seq::<CallView>::empty() + rest =~= rest);
                },
            }
            search_from = close_pos + close.len();
        }
        assert(call_views(out@) + Seq::<CallView>::empty() =~= call_views(out@));
    }

    /// Appends the calls in fenced ```json blocks.
    fn parse_fenced(content: &Vec<char>, out: &mut Vec<ParsedToolCall>)
        ensures
            call_views(final(out)@) == call_views(old(out)@) + delimited_calls(content@, "```json"@, "```"@, true, 0),
    {
        let open = chars_of("```json");
        let close = chars_of("```");
        proof {
            reveal_strlit("```json");
        }
        Self::parse_delimited(content, &open, &close, true, out);
    }

    /// Appends the calls in `<tool_call>` tags.
    fn parse_xml_style(content: &Vec<char>, out: &mut Vec<ParsedToolCall>)
        ensures
            call_views(final(out)@) == call_views(old(out)@) + delimited_calls(
                content@,
                "<tool_call>"@,
                "</tool_call>"@,
                false,
                0,
            ),
    {
        let open = chars_of("<tool_call>");
        let close = chars_of("</tool_call>");
        proof {
            reveal_strlit("<tool_call>");
        }
        Self::parse_delimited(content, &open, &close, false, out);
    }

    /// Where the `{` at `start` is closed (see `closing_brace`).
    fn closing_brace_exec(content: &Vec<char>, start: usize) -> (r: Option<usize>)
        requires
            start < content.len(),
            content@[start as int] == '{',
        ensures
            match r {
                Some(j) => closing_brace(content@, start as int, 0, false, false) == Some(j as int),
                None => closing_brace(content@, start as int, 0, false, false) is None,
            },
    {
        let ghost c = content@;
        let len = content.len();
        let mut depth: usize = 0;
        let mut in_str = false;
        let mut escape = false;
        let mut j = start;
        while j < len
            invariant
                c == content@,
                len == content.len(),
                start <= j <= len,
                c[start as int] == '{',
                j == start ==> depth == 0 && !in_str && !escape,
                j > start ==> depth >= 1,
                depth <= j - start,
                escape ==> in_str,
                closing_brace(c, start as int, 0, false, false) == closing_brace(c, j as int, depth as int, in_str, escape),
            decreases len - j,
        {
            let ch = content[j];
            if escape {
                escape = false;
            } else if in_str {
                if ch == '\\' {
                    escape = true;
                } else if ch == '"' {
                    in_str = false;
                }
            } else if ch == '"' {
                in_str = true;
            } else if ch == '{' {
                depth = depth + 1;
            } else if ch == '}' {
                if depth - 1 == 0 {
                    return Some(j);
                }
                depth = depth - 1;
            }
            j = j + 1;
        }
        None
    }

    /// Appends the calls in bare balanced JSON objects.
    fn parse_inline(content: &Vec<char>, out: &mut Vec<ParsedToolCall>)
        ensures
            call_views(final(out)@) == call_views(old(out)@) + inline_calls(content@, 0),
    {
        let ghost c = content@;
        let ghost base = call_views(out@);
        let len = content.len();
        let mut i: usize = 0;
        while i < len
            invariant
                c == content@,
                base == call_views(old(out)@),
                len == content.len(),
                i <= len,
                call_views(out@) + inline_calls(c, i as int) == base + inline_calls(c, 0),
            decreases len - i,
        {
            if content[i] == '{' {
                let start = i;
                match Self::closing_brace_exec(content, start) {
                    Some(j) => {
                        proof {
                            lemma_closing_brace_after(c, start as int, 0, false, false);
                        }
                        let text = string_from_range(content, start, j + 1);
                        let ghost before = call_views(out@);
                        let ghost rest = inline_calls(c, j + 1);
                        match Self::call_from_text(text.as_str()) {
                            Some(tc) => {
                                proof {
                                    lemma_call_views_push(out@, tc);
                                    lemma_append_assoc(before, seq![tc@], rest);
                                }
                                out.push(tc);
                            },
                            None => {
                                assert(Seq::<CallView>::empty() + rest =~= rest);
                            },
                        }
                        i = j + 1;
                    },
                    None => {
                        i = i + 1;
                    },
                }
            } else {
                i = i + 1;
            }
        }
        assert(call_views(out@) + Seq::<CallView>::empty() =~= call_views(out@));
    }
}

} // verus!
