//! What the terminal interface decides about text: languages of files, tool
//! JSON in a streamed reply, replies to hide, line wrapping, scrolling.
use vstd::prelude::*;
use crate::text::chars_of;
use crate::text::str_eq;
use crate::text::str_contains;
use crate::text::contains;
use crate::text::concat2;
use crate::text::push_str;
use crate::text::push_char;
use crate::text::to_owned_string;
use crate::text::to_lowercase;
use crate::text::lowercase;
use crate::text::trim;
use crate::text::trim_str;
use crate::text::trim_range;
use crate::text::find_chars;
use crate::text::find_from;
use crate::text::occurs_at;
use crate::text::string_from_range;
use crate::text::string_from_chars;
use crate::text::lemma_find_from_contains;
use crate::provider::ProviderKind;
use crate::provider::ModelInfo;
use vstd::utf8::encode_utf8;
use vstd::string::StringSliceAdditionalSpecFns;

verus! {

/// The last position of `c` in `s` before `end`.
pub open spec fn last_index_before(s: Seq<char>, c: char, end: int) -> Option<int>
    decreases end,
{
    if end <= 0 || end > s.len() {
        None
    } else if s[end - 1] == c {
        Some(end - 1)
    } else {
        last_index_before(s, c, end - 1)
    }
}

/// The text after the last `.` of a path; the whole path when it has none.
pub open spec fn path_extension(s: Seq<char>) -> Seq<char> {
    match last_index_before(s, '.', s.len() as int) {
        Some(i) => s.subrange(i + 1, s.len() as int),
        None => s,
    }
}

/// The highlighting language for a file extension.
pub open spec fn language_of_extension(e: Seq<char>) -> Seq<char> {
    if e == "rs"@ {
        "rust"@
    } else if e == "py"@ {
        "python"@
    } else if e == "js"@ || e == "mjs"@ || e == "cjs"@ {
        "javascript"@
    } else if e == "ts"@ || e == "tsx"@ {
        "typescript"@
    } else if e == "json"@ {
        "json"@
    } else if e == "md"@ {
        "markdown"@
    } else if e == "sh"@ || e == "bash"@ {
        "shell"@
    } else if e == "toml"@ {
        "toml"@
    } else if e == "go"@ {
        "go"@
    } else {
        "text"@
    }
}

/// The text after the last `.` of a path (see `path_extension`).
pub fn path_extension_of(path: &str) -> (r: String)
    ensures
        r@ == path_extension(path@),
{
    let v = chars_of(path);
    let mut end = v.len();
    while end > 0 && v[end - 1] != '.'
        invariant
            end <= v.len(),
            last_index_before(v@, '.', v@.len() as int) == last_index_before(v@, '.', end as int),
        decreases end,
    {
        end = end - 1;
    }
    if end == 0 {
        string_from_chars(&v)
    } else {
        string_from_range(&v, end, v.len())
    }
}

/// The highlighting language of a file, from its extension.
pub fn lang_from_path(path: &str) -> (r: &'static str)
    ensures
        r@ == language_of_extension(path_extension(path@)),
{
    let e = path_extension_of(path);
    let x = e.as_str();
    if str_eq(x, "rs") {
        "rust"
    } else if str_eq(x, "py") {
        "python"
    } else if str_eq(x, "js") || str_eq(x, "mjs") || str_eq(x, "cjs") {
        "javascript"
    } else if str_eq(x, "ts") || str_eq(x, "tsx") {
        "typescript"
    } else if str_eq(x, "json") {
        "json"
    } else if str_eq(x, "md") {
        "markdown"
    } else if str_eq(x, "sh") || str_eq(x, "bash") {
        "shell"
    } else if str_eq(x, "toml") {
        "toml"
    } else if str_eq(x, "go") {
        "go"
    } else {
        "text"
    }
}

/// A streamed reply seems to hold a tool call.
pub open spec fn tool_json_like(s: Seq<char>) -> bool {
    contains(s, "```json"@) || contains(s, "\"name\":\"write_file\""@) || contains(
        s,
        "\"name\": \"write_file\""@,
    ) || contains(s, "\"name\":\"patch\""@) || contains(s, "\"name\":\"read_file\""@) || contains(
        s,
        "\"name\":\"bash\""@,
    )
}

/// Whether a streamed reply seems to hold a tool call.
pub fn looks_like_tool_json(s: &str) -> (r: bool)
    ensures
        r == tool_json_like(s@),
{
    str_contains(s, "```json") || str_contains(s, "\"name\":\"write_file\"") || str_contains(
        s,
        "\"name\": \"write_file\"",
    ) || str_contains(s, "\"name\":\"patch\"") || str_contains(s, "\"name\":\"read_file\"")
        || str_contains(s, "\"name\":\"bash\"")
}

/// The tool-call JSON in a (possibly unfinished) reply: the body of the
/// first ```json block (after an optional newline, up to the closing fence
/// or the end), else the text from the first `{"name"` or `{ "name"` on;
/// trimmed.
pub open spec fn tool_json_blob(raw: Seq<char>) -> Option<Seq<char>> {
    match find_from(raw, "```json"@, 0) {
        Some(idx) => {
            let after = raw.subrange(idx + 7, raw.len() as int);
            let body = if after.len() > 0 && after[0] == '\n' { after.drop_first() } else { after };
            match find_from(body, "```"@, 0) {
                Some(end) => Some(trim(body.subrange(0, end))),
                None => Some(trim(body)),
            }
        },
        None => match find_from(raw, "{\"name\""@, 0) {
            Some(idx) => Some(trim(raw.subrange(idx, raw.len() as int))),
            None => match find_from(raw, "{ \"name\""@, 0) {
                Some(idx) => Some(trim(raw.subrange(idx, raw.len() as int))),
                None => None,
            },
        },
    }
}

/// The tool-call JSON in a reply being streamed (see `tool_json_blob`).
pub fn extract_tool_json_blob(raw: &str) -> (r: Option<String>)
    ensures
        match r {
            Some(b) => tool_json_blob(raw@) == Some(b@),
            None => tool_json_blob(raw@) is None,
        },
{
    let v = chars_of(raw);
    let fence = chars_of("```json");
    proof {
        reveal_strlit("```json");
    }
    if let Some(idx) = find_chars(&v, &fence, 0) {
        proof {
            lemma_find_from_contains(v@, fence@, 0);
        }
        let after = idx + 7;
        let start = if after < v.len() && v[after] == '\n' { after + 1 } else { after };
        let ghost a = v@.subrange(after as int, v@.len() as int);
        let ghost body = if a.len() > 0 && a[0] == '\n' { a.drop_first() } else { a };
        assert(body =~= v@.subrange(start as int, v@.len() as int));
        let body_v = chars_of(suffix(&v, start).as_str());
        let close = chars_of("```");
        match find_chars(&body_v, &close, 0) {
            Some(end) => {
                proof {
                    lemma_find_from_contains(body_v@, close@, 0);
                }
                let (x, y) = trim_range(&body_v, 0, end);
                return Some(string_from_range(&body_v, x, y));
            },
            None => {
                let (x, y) = trim_range(&body_v, 0, body_v.len());
                assert(body_v@.subrange(0, body_v@.len() as int) =~= body_v@);
                return Some(string_from_range(&body_v, x, y));
            },
        }
    }
    let p1 = chars_of("{\"name\"");
    if let Some(idx) = find_chars(&v, &p1, 0) {
        proof {
            lemma_find_from_contains(v@, p1@, 0);
        }
        let (x, y) = trim_range(&v, idx, v.len());
        return Some(string_from_range(&v, x, y));
    }
    let p2 = chars_of("{ \"name\"");
    if let Some(idx) = find_chars(&v, &p2, 0) {
        proof {
            lemma_find_from_contains(v@, p2@, 0);
        }
        let (x, y) = trim_range(&v, idx, v.len());
        return Some(string_from_range(&v, x, y));
    }
    None
}

/// `v[lo..]` as a string.
fn suffix(v: &Vec<char>, lo: usize) -> (r: String)
    requires
        lo <= v.len(),
    ensures
        r@ == v@.subrange(lo as int, v@.len() as int),
{
    string_from_range(v, lo, v.len())
}

/// What an escape `\c` in a JSON string stands for: `\n`, `\t`, `\"` and
/// `\\` are decoded, any other stays as written.
pub open spec fn unescaped(c: char) -> Seq<char> {
    if c == 'n' {
        seq!['\n']
    } else if c == 't' {
        seq!['\t']
    } else if c == '"' {
        seq!['"']
    } else if c == '\\' {
        seq!['\\']
    } else {
        seq!['\\', c]
    }
}

/// The decoded text of a JSON string body up to its closing quote or the end
/// of what arrived; a backslash at the very end is dropped.
pub open spec fn partial_string(s: Seq<char>) -> Seq<char>
    decreases s.len(),
{
    if s.len() == 0 {
        Seq::empty()
    } else if s[0] == '\\' {
        if s.len() == 1 {
            Seq::empty()
        } else {
            unescaped(s[1]) + partial_string(s.subrange(2, s.len() as int))
        }
    } else if s[0] == '"' {
        Seq::empty()
    } else {
        seq![s[0]] + partial_string(s.drop_first())
    }
}

/// The value of a string field in JSON that may still be arriving: after the
/// first `"key":"`, or else the first `"key": "`.
pub open spec fn partial_field(raw: Seq<char>, key: Seq<char>) -> Option<Seq<char>> {
    let p1 = "\""@ + key + "\":\""@;
    let p2 = "\""@ + key + "\": \""@;
    match find_from(raw, p1, 0) {
        Some(i) => Some(partial_string(raw.subrange(i + p1.len(), raw.len() as int))),
        None => match find_from(raw, p2, 0) {
            Some(i) => Some(partial_string(raw.subrange(i + p2.len(), raw.len() as int))),
            None => None,
        },
    }
}

/// Decodes a JSON string body from `v[i..]` (see `partial_string`).
fn decode_partial(v: &Vec<char>, start: usize) -> (r: String)
    requires
        start <= v.len(),
    ensures
        r@ == partial_string(v@.subrange(start as int, v@.len() as int)),
{
    let mut out = String::new();
    let mut i = start;
    while i < v.len()
        invariant
            start <= i <= v.len(),
            out@ + partial_string(v@.subrange(i as int, v@.len() as int)) == partial_string(v@.subrange(start as int, v@.len() as int)),
        decreases v.len() - i,
    {
        let ghost s = v@.subrange(i as int, v@.len() as int);
        let c = v[i];
        assert(s[0] == c);
        if c == '\\' {
            if i + 1 < v.len() {
                let n = v[i + 1];
                assert(s[1] == n);
                assert(s.subrange(2, s.len() as int) =~= v@.subrange(i + 2, v@.len() as int));
                let ghost before = out@;
                if n == 'n' {
                    push_char(&mut out, '\n');
                } else if n == 't' {
                    push_char(&mut out, '\t');
                } else if n == '"' {
                    push_char(&mut out, '"');
                } else if n == '\\' {
                    push_char(&mut out, '\\');
                } else {
                    push_char(&mut out, '\\');
                    push_char(&mut out, n);
                }
                assert(out@ =~= before + unescaped(n));
                assert(before + (unescaped(n) + partial_string(v@.subrange(i + 2, v@.len() as int))) =~= out@ + partial_string(v@.subrange(i + 2, v@.len() as int)));
                i = i + 2;
            } else {
                assert(out@ + Seq::<char>::empty() =~= out@);
                return out;
            }
        } else if c == '"' {
            assert(out@ + Seq::<char>::empty() =~= out@);
            return out;
        } else {
            let ghost before = out@;
            push_char(&mut out, c);
            assert(s.drop_first() =~= v@.subrange(i + 1, v@.len() as int));
            assert(before + (seq![c] + partial_string(s.drop_first())) =~= out@ + partial_string(s.drop_first()));
            i = i + 1;
        }
    }
    assert(v@.subrange(i as int, v@.len() as int) =~= Seq::<char>::empty());
    assert(out@ + Seq::<char>::empty() =~= out@);
    out
}

/// The value of a string field in JSON that may still be arriving (see `partial_field`).
pub fn extract_partial_string_field(raw: &str, key: &str) -> (r: Option<String>)
    ensures
        match r {
            Some(s) => partial_field(raw@, key@) == Some(s@),
            None => partial_field(raw@, key@) is None,
        },
{
    let v = chars_of(raw);
    let mut p1s = concat2("\"", key);
    push_str(&mut p1s, "\":\"");
    let mut p2s = concat2("\"", key);
    push_str(&mut p2s, "\": \"");
    let p1 = chars_of(p1s.as_str());
    let p2 = chars_of(p2s.as_str());
    if let Some(i) = find_chars(&v, &p1, 0) {
        proof {
            lemma_find_from_contains(v@, p1@, 0);
            assert(occurs_at(v@, p1@, i as int));
        }
        return Some(decode_partial(&v, i + p1.len()));
    }
    if let Some(i) = find_chars(&v, &p2, 0) {
        proof {
            lemma_find_from_contains(v@, p2@, 0);
            assert(occurs_at(v@, p2@, i as int));
        }
        let n2 = p2.len();
        assert(i + n2 <= v.len());
        let st = i + n2;
        return Some(decode_partial(&v, st));
    }
    None
}

/// Replies that say only that the work is done.
pub open spec fn meta_replies() -> Seq<Seq<char>> {
    seq![
        "task complete"@, "task complete."@, "done"@, "done."@, "completed"@, "completed."@,
        "finished"@, "finished."@, "all done"@, "all done."@,
    ]
}

/// A reply that says nothing but that the work is done: after trimming and
/// lower-casing, one of `meta_replies`, or under 40 UTF-8 bytes (counted as a
/// machine word) and mentioning a
/// completed task, or `ok`.
pub open spec fn meta_reply(text: Seq<char>) -> bool {
    let t = lowercase(trim(text));
    meta_replies().contains(t) || ((encode_utf8(t).len() as usize) < 40 && (contains(t, "task complete"@) || contains(
        t,
        "task completed"@,
    ) || t == "ok"@ || t == "ok."@))
}

/// Whether a reply says nothing but that the work is done (see `meta_reply`).
pub fn is_meta_reply(text: &str) -> (r: bool)
    ensures
        r == meta_reply(text@),
{
    let low = to_lowercase(trim_str(text));
    let t = low.as_str();
    let exact = str_eq(t, "task complete") || str_eq(t, "task complete.") || str_eq(t, "done") || str_eq(t, "done.")
        || str_eq(t, "completed") || str_eq(t, "completed.") || str_eq(t, "finished") || str_eq(t, "finished.")
        || str_eq(t, "all done") || str_eq(t, "all done.");
    proof {
        let m = meta_replies();
        if m.contains(t@) {
            let i = choose|i: int| 0 <= i < m.len() && m[i] == t@;
            assert(exact);
        }
        if exact {
            if t@ == "task complete"@ { assert(m[0] == t@); }
            if t@ == "task complete."@ { assert(m[1] == t@); }
            if t@ == "done"@ { assert(m[2] == t@); }
            if t@ == "done."@ { assert(m[3] == t@); }
            if t@ == "completed"@ { assert(m[4] == t@); }
            if t@ == "completed."@ { assert(m[5] == t@); }
            if t@ == "finished"@ { assert(m[6] == t@); }
            if t@ == "finished."@ { assert(m[7] == t@); }
            if t@ == "all done"@ { assert(m[8] == t@); }
            if t@ == "all done."@ { assert(m[9] == t@); }
        }
    }
    if exact {
        return true;
    }
    t.len() < 40 && (str_contains(t, "task complete") || str_contains(t, "task completed") || str_eq(t, "ok") || str_eq(t, "ok."))
}

/// The frames of the spinner.
pub open spec fn spinner_frames() -> Seq<Seq<char>> {
    seq!["⠋"@, "⠙"@, "⠹"@, "⠸"@, "⠼"@, "⠴"@, "⠦"@, "⠧"@, "⠇"@, "⠏"@]
}

/// The spinner frame for a tick: the frames in turn.
pub fn spinner(tick: usize) -> (r: &'static str)
    ensures
        r@ == spinner_frames()[tick as int % 10],
{
    let frames: [&str; 10] = ["⠋", "⠙", "⠹", "⠸", "⠼", "⠴", "⠦", "⠧", "⠇", "⠏"];
    let f: &[&str] = &frames;
    assert(f@.map_values(|x: &str| x@) =~= spinner_frames());
    let r = f[tick % 10];
    assert(r@ == f@.map_values(|x: &str| x@)[tick as int % 10]);
    r
}

/// The hint for a provider that cannot be reached at `url`.
pub open spec fn unreachable_text(kind: ProviderKind, url: Seq<char>) -> Seq<char> {
    match kind {
        ProviderKind::Ollama => "Cannot reach Ollama at "@ + url + " — start it with: ollama serve"@,
        ProviderKind::LmStudio => "Cannot reach LM Studio at "@ + url + " — open LM Studio and enable the local server"@,
    }
}

/// The hint for a provider that offers no model.
pub open spec fn no_models_text(kind: ProviderKind) -> Seq<char> {
    match kind {
        ProviderKind::Ollama => "No models found — run: ollama pull qwen2.5-coder:7b"@,
        ProviderKind::LmStudio => "No models loaded — load a model in LM Studio first"@,
    }
}

/// What to tell the user when a provider cannot be reached (see `unreachable_text`).
pub fn provider_error_hint(kind: &ProviderKind, url: &str, _err: &str) -> (r: String)
    ensures
        r@ == unreachable_text(*kind, url@),
{
    match kind {
        ProviderKind::Ollama => {
            let mut s = concat2("Cannot reach Ollama at ", url);
            push_str(&mut s, " — start it with: ollama serve");
            s
        },
        ProviderKind::LmStudio => {
            let mut s = concat2("Cannot reach LM Studio at ", url);
            push_str(&mut s, " — open LM Studio and enable the local server");
            s
        },
    }
}

/// What to tell the user when a provider offers no model (see `no_models_text`).
pub fn no_models_hint(kind: &ProviderKind) -> (r: String)
    ensures
        r@ == no_models_text(*kind),
{
    match kind {
        ProviderKind::Ollama => to_owned_string("No models found — run: ollama pull qwen2.5-coder:7b"),
        ProviderKind::LmStudio => to_owned_string("No models loaded — load a model in LM Studio first"),
    }
}

/// What the model list shows once the server answered: the models where
/// there are some; the hint that none is installed where the list is empty;
/// the hint how to reach the server at `url` where the request failed.
pub fn model_list_outcome(kind: &ProviderKind, url: &str, result: Result<Vec<ModelInfo>, String>) -> (r: Result<Vec<ModelInfo>, String>)
    ensures
        match result {
            Ok(ms) => if ms@.len() > 0 {
                r matches Ok(v) && v@ == ms@
            } else {
                r matches Err(h) && h@ == no_models_text(*kind)
            },
            Err(e) => r matches Err(h) && h@ == unreachable_text(*kind, url@),
        },
{
    match result {
        Ok(models) => {
            if models.len() == 0 {
                Err(no_models_hint(kind))
            } else {
                Ok(models)
            }
        },
        Err(e) => Err(provider_error_hint(kind, url, e.as_str())),
    }
}

/// What the model screen shows.
#[derive(Clone, Copy, Debug, PartialEq, Eq, Structural)]
pub enum ModelScreen {
    /// The list is being fetched.
    Loading,
    /// Fetching failed, or no model is installed: the hint is shown.
    Failed,
    /// Nothing came back yet.
    Empty,
    /// The models to choose from.
    List,
}

/// The model screen's content: while the list loads, that; else the hint
/// where fetching gave one; else a note where there are no models; else
/// the list.
pub open spec fn model_screen_of(loading: bool, failed: bool, count: nat) -> ModelScreen {
    if loading {
        ModelScreen::Loading
    } else if failed {
        ModelScreen::Failed
    } else if count == 0 {
        ModelScreen::Empty
    } else {
        ModelScreen::List
    }
}

/// Which content the model screen shows (see `model_screen_of`).
pub fn model_screen(loading: bool, failed: bool, count: usize) -> (r: ModelScreen)
    ensures
        r == model_screen_of(loading, failed, count as nat),
{
    if loading {
        ModelScreen::Loading
    } else if failed {
        ModelScreen::Failed
    } else if count == 0 {
        ModelScreen::Empty
    } else {
        ModelScreen::List
    }
}

/// The providers offered at start-up: kind, display name, address.
pub fn provider_entries() -> (r: Vec<(ProviderKind, &'static str, &'static str)>)
    ensures
        r@.len() == 2,
        r@[0].0 == ProviderKind::Ollama && r@[0].1@ == "Ollama"@ && r@[0].2@ == "http://localhost:11434"@,
        r@[1].0 == ProviderKind::LmStudio && r@[1].1@ == "LM Studio"@ && r@[1].2@ == "http://localhost:1234"@,
{
    let mut v = Vec::new();
    v.push((ProviderKind::Ollama, "Ollama", "http://localhost:11434"));
    v.push((ProviderKind::LmStudio, "LM Studio", "http://localhost:1234"));
    v
}

/// `s` with every fenced ```json block removed, first to last; an unclosed
/// block cuts the text where it opens.
pub open spec fn strip_fenced(s: Seq<char>) -> Seq<char>
    decreases s.len(),
{
    match find_from(s, "```json"@, 0) {
        None => s,
        Some(st) => match find_from(s, "```"@, st + "```json"@.len()) {
            Some(q) => {
                proof {
                    reveal_strlit("```json");
                    reveal_strlit("```");
                    lemma_find_from_contains(s, "```json"@, 0);
                    lemma_find_from_contains(s, "```"@, st + "```json"@.len());
                }
                strip_fenced(s.subrange(0, st) + s.subrange(q + "```"@.len(), s.len() as int))
            },
            None => s.subrange(0, st),
        },
    }
}

/// `s` with every `{"name"` object removed up to its first `}`, first to
/// last; one without `}` cuts the text where it opens.
pub open spec fn strip_name_objects(s: Seq<char>) -> Seq<char>
    decreases s.len(),
{
    match find_from(s, "{\"name\""@, 0) {
        None => s,
        Some(st) => match find_from(s, "}"@, st) {
            Some(e) => {
                proof {
                    reveal_strlit("}");
                    lemma_find_from_contains(s, "{\"name\""@, 0);
                    lemma_find_from_contains(s, "}"@, st);
                }
                strip_name_objects(s.subrange(0, st) + s.subrange(e + 1, s.len() as int))
            },
            None => s.subrange(0, st),
        },
    }
}

/// A reply as shown to the user: tool-call JSON removed, then trimmed.
pub open spec fn sanitized(raw: Seq<char>) -> Seq<char> {
    trim(strip_name_objects(strip_fenced(raw)))
}

/// `v` without `v[a..b]`.
fn splice_out(v: &Vec<char>, a: usize, b: usize) -> (r: Vec<char>)
    requires
        a <= b <= v.len(),
    ensures
        r@ == v@.subrange(0, a as int) + v@.subrange(b as int, v@.len() as int),
{
    let mut r: Vec<char> = Vec::new();
    let mut i: usize = 0;
    while i < a
        invariant
            i <= a <= b <= v.len(),
            r@ == v@.subrange(0, i as int),
        decreases a - i,
    {
        r.push(v[i]);
        assert(v@.subrange(0, i + 1) =~= v@.subrange(0, i as int).push(v@[i as int]));
        i = i + 1;
    }
    let mut j = b;
    while j < v.len()
        invariant
            a <= b <= j <= v.len(),
            r@ == v@.subrange(0, a as int) + v@.subrange(b as int, j as int),
        decreases v.len() - j,
    {
        r.push(v[j]);
        assert(v@.subrange(0, a as int) + v@.subrange(b as int, j + 1) =~= (v@.subrange(0, a as int) + v@.subrange(b as int, j as int)).push(v@[j as int]));
        j = j + 1;
    }
    r
}

/// `v[..n]` as a new vector.
fn prefix_chars(v: &Vec<char>, n: usize) -> (r: Vec<char>)
    requires
        n <= v.len(),
    ensures
        r@ == v@.subrange(0, n as int),
{
    let r = splice_out(v, n, v.len());
    assert(v@.subrange(0, n as int) + v@.subrange(v@.len() as int, v@.len() as int) =~= v@.subrange(0, n as int));
    r
}

/// A reply with its tool-call JSON removed and trimmed (see `sanitized`).
pub fn sanitize_agent_text(raw: &str) -> (r: String)
    ensures
        r@ == sanitized(raw@),
{
    let mut out = chars_of(raw);
    let open = chars_of("```json");
    let close = chars_of("```");
    proof {
        reveal_strlit("```json");
        reveal_strlit("```");
    }
    loop
        invariant_except_break
            open@ == "```json"@,
            close@ == "```"@,
            open@.len() == 7,
            close@.len() == 3,
            strip_fenced(out@) == strip_fenced(raw@),
        ensures
            out@ == strip_fenced(raw@),
        decreases out@.len(),
    {
        match find_chars(&out, &open, 0) {
            None => {
                break;
            },
            Some(start) => {
                proof {
                    lemma_find_from_contains(out@, open@, 0);
                    assert(occurs_at(out@, open@, start as int));
                }
                let total = out.len();
                assert(start + 7 <= total);
                let from = start + 7;
                match find_chars(&out, &close, from) {
                    Some(q) => {
                        proof {
                            lemma_find_from_contains(out@, close@, from as int);
                            assert(occurs_at(out@, close@, q as int));
                        }
                        let total = out.len();
                        assert(q + 3 <= total);
                        let end = q + 3;
                        out = splice_out(&out, start, end);
                    },
                    None => {
                        out = prefix_chars(&out, start);
                        break;
                    },
                }
            },
        }
    }
    let ghost fenced = strip_fenced(raw@);
    let obj = chars_of("{\"name\"");
    let brace = chars_of("}");
    proof {
        reveal_strlit("}");
    }
    loop
        invariant_except_break
            obj@ == "{\"name\""@,
            brace@ == "}"@,
            brace@.len() == 1,
            strip_name_objects(out@) == strip_name_objects(fenced),
        ensures
            out@ == strip_name_objects(fenced),
        decreases out@.len(),
    {
        match find_chars(&out, &obj, 0) {
            None => {
                break;
            },
            Some(start) => {
                proof {
                    lemma_find_from_contains(out@, obj@, 0);
                }
                match find_chars(&out, &brace, start) {
                    Some(e) => {
                        proof {
                            lemma_find_from_contains(out@, brace@, start as int);
                            assert(occurs_at(out@, brace@, e as int));
                        }
                        let total = out.len();
                        assert(e + 1 <= total);
                        let end = e + 1;
                        out = splice_out(&out, start, end);
                    },
                    None => {
                        out = prefix_chars(&out, start);
                        break;
                    },
                }
            },
        }
    }
    let (a, b) = trim_range(&out, 0, out.len());
    assert(out@.subrange(0, out@.len() as int) =~= out@);
    string_from_range(&out, a, b)
}

} // verus!

verus! {

/// The scrolling of the conversation: how far down it is scrolled
/// (`usize::MAX` to follow the bottom), how many rows there are, and how
/// many fit on the screen.
#[derive(Clone, Copy, Debug)]
pub struct Scroll {
    pub scroll_offset: usize,
    pub view_rows: usize,
    pub view_height: usize,
}

/// The furthest the view can be scrolled: the rows that do not fit.
pub open spec fn max_offset_of(s: Scroll) -> nat {
    if s.view_rows > s.view_height {
        (s.view_rows - s.view_height) as nat
    } else {
        0
    }
}

/// Where the view is scrolled to: the bottom when following it, else the
/// stored offset held to the furthest.
pub open spec fn effective_of(s: Scroll) -> nat {
    if s.scroll_offset == usize::MAX {
        max_offset_of(s)
    } else if s.scroll_offset < max_offset_of(s) {
        s.scroll_offset as nat
    } else {
        max_offset_of(s)
    }
}

/// Scrolling up `n` rows: from where the view is, stopping at the top.
pub open spec fn scrolled_up(s: Scroll, n: nat) -> Scroll {
    Scroll { scroll_offset: (if effective_of(s) >= n { effective_of(s) - n } else { 0 }) as usize, ..s }
}

/// Scrolling down `n` rows: reaching the furthest point follows the bottom.
pub open spec fn scrolled_down(s: Scroll, n: nat) -> Scroll {
    Scroll {
        scroll_offset: if effective_of(s) + n >= max_offset_of(s) {
            usize::MAX
        } else {
            (effective_of(s) + n) as usize
        },
        ..s
    }
}

/// Following the bottom again.
pub open spec fn to_bottom(s: Scroll) -> Scroll {
    Scroll { scroll_offset: usize::MAX, ..s }
}

impl Scroll {
    /// A view that follows the bottom of no rows, one row high.
    pub fn new() -> (r: Scroll)
        ensures
            r.scroll_offset == usize::MAX,
            r.view_rows == 0,
            r.view_height == 1,
    {
        Scroll { scroll_offset: usize::MAX, view_rows: 0, view_height: 1 }
    }

    /// The furthest the view can be scrolled (see `max_offset_of`).
    pub fn max_offset(&self) -> (r: usize)
        ensures
            r == max_offset_of(*self),
    {
        self.view_rows.saturating_sub(self.view_height)
    }

    /// Where the view is scrolled to (see `effective_of`).
    pub fn effective_offset(&self) -> (r: usize)
        ensures
            r == effective_of(*self),
    {
        if self.scroll_offset == usize::MAX {
            self.max_offset()
        } else {
            let m = self.max_offset();
            if self.scroll_offset < m {
                self.scroll_offset
            } else {
                m
            }
        }
    }

    /// Scrolls up `n` rows, stopping at the top.
    pub fn scroll_up(&mut self, n: usize)
        ensures
            final(self).view_rows == old(self).view_rows,
            final(self).view_height == old(self).view_height,
            final(self).scroll_offset == (if effective_of(*old(self)) >= n { effective_of(*old(self)) - n } else { 0 }),
            *final(self) == scrolled_up(*old(self), n as nat),
    {
        let cur = self.effective_offset();
        self.scroll_offset = cur.saturating_sub(n);
    }

    /// Scrolls down `n` rows; reaching the bottom follows it again.
    pub fn scroll_down(&mut self, n: usize)
        requires
            effective_of(*old(self)) + n <= usize::MAX,
        ensures
            final(self).view_rows == old(self).view_rows,
            final(self).view_height == old(self).view_height,
            final(self).scroll_offset == (if effective_of(*old(self)) + n >= max_offset_of(*old(self)) {
                usize::MAX as int
            } else {
                effective_of(*old(self)) + n
            }),
            *final(self) == scrolled_down(*old(self), n as nat),
    {
        let cur = self.effective_offset();
        let max = self.max_offset();
        let sum = cur + n;
        let next = if sum < max { sum } else { max };
        self.scroll_offset = if next >= max { usize::MAX } else { next };
    }

    /// Follows the bottom again.
    pub fn scroll_to_bottom(&mut self)
        ensures
            final(self).view_rows == old(self).view_rows,
            final(self).view_height == old(self).view_height,
            final(self).scroll_offset == usize::MAX,
            *final(self) == to_bottom(*old(self)),
    {
        self.scroll_offset = usize::MAX;
    }
}

} // verus!
