//! The agent's decisions: when a request asks for action, when a reply is
//! only a plan, how a streamed reply adds up, and what a round does next.
use vstd::prelude::*;
use crate::text::contains;
use crate::text::str_contains;
use crate::text::to_lowercase;
use crate::text::lowercase;
use crate::text::all_ascii;
use crate::text::ascii_lower;
use crate::text::concat2;
use crate::text::push_str;
use crate::text::to_owned_string;
use crate::text::str_eq;
use crate::json::JsonValue;
use crate::toolcall::ToolCallParser;
use crate::toolcall::parse_calls;
use crate::toolcall::call_views;
use crate::text::trim;
use crate::text::trim_str;
use crate::json::JsonView;
use crate::tools::get_str;
use crate::tools::first_str;
use crate::tools::key_views;
use crate::tools::path_keys;
use crate::provider::StreamChunk;
use vstd::utf8::encode_utf8;
use vstd::utf8::is_char_boundary;
use vstd::string::StringSliceAdditionalSpecFns;

verus! {

/// Whether `text` contains one of `words`.
pub fn contains_any(text: &str, words: &[&str]) -> (r: bool)
    ensures
        r == exists|i: int| 0 <= i < words@.len() && contains(text@, #[trigger] words@[i]@),
{
    let mut i: usize = 0;
    while i < words.len()
        invariant
            0 <= i <= words.len(),
            forall|k: int| 0 <= k < i ==> !contains(text@, #[trigger] words@[k]@),
        decreases words.len() - i,
    {
        if str_contains(text, words[i]) {
            return true;
        }
        i = i + 1;
    }
    false
}

/// Words that mark a request for changes rather than for an answer.
pub open spec fn action_words() -> Seq<Seq<char>> {
    seq![
        "implement"@, "write"@, "make"@, "build"@, "create"@, "add"@, "fix"@, "refactor"@,
        "do it"@, "go ahead"@, "proceed"@, "apply"@, "change"@, "update"@, "convert"@,
        "rewrite"@, "develop"@, "happening"@, "some code"@, "write code"@, "write the"@,
    ]
}

/// Phrases that mark a reply that only describes what it would do.
pub open spec fn plan_phrases() -> Seq<Seq<char>> {
    seq![
        "next step"@, "will involve"@, "to achieve this"@, "to fulfill"@, "will require"@,
        "this will involve"@, "involves refactoring"@, "the existing code"@, "located in"@,
    ]
}

/// The lower-cased text contains one of the words.
pub open spec fn mentions_any(text: Seq<char>, words: Seq<Seq<char>>) -> bool {
    exists|i: int| 0 <= i < words.len() && contains(lowercase(text), #[trigger] words[i])
}

/// A user message asks for action.
pub open spec fn wants_action(msg: Seq<char>) -> bool {
    mentions_any(msg, action_words())
}

/// A reply only lays out a plan: it uses a planning phrase and holds no
/// fenced JSON tool call.
pub open spec fn plan_only(text: Seq<char>) -> bool {
    mentions_any(text, plan_phrases()) && !contains(text, "```json"@)
}

/// Whether a user message asks for changes.
pub fn user_wants_action(msg: &str) -> (r: bool)
    ensures
        r == wants_action(msg@),
        all_ascii(msg@) ==> (r <==> exists|i: int|
            0 <= i < action_words().len() && contains(msg@.map_values(|c: char| ascii_lower(c)), #[trigger] action_words()[i])),
{
    let m = to_lowercase(msg);
    let words: [&str; 21] = [
        "implement", "write", "make", "build", "create", "add", "fix", "refactor",
        "do it", "go ahead", "proceed", "apply", "change", "update", "convert",
        "rewrite", "develop", "happening", "some code", "write code", "write the",
    ];
    let w: &[&str] = &words;
    assert(w@.map_values(|x: &str| x@) =~= action_words());
    let r = contains_any(m.as_str(), w);
    proof {
        if r {
            let i = choose|i: int| 0 <= i < w@.len() && contains(m@, #[trigger] w@[i]@);
            assert(action_words()[i] == w@[i]@);
        }
        if wants_action(msg@) {
            let i = choose|i: int| 0 <= i < action_words().len() && contains(lowercase(msg@), #[trigger] action_words()[i]);
            assert(action_words()[i] == w@.map_values(|x: &str| x@)[i]);
        }
    }
    r
}

/// Whether a reply is only a plan (see `plan_only`).
pub fn looks_like_plan_only(text: &str) -> (r: bool)
    ensures
        r == plan_only(text@),
{
    let t = to_lowercase(text);
    let phrases: [&str; 9] = [
        "next step", "will involve", "to achieve this", "to fulfill", "will require",
        "this will involve", "involves refactoring", "the existing code", "located in",
    ];
    let w: &[&str] = &phrases;
    assert(w@.map_values(|x: &str| x@) =~= plan_phrases());
    let found = contains_any(t.as_str(), w);
    proof {
        if found {
            let i = choose|i: int| 0 <= i < w@.len() && contains(t@, #[trigger] w@[i]@);
            assert(plan_phrases()[i] == w@[i]@);
        }
        if mentions_any(text@, plan_phrases()) {
            let i = choose|i: int| 0 <= i < plan_phrases().len() && contains(lowercase(text@), #[trigger] plan_phrases()[i]);
            assert(plan_phrases()[i] == w@.map_values(|x: &str| x@)[i]);
        }
    }
    found && !str_contains(text, "```json")
}

/// A request asks for action when it does, or when one of the user messages
/// among the last six history entries does.
pub open spec fn action_requested_spec(msg: Seq<char>, history: Seq<(Seq<char>, Seq<char>)>) -> bool {
    wants_action(msg) || exists|i: int|
        history.len() - 6 <= i < history.len() && 0 <= i && #[trigger] history[i].0 == "user"@
            && wants_action(history[i].1)
}

/// Whether the turn is about making changes (see `action_requested_spec`).
pub fn action_requested(user_message: &str, history: &[(String, String)]) -> (r: bool)
    ensures
        r == action_requested_spec(user_message@, history@.map_values(|p: (String, String)| (p.0@, p.1@))),
{
    let ghost h = history@.map_values(|p: (String, String)| (p.0@, p.1@));
    if user_wants_action(user_message) {
        return true;
    }
    let n = history.len();
    let lo = if n > 6 { n - 6 } else { 0 };
    let mut i = n;
    while i > lo
        invariant
            lo <= i <= n,
            n == history@.len(),
            h == history@.map_values(|p: (String, String)| (p.0@, p.1@)),
            lo == if n > 6 { n - 6 } else { 0 },
            forall|k: int| i <= k < n ==> !(#[trigger] h[k].0 == "user"@ && wants_action(h[k].1)),
        decreases i,
    {
        let k = i - 1;
        assert(h[k as int] == (history@[k as int].0@, history@[k as int].1@));
        if str_eq(history[k].0.as_str(), "user") && user_wants_action(history[k].1.as_str()) {
            assert(h.len() - 6 <= k && h[k as int].0 == "user"@ && wants_action(h[k as int].1));
            return true;
        }
        i = k;
    }
    false
}

/// A streamed reply as gathered so far.
#[derive(Debug)]
pub struct StreamedResponse {
    pub content: String,
    pub prompt_tokens: u32,
    pub completion_tokens: u32,
    pub finish_reason: Option<String>,
}

impl StreamedResponse {
    /// Nothing received yet.
    pub fn new() -> (r: Self)
        ensures
            r.content@.len() == 0,
            r.prompt_tokens == 0,
            r.completion_tokens == 0,
            r.finish_reason is None,
    {
        StreamedResponse { content: String::new(), prompt_tokens: 0, completion_tokens: 0, finish_reason: None }
    }

    /// Adds a chunk: its text is appended, nonzero token counts replace the
    /// earlier ones, and a final chunk sets the finish reason to `stop`.
    pub fn absorb(&mut self, chunk: &StreamChunk)
        ensures
            final(self).content@ == old(self).content@ + chunk.content_delta@,
            final(self).prompt_tokens == if chunk.prompt_tokens > 0 { chunk.prompt_tokens } else { old(self).prompt_tokens },
            final(self).completion_tokens == if chunk.completion_tokens > 0 { chunk.completion_tokens } else { old(self).completion_tokens },
            chunk.done ==> (final(self).finish_reason matches Some(f) && f@ == "stop"@),
            !chunk.done ==> final(self).finish_reason == old(self).finish_reason,
    {
        push_str(&mut self.content, chunk.content_delta.as_str());
        if chunk.prompt_tokens > 0 {
            self.prompt_tokens = chunk.prompt_tokens;
        }
        if chunk.completion_tokens > 0 {
            self.completion_tokens = chunk.completion_tokens;
        }
        if chunk.done {
            self.finish_reason = Some(to_owned_string("stop"));
        }
    }
}

/// How many model rounds a turn may take.
pub const MAX_ROUNDS: usize = 12;

/// How many times a turn may push the model to stop planning and write.
pub const MAX_PLAN_NUDGES: u8 = 3;

/// What the agent does after a model round.
#[derive(Debug, Clone, Copy, PartialEq, Eq, Structural)]
pub enum RoundStep {
    /// The reply was empty and cut off: ask the model to continue.
    AskToContinue,
    /// No tool call although changes were asked for: push the model to write;
    /// `plan_only` says whether the reply was only a plan.
    Nudge { plan_only: bool },
    /// The reply is the answer.
    Finish,
    /// Run the reply's tool calls.
    RunTools,
}

/// The state of a turn between rounds.
#[derive(Debug, Clone, Copy)]
pub struct TurnState {
    pub wants_action: bool,
    pub did_write: bool,
    pub plan_nudges: u8,
    /// Model rounds started so far.
    pub rounds: usize,
    /// Whether the closing summary was asked for.
    pub summary_asked: bool,
}

/// Starting a model round: allowed while fewer than `MAX_ROUNDS` ran, and
/// then counted.
pub open spec fn round_started(s: TurnState) -> (TurnState, bool) {
    if s.rounds < MAX_ROUNDS {
        (TurnState { rounds: (s.rounds + 1) as usize, ..s }, true)
    } else {
        (s, false)
    }
}

/// Asking for the closing summary: once, and only when the rounds left no
/// answer.
pub open spec fn summary_started(s: TurnState, final_response: Seq<char>) -> (TurnState, bool) {
    if final_response.len() == 0 && !s.summary_asked {
        (TurnState { summary_asked: true, ..s }, true)
    } else {
        (s, false)
    }
}

/// The step after a round and the state it leaves: an empty reply cut off by
/// the length limit is continued; a reply without tool calls is nudged while
/// changes were asked for, none was written, and fewer than three nudges
/// were given, and is the answer otherwise; tool calls are run.
pub open spec fn next_step(s: TurnState, content: Seq<char>, finish_reason: Option<Seq<char>>, has_calls: bool) -> (TurnState, RoundStep) {
    if content.len() == 0 && finish_reason == Some("length"@) {
        (s, RoundStep::AskToContinue)
    } else if !has_calls {
        if s.wants_action && !s.did_write && s.plan_nudges < 3 {
            (TurnState { plan_nudges: (s.plan_nudges + 1) as u8, ..s }, RoundStep::Nudge { plan_only: plan_only(content) })
        } else {
            (s, RoundStep::Finish)
        }
    } else {
        (s, RoundStep::RunTools)
    }
}

/// A tool call that edits files.
pub open spec fn is_edit_tool(name: Seq<char>) -> bool {
    name == "write_file"@ || name == "patch"@
}

impl TurnState {
    /// The state at the start of a turn.
    pub fn new(wants_action: bool) -> (r: Self)
        ensures
            r.wants_action == wants_action,
            !r.did_write,
            r.plan_nudges == 0,
            r.rounds == 0,
            !r.summary_asked,
    {
        TurnState { wants_action, did_write: false, plan_nudges: 0, rounds: 0, summary_asked: false }
    }

    /// Starts a model round where the limit allows (see `round_started`).
    pub fn begin_round(&mut self) -> (r: bool)
        ensures
            (*final(self), r) == round_started(*old(self)),
    {
        if self.rounds < MAX_ROUNDS {
            self.rounds = self.rounds + 1;
            true
        } else {
            false
        }
    }

    /// Asks for the closing summary where it is owed (see `summary_started`).
    pub fn begin_summary(&mut self, final_response: &str) -> (r: bool)
        ensures
            (*final(self), r) == summary_started(*old(self), final_response@),
    {
        if wants_summary(final_response) && !self.summary_asked {
            self.summary_asked = true;
            true
        } else {
            false
        }
    }

    /// Decides what follows a round (see `next_step`).
    pub fn after_round(&mut self, content: &str, finish_reason: Option<&str>, has_calls: bool) -> (r: RoundStep)
        ensures
            (*final(self), r) == next_step(
                *old(self),
                content@,
                match finish_reason {
                    Some(f) => Some(f@),
                    None => None,
                },
                has_calls,
            ),
    {
        let cut_off = match finish_reason {
            Some(f) => str_eq(f, "length"),
            None => false,
        };
        if content.unicode_len() == 0 && cut_off {
            return RoundStep::AskToContinue;
        }
        if !has_calls {
            if self.wants_action && !self.did_write && self.plan_nudges < MAX_PLAN_NUDGES {
                self.plan_nudges = self.plan_nudges + 1;
                return RoundStep::Nudge { plan_only: looks_like_plan_only(content) };
            }
            return RoundStep::Finish;
        }
        RoundStep::RunTools
    }

    /// Notes a tool run: a successful edit means the turn has written.
    pub fn record_tool(&mut self, name: &str, success: bool)
        ensures
            *final(self) == (TurnState { did_write: old(self).did_write || (success && is_edit_tool(name@)), ..*old(self) }),
    {
        if success && (str_eq(name, "write_file") || str_eq(name, "patch")) {
            self.did_write = true;
        }
    }
}

/// The message that pushes the model to write instead of describing.
pub fn nudge_message(plan_only: bool) -> (r: &'static str)
    ensures
        plan_only ==> r@ == "Stop planning. Emit a write_file or patch tool call NOW in a ```json block with the full code. Do not describe what you will do — write the files."@,
        !plan_only ==> r@ == "The user asked for code changes. Emit a write_file or patch tool call in a ```json block. No text-only replies until files are written."@,
{
    if plan_only {
        "Stop planning. Emit a write_file or patch tool call NOW in a ```json block with the full code. Do not describe what you will do — write the files."
    } else {
        "The user asked for code changes. Emit a write_file or patch tool call in a ```json block. No text-only replies until files are written."
    }
}

/// The message that asks the model to go on after a cut-off reply.
pub fn continue_message() -> (r: &'static str)
    ensures
        r@ == "Your response was truncated. Please continue from where you left off."@,
{
    "Your response was truncated. Please continue from where you left off."
}

/// The message that asks for a closing summary when the rounds ran out.
pub fn summary_message() -> (r: &'static str)
    ensures
        r@ == "Summarize for the user what you found or changed. Use concrete details from tool results. No tool calls."@,
{
    "Summarize for the user what you found or changed. Use concrete details from tool results. No tool calls."
}

/// A turn whose rounds ran out without an answer asks for a summary.
pub fn wants_summary(final_response: &str) -> (r: bool)
    ensures
        r == (final_response@.len() == 0),
{
    final_response.unicode_len() == 0
}

/// A summary is taken as the turn's answer when it calls no tool and,
/// trimmed, says something.
pub open spec fn summary_ok(content: Seq<char>) -> bool {
    parse_calls(content).len() == 0 && trim(content).len() > 0
}

/// Whether a summary becomes the turn's answer (see `summary_ok`).
pub fn accepts_summary(content: &str) -> (r: bool)
    ensures
        r == summary_ok(content@),
{
    let calls = ToolCallParser::parse(content);
    assert(call_views(calls@).len() == calls@.len());
    calls.len() == 0 && trim_str(content).unicode_len() > 0
}

/// Whether a tool call edits files (`write_file` or `patch`).
pub fn is_edit_call(name: &str) -> (r: bool)
    ensures
        r == is_edit_tool(name@),
{
    str_eq(name, "write_file") || str_eq(name, "patch")
}

/// The text under `key` when it is a string, else nothing.
pub open spec fn str_field(args: JsonView, key: Seq<char>) -> Seq<char> {
    match first_str(args, seq![key]) {
        Some(t) => t,
        None => Seq::empty(),
    }
}

/// The diff a patch call previews: the file it names, with its `old_str`
/// and `new_str` (empty where missing); nothing when it names no file.
pub fn patch_preview(args: &JsonValue) -> (r: Option<(String, String, String)>)
    ensures
        match r {
            Some((p, o, n)) => {
                &&& first_str(args@, path_keys()) == Some(p@)
                &&& o@ == str_field(args@, "old_str"@)
                &&& n@ == str_field(args@, "new_str"@)
            },
            None => first_str(args@, path_keys()) is None,
        },
{
    match edit_path(args) {
        None => None,
        Some(p) => {
            let old_k: [&str; 1] = ["old_str"];
            let ok: &[&str] = &old_k;
            assert(key_views(ok@) =~= seq!["old_str"@]);
            let new_k: [&str; 1] = ["new_str"];
            let nk: &[&str] = &new_k;
            assert(key_views(nk@) =~= seq!["new_str"@]);
            let o = match get_str(args, ok) {
                Some(t) => to_owned_string(t),
                None => String::new(),
            };
            let n = match get_str(args, nk) {
                Some(t) => to_owned_string(t),
                None => String::new(),
            };
            Some((to_owned_string(p), o, n))
        },
    }
}

/// The file that an edit call names: the first path key with a string value.
pub fn edit_path(args: &JsonValue) -> (r: Option<&str>)
    ensures
        match r {
            Some(p) => first_str(args@, path_keys()) == Some(p@),
            None => first_str(args@, path_keys()) is None,
        },
{
    let keys: [&str; 4] = ["path", "file_path", "filename", "file"];
    let k: &[&str] = &keys;
    assert(key_views(k@) =~= path_keys());
    get_str(args, k)
}

/// How much of a tool's output goes back to the model, in bytes: 4000 for
/// `read_file`, 1500 otherwise.
pub open spec fn snippet_limit(name: Seq<char>) -> nat {
    if name == "read_file"@ {
        4000
    } else {
        1500
    }
}

/// How much of a tool's output goes back to the model.
pub fn snippet_limit_for(name: &str) -> (r: usize)
    ensures
        r == snippet_limit(name@),
{
    if str_eq(name, "read_file") {
        4000
    } else {
        1500
    }
}

/// The report of one tool run to the model: `Tool 'name' result:`, the
/// output cut to the tool's limit, `---`. The limit must fall between two
/// characters of a longer output.
pub fn tool_result_text(name: &str, output: &str) -> (r: String)
    requires
        output.spec_bytes().len() <= usize::MAX,
        output.spec_bytes().len() > snippet_limit(name@) ==> is_char_boundary(output.spec_bytes(), snippet_limit(name@) as int),
    ensures
        exists|snip: Seq<char>| {
            &&& r@ == "Tool '"@ + name@ + "' result:\n"@ + snip + "\n---\n"@
            &&& output.spec_bytes().len() <= snippet_limit(name@) ==> snip == output@
            &&& output.spec_bytes().len() > snippet_limit(name@) ==> encode_utf8(snip) == output.spec_bytes().subrange(0, snippet_limit(name@) as int)
        },
{
    let max = snippet_limit_for(name);
    let snip = crate::tools::truncate_bytes(output, max);
    let mut s = concat2("Tool '", name);
    push_str(&mut s, "' result:\n");
    push_str(&mut s, snip.as_str());
    push_str(&mut s, "\n---\n");
    s
}

/// The opening of the system prompt, up to the repository path.
pub open spec fn prompt_head() -> Seq<char> {
    "You are shrimp, a coding agent working in the repository at: "@
}

/// The system prompt between the repository path and the tool list.
pub open spec fn prompt_tools_intro() -> Seq<char> {
    "\n\nTOOL USAGE: emit exactly one JSON object in a fenced ```json block per tool call:\n```json\n{\"name\":\"tool_name\",\"arguments\":{\"key\":\"value\"}}\n```\n\nTools:\n"@
}

/// The system prompt's rules, up to the context.
pub open spec fn prompt_rules() -> Seq<char> {
    "\n\nRULES:\n- When asked what a project is or what it does, use read_file or search first, then answer.\n- When asked to implement, build, create, refactor, or write code: DO IT with write_file or patch. Never reply with only a plan.\n- Forbidden without a tool call: \"next step\", \"will involve\", \"to achieve this\", \"will require refactoring\".\n- After reading files for an implementation request, your very next message MUST be a write_file or patch tool call.\n- To create a new file use write_file. To change an existing file, read_file it first, then patch or write_file.\n- patch old_str must match the file exactly once. If it fails, read_file again and retry with a unique snippet.\n- Emit one tool call at a time and wait for its result before the next.\n- When finished editing, briefly show what changed (paths + key diffs). Never say only \"task complete\" or \"done\".\n- Be concise. Answer based on what you actually find in the files.\n\nRelevant symbols found:\n"@
}

/// The system prompt of a turn: who the agent is and where it works, how to
/// call tools, the tool list, the rules, and the context found for the query.
pub fn system_prompt(repo: &str, tool_descriptions: &str, context: &str) -> (r: String)
    ensures
        r@ == prompt_head() + repo@ + prompt_tools_intro() + tool_descriptions@ + prompt_rules() + context@,
{
    let mut s = concat2("You are shrimp, a coding agent working in the repository at: ", repo);
    push_str(&mut s, "\n\nTOOL USAGE: emit exactly one JSON object in a fenced ```json block per tool call:\n```json\n{\"name\":\"tool_name\",\"arguments\":{\"key\":\"value\"}}\n```\n\nTools:\n");
    push_str(&mut s, tool_descriptions);
    push_str(&mut s, "\n\nRULES:\n- When asked what a project is or what it does, use read_file or search first, then answer.\n- When asked to implement, build, create, refactor, or write code: DO IT with write_file or patch. Never reply with only a plan.\n- Forbidden without a tool call: \"next step\", \"will involve\", \"to achieve this\", \"will require refactoring\".\n- After reading files for an implementation request, your very next message MUST be a write_file or patch tool call.\n- To create a new file use write_file. To change an existing file, read_file it first, then patch or write_file.\n- patch old_str must match the file exactly once. If it fails, read_file again and retry with a unique snippet.\n- Emit one tool call at a time and wait for its result before the next.\n- When finished editing, briefly show what changed (paths + key diffs). Never say only \"task complete\" or \"done\".\n- Be concise. Answer based on what you actually find in the files.\n\nRelevant symbols found:\n");
    push_str(&mut s, context);
    s
}

} // verus!
