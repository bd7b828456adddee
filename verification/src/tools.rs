//! The tools' fixed texts, their argument lookup, the guards that the tools
//! keep between calls, and the text work that the tools do.
use vstd::prelude::*;
use crate::text::chars_of;
use crate::text::str_eq;
use crate::text::concat2;
use crate::text::push_str;
use crate::text::to_owned_string;
use crate::text::trim;
use crate::text::trim_end;
use crate::text::decimal_string;
use crate::text::decimal;
use crate::text::join;
use crate::text::string_views;
use crate::text::join_strings;
use crate::text::trim_end_str;
use crate::text::count_occurrences;
use crate::text::occurrences_from;
use crate::text::replace_first_chars;
use crate::text::replace_first;
use crate::paths::path_join;
use crate::paths::joined;
use crate::json::JsonValue;
use crate::json::JsonView;
use crate::json::json_get;
use crate::retrieval::TraceEntry;
use crate::index::Symbol;
use crate::index::kind_name;
use vstd::utf8::encode_utf8;
use vstd::utf8::is_char_boundary;
use vstd::string::StringSliceAdditionalSpecFns;

verus! {

/// Where the tools work: the repository root.
pub struct ToolContext {
    pub repo_root: String,
}

impl ToolContext {
    /// The tools' context for a repository.
    pub fn new(repo_root: String) -> (r: Self)
        ensures
            r.repo_root == repo_root,
    {
        ToolContext { repo_root }
    }

    /// A tool's path argument as a path: absolute paths stay, relative ones
    /// are taken from the repository root.
    pub fn resolve(&self, path: &str) -> (r: String)
        ensures
            r@ == joined(self.repo_root@, path@),
    {
        path_join(self.repo_root.as_str(), path)
    }
}

/// What a tool run produced.
#[derive(Debug, Clone)]
pub struct ToolResult {
    pub success: bool,
    pub output: String,
    pub duration_ms: u64,
}

impl ToolResult {
    /// A successful run.
    pub fn ok(output: String, duration_ms: u64) -> (r: Self)
        ensures
            r.success,
            r.output == output,
            r.duration_ms == duration_ms,
    {
        ToolResult { success: true, output, duration_ms }
    }

    /// A failed run.
    pub fn err(output: String, duration_ms: u64) -> (r: Self)
        ensures
            !r.success,
            r.output == output,
            r.duration_ms == duration_ms,
    {
        ToolResult { success: false, output, duration_ms }
    }
}

/// What the guards remember, as data.
pub ghost struct GuardView {
    /// Paths that were read or written this session.
    pub read: Set<Seq<char>>,
    /// How often a write to each path was attempted without reading it first.
    pub attempts: Map<Seq<char>, nat>,
    /// The (tool, arguments) calls that succeeded this round, in order.
    pub calls: Seq<(Seq<char>, Seq<char>)>,
}

/// The memory that the tools keep between calls: which files were read,
/// which unread writes were refused, and which calls succeeded this round.
/// The read set and the attempt counts are kept in vectors searched by
/// comparing texts, not in hashed sets and maps: vstd's `HashSet` and
/// `HashMap` specifications prove little of `String` keys, while a search
/// by `str_eq` is proved exact (see `view`).
pub struct GuardState {
    read_files: Vec<String>,
    write_attempts: Vec<(String, u32)>,
    recent_calls: Vec<(String, String)>,
}

/// How often a write to `path` was attempted, per the recorded entries.
pub open spec fn attempts_in(entries: Seq<(String, u32)>, path: Seq<char>) -> nat
    decreases entries.len(),
{
    if entries.len() == 0 {
        0
    } else if entries.last().0@ == path {
        entries.last().1 as nat
    } else {
        attempts_in(entries.drop_last(), path)
    }
}

/// The guards after a file was read (or written).
pub open spec fn after_mark_read(g: GuardView, path: Seq<char>) -> GuardView {
    GuardView { read: g.read.insert(path), ..g }
}

/// The guards at the start of a session.
pub open spec fn fresh_guards() -> GuardView {
    GuardView { read: Set::empty(), attempts: Map::empty(), calls: Seq::empty() }
}

/// The guards at the start of a round: calls forgotten.
pub open spec fn after_round_reset(g: GuardView) -> GuardView {
    GuardView { calls: Seq::empty(), ..g }
}

/// The guards after a call succeeded.
pub open spec fn after_mark_call(g: GuardView, name: Seq<char>, args: Seq<char>) -> GuardView {
    GuardView { calls: g.calls.push((name, args)), ..g }
}

/// The recorded attempts for a path, zero when none.
pub open spec fn attempt_count(g: GuardView, path: Seq<char>) -> nat {
    if g.attempts.contains_key(path) {
        g.attempts[path]
    } else {
        0
    }
}

/// The read-before-write guard, as data: a write to a file that does not
/// exist yet, or that was read, passes; otherwise the attempt is counted and
/// only the first such attempt is refused. Gives the new guards and whether
/// the write is refused.
pub open spec fn guard_write_spec(g: GuardView, path: Seq<char>, file_exists: bool) -> (GuardView, bool) {
    if !file_exists || g.read.contains(path) {
        (g, false)
    } else {
        let n = attempt_count(g, path) + 1;
        (GuardView { attempts: g.attempts.insert(path, n), ..g }, n <= 1)
    }
}

/// A call was already made this round with these arguments.
pub open spec fn is_duplicate_spec(g: GuardView, name: Seq<char>, args: Seq<char>) -> bool {
    g.calls.contains((name, args))
}

/// One call on the guards, as data.
pub ghost enum GuardOp {
    /// `mark_read` of a path.
    MarkRead(Seq<char>),
    /// `mark_call` of a tool and its arguments.
    MarkCall(Seq<char>, Seq<char>),
    /// `reset_round_dedup`.
    ResetRound,
    /// `reset_session_guards`.
    ResetSession,
    /// `guard_write` of a path, with whether the file exists.
    GuardWrite(Seq<char>, bool),
}

/// The guards after one call.
pub open spec fn guard_step(g: GuardView, op: GuardOp) -> GuardView {
    match op {
        GuardOp::MarkRead(p) => after_mark_read(g, p),
        GuardOp::MarkCall(n, a) => after_mark_call(g, n, a),
        GuardOp::ResetRound => after_round_reset(g),
        GuardOp::ResetSession => fresh_guards(),
        GuardOp::GuardWrite(p, e) => guard_write_spec(g, p, e).0,
    }
}

/// The guards after a sequence of calls, first to last.
pub open spec fn run_guards(g: GuardView, ops: Seq<GuardOp>) -> GuardView
    decreases ops.len(),
{
    if ops.len() == 0 {
        g
    } else {
        guard_step(run_guards(g, ops.drop_last()), ops.last())
    }
}

/// The writes to `path`, among calls made since a session started, that
/// found the file existing and not read: the attempts the guard counts.
pub open spec fn unread_attempts(ops: Seq<GuardOp>, path: Seq<char>) -> nat
    decreases ops.len(),
{
    if ops.len() == 0 {
        0
    } else {
        let prev = ops.drop_last();
        unread_attempts(prev, path) + if ops.last() == GuardOp::GuardWrite(path, true) && !run_guards(
            fresh_guards(),
            prev,
        ).read.contains(path) {
            1nat
        } else {
            0nat
        }
    }
}

impl GuardState {
    /// The guards as data.
    pub closed spec fn view(&self) -> GuardView {
        GuardView {
            read: Set::new(|p: Seq<char>| exists|i: int| 0 <= i < self.read_files@.len() && #[trigger] self.read_files@[i]@ == p),
            attempts: Map::new(
                |p: Seq<char>| exists|i: int| 0 <= i < self.write_attempts@.len() && #[trigger] self.write_attempts@[i].0@ == p,
                |p: Seq<char>| attempts_in(self.write_attempts@, p),
            ),
            calls: self.recent_calls@.map_values(|c: (String, String)| (c.0@, c.1@)),
        }
    }

    /// Guards with nothing remembered.
    pub fn new() -> (r: Self)
        ensures
            r.view() == fresh_guards(),
    {
        let r = GuardState { read_files: Vec::new(), write_attempts: Vec::new(), recent_calls: Vec::new() };
        assert(r.view().read =~= Set::empty());
        assert(r.view().attempts =~= Map::empty());
        assert(r.view().calls =~= Seq::empty());
        r
    }

    /// How often a write to `path` was attempted unread.
    pub fn write_attempts(&self, path: &str) -> (r: u32)
        ensures
            r == attempt_count(self.view(), path@),
    {
        let mut i = self.write_attempts.len();
        assert(self.write_attempts@.take(i as int) =~= self.write_attempts@);
        while i > 0
            invariant
                i <= self.write_attempts.len(),
                attempts_in(self.write_attempts@, path@) == attempts_in(self.write_attempts@.take(i as int), path@),
                forall|k: int| i <= k < self.write_attempts@.len() ==> self.write_attempts@[k].0@ != path@,
            decreases i,
        {
            let ghost t = self.write_attempts@.take(i as int);
            assert(t.drop_last() =~= self.write_attempts@.take(i - 1));
            if str_eq(self.write_attempts[i - 1].0.as_str(), path) {
                proof {
                    self.lemma_attempts_present(path@, i - 1);
                }
                return self.write_attempts[i - 1].1;
            }
            i = i - 1;
        }
        proof {
            assert(!(exists|k: int| 0 <= k < self.write_attempts@.len() && #[trigger] self.write_attempts@[k].0@ == path@));
            assert(!self.view().attempts.contains_key(path@));
        }
        0
    }

    proof fn lemma_attempts_present(&self, path: Seq<char>, k: int)
        requires
            0 <= k < self.write_attempts@.len(),
            self.write_attempts@[k].0@ == path,
        ensures
            self.view().attempts.contains_key(path),
            attempt_count(self.view(), path) == attempts_in(self.write_attempts@, path),
    {
    }
}

/// Remembers that a file was read.
pub fn mark_read(g: &mut GuardState, path: &str)
    ensures
        final(g).view() == after_mark_read(old(g).view(), path@),
{
    let ghost before = g.view();
    g.read_files.push(to_owned_string(path));
    proof {
        let n = g.read_files@.len() - 1;
        assert(g.read_files@[n as int]@ == path@);
        assert forall|p: Seq<char>| #[trigger] g.view().read.contains(p) == before.read.insert(path@).contains(p) by {
            if before.read.contains(p) {
                let i = choose|i: int| 0 <= i < old(g).read_files@.len() && #[trigger] old(g).read_files@[i]@ == p;
                assert(g.read_files@[i]@ == p);
            }
            if g.view().read.contains(p) && p != path@ {
                let i = choose|i: int| 0 <= i < g.read_files@.len() && #[trigger] g.read_files@[i]@ == p;
                assert(i != n);
                assert(old(g).read_files@[i]@ == p);
            }
        }
        assert(g.view().read =~= before.read.insert(path@));
        assert(g.view().attempts =~= before.attempts);
        assert(g.view().calls =~= before.calls);
    }
}

/// Whether a file was read this session.
pub fn has_read(g: &GuardState, path: &str) -> (r: bool)
    ensures
        r == g.view().read.contains(path@),
{
    let mut i: usize = 0;
    while i < g.read_files.len()
        invariant
            0 <= i <= g.read_files.len(),
            forall|k: int| 0 <= k < i ==> g.read_files@[k]@ != path@,
        decreases g.read_files.len() - i,
    {
        if str_eq(g.read_files[i].as_str(), path) {
            return true;
        }
        i = i + 1;
    }
    false
}

/// Forgets everything: the start of a session.
pub fn reset_session_guards(g: &mut GuardState)
    ensures
        final(g).view() == fresh_guards(),
{
    g.read_files.clear();
    g.write_attempts.clear();
    g.recent_calls.clear();
    assert(g.view().read =~= Set::empty());
    assert(g.view().attempts =~= Map::empty());
    assert(g.view().calls =~= Seq::empty());
}

/// Forgets this round's calls: the start of a round.
pub fn reset_round_dedup(g: &mut GuardState)
    ensures
        final(g).view() == after_round_reset(old(g).view()),
{
    let ghost before = g.view();
    g.recent_calls.clear();
    assert(g.view().read =~= before.read);
    assert(g.view().attempts =~= before.attempts);
    assert(g.view().calls =~= Seq::empty());
}

/// The read-before-write guard (see `guard_write_spec`): the refusal
/// message when the write is refused. `file_exists` says whether the file exists.
pub fn guard_write(g: &mut GuardState, path: &str, file_exists: bool) -> (r: Option<String>)
    requires
        attempt_count(old(g).view(), path@) < u32::MAX,
    ensures
        final(g).view() == guard_write_spec(old(g).view(), path@, file_exists).0,
        r is Some == guard_write_spec(old(g).view(), path@, file_exists).1,
        r matches Some(m) ==> m@ == "read-before-write guard: read '"@ + path@ + "' first, then retry"@,
{
    if !file_exists {
        return None;
    }
    if has_read(g, path) {
        return None;
    }
    let ghost before = g.view();
    let n = g.write_attempts(path) + 1;
    g.write_attempts.push((to_owned_string(path), n));
    proof {
        let last = g.write_attempts@.len() - 1;
        assert(g.write_attempts@[last as int].0@ == path@);
        assert(g.write_attempts@.drop_last() =~= old(g).write_attempts@);
        assert forall|p: Seq<char>| #[trigger] g.view().attempts.contains_key(p) == before.attempts.insert(path@, n as nat).contains_key(p) by {
            if p != path@ {
                if g.view().attempts.contains_key(p) {
                    let i = choose|i: int| 0 <= i < g.write_attempts@.len() && #[trigger] g.write_attempts@[i].0@ == p;
                    assert(i != last);
                    assert(old(g).write_attempts@[i].0@ == p);
                }
                if before.attempts.contains_key(p) {
                    let i = choose|i: int| 0 <= i < old(g).write_attempts@.len() && #[trigger] old(g).write_attempts@[i].0@ == p;
                    assert(g.write_attempts@[i].0@ == p);
                }
            }
        }
        assert(g.view().attempts =~= before.attempts.insert(path@, n as nat));
        assert(g.view().read =~= before.read);
        assert(g.view().calls =~= before.calls);
    }
    if n <= 1 {
        let mut m = concat2("read-before-write guard: read '", path);
        push_str(&mut m, "' first, then retry");
        Some(m)
    } else {
        None
    }
}

/// Whether the same call with the same arguments succeeded this round.
pub fn is_duplicate(g: &GuardState, name: &str, args: &str) -> (r: bool)
    ensures
        r == is_duplicate_spec(g.view(), name@, args@),
{
    let mut i: usize = 0;
    while i < g.recent_calls.len()
        invariant
            0 <= i <= g.recent_calls.len(),
            forall|k: int| 0 <= k < i ==> (g.recent_calls@[k].0@, g.recent_calls@[k].1@) != (name@, args@),
        decreases g.recent_calls.len() - i,
    {
        if str_eq(g.recent_calls[i].0.as_str(), name) && str_eq(g.recent_calls[i].1.as_str(), args) {
            proof {
                assert(g.view().calls[i as int] == (name@, args@));
            }
            return true;
        }
        i = i + 1;
    }
    proof {
        if g.view().calls.contains((name@, args@)) {
            let k = choose|k: int| 0 <= k < g.view().calls.len() && g.view().calls[k] == (name@, args@);
            assert(g.view().calls[k] == (g.recent_calls@[k].0@, g.recent_calls@[k].1@));
        }
    }
    false
}

/// Remembers a call that succeeded.
pub fn mark_call(g: &mut GuardState, name: &str, args: &str)
    ensures
        final(g).view() == after_mark_call(old(g).view(), name@, args@),
{
    let ghost before = g.view();
    g.recent_calls.push((to_owned_string(name), to_owned_string(args)));
    assert(g.view().read =~= before.read);
    assert(g.view().attempts =~= before.attempts);
    assert(g.view().calls =~= before.calls.push((name@, args@)));
}


/// The text under the first of `keys` whose value is a string.
pub open spec fn first_str(v: JsonView, keys: Seq<Seq<char>>) -> Option<Seq<char>>
    decreases keys.len(),
{
    if keys.len() == 0 {
        None
    } else {
        match json_get(v, keys[0]) {
            Some(JsonView::Str(s)) => Some(s),
            _ => first_str(v, keys.drop_first()),
        }
    }
}

/// The views of a list of keys.
pub open spec fn key_views(keys: Seq<&str>) -> Seq<Seq<char>> {
    keys.map_values(|k: &str| k@)
}

/// A tool argument: the text under the first of `keys` that holds a string.
pub fn get_str<'a>(args: &'a JsonValue, keys: &[&str]) -> (r: Option<&'a str>)
    ensures
        match r {
            Some(s) => first_str(args@, key_views(keys@)) == Some(s@),
            None => first_str(args@, key_views(keys@)) is None,
        },
{
    let mut i: usize = 0;
    assert(key_views(keys@).skip(0) =~= key_views(keys@));
    while i < keys.len()
        invariant
            0 <= i <= keys.len(),
            first_str(args@, key_views(keys@)) == first_str(args@, key_views(keys@).skip(i as int)),
        decreases keys.len() - i,
    {
        let ghost ks = key_views(keys@).skip(i as int);
        assert(ks[0] == keys@[i as int]@);
        assert(ks.drop_first() =~= key_views(keys@).skip(i + 1));
        if let Some(v) = args.get(keys[i]) {
            if let Some(t) = v.as_str() {
                return Some(t);
            }
        }
        i = i + 1;
    }
    None
}

/// The keys under which a tool call names its file.
pub open spec fn path_keys() -> Seq<Seq<char>> {
    seq!["path"@, "file_path"@, "filename"@, "file"@]
}

/// The keys under which `write_file` takes the new contents.
pub open spec fn content_keys() -> Seq<Seq<char>> {
    seq!["content"@, "contents"@, "text"@, "body"@]
}

/// The keys under which `patch` takes the text to replace.
pub open spec fn old_keys() -> Seq<Seq<char>> {
    seq!["old_str"@, "old"@, "search"@, "original"@]
}

/// The keys under which `patch` takes the replacement.
pub open spec fn new_keys() -> Seq<Seq<char>> {
    seq!["new_str"@, "new"@, "replace"@, "replacement"@]
}

/// The keys under which `bash` takes its command.
pub open spec fn command_keys() -> Seq<Seq<char>> {
    seq!["command"@, "cmd"@, "script"@, "shell"@]
}

/// The keys under which `search` takes its query.
pub open spec fn search_keys() -> Seq<Seq<char>> {
    seq!["query"@, "pattern"@, "text"@, "search"@]
}

/// The keys under which `symbol_lookup` takes its query.
pub open spec fn lookup_keys() -> Seq<Seq<char>> {
    seq!["query"@, "name"@, "symbol"@, "search"@]
}

/// The contents that a `write_file` call gives.
pub fn content_arg(args: &JsonValue) -> (r: Option<&str>)
    ensures
        match r {
            Some(s) => first_str(args@, content_keys()) == Some(s@),
            None => first_str(args@, content_keys()) is None,
        },
{
    let keys: [&str; 4] = ["content", "contents", "text", "body"];
    let k: &[&str] = &keys;
    assert(key_views(k@) =~= content_keys());
    get_str(args, k)
}

/// The text that a `patch` call replaces.
pub fn old_arg(args: &JsonValue) -> (r: Option<&str>)
    ensures
        match r {
            Some(s) => first_str(args@, old_keys()) == Some(s@),
            None => first_str(args@, old_keys()) is None,
        },
{
    let keys: [&str; 4] = ["old_str", "old", "search", "original"];
    let k: &[&str] = &keys;
    assert(key_views(k@) =~= old_keys());
    get_str(args, k)
}

/// The replacement that a `patch` call gives.
pub fn new_arg(args: &JsonValue) -> (r: Option<&str>)
    ensures
        match r {
            Some(s) => first_str(args@, new_keys()) == Some(s@),
            None => first_str(args@, new_keys()) is None,
        },
{
    let keys: [&str; 4] = ["new_str", "new", "replace", "replacement"];
    let k: &[&str] = &keys;
    assert(key_views(k@) =~= new_keys());
    get_str(args, k)
}

/// The command that a `bash` call runs.
pub fn command_arg(args: &JsonValue) -> (r: Option<&str>)
    ensures
        match r {
            Some(s) => first_str(args@, command_keys()) == Some(s@),
            None => first_str(args@, command_keys()) is None,
        },
{
    let keys: [&str; 4] = ["command", "cmd", "script", "shell"];
    let k: &[&str] = &keys;
    assert(key_views(k@) =~= command_keys());
    get_str(args, k)
}

/// The query of a `search` call.
pub fn search_arg(args: &JsonValue) -> (r: Option<&str>)
    ensures
        match r {
            Some(s) => first_str(args@, search_keys()) == Some(s@),
            None => first_str(args@, search_keys()) is None,
        },
{
    let keys: [&str; 4] = ["query", "pattern", "text", "search"];
    let k: &[&str] = &keys;
    assert(key_views(k@) =~= search_keys());
    get_str(args, k)
}

/// The query of a `symbol_lookup` call.
pub fn lookup_arg(args: &JsonValue) -> (r: Option<&str>)
    ensures
        match r {
            Some(s) => first_str(args@, lookup_keys()) == Some(s@),
            None => first_str(args@, lookup_keys()) is None,
        },
{
    let keys: [&str; 4] = ["query", "name", "symbol", "search"];
    let k: &[&str] = &keys;
    assert(key_views(k@) =~= lookup_keys());
    get_str(args, k)
}

/// The output that goes back from `bash`: at most 2000 bytes.
pub const BASH_OUTPUT_LIMIT: usize = 2000;

/// Reads a file.
pub struct ReadFileTool;

/// Creates or overwrites a file.
pub struct WriteFileTool;

/// Replaces one exact piece of text in a file.
pub struct PatchTool;

/// Runs a shell command.
pub struct BashTool;

/// Finds text in the project's files.
pub struct SearchTool;

/// Finds definitions by name in the index.
pub struct SymbolLookupTool;

impl ReadFileTool {
    /// The name the model calls the tool by.
    pub fn name(&self) -> (r: &'static str)
        ensures
            r@ == "read_file"@,
    {
        "read_file"
    }

    /// What the tool does, as the model is told.
    pub fn description(&self) -> (r: &'static str)
        ensures
            r@ == "read_file(path) — read a file. Example: {\"name\":\"read_file\",\"arguments\":{\"path\":\"src/main.rs\"}}"@,
    {
        "read_file(path) — read a file. Example: {\"name\":\"read_file\",\"arguments\":{\"path\":\"src/main.rs\"}}"
    }
}

impl WriteFileTool {
    /// The name the model calls the tool by.
    pub fn name(&self) -> (r: &'static str)
        ensures
            r@ == "write_file"@,
    {
        "write_file"
    }

    /// What the tool does, as the model is told.
    pub fn description(&self) -> (r: &'static str)
        ensures
            r@ == "write_file(path, content) — create or overwrite a file. Example: {\"name\":\"write_file\",\"arguments\":{\"path\":\"hello.py\",\"content\":\"print(1)\"}}"@,
    {
        "write_file(path, content) — create or overwrite a file. Example: {\"name\":\"write_file\",\"arguments\":{\"path\":\"hello.py\",\"content\":\"print(1)\"}}"
    }
}

impl PatchTool {
    /// The name the model calls the tool by.
    pub fn name(&self) -> (r: &'static str)
        ensures
            r@ == "patch"@,
    {
        "patch"
    }

    /// What the tool does, as the model is told.
    pub fn description(&self) -> (r: &'static str)
        ensures
            r@ == "patch(path, old_str, new_str) — replace exact text in a file. Read the file first."@,
    {
        "patch(path, old_str, new_str) — replace exact text in a file. Read the file first."
    }
}

impl BashTool {
    /// The name the model calls the tool by.
    pub fn name(&self) -> (r: &'static str)
        ensures
            r@ == "bash"@,
    {
        "bash"
    }

    /// What the tool does, as the model is told.
    pub fn description(&self) -> (r: &'static str)
        ensures
            r@ == "bash(command) — run a shell command. Example: {\"name\":\"bash\",\"arguments\":{\"command\":\"echo hello > file.txt\"}}"@,
    {
        "bash(command) — run a shell command. Example: {\"name\":\"bash\",\"arguments\":{\"command\":\"echo hello > file.txt\"}}"
    }
}

impl SearchTool {
    /// The name the model calls the tool by.
    pub fn name(&self) -> (r: &'static str)
        ensures
            r@ == "search"@,
    {
        "search"
    }

    /// What the tool does, as the model is told.
    pub fn description(&self) -> (r: &'static str)
        ensures
            r@ == "search(query) — find text in project files"@,
    {
        "search(query) — find text in project files"
    }
}

impl SymbolLookupTool {
    /// The name the model calls the tool by.
    pub fn name(&self) -> (r: &'static str)
        ensures
            r@ == "symbol_lookup"@,
    {
        "symbol_lookup"
    }

    /// What the tool does, as the model is told.
    pub fn description(&self) -> (r: &'static str)
        ensures
            r@ == "symbol_lookup(query) — find functions/classes by name in the index"@,
    {
        "symbol_lookup(query) — find functions/classes by name in the index"
    }
}

/// One line of the tool list in the system prompt: `- name: description`.
pub fn describe_tool(name: &str, description: &str) -> (r: String)
    ensures
        r@ == "- "@ + name@ + ": "@ + description@,
{
    let mut s = concat2("- ", name);
    push_str(&mut s, ": ");
    push_str(&mut s, description);
    s
}

/// What a patch does to a file's text: exactly one occurrence of `old_str`
/// is replaced by `new_str`; any other count is refused with a message.
pub open spec fn patched(content: Seq<char>, old_str: Seq<char>, new_str: Seq<char>) -> Result<Seq<char>, Seq<char>> {
    let n = occurrences_from(content, old_str, 0);
    if n == 1 {
        Ok(replace_first(content, old_str, new_str))
    } else {
        Err("expected 1 occurrence of old_str, found "@ + decimal(n))
    }
}

/// Applies a patch to a file's text (see `patched`).
pub fn apply_patch(content: &str, old_str: &str, new_str: &str) -> (r: Result<String, String>)
    requires
        content@.len() < usize::MAX,
    ensures
        match r {
            Ok(t) => patched(content@, old_str@, new_str@) == Ok::<Seq<char>, Seq<char>>(t@),
            Err(m) => patched(content@, old_str@, new_str@) == Err::<Seq<char>, Seq<char>>(m@),
        },
{
    let v = chars_of(content);
    let p = chars_of(old_str);
    let n = count_occurrences(&v, &p);
    if n == 1 {
        Ok(replace_first_chars(&v, &p, new_str))
    } else {
        let num = decimal_string(n as u64);
        let mut m = to_owned_string("expected 1 occurrence of old_str, found ");
        push_str(&mut m, num.as_str());
        Err(m)
    }
}


/// The output of a command: stdout and stderr (each without trailing
/// whitespace) on two lines when both say something; otherwise the one that
/// does, unchanged; otherwise nothing.
pub open spec fn combined_output(out: Seq<char>, err: Seq<char>) -> Seq<char> {
    let out_empty = trim(out).len() == 0;
    let err_empty = trim(err).len() == 0;
    if !out_empty && !err_empty {
        trim_end(out) + "\n"@ + trim_end(err)
    } else if !out_empty {
        out
    } else if !err_empty {
        err
    } else {
        Seq::empty()
    }
}

/// Combines a command's stdout and stderr (see `combined_output`).
pub fn combine_output(stdout: &str, stderr: &str) -> (r: String)
    ensures
        r@ == combined_output(stdout@, stderr@),
{
    let out_empty = crate::text::trim_str(stdout).unicode_len() == 0;
    let err_empty = crate::text::trim_str(stderr).unicode_len() == 0;
    if !out_empty && !err_empty {
        let mut s = trim_end_str(stdout);
        push_str(&mut s, "\n");
        let e = trim_end_str(stderr);
        push_str(&mut s, e.as_str());
        s
    } else if !out_empty {
        to_owned_string(stdout)
    } else if !err_empty {
        to_owned_string(stderr)
    } else {
        String::new()
    }
}

/// The first `max` bytes of a text when it is longer, the text otherwise;
/// `max` must then fall between two characters.
pub fn truncate_bytes(s: &str, max: usize) -> (r: String)
    requires
        s.spec_bytes().len() <= usize::MAX,
        s.spec_bytes().len() > max ==> is_char_boundary(s.spec_bytes(), max as int),
    ensures
        s.spec_bytes().len() <= max ==> r@ == s@,
        s.spec_bytes().len() > max ==> encode_utf8(r@) == s.spec_bytes().subrange(0, max as int),
{
    if s.len() > max {
        let (head, _tail) = s.split_at(max);
        to_owned_string(head)
    } else {
        to_owned_string(s)
    }
}

/// One search hit as a line: `file:line: name`.
pub open spec fn hit_line(e: TraceEntry) -> Seq<char> {
    e.file@ + ":"@ + decimal(e.line as nat) + ": "@ + e.name@
}

/// One symbol as a line: `name (kind) at file:line`.
pub open spec fn symbol_line(s: Symbol) -> Seq<char> {
    s.name@ + " ("@ + kind_name(s.kind) + ") at "@ + s.file@ + ":"@ + decimal(s.line as nat)
}

/// The search tool's answer: `no results`, or one line per hit.
pub fn format_search_hits(entries: &Vec<TraceEntry>) -> (r: String)
    ensures
        entries@.len() == 0 ==> r@ == "no results"@,
        entries@.len() > 0 ==> r@ == join(entries@.map_values(|e: TraceEntry| hit_line(e)), "\n"@),
{
    if entries.len() == 0 {
        return to_owned_string("no results");
    }
    let mut lines: Vec<String> = Vec::new();
    let mut i: usize = 0;
    while i < entries.len()
        invariant
            0 <= i <= entries.len(),
            string_views(lines@) == entries@.take(i as int).map_values(|e: TraceEntry| hit_line(e)),
        decreases entries.len() - i,
    {
        let e = &entries[i];
        let num = decimal_string(e.line as u64);
        let mut l = concat2(e.file.as_str(), ":");
        push_str(&mut l, num.as_str());
        push_str(&mut l, ": ");
        push_str(&mut l, e.name.as_str());
        let ghost before = lines@;
        lines.push(l);
        assert(string_views(lines@) =~= string_views(before).push(l@));
        assert(entries@.take(i + 1).map_values(|e: TraceEntry| hit_line(e)) =~= entries@.take(i as int).map_values(
            |e: TraceEntry| hit_line(e),
        ).push(hit_line(entries@[i as int])));
        i = i + 1;
    }
    assert(entries@.take(entries@.len() as int) =~= entries@);
    join_strings(&lines, "\n")
}

/// The symbol lookup tool's answer: `no symbols found`, or one line per symbol.
pub fn format_symbol_hits(symbols: &Vec<Symbol>) -> (r: String)
    ensures
        symbols@.len() == 0 ==> r@ == "no symbols found"@,
        symbols@.len() > 0 ==> r@ == join(symbols@.map_values(|s: Symbol| symbol_line(s)), "\n"@),
{
    if symbols.len() == 0 {
        return to_owned_string("no symbols found");
    }
    let mut lines: Vec<String> = Vec::new();
    let mut i: usize = 0;
    while i < symbols.len()
        invariant
            0 <= i <= symbols.len(),
            string_views(lines@) == symbols@.take(i as int).map_values(|s: Symbol| symbol_line(s)),
        decreases symbols.len() - i,
    {
        let s = &symbols[i];
        let num = decimal_string(s.line as u64);
        let mut l = concat2(s.name.as_str(), " (");
        push_str(&mut l, s.kind.as_str());
        push_str(&mut l, ") at ");
        push_str(&mut l, s.file.as_str());
        push_str(&mut l, ":");
        push_str(&mut l, num.as_str());
        let ghost before = lines@;
        lines.push(l);
        assert(string_views(lines@) =~= string_views(before).push(l@));
        assert(symbols@.take(i + 1).map_values(|s: Symbol| symbol_line(s)) =~= symbols@.take(i as int).map_values(
            |s: Symbol| symbol_line(s),
        ).push(symbol_line(symbols@[i as int])));
        i = i + 1;
    }
    assert(symbols@.take(symbols@.len() as int) =~= symbols@);
    join_strings(&lines, "\n")
}

} // verus!
