//! What retrieval hands to the context builder: symbol and text hits.
use vstd::prelude::*;
use crate::text::to_owned_string;
use crate::index::Symbol;
use crate::text::contains;
use crate::text::str_contains;
use crate::text::str_eq;
use crate::text::string_from_chars;
use crate::markdown::lines_of;
use crate::markdown::text_lines;
use crate::wrap::char_views;

verus! {

/// One hit: a symbol definition or a matching line. `score_pct` is the
/// hit's weight in hundredths (symbol hits 100, text hits 50).
#[derive(Debug, Clone)]
pub struct TraceEntry {
    pub name: String,
    pub file: String,
    pub line: u32,
    pub score_pct: u32,
    pub kind: String,
}

/// The hits that a query found, symbols first.
#[derive(Debug, Clone, Default)]
pub struct RetrievalTrace {
    pub entries: Vec<TraceEntry>,
}

/// A hit as data.
pub ghost struct EntryView {
    pub name: Seq<char>,
    pub file: Seq<char>,
    pub line: u32,
    pub score_pct: u32,
    pub kind: Seq<char>,
}

impl View for TraceEntry {
    type V = EntryView;

    open spec fn view(&self) -> EntryView {
        EntryView {
            name: self.name@,
            file: self.file@,
            line: self.line,
            score_pct: self.score_pct,
            kind: self.kind@,
        }
    }
}

/// The views of a list of hits.
pub open spec fn entry_views(v: Seq<TraceEntry>) -> Seq<EntryView> {
    v.map_values(|e: TraceEntry| e@)
}

/// The hit that a symbol gives.
pub open spec fn symbol_entry(s: Symbol) -> EntryView {
    EntryView { name: s.name@, file: s.file@, line: s.line, score_pct: 100, kind: "symbol"@ }
}

/// A trace: every symbol hit, in order, then at most three text hits.
pub open spec fn assembled_trace(symbols: Seq<Symbol>, text_hits: Seq<TraceEntry>) -> Seq<EntryView> {
    symbols.map_values(|s: Symbol| symbol_entry(s)) + entry_views(
        text_hits.take(if text_hits.len() < 3 { text_hits.len() as int } else { 3 }),
    )
}

/// Searches text in the files of a repository; holds at most `max_matches`
/// hits per search.
pub struct TextSearch {
    pub repo_root: String,
    pub max_matches: usize,
}

impl TextSearch {
    /// A search over `repo_root` that keeps twenty hits.
    pub fn new(repo_root: String) -> (r: Self)
        ensures
            r.repo_root == repo_root,
            r.max_matches == 20,
    {
        TextSearch { repo_root, max_matches: 20 }
    }
}

/// The hit for a symbol.
pub fn entry_for_symbol(s: &Symbol) -> (r: TraceEntry)
    ensures
        r@ == symbol_entry(*s),
{
    TraceEntry {
        name: s.name.clone(),
        file: s.file.clone(),
        line: s.line,
        score_pct: 100,
        kind: to_owned_string("symbol"),
    }
}

/// A copy of a hit.
pub fn copy_entry(e: &TraceEntry) -> (r: TraceEntry)
    ensures
        r@ == e@,
{
    TraceEntry {
        name: e.name.clone(),
        file: e.file.clone(),
        line: e.line,
        score_pct: e.score_pct,
        kind: e.kind.clone(),
    }
}

/// Builds the trace for a query from its symbol hits and its text hits.
pub fn build_trace(symbols: &Vec<Symbol>, text_hits: Vec<TraceEntry>) -> (r: RetrievalTrace)
    ensures
        entry_views(r.entries@) == assembled_trace(symbols@, text_hits@),
{
    let mut entries: Vec<TraceEntry> = Vec::new();
    let mut i: usize = 0;
    while i < symbols.len()
        invariant
            0 <= i <= symbols.len(),
            entry_views(entries@) == symbols@.take(i as int).map_values(|s: Symbol| symbol_entry(s)),
        decreases symbols.len() - i,
    {
        let e = entry_for_symbol(&symbols[i]);
        let ghost old_entries = entries@;
        entries.push(e);
        assert(entry_views(entries@) =~= entry_views(old_entries).push(e@));
        assert(symbols@.take(i + 1).map_values(|s: Symbol| symbol_entry(s)) =~= symbols@.take(i as int).map_values(
            |s: Symbol| symbol_entry(s),
        ).push(symbol_entry(symbols@[i as int])));
        i = i + 1;
    }
    assert(symbols@.take(symbols@.len() as int) =~= symbols@);
    let ghost sym_part = entry_views(entries@);
    let n = if text_hits.len() < 3 { text_hits.len() } else { 3 };
    let mut k: usize = 0;
    while k < n
        invariant
            0 <= k <= n <= text_hits.len(),
            n == if text_hits@.len() < 3 { text_hits@.len() as int } else { 3 },
            entry_views(entries@) == sym_part + entry_views(text_hits@.take(k as int)),
        decreases n - k,
    {
        let e = copy_entry(&text_hits[k]);
        let ghost old_entries = entries@;
        entries.push(e);
        assert(entry_views(entries@) =~= entry_views(old_entries).push(e@));
        assert(entry_views(text_hits@.take(k + 1)) =~= entry_views(text_hits@.take(k as int)).push(text_hits@[k as int]@));
        k = k + 1;
    }
    RetrievalTrace { entries }
}

} // verus!

verus! {

#[verifier::external_type_specification]
#[verifier::external_body]
pub struct ExRegex(regex::Regex);

/// Whether the regex crate accepts a pattern.
pub uninterp spec fn regex_valid(pattern: Seq<char>) -> bool;

/// Whether a pattern that the regex crate accepts matches somewhere in a text.
pub uninterp spec fn regex_matches(pattern: Seq<char>, text: Seq<char>) -> bool;

/// A search query, compiled as a regular expression where it is one.
pub struct QueryPattern {
    text: String,
    compiled: Option<regex::Regex>,
}

impl QueryPattern {
    /// The query's text.
    pub closed spec fn source(&self) -> Seq<char> {
        self.text@
    }

    /// Whether the query compiled as a regular expression.
    pub closed spec fn is_regex(&self) -> bool {
        self.compiled is Some
    }

    /// A query is compiled exactly when it is a valid regular expression.
    #[verifier::type_invariant]
    spec fn compiled_when_valid(self) -> bool {
        self.compiled is Some == regex_valid(self.text@)
    }
}

/// Calls `regex::Regex::new` on the query and keeps the result. Claimed:
/// the query compiles exactly when `regex_valid` holds of it.
#[verifier::external_body]
fn compile_query(query: &str) -> (r: QueryPattern)
    ensures
        r.source() == query@,
        r.is_regex() == regex_valid(query@),
{
    QueryPattern { text: query.to_string(), compiled: regex::Regex::new(query).ok() }
}

/// Calls `regex::Regex::is_match` with the compiled query. Claimed: the
/// result is `regex_matches` of the query and the text.
#[verifier::external_body]
fn regex_is_match(p: &QueryPattern, text: &str) -> (r: bool)
    requires
        p.is_regex(),
    ensures
        r == regex_matches(p.source(), text@),
{
    match &p.compiled {
        Some(re) => re.is_match(text),
        None => false,
    }
}

/// A line answers a query: by the regular expression where the query is
/// one, else by containing the query's text.
pub open spec fn line_matches(query: Seq<char>, line: Seq<char>) -> bool {
    if regex_valid(query) {
        regex_matches(query, line)
    } else {
        contains(line, query)
    }
}

impl QueryPattern {
    /// Compiles a query.
    pub fn new(query: &str) -> (r: QueryPattern)
        ensures
            r.source() == query@,
    {
        compile_query(query)
    }

    /// Whether a line answers the query (see `line_matches`).
    pub fn matches(&self, line: &str) -> (r: bool)
        ensures
            r == line_matches(self.source(), line@),
    {
        proof {
            use_type_invariant(self);
        }
        if self.compiled.is_some() {
            regex_is_match(self, line)
        } else {
            str_contains(line, self.text.as_str())
        }
    }
}

/// A path part that text search skips.
pub open spec fn search_skipped_part(c: Seq<char>) -> bool {
    c == ".shrimp"@ || c == ".git"@ || c == "target"@
}

/// Whether text search skips a path, by its parts.
pub fn search_skips(parts: &Vec<String>) -> (r: bool)
    ensures
        r == exists|i: int| 0 <= i < parts@.len() && search_skipped_part(#[trigger] parts@[i]@),
{
    let mut i: usize = 0;
    while i < parts.len()
        invariant
            i <= parts.len(),
            forall|k: int| 0 <= k < i ==> !search_skipped_part(#[trigger] parts@[k]@),
        decreases parts.len() - i,
    {
        let p = parts[i].as_str();
        if str_eq(p, ".shrimp") || str_eq(p, ".git") || str_eq(p, "target") {
            assert(search_skipped_part(parts@[i as int]@));
            return true;
        }
        i = i + 1;
    }
    false
}

/// The hit for line `n` (counted from one) of a file.
pub open spec fn text_hit(file: Seq<char>, n: int) -> EntryView {
    EntryView { name: Seq::empty(), file, line: n as u32, score_pct: 50, kind: "text"@ }
}

/// The hits of a file's lines from `i` on, added to `found` hits, stopping
/// once `max` are held.
pub open spec fn file_hits(
    lines: Seq<Seq<char>>,
    query: Seq<char>,
    file: Seq<char>,
    i: int,
    found: Seq<EntryView>,
    max: nat,
) -> Seq<EntryView>
    decreases lines.len() - i,
{
    if i < 0 || i >= lines.len() {
        found
    } else if line_matches(query, lines[i]) {
        let f = found.push(text_hit(file, i + 1));
        if f.len() >= max {
            f
        } else {
            file_hits(lines, query, file, i + 1, f, max)
        }
    } else {
        file_hits(lines, query, file, i + 1, found, max)
    }
}

impl TextSearch {
    /// Adds the hits of one file's contents to `results` (see `file_hits`)
    /// and says whether the search is full.
    pub fn search_file(&self, pattern: &QueryPattern, file: &str, content: &str, results: &mut Vec<TraceEntry>) -> (full: bool)
        ensures
            entry_views(final(results)@) == file_hits(
                lines_of(content@),
                pattern.source(),
                file@,
                0,
                entry_views(old(results)@),
                self.max_matches as nat,
            ),
            full == (final(results)@.len() >= self.max_matches),
    {
        let ls = text_lines(content);
        let ghost lv = char_views(ls@);
        let ghost target = file_hits(lv, pattern.source(), file@, 0, entry_views(results@), self.max_matches as nat);
        let mut i: usize = 0;
        while i < ls.len()
            invariant
                i <= ls.len(),
                lv == char_views(ls@),
                lv == lines_of(content@),
                target == file_hits(lv, pattern.source(), file@, i as int, entry_views(results@), self.max_matches as nat),
                target == file_hits(lv, pattern.source(), file@, 0, entry_views(old(results)@), self.max_matches as nat),
            decreases ls.len() - i,
        {
            let line = string_from_chars(&ls[i]);
            assert(line@ == lv[i as int]);
            let hit = pattern.matches(line.as_str());
            assert(hit == line_matches(pattern.source(), lv[i as int]));
            if hit {
                let ghost before = entry_views(results@);
                let n = #[verifier::truncate] ((i + 1) as u32);
                results.push(TraceEntry {
                    name: String::new(),
                    file: crate::text::to_owned_string(file),
                    line: n,
                    score_pct: 50,
                    kind: to_owned_string("text"),
                });
                assert(entry_views(results@) =~= before.push(text_hit(file@, i + 1)));
                if results.len() >= self.max_matches {
                    assert(target == entry_views(results@));
                    return true;
                }
            }
            i = i + 1;
        }
        results.len() >= self.max_matches
    }
}

} // verus!
