use shrimp::retrieval::QueryPattern;
use shrimp::retrieval::TextSearch;
use shrimp::retrieval::TraceEntry;
use shrimp::retrieval::search_skips;
use shrimp::retrieval::build_trace;
use shrimp::index::Symbol;
use shrimp::index::SymbolKind;

#[test]
fn queries_match_as_regex_or_text() {
    let p = QueryPattern::new("fn [a-z]+\\(");
    assert!(p.matches("pub fn main() {"));
    assert!(!p.matches("let x = 1;"));
    let p = QueryPattern::new("a(b");
    assert!(p.matches("x a(b y"));
    assert!(!p.matches("ab"));
}

#[test]
fn file_hits_stop_at_the_limit() {
    let mut s = TextSearch::new("/r".to_string());
    s.max_matches = 2;
    let p = QueryPattern::new("x");
    let mut hits: Vec<TraceEntry> = Vec::new();
    let full = s.search_file(&p, "/r/a.txt", "x1\ny\nx2\nx3\n", &mut hits);
    assert!(full);
    assert_eq!(hits.len(), 2);
    assert_eq!(hits[0].line, 1);
    assert_eq!(hits[1].line, 3);
    assert_eq!(hits[1].kind, "text");
    assert_eq!(hits[1].score_pct, 50);
    assert_eq!(hits[1].file, "/r/a.txt");
}

#[test]
fn search_skips_build_and_state_directories() {
    assert!(search_skips(&vec!["r".to_string(), "target".to_string()]));
    assert!(search_skips(&vec![".git".to_string()]));
    assert!(!search_skips(&vec!["src".to_string()]));
}

#[test]
fn trace_puts_symbols_first_and_keeps_three_text_hits() {
    let sym = Symbol {
        name: "main".to_string(),
        kind: SymbolKind::Function,
        file: "a.rs".to_string(),
        line: 1,
        end_line: 2,
        signature: "fn main()".to_string(),
    };
    let hit = |l: u32| TraceEntry { name: String::new(), file: "b".to_string(), line: l, score_pct: 50, kind: "text".to_string() };
    let t = build_trace(&vec![sym], vec![hit(1), hit(2), hit(3), hit(4)]);
    assert_eq!(t.entries.len(), 4);
    assert_eq!(t.entries[0].kind, "symbol");
    assert_eq!(t.entries[0].score_pct, 100);
    assert_eq!(t.entries[3].line, 3);
}
