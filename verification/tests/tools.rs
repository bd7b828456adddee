use shrimp::json::JsonValue;
use shrimp::tools::command_arg;
use shrimp::tools::content_arg;
use shrimp::tools::lookup_arg;
use shrimp::tools::new_arg;
use shrimp::tools::old_arg;
use shrimp::tools::search_arg;
use shrimp::toolcall::ToolCallParser;
use shrimp::tools::GuardState;
use shrimp::tools::mark_read;
use shrimp::tools::has_read;
use shrimp::tools::guard_write;
use shrimp::tools::is_duplicate;
use shrimp::tools::mark_call;
use shrimp::tools::reset_round_dedup;
use shrimp::tools::reset_session_guards;
use shrimp::tools::apply_patch;
use shrimp::tools::combine_output;
use shrimp::tools::truncate_bytes;
use shrimp::tools::ToolContext;
use shrimp::tools::ToolResult;
use shrimp::tools::describe_tool;
use shrimp::tools::BashTool;
use shrimp::tools::format_search_hits;
use shrimp::retrieval::TraceEntry;

#[test]
fn read_before_write_guard() {
    let mut g = GuardState::new();
    let first = guard_write(&mut g, "a.rs", true);
    assert_eq!(first.as_deref(), Some("read-before-write guard: read 'a.rs' first, then retry"));
    assert!(guard_write(&mut g, "a.rs", true).is_none());
    assert!(guard_write(&mut g, "new.rs", false).is_none());
    mark_read(&mut g, "b.rs");
    assert!(has_read(&g, "b.rs"));
    assert!(guard_write(&mut g, "b.rs", true).is_none());
    reset_session_guards(&mut g);
    assert!(!has_read(&g, "b.rs"));
    assert!(guard_write(&mut g, "a.rs", true).is_some());
}

#[test]
fn duplicate_calls_in_a_round() {
    let mut g = GuardState::new();
    assert!(!is_duplicate(&g, "bash", "{}"));
    mark_call(&mut g, "bash", "{}");
    assert!(is_duplicate(&g, "bash", "{}"));
    assert!(!is_duplicate(&g, "bash", "{\"a\":1}"));
    reset_round_dedup(&mut g);
    assert!(!is_duplicate(&g, "bash", "{}"));
}

#[test]
fn patch_replaces_exactly_one_occurrence() {
    assert_eq!(apply_patch("let a = 1;", "1", "2"), Ok("let a = 2;".to_string()));
    assert_eq!(
        apply_patch("x x", "x", "y"),
        Err("expected 1 occurrence of old_str, found 2".to_string())
    );
    assert_eq!(
        apply_patch("abc", "z", "y"),
        Err("expected 1 occurrence of old_str, found 0".to_string())
    );
}

#[test]
fn command_output_combined() {
    assert_eq!(combine_output("out \n", "err\n"), "out\nerr");
    assert_eq!(combine_output("out\n", "  "), "out\n");
    assert_eq!(combine_output("", "err"), "err");
    assert_eq!(combine_output(" ", ""), "");
}

#[test]
fn truncation_by_bytes() {
    assert_eq!(truncate_bytes("hello", 3), "hel");
    assert_eq!(truncate_bytes("hi", 3), "hi");
}

#[test]
fn paths_resolve_against_the_root() {
    let ctx = ToolContext::new("/repo".to_string());
    assert_eq!(ctx.resolve("src/a.rs"), "/repo/src/a.rs");
    assert_eq!(ctx.resolve("/etc/x"), "/etc/x");
}

#[test]
fn results_and_descriptions() {
    let r = ToolResult::err("bad".to_string(), 3);
    assert!(!r.success);
    assert_eq!(r.duration_ms, 3);
    assert!(ToolResult::ok("fine".to_string(), 1).success);
    assert_eq!(describe_tool("bash", "run"), "- bash: run");
    assert_eq!(BashTool.name(), "bash");
}

#[test]
fn search_hits_as_lines() {
    assert_eq!(format_search_hits(&vec![]), "no results");
    let hits = vec![TraceEntry {
        name: "main".to_string(),
        file: "src/main.rs".to_string(),
        line: 3,
        score_pct: 80,
        kind: "text".to_string(),
    }];
    assert_eq!(format_search_hits(&hits), "src/main.rs:3: main");
}

#[test]
fn tool_arguments_by_their_keys() {
    let args = JsonValue::Object(vec![
        ("file".to_string(), JsonValue::Str("a.rs".to_string())),
        ("body".to_string(), JsonValue::Str("fn main() {}".to_string())),
        ("old".to_string(), JsonValue::Number("1".to_string())),
        ("original".to_string(), JsonValue::Str("x".to_string())),
        ("replacement".to_string(), JsonValue::Str("y".to_string())),
        ("cmd".to_string(), JsonValue::Str("ls".to_string())),
        ("pattern".to_string(), JsonValue::Str("foo".to_string())),
        ("symbol".to_string(), JsonValue::Str("Bar".to_string())),
    ]);
    assert_eq!(content_arg(&args), Some("fn main() {}"));
    assert_eq!(old_arg(&args), Some("x"));
    assert_eq!(new_arg(&args), Some("y"));
    assert_eq!(command_arg(&args), Some("ls"));
    assert_eq!(search_arg(&args), Some("foo"));
    assert_eq!(lookup_arg(&args), Some("Bar"));
    assert_eq!(content_arg(&JsonValue::Null), None);
}

#[test]
fn arguments_written_back_as_json() {
    let calls = ToolCallParser::parse("```json\n{\"name\":\"read_file\",\"arguments\":{\"path\": \"src/main.rs\"}}\n```");
    assert_eq!(calls.len(), 1);
    assert_eq!(calls[0].arguments.to_json_string(), "{\"path\":\"src/main.rs\"}");
}

#[test]
fn guards_follow_the_calls_since_a_reset() {
    let mut g = GuardState::new();
    mark_read(&mut g, "./a.rs");
    assert!(!has_read(&g, "a.rs"));
    assert!(has_read(&g, "./a.rs"));
    mark_call(&mut g, "bash", "{\"command\":\"ls\"}");
    assert!(is_duplicate(&g, "bash", "{\"command\":\"ls\"}"));
    assert!(!is_duplicate(&g, "bash", "{\"command\":\"pwd\"}"));
    reset_round_dedup(&mut g);
    assert!(!is_duplicate(&g, "bash", "{\"command\":\"ls\"}"));
    assert!(has_read(&g, "./a.rs"));
    assert!(guard_write(&mut g, "c.rs", true).is_some());
    assert_eq!(g.write_attempts("c.rs"), 1);
    assert!(guard_write(&mut g, "c.rs", true).is_none());
    assert_eq!(g.write_attempts("c.rs"), 2);
    assert!(guard_write(&mut g, "./a.rs", true).is_none());
    assert_eq!(g.write_attempts("./a.rs"), 0);
    reset_session_guards(&mut g);
    assert!(guard_write(&mut g, "c.rs", true).is_some());
}
