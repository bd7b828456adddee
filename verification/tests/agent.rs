use shrimp::agent::wants_summary;
use shrimp::agent::accepts_summary;
use shrimp::agent::looks_like_plan_only;
use shrimp::agent::user_wants_action;
use shrimp::agent::action_requested;
use shrimp::agent::RoundStep;
use shrimp::agent::TurnState;
use shrimp::agent::snippet_limit_for;
use shrimp::agent::tool_result_text;
use shrimp::agent::system_prompt;
use shrimp::agent::nudge_message;
use shrimp::agent::is_edit_call;
use shrimp::agent::patch_preview;
use shrimp::json::JsonValue;

#[test]
fn detects_action_request() {
    assert!(user_wants_action("okay make this happen write some code"));
    assert!(user_wants_action("implement a ratatui tui"));
    assert!(!user_wants_action("what is this project?"));
}

#[test]
fn detects_plan_only_reply() {
    let plan = "The next step will involve refactoring src/main.rs to use ratatui.";
    assert!(looks_like_plan_only(plan));
    assert!(!looks_like_plan_only("Updated src/main.rs with ratatui UI."));
}

#[test]
fn action_requested_looks_back_at_history() {
    let history = vec![("user".to_string(), "please write the parser".to_string())];
    assert!(action_requested("go on", &history));
    assert!(!action_requested("what now?", &[]));
}

#[test]
fn turn_nudges_at_most_three_times() {
    let mut t = TurnState::new(true);
    for _ in 0..3 {
        match t.after_round("I will now refactor it.", Some("stop"), false) {
            RoundStep::Nudge { .. } => {}
            _ => panic!("expected a nudge"),
        }
    }
    assert!(matches!(t.after_round("I will now refactor it.", Some("stop"), false), RoundStep::Finish));
    assert_eq!(t.plan_nudges, 3);
}

#[test]
fn turn_with_write_finishes() {
    let mut t = TurnState::new(true);
    t.record_tool("write_file", true);
    assert!(t.did_write);
    assert!(matches!(t.after_round("done", Some("stop"), false), RoundStep::Finish));
}

#[test]
fn empty_cut_off_reply_is_continued() {
    let mut t = TurnState::new(false);
    assert!(matches!(t.after_round("", Some("length"), false), RoundStep::AskToContinue));
    assert!(matches!(t.after_round("x", Some("stop"), true), RoundStep::RunTools));
}

#[test]
fn nudge_depends_on_plan() {
    assert_ne!(nudge_message(true), nudge_message(false));
}

#[test]
fn tool_results_are_cut_to_their_limit() {
    let long: String = "a".repeat(10_000);
    let text = tool_result_text("read_file", &long);
    assert!(text.chars().count() <= snippet_limit_for("read_file") + 200);
    assert!(snippet_limit_for("read_file") > 0);
}

#[test]
fn system_prompt_names_repo_and_tools() {
    let p = system_prompt("/repo", "- bash: run", "ctx");
    assert!(p.contains("/repo"));
    assert!(p.contains("- bash: run"));
    assert!(p.contains("ctx"));
}

#[test]
fn edits_and_their_previews() {
    assert!(is_edit_call("write_file"));
    assert!(is_edit_call("patch"));
    assert!(!is_edit_call("read_file"));
    let args = JsonValue::Object(vec![
        ("file_path".to_string(), JsonValue::Str("src/a.rs".to_string())),
        ("old_str".to_string(), JsonValue::Str("1".to_string())),
        ("new".to_string(), JsonValue::Str("2".to_string())),
    ]);
    let (path, old, new) = patch_preview(&args).unwrap();
    assert_eq!(path, "src/a.rs");
    assert_eq!(old, "1");
    assert_eq!(new, "");
    assert!(patch_preview(&JsonValue::Object(Vec::new())).is_none());
}

#[test]
fn summaries_when_rounds_run_out() {
    assert!(wants_summary(""));
    assert!(!wants_summary("answer"));
    assert!(accepts_summary("Changed src/a.rs."));
    assert!(!accepts_summary("   "));
    assert!(!accepts_summary("```json\n{\"name\":\"bash\",\"arguments\":{\"command\":\"ls\"}}\n```"));
}

#[test]
fn rounds_are_limited_and_the_summary_asked_once() {
    let mut t = TurnState::new(true);
    let mut started = 0;
    for _ in 0..20 {
        if t.begin_round() {
            started += 1;
        }
    }
    assert_eq!(started, 12);
    assert_eq!(t.rounds, 12);
    assert!(!t.begin_summary("an answer"));
    assert!(t.begin_summary(""));
    assert!(!t.begin_summary(""));
}
