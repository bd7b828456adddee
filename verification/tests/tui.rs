use shrimp::tui::model_screen;
use shrimp::tui::ModelScreen;
use shrimp::provider::ModelInfo;
use shrimp::provider::ProviderKind;
use shrimp::tui::extract_partial_string_field;
use shrimp::tui::extract_tool_json_blob;
use shrimp::tui::is_meta_reply;
use shrimp::tui::lang_from_path;
use shrimp::tui::looks_like_tool_json;
use shrimp::tui::model_list_outcome;
use shrimp::tui::no_models_hint;
use shrimp::tui::path_extension_of;
use shrimp::tui::provider_entries;
use shrimp::tui::provider_error_hint;
use shrimp::tui::sanitize_agent_text;
use shrimp::tui::spinner;
use shrimp::tui::Scroll;

#[test]
fn languages_by_extension() {
    assert_eq!(path_extension_of("src/main.rs"), "rs");
    assert_eq!(path_extension_of("Makefile"), "Makefile");
    assert_eq!(lang_from_path("src/main.rs"), "rust");
    assert_eq!(lang_from_path("a/b.py"), "python");
    assert_eq!(lang_from_path("x.mjs"), "javascript");
    assert_eq!(lang_from_path("x.tsx"), "typescript");
    assert_eq!(lang_from_path("run.sh"), "shell");
    assert_eq!(lang_from_path("Cargo.toml"), "toml");
    assert_eq!(lang_from_path("main.go"), "go");
    assert_eq!(lang_from_path("notes"), "text");
}

#[test]
fn tool_json_is_recognised_and_extracted() {
    assert!(looks_like_tool_json("here ```json\n{}\n```"));
    assert!(looks_like_tool_json("{\"name\":\"bash\",\"arguments\":{}}"));
    assert!(!looks_like_tool_json("plain answer"));
    assert_eq!(extract_tool_json_blob("x ```json\n {\"a\":1} \n``` y").as_deref(), Some("{\"a\":1}"));
    assert_eq!(extract_tool_json_blob("x ```json\n{\"a\":1").as_deref(), Some("{\"a\":1"));
    assert_eq!(extract_tool_json_blob("go {\"name\":\"x\"} ").as_deref(), Some("{\"name\":\"x\"}"));
    assert_eq!(extract_tool_json_blob("nothing here"), None);
}

#[test]
fn partial_fields_of_streamed_json() {
    let raw = "{\"name\":\"write_file\",\"arguments\":{\"path\": \"a.py\",\"content\":\"print(1)\\nx = \\\"q";
    assert_eq!(extract_partial_string_field(raw, "path").as_deref(), Some("a.py"));
    assert_eq!(extract_partial_string_field(raw, "content").as_deref(), Some("print(1)\nx = \"q"));
    assert_eq!(extract_partial_string_field(raw, "command"), None);
}

#[test]
fn replies_that_only_say_done() {
    assert!(is_meta_reply("Done."));
    assert!(is_meta_reply("  Task complete  "));
    assert!(is_meta_reply("ok"));
    assert!(!is_meta_reply("Updated src/main.rs to print the total."));
}

#[test]
fn tool_json_taken_out_of_replies() {
    assert_eq!(sanitize_agent_text("Here:\n```json\n{\"name\":\"bash\"}\n```\nDone"), "Here:\n\nDone");
    assert_eq!(sanitize_agent_text("a {\"name\":\"x\"} b"), "a  b");
    assert_eq!(sanitize_agent_text("start ```json\n{\"name\":"), "start");
}

#[test]
fn spinner_cycles() {
    assert_eq!(spinner(0), "⠋");
    assert_eq!(spinner(11), "⠙");
}

#[test]
fn provider_hints_and_entries() {
    assert_eq!(
        provider_error_hint(&ProviderKind::Ollama, "http://h:1", "refused"),
        "Cannot reach Ollama at http://h:1 — start it with: ollama serve"
    );
    assert_eq!(no_models_hint(&ProviderKind::LmStudio), "No models loaded — load a model in LM Studio first");
    let entries = provider_entries();
    assert_eq!(entries.len(), 2);
    assert_eq!(entries[1].1, "LM Studio");
    assert_eq!(entries[0].2, "http://localhost:11434");
}

#[test]
fn model_lists_and_their_hints() {
    let models = vec![ModelInfo { name: "qwen".to_string(), size_bytes: Some(7) }];
    match model_list_outcome(&ProviderKind::Ollama, "http://localhost:11434", Ok(models)) {
        Ok(v) => assert_eq!(v[0].name, "qwen"),
        Err(_) => panic!("expected the models"),
    }
    assert_eq!(
        model_list_outcome(&ProviderKind::Ollama, "u", Ok(Vec::new())).err().as_deref(),
        Some("No models found — run: ollama pull qwen2.5-coder:7b")
    );
    assert_eq!(
        model_list_outcome(&ProviderKind::LmStudio, "http://x:1234", Err("boom".to_string())).err().as_deref(),
        Some("Cannot reach LM Studio at http://x:1234 — open LM Studio and enable the local server")
    );
}

#[test]
fn scrolling_the_transcript() {
    let mut s = Scroll::new();
    s.view_rows = 100;
    s.view_height = 10;
    assert_eq!(s.max_offset(), 90);
    assert_eq!(s.effective_offset(), 90);
    s.scroll_up(5);
    assert_eq!(s.effective_offset(), 85);
    s.scroll_down(3);
    assert_eq!(s.scroll_offset, 88);
    s.scroll_down(50);
    assert_eq!(s.scroll_offset, usize::MAX);
    s.scroll_up(1000);
    assert_eq!(s.effective_offset(), 0);
    s.scroll_to_bottom();
    assert_eq!(s.effective_offset(), 90);
}

#[test]
fn model_screen_contents() {
    assert_eq!(model_screen(true, true, 3), ModelScreen::Loading);
    assert_eq!(model_screen(false, true, 0), ModelScreen::Failed);
    assert_eq!(model_screen(false, false, 0), ModelScreen::Empty);
    assert_eq!(model_screen(false, false, 2), ModelScreen::List);
}
