use shrimp::chat::run_slash;
use shrimp::chat::SlashWork;
use shrimp::keys::UiState;
use shrimp::keys::Screen;
use shrimp::keys::SlashCommand;
use shrimp::chat::ChatState;
use shrimp::chat::ChatEvent;
use shrimp::chat::ChatLine;
use shrimp::chat::ChatLineKind;
use shrimp::chat::ChatContent;
use shrimp::chat::build_wrapped_rows;
use shrimp::chat::build_wrapped_rows_checked;
use shrimp::chat::wrap_rich_line;
use shrimp::chat::kind_style;
use shrimp::style::Run;
use shrimp::style::Look;
use shrimp::style::Tone;

fn text(row: &Vec<Run>) -> String {
    row.iter().map(|r| r.text.as_str()).collect()
}

#[test]
fn deltas_build_the_reply() {
    let mut st = ChatState::new();
    st.apply_event(ChatEvent::AssistantDelta { text: "Hel".to_string() });
    st.apply_event(ChatEvent::AssistantDelta { text: "lo".to_string() });
    assert_eq!(st.live_assistant, "Hello");
    st.apply_event(ChatEvent::AssistantClear);
    assert_eq!(st.live_assistant, "");
    assert!(st.messages.is_empty());
}

#[test]
fn clearing_keeps_a_streamed_card() {
    let mut st = ChatState::new();
    st.apply_event(ChatEvent::AssistantDelta {
        text: "```json\n{\"name\":\"bash\",\"arguments\":{\"command\":\"ls\"}}\n```".to_string(),
    });
    st.apply_event(ChatEvent::AssistantClear);
    assert_eq!(st.messages.len(), 1);
    assert!(st.stream_tool_persisted);
    st.apply_event(ChatEvent::ToolStart { name: "bash".to_string(), args: "{\"command\":\"pwd\"}".to_string() });
    assert_eq!(st.messages.len(), 1);
    assert!(!st.stream_tool_persisted);
    match &st.messages[0].content {
        ChatContent::Rich(rows) => assert_eq!(text(&rows[1]), "  $ pwd"),
        _ => panic!("expected a card"),
    }
}

#[test]
fn saved_files_are_reported() {
    let mut st = ChatState::new();
    st.apply_event(ChatEvent::ToolStart { name: "write_file".to_string(), args: "{\"path\":\"a.txt\",\"content\":\"x\"}".to_string() });
    assert_eq!(st.last_file_path.as_deref(), Some("a.txt"));
    st.apply_event(ChatEvent::ToolEnd { name: "write_file".to_string(), output: "wrote a.txt".to_string(), duration_ms: 1, success: true });
    let last = st.messages.last().unwrap();
    assert_eq!(last.kind, ChatLineKind::ToolOk);
    match &last.content {
        ChatContent::Rich(rows) => assert_eq!(text(&rows[0]), "✓ saved a.txt"),
        _ => panic!("expected rows"),
    }
}

#[test]
fn status_lines() {
    let mut st = ChatState::new();
    assert_eq!(st.status_index, "not indexed");
    st.apply_event(ChatEvent::TokenUpdate { prompt: 10, completion: 3 });
    assert_eq!(st.status_tokens, "prompt:10 compl:3");
    st.apply_event(ChatEvent::IndexReady { symbols: 5, files: 2, duration_ms: 7 });
    assert_eq!(st.status_index, "5 sym · 2 files · 7ms");
    st.apply_event(ChatEvent::Error { message: "boom".to_string() });
    assert_eq!(st.messages.last().unwrap().kind, ChatLineKind::Error);
}

#[test]
fn transcript_has_one_line_per_message() {
    let mut st = ChatState::new();
    st.push_line(ChatLine::text("› hi".to_string(), ChatLineKind::User));
    st.push_line(ChatLine::text("Sure.".to_string(), ChatLineKind::Agent));
    st.live_assistant = "more".to_string();
    assert_eq!(st.transcript_plain(), "› hi\nSure.\nmore\n");
}

#[test]
fn rows_of_the_conversation() {
    let msgs = vec![
        ChatLine::text("› hi".to_string(), ChatLineKind::User),
        ChatLine::text("done".to_string(), ChatLineKind::Agent),
        ChatLine::text("a long system note".to_string(), ChatLineKind::System),
    ];
    let rows = build_wrapped_rows(&msgs, "", false, 0, 11);
    let texts: Vec<String> = rows.iter().map(text).collect();
    assert_eq!(texts, vec!["› hi", "a long ", "system ", "note"]);
    assert_eq!(rows[1][0].look, kind_style(&ChatLineKind::System));
    let rows = build_wrapped_rows_checked(&msgs, "typing", true, 0, 40).unwrap();
    assert_eq!(text(rows.last().unwrap()), "typing▌");
}

#[test]
fn box_rows_are_cut_with_an_ellipsis() {
    let row = vec![Run { text: "│ a very long framed row".to_string(), look: Look::plain() }];
    let rows = wrap_rich_line(&row, 10);
    assert_eq!(rows.len(), 1);
    assert_eq!(text(&rows[0]), "│ a ver…");
    assert_eq!(rows[0][0].look, Look::toned(Tone::DarkGray));
}

#[test]
fn a_finished_turn_adds_the_answer() {
    let mut st = ChatState::new();
    st.apply_event(ChatEvent::AssistantDelta { text: "partial".to_string() });
    assert!(st.finish_turn_checked(Ok("  Added the flag.\n```json\n{\"name\":\"x\"}\n```  ".to_string())));
    assert_eq!(st.live_assistant, "");
    assert!(!st.stream_tool_persisted);
    let last = st.messages.last().unwrap();
    assert_eq!(last.kind, ChatLineKind::Agent);
    match &last.content {
        ChatContent::Text(t) => assert_eq!(t, "Added the flag."),
        _ => panic!("expected text"),
    }
    let n = st.messages.len();
    st.finish_turn(Ok("Done.".to_string()));
    assert_eq!(st.messages.len(), n);
    st.finish_turn(Err("timeout".to_string()));
    let last = st.messages.last().unwrap();
    assert_eq!(last.kind, ChatLineKind::Error);
    match &last.content {
        ChatContent::Text(t) => assert_eq!(t, "error: timeout"),
        _ => panic!("expected text"),
    }
}

#[test]
fn slash_commands_change_the_screens() {
    let mut ui = UiState::new(2);
    ui.screen = Screen::Chat;
    let mut st = ChatState::new();
    assert_eq!(run_slash(&mut ui, &mut st, SlashCommand::Help), SlashWork::Nothing);
    assert_eq!(st.messages.len(), 1);
    assert_eq!(run_slash(&mut ui, &mut st, SlashCommand::Unknown("/x".to_string())), SlashWork::Nothing);
    match &st.messages[1].content {
        ChatContent::Text(t) => assert_eq!(t, "unknown command: /x"),
        _ => panic!("expected text"),
    }
    assert_eq!(run_slash(&mut ui, &mut st, SlashCommand::Clear), SlashWork::Nothing);
    assert!(st.messages.is_empty());
    assert_eq!(run_slash(&mut ui, &mut st, SlashCommand::Model), SlashWork::Nothing);
    assert_eq!(ui.screen, Screen::ModelSelect);
    assert_eq!(run_slash(&mut ui, &mut st, SlashCommand::Undo), SlashWork::Undo);
    st.report_work(SlashWork::Undo, Ok(()));
    st.report_work(SlashWork::Reindex, Err("busy".to_string()));
    match (&st.messages[0].content, &st.messages[1].content) {
        (ChatContent::Text(a), ChatContent::Text(b)) => {
            assert_eq!(a, "undone.");
            assert_eq!(b, "reindex: busy");
        }
        _ => panic!("expected text"),
    }
    assert_eq!(run_slash(&mut ui, &mut st, SlashCommand::Quit), SlashWork::Nothing);
    assert!(ui.should_quit);
}
