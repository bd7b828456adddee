use shrimp::cards::format_tool_start;
use shrimp::cards::format_tool_start_checked;
use shrimp::cards::format_tool_end;
use shrimp::cards::tool_label;
use shrimp::cards::line_number_text;
use shrimp::cards::preview_streaming_tool;
use shrimp::cards::preview_streaming_tool_checked;
use shrimp::style::Run;
use shrimp::style::Look;
use shrimp::style::Tone;

fn text(row: &Vec<Run>) -> String {
    row.iter().map(|r| r.text.as_str()).collect()
}

#[test]
fn label_has_gear_name_and_detail() {
    let row = tool_label("bash", "ls");
    assert_eq!(text(&row), "⚙ bash  ls");
    assert_eq!(row[1].look, Look::toned(Tone::Cyan).bolded());
}

#[test]
fn line_numbers_are_right_aligned() {
    assert_eq!(line_number_text(7), "  7 ");
    assert_eq!(line_number_text(1234), "1234 ");
}

#[test]
fn write_card_shows_numbered_content() {
    let rows = format_tool_start("write_file", "{\"path\":\"a.txt\",\"content\":\"x\\ny\"}");
    assert_eq!(text(&rows[0]), "⚙ write_file  a.txt");
    assert_eq!(rows.len(), 3);
    assert_eq!(text(&rows[1]), "    1 x");
    assert_eq!(text(&rows[2]), "    2 y");
}

#[test]
fn long_write_card_notes_the_rest() {
    let content: String = (0..40).map(|i| format!("l{}\\n", i)).collect();
    let args = format!("{{\"path\":\"a.txt\",\"content\":\"{}\"}}", content);
    let rows = format_tool_start("write_file", &args);
    assert_eq!(rows.len(), 1 + 32 + 1);
    assert_eq!(text(&rows[33]), "      … 8 more lines");
}

#[test]
fn patch_card_shows_old_and_new() {
    let rows = format_tool_start("patch", "{\"file\":\"m.rs\",\"old\":\"a\\nb\",\"new\":\"c\"}");
    let texts: Vec<String> = rows.iter().map(text).collect();
    assert_eq!(texts, vec!["⚙ patch  m.rs", "  - a", "  - b", "  + c"]);
}

#[test]
fn bash_card_shows_command_lines() {
    let rows = format_tool_start("bash", "{\"cmd\":\"ls\\npwd\"}");
    let texts: Vec<String> = rows.iter().map(text).collect();
    assert_eq!(texts, vec!["⚙ bash  ", "  $ ls", "  $ pwd"]);
}

#[test]
fn other_tools_summarize_arguments() {
    let rows = format_tool_start("custom", "{\"b\":2,\"a\":\"x\"}");
    assert_eq!(text(&rows[0]), "⚙ custom  a=x  b=2");
    let rows = format_tool_start("custom", "not json");
    assert_eq!(text(&rows[0]), "⚙ custom  not json");
    let rows = format_tool_start("search", "{\"pattern\":\"fn main\"}");
    assert_eq!(text(&rows[0]), "⚙ search  fn main");
}

#[test]
fn unsafe_content_is_reported() {
    assert!(format_tool_start_checked("write_file", "{\"path\":\"a\",\"content\":\"\\\"\\\\\"}").is_none());
    assert!(format_tool_start_checked("write_file", "{\"path\":\"a\",\"content\":\"ok\"}").is_some());
}

#[test]
fn end_cards() {
    let rows = format_tool_end("write_file", "wrote a.txt", true, None);
    assert_eq!(text(&rows[0]), "✓ wrote a.txt");
    let rows = format_tool_end("bash", "one\ntwo", false, None);
    let texts: Vec<String> = rows.iter().map(text).collect();
    assert_eq!(texts, vec!["✗ bash", "  one", "  two"]);
    assert_eq!(rows[1][1].look, Look::toned(Tone::Red));
    let rows = format_tool_end("search", "hits", true, None);
    assert_eq!(text(&rows[0]), "✓ search  hits");
    let rows = format_tool_end("read_file", "a\nb", true, Some("x.py"));
    assert_eq!(text(&rows[0]), "⚙ read_file  x.py");
    assert_eq!(rows.len(), 3);
}

#[test]
fn preview_of_a_streaming_call() {
    assert!(preview_streaming_tool("just text").is_none());
    let raw = "```json\n{\"name\":\"write_file\",\"arguments\":{\"path\":\"a.py\",\"content\":\"print(1";
    let rows = preview_streaming_tool(raw).unwrap();
    assert_eq!(text(&rows[0]), "⚙ write_file  a.py");
    assert_eq!(text(&rows[1]), "    1 print(1");
    let raw = "```json\n{\"name\":\"write_file\",\"arguments\":{\"path\":\"a.py\",\"content\":\"";
    let rows = preview_streaming_tool(raw).unwrap();
    assert_eq!(text(&rows[1]), "  composing…");
}

#[test]
fn preview_of_a_complete_call_uses_its_arguments() {
    let raw = "```json\n{\"name\":\"read_file\",\"arguments\":{\"path\":\"src/x.rs\"}}\n```";
    let rows = preview_streaming_tool(raw).unwrap();
    assert_eq!(text(&rows[0]), "⚙ read_file  src/x.rs");
    assert!(preview_streaming_tool_checked(raw).unwrap().is_some());
}
