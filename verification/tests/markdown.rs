use shrimp::markdown::render;
use shrimp::markdown::parse_inline;
use shrimp::markdown::parse_header;
use shrimp::markdown::parse_ordered_item;
use shrimp::markdown::parse_bullet_item;
use shrimp::markdown::wrap_spans;
use shrimp::markdown::lang_from_tag;
use shrimp::markdown::can_render;
use shrimp::markdown::inline_scan_ok;
use shrimp::markdown::text_lines;
use shrimp::style::Look;
use shrimp::style::Run;
use shrimp::style::Tone;

fn plain(rows: &Vec<Vec<Run>>) -> String {
    rows.iter().flat_map(|l| l.iter().map(|s| s.text.as_str())).collect()
}

#[test]
fn renders_bold_and_code() {
    let lines = render("Use `src/main.rs` and **important**", Look::toned(Tone::Gray), 80);
    let plain: String = plain(&lines);
    assert!(plain.contains("src/main.rs"));
    assert!(plain.contains("important"));
}

#[test]
fn renders_numbered_list() {
    let text = "1. **First** item\n2. Second";
    let lines = render(text, Look::plain(), 80);
    assert!(lines.len() >= 2);
}

#[test]
fn inline_runs_take_their_looks() {
    let base = Look::toned(Tone::Gray);
    let runs = parse_inline("a `b` **c** \\*d", base);
    let texts: Vec<&str> = runs.iter().map(|r| r.text.as_str()).collect();
    assert_eq!(texts, vec!["a ", "b", " ", "c", " *d"]);
    assert_eq!(runs[1].look, Look::toned(Tone::Rgb(152, 195, 151)));
    assert_eq!(runs[3].look, base.bolded());
    assert_eq!(runs[4].look, base);
}

#[test]
fn unclosed_bold_drops_its_last_character() {
    let runs = parse_inline("**abc", Look::plain());
    assert_eq!(runs.len(), 1);
    assert_eq!(runs[0].text, "ab");
}

#[test]
fn trailing_backslash_cannot_be_scanned() {
    assert!(!inline_scan_ok("abc\\"));
    assert!(inline_scan_ok("abc\\\\"));
    assert!(!can_render("hello\\"));
    assert!(can_render("# Title\n- item"));
}

#[test]
fn headers_and_items() {
    assert_eq!(parse_header("## Title  "), Some((2, "Title")));
    assert_eq!(parse_header("####### seven"), None);
    assert_eq!(parse_header("#nospace"), None);
    assert_eq!(parse_ordered_item("  12. twelve"), Some(("12.", "twelve")));
    assert_eq!(parse_ordered_item("a. no"), None);
    assert_eq!(parse_ordered_item("3.x"), None);
    assert_eq!(parse_bullet_item("   - dash"), Some((3, "dash")));
    assert_eq!(parse_bullet_item("* star"), Some((0, "star")));
    assert_eq!(parse_bullet_item("-nospace"), None);
}

#[test]
fn header_renders_bold_in_its_colour() {
    let rows = render("# Hi", Look::plain(), 80);
    assert_eq!(rows.len(), 1);
    assert_eq!(rows[0][0].text, "Hi");
    assert_eq!(rows[0][0].look, Look::toned(Tone::Rgb(229, 192, 123)).bolded());
}

#[test]
fn bullet_gets_padding_and_dot() {
    let rows = render("  - x", Look::plain(), 80);
    assert_eq!(plain(&rows), "    • x");
}

#[test]
fn blank_line_is_an_empty_row() {
    let rows = render("a\n\nb", Look::plain(), 80);
    assert_eq!(rows.len(), 3);
    assert!(rows[1].is_empty());
}

#[test]
fn code_block_is_framed() {
    let rows = render("```text\nx = 1\n```\nafter", Look::plain(), 80);
    assert_eq!(rows[0][0].text, "  ┌─ code ");
    assert_eq!(rows[1][0].text, "  │ ");
    assert_eq!(rows[2][0].text, "  └─");
    assert_eq!(plain(&vec![rows[3].clone_row()]), "after");
}

trait CloneRow {
    fn clone_row(&self) -> Vec<Run>;
}

impl CloneRow for Vec<Run> {
    fn clone_row(&self) -> Vec<Run> {
        self.iter().map(|r| Run { text: r.text.clone(), look: r.look }).collect()
    }
}

#[test]
fn wrap_spans_cuts_at_width() {
    let spans = vec![Run { text: "abcdef".to_string(), look: Look::plain() }];
    let rows = wrap_spans(spans, 4);
    assert_eq!(rows.len(), 2);
    assert_eq!(rows[0][0].text, "abcd");
    assert_eq!(rows[1][0].text, "ef");
    let rows = wrap_spans(vec![Run { text: "ab\ncd".to_string(), look: Look::plain() }], 0);
    let texts: Vec<String> = rows.iter().map(|r| r.iter().map(|x| x.text.as_str()).collect()).collect();
    assert_eq!(texts, vec!["a", "b", "c", "d"]);
}

#[test]
fn fence_tags_name_languages() {
    assert_eq!(lang_from_tag(" RUST "), "rust");
    assert_eq!(lang_from_tag("py"), "python");
    assert_eq!(lang_from_tag("sh"), "text");
    assert_eq!(lang_from_tag(""), "text");
    assert_eq!(lang_from_tag("Haskell"), "Haskell");
}

#[test]
fn lines_like_str_lines() {
    let ls = text_lines("a\r\nb\n\nc\n");
    let ls: Vec<String> = ls.iter().map(|l| l.iter().collect()).collect();
    assert_eq!(ls, vec!["a", "b", "", "c"]);
    assert!(text_lines("").is_empty());
}
