use shrimp::highlight::fallback_line;
use shrimp::highlight::fallback_line_safe;
use shrimp::highlight::code_line_spans;
use shrimp::highlight::code_is_safe;
use shrimp::highlight::code_can_draw;
use shrimp::highlight::lines_from_steps;
use shrimp::highlight::HighlightStep;
use shrimp::highlight::style_for_capture;
use shrimp::style::Look;
use shrimp::style::Tone;

#[test]
fn plain_tokenizer_colours_words() {
    let runs = fallback_line("let x = \"hi\" 42");
    let texts: Vec<&str> = runs.iter().map(|r| r.text.as_str()).collect();
    assert_eq!(texts, vec!["let", " ", "x", " ", "=", " ", "\"hi\"", " ", "42"]);
    assert_eq!(runs[0].look, Look::toned(Tone::Rgb(198, 120, 221)).bolded());
    assert_eq!(runs[6].look, Look::toned(Tone::Rgb(152, 195, 151)));
    assert_eq!(runs[8].look, Look::toned(Tone::Rgb(209, 154, 102)));
}

#[test]
fn comment_lines_are_one_run() {
    let runs = fallback_line("   // note");
    assert_eq!(runs.len(), 1);
    assert_eq!(runs[0].text, "   // note");
    assert!(runs[0].look.italic);
}

#[test]
fn empty_line_is_one_empty_run() {
    let runs = fallback_line("");
    assert_eq!(runs.len(), 1);
    assert_eq!(runs[0].text, "");
    assert_eq!(runs[0].look, Look::plain());
}

#[test]
fn string_ending_in_backslash_is_unsafe() {
    assert!(!fallback_line_safe("x = \"abc\\"));
    assert!(fallback_line_safe("x = \"a\\\"b\""));
    assert!(!code_is_safe("ok\n\"\\"));
}

#[test]
fn unknown_language_uses_the_tokenizer() {
    let rows = code_line_spans("a\nfn b", "text");
    assert_eq!(rows.len(), 2);
    assert_eq!(rows[1][0].text, "fn");
}

#[test]
fn rust_is_highlighted_by_the_grammar() {
    let rows = code_line_spans("fn main() {}\nlet x = 1;", "rust");
    assert_eq!(rows.len(), 2);
    let first: String = rows[0].iter().map(|r| r.text.as_str()).collect();
    assert_eq!(first, "fn main() {}");
    assert_eq!(rows[0][0].text, "fn");
    assert_eq!(rows[0][0].look, Look::toned(Tone::Rgb(198, 120, 221)).bolded());
}

#[test]
fn steps_build_rows() {
    let steps = vec![
        HighlightStep::Start(12),
        HighlightStep::Source("fn".to_string()),
        HighlightStep::End,
        HighlightStep::Source(" a\nb".to_string()),
    ];
    let rows = lines_from_steps(&steps);
    assert_eq!(rows.len(), 2);
    assert_eq!(rows[0][0].text, "fn");
    assert_eq!(rows[0][0].look, style_for_capture("keyword"));
    assert_eq!(rows[0][1].text, " a");
    assert_eq!(rows[1][0].text, "b");
}

#[test]
fn capture_looks() {
    assert!(style_for_capture("comment").italic);
    assert_eq!(style_for_capture("variable.builtin"), Look::toned(Tone::Rgb(171, 178, 191)));
    assert_eq!(style_for_capture("type"), Look::toned(Tone::Rgb(97, 175, 239)));
}

#[test]
fn grammar_colours_what_the_tokenizer_cannot() {
    let code = "let s = \"one \\\nmore\";";
    assert!(!code_is_safe(code));
    assert!(!code_can_draw(code, "text"));
    assert!(code_can_draw(code, "rust"));
    let rows = code_line_spans(code, "rust");
    assert_eq!(rows.len(), 2);
    let first: String = rows[0].iter().map(|r| r.text.as_str()).collect();
    assert_eq!(first, "let s = \"one \\");
}
