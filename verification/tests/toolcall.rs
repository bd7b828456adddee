use shrimp::toolcall::ToolCallParser;
use shrimp::json::JsonValue;

#[test]
fn test_fenced_json() {
    let content = "Here is the tool:\n```json\n{\"name\":\"write_file\",\"arguments\":{\"path\":\"hello.py\",\"content\":\"print(1)\"}}\n```";
    let calls = ToolCallParser::parse(content);
    assert_eq!(calls.len(), 1);
    assert_eq!(calls[0].name, "write_file");
}

#[test]
fn test_xml_style() {
    let content =
        "<tool_call>{\"name\":\"read_file\",\"arguments\":{\"path\":\"foo.rs\"}}</tool_call>";
    let calls = ToolCallParser::parse(content);
    assert_eq!(calls.len(), 1);
    assert_eq!(calls[0].name, "read_file");
}

#[test]
fn test_inline_json() {
    let content = "Sure! {\"name\":\"bash\",\"arguments\":{\"command\":\"ls\"}}";
    let calls = ToolCallParser::parse(content);
    assert_eq!(calls.len(), 1);
    assert_eq!(calls[0].name, "bash");
}

#[test]
fn test_alternate_keys() {
    let content = "```json\n{\"tool\":\"search\",\"args\":{\"query\":\"main\"}}\n```";
    let calls = ToolCallParser::parse(content);
    assert_eq!(calls.len(), 1);
    assert_eq!(calls[0].name, "search");
}

#[test]
fn test_string_encoded_arguments() {
    let content = "```json\n{\"name\":\"write_file\",\"arguments\":\"{\\\"path\\\":\\\"a.py\\\",\\\"content\\\":\\\"print(1)\\\"}\"}\n```";
    let calls = ToolCallParser::parse(content);
    assert_eq!(calls.len(), 1);
    assert_eq!(calls[0].name, "write_file");
    assert_eq!(calls[0].arguments.get("path").unwrap().as_str(), Some("a.py"));
}

#[test]
fn test_openai_function_wrapper() {
    let content = "```json\n{\"type\":\"function\",\"function\":{\"name\":\"read_file\",\"arguments\":{\"path\":\"x.rs\"}}}\n```";
    let calls = ToolCallParser::parse(content);
    assert_eq!(calls.len(), 1);
    assert_eq!(calls[0].name, "read_file");
    assert_eq!(calls[0].arguments.get("path").unwrap().as_str(), Some("x.rs"));
}

#[test]
fn test_function_name_prefix_stripped() {
    let content = "{\"tool_name\":\"functions.bash\",\"parameters\":{\"command\":\"ls\"}}";
    let calls = ToolCallParser::parse(content);
    assert_eq!(calls.len(), 1);
    assert_eq!(calls[0].name, "bash");
}

#[test]
fn parser_finds_nothing_in_prose() {
    let calls = ToolCallParser::parse("just words, no tools here");
    assert!(calls.is_empty());
}

#[test]
fn parser_fenced_blocks_suppress_inline_scan() {
    let content = "```json\n{\"name\":\"a\"}\n```\n{\"name\":\"b\"}";
    let calls = ToolCallParser::parse(content);
    assert_eq!(calls.len(), 1);
    assert_eq!(calls[0].name, "a");
}

#[test]
fn parser_reads_several_fenced_blocks_in_order() {
    let content = "```json\n{\"name\":\"a\"}\n```\ntext\n```json\n{\"name\":\"b\"}\n```";
    let calls = ToolCallParser::parse(content);
    assert_eq!(calls.len(), 2);
    assert_eq!(calls[0].name, "a");
    assert_eq!(calls[1].name, "b");
}

#[test]
fn parser_braces_inside_strings_do_not_close() {
    let content = "x {\"name\":\"bash\",\"arguments\":{\"command\":\"echo }\"}} y";
    let calls = ToolCallParser::parse(content);
    assert_eq!(calls.len(), 1);
    assert_eq!(calls[0].arguments.get("command").unwrap().as_str(), Some("echo }"));
}

#[test]
fn parser_missing_arguments_give_empty_object() {
    let calls = ToolCallParser::parse("{\"name\":\"  functions.functions.x  \"}");
    assert_eq!(calls.len(), 1);
    assert_eq!(calls[0].name, "x");
    assert_eq!(calls[0].arguments, JsonValue::Object(Vec::new()));
}

#[test]
fn parser_non_string_name_is_no_call() {
    let calls = ToolCallParser::parse("{\"name\":3,\"tool\":\"bash\"}");
    assert!(calls.is_empty());
}

#[test]
fn parser_unparsable_string_arguments_give_empty_object() {
    let calls = ToolCallParser::parse("{\"name\":\"t\",\"arguments\":\"not json\"}");
    assert_eq!(calls.len(), 1);
    assert_eq!(calls[0].arguments, JsonValue::Object(Vec::new()));
}
