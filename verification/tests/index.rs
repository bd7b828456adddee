use shrimp::index::needs_db_rebuild;
use shrimp::index::supported_extension;
use shrimp::index::language_for_ext;
use shrimp::index::SourceLanguage;
use shrimp::index::SymbolKind;
use shrimp::index::classify;

#[test]
fn detects_stale_redb_format() {
    let msg = "Manual upgrade required. Expected file format version 3, but file is version 2";
    assert!(needs_db_rebuild(msg));
}

#[test]
fn other_errors_need_no_rebuild() {
    assert!(!needs_db_rebuild("permission denied"));
}

#[test]
fn extensions_that_are_indexed() {
    assert!(supported_extension("rs"));
    assert!(supported_extension("tsx"));
    assert!(!supported_extension("md"));
    assert!(matches!(language_for_ext("py"), Some(SourceLanguage::Python)));
    assert!(language_for_ext("txt").is_none());
}

#[test]
fn symbol_kinds_have_names() {
    assert_eq!(SymbolKind::Function.as_str(), "function");
    assert!(matches!(classify("function_item"), Some(SymbolKind::Function)));
    assert!(classify("identifier").is_none());
}

use shrimp::index::content_hash;
use shrimp::index::file_changed;
use shrimp::index::index_skips;
use shrimp::index::stale_files;
use shrimp::index::hex_string;
use shrimp::index::FileMeta;
use shrimp::syntax::parse_file;

#[test]
fn hashes_are_sha256_in_hex() {
    assert_eq!(
        content_hash(b"abc"),
        "ba7816bf8f01cfea414140de5dae2223b00361a396177a9cb410ff61f20015ad"
    );
    assert_eq!(hex_string(&vec![0, 15, 255]), "000fff");
}

#[test]
fn unchanged_files_are_not_parsed_again() {
    let meta = FileMeta { file: "a.rs".to_string(), hash: "h1".to_string(), mtime: 0, symbol_count: 0 };
    assert!(!file_changed(&Some(meta), "h1"));
    let meta = FileMeta { file: "a.rs".to_string(), hash: "h1".to_string(), mtime: 0, symbol_count: 0 };
    assert!(file_changed(&Some(meta), "h2"));
    assert!(file_changed(&None, "h1"));
}

#[test]
fn index_skips_its_own_directories() {
    assert!(index_skips(&vec!["repo".to_string(), ".shrimp".to_string(), "x".to_string()]));
    assert!(!index_skips(&vec!["repo".to_string(), "src".to_string()]));
}

#[test]
fn files_no_longer_seen_are_stale() {
    let stored = vec!["a".to_string(), "b".to_string(), "c".to_string()];
    let seen = vec!["b".to_string()];
    assert_eq!(stale_files(&stored, &seen), vec!["a".to_string(), "c".to_string()]);
}

#[test]
fn rust_symbols_are_found() {
    let src = "struct Point {\n    x: i32,\n}\n\nfn main() {\n    let p = 1;\n}\n";
    let syms = parse_file("src/main.rs", src, "rs");
    let names: Vec<(&str, &str, u32, u32)> =
        syms.iter().map(|s| (s.name.as_str(), s.kind.as_str(), s.line, s.end_line)).collect();
    assert_eq!(names, vec![("Point", "struct", 1, 3), ("main", "function", 5, 7)]);
    assert_eq!(syms[1].signature, "fn main() {");
    assert_eq!(syms[0].file, "src/main.rs");
    assert!(parse_file("x.md", "# hi", "md").is_empty());
}

#[test]
fn python_symbols_are_found() {
    let syms = parse_file("m.py", "class A:\n    def f(self):\n        pass\n", "py");
    let names: Vec<&str> = syms.iter().map(|s| s.name.as_str()).collect();
    assert_eq!(names, vec!["A", "f"]);
}
