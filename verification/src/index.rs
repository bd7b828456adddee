//! Symbols of the code index, and the rules that the index keeps by.
use vstd::prelude::*;
use crate::text::push_char;
use crate::text::string_views;
use crate::text::str_contains;
use crate::text::contains;
use crate::text::concat2;
use crate::text::push_str;
use crate::text::to_lowercase;
use crate::text::lowercase;

verus! {

/// The kind of a symbol definition.
#[derive(Debug, Clone, Copy, PartialEq, Eq, Structural)]
pub enum SymbolKind {
    Function,
    Struct,
    Trait,
    Enum,
    Impl,
    Module,
    Class,
    Method,
    Variable,
    Other,
}

/// The lower-case name of a kind.
pub open spec fn kind_name(k: SymbolKind) -> Seq<char> {
    match k {
        SymbolKind::Function => "function"@,
        SymbolKind::Struct => "struct"@,
        SymbolKind::Trait => "trait"@,
        SymbolKind::Enum => "enum"@,
        SymbolKind::Impl => "impl"@,
        SymbolKind::Module => "module"@,
        SymbolKind::Class => "class"@,
        SymbolKind::Method => "method"@,
        SymbolKind::Variable => "variable"@,
        SymbolKind::Other => "other"@,
    }
}

impl SymbolKind {
    /// The lower-case name of the kind.
    pub fn as_str(&self) -> (r: &'static str)
        ensures
            r@ == kind_name(*self),
    {
        match self {
            SymbolKind::Function => "function",
            SymbolKind::Struct => "struct",
            SymbolKind::Trait => "trait",
            SymbolKind::Enum => "enum",
            SymbolKind::Impl => "impl",
            SymbolKind::Module => "module",
            SymbolKind::Class => "class",
            SymbolKind::Method => "method",
            SymbolKind::Variable => "variable",
            SymbolKind::Other => "other",
        }
    }
}

/// A symbol definition found in a source file; lines count from 1.
#[derive(Debug, Clone)]
pub struct Symbol {
    pub name: String,
    pub kind: SymbolKind,
    pub file: String,
    pub line: u32,
    pub end_line: u32,
    pub signature: String,
}

/// What the index records of a file.
#[derive(Debug, Clone)]
pub struct FileMeta {
    pub file: String,
    pub hash: String,
    pub mtime: u64,
    pub symbol_count: usize,
}

/// Counts from one indexing run.
#[derive(Debug, Default)]
pub struct IndexStats {
    pub files_total: usize,
    pub files_changed: usize,
    pub files_removed: usize,
    pub symbols_total: usize,
    pub duration_ms: u64,
}

/// Why indexing or a lookup failed, with the message of the failure.
#[derive(Debug)]
pub enum IndexError {
    Io(String),
    Db(String),
    Parse(String),
    Walk(String),
}

/// The file extensions whose sources the index parses.
pub open spec fn is_supported_ext(ext: Seq<char>) -> bool {
    ext == "rs"@ || ext == "py"@ || ext == "js"@ || ext == "jsx"@ || ext == "ts"@ || ext == "tsx"@
        || ext == "go"@
}

/// Whether files with this extension are indexed.
pub fn supported_extension(ext: &str) -> (r: bool)
    ensures
        r == is_supported_ext(ext@),
{
    language_for_ext(ext).is_some()
}

/// The grammars the index can parse with.
#[derive(Debug, Clone, Copy, PartialEq, Eq, Structural)]
pub enum SourceLanguage {
    Rust,
    Python,
    JavaScript,
    TypeScript,
    Tsx,
    Go,
}

/// The grammar for a file extension.
pub open spec fn language_of_ext(ext: Seq<char>) -> Option<SourceLanguage> {
    if ext == "rs"@ {
        Some(SourceLanguage::Rust)
    } else if ext == "py"@ {
        Some(SourceLanguage::Python)
    } else if ext == "js"@ || ext == "jsx"@ {
        Some(SourceLanguage::JavaScript)
    } else if ext == "ts"@ {
        Some(SourceLanguage::TypeScript)
    } else if ext == "tsx"@ {
        Some(SourceLanguage::Tsx)
    } else if ext == "go"@ {
        Some(SourceLanguage::Go)
    } else {
        None
    }
}

/// The grammar for a file extension, if the index parses such files.
pub fn language_for_ext(ext: &str) -> (r: Option<SourceLanguage>)
    ensures
        r == language_of_ext(ext@),
{
    if crate::text::str_eq(ext, "rs") {
        Some(SourceLanguage::Rust)
    } else if crate::text::str_eq(ext, "py") {
        Some(SourceLanguage::Python)
    } else if crate::text::str_eq(ext, "js") || crate::text::str_eq(ext, "jsx") {
        Some(SourceLanguage::JavaScript)
    } else if crate::text::str_eq(ext, "ts") {
        Some(SourceLanguage::TypeScript)
    } else if crate::text::str_eq(ext, "tsx") {
        Some(SourceLanguage::Tsx)
    } else if crate::text::str_eq(ext, "go") {
        Some(SourceLanguage::Go)
    } else {
        None
    }
}

/// The kind of definition that a syntax node kind stands for.
pub open spec fn kind_of_node(kind: Seq<char>) -> Option<SymbolKind> {
    if kind == "function_item"@ || kind == "function_definition"@ || kind == "function_declaration"@
        || kind == "arrow_function"@ {
        Some(SymbolKind::Function)
    } else if kind == "method_definition"@ || kind == "method_declaration"@ {
        Some(SymbolKind::Method)
    } else if kind == "struct_item"@ {
        Some(SymbolKind::Struct)
    } else if kind == "class_definition"@ || kind == "class_declaration"@ {
        Some(SymbolKind::Class)
    } else if kind == "trait_item"@ {
        Some(SymbolKind::Trait)
    } else if kind == "enum_item"@ || kind == "enum_declaration"@ {
        Some(SymbolKind::Enum)
    } else if kind == "impl_item"@ {
        Some(SymbolKind::Impl)
    } else if kind == "mod_item"@ || kind == "module"@ {
        Some(SymbolKind::Module)
    } else {
        None
    }
}

/// The kind of definition that a syntax node kind stands for, if any.
pub fn classify(kind: &str) -> (r: Option<SymbolKind>)
    ensures
        r == kind_of_node(kind@),
{
    let eq = |t: &str| -> (b: bool)
        ensures
            b == (kind@ == t@),
        { crate::text::str_eq(kind, t) };
    if eq("function_item") || eq("function_definition") || eq("function_declaration") || eq("arrow_function") {
        Some(SymbolKind::Function)
    } else if eq("method_definition") || eq("method_declaration") {
        Some(SymbolKind::Method)
    } else if eq("struct_item") {
        Some(SymbolKind::Struct)
    } else if eq("class_definition") || eq("class_declaration") {
        Some(SymbolKind::Class)
    } else if eq("trait_item") {
        Some(SymbolKind::Trait)
    } else if eq("enum_item") || eq("enum_declaration") {
        Some(SymbolKind::Enum)
    } else if eq("impl_item") {
        Some(SymbolKind::Impl)
    } else if eq("mod_item") || eq("module") {
        Some(SymbolKind::Module)
    } else {
        None
    }
}

/// A database error message that asks for the index file to be rebuilt.
pub open spec fn rebuild_message(msg: Seq<char>) -> bool {
    contains(msg, "Manual upgrade"@) || contains(msg, "format version"@) || contains(
        msg,
        "not a redb database"@,
    ) || contains(msg, "not a valid redb"@)
}

/// Whether an error from opening the database means the file is stale or
/// foreign and is to be deleted and created afresh.
pub fn needs_db_rebuild(msg: &str) -> (r: bool)
    ensures
        r == rebuild_message(msg@),
{
    str_contains(msg, "Manual upgrade") || str_contains(msg, "format version") || str_contains(
        msg,
        "not a redb database",
    ) || str_contains(msg, "not a valid redb")
}

/// The key under which a symbol is stored: file, kind and name joined by `::`.
pub open spec fn symbol_key_of(file: Seq<char>, kind: SymbolKind, name: Seq<char>) -> Seq<char> {
    file + "::"@ + kind_name(kind) + "::"@ + name
}

/// The store key of a symbol.
pub fn symbol_key(sym: &Symbol) -> (r: String)
    ensures
        r@ == symbol_key_of(sym.file@, sym.kind, sym.name@),
{
    let mut s = concat2(sym.file.as_str(), "::");
    push_str(&mut s, sym.kind.as_str());
    push_str(&mut s, "::");
    push_str(&mut s, sym.name.as_str());
    s
}

/// The prefix that every symbol key of a file starts with.
pub fn file_key_prefix(file: &str) -> (r: String)
    ensures
        r@ == file@ + "::"@,
{
    concat2(file, "::")
}

/// A symbol name answers a query when its lower-cased form contains the
/// lower-cased query.
pub open spec fn name_matches(name: Seq<char>, query: Seq<char>) -> bool {
    contains(lowercase(name), lowercase(query))
}

/// Whether a symbol name answers a lookup query.
pub fn symbol_matches(name: &str, query: &str) -> (r: bool)
    ensures
        r == name_matches(name@, query@),
{
    let n = to_lowercase(name);
    let q = to_lowercase(query);
    str_contains(n.as_str(), q.as_str())
}

/// A copy of a symbol.
pub fn copy_symbol(s: &Symbol) -> (r: Symbol)
    ensures
        r.name@ == s.name@,
        r.kind == s.kind,
        r.file@ == s.file@,
        r.line == s.line,
        r.end_line == s.end_line,
        r.signature@ == s.signature@,
{
    Symbol {
        name: s.name.clone(),
        kind: s.kind,
        file: s.file.clone(),
        line: s.line,
        end_line: s.end_line,
        signature: s.signature.clone(),
    }
}

/// The positions of the symbols that answer `query`, in increasing order.
pub open spec fn matching_positions(symbols: Seq<Symbol>, query: Seq<char>) -> Seq<int>
    decreases symbols.len(),
{
    if symbols.len() == 0 {
        Seq::empty()
    } else {
        let rest = matching_positions(symbols.drop_last(), query);
        if name_matches(symbols.last().name@, query) {
            rest.push(symbols.len() - 1)
        } else {
            rest
        }
    }
}

/// The symbols that answer `query`, in their order: the result's i-th symbol
/// is a copy of the symbol at the i-th matching position.
pub fn filter_symbols(symbols: &Vec<Symbol>, query: &str) -> (r: Vec<Symbol>)
    ensures
        r@.len() == matching_positions(symbols@, query@).len(),
        forall|i: int| 0 <= i < r@.len() ==> {
            let j = #[trigger] matching_positions(symbols@, query@)[i];
            &&& 0 <= j < symbols@.len()
            &&& r@[i].name@ == symbols@[j].name@
            &&& r@[i].kind == symbols@[j].kind
            &&& r@[i].file@ == symbols@[j].file@
            &&& r@[i].line == symbols@[j].line
            &&& r@[i].end_line == symbols@[j].end_line
            &&& r@[i].signature@ == symbols@[j].signature@
        },
{
    let mut out: Vec<Symbol> = Vec::new();
    let mut i: usize = 0;
    while i < symbols.len()
        invariant
            0 <= i <= symbols.len(),
            out@.len() == matching_positions(symbols@.take(i as int), query@).len(),
            forall|k: int| 0 <= k < out@.len() ==> {
                let j = #[trigger] matching_positions(symbols@.take(i as int), query@)[k];
                &&& 0 <= j < i
                &&& out@[k].name@ == symbols@[j].name@
                &&& out@[k].kind == symbols@[j].kind
                &&& out@[k].file@ == symbols@[j].file@
                &&& out@[k].line == symbols@[j].line
                &&& out@[k].end_line == symbols@[j].end_line
                &&& out@[k].signature@ == symbols@[j].signature@
            },
        decreases symbols.len() - i,
    {
        let ghost prev = symbols@.take(i as int);
        assert(symbols@.take(i + 1).drop_last() =~= prev);
        assert(symbols@.take(i + 1).last() == symbols@[i as int]);
        if symbol_matches(symbols[i].name.as_str(), query) {
            let c = copy_symbol(&symbols[i]);
            out.push(c);
        }
        i = i + 1;
    }
    assert(symbols@.take(symbols@.len() as int) =~= symbols@);
    out
}

} // verus!

verus! {

/// The SHA-256 digest of some bytes.
pub uninterp spec fn sha256(bytes: Seq<u8>) -> Seq<u8>;

/// Calls `sha2::Sha256::digest` on the bytes. Claimed: the result is
/// `sha256` of the bytes; which digest that is is not stated.
#[verifier::external_body]
fn sha256_digest(content: &[u8]) -> (r: Vec<u8>)
    ensures
        r@ == sha256(content@),
{
    <sha2::Sha256 as sha2::Digest>::digest(content).to_vec()
}

/// The lower-case hexadecimal digit for a value below sixteen.
pub open spec fn hex_digit(d: u8) -> char {
    if d < 10 {
        ((48 + d) as u8) as char
    } else {
        ((87 + d) as u8) as char
    }
}

/// Bytes written as two lower-case hexadecimal digits each.
pub open spec fn hex_of(bytes: Seq<u8>) -> Seq<char>
    decreases bytes.len(),
{
    if bytes.len() == 0 {
        Seq::empty()
    } else {
        hex_of(bytes.drop_last()) + seq![hex_digit(bytes.last() / 16), hex_digit(bytes.last() % 16)]
    }
}

fn hex_char(d: u8) -> (r: char)
    requires
        d < 16,
    ensures
        r == hex_digit(d),
{
    if d < 10 {
        (48 + d) as char
    } else {
        (87 + d) as char
    }
}

/// Bytes as lower-case hexadecimal (see `hex_of`).
pub fn hex_string(bytes: &Vec<u8>) -> (r: String)
    ensures
        r@ == hex_of(bytes@),
{
    let mut out = String::new();
    let mut i: usize = 0;
    while i < bytes.len()
        invariant
            i <= bytes.len(),
            out@ == hex_of(bytes@.take(i as int)),
        decreases bytes.len() - i,
    {
        let b = bytes[i];
        push_char(&mut out, hex_char(b / 16));
        push_char(&mut out, hex_char(b % 16));
        assert(bytes@.take(i + 1).drop_last() =~= bytes@.take(i as int));
        i = i + 1;
    }
    assert(bytes@.take(i as int) =~= bytes@);
    out
}

/// The hash the index keeps of a file's contents: its SHA-256 digest in hexadecimal.
pub fn content_hash(content: &[u8]) -> (r: String)
    ensures
        r@ == hex_of(sha256(content@)),
{
    let d = sha256_digest(content);
    hex_string(&d)
}

/// A file is parsed again unless the index holds it with the same hash.
pub fn file_changed(stored: &Option<FileMeta>, hash: &str) -> (r: bool)
    ensures
        r == !(stored matches Some(m) && m.hash@ == hash@),
{
    match stored {
        Some(m) => !crate::text::str_eq(m.hash.as_str(), hash),
        None => true,
    }
}

/// A path part that indexing skips.
pub open spec fn skipped_part(c: Seq<char>) -> bool {
    c == ".marrow"@ || c == ".shrimp"@
}

/// Whether indexing skips a path, by its parts.
pub fn index_skips(parts: &Vec<String>) -> (r: bool)
    ensures
        r == exists|i: int| 0 <= i < parts@.len() && skipped_part(#[trigger] parts@[i]@),
{
    let mut i: usize = 0;
    while i < parts.len()
        invariant
            i <= parts.len(),
            forall|k: int| 0 <= k < i ==> !skipped_part(#[trigger] parts@[k]@),
        decreases parts.len() - i,
    {
        if crate::text::str_eq(parts[i].as_str(), ".marrow") || crate::text::str_eq(parts[i].as_str(), ".shrimp") {
            assert(skipped_part(parts@[i as int]@));
            return true;
        }
        i = i + 1;
    }
    false
}

/// The files the index holds that this run did not see, in the order held.
pub open spec fn stale_of(stored: Seq<Seq<char>>, seen: Seq<Seq<char>>) -> Seq<Seq<char>>
    decreases stored.len(),
{
    if stored.len() == 0 {
        Seq::empty()
    } else if seen.contains(stored.last()) {
        stale_of(stored.drop_last(), seen)
    } else {
        stale_of(stored.drop_last(), seen).push(stored.last())
    }
}

/// The files to drop from the index (see `stale_of`).
pub fn stale_files(stored: &Vec<String>, seen: &Vec<String>) -> (r: Vec<String>)
    ensures
        string_views(r@) == stale_of(string_views(stored@), string_views(seen@)),
{
    let ghost sv = string_views(stored@);
    let ghost seenv = string_views(seen@);
    let mut out: Vec<String> = Vec::new();
    let mut i: usize = 0;
    while i < stored.len()
        invariant
            i <= stored.len(),
            sv == string_views(stored@),
            seenv == string_views(seen@),
            string_views(out@) == stale_of(sv.take(i as int), seenv),
        decreases stored.len() - i,
    {
        let mut found = false;
        let mut k: usize = 0;
        while k < seen.len()
            invariant
                k <= seen.len(),
                i < stored.len(),
                seenv == string_views(seen@),
                found == exists|j: int| 0 <= j < k && seenv[j] == stored@[i as int]@,
            decreases seen.len() - k,
        {
            let eq = crate::text::str_eq(seen[k].as_str(), stored[i].as_str());
            proof {
                assert(seenv[k as int] == seen@[k as int]@);
                if !eq && !found {
                    assert forall|j: int| 0 <= j < k + 1 implies !(seenv[j] == stored@[i as int]@) by {
                        if j < k {
                            assert(!(exists|j2: int| 0 <= j2 < k && seenv[j2] == stored@[i as int]@));
                        }
                    }
                }
            }
            if eq {
                found = true;
            }
            k = k + 1;
        }
        assert(sv.take(i + 1).drop_last() =~= sv.take(i as int));
        assert(sv.take(i + 1).last() == stored@[i as int]@);
        if !found {
            let ghost before = string_views(out@);
            out.push(stored[i].clone());
            assert(string_views(out@) =~= before.push(stored@[i as int]@));
        } else {
            proof {
                let j = choose|j: int| 0 <= j < k && seenv[j] == stored@[i as int]@;
                assert(seenv.contains(stored@[i as int]@));
            }
        }
        i = i + 1;
    }
    assert(sv.take(i as int) =~= sv);
    out
}

} // verus!
