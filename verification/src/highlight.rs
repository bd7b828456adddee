//! Colouring code: by tree-sitter's highlighter for the languages it is set
//! up for, and by a small tokenizer for everything else.
use vstd::prelude::*;
use crate::style::Look;
use crate::style::Run;
use crate::style::RunView;
use crate::style::Tone;
use crate::style::runs_view;
use crate::style::lines_view;
use crate::style::merge_one;
use crate::style::push_merged;
use crate::style::plain_look;
use crate::style::tone_look;
use crate::markdown::lines_of;
use crate::markdown::text_lines;
use crate::markdown::is_digit;
use crate::text::chars_of;
use crate::text::has_prefix;
use crate::text::trim_start;
use crate::text::str_eq;
use crate::text::push_char;
use crate::text::string_from_chars;
use crate::text::string_from_range;
use crate::text::starts_with_str;
use crate::wrap::char_views;

verus! {

/// The look of comments.
pub open spec fn comment_look() -> Look {
    Look { fg: Tone::Rgb(92, 99, 112), bold: false, italic: true }
}

/// The look of keywords.
pub open spec fn keyword_look() -> Look {
    Look { fg: Tone::Rgb(198, 120, 221), bold: true, italic: false }
}

/// The look of code that nothing else colours.
pub open spec fn default_code_look() -> Look {
    tone_look(Tone::Rgb(171, 178, 191))
}

/// The look of string literals.
pub open spec fn string_look() -> Look {
    tone_look(Tone::Rgb(152, 195, 151))
}

/// The look of numbers and constants.
pub open spec fn number_look() -> Look {
    tone_look(Tone::Rgb(209, 154, 102))
}

/// The capture names that the highlighter is configured with, in order.
pub open spec fn highlight_names() -> Seq<Seq<char>> {
    seq![
        "attribute"@, "boolean"@, "comment"@, "comment.documentation"@, "constant"@,
        "constant.builtin"@, "constructor"@, "constructor.builtin"@, "embedded"@, "function"@,
        "function.builtin"@, "function.method"@, "keyword"@, "module"@, "number"@, "operator"@,
        "property"@, "property.builtin"@, "punctuation"@, "punctuation.bracket"@,
        "punctuation.delimiter"@, "punctuation.special"@, "string"@, "string.escape"@,
        "string.special"@, "tag"@, "type"@, "type.builtin"@, "variable"@, "variable.builtin"@,
        "variable.member"@, "variable.parameter"@,
    ]
}

/// The capture names that the highlighter is configured with.
pub fn capture_names() -> (r: Vec<&'static str>)
    ensures
        r@.map_values(|x: &str| x@) == highlight_names(),
{
    let names: [&'static str; 32] = [
        "attribute", "boolean", "comment", "comment.documentation", "constant",
        "constant.builtin", "constructor", "constructor.builtin", "embedded", "function",
        "function.builtin", "function.method", "keyword", "module", "number", "operator",
        "property", "property.builtin", "punctuation", "punctuation.bracket",
        "punctuation.delimiter", "punctuation.special", "string", "string.escape",
        "string.special", "tag", "type", "type.builtin", "variable", "variable.builtin",
        "variable.member", "variable.parameter",
    ];
    let f: &[&'static str] = &names;
    let mut r: Vec<&'static str> = Vec::new();
    let mut i: usize = 0;
    while i < f.len()
        invariant
            i <= f@.len(),
            f@.len() == 32,
            f@.map_values(|x: &str| x@) == highlight_names(),
            r@ == f@.take(i as int),
        decreases f@.len() - i,
    {
        r.push(f[i]);
        i = i + 1;
    }
    assert(f@.take(32) =~= f@);
    r
}

/// The look of a capture name.
pub open spec fn capture_look(name: Seq<char>) -> Look {
    if name == "keyword"@ {
        keyword_look()
    } else if name == "string"@ || name == "string.escape"@ || name == "string.special"@ {
        string_look()
    } else if name == "comment"@ || name == "comment.documentation"@ {
        comment_look()
    } else if name == "function"@ || name == "function.builtin"@ || name == "function.method"@ {
        tone_look(Tone::Rgb(229, 192, 123))
    } else if name == "type"@ || name == "type.builtin"@ || name == "constructor"@ || name
        == "constructor.builtin"@ {
        tone_look(Tone::Rgb(97, 175, 239))
    } else if name == "number"@ || name == "constant"@ || name == "constant.builtin"@ || name == "boolean"@ {
        number_look()
    } else if name == "variable"@ || name == "variable.parameter"@ || name == "variable.member"@ || name
        == "property"@ || name == "property.builtin"@ {
        tone_look(Tone::Rgb(224, 108, 117))
    } else if name == "tag"@ || name == "module"@ {
        tone_look(Tone::Rgb(224, 108, 117))
    } else {
        default_code_look()
    }
}

/// The look of a capture name (see `capture_look`).
pub fn style_for_capture(name: &str) -> (r: Look)
    ensures
        r == capture_look(name@),
{
    if str_eq(name, "keyword") {
        Look { fg: Tone::Rgb(198, 120, 221), bold: true, italic: false }
    } else if str_eq(name, "string") || str_eq(name, "string.escape") || str_eq(name, "string.special") {
        Look { fg: Tone::Rgb(152, 195, 151), bold: false, italic: false }
    } else if str_eq(name, "comment") || str_eq(name, "comment.documentation") {
        Look { fg: Tone::Rgb(92, 99, 112), bold: false, italic: true }
    } else if str_eq(name, "function") || str_eq(name, "function.builtin") || str_eq(name, "function.method") {
        Look { fg: Tone::Rgb(229, 192, 123), bold: false, italic: false }
    } else if str_eq(name, "type") || str_eq(name, "type.builtin") || str_eq(name, "constructor") || str_eq(
        name,
        "constructor.builtin",
    ) {
        Look { fg: Tone::Rgb(97, 175, 239), bold: false, italic: false }
    } else if str_eq(name, "number") || str_eq(name, "constant") || str_eq(name, "constant.builtin") || str_eq(
        name,
        "boolean",
    ) {
        Look { fg: Tone::Rgb(209, 154, 102), bold: false, italic: false }
    } else if str_eq(name, "variable") || str_eq(name, "variable.parameter") || str_eq(name, "variable.member")
        || str_eq(name, "property") || str_eq(name, "property.builtin") {
        Look { fg: Tone::Rgb(224, 108, 117), bold: false, italic: false }
    } else if str_eq(name, "tag") || str_eq(name, "module") {
        Look { fg: Tone::Rgb(224, 108, 117), bold: false, italic: false }
    } else {
        Look { fg: Tone::Rgb(171, 178, 191), bold: false, italic: false }
    }
}

/// The look for the innermost open capture: that of its name, or the
/// default look when none is open or its index names no capture.
pub open spec fn active_look(active: Seq<usize>) -> Look {
    if active.len() > 0 && active.last() < highlight_names().len() {
        capture_look(highlight_names()[active.last() as int])
    } else {
        default_code_look()
    }
}

/// The look for the innermost open capture (see `active_look`).
pub fn style_for_active(active: &Vec<usize>, names: &Vec<&'static str>) -> (r: Look)
    requires
        names@.map_values(|x: &str| x@) == highlight_names(),
    ensures
        r == active_look(active@),
{
    let n = active.len();
    if n > 0 && active[n - 1] < names.len() {
        let idx = active[n - 1];
        assert(names@[idx as int]@ == highlight_names()[idx as int]);
        style_for_capture(names[idx])
    } else {
        Look { fg: Tone::Rgb(171, 178, 191), bold: false, italic: false }
    }
}

} // verus!

verus! {

/// What `char::is_alphanumeric` returns for a character.
pub uninterp spec fn alphanumeric(c: char) -> bool;

/// Calls `char::is_alphanumeric`: whether the character is alphabetic or
/// numeric in Unicode's sense. Claimed: the result is `alphanumeric` of
/// the character, and for an ASCII character it holds exactly of the
/// letters and digits; which other characters qualify is not stated.
#[verifier::external_body]
fn is_alphanumeric(c: char) -> (r: bool)
    ensures
        r == alphanumeric(c),
        (c as u32) < 128 ==> (r <==> ('a' <= c <= 'z' || 'A' <= c <= 'Z' || '0' <= c <= '9')),
{
    c.is_alphanumeric()
}

/// The words that the plain tokenizer shows as keywords.
pub open spec fn keywords() -> Seq<Seq<char>> {
    seq![
        "fn"@, "let"@, "mut"@, "use"@, "pub"@, "struct"@, "impl"@, "match"@, "if"@, "else"@,
        "return"@, "mod"@, "async"@, "await"@, "for"@, "while"@, "loop"@, "enum"@, "trait"@,
        "where"@, "def"@, "class"@, "import"@, "from"@, "const"@, "function"@, "var"@, "export"@,
    ]
}

/// Whether `w` is one of `keywords`.
fn is_keyword(w: &str) -> (r: bool)
    ensures
        r == keywords().contains(w@),
{
    let words: [&'static str; 28] = [
        "fn", "let", "mut", "use", "pub", "struct", "impl", "match", "if", "else", "return", "mod",
        "async", "await", "for", "while", "loop", "enum", "trait", "where", "def", "class", "import",
        "from", "const", "function", "var", "export",
    ];
    let f: &[&'static str] = &words;
    assert(f@.map_values(|x: &str| x@) =~= keywords());
    let mut i: usize = 0;
    while i < f.len()
        invariant
            i <= f@.len(),
            f@.map_values(|x: &str| x@) == keywords(),
            forall|k: int| 0 <= k < i ==> keywords()[k] != w@,
        decreases f@.len() - i,
    {
        if str_eq(f[i], w) {
            assert(keywords()[i as int] == w@);
            return true;
        }
        i = i + 1;
    }
    false
}

/// A line that the plain tokenizer shows whole as a comment.
pub open spec fn comment_line(cs: Seq<char>) -> bool {
    let t = trim_start(cs);
    has_prefix(t, "//"@) || has_prefix(t, "#"@) || has_prefix(t, "--"@)
}

/// Where a quoted string that began before `j` ends: after its closing
/// quote, past the end if a backslash skips over the last character, or
/// at the end of the line.
pub open spec fn quote_end(cs: Seq<char>, q: char, j: int) -> int
    decreases cs.len() + 1 - j,
{
    if j >= cs.len() {
        j
    } else if cs[j] == '\\' {
        quote_end(cs, q, j + 2)
    } else if cs[j] == q {
        j + 1
    } else {
        quote_end(cs, q, j + 1)
    }
}

/// The end of the number that starts at `j`: digits and dots.
pub open spec fn number_end(cs: Seq<char>, j: int) -> int
    decreases cs.len() - j,
{
    if 0 <= j < cs.len() && (is_digit(cs[j]) || cs[j] == '.') {
        number_end(cs, j + 1)
    } else {
        j
    }
}

/// The end of the word that starts at `j`: alphanumerics and underscores.
pub open spec fn word_end(cs: Seq<char>, j: int) -> int
    decreases cs.len() - j,
{
    if 0 <= j < cs.len() && (alphanumeric(cs[j]) || cs[j] == '_') {
        word_end(cs, j + 1)
    } else {
        j
    }
}

/// The token that starts at `i` with its look, and where the next begins.
pub open spec fn plain_token(cs: Seq<char>, i: int) -> (RunView, int) {
    let c = cs[i];
    if c == '"' || c == '\'' {
        let j = quote_end(cs, c, i + 1);
        ((cs.subrange(i, j), string_look()), j)
    } else if is_digit(c) {
        let j = number_end(cs, i);
        ((cs.subrange(i, j), number_look()), j)
    } else if alphanumeric(c) || c == '_' {
        let j = word_end(cs, i);
        let w = cs.subrange(i, j);
        ((w, if keywords().contains(w) { keyword_look() } else { default_code_look() }), j)
    } else {
        ((seq![c], default_code_look()), i + 1)
    }
}

/// The tokens of a line from `i` on.
pub open spec fn plain_tokens(cs: Seq<char>, i: int) -> Seq<RunView>
    decreases cs.len() - i,
{
    if i < 0 || i >= cs.len() {
        Seq::empty()
    } else {
        let (r, n) = plain_token(cs, i);
        if n <= i || n > cs.len() {
            Seq::empty()
        } else {
            seq![r] + plain_tokens(cs, n)
        }
    }
}

/// No token from `i` on runs past the end of the line, as a string whose
/// last character is an escaping backslash does.
pub open spec fn tokens_ok(cs: Seq<char>, i: int) -> bool
    decreases cs.len() - i,
{
    if i < 0 || i >= cs.len() {
        true
    } else {
        let (r, n) = plain_token(cs, i);
        if n <= i || n > cs.len() {
            false
        } else {
            tokens_ok(cs, n)
        }
    }
}

/// A line the plain tokenizer can colour.
pub open spec fn fallback_safe(cs: Seq<char>) -> bool {
    comment_line(cs) || tokens_ok(cs, 0)
}

/// A line coloured without a grammar: a comment line whole in the comment
/// look; else its strings, numbers, keywords and other words, and single
/// other characters; an empty line as one empty run.
pub open spec fn fallback_spec(cs: Seq<char>) -> Seq<RunView> {
    if comment_line(cs) {
        seq![(cs, comment_look())]
    } else if cs.len() == 0 {
        seq![(cs, plain_look())]
    } else {
        plain_tokens(cs, 0)
    }
}

proof fn lemma_quote_end_ge(cs: Seq<char>, q: char, j: int)
    ensures
        quote_end(cs, q, j) >= j,
        j <= cs.len() ==> quote_end(cs, q, j) <= cs.len() + 1,
    decreases cs.len() + 1 - j,
{
    if j < cs.len() {
        if cs[j] == '\\' {
            lemma_quote_end_ge(cs, q, j + 2);
        } else if cs[j] != q {
            lemma_quote_end_ge(cs, q, j + 1);
        }
    }
}

/// Where a quoted string ends (see `quote_end`); `None` when it runs one
/// character past the end of the line.
fn find_quote_end(cs: &Vec<char>, q: char, from: usize) -> (r: Option<usize>)
    requires
        from <= cs.len(),
    ensures
        r matches Some(j) ==> j as int == quote_end(cs@, q, from as int) && j <= cs.len(),
        r is None ==> quote_end(cs@, q, from as int) == cs.len() + 1,
{
    let mut j = from;
    while j < cs.len()
        invariant
            from <= j <= cs.len(),
            quote_end(cs@, q, from as int) == quote_end(cs@, q, j as int),
        decreases cs.len() - j,
    {
        if cs[j] == '\\' {
            if cs.len() - j < 2 {
                assert(quote_end(cs@, q, j + 2) == j + 2);
                return None;
            }
            j = j + 2;
        } else if cs[j] == q {
            return Some(j + 1);
        } else {
            j = j + 1;
        }
    }
    Some(j)
}

fn find_number_end(cs: &Vec<char>, from: usize) -> (r: usize)
    requires
        from <= cs.len(),
    ensures
        r as int == number_end(cs@, from as int),
        from <= r <= cs.len(),
{
    let mut j = from;
    while j < cs.len() && (('0' <= cs[j] && cs[j] <= '9') || cs[j] == '.')
        invariant
            from <= j <= cs.len(),
            number_end(cs@, from as int) == number_end(cs@, j as int),
        decreases cs.len() - j,
    {
        j = j + 1;
    }
    j
}

fn find_word_end(cs: &Vec<char>, from: usize) -> (r: usize)
    requires
        from <= cs.len(),
    ensures
        r as int == word_end(cs@, from as int),
        from <= r <= cs.len(),
{
    let mut j = from;
    while j < cs.len() && (is_alphanumeric(cs[j]) || cs[j] == '_')
        invariant
            from <= j <= cs.len(),
            word_end(cs@, from as int) == word_end(cs@, j as int),
        decreases cs.len() - j,
    {
        j = j + 1;
    }
    j
}

/// Whether a line starts, after whitespace, with a comment marker.
fn is_comment_line(line: &str) -> (r: bool)
    ensures
        r == comment_line(line@),
{
    let v = chars_of(line);
    let mut a2 = 0usize;
    assert(v@.skip(0) =~= v@);
    while a2 < v.len() && crate::text::is_whitespace(v[a2])
        invariant
            a2 <= v.len(),
            trim_start(v@) == trim_start(v@.skip(a2 as int)),
        decreases v.len() - a2,
    {
        assert(v@.skip(a2 as int).drop_first() =~= v@.skip(a2 + 1));
        a2 = a2 + 1;
    }
    assert(v@.skip(0) =~= v@);
    assert(trim_start(v@.skip(a2 as int)) == v@.skip(a2 as int));
    let t = line.substring_char(a2, v.len());
    assert(t@ =~= trim_start(line@));
    starts_with_str(t, "//") || starts_with_str(t, "#") || starts_with_str(t, "--")
}

/// Whether the plain tokenizer can colour a line (see `fallback_safe`).
pub fn fallback_line_safe(line: &str) -> (r: bool)
    ensures
        r == fallback_safe(line@),
{
    if is_comment_line(line) {
        return true;
    }
    let cs = chars_of(line);
    tokens_ok_exec(&cs)
}

fn tokens_ok_exec(cs: &Vec<char>) -> (r: bool)
    ensures
        r == tokens_ok(cs@, 0),
{
    let n = cs.len();
    let mut i: usize = 0;
    while i < n
        invariant
            n == cs.len(),
            i <= n,
            tokens_ok(cs@, 0) == tokens_ok(cs@, i as int),
        decreases n - i,
    {
        let c = cs[i];
        let next: usize;
        if c == '"' || c == '\'' {
            match find_quote_end(cs, c, i + 1) {
                Some(j) => {
                    next = j;
                },
                None => {
                    return false;
                },
            }
        } else if '0' <= c && c <= '9' {
            next = find_number_end(cs, i);
        } else if is_alphanumeric(c) || c == '_' {
            next = find_word_end(cs, i);
        } else {
            next = i + 1;
        }
        assert(plain_token(cs@, i as int).1 == next as int);
        if next <= i {
            return false;
        }
        i = next;
    }
    true
}

/// Colours one line without a grammar (see `fallback_spec`).
pub fn fallback_line(line: &str) -> (r: Vec<Run>)
    requires
        fallback_safe(line@),
    ensures
        runs_view(r@) == fallback_spec(line@),
{
    if is_comment_line(line) {
        let mut out: Vec<Run> = Vec::new();
        out.push(Run::of(line, Look { fg: Tone::Rgb(92, 99, 112), bold: false, italic: true }));
        assert(runs_view(out@) =~= seq![(line@, comment_look())]);
        return out;
    }
    let cs = chars_of(line);
    let n = cs.len();
    let mut spans: Vec<Run> = Vec::new();
    if n == 0 {
        spans.push(Run::of(line, Look { fg: Tone::Unset, bold: false, italic: false }));
        assert(runs_view(spans@) =~= seq![(line@, plain_look())]);
        return spans;
    }
    let mut i: usize = 0;
    assert(runs_view(spans@) + plain_tokens(cs@, 0) =~= plain_tokens(cs@, 0));
    while i < n
        invariant
            n == cs.len(),
            cs@ == line@,
            i <= n,
            tokens_ok(cs@, i as int),
            runs_view(spans@) + plain_tokens(cs@, i as int) == plain_tokens(cs@, 0),
        decreases n - i,
    {
        let ghost step = plain_token(cs@, i as int);
        let ghost before = runs_view(spans@);
        let c = cs[i];
        let next: usize;
        if c == '"' || c == '\'' {
            proof {
                lemma_quote_end_ge(cs@, c, i + 1);
            }
            match find_quote_end(&cs, c, i + 1) {
                Some(j) => {
                    let t = string_from_range(&cs, i, j);
                    spans.push(Run::new(t, Look { fg: Tone::Rgb(152, 195, 151), bold: false, italic: false }));
                    next = j;
                },
                None => {
                    next = n;
                    assert(false);
                },
            }
        } else if '0' <= c && c <= '9' {
            let j = find_number_end(&cs, i);
            let t = string_from_range(&cs, i, j);
            spans.push(Run::new(t, Look { fg: Tone::Rgb(209, 154, 102), bold: false, italic: false }));
            next = j;
        } else if is_alphanumeric(c) || c == '_' {
            let j = find_word_end(&cs, i);
            let w = string_from_range(&cs, i, j);
            let look = if is_keyword(w.as_str()) {
                Look { fg: Tone::Rgb(198, 120, 221), bold: true, italic: false }
            } else {
                Look { fg: Tone::Rgb(171, 178, 191), bold: false, italic: false }
            };
            spans.push(Run::new(w, look));
            next = j;
        } else {
            let mut t = String::new();
            push_char(&mut t, c);
            assert(t@ =~= seq![c]);
            spans.push(Run::new(t, Look { fg: Tone::Rgb(171, 178, 191), bold: false, italic: false }));
            next = i + 1;
        }
        proof {
            assert(step.1 == next as int);
            assert(runs_view(spans@) =~= before.push(step.0));
            assert(before + (seq![step.0] + plain_tokens(cs@, next as int)) =~= before.push(step.0)
                + plain_tokens(cs@, next as int));
        }
        i = next;
    }
    assert(plain_tokens(cs@, i as int) =~= Seq::<RunView>::empty());
    assert(runs_view(spans@) + Seq::<RunView>::empty() =~= runs_view(spans@));
    spans
}

} // verus!

verus! {

/// One event of the highlighter: a piece of the source, the start of a
/// capture (by its index in `highlight_names`), or the end of the last one.
pub enum HighlightStep {
    Source(String),
    Start(usize),
    End,
}

/// A highlighter event with its text as characters.
pub ghost enum StepView {
    Source(Seq<char>),
    Start(usize),
    End,
}

impl View for HighlightStep {
    type V = StepView;

    open spec fn view(&self) -> StepView {
        match self {
            HighlightStep::Source(t) => StepView::Source(t@),
            HighlightStep::Start(h) => StepView::Start(*h),
            HighlightStep::End => StepView::End,
        }
    }
}

/// The views of highlighter events.
pub open spec fn steps_view(v: Seq<HighlightStep>) -> Seq<StepView> {
    v.map_values(|s: HighlightStep| s@)
}

/// The rows built so far, the open captures, the text not yet added to a
/// row, and the look it will take.
pub type HlState = (Seq<Seq<RunView>>, Seq<usize>, Seq<char>, Look);

/// The rows with the pending text added to the last one (see `merge_one`).
pub open spec fn flush_pending(lines: Seq<Seq<RunView>>, pending: Seq<char>, look: Look) -> Seq<Seq<RunView>> {
    if pending.len() == 0 || lines.len() == 0 {
        lines
    } else {
        lines.update(lines.len() - 1, merge_one(lines.last(), (pending, look)))
    }
}

/// One character of source: a newline ends the row; another is added to
/// the pending text, which takes the look of the open captures when it begins.
pub open spec fn feed_char(st: HlState, c: char) -> HlState {
    if c == '\n' {
        (flush_pending(st.0, st.2, st.3).push(Seq::empty()), st.1, Seq::empty(), active_look(st.1))
    } else {
        (st.0, st.1, st.2.push(c), if st.2.len() == 0 { active_look(st.1) } else { st.3 })
    }
}

/// The characters of a piece of source, one after another.
pub open spec fn feed_text(st: HlState, t: Seq<char>) -> HlState
    decreases t.len(),
{
    if t.len() == 0 {
        st
    } else {
        feed_char(feed_text(st, t.drop_last()), t.last())
    }
}

/// One event: source text is fed in; a capture that starts or ends first
/// adds the pending text, then opens or closes and sets the look.
pub open spec fn feed_step(st: HlState, s: StepView) -> HlState {
    match s {
        StepView::Source(t) => feed_text(st, t),
        StepView::Start(h) => {
            let a = st.1.push(h);
            (flush_pending(st.0, st.2, st.3), a, Seq::empty(), active_look(a))
        },
        StepView::End => {
            let a = if st.1.len() > 0 { st.1.drop_last() } else { st.1 };
            (flush_pending(st.0, st.2, st.3), a, Seq::empty(), active_look(a))
        },
    }
}

/// The events, one after another.
pub open spec fn feed_steps(st: HlState, s: Seq<StepView>) -> HlState
    decreases s.len(),
{
    if s.len() == 0 {
        st
    } else {
        feed_step(feed_steps(st, s.drop_last()), s.last())
    }
}

/// One empty row, nothing open, nothing pending.
pub open spec fn initial_state() -> HlState {
    (seq![Seq::empty()], Seq::empty(), Seq::empty(), default_code_look())
}

/// The rows that highlighter events give, with the pending text added at the end.
pub open spec fn step_lines(steps: Seq<StepView>) -> Seq<Seq<RunView>> {
    let st = feed_steps(initial_state(), steps);
    flush_pending(st.0, st.2, st.3)
}

/// Adds the pending text to the last row (see `flush_pending`).
fn flush_exec(lines: &mut Vec<Vec<Run>>, pending: String, look: Look)
    requires
        old(lines).len() >= 1,
    ensures
        final(lines).len() == old(lines).len(),
        lines_view(final(lines)@) == flush_pending(lines_view(old(lines)@), pending@, look),
{
    if pending.as_str().is_empty() {
        return;
    }
    let ghost before = lines_view(lines@);
    let mut last = lines.pop().unwrap();
    assert(runs_view(last@) == before.last());
    push_merged(&mut last, pending, look);
    lines.push(last);
    assert(lines_view(lines@) =~= before.update(before.len() - 1, merge_one(before.last(), (pending@, look))));
}

/// The rows that highlighter events give (see `step_lines`).
pub fn lines_from_steps(steps: &Vec<HighlightStep>) -> (r: Vec<Vec<Run>>)
    ensures
        lines_view(r@) == step_lines(steps_view(steps@)),
{
    let names = capture_names();
    let mut lines: Vec<Vec<Run>> = Vec::new();
    let first: Vec<Run> = Vec::new();
    assert(runs_view(first@) =~= Seq::<RunView>::empty());
    lines.push(first);
    let mut active: Vec<usize> = Vec::new();
    let mut pending = String::new();
    let mut look = Look { fg: Tone::Rgb(171, 178, 191), bold: false, italic: false };
    let ghost sv = steps_view(steps@);
    assert(lines_view(lines@) =~= seq![Seq::<RunView>::empty()]);
    assert(sv.take(0) =~= Seq::<StepView>::empty());
    let mut i: usize = 0;
    while i < steps.len()
        invariant
            i <= steps.len(),
            sv == steps_view(steps@),
            names@.map_values(|x: &str| x@) == highlight_names(),
            lines.len() >= 1,
            (lines_view(lines@), active@, pending@, look) == feed_steps(initial_state(), sv.take(i as int)),
        decreases steps.len() - i,
    {
        let ghost st0 = (lines_view(lines@), active@, pending@, look);
        assert(sv.take(i + 1).drop_last() =~= sv.take(i as int));
        assert(sv.take(i + 1).last() == steps@[i as int]@);
        match &steps[i] {
            HighlightStep::Source(text) => {
                let cs = chars_of(text.as_str());
                let mut j: usize = 0;
                while j < cs.len()
                    invariant
                        j <= cs.len(),
                        names@.map_values(|x: &str| x@) == highlight_names(),
                        lines.len() >= 1,
                        (lines_view(lines@), active@, pending@, look) == feed_text(st0, cs@.take(j as int)),
                    decreases cs.len() - j,
                {
                    assert(cs@.take(j + 1).drop_last() =~= cs@.take(j as int));
                    let c = cs[j];
                    if c == '\n' {
                        let p = pending;
                        pending = String::new();
                        flush_exec(&mut lines, p, look);
                        look = style_for_active(&active, &names);
                        let ghost before = lines_view(lines@);
                        let fresh: Vec<Run> = Vec::new();
                        assert(runs_view(fresh@) =~= Seq::<RunView>::empty());
                        lines.push(fresh);
                        assert(lines_view(lines@) =~= before.push(Seq::<RunView>::empty()));
                    } else {
                        if pending.as_str().is_empty() {
                            look = style_for_active(&active, &names);
                        }
                        push_char(&mut pending, c);
                    }
                    j = j + 1;
                }
                assert(cs@.take(j as int) =~= text@);
            },
            HighlightStep::Start(h) => {
                let p = pending;
                pending = String::new();
                flush_exec(&mut lines, p, look);
                active.push(*h);
                look = style_for_active(&active, &names);
            },
            HighlightStep::End => {
                let p = pending;
                pending = String::new();
                flush_exec(&mut lines, p, look);
                let ghost a0 = active@;
                if active.len() > 0 {
                    active.pop();
                    assert(active@ =~= a0.drop_last());
                }
                look = style_for_active(&active, &names);
            },
        }
        i = i + 1;
    }
    assert(sv.take(i as int) =~= sv);
    flush_exec(&mut lines, pending, look);
    lines
}

} // verus!

verus! {

/// The languages that the highlighter is set up for.
#[derive(Clone, Copy, Debug, PartialEq, Eq, Structural)]
pub enum CodeLanguage {
    Rust,
    Python,
    JavaScript,
    TypeScript,
    Go,
}

/// The language a highlighting name stands for.
pub open spec fn code_language(lang: Seq<char>) -> Option<CodeLanguage> {
    if lang == "rust"@ {
        Some(CodeLanguage::Rust)
    } else if lang == "python"@ {
        Some(CodeLanguage::Python)
    } else if lang == "javascript"@ {
        Some(CodeLanguage::JavaScript)
    } else if lang == "typescript"@ {
        Some(CodeLanguage::TypeScript)
    } else if lang == "go"@ {
        Some(CodeLanguage::Go)
    } else {
        None
    }
}

/// The language a highlighting name stands for (see `code_language`).
pub fn code_language_of(lang: &str) -> (r: Option<CodeLanguage>)
    ensures
        r == code_language(lang@),
{
    if str_eq(lang, "rust") {
        Some(CodeLanguage::Rust)
    } else if str_eq(lang, "python") {
        Some(CodeLanguage::Python)
    } else if str_eq(lang, "javascript") {
        Some(CodeLanguage::JavaScript)
    } else if str_eq(lang, "typescript") {
        Some(CodeLanguage::TypeScript)
    } else if str_eq(lang, "go") {
        Some(CodeLanguage::Go)
    } else {
        None
    }
}

#[verifier::external_type_specification]
#[verifier::external_body]
pub struct ExHighlightConfiguration(tree_sitter_highlight::HighlightConfiguration);

/// A highlighting configuration for one language and list of capture names.
pub struct Highlighter {
    lang: CodeLanguage,
    names: Vec<&'static str>,
    config: tree_sitter_highlight::HighlightConfiguration,
}

impl Highlighter {
    /// The language this configuration is for.
    pub closed spec fn language(&self) -> CodeLanguage {
        self.lang
    }

    /// The capture names it was configured with.
    pub closed spec fn capture_list(&self) -> Seq<Seq<char>> {
        self.names@.map_values(|x: &str| x@)
    }
}

/// Whether tree-sitter-highlight accepts the grammar and queries of a language.
pub uninterp spec fn config_builds(lang: CodeLanguage) -> bool;

/// The events that tree-sitter-highlight yields for a source text, with a
/// configuration for `lang` and the capture names `names`, up to the first
/// error; `None` when it cannot start.
pub uninterp spec fn highlighted(lang: CodeLanguage, names: Seq<Seq<char>>, source: Seq<char>) -> Option<Seq<StepView>>;

/// Calls `HighlightConfiguration::new` with the grammar, name and queries
/// that the crate of `lang` ships, then `configure` with `names`.
/// Claimed: a configuration comes back exactly when `config_builds(lang)`,
/// and it is for `lang` and `names`.
#[verifier::external_body]
fn highlighter_for(lang: CodeLanguage, names: Vec<&'static str>) -> (r: Option<Highlighter>)
    ensures
        r is Some <==> config_builds(lang),
        r matches Some(h) ==> h.language() == lang && h.capture_list() == names@.map_values(|x: &str| x@),
{
    let (language, name, highlights, injections, locals): (tree_sitter::Language, &str, &str, &str, &str) = match lang {
        CodeLanguage::Rust => (tree_sitter_rust::LANGUAGE.into(), "rust", tree_sitter_rust::HIGHLIGHTS_QUERY, tree_sitter_rust::INJECTIONS_QUERY, ""),
        CodeLanguage::Python => (tree_sitter_python::LANGUAGE.into(), "python", tree_sitter_python::HIGHLIGHTS_QUERY, "", ""),
        CodeLanguage::JavaScript => (tree_sitter_javascript::LANGUAGE.into(), "javascript", tree_sitter_javascript::HIGHLIGHT_QUERY, tree_sitter_javascript::INJECTIONS_QUERY, tree_sitter_javascript::LOCALS_QUERY),
        CodeLanguage::TypeScript => (tree_sitter_typescript::LANGUAGE_TYPESCRIPT.into(), "typescript", tree_sitter_typescript::HIGHLIGHTS_QUERY, "", ""),
        CodeLanguage::Go => (tree_sitter_go::LANGUAGE.into(), "go", tree_sitter_go::HIGHLIGHTS_QUERY, "", ""),
    };
    let mut config = tree_sitter_highlight::HighlightConfiguration::new(language, name, highlights, injections, locals).ok()?;
    config.configure(&names);
    Some(Highlighter { lang, names, config })
}

/// Calls `Highlighter::highlight` with the configuration, the source's
/// bytes, no cancellation flag and no injected languages, and takes the
/// events up to the first error, each piece of source as its text.
/// Claimed: the result is `highlighted` of the configuration's language,
/// its capture names and the source.
#[verifier::external_body]
fn highlight_steps(h: &Highlighter, source: &str) -> (r: Option<Vec<HighlightStep>>)
    ensures
        r matches Some(v) ==> highlighted(h.language(), h.capture_list(), source@) == Some(steps_view(v@)),
        r is None ==> highlighted(h.language(), h.capture_list(), source@) is None,
{
    let mut highlighter = tree_sitter_highlight::Highlighter::new();
    let events = highlighter.highlight(&h.config, source.as_bytes(), None, |_| None).ok()?;
    Some(events.map_while(|e| e.ok()).map(|e| match e {
        tree_sitter_highlight::HighlightEvent::Source { start, end } => HighlightStep::Source(source[start..end].to_string()),
        tree_sitter_highlight::HighlightEvent::HighlightStart(c) => HighlightStep::Start(c.0),
        tree_sitter_highlight::HighlightEvent::HighlightEnd => HighlightStep::End,
    }).collect())
}

/// Every line of a text is one the plain tokenizer can colour.
pub open spec fn code_safe(content: Seq<char>) -> bool {
    forall|i: int| 0 <= i < lines_of(content).len() ==> fallback_safe(#[trigger] lines_of(content)[i])
}

/// Every line coloured without a grammar.
pub open spec fn fallback_lines(content: Seq<char>) -> Seq<Seq<RunView>> {
    lines_of(content).map_values(|l: Seq<char>| fallback_spec(l))
}

/// The rows of a piece of code: highlighted by tree-sitter when `lang` is
/// one it is set up for and both the configuration and the highlighting
/// succeed; else each line coloured without a grammar.
pub open spec fn code_lines(content: Seq<char>, lang: Seq<char>) -> Seq<Seq<RunView>> {
    match code_language(lang) {
        None => fallback_lines(content),
        Some(l) => if !config_builds(l) {
            fallback_lines(content)
        } else {
            match highlighted(l, highlight_names(), content) {
                None => fallback_lines(content),
                Some(steps) => step_lines(steps),
            }
        },
    }
}

/// Whether a piece of code is coloured line by line without a grammar:
/// `lang` has none here, or its configuration or the highlighting fails.
pub open spec fn uses_fallback(content: Seq<char>, lang: Seq<char>) -> bool {
    match code_language(lang) {
        None => true,
        Some(l) => !config_builds(l) || highlighted(l, highlight_names(), content) is None,
    }
}

/// A piece of code can be coloured: where no grammar colours it, every
/// line is one the plain tokenizer can colour.
pub open spec fn code_ok(content: Seq<char>, lang: Seq<char>) -> bool {
    uses_fallback(content, lang) ==> code_safe(content)
}

/// Whether every line of a text can be coloured without a grammar.
pub fn code_is_safe(content: &str) -> (r: bool)
    ensures
        r == code_safe(content@),
{
    let ls = text_lines(content);
    let mut i: usize = 0;
    while i < ls.len()
        invariant
            i <= ls.len(),
            char_views(ls@) == lines_of(content@),
            forall|k: int| 0 <= k < i ==> fallback_safe(#[trigger] lines_of(content@)[k]),
        decreases ls.len() - i,
    {
        let line = string_from_chars(&ls[i]);
        assert(line@ == lines_of(content@)[i as int]);
        if !fallback_line_safe(line.as_str()) {
            return false;
        }
        i = i + 1;
    }
    true
}

/// Each line coloured without a grammar (see `fallback_lines`).
fn fallback_all(content: &str) -> (r: Vec<Vec<Run>>)
    requires
        code_safe(content@),
    ensures
        lines_view(r@) == fallback_lines(content@),
{
    let ls = text_lines(content);
    let ghost target = fallback_lines(content@);
    let mut out: Vec<Vec<Run>> = Vec::new();
    let mut i: usize = 0;
    while i < ls.len()
        invariant
            i <= ls.len(),
            char_views(ls@) == lines_of(content@),
            code_safe(content@),
            target == fallback_lines(content@),
            lines_view(out@) == target.take(i as int),
        decreases ls.len() - i,
    {
        let line = string_from_chars(&ls[i]);
        assert(line@ == lines_of(content@)[i as int]);
        let row = fallback_line(line.as_str());
        let ghost before = lines_view(out@);
        out.push(row);
        assert(lines_view(out@) =~= before.push(runs_view(row@)));
        assert(target.take(i + 1) =~= target.take(i as int).push(target[i as int]));
        i = i + 1;
    }
    assert(target.take(i as int) =~= target);
    out
}

/// Whether a piece of code in a language can be coloured (see `code_ok`):
/// it tries the grammar as `code_line_spans` does.
pub fn code_can_draw(content: &str, lang: &str) -> (r: bool)
    ensures
        r == code_ok(content@, lang@),
{
    match code_language_of(lang) {
        None => code_is_safe(content),
        Some(l) => {
            let names = capture_names();
            match highlighter_for(l, names) {
                None => code_is_safe(content),
                Some(h) => match highlight_steps(&h, content) {
                    None => code_is_safe(content),
                    Some(_) => true,
                },
            }
        },
    }
}

/// The rows of a piece of code in a language (see `code_lines`).
pub fn code_line_spans(content: &str, lang: &str) -> (r: Vec<Vec<Run>>)
    requires
        code_ok(content@, lang@),
    ensures
        lines_view(r@) == code_lines(content@, lang@),
{
    match code_language_of(lang) {
        None => fallback_all(content),
        Some(l) => {
            let names = capture_names();
            match highlighter_for(l, names) {
                None => fallback_all(content),
                Some(h) => match highlight_steps(&h, content) {
                    None => fallback_all(content),
                    Some(steps) => lines_from_steps(&steps),
                },
            }
        },
    }
}

} // verus!
