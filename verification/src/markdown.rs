//! Rendering the Markdown that a model writes into styled rows.
use vstd::prelude::*;
use crate::text::ascii_lower;
use crate::style::Look;
use crate::style::Run;
use crate::style::RunView;
use crate::style::runs_view;
use crate::style::lines_view;
use crate::style::grouped;
use crate::style::chars_to_line;
use crate::style::merged;
use crate::style::merge_spans;
use crate::style::bold_look;
use crate::style::tone_look;
use crate::style::Tone;
use crate::wrap::char_from;
use vstd::utf8::encode_utf8;
use crate::text::chars_of;
use crate::text::strip_prefixes;
use crate::text::strip_prefixes_range;
use crate::text::string_from_chars;
use crate::text::push_str;
use crate::text::trim_str;
use crate::text::starts_with_str;
use crate::text::str_eq;
use crate::text::to_owned_string;
use crate::highlight::code_lines;
use crate::highlight::code_ok;
use crate::highlight::code_line_spans;
use crate::highlight::code_can_draw;
use crate::text::has_prefix;
use crate::text::is_whitespace;
use crate::text::trim;
use crate::text::trim_start;
use crate::text::trim_range;
use crate::text::string_from_range;
use crate::text::push_char;
use crate::wrap::char_views;
use crate::wrap::split_chars;
use crate::wrap::split_on;

verus! {

/// A line without the carriage return that ended it, if any.
pub open spec fn drop_cr(l: Seq<char>) -> Seq<char> {
    if l.len() > 0 && l.last() == '\r' {
        l.drop_last()
    } else {
        l
    }
}

/// The lines of a text, as `str::lines` gives them: split at `\n`, a `\r`
/// before a `\n` dropped, and no empty last line after a final `\n`.
pub open spec fn lines_of(s: Seq<char>) -> Seq<Seq<char>> {
    let p = split_on(s, '\n');
    let init = p.drop_last().map_values(|l: Seq<char>| drop_cr(l));
    if p.last().len() == 0 {
        init
    } else {
        init.push(p.last())
    }
}

/// `split_on` gives at least one piece.
pub proof fn lemma_split_nonempty(s: Seq<char>, c: char)
    ensures
        split_on(s, c).len() >= 1,
    decreases s.len(),
{
    reveal_with_fuel(split_on, 1);
}

/// The lines of a text (see `lines_of`).
pub fn text_lines(text: &str) -> (r: Vec<Vec<char>>)
    ensures
        char_views(r@) == lines_of(text@),
{
    let v = chars_of(text);
    let pieces = split_chars(&v, '\n');
    proof {
        lemma_split_nonempty(text@, '\n');
    }
    let ghost p = split_on(text@, '\n');
    let n = pieces.len();
    let mut out: Vec<Vec<char>> = Vec::new();
    let mut i: usize = 0;
    while i + 1 < n
        invariant
            n == pieces.len(),
            n >= 1,
            char_views(pieces@) == p,
            i < n,
            char_views(out@) == p.take(i as int).map_values(|l: Seq<char>| drop_cr(l)),
        decreases n - i,
    {
        let piece = &pieces[i];
        let k = piece.len();
        let mut line: Vec<char> = Vec::new();
        let stop = if k > 0 && piece[k - 1] == '\r' { k - 1 } else { k };
        let mut j: usize = 0;
        while j < stop
            invariant
                stop <= k == piece.len(),
                j <= stop,
                line@ == piece@.take(j as int),
            decreases stop - j,
        {
            line.push(piece[j]);
            j = j + 1;
        }
        proof {
            assert(piece@ == p[i as int]);
            assert(line@ =~= drop_cr(p[i as int]));
            assert(p.take(i + 1).map_values(|l: Seq<char>| drop_cr(l)) =~= p.take(i as int).map_values(
                |l: Seq<char>| drop_cr(l),
            ).push(drop_cr(p[i as int])));
        }
        out.push(line);
        proof {
            assert(char_views(out@) =~= p.take(i + 1).map_values(|l: Seq<char>| drop_cr(l)));
        }
        i = i + 1;
    }
    assert(p.take(i as int) =~= p.drop_last());
    let last = &pieces[n - 1];
    assert(last@ == p.last());
    if last.len() > 0 {
        let mut copy: Vec<char> = Vec::new();
        let mut j: usize = 0;
        while j < last.len()
            invariant
                j <= last.len(),
                copy@ == last@.take(j as int),
            decreases last.len() - j,
        {
            copy.push(last[j]);
            j = j + 1;
        }
        assert(copy@ =~= last@);
        let ghost before = char_views(out@);
        out.push(copy);
        assert(char_views(out@) =~= before.push(p.last()));
    }
    out
}

/// `s` equals `t` when ASCII letters are compared without case.
pub open spec fn eq_ignore_ascii_case(s: Seq<char>, t: Seq<char>) -> bool {
    s.len() == t.len() && forall|i: int| 0 <= i < s.len() ==> ascii_lower(s[i]) == ascii_lower(t[i])
}

/// The lower-case letter for an ASCII capital.
fn to_ascii_lower(c: char) -> (r: char)
    ensures
        r == ascii_lower(c),
{
    if 'A' <= c && c <= 'Z' {
        let b: u32 = (c as u32) + 32;
        let d: u8 = b as u8;
        assert(d as u32 == b);
        d as char
    } else {
        c
    }
}

/// Whether `s` equals `t` with ASCII letters compared without case.
pub fn chars_eq_ignore_case(s: &Vec<char>, t: &str) -> (r: bool)
    ensures
        r == eq_ignore_ascii_case(s@, t@),
{
    let u = chars_of(t);
    if s.len() != u.len() {
        return false;
    }
    let mut i: usize = 0;
    while i < s.len()
        invariant
            s.len() == u.len(),
            u@ == t@,
            i <= s.len(),
            forall|k: int| 0 <= k < i ==> ascii_lower(s@[k]) == ascii_lower(t@[k]),
        decreases s.len() - i,
    {
        if to_ascii_lower(s[i]) != to_ascii_lower(u[i]) {
            return false;
        }
        i = i + 1;
    }
    true
}

/// The language that a fence tag names, for highlighting.
pub open spec fn lang_of_tag(tag: Seq<char>) -> Seq<char> {
    let t = trim(tag);
    if eq_ignore_ascii_case(t, "rust"@) || t == "rs"@ {
        "rust"@
    } else if eq_ignore_ascii_case(t, "python"@) || t == "py"@ {
        "python"@
    } else if eq_ignore_ascii_case(t, "javascript"@) || t == "js"@ {
        "javascript"@
    } else if eq_ignore_ascii_case(t, "typescript"@) || t == "ts"@ {
        "typescript"@
    } else if eq_ignore_ascii_case(t, "go"@) {
        "go"@
    } else if t.len() == 0 || t == "toml"@ || t == "json"@ || t == "bash"@ || t == "sh"@ || t == "shell"@ {
        "text"@
    } else {
        t
    }
}

/// The language that a fence tag names (see `lang_of_tag`).
pub fn lang_from_tag(tag: &str) -> (r: String)
    ensures
        r@ == lang_of_tag(tag@),
{
    let v = chars_of(tag);
    let (a, b) = trim_range(&v, 0, v.len());
    assert(v@.subrange(0, v@.len() as int) =~= v@);
    let t = string_from_range(&v, a, b);
    let tv = chars_of(t.as_str());
    let s = t.as_str();
    if chars_eq_ignore_case(&tv, "rust") || crate::text::str_eq(s, "rs") {
        String::from_str("rust")
    } else if chars_eq_ignore_case(&tv, "python") || crate::text::str_eq(s, "py") {
        String::from_str("python")
    } else if chars_eq_ignore_case(&tv, "javascript") || crate::text::str_eq(s, "js") {
        String::from_str("javascript")
    } else if chars_eq_ignore_case(&tv, "typescript") || crate::text::str_eq(s, "ts") {
        String::from_str("typescript")
    } else if chars_eq_ignore_case(&tv, "go") {
        String::from_str("go")
    } else if tv.len() == 0 || crate::text::str_eq(s, "toml") || crate::text::str_eq(s, "json")
        || crate::text::str_eq(s, "bash") || crate::text::str_eq(s, "sh") || crate::text::str_eq(s, "shell") {
        String::from_str("text")
    } else {
        t
    }
}

} // verus!

verus! {

/// The characters of runs, each with the look of its run.
pub open spec fn flat_runs(s: Seq<RunView>) -> Seq<(char, Look)>
    decreases s.len(),
{
    if s.len() == 0 {
        Seq::empty()
    } else {
        flat_runs(s.drop_last()) + s.last().0.map_values(|c: char| (c, s.last().1))
    }
}

/// Characters cut into rows: a newline ends a row and is dropped, a row
/// that holds `w` characters is ended before the next one, and a last
/// row is kept only if it holds a character.
pub open spec fn cut_rows(cs: Seq<(char, Look)>, w: nat, cur: Seq<(char, Look)>) -> Seq<Seq<(char, Look)>>
    decreases cs.len(),
{
    if cs.len() == 0 {
        if cur.len() > 0 {
            seq![cur]
        } else {
            Seq::empty()
        }
    } else if cs[0].0 == '\n' {
        seq![cur] + cut_rows(cs.drop_first(), w, Seq::empty())
    } else if cur.len() >= w && cur.len() > 0 {
        seq![cur] + cut_rows(cs.drop_first(), w, seq![cs[0]])
    } else {
        cut_rows(cs.drop_first(), w, cur.push(cs[0]))
    }
}

/// The views of rows of characters.
pub open spec fn row_views(v: Seq<Vec<(char, Look)>>) -> Seq<Seq<(char, Look)>> {
    v.map_values(|r: Vec<(char, Look)>| r@)
}

/// Runs wrapped into rows of at most `width` characters (at least one),
/// each row grouped into runs of one look.
pub open spec fn wrapped_runs(s: Seq<RunView>, width: nat) -> Seq<Seq<RunView>> {
    cut_rows(flat_runs(s), if width < 1 { 1 } else { width }, Seq::empty()).map_values(
        |row: Seq<(char, Look)>| grouped(row),
    )
}

/// The characters of runs with their looks (see `flat_runs`).
fn flatten_runs(spans: &Vec<Run>) -> (r: Vec<(char, Look)>)
    ensures
        r@ == flat_runs(runs_view(spans@)),
{
    let ghost rv = runs_view(spans@);
    let mut flat: Vec<(char, Look)> = Vec::new();
    let mut i: usize = 0;
    while i < spans.len()
        invariant
            i <= spans.len(),
            rv == runs_view(spans@),
            flat@ == flat_runs(rv.take(i as int)),
        decreases spans.len() - i,
    {
        let cs = chars_of(spans[i].text.as_str());
        let lk = spans[i].look;
        let ghost base = flat@;
        let mut j: usize = 0;
        while j < cs.len()
            invariant
                j <= cs.len(),
                flat@ == base + cs@.take(j as int).map_values(|c: char| (c, lk)),
            decreases cs.len() - j,
        {
            flat.push((cs[j], lk));
            proof {
                assert(cs@.take(j + 1).map_values(|c: char| (c, lk)) =~= cs@.take(j as int).map_values(
                    |c: char| (c, lk),
                ).push((cs@[j as int], lk)));
            }
            j = j + 1;
        }
        proof {
            assert(cs@.take(j as int) =~= cs@);
            assert(rv.take(i + 1).drop_last() =~= rv.take(i as int));
            assert(rv.take(i + 1).last() == rv[i as int]);
            assert(rv[i as int] == (cs@, lk));
        }
        i = i + 1;
    }
    assert(rv.take(i as int) =~= rv);
    flat
}

/// Cuts characters into rows (see `cut_rows`).
fn cut_flat(flat: &Vec<(char, Look)>, w: usize) -> (r: Vec<Vec<(char, Look)>>)
    requires
        w >= 1,
    ensures
        row_views(r@) == cut_rows(flat@, w as nat, Seq::empty()),
{
    let mut rows: Vec<Vec<(char, Look)>> = Vec::new();
    let mut cur: Vec<(char, Look)> = Vec::new();
    let mut k: usize = 0;
    proof {
        assert(row_views(rows@) =~= Seq::<Seq<(char, Look)>>::empty());
        assert(flat@.skip(0) =~= flat@);
        assert(cur@ =~= Seq::<(char, Look)>::empty());
        assert(row_views(rows@) + cut_rows(flat@.skip(0), w as nat, cur@) =~= cut_rows(flat@, w as nat, cur@));
    }
    while k < flat.len()
        invariant
            k <= flat.len(),
            row_views(rows@) + cut_rows(flat@.skip(k as int), w as nat, cur@) == cut_rows(
                flat@,
                w as nat,
                Seq::empty(),
            ),
        decreases flat.len() - k,
    {
        let ghost rest = flat@.skip(k as int);
        assert(rest[0] == flat@[k as int]);
        assert(rest.drop_first() =~= flat@.skip(k + 1));
        let (ch, lk) = flat[k];
        let ghost before = row_views(rows@);
        if ch == '\n' {
            let done = cur;
            cur = Vec::new();
            rows.push(done);
            proof {
                assert(row_views(rows@) =~= before.push(done@));
                assert(before + (seq![done@] + cut_rows(flat@.skip(k + 1), w as nat, cur@)) =~= before.push(
                    done@,
                ) + cut_rows(flat@.skip(k + 1), w as nat, cur@));
            }
        } else if cur.len() >= w && cur.len() > 0 {
            let done = cur;
            cur = Vec::new();
            cur.push((ch, lk));
            rows.push(done);
            proof {
                assert(cur@ =~= seq![(ch, lk)]);
                assert(row_views(rows@) =~= before.push(done@));
                assert(before + (seq![done@] + cut_rows(flat@.skip(k + 1), w as nat, cur@)) =~= before.push(
                    done@,
                ) + cut_rows(flat@.skip(k + 1), w as nat, cur@));
            }
        } else {
            cur.push((ch, lk));
        }
        k = k + 1;
    }
    assert(flat@.skip(k as int) =~= Seq::<(char, Look)>::empty());
    if cur.len() > 0 {
        let ghost before = row_views(rows@);
        rows.push(cur);
        assert(row_views(rows@) =~= before + cut_rows(flat@.skip(k as int), w as nat, Seq::empty()).take(0) + seq![
            rows@.last()@]);
    } else {
        assert(row_views(rows@) + Seq::<Seq<(char, Look)>>::empty() =~= row_views(rows@));
    }
    rows
}

/// Wraps runs into rows of at most `width` characters (at least one),
/// cutting at any character; a newline ends a row.
pub fn wrap_spans(spans: Vec<Run>, width: usize) -> (r: Vec<Vec<Run>>)
    ensures
        lines_view(r@) == wrapped_runs(runs_view(spans@), width as nat),
{
    let w = if width < 1 { 1 } else { width };
    let flat = flatten_runs(&spans);
    let rows = cut_flat(&flat, w);
    let ghost target = cut_rows(flat@, w as nat, Seq::empty()).map_values(|row: Seq<(char, Look)>| grouped(row));
    let mut out: Vec<Vec<Run>> = Vec::new();
    let mut i: usize = 0;
    while i < rows.len()
        invariant
            i <= rows.len(),
            row_views(rows@) == cut_rows(flat@, w as nat, Seq::empty()),
            target == cut_rows(flat@, w as nat, Seq::empty()).map_values(|row: Seq<(char, Look)>| grouped(row)),
            lines_view(out@) == target.take(i as int),
        decreases rows.len() - i,
    {
        let line = chars_to_line(&rows[i]);
        let ghost before = lines_view(out@);
        out.push(line);
        proof {
            assert(rows@[i as int]@ == row_views(rows@)[i as int]);
            assert(lines_view(out@) =~= before.push(runs_view(line@)));
            assert(target.take(i + 1) =~= target.take(i as int).push(target[i as int]));
        }
        i = i + 1;
    }
    assert(target.take(i as int) =~= target);
    out
}

} // verus!

verus! {

/// The position of the first character at or after `i` that is not `#`.
pub open spec fn hash_run(s: Seq<char>, i: int) -> int
    decreases s.len() - i,
{
    if 0 <= i < s.len() && s[i] == '#' {
        hash_run(s, i + 1)
    } else {
        i
    }
}

proof fn lemma_hash_run_ge(s: Seq<char>, i: int)
    ensures
        hash_run(s, i) >= i,
    decreases s.len() - i,
{
    if 0 <= i < s.len() && s[i] == '#' {
        lemma_hash_run_ge(s, i + 1);
    }
}

/// A header line: one to six `#`, a space, and the title, trimmed.
pub open spec fn header_of(s: Seq<char>) -> Option<(u8, Seq<char>)> {
    let n = hash_run(s, 0);
    if 1 <= n <= 6 && n < s.len() && s[n] == ' ' {
        Some((n as u8, trim(s.skip(n))))
    } else {
        None
    }
}

/// The level and title of a header line (see `header_of`).
pub fn parse_header(line: &str) -> (r: Option<(u8, &str)>)
    ensures
        r matches Some((l, t)) ==> header_of(line@) == Some((l, t@)),
        r is None ==> header_of(line@) is None,
{
    let v = chars_of(line);
    let mut i: usize = 0;
    while i < v.len() && v[i] == '#' && i < 7
        invariant
            i <= v.len(),
            i <= 7,
            hash_run(v@, 0) == hash_run(v@, i as int),
        decreases v.len() - i,
    {
        i = i + 1;
    }
    proof {
        lemma_hash_run_ge(v@, i as int);
    }
    if 1 <= i && i <= 6 && i < v.len() && v[i] == ' ' {
        let (a, b) = trim_range(&v, i, v.len());
        assert(v@.subrange(i as int, v@.len() as int) =~= v@.skip(i as int));
        let t = line.substring_char(a, b);
        Some((i as u8, t))
    } else {
        None
    }
}

/// An ASCII digit.
pub open spec fn is_digit(c: char) -> bool {
    '0' <= c && c <= '9'
}

/// A numbered list item: after leading whitespace, one or more digits, a
/// dot and a space or tab; the number with its dot, and the rest with its
/// leading whitespace removed.
pub open spec fn ordered_of(s: Seq<char>) -> Option<(Seq<char>, Seq<char>)> {
    let t = trim_start(s);
    match char_from(t, '.', 0) {
        None => None,
        Some(d) => if d == 0 {
            None
        } else if !(forall|k: int| 0 <= k < d ==> is_digit(#[trigger] t[k])) {
            None
        } else if !(d + 1 < t.len() && (t[d + 1] == ' ' || t[d + 1] == '\t')) {
            None
        } else {
            Some((t.take(d + 1), trim_start(t.skip(d + 1))))
        },
    }
}

/// The first position of `c` in `v` at or after `i`.
fn find_char_from(v: &Vec<char>, c: char, i: usize) -> (r: Option<usize>)
    requires
        i <= v.len(),
    ensures
        r matches Some(k) ==> char_from(v@, c, i as int) == Some(k as int) && i <= k < v.len() && v@[k as int] == c,
        r is None ==> char_from(v@, c, i as int) is None,
{
    let mut j = i;
    while j < v.len()
        invariant
            i <= j <= v.len(),
            char_from(v@, c, i as int) == char_from(v@, c, j as int),
        decreases v.len() - j,
    {
        if v[j] == c {
            return Some(j);
        }
        j = j + 1;
    }
    None
}

/// The start of `v[lo..]` after its leading whitespace.
fn skip_ws(v: &Vec<char>, lo: usize) -> (r: usize)
    requires
        lo <= v.len(),
    ensures
        lo <= r <= v.len(),
        v@.skip(r as int) == trim_start(v@.skip(lo as int)),
{
    let mut a = lo;
    while a < v.len() && is_whitespace(v[a])
        invariant
            lo <= a <= v.len(),
            trim_start(v@.skip(lo as int)) == trim_start(v@.skip(a as int)),
        decreases v.len() - a,
    {
        assert(v@.skip(a as int).drop_first() =~= v@.skip(a + 1));
        a = a + 1;
    }
    a
}

/// The number and the content of a numbered list item (see `ordered_of`).
pub fn parse_ordered_item(line: &str) -> (r: Option<(&str, &str)>)
    ensures
        r matches Some((n, c)) ==> ordered_of(line@) == Some((n@, c@)),
        r is None ==> ordered_of(line@) is None,
{
    let v = chars_of(line);
    let a = skip_ws(&v, 0);
    assert(v@.skip(0) =~= v@);
    let ghost t = trim_start(line@);
    assert(t =~= v@.skip(a as int));
    let dot = match find_char_from(&v, '.', a) {
        Some(d) => d,
        None => {
            proof {
                lemma_char_from_shift(v@, '.', a as int, a as int);
                assert(char_from(t, '.', 0) is None);
            }
            return None;
        },
    };
    proof {
        lemma_char_from_shift(v@, '.', a as int, a as int);
        assert(char_from(v@, '.', a as int) == Some(dot as int));
        assert(v@.skip(a as int) == t);
        assert(char_from(t, '.', 0) == Some(dot - a));
    }
    if dot == a {
        return None;
    }
    let mut k = a;
    while k < dot
        invariant
            a < dot < v.len(),
            a <= k <= dot,
            t == v@.skip(a as int),
            t == trim_start(line@),
            char_from(t, '.', 0) == Some(dot - a),
            forall|m: int| a <= m < k ==> is_digit(v@[m]),
        decreases dot - k,
    {
        if !('0' <= v[k] && v[k] <= '9') {
            proof {
                assert(t[k - a] == v@[k as int]);
                assert(!is_digit(t[k - a]));
            }
            return None;
        }
        k = k + 1;
    }
    assert(forall|m: int| 0 <= m < dot - a ==> is_digit(#[trigger] t[m]) && t[m] == v@[m + a]);
    if !(dot + 1 < v.len() && (v[dot + 1] == ' ' || v[dot + 1] == '\t')) {
        proof {
            if dot + 1 < v.len() {
                assert(t[dot + 1 - a] == v@[dot + 1]);
            }
        }
        return None;
    }
    let c = skip_ws(&v, dot + 1);
    assert(t.skip(dot + 1 - a) =~= v@.skip(dot + 1));
    assert(t.take(dot + 1 - a) =~= v@.subrange(a as int, dot + 1));
    Some((line.substring_char(a, dot + 1), line.substring_char(c, v.len())))
}

/// Where `c` first occurs in the suffix of `s` from `a` is where it first
/// occurs in `s` from `a`, shifted.
proof fn lemma_char_from_shift(s: Seq<char>, c: char, a: int, k: int)
    requires
        0 <= a <= k <= s.len(),
    ensures
        char_from(s, c, k) == (match char_from(s.skip(a), c, k - a) {
            Some(j) => Some(j + a),
            None => None::<int>,
        }),
    decreases s.len() - k,
{
    if k < s.len() && s[k] != c {
        lemma_char_from_shift(s, c, a, k + 1);
    }
}

/// A bulleted list item: after leading whitespace, `* ` or `- `; the width
/// of that whitespace in UTF-8 bytes, and the rest of the line.
pub open spec fn bullet_of(s: Seq<char>) -> Option<(int, Seq<char>)> {
    let t = trim_start(s);
    let indent = encode_utf8(s).len() - encode_utf8(t).len();
    if has_prefix(t, "* "@) || has_prefix(t, "- "@) {
        Some((indent, t.skip(2)))
    } else {
        None
    }
}

/// A suffix encodes to no more bytes than the whole.
proof fn lemma_encode_skip(s: Seq<char>, k: int)
    requires
        0 <= k <= s.len(),
    ensures
        encode_utf8(s.skip(k)).len() <= encode_utf8(s).len(),
    decreases k,
{
    if k == 0 {
        assert(s.skip(0) =~= s);
    } else {
        lemma_encode_skip(s, k - 1);
        assert(s.skip(k - 1).drop_first() =~= s.skip(k));
    }
}

/// The indent and the content of a bulleted list item (see `bullet_of`).
pub fn parse_bullet_item(line: &str) -> (r: Option<(usize, &str)>)
    ensures
        r matches Some((n, c)) ==> bullet_of(line@) == Some((n as int, c@)),
        r is None ==> bullet_of(line@) is None,
{
    let v = chars_of(line);
    let a = skip_ws(&v, 0);
    assert(v@.skip(0) =~= v@);
    let t = line.substring_char(a, v.len());
    assert(t@ =~= trim_start(line@));
    proof {
        lemma_encode_skip(line@, a as int);
        reveal_strlit("* ");
        reveal_strlit("- ");
    }
    let n = v.len();
    let starred = a < n && n - a >= 2 && v[a] == '*' && v[a + 1] == ' ';
    let dashed = a < n && n - a >= 2 && v[a] == '-' && v[a + 1] == ' ';
    proof {
        if has_prefix(t@, "* "@) {
            assert(t@[0] == "* "@[0] && t@[1] == "* "@[1]);
        }
        if has_prefix(t@, "- "@) {
            assert(t@[0] == "- "@[0] && t@[1] == "- "@[1]);
        }
        if starred {
            assert(t@.subrange(0, 2) =~= "* "@);
        }
        if dashed {
            assert(t@.subrange(0, 2) =~= "- "@);
        }
    }
    if starred || dashed {
        let total = line.as_bytes().len();
        let rest = t.as_bytes().len();
        let indent = total - rest;
        assert(t@.skip(2) =~= v@.skip(a + 2));
        Some((indent, line.substring_char(a + 2, n)))
    } else {
        None
    }
}

} // verus!

verus! {

/// The position of the first backtick at or after `i`, or the length.
pub open spec fn tick_end(cs: Seq<char>, i: int) -> int
    decreases cs.len() - i,
{
    if i >= cs.len() {
        cs.len() as int
    } else if cs[i] == '`' {
        i
    } else {
        tick_end(cs, i + 1)
    }
}

/// The first position at or after `i` where `**` begins.
pub open spec fn bold_end(cs: Seq<char>, i: int) -> Option<int>
    decreases cs.len() - i,
{
    if i + 1 >= cs.len() {
        None
    } else if cs[i] == '*' && cs[i + 1] == '*' {
        Some(i)
    } else {
        bold_end(cs, i + 1)
    }
}

/// A character that ends plain text: a backslash, a backtick, or the start of `**`.
pub open spec fn stops_plain(cs: Seq<char>, k: int) -> bool {
    cs[k] == '\\' || cs[k] == '`' || (k + 1 < cs.len() && cs[k] == '*' && cs[k + 1] == '*')
}

/// The end of the plain text that starts at `i`.
pub open spec fn plain_end(cs: Seq<char>, i: int) -> int
    decreases cs.len() - i,
{
    if i >= cs.len() {
        cs.len() as int
    } else if stops_plain(cs, i) {
        i
    } else {
        plain_end(cs, i + 1)
    }
}

/// The look of inline code.
pub open spec fn code_look() -> Look {
    tone_look(Tone::Rgb(152, 195, 151))
}

/// The run that begins at `i` and the position after it: an escaped
/// character; code between backticks; bold text between `**` pairs (an
/// unclosed one takes the rest but its last character); or plain text.
pub open spec fn inline_step(cs: Seq<char>, i: int, base: Look) -> (RunView, int) {
    if cs[i] == '\\' && i + 1 < cs.len() {
        ((seq![cs[i + 1]], base), i + 2)
    } else if cs[i] == '`' {
        let k = tick_end(cs, i + 1);
        ((cs.subrange(i + 1, k), code_look()), if k < cs.len() { k + 1 } else { cs.len() as int })
    } else if i + 1 < cs.len() && cs[i] == '*' && cs[i + 1] == '*' {
        match bold_end(cs, i + 2) {
            Some(k) => ((cs.subrange(i + 2, k), bold_look(base)), k + 2),
            None => {
                let stop = if i + 2 < cs.len() { cs.len() - 1 } else { cs.len() as int };
                ((cs.subrange(i + 2, stop), bold_look(base)), cs.len() as int)
            },
        }
    } else {
        let k = plain_end(cs, i);
        ((cs.subrange(i, k), base), k)
    }
}

/// The runs of inline Markdown from position `i`, before merging.
pub open spec fn inline_runs(cs: Seq<char>, i: int, base: Look) -> Seq<RunView>
    decreases cs.len() - i,
{
    if i < 0 || i >= cs.len() {
        Seq::empty()
    } else {
        let (r, n) = inline_step(cs, i, base);
        if n <= i || n > cs.len() {
            Seq::empty()
        } else {
            seq![r] + inline_runs(cs, n, base)
        }
    }
}

/// The scan of inline Markdown from `i` moves on at every step: it never
/// stops at a backslash that is the last character.
pub open spec fn inline_ok(cs: Seq<char>, i: int) -> bool
    decreases cs.len() - i,
{
    if i < 0 || i >= cs.len() {
        true
    } else {
        let (r, n) = inline_step(cs, i, Look { fg: Tone::Unset, bold: false, italic: false });
        if n <= i || n > cs.len() {
            false
        } else {
            inline_ok(cs, n)
        }
    }
}

/// The runs of inline Markdown: `code` in the code look, `**bold**` in
/// `base` made bold, `\x` as `x`, the rest in `base`; then merged.
pub open spec fn inline_spec(cs: Seq<char>, base: Look) -> Seq<RunView> {
    merged(inline_runs(cs, 0, base))
}

fn find_tick(cs: &Vec<char>, from: usize) -> (r: usize)
    requires
        from <= cs.len(),
    ensures
        r as int == tick_end(cs@, from as int),
        from <= r <= cs.len(),
{
    let mut j = from;
    while j < cs.len() && cs[j] != '`'
        invariant
            from <= j <= cs.len(),
            tick_end(cs@, from as int) == tick_end(cs@, j as int),
        decreases cs.len() - j,
    {
        j = j + 1;
    }
    j
}

fn find_bold(cs: &Vec<char>, from: usize) -> (r: Option<usize>)
    requires
        from <= cs.len(),
    ensures
        r matches Some(k) ==> bold_end(cs@, from as int) == Some(k as int) && from <= k && k + 1 < cs.len(),
        r is None ==> bold_end(cs@, from as int) is None,
{
    let mut j = from;
    while j < cs.len() && j + 1 < cs.len()
        invariant
            from <= j <= cs.len(),
            bold_end(cs@, from as int) == bold_end(cs@, j as int),
        decreases cs.len() - j,
    {
        if cs[j] == '*' && cs[j + 1] == '*' {
            return Some(j);
        }
        j = j + 1;
    }
    None
}

fn find_plain_end(cs: &Vec<char>, from: usize) -> (r: usize)
    requires
        from <= cs.len(),
    ensures
        r as int == plain_end(cs@, from as int),
        from <= r <= cs.len(),
{
    let mut j = from;
    while j < cs.len()
        invariant
            from <= j <= cs.len(),
            plain_end(cs@, from as int) == plain_end(cs@, j as int),
        decreases cs.len() - j,
    {
        if cs[j] == '\\' || cs[j] == '`' || (j + 1 < cs.len() && cs[j] == '*' && cs[j + 1] == '*') {
            return j;
        }
        j = j + 1;
    }
    j
}

/// The inline step `inline_ok` takes does not depend on the look.
proof fn lemma_step_next(cs: Seq<char>, i: int, base: Look)
    requires
        0 <= i < cs.len(),
    ensures
        inline_step(cs, i, base).1 == inline_step(cs, i, Look { fg: Tone::Unset, bold: false, italic: false }).1,
{
}

/// Parses inline Markdown into runs (see `inline_spec`).
pub fn parse_inline(text: &str, base: Look) -> (r: Vec<Run>)
    requires
        inline_ok(text@, 0),
    ensures
        runs_view(r@) == inline_spec(text@, base),
{
    let cs = chars_of(text);
    let n = cs.len();
    let mut spans: Vec<Run> = Vec::new();
    let mut i: usize = 0;
    assert(runs_view(spans@) + inline_runs(cs@, 0, base) =~= inline_runs(cs@, 0, base));
    while i < n
        invariant
            n == cs.len(),
            cs@ == text@,
            i <= n,
            inline_ok(cs@, i as int),
            runs_view(spans@) + inline_runs(cs@, i as int, base) == inline_runs(cs@, 0, base),
        decreases n - i,
    {
        let ghost step = inline_step(cs@, i as int, base);
        proof {
            lemma_step_next(cs@, i as int, base);
        }
        let ghost before = runs_view(spans@);
        let next: usize;
        if cs[i] == '\\' && i + 1 < n {
            let mut t = String::new();
            push_char(&mut t, cs[i + 1]);
            assert(t@ =~= seq![cs@[i + 1]]);
            spans.push(Run::new(t, base));
            next = i + 2;
        } else if cs[i] == '`' {
            let k = find_tick(&cs, i + 1);
            let t = string_from_range(&cs, i + 1, k);
            spans.push(Run::new(t, Look { fg: Tone::Rgb(152, 195, 151), bold: false, italic: false }));
            next = if k < n { k + 1 } else { n };
        } else if i + 1 < n && cs[i] == '*' && cs[i + 1] == '*' {
            match find_bold(&cs, i + 2) {
                Some(k) => {
                    let t = string_from_range(&cs, i + 2, k);
                    spans.push(Run::new(t, base.bolded()));
                    next = k + 2;
                },
                None => {
                    let stop = if i + 2 < n { n - 1 } else { n };
                    let t = string_from_range(&cs, i + 2, stop);
                    spans.push(Run::new(t, base.bolded()));
                    next = n;
                },
            }
        } else {
            let k = find_plain_end(&cs, i);
            let t = string_from_range(&cs, i, k);
            spans.push(Run::new(t, base));
            next = k;
        }
        proof {
            assert(step.1 == next as int);
            assert(runs_view(spans@) =~= before.push(step.0));
            assert(inline_runs(cs@, i as int, base) == seq![step.0] + inline_runs(cs@, next as int, base));
            assert(before + (seq![step.0] + inline_runs(cs@, next as int, base)) =~= before.push(step.0)
                + inline_runs(cs@, next as int, base));
        }
        i = next;
    }
    assert(inline_runs(cs@, i as int, base) =~= Seq::<RunView>::empty());
    assert(runs_view(spans@) + Seq::<RunView>::empty() =~= runs_view(spans@));
    merge_spans(&spans)
}

} // verus!

verus! {

/// Adds rows at the end of `out`.
pub fn append_rows(out: &mut Vec<Vec<Run>>, rows: Vec<Vec<Run>>)
    ensures
        lines_view(final(out)@) == lines_view(old(out)@) + lines_view(rows@),
{
    let mut rows = rows;
    let ghost a = out@;
    let ghost b = rows@;
    out.append(&mut rows);
    assert(lines_view(out@) =~= lines_view(a) + lines_view(b));
}

/// The look of the frame round a code block.
pub open spec fn border_look() -> Look {
    tone_look(Tone::Rgb(60, 60, 80))
}

/// Code rows, each behind the frame's side and wrapped to the width.
pub open spec fn framed_rows(rows: Seq<Seq<RunView>>, width: nat) -> Seq<Seq<RunView>>
    decreases rows.len(),
{
    if rows.len() == 0 {
        Seq::empty()
    } else {
        framed_rows(rows.drop_last(), width) + wrapped_runs(seq![("  │ "@, border_look())] + rows.last(), width)
    }
}

/// A code block: the frame's top, the code rows in their frame, the frame's bottom.
pub open spec fn code_block_rows(body: Seq<char>, tag: Seq<char>, width: nat) -> Seq<Seq<RunView>> {
    seq![seq![("  ┌─ code "@, border_look())]] + framed_rows(code_lines(body, lang_of_tag(tag)), width) + seq![
        seq![("  └─"@, border_look())]]
}

/// A row of one run.
fn single_row(text: &str, look: Look) -> (r: Vec<Run>)
    ensures
        runs_view(r@) == seq![(text@, look)],
{
    let mut row: Vec<Run> = Vec::new();
    row.push(Run::of(text, look));
    assert(runs_view(row@) =~= seq![(text@, look)]);
    row
}

/// Renders a fenced code block (see `code_block_rows`).
pub fn render_code_block(body: &str, lang: &str, width: usize) -> (r: Vec<Vec<Run>>)
    requires
        code_ok(body@, lang_of_tag(lang@)),
    ensures
        lines_view(r@) == code_block_rows(body@, lang@, width as nat),
{
    let border = Look { fg: Tone::Rgb(60, 60, 80), bold: false, italic: false };
    let tag = lang_from_tag(lang);
    let rows = code_line_spans(body, tag.as_str());
    let mut out: Vec<Vec<Run>> = Vec::new();
    out.push(single_row("  ┌─ code ", border));
    let ghost head = lines_view(out@);
    assert(head =~= seq![seq![("  ┌─ code "@, border_look())]]);
    let ghost rv = lines_view(rows@);
    let mut i: usize = 0;
    assert(rv.take(0) =~= Seq::<Seq<RunView>>::empty());
    assert(head + framed_rows(rv.take(0), width as nat) =~= head);
    while i < rows.len()
        invariant
            i <= rows.len(),
            rv == lines_view(rows@),
            border == border_look(),
            lines_view(out@) == head + framed_rows(rv.take(i as int), width as nat),
        decreases rows.len() - i,
    {
        let mut spans: Vec<Run> = Vec::new();
        let side = Run::of("  │ ", border);
        spans.push(side);
        let mut k: usize = 0;
        assert(border == border_look());
        assert(runs_view(spans@) =~= seq![side@]);
        assert(runs_view(rows@[i as int]@).take(0) =~= Seq::<RunView>::empty());
        assert(runs_view(spans@) =~= seq![("  │ "@, border_look())] + runs_view(rows@[i as int]@).take(0));
        while k < rows[i].len()
            invariant
                k <= rows@[i as int].len(),
                i < rows.len(),
                border == border_look(),
                runs_view(spans@) == seq![("  │ "@, border_look())] + runs_view(rows@[i as int]@).take(k as int),
            decreases rows@[i as int].len() - k,
        {
            let r = Run::of(rows[i][k].text.as_str(), rows[i][k].look);
            let ghost before = runs_view(spans@);
            spans.push(r);
            assert(runs_view(spans@) =~= before.push(r@));
            assert(runs_view(rows@[i as int]@).take(k + 1) =~= runs_view(rows@[i as int]@).take(k as int).push(
                rows@[i as int]@[k as int]@,
            ));
            k = k + 1;
        }
        assert(runs_view(rows@[i as int]@).take(k as int) =~= rv[i as int]);
        let wrapped = wrap_spans(spans, width);
        append_rows(&mut out, wrapped);
        assert(rv.take(i + 1).drop_last() =~= rv.take(i as int));
        i = i + 1;
    }
    assert(rv.take(i as int) =~= rv);
    let last_row = single_row("  └─", border);
    let mut tail: Vec<Vec<Run>> = Vec::new();
    tail.push(last_row);
    assert(lines_view(tail@) =~= seq![seq![("  └─"@, border_look())]]);
    append_rows(&mut out, tail);
    out
}

} // verus!

verus! {

/// `n` spaces.
pub open spec fn spaces(n: nat) -> Seq<char> {
    Seq::new(n, |_i: int| ' ')
}

/// The look of a header's title: bold, coloured by its level.
pub open spec fn header_look(level: u8) -> Look {
    Look {
        fg: if level == 1 {
            Tone::Rgb(229, 192, 123)
        } else if level == 2 {
            Tone::Rgb(97, 175, 239)
        } else {
            Tone::Rgb(198, 120, 221)
        },
        bold: true,
        italic: false,
    }
}

/// The look of a list item's number.
pub open spec fn number_prefix_look() -> Look {
    tone_look(Tone::Rgb(209, 154, 102))
}

/// The look of a list item's bullet.
pub open spec fn bullet_prefix_look() -> Look {
    tone_look(Tone::Rgb(97, 175, 239))
}

/// A line that opens a code block: after trimming, it starts with three backticks.
pub open spec fn is_fence(line: Seq<char>) -> bool {
    has_prefix(trim(line), "```"@)
}

/// The language tag of a fence line.
pub open spec fn fence_tag(line: Seq<char>) -> Seq<char> {
    trim(strip_prefixes(trim(line), "```"@))
}

/// The first line at or after `j` that, trimmed, is three backticks; or the end.
pub open spec fn fence_close(ls: Seq<Seq<char>>, j: int) -> int
    decreases ls.len() - j,
{
    if j >= ls.len() {
        ls.len() as int
    } else if trim(ls[j]) == "```"@ {
        j
    } else {
        fence_close(ls, j + 1)
    }
}

/// The lines of a code block joined: each after the first text begins
/// is put on a new line; empty lines before any text are dropped.
pub open spec fn body_join(ls: Seq<Seq<char>>) -> Seq<char>
    decreases ls.len(),
{
    if ls.len() == 0 {
        Seq::empty()
    } else {
        let a = body_join(ls.drop_last());
        if a.len() > 0 {
            a + seq!['\n'] + ls.last()
        } else {
            ls.last()
        }
    }
}

/// The rows of one line that is neither a fence nor blank: a header, a
/// numbered item, a bulleted item, or a paragraph line.
pub open spec fn line_rows(line: Seq<char>, base: Look, width: nat) -> Seq<Seq<RunView>> {
    match header_of(line) {
        Some((lv, title)) => wrapped_runs(inline_spec(title, header_look(lv)), width),
        None => match ordered_of(line) {
            Some((num, content)) => wrapped_runs(
                seq![(num + " "@, number_prefix_look())] + inline_spec(content, base),
                width,
            ),
            None => match bullet_of(line) {
                Some((indent, content)) => wrapped_runs(
                    seq![(spaces((indent + 2) as nat) + "• "@, bullet_prefix_look())] + inline_spec(content, base),
                    width,
                ),
                None => wrapped_runs(inline_spec(line, base), width),
            },
        },
    }
}

/// The inline text of such a line can be scanned (see `inline_ok`).
pub open spec fn line_ok(line: Seq<char>) -> bool {
    match header_of(line) {
        Some((lv, title)) => inline_ok(title, 0),
        None => match ordered_of(line) {
            Some((num, content)) => inline_ok(content, 0),
            None => match bullet_of(line) {
                Some((indent, content)) => inline_ok(content, 0),
                None => inline_ok(line, 0),
            },
        },
    }
}

/// The rows of Markdown lines from `i` on: a fenced block as a framed code
/// block, a blank line as an empty row, any other line by `line_rows`.
pub open spec fn render_from(ls: Seq<Seq<char>>, i: int, base: Look, width: nat) -> Seq<Seq<RunView>>
    decreases ls.len() - i,
{
    if i < 0 || i >= ls.len() {
        Seq::empty()
    } else {
        let line = ls[i];
        if is_fence(line) {
            let e = fence_close(ls, i + 1);
            let next = if e < ls.len() { e + 1 } else { ls.len() as int };
            if e < i + 1 || e > ls.len() || next <= i {
                Seq::empty()
            } else {
                code_block_rows(body_join(ls.subrange(i + 1, e)), fence_tag(line), width) + render_from(
                    ls,
                    next,
                    base,
                    width,
                )
            }
        } else if trim(line).len() == 0 {
            seq![Seq::empty()] + render_from(ls, i + 1, base, width)
        } else {
            line_rows(line, base, width) + render_from(ls, i + 1, base, width)
        }
    }
}

/// Every part of the lines from `i` on can be rendered: code blocks can
/// be coloured and inline text can be scanned.
pub open spec fn render_ok(ls: Seq<Seq<char>>, i: int) -> bool
    decreases ls.len() - i,
{
    if i < 0 || i >= ls.len() {
        true
    } else {
        let line = ls[i];
        if is_fence(line) {
            let e = fence_close(ls, i + 1);
            let next = if e < ls.len() { e + 1 } else { ls.len() as int };
            if e < i + 1 || e > ls.len() || next <= i {
                true
            } else {
                code_ok(body_join(ls.subrange(i + 1, e)), lang_of_tag(fence_tag(line))) && render_ok(ls, next)
            }
        } else if trim(line).len() == 0 {
            render_ok(ls, i + 1)
        } else {
            line_ok(line) && render_ok(ls, i + 1)
        }
    }
}

/// The rows of a Markdown text rendered in `base` at `width` columns.
pub open spec fn markdown_rows(text: Seq<char>, base: Look, width: nat) -> Seq<Seq<RunView>> {
    render_from(lines_of(text), 0, base, width)
}

/// A Markdown text that can be rendered (see `render_ok`).
pub open spec fn renderable(text: Seq<char>) -> bool {
    render_ok(lines_of(text), 0)
}

proof fn lemma_fence_close_range(ls: Seq<Seq<char>>, j: int)
    requires
        0 <= j,
    ensures
        j <= ls.len() ==> j <= fence_close(ls, j) <= ls.len(),
    decreases ls.len() - j,
{
    if j < ls.len() && trim(ls[j]) != "```"@ {
        lemma_fence_close_range(ls, j + 1);
    }
}

/// The rows of one line (see `line_rows`).
fn render_line(line: &str, base: Look, width: usize) -> (r: Vec<Vec<Run>>)
    requires
        line_ok(line@),
    ensures
        lines_view(r@) == line_rows(line@, base, width as nat),
{
    match parse_header(line) {
        Some((lv, title)) => {
            let look = Look {
                fg: if lv == 1 {
                    Tone::Rgb(229, 192, 123)
                } else if lv == 2 {
                    Tone::Rgb(97, 175, 239)
                } else {
                    Tone::Rgb(198, 120, 221)
                },
                bold: true,
                italic: false,
            };
            assert(look == header_look(lv));
            let r = wrap_spans(parse_inline(title, look), width);
            assert(lines_view(r@) == line_rows(line@, base, width as nat));
            r
        },
        None => match parse_ordered_item(line) {
            Some((num, content)) => {
                let mut spans: Vec<Run> = Vec::new();
                let mut prefix = to_owned_string(num);
                push_char(&mut prefix, ' ');
                proof {
                    reveal_strlit(" ");
                }
                assert(prefix@ =~= num@ + " "@);
                let ghost pv = prefix@;
                spans.push(Run::new(prefix, Look { fg: Tone::Rgb(209, 154, 102), bold: false, italic: false }));
                let ghost head = runs_view(spans@);
                assert(head =~= seq![(num@ + " "@, number_prefix_look())]);
                let mut rest = parse_inline(content, base);
                spans.append(&mut rest);
                assert(runs_view(spans@) =~= head + inline_spec(content@, base));
                let r = wrap_spans(spans, width);
                assert(lines_view(r@) == line_rows(line@, base, width as nat));
                r
            },
            None => match parse_bullet_item(line) {
                Some((indent, content)) => {
                    let mut spans: Vec<Run> = Vec::new();
                    let mut prefix = String::new();
                    let mut k: usize = 0;
                    while k < indent
                        invariant
                            k <= indent,
                            prefix@ == spaces(k as nat),
                        decreases indent - k,
                    {
                        push_char(&mut prefix, ' ');
                        assert(prefix@ =~= spaces((k + 1) as nat));
                        k = k + 1;
                    }
                    push_char(&mut prefix, ' ');
                    push_char(&mut prefix, ' ');
                    assert(prefix@ =~= spaces((indent + 2) as nat));
                    push_str(&mut prefix, "• ");
                    let ghost pv = prefix@;
                    assert(pv =~= spaces((indent + 2) as nat) + "• "@);
                    spans.push(Run::new(prefix, Look { fg: Tone::Rgb(97, 175, 239), bold: false, italic: false }));
                    let ghost head = runs_view(spans@);
                    assert(head =~= seq![(spaces((indent + 2) as nat) + "• "@, bullet_prefix_look())]);
                    let mut rest = parse_inline(content, base);
                    spans.append(&mut rest);
                    assert(runs_view(spans@) =~= head + inline_spec(content@, base));
                    let r = wrap_spans(spans, width);
                    assert(lines_view(r@) == line_rows(line@, base, width as nat));
                    r
                },
                None => {
                    let r = wrap_spans(parse_inline(line, base), width);
                    assert(lines_view(r@) == line_rows(line@, base, width as nat));
                    r
                },
            },
        },
    }
}

/// The tag of a fence line (see `fence_tag`).
fn fence_tag_of(line: &str) -> (r: String)
    ensures
        r@ == fence_tag(line@),
{
    let t = trim_str(line);
    let v = chars_of(t);
    let fence = chars_of("```");
    let a = strip_prefixes_range(&v, 0, v.len(), &fence);
    assert(v@.subrange(0, v@.len() as int) =~= v@);
    let (b, c) = trim_range(&v, a, v.len());
    string_from_range(&v, b, c)
}

/// The lines of a code block from `from` up to its closing fence, joined;
/// and where that fence is.
fn collect_body(ls: &Vec<Vec<char>>, from: usize) -> (r: (String, usize))
    requires
        from <= ls.len(),
    ensures
        r.1 as int == fence_close(char_views(ls@), from as int),
        from <= r.1 <= ls.len(),
        r.0@ == body_join(char_views(ls@).subrange(from as int, r.1 as int)),
{
    let ghost lv = char_views(ls@);
    let mut body = String::new();
    let mut j = from;
    assert(lv.subrange(from as int, from as int) =~= Seq::<Seq<char>>::empty());
    while j < ls.len()
        invariant
            from <= j <= ls.len(),
            lv == char_views(ls@),
            fence_close(lv, from as int) == fence_close(lv, j as int),
            body@ == body_join(lv.subrange(from as int, j as int)),
        decreases ls.len() - j,
    {
        let next_line = string_from_chars(&ls[j]);
        assert(next_line@ == lv[j as int]);
        if str_eq(trim_str(next_line.as_str()), "```") {
            return (body, j);
        }
        let ghost prev = body@;
        if !body.as_str().is_empty() {
            push_char(&mut body, '\n');
        }
        push_str(&mut body, next_line.as_str());
        assert(lv.subrange(from as int, j + 1).drop_last() =~= lv.subrange(from as int, j as int));
        assert(body@ =~= body_join(lv.subrange(from as int, j + 1)));
        j = j + 1;
    }
    (body, j)
}

/// Renders Markdown into styled rows of at most `width` characters (see
/// `markdown_rows`).
pub fn render(text: &str, base: Look, width: usize) -> (r: Vec<Vec<Run>>)
    requires
        renderable(text@),
    ensures
        lines_view(r@) == markdown_rows(text@, base, width as nat),
{
    let ls = text_lines(text);
    let ghost lv = char_views(ls@);
    let mut out: Vec<Vec<Run>> = Vec::new();
    let mut i: usize = 0;
    assert(lines_view(out@) + render_from(lv, 0, base, width as nat) =~= render_from(lv, 0, base, width as nat));
    while i < ls.len()
        invariant
            i <= ls.len(),
            lv == char_views(ls@),
            lv == lines_of(text@),
            render_ok(lv, i as int),
            lines_view(out@) + render_from(lv, i as int, base, width as nat) == render_from(lv, 0, base, width as nat),
        decreases ls.len() - i,
    {
        let line = string_from_chars(&ls[i]);
        assert(line@ == lv[i as int]);
        let t = trim_str(line.as_str());
        let ghost before = lines_view(out@);
        if starts_with_str(t, "```") {
            let tag = fence_tag_of(line.as_str());
            let (body, e) = collect_body(&ls, i + 1);
            proof {
                lemma_fence_close_range(lv, i + 1);
            }
            let rows = render_code_block(body.as_str(), tag.as_str(), width);
            append_rows(&mut out, rows);
            let next = if e < ls.len() { e + 1 } else { ls.len() };
            assert(before + (code_block_rows(body@, tag@, width as nat) + render_from(lv, next as int, base, width as nat))
                =~= (before + code_block_rows(body@, tag@, width as nat)) + render_from(lv, next as int, base, width as nat));
            i = next;
        } else if t.is_empty() {
            let empty_row: Vec<Run> = Vec::new();
            assert(runs_view(empty_row@) =~= Seq::<RunView>::empty());
            out.push(empty_row);
            assert(lines_view(out@) =~= before.push(Seq::<RunView>::empty()));
            assert(before + (seq![Seq::<RunView>::empty()] + render_from(lv, i + 1, base, width as nat)) =~= before.push(
                Seq::<RunView>::empty(),
            ) + render_from(lv, i + 1, base, width as nat));
            i = i + 1;
        } else {
            let rows = render_line(line.as_str(), base, width);
            append_rows(&mut out, rows);
            assert(before + (line_rows(line@, base, width as nat) + render_from(lv, i + 1, base, width as nat)) =~= (
            before + line_rows(line@, base, width as nat)) + render_from(lv, i + 1, base, width as nat));
            i = i + 1;
        }
    }
    assert(render_from(lv, i as int, base, width as nat) =~= Seq::<Seq<RunView>>::empty());
    assert(lines_view(out@) + Seq::<Seq<RunView>>::empty() =~= lines_view(out@));
    out
}

} // verus!

verus! {

/// Whether the inline scan of a text moves on at every step (see `inline_ok`).
pub fn inline_scan_ok(text: &str) -> (r: bool)
    ensures
        r == inline_ok(text@, 0),
{
    let cs = chars_of(text);
    let n = cs.len();
    let mut i: usize = 0;
    while i < n
        invariant
            n == cs.len(),
            cs@ == text@,
            i <= n,
            inline_ok(cs@, 0) == inline_ok(cs@, i as int),
        decreases n - i,
    {
        let ghost step = inline_step(cs@, i as int, Look { fg: Tone::Unset, bold: false, italic: false });
        let next: usize;
        if cs[i] == '\\' && i + 1 < n {
            next = i + 2;
        } else if cs[i] == '`' {
            let k = find_tick(&cs, i + 1);
            next = if k < n { k + 1 } else { n };
        } else if i + 1 < n && cs[i] == '*' && cs[i + 1] == '*' {
            next = match find_bold(&cs, i + 2) {
                Some(k) => k + 2,
                None => n,
            };
        } else {
            next = find_plain_end(&cs, i);
        }
        assert(step.1 == next as int);
        if next <= i {
            return false;
        }
        i = next;
    }
    true
}

/// Whether the inline text of a line can be scanned (see `line_ok`).
fn line_scan_ok(line: &str) -> (r: bool)
    ensures
        r == line_ok(line@),
{
    match parse_header(line) {
        Some((_lv, title)) => inline_scan_ok(title),
        None => match parse_ordered_item(line) {
            Some((_num, content)) => inline_scan_ok(content),
            None => match parse_bullet_item(line) {
                Some((_indent, content)) => inline_scan_ok(content),
                None => inline_scan_ok(line),
            },
        },
    }
}

/// Whether a Markdown text can be rendered (see `renderable`).
pub fn can_render(text: &str) -> (r: bool)
    ensures
        r == renderable(text@),
{
    let ls = text_lines(text);
    let ghost lv = char_views(ls@);
    let mut i: usize = 0;
    while i < ls.len()
        invariant
            i <= ls.len(),
            lv == char_views(ls@),
            lv == lines_of(text@),
            render_ok(lv, 0) == render_ok(lv, i as int),
        decreases ls.len() - i,
    {
        let line = string_from_chars(&ls[i]);
        assert(line@ == lv[i as int]);
        let t = trim_str(line.as_str());
        if starts_with_str(t, "```") {
            let tag = fence_tag_of(line.as_str());
            let lang = lang_from_tag(tag.as_str());
            let (body, e) = collect_body(&ls, i + 1);
            proof {
                lemma_fence_close_range(lv, i + 1);
            }
            if !code_can_draw(body.as_str(), lang.as_str()) {
                return false;
            }
            i = if e < ls.len() { e + 1 } else { ls.len() };
        } else if t.is_empty() {
            i = i + 1;
        } else {
            if !line_scan_ok(line.as_str()) {
                return false;
            }
            i = i + 1;
        }
    }
    true
}

} // verus!
