//! Splitting text into lines and words, and wrapping it to a width.
use vstd::prelude::*;
use crate::text::chars_of;
use crate::text::string_from_chars;
use crate::text::string_views;

verus! {

/// The first position of `c` in `s` at or after `i`.
pub open spec fn char_from(s: Seq<char>, c: char, i: int) -> Option<int>
    decreases s.len() - i,
{
    if i < 0 || i >= s.len() {
        None
    } else if s[i] == c {
        Some(i)
    } else {
        char_from(s, c, i + 1)
    }
}

/// A found position lies in the text, at or after the start.
pub proof fn lemma_char_from_range(s: Seq<char>, c: char, i: int)
    ensures
        char_from(s, c, i) matches Some(k) ==> i <= k < s.len() && s[k] == c,
    decreases s.len() - i,
{
    if 0 <= i < s.len() && s[i] != c {
        lemma_char_from_range(s, c, i + 1);
    }
}

/// The pieces of `s` between the occurrences of `c`, as `str::split` gives them.
pub open spec fn split_on(s: Seq<char>, c: char) -> Seq<Seq<char>>
    decreases s.len(),
{
    match char_from(s, c, 0) {
        Some(i) => {
            proof {
                lemma_char_from_range(s, c, 0);
            }
            seq![s.subrange(0, i)] + split_on(s.subrange(i + 1, s.len() as int), c)
        },
        None => seq![s],
    }
}

/// The pieces of `s` that end with a space, and a last piece without one if
/// any text follows the last space, as `str::split_inclusive(' ')` gives them.
pub open spec fn split_words(s: Seq<char>) -> Seq<Seq<char>>
    decreases s.len(),
{
    if s.len() == 0 {
        Seq::empty()
    } else {
        match char_from(s, ' ', 0) {
            Some(i) => {
                proof {
                    lemma_char_from_range(s, ' ', 0);
                }
                seq![s.subrange(0, i + 1)] + split_words(s.subrange(i + 1, s.len() as int))
            },
            None => seq![s],
        }
    }
}

/// Cutting a word longer than the width into rows of `width` characters:
/// the rows it fills, and the last, partial one.
pub open spec fn chunk_word(w: Seq<char>, width: nat, chunk: Seq<char>) -> (Seq<Seq<char>>, Seq<char>)
    decreases w.len(),
{
    if w.len() == 0 {
        (Seq::empty(), chunk)
    } else {
        let full = chunk.len() == width;
        let next = if full { seq![w[0]] } else { chunk.push(w[0]) };
        let (rows, last) = chunk_word(w.drop_first(), width, next);
        (if full { seq![chunk] + rows } else { rows }, last)
    }
}

/// The rows of one line's words, filled greedily up to `width` characters,
/// `cur` being the row begun so far. A word that does not fit begins a new
/// row; a word longer than a row is cut into rows.
pub open spec fn wrap_words(words: Seq<Seq<char>>, width: nat, cur: Seq<char>) -> Seq<Seq<char>>
    decreases words.len(),
{
    if words.len() == 0 {
        seq![cur]
    } else {
        let w = words[0];
        let break_first = cur.len() + w.len() > width && cur.len() > 0;
        let c1 = if break_first { Seq::<char>::empty() } else { cur };
        let r1 = if break_first { seq![cur] } else { Seq::<Seq<char>>::empty() };
        let (r2, c2) = if w.len() > width {
            let r2a = if c1.len() > 0 { seq![c1] } else { Seq::<Seq<char>>::empty() };
            let c2a = if c1.len() > 0 { Seq::<char>::empty() } else { c1 };
            let (cr, last) = chunk_word(w, width, Seq::empty());
            (r2a + cr, if last.len() > 0 { last } else { c2a })
        } else {
            (Seq::<Seq<char>>::empty(), c1 + w)
        };
        r1 + r2 + wrap_words(words.drop_first(), width, c2)
    }
}

/// The rows of one line: an empty line is one empty row.
pub open spec fn wrap_line(line: Seq<char>, width: nat) -> Seq<Seq<char>> {
    if line.len() == 0 {
        seq![Seq::empty()]
    } else {
        wrap_words(split_words(line), width, Seq::empty())
    }
}

/// The rows of several lines, line after line.
pub open spec fn wrap_lines(lines: Seq<Seq<char>>, width: nat) -> Seq<Seq<char>>
    decreases lines.len(),
{
    if lines.len() == 0 {
        Seq::empty()
    } else {
        wrap_lines(lines.drop_last(), width) + wrap_line(lines.last(), width)
    }
}

/// A text wrapped to `width` characters (at least one): each line between
/// newlines wrapped on its own.
pub open spec fn wrapped(text: Seq<char>, width: nat) -> Seq<Seq<char>> {
    wrap_lines(split_on(text, '\n'), if width < 1 { 1 } else { width })
}

/// The first position of `c` in `v` at or after `i`.
fn find_char(v: &Vec<char>, c: char, i: usize) -> (r: Option<usize>)
    ensures
        match r {
            Some(k) => char_from(v@, c, i as int) == Some(k as int) && i <= k < v.len(),
            None => char_from(v@, c, i as int) is None,
        },
{
    let mut k = i;
    while k < v.len()
        invariant
            i <= k,
            char_from(v@, c, i as int) == char_from(v@, c, k as int),
        decreases v.len() - k,
    {
        if v[k] == c {
            return Some(k);
        }
        k = k + 1;
    }
    None
}

/// `v[lo..hi]` as a new vector.
fn char_range(v: &Vec<char>, lo: usize, hi: usize) -> (r: Vec<char>)
    requires
        lo <= hi <= v.len(),
    ensures
        r@ == v@.subrange(lo as int, hi as int),
{
    let mut r: Vec<char> = Vec::new();
    let mut i = lo;
    while i < hi
        invariant
            lo <= i <= hi <= v.len(),
            r@ == v@.subrange(lo as int, i as int),
        decreases hi - i,
    {
        r.push(v[i]);
        assert(v@.subrange(lo as int, i + 1) =~= v@.subrange(lo as int, i as int).push(v@[i as int]));
        i = i + 1;
    }
    r
}

/// The views of a list of character vectors.
pub open spec fn char_views(v: Seq<Vec<char>>) -> Seq<Seq<char>> {
    v.map_values(|x: Vec<char>| x@)
}

/// The pieces of `v` between occurrences of `c` (see `split_on`).
pub fn split_chars(v: &Vec<char>, c: char) -> (r: Vec<Vec<char>>)
    ensures
        char_views(r@) == split_on(v@, c),
{
    let mut pieces: Vec<Vec<char>> = Vec::new();
    let mut rest = char_range(v, 0, v.len());
    assert(v@.subrange(0, v@.len() as int) =~= v@);
    loop
        invariant_except_break
            char_views(pieces@) + split_on(rest@, c) == split_on(v@, c),
        ensures
            char_views(pieces@) == split_on(v@, c),
        decreases rest@.len(),
    {
        match find_char(&rest, c, 0) {
            Some(i) => {
                let piece = char_range(&rest, 0, i);
                let next = char_range(&rest, i + 1, rest.len());
                let ghost before = char_views(pieces@);
                pieces.push(piece);
                assert(char_views(pieces@) =~= before.push(piece@));
                assert(before + (seq![piece@] + split_on(next@, c)) =~= before.push(piece@) + split_on(next@, c));
                rest = next;
            },
            None => {
                let ghost before = char_views(pieces@);
                let last = char_range(&rest, 0, rest.len());
                assert(rest@.subrange(0, rest@.len() as int) =~= rest@);
                pieces.push(last);
                assert(char_views(pieces@) =~= before + seq![rest@]);
                break;
            },
        }
    }
    pieces
}

/// The space-ended words of `v` (see `split_words`).
pub fn split_word_chars(v: &Vec<char>) -> (r: Vec<Vec<char>>)
    ensures
        char_views(r@) == split_words(v@),
{
    let mut pieces: Vec<Vec<char>> = Vec::new();
    let mut rest = char_range(v, 0, v.len());
    assert(v@.subrange(0, v@.len() as int) =~= v@);
    assert(char_views(pieces@) =~= Seq::<Seq<char>>::empty());
    while rest.len() > 0
        invariant
            char_views(pieces@) + split_words(rest@) == split_words(v@),
        decreases rest@.len(),
    {
        match find_char(&rest, ' ', 0) {
            Some(i) => {
                let piece = char_range(&rest, 0, i + 1);
                let next = char_range(&rest, i + 1, rest.len());
                let ghost before = char_views(pieces@);
                pieces.push(piece);
                assert(char_views(pieces@) =~= before.push(piece@));
                assert(before + (seq![piece@] + split_words(next@)) =~= before.push(piece@) + split_words(next@));
                rest = next;
            },
            None => {
                let ghost before = char_views(pieces@);
                let last = char_range(&rest, 0, rest.len());
                assert(rest@.subrange(0, rest@.len() as int) =~= rest@);
                pieces.push(last);
                assert(char_views(pieces@) =~= before + seq![rest@]);
                rest = Vec::new();
                assert(split_words(rest@) =~= Seq::<Seq<char>>::empty());
                assert(char_views(pieces@) + Seq::<Seq<char>>::empty() =~= char_views(pieces@));
            },
        }
    }
    assert(split_words(rest@) =~= Seq::<Seq<char>>::empty());
    assert(char_views(pieces@) + Seq::<Seq<char>>::empty() =~= char_views(pieces@));
    pieces
}

/// Appends the rows of a word cut into rows; returns the last, partial row.
fn chunk_word_exec(w: &Vec<char>, width: usize, rows: &mut Vec<String>) -> (r: Vec<char>)
    requires
        width >= 1,
    ensures
        string_views(final(rows)@) == string_views(old(rows)@) + chunk_word(w@, width as nat, Seq::empty()).0,
        r@ == chunk_word(w@, width as nat, Seq::empty()).1,
        r@.len() <= width,
{
    let ghost base = string_views(rows@);
    let mut chunk: Vec<char> = Vec::new();
    let mut i: usize = 0;
    assert(w@.skip(0) =~= w@);
    while i < w.len()
        invariant
            0 <= i <= w.len(),
            width >= 1,
            chunk@.len() <= width,
            base == string_views(old(rows)@),
            string_views(rows@) + chunk_word(w@.skip(i as int), width as nat, chunk@).0 == base + chunk_word(w@, width as nat, Seq::empty()).0,
            chunk_word(w@.skip(i as int), width as nat, chunk@).1 == chunk_word(w@, width as nat, Seq::empty()).1,
        decreases w.len() - i,
    {
        let ghost rest = w@.skip(i as int);
        assert(rest[0] == w@[i as int]);
        assert(rest.drop_first() =~= w@.skip(i + 1));
        if chunk.len() == width {
            let ghost before = string_views(rows@);
            let s = string_from_chars(&chunk);
            rows.push(s);
            assert(string_views(rows@) =~= before.push(chunk@));
            let ghost tail = chunk_word(w@.skip(i + 1), width as nat, seq![w@[i as int]]).0;
            assert(before + (seq![chunk@] + tail) =~= before.push(chunk@) + tail);
            chunk = Vec::new();
            chunk.push(w[i]);
            assert(chunk@ =~= seq![w@[i as int]]);
        } else {
            chunk.push(w[i]);
        }
        i = i + 1;
    }
    assert(w@.skip(w@.len() as int) =~= Seq::<char>::empty());
    assert(string_views(rows@) + Seq::<Seq<char>>::empty() =~= string_views(rows@));
    chunk
}

/// Appends the rows of one line's words (see `wrap_words`).
fn wrap_words_exec(words: &Vec<Vec<char>>, width: usize, rows: &mut Vec<String>)
    requires
        width >= 1,
    ensures
        string_views(final(rows)@) == string_views(old(rows)@) + wrap_words(char_views(words@), width as nat, Seq::empty()),
{
    let ghost base = string_views(rows@);
    let ghost ws = char_views(words@);
    let mut cur: Vec<char> = Vec::new();
    let mut k: usize = 0;
    assert(ws.skip(0) =~= ws);
    while k < words.len()
        invariant
            0 <= k <= words.len(),
            width >= 1,
            cur@.len() <= width,
            ws == char_views(words@),
            base == string_views(old(rows)@),
            string_views(rows@) + wrap_words(ws.skip(k as int), width as nat, cur@) == base + wrap_words(ws, width as nat, Seq::empty()),
        decreases words.len() - k,
    {
        let ghost rest = ws.skip(k as int);
        let w = &words[k];
        assert(rest[0] == w@);
        assert(rest.drop_first() =~= ws.skip(k + 1));
        let ghost r0 = string_views(rows@);
        let ghost cur0 = cur@;
        let break_first = cur.len() > 0 && w.len() > width - cur.len();
        assert(break_first == (cur0.len() + w@.len() > width && cur0.len() > 0));
        if break_first {
            let s = string_from_chars(&cur);
            rows.push(s);
            cur = Vec::new();
        }
        let ghost c1 = cur@;
        let ghost r1 = if break_first { seq![cur0] } else { Seq::<Seq<char>>::empty() };
        assert(string_views(rows@) =~= r0 + r1);
        if w.len() > width {
            let ghost rows_before_chunk = string_views(rows@);
            if cur.len() > 0 {
                let s = string_from_chars(&cur);
                rows.push(s);
                cur = Vec::new();
            }
            let ghost r2a = if c1.len() > 0 { seq![c1] } else { Seq::<Seq<char>>::empty() };
            assert(string_views(rows@) =~= rows_before_chunk + r2a);
            let last = chunk_word_exec(w, width, rows);
            if last.len() > 0 {
                cur = last;
            }
        } else {
            let mut j: usize = 0;
            let ghost c1v = cur@;
            while j < w.len()
                invariant
                    0 <= j <= w.len(),
                    cur@ == c1v + w@.subrange(0, j as int),
                decreases w.len() - j,
            {
                cur.push(w[j]);
                assert(c1v + w@.subrange(0, j + 1) =~= (c1v + w@.subrange(0, j as int)).push(w@[j as int]));
                j = j + 1;
            }
            assert(w@.subrange(0, w@.len() as int) =~= w@);
        }
        proof {
            let tail = wrap_words(ws.skip(k + 1), width as nat, cur@);
            assert(string_views(rows@) + tail =~= r0 + (wrap_words(rest, width as nat, cur0)));
        }
        k = k + 1;
    }
    assert(ws.skip(words@.len() as int) =~= Seq::<Seq<char>>::empty());
    let ghost before = string_views(rows@);
    let s = string_from_chars(&cur);
    rows.push(s);
    assert(string_views(rows@) =~= before + seq![cur@]);
}

/// A text wrapped to a width (see `wrapped`).
pub fn wrap_text(text: &str, width: usize) -> (r: Vec<String>)
    ensures
        string_views(r@) == wrapped(text@, width as nat),
{
    let w = if width < 1 { 1 } else { width };
    let v = chars_of(text);
    let lines = split_chars(&v, '\n');
    let ghost ls = char_views(lines@);
    let mut rows: Vec<String> = Vec::new();
    let mut i: usize = 0;
    assert(string_views(rows@) =~= Seq::<Seq<char>>::empty());
    while i < lines.len()
        invariant
            0 <= i <= lines.len(),
            w >= 1,
            w as nat == if width < 1 { 1nat } else { width as nat },
            ls == char_views(lines@),
            string_views(rows@) == wrap_lines(ls.take(i as int), w as nat),
        decreases lines.len() - i,
    {
        let line = &lines[i];
        assert(ls.take(i + 1).drop_last() =~= ls.take(i as int));
        assert(ls.take(i + 1).last() == line@);
        if line.len() == 0 {
            let ghost before = string_views(rows@);
            rows.push(String::new());
            assert(string_views(rows@) =~= before + seq![Seq::<char>::empty()]);
        } else {
            let words = split_word_chars(line);
            wrap_words_exec(&words, w, &mut rows);
        }
        i = i + 1;
    }
    assert(ls.take(ls.len() as int) =~= ls);
    rows
}

} // verus!
