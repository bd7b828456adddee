//! Splitting a byte stream of newline-delimited JSON into frames.
use vstd::prelude::*;

verus! {

/// ASCII whitespace, as `u8::is_ascii_whitespace` has it: space, tab, line
/// feed, form feed, carriage return.
pub open spec fn is_ascii_ws(b: u8) -> bool {
    b == 32 || b == 9 || b == 10 || b == 12 || b == 13
}

/// `s` without leading ASCII whitespace.
pub open spec fn trim_ascii_start(s: Seq<u8>) -> Seq<u8>
    decreases s.len(),
{
    if s.len() > 0 && is_ascii_ws(s[0]) {
        trim_ascii_start(s.drop_first())
    } else {
        s
    }
}

/// `s` without trailing ASCII whitespace.
pub open spec fn trim_ascii_end(s: Seq<u8>) -> Seq<u8>
    decreases s.len(),
{
    if s.len() > 0 && is_ascii_ws(s.last()) {
        trim_ascii_end(s.drop_last())
    } else {
        s
    }
}

/// `s` without surrounding ASCII whitespace.
pub open spec fn trim_ascii(s: Seq<u8>) -> Seq<u8> {
    trim_ascii_end(trim_ascii_start(s))
}

/// The first line feed at or after `i`.
pub open spec fn newline_from(s: Seq<u8>, i: int) -> Option<int>
    decreases s.len() - i,
{
    if i < 0 || i >= s.len() {
        None
    } else if s[i] == 10 {
        Some(i)
    } else {
        newline_from(s, i + 1)
    }
}

/// The next frame in a buffer and what stays buffered: complete lines are
/// taken from the front; a line that is blank once trimmed is dropped; the
/// first other line, trimmed, is the frame. Without a complete non-blank
/// line there is no frame and only the incomplete rest stays.
pub open spec fn next_frame(buf: Seq<u8>) -> (Option<Seq<u8>>, Seq<u8>)
    decreases buf.len(),
{
    match newline_from(buf, 0) {
        None => (None, buf),
        Some(p) => {
            if 0 <= p < buf.len() {
                let line = trim_ascii(buf.subrange(0, p + 1));
                let rest = buf.subrange(p + 1, buf.len() as int);
                if line.len() == 0 {
                    next_frame(rest)
                } else {
                    (Some(line), rest)
                }
            } else {
                (None, buf)
            }
        },
    }
}

/// The frame left in the buffer when the stream ends: the whole buffer,
/// trimmed, unless that is empty.
pub open spec fn last_frame(buf: Seq<u8>) -> Option<Seq<u8>> {
    if trim_ascii(buf).len() == 0 {
        None
    } else {
        Some(trim_ascii(buf))
    }
}

/// Every frame a buffer yields now, in order, and what stays buffered.
pub open spec fn drain_frames(buf: Seq<u8>) -> (Seq<Seq<u8>>, Seq<u8>)
    decreases buf.len(),
{
    match next_frame(buf).0 {
        None => (Seq::empty(), next_frame(buf).1),
        Some(f) => {
            proof {
                crate::laws::law_frame_taken_from_front(buf);
            }
            let d = drain_frames(next_frame(buf).1);
            (seq![f] + d.0, d.1)
        },
    }
}

/// No frame, or the one frame.
pub open spec fn opt_frame(f: Option<Seq<u8>>) -> Seq<Seq<u8>> {
    match f {
        Some(x) => seq![x],
        None => Seq::empty(),
    }
}

/// The frames of a streamed body that arrives in `chunks` after `buf`:
/// after each chunk every complete frame is taken, and when the stream
/// ends what is left (see `last_frame`).
pub open spec fn stream_frames(buf: Seq<u8>, chunks: Seq<Seq<u8>>) -> Seq<Seq<u8>>
    decreases chunks.len(),
{
    if chunks.len() == 0 {
        opt_frame(last_frame(buf))
    } else {
        let d = drain_frames(buf + chunks[0]);
        d.0 + stream_frames(d.1, chunks.drop_first())
    }
}

/// The frames of a whole body: every complete frame, then what is left.
pub open spec fn body_frames(body: Seq<u8>) -> Seq<Seq<u8>> {
    drain_frames(body).0 + opt_frame(last_frame(drain_frames(body).1))
}

/// `v[lo..hi]` as a new vector.
pub fn bytes_range(v: &Vec<u8>, lo: usize, hi: usize) -> (r: Vec<u8>)
    requires
        lo <= hi <= v.len(),
    ensures
        r@ == v@.subrange(lo as int, hi as int),
{
    let mut r: Vec<u8> = Vec::new();
    let mut i = lo;
    while i < hi
        invariant
            lo <= i <= hi <= v.len(),
            r@ == v@.subrange(lo as int, i as int),
        decreases hi - i,
    {
        r.push(v[i]);
        assert(v@.subrange(lo as int, i + 1) =~= v@.subrange(lo as int, i as int).push(v@[i as int]));
        i = i + 1;
    }
    r
}

/// Whether a byte is ASCII whitespace.
pub fn ascii_ws(b: u8) -> (r: bool)
    ensures
        r == is_ascii_ws(b),
{
    b == 32 || b == 9 || b == 10 || b == 12 || b == 13
}

/// `v[lo..hi]` trimmed of ASCII whitespace, as a new vector.
pub fn trimmed_bytes(v: &Vec<u8>, lo: usize, hi: usize) -> (r: Vec<u8>)
    requires
        lo <= hi <= v.len(),
    ensures
        r@ == trim_ascii(v@.subrange(lo as int, hi as int)),
{
    let mut a = lo;
    while a < hi && ascii_ws(v[a])
        invariant
            lo <= a <= hi <= v.len(),
            trim_ascii_start(v@.subrange(lo as int, hi as int)) == trim_ascii_start(v@.subrange(a as int, hi as int)),
        decreases hi - a,
    {
        assert(v@.subrange(a as int, hi as int).drop_first() =~= v@.subrange(a + 1, hi as int));
        a = a + 1;
    }
    let mut b = hi;
    while b > a && ascii_ws(v[b - 1])
        invariant
            lo <= a <= b <= hi <= v.len(),
            trim_ascii_end(v@.subrange(a as int, hi as int)) == trim_ascii_end(v@.subrange(a as int, b as int)),
        decreases b - a,
    {
        assert(v@.subrange(a as int, b as int).drop_last() =~= v@.subrange(a as int, b - 1));
        b = b - 1;
    }
    bytes_range(v, a, b)
}

/// The first line feed at or after `from`.
pub fn find_newline(v: &Vec<u8>, from: usize) -> (r: Option<usize>)
    ensures
        match r {
            Some(p) => newline_from(v@, from as int) == Some(p as int) && from <= p < v.len(),
            None => newline_from(v@, from as int) is None,
        },
{
    let mut i = from;
    while i < v.len()
        invariant
            from <= i,
            newline_from(v@, from as int) == newline_from(v@, i as int),
        decreases v.len() - i,
    {
        if v[i] == 10 {
            return Some(i);
        }
        i = i + 1;
    }
    None
}

/// Takes the next frame from the buffer (see `next_frame`).
pub fn take_frame(buf: &mut Vec<u8>) -> (r: Option<Vec<u8>>)
    ensures
        (match r {
            Some(f) => Some(f@),
            None => None,
        }, final(buf)@) == next_frame(old(buf)@),
{
    loop
        invariant
            next_frame(buf@) == next_frame(old(buf)@),
        decreases buf.len(),
    {
        match find_newline(buf, 0) {
            None => {
                return None;
            },
            Some(p) => {
                let line = trimmed_bytes(buf, 0, p + 1);
                let rest = bytes_range(buf, p + 1, buf.len());
                *buf = rest;
                if line.len() > 0 {
                    return Some(line);
                }
            },
        }
    }
}

/// Takes what is left in the buffer when the stream ends (see `last_frame`);
/// the buffer is empty afterwards.
pub fn take_last_frame(buf: &mut Vec<u8>) -> (r: Option<Vec<u8>>)
    ensures
        match r {
            Some(f) => last_frame(old(buf)@) == Some(f@),
            None => last_frame(old(buf)@) is None,
        },
        final(buf)@.len() == 0,
{
    let t = trimmed_bytes(buf, 0, buf.len());
    assert(buf@.subrange(0, buf@.len() as int) =~= buf@);
    buf.clear();
    if t.len() == 0 {
        None
    } else {
        Some(t)
    }
}

} // verus!
