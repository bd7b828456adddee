//! Properties that hold across the library's operations.
use vstd::prelude::*;
use crate::tools::GuardView;
use crate::tools::after_mark_read;
use crate::tools::after_mark_call;
use crate::tools::after_round_reset;
use crate::tools::attempt_count;
use crate::tools::fresh_guards;
use crate::tools::guard_write_spec;
use crate::tools::is_duplicate_spec;
use crate::tools::GuardOp;
use crate::tools::run_guards;
use crate::tools::guard_step;
use crate::tools::unread_attempts;
use crate::context::ContextBudget;
use crate::session::FileSystemView;
use crate::session::SnapshotManager;
use crate::session::undo_files;
use crate::session::first_recorded;
use crate::session::restore_one;
use crate::context::budget_after;
use crate::context::remaining_of;
use crate::tui::Scroll;
use crate::tui::effective_of;
use crate::tui::max_offset_of;
use crate::tui::scrolled_down;
use crate::tui::scrolled_up;
use crate::tui::to_bottom;
use crate::index::Symbol;
use crate::retrieval::TraceEntry;
use crate::retrieval::assembled_trace;
use crate::agent::wants_action;
use crate::text::lowercase;
use crate::markdown::hash_run;
use crate::markdown::header_of;
use crate::markdown::line_rows;
use crate::markdown::wrapped_runs;
use crate::markdown::inline_spec;
use crate::style::Tone;
use crate::highlight::fallback_spec;
use crate::toolcall::CallView;
use crate::toolcall::parse_calls;
use crate::toolcall::inline_calls;
use crate::toolcall::delimited_calls;
use crate::toolcall::calls_in;
use crate::toolcall::closing_brace;
use crate::toolcall::lemma_closing_brace_after;
use crate::text::contains;
use crate::text::occurs_at;
use crate::text::find_from;
use crate::text::lemma_find_from_contains;
use crate::agent::TurnState;
use crate::agent::MAX_ROUNDS;
use crate::agent::round_started;
use crate::agent::summary_started;
use crate::agent::RoundStep;
use crate::agent::next_step;
use crate::stream::next_frame;
use crate::stream::newline_from;
use crate::stream::drain_frames;
use crate::stream::stream_frames;
use crate::stream::body_frames;
use crate::stream::opt_frame;
use crate::stream::last_frame;
use crate::chat::ChatEvent;
use crate::chat::ChatStateView;
use crate::chat::event_effect;
use crate::chat::after_persist;
use crate::text::trim;
use crate::text::trim_start;
use crate::text::trim_end;
use crate::text::is_ws;
use crate::text::has_prefix;
use crate::provider::ProviderKind;
use crate::provider::HostEnv;
use crate::provider::normalized;
use crate::provider::resolved_url;
use crate::provider::default_url_of;
use crate::provider::env_host;
use crate::markdown::cut_rows;
use crate::style::Look;
use crate::wrap::chunk_word;
use crate::wrap::wrap_words;
use crate::wrap::wrap_line;
use crate::wrap::wrap_lines;
use crate::wrap::wrapped;
use crate::wrap::split_on;
use crate::keys::Key;
use crate::keys::Modifiers;
use crate::keys::Screen;
use crate::keys::UiView;
use crate::keys::ActionView;
use crate::keys::SlashView;
use crate::keys::key_step;
use crate::keys::slash_of;

verus! {

/// A file that was read may be written: the guard lets the write through
/// and remembers nothing new.
pub proof fn law_read_file_may_be_written(g: GuardView, path: Seq<char>, file_exists: bool)
    ensures
        guard_write_spec(after_mark_read(g, path), path, file_exists) == (after_mark_read(g, path), false),
{
}

/// A file that does not exist yet may always be written.
pub proof fn law_new_file_may_be_written(g: GuardView, path: Seq<char>)
    ensures
        guard_write_spec(g, path, false) == (g, false),
{
}

/// The first write to an existing file that was not read is refused; the
/// same write tried again goes through.
pub proof fn law_unread_write_refused_once(g: GuardView, path: Seq<char>)
    requires
        !g.read.contains(path),
        attempt_count(g, path) == 0,
    ensures
        guard_write_spec(g, path, true).1,
        !guard_write_spec(guard_write_spec(g, path, true).0, path, true).1,
{
    let g1 = guard_write_spec(g, path, true).0;
    assert(g1.attempts.contains_key(path));
    assert(attempt_count(g1, path) == 1);
}

/// Since a session started (no session reset among the calls), a file
/// counts as read exactly when `mark_read` was called with its path.
pub proof fn law_read_history(ops: Seq<GuardOp>, path: Seq<char>)
    requires
        forall|i: int| 0 <= i < ops.len() ==> ops[i] != GuardOp::ResetSession,
    ensures
        run_guards(fresh_guards(), ops).read.contains(path) <==> exists|i: int|
            0 <= i < ops.len() && ops[i] == GuardOp::MarkRead(path),
    decreases ops.len(),
{
    if ops.len() > 0 {
        let prev = ops.drop_last();
        assert forall|i: int| 0 <= i < prev.len() implies prev[i] != GuardOp::ResetSession by {
            assert(prev[i] == ops[i]);
        }
        law_read_history(prev, path);
        if exists|i: int| 0 <= i < prev.len() && prev[i] == GuardOp::MarkRead(path) {
            let i = choose|i: int| 0 <= i < prev.len() && prev[i] == GuardOp::MarkRead(path);
            assert(ops[i] == GuardOp::MarkRead(path));
        }
        if exists|i: int| 0 <= i < ops.len() && ops[i] == GuardOp::MarkRead(path) {
            let i = choose|i: int| 0 <= i < ops.len() && ops[i] == GuardOp::MarkRead(path);
            if i < ops.len() - 1 {
                assert(prev[i] == GuardOp::MarkRead(path));
            }
        }
        assert(ops.last() != GuardOp::ResetSession);
    }
}

/// Since a round started (no round or session reset among the calls, and
/// none remembered at the start), a call is a duplicate exactly when
/// `mark_call` was called with its tool and arguments.
pub proof fn law_call_history(g: GuardView, ops: Seq<GuardOp>, name: Seq<char>, args: Seq<char>)
    requires
        g.calls.len() == 0,
        forall|i: int| 0 <= i < ops.len() ==> ops[i] != GuardOp::ResetSession && ops[i] != GuardOp::ResetRound,
    ensures
        is_duplicate_spec(run_guards(g, ops), name, args) <==> exists|i: int|
            0 <= i < ops.len() && ops[i] == GuardOp::MarkCall(name, args),
    decreases ops.len(),
{
    if ops.len() > 0 {
        let prev = ops.drop_last();
        assert forall|i: int| 0 <= i < prev.len() implies prev[i] != GuardOp::ResetSession && prev[i]
            != GuardOp::ResetRound by {
            assert(prev[i] == ops[i]);
        }
        law_call_history(g, prev, name, args);
        let before = run_guards(g, prev);
        assert(ops.last() != GuardOp::ResetSession && ops.last() != GuardOp::ResetRound);
        if exists|i: int| 0 <= i < prev.len() && prev[i] == GuardOp::MarkCall(name, args) {
            let i = choose|i: int| 0 <= i < prev.len() && prev[i] == GuardOp::MarkCall(name, args);
            assert(ops[i] == GuardOp::MarkCall(name, args));
        }
        if exists|i: int| 0 <= i < ops.len() && ops[i] == GuardOp::MarkCall(name, args) {
            let i = choose|i: int| 0 <= i < ops.len() && ops[i] == GuardOp::MarkCall(name, args);
            if i < ops.len() - 1 {
                assert(prev[i] == GuardOp::MarkCall(name, args));
            }
        }
        assert(run_guards(g, ops) == guard_step(before, ops.last()));
        match ops.last() {
            GuardOp::MarkCall(n, a) => {
                let after = before.calls.push((n, a));
                assert(run_guards(g, ops).calls == after);
                if n == name && a == args {
                    assert(after[before.calls.len() as int] == (name, args));
                    assert(ops[ops.len() - 1] == GuardOp::MarkCall(name, args));
                }
                if before.calls.contains((name, args)) {
                    let k = choose|k: int| 0 <= k < before.calls.len() && before.calls[k] == (name, args);
                    assert(after[k] == (name, args));
                }
                if after.contains((name, args)) {
                    let k = choose|k: int| 0 <= k < after.len() && after[k] == (name, args);
                    if k < before.calls.len() {
                        assert(before.calls[k] == (name, args));
                    }
                }
            },
            GuardOp::MarkRead(p) => {
                assert(run_guards(g, ops).calls == before.calls);
            },
            GuardOp::GuardWrite(p, e) => {
                assert(run_guards(g, ops).calls == before.calls);
            },
            _ => {},
        }
    } else {
        assert(!g.calls.contains((name, args)));
    }
}

/// Since a session started, the guard has counted, for a path, exactly the
/// writes that found the file existing and not read; so a write is refused
/// exactly when the file exists, was not read, and no such write came before.
pub proof fn law_write_guard_history(ops: Seq<GuardOp>, path: Seq<char>, file_exists: bool)
    requires
        forall|i: int| 0 <= i < ops.len() ==> ops[i] != GuardOp::ResetSession,
    ensures
        attempt_count(run_guards(fresh_guards(), ops), path) == unread_attempts(ops, path),
        guard_write_spec(run_guards(fresh_guards(), ops), path, file_exists).1 <==> (file_exists
            && !run_guards(fresh_guards(), ops).read.contains(path) && unread_attempts(ops, path) == 0),
    decreases ops.len(),
{
    if ops.len() > 0 {
        let prev = ops.drop_last();
        assert forall|i: int| 0 <= i < prev.len() implies prev[i] != GuardOp::ResetSession by {
            assert(prev[i] == ops[i]);
        }
        law_write_guard_history(prev, path, file_exists);
        assert(ops.last() != GuardOp::ResetSession);
    }
}

/// A call that succeeded is a duplicate if made again in the same round.
pub proof fn law_marked_call_is_duplicate(g: GuardView, name: Seq<char>, args: Seq<char>)
    ensures
        is_duplicate_spec(after_mark_call(g, name, args), name, args),
{
    let g1 = after_mark_call(g, name, args);
    assert(g1.calls[g1.calls.len() - 1] == (name, args));
}

/// A new round forgets the calls of the last one, and keeps what was read
/// and which writes were refused.
pub proof fn law_new_round_forgets_calls(g: GuardView, name: Seq<char>, args: Seq<char>)
    ensures
        !is_duplicate_spec(after_round_reset(g), name, args),
        after_round_reset(g).read == g.read,
        after_round_reset(g).attempts == g.attempts,
{
}

/// A new session starts with nothing read, no refused writes and no calls.
pub proof fn law_new_session_forgets_everything(path: Seq<char>, name: Seq<char>, args: Seq<char>)
    ensures
        !fresh_guards().read.contains(path),
        attempt_count(fresh_guards(), path) == 0,
        !is_duplicate_spec(fresh_guards(), name, args),
{
}

/// Undoing a turn leaves every recorded file as it was when first
/// recorded (removed if it did not exist then) and every other file as it is.
pub proof fn law_undo_restores_first_recorded(
    fs: FileSystemView,
    snaps: Seq<(Seq<char>, Option<Seq<u8>>)>,
    path: Seq<char>,
)
    ensures
        match first_recorded(snaps, path) {
            Some(Some(c)) => undo_files(fs, snaps).contains_key(path) && undo_files(fs, snaps)[path] == c,
            Some(None) => !undo_files(fs, snaps).contains_key(path),
            None => undo_files(fs, snaps).contains_key(path) == fs.contains_key(path) && (fs.contains_key(path)
                ==> undo_files(fs, snaps)[path] == fs[path]),
        },
    decreases snaps.len(),
{
    if snaps.len() > 0 {
        law_undo_restores_first_recorded(restore_one(fs, snaps.last()), snaps.drop_last(), path);
    }
}

/// Undoing the same snapshots twice leaves the files as undoing them once.
pub proof fn law_undo_twice_same(fs: FileSystemView, snaps: Seq<(Seq<char>, Option<Seq<u8>>)>)
    ensures
        undo_files(undo_files(fs, snaps), snaps) == undo_files(fs, snaps),
{
    let once = undo_files(fs, snaps);
    let twice = undo_files(once, snaps);
    assert forall|p: Seq<char>| #[trigger] twice.contains_key(p) == once.contains_key(p) && (once.contains_key(p)
        ==> twice[p] == once[p]) by {
        law_undo_restores_first_recorded(fs, snaps, p);
        law_undo_restores_first_recorded(once, snaps, p);
    }
    assert(twice =~= once);
}

/// Undo puts back the snapshots that a turn recorded: what a manager holds.
pub proof fn law_undo_of_a_turn(m: SnapshotManager, fs: FileSystemView, path: Seq<char>)
    ensures
        match first_recorded(m.view_snapshots(), path) {
            Some(Some(c)) => undo_files(fs, m.view_snapshots()).contains_key(path)
                && undo_files(fs, m.view_snapshots())[path] == c,
            Some(None) => !undo_files(fs, m.view_snapshots()).contains_key(path),
            None => undo_files(fs, m.view_snapshots()).contains_key(path) == fs.contains_key(path),
        },
{
    law_undo_restores_first_recorded(fs, m.view_snapshots(), path);
}

/// Taking tokens never spends more than the budget holds.
pub proof fn law_budget_never_overspent(b: ContextBudget, t: nat)
    requires
        b.used_tokens <= b.max_tokens,
    ensures
        budget_after(b, t).0.used_tokens <= budget_after(b, t).0.max_tokens,
        budget_after(b, t).0.max_tokens == b.max_tokens,
{
}

/// Tokens that are taken leave exactly that many fewer free; tokens that
/// do not fit leave the budget as it was.
pub proof fn law_budget_takes_exactly(b: ContextBudget, t: nat)
    ensures
        budget_after(b, t).1 ==> remaining_of(budget_after(b, t).0) == remaining_of(b) - t,
        !budget_after(b, t).1 ==> budget_after(b, t).0 == b,
        budget_after(b, t).1 <==> t <= remaining_of(b) && b.used_tokens <= b.max_tokens,
{
}

/// The view is never scrolled past the last row.
pub proof fn law_scroll_within_bounds(s: Scroll)
    ensures
        effective_of(s) <= max_offset_of(s),
{
}

/// Jumping to the end shows the last rows, and the view follows new ones.
pub proof fn law_end_jumps_to_live_stream(s: Scroll)
    ensures
        effective_of(to_bottom(s)) == max_offset_of(s),
        to_bottom(s).scroll_offset == usize::MAX,
{
}

/// Scrolling down at the bottom keeps following the bottom.
pub proof fn law_scroll_down_at_bottom_follows(s: Scroll, n: nat)
    requires
        effective_of(s) == max_offset_of(s),
    ensures
        scrolled_down(s, n).scroll_offset == usize::MAX,
{
}

/// Scrolling up some rows and back down as many returns to where the view was.
pub proof fn law_scroll_up_then_down_returns(s: Scroll, n: nat)
    requires
        n <= effective_of(s),
    ensures
        effective_of(scrolled_down(scrolled_up(s, n), n)) == effective_of(s),
{
    let u = scrolled_up(s, n);
    assert(max_offset_of(u) == max_offset_of(s));
    assert(effective_of(u) == effective_of(s) - n);
}

/// A turn nudges the model at most three times.
pub proof fn law_nudges_bounded(s: TurnState, content: Seq<char>, finish_reason: Option<Seq<char>>, has_calls: bool)
    requires
        s.plan_nudges <= 3,
    ensures
        next_step(s, content, finish_reason, has_calls).0.plan_nudges <= 3,
{
}

/// Once a file was written, a reply without tool calls ends the turn
/// (unless it was cut off empty).
pub proof fn law_written_turn_finishes(s: TurnState, content: Seq<char>, finish_reason: Option<Seq<char>>)
    requires
        s.did_write,
        !(content.len() == 0 && finish_reason == Some("length"@)),
    ensures
        next_step(s, content, finish_reason, false).1 == RoundStep::Finish,
{
}

/// The state after `k` attempts to start a round, and how many succeeded.
pub open spec fn round_attempts(s: TurnState, k: nat) -> (TurnState, nat)
    decreases k,
{
    if k == 0 {
        (s, 0)
    } else {
        let (s1, n) = round_attempts(s, (k - 1) as nat);
        let (s2, b) = round_started(s1);
        (s2, n + if b { 1nat } else { 0nat })
    }
}

/// A turn runs at most `MAX_ROUNDS` model rounds: of any number of
/// attempts to start one, as many succeed as the limit has left.
pub proof fn law_round_limit(s: TurnState, k: nat)
    requires
        s.rounds <= MAX_ROUNDS,
    ensures
        round_attempts(s, k).1 == if k <= MAX_ROUNDS - s.rounds { k } else { (MAX_ROUNDS - s.rounds) as nat },
        round_attempts(s, k).0.rounds == s.rounds + round_attempts(s, k).1,
        round_attempts(s, k).0.rounds <= MAX_ROUNDS,
    decreases k,
{
    if k > 0 {
        law_round_limit(s, (k - 1) as nat);
    }
}

/// The closing summary is asked for at most once in a turn.
pub proof fn law_one_summary(s: TurnState, first: Seq<char>, second: Seq<char>)
    ensures
        summary_started(s, first).1 ==> !summary_started(summary_started(s, first).0, second).1,
{
}

/// Rounds and tool runs leave the round count and the summary as they were.
pub proof fn law_rounds_kept_by_steps(s: TurnState, content: Seq<char>, finish_reason: Option<Seq<char>>, has_calls: bool)
    ensures
        next_step(s, content, finish_reason, has_calls).0.rounds == s.rounds,
        next_step(s, content, finish_reason, has_calls).0.summary_asked == s.summary_asked,
{
}

/// A frame comes from the front of the buffer: what stays is a suffix of
/// it, shorter when a frame was taken.
pub proof fn law_frame_taken_from_front(buf: Seq<u8>)
    ensures
        next_frame(buf).1.len() <= buf.len(),
        next_frame(buf).1 == buf.subrange(buf.len() - next_frame(buf).1.len(), buf.len() as int),
        next_frame(buf).0 is Some ==> next_frame(buf).1.len() < buf.len(),
    decreases buf.len(),
{
    match newline_from(buf, 0) {
        None => {
            assert(buf.subrange(0, buf.len() as int) =~= buf);
        },
        Some(p) => {
            if 0 <= p < buf.len() {
                let rest = buf.subrange(p + 1, buf.len() as int);
                law_frame_taken_from_front(rest);
                let r = next_frame(rest).1;
                assert(rest.subrange(rest.len() - r.len(), rest.len() as int) =~= buf.subrange(
                    buf.len() - r.len(),
                    buf.len() as int,
                ));
            } else {
                assert(buf.subrange(0, buf.len() as int) =~= buf);
            }
        },
    }
}

/// A line feed found from `i` lies at or after `i`, inside the buffer.
proof fn lemma_newline_in_range(s: Seq<u8>, i: int)
    ensures
        newline_from(s, i) matches Some(p) ==> i <= p < s.len() && s[p] == 10,
    decreases s.len() - i,
{
    if 0 <= i < s.len() && s[i] != 10 {
        lemma_newline_in_range(s, i + 1);
    }
}

/// Bytes appended after a line feed do not move it.
proof fn lemma_newline_kept(s: Seq<u8>, c: Seq<u8>, i: int)
    requires
        newline_from(s, i) is Some,
    ensures
        newline_from(s + c, i) == newline_from(s, i),
    decreases s.len() - i,
{
    lemma_newline_in_range(s, i);
    if 0 <= i < s.len() && s[i] != 10 {
        lemma_newline_kept(s, c, i + 1);
    }
}

/// Appending bytes to a buffer: a frame it already held comes out the same
/// with the bytes kept behind it; without one, what the buffer keeps (no
/// line feed in it) is what the bytes are appended to.
proof fn lemma_next_frame_append(x: Seq<u8>, c: Seq<u8>)
    ensures
        next_frame(x).0 is Some ==> next_frame(x + c) == (next_frame(x).0, next_frame(x).1 + c),
        next_frame(x).0 is None ==> next_frame(x + c) == next_frame(next_frame(x).1 + c),
        next_frame(x).0 is None ==> newline_from(next_frame(x).1, 0) is None,
    decreases x.len(),
{
    match newline_from(x, 0) {
        None => {},
        Some(p) => {
            lemma_newline_in_range(x, 0);
            lemma_newline_kept(x, c, 0);
            let xc = x + c;
            let rest = x.subrange(p + 1, x.len() as int);
            assert(xc.subrange(0, p + 1) =~= x.subrange(0, p + 1));
            assert(xc.subrange(p + 1, xc.len() as int) =~= rest + c);
            lemma_next_frame_append(rest, c);
        },
    }
}

/// What a drained buffer keeps holds no line feed.
proof fn lemma_drained_rest(x: Seq<u8>)
    ensures
        newline_from(drain_frames(x).1, 0) is None,
    decreases x.len(),
{
    lemma_next_frame_append(x, Seq::empty());
    if next_frame(x).0 is Some {
        law_frame_taken_from_front(x);
        lemma_drained_rest(next_frame(x).1);
    }
}

/// Draining a buffer with bytes appended: the frames it held, then the
/// frames of what it kept with the bytes appended.
proof fn lemma_drain_append(x: Seq<u8>, c: Seq<u8>)
    ensures
        drain_frames(x + c) == (
            drain_frames(x).0 + drain_frames(drain_frames(x).1 + c).0,
            drain_frames(drain_frames(x).1 + c).1,
        ),
    decreases x.len(),
{
    lemma_next_frame_append(x, c);
    let y = next_frame(x).1;
    if next_frame(x).0 is Some {
        law_frame_taken_from_front(x);
        lemma_drain_append(y, c);
        let f = next_frame(x).0->0;
        let dy = drain_frames(y);
        let dyc = drain_frames(dy.1 + c);
        assert(drain_frames(x + c).0 =~= seq![f] + drain_frames(y + c).0);
        assert(seq![f] + (dy.0 + dyc.0) =~= (seq![f] + dy.0) + dyc.0);
    } else {
        assert(drain_frames(x).0 =~= Seq::<Seq<u8>>::empty());
        assert(Seq::<Seq<u8>>::empty() + drain_frames(y + c).0 =~= drain_frames(y + c).0);
    }
}

/// From a buffer without a line feed, streaming chunks yields the frames of
/// the buffer followed by all the chunks.
proof fn lemma_stream_is_body(buf: Seq<u8>, chunks: Seq<Seq<u8>>)
    requires
        newline_from(buf, 0) is None,
    ensures
        stream_frames(buf, chunks) == body_frames(buf + chunks.flatten()),
    decreases chunks.len(),
{
    if chunks.len() == 0 {
        assert(buf + chunks.flatten() =~= buf);
        assert(drain_frames(buf).0 =~= Seq::<Seq<u8>>::empty());
        assert(body_frames(buf) =~= opt_frame(last_frame(buf)));
    } else {
        let c0 = chunks[0];
        let r = chunks.drop_first();
        let d = drain_frames(buf + c0);
        lemma_drained_rest(buf + c0);
        lemma_stream_is_body(d.1, r);
        lemma_drain_append(buf + c0, r.flatten());
        assert(chunks.flatten() == c0 + r.flatten());
        assert(buf + chunks.flatten() =~= (buf + c0) + r.flatten());
        let e = drain_frames(d.1 + r.flatten());
        assert(d.0 + (e.0 + opt_frame(last_frame(e.1))) =~= (d.0 + e.0) + opt_frame(last_frame(e.1)));
    }
}

/// The frames of a streamed reply do not depend on how its bytes were cut
/// into chunks: they are the frames of the whole body.
pub proof fn law_frames_ignore_chunking(chunks: Seq<Seq<u8>>)
    ensures
        stream_frames(Seq::empty(), chunks) == body_frames(chunks.flatten()),
{
    lemma_stream_is_body(Seq::empty(), chunks);
    assert(Seq::<u8>::empty() + chunks.flatten() =~= chunks.flatten());
}

/// Two ways of cutting the same bytes into chunks give the same frames.
pub proof fn law_same_bytes_same_frames(a: Seq<Seq<u8>>, b: Seq<Seq<u8>>)
    requires
        a.flatten() == b.flatten(),
    ensures
        stream_frames(Seq::empty(), a) == stream_frames(Seq::empty(), b),
{
    law_frames_ignore_chunking(a);
    law_frames_ignore_chunking(b);
}

/// Streamed text is added to the end of the reply.
pub proof fn law_stream_appends(st: ChatStateView, text: String)
    ensures
        event_effect(st, ChatEvent::AssistantDelta { text }).live == st.live + text@,
        event_effect(st, ChatEvent::AssistantDelta { text }).messages == st.messages,
{
}

/// Clearing the reply empties it and keeps the card it showed, if any.
pub proof fn law_clear_keeps_card(st: ChatStateView)
    ensures
        event_effect(st, ChatEvent::AssistantClear).live.len() == 0,
        event_effect(st, ChatEvent::AssistantClear).messages == after_persist(st).messages,
{
}


/// Text without whitespace at either end is its own trim.
proof fn lemma_trim_fixed(s: Seq<char>)
    requires
        s.len() > 0,
        !is_ws(s[0]),
        !is_ws(s.last()),
    ensures
        trim(s) == s,
{
    assert(trim_start(s) == s);
}

/// Trimmed text, when not empty, has no whitespace at either end.
proof fn lemma_trimmed_ends(s: Seq<char>)
    ensures
        trim(s).len() > 0 ==> !is_ws(trim(s)[0]) && !is_ws(trim(s).last()),
    decreases s.len(),
{
    lemma_trim_start_first(s);
    lemma_trim_end_last(trim_start(s));
}

proof fn lemma_trim_start_first(s: Seq<char>)
    ensures
        trim_start(s).len() > 0 ==> !is_ws(trim_start(s)[0]),
    decreases s.len(),
{
    if s.len() > 0 && is_ws(s[0]) {
        lemma_trim_start_first(s.drop_first());
    }
}

proof fn lemma_trim_end_last(s: Seq<char>)
    ensures
        trim_end(s).len() > 0 ==> !is_ws(trim_end(s).last()),
        trim_end(s).len() > 0 && s.len() > 0 && !is_ws(s[0]) ==> trim_end(s)[0] == s[0],
        trim_end(s).len() <= s.len(),
    decreases s.len(),
{
    if s.len() > 0 && is_ws(s.last()) {
        lemma_trim_end_last(s.drop_last());
    }
}

/// Normalizing an address twice gives what normalizing it once gives.
pub proof fn law_normalize_idempotent(url: Seq<char>)
    ensures
        normalized(normalized(url)) == normalized(url),
{
    let t = trim(url);
    lemma_trimmed_ends(url);
    if t.len() > 0 {
        let n = normalized(url);
        if has_prefix(t, "http://"@) || has_prefix(t, "https://"@) {
            lemma_trim_fixed(t);
        } else {
            reveal_strlit("http://");
            assert(n[0] == 'h');
            assert(n.last() == t.last());
            lemma_trim_fixed(n);
            assert(n.subrange(0, 7) =~= "http://"@);
        }
    }
}

/// A normalized address is its own trim.
proof fn lemma_normalized_trimmed(url: Seq<char>)
    ensures
        trim(normalized(url)) == normalized(url),
{
    let t = trim(url);
    lemma_trimmed_ends(url);
    if t.len() == 0 {
        assert(trim_start(Seq::<char>::empty()) == Seq::<char>::empty());
        assert(trim_end(Seq::<char>::empty()) == Seq::<char>::empty());
    } else if has_prefix(t, "http://"@) || has_prefix(t, "https://"@) {
        lemma_trim_fixed(t);
    } else {
        let n = normalized(url);
        reveal_strlit("http://");
        assert(n[0] == 'h');
        assert(n.last() == t.last());
        lemma_trim_fixed(n);
    }
}

/// Resolving an address that was itself resolved, with nothing configured,
/// gives it back: the address a provider is reached at is stable.
pub proof fn law_resolved_address_is_stable(k: ProviderKind, env: HostEnv)
    ensures
        resolved_url(k, Some(resolved_url(k, None, env)), env) == resolved_url(k, None, env),
{
    reveal_strlit("http://localhost:11434");
    reveal_strlit("http://localhost:1234");
    reveal_strlit("http://");
    let d = default_url_of(k);
    assert(!is_ws(d[0]) && !is_ws(d.last()));
    lemma_trim_fixed(d);
    if env_host(env, k) is Some && trim(env_host(env, k)->0).len() != 0 {
        let e = env_host(env, k)->0;
        let r0 = normalized(e);
        lemma_normalized_trimmed(e);
        law_normalize_idempotent(e);
        assert(trim(r0) == r0);
    } else {
        assert(d.subrange(0, 7) =~= "http://"@);
        assert(has_prefix(d, "http://"@));
        assert(normalized(d) == d);
    }
}

/// With no address configured and none in the environment, a provider is
/// reached at its default address.
pub proof fn law_default_address(k: ProviderKind)
    ensures
        resolved_url(k, None, HostEnv { ollama_host: None, lm_studio_host: None }) == default_url_of(k),
{
}

/// An address in the environment, and none configured, is used normalized.
pub proof fn law_environment_address(k: ProviderKind, env: HostEnv)
    requires
        env_host(env, k) is Some,
        trim(env_host(env, k)->0).len() != 0,
    ensures
        resolved_url(k, None, env) == normalized(env_host(env, k)->0),
{
}

/// A configured address that is neither empty nor the default address is
/// used, trimmed and normalized, whatever the environment holds.
pub proof fn law_custom_address_wins(k: ProviderKind, custom: Seq<char>, env: HostEnv)
    requires
        trim(custom).len() != 0,
        trim(custom) != default_url_of(k),
    ensures
        resolved_url(k, Some(custom), env) == normalized(trim(custom)),
{
}

/// A configured address equal to the default gives way to an address in
/// the environment.
pub proof fn law_default_gives_way_to_environment(k: ProviderKind, env: HostEnv)
    requires
        env_host(env, k) is Some,
        trim(env_host(env, k)->0).len() != 0,
    ensures
        resolved_url(k, Some(default_url_of(k)), env) == normalized(env_host(env, k)->0),
{
    reveal_strlit("http://localhost:11434");
    reveal_strlit("http://localhost:1234");
    let d = default_url_of(k);
    assert(!is_ws(d[0]) && !is_ws(d.last()));
    lemma_trim_fixed(d);
}

/// Every row that styled text is cut into holds at most the width.
pub proof fn law_rows_fit_width(cs: Seq<(char, Look)>, w: nat, cur: Seq<(char, Look)>)
    requires
        w >= 1,
        cur.len() <= w,
    ensures
        forall|i: int| 0 <= i < cut_rows(cs, w, cur).len() ==> #[trigger] cut_rows(cs, w, cur)[i].len() <= w,
    decreases cs.len(),
{
    if cs.len() == 0 {
        if cur.len() > 0 {
            assert(cut_rows(cs, w, cur) == seq![cur]);
            assert forall|i: int| 0 <= i < cut_rows(cs, w, cur).len() implies #[trigger] cut_rows(cs, w, cur)[i].len() <= w by {
                assert(seq![cur][i] == cur);
            }
        } else {
            assert(cut_rows(cs, w, cur).len() == 0);
        }
    } else if cs[0].0 == '\n' || (cur.len() >= w && cur.len() > 0) {
        let next = if cs[0].0 == '\n' { Seq::<(char, Look)>::empty() } else { seq![cs[0]] };
        law_rows_fit_width(cs.drop_first(), w, next);
        let rest = cut_rows(cs.drop_first(), w, next);
        assert(cut_rows(cs, w, cur) == seq![cur] + rest);
        assert forall|i: int| 0 <= i < cut_rows(cs, w, cur).len() implies #[trigger] cut_rows(cs, w, cur)[i].len() <= w by {
            if i == 0 {
                assert((seq![cur] + rest)[0] == cur);
            } else {
                assert((seq![cur] + rest)[i] == rest[i - 1]);
            }
        }
    } else {
        law_rows_fit_width(cs.drop_first(), w, cur.push(cs[0]));
        assert(cut_rows(cs, w, cur) == cut_rows(cs.drop_first(), w, cur.push(cs[0])));
    }
}

/// Cutting a long word gives full rows, and a last row that fits.
proof fn lemma_chunk_fits(word: Seq<char>, width: nat, chunk: Seq<char>)
    requires
        width >= 1,
        chunk.len() <= width,
    ensures
        forall|i: int| 0 <= i < chunk_word(word, width, chunk).0.len() ==> #[trigger] chunk_word(word, width, chunk).0[i].len() <= width,
        chunk_word(word, width, chunk).1.len() <= width,
    decreases word.len(),
{
    if word.len() > 0 {
        let full = chunk.len() == width;
        let next = if full { seq![word[0]] } else { chunk.push(word[0]) };
        lemma_chunk_fits(word.drop_first(), width, next);
    }
}

/// Filling words into rows keeps every row within the width.
proof fn lemma_words_fit(words: Seq<Seq<char>>, width: nat, cur: Seq<char>)
    requires
        width >= 1,
        cur.len() <= width,
    ensures
        forall|i: int| 0 <= i < wrap_words(words, width, cur).len() ==> #[trigger] wrap_words(words, width, cur)[i].len() <= width,
    decreases words.len(),
{
    if words.len() > 0 {
        let w = words[0];
        let break_first = cur.len() + w.len() > width && cur.len() > 0;
        let c1 = if break_first { Seq::<char>::empty() } else { cur };
        let r1 = if break_first { seq![cur] } else { Seq::<Seq<char>>::empty() };
        if w.len() > width {
            lemma_chunk_fits(w, width, Seq::empty());
            let r2a = if c1.len() > 0 { seq![c1] } else { Seq::<Seq<char>>::empty() };
            let c2a = if c1.len() > 0 { Seq::<char>::empty() } else { c1 };
            let (cr, last) = chunk_word(w, width, Seq::empty());
            let c2 = if last.len() > 0 { last } else { c2a };
            lemma_words_fit(words.drop_first(), width, c2);
            let rest = wrap_words(words.drop_first(), width, c2);
            assert(wrap_words(words, width, cur) == r1 + (r2a + cr) + rest);
            assert forall|i: int| 0 <= i < wrap_words(words, width, cur).len() implies #[trigger] wrap_words(words, width, cur)[i].len() <= width by {
                let all = r1 + (r2a + cr) + rest;
                if i < r1.len() {
                    assert(all[i] == r1[i]);
                } else if i < r1.len() + r2a.len() {
                    assert(all[i] == r2a[i - r1.len()]);
                } else if i < r1.len() + r2a.len() + cr.len() {
                    assert(all[i] == cr[i - r1.len() - r2a.len()]);
                } else {
                    assert(all[i] == rest[i - r1.len() - r2a.len() - cr.len()]);
                }
            }
        } else {
            let c2 = c1 + w;
            lemma_words_fit(words.drop_first(), width, c2);
            let rest = wrap_words(words.drop_first(), width, c2);
            assert(wrap_words(words, width, cur) == r1 + Seq::<Seq<char>>::empty() + rest);
            assert forall|i: int| 0 <= i < wrap_words(words, width, cur).len() implies #[trigger] wrap_words(words, width, cur)[i].len() <= width by {
                let all = r1 + Seq::<Seq<char>>::empty() + rest;
                if i < r1.len() {
                    assert(all[i] == r1[i]);
                } else {
                    assert(all[i] == rest[i - r1.len()]);
                }
            }
        }
    }
}

proof fn lemma_lines_fit(lines: Seq<Seq<char>>, width: nat)
    requires
        width >= 1,
    ensures
        forall|i: int| 0 <= i < wrap_lines(lines, width).len() ==> #[trigger] wrap_lines(lines, width)[i].len() <= width,
    decreases lines.len(),
{
    if lines.len() > 0 {
        lemma_lines_fit(lines.drop_last(), width);
        let line = lines.last();
        if line.len() > 0 {
            lemma_words_fit(crate::wrap::split_words(line), width, Seq::empty());
        }
        let a = wrap_lines(lines.drop_last(), width);
        let b = wrap_line(line, width);
        assert forall|i: int| 0 <= i < wrap_lines(lines, width).len() implies #[trigger] wrap_lines(lines, width)[i].len() <= width by {
            if i < a.len() {
                assert((a + b)[i] == a[i]);
            } else {
                assert((a + b)[i] == b[i - a.len()]);
            }
        }
    }
}

/// Every row of wrapped text holds at most the width (at least one) of characters.
pub proof fn law_wrapped_rows_fit(text: Seq<char>, width: nat)
    ensures
        forall|i: int| 0 <= i < wrapped(text, width).len() ==> #[trigger] wrapped(text, width)[i].len() <= if width < 1 { 1 } else { width },
{
    lemma_lines_fit(split_on(text, '\n'), if width < 1 { 1 } else { width });
}


/// No modifier held.
pub open spec fn no_modifiers() -> Modifiers {
    Modifiers { control: false, shift: false, super_key: false }
}

/// Enter in the chat sends the typed message, trimmed, to a ready agent
/// and clears the input.
pub proof fn law_enter_sends_message(s: UiView)
    requires
        s.screen == Screen::Chat,
        !s.diff_open,
        !s.agent_running,
        s.agent_ready,
        trim(s.input).len() > 0,
        !has_prefix(trim(s.input), "/"@),
    ensures
        key_step(s, Key::Enter, no_modifiers()).1 == ActionView::SendMessage(trim(s.input)),
        key_step(s, Key::Enter, no_modifiers()).0.input.len() == 0,
        key_step(s, Key::Enter, no_modifiers()).0.agent_running,
{
}

/// A line that starts with a slash runs as a command.
pub proof fn law_slash_runs_command(s: UiView)
    requires
        s.screen == Screen::Chat,
        !s.diff_open,
        !s.agent_running,
        trim(s.input).len() > 0,
        has_prefix(trim(s.input), "/"@),
    ensures
        key_step(s, Key::Enter, no_modifiers()).1 == ActionView::Command(slash_of(trim(s.input))),
{
}

/// `/model` and `/provider` switch the model or the provider; `/undo` and
/// `/reindex` undo the last edit or rebuild the index.
pub proof fn law_slash_commands_named()
    ensures
        slash_of("/model"@) == SlashView::Model,
        slash_of("/provider"@) == SlashView::Provider,
        slash_of("/undo"@) == SlashView::Undo,
        slash_of("/reindex"@) == SlashView::Reindex,
{
    reveal_strlit("/help");
    reveal_strlit("/copy");
    reveal_strlit("/quit");
    reveal_strlit("/clear");
    reveal_strlit("/model");
    reveal_strlit("/provider");
    reveal_strlit("/reindex");
    reveal_strlit("/undo");
    assert("/model"@ != "/help"@) by { assert("/model"@.len() != "/help"@.len()); }
    assert("/model"@ != "/copy"@) by { assert("/model"@.len() != "/copy"@.len()); }
    assert("/model"@ != "/quit"@) by { assert("/model"@.len() != "/quit"@.len()); }
    assert("/model"@ != "/clear"@) by { assert("/model"@[1] != "/clear"@[1]); }
    assert("/provider"@ != "/help"@) by { assert("/provider"@.len() != "/help"@.len()); }
    assert("/provider"@ != "/copy"@) by { assert("/provider"@.len() != "/copy"@.len()); }
    assert("/provider"@ != "/quit"@) by { assert("/provider"@.len() != "/quit"@.len()); }
    assert("/provider"@ != "/clear"@) by { assert("/provider"@.len() != "/clear"@.len()); }
    assert("/provider"@ != "/model"@) by { assert("/provider"@.len() != "/model"@.len()); }
    assert("/reindex"@ != "/help"@) by { assert("/reindex"@.len() != "/help"@.len()); }
    assert("/reindex"@ != "/copy"@) by { assert("/reindex"@.len() != "/copy"@.len()); }
    assert("/reindex"@ != "/quit"@) by { assert("/reindex"@.len() != "/quit"@.len()); }
    assert("/reindex"@ != "/clear"@) by { assert("/reindex"@.len() != "/clear"@.len()); }
    assert("/reindex"@ != "/model"@) by { assert("/reindex"@.len() != "/model"@.len()); }
    assert("/reindex"@ != "/provider"@) by { assert("/reindex"@.len() != "/provider"@.len()); }
    assert("/undo"@ != "/help"@) by { assert("/undo"@[1] != "/help"@[1]); }
    assert("/undo"@ != "/copy"@) by { assert("/undo"@[1] != "/copy"@[1]); }
    assert("/undo"@ != "/quit"@) by { assert("/undo"@[1] != "/quit"@[1]); }
    assert("/undo"@ != "/clear"@) by { assert("/undo"@.len() != "/clear"@.len()); }
    assert("/undo"@ != "/model"@) by { assert("/undo"@.len() != "/model"@.len()); }
    assert("/undo"@ != "/provider"@) by { assert("/undo"@.len() != "/provider"@.len()); }
    assert("/undo"@ != "/reindex"@) by { assert("/undo"@.len() != "/reindex"@.len()); }
}

/// End in the chat jumps to the live stream.
pub proof fn law_end_key_jumps(s: UiView)
    requires
        s.screen == Screen::Chat,
        !s.diff_open,
    ensures
        key_step(s, Key::End, no_modifiers()).0.scroll == to_bottom(s.scroll),
{
}

/// The arrows scroll the chat by one row, whatever the agent is doing.
pub proof fn law_arrows_scroll(s: UiView)
    requires
        s.screen == Screen::Chat,
        !s.diff_open,
    ensures
        key_step(s, Key::Up, no_modifiers()).0.scroll == scrolled_up(s.scroll, 1),
        key_step(s, Key::Down, no_modifiers()).0.scroll == scrolled_down(s.scroll, 1),
{
}

/// ⌘C and Ctrl+Shift+C copy the transcript.
pub proof fn law_copy_shortcuts(s: UiView)
    requires
        s.screen == Screen::Chat,
        !s.diff_open,
    ensures
        key_step(s, Key::Char('c'), Modifiers { control: false, shift: false, super_key: true }).1
            == ActionView::CopyTranscript,
        key_step(s, Key::Char('c'), Modifiers { control: true, shift: true, super_key: false }).1
            == ActionView::CopyTranscript,
{
}

/// Shift+C alone types a capital C into the chat's input while the agent is idle.
pub proof fn law_capital_c_is_typed(s: UiView)
    requires
        s.screen == Screen::Chat,
        !s.diff_open,
        !s.agent_running,
    ensures
        key_step(s, Key::Char('C'), Modifiers { control: false, shift: true, super_key: false }).0.input
            == s.input.push('C'),
        key_step(s, Key::Char('C'), Modifiers { control: false, shift: true, super_key: false }).1
            == ActionView::Nothing,
{
}

/// Esc quits from the chat when the agent is idle, and from the provider list.
pub proof fn law_escape_quits(s: UiView)
    requires
        !s.diff_open,
        s.screen == Screen::Chat && !s.agent_running || s.screen == Screen::ProviderSelect,
    ensures
        key_step(s, Key::Esc, no_modifiers()).0.should_quit,
{
}

/// Ctrl+C quits on every screen.
pub proof fn law_ctrl_c_quits(s: UiView)
    ensures
        key_step(s, Key::Char('c'), Modifiers { control: true, shift: false, super_key: false }).0.should_quit,
{
}

} // verus!

verus! {

/// A trace keeps one symbol entry for every symbol hit, in order (the
/// symbol's name, file and line, score 100, kind `symbol`), followed by the
/// first text hits, at most three.
pub proof fn law_trace_keeps_every_symbol(symbols: Seq<Symbol>, text_hits: Seq<TraceEntry>)
    ensures
        assembled_trace(symbols, text_hits).len() == symbols.len() + if text_hits.len() < 3 {
            text_hits.len() as int
        } else {
            3
        },
        forall|k: int| 0 <= k < symbols.len() ==> {
            let e = #[trigger] assembled_trace(symbols, text_hits)[k];
            &&& e.name == symbols[k].name@
            &&& e.file == symbols[k].file@
            &&& e.line == symbols[k].line
            &&& e.score_pct == 100
            &&& e.kind == "symbol"@
        },
        forall|k: int| 0 <= k < text_hits.len() && k < 3 ==> assembled_trace(symbols, text_hits)[symbols.len() + k]
            == #[trigger] text_hits[k]@,
{
}

/// Whether a message asks for changes depends only on its lower-cased
/// form: two messages that lower-case alike get the same answer.
pub proof fn law_action_ignores_case(m1: Seq<char>, m2: Seq<char>)
    requires
        lowercase(m1) == lowercase(m2),
    ensures
        wants_action(m1) == wants_action(m2),
{
}

/// `n` copies of `#`.
pub open spec fn hashes(n: nat) -> Seq<char> {
    Seq::new(n, |i: int| '#')
}

proof fn lemma_hash_run_of_header(n: nat, t: Seq<char>, i: int)
    requires
        0 <= i <= n,
    ensures
        hash_run(hashes(n) + seq![' '] + t, i) == n,
    decreases n - i,
{
    let s = hashes(n) + seq![' '] + t;
    if i < n {
        assert(s[i] == '#');
        lemma_hash_run_of_header(n, t, i + 1);
    } else {
        assert(s[i] == ' ');
    }
}

/// A line of one to six `#`, a space and a title without surrounding
/// whitespace is a header of that level with that title, and is drawn as
/// the title in the bold header look of its level.
pub proof fn law_headers_of_every_level(n: nat, t: Seq<char>, base: Look, width: nat)
    requires
        1 <= n <= 6,
        t.len() > 0,
        !is_ws(t[0]),
        !is_ws(t.last()),
    ensures
        header_of(hashes(n) + seq![' '] + t) == Some((n as u8, t)),
        line_rows(hashes(n) + seq![' '] + t, base, width) == wrapped_runs(
            inline_spec(
                t,
                Look {
                    fg: if n == 1 {
                        Tone::Rgb(229, 192, 123)
                    } else if n == 2 {
                        Tone::Rgb(97, 175, 239)
                    } else {
                        Tone::Rgb(198, 120, 221)
                    },
                    bold: true,
                    italic: false,
                },
            ),
            width,
        ),
{
    let s = hashes(n) + seq![' '] + t;
    lemma_hash_run_of_header(n, t, 0);
    let rest = s.skip(n as int);
    assert(rest =~= seq![' '] + t);
    assert(rest.drop_first() =~= t);
    assert(trim_start(rest) == trim_start(t));
    assert(trim_start(t) == t);
    lemma_trim_fixed(t);
}

/// A code line whose first non-blank characters are `#`, `//` or `--` is
/// coloured by the plain tokenizer as one run, the whole line, in the
/// italic grey comment look.
pub proof fn law_comment_lines_are_one_run(l: Seq<char>)
    requires
        trim_start(l).len() > 0,
        trim_start(l)[0] == '#' || has_prefix(trim_start(l), "//"@) || has_prefix(trim_start(l), "--"@),
    ensures
        fallback_spec(l) == seq![(l, Look { fg: Tone::Rgb(92, 99, 112), bold: false, italic: true })],
{
    reveal_strlit("#");
    let t = trim_start(l);
    if t[0] == '#' {
        assert(t.subrange(0, 1) =~= "#"@);
    }
}

} // verus!

verus! {

/// A text with no occurrence of `open` holds no delimited block.
proof fn lemma_no_blocks(c: Seq<char>, open: Seq<char>, close: Seq<char>, skip_newline: bool)
    requires
        !contains(c, open),
    ensures
        delimited_calls(c, open, close, skip_newline, 0) == Seq::<CallView>::empty(),
{
    lemma_find_from_contains(c, open, 0);
    if find_from(c, open, 0) is Some {
        let j = choose|j: int| 0 <= j && occurs_at(c, open, j);
        assert(contains(c, open));
    }
}

/// Without fenced blocks or tags, the calls of a reply are those of its
/// bare objects.
proof fn lemma_parse_is_inline(c: Seq<char>)
    requires
        !contains(c, "```json"@),
        !contains(c, "<tool_call>"@),
    ensures
        parse_calls(c) == inline_calls(c, 0),
{
    lemma_no_blocks(c, "```json"@, "```"@, true);
    lemma_no_blocks(c, "<tool_call>"@, "</tool_call>"@, false);
    assert(Seq::<CallView>::empty() + Seq::<CallView>::empty() =~= Seq::<CallView>::empty());
}

/// A pattern without spaces found in `a`, a space, `b` lies in `a` or in `b`.
proof fn lemma_contains_across_space(a: Seq<char>, b: Seq<char>, p: Seq<char>)
    requires
        forall|k: int| 0 <= k < p.len() ==> p[k] != ' ',
        contains(a + seq![' '] + b, p),
    ensures
        contains(a, p) || contains(b, p),
{
    let s = a + seq![' '] + b;
    let i = choose|i: int| occurs_at(s, p, i);
    let m = p.len() as int;
    if i + m <= a.len() {
        assert(a.subrange(i, i + m) =~= s.subrange(i, i + m));
        assert(occurs_at(a, p, i));
    } else if i >= a.len() + 1 {
        let j = i - a.len() - 1;
        assert(b.subrange(j, j + m) =~= s.subrange(i, i + m));
        assert(occurs_at(b, p, j));
    } else {
        let k = a.len() - i;
        assert(s.subrange(i, i + m)[k] == s[a.len() as int]);
        assert(p[k] == ' ');
    }
}

/// An object already closed in `x` closes at the same place when more text follows.
proof fn lemma_closing_brace_prefix(x: Seq<char>, y: Seq<char>, j: int, depth: int, in_str: bool, escape: bool)
    requires
        closing_brace(x, j, depth, in_str, escape) is Some,
    ensures
        closing_brace(x + y, j, depth, in_str, escape) == closing_brace(x, j, depth, in_str, escape),
    decreases x.len() - j,
{
    if 0 <= j < x.len() {
        assert((x + y)[j] == x[j]);
        if escape {
            lemma_closing_brace_prefix(x, y, j + 1, depth, in_str, false);
        } else if in_str {
            if x[j] == '\\' {
                lemma_closing_brace_prefix(x, y, j + 1, depth, true, true);
            } else if x[j] == '"' {
                lemma_closing_brace_prefix(x, y, j + 1, depth, false, false);
            } else {
                lemma_closing_brace_prefix(x, y, j + 1, depth, true, false);
            }
        } else if x[j] == '"' {
            lemma_closing_brace_prefix(x, y, j + 1, depth, true, false);
        } else if x[j] == '{' {
            lemma_closing_brace_prefix(x, y, j + 1, depth + 1, false, false);
        } else if x[j] == '}' {
            if depth - 1 != 0 {
                lemma_closing_brace_prefix(x, y, j + 1, depth - 1, false, false);
            }
        } else {
            lemma_closing_brace_prefix(x, y, j + 1, depth, false, false);
        }
    }
}

/// Scanning for a closing brace in `b` after a prefix `a` finds it shifted by `a`.
proof fn lemma_closing_brace_shift(a: Seq<char>, b: Seq<char>, k: int, depth: int, in_str: bool, escape: bool)
    requires
        0 <= k,
    ensures
        closing_brace(a + b, a.len() + k, depth, in_str, escape) == match closing_brace(b, k, depth, in_str, escape) {
            Some(p) => Some(p + a.len()),
            None => None,
        },
    decreases b.len() - k,
{
    if k < b.len() {
        assert((a + b)[a.len() + k] == b[k]);
        lemma_closing_brace_shift(a, b, k + 1, depth, in_str, false);
        lemma_closing_brace_shift(a, b, k + 1, depth, true, true);
        lemma_closing_brace_shift(a, b, k + 1, depth, false, false);
        lemma_closing_brace_shift(a, b, k + 1, depth, true, false);
        lemma_closing_brace_shift(a, b, k + 1, depth + 1, false, false);
        lemma_closing_brace_shift(a, b, k + 1, depth - 1, false, false);
    }
}

/// The bare objects of `b` after a prefix `a` are found as in `b` alone.
proof fn lemma_inline_shift(a: Seq<char>, b: Seq<char>, k: int)
    requires
        0 <= k,
    ensures
        inline_calls(a + b, a.len() + k) == inline_calls(b, k),
    decreases b.len() - k,
{
    if k < b.len() {
        let s = a + b;
        assert(s[a.len() + k] == b[k]);
        lemma_closing_brace_shift(a, b, k, 0, false, false);
        if b[k] == '{' {
            match closing_brace(b, k, 0, false, false) {
                Some(j) => {
                    lemma_closing_brace_after(b, k, 0, false, false);
                    assert(s.subrange(a.len() + k, a.len() + j + 1) =~= b.subrange(k, j + 1));
                    lemma_inline_shift(a, b, j + 1);
                },
                None => {
                    lemma_inline_shift(a, b, k + 1);
                },
            }
        } else {
            lemma_inline_shift(a, b, k + 1);
        }
    }
}

/// Without fenced blocks or `<tool_call>` tags, a reply made of one
/// balanced JSON object, a space, and more text holds the object's call
/// followed by every call of the rest: calls found in bare objects are all
/// kept, left to right.
pub proof fn law_bare_calls_concatenate(c1: Seq<char>, c2: Seq<char>)
    requires
        c1.len() > 0,
        c1[0] == '{',
        closing_brace(c1, 0, 0, false, false) == Some((c1.len() - 1) as int),
        !contains(c1, "```json"@),
        !contains(c1, "<tool_call>"@),
        !contains(c2, "```json"@),
        !contains(c2, "<tool_call>"@),
    ensures
        parse_calls(c1) == calls_in(c1),
        parse_calls(c1 + seq![' '] + c2) == parse_calls(c1) + parse_calls(c2),
{
    reveal_strlit("```json");
    reveal_strlit("<tool_call>");
    let s = c1 + seq![' '] + c2;
    let fence = "```json"@;
    let tag = "<tool_call>"@;
    assert forall|k: int| 0 <= k < fence.len() implies fence[k] != ' ' by {}
    assert forall|k: int| 0 <= k < tag.len() implies tag[k] != ' ' by {}
    if contains(s, fence) {
        lemma_contains_across_space(c1, c2, fence);
    }
    if contains(s, tag) {
        lemma_contains_across_space(c1, c2, tag);
    }
    lemma_parse_is_inline(s);
    lemma_parse_is_inline(c1);
    lemma_parse_is_inline(c2);
    let n = c1.len() as int;
    // c1 alone: the object, then nothing.
    assert(c1.subrange(0, n) =~= c1);
    assert(inline_calls(c1, n) == Seq::<CallView>::empty());
    assert(inline_calls(c1, 0) == calls_in(c1) + inline_calls(c1, n));
    assert(calls_in(c1) + Seq::<CallView>::empty() =~= calls_in(c1));
    // The whole reply: the same object, the space, then c2.
    let rest = seq![' '] + c2;
    assert(s =~= c1 + rest);
    lemma_closing_brace_prefix(c1, rest, 0, 0, false, false);
    assert(s[0] == '{');
    assert(s.subrange(0, n) =~= c1);
    assert(inline_calls(s, 0) == calls_in(c1) + inline_calls(s, n));
    assert(s[n] == ' ');
    assert(inline_calls(s, n) == inline_calls(s, n + 1));
    let a = c1 + seq![' '];
    assert(s =~= a + c2);
    lemma_inline_shift(a, c2, 0);
}

} // verus!
