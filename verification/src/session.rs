//! The messages of a session and the file snapshots that undo restores.
use vstd::prelude::*;
use crate::text::to_owned_string;
use crate::paths::path_join;
use crate::paths::joined;
use crate::provider::ChatMessage;

verus! {

/// A conversation, named by the time it started.
#[derive(Debug)]
pub struct Session {
    pub id: String,
    pub messages: Vec<ChatMessage>,
}

/// A decimal digit.
pub open spec fn is_digit(c: char) -> bool {
    '0' <= c <= '9'
}

/// The shape of a time stamp written as year, month, day, `_`, hour,
/// minute, second: at least fifteen characters, `_` seventh from the end,
/// every other one a digit, save a sign that may lead a year past 9999 or
/// before year 0.
pub open spec fn timestamp_shape(s: Seq<char>) -> bool {
    &&& s.len() >= 15
    &&& s[s.len() - 7] == '_'
    &&& forall|i: int| 0 <= i < s.len() && i != s.len() - 7 ==> is_digit(#[trigger] s[i]) || (i == 0 && (s[i] == '+' || s[i] == '-'))
}

#[verifier::external_type_specification]
#[verifier::external_body]
pub struct ExSystemTime(std::time::SystemTime);

/// Calls `SystemTime::now`: the system clock's current reading. It depends
/// on the clock, so nothing is claimed of it.
#[verifier::external_body]
fn clock_now() -> std::time::SystemTime {
    std::time::SystemTime::now()
}

/// Calls `SystemTime::duration_since` with `UNIX_EPOCH`: how long after the
/// start of 1970 a reading lies; `None` for a reading before it (the
/// error). Nothing is claimed of the duration.
#[verifier::external_body]
fn since_epoch(t: &std::time::SystemTime) -> Option<core::time::Duration> {
    t.duration_since(std::time::UNIX_EPOCH).ok()
}

/// Calls `Duration::as_secs`: the duration's whole seconds.
#[verifier::external_body]
fn duration_secs(d: &core::time::Duration) -> u64 {
    d.as_secs()
}

/// Calls `Duration::subsec_nanos`: the nanoseconds past the whole seconds.
/// Claimed, as its documentation says: fewer than a billion.
#[verifier::external_body]
fn duration_subsec_nanos(d: &core::time::Duration) -> (r: u32)
    ensures
        r < 1_000_000_000,
{
    d.subsec_nanos()
}

/// Calls chrono's `DateTime::<Utc>::from_timestamp`: the UTC time so many
/// seconds and nanoseconds after the start of 1970, `None` where chrono
/// cannot hold it; and writes that time out with `format(fmt)`, where
/// `fmt` must be `%Y%m%d_%H%M%S`: year, month, day, `_`, hour, minute,
/// second, each zero-padded to two digits and the year to four, with a sign
/// before a year past 9999 or before year 0. Claimed: a text that comes
/// back has that shape (`timestamp_shape`); which time it names, and when
/// chrono cannot hold the time, are not stated.
#[verifier::external_body]
fn utc_timestamp_text(secs: i64, nanos: u32, fmt: &str) -> (r: Option<String>)
    requires
        fmt@ == "%Y%m%d_%H%M%S"@,
    ensures
        r matches Some(t) ==> timestamp_shape(t@),
{
    chrono::DateTime::<chrono::Utc>::from_timestamp(secs, nanos).map(|t| t.format(fmt).to_string())
}

/// The current UTC time as year, month, day, `_`, hour, minute, second;
/// `None` where the clock reads before 1970 or past what chrono can hold.
fn current_timestamp() -> (r: Option<String>)
    ensures
        r matches Some(t) ==> timestamp_shape(t@),
{
    let now = clock_now();
    let d = match since_epoch(&now) {
        Some(d) => d,
        None => return None,
    };
    let secs = duration_secs(&d);
    if secs > 9_223_372_036_854_775_807u64 {
        return None;
    }
    let nanos = duration_subsec_nanos(&d);
    utc_timestamp_text(secs as i64, nanos, "%Y%m%d_%H%M%S")
}

/// A message as (role, content).
pub open spec fn message_view(m: ChatMessage) -> (Seq<char>, Seq<char>) {
    (m.role@, m.content@)
}

impl Session {
    /// An empty session named after the current time (see `timestamp_shape`);
    /// `None` where the clock cannot be read as a time after 1970.
    pub fn new() -> (r: Option<Self>)
        ensures
            r matches Some(s) ==> timestamp_shape(s.id@) && s.messages@.len() == 0,
    {
        match current_timestamp() {
            Some(id) => Some(Session { id, messages: Vec::new() }),
            None => None,
        }
    }

    /// An empty session with the given name.
    pub fn with_id(id: String) -> (r: Self)
        ensures
            r.id == id,
            r.messages@.len() == 0,
    {
        Session { id, messages: Vec::new() }
    }

    /// Appends a message.
    pub fn add_message(&mut self, role: &str, content: &str)
        ensures
            final(self).id == old(self).id,
            final(self).messages@.len() == old(self).messages@.len() + 1,
            forall|i: int| 0 <= i < old(self).messages@.len() ==> #[trigger] final(self).messages@[i] == old(self).messages@[i],
            message_view(final(self).messages@.last()) == (role@, content@),
    {
        self.messages.push(ChatMessage { role: to_owned_string(role), content: to_owned_string(content) });
    }

    /// The file that the session is saved to: `<dir>/<id>.json`.
    pub fn file_path(&self, dir: &str) -> (r: String)
        ensures
            r@ == joined(dir@, self.id@ + ".json"@),
    {
        let mut name = self.id.clone();
        name.append(".json");
        path_join(dir, name.as_str())
    }
}

/// A file as it was before the agent changed it: its contents, or `None`
/// when it did not exist.
#[derive(Debug)]
pub struct FileSnapshot {
    pub path: String,
    pub prior_content: Option<Vec<u8>>,
}

/// The snapshots taken during the current turn, oldest first.
#[derive(Debug, Default)]
pub struct SnapshotManager {
    snapshots: Vec<FileSnapshot>,
}

/// A snapshot as (path, prior contents).
pub open spec fn snapshot_view(s: FileSnapshot) -> (Seq<char>, Option<Seq<u8>>) {
    (s.path@, match s.prior_content {
        Some(c) => Some(c@),
        None => None,
    })
}

impl SnapshotManager {
    /// The snapshots, oldest first.
    pub closed spec fn view_snapshots(&self) -> Seq<(Seq<char>, Option<Seq<u8>>)> {
        self.snapshots@.map_values(|s: FileSnapshot| snapshot_view(s))
    }

    /// No snapshots.
    pub fn new() -> (r: Self)
        ensures
            r.view_snapshots().len() == 0,
    {
        SnapshotManager { snapshots: Vec::new() }
    }

    /// Forgets the previous turn's snapshots.
    pub fn begin_turn(&mut self)
        ensures
            final(self).view_snapshots().len() == 0,
    {
        self.snapshots.clear();
        assert(self.snapshots@.map_values(|s: FileSnapshot| snapshot_view(s)) =~= Seq::empty());
    }

    /// Records a file before it is changed; a relative path is taken from
    /// the repository root. `prior_content` is what the file held, `None`
    /// when it could not be read.
    pub fn record_file(&mut self, path: &str, repo_root: &str, prior_content: Option<Vec<u8>>)
        ensures
            final(self).view_snapshots() == old(self).view_snapshots().push(
                (joined(repo_root@, path@), match prior_content {
                    Some(c) => Some(c@),
                    None => None,
                }),
            ),
    {
        let abs = path_join(repo_root, path);
        let snap = FileSnapshot { path: abs, prior_content };
        let ghost before = self.snapshots@;
        self.snapshots.push(snap);
        assert(self.snapshots@.map_values(|s: FileSnapshot| snapshot_view(s)) =~= before.map_values(
            |s: FileSnapshot| snapshot_view(s),
        ).push(snapshot_view(snap)));
    }

    /// The snapshots in the order undo restores them: newest first.
    pub fn undo_order(&self) -> (r: Vec<&FileSnapshot>)
        ensures
            r@.len() == self.view_snapshots().len(),
            forall|i: int| 0 <= i < r@.len() ==> snapshot_view(*#[trigger] r@[i]) == self.view_snapshots()[self.view_snapshots().len() - 1 - i],
    {
        let mut out: Vec<&FileSnapshot> = Vec::new();
        let n = self.snapshots.len();
        let mut i: usize = 0;
        while i < n
            invariant
                n == self.snapshots.len(),
                0 <= i <= n,
                out@.len() == i,
                forall|k: int| 0 <= k < i ==> #[trigger] out@[k] == &self.snapshots@[n - 1 - k],
            decreases n - i,
        {
            out.push(&self.snapshots[n - 1 - i]);
            i = i + 1;
        }
        out
    }
}

} // verus!

verus! {

/// Files as data: each path that exists, with its contents.
pub type FileSystemView = Map<Seq<char>, Seq<u8>>;

/// Putting one snapshot back: the file gets its prior contents, or is
/// removed when it did not exist.
pub open spec fn restore_one(fs: FileSystemView, snap: (Seq<char>, Option<Seq<u8>>)) -> FileSystemView {
    match snap.1 {
        Some(c) => fs.insert(snap.0, c),
        None => fs.remove(snap.0),
    }
}

/// Undoing a turn: the snapshots (oldest first) are put back newest first,
/// as `undo_order` gives them.
pub open spec fn undo_files(fs: FileSystemView, snaps: Seq<(Seq<char>, Option<Seq<u8>>)>) -> FileSystemView
    decreases snaps.len(),
{
    if snaps.len() == 0 {
        fs
    } else {
        undo_files(restore_one(fs, snaps.last()), snaps.drop_last())
    }
}

/// What a path held when it was first recorded (`Some(None)` when it did
/// not exist then); `None` when it was never recorded.
pub open spec fn first_recorded(snaps: Seq<(Seq<char>, Option<Seq<u8>>)>, path: Seq<char>) -> Option<Option<Seq<u8>>>
    decreases snaps.len(),
{
    if snaps.len() == 0 {
        None
    } else {
        match first_recorded(snaps.drop_last(), path) {
            Some(c) => Some(c),
            None => if snaps.last().0 == path {
                Some(snaps.last().1)
            } else {
                None
            },
        }
    }
}

} // verus!
