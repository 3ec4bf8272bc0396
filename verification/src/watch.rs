use crate::types::{
    DayLog, FileEvent, FileEventView, Quantity, Session, SessionEvents, SessionEventsView,
    SessionTotals,
};
use vstd::prelude::*;

verus! {

/// How close together (in nanoseconds) two events on one path must be for the
/// second to be dropped as a repeat of the first: half a second.
pub const DEBOUNCE_WINDOW_NANOS: u64 = 500_000_000;

/// The kind of a change that the file-system watcher reports.
#[derive(Clone, Copy, Debug, PartialEq, Eq, Structural)]
pub enum ChangeKind {
    Create,
    Modify,
    Remove,
    /// A rename reported with both its paths: the old one, then the new one.
    RenameBoth,
    /// The old path of a rename, reported on its own.
    RenameFrom,
    /// The new path of a rename, reported on its own.
    RenameTo,
    /// Any other kind (access, or a kind the watcher could not tell).
    Other,
}

/// A change reported by the file-system watcher: its kind, the paths it concerns,
/// and the tracker by which the watcher ties the two halves of one rename together
/// (when it has one).
#[derive(Clone, Debug)]
pub struct WatchEvent {
    pub kind: ChangeKind,
    pub paths: Vec<String>,
    pub tracker: Option<usize>,
}

/// The file event that a watcher change stands for on its own, if ptracker records
/// it: the first path of a creation, modification or removal; the old and the new
/// path of a rename reported with both; and, for one side of a rename reported alone
/// (or a rename that came with one path only), a modification of that path.
pub open spec fn file_event_of(kind: ChangeKind, paths: Seq<Seq<char>>) -> Option<FileEventView> {
    if paths.len() == 0 {
        None
    } else {
        match kind {
            ChangeKind::Create => Some(FileEventView::Created(paths[0])),
            ChangeKind::Modify => Some(FileEventView::Modified(paths[0])),
            ChangeKind::Remove => Some(FileEventView::Deleted(paths[0])),
            ChangeKind::RenameBoth => if paths.len() >= 2 {
                Some(FileEventView::Renamed(paths[0], paths[1]))
            } else {
                Some(FileEventView::Modified(paths[0]))
            },
            ChangeKind::RenameFrom => Some(FileEventView::Modified(paths[0])),
            ChangeKind::RenameTo => Some(FileEventView::Modified(paths[0])),
            ChangeKind::Other => None,
        }
    }
}

/// The old half of a rename that waits for its new half: the old path and the
/// watcher's tracker.
pub type PendingRename = (Seq<char>, Option<usize>);

/// What a waiting old half becomes when its new half does not follow: a
/// modification of the old path (what the watcher's own reading of it is).
pub open spec fn flushed(pending: Option<PendingRename>) -> Seq<FileEventView> {
    match pending {
        Some((p, _)) => seq![FileEventView::Modified(p)],
        None => Seq::empty(),
    }
}

/// An optional event as a sequence of none or one event.
pub open spec fn opt_seq(e: Option<FileEventView>) -> Seq<FileEventView> {
    match e {
        Some(x) => seq![x],
        None => Seq::empty(),
    }
}

/// Within a session, the events that a watcher change leads to, in order, and the old
/// half of a rename that waits afterwards. The old half of a rename is held; the new
/// half that follows it at once, with the same tracker, makes the rename. Anything
/// else that comes ends the wait: the held old half then counts as a modification of
/// its path, recorded before the change that came (a new half that does not match
/// is a modification of its own path; a second old half is held in its place).
pub open spec fn session_events_of(
    pending: Option<PendingRename>,
    kind: ChangeKind,
    paths: Seq<Seq<char>>,
    tracker: Option<usize>,
) -> (Seq<FileEventView>, Option<PendingRename>) {
    if paths.len() == 0 {
        (flushed(pending), None)
    } else {
        match kind {
            ChangeKind::RenameFrom => (flushed(pending), Some((paths[0], tracker))),
            ChangeKind::RenameTo => match pending {
                Some((p, t)) => if t == tracker {
                    (seq![FileEventView::Renamed(p, paths[0])], None)
                } else {
                    (seq![FileEventView::Modified(p), FileEventView::Modified(paths[0])], None)
                },
                None => (seq![FileEventView::Modified(paths[0])], None),
            },
            _ => (flushed(pending) + opt_seq(file_event_of(kind, paths)), None),
        }
    }
}

/// The events of a list, as values of the model.
pub open spec fn events_view(v: Seq<FileEvent>) -> Seq<FileEventView> {
    v.map_values(|e: FileEvent| e@)
}

/// The events of `cands` that are recorded, in order, when each in turn is put to the
/// debouncer at time `at`, and when each path was last recorded afterwards.
pub open spec fn debounce_run(seen: Map<Seq<char>, u64>, cands: Seq<FileEventView>, at: u64) -> (
    Seq<FileEventView>,
    Map<Seq<char>, u64>,
)
    decreases cands.len(),
{
    if cands.len() == 0 {
        (Seq::empty(), seen)
    } else {
        let (kept, s) = debounce_run(seen, cands.drop_last(), at);
        let c = cands.last();
        if debounce_accepts(s, event_key(c), at) {
            (kept.push(c), s.insert(event_key(c), at))
        } else {
            (kept, s)
        }
    }
}

/// The paths of a watcher change, as values of the model.
pub open spec fn paths_view(event: &WatchEvent) -> Seq<Seq<char>> {
    event.paths@.map_values(|p: String| p@)
}

/// The file event that a watcher change stands for, if ptracker records it.
pub fn map_file_event(event: &WatchEvent) -> (r: Option<FileEvent>)
    ensures
        match r {
            Some(e) => file_event_of(event.kind, paths_view(event)) == Some(e@),
            None => file_event_of(event.kind, paths_view(event)) is None,
        },
{
    if event.paths.len() == 0 {
        return None;
    }
    let path = event.paths[0].clone();
    assert(paths_view(event)[0] == event.paths@[0]@);
    match event.kind {
        ChangeKind::Create => Some(FileEvent::Created(path)),
        ChangeKind::Modify => Some(FileEvent::Modified(path)),
        ChangeKind::Remove => Some(FileEvent::Deleted(path)),
        ChangeKind::RenameBoth => {
            if event.paths.len() >= 2 {
                let new_path = event.paths[1].clone();
                assert(paths_view(event)[1] == event.paths@[1]@);
                Some(FileEvent::Renamed(path, new_path))
            } else {
                Some(FileEvent::Modified(path))
            }
        },
        ChangeKind::RenameFrom => Some(FileEvent::Modified(path)),
        ChangeKind::RenameTo => Some(FileEvent::Modified(path)),
        ChangeKind::Other => None,
    }
}

/// The path by which repeats of an event are recognized: its (first) path.
pub open spec fn event_key(e: FileEventView) -> Seq<char> {
    match e {
        FileEventView::Created(p) => p,
        FileEventView::Modified(p) => p,
        FileEventView::Renamed(p, _) => p,
        FileEventView::Deleted(p) => p,
    }
}

/// The line that the activity log gets for an event seen at `time`.
pub open spec fn log_line_of(e: FileEventView, time: Seq<char>) -> Seq<char> {
    match e {
        FileEventView::Created(p) => "["@ + time + "] + Created  "@ + p,
        FileEventView::Modified(p) => "["@ + time + "] ~ Modified "@ + p,
        FileEventView::Deleted(p) => "["@ + time + "] - Deleted  "@ + p,
        FileEventView::Renamed(a, b) => "["@ + time + "] > Renamed  "@ + a + " → "@ + b,
    }
}

impl FileEvent {
    /// The path by which repeats of this event are recognized.
    pub fn path_key(&self) -> (k: String)
        ensures
            k@ == event_key(self@),
    {
        match self {
            FileEvent::Created(p) => p.clone(),
            FileEvent::Modified(p) => p.clone(),
            FileEvent::Renamed(p, _) => p.clone(),
            FileEvent::Deleted(p) => p.clone(),
        }
    }

    /// The line that the day's activity log gets for this event, seen at `time`.
    pub fn log_line(&self, time: &str) -> (line: String)
        ensures
            line@ == log_line_of(self@, time@),
    {
        let mut line = String::from_str("[");
        line.append(time);
        match self {
            FileEvent::Created(p) => {
                line.append("] + Created  ");
                line.append(p.as_str());
            },
            FileEvent::Modified(p) => {
                line.append("] ~ Modified ");
                line.append(p.as_str());
            },
            FileEvent::Deleted(p) => {
                line.append("] - Deleted  ");
                line.append(p.as_str());
            },
            FileEvent::Renamed(a, b) => {
                line.append("] > Renamed  ");
                line.append(a.as_str());
                line.append(" → ");
                line.append(b.as_str());
            },
        }
        line
    }

    fn copy(&self) -> (e: FileEvent)
        ensures
            e@ == self@,
    {
        match self {
            FileEvent::Created(p) => FileEvent::Created(p.clone()),
            FileEvent::Modified(p) => FileEvent::Modified(p.clone()),
            FileEvent::Renamed(a, b) => FileEvent::Renamed(a.clone(), b.clone()),
            FileEvent::Deleted(p) => FileEvent::Deleted(p.clone()),
        }
    }
}

/// When each path was last recorded, as a map; later entries win.
pub open spec fn seen_map(s: Seq<(Seq<char>, u64)>) -> Map<Seq<char>, u64>
    decreases s.len(),
{
    if s.len() == 0 {
        Map::empty()
    } else {
        seen_map(s.drop_last()).insert(s.last().0, s.last().1)
    }
}

/// No path occurs twice.
pub open spec fn keys_distinct(s: Seq<(Seq<char>, u64)>) -> bool {
    forall|i: int, j: int| 0 <= i < s.len() && 0 <= j < s.len() && i != j ==> #[trigger] s[i].0 != #[trigger] s[j].0
}

/// Whether an event on a path at time `at` is recorded, given when paths were last
/// recorded: always the first time, afterwards once the window has passed.
pub open spec fn debounce_accepts(seen: Map<Seq<char>, u64>, key: Seq<char>, at: u64) -> bool {
    !seen.contains_key(key) || at >= seen[key] + DEBOUNCE_WINDOW_NANOS
}

proof fn lemma_seen_map_lookup(s: Seq<(Seq<char>, u64)>, i: int)
    requires
        keys_distinct(s),
        0 <= i < s.len(),
    ensures
        seen_map(s).contains_key(s[i].0),
        seen_map(s)[s[i].0] == s[i].1,
    decreases s.len(),
{
    if i < s.len() - 1 {
        let t = s.drop_last();
        assert(t[i] == s[i]);
        assert(s[i].0 != s[s.len() - 1].0);
        lemma_seen_map_lookup(t, i);
    }
}

proof fn lemma_seen_map_absent(s: Seq<(Seq<char>, u64)>, key: Seq<char>)
    requires
        forall|i: int| 0 <= i < s.len() ==> #[trigger] s[i].0 != key,
    ensures
        !seen_map(s).contains_key(key),
    decreases s.len(),
{
    if s.len() > 0 {
        let t = s.drop_last();
        assert forall|i: int| 0 <= i < t.len() implies #[trigger] t[i].0 != key by {
            assert(t[i] == s[i]);
        }
        lemma_seen_map_absent(t, key);
        assert(s[s.len() - 1].0 != key);
    }
}

proof fn lemma_seen_map_update(s: Seq<(Seq<char>, u64)>, i: int, at: u64)
    requires
        keys_distinct(s),
        0 <= i < s.len(),
    ensures
        seen_map(s.update(i, (s[i].0, at))) == seen_map(s).insert(s[i].0, at),
    decreases s.len(),
{
    let u = s.update(i, (s[i].0, at));
    let last = s.len() - 1;
    if i == last {
        assert(u.drop_last() =~= s.drop_last());
        assert(seen_map(u) =~= seen_map(s).insert(s[i].0, at));
    } else {
        let t = s.drop_last();
        assert(t[i] == s[i]);
        assert(keys_distinct(t)) by {
            assert forall|a: int, b: int| 0 <= a < t.len() && 0 <= b < t.len() && a != b
                implies #[trigger] t[a].0 != #[trigger] t[b].0 by {
                assert(t[a] == s[a] && t[b] == s[b]);
            }
        }
        lemma_seen_map_update(t, i, at);
        assert(u.drop_last() =~= t.update(i, (t[i].0, at)));
        assert(s[i].0 != s[last].0);
        assert(seen_map(u) =~= seen_map(s).insert(s[i].0, at));
    }
}

/// The entries of a list of (path, time) pairs, as values of the model.
pub open spec fn entries_of(v: Seq<(String, u64)>) -> Seq<(Seq<char>, u64)> {
    v.map_values(|e: (String, u64)| (e.0@, e.1))
}

proof fn lemma_keys_distinct_update(s: Seq<(Seq<char>, u64)>, i: int, at: u64)
    requires
        keys_distinct(s),
        0 <= i < s.len(),
    ensures
        keys_distinct(s.update(i, (s[i].0, at))),
{
    let u = s.update(i, (s[i].0, at));
    assert forall|a: int, b: int| 0 <= a < u.len() && 0 <= b < u.len() && a != b
        implies #[trigger] u[a].0 != #[trigger] u[b].0 by {
        assert(u[a].0 == s[a].0 && u[b].0 == s[b].0);
    }
}

/// When each path was last recorded during a session, to drop repeats of an event.
pub struct Debouncer {
    last_seen: Vec<(String, u64)>,
}

impl Debouncer {
    /// The entries, as values of the model.
    pub closed spec fn entries(&self) -> Seq<(Seq<char>, u64)> {
        entries_of(self.last_seen@)
    }

    /// When each path was last recorded.
    pub closed spec fn seen(&self) -> Map<Seq<char>, u64> {
        seen_map(self.entries())
    }

    /// Each path is held once.
    #[verifier::type_invariant]
    closed spec fn wf(&self) -> bool {
        keys_distinct(entries_of(self.last_seen@))
    }

    /// A debouncer that has recorded nothing.
    pub fn new() -> (d: Debouncer)
        ensures
            d.seen() == Map::<Seq<char>, u64>::empty(),
    {
        let v: Vec<(String, u64)> = Vec::new();
        assert(entries_of(v@) =~= Seq::<(Seq<char>, u64)>::empty());
        Debouncer { last_seen: v }
    }

    /// Decides whether an event on `key` at `at_nanos` (time since the session began)
    /// is recorded, and if so notes that time for `key`.
    pub fn accept(&mut self, key: &String, at_nanos: u64) -> (recorded: bool)
        ensures
            recorded == debounce_accepts(old(self).seen(), key@, at_nanos),
            recorded ==> final(self).seen() == old(self).seen().insert(key@, at_nanos),
            !recorded ==> final(self).seen() == old(self).seen(),
    {
        proof {
            use_type_invariant(&*self);
        }
        let mut v: Vec<(String, u64)> = Vec::new();
        std::mem::swap(&mut v, &mut self.last_seen);
        let ghost before = entries_of(v@);
        assert(before == old(self).entries());
        let n = v.len();
        let mut i: usize = 0;
        while i < n
            invariant
                n == v@.len(),
                i <= n,
                entries_of(v@) == before,
                before == old(self).entries(),
                keys_distinct(before),
                forall|k: int| 0 <= k < i ==> #[trigger] before[k].0 != key@,
            decreases n - i,
        {
            if v[i].0 == *key {
                let last = v[i].1;
                proof {
                    assert(before[i as int] == (key@, last));
                    lemma_seen_map_lookup(before, i as int);
                }
                if at_nanos < last || at_nanos - last < DEBOUNCE_WINDOW_NANOS {
                    self.last_seen = v;
                    return false;
                }
                v.set(i, (key.clone(), at_nanos));
                proof {
                    assert(entries_of(v@) =~= before.update(i as int, (before[i as int].0, at_nanos)));
                    lemma_seen_map_update(before, i as int, at_nanos);
                    lemma_keys_distinct_update(before, i as int, at_nanos);
                }
                self.last_seen = v;
                return true;
            }
            i = i + 1;
        }
        proof {
            lemma_seen_map_absent(before, key@);
        }
        v.push((key.clone(), at_nanos));
        assert(entries_of(v@) =~= before.push((key@, at_nanos)));
        assert(entries_of(v@).drop_last() =~= before);
        assert(keys_distinct(entries_of(v@))) by {
            let s = entries_of(v@);
            assert forall|a: int, b: int| 0 <= a < s.len() && 0 <= b < s.len() && a != b
                implies #[trigger] s[a].0 != #[trigger] s[b].0 by {
                if a < before.len() && b < before.len() {
                    assert(s[a] == before[a] && s[b] == before[b]);
                } else if a < before.len() {
                    assert(s[a] == before[a]);
                    assert(before[a].0 != key@);
                } else {
                    assert(s[b] == before[b]);
                    assert(before[b].0 != key@);
                }
            }
        }
        self.last_seen = v;
        true
    }
}

/// What the events recorded so far would become after recording `e`.
pub open spec fn events_after(ev: SessionEventsView, e: FileEventView) -> SessionEventsView {
    match e {
        FileEventView::Created(p) => SessionEventsView { created: ev.created.push(p), ..ev },
        FileEventView::Modified(p) => SessionEventsView { modified: ev.modified.push(p), ..ev },
        FileEventView::Deleted(p) => SessionEventsView { deleted: ev.deleted.push(p), ..ev },
        FileEventView::Renamed(a, b) => SessionEventsView { renamed: ev.renamed.push((a, b)), ..ev },
    }
}

/// The count that recording `e` raises has room below the largest `u32`.
pub open spec fn totals_have_room(t: SessionTotals, e: FileEventView) -> bool {
    match e {
        FileEventView::Created(_) => t.created < u32::MAX,
        FileEventView::Modified(_) => t.modified < u32::MAX,
        FileEventView::Deleted(_) => t.deleted < u32::MAX,
        FileEventView::Renamed(_, _) => t.renamed < u32::MAX,
    }
}

/// The totals after counting `e`.
pub open spec fn totals_after(t: SessionTotals, e: FileEventView) -> SessionTotals {
    match e {
        FileEventView::Created(_) => SessionTotals { created: (t.created + 1) as u32, ..t },
        FileEventView::Modified(_) => SessionTotals { modified: (t.modified + 1) as u32, ..t },
        FileEventView::Deleted(_) => SessionTotals { deleted: (t.deleted + 1) as u32, ..t },
        FileEventView::Renamed(_, _) => SessionTotals { renamed: (t.renamed + 1) as u32, ..t },
    }
}

/// Each total counts the paths recorded under its kind.
pub open spec fn totals_match(ev: SessionEventsView, t: SessionTotals) -> bool {
    &&& t.created == ev.created.len()
    &&& t.modified == ev.modified.len()
    &&& t.deleted == ev.deleted.len()
    &&& t.renamed == ev.renamed.len()
}

impl SessionEvents {
    /// Records the path (or the two paths) of `e` under its kind.
    pub fn record(&mut self, e: &FileEvent)
        ensures
            final(self)@ == events_after(old(self)@, e@),
    {
        let ghost before = *self;
        match e {
            FileEvent::Created(p) => {
                self.created.push(p.clone());
                assert(self.created@.map_values(|p: String| p@) =~= before.created@.map_values(
                    |p: String| p@,
                ).push(p@));
            },
            FileEvent::Modified(p) => {
                self.modified.push(p.clone());
                assert(self.modified@.map_values(|p: String| p@) =~= before.modified@.map_values(
                    |p: String| p@,
                ).push(p@));
            },
            FileEvent::Deleted(p) => {
                self.deleted.push(p.clone());
                assert(self.deleted@.map_values(|p: String| p@) =~= before.deleted@.map_values(
                    |p: String| p@,
                ).push(p@));
            },
            FileEvent::Renamed(a, b) => {
                self.renamed.push((a.clone(), b.clone()));
                assert(self.renamed@.map_values(|r: (String, String)| (r.0@, r.1@))
                    =~= before.renamed@.map_values(|r: (String, String)| (r.0@, r.1@)).push(
                    (a@, b@),
                ));
            },
        }
    }
}

impl SessionTotals {
    /// Whether counting `e` stays within `u32`.
    pub fn has_room(&self, e: &FileEvent) -> (b: bool)
        ensures
            b == totals_have_room(*self, e@),
    {
        match e {
            FileEvent::Created(_) => self.created < u32::MAX,
            FileEvent::Modified(_) => self.modified < u32::MAX,
            FileEvent::Deleted(_) => self.deleted < u32::MAX,
            FileEvent::Renamed(_, _) => self.renamed < u32::MAX,
        }
    }

    /// Counts one more event of the kind of `e`.
    pub fn record(&mut self, e: &FileEvent)
        requires
            totals_have_room(*old(self), e@),
        ensures
            *final(self) == totals_after(*old(self), e@),
    {
        match e {
            FileEvent::Created(_) => self.created = self.created + 1,
            FileEvent::Modified(_) => self.modified = self.modified + 1,
            FileEvent::Deleted(_) => self.deleted = self.deleted + 1,
            FileEvent::Renamed(_, _) => self.renamed = self.renamed + 1,
        }
    }
}

/// What the watch loop hands over after each wait for the watcher.
pub enum WatchInput {
    /// The watcher reported a change, `at_nanos` after the session began.
    Change { event: WatchEvent, at_nanos: u64 },
    /// The watcher reported an error.
    Failure,
    /// Nothing arrived within the wait, which ended `at_nanos` after the session began.
    Timeout { at_nanos: u64 },
    /// The watcher is gone.
    Disconnected,
}

/// What the watch loop does after recording the events of a step.
#[derive(Debug)]
pub enum WatchAction {
    /// Show the watcher's error, then wait again.
    ReportFailure,
    /// Wait again.
    Continue,
    /// End the session.
    Stop,
}

/// The outcome of a step: the events to log and record, in order, and what to do next.
#[derive(Debug)]
pub struct WatchStep {
    pub record: Vec<FileEvent>,
    pub next: WatchAction,
}

/// The state of a watch session: which paths were seen when, the old half of a rename
/// that waits for its new half, and what was recorded. Its totals always count the
/// paths recorded under each kind.
pub struct WatchSession {
    debounce: Debouncer,
    pending_rename: Option<(String, Option<usize>)>,
    log: SessionLog,
}

/// What a session recorded: the paths by kind and their totals.
struct SessionLog {
    events: SessionEvents,
    totals: SessionTotals,
}

impl SessionLog {
    fn empty() -> (l: SessionLog)
        ensures
            l.events@.created.len() == 0,
            l.events@.modified.len() == 0,
            l.events@.deleted.len() == 0,
            l.events@.renamed.len() == 0,
            l.totals == (SessionTotals { created: 0, modified: 0, deleted: 0, renamed: 0 }),
    {
        SessionLog { events: SessionEvents::default(), totals: SessionTotals::default() }
    }
}

impl WatchSession {
    /// Each total counts the paths recorded under its kind.
    #[verifier::type_invariant]
    spec fn totals_count_events(&self) -> bool {
        totals_match(self.log.events@, self.log.totals)
    }

    /// When each path was last recorded.
    pub closed spec fn seen(&self) -> Map<Seq<char>, u64> {
        self.debounce.seen()
    }

    /// The old half of a rename that waits for its new half.
    pub closed spec fn pending(&self) -> Option<PendingRename> {
        match self.pending_rename {
            Some((p, t)) => Some((p@, t)),
            None => None,
        }
    }

    /// The paths recorded so far, by kind.
    pub closed spec fn recorded(&self) -> SessionEventsView {
        self.log.events@
    }

    /// The totals recorded so far.
    pub closed spec fn counted(&self) -> SessionTotals {
        self.log.totals
    }

    /// A session that has seen and recorded nothing.
    pub fn new() -> (s: WatchSession)
        ensures
            s.seen() == Map::<Seq<char>, u64>::empty(),
            s.pending() is None,
            s.recorded().created.len() == 0,
            s.recorded().modified.len() == 0,
            s.recorded().deleted.len() == 0,
            s.recorded().renamed.len() == 0,
            s.counted() == (SessionTotals { created: 0, modified: 0, deleted: 0, renamed: 0 }),
    {
        WatchSession {
            debounce: Debouncer::new(),
            pending_rename: None,
            log: SessionLog::empty(),
        }
    }

    /// The totals recorded so far; they count the paths recorded under each kind.
    pub fn totals(&self) -> (t: SessionTotals)
        ensures
            t == self.counted(),
            totals_match(self.recorded(), t),
    {
        proof {
            use_type_invariant(self);
        }
        self.log.totals
    }

    /// The paths recorded so far, by kind.
    pub fn events(&self) -> (e: &SessionEvents)
        ensures
            e@ == self.recorded(),
    {
        &self.log.events
    }

    /// The old path of the rename half that waits, if any.
    pub fn pending_path(&self) -> (p: Option<String>)
        ensures
            match p {
                Some(s) => self.pending() matches Some(w) && w.0 == s@,
                None => self.pending() is None,
            },
    {
        match &self.pending_rename {
            Some((p, _)) => Some(p.clone()),
            None => None,
        }
    }

    /// Whether counting `e` stays within `u32`.
    pub fn has_room(&self, e: &FileEvent) -> (b: bool)
        ensures
            b == totals_have_room(self.counted(), e@),
    {
        self.log.totals.has_room(e)
    }

    /// What the session recorded, with totals that count the paths under each kind.
    pub fn into_parts(self) -> (r: (SessionEvents, SessionTotals))
        ensures
            r.0@ == self.recorded(),
            r.1 == self.counted(),
            totals_match(r.0@, r.1),
    {
        proof {
            use_type_invariant(&self);
        }
        let WatchSession { debounce: _, pending_rename: _, log } = self;
        (log.events, log.totals)
    }

    /// The held old half of a rename, given up as a modification of its path.
    fn take_pending(&mut self) -> (r: Vec<FileEvent>)
        ensures
            events_view(r@) == flushed(old(self).pending()),
            final(self).pending() is None,
            final(self).debounce == old(self).debounce,
            final(self).log == old(self).log,
    {
        proof {
            use_type_invariant(&*self);
        }
        let mut r: Vec<FileEvent> = Vec::new();
        let mut pending: Option<(String, Option<usize>)> = None;
        std::mem::swap(&mut pending, &mut self.pending_rename);
        match pending {
            Some((p, _)) => {
                r.push(FileEvent::Modified(p));
                assert(events_view(r@) =~= flushed(old(self).pending()));
            },
            None => {
                assert(events_view(r@) =~= flushed(old(self).pending()));
            },
        }
        r
    }

    /// The events that a watcher change leads to within this session, updating the
    /// old half of a rename that waits.
    fn session_events(&mut self, event: &WatchEvent) -> (r: Vec<FileEvent>)
        ensures
            final(self).debounce == old(self).debounce,
            final(self).log == old(self).log,
            (events_view(r@), final(self).pending()) == session_events_of(
                old(self).pending(),
                event.kind,
                paths_view(event),
                event.tracker,
            ),
    {
        proof {
            use_type_invariant(&*self);
        }
        if event.paths.len() == 0 {
            return self.take_pending();
        }
        assert(paths_view(event)[0] == event.paths@[0]@);
        match event.kind {
            ChangeKind::RenameFrom => {
                let r = self.take_pending();
                proof {
                    use_type_invariant(&*self);
                }
                self.pending_rename = Some((event.paths[0].clone(), event.tracker));
                r
            },
            ChangeKind::RenameTo => {
                let new_path = event.paths[0].clone();
                let mut pending: Option<(String, Option<usize>)> = None;
                std::mem::swap(&mut pending, &mut self.pending_rename);
                let mut r: Vec<FileEvent> = Vec::new();
                match pending {
                    Some((old_path, t)) => {
                        if t == event.tracker {
                            r.push(FileEvent::Renamed(old_path, new_path));
                        } else {
                            r.push(FileEvent::Modified(old_path));
                            r.push(FileEvent::Modified(new_path));
                        }
                    },
                    None => {
                        r.push(FileEvent::Modified(new_path));
                    },
                }
                assert(events_view(r@) =~= session_events_of(
                    old(self).pending(),
                    event.kind,
                    paths_view(event),
                    event.tracker,
                ).0);
                r
            },
            _ => {
                let mut r = self.take_pending();
                let ghost before = events_view(r@);
                match map_file_event(event) {
                    Some(e) => {
                        r.push(e);
                    },
                    None => {},
                }
                assert(events_view(r@) =~= before + opt_seq(
                    file_event_of(event.kind, paths_view(event)),
                ));
                r
            },
        }
    }

    /// Puts each of `cands` in turn to the debouncer at `at_nanos` and keeps, in
    /// order, those that it lets through.
    fn debounce_all(&mut self, cands: Vec<FileEvent>, at_nanos: u64) -> (r: Vec<FileEvent>)
        ensures
            (events_view(r@), final(self).seen()) == debounce_run(
                old(self).seen(),
                events_view(cands@),
                at_nanos,
            ),
            final(self).pending_rename == old(self).pending_rename,
            final(self).log == old(self).log,
    {
        proof {
            use_type_invariant(&*self);
        }
        let mut r: Vec<FileEvent> = Vec::new();
        let mut debounce = Debouncer::new();
        std::mem::swap(&mut debounce, &mut self.debounce);
        let n = cands.len();
        let mut i: usize = 0;
        while i < n
            invariant
                n == cands@.len(),
                i <= n,
                (events_view(r@), debounce.seen()) == debounce_run(
                    old(self).seen(),
                    events_view(cands@).take(i as int),
                    at_nanos,
                ),
                self.pending_rename == old(self).pending_rename,
                self.log == old(self).log,
            decreases n - i,
        {
            let ghost kept = events_view(r@);
            let ghost taken = events_view(cands@).take(i + 1);
            assert(taken.drop_last() =~= events_view(cands@).take(i as int));
            assert(taken.last() == cands@[i as int]@);
            let e = cands[i].copy();
            let key = e.path_key();
            if debounce.accept(&key, at_nanos) {
                r.push(e);
                assert(events_view(r@) =~= kept.push(cands@[i as int]@));
            }
            i = i + 1;
        }
        assert(events_view(cands@).take(n as int) =~= events_view(cands@));
        self.debounce = debounce;
        r
    }

    /// Decides what to do with what the watcher handed over, `running` telling whether
    /// the user has not yet asked to stop. A change leads to file events (the two
    /// halves of a rename are paired up, a held half that gets no partner counts as a
    /// modification), and each is to be recorded unless it repeats, within the
    /// window, an event on the same path. A timeout ends the wait of a held half.
    pub fn step(&mut self, running: bool, input: WatchInput) -> (r: WatchStep)
        ensures
            final(self).recorded() == old(self).recorded(),
            final(self).counted() == old(self).counted(),
            match input {
                WatchInput::Change { event, at_nanos } => if !running {
                    &&& r.record@.len() == 0
                    &&& r.next is Stop
                    &&& final(self).seen() == old(self).seen()
                    &&& final(self).pending() == old(self).pending()
                } else {
                    let (cands, pending) = session_events_of(
                        old(self).pending(),
                        event.kind,
                        paths_view(&event),
                        event.tracker,
                    );
                    &&& (events_view(r.record@), final(self).seen()) == debounce_run(
                        old(self).seen(),
                        cands,
                        at_nanos,
                    )
                    &&& final(self).pending() == pending
                    &&& r.next is Continue
                },
                WatchInput::Timeout { at_nanos } => {
                    &&& (events_view(r.record@), final(self).seen()) == debounce_run(
                        old(self).seen(),
                        flushed(old(self).pending()),
                        at_nanos,
                    )
                    &&& final(self).pending() is None
                    &&& r.next is Continue
                },
                WatchInput::Failure => {
                    &&& r.record@.len() == 0
                    &&& r.next is ReportFailure
                    &&& final(self).seen() == old(self).seen()
                    &&& final(self).pending() == old(self).pending()
                },
                WatchInput::Disconnected => {
                    &&& r.record@.len() == 0
                    &&& r.next is Stop
                    &&& final(self).seen() == old(self).seen()
                    &&& final(self).pending() == old(self).pending()
                },
            },
    {
        match input {
            WatchInput::Change { event, at_nanos } => {
                if !running {
                    return WatchStep { record: Vec::new(), next: WatchAction::Stop };
                }
                let cands = self.session_events(&event);
                let record = self.debounce_all(cands, at_nanos);
                WatchStep { record, next: WatchAction::Continue }
            },
            WatchInput::Timeout { at_nanos } => {
                let cands = self.take_pending();
                let record = self.debounce_all(cands, at_nanos);
                WatchStep { record, next: WatchAction::Continue }
            },
            WatchInput::Failure => WatchStep { record: Vec::new(), next: WatchAction::ReportFailure },
            WatchInput::Disconnected => WatchStep { record: Vec::new(), next: WatchAction::Stop },
        }
    }

    /// Ends the session at `at_nanos`: a held old half of a rename counts as a
    /// modification of its path, to be recorded unless it repeats an event on that
    /// path within the window.
    pub fn finish(&mut self, at_nanos: u64) -> (r: Vec<FileEvent>)
        ensures
            final(self).recorded() == old(self).recorded(),
            final(self).counted() == old(self).counted(),
            (events_view(r@), final(self).seen()) == debounce_run(
                old(self).seen(),
                flushed(old(self).pending()),
                at_nanos,
            ),
            final(self).pending() is None,
    {
        let cands = self.take_pending();
        self.debounce_all(cands, at_nanos)
    }

    /// Records an event that the session decided to record: its path under its kind,
    /// and one more in the matching total.
    pub fn record(&mut self, e: &FileEvent)
        requires
            totals_have_room(old(self).counted(), e@),
        ensures
            final(self).seen() == old(self).seen(),
            final(self).pending() == old(self).pending(),
            final(self).recorded() == events_after(old(self).recorded(), e@),
            final(self).counted() == totals_after(old(self).counted(), e@),
    {
        proof {
            use_type_invariant(&*self);
        }
        let copy = e.copy();
        let mut log = SessionLog::empty();
        std::mem::swap(&mut log, &mut self.log);
        log.events.record(&copy);
        log.totals.record(&copy);
        self.log = log;
    }
}

/// Recording an event keeps each total equal to the number of paths recorded under
/// its kind.
pub proof fn recording_keeps_totals_matching(ev: SessionEventsView, t: SessionTotals, e: FileEventView)
    requires
        totals_match(ev, t),
        totals_have_room(t, e),
    ensures
        totals_match(events_after(ev, e), totals_after(t, e)),
{
}

/// An event repeated on the same path before the window has passed is dropped, and
/// one that comes once the window has passed is recorded.
pub proof fn repeats_within_window_dropped(
    seen: Map<Seq<char>, u64>,
    key: Seq<char>,
    first: u64,
    second: u64,
)
    requires
        debounce_accepts(seen, key, first),
    ensures
        second < first + DEBOUNCE_WINDOW_NANOS ==> !debounce_accepts(seen.insert(key, first), key, second),
        second >= first + DEBOUNCE_WINDOW_NANOS ==> debounce_accepts(seen.insert(key, first), key, second),
{
}

impl DayLog {
    /// The log of a day without sessions yet.
    pub fn new(date: String) -> (d: DayLog)
        ensures
            d.date == date,
            d.sessions@.len() == 0,
            d.total_hours.bits == 0,
    {
        DayLog { date, sessions: Vec::new(), total_hours: Quantity::zero() }
    }

    /// Appends a finished session and sets the day's hours to their new total.
    pub fn add_session(&mut self, session: Session, total_hours: Quantity)
        ensures
            final(self).date == old(self).date,
            final(self).sessions@ == old(self).sessions@.push(session),
            final(self).total_hours == total_hours,
    {
        self.sessions.push(session);
        self.total_hours = total_hours;
    }
}

/// A rename that the watcher reports in two halves with the same tracker, the old
/// path and then the new one, is read as one rename from the old path to the new one,
/// after whatever half was held before counts as a modification; nothing waits
/// afterwards.
pub proof fn rename_halves_pair_up(
    pending: Option<PendingRename>,
    old_path: Seq<char>,
    new_path: Seq<char>,
    tracker: Option<usize>,
)
    ensures
        session_events_of(pending, ChangeKind::RenameFrom, seq![old_path], tracker).0 == flushed(
            pending,
        ),
        session_events_of(
            session_events_of(pending, ChangeKind::RenameFrom, seq![old_path], tracker).1,
            ChangeKind::RenameTo,
            seq![new_path],
            tracker,
        ) == (seq![FileEventView::Renamed(old_path, new_path)], None::<PendingRename>),
{
}

/// An old half of a rename that gets no partner is not lost: whatever comes next
/// (another change, a new half with another tracker, a timeout, or the end of the
/// session) puts it, as a modification of its path, before anything else.
pub proof fn held_half_is_not_lost(
    old_path: Seq<char>,
    tracker: Option<usize>,
    kind: ChangeKind,
    paths: Seq<Seq<char>>,
    other: Option<usize>,
)
    requires
        !(kind == ChangeKind::RenameTo && paths.len() > 0 && other == tracker),
    ensures
        session_events_of(Some((old_path, tracker)), kind, paths, other).0.len() > 0,
        session_events_of(Some((old_path, tracker)), kind, paths, other).0[0]
            == FileEventView::Modified(old_path),
        flushed(Some((old_path, tracker))) == seq![FileEventView::Modified(old_path)],
{
    let r = session_events_of(Some((old_path, tracker)), kind, paths, other).0;
    if paths.len() > 0 && kind != ChangeKind::RenameFrom && kind != ChangeKind::RenameTo {
        assert(r == seq![FileEventView::Modified(old_path)] + opt_seq(file_event_of(kind, paths)));
        assert(r[0] == FileEventView::Modified(old_path));
    }
}

/// With no rename half held, the new half of a rename that comes alone (a file moved
/// in from outside) is a modification of its path, recorded as one event, whatever
/// its tracker; nothing waits afterwards.
pub proof fn lone_new_half_is_a_modification(paths: Seq<Seq<char>>, tracker: Option<usize>)
    requires
        paths.len() > 0,
    ensures
        session_events_of(None, ChangeKind::RenameTo, paths, tracker) == (
            seq![FileEventView::Modified(paths[0])],
            None::<PendingRename>,
        ),
{
}

} // verus!
