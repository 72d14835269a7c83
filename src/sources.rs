use vstd::prelude::*;

use crate::lang::{file_type_of_path, FileType};
use crate::profile::{dev_options, CompileOptions};

verus! {

/// One discovered file: its path, its file type and its compile options.
#[derive(Debug, Clone)]
pub struct Source {
    pub file_path: String,
    pub file_type: FileType,
    pub compile_options: CompileOptions,
}

/// A per-item failure of discovery; the walk goes on past it.
#[derive(Debug, Clone, PartialEq, Eq)]
pub enum DiscoveryError {
    /// The filesystem could not be read here; the cause in words.
    Io(String),
    /// A regular file whose extension is not in the classification table.
    UnknownFileType(String),
}

/// What the filesystem reports about a directory entry, without following links.
#[derive(Debug, Clone, PartialEq, Eq)]
pub enum EntryKind {
    File,
    Dir,
    Symlink,
    /// Neither a file, a directory nor a symbolic link (a socket, a device).
    Other,
    /// The entry's type could not be read; the cause in words.
    Unreadable(String),
}

/// A directory entry waiting to be examined.
#[derive(Debug, Clone, PartialEq, Eq)]
pub struct Entry {
    pub path: String,
    pub kind: EntryKind,
}

/// What the walk is told: the consumer asks for the next item, or the
/// filesystem answers the walk's last request.
#[derive(Debug)]
pub enum WalkEvent {
    /// The consumer asks for the next item.
    Next,
    /// The entries of the directory named by the last `ReadDir`, or why they could not be read.
    Listed(Result<Vec<Entry>, String>),
    /// The target of the link named by the last `ReadLink`, or why it could not be resolved.
    Resolved(Result<Entry, String>),
}

/// What the walk asks for next.
#[derive(Debug)]
pub enum WalkAction {
    /// Nothing is left to examine.
    Finished,
    /// One item of the discovered sequence.
    Yield(Result<Source, DiscoveryError>),
    /// List this directory and answer with `Listed`.
    ReadDir(String),
    /// Resolve this link one level and answer with `Resolved`.
    ReadLink(String),
}

/// The state of a walk: the paths already examined and the entries still pending.
pub struct WalkerView {
    pub visited: Set<Seq<char>>,
    pub pending: Seq<Entry>,
}

/// The set of the views of some strings.
pub open spec fn path_set(v: Seq<String>) -> Set<Seq<char>> {
    Set::new(|p: Seq<char>| exists|i: int| 0 <= i < v.len() && v[i]@ == p)
}

/// Pops pending entries until one whose path is not yet visited; that entry is
/// returned with its path marked visited. `None` when the work list runs out.
pub open spec fn advance_spec(visited: Set<Seq<char>>, pending: Seq<Entry>) -> (Set<Seq<char>>, Seq<Entry>, Option<Entry>)
    decreases pending.len(),
{
    if pending.len() == 0 {
        (visited, pending, None)
    } else {
        let e = pending.last();
        if visited.contains(e.path@) {
            advance_spec(visited, pending.drop_last())
        } else {
            (visited.insert(e.path@), pending.drop_last(), Some(e))
        }
    }
}

/// The message of the error for an entry that is neither file, directory nor link.
pub open spec fn unsupported_message(path: Seq<char>) -> Seq<char> {
    "unsupported entry kind: "@ + path
}

/// The item that a regular file at `path` yields.
pub open spec fn file_item(path: String, item: Result<Source, DiscoveryError>) -> bool {
    match file_type_of_path(path@) {
        Some(t) => item matches Ok(s) && s.file_path == path && s.file_type == t
            && s.compile_options@ == dev_options(),
        None => item == Err::<Source, DiscoveryError>(DiscoveryError::UnknownFileType(path)),
    }
}

/// The action taken on the entry that `advance_spec` handed out.
pub open spec fn action_for(e: Option<Entry>, action: WalkAction) -> bool {
    match e {
        None => action is Finished,
        Some(e) => match e.kind {
            EntryKind::File => action matches WalkAction::Yield(item) && file_item(e.path, item),
            EntryKind::Dir => action == WalkAction::ReadDir(e.path),
            EntryKind::Symlink => action == WalkAction::ReadLink(e.path),
            EntryKind::Other => action matches WalkAction::Yield(Err(DiscoveryError::Io(m)))
                && m@ == unsupported_message(e.path@),
            EntryKind::Unreadable(m) => action == WalkAction::Yield(
                Err(DiscoveryError::Io(m)),
            ),
        },
    }
}

/// The work list once an event's entries are added to it.
pub open spec fn pending_after(pending: Seq<Entry>, event: WalkEvent) -> Seq<Entry> {
    match event {
        WalkEvent::Listed(Ok(es)) => pending + es@,
        WalkEvent::Resolved(Ok(e)) => pending.push(e),
        _ => pending,
    }
}

/// The reported failure carried by an event, if any.
pub open spec fn event_failure(event: WalkEvent) -> Option<String> {
    match event {
        WalkEvent::Listed(Err(m)) => Some(m),
        WalkEvent::Resolved(Err(m)) => Some(m),
        _ => None,
    }
}

/// One step of the walk: from `before`, on `event`, to `after`, taking `action`.
/// A reported failure becomes an `Io` item and changes nothing; otherwise the
/// event's entries join the work list and the next unvisited entry is examined.
pub open spec fn step_rel(before: WalkerView, event: WalkEvent, after: WalkerView, action: WalkAction) -> bool {
    match event_failure(event) {
        Some(m) => after == before && action == WalkAction::Yield(Err(DiscoveryError::Io(m))),
        None => {
            let (v, p, e) = advance_spec(before.visited, pending_after(before.pending, event));
            &&& after.visited == v
            &&& after.pending == p
            &&& action_for(e, action)
        },
    }
}

/// The path that an action hands out (a yielded file, a directory to list, a link to resolve).
pub open spec fn action_path(action: WalkAction) -> Option<Seq<char>> {
    match action {
        WalkAction::Yield(Ok(s)) => Some(s.file_path@),
        WalkAction::Yield(Err(DiscoveryError::UnknownFileType(p))) => Some(p@),
        WalkAction::ReadDir(p) => Some(p@),
        WalkAction::ReadLink(p) => Some(p@),
        _ => None,
    }
}

proof fn lemma_advance_spec(visited: Set<Seq<char>>, pending: Seq<Entry>)
    ensures
        ({
            let (v, p, e) = advance_spec(visited, pending);
            match e {
                None => v == visited,
                Some(e) => !visited.contains(e.path@) && v == visited.insert(e.path@),
            }
        }),
    decreases pending.len(),
{
    if pending.len() > 0 && visited.contains(pending.last().path@) {
        lemma_advance_spec(visited, pending.drop_last());
    }
}

/// A step never forgets an examined path, and any path it hands out (a file
/// yielded, a directory to list, a link to resolve) was not examined before
/// the step and is examined after it.
pub proof fn lemma_step_marks_path(before: WalkerView, event: WalkEvent, after: WalkerView, action: WalkAction)
    requires
        step_rel(before, event, after, action),
    ensures
        before.visited.subset_of(after.visited),
        action_path(action) matches Some(p) ==> !before.visited.contains(p) && after.visited.contains(p),
{
    if event_failure(event) is None {
        lemma_advance_spec(before.visited, pending_after(before.pending, event));
    }
}

/// A step on an event that reports no failure either finishes the walk, or
/// examines exactly one path that was not examined before.
pub proof fn lemma_step_progress(before: WalkerView, event: WalkEvent, after: WalkerView, action: WalkAction)
    requires
        step_rel(before, event, after, action),
        event_failure(event) is None,
    ensures
        action is Finished ==> after.visited == before.visited,
        !(action is Finished) ==> exists|p: Seq<char>|
            !before.visited.contains(p) && after.visited == #[trigger] before.visited.insert(p),
{
    lemma_advance_spec(before.visited, pending_after(before.pending, event));
    let (v, p, e) = advance_spec(before.visited, pending_after(before.pending, event));
    if !(action is Finished) {
        let q = e->0.path@;
        assert(!before.visited.contains(q) && after.visited == before.visited.insert(q));
    }
}

/// A recorded walk: `actions[i]` is what the step on `events[i]` took from
/// `states[i]` to `states[i + 1]`.
pub open spec fn is_walk(states: Seq<WalkerView>, events: Seq<WalkEvent>, actions: Seq<WalkAction>) -> bool {
    &&& states.len() == events.len() + 1
    &&& actions.len() == events.len()
    &&& forall|i: int| 0 <= i < events.len() ==> #[trigger] step_rel(states[i], events[i], states[i + 1], actions[i])
}

proof fn lemma_walk_monotone(states: Seq<WalkerView>, events: Seq<WalkEvent>, actions: Seq<WalkAction>, i: int, j: int)
    requires
        is_walk(states, events, actions),
        0 <= i <= j < states.len(),
    ensures
        states[i].visited.subset_of(states[j].visited),
    decreases j - i,
{
    if i < j {
        let k = j - 1;
        lemma_walk_monotone(states, events, actions, i, k);
        assert(step_rel(states[k], events[k], states[k + 1], actions[k]));
        lemma_step_marks_path(states[k], events[k], states[k + 1], actions[k]);
    }
}

/// Cycle safety: however the filesystem answers (links to a directory itself or
/// to an ancestor included), a walk never hands out the same path twice, so each
/// file is yielded at most once.
pub proof fn lemma_walk_paths_unique(states: Seq<WalkerView>, events: Seq<WalkEvent>, actions: Seq<WalkAction>)
    requires
        is_walk(states, events, actions),
    ensures
        forall|i: int, j: int|
            0 <= i < j < actions.len() && #[trigger] action_path(actions[i]) is Some
                ==> #[trigger] action_path(actions[j]) != action_path(actions[i]),
{
    assert forall|i: int, j: int|
        0 <= i < j < actions.len() && #[trigger] action_path(actions[i]) is Some
            implies #[trigger] action_path(actions[j]) != action_path(actions[i]) by {
        lemma_step_marks_path(states[i], events[i], states[i + 1], actions[i]);
        lemma_step_marks_path(states[j], events[j], states[j + 1], actions[j]);
        lemma_walk_monotone(states, events, actions, i + 1, j);
    }
}

/// A driver keeps to the protocol when it reports a failure only in answer
/// to a request to list a directory or resolve a link.
pub open spec fn failures_answer_requests(events: Seq<WalkEvent>, actions: Seq<WalkAction>) -> bool {
    forall|i: int|
        0 <= i < events.len() && (#[trigger] event_failure(events[i])) is Some ==> i > 0 && (
        actions[i - 1] is ReadDir || actions[i - 1] is ReadLink)
}

proof fn lemma_walk_growth(
    paths: Set<Seq<char>>,
    states: Seq<WalkerView>,
    events: Seq<WalkEvent>,
    actions: Seq<WalkAction>,
    m: int,
)
    requires
        paths.finite(),
        is_walk(states, events, actions),
        forall|i: int| 0 <= i < states.len() ==> (#[trigger] states[i]).visited.subset_of(paths),
        failures_answer_requests(events, actions),
        forall|i: int| 0 <= i < actions.len() ==> !((#[trigger] actions[i]) is Finished),
        0 <= m <= events.len(),
    ensures
        states[m].visited.finite(),
        m <= 2 * (states[m].visited.len() - states[0].visited.len()),
    decreases m,
{
    assert(states[m].visited.subset_of(paths));
    vstd::set_lib::lemma_len_subset(states[m].visited, paths);
    if m > 0 {
        let k = m - 1;
        assert(step_rel(states[k], events[k], states[k + 1], actions[k]));
        assert(!(actions[k] is Finished));
        assert(states[k].visited.subset_of(paths));
        vstd::set_lib::lemma_len_subset(states[k].visited, paths);
        if event_failure(events[k]) is None {
            lemma_walk_growth(paths, states, events, actions, k);
            lemma_step_progress(states[k], events[k], states[k + 1], actions[k]);
            let p = choose|p: Seq<char>| !states[k].visited.contains(p) && states[k + 1].visited == #[trigger] states[k].visited.insert(p);
        } else {
            // The failure answers the request of the step before, which examined a new path.
            let h = k - 1;
            assert(actions[h] is ReadDir || actions[h] is ReadLink);
            assert(step_rel(states[h], events[h], states[h + 1], actions[h]));
            assert(!(actions[h] is Finished));
            assert(event_failure(events[h]) is None);
            assert(states[h].visited.subset_of(paths));
            vstd::set_lib::lemma_len_subset(states[h].visited, paths);
            lemma_walk_growth(paths, states, events, actions, h);
            lemma_step_progress(states[h], events[h], states[h + 1], actions[h]);
            let p = choose|p: Seq<char>| !states[h].visited.contains(p) && states[h + 1].visited == #[trigger] states[h].visited.insert(p);
            assert(states[k + 1] == states[k]);
        }
    }
}

/// Termination: when every path the walk examines lies in a finite set `paths`
/// (the filesystem's, links and their targets included) and the driver reports
/// failures only in answer to the walk's requests, the walk finishes within
/// twice as many steps as there are paths not examined at its start.
pub proof fn lemma_walk_terminates(
    paths: Set<Seq<char>>,
    states: Seq<WalkerView>,
    events: Seq<WalkEvent>,
    actions: Seq<WalkAction>,
)
    requires
        paths.finite(),
        is_walk(states, events, actions),
        forall|i: int| 0 <= i < states.len() ==> (#[trigger] states[i]).visited.subset_of(paths),
        failures_answer_requests(events, actions),
        forall|i: int| 0 <= i < actions.len() ==> !((#[trigger] actions[i]) is Finished),
    ensures
        events.len() <= 2 * (paths.len() - states[0].visited.len()),
{
    let n = events.len() as int;
    lemma_walk_growth(paths, states, events, actions, n);
    assert(states[n].visited.subset_of(paths));
    vstd::set_lib::lemma_len_subset(states[n].visited, paths);
}

/// The entries an event adds to the work list.
pub open spec fn event_entries(event: WalkEvent) -> Seq<Entry> {
    match event {
        WalkEvent::Listed(Ok(es)) => es@,
        WalkEvent::Resolved(Ok(e)) => seq![e],
        _ => Seq::empty(),
    }
}

/// Every entry that has joined the work list before step `n`: those the walk
/// started with, then those of each event in turn.
pub open spec fn joined(initial: Seq<Entry>, events: Seq<WalkEvent>, n: int) -> Seq<Entry>
    decreases n,
{
    if n <= 0 {
        initial
    } else {
        joined(initial, events, n - 1) + event_entries(events[n - 1])
    }
}

/// The entry that a step on `event` from `s` examines, if any.
pub open spec fn examined(s: WalkerView, event: WalkEvent) -> Option<Entry> {
    advance_spec(s.visited, pending_after(s.pending, event)).2
}

/// The entries examined by the first `n` steps of a walk.
pub open spec fn examined_before(states: Seq<WalkerView>, events: Seq<WalkEvent>, n: int) -> Set<Entry>
    decreases n,
{
    if n <= 0 {
        Set::empty()
    } else {
        match examined(states[n - 1], events[n - 1]) {
            Some(e) => examined_before(states, events, n - 1).insert(e),
            None => examined_before(states, events, n - 1),
        }
    }
}

/// No two entries share a path.
pub open spec fn paths_distinct(s: Seq<Entry>) -> bool {
    forall|a: int, b: int| 0 <= a < b < s.len() ==> (#[trigger] s[a]).path@ != (#[trigger] s[b]).path@
}

/// The entries of a directory tree without links: files and directories,
/// each at a path of its own.
pub open spec fn plain_tree(entries: Seq<Entry>) -> bool {
    &&& paths_distinct(entries)
    &&& forall|k: int|
        0 <= k < entries.len() ==> ((#[trigger] entries[k]).kind is File
            || entries[k].kind is Dir)
}

proof fn lemma_pending_after(pending: Seq<Entry>, event: WalkEvent)
    ensures
        pending_after(pending, event) == pending + event_entries(event),
{
    match event {
        WalkEvent::Resolved(Ok(e)) => {
            assert(pending.push(e) =~= pending + seq![e]);
        },
        WalkEvent::Listed(Ok(es)) => {},
        _ => {
            assert(pending + Seq::<Entry>::empty() =~= pending);
        },
    }
}

proof fn lemma_joined_prefix(initial: Seq<Entry>, events: Seq<WalkEvent>, i: int, n: int)
    requires
        0 <= i <= n,
    ensures
        joined(initial, events, i).len() <= joined(initial, events, n).len(),
        joined(initial, events, n).subrange(0, joined(initial, events, i).len() as int) == joined(
            initial,
            events,
            i,
        ),
    decreases n - i,
{
    if i < n {
        lemma_joined_prefix(initial, events, i, n - 1);
        let a = joined(initial, events, i);
        let b = joined(initial, events, n - 1);
        let c = joined(initial, events, n);
        assert(c == b + event_entries(events[n - 1]));
        assert(c.subrange(0, a.len() as int) =~= b.subrange(0, a.len() as int));
    } else {
        assert(joined(initial, events, n).subrange(0, joined(initial, events, n).len() as int)
            =~= joined(initial, events, n));
    }
}

/// What holds of a walk over a plain tree after its first `i` steps.
pub open spec fn complete_inv(
    initial: Seq<Entry>,
    states: Seq<WalkerView>,
    events: Seq<WalkEvent>,
    i: int,
) -> bool {
    let pending = states[i].pending;
    let visited = states[i].visited;
    let j = joined(initial, events, i);
    &&& forall|e: Entry|
        #![trigger j.contains(e)]
        #![trigger pending.contains(e)]
        #![trigger examined_before(states, events, i).contains(e)]
        j.contains(e) <==> (pending.contains(e) || examined_before(states, events, i).contains(e))
    &&& forall|k: int| 0 <= k < pending.len() ==> !visited.contains((#[trigger] pending[k]).path@)
    &&& paths_distinct(pending)
    &&& forall|p: Seq<char>|
        #[trigger] visited.contains(p) ==> exists|k: int|
            0 <= k < j.len() && (#[trigger] j[k]).path@ == p
}

proof fn lemma_examined_before(states: Seq<WalkerView>, events: Seq<WalkEvent>, n: int, e: Entry)
    requires
        0 <= n,
        examined_before(states, events, n).contains(e),
    ensures
        exists|i: int| 0 <= i < n && examined(states[i], events[i]) == Some(e),
    decreases n,
{
    if n > 0 {
        if examined(states[n - 1], events[n - 1]) != Some(e) {
            lemma_examined_before(states, events, n - 1, e);
            let i = choose|i: int| 0 <= i < n - 1 && examined(states[i], events[i]) == Some(e);
            assert(0 <= i < n && examined(states[i], events[i]) == Some(e));
        }
    }
}

/// One step of a walk over a plain tree keeps `complete_inv`, and what it
/// examines is an entry that has joined.
proof fn lemma_complete_step(
    initial: Seq<Entry>,
    states: Seq<WalkerView>,
    events: Seq<WalkEvent>,
    actions: Seq<WalkAction>,
    i: int,
)
    requires
        is_walk(states, events, actions),
        0 <= i < events.len(),
        event_failure(events[i]) is None,
        plain_tree(joined(initial, events, events.len() as int)),
        complete_inv(initial, states, events, i),
    ensures
        complete_inv(initial, states, events, i + 1),
        examined(states[i], events[i]) matches Some(e) ==> joined(initial, events, i + 1).contains(e),
        examined(states[i], events[i]) is None ==> states[i + 1].pending.len() == 0,
{
    let n = events.len() as int;
    let ev = events[i];
    let pending = states[i].pending;
    let visited = states[i].visited;
    let new = event_entries(ev);
    let p0 = pending_after(pending, ev);
    let j0 = joined(initial, events, i);
    let j1 = joined(initial, events, i + 1);
    let jn = joined(initial, events, n);
    assert(step_rel(states[i], events[i], states[i + 1], actions[i]));
    lemma_pending_after(pending, ev);
    assert(j1 == j0 + new);
    lemma_joined_prefix(initial, events, i + 1, n);
    assert(paths_distinct(j1)) by {
        assert forall|a: int, b: int| 0 <= a < b < j1.len() implies (#[trigger] j1[a]).path@
            != (#[trigger] j1[b]).path@ by {
            assert(j1[a] == jn[a]);
            assert(j1[b] == jn[b]);
        }
    }
    assert forall|k: int| 0 <= k < j1.len() implies ((#[trigger] j1[k]).kind is File || j1[k].kind is Dir) by {
        assert(j1[k] == jn[k]);
    }
    // Every pending entry has joined before, so its path differs from the new ones'.
    assert forall|a: int, b: int| 0 <= a < b < p0.len() implies (#[trigger] p0[a]).path@ != (
    #[trigger] p0[b]).path@ by {
        if b < pending.len() {
        } else if a >= pending.len() {
            assert(p0[a] == j1[j0.len() + (a - pending.len())]);
            assert(p0[b] == j1[j0.len() + (b - pending.len())]);
        } else {
            assert(pending.contains(pending[a]));
            assert(j0.contains(p0[a]));
            let ka = choose|ka: int| 0 <= ka < j0.len() && j0[ka] == p0[a];
            assert(j1[ka] == p0[a]);
            assert(p0[b] == j1[j0.len() + (b - pending.len())]);
        }
    }
    assert forall|k: int| 0 <= k < p0.len() implies !visited.contains((#[trigger] p0[k]).path@) by {
        if k >= pending.len() {
            let q = p0[k].path@;
            let kk = j0.len() + (k - pending.len());
            assert(j1[kk] == p0[k]);
            if visited.contains(q) {
                let m = choose|m: int| 0 <= m < j0.len() && (#[trigger] j0[m]).path@ == q;
                assert(j1[m] == j0[m]);
            }
        }
    }
    let after = states[i + 1];
    let ex = examined(states[i], events[i]);
    if p0.len() == 0 {
        assert(ex is None);
        assert(after.pending == p0 && after.visited == visited);
        assert(examined_before(states, events, i + 1) == examined_before(states, events, i));
        assert forall|e: Entry|
            #![trigger j1.contains(e)]
            j1.contains(e) <==> (after.pending.contains(e) || examined_before(states, events, i + 1).contains(e)) by {
            assert(j1 =~= j0);
        }
        assert forall|p: Seq<char>| #[trigger] after.visited.contains(p) implies exists|k: int|
            0 <= k < j1.len() && (#[trigger] j1[k]).path@ == p by {
            let m = choose|m: int| 0 <= m < j0.len() && (#[trigger] j0[m]).path@ == p;
            assert(j1[m] == j0[m]);
        }
    } else {
        let e = p0.last();
        assert(!visited.contains(e.path@));
        assert(ex == Some(e));
        assert(after.visited == visited.insert(e.path@));
        assert(after.pending == p0.drop_last());
        assert(examined_before(states, events, i + 1) == examined_before(states, events, i).insert(e));
        assert(j1.contains(e)) by {
            if p0.len() - 1 < pending.len() {
                assert(pending.contains(pending[p0.len() - 1]));
                assert(j0.contains(e));
                let m = choose|m: int| 0 <= m < j0.len() && j0[m] == e;
                assert(j1[m] == e);
            } else {
                assert(j1[j0.len() + (p0.len() - 1 - pending.len())] == e);
            }
        }
        assert forall|x: Entry|
            #![trigger j1.contains(x)]
            j1.contains(x) <==> (after.pending.contains(x) || examined_before(states, events, i + 1).contains(x)) by {
            if j1.contains(x) {
                let m = choose|m: int| 0 <= m < j1.len() && j1[m] == x;
                if m < j0.len() {
                    assert(j0[m] == x);
                    assert(j0.contains(x));
                    if pending.contains(x) && x != e {
                        let q = choose|q: int| 0 <= q < pending.len() && pending[q] == x;
                        assert(p0[q] == x);
                        assert(q != p0.len() - 1);
                        assert(after.pending[q] == x);
                    }
                } else {
                    let q = pending.len() + (m - j0.len());
                    assert(p0[q] == x);
                    if q != p0.len() - 1 {
                        assert(after.pending[q] == x);
                    }
                }
            }
            if after.pending.contains(x) {
                let q = choose|q: int| 0 <= q < after.pending.len() && after.pending[q] == x;
                assert(p0[q] == x);
                if q < pending.len() {
                    assert(pending.contains(x));
                    assert(j0.contains(x));
                    let m = choose|m: int| 0 <= m < j0.len() && j0[m] == x;
                    assert(j1[m] == x);
                } else {
                    assert(j1[j0.len() + (q - pending.len())] == x);
                }
            }
            if examined_before(states, events, i).contains(x) {
                assert(j0.contains(x));
                let m = choose|m: int| 0 <= m < j0.len() && j0[m] == x;
                assert(j1[m] == x);
            }
        }
        assert forall|k: int| 0 <= k < after.pending.len() implies !after.visited.contains(
            (#[trigger] after.pending[k]).path@,
        ) by {
            assert(after.pending[k] == p0[k]);
            assert(p0[k].path@ != p0[p0.len() - 1].path@);
        }
        assert(paths_distinct(after.pending)) by {
            assert forall|a: int, b: int| 0 <= a < b < after.pending.len() implies (
            #[trigger] after.pending[a]).path@ != (#[trigger] after.pending[b]).path@ by {
                assert(after.pending[a] == p0[a]);
                assert(after.pending[b] == p0[b]);
            }
        }
        assert forall|p: Seq<char>| #[trigger] after.visited.contains(p) implies exists|k: int|
            0 <= k < j1.len() && (#[trigger] j1[k]).path@ == p by {
            if p == e.path@ {
                let m = choose|m: int| 0 <= m < j1.len() && j1[m] == e;
                assert(j1[m].path@ == p);
            } else {
                assert(visited.contains(p));
                let m = choose|m: int| 0 <= m < j0.len() && (#[trigger] j0[m]).path@ == p;
                assert(j1[m] == j0[m]);
            }
        }
    }
}

/// The entry examined by step `t`, if any, has joined by then.
pub open spec fn examined_has_joined(initial: Seq<Entry>, states: Seq<WalkerView>, events: Seq<WalkEvent>, t: int) -> bool {
    examined(states[t], events[t]) matches Some(e) ==> joined(initial, events, t + 1).contains(e)
}

/// `complete_inv` holds after each of the first `i` steps, and each step
/// examines an entry that has joined.
proof fn lemma_complete_upto(
    initial: Seq<Entry>,
    states: Seq<WalkerView>,
    events: Seq<WalkEvent>,
    actions: Seq<WalkAction>,
    i: int,
)
    requires
        is_walk(states, events, actions),
        0 <= i <= events.len(),
        states[0].visited == Set::<Seq<char>>::empty(),
        states[0].pending == initial,
        forall|t: int| 0 <= t < events.len() ==> event_failure(#[trigger] events[t]) is None,
        plain_tree(joined(initial, events, events.len() as int)),
    ensures
        complete_inv(initial, states, events, i),
        forall|t: int| 0 <= t < i ==> #[trigger] examined_has_joined(initial, states, events, t),
    decreases i,
{
    let n = events.len() as int;
    let all = joined(initial, events, n);
    if i == 0 {
        assert(joined(initial, events, 0) == initial);
        lemma_joined_prefix(initial, events, 0, n);
        assert forall|k: int| 0 <= k < initial.len() implies !states[0].visited.contains(
            (#[trigger] initial[k]).path@,
        ) by {
            assert(initial[k] == all[k]);
        }
        assert forall|a: int, b: int| 0 <= a < b < initial.len() implies (#[trigger] initial[a]).path@
            != (#[trigger] initial[b]).path@ by {
            assert(initial[a] == all[a]);
            assert(initial[b] == all[b]);
        }
    } else {
        lemma_complete_upto(initial, states, events, actions, i - 1);
        assert(event_failure(events[i - 1]) is None);
        lemma_complete_step(initial, states, events, actions, i - 1);
    }
}

/// Completeness: a finished walk over a tree without links, whose driver
/// reported no failure, yields every file of the tree exactly once, as its
/// source record (or as `UnknownFileType` when its extension is not in the
/// table), and yields nothing else.
pub proof fn lemma_walk_complete(
    initial: Seq<Entry>,
    states: Seq<WalkerView>,
    events: Seq<WalkEvent>,
    actions: Seq<WalkAction>,
)
    requires
        is_walk(states, events, actions),
        events.len() > 0,
        states[0].visited == Set::<Seq<char>>::empty(),
        states[0].pending == initial,
        actions.last() is Finished,
        forall|i: int| 0 <= i < events.len() ==> event_failure(#[trigger] events[i]) is None,
        plain_tree(joined(initial, events, events.len() as int)),
    ensures
        ({
            let all = joined(initial, events, events.len() as int);
            &&& forall|k: int|
                0 <= k < all.len() && (#[trigger] all[k]).kind is File ==> exists|i: int|
                    0 <= i < actions.len() && (#[trigger] actions[i] matches WalkAction::Yield(item)
                        && file_item(all[k].path, item))
            &&& forall|i: int|
                0 <= i < actions.len() && (#[trigger] actions[i]) is Yield ==> exists|k: int|
                    0 <= k < all.len() && (#[trigger] all[k]).kind is File && (actions[i] matches WalkAction::Yield(item)
                        && file_item(all[k].path, item))
            &&& forall|k: int, i: int, i2: int|
                #![trigger all[k], actions[i], actions[i2]]
                0 <= k < all.len() && 0 <= i < actions.len() && 0 <= i2 < actions.len() && (
                actions[i] matches WalkAction::Yield(item) && file_item(all[k].path, item))
                    && (actions[i2] matches WalkAction::Yield(item2) && file_item(
                    all[k].path,
                    item2,
                )) ==> i == i2
        }),
{
    lemma_walk_paths_unique(states, events, actions);
    assert forall|k: int, i: int, i2: int|
        #![trigger joined(initial, events, events.len() as int)[k], actions[i], actions[i2]]
        0 <= k < joined(initial, events, events.len() as int).len() && 0 <= i < actions.len() && 0 <= i2 < actions.len() && (
        actions[i] matches WalkAction::Yield(item) && file_item(joined(initial, events, events.len() as int)[k].path, item))
            && (actions[i2] matches WalkAction::Yield(item2) && file_item(
            joined(initial, events, events.len() as int)[k].path,
            item2,
        )) implies i == i2 by {
        assert(action_path(actions[i]) == Some(joined(initial, events, events.len() as int)[k].path@));
        assert(action_path(actions[i2]) == Some(joined(initial, events, events.len() as int)[k].path@));
        if i < i2 {
            assert(action_path(actions[i2]) != action_path(actions[i]));
        } else if i2 < i {
            assert(action_path(actions[i]) != action_path(actions[i2]));
        }
    }
    let n = events.len() as int;
    let all = joined(initial, events, n);
    lemma_complete_upto(initial, states, events, actions, n);
    // The last step finished, so nothing is pending: all joined entries were examined.
    lemma_complete_upto(initial, states, events, actions, n - 1);
    lemma_complete_step(initial, states, events, actions, n - 1);
    assert(step_rel(states[n - 1], events[n - 1], states[n], actions[n - 1]));
    assert(event_failure(events[n - 1]) is None);
    let last = examined(states[n - 1], events[n - 1]);
    if last is Some {
        let e = last->0;
        lemma_joined_prefix(initial, events, n, n);
        let m = choose|m: int| 0 <= m < all.len() && all[m] == e;
        assert(all[m].kind is File || all[m].kind is Dir);
        assert(false);
    }
    assert(states[n].pending.len() == 0);
    assert forall|k: int| 0 <= k < all.len() && (#[trigger] all[k]).kind is File implies exists|i: int|
        0 <= i < actions.len() && (#[trigger] actions[i] matches WalkAction::Yield(item) && file_item(all[k].path, item)) by {
        assert(all.contains(all[k]));
        assert(!states[n].pending.contains(all[k]));
        lemma_examined_before(states, events, n, all[k]);
        let t = choose|t: int| 0 <= t < n && examined(states[t], events[t]) == Some(all[k]);
        assert(step_rel(states[t], events[t], states[t + 1], actions[t]));
        assert(event_failure(events[t]) is None);
    }
    assert forall|t: int| 0 <= t < actions.len() && (#[trigger] actions[t]) is Yield implies exists|k: int|
        0 <= k < all.len() && (#[trigger] all[k]).kind is File && (actions[t] matches WalkAction::Yield(item) && file_item(all[k].path, item)) by {
        assert(step_rel(states[t], events[t], states[t + 1], actions[t]));
        assert(event_failure(events[t]) is None);
        let ex = examined(states[t], events[t]);
        assert(ex is Some);
        let e = ex->0;
        assert(examined_has_joined(initial, states, events, t));
        assert(joined(initial, events, t + 1).contains(e));
        lemma_joined_prefix(initial, events, t + 1, n);
        let jt = joined(initial, events, t + 1);
        let m0 = choose|m0: int| 0 <= m0 < jt.len() && #[trigger] jt[m0] == e;
        assert(all[m0] == e);
        assert(all[m0].kind is File || all[m0].kind is Dir);
    }
}

/// A walk over a directory tree that performs no I/O itself: it keeps an
/// explicit work list and the set of paths already examined, and asks its
/// driver to list directories and resolve links.
#[derive(Debug)]
pub struct ProjectSourcesInDirIter {
    already: Vec<String>,
    no_ready: Vec<Entry>,
}

impl View for ProjectSourcesInDirIter {
    type V = WalkerView;

    closed spec fn view(&self) -> WalkerView {
        WalkerView { visited: path_set(self.already@), pending: self.no_ready@ }
    }
}

proof fn lemma_path_set_push(v: Seq<String>, s: String)
    ensures
        path_set(v.push(s)) == path_set(v).insert(s@),
{
    let a = path_set(v.push(s));
    let b = path_set(v).insert(s@);
    assert forall|p: Seq<char>| a.contains(p) <==> b.contains(p) by {
        if a.contains(p) {
            let i = choose|i: int| 0 <= i < v.push(s).len() && v.push(s)[i]@ == p;
            if i < v.len() {
                assert(v[i]@ == p);
            }
        }
        if b.contains(p) {
            if p == s@ {
                assert(v.push(s)[v.len() as int]@ == p);
            } else {
                let i = choose|i: int| 0 <= i < v.len() && v[i]@ == p;
                assert(v.push(s)[i]@ == p);
            }
        }
    }
    assert(a =~= b);
}

impl ProjectSourcesInDirIter {
    /// A fresh walk of a directory whose entries are `entries`: nothing is
    /// visited yet.
    pub fn from_dir(entries: Vec<Entry>) -> (r: ProjectSourcesInDirIter)
        ensures
            r@.visited == Set::<Seq<char>>::empty(),
            r@.pending == entries@,
    {
        let r = ProjectSourcesInDirIter { already: Vec::new(), no_ready: entries };
        assert(r@.visited =~= Set::<Seq<char>>::empty());
        r
    }

    fn is_visited(&self, path: &str) -> (r: bool)
        ensures
            r == self@.visited.contains(path@),
    {
        let mut i: usize = 0;
        while i < self.already.len()
            invariant
                i <= self.already.len(),
                forall|k: int| 0 <= k < i ==> self.already@[k]@ != path@,
            decreases self.already.len() - i,
        {
            if crate::lang::str_eq(self.already[i].as_str(), path) {
                assert(self.already@[i as int]@ == path@);
                return true;
            }
            i = i + 1;
        }
        false
    }

    /// A regular file at `path`: its source record, or why it has none.
    fn file(path: String) -> (r: Result<Source, DiscoveryError>)
        ensures
            file_item(path, r),
    {
        match FileType::from_file(path.as_str()) {
            Some(file_type) => Ok(
                Source { file_path: path, file_type, compile_options: CompileOptions::dev() },
            ),
            None => Err(DiscoveryError::UnknownFileType(path)),
        }
    }

    /// Pops entries until one is found that is not yet visited, and decides what it asks for.
    fn advance(&mut self) -> (r: WalkAction)
        ensures
            ({
                let (v, p, e) = advance_spec(old(self)@.visited, old(self)@.pending);
                &&& final(self)@.visited == v
                &&& final(self)@.pending == p
                &&& action_for(e, r)
            }),
    {
        loop
            invariant
                advance_spec(self@.visited, self@.pending) == advance_spec(
                    old(self)@.visited,
                    old(self)@.pending,
                ),
            decreases self@.pending.len(),
        {
            let ghost before = self@;
            match self.no_ready.pop() {
                None => {
                    return WalkAction::Finished;
                },
                Some(entry) => {
                    assert(entry == before.pending.last());
                    if self.is_visited(entry.path.as_str()) {
                        assert(self@.pending == before.pending.drop_last());
                        continue ;
                    }
                    let ghost p = entry.path;
                    proof {
                        lemma_path_set_push(self.already@, p);
                    }
                    self.already.push(entry.path.clone());
                    let action = match entry.kind {
                        EntryKind::File => WalkAction::Yield(Self::file(entry.path)),
                        EntryKind::Dir => WalkAction::ReadDir(entry.path),
                        EntryKind::Symlink => WalkAction::ReadLink(entry.path),
                        EntryKind::Other => {
                            let mut m = String::from_str("unsupported entry kind: ");
                            m.append(entry.path.as_str());
                            WalkAction::Yield(Err(DiscoveryError::Io(m)))
                        },
                        EntryKind::Unreadable(m) => WalkAction::Yield(Err(DiscoveryError::Io(m))),
                    };
                    return action;
                },
            }
        }
    }

    /// Takes one step of the walk on `event`; the driver performs what the
    /// returned action asks and answers with the matching event.
    pub fn step(&mut self, event: WalkEvent) -> (r: WalkAction)
        ensures
            step_rel(old(self)@, event, final(self)@, r),
    {
        match event {
            WalkEvent::Next => self.advance(),
            WalkEvent::Listed(Ok(mut es)) => {
                self.no_ready.append(&mut es);
                self.advance()
            },
            WalkEvent::Resolved(Ok(e)) => {
                self.no_ready.push(e);
                self.advance()
            },
            WalkEvent::Listed(Err(m)) => WalkAction::Yield(Err(DiscoveryError::Io(m))),
            WalkEvent::Resolved(Err(m)) => WalkAction::Yield(Err(DiscoveryError::Io(m))),
        }
    }
}

/// A source provider: the files of one directory tree.
#[derive(Debug, Clone)]
pub struct ProjectSourcesInDir {
    src_dir: String,
}

/// A provider of a project's source files.
pub trait ProjectSources {
    spec fn root_spec(&self) -> Seq<char>;

    /// The directory whose listing starts the walk.
    fn root(&self) -> (r: String)
        ensures
            r@ == self.root_spec(),
    ;

    /// Starts a walk from the root's listing, or fails with `Io` when the root could not be read.
    fn sources(&self, listing: Result<Vec<Entry>, String>) -> (r: Result<ProjectSourcesInDirIter, DiscoveryError>)
        ensures
            match listing {
                Ok(es) => r matches Ok(w) && w@.visited == Set::<Seq<char>>::empty() && w@.pending == es@,
                Err(m) => r matches Err(DiscoveryError::Io(e)) && e == m,
            },
    ;
}

impl ProjectSourcesInDir {
    pub fn new(src_dir: String) -> (r: ProjectSourcesInDir)
        ensures
            r.root_spec() == src_dir@,
    {
        ProjectSourcesInDir { src_dir }
    }
}

impl ProjectSources for ProjectSourcesInDir {
    closed spec fn root_spec(&self) -> Seq<char> {
        self.src_dir@
    }

    fn root(&self) -> (r: String) {
        self.src_dir.clone()
    }

    fn sources(&self, listing: Result<Vec<Entry>, String>) -> (r: Result<ProjectSourcesInDirIter, DiscoveryError>) {
        match listing {
            Ok(es) => Ok(ProjectSourcesInDirIter::from_dir(es)),
            Err(m) => Err(DiscoveryError::Io(m)),
        }
    }
}

} // verus!
