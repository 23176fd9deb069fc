//! The decisions of the file watcher: which changes matter, how changes to the
//! same path within the coalescing window collapse, and what each event asks
//! the updater to do.
use vstd::prelude::*;
use crate::paths::{code_file, ignored_path, is_code_file, should_ignore_path};
use crate::text::str_eq;

verus! {

/// A filesystem change, after debouncing.
#[derive(Clone, Debug, PartialEq, Eq)]
pub enum WatchEvent {
    Created(String),
    Modified(String),
    Removed(String),
    /// The coalescing window closed with no new event for any path.
    ChangesFlushed,
}

/// The kind of a change to one path.
#[derive(Clone, Copy, Debug, PartialEq, Eq, Structural)]
pub enum ChangeKind {
    Created,
    Modified,
    Removed,
}

/// Removed outranks Created, which outranks Modified.
pub open spec fn strength(k: ChangeKind) -> int {
    match k {
        ChangeKind::Removed => 2,
        ChangeKind::Created => 1,
        ChangeKind::Modified => 0,
    }
}

/// The stronger of two kinds (the first on a tie).
pub open spec fn strongest(a: ChangeKind, b: ChangeKind) -> ChangeKind {
    if strength(a) >= strength(b) {
        a
    } else {
        b
    }
}

/// The stronger of two kinds (the first on a tie).
pub fn stronger(a: ChangeKind, b: ChangeKind) -> (r: ChangeKind)
    ensures
        r == strongest(a, b),
{
    match (a, b) {
        (ChangeKind::Removed, _) => a,
        (_, ChangeKind::Removed) => b,
        (ChangeKind::Created, _) => a,
        (_, ChangeKind::Created) => b,
        _ => a,
    }
}

/// A change waiting for its window to close: path, kind, time of the latest event.
pub type Pending = (Seq<char>, ChangeKind, u64);

/// No two pending changes share a path.
pub open spec fn distinct_pending(s: Seq<Pending>) -> bool {
    forall|i: int, j: int| 0 <= i < s.len() && 0 <= j < s.len() && i != j ==> (#[trigger] s[i]).0 != (#[trigger] s[j]).0
}

/// The pending changes once an event of `kind` for `path` arrives at `now`: an
/// existing change for the path takes the stronger kind and the new time;
/// otherwise a new change is queued.
pub open spec fn recorded(s: Seq<Pending>, path: Seq<char>, kind: ChangeKind, now: u64) -> Seq<Pending> {
    if exists|i: int| 0 <= i < s.len() && (#[trigger] s[i]).0 == path {
        let i = choose|i: int| 0 <= i < s.len() && (#[trigger] s[i]).0 == path;
        s.update(i, (path, strongest(s[i].1, kind), now))
    } else {
        s.push((path, kind, now))
    }
}

/// A change whose window has closed at `now`.
pub open spec fn is_due(p: Pending, now: u64, window: u64) -> bool {
    now >= p.2 && now - p.2 >= window
}

/// The changes still pending after a flush at `now`, in order.
pub open spec fn still_pending(s: Seq<Pending>, now: u64, window: u64) -> Seq<Pending>
    decreases s.len(),
{
    if s.len() == 0 {
        Seq::empty()
    } else if is_due(s.last(), now, window) {
        still_pending(s.drop_last(), now, window)
    } else {
        still_pending(s.drop_last(), now, window).push(s.last())
    }
}

/// The event a due change becomes.
pub open spec fn event_of(path: Seq<char>, kind: ChangeKind, e: WatchEvent) -> bool {
    match kind {
        ChangeKind::Created => e is Created && e->Created_0@ == path,
        ChangeKind::Modified => e is Modified && e->Modified_0@ == path,
        ChangeKind::Removed => e is Removed && e->Removed_0@ == path,
    }
}

/// The due changes, in order.
pub open spec fn due(s: Seq<Pending>, now: u64, window: u64) -> Seq<Pending>
    decreases s.len(),
{
    if s.len() == 0 {
        Seq::empty()
    } else if is_due(s.last(), now, window) {
        due(s.drop_last(), now, window).push(s.last())
    } else {
        due(s.drop_last(), now, window)
    }
}

/// Repeated events for one path within the window leave one pending change for
/// it, of the strongest kind seen.
pub proof fn lemma_repeated_events_coalesce(
    s: Seq<Pending>,
    path: Seq<char>,
    k1: ChangeKind,
    t1: u64,
    k2: ChangeKind,
    t2: u64,
)
    requires
        distinct_pending(s),
        !(exists|i: int| 0 <= i < s.len() && (#[trigger] s[i]).0 == path),
    ensures
        ({
            let r = recorded(recorded(s, path, k1, t1), path, k2, t2);
            &&& r.len() == s.len() + 1
            &&& r[s.len() as int] == (path, strongest(k1, k2), t2)
            &&& forall|i: int| 0 <= i < s.len() ==> (#[trigger] r[i]).0 != path
        }),
{
    let r1 = recorded(s, path, k1, t1);
    assert(r1 == s.push((path, k1, t1)));
    assert(r1[s.len() as int].0 == path);
    let i = choose|i: int| 0 <= i < r1.len() && (#[trigger] r1[i]).0 == path;
    if i < s.len() {
        assert(r1[i] == s[i]);
    }
    assert(i == s.len());
}

/// Debounces filesystem changes per path.
pub struct Debouncer {
    window_ms: u64,
    pending: Vec<(String, ChangeKind, u64)>,
}

impl View for Debouncer {
    type V = Seq<Pending>;

    closed spec fn view(&self) -> Seq<Pending> {
        self.pending@.map_values(|p: (String, ChangeKind, u64)| (p.0@, p.1, p.2))
    }
}

impl Debouncer {
    pub closed spec fn window(&self) -> u64 {
        self.window_ms
    }

    /// A debouncer with nothing pending and the given window.
    pub fn new(window_ms: u64) -> (r: Debouncer)
        ensures
            r@ == Seq::<Pending>::empty(),
            r.window() == window_ms,
    {
        let r = Debouncer { window_ms, pending: Vec::new() };
        assert(r@ =~= Seq::<Pending>::empty());
        r
    }

    /// Records an event of `kind` for `path` at time `now_ms`.
    pub fn record(&mut self, path: String, kind: ChangeKind, now_ms: u64)
        requires
            distinct_pending(old(self)@),
        ensures
            distinct_pending(final(self)@),
            final(self)@ == recorded(old(self)@, path@, kind, now_ms),
            final(self).window() == old(self).window(),
    {
        let mut i: usize = 0;
        while i < self.pending.len()
            invariant
                distinct_pending(old(self)@),
                self@ == old(self)@,
                self.window_ms == old(self).window_ms,
                self@.len() == self.pending@.len(),
                i <= self@.len(),
                forall|j: int| 0 <= j < i ==> (#[trigger] self@[j]).0 != path@,
            decreases self@.len() - i,
        {
            if str_eq(self.pending[i].0.as_str(), path.as_str()) {
                let merged = stronger(self.pending[i].1, kind);
                let ghost s = self@;
                proof {
                    assert(s[i as int].0 == path@);
                    let c = choose|c: int| 0 <= c < s.len() && (#[trigger] s[c]).0 == path@;
                    if c != i {
                        assert(s[c].0 != s[i as int].0);
                    }
                }
                self.pending.set(i, (path, merged, now_ms));
                proof {
                    assert(self@ =~= s.update(i as int, (path@, merged, now_ms)));
                    let r = self@;
                    assert forall|a: int, b: int| 0 <= a < r.len() && 0 <= b < r.len() && a != b implies (
                    #[trigger] r[a]).0 != (#[trigger] r[b]).0 by {
                        if a != i && b != i {
                            assert(r[a] == s[a] && r[b] == s[b]);
                        } else if a == i {
                            assert(r[b] == s[b]);
                            assert(s[b].0 != s[i as int].0);
                        } else {
                            assert(r[a] == s[a]);
                            assert(s[a].0 != s[i as int].0);
                        }
                    }
                }
                return;
            }
            i = i + 1;
        }
        let ghost s = self@;
        self.pending.push((path, kind, now_ms));
        proof {
            assert(self@ =~= s.push((path@, kind, now_ms)));
            let r = self@;
            assert forall|a: int, b: int| 0 <= a < r.len() && 0 <= b < r.len() && a != b implies (
            #[trigger] r[a]).0 != (#[trigger] r[b]).0 by {
                if a < s.len() && b < s.len() {
                    assert(r[a] == s[a] && r[b] == s[b]);
                } else if a < s.len() {
                    assert(r[a] == s[a]);
                } else {
                    assert(r[b] == s[b]);
                }
            }
        }
    }

    /// Emits, in order, an event for every change whose window has closed at
    /// `now_ms`, then `ChangesFlushed` when something was emitted and nothing is
    /// left pending.
    pub fn flush(&mut self, now_ms: u64) -> (r: Vec<WatchEvent>)
        requires
            distinct_pending(old(self)@),
        ensures
            final(self)@ == still_pending(old(self)@, now_ms, old(self).window()),
            final(self).window() == old(self).window(),
            ({
                let d = due(old(self)@, now_ms, old(self).window());
                &&& r@.len() == d.len() + if d.len() > 0 && final(self)@.len() == 0 {
                    1int
                } else {
                    0int
                }
                &&& forall|k: int| 0 <= k < d.len() ==> event_of(d[k].0, d[k].1, #[trigger] r@[k])
                &&& (d.len() > 0 && final(self)@.len() == 0) ==> r@[d.len() as int] == WatchEvent::ChangesFlushed
            }),
    {
        let w = self.window_ms;
        let ghost s = self@;
        let mut kept: Vec<(String, ChangeKind, u64)> = Vec::new();
        let mut out: Vec<WatchEvent> = Vec::new();
        let mut i: usize = 0;
        while i < self.pending.len()
            invariant
                self@ == s,
                self.window_ms == w,
                s.len() == self.pending@.len(),
                i <= s.len(),
                kept@.map_values(|p: (String, ChangeKind, u64)| (p.0@, p.1, p.2)) == still_pending(
                    s.subrange(0, i as int),
                    now_ms,
                    w,
                ),
                out@.len() == due(s.subrange(0, i as int), now_ms, w).len(),
                forall|k: int|
                    0 <= k < out@.len() ==> event_of(
                        due(s.subrange(0, i as int), now_ms, w)[k].0,
                        due(s.subrange(0, i as int), now_ms, w)[k].1,
                        #[trigger] out@[k],
                    ),
            decreases s.len() - i,
        {
            let ghost sub = s.subrange(0, i + 1);
            assert(sub.drop_last() =~= s.subrange(0, i as int));
            assert(sub.last() == s[i as int]);
            let p = &self.pending[i];
            let ghost kv = kept@.map_values(|p: (String, ChangeKind, u64)| (p.0@, p.1, p.2));
            if now_ms >= p.2 && now_ms - p.2 >= w {
                let e = match p.1 {
                    ChangeKind::Created => WatchEvent::Created(p.0.clone()),
                    ChangeKind::Modified => WatchEvent::Modified(p.0.clone()),
                    ChangeKind::Removed => WatchEvent::Removed(p.0.clone()),
                };
                out.push(e);
                proof {
                    let dd = due(s.subrange(0, i + 1), now_ms, w);
                    assert forall|k: int| 0 <= k < out@.len() implies event_of(dd[k].0, dd[k].1, #[trigger] out@[k]) by {
                        if k < out@.len() - 1 {
                            assert(dd[k] == due(s.subrange(0, i as int), now_ms, w)[k]);
                        }
                    }
                }
            } else {
                kept.push((p.0.clone(), p.1, p.2));
                assert(kept@.map_values(|p: (String, ChangeKind, u64)| (p.0@, p.1, p.2)) =~= kv.push(s[i as int]));
            }
            i = i + 1;
        }
        assert(s.subrange(0, i as int) =~= s);
        self.pending = kept;
        if out.len() > 0 && self.pending.len() == 0 {
            out.push(WatchEvent::ChangesFlushed);
        }
        out
    }
}

/// What the updater is asked to do for one event.
#[derive(Clone, Debug, PartialEq, Eq)]
pub enum UpdateAction {
    /// Read the file and replace what the graph holds for it.
    Reindex(String),
    /// Drop what the graph holds for the file.
    Remove(String),
    /// Nothing to do.
    Ignore,
}

/// A path whose changes reach the graph: a code file outside excluded directories.
pub open spec fn path_counts(path: Seq<char>) -> bool {
    code_file(path) && !ignored_path(path)
}

/// The action for an event: a removal of a counted path removes it, a creation
/// or modification reindexes it, anything else is ignored.
pub fn plan_event(event: &WatchEvent) -> (r: UpdateAction)
    requires
        event is Created ==> event->Created_0@.len() < i64::MAX,
        event is Modified ==> event->Modified_0@.len() < i64::MAX,
        event is Removed ==> event->Removed_0@.len() < i64::MAX,
    ensures
        match event {
            WatchEvent::Created(p) | WatchEvent::Modified(p) => if path_counts(p@) {
                r is Reindex && r->Reindex_0@ == p@
            } else {
                r is Ignore
            },
            WatchEvent::Removed(p) => if path_counts(p@) {
                r is Remove && r->Remove_0@ == p@
            } else {
                r is Ignore
            },
            WatchEvent::ChangesFlushed => r is Ignore,
        },
{
    match event {
        WatchEvent::Created(p) | WatchEvent::Modified(p) => {
            if is_code_file(p.as_str()) && !should_ignore_path(p.as_str()) {
                UpdateAction::Reindex(p.clone())
            } else {
                UpdateAction::Ignore
            }
        },
        WatchEvent::Removed(p) => {
            if is_code_file(p.as_str()) && !should_ignore_path(p.as_str()) {
                UpdateAction::Remove(p.clone())
            } else {
                UpdateAction::Ignore
            }
        },
        WatchEvent::ChangesFlushed => UpdateAction::Ignore,
    }
}

} // verus!
