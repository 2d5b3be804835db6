//! The file watcher's decisions: when a burst of file-system events has
//! settled enough to reload, and what snapshot a reload publishes.

use vstd::prelude::*;

use super::loader::{LoadError, LoadResult};
use super::model::Snippet;

verus! {

/// A published snapshot of the store.
#[derive(Debug, Clone)]
pub struct SnapshotInner {
    pub revision: u64,
    pub snippets: Vec<Snippet>,
    pub errors: Vec<LoadError>,
}

/// What the watcher's worker sees next.
#[derive(Debug, Clone, Copy, PartialEq, Eq, Structural)]
pub enum WatchEvent {
    /// A file under the root changed.
    Filesystem,
    /// A reload was asked for.
    ReloadNow,
    /// The store is shutting down.
    Shutdown,
    /// The quiet period passed with no event.
    Timeout,
    /// Every sender is gone.
    Disconnected,
}

/// What the worker does next.
#[derive(Debug, Clone, Copy, PartialEq, Eq, Structural)]
pub enum WatchAction {
    /// Wait for the next event (within the quiet period when debouncing).
    Wait,
    /// Load the store and publish it under this revision.
    Reload(u64),
    /// Stop the worker.
    Stop,
}

/// The revision after `r`, wrapping to 0 after the largest.
pub open spec fn next_revision(r: u64) -> u64 {
    if r == u64::MAX {
        0
    } else {
        (r + 1) as u64
    }
}

/// One step of the worker from `s` on `event`: the next state and action.
pub open spec fn watch_step(s: WatcherState, event: WatchEvent) -> (WatcherState, WatchAction) {
    match event {
        WatchEvent::Shutdown | WatchEvent::Disconnected => (s, WatchAction::Stop),
        WatchEvent::Filesystem | WatchEvent::ReloadNow => (
            WatcherState { debouncing: true, ..s },
            WatchAction::Wait,
        ),
        WatchEvent::Timeout => if s.debouncing {
            (
                WatcherState { revision: next_revision(s.revision), debouncing: false },
                WatchAction::Reload(next_revision(s.revision)),
            )
        } else {
            (s, WatchAction::Wait)
        },
    }
}

/// The state after `events` from `s`, and the actions taken, in order.
pub open spec fn watch_run(s: WatcherState, events: Seq<WatchEvent>) -> (WatcherState, Seq<WatchAction>)
    decreases events.len(),
{
    if events.len() == 0 {
        (s, Seq::empty())
    } else {
        let (before, actions) = watch_run(s, events.drop_last());
        let (after, action) = watch_step(before, events.last());
        (after, actions.push(action))
    }
}

/// A change or reload request.
pub open spec fn is_change(e: WatchEvent) -> bool {
    e == WatchEvent::Filesystem || e == WatchEvent::ReloadNow
}

/// A burst of changes only makes the worker wait, keeping its revision;
/// the quiet period after it publishes exactly the next revision, once.
pub proof fn lemma_burst_publishes_once(s: WatcherState, burst: Seq<WatchEvent>)
    requires
        burst.len() > 0,
        forall|i: int| 0 <= i < burst.len() ==> is_change(#[trigger] burst[i]),
    ensures
        watch_run(s, burst).0 == (WatcherState { debouncing: true, ..s }),
        forall|i: int| 0 <= i < burst.len() ==> #[trigger] watch_run(s, burst).1[i] == WatchAction::Wait,
        watch_run(s, burst.push(WatchEvent::Timeout)).1.last() == WatchAction::Reload(
            next_revision(s.revision),
        ),
        watch_run(s, burst.push(WatchEvent::Timeout)).0 == (WatcherState {
            revision: next_revision(s.revision),
            debouncing: false,
        }),
    decreases burst.len(),
{
    let prefix = burst.drop_last();
    lemma_run_len(s, prefix);
    if burst.len() > 1 {
        assert forall|i: int| 0 <= i < prefix.len() implies is_change(#[trigger] prefix[i]) by {
            assert(prefix[i] == burst[i]);
        }
        lemma_burst_publishes_once(s, prefix);
    } else {
        assert(prefix =~= Seq::<WatchEvent>::empty());
    }
    assert(is_change(burst[burst.len() - 1]));
    let before = watch_run(s, prefix).0;
    let acts = watch_run(s, prefix).1;
    assert(before.revision == s.revision);
    assert(watch_step(before, burst.last()) == (
        WatcherState { debouncing: true, ..s },
        WatchAction::Wait,
    ));
    assert(watch_run(s, burst) == (
        WatcherState { debouncing: true, ..s },
        acts.push(WatchAction::Wait),
    ));
    assert forall|i: int| 0 <= i < burst.len() implies #[trigger] watch_run(s, burst).1[i]
        == WatchAction::Wait by {
        if i < prefix.len() {
            assert(watch_run(s, burst).1[i] == acts[i]);
        }
    }
    assert(burst.push(WatchEvent::Timeout).drop_last() =~= burst);
}

/// The worker takes one action per event.
pub proof fn lemma_run_len(s: WatcherState, events: Seq<WatchEvent>)
    ensures
        watch_run(s, events).1.len() == events.len(),
    decreases events.len(),
{
    if events.len() > 0 {
        lemma_run_len(s, events.drop_last());
    }
}

/// The worker's state: the last published revision, and whether it is
/// waiting for a burst of events to settle.
#[derive(Debug, Clone, Copy, PartialEq, Eq, Structural)]
pub struct WatcherState {
    pub revision: u64,
    pub debouncing: bool,
}

impl WatcherState {
    /// Nothing published beyond revision 0, not debouncing.
    pub fn new() -> (r: Self)
        ensures
            r.revision == 0,
            !r.debouncing,
    {
        WatcherState { revision: 0, debouncing: false }
    }

    /// One step of the worker. Shutdown or a lost channel stops it; a
    /// change or reload request starts (or prolongs) the quiet period; a
    /// quiet period that passes without events publishes the next revision.
    pub fn step(&mut self, event: WatchEvent) -> (r: WatchAction)
        ensures
            (*final(self), r) == watch_step(*old(self), event),
            match event {
                WatchEvent::Shutdown | WatchEvent::Disconnected => r == WatchAction::Stop
                    && *final(self) == *old(self),
                WatchEvent::Filesystem | WatchEvent::ReloadNow => r == WatchAction::Wait
                    && *final(self) == (WatcherState { debouncing: true, ..*old(self) }),
                WatchEvent::Timeout => if old(self).debouncing {
                    &&& final(self).revision == (if old(self).revision == u64::MAX {
                        0
                    } else {
                        old(self).revision + 1
                    })
                    &&& !final(self).debouncing
                    &&& r == WatchAction::Reload(final(self).revision)
                } else {
                    r == WatchAction::Wait && *final(self) == *old(self)
                },
            },
    {
        match event {
            WatchEvent::Shutdown | WatchEvent::Disconnected => WatchAction::Stop,
            WatchEvent::Filesystem | WatchEvent::ReloadNow => {
                self.debouncing = true;
                WatchAction::Wait
            },
            WatchEvent::Timeout => {
                if self.debouncing {
                    self.debouncing = false;
                    self.revision = if self.revision == u64::MAX {
                        0
                    } else {
                        self.revision + 1
                    };
                    WatchAction::Reload(self.revision)
                } else {
                    WatchAction::Wait
                }
            },
        }
    }
}

/// The snapshot published for `revision`: what the load gave, or, when
/// reading the root failed, no snippets and that one I/O error about `root`.
pub fn load_snapshot(root: &str, revision: u64, loaded: Result<LoadResult, String>) -> (r: SnapshotInner)
    ensures
        r.revision == revision,
        match loaded {
            Ok(l) => r.snippets == l.snippets && r.errors == l.errors,
            Err(m) => r.snippets@.len() == 0 && r.errors@.len() == 1 && (r.errors@[0] matches LoadError::Io {
                path,
                message,
            } && path@ == root@ && message == m),
        },
{
    match loaded {
        Ok(l) => SnapshotInner { revision, snippets: l.snippets, errors: l.errors },
        Err(m) => {
            let mut errors: Vec<LoadError> = Vec::new();
            errors.push(LoadError::Io { path: String::from_str(root), message: m });
            SnapshotInner { revision, snippets: Vec::new(), errors }
        },
    }
}


} // verus!
