//! Git-backed snippet sync: authentication modes, status, what a sync tick
//! reports, and the state the backend keeps.

pub mod creds;
pub mod git;

use vstd::prelude::*;

pub use creds::{
    choose_credential, credential_key, CredentialChoice, CredentialStore, Secret, SyncCredential,
};
pub use git::{GitBackend, GitState};

verus! {

/// How the sync remote is reached.
#[derive(Debug, Clone, PartialEq, Eq)]
pub enum AuthMode {
    HttpsPat { host: String, username: String },
    Ssh,
}

/// The branch and how far it is ahead of and behind its upstream, with the
/// time of the last tick.
#[derive(Debug, Clone, PartialEq, Eq)]
pub struct SyncStatus {
    pub branch: Option<String>,
    pub ahead: usize,
    pub behind: usize,
    pub last_tick_unix: Option<u64>,
}

impl Default for SyncStatus {
    fn default() -> (r: Self)
        ensures
            r.branch is None,
            r.ahead == 0,
            r.behind == 0,
            r.last_tick_unix is None,
    {
        SyncStatus { branch: None, ahead: 0, behind: 0, last_tick_unix: None }
    }
}

/// What one sync tick did.
#[derive(Debug, Clone, PartialEq, Eq)]
pub enum TickReport {
    NoChanges,
    Synced { committed: bool },
    Conflict { dir: String },
}

/// Told where the files of a sync conflict were saved.
pub trait NotifySink: Send + Sync {
    fn sync_conflict(&self, path: &str);
}

/// A notify sink that tells no one.
#[derive(Default)]
pub struct NoopNotifySink;

impl NotifySink for NoopNotifySink {
    fn sync_conflict(&self, _path: &str) {
    }
}

/// The report of a tick: a conflict when rebasing hit one (its files saved
/// under `conflict_dir`); otherwise synced when something was committed or
/// the branch and its upstream differed; otherwise no changes.
pub fn tick_report(conflict_dir: Option<String>, committed: bool, status: &SyncStatus) -> (r: TickReport)
    ensures
        match conflict_dir {
            Some(d) => r == TickReport::Conflict { dir: d },
            None => if committed || status.ahead > 0 || status.behind > 0 {
                r == TickReport::Synced { committed }
            } else {
                r == TickReport::NoChanges
            },
        },
{
    match conflict_dir {
        Some(dir) => TickReport::Conflict { dir },
        None => {
            if committed || status.ahead > 0 || status.behind > 0 {
                TickReport::Synced { committed }
            } else {
                TickReport::NoChanges
            }
        },
    }
}

/// Seconds between two scheduled ticks of the sync driver.
pub const DRIVER_INTERVAL_SECS: u64 = 60;

/// Milliseconds the driver lets a burst of store changes settle before it
/// ticks.
pub const DRIVER_SETTLE_MS: u64 = 500;

/// What woke the sync driver.
#[derive(Clone, Copy, Debug, PartialEq, Eq, Structural)]
pub enum DriverEvent {
    /// The periodic interval elapsed.
    IntervalTick,
    /// The snippet store published a new snapshot.
    StoreChanged,
    /// The snippet store's channel closed.
    StoreClosed,
    /// A tick was asked for by hand.
    ManualTrigger,
    /// The channel of manual requests closed.
    TriggerClosed,
}

/// What the driver does about an event.
#[derive(Clone, Copy, Debug, PartialEq, Eq, Structural)]
pub enum DriverAction {
    /// Run one tick now.
    Tick,
    /// Wait this many milliseconds, then run one tick.
    SettleThenTick(u64),
    /// Leave the loop.
    Stop,
}

/// The driver's decision: a closed channel stops it, a store change ticks
/// after the settle delay, an interval or a manual request ticks at once.
pub fn driver_step(event: DriverEvent) -> (a: DriverAction)
    ensures
        a == (match event {
            DriverEvent::IntervalTick => DriverAction::Tick,
            DriverEvent::ManualTrigger => DriverAction::Tick,
            DriverEvent::StoreChanged => DriverAction::SettleThenTick(DRIVER_SETTLE_MS),
            DriverEvent::StoreClosed => DriverAction::Stop,
            DriverEvent::TriggerClosed => DriverAction::Stop,
        }),
{
    match event {
        DriverEvent::IntervalTick | DriverEvent::ManualTrigger => DriverAction::Tick,
        DriverEvent::StoreChanged => DriverAction::SettleThenTick(DRIVER_SETTLE_MS),
        DriverEvent::StoreClosed | DriverEvent::TriggerClosed => DriverAction::Stop,
    }
}

} // verus!
