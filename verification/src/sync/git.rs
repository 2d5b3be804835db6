//! What the git sync backend remembers between ticks, and the paths and
//! errors it derives from that. The repository work itself is done by the
//! application with git.

use vstd::prelude::*;

use crate::chars::{decimal, path_join, std_path_join, u64_to_decimal};

use super::creds::CredentialStore;
use super::{AuthMode, NotifySink, SyncStatus};

verus! {

/// The backend's remembered state.
#[derive(Debug, Clone)]
pub struct GitState {
    pub local_dir: Option<String>,
    pub remote: Option<String>,
    pub auth: Option<AuthMode>,
    pub status: SyncStatus,
}

/// The git sync backend's state, credential store and conflict notifier.
pub struct GitBackend<C: CredentialStore, N: NotifySink> {
    state: GitState,
    credentials: C,
    notify: N,
}

impl<C: CredentialStore, N: NotifySink> GitBackend<C, N> {
    /// The remembered state.
    pub closed spec fn spec_state(&self) -> GitState {
        self.state
    }

    /// The credential store the backend was made with.
    pub closed spec fn spec_credentials(&self) -> C {
        self.credentials
    }

    /// A backend that is not initialized yet.
    pub fn new(credentials: C, notify: N) -> (r: Self)
        ensures
            r.spec_state().local_dir is None,
            r.spec_state().remote is None,
            r.spec_state().auth is None,
            r.spec_state().status.branch is None,
            r.spec_state().status.ahead == 0,
            r.spec_state().status.behind == 0,
            r.spec_state().status.last_tick_unix is None,
            r.spec_credentials() == credentials,
    {
        GitBackend {
            state: GitState { local_dir: None, remote: None, auth: None, status: SyncStatus::default() },
            credentials,
            notify,
        }
    }

    /// Where the files of a conflict at `unix_ts` are saved:
    /// `.conflicts/<unix_ts>` under the local checkout (under the current
    /// directory before initialization).
    pub fn conflict_dir_for(&self, unix_ts: u64) -> (r: String)
        ensures
            r@ == std_path_join(
                std_path_join(
                    match self.spec_state().local_dir {
                        Some(d) => d@,
                        None => Seq::<char>::empty(),
                    },
                    ".conflicts"@,
                ),
                decimal(unix_ts as nat),
            ),
    {
        let base = match &self.state.local_dir {
            Some(d) => d.clone(),
            None => String::new(),
        };
        let conflicts = path_join(base.as_str(), ".conflicts");
        path_join(conflicts.as_str(), u64_to_decimal(unix_ts).as_str())
    }

    /// The local checkout, once initialized.
    pub fn local_dir(&self) -> (r: Result<String, String>)
        ensures
            match self.spec_state().local_dir {
                Some(d) => r == Ok::<String, String>(d),
                None => r matches Err(m) && m@ == "sync backend not initialized"@,
            },
    {
        match &self.state.local_dir {
            Some(d) => Ok(d.clone()),
            None => Err(String::from_str("sync backend not initialized")),
        }
    }

    /// The authentication mode, once initialized.
    pub fn auth(&self) -> (r: Result<AuthMode, String>)
        ensures
            match self.spec_state().auth {
                Some(a) => r matches Ok(b) && b == a,
                None => r matches Err(m) && m@ == "missing sync auth mode"@,
            },
    {
        match &self.state.auth {
            Some(AuthMode::HttpsPat { host, username }) => Ok(
                AuthMode::HttpsPat { host: host.clone(), username: username.clone() },
            ),
            Some(AuthMode::Ssh) => Ok(AuthMode::Ssh),
            None => Err(String::from_str("missing sync auth mode")),
        }
    }

    /// Remembers a successful initialization.
    pub fn record_init(&mut self, local_dir: String, remote: String, auth: AuthMode)
        ensures
            final(self).spec_state().local_dir == Some(local_dir),
            final(self).spec_state().remote == Some(remote),
            final(self).spec_state().auth == Some(auth),
            final(self).spec_state().status == old(self).spec_state().status,
            final(self).spec_credentials() == old(self).spec_credentials(),
    {
        self.state.local_dir = Some(local_dir);
        self.state.remote = Some(remote);
        self.state.auth = Some(auth);
    }

    /// Remembers the status a tick found.
    pub fn record_status(&mut self, status: SyncStatus)
        ensures
            final(self).spec_state().status == status,
            final(self).spec_state().local_dir == old(self).spec_state().local_dir,
            final(self).spec_state().remote == old(self).spec_state().remote,
            final(self).spec_state().auth == old(self).spec_state().auth,
            final(self).spec_credentials() == old(self).spec_credentials(),
    {
        self.state.status = status;
    }

    /// The last recorded status.
    pub fn status(&self) -> (r: SyncStatus)
        ensures
            r.branch == self.spec_state().status.branch,
            r.ahead == self.spec_state().status.ahead,
            r.behind == self.spec_state().status.behind,
            r.last_tick_unix == self.spec_state().status.last_tick_unix,
    {
        SyncStatus {
            branch: match &self.state.status.branch {
                Some(b) => Some(b.clone()),
                None => None,
            },
            ahead: self.state.status.ahead,
            behind: self.state.status.behind,
            last_tick_unix: self.state.status.last_tick_unix,
        }
    }

    /// The credential store.
    pub fn credentials(&self) -> (r: &C)
        ensures
            *r == self.spec_credentials(),
    {
        &self.credentials
    }

    /// Tells the notifier where a conflict's files were saved.
    pub fn notify_conflict(&self, dir: &str) {
        self.notify.sync_conflict(dir);
    }
}


/// The branch the checkout is on: the head's short name, or an error for a
/// detached head.
pub fn branch_name(shorthand: Option<String>) -> (r: Result<String, String>)
    ensures
        match shorthand {
            Some(b) => r == Ok::<String, String>(b),
            None => r matches Err(m) && m@ == "detached head"@,
        },
{
    match shorthand {
        Some(b) => Ok(b),
        None => Err(String::from_str("detached head")),
    }
}

/// The status a tick records: the branch, how far it is ahead of and behind
/// its upstream (both 0 without one), and the time of the tick.
pub fn status_from(branch: String, ahead_behind: Option<(usize, usize)>, now_unix: u64) -> (r: SyncStatus)
    ensures
        r.branch == Some(branch),
        match ahead_behind {
            Some((a, b)) => r.ahead == a && r.behind == b,
            None => r.ahead == 0 && r.behind == 0,
        },
        r.last_tick_unix == Some(now_unix),
{
    let (ahead, behind) = match ahead_behind {
        Some(counts) => counts,
        None => (0, 0),
    };
    SyncStatus { branch: Some(branch), ahead, behind, last_tick_unix: Some(now_unix) }
}

/// The path a conflict entry is saved under: ours, else theirs, else the
/// ancestor's; an entry with none of them is an error.
pub fn conflict_entry_path(
    our: Option<String>,
    their: Option<String>,
    ancestor: Option<String>,
) -> (r: Result<String, String>)
    ensures
        match (our, their, ancestor) {
            (Some(p), _, _) => r == Ok::<String, String>(p),
            (None, Some(p), _) => r == Ok::<String, String>(p),
            (None, None, Some(p)) => r == Ok::<String, String>(p),
            (None, None, None) => r matches Err(m) && m@ == "conflict entry missing path"@,
        },
{
    match (our, their, ancestor) {
        (Some(p), _, _) => Ok(p),
        (None, Some(p), _) => Ok(p),
        (None, None, Some(p)) => Ok(p),
        (None, None, None) => Err(String::from_str("conflict entry missing path")),
    }
}

} // verus!
