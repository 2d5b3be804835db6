//! Sync commands: what the settings window is shown of a tick and of the
//! sync status, and where the sync checkout lives.

use vstd::prelude::*;

use crate::chars::{path_join, std_path_join};
use crate::sync::{AuthMode, SyncStatus, TickReport};

verus! {

/// A tick as the settings window shows it.
#[derive(Debug, Clone, PartialEq, Eq)]
pub struct TickReportDto {
    pub kind: String,
    pub dir: Option<String>,
    pub committed: bool,
}

/// The sync status as the settings window shows it.
#[derive(Debug, Clone, PartialEq, Eq)]
pub struct SyncStatusDto {
    pub branch: Option<String>,
    pub ahead: usize,
    pub behind: usize,
    pub last_tick_unix: Option<u64>,
}

/// The kind name of a tick report.
pub open spec fn report_kind(report: TickReport) -> Seq<char> {
    match report {
        TickReport::NoChanges => "no_changes"@,
        TickReport::Synced { .. } => "synced"@,
        TickReport::Conflict { .. } => "conflict"@,
    }
}

/// `d` shows `report`.
pub open spec fn tick_dto_of(d: TickReportDto, report: TickReport) -> bool {
    &&& d.kind@ == report_kind(report)
    &&& match report {
        TickReport::NoChanges => d.dir is None && !d.committed,
        TickReport::Synced { committed } => d.dir is None && d.committed == committed,
        TickReport::Conflict { dir } => d.dir == Some(dir) && !d.committed,
    }
}

/// The kind name of a tick report.
pub fn tick_report_kind(report: &TickReport) -> (r: &'static str)
    ensures
        r@ == report_kind(*report),
{
    match report {
        TickReport::NoChanges => "no_changes",
        TickReport::Synced { .. } => "synced",
        TickReport::Conflict { .. } => "conflict",
    }
}

/// The label of an authentication mode.
pub fn auth_mode_label(auth: &AuthMode) -> (r: &'static str)
    ensures
        r@ == (if auth is HttpsPat {
            "https_pat"@
        } else {
            "ssh"@
        }),
{
    match auth {
        AuthMode::HttpsPat { .. } => "https_pat",
        AuthMode::Ssh => "ssh",
    }
}

impl TickReportDto {
    /// How `report` is shown.
    pub fn from_report(report: TickReport) -> (r: Self)
        ensures
            tick_dto_of(r, report),
    {
        match report {
            TickReport::NoChanges => TickReportDto {
                kind: String::from_str("no_changes"),
                dir: None,
                committed: false,
            },
            TickReport::Synced { committed } => TickReportDto {
                kind: String::from_str("synced"),
                dir: None,
                committed,
            },
            TickReport::Conflict { dir } => TickReportDto {
                kind: String::from_str("conflict"),
                dir: Some(dir),
                committed: false,
            },
        }
    }
}

impl SyncStatusDto {
    /// How `status` is shown: field for field.
    pub fn from_status(status: SyncStatus) -> (r: Self)
        ensures
            r.branch == status.branch,
            r.ahead == status.ahead,
            r.behind == status.behind,
            r.last_tick_unix == status.last_tick_unix,
    {
        SyncStatusDto {
            branch: status.branch,
            ahead: status.ahead,
            behind: status.behind,
            last_tick_unix: status.last_tick_unix,
        }
    }
}

/// Where the sync checkout lives: `OPENMACRO_SYNC_ROOT` when set, otherwise
/// `openmacro/sync` under the configuration directory.
pub fn sync_root(env_override: Option<String>, config_dir: Option<String>) -> (r: Result<String, String>)
    ensures
        match (env_override, config_dir) {
            (Some(dir), _) => r == Ok::<String, String>(dir),
            (None, None) => r matches Err(m) && m@ == "config directory unavailable"@,
            (None, Some(dir)) => r matches Ok(p) && p@ == std_path_join(
                std_path_join(dir@, "openmacro"@),
                "sync"@,
            ),
        },
{
    if let Some(dir) = env_override {
        return Ok(dir);
    }
    match config_dir {
        None => Err(String::from_str("config directory unavailable")),
        Some(dir) => {
            let base = path_join(dir.as_str(), "openmacro");
            Ok(path_join(base.as_str(), "sync"))
        },
    }
}


impl From<TickReport> for TickReportDto {
    fn from(value: TickReport) -> (r: Self) {
        TickReportDto::from_report(value)
    }
}

impl vstd::std_specs::convert::FromSpecImpl<TickReport> for TickReportDto {
    open spec fn obeys_from_spec() -> bool {
        false
    }

    open spec fn from_spec(v: TickReport) -> Self {
        arbitrary()
    }
}

impl From<SyncStatus> for SyncStatusDto {
    fn from(value: SyncStatus) -> (r: Self) {
        SyncStatusDto::from_status(value)
    }
}

impl vstd::std_specs::convert::FromSpecImpl<SyncStatus> for SyncStatusDto {
    open spec fn obeys_from_spec() -> bool {
        true
    }

    open spec fn from_spec(v: SyncStatus) -> Self {
        SyncStatusDto {
            branch: v.branch,
            ahead: v.ahead,
            behind: v.behind,
            last_tick_unix: v.last_tick_unix,
        }
    }
}

} // verus!
