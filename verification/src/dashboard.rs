//! The terminal dashboard's decisions: what each key press, idle moment or
//! finished scan asks the dashboard to do, and the status line it leaves.
use vstd::prelude::*;

use crate::models::ScanRecord;
use crate::report::number;
use crate::text::{decimal, opt_view};

verus! {

/// A key press, as far as the dashboard tells keys apart.
#[derive(Debug, Clone, Copy, PartialEq, Eq)]
pub enum DashboardKey {
    Char(char),
    Escape,
    Other,
}

/// What happened since the dashboard last drew itself.
#[derive(Debug, Clone, PartialEq, Eq)]
pub enum DashboardEvent {
    /// A key was pressed.
    Key(DashboardKey),
    /// No key came within the poll window; the data was last loaded this
    /// many milliseconds ago.
    Idle { since_refresh_millis: u64 },
    /// The scan that a key started finished with these counts.
    ScanCompleted { inventory: usize, findings: usize, errors: usize },
    /// The scan that a key started failed with this message.
    ScanFailed(String),
}

/// What the dashboard does next.
#[derive(Debug, Clone, Copy, PartialEq, Eq)]
pub enum DashboardAction {
    Quit,
    /// Show the new status, then run a scan and report how it ended.
    StartScan,
    /// Load the data again and restart the refresh clock.
    Reload,
    Stay,
}

pub open spec fn help_text() -> Seq<char> {
    "q quit | r run scan | R refresh"@
}

pub open spec fn completed_text(inventory: nat, findings: nat, errors: nat) -> Seq<char> {
    "Scan completed: "@ + decimal(inventory) + " inventory, "@ + decimal(findings)
        + " findings, "@ + decimal(errors) + " errors"@
}

/// The action for `event` and the status line it sets (`None` keeps the
/// status line as it is).
pub open spec fn step_of(event: DashboardEvent, refresh_interval_millis: u64) -> (
    DashboardAction,
    Option<Seq<char>>,
) {
    match event {
        DashboardEvent::Key(DashboardKey::Escape) => (DashboardAction::Quit, None),
        DashboardEvent::Key(DashboardKey::Char(c)) => if c == 'q' {
            (DashboardAction::Quit, None)
        } else if c == 'r' {
            (DashboardAction::StartScan, Some("Running scan..."@))
        } else if c == 'R' {
            (DashboardAction::Reload, Some("Dashboard refreshed"@))
        } else {
            (DashboardAction::Stay, None)
        },
        DashboardEvent::Key(DashboardKey::Other) => (DashboardAction::Stay, None),
        DashboardEvent::Idle { since_refresh_millis } => if since_refresh_millis
            >= refresh_interval_millis {
            (DashboardAction::Reload, None)
        } else {
            (DashboardAction::Stay, None)
        },
        DashboardEvent::ScanCompleted { inventory, findings, errors } => (
            DashboardAction::Reload,
            Some(completed_text(inventory as nat, findings as nat, errors as nat)),
        ),
        DashboardEvent::ScanFailed(message) => (
            DashboardAction::Stay,
            Some("Scan failed: "@ + message@),
        ),
    }
}

/// The status line the dashboard opens with.
pub fn dashboard_help_status() -> (s: String)
    ensures
        s@ == help_text(),
{
    String::from_str("q quit | r run scan | R refresh")
}

/// The status line after a finished scan: its inventory, finding and
/// scanner-error counts.
pub fn scan_completed_status(inventory: usize, findings: usize, errors: usize) -> (s: String)
    ensures
        s@ == completed_text(inventory as nat, findings as nat, errors as nat),
{
    let mut s = String::from_str("Scan completed: ");
    let n = number(inventory);
    s.append(n.as_str());
    s.append(" inventory, ");
    let n = number(findings);
    s.append(n.as_str());
    s.append(" findings, ");
    let n = number(errors);
    s.append(n.as_str());
    s.append(" errors");
    s
}

/// The event that reports a finished scan of `scan`.
pub fn scan_completed_event(scan: &ScanRecord) -> (e: DashboardEvent)
    ensures
        e == (DashboardEvent::ScanCompleted {
            inventory: scan.inventory_count,
            findings: scan.finding_count,
            errors: scan.scanner_errors.len(),
        }),
{
    DashboardEvent::ScanCompleted {
        inventory: scan.inventory_count,
        findings: scan.finding_count,
        errors: scan.scanner_errors.len(),
    }
}

/// One step of the dashboard: `q` or Escape quits; `r` shows "Running
/// scan..." and starts a scan, whose end reloads the data and reports its
/// counts, or reports its failure; `R` reloads and says so; an idle moment
/// reloads once the refresh interval has passed; any other key does nothing.
pub fn dashboard_step(event: DashboardEvent, refresh_interval_millis: u64) -> (r: (
    DashboardAction,
    Option<String>,
))
    ensures
        r.0 == step_of(event, refresh_interval_millis).0,
        opt_view(r.1) == step_of(event, refresh_interval_millis).1,
{
    match event {
        DashboardEvent::Key(DashboardKey::Escape) => (DashboardAction::Quit, None),
        DashboardEvent::Key(DashboardKey::Char(c)) => {
            if c == 'q' {
                (DashboardAction::Quit, None)
            } else if c == 'r' {
                (DashboardAction::StartScan, Some(String::from_str("Running scan...")))
            } else if c == 'R' {
                (DashboardAction::Reload, Some(String::from_str("Dashboard refreshed")))
            } else {
                (DashboardAction::Stay, None)
            }
        },
        DashboardEvent::Key(DashboardKey::Other) => (DashboardAction::Stay, None),
        DashboardEvent::Idle { since_refresh_millis } => {
            if since_refresh_millis >= refresh_interval_millis {
                (DashboardAction::Reload, None)
            } else {
                (DashboardAction::Stay, None)
            }
        },
        DashboardEvent::ScanCompleted { inventory, findings, errors } => (
            DashboardAction::Reload,
            Some(scan_completed_status(inventory, findings, errors)),
        ),
        DashboardEvent::ScanFailed(message) => {
            let mut s = String::from_str("Scan failed: ");
            s.append(message.as_str());
            (DashboardAction::Stay, Some(s))
        },
    }
}

} // verus!
