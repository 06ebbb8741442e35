//! Shared data vocabulary: user roles, log and alert severities and
//! states, asset and scan classifications.

use vstd::prelude::*;

verus! {

/// The role a user acts under.
#[derive(Debug, Clone, Copy, PartialEq, Eq, Structural)]
pub enum UserRole {
    Admin,
    Technician,
    User,
}

/// The severity of one log entry.
#[derive(Debug, Clone, Copy, PartialEq, Eq, Structural)]
pub enum LogSeverity {
    Debug,
    Info,
    Warning,
    Error,
    Critical,
}

/// The upper-case label of a log severity.
pub open spec fn severity_chars(s: LogSeverity) -> Seq<char> {
    match s {
        LogSeverity::Debug => "DEBUG"@,
        LogSeverity::Info => "INFO"@,
        LogSeverity::Warning => "WARNING"@,
        LogSeverity::Error => "ERROR"@,
        LogSeverity::Critical => "CRITICAL"@,
    }
}

impl LogSeverity {
    /// The severity's upper-case label.
    pub fn label(&self) -> (r: &'static str)
        ensures
            r@ == severity_chars(*self),
    {
        match self {
            LogSeverity::Debug => "DEBUG",
            LogSeverity::Info => "INFO",
            LogSeverity::Warning => "WARNING",
            LogSeverity::Error => "ERROR",
            LogSeverity::Critical => "CRITICAL",
        }
    }
}

/// The severity of one alert.
#[derive(Debug, Clone, Copy, PartialEq, Eq, Structural)]
pub enum AlertSeverity {
    Low,
    Medium,
    High,
    Critical,
}

/// The handling state of one alert.
#[derive(Debug, Clone, Copy, PartialEq, Eq, Structural)]
pub enum AlertStatus {
    New,
    Acknowledged,
    InProgress,
    Resolved,
    Closed,
}

/// The kind of a tracked asset.
#[derive(Debug, Clone, Copy, PartialEq, Eq, Structural)]
pub enum AssetType {
    Workstation,
    Server,
    Laptop,
    NetworkDevice,
    Printer,
    Mobile,
    Other,
}

/// The lifecycle state of a tracked asset.
#[derive(Debug, Clone, Copy, PartialEq, Eq, Structural)]
pub enum AssetStatus {
    Active,
    Maintenance,
    Retired,
    Lost,
}

/// The progress state of one network scan.
#[derive(Debug, Clone, Copy, PartialEq, Eq, Structural)]
pub enum ScanStatus {
    Scheduled,
    Running,
    Completed,
    Failed,
}

/// The severity of one scan finding.
#[derive(Debug, Clone, Copy, PartialEq, Eq, Structural)]
pub enum FindingSeverity {
    Informational,
    Low,
    Medium,
    High,
    Critical,
}

} // verus!
