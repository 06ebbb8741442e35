//! Printer-registry vocabulary: printer, supply and job states, and the
//! capability record of one device.

use vstd::prelude::*;

verus! {

/// The reachability state of one printer.
#[derive(Debug, Clone, Copy, PartialEq, Eq, Structural)]
pub enum PrinterStatus {
    Online,
    Offline,
    Error,
    Warning,
    Maintenance,
}

/// The kind of a consumable supply.
#[derive(Debug, Clone, Copy, PartialEq, Eq, Structural)]
pub enum SupplyType {
    Toner,
    Ink,
    Drum,
    Fuser,
    TransferBelt,
    WasteToner,
    Staples,
    Paper,
    Other,
}

/// The fill state of a consumable supply.
#[derive(Debug, Clone, Copy, PartialEq, Eq, Structural)]
pub enum SupplyStatus {
    OK,
    Low,
    Empty,
    Unknown,
}

/// What one printer can do.
#[derive(Debug, Clone)]
pub struct PrinterCapabilities {
    pub color: bool,
    pub duplex: bool,
    pub paper_sizes: Vec<String>,
    pub scanner: bool,
    pub fax: bool,
    pub pages_per_minute: Option<u32>,
}

/// The progress state of one print job.
#[derive(Debug, Clone, Copy, PartialEq, Eq, Structural)]
pub enum PrintJobStatus {
    Pending,
    Processing,
    Completed,
    Failed,
    Cancelled,
}

} // verus!
