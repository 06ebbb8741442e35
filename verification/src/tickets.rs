//! Ticket-tracker vocabulary: the state, priority and category of one
//! ticket.

use vstd::prelude::*;

verus! {

/// The handling state of one ticket.
#[derive(Debug, Clone, Copy, PartialEq, Eq, Structural)]
pub enum TicketStatus {
    Open,
    InProgress,
    Pending,
    Resolved,
    Closed,
}

/// The urgency of one ticket.
#[derive(Debug, Clone, Copy, PartialEq, Eq, Structural)]
pub enum TicketPriority {
    Low,
    Medium,
    High,
    Critical,
}

/// The subject area of one ticket.
#[derive(Debug, Clone, Copy, PartialEq, Eq, Structural)]
pub enum TicketCategory {
    Access,
    Hardware,
    Software,
    Network,
    Security,
    Other,
}

} // verus!
