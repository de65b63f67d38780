//! The records the orchestrator keeps, the events it publishes and the
//! errors it reports. An identity is the 32 bytes of a ledger address; a
//! ciphertext is 32 opaque bytes.

use vstd::prelude::*;

verus! {

/// A user's encrypted limit. One exists per owner; storing a limit again
/// replaces `limit` and never `owner`.
#[derive(Clone, Copy, Debug, PartialEq, Eq)]
pub struct LimitData {
    pub owner: [u8; 32],
    pub limit: [u8; 32],
}

/// Where a swap stands. `Computed`, `Executed` and `Failed` are kept for
/// the consumers that follow a computation; the orchestrator itself moves a
/// record from `Initiated` to `Computing` and no further.
#[derive(Clone, Copy, Debug, PartialEq, Eq)]
pub enum SwapStatus {
    Initiated,
    Computing,
    Computed,
    Executed,
    Failed,
}

/// The record of one swap, kept per user and computation offset.
#[derive(Clone, Copy, Debug, PartialEq, Eq)]
pub struct SwapState {
    pub user: [u8; 32],
    pub computation_offset: u64,
    pub amount: u64,
    pub min_output: u64,
    pub status: SwapStatus,
    pub created_at: i64,
}

impl SwapState {
    /// The record of a swap that was just opened: nothing of the order is
    /// known in the clear, so both amounts are zero.
    pub open spec fn initiated_at(user: [u8; 32], computation_offset: u64, now: i64) -> SwapState {
        SwapState {
            user,
            computation_offset,
            amount: 0,
            min_output: 0,
            status: SwapStatus::Initiated,
            created_at: now,
        }
    }

    /// This record with another status and everything else as it was.
    pub open spec fn with_status(self, status: SwapStatus) -> SwapState {
        SwapState {
            user: self.user,
            computation_offset: self.computation_offset,
            amount: self.amount,
            min_output: self.min_output,
            status,
            created_at: self.created_at,
        }
    }

    /// Opens the record of a swap.
    pub fn initiated(user: [u8; 32], computation_offset: u64, now: i64) -> (state: SwapState)
        ensures
            state == SwapState::initiated_at(user, computation_offset, now),
    {
        SwapState {
            user,
            computation_offset,
            amount: 0,
            min_output: 0,
            status: SwapStatus::Initiated,
            created_at: now,
        }
    }

    /// Whether the record still waits for its dispatch to be settled.
    pub fn is_initiated(&self) -> (initiated: bool)
        ensures
            initiated == (self.status == SwapStatus::Initiated),
    {
        match self.status {
            SwapStatus::Initiated => true,
            _ => false,
        }
    }

    /// Marks the record as handed to the cluster.
    pub fn computing(&self) -> (state: SwapState)
        ensures
            state == self.with_status(SwapStatus::Computing),
    {
        SwapState {
            user: self.user,
            computation_offset: self.computation_offset,
            amount: self.amount,
            min_output: self.min_output,
            status: SwapStatus::Computing,
            created_at: self.created_at,
        }
    }
}

/// Published when a swap is opened. Part of the event schema; no operation
/// of the orchestrator publishes it.
#[derive(Clone, Copy, Debug, PartialEq, Eq)]
pub struct ConfidentialSwapInitiatedEvent {
    pub user: [u8; 32],
    pub config: [u8; 32],
    pub computation_offset: u64,
}

/// Published once for every computation that came back with a result. The
/// two ciphertexts stay encrypted: only the requester can read them.
#[derive(Clone, Copy, Debug, PartialEq, Eq)]
pub struct ConfidentialSwapExecutedEvent {
    pub user: [u8; 32],
    pub execute: [u8; 32],
    pub withdraw_amount: [u8; 32],
    pub nonce: u128,
}

/// Published when a swap fails. Part of the event schema; no operation of
/// the orchestrator publishes it.
#[derive(Clone, Debug, PartialEq, Eq)]
pub struct ConfidentialSwapFailedEvent {
    pub user: [u8; 32],
    pub config: [u8; 32],
    pub computation_offset: u64,
    pub reason: String,
}

/// The program's error codes.
#[derive(Clone, Copy, Debug, PartialEq, Eq)]
pub enum ErrorCode {
    AbortedComputation,
    ClusterNotSet,
    PoolLocked,
    SlippageExceded,
    InvalidAmount,
    InvalidAuthority,
}

impl ErrorCode {
    /// The message that goes with each code.
    pub open spec fn message_text(self) -> Seq<char> {
        match self {
            ErrorCode::AbortedComputation => "The computation was aborted"@,
            ErrorCode::ClusterNotSet => "Cluster not set"@,
            ErrorCode::PoolLocked => "This pool is locked"@,
            ErrorCode::SlippageExceded => "Slippage exceeded"@,
            ErrorCode::InvalidAmount => "Invalid Amount"@,
            ErrorCode::InvalidAuthority => "Invalid update authority"@,
        }
    }

    /// The message of this code, as a string.
    pub fn message(&self) -> (text: String)
        ensures
            text@ == self.message_text(),
    {
        match self {
            ErrorCode::AbortedComputation => "The computation was aborted".to_owned(),
            ErrorCode::ClusterNotSet => "Cluster not set".to_owned(),
            ErrorCode::PoolLocked => "This pool is locked".to_owned(),
            ErrorCode::SlippageExceded => "Slippage exceeded".to_owned(),
            ErrorCode::InvalidAmount => "Invalid Amount".to_owned(),
            ErrorCode::InvalidAuthority => "Invalid update authority".to_owned(),
        }
    }
}

/// Why the orchestrator refused to open a swap or to settle its dispatch.
#[derive(Clone, Copy, Debug, PartialEq, Eq)]
pub enum SwapError {
    /// The user has stored no limit.
    MissingLimit,
    /// The user already has a swap under this computation offset.
    DuplicateOffset,
    /// No swap of the user under this offset waits for its dispatch.
    NotInitiated,
    /// The computation network did not take the request.
    DispatchFailed,
}

} // verus!
