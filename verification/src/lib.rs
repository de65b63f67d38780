//! Confidential limit orders: the decision circuit that compares an order's
//! amount with its owner's limit, and the ledger-side orchestrator that
//! records limits, opens swaps, prepares their dispatch to the computation
//! cluster and turns the cluster's answers into events.

pub mod circuits;
pub mod protocol;
pub mod state;
pub mod orchestrator;
